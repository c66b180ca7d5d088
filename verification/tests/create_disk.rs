use ultimate64_manager::remote_browser::{disk_file_name_of, BrowserAction, DiskCreateType, RemoteBrowser};

#[test]
fn dialog_fields_are_normalised() {
    let mut b = RemoteBrowser::new(Vec::new());
    assert_eq!(b.create_disk.name, "NEWDISK");
    assert_eq!(b.create_disk.id, "01 2A");
    b.show_create_disk();
    assert!(b.create_disk.show);
    b.create_disk_name_changed("my games disk number one");
    assert_eq!(b.create_disk.name, "MY GAMES DISK NU");
    b.create_disk_id_changed("ab 2a extra");
    assert_eq!(b.create_disk.id, "AB 2A");
    b.create_disk_type_changed(DiskCreateType::D81);
    assert_eq!(b.disk_file_name_preview(), "MY_GAMES_DISK_NU.d81");
    assert!(!b.can_create_disk());
    assert!(matches!(b.create_disk_confirm(), BrowserAction::Nothing));
    assert!(!b.create_disk.busy);
    b.close_create_disk();
    assert!(!b.create_disk.show);
    assert_eq!(disk_file_name_of("A B", DiskCreateType::D71), "A_B.d71");
}

#[test]
fn disk_is_made_and_listed() {
    let mut b = RemoteBrowser::new(Vec::new());
    b.set_host(Some("http://192.168.1.64".to_string()), None);
    b.is_connected = true;
    b.current_path = "/Usb0".to_string();
    assert!(b.can_create_disk());
    match b.create_disk_confirm() {
        BrowserAction::CreateDisk { host, name, id, disk_type, dest, password } => {
            assert_eq!(host, "192.168.1.64");
            assert_eq!(name, "NEWDISK");
            assert_eq!(id, "01 2A");
            assert_eq!(disk_type, DiskCreateType::D64);
            assert_eq!(dest, "/Usb0");
            assert_eq!(password, None);
        }
        _ => panic!("expected a disk to be made"),
    }
    assert!(b.create_disk.busy);
    assert!(!b.can_create_disk());
    match b.create_disk_complete(Ok("NEWDISK.d64".to_string())) {
        BrowserAction::FetchFiles { path, .. } => assert_eq!(path, "/Usb0"),
        _ => panic!("expected a listing"),
    }
    assert_eq!(b.status_message.as_deref(), Some("Created: NEWDISK.d64"));
    assert!(!b.create_disk.busy);
    assert!(matches!(b.create_disk_complete(Err("full".to_string())), BrowserAction::Nothing));
    assert_eq!(b.status_message.as_deref(), Some("Create failed: full"));
}
