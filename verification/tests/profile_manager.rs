use ultimate64_manager::profile_manager::{
    is_path_field, parent_or_root_of, picker_start_path, RemotePickerState, ViewMode,
};
use ultimate64_manager::remote_browser::RemoteFileEntry;

fn entry(name: &str, path: &str, is_dir: bool) -> RemoteFileEntry {
    RemoteFileEntry { name: name.to_string(), is_dir, size: 0, path: path.to_string() }
}

#[test]
fn picker_start_cases() {
    assert_eq!(picker_start_path(""), "/");
    assert_eq!(picker_start_path("/USB0/"), "/USB0/");
    assert_eq!(picker_start_path("/USB0/games/reu.bin"), "/USB0/games");
    assert_eq!(picker_start_path("/reu.bin"), "/");
    assert_eq!(picker_start_path("reu.bin"), "/");
}

#[test]
fn parent_or_root_cases() {
    assert_eq!(parent_or_root_of("/USB0/games"), "/USB0");
    assert_eq!(parent_or_root_of("/USB0"), "/");
    assert_eq!(parent_or_root_of("nothing"), "/");
}

#[test]
fn open_without_device_fails() {
    let r = RemotePickerState::open("Cat".to_string(), "Key".to_string(), "/a/b.reu", None);
    match r {
        Err(e) => assert_eq!(e, "Not connected to device"),
        Ok(_) => panic!("opened without a device"),
    }
}

#[test]
fn open_and_browse() {
    let (mut p, f) = match RemotePickerState::open(
        "C64 and Cartridge Settings".to_string(),
        "REU Preload Image".to_string(),
        "/USB0/reu/file.reu",
        Some("http://192.168.1.64"),
    ) {
        Ok(x) => x,
        Err(e) => panic!("{}", e),
    };
    assert_eq!(f.host, "192.168.1.64");
    assert_eq!(f.path, "/USB0/reu");
    assert_eq!(p.current_path, "/USB0/reu");
    assert_eq!(p.path_input, "/USB0/reu");
    assert!(p.is_loading);
    assert_eq!(p.up_target(), Some("/USB0".to_string()));

    p.listed(Ok(("/USB0/reu".to_string(), vec![entry("a.reu", "/USB0/reu/a.reu", false)])));
    assert!(!p.is_loading);
    assert_eq!(p.entries.len(), 1);
    assert!(p.error.is_none());

    p.path_input_changed("/SD".to_string());
    let f2 = p.go_to_path(Some("https://u64")).unwrap();
    assert_eq!(f2.host, "u64");
    assert_eq!(f2.path, "/SD");
    assert_eq!(p.current_path, "/SD");
    assert!(p.is_loading);

    p.listed(Err("550 not found".to_string()));
    assert_eq!(p.error, Some("550 not found".to_string()));
    assert!(p.entries.is_empty());
    assert_eq!(p.current_path, "/SD");

    assert!(p.navigate("/Flash".to_string(), None).is_none());
    assert_eq!(p.current_path, "/SD");

    let (c, k, path) = p.select("/SD/x.reu".to_string());
    assert_eq!(c, "C64 and Cartridge Settings");
    assert_eq!(k, "REU Preload Image");
    assert_eq!(path, "/SD/x.reu");
}

#[test]
fn up_target_at_root() {
    let (mut p, _) =
        RemotePickerState::open("c".to_string(), "k".to_string(), "", Some("h")).ok().unwrap();
    assert_eq!(p.current_path, "/");
    assert_eq!(p.up_target(), None);
    p.navigate("/Temp".to_string(), Some("h"));
    assert_eq!(p.up_target(), Some("/".to_string()));
}

#[test]
fn path_field_heuristic() {
    assert!(is_path_field("REU Preload Image", None));
    assert!(is_path_field("Default Path", Some("x")));
    assert!(is_path_field("Home Directory", None));
    assert!(is_path_field("Something", Some("  /USB0/x")));
    assert!(!is_path_field("Something", Some("On")));
    assert!(!is_path_field("Volume", None));
}

#[test]
fn view_modes_differ() {
    assert_ne!(ViewMode::ProfileList, ViewMode::ProfileEditor);
    assert_eq!(ViewMode::RawJson, ViewMode::RawJson);
}
