use ultimate64_manager::remote_browser::RemoteBrowser;

#[test]
fn getters_report_the_state() {
    let mut b = RemoteBrowser::new(vec!["/USB0/games".to_string()]);
    assert!(b.is_favorite("/USB0/games"));
    assert!(!b.is_favorite("/SD"));
    b.current_path = "/USB0".to_string();
    b.filter = "giana".to_string();
    b.selected_file = Some("/USB0/giana.d64".to_string());
    assert_eq!(b.get_current_path(), "/USB0");
    assert_eq!(b.filter(), "giana");
    assert_eq!(b.get_selected_file(), Some("/USB0/giana.d64"));
    b.toggle_file_check("/USB0/a.d64".to_string(), true);
    b.toggle_file_check("/USB0/b.d64".to_string(), true);
    assert_eq!(b.get_checked_files(), vec!["/USB0/a.d64", "/USB0/b.d64"]);
    b.clear_checked();
    assert!(b.get_checked_files().is_empty());
}
