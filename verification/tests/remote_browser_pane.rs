use ultimate64_manager::file_types::{SortColumn, SortOrder};
use ultimate64_manager::remote_browser::{
    games_from_listings, BrowserAction, GameEntry, RemoteBrowser, RemoteFileEntry, RunKind, TransferProgress,
};

fn entry(name: &str, is_dir: bool, size: u64, dir: &str) -> RemoteFileEntry {
    let path = if dir == "/" { format!("/{}", name) } else { format!("{}/{}", dir, name) };
    RemoteFileEntry { name: name.to_string(), is_dir, size, path }
}

fn connected() -> RemoteBrowser {
    let mut b = RemoteBrowser::new(vec!["/Usb0/Games".to_string()]);
    b.set_host(Some("http://192.168.1.64".to_string()), Some("pw".to_string()));
    b
}

fn status(b: &RemoteBrowser) -> &str {
    b.status_message.as_deref().unwrap_or("")
}

#[test]
fn new_browser_is_disconnected_at_root() {
    let mut b = RemoteBrowser::new(Vec::new());
    assert_eq!(b.current_path, "/");
    assert_eq!(status(&b), "Not connected");
    assert!(matches!(b.refresh_files(), BrowserAction::Nothing));
    assert!(!b.is_connected);
}

#[test]
fn set_host_strips_schemes_and_disconnect_clears() {
    let mut b = connected();
    assert_eq!(b.host_address.as_deref(), Some("192.168.1.64"));
    assert!(b.is_connected);
    b.set_host(Some("https://https://c64".to_string()), None);
    assert_eq!(b.host_address.as_deref(), Some("c64"));
    b.files = vec![entry("a.prg", false, 1, "/")];
    b.set_host(None, None);
    assert!(b.files.is_empty());
    assert_eq!(status(&b), "Not connected");
}

#[test]
fn listing_is_sorted_and_root_dirs_kept() {
    let mut b = connected();
    match b.refresh_files() {
        BrowserAction::FetchFiles { host, path, password } => {
            assert_eq!(host, "192.168.1.64");
            assert_eq!(path, "/");
            assert_eq!(password.as_deref(), Some("pw"));
        }
        other => panic!("{:?}", other),
    }
    assert!(b.is_loading);
    assert_eq!(status(&b), "Loading...");
    let files = vec![entry("zork.prg", false, 10, "/"), entry("Usb0", true, 0, "/"), entry("Temp", true, 0, "/")];
    assert!(matches!(b.files_loaded(Ok(files)), BrowserAction::Nothing));
    assert!(!b.is_loading);
    assert_eq!(status(&b), "3 items");
    assert_eq!(b.root_dirs, vec!["Usb0".to_string(), "Temp".to_string()]);
    let names: Vec<&str> = b.files.iter().map(|f| f.name.as_str()).collect();
    assert_eq!(names, vec!["Temp", "Usb0", "zork.prg"]);
    b.sort_by(SortColumn::Name);
    assert_eq!(b.sort_order, SortOrder::Descending);
    let names: Vec<&str> = b.files.iter().map(|f| f.name.as_str()).collect();
    assert_eq!(names, vec!["Usb0", "Temp", "zork.prg"]);
}

#[test]
fn selecting_entering_and_going_up() {
    let mut b = connected();
    b.files_loaded(Ok(vec![entry("Usb0", true, 0, "/"), entry("x.prg", false, 5, "/")]));
    assert!(matches!(b.file_selected("/x.prg".to_string()), BrowserAction::Nothing));
    assert_eq!(b.selected_file.as_deref(), Some("/x.prg"));
    b.toggle_file_check("/x.prg".to_string(), true);
    match b.file_selected("/Usb0".to_string()) {
        BrowserAction::FetchFiles { path, .. } => assert_eq!(path, "/Usb0"),
        other => panic!("{:?}", other),
    }
    assert_eq!(b.current_path, "/Usb0");
    assert!(b.selected_file.is_none());
    assert!(b.checked_files.is_empty());
    b.navigate_to_path("/Usb0/Games/Elite".to_string());
    b.navigate_up();
    assert_eq!(b.current_path, "/Usb0/Games");
    b.navigate_up();
    b.navigate_up();
    assert_eq!(b.current_path, "/");
    assert!(matches!(b.navigate_up(), BrowserAction::Nothing));
}

#[test]
fn checks_select_all_and_delete_summary() {
    let mut b = connected();
    b.files_loaded(Ok(vec![entry("a.prg", false, 1, "/"), entry("d1", true, 0, "/"), entry("d2", true, 0, "/")]));
    assert!(matches!(b.delete_checked(), BrowserAction::Nothing));
    assert_eq!(status(&b), "No files selected");
    b.toggle_file_check("/a.prg".to_string(), true);
    b.toggle_file_check("/a.prg".to_string(), true);
    assert_eq!(b.checked_files, vec!["/a.prg".to_string()]);
    b.select_all();
    assert_eq!(b.checked_files.len(), 3);
    let (files, dirs) = b.get_checked_files_and_dirs();
    assert_eq!(files, vec!["/a.prg".to_string()]);
    assert_eq!(dirs.len(), 2);
    b.delete_checked();
    assert_eq!(b.delete_pending.as_ref().unwrap().summary, "Delete 1 file(s) and 2 directories? (recursive)");
    b.toggle_file_check("/a.prg".to_string(), false);
    b.delete_checked();
    assert_eq!(b.delete_pending.as_ref().unwrap().summary, "Delete 2 directories? (recursive)");
    match b.delete_confirm() {
        BrowserAction::Delete { paths, .. } => {
            assert!(paths.iter().all(|(_, is_dir)| *is_dir));
            assert_eq!(paths.len(), 2);
        }
        other => panic!("{:?}", other),
    }
    assert_eq!(status(&b), "Deleting 2 item(s)...");
    assert!(b.is_transferring());
    assert!(b.delete_pending.is_none());
    b.delete_complete(Err("550".to_string()));
    assert_eq!(status(&b), "Delete failed: 550");
    assert!(b.checked_files.is_empty());
    assert!(!b.is_transferring());
}

#[test]
fn single_delete_question() {
    let mut b = connected();
    b.files_loaded(Ok(vec![entry("Games", true, 0, "/")]));
    b.delete_file("/Games".to_string());
    assert_eq!(b.delete_pending.as_ref().unwrap().summary, "Delete directory \"Games\" and ALL its contents?");
    b.delete_file("/x.d64".to_string());
    assert_eq!(b.delete_pending.as_ref().unwrap().summary, "Delete file \"x.d64\"?");
    b.delete_cancel();
    assert!(b.delete_pending.is_none());
}

#[test]
fn rename_flow() {
    let mut b = connected();
    b.rename_file("/Usb0/old.prg".to_string());
    assert_eq!(b.rename_pending.as_ref().unwrap().new_name, "old.prg");
    b.rename_input_changed("  new.prg ".to_string());
    match b.rename_confirm() {
        BrowserAction::Rename { old_path, new_path, .. } => {
            assert_eq!(old_path, "/Usb0/old.prg");
            assert_eq!(new_path, "/Usb0/new.prg");
        }
        other => panic!("{:?}", other),
    }
    assert_eq!(status(&b), "Renaming to new.prg...");
    b.rename_file("/top.prg".to_string());
    b.rename_input_changed("   ".to_string());
    assert!(matches!(b.rename_confirm(), BrowserAction::Nothing));
    assert_eq!(status(&b), "Name cannot be empty");
    b.rename_file("/top.prg".to_string());
    assert!(matches!(b.rename_confirm(), BrowserAction::Nothing));
    assert!(b.rename_pending.is_none());
    b.rename_file("/top.prg".to_string());
    b.rename_input_changed("other.prg".to_string());
    match b.rename_confirm() {
        BrowserAction::Rename { new_path, .. } => assert_eq!(new_path, "/other.prg"),
        other => panic!("{:?}", other),
    }
}

#[test]
fn create_directory_in_current() {
    let mut b = connected();
    b.navigate_to_path("/Usb0/".to_string());
    b.show_create_dir();
    assert!(b.show_create_dir);
    b.create_dir_name_changed("  Demos ".to_string());
    match b.create_dir_confirm() {
        BrowserAction::MakeDirectory { host, path, .. } => {
            assert_eq!(host, "192.168.1.64");
            assert_eq!(path, "/Usb0/Demos");
        }
        other => panic!("{:?}", other),
    }
    assert!(!b.show_create_dir);
    b.create_dir_complete(Err("exists".to_string()));
    assert_eq!(status(&b), "Error: exists");
}

#[test]
fn favorites_toggle_and_stale_removal() {
    let mut b = connected();
    b.navigate_to_path("/Usb0/Demos".to_string());
    match b.toggle_current_favorite() {
        BrowserAction::SaveFavorites { favorites } => {
            assert_eq!(favorites, vec!["/Usb0/Games".to_string(), "/Usb0/Demos".to_string()])
        }
        other => panic!("{:?}", other),
    }
    assert_eq!(status(&b), "★ Added to favorites");
    b.toggle_current_favorite();
    assert_eq!(status(&b), "Removed from favorites");
    assert_eq!(b.favorites, vec!["/Usb0/Games".to_string()]);
    b.open_context_menu("/Usb0/Games".to_string());
    b.toggle_favorite("/Usb0/Games".to_string());
    assert_eq!(status(&b), "Removed: Games");
    assert!(b.context_menu_for.is_none());
    b.toggle_favorite("/Usb0/Games".to_string());
    assert_eq!(status(&b), "★ Games");
    b.navigate_to_favorite("/Usb0/Games".to_string());
    assert_eq!(b.pending_favorite_check.as_deref(), Some("/Usb0/Games"));
    match b.files_loaded(Err("No such directory".to_string())) {
        BrowserAction::SaveFavorites { favorites } => assert!(favorites.is_empty()),
        other => panic!("{:?}", other),
    }
    assert_eq!(status(&b), "Removed missing favorite: Games (/Usb0/Games) — No such directory");
    assert!(b.pending_favorite_check.is_none());
}

#[test]
fn path_field_submit_makes_absolute() {
    let mut b = connected();
    b.path_input_changed("  Usb0/Music ".to_string());
    match b.path_input_submit() {
        BrowserAction::FetchFiles { path, .. } => assert_eq!(path, "/Usb0/Music"),
        other => panic!("{:?}", other),
    }
    b.path_input_changed("   ".to_string());
    assert!(matches!(b.path_input_submit(), BrowserAction::Nothing));
    assert_eq!(b.current_path, "/Usb0/Music");
}

#[test]
fn transfers_and_progress_line() {
    let mut b = connected();
    match b.download_file("/Usb0/game.d64".to_string()) {
        BrowserAction::Download { remote_path, .. } => assert_eq!(remote_path, "/Usb0/game.d64"),
        other => panic!("{:?}", other),
    }
    assert_eq!(status(&b), "Downloading game.d64...");
    let p = b.transfer.clone().unwrap();
    assert_eq!((p.current, p.total, p.operation.as_str()), (0, 1, "Downloading"));
    b.transfer = Some(TransferProgress { current: 2, total: 5, current_file: "f.prg".to_string(), ..p });
    b.progress_tick();
    assert_eq!(status(&b), "Downloading (2/5) f.prg");
    b.cancel_transfer();
    assert!(b.transfer.as_ref().unwrap().cancelled);
    b.progress_tick();
    assert!(!b.is_transferring());
    b.upload_file("/home/me/intro.prg".to_string(), "/Usb0/intro.prg".to_string());
    assert_eq!(status(&b), "Uploading intro.prg...");
    assert!(matches!(b.upload_complete(Ok("intro.prg".to_string())), BrowserAction::FetchFiles { .. }));
    assert_eq!(status(&b), "Loading...");
    b.upload_file_to_dir("/home/me/a.sid".to_string(), "/Usb0/Music".to_string());
    assert_eq!(status(&b), "Uploading a.sid → /Usb0/Music…");
    b.download_complete(Err("timeout".to_string()));
    assert_eq!(status(&b), "Download failed: timeout");
}

#[test]
fn runners_and_mounts() {
    let mut b = connected();
    match b.start_runner(RunKind::PlaySid, "/Usb0/x.sid".to_string()) {
        BrowserAction::Run { kind, path, .. } => {
            assert_eq!(kind, RunKind::PlaySid);
            assert_eq!(path, "/Usb0/x.sid");
        }
        other => panic!("{:?}", other),
    }
    assert_eq!(status(&b), "Playing SID...");
    b.mount_disk("/Usb0/d.d64".to_string(), "b".to_string(), "readwrite".to_string());
    assert_eq!(status(&b), "Mounting to drive B...");
    b.mount_complete(Err("busy".to_string()));
    assert_eq!(status(&b), "Mount failed: busy");
    b.runner_complete(Err("x".to_string()));
    assert_eq!(status(&b), "Failed: x");
    let mut off = RemoteBrowser::new(Vec::new());
    assert!(matches!(off.run_disk("/a.d64".to_string(), "a".to_string()), BrowserAction::Nothing));
    assert_eq!(status(&off), "Not connected");
}

#[test]
fn batch_download_counts_listed_items() {
    let mut b = connected();
    b.files_loaded(Ok(vec![entry("a.prg", false, 1, "/"), entry("d", true, 0, "/")]));
    b.select_all();
    b.toggle_file_check("/gone.prg".to_string(), true);
    match b.download_checked_to_local("/tmp/out".to_string()) {
        BrowserAction::DownloadBatch { file_paths, dir_paths, local_dest, .. } => {
            assert_eq!(file_paths, vec!["/a.prg".to_string()]);
            assert_eq!(dir_paths, vec!["/d".to_string()]);
            assert_eq!(local_dest, "/tmp/out");
        }
        other => panic!("{:?}", other),
    }
    assert_eq!(status(&b), "Downloading 2 item(s)...");
    b.download_batch_complete(Ok("Downloaded 2".to_string()));
    assert!(b.checked_files.is_empty());
}

#[test]
fn previews_and_disk_info() {
    let mut b = connected();
    b.show_content_preview("/Usb0/readme.txt".to_string());
    assert_eq!(status(&b), "Downloading readme.txt...");
    assert!(b.content_preview_loading);
    b.content_preview_loaded(Err("too big".to_string()));
    assert_eq!(status(&b), "Failed to load content: too big");
    assert!(b.content_preview_path.is_none());
    b.show_disk_info("/Usb0/a.d64".to_string());
    assert!(b.disk_info_loading);
    b.disk_info_loaded(Ok(()));
    assert!(b.disk_info_open);
    b.close_disk_info();
    assert!(!b.disk_info_open && b.disk_info_path.is_none());
}

fn game(title: &str) -> GameEntry {
    GameEntry { title: title.to_string(), path: format!("/Games/{}", title) }
}

#[test]
fn game_mode_flow() {
    let mut b = connected();
    match b.toggle_game_mode(vec![]) {
        BrowserAction::Nothing => {}
        other => panic!("{:?}", other),
    }
    assert_eq!(
        b.game_error.as_deref(),
        Some("No game library set. Add a folder in Settings → Preferences → Game library.")
    );
    b.toggle_game_mode(vec![]);
    assert!(!b.game_mode);
    assert!(matches!(b.toggle_game_mode(vec!["/Games".to_string()]), BrowserAction::EnumerateGames { .. }));
    assert!(b.games_loading);
    match b.games_enumerated(Ok(vec![game("Elite"), game("Zak"), game("Boulder")])) {
        BrowserAction::LoadGameArt { folder, .. } => assert_eq!(folder, "/Games/Elite"),
        other => panic!("{:?}", other),
    }
    assert!(matches!(b.load_game_art_for_selected(), BrowserAction::Nothing));
    b.game_art_loaded("/Games/Elite".to_string(), Ok((Some(vec![1, 2]), None)));
    assert!(b.game_art_loading.is_empty());
    assert_eq!(b.game_art.len(), 1);
    assert!(matches!(b.game_nav(-1), BrowserAction::LoadGameArt { .. }));
    assert_eq!(b.game_selected, 2);
    b.game_nav(4);
    assert_eq!(b.game_selected, 0);
    assert!(matches!(b.game_nav(3), BrowserAction::Nothing));
    assert!(matches!(b.select_game(9), BrowserAction::Nothing));
    match b.run_selected_game() {
        BrowserAction::ResolveGame { folder, .. } => assert_eq!(folder, "/Games/Elite"),
        other => panic!("{:?}", other),
    }
    assert_eq!(status(&b), "Launching Elite…");
    let files = vec![entry("elite.D64", false, 1, "/Games/Elite"), entry("notes.txt", false, 1, "/Games/Elite")];
    match b.game_run_resolved("/Games/Elite".to_string(), Ok(files)) {
        BrowserAction::RunDisk { path, drive, .. } => {
            assert_eq!(path, "/Games/Elite/elite.D64");
            assert_eq!(drive, "a");
        }
        other => panic!("{:?}", other),
    }
    assert!(!b.game_launching);
    b.game_run_resolved("/Games/Zak".to_string(), Ok(vec![entry("x.txt", false, 1, "/Games/Zak")]));
    assert_eq!(status(&b), "Nothing runnable in Zak");
    assert!(matches!(b.games_enumerated(Ok(vec![])), BrowserAction::Nothing));
    assert_eq!(b.game_error.as_deref(), Some("No games found under the configured library."));
}

#[test]
fn games_come_from_root_directories_sorted_by_title() {
    let listings = vec![
        (
            "/Games/A".to_string(),
            Ok(vec![entry("zork", true, 0, "/Games/A"), entry("readme.txt", false, 3, "/Games/A")]),
        ),
        ("/Games/B".to_string(), Err("550 no such dir".to_string())),
        ("/Games/C".to_string(), Ok(vec![entry("Elite", true, 0, "/Games/C")])),
    ];
    let games = games_from_listings(&listings).unwrap();
    let titles: Vec<&str> = games.iter().map(|g| g.title.as_str()).collect();
    assert_eq!(titles, vec!["Elite", "zork"]);
    assert_eq!(games[0].path, "/Games/C/Elite");
    let failed = vec![
        ("/X".to_string(), Err("timeout".to_string())),
        ("/Y".to_string(), Ok(vec![])),
        ("/Z".to_string(), Err("refused".to_string())),
    ];
    assert_eq!(games_from_listings(&failed).unwrap_err(), "/X: timeout; /Z: refused");
    assert!(games_from_listings(&vec![]).unwrap().is_empty());
}

#[test]
fn filter_and_quick_navigation() {
    let mut b = connected();
    let quick = b.quick_nav_targets();
    assert_eq!(quick, vec![("Usb0".to_string(), "/Usb0".to_string()), ("SD".to_string(), "/SD".to_string())]);
    b.files_loaded(Ok(vec![entry("Games", true, 0, "/"), entry("music.SID", false, 1, "/"), entry("x.prg", false, 1, "/")]));
    assert_eq!(b.quick_nav_targets(), vec![("Games".to_string(), "/Games".to_string())]);
    assert_eq!(b.visible_files(), vec![0, 1, 2]);
    b.filter_changed("sid".to_string());
    assert_eq!(b.visible_files(), vec![1]);
}
