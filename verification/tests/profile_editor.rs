use ultimate64_manager::config_tree::{ConfigTree, ConfigValue};
use ultimate64_manager::profile_manager::{
    entry_summary, mark_as_copy, parse_tags, EditedProfile, MountSlot, ProfileEditor, ProfileMode, RepoFollowUp,
    ViewMode,
};
use ultimate64_manager::profile_repo::ProfileEntry;

fn entry(name: &str, category: &str, path: &str) -> ProfileEntry {
    ProfileEntry {
        id: name.to_lowercase(),
        name: name.to_string(),
        category: category.to_string(),
        mode: "overlay".to_string(),
        config_categories: 0,
        setting_count: 0,
        tags: Vec::new(),
        path: path.to_string(),
        screenshot_path: None,
    }
}

fn text(s: &str) -> ConfigValue {
    ConfigValue::Text(s.to_string())
}

fn baseline() -> ConfigTree {
    let mut b = ConfigTree::new();
    b.set("Audio Mixer".to_string(), "Vol UltiSid 1".to_string(), text("0 dB"));
    b.set("Audio Mixer".to_string(), "Vol UltiSid 2".to_string(), text("-6 dB"));
    b.set("U64 Specific Settings".to_string(), "CPU Speed".to_string(), ConfigValue::Integer(1));
    b
}

fn editor() -> ProfileEditor {
    ProfileEditor::new(
        true,
        vec![entry("Giana", "games", "/repo/games/giana/profile.json")],
        Some(baseline()),
    )
}

#[test]
fn tags_are_split_trimmed_and_kept_non_empty() {
    assert_eq!(parse_tags("a, b ,,c "), vec!["a", "b", "c"]);
    assert_eq!(parse_tags(""), Vec::<String>::new());
    assert_eq!(parse_tags(" , "), Vec::<String>::new());
    assert_eq!(parse_tags("one"), vec!["one"]);
}

#[test]
fn config_tree_operations() {
    let mut t = baseline();
    assert_eq!(t.category_count(), 2);
    assert_eq!(t.setting_count(), 3);
    assert_eq!(t.get("Audio Mixer", "Vol UltiSid 2"), Some(&text("-6 dB")));
    t.set("Audio Mixer".to_string(), "Vol UltiSid 2".to_string(), text("+2 dB"));
    assert_eq!(t.get("Audio Mixer", "Vol UltiSid 2"), Some(&text("+2 dB")));
    assert_eq!(t.setting_count(), 3);
    t.remove_key("Audio Mixer", "Vol UltiSid 1");
    assert_eq!(t.get("Audio Mixer", "Vol UltiSid 1"), None);
    assert_eq!(t.category_count(), 2);
    t.ensure_category("LED Strip Settings".to_string());
    assert_eq!(t.category_count(), 3);
    t.remove_category("Audio Mixer");
    assert_eq!(t.category_count(), 2);
    assert_eq!(t.get("Audio Mixer", "Vol UltiSid 2"), None);
    let mut u = ConfigTree::new();
    u.copy_category_from(&baseline(), "Audio Mixer".to_string());
    assert_eq!(u.setting_count(), 2);
    assert_eq!(u.get("Audio Mixer", "Vol UltiSid 1"), Some(&text("0 dB")));
}

#[test]
fn editor_starts_on_the_list() {
    let e = editor();
    assert_eq!(e.view_mode, ViewMode::ProfileList);
    assert_eq!(e.status_message.as_deref(), Some("Baseline loaded from repository"));
    let e2 = ProfileEditor::new(false, Vec::new(), None);
    assert_eq!(
        e2.status_message.as_deref(),
        Some("Initialize repository and snapshot device baseline to begin")
    );
    assert_eq!(e2.save_category, "uncategorized");
}

#[test]
fn new_profile_and_editing() {
    let mut e = editor();
    e.new_profile();
    assert!(e.is_dirty);
    assert_eq!(e.view_mode, ViewMode::ProfileEditor);
    assert_eq!(e.current.as_ref().unwrap().name, "New Profile");
    assert_eq!(e.current.as_ref().unwrap().mode, ProfileMode::Overlay);

    e.edit_tags_input("shooter, c64 ,".to_string());
    assert_eq!(e.current.as_ref().unwrap().tags, vec!["shooter", "c64"]);
    e.set_profile_mode("Full");
    assert_eq!(e.current.as_ref().unwrap().mode, ProfileMode::Full);
    e.set_profile_mode("Overlay");
    assert_eq!(e.current.as_ref().unwrap().mode, ProfileMode::Overlay);

    e.add_key_from_schema("Audio Mixer".to_string(), "Vol UltiSid 2".to_string());
    e.add_key_from_schema("Audio Mixer".to_string(), "Unknown".to_string());
    let cfg = &e.current.as_ref().unwrap().config;
    assert_eq!(cfg.get("Audio Mixer", "Vol UltiSid 2"), Some(&text("-6 dB")));
    assert_eq!(cfg.get("Audio Mixer", "Unknown"), Some(&text("")));

    e.add_all_keys_from_schema("U64 Specific Settings".to_string());
    let cfg = &e.current.as_ref().unwrap().config;
    assert_eq!(cfg.get("U64 Specific Settings", "CPU Speed"), Some(&ConfigValue::Integer(1)));

    e.select_config_category("Audio Mixer".to_string());
    e.remove_category("Audio Mixer".to_string());
    assert_eq!(e.selected_category, None);
    assert_eq!(e.current.as_ref().unwrap().config.category_count(), 1);

    e.add_category(String::new());
    assert_eq!(e.current.as_ref().unwrap().config.category_count(), 1);
    e.new_category_input_changed("Drive A Settings".to_string());
    e.add_category("Drive A Settings".to_string());
    assert_eq!(e.new_category_input, "");
    assert_eq!(e.selected_category.as_deref(), Some("Drive A Settings"));
    assert_eq!(e.current.as_ref().unwrap().config.category_count(), 2);
}

#[test]
fn mounts_are_edited() {
    let mut e = editor();
    e.new_profile();
    e.mount_path_changed(MountSlot::DriveA, "/USB0/giana.d64".to_string());
    e.mount_autoload_changed(MountSlot::DriveA, true);
    e.mount_path_changed(MountSlot::DriveA, "/USB0/giana2.d64".to_string());
    e.mount_path_changed(MountSlot::Cartridge, "/USB0/ar.crt".to_string());
    {
        let m = &e.current.as_ref().unwrap().mounts;
        let a = m.drive_a.as_ref().unwrap();
        assert_eq!(a.path, "/USB0/giana2.d64");
        assert_eq!(a.media_type, "disk");
        assert!(a.autoload);
        assert_eq!(m.cartridge.as_ref().unwrap().media_type, "cartridge");
        assert!(m.drive_b.is_none());
    }
    e.mount_autoload_changed(MountSlot::DriveB, true);
    assert!(e.current.as_ref().unwrap().mounts.drive_b.is_none());
    e.mount_path_changed(MountSlot::DriveA, String::new());
    assert!(e.current.as_ref().unwrap().mounts.drive_a.is_none());
    e.clear_mount(MountSlot::Cartridge);
    assert!(e.current.as_ref().unwrap().mounts.cartridge.is_none());
}

#[test]
fn loading_profiles() {
    let mut e = editor();
    assert_eq!(e.select_profile(3), None);
    assert_eq!(e.select_profile(0), Some("/repo/games/giana/profile.json".to_string()));
    assert_eq!(e.save_category, "games");
    assert!(e.is_loading);
    assert_eq!(e.status_message.as_deref(), Some("Loading 'Giana'..."));

    let mut p = EditedProfile::new_overlay();
    p.name = "Giana".to_string();
    p.tags = vec!["platform".to_string(), "classic".to_string()];
    p.config = baseline();
    e.profile_loaded(Ok(p));
    assert!(!e.is_loading);
    assert!(!e.is_dirty);
    assert_eq!(e.tags_input, "platform, classic");
    assert_eq!(e.status_message.as_deref(), Some("Loaded 'Giana': 2 categories, 3 settings"));

    let mut c = EditedProfile::new_overlay();
    mark_as_copy(&mut c, "Giana");
    assert_eq!(c.name, "Giana (copy)");
    e.profile_loaded(Ok(c));
    assert!(e.is_dirty);

    e.profile_loaded(Err("missing".to_string()));
    assert_eq!(e.error_message.as_deref(), Some("Load failed: missing"));
}

#[test]
fn repository_follow_ups() {
    let mut e = ProfileEditor::new(false, Vec::new(), None);
    e.init_repo();
    assert_eq!(e.repo_initialized(Ok("ready".to_string()), true), RepoFollowUp::RefreshAndSnapshot);
    assert!(e.repo_initialized);
    let mut e2 = editor();
    assert_eq!(e2.repo_initialized(Ok("ready".to_string()), true), RepoFollowUp::Refresh);
    assert_eq!(e2.status_message.as_deref(), Some("ready"));
    assert_eq!(e2.repo_initialized(Err("no git".to_string()), true), RepoFollowUp::Nothing);
    assert_eq!(e2.error_message.as_deref(), Some("Init failed: no git"));
    e2.profiles_loaded(Ok(vec![entry("A", "games", "/a"), entry("B", "demos", "/b")]));
    assert_eq!(e2.status_message.as_deref(), Some("2 profiles in repository"));
    assert_eq!(e2.profiles.len(), 2);
}

#[test]
fn applying_profiles() {
    let mut e = editor();
    assert!(!e.apply_confirmed(0, true, 3));
    assert_eq!(e.error_message.as_deref(), Some("No profile loaded"));
    e.new_profile();
    e.show_apply_dialog(None);
    assert_eq!(e.apply_confirm, Some(None));
    assert!(!e.apply_confirmed(1, false, 3));
    assert_eq!(e.error_message.as_deref(), Some("Not connected to device"));
    assert_eq!(e.apply_confirm, None);
    assert!(e.apply_confirmed(1, true, 3));
    assert_eq!(
        e.status_message.as_deref(),
        Some("Rebooting then Applying 'New Profile' — 3 settings to change...")
    );
    assert!(!e.apply_confirmed(0, true, 3));
    e.apply_complete(Err("timeout".to_string()));
    assert_eq!(e.error_message.as_deref(), Some("Apply failed: timeout"));
    assert_eq!(e.apply_from_list_confirmed(0, 2, true), Some("/repo/games/giana/profile.json".to_string()));
    assert_eq!(e.status_message.as_deref(), Some("Loading flash then Running 'Giana'..."));

    let mut nb = ProfileEditor::new(true, vec![entry("A", "g", "/a")], None);
    nb.new_profile();
    assert!(!nb.apply_confirmed(0, true, 1));
    assert_eq!(
        nb.error_message.as_deref(),
        Some("No baseline stored. Click 'Snapshot Baseline' first.")
    );
    assert_eq!(nb.apply_from_list_confirmed(0, 0, true), None);
    assert_eq!(nb.error_message.as_deref(), Some("No baseline. Click 'Snapshot Baseline' first."));
    nb.baseline_snapshotted(Ok((baseline(), 40)));
    assert_eq!(
        nb.status_message.as_deref(),
        Some("Baseline stored: 2 categories, 3 settings, 40 schema entries")
    );
    assert!(nb.baseline.is_some());
}

#[test]
fn saving_and_deleting() {
    let mut e = editor();
    assert!(!e.save_profile());
    assert_eq!(e.error_message.as_deref(), Some("No profile to save"));
    e.new_profile();
    assert!(e.save_profile());
    assert!(e.save_complete(Ok("Saved".to_string())));
    assert!(!e.is_dirty);
    assert_eq!(e.delete_profile_from_list(0), Some(("/repo/games/giana/profile.json".to_string(), "Giana".to_string())));
    assert_eq!(e.status_message.as_deref(), Some("Deleting 'Giana'..."));
    assert!(e.delete_complete(Ok("Deleted".to_string())));
    assert!(e.current.is_none());
    assert_eq!(e.view_mode, ViewMode::ProfileList);
    assert!(!e.delete_complete(Err("busy".to_string())));
    assert_eq!(e.error_message.as_deref(), Some("Delete failed: busy"));
}

#[test]
fn picker_writes_the_setting() {
    let mut e = editor();
    e.new_profile();
    assert!(e
        .open_remote_picker(
            "C64 and Cartridge Settings".to_string(),
            "REU Preload Image".to_string(),
            "/USB0/reu/x.reu",
            None,
        )
        .is_none());
    assert_eq!(e.error_message.as_deref(), Some("Not connected to device"));
    let f = e
        .open_remote_picker(
            "C64 and Cartridge Settings".to_string(),
            "REU Preload Image".to_string(),
            "/USB0/reu/x.reu",
            Some("http://10.0.0.2"),
        )
        .unwrap();
    assert_eq!(f.path, "/USB0/reu");
    e.remote_picker_path_input_changed("/SD".to_string());
    let g = e.remote_picker_go_to_path(Some("http://10.0.0.2")).unwrap();
    assert_eq!(g.path, "/SD");
    e.remote_picker_listed(Ok(("/SD".to_string(), Vec::new())));
    assert!(!e.remote_picker.as_ref().unwrap().is_loading);
    e.remote_picker_select("/SD/big.reu".to_string());
    assert!(e.remote_picker.is_none());
    assert_eq!(
        e.current.as_ref().unwrap().config.get("C64 and Cartridge Settings", "REU Preload Image"),
        Some(&text("/SD/big.reu"))
    );
}

#[test]
fn list_texts_and_buttons() {
    let mut e = entry("Giana", "games", "/x");
    e.setting_count = 12;
    assert_eq!(entry_summary(&e), "12 settings");
    e.tags = vec!["platform".to_string(), "1987".to_string()];
    assert_eq!(entry_summary(&e), "12 settings [platform, 1987]");
    let ed = ProfileEditor::new(false, Vec::new(), None);
    assert_eq!(ed.empty_list_message(), "Click 'Init Repo' to create the profile repository.");
    assert!(!ed.can_create());
    assert!(!ed.can_run(true));
    let ed2 = editor();
    assert_eq!(
        ed2.empty_list_message(),
        "No profiles yet. Import a .cfg or .json, or snapshot from device."
    );
    assert!(ed2.can_create());
    assert!(ed2.can_run(true));
    assert!(!ed2.can_run(false));
}
