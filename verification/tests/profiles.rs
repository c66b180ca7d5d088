use ultimate64_manager::profiles::{AppSettings, ConnectionSettings, Profile, ProfileManager};

fn names(m: &ProfileManager) -> Vec<String> {
    m.profile_names()
}

#[test]
fn default_manager_has_one_active_default_profile() {
    let m = ProfileManager::default();
    assert_eq!(names(&m), vec!["Default".to_string()]);
    assert_eq!(m.active_profile, "Default");
    assert_eq!(m.active_settings().connection.host, "");
}

#[test]
fn add_refuses_a_taken_name() {
    let mut m = ProfileManager::default();
    assert!(m.add_profile("Work".to_string()));
    assert!(!m.add_profile("Work".to_string()));
    assert_eq!(names(&m), vec!["Default".to_string(), "Work".to_string()]);
}

#[test]
fn switch_only_to_an_existing_profile() {
    let mut m = ProfileManager::default();
    m.add_profile("Work".to_string());
    assert!(!m.switch_profile("Home"));
    assert_eq!(m.active_profile, "Default");
    assert!(m.switch_profile("Work"));
    assert_eq!(m.active_profile, "Work");
}

#[test]
fn active_settings_follow_the_active_profile() {
    let mut m = ProfileManager::default();
    m.add_profile("Work".to_string());
    m.switch_profile("Work");
    m.active_settings_mut().connection.host = "192.168.1.64".to_string();
    assert_eq!(m.active_settings().connection.host, "192.168.1.64");
    m.switch_profile("Default");
    assert_eq!(m.active_settings().connection.host, "");
}

#[test]
fn active_settings_fall_back_to_the_first_profile() {
    let mut m = ProfileManager::default();
    m.active_profile = "missing".to_string();
    m.profiles[0].settings.connection.host = "first".to_string();
    assert_eq!(m.active_settings().connection.host, "first");
}

#[test]
fn duplicate_copies_the_settings() {
    let mut m = ProfileManager::default();
    m.active_settings_mut().connection.password = Some("pw".to_string());
    assert!(m.duplicate_profile("Default", "Copy".to_string()));
    assert!(!m.duplicate_profile("Nope", "Other".to_string()));
    assert!(!m.duplicate_profile("Default", "Copy".to_string()));
    assert_eq!(m.profiles[1].name, "Copy");
    assert_eq!(m.profiles[1].settings.connection.password.as_deref(), Some("pw"));
}

#[test]
fn delete_never_removes_the_active_or_last_profile() {
    let mut m = ProfileManager::default();
    assert!(!m.delete_profile("Default"));
    m.add_profile("Work".to_string());
    assert!(!m.delete_profile("Default"));
    assert!(m.delete_profile("Work"));
    assert_eq!(names(&m), vec!["Default".to_string()]);
}

#[test]
fn rename_moves_the_active_name_along() {
    let mut m = ProfileManager::default();
    m.add_profile("Work".to_string());
    assert!(m.rename_profile("Default", "Home".to_string()));
    assert_eq!(m.active_profile, "Home");
    assert!(!m.rename_profile("Work", "Home".to_string()));
    assert!(!m.rename_profile("Nope", "Other".to_string()));
    assert!(m.rename_profile("Work", "Office".to_string()));
    assert_eq!(names(&m), vec!["Home".to_string(), "Office".to_string()]);
    assert_eq!(m.active_profile, "Home");
}

#[test]
fn load_prefers_the_stored_profiles() {
    let mut stored = ProfileManager::default();
    stored.add_profile("Work".to_string());
    let m = ProfileManager::load(Some(stored), None);
    assert_eq!(names(&m).len(), 2);
}

#[test]
fn load_migrates_legacy_settings() {
    let legacy = AppSettings {
        connection: ConnectionSettings { host: "10.0.0.2".to_string(), password: None },
    };
    let m = ProfileManager::load(None, Some(legacy));
    assert_eq!(names(&m), vec!["Default".to_string()]);
    assert_eq!(m.active_settings().connection.host, "10.0.0.2");
    let m = ProfileManager::load(None, None);
    assert_eq!(m.active_settings().connection.host, "");
}

#[test]
fn new_profile_has_default_settings() {
    let p = Profile::new("X".to_string());
    assert_eq!(p.name, "X");
    assert_eq!(p.settings.connection.host, "");
    assert_eq!(p.settings.connection.password, None);
}
