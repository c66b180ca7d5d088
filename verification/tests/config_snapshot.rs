use ultimate64_manager::config_tree::{ConfigTree, ConfigValue};
use ultimate64_manager::profile_api::{ConfigItem, SnapshotRun, SnapshotStep};
use ultimate64_manager::profile_manager::{EditedProfile, ProfileEditor, ProfileMode};

fn item(name: &str, v: ConfigValue, has_details: bool) -> ConfigItem {
    ConfigItem { name: name.to_string(), current_value: v, has_details }
}

fn fetch_name(s: &SnapshotStep) -> Option<&str> {
    match s {
        SnapshotStep::Fetch(c) => Some(c.as_str()),
        _ => None,
    }
}

#[test]
fn put_category_replaces_the_category() {
    let mut t = ConfigTree::new();
    t.set("Audio Mixer".to_string(), "Old".to_string(), ConfigValue::Flag(true));
    t.put_category(
        "Audio Mixer".to_string(),
        &vec![
            ("Vol".to_string(), ConfigValue::Integer(1)),
            ("Vol".to_string(), ConfigValue::Integer(2)),
            ("Pan".to_string(), ConfigValue::Text("Center".to_string())),
        ],
    );
    assert_eq!(t.get("Audio Mixer", "Old"), None);
    assert_eq!(t.get("Audio Mixer", "Vol"), Some(&ConfigValue::Integer(2)));
    assert_eq!(t.setting_count(), 2);
}

#[test]
fn snapshot_reads_every_category() {
    let (mut run, step) = SnapshotRun::start(vec!["Audio Mixer".to_string(), "Drive A Settings".to_string()]);
    assert_eq!(fetch_name(&step), Some("Audio Mixer"));
    let step = run.resume(Ok(vec![
        item("Vol UltiSid 1", ConfigValue::Text("0 dB".to_string()), true),
        item("Vol UltiSid 2", ConfigValue::Text("0 dB".to_string()), false),
    ]));
    assert_eq!(fetch_name(&step), Some("Drive A Settings"));
    let step = run.resume(Ok(vec![item("Drive", ConfigValue::Text("Enabled".to_string()), false)]));
    assert!(matches!(step, SnapshotStep::Done));
    assert_eq!(run.config.category_count(), 2);
    assert_eq!(run.config.setting_count(), 3);
    assert_eq!(run.schema.category_count(), 1);
    assert_eq!(run.schema.setting_count(), 1);

    let schema_entries = run.schema.setting_count();
    let mut editor = ProfileEditor::new(true, Vec::new(), None);
    editor.baseline_snapshotted(Ok((run.config, schema_entries)));
    assert_eq!(
        editor.status_message.as_deref(),
        Some("Baseline stored: 2 categories, 3 settings, 1 schema entries")
    );
}

#[test]
fn snapshot_failure_names_the_category() {
    let (mut run, _) = SnapshotRun::start(vec!["LED Strip Settings".to_string()]);
    match run.resume(Err("timeout".to_string())) {
        SnapshotStep::Failed(m) => assert_eq!(m, "Failed to read 'LED Strip Settings': timeout"),
        _ => panic!("expected a failure"),
    }
    let (_, step) = SnapshotRun::start(Vec::new());
    assert!(matches!(step, SnapshotStep::Done));
}

#[test]
fn snapshot_profile_is_full() {
    let mut t = ConfigTree::new();
    t.set("A".to_string(), "k".to_string(), ConfigValue::Flag(false));
    let p = EditedProfile::from_snapshot("Device Snapshot".to_string(), t);
    assert_eq!(p.name, "Device Snapshot");
    assert_eq!(p.mode, ProfileMode::Full);
    assert_eq!(p.config.setting_count(), 1);
}
