use ultimate64_manager::profile_api::{
    apply_plan, cartridge_run, drive_category, drive_is_enabled, mount_jobs, ApplyRun, ApplyStep,
    CartridgeRun, MountAction, MountJob, MountRun, MountStage,
};
use ultimate64_manager::remote_browser::RunKind;

#[test]
fn plan_direct_apply_with_changes_and_reset() {
    assert_eq!(
        apply_plan(0, false, 3, false, true),
        vec![ApplyStep::ApplyConfig, ApplyStep::Mounts, ApplyStep::ResetClient, ApplyStep::Reset]
    );
}

#[test]
fn plan_rom_change_reboots_instead_of_reset() {
    assert_eq!(
        apply_plan(2, true, 1, true, true),
        vec![
            ApplyStep::LoadFlashDefaults,
            ApplyStep::RestoreBaseline,
            ApplyStep::ApplyConfig,
            ApplyStep::RebootForRom,
            ApplyStep::Mounts,
        ]
    );
    assert_eq!(
        apply_plan(1, false, 1, true, false),
        vec![ApplyStep::RebootFirst, ApplyStep::ApplyConfig, ApplyStep::Mounts]
    );
    assert_eq!(apply_plan(0, false, 0, true, true), vec![ApplyStep::NoChanges, ApplyStep::Mounts]);
}

#[test]
fn apply_run_collects_notes_and_stops_on_config_failure() {
    let mut run = ApplyRun::new("Elite".to_string());
    assert_eq!(run.record(ApplyStep::LoadFlashDefaults, Err("timeout".to_string())), None);
    assert_eq!(run.record(ApplyStep::NoChanges, Ok(String::new())), None);
    assert_eq!(run.record(ApplyStep::Mounts, Ok("Mounted and running: elite.d64".to_string())), None);
    assert_eq!(run.record(ApplyStep::Mounts, Err("no drive".to_string())), None);
    assert_eq!(run.record(ApplyStep::ResetClient, Ok(String::new())), None);
    assert_eq!(run.record(ApplyStep::Reset, Ok(String::new())), None);
    assert_eq!(
        run.summary(),
        "Applied profile 'Elite': No changes needed, Mounted and running: elite.d64, Machine reset"
    );
    let mut failing = ApplyRun::new("X".to_string());
    assert_eq!(failing.record(ApplyStep::ApplyConfig, Err("HTTP 500".to_string())), Some("HTTP 500".to_string()));
    assert_eq!(failing.record(ApplyStep::RestoreBaseline, Err("flash".to_string())), Some("flash".to_string()));
    assert_eq!(failing.summary(), "Applied profile 'X': ");
}

#[test]
fn mount_jobs_skip_empty_slots() {
    let jobs = mount_jobs(
        Some(("/Usb0/a.d64".to_string(), true)),
        Some((String::new(), false)),
        Some("/Usb0/c.crt".to_string()),
    );
    assert_eq!(jobs.len(), 2);
    match &jobs[0] {
        MountJob::Drive { path, drive, autoload } => {
            assert_eq!((path.as_str(), drive.as_str(), *autoload), ("/Usb0/a.d64", "a", true))
        }
        other => panic!("{:?}", other),
    }
    assert!(matches!(&jobs[1], MountJob::Cartridge { path } if path == "/Usb0/c.crt"));
}

#[test]
fn drive_settings() {
    assert_eq!(drive_category("a"), "Drive A Settings");
    assert_eq!(drive_category("b"), "Drive B Settings");
    assert!(!drive_is_enabled(Some("Disabled")));
    assert!(drive_is_enabled(Some("Enabled")));
    assert!(drive_is_enabled(None));
}

#[test]
fn mount_and_run_a_device_disk() {
    let (mut run, first) = MountRun::start("/Usb0/games/elite.d64".to_string(), "a".to_string(), true);
    assert!(run.on_device);
    assert!(matches!(first, MountAction::EnableDrive { ref category } if category == "Drive A Settings"));
    match run.resume(Ok(String::new())) {
        MountAction::MountOnDevice { path, drive, mode } => {
            assert_eq!((path.as_str(), drive.as_str(), mode.as_str()), ("/Usb0/games/elite.d64", "a", "readonly"))
        }
        other => panic!("{:?}", other),
    }
    assert!(matches!(run.resume(Ok("mounted".to_string())), MountAction::Reset));
    match run.resume(Ok(String::new())) {
        MountAction::TypeText { text } => assert_eq!(text, "load \"*\",8,1\n"),
        other => panic!("{:?}", other),
    }
    match run.resume(Ok(String::new())) {
        MountAction::TypeText { text } => assert_eq!(text, "run\n"),
        other => panic!("{:?}", other),
    }
    match run.resume(Ok(String::new())) {
        MountAction::Finish { result } => assert_eq!(result, Ok("Mounted and running: elite.d64".to_string())),
        other => panic!("{:?}", other),
    }
    assert_eq!(run.stage, MountStage::Done);
}

#[test]
fn mount_a_local_disk_without_autoload() {
    let (mut run, _) = MountRun::start("/home/me/disk.d64".to_string(), "b".to_string(), false);
    assert!(!run.on_device);
    assert!(matches!(run.resume(Ok(String::new())), MountAction::CheckLocalFile { .. }));
    match run.resume(Ok(String::new())) {
        MountAction::UploadAndMount { mode, drive, .. } => {
            assert_eq!(mode, "readwrite");
            assert_eq!(drive, "b");
        }
        other => panic!("{:?}", other),
    }
    match run.resume(Ok(String::new())) {
        MountAction::Finish { result } => assert_eq!(result, Ok("Uploaded and mounted: disk.d64".to_string())),
        other => panic!("{:?}", other),
    }
    let (mut missing, _) = MountRun::start("/home/me/none.d64".to_string(), "a".to_string(), true);
    missing.resume(Ok(String::new()));
    match missing.resume(Err(String::new())) {
        MountAction::Finish { result } => assert_eq!(result, Err("Local file not found: /home/me/none.d64".to_string())),
        other => panic!("{:?}", other),
    }
}

#[test]
fn mount_typing_failures_are_named() {
    let (mut run, _) = MountRun::start("/Sd/x.d64".to_string(), "b".to_string(), true);
    run.resume(Ok(String::new()));
    run.resume(Ok(String::new()));
    match run.resume(Ok(String::new())) {
        MountAction::TypeText { text } => assert_eq!(text, "load \"*\",9,1\n"),
        other => panic!("{:?}", other),
    }
    match run.resume(Err("busy".to_string())) {
        MountAction::Finish { result } => assert_eq!(result, Err("Type LOAD failed: busy".to_string())),
        other => panic!("{:?}", other),
    }
}

#[test]
fn cartridge_slot_programs() {
    assert!(matches!(cartridge_run("/Usb0/x.PRG", false), CartridgeRun::OnDevice { kind: RunKind::RunPrg }));
    assert!(matches!(cartridge_run("/Usb0/x.sid", false), CartridgeRun::OnDevice { kind: RunKind::PlaySid }));
    assert!(matches!(cartridge_run("/Usb0/x.crt", false), CartridgeRun::OnDevice { kind: RunKind::RunCrt }));
    match cartridge_run("/home/me/action.crt", true) {
        CartridgeRun::Upload { runner, message } => {
            assert_eq!(runner, "run_crt");
            assert_eq!(message, "Running cartridge: action.crt");
        }
        other => panic!("{:?}", other),
    }
    match cartridge_run("/home/me/tune.SID", true) {
        CartridgeRun::Upload { runner, message } => {
            assert_eq!(runner, "sidplay");
            assert_eq!(message, "Playing SID: tune.SID");
        }
        other => panic!("{:?}", other),
    }
    match cartridge_run("/home/me/readme", true) {
        CartridgeRun::Unsupported { message } => assert_eq!(
            message,
            "Unsupported file type '(none)' for cartridge slot — use .crt, .prg, or .sid"
        ),
        other => panic!("{:?}", other),
    }
    match cartridge_run("/home/me/x.d64", false) {
        CartridgeRun::Missing { message } => assert_eq!(message, "Local file not found: /home/me/x.d64"),
        other => panic!("{:?}", other),
    }
}

#[test]
fn reset_client_failure_stops_the_apply() {
    let mut run = ApplyRun::new("Giana".to_string());
    assert_eq!(
        run.record(ApplyStep::ResetClient, Err("client build failed".to_string())),
        Some("client build failed".to_string())
    );
    assert!(run.notes.is_empty());
}
