use ultimate64_manager::net_utils::{
    blocking_result, password_header, BlockingOutcome, DeviceError, REST_RUN_TIMEOUT_SECS,
    REST_TIMEOUT_SECS,
};

#[test]
fn run_timeout_exceeds_the_measured_device_run_latency() {
    assert!(REST_TIMEOUT_SECS < 8, "guard assumption behind the bug");
    assert!(REST_RUN_TIMEOUT_SECS > 8, "run budget must exceed the ~8s device latency");
}

#[test]
fn status_codes_classify_into_actionable_variants() {
    assert_eq!(DeviceError::from_status(403), DeviceError::Unauthorized);
    assert_eq!(DeviceError::from_status(404), DeviceError::NotFound);
    assert_eq!(DeviceError::from_status(500), DeviceError::Http(500));
}

#[test]
fn password_header_attached_only_when_non_empty() {
    assert_eq!(password_header(Some("secret")), Some("secret"));
    assert_eq!(password_header(None), None, "no password → no header");
    assert_eq!(password_header(Some("")), None, "empty password → no header");
}

#[test]
fn blocking_result_returns_the_closure_value() {
    let out: Result<u8, String> = blocking_result(BlockingOutcome::Finished(Ok(42)), 5, "Test");
    assert_eq!(out, Ok(42));
}

#[test]
fn blocking_result_propagates_the_closure_error_verbatim() {
    let out: Result<(), String> =
        blocking_result(BlockingOutcome::Finished(Err("boom".to_string())), 5, "Test");
    assert_eq!(out, Err("boom".to_string()));
}

#[test]
fn blocking_result_names_the_timed_out_operation() {
    let out: Result<(), String> = blocking_result(BlockingOutcome::TimedOut, 1, "Disk boot");
    let err = out.unwrap_err();
    assert_eq!(err, "Disk boot timed out after 1s — device may be offline");
    assert!(err.contains("Disk boot"));
    assert!(err.contains("timed out"));
}

#[test]
fn blocking_result_reports_a_failed_task() {
    let out: Result<(), String> =
        blocking_result(BlockingOutcome::TaskFailed("panicked".to_string()), 5, "Load");
    assert_eq!(out, Err("Task error: panicked".to_string()));
}
