//! Timeouts for device REST calls, the classification of failed device
//! requests, and the triage of a blocking call run under a timeout.
use vstd::prelude::*;
use crate::text::{push_decimal, push_str, string_from_chars};

verus! {

/// Timeout for REST API operations, so that calls to a device that went
/// offline do not hang.
pub const REST_TIMEOUT_SECS: u64 = 5;

/// Timeout for device operations that run or load a program.
///
/// `POST /v1/runners:run_prg` on an Ultimate II+ answers only after its
/// reset and DMA-load sequence, about 8 s whatever the program's size, so
/// this budget stays well above that while [`REST_TIMEOUT_SECS`] is below.
pub const REST_RUN_TIMEOUT_SECS: u64 = 20;

/// A failed device request, classified so that callers can act on it.
#[derive(Debug, Clone, PartialEq, Eq)]
pub enum DeviceError {
    /// The device refused the password (HTTP 403).
    Unauthorized,
    /// The resource does not exist on the device (HTTP 404).
    NotFound,
    /// Any other non-success HTTP status.
    Http(u16),
    /// The request timed out.
    Timeout,
    /// The request failed in transport.
    Network(String),
}

/// The error a non-success HTTP status is classified as.
pub open spec fn status_error(status: u16) -> DeviceError {
    if status == 403 {
        DeviceError::Unauthorized
    } else if status == 404 {
        DeviceError::NotFound
    } else {
        DeviceError::Http(status)
    }
}

impl DeviceError {
    /// Classify a non-success HTTP status: 403 is `Unauthorized`, 404 is
    /// `NotFound`, anything else `Http` with the status.
    pub fn from_status(status: u16) -> (e: DeviceError)
        ensures
            e == status_error(status),
    {
        if status == 403 {
            DeviceError::Unauthorized
        } else if status == 404 {
            DeviceError::NotFound
        } else {
            DeviceError::Http(status)
        }
    }
}

/// How a blocking call run under a timeout ended.
pub enum BlockingOutcome<T> {
    /// The call returned this value.
    Finished(Result<T, String>),
    /// The task running the call failed (panicked or was cancelled); the
    /// text describes the failure.
    TaskFailed(String),
    /// The timeout fired before the call returned.
    TimedOut,
}

/// The message of a timed-out operation named `what`.
pub open spec fn timeout_text(what: Seq<char>, secs: nat) -> Seq<char> {
    what + " timed out after "@ + crate::text::decimal(secs) + "s — device may be offline"@
}

/// What a blocking call run under a `timeout_secs` timeout gives its
/// caller: the call's own result, a task error, or a timeout message that
/// names the operation.
pub fn blocking_result<T>(outcome: BlockingOutcome<T>, timeout_secs: u64, what: &str) -> (r:
    Result<T, String>)
    ensures
        match outcome {
            BlockingOutcome::Finished(inner) => r == inner,
            BlockingOutcome::TaskFailed(e) => r matches Err(m) && m@ == "Task error: "@ + e@,
            BlockingOutcome::TimedOut => r matches Err(m) && m@ == timeout_text(
                what@,
                timeout_secs as nat,
            ),
        },
{
    match outcome {
        BlockingOutcome::Finished(inner) => inner,
        BlockingOutcome::TaskFailed(e) => {
            let mut out: Vec<char> = Vec::new();
            push_str(&mut out, "Task error: ");
            push_str(&mut out, e.as_str());
            Err(string_from_chars(&out))
        },
        BlockingOutcome::TimedOut => {
            let mut out: Vec<char> = Vec::new();
            push_str(&mut out, what);
            push_str(&mut out, " timed out after ");
            push_decimal(&mut out, timeout_secs);
            push_str(&mut out, "s — device may be offline");
            Err(string_from_chars(&out))
        },
    }
}

/// Whether a password header goes with a device request: only for a
/// password that is present and not empty.
pub fn password_header(password: Option<&str>) -> (h: Option<&str>)
    ensures
        match password {
            Some(p) => if p@.len() > 0 {
                h == Some(p)
            } else {
                h is None
            },
            None => h is None,
        },
{
    match password {
        Some(p) => {
            if p.is_empty() {
                None
            } else {
                Some(p)
            }
        },
        None => None,
    }
}

} // verus!
