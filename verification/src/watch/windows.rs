//! Windows: change notifications on the Internet Settings registry keys.
use vstd::prelude::*;

use crate::error::ProxyError;
use crate::options::{opt_device, Options};
use crate::platform::windows::registry_mode;

verus! {

/// The longest single wait, in nanoseconds (200 ms).
pub const WAIT_SLICE_NS: u128 = 200_000_000;

/// What `WaitForMultipleObjects` returns when the wait timed out.
pub const WAIT_TIMEOUT: u32 = 258;

/// Watching refuses a named device in registry mode.
pub fn validate_registry_target(opt: Option<&Options>) -> (r: Result<(), ProxyError>)
    ensures
        r is Err <==> (registry_mode(opt) && opt_device(opt).len() > 0),
        r matches Err(e) ==> e is RegistryDeviceUnsupported,
{
    if let Some(o) = opt {
        if o.use_registry && o.device.unicode_len() > 0 {
            return Err(ProxyError::RegistryDeviceUnsupported);
        }
    }
    Ok(())
}

/// Waiting for a change first checks the target; the wait itself follows.
pub fn wait_proxy_settings_change(opt: Option<&Options>) -> (r: Result<(), ProxyError>)
    ensures
        r is Err <==> (registry_mode(opt) && opt_device(opt).len() > 0),
        r matches Err(e) ==> e is RegistryDeviceUnsupported,
{
    validate_registry_target(opt)
}

/// How long the next wait lasts, in milliseconds: a whole slice without a limit;
/// else what is left of the limit, at most a slice and at least 1 ms; none once the
/// limit is reached.
pub open spec fn wait_slice(limit_ns: Option<u128>, elapsed_ns: u128) -> Option<u32> {
    match limit_ns {
        None => Some(200),
        Some(limit) => if elapsed_ns >= limit {
            None
        } else {
            let remaining = limit - elapsed_ns;
            let slice = if remaining < WAIT_SLICE_NS {
                remaining
            } else {
                WAIT_SLICE_NS as int
            };
            let ms = slice / 1_000_000;
            Some(if ms < 1 { 1 } else { ms as u32 })
        },
    }
}

/// How long the next wait lasts, in milliseconds, or none once the limit is reached.
pub fn wait_slice_ms(limit_ns: Option<u128>, elapsed_ns: u128) -> (r: Option<u32>)
    ensures
        r == wait_slice(limit_ns, elapsed_ns),
{
    match limit_ns {
        None => Some(200),
        Some(limit) => {
            if elapsed_ns >= limit {
                return None;
            }
            let remaining = limit - elapsed_ns;
            let slice = if remaining < WAIT_SLICE_NS {
                remaining
            } else {
                WAIT_SLICE_NS
            };
            let ms = slice / 1_000_000;
            if ms < 1 {
                Some(1)
            } else {
                Some(ms as u32)
            }
        },
    }
}

/// Every wait lasts between 1 ms and one slice (200 ms).
pub proof fn law_wait_slice_bounded(limit_ns: Option<u128>, elapsed_ns: u128)
    ensures
        wait_slice(limit_ns, elapsed_ns) matches Some(ms) ==> 1 <= ms <= 200,
        wait_slice(limit_ns, elapsed_ns) is None <==> (limit_ns matches Some(l) && elapsed_ns >= l),
{
}

/// What a wait on the change events came to.
#[derive(Clone, Copy, PartialEq, Eq, Structural, Debug)]
pub enum WaitOutcome {
    /// Nothing yet; wait again.
    Continue,
    /// The limit was reached without a change.
    TimedOut,
    /// A key changed.
    Changed,
    /// The wait returned something other than a timeout or an event.
    Failed(u32),
}

/// What the result `code` of waiting on `n_events` events means, with the limit and
/// the time since the start.
pub open spec fn wait_result(code: u32, n_events: u32, limit_ns: Option<u128>, elapsed_ns: u128) -> WaitOutcome {
    if code == WAIT_TIMEOUT {
        match limit_ns {
            Some(limit) => if elapsed_ns >= limit {
                WaitOutcome::TimedOut
            } else {
                WaitOutcome::Continue
            },
            None => WaitOutcome::Continue,
        }
    } else if code >= n_events {
        WaitOutcome::Failed(code)
    } else {
        WaitOutcome::Changed
    }
}

/// What the result of a wait means.
pub fn wait_outcome(code: u32, n_events: u32, limit_ns: Option<u128>, elapsed_ns: u128) -> (r: WaitOutcome)
    ensures
        r == wait_result(code, n_events, limit_ns, elapsed_ns),
{
    if code == WAIT_TIMEOUT {
        match limit_ns {
            Some(limit) => {
                if elapsed_ns >= limit {
                    WaitOutcome::TimedOut
                } else {
                    WaitOutcome::Continue
                }
            },
            None => WaitOutcome::Continue,
        }
    } else if code >= n_events {
        WaitOutcome::Failed(code)
    } else {
        WaitOutcome::Changed
    }
}

/// What the timed wait does next.
#[derive(Clone, Copy, PartialEq, Eq, Structural, Debug)]
pub enum TimedWaitStep {
    /// Waiting was cancelled: end with the cancelled error.
    Cancelled,
    /// Wait on the change events for this many milliseconds.
    Wait(u32),
    /// The limit was reached without a change: end with no change.
    TimedOut,
    /// A key changed: end with a change.
    Changed,
    /// The wait failed with this code: end with that error.
    Failed(u32),
}

/// The timed wait's next step, given whether waiting was cancelled, what the last
/// wait came to (none before the first), the limit and the time since the start. A
/// change, a timeout or a failure ends the wait at once; otherwise cancellation ends
/// it; otherwise the wait goes on for the next slice, or times out once the limit is
/// reached.
pub open spec fn timed_wait_next(
    cancelled: bool,
    last: Option<WaitOutcome>,
    limit_ns: Option<u128>,
    elapsed_ns: u128,
) -> TimedWaitStep {
    match last {
        Some(WaitOutcome::Changed) => TimedWaitStep::Changed,
        Some(WaitOutcome::TimedOut) => TimedWaitStep::TimedOut,
        Some(WaitOutcome::Failed(c)) => TimedWaitStep::Failed(c),
        _ => if cancelled {
            TimedWaitStep::Cancelled
        } else {
            match wait_slice(limit_ns, elapsed_ns) {
                Some(ms) => TimedWaitStep::Wait(ms),
                None => TimedWaitStep::TimedOut,
            }
        },
    }
}

/// The timed wait's next step (`wait_proxy_settings_change_timeout`'s loop).
pub fn wait_proxy_settings_change_timeout(
    cancelled: bool,
    last: Option<WaitOutcome>,
    limit_ns: Option<u128>,
    elapsed_ns: u128,
) -> (r: TimedWaitStep)
    ensures
        r == timed_wait_next(cancelled, last, limit_ns, elapsed_ns),
        cancelled && (last is None || last == Some(WaitOutcome::Continue)) ==> r == TimedWaitStep::Cancelled,
        r == TimedWaitStep::Changed <==> last == Some(WaitOutcome::Changed),
{
    match last {
        Some(WaitOutcome::Changed) => TimedWaitStep::Changed,
        Some(WaitOutcome::TimedOut) => TimedWaitStep::TimedOut,
        Some(WaitOutcome::Failed(c)) => TimedWaitStep::Failed(c),
        _ => {
            if cancelled {
                TimedWaitStep::Cancelled
            } else {
                match wait_slice_ms(limit_ns, elapsed_ns) {
                    Some(ms) => TimedWaitStep::Wait(ms),
                    None => TimedWaitStep::TimedOut,
                }
            }
        },
    }
}

} // verus!
