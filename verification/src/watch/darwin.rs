//! macOS: waiting on a kqueue for writes to the system configuration's preferences
//! file.
use vstd::prelude::*;

verus! {

/// What one wait on the kqueue came to.
#[derive(Debug)]
pub enum KqueueWait {
    /// A signal interrupted the wait.
    Interrupted,
    /// The wait failed with this message.
    Failed(String),
    /// The wait timed out with no event; whether the preferences file is still there.
    TimedOut { file_present: bool },
    /// An event on the preferences file arrived.
    Events,
}

/// What the watcher does next.
#[derive(Debug)]
pub enum DarwinWatchStep {
    /// Waiting was cancelled.
    Cancelled,
    /// The preferences file changed.
    Changed,
    /// Waiting failed with this message.
    WaitFailed(String),
    /// The preferences file is gone.
    PreferencesMissing,
    /// Wait (again).
    Wait,
}

/// The next step, given whether waiting was cancelled and what the last wait came to
/// (none before the first): an event, a failure or a missing file ends the watch at
/// once; otherwise cancellation ends it, and else the watcher waits again.
pub open spec fn darwin_watch_next(cancelled: bool, last: Option<KqueueWait>) -> DarwinWatchStep {
    match last {
        Some(KqueueWait::Events) => DarwinWatchStep::Changed,
        Some(KqueueWait::Failed(m)) => DarwinWatchStep::WaitFailed(m),
        Some(KqueueWait::TimedOut { file_present: false }) => DarwinWatchStep::PreferencesMissing,
        _ => if cancelled {
            DarwinWatchStep::Cancelled
        } else {
            DarwinWatchStep::Wait
        },
    }
}

/// What the watcher does next, given whether waiting was cancelled and what the last
/// wait came to.
pub fn wait_proxy_settings_change(cancelled: bool, last: Option<KqueueWait>) -> (r: DarwinWatchStep)
    ensures
        r == darwin_watch_next(cancelled, last),
{
    match last {
        Some(KqueueWait::Events) => DarwinWatchStep::Changed,
        Some(KqueueWait::Failed(m)) => DarwinWatchStep::WaitFailed(m),
        Some(KqueueWait::TimedOut { file_present: false }) => DarwinWatchStep::PreferencesMissing,
        _ => if cancelled {
            DarwinWatchStep::Cancelled
        } else {
            DarwinWatchStep::Wait
        },
    }
}

} // verus!
