//! Waiting for the system proxy settings to change: what each watcher decides at
//! each step; the waiting itself is left to the caller.
pub mod darwin;
pub mod linux;
pub mod windows;
