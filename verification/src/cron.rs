//! The cron job of a website.
use vstd::prelude::*;

verus! {

/// A cron job that was started.
pub struct Cron {
    /// The task that listens to the pages, where there is one.
    cron_handle: Option<u64>,
}

impl View for Cron {
    type V = Option<u64>;

    closed spec fn view(&self) -> Option<u64> {
        self.cron_handle
    }
}

impl Cron {
    /// A cron job whose pages go to the task `cron_handle`, if any.
    pub(crate) fn new(cron_handle: Option<u64>) -> (cron: Cron)
        ensures
            cron@ == cron_handle,
    {
        Cron { cron_handle }
    }

    /// Stops the cron job: the task to abort before the runner is stopped, if any.
    pub fn stop(&self) -> (aborted: Option<u64>)
        ensures
            aborted == self@,
    {
        self.cron_handle
    }
}

} // verus!
