//! The timetable of the scheduled quota resync.

use vstd::prelude::*;

verus! {

/// Seconds of an hour.
pub const SECS_PER_HOUR: u64 = 3600;

/// The state of the scheduler: its interval, and whether it runs.
#[derive(Debug)]
pub struct TokenRefreshScheduler {
    interval_hours: i64,
    running: bool,
}

/// The time between two resync cycles, in seconds: the hours of the
/// interval, at least one.
pub open spec fn spec_interval_secs(interval_hours: i64) -> int {
    if interval_hours < 1 {
        SECS_PER_HOUR as int
    } else {
        interval_hours * SECS_PER_HOUR
    }
}

impl TokenRefreshScheduler {
    /// The interval in hours, as configured.
    pub closed spec fn spec_interval_hours(&self) -> i64 {
        self.interval_hours
    }

    /// Whether the scheduler runs.
    pub closed spec fn spec_running(&self) -> bool {
        self.running
    }

    /// A scheduler that does not run yet.
    pub fn new(interval_hours: i64) -> (r: Self)
        ensures
            r.spec_interval_hours() == interval_hours,
            !r.spec_running(),
    {
        TokenRefreshScheduler { interval_hours, running: false }
    }

    /// The interval in hours, as configured.
    pub fn interval_hours(&self) -> (r: i64)
        ensures
            r == self.spec_interval_hours(),
    {
        self.interval_hours
    }

    /// Whether the scheduler runs.
    pub fn is_running(&self) -> (r: bool)
        ensures
            r == self.spec_running(),
    {
        self.running
    }

    /// Starts the scheduler, and gives the time between two cycles in
    /// seconds; nothing if it runs already.
    pub fn start(&mut self) -> (r: Option<u64>)
        requires
            spec_interval_secs(old(self).spec_interval_hours()) <= u64::MAX,
        ensures
            final(self).spec_running(),
            final(self).spec_interval_hours() == old(self).spec_interval_hours(),
            r is Some <==> !old(self).spec_running(),
            r matches Some(secs) ==> secs == spec_interval_secs(old(self).spec_interval_hours()),
    {
        if self.running {
            return None;
        }
        self.running = true;
        let hours: u64 = if self.interval_hours < 1 {
            1
        } else {
            self.interval_hours as u64
        };
        assert(hours * SECS_PER_HOUR == spec_interval_secs(old(self).spec_interval_hours()));
        Some(hours * SECS_PER_HOUR)
    }

    /// Stops the scheduler, and says whether it ran.
    pub fn stop(&mut self) -> (r: bool)
        ensures
            !final(self).spec_running(),
            final(self).spec_interval_hours() == old(self).spec_interval_hours(),
            r == old(self).spec_running(),
    {
        let ran = self.running;
        self.running = false;
        ran
    }
}

} // verus!
