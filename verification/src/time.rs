use vstd::prelude::*;

verus! {

/// Nanoseconds in one second.
pub const NANOS_PER_SEC: u64 = 1_000_000_000;

/// An instant, counted in nanoseconds since the Unix epoch.
#[derive(Clone, Copy, Debug, PartialEq, Eq, Structural)]
pub struct TimePoint {
    pub nanos: u64,
}

impl View for TimePoint {
    type V = int;

    /// The instant as a number of nanoseconds since the epoch.
    open spec fn view(&self) -> int {
        self.nanos as int
    }
}

/// A time of day as a sensor message carries it: whole seconds since the
/// epoch and the nanoseconds on top of them.
#[derive(Clone, Copy, Debug, PartialEq, Eq, Structural)]
pub struct Timestamp {
    pub sec: i32,
    pub nanosec: u32,
}

impl Default for Timestamp {
    /// The epoch itself.
    fn default() -> (t: Timestamp)
        ensures
            t == (Timestamp { sec: 0, nanosec: 0 }),
    {
        Timestamp { sec: 0, nanosec: 0 }
    }
}

impl Timestamp {
    /// The nanoseconds between the epoch and this time. `nanosec` may hold a
    /// second or more; it is added as it is.
    pub open spec fn nanos_since_epoch(self) -> int {
        self.sec as int * (NANOS_PER_SEC as int) + self.nanosec as int
    }

    /// The instant that this time names. Times before the epoch have no
    /// instant here.
    pub fn to_system_time(self) -> (t: TimePoint)
        requires
            self.sec >= 0,
        ensures
            t@ == self.nanos_since_epoch(),
    {
        let secs: u64 = self.sec as u64;
        let extra: u64 = self.nanosec as u64;
        TimePoint { nanos: secs * NANOS_PER_SEC + extra }
    }
}

} // verus!
