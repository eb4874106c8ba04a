use vstd::prelude::*;

verus! {

/// Where an adjusted schedule starts: a start time still in the future is
/// kept; one in the past either skips forward by one period (when the first
/// run is to be skipped and a period is known) or snaps to `now`.
pub open spec fn adjusted_start(
    start_time: u64,
    duration: Option<u64>,
    skip_first_run: Option<bool>,
    now: u64,
) -> int {
    if start_time >= now {
        start_time as int
    } else if skip_first_run == Some(true) {
        match duration {
            Some(d) => start_time + d,
            None => now as int,
        }
    } else {
        now as int
    }
}

/// A start time with an optional repeat period, in nanoseconds since the
/// epoch.
#[derive(PartialEq, Eq, Clone, Copy, Debug)]
pub struct Schedule {
    pub start_time: u64,
    pub duration: Option<u64>,
}

impl Schedule {
    /// Build a schedule whose start time is adjusted against `now` (the
    /// current time, supplied by the caller): a start in the past skips one
    /// period forward when `skip_first_run` asks for it and a period is
    /// known, and otherwise snaps to `now`.
    pub fn new(
        start_time: u64,
        duration: Option<u64>,
        skip_first_run: Option<bool>,
        now: u64,
    ) -> (s: Self)
        requires
            adjusted_start(start_time, duration, skip_first_run, now) <= u64::MAX,
        ensures
            s.duration == duration,
            s.start_time == adjusted_start(start_time, duration, skip_first_run, now),
    {
        let mut adjusted = start_time;
        if start_time < now {
            let skip = match skip_first_run {
                Some(b) => b,
                None => false,
            };
            if skip {
                match duration {
                    Some(d) => {
                        adjusted = start_time + d;
                    },
                    None => {
                        adjusted = now;
                    },
                }
            } else {
                adjusted = now;
            }
        }
        Schedule { start_time: adjusted, duration }
    }
}

} // verus!
