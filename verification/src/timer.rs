use vstd::prelude::*;

pub mod cron;
pub mod cycle;
pub mod oneshot;

verus! {

use crate::timer::cron::cron_next_of;
use crate::timer::cycle::cycle_next;
use crate::timer::oneshot::oneshot_next;

/// Earliest instant the library works with, in milliseconds since the Unix
/// epoch: the first moment of year 1. Keeps every instant convertible to a
/// calendar date and every cycle computation inside `i64`.
pub const MIN_INSTANT: i64 = -62135596800000;

/// Latest instant the library works with, in milliseconds since the Unix
/// epoch: the last second of year 9999.
pub const MAX_INSTANT: i64 = 253402300799000;

/// The instants the library accepts as a current time or a timer bound.
pub open spec fn instant_in_range(t: i64) -> bool {
    MIN_INSTANT <= t <= MAX_INSTANT
}

/// Why a timer could not be built from the given parameters.
#[derive(Clone, Copy, Debug, PartialEq, Eq, Structural)]
pub enum TimerError {
    /// The cron evaluation library rejected the expression.
    InvalidExpr,
    /// A fixed timezone offset must be strictly between -86400 and 86400
    /// seconds.
    InvalidOffset,
    /// An instant lies outside the supported range.
    InvalidInstant,
    /// A cycle interval must be at least one millisecond and no longer than
    /// the supported range of instants.
    InvalidInterval,
}

/// The timer of a job: one of the three recurrence policies.
pub enum Timer {
    /// Recurs on the instants matching a cron schedule.
    Cron(cron::Cron),
    /// Yields one instant in the future, then nothing: the only timer that
    /// becomes exhausted.
    Oneshot(oneshot::Oneshot),
    /// Recurs a fixed interval apart from a start instant, with an optional
    /// end.
    Cycle(cycle::Cycle),
}

/// The next due instant of a timer strictly after `now`, or nothing where
/// the schedule behind it is done.
pub open spec fn timer_next(t: Timer, now: i64) -> Option<i64> {
    match t {
        Timer::Cron(c) => cron_next_of(c.spec_expr(), c.spec_tz(), now),
        Timer::Oneshot(o) => oneshot_next(o.spec_at(), now),
        Timer::Cycle(c) => cycle_next(c.spec_start(), c.spec_end(), c.spec_interval(), now),
    }
}

impl Timer {
    /// The nearest due instant after `now` for this timer; nothing once the
    /// schedule on which it is based is done.
    pub fn next(&self, now: i64) -> (r: Option<i64>)
        requires
            instant_in_range(now),
        ensures
            r == timer_next(*self, now),
    {
        match self {
            Timer::Cron(c) => c.next(now),
            Timer::Oneshot(o) => o.next(now),
            Timer::Cycle(c) => c.next(now),
        }
    }
}

} // verus!
