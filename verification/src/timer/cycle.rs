use vstd::prelude::*;
use vstd::arithmetic::div_mod::{lemma_div_pos_is_pos, lemma_remainder};
use crate::timer::{instant_in_range, TimerError, MAX_INSTANT, MIN_INSTANT};

verus! {

/// A timer recurring a fixed interval apart from a start instant, with an
/// optional end. All three parameters are milliseconds; the instants count
/// from the Unix epoch.
pub struct Cycle {
    start_ts: i64,
    interval: i64,
    end_ts: Option<i64>,
}

/// Whether the cycle is over: an end is set and `now` has passed it.
pub open spec fn cycle_done(end: Option<i64>, now: i64) -> bool {
    end matches Some(e) && now > e
}

/// The number of whole intervals between the start and the next occurrence.
/// Before the start it is zero, so the first occurrence is the start itself;
/// from the start on it is one more than the number of whole intervals
/// elapsed, which puts the occurrence strictly after `now`.
pub open spec fn cycle_k(start: i64, interval: i64, now: i64) -> int {
    if now < start {
        0
    } else {
        (now - start) / (interval as int) + 1
    }
}

/// A cycle's next occurrence: nothing once it is done, and otherwise the
/// start plus a whole number of intervals.
pub open spec fn cycle_next(start: i64, end: Option<i64>, interval: i64, now: i64) -> Option<i64> {
    if cycle_done(end, now) {
        None
    } else {
        Some((start + cycle_k(start, interval, now) * interval) as i64)
    }
}

impl Cycle {
    #[verifier::type_invariant]
    spec fn inv(self) -> bool {
        &&& instant_in_range(self.start_ts)
        &&& 1 <= self.interval <= MAX_INSTANT
        &&& self.end_ts matches Some(e) ==> instant_in_range(e)
    }

    /// The first occurrence of the cycle.
    pub closed spec fn spec_start(self) -> i64 {
        self.start_ts
    }

    /// The spacing of the occurrences, in milliseconds.
    pub closed spec fn spec_interval(self) -> i64 {
        self.interval
    }

    /// The instant after which no occurrence comes, if one was set.
    pub closed spec fn spec_end(self) -> Option<i64> {
        self.end_ts
    }

    /// Builds the timer, rejecting parameters the recurrence arithmetic
    /// cannot carry: an out-of-range start or end, or an interval that is
    /// not at least one millisecond and within the range of instants.
    pub fn new(start_at: i64, end_at: Option<i64>, interval: i64) -> (r: Result<Cycle, TimerError>)
        ensures
            r matches Ok(c) ==> c.spec_start() == start_at && c.spec_end() == end_at
                && c.spec_interval() == interval,
            r is Ok <==> (instant_in_range(start_at) && 1 <= interval <= MAX_INSTANT
                && (end_at matches Some(e) ==> instant_in_range(e))),
            !instant_in_range(start_at) ==> r == Err::<Cycle, TimerError>(TimerError::InvalidInstant),
            instant_in_range(start_at) && (end_at matches Some(e) && !instant_in_range(e))
                ==> r == Err::<Cycle, TimerError>(TimerError::InvalidInstant),
            instant_in_range(start_at) && (end_at matches Some(e) ==> instant_in_range(e))
                && !(1 <= interval <= MAX_INSTANT)
                ==> r == Err::<Cycle, TimerError>(TimerError::InvalidInterval),
    {
        if !(MIN_INSTANT <= start_at && start_at <= MAX_INSTANT) {
            return Err(TimerError::InvalidInstant);
        }
        if let Some(e) = end_at {
            if !(MIN_INSTANT <= e && e <= MAX_INSTANT) {
                return Err(TimerError::InvalidInstant);
            }
        }
        if !(1 <= interval && interval <= MAX_INSTANT) {
            return Err(TimerError::InvalidInterval);
        }
        Ok(Cycle { start_ts: start_at, interval, end_ts: end_at })
    }

    pub fn next(&self, now: i64) -> (r: Option<i64>)
        requires
            instant_in_range(now),
        ensures
            r == cycle_next(self.spec_start(), self.spec_end(), self.spec_interval(), now),
    {
        proof {
            use_type_invariant(self);
        }
        if let Some(end_ts) = self.end_ts {
            if now > end_ts {
                return None;
            }
        }
        if now < self.start_ts {
            return Some(self.start_ts);
        }
        let duration: i64 = now - self.start_ts;
        let factor: i64 = duration / self.interval + 1;
        proof {
            lemma_cycle_arith(self.start_ts, self.interval, now);
        }
        Some(self.start_ts + factor * self.interval)
    }
}

/// The bounds of the occurrence arithmetic: from the start on, the next
/// occurrence lies strictly after `now` and at most one interval past it.
proof fn lemma_cycle_arith(start: i64, interval: i64, now: i64)
    requires
        instant_in_range(start),
        1 <= interval <= MAX_INSTANT,
        instant_in_range(now),
        now >= start,
    ensures
        (now - start) / (interval as int) >= 0,
        now < start + ((now - start) / (interval as int) + 1) * interval <= now + interval,
{
    let d = (now - start) as int;
    let i = interval as int;
    lemma_div_pos_is_pos(d, i);
    lemma_remainder(d, i);
    assert((d / i + 1) * i == d / i * i + i) by (nonlinear_arith);
}

/// The recurrence formula, spelled out: the next occurrence is `None`
/// exactly when an end is set and `now` has passed it; otherwise it is
/// `start + k * interval` for the whole number `k` of the formula, and lies
/// strictly after `now`.
pub proof fn lemma_cycle_next(start: i64, end: Option<i64>, interval: i64, now: i64)
    requires
        instant_in_range(start),
        1 <= interval <= MAX_INSTANT,
        end matches Some(e) ==> instant_in_range(e),
        instant_in_range(now),
    ensures
        cycle_next(start, end, interval, now) is None <==> cycle_done(end, now),
        !cycle_done(end, now) ==> {
            let t = cycle_next(start, end, interval, now)->Some_0;
            let k = cycle_k(start, interval, now);
            &&& k >= 0
            &&& t == start + k * interval
            &&& t > now
        },
{
    if !cycle_done(end, now) {
        if now >= start {
            lemma_cycle_arith(start, interval, now);
        }
    }
}

} // verus!
