use vstd::prelude::*;
use crate::time_event::TimeEvent;
use crate::timer::{instant_in_range, timer_next, Timer, TimerError, MAX_INSTANT};
use crate::timer::cron::{cron_valid, Cron};
use crate::timer::cycle::Cycle;
use crate::timer::oneshot::Oneshot;

verus! {

/// Relies on uuid's `Uuid::new_v4`: a freshly drawn random identifier.
/// Nothing is promised of the value.
#[verifier::external_body]
fn fresh_id() -> u128 {
    uuid::Uuid::new_v4().as_u128()
}

/// A scheduled unit: an identifier drawn at construction, and the timer that
/// yields the instants the job is due at. The work the host runs on each
/// dispatch stays with the host, which keys it by the job's id.
pub struct Job {
    id: u128,
    timer: Timer,
}

/// A job's next pending dispatch: its timer's next occurrence bound to its
/// id, or nothing once the timer is exhausted.
pub open spec fn job_next_event(job: Job, now: i64) -> Option<TimeEvent> {
    match timer_next(job.spec_timer(), now) {
        Some(when) => Some((TimeEvent { when, job_id: job.spec_id() })),
        None => None,
    }
}

impl Job {
    /// The identifier the job was built with.
    pub closed spec fn spec_id(self) -> u128 {
        self.id
    }

    /// The timer the job was built with.
    pub closed spec fn spec_timer(self) -> Timer {
        self.timer
    }

    pub fn id(&self) -> (r: u128)
        ensures
            r == self.spec_id(),
    {
        self.id
    }

    pub fn next_time_event(&self, now: i64) -> (r: Option<TimeEvent>)
        requires
            instant_in_range(now),
        ensures
            r == job_next_event(*self, now),
    {
        match self.timer.next(now) {
            Some(when) => Some(TimeEvent { when, job_id: self.id }),
            None => None,
        }
    }

    /// Starts building a job on a cron schedule.
    pub fn cron(expr: &str) -> (b: CronJobBuilder)
        ensures
            b.spec_expr() == expr@,
            b.spec_tz() == 0,
    {
        CronJobBuilder::new(expr)
    }

    /// Starts building a job recurring a fixed interval apart.
    pub fn cycle(start_at: i64, interval: i64) -> (b: CycleJobBuilder)
        ensures
            b.spec_start() == start_at,
            b.spec_interval() == interval,
            b.spec_end() is None,
    {
        CycleJobBuilder::new(start_at, interval)
    }

    /// Starts building a job that fires once.
    pub fn oneshot(at: i64) -> (b: OneshotJobBuilder)
        ensures
            b.spec_at() == at,
    {
        OneshotJobBuilder::new(at)
    }
}

/// Builds a job on a cron schedule, read by default in UTC.
pub struct CronJobBuilder {
    expr: String,
    tz_secs: i32,
}

impl CronJobBuilder {
    pub closed spec fn spec_expr(self) -> Seq<char> {
        self.expr@
    }

    pub closed spec fn spec_tz(self) -> i32 {
        self.tz_secs
    }

    fn new(expr: &str) -> (b: CronJobBuilder)
        ensures
            b.spec_expr() == expr@,
            b.spec_tz() == 0,
    {
        CronJobBuilder { expr: expr.to_owned(), tz_secs: 0 }
    }

    /// Sets the fixed timezone offset the schedule is read in, in seconds
    /// east of UTC.
    pub fn tz(self, tz_secs: i32) -> (b: CronJobBuilder)
        ensures
            b.spec_expr() == self.spec_expr(),
            b.spec_tz() == tz_secs,
    {
        CronJobBuilder { expr: self.expr, tz_secs }
    }

    /// Binds a fresh id and yields the job. The expression is validated
    /// here: a malformed one is reported now, never at dispatch time.
    pub fn do_(&self) -> (r: Result<Job, TimerError>)
        ensures
            r matches Ok(j) ==> (j.spec_timer() matches Timer::Cron(c)
                && c.spec_expr() == self.spec_expr() && c.spec_tz() == self.spec_tz()),
            r is Ok <==> (cron_valid(self.spec_expr()) && -86400 < self.spec_tz() < 86400),
            !(-86400 < self.spec_tz() < 86400)
                ==> r == Err::<Job, TimerError>(TimerError::InvalidOffset),
            (-86400 < self.spec_tz() < 86400) && !cron_valid(self.spec_expr())
                ==> r == Err::<Job, TimerError>(TimerError::InvalidExpr),
    {
        match Cron::new(self.expr.as_str(), self.tz_secs) {
            Ok(c) => Ok(Job { id: fresh_id(), timer: Timer::Cron(c) }),
            Err(e) => Err(e),
        }
    }
}

/// Builds a job recurring a fixed interval apart from a start instant.
pub struct CycleJobBuilder {
    start_at: i64,
    end_at: Option<i64>,
    interval: i64,
}

impl CycleJobBuilder {
    pub closed spec fn spec_start(self) -> i64 {
        self.start_at
    }

    pub closed spec fn spec_end(self) -> Option<i64> {
        self.end_at
    }

    pub closed spec fn spec_interval(self) -> i64 {
        self.interval
    }

    fn new(start_at: i64, interval: i64) -> (b: CycleJobBuilder)
        ensures
            b.spec_start() == start_at,
            b.spec_interval() == interval,
            b.spec_end() is None,
    {
        CycleJobBuilder { start_at, end_at: None, interval }
    }

    /// Sets the instant after which the cycle yields no more occurrences.
    pub fn end_at(self, end_at: i64) -> (b: CycleJobBuilder)
        ensures
            b.spec_start() == self.spec_start(),
            b.spec_interval() == self.spec_interval(),
            b.spec_end() == Some(end_at),
    {
        CycleJobBuilder { end_at: Some(end_at), ..self }
    }

    /// Binds a fresh id and yields the job, rejecting parameters the
    /// recurrence arithmetic cannot carry.
    pub fn do_(&self) -> (r: Result<Job, TimerError>)
        ensures
            r matches Ok(j) ==> (j.spec_timer() matches Timer::Cycle(c)
                && c.spec_start() == self.spec_start() && c.spec_end() == self.spec_end()
                && c.spec_interval() == self.spec_interval()),
            r is Ok <==> (instant_in_range(self.spec_start())
                && 1 <= self.spec_interval() <= MAX_INSTANT
                && (self.spec_end() matches Some(e) ==> instant_in_range(e))),
            !instant_in_range(self.spec_start())
                ==> r == Err::<Job, TimerError>(TimerError::InvalidInstant),
            instant_in_range(self.spec_start())
                && (self.spec_end() matches Some(e) && !instant_in_range(e))
                ==> r == Err::<Job, TimerError>(TimerError::InvalidInstant),
            instant_in_range(self.spec_start())
                && (self.spec_end() matches Some(e) ==> instant_in_range(e))
                && !(1 <= self.spec_interval() <= MAX_INSTANT)
                ==> r == Err::<Job, TimerError>(TimerError::InvalidInterval),
    {
        match Cycle::new(self.start_at, self.end_at, self.interval) {
            Ok(c) => Ok(Job { id: fresh_id(), timer: Timer::Cycle(c) }),
            Err(e) => Err(e),
        }
    }
}

/// Builds a job that fires once, at a single instant.
pub struct OneshotJobBuilder {
    at: i64,
}

impl OneshotJobBuilder {
    pub closed spec fn spec_at(self) -> i64 {
        self.at
    }

    pub fn new(at: i64) -> (b: OneshotJobBuilder)
        ensures
            b.spec_at() == at,
    {
        OneshotJobBuilder { at }
    }

    /// Binds a fresh id and yields the job.
    pub fn do_(&self) -> (j: Job)
        ensures
            j.spec_timer() matches Timer::Oneshot(o) && o.spec_at() == self.spec_at(),
    {
        Job { id: fresh_id(), timer: Timer::Oneshot(Oneshot::new(self.at)) }
    }
}

} // verus!
