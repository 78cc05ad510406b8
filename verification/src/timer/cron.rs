use vstd::prelude::*;
use std::str::FromStr;
use crate::timer::{instant_in_range, TimerError};

verus! {

/// Whether the cron evaluation library accepts the expression: exactly when
/// `cron::Schedule::from_str` returns `Ok`.
pub uninterp spec fn cron_valid(expr: Seq<char>) -> bool;

/// The earliest instant, at one-second granularity and in milliseconds since
/// the Unix epoch, strictly after `now` that matches the expression read in
/// the fixed-offset timezone `tz_secs` seconds east — or nothing where the
/// schedule has no occurrence left. Names what `cron::Schedule::after`
/// followed by one step of its iterator computes: a value of the three
/// arguments alone.
pub uninterp spec fn cron_next_of(expr: Seq<char>, tz_secs: i32, now: i64) -> Option<i64>;

/// Relies on cron's `Schedule::from_str`: whether it accepts an expression
/// is decided by the text alone.
#[verifier::external_body]
fn cron_expr_valid(expr: &str) -> (r: bool)
    ensures
        r == cron_valid(expr@),
{
    cron::Schedule::from_str(expr).is_ok()
}

/// Relies on cron's `Schedule::after`: the first element of the iterator it
/// returns is the earliest schedule instant strictly after the given one
/// (its search starts one second past it), computed from the schedule text,
/// the timezone and that instant alone.
#[verifier::external_body]
fn cron_next_millis(expr: &str, tz_secs: i32, now: i64) -> (r: Option<i64>)
    requires
        cron_valid(expr@),
        -86400 < tz_secs < 86400,
        instant_in_range(now),
    ensures
        r == cron_next_of(expr@, tz_secs, now),
        r matches Some(t) ==> t > now,
{
    let schedule = cron::Schedule::from_str(expr).unwrap();
    let tz = chrono::FixedOffset::east_opt(tz_secs).unwrap();
    let base = chrono::DateTime::from_timestamp_millis(now).unwrap().with_timezone(&tz);
    match schedule.after(&base).next() {
        Some(d) => Some(d.timestamp_millis()),
        None => None,
    }
}

/// A timer recurring on the instants of a cron schedule, read in a fixed
/// timezone offset. The expression is validated once, when the timer is
/// built; computing occurrences can then never fail.
pub struct Cron {
    expr: String,
    tz_secs: i32,
}

impl Cron {
    #[verifier::type_invariant]
    spec fn inv(self) -> bool {
        cron_valid(self.expr@) && -86400 < self.tz_secs < 86400
    }

    /// The schedule expression.
    pub closed spec fn spec_expr(self) -> Seq<char> {
        self.expr@
    }

    /// The fixed timezone offset, in seconds east of UTC.
    pub closed spec fn spec_tz(self) -> i32 {
        self.tz_secs
    }

    /// Builds the timer after checking the expression with the cron
    /// evaluation library. A malformed expression or an out-of-range offset
    /// is reported here, at construction, never at dispatch time.
    pub fn new(expr: &str, tz_secs: i32) -> (r: Result<Cron, TimerError>)
        ensures
            r matches Ok(c) ==> c.spec_expr() == expr@ && c.spec_tz() == tz_secs,
            r is Ok <==> (cron_valid(expr@) && -86400 < tz_secs < 86400),
            !(-86400 < tz_secs < 86400) ==> r == Err::<Cron, TimerError>(TimerError::InvalidOffset),
            (-86400 < tz_secs < 86400) && !cron_valid(expr@)
                ==> r == Err::<Cron, TimerError>(TimerError::InvalidExpr),
    {
        if !(-86400 < tz_secs && tz_secs < 86400) {
            return Err(TimerError::InvalidOffset);
        }
        if !cron_expr_valid(expr) {
            return Err(TimerError::InvalidExpr);
        }
        Ok(Cron { expr: expr.to_owned(), tz_secs })
    }

    pub fn next(&self, now: i64) -> (r: Option<i64>)
        requires
            instant_in_range(now),
        ensures
            r == cron_next_of(self.spec_expr(), self.spec_tz(), now),
            r matches Some(t) ==> t > now,
    {
        proof {
            use_type_invariant(self);
        }
        cron_next_millis(self.expr.as_str(), self.tz_secs, now)
    }
}

} // verus!
