use vstd::prelude::*;

verus! {

/// A timer that yields a single instant, in milliseconds since the Unix
/// epoch. It is the only timer kind that moves from active to exhausted:
/// once its instant has passed it yields nothing, forever.
pub struct Oneshot {
    at: i64,
}

/// A oneshot's next occurrence: its instant while `now` has not passed it,
/// nothing afterwards.
pub open spec fn oneshot_next(at: i64, now: i64) -> Option<i64> {
    if now <= at {
        Some(at)
    } else {
        None
    }
}

impl Oneshot {
    /// The instant this timer fires at.
    pub closed spec fn spec_at(self) -> i64 {
        self.at
    }

    pub fn new(at: i64) -> (r: Oneshot)
        ensures
            r.spec_at() == at,
    {
        Oneshot { at }
    }

    pub fn next(&self, now: i64) -> (r: Option<i64>)
        ensures
            r == oneshot_next(self.spec_at(), now),
    {
        if now <= self.at {
            Some(self.at)
        } else {
            None
        }
    }
}

/// A oneshot timer answers every query at or before its instant with that
/// instant and every later query with nothing: it never oscillates.
pub proof fn lemma_oneshot_behavior(at: i64, now: i64)
    ensures
        now <= at ==> oneshot_next(at, now) == Some(at),
        now > at ==> oneshot_next(at, now) is None,
{
}

/// Queries before the instant are idempotent: any two of them, however far
/// apart, see the same occurrence.
pub proof fn lemma_oneshot_idempotent(at: i64, now1: i64, now2: i64)
    requires
        now1 <= at,
        now2 <= at,
    ensures
        oneshot_next(at, now1) == oneshot_next(at, now2),
{
}

} // verus!
