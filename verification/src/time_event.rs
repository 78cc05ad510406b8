use vstd::prelude::*;

verus! {

/// One pending dispatch: the instant a job becomes due, in milliseconds since
/// the Unix epoch, and the identifier of the job to run. Events are ordered by
/// `when` alone; the job id takes no part in the order.
#[derive(Clone, Copy)]
pub struct TimeEvent {
    pub job_id: u128,
    pub when: i64,
}

impl PartialEq for TimeEvent {
    fn eq(&self, other: &Self) -> (r: bool) {
        self.when == other.when
    }
}

impl vstd::std_specs::cmp::PartialEqSpecImpl for TimeEvent {
    open spec fn obeys_eq_spec() -> bool {
        true
    }

    open spec fn eq_spec(&self, other: &TimeEvent) -> bool {
        self.when == other.when
    }
}

impl PartialOrd for TimeEvent {
    fn partial_cmp(&self, other: &Self) -> (r: Option<core::cmp::Ordering>) {
        if self.when < other.when {
            Some(core::cmp::Ordering::Less)
        } else if self.when == other.when {
            Some(core::cmp::Ordering::Equal)
        } else {
            Some(core::cmp::Ordering::Greater)
        }
    }
}

impl vstd::std_specs::cmp::PartialOrdSpecImpl for TimeEvent {
    open spec fn obeys_partial_cmp_spec() -> bool {
        true
    }

    open spec fn partial_cmp_spec(&self, other: &TimeEvent) -> Option<core::cmp::Ordering> {
        if self.when < other.when {
            Some(core::cmp::Ordering::Less)
        } else if self.when == other.when {
            Some(core::cmp::Ordering::Equal)
        } else {
            Some(core::cmp::Ordering::Greater)
        }
    }
}

} // verus!
