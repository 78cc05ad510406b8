use vstd::prelude::*;

verus! {

/// What one dispatch is handed: the id of the job being run and the instant,
/// in milliseconds since the Unix epoch, at which it came due.
#[derive(Clone, Copy, Debug, PartialEq, Eq, Structural)]
pub struct Context {
    pub job_id: u128,
    pub when: i64,
}

} // verus!
