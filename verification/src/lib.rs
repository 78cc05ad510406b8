//! An in-process, in-memory job scheduler library.
//!
//! Jobs pair a unique identifier with a timer that yields the job's next due
//! instant under one of three recurrence policies: a cron schedule, a fixed
//! interval cycle with an optional end, or a single future instant. The
//! scheduler keeps the shared state of the dispatch loop — the job store, the
//! buffer of newly added jobs, the min-ordered queue of pending time events
//! and the shutdown flag — and exposes the verified state transitions that a
//! host's background task drives: materializing buffered jobs and draining
//! the events that have come due.
//!
//! Instants are milliseconds since the Unix epoch; callers read the clock and
//! pass the current instant in.

pub mod context;
pub mod job;
pub mod scheduler;
pub mod time_event;
pub mod timer;
