use vstd::prelude::*;
use vstd::multiset::Multiset;
use std::collections::HashMap;
use crate::context::Context;
use crate::job::{job_next_event, Job};
use crate::time_event::TimeEvent;
use crate::timer::instant_in_range;

verus! {

broadcast use {
    vstd::std_specs::hash::group_hash_axioms,
    vstd::seq_lib::group_seq_lib_default,
    vstd::seq_lib::group_to_multiset_ensures,
    vstd::multiset::group_multiset_axioms,
};

/// The queue keeps its events ordered by due instant, earliest first.
pub open spec fn events_sorted(s: Seq<TimeEvent>) -> bool {
    forall|i: int, j: int| 0 <= i < j < s.len() ==> s[i].when <= s[j].when
}

/// The job store after materializing a buffer of new jobs, in order; a later
/// job with the same id replaces an earlier one.
pub open spec fn store_with(m: Map<u128, Job>, jobs: Seq<Job>) -> Map<u128, Job>
    decreases jobs.len(),
{
    if jobs.len() == 0 {
        m
    } else {
        store_with(m, jobs.drop_last()).insert(jobs.last().spec_id(), jobs.last())
    }
}

/// The first time events of a buffer of new jobs: one per job whose timer
/// still has an occurrence at `now`; a job already exhausted contributes
/// nothing and is never scheduled.
pub open spec fn first_events(jobs: Seq<Job>, now: i64) -> Multiset<TimeEvent>
    decreases jobs.len(),
{
    if jobs.len() == 0 {
        Multiset::empty()
    } else {
        match job_next_event(jobs.last(), now) {
            Some(e) => first_events(jobs.drop_last(), now).insert(e),
            None => first_events(jobs.drop_last(), now),
        }
    }
}

/// What a drain of the queue at `now` dispatches: the events already due
/// whose job is still in the store, in queue order. A due event whose id is
/// no longer stored is stale: it is discarded, not dispatched.
pub open spec fn dispatches_of(events: Seq<TimeEvent>, store: Map<u128, Job>, now: i64) -> Seq<
    Context,
>
    decreases events.len(),
{
    if events.len() == 0 {
        Seq::empty()
    } else {
        let rest = dispatches_of(events.drop_last(), store, now);
        let e = events.last();
        if e.when <= now && store.contains_key(e.job_id) {
            rest.push((Context { job_id: e.job_id, when: e.when }))
        } else {
            rest
        }
    }
}

/// What a drain at `now` puts back on the queue: for each dispatch, the
/// job's next occurrence, kept only when strictly after `now` — an
/// occurrence not strictly after `now` would be due at once and dispatch
/// again at the same instant.
pub open spec fn reenqueues_of(d: Seq<Context>, store: Map<u128, Job>, now: i64) -> Multiset<
    TimeEvent,
>
    decreases d.len(),
{
    if d.len() == 0 {
        Multiset::empty()
    } else {
        let rest = reenqueues_of(d.drop_last(), store, now);
        let c = d.last();
        if store.contains_key(c.job_id) {
            match job_next_event(store[c.job_id], now) {
                Some(e) => if e.when > now {
                    rest.insert(e)
                } else {
                    rest
                },
                None => rest,
            }
        } else {
            rest
        }
    }
}

/// The shared state of the dispatch loop: the job store, the buffer of jobs
/// added but not yet materialized, the min-ordered queue of pending time
/// events, and the shutdown flag. A host drives it: it materializes and
/// drains under its own lock and performs the dispatches handed back.
pub struct Scheduler {
    job_store: HashMap<u128, Job>,
    new_jobs: Vec<Job>,
    time_events: Vec<TimeEvent>,
    shutdown: bool,
}

impl Scheduler {
    /// The materialized jobs, by id.
    pub closed spec fn store(self) -> Map<u128, Job> {
        self.job_store@
    }

    /// The jobs added but not yet materialized, oldest first.
    pub closed spec fn pending(self) -> Seq<Job> {
        self.new_jobs@
    }

    /// The queue of pending time events, earliest first.
    pub closed spec fn events(self) -> Seq<TimeEvent> {
        self.time_events@
    }

    /// Whether shutdown was requested. The flag is monotonic: nothing ever
    /// clears it.
    pub closed spec fn spec_shutdown(self) -> bool {
        self.shutdown
    }

    /// The scheduler's invariant: the event queue is ordered by due instant.
    pub open spec fn wf(self) -> bool {
        events_sorted(self.events())
    }

    pub fn new() -> (s: Scheduler)
        ensures
            s.wf(),
            s.store() == Map::<u128, Job>::empty(),
            s.pending() == Seq::<Job>::empty(),
            s.events() == Seq::<TimeEvent>::empty(),
            !s.spec_shutdown(),
    {
        Scheduler {
            job_store: HashMap::new(),
            new_jobs: Vec::new(),
            time_events: Vec::new(),
            shutdown: false,
        }
    }

    /// Buffers a job for the loop to materialize. Never fails: validation
    /// already happened when the job was built.
    pub fn add_job(&mut self, job: Job)
        requires
            old(self).wf(),
        ensures
            final(self).wf(),
            final(self).pending() == old(self).pending().push(job),
            final(self).store() == old(self).store(),
            final(self).events() == old(self).events(),
            final(self).spec_shutdown() == old(self).spec_shutdown(),
    {
        self.new_jobs.push(job);
    }

    /// Deletes a job: from the store, and from the buffer of jobs not yet
    /// materialized, so that a removal at any point — even between adding
    /// and starting — prevents every later dispatch of the id. Idempotent:
    /// removing an absent id changes nothing. Any time event already queued
    /// for the id stays and goes stale; the drain discards it instead of
    /// dispatching it.
    #[verifier::loop_isolation(false)]
    pub fn remove_job(&mut self, job_id: u128)
        requires
            old(self).wf(),
        ensures
            final(self).wf(),
            final(self).store() == old(self).store().remove(job_id),
            final(self).pending() == old(self).pending().filter(
                |j: Job| j.spec_id() != job_id,
            ),
            final(self).events() == old(self).events(),
            final(self).spec_shutdown() == old(self).spec_shutdown(),
    {
        self.job_store.remove(&job_id);
        let ghost orig = self.new_jobs@;
        let ghost pred = |j: Job| j.spec_id() != job_id;
        let mut kept: Vec<Job> = Vec::new();
        let ghost mut k: int = 0;
        while self.new_jobs.len() > 0
            invariant
                0 <= k <= orig.len(),
                self.new_jobs@ == orig.skip(k),
                kept@ == orig.take(k).filter(pred),
                self.job_store@ == old(self).job_store@.remove(job_id),
                self.time_events@ == old(self).time_events@,
                self.shutdown == old(self).shutdown,
            decreases self.new_jobs@.len(),
        {
            let job = self.new_jobs.remove(0);
            proof {
                assert(job == orig[k]);
                assert(orig.skip(k).remove(0) =~= orig.skip(k + 1));
            }
            if job.id() != job_id {
                kept.push(job);
            }
            proof {
                reveal(Seq::filter);
                assert(orig.take(k + 1).drop_last() =~= orig.take(k));
                assert(orig.take(k + 1).last() == orig[k]);
                k = k + 1;
            }
        }
        self.new_jobs = kept;
        proof {
            assert(orig.take(k) =~= orig);
        }
    }

    /// Raises the shutdown flag. Irreversible: the loop stops dispatching
    /// once it observes the flag.
    pub fn shutdown(&mut self)
        requires
            old(self).wf(),
        ensures
            final(self).wf(),
            final(self).spec_shutdown(),
            final(self).store() == old(self).store(),
            final(self).pending() == old(self).pending(),
            final(self).events() == old(self).events(),
    {
        self.shutdown = true;
    }

    pub fn is_shutdown(&self) -> (r: bool)
        ensures
            r == self.spec_shutdown(),
    {
        self.shutdown
    }

    /// Materializes the buffered jobs: each is put in the store — replacing
    /// a stored job with the same id — and its first time event, if its
    /// timer is not already exhausted, joins the queue.
    #[verifier::loop_isolation(false)]
    pub fn make_time_events(&mut self, now: i64)
        requires
            old(self).wf(),
            instant_in_range(now),
        ensures
            final(self).wf(),
            final(self).pending() == Seq::<Job>::empty(),
            final(self).spec_shutdown() == old(self).spec_shutdown(),
            final(self).store() == store_with(old(self).store(), old(self).pending()),
            final(self).events().to_multiset() == old(self).events().to_multiset().add(
                first_events(old(self).pending(), now),
            ),
    {
        let ghost orig_store = self.job_store@;
        let ghost orig_pending = self.new_jobs@;
        let ghost orig_ms = self.time_events@.to_multiset();
        let ghost mut k: int = 0;
        while self.new_jobs.len() > 0
            invariant
                0 <= k <= orig_pending.len(),
                self.new_jobs@ == orig_pending.skip(k),
                self.job_store@ == store_with(orig_store, orig_pending.take(k)),
                self.time_events@.to_multiset() == orig_ms.add(
                    first_events(orig_pending.take(k), now),
                ),
                events_sorted(self.time_events@),
                self.shutdown == old(self).shutdown,
            decreases self.new_jobs@.len(),
        {
            let job = self.new_jobs.remove(0);
            let id = job.id();
            let ev = job.next_time_event(now);
            proof {
                assert(job == orig_pending[k]);
                assert(orig_pending.skip(k).remove(0) =~= orig_pending.skip(k + 1));
            }
            if let Some(e) = ev {
                insert_sorted(&mut self.time_events, e);
            }
            self.job_store.insert(id, job);
            proof {
                assert(orig_pending.take(k + 1).drop_last() =~= orig_pending.take(k));
                assert(orig_pending.take(k + 1).last() == orig_pending[k]);
                assert(self.time_events@.to_multiset() =~= orig_ms.add(
                    first_events(orig_pending.take(k + 1), now),
                ));
                k = k + 1;
            }
        }
        proof {
            assert(orig_pending.take(k) =~= orig_pending);
            assert(self.new_jobs@ =~= Seq::<Job>::empty());
        }
    }

    /// Drains the queue at `now`: every due event is popped; a stale one is
    /// discarded; for the others, in due order, the job is handed back for
    /// dispatch and its next occurrence rejoins the queue. Returns the
    /// dispatches and the next deadline — the earliest pending instant, or
    /// nothing when the queue is empty. When shutdown has been observed,
    /// nothing is drained and nothing is dispatched.
    #[verifier::loop_isolation(false)]
    #[verifier::rlimit(100)]
    pub fn process_time_events(&mut self, now: i64) -> (r: (Vec<Context>, Option<i64>))
        requires
            old(self).wf(),
            instant_in_range(now),
        ensures
            final(self).wf(),
            final(self).pending() == old(self).pending(),
            final(self).store() == old(self).store(),
            final(self).spec_shutdown() == old(self).spec_shutdown(),
            old(self).spec_shutdown() ==> *final(self) == *old(self)
                && r.0@ == Seq::<Context>::empty() && r.1 is None,
            !old(self).spec_shutdown() ==> {
                &&& r.0@ == dispatches_of(old(self).events(), old(self).store(), now)
                &&& final(self).events().to_multiset() == old(self).events().filter(
                    |e: TimeEvent| e.when > now,
                ).to_multiset().add(reenqueues_of(r.0@, old(self).store(), now))
                &&& forall|i: int|
                    0 <= i < final(self).events().len() ==> final(self).events()[i].when > now
                &&& r.1 == (if final(self).events().len() > 0 {
                    Some(final(self).events()[0].when)
                } else {
                    None::<i64>
                })
            },
    {
        if self.shutdown {
            return (Vec::new(), None);
        }
        let ghost orig_events = self.time_events@;
        let ghost store_map = self.job_store@;

        // Pop the due prefix of the queue.
        let mut due: Vec<TimeEvent> = Vec::new();
        while self.time_events.len() > 0 && self.time_events[0].when <= now
            invariant
                due@.len() <= orig_events.len(),
                due@ == orig_events.take(due@.len() as int),
                self.time_events@ == orig_events.skip(due@.len() as int),
                forall|i: int| 0 <= i < due@.len() ==> due@[i].when <= now,
                self.job_store@ == store_map,
                self.new_jobs@ == old(self).new_jobs@,
                !self.shutdown,
            decreases self.time_events@.len(),
        {
            let ghost k = due@.len() as int;
            let e = self.time_events.remove(0);
            due.push(e);
            proof {
                assert(orig_events.skip(k).remove(0) =~= orig_events.skip(k + 1));
                assert(orig_events.take(k).push(orig_events[k]) =~= orig_events.take(k + 1));
            }
        }
        let ghost due_seq = due@;
        let ghost future = self.time_events@;
        proof {
            assert(due_seq + future =~= orig_events);
            assert(forall|i: int| 0 <= i < future.len() ==> future[i].when > now) by {
                if future.len() > 0 {
                    assert(future[0] == orig_events[due_seq.len() as int]);
                }
            }
            lemma_filter_all_false(due_seq, |e: TimeEvent| e.when > now);
            lemma_filter_all_true(future, |e: TimeEvent| e.when > now);
            assert(orig_events.filter(|e: TimeEvent| e.when > now) == future);
            lemma_dispatches_append_future(due_seq, future, store_map, now);
        }

        // Dispatch the due events in order, re-enqueueing each job's next
        // occurrence.
        let mut dispatched: Vec<Context> = Vec::new();
        let ghost future_ms = future.to_multiset();
        let mut i: usize = 0;
        while i < due.len()
            invariant
                i <= due_seq.len(),
                due@ == due_seq,
                self.job_store@ == store_map,
                self.new_jobs@ == old(self).new_jobs@,
                !self.shutdown,
                dispatched@ == dispatches_of(due_seq.take(i as int), store_map, now),
                self.time_events@.to_multiset() == future_ms.add(
                    reenqueues_of(dispatched@, store_map, now),
                ),
                events_sorted(self.time_events@),
                forall|j: int|
                    0 <= j < self.time_events@.len() ==> self.time_events@[j].when > now,
            decreases due@.len() - i,
        {
            let e = due[i];
            let mut next_ev: Option<TimeEvent> = None;
            let stored = match self.job_store.get(&e.job_id) {
                Some(job) => {
                    next_ev = job.next_time_event(now);
                    true
                },
                None => false,
            };
            let ghost d_prev = dispatched@;
            if stored {
                dispatched.push(Context { job_id: e.job_id, when: e.when });
                if let Some(ne) = next_ev {
                    if ne.when > now {
                        insert_sorted(&mut self.time_events, ne);
                    }
                }
            }
            proof {
                assert(due_seq.take(i + 1).drop_last() =~= due_seq.take(i as int));
                assert(due_seq.take(i + 1).last() == due_seq[i as int]);
                if stored {
                    assert(dispatched@.drop_last() =~= d_prev);
                    assert(self.time_events@.to_multiset() =~= future_ms.add(
                        reenqueues_of(dispatched@, store_map, now),
                    ));
                }
            }
            i = i + 1;
        }
        proof {
            assert(due_seq.take(due_seq.len() as int) =~= due_seq);
        }

        let deadline: Option<i64> = if self.time_events.len() > 0 {
            Some(self.time_events[0].when)
        } else {
            None
        };
        (dispatched, deadline)
    }
}

/// Puts an event into the queue at its place in the order; events with the
/// same due instant stay in their arrival order.
#[verifier::loop_isolation(false)]
fn insert_sorted(events: &mut Vec<TimeEvent>, e: TimeEvent)
    requires
        events_sorted(old(events)@),
    ensures
        events_sorted(final(events)@),
        final(events)@.to_multiset() == old(events)@.to_multiset().insert(e),
        final(events)@.len() == old(events)@.len() + 1,
        forall|i: int|
            0 <= i < final(events)@.len() ==> (final(events)@[i] == e || old(events)@.contains(
                final(events)@[i],
            )),
{
    let ghost orig = events@;
    let mut idx: usize = events.len();
    while idx > 0 && events[idx - 1].when > e.when
        invariant
            idx <= events@.len(),
            forall|j: int| idx <= j < events@.len() ==> events@[j].when > e.when,
        decreases idx,
    {
        idx = idx - 1;
    }
    events.insert(idx, e);
    proof {
        assert(events@ == orig.insert(idx as int, e));
        assert forall|i: int| 0 <= i < events@.len() implies (events@[i] == e || orig.contains(
            events@[i],
        )) by {
            if i < idx {
                assert(events@[i] == orig[i]);
            } else if i > idx {
                assert(events@[i] == orig[i - 1]);
            }
        }
        assert forall|i: int, j: int| 0 <= i < j < events@.len() implies events@[i].when
            <= events@[j].when by {
            if i < idx {
                assert(events@[i] == orig[i]);
            } else if i > idx {
                assert(events@[i] == orig[i - 1]);
            }
            if j < idx {
                assert(events@[j] == orig[j]);
            } else if j > idx {
                assert(events@[j] == orig[j - 1]);
            }
            if idx > 0 {
                assert(orig[idx - 1].when <= e.when);
            }
        }
    }
}

/// Filtering keeps nothing when no element passes.
proof fn lemma_filter_all_false(s: Seq<TimeEvent>, pred: spec_fn(TimeEvent) -> bool)
    requires
        forall|i: int| 0 <= i < s.len() ==> !pred(s[i]),
    ensures
        s.filter(pred) == Seq::<TimeEvent>::empty(),
    decreases s.len(),
{
    reveal(Seq::filter);
    if s.len() != 0 {
        lemma_filter_all_false(s.drop_last(), pred);
    }
}

/// Filtering keeps everything when every element passes.
proof fn lemma_filter_all_true(s: Seq<TimeEvent>, pred: spec_fn(TimeEvent) -> bool)
    requires
        forall|i: int| 0 <= i < s.len() ==> pred(s[i]),
    ensures
        s.filter(pred) == s,
    decreases s.len(),
{
    reveal(Seq::filter);
    if s.len() != 0 {
        lemma_filter_all_true(s.drop_last(), pred);
        assert(s.drop_last().push(s.last()) =~= s);
    }
}

/// Events not yet due contribute no dispatch: draining a queue that ends in
/// a run of future events dispatches the same as draining its due part.
proof fn lemma_dispatches_append_future(
    a: Seq<TimeEvent>,
    b: Seq<TimeEvent>,
    store: Map<u128, Job>,
    now: i64,
)
    requires
        forall|i: int| 0 <= i < b.len() ==> b[i].when > now,
    ensures
        dispatches_of(a + b, store, now) == dispatches_of(a, store, now),
    decreases b.len(),
{
    if b.len() == 0 {
        assert(a + b =~= a);
    } else {
        lemma_dispatches_append_future(a, b.drop_last(), store, now);
        assert((a + b).drop_last() =~= a + b.drop_last());
        assert((a + b).last() == b.last());
    }
}

/// Dispatch follows the order of due instants: when the queue is ordered,
/// a job due earlier is handed out no later than a job due later — and
/// every dispatch is of an event already due.
pub proof fn lemma_dispatches_ordered(events: Seq<TimeEvent>, store: Map<u128, Job>, now: i64)
    requires
        events_sorted(events),
    ensures
        ({
            let d = dispatches_of(events, store, now);
            &&& forall|i: int, j: int| 0 <= i < j < d.len() ==> d[i].when <= d[j].when
            &&& forall|i: int| 0 <= i < d.len() ==> d[i].when <= now
            &&& events.len() > 0 ==> forall|i: int|
                0 <= i < d.len() ==> d[i].when <= events.last().when
        }),
    decreases events.len(),
{
    if events.len() > 0 {
        assert(events_sorted(events.drop_last()));
        lemma_dispatches_ordered(events.drop_last(), store, now);
        let d = dispatches_of(events, store, now);
        let rest = dispatches_of(events.drop_last(), store, now);
        if events.len() > 1 {
            assert(events.drop_last().last().when <= events.last().when);
        }
        assert forall|i: int| 0 <= i < d.len() implies d[i].when <= events.last().when by {
            if i < rest.len() {
                assert(d[i] == rest[i]);
            }
        }
    }
}

/// Every dispatch is of a job that is in the store at the drain.
pub proof fn lemma_dispatches_in_store(events: Seq<TimeEvent>, store: Map<u128, Job>, now: i64)
    ensures
        forall|i: int|
            0 <= i < dispatches_of(events, store, now).len() ==> store.contains_key(
                dispatches_of(events, store, now)[i].job_id,
            ),
    decreases events.len(),
{
    if events.len() > 0 {
        lemma_dispatches_in_store(events.drop_last(), store, now);
        let d = dispatches_of(events, store, now);
        let rest = dispatches_of(events.drop_last(), store, now);
        assert forall|i: int| 0 <= i < d.len() implies store.contains_key(d[i].job_id) by {
            if i < rest.len() {
                assert(d[i] == rest[i]);
            }
        }
    }
}

/// A removed job is never dispatched: once its id is out of the store, a
/// drain hands out nothing for it, even while stale events for the id still
/// sit in the queue.
pub proof fn lemma_removed_never_dispatched(
    events: Seq<TimeEvent>,
    store: Map<u128, Job>,
    now: i64,
    job_id: u128,
)
    requires
        !store.contains_key(job_id),
    ensures
        forall|i: int|
            0 <= i < dispatches_of(events, store, now).len() ==> dispatches_of(
                events,
                store,
                now,
            )[i].job_id != job_id,
{
    lemma_dispatches_in_store(events, store, now);
}

/// Materializing a buffer with no job of a given id puts no such job in the
/// store: removing an id from both the store and the pending buffer keeps
/// it out until it is added again.
pub proof fn lemma_store_with_absent(m: Map<u128, Job>, jobs: Seq<Job>, job_id: u128)
    requires
        !m.contains_key(job_id),
        forall|i: int| 0 <= i < jobs.len() ==> jobs[i].spec_id() != job_id,
    ensures
        !store_with(m, jobs).contains_key(job_id),
    decreases jobs.len(),
{
    if jobs.len() > 0 {
        lemma_store_with_absent(m, jobs.drop_last(), job_id);
    }
}

} // verus!
