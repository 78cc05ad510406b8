use chrono::TimeZone;
use tokio_beat::job::Job;
use tokio_beat::scheduler::Scheduler;

fn millis(y: i32, mo: u32, d: u32, h: u32, mi: u32, s: u32) -> i64 {
    chrono::Utc
        .with_ymd_and_hms(y, mo, d, h, mi, s)
        .unwrap()
        .timestamp_millis()
}

#[test]
fn cycle_job_dispatches_each_second() {
    // A cycle job with a one-second interval, observed over a five-second
    // window after its start, fires once per second.
    let t: i64 = 1_000_000_000;
    let mut s = Scheduler::new();
    let job = Job::cycle(t, 1000).do_().unwrap();
    let id = job.id();
    s.add_job(job);
    s.make_time_events(t);

    let mut whens: Vec<i64> = Vec::new();
    for step in 1..=5i64 {
        let now = t + step * 1000;
        s.make_time_events(now);
        let (dispatches, _) = s.process_time_events(now);
        for c in &dispatches {
            assert_eq!(c.job_id, id);
            whens.push(c.when);
        }
    }
    assert!(whens.len() >= 4 && whens.len() <= 6);
    assert_eq!(whens.len(), 5);
    for (i, w) in whens.iter().enumerate() {
        assert_eq!(*w, t + (i as i64 + 1) * 1000);
    }
}

#[test]
fn oneshot_job_dispatches_exactly_once() {
    let t: i64 = 1_000_000_000;
    let mut s = Scheduler::new();
    let job = Job::oneshot(t + 1000).do_();
    let id = job.id();
    s.add_job(job);
    s.make_time_events(t);

    let (d0, deadline0) = s.process_time_events(t);
    assert!(d0.is_empty());
    assert_eq!(deadline0, Some(t + 1000));

    let (d1, _) = s.process_time_events(t + 1000);
    assert_eq!(d1.len(), 1);
    assert_eq!(d1[0].job_id, id);
    assert!(d1[0].when >= t + 1000);

    let (d2, deadline2) = s.process_time_events(t + 2000);
    assert!(d2.is_empty());
    assert_eq!(deadline2, None);
    let (d3, _) = s.process_time_events(t + 60_000);
    assert!(d3.is_empty());
}

#[test]
fn cron_job_dispatches_every_second() {
    // An every-second cron job observed over a three-second window.
    let t = millis(2022, 10, 31, 22, 0, 0);
    let mut s = Scheduler::new();
    let job = Job::cron("*/1 * * * * *").do_().unwrap();
    let id = job.id();
    s.add_job(job);
    s.make_time_events(t);

    let mut count = 0;
    for step in 1..=3i64 {
        let now = t + step * 1000;
        let (dispatches, _) = s.process_time_events(now);
        for c in &dispatches {
            assert_eq!(c.job_id, id);
        }
        count += dispatches.len();
    }
    assert!(count >= 2);
    assert_eq!(count, 3);
}

#[test]
fn add_then_remove_before_start_never_dispatches() {
    let t: i64 = 1_000_000_000;
    let mut s = Scheduler::new();
    let job = Job::cycle(t, 1000).do_().unwrap();
    let id = job.id();
    s.add_job(job);
    s.remove_job(id);

    s.make_time_events(t);
    let (d1, _) = s.process_time_events(t + 1000);
    assert!(d1.is_empty());
    s.make_time_events(t + 5000);
    let (d2, _) = s.process_time_events(t + 10_000);
    assert!(d2.is_empty());
}

#[test]
fn remove_discards_queued_event_as_stale() {
    // The event is already queued when the job is removed: it is discarded,
    // never dispatched.
    let t: i64 = 1_000_000_000;
    let mut s = Scheduler::new();
    let job = Job::cycle(t, 1000).do_().unwrap();
    let id = job.id();
    s.add_job(job);
    s.make_time_events(t);
    s.remove_job(id);

    let (d, deadline) = s.process_time_events(t + 5000);
    assert!(d.is_empty());
    assert_eq!(deadline, None);
}

#[test]
fn shutdown_stops_dispatch_with_pending_events() {
    let t: i64 = 1_000_000_000;
    let mut s = Scheduler::new();
    s.add_job(Job::cycle(t, 1000).do_().unwrap());
    s.make_time_events(t);
    assert!(!s.is_shutdown());
    s.shutdown();
    assert!(s.is_shutdown());

    let (d, deadline) = s.process_time_events(t + 10_000);
    assert!(d.is_empty());
    assert_eq!(deadline, None);
}

#[test]
fn earlier_job_dispatches_before_later_job() {
    let t: i64 = 1_000_000_000;
    let mut s = Scheduler::new();
    let early = Job::oneshot(t + 1000).do_();
    let late = Job::oneshot(t + 2000).do_();
    let early_id = early.id();
    let late_id = late.id();
    // Added later, due earlier: the queue order decides, not arrival.
    s.add_job(late);
    s.add_job(early);
    s.make_time_events(t);

    let (d, _) = s.process_time_events(t + 5000);
    assert_eq!(d.len(), 2);
    assert_eq!(d[0].job_id, early_id);
    assert_eq!(d[0].when, t + 1000);
    assert_eq!(d[1].job_id, late_id);
    assert_eq!(d[1].when, t + 2000);
}

#[test]
fn exhausted_job_is_stored_but_never_scheduled() {
    // A oneshot already in the past still enters the store, but produces no
    // time event and no dispatch.
    let t: i64 = 1_000_000_000;
    let mut s = Scheduler::new();
    s.add_job(Job::oneshot(t - 1000).do_());
    s.make_time_events(t);

    let (d, deadline) = s.process_time_events(t);
    assert!(d.is_empty());
    assert_eq!(deadline, None);
}

#[test]
fn deadline_is_earliest_pending_instant() {
    let t: i64 = 1_000_000_000;
    let mut s = Scheduler::new();
    s.add_job(Job::oneshot(t + 7000).do_());
    s.add_job(Job::oneshot(t + 3000).do_());
    s.make_time_events(t);

    let (d, deadline) = s.process_time_events(t);
    assert!(d.is_empty());
    assert_eq!(deadline, Some(t + 3000));
}
