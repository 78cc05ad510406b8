use chrono::TimeZone;
use tokio_beat::job::Job;
use tokio_beat::timer::cron::Cron;
use tokio_beat::timer::cycle::Cycle;
use tokio_beat::timer::oneshot::Oneshot;
use tokio_beat::timer::TimerError;

fn millis(y: i32, mo: u32, d: u32, h: u32, mi: u32, s: u32) -> i64 {
    chrono::Utc
        .with_ymd_and_hms(y, mo, d, h, mi, s)
        .unwrap()
        .timestamp_millis()
}

#[test]
fn cron_test_next() {
    let timer = Cron::new("0 */1 * * * *", 0).unwrap();
    let now = chrono::Utc::now().timestamp_millis();
    let next = timer.next(now);
    assert!(next.is_some());
}

#[test]
fn cycle_test_next() {
    let now = chrono::Utc::now().timestamp_millis();
    let timer = Cycle::new(now, None, 3000).unwrap();
    assert!(timer.next(now).is_some());

    let timer = Cycle::new(now - 4000, Some(now - 1), 3000).unwrap();
    assert!(timer.next(now).is_none());
}

#[test]
fn oneshot_test_next() {
    let now = chrono::Utc::now().timestamp_millis();
    let timer = Oneshot::new(now + 1000);
    assert!(timer.next(now).is_some());

    let timer = Oneshot::new(now - 1000);
    assert!(timer.next(now).is_none());
}

#[test]
fn oneshot_exact_and_boundary() {
    let at: i64 = 5_000_000;
    let timer = Oneshot::new(at);
    // Any query at or before the instant sees the instant itself.
    assert_eq!(timer.next(at - 1), Some(at));
    assert_eq!(timer.next(at), Some(at));
    assert_eq!(timer.next(0), Some(at));
    // One past it, the timer is exhausted for good.
    assert_eq!(timer.next(at + 1), None);
    assert_eq!(timer.next(i64::MAX), None);
}

#[test]
fn cycle_exact_formula() {
    // start + (floor((now - start) / interval) + 1) * interval
    let timer = Cycle::new(1000, None, 1000).unwrap();
    assert_eq!(timer.next(4500), Some(5000));
    assert_eq!(timer.next(4999), Some(5000));
    assert_eq!(timer.next(5000), Some(6000));
}

#[test]
fn cycle_before_start_yields_start() {
    // The first occurrence of a cycle queried before its start is the start
    // itself, not an artifact of truncating division.
    let timer = Cycle::new(10_000, None, 3000).unwrap();
    assert_eq!(timer.next(5000), Some(10_000));
    assert_eq!(timer.next(9999), Some(10_000));
    // At the start, the next occurrence is strictly after it.
    assert_eq!(timer.next(10_000), Some(13_000));
}

#[test]
fn cycle_end_boundary() {
    let timer = Cycle::new(0, Some(10_000), 3000).unwrap();
    // Not yet past the end: an occurrence is still produced, even beyond it.
    assert_eq!(timer.next(10_000), Some(12_000));
    // Strictly past the end: exhausted.
    assert_eq!(timer.next(10_001), None);
}

#[test]
fn cron_exact_value() {
    // Every second: the next occurrence after an exact second is one second
    // later.
    let t = millis(2022, 10, 31, 22, 0, 0);
    let timer = Cron::new("*/1 * * * * *", 0).unwrap();
    assert_eq!(timer.next(t), Some(t + 1000));
    assert_eq!(timer.next(t + 500), Some(t + 1000));
}

#[test]
fn cron_respects_timezone() {
    // Daily at local midnight, one hour east of UTC: that is 23:00 UTC.
    let t = millis(2022, 10, 31, 22, 0, 0);
    let timer = Cron::new("0 0 0 * * *", 3600).unwrap();
    assert_eq!(timer.next(t), Some(millis(2022, 10, 31, 23, 0, 0)));
}

#[test]
fn cron_builder_rejects_malformed_expression() {
    let r = Job::cron("not a cron expression").do_();
    assert_eq!(r.err(), Some(TimerError::InvalidExpr));
}

#[test]
fn cron_builder_rejects_bad_offset() {
    let r = Job::cron("* * * * * *").tz(90_000).do_();
    assert_eq!(r.err(), Some(TimerError::InvalidOffset));
}

#[test]
fn cron_builder_accepts_valid_expression() {
    let job = Job::cron("0 */30 * * * *").tz(3600).do_().unwrap();
    let t = millis(2022, 10, 31, 22, 0, 0);
    let e = job.next_time_event(t).unwrap();
    assert_eq!(e.job_id, job.id());
    assert_eq!(e.when, millis(2022, 10, 31, 22, 30, 0));
}

#[test]
fn cycle_builder_rejects_bad_parameters() {
    assert_eq!(
        Job::cycle(i64::MAX, 1000).do_().err(),
        Some(TimerError::InvalidInstant)
    );
    assert_eq!(
        Job::cycle(0, 1000).end_at(i64::MIN).do_().err(),
        Some(TimerError::InvalidInstant)
    );
    assert_eq!(Job::cycle(0, 0).do_().err(), Some(TimerError::InvalidInterval));
    assert_eq!(
        Job::cycle(0, -1000).do_().err(),
        Some(TimerError::InvalidInterval)
    );
}

#[test]
fn job_next_time_event_carries_id() {
    let job = Job::oneshot(7_000).do_();
    let e = job.next_time_event(1_000).unwrap();
    assert_eq!(e.when, 7_000);
    assert_eq!(e.job_id, job.id());
    assert!(job.next_time_event(7_001).is_none());
}
