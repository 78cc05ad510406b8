use chrono::TimeZone;
use tokio_beat::time_event::TimeEvent;

fn millis(y: i32, mo: u32, d: u32, h: u32, mi: u32, s: u32) -> i64 {
    chrono::Utc
        .with_ymd_and_hms(y, mo, d, h, mi, s)
        .unwrap()
        .timestamp_millis()
}

#[test]
fn test_ord() {
    let t1 = millis(2022, 10, 31, 22, 0, 0);
    let t2 = millis(2022, 10, 31, 22, 1, 0);
    let t3 = millis(2022, 10, 31, 22, 1, 0);
    let t4 = millis(2022, 10, 31, 23, 1, 0);

    let e1 = TimeEvent {
        job_id: uuid::Uuid::new_v4().as_u128(),
        when: t1,
    };
    let e2 = TimeEvent {
        job_id: uuid::Uuid::new_v4().as_u128(),
        when: t2,
    };
    let e3 = TimeEvent {
        job_id: uuid::Uuid::new_v4().as_u128(),
        when: t3,
    };
    let e4 = TimeEvent {
        job_id: uuid::Uuid::new_v4().as_u128(),
        when: t4,
    };

    assert!(e1 < e2);
    assert!(e1 <= e2);
    assert!(e2 > e1);
    assert!(e2 >= e1);

    assert!(e2 == e3);
    assert!(e2 >= e3);
    assert!(e2 <= e3);

    assert!(e3 < e4);
    assert!(e3 <= e4);
    assert!(e4 > e3);
    assert!(e4 >= e3);
}
