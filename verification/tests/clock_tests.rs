use worker_supervisor::clock::{rfc3339, Clock, Moment, NANOS_PER_SECOND};

#[test]
fn rfc3339_of_known_instants() {
    assert_eq!(rfc3339(0), "1970-01-01T00:00:00+00:00");
    assert_eq!(rfc3339(1_662_921_288_000_000_000), "2022-09-11T18:34:48+00:00");
    assert_eq!(rfc3339(1_500_000_000), "1970-01-01T00:00:01.500+00:00");
    assert_eq!(rfc3339(1), "1970-01-01T00:00:00.000000001+00:00");
    assert_eq!(rfc3339(-1_000_000_000), "1969-12-31T23:59:59+00:00");
}

#[test]
fn rfc3339_text_orders_as_time_does() {
    let instants: [i64; 6] = [0, 1, 999, 1_000, 1_000_000, 2_000_000_000];
    for pair in instants.windows(2) {
        assert!(rfc3339(pair[0]) < rfc3339(pair[1]));
    }
}

#[test]
fn clock_reads_do_not_run_backwards() {
    let clock = Clock::new();
    let first: Moment = clock.now();
    let second: Moment = clock.now();
    assert!(second.monotonic >= first.monotonic);
    // The wall clock stands after the year 2001.
    assert!(first.wall > 1_000_000_000 * (NANOS_PER_SECOND as i64));
}

#[test]
fn moment_of_two_readings() {
    assert_eq!(Moment::from_readings(5, Some(7)), Moment { monotonic: 5, wall: 7 });
    assert_eq!(Moment::from_readings(0, Some(-3)), Moment { monotonic: 0, wall: -3 });
    assert_eq!(
        Moment::from_readings(u64::MAX as u128, None),
        Moment { monotonic: u64::MAX, wall: i64::MAX }
    );
    assert_eq!(
        Moment::from_readings(u64::MAX as u128 + 1, Some(1)),
        Moment { monotonic: u64::MAX, wall: 1 }
    );
    assert_eq!(Moment::from_readings(u128::MAX, Some(0)), Moment { monotonic: u64::MAX, wall: 0 });
}
