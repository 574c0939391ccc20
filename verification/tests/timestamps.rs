use webtail::message::timestamp::{Timestamp, NANOS_PER_SECOND};

#[test]
fn a_second_has_a_billion_nanoseconds() {
    assert_eq!(NANOS_PER_SECOND, 1_000_000_000);
}

#[test]
fn nanos_are_split_into_seconds_and_rest() {
    assert_eq!(Timestamp::from_nanos(0), Timestamp::new(0, 0));
    assert_eq!(
        Timestamp::from_nanos(1_662_921_288_000_000_123),
        Timestamp::new(1_662_921_288, 123)
    );
    assert_eq!(
        Timestamp::from_nanos(1_500_000_000),
        Timestamp::new(1, 500_000_000)
    );
}

#[test]
fn negative_nanos_round_towards_the_past() {
    assert_eq!(Timestamp::from_nanos(-1), Timestamp::new(-1, 999_999_999));
    assert_eq!(
        Timestamp::from_nanos(-1_000_000_000),
        Timestamp::new(-1, 0)
    );
    assert_eq!(
        Timestamp::from_nanos(-1_000_000_001),
        Timestamp::new(-2, 999_999_999)
    );
}

#[test]
fn extremes_are_split_too() {
    assert_eq!(
        Timestamp::from_nanos(i64::MAX),
        Timestamp::new(9_223_372_036, 854_775_807)
    );
    assert_eq!(
        Timestamp::from_nanos(i64::MIN),
        Timestamp::new(-9_223_372_037, 145_224_192)
    );
}

#[test]
fn seconds_and_rest_are_joined_into_nanos() {
    assert_eq!(Timestamp::new(0, 0).to_nanos(), Some(0));
    assert_eq!(Timestamp::new(1, 500_000_000).to_nanos(), Some(1_500_000_000));
    assert_eq!(Timestamp::new(-1, 999_999_999).to_nanos(), Some(-1));
    assert_eq!(Timestamp::new(-2, 1).to_nanos(), Some(-1_999_999_999));
    assert_eq!(
        Timestamp::new(9_223_372_036, 854_775_807).to_nanos(),
        Some(i64::MAX)
    );
    assert_eq!(
        Timestamp::new(-9_223_372_037, 145_224_192).to_nanos(),
        Some(i64::MIN)
    );
}

#[test]
fn times_beyond_the_range_have_no_nanos() {
    assert_eq!(Timestamp::new(9_223_372_036, 854_775_808).to_nanos(), None);
    assert_eq!(Timestamp::new(-9_223_372_037, 145_224_191).to_nanos(), None);
    assert_eq!(Timestamp::new(i64::MAX, 0).to_nanos(), None);
    assert_eq!(Timestamp::new(i64::MIN, 0).to_nanos(), None);
    assert_eq!(Timestamp::new(9_223_372_037, 0).to_nanos(), None);
}

#[test]
fn a_nanosecond_part_of_a_second_or_more_has_no_nanos() {
    assert_eq!(Timestamp::new(0, 1_000_000_000).to_nanos(), None);
    assert_eq!(Timestamp::new(59, 1_500_000_000).to_nanos(), None);
    assert_eq!(Timestamp::new(0, u32::MAX).to_nanos(), None);
}

#[test]
fn nanos_survive_the_round_trip() {
    for nanos in [
        0i64,
        1,
        -1,
        999_999_999,
        1_000_000_000,
        -999_999_999,
        -1_000_000_000,
        1_700_000_000_123_456_789,
        -2_208_936_075_000_000_000,
        i64::MAX,
        i64::MIN,
    ] {
        assert_eq!(Timestamp::from_nanos(nanos).to_nanos(), Some(nanos));
    }
}

#[test]
fn splitting_agrees_with_chrono() {
    for nanos in [0i64, -1, 1_662_921_288_000_000_123, -2_208_936_075_000_000_001] {
        let moment = chrono::DateTime::from_timestamp_nanos(nanos);
        assert_eq!(
            Timestamp::from_nanos(nanos),
            Timestamp::new(moment.timestamp(), moment.timestamp_subsec_nanos())
        );
    }
}

#[test]
fn the_clock_gives_a_time_after_2020() {
    let now = Timestamp::now();
    assert!(now.seconds > 1_577_836_800);
    assert!(now.nanos < NANOS_PER_SECOND);
}

#[test]
fn times_after_the_epoch_are_taken_as_they_are() {
    assert_eq!(Timestamp::after_epoch(0, 0), Some(Timestamp::new(0, 0)));
    assert_eq!(
        Timestamp::after_epoch(1_700_000_000, 999_999_999),
        Some(Timestamp::new(1_700_000_000, 999_999_999))
    );
    assert_eq!(
        Timestamp::after_epoch(i64::MAX as u64, 1),
        Some(Timestamp::new(i64::MAX, 1))
    );
    assert_eq!(Timestamp::after_epoch(i64::MAX as u64 + 1, 0), None);
    assert_eq!(Timestamp::after_epoch(u64::MAX, 0), None);
    assert_eq!(Timestamp::after_epoch(0, 1_000_000_000), None);
}

#[test]
fn times_before_the_epoch_count_their_nanoseconds_forward() {
    assert_eq!(Timestamp::before_epoch(0, 0), Some(Timestamp::new(0, 0)));
    assert_eq!(Timestamp::before_epoch(5, 0), Some(Timestamp::new(-5, 0)));
    assert_eq!(Timestamp::before_epoch(0, 1), Some(Timestamp::new(-1, 999_999_999)));
    assert_eq!(
        Timestamp::before_epoch(5, 250_000_000),
        Some(Timestamp::new(-6, 750_000_000))
    );
    assert_eq!(
        Timestamp::before_epoch(2, 999_999_999).unwrap().to_nanos(),
        Some(-2_999_999_999)
    );
}

#[test]
fn times_too_far_before_the_epoch_are_refused() {
    assert_eq!(
        Timestamp::before_epoch(1 << 63, 0),
        Some(Timestamp::new(i64::MIN, 0))
    );
    assert_eq!(Timestamp::before_epoch((1 << 63) + 1, 0), None);
    assert_eq!(
        Timestamp::before_epoch(i64::MAX as u64, 1),
        Some(Timestamp::new(i64::MIN, 999_999_999))
    );
    assert_eq!(Timestamp::before_epoch(1 << 63, 1), None);
    assert_eq!(Timestamp::before_epoch(0, 1_000_000_000), None);
}

#[test]
fn whole_seconds_among_the_nanoseconds_are_carried() {
    assert_eq!(Timestamp::carried(7, 5), Some(Timestamp::new(7, 5)));
    assert_eq!(Timestamp::carried(59, 1_500_000_000), Some(Timestamp::new(60, 500_000_000)));
    assert_eq!(Timestamp::carried(-1, 1_000_000_000), Some(Timestamp::new(0, 0)));
    assert_eq!(Timestamp::carried(0, u32::MAX), Some(Timestamp::new(4, 294_967_295)));
    assert_eq!(Timestamp::carried(i64::MAX, 999_999_999), Some(Timestamp::new(i64::MAX, 999_999_999)));
    assert_eq!(Timestamp::carried(i64::MAX, 1_000_000_000), None);
    assert_eq!(Timestamp::carried(i64::MAX - 4, u32::MAX), Some(Timestamp::new(i64::MAX, 294_967_295)));
    assert_eq!(Timestamp::carried(i64::MAX - 3, u32::MAX), None);
}
