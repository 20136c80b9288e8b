use chrono::{DateTime, TimeDelta, Utc};
use slaxide::auth::token_needs_refresh;
use slaxide::time::Timestamp;

fn date_time(point: Timestamp) -> DateTime<Utc> {
    DateTime::from_timestamp(point.seconds, point.nanos).unwrap()
}

fn timestamp(point: DateTime<Utc>) -> Timestamp {
    Timestamp { seconds: point.timestamp(), nanos: point.timestamp_subsec_nanos() }
}

/// Points around the leap seconds before noon and before midnight, some days apart and on both
/// sides of 1970.
fn points() -> Vec<Timestamp> {
    let mut points = Vec::new();
    for day in [-2i64, -1, 0, 1, 20_527] {
        for second in [0i64, 1, 43_139, 43_199, 43_200, 43_201, 86_339, 86_399] {
            let seconds = day * 86_400 + second;
            for nanos in [0u32, 1, 500_000_000, 999_999_999] {
                points.push(Timestamp { seconds, nanos });
                if second % 60 == 59 {
                    points.push(Timestamp { seconds, nanos: nanos + 1_000_000_000 });
                }
            }
        }
    }
    points
}

#[test]
fn points_are_ordered_as_the_calendar_orders_them() {
    for a in points() {
        for b in points() {
            assert_eq!(a.is_before(b), date_time(a) < date_time(b), "{a:?} {b:?}");
        }
    }
}

#[test]
fn times_between_points_count_leap_seconds() {
    for a in points() {
        for b in points() {
            let passed = date_time(b).signed_duration_since(date_time(a));
            let nanos = passed.num_seconds() as i128 * 1_000_000_000 + passed.subsec_nanos() as i128;
            assert_eq!(b.nanos_since(a), nanos, "{a:?} {b:?}");
            assert_eq!(b.minutes_since(a), passed.num_minutes().max(0), "{a:?} {b:?}");
        }
    }
}

#[test]
fn seconds_are_added_and_taken_away_across_leap_seconds() {
    for a in points() {
        for seconds in [0i64, 1, 2, 59, 60, 240, 28_800, 86_400, 172_800] {
            let shift = TimeDelta::seconds(seconds);
            assert_eq!(a.plus_seconds(seconds), timestamp(date_time(a) + shift), "{a:?} {seconds}");
            assert_eq!(
                a.plus_seconds(-seconds),
                timestamp(date_time(a) - shift),
                "{a:?} -{seconds}"
            );
            assert_eq!(a.minus_seconds(seconds as u64), timestamp(date_time(a) - shift));
        }
    }
}

#[test]
fn a_leap_second_comes_before_the_next_second() {
    let leap = Timestamp { seconds: 1_483_228_799, nanos: 1_500_000_000 };
    let next = Timestamp { seconds: 1_483_228_800, nanos: 0 };

    assert!(leap.is_before(next));
    assert!(!next.is_before(leap));
    assert_eq!(leap.plus_seconds(1), Timestamp { seconds: 1_483_228_800, nanos: 500_000_000 });
    assert!(token_needs_refresh(Some(next.plus_seconds(299)), Some("refresh"), leap));
}
