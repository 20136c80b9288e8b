//! Points in time.
use vstd::prelude::*;

verus! {

/// A point in time: whole seconds since 1970-01-01 00:00:00 UTC, and nanoseconds on top. A point
/// in a leap second has the second before it, and a billion nanoseconds or more.
#[derive(Clone, Copy, Debug, PartialEq, Eq, Structural)]
pub struct Timestamp {
    pub seconds: i64,
    pub nanos: u32,
}

impl DeepView for Timestamp {
    type V = Timestamp;

    open spec fn deep_view(&self) -> Timestamp {
        *self
    }
}

/// How many nanoseconds a second has that is no leap second.
pub const SECOND_NANOS: u32 = 1_000_000_000;

/// How many nanoseconds a minute has.
pub const MINUTE_NANOS: i128 = 60_000_000_000;

/// How many seconds a day has.
pub const DAY_SECONDS: i64 = 86_400;

impl Timestamp {
    /// Whether this point is before the other. A leap second is after the second that it has, and
    /// before the next.
    pub open spec fn before(self, other: Timestamp) -> bool {
        self.seconds < other.seconds || (self.seconds == other.seconds && self.nanos < other.nanos)
    }

    /// Whether the point lies in a leap second.
    pub open spec fn in_leap_second(self) -> bool {
        self.nanos >= SECOND_NANOS
    }

    /// How many seconds of its day have passed.
    pub open spec fn day_second(self) -> int {
        self.seconds as int % DAY_SECONDS as int
    }

    /// Whether this point is before the other.
    pub fn is_before(self, other: Timestamp) -> (r: bool)
        ensures
            r == self.before(other),
    {
        self.seconds < other.seconds || (self.seconds == other.seconds && self.nanos < other.nanos)
    }

    /// The nanoseconds from `earlier` to this point.
    pub fn nanos_since(self, earlier: Timestamp) -> (r: i128)
        ensures
            r == elapsed(earlier, self),
            -0x8000_0000_0000_0000_0000_0000_0000 < r < 0x8000_0000_0000_0000_0000_0000_0000,
    {
        let (start, end): (i64, i64) = (day_second_of(earlier.seconds), day_second_of(self.seconds));
        let leap: i128 = if end > start && earlier.nanos >= SECOND_NANOS {
            1
        } else if end < start && self.nanos >= SECOND_NANOS {
            -1
        } else {
            0
        };
        (self.seconds as i128 - earlier.seconds as i128 + leap) * 1_000_000_000 + (
        self.nanos as i128 - earlier.nanos as i128)
    }

    /// The whole minutes from `earlier` to this point; none if `earlier` is not earlier.
    pub fn minutes_since(self, earlier: Timestamp) -> (r: i64)
        ensures
            r == minutes_between(earlier, self),
            0 <= r,
    {
        let passed = self.nanos_since(earlier);
        if passed <= 0 {
            0
        } else {
            let minutes: i128 = passed / MINUTE_NANOS;
            assert(minutes == passed as int / 60_000_000_000);
            assert(minutes <= 0x7fff_ffff_ffff_ffff);
            minutes as i64
        }
    }

    /// The point that lies `seconds` before this one, or the earliest point there is.
    pub fn minus_seconds(self, seconds: u64) -> (r: Timestamp)
        ensures
            r == earlier_by(self, seconds as int),
    {
        self.moved(-(seconds as i128))
    }

    /// The point that lies `seconds` after this one, or the latest point there is.
    pub fn plus_seconds(self, seconds: i64) -> (r: Timestamp)
        ensures
            r == later_by(self, seconds as int),
    {
        self.moved(seconds as i128)
    }

    /// The point that lies a number of seconds after this one.
    fn moved(self, seconds: i128) -> (r: Timestamp)
        requires
            -0x1_0000_0000_0000_0000 <= seconds <= 0x1_0000_0000_0000_0000,
        ensures
            r == later_by(self, seconds as int),
    {
        let start: i128 = self.seconds as i128;
        if self.nanos < SECOND_NANOS || seconds == 0 {
            Timestamp { seconds: clamped(start + seconds), nanos: self.nanos }
        } else if seconds > 0 {
            Timestamp { seconds: clamped(start + seconds), nanos: self.nanos - SECOND_NANOS }
        } else {
            Timestamp { seconds: clamped(start + 1 + seconds), nanos: self.nanos - SECOND_NANOS }
        }
    }
}

/// How many seconds of a day have passed, given the seconds since 1970-01-01 00:00:00 UTC.
fn day_second_of(seconds: i64) -> (r: i64)
    ensures
        r == seconds as int % DAY_SECONDS as int,
{
    if seconds >= 0 {
        seconds % DAY_SECONDS
    } else {
        let back: i64 = (-(seconds + 1)) % DAY_SECONDS;
        DAY_SECONDS - 1 - back
    }
}

/// The nanoseconds between two points, fewer than none if the second is not later. A leap second
/// at one of the points counts if the other has another time of day.
pub open spec fn elapsed(earlier: Timestamp, later: Timestamp) -> int {
    let leap = if later.day_second() > earlier.day_second() && earlier.in_leap_second() {
        1int
    } else if later.day_second() < earlier.day_second() && later.in_leap_second() {
        -1
    } else {
        0
    };
    (later.seconds - earlier.seconds + leap) * 1_000_000_000 + later.nanos - earlier.nanos
}

/// The whole minutes between two points, none if the second is not later.
pub open spec fn minutes_between(earlier: Timestamp, later: Timestamp) -> int {
    let passed = elapsed(earlier, later);
    if passed <= 0 {
        0
    } else {
        passed / 60_000_000_000
    }
}

/// The first second of the calendar: the start of the year -262143.
pub const FIRST_SECOND: i64 = -8_334_601_228_800;

/// The last second of the calendar: the end of the year 262142.
pub const LAST_SECOND: i64 = 8_210_266_876_799;

/// Whether a point that many seconds after 1970-01-01 00:00:00 UTC is within the calendar.
pub open spec fn in_calendar(seconds: int) -> bool {
    FIRST_SECOND <= seconds <= LAST_SECOND
}

/// A number of seconds, held to the range of 64-bit integers.
pub open spec fn clamp_seconds(seconds: int) -> i64 {
    if seconds < i64::MIN {
        i64::MIN
    } else if seconds > i64::MAX {
        i64::MAX
    } else {
        seconds as i64
    }
}

/// A number of seconds, held to the range of 64-bit integers.
fn clamped(seconds: i128) -> (r: i64)
    ensures
        r == clamp_seconds(seconds as int),
{
    if seconds < i64::MIN as i128 {
        i64::MIN
    } else if seconds > i64::MAX as i128 {
        i64::MAX
    } else {
        seconds as i64
    }
}

/// The point a number of seconds before another.
pub open spec fn earlier_by(point: Timestamp, seconds: int) -> Timestamp {
    later_by(point, -seconds)
}

/// The point a number of seconds after another. The leap second that a point lies in is left
/// towards the next second, or back through the one before it.
pub open spec fn later_by(point: Timestamp, seconds: int) -> Timestamp {
    if !point.in_leap_second() || seconds == 0 {
        Timestamp { seconds: clamp_seconds(point.seconds + seconds), nanos: point.nanos }
    } else if seconds > 0 {
        Timestamp {
            seconds: clamp_seconds(point.seconds + seconds),
            nanos: (point.nanos - SECOND_NANOS) as u32,
        }
    } else {
        Timestamp {
            seconds: clamp_seconds(point.seconds + 1 + seconds),
            nanos: (point.nanos - SECOND_NANOS) as u32,
        }
    }
}

} // verus!
