//! The timestamps that Slack names messages by: seconds, a dot, and microseconds.
use vstd::prelude::*;
use vstd::string::*;

use crate::text::{
    decimal, find_char, owned, parse_number, parse_unsigned, position_of_char, slice_text,
    to_chars, to_decimal,
};
use crate::time::{in_calendar, Timestamp};

verus! {

/// An integer in decimal digits, with a minus sign if it is negative.
pub open spec fn signed_decimal(value: int) -> Seq<char> {
    if value < 0 {
        "-"@ + decimal((-value) as nat)
    } else {
        decimal(value as nat)
    }
}

/// An integer in decimal digits.
pub fn to_signed_decimal(value: i64) -> (r: String)
    ensures
        r@ == signed_decimal(value as int),
{
    if value < 0 {
        let mut out = owned("-");
        let magnitude: u64 = (-(value as i128)) as u64;
        out.append(to_decimal(magnitude).as_str());
        out
    } else {
        to_decimal(value as u64)
    }
}

/// A text with zeros in front until it has a width.
pub open spec fn zero_padded(text: Seq<char>, width: nat) -> Seq<char> {
    if text.len() < width {
        Seq::new((width - text.len()) as nat, |i: int| '0') + text
    } else {
        text
    }
}

/// A text with zeros in front until it has a width.
fn pad_with_zeros(text: &str, width: usize) -> (r: String)
    ensures
        r@ == zero_padded(text@, width as nat),
{
    let count: usize = to_chars(text).len();
    let mut out = String::new();
    let mut at: usize = count;
    while at < width
        invariant
            count == text@.len(),
            count <= at,
            at <= width || at == count,
            out@ == Seq::new((at - count) as nat, |i: int| '0'),
        decreases width - at,
    {
        out.push('0');
        at += 1;
        assert(out@ =~= Seq::new((at - count) as nat, |i: int| '0'));
    }
    out.append(text);
    assert(out@ =~= zero_padded(text@, width as nat));
    out
}

/// Slack's timestamp of a point in time.
pub open spec fn stamp(point: Timestamp) -> Seq<char> {
    signed_decimal(point.seconds as int) + "."@ + zero_padded(
        decimal(point.nanos as nat / 1_000),
        6,
    )
}

/// Slack's timestamp of a point in time.
pub fn slack_ts_from_datetime(timestamp: Timestamp) -> (r: String)
    ensures
        r@ == stamp(timestamp),
{
    let mut out = to_signed_decimal(timestamp.seconds);
    out.append(".");
    let micros: u32 = timestamp.nanos / 1_000;
    out.append(pad_with_zeros(to_decimal(micros as u64).as_str(), 6).as_str());
    out
}

/// The integer of 64 bits that a text denotes: digits, with an optional sign.
pub open spec fn parse_signed(text: Seq<char>) -> Option<int> {
    if text.len() > 0 && text.first() == '-' {
        let digits = text.skip(1);
        if digits.len() > 0 && digits.first() == '+' {
            None
        } else {
            match parse_unsigned(digits, 9_223_372_036_854_775_808) {
                Some(value) => Some(-(value as int)),
                None => None,
            }
        }
    } else {
        match parse_unsigned(text, 9_223_372_036_854_775_807) {
            Some(value) => Some(value as int),
            None => None,
        }
    }
}

/// The integer of 64 bits that a text denotes.
pub fn parse_integer(text: &str) -> (r: Option<i64>)
    ensures
        match r {
            Some(value) => parse_signed(text@) == Some(value as int),
            None => parse_signed(text@) is None,
        },
{
    let chars = to_chars(text);
    if chars.len() > 0 && chars[0] == '-' {
        let rest = slice_text(&chars, 1, chars.len());
        assert(rest@ =~= text@.skip(1));
        if chars.len() > 1 && chars[1] == '+' {
            return None;
        }
        match parse_number(rest.as_str(), 9_223_372_036_854_775_808) {
            Some(value) => Some((-(value as i128)) as i64),
            None => None,
        }
    } else {
        match parse_number(text, 9_223_372_036_854_775_807) {
            Some(value) => Some(value as i64),
            None => None,
        }
    }
}

/// The point in time that a timestamp of Slack denotes, whose fraction is read as a whole number
/// of microseconds of which only the first six characters count.
pub open spec fn stamped_point(raw: Seq<char>) -> Option<Timestamp> {
    let (whole, fraction) = match find_char(raw, '.', 0) {
        Some(at) => (raw.take(at), raw.skip(at + 1)),
        None => (raw, "0"@),
    };
    let digits = if fraction.len() > 6 {
        fraction.take(6)
    } else {
        fraction
    };
    match (parse_signed(whole), parse_unsigned(digits, u32::MAX as nat)) {
        (Some(seconds), Some(micros)) => if in_calendar(seconds) {
            Some(Timestamp { seconds: seconds as i64, nanos: (micros * 1_000) as u32 })
        } else {
            None
        },
        _ => None,
    }
}

/// `chrono::DateTime::from_timestamp`: the point in time with the seconds and nanoseconds, if it
/// is within the calendar. Nanoseconds of a second or more, for leap seconds, are left out.
#[verifier::external_body]
pub(crate) fn calendar_point(seconds: i64, nanos: u32) -> (r: Option<Timestamp>)
    requires
        nanos < 1_000_000_000,
    ensures
        r == if in_calendar(seconds as int) {
            Some(Timestamp { seconds, nanos })
        } else {
            None
        },
{
    chrono::DateTime::<chrono::Utc>::from_timestamp(seconds, nanos).map(|point| Timestamp {
        seconds: point.timestamp(),
        nanos: point.timestamp_subsec_nanos(),
    })
}

/// The value of at most six characters of digits has at most six digits.
proof fn lemma_six_digits(digits: Seq<char>)
    requires
        digits.len() <= 6,
        crate::text::all_digits(digits),
    ensures
        crate::text::digits_value(digits) < 1_000_000,
{
    lemma_digits_bound(digits);
    let n = digits.len();
    assert(power_of_ten(0) == 1 && power_of_ten(1) == 10 && power_of_ten(2) == 100 && power_of_ten(3)
        == 1_000 && power_of_ten(4) == 10_000 && power_of_ten(5) == 100_000 && power_of_ten(6)
        == 1_000_000) by {
        reveal_with_fuel(power_of_ten, 7);
    }
}

/// Ten to a power.
pub open spec fn power_of_ten(exponent: nat) -> nat
    decreases exponent,
{
    if exponent == 0 {
        1
    } else {
        10 * power_of_ten((exponent - 1) as nat)
    }
}

/// A number of `n` digits is less than ten to the power of `n`.
proof fn lemma_digits_bound(digits: Seq<char>)
    requires
        crate::text::all_digits(digits),
    ensures
        crate::text::digits_value(digits) < power_of_ten(digits.len()),
    decreases digits.len(),
{
    if digits.len() > 0 {
        assert forall|i: int| 0 <= i < digits.drop_last().len() implies crate::text::is_digit(
            #[trigger] digits.drop_last()[i],
        ) by {
            assert(digits.drop_last()[i] == digits[i]);
        }
        lemma_digits_bound(digits.drop_last());
        assert(crate::text::is_digit(digits[digits.len() - 1]));
    }
}

/// The point in time that a timestamp of Slack denotes.
pub fn slack_ts_to_datetime(raw: &str) -> (r: Option<Timestamp>)
    ensures
        r == stamped_point(raw@),
{
    let chars = to_chars(raw);
    let (whole, fraction) = match position_of_char(&chars, '.', 0) {
        Some(at) => {
            let whole = slice_text(&chars, 0, at);
            assert(whole@ =~= raw@.take(at as int));
            let rest: usize = chars.len() - at - 1;
            let end: usize = if rest > 6 {
                at + 7
            } else {
                chars.len()
            };
            let fraction = slice_text(&chars, at + 1, end);
            assert(raw@.skip(at + 1).len() == rest);
            assert(rest > 6 ==> fraction@ =~= raw@.skip(at + 1).take(6));
            assert(rest <= 6 ==> fraction@ =~= raw@.skip(at + 1));
            (whole, fraction)
        },
        None => {
            proof {
                reveal_strlit("0");
            }
            (owned(raw), owned("0"))
        },
    };
    assert(fraction@.len() <= 6);
    let seconds = match parse_integer(whole.as_str()) {
        Some(seconds) => seconds,
        None => return None,
    };
    match parse_number(fraction.as_str(), u32::MAX as u64) {
        Some(micros) => {
            proof {
                let digits = if fraction@.len() > 0 && fraction@.first() == '+' {
                    fraction@.skip(1)
                } else {
                    fraction@
                };
                lemma_six_digits(digits);
            }
            calendar_point(seconds, (micros * 1_000) as u32)
        },
        None => None,
    }
}

/// What a timestamp of Slack denotes is within the calendar, and no more than a second after its
/// whole seconds.
pub proof fn law_stamped_points_are_in_the_calendar(raw: Seq<char>)
    ensures
        stamped_point(raw) matches Some(point) ==> in_calendar(point.seconds as int)
            && point.nanos < 1_000_000_000,
{
    if stamped_point(raw) is Some {
        let fraction = match find_char(raw, '.', 0) {
            Some(at) => raw.skip(at + 1),
            None => "0"@,
        };
        reveal_strlit("0");
        let digits = if fraction.len() > 6 {
            fraction.take(6)
        } else {
            fraction
        };
        let plain = if digits.len() > 0 && digits.first() == '+' {
            digits.skip(1)
        } else {
            digits
        };
        lemma_six_digits(plain);
    }
}

/// Writing digits and reading them gives the number back.
proof fn lemma_decimal_reads_back(value: nat)
    ensures
        crate::text::all_digits(decimal(value)),
        decimal(value).len() > 0,
        crate::text::digits_value(decimal(value)) == value,
    decreases value,
{
    if value < 10 {
        reveal_with_fuel(crate::text::digits_value, 2);
        assert(decimal(value).drop_last() =~= Seq::empty());
    } else {
        lemma_decimal_reads_back(value / 10);
        let shorter = decimal(value / 10);
        assert(decimal(value) =~= shorter.push(crate::text::digit(value % 10)));
        assert(decimal(value).drop_last() =~= shorter);
        assert forall|i: int| 0 <= i < decimal(value).len() implies crate::text::is_digit(
            #[trigger] decimal(value)[i],
        ) by {
            if i < shorter.len() {
                assert(decimal(value)[i] == shorter[i]);
            }
        }
    }
}

/// Zeros in front change nothing of a number.
proof fn lemma_zeros_in_front(count: nat, digits: Seq<char>)
    requires
        crate::text::all_digits(digits),
    ensures
        crate::text::all_digits(Seq::new(count, |i: int| '0') + digits),
        crate::text::digits_value(Seq::new(count, |i: int| '0') + digits)
            == crate::text::digits_value(digits),
    decreases digits.len(), count,
{
    let zeros = Seq::new(count, |i: int| '0');
    let all = zeros + digits;
    assert forall|i: int| 0 <= i < all.len() implies crate::text::is_digit(#[trigger] all[i]) by {
        if i >= count {
            assert(all[i] == digits[i - count]);
        }
    }
    if digits.len() > 0 {
        assert forall|i: int| 0 <= i < digits.drop_last().len() implies crate::text::is_digit(
            #[trigger] digits.drop_last()[i],
        ) by {
            assert(digits.drop_last()[i] == digits[i]);
        }
        lemma_zeros_in_front(count, digits.drop_last());
        assert(all.drop_last() =~= zeros + digits.drop_last());
        assert(all.last() == digits.last());
    } else if count > 0 {
        lemma_zeros_in_front((count - 1) as nat, digits);
        assert(all.drop_last() =~= Seq::new((count - 1) as nat, |i: int| '0') + digits);
        assert(all.last() == '0');
    } else {
        assert(all =~= digits);
    }
}

/// A number less than a million has at most six digits.
proof fn lemma_decimal_of_micros(value: nat)
    requires
        value < 1_000_000,
    ensures
        0 < decimal(value).len() <= 6,
{
    reveal_with_fuel(decimal, 7);
}

/// The first dot in digits, a dot and anything is that dot.
proof fn lemma_first_dot(before: Seq<char>, after: Seq<char>, from: int)
    requires
        0 <= from <= before.len(),
        forall|i: int| 0 <= i < before.len() ==> #[trigger] before[i] != '.',
    ensures
        find_char(before + "."@ + after, '.', from) == Some(before.len() as int),
    decreases before.len() - from,
{
    reveal_strlit(".");
    let all = before + "."@ + after;
    if from < before.len() {
        assert(all[from] == before[from]);
        lemma_first_dot(before, after, from + 1);
    } else {
        assert(all[from] == '.');
    }
}

/// Slack's timestamp of a point within the calendar that falls on a microsecond denotes that point.
pub proof fn law_stamps_read_back(point: Timestamp)
    requires
        in_calendar(point.seconds as int),
        point.nanos < 1_000_000_000,
        point.nanos % 1_000 == 0,
    ensures
        stamped_point(stamp(point)) == Some(point),
{
    let seconds = point.seconds as int;
    let micros = point.nanos as nat / 1_000;
    let whole = signed_decimal(seconds);
    let digits = decimal(micros);
    let fraction = zero_padded(digits, 6);
    lemma_decimal_reads_back(micros);
    lemma_decimal_of_micros(micros);
    lemma_zeros_in_front((6 - digits.len()) as nat, digits);
    assert(fraction =~= Seq::new((6 - digits.len()) as nat, |i: int| '0') + digits);
    let magnitude: nat = if seconds < 0 {
        (-seconds) as nat
    } else {
        seconds as nat
    };
    lemma_decimal_reads_back(magnitude);
    reveal_strlit("-");
    assert forall|i: int| 0 <= i < whole.len() implies #[trigger] whole[i] != '.' by {
        if seconds < 0 {
            if i > 0 {
                assert(whole[i] == decimal(magnitude)[i - 1]);
                assert(crate::text::is_digit(decimal(magnitude)[i - 1]));
            }
        } else {
            assert(crate::text::is_digit(decimal(magnitude)[i]));
        }
    }
    lemma_first_dot(whole, fraction, 0);
    reveal_strlit(".");
    let raw = stamp(point);
    assert(raw =~= whole + "."@ + fraction);
    assert(raw.take(whole.len() as int) =~= whole);
    assert(raw.skip(whole.len() as int + 1) =~= fraction);
    assert(crate::text::is_digit(fraction[0]));
    assert(crate::text::is_digit(decimal(magnitude)[0]));
    if seconds < 0 {
        assert(whole.skip(1) =~= decimal(magnitude));
        assert(whole.first() == '-');
    }
}

} // verus!
