//! Timestamps as manifests write them, and the local clock.

use crate::text::{
    all_digits, cat2, cut_once, dec, digits_value, drop, is_digit, magnitude_from, parse_nat, same,
    slice, slice_from, split_once, to_chars, trim, trimmed, u64_text, Magnitude,
};
use vstd::prelude::*;

verus! {

/// A leap year of the Gregorian calendar.
pub open spec fn leap_year(year: int) -> bool {
    (year % 4 == 0 && year % 100 != 0) || year % 400 == 0
}

/// The number of days of a month.
pub open spec fn month_days(year: int, month: int) -> int {
    if month == 2 {
        if leap_year(year) {
            29
        } else {
            28
        }
    } else if month == 4 || month == 6 || month == 9 || month == 11 {
        30
    } else {
        31
    }
}

/// A date that the calendar has.
pub open spec fn valid_date(year: int, month: int, day: int) -> bool {
    1 <= year <= 9999 && 1 <= month <= 12 && 1 <= day <= month_days(year, month)
}

/// The days from the first of January of the year 1 to the first of January of `year`.
pub open spec fn days_before_year(year: int) -> int {
    (year - 1) * 365 + (year - 1) / 4 - (year - 1) / 100 + (year - 1) / 400
}

/// The days of a year that precede `month`.
pub open spec fn days_before_month(year: int, month: int) -> int
    decreases month,
{
    if month <= 1 {
        0
    } else {
        days_before_month(year, month - 1) + month_days(year, month - 1)
    }
}

/// The days from 1970-01-01 to a date.
pub open spec fn civil_days(year: int, month: int, day: int) -> int {
    days_before_year(year) + days_before_month(year, month) + day - 719163
}

/// A year ends where the next begins.
pub proof fn law_year_follows(year: int)
    requires
        1 <= year,
    ensures
        civil_days(year + 1, 1, 1) == civil_days(year, 12, 31) + 1,
{
    reveal_with_fuel(days_before_month, 13);
}

/// A month ends where the next begins.
pub proof fn law_month_follows(year: int, month: int)
    requires
        1 <= month < 12,
    ensures
        civil_days(year, month + 1, 1) == civil_days(year, month, month_days(year, month)) + 1,
{
}

fn is_leap_year(year: i64) -> (r: bool)
    requires
        0 <= year,
    ensures
        r == leap_year(year as int),
{
    (year % 4 == 0 && year % 100 != 0) || year % 400 == 0
}

fn days_in_month(year: i64, month: i64) -> (r: i64)
    requires
        0 <= year,
        1 <= month <= 12,
    ensures
        r == month_days(year as int, month as int),
{
    match month {
        2 => if is_leap_year(year) {
            29
        } else {
            28
        },
        4 | 6 | 9 | 11 => 30,
        _ => 31,
    }
}

/// The days from 1970-01-01 to a date that the calendar has.
pub fn days_from_civil(year: i64, month: i64, day: i64) -> (r: Option<i64>)
    ensures
        match r {
            Some(n) => valid_date(year as int, month as int, day as int) && n == civil_days(
                year as int,
                month as int,
                day as int,
            ) && -800_000 <= n <= 3_000_000,
            None => !valid_date(year as int, month as int, day as int),
        },
{
    if !(1 <= year && year <= 9999) || !(1 <= month && month <= 12) {
        return None;
    }
    if day < 1 || day > days_in_month(year, month) {
        return None;
    }
    let adjusted_year: i64 = if month <= 2 {
        year - 1
    } else {
        year
    };
    let era: i64 = adjusted_year / 400;
    let year_of_era: i64 = adjusted_year - era * 400;
    let month_prime: i64 = if month > 2 {
        month - 3
    } else {
        month + 9
    };
    let day_of_year: i64 = (153 * month_prime + 2) / 5 + day - 1;
    let day_of_era: i64 = year_of_era * 365 + year_of_era / 4 - year_of_era / 100 + day_of_year;
    proof {
        reveal_with_fuel(days_before_month, 13);
        let y = year as int;
        let a = adjusted_year as int;
        assert(0 <= a <= 9999);
        assert(a / 4 == 100 * era + year_of_era / 4);
        assert(a / 100 == 4 * era + year_of_era / 100);
        if month > 2 {
            assert(y / 4 - (y - 1) / 4 == (if y % 4 == 0 { 1int } else { 0 }));
            assert(y / 100 - (y - 1) / 100 == (if y % 100 == 0 { 1int } else { 0 }));
            assert(y / 400 - (y - 1) / 400 == (if y % 400 == 0 { 1int } else { 0 }));
        }
    }
    Some(era * 146097 + day_of_era - 719468)
}

/// A point in time.
#[derive(Clone, Copy, Debug, PartialEq, Eq, Structural)]
pub struct ManifestTimestamp {
    pub unix_seconds: i64,
    pub unix_millis: i64,
}

/// The number of digits from position `i` on.
pub open spec fn digit_run(s: Seq<char>, i: int) -> int
    decreases s.len() - i,
{
    if 0 <= i < s.len() && is_digit(s[i]) {
        1 + digit_run(s, i + 1)
    } else {
        0
    }
}

/// Hours and minutes of an offset: `hh:mm`, `hh` or `hhmm`.
pub open spec fn offset_fields(rest: Seq<char>) -> Option<(Seq<char>, Seq<char>)> {
    match split_once(rest, ":"@) {
        Some(pair) => Some(pair),
        None => if rest.len() == 2 {
            Some((rest, "0"@))
        } else if rest.len() == 4 {
            Some((rest.subrange(0, 2), drop(rest, 2)))
        } else {
            None
        },
    }
}

/// The seconds that an offset text stands for; `local` where there is no text.
pub open spec fn offset_seconds(text: Seq<char>, local: int) -> Option<int> {
    if text.len() == 0 {
        Some(local)
    } else if text == "Z"@ || text == "z"@ {
        Some(0)
    } else if text[0] != '+' && text[0] != '-' {
        None
    } else {
        match offset_fields(drop(text, 1)) {
            None => None,
            Some((hour, minute)) => match (parse_nat(hour), parse_nat(minute)) {
                (Some(h), Some(m)) => if h > 23 || m > 59 {
                    None
                } else if text[0] == '-' {
                    Some(-((h * 3600 + m * 60) as int))
                } else {
                    Some((h * 3600 + m * 60) as int)
                },
                _ => None,
            },
        }
    }
}

/// Milliseconds of a run of fraction digits, of which the first three count.
pub open spec fn fraction_millis(digits: Seq<char>) -> int {
    if digits.len() == 0 {
        0
    } else if digits.len() == 1 {
        (digits_value(digits) * 100) as int
    } else if digits.len() == 2 {
        (digits_value(digits) * 10) as int
    } else {
        digits_value(digits.subrange(0, 3)) as int
    }
}

/// Whether the first 19 characters have the shape `yyyy-mm-ddThh:mm:ss`.
pub open spec fn has_timestamp_shape(t: Seq<char>) -> bool {
    &&& t.len() >= 19
    &&& t[4] == '-' && t[7] == '-'
    &&& (t[10] == 'T' || t[10] == 't' || t[10] == ' ')
    &&& t[13] == ':' && t[16] == ':'
    &&& all_digits(t.subrange(0, 4)) && all_digits(t.subrange(5, 7)) && all_digits(
        t.subrange(8, 10),
    )
    &&& all_digits(t.subrange(11, 13)) && all_digits(t.subrange(14, 16)) && all_digits(
        t.subrange(17, 19),
    )
}

/// The number in a field of a timestamp.
pub open spec fn field(t: Seq<char>, from: int, to: int) -> int {
    digits_value(t.subrange(from, to)) as int
}

/// Unix seconds and milliseconds of a timestamp, where it is one. A timestamp without an offset is
/// in local time, `local` seconds ahead of UTC.
pub open spec fn timestamp_of(value: Seq<char>, local: int) -> Option<(int, int)> {
    let t = trim(value);
    if !has_timestamp_shape(t) || field(t, 11, 13) > 23 || field(t, 14, 16) > 59 || field(t, 17, 19)
        > 59 {
        None
    } else {
        let fraction = t.len() > 19 && t[19] == '.';
        let run = digit_run(t, 20);
        let end = if fraction {
            20 + run
        } else {
            19
        };
        let millis = if fraction {
            fraction_millis(t.subrange(20, 20 + run))
        } else {
            0
        };
        if fraction && run == 0 {
            None
        } else {
            match offset_seconds(trim(drop(t, end)), local) {
                None => None,
                Some(offset) => if valid_date(field(t, 0, 4), field(t, 5, 7), field(t, 8, 10)) {
                    let seconds = civil_days(field(t, 0, 4), field(t, 5, 7), field(t, 8, 10)) * 86400
                        + field(t, 11, 13) * 3600 + field(t, 14, 16) * 60 + field(t, 17, 19)
                        - offset;
                    Some((seconds, seconds * 1000 + millis))
                } else {
                    None
                },
            }
        }
    }
}

proof fn lemma_digits_bound(s: Seq<char>)
    requires
        all_digits(s),
        s.len() <= 4,
    ensures
        s.len() == 0 ==> digits_value(s) == 0,
        s.len() == 1 ==> digits_value(s) <= 9,
        s.len() == 2 ==> digits_value(s) <= 99,
        s.len() == 3 ==> digits_value(s) <= 999,
        s.len() == 4 ==> digits_value(s) <= 9999,
    decreases s.len(),
{
    if s.len() > 0 {
        assert(is_digit(s[s.len() - 1]));
        assert(all_digits(s.drop_last())) by {
            assert forall|i: int| 0 <= i < s.len() - 1 implies is_digit(#[trigger] s.drop_last()[i]) by {
                assert(is_digit(s[i]));
            }
        }
        lemma_digits_bound(s.drop_last());
    }
}

/// The number in a field of at most four digits.
pub fn parse_digits(v: &Vec<char>, from: usize, to: usize) -> (r: Option<i64>)
    requires
        from <= to <= v@.len(),
        to - from <= 4,
    ensures
        match r {
            Some(n) => all_digits(v@.subrange(from as int, to as int)) && n == field(
                v@,
                from as int,
                to as int,
            ) && 0 <= n <= 9999 && (to - from == 2 ==> n <= 99) && (to - from == 3 ==> n <= 999),
            None => !all_digits(v@.subrange(from as int, to as int)),
        },
{
    let mut value: i64 = 0;
    let mut i: usize = from;
    let ghost t = v@.subrange(from as int, to as int);
    assert(t.subrange(0, 0) =~= Seq::<char>::empty());
    while i < to
        invariant
            from <= i <= to <= v@.len(),
            to - from <= 4,
            t == v@.subrange(from as int, to as int),
            forall|j: int| 0 <= j < i - from ==> is_digit(#[trigger] t[j]),
            value == digits_value(t.subrange(0, i - from)),
            0 <= value <= 9999,
        decreases to - i,
    {
        let c: char = v[i];
        if !('0' <= c && c <= '9') {
            assert(!is_digit(t[i - from]));
            return None;
        }
        let ghost next = t.subrange(0, i + 1 - from);
        proof {
            assert(next.drop_last() =~= t.subrange(0, i - from));
            assert(next.last() == c);
            assert(all_digits(next)) by {
                assert forall|j: int| 0 <= j < next.len() implies is_digit(#[trigger] next[j]) by {
                    assert(next[j] == t[j]);
                }
            }
            lemma_digits_bound(next);
        }
        value = value * 10 + (c as u32 - 48) as i64;
        i = i + 1;
    }
    proof {
        assert(t.subrange(0, t.len() as int) =~= t);
        lemma_digits_bound(t);
    }
    Some(value)
}

/// A number of any length of digits, where it is at most `max`.
fn small_number(text: &str, max: u64) -> (r: Option<i32>)
    requires
        max <= 99,
    ensures
        match r {
            Some(n) => parse_nat(text@) == Some(n as nat) && 0 <= n <= max,
            None => parse_nat(text@) is None || parse_nat(text@)->0 > max,
        },
{
    let v: Vec<char> = to_chars(text);
    assert(drop(v@, 0) =~= v@);
    match magnitude_from(&v, 0) {
        Magnitude::Value(n) => if n <= max {
            Some(n as i32)
        } else {
            None
        },
        _ => None,
    }
}

fn parse_offset_seconds(text: &str, local: i32) -> (r: Option<i32>)
    ensures
        match r {
            Some(n) => offset_seconds(text@, local as int) == Some(n as int) && (n == local || -86400
                < n < 86400),
            None => offset_seconds(text@, local as int) is None,
        },
{
    let v: Vec<char> = to_chars(text);
    if v.len() == 0 {
        return Some(local);
    }
    if same(text, "Z") || same(text, "z") {
        return Some(0);
    }
    if v[0] != '+' && v[0] != '-' {
        return None;
    }
    let rest: &str = slice_from(text, 1);
    let (hour, minute): (&str, &str) = match cut_once(rest, ":") {
        Some(pair) => pair,
        None => {
            let len: usize = rest.unicode_len();
            if len == 2 {
                (rest, "0")
            } else if len == 4 {
                (slice(rest, 0, 2), slice_from(rest, 2))
            } else {
                return None;
            }
        },
    };
    assert(offset_fields(drop(text@, 1)) == Some((hour@, minute@)));
    match small_number(hour, 23) {
        Some(h) => match small_number(minute, 59) {
            Some(m) => {
                let total: i32 = h * 3600 + m * 60;
                if v[0] == '-' {
                    Some(-total)
                } else {
                    Some(total)
                }
            },
            None => None,
        },
        None => None,
    }
}

/// The point in time that a timestamp names, with the local offset given.
pub fn parse_manifest_timestamp_at(value: &str, local_offset: i32) -> (r: Option<ManifestTimestamp>)
    requires
        -100_000 <= local_offset <= 100_000,
    ensures
        match r {
            Some(t) => timestamp_of(value@, local_offset as int) == Some(
                (t.unix_seconds as int, t.unix_millis as int),
            ),
            None => timestamp_of(value@, local_offset as int) is None,
        },
{
    let text: &str = trimmed(value);
    let v: Vec<char> = to_chars(text);
    if v.len() < 19 || v[4] != '-' || v[7] != '-' || !(v[10] == 'T' || v[10] == 't' || v[10] == ' ')
        || v[13] != ':' || v[16] != ':' {
        return None;
    }
    let year: i64 = parse_digits(&v, 0, 4)?;
    let month: i64 = parse_digits(&v, 5, 7)?;
    let day: i64 = parse_digits(&v, 8, 10)?;
    let hour: i64 = parse_digits(&v, 11, 13)?;
    let minute: i64 = parse_digits(&v, 14, 16)?;
    let second: i64 = parse_digits(&v, 17, 19)?;
    assert(has_timestamp_shape(v@));
    if hour > 23 || minute > 59 || second > 59 {
        return None;
    }
    let mut cursor: usize = 19;
    let mut millis: i64 = 0;
    if v.len() > 19 && v[19] == '.' {
        cursor = 20;
        while cursor < v.len() && '0' <= v[cursor] && v[cursor] <= '9'
            invariant
                20 <= cursor <= v@.len(),
                forall|j: int| 20 <= j < cursor ==> is_digit(#[trigger] v@[j]),
                digit_run(v@, 20) == cursor - 20 + digit_run(v@, cursor as int),
            decreases v@.len() - cursor,
        {
            cursor = cursor + 1;
        }
        if cursor == 20 {
            return None;
        }
        let count: usize = cursor - 20;
        let ghost digits = v@.subrange(20, cursor as int);
        let take: usize = if count < 3 {
            count
        } else {
            3
        };
        let run: Option<i64> = parse_digits(&v, 20, 20 + take);
        assert(digits.subrange(0, take as int) =~= v@.subrange(20, 20 + take));
        assert(all_digits(v@.subrange(20, 20 + take))) by {
            assert forall|j: int| 0 <= j < take implies is_digit(
                #[trigger] v@.subrange(20, 20 + take)[j],
            ) by {
                assert(is_digit(v@[20 + j]));
            }
        }
        let head: i64 = match run {
            Some(n) => n,
            None => 0,
        };
        millis = if take == 1 {
            head * 100
        } else if take == 2 {
            head * 10
        } else {
            head
        };
        assert(take == count ==> digits.subrange(0, take as int) =~= digits);
        assert(millis == fraction_millis(digits));
        proof {
            lemma_digits_bound(v@.subrange(20, 20 + take));
        }
    }
    let tail: &str = trimmed(slice_from(text, cursor));
    let offset: i32 = parse_offset_seconds(tail, local_offset)?;
    let days: i64 = days_from_civil(year, month, day)?;
    let unix_seconds: i64 = days * 86400 + hour * 3600 + minute * 60 + second - offset as i64;
    let unix_millis: i64 = unix_seconds * 1000 + millis;
    Some(ManifestTimestamp { unix_seconds, unix_millis })
}

/// A date and time of day on the local clock.
#[derive(Clone, Copy, Debug, PartialEq, Eq, Structural)]
pub struct LocalTime {
    pub year: i32,
    pub month: u8,
    pub day: u8,
    pub hour: u8,
    pub minute: u8,
    pub second: u8,
    pub nanosecond: u32,
    pub offset_seconds: i32,
}

impl LocalTime {
    /// The fields lie in the ranges of a clock.
    pub open spec fn in_range(self) -> bool {
        &&& -9999 <= self.year <= 9999
        &&& 1 <= self.month <= 12
        &&& 1 <= self.day <= month_days(self.year as int, self.month as int)
        &&& self.hour <= 23
        &&& self.minute <= 59
        &&& self.second <= 59
        &&& self.nanosecond <= 999_999_999
        &&& -93_599 <= self.offset_seconds <= 93_599
    }
}

/// `time::OffsetDateTime::now_local`, or `now_utc` where the local offset cannot be told: the
/// present date, time and offset, each within its range.
#[verifier::external_body]
pub fn local_now() -> (r: LocalTime)
    ensures
        r.in_range(),
{
    let now = time::OffsetDateTime::now_local().unwrap_or_else(|_| time::OffsetDateTime::now_utc());
    LocalTime {
        year: now.year(),
        month: u8::from(now.month()),
        day: now.day(),
        hour: now.hour(),
        minute: now.minute(),
        second: now.second(),
        nanosecond: now.nanosecond(),
        offset_seconds: now.offset().whole_seconds(),
    }
}

/// `time::Date::from_calendar_date` and `Date::to_julian_day`: the Julian day of a date of the
/// Gregorian calendar, on which 1970-01-01 is day 2440588; none where the month has no such day.
#[verifier::external_body]
pub(crate) fn calendar_day(year: i32, month: u8, day: u8) -> (r: Option<i32>)
    requires
        -9999 <= year <= 9999,
        1 <= month <= 12,
    ensures
        match r {
            Some(n) => 1 <= day <= month_days(year as int, month as int) && n == civil_days(
                year as int,
                month as int,
                day as int,
            ) + 2_440_588,
            None => !(1 <= day <= month_days(year as int, month as int)),
        },
{
    let month = time::Month::try_from(month).ok()?;
    let date = time::Date::from_calendar_date(year, month, day).ok()?;
    Some(date.to_julian_day())
}

/// A length of time.
#[derive(Clone, Copy, Debug, PartialEq, Eq, Structural)]
pub struct TimeSpan {
    pub seconds: u64,
    pub nanoseconds: u32,
}

impl TimeSpan {
    /// The length in nanoseconds.
    pub open spec fn nanos(self) -> int {
        self.seconds * 1_000_000_000 + self.nanoseconds
    }

    /// Whether this is the longer of two.
    pub fn exceeds(&self, other: &TimeSpan) -> (r: bool)
        requires
            self.nanoseconds < 1_000_000_000,
            other.nanoseconds < 1_000_000_000,
        ensures
            r == (self.nanos() > other.nanos()),
    {
        self.seconds > other.seconds || (self.seconds == other.seconds && self.nanoseconds
            > other.nanoseconds)
    }
}

/// `time::UtcOffset::current_local_offset`: the local offset in seconds, where it can be told.
#[verifier::external_body]
pub fn local_offset() -> (r: Option<i32>)
    ensures
        r is Some ==> -93_599 <= r->0 <= 93_599,
{
    time::UtcOffset::current_local_offset().ok().map(|offset| offset.whole_seconds())
}

/// The present time on the local clock.
pub fn current_local_time() -> (r: LocalTime)
    ensures
        call_ensures(local_now, (), r),
        r.in_range(),
{
    local_now()
}

/// The offset that was found; zero where none was.
pub fn offset_or_zero(found: Option<i32>) -> (r: i32)
    ensures
        r == match found {
            Some(n) => n,
            None => 0,
        },
{
    match found {
        Some(n) => n,
        None => 0,
    }
}

/// The local offset in seconds; zero where it cannot be told.
pub fn local_offset_seconds() -> (r: i32)
    ensures
        exists|found: Option<i32>| #[trigger]
            call_ensures(local_offset, (), found) && r == match found {
                Some(n) => n,
                None => 0i32,
            },
        -93_599 <= r <= 93_599,
{
    let found: Option<i32> = local_offset();
    offset_or_zero(found)
}

/// The point in time that a timestamp names; one without an offset is in local time.
pub fn parse_manifest_timestamp(value: &str) -> (r: Option<ManifestTimestamp>)
    ensures
        exists|local: i32| #[trigger]
            call_ensures(local_offset_seconds, (), local) && timestamp_of(value@, local as int)
                == match r {
                Some(t) => Some((t.unix_seconds as int, t.unix_millis as int)),
                None => None,
            },
{
    let local: i32 = local_offset_seconds();
    parse_manifest_timestamp_at(value, local)
}

/// The Unix seconds of a timestamp.
pub fn parse_manifest_timestamp_seconds(value: &str) -> (r: Option<i64>)
    ensures
        exists|local: i32| #[trigger]
            call_ensures(local_offset_seconds, (), local) && r == match timestamp_of(
                value@,
                local as int,
            ) {
                Some(t) => Some(t.0 as i64),
                None => None,
            },
{
    match parse_manifest_timestamp(value) {
        Some(t) => Some(t.unix_seconds),
        None => None,
    }
}

/// The Unix milliseconds of a timestamp.
pub fn parse_manifest_timestamp_millis(value: &str) -> (r: Option<i64>)
    ensures
        exists|local: i32| #[trigger]
            call_ensures(local_offset_seconds, (), local) && r == match timestamp_of(
                value@,
                local as int,
            ) {
                Some(t) => Some(t.1 as i64),
                None => None,
            },
{
    match parse_manifest_timestamp(value) {
        Some(t) => Some(t.unix_millis),
        None => None,
    }
}

/// Whether a text is a timestamp does not depend on the local offset.
pub proof fn law_timestamp_shape_ignores_offset(value: Seq<char>, a: int, b: int)
    ensures
        timestamp_of(value, a) is Some <==> timestamp_of(value, b) is Some,
{
}

/// A timestamp that ends in `Z` names the same time wherever it is read.
pub proof fn law_utc_timestamp_is_absolute(value: Seq<char>, a: int, b: int)
    requires
        trim(value).len() > 19,
        trim(value).last() == 'Z',
    ensures
        timestamp_of(value, a) == timestamp_of(value, b),
{
    let t = trim(value);
    if has_timestamp_shape(t) {
        let run = digit_run(t, 20);
        let end = if t[19] == '.' {
            20 + run
        } else {
            19
        };
        lemma_run_stops(t, 20);
        let tail = drop(t, end);
        assert(tail.last() == 'Z');
        lemma_trim_keeps_last(tail);
    }
}

proof fn lemma_run_stops(s: Seq<char>, i: int)
    requires
        0 <= i <= s.len(),
        s.len() > 0,
        !is_digit(s.last()),
    ensures
        i < s.len() ==> i + digit_run(s, i) < s.len(),
        i == s.len() ==> digit_run(s, i) == 0,
        digit_run(s, i) >= 0,
    decreases s.len() - i,
{
    if i < s.len() && is_digit(s[i]) {
        lemma_run_stops(s, i + 1);
    }
}

proof fn lemma_trim_keeps_last(s: Seq<char>)
    requires
        s.len() > 0,
        !crate::text::is_space(s.last()),
    ensures
        trim(s).len() > 0,
    decreases s.len(),
{
    if crate::text::is_space(s[0]) {
        assert(s.drop_first().len() > 0);
        assert(s.drop_first().last() == s.last());
        lemma_trim_keeps_last(s.drop_first());
    }
}

/// `n` in decimal, filled up with zeros to `width`.
pub open spec fn zero_padded(n: nat, width: nat) -> Seq<char>
    decreases width - dec(n).len(),
{
    if dec(n).len() >= width {
        dec(n)
    } else {
        Seq::new((width - dec(n).len()) as nat, |i: int| '0') + dec(n)
    }
}

/// `n` in decimal, filled up with zeros to `width`.
pub fn padded(n: u64, width: usize) -> (r: String)
    ensures
        r@ == zero_padded(n as nat, width as nat),
{
    let digits: String = u64_text(n);
    let len: usize = digits.as_str().unicode_len();
    let mut out: String = String::new();
    let mut count: usize = len;
    while count < width
        invariant
            len <= count,
            count <= width || count == len,
            out@ =~= Seq::new((count - len) as nat, |i: int| '0'),
        decreases width - count,
    {
        out.push('0');
        count = count + 1;
    }
    out.append(digits.as_str());
    assert(len >= width ==> out@ =~= digits@);
    out
}

/// A signed year of four digits at least.
pub open spec fn year_text(year: int) -> Seq<char> {
    if year < 0 {
        "-"@ + zero_padded((-year) as nat, 3)
    } else {
        zero_padded(year as nat, 4)
    }
}

/// The time in ISO 8601 with seven fraction digits and the offset.
pub open spec fn iso_text(t: LocalTime) -> Seq<char> {
    let magnitude = if t.offset_seconds < 0 {
        -t.offset_seconds
    } else {
        t.offset_seconds as int
    };
    year_text(t.year as int) + "-"@ + zero_padded(t.month as nat, 2) + "-"@ + zero_padded(
        t.day as nat,
        2,
    ) + "T"@ + zero_padded(t.hour as nat, 2) + ":"@ + zero_padded(t.minute as nat, 2) + ":"@
        + zero_padded(t.second as nat, 2) + "."@ + zero_padded((t.nanosecond / 100) as nat, 7) + (
    if t.offset_seconds < 0 {
        "-"@
    } else {
        "+"@
    }) + zero_padded((magnitude / 3600) as nat, 2) + ":"@ + zero_padded(
        ((magnitude % 3600) / 60) as nat,
        2,
    )
}

/// The time in ISO 8601 with seven fraction digits and the offset.
pub fn iso_timestamp(t: &LocalTime) -> (r: String)
    requires
        t.in_range(),
    ensures
        r@ == iso_text(*t),
{
    let negative: bool = t.offset_seconds < 0;
    let magnitude: u64 = if negative {
        (-t.offset_seconds) as u64
    } else {
        t.offset_seconds as u64
    };
    let mut out: String = if t.year < 0 {
        let digits: String = padded((-t.year) as u64, 3);
        cat2("-", digits.as_str())
    } else {
        padded(t.year as u64, 4)
    };
    out.append("-");
    out.append(padded(t.month as u64, 2).as_str());
    out.append("-");
    out.append(padded(t.day as u64, 2).as_str());
    out.append("T");
    out.append(padded(t.hour as u64, 2).as_str());
    out.append(":");
    out.append(padded(t.minute as u64, 2).as_str());
    out.append(":");
    out.append(padded(t.second as u64, 2).as_str());
    out.append(".");
    out.append(padded((t.nanosecond / 100) as u64, 7).as_str());
    out.append(if negative {
        "-"
    } else {
        "+"
    });
    out.append(padded(magnitude / 3600, 2).as_str());
    out.append(":");
    out.append(padded((magnitude % 3600) / 60, 2).as_str());
    out
}

} // verus!
