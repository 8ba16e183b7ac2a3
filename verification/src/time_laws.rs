//! What timestamps and lengths of time say.

use crate::config::{local_nanos, nanos_until, task_start_seconds, LogLevel};
use crate::datetime::{
    civil_days, field, iso_text, offset_seconds, timestamp_of, valid_date, zero_padded, LocalTime,
};
use crate::error::ErrorView;
use crate::observability::{bare_version, clock_text, is_logged, released_version, update_found};
use crate::text::{
    all_digits, dec, digits_value, drop, find, is_digit, is_space, law_decimal_round_trip,
    lemma_find_from, occurs_at, parse_nat, starts_with,
};
use crate::text_laws::{law_cut_at_a_character, law_decimal_holds_digits, law_trim_keeps};
use vstd::prelude::*;

verus! {

/// Zeros before a number do not change it.
proof fn lemma_zeros(k: nat, s: Seq<char>)
    requires
        all_digits(s),
    ensures
        all_digits(Seq::new(k, |i: int| '0') + s),
        digits_value(Seq::new(k, |i: int| '0') + s) == digits_value(s),
    decreases s.len(), k,
{
    let zeros = Seq::new(k, |i: int| '0');
    let t = zeros + s;
    assert forall|i: int| 0 <= i < t.len() implies is_digit(#[trigger] t[i]) by {
        if i >= k {
            assert(t[i] == s[i - k]);
        }
    }
    if s.len() > 0 {
        assert(t.drop_last() =~= zeros + s.drop_last());
        assert(t.last() == s.last());
        assert(all_digits(s.drop_last()));
        lemma_zeros(k, s.drop_last());
    } else if k > 0 {
        let less = Seq::new((k - 1) as nat, |i: int| '0');
        assert(t.drop_last() =~= less + s);
        lemma_zeros((k - 1) as nat, s);
        assert(t.last() == '0');
    }
}

/// A number that is filled up with zeros is still that number, and as long as was asked for at least.
pub proof fn law_padding_keeps_the_number(n: nat, width: nat)
    ensures
        zero_padded(n, width).len() >= width,
        all_digits(zero_padded(n, width)),
        digits_value(zero_padded(n, width)) == n,
        zero_padded(n, width).len() > 0,
        dec(n).len() <= width ==> zero_padded(n, width).len() == width,
{
    law_decimal_round_trip(n);
    law_decimal_holds_digits(n);
    if dec(n).len() < width {
        lemma_zeros((width - dec(n).len()) as nat, dec(n));
    }
}

/// Small numbers have few digits.
proof fn lemma_few_digits(n: nat)
    ensures
        n < 10 ==> dec(n).len() == 1,
        n < 100 ==> dec(n).len() <= 2,
        n < 1000 ==> dec(n).len() <= 3,
        n < 10000 ==> dec(n).len() <= 4,
{
    reveal_with_fuel(dec, 5);
}

/// A number of two digits.
pub open spec fn two(n: nat) -> Seq<char> {
    zero_padded(n, 2)
}

/// A date and a time of day as a timestamp writes them.
pub open spec fn date_text(year: nat, month: nat, day: nat, hour: nat, minute: nat, second: nat) -> Seq<
    char,
> {
    zero_padded(year, 4) + "-"@ + two(month) + "-"@ + two(day) + "T"@ + two(hour) + ":"@ + two(
        minute,
    ) + ":"@ + two(second)
}

proof fn lemma_date_text(
    year: nat,
    month: nat,
    day: nat,
    hour: nat,
    minute: nat,
    second: nat,
    rest: Seq<char>,
)
    requires
        year <= 9999,
        month <= 12,
        day <= 31,
        hour <= 23,
        minute <= 59,
        second <= 59,
    ensures
        ({
            let t = date_text(year, month, day, hour, minute, second) + rest;
            &&& date_text(year, month, day, hour, minute, second).len() == 19
            &&& crate::datetime::has_timestamp_shape(t)
            &&& field(t, 0, 4) == year
            &&& field(t, 5, 7) == month
            &&& field(t, 8, 10) == day
            &&& field(t, 11, 13) == hour
            &&& field(t, 14, 16) == minute
            &&& field(t, 17, 19) == second
            &&& is_digit(t[0])
            &&& is_digit(t[18])
            &&& drop(t, 19) == rest
        }),
{
    reveal_strlit("-");
    reveal_strlit("T");
    reveal_strlit(":");
    lemma_few_digits(year);
    lemma_few_digits(month);
    lemma_few_digits(day);
    lemma_few_digits(hour);
    lemma_few_digits(minute);
    lemma_few_digits(second);
    law_padding_keeps_the_number(year, 4);
    law_padding_keeps_the_number(month, 2);
    law_padding_keeps_the_number(day, 2);
    law_padding_keeps_the_number(hour, 2);
    law_padding_keeps_the_number(minute, 2);
    law_padding_keeps_the_number(second, 2);
    let t = date_text(year, month, day, hour, minute, second) + rest;
    assert(t.subrange(0, 4) =~= zero_padded(year, 4));
    assert(t.subrange(5, 7) =~= two(month));
    assert(t.subrange(8, 10) =~= two(day));
    assert(t.subrange(11, 13) =~= two(hour));
    assert(t.subrange(14, 16) =~= two(minute));
    assert(t.subrange(17, 19) =~= two(second));
    assert(t[0] == zero_padded(year, 4)[0]);
    assert(t[18] == two(second)[1]);
    assert(drop(t, 19) =~= rest);
}

/// A timestamp in UTC stands for its date and its time of day; one with an offset for as much
/// earlier; one without is in local time.
pub proof fn law_timestamps_are_read(
    year: nat,
    month: nat,
    day: nat,
    hour: nat,
    minute: nat,
    second: nat,
    local: int,
)
    requires
        year <= 9999,
        hour <= 23,
        minute <= 59,
        second <= 59,
        valid_date(year as int, month as int, day as int),
    ensures
        ({
            let text = date_text(year, month, day, hour, minute, second);
            let s = civil_days(year as int, month as int, day as int) * 86400 + hour * 3600 + minute
                * 60 + second;
            &&& timestamp_of(text + "Z"@, local) == Some((s, s * 1000))
            &&& timestamp_of(text, local) == Some((s - local, (s - local) * 1000))
        }),
{
    reveal_strlit("Z");
    let text = date_text(year, month, day, hour, minute, second);
    lemma_date_text(year, month, day, hour, minute, second, "Z"@);
    lemma_date_text(year, month, day, hour, minute, second, Seq::empty());
    assert(text + Seq::<char>::empty() =~= text);
    let t = text + "Z"@;
    law_trim_keeps(t);
    law_trim_keeps(text);
    law_trim_keeps("Z"@);
    law_trim_keeps(Seq::empty());
}

/// An offset ahead of UTC is hours and minutes, one behind UTC is negative.
pub proof fn law_offsets_are_read(hours: nat, minutes: nat, local: int)
    requires
        hours <= 23,
        minutes <= 59,
    ensures
        offset_seconds("+"@ + two(hours) + ":"@ + two(minutes), local) == Some(
            (hours * 3600 + minutes * 60) as int,
        ),
        offset_seconds("-"@ + two(hours) + ":"@ + two(minutes), local) == Some(
            -((hours * 3600 + minutes * 60) as int),
        ),
        offset_seconds("Z"@, local) == Some(0int),
        offset_seconds(Seq::empty(), local) == Some(local),
{
    reveal_strlit("+");
    reveal_strlit("-");
    reveal_strlit(":");
    reveal_strlit("Z");
    reveal_strlit("z");
    assert(":"@ =~= seq![':']);
    law_padding_keeps_the_number(hours, 2);
    law_padding_keeps_the_number(minutes, 2);
    let rest = two(hours) + ":"@ + two(minutes);
    assert(!two(hours).contains(':')) by {
        if two(hours).contains(':') {
            let i = choose|i: int| 0 <= i < two(hours).len() && two(hours)[i] == ':';
            assert(is_digit(two(hours)[i]));
        }
    }
    law_cut_at_a_character(two(hours), ':', two(minutes));
    let ahead = "+"@ + two(hours) + ":"@ + two(minutes);
    let behind = "-"@ + two(hours) + ":"@ + two(minutes);
    assert(drop(ahead, 1) =~= rest);
    assert(drop(behind, 1) =~= rest);
    assert(ahead[0] == '+' && behind[0] == '-');
    assert("Z"@[0] == 'Z' && "z"@[0] == 'z');
    assert(parse_nat(two(hours)) == Some(hours));
    assert(parse_nat(two(minutes)) == Some(minutes));
}

/// The time that is written is the time on the clock: the date and the time of day stand in it, and
/// reading them gives them back.
pub proof fn law_written_time_is_the_time(t: LocalTime)
    requires
        t.in_range(),
        t.year >= 0,
    ensures
        starts_with(
            iso_text(t),
            date_text(
                t.year as nat,
                t.month as nat,
                t.day as nat,
                t.hour as nat,
                t.minute as nat,
                t.second as nat,
            ),
        ),
{
    let head = date_text(
        t.year as nat,
        t.month as nat,
        t.day as nat,
        t.hour as nat,
        t.minute as nat,
        t.second as nat,
    );
    assert(iso_text(t).subrange(0, head.len() as int) =~= head);
}

/// The digits of a start time are its date and its time of day.
pub proof fn law_start_times_are_read(
    year: nat,
    month: nat,
    day: nat,
    hour: nat,
    minute: nat,
    second: nat,
)
    requires
        year <= 9999,
        hour <= 23,
        minute <= 59,
        second <= 59,
        valid_date(year as int, month as int, day as int),
    ensures
        task_start_seconds(
            zero_padded(year, 4) + two(month) + two(day) + two(hour) + two(minute) + two(second),
        ) == Ok::<int, ErrorView>(
            civil_days(year as int, month as int, day as int) * 86400 + hour * 3600 + minute * 60
                + second,
        ),
{
    lemma_few_digits(year);
    lemma_few_digits(month);
    lemma_few_digits(day);
    lemma_few_digits(hour);
    lemma_few_digits(minute);
    lemma_few_digits(second);
    law_padding_keeps_the_number(year, 4);
    law_padding_keeps_the_number(month, 2);
    law_padding_keeps_the_number(day, 2);
    law_padding_keeps_the_number(hour, 2);
    law_padding_keeps_the_number(minute, 2);
    law_padding_keeps_the_number(second, 2);
    let t = zero_padded(year, 4) + two(month) + two(day) + two(hour) + two(minute) + two(second);
    assert(t.len() == 14);
    assert(t.subrange(0, 4) =~= zero_padded(year, 4));
    assert(t.subrange(4, 6) =~= two(month));
    assert(t.subrange(6, 8) =~= two(day));
    assert(t.subrange(8, 10) =~= two(hour));
    assert(t.subrange(10, 12) =~= two(minute));
    assert(t.subrange(12, 14) =~= two(second));
    assert(all_digits(t)) by {
        assert forall|i: int| 0 <= i < t.len() implies is_digit(#[trigger] t[i]) by {
            if i < 4 {
                assert(t[i] == zero_padded(year, 4)[i]);
            } else if i < 6 {
                assert(t[i] == two(month)[i - 4]);
            } else if i < 8 {
                assert(t[i] == two(day)[i - 6]);
            } else if i < 10 {
                assert(t[i] == two(hour)[i - 8]);
            } else if i < 12 {
                assert(t[i] == two(minute)[i - 10]);
            } else {
                assert(t[i] == two(second)[i - 12]);
            }
        }
    }
}

/// What is left until a start time is the time between now and then; once it has come nothing is.
pub proof fn law_time_until_a_start(raw: Seq<char>, start: int, now: int)
    requires
        task_start_seconds(raw) == Ok::<int, ErrorView>(start),
    ensures
        now < start * 1_000_000_000 ==> nanos_until(raw, Ok(now)) == Ok::<Option<int>, ErrorView>(
            Some(start * 1_000_000_000 - now),
        ),
        now >= start * 1_000_000_000 ==> nanos_until(raw, Ok(now)) == Ok::<Option<int>, ErrorView>(
            None,
        ),
{
}

/// One second later is one second more, on the same day.
pub proof fn law_seconds_of_a_day(t: LocalTime, u: LocalTime)
    requires
        t.year == u.year,
        t.month == u.month,
        t.day == u.day,
    ensures
        local_nanos(u) - local_nanos(t) == ((u.hour - t.hour) * 3600 + (u.minute - t.minute) * 60 + (
        u.second - t.second)) * 1_000_000_000 + (u.nanosecond - t.nanosecond),
{
}

/// A length of time is shown as hours, minutes and seconds that make it up.
pub proof fn law_clock_shows_the_length(seconds: nat)
    requires
        seconds < 360_000,
    ensures
        clock_text(seconds).len() == 8,
        digits_value(clock_text(seconds).subrange(0, 2)) * 3600 + digits_value(
            clock_text(seconds).subrange(3, 5),
        ) * 60 + digits_value(clock_text(seconds).subrange(6, 8)) == seconds,
        clock_text(seconds)[2] == ':' && clock_text(seconds)[5] == ':',
{
    reveal_strlit(":");
    let h = seconds / 3600;
    let m = (seconds / 60) % 60;
    let s = seconds % 60;
    lemma_few_digits(h);
    lemma_few_digits(m);
    lemma_few_digits(s);
    law_padding_keeps_the_number(h, 2);
    law_padding_keeps_the_number(m, 2);
    law_padding_keeps_the_number(s, 2);
    let t = clock_text(seconds);
    assert(t.subrange(0, 2) =~= two(h));
    assert(t.subrange(3, 5) =~= two(m));
    assert(t.subrange(6, 8) =~= two(s));
    assert(h * 3600 + m * 60 + s == seconds);
}

/// The version of a release is what stands behind its tag.
pub proof fn law_released_version_is_the_tag(a: Seq<char>, tag: Seq<char>)
    requires
        tag.len() > 0,
        !is_space(tag[0]),
        !is_space(tag.last()),
        !starts_with(tag, "http"@),
        forall|i: int| 0 <= i < a.len() ==> !occurs_at(a + "/tag/"@ + tag, "/tag/"@, i),
    ensures
        released_version(a + "/tag/"@ + tag) == Some(tag),
        update_found(Some(a + "/tag/"@ + tag), tag).latest_version == Some(tag),
        !update_found(Some(a + "/tag/"@ + tag), tag).update_available,
        !update_found(None, tag).update_available,
{
    reveal_strlit("/tag/");
    let s = a + "/tag/"@ + tag;
    let n = a.len() as int;
    lemma_find_from(s, "/tag/"@, 0);
    assert(s.subrange(n, n + 5) =~= "/tag/"@);
    assert(occurs_at(s, "/tag/"@, n));
    assert(find(s, "/tag/"@) == Some(n));
    assert(drop(s, n + 5) =~= tag);
    law_trim_keeps(tag);
}

/// Another version is an update; the letter before a version does not count.
pub proof fn law_other_versions_are_updates(location: Seq<char>, latest: Seq<char>, current: Seq<char>)
    requires
        released_version(location) == Some(latest),
    ensures
        update_found(Some(location), current).update_available <==> bare_version(latest)
            != bare_version(current),
        latest.len() > 0 && latest[0] != 'v' && !is_space(latest[0]) && !is_space(latest.last())
            ==> bare_version(seq!['v'] + latest) == latest,
{
    if latest.len() > 0 && latest[0] != 'v' && !is_space(latest[0]) && !is_space(latest.last()) {
        let s = seq!['v'] + latest;
        law_trim_keeps(s);
        assert(s.drop_first() =~= latest);
        assert(crate::text::trim_start_char(latest, 'v') == latest);
    }
}

/// Nothing is logged where logging is off; else a message is logged where it is as severe as asked
/// for.
pub proof fn law_levels()
    ensures
        forall|m: LogLevel| !is_logged(LogLevel::Off, m),
        is_logged(LogLevel::Warn, LogLevel::Error) && is_logged(LogLevel::Warn, LogLevel::Warn),
        !is_logged(LogLevel::Warn, LogLevel::Info) && !is_logged(LogLevel::Warn, LogLevel::Debug),
        is_logged(LogLevel::Info, LogLevel::Warn) && !is_logged(LogLevel::Info, LogLevel::Debug),
        is_logged(LogLevel::Debug, LogLevel::Debug) && is_logged(LogLevel::Debug, LogLevel::Info),
        is_logged(LogLevel::Error, LogLevel::Error) && !is_logged(LogLevel::Error, LogLevel::Warn),
{
}

} // verus!
