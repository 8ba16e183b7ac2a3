//! What the values of options mean.

use crate::cli_values::{
    clean_name, colon_numbers, custom_key_of, duration_of, header_of, hms_from, hms_of, hms_unit,
    is_bad_name_char, is_key_hex, leading_digits, literal_bytes_of, range_of, speed_of, speed_run,
    trailing_digits,
};
use crate::codec::{hex_text, law_hex_round_trip};
use crate::config::{CustomKeyView, CustomRangeView, SpeedUnit};
use crate::datetime::digit_run;
use crate::error::ErrorView;
use crate::text::{dec, is_digit, is_space, lower, split, trim};
use crate::text_laws::{
    law_contains_char, law_cut_at_a_character, law_decimal_holds_digits, law_decimal_is_read_within,
    law_prefix_comes_off, law_replace_without_occurrence, law_split_at_a_character,
    law_split_without_the_character, lemma_decimal_is_trim, lemma_decimal_lacks, lemma_lacks_first,
};
use vstd::prelude::*;

verus! {

/// A header is its name, in lower case, and its value, each without white space around it.
pub proof fn law_header_is_name_and_value(name: Seq<char>, value: Seq<char>)
    requires
        !name.contains(':'),
    ensures
        header_of(name + ":"@ + value) == Some((lower(trim(name)), trim(value))),
{
    reveal_strlit(":");
    assert(":"@ =~= seq![':']);
    law_cut_at_a_character(name, ':', value);
}

/// The digits from a place on are counted up to the first character that is none.
proof fn lemma_digit_run(a: Seq<char>, n: nat, b: Seq<char>, i: int)
    requires
        a.len() <= i <= a.len() + dec(n).len(),
        b.len() == 0 || !is_digit(b[0]),
    ensures
        digit_run(a + dec(n) + b, i) == a.len() + dec(n).len() - i,
    decreases a.len() + dec(n).len() - i,
{
    law_decimal_holds_digits(n);
    let s = a + dec(n) + b;
    if i < a.len() + dec(n).len() {
        assert(s[i] == dec(n)[i - a.len()]);
        assert(is_digit(s[i]));
        lemma_digit_run(a, n, b, i + 1);
    } else if i < s.len() {
        assert(s[i] == b[0]);
    }
}

proof fn lemma_trailing_digits(s: Seq<char>)
    requires
        forall|i: int| 0 <= i < s.len() ==> is_digit(#[trigger] s[i]),
    ensures
        trailing_digits(s) == s,
    decreases s.len(),
{
    if s.len() > 0 {
        assert(is_digit(s[s.len() - 1]));
        lemma_trailing_digits(s.drop_last());
        assert(s.drop_last().push(s.last()) =~= s);
    }
}

/// A range of numbers is its first and its last.
pub proof fn law_range_is_first_and_last(first: nat, last: nat)
    requires
        first <= i64::MAX,
        last <= i64::MAX,
    ensures
        range_of(dec(first) + "-"@ + dec(last)) == Ok::<Option<CustomRangeView>, ErrorView>(
            Some(
                CustomRangeView::Segment {
                    input: dec(first) + "-"@ + dec(last),
                    start_index: first as i64,
                    end_index: last as i64,
                },
            ),
        ),
{
    reveal_strlit("-");
    reveal_strlit(":");
    assert("-"@ =~= seq!['-']);
    assert(":"@ =~= seq![':']);
    let s = dec(first) + "-"@ + dec(last);
    lemma_decimal_lacks(first, '-');
    lemma_decimal_lacks(last, '-');
    law_cut_at_a_character(dec(first), '-', dec(last));
    law_split_at_a_character(dec(first), '-', dec(last));
    law_split_without_the_character(dec(last), '-');
    law_contains_char(s, ':');
    law_decimal_holds_digits(first);
    law_decimal_holds_digits(last);
    if s.contains(':') {
        let i = choose|i: int| 0 <= i < s.len() && s[i] == ':';
        if i < dec(first).len() {
            assert(is_digit(dec(first)[i]));
        } else if i > dec(first).len() {
            assert(is_digit(dec(last)[i - dec(first).len() - 1]));
        }
    }
    lemma_trailing_digits(dec(first));
    lemma_digit_run(Seq::empty(), last, Seq::empty(), 0);
    assert(Seq::<char>::empty() + dec(last) + Seq::<char>::empty() =~= dec(last));
    assert(leading_digits(dec(last)) =~= dec(last));
    law_decimal_is_read_within(first, i64::MIN as int, i64::MAX as int);
    law_decimal_is_read_within(last, i64::MIN as int, i64::MAX as int);
}

/// Hours, minutes and seconds with colons between them are counted in seconds.
pub proof fn law_clock_durations(hours: nat, minutes: nat, seconds: nat, option: Seq<char>)
    requires
        hours <= i32::MAX,
        minutes <= i32::MAX,
        seconds <= i32::MAX,
    ensures
        duration_of(dec(hours) + ":"@ + (dec(minutes) + ":"@ + dec(seconds)), option) == Ok::<
            int,
            ErrorView,
        >((hours * 3600 + minutes * 60 + seconds) as int),
{
    reveal_strlit(":");
    reveal_strlit("\u{ff1a}");
    assert(":"@ =~= seq![':']);
    let tail = dec(minutes) + ":"@ + dec(seconds);
    let s = dec(hours) + ":"@ + tail;
    law_decimal_holds_digits(hours);
    law_decimal_holds_digits(minutes);
    law_decimal_holds_digits(seconds);
    assert(!s.contains('\u{ff1a}')) by {
        if s.contains('\u{ff1a}') {
            let i = choose|i: int| 0 <= i < s.len() && s[i] == '\u{ff1a}';
            let h = dec(hours).len() as int;
            let m = dec(minutes).len() as int;
            if i < h {
                assert(is_digit(dec(hours)[i]));
            } else if h < i < h + 1 + m {
                assert(is_digit(dec(minutes)[i - h - 1]));
            } else if i > h + 1 + m {
                assert(is_digit(dec(seconds)[i - h - m - 2]));
            }
        }
    }
    lemma_lacks_first(s, "\u{ff1a}"@);
    law_replace_without_occurrence(s, "\u{ff1a}"@, ":"@);
    lemma_decimal_lacks(hours, ':');
    lemma_decimal_lacks(minutes, ':');
    lemma_decimal_lacks(seconds, ':');
    law_split_at_a_character(dec(hours), ':', tail);
    law_split_at_a_character(dec(minutes), ':', dec(seconds));
    law_split_without_the_character(dec(seconds), ':');
    let parts = seq![dec(hours), dec(minutes), dec(seconds)];
    assert(split(s, ":"@) =~= parts);
    lemma_decimal_is_trim(hours);
    lemma_decimal_is_trim(minutes);
    lemma_decimal_is_trim(seconds);
    law_decimal_is_read_within(hours, i32::MIN as int, i32::MAX as int);
    law_decimal_is_read_within(minutes, i32::MIN as int, i32::MAX as int);
    law_decimal_is_read_within(seconds, i32::MIN as int, i32::MAX as int);
    let two = seq![dec(hours), dec(minutes)];
    let one = seq![dec(hours)];
    assert(parts.drop_last() =~= two);
    assert(two.drop_last() =~= one);
    assert(one.drop_last() =~= Seq::<Seq<char>>::empty());
    reveal_with_fuel(colon_numbers, 4);
    assert(colon_numbers(parts, option) == Ok::<Seq<int>, ErrorView>(
        Seq::<int>::empty().push(hours as int).push(minutes as int).push(seconds as int),
    ));
    lemma_firm(s);
}

/// A text whose ends are digits holds something.
proof fn lemma_firm(s: Seq<char>)
    requires
        s.len() > 0,
        is_digit(s[0]),
        is_digit(s.last()),
    ensures
        trim(s) == s,
{
    assert(!is_space(s[0]) && !is_space(s.last()));
}

/// A number with its letter counts as so many seconds, before what follows.
proof fn lemma_letter(a: Seq<char>, n: nat, c: char, b: Seq<char>, rank: int, option: Seq<char>)
    requires
        n <= i32::MAX,
        hms_unit(c) is Some,
        ({
            let (r, seconds) = hms_unit(c)->0;
            r > rank
        }),
    ensures
        ({
            let s = a + dec(n) + (seq![c] + b);
            let (r, seconds) = hms_unit(c)->0;
            let at = a.len() as int;
            hms_from(s, at, rank, option) == match hms_from(
                s,
                at + dec(n).len() + 1,
                r,
                option,
            ) {
                Ok(rest) => Ok::<int, ErrorView>(n * seconds + rest),
                Err(e) => Err(e),
            }
        }),
{
    let s = a + dec(n) + (seq![c] + b);
    let at = a.len() as int;
    let end = at + dec(n).len();
    law_decimal_holds_digits(n);
    law_decimal_is_read_within(n, i32::MIN as int, i32::MAX as int);
    assert((seq![c] + b)[0] == c);
    lemma_digit_run(a, n, seq![c] + b, at);
    assert(s.subrange(at, end) =~= dec(n));
    assert(s[end] == c);
}

/// Hours, minutes and seconds with their letters are counted in seconds.
pub proof fn law_lettered_durations(hours: nat, minutes: nat, seconds: nat, option: Seq<char>)
    requires
        hours <= i32::MAX,
        minutes <= i32::MAX,
        seconds <= i32::MAX,
    ensures
        hms_of(dec(hours) + "h"@ + dec(minutes) + "m"@ + dec(seconds) + "s"@, option) == Ok::<
            int,
            ErrorView,
        >((hours * 3600 + minutes * 60 + seconds) as int),
{
    reveal_strlit("h");
    reveal_strlit("m");
    reveal_strlit("s");
    let s = dec(hours) + "h"@ + dec(minutes) + "m"@ + dec(seconds) + "s"@;
    law_decimal_holds_digits(hours);
    let none = Seq::<char>::empty();
    let b1 = dec(minutes) + "m"@ + dec(seconds) + "s"@;
    lemma_letter(none, hours, 'h', b1, 0, option);
    assert(none + dec(hours) + (seq!['h'] + b1) =~= s);
    let a2 = dec(hours) + "h"@;
    let b2 = dec(seconds) + "s"@;
    lemma_letter(a2, minutes, 'm', b2, 1, option);
    assert(a2 + dec(minutes) + (seq!['m'] + b2) =~= s);
    let a3 = dec(hours) + "h"@ + dec(minutes) + "m"@;
    lemma_letter(a3, seconds, 's', none, 2, option);
    assert(a3 + dec(seconds) + (seq!['s'] + none) =~= s);
    let h = dec(hours).len() as int;
    let m = dec(minutes).len() as int;
    let n = dec(seconds).len() as int;
    assert(s.len() == h + m + n + 3);
    assert(hms_from(s, h + m + n + 3, 3, option) == Ok::<int, ErrorView>(0));
    assert(a3.len() == h + m + 2);
    assert(hms_from(s, h + m + 2, 2, option) == Ok::<int, ErrorView>(seconds * 1int + 0));
    assert(a2.len() == h + 1);
    assert(hms_from(s, h + 1, 1, option) == Ok::<int, ErrorView>(minutes * 60int + seconds));
    assert(hms_from(s, 0, 0, option) == Ok::<int, ErrorView>(
        hours * 3600int + (minutes * 60 + seconds),
    ));
    assert(is_digit(dec(hours)[0]));
    assert(s[0] == dec(hours)[0]);
    assert(s.last() == 's');
    assert(trim(s) == s);
}

/// A speed with its unit is the number before the unit.
pub proof fn law_speed_is_number_and_unit(n: nat)
    ensures
        speed_run(dec(n) + "M"@, None, 0) == Some((dec(n), SpeedUnit::Mega)),
        speed_run(dec(n) + "K"@, None, 0) == Some((dec(n), SpeedUnit::Kilo)),
        speed_of(dec(n) + "M"@) is Ok ==> speed_of(dec(n) + "M"@)->Ok_0.number == dec(n)
            && speed_of(dec(n) + "M"@)->Ok_0.unit == SpeedUnit::Mega,
        speed_of(dec(n) + "K"@) is Ok ==> speed_of(dec(n) + "K"@)->Ok_0.unit == SpeedUnit::Kilo,
{
    reveal_strlit("M");
    reveal_strlit("K");
    law_decimal_holds_digits(n);
    lemma_speed(n, 'M', SpeedUnit::Mega, 1);
    lemma_speed(n, 'K', SpeedUnit::Kilo, 1);
    assert("M"@ =~= seq!['M']);
    assert("K"@ =~= seq!['K']);
    assert(is_digit(dec(n)[0]));
    assert((dec(n) + "M"@)[0] == dec(n)[0]);
    assert((dec(n) + "K"@)[0] == dec(n)[0]);
}

proof fn lemma_speed(n: nat, c: char, unit: SpeedUnit, i: int)
    requires
        crate::cli_values::unit_of(c) == Some(unit),
        0 < i <= dec(n).len(),
    ensures
        speed_run(dec(n) + seq![c], Some(0), i) == Some((dec(n), unit)),
    decreases dec(n).len() - i,
{
    law_decimal_holds_digits(n);
    let s = dec(n) + seq![c];
    if i < dec(n).len() {
        assert(s[i] == dec(n)[i]);
        assert(is_digit(s[i]));
        lemma_speed(n, c, unit, i + 1);
    } else {
        assert(s[i] == c);
        assert(s.subrange(0, i) =~= dec(n));
    }
}

/// A key with its identifier is both, one with a track is both, and one alone is the key.
pub proof fn law_keys_are_read(kid: Seq<char>, key: Seq<char>, track: u32)
    requires
        is_key_hex(kid),
        is_key_hex(key),
    ensures
        custom_key_of(key) == Ok::<CustomKeyView, ErrorView>(CustomKeyView::Key { key_hex: key }),
        custom_key_of(kid + ":"@ + key) == Ok::<CustomKeyView, ErrorView>(
            CustomKeyView::Kid { kid_hex: kid, key_hex: key },
        ),
        dec(track as nat).len() < 32 ==> custom_key_of(dec(track as nat) + ":"@ + key) == Ok::<
            CustomKeyView,
            ErrorView,
        >(CustomKeyView::Track { track_id: track, key_hex: key }),
{
    reveal_strlit(":");
    assert(":"@ =~= seq![':']);
    lemma_hex_lacks_colon(kid);
    lemma_hex_lacks_colon(key);
    law_split_at_a_character(kid, ':', key);
    law_split_without_the_character(key, ':');
    assert(split(kid + ":"@ + key, ":"@) =~= seq![kid, key]);
    assert((kid + ":"@ + key).len() == 65);
    let t = dec(track as nat);
    lemma_decimal_lacks(track as nat, ':');
    law_split_at_a_character(t, ':', key);
    assert(split(t + ":"@ + key, ":"@) =~= seq![t, key]);
    crate::text::law_decimal_round_trip(track as nat);
    law_decimal_holds_digits(track as nat);
    assert((t + ":"@ + key).len() != 32);
}

proof fn lemma_hex_lacks_colon(s: Seq<char>)
    requires
        is_key_hex(s),
    ensures
        !s.contains(':'),
{
    if s.contains(':') {
        let i = choose|i: int| 0 <= i < s.len() && s[i] == ':';
        assert(crate::codec::hex_digit(s[i]) is Some);
    }
}

/// Characters that no file name may hold are replaced, all others stay.
pub proof fn law_names_are_cleaned(v: Seq<char>, i: int)
    requires
        0 <= i < v.len(),
    ensures
        clean_name(v).len() == v.len(),
        !is_bad_name_char(clean_name(v)[i]),
        !is_bad_name_char(v[i]) ==> clean_name(v)[i] == v[i],
        is_bad_name_char('/') && is_bad_name_char('\\') && is_bad_name_char(':'),
{
}

/// Bytes in hexadecimal behind `0x` are those bytes.
pub proof fn law_literal_bytes(b: Seq<u8>, option: Seq<char>)
    requires
        b.len() > 0,
    ensures
        literal_bytes_of("0x"@ + hex_text(b, false), option) == Ok::<Seq<u8>, ErrorView>(b),
{
    let t = hex_text(b, false);
    law_prefix_comes_off("0x"@, t);
    law_hex_round_trip(b, false);
    lemma_all_hex(b);
}

proof fn lemma_all_hex(b: Seq<u8>)
    ensures
        hex_text(b, false).len() == 2 * b.len(),
        crate::cli_values::all_hex(hex_text(b, false)),
    decreases b.len(),
{
    if b.len() > 0 {
        lemma_all_hex(b.drop_last());
        let t = hex_text(b, false);
        let u = hex_text(b.drop_last(), false);
        assert forall|i: int| 0 <= i < t.len() implies crate::codec::hex_digit(#[trigger] t[i]) is Some by {
            if i < u.len() {
                assert(t[i] == u[i]);
            }
        }
    }
}

} // verus!
