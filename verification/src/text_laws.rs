//! Laws of the operations on texts.

use crate::text::{
    contains, dec, drop, find, is_digit, is_space, law_decimal_round_trip, lemma_find_from, lines,
    lower, lower_char, occurs_at, parse_integer, parse_unsigned, parse_within, replace, split,
    split_once, starts_with, strip_prefix, take, trim, trim_end, trim_start,
};
use vstd::prelude::*;

verus! {

/// A text begins with its first part, and what follows that is the rest.
pub proof fn law_prefix_comes_off(p: Seq<char>, rest: Seq<char>)
    ensures
        starts_with(p + rest, p),
        strip_prefix(p + rest, p) == Some(rest),
{
    assert((p + rest).subrange(0, p.len() as int) =~= p);
    assert(drop(p + rest, p.len() as int) =~= rest);
}

/// The characters of a prefix are those of the text.
pub proof fn lemma_prefix_char(s: Seq<char>, p: Seq<char>, i: int)
    requires
        0 <= i < p.len(),
    ensures
        starts_with(s, p) ==> s.len() >= p.len() && s[i] == p[i],
{
    if starts_with(s, p) {
        assert(s.subrange(0, p.len() as int)[i] == s[i]);
    }
}

/// A text of one character stands where the character does.
pub proof fn lemma_char_occurs(s: Seq<char>, c: char, i: int)
    ensures
        occurs_at(s, seq![c], i) <==> 0 <= i < s.len() && s[i] == c,
{
    if 0 <= i < s.len() {
        if s[i] == c {
            assert(s.subrange(i, i + 1) =~= seq![c]);
        } else if s.subrange(i, i + 1) == seq![c] {
            assert(s.subrange(i, i + 1)[0] == c);
        }
    }
}

/// A text holds a character, as a text of one character, where it stands somewhere in it.
pub proof fn law_contains_char(s: Seq<char>, c: char)
    ensures
        contains(s, seq![c]) <==> s.contains(c),
{
    lemma_find_from(s, seq![c], 0);
    assert forall|i: int| true implies occurs_at(s, seq![c], i) == (0 <= i < s.len() && s[i]
        == c) by {
        lemma_char_occurs(s, c, i);
    }
    if s.contains(c) {
        let i = choose|i: int| 0 <= i < s.len() && s[i] == c;
        assert(occurs_at(s, seq![c], i));
    }
    if contains(s, seq![c]) {
        let k = find(s, seq![c])->0;
        assert(occurs_at(s, seq![c], k));
        assert(s[k] == c);
    }
}

/// Two texts with a character between them are parted there, where the first does not hold it.
pub proof fn law_cut_at_a_character(a: Seq<char>, c: char, b: Seq<char>)
    requires
        !a.contains(c),
    ensures
        find(a + seq![c] + b, seq![c]) == Some(a.len() as int),
        split_once(a + seq![c] + b, seq![c]) == Some((a, b)),
{
    let s = a + seq![c] + b;
    let n = a.len() as int;
    lemma_find_from(s, seq![c], 0);
    lemma_char_occurs(s, c, n);
    assert(s[n] == c);
    assert(find(s, seq![c]) is Some);
    let k = find(s, seq![c])->0;
    lemma_char_occurs(s, c, k);
    if k < n {
        assert(s[k] == a[k]);
    }
    assert(k == n);
    assert(take(s, n) =~= a);
    assert(drop(s, n + 1) =~= b);
}

/// A text without the character is not parted.
pub proof fn law_no_cut_without_the_character(s: Seq<char>, c: char)
    requires
        !s.contains(c),
    ensures
        find(s, seq![c]) is None,
        split_once(s, seq![c]) is None,
{
    law_contains_char(s, c);
}

/// Splitting at a character undoes putting it between two texts of which the first does not hold it.
pub proof fn law_split_at_a_character(a: Seq<char>, c: char, b: Seq<char>)
    requires
        !a.contains(c),
    ensures
        split(a + seq![c] + b, seq![c]) == seq![a] + split(b, seq![c]),
{
    law_cut_at_a_character(a, c, b);
    let s = a + seq![c] + b;
    assert(take(s, a.len() as int) =~= a);
    assert(drop(s, a.len() as int + 1) =~= b);
}

/// A text without the character stays whole.
pub proof fn law_split_without_the_character(s: Seq<char>, c: char)
    requires
        !s.contains(c),
    ensures
        split(s, seq![c]) == seq![s],
{
    law_no_cut_without_the_character(s, c);
}

/// The digits of a number are digits, one at least.
pub proof fn law_decimal_holds_digits(n: nat)
    ensures
        dec(n).len() > 0,
        forall|i: int| 0 <= i < dec(n).len() ==> is_digit(#[trigger] dec(n)[i]),
{
    law_decimal_round_trip(n);
}

/// A character that is no digit does not stand in a number.
pub proof fn lemma_decimal_lacks(n: nat, c: char)
    requires
        !is_digit(c),
    ensures
        !dec(n).contains(c),
{
    law_decimal_holds_digits(n);
}

/// A number that lies within bounds is read back.
pub proof fn law_decimal_is_read_within(n: nat, min: int, max: int)
    requires
        min <= n <= max,
    ensures
        parse_integer(dec(n)) == Some(n as int),
        parse_within(dec(n), min, max) == Some(n as int),
        min <= 0 ==> parse_unsigned(dec(n), max) == Some(n as int),
{
    law_decimal_round_trip(n);
    law_decimal_holds_digits(n);
    assert(is_digit(dec(n)[0]));
}

/// Different numbers have different digits.
pub proof fn law_decimals_differ(m: nat, n: nat)
    requires
        m != n,
    ensures
        dec(m) != dec(n),
{
    law_decimal_round_trip(m);
    law_decimal_round_trip(n);
}

/// A text with no space at either end is not trimmed.
pub proof fn law_trim_keeps(s: Seq<char>)
    requires
        s.len() == 0 || !is_space(s[0]) && !is_space(s.last()),
    ensures
        trim(s) == s,
{
}

/// Spaces around a text are trimmed, and nothing else is.
pub proof fn law_trim_takes_spaces(a: Seq<char>, s: Seq<char>, b: Seq<char>)
    requires
        forall|i: int| 0 <= i < a.len() ==> is_space(#[trigger] a[i]),
        forall|i: int| 0 <= i < b.len() ==> is_space(#[trigger] b[i]),
        s.len() > 0,
        !is_space(s[0]),
        !is_space(s.last()),
    ensures
        trim(a + s + b) == s,
{
    lemma_trim_start(a, s + b);
    assert(a + s + b =~= a + (s + b));
    lemma_trim_end(s, b);
}

proof fn lemma_trim_start(a: Seq<char>, s: Seq<char>)
    requires
        forall|i: int| 0 <= i < a.len() ==> is_space(#[trigger] a[i]),
        s.len() > 0,
        !is_space(s[0]),
    ensures
        trim_start(a + s) == s,
    decreases a.len(),
{
    if a.len() == 0 {
        assert(a + s =~= s);
    } else {
        assert((a + s)[0] == a[0]);
        assert((a + s).drop_first() =~= a.drop_first() + s);
        lemma_trim_start(a.drop_first(), s);
    }
}

proof fn lemma_trim_end(s: Seq<char>, b: Seq<char>)
    requires
        forall|i: int| 0 <= i < b.len() ==> is_space(#[trigger] b[i]),
        s.len() > 0,
        !is_space(s.last()),
    ensures
        trim_end(s + b) == s,
    decreases b.len(),
{
    if b.len() == 0 {
        assert(s + b =~= s);
    } else {
        assert((s + b).last() == b.last());
        assert((s + b).drop_last() =~= s + b.drop_last());
        lemma_trim_end(s, b.drop_last());
    }
}

/// A number is not trimmed.
pub proof fn lemma_decimal_is_trim(n: nat)
    ensures
        trim(dec(n)) == dec(n),
{
    law_decimal_holds_digits(n);
    assert(is_digit(dec(n)[0]) && is_digit(dec(n)[dec(n).len() - 1]));
}

/// A text in which the pattern does not occur is not changed by a replacement.
pub proof fn law_replace_without_occurrence(s: Seq<char>, p: Seq<char>, w: Seq<char>)
    requires
        !contains(s, p),
    ensures
        replace(s, p, w) == s,
{
}

/// An occurrence that no earlier one overlaps is replaced, and the rest behind it likewise.
pub proof fn law_replace_first(a: Seq<char>, p: Seq<char>, b: Seq<char>, w: Seq<char>)
    requires
        p.len() > 0,
        forall|i: int| 0 <= i < a.len() ==> !occurs_at(a + p + b, p, i),
    ensures
        replace(a + p + b, p, w) == a + w + replace(b, p, w),
{
    let s = a + p + b;
    let n = a.len() as int;
    lemma_find_from(s, p, 0);
    assert(s.subrange(n, n + p.len()) =~= p);
    assert(occurs_at(s, p, n));
    assert(take(s, n) =~= a);
    assert(drop(s, n + p.len()) =~= b);
}

/// A pattern whose first character does not stand in a text does not occur in it.
pub proof fn lemma_lacks_first(s: Seq<char>, p: Seq<char>)
    requires
        p.len() > 0,
        !s.contains(p[0]),
    ensures
        !contains(s, p),
{
    lemma_find_from(s, p, 0);
    if contains(s, p) {
        let k = find(s, p)->0;
        assert(s.subrange(k, k + p.len())[0] == s[k]);
    }
}

/// Lines that hold no line feed and no carriage return at their end are read back from a text in
/// which each ends with a line feed.
pub proof fn law_lines_are_read_back(line: Seq<char>, rest: Seq<char>)
    requires
        !line.contains('\n'),
        line.len() > 0 ==> line.last() != '\r',
    ensures
        lines(line + seq!['\n'] + rest) == seq![line] + lines(rest),
{
    law_cut_at_a_character(line, '\n', rest);
    let s = line + seq!['\n'] + rest;
    assert(take(s, line.len() as int) =~= line);
    assert(drop(s, line.len() as int + 1) =~= rest);
}

/// Lower case changes nothing the second time, and keeps the length.
pub proof fn law_lower_twice(s: Seq<char>)
    ensures
        lower(lower(s)) == lower(s),
        lower(s).len() == s.len(),
{
    assert forall|i: int| 0 <= i < s.len() implies #[trigger] lower(lower(s))[i] == lower(s)[i] by {
        let c = s[i];
        if 'A' <= c && c <= 'Z' {
            let d = lower_char(c);
            assert('a' <= d && d <= 'z');
        }
    }
    assert(lower(lower(s)) =~= lower(s));
}

} // verus!
