//! Decimal numbers as manifests write them.

use crate::error::{Error, ErrorView, Result};
use crate::text::{
    all_digits, cat2, cat3, contains, digit_value, digits_value, drop, find, find_text, from_range,
    has_text, is_digit, lower, lowered, owned, parse_nat, replace, replace_text, same, slice,
    slice_from, take, to_chars, trim, trim_end_char, trimmed, trimmed_end_char,
};
use vstd::prelude::*;

verus! {

/// Position of the first `e` or `E` at or after `i`.
pub open spec fn exponent_from(s: Seq<char>, i: int) -> Option<int>
    decreases s.len() - i,
{
    if i < 0 || i >= s.len() {
        None
    } else if s[i] == 'e' || s[i] == 'E' {
        Some(i)
    } else {
        exponent_from(s, i + 1)
    }
}

fn exponent_position(s: &str) -> (r: Option<usize>)
    ensures
        match r {
            Some(i) => i < s@.len() && exponent_from(s@, 0) == Some(i as int),
            None => exponent_from(s@, 0) is None,
        },
{
    let v: Vec<char> = to_chars(s);
    let mut i: usize = 0;
    while i < v.len()
        invariant
            v@ == s@,
            i <= v@.len(),
            exponent_from(v@, 0) == exponent_from(v@, i as int),
        decreases v@.len() - i,
    {
        if v[i] == 'e' || v[i] == 'E' {
            return Some(i);
        }
        i = i + 1;
    }
    None
}

/// A comma with no digit before it.
pub open spec fn leading_comma(s: Seq<char>) -> bool {
    exists|i: int|
        0 <= i < s.len() && #[trigger] s[i] == ',' && forall|j: int|
            0 <= j < i ==> !is_digit(#[trigger] s[j])
}

fn has_leading_comma(s: &str) -> (r: bool)
    ensures
        r == leading_comma(s@),
{
    let v: Vec<char> = to_chars(s);
    let mut i: usize = 0;
    while i < v.len()
        invariant
            v@ == s@,
            i <= v@.len(),
            forall|j: int| 0 <= j < i ==> !is_digit(#[trigger] v@[j]) && v@[j] != ',',
        decreases v@.len() - i,
    {
        let c: char = v[i];
        if '0' <= c && c <= '9' {
            assert(is_digit(v@[i as int]));
            return false;
        }
        if c == ',' {
            return true;
        }
        i = i + 1;
    }
    false
}

/// The text without the commas that group the digits before the point. Commas elsewhere, or before
/// the first digit, are no grouping.
pub open spec fn normal_decimal(s: Seq<char>) -> Option<Seq<char>> {
    let value = trim(s);
    if value == "NaN"@ || !contains(value, ","@) {
        Some(value)
    } else {
        let (mantissa, exponent) = match exponent_from(value, 0) {
            Some(i) => (take(value, i), drop(value, i)),
            None => (value, ""@),
        };
        let (integer, fraction) = match find(mantissa, "."@) {
            Some(i) => (take(mantissa, i), drop(mantissa, i)),
            None => (mantissa, ""@),
        };
        if contains(exponent, ","@) || contains(fraction, ","@) || leading_comma(integer) {
            None
        } else {
            Some(replace(integer, ","@, ""@) + fraction + exponent)
        }
    }
}

fn normalize_manifest_f64(s: &str) -> (r: Option<String>)
    ensures
        r.deep_view() == normal_decimal(s@),
{
    let value: &str = trimmed(s);
    if same(value, "NaN") || !has_text(value, ",") {
        return Some(owned(value));
    }
    let (mantissa, exponent): (&str, &str) = match exponent_position(value) {
        Some(i) => (slice(value, 0, i), slice_from(value, i)),
        None => (value, ""),
    };
    let (integer, fraction): (&str, &str) = match find_text(mantissa, ".") {
        Some(i) => (slice(mantissa, 0, i), slice_from(mantissa, i)),
        None => (mantissa, ""),
    };
    if has_text(exponent, ",") || has_text(fraction, ",") || has_leading_comma(integer) {
        return None;
    }
    proof {
        reveal_strlit(",");
    }
    let digits: String = replace_text(integer, ",", "");
    Some(cat3(digits.as_str(), fraction, exponent))
}

/// Lexicographic order of digit runs; a proper prefix stands before the longer run.
pub open spec fn digits_before(a: Seq<char>, b: Seq<char>) -> bool
    decreases a.len(),
{
    if b.len() == 0 {
        false
    } else if a.len() == 0 {
        true
    } else if a[0] != b[0] {
        a[0] < b[0]
    } else {
        digits_before(a.drop_first(), b.drop_first())
    }
}

/// The digits of the least magnitude that a double cannot hold, `2^1024 - 2^970`.
pub open spec fn overflow_digits() -> Seq<char> {
    "179769313486231580793728971405303415079934132710037826936173778980444968292764750946649017977587207096330286416692887910946555547851940402630657488671505820681908902000708383676273854845817711531764475730270069855571366959622842914819860834936475292719074168444365510704342711559699508093042880177904174497792"@
}

/// The number of zeros at the start.
pub open spec fn leading_zeros(s: Seq<char>) -> int
    decreases s.len(),
{
    if s.len() > 0 && s[0] == '0' {
        1 + leading_zeros(s.drop_first())
    } else {
        0
    }
}

/// `s` without its sign.
pub open spec fn unsigned(s: Seq<char>) -> Seq<char> {
    if s.len() > 0 && (s[0] == '+' || s[0] == '-') {
        drop(s, 1)
    } else {
        s
    }
}

/// The value of an exponent, where its text is a sign and digits.
pub open spec fn exponent_value(s: Seq<char>) -> Option<int> {
    match parse_nat(unsigned(s)) {
        Some(n) => Some(
            if s[0] == '-' {
                -(n as int)
            } else {
                n as int
            },
        ),
        None => None,
    }
}

/// `s` writes a decimal number: digits with at most one point, at least one digit, and an exponent
/// that may be missing. Its magnitude lies below the range in which a double overflows.
pub open spec fn is_finite_decimal(s: Seq<char>) -> bool {
    decimal_parts(s) is Some && below_overflow(decimal_parts(s)->0)
}

/// A number as a manifest field holds it: `NaN`, or a finite decimal with grouping commas removed.
pub open spec fn manifest_number(s: Seq<char>) -> Option<Seq<char>> {
    match normal_decimal(s) {
        Some(text) => if text == "NaN"@ || is_finite_decimal(text) {
            Some(text)
        } else {
            None
        },
        None => None,
    }
}

/// The digits of the greatest magnitude that rounds to zero in a double, `2^-1075`.
pub open spec fn underflow_digits() -> Seq<char> {
    "24703282292062327208828439643411068618252990130716238221279284125033775363510437593264991818081799618989828234772285886546332835517796989819938739800539093906315035659515570226392290858392449105184435931802849936536152500319370457678249219365623669863658480757001585769269903706311928279558551332927834338409351978015531246597263579574622766465272827220056374006485499977096599470454020828166226237857393450736339007967761930577506740176324673600968951340535537458516661134223766678604162159680461914467291840300530057530849048765391711386591646239524912623653881879636239373280423891018672348497668235089863388587925628302755995657524455507255189313690836254779186948667994968324049705821028513185451396213837722826145437693412532098591327667236328125"@
}

/// Sign, digits after the leading zeros and position of the point of a decimal: its value is
/// `0.digits * 10^point`.
pub struct DecimalParts {
    pub negative: bool,
    pub digits: Seq<char>,
    pub point: int,
}

/// The parts of a text that writes a decimal number.
pub open spec fn decimal_parts(s: Seq<char>) -> Option<DecimalParts> {
    let body = unsigned(s);
    let (mantissa, exponent) = match exponent_from(body, 0) {
        Some(i) => (take(body, i), exponent_value(drop(body, i + 1))),
        None => (body, Some(0)),
    };
    let (integer, fraction) = match find(mantissa, "."@) {
        Some(i) => (take(mantissa, i), drop(mantissa, i + 1)),
        None => (mantissa, ""@),
    };
    let digits = integer + fraction;
    if exponent is Some && all_digits(digits) && digits.len() > 0 {
        let zeros = leading_zeros(digits);
        Some(
            DecimalParts {
                negative: s.len() > 0 && s[0] == '-',
                digits: drop(digits, zeros),
                point: integer.len() - zeros + exponent->0,
            },
        )
    } else {
        None
    }
}

/// The magnitude lies below the range in which a double overflows.
pub open spec fn below_overflow(d: DecimalParts) -> bool {
    d.digits.len() == 0 || d.point < 309 || (d.point == 309 && digits_before(
        d.digits,
        overflow_digits(),
    ))
}

/// The magnitude does not round to zero in a double.
pub open spec fn above_underflow(d: DecimalParts) -> bool {
    d.digits.len() > 0 && (d.point > -323 || (d.point == -323 && digits_before(
        underflow_digits(),
        trim_end_char(d.digits, '0'),
    )))
}

/// What a text says as a floating point number.
#[derive(Clone, Copy, Debug, PartialEq, Eq, Structural)]
pub enum NumberClass {
    /// No number.
    Malformed,
    /// Infinite, too large, or not a number.
    NotFinite,
    /// Below zero.
    Negative,
    /// Zero or above.
    NotNegative,
}

/// A word that stands for infinity or for no number at all, in any ASCII case.
pub open spec fn is_special_word(s: Seq<char>) -> bool {
    let word = lower(unsigned(s));
    word == "inf"@ || word == "infinity"@ || word == "nan"@
}

/// What a text says as a floating point number.
pub open spec fn classify(s: Seq<char>) -> NumberClass {
    match decimal_parts(s) {
        Some(d) => if !below_overflow(d) {
            NumberClass::NotFinite
        } else if d.negative && above_underflow(d) {
            NumberClass::Negative
        } else {
            NumberClass::NotNegative
        },
        None => if is_special_word(s) {
            NumberClass::NotFinite
        } else {
            NumberClass::Malformed
        },
    }
}

/// The value of a digit run, cut off at a bound that no position reaches.
fn capped_digits(s: &str) -> (r: Option<u128>)
    ensures
        match r {
            Some(n) => parse_nat(s@) is Some && n as int == (if parse_nat(s@)->0
                < 1_000_000_000_000_000_000_000_000_000_000 {
                parse_nat(s@)->0 as int
            } else {
                1_000_000_000_000_000_000_000_000_000_000
            }),
            None => parse_nat(s@) is None,
        },
{
    let cap: u128 = 1_000_000_000_000_000_000_000_000_000_000;
    let v: Vec<char> = to_chars(s);
    if v.len() == 0 {
        return None;
    }
    let mut acc: u128 = 0;
    let mut i: usize = 0;
    assert(v@.subrange(0, 0) =~= Seq::<char>::empty());
    while i < v.len()
        invariant
            v@ == s@,
            i <= v@.len(),
            cap == 1_000_000_000_000_000_000_000_000_000_000,
            forall|j: int| 0 <= j < i ==> is_digit(#[trigger] v@[j]),
            digits_value(v@.subrange(0, i as int)) < cap ==> acc == digits_value(
                v@.subrange(0, i as int),
            ),
            digits_value(v@.subrange(0, i as int)) >= cap ==> acc == cap,
        decreases v@.len() - i,
    {
        let c: char = v[i];
        if !('0' <= c && c <= '9') {
            assert(!is_digit(v@[i as int]));
            return None;
        }
        let d: u128 = (c as u32 - 48) as u128;
        assert(v@.subrange(0, i + 1).drop_last() =~= v@.subrange(0, i as int));
        assert(v@.subrange(0, i + 1).last() == c);
        assert(digit_value(c) == d);
        if acc < cap {
            let next: u128 = acc * 10 + d;
            acc = if next < cap {
                next
            } else {
                cap
            };
        }
        i = i + 1;
    }
    assert(v@.subrange(0, v@.len() as int) =~= v@);
    Some(acc)
}

fn without_sign<'a>(s: &'a str) -> (r: &'a str)
    ensures
        r@ == unsigned(s@),
{
    let v: Vec<char> = to_chars(s);
    if v.len() > 0 && (v[0] == '+' || v[0] == '-') {
        slice_from(s, 1)
    } else {
        s
    }
}

fn digits_stand_before(a: &Vec<char>, from: usize, b: &Vec<char>) -> (r: bool)
    requires
        from <= a@.len(),
    ensures
        r == digits_before(drop(a@, from as int), b@),
{
    let mut k: usize = 0;
    let _len: usize = a.len();
    assert(drop(b@, 0) =~= b@);
    while k < b.len() && k < a.len() - from && a[from + k] == b[k]
        invariant
            k <= b@.len(),
            from + k <= a@.len() <= usize::MAX,
            digits_before(drop(a@, from as int), b@) == digits_before(
                drop(a@, from + k),
                drop(b@, k as int),
            ),
        decreases b@.len() - k,
    {
        assert(drop(a@, from + k).drop_first() =~= drop(a@, from + k + 1));
        assert(drop(b@, k as int).drop_first() =~= drop(b@, k + 1));
        k = k + 1;
    }
    if k == b.len() {
        false
    } else if k == a.len() - from {
        true
    } else {
        assert(drop(a@, from + k)[0] == a@[from + k]);
        assert(drop(b@, k as int)[0] == b@[k as int]);
        a[from + k] < b[k]
    }
}

/// The number of leading zeros, where every character is a digit.
fn zeros_before_digits(digits: &Vec<char>) -> (r: Option<usize>)
    ensures
        match r {
            Some(n) => all_digits(digits@) && leading_zeros(digits@) == n && n <= digits@.len(),
            None => !all_digits(digits@),
        },
{
    let mut i: usize = 0;
    let mut zeros: usize = 0;
    let mut leading: bool = true;
    assert(drop(digits@, 0) =~= digits@);
    while i < digits.len()
        invariant
            i <= digits@.len(),
            zeros <= i,
            leading ==> zeros == i,
            forall|j: int| 0 <= j < i ==> is_digit(#[trigger] digits@[j]),
            leading_zeros(digits@) == zeros + (if leading {
                leading_zeros(drop(digits@, i as int))
            } else {
                0
            }),
        decreases digits@.len() - i,
    {
        let c: char = digits[i];
        if !('0' <= c && c <= '9') {
            assert(!is_digit(digits@[i as int]));
            return None;
        }
        assert(drop(digits@, i as int).drop_first() =~= drop(digits@, i + 1));
        if leading && c == '0' {
            zeros = zeros + 1;
        } else {
            leading = false;
        }
        i = i + 1;
    }
    assert(leading ==> leading_zeros(drop(digits@, i as int)) == 0);
    Some(zeros)
}

/// Exponent of a decimal, exact below a bound that no position reaches.
pub open spec fn near_exponent(given: int, exact: int) -> bool {
    let cap = 1_000_000_000_000_000_000_000_000_000_000int;
    given == exact || (given == cap && exact >= cap) || (given == -cap && exact <= -cap)
}

/// Digits, leading zeros and position of the point.
struct Decimal {
    digits: Vec<char>,
    zeros: usize,
    point: i128,
}

fn read_decimal(s: &str) -> (r: Option<Decimal>)
    ensures
        match r {
            Some(d) => decimal_parts(s@) is Some && d.zeros <= d.digits@.len() && drop(
                d.digits@,
                d.zeros as int,
            ) == decimal_parts(s@)->0.digits && (d.point == decimal_parts(s@)->0.point || (d.point
                > 309 && decimal_parts(s@)->0.point > 309) || (d.point < -323 && decimal_parts(
                s@,
            )->0.point < -323)),
            None => decimal_parts(s@) is None,
        },
{
    let body: &str = without_sign(s);
    let ghost spec_exponent = match exponent_from(body@, 0) {
        Some(i) => exponent_value(drop(body@, i + 1)),
        None => Some(0),
    };
    let _len: usize = body.unicode_len();
    let mut exponent: i128 = 0;
    let mantissa: &str = match exponent_position(body) {
        Some(i) => {
            let text: &str = slice_from(body, i + 1);
            let chars: Vec<char> = to_chars(text);
            match capped_digits(without_sign(text)) {
                Some(n) => {
                    assert(chars@.len() > 0);
                    exponent = if chars[0] == '-' {
                        -(n as i128)
                    } else {
                        n as i128
                    };
                },
                None => {
                    return None;
                },
            }
            slice(body, 0, i)
        },
        None => body,
    };
    assert(spec_exponent is Some && near_exponent(exponent as int, spec_exponent->0));
    let (integer, fraction): (&str, &str) = match find_text(mantissa, ".") {
        Some(i) => {
            proof {
                reveal_strlit(".");
            }
            (slice(mantissa, 0, i), slice_from(mantissa, i + 1))
        },
        None => (mantissa, ""),
    };
    let joined: String = cat2(integer, fraction);
    let digits: Vec<char> = to_chars(joined.as_str());
    let integer_len: usize = integer.unicode_len();
    let zeros: usize = match zeros_before_digits(&digits) {
        Some(n) => n,
        None => {
            return None;
        },
    };
    if digits.len() == 0 {
        return None;
    }
    let point: i128 = integer_len as i128 - zeros as i128 + exponent;
    Some(Decimal { digits, zeros, point })
}

fn is_below_overflow(d: &Decimal) -> (r: bool)
    requires
        d.zeros <= d.digits@.len(),
    ensures
        r == below_overflow(
            DecimalParts {
                negative: false,
                digits: drop(d.digits@, d.zeros as int),
                point: d.point as int,
            },
        ),
{
    if d.zeros == d.digits.len() || d.point < 309 {
        return true;
    }
    if d.point > 309 {
        return false;
    }
    let limit: Vec<char> = to_chars(
        "179769313486231580793728971405303415079934132710037826936173778980444968292764750946649017977587207096330286416692887910946555547851940402630657488671505820681908902000708383676273854845817711531764475730270069855571366959622842914819860834936475292719074168444365510704342711559699508093042880177904174497792",
    );
    digits_stand_before(&d.digits, d.zeros, &limit)
}

fn is_above_underflow(d: &Decimal) -> (r: bool)
    requires
        d.zeros <= d.digits@.len(),
    ensures
        r == above_underflow(
            DecimalParts {
                negative: false,
                digits: drop(d.digits@, d.zeros as int),
                point: d.point as int,
            },
        ),
{
    if d.zeros == d.digits.len() || d.point < -323 {
        return false;
    }
    if d.point > -323 {
        return true;
    }
    let limit: Vec<char> = to_chars(
        "24703282292062327208828439643411068618252990130716238221279284125033775363510437593264991818081799618989828234772285886546332835517796989819938739800539093906315035659515570226392290858392449105184435931802849936536152500319370457678249219365623669863658480757001585769269903706311928279558551332927834338409351978015531246597263579574622766465272827220056374006485499977096599470454020828166226237857393450736339007967761930577506740176324673600968951340535537458516661134223766678604162159680461914467291840300530057530849048765391711386591646239524912623653881879636239373280423891018672348497668235089863388587925628302755995657524455507255189313690836254779186948667994968324049705821028513185451396213837722826145437693412532098591327667236328125",
    );
    let significant: String = from_range(&d.digits, d.zeros, d.digits.len());
    let trimmed_digits: Vec<char> = to_chars(trimmed_end_char(significant.as_str(), '0'));
    assert(drop(limit@, 0) =~= limit@);
    digits_stand_before(&limit, 0, &trimmed_digits)
}

fn decimal_is_finite(s: &str) -> (r: bool)
    ensures
        r == is_finite_decimal(s@),
{
    match read_decimal(s) {
        Some(d) => is_below_overflow(&d),
        None => false,
    }
}

/// What a text says as a floating point number.
pub fn classify_number(s: &str) -> (r: NumberClass)
    ensures
        r == classify(s@),
{
    match read_decimal(s) {
        Some(d) => {
            let v: Vec<char> = to_chars(s);
            if !is_below_overflow(&d) {
                NumberClass::NotFinite
            } else if v.len() > 0 && v[0] == '-' && is_above_underflow(&d) {
                NumberClass::Negative
            } else {
                NumberClass::NotNegative
            }
        },
        None => {
            let word: String = lowered(without_sign(s));
            if same(word.as_str(), "inf") || same(word.as_str(), "infinity") || same(
                word.as_str(),
                "nan",
            ) {
                NumberClass::NotFinite
            } else {
                NumberClass::Malformed
            }
        },
    }
}

/// The text of a number in a manifest field, or the error that the field is invalid.
pub fn parse_manifest_number(value: &str, field: &str) -> (r: Result<String>)
    ensures
        match r {
            Ok(text) => manifest_number(value@) == Some(text@),
            Err(e) => manifest_number(value@) is None && e.deep_view() == ErrorView::Protocol(
                field@ + " is invalid"@,
            ),
        },
{
    match normalize_manifest_f64(value) {
        Some(text) => {
            if same(text.as_str(), "NaN") || decimal_is_finite(text.as_str()) {
                Ok(text)
            } else {
                let message: String = cat2(field, " is invalid");
                Err(Error::protocol(message.as_str()))
            }
        },
        None => {
            let message: String = cat2(field, " is invalid");
            Err(Error::protocol(message.as_str()))
        },
    }
}

/// A quotient rounded to the nearest integer, halfway to the even one.
pub open spec fn nearest_even(n: nat, d: nat) -> nat {
    if 2 * (n % d) > d || (2 * (n % d) == d && (n / d) % 2 == 1) {
        n / d + 1
    } else {
        n / d
    }
}

/// The distance between two neighbours among the doubles at a number of at least one; one where the
/// numbers between them are no integers.
pub open spec fn double_step(n: nat) -> nat
    decreases n,
{
    if n < 0x20_0000_0000_0000 {
        1
    } else {
        2 * double_step(n / 2)
    }
}

/// The double nearest to an integer.
pub open spec fn nearest_double(n: nat) -> nat {
    nearest_even(n, double_step(n)) * double_step(n)
}

/// How many doubles there are from a number of at least one up to the next integer.
pub open spec fn double_parts(q: nat) -> nat
    decreases 0x20_0000_0000_0000 - q,
{
    if q >= 0x10_0000_0000_0000 || q == 0 {
        1
    } else {
        2 * double_parts(2 * q)
    }
}

/// The quotient of the doubles nearest to two integers, rounded to a double, then up to an integer.
/// A quotient below one gives one at most.
pub open spec fn double_quotient_up(a: nat, b: nat) -> nat {
    let n = nearest_double(a);
    let d = nearest_double(b);
    let q = n / d;
    if q == 0 {
        1
    } else if q >= 0x10_0000_0000_0000 {
        nearest_even(n, d * double_step(q)) * double_step(q)
    } else {
        (nearest_even(n * double_parts(q), d) + double_parts(q) - 1) as nat / double_parts(q)
    }
}

proof fn lemma_double_step(n: nat)
    ensures
        1 <= double_step(n),
        n >= 1 ==> double_step(n) <= n,
    decreases n,
{
    if n >= 0x20_0000_0000_0000 {
        lemma_double_step(n / 2);
    }
}

proof fn lemma_double_parts(q: nat)
    requires
        1 <= q < 0x20_0000_0000_0000,
    ensures
        1 <= double_parts(q),
        0x10_0000_0000_0000 <= double_parts(q) * q < 0x20_0000_0000_0000,
    decreases 0x20_0000_0000_0000 - q,
{
    if q < 0x10_0000_0000_0000 {
        lemma_double_parts(2 * q);
        assert(double_parts(2 * q) * (2 * q) == 2 * double_parts(2 * q) * q) by (nonlinear_arith);
    }
}

fn step_of(n: u128) -> (r: u128)
    ensures
        r == double_step(n as nat),
    decreases n,
{
    proof {
        lemma_double_step(n as nat);
        lemma_double_step((n / 2) as nat);
    }
    if n < 0x20_0000_0000_0000 {
        1
    } else {
        2 * step_of(n / 2)
    }
}

fn parts_of(q: u128) -> (r: u128)
    requires
        1 <= q < 0x20_0000_0000_0000,
    ensures
        r == double_parts(q as nat),
        1 <= r < 0x20_0000_0000_0000,
    decreases 0x20_0000_0000_0000 - q,
{
    proof {
        lemma_double_parts(q as nat);
        assert(double_parts(q as nat) <= double_parts(q as nat) * q) by (nonlinear_arith)
            requires
                q >= 1,
        ;
    }
    if q >= 0x10_0000_0000_0000 {
        1
    } else {
        2 * parts_of(2 * q)
    }
}

pub(crate) fn round_quotient(n: u128, d: u128) -> (r: u128)
    requires
        0 < d < 0x8000_0000_0000_0000_0000_0000_0000_0000,
        n < 0x8000_0000_0000_0000_0000_0000_0000_0000,
    ensures
        r == nearest_even(n as nat, d as nat),
        r <= n / d + 1,
{
    let rest: u128 = n % d;
    let whole: u128 = n / d;
    assert(whole <= n) by (nonlinear_arith)
        requires
            whole == n / d,
            d > 0,
            n >= 0,
    ;
    if 2 * rest > d || (2 * rest == d && whole % 2 == 1) {
        whole + 1
    } else {
        whole
    }
}

pub(crate) proof fn lemma_double_of_zero()
    ensures
        nearest_double(0) == 0,
{
    assert(double_step(0) == 1);
    assert(nearest_even(0, 1) == 0);
    assert(nearest_even(0, 1) * double_step(0) == 0) by (nonlinear_arith)
        requires
            nearest_even(0, 1) == 0,
    ;
}

/// The double nearest to a number; zero for zero.
pub(crate) fn double_or_zero(n: u64) -> (r: u128)
    ensures
        r == nearest_double(n as nat),
        r <= 2 * n,
{
    if n == 0 {
        proof {
            lemma_double_of_zero();
        }
        0
    } else {
        double_of(n)
    }
}

pub(crate) fn double_of(n: u64) -> (r: u128)
    requires
        n >= 1,
    ensures
        r == nearest_double(n as nat),
        1 <= r <= 2 * n,
{
    let step: u128 = step_of(n as u128);
    proof {
        lemma_double_step(n as nat);
    }
    let k: u128 = round_quotient(n as u128, step);
    proof {
        let (n, s) = (n as int, step as int);
        assert(1 <= k && k * s <= n + s) by (nonlinear_arith)
            requires
                1 <= s <= n,
                n / s <= k <= n / s + 1,
        ;
        assert(k * s >= 1) by (nonlinear_arith)
            requires
                k >= 1,
                s >= 1,
        ;
    }
    k * step
}

/// The quotient of two integers in the arithmetic of doubles, rounded up, and one where it is below
/// one.
pub fn divide_up(a: u64, b: u64) -> (r: u128)
    requires
        a >= 1,
        b >= 1,
    ensures
        r == double_quotient_up(a as nat, b as nat),
{
    let n: u128 = double_of(a);
    let d: u128 = double_of(b);
    let q: u128 = n / d;
    if q == 0 {
        return 1;
    }
    proof {
        assert(q * d <= n) by (nonlinear_arith)
            requires
                q == n / d,
                d > 0,
        ;
    }
    if q >= 0x10_0000_0000_0000 {
        let step: u128 = step_of(q);
        proof {
            lemma_double_step(q as nat);
            assert(d * step <= n && d * step > 0) by (nonlinear_arith)
                requires
                    1 <= step <= q,
                    q * d <= n,
                    d > 0,
            ;
        }
        let k: u128 = round_quotient(n, d * step);
        proof {
            assert(k * step <= n + step) by (nonlinear_arith)
                requires
                    k <= n as int / (d * step) as int + 1,
                    d >= 1,
                    step >= 1,
                    n >= 0,
            ;
        }
        k * step
    } else {
        let parts: u128 = parts_of(q);
        proof {
            assert(n * parts <= 0x4000_0000_0000_0000_0000_0000_0000_0000 - 1) by (nonlinear_arith)
                requires
                    0 <= n <= 0x2_0000_0000_0000_0000,
                    0 <= parts < 0x20_0000_0000_0000,
            ;
        }
        let k: u128 = round_quotient(n * parts, d);
        assert(k <= n * parts + 1) by (nonlinear_arith)
            requires
                k <= (n * parts) as int / d as int + 1,
                d >= 1,
                n * parts >= 0,
        ;
        (k + parts - 1) / parts
    }
}

/// Up to 2^53 the arithmetic of doubles gives the quotient itself, rounded up.
pub proof fn law_small_quotients_are_exact(a: nat, b: nat)
    requires
        1 <= a < 0x20_0000_0000_0000,
        1 <= b < 0x20_0000_0000_0000,
    ensures
        double_quotient_up(a, b) == (a + b - 1) as nat / b,
{
    assert(nearest_even(a, 1) == a && nearest_even(b, 1) == b);
    assert(double_step(a) == 1 && double_step(b) == 1);
    assert(nearest_even(a, 1) * double_step(a) == a) by (nonlinear_arith)
        requires
            nearest_even(a, 1) == a,
            double_step(a) == 1,
    ;
    assert(nearest_even(b, 1) * double_step(b) == b) by (nonlinear_arith)
        requires
            nearest_even(b, 1) == b,
            double_step(b) == 1,
    ;
    let q = a / b;
    assert(q * b <= a && a < q * b + b && a == q * b + a % b) by (nonlinear_arith)
        requires
            q == a / b,
            b >= 1,
    ;
    if q == 0 {
        assert(a < b) by (nonlinear_arith)
            requires
                a < q * b + b,
                q == 0,
        ;
        assert((a + b - 1) as nat / b == 1) by (nonlinear_arith)
            requires
                1 <= a < b,
        ;
    } else {
        let rest = a % b;
        let up: nat = if rest == 0 {
            q
        } else {
            q + 1
        };
        assert((a + b - 1) as nat / b == up) by (nonlinear_arith)
            requires
                a == q * b + rest,
                0 <= rest < b,
                b >= 1,
                up == if rest == 0 {
                    q
                } else {
                    q + 1
                },
        ;
        if q >= 0x10_0000_0000_0000 {
            assert(b == 1) by (nonlinear_arith)
                requires
                    q * b <= a,
                    a < 0x20_0000_0000_0000,
                    q >= 0x10_0000_0000_0000,
                    b >= 1,
            ;
            assert(q == a && double_step(q) == 1);
            assert(double_quotient_up(a, b) == a);
        } else {
            lemma_double_parts(q);
            let s = double_parts(q);
            let m = nearest_even(a * s, b);
            // a * s == q * s * b + rest * s
            assert(a * s == (q * s) * b + rest * s) by (nonlinear_arith)
                requires
                    a == q * b + rest,
            ;
            let low = (rest * s) / b;
            assert(b < 2 * s) by (nonlinear_arith)
                requires
                    q * b < 0x20_0000_0000_0000,
                    s * q >= 0x10_0000_0000_0000,
                    q >= 1,
            ;
            assert((a * s) / b == q * s + low && (a * s) % b == (rest * s) % b) by {
                vstd::arithmetic::div_mod::lemma_fundamental_div_mod((rest * s) as int, b as int);
                assert(a * s == (q * s + low) * b + (rest * s) % b) by (nonlinear_arith)
                    requires
                        a * s == (q * s) * b + rest * s,
                        rest * s == b * low + (rest * s) % b,
                ;
                vstd::arithmetic::div_mod::lemma_fundamental_div_mod_converse(
                    (a * s) as int,
                    b as int,
                    (q * s + low) as int,
                    ((rest * s) % b) as int,
                );
            }
            if rest == 0 {
                assert(rest * s == 0) by (nonlinear_arith)
                    requires
                        rest == 0,
                ;
                assert(low == 0 && (rest * s) % b == 0) by (nonlinear_arith)
                    requires
                        rest * s == 0,
                        low == (rest * s) / b,
                        b >= 1,
                ;
                assert(m == q * s);
                assert((q * s + s - 1) as nat / s == q) by (nonlinear_arith)
                    requires
                        s >= 1,
                ;
            } else {
                assert(rest * s <= b * s - s) by (nonlinear_arith)
                    requires
                        rest <= b - 1,
                        s >= 1,
                ;
                assert(low < s) by (nonlinear_arith)
                    requires
                        low == (rest * s) / b,
                        rest * s <= b * s - s,
                        b >= 1,
                        s >= 1,
                ;
                if low == 0 {
                    assert((rest * s) % b == rest * s) by (nonlinear_arith)
                        requires
                            (rest * s) / b == 0,
                            b >= 1,
                    ;
                    assert(rest * s >= s) by (nonlinear_arith)
                        requires
                            rest >= 1,
                            s >= 1,
                    ;
                }
                assert(q * s < m <= q * s + s);
                assert((m + s - 1) as nat / s == q + 1) by (nonlinear_arith)
                    requires
                        q * s < m <= q * s + s,
                        s >= 1,
                ;
            }
        }
    }
}

} // verus!
