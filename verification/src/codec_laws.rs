//! What bytes and numbers look like when they are written.

use crate::boxes::{be, be_value};
use crate::codec::{base64_byte, base64_digit, encode_group, hex_char, hex_digit, hex_text};
use crate::datetime::{civil_days, month_days};
use crate::hls::iv_of;
use crate::text::{dec, digit_char, digits_value};
use crate::url::{form_escape, is_form_plain};
use vstd::prelude::*;

verus! {

/// Another digit behind a number makes it ten times as large, and adds the digit.
pub proof fn law_digits_follow(n: nat, d: nat)
    requires
        d < 10,
        n > 0,
    ensures
        dec(10 * n + d) == dec(n).push((('0' as u32 + d) as u32) as char),
        d == 0 || dec(d) == seq![(('0' as u32 + d) as u32) as char],
        dec(0) == seq!['0'],
{
    assert((10 * n + d) / 10 == n);
    assert((10 * n + d) % 10 == d);
    assert(digit_char(d as int) == (('0' as u32 + d) as u32) as char);
}

/// The number that digits write grows in the same way.
pub proof fn law_digits_are_worth(s: Seq<char>, d: nat)
    requires
        d < 10,
    ensures
        digits_value(s.push((('0' as u32 + d) as u32) as char)) == 10 * digits_value(s) + d,
{
    let c = (('0' as u32 + d) as u32) as char;
    assert(s.push(c).drop_last() =~= s);
}

/// A byte in hexadecimal is its two digits, the higher first: `0` to `9`, then letters.
pub proof fn law_bytes_in_hexadecimal(b: Seq<u8>, x: u8)
    ensures
        hex_text(b.push(x), false) == hex_text(b, false) + seq![
            hex_char(x as int / 16, false),
            hex_char(x as int % 16, false),
        ],
        forall|n: int| 0 <= n < 10 ==> #[trigger] hex_char(n, false) as u32 == '0' as u32 + n,
        forall|n: int| 10 <= n < 16 ==> #[trigger] hex_char(n, false) as u32 == 'a' as u32 + n - 10,
        forall|n: int| 10 <= n < 16 ==> #[trigger] hex_char(n, true) as u32 == 'A' as u32 + n - 10,
        hex_digit('0') == Some(0int) && hex_digit('9') == Some(9int) && hex_digit('a') == Some(10int)
            && hex_digit('F') == Some(15int) && hex_digit('g') is None,
{
    assert(b.push(x).drop_last() =~= b);
    assert(hex_text(b.push(x), false) =~= hex_text(b, false) + seq![
        hex_char(x as int / 16, false),
        hex_char(x as int % 16, false),
    ]);
}

/// The letters, the digits, the plus sign and the slash of base64, in this order.
pub proof fn law_base64_alphabet(n: int)
    requires
        0 <= n < 64,
    ensures
        n < 26 ==> base64_byte(n) == 'A' as u32 + n,
        26 <= n < 52 ==> base64_byte(n) == 'a' as u32 + n - 26,
        52 <= n < 62 ==> base64_byte(n) == '0' as u32 + n - 52,
        n == 62 ==> base64_byte(n) == '+' as u32,
        n == 63 ==> base64_byte(n) == '/' as u32,
        base64_digit(base64_byte(n)) == Some(n),
{
}

/// Three bytes make one number, of which base64 writes the four digits to the base 64; what is missing
/// of a group is written with equals signs.
pub proof fn law_base64_groups(a: u8, b: u8, c: u8)
    ensures
        ({
            let g = encode_group(seq![a, b, c]);
            &&& g.len() == 4
            &&& forall|i: int| 0 <= i < 4 ==> base64_digit(#[trigger] g[i]) is Some
            &&& ((base64_digit(g[0])->0 * 64 + base64_digit(g[1])->0) * 64 + base64_digit(g[2])->0)
                * 64 + base64_digit(g[3])->0 == (a * 256 + b) * 256 + c
        }),
        encode_group(seq![a, b]).take(2) == encode_group(seq![a, b, 0u8]).take(2),
        encode_group(seq![a, b])[3] == '=' as u32,
        encode_group(seq![a])[2] == '=' as u32 && encode_group(seq![a])[3] == '=' as u32,
{
    let g = encode_group(seq![a, b, c]);
    let n0 = a as int / 4;
    let n1 = (a as int % 4) * 16 + b as int / 16;
    let n2 = (b as int % 16) * 4 + c as int / 64;
    let n3 = c as int % 64;
    law_base64_alphabet(n0);
    law_base64_alphabet(n1);
    law_base64_alphabet(n2);
    law_base64_alphabet(n3);
    assert(g =~= seq![base64_byte(n0), base64_byte(n1), base64_byte(n2), base64_byte(n3)]);
    assert forall|i: int| 0 <= i < 4 implies base64_digit(#[trigger] g[i]) is Some by {
        if i == 0 {
        } else if i == 1 {
        } else if i == 2 {
        } else {
        }
    }
    assert(encode_group(seq![a, b]).take(2) =~= encode_group(seq![a, b, 0u8]).take(2));
}

/// The first byte of a number is worth the most.
pub proof fn law_first_byte_is_worth_most(a: u8, b: u8)
    ensures
        be_value(seq![a, b]) == a * 256 + b,
        be((a * 256 + b) as int, 2) == seq![a, b],
{
    reveal_with_fuel(be_value, 3);
    reveal_with_fuel(be, 3);
    assert(seq![a, b].drop_last() =~= seq![a]);
    assert(seq![a].drop_last() =~= Seq::<u8>::empty());
    let n = (a * 256 + b) as int;
    assert(n / 256 == a && n % 256 == b);
    assert(be(n, 2) =~= seq![a, b]);
}

/// A vector that is a number ends with the lowest byte of the number, and begins with zeros.
pub proof fn law_vectors_end_with_the_number(n: int)
    requires
        0 <= n <= i64::MAX,
    ensures
        iv_of(n).len() == 16,
        iv_of(n)[15] == n % 256,
        iv_of(n)[14] == n / 256 % 256,
        forall|i: int| 0 <= i < 8 ==> #[trigger] iv_of(n)[i] == 0,
{
    reveal_with_fuel(crate::hls::pow256, 3);
    assert(n % 0x1_0000_0000_0000_0000 == n);
    assert(n / 1 == n);
}

/// In a form, letters and digits stay, a space is a plus sign, and any other byte is a percent sign
/// with its two hexadecimal digits.
pub proof fn law_form_escapes(b: u8)
    ensures
        'a' as u32 <= b <= 'z' as u32 || 'A' as u32 <= b <= 'Z' as u32 || '0' as u32 <= b
            <= '9' as u32 ==> form_escape(b) == seq![b],
        b == ' ' as u32 ==> form_escape(b).len() == 1 && form_escape(b)[0] == '+' as u32,
        b == '&' as u32 || b == '=' as u32 || b == '%' as u32 || b == '+' as u32 || b >= 128
            ==> form_escape(b).len() == 3 && form_escape(b)[0] == '%' as u32 && hex_digit(
            form_escape(b)[1] as char,
        ) == Some(b as int / 16) && hex_digit(form_escape(b)[2] as char) == Some(b as int % 16),
        !is_form_plain(' ' as u8),
{
}

/// Days are counted from the first of January 1970, one after the other.
pub proof fn law_days_are_counted(year: int, month: int, day: int)
    ensures
        civil_days(1970, 1, 1) == 0,
        civil_days(year, month, day + 1) == civil_days(year, month, day) + 1,
        month_days(2000, 2) == 29 && month_days(1900, 2) == 28 && month_days(2024, 2) == 29
            && month_days(2023, 2) == 28,
        month_days(year, 1) == 31 && month_days(year, 4) == 30 && month_days(year, 12) == 31,
{
}

} // verus!
