//! Base64 and hexadecimal.

use crate::text::to_chars;
use vstd::prelude::*;
use vstd::utf8::encode_utf8;

verus! {

/// Error texts of a decoder.
pub type DecodeResult = core::result::Result<Vec<u8>, &'static str>;

/// Model of a decoder's result.
pub open spec fn decoded(r: DecodeResult) -> core::result::Result<Seq<u8>, Seq<char>> {
    match r {
        Ok(v) => Ok(v@),
        Err(e) => Err(e@),
    }
}

/// White space as `u8::is_ascii_whitespace` sees it.
pub open spec fn is_ascii_space(b: u8) -> bool {
    b == 32 || b == 9 || b == 10 || b == 12 || b == 13
}

/// The number that a base64 character stands for.
pub open spec fn base64_digit(b: u8) -> Option<int> {
    if 65 <= b <= 90 {
        Some(b - 65)
    } else if 97 <= b <= 122 {
        Some(b - 97 + 26)
    } else if 48 <= b <= 57 {
        Some(b - 48 + 52)
    } else if b == 43 {
        Some(62)
    } else if b == 47 {
        Some(63)
    } else {
        None
    }
}

/// The base64 character of a number below 64.
pub open spec fn base64_byte(n: int) -> u8 {
    if n < 26 {
        (65 + n) as u8
    } else if n < 52 {
        (97 + n - 26) as u8
    } else if n < 62 {
        (48 + n - 52) as u8
    } else if n == 62 {
        43
    } else {
        47
    }
}

/// The bytes that are no white space.
pub open spec fn without_space(s: Seq<u8>) -> Seq<u8>
    decreases s.len(),
{
    if s.len() == 0 {
        s
    } else if is_ascii_space(s.last()) {
        without_space(s.drop_last())
    } else {
        without_space(s.drop_last()).push(s.last())
    }
}

/// The number of padding characters that end a group of four.
pub open spec fn padding_of(q: Seq<u8>) -> int {
    if q[3] != 61 {
        0
    } else if q[2] != 61 {
        1
    } else if q[1] != 61 {
        2
    } else {
        3
    }
}

/// The bytes of one group of four characters.
pub open spec fn decode_group(q: Seq<u8>, last: bool) -> core::result::Result<Seq<u8>, Seq<char>> {
    let padding = padding_of(q);
    if padding > 2 || (padding > 0 && !last) || q[0] == 61 || q[1] == 61 || (padding == 0 && q[2]
        == 61) {
        Err("invalid base64 padding"@)
    } else {
        match (base64_digit(q[0]), base64_digit(q[1])) {
            (Some(a), Some(b)) => if padding == 2 {
                Ok(seq![(a * 4 + b / 16) as u8])
            } else {
                match base64_digit(q[2]) {
                    None => Err("invalid base64 input"@),
                    Some(c) => if padding == 1 {
                        Ok(seq![(a * 4 + b / 16) as u8, ((b % 16) * 16 + c / 4) as u8])
                    } else {
                        match base64_digit(q[3]) {
                            None => Err("invalid base64 input"@),
                            Some(d) => Ok(
                                seq![
                                    (a * 4 + b / 16) as u8,
                                    ((b % 16) * 16 + c / 4) as u8,
                                    ((c % 4) * 64 + d) as u8,
                                ],
                            ),
                        }
                    },
                }
            },
            _ => Err("invalid base64 input"@),
        }
    }
}

/// The bytes of whole groups, the first error where there is one.
pub open spec fn decode_groups(s: Seq<u8>) -> core::result::Result<Seq<u8>, Seq<char>>
    decreases s.len(),
{
    if s.len() < 4 {
        Ok(Seq::empty())
    } else {
        match decode_group(s.subrange(0, 4), s.len() == 4) {
            Err(e) => Err(e),
            Ok(head) => match decode_groups(s.subrange(4, s.len() as int)) {
                Err(e) => Err(e),
                Ok(tail) => Ok(head + tail),
            },
        }
    }
}

/// The bytes that a base64 text stands for; white space does not count.
pub open spec fn base64_decode(s: Seq<char>) -> core::result::Result<Seq<u8>, Seq<char>> {
    let cleaned = without_space(encode_utf8(s));
    if cleaned.len() % 4 != 0 {
        Err("invalid base64 length"@)
    } else {
        decode_groups(cleaned)
    }
}

/// The base64 characters of up to three bytes, with padding.
pub open spec fn encode_group(b: Seq<u8>) -> Seq<u8> {
    if b.len() == 1 {
        seq![base64_byte(b[0] as int / 4), base64_byte((b[0] as int % 4) * 16), 61u8, 61u8]
    } else if b.len() == 2 {
        seq![
            base64_byte(b[0] as int / 4),
            base64_byte((b[0] as int % 4) * 16 + b[1] as int / 16),
            base64_byte((b[1] as int % 16) * 4),
            61u8,
        ]
    } else {
        seq![
            base64_byte(b[0] as int / 4),
            base64_byte((b[0] as int % 4) * 16 + b[1] as int / 16),
            base64_byte((b[1] as int % 16) * 4 + b[2] as int / 64),
            base64_byte(b[2] as int % 64),
        ]
    }
}

/// The base64 characters of bytes, as bytes.
pub open spec fn base64_encode_bytes(b: Seq<u8>) -> Seq<u8>
    decreases b.len(),
{
    if b.len() == 0 {
        Seq::empty()
    } else if b.len() <= 3 {
        encode_group(b)
    } else {
        encode_group(b.subrange(0, 3)) + base64_encode_bytes(b.subrange(3, b.len() as int))
    }
}

/// ASCII bytes as characters.
pub open spec fn ascii_text(b: Seq<u8>) -> Seq<char> {
    b.map_values(|x: u8| x as char)
}

/// The base64 text of bytes.
pub open spec fn base64_text(b: Seq<u8>) -> Seq<char> {
    ascii_text(base64_encode_bytes(b))
}

fn base64_value(b: u8) -> (r: Option<u32>)
    ensures
        match r {
            Some(n) => base64_digit(b) == Some(n as int) && n < 64,
            None => base64_digit(b) is None,
        },
{
    if 65 <= b && b <= 90 {
        Some((b - 65) as u32)
    } else if 97 <= b && b <= 122 {
        Some((b - 97 + 26) as u32)
    } else if 48 <= b && b <= 57 {
        Some((b - 48 + 52) as u32)
    } else if b == 43 {
        Some(62)
    } else if b == 47 {
        Some(63)
    } else {
        None
    }
}

fn base64_char(n: u32) -> (r: u8)
    requires
        n < 64,
    ensures
        r == base64_byte(n as int),
        r < 128,
{
    if n < 26 {
        65 + n as u8
    } else if n < 52 {
        97 + (n - 26) as u8
    } else if n < 62 {
        48 + (n - 52) as u8
    } else if n == 62 {
        43
    } else {
        47
    }
}

fn clean_bytes(b: &[u8]) -> (r: Vec<u8>)
    ensures
        r@ == without_space(b@),
{
    let mut out: Vec<u8> = Vec::new();
    let mut i: usize = 0;
    assert(b@.subrange(0, 0) =~= Seq::<u8>::empty());
    while i < b.len()
        invariant
            i <= b@.len(),
            out@ == without_space(b@.subrange(0, i as int)),
        decreases b@.len() - i,
    {
        let x: u8 = b[i];
        assert(b@.subrange(0, i + 1).drop_last() =~= b@.subrange(0, i as int));
        if !(x == 32 || x == 9 || x == 10 || x == 12 || x == 13) {
            out.push(x);
        }
        i = i + 1;
    }
    assert(b@.subrange(0, b@.len() as int) =~= b@);
    out
}

/// Appends the bytes of the group at `i`; `None` where it is well formed.
fn decode_group_at(v: &Vec<u8>, i: usize, out: &mut Vec<u8>) -> (r: Option<&'static str>)
    requires
        i + 4 <= v@.len(),
    ensures
        match decode_group(v@.subrange(i as int, i + 4), i + 4 == v@.len()) {
            Ok(bytes) => r is None && final(out)@ == old(out)@ + bytes,
            Err(e) => r is Some && r->0@ == e && final(out)@ == old(out)@,
        },
{
    let ghost before = out@;
    let _len: usize = v.len();
    let q0: u8 = v[i];
    let q1: u8 = v[i + 1];
    let q2: u8 = v[i + 2];
    let q3: u8 = v[i + 3];
    let last: bool = i + 4 == v.len();
    let padding: u8 = if q3 != 61 {
        0
    } else if q2 != 61 {
        1
    } else if q1 != 61 {
        2
    } else {
        3
    };
    if padding > 2 || (padding > 0 && !last) || q0 == 61 || q1 == 61 || (padding == 0 && q2 == 61) {
        return Some("invalid base64 padding");
    }
    let a: u32 = match base64_value(q0) {
        Some(n) => n,
        None => {
            return Some("invalid base64 input");
        },
    };
    let b: u32 = match base64_value(q1) {
        Some(n) => n,
        None => {
            return Some("invalid base64 input");
        },
    };
    let x0: u8 = (a * 4 + b / 16) as u8;
    if padding == 2 {
        out.push(x0);
        assert(out@ =~= before + seq![x0]);
        return None;
    }
    let c: u32 = match base64_value(q2) {
        Some(n) => n,
        None => {
            return Some("invalid base64 input");
        },
    };
    let x1: u8 = ((b % 16) * 16 + c / 4) as u8;
    if padding == 1 {
        out.push(x0);
        out.push(x1);
        assert(out@ =~= before + seq![x0, x1]);
        return None;
    }
    let d: u32 = match base64_value(q3) {
        Some(n) => n,
        None => {
            return Some("invalid base64 input");
        },
    };
    let x2: u8 = ((c % 4) * 64 + d) as u8;
    out.push(x0);
    out.push(x1);
    out.push(x2);
    assert(out@ =~= before + seq![x0, x1, x2]);
    None
}

/// The bytes that a base64 text stands for; white space does not count.
pub fn decode_base64(value: &str) -> (r: DecodeResult)
    ensures
        decoded(r) == base64_decode(value@),
{
    let v: Vec<u8> = clean_bytes(value.as_bytes());
    if v.len() % 4 != 0 {
        return Err("invalid base64 length");
    }
    let mut out: Vec<u8> = Vec::new();
    let mut i: usize = 0;
    let ghost whole = decode_groups(v@);
    assert(v@.subrange(0, v@.len() as int) =~= v@);
    assert(match decode_groups(v@) {
        Ok(t) => out@ + t =~= t,
        Err(_) => true,
    });
    while i < v.len()
        invariant
            i <= v@.len(),
            v@.len() % 4 == 0,
            i % 4 == 0,
            whole == decode_groups(v@),
            v@ == without_space(encode_utf8(value@)),
            whole == match decode_groups(v@.subrange(i as int, v@.len() as int)) {
                Ok(t) => Ok(out@ + t),
                Err(e) => Err(e),
            },
        decreases v@.len() - i,
    {
        let ghost rest = v@.subrange(i as int, v@.len() as int);
        let ghost before = out@;
        assert(rest.subrange(0, 4) =~= v@.subrange(i as int, i + 4));
        assert(rest.subrange(4, rest.len() as int) =~= v@.subrange(i + 4, v@.len() as int));
        match decode_group_at(&v, i, &mut out) {
            Some(e) => {
                return Err(e);
            },
            None => {},
        }
        i = i + 4;
        proof {
            let head = decode_group(rest.subrange(0, 4), rest.len() == 4)->Ok_0;
            match decode_groups(v@.subrange(i as int, v@.len() as int)) {
                Ok(t) => {
                    assert(before + (head + t) =~= out@ + t);
                },
                Err(_) => {},
            }
        }
    }
    assert(out@ + Seq::<u8>::empty() =~= out@);
    Ok(out)
}

/// The base64 text of bytes.
pub fn base64_encode(b: &Vec<u8>) -> (r: String)
    ensures
        r@ == base64_text(b@),
{
    let mut out: String = String::new();
    let mut i: usize = 0;
    assert(b@.subrange(0, b@.len() as int) =~= b@);
    assert(out@ + ascii_text(base64_encode_bytes(b@)) =~= base64_text(b@));
    while i < b.len()
        invariant
            i <= b@.len(),
            out@ + ascii_text(base64_encode_bytes(b@.subrange(i as int, b@.len() as int)))
                == base64_text(b@),
        decreases b@.len() - i,
    {
        let ghost rest = b@.subrange(i as int, b@.len() as int);
        let ghost before = out@;
        let left: usize = b.len() - i;
        let x0: u32 = b[i] as u32;
        let x1: u32 = if left > 1 {
            b[i + 1] as u32
        } else {
            0
        };
        let x2: u32 = if left > 2 {
            b[i + 2] as u32
        } else {
            0
        };
        out.push(base64_char(x0 / 4) as char);
        out.push(base64_char((x0 % 4) * 16 + x1 / 16) as char);
        if left > 1 {
            out.push(base64_char((x1 % 16) * 4 + x2 / 64) as char);
        } else {
            out.push('=');
        }
        if left > 2 {
            out.push(base64_char(x2 % 64) as char);
        } else {
            out.push('=');
        }
        let step: usize = if left < 3 {
            left
        } else {
            3
        };
        let ghost group = rest.subrange(0, step as int);
        assert(61u8 as char == '=');
        assert(out@ =~= before + ascii_text(encode_group(group)));
        if left <= 3 {
            assert(group =~= rest);
            assert(b@.subrange(i + step, b@.len() as int) =~= Seq::<u8>::empty());
        } else {
            assert(rest.subrange(3, rest.len() as int) =~= b@.subrange(i + 3, b@.len() as int));
        }
        i = i + step;
        assert(out@ + ascii_text(base64_encode_bytes(b@.subrange(i as int, b@.len() as int)))
            =~= before + ascii_text(base64_encode_bytes(rest)));
    }
    assert(out@ + ascii_text(Seq::<u8>::empty()) =~= out@);
    out
}

proof fn lemma_digit_round_trip(n: int)
    requires
        0 <= n < 64,
    ensures
        base64_digit(base64_byte(n)) == Some(n),
        base64_byte(n) != 61,
        !is_ascii_space(base64_byte(n)),
        base64_byte(n) < 128,
{
}

proof fn lemma_group_round_trip(b: Seq<u8>, last: bool)
    requires
        1 <= b.len() <= 3,
        b.len() < 3 ==> last,
    ensures
        decode_group(encode_group(b), last) == Ok::<Seq<u8>, Seq<char>>(b),
{
    let x0 = b[0] as int;
    lemma_digit_round_trip(x0 / 4);
    if b.len() == 1 {
        lemma_digit_round_trip((x0 % 4) * 16);
        assert((((x0 / 4) * 4 + ((x0 % 4) * 16) / 16) as u8) == b[0]);
        assert(decode_group(encode_group(b), last)->Ok_0 =~= b);
    } else {
        let x1 = b[1] as int;
        lemma_digit_round_trip((x0 % 4) * 16 + x1 / 16);
        assert(((x0 / 4) * 4 + ((x0 % 4) * 16 + x1 / 16) / 16) == x0);
        if b.len() == 2 {
            lemma_digit_round_trip((x1 % 16) * 4);
            assert((((x0 % 4) * 16 + x1 / 16) % 16) * 16 + ((x1 % 16) * 4) / 4 == x1);
            assert(decode_group(encode_group(b), last)->Ok_0 =~= b);
        } else {
            let x2 = b[2] as int;
            lemma_digit_round_trip((x1 % 16) * 4 + x2 / 64);
            lemma_digit_round_trip(x2 % 64);
            assert((((x0 % 4) * 16 + x1 / 16) % 16) * 16 + ((x1 % 16) * 4 + x2 / 64) / 4 == x1);
            assert((((x1 % 16) * 4 + x2 / 64) % 4) * 64 + x2 % 64 == x2);
            assert(decode_group(encode_group(b), last)->Ok_0 =~= b);
        }
    }
}

#[verifier::spinoff_prover]
#[verifier::rlimit(40)]
proof fn lemma_groups_round_trip(b: Seq<u8>)
    ensures
        base64_encode_bytes(b).len() % 4 == 0,
        decode_groups(base64_encode_bytes(b)) == Ok::<Seq<u8>, Seq<char>>(b),
        forall|i: int|
            0 <= i < base64_encode_bytes(b).len() ==> !is_ascii_space(
                #[trigger] base64_encode_bytes(b)[i],
            ) && base64_encode_bytes(b)[i] < 128,
    decreases b.len(),
{
    let e = base64_encode_bytes(b);
    if b.len() == 0 {
        assert(decode_groups(e)->Ok_0 =~= b);
    } else if b.len() <= 3 {
        lemma_group_round_trip(b, true);
        assert(e.subrange(0, 4) =~= e);
        assert(e.subrange(4, 4) =~= Seq::<u8>::empty());
        assert(decode_groups(e.subrange(4, 4)) == Ok::<Seq<u8>, Seq<char>>(Seq::empty()));
        assert(decode_groups(e)->Ok_0 =~= b);
        lemma_group_bytes(b);
    } else {
        let head = b.subrange(0, 3);
        let tail = b.subrange(3, b.len() as int);
        lemma_groups_round_trip(tail);
        lemma_group_round_trip(head, false);
        lemma_group_bytes(head);
        let t = base64_encode_bytes(tail);
        assert(t.len() > 0);
        assert(e =~= encode_group(head) + t);
        assert(e.subrange(0, 4) =~= encode_group(head));
        assert(e.subrange(4, e.len() as int) =~= t);
        assert(head + tail =~= b);
        assert forall|i: int| 0 <= i < e.len() implies !is_ascii_space(#[trigger] e[i]) && e[i] < 128 by {
            if i >= 4 {
                assert(e[i] == t[i - 4]);
            } else {
                assert(e[i] == encode_group(head)[i]);
            }
        }
    }
}

proof fn lemma_group_bytes(b: Seq<u8>)
    requires
        1 <= b.len() <= 3,
    ensures
        forall|i: int|
            0 <= i < 4 ==> !is_ascii_space(#[trigger] encode_group(b)[i]) && encode_group(b)[i]
                < 128,
{
}

proof fn lemma_clean_is_whole(s: Seq<u8>)
    requires
        forall|i: int| 0 <= i < s.len() ==> !is_ascii_space(#[trigger] s[i]),
    ensures
        without_space(s) == s,
    decreases s.len(),
{
    if s.len() > 0 {
        assert(!is_ascii_space(s[s.len() - 1]));
        assert forall|i: int| 0 <= i < s.len() - 1 implies !is_ascii_space(
            #[trigger] s.drop_last()[i],
        ) by {
            assert(s.drop_last()[i] == s[i]);
        }
        lemma_clean_is_whole(s.drop_last());
        assert(s.drop_last().push(s.last()) =~= s);
    }
}

/// Decoding the base64 text of bytes gives the bytes back.
pub proof fn law_base64_round_trip(b: Seq<u8>)
    ensures
        base64_decode(base64_text(b)) == Ok::<Seq<u8>, Seq<char>>(b),
{
    let e = base64_encode_bytes(b);
    lemma_groups_round_trip(b);
    lemma_clean_is_whole(e);
    let t = base64_text(b);
    assert forall|i: int| 0 <= i < t.len() implies 0 <= #[trigger] t[i] as u32 && (t[i] as u32) < 128 by {
        assert(t[i] == e[i] as char);
    }
    vstd::utf8::is_ascii_chars_encode_utf8(t);
    assert(encode_utf8(t) =~= e);
}

/// The value of a hexadecimal digit.
pub open spec fn hex_digit(c: char) -> Option<int> {
    if '0' <= c && c <= '9' {
        Some(c as u32 - 48)
    } else if 'a' <= c && c <= 'f' {
        Some(c as u32 - 97 + 10)
    } else if 'A' <= c && c <= 'F' {
        Some(c as u32 - 65 + 10)
    } else {
        None
    }
}

/// What a run of hexadecimal digits turned out to be.
pub enum HexRun {
    Bytes(Vec<u8>),
    /// A last digit without a partner.
    Odd,
    /// A character that is no digit.
    Bad,
}

/// Model of `HexRun`.
pub enum HexRunView {
    Bytes(Seq<u8>),
    Odd,
    Bad,
}

impl DeepView for HexRun {
    type V = HexRunView;

    open spec fn deep_view(&self) -> HexRunView {
        match self {
            HexRun::Bytes(v) => HexRunView::Bytes(v@),
            HexRun::Odd => HexRunView::Odd,
            HexRun::Bad => HexRunView::Bad,
        }
    }
}

/// The bytes that pairs of digits stand for, left to right.
pub open spec fn hex_pairs(s: Seq<char>) -> HexRunView
    decreases s.len(),
{
    if s.len() == 0 {
        HexRunView::Bytes(Seq::empty())
    } else if s.len() == 1 {
        HexRunView::Odd
    } else {
        match (hex_digit(s[0]), hex_digit(s[1])) {
            (Some(a), Some(b)) => match hex_pairs(s.subrange(2, s.len() as int)) {
                HexRunView::Bytes(tail) => HexRunView::Bytes(seq![(a * 16 + b) as u8] + tail),
                other => other,
            },
            _ => HexRunView::Bad,
        }
    }
}

pub fn hex_value(c: char) -> (r: Option<u8>)
    ensures
        match r {
            Some(n) => hex_digit(c) == Some(n as int) && n < 16,
            None => hex_digit(c) is None,
        },
{
    if '0' <= c && c <= '9' {
        Some((c as u32 - 48) as u8)
    } else if 'a' <= c && c <= 'f' {
        Some((c as u32 - 97 + 10) as u8)
    } else if 'A' <= c && c <= 'F' {
        Some((c as u32 - 65 + 10) as u8)
    } else {
        None
    }
}

/// The bytes that pairs of digits stand for, left to right.
pub fn decode_hex_pairs(value: &str) -> (r: HexRun)
    ensures
        r.deep_view() == hex_pairs(value@),
{
    let v: Vec<char> = to_chars(value);
    let mut out: Vec<u8> = Vec::new();
    let mut i: usize = 0;
    assert(v@.subrange(0, v@.len() as int) =~= v@);
    assert(hex_pairs(v@) is Bytes ==> out@ + hex_pairs(v@)->Bytes_0 =~= hex_pairs(v@)->Bytes_0);
    while i < v.len()
        invariant
            i <= v@.len() <= usize::MAX,
            v@ == value@,
            hex_pairs(v@) == match hex_pairs(v@.subrange(i as int, v@.len() as int)) {
                HexRunView::Bytes(tail) => HexRunView::Bytes(out@ + tail),
                other => other,
            },
        decreases v@.len() - i,
    {
        let ghost rest = v@.subrange(i as int, v@.len() as int);
        let ghost before = out@;
        if v.len() - i == 1 {
            return HexRun::Odd;
        }
        let a: u8 = match hex_value(v[i]) {
            Some(n) => n,
            None => {
                return HexRun::Bad;
            },
        };
        let b: u8 = match hex_value(v[i + 1]) {
            Some(n) => n,
            None => {
                return HexRun::Bad;
            },
        };
        out.push(a * 16 + b);
        i = i + 2;
        proof {
            let next = v@.subrange(i as int, v@.len() as int);
            assert(rest.subrange(2, rest.len() as int) =~= next);
            if hex_pairs(next) is Bytes {
                let tail = hex_pairs(next)->Bytes_0;
                assert(before + (seq![(a * 16 + b) as u8] + tail) =~= out@ + tail);
            }
        }
    }
    assert(out@ + Seq::<u8>::empty() =~= out@);
    HexRun::Bytes(out)
}

/// The character of a hexadecimal digit.
pub open spec fn hex_char(n: int, upper: bool) -> char {
    if n < 10 {
        ((48 + n) as u8) as char
    } else if upper {
        ((55 + n) as u8) as char
    } else {
        ((87 + n) as u8) as char
    }
}

/// Two digits for each byte.
pub open spec fn hex_text(b: Seq<u8>, upper: bool) -> Seq<char>
    decreases b.len(),
{
    if b.len() == 0 {
        Seq::empty()
    } else {
        hex_text(b.drop_last(), upper).push(hex_char(b.last() as int / 16, upper)).push(
            hex_char(b.last() as int % 16, upper),
        )
    }
}

pub(crate) fn hex_digit_char(n: u8, upper: bool) -> (r: char)
    requires
        n < 16,
    ensures
        r == hex_char(n as int, upper),
{
    if n < 10 {
        (48 + n) as char
    } else if upper {
        (55 + n) as char
    } else {
        (87 + n) as char
    }
}

/// Two digits for each byte.
pub fn bytes_to_hex(b: &Vec<u8>, upper: bool) -> (r: String)
    ensures
        r@ == hex_text(b@, upper),
{
    let mut out: String = String::new();
    let mut i: usize = 0;
    assert(b@.subrange(0, 0) =~= Seq::<u8>::empty());
    while i < b.len()
        invariant
            i <= b@.len(),
            out@ == hex_text(b@.subrange(0, i as int), upper),
        decreases b@.len() - i,
    {
        assert(b@.subrange(0, i + 1).drop_last() =~= b@.subrange(0, i as int));
        out.push(hex_digit_char(b[i] / 16, upper));
        out.push(hex_digit_char(b[i] % 16, upper));
        i = i + 1;
    }
    assert(b@.subrange(0, b@.len() as int) =~= b@);
    out
}

proof fn lemma_hex_first(b: Seq<u8>, upper: bool)
    requires
        b.len() > 0,
    ensures
        hex_text(b, upper) == seq![
            hex_char(b[0] as int / 16, upper),
            hex_char(b[0] as int % 16, upper),
        ] + hex_text(b.drop_first(), upper),
    decreases b.len(),
{
    if b.len() == 1 {
        assert(b.drop_last() =~= Seq::<u8>::empty());
        assert(b.drop_first() =~= Seq::<u8>::empty());
        assert(hex_text(b.drop_last(), upper) =~= Seq::<char>::empty());
        assert(hex_text(b, upper) =~= seq![
            hex_char(b[0] as int / 16, upper),
            hex_char(b[0] as int % 16, upper),
        ] + hex_text(b.drop_first(), upper));
    } else {
        lemma_hex_first(b.drop_last(), upper);
        assert(b.drop_last().drop_first() =~= b.drop_first().drop_last());
        assert(hex_text(b, upper) =~= seq![
            hex_char(b[0] as int / 16, upper),
            hex_char(b[0] as int % 16, upper),
        ] + hex_text(b.drop_first(), upper));
    }
}

/// Decoding the hexadecimal text of bytes gives the bytes back.
pub proof fn law_hex_round_trip(b: Seq<u8>, upper: bool)
    ensures
        hex_pairs(hex_text(b, upper)) == HexRunView::Bytes(b),
    decreases b.len(),
{
    let t = hex_text(b, upper);
    if b.len() == 0 {
        assert(hex_pairs(t)->Bytes_0 =~= b);
    } else {
        lemma_hex_first(b, upper);
        law_hex_round_trip(b.drop_first(), upper);
        assert(t.subrange(2, t.len() as int) =~= hex_text(b.drop_first(), upper));
        assert(hex_digit(t[0]) == Some(b[0] as int / 16));
        assert(hex_digit(t[1]) == Some(b[0] as int % 16));
        assert(seq![b[0]] + b.drop_first() =~= b);
    }
}

} // verus!
