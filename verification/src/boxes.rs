//! Bytes in big endian order, and the boxes of MP4 files.

use vstd::prelude::*;
use vstd::utf8::encode_utf8;

verus! {

/// The lowest `width` bytes of a number, the highest of them first.
pub open spec fn be(n: int, width: nat) -> Seq<u8>
    decreases width,
{
    if width == 0 {
        Seq::empty()
    } else {
        be(n / 256, (width - 1) as nat).push((n % 256) as u8)
    }
}

/// The number that bytes write, the highest of them first.
pub open spec fn be_value(b: Seq<u8>) -> int
    decreases b.len(),
{
    if b.len() == 0 {
        0
    } else {
        be_value(b.drop_last()) * 256 + b.last()
    }
}

/// As many bytes as stated.
pub proof fn lemma_be_len(n: int, width: nat)
    ensures
        be(n, width).len() == width,
    decreases width,
{
    if width > 0 {
        lemma_be_len(n / 256, (width - 1) as nat);
    }
}

/// 256 to a power.
pub open spec fn bytes_range(width: nat) -> int
    decreases width,
{
    if width == 0 {
        1
    } else {
        256 * bytes_range((width - 1) as nat)
    }
}

/// A number that fits is found again in its bytes.
pub proof fn law_be_round_trip(n: int, width: nat)
    requires
        0 <= n < bytes_range(width),
    ensures
        be_value(be(n, width)) == n,
    decreases width,
{
    if width > 0 {
        lemma_be_len(n / 256, (width - 1) as nat);
        assert(n / 256 < bytes_range((width - 1) as nat)) by (nonlinear_arith)
            requires
                n < 256 * bytes_range((width - 1) as nat),
        ;
        law_be_round_trip(n / 256, (width - 1) as nat);
        assert(be(n, width).drop_last() =~= be(n / 256, (width - 1) as nat));
    }
}

/// Appends the two bytes of a number.
pub fn push_u16(out: &mut Vec<u8>, value: u16)
    ensures
        final(out)@ == old(out)@ + be(value as int, 2),
{
    reveal_with_fuel(be, 3);
    out.push((value / 256) as u8);
    out.push((value % 256) as u8);
    assert(out@ =~= old(out)@ + be(value as int, 2));
}

/// Appends the four bytes of a number.
pub fn push_u32(out: &mut Vec<u8>, value: u32)
    ensures
        final(out)@ == old(out)@ + be(value as int, 4),
{
    reveal_with_fuel(be, 5);
    let ghost v = value as int;
    assert(v / 256 / 256 == v / 65536 && v / 65536 / 256 == v / 16777216 && v / 16777216 < 256);
    out.push((value / 16777216) as u8);
    out.push((value / 65536 % 256) as u8);
    out.push((value / 256 % 256) as u8);
    out.push((value % 256) as u8);
    assert(out@ =~= old(out)@ + be(v, 4));
}

proof fn lemma_be_split(n: int, high: nat, low: nat)
    requires
        n >= 0,
    ensures
        be(n, high + low) == be(n / bytes_range(low), high) + be(n, low),
    decreases low,
{
    if low == 0 {
        assert(n / 1 == n);
        assert(be(n, high) + be(n, 0) =~= be(n, high));
    } else {
        let less = (low - 1) as nat;
        lemma_be_split(n / 256, high, less);
        lemma_range_positive(less);
        assert((n / 256) / bytes_range(less) == n / bytes_range(low)) by {
            vstd::arithmetic::div_mod::lemma_div_denominator(n, 256, bytes_range(less));
        }
        assert((high + low - 1) as nat == high + less);
        assert(be(n, high + low) =~= be(n / bytes_range(low), high) + be(n, low));
    }
}

proof fn lemma_range_positive(width: nat)
    ensures
        bytes_range(width) > 0,
    decreases width,
{
    if width > 0 {
        lemma_range_positive((width - 1) as nat);
    }
}

/// Appends the eight bytes of a number.
pub fn push_u64(out: &mut Vec<u8>, value: u64)
    ensures
        final(out)@ == old(out)@ + be(value as int, 8),
{
    let ghost start = out@;
    let high: u32 = (value / 4_294_967_296) as u32;
    let low: u32 = (value % 4_294_967_296) as u32;
    push_u32(out, high);
    push_u32(out, low);
    proof {
        reveal_with_fuel(bytes_range, 5);
        lemma_be_split(value as int, 4, 4);
        lemma_be_low(value as int, low as int);
        assert(start + be(high as int, 4) + be(low as int, 4) =~= start + (be(high as int, 4) + be(
            low as int,
            4,
        )));
    }
}

pub(crate) proof fn lemma_be_low(n: int, low: int)
    requires
        low == n % 4_294_967_296,
    ensures
        be(low, 4) == be(n, 4),
{
    let k = n / 4_294_967_296;
    assert(n == k * 4_294_967_296 + low);
    assert(n / 256 == k * 16_777_216 + low / 256);
    assert(n / 256 / 256 == k * 65_536 + low / 256 / 256);
    assert(n / 256 / 256 / 256 == k * 256 + low / 256 / 256 / 256);
    assert(be(n / 256 / 256 / 256 / 256, 0) == be(low / 256 / 256 / 256 / 256, 0));
    assert(be(n / 256 / 256 / 256, 1) == be(low / 256 / 256 / 256, 1));
    assert(be(n / 256 / 256, 2) == be(low / 256 / 256, 2));
    assert(be(n / 256, 3) == be(low / 256, 3));
}

pub(crate) proof fn lemma_be_low_two(n: int, low: int)
    requires
        low == n % 65_536,
    ensures
        be(low, 2) == be(n, 2),
{
    assert(n / 256 == (n / 65_536) * 256 + low / 256);
    assert(be(n / 256 / 256, 0) == be(low / 256 / 256, 0));
    assert(be(n / 256, 1) == be(low / 256, 1));
}

/// Appends bytes.
pub fn push_all(out: &mut Vec<u8>, bytes: &[u8])
    ensures
        final(out)@ == old(out)@ + bytes@,
{
    let ghost start = out@;
    let mut i: usize = 0;
    while i < bytes.len()
        invariant
            i <= bytes@.len(),
            out@ =~= start + bytes@.subrange(0, i as int),
        decreases bytes@.len() - i,
    {
        out.push(bytes[i]);
        i = i + 1;
    }
    assert(bytes@.subrange(0, bytes@.len() as int) =~= bytes@);
}

/// Appends the bytes of a text in UTF-8.
pub fn push_text(out: &mut Vec<u8>, text: &str)
    ensures
        final(out)@ == old(out)@ + encode_utf8(text@),
{
    push_all(out, text.as_bytes());
}

/// A run of zeros.
pub open spec fn zeros(n: nat) -> Seq<u8> {
    Seq::new(n, |i: int| 0u8)
}

/// Appends a run of zeros.
pub fn push_zeros(out: &mut Vec<u8>, n: usize)
    ensures
        final(out)@ == old(out)@ + zeros(n as nat),
{
    let ghost start = out@;
    let mut i: usize = 0;
    while i < n
        invariant
            i <= n,
            out@ =~= start + zeros(i as nat),
        decreases n - i,
    {
        out.push(0u8);
        i = i + 1;
    }
}

/// A number cut to 32 bits.
pub open spec fn capped_u32(n: int) -> int {
    if n > u32::MAX {
        u32::MAX as int
    } else {
        n
    }
}

/// The first four bytes.
pub open spec fn first_four(b: Seq<u8>) -> Seq<u8> {
    if b.len() > 4 {
        b.subrange(0, 4)
    } else {
        b
    }
}

/// A box: its length, its kind and what it holds.
pub open spec fn boxed(kind: Seq<char>, payload: Seq<u8>) -> Seq<u8> {
    Seq::<u8>::empty() + be(capped_u32(payload.len() as int + 8), 4) + first_four(encode_utf8(kind))
        + payload
}

/// A box with a version and flags.
pub open spec fn full_boxed(kind: Seq<char>, version: u8, flags: int, payload: Seq<u8>) -> Seq<u8> {
    boxed(kind, Seq::<u8>::empty().push(version) + be(flags, 3) + payload)
}

/// A box.
pub fn box_bytes(kind: &str, payload: Vec<u8>) -> (r: Vec<u8>)
    ensures
        r@ == boxed(kind@, payload@),
{
    let mut out: Vec<u8> = Vec::new();
    let length: u32 = if payload.len() <= 4_294_967_287 {
        (payload.len() + 8) as u32
    } else {
        u32::MAX
    };
    push_u32(&mut out, length);
    let name: &[u8] = kind.as_bytes();
    let ghost start = out@;
    let mut i: usize = 0;
    while i < name.len() && i < 4
        invariant
            i <= name@.len(),
            i <= 4,
            out@ =~= start + name@.subrange(0, i as int),
        decreases name@.len() - i,
    {
        out.push(name[i]);
        i = i + 1;
    }
    assert(out@ =~= start + first_four(name@));
    push_all(&mut out, payload.as_slice());
    out
}

/// A box with a version and flags.
pub fn full_box(kind: &str, version: u8, flags: u32, payload: Vec<u8>) -> (r: Vec<u8>)
    ensures
        r@ == full_boxed(kind@, version, flags as int, payload@),
{
    let mut out: Vec<u8> = Vec::new();
    out.push(version);
    let ghost start = out@;
    out.push((flags / 65536 % 256) as u8);
    out.push((flags / 256 % 256) as u8);
    out.push((flags % 256) as u8);
    proof {
        reveal_with_fuel(be, 4);
        let f = flags as int;
        assert(f / 256 / 256 == f / 65536);
        assert(out@ =~= start + be(f, 3));
    }
    push_all(&mut out, payload.as_slice());
    box_bytes(kind, out)
}

/// A box begins with its own length, where that fits in 32 bits, and its kind of four bytes.
pub proof fn law_box_states_its_length(kind: Seq<char>, payload: Seq<u8>)
    requires
        encode_utf8(kind).len() == 4,
        payload.len() + 8 <= u32::MAX,
    ensures
        boxed(kind, payload).len() == payload.len() + 8,
        be_value(boxed(kind, payload).subrange(0, 4)) == boxed(kind, payload).len(),
        boxed(kind, payload).subrange(4, 8) == encode_utf8(kind),
        boxed(kind, payload).skip(8) == payload,
{
    let n = payload.len() + 8;
    let b = boxed(kind, payload);
    lemma_be_len(n as int, 4);
    reveal_with_fuel(bytes_range, 5);
    law_be_round_trip(n as int, 4);
    assert(b.subrange(0, 4) =~= be(n as int, 4));
    assert(b.subrange(4, 8) =~= encode_utf8(kind));
    assert(b.skip(8) =~= payload);
}

} // verus!
