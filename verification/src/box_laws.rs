//! What stands where in boxes.

use crate::boxes::{
    be, be_value, boxed, bytes_range, capped_u32, first_four, full_boxed, law_be_round_trip,
    lemma_be_len,
};
use vstd::prelude::*;
use vstd::utf8::encode_utf8;

verus! {

/// Bytes stand somewhere in others.
#[verifier::opaque]
pub open spec fn holds(all: Seq<u8>, part: Seq<u8>) -> bool {
    exists|i: int| holds_at(all, part, i)
}

/// Bytes stand at a place in others.
pub open spec fn holds_at(all: Seq<u8>, part: Seq<u8>, i: int) -> bool {
    0 <= i && i + part.len() <= all.len() && all.subrange(i, i + part.len()) == part
}

/// What stands between others stands in the whole.
pub proof fn lemma_middle_is_held(a: Seq<u8>, part: Seq<u8>, b: Seq<u8>)
    ensures
        holds(a + part + b, part),
{
    reveal(holds);
    let all = a + part + b;
    let i = a.len() as int;
    assert(all.subrange(i, i + part.len()) =~= part);
    assert(holds_at(all, part, i));
}

/// What stands at the end stands in the whole.
pub proof fn lemma_end_is_held(a: Seq<u8>, part: Seq<u8>)
    ensures
        holds(a + part, part),
{
    lemma_middle_is_held(a, part, Seq::empty());
    assert(a + part + Seq::<u8>::empty() =~= a + part);
}

/// What a part holds the whole holds.
pub proof fn lemma_held_through(all: Seq<u8>, part: Seq<u8>, inner: Seq<u8>)
    requires
        holds(all, part),
        holds(part, inner),
    ensures
        holds(all, inner),
{
    reveal(holds);
    let i = choose|i: int| holds_at(all, part, i);
    let j = choose|j: int| holds_at(part, inner, j);
    assert(all.subrange(i + j, i + j + inner.len()) =~= part.subrange(j, j + inner.len()));
    assert(holds_at(all, inner, i + j));
}

/// A box holds its content.
pub proof fn law_box_holds_its_content(kind: Seq<char>, payload: Seq<u8>)
    ensures
        holds(boxed(kind, payload), payload),
{
    lemma_end_is_held(
        Seq::<u8>::empty() + be(capped_u32(payload.len() as int + 8), 4) + first_four(
            encode_utf8(kind),
        ),
        payload,
    );
}

/// A box with a version holds its content.
pub proof fn law_full_box_holds_its_content(kind: Seq<char>, version: u8, flags: int, payload: Seq<u8>)
    ensures
        holds(full_boxed(kind, version, flags, payload), payload),
{
    let head = Seq::<u8>::empty().push(version) + be(flags, 3);
    law_box_holds_its_content(kind, head + payload);
    lemma_end_is_held(head, payload);
    lemma_held_through(full_boxed(kind, version, flags, payload), head + payload, payload);
}

/// Numbers take the bytes that they are given.
pub proof fn lemma_be_lens()
    ensures
        forall|n: int, width: nat| #[trigger] be(n, width).len() == width,
{
    assert forall|n: int, width: nat| #[trigger] be(n, width).len() == width by {
        lemma_be_len(n, width);
    }
}

/// A number between other bytes is found again where it stands.
pub proof fn law_number_is_found(a: Seq<u8>, n: int, width: nat, b: Seq<u8>)
    requires
        0 <= n < bytes_range(width),
    ensures
        (a + be(n, width) + b).len() == a.len() + width + b.len(),
        be_value((a + be(n, width) + b).subrange(a.len() as int, a.len() as int + width)) == n,
{
    lemma_be_len(n, width);
    law_be_round_trip(n, width);
    assert((a + be(n, width) + b).subrange(a.len() as int, a.len() as int + width) =~= be(n, width));
}

/// The powers of 256 that numbers in boxes have.
pub proof fn lemma_ranges()
    ensures
        bytes_range(2) == 65536,
        bytes_range(4) == 0x1_0000_0000,
        bytes_range(8) == 0x1_0000_0000_0000_0000,
{
    reveal_with_fuel(bytes_range, 9);
}

} // verus!
