//! What is found in the protection boxes of MP4 files.

use crate::boxes::{be, boxed, full_boxed, law_box_states_its_length};
use crate::box_laws::lemma_be_lens;
use crate::codec::{base64_text, hex_text};
use crate::decrypt::{
    after_entry, after_pssh, be32, is_container, is_tag, no_protection, scan_from, system_id,
    system_of, tag_from, Mp4ProtectionInfoView, PsshInfoView, PsshSystem,
};
use vstd::prelude::*;
use vstd::utf8::{encode_utf8, is_ascii_chars, is_ascii_chars_encode_utf8};

verus! {

/// The four bytes of a kind of box.
proof fn lemma_kind_bytes(kind: Seq<char>)
    requires
        kind.len() == 4,
        forall|i: int| 0 <= i < 4 ==> '\0' <= #[trigger] kind[i] <= '\u{7f}',
    ensures
        encode_utf8(kind).len() == 4,
        forall|i: int| 0 <= i < 4 ==> #[trigger] encode_utf8(kind)[i] == kind[i] as u8,
{
    assert(is_ascii_chars(kind));
    is_ascii_chars_encode_utf8(kind);
}

/// Length and kind of a box, as a reader sees them.
proof fn lemma_box_head(kind: Seq<char>, payload: Seq<u8>, rest: Seq<u8>)
    requires
        kind.len() == 4,
        forall|i: int| 0 <= i < 4 ==> '\0' <= #[trigger] kind[i] <= '\u{7f}',
        payload.len() + 8 <= 0xffff_ffff,
    ensures
        ({
            let s = boxed(kind, payload) + rest;
            &&& boxed(kind, payload).len() == payload.len() + 8
            &&& be32(s, 0) == payload.len() + 8
            &&& is_tag(
                s,
                4,
                kind[0] as u8,
                kind[1] as u8,
                kind[2] as u8,
                kind[3] as u8,
            )
            &&& s.subrange(8, payload.len() as int + 8) == payload
        }),
{
    lemma_kind_bytes(kind);
    law_box_states_its_length(kind, payload);
    let b = boxed(kind, payload);
    let s = b + rest;
    let n = payload.len() as int + 8;
    lemma_be_lens();
    let head = b.subrange(0, 4);
    reveal_with_fuel(crate::boxes::be_value, 5);
    assert(head.drop_last().drop_last().drop_last() =~= seq![b[0]]);
    assert(head.drop_last().drop_last() =~= seq![b[0], b[1]]);
    assert(head.drop_last() =~= seq![b[0], b[1], b[2]]);
    assert(seq![b[0]].drop_last() =~= Seq::<u8>::empty());
    assert(crate::boxes::be_value(head) == ((b[0] * 256 + b[1]) * 256 + b[2]) * 256 + b[3]);
    assert(s[0] == b[0] && s[1] == b[1] && s[2] == b[2] && s[3] == b[3]);
    let name = b.subrange(4, 8);
    assert(b[4] == name[0] && b[5] == name[1] && b[6] == name[2] && b[7] == name[3]);
    assert(s[4] == b[4] && s[5] == b[5] && s[6] == b[6] && s[7] == b[7]);
    assert(encode_utf8(kind)[0] == kind[0] as u8 && encode_utf8(kind)[1] == kind[1] as u8);
    assert(encode_utf8(kind)[2] == kind[2] as u8 && encode_utf8(kind)[3] == kind[3] as u8);
    assert(b.skip(8) =~= payload);
    assert(s.subrange(8, n) =~= b.skip(8));
}

/// A kind of box that holds others.
pub open spec fn is_container_kind(kind: Seq<char>) -> bool {
    ||| kind == "moov"@
    ||| kind == "trak"@
    ||| kind == "mdia"@
    ||| kind == "minf"@
    ||| kind == "stbl"@
    ||| kind == "stsd"@
    ||| kind == "encv"@
    ||| kind == "enca"@
    ||| kind == "enct"@
    ||| kind == "encs"@
    ||| kind == "sinf"@
    ||| kind == "schi"@
}

proof fn lemma_container_kind(kind: Seq<char>, s: Seq<u8>)
    requires
        is_container_kind(kind),
    ensures
        kind.len() == 4,
        forall|i: int| 0 <= i < 4 ==> '\0' <= #[trigger] kind[i] <= '\u{7f}',
        is_tag(s, 4, kind[0] as u8, kind[1] as u8, kind[2] as u8, kind[3] as u8) ==> is_container(
            s,
            4,
        ) && !is_tag(s, 4, 0x70, 0x73, 0x73, 0x68),
{
    reveal_strlit("moov");
    reveal_strlit("trak");
    reveal_strlit("mdia");
    reveal_strlit("minf");
    reveal_strlit("stbl");
    reveal_strlit("stsd");
    reveal_strlit("encv");
    reveal_strlit("enca");
    reveal_strlit("enct");
    reveal_strlit("encs");
    reveal_strlit("sinf");
    reveal_strlit("schi");
}

/// A box that holds others is searched, and the search goes on behind it with what was found.
pub proof fn law_containers_are_searched(
    kind: Seq<char>,
    payload: Seq<u8>,
    info: Mp4ProtectionInfoView,
)
    requires
        is_container_kind(kind),
        payload.len() + 8 <= 0xffff_ffff,
    ensures
        scan_from(boxed(kind, payload), 0, info) == scan_from(payload, 0, after_entry(payload, info)),
{
    let s = boxed(kind, payload);
    lemma_container_kind(kind, s);
    lemma_box_head(kind, payload, Seq::empty());
    assert(s + Seq::<u8>::empty() =~= s);
    let found = scan_from(payload, 0, after_entry(payload, info));
    assert(scan_from(s, s.len() as int, found) == found);
}

/// A `tenc` box with a key identifier.
pub open spec fn tenc_box(kid: Seq<u8>) -> Seq<u8> {
    full_boxed("tenc"@, 0, 0, be(0x108, 4) + kid)
}

proof fn lemma_tenc(kid: Seq<u8>, info: Mp4ProtectionInfoView)
    requires
        kid.len() == 16,
    ensures
        tenc_box(kid).len() == 32,
        after_entry(tenc_box(kid), info).kid == Some(hex_text(kid, false)),
        scan_from(tenc_box(kid), 0, info) == info,
{
    reveal_strlit("tenc");
    lemma_be_lens();
    let payload = Seq::<u8>::empty().push(0) + be(0, 3) + (be(0x108, 4) + kid);
    let p = boxed("tenc"@, payload);
    lemma_kind_bytes("tenc"@);
    lemma_box_head("tenc"@, payload, Seq::empty());
    assert(p + Seq::<u8>::empty() =~= p);
    assert(p.len() == 32);
    assert(be32(p, 0) == 32);
    assert(is_tag(p, 4, 0x74, 0x65, 0x6e, 0x63));
    assert(p[0] == 0 && p[1] == 0 && p[2] == 0 && p[3] == 32);
    reveal_with_fuel(tag_from, 6);
    assert(tag_from(p, 0, 0x74, 0x65, 0x6e, 0x63) == Some(4int));
    assert(p.subrange(16, 32) =~= kid) by {
        assert(p.subrange(8, 32) =~= payload);
        assert(payload.subrange(8, 24) =~= kid);
        assert(p.subrange(16, 32) =~= payload.subrange(8, 24));
    }
    assert(scan_from(p, 32, info) == info);
}

/// The key identifier of a file is the one that stands in its `tenc` box, whatever box holds that
/// one.
pub proof fn law_key_identifier_is_found(kind: Seq<char>, kid: Seq<u8>)
    requires
        is_container_kind(kind),
        kid.len() == 16,
    ensures
        scan_from(boxed(kind, tenc_box(kid)), 0, no_protection()).kid == Some(
            hex_text(kid, false),
        ),
{
    let info = no_protection();
    lemma_tenc(kid, info);
    law_containers_are_searched(kind, tenc_box(kid), info);
    lemma_tenc(kid, after_entry(tenc_box(kid), info));
}

/// A key identifier that is found inside a box is found from outside.
pub proof fn law_key_identifier_is_found_deep(outer: Seq<char>, kind: Seq<char>, kid: Seq<u8>)
    requires
        is_container_kind(outer),
        is_container_kind(kind),
        kid.len() == 16,
    ensures
        scan_from(boxed(outer, boxed(kind, tenc_box(kid))), 0, no_protection()).kid == Some(
            hex_text(kid, false),
        ),
{
    let inner = boxed(kind, tenc_box(kid));
    let info = no_protection();
    lemma_tenc(kid, info);
    lemma_container_kind(kind, inner);
    lemma_box_head(kind, tenc_box(kid), Seq::empty());
    law_containers_are_searched(outer, inner, info);
    let seen = after_entry(inner, info);
    law_containers_are_searched(kind, tenc_box(kid), seen);
    lemma_tenc(kid, seen);
    lemma_tenc(kid, after_entry(tenc_box(kid), seen));
}

/// A `pssh` box of version 0.
pub open spec fn written_pssh(system: PsshSystem, data: Seq<u8>) -> Seq<u8> {
    full_boxed("pssh"@, 0, 0, system_id(system) + be(data.len() as int, 4) + data)
}

/// The data of a protection system is what its box holds, and the box names the system.
pub proof fn law_protection_data_is_found(system: PsshSystem, data: Seq<u8>)
    requires
        data.len() <= 0xffff_0000,
    ensures
        ({
            let found = scan_from(written_pssh(system, data), 0, no_protection());
            &&& found.psshs == seq![PsshInfoView { system, data: base64_text(data) }]
            &&& found.pssh == Some(base64_text(data))
            &&& found.pssh_system == Some(system)
            &&& found.kid is None
        }),
{
    reveal_strlit("pssh");
    lemma_be_lens();
    let id = system_id(system);
    let n = data.len() as int;
    let inner = id + be(n, 4) + data;
    let p = Seq::<u8>::empty().push(0) + be(0, 3) + inner;
    let s = boxed("pssh"@, p);
    assert(id.len() == 16);
    lemma_kind_bytes("pssh"@);
    lemma_box_head("pssh"@, p, Seq::empty());
    assert(s + Seq::<u8>::empty() =~= s);
    assert(p.subrange(4, 20) =~= id);
    assert(system_of(id) == Some(system)) by {
        let w = system_id(PsshSystem::Widevine);
        let r = system_id(PsshSystem::PlayReady);
        let f = system_id(PsshSystem::FairPlay);
        assert(w[0] == 0xed && r[0] == 0x9a && f[0] == 0x94);
    }
    assert(p[0] == 0);
    lemma_four(be(n, 4), n);
    assert(p[20] == be(n, 4)[0] && p[21] == be(n, 4)[1] && p[22] == be(n, 4)[2] && p[23] == be(
        n,
        4,
    )[3]);
    assert(be32(p, 20) == n);
    assert(p.subrange(24, 24 + n) =~= data);
    assert(is_tag(s, 4, 0x70, 0x73, 0x73, 0x68));
    let found = after_pssh(p, no_protection());
    assert(found.psshs =~= seq![PsshInfoView { system, data: base64_text(data) }]);
    assert(scan_from(s, s.len() as int, found) == found);
}

/// The four bytes of a number make it up.
proof fn lemma_four(b: Seq<u8>, n: int)
    requires
        b == be(n, 4),
        0 <= n <= 0xffff_ffff,
    ensures
        b.len() == 4,
        b[0] * 0x1000000 + b[1] * 0x10000 + b[2] * 0x100 + b[3] == n,
{
    lemma_be_lens();
    reveal_with_fuel(be, 5);
    let a1 = n / 256;
    let a2 = a1 / 256;
    let a3 = a2 / 256;
    assert(b[3] == (n % 256) as u8);
    assert(b[2] == (a1 % 256) as u8);
    assert(b[1] == (a2 % 256) as u8);
    assert(b[0] == (a3 % 256) as u8);
    assert(a3 < 256);
    assert(n == a1 * 256 + n % 256);
    assert(a1 == a2 * 256 + a1 % 256);
    assert(a2 == a3 * 256 + a2 % 256);
}

} // verus!
