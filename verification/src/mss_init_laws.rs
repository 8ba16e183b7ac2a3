//! What stands in the initialization segments that are made for Smooth Streaming.

use crate::box_laws::{
    holds, law_box_holds_its_content, law_number_is_found, lemma_be_lens, lemma_end_is_held,
    lemma_held_through, lemma_middle_is_held, lemma_ranges,
};
use crate::boxes::{be, be_value, boxed, full_boxed, zeros};
use crate::manifest::StreamView;
use crate::error::ErrorView;
use crate::mss_init::{
    as_u8, audio_payload, avcc_box, entry_header, esds_box, ftyp_box, generated_init, handler_of,
    hdlr_box, init_segment, mdhd_box, media_header, minf_box, moov_box, mvex_box, mvhd_box,
    one_less, private_of, protection_of, sample_entry_of, sealed_entry, sinf_box, sized,
    start_code_units, stbl_box, swapped_kid, tkhd_box, trak_box, unit_from, unity_matrix,
    video_payload, without_escapes, InitView,
};
use crate::text::dec;
use crate::text_laws::{law_cut_at_a_character, law_decimal_is_read_within, lemma_decimal_lacks};
use crate::protection_laws::tenc_box;
use vstd::prelude::*;
use vstd::utf8::encode_utf8;

verus! {

/// What the segment of a stream is made of.
pub open spec fn parts_of(stream: StreamView, track: u32, created: u64) -> InitView {
    let data = stream.mss_data->0;
    InitView {
        stream,
        data,
        private: private_of(data),
        protection: if data.is_protection {
            Some(protection_of(data)->Ok_0)
        } else {
            None
        },
        created,
        track,
    }
}

/// The dimensions of a resolution are its width and its height.
pub proof fn law_dimensions_are_width_and_height(width: nat, height: nat)
    requires
        width <= i32::MAX,
        height <= i32::MAX,
    ensures
        crate::mss_init::dimensions_of(Some(dec(width) + "x"@ + dec(height))) == (
            width as int,
            height as int,
        ),
{
    reveal_strlit("x");
    assert("x"@ =~= seq!['x']);
    lemma_decimal_lacks(width, 'x');
    law_cut_at_a_character(dec(width), 'x', dec(height));
    law_decimal_is_read_within(width, i32::MIN as int, i32::MAX as int);
    law_decimal_is_read_within(height, i32::MIN as int, i32::MAX as int);
}

/// The box of the track states the size of the picture, in whole points, and the track.
proof fn lemma_tkhd(x: InitView, width: nat, height: nat) -> (p: Seq<u8>)
    requires
        x.stream.resolution == Some(dec(width) + "x"@ + dec(height)),
        width <= 65535,
        height <= 65535,
    ensures
        tkhd_box(x) == boxed("tkhd"@, p),
        states_the_track(p, x.track as int, width as int, height as int),
{
    law_dimensions_are_width_and_height(width, height);
    lemma_be_lens();
    lemma_ranges();
    let w = width as int;
    let h = height as int;
    let duration = crate::mss_init::or_zero(x.data.duration as int);
    let volume = if x.data.stream_type == "audio"@ {
        1u8
    } else {
        0u8
    };
    let head = Seq::<u8>::empty().push(1) + be(7, 3);
    let early = Seq::<u8>::empty() + be(x.created as int, 8) + be(x.created as int, 8);
    let middle = be(0, 4) + be(duration, 8) + be(0, 4) + be(0, 4) + be(0, 2) + be(0, 2) + zeros(
        0,
    ).push(volume).push(0) + be(0, 2) + unity_matrix();
    let inner = early + be(x.track as int, 4) + middle + be(w, 2) + be(0, 2) + be(h, 2) + be(0, 2);
    let p = head + inner;
    assert(tkhd_box(x) == boxed("tkhd"@, p)) by {
        assert(p =~= Seq::<u8>::empty().push(1) + be(7, 3) + (Seq::<u8>::empty() + be(
            x.created as int,
            8,
        ) + be(x.created as int, 8) + be(x.track as int, 4) + be(0, 4) + be(duration, 8) + be(0, 4)
            + be(0, 4) + be(0, 2) + be(0, 2) + zeros(0).push(volume).push(0) + be(0, 2)
            + unity_matrix() + be(w, 2) + be(0, 2) + be(h, 2) + be(0, 2)));
    }
    assert(unity_matrix().len() == 36);
    assert((head + early).len() == 20);
    let after_track = middle + be(w, 2) + be(0, 2) + be(h, 2) + be(0, 2);
    assert(p =~= (head + early) + be(x.track as int, 4) + after_track);
    law_number_is_found(head + early, x.track as int, 4, after_track);
    let before_width = head + early + be(x.track as int, 4) + middle;
    assert(before_width.len() == 88);
    let after_width = be(0, 2) + be(h, 2) + be(0, 2);
    assert(p =~= before_width + be(w, 2) + after_width);
    law_number_is_found(before_width, w, 2, after_width);
    let before_height = before_width + be(w, 2) + be(0, 2);
    assert(p =~= before_height + be(h, 2) + be(0, 2));
    law_number_is_found(before_height, h, 2, be(0, 2));
    p
}

/// The content of a track header states a track and a size: each dimension is a number of whole
/// points and a fraction, of two bytes each.
pub open spec fn states_the_track(p: Seq<u8>, track: int, width: int, height: int) -> bool {
    &&& p.len() == 96
    &&& be_value(p.subrange(20, 24)) == track
    &&& be_value(p.subrange(88, 90)) == width
    &&& be_value(p.subrange(92, 94)) == height
}

/// What a video sample entry begins with states the size of the picture.
proof fn lemma_video_payload(x: InitView, rest: Seq<u8>, width: nat, height: nat)
    requires
        x.stream.resolution == Some(dec(width) + "x"@ + dec(height)),
        width <= 65535,
        height <= 65535,
    ensures
        states_the_size(video_payload(x) + rest, width as int, height as int),
{
    law_dimensions_are_width_and_height(width, height);
    lemma_be_lens();
    lemma_ranges();
    let w = width as int;
    let h = height as int;
    let before = entry_header() + be(0, 2) + be(0, 2) + be(0, 4) + be(0, 4) + be(0, 4);
    let after = be(0x48, 2) + be(0, 2) + be(0x48, 2) + be(0, 2) + be(0, 4) + be(1, 2) + zeros(32)
        + be(0x18, 2) + be(0xffff, 2);
    assert(entry_header().len() == 8);
    assert(before.len() == 24);
    let all = video_payload(x) + rest;
    assert(all =~= before + be(w, 2) + (be(h, 2) + after + rest));
    law_number_is_found(before, w, 2, be(h, 2) + after + rest);
    assert(all =~= (before + be(w, 2)) + be(h, 2) + (after + rest));
    law_number_is_found(before + be(w, 2), h, 2, after + rest);
}

/// The content of a video sample entry states a size.
pub open spec fn states_the_size(p: Seq<u8>, width: int, height: int) -> bool {
    &&& p.len() >= 78
    &&& be_value(p.subrange(24, 26)) == width
    &&& be_value(p.subrange(26, 28)) == height
}

/// The sample entry in the boxes around it.
proof fn lemma_minf_holds(stream_type: Seq<char>, entry: Seq<u8>)
    ensures
        holds(
            minf_box(stream_type, entry),
            full_boxed("stsd"@, 0, 0, Seq::<u8>::empty() + be(1, 4) + entry),
        ),
{
    let none = Seq::<u8>::empty();
    let minf = minf_box(stream_type, entry);
    let stbl = stbl_box(entry);
    let dinf = boxed(
        "dinf"@,
        full_boxed("dref"@, 0, 0, none + be(1, 4) + full_boxed("url "@, 0, 1, zeros(0))),
    );
    let kinds = none + media_header(stream_type) + dinf;
    law_box_holds_its_content("minf"@, kinds + stbl);
    lemma_end_is_held(kinds, stbl);
    lemma_held_through(minf, kinds + stbl, stbl);
    let stsd = full_boxed("stsd"@, 0, 0, none + be(1, 4) + entry);
    let tables = none + full_boxed("stts"@, 0, 0, zeros(4)) + full_boxed("stsc"@, 0, 0, zeros(4))
        + full_boxed("stco"@, 0, 0, zeros(4)) + full_boxed("stsz"@, 0, 0, zeros(8));
    law_box_holds_its_content("stbl"@, tables + stsd);
    lemma_held_through(minf, stbl, tables + stsd);
    lemma_end_is_held(tables, stsd);
    lemma_held_through(minf, tables + stsd, stsd);
}

/// The track, with the boxes in it.
proof fn lemma_trak_holds(x: InitView, handler: Seq<char>, entry: Seq<u8>)
    ensures
        holds(trak_box(x, handler, entry), tkhd_box(x)),
        holds(trak_box(x, handler, entry), mdhd_box(x)),
        holds(trak_box(x, handler, entry), hdlr_box(x, handler)),
        holds(trak_box(x, handler, entry), minf_box(x.data.stream_type, entry)),
{
    let none = Seq::<u8>::empty();
    let trak = trak_box(x, handler, entry);
    let tkhd = tkhd_box(x);
    let mdhd = mdhd_box(x);
    let hdlr = hdlr_box(x, handler);
    let minf = minf_box(x.data.stream_type, entry);
    let within = none + mdhd + hdlr + minf;
    let mdia = boxed("mdia"@, within);
    let body = none + tkhd + mdia;
    law_box_holds_its_content("trak"@, body);
    lemma_middle_is_held(none, tkhd, mdia);
    lemma_held_through(trak, body, tkhd);
    lemma_end_is_held(none + tkhd, mdia);
    lemma_held_through(trak, body, mdia);
    law_box_holds_its_content("mdia"@, within);
    lemma_held_through(trak, mdia, within);
    lemma_middle_is_held(none, mdhd, hdlr + minf);
    assert(none + mdhd + (hdlr + minf) =~= within);
    lemma_held_through(trak, within, mdhd);
    lemma_middle_is_held(none + mdhd, hdlr, minf);
    lemma_held_through(trak, within, hdlr);
    lemma_end_is_held(none + mdhd + hdlr, minf);
    lemma_held_through(trak, within, minf);
}

/// The whole film, with the boxes in it.
proof fn lemma_moov_holds(x: InitView, handler: Seq<char>, entry: Seq<u8>)
    ensures
        holds(moov_box(x, handler, entry), tkhd_box(x)),
        holds(moov_box(x, handler, entry), mdhd_box(x)),
        holds(moov_box(x, handler, entry), hdlr_box(x, handler)),
        holds(
            moov_box(x, handler, entry),
            full_boxed("stsd"@, 0, 0, Seq::<u8>::empty() + be(1, 4) + entry),
        ),
{
    let moov = moov_box(x, handler, entry);
    let trak = trak_box(x, handler, entry);
    let minf = minf_box(x.data.stream_type, entry);
    lemma_moov_holds_trak(x, handler, entry);
    lemma_trak_holds(x, handler, entry);
    lemma_held_through(moov, trak, tkhd_box(x));
    lemma_held_through(moov, trak, mdhd_box(x));
    lemma_held_through(moov, trak, hdlr_box(x, handler));
    lemma_held_through(moov, trak, minf);
    lemma_minf_holds(x.data.stream_type, entry);
    lemma_held_through(
        moov,
        minf,
        full_boxed("stsd"@, 0, 0, Seq::<u8>::empty() + be(1, 4) + entry),
    );
}

proof fn lemma_moov_holds_trak(x: InitView, handler: Seq<char>, entry: Seq<u8>)
    ensures
        holds(moov_box(x, handler, entry), trak_box(x, handler, entry)),
{
    let more = match x.protection {
        None => Seq::<u8>::empty(),
        Some(p) => crate::mss_init::pssh_box(p.system_id, p.data) + crate::mss_init::pssh_box(
            crate::mss_init::widevine_id(),
            crate::mss_init::widevine_data(p.kid),
        ),
    };
    lemma_moov_is(x, handler, entry, more);
    lemma_content_holds_middle(
        "moov"@,
        mvhd_box(x),
        trak_box(x, handler, entry),
        mvex_box(x) + more,
    );
}

proof fn lemma_content_holds_middle(kind: Seq<char>, a: Seq<u8>, part: Seq<u8>, b: Seq<u8>)
    ensures
        holds(boxed(kind, a + part + b), part),
{
    law_box_holds_its_content(kind, a + part + b);
    lemma_middle_is_held(a, part, b);
    lemma_held_through(boxed(kind, a + part + b), a + part + b, part);
}

proof fn lemma_joined(a: Seq<u8>, b: Seq<u8>, c: Seq<u8>, d: Seq<u8>, e: Seq<u8>)
    ensures
        Seq::<u8>::empty() + a + b + c == a + b + (c + Seq::<u8>::empty()),
        Seq::<u8>::empty() + a + b + c + d + e == a + b + (c + (d + e)),
{
    assert(Seq::<u8>::empty() + a + b + c =~= a + b + (c + Seq::<u8>::empty()));
    assert(Seq::<u8>::empty() + a + b + c + d + e =~= a + b + (c + (d + e)));
}

proof fn lemma_moov_is(x: InitView, handler: Seq<char>, entry: Seq<u8>, more: Seq<u8>)
    requires
        more == match x.protection {
            None => Seq::<u8>::empty(),
            Some(p) => crate::mss_init::pssh_box(p.system_id, p.data) + crate::mss_init::pssh_box(
                crate::mss_init::widevine_id(),
                crate::mss_init::widevine_data(p.kid),
            ),
        },
    ensures
        moov_box(x, handler, entry) == boxed(
            "moov"@,
            mvhd_box(x) + trak_box(x, handler, entry) + (mvex_box(x) + more),
        ),
{
    reveal(moov_box);
    let none = Seq::<u8>::empty();
    match x.protection {
        None => {
            lemma_joined(mvhd_box(x), trak_box(x, handler, entry), mvex_box(x), none, none);
        },
        Some(p) => {
            lemma_joined(
                mvhd_box(x),
                trak_box(x, handler, entry),
                mvex_box(x),
                crate::mss_init::pssh_box(p.system_id, p.data),
                crate::mss_init::pssh_box(
                    crate::mss_init::widevine_id(),
                    crate::mss_init::widevine_data(p.kid),
                ),
            );
        },
    }
}

proof fn lemma_made_of(stream: StreamView, track: u32, created: u64)
    requires
        generated_init(stream, track, created) is Ok,
    ensures
        ({
            let x = parts_of(stream, track, created);
            let bytes = generated_init(stream, track, created)->Ok_0.bytes;
            &&& stream.mss_data is Some
            &&& handler_of(x.data.stream_type) is Some
            &&& sample_entry_of(x) is Ok
            &&& holds(
                bytes,
                moov_box(x, handler_of(x.data.stream_type)->0, sample_entry_of(x)->Ok_0.bytes),
            )
        }),
{
    let x = parts_of(stream, track, created);
    assert(init_segment(x) is Ok);
    let moov = moov_box(x, handler_of(x.data.stream_type)->0, sample_entry_of(x)->Ok_0.bytes);
    lemma_end_is_held(ftyp_box(), moov);
}

/// The segment that is made for a video states the size of its resolution, its width before its
/// height: in the box of the track, which also names the track, and in the sample entry.
pub proof fn law_init_states_the_size(
    stream: StreamView,
    track: u32,
    created: u64,
    width: nat,
    height: nat,
)
    requires
        generated_init(stream, track, created) is Ok,
        (stream.mss_data->0).stream_type == "video"@,
        stream.resolution == Some(dec(width) + "x"@ + dec(height)),
        width <= 65535,
        height <= 65535,
    ensures
        ({
            let bytes = generated_init(stream, track, created)->Ok_0.bytes;
            &&& exists|p: Seq<u8>| #[trigger]
                holds(bytes, boxed("tkhd"@, p)) && states_the_track(
                    p,
                    track as int,
                    width as int,
                    height as int,
                )
            &&& exists|kind: Seq<char>, p: Seq<u8>| #[trigger]
                holds(
                    bytes,
                    full_boxed("stsd"@, 0, 0, Seq::<u8>::empty() + be(1, 4) + boxed(kind, p)),
                ) && states_the_size(p, width as int, height as int)
        }),
{
    let x = parts_of(stream, track, created);
    let bytes = generated_init(stream, track, created)->Ok_0.bytes;
    let handler = handler_of(x.data.stream_type)->0;
    lemma_made_of(stream, track, created);
    reveal(sample_entry_of);
    reveal_strlit("audio");
    reveal_strlit("video");
    assert("audio"@[0] == 'a' && "video"@[0] == 'v');
    let entry = sample_entry_of(x)->Ok_0.bytes;
    let moov = moov_box(x, handler, entry);
    lemma_moov_holds(x, handler, entry);
    lemma_held_through(bytes, moov, tkhd_box(x));
    let p = lemma_tkhd(x, width, height);
    assert(holds(bytes, boxed("tkhd"@, p)));
    let stsd = full_boxed("stsd"@, 0, 0, Seq::<u8>::empty() + be(1, 4) + entry);
    lemma_held_through(bytes, moov, stsd);
    let (kind, q) = lemma_video_entry(x, width, height);
    assert(entry == boxed(kind, q));
}

proof fn lemma_video_entry(x: InitView, width: nat, height: nat) -> (r: (Seq<char>, Seq<u8>))
    requires
        crate::mss_init::video_entry(x) is Ok,
        x.stream.resolution == Some(dec(width) + "x"@ + dec(height)),
        width <= 65535,
        height <= 65535,
    ensures
        crate::mss_init::video_entry(x)->Ok_0.bytes == boxed(r.0, r.1),
        states_the_size(r.1, width as int, height as int),
{
    let code = if crate::mss_init::is_avc(x.data.four_cc) {
        "avc1"@
    } else if crate::mss_init::is_hevc(x.data.four_cc) {
        "hvc1"@
    } else {
        "dvh1"@
    };
    let b = if crate::mss_init::is_avc(x.data.four_cc) {
        crate::mss_init::avcc_box(x)->Ok_0
    } else {
        crate::mss_init::hvcc_box(x, code)->Ok_0.bytes
    };
    match x.protection {
        Some(p) => {
            let rest = b + sinf_box(code, p.kid);
            lemma_video_payload(x, rest, width, height);
            assert(video_payload(x) + b + sinf_box(code, p.kid) =~= video_payload(x) + rest);
            ("encv"@, video_payload(x) + rest)
        },
        None => {
            lemma_video_payload(x, b, width, height);
            (code, video_payload(x) + b)
        },
    }
}

/// The segment that is made states how many units a second has and how many units the media lasts,
/// where they are not negative.
pub proof fn law_init_states_the_duration(stream: StreamView, track: u32, created: u64)
    requires
        generated_init(stream, track, created) is Ok,
        0 <= (stream.mss_data->0).timescale <= u32::MAX,
        0 <= (stream.mss_data->0).duration,
    ensures
        exists|p: Seq<u8>| #[trigger]
            holds(generated_init(stream, track, created)->Ok_0.bytes, boxed("mdhd"@, p)) && p.len()
                == 36 && be_value(p.subrange(20, 24)) == (stream.mss_data->0).timescale
                && be_value(p.subrange(24, 32)) == (stream.mss_data->0).duration,
{
    let x = parts_of(stream, track, created);
    let bytes = generated_init(stream, track, created)->Ok_0.bytes;
    let handler = handler_of(x.data.stream_type)->0;
    lemma_made_of(stream, track, created);
    let entry = sample_entry_of(x)->Ok_0.bytes;
    let moov = moov_box(x, handler, entry);
    lemma_moov_holds(x, handler, entry);
    lemma_held_through(bytes, moov, mdhd_box(x));
    lemma_be_lens();
    lemma_ranges();
    let scale = x.data.timescale as int;
    let duration = x.data.duration as int;
    let language = crate::mss_init::language_of(x.stream.language) as int;
    let head = Seq::<u8>::empty().push(1) + be(0, 3);
    let dates = Seq::<u8>::empty() + be(x.created as int, 8) + be(x.created as int, 8);
    let p = head + (dates + be(scale, 4) + be(duration, 8) + be(language, 2) + be(0, 2));
    assert(mdhd_box(x) == boxed("mdhd"@, p));
    assert(p =~= (head + dates) + be(scale, 4) + (be(duration, 8) + be(language, 2) + be(0, 2)));
    law_number_is_found(head + dates, scale, 4, be(duration, 8) + be(language, 2) + be(0, 2));
    assert(p =~= (head + dates + be(scale, 4)) + be(duration, 8) + (be(language, 2) + be(0, 2)));
    law_number_is_found(head + dates + be(scale, 4), duration, 8, be(language, 2) + be(0, 2));
    assert(holds(bytes, boxed("mdhd"@, p)));
}

/// What an audio sample entry holds states the channels, the bits of a sample and the sampling rate.
pub proof fn law_audio_entry_states_the_sound(x: InitView, config: Seq<u8>)
    requires
        0 <= x.data.channels <= 65535,
        0 <= x.data.bits_per_sample <= 65535,
        0 <= x.data.sampling_rate <= 65535,
    ensures
        ({
            let p = audio_payload(x, config);
            &&& p.len() >= 28
            &&& be_value(p.subrange(16, 18)) == x.data.channels
            &&& be_value(p.subrange(18, 20)) == x.data.bits_per_sample
            &&& be_value(p.subrange(24, 26)) == x.data.sampling_rate
        }),
{
    lemma_be_lens();
    lemma_ranges();
    let c = x.data.channels as int;
    let b = x.data.bits_per_sample as int;
    let r = x.data.sampling_rate as int;
    let p = audio_payload(x, config);
    let end = be(0, 2) + esds_box(x, config);
    assert(entry_header().len() == 8);
    let first = entry_header() + be(0, 4) + be(0, 4);
    let after = be(b, 2) + be(0, 2) + be(0, 2) + be(r, 2) + end;
    assert(p =~= first + be(c, 2) + after);
    law_number_is_found(first, c, 2, after);
    let second = first + be(c, 2);
    let behind = be(0, 2) + be(0, 2) + be(r, 2) + end;
    assert(p =~= second + be(b, 2) + behind);
    law_number_is_found(second, b, 2, behind);
    let third = second + be(b, 2) + be(0, 2) + be(0, 2);
    assert(p =~= third + be(r, 2) + end);
    law_number_is_found(third, r, 2, end);
}

/// The segment of a protected stream holds the key identifier of its protection, where a reader looks
/// for it.
pub proof fn law_protected_entries_hold_the_key_identifier(
    x: InitView,
    protected_kind: Seq<char>,
    kind: Seq<char>,
    payload: Seq<u8>,
)
    requires
        x.protection is Some,
    ensures
        holds(
            sealed_entry(x, protected_kind, kind, payload),
            tenc_box((x.protection->0).kid),
        ),
{
    let p = x.protection->0;
    let sinf = sinf_box(kind, p.kid);
    let entry = sealed_entry(x, protected_kind, kind, payload);
    law_box_holds_its_content(protected_kind, payload + sinf);
    lemma_end_is_held(payload, sinf);
    lemma_held_through(entry, payload + sinf, sinf);
    let none = Seq::<u8>::empty();
    let tenc = full_boxed("tenc"@, 0, 0, none + be(0x108, 4) + p.kid);
    assert(none + be(0x108, 4) + p.kid =~= be(0x108, 4) + p.kid);
    let schi = boxed("schi"@, tenc);
    let head = none + boxed("frma"@, none + encode_utf8(kind)) + full_boxed(
        "schm"@,
        0,
        0,
        none + encode_utf8("cenc"@) + be(0x10000, 4),
    );
    law_box_holds_its_content("sinf"@, head + schi);
    lemma_held_through(entry, sinf, head + schi);
    lemma_end_is_held(head, schi);
    lemma_held_through(entry, head + schi, schi);
    law_box_holds_its_content("schi"@, tenc);
    lemma_held_through(entry, schi, tenc);
}

/// The parameter sets of AVC stand in its configuration, the sequence before the picture, each with
/// its length before it; profile and level are those of the sequence.
pub proof fn law_avc_configuration_holds_the_parameter_sets(
    x: InitView,
    units: Seq<Seq<u8>>,
    sps: Seq<u8>,
    pps: Seq<u8>,
)
    requires
        start_code_units(x.private) == Ok::<Seq<Seq<u8>>, ErrorView>(units),
        unit_from(units, false, 7, 0) == Some(sps),
        unit_from(units, false, 8, 0) == Some(pps),
        4 <= sps.len() <= 65535,
        pps.len() <= 65535,
    ensures
        avcc_box(x) is Ok,
        exists|p: Seq<u8>| #[trigger]
            boxed("avcC"@, p) == avcc_box(x)->Ok_0 && p.len() == 11 + sps.len() + pps.len() && p[0]
                == 1 && p[1] == sps[1] && p[2] == sps[2] && p[3] == sps[3] && be_value(
                p.subrange(6, 8),
            ) == sps.len() && p.subrange(8, 8 + sps.len() as int) == sps && be_value(
                p.subrange(9 + sps.len() as int, 11 + sps.len() as int),
            ) == pps.len() && p.subrange(11 + sps.len() as int, p.len() as int) == pps,
{
    lemma_be_lens();
    lemma_ranges();
    let n = sps.len() as int;
    let m = pps.len() as int;
    let field = 0xfcu8 | as_u8(one_less(x.data.nal_unit_length_field));
    let head = Seq::<u8>::empty().push(1).push(sps[1]).push(sps[2]).push(sps[3]).push(field).push(
        1,
    );
    let p = (head + sized(sps)).push(1) + sized(pps);
    assert(avcc_box(x)->Ok_0 == boxed("avcC"@, p));
    let rest = sps + seq![1u8] + be(m, 2) + pps;
    assert(p =~= head + be(n, 2) + rest);
    law_number_is_found(head, n, 2, rest);
    let before = head + be(n, 2) + sps + seq![1u8];
    assert(p =~= before + be(m, 2) + pps);
    law_number_is_found(before, m, 2, pps);
    assert(p.subrange(8, 8 + n) =~= sps);
    assert(p.subrange(11 + n, p.len() as int) =~= pps);
}

/// The first three fields of a key identifier stand in the other order in PlayReady; swapping them
/// twice changes nothing.
pub proof fn law_key_identifiers_are_swapped(k: Seq<u8>)
    requires
        k.len() == 16,
    ensures
        swapped_kid(k).len() == 16,
        swapped_kid(k)[0] == k[3] && swapped_kid(k)[1] == k[2] && swapped_kid(k)[3] == k[0],
        swapped_kid(k)[4] == k[5] && swapped_kid(k)[6] == k[7],
        swapped_kid(k).skip(8) == k.skip(8),
        swapped_kid(swapped_kid(k)) == k,
{
    assert(swapped_kid(k).skip(8) =~= k.skip(8));
    assert(swapped_kid(swapped_kid(k)) =~= k);
}

/// The kinds of media have their handlers.
pub proof fn law_handlers()
    ensures
        handler_of("audio"@) == Some("soun"@),
        handler_of("video"@) == Some("vide"@),
        handler_of("text"@) == Some("subt"@),
{
    reveal_strlit("audio");
    reveal_strlit("video");
    reveal_strlit("text");
    assert("audio"@.len() == 5 && "video"@.len() == 5 && "text"@.len() == 4);
    assert("audio"@[0] == 'a' && "video"@[0] == 'v');
}

/// A byte that was put behind two zeros is taken out, and nothing else is.
pub proof fn law_escapes_are_taken_out(b: Seq<u8>, x: u8)
    ensures
        ({
            let head = without_escapes(b);
            let n = head.len() as int;
            &&& n >= 2 && head[n - 1] == 0 && head[n - 2] == 0 ==> without_escapes(b.push(3)) == head
            &&& x != 3 ==> without_escapes(b.push(x)) == head.push(x)
            &&& n < 2 ==> without_escapes(b.push(x)) == head.push(x)
        }),
{
    assert(b.push(3).drop_last() =~= b);
    assert(b.push(x).drop_last() =~= b);
}

} // verus!
