//! What a Smooth Streaming manifest says of its segments and streams.

use crate::codec::base64_text;
use crate::dash::protected_stream;
use crate::manifest::{MediaDurationView, MediaSegmentView, StreamView};
use crate::mss::{
    bare_stream, chunk_count, chunk_states, chunks, filled_pattern, level_numbers, media_type_of,
    normal_pattern, with_init, with_protection, ChunkRule, ChunkState, LevelNumbers, MssContextView,
    MssProtectionView,
};
use crate::processor::config_hex;
use crate::text::{contains, dec, find, lemma_find_from, occurs_at, replace};
use crate::text_laws::{
    law_decimal_is_read_within, law_replace_first, law_replace_without_occurrence,
    lemma_decimal_lacks, lemma_lacks_first,
};
use crate::xml::{attr_of, XmlNodeView};
use vstd::prelude::*;

verus! {

proof fn lemma_no_brace(a: Seq<char>, w: Seq<char>, b: Seq<char>)
    requires
        !a.contains('{'),
        !w.contains('{'),
        !b.contains('{'),
    ensures
        !(a + w + b).contains('{'),
{
    let s = a + w + b;
    if s.contains('{') {
        let i = choose|i: int| 0 <= i < s.len() && s[i] == '{';
        if i < a.len() {
            assert(a[i] == '{');
        } else if i < a.len() + w.len() {
            assert(w[i - a.len()] == '{');
        } else {
            assert(b[i - a.len() - w.len()] == '{');
        }
    }
}

/// A place at the front of what follows a text without braces is filled.
proof fn lemma_place_is_filled(a: Seq<char>, place: Seq<char>, b: Seq<char>, w: Seq<char>)
    requires
        !a.contains('{'),
        place.len() > 0,
        place[0] == '{',
    ensures
        replace(a + place + b, place, w) == a + w + replace(b, place, w),
{
    let s = a + place + b;
    assert forall|i: int| 0 <= i < a.len() implies !occurs_at(s, place, i) by {
        if occurs_at(s, place, i) {
            assert(s.subrange(i, i + place.len())[0] == s[i]);
            assert(s[i] == a[i]);
        }
    }
    law_replace_first(a, place, b, w);
}

/// Bit rate and start time stand in the URL of a segment in their places; all else stays.
pub proof fn law_pattern_names_rate_and_time(
    a: Seq<char>,
    b: Seq<char>,
    c: Seq<char>,
    bitrate: nat,
    time: nat,
)
    requires
        !a.contains('{'),
        !b.contains('{'),
        !c.contains('{'),
    ensures
        filled_pattern(a + "{Bitrate}"@ + (b + "{start_time}"@ + c), bitrate as int, time as int)
            == a + dec(bitrate) + (b + dec(time) + c),
{
    reveal_strlit("{Bitrate}");
    reveal_strlit("{start_time}");
    let tail = b + "{start_time}"@ + c;
    lemma_place_is_filled(a, "{Bitrate}"@, tail, dec(bitrate));
    lemma_find_from(tail, "{Bitrate}"@, 0);
    assert(!contains(tail, "{Bitrate}"@)) by {
        if contains(tail, "{Bitrate}"@) {
            let k = find(tail, "{Bitrate}"@)->0;
            assert(tail.subrange(k, k + 9)[0] == tail[k]);
            assert(tail.subrange(k, k + 9)[1] == tail[k + 1]);
            if k < b.len() {
                assert(tail[k] == b[k]);
            } else if k < b.len() + 12 {
                assert(tail[k] == "{start_time}"@[k - b.len()]);
                assert(k == b.len());
                assert(tail[k + 1] == "{start_time}"@[1]);
            } else {
                assert(tail[k] == c[k - b.len() - 12]);
            }
        }
    }
    law_replace_without_occurrence(tail, "{Bitrate}"@, dec(bitrate));
    lemma_decimal_lacks(bitrate, '{');
    lemma_no_brace(a, dec(bitrate), b);
    let head = a + dec(bitrate) + b;
    assert(a + dec(bitrate) + tail =~= head + "{start_time}"@ + c);
    lemma_place_is_filled(head, "{start_time}"@, c, dec(time));
    lemma_lacks_first(c, "{start_time}"@);
    law_replace_without_occurrence(c, "{start_time}"@, dec(time));
    assert(head + dec(time) + c =~= a + dec(bitrate) + (b + dec(time) + c));
}

/// The usual spelling of the places is known.
pub proof fn law_usual_places_are_known(a: Seq<char>, b: Seq<char>, c: Seq<char>)
    requires
        !a.contains('{'),
        !b.contains('{'),
        !c.contains('{'),
    ensures
        normal_pattern(a + "{bitrate}"@ + (b + "{start time}"@ + c)) == a + "{Bitrate}"@ + (b
            + "{start_time}"@ + c),
{
    reveal_strlit("{bitrate}");
    reveal_strlit("{Bitrate}");
    reveal_strlit("{start time}");
    reveal_strlit("{start_time}");
    let tail = b + "{start time}"@ + c;
    lemma_place_is_filled(a, "{bitrate}"@, tail, "{Bitrate}"@);
    lemma_find_from(tail, "{bitrate}"@, 0);
    assert(!contains(tail, "{bitrate}"@)) by {
        if contains(tail, "{bitrate}"@) {
            let k = find(tail, "{bitrate}"@)->0;
            assert(tail.subrange(k, k + 9)[0] == tail[k]);
            assert(tail.subrange(k, k + 9)[1] == tail[k + 1]);
            if k < b.len() {
                assert(tail[k] == b[k]);
            } else if k < b.len() + 12 {
                assert(tail[k] == "{start time}"@[k - b.len()]);
                assert(tail[k + 1] == "{start time}"@[1]);
            } else {
                assert(tail[k] == c[k - b.len() - 12]);
            }
        }
    }
    law_replace_without_occurrence(tail, "{bitrate}"@, "{Bitrate}"@);
    let head = a + "{Bitrate}"@ + b;
    let s = head + "{start time}"@ + c;
    assert(a + "{Bitrate}"@ + tail =~= s);
    assert forall|i: int| 0 <= i < head.len() implies !occurs_at(s, "{start time}"@, i) by {
        if occurs_at(s, "{start time}"@, i) {
            assert(s.subrange(i, i + 12)[0] == s[i]);
            assert(s.subrange(i, i + 12)[1] == s[i + 1]);
            if i < a.len() {
                assert(s[i] == a[i]);
            } else if i < a.len() + 9 {
                assert(s[i] == "{Bitrate}"@[i - a.len()]);
                assert(s[i + 1] == "{Bitrate}"@[1]);
            } else {
                assert(s[i] == b[i - a.len() - 9]);
            }
        }
    }
    law_replace_first(head, "{start time}"@, c, "{start_time}"@);
    lemma_lacks_first(c, "{start time}"@);
    law_replace_without_occurrence(c, "{start time}"@, "{start_time}"@);
    assert(head + "{start_time}"@ + c =~= a + "{Bitrate}"@ + (b + "{start_time}"@ + c));
}

proof fn lemma_chunks(rule: ChunkRule, st: ChunkState, units: i64, n: nat, k: int)
    requires
        units >= 0,
        0 <= st.time,
        0 <= st.index,
        0 <= k < n,
        st.time + n * units <= i64::MAX,
        st.index + n <= i64::MAX,
    ensures
        ({
            let r = chunks(rule, st, units, n);
            let s = r.segments[st.segments.len() + k];
            &&& r.time == st.time + n * units
            &&& r.index == st.index + n
            &&& r.segments.len() == st.segments.len() + n
            &&& r.segments.take(st.segments.len() as int) == st.segments
            &&& s.index == st.index + k
            &&& s.url == filled_pattern(rule.combined, rule.bitrate, st.time + k * units)
            &&& s.duration == (MediaDurationView::Ticks {
                units: units as int,
                timescale: rule.timescale as int,
            })
        }),
    decreases n,
{
    let m = st.segments.len() as int;
    let before = chunks(rule, st, units, (n - 1) as nat);
    assert(n * units == (n - 1) * units + units) by (nonlinear_arith);
    assert((n - 1) * units >= 0) by (nonlinear_arith)
        requires
            n > 0,
            units >= 0,
    ;
    if n == 1 {
        assert(before == st);
        assert(0 * units == 0);
        assert(st.segments.push(crate::mss::chunk_segment(rule, st, units)).take(m) =~= st.segments);
    } else {
        let j = if k < n - 1 {
            k
        } else {
            0
        };
        lemma_chunks(rule, st, units, (n - 1) as nat, j);
        assert(chunks(rule, st, units, n).segments.take(m) =~= before.segments.take(m));
    }
}

/// A chunk of a stream, or its run of chunks.
pub open spec fn is_chunk(
    doc: Seq<XmlNodeView>,
    node: int,
    start: Option<nat>,
    units: nat,
    count: nat,
) -> bool {
    &&& attr_of(doc, node, "t"@) == match start {
        Some(t) => Some(dec(t)),
        None => None,
    }
    &&& attr_of(doc, node, "d"@) == Some(dec(units))
    &&& attr_of(doc, node, "r"@) == Some(dec(count))
}

/// A run of chunks gives as many segments as it states. The first begins where it states, or without
/// that where the one before ended; each other begins where the one before it ends. The start time is
/// what the URL is made with.
pub proof fn law_chunks_begin_where_they_state(
    rule: ChunkRule,
    doc: Seq<XmlNodeView>,
    nodes: Seq<int>,
    n: int,
    total: i64,
    start: Option<nat>,
    units: nat,
    count: nat,
    k: int,
)
    requires
        0 < n <= nodes.len(),
        chunk_states(rule, doc, nodes, n - 1, total) is Ok,
        is_chunk(doc, nodes[n - 1], start, units, count),
        0 <= k < count,
        start is Some ==> start->0 <= i64::MAX,
        units <= i64::MAX,
        count <= i64::MAX,
        ({
            let st = chunk_states(rule, doc, nodes, n - 1, total)->Ok_0;
            let begin = match start {
                Some(t) => t as int,
                None => st.time as int,
            };
            0 <= st.time && 0 <= st.index && begin + count * units <= i64::MAX && st.index + count
                <= i64::MAX
        }),
    ensures
        ({
            let st = chunk_states(rule, doc, nodes, n - 1, total)->Ok_0;
            let next = chunk_states(rule, doc, nodes, n, total);
            let begin = match start {
                Some(t) => t as int,
                None => st.time as int,
            };
            let s = next->Ok_0.segments[st.segments.len() + k];
            &&& next is Ok
            &&& next->Ok_0.segments.len() == st.segments.len() + count
            &&& next->Ok_0.segments.take(st.segments.len() as int) == st.segments
            &&& next->Ok_0.time == begin + count * units
            &&& s.index == st.index + k
            &&& s.url == filled_pattern(rule.combined, rule.bitrate, begin + k * units)
            &&& s.duration == (MediaDurationView::Ticks {
                units: units as int,
                timescale: rule.timescale as int,
            })
        }),
{
    law_decimal_is_read_within(units, i64::MIN as int, i64::MAX as int);
    law_decimal_is_read_within(count, i64::MIN as int, i64::MAX as int);
    if start is Some {
        law_decimal_is_read_within(start->0, i64::MIN as int, i64::MAX as int);
    }
    let st = chunk_states(rule, doc, nodes, n - 1, total)->Ok_0;
    let begin = match start {
        Some(t) => t as int,
        None => st.time as int,
    };
    assert(chunk_count(count as int, total as int, units as int) == count);
    let from = ChunkState { time: begin as i64, ..st };
    lemma_chunks(rule, from, units as i64, count, k);
}

/// The numbers of a quality level are those that it states.
pub proof fn law_level_is_what_it_states(
    doc: Seq<XmlNodeView>,
    q: int,
    bitrate: nat,
    width: nat,
    height: nat,
)
    requires
        attr_of(doc, q, "Bitrate"@) == Some(dec(bitrate)),
        attr_of(doc, q, "MaxWidth"@) == Some(dec(width)),
        attr_of(doc, q, "MaxHeight"@) == Some(dec(height)),
        bitrate <= i32::MAX,
        width <= i32::MAX,
        height <= i32::MAX,
        level_numbers(doc, q) is Ok,
    ensures
        level_numbers(doc, q)->Ok_0.bitrate == bitrate,
        level_numbers(doc, q)->Ok_0.width == width,
        level_numbers(doc, q)->Ok_0.height == height,
{
    law_decimal_is_read_within(bitrate, i32::MIN as int, i32::MAX as int);
    law_decimal_is_read_within(width, i32::MIN as int, i32::MAX as int);
    law_decimal_is_read_within(height, i32::MIN as int, i32::MAX as int);
}

/// The stream of a quality level has its size, its bit rate and its segments.
pub proof fn law_stream_of_a_level(
    c: MssContextView,
    stream_index: int,
    q: int,
    four_cc: Seq<char>,
    n: LevelNumbers,
    segments: Seq<MediaSegmentView>,
)
    requires
        0 < n.width,
        0 <= n.height,
        0 <= n.bitrate <= i64::MAX,
    ensures
        ({
            let s = bare_stream(c, stream_index, q, four_cc, n, segments);
            &&& s.resolution == Some(dec(n.width as nat) + "x"@ + dec(n.height as nat))
            &&& s.bandwidth is Some && s.bandwidth->0 == n.bitrate
            &&& s.playlist is Some
            &&& (s.playlist->0).media_parts == seq![segments]
            &&& (s.playlist->0).is_live == c.is_live
            &&& s.mss_data is Some && (s.mss_data->0).timescale == c.timescale
            &&& (s.mss_data->0).duration == c.duration
            &&& (s.mss_data->0).four_cc == four_cc
        }),
{
}

/// Audio and text are told from video.
pub proof fn law_stream_types()
    ensures
        media_type_of("audio"@) == Some(crate::manifest::MediaType::Audio),
        media_type_of("text"@) == Some(crate::manifest::MediaType::Subtitles),
        media_type_of("video"@) is None,
{
    reveal_strlit("audio");
    reveal_strlit("text");
    reveal_strlit("video");
    assert("audio"@.len() == 5 && "text"@.len() == 4 && "video"@.len() == 5);
    assert("video"@[0] == 'v' && "audio"@[0] == 'a');
}

/// The initialization segment of a stream holds the bytes that were made for it; its segments stay.
pub proof fn law_init_holds_its_bytes(
    stream: StreamView,
    bytes: Seq<u8>,
    codecs: Option<Seq<char>>,
)
    requires
        stream.playlist is Some,
        (stream.playlist->0).media_init is Some,
    ensures
        ({
            let s = with_init(stream, bytes, codecs);
            &&& s.playlist is Some
            &&& (s.playlist->0).media_init is Some
            &&& ((s.playlist->0).media_init->0).url == "base64://"@ + base64_text(bytes)
            &&& (s.playlist->0).media_parts == (stream.playlist->0).media_parts
            &&& codecs is Some ==> s.codecs == codecs
            &&& codecs is None ==> s.codecs == stream.codecs
        }),
{
}

/// Every segment of a protected stream is under the encryption of the manifest, with its data; text
/// is not.
pub proof fn law_protected_streams(
    stream: StreamView,
    stream_type: Seq<char>,
    protection: MssProtectionView,
    k: int,
)
    requires
        stream.playlist is Some,
        (stream.playlist->0).media_parts.len() > 0,
        0 <= k < (stream.playlist->0).media_parts[0].len(),
        with_protection(stream, stream_type, Some(protection)) is Ok,
    ensures
        ({
            let s = with_protection(stream, stream_type, Some(protection))->Ok_0;
            let before = (stream.playlist->0).media_parts[0][k];
            let after = (s.playlist->0).media_parts[0][k];
            &&& stream_type == "text"@ ==> s == stream
            &&& stream_type != "text"@ ==> {
                &&& s.playlist is Some
                &&& after.url == before.url && after.index == before.index && after.duration
                    == before.duration
                &&& after.encryption.method == crate::manifest::EncryptionMethod::Cenc
                &&& config_hex(protection.data_hex) == Ok::<Seq<u8>, crate::error::ErrorView>(
                    after.encryption.protection_data->0,
                )
                &&& after.encryption.protection_data is Some
            }
        }),
{
    let s = with_protection(stream, stream_type, Some(protection))->Ok_0;
    if stream_type != "text"@ {
        let e = crate::mss::mss_encryption(config_hex(protection.data_hex)->Ok_0);
        assert(s == protected_stream(stream, e));
    }
}

} // verus!
