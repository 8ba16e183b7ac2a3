//! What the lines of a media playlist say of its segments.

use crate::hls::{
    after_line, allows_maps, be_value, hls_url, is_ad_url, law_default_iv_is_the_number,
    same_identity, with_playlist, HlsStopView, KeyAnswerView, MediaStateView,
};
use crate::attribute::attribute_of;
use crate::datetime::timestamp_of;
use crate::error::ErrorView;
use crate::manifest::{
    blank_segment, Choice, EncryptionInfoView, EncryptionMethod, MediaDurationView,
    MediaSegmentView, MediaType, PlaylistView, StreamView,
};
use crate::numeric::manifest_number;
use crate::processor::ParserConfigView;
use crate::text::{dec, ends_with, starts_with, trim};
use crate::text_laws::{
    law_cut_at_a_character, law_decimal_is_read_within, law_no_cut_without_the_character,
    law_prefix_comes_off, law_split_at_a_character, law_split_without_the_character,
    lemma_decimal_is_trim, lemma_decimal_lacks, lemma_prefix_char,
};
use vstd::prelude::*;

verus! {

/// Where the lines that say something of a segment differ from one another.
proof fn lemma_tags(line: Seq<char>)
    ensures
        starts_with(line, "#EXT-X-BYTERANGE:"@) ==> line.len() > 8 && line[0] == '#' && line[1]
            == 'E' && line[4] == '-' && line[7] == 'B',
        starts_with(line, "#EXT-X-PLAYLIST-TYPE:"@) ==> line.len() > 8 && line[0] == '#' && line[1]
            == 'E' && line[4] == '-' && line[7] == 'P' && line[8] == 'L',
        starts_with(line, "#UPLYNK-SEGMENT"@) ==> line.len() > 8 && line[0] == '#' && line[1]
            == 'U',
        starts_with(line, "#EXT-X-TARGETDURATION:"@) ==> line.len() > 8 && line[0] == '#' && line[1]
            == 'E' && line[4] == '-' && line[7] == 'T',
        starts_with(line, "#EXT-X-MEDIA-SEQUENCE:"@) ==> line.len() > 8 && line[0] == '#' && line[1]
            == 'E' && line[4] == '-' && line[7] == 'M' && line[8] == 'E',
        starts_with(line, "#EXT-X-PROGRAM-DATE-TIME:"@) ==> line.len() > 8 && line[0] == '#'
            && line[1] == 'E' && line[4] == '-' && line[7] == 'P' && line[8] == 'R',
        starts_with(line, "#EXT-X-DISCONTINUITY"@) ==> line.len() > 8 && line[0] == '#' && line[1]
            == 'E' && line[4] == '-' && line[7] == 'D',
        starts_with(line, "#EXT-X-KEY:"@) ==> line.len() > 8 && line[0] == '#' && line[1] == 'E'
            && line[4] == '-' && line[7] == 'K',
        starts_with(line, "#EXTINF:"@) ==> line.len() > 7 && line[0] == '#' && line[1] == 'E'
            && line[4] == 'I',
        starts_with(line, "#EXT-X-ENDLIST"@) ==> line.len() > 8 && line[0] == '#' && line[1] == 'E'
            && line[4] == '-' && line[7] == 'E',
        starts_with(line, "#EXT-X-MAP:"@) ==> line.len() > 8 && line[0] == '#' && line[1] == 'E'
            && line[4] == '-' && line[7] == 'M' && line[8] == 'A',
        starts_with(line, "#EXTM3U"@) ==> line.len() > 6 && line[0] == '#' && line[1] == 'E'
            && line[4] == 'M',
        starts_with(line, "#"@) ==> line.len() > 0 && line[0] == '#',
        line.len() > 0 && line[0] == '#' ==> starts_with(line, "#"@),
{
    reveal_strlit("#EXT-X-BYTERANGE:");
    reveal_strlit("#EXT-X-PLAYLIST-TYPE:");
    reveal_strlit("#UPLYNK-SEGMENT");
    reveal_strlit("#EXT-X-TARGETDURATION:");
    reveal_strlit("#EXT-X-MEDIA-SEQUENCE:");
    reveal_strlit("#EXT-X-PROGRAM-DATE-TIME:");
    reveal_strlit("#EXT-X-DISCONTINUITY");
    reveal_strlit("#EXT-X-KEY:");
    reveal_strlit("#EXTINF:");
    reveal_strlit("#EXT-X-ENDLIST");
    reveal_strlit("#EXT-X-MAP:");
    reveal_strlit("#EXTM3U");
    reveal_strlit("#");
    lemma_first_chars(line, "#EXT-X-BYTERANGE:"@);
    lemma_first_chars(line, "#EXT-X-PLAYLIST-TYPE:"@);
    lemma_first_chars(line, "#UPLYNK-SEGMENT"@);
    lemma_first_chars(line, "#EXT-X-TARGETDURATION:"@);
    lemma_first_chars(line, "#EXT-X-MEDIA-SEQUENCE:"@);
    lemma_first_chars(line, "#EXT-X-PROGRAM-DATE-TIME:"@);
    lemma_first_chars(line, "#EXT-X-DISCONTINUITY"@);
    lemma_first_chars(line, "#EXT-X-KEY:"@);
    lemma_first_chars(line, "#EXTINF:"@);
    lemma_first_chars(line, "#EXT-X-ENDLIST"@);
    lemma_first_chars(line, "#EXT-X-MAP:"@);
    lemma_first_chars(line, "#EXTM3U"@);
    lemma_first_chars(line, "#"@);
    if line.len() > 0 && line[0] == '#' {
        assert(line.subrange(0, 1) =~= "#"@);
    }
}

/// The first characters of a prefix are those of the text.
proof fn lemma_first_chars(s: Seq<char>, p: Seq<char>)
    ensures
        starts_with(s, p) ==> s.len() >= p.len(),
        starts_with(s, p) && p.len() > 0 ==> s[0] == p[0],
        starts_with(s, p) && p.len() > 1 ==> s[1] == p[1],
        starts_with(s, p) && p.len() > 4 ==> s[4] == p[4],
        starts_with(s, p) && p.len() > 7 ==> s[7] == p[7],
        starts_with(s, p) && p.len() > 8 ==> s[8] == p[8],
{
    if p.len() > 0 {
        lemma_prefix_char(s, p, 0);
    }
    if p.len() > 1 {
        lemma_prefix_char(s, p, 1);
    }
    if p.len() > 4 {
        lemma_prefix_char(s, p, 4);
    }
    if p.len() > 7 {
        lemma_prefix_char(s, p, 7);
    }
    if p.len() > 8 {
        lemma_prefix_char(s, p, 8);
    }
}

/// A segment is under a key: it has the method and the key, and the vector that is stated with the
/// key; where none is stated, its vector is its number, in sixteen bytes. Without a method it is in
/// the clear.
pub open spec fn is_under(segment: MediaSegmentView, key: EncryptionInfoView) -> bool {
    if key.method == EncryptionMethod::Unencrypted {
        segment.encryption.method == EncryptionMethod::Unencrypted
    } else {
        &&& segment.encryption.method == key.method
        &&& segment.encryption.key == key.key
        &&& segment.encryption.kid == key.kid
        &&& match key.iv {
            Some(stated) => segment.encryption.iv == Some(stated),
            None => {
                &&& segment.encryption.iv is Some
                &&& segment.encryption.iv->0.len() == 16
                &&& segment.index >= 0 ==> be_value(segment.encryption.iv->0) == segment.index
            },
        }
    }
}

/// A line with a duration prepares a segment of that duration under the next number and under the
/// key that is in force. What was read stays as it is.
pub proof fn law_duration_line_prepares_the_segment(
    st: MediaStateView,
    duration: Seq<char>,
    title: Seq<char>,
    url: Seq<char>,
    config: ParserConfigView,
    keys: Seq<KeyAnswerView>,
)
    requires
        st.inside_ad == Choice::No,
        !duration.contains(','),
        manifest_number(duration) is Some,
        st.pending.encryption.method == EncryptionMethod::Unencrypted,
        0 <= st.index < i64::MAX,
    ensures
        ({
            let line = "#EXTINF:"@ + (duration + ","@ + title);
            let next = after_line(st, line, url, config, keys)->Ok_0;
            &&& after_line(st, line, url, config, keys) is Ok
            &&& next.pending.duration == MediaDurationView::Seconds(manifest_number(duration)->0)
            &&& next.pending.index == st.index
            &&& is_under(next.pending, st.encryption)
            &&& next.pending.start_range == st.pending.start_range
            &&& next.pending.expected_length == st.pending.expected_length
            &&& next.pending.program_date_time == st.pending.program_date_time
            &&& next.expect_segment == Choice::Yes
            &&& next.index == st.index + 1
            &&& next == (MediaStateView {
                pending: next.pending,
                expect_segment: Choice::Yes,
                index: next.index,
                ..st
            })
        }),
{
    reveal(after_line);
    reveal_strlit(",");
    let value = duration + ","@ + title;
    let line = "#EXTINF:"@ + value;
    assert(","@ =~= seq![',']);
    law_cut_at_a_character(duration, ',', title);
    law_prefix_comes_off("#EXTINF:"@, value);
    lemma_tags(line);
    law_default_iv_is_the_number(st.index as int);
}

/// A line without a tag, where a segment was prepared, adds it with its URL. Nothing of it is left for
/// the next one, but where its bytes end.
pub proof fn law_url_line_adds_the_segment(
    st: MediaStateView,
    line: Seq<char>,
    url: Seq<char>,
    config: ParserConfigView,
    keys: Seq<KeyAnswerView>,
)
    requires
        st.inside_ad == Choice::No,
        st.expect_segment == Choice::Yes,
        line.len() > 0,
        line[0] != '#',
        !is_ad_url(hls_url(line, url, config).0),
    ensures
        ({
            let next = after_line(st, line, url, config, keys)->Ok_0;
            let added = next.current.last();
            &&& after_line(st, line, url, config, keys) is Ok
            &&& next.current.len() == st.current.len() + 1
            &&& next.current.drop_last() == st.current
            &&& added.url == hls_url(line, url, config).0
            &&& added == (MediaSegmentView { url: added.url, ..st.pending })
            &&& next.pending == blank_segment()
            &&& next.expect_segment == Choice::No
            &&& next.parts == st.parts
            &&& next.encryption == st.encryption
            &&& next.index == st.index
            &&& next.ended == st.ended
            &&& next.stopped == st.stopped
            &&& next.keys_used == st.keys_used
            &&& next.last_key_line == st.last_key_line
            &&& next.media_init == st.media_init
            &&& next.ad_removed == st.ad_removed
            &&& next.inside_ad == st.inside_ad
            &&& next.target_duration == st.target_duration
            &&& st.pending.start_range is Some && st.pending.expected_length is Some
                && st.pending.start_range->0 + st.pending.expected_length->0 <= i64::MAX
                && st.pending.start_range->0 + st.pending.expected_length->0 >= i64::MIN
                ==> next.range_next is Some && next.range_next->0 == st.pending.start_range->0
                + st.pending.expected_length->0
        }),
{
    reveal(after_line);
    lemma_tags(line);
    let next = after_line(st, line, url, config, keys)->Ok_0;
    assert(next.current.drop_last() =~= st.current);
}

/// A key line puts the next key in force for the segments behind it and changes no other.
pub proof fn law_key_line_puts_the_next_key_in_force(
    st: MediaStateView,
    rest: Seq<char>,
    url: Seq<char>,
    config: ParserConfigView,
    keys: Seq<KeyAnswerView>,
)
    requires
        st.inside_ad == Choice::No,
        "#EXT-X-KEY:"@ + rest != st.last_key_line,
        0 <= st.keys_used < keys.len(),
    ensures
        ({
            let line = "#EXT-X-KEY:"@ + rest;
            let next = after_line(st, line, url, config, keys)->Ok_0;
            &&& after_line(st, line, url, config, keys) is Ok
            &&& next == (MediaStateView {
                encryption: keys[st.keys_used].info,
                last_key_line: line,
                keys_used: st.keys_used + 1,
                diagnostics: st.diagnostics + keys[st.keys_used].diagnostics,
                ..st
            })
        }),
{
    reveal(after_line);
    let line = "#EXT-X-KEY:"@ + rest;
    law_prefix_comes_off("#EXT-X-KEY:"@, rest);
    lemma_tags(line);
}

/// The first line of a playlist says nothing of its segments.
pub proof fn law_first_line_says_nothing(
    st: MediaStateView,
    url: Seq<char>,
    config: ParserConfigView,
    keys: Seq<KeyAnswerView>,
)
    requires
        st.inside_ad == Choice::No,
    ensures
        after_line(st, "#EXTM3U"@, url, config, keys) == Ok::<MediaStateView, HlsStopView>(st),
{
    reveal(after_line);
    reveal_strlit("#EXTM3U");
    lemma_tags("#EXTM3U"@);
}

/// A byte range with its start is what the line states.
pub proof fn law_range_line_states_the_range(
    st: MediaStateView,
    length: nat,
    start: nat,
    url: Seq<char>,
    config: ParserConfigView,
    keys: Seq<KeyAnswerView>,
)
    requires
        st.inside_ad == Choice::No,
        length <= i64::MAX,
        start <= i64::MAX,
    ensures
        ({
            let line = "#EXT-X-BYTERANGE:"@ + (dec(length) + "@"@ + dec(start));
            let next = after_line(st, line, url, config, keys)->Ok_0;
            &&& after_line(st, line, url, config, keys) is Ok
            &&& next.pending.expected_length is Some && next.pending.expected_length->0 == length
            &&& next.pending.start_range is Some && next.pending.start_range->0 == start
            &&& next.expect_segment == Choice::Yes
            &&& next.current == st.current && next.parts == st.parts
        }),
{
    reveal(after_line);
    reveal_strlit("@");
    let value = dec(length) + "@"@ + dec(start);
    let line = "#EXT-X-BYTERANGE:"@ + value;
    assert("@"@ =~= seq!['@']);
    lemma_decimal_lacks(length, '@');
    lemma_decimal_lacks(start, '@');
    law_cut_at_a_character(dec(length), '@', dec(start));
    law_split_at_a_character(dec(length), '@', dec(start));
    law_split_without_the_character(dec(start), '@');
    lemma_decimal_is_trim(length);
    lemma_decimal_is_trim(start);
    law_decimal_is_read_within(length, i64::MIN as int, i64::MAX as int);
    law_decimal_is_read_within(start, i64::MIN as int, i64::MAX as int);
    law_prefix_comes_off("#EXT-X-BYTERANGE:"@, value);
    lemma_tags(line);
}

/// A byte range without a start begins where the one before ended.
pub proof fn law_range_line_goes_on(
    st: MediaStateView,
    length: nat,
    url: Seq<char>,
    config: ParserConfigView,
    keys: Seq<KeyAnswerView>,
)
    requires
        st.inside_ad == Choice::No,
        length <= i64::MAX,
        st.range_next is Some,
    ensures
        ({
            let line = "#EXT-X-BYTERANGE:"@ + dec(length);
            let next = after_line(st, line, url, config, keys)->Ok_0;
            &&& after_line(st, line, url, config, keys) is Ok
            &&& next.pending.expected_length is Some && next.pending.expected_length->0 == length
            &&& next.pending.start_range == st.range_next
        }),
{
    reveal(after_line);
    reveal_strlit("@");
    let line = "#EXT-X-BYTERANGE:"@ + dec(length);
    assert("@"@ =~= seq!['@']);
    lemma_decimal_lacks(length, '@');
    law_no_cut_without_the_character(dec(length), '@');
    law_split_without_the_character(dec(length), '@');
    lemma_decimal_is_trim(length);
    law_decimal_is_read_within(length, i64::MIN as int, i64::MAX as int);
    law_prefix_comes_off("#EXT-X-BYTERANGE:"@, dec(length));
    lemma_tags(line);
}

/// The number of the next segment is the one that the playlist states.
pub proof fn law_sequence_line_states_the_number(
    st: MediaStateView,
    number: nat,
    url: Seq<char>,
    config: ParserConfigView,
    keys: Seq<KeyAnswerView>,
)
    requires
        st.inside_ad == Choice::No,
        number <= i64::MAX,
    ensures
        ({
            let line = "#EXT-X-MEDIA-SEQUENCE:"@ + dec(number);
            let next = after_line(st, line, url, config, keys)->Ok_0;
            &&& after_line(st, line, url, config, keys) is Ok
            &&& next.index == number
            &&& next == (MediaStateView { index: next.index, ..st })
        }),
{
    reveal(after_line);
    let line = "#EXT-X-MEDIA-SEQUENCE:"@ + dec(number);
    lemma_decimal_is_trim(number);
    law_decimal_is_read_within(number, i64::MIN as int, i64::MAX as int);
    law_prefix_comes_off("#EXT-X-MEDIA-SEQUENCE:"@, dec(number));
    lemma_tags(line);
}

/// The longest duration is the one that the playlist states.
pub proof fn law_target_line_states_the_duration(
    st: MediaStateView,
    text: Seq<char>,
    url: Seq<char>,
    config: ParserConfigView,
    keys: Seq<KeyAnswerView>,
)
    requires
        st.inside_ad == Choice::No,
        manifest_number(text) is Some,
    ensures
        ({
            let line = "#EXT-X-TARGETDURATION:"@ + text;
            let next = after_line(st, line, url, config, keys)->Ok_0;
            &&& after_line(st, line, url, config, keys) is Ok
            &&& next.target_duration == manifest_number(text)
            &&& next == (MediaStateView { target_duration: next.target_duration, ..st })
        }),
{
    reveal(after_line);
    let line = "#EXT-X-TARGETDURATION:"@ + text;
    law_prefix_comes_off("#EXT-X-TARGETDURATION:"@, text);
    lemma_tags(line);
}

/// A discontinuity begins a new part: the segments so far make one, in their order, and byte ranges
/// do not go on over it.
pub proof fn law_discontinuity_begins_a_part(
    st: MediaStateView,
    rest: Seq<char>,
    url: Seq<char>,
    config: ParserConfigView,
    keys: Seq<KeyAnswerView>,
)
    requires
        st.inside_ad == Choice::No,
        st.ad_removed == Choice::No,
        st.current.len() > 0,
    ensures
        ({
            let line = "#EXT-X-DISCONTINUITY"@ + rest;
            let next = after_line(st, line, url, config, keys)->Ok_0;
            &&& after_line(st, line, url, config, keys) is Ok
            &&& next.parts.len() == st.parts.len() + 1
            &&& next.parts.drop_last() == st.parts
            &&& next.parts.last() == st.current
            &&& next.current.len() == 0
            &&& next.range_next is None
            &&& next.index == st.index
            &&& next.encryption == st.encryption
        }),
{
    reveal(after_line);
    let line = "#EXT-X-DISCONTINUITY"@ + rest;
    law_prefix_comes_off("#EXT-X-DISCONTINUITY"@, rest);
    lemma_tags(line);
    let next = after_line(st, line, url, config, keys)->Ok_0;
    assert(next.parts.drop_last() =~= st.parts);
}

/// The end of a playlist completes its last part, and the playlist has an end.
pub proof fn law_end_line_ends_the_playlist(
    st: MediaStateView,
    rest: Seq<char>,
    url: Seq<char>,
    config: ParserConfigView,
    keys: Seq<KeyAnswerView>,
)
    requires
        st.inside_ad == Choice::No,
    ensures
        ({
            let line = "#EXT-X-ENDLIST"@ + rest;
            let next = after_line(st, line, url, config, keys)->Ok_0;
            &&& after_line(st, line, url, config, keys) is Ok
            &&& next.ended == Choice::Yes
            &&& next.parts == if st.current.len() == 0 {
                st.parts
            } else {
                st.parts.push(st.current)
            }
            &&& next.current.len() == 0
            &&& next.stopped == st.stopped
            &&& next.target_duration == st.target_duration
            &&& next.media_init == st.media_init
        }),
{
    reveal(after_line);
    let line = "#EXT-X-ENDLIST"@ + rest;
    law_prefix_comes_off("#EXT-X-ENDLIST"@, rest);
    lemma_tags(line);
}

/// The URL of an advertisement is left out, and its number is free for the next segment.
pub proof fn law_advertisements_are_left_out(
    st: MediaStateView,
    line: Seq<char>,
    url: Seq<char>,
    config: ParserConfigView,
    keys: Seq<KeyAnswerView>,
)
    requires
        st.inside_ad == Choice::No,
        st.expect_segment == Choice::Yes,
        line.len() > 0,
        line[0] != '#',
        is_ad_url(hls_url(line, url, config).0),
        st.index > i64::MIN,
    ensures
        ({
            let next = after_line(st, line, url, config, keys)->Ok_0;
            &&& after_line(st, line, url, config, keys) is Ok
            &&& next.current == st.current
            &&& next.parts == st.parts
            &&& next.index == st.index - 1
            &&& next.ad_removed == Choice::Yes
            &&& next.expect_segment == Choice::No
        }),
{
    reveal(after_line);
    lemma_tags(line);
}

/// A playlist of a kind that ends with `VOD` has an end; one of another kind has none yet.
pub proof fn law_type_line_states_the_end(
    st: MediaStateView,
    kind: Seq<char>,
    url: Seq<char>,
    config: ParserConfigView,
    keys: Seq<KeyAnswerView>,
)
    requires
        st.inside_ad == Choice::No,
    ensures
        ({
            let line = "#EXT-X-PLAYLIST-TYPE:"@ + kind;
            let next = after_line(st, line, url, config, keys)->Ok_0;
            &&& after_line(st, line, url, config, keys) is Ok
            &&& next.ended == if ends_with(trim(kind), "VOD"@) {
                Choice::Yes
            } else {
                Choice::No
            }
            &&& next == (MediaStateView { ended: next.ended, ..st })
        }),
{
    reveal(after_line);
    law_prefix_comes_off("#EXT-X-PLAYLIST-TYPE:"@, kind);
    lemma_tags("#EXT-X-PLAYLIST-TYPE:"@ + kind);
}

/// The time that a line states is that of the next segment.
pub proof fn law_date_line_dates_the_segment(
    st: MediaStateView,
    text: Seq<char>,
    url: Seq<char>,
    config: ParserConfigView,
    keys: Seq<KeyAnswerView>,
)
    requires
        st.inside_ad == Choice::No,
        timestamp_of(trim(text), 0) is Some,
    ensures
        ({
            let line = "#EXT-X-PROGRAM-DATE-TIME:"@ + text;
            let next = after_line(st, line, url, config, keys)->Ok_0;
            &&& after_line(st, line, url, config, keys) is Ok
            &&& next.pending == (MediaSegmentView {
                program_date_time: Some(trim(text)),
                ..st.pending
            })
            &&& next == (MediaStateView { pending: next.pending, ..st })
        }),
{
    reveal(after_line);
    law_prefix_comes_off("#EXT-X-PROGRAM-DATE-TIME:"@, text);
    lemma_tags("#EXT-X-PROGRAM-DATE-TIME:"@ + text);
}

/// The first map is the initialization segment, with its URL and its range, under the key that is in
/// force; a second one ends the playlist unless several are allowed.
pub proof fn law_map_lines(
    st: MediaStateView,
    value: Seq<char>,
    url: Seq<char>,
    config: ParserConfigView,
    keys: Seq<KeyAnswerView>,
    uri: Seq<char>,
)
    requires
        st.inside_ad == Choice::No,
        st.ad_removed == Choice::No,
        attribute_of(value, "URI"@) == Ok::<Option<Seq<char>>, ErrorView>(Some(uri)),
        attribute_of(value, "BYTERANGE"@) == Ok::<Option<Seq<char>>, ErrorView>(None),
        st.encryption.iv is Some,
    ensures
        ({
            let line = "#EXT-X-MAP:"@ + value;
            let next = after_line(st, line, url, config, keys)->Ok_0;
            &&& after_line(st, line, url, config, keys) is Ok
            &&& st.media_init is None ==> {
                &&& next.media_init is Some
                &&& (next.media_init->0).url == hls_url(uri, url, config).0
                &&& (next.media_init->0).index == -1
                &&& is_under(next.media_init->0, st.encryption)
                &&& next.current == st.current && next.parts == st.parts
                &&& next.stopped == st.stopped
            }
            &&& st.media_init is Some ==> {
                &&& next.media_init == st.media_init
                &&& next.stopped == if allows_maps(config) {
                    st.stopped
                } else {
                    Choice::Yes
                }
                &&& st.current.len() > 0 ==> next.parts == st.parts.push(st.current)
                    && next.current.len() == 0
            }
        }),
{
    reveal(after_line);
    law_prefix_comes_off("#EXT-X-MAP:"@, value);
    lemma_tags("#EXT-X-MAP:"@ + value);
}

/// A stream gets the playlist that was read for it. It holds fragments where that begins with an
/// initialization segment; one that it has already stays.
pub proof fn law_streams_get_their_playlists(stream: StreamView, playlist: PlaylistView)
    requires
        stream.media_type != Some(MediaType::Subtitles),
    ensures
        ({
            let s = with_playlist(stream, playlist);
            &&& s.playlist is Some
            &&& (s.playlist->0).media_parts == playlist.media_parts
            &&& (s.playlist->0).is_live == playlist.is_live
            &&& playlist.media_init is Some ==> s.extension == Some("m4s"@)
            &&& playlist.media_init is None ==> s.extension == Some("ts"@)
            &&& stream.playlist is None ==> (s.playlist->0).media_init == playlist.media_init
            &&& stream.playlist is Some && (stream.playlist->0).media_init is Some ==> (
            s.playlist->0).media_init == (stream.playlist->0).media_init
            &&& s.url == stream.url && s.bandwidth == stream.bandwidth
        }),
{
}

/// Two streams are the same in a refreshed master playlist where all that they state agrees.
pub proof fn law_same_streams(a: StreamView, b: StreamView, rate: bool)
    ensures
        same_identity(a, b, rate) ==> a.group_id == b.group_id && a.bandwidth == b.bandwidth
            && a.resolution == b.resolution && a.language == b.language && rate,
        same_identity(a, a, true),
        same_identity(a, b, rate) == same_identity(b, a, rate),
{
}

} // verus!
