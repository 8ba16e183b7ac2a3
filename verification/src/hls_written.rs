//! Media playlists that are written down, and read back.

use crate::hls::{
    after_line, after_lines, hls_url, is_ad_url, media_playlist_of, media_start, HlsStopView,
    KeyAnswerView, MediaStateView,
};
use crate::hls_laws::{
    is_under, law_duration_line_prepares_the_segment, law_end_line_ends_the_playlist,
    law_first_line_says_nothing, law_key_line_puts_the_next_key_in_force,
    law_sequence_line_states_the_number, law_url_line_adds_the_segment,
};
use crate::manifest::{
    blank_segment, Choice, EncryptionInfoView, MediaDurationView, MediaSegmentView,
};
use crate::numeric::manifest_number;
use crate::processor::ParserConfigView;
use crate::text::{dec, lines};
use vstd::prelude::*;

verus! {

/// One segment of a playlist that is written down.
pub struct WrittenSegment {
    pub duration: Seq<char>,
    pub title: Seq<char>,
    pub url: Seq<char>,
}

/// The lines of a playlist: its head with the first number and the key, each segment, and the end.
pub open spec fn written_playlist(first: nat, key: Seq<char>, segments: Seq<WrittenSegment>) -> Seq<
    Seq<char>,
> {
    written_head(first, key, segments, segments.len() as int).push("#EXT-X-ENDLIST"@)
}

/// The lines of a playlist up to its segment `n`.
pub open spec fn written_head(first: nat, key: Seq<char>, segments: Seq<WrittenSegment>, n: int) -> Seq<
    Seq<char>,
>
    decreases n,
{
    if n <= 0 {
        seq!["#EXTM3U"@, "#EXT-X-MEDIA-SEQUENCE:"@ + dec(first), "#EXT-X-KEY:"@ + key]
    } else {
        let s = segments[n - 1];
        written_head(first, key, segments, n - 1).push(
            "#EXTINF:"@ + (s.duration + ","@ + s.title),
        ).push(s.url)
    }
}

/// A segment that can be written down.
#[verifier::opaque]
pub open spec fn can_be_written(s: WrittenSegment, url: Seq<char>, config: ParserConfigView) -> bool {
    &&& !s.duration.contains(',')
    &&& manifest_number(s.duration) is Some
    &&& s.url.len() > 0
    &&& s.url[0] != '#'
    &&& !is_ad_url(hls_url(s.url, url, config).0)
}

proof fn lemma_written_head_len(first: nat, key: Seq<char>, segments: Seq<WrittenSegment>, n: int)
    requires
        0 <= n <= segments.len(),
    ensures
        written_head(first, key, segments, n).len() == 3 + 2 * n,
    decreases n,
{
    if n > 0 {
        lemma_written_head_len(first, key, segments, n - 1);
    }
}

/// The lines of a longer list begin with those of a shorter one.
proof fn lemma_lines_depend_on_the_first(
    a: Seq<Seq<char>>,
    b: Seq<Seq<char>>,
    n: int,
    url: Seq<char>,
    config: ParserConfigView,
    keys: Seq<KeyAnswerView>,
)
    requires
        0 <= n <= a.len(),
        n <= b.len(),
        forall|i: int| 0 <= i < n ==> a[i] == b[i],
    ensures
        after_lines(a, n, url, config, keys) == after_lines(b, n, url, config, keys),
    decreases n,
{
    if n > 0 {
        lemma_lines_depend_on_the_first(a, b, n - 1, url, config, keys);
        assert(a[n - 1] == b[n - 1]);
    }
}

/// The segments that were written down so far are read, and nothing else.
#[verifier::opaque]
spec fn is_read(
    st: MediaStateView,
    first: nat,
    segments: Seq<WrittenSegment>,
    n: int,
    url: Seq<char>,
    config: ParserConfigView,
    key: EncryptionInfoView,
) -> bool {
    &&& st.inside_ad == Choice::No
    &&& st.ad_removed == Choice::No
    &&& st.stopped == Choice::No
    &&& st.ended == Choice::No
    &&& st.pending == blank_segment()
    &&& st.encryption == key
    &&& st.index == first + n
    &&& st.parts.len() == 0
    &&& st.current.len() == n
    &&& st.media_init is None
    &&& forall|i: int|
        0 <= i < n ==> read_as(#[trigger] st.current[i], first, segments, i, url, config, key)
}

/// A segment that was read is segment `i` of those that were written down: it has its duration, its
/// URL and its place, and is under the key.
pub open spec fn read_as(
    s: MediaSegmentView,
    first: nat,
    segments: Seq<WrittenSegment>,
    i: int,
    url: Seq<char>,
    config: ParserConfigView,
    key: EncryptionInfoView,
) -> bool {
    &&& s.index == first + i
    &&& s.url == hls_url(segments[i].url, url, config).0
    &&& s.duration == MediaDurationView::Seconds(manifest_number(segments[i].duration)->0)
    &&& is_under(s, key)
    &&& s.start_range is None
    &&& s.expected_length is None
}

/// The head of a playlist puts its first number and its key in force.
proof fn lemma_head_is_read(
    all: Seq<Seq<char>>,
    first: nat,
    key: Seq<char>,
    segments: Seq<WrittenSegment>,
    url: Seq<char>,
    config: ParserConfigView,
    answer: KeyAnswerView,
)
    requires
        all.len() >= 3,
        all[0] == "#EXTM3U"@,
        all[1] == "#EXT-X-MEDIA-SEQUENCE:"@ + dec(first),
        all[2] == "#EXT-X-KEY:"@ + key,
        first <= i64::MAX,
    ensures
        after_lines(all, 3, url, config, seq![answer]) is Ok,
        is_read(
            after_lines(all, 3, url, config, seq![answer])->Ok_0,
            first,
            segments,
            0,
            url,
            config,
            answer.info,
        ),
{
    reveal(is_read);
    let keys = seq![answer];
    let start = media_start(config);
    reveal_strlit("");
    reveal_strlit("#EXTM3U");
    reveal_strlit("#EXT-X-MEDIA-SEQUENCE:");
    reveal_strlit("#EXT-X-KEY:");
    assert(after_lines(all, 0, url, config, keys) == Ok::<MediaStateView, HlsStopView>(start));
    law_first_line_says_nothing(start, url, config, keys);
    assert(after_lines(all, 1, url, config, keys) == Ok::<MediaStateView, HlsStopView>(start));
    law_sequence_line_states_the_number(start, first, url, config, keys);
    let numbered = after_line(start, all[1], url, config, keys)->Ok_0;
    assert(all[1].len() > 0 && all[2].len() > 0);
    assert(after_lines(all, 2, url, config, keys) == Ok::<MediaStateView, HlsStopView>(numbered));
    assert(all[2] != numbered.last_key_line);
    law_key_line_puts_the_next_key_in_force(numbered, key, url, config, keys);
    assert(after_lines(all, 3, url, config, keys) == after_line(
        numbered,
        all[2],
        url,
        config,
        keys,
    ));
}

/// Two more lines are one more segment.
proof fn lemma_segment_is_read(
    st: MediaStateView,
    first: nat,
    segments: Seq<WrittenSegment>,
    n: int,
    url: Seq<char>,
    config: ParserConfigView,
    answer: KeyAnswerView,
)
    requires
        0 <= n < segments.len(),
        first + segments.len() <= i64::MAX,
        can_be_written(segments[n], url, config),
        is_read(st, first, segments, n, url, config, answer.info),
    ensures
        ({
            let s = segments[n];
            let keys = seq![answer];
            let line = "#EXTINF:"@ + (s.duration + ","@ + s.title);
            let prepared = after_line(st, line, url, config, keys);
            let done = after_line(prepared->Ok_0, s.url, url, config, keys);
            &&& prepared is Ok
            &&& prepared->Ok_0.stopped == Choice::No
            &&& done is Ok
            &&& is_read(done->Ok_0, first, segments, n + 1, url, config, answer.info)
        }),
{
    reveal(is_read);
    reveal(can_be_written);
    let keys = seq![answer];
    let s = segments[n];
    let line = "#EXTINF:"@ + (s.duration + ","@ + s.title);
    law_duration_line_prepares_the_segment(st, s.duration, s.title, url, config, keys);
    let prepared = after_line(st, line, url, config, keys)->Ok_0;
    law_url_line_adds_the_segment(prepared, s.url, url, config, keys);
    let done = after_line(prepared, s.url, url, config, keys)->Ok_0;
    let p = prepared.pending;
    let added = done.current.last();
    assert(is_under(p, st.encryption));
    assert(is_under(added, answer.info));
    assert forall|i: int| 0 <= i < n + 1 implies read_as(
        #[trigger] done.current[i],
        first,
        segments,
        i,
        url,
        config,
        answer.info,
    ) by {
        if i < n {
            assert(done.current[i] == done.current.drop_last()[i]);
            assert(read_as(st.current[i], first, segments, i, url, config, answer.info));
        } else {
            assert(done.current[i] == added);
        }
    }
}

proof fn lemma_written_head_is_read(
    first: nat,
    key: Seq<char>,
    segments: Seq<WrittenSegment>,
    n: int,
    url: Seq<char>,
    config: ParserConfigView,
    answer: KeyAnswerView,
)
    requires
        0 <= n <= segments.len(),
        first + segments.len() <= i64::MAX,
        forall|i: int| 0 <= i < segments.len() ==> can_be_written(#[trigger] segments[i], url, config),
    ensures
        after_lines(
            written_head(first, key, segments, n),
            3 + 2 * n,
            url,
            config,
            seq![answer],
        ) is Ok,
        is_read(
            after_lines(
                written_head(first, key, segments, n),
                3 + 2 * n,
                url,
                config,
                seq![answer],
            )->Ok_0,
            first,
            segments,
            n,
            url,
            config,
            answer.info,
        ),
    decreases n,
{
    let keys = seq![answer];
    lemma_written_head_len(first, key, segments, n);
    let all = written_head(first, key, segments, n);
    if n == 0 {
        lemma_head_is_read(all, first, key, segments, url, config, answer);
    } else {
        let before = written_head(first, key, segments, n - 1);
        let s = segments[n - 1];
        lemma_written_head_is_read(first, key, segments, n - 1, url, config, answer);
        lemma_written_head_len(first, key, segments, n - 1);
        lemma_lines_depend_on_the_first(all, before, 1 + 2 * n, url, config, keys);
        let st = after_lines(all, 1 + 2 * n, url, config, keys)->Ok_0;
        assert(can_be_written(s, url, config));
        lemma_segment_is_read(st, first, segments, n - 1, url, config, answer);
        assert(st.stopped == Choice::No) by {
            reveal(is_read);
        }
        assert(s.url.len() > 0) by {
            reveal(can_be_written);
        }
        let line = "#EXTINF:"@ + (s.duration + ","@ + s.title);
        reveal_strlit("#EXTINF:");
        assert(all[1 + 2 * n] == line && line.len() > 0);
        let prepared = after_line(st, line, url, config, keys)->Ok_0;
        assert(after_lines(all, 2 + 2 * n, url, config, keys) == Ok::<
            MediaStateView,
            HlsStopView,
        >(prepared));
        assert(all[2 + 2 * n] == s.url);
        assert(after_lines(all, 3 + 2 * n, url, config, keys) == after_line(
            prepared,
            s.url,
            url,
            config,
            keys,
        ));
    }
}

/// A playlist that is written down is read back: it is complete and has the segments that were
/// written, in their order, each with its number, its duration and its URL, under the key that comes
/// before them. The vector that is stated with the key is theirs; only where none is stated it is
/// the number of the segment.
pub proof fn law_written_playlist_is_read_back(
    text: Seq<char>,
    first: nat,
    key: Seq<char>,
    segments: Seq<WrittenSegment>,
    url: Seq<char>,
    config: ParserConfigView,
    answer: KeyAnswerView,
)
    requires
        lines(text) == written_playlist(first, key, segments),
        segments.len() > 0,
        first + segments.len() <= i64::MAX,
        forall|i: int| 0 <= i < segments.len() ==> can_be_written(#[trigger] segments[i], url, config),
    ensures
        media_playlist_of(text, url, config, seq![answer]) is Ok,
        ({
            let p = media_playlist_of(text, url, config, seq![answer])->Ok_0;
            &&& !p.is_live
            &&& p.url == url
            &&& p.media_init is None
            &&& p.media_parts.len() == 1
            &&& p.media_parts[0].len() == segments.len()
            &&& forall|i: int|
                0 <= i < segments.len() ==> read_as(
                    #[trigger] p.media_parts[0][i],
                    first,
                    segments,
                    i,
                    url,
                    config,
                    answer.info,
                )
        }),
{
    let keys = seq![answer];
    let n = segments.len() as int;
    let all = lines(text);
    let head = written_head(first, key, segments, n);
    lemma_written_head_len(first, key, segments, n);
    lemma_written_head_is_read(first, key, segments, n, url, config, answer);
    lemma_lines_depend_on_the_first(all, head, 3 + 2 * n, url, config, keys);
    let st = after_lines(all, 3 + 2 * n, url, config, keys)->Ok_0;
    reveal(is_read);
    reveal_strlit("#EXT-X-ENDLIST");
    reveal_strlit("");
    assert("#EXT-X-ENDLIST"@ + Seq::<char>::empty() =~= "#EXT-X-ENDLIST"@);
    law_end_line_ends_the_playlist(st, Seq::empty(), url, config, keys);
    assert(all[3 + 2 * n] == "#EXT-X-ENDLIST"@);
    assert(after_lines(all, 4 + 2 * n, url, config, keys) == after_line(
        st,
        "#EXT-X-ENDLIST"@,
        url,
        config,
        keys,
    ));
    let p = media_playlist_of(text, url, config, keys)->Ok_0;
    assert(p.media_parts =~= seq![st.current]);
}

/// Without an end a playlist is live, and all its segments count.
pub proof fn law_playlist_without_end_is_live(
    text: Seq<char>,
    url: Seq<char>,
    config: ParserConfigView,
    keys: Seq<KeyAnswerView>,
)
    requires
        media_playlist_of(text, url, config, keys) is Ok,
        after_lines(lines(text), lines(text).len() as int, url, config, keys)->Ok_0.ended
            == Choice::No,
    ensures
        ({
            let st = after_lines(lines(text), lines(text).len() as int, url, config, keys)->Ok_0;
            let p = media_playlist_of(text, url, config, keys)->Ok_0;
            &&& p.is_live
            &&& p.media_parts.drop_last() == st.parts
            &&& p.media_parts.last() == st.current
            &&& p.target_duration == st.target_duration
        }),
{
    let st = after_lines(lines(text), lines(text).len() as int, url, config, keys)->Ok_0;
    let p = media_playlist_of(text, url, config, keys)->Ok_0;
    assert(p.media_parts.drop_last() =~= st.parts);
}

} // verus!
