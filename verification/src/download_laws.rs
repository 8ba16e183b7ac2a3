//! What is asked for, and what files are called.

use crate::codec::{base64_text, hex_text, law_base64_round_trip};
use crate::config::SubtitleFormat;
use crate::download::{
    cleanup_files, directory_name, local_copy, merge_policy, merge_warning, mode_for, output_ending,
    output_name, over_limit, positive_length, range_of, segment_redirect, shown_speed, source_of,
    split_file, stream_name, ticked, with_bytes, LocalCopy, SegmentSourceView, SpeedStateView,
    ThreadMode,
};
use crate::error::ErrorView;
use crate::manifest::{EncryptionMethod, MediaSegmentView, MediaType, StreamView};
use crate::path::path_join;
use crate::text::dec;
use crate::text_laws::{law_decimal_is_read_within, law_prefix_comes_off, lemma_prefix_char};
use vstd::prelude::*;

verus! {

/// The bytes that are asked for are those of the segment: from its first to its last, both included.
pub proof fn law_range_asks_for_the_segment(s: MediaSegmentView, start: nat, length: nat)
    requires
        s.start_range is Some && s.start_range->0 == start,
        s.expected_length is Some && s.expected_length->0 == length,
        length > 0,
        start + length <= i64::MAX,
    ensures
        range_of(s) == Ok::<Option<Seq<char>>, ErrorView>(
            Some("bytes="@ + dec(start) + "-"@ + dec((start + length - 1) as nat)),
        ),
{
}

/// A segment with a start alone is asked for from there on, and one without a range whole.
pub proof fn law_open_ranges(s: MediaSegmentView, start: nat)
    ensures
        s.start_range is None ==> range_of(s) == Ok::<Option<Seq<char>>, ErrorView>(None),
        s.start_range is Some && s.start_range->0 == start && s.expected_length is None
            ==> range_of(s) == Ok::<Option<Seq<char>>, ErrorView>(
            Some("bytes="@ + dec(start) + "-"@),
        ),
        s.start_range is Some && s.start_range->0 < 0 ==> range_of(s) is Err,
{
}

/// A segment whose URL holds its bytes, in base64 or in hexadecimal, has these bytes.
pub proof fn law_inline_segments_hold_their_bytes(b: Seq<u8>)
    requires
        b.len() > 0,
    ensures
        source_of("base64://"@ + base64_text(b)) == Ok::<SegmentSourceView, ErrorView>(
            SegmentSourceView::Bytes(b),
        ),
        source_of("hex://"@ + hex_text(b, false)) == Ok::<SegmentSourceView, ErrorView>(
            SegmentSourceView::Bytes(b),
        ),
        source_of("hex://"@ + ("0x"@ + hex_text(b, false))) == Ok::<SegmentSourceView, ErrorView>(
            SegmentSourceView::Bytes(b),
        ),
{
    reveal_strlit("base64://");
    reveal_strlit("hex://");
    reveal_strlit("file:");
    law_base64_round_trip(b);
    crate::attribute_laws::law_hexadecimal_is_read_back(b, false);
    let x = "base64://"@ + base64_text(b);
    let y = "hex://"@ + hex_text(b, false);
    let z = "hex://"@ + ("0x"@ + hex_text(b, false));
    law_prefix_comes_off("base64://"@, base64_text(b));
    law_prefix_comes_off("hex://"@, hex_text(b, false));
    law_prefix_comes_off("hex://"@, "0x"@ + hex_text(b, false));
    lemma_prefix_char(x, "file:"@, 0);
    lemma_prefix_char(x, "base64://"@, 0);
    lemma_prefix_char(y, "file:"@, 0);
    lemma_prefix_char(y, "base64://"@, 0);
    lemma_prefix_char(y, "hex://"@, 0);
    lemma_prefix_char(z, "file:"@, 0);
    lemma_prefix_char(z, "base64://"@, 0);
    lemma_prefix_char(z, "hex://"@, 0);
}

/// A segment of a file that is here is copied from its start, as long as its range says.
pub proof fn law_local_copies_follow_the_range(
    s: MediaSegmentView,
    start: nat,
    length: nat,
    source: u64,
)
    requires
        s.start_range is Some && s.start_range->0 == start,
        s.expected_length is Some && s.expected_length->0 == length,
        length > 0,
        start + length <= i64::MAX,
        source < i64::MAX,
        length != source + 1,
    ensures
        local_copy(s, source) == Ok::<LocalCopy, ErrorView>(
            LocalCopy { start: start as u64, length: Some(length as u64) },
        ),
{
}

/// A segment without a range is copied whole.
pub proof fn law_whole_files_are_copied_whole(s: MediaSegmentView, source: u64)
    requires
        s.start_range is None,
        s.expected_length is None,
        source < i64::MAX,
    ensures
        local_copy(s, source) == Ok::<LocalCopy, ErrorView>(LocalCopy { start: 0, length: None }),
{
}

/// One thread fetches one segment after the other, more fetch so many at a time, and -1 stands for as
/// many as there are segments. No other number is accepted.
pub proof fn law_threads(n: i32, segments: nat)
    requires
        segments <= usize::MAX,
    ensures
        n == 1 ==> mode_for(n, segments as int) == Ok::<ThreadMode, ErrorView>(
            ThreadMode::Sequential,
        ),
        n > 1 ==> mode_for(n, segments as int) == Ok::<ThreadMode, ErrorView>(
            ThreadMode::Concurrent(n as usize),
        ),
        n == -1 && segments > 1 ==> mode_for(n, segments as int) == Ok::<ThreadMode, ErrorView>(
            ThreadMode::Concurrent(segments as usize),
        ),
        n == 0 || n < -1 ==> mode_for(n, segments as int) is Err,
{
}

/// The ending of an output: audio and video in MP4 have their own; subtitles have the ending of the
/// wanted format where they are converted; all else keeps its ending.
pub proof fn law_output_endings(s: StreamView, fix: bool, format: SubtitleFormat, other: Seq<char>)
    ensures
        s.media_type == Some(MediaType::Audio) && s.extension == Some("m4s"@) ==> output_ending(
            s,
            fix,
            format,
        ) == ".m4a"@,
        s.media_type == Some(MediaType::Video) && s.extension == Some("m4s"@) ==> output_ending(
            s,
            fix,
            format,
        ) == ".mp4"@,
        s.media_type is None && s.extension == Some("mp4"@) ==> output_ending(s, fix, format)
            == ".mp4"@,
        s.media_type == Some(MediaType::Subtitles) && fix && format == SubtitleFormat::Srt
            ==> output_ending(s, fix, format) == ".srt"@,
        s.media_type == Some(MediaType::Subtitles) && fix && format == SubtitleFormat::Vtt
            ==> output_ending(s, fix, format) == ".vtt"@,
        s.media_type == Some(MediaType::Subtitles) && !fix && s.extension == Some(other)
            ==> output_ending(s, fix, format) == "."@ + other,
        s.extension == Some(other) && other != "m4s"@ && other != "mp4"@ && s.media_type != Some(
            MediaType::Subtitles,
        ) ==> output_ending(s, fix, format) == "."@ + other,
        s.extension is None && s.media_type is None ==> output_ending(s, fix, format) == ".ts"@,
{
}

/// The name of an output is the one of its pattern, else the wanted one with the language behind it,
/// else that of its directory.
pub proof fn law_output_names(
    s: StreamView,
    task_id: nat,
    group: Seq<char>,
    pattern: Seq<char>,
    patterned: Seq<char>,
    name: Seq<char>,
    language: Seq<char>,
)
    requires
        name.len() > 0,
        language.len() > 0,
        language.last() != '.',
        s.language == Some(language),
    ensures
        crate::text::trim(pattern).len() > 0 ==> output_name(
            s,
            task_id,
            group,
            Some(pattern),
            patterned,
            Some(name),
        ) == patterned,
        output_name(s, task_id, group, None, patterned, Some(name)) == name + "."@ + language,
        output_name(s, task_id, group, None, patterned, None) == directory_name(s, task_id, group),
{
    let whole = name + "."@ + language;
    assert(whole.last() == language.last());
}

/// The directory of a stream is named by its number, its group, its codecs, its bandwidth and its
/// language.
pub proof fn law_directory_names(
    s: StreamView,
    task_id: nat,
    group: Seq<char>,
    codecs: Seq<char>,
    bandwidth: nat,
    language: Seq<char>,
)
    requires
        s.codecs == Some(codecs),
        s.bandwidth is Some && s.bandwidth->0 == bandwidth,
        s.language == Some(language),
    ensures
        directory_name(s, task_id, group) == dec(task_id) + "_"@ + group + "_"@ + codecs + "_"@ + dec(
            bandwidth,
        ) + "_"@ + language,
{
}

/// A stream is called by its identifier, else by its group, else by its number.
pub proof fn law_stream_names(s: StreamView, task_id: nat, group: Seq<char>)
    ensures
        s.id.len() > 0 ==> stream_name(s, task_id) == s.id,
        s.id.len() == 0 && s.group_id == Some(group) ==> stream_name(s, task_id) == group,
        s.id.len() == 0 && s.group_id is None ==> stream_name(s, task_id) == "stream-"@ + dec(
            task_id,
        ),
{
}

/// Bytes that come count once in the second and once in the whole; the rest stays.
pub proof fn law_bytes_are_added(s: SpeedStateView, size: u64)
    requires
        s.downloaded_window + size <= u64::MAX,
        s.total_downloaded + size <= u64::MAX,
    ensures
        with_bytes(s, size).downloaded_window == s.downloaded_window + size,
        with_bytes(s, size).total_downloaded == s.total_downloaded + size,
        with_bytes(s, size).speed_limit == s.speed_limit,
        with_bytes(s, size).bytes_per_second == s.bytes_per_second,
        with_bytes(s, size).low_speed_count == s.low_speed_count,
        with_bytes(s, size).last_reset == s.last_reset,
{
}

/// When a second has passed, what came in it is the speed, a new one begins at the present, and a
/// second without bytes is counted; before that nothing changes.
pub proof fn law_seconds_end(s: SpeedStateView, now: u64)
    requires
        s.last_reset <= now,
        s.low_speed_count < u32::MAX,
    ensures
        now < s.last_reset + 1000 ==> ticked(s, now) == s,
        now >= s.last_reset + 1000 ==> {
            let t = ticked(s, now);
            &&& t.bytes_per_second == s.downloaded_window
            &&& t.downloaded_window == 0
            &&& t.last_reset == now
            &&& t.total_downloaded == s.total_downloaded
            &&& s.downloaded_window == 0 ==> t.low_speed_count == s.low_speed_count + 1
            &&& s.downloaded_window > 0 ==> t.low_speed_count == 0
        },
{
}

/// More than the limit in one second is too much; the limit itself is not, and without a limit
/// nothing is.
pub proof fn law_speed_limit(s: SpeedStateView)
    ensures
        s.speed_limit == u64::MAX ==> !over_limit(s),
        s.speed_limit < u64::MAX ==> (over_limit(s) <==> s.downloaded_window > s.speed_limit),
        s.bytes_per_second > 0 ==> shown_speed(s) == s.bytes_per_second,
        s.bytes_per_second == 0 ==> shown_speed(s) == s.downloaded_window,
{
}

/// A segment under a method makes the stream one of that method.
pub proof fn law_encrypted_segments_are_appended(
    s: StreamView,
    split: bool,
    dolby_vision: bool,
    i: int,
    k: int,
)
    requires
        s.playlist is Some,
        0 <= i < (s.playlist->0).media_parts.len(),
        0 <= k < (s.playlist->0).media_parts[i].len(),
    ensures
        ({
            let method = (s.playlist->0).media_parts[i][k].encryption.method;
            let p = merge_policy(s, split, dolby_vision);
            &&& method == EncryptionMethod::Cenc || method == EncryptionMethod::Unknown
                ==> p.binary_merge_required
            &&& method == EncryptionMethod::Unknown ==> p.unknown_encryption
            &&& (s.playlist->0).media_parts.len() > 1 ==> p.binary_merge_required
            &&& dolby_vision ==> p.binary_merge_required && p.disable_mux_after_done
            &&& p.disable_real_time_decryption == split
        }),
{
    let part = (s.playlist->0).media_parts[i];
    let method = part[k].encryption.method;
    assert(crate::download::part_has_method(part, method));
    assert(crate::download::has_method(s, method));
}

/// A warning is given only where segments are appended without being asked for.
pub proof fn law_merge_warnings(s: StreamView, dolby_vision: bool)
    ensures
        merge_warning(s, true) is None,
        merge_warning(s, false) is Some ==> merge_policy(
            s,
            false,
            dolby_vision,
        ).binary_merge_required,
{
}

/// A file that is fetched whole is fetched in parts only where its size is known to be positive, and
/// each part has its URL and its encryption.
pub proof fn law_parts_are_of_the_file(s: MediaSegmentView, size: int, k: int)
    requires
        split_file(s, size) is Some,
        0 <= k < (split_file(s, size)->0).len(),
        crate::download::can_split(size),
    ensures
        size > 0,
        s.start_range is None,
        (split_file(s, size)->0)[k].url == s.url,
        (split_file(s, size)->0)[k].encryption == s.encryption,
{
    lemma_split(s, size, size, 0, 0, k);
}

proof fn lemma_split(s: MediaSegmentView, size: int, left: int, from: int, index: int, k: int)
    requires
        0 <= k < crate::download::split_from(s, size, left, from, index).len(),
    ensures
        crate::download::split_from(s, size, left, from, index)[k].url == s.url,
        crate::download::split_from(s, size, left, from, index)[k].encryption == s.encryption,
    decreases left,
{
    if left > crate::download::LARGE_SPLIT_SIZE && k > 0 {
        let to = from + crate::download::LARGE_SPLIT_SIZE;
        lemma_split(
            s,
            size,
            left - crate::download::LARGE_SPLIT_SIZE,
            to + 1,
            index + 1,
            k - 1,
        );
    }
}

/// The files that are removed are the given ones, in the directory.
pub proof fn law_given_files_are_removed(dir: Seq<char>, files: Seq<Seq<char>>, k: int)
    requires
        0 <= k < files.len(),
    ensures
        cleanup_files(dir, files).len() == files.len(),
        cleanup_files(dir, files)[k] == path_join(dir, files[k]),
{
}

/// A length that a server names is taken where it is positive.
pub proof fn law_positive_lengths(n: nat)
    requires
        n <= i64::MAX,
    ensures
        n > 0 ==> positive_length(Some(dec(n))) == Some(n as int),
        n == 0 ==> positive_length(Some(dec(n))) is None,
        positive_length(None) is None,
{
    law_decimal_is_read_within(n, i64::MIN as int, i64::MAX as int);
}

/// A redirect to a whole URL leads there.
pub proof fn law_whole_redirects(base: Seq<char>, rest: Seq<char>)
    ensures
        segment_redirect(base, "http://"@ + rest) == "http://"@ + rest,
        segment_redirect(base, "https://"@ + rest) == "https://"@ + rest,
{
    law_prefix_comes_off("http://"@, rest);
    law_prefix_comes_off("https://"@, rest);
}

} // verus!
