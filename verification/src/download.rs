//! What a download needs to know before, during and after: paths, ranges, speed and messages.

use crate::codec::{base64_decode, decode_base64};
use crate::config::{DownloadOptions, SubtitleFormat, Toggle};
use crate::decrypt::{hide_secrets, redact_secrets, PsshSystem};
use crate::error::{Error, ErrorView, Result};
use crate::event::{ProgressEvent, ProgressEventView};
use crate::http::{directory_of, normal_path, normalize_url_path, origin_and_path, path_end};
use crate::manifest::{
    blank_segment, stop_range_of, EncryptionMethod, MediaPart, MediaSegment, MediaSegmentView,
    MediaType, Stream, StreamView,
};
use crate::mux::{MediaInfo, MediaInfoView};
use crate::outside::{file_url, url_scheme, FileUrl};
use crate::path::{
    extension, file_stem, join_path, parent, path_extension, path_join, path_parent, path_stem,
    path_with_extension, with_extension, LocalPath, LocalPathView,
};
use crate::processor::{bare_hex, config_hex, hex_to_bytes, strip_hex_prefix};
use crate::progress::{
    AggregateProgress, SegmentProgress, SegmentProgressView, StreamProgress, StreamProgressView,
};
use crate::text::{
    begins_with, cat2, cat3, cat4, dec, dec_int, drop, i64_text, lower, lowered, opt, owned,
    parse_i64_text, parse_within, same, slice, slice_from, starts_with, strip_prefix, take, trim,
    trim_end_char, trim_start_char, trimmed, trimmed_end_char, trimmed_start_char, usize_text,
    without_prefix,
};
use crate::text_map::TextMap;
use vstd::prelude::*;
use vstd::utf8::encode_utf8;

verus! {

/// How many bytes are read at once.
pub const BUFFER_SIZE: usize = 16_384;

/// How many bytes a part of a large file has.
pub const LARGE_SPLIT_SIZE: i64 = 10_485_760;

/// What came of a segment.
#[derive(Debug, PartialEq, Eq)]
pub struct SegmentDownloadResult {
    pub actual_file_path: String,
    pub response_content_length: Option<u64>,
    pub actual_content_length: Option<u64>,
    pub image_header: bool,
    pub gzip_header: bool,
    pub skipped_existing: bool,
}

/// Model of `SegmentDownloadResult`.
pub struct SegmentDownloadResultView {
    pub actual_file_path: Seq<char>,
    pub response_content_length: Option<u64>,
    pub actual_content_length: Option<u64>,
    pub image_header: bool,
    pub gzip_header: bool,
    pub skipped_existing: bool,
}

impl DeepView for SegmentDownloadResult {
    type V = SegmentDownloadResultView;

    open spec fn deep_view(&self) -> SegmentDownloadResultView {
        SegmentDownloadResultView {
            actual_file_path: self.actual_file_path@,
            response_content_length: self.response_content_length,
            actual_content_length: self.actual_content_length,
            image_header: self.image_header,
            gzip_header: self.gzip_header,
            skipped_existing: self.skipped_existing,
        }
    }
}

/// As many bytes came as were announced; where nothing was announced, any number will do.
pub open spec fn is_complete(r: SegmentDownloadResultView) -> bool {
    match (r.actual_content_length, r.response_content_length) {
        (Some(actual), Some(announced)) => actual == announced,
        (Some(_), None) => true,
        (None, _) => false,
    }
}

impl SegmentDownloadResult {
    /// Whether as many bytes came as were announced.
    pub fn success(&self) -> (r: bool)
        ensures
            r == is_complete(self.deep_view()),
    {
        match (self.actual_content_length, self.response_content_length) {
            (Some(actual), Some(announced)) => actual == announced,
            (Some(_), None) => true,
            (None, _) => false,
        }
    }
}

impl Clone for SegmentDownloadResult {
    fn clone(&self) -> (r: Self)
        ensures
            r.deep_view() == self.deep_view(),
    {
        SegmentDownloadResult {
            actual_file_path: self.actual_file_path.clone(),
            response_content_length: self.response_content_length,
            actual_content_length: self.actual_content_length,
            image_header: self.image_header,
            gzip_header: self.gzip_header,
            skipped_existing: self.skipped_existing,
        }
    }
}

/// What came of a stream.
#[derive(Debug, PartialEq, Eq)]
pub struct StreamDownloadResult {
    pub stream_id: String,
    pub temp_dir: String,
    pub files: Vec<String>,
    pub output_path: String,
    pub binary_merge_required: bool,
    pub disable_real_time_decryption: bool,
    pub use_aac_filter: bool,
    pub media_infos: Vec<MediaInfo>,
}

/// Model of `StreamDownloadResult`.
pub struct StreamDownloadResultView {
    pub stream_id: Seq<char>,
    pub temp_dir: Seq<char>,
    pub files: Seq<Seq<char>>,
    pub output_path: Seq<char>,
    pub binary_merge_required: bool,
    pub disable_real_time_decryption: bool,
    pub use_aac_filter: bool,
    pub media_infos: Seq<MediaInfoView>,
}

impl DeepView for StreamDownloadResult {
    type V = StreamDownloadResultView;

    open spec fn deep_view(&self) -> StreamDownloadResultView {
        StreamDownloadResultView {
            stream_id: self.stream_id@,
            temp_dir: self.temp_dir@,
            files: self.files.deep_view(),
            output_path: self.output_path@,
            binary_merge_required: self.binary_merge_required,
            disable_real_time_decryption: self.disable_real_time_decryption,
            use_aac_filter: self.use_aac_filter,
            media_infos: self.media_infos.deep_view(),
        }
    }
}

/// How the segments of a stream are put together.
#[derive(Clone, Copy, Debug, PartialEq, Eq, Structural)]
pub struct DownloadMergePolicy {
    pub binary_merge_required: bool,
    pub disable_real_time_decryption: bool,
    pub disable_mux_after_done: bool,
    pub unknown_encryption: bool,
}

/// `a + b`, at most the largest number of 64 bits.
pub open spec fn capped_add(a: u64, b: u64) -> u64 {
    if a + b > u64::MAX {
        u64::MAX
    } else {
        (a + b) as u64
    }
}

/// How fast a download goes. Times are milliseconds of a clock that does not go back.
#[derive(Clone, Copy, Debug, PartialEq, Eq, Structural)]
pub struct SpeedState {
    speed_limit: u64,
    downloaded_window: u64,
    total_downloaded: u64,
    bytes_per_second: u64,
    low_speed_count: u32,
    last_reset: u64,
}

/// Model of `SpeedState`.
pub struct SpeedStateView {
    pub speed_limit: u64,
    /// Bytes since the last second ended.
    pub downloaded_window: u64,
    pub total_downloaded: u64,
    /// Bytes in the last second.
    pub bytes_per_second: u64,
    /// Seconds in a row in which nothing came.
    pub low_speed_count: u32,
    pub last_reset: u64,
}

/// The state when a second ends.
pub open spec fn second_ended(s: SpeedStateView, now: u64) -> SpeedStateView {
    SpeedStateView {
        bytes_per_second: s.downloaded_window,
        low_speed_count: if s.downloaded_window != 0 {
            0
        } else if s.low_speed_count == u32::MAX {
            u32::MAX
        } else {
            (s.low_speed_count + 1) as u32
        },
        downloaded_window: 0,
        last_reset: now,
        ..s
    }
}

/// The state at a time: a second ends where it has passed.
pub open spec fn ticked(s: SpeedStateView, now: u64) -> SpeedStateView {
    if now - s.last_reset >= 1000 {
        second_ended(s, now)
    } else {
        s
    }
}

/// The state after bytes came.
pub open spec fn with_bytes(s: SpeedStateView, size: u64) -> SpeedStateView {
    SpeedStateView {
        downloaded_window: capped_add(s.downloaded_window, size),
        total_downloaded: capped_add(s.total_downloaded, size),
        ..s
    }
}

/// The speed to show: that of the last second, or in the first second what has come so far.
pub open spec fn shown_speed(s: SpeedStateView) -> u64 {
    if s.bytes_per_second == 0 {
        s.downloaded_window
    } else {
        s.bytes_per_second
    }
}

/// More has come in this second than may.
pub open spec fn over_limit(s: SpeedStateView) -> bool {
    s.speed_limit != u64::MAX && s.downloaded_window > s.speed_limit
}

fn add_capped(a: u64, b: u64) -> (r: u64)
    ensures
        r == capped_add(a, b),
{
    if a > u64::MAX - b {
        u64::MAX
    } else {
        a + b
    }
}

impl SpeedState {
    pub closed spec fn view(&self) -> SpeedStateView {
        SpeedStateView {
            speed_limit: self.speed_limit,
            downloaded_window: self.downloaded_window,
            total_downloaded: self.total_downloaded,
            bytes_per_second: self.bytes_per_second,
            low_speed_count: self.low_speed_count,
            last_reset: self.last_reset,
        }
    }

    /// Nothing has come yet.
    pub fn new(speed_limit: Option<u64>, now: u64) -> (r: Self)
        ensures
            r.view() == (SpeedStateView {
                speed_limit: match speed_limit {
                    Some(n) => n,
                    None => u64::MAX,
                },
                downloaded_window: 0,
                total_downloaded: 0,
                bytes_per_second: 0,
                low_speed_count: 0,
                last_reset: now,
            }),
    {
        SpeedState {
            speed_limit: match speed_limit {
                Some(n) => n,
                None => u64::MAX,
            },
            downloaded_window: 0,
            total_downloaded: 0,
            bytes_per_second: 0,
            low_speed_count: 0,
            last_reset: now,
        }
    }

    /// Counts bytes; gives all that have come.
    pub fn add(&mut self, size: u64) -> (r: u64)
        ensures
            final(self).view() == with_bytes(old(self).view(), size),
            r == final(self).view().total_downloaded,
    {
        self.downloaded_window = add_capped(self.downloaded_window, size);
        self.total_downloaded = add_capped(self.total_downloaded, size);
        self.total_downloaded
    }

    /// Counts a second in which nothing came.
    pub fn add_low_speed_count(&mut self) -> (r: u32)
        ensures
            final(self).view() == (SpeedStateView {
                low_speed_count: if old(self).view().low_speed_count == u32::MAX {
                    u32::MAX
                } else {
                    (old(self).view().low_speed_count + 1) as u32
                },
                ..old(self).view()
            }),
            r == final(self).view().low_speed_count,
    {
        if self.low_speed_count < u32::MAX {
            self.low_speed_count = self.low_speed_count + 1;
        }
        self.low_speed_count
    }

    /// Begins to count the seconds anew in which nothing came.
    pub fn reset_low_speed_count(&mut self)
        ensures
            final(self).view() == (SpeedStateView { low_speed_count: 0, ..old(self).view() }),
    {
        self.low_speed_count = 0;
    }

    /// Whether nothing came for twenty seconds.
    pub fn should_stop(&self) -> (r: bool)
        ensures
            r == (self.view().low_speed_count >= 20),
    {
        self.low_speed_count >= 20
    }

    pub fn total_downloaded(&self) -> (r: u64)
        ensures
            r == self.view().total_downloaded,
    {
        self.total_downloaded
    }

    pub fn bytes_per_second(&self) -> (r: u64)
        ensures
            r == self.view().bytes_per_second,
    {
        self.bytes_per_second
    }

    /// The speed to show.
    pub fn display_bytes_per_second(&self) -> (r: u64)
        ensures
            r == shown_speed(self.view()),
    {
        if self.bytes_per_second == 0 {
            self.downloaded_window
        } else {
            self.bytes_per_second
        }
    }

    pub fn low_speed_count(&self) -> (r: u32)
        ensures
            r == self.view().low_speed_count,
    {
        self.low_speed_count
    }

    /// Ends a second where it has passed.
    pub fn record_progress_tick(&mut self, now: u64)
        ensures
            final(self).view() == ticked(old(self).view(), now),
    {
        if now >= self.last_reset && now - self.last_reset >= 1000 {
            self.finish_progress_tick(now);
        }
    }

    fn finish_progress_tick(&mut self, now: u64)
        ensures
            final(self).view() == second_ended(old(self).view(), now),
    {
        let window: u64 = self.downloaded_window;
        self.bytes_per_second = window;
        if window == 0 {
            self.add_low_speed_count();
        } else {
            self.reset_low_speed_count();
        }
        self.downloaded_window = 0;
        self.last_reset = now;
    }

    /// Whether the download waits because more has come in this second than may.
    pub fn must_wait(&mut self, now: u64) -> (r: bool)
        ensures
            final(self).view() == ticked(old(self).view(), now),
            r == over_limit(final(self).view()),
    {
        self.record_progress_tick(now);
        self.speed_limit != u64::MAX && self.downloaded_window > self.speed_limit
    }

    /// Whether the download is given up because nothing came for twenty seconds, which are then
    /// counted anew.
    pub fn must_cancel(&mut self, now: u64) -> (r: bool)
        ensures
            ({
                let s = ticked(old(self).view(), now);
                &&& r == (s.low_speed_count >= 20)
                &&& final(self).view() == if s.low_speed_count >= 20 {
                    SpeedStateView { low_speed_count: 0, ..s }
                } else {
                    s
                }
            }),
    {
        self.record_progress_tick(now);
        if self.should_stop() {
            self.reset_low_speed_count();
            return true;
        }
        false
    }
}

/// The total of what came.
pub open spec fn bytes_in(sizes: Seq<u64>) -> int
    decreases sizes.len(),
{
    if sizes.len() == 0 {
        0
    } else {
        bytes_in(sizes.drop_last()) + sizes.last()
    }
}

/// The state after chunks came one after the other.
pub open spec fn with_chunks(s: SpeedStateView, sizes: Seq<u64>) -> SpeedStateView
    decreases sizes.len(),
{
    if sizes.len() == 0 {
        s
    } else {
        with_bytes(with_chunks(s, sizes.drop_last()), sizes.last())
    }
}

/// Every byte is counted, up to the largest number of 64 bits, and the end of a second changes
/// nothing about that.
pub proof fn law_every_byte_is_counted(s: SpeedStateView, sizes: Seq<u64>, now: u64)
    requires
        s.total_downloaded == 0,
    ensures
        with_chunks(s, sizes).total_downloaded == if bytes_in(sizes) > u64::MAX {
            u64::MAX as int
        } else {
            bytes_in(sizes)
        },
        ticked(with_chunks(s, sizes), now).total_downloaded == with_chunks(
            s,
            sizes,
        ).total_downloaded,
        bytes_in(sizes) >= 0,
    decreases sizes.len(),
{
    if sizes.len() > 0 {
        law_every_byte_is_counted(s, sizes.drop_last(), now);
    }
}

/// The state after a number of seconds in which nothing came.
pub open spec fn after_silence(s: SpeedStateView, seconds: nat) -> SpeedStateView
    decreases seconds,
{
    if seconds == 0 {
        s
    } else {
        second_ended(after_silence(s, (seconds - 1) as nat), 0)
    }
}

/// A download is given up after twenty seconds in a row in which nothing came, and not before.
pub proof fn law_silence_ends_a_download(s: SpeedStateView, seconds: nat)
    requires
        s.low_speed_count == 0,
        s.downloaded_window == 0,
        seconds <= u32::MAX,
    ensures
        after_silence(s, seconds).low_speed_count == seconds,
        after_silence(s, seconds).downloaded_window == 0,
        (after_silence(s, seconds).low_speed_count >= 20) <==> seconds >= 20,
    decreases seconds,
{
    if seconds > 0 {
        law_silence_ends_a_download(s, (seconds - 1) as nat);
    }
}

/// Whether a segment of a part is encrypted by a method.
pub open spec fn part_has_method(part: Seq<MediaSegmentView>, method: EncryptionMethod) -> bool {
    exists|i: int| 0 <= i < part.len() && (#[trigger] part[i]).encryption.method == method
}

/// Whether a segment of a stream is encrypted by a method, its initialization segment among them.
pub open spec fn has_method(s: StreamView, method: EncryptionMethod) -> bool {
    match s.playlist {
        None => false,
        Some(p) => (p.media_init is Some && (p.media_init->0).encryption.method == method) || exists|
            i: int,
        | 0 <= i < p.media_parts.len() && part_has_method(#[trigger] p.media_parts[i], method),
    }
}

fn finds_method(part: &MediaPart, method: EncryptionMethod) -> (r: bool)
    ensures
        r == part_has_method(part.deep_view(), method),
{
    let ghost all = part.deep_view();
    let mut i: usize = 0;
    while i < part.media_segments.len()
        invariant
            i <= part.media_segments@.len(),
            all == part.deep_view(),
            forall|k: int| 0 <= k < i ==> (#[trigger] all[k]).encryption.method != method,
        decreases part.media_segments@.len() - i,
    {
        assert(all[i as int] == part.media_segments@[i as int].deep_view());
        if part.media_segments[i].encryption.method == method {
            assert(all[i as int].encryption.method == method);
            return true;
        }
        i = i + 1;
    }
    false
}

fn stream_has_encryption_method(s: &Stream, method: EncryptionMethod) -> (r: bool)
    ensures
        r == has_method(s.deep_view(), method),
{
    match &s.playlist {
        None => false,
        Some(p) => {
            match &p.media_init {
                Some(init) => {
                    if init.encryption.method == method {
                        return true;
                    }
                },
                None => {},
            }
            let ghost all = p.media_parts.deep_view();
            let mut i: usize = 0;
            while i < p.media_parts.len()
                invariant
                    i <= p.media_parts@.len(),
                    all == p.media_parts.deep_view(),
                    s.deep_view().playlist is Some,
                    (s.deep_view().playlist->0).media_parts == all,
                    forall|k: int| 0 <= k < i ==> !part_has_method(#[trigger] all[k], method),
                decreases p.media_parts@.len() - i,
            {
                assert(all[i as int] == p.media_parts@[i as int].deep_view());
                if finds_method(&p.media_parts[i], method) {
                    assert(part_has_method(all[i as int], method));
                    return true;
                }
                i = i + 1;
            }
            false
        },
    }
}

/// A stream whose first segment tells the format of the others.
pub open spec fn is_fragmented(s: StreamView) -> bool {
    s.playlist is Some && (s.playlist->0).media_init is Some && s.media_type != Some(
        MediaType::Subtitles,
    )
}

fn fragmented(s: &Stream) -> (r: bool)
    ensures
        r == is_fragmented(s.deep_view()),
{
    let has_init: bool = match &s.playlist {
        Some(p) => p.media_init.is_some(),
        None => false,
    };
    let is_subtitle: bool = match s.media_type {
        Some(t) => t == MediaType::Subtitles,
        None => false,
    };
    has_init && !is_subtitle
}

/// How the segments of a stream are put together.
pub open spec fn merge_policy(s: StreamView, split: bool, dolby_vision: bool) -> DownloadMergePolicy {
    DownloadMergePolicy {
        binary_merge_required: dolby_vision || (s.playlist is Some && ((
        s.playlist->0).media_parts.len() > 1 || is_fragmented(s) || has_method(
            s,
            EncryptionMethod::Cenc,
        ) || has_method(s, EncryptionMethod::Unknown))),
        disable_real_time_decryption: split,
        disable_mux_after_done: dolby_vision,
        unknown_encryption: has_method(s, EncryptionMethod::Unknown),
    }
}

/// How the segments of a stream are put together.
pub fn merge_policy_for_stream(
    stream: &Stream,
    large_single_file_split: bool,
    dolby_vision_detected: bool,
) -> (r: DownloadMergePolicy)
    ensures
        r == merge_policy(stream.deep_view(), large_single_file_split, dolby_vision_detected),
{
    let several: bool = match &stream.playlist {
        Some(p) => p.media_parts.len() > 1,
        None => false,
    };
    let unknown: bool = stream_has_encryption_method(stream, EncryptionMethod::Unknown);
    DownloadMergePolicy {
        binary_merge_required: dolby_vision_detected || several || fragmented(stream)
            || stream_has_encryption_method(stream, EncryptionMethod::Cenc) || unknown,
        disable_real_time_decryption: large_single_file_split,
        disable_mux_after_done: dolby_vision_detected,
        unknown_encryption: unknown,
    }
}

/// Why segments are appended although that was not asked for.
pub open spec fn merge_warning(s: StreamView, binary_merge: bool) -> Option<Seq<char>> {
    if binary_merge || s.playlist is None {
        None
    } else if has_method(s, EncryptionMethod::Cenc) {
        Some("When CENC encryption is detected, binary merging is automatically enabled"@)
    } else if has_method(s, EncryptionMethod::Unknown) {
        Some(
            "An unrecognized encryption method is detected, binary merging is automatically enabled"@,
        )
    } else if is_fragmented(s) {
        Some("fMP4 is detected, binary merging is automatically enabled"@)
    } else {
        None
    }
}

/// Why segments are appended although that was not asked for.
pub fn automatic_binary_merge_warning(stream: &Stream, binary_merge: bool) -> (r: Option<
    &'static str,
>)
    ensures
        opt(r) == merge_warning(stream.deep_view(), binary_merge),
{
    if binary_merge || stream.playlist.is_none() {
        None
    } else if stream_has_encryption_method(stream, EncryptionMethod::Cenc) {
        Some("When CENC encryption is detected, binary merging is automatically enabled")
    } else if stream_has_encryption_method(stream, EncryptionMethod::Unknown) {
        Some(
            "An unrecognized encryption method is detected, binary merging is automatically enabled",
        )
    } else if fragmented(stream) {
        Some("fMP4 is detected, binary merging is automatically enabled")
    } else {
        None
    }
}

/// A stream whose segments come while it is recorded.
pub open spec fn is_live_record(s: StreamView, as_vod: bool) -> bool {
    !as_vod && s.playlist is Some && (s.playlist->0).is_live
}

/// Whether the segments of a stream come while it is recorded.
pub fn is_live_record_stream(stream: &Stream, live_perform_as_vod: bool) -> (r: bool)
    ensures
        r == is_live_record(stream.deep_view(), live_perform_as_vod),
{
    match &stream.playlist {
        Some(p) => !live_perform_as_vod && p.is_live,
        None => false,
    }
}

/// A text, empty where there is none.
pub open spec fn text_or_empty(o: Option<Seq<char>>) -> Seq<char> {
    match o {
        Some(t) => t,
        None => ""@,
    }
}

fn or_empty(o: &Option<String>) -> (r: &str)
    ensures
        r@ == text_or_empty(o.deep_view()),
{
    match o {
        Some(t) => t.as_str(),
        None => "",
    }
}

/// The name of a stream's directory. `group` is its group as a name for files.
pub open spec fn directory_name(s: StreamView, task_id: nat, group: Seq<char>) -> Seq<char> {
    dec(task_id) + "_"@ + group + "_"@ + text_or_empty(s.codecs) + "_"@ + (match s.bandwidth {
        Some(n) => dec_int(n as int),
        None => ""@,
    }) + "_"@ + text_or_empty(s.language)
}

fn make_directory_name(s: &Stream, task_id: usize, group: &str) -> (r: String)
    ensures
        r@ == directory_name(s.deep_view(), task_id as nat, group@),
{
    let mut out: String = usize_text(task_id);
    out.append("_");
    out.append(group);
    out.append("_");
    out.append(or_empty(&s.codecs));
    out.append("_");
    let rate: String = match s.bandwidth {
        Some(n) => i64_text(n),
        None => owned(""),
    };
    out.append(rate.as_str());
    out.append("_");
    out.append(or_empty(&s.language));
    out
}

/// The directory for the segments of a stream. `group` is its group as a name for files.
pub fn stream_temp_dir(dir_prefix: &str, task_id: usize, stream: &Stream, group: &str) -> (r: String)
    ensures
        r@ == path_join(
            dir_prefix@,
            directory_name(stream.deep_view(), task_id as nat, group@),
        ),
{
    let name: String = make_directory_name(stream, task_id, group);
    join_path(dir_prefix, name.as_str())
}

/// Fragments and whole MP4 files.
pub open spec fn is_mp4_extension(e: Option<Seq<char>>) -> bool {
    e == Some("m4s"@) || e == Some("mp4"@)
}

/// The ending of the file that a stream becomes.
pub open spec fn output_ending(s: StreamView, fix: bool, format: SubtitleFormat) -> Seq<char> {
    if fix && s.media_type == Some(MediaType::Subtitles) {
        match format {
            SubtitleFormat::Srt => ".srt"@,
            SubtitleFormat::Vtt => ".vtt"@,
        }
    } else if s.media_type == Some(MediaType::Audio) && is_mp4_extension(s.extension) {
        ".m4a"@
    } else if s.media_type != Some(MediaType::Subtitles) && is_mp4_extension(s.extension) {
        ".mp4"@
    } else {
        match s.extension {
            Some(e) => "."@ + e,
            None => ".ts"@,
        }
    }
}

/// The ending of the file that a stream becomes.
pub fn stream_output_extension(stream: &Stream, options: &DownloadOptions) -> (r: String)
    ensures
        r@ == output_ending(
            stream.deep_view(),
            options.deep_view().auto_subtitle_fix == Toggle::On,
            options.deep_view().sub_format,
        ),
{
    proof {
        reveal(crate::config::options_view);
    }
    let is_subtitle: bool = match stream.media_type {
        Some(t) => t == MediaType::Subtitles,
        None => false,
    };
    let is_audio: bool = match stream.media_type {
        Some(t) => t == MediaType::Audio,
        None => false,
    };
    let fix: bool = match options.auto_subtitle_fix {
        Toggle::On => true,
        Toggle::Off => false,
    };
    if fix && is_subtitle {
        return match options.sub_format {
            SubtitleFormat::Srt => owned(".srt"),
            SubtitleFormat::Vtt => owned(".vtt"),
        };
    }
    match &stream.extension {
        Some(e) => {
            if !is_subtitle && (same(e.as_str(), "m4s") || same(e.as_str(), "mp4")) {
                return if is_audio {
                    owned(".m4a")
                } else {
                    owned(".mp4")
                };
            }
            cat2(".", e.as_str())
        },
        None => owned(".ts"),
    }
}

/// The name of the file that a stream becomes, without ending. `patterned` is the name that the
/// pattern of the options gives.
pub open spec fn output_name(
    s: StreamView,
    task_id: nat,
    group: Seq<char>,
    pattern: Option<Seq<char>>,
    patterned: Seq<char>,
    save_name: Option<Seq<char>>,
) -> Seq<char> {
    if pattern is Some && trim(pattern->0).len() > 0 {
        patterned
    } else {
        match save_name {
            Some(name) => trim_end_char(name + "."@ + text_or_empty(s.language), '.'),
            None => directory_name(s, task_id, group),
        }
    }
}

/// The path of the file that a stream becomes. `group` is its group as a name for files, and
/// `patterned` the name that the pattern of the options gives.
pub fn planned_output_path(
    save_dir: &str,
    stream: &Stream,
    task_id: usize,
    options: &DownloadOptions,
    group: &str,
    patterned: &str,
) -> (r: String)
    ensures
        r@ == path_join(
            save_dir@,
            output_name(
                stream.deep_view(),
                task_id as nat,
                group@,
                options.deep_view().save_pattern,
                patterned@,
                options.deep_view().save_name,
            ) + output_ending(
                stream.deep_view(),
                options.deep_view().auto_subtitle_fix == Toggle::On,
                options.deep_view().sub_format,
            ),
        ),
{
    proof {
        reveal(crate::config::options_view);
    }
    let ending: String = stream_output_extension(stream, options);
    let by_pattern: bool = match &options.save_pattern {
        Some(p) => trimmed(p.as_str()).unicode_len() > 0,
        None => false,
    };
    let name: String = if by_pattern {
        owned(patterned)
    } else {
        match &options.save_name {
            Some(n) => {
                let whole: String = cat3(n.as_str(), ".", or_empty(&stream.language));
                owned(trimmed_end_char(whole.as_str(), '.'))
            },
            None => make_directory_name(stream, task_id, group),
        }
    };
    let file: String = cat2(name.as_str(), ending.as_str());
    join_path(save_dir, file.as_str())
}

/// The name of a stream in events.
pub open spec fn stream_name(s: StreamView, task_id: nat) -> Seq<char> {
    if s.id.len() > 0 {
        s.id
    } else {
        match s.group_id {
            Some(g) => g,
            None => "stream-"@ + dec(task_id),
        }
    }
}

/// The name of a stream in events.
pub fn stream_identifier(stream: &Stream, task_id: usize) -> (r: String)
    ensures
        r@ == stream_name(stream.deep_view(), task_id as nat),
{
    if stream.id.as_str().unicode_len() > 0 {
        return stream.id.clone();
    }
    match &stream.group_id {
        Some(g) => g.clone(),
        None => {
            let number: String = usize_text(task_id);
            cat2("stream-", number.as_str())
        },
    }
}

/// A path without the ending of an unfinished file.
pub open spec fn finished_path(p: Seq<char>) -> Seq<char> {
    if path_extension(p) == Some("tmp"@) {
        path_with_extension(p, ""@)
    } else {
        p
    }
}

/// A path without the ending of an unfinished file.
pub fn remove_tmp_extension(path: &str) -> (r: String)
    ensures
        r@ == finished_path(path@),
{
    match extension(path) {
        Some(e) => {
            if same(e, "tmp") {
                return with_extension(path, "");
            }
        },
        None => {},
    }
    owned(path)
}

/// The path of a file when it is decrypted.
pub open spec fn plain_path(p: Seq<char>) -> Seq<char> {
    path_join(
        text_or_empty(path_parent(p)),
        text_or_empty(path_stem(p)) + "_dec"@ + (match path_extension(p) {
            Some(e) => "."@ + e,
            None => ""@,
        }),
    )
}

/// The path of a file when it is decrypted.
pub fn decrypted_path(path: &str) -> (r: String)
    ensures
        r@ == plain_path(path@),
{
    let directory: String = match parent(path) {
        Some(d) => d,
        None => owned(""),
    };
    let stem: &str = match file_stem(path) {
        Some(s) => s,
        None => "",
    };
    let ending: String = match extension(path) {
        Some(e) => cat2(".", e),
        None => owned(""),
    };
    let name: String = cat3(stem, "_dec", ending.as_str());
    join_path(directory.as_str(), name.as_str())
}

/// The bytes of a segment that are asked for.
pub open spec fn range_of(s: MediaSegmentView) -> core::result::Result<Option<Seq<char>>, ErrorView> {
    match (s.start_range, stop_range_of(s)) {
        (Some(start), Some(stop)) => if start < 0 {
            Err(ErrorView::Http("byte range start is invalid"@))
        } else if stop < 0 {
            Err(ErrorView::Http("byte range end is invalid"@))
        } else if stop < start {
            Err(ErrorView::Http("byte range end is before start"@))
        } else {
            Ok(Some("bytes="@ + dec_int(start as int) + "-"@ + dec_int(stop)))
        },
        (Some(start), None) => if start < 0 {
            Err(ErrorView::Http("byte range start is invalid"@))
        } else {
            Ok(Some("bytes="@ + dec_int(start as int) + "-"@))
        },
        _ => Ok(None),
    }
}

/// Model of a range.
pub open spec fn view_range(r: Result<Option<String>>) -> core::result::Result<
    Option<Seq<char>>,
    ErrorView,
> {
    match r {
        Ok(o) => Ok(o.deep_view()),
        Err(e) => Err(e.deep_view()),
    }
}

/// The bytes of a segment that are asked for.
pub fn range_header(segment: &MediaSegment) -> (r: Result<Option<String>>)
    ensures
        view_range(r) == range_of(segment.deep_view()),
{
    match (segment.start_range, segment.stop_range()) {
        (Some(start), Some(stop)) => {
            if start < 0 {
                return Err(Error::http("byte range start is invalid"));
            }
            if stop < 0 {
                return Err(Error::http("byte range end is invalid"));
            }
            if stop < start {
                return Err(Error::http("byte range end is before start"));
            }
            let a: String = i64_text(start);
            let b: String = i64_text(stop);
            Ok(Some(cat4("bytes=", a.as_str(), "-", b.as_str())))
        },
        (Some(start), None) => {
            if start < 0 {
                return Err(Error::http("byte range start is invalid"));
            }
            let a: String = i64_text(start);
            Ok(Some(cat3("bytes=", a.as_str(), "-")))
        },
        _ => Ok(None),
    }
}

/// A URL of HTTP.
pub open spec fn is_http(url: Seq<char>) -> bool {
    starts_with(lower(url), "http://"@) || starts_with(lower(url), "https://"@)
}

/// Whether a URL is one of HTTP.
pub fn is_http_url(url: &str) -> (r: bool)
    ensures
        r == is_http(url@),
{
    let small: String = lowered(url);
    begins_with(small.as_str(), "http://") || begins_with(small.as_str(), "https://")
}

/// A value in messages: without secrets, and cut where it is long.
pub open spec fn shown_value(value: Seq<char>) -> Seq<char> {
    let hidden = hide_secrets(value);
    if encode_utf8(hidden).len() <= 512 {
        hidden
    } else {
        take(
            hidden,
            if hidden.len() < 512 {
                hidden.len() as int
            } else {
                512
            },
        ) + "..."@
    }
}

fn redact_fetch_value(value: &str) -> (r: String)
    ensures
        r@ == shown_value(value@),
{
    let hidden: String = redact_secrets(value);
    if hidden.as_str().as_bytes().len() <= 512 {
        return hidden;
    }
    let n: usize = hidden.as_str().unicode_len();
    let end: usize = if n < 512 {
        n
    } else {
        512
    };
    let head: &str = slice(hidden.as_str(), 0, end);
    assert(head@ =~= take(hidden@, end as int));
    cat2(head, "...")
}

/// The first `n` headers in messages.
pub open spec fn shown_headers(headers: Seq<(Seq<char>, Seq<char>)>, n: int) -> Seq<char>
    decreases n,
{
    if n <= 0 {
        Seq::empty()
    } else {
        shown_headers(headers, n - 1) + "\n"@ + headers[n - 1].0 + ": "@ + shown_value(
            headers[n - 1].1,
        )
    }
}

/// The message about a request for a URL.
pub open spec fn fetch_message(url: Seq<char>, headers: Seq<(Seq<char>, Seq<char>)>) -> Seq<char> {
    if is_http(url) {
        "Fetch: "@ + shown_value(url) + shown_headers(headers, headers.len() as int)
    } else {
        "Fetch: "@ + shown_value(url)
    }
}

/// The message about a request for a segment at a URL.
pub open spec fn segment_fetch_message(
    s: MediaSegmentView,
    url: Seq<char>,
    headers: Seq<(Seq<char>, Seq<char>)>,
) -> core::result::Result<Seq<char>, ErrorView> {
    if is_http(url) {
        match range_of(s) {
            Err(e) => Err(e),
            Ok(Some(range)) => Ok(fetch_message(url, headers) + "\n"@ + "Range: "@ + range),
            Ok(None) => Ok(fetch_message(url, headers)),
        }
    } else {
        Ok(fetch_message(url, headers))
    }
}

fn push_shown_headers(out: &mut String, headers: &TextMap<String>)
    ensures
        final(out)@ == old(out)@ + shown_headers(
            headers.deep_view(),
            headers.deep_view().len() as int,
        ),
{
    let ghost all = headers.deep_view();
    let mut lines: String = String::new();
    let mut i: usize = 0;
    while i < headers.entries.len()
        invariant
            i <= headers.entries@.len(),
            all == headers.deep_view(),
            all.len() == headers.entries@.len(),
            lines@ == shown_headers(all, i as int),
        decreases headers.entries@.len() - i,
    {
        assert(all[i as int] == (headers.entries@[i as int].0@, headers.entries@[i as int].1@));
        lines.append("\n");
        lines.append(headers.entries[i].0.as_str());
        lines.append(": ");
        lines.append(redact_fetch_value(headers.entries[i].1.as_str()).as_str());
        i = i + 1;
    }
    out.append(lines.as_str());
}

/// The message about a request for a segment at a URL.
pub fn format_segment_fetch_debug_message_for_url(
    segment: &MediaSegment,
    url: &str,
    headers: &TextMap<String>,
) -> (r: Result<String>)
    ensures
        match r {
            Ok(t) => segment_fetch_message(segment.deep_view(), url@, headers.deep_view()) == Ok::<
                Seq<char>,
                ErrorView,
            >(t@),
            Err(e) => segment_fetch_message(segment.deep_view(), url@, headers.deep_view())
                == Err::<Seq<char>, ErrorView>(e.deep_view()),
        },
{
    let shown: String = redact_fetch_value(url);
    let mut message: String = cat2("Fetch: ", shown.as_str());
    if is_http_url(url) {
        push_shown_headers(&mut message, headers);
        match range_header(segment)? {
            Some(range) => {
                message.append("\n");
                message.append("Range: ");
                message.append(range.as_str());
            },
            None => {},
        }
    }
    Ok(message)
}

/// The parts of a file of `size` bytes from byte `from` on, of which the first has number `index`.
/// `left` counts down the bytes by whole parts.
pub open spec fn split_from(s: MediaSegmentView, size: int, left: int, from: int, index: int) -> Seq<
    MediaSegmentView,
>
    decreases left,
{
    if left <= 0 {
        Seq::empty()
    } else {
        let last = left <= LARGE_SPLIT_SIZE;
        let to = if last {
            size
        } else {
            from + LARGE_SPLIT_SIZE
        };
        seq![
            MediaSegmentView {
                index: index as i64,
                url: s.url,
                start_range: Some(from as i64),
                expected_length: Some((to - from + 1) as i64),
                encryption: s.encryption,
                ..blank_segment()
            },
        ] + if last {
            Seq::empty()
        } else {
            split_from(s, size, left - LARGE_SPLIT_SIZE, to + 1, index + 1)
        }
    }
}

/// The parts of a file of a known size; none where the segment is a part itself.
pub open spec fn split_file(s: MediaSegmentView, size: int) -> Option<Seq<MediaSegmentView>> {
    if size <= 0 || s.start_range is Some {
        None
    } else {
        Some(split_from(s, size, size, 0, 0))
    }
}

fn make_clip(segment: &MediaSegment, index: i64, from: i64, to: i64) -> (r: MediaSegment)
    requires
        from >= 0,
        to >= 0,
        to - from + 1 <= i64::MAX,
    ensures
        r.deep_view() == (MediaSegmentView {
            index,
            url: segment.deep_view().url,
            start_range: Some(from),
            expected_length: Some((to - from + 1) as i64),
            encryption: segment.deep_view().encryption,
            ..blank_segment()
        }),
{
    let mut clip: MediaSegment = MediaSegment::default();
    clip.index = index;
    clip.url = segment.url.clone();
    clip.start_range = Some(from);
    clip.expected_length = Some((to - from) + 1);
    clip.encryption = segment.encryption.clone();
    clip
}

/// The bytes at which the parts of a file begin and may end can be written in 64 bits. A part begins a
/// whole part and one byte behind the one before.
pub open spec fn can_split(size: int) -> bool {
    size <= 0 || (size - 1) / 10_485_760 * 10_485_761 + 10_485_760 <= i64::MAX
}

/// Whether the bytes of the parts of a file can be written in 64 bits.
pub fn can_be_split(file_size: i64) -> (r: bool)
    ensures
        r == can_split(file_size as int),
{
    if file_size <= 0 {
        return true;
    }
    let whole: i128 = (file_size as i128 - 1) / 10_485_760;
    whole * 10_485_761 + 10_485_760 <= 0x7fff_ffff_ffff_ffff
}

/// The parts of a file of a known size; none where the segment is a part itself.
pub fn split_large_single_file_by_size(segment: &MediaSegment, file_size: i64) -> (r: Option<
    Vec<MediaSegment>,
>)
    requires
        can_split(file_size as int),
    ensures
        match r {
            Some(v) => split_file(segment.deep_view(), file_size as int) == Some(v.deep_view()),
            None => split_file(segment.deep_view(), file_size as int) is None,
        },
{
    if file_size <= 0 || segment.start_range.is_some() {
        return None;
    }
    let ghost s = segment.deep_view();
    let ghost whole = split_from(s, file_size as int, file_size as int, 0, 0);
    let mut clips: Vec<MediaSegment> = Vec::new();
    let mut left: i64 = file_size;
    let mut index: i64 = 0;
    let mut from: i64 = 0;
    assert(clips.deep_view() + whole =~= whole);
    while left > 0
        invariant
            s == segment.deep_view(),
            can_split(file_size as int),
            0 < file_size,
            left <= file_size,
            0 <= index,
            left > 0 ==> from == file_size - left + index,
            left > 0 ==> index * LARGE_SPLIT_SIZE == file_size - left,
            clips.deep_view() + split_from(
                s,
                file_size as int,
                left as int,
                from as int,
                index as int,
            ) == whole,
        decreases left,
    {
        proof {
            lemma_index_is_small(file_size as int, left as int, index as int);
        }
        let last: bool = left <= LARGE_SPLIT_SIZE;
        let to: i64 = if last {
            file_size
        } else {
            from + LARGE_SPLIT_SIZE
        };
        let clip: MediaSegment = make_clip(segment, index, from, to);
        let ghost before = clips.deep_view();
        let ghost item = clip.deep_view();
        clips.push(clip);
        assert(clips.deep_view() =~= before.push(item));
        let ghost rest = if last {
            Seq::<MediaSegmentView>::empty()
        } else {
            split_from(s, file_size as int, left - LARGE_SPLIT_SIZE, to + 1, index + 1)
        };
        assert(split_from(s, file_size as int, left as int, from as int, index as int) == seq![item]
            + rest);
        assert(clips.deep_view() + rest =~= before + (seq![item] + rest));
        proof {
            assert((index + 1) * LARGE_SPLIT_SIZE == index * LARGE_SPLIT_SIZE + LARGE_SPLIT_SIZE)
                by (nonlinear_arith);
        }
        if last {
            left = 0;
        } else {
            left = left - LARGE_SPLIT_SIZE;
            from = to + 1;
        }
        index = index + 1;
    }
    assert(clips.deep_view() =~= whole);
    Some(clips)
}

proof fn lemma_index_is_small(size: int, left: int, index: int)
    requires
        index * LARGE_SPLIT_SIZE == size - left,
        0 < left <= size,
        index >= 0,
        can_split(size),
        size <= i64::MAX,
    ensures
        index <= (size - 1) / 10_485_760,
        size + (size - 1) / 10_485_760 <= i64::MAX,
{
    let q = (size - 1) / 10_485_760;
    assert(index <= q) by (nonlinear_arith)
        requires
            index * LARGE_SPLIT_SIZE == size - left,
            0 < left,
            LARGE_SPLIT_SIZE == 10_485_760,
            q == (size - 1) / 10_485_760,
    ;
}

/// A part begins where another ends.
pub open spec fn adjoins(a: MediaSegmentView, b: MediaSegmentView) -> bool {
    match (a.start_range, a.expected_length, b.start_range) {
        (Some(start), Some(length), Some(next)) => start + length == next,
        _ => false,
    }
}

/// A part ends with a byte.
pub open spec fn ends_with_byte(a: MediaSegmentView, n: int) -> bool {
    match (a.start_range, a.expected_length) {
        (Some(start), Some(length)) => start + length - 1 == n,
        _ => false,
    }
}

/// The parts of a file follow each other without a gap, from its first byte on to its end.
pub proof fn law_parts_cover_the_file(s: MediaSegmentView, size: int, left: int, from: int, index: int)
    requires
        0 < left <= size <= i64::MAX,
        can_split(size),
        0 <= from <= size - left + index,
        index == (size - left) / 10_485_760,
    ensures
        ({
            let parts = split_from(s, size, left, from, index);
            &&& parts.len() > 0
            &&& parts[0].start_range == Some(from as i64)
            &&& ends_with_byte(parts.last(), size)
            &&& forall|k: int| 0 <= k < parts.len() - 1 ==> adjoins(#[trigger] parts[k], parts[k + 1])
        }),
    decreases left,
{
    let parts = split_from(s, size, left, from, index);
    assert(index <= (size - 1) / 10_485_760);
    assert(size + (size - 1) / 10_485_760 <= i64::MAX);
    if left > LARGE_SPLIT_SIZE {
        let to = from + LARGE_SPLIT_SIZE;
        let rest = split_from(s, size, left - LARGE_SPLIT_SIZE, to + 1, index + 1);
        law_parts_cover_the_file(s, size, left - LARGE_SPLIT_SIZE, to + 1, index + 1);
        assert(parts =~= seq![parts[0]] + rest);
        assert(parts.last() == rest.last());
        assert(adjoins(parts[0], rest[0]));
        assert forall|k: int| 0 <= k < parts.len() - 1 implies adjoins(
            #[trigger] parts[k],
            parts[k + 1],
        ) by {
            assert(parts[k + 1] == rest[k]);
            if k > 0 {
                assert(parts[k] == rest[k - 1]);
                assert(adjoins(rest[k - 1], rest[k - 1 + 1]));
            }
        }
    } else {
        assert(parts =~= seq![parts[0]]);
    }
}

/// How the segments of a stream are fetched.
#[derive(Clone, Copy, Debug, PartialEq, Eq, Structural)]
pub enum ThreadMode {
    /// One after the other.
    Sequential,
    /// So many at a time.
    Concurrent(usize),
}

/// How segments are fetched: at most as many at a time as there are threads, and all at once for -1.
pub open spec fn mode_for(threads: i32, segments: int) -> core::result::Result<ThreadMode, ErrorView> {
    if threads == 1 {
        Ok(ThreadMode::Sequential)
    } else if threads == -1 {
        Ok(
            ThreadMode::Concurrent(
                if segments > 1 {
                    segments as usize
                } else {
                    1
                },
            ),
        )
    } else if threads <= 0 {
        Err(ErrorView::Config("--thread-count is invalid"@))
    } else {
        Ok(ThreadMode::Concurrent(threads as usize))
    }
}

/// How segments are fetched.
pub fn thread_mode(thread_count: i32, segment_count: usize) -> (r: Result<ThreadMode>)
    ensures
        match r {
            Ok(m) => mode_for(thread_count, segment_count as int) == Ok::<ThreadMode, ErrorView>(m),
            Err(e) => mode_for(thread_count, segment_count as int) == Err::<ThreadMode, ErrorView>(
                e.deep_view(),
            ),
        },
{
    if thread_count == 1 {
        Ok(ThreadMode::Sequential)
    } else if thread_count == -1 {
        Ok(
            ThreadMode::Concurrent(
                if segment_count > 1 {
                    segment_count
                } else {
                    1
                },
            ),
        )
    } else if thread_count <= 0 {
        Err(Error::config("--thread-count is invalid"))
    } else {
        Ok(ThreadMode::Concurrent(thread_count as usize))
    }
}

/// A message of an error without its kind.
pub open spec fn plain_message(e: ErrorView) -> Seq<char> {
    e.message()
}

/// The messages about a failed attempt.
pub open spec fn retry_logs(retries: int, e: ErrorView, url: Seq<char>, exhausted: bool) -> Seq<
    ProgressEventView,
> {
    let message = hide_secrets(plain_message(e));
    let place = hide_secrets(url);
    let first = ProgressEventView::ExtraLog {
        message: "Ah oh!\nRetryCount => "@ + dec_int(retries) + "\nException  => "@ + message
            + "\nUrl        => "@ + place,
    };
    if exhausted {
        seq![
            first,
            ProgressEventView::ExtraLog {
                message:
                    "The retry attempts have been exhausted and the download of this segment has failed.\nException  => "@
                    + message + "\nUrl        => "@ + place,
            },
        ]
    } else {
        seq![first]
    }
}

/// The messages about a failed attempt.
pub fn push_retry_extra_logs(
    events: &mut Vec<ProgressEvent>,
    retry_count: i32,
    error: &Error,
    url: &str,
    exhausted: bool,
)
    ensures
        final(events).deep_view() == old(events).deep_view() + retry_logs(
            retry_count as int,
            error.deep_view(),
            url@,
            exhausted,
        ),
{
    let ghost before = events.deep_view();
    let message: String = redact_secrets(error.compatibility_message().as_str());
    let place: String = redact_secrets(url);
    let mut first: String = owned("Ah oh!\nRetryCount => ");
    first.append(i64_text(retry_count as i64).as_str());
    first.append("\nException  => ");
    first.append(message.as_str());
    first.append("\nUrl        => ");
    first.append(place.as_str());
    let ghost one = ProgressEventView::ExtraLog { message: first@ };
    events.push(ProgressEvent::ExtraLog { message: first });
    assert(events.deep_view() =~= before.push(one));
    if exhausted {
        let mut second: String = owned(
            "The retry attempts have been exhausted and the download of this segment has failed.\nException  => ",
        );
        second.append(message.as_str());
        second.append("\nUrl        => ");
        second.append(place.as_str());
        let ghost two = ProgressEventView::ExtraLog { message: second@ };
        events.push(ProgressEvent::ExtraLog { message: second });
        assert(events.deep_view() =~= before.push(one).push(two));
        assert(before.push(one).push(two) =~= before + seq![one, two]);
    } else {
        assert(before.push(one) =~= before + seq![one]);
    }
}

/// The letters of a protection system.
pub open spec fn system_letters(system: PsshSystem) -> Seq<char> {
    match system {
        PsshSystem::Widevine => "WV"@,
        PsshSystem::PlayReady => "PR"@,
        PsshSystem::FairPlay => "FP"@,
    }
}

pub(crate) fn pssh_system_label(system: PsshSystem) -> (r: &'static str)
    ensures
        r@ == system_letters(system),
{
    match system {
        PsshSystem::Widevine => "WV",
        PsshSystem::PlayReady => "PR",
        PsshSystem::FairPlay => "FP",
    }
}

/// Where bytes of a segment come from.
#[derive(Debug)]
pub enum SegmentSource {
    /// A file that the URL names.
    FileUri,
    /// The URL itself.
    Bytes(Vec<u8>),
    /// A file, where there is one at the URL, else a server.
    FileOrHttp,
}

/// Model of `SegmentSource`.
pub enum SegmentSourceView {
    FileUri,
    Bytes(Seq<u8>),
    FileOrHttp,
}

impl DeepView for SegmentSource {
    type V = SegmentSourceView;

    open spec fn deep_view(&self) -> SegmentSourceView {
        match self {
            SegmentSource::FileUri => SegmentSourceView::FileUri,
            SegmentSource::Bytes(b) => SegmentSourceView::Bytes(b@),
            SegmentSource::FileOrHttp => SegmentSourceView::FileOrHttp,
        }
    }
}

/// Where the bytes of a segment come from.
pub open spec fn source_of(url: Seq<char>) -> core::result::Result<SegmentSourceView, ErrorView> {
    if starts_with(url, "file:"@) {
        Ok(SegmentSourceView::FileUri)
    } else {
        match (strip_prefix(url, "base64://"@), strip_prefix(url, "hex://"@)) {
            (Some(text), _) => match base64_decode(text) {
                Ok(b) => Ok(SegmentSourceView::Bytes(b)),
                Err(e) => Err(ErrorView::Config(e)),
            },
            (None, Some(text)) => match config_hex(bare_hex(text)) {
                Ok(b) => Ok(SegmentSourceView::Bytes(b)),
                Err(e) => Err(e),
            },
            (None, None) => Ok(SegmentSourceView::FileOrHttp),
        }
    }
}

/// Where the bytes of a segment come from.
pub fn segment_source(url: &str) -> (r: Result<SegmentSource>)
    ensures
        match r {
            Ok(s) => source_of(url@) == Ok::<SegmentSourceView, ErrorView>(s.deep_view()),
            Err(e) => source_of(url@) == Err::<SegmentSourceView, ErrorView>(e.deep_view()),
        },
{
    if begins_with(url, "file:") {
        return Ok(SegmentSource::FileUri);
    }
    match without_prefix(url, "base64://") {
        Some(text) => {
            return match decode_base64(text) {
                Ok(b) => Ok(SegmentSource::Bytes(b)),
                Err(e) => Err(Error::config(e)),
            };
        },
        None => {},
    }
    match without_prefix(url, "hex://") {
        Some(text) => {
            return match hex_to_bytes(strip_hex_prefix(text)) {
                Ok(b) => Ok(SegmentSource::Bytes(b)),
                Err(e) => Err(e),
            };
        },
        None => {},
    }
    Ok(SegmentSource::FileOrHttp)
}

/// Where a redirect of a segment leads, by the texts alone.
pub open spec fn segment_redirect(base: Seq<char>, location: Seq<char>) -> Seq<char> {
    if starts_with(location, "http://"@) || starts_with(location, "https://"@) {
        location
    } else {
        match origin_and_path(base) {
            None => location,
            Some((origin, base_path)) => {
                let path = take(location, path_end(location));
                let suffix = drop(location, path_end(location));
                origin + normal_path(
                    if starts_with(path, "/"@) {
                        path
                    } else {
                        directory_of(base_path) + path
                    },
                ) + suffix
            },
        }
    }
}

/// Where a redirect of a segment leads.
pub fn resolve_segment_redirect(base: &str, location: &str) -> (r: String)
    ensures
        r@ == segment_redirect(base@, location@),
{
    if begins_with(location, "http://") || begins_with(location, "https://") {
        return owned(location);
    }
    match crate::http::split_url_origin_and_path(base) {
        None => owned(location),
        Some((origin, base_path)) => {
            let end: usize = crate::http::find_path_end(location);
            let path: &str = slice(location, 0, end);
            assert(path@ =~= take(location@, end as int));
            let suffix: &str = slice_from(location, end);
            let joined: String = if begins_with(path, "/") {
                normalize_url_path(path)
            } else {
                let directory: String = match crate::text::rcut_once(base_path, "/") {
                    Some((prefix, _)) => cat2(prefix, "/"),
                    None => owned("/"),
                };
                let whole: String = cat2(directory.as_str(), path);
                normalize_url_path(whole.as_str())
            };
            cat3(origin, joined.as_str(), suffix)
        },
    }
}

/// What is copied out of a file.
#[derive(Clone, Copy, Debug, PartialEq, Eq, Structural)]
pub struct LocalCopy {
    /// The first byte.
    pub start: u64,
    /// The number of bytes, filled up with zeros; none where the whole file is copied.
    pub length: Option<u64>,
}

/// What is copied out of a file for a segment.
pub open spec fn local_copy(s: MediaSegmentView, source: u64) -> core::result::Result<
    LocalCopy,
    ErrorView,
> {
    let start = match s.start_range {
        Some(n) => n as int,
        None => 0,
    };
    let stop = match stop_range_of(s) {
        Some(n) => n,
        None => source as int,
    };
    if start < 0 {
        Err(ErrorView::Protocol("byte range start is invalid"@))
    } else if source > i64::MAX {
        Err(ErrorView::Protocol("source length is too large"@))
    } else if !(0 <= stop - start + 1 && stop - start >= i64::MIN && stop - start + 1 <= i64::MAX) {
        Err(ErrorView::Protocol("byte range length is invalid"@))
    } else if source == i64::MAX {
        Err(ErrorView::Protocol("source length is too large"@))
    } else if stop - start + 1 == source + 1 {
        Ok(LocalCopy { start: start as u64, length: None })
    } else {
        Ok(LocalCopy { start: start as u64, length: Some((stop - start + 1) as u64) })
    }
}

/// What is copied out of a file for a segment.
pub fn plan_local_copy(segment: &MediaSegment, source_len: u64) -> (r: Result<LocalCopy>)
    ensures
        match r {
            Ok(c) => local_copy(segment.deep_view(), source_len) == Ok::<LocalCopy, ErrorView>(c),
            Err(e) => local_copy(segment.deep_view(), source_len) == Err::<LocalCopy, ErrorView>(
                e.deep_view(),
            ),
        },
{
    let start: i64 = match segment.start_range {
        Some(n) => n,
        None => 0,
    };
    if start < 0 {
        return Err(Error::protocol("byte range start is invalid"));
    }
    if source_len > 0x7fff_ffff_ffff_ffff {
        return Err(Error::protocol("source length is too large"));
    }
    let stop: i64 = match segment.stop_range() {
        Some(n) => n,
        None => source_len as i64,
    };
    let expected: i128 = stop as i128 - start as i128 + 1;
    if expected < 0 || expected > 0x7fff_ffff_ffff_ffff {
        return Err(Error::protocol("byte range length is invalid"));
    }
    if source_len == 0x7fff_ffff_ffff_ffff {
        return Err(Error::protocol("source length is too large"));
    }
    if expected == source_len as i128 + 1 {
        Ok(LocalCopy { start: start as u64, length: None })
    } else {
        Ok(LocalCopy { start: start as u64, length: Some(expected as u64) })
    }
}

/// How many bytes are copied next out of a file.
pub fn next_copy_length(remaining: u64) -> (r: usize)
    ensures
        r == if remaining < BUFFER_SIZE {
            remaining as int
        } else {
            BUFFER_SIZE as int
        },
{
    if remaining < 16_384 {
        remaining as usize
    } else {
        BUFFER_SIZE
    }
}

/// What a server says of the size of a file.
#[derive(Clone, Copy, Debug, PartialEq, Eq, Structural)]
pub enum SizeAnswer {
    Known(i64),
    /// The server is asked again with the headers of the request.
    AskAgain,
    Unknown,
}

/// A positive number of bytes.
pub open spec fn positive_length(text: Option<Seq<char>>) -> Option<int> {
    match text {
        Some(t) => match parse_within(t, i64::MIN as int, i64::MAX as int) {
            Some(n) => if n > 0 {
                Some(n)
            } else {
                None
            },
            None => None,
        },
        None => None,
    }
}

fn parse_positive(text: Option<&str>) -> (r: Option<i64>)
    ensures
        match r {
            Some(n) => positive_length(opt(text)) == Some(n as int),
            None => positive_length(opt(text)) is None,
        },
{
    match text {
        Some(t) => match parse_i64_text(t) {
            Some(n) => if n > 0 {
                Some(n)
            } else {
                None
            },
            None => None,
        },
        None => None,
    }
}

/// What follows from the first answer about the size of a file: only a server that gives ranges is
/// asked again.
pub fn first_size_answer(status: u16, accepts_ranges: bool, content_length: Option<&str>) -> (r:
    SizeAnswer)
    ensures
        r == if !(200 <= status <= 299) || !accepts_ranges {
            SizeAnswer::Unknown
        } else {
            match positive_length(opt(content_length)) {
                Some(n) => SizeAnswer::Known(n as i64),
                None => SizeAnswer::AskAgain,
            }
        },
{
    if status < 200 || status > 299 || !accepts_ranges {
        return SizeAnswer::Unknown;
    }
    match parse_positive(content_length) {
        Some(n) => SizeAnswer::Known(n),
        None => SizeAnswer::AskAgain,
    }
}

/// What follows from the second answer about the size of a file.
pub fn second_size_answer(status: u16, content_length: Option<&str>) -> (r: SizeAnswer)
    ensures
        r == if !(200 <= status <= 299) {
            SizeAnswer::Unknown
        } else {
            match positive_length(opt(content_length)) {
                Some(n) => SizeAnswer::Known(n as i64),
                None => SizeAnswer::Unknown,
            }
        },
{
    if status < 200 || status > 299 {
        return SizeAnswer::Unknown;
    }
    match parse_positive(content_length) {
        Some(n) => SizeAnswer::Known(n),
        None => SizeAnswer::Unknown,
    }
}

/// Whether a server is asked for the size of a file, so that it can be fetched in parts.
pub open spec fn may_split(s: MediaSegmentView) -> bool {
    s.start_range is None && (starts_with(s.url, "http://"@) || starts_with(s.url, "https://"@))
}

/// Whether a server is asked for the size of a file, so that it can be fetched in parts.
pub fn is_splittable(segment: &MediaSegment) -> (r: bool)
    ensures
        r == may_split(segment.deep_view()),
{
    segment.start_range.is_none() && (begins_with(segment.url.as_str(), "http://") || begins_with(
        segment.url.as_str(),
        "https://",
    ))
}

/// The files that are removed when everything is done.
pub open spec fn cleanup_files(dir: Seq<char>, files: Seq<Seq<char>>) -> Seq<Seq<char>> {
    files.map_values(|f: Seq<char>| path_join(dir, f))
}

/// The files that are removed when everything is done; none where they are kept.
pub fn cleanup_after_success(dir_prefix: &str, raw_files: &Vec<String>, options: &DownloadOptions) -> (r:
    Option<Vec<String>>)
    ensures
        match r {
            Some(v) => options.deep_view().del_after_done == Toggle::On
                && options.deep_view().skip_merge == Toggle::Off && v.deep_view() == cleanup_files(
                dir_prefix@,
                raw_files.deep_view(),
            ),
            None => options.deep_view().del_after_done == Toggle::Off
                || options.deep_view().skip_merge == Toggle::On,
        },
{
    proof {
        reveal(crate::config::options_view);
    }
    let keep: bool = match (options.del_after_done, options.skip_merge) {
        (Toggle::On, Toggle::Off) => false,
        _ => true,
    };
    if keep {
        return None;
    }
    let ghost all = raw_files.deep_view();
    let mut out: Vec<String> = Vec::new();
    let mut i: usize = 0;
    while i < raw_files.len()
        invariant
            i <= raw_files@.len(),
            all == raw_files.deep_view(),
            out@.len() == i,
            forall|k: int| 0 <= k < i ==> (#[trigger] out@[k])@ == path_join(dir_prefix@, all[k]),
        decreases raw_files@.len() - i,
    {
        assert(all[i as int] == raw_files@[i as int]@);
        out.push(join_path(dir_prefix, raw_files[i].as_str()));
        i = i + 1;
    }
    assert(out.deep_view() =~= cleanup_files(dir_prefix@, all));
    Some(out)
}

/// The directory to look at after an empty one was removed; none where the search ends. A path that
/// is empty, is not there, is no directory or holds something ends it.
pub fn next_empty_dir(path: &str, is_there: bool, is_dir: bool, is_empty: bool) -> (r: Option<
    Option<String>,
>)
    ensures
        match r {
            Some(above) => path@.len() > 0 && is_there && is_dir && is_empty && above.deep_view()
                == path_parent(path@),
            None => path@.len() == 0 || !is_there || !is_dir || !is_empty,
        },
{
    if path.unicode_len() == 0 || !is_there || !is_dir || !is_empty {
        None
    } else {
        Some(parent(path))
    }
}

/// A text without a beginning, as often as it has it.
pub open spec fn without_repeated(s: Seq<char>, p: Seq<char>) -> Seq<char>
    decreases s.len(),
{
    if p.len() > 0 && starts_with(s, p) {
        without_repeated(drop(s, p.len() as int), p)
    } else {
        s
    }
}

fn strip_repeated<'a>(s: &'a str, p: &str) -> (r: &'a str)
    requires
        p@.len() > 0,
    ensures
        r@ == without_repeated(s@, p@),
    decreases s@.len(),
{
    if begins_with(s, p) {
        let rest: &'a str = slice_from(s, p.unicode_len());
        strip_repeated(rest, p)
    } else {
        s
    }
}

/// A text that names a file, without its scheme; on Windows also without the slashes and the mark of
/// a long path in front of a drive.
pub open spec fn bare_file_text(value: Seq<char>, windows: bool) -> Seq<char> {
    let bare = without_repeated(without_repeated(value, "file://"@), "file:"@);
    if windows {
        let inner = trim_start_char(bare, '/');
        match strip_prefix(inner, "?/"@) {
            Some(rest) => rest,
            None => inner,
        }
    } else {
        bare
    }
}

/// The path that a URL of a file names: as the URL is resolved, else the text without its scheme.
pub open spec fn file_path_of(value: Seq<char>, resolved: Option<LocalPathView>, windows: bool) -> LocalPathView {
    match resolved {
        Some(p) => p,
        None => LocalPathView::Text(bare_file_text(value, windows)),
    }
}

/// The path that the system gives.
pub open spec fn system_path(answer: FileUrl) -> Option<LocalPathView> {
    match answer {
        Some((_, Some(Ok(text)))) => Some(LocalPathView::Text(text@)),
        Some((_, Some(Err(raw)))) => Some(LocalPathView::Raw(raw@)),
        _ => None,
    }
}

/// The path that a text names; only a URL with the scheme of files is resolved.
pub open spec fn local_path_of(value: Seq<char>, resolved: Option<LocalPathView>, windows: bool) -> LocalPathView {
    file_path_of(
        value,
        if url_scheme(value) == Some("file"@) {
            resolved
        } else {
            None
        },
        windows,
    )
}

/// The path that a URL of a file names, given how the system resolves it.
pub fn file_path_from(value: &str, resolved: Option<LocalPath>, windows: bool) -> (r: LocalPath)
    ensures
        r.deep_view() == file_path_of(value@, resolved.deep_view(), windows),
{
    proof {
        reveal_strlit("file://");
        reveal_strlit("file:");
    }
    match resolved {
        Some(p) => p,
        None => {
            let bare: &str = strip_repeated(strip_repeated(value, "file://"), "file:");
            if !windows {
                return LocalPath::Text(owned(bare));
            }
            let inner: &str = trimmed_start_char(bare, '/');
            match without_prefix(inner, "?/") {
                Some(rest) => LocalPath::Text(owned(rest)),
                None => LocalPath::Text(owned(inner)),
            }
        },
    }
}

/// The path that a URL of a file names: what the system gives for a URL with the scheme of files; any
/// other text loses its scheme.
pub fn file_uri_to_path(value: &str, windows: bool) -> (r: LocalPath)
    ensures
        exists|answer: FileUrl| #[trigger]
            call_ensures(file_url, (value,), answer) && r.deep_view() == local_path_of(
                value@,
                system_path(answer),
                windows,
            ),
{
    let answer: FileUrl = file_url(value);
    let ghost given = answer;
    assert(call_ensures(file_url, (value,), given));
    let resolved: Option<LocalPath> = match answer {
        Some((scheme, Some(path))) => if same(scheme.as_str(), "file") {
            match path {
                Ok(text) => Some(LocalPath::Text(text)),
                Err(raw) => Some(LocalPath::Raw(raw)),
            }
        } else {
            None
        },
        _ => None,
    };
    file_path_from(value, resolved, windows)
}

/// A number that is not negative, else zero.
pub open spec fn index_number(n: i64) -> u64 {
    if n < 0 {
        0
    } else {
        n as u64
    }
}

pub(crate) fn number_of_index(n: i64) -> (r: u64)
    ensures
        r == index_number(n),
{
    if n < 0 {
        0
    } else {
        n as u64
    }
}

/// What is read off a speed at one moment.
#[derive(Clone, Copy, Debug, PartialEq, Eq, Structural)]
pub struct SpeedReading {
    pub downloaded: u64,
    pub bytes_per_second: u64,
    pub low_speed_count: u32,
}

/// What a state says of the speed.
pub open spec fn reading_of(s: SpeedStateView) -> SpeedReading {
    SpeedReading {
        downloaded: s.total_downloaded,
        bytes_per_second: shown_speed(s),
        low_speed_count: s.low_speed_count,
    }
}

impl SpeedState {
    /// What the state says of the speed.
    pub fn reading(&self) -> (r: SpeedReading)
        ensures
            r == reading_of(self.view()),
    {
        SpeedReading {
            downloaded: self.total_downloaded(),
            bytes_per_second: self.display_bytes_per_second(),
            low_speed_count: self.low_speed_count(),
        }
    }
}

/// The events about the progress of a stream.
pub open spec fn stream_progress_events(
    id: Seq<char>,
    speed: SpeedReading,
    completed: u64,
    total: u64,
) -> Seq<ProgressEventView> {
    seq![
        ProgressEventView::StreamProgress(
            StreamProgressView {
                stream_id: id,
                downloaded_bytes: speed.downloaded,
                total_bytes: None,
                bytes_per_second: speed.bytes_per_second,
                low_speed_count: speed.low_speed_count,
                completed_segments: completed,
                total_segments: Some(total),
            },
        ),
        ProgressEventView::AggregateProgress(
            AggregateProgress {
                downloaded_bytes: speed.downloaded,
                total_bytes: None,
                bytes_per_second: speed.bytes_per_second,
            },
        ),
    ]
}

pub(crate) fn push_stream_progress(
    events: &mut Vec<ProgressEvent>,
    id: &str,
    speed: SpeedReading,
    completed: u64,
    total: u64,
)
    ensures
        final(events).deep_view() == old(events).deep_view() + stream_progress_events(
            id@,
            speed,
            completed,
            total,
        ),
{
    let ghost before = events.deep_view();
    events.push(
        ProgressEvent::StreamProgress(
            StreamProgress {
                stream_id: owned(id),
                downloaded_bytes: speed.downloaded,
                total_bytes: None,
                bytes_per_second: speed.bytes_per_second,
                low_speed_count: speed.low_speed_count,
                completed_segments: completed,
                total_segments: Some(total),
            },
        ),
    );
    events.push(
        ProgressEvent::AggregateProgress(
            AggregateProgress {
                downloaded_bytes: speed.downloaded,
                total_bytes: None,
                bytes_per_second: speed.bytes_per_second,
            },
        ),
    );
    assert(events.deep_view() =~= before + stream_progress_events(id@, speed, completed, total));
}

/// The event about the progress of a segment.
pub open spec fn segment_progress_event(
    id: Seq<char>,
    index: i64,
    speed: SpeedReading,
    total: Option<u64>,
) -> ProgressEventView {
    ProgressEventView::SegmentProgress(
        SegmentProgressView {
            stream_id: id,
            segment_index: index_number(index),
            downloaded_bytes: speed.downloaded,
            total_bytes: total,
            bytes_per_second: speed.bytes_per_second,
            low_speed_count: speed.low_speed_count,
            retry_attempt: 0,
        },
    )
}

/// The event about the progress of a segment, at a time.
pub fn segment_progress(
    stream_id: &str,
    segment_index: i64,
    speed: &mut SpeedState,
    total_bytes: Option<u64>,
    now: u64,
) -> (r: ProgressEvent)
    ensures
        final(speed).view() == ticked(old(speed).view(), now),
        r.deep_view() == segment_progress_event(
            stream_id@,
            segment_index,
            reading_of(final(speed).view()),
            total_bytes,
        ),
{
    speed.record_progress_tick(now);
    let reading: SpeedReading = speed.reading();
    ProgressEvent::SegmentProgress(
        SegmentProgress {
            stream_id: owned(stream_id),
            segment_index: number_of_index(segment_index),
            downloaded_bytes: reading.downloaded,
            total_bytes,
            bytes_per_second: reading.bytes_per_second,
            low_speed_count: reading.low_speed_count,
            retry_attempt: 0,
        },
    )
}

/// Fetches single segments.
#[derive(Clone, Copy, Debug)]
pub struct SegmentDownloader;

impl SegmentDownloader {
    pub fn new() -> Self {
        SegmentDownloader
    }
}

/// Fetches whole streams.
#[derive(Clone, Copy, Debug)]
pub struct DownloadScheduler {
    pub downloader: SegmentDownloader,
}

impl DownloadScheduler {
    pub fn new() -> Self {
        DownloadScheduler { downloader: SegmentDownloader::new() }
    }
}

} // verus!
