//! Options of a download.

use crate::datetime::{
    calendar_day, civil_days, current_local_time, field, parse_digits, LocalTime, TimeSpan,
};
use crate::error::{Error, ErrorView, Result};
use crate::manifest::{copy_opt, opt_bytes, RoleType};
use crate::mux::{MuxFormat, MuxImport, MuxImportView};
use crate::text::{all_digits, owned, to_chars};
use crate::text_map::TextMap;
use vstd::prelude::*;

verus! {

/// Which defaults apply.
#[derive(Clone, Copy, Debug, PartialEq, Eq, Structural)]
pub enum CompatibilityProfile {
    CliCompatible,
    ApiSafe,
}

/// Verbosity of the log.
#[derive(Clone, Copy, Debug, PartialEq, Eq, Structural)]
pub enum LogLevel {
    Debug,
    Info,
    Warn,
    Error,
    Off,
}

/// Tool that decrypts MP4 files.
#[derive(Clone, Copy, Debug, PartialEq, Eq, Structural)]
pub enum DecryptionEngine {
    Mp4forge,
    Mp4decrypt,
    ShakaPackager,
    Ffmpeg,
}

/// Format of written subtitles.
#[derive(Clone, Copy, Debug, PartialEq, Eq, Structural)]
pub enum SubtitleFormat {
    Srt,
    Vtt,
}

/// Language of the messages.
#[derive(Clone, Copy, Debug, PartialEq, Eq, Structural)]
pub enum UiLanguage {
    EnUs,
}

/// Encryption method that overrides the one in a playlist.
#[derive(Clone, Copy, Debug, PartialEq, Eq, Structural)]
pub enum HlsMethod {
    Unencrypted,
    Aes128,
    Aes128Ecb,
    Cenc,
    SampleAes,
    SampleAesCtr,
    Chacha20,
    Unknown,
}

/// Tool that muxes.
#[derive(Clone, Copy, Debug, PartialEq, Eq, Structural)]
pub enum MuxerKind {
    Ffmpeg,
    Mkvmerge,
    Mp4forge,
}

/// Part of a stream to download.
#[derive(Debug, PartialEq, Eq)]
pub enum CustomRange {
    /// Segments by index, both ends taken.
    Segment { input: String, start_index: i64, end_index: i64 },
    /// Whole seconds; no end means up to the end of the stream.
    Time { input: String, start_seconds: i64, end_seconds: Option<i64> },
}

/// Model of `CustomRange`.
pub enum CustomRangeView {
    Segment { input: Seq<char>, start_index: i64, end_index: i64 },
    Time { input: Seq<char>, start_seconds: i64, end_seconds: Option<i64> },
}

impl DeepView for CustomRange {
    type V = CustomRangeView;

    open spec fn deep_view(&self) -> CustomRangeView {
        match self {
            CustomRange::Segment { input, start_index, end_index } => CustomRangeView::Segment {
                input: input@,
                start_index: *start_index,
                end_index: *end_index,
            },
            CustomRange::Time { input, start_seconds, end_seconds } => CustomRangeView::Time {
                input: input@,
                start_seconds: *start_seconds,
                end_seconds: *end_seconds,
            },
        }
    }
}

impl Clone for CustomRange {
    fn clone(&self) -> (r: Self)
        ensures
            r.deep_view() == self.deep_view(),
    {
        match self {
            CustomRange::Segment { input, start_index, end_index } => CustomRange::Segment {
                input: input.clone(),
                start_index: *start_index,
                end_index: *end_index,
            },
            CustomRange::Time { input, start_seconds, end_seconds } => CustomRange::Time {
                input: input.clone(),
                start_seconds: *start_seconds,
                end_seconds: *end_seconds,
            },
        }
    }
}

/// Unit of a speed limit.
#[derive(Clone, Copy, Debug, PartialEq, Eq, Structural)]
pub enum SpeedUnit {
    /// 1024 bytes per second.
    Kilo,
    /// 1024 * 1024 bytes per second.
    Mega,
}

/// A speed limit: decimal text and its unit.
#[derive(Debug, PartialEq, Eq)]
pub struct SpeedLimit {
    pub number: String,
    pub unit: SpeedUnit,
}

/// Model of `SpeedLimit`.
pub struct SpeedLimitView {
    pub number: Seq<char>,
    pub unit: SpeedUnit,
}

impl DeepView for SpeedLimit {
    type V = SpeedLimitView;

    open spec fn deep_view(&self) -> SpeedLimitView {
        SpeedLimitView { number: self.number@, unit: self.unit }
    }
}

impl Clone for SpeedLimit {
    fn clone(&self) -> (r: Self)
        ensures
            r.deep_view() == self.deep_view(),
    {
        SpeedLimit { number: self.number.clone(), unit: self.unit }
    }
}

/// Time at which a task starts.
#[derive(Debug, PartialEq, Eq)]
pub struct TaskStartAt {
    raw: String,
}

impl DeepView for TaskStartAt {
    type V = Seq<char>;

    closed spec fn deep_view(&self) -> Seq<char> {
        self.raw@
    }
}

impl Clone for TaskStartAt {
    fn clone(&self) -> (r: Self)
        ensures
            r.deep_view() == self.deep_view(),
    {
        TaskStartAt { raw: self.raw.clone() }
    }
}

/// The seconds from 1970-01-01 to a date and time of day.
pub open spec fn civil_seconds(
    year: int,
    month: int,
    day: int,
    hour: int,
    minute: int,
    second: int,
) -> int {
    civil_days(year, month, day) * 86400 + hour * 3600 + minute * 60 + second
}

/// The seconds that `yyyyMMddHHmmss` stands for, or what is wrong with it.
pub open spec fn task_start_seconds(raw: Seq<char>) -> core::result::Result<int, ErrorView> {
    if raw.len() != 14 || !all_digits(raw) {
        Err(ErrorView::Config("task start time must use yyyyMMddHHmmss"@))
    } else {
        let (year, month, day) = (field(raw, 0, 4), field(raw, 4, 6), field(raw, 6, 8));
        let (hour, minute, second) = (field(raw, 8, 10), field(raw, 10, 12), field(raw, 12, 14));
        if !(1 <= month <= 12) {
            Err(ErrorView::Config("task start time contains an out-of-range month"@))
        } else if !(1 <= day <= crate::datetime::month_days(year, month)) {
            Err(ErrorView::Config("task start time contains an out-of-range date"@))
        } else if hour > 23 || minute > 59 || second > 59 {
            Err(ErrorView::Config("task start time contains an out-of-range time"@))
        } else {
            Ok(civil_seconds(year, month, day, hour, minute, second))
        }
    }
}

/// The time left until a start time, in nanoseconds from `now`; none once it has come.
pub open spec fn nanos_until(
    raw: Seq<char>,
    now: core::result::Result<int, ErrorView>,
) -> core::result::Result<Option<int>, ErrorView> {
    match now {
        Err(e) => Err(e),
        Ok(n) => match task_start_seconds(raw) {
            Err(e) => Err(e),
            Ok(t) => if t * 1_000_000_000 <= n {
                Ok(None)
            } else {
                Ok(Some(t * 1_000_000_000 - n))
            },
        },
    }
}

/// The nanoseconds from 1970-01-01 to a local time.
pub open spec fn local_nanos(t: LocalTime) -> int {
    civil_seconds(
        t.year as int,
        t.month as int,
        t.day as int,
        t.hour as int,
        t.minute as int,
        t.second as int,
    ) * 1_000_000_000 + t.nanosecond
}

/// Model of a waiting time.
pub open spec fn view_wait(r: Result<Option<TimeSpan>>) -> core::result::Result<
    Option<int>,
    ErrorView,
> {
    match r {
        Ok(Some(t)) => Ok(Some(t.nanos())),
        Ok(None) => Ok(None),
        Err(e) => Err(e.deep_view()),
    }
}

fn parse_task_start_datetime(raw: &str) -> (r: Result<i64>)
    ensures
        match r {
            Ok(n) => task_start_seconds(raw@) == Ok::<int, ErrorView>(n as int) && -70_000_000_000
                < n < 300_000_000_000,
            Err(e) => task_start_seconds(raw@) == Err::<int, ErrorView>(e.deep_view()),
        },
{
    let v: Vec<char> = to_chars(raw);
    let mut digits: bool = true;
    let mut i: usize = 0;
    while i < v.len()
        invariant
            i <= v@.len(),
            digits == forall|j: int| 0 <= j < i ==> crate::text::is_digit(#[trigger] v@[j]),
        decreases v@.len() - i,
    {
        if !('0' <= v[i] && v[i] <= '9') {
            assert(!crate::text::is_digit(v@[i as int]));
            digits = false;
        }
        i = i + 1;
    }
    if v.len() != 14 || !digits {
        return Err(Error::config("task start time must use yyyyMMddHHmmss"));
    }
    proof {
        lemma_fields_are_digits(v@);
    }
    let year: i64 = parse_digits(&v, 0, 4).unwrap();
    let month: i64 = parse_digits(&v, 4, 6).unwrap();
    let day: i64 = parse_digits(&v, 6, 8).unwrap();
    let hour: i64 = parse_digits(&v, 8, 10).unwrap();
    let minute: i64 = parse_digits(&v, 10, 12).unwrap();
    let second: i64 = parse_digits(&v, 12, 14).unwrap();
    if !(1 <= month && month <= 12) {
        return Err(Error::config("task start time contains an out-of-range month"));
    }
    match calendar_day(year as i32, month as u8, day as u8) {
        None => Err(Error::config("task start time contains an out-of-range date")),
        Some(days) => {
            if hour > 23 || minute > 59 || second > 59 {
                return Err(Error::config("task start time contains an out-of-range time"));
            }
            proof {
                reveal_with_fuel(crate::datetime::days_before_month, 13);
            }
            Ok((days as i64 - 2_440_588) * 86400 + hour * 3600 + minute * 60 + second)
        },
    }
}

pub proof fn lemma_fields_are_digits(s: Seq<char>)
    requires
        all_digits(s),
        s.len() == 14,
    ensures
        forall|a: int, b: int|
            0 <= a <= b <= 14 ==> all_digits(#[trigger] s.subrange(a, b)),
{
    assert forall|a: int, b: int| 0 <= a <= b <= 14 implies all_digits(#[trigger] s.subrange(a, b)) by {
        assert forall|i: int| 0 <= i < b - a implies crate::text::is_digit(
            #[trigger] s.subrange(a, b)[i],
        ) by {
            assert(s.subrange(a, b)[i] == s[a + i]);
        }
    }
}

impl TaskStartAt {
    /// A start time in the form `yyyyMMddHHmmss`.
    pub fn new(raw: String) -> (r: Self)
        ensures
            r.deep_view() == raw@,
    {
        TaskStartAt { raw }
    }

    /// The text of the start time.
    pub fn as_str(&self) -> (r: &str)
        ensures
            r@ == self.deep_view(),
    {
        self.raw.as_str()
    }

    /// The time left on a local clock that shows `now`.
    pub fn duration_until(&self, now: &LocalTime) -> (r: Result<Option<TimeSpan>>)
        requires
            now.in_range(),
        ensures
            view_wait(r) == nanos_until(self.deep_view(), Ok(local_nanos(*now))),
    {
        let target: i64 = match parse_task_start_datetime(self.raw.as_str()) {
            Ok(n) => n,
            Err(e) => {
                return Err(e);
            },
        };
        let days: i32 = match calendar_day(now.year, now.month, now.day) {
            Some(n) => n,
            None => 0,
        };
        let current: i64 = (days as i64 - 2_440_588) * 86400 + now.hour as i64 * 3600
            + now.minute as i64 * 60 + now.second as i64;
        if target <= current {
            return Ok(None);
        }
        let gap: u64 = (target - current) as u64;
        if now.nanosecond == 0 {
            Ok(Some(TimeSpan { seconds: gap, nanoseconds: 0 }))
        } else {
            Ok(Some(TimeSpan { seconds: gap - 1, nanoseconds: 1_000_000_000 - now.nanosecond }))
        }
    }

    /// The time left on the local clock.
    pub fn duration_until_now(&self) -> (r: Result<Option<TimeSpan>>)
        ensures
            exists|now: LocalTime| #[trigger]
                call_ensures(current_local_time, (), now) && now.in_range() && view_wait(r) == nanos_until(
                    self.deep_view(),
                    Ok(local_nanos(now)),
                ),
    {
        let now: LocalTime = current_local_time();
        self.duration_until(&now)
    }

    /// The time left at a time in the same form.
    pub fn duration_until_raw(&self, now_raw: &str) -> (r: Result<Option<TimeSpan>>)
        ensures
            view_wait(r) == nanos_until(
                self.deep_view(),
                match task_start_seconds(now_raw@) {
                    Ok(n) => Ok(n * 1_000_000_000),
                    Err(e) => Err(e),
                },
            ),
    {
        let current: i64 = match parse_task_start_datetime(now_raw) {
            Ok(n) => n,
            Err(e) => {
                return Err(e);
            },
        };
        let target: i64 = match parse_task_start_datetime(self.raw.as_str()) {
            Ok(n) => n,
            Err(e) => {
                return Err(e);
            },
        };
        if target <= current {
            return Ok(None);
        }
        Ok(Some(TimeSpan { seconds: (target - current) as u64, nanoseconds: 0 }))
    }
}

/// Key given by the user.
#[derive(Debug, PartialEq, Eq)]
pub enum CustomKey {
    Track { track_id: u32, key_hex: String },
    Kid { kid_hex: String, key_hex: String },
    Key { key_hex: String },
}

/// Model of `CustomKey`.
pub enum CustomKeyView {
    Track { track_id: u32, key_hex: Seq<char> },
    Kid { kid_hex: Seq<char>, key_hex: Seq<char> },
    Key { key_hex: Seq<char> },
}

impl DeepView for CustomKey {
    type V = CustomKeyView;

    open spec fn deep_view(&self) -> CustomKeyView {
        match self {
            CustomKey::Track { track_id, key_hex } => CustomKeyView::Track {
                track_id: *track_id,
                key_hex: key_hex@,
            },
            CustomKey::Kid { kid_hex, key_hex } => CustomKeyView::Kid {
                kid_hex: kid_hex@,
                key_hex: key_hex@,
            },
            CustomKey::Key { key_hex } => CustomKeyView::Key { key_hex: key_hex@ },
        }
    }
}

impl Clone for CustomKey {
    fn clone(&self) -> (r: Self)
        ensures
            r.deep_view() == self.deep_view(),
    {
        match self {
            CustomKey::Track { track_id, key_hex } => CustomKey::Track {
                track_id: *track_id,
                key_hex: key_hex.clone(),
            },
            CustomKey::Kid { kid_hex, key_hex } => CustomKey::Kid {
                kid_hex: kid_hex.clone(),
                key_hex: key_hex.clone(),
            },
            CustomKey::Key { key_hex } => CustomKey::Key { key_hex: key_hex.clone() },
        }
    }
}

/// Filter over streams.
#[derive(Debug, PartialEq, Eq)]
pub struct StreamFilter {
    pub for_choice: String,
    pub id: Option<String>,
    pub language: Option<String>,
    pub name: Option<String>,
    pub codecs: Option<String>,
    pub resolution: Option<String>,
    pub frame_rate: Option<String>,
    pub channels: Option<String>,
    pub range: Option<String>,
    pub url: Option<String>,
    pub segment_count_min: Option<i64>,
    pub segment_count_max: Option<i64>,
    pub playlist_duration_min: Option<i64>,
    pub playlist_duration_max: Option<i64>,
    pub bandwidth_min: Option<i64>,
    pub bandwidth_max: Option<i64>,
    pub role: Option<RoleType>,
}

/// Model of `StreamFilter`.
pub struct StreamFilterView {
    pub for_choice: Seq<char>,
    pub id: Option<Seq<char>>,
    pub language: Option<Seq<char>>,
    pub name: Option<Seq<char>>,
    pub codecs: Option<Seq<char>>,
    pub resolution: Option<Seq<char>>,
    pub frame_rate: Option<Seq<char>>,
    pub channels: Option<Seq<char>>,
    pub range: Option<Seq<char>>,
    pub url: Option<Seq<char>>,
    pub segment_count_min: Option<i64>,
    pub segment_count_max: Option<i64>,
    pub playlist_duration_min: Option<i64>,
    pub playlist_duration_max: Option<i64>,
    pub bandwidth_min: Option<i64>,
    pub bandwidth_max: Option<i64>,
    pub role: Option<RoleType>,
}

impl DeepView for StreamFilter {
    type V = StreamFilterView;

    open spec fn deep_view(&self) -> StreamFilterView {
        StreamFilterView {
            for_choice: self.for_choice@,
            id: self.id.deep_view(),
            language: self.language.deep_view(),
            name: self.name.deep_view(),
            codecs: self.codecs.deep_view(),
            resolution: self.resolution.deep_view(),
            frame_rate: self.frame_rate.deep_view(),
            channels: self.channels.deep_view(),
            range: self.range.deep_view(),
            url: self.url.deep_view(),
            segment_count_min: self.segment_count_min,
            segment_count_max: self.segment_count_max,
            playlist_duration_min: self.playlist_duration_min,
            playlist_duration_max: self.playlist_duration_max,
            bandwidth_min: self.bandwidth_min,
            bandwidth_max: self.bandwidth_max,
            role: self.role,
        }
    }
}

impl Clone for StreamFilter {
    fn clone(&self) -> (r: Self)
        ensures
            r.deep_view() == self.deep_view(),
    {
        StreamFilter {
            for_choice: self.for_choice.clone(),
            id: copy_opt(&self.id),
            language: copy_opt(&self.language),
            name: copy_opt(&self.name),
            codecs: copy_opt(&self.codecs),
            resolution: copy_opt(&self.resolution),
            frame_rate: copy_opt(&self.frame_rate),
            channels: copy_opt(&self.channels),
            range: copy_opt(&self.range),
            url: copy_opt(&self.url),
            segment_count_min: self.segment_count_min,
            segment_count_max: self.segment_count_max,
            playlist_duration_min: self.playlist_duration_min,
            playlist_duration_max: self.playlist_duration_max,
            bandwidth_min: self.bandwidth_min,
            bandwidth_max: self.bandwidth_max,
            role: self.role,
        }
    }
}

/// What to mux once all streams are there.
#[derive(Debug, PartialEq, Eq)]
pub struct MuxAfterDoneOptions {
    pub format: MuxFormat,
    pub muxer: MuxerKind,
    pub fallback_muxer: Option<MuxerKind>,
    pub bin_path: Option<String>,
    pub keep: bool,
    pub skip_sub: bool,
}

/// Model of `MuxAfterDoneOptions`.
pub struct MuxAfterDoneOptionsView {
    pub format: MuxFormat,
    pub muxer: MuxerKind,
    pub fallback_muxer: Option<MuxerKind>,
    pub bin_path: Option<Seq<char>>,
    pub keep: bool,
    pub skip_sub: bool,
}

impl DeepView for MuxAfterDoneOptions {
    type V = MuxAfterDoneOptionsView;

    open spec fn deep_view(&self) -> MuxAfterDoneOptionsView {
        MuxAfterDoneOptionsView {
            format: self.format,
            muxer: self.muxer,
            fallback_muxer: self.fallback_muxer,
            bin_path: self.bin_path.deep_view(),
            keep: self.keep,
            skip_sub: self.skip_sub,
        }
    }
}

impl Clone for MuxAfterDoneOptions {
    fn clone(&self) -> (r: Self)
        ensures
            r.deep_view() == self.deep_view(),
    {
        MuxAfterDoneOptions {
            format: self.format,
            muxer: self.muxer,
            fallback_muxer: self.fallback_muxer,
            bin_path: copy_opt(&self.bin_path),
            keep: self.keep,
            skip_sub: self.skip_sub,
        }
    }
}

/// Muxing to MP4 with ffmpeg.
pub open spec fn default_mux() -> MuxAfterDoneOptionsView {
    MuxAfterDoneOptionsView {
        format: MuxFormat::Mp4,
        muxer: MuxerKind::Ffmpeg,
        fallback_muxer: None,
        bin_path: None,
        keep: false,
        skip_sub: false,
    }
}

impl Default for MuxAfterDoneOptions {
    fn default() -> (r: Self)
        ensures
            r.deep_view() == default_mux(),
    {
        MuxAfterDoneOptions {
            format: MuxFormat::Mp4,
            muxer: MuxerKind::Ffmpeg,
            fallback_muxer: None,
            bin_path: None,
            keep: false,
            skip_sub: false,
        }
    }
}

/// An option that is on or off.
#[derive(Clone, Copy, Debug, PartialEq, Eq, Structural)]
pub enum Toggle {
    Off,
    On,
}

/// On where `b` holds.
pub open spec fn toggle(b: bool) -> Toggle {
    if b {
        Toggle::On
    } else {
        Toggle::Off
    }
}

impl Toggle {
    /// On where `b` holds.
    pub fn of(b: bool) -> (r: Self)
        ensures
            r == toggle(b),
    {
        if b {
            Toggle::On
        } else {
            Toggle::Off
        }
    }

    /// Whether this is on.
    pub fn is_on(&self) -> (r: bool)
        ensures
            r == (*self == Toggle::On),
    {
        match self {
            Toggle::On => true,
            Toggle::Off => false,
        }
    }
}

/// All options of a download.
#[derive(Debug)]
pub struct DownloadOptions {
    pub compatibility_profile: CompatibilityProfile,
    pub log_level: LogLevel,
    pub tmp_dir: Option<String>,
    pub save_dir: Option<String>,
    pub save_name: Option<String>,
    pub save_pattern: Option<String>,
    pub log_file_path: Option<String>,
    pub ui_language: Option<UiLanguage>,
    pub urlprocessor_args: Option<String>,
    pub base_url: Option<String>,
    pub headers: TextMap<String>,
    pub custom_proxy: Option<String>,
    pub use_system_proxy: Toggle,
    pub allow_insecure_tls: Toggle,
    pub append_url_params: Toggle,
    pub custom_range: Option<CustomRange>,
    pub keys: Vec<CustomKey>,
    pub key_text_file: Option<String>,
    pub decryption_engine: DecryptionEngine,
    pub decryption_binary_path: Option<String>,
    pub mp4_real_time_decryption: Toggle,
    pub use_shaka_packager: Toggle,
    pub custom_hls_method: Option<HlsMethod>,
    pub custom_hls_key: Option<Vec<u8>>,
    pub custom_hls_iv: Option<Vec<u8>>,
    pub allow_hls_multi_ext_map: Toggle,
    pub thread_count: i32,
    pub download_retry_count: i32,
    pub http_request_timeout: String,
    pub max_speed: Option<SpeedLimit>,
    pub auto_select: Toggle,
    pub concurrent_download: Toggle,
    pub sub_only: Toggle,
    pub select_video: Vec<StreamFilter>,
    pub select_audio: Vec<StreamFilter>,
    pub select_subtitle: Vec<StreamFilter>,
    pub drop_video: Vec<StreamFilter>,
    pub drop_audio: Vec<StreamFilter>,
    pub drop_subtitle: Vec<StreamFilter>,
    pub ad_keywords: Vec<String>,
    pub skip_merge: Toggle,
    pub skip_download: Toggle,
    pub check_segments_count: Toggle,
    pub binary_merge: Toggle,
    pub use_ffmpeg_concat_demuxer: Toggle,
    pub del_after_done: Toggle,
    pub no_date_info: Toggle,
    pub no_log: Toggle,
    pub write_meta_json: Toggle,
    pub auto_subtitle_fix: Toggle,
    pub sub_format: SubtitleFormat,
    pub ffmpeg_binary_path: Option<String>,
    pub mkvmerge_binary_path: Option<String>,
    pub mux_after_done: Option<MuxAfterDoneOptions>,
    pub mux_imports: Vec<MuxImport>,
    pub live_perform_as_vod: Toggle,
    pub live_real_time_merge: Toggle,
    pub live_keep_segments: Toggle,
    pub live_pipe_mux: Toggle,
    pub live_record_limit: Option<u64>,
    pub live_wait_time: Option<i32>,
    pub live_take_count: i32,
    pub live_fix_vtt_by_audio: Toggle,
    pub task_start_at: Option<TaskStartAt>,
    pub force_ansi_console: Toggle,
    pub no_ansi_color: Toggle,
    pub disable_update_check: Toggle,
}

/// Model of `DownloadOptions`.
pub struct DownloadOptionsView {
    pub compatibility_profile: CompatibilityProfile,
    pub log_level: LogLevel,
    pub tmp_dir: Option<Seq<char>>,
    pub save_dir: Option<Seq<char>>,
    pub save_name: Option<Seq<char>>,
    pub save_pattern: Option<Seq<char>>,
    pub log_file_path: Option<Seq<char>>,
    pub ui_language: Option<UiLanguage>,
    pub urlprocessor_args: Option<Seq<char>>,
    pub base_url: Option<Seq<char>>,
    pub headers: Seq<(Seq<char>, Seq<char>)>,
    pub custom_proxy: Option<Seq<char>>,
    pub use_system_proxy: Toggle,
    pub allow_insecure_tls: Toggle,
    pub append_url_params: Toggle,
    pub custom_range: Option<CustomRangeView>,
    pub keys: Seq<CustomKeyView>,
    pub key_text_file: Option<Seq<char>>,
    pub decryption_engine: DecryptionEngine,
    pub decryption_binary_path: Option<Seq<char>>,
    pub mp4_real_time_decryption: Toggle,
    pub use_shaka_packager: Toggle,
    pub custom_hls_method: Option<HlsMethod>,
    pub custom_hls_key: Option<Seq<u8>>,
    pub custom_hls_iv: Option<Seq<u8>>,
    pub allow_hls_multi_ext_map: Toggle,
    pub thread_count: i32,
    pub download_retry_count: i32,
    pub http_request_timeout: Seq<char>,
    pub max_speed: Option<SpeedLimitView>,
    pub auto_select: Toggle,
    pub concurrent_download: Toggle,
    pub sub_only: Toggle,
    pub select_video: Seq<StreamFilterView>,
    pub select_audio: Seq<StreamFilterView>,
    pub select_subtitle: Seq<StreamFilterView>,
    pub drop_video: Seq<StreamFilterView>,
    pub drop_audio: Seq<StreamFilterView>,
    pub drop_subtitle: Seq<StreamFilterView>,
    pub ad_keywords: Seq<Seq<char>>,
    pub skip_merge: Toggle,
    pub skip_download: Toggle,
    pub check_segments_count: Toggle,
    pub binary_merge: Toggle,
    pub use_ffmpeg_concat_demuxer: Toggle,
    pub del_after_done: Toggle,
    pub no_date_info: Toggle,
    pub no_log: Toggle,
    pub write_meta_json: Toggle,
    pub auto_subtitle_fix: Toggle,
    pub sub_format: SubtitleFormat,
    pub ffmpeg_binary_path: Option<Seq<char>>,
    pub mkvmerge_binary_path: Option<Seq<char>>,
    pub mux_after_done: Option<MuxAfterDoneOptionsView>,
    pub mux_imports: Seq<MuxImportView>,
    pub live_perform_as_vod: Toggle,
    pub live_real_time_merge: Toggle,
    pub live_keep_segments: Toggle,
    pub live_pipe_mux: Toggle,
    pub live_record_limit: Option<u64>,
    pub live_wait_time: Option<i32>,
    pub live_take_count: i32,
    pub live_fix_vtt_by_audio: Toggle,
    pub task_start_at: Option<Seq<char>>,
    pub force_ansi_console: Toggle,
    pub no_ansi_color: Toggle,
    pub disable_update_check: Toggle,
}

/// Model of options.
#[verifier::opaque]
pub open spec fn options_view(o: DownloadOptions) -> DownloadOptionsView {
    DownloadOptionsView {
        compatibility_profile: o.compatibility_profile,
        log_level: o.log_level,
        tmp_dir: o.tmp_dir.deep_view(),
        save_dir: o.save_dir.deep_view(),
        save_name: o.save_name.deep_view(),
        save_pattern: o.save_pattern.deep_view(),
        log_file_path: o.log_file_path.deep_view(),
        ui_language: o.ui_language,
        urlprocessor_args: o.urlprocessor_args.deep_view(),
        base_url: o.base_url.deep_view(),
        headers: o.headers.deep_view(),
        custom_proxy: o.custom_proxy.deep_view(),
        use_system_proxy: o.use_system_proxy,
        allow_insecure_tls: o.allow_insecure_tls,
        append_url_params: o.append_url_params,
        custom_range: o.custom_range.deep_view(),
        keys: o.keys.deep_view(),
        key_text_file: o.key_text_file.deep_view(),
        decryption_engine: o.decryption_engine,
        decryption_binary_path: o.decryption_binary_path.deep_view(),
        mp4_real_time_decryption: o.mp4_real_time_decryption,
        use_shaka_packager: o.use_shaka_packager,
        custom_hls_method: o.custom_hls_method,
        custom_hls_key: opt_bytes(o.custom_hls_key),
        custom_hls_iv: opt_bytes(o.custom_hls_iv),
        allow_hls_multi_ext_map: o.allow_hls_multi_ext_map,
        thread_count: o.thread_count,
        download_retry_count: o.download_retry_count,
        http_request_timeout: o.http_request_timeout@,
        max_speed: o.max_speed.deep_view(),
        auto_select: o.auto_select,
        concurrent_download: o.concurrent_download,
        sub_only: o.sub_only,
        select_video: o.select_video.deep_view(),
        select_audio: o.select_audio.deep_view(),
        select_subtitle: o.select_subtitle.deep_view(),
        drop_video: o.drop_video.deep_view(),
        drop_audio: o.drop_audio.deep_view(),
        drop_subtitle: o.drop_subtitle.deep_view(),
        ad_keywords: o.ad_keywords.deep_view(),
        skip_merge: o.skip_merge,
        skip_download: o.skip_download,
        check_segments_count: o.check_segments_count,
        binary_merge: o.binary_merge,
        use_ffmpeg_concat_demuxer: o.use_ffmpeg_concat_demuxer,
        del_after_done: o.del_after_done,
        no_date_info: o.no_date_info,
        no_log: o.no_log,
        write_meta_json: o.write_meta_json,
        auto_subtitle_fix: o.auto_subtitle_fix,
        sub_format: o.sub_format,
        ffmpeg_binary_path: o.ffmpeg_binary_path.deep_view(),
        mkvmerge_binary_path: o.mkvmerge_binary_path.deep_view(),
        mux_after_done: o.mux_after_done.deep_view(),
        mux_imports: o.mux_imports.deep_view(),
        live_perform_as_vod: o.live_perform_as_vod,
        live_real_time_merge: o.live_real_time_merge,
        live_keep_segments: o.live_keep_segments,
        live_pipe_mux: o.live_pipe_mux,
        live_record_limit: o.live_record_limit,
        live_wait_time: o.live_wait_time,
        live_take_count: o.live_take_count,
        live_fix_vtt_by_audio: o.live_fix_vtt_by_audio,
        task_start_at: o.task_start_at.deep_view(),
        force_ansi_console: o.force_ansi_console,
        no_ansi_color: o.no_ansi_color,
        disable_update_check: o.disable_update_check,
    }
}

impl DeepView for DownloadOptions {
    type V = DownloadOptionsView;

    open spec fn deep_view(&self) -> DownloadOptionsView {
        options_view(*self)
    }
}

/// The options where nothing was asked for.
pub open spec fn default_options(thread_count: i32) -> DownloadOptionsView {
    DownloadOptionsView {
        compatibility_profile: CompatibilityProfile::CliCompatible,
        log_level: LogLevel::Info,
        tmp_dir: None,
        save_dir: None,
        save_name: None,
        save_pattern: None,
        log_file_path: None,
        ui_language: None,
        urlprocessor_args: None,
        base_url: None,
        headers: Seq::empty(),
        custom_proxy: None,
        use_system_proxy: Toggle::On,
        allow_insecure_tls: Toggle::Off,
        append_url_params: Toggle::Off,
        custom_range: None,
        keys: Seq::empty(),
        key_text_file: None,
        decryption_engine: DecryptionEngine::Mp4forge,
        decryption_binary_path: None,
        mp4_real_time_decryption: Toggle::Off,
        use_shaka_packager: Toggle::Off,
        custom_hls_method: None,
        custom_hls_key: None,
        custom_hls_iv: None,
        allow_hls_multi_ext_map: Toggle::Off,
        thread_count: thread_count,
        download_retry_count: 3,
        http_request_timeout: "100"@,
        max_speed: None,
        auto_select: Toggle::Off,
        concurrent_download: Toggle::Off,
        sub_only: Toggle::Off,
        select_video: Seq::empty(),
        select_audio: Seq::empty(),
        select_subtitle: Seq::empty(),
        drop_video: Seq::empty(),
        drop_audio: Seq::empty(),
        drop_subtitle: Seq::empty(),
        ad_keywords: Seq::empty(),
        skip_merge: Toggle::Off,
        skip_download: Toggle::Off,
        check_segments_count: Toggle::On,
        binary_merge: Toggle::Off,
        use_ffmpeg_concat_demuxer: Toggle::Off,
        del_after_done: Toggle::On,
        no_date_info: Toggle::Off,
        no_log: Toggle::Off,
        write_meta_json: Toggle::On,
        auto_subtitle_fix: Toggle::On,
        sub_format: SubtitleFormat::Srt,
        ffmpeg_binary_path: None,
        mkvmerge_binary_path: None,
        mux_after_done: None,
        mux_imports: Seq::empty(),
        live_perform_as_vod: Toggle::Off,
        live_real_time_merge: Toggle::Off,
        live_keep_segments: Toggle::On,
        live_pipe_mux: Toggle::Off,
        live_record_limit: None,
        live_wait_time: None,
        live_take_count: 16,
        live_fix_vtt_by_audio: Toggle::Off,
        task_start_at: None,
        force_ansi_console: Toggle::Off,
        no_ansi_color: Toggle::Off,
        disable_update_check: Toggle::Off,
    }
}

/// The number of download threads on a machine with that much parallelism.
pub open spec fn threads_for(available: Option<usize>) -> int {
    match available {
        None => 1,
        Some(n) => if n <= i32::MAX {
            n as int
        } else {
            i32::MAX as int
        },
    }
}

/// The number of download threads on a machine with that much parallelism.
pub fn default_thread_count(available: Option<usize>) -> (r: i32)
    ensures
        r == threads_for(available),
{
    match available {
        None => 1,
        Some(n) => if n <= 2147483647 {
            n as i32
        } else {
            i32::MAX
        },
    }
}

impl DownloadOptions {
    /// The headers are in order.
    pub open spec fn wf(&self) -> bool {
        self.headers.wf()
    }

    /// The options where nothing was asked for, on a machine with that much parallelism.
    pub fn for_parallelism(available: Option<usize>) -> (r: Self)
        ensures
            r.deep_view() == default_options(threads_for(available) as i32),
            r.wf(),
    {
        let thread_count: i32 = default_thread_count(available);
        proof {
            reveal(options_view);
        }
        let r = DownloadOptions {
            compatibility_profile: CompatibilityProfile::CliCompatible,
            log_level: LogLevel::Info,
            tmp_dir: None,
            save_dir: None,
            save_name: None,
            save_pattern: None,
            log_file_path: None,
            ui_language: None,
            urlprocessor_args: None,
            base_url: None,
            headers: TextMap::new(),
            custom_proxy: None,
            use_system_proxy: Toggle::On,
            allow_insecure_tls: Toggle::Off,
            append_url_params: Toggle::Off,
            custom_range: None,
            keys: Vec::new(),
            key_text_file: None,
            decryption_engine: DecryptionEngine::Mp4forge,
            decryption_binary_path: None,
            mp4_real_time_decryption: Toggle::Off,
            use_shaka_packager: Toggle::Off,
            custom_hls_method: None,
            custom_hls_key: None,
            custom_hls_iv: None,
            allow_hls_multi_ext_map: Toggle::Off,
            thread_count: thread_count,
            download_retry_count: 3,
            http_request_timeout: owned("100"),
            max_speed: None,
            auto_select: Toggle::Off,
            concurrent_download: Toggle::Off,
            sub_only: Toggle::Off,
            select_video: Vec::new(),
            select_audio: Vec::new(),
            select_subtitle: Vec::new(),
            drop_video: Vec::new(),
            drop_audio: Vec::new(),
            drop_subtitle: Vec::new(),
            ad_keywords: Vec::new(),
            skip_merge: Toggle::Off,
            skip_download: Toggle::Off,
            check_segments_count: Toggle::On,
            binary_merge: Toggle::Off,
            use_ffmpeg_concat_demuxer: Toggle::Off,
            del_after_done: Toggle::On,
            no_date_info: Toggle::Off,
            no_log: Toggle::Off,
            write_meta_json: Toggle::On,
            auto_subtitle_fix: Toggle::On,
            sub_format: SubtitleFormat::Srt,
            ffmpeg_binary_path: None,
            mkvmerge_binary_path: None,
            mux_after_done: None,
            mux_imports: Vec::new(),
            live_perform_as_vod: Toggle::Off,
            live_real_time_merge: Toggle::Off,
            live_keep_segments: Toggle::On,
            live_pipe_mux: Toggle::Off,
            live_record_limit: None,
            live_wait_time: None,
            live_take_count: 16,
            live_fix_vtt_by_audio: Toggle::Off,
            task_start_at: None,
            force_ansi_console: Toggle::Off,
            no_ansi_color: Toggle::Off,
            disable_update_check: Toggle::Off,
        };
        assert(r.keys.deep_view() =~= Seq::empty());
        assert(r.select_video.deep_view() =~= Seq::empty());
        assert(r.select_audio.deep_view() =~= Seq::empty());
        assert(r.select_subtitle.deep_view() =~= Seq::empty());
        assert(r.drop_video.deep_view() =~= Seq::empty());
        assert(r.drop_audio.deep_view() =~= Seq::empty());
        assert(r.drop_subtitle.deep_view() =~= Seq::empty());
        assert(r.ad_keywords.deep_view() =~= Seq::empty());
        assert(r.mux_imports.deep_view() =~= Seq::empty());
        r
    }

    /// Sets `mp4_real_time_decryption`.
    pub fn set_mp4_real_time_decryption(&mut self, v: Toggle)
        ensures
            final(self).deep_view() == (DownloadOptionsView { mp4_real_time_decryption: v, ..old(self).deep_view() }),
            final(self).headers == old(self).headers,
    {
        proof {
            reveal(options_view);
        }
        self.mp4_real_time_decryption = v;
    }

    /// Sets `use_shaka_packager`.
    pub fn set_use_shaka_packager(&mut self, v: Toggle)
        ensures
            final(self).deep_view() == (DownloadOptionsView { use_shaka_packager: v, ..old(self).deep_view() }),
            final(self).headers == old(self).headers,
    {
        proof {
            reveal(options_view);
        }
        self.use_shaka_packager = v;
    }

    /// Sets `append_url_params`.
    pub fn set_append_url_params(&mut self, v: Toggle)
        ensures
            final(self).deep_view() == (DownloadOptionsView { append_url_params: v, ..old(self).deep_view() }),
            final(self).headers == old(self).headers,
    {
        proof {
            reveal(options_view);
        }
        self.append_url_params = v;
    }

    /// Sets `use_system_proxy`.
    pub fn set_use_system_proxy(&mut self, v: Toggle)
        ensures
            final(self).deep_view() == (DownloadOptionsView { use_system_proxy: v, ..old(self).deep_view() }),
            final(self).headers == old(self).headers,
    {
        proof {
            reveal(options_view);
        }
        self.use_system_proxy = v;
    }

    /// Sets `no_log`.
    pub fn set_no_log(&mut self, v: Toggle)
        ensures
            final(self).deep_view() == (DownloadOptionsView { no_log: v, ..old(self).deep_view() }),
            final(self).headers == old(self).headers,
    {
        proof {
            reveal(options_view);
        }
        self.no_log = v;
    }

    /// Sets `force_ansi_console`.
    pub fn set_force_ansi_console(&mut self, v: Toggle)
        ensures
            final(self).deep_view() == (DownloadOptionsView { force_ansi_console: v, ..old(self).deep_view() }),
            final(self).headers == old(self).headers,
    {
        proof {
            reveal(options_view);
        }
        self.force_ansi_console = v;
    }

    /// Sets `no_ansi_color`.
    pub fn set_no_ansi_color(&mut self, v: Toggle)
        ensures
            final(self).deep_view() == (DownloadOptionsView { no_ansi_color: v, ..old(self).deep_view() }),
            final(self).headers == old(self).headers,
    {
        proof {
            reveal(options_view);
        }
        self.no_ansi_color = v;
    }

    /// Sets `disable_update_check`.
    pub fn set_disable_update_check(&mut self, v: Toggle)
        ensures
            final(self).deep_view() == (DownloadOptionsView { disable_update_check: v, ..old(self).deep_view() }),
            final(self).headers == old(self).headers,
    {
        proof {
            reveal(options_view);
        }
        self.disable_update_check = v;
    }

    /// Sets `auto_select`.
    pub fn set_auto_select(&mut self, v: Toggle)
        ensures
            final(self).deep_view() == (DownloadOptionsView { auto_select: v, ..old(self).deep_view() }),
            final(self).headers == old(self).headers,
    {
        proof {
            reveal(options_view);
        }
        self.auto_select = v;
    }

    /// Sets `sub_only`.
    pub fn set_sub_only(&mut self, v: Toggle)
        ensures
            final(self).deep_view() == (DownloadOptionsView { sub_only: v, ..old(self).deep_view() }),
            final(self).headers == old(self).headers,
    {
        proof {
            reveal(options_view);
        }
        self.sub_only = v;
    }

    /// Sets `concurrent_download`.
    pub fn set_concurrent_download(&mut self, v: Toggle)
        ensures
            final(self).deep_view() == (DownloadOptionsView { concurrent_download: v, ..old(self).deep_view() }),
            final(self).headers == old(self).headers,
    {
        proof {
            reveal(options_view);
        }
        self.concurrent_download = v;
    }

    /// Sets `skip_download`.
    pub fn set_skip_download(&mut self, v: Toggle)
        ensures
            final(self).deep_view() == (DownloadOptionsView { skip_download: v, ..old(self).deep_view() }),
            final(self).headers == old(self).headers,
    {
        proof {
            reveal(options_view);
        }
        self.skip_download = v;
    }

    /// Sets `skip_merge`.
    pub fn set_skip_merge(&mut self, v: Toggle)
        ensures
            final(self).deep_view() == (DownloadOptionsView { skip_merge: v, ..old(self).deep_view() }),
            final(self).headers == old(self).headers,
    {
        proof {
            reveal(options_view);
        }
        self.skip_merge = v;
    }

    /// Sets `binary_merge`.
    pub fn set_binary_merge(&mut self, v: Toggle)
        ensures
            final(self).deep_view() == (DownloadOptionsView { binary_merge: v, ..old(self).deep_view() }),
            final(self).headers == old(self).headers,
    {
        proof {
            reveal(options_view);
        }
        self.binary_merge = v;
    }

    /// Sets `use_ffmpeg_concat_demuxer`.
    pub fn set_use_ffmpeg_concat_demuxer(&mut self, v: Toggle)
        ensures
            final(self).deep_view() == (DownloadOptionsView { use_ffmpeg_concat_demuxer: v, ..old(self).deep_view() }),
            final(self).headers == old(self).headers,
    {
        proof {
            reveal(options_view);
        }
        self.use_ffmpeg_concat_demuxer = v;
    }

    /// Sets `del_after_done`.
    pub fn set_del_after_done(&mut self, v: Toggle)
        ensures
            final(self).deep_view() == (DownloadOptionsView { del_after_done: v, ..old(self).deep_view() }),
            final(self).headers == old(self).headers,
    {
        proof {
            reveal(options_view);
        }
        self.del_after_done = v;
    }

    /// Sets `check_segments_count`.
    pub fn set_check_segments_count(&mut self, v: Toggle)
        ensures
            final(self).deep_view() == (DownloadOptionsView { check_segments_count: v, ..old(self).deep_view() }),
            final(self).headers == old(self).headers,
    {
        proof {
            reveal(options_view);
        }
        self.check_segments_count = v;
    }

    /// Sets `write_meta_json`.
    pub fn set_write_meta_json(&mut self, v: Toggle)
        ensures
            final(self).deep_view() == (DownloadOptionsView { write_meta_json: v, ..old(self).deep_view() }),
            final(self).headers == old(self).headers,
    {
        proof {
            reveal(options_view);
        }
        self.write_meta_json = v;
    }

    /// Sets `no_date_info`.
    pub fn set_no_date_info(&mut self, v: Toggle)
        ensures
            final(self).deep_view() == (DownloadOptionsView { no_date_info: v, ..old(self).deep_view() }),
            final(self).headers == old(self).headers,
    {
        proof {
            reveal(options_view);
        }
        self.no_date_info = v;
    }

    /// Sets `auto_subtitle_fix`.
    pub fn set_auto_subtitle_fix(&mut self, v: Toggle)
        ensures
            final(self).deep_view() == (DownloadOptionsView { auto_subtitle_fix: v, ..old(self).deep_view() }),
            final(self).headers == old(self).headers,
    {
        proof {
            reveal(options_view);
        }
        self.auto_subtitle_fix = v;
    }

    /// Sets `allow_hls_multi_ext_map`.
    pub fn set_allow_hls_multi_ext_map(&mut self, v: Toggle)
        ensures
            final(self).deep_view() == (DownloadOptionsView { allow_hls_multi_ext_map: v, ..old(self).deep_view() }),
            final(self).headers == old(self).headers,
    {
        proof {
            reveal(options_view);
        }
        self.allow_hls_multi_ext_map = v;
    }

    /// Sets `live_perform_as_vod`.
    pub fn set_live_perform_as_vod(&mut self, v: Toggle)
        ensures
            final(self).deep_view() == (DownloadOptionsView { live_perform_as_vod: v, ..old(self).deep_view() }),
            final(self).headers == old(self).headers,
    {
        proof {
            reveal(options_view);
        }
        self.live_perform_as_vod = v;
    }

    /// Sets `live_real_time_merge`.
    pub fn set_live_real_time_merge(&mut self, v: Toggle)
        ensures
            final(self).deep_view() == (DownloadOptionsView { live_real_time_merge: v, ..old(self).deep_view() }),
            final(self).headers == old(self).headers,
    {
        proof {
            reveal(options_view);
        }
        self.live_real_time_merge = v;
    }

    /// Sets `live_keep_segments`.
    pub fn set_live_keep_segments(&mut self, v: Toggle)
        ensures
            final(self).deep_view() == (DownloadOptionsView { live_keep_segments: v, ..old(self).deep_view() }),
            final(self).headers == old(self).headers,
    {
        proof {
            reveal(options_view);
        }
        self.live_keep_segments = v;
    }

    /// Sets `live_pipe_mux`.
    pub fn set_live_pipe_mux(&mut self, v: Toggle)
        ensures
            final(self).deep_view() == (DownloadOptionsView { live_pipe_mux: v, ..old(self).deep_view() }),
            final(self).headers == old(self).headers,
    {
        proof {
            reveal(options_view);
        }
        self.live_pipe_mux = v;
    }

    /// Sets `live_fix_vtt_by_audio`.
    pub fn set_live_fix_vtt_by_audio(&mut self, v: Toggle)
        ensures
            final(self).deep_view() == (DownloadOptionsView { live_fix_vtt_by_audio: v, ..old(self).deep_view() }),
            final(self).headers == old(self).headers,
    {
        proof {
            reveal(options_view);
        }
        self.live_fix_vtt_by_audio = v;
    }

    /// Sets `tmp_dir`.
    pub fn set_tmp_dir(&mut self, v: String)
        ensures
            final(self).deep_view() == (DownloadOptionsView { tmp_dir: Some(v@), ..old(self).deep_view() }),
            final(self).headers == old(self).headers,
    {
        proof {
            reveal(options_view);
        }
        self.tmp_dir = Some(v);
    }

    /// Sets `save_dir`.
    pub fn set_save_dir(&mut self, v: String)
        ensures
            final(self).deep_view() == (DownloadOptionsView { save_dir: Some(v@), ..old(self).deep_view() }),
            final(self).headers == old(self).headers,
    {
        proof {
            reveal(options_view);
        }
        self.save_dir = Some(v);
    }

    /// Sets `save_pattern`.
    pub fn set_save_pattern(&mut self, v: String)
        ensures
            final(self).deep_view() == (DownloadOptionsView { save_pattern: Some(v@), ..old(self).deep_view() }),
            final(self).headers == old(self).headers,
    {
        proof {
            reveal(options_view);
        }
        self.save_pattern = Some(v);
    }

    /// Sets `urlprocessor_args`.
    pub fn set_urlprocessor_args(&mut self, v: String)
        ensures
            final(self).deep_view() == (DownloadOptionsView { urlprocessor_args: Some(v@), ..old(self).deep_view() }),
            final(self).headers == old(self).headers,
    {
        proof {
            reveal(options_view);
        }
        self.urlprocessor_args = Some(v);
    }

    /// Sets `key_text_file`.
    pub fn set_key_text_file(&mut self, v: String)
        ensures
            final(self).deep_view() == (DownloadOptionsView { key_text_file: Some(v@), ..old(self).deep_view() }),
            final(self).headers == old(self).headers,
    {
        proof {
            reveal(options_view);
        }
        self.key_text_file = Some(v);
    }

    /// Sets `decryption_binary_path`.
    pub fn set_decryption_binary_path(&mut self, v: String)
        ensures
            final(self).deep_view() == (DownloadOptionsView { decryption_binary_path: Some(v@), ..old(self).deep_view() }),
            final(self).headers == old(self).headers,
    {
        proof {
            reveal(options_view);
        }
        self.decryption_binary_path = Some(v);
    }

    /// Sets `base_url`.
    pub fn set_base_url(&mut self, v: String)
        ensures
            final(self).deep_view() == (DownloadOptionsView { base_url: Some(v@), ..old(self).deep_view() }),
            final(self).headers == old(self).headers,
    {
        proof {
            reveal(options_view);
        }
        self.base_url = Some(v);
    }

    /// Sets `ffmpeg_binary_path`.
    pub fn set_ffmpeg_binary_path(&mut self, v: String)
        ensures
            final(self).deep_view() == (DownloadOptionsView { ffmpeg_binary_path: Some(v@), ..old(self).deep_view() }),
            final(self).headers == old(self).headers,
    {
        proof {
            reveal(options_view);
        }
        self.ffmpeg_binary_path = Some(v);
    }

    /// Sets `mkvmerge_binary_path`.
    pub fn set_mkvmerge_binary_path(&mut self, v: String)
        ensures
            final(self).deep_view() == (DownloadOptionsView { mkvmerge_binary_path: Some(v@), ..old(self).deep_view() }),
            final(self).headers == old(self).headers,
    {
        proof {
            reveal(options_view);
        }
        self.mkvmerge_binary_path = Some(v);
    }

    /// Sets `save_name`.
    pub fn set_save_name(&mut self, v: String)
        ensures
            final(self).deep_view() == (DownloadOptionsView { save_name: Some(v@), ..old(self).deep_view() }),
            final(self).headers == old(self).headers,
    {
        proof {
            reveal(options_view);
        }
        self.save_name = Some(v);
    }

    /// Sets `ui_language`.
    pub fn set_ui_language(&mut self, v: UiLanguage)
        ensures
            final(self).deep_view() == (DownloadOptionsView { ui_language: Some(v), ..old(self).deep_view() }),
            final(self).headers == old(self).headers,
    {
        proof {
            reveal(options_view);
        }
        self.ui_language = Some(v);
    }

    /// Sets `decryption_engine`.
    pub fn set_decryption_engine(&mut self, v: DecryptionEngine)
        ensures
            final(self).deep_view() == (DownloadOptionsView { decryption_engine: v, ..old(self).deep_view() }),
            final(self).headers == old(self).headers,
    {
        proof {
            reveal(options_view);
        }
        self.decryption_engine = v;
    }

    /// Sets `custom_proxy`.
    pub fn set_custom_proxy(&mut self, v: Option<String>)
        ensures
            final(self).deep_view() == (DownloadOptionsView { custom_proxy: v.deep_view(), ..old(self).deep_view() }),
            final(self).headers == old(self).headers,
    {
        proof {
            reveal(options_view);
        }
        self.custom_proxy = v;
    }

    /// Sets `http_request_timeout`.
    pub fn set_http_request_timeout(&mut self, v: String)
        ensures
            final(self).deep_view() == (DownloadOptionsView { http_request_timeout: v@, ..old(self).deep_view() }),
            final(self).headers == old(self).headers,
    {
        proof {
            reveal(options_view);
        }
        self.http_request_timeout = v;
    }

    /// Sets `log_level`.
    pub fn set_log_level(&mut self, v: LogLevel)
        ensures
            final(self).deep_view() == (DownloadOptionsView { log_level: v, ..old(self).deep_view() }),
            final(self).headers == old(self).headers,
    {
        proof {
            reveal(options_view);
        }
        self.log_level = v;
    }

    /// Sets `custom_range`.
    pub fn set_custom_range(&mut self, v: Option<CustomRange>)
        ensures
            final(self).deep_view() == (DownloadOptionsView { custom_range: v.deep_view(), ..old(self).deep_view() }),
            final(self).headers == old(self).headers,
    {
        proof {
            reveal(options_view);
        }
        self.custom_range = v;
    }

    /// Sets `thread_count`.
    pub fn set_thread_count(&mut self, v: i32)
        ensures
            final(self).deep_view() == (DownloadOptionsView { thread_count: v, ..old(self).deep_view() }),
            final(self).headers == old(self).headers,
    {
        proof {
            reveal(options_view);
        }
        self.thread_count = v;
    }

    /// Sets `download_retry_count`.
    pub fn set_download_retry_count(&mut self, v: i32)
        ensures
            final(self).deep_view() == (DownloadOptionsView { download_retry_count: v, ..old(self).deep_view() }),
            final(self).headers == old(self).headers,
    {
        proof {
            reveal(options_view);
        }
        self.download_retry_count = v;
    }

    /// Sets `max_speed`.
    pub fn set_max_speed(&mut self, v: SpeedLimit)
        ensures
            final(self).deep_view() == (DownloadOptionsView { max_speed: Some(v.deep_view()), ..old(self).deep_view() }),
            final(self).headers == old(self).headers,
    {
        proof {
            reveal(options_view);
        }
        self.max_speed = Some(v);
    }

    /// Sets `sub_format`.
    pub fn set_sub_format(&mut self, v: SubtitleFormat)
        ensures
            final(self).deep_view() == (DownloadOptionsView { sub_format: v, ..old(self).deep_view() }),
            final(self).headers == old(self).headers,
    {
        proof {
            reveal(options_view);
        }
        self.sub_format = v;
    }

    /// Sets `mux_after_done`.
    pub fn set_mux_after_done(&mut self, v: MuxAfterDoneOptions)
        ensures
            final(self).deep_view() == (DownloadOptionsView { mux_after_done: Some(v.deep_view()), ..old(self).deep_view() }),
            final(self).headers == old(self).headers,
    {
        proof {
            reveal(options_view);
        }
        self.mux_after_done = Some(v);
    }

    /// Sets `custom_hls_method`.
    pub fn set_custom_hls_method(&mut self, v: HlsMethod)
        ensures
            final(self).deep_view() == (DownloadOptionsView { custom_hls_method: Some(v), ..old(self).deep_view() }),
            final(self).headers == old(self).headers,
    {
        proof {
            reveal(options_view);
        }
        self.custom_hls_method = Some(v);
    }

    /// Sets `task_start_at`.
    pub fn set_task_start_at(&mut self, v: TaskStartAt)
        ensures
            final(self).deep_view() == (DownloadOptionsView { task_start_at: Some(v.deep_view()), ..old(self).deep_view() }),
            final(self).headers == old(self).headers,
    {
        proof {
            reveal(options_view);
        }
        self.task_start_at = Some(v);
    }

    /// Sets `live_record_limit`.
    pub fn set_live_record_limit(&mut self, v: u64)
        ensures
            final(self).deep_view() == (DownloadOptionsView { live_record_limit: Some(v), ..old(self).deep_view() }),
            final(self).headers == old(self).headers,
    {
        proof {
            reveal(options_view);
        }
        self.live_record_limit = Some(v);
    }

    /// Sets `live_wait_time`.
    pub fn set_live_wait_time(&mut self, v: i32)
        ensures
            final(self).deep_view() == (DownloadOptionsView { live_wait_time: Some(v), ..old(self).deep_view() }),
            final(self).headers == old(self).headers,
    {
        proof {
            reveal(options_view);
        }
        self.live_wait_time = Some(v);
    }

    /// Sets `live_take_count`.
    pub fn set_live_take_count(&mut self, v: i32)
        ensures
            final(self).deep_view() == (DownloadOptionsView { live_take_count: v, ..old(self).deep_view() }),
            final(self).headers == old(self).headers,
    {
        proof {
            reveal(options_view);
        }
        self.live_take_count = v;
    }

    /// Sets `log_file_path`.
    pub fn set_log_file_path(&mut self, v: String)
        ensures
            final(self).deep_view() == (DownloadOptionsView { log_file_path: Some(v@), ..old(self).deep_view() }),
            final(self).headers == old(self).headers,
    {
        proof {
            reveal(options_view);
        }
        self.log_file_path = Some(v);
    }

    /// Sets `custom_hls_key`.
    pub fn set_custom_hls_key(&mut self, v: Option<Vec<u8>>)
        ensures
            final(self).deep_view() == (DownloadOptionsView { custom_hls_key: opt_bytes(v), ..old(self).deep_view() }),
            final(self).headers == old(self).headers,
    {
        proof {
            reveal(options_view);
        }
        self.custom_hls_key = v;
    }

    /// Sets `custom_hls_iv`.
    pub fn set_custom_hls_iv(&mut self, v: Option<Vec<u8>>)
        ensures
            final(self).deep_view() == (DownloadOptionsView { custom_hls_iv: opt_bytes(v), ..old(self).deep_view() }),
            final(self).headers == old(self).headers,
    {
        proof {
            reveal(options_view);
        }
        self.custom_hls_iv = v;
    }

    /// Adds to `select_video`.
    pub fn push_select_video(&mut self, v: StreamFilter)
        ensures
            final(self).deep_view() == (DownloadOptionsView {
                select_video: old(self).deep_view().select_video.push(v.deep_view()),
                ..old(self).deep_view()
            }),
            final(self).headers == old(self).headers,
    {
        proof {
            reveal(options_view);
        }
        let ghost before = self.select_video.deep_view();
        self.select_video.push(v);
        assert(self.select_video.deep_view() =~= before.push(v.deep_view()));
    }

    /// Adds to `select_audio`.
    pub fn push_select_audio(&mut self, v: StreamFilter)
        ensures
            final(self).deep_view() == (DownloadOptionsView {
                select_audio: old(self).deep_view().select_audio.push(v.deep_view()),
                ..old(self).deep_view()
            }),
            final(self).headers == old(self).headers,
    {
        proof {
            reveal(options_view);
        }
        let ghost before = self.select_audio.deep_view();
        self.select_audio.push(v);
        assert(self.select_audio.deep_view() =~= before.push(v.deep_view()));
    }

    /// Adds to `select_subtitle`.
    pub fn push_select_subtitle(&mut self, v: StreamFilter)
        ensures
            final(self).deep_view() == (DownloadOptionsView {
                select_subtitle: old(self).deep_view().select_subtitle.push(v.deep_view()),
                ..old(self).deep_view()
            }),
            final(self).headers == old(self).headers,
    {
        proof {
            reveal(options_view);
        }
        let ghost before = self.select_subtitle.deep_view();
        self.select_subtitle.push(v);
        assert(self.select_subtitle.deep_view() =~= before.push(v.deep_view()));
    }

    /// Adds to `drop_video`.
    pub fn push_drop_video(&mut self, v: StreamFilter)
        ensures
            final(self).deep_view() == (DownloadOptionsView {
                drop_video: old(self).deep_view().drop_video.push(v.deep_view()),
                ..old(self).deep_view()
            }),
            final(self).headers == old(self).headers,
    {
        proof {
            reveal(options_view);
        }
        let ghost before = self.drop_video.deep_view();
        self.drop_video.push(v);
        assert(self.drop_video.deep_view() =~= before.push(v.deep_view()));
    }

    /// Adds to `drop_audio`.
    pub fn push_drop_audio(&mut self, v: StreamFilter)
        ensures
            final(self).deep_view() == (DownloadOptionsView {
                drop_audio: old(self).deep_view().drop_audio.push(v.deep_view()),
                ..old(self).deep_view()
            }),
            final(self).headers == old(self).headers,
    {
        proof {
            reveal(options_view);
        }
        let ghost before = self.drop_audio.deep_view();
        self.drop_audio.push(v);
        assert(self.drop_audio.deep_view() =~= before.push(v.deep_view()));
    }

    /// Adds to `drop_subtitle`.
    pub fn push_drop_subtitle(&mut self, v: StreamFilter)
        ensures
            final(self).deep_view() == (DownloadOptionsView {
                drop_subtitle: old(self).deep_view().drop_subtitle.push(v.deep_view()),
                ..old(self).deep_view()
            }),
            final(self).headers == old(self).headers,
    {
        proof {
            reveal(options_view);
        }
        let ghost before = self.drop_subtitle.deep_view();
        self.drop_subtitle.push(v);
        assert(self.drop_subtitle.deep_view() =~= before.push(v.deep_view()));
    }

    /// Adds to `keys`.
    pub fn push_keys(&mut self, v: CustomKey)
        ensures
            final(self).deep_view() == (DownloadOptionsView {
                keys: old(self).deep_view().keys.push(v.deep_view()),
                ..old(self).deep_view()
            }),
            final(self).headers == old(self).headers,
    {
        proof {
            reveal(options_view);
        }
        let ghost before = self.keys.deep_view();
        self.keys.push(v);
        assert(self.keys.deep_view() =~= before.push(v.deep_view()));
    }

    /// Adds to `mux_imports`.
    pub fn push_mux_imports(&mut self, v: MuxImport)
        ensures
            final(self).deep_view() == (DownloadOptionsView {
                mux_imports: old(self).deep_view().mux_imports.push(v.deep_view()),
                ..old(self).deep_view()
            }),
            final(self).headers == old(self).headers,
    {
        proof {
            reveal(options_view);
        }
        let ghost before = self.mux_imports.deep_view();
        self.mux_imports.push(v);
        assert(self.mux_imports.deep_view() =~= before.push(v.deep_view()));
    }

    /// Adds to `ad_keywords`.
    pub fn push_ad_keywords(&mut self, v: String)
        ensures
            final(self).deep_view() == (DownloadOptionsView {
                ad_keywords: old(self).deep_view().ad_keywords.push(v@),
                ..old(self).deep_view()
            }),
            final(self).headers == old(self).headers,
    {
        proof {
            reveal(options_view);
        }
        let ghost before = self.ad_keywords.deep_view();
        self.ad_keywords.push(v);
        assert(self.ad_keywords.deep_view() =~= before.push(v@));
    }

    /// Writes a header.
    pub fn put_header(&mut self, name: String, value: String)
        ensures
            final(self).deep_view() == (DownloadOptionsView {
                headers: crate::text_map::put(old(self).deep_view().headers, name@, value@),
                ..old(self).deep_view()
            }),
            old(self).wf() ==> final(self).wf(),
    {
        proof {
            reveal(options_view);
        }
        self.headers.insert(name, value);
    }

    /// Sets or clears `ui_language`.
    pub fn put_ui_language(&mut self, v: Option<UiLanguage>)
        ensures
            final(self).deep_view() == (DownloadOptionsView {
                ui_language: v,
                ..old(self).deep_view()
            }),
            final(self).headers == old(self).headers,
    {
        proof {
            reveal(options_view);
        }
        self.ui_language = v;
    }
}

} // verus!
