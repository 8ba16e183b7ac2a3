//! The command line.

use crate::api::{DownloadRequest, DownloadRequestView, SelectorView};
use crate::cli_values::{
    bool_of, complex_of, custom_key_of, engine_of, file_name_of, filter_of, header_of,
    hls_method_of, i32_of, is_bool, is_bool_text, language_of, level_of, literal_bytes_of, mux_of,
    parse_bool, parse_custom_key, parse_custom_proxy, parse_custom_range, parse_decryption_engine,
    parse_duration, parse_header, parse_hls_method, parse_i32, parse_literal_bytes, parse_log_level,
    parse_mux_after_done, parse_seconds_duration, parse_speed_limit, parse_stream_filter,
    parse_subtitle_format, parse_task_start_at, parse_ui_language, plain, proxy_of, range_of,
    record_limit_of, sanitize_file_name, speed_of, start_of, subtitle_of, timeout_of, ComplexParams,
};
use crate::cli_schema::{help_page, help_text};
use crate::config::{
    default_options, options_view, threads_for, toggle, CustomKey, DecryptionEngine,
    DownloadOptions, DownloadOptionsView, StreamFilter, StreamFilterView, Toggle, UiLanguage,
};
use crate::error::{Error, ErrorView, Result};
use crate::manifest::{copy_bytes, StreamSelector};
use crate::mux::{MuxImport, MuxImportView};
use crate::path::{file_name, join_path, parent, path_file_name, path_join, path_parent};
use crate::text::{begins_with, cat2, cat3, cut_once, owned, same, split_once, starts_with};
use crate::text_map::{lookup, put, TextMap};
use vstd::prelude::*;

verus! {

/// What a file turned out to hold.
#[derive(Debug)]
pub enum FileContent {
    Bytes(Vec<u8>),
    Failed(String),
}

/// Model of `FileContent`.
pub enum FileContentView {
    Bytes(Seq<u8>),
    Failed(Seq<char>),
}

impl DeepView for FileContent {
    type V = FileContentView;

    open spec fn deep_view(&self) -> FileContentView {
        match self {
            FileContent::Bytes(b) => FileContentView::Bytes(b@),
            FileContent::Failed(e) => FileContentView::Failed(e@),
        }
    }
}

/// What the parser knows of the file system.
#[derive(Debug)]
pub struct CliFacts {
    /// Whether a path leads to a regular file.
    pub files: TextMap<bool>,
    /// What a file holds.
    pub contents: TextMap<FileContent>,
    /// The absolute form of a path; none where there is none.
    pub absolutes: TextMap<Option<String>>,
}

/// Model of `CliFacts`.
pub struct CliFactsView {
    pub files: Seq<(Seq<char>, bool)>,
    pub contents: Seq<(Seq<char>, FileContentView)>,
    pub absolutes: Seq<(Seq<char>, Option<Seq<char>>)>,
}

impl DeepView for CliFacts {
    type V = CliFactsView;

    open spec fn deep_view(&self) -> CliFactsView {
        CliFactsView {
            files: self.files.deep_view(),
            contents: self.contents.deep_view(),
            absolutes: self.absolutes.deep_view(),
        }
    }
}

/// What the parser has to learn of the file system before it can go on.
#[derive(Clone, Debug, PartialEq, Eq)]
pub enum CliQuestion {
    /// Whether a path leads to a regular file.
    IsFile { path: String },
    /// What a file holds.
    Contents { path: String },
    /// The absolute form of a path.
    Absolute { path: String },
}

/// Model of `CliQuestion`.
pub enum CliQuestionView {
    IsFile(Seq<char>),
    Contents(Seq<char>),
    Absolute(Seq<char>),
}

impl DeepView for CliQuestion {
    type V = CliQuestionView;

    open spec fn deep_view(&self) -> CliQuestionView {
        match self {
            CliQuestion::IsFile { path } => CliQuestionView::IsFile(path@),
            CliQuestion::Contents { path } => CliQuestionView::Contents(path@),
            CliQuestion::Absolute { path } => CliQuestionView::Absolute(path@),
        }
    }
}

/// Why parsing did not end in a result.
#[derive(Debug)]
pub enum CliStop {
    Fail(Error),
    Ask(CliQuestion),
}

/// Model of `CliStop`.
pub enum CliStopView {
    Fail(ErrorView),
    Ask(CliQuestionView),
}

impl DeepView for CliStop {
    type V = CliStopView;

    open spec fn deep_view(&self) -> CliStopView {
        match self {
            CliStop::Fail(e) => CliStopView::Fail(e.deep_view()),
            CliStop::Ask(q) => CliStopView::Ask(q.deep_view()),
        }
    }
}

/// A result that may also ask.
pub type CliResult<T> = core::result::Result<T, CliStop>;

/// Model of a result that may also ask.
pub type CliResultView<T> = core::result::Result<T, CliStopView>;

/// A plain result as one that may also ask.
pub open spec fn lifted<T>(r: core::result::Result<T, ErrorView>) -> CliResultView<T> {
    match r {
        Ok(v) => Ok(v),
        Err(e) => Err(CliStopView::Fail(e)),
    }
}

/// Model of a result that may also ask.
pub open spec fn view_cli<T: DeepView>(r: CliResult<T>) -> CliResultView<T::V> {
    match r {
        Ok(v) => Ok(v.deep_view()),
        Err(s) => Err(s.deep_view()),
    }
}

fn lift<T>(r: Result<T>) -> (s: CliResult<T>)
    ensures
        match r {
            Ok(v) => s == CliResult::Ok(v),
            Err(e) => s is Err && s->Err_0.deep_view() == CliStopView::Fail(e.deep_view()),
        },
{
    match r {
        Ok(v) => Ok(v),
        Err(e) => Err(CliStop::Fail(e)),
    }
}

fn refuse<T>(message: &str) -> (r: CliResult<T>)
    ensures
        r is Err,
        r->Err_0.deep_view() == CliStopView::Fail(ErrorView::Config(message@)),
{
    Err(CliStop::Fail(Error::config(message)))
}

/// What the parser has read so far.
pub struct CliState {
    pub index: int,
    pub input: Option<Seq<char>>,
    pub options: DownloadOptionsView,
}

/// Name and inline value of a token.
pub open spec fn inline_of(token: Seq<char>) -> (Seq<char>, Option<Seq<char>>) {
    if starts_with(token, "--"@) {
        match split_once(token, "="@) {
            Some((name, value)) => (name, Some(value)),
            None => (token, None),
        }
    } else {
        (token, None)
    }
}

fn split_inline_option(token: &str) -> (r: (String, Option<String>))
    ensures
        (r.0@, r.1.deep_view()) == inline_of(token@),
{
    if begins_with(token, "--") {
        match cut_once(token, "=") {
            Some((name, value)) => (owned(name), Some(owned(value))),
            None => (owned(token), None),
        }
    } else {
        (owned(token), None)
    }
}

/// A token that ends a list of values.
pub open spec fn is_boundary(v: Seq<char>) -> bool {
    starts_with(v, "-"@) && v != "-"@
}

fn is_option_boundary(v: &str) -> (r: bool)
    ensures
        r == is_boundary(v@),
{
    begins_with(v, "-") && !same(v, "-")
}

/// The value of an option and the next index.
pub open spec fn value_at(
    tokens: Seq<Seq<char>>,
    index: int,
    name: Seq<char>,
    inline: Option<Seq<char>>,
) -> CliResultView<(Seq<char>, int)> {
    match inline {
        Some(v) => Ok((v, index)),
        None => if index < tokens.len() {
            Ok((tokens[index], index + 1))
        } else {
            Err(CliStopView::Fail(ErrorView::Config(name + " requires a value"@)))
        },
    }
}

/// The index of the first token at or after `index` that ends a list of values.
pub open spec fn list_end(tokens: Seq<Seq<char>>, index: int) -> int
    decreases tokens.len() - index,
{
    if index < tokens.len() && !is_boundary(tokens[index]) {
        list_end(tokens, index + 1)
    } else {
        index
    }
}

/// One value, then all tokens up to the next option.
pub open spec fn values_at(
    tokens: Seq<Seq<char>>,
    index: int,
    name: Seq<char>,
    inline: Option<Seq<char>>,
) -> CliResultView<(Seq<Seq<char>>, int)> {
    match value_at(tokens, index, name, inline) {
        Err(s) => Err(s),
        Ok((v, next)) => Ok(
            (seq![v] + tokens.subrange(next, list_end(tokens, next)), list_end(tokens, next)),
        ),
    }
}

/// The value of a switch; a switch without one is on.
pub open spec fn switch_at(tokens: Seq<Seq<char>>, index: int, inline: Option<Seq<char>>) -> CliResultView<
    (bool, int),
> {
    match inline {
        Some(v) => match bool_of(v) {
            Ok(b) => Ok((b, index)),
            Err(e) => Err(CliStopView::Fail(e)),
        },
        None => if index < tokens.len() && is_bool(tokens[index]) {
            match bool_of(tokens[index]) {
                Ok(b) => Ok((b, index + 1)),
                Err(e) => Err(CliStopView::Fail(e)),
            }
        } else {
            Ok((true, index))
        },
    }
}

/// The options with a switch set; none where no switch has that name.
pub open spec fn with_switch(o: DownloadOptionsView, name: Seq<char>, on: Toggle) -> Option<
    DownloadOptionsView,
> {
    if name == "--mp4-real-time-decryption"@ {
        Some(DownloadOptionsView { mp4_real_time_decryption: on, ..o })
    } else if name == "--use-shaka-packager"@ {
        Some(DownloadOptionsView { use_shaka_packager: on, ..o })
    } else if name == "--append-url-params"@ {
        Some(DownloadOptionsView { append_url_params: on, ..o })
    } else if name == "--use-system-proxy"@ {
        Some(DownloadOptionsView { use_system_proxy: on, ..o })
    } else if name == "--no-log"@ {
        Some(DownloadOptionsView { no_log: on, ..o })
    } else if name == "--force-ansi-console"@ {
        Some(DownloadOptionsView { force_ansi_console: on, ..o })
    } else if name == "--no-ansi-color"@ {
        Some(DownloadOptionsView { no_ansi_color: on, ..o })
    } else if name == "--disable-update-check"@ {
        Some(DownloadOptionsView { disable_update_check: on, ..o })
    } else if name == "--auto-select"@ {
        Some(DownloadOptionsView { auto_select: on, ..o })
    } else if name == "--sub-only"@ {
        Some(DownloadOptionsView { sub_only: on, ..o })
    } else if name == "-mt"@ || name == "--concurrent-download"@ {
        Some(DownloadOptionsView { concurrent_download: on, ..o })
    } else if name == "--skip-download"@ {
        Some(DownloadOptionsView { skip_download: on, ..o })
    } else if name == "--skip-merge"@ {
        Some(DownloadOptionsView { skip_merge: on, ..o })
    } else if name == "--binary-merge"@ {
        Some(DownloadOptionsView { binary_merge: on, ..o })
    } else if name == "--use-ffmpeg-concat-demuxer"@ {
        Some(DownloadOptionsView { use_ffmpeg_concat_demuxer: on, ..o })
    } else if name == "--del-after-done"@ {
        Some(DownloadOptionsView { del_after_done: on, ..o })
    } else if name == "--check-segments-count"@ {
        Some(DownloadOptionsView { check_segments_count: on, ..o })
    } else if name == "--write-meta-json"@ {
        Some(DownloadOptionsView { write_meta_json: on, ..o })
    } else if name == "--no-date-info"@ {
        Some(DownloadOptionsView { no_date_info: on, ..o })
    } else if name == "--auto-subtitle-fix"@ {
        Some(DownloadOptionsView { auto_subtitle_fix: on, ..o })
    } else if name == "--allow-hls-multi-ext-map"@ {
        Some(DownloadOptionsView { allow_hls_multi_ext_map: on, ..o })
    } else if name == "--live-perform-as-vod"@ {
        Some(DownloadOptionsView { live_perform_as_vod: on, ..o })
    } else if name == "--live-real-time-merge"@ {
        Some(DownloadOptionsView { live_real_time_merge: on, ..o })
    } else if name == "--live-keep-segments"@ {
        Some(DownloadOptionsView { live_keep_segments: on, ..o })
    } else if name == "--live-pipe-mux"@ {
        Some(DownloadOptionsView { live_pipe_mux: on, ..o })
    } else if name == "--live-fix-vtt-by-audio"@ {
        Some(DownloadOptionsView { live_fix_vtt_by_audio: on, ..o })
    } else {
        None
    }
}

/// Whether a switch has that name.
pub open spec fn is_switch(name: Seq<char>) -> bool {
    name == "--mp4-real-time-decryption"@
    || name == "--use-shaka-packager"@
    || name == "--append-url-params"@
    || name == "--use-system-proxy"@
    || name == "--no-log"@
    || name == "--force-ansi-console"@
    || name == "--no-ansi-color"@
    || name == "--disable-update-check"@
    || name == "--auto-select"@
    || name == "--sub-only"@
    || name == "-mt"@ || name == "--concurrent-download"@
    || name == "--skip-download"@
    || name == "--skip-merge"@
    || name == "--binary-merge"@
    || name == "--use-ffmpeg-concat-demuxer"@
    || name == "--del-after-done"@
    || name == "--check-segments-count"@
    || name == "--write-meta-json"@
    || name == "--no-date-info"@
    || name == "--auto-subtitle-fix"@
    || name == "--allow-hls-multi-ext-map"@
    || name == "--live-perform-as-vod"@
    || name == "--live-real-time-merge"@
    || name == "--live-keep-segments"@
    || name == "--live-pipe-mux"@
    || name == "--live-fix-vtt-by-audio"@
}

fn has_switch(name: &str) -> (r: bool)
    ensures
        r == is_switch(name@),
{
    same(name, "--mp4-real-time-decryption")
    || same(name, "--use-shaka-packager")
    || same(name, "--append-url-params")
    || same(name, "--use-system-proxy")
    || same(name, "--no-log")
    || same(name, "--force-ansi-console")
    || same(name, "--no-ansi-color")
    || same(name, "--disable-update-check")
    || same(name, "--auto-select")
    || same(name, "--sub-only")
    || same(name, "-mt") || same(name, "--concurrent-download")
    || same(name, "--skip-download")
    || same(name, "--skip-merge")
    || same(name, "--binary-merge")
    || same(name, "--use-ffmpeg-concat-demuxer")
    || same(name, "--del-after-done")
    || same(name, "--check-segments-count")
    || same(name, "--write-meta-json")
    || same(name, "--no-date-info")
    || same(name, "--auto-subtitle-fix")
    || same(name, "--allow-hls-multi-ext-map")
    || same(name, "--live-perform-as-vod")
    || same(name, "--live-real-time-merge")
    || same(name, "--live-keep-segments")
    || same(name, "--live-pipe-mux")
    || same(name, "--live-fix-vtt-by-audio")
}

fn set_switch(o: &mut DownloadOptions, name: &str, on: Toggle)
    requires
        is_switch(name@),
    ensures
        with_switch(old(o).deep_view(), name@, on) == Some(final(o).deep_view()),
        final(o).headers == old(o).headers,
{
    if same(name, "--mp4-real-time-decryption") {
        o.set_mp4_real_time_decryption(on);
        return;
    }
    if same(name, "--use-shaka-packager") {
        o.set_use_shaka_packager(on);
        return;
    }
    if same(name, "--append-url-params") {
        o.set_append_url_params(on);
        return;
    }
    if same(name, "--use-system-proxy") {
        o.set_use_system_proxy(on);
        return;
    }
    if same(name, "--no-log") {
        o.set_no_log(on);
        return;
    }
    if same(name, "--force-ansi-console") {
        o.set_force_ansi_console(on);
        return;
    }
    if same(name, "--no-ansi-color") {
        o.set_no_ansi_color(on);
        return;
    }
    if same(name, "--disable-update-check") {
        o.set_disable_update_check(on);
        return;
    }
    if same(name, "--auto-select") {
        o.set_auto_select(on);
        return;
    }
    if same(name, "--sub-only") {
        o.set_sub_only(on);
        return;
    }
    if same(name, "-mt") || same(name, "--concurrent-download") {
        o.set_concurrent_download(on);
        return;
    }
    if same(name, "--skip-download") {
        o.set_skip_download(on);
        return;
    }
    if same(name, "--skip-merge") {
        o.set_skip_merge(on);
        return;
    }
    if same(name, "--binary-merge") {
        o.set_binary_merge(on);
        return;
    }
    if same(name, "--use-ffmpeg-concat-demuxer") {
        o.set_use_ffmpeg_concat_demuxer(on);
        return;
    }
    if same(name, "--del-after-done") {
        o.set_del_after_done(on);
        return;
    }
    if same(name, "--check-segments-count") {
        o.set_check_segments_count(on);
        return;
    }
    if same(name, "--write-meta-json") {
        o.set_write_meta_json(on);
        return;
    }
    if same(name, "--no-date-info") {
        o.set_no_date_info(on);
        return;
    }
    if same(name, "--auto-subtitle-fix") {
        o.set_auto_subtitle_fix(on);
        return;
    }
    if same(name, "--allow-hls-multi-ext-map") {
        o.set_allow_hls_multi_ext_map(on);
        return;
    }
    if same(name, "--live-perform-as-vod") {
        o.set_live_perform_as_vod(on);
        return;
    }
    if same(name, "--live-real-time-merge") {
        o.set_live_real_time_merge(on);
        return;
    }
    if same(name, "--live-keep-segments") {
        o.set_live_keep_segments(on);
        return;
    }
    if same(name, "--live-pipe-mux") {
        o.set_live_pipe_mux(on);
        return;
    }
    if same(name, "--live-fix-vtt-by-audio") {
        o.set_live_fix_vtt_by_audio(on);
        return;
    }
}

/// The options with a text set; none where no text has that name.
pub open spec fn with_text(o: DownloadOptionsView, name: Seq<char>, v: Seq<char>) -> Option<
    DownloadOptionsView,
> {
    if name == "--tmp-dir"@ {
        Some(DownloadOptionsView { tmp_dir: Some(v), ..o })
    } else if name == "--save-dir"@ {
        Some(DownloadOptionsView { save_dir: Some(v), ..o })
    } else if name == "--save-pattern"@ {
        Some(DownloadOptionsView { save_pattern: Some(v), ..o })
    } else if name == "--urlprocessor-args"@ {
        Some(DownloadOptionsView { urlprocessor_args: Some(v), ..o })
    } else if name == "--key-text-file"@ {
        Some(DownloadOptionsView { key_text_file: Some(v), ..o })
    } else if name == "--decryption-binary-path"@ {
        Some(DownloadOptionsView { decryption_binary_path: Some(v), ..o })
    } else if name == "--base-url"@ {
        Some(DownloadOptionsView { base_url: Some(v), ..o })
    } else if name == "--ffmpeg-binary-path"@ {
        Some(DownloadOptionsView { ffmpeg_binary_path: Some(v), ..o })
    } else if name == "--mkvmerge-binary-path"@ {
        Some(DownloadOptionsView { mkvmerge_binary_path: Some(v), ..o })
    } else {
        None
    }
}

/// Whether a text has that name.
pub open spec fn is_text(name: Seq<char>) -> bool {
    name == "--tmp-dir"@
    || name == "--save-dir"@
    || name == "--save-pattern"@
    || name == "--urlprocessor-args"@
    || name == "--key-text-file"@
    || name == "--decryption-binary-path"@
    || name == "--base-url"@
    || name == "--ffmpeg-binary-path"@
    || name == "--mkvmerge-binary-path"@
}

fn has_text_option(name: &str) -> (r: bool)
    ensures
        r == is_text(name@),
{
    same(name, "--tmp-dir")
    || same(name, "--save-dir")
    || same(name, "--save-pattern")
    || same(name, "--urlprocessor-args")
    || same(name, "--key-text-file")
    || same(name, "--decryption-binary-path")
    || same(name, "--base-url")
    || same(name, "--ffmpeg-binary-path")
    || same(name, "--mkvmerge-binary-path")
}

fn set_text(o: &mut DownloadOptions, name: &str, v: String)
    requires
        is_text(name@),
    ensures
        with_text(old(o).deep_view(), name@, v@) == Some(final(o).deep_view()),
        final(o).headers == old(o).headers,
{
    if same(name, "--tmp-dir") {
        o.set_tmp_dir(v);
    } else if same(name, "--save-dir") {
        o.set_save_dir(v);
    } else if same(name, "--save-pattern") {
        o.set_save_pattern(v);
    } else if same(name, "--urlprocessor-args") {
        o.set_urlprocessor_args(v);
    } else if same(name, "--key-text-file") {
        o.set_key_text_file(v);
    } else if same(name, "--decryption-binary-path") {
        o.set_decryption_binary_path(v);
    } else if same(name, "--base-url") {
        o.set_base_url(v);
    } else if same(name, "--ffmpeg-binary-path") {
        o.set_ffmpeg_binary_path(v);
    } else {
        o.set_mkvmerge_binary_path(v);
    }
}

/// Whether an option of that name takes a value that is read on the spot.
pub open spec fn is_scalar(name: Seq<char>) -> bool {
    name == "--save-name"@
    || name == "--ui-language"@
    || name == "--decryption-engine"@
    || name == "--custom-proxy"@
    || name == "--http-request-timeout"@
    || name == "--log-level"@
    || name == "--custom-range"@
    || name == "--thread-count"@
    || name == "--download-retry-count"@
    || name == "-R"@ || name == "--max-speed"@
    || name == "--sub-format"@
    || name == "-M"@ || name == "--mux-after-done"@
    || name == "--custom-hls-method"@
    || name == "--task-start-at"@
    || name == "--live-record-limit"@
    || name == "--live-wait-time"@
    || name == "--live-take-count"@
}

fn has_scalar(name: &str) -> (r: bool)
    ensures
        r == is_scalar(name@),
{
    same(name, "--save-name")
    || same(name, "--ui-language")
    || same(name, "--decryption-engine")
    || same(name, "--custom-proxy")
    || same(name, "--http-request-timeout")
    || same(name, "--log-level")
    || same(name, "--custom-range")
    || same(name, "--thread-count")
    || same(name, "--download-retry-count")
    || same(name, "-R") || same(name, "--max-speed")
    || same(name, "--sub-format")
    || same(name, "-M") || same(name, "--mux-after-done")
    || same(name, "--custom-hls-method")
    || same(name, "--task-start-at")
    || same(name, "--live-record-limit")
    || same(name, "--live-wait-time")
    || same(name, "--live-take-count")
}

/// The options with a value read and set.
pub open spec fn with_scalar(o: DownloadOptionsView, name: Seq<char>, v: Seq<char>) -> core::result::Result<
    DownloadOptionsView,
    ErrorView,
> {
    if name == "--save-name"@ {
        match file_name_of(v, "--save-name"@) {
            Ok(x) => Ok(DownloadOptionsView { save_name: Some(x), ..o }),
            Err(e) => Err(e),
        }
    } else if name == "--ui-language"@ {
        match language_of(v) {
            Ok(x) => Ok(DownloadOptionsView { ui_language: Some(x), ..o }),
            Err(e) => Err(e),
        }
    } else if name == "--decryption-engine"@ {
        match engine_of(v) {
            Ok(x) => Ok(DownloadOptionsView { decryption_engine: x, ..o }),
            Err(e) => Err(e),
        }
    } else if name == "--custom-proxy"@ {
        match proxy_of(v) {
            Ok(x) => Ok(DownloadOptionsView { custom_proxy: x, ..o }),
            Err(e) => Err(e),
        }
    } else if name == "--http-request-timeout"@ {
        match timeout_of(v, "--http-request-timeout"@) {
            Ok(x) => Ok(DownloadOptionsView { http_request_timeout: x, ..o }),
            Err(e) => Err(e),
        }
    } else if name == "--log-level"@ {
        match level_of(v) {
            Ok(x) => Ok(DownloadOptionsView { log_level: x, ..o }),
            Err(e) => Err(e),
        }
    } else if name == "--custom-range"@ {
        match range_of(v) {
            Ok(x) => Ok(DownloadOptionsView { custom_range: x, ..o }),
            Err(e) => Err(e),
        }
    } else if name == "--thread-count"@ {
        match i32_of(v, "--thread-count"@) {
            Ok(x) => Ok(DownloadOptionsView { thread_count: x, ..o }),
            Err(e) => Err(e),
        }
    } else if name == "--download-retry-count"@ {
        match i32_of(v, "--download-retry-count"@) {
            Ok(x) => Ok(DownloadOptionsView { download_retry_count: x, ..o }),
            Err(e) => Err(e),
        }
    } else if name == "-R"@ || name == "--max-speed"@ {
        match speed_of(v) {
            Ok(x) => Ok(DownloadOptionsView { max_speed: Some(x), ..o }),
            Err(e) => Err(e),
        }
    } else if name == "--sub-format"@ {
        match subtitle_of(v) {
            Ok(x) => Ok(DownloadOptionsView { sub_format: x, ..o }),
            Err(e) => Err(e),
        }
    } else if name == "-M"@ || name == "--mux-after-done"@ {
        match mux_of(v) {
            Ok(x) => Ok(DownloadOptionsView { mux_after_done: Some(x), ..o }),
            Err(e) => Err(e),
        }
    } else if name == "--custom-hls-method"@ {
        match hls_method_of(v) {
            Ok(x) => Ok(DownloadOptionsView { custom_hls_method: Some(x), ..o }),
            Err(e) => Err(e),
        }
    } else if name == "--task-start-at"@ {
        match start_of(v) {
            Ok(x) => Ok(DownloadOptionsView { task_start_at: Some(x), ..o }),
            Err(e) => Err(e),
        }
    } else if name == "--live-record-limit"@ {
        match record_limit_of(v, "--live-record-limit"@) {
            Ok(x) => Ok(DownloadOptionsView { live_record_limit: Some(x), ..o }),
            Err(e) => Err(e),
        }
    } else if name == "--live-wait-time"@ {
        match i32_of(v, "--live-wait-time"@) {
            Ok(x) => Ok(DownloadOptionsView { live_wait_time: Some(x), ..o }),
            Err(e) => Err(e),
        }
    } else if name == "--live-take-count"@ {
        match i32_of(v, "--live-take-count"@) {
            Ok(x) => Ok(DownloadOptionsView { live_take_count: x, ..o }),
            Err(e) => Err(e),
        }
    } else {
        Ok(o)
    }
}

#[verifier::rlimit(60)]
fn set_scalar(o: &mut DownloadOptions, name: &str, v: &str) -> (r: Result<()>)
    requires
        is_scalar(name@),
    ensures
        match r {
            Ok(_) => with_scalar(old(o).deep_view(), name@, v@) == Ok::<
                DownloadOptionsView,
                ErrorView,
            >(final(o).deep_view()),
            Err(e) => with_scalar(old(o).deep_view(), name@, v@) == Err::<
                DownloadOptionsView,
                ErrorView,
            >(e.deep_view()),
        },
        final(o).headers == old(o).headers,
{
    if same(name, "--save-name") {
        match sanitize_file_name(v, "--save-name") {
            Ok(x) => {
                o.set_save_name(x);
                Ok(())
            },
            Err(e) => Err(e),
        }
    } else if same(name, "--ui-language") {
        match parse_ui_language(v) {
            Ok(x) => {
                o.set_ui_language(x);
                Ok(())
            },
            Err(e) => Err(e),
        }
    } else if same(name, "--decryption-engine") {
        match parse_decryption_engine(v) {
            Ok(x) => {
                o.set_decryption_engine(x);
                Ok(())
            },
            Err(e) => Err(e),
        }
    } else if same(name, "--custom-proxy") {
        match parse_custom_proxy(v) {
            Ok(x) => {
                o.set_custom_proxy(x);
                Ok(())
            },
            Err(e) => Err(e),
        }
    } else if same(name, "--http-request-timeout") {
        match parse_seconds_duration(v, "--http-request-timeout") {
            Ok(x) => {
                o.set_http_request_timeout(x);
                Ok(())
            },
            Err(e) => Err(e),
        }
    } else if same(name, "--log-level") {
        match parse_log_level(v) {
            Ok(x) => {
                o.set_log_level(x);
                Ok(())
            },
            Err(e) => Err(e),
        }
    } else if same(name, "--custom-range") {
        match parse_custom_range(v) {
            Ok(x) => {
                o.set_custom_range(x);
                Ok(())
            },
            Err(e) => Err(e),
        }
    } else if same(name, "--thread-count") {
        match parse_i32(v, "--thread-count") {
            Ok(x) => {
                o.set_thread_count(x);
                Ok(())
            },
            Err(e) => Err(e),
        }
    } else if same(name, "--download-retry-count") {
        match parse_i32(v, "--download-retry-count") {
            Ok(x) => {
                o.set_download_retry_count(x);
                Ok(())
            },
            Err(e) => Err(e),
        }
    } else if same(name, "-R") || same(name, "--max-speed") {
        match parse_speed_limit(v) {
            Ok(x) => {
                o.set_max_speed(x);
                Ok(())
            },
            Err(e) => Err(e),
        }
    } else if same(name, "--sub-format") {
        match parse_subtitle_format(v) {
            Ok(x) => {
                o.set_sub_format(x);
                Ok(())
            },
            Err(e) => Err(e),
        }
    } else if same(name, "-M") || same(name, "--mux-after-done") {
        match parse_mux_after_done(v) {
            Ok(x) => {
                o.set_mux_after_done(x);
                Ok(())
            },
            Err(e) => Err(e),
        }
    } else if same(name, "--custom-hls-method") {
        match parse_hls_method(v) {
            Ok(x) => {
                o.set_custom_hls_method(x);
                Ok(())
            },
            Err(e) => Err(e),
        }
    } else if same(name, "--task-start-at") {
        match parse_task_start_at(v) {
            Ok(x) => {
                o.set_task_start_at(x);
                Ok(())
            },
            Err(e) => Err(e),
        }
    } else if same(name, "--live-record-limit") {
        match parse_duration(v, "--live-record-limit") {
            Ok(x) => {
                o.set_live_record_limit(x);
                Ok(())
            },
            Err(e) => Err(e),
        }
    } else if same(name, "--live-wait-time") {
        match parse_i32(v, "--live-wait-time") {
            Ok(x) => {
                o.set_live_wait_time(x);
                Ok(())
            },
            Err(e) => Err(e),
        }
    } else if same(name, "--live-take-count") {
        match parse_i32(v, "--live-take-count") {
            Ok(x) => {
                o.set_live_take_count(x);
                Ok(())
            },
            Err(e) => Err(e),
        }
    } else {
        Ok(())
    }
}

/// Whether a stream filter has that name.
pub open spec fn is_filter(name: Seq<char>) -> bool {
    name == "-sv"@ || name == "--select-video"@
    || name == "-sa"@ || name == "--select-audio"@
    || name == "-ss"@ || name == "--select-subtitle"@
    || name == "-dv"@ || name == "--drop-video"@
    || name == "-da"@ || name == "--drop-audio"@
    || name == "-ds"@ || name == "--drop-subtitle"@
}

fn has_filter(name: &str) -> (r: bool)
    ensures
        r == is_filter(name@),
{
    same(name, "-sv") || same(name, "--select-video")
    || same(name, "-sa") || same(name, "--select-audio")
    || same(name, "-ss") || same(name, "--select-subtitle")
    || same(name, "-dv") || same(name, "--drop-video")
    || same(name, "-da") || same(name, "--drop-audio")
    || same(name, "-ds") || same(name, "--drop-subtitle")
}

/// The options with one more filter under a name.
pub open spec fn with_filter(o: DownloadOptionsView, name: Seq<char>, f: StreamFilterView) -> DownloadOptionsView {
    if name == "-sv"@ || name == "--select-video"@ {
        DownloadOptionsView { select_video: o.select_video.push(f), ..o }
    } else if name == "-sa"@ || name == "--select-audio"@ {
        DownloadOptionsView { select_audio: o.select_audio.push(f), ..o }
    } else if name == "-ss"@ || name == "--select-subtitle"@ {
        DownloadOptionsView { select_subtitle: o.select_subtitle.push(f), ..o }
    } else if name == "-dv"@ || name == "--drop-video"@ {
        DownloadOptionsView { drop_video: o.drop_video.push(f), ..o }
    } else if name == "-da"@ || name == "--drop-audio"@ {
        DownloadOptionsView { drop_audio: o.drop_audio.push(f), ..o }
    } else if name == "-ds"@ || name == "--drop-subtitle"@ {
        DownloadOptionsView { drop_subtitle: o.drop_subtitle.push(f), ..o }
    } else {
        o
    }
}

fn add_filter(o: &mut DownloadOptions, name: &str, f: StreamFilter)
    requires
        is_filter(name@),
    ensures
        final(o).deep_view() == with_filter(old(o).deep_view(), name@, f.deep_view()),
        final(o).headers == old(o).headers,
{
    if same(name, "-sv") || same(name, "--select-video") {
        o.push_select_video(f);
    } else if same(name, "-sa") || same(name, "--select-audio") {
        o.push_select_audio(f);
    } else if same(name, "-ss") || same(name, "--select-subtitle") {
        o.push_select_subtitle(f);
    } else if same(name, "-dv") || same(name, "--drop-video") {
        o.push_drop_video(f);
    } else if same(name, "-da") || same(name, "--drop-audio") {
        o.push_drop_audio(f);
    } else if same(name, "-ds") || same(name, "--drop-subtitle") {
        o.push_drop_subtitle(f);
    } else {
        
    }
}

/// The keys that values stand for, added one by one up to the first that is none.
pub open spec fn with_keys(o: DownloadOptionsView, values: Seq<Seq<char>>) -> core::result::Result<
    DownloadOptionsView,
    ErrorView,
>
    decreases values.len(),
{
    if values.len() == 0 {
        Ok(o)
    } else {
        match custom_key_of(values[0]) {
            Err(e) => Err(e),
            Ok(key) => with_keys(
                DownloadOptionsView { keys: o.keys.push(key), ..o },
                values.drop_first(),
            ),
        }
    }
}

/// The headers that values stand for, written one after the other.
pub open spec fn with_headers(o: DownloadOptionsView, values: Seq<Seq<char>>) -> DownloadOptionsView
    decreases values.len(),
{
    if values.len() == 0 {
        o
    } else {
        match header_of(values[0]) {
            None => with_headers(o, values.drop_first()),
            Some((name, value)) => with_headers(
                DownloadOptionsView { headers: put(o.headers, name, value), ..o },
                values.drop_first(),
            ),
        }
    }
}

/// A file to mux along; it has to exist.
pub open spec fn import_of(v: Seq<char>, facts: CliFactsView) -> CliResultView<MuxImportView> {
    match complex_of(v, "path"@) {
        Err(e) => Err(CliStopView::Fail(e)),
        Ok(given) => {
            let path = match given {
                Some(p) => p,
                None => v,
            };
            match lookup(facts.files, path) {
                None => Err(CliStopView::Ask(CliQuestionView::IsFile(path))),
                Some(false) => Err(
                    CliStopView::Fail(
                        ErrorView::Config("--mux-import path must be an existing file"@),
                    ),
                ),
                Some(true) => match (complex_of(v, "lang"@), complex_of(v, "name"@)) {
                    (Err(e), _) => Err(CliStopView::Fail(e)),
                    (_, Err(e)) => Err(CliStopView::Fail(e)),
                    (Ok(language), Ok(name)) => Ok(
                        MuxImportView { path, language, name, index: 999 },
                    ),
                },
            }
        },
    }
}

fn parse_mux_import(v: &str, facts: &CliFacts) -> (r: CliResult<MuxImport>)
    ensures
        view_cli(r) == import_of(v@, facts.deep_view()),
{
    let params: ComplexParams = ComplexParams::parse(v);
    let given: Option<String> = lift(params.get("path"))?;
    let path: String = match given {
        Some(p) => p,
        None => owned(v),
    };
    match facts.files.get(path.as_str()) {
        None => {
            return Err(CliStop::Ask(CliQuestion::IsFile { path }));
        },
        Some(known) => {
            if !*known {
                return refuse("--mux-import path must be an existing file");
            }
        },
    }
    let language: Option<String> = lift(params.get("lang"))?;
    let name: Option<String> = lift(params.get("name"))?;
    let mut import: MuxImport = MuxImport::new(path.as_str());
    import.language = language;
    import.name = name;
    Ok(import)
}

/// The imports that values stand for, added one by one up to the first that is none.
pub open spec fn with_imports(
    o: DownloadOptionsView,
    values: Seq<Seq<char>>,
    facts: CliFactsView,
) -> CliResultView<DownloadOptionsView>
    decreases values.len(),
{
    if values.len() == 0 {
        Ok(o)
    } else {
        match import_of(values[0], facts) {
            Err(s) => Err(s),
            Ok(import) => with_imports(
                DownloadOptionsView { mux_imports: o.mux_imports.push(import), ..o },
                values.drop_first(),
                facts,
            ),
        }
    }
}

/// Key or initialization vector: nothing, what a file holds, or bytes written out.
pub open spec fn hls_bytes_of(v: Seq<char>, option: Seq<char>, facts: CliFactsView) -> CliResultView<
    Option<Seq<u8>>,
> {
    if v.len() == 0 {
        Ok(None)
    } else {
        match lookup(facts.files, v) {
            None => Err(CliStopView::Ask(CliQuestionView::IsFile(v))),
            Some(true) => match lookup(facts.contents, v) {
                None => Err(CliStopView::Ask(CliQuestionView::Contents(v))),
                Some(FileContentView::Bytes(b)) => Ok(Some(b)),
                Some(FileContentView::Failed(e)) => Err(CliStopView::Fail(ErrorView::Io(e))),
            },
            Some(false) => match literal_bytes_of(v, option) {
                Ok(b) => Ok(Some(b)),
                Err(e) => Err(CliStopView::Fail(e)),
            },
        }
    }
}

fn parse_hls_bytes(v: &str, option: &str, facts: &CliFacts) -> (r: CliResult<Option<Vec<u8>>>)
    ensures
        match r {
            Ok(b) => hls_bytes_of(v@, option@, facts.deep_view()) == CliResultView::Ok(
                crate::manifest::opt_bytes(b),
            ),
            Err(s) => hls_bytes_of(v@, option@, facts.deep_view()) == CliResultView::<
                Option<Seq<u8>>,
            >::Err(s.deep_view()),
        },
{
    if v.unicode_len() == 0 {
        return Ok(None);
    }
    match facts.files.get(v) {
        None => Err(CliStop::Ask(CliQuestion::IsFile { path: owned(v) })),
        Some(known) => {
            if *known {
                match facts.contents.get(v) {
                    None => Err(CliStop::Ask(CliQuestion::Contents { path: owned(v) })),
                    Some(FileContent::Bytes(b)) => Ok(Some(copy_bytes(b))),
                    Some(FileContent::Failed(e)) => Err(CliStop::Fail(Error::io(e.as_str()))),
                }
            } else {
                match parse_literal_bytes(v, option) {
                    Ok(b) => Ok(Some(b)),
                    Err(e) => Err(CliStop::Fail(e)),
                }
            }
        },
    }
}

/// The absolute form of a path, with a file name that the file system takes.
pub open spec fn log_path_of(v: Seq<char>, option: Seq<char>, facts: CliFactsView) -> CliResultView<
    Seq<char>,
> {
    match lookup(facts.absolutes, v) {
        None => Err(CliStopView::Ask(CliQuestionView::Absolute(v))),
        Some(None) => Err(CliStopView::Fail(ErrorView::Config(option + " path is invalid"@))),
        Some(Some(path)) => match path_file_name(path) {
            None => Err(
                CliStopView::Fail(ErrorView::Config(option + " must include a file name"@)),
            ),
            Some(name) => match file_name_of(name, option) {
                Err(e) => Err(CliStopView::Fail(e)),
                Ok(cleaned) => match path_parent(path) {
                    Some(dir) => if dir.len() > 0 {
                        Ok(path_join(dir, cleaned))
                    } else {
                        Ok(cleaned)
                    },
                    None => Ok(cleaned),
                },
            },
        },
    }
}

fn sanitize_path_file_name(v: &str, option: &str, facts: &CliFacts) -> (r: CliResult<String>)
    ensures
        view_cli(r) == log_path_of(v@, option@, facts.deep_view()),
{
    let path: &str = match facts.absolutes.get(v) {
        None => {
            return Err(CliStop::Ask(CliQuestion::Absolute { path: owned(v) }));
        },
        Some(None) => {
            let message: String = cat2(option, " path is invalid");
            return refuse(message.as_str());
        },
        Some(Some(path)) => path.as_str(),
    };
    let name: &str = match file_name(path) {
        None => {
            let message: String = cat2(option, " must include a file name");
            return refuse(message.as_str());
        },
        Some(name) => name,
    };
    let cleaned: String = lift(sanitize_file_name(name, option))?;
    match parent(path) {
        Some(dir) => {
            if dir.as_str().unicode_len() > 0 {
                Ok(join_path(dir.as_str(), cleaned.as_str()))
            } else {
                Ok(cleaned)
            }
        },
        None => Ok(cleaned),
    }
}

/// An option whose value needs the file system.
pub open spec fn is_file_option(name: Seq<char>) -> bool {
    name == "--log-file-path"@ || name == "--custom-hls-key"@ || name == "--custom-hls-iv"@
}

/// The options with such a value read and set.
pub open spec fn with_file_option(
    o: DownloadOptionsView,
    name: Seq<char>,
    v: Seq<char>,
    facts: CliFactsView,
) -> CliResultView<DownloadOptionsView> {
    if name == "--log-file-path"@ {
        match log_path_of(v, "--log-file-path"@, facts) {
            Ok(path) => Ok(DownloadOptionsView { log_file_path: Some(path), ..o }),
            Err(s) => Err(s),
        }
    } else if name == "--custom-hls-key"@ {
        match hls_bytes_of(v, "--custom-hls-key"@, facts) {
            Ok(b) => Ok(DownloadOptionsView { custom_hls_key: b, ..o }),
            Err(s) => Err(s),
        }
    } else {
        match hls_bytes_of(v, "--custom-hls-iv"@, facts) {
            Ok(b) => Ok(DownloadOptionsView { custom_hls_iv: b, ..o }),
            Err(s) => Err(s),
        }
    }
}

fn set_file_option(o: &mut DownloadOptions, name: &str, v: &str, facts: &CliFacts) -> (r: CliResult<
    (),
>)
    requires
        is_file_option(name@),
    ensures
        match r {
            Ok(_) => with_file_option(old(o).deep_view(), name@, v@, facts.deep_view())
                == CliResultView::Ok(final(o).deep_view()),
            Err(s) => with_file_option(old(o).deep_view(), name@, v@, facts.deep_view())
                == CliResultView::<DownloadOptionsView>::Err(s.deep_view()),
        },
        final(o).headers == old(o).headers,
{
    if same(name, "--log-file-path") {
        let path: String = sanitize_path_file_name(v, "--log-file-path", facts)?;
        o.set_log_file_path(path);
    } else if same(name, "--custom-hls-key") {
        let bytes: Option<Vec<u8>> = parse_hls_bytes(v, "--custom-hls-key", facts)?;
        o.set_custom_hls_key(bytes);
    } else {
        let bytes: Option<Vec<u8>> = parse_hls_bytes(v, "--custom-hls-iv", facts)?;
        o.set_custom_hls_iv(bytes);
    }
    Ok(())
}

/// An option that takes one value or more.
pub open spec fn is_list(name: Seq<char>) -> bool {
    name == "--key"@ || name == "-H"@ || name == "--header"@ || name == "--ad-keyword"@ || name
        == "--mux-import"@
}

/// The options with all values of a list read and added.
pub open spec fn with_list(
    o: DownloadOptionsView,
    name: Seq<char>,
    values: Seq<Seq<char>>,
    facts: CliFactsView,
) -> CliResultView<DownloadOptionsView> {
    if name == "--key"@ {
        lifted(with_keys(o, values))
    } else if name == "-H"@ || name == "--header"@ {
        Ok(with_headers(o, values))
    } else if name == "--ad-keyword"@ {
        Ok(DownloadOptionsView { ad_keywords: o.ad_keywords + values, ..o })
    } else {
        with_imports(o, values, facts)
    }
}

fn add_keys(o: &mut DownloadOptions, values: &Vec<String>) -> (r: Result<()>)
    ensures
        match r {
            Ok(_) => with_keys(old(o).deep_view(), values.deep_view()) == Ok::<
                DownloadOptionsView,
                ErrorView,
            >(final(o).deep_view()),
            Err(e) => with_keys(old(o).deep_view(), values.deep_view()) == Err::<
                DownloadOptionsView,
                ErrorView,
            >(e.deep_view()),
        },
        final(o).headers == old(o).headers,
{
    let ghost all = values.deep_view();
    let ghost start = o.deep_view();
    let ghost headers = o.headers;
    let mut i: usize = 0;
    assert(all.subrange(0, all.len() as int) =~= all);
    while i < values.len()
        invariant
            i <= values@.len(),
            all == values.deep_view(),
            start == old(o).deep_view(),
            headers == old(o).headers,
            o.headers == headers,
            with_keys(start, all) == with_keys(
                o.deep_view(),
                all.subrange(i as int, all.len() as int),
            ),
        decreases values@.len() - i,
    {
        let ghost rest = all.subrange(i as int, all.len() as int);
        assert(rest[0] == values@[i as int]@);
        assert(rest.drop_first() =~= all.subrange(i + 1, all.len() as int));
        let key: CustomKey = match parse_custom_key(values[i].as_str()) {
            Ok(key) => key,
            Err(e) => {
                return Err(e);
            },
        };
        o.push_keys(key);
        i = i + 1;
    }
    Ok(())
}

fn add_headers(o: &mut DownloadOptions, values: &Vec<String>)
    ensures
        final(o).deep_view() == with_headers(old(o).deep_view(), values.deep_view()),
        old(o).wf() ==> final(o).wf(),
{
    let ghost all = values.deep_view();
    let ghost start = o.deep_view();
    let ghost sound = o.wf();
    let mut i: usize = 0;
    assert(all.subrange(0, all.len() as int) =~= all);
    while i < values.len()
        invariant
            i <= values@.len(),
            all == values.deep_view(),
            start == old(o).deep_view(),
            sound == old(o).wf(),
            sound ==> o.wf(),
            with_headers(start, all) == with_headers(
                o.deep_view(),
                all.subrange(i as int, all.len() as int),
            ),
        decreases values@.len() - i,
    {
        let ghost rest = all.subrange(i as int, all.len() as int);
        assert(rest[0] == values@[i as int]@);
        assert(rest.drop_first() =~= all.subrange(i + 1, all.len() as int));
        match parse_header(values[i].as_str()) {
            Some((name, value)) => {
                o.put_header(name, value);
            },
            None => {},
        }
        i = i + 1;
    }
}

fn add_imports(o: &mut DownloadOptions, values: &Vec<String>, facts: &CliFacts) -> (r: CliResult<()>)
    ensures
        match r {
            Ok(_) => with_imports(old(o).deep_view(), values.deep_view(), facts.deep_view())
                == CliResultView::Ok(final(o).deep_view()),
            Err(s) => with_imports(old(o).deep_view(), values.deep_view(), facts.deep_view())
                == CliResultView::<DownloadOptionsView>::Err(s.deep_view()),
        },
        final(o).headers == old(o).headers,
{
    let ghost all = values.deep_view();
    let ghost start = o.deep_view();
    let ghost headers = o.headers;
    let mut i: usize = 0;
    assert(all.subrange(0, all.len() as int) =~= all);
    while i < values.len()
        invariant
            i <= values@.len(),
            all == values.deep_view(),
            start == old(o).deep_view(),
            headers == old(o).headers,
            o.headers == headers,
            with_imports(start, all, facts.deep_view()) == with_imports(
                o.deep_view(),
                all.subrange(i as int, all.len() as int),
                facts.deep_view(),
            ),
        decreases values@.len() - i,
    {
        let ghost rest = all.subrange(i as int, all.len() as int);
        assert(rest[0] == values@[i as int]@);
        assert(rest.drop_first() =~= all.subrange(i + 1, all.len() as int));
        let import: MuxImport = match parse_mux_import(values[i].as_str(), facts) {
            Ok(import) => import,
            Err(s) => {
                return Err(s);
            },
        };
        o.push_mux_imports(import);
        i = i + 1;
    }
    Ok(())
}

fn add_keywords(o: &mut DownloadOptions, values: &Vec<String>)
    ensures
        final(o).deep_view() == (DownloadOptionsView {
            ad_keywords: old(o).deep_view().ad_keywords + values.deep_view(),
            ..old(o).deep_view()
        }),
        final(o).headers == old(o).headers,
{
    let ghost all = values.deep_view();
    let ghost start = o.deep_view();
    let ghost headers = o.headers;
    let mut i: usize = 0;
    assert(start.ad_keywords + all.subrange(0, 0) =~= start.ad_keywords);
    while i < values.len()
        invariant
            i <= values@.len(),
            all == values.deep_view(),
            start == old(o).deep_view(),
            headers == old(o).headers,
            o.headers == headers,
            o.deep_view() == (DownloadOptionsView {
                ad_keywords: start.ad_keywords + all.subrange(0, i as int),
                ..start
            }),
        decreases values@.len() - i,
    {
        let word: String = values[i].clone();
        o.push_ad_keywords(word);
        assert((start.ad_keywords + all.subrange(0, i as int)).push(word@) =~= start.ad_keywords
            + all.subrange(0, i + 1));
        i = i + 1;
    }
    assert(all.subrange(0, all.len() as int) =~= all);
}

fn add_list(o: &mut DownloadOptions, name: &str, values: &Vec<String>, facts: &CliFacts) -> (r: CliResult<
    (),
>)
    requires
        is_list(name@),
    ensures
        match r {
            Ok(_) => with_list(old(o).deep_view(), name@, values.deep_view(), facts.deep_view())
                == CliResultView::Ok(final(o).deep_view()),
            Err(s) => with_list(old(o).deep_view(), name@, values.deep_view(), facts.deep_view())
                == CliResultView::<DownloadOptionsView>::Err(s.deep_view()),
        },
        r is Ok && old(o).wf() ==> final(o).wf(),
{
    if same(name, "--key") {
        match add_keys(o, values) {
            Ok(_) => Ok(()),
            Err(e) => Err(CliStop::Fail(e)),
        }
    } else if same(name, "-H") || same(name, "--header") {
        add_headers(o, values);
        Ok(())
    } else if same(name, "--ad-keyword") {
        add_keywords(o, values);
        Ok(())
    } else {
        add_imports(o, values, facts)
    }
}

/// What a command line asks for.
#[derive(Debug)]
pub enum CliParseResult {
    Request(DownloadRequest<()>),
    Help { text: String },
    MoreHelp { topic: Option<String>, text: String },
    Version { text: String },
}

/// Model of `CliParseResult`.
pub enum CliParseResultView {
    Request(DownloadRequestView),
    Help { text: Seq<char> },
    MoreHelp { topic: Option<Seq<char>>, text: Seq<char> },
    Version { text: Seq<char> },
}

impl DeepView for CliParseResult {
    type V = CliParseResultView;

    open spec fn deep_view(&self) -> CliParseResultView {
        match self {
            CliParseResult::Request(r) => CliParseResultView::Request(r.deep_view()),
            CliParseResult::Help { text } => CliParseResultView::Help { text: text@ },
            CliParseResult::MoreHelp { topic, text } => CliParseResultView::MoreHelp {
                topic: topic.deep_view(),
                text: text@,
            },
            CliParseResult::Version { text } => CliParseResultView::Version { text: text@ },
        }
    }
}

/// The options once all is read: what some imply of others.
pub open spec fn settled(o: DownloadOptionsView) -> DownloadOptionsView {
    DownloadOptionsView {
        decryption_engine: if o.use_shaka_packager == Toggle::On {
            DecryptionEngine::ShakaPackager
        } else {
            o.decryption_engine
        },
        live_real_time_merge: if o.live_pipe_mux == Toggle::On {
            Toggle::On
        } else {
            o.live_real_time_merge
        },
        binary_merge: if o.mux_after_done is Some {
            Toggle::On
        } else {
            o.binary_merge
        },
        ..o
    }
}

/// What comes out once all tokens are read.
pub open spec fn finished(st: CliState) -> CliResultView<CliParseResultView> {
    match st.input {
        None => Err(CliStopView::Fail(ErrorView::Config("input is required"@))),
        Some(input) => if st.options.mux_imports.len() > 0 && st.options.mux_after_done is None {
            Err(
                CliStopView::Fail(ErrorView::Config("--mux-import requires --mux-after-done"@)),
            )
        } else {
            Ok(
                CliParseResultView::Request(
                    DownloadRequestView {
                        input,
                        options: settled(st.options),
                        stream_selector: if st.options.sub_only == Toggle::On {
                            SelectorView::SubtitlesOnly
                        } else if st.options.auto_select == Toggle::On {
                            SelectorView::Auto
                        } else {
                            SelectorView::Interactive
                        },
                    },
                ),
            )
        },
    }
}

/// What the end of parsing looks at.
struct FinishFacts {
    has_imports: bool,
    has_mux: bool,
    shaka: bool,
    pipe: bool,
    sub_only: bool,
    auto_select: bool,
}

fn finish_facts(o: &DownloadOptions) -> (r: FinishFacts)
    ensures
        r.has_imports == (o.deep_view().mux_imports.len() > 0),
        r.has_mux == (o.deep_view().mux_after_done is Some),
        r.shaka == (o.deep_view().use_shaka_packager == Toggle::On),
        r.pipe == (o.deep_view().live_pipe_mux == Toggle::On),
        r.sub_only == (o.deep_view().sub_only == Toggle::On),
        r.auto_select == (o.deep_view().auto_select == Toggle::On),
{
    proof {
        reveal(options_view);
    }
    FinishFacts {
        has_imports: o.mux_imports.len() > 0,
        has_mux: o.mux_after_done.is_some(),
        shaka: o.use_shaka_packager.is_on(),
        pipe: o.live_pipe_mux.is_on(),
        sub_only: o.sub_only.is_on(),
        auto_select: o.auto_select.is_on(),
    }
}

fn finish(input: Option<String>, options: DownloadOptions) -> (r: CliResult<CliParseResult>)
    requires
        options.wf(),
    ensures
        view_cli(r) == finished(
            CliState { index: 0, input: input.deep_view(), options: options.deep_view() },
        ),
        r is Ok ==> r->Ok_0 is Request && r->Ok_0->Request_0.options.wf(),
{
    let input: String = match input {
        None => {
            return refuse("input is required");
        },
        Some(input) => input,
    };
    let mut options: DownloadOptions = options;
    let ghost before = options.deep_view();
    let facts: FinishFacts = finish_facts(&options);
    if facts.has_imports && !facts.has_mux {
        return refuse("--mux-import requires --mux-after-done");
    }
    if facts.shaka {
        options.set_decryption_engine(DecryptionEngine::ShakaPackager);
    }
    if facts.pipe {
        options.set_live_real_time_merge(Toggle::On);
    }
    if facts.has_mux {
        options.set_binary_merge(Toggle::On);
    }
    assert(options.deep_view() == settled(before));
    let selector: StreamSelector = if facts.sub_only {
        StreamSelector::SubtitlesOnly
    } else if facts.auto_select {
        StreamSelector::Auto
    } else {
        StreamSelector::Interactive
    };
    let request: DownloadRequest<()> = DownloadRequest::new(input.as_str(), options);
    Ok(CliParseResult::Request(request.with_stream_selector(selector)))
}

/// Help on how to write a mux.
pub open spec fn mux_help_text() -> Seq<char> {
    "mux-after-done grammar:\n  -M <format>\n  -M <format>:muxer=<ffmpeg|mkvmerge|mp4forge>:fallback_muxer=<ffmpeg|none>:bin_path=<path|auto>:keep=<true|false>:skip_sub=<true|false>\n  formats: mp4, mkv, ts\n  defaults: muxer=ffmpeg, fallback_muxer=none, bin_path=auto, keep=false, skip_sub=false"@
}

/// Help on how to write an import.
pub open spec fn import_help_text() -> Seq<char> {
    "mux-import grammar:\n  --mux-import <path>\n  --mux-import path=<path>:lang=<language>:name=<track name>\n  escape literal colons inside complex values as \\:\n  mux imports require --mux-after-done"@
}

/// Help on how to write a filter.
pub open spec fn selection_help_text() -> Seq<char> {
    "selection filter grammar:\n  all | best | bestN | worst | worstN\n  for=<choice>:id=<pattern>:lang=<pattern>:name=<pattern>:codecs=<pattern>:res=<pattern>:frame=<pattern>:channel=<pattern>:range=<pattern>:url=<pattern>\n  segsMin=<n>:segsMax=<n>:plistDurMin=<1h2m3s>:plistDurMax=<1h2m3s>:bwMin=<kbps>:bwMax=<kbps>:role=<role>\n  escape literal colons inside complex values as \\:"@
}

/// Help on how to write a range.
pub open spec fn range_help_text() -> Seq<char> {
    "custom-range grammar:\n  --custom-range <start-segment>-<end-segment>\n  --custom-range <start-time>-<end-time>\n  time fields use colon-separated duration parts from right to left: seconds, minutes, hours, days\n  an empty start means 0; an empty end means open-ended"@
}

/// Help on a topic.
pub open spec fn morehelp(topic: Seq<char>) -> Seq<char> {
    if topic == "mux-after-done"@ {
        mux_help_text()
    } else if topic == "mux-import"@ {
        import_help_text()
    } else if topic == "select-video"@ || topic == "select-audio"@ || topic == "select-subtitle"@ {
        selection_help_text()
    } else if topic == "custom-range"@ {
        range_help_text()
    } else {
        "No extended help is available for "@ + topic + "."@
    }
}

fn morehelp_text(topic: &str) -> (r: String)
    ensures
        r@ == morehelp(topic@),
{
    if same(topic, "mux-after-done") {
        owned(
            "mux-after-done grammar:\n  -M <format>\n  -M <format>:muxer=<ffmpeg|mkvmerge|mp4forge>:fallback_muxer=<ffmpeg|none>:bin_path=<path|auto>:keep=<true|false>:skip_sub=<true|false>\n  formats: mp4, mkv, ts\n  defaults: muxer=ffmpeg, fallback_muxer=none, bin_path=auto, keep=false, skip_sub=false",
        )
    } else if same(topic, "mux-import") {
        owned(
            "mux-import grammar:\n  --mux-import <path>\n  --mux-import path=<path>:lang=<language>:name=<track name>\n  escape literal colons inside complex values as \\:\n  mux imports require --mux-after-done",
        )
    } else if same(topic, "select-video") || same(topic, "select-audio") || same(
        topic,
        "select-subtitle",
    ) {
        owned(
            "selection filter grammar:\n  all | best | bestN | worst | worstN\n  for=<choice>:id=<pattern>:lang=<pattern>:name=<pattern>:codecs=<pattern>:res=<pattern>:frame=<pattern>:channel=<pattern>:range=<pattern>:url=<pattern>\n  segsMin=<n>:segsMax=<n>:plistDurMin=<1h2m3s>:plistDurMax=<1h2m3s>:bwMin=<kbps>:bwMax=<kbps>:role=<role>\n  escape literal colons inside complex values as \\:",
        )
    } else if same(topic, "custom-range") {
        owned(
            "custom-range grammar:\n  --custom-range <start-segment>-<end-segment>\n  --custom-range <start-time>-<end-time>\n  time fields use colon-separated duration parts from right to left: seconds, minutes, hours, days\n  an empty start means 0; an empty end means open-ended",
        )
    } else {
        cat3("No extended help is available for ", topic, ".")
    }
}

/// The version line.
pub open spec fn version_line() -> Seq<char> {
    "haki-dl 0.2.0"@
}

/// The input and where it may stand.
pub open spec fn with_input(st: CliState, value: Seq<char>, inline: Option<Seq<char>>) -> CliResultView<
    CliState,
> {
    if inline is Some {
        Err(CliStopView::Fail(ErrorView::Config("unexpected inline value on input "@ + value)))
    } else if st.input is Some {
        Err(CliStopView::Fail(ErrorView::Config("unexpected positional argument "@ + value)))
    } else {
        Ok(CliState { input: Some(value), ..st })
    }
}

/// A token that ends parsing with a text.
pub open spec fn is_info(name: Seq<char>) -> bool {
    name == "-?"@ || name == "-h"@ || name == "--help"@ || name == "--version"@ || name
        == "--morehelp"@
}

/// What such a token gives.
pub open spec fn info_of(
    tokens: Seq<Seq<char>>,
    next: int,
    name: Seq<char>,
    inline: Option<Seq<char>>,
) -> CliResultView<CliParseResultView> {
    if name == "--version"@ {
        if inline is Some {
            Err(CliStopView::Fail(ErrorView::Config("--version does not accept a value"@)))
        } else {
            Ok(CliParseResultView::Version { text: version_line() })
        }
    } else if name == "--morehelp"@ {
        if inline is Some {
            Err(
                CliStopView::Fail(
                    ErrorView::Config("--morehelp requires a separate option name"@),
                ),
            )
        } else if next < tokens.len() {
            Ok(
                CliParseResultView::MoreHelp {
                    topic: Some(tokens[next]),
                    text: morehelp(tokens[next]),
                },
            )
        } else {
            Err(CliStopView::Fail(ErrorView::Config("--morehelp requires a value"@)))
        }
    } else if inline is Some {
        Err(CliStopView::Fail(ErrorView::Config("--help does not accept a value"@)))
    } else {
        Ok(CliParseResultView::Help { text: help_page() })
    }
}

/// What the parser has read after one more token.
pub open spec fn step_of(tokens: Seq<Seq<char>>, st: CliState, facts: CliFactsView) -> CliResultView<
    CliState,
> {
    let (name, inline) = inline_of(tokens[st.index]);
    let next = st.index + 1;
    if is_switch(name) {
        match switch_at(tokens, next, inline) {
            Err(s) => Err(s),
            Ok((v, end)) => Ok(
                CliState {
                    index: end,
                    options: with_switch(st.options, name, toggle(v))->0,
                    ..st
                },
            ),
        }
    } else if is_list(name) {
        match values_at(tokens, next, name, inline) {
            Err(s) => Err(s),
            Ok((values, end)) => match with_list(st.options, name, values, facts) {
                Err(s) => Err(s),
                Ok(options) => Ok(CliState { index: end, options, ..st }),
            },
        }
    } else if is_text(name) || is_scalar(name) || is_file_option(name) || is_filter(name) {
        match value_at(tokens, next, name, inline) {
            Err(s) => Err(s),
            Ok((v, end)) => match with_value(st.options, name, v, facts) {
                Err(s) => Err(s),
                Ok(options) => Ok(CliState { index: end, options, ..st }),
            },
        }
    } else if starts_with(name, "-"@) {
        Err(CliStopView::Fail(ErrorView::Config("unknown option "@ + name)))
    } else {
        with_input(CliState { index: next, ..st }, name, inline)
    }
}

/// The options with the value of an option that takes exactly one.
pub open spec fn with_value(
    o: DownloadOptionsView,
    name: Seq<char>,
    v: Seq<char>,
    facts: CliFactsView,
) -> CliResultView<DownloadOptionsView> {
    if is_text(name) {
        Ok(with_text(o, name, v)->0)
    } else if is_scalar(name) {
        lifted(with_scalar(o, name, v))
    } else if is_file_option(name) {
        with_file_option(o, name, v, facts)
    } else {
        match filter_of(v) {
            Ok(f) => Ok(with_filter(o, name, f)),
            Err(e) => Err(CliStopView::Fail(e)),
        }
    }
}

/// What a command line asks for, read from `st` on.
pub open spec fn run_of(tokens: Seq<Seq<char>>, st: CliState, facts: CliFactsView) -> CliResultView<
    CliParseResultView,
>
    decreases tokens.len() - st.index,
    via run_decreases
{
    if st.index < 0 || st.index >= tokens.len() {
        finished(st)
    } else if is_info(inline_of(tokens[st.index]).0) {
        info_of(
            tokens,
            st.index + 1,
            inline_of(tokens[st.index]).0,
            inline_of(tokens[st.index]).1,
        )
    } else {
        match step_of(tokens, st, facts) {
            Err(s) => Err(s),
            Ok(next) => run_of(tokens, next, facts),
        }
    }
}

proof fn lemma_list_end(tokens: Seq<Seq<char>>, index: int)
    requires
        0 <= index <= tokens.len(),
    ensures
        index <= list_end(tokens, index) <= tokens.len(),
    decreases tokens.len() - index,
{
    if index < tokens.len() && !is_boundary(tokens[index]) {
        lemma_list_end(tokens, index + 1);
    }
}

/// Each step reads one token at least and stays within the tokens.
proof fn lemma_step_advances(tokens: Seq<Seq<char>>, st: CliState, facts: CliFactsView)
    requires
        0 <= st.index < tokens.len(),
        step_of(tokens, st, facts) is Ok,
    ensures
        st.index < step_of(tokens, st, facts)->Ok_0.index <= tokens.len(),
{
    let next = st.index + 1;
    lemma_list_end(tokens, next);
    if next < tokens.len() {
        lemma_list_end(tokens, next + 1);
    }
}

#[via_fn]
proof fn run_decreases(tokens: Seq<Seq<char>>, st: CliState, facts: CliFactsView) {
    if 0 <= st.index < tokens.len() && step_of(tokens, st, facts) is Ok {
        lemma_step_advances(tokens, st, facts);
    }
}

/// The filters under a name.
pub open spec fn filters_at(o: DownloadOptionsView, name: Seq<char>) -> Seq<StreamFilterView> {
    if name == "-sv"@ || name == "--select-video"@ {
        o.select_video
    } else if name == "-sa"@ || name == "--select-audio"@ {
        o.select_audio
    } else if name == "-ss"@ || name == "--select-subtitle"@ {
        o.select_subtitle
    } else if name == "-dv"@ || name == "--drop-video"@ {
        o.drop_video
    } else if name == "-da"@ || name == "--drop-audio"@ {
        o.drop_audio
    } else if name == "-ds"@ || name == "--drop-subtitle"@ {
        o.drop_subtitle
    } else {
        Seq::empty()
    }
}

proof fn lemma_filter_is_no_switch(name: Seq<char>)
    requires
        is_filter(name),
    ensures
        !is_switch(name),
{
    reveal_strlit("-sv");
    assert("-sv"@.len() == 3);
    reveal_strlit("--select-video");
    assert("--select-video"@.len() == 14);
    reveal_strlit("-sa");
    assert("-sa"@.len() == 3);
    reveal_strlit("--select-audio");
    assert("--select-audio"@.len() == 14);
    reveal_strlit("-ss");
    assert("-ss"@.len() == 3);
    reveal_strlit("--select-subtitle");
    assert("--select-subtitle"@.len() == 17);
    reveal_strlit("-dv");
    assert("-dv"@.len() == 3);
    reveal_strlit("--drop-video");
    assert("--drop-video"@.len() == 12);
    reveal_strlit("-da");
    assert("-da"@.len() == 3);
    reveal_strlit("--drop-audio");
    assert("--drop-audio"@.len() == 12);
    reveal_strlit("-ds");
    assert("-ds"@.len() == 3);
    reveal_strlit("--drop-subtitle");
    assert("--drop-subtitle"@.len() == 15);
    reveal_strlit("--mp4-real-time-decryption");
    assert("--mp4-real-time-decryption"@.len() == 26);
    reveal_strlit("--use-shaka-packager");
    assert("--use-shaka-packager"@.len() == 20);
    reveal_strlit("--append-url-params");
    assert("--append-url-params"@.len() == 19);
    reveal_strlit("--use-system-proxy");
    assert("--use-system-proxy"@.len() == 18);
    reveal_strlit("--no-log");
    assert("--no-log"@.len() == 8);
    reveal_strlit("--force-ansi-console");
    assert("--force-ansi-console"@.len() == 20);
    reveal_strlit("--no-ansi-color");
    assert("--no-ansi-color"@.len() == 15);
    reveal_strlit("--disable-update-check");
    assert("--disable-update-check"@.len() == 22);
    reveal_strlit("--auto-select");
    assert("--auto-select"@.len() == 13);
    reveal_strlit("--sub-only");
    assert("--sub-only"@.len() == 10);
    reveal_strlit("-mt");
    assert("-mt"@.len() == 3);
    reveal_strlit("--concurrent-download");
    assert("--concurrent-download"@.len() == 21);
    reveal_strlit("--skip-download");
    assert("--skip-download"@.len() == 15);
    reveal_strlit("--skip-merge");
    assert("--skip-merge"@.len() == 12);
    reveal_strlit("--binary-merge");
    assert("--binary-merge"@.len() == 14);
    reveal_strlit("--use-ffmpeg-concat-demuxer");
    assert("--use-ffmpeg-concat-demuxer"@.len() == 27);
    reveal_strlit("--del-after-done");
    assert("--del-after-done"@.len() == 16);
    reveal_strlit("--check-segments-count");
    assert("--check-segments-count"@.len() == 22);
    reveal_strlit("--write-meta-json");
    assert("--write-meta-json"@.len() == 17);
    reveal_strlit("--no-date-info");
    assert("--no-date-info"@.len() == 14);
    reveal_strlit("--auto-subtitle-fix");
    assert("--auto-subtitle-fix"@.len() == 19);
    reveal_strlit("--allow-hls-multi-ext-map");
    assert("--allow-hls-multi-ext-map"@.len() == 25);
    reveal_strlit("--live-perform-as-vod");
    assert("--live-perform-as-vod"@.len() == 21);
    reveal_strlit("--live-real-time-merge");
    assert("--live-real-time-merge"@.len() == 22);
    reveal_strlit("--live-keep-segments");
    assert("--live-keep-segments"@.len() == 20);
    reveal_strlit("--live-pipe-mux");
    assert("--live-pipe-mux"@.len() == 15);
    reveal_strlit("--live-fix-vtt-by-audio");
    assert("--live-fix-vtt-by-audio"@.len() == 23);
    assert("-sv"@[1] != "-mt"@[1]);
    assert("--select-video"@[2] != "--binary-merge"@[2]);
    assert("--select-video"@[2] != "--no-date-info"@[2]);
    assert("-sa"@[1] != "-mt"@[1]);
    assert("--select-audio"@[2] != "--binary-merge"@[2]);
    assert("--select-audio"@[2] != "--no-date-info"@[2]);
    assert("-ss"@[1] != "-mt"@[1]);
    assert("--select-subtitle"@[2] != "--write-meta-json"@[2]);
    assert("-dv"@[1] != "-mt"@[1]);
    assert("--drop-video"@[2] != "--skip-merge"@[2]);
    assert("-da"@[1] != "-mt"@[1]);
    assert("--drop-audio"@[2] != "--skip-merge"@[2]);
    assert("-ds"@[1] != "-mt"@[1]);
    assert("--drop-subtitle"@[2] != "--no-ansi-color"@[2]);
    assert("--drop-subtitle"@[2] != "--skip-download"@[2]);
    assert("--drop-subtitle"@[2] != "--live-pipe-mux"@[2]);
}

proof fn lemma_filter_is_no_list(name: Seq<char>)
    requires
        is_filter(name),
    ensures
        !is_list(name),
{
    reveal_strlit("-sv");
    assert("-sv"@.len() == 3);
    reveal_strlit("--select-video");
    assert("--select-video"@.len() == 14);
    reveal_strlit("-sa");
    assert("-sa"@.len() == 3);
    reveal_strlit("--select-audio");
    assert("--select-audio"@.len() == 14);
    reveal_strlit("-ss");
    assert("-ss"@.len() == 3);
    reveal_strlit("--select-subtitle");
    assert("--select-subtitle"@.len() == 17);
    reveal_strlit("-dv");
    assert("-dv"@.len() == 3);
    reveal_strlit("--drop-video");
    assert("--drop-video"@.len() == 12);
    reveal_strlit("-da");
    assert("-da"@.len() == 3);
    reveal_strlit("--drop-audio");
    assert("--drop-audio"@.len() == 12);
    reveal_strlit("-ds");
    assert("-ds"@.len() == 3);
    reveal_strlit("--drop-subtitle");
    assert("--drop-subtitle"@.len() == 15);
    reveal_strlit("--key");
    assert("--key"@.len() == 5);
    reveal_strlit("-H");
    assert("-H"@.len() == 2);
    reveal_strlit("--header");
    assert("--header"@.len() == 8);
    reveal_strlit("--ad-keyword");
    assert("--ad-keyword"@.len() == 12);
    reveal_strlit("--mux-import");
    assert("--mux-import"@.len() == 12);
    assert("--drop-video"@[2] != "--ad-keyword"@[2]);
    assert("--drop-video"@[2] != "--mux-import"@[2]);
    assert("--drop-audio"@[2] != "--ad-keyword"@[2]);
    assert("--drop-audio"@[2] != "--mux-import"@[2]);
}

proof fn lemma_filter_is_no_text(name: Seq<char>)
    requires
        is_filter(name),
    ensures
        !is_text(name),
{
    reveal_strlit("-sv");
    assert("-sv"@.len() == 3);
    reveal_strlit("--select-video");
    assert("--select-video"@.len() == 14);
    reveal_strlit("-sa");
    assert("-sa"@.len() == 3);
    reveal_strlit("--select-audio");
    assert("--select-audio"@.len() == 14);
    reveal_strlit("-ss");
    assert("-ss"@.len() == 3);
    reveal_strlit("--select-subtitle");
    assert("--select-subtitle"@.len() == 17);
    reveal_strlit("-dv");
    assert("-dv"@.len() == 3);
    reveal_strlit("--drop-video");
    assert("--drop-video"@.len() == 12);
    reveal_strlit("-da");
    assert("-da"@.len() == 3);
    reveal_strlit("--drop-audio");
    assert("--drop-audio"@.len() == 12);
    reveal_strlit("-ds");
    assert("-ds"@.len() == 3);
    reveal_strlit("--drop-subtitle");
    assert("--drop-subtitle"@.len() == 15);
    reveal_strlit("--tmp-dir");
    assert("--tmp-dir"@.len() == 9);
    reveal_strlit("--save-dir");
    assert("--save-dir"@.len() == 10);
    reveal_strlit("--save-pattern");
    assert("--save-pattern"@.len() == 14);
    reveal_strlit("--urlprocessor-args");
    assert("--urlprocessor-args"@.len() == 19);
    reveal_strlit("--key-text-file");
    assert("--key-text-file"@.len() == 15);
    reveal_strlit("--decryption-binary-path");
    assert("--decryption-binary-path"@.len() == 24);
    reveal_strlit("--base-url");
    assert("--base-url"@.len() == 10);
    reveal_strlit("--ffmpeg-binary-path");
    assert("--ffmpeg-binary-path"@.len() == 20);
    reveal_strlit("--mkvmerge-binary-path");
    assert("--mkvmerge-binary-path"@.len() == 22);
    assert("--select-video"@[3] != "--save-pattern"@[3]);
    assert("--select-audio"@[3] != "--save-pattern"@[3]);
    assert("--drop-subtitle"@[2] != "--key-text-file"@[2]);
}

proof fn lemma_filter_is_no_scalar(name: Seq<char>)
    requires
        is_filter(name),
    ensures
        !is_scalar(name),
{
    reveal_strlit("-sv");
    assert("-sv"@.len() == 3);
    reveal_strlit("--select-video");
    assert("--select-video"@.len() == 14);
    reveal_strlit("-sa");
    assert("-sa"@.len() == 3);
    reveal_strlit("--select-audio");
    assert("--select-audio"@.len() == 14);
    reveal_strlit("-ss");
    assert("-ss"@.len() == 3);
    reveal_strlit("--select-subtitle");
    assert("--select-subtitle"@.len() == 17);
    reveal_strlit("-dv");
    assert("-dv"@.len() == 3);
    reveal_strlit("--drop-video");
    assert("--drop-video"@.len() == 12);
    reveal_strlit("-da");
    assert("-da"@.len() == 3);
    reveal_strlit("--drop-audio");
    assert("--drop-audio"@.len() == 12);
    reveal_strlit("-ds");
    assert("-ds"@.len() == 3);
    reveal_strlit("--drop-subtitle");
    assert("--drop-subtitle"@.len() == 15);
    reveal_strlit("--save-name");
    assert("--save-name"@.len() == 11);
    reveal_strlit("--ui-language");
    assert("--ui-language"@.len() == 13);
    reveal_strlit("--decryption-engine");
    assert("--decryption-engine"@.len() == 19);
    reveal_strlit("--custom-proxy");
    assert("--custom-proxy"@.len() == 14);
    reveal_strlit("--http-request-timeout");
    assert("--http-request-timeout"@.len() == 22);
    reveal_strlit("--log-level");
    assert("--log-level"@.len() == 11);
    reveal_strlit("--custom-range");
    assert("--custom-range"@.len() == 14);
    reveal_strlit("--thread-count");
    assert("--thread-count"@.len() == 14);
    reveal_strlit("--download-retry-count");
    assert("--download-retry-count"@.len() == 22);
    reveal_strlit("-R");
    assert("-R"@.len() == 2);
    reveal_strlit("--max-speed");
    assert("--max-speed"@.len() == 11);
    reveal_strlit("--sub-format");
    assert("--sub-format"@.len() == 12);
    reveal_strlit("-M");
    assert("-M"@.len() == 2);
    reveal_strlit("--mux-after-done");
    assert("--mux-after-done"@.len() == 16);
    reveal_strlit("--custom-hls-method");
    assert("--custom-hls-method"@.len() == 19);
    reveal_strlit("--task-start-at");
    assert("--task-start-at"@.len() == 15);
    reveal_strlit("--live-record-limit");
    assert("--live-record-limit"@.len() == 19);
    reveal_strlit("--live-wait-time");
    assert("--live-wait-time"@.len() == 16);
    reveal_strlit("--live-take-count");
    assert("--live-take-count"@.len() == 17);
    assert("--select-video"@[2] != "--custom-proxy"@[2]);
    assert("--select-video"@[2] != "--custom-range"@[2]);
    assert("--select-video"@[2] != "--thread-count"@[2]);
    assert("--select-audio"@[2] != "--custom-proxy"@[2]);
    assert("--select-audio"@[2] != "--custom-range"@[2]);
    assert("--select-audio"@[2] != "--thread-count"@[2]);
    assert("--select-subtitle"@[2] != "--live-take-count"@[2]);
    assert("--drop-video"@[2] != "--sub-format"@[2]);
    assert("--drop-audio"@[2] != "--sub-format"@[2]);
    assert("--drop-subtitle"@[2] != "--task-start-at"@[2]);
}

proof fn lemma_filter_is_no_file_option(name: Seq<char>)
    requires
        is_filter(name),
    ensures
        !is_file_option(name),
{
    reveal_strlit("-sv");
    assert("-sv"@.len() == 3);
    reveal_strlit("--select-video");
    assert("--select-video"@.len() == 14);
    reveal_strlit("-sa");
    assert("-sa"@.len() == 3);
    reveal_strlit("--select-audio");
    assert("--select-audio"@.len() == 14);
    reveal_strlit("-ss");
    assert("-ss"@.len() == 3);
    reveal_strlit("--select-subtitle");
    assert("--select-subtitle"@.len() == 17);
    reveal_strlit("-dv");
    assert("-dv"@.len() == 3);
    reveal_strlit("--drop-video");
    assert("--drop-video"@.len() == 12);
    reveal_strlit("-da");
    assert("-da"@.len() == 3);
    reveal_strlit("--drop-audio");
    assert("--drop-audio"@.len() == 12);
    reveal_strlit("-ds");
    assert("-ds"@.len() == 3);
    reveal_strlit("--drop-subtitle");
    assert("--drop-subtitle"@.len() == 15);
    reveal_strlit("--log-file-path");
    assert("--log-file-path"@.len() == 15);
    reveal_strlit("--custom-hls-key");
    assert("--custom-hls-key"@.len() == 16);
    reveal_strlit("--custom-hls-iv");
    assert("--custom-hls-iv"@.len() == 15);
    assert("--drop-subtitle"@[2] != "--log-file-path"@[2]);
    assert("--drop-subtitle"@[2] != "--custom-hls-iv"@[2]);
}

/// A filter option may be given more than once: each time its filter comes behind those that are
/// there, and the other options stay.
pub proof fn law_filters_are_appended(
    tokens: Seq<Seq<char>>,
    st: CliState,
    facts: CliFactsView,
)
    requires
        0 <= st.index < tokens.len(),
        is_filter(inline_of(tokens[st.index]).0),
        step_of(tokens, st, facts) is Ok,
    ensures
        ({
            let (name, inline) = inline_of(tokens[st.index]);
            let (value, _) = value_at(tokens, st.index + 1, name, inline)->Ok_0;
            let next = step_of(tokens, st, facts)->Ok_0;
            filter_of(value) is Ok && filters_at(next.options, name) == filters_at(
                st.options,
                name,
            ).push(filter_of(value)->Ok_0) && next.input == st.input
        }),
{
    let (name, _) = inline_of(tokens[st.index]);
    lemma_filter_is_no_switch(name);
    lemma_filter_is_no_list(name);
    lemma_filter_is_no_text(name);
    lemma_filter_is_no_scalar(name);
    lemma_filter_is_no_file_option(name);
}

/// The language that the first readable `--ui-language` asks for.
pub open spec fn scanned_language(tokens: Seq<Seq<char>>, index: int) -> Option<UiLanguage>
    decreases tokens.len() - index,
{
    if index < 0 || index >= tokens.len() {
        None
    } else {
        let (name, inline) = inline_of(tokens[index]);
        let value = if inline is Some {
            inline
        } else if index + 1 < tokens.len() {
            Some(tokens[index + 1])
        } else {
            None
        };
        if name == "--ui-language"@ && value is Some && language_of(value->0) is Ok {
            Some(language_of(value->0)->Ok_0)
        } else {
            scanned_language(tokens, index + 1)
        }
    }
}

/// The language that the first readable `--ui-language` asks for.
pub fn pre_scan_ui_language(tokens: &Vec<String>) -> (r: Option<UiLanguage>)
    ensures
        r == scanned_language(tokens.deep_view(), 0),
{
    let mut index: usize = 0;
    let ghost all = tokens.deep_view();
    while index < tokens.len()
        invariant
            index <= tokens@.len(),
            all == tokens.deep_view(),
            scanned_language(all, 0) == scanned_language(all, index as int),
        decreases tokens@.len() - index,
    {
        assert(all[index as int] == tokens@[index as int]@);
        let (name, inline): (String, Option<String>) = split_inline_option(tokens[index].as_str());
        if same(name.as_str(), "--ui-language") {
            match inline {
                Some(v) => match parse_ui_language(v.as_str()) {
                    Ok(language) => {
                        return Some(language);
                    },
                    Err(_) => {},
                },
                None => {
                    if index + 1 < tokens.len() {
                        assert(all[index + 1] == tokens@[index + 1]@);
                        match parse_ui_language(tokens[index + 1].as_str()) {
                            Ok(language) => {
                                return Some(language);
                            },
                            Err(_) => {},
                        }
                    }
                },
            }
        }
        index = index + 1;
    }
    None
}

/// Reads tokens one after the other.
#[derive(Debug)]
pub struct Parser {
    tokens: Vec<String>,
    index: usize,
    input: Option<String>,
    options: DownloadOptions,
    facts: CliFacts,
}

/// What the parser starts from.
pub open spec fn start_state(tokens: Seq<Seq<char>>, available: Option<usize>) -> CliState {
    CliState {
        index: 0,
        input: None,
        options: DownloadOptionsView {
            ui_language: scanned_language(tokens, 0),
            ..default_options(threads_for(available) as i32)
        },
    }
}

impl Parser {
    pub closed spec fn tokens(&self) -> Seq<Seq<char>> {
        self.tokens.deep_view()
    }

    pub closed spec fn facts(&self) -> CliFactsView {
        self.facts.deep_view()
    }

    pub closed spec fn state(&self) -> CliState {
        CliState {
            index: self.index as int,
            input: self.input.deep_view(),
            options: self.options.deep_view(),
        }
    }

    pub closed spec fn wf(&self) -> bool {
        self.index <= self.tokens@.len() && self.options.wf()
    }

    /// A parser at the first token.
    pub fn new(tokens: Vec<String>, available: Option<usize>, facts: CliFacts) -> (r: Self)
        ensures
            r.tokens() == tokens.deep_view(),
            r.facts() == facts.deep_view(),
            r.state() == start_state(tokens.deep_view(), available),
            r.wf(),
    {
        let language: Option<UiLanguage> = pre_scan_ui_language(&tokens);
        let mut options: DownloadOptions = DownloadOptions::for_parallelism(available);
        options.put_ui_language(language);
        Parser { tokens, index: 0, input: None, options, facts }
    }

    fn value(&mut self, name: &str, inline: Option<String>) -> (r: CliResult<String>)
        requires
            old(self).wf(),
        ensures
            match r {
                Ok(v) => value_at(
                    old(self).tokens(),
                    old(self).state().index,
                    name@,
                    inline.deep_view(),
                ) == CliResultView::Ok((v@, final(self).state().index)),
                Err(s) => value_at(
                    old(self).tokens(),
                    old(self).state().index,
                    name@,
                    inline.deep_view(),
                ) == CliResultView::<(Seq<char>, int)>::Err(s.deep_view()),
            },
            final(self).wf(),
            final(self).tokens == old(self).tokens,
            final(self).facts == old(self).facts,
            final(self).input == old(self).input,
            final(self).options == old(self).options,
    {
        match inline {
            Some(v) => Ok(v),
            None => {
                if self.index < self.tokens.len() {
                    let v: String = self.tokens[self.index].clone();
                    self.index = self.index + 1;
                    Ok(v)
                } else {
                    let message: String = cat2(name, " requires a value");
                    refuse(message.as_str())
                }
            },
        }
    }

    fn values_one_or_more(&mut self, name: &str, inline: Option<String>) -> (r: CliResult<
        Vec<String>,
    >)
        requires
            old(self).wf(),
        ensures
            match r {
                Ok(v) => values_at(
                    old(self).tokens(),
                    old(self).state().index,
                    name@,
                    inline.deep_view(),
                ) == CliResultView::Ok((v.deep_view(), final(self).state().index)),
                Err(s) => values_at(
                    old(self).tokens(),
                    old(self).state().index,
                    name@,
                    inline.deep_view(),
                ) == CliResultView::<(Seq<Seq<char>>, int)>::Err(s.deep_view()),
            },
            final(self).wf(),
            final(self).tokens == old(self).tokens,
            final(self).facts == old(self).facts,
            final(self).input == old(self).input,
            final(self).options == old(self).options,
    {
        let first: String = self.value(name, inline)?;
        let mut values: Vec<String> = Vec::new();
        let ghost head = first@;
        values.push(first);
        let ghost start = self.index as int;
        let ghost all = self.tokens.deep_view();
        assert(values.deep_view() =~= seq![head] + all.subrange(start, start));
        while self.index < self.tokens.len() && !is_option_boundary(
            self.tokens[self.index].as_str(),
        )
            invariant
                all == self.tokens.deep_view(),
                0 <= start <= self.index <= self.tokens@.len(),
                self.wf(),
                self.tokens == old(self).tokens,
                self.facts == old(self).facts,
                self.input == old(self).input,
                self.options == old(self).options,
                values.deep_view() =~= seq![head] + all.subrange(start, self.index as int),
                list_end(all, start) == list_end(all, self.index as int),
            decreases self.tokens@.len() - self.index,
        {
            assert(all[self.index as int] == self.tokens@[self.index as int]@);
            let v: String = self.tokens[self.index].clone();
            let ghost before = values.deep_view();
            values.push(v);
            assert(values.deep_view() =~= before.push(v@));
            assert(all[self.index as int] == v@);
            assert(values.deep_view() =~= seq![head] + all.subrange(start, self.index + 1));
            self.index = self.index + 1;
        }
        if self.index < self.tokens.len() {
            assert(all[self.index as int] == self.tokens@[self.index as int]@);
        }
        Ok(values)
    }

    fn bool_value(&mut self, inline: Option<String>) -> (r: CliResult<bool>)
        requires
            old(self).wf(),
        ensures
            match r {
                Ok(v) => switch_at(
                    old(self).tokens(),
                    old(self).state().index,
                    inline.deep_view(),
                ) == CliResultView::Ok((v, final(self).state().index)),
                Err(s) => switch_at(
                    old(self).tokens(),
                    old(self).state().index,
                    inline.deep_view(),
                ) == CliResultView::<(bool, int)>::Err(s.deep_view()),
            },
            final(self).wf(),
            final(self).tokens == old(self).tokens,
            final(self).facts == old(self).facts,
            final(self).input == old(self).input,
            final(self).options == old(self).options,
    {
        match inline {
            Some(v) => match parse_bool(v.as_str()) {
                Ok(b) => Ok(b),
                Err(e) => Err(CliStop::Fail(e)),
            },
            None => {
                if self.index < self.tokens.len() && is_bool_text(
                    self.tokens[self.index].as_str(),
                ) {
                    let v: String = self.tokens[self.index].clone();
                    self.index = self.index + 1;
                    match parse_bool(v.as_str()) {
                        Ok(b) => Ok(b),
                        Err(e) => Err(CliStop::Fail(e)),
                    }
                } else {
                    Ok(true)
                }
            },
        }
    }

    fn set_input(&mut self, value: &str, inline: Option<String>) -> (r: CliResult<()>)
        requires
            old(self).wf(),
        ensures
            match r {
                Ok(_) => with_input(old(self).state(), value@, inline.deep_view())
                    == CliResultView::Ok(final(self).state()),
                Err(s) => with_input(old(self).state(), value@, inline.deep_view())
                    == CliResultView::<CliState>::Err(s.deep_view()),
            },
            final(self).wf(),
            final(self).tokens == old(self).tokens,
            final(self).facts == old(self).facts,
    {
        if inline.is_some() {
            let message: String = cat2("unexpected inline value on input ", value);
            return refuse(message.as_str());
        }
        if self.input.is_some() {
            let message: String = cat2("unexpected positional argument ", value);
            return refuse(message.as_str());
        }
        self.input = Some(owned(value));
        Ok(())
    }

    fn info(&self, name: &str, inline: Option<String>) -> (r: CliResult<CliParseResult>)
        requires
            self.wf(),
            is_info(name@),
        ensures
            view_cli(r) == info_of(
                self.tokens(),
                self.state().index,
                name@,
                inline.deep_view(),
            ),
    {
        if same(name, "--version") {
            if inline.is_some() {
                refuse("--version does not accept a value")
            } else {
                Ok(CliParseResult::Version { text: owned("haki-dl 0.2.0") })
            }
        } else if same(name, "--morehelp") {
            if inline.is_some() {
                refuse("--morehelp requires a separate option name")
            } else if self.index < self.tokens.len() {
                assert(self.tokens.deep_view()[self.index as int]
                    == self.tokens@[self.index as int]@);
                let topic: String = self.tokens[self.index].clone();
                let text: String = morehelp_text(topic.as_str());
                Ok(CliParseResult::MoreHelp { topic: Some(topic), text })
            } else {
                refuse("--morehelp requires a value")
            }
        } else if inline.is_some() {
            refuse("--help does not accept a value")
        } else {
            Ok(CliParseResult::Help { text: help_text() })
        }
    }

    fn set_value(&mut self, name: &str, v: &str) -> (r: CliResult<()>)
        requires
            old(self).wf(),
            is_text(name@) || is_scalar(name@) || is_file_option(name@) || is_filter(name@),
        ensures
            match r {
                Ok(_) => with_value(old(self).state().options, name@, v@, old(self).facts())
                    == CliResultView::Ok(final(self).state().options),
                Err(s) => with_value(old(self).state().options, name@, v@, old(self).facts())
                    == CliResultView::<DownloadOptionsView>::Err(s.deep_view()),
            },
            final(self).wf(),
            final(self).tokens == old(self).tokens,
            final(self).facts == old(self).facts,
            final(self).input == old(self).input,
            final(self).index == old(self).index,
    {
        if has_text_option(name) {
            set_text(&mut self.options, name, owned(v));
            Ok(())
        } else if has_scalar(name) {
            match set_scalar(&mut self.options, name, v) {
                Ok(_) => Ok(()),
                Err(e) => Err(CliStop::Fail(e)),
            }
        } else if has_file_option(name) {
            set_file_option(&mut self.options, name, v, &self.facts)
        } else {
            match parse_stream_filter(v) {
                Ok(f) => {
                    add_filter(&mut self.options, name, f);
                    Ok(())
                },
                Err(e) => Err(CliStop::Fail(e)),
            }
        }
    }

    fn step(&mut self, name: &str, inline: Option<String>) -> (r: CliResult<()>)
        requires
            old(self).wf(),
            0 < old(self).state().index <= old(self).tokens().len(),
            (name@, inline.deep_view()) == inline_of(
                old(self).tokens()[old(self).state().index - 1],
            ),
        ensures
            match r {
                Ok(_) => step_of(
                    old(self).tokens(),
                    CliState { index: old(self).state().index - 1, ..old(self).state() },
                    old(self).facts(),
                ) == CliResultView::Ok(final(self).state()),
                Err(s) => step_of(
                    old(self).tokens(),
                    CliState { index: old(self).state().index - 1, ..old(self).state() },
                    old(self).facts(),
                ) == CliResultView::<CliState>::Err(s.deep_view()),
            },
            r is Ok ==> final(self).wf(),
            final(self).tokens == old(self).tokens,
            final(self).facts == old(self).facts,
    {
        if has_switch(name) {
            let v: bool = self.bool_value(inline)?;
            set_switch(&mut self.options, name, Toggle::of(v));
            Ok(())
        } else if has_list(name) {
            let values: Vec<String> = self.values_one_or_more(name, inline)?;
            add_list(&mut self.options, name, &values, &self.facts)
        } else if has_text_option(name) || has_scalar(name) || has_file_option(name) || has_filter(
            name,
        ) {
            let v: String = self.value(name, inline)?;
            self.set_value(name, v.as_str())
        } else if begins_with(name, "-") {
            let message: String = cat2("unknown option ", name);
            refuse(message.as_str())
        } else {
            self.set_input(name, inline)
        }
    }

    /// What the tokens ask for, or what is wrong with them, or what has to be known first.
    pub fn parse(self) -> (r: CliResult<CliParseResult>)
        requires
            self.wf(),
        ensures
            view_cli(r) == run_of(self.tokens(), self.state(), self.facts()),
            r is Ok && r->Ok_0 is Request ==> r->Ok_0->Request_0.options.wf(),
    {
        let mut p: Parser = self;
        let ghost tokens = p.tokens();
        let ghost facts = p.facts();
        while p.index < p.tokens.len()
            invariant
                p.wf(),
                tokens == p.tokens(),
                tokens == self.tokens(),
                facts == p.facts(),
                facts == self.facts(),
                run_of(tokens, self.state(), facts) == run_of(tokens, p.state(), facts),
            decreases p.tokens@.len() - p.index,
        {
            let ghost before = p.state();
            assert(tokens[p.index as int] == p.tokens@[p.index as int]@);
            let (name, inline): (String, Option<String>) = split_inline_option(
                p.tokens[p.index].as_str(),
            );
            p.index = p.index + 1;
            if has_info(name.as_str()) {
                return p.info(name.as_str(), inline);
            }
            assert(before == (CliState { index: p.state().index - 1, ..p.state() }));
            p.step(name.as_str(), inline)?;
            proof {
                lemma_step_advances(tokens, before, facts);
            }
        }
        finish(p.input, p.options)
    }
}

fn has_info(name: &str) -> (r: bool)
    ensures
        r == is_info(name@),
{
    same(name, "-?") || same(name, "-h") || same(name, "--help") || same(name, "--version") || same(
        name,
        "--morehelp",
    )
}

fn has_list(name: &str) -> (r: bool)
    ensures
        r == is_list(name@),
{
    same(name, "--key") || same(name, "-H") || same(name, "--header") || same(name, "--ad-keyword")
        || same(name, "--mux-import")
}

fn has_file_option(name: &str) -> (r: bool)
    ensures
        r == is_file_option(name@),
{
    same(name, "--log-file-path") || same(name, "--custom-hls-key") || same(name, "--custom-hls-iv")
}

/// What a command line asks for on a machine with that much parallelism.
pub fn parse_args(tokens: Vec<String>, available: Option<usize>, facts: CliFacts) -> (r: CliResult<
    CliParseResult,
>)
    ensures
        view_cli(r) == run_of(
            tokens.deep_view(),
            start_state(tokens.deep_view(), available),
            facts.deep_view(),
        ),
        r is Ok && r->Ok_0 is Request ==> r->Ok_0->Request_0.options.wf(),
{
    Parser::new(tokens, available, facts).parse()
}

} // verus!
