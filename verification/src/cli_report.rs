//! What the program reports of a command line, and how the table of options stands to the parser.

use crate::cli::{is_file_option, is_filter, is_info, is_list, is_scalar, is_switch, is_text};
use crate::cli_schema::{
    row, rows_1, rows_2, rows_3, rows_4, rows_5, rows_6, schema, CliApiBinding, CliOptionSchemaView,
    CliSchemaValueKind,
};
use crate::config::{DownloadOptions, DownloadOptionsView, LogLevel, Toggle};
use crate::error::{Error, ErrorView};
use crate::text::{begins_with, starts_with};
use vstd::prelude::*;

verus! {

/// An error as the program reports it: with its area in front, but for the message about missing
/// segments.
pub open spec fn reported(e: ErrorView) -> Seq<char> {
    if !(e is Io) && !(e is UserCancelled) && starts_with(
        e.message(),
        "Segment count check not pass,"@,
    ) {
        e.message()
    } else {
        e.display()
    }
}

/// An error as the program reports it.
pub fn cli_error_text(error: &Error) -> (r: String)
    ensures
        r@ == reported(error.deep_view()),
{
    let special: bool = match error {
        Error::Io { .. } => false,
        Error::UserCancelled => false,
        _ => true,
    };
    let message: String = error.compatibility_message();
    if special && begins_with(message.as_str(), "Segment count check not pass,") {
        return message;
    }
    error.display()
}

/// An error as the program reports it at a level of messages; at the level of errors it is the
/// detailed text that is given.
pub fn cli_error_text_for_log_level(error: &Error, detailed: String, log_level: LogLevel) -> (r: String)
    ensures
        r@ == if log_level == LogLevel::Error {
            detailed@
        } else {
            reported(error.deep_view())
        },
{
    if log_level == LogLevel::Error {
        detailed
    } else {
        cli_error_text(error)
    }
}

/// The options for output that is redirected: no colours, and no moving of the cursor.
pub fn apply_terminal_defaults(
    options: &mut DownloadOptions,
    stdout_redirected: bool,
    stderr_redirected: bool,
)
    ensures
        final(options).deep_view() == if stdout_redirected || stderr_redirected {
            DownloadOptionsView {
                force_ansi_console: Toggle::On,
                no_ansi_color: Toggle::On,
                ..old(options).deep_view()
            }
        } else {
            old(options).deep_view()
        },
        old(options).wf() ==> final(options).wf(),
{
    if stdout_redirected || stderr_redirected {
        options.set_force_ansi_console(Toggle::On);
        options.set_no_ansi_color(Toggle::On);
    }
}

/// The parser reads an option of this name with values of this kind.
pub open spec fn is_read_as(name: Seq<char>, kind: CliSchemaValueKind) -> bool {
    match kind {
        CliSchemaValueKind::Flag => is_switch(name) || is_info(name),
        CliSchemaValueKind::Repeatable => is_list(name) || is_filter(name),
        CliSchemaValueKind::Positional => false,
        _ => is_text(name) || is_scalar(name) || is_file_option(name) || is_info(name),
    }
}

/// The parser reads all names of a row.
pub open spec fn row_is_read(r: CliOptionSchemaView) -> bool {
    forall|j: int| 0 <= j < r.aliases.len() ==> is_read_as(#[trigger] r.aliases[j], r.value_kind)
}

proof fn lemma_row(
    canonical: Seq<char>,
    short: Seq<char>,
    long: Seq<char>,
    extra: Seq<char>,
    kind: CliSchemaValueKind,
    default: Seq<char>,
    member: Seq<char>,
    binding: CliApiBinding,
    shown: bool,
)
    requires
        short == ""@ || is_read_as(short, kind),
        (short == ""@ && long == ""@) || is_read_as(long, kind),
        extra == ""@ || is_read_as(extra, kind),
    ensures
        row_is_read(row(canonical, short, long, extra, kind, default, member, binding, shown)),
{
}

proof fn lemma_rows_1()
    ensures
        forall|i: int| 0 <= i < rows_1().len() ==> row_is_read(#[trigger] rows_1()[i]),
{
    lemma_row("input"@, ""@, ""@, ""@, CliSchemaValueKind::Positional, "required"@, "DownloadRequest::input"@, CliApiBinding::RequestField, true);
    lemma_row("tmp_dir"@, ""@, "--tmp-dir"@, ""@, CliSchemaValueKind::Scalar, "none"@, "DownloadOptions::tmp_dir"@, CliApiBinding::OptionField, true);
    lemma_row("save_dir"@, ""@, "--save-dir"@, ""@, CliSchemaValueKind::Scalar, "current working directory"@, "DownloadOptions::save_dir"@, CliApiBinding::OptionField, true);
    lemma_row("save_name"@, ""@, "--save-name"@, ""@, CliSchemaValueKind::Scalar, "none"@, "DownloadOptions::save_name"@, CliApiBinding::OptionField, true);
    lemma_row("save_pattern"@, ""@, "--save-pattern"@, ""@, CliSchemaValueKind::Scalar, "none"@, "DownloadOptions::save_pattern"@, CliApiBinding::OptionField, true);
    lemma_row("log_file_path"@, ""@, "--log-file-path"@, ""@, CliSchemaValueKind::Scalar, "none"@, "DownloadOptions::log_file_path"@, CliApiBinding::OptionField, true);
    lemma_row("ui_language"@, ""@, "--ui-language"@, ""@, CliSchemaValueKind::Scalar, "auto"@, "DownloadOptions::ui_language"@, CliApiBinding::OptionField, true);
    lemma_row("urlprocessor_args"@, ""@, "--urlprocessor-args"@, ""@, CliSchemaValueKind::Scalar, "none"@, "DownloadOptions::urlprocessor_args"@, CliApiBinding::OptionField, true);
    lemma_row("key_text_file"@, ""@, "--key-text-file"@, ""@, CliSchemaValueKind::Scalar, "none"@, "DownloadOptions::key_text_file"@, CliApiBinding::OptionField, true);
    lemma_row("key"@, ""@, "--key"@, ""@, CliSchemaValueKind::Repeatable, "none"@, "DownloadOptions::keys"@, CliApiBinding::OptionField, true);
    lemma_row("decryption_engine"@, ""@, "--decryption-engine"@, ""@, CliSchemaValueKind::Scalar, "mp4forge"@, "DownloadOptions::decryption_engine"@, CliApiBinding::OptionField, true);
    lemma_row("decryption_binary_path"@, ""@, "--decryption-binary-path"@, ""@, CliSchemaValueKind::Scalar, "auto"@, "DownloadOptions::decryption_binary_path"@, CliApiBinding::OptionField, true);
}

proof fn lemma_rows_2()
    ensures
        forall|i: int| 0 <= i < rows_2().len() ==> row_is_read(#[trigger] rows_2()[i]),
{
    lemma_row("mp4_real_time_decryption"@, ""@, "--mp4-real-time-decryption"@, ""@, CliSchemaValueKind::Flag, "false"@, "DownloadOptions::mp4_real_time_decryption"@, CliApiBinding::OptionField, true);
    lemma_row("use_shaka_packager"@, ""@, "--use-shaka-packager"@, ""@, CliSchemaValueKind::Flag, "false"@, "DownloadOptions::use_shaka_packager"@, CliApiBinding::OptionField, false);
    lemma_row("header"@, "-H"@, "--header"@, ""@, CliSchemaValueKind::Repeatable, "none"@, "DownloadOptions::headers"@, CliApiBinding::OptionField, true);
    lemma_row("base_url"@, ""@, "--base-url"@, ""@, CliSchemaValueKind::Scalar, "none"@, "DownloadOptions::base_url"@, CliApiBinding::OptionField, true);
    lemma_row("append_url_params"@, ""@, "--append-url-params"@, ""@, CliSchemaValueKind::Flag, "false"@, "DownloadOptions::append_url_params"@, CliApiBinding::OptionField, true);
    lemma_row("use_system_proxy"@, ""@, "--use-system-proxy"@, ""@, CliSchemaValueKind::Flag, "true"@, "DownloadOptions::use_system_proxy"@, CliApiBinding::OptionField, true);
    lemma_row("custom_proxy"@, ""@, "--custom-proxy"@, ""@, CliSchemaValueKind::Scalar, "none"@, "DownloadOptions::custom_proxy"@, CliApiBinding::OptionField, true);
    lemma_row("http_request_timeout"@, ""@, "--http-request-timeout"@, ""@, CliSchemaValueKind::Scalar, "100"@, "DownloadOptions::http_request_timeout"@, CliApiBinding::OptionField, true);
    lemma_row("log_level"@, ""@, "--log-level"@, ""@, CliSchemaValueKind::Scalar, "INFO"@, "DownloadOptions::log_level"@, CliApiBinding::OptionField, true);
    lemma_row("no_log"@, ""@, "--no-log"@, ""@, CliSchemaValueKind::Flag, "false"@, "DownloadOptions::no_log"@, CliApiBinding::OptionField, true);
    lemma_row("force_ansi_console"@, ""@, "--force-ansi-console"@, ""@, CliSchemaValueKind::Flag, "false"@, "DownloadOptions::force_ansi_console"@, CliApiBinding::OptionField, true);
    lemma_row("no_ansi_color"@, ""@, "--no-ansi-color"@, ""@, CliSchemaValueKind::Flag, "false"@, "DownloadOptions::no_ansi_color"@, CliApiBinding::OptionField, true);
}

proof fn lemma_rows_3()
    ensures
        forall|i: int| 0 <= i < rows_3().len() ==> row_is_read(#[trigger] rows_3()[i]),
{
    lemma_row("disable_update_check"@, ""@, "--disable-update-check"@, ""@, CliSchemaValueKind::Flag, "false"@, "DownloadOptions::disable_update_check"@, CliApiBinding::OptionField, true);
    lemma_row("auto_select"@, ""@, "--auto-select"@, ""@, CliSchemaValueKind::Flag, "false"@, "DownloadOptions::auto_select"@, CliApiBinding::OptionField, true);
    lemma_row("sub_only"@, ""@, "--sub-only"@, ""@, CliSchemaValueKind::Flag, "false"@, "DownloadOptions::sub_only"@, CliApiBinding::OptionField, true);
    lemma_row("select_video"@, "-sv"@, "--select-video"@, ""@, CliSchemaValueKind::Repeatable, "none"@, "DownloadOptions::select_video"@, CliApiBinding::OptionField, true);
    lemma_row("select_audio"@, "-sa"@, "--select-audio"@, ""@, CliSchemaValueKind::Repeatable, "none"@, "DownloadOptions::select_audio"@, CliApiBinding::OptionField, true);
    lemma_row("select_subtitle"@, "-ss"@, "--select-subtitle"@, ""@, CliSchemaValueKind::Repeatable, "none"@, "DownloadOptions::select_subtitle"@, CliApiBinding::OptionField, true);
    lemma_row("drop_video"@, "-dv"@, "--drop-video"@, ""@, CliSchemaValueKind::Repeatable, "none"@, "DownloadOptions::drop_video"@, CliApiBinding::OptionField, true);
    lemma_row("drop_audio"@, "-da"@, "--drop-audio"@, ""@, CliSchemaValueKind::Repeatable, "none"@, "DownloadOptions::drop_audio"@, CliApiBinding::OptionField, true);
    lemma_row("drop_subtitle"@, "-ds"@, "--drop-subtitle"@, ""@, CliSchemaValueKind::Repeatable, "none"@, "DownloadOptions::drop_subtitle"@, CliApiBinding::OptionField, true);
    lemma_row("custom_range"@, ""@, "--custom-range"@, ""@, CliSchemaValueKind::Scalar, "none"@, "DownloadOptions::custom_range"@, CliApiBinding::OptionField, true);
    lemma_row("ad_keyword"@, ""@, "--ad-keyword"@, ""@, CliSchemaValueKind::Repeatable, "none"@, "DownloadOptions::ad_keywords"@, CliApiBinding::OptionField, true);
    lemma_row("thread_count"@, ""@, "--thread-count"@, ""@, CliSchemaValueKind::Scalar, "logical processor count"@, "DownloadOptions::thread_count"@, CliApiBinding::OptionField, true);
}

proof fn lemma_rows_4()
    ensures
        forall|i: int| 0 <= i < rows_4().len() ==> row_is_read(#[trigger] rows_4()[i]),
{
    lemma_row("download_retry_count"@, ""@, "--download-retry-count"@, ""@, CliSchemaValueKind::Scalar, "3"@, "DownloadOptions::download_retry_count"@, CliApiBinding::OptionField, true);
    lemma_row("max_speed"@, "-R"@, "--max-speed"@, ""@, CliSchemaValueKind::Scalar, "none"@, "DownloadOptions::max_speed"@, CliApiBinding::OptionField, true);
    lemma_row("concurrent_download"@, "-mt"@, "--concurrent-download"@, ""@, CliSchemaValueKind::Flag, "false"@, "DownloadOptions::concurrent_download"@, CliApiBinding::OptionField, true);
    lemma_row("skip_download"@, ""@, "--skip-download"@, ""@, CliSchemaValueKind::Flag, "false"@, "DownloadOptions::skip_download"@, CliApiBinding::OptionField, true);
    lemma_row("skip_merge"@, ""@, "--skip-merge"@, ""@, CliSchemaValueKind::Flag, "false"@, "DownloadOptions::skip_merge"@, CliApiBinding::OptionField, true);
    lemma_row("binary_merge"@, ""@, "--binary-merge"@, ""@, CliSchemaValueKind::Flag, "false"@, "DownloadOptions::binary_merge"@, CliApiBinding::OptionField, true);
    lemma_row("use_ffmpeg_concat_demuxer"@, ""@, "--use-ffmpeg-concat-demuxer"@, ""@, CliSchemaValueKind::Flag, "false"@, "DownloadOptions::use_ffmpeg_concat_demuxer"@, CliApiBinding::OptionField, true);
    lemma_row("del_after_done"@, ""@, "--del-after-done"@, ""@, CliSchemaValueKind::Flag, "true"@, "DownloadOptions::del_after_done"@, CliApiBinding::OptionField, true);
    lemma_row("check_segments_count"@, ""@, "--check-segments-count"@, ""@, CliSchemaValueKind::Flag, "true"@, "DownloadOptions::check_segments_count"@, CliApiBinding::OptionField, true);
    lemma_row("write_meta_json"@, ""@, "--write-meta-json"@, ""@, CliSchemaValueKind::Flag, "true"@, "DownloadOptions::write_meta_json"@, CliApiBinding::OptionField, true);
    lemma_row("no_date_info"@, ""@, "--no-date-info"@, ""@, CliSchemaValueKind::Flag, "false"@, "DownloadOptions::no_date_info"@, CliApiBinding::OptionField, true);
    lemma_row("auto_subtitle_fix"@, ""@, "--auto-subtitle-fix"@, ""@, CliSchemaValueKind::Flag, "true"@, "DownloadOptions::auto_subtitle_fix"@, CliApiBinding::OptionField, true);
}

proof fn lemma_rows_5()
    ensures
        forall|i: int| 0 <= i < rows_5().len() ==> row_is_read(#[trigger] rows_5()[i]),
{
    lemma_row("sub_format"@, ""@, "--sub-format"@, ""@, CliSchemaValueKind::Scalar, "SRT"@, "DownloadOptions::sub_format"@, CliApiBinding::OptionField, true);
    lemma_row("ffmpeg_binary_path"@, ""@, "--ffmpeg-binary-path"@, ""@, CliSchemaValueKind::Scalar, "auto"@, "DownloadOptions::ffmpeg_binary_path"@, CliApiBinding::OptionField, true);
    lemma_row("mkvmerge_binary_path"@, ""@, "--mkvmerge-binary-path"@, ""@, CliSchemaValueKind::Scalar, "auto"@, "DownloadOptions::mkvmerge_binary_path"@, CliApiBinding::OptionField, true);
    lemma_row("mux_after_done"@, "-M"@, "--mux-after-done"@, ""@, CliSchemaValueKind::Complex, "none"@, "DownloadOptions::mux_after_done"@, CliApiBinding::OptionField, true);
    lemma_row("mux_import"@, ""@, "--mux-import"@, ""@, CliSchemaValueKind::Repeatable, "none"@, "DownloadOptions::mux_imports"@, CliApiBinding::OptionField, true);
    lemma_row("custom_hls_method"@, ""@, "--custom-hls-method"@, ""@, CliSchemaValueKind::Scalar, "none"@, "DownloadOptions::custom_hls_method"@, CliApiBinding::OptionField, true);
    lemma_row("custom_hls_key"@, ""@, "--custom-hls-key"@, ""@, CliSchemaValueKind::Scalar, "none"@, "DownloadOptions::custom_hls_key"@, CliApiBinding::OptionField, true);
    lemma_row("custom_hls_iv"@, ""@, "--custom-hls-iv"@, ""@, CliSchemaValueKind::Scalar, "none"@, "DownloadOptions::custom_hls_iv"@, CliApiBinding::OptionField, true);
    lemma_row("allow_hls_multi_ext_map"@, ""@, "--allow-hls-multi-ext-map"@, ""@, CliSchemaValueKind::Flag, "false"@, "DownloadOptions::allow_hls_multi_ext_map"@, CliApiBinding::OptionField, true);
    lemma_row("task_start_at"@, ""@, "--task-start-at"@, ""@, CliSchemaValueKind::Scalar, "none"@, "DownloadOptions::task_start_at"@, CliApiBinding::OptionField, true);
    lemma_row("live_perform_as_vod"@, ""@, "--live-perform-as-vod"@, ""@, CliSchemaValueKind::Flag, "false"@, "DownloadOptions::live_perform_as_vod"@, CliApiBinding::OptionField, true);
    lemma_row("live_real_time_merge"@, ""@, "--live-real-time-merge"@, ""@, CliSchemaValueKind::Flag, "false"@, "DownloadOptions::live_real_time_merge"@, CliApiBinding::OptionField, true);
    lemma_row("live_keep_segments"@, ""@, "--live-keep-segments"@, ""@, CliSchemaValueKind::Flag, "true"@, "DownloadOptions::live_keep_segments"@, CliApiBinding::OptionField, true);
}

proof fn lemma_rows_6()
    ensures
        forall|i: int| 0 <= i < rows_6().len() ==> row_is_read(#[trigger] rows_6()[i]),
{
    lemma_row("live_pipe_mux"@, ""@, "--live-pipe-mux"@, ""@, CliSchemaValueKind::Flag, "false"@, "DownloadOptions::live_pipe_mux"@, CliApiBinding::OptionField, true);
    lemma_row("live_fix_vtt_by_audio"@, ""@, "--live-fix-vtt-by-audio"@, ""@, CliSchemaValueKind::Flag, "false"@, "DownloadOptions::live_fix_vtt_by_audio"@, CliApiBinding::OptionField, true);
    lemma_row("live_record_limit"@, ""@, "--live-record-limit"@, ""@, CliSchemaValueKind::Scalar, "none"@, "DownloadOptions::live_record_limit"@, CliApiBinding::OptionField, true);
    lemma_row("live_wait_time"@, ""@, "--live-wait-time"@, ""@, CliSchemaValueKind::Scalar, "none"@, "DownloadOptions::live_wait_time"@, CliApiBinding::OptionField, true);
    lemma_row("live_take_count"@, ""@, "--live-take-count"@, ""@, CliSchemaValueKind::Scalar, "16"@, "DownloadOptions::live_take_count"@, CliApiBinding::OptionField, true);
    lemma_row("help"@, "-?"@, "-h"@, "--help"@, CliSchemaValueKind::Flag, "false"@, "CliParseResult::Help"@, CliApiBinding::CliOnly, true);
    lemma_row("version"@, ""@, "--version"@, ""@, CliSchemaValueKind::Flag, "false"@, "CliParseResult::Version"@, CliApiBinding::CliOnly, true);
    lemma_row("morehelp"@, ""@, "--morehelp"@, ""@, CliSchemaValueKind::Scalar, "none"@, "CliParseResult::MoreHelp"@, CliApiBinding::CliOnly, true);
}

/// Every name that the table of options gives is read by the parser, with values of the kind that
/// the table says.
pub proof fn law_every_listed_option_is_read()
    ensures
        forall|i: int| 0 <= i < schema().len() ==> row_is_read(#[trigger] schema()[i]),
{
    lemma_rows_1();
    lemma_rows_2();
    lemma_rows_3();
    lemma_rows_4();
    lemma_rows_5();
    lemma_rows_6();
    assert forall|i: int| 0 <= i < schema().len() implies row_is_read(#[trigger] schema()[i]) by {
        let a = rows_1().len() as int;
        let b = a + rows_2().len();
        let c = b + rows_3().len();
        let d = c + rows_4().len();
        let e = d + rows_5().len();
        if i < a {
            assert(schema()[i] == rows_1()[i]);
        } else if i < b {
            assert(schema()[i] == rows_2()[i - a]);
        } else if i < c {
            assert(schema()[i] == rows_3()[i - b]);
        } else if i < d {
            assert(schema()[i] == rows_4()[i - c]);
        } else if i < e {
            assert(schema()[i] == rows_5()[i - d]);
        } else {
            assert(schema()[i] == rows_6()[i - e]);
        }
    }
}

} // verus!
