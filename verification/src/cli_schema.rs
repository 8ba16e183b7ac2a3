//! The options that the command line knows, and the help page that lists them.

use crate::text::{cat2, cat4, join, join_texts, owned, same};
use vstd::prelude::*;

verus! {

/// How an option takes its value.
#[derive(Clone, Copy, Debug, PartialEq, Eq, Structural)]
pub enum CliSchemaValueKind {
    Positional,
    Flag,
    Scalar,
    Repeatable,
    Complex,
}

/// What an option sets.
#[derive(Clone, Copy, Debug, PartialEq, Eq, Structural)]
pub enum CliApiBinding {
    RequestField,
    OptionField,
    CliOnly,
}

/// One option.
#[derive(Debug)]
pub struct CliOptionSchema {
    pub canonical: &'static str,
    pub aliases: Vec<&'static str>,
    pub value_kind: CliSchemaValueKind,
    pub default: &'static str,
    pub api_member: &'static str,
    pub api_binding: CliApiBinding,
    pub show_in_help: bool,
}

/// Model of `CliOptionSchema`.
pub struct CliOptionSchemaView {
    pub canonical: Seq<char>,
    pub aliases: Seq<Seq<char>>,
    pub value_kind: CliSchemaValueKind,
    pub default: Seq<char>,
    pub api_member: Seq<char>,
    pub api_binding: CliApiBinding,
    pub show_in_help: bool,
}

impl DeepView for CliOptionSchema {
    type V = CliOptionSchemaView;

    open spec fn deep_view(&self) -> CliOptionSchemaView {
        CliOptionSchemaView {
            canonical: self.canonical@,
            aliases: self.aliases.deep_view(),
            value_kind: self.value_kind,
            default: self.default@,
            api_member: self.api_member@,
            api_binding: self.api_binding,
            show_in_help: self.show_in_help,
        }
    }
}

/// One option with at most three names; an empty name is none.
pub open spec fn row(
    canonical: Seq<char>,
    short: Seq<char>,
    long: Seq<char>,
    extra: Seq<char>,
    value_kind: CliSchemaValueKind,
    default: Seq<char>,
    api_member: Seq<char>,
    api_binding: CliApiBinding,
    show_in_help: bool,
) -> CliOptionSchemaView {
    CliOptionSchemaView {
        canonical,
        aliases: if short == ""@ {
            if long == ""@ {
                Seq::empty()
            } else {
                seq![long]
            }
        } else if extra == ""@ {
            seq![short, long]
        } else {
            seq![short, long, extra]
        },
        value_kind,
        default,
        api_member,
        api_binding,
        show_in_help,
    }
}

fn schema_row(
    canonical: &'static str,
    short: &'static str,
    long: &'static str,
    extra: &'static str,
    value_kind: CliSchemaValueKind,
    default: &'static str,
    api_member: &'static str,
    api_binding: CliApiBinding,
    show_in_help: bool,
) -> (r: CliOptionSchema)
    ensures
        r.deep_view() == row(
            canonical@,
            short@,
            long@,
            extra@,
            value_kind,
            default@,
            api_member@,
            api_binding,
            show_in_help,
        ),
{
    let mut aliases: Vec<&'static str> = Vec::new();
    if same(short, "") {
        if !same(long, "") {
            aliases.push(long);
        }
    } else {
        aliases.push(short);
        aliases.push(long);
        if !same(extra, "") {
            aliases.push(extra);
        }
    }
    let r = CliOptionSchema {
        canonical,
        aliases,
        value_kind,
        default,
        api_member,
        api_binding,
        show_in_help,
    };
    assert(r.aliases.deep_view() =~= row(
        canonical@,
        short@,
        long@,
        extra@,
        value_kind,
        default@,
        api_member@,
        api_binding,
        show_in_help,
    ).aliases);
    r
}

/// Part 1 of the options.
pub open spec fn rows_1() -> Seq<CliOptionSchemaView> {
    seq![
        row("input"@, ""@, ""@, ""@, CliSchemaValueKind::Positional, "required"@, "DownloadRequest::input"@, CliApiBinding::RequestField, true),
        row("tmp_dir"@, ""@, "--tmp-dir"@, ""@, CliSchemaValueKind::Scalar, "none"@, "DownloadOptions::tmp_dir"@, CliApiBinding::OptionField, true),
        row("save_dir"@, ""@, "--save-dir"@, ""@, CliSchemaValueKind::Scalar, "current working directory"@, "DownloadOptions::save_dir"@, CliApiBinding::OptionField, true),
        row("save_name"@, ""@, "--save-name"@, ""@, CliSchemaValueKind::Scalar, "none"@, "DownloadOptions::save_name"@, CliApiBinding::OptionField, true),
        row("save_pattern"@, ""@, "--save-pattern"@, ""@, CliSchemaValueKind::Scalar, "none"@, "DownloadOptions::save_pattern"@, CliApiBinding::OptionField, true),
        row("log_file_path"@, ""@, "--log-file-path"@, ""@, CliSchemaValueKind::Scalar, "none"@, "DownloadOptions::log_file_path"@, CliApiBinding::OptionField, true),
        row("ui_language"@, ""@, "--ui-language"@, ""@, CliSchemaValueKind::Scalar, "auto"@, "DownloadOptions::ui_language"@, CliApiBinding::OptionField, true),
        row("urlprocessor_args"@, ""@, "--urlprocessor-args"@, ""@, CliSchemaValueKind::Scalar, "none"@, "DownloadOptions::urlprocessor_args"@, CliApiBinding::OptionField, true),
        row("key_text_file"@, ""@, "--key-text-file"@, ""@, CliSchemaValueKind::Scalar, "none"@, "DownloadOptions::key_text_file"@, CliApiBinding::OptionField, true),
        row("key"@, ""@, "--key"@, ""@, CliSchemaValueKind::Repeatable, "none"@, "DownloadOptions::keys"@, CliApiBinding::OptionField, true),
        row("decryption_engine"@, ""@, "--decryption-engine"@, ""@, CliSchemaValueKind::Scalar, "mp4forge"@, "DownloadOptions::decryption_engine"@, CliApiBinding::OptionField, true),
        row("decryption_binary_path"@, ""@, "--decryption-binary-path"@, ""@, CliSchemaValueKind::Scalar, "auto"@, "DownloadOptions::decryption_binary_path"@, CliApiBinding::OptionField, true),
    ]
}

fn add_rows_1(v: &mut Vec<CliOptionSchema>)
    ensures
        final(v).deep_view() == old(v).deep_view() + rows_1(),
{
    let ghost before = v.deep_view();
    v.push(schema_row("input", "", "", "", CliSchemaValueKind::Positional, "required", "DownloadRequest::input", CliApiBinding::RequestField, true));
    v.push(schema_row("tmp_dir", "", "--tmp-dir", "", CliSchemaValueKind::Scalar, "none", "DownloadOptions::tmp_dir", CliApiBinding::OptionField, true));
    v.push(schema_row("save_dir", "", "--save-dir", "", CliSchemaValueKind::Scalar, "current working directory", "DownloadOptions::save_dir", CliApiBinding::OptionField, true));
    v.push(schema_row("save_name", "", "--save-name", "", CliSchemaValueKind::Scalar, "none", "DownloadOptions::save_name", CliApiBinding::OptionField, true));
    v.push(schema_row("save_pattern", "", "--save-pattern", "", CliSchemaValueKind::Scalar, "none", "DownloadOptions::save_pattern", CliApiBinding::OptionField, true));
    v.push(schema_row("log_file_path", "", "--log-file-path", "", CliSchemaValueKind::Scalar, "none", "DownloadOptions::log_file_path", CliApiBinding::OptionField, true));
    v.push(schema_row("ui_language", "", "--ui-language", "", CliSchemaValueKind::Scalar, "auto", "DownloadOptions::ui_language", CliApiBinding::OptionField, true));
    v.push(schema_row("urlprocessor_args", "", "--urlprocessor-args", "", CliSchemaValueKind::Scalar, "none", "DownloadOptions::urlprocessor_args", CliApiBinding::OptionField, true));
    v.push(schema_row("key_text_file", "", "--key-text-file", "", CliSchemaValueKind::Scalar, "none", "DownloadOptions::key_text_file", CliApiBinding::OptionField, true));
    v.push(schema_row("key", "", "--key", "", CliSchemaValueKind::Repeatable, "none", "DownloadOptions::keys", CliApiBinding::OptionField, true));
    v.push(schema_row("decryption_engine", "", "--decryption-engine", "", CliSchemaValueKind::Scalar, "mp4forge", "DownloadOptions::decryption_engine", CliApiBinding::OptionField, true));
    v.push(schema_row("decryption_binary_path", "", "--decryption-binary-path", "", CliSchemaValueKind::Scalar, "auto", "DownloadOptions::decryption_binary_path", CliApiBinding::OptionField, true));
    assert(v.deep_view() =~= before + rows_1());
}

/// Part 2 of the options.
pub open spec fn rows_2() -> Seq<CliOptionSchemaView> {
    seq![
        row("mp4_real_time_decryption"@, ""@, "--mp4-real-time-decryption"@, ""@, CliSchemaValueKind::Flag, "false"@, "DownloadOptions::mp4_real_time_decryption"@, CliApiBinding::OptionField, true),
        row("use_shaka_packager"@, ""@, "--use-shaka-packager"@, ""@, CliSchemaValueKind::Flag, "false"@, "DownloadOptions::use_shaka_packager"@, CliApiBinding::OptionField, false),
        row("header"@, "-H"@, "--header"@, ""@, CliSchemaValueKind::Repeatable, "none"@, "DownloadOptions::headers"@, CliApiBinding::OptionField, true),
        row("base_url"@, ""@, "--base-url"@, ""@, CliSchemaValueKind::Scalar, "none"@, "DownloadOptions::base_url"@, CliApiBinding::OptionField, true),
        row("append_url_params"@, ""@, "--append-url-params"@, ""@, CliSchemaValueKind::Flag, "false"@, "DownloadOptions::append_url_params"@, CliApiBinding::OptionField, true),
        row("use_system_proxy"@, ""@, "--use-system-proxy"@, ""@, CliSchemaValueKind::Flag, "true"@, "DownloadOptions::use_system_proxy"@, CliApiBinding::OptionField, true),
        row("custom_proxy"@, ""@, "--custom-proxy"@, ""@, CliSchemaValueKind::Scalar, "none"@, "DownloadOptions::custom_proxy"@, CliApiBinding::OptionField, true),
        row("http_request_timeout"@, ""@, "--http-request-timeout"@, ""@, CliSchemaValueKind::Scalar, "100"@, "DownloadOptions::http_request_timeout"@, CliApiBinding::OptionField, true),
        row("log_level"@, ""@, "--log-level"@, ""@, CliSchemaValueKind::Scalar, "INFO"@, "DownloadOptions::log_level"@, CliApiBinding::OptionField, true),
        row("no_log"@, ""@, "--no-log"@, ""@, CliSchemaValueKind::Flag, "false"@, "DownloadOptions::no_log"@, CliApiBinding::OptionField, true),
        row("force_ansi_console"@, ""@, "--force-ansi-console"@, ""@, CliSchemaValueKind::Flag, "false"@, "DownloadOptions::force_ansi_console"@, CliApiBinding::OptionField, true),
        row("no_ansi_color"@, ""@, "--no-ansi-color"@, ""@, CliSchemaValueKind::Flag, "false"@, "DownloadOptions::no_ansi_color"@, CliApiBinding::OptionField, true),
    ]
}

fn add_rows_2(v: &mut Vec<CliOptionSchema>)
    ensures
        final(v).deep_view() == old(v).deep_view() + rows_2(),
{
    let ghost before = v.deep_view();
    v.push(schema_row("mp4_real_time_decryption", "", "--mp4-real-time-decryption", "", CliSchemaValueKind::Flag, "false", "DownloadOptions::mp4_real_time_decryption", CliApiBinding::OptionField, true));
    v.push(schema_row("use_shaka_packager", "", "--use-shaka-packager", "", CliSchemaValueKind::Flag, "false", "DownloadOptions::use_shaka_packager", CliApiBinding::OptionField, false));
    v.push(schema_row("header", "-H", "--header", "", CliSchemaValueKind::Repeatable, "none", "DownloadOptions::headers", CliApiBinding::OptionField, true));
    v.push(schema_row("base_url", "", "--base-url", "", CliSchemaValueKind::Scalar, "none", "DownloadOptions::base_url", CliApiBinding::OptionField, true));
    v.push(schema_row("append_url_params", "", "--append-url-params", "", CliSchemaValueKind::Flag, "false", "DownloadOptions::append_url_params", CliApiBinding::OptionField, true));
    v.push(schema_row("use_system_proxy", "", "--use-system-proxy", "", CliSchemaValueKind::Flag, "true", "DownloadOptions::use_system_proxy", CliApiBinding::OptionField, true));
    v.push(schema_row("custom_proxy", "", "--custom-proxy", "", CliSchemaValueKind::Scalar, "none", "DownloadOptions::custom_proxy", CliApiBinding::OptionField, true));
    v.push(schema_row("http_request_timeout", "", "--http-request-timeout", "", CliSchemaValueKind::Scalar, "100", "DownloadOptions::http_request_timeout", CliApiBinding::OptionField, true));
    v.push(schema_row("log_level", "", "--log-level", "", CliSchemaValueKind::Scalar, "INFO", "DownloadOptions::log_level", CliApiBinding::OptionField, true));
    v.push(schema_row("no_log", "", "--no-log", "", CliSchemaValueKind::Flag, "false", "DownloadOptions::no_log", CliApiBinding::OptionField, true));
    v.push(schema_row("force_ansi_console", "", "--force-ansi-console", "", CliSchemaValueKind::Flag, "false", "DownloadOptions::force_ansi_console", CliApiBinding::OptionField, true));
    v.push(schema_row("no_ansi_color", "", "--no-ansi-color", "", CliSchemaValueKind::Flag, "false", "DownloadOptions::no_ansi_color", CliApiBinding::OptionField, true));
    assert(v.deep_view() =~= before + rows_2());
}

/// Part 3 of the options.
pub open spec fn rows_3() -> Seq<CliOptionSchemaView> {
    seq![
        row("disable_update_check"@, ""@, "--disable-update-check"@, ""@, CliSchemaValueKind::Flag, "false"@, "DownloadOptions::disable_update_check"@, CliApiBinding::OptionField, true),
        row("auto_select"@, ""@, "--auto-select"@, ""@, CliSchemaValueKind::Flag, "false"@, "DownloadOptions::auto_select"@, CliApiBinding::OptionField, true),
        row("sub_only"@, ""@, "--sub-only"@, ""@, CliSchemaValueKind::Flag, "false"@, "DownloadOptions::sub_only"@, CliApiBinding::OptionField, true),
        row("select_video"@, "-sv"@, "--select-video"@, ""@, CliSchemaValueKind::Repeatable, "none"@, "DownloadOptions::select_video"@, CliApiBinding::OptionField, true),
        row("select_audio"@, "-sa"@, "--select-audio"@, ""@, CliSchemaValueKind::Repeatable, "none"@, "DownloadOptions::select_audio"@, CliApiBinding::OptionField, true),
        row("select_subtitle"@, "-ss"@, "--select-subtitle"@, ""@, CliSchemaValueKind::Repeatable, "none"@, "DownloadOptions::select_subtitle"@, CliApiBinding::OptionField, true),
        row("drop_video"@, "-dv"@, "--drop-video"@, ""@, CliSchemaValueKind::Repeatable, "none"@, "DownloadOptions::drop_video"@, CliApiBinding::OptionField, true),
        row("drop_audio"@, "-da"@, "--drop-audio"@, ""@, CliSchemaValueKind::Repeatable, "none"@, "DownloadOptions::drop_audio"@, CliApiBinding::OptionField, true),
        row("drop_subtitle"@, "-ds"@, "--drop-subtitle"@, ""@, CliSchemaValueKind::Repeatable, "none"@, "DownloadOptions::drop_subtitle"@, CliApiBinding::OptionField, true),
        row("custom_range"@, ""@, "--custom-range"@, ""@, CliSchemaValueKind::Scalar, "none"@, "DownloadOptions::custom_range"@, CliApiBinding::OptionField, true),
        row("ad_keyword"@, ""@, "--ad-keyword"@, ""@, CliSchemaValueKind::Repeatable, "none"@, "DownloadOptions::ad_keywords"@, CliApiBinding::OptionField, true),
        row("thread_count"@, ""@, "--thread-count"@, ""@, CliSchemaValueKind::Scalar, "logical processor count"@, "DownloadOptions::thread_count"@, CliApiBinding::OptionField, true),
    ]
}

fn add_rows_3(v: &mut Vec<CliOptionSchema>)
    ensures
        final(v).deep_view() == old(v).deep_view() + rows_3(),
{
    let ghost before = v.deep_view();
    v.push(schema_row("disable_update_check", "", "--disable-update-check", "", CliSchemaValueKind::Flag, "false", "DownloadOptions::disable_update_check", CliApiBinding::OptionField, true));
    v.push(schema_row("auto_select", "", "--auto-select", "", CliSchemaValueKind::Flag, "false", "DownloadOptions::auto_select", CliApiBinding::OptionField, true));
    v.push(schema_row("sub_only", "", "--sub-only", "", CliSchemaValueKind::Flag, "false", "DownloadOptions::sub_only", CliApiBinding::OptionField, true));
    v.push(schema_row("select_video", "-sv", "--select-video", "", CliSchemaValueKind::Repeatable, "none", "DownloadOptions::select_video", CliApiBinding::OptionField, true));
    v.push(schema_row("select_audio", "-sa", "--select-audio", "", CliSchemaValueKind::Repeatable, "none", "DownloadOptions::select_audio", CliApiBinding::OptionField, true));
    v.push(schema_row("select_subtitle", "-ss", "--select-subtitle", "", CliSchemaValueKind::Repeatable, "none", "DownloadOptions::select_subtitle", CliApiBinding::OptionField, true));
    v.push(schema_row("drop_video", "-dv", "--drop-video", "", CliSchemaValueKind::Repeatable, "none", "DownloadOptions::drop_video", CliApiBinding::OptionField, true));
    v.push(schema_row("drop_audio", "-da", "--drop-audio", "", CliSchemaValueKind::Repeatable, "none", "DownloadOptions::drop_audio", CliApiBinding::OptionField, true));
    v.push(schema_row("drop_subtitle", "-ds", "--drop-subtitle", "", CliSchemaValueKind::Repeatable, "none", "DownloadOptions::drop_subtitle", CliApiBinding::OptionField, true));
    v.push(schema_row("custom_range", "", "--custom-range", "", CliSchemaValueKind::Scalar, "none", "DownloadOptions::custom_range", CliApiBinding::OptionField, true));
    v.push(schema_row("ad_keyword", "", "--ad-keyword", "", CliSchemaValueKind::Repeatable, "none", "DownloadOptions::ad_keywords", CliApiBinding::OptionField, true));
    v.push(schema_row("thread_count", "", "--thread-count", "", CliSchemaValueKind::Scalar, "logical processor count", "DownloadOptions::thread_count", CliApiBinding::OptionField, true));
    assert(v.deep_view() =~= before + rows_3());
}

/// Part 4 of the options.
pub open spec fn rows_4() -> Seq<CliOptionSchemaView> {
    seq![
        row("download_retry_count"@, ""@, "--download-retry-count"@, ""@, CliSchemaValueKind::Scalar, "3"@, "DownloadOptions::download_retry_count"@, CliApiBinding::OptionField, true),
        row("max_speed"@, "-R"@, "--max-speed"@, ""@, CliSchemaValueKind::Scalar, "none"@, "DownloadOptions::max_speed"@, CliApiBinding::OptionField, true),
        row("concurrent_download"@, "-mt"@, "--concurrent-download"@, ""@, CliSchemaValueKind::Flag, "false"@, "DownloadOptions::concurrent_download"@, CliApiBinding::OptionField, true),
        row("skip_download"@, ""@, "--skip-download"@, ""@, CliSchemaValueKind::Flag, "false"@, "DownloadOptions::skip_download"@, CliApiBinding::OptionField, true),
        row("skip_merge"@, ""@, "--skip-merge"@, ""@, CliSchemaValueKind::Flag, "false"@, "DownloadOptions::skip_merge"@, CliApiBinding::OptionField, true),
        row("binary_merge"@, ""@, "--binary-merge"@, ""@, CliSchemaValueKind::Flag, "false"@, "DownloadOptions::binary_merge"@, CliApiBinding::OptionField, true),
        row("use_ffmpeg_concat_demuxer"@, ""@, "--use-ffmpeg-concat-demuxer"@, ""@, CliSchemaValueKind::Flag, "false"@, "DownloadOptions::use_ffmpeg_concat_demuxer"@, CliApiBinding::OptionField, true),
        row("del_after_done"@, ""@, "--del-after-done"@, ""@, CliSchemaValueKind::Flag, "true"@, "DownloadOptions::del_after_done"@, CliApiBinding::OptionField, true),
        row("check_segments_count"@, ""@, "--check-segments-count"@, ""@, CliSchemaValueKind::Flag, "true"@, "DownloadOptions::check_segments_count"@, CliApiBinding::OptionField, true),
        row("write_meta_json"@, ""@, "--write-meta-json"@, ""@, CliSchemaValueKind::Flag, "true"@, "DownloadOptions::write_meta_json"@, CliApiBinding::OptionField, true),
        row("no_date_info"@, ""@, "--no-date-info"@, ""@, CliSchemaValueKind::Flag, "false"@, "DownloadOptions::no_date_info"@, CliApiBinding::OptionField, true),
        row("auto_subtitle_fix"@, ""@, "--auto-subtitle-fix"@, ""@, CliSchemaValueKind::Flag, "true"@, "DownloadOptions::auto_subtitle_fix"@, CliApiBinding::OptionField, true),
    ]
}

fn add_rows_4(v: &mut Vec<CliOptionSchema>)
    ensures
        final(v).deep_view() == old(v).deep_view() + rows_4(),
{
    let ghost before = v.deep_view();
    v.push(schema_row("download_retry_count", "", "--download-retry-count", "", CliSchemaValueKind::Scalar, "3", "DownloadOptions::download_retry_count", CliApiBinding::OptionField, true));
    v.push(schema_row("max_speed", "-R", "--max-speed", "", CliSchemaValueKind::Scalar, "none", "DownloadOptions::max_speed", CliApiBinding::OptionField, true));
    v.push(schema_row("concurrent_download", "-mt", "--concurrent-download", "", CliSchemaValueKind::Flag, "false", "DownloadOptions::concurrent_download", CliApiBinding::OptionField, true));
    v.push(schema_row("skip_download", "", "--skip-download", "", CliSchemaValueKind::Flag, "false", "DownloadOptions::skip_download", CliApiBinding::OptionField, true));
    v.push(schema_row("skip_merge", "", "--skip-merge", "", CliSchemaValueKind::Flag, "false", "DownloadOptions::skip_merge", CliApiBinding::OptionField, true));
    v.push(schema_row("binary_merge", "", "--binary-merge", "", CliSchemaValueKind::Flag, "false", "DownloadOptions::binary_merge", CliApiBinding::OptionField, true));
    v.push(schema_row("use_ffmpeg_concat_demuxer", "", "--use-ffmpeg-concat-demuxer", "", CliSchemaValueKind::Flag, "false", "DownloadOptions::use_ffmpeg_concat_demuxer", CliApiBinding::OptionField, true));
    v.push(schema_row("del_after_done", "", "--del-after-done", "", CliSchemaValueKind::Flag, "true", "DownloadOptions::del_after_done", CliApiBinding::OptionField, true));
    v.push(schema_row("check_segments_count", "", "--check-segments-count", "", CliSchemaValueKind::Flag, "true", "DownloadOptions::check_segments_count", CliApiBinding::OptionField, true));
    v.push(schema_row("write_meta_json", "", "--write-meta-json", "", CliSchemaValueKind::Flag, "true", "DownloadOptions::write_meta_json", CliApiBinding::OptionField, true));
    v.push(schema_row("no_date_info", "", "--no-date-info", "", CliSchemaValueKind::Flag, "false", "DownloadOptions::no_date_info", CliApiBinding::OptionField, true));
    v.push(schema_row("auto_subtitle_fix", "", "--auto-subtitle-fix", "", CliSchemaValueKind::Flag, "true", "DownloadOptions::auto_subtitle_fix", CliApiBinding::OptionField, true));
    assert(v.deep_view() =~= before + rows_4());
}

/// Part 5 of the options.
pub open spec fn rows_5() -> Seq<CliOptionSchemaView> {
    seq![
        row("sub_format"@, ""@, "--sub-format"@, ""@, CliSchemaValueKind::Scalar, "SRT"@, "DownloadOptions::sub_format"@, CliApiBinding::OptionField, true),
        row("ffmpeg_binary_path"@, ""@, "--ffmpeg-binary-path"@, ""@, CliSchemaValueKind::Scalar, "auto"@, "DownloadOptions::ffmpeg_binary_path"@, CliApiBinding::OptionField, true),
        row("mkvmerge_binary_path"@, ""@, "--mkvmerge-binary-path"@, ""@, CliSchemaValueKind::Scalar, "auto"@, "DownloadOptions::mkvmerge_binary_path"@, CliApiBinding::OptionField, true),
        row("mux_after_done"@, "-M"@, "--mux-after-done"@, ""@, CliSchemaValueKind::Complex, "none"@, "DownloadOptions::mux_after_done"@, CliApiBinding::OptionField, true),
        row("mux_import"@, ""@, "--mux-import"@, ""@, CliSchemaValueKind::Repeatable, "none"@, "DownloadOptions::mux_imports"@, CliApiBinding::OptionField, true),
        row("custom_hls_method"@, ""@, "--custom-hls-method"@, ""@, CliSchemaValueKind::Scalar, "none"@, "DownloadOptions::custom_hls_method"@, CliApiBinding::OptionField, true),
        row("custom_hls_key"@, ""@, "--custom-hls-key"@, ""@, CliSchemaValueKind::Scalar, "none"@, "DownloadOptions::custom_hls_key"@, CliApiBinding::OptionField, true),
        row("custom_hls_iv"@, ""@, "--custom-hls-iv"@, ""@, CliSchemaValueKind::Scalar, "none"@, "DownloadOptions::custom_hls_iv"@, CliApiBinding::OptionField, true),
        row("allow_hls_multi_ext_map"@, ""@, "--allow-hls-multi-ext-map"@, ""@, CliSchemaValueKind::Flag, "false"@, "DownloadOptions::allow_hls_multi_ext_map"@, CliApiBinding::OptionField, true),
        row("task_start_at"@, ""@, "--task-start-at"@, ""@, CliSchemaValueKind::Scalar, "none"@, "DownloadOptions::task_start_at"@, CliApiBinding::OptionField, true),
        row("live_perform_as_vod"@, ""@, "--live-perform-as-vod"@, ""@, CliSchemaValueKind::Flag, "false"@, "DownloadOptions::live_perform_as_vod"@, CliApiBinding::OptionField, true),
        row("live_real_time_merge"@, ""@, "--live-real-time-merge"@, ""@, CliSchemaValueKind::Flag, "false"@, "DownloadOptions::live_real_time_merge"@, CliApiBinding::OptionField, true),
        row("live_keep_segments"@, ""@, "--live-keep-segments"@, ""@, CliSchemaValueKind::Flag, "true"@, "DownloadOptions::live_keep_segments"@, CliApiBinding::OptionField, true),
    ]
}

fn add_rows_5(v: &mut Vec<CliOptionSchema>)
    ensures
        final(v).deep_view() == old(v).deep_view() + rows_5(),
{
    let ghost before = v.deep_view();
    v.push(schema_row("sub_format", "", "--sub-format", "", CliSchemaValueKind::Scalar, "SRT", "DownloadOptions::sub_format", CliApiBinding::OptionField, true));
    v.push(schema_row("ffmpeg_binary_path", "", "--ffmpeg-binary-path", "", CliSchemaValueKind::Scalar, "auto", "DownloadOptions::ffmpeg_binary_path", CliApiBinding::OptionField, true));
    v.push(schema_row("mkvmerge_binary_path", "", "--mkvmerge-binary-path", "", CliSchemaValueKind::Scalar, "auto", "DownloadOptions::mkvmerge_binary_path", CliApiBinding::OptionField, true));
    v.push(schema_row("mux_after_done", "-M", "--mux-after-done", "", CliSchemaValueKind::Complex, "none", "DownloadOptions::mux_after_done", CliApiBinding::OptionField, true));
    v.push(schema_row("mux_import", "", "--mux-import", "", CliSchemaValueKind::Repeatable, "none", "DownloadOptions::mux_imports", CliApiBinding::OptionField, true));
    v.push(schema_row("custom_hls_method", "", "--custom-hls-method", "", CliSchemaValueKind::Scalar, "none", "DownloadOptions::custom_hls_method", CliApiBinding::OptionField, true));
    v.push(schema_row("custom_hls_key", "", "--custom-hls-key", "", CliSchemaValueKind::Scalar, "none", "DownloadOptions::custom_hls_key", CliApiBinding::OptionField, true));
    v.push(schema_row("custom_hls_iv", "", "--custom-hls-iv", "", CliSchemaValueKind::Scalar, "none", "DownloadOptions::custom_hls_iv", CliApiBinding::OptionField, true));
    v.push(schema_row("allow_hls_multi_ext_map", "", "--allow-hls-multi-ext-map", "", CliSchemaValueKind::Flag, "false", "DownloadOptions::allow_hls_multi_ext_map", CliApiBinding::OptionField, true));
    v.push(schema_row("task_start_at", "", "--task-start-at", "", CliSchemaValueKind::Scalar, "none", "DownloadOptions::task_start_at", CliApiBinding::OptionField, true));
    v.push(schema_row("live_perform_as_vod", "", "--live-perform-as-vod", "", CliSchemaValueKind::Flag, "false", "DownloadOptions::live_perform_as_vod", CliApiBinding::OptionField, true));
    v.push(schema_row("live_real_time_merge", "", "--live-real-time-merge", "", CliSchemaValueKind::Flag, "false", "DownloadOptions::live_real_time_merge", CliApiBinding::OptionField, true));
    v.push(schema_row("live_keep_segments", "", "--live-keep-segments", "", CliSchemaValueKind::Flag, "true", "DownloadOptions::live_keep_segments", CliApiBinding::OptionField, true));
    assert(v.deep_view() =~= before + rows_5());
}

/// Part 6 of the options.
pub open spec fn rows_6() -> Seq<CliOptionSchemaView> {
    seq![
        row("live_pipe_mux"@, ""@, "--live-pipe-mux"@, ""@, CliSchemaValueKind::Flag, "false"@, "DownloadOptions::live_pipe_mux"@, CliApiBinding::OptionField, true),
        row("live_fix_vtt_by_audio"@, ""@, "--live-fix-vtt-by-audio"@, ""@, CliSchemaValueKind::Flag, "false"@, "DownloadOptions::live_fix_vtt_by_audio"@, CliApiBinding::OptionField, true),
        row("live_record_limit"@, ""@, "--live-record-limit"@, ""@, CliSchemaValueKind::Scalar, "none"@, "DownloadOptions::live_record_limit"@, CliApiBinding::OptionField, true),
        row("live_wait_time"@, ""@, "--live-wait-time"@, ""@, CliSchemaValueKind::Scalar, "none"@, "DownloadOptions::live_wait_time"@, CliApiBinding::OptionField, true),
        row("live_take_count"@, ""@, "--live-take-count"@, ""@, CliSchemaValueKind::Scalar, "16"@, "DownloadOptions::live_take_count"@, CliApiBinding::OptionField, true),
        row("help"@, "-?"@, "-h"@, "--help"@, CliSchemaValueKind::Flag, "false"@, "CliParseResult::Help"@, CliApiBinding::CliOnly, true),
        row("version"@, ""@, "--version"@, ""@, CliSchemaValueKind::Flag, "false"@, "CliParseResult::Version"@, CliApiBinding::CliOnly, true),
        row("morehelp"@, ""@, "--morehelp"@, ""@, CliSchemaValueKind::Scalar, "none"@, "CliParseResult::MoreHelp"@, CliApiBinding::CliOnly, true),
    ]
}

fn add_rows_6(v: &mut Vec<CliOptionSchema>)
    ensures
        final(v).deep_view() == old(v).deep_view() + rows_6(),
{
    let ghost before = v.deep_view();
    v.push(schema_row("live_pipe_mux", "", "--live-pipe-mux", "", CliSchemaValueKind::Flag, "false", "DownloadOptions::live_pipe_mux", CliApiBinding::OptionField, true));
    v.push(schema_row("live_fix_vtt_by_audio", "", "--live-fix-vtt-by-audio", "", CliSchemaValueKind::Flag, "false", "DownloadOptions::live_fix_vtt_by_audio", CliApiBinding::OptionField, true));
    v.push(schema_row("live_record_limit", "", "--live-record-limit", "", CliSchemaValueKind::Scalar, "none", "DownloadOptions::live_record_limit", CliApiBinding::OptionField, true));
    v.push(schema_row("live_wait_time", "", "--live-wait-time", "", CliSchemaValueKind::Scalar, "none", "DownloadOptions::live_wait_time", CliApiBinding::OptionField, true));
    v.push(schema_row("live_take_count", "", "--live-take-count", "", CliSchemaValueKind::Scalar, "16", "DownloadOptions::live_take_count", CliApiBinding::OptionField, true));
    v.push(schema_row("help", "-?", "-h", "--help", CliSchemaValueKind::Flag, "false", "CliParseResult::Help", CliApiBinding::CliOnly, true));
    v.push(schema_row("version", "", "--version", "", CliSchemaValueKind::Flag, "false", "CliParseResult::Version", CliApiBinding::CliOnly, true));
    v.push(schema_row("morehelp", "", "--morehelp", "", CliSchemaValueKind::Scalar, "none", "CliParseResult::MoreHelp", CliApiBinding::CliOnly, true));
    assert(v.deep_view() =~= before + rows_6());
}

/// All options, in the order of the help page.
pub open spec fn schema() -> Seq<CliOptionSchemaView> {
    rows_1() + rows_2() + rows_3() + rows_4() + rows_5() + rows_6()
}

/// All options, in the order of the help page.
pub fn cli_schema() -> (r: Vec<CliOptionSchema>)
    ensures
        r.deep_view() == schema(),
{
    let mut v: Vec<CliOptionSchema> = Vec::new();
    assert(v.deep_view() + rows_1() =~= rows_1());
    add_rows_1(&mut v);
    add_rows_2(&mut v);
    add_rows_3(&mut v);
    add_rows_4(&mut v);
    add_rows_5(&mut v);
    add_rows_6(&mut v);
    v
}

/// One line of the help page.
pub open spec fn option_line(r: CliOptionSchemaView) -> Seq<char> {
    if r.default == "none"@ || r.default == "false"@ {
        "  "@ + join(r.aliases, ", "@)
    } else {
        "  "@ + join(r.aliases, ", "@) + " [default: "@ + r.default + "]"@
    }
}

/// The lines of the options that the help page shows.
pub open spec fn option_lines(rows: Seq<CliOptionSchemaView>) -> Seq<Seq<char>>
    decreases rows.len(),
{
    if rows.len() == 0 {
        Seq::empty()
    } else if rows.last().value_kind != CliSchemaValueKind::Positional && rows.last().show_in_help {
        option_lines(rows.drop_last()).push(option_line(rows.last()))
    } else {
        option_lines(rows.drop_last())
    }
}

/// The help page.
pub open spec fn help_page() -> Seq<char> {
    "Description:\n  haki-dl 0.2.0\n\nUsage:\n  haki-dl <input> [options]\n\nArguments:\n  <input>  Input URL or file\n\nOptions:\n"@
        + join(option_lines(schema()), "\n"@)
}

fn help_line(r: &CliOptionSchema) -> (s: String)
    ensures
        s@ == option_line(r.deep_view()),
{
    let mut names: Vec<String> = Vec::new();
    let mut i: usize = 0;
    while i < r.aliases.len()
        invariant
            i <= r.aliases@.len(),
            names.deep_view() =~= r.aliases.deep_view().subrange(0, i as int),
        decreases r.aliases@.len() - i,
    {
        let name: String = owned(r.aliases[i]);
        let ghost before = names.deep_view();
        names.push(name);
        assert(names.deep_view() =~= before.push(name@));
        assert(r.aliases.deep_view()[i as int] == name@);
        i = i + 1;
    }
    assert(r.aliases.deep_view().subrange(0, r.aliases@.len() as int) =~= r.aliases.deep_view());
    let joined: String = join_texts(&names, ", ");
    let line: String = cat2("  ", joined.as_str());
    if same(r.default, "none") || same(r.default, "false") {
        line
    } else {
        cat4(line.as_str(), " [default: ", r.default, "]")
    }
}

/// The help page.
pub fn help_text() -> (r: String)
    ensures
        r@ == help_page(),
{
    let rows: Vec<CliOptionSchema> = cli_schema();
    let ghost all = rows.deep_view();
    let mut lines: Vec<String> = Vec::new();
    let mut i: usize = 0;
    assert(all.subrange(0, 0) =~= Seq::<CliOptionSchemaView>::empty());
    assert(lines.deep_view() =~= Seq::<Seq<char>>::empty());
    while i < rows.len()
        invariant
            i <= rows@.len(),
            all == rows.deep_view(),
            lines.deep_view() == option_lines(all.subrange(0, i as int)),
        decreases rows@.len() - i,
    {
        assert(all.subrange(0, i + 1).drop_last() =~= all.subrange(0, i as int));
        assert(all.subrange(0, i + 1).last() == rows@[i as int].deep_view());
        if rows[i].value_kind != CliSchemaValueKind::Positional && rows[i].show_in_help {
            let line: String = help_line(&rows[i]);
            let ghost before = lines.deep_view();
            lines.push(line);
            assert(lines.deep_view() =~= before.push(line@));
        }
        i = i + 1;
    }
    assert(all.subrange(0, all.len() as int) =~= all);
    let body: String = join_texts(&lines, "\n");
    cat2(
        "Description:\n  haki-dl 0.2.0\n\nUsage:\n  haki-dl <input> [options]\n\nArguments:\n  <input>  Input URL or file\n\nOptions:\n",
        body.as_str(),
    )
}

} // verus!
