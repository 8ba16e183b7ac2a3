use haki_dl::api::{DownloadClient, DownloadRequest, LiveRecorder, ProgressCallback};
use haki_dl::cancellation::{go_on, CancellationToken};
use haki_dl::cli::{
    parse_args, pre_scan_ui_language, CliFacts, CliParseResult, CliQuestion, CliStop, FileContent,
};
use haki_dl::cli_report::{apply_terminal_defaults, cli_error_text, cli_error_text_for_log_level};
use haki_dl::cli_schema::{cli_schema, help_text, CliSchemaValueKind};
use haki_dl::config::{
    CustomKey, CustomRange, DecryptionEngine, DownloadOptions, HlsMethod, LogLevel, MuxerKind,
    TaskStartAt, Toggle, UiLanguage,
};
use haki_dl::datetime::{LocalTime, TimeSpan};
use haki_dl::error::Error;
use haki_dl::event::ProgressEvent;
use haki_dl::manifest::StreamSelector;
use haki_dl::mux::MuxFormat;
use haki_dl::text_map::TextMap;
use std::cell::Cell;

fn no_facts() -> CliFacts {
    CliFacts {
        files: TextMap::new(),
        contents: TextMap::new(),
        absolutes: TextMap::new(),
    }
}

fn run(args: &[&str]) -> Result<CliParseResult, CliStop> {
    parse_args(args.iter().map(|a| a.to_string()).collect(), Some(8), no_facts())
}

fn request(args: &[&str]) -> DownloadRequest<()> {
    match run(args) {
        Ok(CliParseResult::Request(r)) => r,
        other => panic!("request expected, not {:?}", other),
    }
}

fn failure(args: &[&str]) -> String {
    match run(args) {
        Err(CliStop::Fail(e)) => e.display(),
        other => panic!("failure expected, not {:?}", other),
    }
}

#[test]
fn plain_request_has_default_options() {
    let r = request(&["https://example.com/a.m3u8"]);
    assert_eq!(r.input, "https://example.com/a.m3u8");
    assert_eq!(r.stream_selector, StreamSelector::Interactive);
    assert_eq!(r.options.thread_count, 8);
    assert_eq!(r.options.download_retry_count, 3);
    assert_eq!(r.options.decryption_engine, DecryptionEngine::Mp4forge);
    assert_eq!(r.options.log_level, LogLevel::Info);
    assert_eq!(r.options.http_request_timeout, "100");
    assert_eq!(r.options.live_take_count, 16);
    assert!(r.options.use_system_proxy.is_on());
    assert!(r.options.del_after_done.is_on());
    assert!(!r.options.binary_merge.is_on());
}

#[test]
fn switches_lists_and_values_are_read() {
    let r = request(&[
        "in.mpd",
        "--save-name",
        "movie",
        "--auto-select",
        "-H",
        "Cookie: a=b",
        "X-Test: 1",
        "--key",
        "00112233445566778899aabbccddeeff:000102030405060708090a0b0c0d0e0f",
        "--log-level=DEBUG",
        "--thread-count",
        "4",
        "--use-system-proxy",
        "false",
        "--mkvmerge-binary-path",
        "/opt/mkvmerge",
    ]);
    assert_eq!(r.options.save_name.as_deref(), Some("movie"));
    assert_eq!(r.stream_selector, StreamSelector::Auto);
    assert_eq!(r.options.headers.get("cookie"), Some(&"a=b".to_string()));
    assert_eq!(r.options.headers.get("x-test"), Some(&"1".to_string()));
    assert_eq!(
        r.options.keys,
        vec![CustomKey::Kid {
            kid_hex: "00112233445566778899aabbccddeeff".to_string(),
            key_hex: "000102030405060708090a0b0c0d0e0f".to_string(),
        }]
    );
    assert_eq!(r.options.log_level, LogLevel::Debug);
    assert_eq!(r.options.thread_count, 4);
    assert!(!r.options.use_system_proxy.is_on());
    assert_eq!(r.options.mkvmerge_binary_path.as_deref(), Some("/opt/mkvmerge"));
}

#[test]
fn subtitles_only_comes_before_automatic_choice() {
    let r = request(&["in", "--auto-select", "--sub-only"]);
    assert_eq!(r.stream_selector, StreamSelector::SubtitlesOnly);
}

#[test]
fn some_options_imply_others() {
    let r = request(&["in", "--use-shaka-packager", "--live-pipe-mux", "-M", "mkv"]);
    assert_eq!(r.options.decryption_engine, DecryptionEngine::ShakaPackager);
    assert!(r.options.live_real_time_merge.is_on());
    assert!(r.options.binary_merge.is_on());
}

#[test]
fn muxer_is_ffmpeg_unless_named() {
    let m = request(&["in", "-M", "mp4"]).options.mux_after_done.unwrap();
    assert_eq!(m.muxer, MuxerKind::Ffmpeg);
    assert_eq!(m.format, MuxFormat::Mp4);
    let m = request(&["in", "-M", "format=mp4:muxer=mp4forge:keep=true"])
        .options
        .mux_after_done
        .unwrap();
    assert_eq!(m.muxer, MuxerKind::Mp4forge);
    assert!(m.keep);
    assert_eq!(
        failure(&["in", "-M", "mkv:muxer=mp4forge"]),
        "config error: mp4forge mux-after-done is only valid for mp4 output"
    );
    assert_eq!(
        failure(&["in", "-M", "mp4:muxer=mkvmerge"]),
        "config error: mkvmerge cannot be used for mp4 mux-after-done"
    );
}

#[test]
fn wrong_command_lines_are_refused() {
    assert_eq!(failure(&[]), "config error: input is required");
    assert_eq!(failure(&["--nope"]), "config error: unknown option --nope");
    assert_eq!(failure(&["a", "b"]), "config error: unexpected positional argument b");
    assert_eq!(failure(&["a", "--save-name"]), "config error: --save-name requires a value");
    assert_eq!(failure(&["--help=x"]), "config error: --help does not accept a value");
    assert_eq!(failure(&["--version=x"]), "config error: --version does not accept a value");
    assert_eq!(failure(&["--morehelp"]), "config error: --morehelp requires a value");
}

#[test]
fn filters_may_be_given_more_than_once() {
    let r = request(&["-sv", "best", "-sv", "worst", "http://h/a.m3u8", "--drop-audio", "all"]);
    assert_eq!(r.input, "http://h/a.m3u8");
    let choices: Vec<&str> = r.options.select_video.iter().map(|f| f.for_choice.as_str()).collect();
    assert_eq!(choices, vec!["best", "worst"]);
    assert_eq!(r.options.drop_audio.len(), 1);
    assert!(r.options.select_audio.is_empty());
    for name in ["-sa", "-ss", "-dv", "-da", "-ds", "--select-audio"] {
        let r = request(&["in", name, "best", name, "worst"]);
        let all = [
            &r.options.select_audio,
            &r.options.select_subtitle,
            &r.options.drop_video,
            &r.options.drop_audio,
            &r.options.drop_subtitle,
        ];
        assert_eq!(all.iter().map(|f| f.len()).sum::<usize>(), 2, "{}", name);
    }
}

#[test]
fn imports_need_a_mux() {
    let asked = match run(&["in", "--mux-import", "/x/sub.srt"]) {
        Err(CliStop::Ask(CliQuestion::IsFile { path })) => path,
        other => panic!("question expected, not {:?}", other),
    };
    assert_eq!(asked, "/x/sub.srt");
}

#[test]
fn key_may_be_read_from_a_file() {
    let args = ["in", "--custom-hls-key", "/x/key.bin"];
    let tokens: Vec<String> = args.iter().map(|a| a.to_string()).collect();
    let mut facts = no_facts();
    facts.files.insert("/x/key.bin".to_string(), true);
    facts.contents.insert("/x/key.bin".to_string(), FileContent::Bytes(vec![7; 16]));
    match parse_args(tokens, None, facts) {
        Ok(CliParseResult::Request(r)) => {
            assert_eq!(r.options.custom_hls_key, Some(vec![7; 16]));
        }
        other => panic!("request expected, not {:?}", other),
    }
    assert!(matches!(run(&args), Err(CliStop::Ask(CliQuestion::IsFile { .. }))));
}

#[test]
fn values_of_several_kinds() {
    let r = request(&[
        "in",
        "--custom-hls-method",
        "AES_128",
        "--custom-range",
        "5-10",
        "--task-start-at",
        "20300102030405",
        "--ui-language",
        "en-US",
    ]);
    assert_eq!(r.options.custom_hls_method, Some(HlsMethod::Aes128));
    assert_eq!(
        r.options.custom_range,
        Some(CustomRange::Segment { input: "5-10".to_string(), start_index: 5, end_index: 10 })
    );
    assert_eq!(r.options.task_start_at.unwrap().as_str(), "20300102030405");
    assert_eq!(r.options.ui_language, Some(UiLanguage::EnUs));
}

#[test]
fn filter_patterns_must_be_regular_expressions() {
    let r = request(&["in", "-sv", "res=\"1080\":for=best2"]);
    assert_eq!(r.options.select_video.len(), 1);
    assert_eq!(r.options.select_video[0].for_choice, "best2");
    assert!(failure(&["in", "-sv", "id=(:for=best"]).starts_with("config error: "));
}

#[test]
fn language_is_known_before_the_rest() {
    let tokens: Vec<String> = ["--ui-language", "en-US", "--nope"].iter().map(|s| s.to_string()).collect();
    assert_eq!(pre_scan_ui_language(&tokens), Some(UiLanguage::EnUs));
    assert_eq!(pre_scan_ui_language(&vec!["in".to_string()]), None);
}

#[test]
fn help_and_version() {
    match run(&["--version"]) {
        Ok(CliParseResult::Version { text }) => assert_eq!(text, "haki-dl 0.2.0"),
        other => panic!("version expected, not {:?}", other),
    }
    match run(&["-h"]) {
        Ok(CliParseResult::Help { text }) => assert_eq!(text, help_text()),
        other => panic!("help expected, not {:?}", other),
    }
    match run(&["--morehelp", "nothing"]) {
        Ok(CliParseResult::MoreHelp { topic, text }) => {
            assert_eq!(topic.as_deref(), Some("nothing"));
            assert_eq!(text, "No extended help is available for nothing.");
        }
        other => panic!("help expected, not {:?}", other),
    }
}

#[test]
fn every_listed_flag_is_read() {
    for row in cli_schema() {
        if row.value_kind == CliSchemaValueKind::Flag {
            for alias in &row.aliases {
                assert!(!matches!(run(&["in", alias]), Err(_)), "{}", alias);
            }
        }
        if row.show_in_help {
            for alias in &row.aliases {
                assert!(help_text().contains(alias), "{}", alias);
            }
        }
    }
}

#[test]
fn errors_as_the_program_tells_them() {
    assert_eq!(cli_error_text(&Error::http("gone")), "http error: gone");
    assert_eq!(
        cli_error_text(&Error::http("Segment count check not pass, total: 2, downloaded: 1.")),
        "Segment count check not pass, total: 2, downloaded: 1."
    );
    assert_eq!(
        cli_error_text(&Error::io("Segment count check not pass, x")),
        "io error: Segment count check not pass, x"
    );
    assert_eq!(cli_error_text(&Error::UserCancelled), "operation cancelled");
    let e = Error::mux("m");
    let detailed = format!("{:?}", e);
    assert_eq!(cli_error_text_for_log_level(&e, detailed.clone(), LogLevel::Error), detailed);
    assert_eq!(cli_error_text_for_log_level(&e, detailed, LogLevel::Info), "mux error: m");
}

#[test]
fn redirected_output_has_no_colours() {
    let mut options = DownloadOptions::for_parallelism(None);
    apply_terminal_defaults(&mut options, false, false);
    assert!(!options.no_ansi_color.is_on());
    apply_terminal_defaults(&mut options, false, true);
    assert_eq!(options.no_ansi_color, Toggle::On);
    assert_eq!(options.force_ansi_console, Toggle::On);
}

#[test]
fn empty_inputs_are_refused() {
    let options = DownloadOptions::for_parallelism(None);
    let refused = DownloadClient::new().prepare(DownloadRequest::new(" \t", options));
    assert_eq!(refused.unwrap_err(), Error::config("input must not be empty"));
    let options = DownloadOptions::for_parallelism(None);
    let taken = LiveRecorder::new(DownloadRequest::new("x", options));
    assert_eq!(taken.request().input, "x");
    assert_eq!(taken.start().unwrap().input, "x");
}

#[test]
fn callbacks_are_told_of_events() {
    let count = Cell::new(0);
    let callback = ProgressCallback::new(|event: &ProgressEvent| {
        count.set(count.get() + 1);
        match event {
            ProgressEvent::Cancelled => Err(Error::UserCancelled),
            _ => Ok(()),
        }
    });
    assert_eq!(callback.emit(&ProgressEvent::UpdateCheckStarted), Ok(()));
    assert_eq!(callback.emit(&ProgressEvent::Cancelled), Err(Error::UserCancelled));
    assert_eq!(count.get(), 2);
    let request = DownloadRequest::new("x", DownloadOptions::for_parallelism(None));
    assert!(request.progress_callback.is_none());
    let token = CancellationToken::new();
    let request = request.with_cancellation_token(token.share()).with_progress_callback(callback);
    token.cancel();
    assert!(request.cancellation_token.is_cancelled());
    let taken = DownloadClient::new().prepare(request).ok().unwrap();
    assert_eq!(taken.progress_callback.unwrap().emit(&ProgressEvent::ManifestLoading), Ok(()));
    assert_eq!(count.get(), 3);
}

#[test]
fn flags_are_shared() {
    let token = CancellationToken::new();
    let other = token.share();
    assert!(!token.is_cancelled());
    assert_eq!(token.check(), Ok(()));
    other.cancel();
    assert!(token.is_cancelled());
    assert_eq!(token.check(), Err(Error::UserCancelled));
    assert_eq!(go_on(false), Ok(()));
}

fn at(hour: u8, minute: u8, second: u8) -> LocalTime {
    LocalTime {
        year: 2024,
        month: 2,
        day: 28,
        hour,
        minute,
        second,
        nanosecond: 0,
        offset_seconds: 0,
    }
}

#[test]
fn waiting_for_the_start() {
    let start = TaskStartAt::new("20240229000010".to_string());
    assert_eq!(
        start.duration_until(&at(23, 59, 50)),
        Ok(Some(TimeSpan { seconds: 20, nanoseconds: 0 }))
    );
    let past = TaskStartAt::new("20240101000000".to_string());
    assert_eq!(past.duration_until(&at(0, 0, 0)), Ok(None));
    assert!(past.duration_until_now().unwrap().is_none());
}

#[test]
fn engines_are_named_in_any_case() {
    for name in ["SHAKA_PACKAGER", "Shaka Packager", "sha\u{212a}a-pac\u{212a}ager"] {
        let r = request(&["in", "--decryption-engine", name]);
        assert_eq!(r.options.decryption_engine, DecryptionEngine::ShakaPackager);
    }
    assert!(failure(&["in", "--decryption-engine", "sha\u{3ba}a-packager"]).contains("invalid"));
}
