use haki_dl::config::LogLevel;
use haki_dl::console::{
    console_timestamp, format_file_size_display, percent_text, progress_bar, ConsoleRenderer, Piece,
};
use haki_dl::console_color::{
    colorize_encryption_tokens, colorize_log_message, colorize_stream_label_text,
    decrypt_progress_level, log_level_prefix, paint, visible_width,
};
use haki_dl::datetime::{LocalTime, TimeSpan};
use haki_dl::event::ProgressEvent;
use haki_dl::manifest::{MediaType, Stream};
use haki_dl::metadata::{metadata_paths, text_file_bytes};
use haki_dl::observability::{
    check_update_with_client, format_duration, format_file_size, initialize_log_file,
    latest_version_from_release_redirect, log_path_candidate, plan_log_file, redact_progress_event,
    should_log, summarize_events, update_check_result, LogPlanConfig, ProgressEventCollector,
    UpdateCheckClient, DEFAULT_UPDATE_CHECK_URL,
};
use haki_dl::progress::{AggregateProgress, StreamProgress};
use haki_dl::prompt::{Ink, PromptKey, PromptPiece, PromptState, PromptStep};

fn text_of(pieces: &[Piece]) -> String {
    let mut out = String::new();
    for piece in pieces {
        match piece {
            Piece::Text(t) => out.push_str(t),
            Piece::Stamp => out.push_str("<time>"),
            Piece::Bar { part, whole } => out.push_str(&format!("<{}/{}>", part, whole)),
            Piece::Percent { part, whole, .. } => out.push_str(&format!("<{}%{}>", part, whole)),
        }
    }
    out
}

fn log(level: LogLevel, message: &str) -> ProgressEvent {
    ProgressEvent::Log { level, message: message.to_string() }
}

#[test]
fn messages_are_shown_with_time_and_level() {
    let mut r = ConsoleRenderer::with_log_level(LogLevel::Info);
    let mut out = Vec::new();
    r.render(&mut out, &log(LogLevel::Info, "hello"), 0);
    assert!(text_of(&out).contains("<time>"));
    assert!(text_of(&out).contains("hello"));
}

#[test]
fn messages_below_the_level_are_not_shown() {
    let mut r = ConsoleRenderer::with_log_level(LogLevel::Warn);
    let mut out = Vec::new();
    r.render(&mut out, &log(LogLevel::Info, "hello"), 0);
    r.render(&mut out, &log(LogLevel::Debug, "hello"), 0);
    assert!(out.is_empty());
    r.render(&mut out, &log(LogLevel::Error, "bad"), 0);
    assert!(text_of(&out).contains("bad"));
}

#[test]
fn nothing_is_shown_when_all_is_off() {
    let mut r = ConsoleRenderer::with_log_level(LogLevel::Off);
    let mut out = Vec::new();
    r.render(&mut out, &log(LogLevel::Error, "bad"), 0);
    r.render(&mut out, &ProgressEvent::Warning { message: "w".to_string() }, 0);
    assert!(out.is_empty());
}

#[test]
fn progress_of_a_stream_is_drawn() {
    let mut r = ConsoleRenderer::with_log_level(LogLevel::Info);
    let mut out = Vec::new();
    r.render(
        &mut out,
        &ProgressEvent::StreamTaskCreated { stream_id: "v".to_string(), label: "Vid 1080p".to_string() },
        0,
    );
    r.render(
        &mut out,
        &ProgressEvent::StreamProgress(StreamProgress {
            stream_id: "v".to_string(),
            downloaded_bytes: 2048,
            total_bytes: None,
            bytes_per_second: 1024,
            low_speed_count: 0,
            completed_segments: 4,
            total_segments: Some(4),
        }),
        5000,
    );
    let shown = text_of(&out);
    assert!(shown.contains("4/4"), "{}", shown);
}

#[test]
fn sizes_are_shown_as_floats_print_them() {
    let sizes: [u64; 14] = [
        0,
        1,
        1023,
        1024,
        1025,
        1152,
        1536,
        5_242_880,
        5_243_000,
        1_073_741_824,
        9_999_999_999,
        1 << 40,
        (1 << 53) + 1,
        u64::MAX,
    ];
    for size in sizes {
        let units = ["B", "KiB", "MiB", "GiB", "TiB"];
        let mut value = size as f64;
        let mut unit = units[0];
        for candidate in units.iter().skip(1) {
            if value < 1024.0 {
                break;
            }
            value /= 1024.0;
            unit = candidate;
        }
        let expected = if unit == "B" {
            format!("{}B", size)
        } else {
            format!("{:.2}{}", value, unit)
        };
        assert_eq!(format_file_size(size), expected);
    }
    assert_eq!(format_file_size_display(0), "0.00B");
    assert_eq!(format_file_size_display(1536), "1.50KB");
}

#[test]
fn durations_are_shown() {
    assert_eq!(format_duration(TimeSpan { seconds: 3661, nanoseconds: 0 }), "01:01:01");
    assert_eq!(format_duration(TimeSpan { seconds: 360_000, nanoseconds: 9 }), "100:00:00");
}

#[test]
fn bars_and_shares() {
    assert_eq!(visible_width(&progress_bar(0)), 30);
    assert_eq!(visible_width(&progress_bar(30)), 30);
    assert_eq!(percent_text("5%", 4, false), "  5%");
    assert_eq!(visible_width(&percent_text("100%", 6, true)), 6);
}

#[test]
fn colours_have_no_width() {
    assert_eq!(paint("32", "ok"), "\u{1b}[32mok\u{1b}[0m");
    assert_eq!(visible_width(&paint("38;5;9", "hello")), 5);
    assert_eq!(colorize_encryption_tokens("a *CENC b"), "a \u{1b}[38;5;9m*CENC\u{1b}[0m b");
    assert_eq!(colorize_encryption_tokens("a * b"), "a * b");
    assert_eq!(colorize_stream_label_text("Vid x"), "\u{1b}[96mVid\u{1b}[0m x");
    assert_eq!(colorize_log_message(LogLevel::Info, "plain", false), "plain");
    assert!(log_level_prefix(LogLevel::Off).is_none());
    assert_eq!(decrypt_progress_level("Type: cenc"), decrypt_progress_level("Type: cenc"));
}

#[test]
fn time_in_front_of_a_message() {
    let t = LocalTime {
        year: 2024,
        month: 1,
        day: 2,
        hour: 3,
        minute: 4,
        second: 5,
        nanosecond: 678_000_000,
        offset_seconds: 0,
    };
    assert!(console_timestamp(&t).contains("03:04:05"));
}

#[test]
fn severe_messages_are_logged() {
    assert!(should_log(LogLevel::Info, LogLevel::Error));
    assert!(should_log(LogLevel::Info, LogLevel::Info));
    assert!(!should_log(LogLevel::Info, LogLevel::Debug));
    assert!(!should_log(LogLevel::Off, LogLevel::Error));
}

#[test]
fn log_files_get_a_free_name() {
    let config = LogPlanConfig {
        level: LogLevel::Info,
        no_log: false,
        log_file_path: Some("/l/run.log".to_string()),
        default_log_dir: "/l".to_string(),
        suffix: "x".to_string(),
    };
    let first = log_path_candidate(&config, 0).unwrap();
    assert_eq!(first, "/l/run.log");
    assert_ne!(log_path_candidate(&config, 1).unwrap(), first);
    let plan = plan_log_file(&config, 0);
    assert!(plan.enabled);
    assert_eq!(plan.path.as_deref(), Some("/l/run.log"));
    let opening = initialize_log_file(&plan, "2024-01-01 00:00:00", Some("haki-dl in --key 00:11")).unwrap();
    assert!(opening.contains("2024"));
    let silent = LogPlanConfig { no_log: true, ..config };
    assert!(!plan_log_file(&silent, 0).enabled);
}

struct Fixed(Option<String>);

impl UpdateCheckClient for Fixed {
    fn redirect_location(&self, endpoint: &str) -> haki_dl::error::Result<Option<String>> {
        assert_eq!(endpoint, DEFAULT_UPDATE_CHECK_URL);
        Ok(self.0.clone())
    }
}

#[test]
fn newer_releases_are_found() {
    assert_eq!(
        latest_version_from_release_redirect("https://x/releases/tag/v0.3.0").as_deref(),
        Some("v0.3.0")
    );
    assert_eq!(latest_version_from_release_redirect("https://x/releases"), None);
    let same = update_check_result(Some("https://x/releases/tag/v0.2.0"), "0.2.0");
    assert!(!same.update_available);
    let newer = check_update_with_client(
        &Fixed(Some("https://x/releases/tag/v0.3.0".to_string())),
        DEFAULT_UPDATE_CHECK_URL,
        "0.2.0",
    )
    .unwrap();
    assert!(newer.update_available);
    assert_eq!(newer.latest_version.as_deref(), Some("v0.3.0"));
    let unknown = check_update_with_client(&Fixed(None), DEFAULT_UPDATE_CHECK_URL, "0.2.0").unwrap();
    assert!(!unknown.update_available);
}

#[test]
fn events_are_summed_up() {
    let mut collector = ProgressEventCollector::new();
    collector.emit(ProgressEvent::Warning { message: "token=abc".to_string() });
    collector.emit(ProgressEvent::AggregateProgress(AggregateProgress {
        downloaded_bytes: 5,
        total_bytes: Some(10),
        bytes_per_second: 2,
    }));
    collector.emit(ProgressEvent::Finished { success: true });
    let summary = collector.summary();
    assert_eq!(summary.downloaded_bytes, 5);
    assert_eq!(summary.total_bytes, Some(10));
    assert_eq!(summary.finished, Some(true));
    assert_eq!(summary.warnings.len(), 1);
    assert_eq!(summarize_events(collector.events()).warnings.len(), 1);
    match redact_progress_event(ProgressEvent::Warning { message: "token=abc".to_string() }) {
        ProgressEvent::Warning { message } => assert_eq!(message, "token=<redacted>"),
        other => panic!("{:?}", other),
    }
}

#[test]
fn events_are_redacted_once() {
    let e = ProgressEvent::MediaInfo {
        stream_id: None,
        lines: vec!["key=1 key=2".to_string(), "plain".to_string()],
    };
    let once = redact_progress_event(e);
    assert_eq!(
        once,
        ProgressEvent::MediaInfo {
            stream_id: None,
            lines: vec!["key=<redacted> key=<redacted>".to_string(), "plain".to_string()],
        }
    );
    assert_eq!(redact_progress_event(once.clone()), once);
}

#[test]
fn metadata_files() {
    let (raw, selected) = metadata_paths("/t");
    assert!(raw.starts_with("/t/") && selected.starts_with("/t/") && raw != selected);
    assert!(text_file_bytes("ä").ends_with(&[0xc3, 0xa4]));
}

fn stream(kind: Option<MediaType>) -> Stream {
    Stream { media_type: kind, ..Stream::default() }
}

fn prompt(n: usize, defaults: &[usize]) -> PromptState {
    let streams: Vec<Stream> = (0..n).map(|_| stream(None)).collect();
    let labels: Vec<String> = (0..n).map(|i| format!("Vid {}", i)).collect();
    PromptState::new(&streams, &labels, &defaults.to_vec()).unwrap()
}

#[test]
fn streams_are_chosen() {
    assert!(PromptState::new(&Vec::new(), &Vec::new(), &Vec::new()).is_none());
    let mut p = prompt(3, &[9]);
    match p.press(PromptKey::Enter) {
        PromptStep::Accept(chosen) => assert_eq!(chosen, vec![0]),
        other => panic!("{:?}", other),
    }
    for key in [PromptKey::Down, PromptKey::Space, PromptKey::Enter] {
        assert!(matches!(p.press(key), PromptStep::Continue));
    }
    for key in [PromptKey::End, PromptKey::Space, PromptKey::Up, PromptKey::Space] {
        p.press(key);
    }
    match p.press(PromptKey::Enter) {
        PromptStep::Accept(chosen) => assert_eq!(chosen, vec![1, 2]),
        other => panic!("{:?}", other),
    }
    assert!(matches!(p.press(PromptKey::Escape), PromptStep::Cancel(_)));
    assert!(matches!(p.press(PromptKey::Interrupt), PromptStep::Cancel(_)));
}

fn row_texts(pieces: &[PromptPiece]) -> Vec<String> {
    let mut rows: Vec<String> = Vec::new();
    for piece in pieces {
        match piece {
            PromptPiece::ClearLine => rows.push(String::new()),
            PromptPiece::Text(_, t) => rows.last_mut().unwrap().push_str(t),
            PromptPiece::Up(_) => {}
        }
    }
    rows
}

#[test]
fn list_is_drawn_in_its_lines() {
    let streams = vec![stream(Some(MediaType::Audio)), stream(Some(MediaType::Subtitles)), stream(None)];
    let labels = vec!["Aud *CENC en".to_string(), "Sub fr".to_string(), "x".to_string()];
    let p = PromptState::new(&streams, &labels, &vec![0]).unwrap();
    let pieces = p.draw_prompt(0, true);
    let rows = row_texts(&pieces);
    assert_eq!(rows.len(), p.prompt_line_count());
    assert_eq!(rows[0], "Please select what you want to download:\n");
    assert_eq!(rows[1], "> [ ] Basic\n");
    assert_eq!(rows[2], "    [ ] x\n");
    assert_eq!(rows[3], "  [ ] Audio\n");
    assert_eq!(rows[4], "    [X] Aud *CENC en\n");
    assert_eq!(rows[6], "    [ ] Sub fr\n");
    assert_eq!(rows.last().unwrap(), "(Press <space> to toggle a stream, <enter> to accept)\n");
    assert!(pieces.contains(&PromptPiece::Text(Ink::Method, "*CENC".to_string())));
    let plain = p.draw_prompt(9, false);
    assert_eq!(plain[0], PromptPiece::Up(9));
    assert!(plain.iter().all(|x| !matches!(x, PromptPiece::Text(i, _) if *i != Ink::Plain)));
}

#[test]
fn long_lists_are_moved() {
    let mut p = prompt(30, &[]);
    for _ in 0..15 {
        p.press(PromptKey::Down);
        assert_eq!(row_texts(&p.draw_prompt(0, false)).len(), p.prompt_line_count());
    }
    let rows = row_texts(&p.draw_prompt(0, false));
    assert_eq!(rows.len(), 14);
    assert!(rows.iter().any(|r| r.contains("> [ ] Vid 14")));
    p.press(PromptKey::PageDown);
    p.press(PromptKey::PageDown);
    let rows = row_texts(&p.draw_prompt(0, false));
    assert!(rows[10].contains("> [ ] Vid 29"));
    p.press(PromptKey::Home);
    assert!(row_texts(&p.draw_prompt(0, false))[1].contains("> [ ] Basic"));
}
