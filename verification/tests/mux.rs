use haki_dl::config::{DownloadOptions, MuxerKind, Toggle};
use haki_dl::datetime::TimeSpan;
use haki_dl::error::Error;
use haki_dl::live::{
    add_recorded_duration, compute_live_wait_seconds, filter_new_live_segments, live_option_effects,
    live_segment_name, plan_live_pipe_mux, sync_live_startup_windows, update_http_live_ts_state,
    HttpLiveTsState, LiveIdentityMode, LiveStreamState, SegmentNames,
};
use haki_dl::manifest::{
    compare_streams_compatible, sort_streams_compatible, stream_before, MediaPart, MediaSegment,
    MediaType, Playlist, RoleType, Stream,
};
use haki_dl::media_info::{media_info_console_label, parse_ffmpeg_media_infos, parse_seconds_to_millis};
use haki_dl::metadata::{streams_metadata_json, PlaylistNumbers, StreamNumbers};
use haki_dl::mux::{
    combine_files, merge_extension, mp4forge_support_for_stream, mux_extension,
    output_files_with_imports, partial_combine_files, plan_ffmpeg_merge, plan_ffmpeg_merge_at,
    plan_ffmpeg_mux_at, plan_mkvmerge_mux, validate_mp4forge_mux_after_done, CombinePlan,
    FfmpegMergeMetadata, FfmpegMergeRequest, MergeOutputFormat, Mp4forgeSupport,
    Mp4forgeSupportMatrix, MuxFormat, MuxImport, OutputFile,
};
use std::cmp::Ordering;

fn merge<'a>(
    files: &'a Vec<String>,
    metadata: &'a FfmpegMergeMetadata,
    format: MergeOutputFormat,
) -> FfmpegMergeRequest<'a> {
    FfmpegMergeRequest {
        binary: "/bin/ffmpeg",
        files,
        output_base_path: "/out/movie",
        format,
        use_aac_filter: true,
        fast_start: false,
        write_date: true,
        use_concat_demuxer: false,
        concat_list_path: None,
        metadata,
    }
}

#[test]
fn merging_by_ffmpeg() {
    let files = vec!["/t/0.ts".to_string(), "/t/1.ts".to_string()];
    let metadata = FfmpegMergeMetadata::default();
    let plan = plan_ffmpeg_merge_at(&merge(&files, &metadata, MergeOutputFormat::Mkv), "/cwd", "now").unwrap();
    assert_eq!(
        plan.arguments,
        "-loglevel warning -nostdin  -i concat:\"0.ts|1.ts|\" -map 0 -c copy -y -bsf:a aac_adtstoasc \"/out/movie.mkv\""
    );
    assert_eq!(plan.program, "/bin/ffmpeg");
    assert_eq!(plan.working_directory, "/t");
    assert_eq!(plan.output_path, "/out/movie.mkv");
    let mp4 = plan_ffmpeg_merge_at(&merge(&files, &metadata, MergeOutputFormat::Mp4), "/cwd", "now").unwrap();
    assert!(mp4.arguments.contains(" -metadata date=\"now\""));
    let dated = plan_ffmpeg_merge(&merge(&files, &metadata, MergeOutputFormat::Mp4), "/cwd").unwrap();
    assert!(dated.arguments.contains(" -metadata date=\"20"));
    let nothing: Vec<String> = Vec::new();
    assert_eq!(
        plan_ffmpeg_merge_at(&merge(&nothing, &metadata, MergeOutputFormat::Ts), "/cwd", "now"),
        Err(Error::mux("ffmpeg merge requires at least one input"))
    );
    let mut listed = merge(&files, &metadata, MergeOutputFormat::Ts);
    listed.use_concat_demuxer = true;
    assert_eq!(
        plan_ffmpeg_merge_at(&listed, "/cwd", "now"),
        Err(Error::mux("ffmpeg concat demuxer requires a concat list path"))
    );
    assert_eq!(mux_extension(MuxFormat::Mkv), ".mkv");
    assert_eq!(merge_extension(MergeOutputFormat::Eac3), ".eac3");
}

#[test]
fn relative_outputs_are_below_the_current_directory() {
    let files = vec!["/t/0.ts".to_string()];
    let metadata = FfmpegMergeMetadata::default();
    let mut q = merge(&files, &metadata, MergeOutputFormat::Aac);
    q.output_base_path = "movie";
    let plan = plan_ffmpeg_merge_at(&q, "/cwd", "now").unwrap();
    assert_eq!(plan.output_path, "/cwd/movie.m4a");
}

fn output(index: i32, kind: MediaType) -> OutputFile {
    let mut file = OutputFile::new(index, &format!("/o/{}.mp4", index));
    file.media_type = Some(kind);
    file.lang_code = Some("en".to_string());
    file
}

#[test]
fn muxing_of_several_files() {
    let files = vec![output(0, MediaType::Video), output(1, MediaType::Audio)];
    let plan = plan_ffmpeg_mux_at("ffmpeg", &files, "/out/m", MuxFormat::Mp4, Some("2024"), "/cwd");
    assert!(plan.arguments.contains("/o/0.mp4") && plan.arguments.contains("/o/1.mp4"));
    assert!(plan.arguments.contains("2024"));
    assert_eq!(plan.output_path, "/out/m.mp4");
    let mkv = plan_mkvmerge_mux("mkvmerge", &files, "/out/m", "/cwd");
    assert_eq!(mkv.output_path, "/out/m.mkv");
    assert!(mkv.arguments.contains("/o/1.mp4"));
}

#[test]
fn imports_follow_the_outputs() {
    let files = vec![output(0, MediaType::Video), output(1, MediaType::Subtitles)];
    let imports = vec![MuxImport::new("/x/sub.srt")];
    let all = output_files_with_imports(&files, &imports, false);
    assert_eq!(all.len(), 3);
    assert_eq!(all[2].file_path, "/x/sub.srt");
    let fewer = output_files_with_imports(&files, &imports, true);
    assert_eq!(fewer.len(), 2);
    assert_eq!(fewer[1].file_path, "/x/sub.srt");
}

#[test]
fn mp4forge_takes_some_outputs() {
    let matrix = Mp4forgeSupportMatrix::default();
    let files = vec![output(0, MediaType::Video)];
    assert!(validate_mp4forge_mux_after_done(MuxFormat::Mkv, MuxerKind::Mp4forge, &files, &matrix).is_err());
    assert_eq!(
        validate_mp4forge_mux_after_done(MuxFormat::Mkv, MuxerKind::Ffmpeg, &files, &matrix),
        Ok(())
    );
    let unknown = mp4forge_support_for_stream(&Stream::default(), &matrix).unwrap();
    assert!(!matches!(unknown, Mp4forgeSupport::Supported));
}

#[test]
fn files_are_put_together() {
    assert_eq!(combine_files(&Vec::new()), CombinePlan::Nothing);
    assert_eq!(combine_files(&vec!["/a".to_string()]), CombinePlan::CopyOne("/a".to_string()));
    let two = vec!["/a".to_string(), "/b".to_string()];
    assert_eq!(combine_files(&two), CombinePlan::Append(two.clone()));
}

#[test]
fn many_files_are_put_together_in_groups() {
    let files: Vec<String> = (0..950).map(|i| format!("/t/{:03}.ts", i)).collect();
    let groups = partial_combine_files(&files).unwrap();
    let mut next = 0;
    for group in &groups {
        assert_eq!(group.start, next);
        assert!(group.end > group.start);
        next = group.end;
    }
    assert_eq!(next, files.len());
}

fn segment(index: i64, date: Option<&str>) -> MediaSegment {
    MediaSegment {
        index,
        url: format!("https://a/{}.ts", index),
        program_date_time: date.map(|d| d.to_string()),
        ..MediaSegment::default()
    }
}

fn live(indexes: &[i64]) -> Stream {
    Stream {
        playlist: Some(Playlist {
            is_live: true,
            media_parts: vec![MediaPart {
                media_segments: indexes.iter().map(|i| segment(*i, None)).collect(),
            }],
            ..Playlist::default()
        }),
        ..Stream::default()
    }
}

fn names(n: usize) -> Vec<SegmentNames> {
    (0..n)
        .map(|i| SegmentNames { from_url: format!("n{}", i), from_query: String::new() })
        .collect()
}

#[test]
fn only_new_segments_are_recorded() {
    let mut state = LiveStreamState::default();
    let mut first = live(&[1, 2, 3]);
    let seconds = vec![6, 4, 2, 0];
    let r = filter_new_live_segments(&mut first, &mut state, true, None, &names(3), &seconds, 0);
    assert_eq!(r.identity_mode, LiveIdentityMode::SegmentName);
    assert_eq!(r.new_segments.len(), 3);
    assert_eq!(state.max_index, 3);
    assert_eq!(state.last_file_name, "3");
    let mut second = live(&[2, 3, 4]);
    let r = filter_new_live_segments(&mut second, &mut state, true, None, &names(3), &seconds, 0);
    let new: Vec<i64> = r.new_segments.iter().map(|s| s.index).collect();
    assert_eq!(new, vec![4]);
    let mut same = live(&[2, 3, 4]);
    let r = filter_new_live_segments(&mut same, &mut state, true, None, &names(3), &seconds, 0);
    assert!(r.new_segments.is_empty());
    assert_eq!(state.refreshed_segments, 4);
}

#[test]
fn numbers_of_new_segments_do_not_fall_behind() {
    let mut state = LiveStreamState::default();
    state.max_index = 50;
    let mut restarted = live(&[1, 2]);
    let r = filter_new_live_segments(&mut restarted, &mut state, false, None, &names(2), &vec![2, 1, 0], 0);
    let new: Vec<i64> = r.new_segments.iter().map(|s| s.index).collect();
    assert_eq!(new, vec![51, 52]);
    assert_eq!(state.max_index, 52);
}

#[test]
fn names_of_live_segments() {
    let n = SegmentNames { from_url: "u".to_string(), from_query: "q".to_string() };
    let dated = segment(5, Some("2020-01-01T00:00:00Z"));
    assert_eq!(live_segment_name(&dated, &n, true, true, false, 0), "1577836800");
    assert_eq!(live_segment_name(&dated, &n, true, false, false, 0), "5");
    assert_eq!(live_segment_name(&dated, &n, false, true, false, 0), "u");
    assert_eq!(live_segment_name(&dated, &n, false, true, true, 0), "q");
}

#[test]
fn live_streams_start_together() {
    let streams = vec![live(&[1, 2, 3, 4]), live(&[3, 4, 5])];
    let synced = sync_live_startup_windows(&streams, 16, 0);
    let indexes: Vec<i64> = synced[0].playlist.as_ref().unwrap().media_parts[0]
        .media_segments
        .iter()
        .map(|s| s.index)
        .collect();
    assert_eq!(indexes, vec![3, 4]);
}

#[test]
fn waiting_between_refreshes() {
    assert_eq!(compute_live_wait_seconds(10, Some(5)), 5);
    assert_eq!(compute_live_wait_seconds(10, Some(-3)), 1);
    assert_eq!(compute_live_wait_seconds(10, None), 8);
    assert_eq!(compute_live_wait_seconds(2, None), 1);
}

#[test]
fn recording_is_counted() {
    let mut state = LiveStreamState::default();
    add_recorded_duration(&mut state, 7, 2);
    assert_eq!((state.recorded_duration_secs, state.recorded_segments), (7, 2));
    let mut ts = HttpLiveTsState::default();
    let limit = TimeSpan { seconds: 10, nanoseconds: 0 };
    update_http_live_ts_state(&mut ts, 100, TimeSpan { seconds: 9, nanoseconds: 5 }, Some(limit));
    assert!(!ts.stop_requested);
    update_http_live_ts_state(&mut ts, 100, limit, Some(limit));
    assert!(ts.stop_requested);
    assert_eq!(ts.recording_size_bytes, 200);
    let mut options = DownloadOptions::for_parallelism(None);
    options.set_live_fix_vtt_by_audio(Toggle::On);
    let audio = Stream { media_type: Some(MediaType::Audio), ..Stream::default() };
    assert!(live_option_effects(&options, &vec![audio]).live_fix_vtt_by_audio);
    assert!(!live_option_effects(&options, &Vec::new()).live_fix_vtt_by_audio);
}

#[test]
fn muxing_through_pipes() {
    let pipes = vec!["p0".to_string()];
    let plan = plan_live_pipe_mux("ffmpeg", &pipes, "/o/x.ts", "d", None, "/pipes", false, "/cwd");
    assert_eq!(
        plan.arguments,
        "-y -fflags +genpts -loglevel quiet  -i \"/pipes/p0\"  -map 0  -strict unofficial -c copy  -metadata date=\"d\"  -ignore_unknown -copy_unknown  -f mpegts -shortest \"/o/x.ts\""
    );
    let windows = plan_live_pipe_mux("ffmpeg", &pipes, "/o/x.ts", "d", Some(" -f flv x"), "/pipes", true, "/cwd");
    assert!(windows.arguments.contains(" -i \"\\\\.\\pipe\\p0\" "));
    assert!(windows.arguments.ends_with(" -f flv x"));
}

#[test]
fn what_a_prober_prints() {
    let text = "  Duration: 00:00:10.00, start: 1.5, bitrate: 1 kb/s\n  Stream #0:0[0x100]: Video: h264 (High) ([27][0][0][0] / 0x001B), yuv420p, 1280x720, 2500 kb/s, 25 fps\n  Stream #0:1[0x101]: Audio: aac (LC), 48000 Hz, stereo, 128 kb/s\n";
    let infos = parse_ffmpeg_media_infos(text).unwrap();
    assert_eq!(infos.len(), 2);
    assert_eq!(infos[0].media_type.as_deref(), Some("Video"));
    assert_eq!(infos[0].id.as_deref(), Some("[0x100]"));
    assert_eq!(infos[0].resolution.as_deref(), Some("1280x720"));
    assert_eq!(infos[0].bitrate.as_deref(), Some("2500 kb/s"));
    assert_eq!(infos[0].fps.as_deref(), Some("25 fps"));
    assert_eq!(infos[0].start_time_millis, Some(1500));
    assert!(infos[0].base_info.as_deref().unwrap().starts_with("h264 (High)"));
    assert!(!infos[0].base_info.as_deref().unwrap().contains("0x001B"));
    assert_eq!(infos[1].media_type.as_deref(), Some("Audio"));
    assert!(media_info_console_label(&infos[0]).contains("1280x720"));
    assert_eq!(parse_seconds_to_millis("2.25"), Some(2250));
    assert_eq!(parse_seconds_to_millis("x"), None);
    let unknown = parse_ffmpeg_media_infos("nothing").unwrap();
    assert_eq!(unknown.len(), 1);
    assert_eq!(unknown[0].media_type.as_deref(), Some("Unknown"));
}

#[test]
fn streams_are_sorted() {
    let video = |b: i64| Stream { bandwidth: Some(b), id: format!("v{}", b), ..Stream::default() };
    let audio = Stream { media_type: Some(MediaType::Audio), id: "a".to_string(), ..Stream::default() };
    let mut streams = vec![audio, video(1), video(3), video(2)];
    sort_streams_compatible(&mut streams);
    let ids: Vec<&str> = streams.iter().map(|s| s.id.as_str()).collect();
    assert_eq!(ids, vec!["v3", "v2", "v1", "a"]);
    assert!(stream_before(&video(2), &video(1)));
    assert_eq!(compare_streams_compatible(&video(2), &video(1)), Ordering::Less);
    assert_eq!(compare_streams_compatible(&video(2), &video(2)), Ordering::Equal);
    assert_eq!(RoleType::from_number(1), RoleType::Main);
    assert_eq!(RoleType::parse_enum_token("nothing"), None);
}

#[test]
fn streams_as_json() {
    let stream = Stream {
        name: Some("a \"b\"\n\u{1}".to_string()),
        url: "https://a/1".to_string(),
        ..Stream::default()
    };
    let numbers = StreamNumbers {
        skipped_duration: None,
        frame_rate: None,
        playlist: PlaylistNumbers {
            refresh_interval_ms: "0".to_string(),
            total_duration: "0.0".to_string(),
            target_duration: None,
            init_duration: "0.0".to_string(),
            durations: Vec::new(),
        },
    };
    let text = streams_metadata_json(&vec![stream], &vec![numbers], false);
    assert!(text.starts_with("["));
    assert!(text.trim_end().ends_with("]"));
    assert!(text.contains("\"Url\": \"https://a/1\""), "{}", text);
    assert!(!text.contains("a \"b\""));
}
