use haki_dl::config::DownloadOptions;
use haki_dl::download::{
    can_be_split, cleanup_after_success, decrypted_path, file_path_from, file_uri_to_path, first_size_answer,
    is_http_url, is_splittable, merge_policy_for_stream, next_copy_length, next_empty_dir,
    plan_local_copy, planned_output_path, range_header, remove_tmp_extension, second_size_answer,
    segment_source, split_large_single_file_by_size, stream_identifier, stream_temp_dir,
    thread_mode, SegmentDownloadResult, SegmentSource, SizeAnswer, SpeedState,
    StreamDownloadResult, ThreadMode, BUFFER_SIZE,
};
use haki_dl::error::Error;
use haki_dl::event::ProgressEvent;
use haki_dl::manifest::{
    EncryptionInfo, EncryptionMethod, MediaPart, MediaSegment, MediaType, Playlist, Stream,
};
use haki_dl::path::LocalPath;
use haki_dl::segment_task::{FetchAction, HttpFetch, SegmentAction, SegmentTask};
use haki_dl::stream_gather::{emit_stream_tasks, StreamGather};
use haki_dl::stream_task::{BatchItem, StreamAction, StreamSettings, StreamTask};
use haki_dl::text_map::TextMap;

fn segment(index: i64) -> MediaSegment {
    MediaSegment {
        index,
        url: format!("https://a/{}.ts", index),
        ..MediaSegment::default()
    }
}

fn stream_of(n: i64) -> Stream {
    Stream {
        id: "v".to_string(),
        media_type: Some(MediaType::Video),
        extension: Some("ts".to_string()),
        playlist: Some(Playlist {
            media_parts: vec![MediaPart { media_segments: (0..n).map(segment).collect() }],
            ..Playlist::default()
        }),
        ..Stream::default()
    }
}

fn result(path: &str) -> SegmentDownloadResult {
    SegmentDownloadResult {
        actual_file_path: path.to_string(),
        response_content_length: Some(4),
        actual_content_length: Some(4),
        image_header: false,
        gzip_header: false,
        skipped_existing: false,
    }
}

#[test]
fn lengths_decide_on_success() {
    assert!(result("a").success());
    let mut short = result("a");
    short.actual_content_length = Some(3);
    assert!(!short.success());
    short.response_content_length = None;
    assert!(short.success());
}

#[test]
fn every_byte_is_counted() {
    let mut speed = SpeedState::new(None, 0);
    for n in [1u64, 10, 100] {
        speed.add(n);
    }
    assert_eq!(speed.total_downloaded(), 111);
    speed.record_progress_tick(2000);
    assert_eq!(speed.reading().downloaded, 111);
}

#[test]
fn silence_ends_a_download() {
    let mut speed = SpeedState::new(None, 0);
    let mut ticks = 0u64;
    while !speed.should_stop() {
        speed.add_low_speed_count();
        ticks += 1;
        assert!(ticks < 1000);
    }
    assert_eq!(speed.low_speed_count() as u64, ticks);
    speed.reset_low_speed_count();
    assert!(!speed.should_stop());
}

#[test]
fn limits_make_a_download_wait() {
    let mut speed = SpeedState::new(Some(100), 0);
    speed.add(1000);
    assert!(speed.must_wait(10));
    let mut free = SpeedState::new(None, 0);
    free.add(1000);
    assert!(!free.must_wait(10));
}

#[test]
fn large_files_are_split() {
    let whole = MediaSegment { url: "https://a/big.mp4".to_string(), ..MediaSegment::default() };
    assert!(is_splittable(&whole));
    let size = 25 * 1024 * 1024 + 7;
    let parts = split_large_single_file_by_size(&whole, size).unwrap();
    assert!(parts.len() > 1);
    let mut next = 0;
    for (i, part) in parts.iter().enumerate() {
        assert_eq!(part.index, i as i64);
        assert_eq!(part.start_range, Some(next));
        if i + 1 < parts.len() {
            next = part.stop_range().unwrap() + 1;
        }
    }
    assert!(next < size);
    let one = split_large_single_file_by_size(&whole, 1000).unwrap();
    assert_eq!(one.len(), 1);
    assert_eq!((one[0].start_range, one[0].expected_length), (Some(0), Some(1001)));
    assert!(split_large_single_file_by_size(&whole, 0).is_none());
    assert!(can_be_split(-1) && can_be_split(1) && can_be_split(i64::MAX - (1 << 40)));
    assert!(!can_be_split(i64::MAX));
}

#[test]
fn ranges_of_requests() {
    let mut s = segment(0);
    assert_eq!(range_header(&s).unwrap(), None);
    s.start_range = Some(10);
    s.expected_length = Some(5);
    assert_eq!(range_header(&s).unwrap().as_deref(), Some("bytes=10-14"));
    s.expected_length = None;
    assert_eq!(range_header(&s).unwrap().as_deref(), Some("bytes=10-"));
}

#[test]
fn sources_of_segments() {
    assert!(matches!(segment_source("file:///a"), Ok(SegmentSource::FileUri)));
    match segment_source("base64://AAEC") {
        Ok(SegmentSource::Bytes(b)) => assert_eq!(b, vec![0, 1, 2]),
        other => panic!("{:?}", other),
    }
    match segment_source("hex://0aff") {
        Ok(SegmentSource::Bytes(b)) => assert_eq!(b, vec![10, 255]),
        other => panic!("{:?}", other),
    }
    assert!(segment_source("hex://0").is_err());
    assert!(matches!(segment_source("https://a"), Ok(SegmentSource::FileOrHttp)));
    assert!(is_http_url("https://a") && is_http_url("http://a") && !is_http_url("ftp://a"));
}

#[test]
fn parts_of_local_files() {
    let mut s = segment(0);
    let all = plan_local_copy(&s, 100).unwrap();
    assert_eq!((all.start, all.length), (0, None));
    s.start_range = Some(10);
    s.expected_length = Some(20);
    let part = plan_local_copy(&s, 100).unwrap();
    assert_eq!((part.start, part.length), (10, Some(20)));
    assert_eq!(next_copy_length(5), 5);
    assert_eq!(next_copy_length(1 << 40), BUFFER_SIZE);
}

#[test]
fn paths_of_files() {
    assert_eq!(remove_tmp_extension("/a/1.ts.tmp"), "/a/1.ts");
    assert_eq!(decrypted_path("/a/1.ts"), "/a/1_dec.ts");
    let text = |path: &str| LocalPath::Text(path.to_string());
    assert_eq!(file_path_from("file:///a/b", Some(text("/x")), false), text("/x"));
    assert_eq!(file_path_from("file:///a/b", None, false), text("/a/b"));
    assert_eq!(file_path_from("file:///C:/b", None, true), text("C:/b"));
    assert_eq!(file_path_from("file:////?/C:/b", None, true), text("C:/b"));
    assert_eq!(file_path_from("a/b", None, true), text("a/b"));
    assert_eq!(file_uri_to_path("a/b", false), text("a/b"));
    assert_eq!(file_uri_to_path("https://a/b", false), text("https://a/b"));
    assert_eq!(file_uri_to_path("file:///a/b%20c", false), text("/a/b c"));
    assert_eq!(
        file_uri_to_path("file:///a/%ff", false),
        LocalPath::Raw(vec![b'/', b'a', b'/', 0xff])
    );
    assert_eq!(stream_identifier(&Stream::default(), 3), "stream-3");
    assert_eq!(stream_identifier(&stream_of(1), 3), "v");
    let dir = stream_temp_dir("/tmp/x", 0, &stream_of(1), "g");
    assert!(dir.starts_with("/tmp/x/0_"));
    let options = DownloadOptions::for_parallelism(None);
    let out = planned_output_path("/out", &stream_of(1), 0, &options, "g", "");
    assert!(out.starts_with("/out/"));
    assert!(out.ends_with(".ts"));
}

#[test]
fn threads_and_sizes() {
    assert_eq!(thread_mode(1, 9).unwrap(), ThreadMode::Sequential);
    assert_eq!(thread_mode(4, 9).unwrap(), ThreadMode::Concurrent(4));
    assert_eq!(thread_mode(-1, 9).unwrap(), ThreadMode::Concurrent(9));
    assert_eq!(thread_mode(0, 9), Err(Error::config("--thread-count is invalid")));
    assert_eq!(first_size_answer(200, true, Some("123")), SizeAnswer::Known(123));
    assert_eq!(first_size_answer(404, true, Some("123")), SizeAnswer::Unknown);
    assert_eq!(second_size_answer(200, None), SizeAnswer::Unknown);
}

#[test]
fn unknown_encryption_is_merged_as_it_is() {
    let mut s = stream_of(1);
    let plain = merge_policy_for_stream(&s, false, false);
    assert!(!plain.unknown_encryption);
    s.playlist.as_mut().unwrap().media_parts[0].media_segments[0].encryption =
        EncryptionInfo { method: EncryptionMethod::Unknown, ..EncryptionInfo::default() };
    let unknown = merge_policy_for_stream(&s, false, false);
    assert!(unknown.unknown_encryption && unknown.binary_merge_required);
}

#[test]
fn what_is_removed_afterwards() {
    let options = DownloadOptions::for_parallelism(None);
    let files = vec!["/t/a.ts".to_string()];
    let removed = cleanup_after_success("/t", &files, &options);
    assert!(removed.is_some());
    assert_eq!(next_empty_dir("/t/a", false, false, false), None);
}

#[test]
fn segments_are_tried_again_some_times() {
    let (mut task, step) = SegmentTask::start(&segment(7), "/t/7.ts.tmp", "v", 2);
    match step.action {
        SegmentAction::LookFor(path) => assert_eq!(path, "/t/7.ts"),
        other => panic!("{:?}", other),
    }
    let step = task.looked(None);
    match step.action {
        SegmentAction::LookFor(path) => assert_eq!(path, "/t/7_dec.ts"),
        other => panic!("{:?}", other),
    }
    let mut step = task.looked(None);
    let mut fetches = 0;
    loop {
        match step.action {
            SegmentAction::Fetch => {
                fetches += 1;
                step = task.fetched(Err(Error::http("gone")));
            }
            SegmentAction::Wait => step = task.waited(),
            SegmentAction::Fail(e) => {
                assert_eq!(e, Error::http("gone"));
                break;
            }
            other => panic!("{:?}", other),
        }
        assert!(fetches < 10);
    }
    assert_eq!(fetches, 3);
}

#[test]
fn segments_that_are_there_are_not_fetched() {
    let (mut task, _) = SegmentTask::start(&segment(7), "/t/7.ts.tmp", "v", 2);
    let step = task.looked(Some(12));
    match step.action {
        SegmentAction::Done(r) => {
            assert!(r.skipped_existing);
            assert_eq!(r.actual_file_path, "/t/7.ts");
        }
        other => panic!("{:?}", other),
    }
    assert_eq!(step.counted, 12);
}

#[test]
fn segment_is_renamed_when_it_is_there() {
    let (mut task, _) = SegmentTask::start(&segment(7), "/t/7.ts.tmp", "v", 2);
    task.looked(None);
    task.looked(None);
    let step = task.fetched(Ok(result("/t/7.ts.tmp")));
    match step.action {
        SegmentAction::Rename { from, to } => {
            assert_eq!(from, "/t/7.ts.tmp");
            assert_eq!(to, "/t/7.ts");
        }
        other => panic!("{:?}", other),
    }
    match task.renamed().action {
        SegmentAction::Done(r) => assert_eq!(r.actual_file_path, "/t/7.ts"),
        other => panic!("{:?}", other),
    }
}

#[test]
fn responses_are_followed_and_measured() {
    let s = segment(1);
    let mut fetch = HttpFetch::new(&s);
    assert_eq!(fetch.url(), "https://a/1.ts");
    let request: TextMap<String> = TextMap::new();
    let none: Vec<(String, String)> = Vec::new();
    let (_, action) = fetch.answered(&s, &request, 302, Some("/2.ts"), &none, None);
    assert!(matches!(action, FetchAction::Resend));
    assert_eq!(fetch.url(), "https://a/2.ts");
    let (_, action) = fetch.answered(&s, &request, 200, None, &none, Some("4"));
    assert!(matches!(action, FetchAction::Read));
    let mut speed = SpeedState::new(None, 0);
    fetch.received(&vec![1, 2, 3, 4], &mut speed);
    assert_eq!(speed.total_downloaded(), 4);
    let r = fetch.finish("/t/1.ts.tmp", 4);
    assert_eq!(r.response_content_length, Some(4));
    assert!(r.success());
}

fn settings(threads: i32) -> StreamSettings {
    StreamSettings {
        stream_id: "v".to_string(),
        temp_dir: "/t".to_string(),
        save_dir: "/s".to_string(),
        save_name: None,
        label: "Vid".to_string(),
        output_path: "/s/out.ts".to_string(),
        thread_count: threads,
        live_perform_as_vod: false,
        binary_merge: false,
        mp4_real_time_decryption: false,
        check_segments_count: true,
        force_first_media_probe: false,
        has_hooks: false,
        has_prober: false,
        logs: true,
    }
}

struct Run {
    asked: Vec<usize>,
    outcome: Result<StreamDownloadResult, Error>,
}

fn run(threads: i32, n: i64, missing: Option<usize>) -> Run {
    let mut speed = SpeedState::new(None, 0);
    speed.add(5);
    let reading = speed.reading();
    let (mut task, mut step) = StreamTask::begin(settings(threads), stream_of(n));
    let mut asked: Vec<usize> = Vec::new();
    for _ in 0..1000 {
        let action = step.action;
        step = match action {
            StreamAction::Size => task.sized(None),
            StreamAction::MakeDirs => task.dirs_made(reading),
            StreamAction::FetchInit(_) => panic!("there is no initialization segment"),
            StreamAction::Fetch { position, path } => {
                asked.push(position);
                assert_eq!(task.path_of_segment(position), path);
                let outcome = if missing == Some(position) {
                    Err(Error::http("gone"))
                } else {
                    Ok(result(&path))
                };
                task.fetched(outcome, reading)
            }
            StreamAction::FetchBatch { start, end } => {
                let mut items: Vec<BatchItem> = Vec::new();
                for position in (start..end).rev() {
                    asked.push(position);
                    let outcome = if missing == Some(position) {
                        Err(Error::http("gone"))
                    } else {
                        Ok(result(&task.path_of_segment(position)))
                    };
                    items.push(BatchItem { order: position, outcome });
                }
                task.batched(items, reading)
            }
            StreamAction::Inspect(_) => task.inspected(&Vec::new(), reading),
            StreamAction::RewriteInit { .. } => task.rewritten(reading),
            StreamAction::Hook { .. } => task.hooked(Vec::new(), reading),
            StreamAction::Probe(_) => task.probed(Vec::new(), reading),
            StreamAction::Close => task.closed(Vec::new()),
            StreamAction::Finish(r) => return Run { asked, outcome: Ok(r) },
            StreamAction::Fail(e) => return Run { asked, outcome: Err(e) },
        };
    }
    panic!("no end");
}

#[test]
fn streams_are_fetched_in_order() {
    for threads in [1, 3, -1] {
        let r = run(threads, 7, None);
        let files = r.outcome.unwrap().files;
        assert_eq!(files.len(), 7);
        for (i, file) in files.iter().enumerate() {
            assert_eq!(file, &format!("/t/{}.ts.tmp", i));
        }
        let mut asked = r.asked;
        asked.sort();
        assert_eq!(asked, vec![0, 1, 2, 3, 4, 5, 6]);
    }
}

#[test]
fn missing_segments_are_noticed() {
    let r = run(3, 7, Some(4));
    match r.outcome {
        Err(e) => assert!(e.display().contains("Segment count check not pass"), "{:?}", e),
        other => panic!("{:?}", other),
    }
}

#[test]
fn tasks_are_told_and_results_gathered() {
    let streams = vec![stream_of(1), Stream::default()];
    let events = emit_stream_tasks(&streams, &vec!["a".to_string(), "b".to_string()]);
    assert_eq!(
        events,
        vec![
            ProgressEvent::StreamTaskCreated { stream_id: "v".to_string(), label: "a".to_string() },
            ProgressEvent::StreamTaskCreated {
                stream_id: "stream-1".to_string(),
                label: "b".to_string(),
            },
        ]
    );
    let mut gather = StreamGather::new();
    for id in [2usize, 0, 1] {
        let mut r = run(1, 2, None).outcome.unwrap();
        r.stream_id = format!("s{}", id);
        assert_eq!(gather.ended(id, Ok(r)), Ok(()));
    }
    assert_eq!(gather.ended(3, Err(Error::http("gone"))), Err(Error::http("gone")));
    let ids: Vec<String> = gather.finish().into_iter().map(|r| r.stream_id).collect();
    assert_eq!(ids, vec!["s0", "s1", "s2"]);
}
