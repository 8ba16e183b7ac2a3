//! Fetching one stream: in which order its segments come, and what follows from what came.

use crate::config::LogLevel;
use crate::dash::{pad_signed, signed_padded};
use crate::decrypt::{
    no_protection, read_mp4_protection_info, scan_from, Mp4ProtectionInfo, Mp4ProtectionInfoView,
    PsshInfo, PsshInfoView,
};
use crate::download::{
    automatic_binary_merge_warning, can_split, capped_add, index_number, is_complete,
    is_live_record, is_live_record_stream, is_splittable, may_split, merge_policy,
    merge_policy_for_stream, merge_warning, mode_for, number_of_index, pssh_system_label,
    push_stream_progress, split_file, split_large_single_file_by_size, stream_progress_events,
    system_letters, text_or_empty, thread_mode, DownloadMergePolicy, SegmentDownloadResult,
    SegmentDownloadResultView, SpeedReading, StreamDownloadResult, StreamDownloadResultView,
    ThreadMode,
};
use crate::error::{Error, ErrorView, Result};
use crate::event::{ProgressEvent, ProgressEventView};
use crate::manifest::{all_segments, copy_texts, MediaSegment, MediaSegmentView, Stream, StreamView};
use crate::media_info::{media_info_console_label, track_label};
use crate::mux::{MediaInfo, MediaInfoView};
use crate::path::{file_name, join_path, path_file_name, path_join};
use crate::segment_task::debug_log;
use crate::text::{begins_with, cat2, cat4, dec, owned, starts_with, u64_text, usize_text};
use vstd::prelude::*;

verus! {

/// What is asked of a stream's download.
#[derive(Debug)]
pub struct StreamSettings {
    /// The name of the stream in events.
    pub stream_id: String,
    /// Where the segments go.
    pub temp_dir: String,
    pub save_dir: String,
    pub save_name: Option<String>,
    /// What the stream is, for messages.
    pub label: String,
    /// The file that the stream becomes.
    pub output_path: String,
    pub thread_count: i32,
    pub live_perform_as_vod: bool,
    pub binary_merge: bool,
    pub mp4_real_time_decryption: bool,
    pub check_segments_count: bool,
    /// Whether the first segment is looked at although there is an initialization segment.
    pub force_first_media_probe: bool,
    /// Whether finished segments are handed on.
    pub has_hooks: bool,
    /// Whether there is a program that tells what a file holds.
    pub has_prober: bool,
    pub logs: bool,
}

/// Model of `StreamSettings`.
pub struct StreamSettingsView {
    pub stream_id: Seq<char>,
    pub temp_dir: Seq<char>,
    pub save_dir: Seq<char>,
    pub save_name: Option<Seq<char>>,
    pub label: Seq<char>,
    pub output_path: Seq<char>,
    pub thread_count: i32,
    pub live_perform_as_vod: bool,
    pub binary_merge: bool,
    pub mp4_real_time_decryption: bool,
    pub check_segments_count: bool,
    pub force_first_media_probe: bool,
    pub has_hooks: bool,
    pub has_prober: bool,
    pub logs: bool,
}

impl DeepView for StreamSettings {
    type V = StreamSettingsView;

    open spec fn deep_view(&self) -> StreamSettingsView {
        StreamSettingsView {
            stream_id: self.stream_id@,
            temp_dir: self.temp_dir@,
            save_dir: self.save_dir@,
            save_name: self.save_name.deep_view(),
            label: self.label@,
            output_path: self.output_path@,
            thread_count: self.thread_count,
            live_perform_as_vod: self.live_perform_as_vod,
            binary_merge: self.binary_merge,
            mp4_real_time_decryption: self.mp4_real_time_decryption,
            check_segments_count: self.check_segments_count,
            force_first_media_probe: self.force_first_media_probe,
            has_hooks: self.has_hooks,
            has_prober: self.has_prober,
            logs: self.logs,
        }
    }
}

/// Which segment is being dealt with.
#[derive(Clone, Copy, Debug, PartialEq, Eq, Structural)]
pub enum Place {
    Init,
    First,
    Later,
}

/// What the fetching of a stream waits for.
#[derive(Clone, Copy, Debug, PartialEq, Eq, Structural)]
pub enum StreamPhase {
    /// The size of the only file.
    Sizing,
    /// That the directories are there.
    Preparing,
    /// What came of a segment.
    Fetching,
    /// The first bytes of a file.
    Inspecting,
    /// That the initialization segment is written anew.
    Rewriting,
    /// That a finished segment was handed on.
    Hooking,
    /// What a file holds.
    Probing,
    /// What came of several segments.
    Batching,
    /// That the end of the stream was handed on.
    Closing,
    /// Nothing any more.
    Over,
}

/// What is to be done for a stream.
#[derive(Debug)]
pub enum StreamAction {
    /// Ask for the size of the file behind the only segment.
    Size,
    /// Make the directories for segments and outputs.
    MakeDirs,
    /// Fetch the initialization segment into a file.
    FetchInit(String),
    /// Fetch the segment at a position into a file.
    Fetch { position: usize, path: String },
    /// Fetch the segments between two positions at once.
    FetchBatch { start: usize, end: usize },
    /// Read the beginning of a file.
    Inspect(String),
    /// Write the initialization segment anew, as the first segment calls for.
    RewriteInit { init: String, media: String },
    /// Hand a finished file on.
    Hook { place: Place, path: String },
    /// Find out what a file holds.
    Probe(String),
    /// Hand the end of the stream on.
    Close,
    /// The stream is there.
    Finish(StreamDownloadResult),
    /// The stream is given up.
    Fail(Error),
}

/// Model of `StreamAction`.
pub enum StreamActionView {
    Size,
    MakeDirs,
    FetchInit(Seq<char>),
    Fetch { position: int, path: Seq<char> },
    FetchBatch { start: int, end: int },
    Inspect(Seq<char>),
    RewriteInit { init: Seq<char>, media: Seq<char> },
    Hook { place: Place, path: Seq<char> },
    Probe(Seq<char>),
    Close,
    Finish(StreamDownloadResultView),
    Fail(ErrorView),
}

impl DeepView for StreamAction {
    type V = StreamActionView;

    open spec fn deep_view(&self) -> StreamActionView {
        match self {
            StreamAction::Size => StreamActionView::Size,
            StreamAction::MakeDirs => StreamActionView::MakeDirs,
            StreamAction::FetchInit(p) => StreamActionView::FetchInit(p@),
            StreamAction::Fetch { position, path } => StreamActionView::Fetch {
                position: *position as int,
                path: path@,
            },
            StreamAction::FetchBatch { start, end } => StreamActionView::FetchBatch {
                start: *start as int,
                end: *end as int,
            },
            StreamAction::Inspect(p) => StreamActionView::Inspect(p@),
            StreamAction::RewriteInit { init, media } => StreamActionView::RewriteInit {
                init: init@,
                media: media@,
            },
            StreamAction::Hook { place, path } => StreamActionView::Hook {
                place: *place,
                path: path@,
            },
            StreamAction::Probe(p) => StreamActionView::Probe(p@),
            StreamAction::Close => StreamActionView::Close,
            StreamAction::Finish(r) => StreamActionView::Finish(r.deep_view()),
            StreamAction::Fail(e) => StreamActionView::Fail(e.deep_view()),
        }
    }
}

/// What is told, and what is to be done.
#[derive(Debug)]
pub struct StreamStep {
    pub events: Vec<ProgressEvent>,
    pub action: StreamAction,
}

/// Model of `StreamStep`.
pub struct StreamStepView {
    pub events: Seq<ProgressEventView>,
    pub action: StreamActionView,
}

impl DeepView for StreamStep {
    type V = StreamStepView;

    open spec fn deep_view(&self) -> StreamStepView {
        StreamStepView { events: self.events.deep_view(), action: self.action.deep_view() }
    }
}

/// The fetching of one stream.
#[derive(Debug)]
pub struct StreamTask {
    settings: StreamSettings,
    stream: Stream,
    segments: Vec<MediaSegment>,
    split: bool,
    phase: StreamPhase,
    place: Place,
    start: usize,
    next: usize,
    chunk: usize,
    current: String,
    files: Vec<String>,
    results: u64,
    all_good: bool,
    completed: u64,
    missing: u64,
    infos: Vec<MediaInfo>,
    infos_read: bool,
}

/// Model of `StreamTask`.
pub struct StreamTaskView {
    pub settings: StreamSettingsView,
    pub stream: StreamView,
    /// The segments without the initialization segment.
    pub segments: Seq<MediaSegmentView>,
    /// Whether one large file was cut into the segments.
    pub split: bool,
    pub phase: StreamPhase,
    pub place: Place,
    /// The position of the first segment of those that are fetched at once.
    pub start: int,
    /// The position of the segment that is fetched next.
    pub next: int,
    /// How many segments are fetched at once.
    pub chunk: int,
    /// The file that is being dealt with.
    pub current: Seq<char>,
    pub files: Seq<Seq<char>>,
    /// How many segments came, complete or not.
    pub results: u64,
    /// Whether all that came are complete.
    pub all_good: bool,
    pub completed: u64,
    /// How many segments did not come.
    pub missing: u64,
    pub infos: Seq<MediaInfoView>,
    pub infos_read: bool,
}

impl DeepView for StreamTask {
    type V = StreamTaskView;

    closed spec fn deep_view(&self) -> StreamTaskView {
        StreamTaskView {
            settings: self.settings.deep_view(),
            stream: self.stream.deep_view(),
            segments: self.segments.deep_view(),
            split: self.split,
            phase: self.phase,
            place: self.place,
            start: self.start as int,
            next: self.next as int,
            chunk: self.chunk as int,
            current: self.current@,
            files: self.files.deep_view(),
            results: self.results,
            all_good: self.all_good,
            completed: self.completed,
            missing: self.missing,
            infos: self.infos.deep_view(),
            infos_read: self.infos_read,
        }
    }
}

/// A stream with an initialization segment.
pub open spec fn has_init(s: StreamView) -> bool {
    s.playlist is Some && (s.playlist->0).media_init is Some
}

/// All segments, the initialization segment among them.
pub open spec fn total_of(t: StreamTaskView) -> u64 {
    capped_add(
        t.segments.len() as u64,
        if has_init(t.stream) {
            1
        } else {
            0
        },
    )
}

/// Finished segments are handed on, but not where the segments are parts of one file.
pub open spec fn hooks_on(t: StreamTaskView) -> bool {
    t.settings.has_hooks && !t.split
}

/// The name of the file for a segment: its number, filled up with zeros.
pub open spec fn segment_path(t: StreamTaskView, position: int) -> Seq<char> {
    path_join(
        t.settings.temp_dir,
        signed_padded(t.segments[position].index as int, dec(t.segments.len()).len()) + "."@ + (
        match t.stream.extension {
            Some(e) => e,
            None => "clip"@,
        }) + ".tmp"@,
    )
}

/// The event that a segment waits for its turn.
pub open spec fn queued_event(t: StreamTaskView, index: u64) -> ProgressEventView {
    ProgressEventView::SegmentQueued { stream_id: t.settings.stream_id, segment_index: index }
}

/// The error when fewer or more bytes came than were announced.
pub open spec fn length_mismatch() -> ErrorView {
    ErrorView::Http("downloaded segment length did not match response"@)
}

/// The error when segments are missing.
pub open spec fn count_mismatch(expected: u64, actual: u64) -> ErrorView {
    ErrorView::Http(
        "Segment count check not pass, total: "@ + dec(expected as nat) + ", downloaded: "@ + dec(
            actual as nat,
        ) + "."@,
    )
}

/// The events about the progress of the stream.
pub open spec fn told_progress(t: StreamTaskView, speed: SpeedReading, total: u64) -> Seq<
    ProgressEventView,
> {
    stream_progress_events(t.settings.stream_id, speed, t.completed, total)
}

/// What came of the stream.
pub open spec fn stream_result(t: StreamTaskView) -> StreamDownloadResultView {
    let policy = merge_policy(t.stream, t.split, false);
    StreamDownloadResultView {
        stream_id: t.settings.stream_id,
        temp_dir: t.settings.temp_dir,
        files: t.files,
        output_path: t.settings.output_path,
        binary_merge_required: policy.binary_merge_required,
        disable_real_time_decryption: policy.disable_real_time_decryption,
        use_aac_filter: false,
        media_infos: t.infos,
    }
}

/// A state and a step.
pub type Moved = (StreamTaskView, StreamStepView);

/// A step to a phase.
pub open spec fn moved(
    t: StreamTaskView,
    phase: StreamPhase,
    events: Seq<ProgressEventView>,
    action: StreamActionView,
) -> Moved {
    (StreamTaskView { phase, ..t }, StreamStepView { events, action })
}

/// The end of the stream, where everything is there that should be.
pub open spec fn to_close(t: StreamTaskView, events: Seq<ProgressEventView>) -> Moved {
    if t.settings.check_segments_count && t.missing > 0 {
        moved(
            t,
            StreamPhase::Over,
            events,
            StreamActionView::Fail(count_mismatch(total_of(t), t.results)),
        )
    } else if !t.all_good {
        moved(t, StreamPhase::Over, events, StreamActionView::Fail(length_mismatch()))
    } else if hooks_on(t) {
        moved(t, StreamPhase::Closing, events, StreamActionView::Close)
    } else {
        moved(t, StreamPhase::Over, events, StreamActionView::Finish(stream_result(t)))
    }
}

/// The next segment, one after the other.
pub open spec fn to_next(t: StreamTaskView, events: Seq<ProgressEventView>) -> Moved {
    if t.next < t.segments.len() {
        moved(
            StreamTaskView { next: t.next + 1, place: Place::Later, ..t },
            StreamPhase::Fetching,
            events.push(queued_event(t, index_number(t.segments[t.next].index))),
            StreamActionView::Fetch { position: t.next, path: segment_path(t, t.next) },
        )
    } else {
        to_close(t, events)
    }
}

/// The next segments at once.
pub open spec fn to_batch(t: StreamTaskView, events: Seq<ProgressEventView>, speed: SpeedReading) -> Moved {
    if t.next < t.segments.len() {
        let end = if t.next + t.chunk < t.segments.len() {
            t.next + t.chunk
        } else {
            t.segments.len() as int
        };
        moved(
            StreamTaskView { start: t.next, next: end, place: Place::Later, ..t },
            StreamPhase::Batching,
            events,
            StreamActionView::FetchBatch { start: t.next, end },
        )
    } else {
        to_close(t, events + told_progress(t, speed, total_of(t)))
    }
}

/// The segments that are left, as the number of threads says.
pub open spec fn to_rest(t: StreamTaskView, events: Seq<ProgressEventView>, speed: SpeedReading) -> Moved {
    match mode_for(t.settings.thread_count, t.segments.len() - t.next) {
        Err(e) => moved(t, StreamPhase::Over, events, StreamActionView::Fail(e)),
        Ok(ThreadMode::Sequential) => to_next(t, events),
        Ok(ThreadMode::Concurrent(n)) => to_batch(
            StreamTaskView { chunk: n as int, ..t },
            events,
            speed,
        ),
    }
}

/// The first segment, which is looked at where there is no initialization segment or where that is
/// asked for; else the segments that are left.
pub open spec fn to_first(t: StreamTaskView, events: Seq<ProgressEventView>, speed: SpeedReading) -> Moved {
    if t.segments.len() > 0 && (!has_init(t.stream) || t.settings.force_first_media_probe) {
        moved(
            StreamTaskView { start: 0, next: 1, place: Place::First, ..t },
            StreamPhase::Fetching,
            events.push(queued_event(t, index_number(t.segments[0].index))),
            StreamActionView::Fetch { position: 0, path: segment_path(t, 0) },
        )
    } else {
        to_rest(t, events, speed)
    }
}

/// The file that is being dealt with is taken.
pub open spec fn with_file(t: StreamTaskView) -> StreamTaskView {
    StreamTaskView {
        files: t.files.push(t.current),
        results: capped_add(t.results, 1),
        completed: capped_add(t.completed, 1),
        ..t
    }
}

/// The file that is being dealt with is taken, which is told; then comes what follows its place.
pub open spec fn to_accept(t: StreamTaskView, events: Seq<ProgressEventView>, speed: SpeedReading) -> Moved {
    let taken = with_file(t);
    let told = events + told_progress(taken, speed, total_of(t));
    match t.place {
        Place::Init => to_first(taken, told, speed),
        Place::First => to_rest(taken, told, speed),
        Place::Later => to_next(taken, told),
    }
}

/// What the file holds is found out, once for a stream; then it is taken.
pub open spec fn to_probe(t: StreamTaskView, events: Seq<ProgressEventView>, speed: SpeedReading) -> Moved {
    if t.place != Place::Later && !t.infos_read && t.settings.has_prober {
        moved(t, StreamPhase::Probing, events, StreamActionView::Probe(t.current))
    } else {
        to_accept(t, events, speed)
    }
}

/// The file is handed on, where that is asked for.
pub open spec fn to_hook(t: StreamTaskView, events: Seq<ProgressEventView>, speed: SpeedReading) -> Moved {
    if hooks_on(t) {
        moved(
            t,
            StreamPhase::Hooking,
            events,
            StreamActionView::Hook { place: t.place, path: t.current },
        )
    } else {
        to_probe(t, events, speed)
    }
}

/// The start: a stream of one file that is not live may be cut into parts.
pub open spec fn stream_begun(settings: StreamSettingsView, stream: StreamView) -> Moved {
    let segments = match stream.playlist {
        Some(p) => all_segments(p.media_parts),
        None => Seq::empty(),
    };
    let t = StreamTaskView {
        settings,
        stream,
        segments,
        split: false,
        phase: StreamPhase::Over,
        place: Place::Init,
        start: 0,
        next: 0,
        chunk: 1,
        current: Seq::empty(),
        files: Seq::empty(),
        results: 0,
        all_good: true,
        completed: 0,
        missing: 0,
        infos: Seq::empty(),
        infos_read: false,
    };
    if segments.len() == 1 && !(stream.playlist->0).is_live {
        let told = if starts_with(segments[0].url, "file:"@) {
            seq![debug_log("The 'file' scheme is not supported."@)]
        } else {
            Seq::empty()
        };
        if may_split(segments[0]) {
            moved(t, StreamPhase::Sizing, told, StreamActionView::Size)
        } else {
            stream_prepared(t, None, told)
        }
    } else {
        stream_prepared(t, None, Seq::empty())
    }
}

/// The message about where things go.
pub open spec fn directory_message(s: StreamSettingsView) -> Seq<char> {
    "dirName: "@ + text_or_empty(path_file_name(s.temp_dir)) + "; tmpDir: "@ + s.temp_dir
        + "; saveDir: "@ + s.save_dir + "; saveName: "@ + text_or_empty(s.save_name)
}

/// A warning.
pub open spec fn warning(message: Seq<char>) -> ProgressEventView {
    ProgressEventView::Warning { message }
}

/// What is told when a file was cut into parts.
pub open spec fn split_events(t: StreamTaskView) -> Seq<ProgressEventView> {
    if t.settings.mp4_real_time_decryption {
        seq![
            warning("The entire file has been cut into small segments to accelerate"@),
            warning("Real-time decryption has been disabled"@),
        ]
    } else {
        seq![warning("The entire file has been cut into small segments to accelerate"@)]
    }
}

/// The segments are known: the directories are made.
pub open spec fn stream_prepared(
    t: StreamTaskView,
    parts: Option<Seq<MediaSegmentView>>,
    events: Seq<ProgressEventView>,
) -> Moved {
    match parts {
        Some(segments) => moved(
            StreamTaskView { segments, split: true, ..t },
            StreamPhase::Preparing,
            (events + split_events(t)).push(debug_log(directory_message(t.settings))),
            StreamActionView::MakeDirs,
        ),
        None => moved(
            t,
            StreamPhase::Preparing,
            events.push(debug_log(directory_message(t.settings))),
            StreamActionView::MakeDirs,
        ),
    }
}

/// The size of the only file is known, or that it cannot be.
pub open spec fn stream_sized(t: StreamTaskView, size: Option<i64>) -> Moved {
    stream_prepared(
        t,
        match size {
            Some(n) => split_file(t.segments[0], n as int),
            None => None,
        },
        Seq::empty(),
    )
}

/// What is told before anything is fetched.
pub open spec fn opening_events(t: StreamTaskView, speed: SpeedReading) -> Seq<ProgressEventView> {
    let live = is_live_record(t.stream, t.settings.live_perform_as_vod);
    let started = if live {
        Seq::empty()
    } else {
        seq![
            ProgressEventView::Log {
                level: LogLevel::Info,
                message: "Start downloading..."@ + t.settings.label,
            },
        ]
    };
    let warned = match merge_warning(t.stream, t.settings.binary_merge) {
        Some(m) => started.push(warning(m)),
        None => started,
    };
    warned + told_progress(
        t,
        speed,
        if live {
            t.segments.len() as u64
        } else {
            total_of(t)
        },
    )
}

/// The directories are there: the initialization segment comes first.
pub open spec fn stream_ready(t: StreamTaskView, speed: SpeedReading) -> Moved {
    let told = opening_events(t, speed);
    if has_init(t.stream) {
        moved(
            StreamTaskView { place: Place::Init, ..t },
            StreamPhase::Fetching,
            told.push(queued_event(t, 0)),
            StreamActionView::FetchInit(path_join(t.settings.temp_dir, "_init.mp4.tmp"@)),
        )
    } else {
        to_first(t, told, speed)
    }
}

/// What came of a segment. The first must be complete; of the later ones those that did not come are
/// counted, except where the user stopped them.
pub open spec fn stream_fetched(
    t: StreamTaskView,
    outcome: core::result::Result<SegmentDownloadResultView, ErrorView>,
    speed: SpeedReading,
) -> Moved {
    match (t.place, outcome) {
        (Place::Later, Ok(r)) => if is_complete(r) {
            to_hook(
                StreamTaskView { current: r.actual_file_path, ..t },
                Seq::empty(),
                speed,
            )
        } else {
            to_next(
                StreamTaskView { results: capped_add(t.results, 1), all_good: false, ..t },
                Seq::empty(),
            )
        },
        (Place::Later, Err(e)) => if e == ErrorView::UserCancelled {
            moved(t, StreamPhase::Over, Seq::empty(), StreamActionView::Fail(e))
        } else {
            to_next(
                StreamTaskView { missing: capped_add(t.missing, 1), ..t },
                seq![warning(e.message())],
            )
        },
        (_, Ok(r)) => if is_complete(r) {
            moved(
                StreamTaskView { current: r.actual_file_path, ..t },
                StreamPhase::Inspecting,
                Seq::empty(),
                StreamActionView::Inspect(r.actual_file_path),
            )
        } else {
            moved(t, StreamPhase::Over, Seq::empty(), StreamActionView::Fail(length_mismatch()))
        },
        (_, Err(e)) => moved(t, StreamPhase::Over, Seq::empty(), StreamActionView::Fail(e)),
    }
}

/// A message about the protection of a stream.
pub open spec fn protection_event(id: Seq<char>, message: Seq<char>) -> ProgressEventView {
    ProgressEventView::DecryptProgress { stream_id: Some(id), message }
}

/// What is told of the first `n` protection systems.
pub open spec fn pssh_events(id: Seq<char>, psshs: Seq<PsshInfoView>, n: int) -> Seq<
    ProgressEventView,
>
    decreases n,
{
    if n <= 0 {
        Seq::empty()
    } else {
        pssh_events(id, psshs, n - 1).push(
            protection_event(
                id,
                "PSSH("@ + system_letters(psshs[n - 1].system) + "): "@ + psshs[n - 1].data,
            ),
        )
    }
}

/// What is told of the protection that a file describes.
pub open spec fn protection_events(id: Seq<char>, info: Mp4ProtectionInfoView) -> Seq<
    ProgressEventView,
> {
    let scheme = match info.scheme {
        Some(s) => seq![protection_event(id, "Type: "@ + s)],
        None => Seq::empty(),
    };
    let systems = scheme + pssh_events(id, info.psshs, info.psshs.len() as int);
    match info.kid {
        Some(k) => systems.push(protection_event(id, "KID: "@ + k)),
        None => systems,
    }
}

/// The beginning of a file is known: its protection is told, and the first segment of Smooth
/// Streaming says how the initialization segment must be.
pub open spec fn stream_inspected(t: StreamTaskView, bytes: Seq<u8>, speed: SpeedReading) -> Moved {
    let told = protection_events(
        t.settings.stream_id,
        scan_from(bytes, 0, no_protection()),
    );
    if t.place == Place::First && t.stream.mss_data is Some && t.files.len() > 0 {
        moved(
            t,
            StreamPhase::Rewriting,
            told,
            StreamActionView::RewriteInit { init: t.files[0], media: t.current },
        )
    } else {
        to_hook(t, told, speed)
    }
}

/// The initialization segment is written anew.
pub open spec fn stream_rewritten(t: StreamTaskView, speed: SpeedReading) -> Moved {
    to_hook(t, Seq::empty(), speed)
}

/// A finished segment was handed on.
pub open spec fn stream_hooked(
    t: StreamTaskView,
    events: Seq<ProgressEventView>,
    speed: SpeedReading,
) -> Moved {
    to_probe(t, events, speed)
}

/// What a file holds is known.
pub open spec fn stream_probed(
    t: StreamTaskView,
    infos: Seq<MediaInfoView>,
    speed: SpeedReading,
) -> Moved {
    if infos.len() == 0 {
        to_accept(t, Seq::empty(), speed)
    } else {
        to_accept(
            StreamTaskView { infos, infos_read: true, ..t },
            if t.settings.logs {
                seq![
                    ProgressEventView::MediaInfo {
                        stream_id: Some(t.settings.stream_id),
                        lines: infos.map_values(|i: MediaInfoView| track_label(i)),
                    },
                ]
            } else {
                Seq::empty()
            },
            speed,
        )
    }
}

/// What came of one of several segments.
pub struct BatchItemView {
    pub order: int,
    pub outcome: core::result::Result<SegmentDownloadResultView, ErrorView>,
}

/// The outcomes of a batch, so far.
pub struct BatchView {
    /// What came, by the positions of the segments.
    pub kept: Seq<(int, SegmentDownloadResultView)>,
    pub missing: u64,
    pub events: Seq<ProgressEventView>,
    /// Why the stream is given up.
    pub stopped: Option<ErrorView>,
}

/// There is one outcome for each of the segments from `start` up to `end`.
pub open spec fn covers(items: Seq<BatchItemView>, start: int, end: int) -> bool {
    &&& items.len() == end - start
    &&& forall|i: int| 0 <= i < items.len() ==> start <= (#[trigger] items[i]).order < end
    &&& forall|i: int, j: int|
        0 <= i < j < items.len() ==> (#[trigger] items[i]).order != (#[trigger] items[j]).order
}

/// `x` put behind everything that does not come after it.
pub open spec fn insert_by_order(
    s: Seq<(int, SegmentDownloadResultView)>,
    x: (int, SegmentDownloadResultView),
) -> Seq<(int, SegmentDownloadResultView)>
    decreases s.len(),
{
    if s.len() > 0 && x.0 < s.last().0 {
        insert_by_order(s.drop_last(), x).push(s.last())
    } else {
        s.push(x)
    }
}

/// The outcomes of the first `n` items of a batch, in the order in which they came.
pub open spec fn batch_of(items: Seq<BatchItemView>, n: int, missing: u64) -> BatchView
    decreases n,
{
    if n <= 0 {
        BatchView { kept: Seq::empty(), missing, events: Seq::empty(), stopped: None }
    } else {
        let b = batch_of(items, n - 1, missing);
        if b.stopped is Some {
            b
        } else {
            match items[n - 1].outcome {
                Ok(r) => BatchView { kept: insert_by_order(b.kept, (items[n - 1].order, r)), ..b },
                Err(e) => if e == ErrorView::UserCancelled {
                    BatchView { stopped: Some(e), ..b }
                } else {
                    BatchView {
                        missing: capped_add(b.missing, 1),
                        events: b.events.push(warning(e.message())),
                        ..b
                    }
                },
            }
        }
    }
}

/// The state after the first `n` results of a batch were taken.
pub open spec fn with_results(
    t: StreamTaskView,
    kept: Seq<(int, SegmentDownloadResultView)>,
    n: int,
) -> StreamTaskView
    decreases n,
{
    if n <= 0 {
        t
    } else {
        let before = with_results(t, kept, n - 1);
        let r = kept[n - 1].1;
        if is_complete(r) {
            with_file(StreamTaskView { current: r.actual_file_path, ..before })
        } else {
            StreamTaskView {
                results: capped_add(before.results, 1),
                all_good: false,
                ..before
            }
        }
    }
}

/// What came of several segments: they are taken in the order of the stream.
pub open spec fn stream_batched(t: StreamTaskView, items: Seq<BatchItemView>, speed: SpeedReading) -> Moved {
    let b = batch_of(items, items.len() as int, t.missing);
    match b.stopped {
        Some(e) => moved(
            StreamTaskView { missing: b.missing, ..t },
            StreamPhase::Over,
            b.events,
            StreamActionView::Fail(e),
        ),
        None => to_batch(
            with_results(
                StreamTaskView { missing: b.missing, ..t },
                b.kept,
                b.kept.len() as int,
            ),
            b.events,
            speed,
        ),
    }
}

/// The end of the stream was handed on.
pub open spec fn stream_closed(t: StreamTaskView, events: Seq<ProgressEventView>) -> Moved {
    moved(t, StreamPhase::Over, events, StreamActionView::Finish(stream_result(t)))
}

/// The orders do not descend.
pub open spec fn orders_ascend(s: Seq<(int, SegmentDownloadResultView)>) -> bool {
    forall|i: int, j: int| 0 <= i < j < s.len() ==> (#[trigger] s[i]).0 <= (#[trigger] s[j]).0
}

proof fn lemma_insert_by_order(
    s: Seq<(int, SegmentDownloadResultView)>,
    x: (int, SegmentDownloadResultView),
)
    requires
        orders_ascend(s),
    ensures
        orders_ascend(insert_by_order(s, x)),
        insert_by_order(s, x).to_multiset() == s.to_multiset().insert(x),
        forall|i: int|
            0 <= i < insert_by_order(s, x).len() ==> (#[trigger] insert_by_order(s, x)[i]).0 <= if s.len()
                > 0 && x.0 < s.last().0 {
                s.last().0
            } else {
                x.0
            },
    decreases s.len(),
{
    broadcast use vstd::seq_lib::group_to_multiset_ensures;

    let r = insert_by_order(s, x);
    if s.len() > 0 && x.0 < s.last().0 {
        let t = insert_by_order(s.drop_last(), x);
        lemma_insert_by_order(s.drop_last(), x);
        assert(s =~= s.drop_last().push(s.last()));
        assert(r.to_multiset() =~= s.to_multiset().insert(x));
        assert forall|i: int| 0 <= i < r.len() implies (#[trigger] r[i]).0 <= s.last().0 by {
            if i < r.len() - 1 {
                assert(r[i] == t[i]);
                if s.len() > 1 {
                    assert(s.drop_last().last() == s[s.len() - 2]);
                    assert(s[s.len() - 2].0 <= s[s.len() - 1].0);
                }
            }
        }
        assert forall|i: int, j: int| 0 <= i < j < r.len() implies (#[trigger] r[i]).0 <= (
        #[trigger] r[j]).0 by {
            if j < r.len() - 1 {
                assert(r[i] == t[i] && r[j] == t[j]);
            }
        }
    } else {
        assert forall|i: int| 0 <= i < r.len() implies (#[trigger] r[i]).0 <= x.0 by {
            if i < s.len() {
                assert(r[i] == s[i]);
                assert(s[s.len() - 1] == s.last());
            }
        }
        assert forall|i: int, j: int| 0 <= i < j < r.len() implies (#[trigger] r[i]).0 <= (
        #[trigger] r[j]).0 by {
            if j < s.len() {
                assert(r[i] == s[i] && r[j] == s[j]);
            }
        }
    }
}

/// Whatever the order in which the segments of a batch come, they are taken in the order of the
/// stream.
pub proof fn law_batches_keep_the_order(items: Seq<BatchItemView>, n: int, missing: u64)
    requires
        0 <= n <= items.len(),
    ensures
        orders_ascend(batch_of(items, n, missing).kept),
    decreases n,
{
    if n > 0 {
        law_batches_keep_the_order(items, n - 1, missing);
        let b = batch_of(items, n - 1, missing);
        match items[n - 1].outcome {
            Ok(r) => {
                lemma_insert_by_order(b.kept, (items[n - 1].order, r));
            },
            Err(_) => {},
        }
    }
}

/// Every segment of a batch is taken or counted as missing, unless the stream is given up.
pub proof fn law_batches_lose_nothing(items: Seq<BatchItemView>, n: int, missing: u64)
    requires
        0 <= n <= items.len(),
        missing + items.len() <= u64::MAX,
    ensures
        batch_of(items, n, missing).stopped is None ==> batch_of(items, n, missing).kept.len()
            + batch_of(items, n, missing).missing == n + missing,
    decreases n,
{
    if n > 0 {
        law_batches_lose_nothing(items, n - 1, missing);
        let b = batch_of(items, n - 1, missing);
        if b.stopped is None {
            match items[n - 1].outcome {
                Ok(r) => {
                    lemma_insert_length(b.kept, (items[n - 1].order, r));
                },
                Err(_) => {},
            }
        }
    }
}

proof fn lemma_insert_length(
    s: Seq<(int, SegmentDownloadResultView)>,
    x: (int, SegmentDownloadResultView),
)
    ensures
        insert_by_order(s, x).len() == s.len() + 1,
    decreases s.len(),
{
    if s.len() > 0 && x.0 < s.last().0 {
        lemma_insert_length(s.drop_last(), x);
    }
}

/// A stream comes to its end only where all segments that came are complete, and none is missing where
/// they are counted.
pub proof fn law_only_complete_streams_end(t: StreamTaskView, events: Seq<ProgressEventView>)
    ensures
        to_close(t, events).1.action is Finish || to_close(t, events).1.action is Close ==> t.all_good
            && (t.settings.check_segments_count ==> t.missing == 0),
{
}

/// What came of one of several segments.
#[derive(Debug)]
pub struct BatchItem {
    /// The position of the segment.
    pub order: usize,
    pub outcome: Result<SegmentDownloadResult>,
}

/// Model of an outcome.
pub open spec fn view_outcome(r: Result<SegmentDownloadResult>) -> core::result::Result<
    SegmentDownloadResultView,
    ErrorView,
> {
    match r {
        Ok(v) => Ok(v.deep_view()),
        Err(e) => Err(e.deep_view()),
    }
}

impl DeepView for BatchItem {
    type V = BatchItemView;

    open spec fn deep_view(&self) -> BatchItemView {
        BatchItemView { order: self.order as int, outcome: view_outcome(self.outcome) }
    }
}

fn push_event(events: &mut Vec<ProgressEvent>, event: ProgressEvent)
    ensures
        final(events).deep_view() == old(events).deep_view().push(event.deep_view()),
{
    let ghost before = events.deep_view();
    let ghost item = event.deep_view();
    events.push(event);
    assert(events.deep_view() =~= before.push(item));
}

fn push_warning(events: &mut Vec<ProgressEvent>, message: &str)
    ensures
        final(events).deep_view() == old(events).deep_view().push(warning(message@)),
{
    push_event(events, ProgressEvent::Warning { message: owned(message) });
}

fn no_events() -> (r: Vec<ProgressEvent>)
    ensures
        r.deep_view() == Seq::<ProgressEventView>::empty(),
{
    let events: Vec<ProgressEvent> = Vec::new();
    assert(events.deep_view() =~= Seq::<ProgressEventView>::empty());
    events
}

fn add_one(n: u64) -> (r: u64)
    ensures
        r == capped_add(n, 1),
{
    if n == u64::MAX {
        u64::MAX
    } else {
        n + 1
    }
}

impl StreamTask {
    /// The next segment lies within the stream, and at least one is fetched at a time.
    pub open spec fn wf(&self) -> bool {
        task_wf(self.deep_view())
    }

    /// What the task waits for.
    pub fn phase(&self) -> (r: StreamPhase)
        ensures
            r == self.deep_view().phase,
    {
        self.phase
    }

    /// The segments without the initialization segment.
    pub fn segments(&self) -> (r: &Vec<MediaSegment>)
        ensures
            r.deep_view() == self.deep_view().segments,
    {
        &self.segments
    }

    /// Whether finished segments are handed on.
    pub fn hooks_active(&self) -> (r: bool)
        ensures
            r == hooks_on(self.deep_view()),
    {
        self.settings.has_hooks && !self.split
    }

    /// The file of the initialization segment, where that is there.
    pub fn init_file(&self) -> (r: Option<&str>)
        ensures
            crate::text::opt(r) == if has_init(self.deep_view().stream)
                && self.deep_view().files.len() > 0 {
                Some(self.deep_view().files[0])
            } else {
                None
            },
    {
        if self.stream_has_init() && self.files.len() > 0 {
            assert(self.files.deep_view()[0] == self.files@[0]@);
            Some(self.files[0].as_str())
        } else {
            None
        }
    }

    fn stream_has_init(&self) -> (r: bool)
        ensures
            r == has_init(self.deep_view().stream),
    {
        match &self.stream.playlist {
            Some(p) => p.media_init.is_some(),
            None => false,
        }
    }

    fn total(&self) -> (r: u64)
        ensures
            r == total_of(self.deep_view()),
    {
        let n: u64 = self.segments.len() as u64;
        if self.stream_has_init() {
            add_one(n)
        } else {
            n
        }
    }

    /// The file for the segment at a position, while it is not finished.
    pub fn path_of_segment(&self, position: usize) -> (r: String)
        requires
            position < self.deep_view().segments.len(),
        ensures
            r@ == segment_path(self.deep_view(), position as int),
    {
        assert(self.segments.deep_view()[position as int]
            == self.segments@[position as int].deep_view());
        let digits: String = usize_text(self.segments.len());
        let width: usize = digits.as_str().unicode_len();
        let number: String = pad_signed(self.segments[position].index, width);
        let ending: &str = match &self.stream.extension {
            Some(e) => e.as_str(),
            None => "clip",
        };
        let name: String = cat4(number.as_str(), ".", ending, ".tmp");
        join_path(self.settings.temp_dir.as_str(), name.as_str())
    }

    /// The event that the segment at a position waits for its turn.
    pub fn queued(&self, position: usize) -> (r: ProgressEvent)
        requires
            position < self.deep_view().segments.len(),
        ensures
            r.deep_view() == queued_event(
                self.deep_view(),
                index_number(self.deep_view().segments[position as int].index),
            ),
    {
        assert(self.segments.deep_view()[position as int]
            == self.segments@[position as int].deep_view());
        ProgressEvent::SegmentQueued {
            stream_id: self.settings.stream_id.clone(),
            segment_index: number_of_index(self.segments[position].index),
        }
    }

    fn goes(&mut self, phase: StreamPhase, events: Vec<ProgressEvent>, action: StreamAction) -> (r:
        StreamStep)
        ensures
            (final(self).deep_view(), r.deep_view()) == moved(
                old(self).deep_view(),
                phase,
                events.deep_view(),
                action.deep_view(),
            ),
    {
        self.phase = phase;
        StreamStep { events, action }
    }

    fn result(&self) -> (r: StreamDownloadResult)
        ensures
            r.deep_view() == stream_result(self.deep_view()),
    {
        let policy: DownloadMergePolicy = merge_policy_for_stream(&self.stream, self.split, false);
        StreamDownloadResult {
            stream_id: self.settings.stream_id.clone(),
            temp_dir: self.settings.temp_dir.clone(),
            files: copy_texts(&self.files),
            output_path: self.settings.output_path.clone(),
            binary_merge_required: policy.binary_merge_required,
            disable_real_time_decryption: policy.disable_real_time_decryption,
            use_aac_filter: false,
            media_infos: copy_infos(&self.infos),
        }
    }

    fn go_close(&mut self, events: Vec<ProgressEvent>) -> (r: StreamStep)
        ensures
            (final(self).deep_view(), r.deep_view()) == to_close(
                old(self).deep_view(),
                events.deep_view(),
            ),
    {
        if self.settings.check_segments_count && self.missing > 0 {
            let expected: String = u64_text(self.total());
            let actual: String = u64_text(self.results);
            let mut message: String = owned("Segment count check not pass, total: ");
            message.append(expected.as_str());
            message.append(", downloaded: ");
            message.append(actual.as_str());
            message.append(".");
            let e: Error = Error::http(message.as_str());
            return self.goes(StreamPhase::Over, events, StreamAction::Fail(e));
        }
        if !self.all_good {
            let e: Error = Error::http("downloaded segment length did not match response");
            return self.goes(StreamPhase::Over, events, StreamAction::Fail(e));
        }
        if self.hooks_active() {
            return self.goes(StreamPhase::Closing, events, StreamAction::Close);
        }
        let result: StreamDownloadResult = self.result();
        self.goes(StreamPhase::Over, events, StreamAction::Finish(result))
    }

    fn go_next(&mut self, events: Vec<ProgressEvent>) -> (r: StreamStep)
        requires
            old(self).wf(),
        ensures
            final(self).wf(),
            (final(self).deep_view(), r.deep_view()) == to_next(
                old(self).deep_view(),
                events.deep_view(),
            ),
    {
        let position: usize = self.next;
        if position < self.segments.len() {
            let mut events: Vec<ProgressEvent> = events;
            let queued: ProgressEvent = self.queued(position);
            push_event(&mut events, queued);
            let path: String = self.path_of_segment(position);
            self.next = position + 1;
            self.place = Place::Later;
            return self.goes(
                StreamPhase::Fetching,
                events,
                StreamAction::Fetch { position, path },
            );
        }
        self.go_close(events)
    }

    fn go_batch(&mut self, events: Vec<ProgressEvent>, speed: SpeedReading) -> (r: StreamStep)
        requires
            old(self).wf(),
        ensures
            final(self).wf(),
            (final(self).deep_view(), r.deep_view()) == to_batch(
                old(self).deep_view(),
                events.deep_view(),
                speed,
            ),
    {
        let start: usize = self.next;
        let count: usize = self.segments.len();
        if start < count {
            let end: usize = if self.chunk < count - start {
                start + self.chunk
            } else {
                count
            };
            self.start = start;
            self.next = end;
            self.place = Place::Later;
            return self.goes(
                StreamPhase::Batching,
                events,
                StreamAction::FetchBatch { start, end },
            );
        }
        let mut events: Vec<ProgressEvent> = events;
        let total: u64 = self.total();
        push_stream_progress(
            &mut events,
            self.settings.stream_id.as_str(),
            speed,
            self.completed,
            total,
        );
        self.go_close(events)
    }

    fn go_rest(&mut self, events: Vec<ProgressEvent>, speed: SpeedReading) -> (r: StreamStep)
        requires
            old(self).wf(),
        ensures
            final(self).wf(),
            (final(self).deep_view(), r.deep_view()) == to_rest(
                old(self).deep_view(),
                events.deep_view(),
                speed,
            ),
    {
        match thread_mode(self.settings.thread_count, self.segments.len() - self.next) {
            Err(e) => self.goes(StreamPhase::Over, events, StreamAction::Fail(e)),
            Ok(ThreadMode::Sequential) => self.go_next(events),
            Ok(ThreadMode::Concurrent(n)) => {
                self.chunk = n;
                self.go_batch(events, speed)
            },
        }
    }

    fn go_first(&mut self, events: Vec<ProgressEvent>, speed: SpeedReading) -> (r: StreamStep)
        requires
            old(self).wf(),
        ensures
            final(self).wf(),
            (final(self).deep_view(), r.deep_view()) == to_first(
                old(self).deep_view(),
                events.deep_view(),
                speed,
            ),
    {
        if self.segments.len() > 0 && (!self.stream_has_init()
            || self.settings.force_first_media_probe) {
            let mut events: Vec<ProgressEvent> = events;
            let queued: ProgressEvent = self.queued(0);
            push_event(&mut events, queued);
            let path: String = self.path_of_segment(0);
            self.start = 0;
            self.next = 1;
            self.place = Place::First;
            return self.goes(
                StreamPhase::Fetching,
                events,
                StreamAction::Fetch { position: 0, path },
            );
        }
        self.go_rest(events, speed)
    }

    fn take_file(&mut self)
        requires
            old(self).wf(),
        ensures
            final(self).wf(),
            final(self).deep_view() == with_file(old(self).deep_view()),
    {
        let ghost before = self.files.deep_view();
        let file: String = self.current.clone();
        self.files.push(file);
        assert(self.files.deep_view() =~= before.push(self.current@));
        self.results = add_one(self.results);
        self.completed = add_one(self.completed);
    }

    fn go_accept(&mut self, events: Vec<ProgressEvent>, speed: SpeedReading) -> (r: StreamStep)
        requires
            old(self).wf(),
        ensures
            final(self).wf(),
            (final(self).deep_view(), r.deep_view()) == to_accept(
                old(self).deep_view(),
                events.deep_view(),
                speed,
            ),
    {
        let total: u64 = self.total();
        self.take_file();
        let mut events: Vec<ProgressEvent> = events;
        push_stream_progress(
            &mut events,
            self.settings.stream_id.as_str(),
            speed,
            self.completed,
            total,
        );
        match self.place {
            Place::Init => self.go_first(events, speed),
            Place::First => self.go_rest(events, speed),
            Place::Later => self.go_next(events),
        }
    }

    fn go_probe(&mut self, events: Vec<ProgressEvent>, speed: SpeedReading) -> (r: StreamStep)
        requires
            old(self).wf(),
        ensures
            final(self).wf(),
            (final(self).deep_view(), r.deep_view()) == to_probe(
                old(self).deep_view(),
                events.deep_view(),
                speed,
            ),
    {
        if self.place != Place::Later && !self.infos_read && self.settings.has_prober {
            let path: String = self.current.clone();
            return self.goes(StreamPhase::Probing, events, StreamAction::Probe(path));
        }
        self.go_accept(events, speed)
    }

    fn go_hook(&mut self, events: Vec<ProgressEvent>, speed: SpeedReading) -> (r: StreamStep)
        requires
            old(self).wf(),
        ensures
            final(self).wf(),
            (final(self).deep_view(), r.deep_view()) == to_hook(
                old(self).deep_view(),
                events.deep_view(),
                speed,
            ),
    {
        if self.hooks_active() {
            let path: String = self.current.clone();
            let place: Place = self.place;
            return self.goes(StreamPhase::Hooking, events, StreamAction::Hook { place, path });
        }
        self.go_probe(events, speed)
    }
}

/// The next segment lies within the stream, behind those that are fetched at once, and at least one is
/// fetched at a time.
pub open spec fn task_wf(t: StreamTaskView) -> bool {
    0 <= t.start <= t.next <= t.segments.len() && t.chunk >= 1
}

fn copy_infos(infos: &Vec<MediaInfo>) -> (r: Vec<MediaInfo>)
    ensures
        r.deep_view() == infos.deep_view(),
{
    let mut out: Vec<MediaInfo> = Vec::new();
    let mut i: usize = 0;
    while i < infos.len()
        invariant
            i <= infos@.len(),
            out.deep_view() =~= infos.deep_view().subrange(0, i as int),
        decreases infos@.len() - i,
    {
        let info: MediaInfo = infos[i].clone();
        let ghost before = out.deep_view();
        let ghost item = info.deep_view();
        out.push(info);
        assert(out.deep_view() =~= before.push(item));
        assert(infos.deep_view()[i as int] == item);
        i = i + 1;
    }
    assert(infos.deep_view().subrange(0, infos@.len() as int) =~= infos.deep_view());
    out
}

fn gather_segments(stream: &Stream) -> (r: Vec<MediaSegment>)
    ensures
        r.deep_view() == match stream.deep_view().playlist {
            Some(p) => all_segments(p.media_parts),
            None => Seq::empty(),
        },
{
    let mut out: Vec<MediaSegment> = Vec::new();
    assert(out.deep_view() =~= Seq::<MediaSegmentView>::empty());
    match &stream.playlist {
        None => out,
        Some(p) => {
            let ghost parts = p.media_parts.deep_view();
            let mut i: usize = 0;
            assert(parts.subrange(0, 0) =~= Seq::<Seq<MediaSegmentView>>::empty());
            while i < p.media_parts.len()
                invariant
                    i <= p.media_parts@.len(),
                    parts == p.media_parts.deep_view(),
                    out.deep_view() == all_segments(parts.subrange(0, i as int)),
                decreases p.media_parts@.len() - i,
            {
                assert(parts.subrange(0, i + 1).drop_last() =~= parts.subrange(0, i as int));
                let ghost part = p.media_parts@[i as int].deep_view();
                assert(parts.subrange(0, i + 1).last() == part);
                let segments: &Vec<MediaSegment> = &p.media_parts[i].media_segments;
                let ghost start = out.deep_view();
                let mut k: usize = 0;
                while k < segments.len()
                    invariant
                        k <= segments@.len(),
                        part == segments.deep_view(),
                        out.deep_view() =~= start + part.subrange(0, k as int),
                    decreases segments@.len() - k,
                {
                    let segment: MediaSegment = segments[k].clone();
                    let ghost before = out.deep_view();
                    let ghost item = segment.deep_view();
                    assert(part[k as int] == item);
                    out.push(segment);
                    assert(out.deep_view() =~= before.push(item));
                    k = k + 1;
                }
                assert(part.subrange(0, part.len() as int) =~= part);
                i = i + 1;
            }
            assert(parts.subrange(0, parts.len() as int) =~= parts);
            out
        },
    }
}

fn make_directory_message(s: &StreamSettings) -> (r: String)
    ensures
        r@ == directory_message(s.deep_view()),
{
    let name: &str = match file_name(s.temp_dir.as_str()) {
        Some(n) => n,
        None => "",
    };
    let save_name: &str = match &s.save_name {
        Some(n) => n.as_str(),
        None => "",
    };
    let mut out: String = owned("dirName: ");
    out.append(name);
    out.append("; tmpDir: ");
    out.append(s.temp_dir.as_str());
    out.append("; saveDir: ");
    out.append(s.save_dir.as_str());
    out.append("; saveName: ");
    out.append(save_name);
    out
}

fn push_protection_events(events: &mut Vec<ProgressEvent>, id: &str, info: &Mp4ProtectionInfo)
    requires
        old(events).deep_view() == Seq::<ProgressEventView>::empty(),
    ensures
        final(events).deep_view() == protection_events(id@, info.deep_view()),
{
    match &info.scheme {
        Some(s) => {
            push_event(
                events,
                ProgressEvent::DecryptProgress {
                    stream_id: Some(owned(id)),
                    message: cat2("Type: ", s.as_str()),
                },
            );
            assert(events.deep_view() =~= seq![protection_event(id@, "Type: "@ + s@)]);
        },
        None => {},
    }
    let ghost scheme = events.deep_view();
    let ghost psshs = info.psshs.deep_view();
    let mut i: usize = 0;
    assert(scheme + pssh_events(id@, psshs, 0) =~= scheme);
    while i < info.psshs.len()
        invariant
            i <= info.psshs@.len(),
            psshs == info.psshs.deep_view(),
            events.deep_view() == scheme + pssh_events(id@, psshs, i as int),
        decreases info.psshs@.len() - i,
    {
        assert(psshs[i as int] == info.psshs@[i as int].deep_view());
        let pssh: &PsshInfo = &info.psshs[i];
        let ghost before = events.deep_view();
        push_event(
            events,
            ProgressEvent::DecryptProgress {
                stream_id: Some(owned(id)),
                message: cat4("PSSH(", pssh_system_label(pssh.system), "): ", pssh.data.as_str()),
            },
        );
        assert(events.deep_view() =~= scheme + pssh_events(id@, psshs, i + 1));
        i = i + 1;
    }
    match &info.kid {
        Some(k) => {
            push_event(
                events,
                ProgressEvent::DecryptProgress {
                    stream_id: Some(owned(id)),
                    message: cat2("KID: ", k.as_str()),
                },
            );
        },
        None => {},
    }
}

fn label_lines(infos: &Vec<MediaInfo>) -> (r: Vec<String>)
    ensures
        r.deep_view() == infos.deep_view().map_values(|i: MediaInfoView| track_label(i)),
{
    let ghost all = infos.deep_view();
    let mut out: Vec<String> = Vec::new();
    let mut i: usize = 0;
    while i < infos.len()
        invariant
            i <= infos@.len(),
            all == infos.deep_view(),
            out@.len() == i,
            forall|k: int| 0 <= k < i ==> (#[trigger] out@[k])@ == track_label(all[k]),
        decreases infos@.len() - i,
    {
        assert(all[i as int] == infos@[i as int].deep_view());
        out.push(media_info_console_label(&infos[i]));
        i = i + 1;
    }
    assert(out.deep_view() =~= all.map_values(|i: MediaInfoView| track_label(i)));
    out
}

impl StreamTask {
    fn prepare(&mut self, parts: Option<Vec<MediaSegment>>, events: Vec<ProgressEvent>) -> (r:
        StreamStep)
        requires
            old(self).wf(),
            old(self).deep_view().next == 0,
        ensures
            final(self).wf(),
            (final(self).deep_view(), r.deep_view()) == stream_prepared(
                old(self).deep_view(),
                match parts {
                    Some(v) => Some(v.deep_view()),
                    None => None,
                },
                events.deep_view(),
            ),
    {
        let ghost t = self.deep_view();
        let mut events: Vec<ProgressEvent> = events;
        let ghost told = events.deep_view();
        match parts {
            Some(segments) => {
                self.segments = segments;
                self.split = true;
                push_warning(
                    &mut events,
                    "The entire file has been cut into small segments to accelerate",
                );
                if self.settings.mp4_real_time_decryption {
                    push_warning(&mut events, "Real-time decryption has been disabled");
                }
                assert(events.deep_view() =~= told + split_events(t));
            },
            None => {},
        }
        let message: String = make_directory_message(&self.settings);
        push_event(&mut events, ProgressEvent::Log { level: LogLevel::Debug, message });
        self.goes(StreamPhase::Preparing, events, StreamAction::MakeDirs)
    }

    /// Begins to fetch a stream.
    pub fn begin(settings: StreamSettings, stream: Stream) -> (r: (Self, StreamStep))
        ensures
            r.0.wf(),
            (r.0.deep_view(), r.1.deep_view()) == stream_begun(
                settings.deep_view(),
                stream.deep_view(),
            ),
    {
        let segments: Vec<MediaSegment> = gather_segments(&stream);
        let live: bool = match &stream.playlist {
            Some(p) => p.is_live,
            None => false,
        };
        let mut task: StreamTask = StreamTask {
            settings,
            stream,
            segments,
            split: false,
            phase: StreamPhase::Over,
            place: Place::Init,
            start: 0,
            next: 0,
            chunk: 1,
            current: String::new(),
            files: Vec::new(),
            results: 0,
            all_good: true,
            completed: 0,
            missing: 0,
            infos: Vec::new(),
            infos_read: false,
        };
        assert(task.files.deep_view() =~= Seq::<Seq<char>>::empty());
        assert(task.infos.deep_view() =~= Seq::<MediaInfoView>::empty());
        let mut events: Vec<ProgressEvent> = no_events();
        if task.segments.len() == 1 && !live {
            assert(task.segments.deep_view()[0] == task.segments@[0].deep_view());
            if begins_with(task.segments[0].url.as_str(), "file:") {
                push_event(
                    &mut events,
                    ProgressEvent::Log {
                        level: LogLevel::Debug,
                        message: owned("The 'file' scheme is not supported."),
                    },
                );
                assert(events.deep_view() =~= seq![
                    debug_log("The 'file' scheme is not supported."@),
                ]);
            }
            if is_splittable(&task.segments[0]) {
                let step: StreamStep = task.goes(StreamPhase::Sizing, events, StreamAction::Size);
                return (task, step);
            }
        }
        let step: StreamStep = task.prepare(None, events);
        (task, step)
    }

    /// Takes the size of the file behind the only segment; none where it cannot be told.
    pub fn sized(&mut self, size: Option<i64>) -> (r: StreamStep)
        requires
            old(self).wf(),
            old(self).deep_view().phase == StreamPhase::Sizing,
            old(self).deep_view().next == 0,
            old(self).deep_view().segments.len() == 1,
            size is Some ==> can_split(size->0 as int),
        ensures
            final(self).wf(),
            (final(self).deep_view(), r.deep_view()) == stream_sized(old(self).deep_view(), size),
    {
        assert(self.segments.deep_view()[0] == self.segments@[0].deep_view());
        let parts: Option<Vec<MediaSegment>> = match size {
            Some(n) => split_large_single_file_by_size(&self.segments[0], n),
            None => None,
        };
        self.prepare(parts, no_events())
    }

    fn open(&self, speed: SpeedReading) -> (r: Vec<ProgressEvent>)
        ensures
            r.deep_view() == opening_events(self.deep_view(), speed),
    {
        let mut events: Vec<ProgressEvent> = no_events();
        let live: bool = is_live_record_stream(&self.stream, self.settings.live_perform_as_vod);
        if !live {
            push_event(
                &mut events,
                ProgressEvent::Log {
                    level: LogLevel::Info,
                    message: cat2("Start downloading...", self.settings.label.as_str()),
                },
            );
            assert(events.deep_view() =~= seq![
                ProgressEventView::Log {
                    level: LogLevel::Info,
                    message: "Start downloading..."@ + self.settings.label@,
                },
            ]);
        }
        match automatic_binary_merge_warning(&self.stream, self.settings.binary_merge) {
            Some(m) => push_warning(&mut events, m),
            None => {},
        }
        let total: u64 = if live {
            self.segments.len() as u64
        } else {
            self.total()
        };
        push_stream_progress(
            &mut events,
            self.settings.stream_id.as_str(),
            speed,
            self.completed,
            total,
        );
        events
    }

    /// Goes on when the directories are there.
    pub fn dirs_made(&mut self, speed: SpeedReading) -> (r: StreamStep)
        requires
            old(self).wf(),
            old(self).deep_view().phase == StreamPhase::Preparing,
        ensures
            final(self).wf(),
            (final(self).deep_view(), r.deep_view()) == stream_ready(
                old(self).deep_view(),
                speed,
            ),
    {
        let mut events: Vec<ProgressEvent> = self.open(speed);
        if self.stream_has_init() {
            push_event(
                &mut events,
                ProgressEvent::SegmentQueued {
                    stream_id: self.settings.stream_id.clone(),
                    segment_index: 0,
                },
            );
            let path: String = join_path(self.settings.temp_dir.as_str(), "_init.mp4.tmp");
            self.place = Place::Init;
            return self.goes(StreamPhase::Fetching, events, StreamAction::FetchInit(path));
        }
        self.go_first(events, speed)
    }

    fn fetched_later(&mut self, outcome: Result<SegmentDownloadResult>, speed: SpeedReading) -> (r:
        StreamStep)
        requires
            old(self).wf(),
            old(self).deep_view().place == Place::Later,
        ensures
            final(self).wf(),
            (final(self).deep_view(), r.deep_view()) == stream_fetched(
                old(self).deep_view(),
                view_outcome(outcome),
                speed,
            ),
    {
        match outcome {
            Ok(result) => {
                if result.success() {
                    self.current = result.actual_file_path;
                    return self.go_hook(no_events(), speed);
                }
                self.results = add_one(self.results);
                self.all_good = false;
                self.go_next(no_events())
            },
            Err(e) => {
                let stopped: bool = match &e {
                    Error::UserCancelled => true,
                    _ => false,
                };
                if stopped {
                    return self.goes(StreamPhase::Over, no_events(), StreamAction::Fail(e));
                }
                self.missing = add_one(self.missing);
                let mut events: Vec<ProgressEvent> = no_events();
                let message: String = e.compatibility_message();
                push_warning(&mut events, message.as_str());
                assert(events.deep_view() =~= seq![warning(e.deep_view().message())]);
                self.go_next(events)
            },
        }
    }

    /// Takes what came of a segment.
    pub fn fetched(&mut self, outcome: Result<SegmentDownloadResult>, speed: SpeedReading) -> (r:
        StreamStep)
        requires
            old(self).wf(),
            old(self).deep_view().phase == StreamPhase::Fetching,
        ensures
            final(self).wf(),
            (final(self).deep_view(), r.deep_view()) == stream_fetched(
                old(self).deep_view(),
                view_outcome(outcome),
                speed,
            ),
    {
        if self.place == Place::Later {
            return self.fetched_later(outcome, speed);
        }
        match outcome {
            Ok(result) => {
                if !result.success() {
                    let e: Error = Error::http("downloaded segment length did not match response");
                    return self.goes(StreamPhase::Over, no_events(), StreamAction::Fail(e));
                }
                let path: String = result.actual_file_path.clone();
                self.current = result.actual_file_path;
                self.goes(StreamPhase::Inspecting, no_events(), StreamAction::Inspect(path))
            },
            Err(e) => self.goes(StreamPhase::Over, no_events(), StreamAction::Fail(e)),
        }
    }

    /// Takes the beginning of a file.
    pub fn inspected(&mut self, bytes: &Vec<u8>, speed: SpeedReading) -> (r: StreamStep)
        requires
            old(self).wf(),
            old(self).deep_view().phase == StreamPhase::Inspecting,
        ensures
            final(self).wf(),
            (final(self).deep_view(), r.deep_view()) == stream_inspected(
                old(self).deep_view(),
                bytes@,
                speed,
            ),
    {
        let info: Mp4ProtectionInfo = read_mp4_protection_info(bytes);
        let mut events: Vec<ProgressEvent> = no_events();
        push_protection_events(&mut events, self.settings.stream_id.as_str(), &info);
        if self.place == Place::First && self.stream.mss_data.is_some() && self.files.len() > 0 {
            assert(self.files.deep_view()[0] == self.files@[0]@);
            let action: StreamAction = StreamAction::RewriteInit {
                init: self.files[0].clone(),
                media: self.current.clone(),
            };
            return self.goes(StreamPhase::Rewriting, events, action);
        }
        self.go_hook(events, speed)
    }

    /// Goes on when the initialization segment is written anew.
    pub fn rewritten(&mut self, speed: SpeedReading) -> (r: StreamStep)
        requires
            old(self).wf(),
            old(self).deep_view().phase == StreamPhase::Rewriting,
        ensures
            final(self).wf(),
            (final(self).deep_view(), r.deep_view()) == stream_rewritten(
                old(self).deep_view(),
                speed,
            ),
    {
        self.go_hook(no_events(), speed)
    }

    /// Goes on when a finished segment was handed on, with what was told of that.
    pub fn hooked(&mut self, events: Vec<ProgressEvent>, speed: SpeedReading) -> (r: StreamStep)
        requires
            old(self).wf(),
            old(self).deep_view().phase == StreamPhase::Hooking,
        ensures
            final(self).wf(),
            (final(self).deep_view(), r.deep_view()) == stream_hooked(
                old(self).deep_view(),
                events.deep_view(),
                speed,
            ),
    {
        self.go_probe(events, speed)
    }

    /// Takes what a file holds.
    pub fn probed(&mut self, infos: Vec<MediaInfo>, speed: SpeedReading) -> (r: StreamStep)
        requires
            old(self).wf(),
            old(self).deep_view().phase == StreamPhase::Probing,
        ensures
            final(self).wf(),
            (final(self).deep_view(), r.deep_view()) == stream_probed(
                old(self).deep_view(),
                infos.deep_view(),
                speed,
            ),
    {
        let mut events: Vec<ProgressEvent> = no_events();
        if infos.len() == 0 {
            return self.go_accept(events, speed);
        }
        if self.settings.logs {
            let event: ProgressEvent = ProgressEvent::MediaInfo {
                stream_id: Some(self.settings.stream_id.clone()),
                lines: label_lines(&infos),
            };
            let ghost item = event.deep_view();
            push_event(&mut events, event);
            assert(events.deep_view() =~= seq![item]);
        }
        self.infos = infos;
        self.infos_read = true;
        self.go_accept(events, speed)
    }

    /// Goes on when the end of the stream was handed on, with what was told of that.
    pub fn closed(&mut self, events: Vec<ProgressEvent>) -> (r: StreamStep)
        requires
            old(self).wf(),
            old(self).deep_view().phase == StreamPhase::Closing,
        ensures
            final(self).wf(),
            (final(self).deep_view(), r.deep_view()) == stream_closed(
                old(self).deep_view(),
                events.deep_view(),
            ),
    {
        let result: StreamDownloadResult = self.result();
        self.goes(StreamPhase::Over, events, StreamAction::Finish(result))
    }
}

/// Model of results by their positions.
pub open spec fn view_kept(v: Seq<(usize, SegmentDownloadResult)>) -> Seq<
    (int, SegmentDownloadResultView),
> {
    v.map_values(|p: (usize, SegmentDownloadResult)| (p.0 as int, p.1.deep_view()))
}

fn keep_by_order(
    kept: &mut Vec<(usize, SegmentDownloadResult)>,
    order: usize,
    result: SegmentDownloadResult,
)
    ensures
        view_kept(final(kept)@) == insert_by_order(
            view_kept(old(kept)@),
            (order as int, result.deep_view()),
        ),
{
    let ghost all = view_kept(kept@);
    let ghost x = (order as int, result.deep_view());
    let mut j: usize = kept.len();
    assert(all.subrange(0, j as int) =~= all);
    assert(insert_by_order(all, x) =~= insert_by_order(all.subrange(0, j as int), x) + all.subrange(
        j as int,
        all.len() as int,
    ));
    while j > 0 && order < kept[j - 1].0
        invariant
            j <= kept@.len(),
            all == view_kept(kept@),
            x.0 == order,
            insert_by_order(all, x) == insert_by_order(all.subrange(0, j as int), x)
                + all.subrange(j as int, all.len() as int),
        decreases j,
    {
        let ghost head = all.subrange(0, j as int);
        assert(head.last() == all[j - 1]);
        assert(all[j - 1].0 == kept@[j - 1].0);
        assert(head.drop_last() =~= all.subrange(0, j - 1));
        j = j - 1;
        assert(insert_by_order(all, x) =~= insert_by_order(all.subrange(0, j as int), x)
            + all.subrange(j as int, all.len() as int));
    }
    if j > 0 {
        assert(all.subrange(0, j as int).last() == all[j - 1]);
        assert(all[j - 1].0 == kept@[j - 1].0);
    }
    assert(insert_by_order(all.subrange(0, j as int), x) =~= all.subrange(0, j as int).push(x));
    kept.insert(j, (order, result));
    assert(view_kept(kept@) =~= insert_by_order(all, x));
}

struct Batch {
    kept: Vec<(usize, SegmentDownloadResult)>,
    missing: u64,
    events: Vec<ProgressEvent>,
    stopped: Option<Error>,
}

impl Batch {
    spec fn view(&self) -> BatchView {
        BatchView {
            kept: view_kept(self.kept@),
            missing: self.missing,
            events: self.events.deep_view(),
            stopped: match self.stopped {
                Some(e) => Some(e.deep_view()),
                None => None,
            },
        }
    }
}

fn gather_batch(items: Vec<BatchItem>, missing: u64) -> (r: Batch)
    ensures
        r.view() == batch_of(items.deep_view(), items@.len() as int, missing),
{
    let ghost all = items.deep_view();
    let count: usize = items.len();
    let mut left: Vec<BatchItem> = items;
    let mut b: Batch = Batch {
        kept: Vec::new(),
        missing,
        events: no_events(),
        stopped: None,
    };
    assert(view_kept(b.kept@) =~= Seq::<(int, SegmentDownloadResultView)>::empty());
    let mut i: usize = 0;
    assert(left.deep_view() =~= all.skip(0));
    while i < count
        invariant
            i <= count,
            count == all.len(),
            all == items.deep_view(),
            count == items@.len(),
            left.deep_view() == all.skip(i as int),
            b.view() == batch_of(all, i as int, missing),
            b.stopped is None,
        decreases count - i,
    {
        let ghost rest = left.deep_view();
        assert(rest.len() == left@.len());
        assert(rest[0] == all[i as int]);
        assert(rest[0] == left@[0].deep_view());
        let item: BatchItem = left.remove(0);
        assert(left.deep_view() =~= rest.skip(1));
        assert(rest.skip(1) =~= all.skip(i + 1));
        let ghost view = item.deep_view();
        assert(view == all[i as int]);
        match item.outcome {
            Ok(result) => {
                keep_by_order(&mut b.kept, item.order, result);
            },
            Err(e) => {
                let stopped: bool = match &e {
                    Error::UserCancelled => true,
                    _ => false,
                };
                if stopped {
                    b.stopped = Some(e);
                    proof {
                        assert(b.view() == batch_of(all, i + 1, missing));
                        lemma_batch_stays(all, i + 1, missing);
                    }
                    return b;
                }
                b.missing = add_one(b.missing);
                let message: String = e.compatibility_message();
                push_warning(&mut b.events, message.as_str());
            },
        }
        i = i + 1;
    }
    b
}

proof fn lemma_batch_stays(items: Seq<BatchItemView>, n: int, missing: u64)
    requires
        0 <= n <= items.len(),
        batch_of(items, n, missing).stopped is Some,
    ensures
        batch_of(items, items.len() as int, missing) == batch_of(items, n, missing),
    decreases items.len() - n,
{
    if n < items.len() {
        lemma_batch_stays(items, n + 1, missing);
    }
}

impl StreamTask {
    fn take_results(&mut self, kept: &Vec<(usize, SegmentDownloadResult)>)
        requires
            old(self).wf(),
        ensures
            final(self).wf(),
            final(self).deep_view() == with_results(
                old(self).deep_view(),
                view_kept(kept@),
                kept@.len() as int,
            ),
    {
        let ghost t = self.deep_view();
        let ghost kv = view_kept(kept@);
        let mut i: usize = 0;
        while i < kept.len()
            invariant
                i <= kept@.len(),
                kv == view_kept(kept@),
                self.wf(),
                self.deep_view() == with_results(t, kv, i as int),
            decreases kept@.len() - i,
        {
            assert(kv[i as int].1 == kept@[i as int].1.deep_view());
            let result: &SegmentDownloadResult = &kept[i].1;
            if result.success() {
                self.current = result.actual_file_path.clone();
                self.take_file();
            } else {
                self.results = add_one(self.results);
                self.all_good = false;
            }
            i = i + 1;
        }
    }

    /// Takes what came of several segments, in the order in which they came.
    pub fn batched(&mut self, items: Vec<BatchItem>, speed: SpeedReading) -> (r: StreamStep)
        requires
            old(self).wf(),
            old(self).deep_view().phase == StreamPhase::Batching,
            covers(items.deep_view(), old(self).deep_view().start, old(self).deep_view().next),
        ensures
            final(self).wf(),
            (final(self).deep_view(), r.deep_view()) == stream_batched(
                old(self).deep_view(),
                items.deep_view(),
                speed,
            ),
    {
        let b: Batch = gather_batch(items, self.missing);
        self.missing = b.missing;
        match b.stopped {
            Some(e) => self.goes(StreamPhase::Over, b.events, StreamAction::Fail(e)),
            None => {
                self.take_results(&b.kept);
                self.go_batch(b.events, speed)
            },
        }
    }
}

/// The segments are asked for one after the other or run by run, each once, and the stream ends
/// only when all were asked for.
pub proof fn law_every_segment_is_asked_for_once(
    t: StreamTaskView,
    events: Seq<ProgressEventView>,
    speed: SpeedReading,
)
    requires
        task_wf(t),
    ensures
        match to_next(t, events).1.action {
            StreamActionView::Fetch { position, .. } => position == t.next && to_next(
                t,
                events,
            ).0.next == position + 1,
            _ => t.next == t.segments.len(),
        },
        match to_batch(t, events, speed).1.action {
            StreamActionView::FetchBatch { start, end } => start == t.next && start < end
                <= t.segments.len() && to_batch(t, events, speed).0.next == end,
            _ => t.next == t.segments.len(),
        },
{
}

} // verus!
