//! What happens during a download.

use crate::config::LogLevel;
use crate::datetime::TimeSpan;
use crate::manifest::{copy_opt, copy_texts};
use crate::mux::{OutputArtifact, OutputArtifactView};
use crate::progress::{
    AggregateProgress, SegmentProgress, SegmentProgressView, StreamProgress, StreamProgressView,
};
use vstd::prelude::*;

verus! {

/// One thing that happened.
#[derive(Debug, PartialEq, Eq)]
pub enum ProgressEvent {
    /// The work is being planned.
    PlanningStarted,
    /// A message.
    Log { level: LogLevel, message: String },
    /// A message for the log file alone.
    ExtraLog { message: String },
    /// What a prober found out about a file.
    MediaInfo { stream_id: Option<String>, lines: Vec<String> },
    /// A log file was created.
    LogFileCreated { path: String },
    /// A newer release is being looked for.
    UpdateCheckStarted,
    /// The task waits for its start.
    TaskStartDelay { until: String, remaining: TimeSpan },
    /// The manifest is being loaded.
    ManifestLoading,
    /// The manifest was read.
    ManifestParsed { stream_count: usize },
    /// A stream was chosen.
    StreamSelected { stream_id: String },
    /// A stream will be downloaded.
    StreamTaskCreated { stream_id: String, label: String },
    /// Progress of a stream.
    StreamProgress(StreamProgress),
    /// A segment waits for its turn.
    SegmentQueued { stream_id: String, segment_index: u64 },
    /// A segment is being downloaded.
    SegmentStarted { stream_id: String, segment_index: u64 },
    /// Progress of a segment.
    SegmentProgress(SegmentProgress),
    /// A segment is tried again.
    SegmentRetry { stream_id: String, segment_index: u64, retry_attempt: u32 },
    /// A segment is there.
    SegmentFinished { stream_id: String, segment_index: u64 },
    /// Progress of everything.
    AggregateProgress(AggregateProgress),
    /// A message about decrypting.
    DecryptProgress { stream_id: Option<String>, message: String },
    /// A message about merging.
    MergeProgress { stream_id: Option<String>, message: String },
    /// A message about subtitles.
    SubtitleProgress { stream_id: Option<String>, message: String },
    /// A message about muxing.
    MuxProgress { message: String },
    /// A line that a program printed.
    ExternalToolOutput { message: String },
    /// A line for the terminal as it stands.
    ConsoleLine { message: String },
    /// A live presentation was refreshed.
    LiveRefresh { stream_id: Option<String>, label: Option<String>, refreshed_duration: TimeSpan, recorded_duration: TimeSpan, recorded_segments: u64, total_segments: u64, is_waiting: bool, recorded_size: Option<u64> },
    /// What a transport stream says of itself.
    LiveServiceInfo { program_id: String, service_provider: Option<String>, service_name: Option<String> },
    /// A warning.
    Warning { message: String },
    /// A file that was produced.
    OutputArtifact(OutputArtifact),
    /// A path is removed.
    Cleanup { path: String },
    /// The user stopped the work.
    Cancelled,
    /// The work has ended.
    Finished { success: bool },
}

/// Model of `ProgressEvent`.
pub enum ProgressEventView {
    PlanningStarted,
    Log { level: LogLevel, message: Seq<char> },
    ExtraLog { message: Seq<char> },
    MediaInfo { stream_id: Option<Seq<char>>, lines: Seq<Seq<char>> },
    LogFileCreated { path: Seq<char> },
    UpdateCheckStarted,
    TaskStartDelay { until: Seq<char>, remaining: TimeSpan },
    ManifestLoading,
    ManifestParsed { stream_count: usize },
    StreamSelected { stream_id: Seq<char> },
    StreamTaskCreated { stream_id: Seq<char>, label: Seq<char> },
    StreamProgress(StreamProgressView),
    SegmentQueued { stream_id: Seq<char>, segment_index: u64 },
    SegmentStarted { stream_id: Seq<char>, segment_index: u64 },
    SegmentProgress(SegmentProgressView),
    SegmentRetry { stream_id: Seq<char>, segment_index: u64, retry_attempt: u32 },
    SegmentFinished { stream_id: Seq<char>, segment_index: u64 },
    AggregateProgress(AggregateProgress),
    DecryptProgress { stream_id: Option<Seq<char>>, message: Seq<char> },
    MergeProgress { stream_id: Option<Seq<char>>, message: Seq<char> },
    SubtitleProgress { stream_id: Option<Seq<char>>, message: Seq<char> },
    MuxProgress { message: Seq<char> },
    ExternalToolOutput { message: Seq<char> },
    ConsoleLine { message: Seq<char> },
    LiveRefresh { stream_id: Option<Seq<char>>, label: Option<Seq<char>>, refreshed_duration: TimeSpan, recorded_duration: TimeSpan, recorded_segments: u64, total_segments: u64, is_waiting: bool, recorded_size: Option<u64> },
    LiveServiceInfo { program_id: Seq<char>, service_provider: Option<Seq<char>>, service_name: Option<Seq<char>> },
    Warning { message: Seq<char> },
    OutputArtifact(OutputArtifactView),
    Cleanup { path: Seq<char> },
    Cancelled,
    Finished { success: bool },
}

impl DeepView for ProgressEvent {
    type V = ProgressEventView;

    open spec fn deep_view(&self) -> ProgressEventView {
        match self {
            ProgressEvent::PlanningStarted => ProgressEventView::PlanningStarted,
            ProgressEvent::Log { level, message } => ProgressEventView::Log {
                level: *level,
                message: message@,
            },
            ProgressEvent::ExtraLog { message } => ProgressEventView::ExtraLog {
                message: message@,
            },
            ProgressEvent::MediaInfo { stream_id, lines } => ProgressEventView::MediaInfo {
                stream_id: stream_id.deep_view(),
                lines: lines.deep_view(),
            },
            ProgressEvent::LogFileCreated { path } => ProgressEventView::LogFileCreated {
                path: path@,
            },
            ProgressEvent::UpdateCheckStarted => ProgressEventView::UpdateCheckStarted,
            ProgressEvent::TaskStartDelay { until, remaining } => ProgressEventView::TaskStartDelay {
                until: until@,
                remaining: *remaining,
            },
            ProgressEvent::ManifestLoading => ProgressEventView::ManifestLoading,
            ProgressEvent::ManifestParsed { stream_count } => ProgressEventView::ManifestParsed {
                stream_count: *stream_count,
            },
            ProgressEvent::StreamSelected { stream_id } => ProgressEventView::StreamSelected {
                stream_id: stream_id@,
            },
            ProgressEvent::StreamTaskCreated { stream_id, label } => ProgressEventView::StreamTaskCreated {
                stream_id: stream_id@,
                label: label@,
            },
            ProgressEvent::StreamProgress(p) => ProgressEventView::StreamProgress(p.deep_view()),
            ProgressEvent::SegmentQueued { stream_id, segment_index } => ProgressEventView::SegmentQueued {
                stream_id: stream_id@,
                segment_index: *segment_index,
            },
            ProgressEvent::SegmentStarted { stream_id, segment_index } => ProgressEventView::SegmentStarted {
                stream_id: stream_id@,
                segment_index: *segment_index,
            },
            ProgressEvent::SegmentProgress(p) => ProgressEventView::SegmentProgress(p.deep_view()),
            ProgressEvent::SegmentRetry { stream_id, segment_index, retry_attempt } => ProgressEventView::SegmentRetry {
                stream_id: stream_id@,
                segment_index: *segment_index,
                retry_attempt: *retry_attempt,
            },
            ProgressEvent::SegmentFinished { stream_id, segment_index } => ProgressEventView::SegmentFinished {
                stream_id: stream_id@,
                segment_index: *segment_index,
            },
            ProgressEvent::AggregateProgress(p) => ProgressEventView::AggregateProgress(*p),
            ProgressEvent::DecryptProgress { stream_id, message } => ProgressEventView::DecryptProgress {
                stream_id: stream_id.deep_view(),
                message: message@,
            },
            ProgressEvent::MergeProgress { stream_id, message } => ProgressEventView::MergeProgress {
                stream_id: stream_id.deep_view(),
                message: message@,
            },
            ProgressEvent::SubtitleProgress { stream_id, message } => ProgressEventView::SubtitleProgress {
                stream_id: stream_id.deep_view(),
                message: message@,
            },
            ProgressEvent::MuxProgress { message } => ProgressEventView::MuxProgress {
                message: message@,
            },
            ProgressEvent::ExternalToolOutput { message } => ProgressEventView::ExternalToolOutput {
                message: message@,
            },
            ProgressEvent::ConsoleLine { message } => ProgressEventView::ConsoleLine {
                message: message@,
            },
            ProgressEvent::LiveRefresh { stream_id, label, refreshed_duration, recorded_duration, recorded_segments, total_segments, is_waiting, recorded_size } => ProgressEventView::LiveRefresh {
                stream_id: stream_id.deep_view(),
                label: label.deep_view(),
                refreshed_duration: *refreshed_duration,
                recorded_duration: *recorded_duration,
                recorded_segments: *recorded_segments,
                total_segments: *total_segments,
                is_waiting: *is_waiting,
                recorded_size: *recorded_size,
            },
            ProgressEvent::LiveServiceInfo { program_id, service_provider, service_name } => ProgressEventView::LiveServiceInfo {
                program_id: program_id@,
                service_provider: service_provider.deep_view(),
                service_name: service_name.deep_view(),
            },
            ProgressEvent::Warning { message } => ProgressEventView::Warning {
                message: message@,
            },
            ProgressEvent::OutputArtifact(p) => ProgressEventView::OutputArtifact(p.deep_view()),
            ProgressEvent::Cleanup { path } => ProgressEventView::Cleanup {
                path: path@,
            },
            ProgressEvent::Cancelled => ProgressEventView::Cancelled,
            ProgressEvent::Finished { success } => ProgressEventView::Finished {
                success: *success,
            },
        }
    }
}

impl Clone for ProgressEvent {
    fn clone(&self) -> (r: Self)
        ensures
            r.deep_view() == self.deep_view(),
    {
        match self {
            ProgressEvent::PlanningStarted => ProgressEvent::PlanningStarted,
            ProgressEvent::Log { level, message } => ProgressEvent::Log {
                level: *level,
                message: message.clone(),
            },
            ProgressEvent::ExtraLog { message } => ProgressEvent::ExtraLog {
                message: message.clone(),
            },
            ProgressEvent::MediaInfo { stream_id, lines } => ProgressEvent::MediaInfo {
                stream_id: copy_opt(stream_id),
                lines: copy_texts(lines),
            },
            ProgressEvent::LogFileCreated { path } => ProgressEvent::LogFileCreated {
                path: path.clone(),
            },
            ProgressEvent::UpdateCheckStarted => ProgressEvent::UpdateCheckStarted,
            ProgressEvent::TaskStartDelay { until, remaining } => ProgressEvent::TaskStartDelay {
                until: until.clone(),
                remaining: *remaining,
            },
            ProgressEvent::ManifestLoading => ProgressEvent::ManifestLoading,
            ProgressEvent::ManifestParsed { stream_count } => ProgressEvent::ManifestParsed {
                stream_count: *stream_count,
            },
            ProgressEvent::StreamSelected { stream_id } => ProgressEvent::StreamSelected {
                stream_id: stream_id.clone(),
            },
            ProgressEvent::StreamTaskCreated { stream_id, label } => ProgressEvent::StreamTaskCreated {
                stream_id: stream_id.clone(),
                label: label.clone(),
            },
            ProgressEvent::StreamProgress(p) => ProgressEvent::StreamProgress(p.clone()),
            ProgressEvent::SegmentQueued { stream_id, segment_index } => ProgressEvent::SegmentQueued {
                stream_id: stream_id.clone(),
                segment_index: *segment_index,
            },
            ProgressEvent::SegmentStarted { stream_id, segment_index } => ProgressEvent::SegmentStarted {
                stream_id: stream_id.clone(),
                segment_index: *segment_index,
            },
            ProgressEvent::SegmentProgress(p) => ProgressEvent::SegmentProgress(p.clone()),
            ProgressEvent::SegmentRetry { stream_id, segment_index, retry_attempt } => ProgressEvent::SegmentRetry {
                stream_id: stream_id.clone(),
                segment_index: *segment_index,
                retry_attempt: *retry_attempt,
            },
            ProgressEvent::SegmentFinished { stream_id, segment_index } => ProgressEvent::SegmentFinished {
                stream_id: stream_id.clone(),
                segment_index: *segment_index,
            },
            ProgressEvent::AggregateProgress(p) => ProgressEvent::AggregateProgress(*p),
            ProgressEvent::DecryptProgress { stream_id, message } => ProgressEvent::DecryptProgress {
                stream_id: copy_opt(stream_id),
                message: message.clone(),
            },
            ProgressEvent::MergeProgress { stream_id, message } => ProgressEvent::MergeProgress {
                stream_id: copy_opt(stream_id),
                message: message.clone(),
            },
            ProgressEvent::SubtitleProgress { stream_id, message } => ProgressEvent::SubtitleProgress {
                stream_id: copy_opt(stream_id),
                message: message.clone(),
            },
            ProgressEvent::MuxProgress { message } => ProgressEvent::MuxProgress {
                message: message.clone(),
            },
            ProgressEvent::ExternalToolOutput { message } => ProgressEvent::ExternalToolOutput {
                message: message.clone(),
            },
            ProgressEvent::ConsoleLine { message } => ProgressEvent::ConsoleLine {
                message: message.clone(),
            },
            ProgressEvent::LiveRefresh { stream_id, label, refreshed_duration, recorded_duration, recorded_segments, total_segments, is_waiting, recorded_size } => ProgressEvent::LiveRefresh {
                stream_id: copy_opt(stream_id),
                label: copy_opt(label),
                refreshed_duration: *refreshed_duration,
                recorded_duration: *recorded_duration,
                recorded_segments: *recorded_segments,
                total_segments: *total_segments,
                is_waiting: *is_waiting,
                recorded_size: *recorded_size,
            },
            ProgressEvent::LiveServiceInfo { program_id, service_provider, service_name } => ProgressEvent::LiveServiceInfo {
                program_id: program_id.clone(),
                service_provider: copy_opt(service_provider),
                service_name: copy_opt(service_name),
            },
            ProgressEvent::Warning { message } => ProgressEvent::Warning {
                message: message.clone(),
            },
            ProgressEvent::OutputArtifact(p) => ProgressEvent::OutputArtifact(p.clone()),
            ProgressEvent::Cleanup { path } => ProgressEvent::Cleanup {
                path: path.clone(),
            },
            ProgressEvent::Cancelled => ProgressEvent::Cancelled,
            ProgressEvent::Finished { success } => ProgressEvent::Finished {
                success: *success,
            },
        }
    }
}

} // verus!
