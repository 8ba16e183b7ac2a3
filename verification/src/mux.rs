//! Merging and muxing of downloaded files.

use crate::config::MuxerKind;
use crate::datetime::{current_local_time, iso_text, iso_timestamp, padded, zero_padded, LocalTime};
use crate::error::{Error, ErrorView, Result};
use crate::manifest::{
    copy_opt, EncryptionMethod, MediaPart, MediaSegmentView, MediaType, Stream, StreamView,
};
use crate::path::{
    extension, file_name, join_path, parent, path_extension, path_file_name, path_join, path_parent,
};
use crate::text::{
    begins_with, cat2, cat3, cut_once, dec, either, lower, lowered, opt, owned, same,
    same_ignoring_case, split, split_once, split_text, starts_with, trim, trimmed, usize_text,
};
use vstd::prelude::*;
use vstd::utf8::encode_utf8;

verus! {

/// Container of a mux.
#[derive(Clone, Copy, Debug, PartialEq, Eq, Structural)]
pub enum MuxFormat {
    Mp4,
    Mkv,
    Ts,
}

/// Container of a merge.
#[derive(Clone, Copy, Debug, PartialEq, Eq, Structural)]
pub enum MergeOutputFormat {
    Mp4,
    Mkv,
    Flv,
    M4a,
    Ts,
    Eac3,
    Aac,
    Ac3,
}

/// A file that is muxed along.
#[derive(Debug, PartialEq, Eq)]
pub struct MuxImport {
    pub path: String,
    pub language: Option<String>,
    pub name: Option<String>,
    pub index: i32,
}

/// Model of `MuxImport`.
pub struct MuxImportView {
    pub path: Seq<char>,
    pub language: Option<Seq<char>>,
    pub name: Option<Seq<char>>,
    pub index: i32,
}

impl DeepView for MuxImport {
    type V = MuxImportView;

    open spec fn deep_view(&self) -> MuxImportView {
        MuxImportView {
            path: self.path@,
            language: self.language.deep_view(),
            name: self.name.deep_view(),
            index: self.index,
        }
    }
}

impl Clone for MuxImport {
    fn clone(&self) -> (r: Self)
        ensures
            r.deep_view() == self.deep_view(),
    {
        MuxImport {
            path: self.path.clone(),
            language: copy_opt(&self.language),
            name: copy_opt(&self.name),
            index: self.index,
        }
    }
}

/// A file that a download produced.
#[derive(Debug, PartialEq, Eq)]
pub struct OutputArtifact {
    pub path: String,
    pub media_type: Option<MediaType>,
    pub language: Option<String>,
    pub description: Option<String>,
}

/// Model of `OutputArtifact`.
pub struct OutputArtifactView {
    pub path: Seq<char>,
    pub media_type: Option<MediaType>,
    pub language: Option<Seq<char>>,
    pub description: Option<Seq<char>>,
}

impl DeepView for OutputArtifact {
    type V = OutputArtifactView;

    open spec fn deep_view(&self) -> OutputArtifactView {
        OutputArtifactView {
            path: self.path@,
            media_type: self.media_type,
            language: self.language.deep_view(),
            description: self.description.deep_view(),
        }
    }
}

impl Clone for OutputArtifact {
    fn clone(&self) -> (r: Self)
        ensures
            r.deep_view() == self.deep_view(),
    {
        OutputArtifact {
            path: self.path.clone(),
            media_type: self.media_type,
            language: copy_opt(&self.language),
            description: copy_opt(&self.description),
        }
    }
}

impl MuxImport {
    /// An import without language or name, behind every numbered track.
    pub fn new(path: &str) -> (r: Self)
        ensures
            r.deep_view() == (MuxImportView { path: path@, language: None, name: None, index: 999 }),
    {
        MuxImport { path: owned(path), language: None, name: None, index: 999 }
    }
}

impl OutputArtifact {
    /// An artifact of which only the path is known.
    pub fn new(path: &str) -> (r: Self)
        ensures
            r.deep_view() == (OutputArtifactView {
                path: path@,
                media_type: None,
                language: None,
                description: None,
            }),
    {
        OutputArtifact { path: owned(path), media_type: None, language: None, description: None }
    }
}

/// A program to run, and what it will write.
#[derive(Debug, PartialEq, Eq)]
pub struct MuxCommandPlan {
    pub program: String,
    pub arguments: String,
    pub working_directory: String,
    pub output_path: String,
}

/// Model of `MuxCommandPlan`.
pub struct MuxCommandPlanView {
    pub program: Seq<char>,
    pub arguments: Seq<char>,
    pub working_directory: Seq<char>,
    pub output_path: Seq<char>,
}

impl DeepView for MuxCommandPlan {
    type V = MuxCommandPlanView;

    open spec fn deep_view(&self) -> MuxCommandPlanView {
        MuxCommandPlanView {
            program: self.program@,
            arguments: self.arguments@,
            working_directory: self.working_directory@,
            output_path: self.output_path@,
        }
    }
}

/// Model of a plan that was made.
pub open spec fn view_plan(r: Result<MuxCommandPlan>) -> core::result::Result<
    MuxCommandPlanView,
    ErrorView,
> {
    match r {
        Ok(p) => Ok(p.deep_view()),
        Err(e) => Err(e.deep_view()),
    }
}

/// What ffmpeg writes into a merged file besides the media.
#[derive(Debug, PartialEq, Eq)]
pub struct FfmpegMergeMetadata {
    pub poster: Option<String>,
    pub ddp_audio: Option<String>,
    pub audio_name: String,
    pub title: String,
    pub copyright: String,
    pub comment: String,
    pub encoding_tool: String,
    pub recording_time: Option<String>,
    pub date_string: Option<String>,
}

/// Model of `FfmpegMergeMetadata`.
pub struct FfmpegMergeMetadataView {
    pub poster: Option<Seq<char>>,
    pub ddp_audio: Option<Seq<char>>,
    pub audio_name: Seq<char>,
    pub title: Seq<char>,
    pub copyright: Seq<char>,
    pub comment: Seq<char>,
    pub encoding_tool: Seq<char>,
    pub recording_time: Option<Seq<char>>,
    pub date_string: Option<Seq<char>>,
}

impl DeepView for FfmpegMergeMetadata {
    type V = FfmpegMergeMetadataView;

    open spec fn deep_view(&self) -> FfmpegMergeMetadataView {
        FfmpegMergeMetadataView {
            poster: self.poster.deep_view(),
            ddp_audio: self.ddp_audio.deep_view(),
            audio_name: self.audio_name@,
            title: self.title@,
            copyright: self.copyright@,
            comment: self.comment@,
            encoding_tool: self.encoding_tool@,
            recording_time: self.recording_time.deep_view(),
            date_string: self.date_string.deep_view(),
        }
    }
}

impl Default for FfmpegMergeMetadata {
    fn default() -> (r: Self)
        ensures
            r.deep_view() == (FfmpegMergeMetadataView {
                poster: None,
                ddp_audio: None,
                audio_name: Seq::empty(),
                title: Seq::empty(),
                copyright: Seq::empty(),
                comment: Seq::empty(),
                encoding_tool: Seq::empty(),
                recording_time: None,
                date_string: None,
            }),
    {
        FfmpegMergeMetadata {
            poster: None,
            ddp_audio: None,
            audio_name: String::new(),
            title: String::new(),
            copyright: String::new(),
            comment: String::new(),
            encoding_tool: String::new(),
            recording_time: None,
            date_string: None,
        }
    }
}

/// What ffmpeg is asked to merge.
#[derive(Debug)]
pub struct FfmpegMergeRequest<'a> {
    pub binary: &'a str,
    pub files: &'a Vec<String>,
    pub output_base_path: &'a str,
    pub format: MergeOutputFormat,
    pub use_aac_filter: bool,
    pub fast_start: bool,
    pub write_date: bool,
    pub use_concat_demuxer: bool,
    pub concat_list_path: Option<&'a str>,
    pub metadata: &'a FfmpegMergeMetadata,
}

/// Model of `FfmpegMergeRequest`.
pub struct FfmpegMergeRequestView {
    pub binary: Seq<char>,
    pub files: Seq<Seq<char>>,
    pub output_base_path: Seq<char>,
    pub format: MergeOutputFormat,
    pub use_aac_filter: bool,
    pub fast_start: bool,
    pub write_date: bool,
    pub use_concat_demuxer: bool,
    pub concat_list_path: Option<Seq<char>>,
    pub metadata: FfmpegMergeMetadataView,
}

impl<'a> DeepView for FfmpegMergeRequest<'a> {
    type V = FfmpegMergeRequestView;

    open spec fn deep_view(&self) -> FfmpegMergeRequestView {
        FfmpegMergeRequestView {
            binary: self.binary@,
            files: self.files.deep_view(),
            output_base_path: self.output_base_path@,
            format: self.format,
            use_aac_filter: self.use_aac_filter,
            fast_start: self.fast_start,
            write_date: self.write_date,
            use_concat_demuxer: self.use_concat_demuxer,
            concat_list_path: opt(self.concat_list_path),
            metadata: self.metadata.deep_view(),
        }
    }
}

/// The ending of a muxed file.
pub open spec fn mux_ending(format: MuxFormat) -> Seq<char> {
    match format {
        MuxFormat::Mp4 => ".mp4"@,
        MuxFormat::Mkv => ".mkv"@,
        MuxFormat::Ts => ".ts"@,
    }
}

/// The ending of a muxed file.
pub fn mux_extension(format: MuxFormat) -> (r: &'static str)
    ensures
        r@ == mux_ending(format),
{
    match format {
        MuxFormat::Mp4 => ".mp4",
        MuxFormat::Mkv => ".mkv",
        MuxFormat::Ts => ".ts",
    }
}

/// The ending of a merged file.
pub open spec fn merge_ending(format: MergeOutputFormat) -> Seq<char> {
    match format {
        MergeOutputFormat::Mp4 => ".mp4"@,
        MergeOutputFormat::Mkv => ".mkv"@,
        MergeOutputFormat::Flv => ".flv"@,
        MergeOutputFormat::M4a => ".m4a"@,
        MergeOutputFormat::Aac => ".m4a"@,
        MergeOutputFormat::Ts => ".ts"@,
        MergeOutputFormat::Eac3 => ".eac3"@,
        MergeOutputFormat::Ac3 => ".ac3"@,
    }
}

/// The ending of a merged file.
pub fn merge_extension(format: MergeOutputFormat) -> (r: &'static str)
    ensures
        r@ == merge_ending(format),
{
    match format {
        MergeOutputFormat::Mp4 => ".mp4",
        MergeOutputFormat::Mkv => ".mkv",
        MergeOutputFormat::Flv => ".flv",
        MergeOutputFormat::M4a => ".m4a",
        MergeOutputFormat::Aac => ".m4a",
        MergeOutputFormat::Ts => ".ts",
        MergeOutputFormat::Eac3 => ".eac3",
        MergeOutputFormat::Ac3 => ".ac3",
    }
}

/// The path of an output: the base, made absolute, with an ending behind it.
pub open spec fn output_path_of(base: Seq<char>, current_dir: Seq<char>, ending: Seq<char>) -> Seq<char> {
    (if starts_with(base, "/"@) {
        base
    } else {
        path_join(current_dir, base)
    }) + ending
}

fn make_output_path(base: &str, current_dir: &str, ending: &str) -> (r: String)
    ensures
        r@ == output_path_of(base@, current_dir@, ending@),
{
    if begins_with(base, "/") {
        cat2(base, ending)
    } else {
        let whole: String = join_path(current_dir, base);
        cat2(whole.as_str(), ending)
    }
}

/// A command with one more piece, where it is wanted.
pub open spec fn added(command: Seq<char>, wanted: bool, piece: Seq<char>) -> Seq<char> {
    if wanted {
        command + piece
    } else {
        command
    }
}

/// A text in double quotes.
pub open spec fn quoted(text: Seq<char>) -> Seq<char> {
    "\""@ + text + "\""@
}

pub(crate) fn quote(text: &str) -> (r: String)
    ensures
        r@ == quoted(text@),
{
    cat3("\"", text, "\"")
}

/// The names of the first `n` files, each with a bar behind it.
pub open spec fn barred_names(files: Seq<Seq<char>>, n: int) -> Seq<char>
    decreases n,
{
    if n <= 0 {
        Seq::empty()
    } else {
        match path_file_name(files[n - 1]) {
            Some(name) => barred_names(files, n - 1) + name + "|"@,
            None => barred_names(files, n - 1),
        }
    }
}

fn bar_names(files: &Vec<String>) -> (r: String)
    ensures
        r@ == barred_names(files.deep_view(), files@.len() as int),
{
    let ghost all = files.deep_view();
    let mut out: String = String::new();
    let mut i: usize = 0;
    while i < files.len()
        invariant
            i <= files@.len(),
            all == files.deep_view(),
            out@ == barred_names(all, i as int),
        decreases files@.len() - i,
    {
        assert(all[i as int] == files@[i as int]@);
        match file_name(files[i].as_str()) {
            Some(name) => {
                out.append(name);
                out.append("|");
            },
            None => {},
        }
        i = i + 1;
    }
    out
}

/// The date that goes into a merged file.
pub open spec fn merge_date(m: FfmpegMergeMetadataView, now: Seq<char>) -> Seq<char> {
    match either(m.recording_time, m.date_string) {
        Some(date) => date,
        None => now,
    }
}

/// The tracks of an MP4 file.
pub open spec fn mp4_inputs(command: Seq<char>, m: FfmpegMergeMetadataView) -> Seq<char> {
    let posted = match m.poster {
        Some(p) => command + " -i "@ + quoted(p),
        None => command,
    };
    let mapped = (match m.ddp_audio {
        Some(a) => posted + " -i "@ + quoted(a),
        None => posted,
    }) + " -map 0:v?"@;
    let heard = if m.ddp_audio is None {
        mapped + " -map 0:a?"@
    } else if m.poster is Some {
        mapped + " -map 2:a -map 0:a?"@
    } else {
        mapped + " -map 1:a -map 0:a?"@
    };
    added(
        heard + " -map 0:s?"@,
        m.poster is Some,
        " -map 1 -c:v:1 copy -disposition:v:1 attached_pic"@,
    )
}

/// The labels of an MP4 file.
pub open spec fn mp4_labels(
    command: Seq<char>,
    m: FfmpegMergeMetadataView,
    write_date: bool,
    date: Seq<char>,
) -> Seq<char> {
    let audio = if m.ddp_audio is Some {
        "1"@
    } else {
        "0"@
    };
    let dated = added(command, write_date, " -metadata date="@ + quoted(date));
    added(
        dated + " -metadata encoding_tool="@ + quoted(m.encoding_tool) + " -metadata title="@
            + quoted(m.title) + " -metadata copyright="@ + quoted(m.copyright)
            + " -metadata comment="@ + quoted(m.comment) + " -metadata:s:a:"@ + audio + " title="@
            + quoted(m.audio_name) + " -metadata:s:a:"@ + audio + " handler="@ + quoted(
            m.audio_name,
        ),
        m.ddp_audio is Some,
        " -metadata:s:a:0 title=\"DD+\" -metadata:s:a:0 handler=\"DD+\""@,
    )
}

/// The arguments behind the inputs of a merge.
pub open spec fn merge_arguments(
    command: Seq<char>,
    q: FfmpegMergeRequestView,
    date: Seq<char>,
    output: Seq<char>,
) -> Seq<char> {
    let filter = q.use_aac_filter && q.metadata.ddp_audio is None;
    let filtered = |c: Seq<char>| added(c, filter, " -bsf:a aac_adtstoasc"@);
    (match q.format {
        MergeOutputFormat::Mp4 => filtered(
            added(
                mp4_labels(mp4_inputs(command, q.metadata), q.metadata, q.write_date, date),
                q.fast_start,
                " -movflags +faststart"@,
            ) + " -c copy -y"@,
        ),
        MergeOutputFormat::Mkv => filtered(command + " -map 0 -c copy -y"@),
        MergeOutputFormat::Flv => filtered(command + " -map 0 -c copy -y"@),
        MergeOutputFormat::M4a => filtered(command + " -map 0 -c copy -f mp4 -y"@),
        MergeOutputFormat::Ts => command + " -map 0 -c copy -y -f mpegts -bsf:v h264_mp4toannexb"@,
        MergeOutputFormat::Eac3 => command + " -map 0:a -c copy -y"@,
        MergeOutputFormat::Aac => command + " -map 0:a -c copy -y"@,
        MergeOutputFormat::Ac3 => command + " -map 0:a -c copy -y"@,
    }) + " "@ + quoted(output)
}

/// The plan of a merge by ffmpeg, made in a given directory at a given time.
pub open spec fn merge_plan(q: FfmpegMergeRequestView, current_dir: Seq<char>, now: Seq<char>) -> core::result::Result<
    MuxCommandPlanView,
    ErrorView,
> {
    if q.files.len() == 0 {
        Err(ErrorView::Mux("ffmpeg merge requires at least one input"@))
    } else {
        match path_parent(q.files[0]) {
            None => Err(ErrorView::Mux("input file has no parent directory"@)),
            Some(directory) => {
                let output = output_path_of(
                    q.output_base_path,
                    current_dir,
                    merge_ending(q.format),
                );
                let start = "-loglevel warning -nostdin "@;
                if q.use_concat_demuxer && q.concat_list_path is None {
                    Err(ErrorView::Mux("ffmpeg concat demuxer requires a concat list path"@))
                } else {
                    let command = if q.use_concat_demuxer {
                        start + " -f concat -safe 0 -i "@ + quoted(q.concat_list_path->0)
                    } else {
                        start + " -i concat:"@ + quoted(
                            barred_names(q.files, q.files.len() as int),
                        )
                    };
                    Ok(
                        MuxCommandPlanView {
                            program: q.binary,
                            arguments: merge_arguments(
                                command,
                                q,
                                merge_date(q.metadata, now),
                                output,
                            ),
                            working_directory: directory,
                            output_path: output,
                        },
                    )
                }
            },
        }
    }
}

fn push_mp4_inputs(command: &mut String, m: &FfmpegMergeMetadata)
    ensures
        final(command)@ == mp4_inputs(old(command)@, m.deep_view()),
{
    match &m.poster {
        Some(p) => {
            command.append(" -i ");
            command.append(quote(p.as_str()).as_str());
        },
        None => {},
    }
    match &m.ddp_audio {
        Some(a) => {
            command.append(" -i ");
            command.append(quote(a.as_str()).as_str());
        },
        None => {},
    }
    command.append(" -map 0:v?");
    if m.ddp_audio.is_none() {
        command.append(" -map 0:a?");
    } else if m.poster.is_some() {
        command.append(" -map 2:a -map 0:a?");
    } else {
        command.append(" -map 1:a -map 0:a?");
    }
    command.append(" -map 0:s?");
    if m.poster.is_some() {
        command.append(" -map 1 -c:v:1 copy -disposition:v:1 attached_pic");
    }
}

fn push_mp4_labels(command: &mut String, m: &FfmpegMergeMetadata, write_date: bool, date: &str)
    ensures
        final(command)@ == mp4_labels(old(command)@, m.deep_view(), write_date, date@),
{
    let audio: &str = if m.ddp_audio.is_some() {
        "1"
    } else {
        "0"
    };
    if write_date {
        let day: String = cat2(" -metadata date=", quote(date).as_str());
        command.append(day.as_str());
    }
    command.append(" -metadata encoding_tool=");
    command.append(quote(m.encoding_tool.as_str()).as_str());
    command.append(" -metadata title=");
    command.append(quote(m.title.as_str()).as_str());
    command.append(" -metadata copyright=");
    command.append(quote(m.copyright.as_str()).as_str());
    command.append(" -metadata comment=");
    command.append(quote(m.comment.as_str()).as_str());
    command.append(" -metadata:s:a:");
    command.append(audio);
    command.append(" title=");
    command.append(quote(m.audio_name.as_str()).as_str());
    command.append(" -metadata:s:a:");
    command.append(audio);
    command.append(" handler=");
    command.append(quote(m.audio_name.as_str()).as_str());
    if m.ddp_audio.is_some() {
        command.append(" -metadata:s:a:0 title=\"DD+\" -metadata:s:a:0 handler=\"DD+\"");
    }
}

fn push_merge_arguments(command: &mut String, q: &FfmpegMergeRequest, date: &str, output: &str)
    ensures
        final(command)@ == merge_arguments(old(command)@, q.deep_view(), date@, output@),
{
    let filter: bool = q.use_aac_filter && q.metadata.ddp_audio.is_none();
    let mut filtered: bool = filter;
    match q.format {
        MergeOutputFormat::Mp4 => {
            push_mp4_inputs(command, q.metadata);
            push_mp4_labels(command, q.metadata, q.write_date, date);
            if q.fast_start {
                command.append(" -movflags +faststart");
            }
            command.append(" -c copy -y");
        },
        MergeOutputFormat::Mkv => command.append(" -map 0 -c copy -y"),
        MergeOutputFormat::Flv => command.append(" -map 0 -c copy -y"),
        MergeOutputFormat::M4a => command.append(" -map 0 -c copy -f mp4 -y"),
        MergeOutputFormat::Ts => {
            command.append(" -map 0 -c copy -y -f mpegts -bsf:v h264_mp4toannexb");
            filtered = false;
        },
        _ => {
            command.append(" -map 0:a -c copy -y");
            filtered = false;
        },
    }
    if filtered {
        command.append(" -bsf:a aac_adtstoasc");
    }
    command.append(" ");
    command.append(quote(output).as_str());
}

/// The plan of a merge by ffmpeg, made in a given directory at a given time.
pub fn plan_ffmpeg_merge_at(q: &FfmpegMergeRequest, current_dir: &str, now: &str) -> (r: Result<
    MuxCommandPlan,
>)
    ensures
        view_plan(r) == merge_plan(q.deep_view(), current_dir@, now@),
{
    if q.files.len() == 0 {
        return Err(Error::mux("ffmpeg merge requires at least one input"));
    }
    assert(q.files.deep_view()[0] == q.files@[0]@);
    let directory: String = match parent(q.files[0].as_str()) {
        None => {
            return Err(Error::mux("input file has no parent directory"));
        },
        Some(d) => d,
    };
    let mut command: String = owned("-loglevel warning -nostdin ");
    if q.use_concat_demuxer {
        match q.concat_list_path {
            None => {
                return Err(Error::mux("ffmpeg concat demuxer requires a concat list path"));
            },
            Some(list) => {
                command.append(" -f concat -safe 0 -i ");
                command.append(quote(list).as_str());
            },
        }
    } else {
        command.append(" -i concat:");
        let names: String = bar_names(q.files);
        command.append(quote(names.as_str()).as_str());
    }
    let output: String = make_output_path(
        q.output_base_path,
        current_dir,
        merge_extension(q.format),
    );
    let date: &str = match (&q.metadata.recording_time, &q.metadata.date_string) {
        (Some(d), _) => d.as_str(),
        (None, Some(d)) => d.as_str(),
        (None, None) => now,
    };
    push_merge_arguments(&mut command, q, date, output.as_str());
    Ok(
        MuxCommandPlan {
            program: owned(q.binary),
            arguments: command,
            working_directory: directory,
            output_path: output,
        },
    )
}

/// The plan of a merge by ffmpeg, made in a given directory now.
pub fn plan_ffmpeg_merge(q: &FfmpegMergeRequest, current_dir: &str) -> (r: Result<MuxCommandPlan>)
    ensures
        exists|now: LocalTime| #[trigger]
            call_ensures(current_local_time, (), now) && view_plan(r) == merge_plan(q.deep_view(), current_dir@, iso_text(now)),
{
    let now: LocalTime = current_local_time();
    let text: String = iso_timestamp(&now);
    let r: Result<MuxCommandPlan> = plan_ffmpeg_merge_at(q, current_dir, text.as_str());
    assert(view_plan(r) == merge_plan(q.deep_view(), current_dir@, iso_text(now)));
    r
}

/// What a prober found out about one track of a file.
#[derive(Debug, PartialEq, Eq)]
pub struct MediaInfo {
    pub id: Option<String>,
    pub text: Option<String>,
    pub base_info: Option<String>,
    pub bitrate: Option<String>,
    pub resolution: Option<String>,
    pub fps: Option<String>,
    pub media_type: Option<String>,
    pub start_time_millis: Option<i64>,
    pub dolby_vision: bool,
    pub hdr: bool,
}

/// Model of `MediaInfo`.
pub struct MediaInfoView {
    pub id: Option<Seq<char>>,
    pub text: Option<Seq<char>>,
    pub base_info: Option<Seq<char>>,
    pub bitrate: Option<Seq<char>>,
    pub resolution: Option<Seq<char>>,
    pub fps: Option<Seq<char>>,
    pub media_type: Option<Seq<char>>,
    pub start_time_millis: Option<i64>,
    pub dolby_vision: bool,
    pub hdr: bool,
}

impl DeepView for MediaInfo {
    type V = MediaInfoView;

    open spec fn deep_view(&self) -> MediaInfoView {
        MediaInfoView {
            id: self.id.deep_view(),
            text: self.text.deep_view(),
            base_info: self.base_info.deep_view(),
            bitrate: self.bitrate.deep_view(),
            resolution: self.resolution.deep_view(),
            fps: self.fps.deep_view(),
            media_type: self.media_type.deep_view(),
            start_time_millis: self.start_time_millis,
            dolby_vision: self.dolby_vision,
            hdr: self.hdr,
        }
    }
}

/// Nothing known of a track.
pub open spec fn no_media_info() -> MediaInfoView {
    MediaInfoView {
        id: None,
        text: None,
        base_info: None,
        bitrate: None,
        resolution: None,
        fps: None,
        media_type: None,
        start_time_millis: None,
        dolby_vision: false,
        hdr: false,
    }
}

impl Default for MediaInfo {
    fn default() -> (r: Self)
        ensures
            r.deep_view() == no_media_info(),
    {
        MediaInfo {
            id: None,
            text: None,
            base_info: None,
            bitrate: None,
            resolution: None,
            fps: None,
            media_type: None,
            start_time_millis: None,
            dolby_vision: false,
            hdr: false,
        }
    }
}

impl Clone for MediaInfo {
    fn clone(&self) -> (r: Self)
        ensures
            r.deep_view() == self.deep_view(),
    {
        MediaInfo {
            id: copy_opt(&self.id),
            text: copy_opt(&self.text),
            base_info: copy_opt(&self.base_info),
            bitrate: copy_opt(&self.bitrate),
            resolution: copy_opt(&self.resolution),
            fps: copy_opt(&self.fps),
            media_type: copy_opt(&self.media_type),
            start_time_millis: self.start_time_millis,
            dolby_vision: self.dolby_vision,
            hdr: self.hdr,
        }
    }
}

/// A file that takes part in a mux.
#[derive(Debug, PartialEq, Eq)]
pub struct OutputFile {
    pub media_type: Option<MediaType>,
    pub index: i32,
    pub file_path: String,
    pub lang_code: Option<String>,
    pub description: Option<String>,
    pub media_infos: Vec<MediaInfo>,
}

/// Model of `OutputFile`.
pub struct OutputFileView {
    pub media_type: Option<MediaType>,
    pub index: i32,
    pub file_path: Seq<char>,
    pub lang_code: Option<Seq<char>>,
    pub description: Option<Seq<char>>,
    pub media_infos: Seq<MediaInfoView>,
}

impl DeepView for OutputFile {
    type V = OutputFileView;

    open spec fn deep_view(&self) -> OutputFileView {
        OutputFileView {
            media_type: self.media_type,
            index: self.index,
            file_path: self.file_path@,
            lang_code: self.lang_code.deep_view(),
            description: self.description.deep_view(),
            media_infos: self.media_infos.deep_view(),
        }
    }
}

impl OutputFile {
    /// A file of which only the place and the path are known.
    pub fn new(index: i32, file_path: &str) -> (r: Self)
        ensures
            r.deep_view() == (OutputFileView {
                media_type: None,
                index,
                file_path: file_path@,
                lang_code: None,
                description: None,
                media_infos: Seq::empty(),
            }),
    {
        let r = OutputFile {
            media_type: None,
            index,
            file_path: owned(file_path),
            lang_code: None,
            description: None,
            media_infos: Vec::new(),
        };
        assert(r.media_infos.deep_view() =~= Seq::empty());
        r
    }
}

impl Clone for OutputFile {
    fn clone(&self) -> (r: Self)
        ensures
            r.deep_view() == self.deep_view(),
    {
        let mut infos: Vec<MediaInfo> = Vec::new();
        let mut i: usize = 0;
        while i < self.media_infos.len()
            invariant
                i <= self.media_infos@.len(),
                infos.deep_view() =~= self.media_infos.deep_view().subrange(0, i as int),
            decreases self.media_infos@.len() - i,
        {
            let info: MediaInfo = self.media_infos[i].clone();
            let ghost before = infos.deep_view();
            let ghost item = info.deep_view();
            infos.push(info);
            assert(infos.deep_view() =~= before.push(item));
            i = i + 1;
        }
        assert(infos.deep_view() =~= self.media_infos.deep_view());
        OutputFile {
            media_type: self.media_type,
            index: self.index,
            file_path: self.file_path.clone(),
            lang_code: copy_opt(&self.lang_code),
            description: copy_opt(&self.description),
            media_infos: infos,
        }
    }
}

/// How files are muxed when the download is done.
#[derive(Debug, PartialEq, Eq)]
pub struct MuxOptions {
    pub use_mkvmerge: bool,
    pub format: MuxFormat,
    pub keep_files: bool,
    pub skip_subtitle: bool,
    pub bin_path: Option<String>,
}

impl Default for MuxOptions {
    fn default() -> (r: Self)
        ensures
            !r.use_mkvmerge,
            r.format == MuxFormat::Mp4,
            !r.keep_files,
            !r.skip_subtitle,
            r.bin_path is None,
    {
        MuxOptions {
            use_mkvmerge: false,
            format: MuxFormat::Mp4,
            keep_files: false,
            skip_subtitle: false,
            bin_path: None,
        }
    }
}

/// Names of Chinese.
pub open spec fn is_chinese(value: Seq<char>) -> bool {
    ||| value == "zh"@
    ||| value == "zho"@
    ||| value == "chi"@
    ||| value == "chs"@
    ||| value == "zh-cn"@
    ||| value == "zh-sg"@
    ||| value == "zh-mo"@
    ||| value == "zh-hans"@
    ||| value == "zh-hant"@
    ||| value == "zh-tw"@
    ||| value == "zh-hant-tw"@
    ||| value == "zh-hk"@
    ||| value == "zh-hant-hk"@
    ||| value == "yue"@
    ||| value == "cmn"@
    ||| value == "cmn-hans"@
    ||| value == "cmn-hant"@
    ||| value == "cantonese"@
    ||| value == "mandarin"@
    ||| value == "cn"@
    ||| value == "cc"@
    ||| value == "cz"@
}

fn chinese(value: &str) -> (r: bool)
    ensures
        r == is_chinese(value@),
{
    same(value, "zh") || same(value, "zho") || same(value, "chi") || same(value, "chs") || same(value, "zh-cn") || same(value, "zh-sg") || same(value, "zh-mo") || same(value, "zh-hans") || same(value, "zh-hant") || same(value, "zh-tw") || same(value, "zh-hant-tw") || same(value, "zh-hk") || same(value, "zh-hant-hk") || same(value, "yue") || same(value, "cmn") || same(value, "cmn-hans") || same(value, "cmn-hant") || same(value, "cantonese") || same(value, "mandarin") || same(value, "cn") || same(value, "cc") || same(value, "cz")
}

/// The code of three letters for a language.
pub open spec fn language_code(value: Seq<char>) -> Option<Seq<char>> {
    if value == "default"@ {
        Some("und"@)
    } else if value == "ar"@ {
        Some("ara"@)
    } else if value == "bg"@ {
        Some("bul"@)
    } else if value == "ca"@ {
        Some("cat"@)
    } else if is_chinese(value) {
        Some("chi"@)
    } else if value == "cs"@ {
        Some("ces"@)
    } else if value == "da"@ {
        Some("dan"@)
    } else if value == "de"@ {
        Some("deu"@)
    } else if value == "el"@ {
        Some("ell"@)
    } else if value == "en"@ || value == "english"@ {
        Some("eng"@)
    } else if value == "es"@ {
        Some("spa"@)
    } else if value == "fi"@ {
        Some("fin"@)
    } else if value == "fr"@ {
        Some("fra"@)
    } else if value == "he"@ {
        Some("heb"@)
    } else if value == "hu"@ {
        Some("hun"@)
    } else if value == "is"@ {
        Some("isl"@)
    } else if value == "it"@ {
        Some("ita"@)
    } else if value == "ja"@ || value == "japanese"@ {
        Some("jpn"@)
    } else if value == "ko"@ || value == "korean"@ {
        Some("kor"@)
    } else if value == "nl"@ {
        Some("nld"@)
    } else if value == "nb"@ {
        Some("nob"@)
    } else if value == "pl"@ {
        Some("pol"@)
    } else if value == "pt"@ {
        Some("por"@)
    } else if value == "ro"@ {
        Some("ron"@)
    } else if value == "ru"@ {
        Some("rus"@)
    } else if value == "hr"@ {
        Some("hrv"@)
    } else if value == "sk"@ {
        Some("slk"@)
    } else if value == "sq"@ {
        Some("sqi"@)
    } else if value == "sv"@ {
        Some("swe"@)
    } else if value == "th"@ || value == "thai"@ {
        Some("tha"@)
    } else if value == "tr"@ {
        Some("tur"@)
    } else if value == "ur"@ {
        Some("urd"@)
    } else if value == "id"@ {
        Some("ind"@)
    } else if value == "uk"@ {
        Some("ukr"@)
    } else if value == "vi"@ || value == "vietnamese"@ {
        Some("vie"@)
    } else if value == "ms"@ || value == "ma"@ {
        Some("msa"@)
    } else {
        None
    }
}

fn language_code_map(value: &str) -> (r: Option<&'static str>)
    ensures
        opt(r) == language_code(value@),
{
    if same(value, "default") {
        return Some("und");
    }
    if same(value, "ar") {
        return Some("ara");
    }
    if same(value, "bg") {
        return Some("bul");
    }
    if same(value, "ca") {
        return Some("cat");
    }
    if chinese(value) {
        return Some("chi");
    }
    if same(value, "cs") {
        return Some("ces");
    }
    if same(value, "da") {
        return Some("dan");
    }
    if same(value, "de") {
        return Some("deu");
    }
    if same(value, "el") {
        return Some("ell");
    }
    if same(value, "en") || same(value, "english") {
        return Some("eng");
    }
    if same(value, "es") {
        return Some("spa");
    }
    if same(value, "fi") {
        return Some("fin");
    }
    if same(value, "fr") {
        return Some("fra");
    }
    if same(value, "he") {
        return Some("heb");
    }
    if same(value, "hu") {
        return Some("hun");
    }
    if same(value, "is") {
        return Some("isl");
    }
    if same(value, "it") {
        return Some("ita");
    }
    if same(value, "ja") || same(value, "japanese") {
        return Some("jpn");
    }
    if same(value, "ko") || same(value, "korean") {
        return Some("kor");
    }
    if same(value, "nl") {
        return Some("nld");
    }
    if same(value, "nb") {
        return Some("nob");
    }
    if same(value, "pl") {
        return Some("pol");
    }
    if same(value, "pt") {
        return Some("por");
    }
    if same(value, "ro") {
        return Some("ron");
    }
    if same(value, "ru") {
        return Some("rus");
    }
    if same(value, "hr") {
        return Some("hrv");
    }
    if same(value, "sk") {
        return Some("slk");
    }
    if same(value, "sq") {
        return Some("sqi");
    }
    if same(value, "sv") {
        return Some("swe");
    }
    if same(value, "th") || same(value, "thai") {
        return Some("tha");
    }
    if same(value, "tr") {
        return Some("tur");
    }
    if same(value, "ur") {
        return Some("urd");
    }
    if same(value, "id") {
        return Some("ind");
    }
    if same(value, "uk") {
        return Some("ukr");
    }
    if same(value, "vi") || same(value, "vietnamese") {
        return Some("vie");
    }
    if same(value, "ms") || same(value, "ma") {
        return Some("msa");
    }
    None
}

/// The name of a language.
pub open spec fn language_name(value: Seq<char>) -> Option<Seq<char>> {
    if value == "default"@ {
        Some("default"@)
    } else if value == "en"@ || value == "eng"@ || value == "english"@ {
        Some("English"@)
    } else if value == "ja"@ || value == "jpn"@ || value == "japanese"@ {
        Some("\u{65e5}\u{672c}\u{8a9e}"@)
    } else if value == "ko"@ || value == "kor"@ || value == "korean"@ {
        Some("\u{d55c}\u{ad6d}\u{c5b4}"@)
    } else if value == "vi"@ || value == "vie"@ || value == "vietnamese"@ {
        Some("Vietnamese"@)
    } else if value == "th"@ || value == "tha"@ || value == "thai"@ {
        Some("Thai"@)
    } else if value == "fr"@ || value == "fra"@ {
        Some("French"@)
    } else if value == "es"@ || value == "spa"@ {
        Some("Spanish"@)
    } else if value == "de"@ || value == "deu"@ {
        Some("German"@)
    } else if value == "it"@ || value == "ita"@ {
        Some("Italian"@)
    } else if value == "pt"@ || value == "por"@ {
        Some("Portuguese"@)
    } else if value == "ru"@ || value == "rus"@ {
        Some("Russian"@)
    } else if is_chinese(value) {
        Some("\u{4e2d}\u{6587}"@)
    } else {
        None
    }
}

fn language_name_map(value: &str) -> (r: Option<&'static str>)
    ensures
        opt(r) == language_name(value@),
{
    if same(value, "default") {
        return Some("default");
    }
    if same(value, "en") || same(value, "eng") || same(value, "english") {
        return Some("English");
    }
    if same(value, "ja") || same(value, "jpn") || same(value, "japanese") {
        return Some("\u{65e5}\u{672c}\u{8a9e}");
    }
    if same(value, "ko") || same(value, "kor") || same(value, "korean") {
        return Some("\u{d55c}\u{ad6d}\u{c5b4}");
    }
    if same(value, "vi") || same(value, "vie") || same(value, "vietnamese") {
        return Some("Vietnamese");
    }
    if same(value, "th") || same(value, "tha") || same(value, "thai") {
        return Some("Thai");
    }
    if same(value, "fr") || same(value, "fra") {
        return Some("French");
    }
    if same(value, "es") || same(value, "spa") {
        return Some("Spanish");
    }
    if same(value, "de") || same(value, "deu") {
        return Some("German");
    }
    if same(value, "it") || same(value, "ita") {
        return Some("Italian");
    }
    if same(value, "pt") || same(value, "por") {
        return Some("Portuguese");
    }
    if same(value, "ru") || same(value, "rus") {
        return Some("Russian");
    }
    if chinese(value) {
        return Some("\u{4e2d}\u{6587}");
    }
    None
}

/// The value of a table for a language tag, or for what stands before its first hyphen.
pub open spec fn by_tag(whole: Option<Seq<char>>, tag: Seq<char>, names: bool) -> Option<Seq<char>> {
    if whole is Some {
        whole
    } else {
        match split_once(tag, "-"@) {
            Some((prefix, _)) => if names {
                language_name(prefix)
            } else {
                language_code(prefix)
            },
            None => None,
        }
    }
}

/// An ASCII letter.
pub open spec fn is_letter(c: char) -> bool {
    ('a' <= c && c <= 'z') || ('A' <= c && c <= 'Z')
}

/// The code of three letters for a language tag; one of three letters that is not known stays.
pub open spec fn converted_language(value: Seq<char>) -> Seq<char> {
    let normal = trim(value);
    let small = lower(normal);
    match by_tag(language_code(small), small, false) {
        Some(code) => code,
        None => if encode_utf8(normal).len() == 3 && (forall|i: int|
            0 <= i < normal.len() ==> is_letter(#[trigger] normal[i])) {
            small
        } else {
            "und"@
        },
    }
}

fn all_letters(s: &str) -> (r: bool)
    ensures
        r == (forall|i: int| 0 <= i < s@.len() ==> is_letter(#[trigger] s@[i])),
{
    let n: usize = s.unicode_len();
    let mut i: usize = 0;
    while i < n
        invariant
            i <= n,
            n == s@.len(),
            forall|k: int| 0 <= k < i ==> is_letter(#[trigger] s@[k]),
        decreases n - i,
    {
        let c: char = s.get_char(i);
        if !(('a' <= c && c <= 'z') || ('A' <= c && c <= 'Z')) {
            assert(!is_letter(s@[i as int]));
            return false;
        }
        i = i + 1;
    }
    true
}

fn convert_language_code(value: &str) -> (r: String)
    ensures
        r@ == converted_language(value@),
{
    let normal: &str = trimmed(value);
    let small: String = lowered(normal);
    match language_code_map(small.as_str()) {
        Some(code) => {
            return owned(code);
        },
        None => {},
    }
    match cut_once(small.as_str(), "-") {
        Some((prefix, _)) => match language_code_map(prefix) {
            Some(code) => {
                return owned(code);
            },
            None => {},
        },
        None => {},
    }
    if normal.as_bytes().len() == 3 && all_letters(normal) {
        return small;
    }
    owned("und")
}

/// The name of a language to show; the tag itself where it is not known.
pub open spec fn displayed_language(value: Seq<char>) -> Seq<char> {
    let small = lower(trim(value));
    match by_tag(language_name(small), small, true) {
        Some(name) => name,
        None => value,
    }
}

fn language_display_name(value: &str) -> (r: String)
    ensures
        r@ == displayed_language(value@),
{
    let small: String = lowered(trimmed(value));
    match language_name_map(small.as_str()) {
        Some(name) => {
            return owned(name);
        },
        None => {},
    }
    match cut_once(small.as_str(), "-") {
        Some((prefix, _)) => match language_name_map(prefix) {
            Some(name) => {
                return owned(name);
            },
            None => {},
        },
        None => {},
    }
    owned(value)
}

/// The language of a file in a mux: `und` where it states none.
pub open spec fn file_language(f: OutputFileView) -> Seq<char> {
    match f.lang_code {
        Some(code) => if code.len() > 0 {
            converted_language(code)
        } else {
            "und"@
        },
        None => "und"@,
    }
}

/// The title of a file in a mux: its description, else the name of its language, if it states one.
pub open spec fn file_title(f: OutputFileView) -> Option<Seq<char>> {
    match f.lang_code {
        Some(code) => if code.len() == 0 {
            f.description
        } else {
            match f.description {
                Some(d) => if d.len() > 0 {
                    Some(d)
                } else {
                    Some(displayed_language(code))
                },
                None => Some(displayed_language(code)),
            }
        },
        None => f.description,
    }
}

fn mux_language_and_description(f: &OutputFile) -> (r: (String, Option<String>))
    ensures
        r.0@ == file_language(f.deep_view()),
        r.1.deep_view() == file_title(f.deep_view()),
{
    match &f.lang_code {
        Some(code) => {
            if code.as_str().unicode_len() > 0 {
                let title: String = match &f.description {
                    Some(d) => if d.as_str().unicode_len() > 0 {
                        d.clone()
                    } else {
                        language_display_name(code.as_str())
                    },
                    None => language_display_name(code.as_str()),
                };
                return (convert_language_code(code.as_str()), Some(title));
            }
        },
        None => {},
    }
    (owned("und"), copy_opt(&f.description))
}

/// The inputs of a mux, one after the other.
pub open spec fn mux_inputs(files: Seq<OutputFileView>, n: int) -> Seq<char>
    decreases n,
{
    if n <= 0 {
        Seq::empty()
    } else {
        mux_inputs(files, n - 1) + " -i "@ + quoted(files[n - 1].file_path) + " "@
    }
}

/// Every input is taken whole.
pub open spec fn mux_maps(n: nat) -> Seq<char>
    decreases n,
{
    if n == 0 {
        Seq::empty()
    } else {
        mux_maps((n - 1) as nat) + " -map "@ + dec((n - 1) as nat) + " "@
    }
}

/// The number of the first track of file `n`: a file has the tracks that were found in it, one at
/// least.
pub open spec fn first_track(files: Seq<OutputFileView>, n: int) -> nat
    decreases n,
{
    if n <= 0 {
        0
    } else {
        first_track(files, n - 1) + (if files[n - 1].media_infos.len() > 1 {
            files[n - 1].media_infos.len()
        } else {
            1
        })
    }
}

/// Language and title of each file.
pub open spec fn mux_labels(files: Seq<OutputFileView>, n: int) -> Seq<char>
    decreases n,
{
    if n <= 0 {
        Seq::empty()
    } else {
        let track = " -metadata:s:"@ + dec(first_track(files, n - 1));
        let spoken = mux_labels(files, n - 1) + track + " language="@ + quoted(
            file_language(files[n - 1]),
        ) + " "@;
        match file_title(files[n - 1]) {
            Some(title) => if title.len() > 0 {
                spoken + track + " title="@ + quoted(title) + " "@
            } else {
                spoken
            },
            None => spoken,
        }
    }
}

/// How many of the first `n` files are audio.
pub open spec fn audio_count(files: Seq<OutputFileView>, n: int) -> nat
    decreases n,
{
    if n <= 0 {
        0
    } else {
        audio_count(files, n - 1) + if files[n - 1].media_type == Some(MediaType::Audio) {
            1nat
        } else {
            0nat
        }
    }
}

/// Neither audio nor subtitles.
pub open spec fn is_picture(f: OutputFileView) -> bool {
    f.media_type != Some(MediaType::Audio) && f.media_type != Some(MediaType::Subtitles)
}

/// The audio tracks behind the first are no default.
pub open spec fn audio_dispositions(n: nat) -> Seq<char>
    decreases n,
{
    if n <= 1 {
        Seq::empty()
    } else {
        audio_dispositions((n - 1) as nat) + " -disposition:a:"@ + dec((n - 1) as nat) + " 0 "@
    }
}

/// A file of a given ending.
pub open spec fn ends_in(path: Seq<char>, ending: Seq<char>) -> bool {
    match path_extension(path) {
        Some(e) => lower(e) == lower(ending),
        None => false,
    }
}

/// Whether one of the files is a subtitle file in SubRip.
pub open spec fn has_srt(files: Seq<OutputFileView>) -> bool {
    exists|i: int| 0 <= i < files.len() && ends_in(#[trigger] files[i].file_path, "srt"@)
}

/// The codecs of a mux.
pub open spec fn mux_codecs(format: MuxFormat, srt: bool) -> Seq<char> {
    match format {
        MuxFormat::Mp4 => " -strict unofficial -c:a copy -c:v copy -c:s mov_text "@,
        MuxFormat::Ts => " -strict unofficial -c:a copy -c:v copy "@,
        MuxFormat::Mkv => if srt {
            " -strict unofficial -c:a copy -c:v copy -c:s srt "@
        } else {
            " -strict unofficial -c:a copy -c:v copy -c:s webvtt "@
        },
    }
}

/// The arguments of a mux by ffmpeg. The date is none where none is wanted.
pub open spec fn mux_arguments(
    files: Seq<OutputFileView>,
    format: MuxFormat,
    date: Option<Seq<char>>,
    output: Seq<char>,
) -> Seq<char> {
    let n = files.len() as int;
    let labelled = "-loglevel warning -nostdin -y -dn "@ + mux_inputs(files, n) + mux_maps(
        n as nat,
    ) + mux_codecs(format, has_srt(files)) + " -map_metadata -1 "@ + mux_labels(files, n);
    let pictured = added(
        labelled,
        exists|i: int| 0 <= i < n && is_picture(#[trigger] files[i]),
        " -disposition:v:0 default "@,
    );
    let heard = if audio_count(files, n) > 0 {
        pictured + " -disposition:a:0 default "@ + audio_dispositions(audio_count(files, n))
            + " -disposition:s 0 "@
    } else {
        pictured
    };
    let dated = match date {
        Some(d) => heard + " -metadata date="@ + quoted(d) + " "@,
        None => heard,
    };
    dated + " -ignore_unknown -copy_unknown "@ + " "@ + quoted(output)
}

/// The plan of a mux by ffmpeg, made in a given directory.
pub open spec fn mux_plan(
    binary: Seq<char>,
    files: Seq<OutputFileView>,
    base: Seq<char>,
    format: MuxFormat,
    date: Option<Seq<char>>,
    current_dir: Seq<char>,
) -> MuxCommandPlanView {
    let output = output_path_of(base, current_dir, mux_ending(format));
    MuxCommandPlanView {
        program: binary,
        arguments: mux_arguments(files, format, date, output),
        working_directory: current_dir,
        output_path: output,
    }
}

fn push_mux_inputs(command: &mut String, files: &Vec<OutputFile>)
    ensures
        final(command)@ == old(command)@ + mux_inputs(files.deep_view(), files@.len() as int),
{
    let ghost all = files.deep_view();
    let ghost start = command@;
    let mut out: String = String::new();
    let mut i: usize = 0;
    while i < files.len()
        invariant
            i <= files@.len(),
            all == files.deep_view(),
            out@ == mux_inputs(all, i as int),
        decreases files@.len() - i,
    {
        assert(all[i as int] == files@[i as int].deep_view());
        out.append(" -i ");
        out.append(quote(files[i].file_path.as_str()).as_str());
        out.append(" ");
        i = i + 1;
    }
    command.append(out.as_str());
}

pub(crate) fn push_mux_maps(command: &mut String, n: usize)
    ensures
        final(command)@ == old(command)@ + mux_maps(n as nat),
{
    let mut out: String = String::new();
    let mut i: usize = 0;
    while i < n
        invariant
            i <= n,
            out@ == mux_maps(i as nat),
        decreases n - i,
    {
        out.append(" -map ");
        out.append(usize_text(i).as_str());
        out.append(" ");
        i = i + 1;
    }
    command.append(out.as_str());
}

fn push_mux_labels(command: &mut String, files: &Vec<OutputFile>)
    ensures
        final(command)@ == old(command)@ + mux_labels(files.deep_view(), files@.len() as int),
{
    let ghost all = files.deep_view();
    let count: usize = files.len();
    let mut out: String = String::new();
    let mut track: u128 = 0;
    let mut i: usize = 0;
    while i < count
        invariant
            i <= count,
            count == files@.len(),
            all == files.deep_view(),
            out@ == mux_labels(all, i as int),
            track == first_track(all, i as int),
            track <= i * 0x1_0000_0000_0000_0000,
        decreases count - i,
    {
        assert(all[i as int] == files@[i as int].deep_view());
        let file: &OutputFile = &files[i];
        let (language, title) = mux_language_and_description(file);
        let number: String = crate::text::u128_text(track);
        let label: String = cat2(" -metadata:s:", number.as_str());
        out.append(label.as_str());
        out.append(" language=");
        out.append(quote(language.as_str()).as_str());
        out.append(" ");
        match &title {
            Some(t) => {
                if t.as_str().unicode_len() > 0 {
                    out.append(label.as_str());
                    out.append(" title=");
                    out.append(quote(t.as_str()).as_str());
                    out.append(" ");
                }
            },
            None => {},
        }
        let infos: usize = file.media_infos.len();
        assert(track <= 0xffff_ffff_ffff_ffff * 0x1_0000_0000_0000_0000) by (nonlinear_arith)
            requires
                track <= i * 0x1_0000_0000_0000_0000,
                i <= 0xffff_ffff_ffff_ffff,
        ;
        track = track + (if infos > 1 {
            infos as u128
        } else {
            1
        });
        i = i + 1;
    }
    command.append(out.as_str());
}

fn count_audio(files: &Vec<OutputFile>) -> (r: usize)
    ensures
        r == audio_count(files.deep_view(), files@.len() as int),
{
    let ghost all = files.deep_view();
    let mut n: usize = 0;
    let mut i: usize = 0;
    while i < files.len()
        invariant
            n <= i <= files@.len(),
            all == files.deep_view(),
            n == audio_count(all, i as int),
        decreases files@.len() - i,
    {
        assert(all[i as int] == files@[i as int].deep_view());
        let hit: bool = match files[i].media_type {
            Some(t) => t == MediaType::Audio,
            None => false,
        };
        if hit {
            n = n + 1;
        }
        i = i + 1;
    }
    n
}

fn has_picture(files: &Vec<OutputFile>) -> (r: bool)
    ensures
        r == (exists|i: int|
            0 <= i < files.deep_view().len() && is_picture(#[trigger] files.deep_view()[i])),
{
    let ghost all = files.deep_view();
    let mut i: usize = 0;
    while i < files.len()
        invariant
            i <= files@.len(),
            all == files.deep_view(),
            forall|k: int| 0 <= k < i ==> !is_picture(#[trigger] all[k]),
        decreases files@.len() - i,
    {
        assert(all[i as int] == files@[i as int].deep_view());
        let hit: bool = match files[i].media_type {
            Some(t) => t != MediaType::Audio && t != MediaType::Subtitles,
            None => true,
        };
        if hit {
            assert(is_picture(all[i as int]));
            return true;
        }
        i = i + 1;
    }
    false
}

fn has_extension(path: &str, ending: &str) -> (r: bool)
    ensures
        r == ends_in(path@, ending@),
{
    match extension(path) {
        Some(e) => same_ignoring_case(e, ending),
        None => false,
    }
}

fn finds_srt(files: &Vec<OutputFile>) -> (r: bool)
    ensures
        r == has_srt(files.deep_view()),
{
    let ghost all = files.deep_view();
    let mut i: usize = 0;
    while i < files.len()
        invariant
            i <= files@.len(),
            all == files.deep_view(),
            forall|k: int| 0 <= k < i ==> !ends_in(#[trigger] all[k].file_path, "srt"@),
        decreases files@.len() - i,
    {
        assert(all[i as int] == files@[i as int].deep_view());
        if has_extension(files[i].file_path.as_str(), "srt") {
            assert(ends_in(all[i as int].file_path, "srt"@));
            return true;
        }
        i = i + 1;
    }
    false
}

fn push_audio_dispositions(command: &mut String, n: usize)
    ensures
        final(command)@ == old(command)@ + audio_dispositions(n as nat),
{
    let mut out: String = String::new();
    let mut i: usize = 1;
    while i < n
        invariant
            1 <= i,
            i <= n || i == 1,
            out@ == audio_dispositions(i as nat),
        decreases n - i,
    {
        out.append(" -disposition:a:");
        out.append(usize_text(i).as_str());
        out.append(" 0 ");
        i = i + 1;
    }
    assert(audio_dispositions(n as nat) == out@);
    command.append(out.as_str());
}

/// The plan of a mux by ffmpeg, made in a given directory at a given time.
pub fn plan_ffmpeg_mux_at(
    binary: &str,
    files: &Vec<OutputFile>,
    output_base_path: &str,
    format: MuxFormat,
    date: Option<&str>,
    current_dir: &str,
) -> (r: MuxCommandPlan)
    ensures
        r.deep_view() == mux_plan(
            binary@,
            files.deep_view(),
            output_base_path@,
            format,
            opt(date),
            current_dir@,
        ),
{
    let ghost all = files.deep_view();
    let output: String = make_output_path(output_base_path, current_dir, mux_extension(format));
    let mut command: String = owned("-loglevel warning -nostdin -y -dn ");
    push_mux_inputs(&mut command, files);
    push_mux_maps(&mut command, files.len());
    let srt: bool = finds_srt(files);
    command.append(
        match format {
            MuxFormat::Mp4 => " -strict unofficial -c:a copy -c:v copy -c:s mov_text ",
            MuxFormat::Ts => " -strict unofficial -c:a copy -c:v copy ",
            MuxFormat::Mkv => if srt {
                " -strict unofficial -c:a copy -c:v copy -c:s srt "
            } else {
                " -strict unofficial -c:a copy -c:v copy -c:s webvtt "
            },
        },
    );
    command.append(" -map_metadata -1 ");
    push_mux_labels(&mut command, files);
    if has_picture(files) {
        command.append(" -disposition:v:0 default ");
    }
    let audio: usize = count_audio(files);
    if audio > 0 {
        command.append(" -disposition:a:0 default ");
        push_audio_dispositions(&mut command, audio);
        command.append(" -disposition:s 0 ");
    }
    match date {
        Some(d) => {
            command.append(" -metadata date=");
            command.append(quote(d).as_str());
            command.append(" ");
        },
        None => {},
    }
    command.append(" -ignore_unknown -copy_unknown ");
    command.append(" ");
    command.append(quote(output.as_str()).as_str());
    MuxCommandPlan {
        program: owned(binary),
        arguments: command,
        working_directory: owned(current_dir),
        output_path: output,
    }
}

/// The date of a mux: none where none is wanted, else the given one or the present.
pub open spec fn mux_date(wanted: bool, given: Option<Seq<char>>, now: Seq<char>) -> Option<Seq<char>> {
    if !wanted {
        None
    } else {
        either(given, Some(now))
    }
}

/// The plan of a mux by ffmpeg, made in a given directory now.
pub fn plan_ffmpeg_mux(
    binary: &str,
    files: &Vec<OutputFile>,
    output_base_path: &str,
    format: MuxFormat,
    date_info: bool,
    date_string: Option<&str>,
    current_dir: &str,
) -> (r: MuxCommandPlan)
    ensures
        exists|now: LocalTime| #[trigger]
            call_ensures(current_local_time, (), now) && r.deep_view() == mux_plan(
                binary@,
                files.deep_view(),
                output_base_path@,
                format,
                mux_date(date_info, opt(date_string), iso_text(now)),
                current_dir@,
            ),
{
    let now: LocalTime = current_local_time();
    let text: String = iso_timestamp(&now);
    let date: Option<&str> = if !date_info {
        None
    } else {
        match date_string {
            Some(d) => Some(d),
            None => Some(text.as_str()),
        }
    };
    let r: MuxCommandPlan = plan_ffmpeg_mux_at(
        binary,
        files,
        output_base_path,
        format,
        date,
        current_dir,
    );
    assert(r.deep_view() == mux_plan(
        binary@,
        files.deep_view(),
        output_base_path@,
        format,
        mux_date(date_info, opt(date_string), iso_text(now)),
        current_dir@,
    ));
    r
}

/// The arguments that mkvmerge gets for the first `n` files.
pub open spec fn mkv_inputs(files: Seq<OutputFileView>, n: int) -> Seq<char>
    decreases n,
{
    if n <= 0 {
        Seq::empty()
    } else {
        let f = files[n - 1];
        let spoken = mkv_inputs(files, n - 1) + " --language 0:"@ + quoted(file_language(f)) + " "@;
        let second = f.media_type == Some(MediaType::Audio) && audio_count(files, n - 1) > 0;
        let ranked = added(
            spoken,
            f.media_type == Some(MediaType::Subtitles) || second,
            " --default-track 0:no "@,
        );
        let titled = match file_title(f) {
            Some(title) => if title.len() > 0 {
                ranked + " --track-name 0:"@ + quoted(title) + " "@
            } else {
                ranked
            },
            None => ranked,
        };
        titled + " "@ + quoted(f.file_path) + " "@
    }
}

/// The plan of a mux by mkvmerge, made in a given directory.
pub open spec fn mkv_plan(
    binary: Seq<char>,
    files: Seq<OutputFileView>,
    base: Seq<char>,
    current_dir: Seq<char>,
) -> MuxCommandPlanView {
    let output = output_path_of(base, current_dir, ".mkv"@);
    MuxCommandPlanView {
        program: binary,
        arguments: "-q --output "@ + quoted(output) + "  --no-chapters "@ + mkv_inputs(
            files,
            files.len() as int,
        ),
        working_directory: current_dir,
        output_path: output,
    }
}

fn push_mkv_input(out: &mut String, file: &OutputFile, audio_seen: bool)
    ensures
        ({
            let f = file.deep_view();
            let spoken = old(out)@ + " --language 0:"@ + quoted(file_language(f)) + " "@;
            let second = f.media_type == Some(MediaType::Audio) && audio_seen;
            let ranked = added(
                spoken,
                f.media_type == Some(MediaType::Subtitles) || second,
                " --default-track 0:no "@,
            );
            let titled = match file_title(f) {
                Some(title) => if title.len() > 0 {
                    ranked + " --track-name 0:"@ + quoted(title) + " "@
                } else {
                    ranked
                },
                None => ranked,
            };
            final(out)@ == titled + " "@ + quoted(f.file_path) + " "@
        }),
{
    let (language, title) = mux_language_and_description(file);
    out.append(" --language 0:");
    out.append(quote(language.as_str()).as_str());
    out.append(" ");
    let behind: bool = match file.media_type {
        Some(t) => t == MediaType::Subtitles || (t == MediaType::Audio && audio_seen),
        None => false,
    };
    if behind {
        out.append(" --default-track 0:no ");
    }
    match &title {
        Some(t) => {
            if t.as_str().unicode_len() > 0 {
                out.append(" --track-name 0:");
                out.append(quote(t.as_str()).as_str());
                out.append(" ");
            }
        },
        None => {},
    }
    out.append(" ");
    out.append(quote(file.file_path.as_str()).as_str());
    out.append(" ");
}

/// The plan of a mux by mkvmerge, made in a given directory.
pub fn plan_mkvmerge_mux(
    binary: &str,
    files: &Vec<OutputFile>,
    output_base_path: &str,
    current_dir: &str,
) -> (r: MuxCommandPlan)
    ensures
        r.deep_view() == mkv_plan(
            binary@,
            files.deep_view(),
            output_base_path@,
            current_dir@,
        ),
{
    let ghost all = files.deep_view();
    let output: String = make_output_path(output_base_path, current_dir, ".mkv");
    let mut inputs: String = String::new();
    let mut audio_seen: bool = false;
    let mut i: usize = 0;
    while i < files.len()
        invariant
            i <= files@.len(),
            all == files.deep_view(),
            inputs@ == mkv_inputs(all, i as int),
            audio_seen == (audio_count(all, i as int) > 0),
        decreases files@.len() - i,
    {
        assert(all[i as int] == files@[i as int].deep_view());
        push_mkv_input(&mut inputs, &files[i], audio_seen);
        let is_audio: bool = match files[i].media_type {
            Some(t) => t == MediaType::Audio,
            None => false,
        };
        if is_audio {
            audio_seen = true;
        }
        i = i + 1;
    }
    let mut command: String = owned("-q --output ");
    command.append(quote(output.as_str()).as_str());
    command.append("  --no-chapters ");
    command.append(inputs.as_str());
    MuxCommandPlan {
        program: owned(binary),
        arguments: command,
        working_directory: owned(current_dir),
        output_path: output,
    }
}

/// The file of an import.
pub open spec fn imported(i: MuxImportView) -> OutputFileView {
    OutputFileView {
        media_type: None,
        index: i.index,
        file_path: i.path,
        lang_code: i.language,
        description: i.name,
        media_infos: Seq::empty(),
    }
}

/// The files without those of subtitles.
pub open spec fn without_subtitles(files: Seq<OutputFileView>) -> Seq<OutputFileView>
    decreases files.len(),
{
    if files.len() == 0 {
        files
    } else if files.last().media_type == Some(MediaType::Subtitles) {
        without_subtitles(files.drop_last())
    } else {
        without_subtitles(files.drop_last()).push(files.last())
    }
}

/// `x` put behind every file whose place is not after its own.
pub open spec fn insert_file(s: Seq<OutputFileView>, x: OutputFileView) -> Seq<OutputFileView>
    decreases s.len(),
{
    if s.len() > 0 && x.index < s.last().index {
        insert_file(s.drop_last(), x).push(s.last())
    } else {
        s.push(x)
    }
}

/// The files by their places; those with the same place stay as they stood.
pub open spec fn by_index(s: Seq<OutputFileView>) -> Seq<OutputFileView>
    decreases s.len(),
{
    if s.len() == 0 {
        s
    } else {
        insert_file(by_index(s.drop_last()), s.last())
    }
}

/// The files with a given place, in the order in which they stand.
pub open spec fn at_index(s: Seq<OutputFileView>, index: i32) -> Seq<OutputFileView>
    decreases s.len(),
{
    if s.len() == 0 {
        s
    } else if s.last().index == index {
        at_index(s.drop_last(), index).push(s.last())
    } else {
        at_index(s.drop_last(), index)
    }
}

/// The places do not descend.
pub open spec fn indexes_ascend(s: Seq<OutputFileView>) -> bool {
    forall|i: int, j: int|
        0 <= i < j < s.len() ==> (#[trigger] s[i]).index <= (#[trigger] s[j]).index
}

proof fn lemma_insert_file(s: Seq<OutputFileView>, x: OutputFileView, index: i32)
    requires
        indexes_ascend(s),
    ensures
        indexes_ascend(insert_file(s, x)),
        insert_file(s, x).to_multiset() == s.to_multiset().insert(x),
        forall|i: int|
            0 <= i < insert_file(s, x).len() ==> (#[trigger] insert_file(s, x)[i]).index <= if s.len()
                > 0 && x.index < s.last().index {
                s.last().index
            } else {
                x.index
            },
        at_index(insert_file(s, x), index) == if x.index == index {
            at_index(s, index).push(x)
        } else {
            at_index(s, index)
        },
    decreases s.len(),
{
    broadcast use vstd::seq_lib::group_to_multiset_ensures;

    let r = insert_file(s, x);
    if s.len() > 0 && x.index < s.last().index {
        let t = insert_file(s.drop_last(), x);
        lemma_insert_file(s.drop_last(), x, index);
        assert(r.drop_last() =~= t);
        assert(s =~= s.drop_last().push(s.last()));
        assert(r.to_multiset() =~= s.to_multiset().insert(x));
        assert forall|i: int| 0 <= i < r.len() implies (#[trigger] r[i]).index <= s.last().index by {
            if i < r.len() - 1 {
                assert(r[i] == t[i]);
                if s.len() > 1 {
                    assert(s.drop_last().last() == s[s.len() - 2]);
                    assert(s[s.len() - 2].index <= s[s.len() - 1].index);
                }
            }
        }
        assert forall|i: int, j: int| 0 <= i < j < r.len() implies (#[trigger] r[i]).index <= (
        #[trigger] r[j]).index by {
            if j < r.len() - 1 {
                assert(r[i] == t[i] && r[j] == t[j]);
            }
        }
    } else {
        assert(r.drop_last() =~= s);
        assert forall|i: int| 0 <= i < r.len() implies (#[trigger] r[i]).index <= x.index by {
            if i < s.len() {
                assert(r[i] == s[i]);
                assert(s[s.len() - 1] == s.last());
            }
        }
        assert forall|i: int, j: int| 0 <= i < j < r.len() implies (#[trigger] r[i]).index <= (
        #[trigger] r[j]).index by {
            if j < s.len() {
                assert(r[i] == s[i] && r[j] == s[j]);
            }
        }
    }
}

/// Sorting by place puts the files in order, keeps every one of them, and keeps the order of those
/// with the same place.
pub proof fn law_files_are_sorted_stably(s: Seq<OutputFileView>, index: i32)
    ensures
        indexes_ascend(by_index(s)),
        by_index(s).to_multiset() == s.to_multiset(),
        at_index(by_index(s), index) == at_index(s, index),
    decreases s.len(),
{
    broadcast use vstd::seq_lib::group_to_multiset_ensures;

    if s.len() > 0 {
        law_files_are_sorted_stably(s.drop_last(), index);
        lemma_insert_file(by_index(s.drop_last()), s.last(), index);
        assert(s =~= s.drop_last().push(s.last()));
    }
}

fn place_file(sorted: &mut Vec<OutputFile>, file: OutputFile)
    ensures
        final(sorted).deep_view() == insert_file(old(sorted).deep_view(), file.deep_view()),
{
    let ghost all = sorted.deep_view();
    let ghost x = file.deep_view();
    let mut j: usize = sorted.len();
    assert(all.subrange(0, j as int) =~= all);
    assert(insert_file(all, x) =~= insert_file(all.subrange(0, j as int), x) + all.subrange(
        j as int,
        all.len() as int,
    ));
    while j > 0 && file.index < sorted[j - 1].index
        invariant
            j <= sorted@.len(),
            all == sorted.deep_view(),
            x == file.deep_view(),
            insert_file(all, x) == insert_file(all.subrange(0, j as int), x) + all.subrange(
                j as int,
                all.len() as int,
            ),
        decreases j,
    {
        let ghost head = all.subrange(0, j as int);
        assert(head.last() == sorted@[j - 1].deep_view());
        assert(head.drop_last() =~= all.subrange(0, j - 1));
        j = j - 1;
        assert(insert_file(all, x) =~= insert_file(all.subrange(0, j as int), x) + all.subrange(
            j as int,
            all.len() as int,
        ));
    }
    if j > 0 {
        assert(all.subrange(0, j as int).last() == sorted@[j - 1].deep_view());
    }
    assert(insert_file(all.subrange(0, j as int), x) =~= all.subrange(0, j as int).push(x));
    sorted.insert(j, file);
    assert(sorted.deep_view() =~= insert_file(all, x));
}

/// The files of a mux: the outputs and the imports by their places, without subtitles where they are
/// not wanted.
pub open spec fn files_with_imports(
    outputs: Seq<OutputFileView>,
    imports: Seq<MuxImportView>,
    skip_subtitle: bool,
) -> Seq<OutputFileView> {
    let all = outputs + imports.map_values(|i: MuxImportView| imported(i));
    by_index(
        if skip_subtitle {
            without_subtitles(all)
        } else {
            all
        },
    )
}

fn gather_files(outputs: &Vec<OutputFile>, imports: &Vec<MuxImport>) -> (r: Vec<OutputFile>)
    ensures
        r.deep_view() == outputs.deep_view() + imports.deep_view().map_values(
            |i: MuxImportView| imported(i),
        ),
{
    let ghost ov = outputs.deep_view();
    let ghost iv = imports.deep_view();
    let ghost made = iv.map_values(|i: MuxImportView| imported(i));
    let mut all: Vec<OutputFile> = Vec::new();
    let mut i: usize = 0;
    while i < outputs.len()
        invariant
            i <= outputs@.len(),
            ov == outputs.deep_view(),
            all.deep_view() =~= ov.subrange(0, i as int),
        decreases outputs@.len() - i,
    {
        let file: OutputFile = outputs[i].clone();
        let ghost before = all.deep_view();
        let ghost item = file.deep_view();
        all.push(file);
        assert(all.deep_view() =~= before.push(item));
        assert(ov[i as int] == item);
        i = i + 1;
    }
    assert(all.deep_view() =~= ov);
    let mut k: usize = 0;
    while k < imports.len()
        invariant
            k <= imports@.len(),
            iv == imports.deep_view(),
            made == iv.map_values(|i: MuxImportView| imported(i)),
            all.deep_view() =~= ov + made.subrange(0, k as int),
        decreases imports@.len() - k,
    {
        let import: &MuxImport = &imports[k];
        let mut file: OutputFile = OutputFile::new(import.index, import.path.as_str());
        file.lang_code = copy_opt(&import.language);
        file.description = copy_opt(&import.name);
        let ghost before = all.deep_view();
        let ghost item = file.deep_view();
        assert(iv[k as int] == import.deep_view());
        assert(made[k as int] == item);
        all.push(file);
        assert(all.deep_view() =~= before.push(item));
        k = k + 1;
    }
    assert(made.subrange(0, imports@.len() as int) =~= made);
    all
}

/// The files of a mux: the outputs and the imports by their places, without subtitles where they are
/// not wanted.
pub fn output_files_with_imports(
    outputs: &Vec<OutputFile>,
    imports: &Vec<MuxImport>,
    skip_subtitle: bool,
) -> (r: Vec<OutputFile>)
    ensures
        r.deep_view() == files_with_imports(
            outputs.deep_view(),
            imports.deep_view(),
            skip_subtitle,
        ),
{
    let all: Vec<OutputFile> = gather_files(outputs, imports);
    let ghost av = all.deep_view();
    let mut sorted: Vec<OutputFile> = Vec::new();
    let mut i: usize = 0;
    let ghost mut kept = Seq::<OutputFileView>::empty();
    assert(sorted.deep_view() =~= Seq::<OutputFileView>::empty());
    assert(av.subrange(0, 0) =~= Seq::<OutputFileView>::empty());
    while i < all.len()
        invariant
            i <= all@.len(),
            av == all.deep_view(),
            kept == if skip_subtitle {
                without_subtitles(av.subrange(0, i as int))
            } else {
                av.subrange(0, i as int)
            },
            sorted.deep_view() == by_index(kept),
        decreases all@.len() - i,
    {
        let ghost head = av.subrange(0, i + 1);
        assert(head.drop_last() =~= av.subrange(0, i as int));
        assert(head.last() == all@[i as int].deep_view());
        let is_subtitle: bool = match all[i].media_type {
            Some(t) => t == MediaType::Subtitles,
            None => false,
        };
        if !(skip_subtitle && is_subtitle) {
            let file: OutputFile = all[i].clone();
            proof {
                let grown = kept.push(file.deep_view());
                assert(grown.drop_last() =~= kept);
                kept = grown;
            }
            place_file(&mut sorted, file);
        }
        assert(!skip_subtitle ==> kept =~= head);
        i = i + 1;
    }
    assert(av.subrange(0, av.len() as int) =~= av);
    sorted
}

/// The codecs that mp4forge can merge and mux.
#[derive(Debug, PartialEq, Eq)]
pub struct Mp4forgeSupportMatrix {
    pub version: String,
    pub video_codecs: Vec<String>,
    pub audio_codecs: Vec<String>,
}

/// Model of `Mp4forgeSupportMatrix`.
pub struct Mp4forgeSupportMatrixView {
    pub version: Seq<char>,
    pub video_codecs: Seq<Seq<char>>,
    pub audio_codecs: Seq<Seq<char>>,
}

impl DeepView for Mp4forgeSupportMatrix {
    type V = Mp4forgeSupportMatrixView;

    open spec fn deep_view(&self) -> Mp4forgeSupportMatrixView {
        Mp4forgeSupportMatrixView {
            version: self.version@,
            video_codecs: self.video_codecs.deep_view(),
            audio_codecs: self.audio_codecs.deep_view(),
        }
    }
}

impl Default for Mp4forgeSupportMatrix {
    fn default() -> (r: Self)
        ensures
            r.deep_view() == (Mp4forgeSupportMatrixView {
                version: "haki-dl-mp4forge-matrix-v1"@,
                video_codecs: seq![
                    "avc1"@,
                    "h264"@,
                    "hvc1"@,
                    "hev1"@,
                    "hevc"@,
                    "dvhe"@,
                    "dvh1"@,
                ],
                audio_codecs: seq!["mp4a"@, "aac"@, "ec-3"@, "ec3"@, "ac-3"@, "ac3"@],
            }),
    {
        let video_codecs: Vec<String> = vec![
            owned("avc1"),
            owned("h264"),
            owned("hvc1"),
            owned("hev1"),
            owned("hevc"),
            owned("dvhe"),
            owned("dvh1"),
        ];
        let audio_codecs: Vec<String> = vec![
            owned("mp4a"),
            owned("aac"),
            owned("ec-3"),
            owned("ec3"),
            owned("ac-3"),
            owned("ac3"),
        ];
        assert(video_codecs.deep_view() =~= seq![
            "avc1"@,
            "h264"@,
            "hvc1"@,
            "hev1"@,
            "hevc"@,
            "dvhe"@,
            "dvh1"@,
        ]);
        assert(audio_codecs.deep_view() =~= seq![
            "mp4a"@,
            "aac"@,
            "ec-3"@,
            "ec3"@,
            "ac-3"@,
            "ac3"@,
        ]);
        Mp4forgeSupportMatrix {
            version: owned("haki-dl-mp4forge-matrix-v1"),
            video_codecs,
            audio_codecs,
        }
    }
}

/// Whether mp4forge can handle a stream.
#[derive(Debug, PartialEq, Eq)]
pub enum Mp4forgeSupport {
    Supported,
    RequiresProbe { reason: String },
    Unsupported { reason: String },
}

/// Model of `Mp4forgeSupport`.
pub enum Mp4forgeSupportView {
    Supported,
    RequiresProbe(Seq<char>),
    Unsupported(Seq<char>),
}

impl DeepView for Mp4forgeSupport {
    type V = Mp4forgeSupportView;

    open spec fn deep_view(&self) -> Mp4forgeSupportView {
        match self {
            Mp4forgeSupport::Supported => Mp4forgeSupportView::Supported,
            Mp4forgeSupport::RequiresProbe { reason } => Mp4forgeSupportView::RequiresProbe(
                reason@,
            ),
            Mp4forgeSupport::Unsupported { reason } => Mp4forgeSupportView::Unsupported(reason@),
        }
    }
}

/// One of the texts stands at the beginning.
pub open spec fn has_prefix_of(value: Seq<char>, list: Seq<Seq<char>>) -> bool {
    exists|k: int| 0 <= k < list.len() && starts_with(value, #[trigger] list[k])
}

fn has_any_prefix(value: &str, list: &Vec<String>) -> (r: bool)
    ensures
        r == has_prefix_of(value@, list.deep_view()),
{
    let ghost all = list.deep_view();
    let mut i: usize = 0;
    while i < list.len()
        invariant
            i <= list@.len(),
            all == list.deep_view(),
            forall|k: int| 0 <= k < i ==> !starts_with(value@, #[trigger] all[k]),
        decreases list@.len() - i,
    {
        assert(all[i as int] == list@[i as int]@);
        if begins_with(value, list[i].as_str()) {
            assert(starts_with(value@, all[i as int]));
            return true;
        }
        i = i + 1;
    }
    false
}

/// Whether mp4forge knows a codec in a stream of a kind.
pub open spec fn knows_codec(
    codec: Seq<char>,
    media_type: Option<MediaType>,
    m: Mp4forgeSupportMatrixView,
) -> bool {
    match media_type {
        Some(MediaType::Audio) => has_prefix_of(codec, m.audio_codecs),
        Some(MediaType::Subtitles) => false,
        Some(MediaType::ClosedCaptions) => false,
        _ => has_prefix_of(codec, m.video_codecs) || has_prefix_of(codec, m.audio_codecs),
    }
}

/// A codec in a list, without white space, in lower case.
pub open spec fn codec_word(part: Seq<char>) -> Seq<char> {
    lower(trim(part))
}

/// Whether a list of codecs names one that mp4forge does not know.
pub open spec fn names_unknown_codec(
    text: Seq<char>,
    media_type: Option<MediaType>,
    m: Mp4forgeSupportMatrixView,
) -> bool {
    let parts = split(text, ","@);
    exists|i: int|
        0 <= i < parts.len() && codec_word(#[trigger] parts[i]).len() > 0 && !knows_codec(
            codec_word(parts[i]),
            media_type,
            m,
        )
}

/// The error about a list of codecs.
pub open spec fn codec_error(text: Seq<char>) -> ErrorView {
    ErrorView::Mux("mp4forge does not support codec family: "@ + text)
}

fn validate_codec_text(
    codec_text: &str,
    media_type: Option<MediaType>,
    matrix: &Mp4forgeSupportMatrix,
) -> (r: Result<()>)
    ensures
        r is Err <==> names_unknown_codec(codec_text@, media_type, matrix.deep_view()),
        r is Err ==> r->Err_0.deep_view() == codec_error(codec_text@),
{
    let ghost m = matrix.deep_view();
    proof {
        reveal_strlit(",");
    }
    let parts: Vec<String> = split_text(codec_text, ",");
    let ghost all = parts.deep_view();
    let mut i: usize = 0;
    while i < parts.len()
        invariant
            i <= parts@.len(),
            m == matrix.deep_view(),
            all == parts.deep_view(),
            all == split(codec_text@, ","@),
            forall|k: int|
                0 <= k < i ==> codec_word(#[trigger] all[k]).len() == 0 || knows_codec(
                    codec_word(all[k]),
                    media_type,
                    m,
                ),
        decreases parts@.len() - i,
    {
        assert(all[i as int] == parts@[i as int]@);
        let word: String = lowered(trimmed(parts[i].as_str()));
        let known: bool = match media_type {
            Some(MediaType::Audio) => has_any_prefix(word.as_str(), &matrix.audio_codecs),
            Some(MediaType::Subtitles) => false,
            Some(MediaType::ClosedCaptions) => false,
            _ => has_any_prefix(word.as_str(), &matrix.video_codecs) || has_any_prefix(
                word.as_str(),
                &matrix.audio_codecs,
            ),
        };
        if word.as_str().unicode_len() > 0 && !known {
            assert(codec_word(all[i as int]).len() > 0);
            assert(names_unknown_codec(codec_text@, media_type, m));
            let message: String = cat2("mp4forge does not support codec family: ", codec_text);
            return Err(Error::mux(message.as_str()));
        }
        i = i + 1;
    }
    Ok(())
}

/// The codecs that a prober found in the first track of a file.
pub open spec fn probed_codecs(f: OutputFileView) -> Option<Seq<char>> {
    if f.media_infos.len() == 0 {
        None
    } else {
        either(f.media_infos[0].base_info, f.media_infos[0].text)
    }
}

/// What speaks against a file in a mux by mp4forge.
pub open spec fn file_objection(f: OutputFileView, m: Mp4forgeSupportMatrixView) -> Option<ErrorView> {
    if f.media_type == Some(MediaType::Subtitles) {
        Some(ErrorView::Mux("mp4forge mux-after-done does not support subtitle inputs"@))
    } else {
        match probed_codecs(f) {
            Some(codec) => if names_unknown_codec(codec, f.media_type, m) {
                Some(codec_error(codec))
            } else {
                None
            },
            None => None,
        }
    }
}

/// What speaks against the files from position `i` on, the first of it.
pub open spec fn first_objection(files: Seq<OutputFileView>, m: Mp4forgeSupportMatrixView, i: int) -> Option<
    ErrorView,
>
    decreases files.len() - i,
{
    if i < 0 || i >= files.len() {
        None
    } else if file_objection(files[i], m) is Some {
        file_objection(files[i], m)
    } else {
        first_objection(files, m, i + 1)
    }
}

/// What speaks against a mux by a muxer.
pub open spec fn mux_objection(
    format: MuxFormat,
    muxer: MuxerKind,
    files: Seq<OutputFileView>,
    m: Mp4forgeSupportMatrixView,
) -> Option<ErrorView> {
    if muxer != MuxerKind::Mp4forge {
        None
    } else if format != MuxFormat::Mp4 {
        Some(ErrorView::Mux("mp4forge mux-after-done supports only mp4 output"@))
    } else {
        first_objection(files, m, 0)
    }
}

fn validate_file(f: &OutputFile, matrix: &Mp4forgeSupportMatrix) -> (r: Result<()>)
    ensures
        match r {
            Ok(_) => file_objection(f.deep_view(), matrix.deep_view()) is None,
            Err(e) => file_objection(f.deep_view(), matrix.deep_view()) == Some(e.deep_view()),
        },
{
    let is_subtitle: bool = match f.media_type {
        Some(t) => t == MediaType::Subtitles,
        None => false,
    };
    if is_subtitle {
        return Err(Error::mux("mp4forge mux-after-done does not support subtitle inputs"));
    }
    if f.media_infos.len() > 0 {
        assert(f.media_infos.deep_view()[0] == f.media_infos@[0].deep_view());
        match (&f.media_infos[0].base_info, &f.media_infos[0].text) {
            (Some(codec), _) => validate_codec_text(codec.as_str(), f.media_type, matrix),
            (None, Some(codec)) => validate_codec_text(codec.as_str(), f.media_type, matrix),
            (None, None) => Ok(()),
        }
    } else {
        Ok(())
    }
}

/// Whether a muxer can mux the files.
pub fn validate_mp4forge_mux_after_done(
    format: MuxFormat,
    muxer: MuxerKind,
    files: &Vec<OutputFile>,
    matrix: &Mp4forgeSupportMatrix,
) -> (r: Result<()>)
    ensures
        match r {
            Ok(_) => mux_objection(format, muxer, files.deep_view(), matrix.deep_view()) is None,
            Err(e) => mux_objection(format, muxer, files.deep_view(), matrix.deep_view()) == Some(
                e.deep_view(),
            ),
        },
{
    if muxer != MuxerKind::Mp4forge {
        return Ok(());
    }
    if format != MuxFormat::Mp4 {
        return Err(Error::mux("mp4forge mux-after-done supports only mp4 output"));
    }
    let ghost all = files.deep_view();
    let ghost m = matrix.deep_view();
    let mut i: usize = 0;
    while i < files.len()
        invariant
            i <= files@.len(),
            all == files.deep_view(),
            m == matrix.deep_view(),
            muxer == MuxerKind::Mp4forge,
            format == MuxFormat::Mp4,
            first_objection(all, m, 0) == first_objection(all, m, i as int),
        decreases files@.len() - i,
    {
        assert(all[i as int] == files@[i as int].deep_view());
        match validate_file(&files[i], matrix) {
            Ok(_) => {},
            Err(e) => {
                return Err(e);
            },
        }
        i = i + 1;
    }
    Ok(())
}

/// An encryption of whole segments, or none.
pub open spec fn is_plain_family(method: EncryptionMethod) -> bool {
    method == EncryptionMethod::Unencrypted || method == EncryptionMethod::Aes128 || method
        == EncryptionMethod::Aes128Ecb
}

/// Whether a part holds a segment whose samples are encrypted.
pub open spec fn part_has_samples_encrypted(part: Seq<MediaSegmentView>) -> bool {
    exists|i: int| 0 <= i < part.len() && !is_plain_family(#[trigger] part[i].encryption.method)
}

/// Whether a stream holds a segment whose samples are encrypted.
pub open spec fn has_samples_encrypted(s: StreamView) -> bool {
    match s.playlist {
        Some(p) => exists|i: int|
            0 <= i < p.media_parts.len() && part_has_samples_encrypted(#[trigger] p.media_parts[i]),
        None => false,
    }
}

fn part_is_encrypted(part: &MediaPart) -> (r: bool)
    ensures
        r == part_has_samples_encrypted(part.deep_view()),
{
    let ghost all = part.deep_view();
    let mut i: usize = 0;
    while i < part.media_segments.len()
        invariant
            i <= part.media_segments@.len(),
            all == part.deep_view(),
            forall|k: int| 0 <= k < i ==> is_plain_family(#[trigger] all[k].encryption.method),
        decreases part.media_segments@.len() - i,
    {
        assert(all[i as int] == part.media_segments@[i as int].deep_view());
        let method: EncryptionMethod = part.media_segments[i].encryption.method;
        if !(method == EncryptionMethod::Unencrypted || method == EncryptionMethod::Aes128 || method
            == EncryptionMethod::Aes128Ecb) {
            assert(!is_plain_family(all[i as int].encryption.method));
            return true;
        }
        i = i + 1;
    }
    false
}

fn stream_is_encrypted(s: &Stream) -> (r: bool)
    ensures
        r == has_samples_encrypted(s.deep_view()),
{
    match &s.playlist {
        None => false,
        Some(p) => {
            let ghost all = p.media_parts.deep_view();
            let mut i: usize = 0;
            while i < p.media_parts.len()
                invariant
                    i <= p.media_parts@.len(),
                    all == p.media_parts.deep_view(),
                    s.deep_view().playlist is Some,
                    (s.deep_view().playlist->0).media_parts == all,
                    forall|k: int| 0 <= k < i ==> !part_has_samples_encrypted(#[trigger] all[k]),
                decreases p.media_parts@.len() - i,
            {
                assert(all[i as int] == p.media_parts@[i as int].deep_view());
                if part_is_encrypted(&p.media_parts[i]) {
                    assert(part_has_samples_encrypted(all[i as int]));
                    return true;
                }
                i = i + 1;
            }
            false
        },
    }
}

/// Whether mp4forge can handle a stream: not with encrypted samples; of unknown codecs a prober
/// must tell.
pub open spec fn stream_support(s: StreamView, m: Mp4forgeSupportMatrixView) -> core::result::Result<
    Mp4forgeSupportView,
    ErrorView,
> {
    if has_samples_encrypted(s) {
        Ok(Mp4forgeSupportView::Unsupported("unsupported encrypted sample family"@))
    } else {
        let unknown = Mp4forgeSupportView::RequiresProbe(
            "codec metadata is not available before media probing"@,
        );
        match s.codecs {
            None => Ok(unknown),
            Some(codecs) => if codecs.len() == 0 {
                Ok(unknown)
            } else if names_unknown_codec(codecs, s.media_type, m) {
                Err(codec_error(codecs))
            } else {
                Ok(Mp4forgeSupportView::Supported)
            },
        }
    }
}

/// Model of a verdict on a stream.
pub open spec fn view_support(r: Result<Mp4forgeSupport>) -> core::result::Result<
    Mp4forgeSupportView,
    ErrorView,
> {
    match r {
        Ok(s) => Ok(s.deep_view()),
        Err(e) => Err(e.deep_view()),
    }
}

fn probe_first() -> (r: Mp4forgeSupport)
    ensures
        r.deep_view() == Mp4forgeSupportView::RequiresProbe(
            "codec metadata is not available before media probing"@,
        ),
{
    Mp4forgeSupport::RequiresProbe {
        reason: owned("codec metadata is not available before media probing"),
    }
}

/// Whether mp4forge can handle a stream.
pub fn mp4forge_support_for_stream(stream: &Stream, matrix: &Mp4forgeSupportMatrix) -> (r: Result<
    Mp4forgeSupport,
>)
    ensures
        view_support(r) == stream_support(stream.deep_view(), matrix.deep_view()),
{
    if stream_is_encrypted(stream) {
        return Ok(
            Mp4forgeSupport::Unsupported { reason: owned("unsupported encrypted sample family") },
        );
    }
    match &stream.codecs {
        None => Ok(probe_first()),
        Some(codecs) => {
            if codecs.as_str().unicode_len() == 0 {
                return Ok(probe_first());
            }
            match validate_codec_text(codecs.as_str(), stream.media_type, matrix) {
                Ok(_) => Ok(Mp4forgeSupport::Supported),
                Err(e) => Err(e),
            }
        },
    }
}

/// Whether mp4forge can make a merged file.
pub open spec fn merge_support(
    output_path: Seq<char>,
    s: StreamView,
    binary_concat_only: bool,
    live_pipe_mux: bool,
    m: Mp4forgeSupportMatrixView,
) -> core::result::Result<Mp4forgeSupportView, ErrorView> {
    if binary_concat_only {
        Err(ErrorView::Mux("mp4forge merge cannot be used for binary-concat-only paths"@))
    } else if live_pipe_mux {
        Err(ErrorView::Mux("mp4forge merge cannot be used for live pipe mux paths"@))
    } else if s.media_type == Some(MediaType::Subtitles) {
        Err(ErrorView::Mux("mp4forge merge does not support subtitle outputs"@))
    } else {
        match path_extension(output_path) {
            Some(e) => if lower(e) == "mp4"@ || lower(e) == "m4a"@ {
                stream_support(s, m)
            } else {
                Err(ErrorView::Mux("mp4forge merge supports only mp4 and m4a outputs"@))
            },
            None => Err(ErrorView::Mux("mp4forge merge supports only mp4 and m4a outputs"@)),
        }
    }
}

/// Whether mp4forge can make a merged file.
pub fn validate_mp4forge_merge_request(
    output_path: &str,
    stream: &Stream,
    binary_concat_only: bool,
    live_pipe_mux: bool,
    matrix: &Mp4forgeSupportMatrix,
) -> (r: Result<Mp4forgeSupport>)
    ensures
        view_support(r) == merge_support(
            output_path@,
            stream.deep_view(),
            binary_concat_only,
            live_pipe_mux,
            matrix.deep_view(),
        ),
{
    if binary_concat_only {
        return Err(Error::mux("mp4forge merge cannot be used for binary-concat-only paths"));
    }
    if live_pipe_mux {
        return Err(Error::mux("mp4forge merge cannot be used for live pipe mux paths"));
    }
    let is_subtitle: bool = match stream.media_type {
        Some(t) => t == MediaType::Subtitles,
        None => false,
    };
    if is_subtitle {
        return Err(Error::mux("mp4forge merge does not support subtitle outputs"));
    }
    match extension(output_path) {
        Some(e) => {
            let word: String = lowered(e);
            if same(word.as_str(), "mp4") || same(word.as_str(), "m4a") {
                return mp4forge_support_for_stream(stream, matrix);
            }
        },
        None => {},
    }
    Err(Error::mux("mp4forge merge supports only mp4 and m4a outputs"))
}

/// How files are joined into one.
#[derive(Debug, PartialEq, Eq)]
pub enum CombinePlan {
    /// There is nothing to join.
    Nothing,
    /// The one file is copied.
    CopyOne(String),
    /// The files are appended one after the other.
    Append(Vec<String>),
}

/// Model of `CombinePlan`.
pub enum CombinePlanView {
    Nothing,
    CopyOne(Seq<char>),
    Append(Seq<Seq<char>>),
}

impl DeepView for CombinePlan {
    type V = CombinePlanView;

    open spec fn deep_view(&self) -> CombinePlanView {
        match self {
            CombinePlan::Nothing => CombinePlanView::Nothing,
            CombinePlan::CopyOne(f) => CombinePlanView::CopyOne(f@),
            CombinePlan::Append(v) => CombinePlanView::Append(v.deep_view()),
        }
    }
}

/// The paths that are not empty.
pub open spec fn solid_paths(files: Seq<Seq<char>>) -> Seq<Seq<char>>
    decreases files.len(),
{
    if files.len() == 0 {
        files
    } else if files.last().len() == 0 {
        solid_paths(files.drop_last())
    } else {
        solid_paths(files.drop_last()).push(files.last())
    }
}

/// How files are joined into one.
pub open spec fn combine_plan(files: Seq<Seq<char>>) -> CombinePlanView {
    if files.len() == 0 {
        CombinePlanView::Nothing
    } else if files.len() == 1 {
        CombinePlanView::CopyOne(files[0])
    } else {
        CombinePlanView::Append(solid_paths(files))
    }
}

/// How files are joined into one. What is read from them and written is not decided here.
pub fn combine_files(files: &Vec<String>) -> (r: CombinePlan)
    ensures
        r.deep_view() == combine_plan(files.deep_view()),
{
    let ghost all = files.deep_view();
    if files.len() == 0 {
        return CombinePlan::Nothing;
    }
    if files.len() == 1 {
        assert(all[0] == files@[0]@);
        return CombinePlan::CopyOne(files[0].clone());
    }
    let mut out: Vec<String> = Vec::new();
    let mut i: usize = 0;
    assert(all.subrange(0, 0) =~= Seq::<Seq<char>>::empty());
    assert(out.deep_view() =~= Seq::<Seq<char>>::empty());
    while i < files.len()
        invariant
            i <= files@.len(),
            all == files.deep_view(),
            out.deep_view() == solid_paths(all.subrange(0, i as int)),
        decreases files@.len() - i,
    {
        assert(all.subrange(0, i + 1).drop_last() =~= all.subrange(0, i as int));
        assert(all.subrange(0, i + 1).last() == files@[i as int]@);
        if files[i].as_str().unicode_len() > 0 {
            let path: String = files[i].clone();
            let ghost before = out.deep_view();
            let ghost item = path@;
            out.push(path);
            assert(out.deep_view() =~= before.push(item));
        }
        i = i + 1;
    }
    assert(all.subrange(0, all.len() as int) =~= all);
    CombinePlan::Append(out)
}

/// A run of files that is joined into one.
#[derive(Debug, PartialEq, Eq)]
pub struct CombineGroup {
    pub output: String,
    /// The position of the first file.
    pub start: usize,
    /// The position behind the last file.
    pub end: usize,
}

/// Model of `CombineGroup`.
pub struct CombineGroupView {
    pub output: Seq<char>,
    pub start: int,
    pub end: int,
}

impl DeepView for CombineGroup {
    type V = CombineGroupView;

    open spec fn deep_view(&self) -> CombineGroupView {
        CombineGroupView {
            output: self.output@,
            start: self.start as int,
            end: self.end as int,
        }
    }
}

/// How many files make a group.
pub open spec fn group_size(files: int) -> int {
    if files <= 90_000 {
        100
    } else {
        200
    }
}

/// The groups of `size` files from group `k` on, which begins with file `start`.
pub open spec fn groups_from(directory: Seq<char>, files: int, size: int, k: nat, start: int) -> Seq<
    CombineGroupView,
>
    decreases files - start,
{
    if size <= 0 || start >= files {
        Seq::empty()
    } else {
        let end = if start + size < files {
            start + size
        } else {
            files
        };
        seq![
            CombineGroupView {
                output: path_join(directory, "T"@ + zero_padded(k, 4) + ".ts"@),
                start,
                end,
            },
        ] + groups_from(directory, files, size, k + 1, end)
    }
}

/// The groups into which many files are joined first.
pub open spec fn combine_groups(files: Seq<Seq<char>>) -> core::result::Result<
    Seq<CombineGroupView>,
    ErrorView,
> {
    if files.len() == 0 {
        Ok(Seq::empty())
    } else {
        match path_parent(files[0]) {
            None => Err(ErrorView::Mux("input file has no parent directory"@)),
            Some(directory) => Ok(
                groups_from(directory, files.len() as int, group_size(files.len() as int), 0, 0),
            ),
        }
    }
}

/// The groups follow each other without a gap, from the first file to the last, and none is empty.
pub proof fn law_groups_cover(directory: Seq<char>, files: int, size: int, k: nat, start: int)
    requires
        size > 0,
    ensures
        ({
            let g = groups_from(directory, files, size, k, start);
            &&& (start < files ==> g.len() > 0 && g[0].start == start && g.last().end == files)
            &&& forall|i: int|
                0 <= i < g.len() ==> (#[trigger] g[i]).start < g[i].end && g[i].end - g[i].start
                    <= size
            &&& forall|i: int| 0 <= i < g.len() - 1 ==> (#[trigger] g[i]).end == g[i + 1].start
        }),
    decreases files - start,
{
    let g = groups_from(directory, files, size, k, start);
    if start < files {
        let end = if start + size < files {
            start + size
        } else {
            files
        };
        let tail = groups_from(directory, files, size, k + 1, end);
        law_groups_cover(directory, files, size, k + 1, end);
        assert(g =~= seq![g[0]] + tail);
        if tail.len() > 0 {
            assert(g.last() == tail.last());
        }
        assert forall|i: int| 0 <= i < g.len() implies (#[trigger] g[i]).start < g[i].end
            && g[i].end - g[i].start <= size by {
            if i > 0 {
                assert(g[i] == tail[i - 1]);
            }
        }
        assert forall|i: int| 0 <= i < g.len() - 1 implies (#[trigger] g[i]).end == g[i
            + 1].start by {
            assert(g[i + 1] == tail[i]);
            if i > 0 {
                assert(g[i] == tail[i - 1]);
                assert(tail[i - 1].end == tail[i - 1 + 1].start);
            }
        }
    }
}

/// The groups into which many files are joined first.
pub fn partial_combine_files(files: &Vec<String>) -> (r: Result<Vec<CombineGroup>>)
    ensures
        match r {
            Ok(v) => combine_groups(files.deep_view()) == Ok::<Seq<CombineGroupView>, ErrorView>(
                v.deep_view(),
            ),
            Err(e) => combine_groups(files.deep_view()) == Err::<Seq<CombineGroupView>, ErrorView>(
                e.deep_view(),
            ),
        },
{
    let mut out: Vec<CombineGroup> = Vec::new();
    assert(out.deep_view() =~= Seq::<CombineGroupView>::empty());
    if files.len() == 0 {
        return Ok(out);
    }
    assert(files.deep_view()[0] == files@[0]@);
    let directory: String = match parent(files[0].as_str()) {
        None => {
            return Err(Error::mux("input file has no parent directory"));
        },
        Some(d) => d,
    };
    let count: usize = files.len();
    let size: usize = if count <= 90_000 {
        100
    } else {
        200
    };
    let ghost whole = groups_from(directory@, count as int, size as int, 0, 0);
    let mut start: usize = 0;
    let mut k: u64 = 0;
    assert(out.deep_view() + whole =~= whole);
    while start < count
        invariant
            size == 100 || size == 200,
            count == files@.len(),
            start <= count,
            k <= start,
            whole == groups_from(directory@, count as int, size as int, 0, 0),
            out.deep_view() + groups_from(
                directory@,
                count as int,
                size as int,
                k as nat,
                start as int,
            ) == whole,
        decreases count - start,
    {
        let end: usize = if count - start > size {
            start + size
        } else {
            count
        };
        let number: String = padded(k, 4);
        let name: String = cat3("T", number.as_str(), ".ts");
        let group: CombineGroup = CombineGroup {
            output: join_path(directory.as_str(), name.as_str()),
            start,
            end,
        };
        let ghost before = out.deep_view();
        let ghost item = group.deep_view();
        let ghost tail = groups_from(
            directory@,
            count as int,
            size as int,
            (k + 1) as nat,
            end as int,
        );
        assert(groups_from(directory@, count as int, size as int, k as nat, start as int) == seq![
            item,
        ] + tail);
        out.push(group);
        assert(out.deep_view() =~= before.push(item));
        assert(out.deep_view() + tail =~= before + (seq![item] + tail));
        start = end;
        k = k + 1;
    }
    assert(out.deep_view() =~= whole);
    Ok(out)
}

} // verus!
