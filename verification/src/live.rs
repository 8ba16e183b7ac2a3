//! Live presentations: which segments are new, and how long to wait for more.

use crate::config::{DownloadOptions, Toggle};
use crate::datetime::{parse_manifest_timestamp_at, timestamp_of, TimeSpan};
use crate::event::{ProgressEvent, ProgressEventView};
use crate::manifest::{
    wrap_i64, MediaPart, MediaSegment, MediaSegmentView, MediaType, Playlist, PlaylistView, Stream,
    StreamView,
};
use crate::mux::{quote, quoted, MuxCommandPlan, MuxCommandPlanView};
use crate::path::{join_path, path_join};
use crate::text::{
    begins_with, cat2, dec_int, i64_text, law_decimal_round_trip, owned, same, starts_with,
    trim_start, trimmed_start,
};
use vstd::prelude::*;

verus! {

/// How segments are recognized.
#[derive(Clone, Copy, Debug, PartialEq, Eq, Structural)]
pub enum LiveIdentityMode {
    ProgramDateTime,
    SegmentName,
}

/// What is known of a live stream so far.
#[derive(Debug, PartialEq, Eq)]
pub struct LiveStreamState {
    pub last_file_name: String,
    pub last_date_time_unix: i64,
    pub max_index: i64,
    pub recorded_duration_secs: u64,
    pub refreshed_duration_secs: u64,
    pub recorded_segments: u64,
    pub refreshed_segments: u64,
    pub record_limit_reached: bool,
    pub all_same_path: Option<bool>,
}

/// Model of `LiveStreamState`.
pub struct LiveStreamStateView {
    pub last_file_name: Seq<char>,
    pub last_date_time_unix: i64,
    pub max_index: i64,
    pub recorded_duration_secs: u64,
    pub refreshed_duration_secs: u64,
    pub recorded_segments: u64,
    pub refreshed_segments: u64,
    pub record_limit_reached: bool,
    pub all_same_path: Option<bool>,
}

impl DeepView for LiveStreamState {
    type V = LiveStreamStateView;

    open spec fn deep_view(&self) -> LiveStreamStateView {
        LiveStreamStateView {
            last_file_name: self.last_file_name@,
            last_date_time_unix: self.last_date_time_unix,
            max_index: self.max_index,
            recorded_duration_secs: self.recorded_duration_secs,
            refreshed_duration_secs: self.refreshed_duration_secs,
            recorded_segments: self.recorded_segments,
            refreshed_segments: self.refreshed_segments,
            record_limit_reached: self.record_limit_reached,
            all_same_path: self.all_same_path,
        }
    }
}

/// Nothing known.
pub open spec fn fresh_state() -> LiveStreamStateView {
    LiveStreamStateView {
        last_file_name: Seq::empty(),
        last_date_time_unix: 0,
        max_index: 0,
        recorded_duration_secs: 0,
        refreshed_duration_secs: 0,
        recorded_segments: 0,
        refreshed_segments: 0,
        record_limit_reached: false,
        all_same_path: None,
    }
}

impl Default for LiveStreamState {
    fn default() -> (r: Self)
        ensures
            r.deep_view() == fresh_state(),
    {
        LiveStreamState {
            last_file_name: String::new(),
            last_date_time_unix: 0,
            max_index: 0,
            recorded_duration_secs: 0,
            refreshed_duration_secs: 0,
            recorded_segments: 0,
            refreshed_segments: 0,
            record_limit_reached: false,
            all_same_path: None,
        }
    }
}

/// What a refresh brought.
#[derive(Debug, PartialEq, Eq)]
pub struct LiveRefreshResult {
    pub new_segments: Vec<MediaSegment>,
    pub identity_mode: LiveIdentityMode,
    pub events: Vec<ProgressEvent>,
}

/// Model of `LiveRefreshResult`.
pub struct LiveRefreshResultView {
    pub new_segments: Seq<MediaSegmentView>,
    pub identity_mode: LiveIdentityMode,
    pub events: Seq<ProgressEventView>,
}

impl DeepView for LiveRefreshResult {
    type V = LiveRefreshResultView;

    open spec fn deep_view(&self) -> LiveRefreshResultView {
        LiveRefreshResultView {
            new_segments: self.new_segments.deep_view(),
            identity_mode: self.identity_mode,
            events: self.events.deep_view(),
        }
    }
}

/// A transport stream that is recorded from one request.
#[derive(Clone, Copy, Debug, PartialEq, Eq, Structural)]
pub struct HttpLiveTsState {
    pub recording_duration_secs: u64,
    pub recording_size_bytes: u64,
    pub stop_requested: bool,
}

impl Default for HttpLiveTsState {
    fn default() -> (r: Self)
        ensures
            r == (HttpLiveTsState {
                recording_duration_secs: 0,
                recording_size_bytes: 0,
                stop_requested: false,
            }),
    {
        HttpLiveTsState {
            recording_duration_secs: 0,
            recording_size_bytes: 0,
            stop_requested: false,
        }
    }
}

/// What a live recording changes about the options.
#[derive(Clone, Copy, Debug, PartialEq, Eq, Structural)]
pub struct LiveOptionEffects {
    pub concurrent_download: bool,
    pub mp4_real_time_decryption: bool,
    pub live_fix_vtt_by_audio: bool,
}

/// The names under which the file at a URL would be saved.
#[derive(Debug, PartialEq, Eq)]
pub struct SegmentNames {
    /// The name that the whole URL gives.
    pub from_url: String,
    /// The name that the part behind the last question mark gives.
    pub from_query: String,
}

/// Model of `SegmentNames`.
pub struct SegmentNamesView {
    pub from_url: Seq<char>,
    pub from_query: Seq<char>,
}

impl DeepView for SegmentNames {
    type V = SegmentNamesView;

    open spec fn deep_view(&self) -> SegmentNamesView {
        SegmentNamesView { from_url: self.from_url@, from_query: self.from_query@ }
    }
}

/// `a + b`, at most the largest number of 64 bits.
pub open spec fn capped_sum(a: u64, b: u64) -> u64 {
    if a + b > u64::MAX {
        u64::MAX
    } else {
        (a + b) as u64
    }
}

fn add_capped(a: u64, b: u64) -> (r: u64)
    ensures
        r == capped_sum(a, b),
{
    if a > u64::MAX - b {
        u64::MAX
    } else {
        a + b
    }
}

/// The Unix second of a timestamp, where it is one.
pub open spec fn second_of(time: Option<Seq<char>>, local: int) -> Option<int> {
    match time {
        Some(text) => match timestamp_of(text, local) {
            Some(t) => Some(t.0),
            None => None,
        },
        None => None,
    }
}

fn parse_second(time: &Option<String>, local: i32) -> (r: Option<i64>)
    requires
        -100_000 <= local <= 100_000,
    ensures
        match r {
            Some(n) => second_of(time.deep_view(), local as int) == Some(n as int),
            None => second_of(time.deep_view(), local as int) is None,
        },
{
    match time {
        Some(text) => match parse_manifest_timestamp_at(text.as_str(), local) {
            Some(t) => Some(t.unix_seconds),
            None => None,
        },
        None => None,
    }
}

/// The name by which a segment is recognized.
pub open spec fn segment_identity(
    s: MediaSegmentView,
    names: SegmentNamesView,
    is_hls: bool,
    dated: bool,
    same_path: bool,
    local: int,
) -> Seq<char> {
    let name = if same_path {
        names.from_query
    } else {
        names.from_url
    };
    if s.name_from_var is Some && (s.name_from_var->0).len() > 0 {
        s.name_from_var->0
    } else if is_hls && dated {
        match second_of(s.program_date_time, local) {
            Some(n) => dec_int(n),
            None => name,
        }
    } else if is_hls {
        dec_int(s.index as int)
    } else {
        name
    }
}

/// The name by which a segment is recognized. Timestamps without an offset are `local` seconds
/// ahead of UTC.
pub fn live_segment_name(
    segment: &MediaSegment,
    names: &SegmentNames,
    extractor_is_hls: bool,
    all_has_datetime: bool,
    all_same_path: bool,
    local: i32,
) -> (r: String)
    requires
        -100_000 <= local <= 100_000,
    ensures
        r@ == segment_identity(
            segment.deep_view(),
            names.deep_view(),
            extractor_is_hls,
            all_has_datetime,
            all_same_path,
            local as int,
        ),
{
    match &segment.name_from_var {
        Some(name) => {
            if name.as_str().unicode_len() > 0 {
                return name.clone();
            }
        },
        None => {},
    }
    if extractor_is_hls && !all_has_datetime {
        return i64_text(segment.index);
    }
    if extractor_is_hls {
        match parse_second(&segment.program_date_time, local) {
            Some(n) => {
                return i64_text(n);
            },
            None => {},
        }
    }
    if all_same_path {
        names.from_query.clone()
    } else {
        names.from_url.clone()
    }
}

/// The first part of a stream.
pub open spec fn first_part(s: StreamView) -> Option<Seq<MediaSegmentView>> {
    match s.playlist {
        Some(p) => if p.media_parts.len() > 0 {
            Some(p.media_parts[0])
        } else {
            None
        },
        None => None,
    }
}

/// Every segment has a timestamp.
pub open spec fn all_dated(part: Seq<MediaSegmentView>) -> bool {
    forall|i: int| 0 <= i < part.len() ==> (#[trigger] part[i]).program_date_time is Some
}

fn has_all_dates(segments: &Vec<MediaSegment>) -> (r: bool)
    ensures
        r == all_dated(segments.deep_view()),
{
    let ghost all = segments.deep_view();
    let mut i: usize = 0;
    while i < segments.len()
        invariant
            i <= segments@.len(),
            all == segments.deep_view(),
            forall|k: int| 0 <= k < i ==> (#[trigger] all[k]).program_date_time is Some,
        decreases segments@.len() - i,
    {
        assert(all[i as int] == segments@[i as int].deep_view());
        if segments[i].program_date_time.is_none() {
            assert(all[i as int].program_date_time is None);
            return false;
        }
        i = i + 1;
    }
    true
}

/// The smaller of two numbers of which the first may be missing.
pub open spec fn least(a: Option<int>, b: int) -> Option<int> {
    match a {
        Some(x) => if x <= b {
            Some(x)
        } else {
            Some(b)
        },
        None => Some(b),
    }
}

/// The larger of two numbers of which the first may be missing.
pub open spec fn greatest(a: Option<int>, b: int) -> Option<int> {
    match a {
        Some(x) => if x >= b {
            Some(x)
        } else {
            Some(b)
        },
        None => Some(b),
    }
}

/// Where a segment stands: at the second of its timestamp, or at its number.
pub open spec fn place_of(s: MediaSegmentView, dated: bool, local: int) -> Option<int> {
    if dated {
        second_of(s.program_date_time, local)
    } else {
        Some(s.index as int)
    }
}

fn find_place(s: &MediaSegment, dated: bool, local: i32) -> (r: Option<i64>)
    requires
        -100_000 <= local <= 100_000,
    ensures
        match r {
            Some(n) => place_of(s.deep_view(), dated, local as int) == Some(n as int),
            None => place_of(s.deep_view(), dated, local as int) is None,
        },
{
    if dated {
        parse_second(&s.program_date_time, local)
    } else {
        Some(s.index)
    }
}

/// The first place among the first `n` segments.
pub open spec fn first_place(part: Seq<MediaSegmentView>, n: int, dated: bool, local: int) -> Option<int>
    decreases n,
{
    if n <= 0 {
        None
    } else {
        match place_of(part[n - 1], dated, local) {
            Some(p) => least(first_place(part, n - 1, dated, local), p),
            None => first_place(part, n - 1, dated, local),
        }
    }
}

fn find_first_place(segments: &Vec<MediaSegment>, dated: bool, local: i32) -> (r: Option<i64>)
    requires
        -100_000 <= local <= 100_000,
    ensures
        match r {
            Some(n) => first_place(
                segments.deep_view(),
                segments@.len() as int,
                dated,
                local as int,
            ) == Some(n as int),
            None => first_place(
                segments.deep_view(),
                segments@.len() as int,
                dated,
                local as int,
            ) is None,
        },
{
    let ghost all = segments.deep_view();
    let mut best: Option<i64> = None;
    let mut i: usize = 0;
    while i < segments.len()
        invariant
            i <= segments@.len(),
            -100_000 <= local <= 100_000,
            all == segments.deep_view(),
            match best {
                Some(n) => first_place(all, i as int, dated, local as int) == Some(n as int),
                None => first_place(all, i as int, dated, local as int) is None,
            },
        decreases segments@.len() - i,
    {
        assert(all[i as int] == segments@[i as int].deep_view());
        match find_place(&segments[i], dated, local) {
            None => {},
            Some(p) => {
                best = match best {
                    Some(x) => if x <= p {
                        Some(x)
                    } else {
                        Some(p)
                    },
                    None => Some(p),
                };
            },
        }
        i = i + 1;
    }
    best
}

/// A stream whose first part holds segments.
pub open spec fn is_active(s: StreamView) -> bool {
    match first_part(s) {
        Some(part) => part.len() > 0,
        None => false,
    }
}

/// Every active stream has a timestamp at every segment of its first part.
pub open spec fn streams_dated(streams: Seq<StreamView>) -> bool {
    forall|i: int|
        0 <= i < streams.len() && is_active(#[trigger] streams[i]) ==> all_dated(
            first_part(streams[i])->0,
        )
}

/// The place at which the last of the first `n` active streams begins.
pub open spec fn common_start(streams: Seq<StreamView>, n: int, dated: bool, local: int) -> Option<int>
    decreases n,
{
    if n <= 0 {
        None
    } else {
        let before = common_start(streams, n - 1, dated, local);
        if is_active(streams[n - 1]) {
            let part = first_part(streams[n - 1])->0;
            match first_place(part, part.len() as int, dated, local) {
                Some(p) => greatest(before, p),
                None => before,
            }
        } else {
            before
        }
    }
}

/// The segments that do not stand before a place.
pub open spec fn from_place(part: Seq<MediaSegmentView>, start: int, dated: bool, local: int) -> Seq<
    MediaSegmentView,
>
    decreases part.len(),
{
    if part.len() == 0 {
        part
    } else {
        let head = from_place(part.drop_last(), start, dated, local);
        match place_of(part.last(), dated, local) {
            Some(p) => if p >= start {
                head.push(part.last())
            } else {
                head
            },
            None => head,
        }
    }
}

/// A stream with other parts.
pub open spec fn with_parts(s: StreamView, parts: Seq<Seq<MediaSegmentView>>) -> StreamView {
    match s.playlist {
        Some(p) => StreamView {
            playlist: Some(PlaylistView { media_parts: parts, ..p }),
            ..s
        },
        None => s,
    }
}

/// The parts of a stream.
pub open spec fn parts_of(s: StreamView) -> Seq<Seq<MediaSegmentView>> {
    match s.playlist {
        Some(p) => p.media_parts,
        None => Seq::empty(),
    }
}

/// The streams from a common place on; those that are not active stay as they are.
pub open spec fn aligned(streams: Seq<StreamView>, local: int) -> Seq<StreamView> {
    let dated = streams_dated(streams);
    match common_start(streams, streams.len() as int, dated, local) {
        None => streams,
        Some(start) => streams.map_values(
            |s: StreamView|
                if is_active(s) {
                    with_parts(
                        s,
                        parts_of(s).map_values(
                            |p: Seq<MediaSegmentView>| from_place(p, start, dated, local),
                        ),
                    )
                } else {
                    s
                },
        ),
    }
}

/// The segments in the first part of a stream.
pub open spec fn first_count(s: StreamView) -> int {
    match first_part(s) {
        Some(part) => part.len() as int,
        None => 0,
    }
}

/// The fewest segments that one of the first `n` streams which were active has in its first part.
pub open spec fn fewest(before: Seq<StreamView>, after: Seq<StreamView>, n: int) -> Option<int>
    decreases n,
{
    if n <= 0 {
        None
    } else if is_active(before[n - 1]) {
        least(fewest(before, after, n - 1), first_count(after[n - 1]))
    } else {
        fewest(before, after, n - 1)
    }
}

/// Whether one of the streams that were active has more segments than are wanted.
pub open spec fn some_exceed(before: Seq<StreamView>, after: Seq<StreamView>, wanted: int) -> bool {
    exists|i: int|
        0 <= i < before.len() && is_active(#[trigger] before[i]) && first_count(after[i]) > wanted
}

/// The segments behind the first `n`.
pub open spec fn behind(part: Seq<MediaSegmentView>, n: int) -> Seq<MediaSegmentView> {
    if n < part.len() {
        part.skip(n)
    } else {
        Seq::empty()
    }
}

/// How many segments are left out at the front.
pub open spec fn left_out(fewest: int, wanted: int) -> int {
    if fewest - wanted + 1 > 0 {
        fewest - wanted + 1
    } else {
        0
    }
}

/// The streams with which a live recording starts: from a common place on, and no more of them than
/// are wanted.
pub open spec fn startup_windows(streams: Seq<StreamView>, wanted: int, local: int) -> Seq<StreamView> {
    let level = aligned(streams, local);
    if some_exceed(streams, level, wanted) {
        let n = left_out(fewest(streams, level, streams.len() as int)->0, wanted);
        Seq::new(
            streams.len(),
            |i: int|
                if is_active(streams[i]) {
                    with_parts(
                        level[i],
                        parts_of(level[i]).map_values(|p: Seq<MediaSegmentView>| behind(p, n)),
                    )
                } else {
                    level[i]
                },
        )
    } else {
        level
    }
}

fn active_segments(s: &Stream) -> (r: Option<&Vec<MediaSegment>>)
    ensures
        match r {
            Some(v) => is_active(s.deep_view()) && first_part(s.deep_view()) == Some(v.deep_view()),
            None => !is_active(s.deep_view()),
        },
{
    match &s.playlist {
        None => None,
        Some(p) => {
            if p.media_parts.len() == 0 {
                return None;
            }
            assert(p.media_parts.deep_view()[0] == p.media_parts@[0].deep_view());
            if p.media_parts[0].media_segments.len() == 0 {
                return None;
            }
            Some(&p.media_parts[0].media_segments)
        },
    }
}

fn is_active_stream(s: &Stream) -> (r: bool)
    ensures
        r == is_active(s.deep_view()),
{
    active_segments(s).is_some()
}

fn all_streams_dated(streams: &Vec<Stream>) -> (r: bool)
    ensures
        r == streams_dated(streams.deep_view()),
{
    let ghost all = streams.deep_view();
    let mut i: usize = 0;
    while i < streams.len()
        invariant
            i <= streams@.len(),
            all == streams.deep_view(),
            forall|k: int|
                0 <= k < i && is_active(#[trigger] all[k]) ==> all_dated(first_part(all[k])->0),
        decreases streams@.len() - i,
    {
        assert(all[i as int] == streams@[i as int].deep_view());
        match active_segments(&streams[i]) {
            None => {},
            Some(segments) => {
                if !has_all_dates(segments) {
                    assert(is_active(all[i as int]) && !all_dated(first_part(all[i as int])->0));
                    return false;
                }
            },
        }
        i = i + 1;
    }
    true
}

fn find_common_start(streams: &Vec<Stream>, dated: bool, local: i32) -> (r: Option<i64>)
    requires
        -100_000 <= local <= 100_000,
    ensures
        match r {
            Some(n) => common_start(
                streams.deep_view(),
                streams@.len() as int,
                dated,
                local as int,
            ) == Some(n as int),
            None => common_start(
                streams.deep_view(),
                streams@.len() as int,
                dated,
                local as int,
            ) is None,
        },
{
    let ghost all = streams.deep_view();
    let mut best: Option<i64> = None;
    let mut i: usize = 0;
    while i < streams.len()
        invariant
            i <= streams@.len(),
            -100_000 <= local <= 100_000,
            all == streams.deep_view(),
            match best {
                Some(n) => common_start(all, i as int, dated, local as int) == Some(n as int),
                None => common_start(all, i as int, dated, local as int) is None,
            },
        decreases streams@.len() - i,
    {
        assert(all[i as int] == streams@[i as int].deep_view());
        match active_segments(&streams[i]) {
            None => {},
            Some(segments) => match find_first_place(segments, dated, local) {
                None => {},
                Some(p) => {
                    best = match best {
                        Some(x) => if x >= p {
                            Some(x)
                        } else {
                            Some(p)
                        },
                        None => Some(p),
                    };
                },
            },
        }
        i = i + 1;
    }
    best
}

fn cut_from_place(part: &MediaPart, start: i64, dated: bool, local: i32) -> (r: MediaPart)
    requires
        -100_000 <= local <= 100_000,
    ensures
        r.deep_view() == from_place(part.deep_view(), start as int, dated, local as int),
{
    let ghost all = part.deep_view();
    let mut out: Vec<MediaSegment> = Vec::new();
    let mut i: usize = 0;
    assert(all.subrange(0, 0) =~= Seq::<MediaSegmentView>::empty());
    assert(out.deep_view() =~= Seq::<MediaSegmentView>::empty());
    while i < part.media_segments.len()
        invariant
            i <= part.media_segments@.len(),
            -100_000 <= local <= 100_000,
            all == part.deep_view(),
            out.deep_view() == from_place(
                all.subrange(0, i as int),
                start as int,
                dated,
                local as int,
            ),
        decreases part.media_segments@.len() - i,
    {
        let ghost head = all.subrange(0, i + 1);
        assert(head.drop_last() =~= all.subrange(0, i as int));
        assert(head.last() == part.media_segments@[i as int].deep_view());
        let keep: bool = match find_place(&part.media_segments[i], dated, local) {
            Some(p) => p >= start,
            None => false,
        };
        if keep {
            let segment: MediaSegment = part.media_segments[i].clone();
            let ghost before = out.deep_view();
            let ghost item = segment.deep_view();
            out.push(segment);
            assert(out.deep_view() =~= before.push(item));
        }
        i = i + 1;
    }
    assert(all.subrange(0, all.len() as int) =~= all);
    MediaPart { media_segments: out }
}

fn cut_behind(part: &MediaPart, n: u128) -> (r: MediaPart)
    ensures
        r.deep_view() == behind(part.deep_view(), n as int),
{
    let ghost all = part.deep_view();
    let mut out: Vec<MediaSegment> = Vec::new();
    let count: usize = part.media_segments.len();
    assert(out.deep_view() =~= Seq::<MediaSegmentView>::empty());
    if n < count as u128 {
        let start: usize = n as usize;
        let mut i: usize = start;
        while i < count
            invariant
                start <= i <= count,
                count == part.media_segments@.len(),
                all == part.deep_view(),
                out.deep_view() =~= all.subrange(start as int, i as int),
            decreases count - i,
        {
            let segment: MediaSegment = part.media_segments[i].clone();
            let ghost before = out.deep_view();
            let ghost item = segment.deep_view();
            assert(all[i as int] == item);
            out.push(segment);
            assert(out.deep_view() =~= before.push(item));
            i = i + 1;
        }
        assert(out.deep_view() =~= all.skip(n as int));
    }
    MediaPart { media_segments: out }
}

fn replace_parts(stream: &Stream, parts: Vec<MediaPart>) -> (r: Stream)
    ensures
        r.deep_view() == with_parts(stream.deep_view(), parts.deep_view()),
{
    let mut s: Stream = stream.clone();
    let mut taken: Option<Playlist> = None;
    core::mem::swap(&mut s.playlist, &mut taken);
    match taken {
        None => {},
        Some(p) => {
            let mut p: Playlist = p;
            p.media_parts = parts;
            s.playlist = Some(p);
        },
    }
    s
}

fn align_stream(s: &Stream, start: i64, dated: bool, local: i32) -> (r: Stream)
    requires
        -100_000 <= local <= 100_000,
    ensures
        r.deep_view() == with_parts(
            s.deep_view(),
            parts_of(s.deep_view()).map_values(
                |p: Seq<MediaSegmentView>| from_place(p, start as int, dated, local as int),
            ),
        ),
{
    let ghost parts = parts_of(s.deep_view());
    let mut out: Vec<MediaPart> = Vec::new();
    match &s.playlist {
        None => {},
        Some(p) => {
            let mut i: usize = 0;
            while i < p.media_parts.len()
                invariant
                    i <= p.media_parts@.len(),
                    -100_000 <= local <= 100_000,
                    parts == p.media_parts.deep_view(),
                    out@.len() == i,
                    forall|k: int|
                        0 <= k < i ==> (#[trigger] out@[k]).deep_view() == from_place(
                            parts[k],
                            start as int,
                            dated,
                            local as int,
                        ),
                decreases p.media_parts@.len() - i,
            {
                assert(parts[i as int] == p.media_parts@[i as int].deep_view());
                out.push(cut_from_place(&p.media_parts[i], start, dated, local));
                i = i + 1;
            }
        },
    }
    assert(out.deep_view() =~= parts.map_values(
        |p: Seq<MediaSegmentView>| from_place(p, start as int, dated, local as int),
    ));
    replace_parts(s, out)
}

fn shorten_stream(s: &Stream, n: u128) -> (r: Stream)
    ensures
        r.deep_view() == with_parts(
            s.deep_view(),
            parts_of(s.deep_view()).map_values(|p: Seq<MediaSegmentView>| behind(p, n as int)),
        ),
{
    let ghost parts = parts_of(s.deep_view());
    let mut out: Vec<MediaPart> = Vec::new();
    match &s.playlist {
        None => {},
        Some(p) => {
            let mut i: usize = 0;
            while i < p.media_parts.len()
                invariant
                    i <= p.media_parts@.len(),
                    parts == p.media_parts.deep_view(),
                    out@.len() == i,
                    forall|k: int|
                        0 <= k < i ==> (#[trigger] out@[k]).deep_view() == behind(
                            parts[k],
                            n as int,
                        ),
                decreases p.media_parts@.len() - i,
            {
                assert(parts[i as int] == p.media_parts@[i as int].deep_view());
                out.push(cut_behind(&p.media_parts[i], n));
                i = i + 1;
            }
        },
    }
    assert(out.deep_view() =~= parts.map_values(
        |p: Seq<MediaSegmentView>| behind(p, n as int),
    ));
    replace_parts(s, out)
}

fn align_streams(streams: &Vec<Stream>, local: i32) -> (r: Vec<Stream>)
    requires
        -100_000 <= local <= 100_000,
    ensures
        r.deep_view() == aligned(streams.deep_view(), local as int),
{
    let ghost all = streams.deep_view();
    let dated: bool = all_streams_dated(streams);
    let start: Option<i64> = find_common_start(streams, dated, local);
    let mut out: Vec<Stream> = Vec::new();
    let mut i: usize = 0;
    while i < streams.len()
        invariant
            i <= streams@.len(),
            -100_000 <= local <= 100_000,
            all == streams.deep_view(),
            out@.len() == i,
            forall|k: int|
                0 <= k < i ==> (#[trigger] out@[k]).deep_view() == if start is Some && is_active(
                    all[k],
                ) {
                    with_parts(
                        all[k],
                        parts_of(all[k]).map_values(
                            |p: Seq<MediaSegmentView>|
                                from_place(p, start->0 as int, dated, local as int),
                        ),
                    )
                } else {
                    all[k]
                },
        decreases streams@.len() - i,
    {
        assert(all[i as int] == streams@[i as int].deep_view());
        let s: Stream = match start {
            Some(place) => if is_active_stream(&streams[i]) {
                align_stream(&streams[i], place, dated, local)
            } else {
                streams[i].clone()
            },
            None => streams[i].clone(),
        };
        out.push(s);
        i = i + 1;
    }
    assert(out.deep_view() =~= aligned(all, local as int));
    out
}

fn count_first(s: &Stream) -> (r: usize)
    ensures
        r == first_count(s.deep_view()),
{
    match &s.playlist {
        None => 0,
        Some(p) => {
            if p.media_parts.len() == 0 {
                return 0;
            }
            assert(p.media_parts.deep_view()[0] == p.media_parts@[0].deep_view());
            p.media_parts[0].media_segments.len()
        },
    }
}

/// Cuts live streams to the window with which a recording starts. Timestamps without an offset are
/// `local` seconds ahead of UTC.
pub fn sync_live_startup_windows(streams: &Vec<Stream>, take_last_count: i32, local: i32) -> (r: Vec<
    Stream,
>)
    requires
        -100_000 <= local <= 100_000,
    ensures
        r.deep_view() == startup_windows(
            streams.deep_view(),
            take_last_count as int,
            local as int,
        ),
{
    let ghost all = streams.deep_view();
    let level: Vec<Stream> = align_streams(streams, local);
    let ghost lv = level.deep_view();
    let ghost wanted = take_last_count as int;
    assert(lv.len() == all.len());
    let mut exceed: bool = false;
    let mut least_count: Option<usize> = None;
    let mut i: usize = 0;
    while i < streams.len()
        invariant
            i <= streams@.len(),
            streams@.len() == level@.len(),
            all == streams.deep_view(),
            lv == level.deep_view(),
            wanted == take_last_count,
            exceed == (exists|k: int|
                0 <= k < i && is_active(#[trigger] all[k]) && first_count(lv[k]) > wanted),
            match least_count {
                Some(n) => fewest(all, lv, i as int) == Some(n as int),
                None => fewest(all, lv, i as int) is None,
            },
        decreases streams@.len() - i,
    {
        assert(all[i as int] == streams@[i as int].deep_view());
        assert(lv[i as int] == level@[i as int].deep_view());
        if is_active_stream(&streams[i]) {
            let n: usize = count_first(&level[i]);
            if take_last_count < 0 || n as u64 > take_last_count as u64 {
                assert(is_active(all[i as int]) && first_count(lv[i as int]) > wanted);
                exceed = true;
            }
            least_count = match least_count {
                Some(x) => if x <= n {
                    Some(x)
                } else {
                    Some(n)
                },
                None => Some(n),
            };
        }
        i = i + 1;
    }
    if !exceed {
        return level;
    }
    let few: i128 = match least_count {
        Some(n) => n as i128,
        None => 0,
    };
    let over: i128 = few - take_last_count as i128 + 1;
    let n: u128 = if over > 0 {
        over as u128
    } else {
        0
    };
    proof {
        lemma_fewest_is_some(all, lv, wanted);
    }
    let ghost gone = left_out(fewest(all, lv, all.len() as int)->0, wanted);
    let mut out: Vec<Stream> = Vec::new();
    let mut k: usize = 0;
    while k < streams.len()
        invariant
            k <= streams@.len(),
            streams@.len() == level@.len(),
            all == streams.deep_view(),
            lv == level.deep_view(),
            gone == n,
            out@.len() == k,
            forall|j: int|
                0 <= j < k ==> (#[trigger] out@[j]).deep_view() == if is_active(all[j]) {
                    with_parts(
                        lv[j],
                        parts_of(lv[j]).map_values(|p: Seq<MediaSegmentView>| behind(p, n as int)),
                    )
                } else {
                    lv[j]
                },
        decreases streams@.len() - k,
    {
        assert(all[k as int] == streams@[k as int].deep_view());
        assert(lv[k as int] == level@[k as int].deep_view());
        let s: Stream = if is_active_stream(&streams[k]) {
            shorten_stream(&level[k], n)
        } else {
            level[k].clone()
        };
        out.push(s);
        k = k + 1;
    }
    assert(out.deep_view() =~= startup_windows(all, wanted, local as int));
    out
}

proof fn lemma_fewest_is_some(before: Seq<StreamView>, after: Seq<StreamView>, wanted: int)
    requires
        before.len() == after.len(),
        some_exceed(before, after, wanted),
    ensures
        fewest(before, after, before.len() as int) is Some,
{
    let i = choose|i: int|
        0 <= i < before.len() && is_active(#[trigger] before[i]) && first_count(after[i]) > wanted;
    lemma_fewest_from(before, after, i + 1, before.len() as int);
}

proof fn lemma_fewest_from(before: Seq<StreamView>, after: Seq<StreamView>, n: int, m: int)
    requires
        1 <= n <= m,
        is_active(before[n - 1]),
    ensures
        fewest(before, after, m) is Some,
    decreases m - n,
{
    if n < m {
        lemma_fewest_from(before, after, n, m - 1);
    }
}

/// The seconds to wait before the next refresh: as many as asked for, one at least; else two less
/// than half of what the shortest stream holds. `half_buffer` is half of the shortest positive
/// duration of the first parts of the streams in seconds, rounded down, three where there is none.
pub fn compute_live_wait_seconds(half_buffer: i64, override_wait: Option<i32>) -> (r: u32)
    ensures
        match override_wait {
            Some(n) => r == if n > 1 {
                n as int
            } else {
                1
            },
            None => r == (if half_buffer - 2 > 1 {
                half_buffer - 2
            } else {
                1
            }) % 0x1_0000_0000,
        },
{
    match override_wait {
        Some(n) => if n > 1 {
            n as u32
        } else {
            1
        },
        None => {
            if half_buffer > 3 {
                ((half_buffer - 2) as u64 % 0x1_0000_0000) as u32
            } else {
                1
            }
        },
    }
}

/// Whether one of the streams is audio.
pub open spec fn has_audio(streams: Seq<StreamView>) -> bool {
    exists|i: int| 0 <= i < streams.len() && (#[trigger] streams[i]).media_type == Some(
        MediaType::Audio,
    )
}

/// What a live recording changes about the options.
pub fn live_option_effects(options: &DownloadOptions, selected_streams: &Vec<Stream>) -> (r:
    LiveOptionEffects)
    ensures
        r == (LiveOptionEffects {
            concurrent_download: true,
            mp4_real_time_decryption: true,
            live_fix_vtt_by_audio: options.deep_view().live_fix_vtt_by_audio == Toggle::On
                && has_audio(selected_streams.deep_view()),
        }),
{
    proof {
        reveal(crate::config::options_view);
    }
    let ghost all = selected_streams.deep_view();
    let mut audio: bool = false;
    let mut i: usize = 0;
    while i < selected_streams.len()
        invariant
            i <= selected_streams@.len(),
            all == selected_streams.deep_view(),
            audio == (exists|k: int|
                0 <= k < i && (#[trigger] all[k]).media_type == Some(MediaType::Audio)),
        decreases selected_streams@.len() - i,
    {
        assert(all[i as int] == selected_streams@[i as int].deep_view());
        let hit: bool = match selected_streams[i].media_type {
            Some(t) => t == MediaType::Audio,
            None => false,
        };
        if hit {
            assert(all[i as int].media_type == Some(MediaType::Audio));
            audio = true;
        }
        i = i + 1;
    }
    let wanted: bool = match options.live_fix_vtt_by_audio {
        Toggle::On => true,
        Toggle::Off => false,
    };
    LiveOptionEffects {
        concurrent_download: true,
        mp4_real_time_decryption: true,
        live_fix_vtt_by_audio: wanted && audio,
    }
}

/// Whether all URLs would be saved under one name, which more than one segment tells.
pub open spec fn one_name(names: Seq<SegmentNamesView>) -> bool {
    names.len() > 1 && forall|i: int|
        0 <= i < names.len() - 1 ==> (#[trigger] names[i]).from_url == names[i + 1].from_url
}

fn have_one_name(names: &Vec<SegmentNames>) -> (r: bool)
    ensures
        r == one_name(names.deep_view()),
{
    let ghost all = names.deep_view();
    if names.len() <= 1 {
        return false;
    }
    let mut i: usize = 0;
    while i < names.len() - 1
        invariant
            i <= names@.len() - 1,
            names@.len() > 1,
            all == names.deep_view(),
            forall|k: int|
                0 <= k < i ==> (#[trigger] all[k]).from_url == all[k + 1].from_url,
        decreases names@.len() - i,
    {
        assert(all[i as int] == names@[i as int].deep_view());
        assert(all[i + 1] == names@[i + 1].deep_view());
        if !same(names[i].from_url.as_str(), names[i + 1].from_url.as_str()) {
            assert(all[i as int].from_url != all[i + 1].from_url);
            return false;
        }
        i = i + 1;
    }
    true
}

/// How the segments of a stream are told apart.
pub struct Recognition {
    pub is_hls: bool,
    pub dated: bool,
    pub same_path: bool,
    pub local: int,
}

/// Whether a segment is the last that was seen.
pub open spec fn is_last_seen(
    s: MediaSegmentView,
    names: SegmentNamesView,
    mode: LiveIdentityMode,
    st: LiveStreamStateView,
    c: Recognition,
) -> bool {
    match mode {
        LiveIdentityMode::ProgramDateTime => second_of(s.program_date_time, c.local) == Some(
            st.last_date_time_unix as int,
        ),
        LiveIdentityMode::SegmentName => segment_identity(
            s,
            names,
            c.is_hls,
            c.dated,
            c.same_path,
            c.local,
        ) == st.last_file_name,
    }
}

/// The first segment that is the last that was seen, from position `i` on.
pub open spec fn seen_from(
    part: Seq<MediaSegmentView>,
    names: Seq<SegmentNamesView>,
    mode: LiveIdentityMode,
    st: LiveStreamStateView,
    c: Recognition,
    i: int,
) -> Option<int>
    decreases part.len() - i,
{
    if i < 0 || i >= part.len() {
        None
    } else if is_last_seen(part[i], names[i], mode, st, c) {
        Some(i)
    } else {
        seen_from(part, names, mode, st, c, i + 1)
    }
}

/// The position of the first new segment: behind the last that was seen; where that is not there,
/// everything is new to a stream of which nothing is known, and nothing to another.
pub open spec fn first_new(
    part: Seq<MediaSegmentView>,
    names: Seq<SegmentNamesView>,
    mode: LiveIdentityMode,
    st: LiveStreamStateView,
    c: Recognition,
) -> int {
    match seen_from(part, names, mode, st, c, 0) {
        Some(i) => i + 1,
        None => if st.last_file_name.len() == 0 && st.last_date_time_unix == 0 {
            0
        } else {
            part.len() as int
        },
    }
}

/// The smallest number among the first `n` segments.
pub open spec fn lowest_index(part: Seq<MediaSegmentView>, n: int) -> Option<int> {
    first_place(part, n, false, 0)
}

/// The largest number among the first `n` segments.
pub open spec fn highest_index(part: Seq<MediaSegmentView>, n: int) -> Option<int>
    decreases n,
{
    if n <= 0 {
        None
    } else {
        greatest(highest_index(part, n - 1), part[n - 1].index as int)
    }
}

/// By how much the numbers of new segments are raised, so that they go on from the largest so far.
pub open spec fn index_shift(part: Seq<MediaSegmentView>, max_index: i64) -> int {
    match lowest_index(part, part.len() as int) {
        Some(low) => if low < max_index {
            wrap_i64(wrap_i64(max_index - low) + 1)
        } else {
            0
        },
        None => 0,
    }
}

/// Segments with their numbers raised.
pub open spec fn shifted(part: Seq<MediaSegmentView>, by: int) -> Seq<MediaSegmentView> {
    part.map_values(
        |s: MediaSegmentView| MediaSegmentView { index: wrap_i64(s.index + by) as i64, ..s },
    )
}

/// Everything that a refresh of one part depends on.
pub struct RefreshInput {
    pub part: Seq<MediaSegmentView>,
    pub names: Seq<SegmentNamesView>,
    pub seconds_from: Seq<u64>,
    pub is_hls: bool,
    pub limit: Option<u64>,
    pub local: int,
}

/// How segments are told apart in a refresh.
pub open spec fn recognition(x: RefreshInput, st: LiveStreamStateView) -> Recognition {
    Recognition {
        is_hls: x.is_hls,
        dated: all_dated(x.part),
        same_path: match st.all_same_path {
            Some(v) => v,
            None => one_name(x.names),
        },
        local: x.local,
    }
}

/// What the segments of a refresh are recognized by.
pub open spec fn mode_of(x: RefreshInput, st: LiveStreamStateView) -> LiveIdentityMode {
    if all_dated(x.part) && st.last_date_time_unix != 0 {
        LiveIdentityMode::ProgramDateTime
    } else {
        LiveIdentityMode::SegmentName
    }
}

/// The position of the first new segment of a refresh.
pub open spec fn new_start(x: RefreshInput, st: LiveStreamStateView) -> int {
    first_new(x.part, x.names, mode_of(x, st), st, recognition(x, st))
}

/// The new segments of a refresh.
pub open spec fn new_segments(x: RefreshInput, st: LiveStreamStateView) -> Seq<MediaSegmentView> {
    let raw = x.part.skip(new_start(x, st));
    shifted(raw, index_shift(raw, st.max_index))
}

/// What is known of a stream after a refresh.
pub open spec fn state_after(x: RefreshInput, st: LiveStreamStateView) -> LiveStreamStateView {
    let fresh = new_segments(x, st);
    let c = recognition(x, st);
    let n = fresh.len();
    let seconds = capped_sum(st.refreshed_duration_secs, x.seconds_from[new_start(x, st)]);
    LiveStreamStateView {
        all_same_path: Some(c.same_path),
        max_index: match highest_index(fresh, n as int) {
            Some(high) => high as i64,
            None => st.max_index,
        },
        last_file_name: if n > 0 {
            segment_identity(fresh.last(), x.names.last(), c.is_hls, c.dated, c.same_path, c.local)
        } else {
            st.last_file_name
        },
        last_date_time_unix: if n > 0 {
            match second_of(fresh.last().program_date_time, c.local) {
                Some(t) => t as i64,
                None => 0,
            }
        } else {
            st.last_date_time_unix
        },
        refreshed_duration_secs: seconds,
        refreshed_segments: capped_sum(st.refreshed_segments, n as u64),
        record_limit_reached: st.record_limit_reached || (x.limit is Some && seconds
            >= x.limit->0),
        ..st
    }
}

/// What a refresh tells.
pub open spec fn refresh_event(st: LiveStreamStateView) -> ProgressEventView {
    ProgressEventView::LiveRefresh {
        stream_id: None,
        label: None,
        refreshed_duration: TimeSpan { seconds: st.refreshed_duration_secs, nanoseconds: 0 },
        recorded_duration: TimeSpan { seconds: st.recorded_duration_secs, nanoseconds: 0 },
        recorded_segments: st.recorded_segments,
        total_segments: st.refreshed_segments,
        is_waiting: false,
        recorded_size: None,
    }
}

fn find_seen(
    part: &Vec<MediaSegment>,
    names: &Vec<SegmentNames>,
    mode: LiveIdentityMode,
    state: &LiveStreamState,
    is_hls: bool,
    dated: bool,
    same_path: bool,
    local: i32,
) -> (r: Option<usize>)
    requires
        names@.len() == part@.len(),
        -100_000 <= local <= 100_000,
    ensures
        match r {
            Some(i) => i < part@.len() && seen_from(
                part.deep_view(),
                names.deep_view(),
                mode,
                state.deep_view(),
                (Recognition { is_hls, dated, same_path, local: local as int }),
                0,
            ) == Some(i as int),
            None => seen_from(
                part.deep_view(),
                names.deep_view(),
                mode,
                state.deep_view(),
                (Recognition { is_hls, dated, same_path, local: local as int }),
                0,
            ) is None,
        },
{
    let ghost all = part.deep_view();
    let ghost nv = names.deep_view();
    let ghost st = state.deep_view();
    let ghost c = Recognition { is_hls, dated, same_path, local: local as int };
    let mut i: usize = 0;
    while i < part.len()
        invariant
            i <= part@.len(),
            names@.len() == part@.len(),
            -100_000 <= local <= 100_000,
            all == part.deep_view(),
            nv == names.deep_view(),
            st == state.deep_view(),
            c == (Recognition { is_hls, dated, same_path, local: local as int }),
            seen_from(all, nv, mode, st, c, 0) == seen_from(all, nv, mode, st, c, i as int),
        decreases part@.len() - i,
    {
        assert(all[i as int] == part@[i as int].deep_view());
        assert(nv[i as int] == names@[i as int].deep_view());
        let hit: bool = match mode {
            LiveIdentityMode::ProgramDateTime => match parse_second(
                &part[i].program_date_time,
                local,
            ) {
                Some(n) => n == state.last_date_time_unix,
                None => false,
            },
            LiveIdentityMode::SegmentName => {
                let name: String = live_segment_name(
                    &part[i],
                    &names[i],
                    is_hls,
                    dated,
                    same_path,
                    local,
                );
                same(name.as_str(), state.last_file_name.as_str())
            },
        };
        if hit {
            return Some(i);
        }
        i = i + 1;
    }
    None
}

fn raise_indexes(part: &Vec<MediaSegment>, from: usize, max_index: i64) -> (r: Vec<MediaSegment>)
    requires
        from <= part@.len(),
    ensures
        r.deep_view() == shifted(
            part.deep_view().skip(from as int),
            index_shift(part.deep_view().skip(from as int), max_index),
        ),
{
    let ghost all = part.deep_view();
    let mut raw: Vec<MediaSegment> = Vec::new();
    let mut i: usize = from;
    while i < part.len()
        invariant
            from <= i <= part@.len(),
            all == part.deep_view(),
            raw.deep_view() =~= all.subrange(from as int, i as int),
        decreases part@.len() - i,
    {
        let segment: MediaSegment = part[i].clone();
        let ghost before = raw.deep_view();
        let ghost item = segment.deep_view();
        assert(all[i as int] == item);
        raw.push(segment);
        assert(raw.deep_view() =~= before.push(item));
        i = i + 1;
    }
    let ghost rv = all.skip(from as int);
    assert(raw.deep_view() =~= rv);
    let by: i64 = match find_first_place(&raw, false, 0) {
        Some(low) => if low < max_index {
            max_index.wrapping_sub(low).wrapping_add(1)
        } else {
            0
        },
        None => 0,
    };
    assert(by as int == index_shift(rv, max_index));
    let mut out: Vec<MediaSegment> = Vec::new();
    let mut k: usize = 0;
    while k < raw.len()
        invariant
            k <= raw@.len(),
            rv == raw.deep_view(),
            out.deep_view() =~= shifted(rv, by as int).subrange(0, k as int),
        decreases raw@.len() - k,
    {
        let mut segment: MediaSegment = raw[k].clone();
        segment.index = segment.index.wrapping_add(by);
        let ghost before = out.deep_view();
        let ghost item = segment.deep_view();
        assert(rv[k as int] == raw@[k as int].deep_view());
        assert(shifted(rv, by as int)[k as int] == item);
        out.push(segment);
        assert(out.deep_view() =~= before.push(item));
        k = k + 1;
    }
    assert(out.deep_view() =~= shifted(rv, by as int));
    out
}

fn find_highest(segments: &Vec<MediaSegment>) -> (r: Option<i64>)
    ensures
        match r {
            Some(n) => highest_index(segments.deep_view(), segments@.len() as int) == Some(
                n as int,
            ),
            None => highest_index(segments.deep_view(), segments@.len() as int) is None,
        },
{
    let ghost all = segments.deep_view();
    let mut best: Option<i64> = None;
    let mut i: usize = 0;
    while i < segments.len()
        invariant
            i <= segments@.len(),
            all == segments.deep_view(),
            match best {
                Some(n) => highest_index(all, i as int) == Some(n as int),
                None => highest_index(all, i as int) is None,
            },
        decreases segments@.len() - i,
    {
        assert(all[i as int] == segments@[i as int].deep_view());
        let n: i64 = segments[i].index;
        best = match best {
            Some(x) => if x >= n {
                Some(x)
            } else {
                Some(n)
            },
            None => Some(n),
        };
        i = i + 1;
    }
    best
}

fn advance_state(
    state: &mut LiveStreamState,
    fresh: &Vec<MediaSegment>,
    last_names: Option<&SegmentNames>,
    is_hls: bool,
    dated: bool,
    same_path: bool,
    seconds: u64,
    record_limit: Option<TimeSpan>,
    local: i32,
)
    requires
        -100_000 <= local <= 100_000,
        fresh@.len() > 0 ==> last_names is Some,
    ensures
        ({
            let st = old(state).deep_view();
            let fv = fresh.deep_view();
            let n = fv.len();
            let total = capped_sum(st.refreshed_duration_secs, seconds);
            final(state).deep_view() == (LiveStreamStateView {
                all_same_path: Some(same_path),
                max_index: match highest_index(fv, n as int) {
                    Some(high) => high as i64,
                    None => st.max_index,
                },
                last_file_name: if n > 0 {
                    segment_identity(
                        fv.last(),
                        last_names->0.deep_view(),
                        is_hls,
                        dated,
                        same_path,
                        local as int,
                    )
                } else {
                    st.last_file_name
                },
                last_date_time_unix: if n > 0 {
                    match second_of(fv.last().program_date_time, local as int) {
                        Some(t) => t as i64,
                        None => 0,
                    }
                } else {
                    st.last_date_time_unix
                },
                refreshed_duration_secs: total,
                refreshed_segments: capped_sum(st.refreshed_segments, n as u64),
                record_limit_reached: st.record_limit_reached || (record_limit is Some && total >= (
                record_limit->0).seconds),
                ..st
            })
        }),
{
    state.all_same_path = Some(same_path);
    match find_highest(fresh) {
        Some(n) => {
            state.max_index = n;
        },
        None => {},
    }
    if fresh.len() > 0 {
        let last: &MediaSegment = &fresh[fresh.len() - 1];
        assert(fresh.deep_view().last() == last.deep_view());
        match last_names {
            Some(names) => {
                state.last_file_name =
                live_segment_name(last, names, is_hls, dated, same_path, local);
            },
            None => {},
        }
        state.last_date_time_unix = match parse_second(&last.program_date_time, local) {
            Some(n) => n,
            None => 0,
        };
    }
    state.refreshed_duration_secs = add_capped(state.refreshed_duration_secs, seconds);
    state.refreshed_segments = add_capped(state.refreshed_segments, fresh.len() as u64);
    match record_limit {
        Some(limit) => {
            if state.refreshed_duration_secs >= limit.seconds {
                state.record_limit_reached = true;
            }
        },
        None => {},
    }
}

/// The seconds of a length of time, where there is one.
pub open spec fn whole_seconds(t: Option<TimeSpan>) -> Option<u64> {
    match t {
        Some(t) => Some(t.seconds),
        None => None,
    }
}

/// What a refresh of a stream depends on.
pub open spec fn refresh_input(
    s: StreamView,
    names: Seq<SegmentNamesView>,
    seconds_from: Seq<u64>,
    is_hls: bool,
    record_limit: Option<TimeSpan>,
    local: int,
) -> RefreshInput {
    RefreshInput {
        part: first_part(s)->0,
        names,
        seconds_from,
        is_hls,
        limit: whole_seconds(record_limit),
        local,
    }
}

/// Cuts a stream down to the segments that are new, and notes what was seen.
///
/// `names` are the names under which the segments of the first part would be saved, and
/// `seconds_from` the whole seconds that the segments from each position on last, the last entry
/// being for none of them. Timestamps without an offset are `local` seconds ahead of UTC.
pub fn filter_new_live_segments(
    stream: &mut Stream,
    state: &mut LiveStreamState,
    extractor_is_hls: bool,
    record_limit: Option<TimeSpan>,
    names: &Vec<SegmentNames>,
    seconds_from: &Vec<u64>,
    local: i32,
) -> (r: LiveRefreshResult)
    requires
        -100_000 <= local <= 100_000,
        match first_part(old(stream).deep_view()) {
            Some(part) => names@.len() == part.len() && seconds_from@.len() == part.len() + 1,
            None => true,
        },
    ensures
        ({
            let s = old(stream).deep_view();
            let st = old(state).deep_view();
            let x = refresh_input(
                s,
                names.deep_view(),
                seconds_from@,
                extractor_is_hls,
                record_limit,
                local as int,
            );
            match first_part(s) {
                None => final(stream).deep_view() == s && final(state).deep_view() == st
                    && r.deep_view() == (LiveRefreshResultView {
                    new_segments: Seq::empty(),
                    identity_mode: LiveIdentityMode::SegmentName,
                    events: Seq::empty(),
                }),
                Some(part) => final(stream).deep_view() == with_parts(s, seq![new_segments(x, st)])
                    && final(state).deep_view() == state_after(x, st) && r.deep_view() == (
                LiveRefreshResultView {
                    new_segments: new_segments(x, st),
                    identity_mode: mode_of(x, st),
                    events: seq![refresh_event(state_after(x, st))],
                }),
            }
        }),
{
    let ghost s = stream.deep_view();
    let mut taken: Option<Playlist> = None;
    core::mem::swap(&mut stream.playlist, &mut taken);
    let mut playlist: Playlist = match taken {
        Some(p) => p,
        None => {
            assert(stream.deep_view() == s);
            return nothing_new();
        },
    };
    if playlist.media_parts.len() == 0 {
        stream.playlist = Some(playlist);
        assert(stream.deep_view() == s);
        return nothing_new();
    }
    assert(playlist.media_parts.deep_view()[0] == playlist.media_parts@[0].deep_view());
    let r: LiveRefreshResult = refresh_part(
        &playlist.media_parts[0].media_segments,
        state,
        extractor_is_hls,
        record_limit,
        names,
        seconds_from,
        local,
    );
    let kept: Vec<MediaSegment> = crate::manifest::copy_segments(&r.new_segments);
    let mut parts: Vec<MediaPart> = Vec::new();
    parts.push(MediaPart { media_segments: kept });
    assert(parts.deep_view() =~= seq![r.new_segments.deep_view()]);
    playlist.media_parts = parts;
    stream.playlist = Some(playlist);
    r
}

fn refresh_part(
    part: &Vec<MediaSegment>,
    state: &mut LiveStreamState,
    is_hls: bool,
    record_limit: Option<TimeSpan>,
    names: &Vec<SegmentNames>,
    seconds_from: &Vec<u64>,
    local: i32,
) -> (r: LiveRefreshResult)
    requires
        -100_000 <= local <= 100_000,
        names@.len() == part@.len(),
        seconds_from@.len() == part@.len() + 1,
    ensures
        ({
            let st = old(state).deep_view();
            let x = RefreshInput {
                part: part.deep_view(),
                names: names.deep_view(),
                seconds_from: seconds_from@,
                is_hls,
                limit: whole_seconds(record_limit),
                local: local as int,
            };
            final(state).deep_view() == state_after(x, st) && r.deep_view() == (
            LiveRefreshResultView {
                new_segments: new_segments(x, st),
                identity_mode: mode_of(x, st),
                events: seq![refresh_event(state_after(x, st))],
            })
        }),
{
    let ghost st = state.deep_view();
    let ghost x = RefreshInput {
        part: part.deep_view(),
        names: names.deep_view(),
        seconds_from: seconds_from@,
        is_hls,
        limit: whole_seconds(record_limit),
        local: local as int,
    };
    let _len: usize = part.len();
    let dated: bool = has_all_dates(part);
    let same_path: bool = match state.all_same_path {
        Some(v) => v,
        None => have_one_name(names),
    };
    let mode: LiveIdentityMode = if dated && state.last_date_time_unix != 0 {
        LiveIdentityMode::ProgramDateTime
    } else {
        LiveIdentityMode::SegmentName
    };
    let start: usize = find_start(part, names, mode, state, is_hls, dated, same_path, local);
    assert(start == new_start(x, st));
    let fresh: Vec<MediaSegment> = raise_indexes(part, start, state.max_index);
    assert(fresh.deep_view() == new_segments(x, st));
    let last_names: Option<&SegmentNames> = if names.len() > 0 {
        assert(names.deep_view().last() == names@[names@.len() - 1].deep_view());
        Some(&names[names.len() - 1])
    } else {
        None
    };
    advance_state(
        state,
        &fresh,
        last_names,
        is_hls,
        dated,
        same_path,
        seconds_from[start],
        record_limit,
        local,
    );
    assert(state.deep_view() == state_after(x, st));
    LiveRefreshResult { new_segments: fresh, identity_mode: mode, events: tell_refresh(state) }
}

fn find_start(
    part: &Vec<MediaSegment>,
    names: &Vec<SegmentNames>,
    mode: LiveIdentityMode,
    state: &LiveStreamState,
    is_hls: bool,
    dated: bool,
    same_path: bool,
    local: i32,
) -> (r: usize)
    requires
        names@.len() == part@.len(),
        -100_000 <= local <= 100_000,
    ensures
        r <= part@.len(),
        r == first_new(
            part.deep_view(),
            names.deep_view(),
            mode,
            state.deep_view(),
            (Recognition { is_hls, dated, same_path, local: local as int }),
        ),
{
    let len: usize = part.len();
    match find_seen(part, names, mode, state, is_hls, dated, same_path, local) {
        Some(i) => {
            assert(i < len);
            i + 1
        },
        None => if state.last_file_name.as_str().unicode_len() == 0 && state.last_date_time_unix
            == 0 {
            0
        } else {
            len
        },
    }
}

fn tell_refresh(state: &LiveStreamState) -> (r: Vec<ProgressEvent>)
    ensures
        r.deep_view() == seq![refresh_event(state.deep_view())],
{
    let mut events: Vec<ProgressEvent> = Vec::new();
    events.push(
        ProgressEvent::LiveRefresh {
            stream_id: None,
            label: None,
            refreshed_duration: TimeSpan {
                seconds: state.refreshed_duration_secs,
                nanoseconds: 0,
            },
            recorded_duration: TimeSpan { seconds: state.recorded_duration_secs, nanoseconds: 0 },
            recorded_segments: state.recorded_segments,
            total_segments: state.refreshed_segments,
            is_waiting: false,
            recorded_size: None,
        },
    );
    assert(events.deep_view() =~= seq![refresh_event(state.deep_view())]);
    events
}

fn nothing_new() -> (r: LiveRefreshResult)
    ensures
        r.deep_view() == (LiveRefreshResultView {
            new_segments: Seq::empty(),
            identity_mode: LiveIdentityMode::SegmentName,
            events: Seq::empty(),
        }),
{
    let r = LiveRefreshResult {
        new_segments: Vec::new(),
        identity_mode: LiveIdentityMode::SegmentName,
        events: Vec::new(),
    };
    assert(r.new_segments.deep_view() =~= Seq::empty());
    assert(r.events.deep_view() =~= Seq::empty());
    r
}

/// Notes that segments of a number of whole seconds were recorded.
pub fn add_recorded_duration(state: &mut LiveStreamState, seconds: u64, segments: usize)
    ensures
        final(state).deep_view() == (LiveStreamStateView {
            recorded_duration_secs: capped_sum(old(state).recorded_duration_secs, seconds),
            recorded_segments: capped_sum(old(state).recorded_segments, segments as u64),
            ..old(state).deep_view()
        }),
{
    state.recorded_duration_secs = add_capped(state.recorded_duration_secs, seconds);
    state.recorded_segments = add_capped(state.recorded_segments, segments as u64);
}

/// Notes that bytes of a transport stream came in, and whether the recording is long enough.
pub fn update_http_live_ts_state(
    state: &mut HttpLiveTsState,
    bytes: usize,
    elapsed: TimeSpan,
    record_limit: Option<TimeSpan>,
)
    requires
        elapsed.nanoseconds < 1_000_000_000,
        record_limit is Some ==> (record_limit->0).nanoseconds < 1_000_000_000,
    ensures
        *final(state) == (HttpLiveTsState {
            recording_size_bytes: capped_sum(old(state).recording_size_bytes, bytes as u64),
            recording_duration_secs: elapsed.seconds,
            stop_requested: old(state).stop_requested || (record_limit is Some && elapsed.nanos()
                >= (record_limit->0).nanos()),
        }),
{
    state.recording_size_bytes = add_capped(state.recording_size_bytes, bytes as u64);
    state.recording_duration_secs = elapsed.seconds;
    match record_limit {
        Some(limit) => {
            if !limit.exceeds(&elapsed) {
                state.stop_requested = true;
            }
        },
        None => {},
    }
}

/// The place from which a pipe is read.
pub open spec fn pipe_place(name: Seq<char>, directory: Seq<char>, windows: bool) -> Seq<char> {
    if windows {
        "\\\\.\\pipe\\"@ + name
    } else {
        path_join(directory, name)
    }
}

/// The first `n` pipes as inputs.
pub open spec fn pipe_inputs(
    names: Seq<Seq<char>>,
    n: int,
    directory: Seq<char>,
    windows: bool,
) -> Seq<char>
    decreases n,
{
    if n <= 0 {
        Seq::empty()
    } else {
        pipe_inputs(names, n - 1, directory, windows) + " -i "@ + quoted(
            pipe_place(names[n - 1], directory, windows),
        ) + " "@
    }
}

/// Where a live mux goes: to a place, or where arguments say.
pub open spec fn live_destination(custom: Option<Seq<char>>, output: Seq<char>) -> Seq<char> {
    match custom {
        Some(value) => if starts_with(trim_start(value), "-"@) {
            value
        } else {
            " -f mpegts -shortest "@ + quoted(value)
        },
        None => " -f mpegts -shortest "@ + quoted(output),
    }
}

/// The arguments of a live mux.
pub open spec fn pipe_arguments(
    names: Seq<Seq<char>>,
    output: Seq<char>,
    date: Seq<char>,
    custom: Option<Seq<char>>,
    directory: Seq<char>,
    windows: bool,
) -> Seq<char> {
    crate::mux::added(
        "-y -fflags +genpts -loglevel quiet "@,
        custom is Some,
        " -re "@,
    ) + pipe_inputs(names, names.len() as int, directory, windows) + crate::mux::mux_maps(
        names.len(),
    ) + " -strict unofficial -c copy "@ + " -metadata date="@ + quoted(date) + " "@
        + " -ignore_unknown -copy_unknown "@ + live_destination(custom, output)
}

fn push_pipe_inputs(command: &mut String, names: &Vec<String>, directory: &str, windows: bool)
    ensures
        final(command)@ == old(command)@ + pipe_inputs(
            names.deep_view(),
            names@.len() as int,
            directory@,
            windows,
        ),
{
    let ghost all = names.deep_view();
    let mut out: String = String::new();
    let mut i: usize = 0;
    while i < names.len()
        invariant
            i <= names@.len(),
            all == names.deep_view(),
            out@ == pipe_inputs(all, i as int, directory@, windows),
        decreases names@.len() - i,
    {
        assert(all[i as int] == names@[i as int]@);
        let place: String = if windows {
            cat2("\\\\.\\pipe\\", names[i].as_str())
        } else {
            join_path(directory, names[i].as_str())
        };
        out.append(" -i ");
        out.append(quote(place.as_str()).as_str());
        out.append(" ");
        i = i + 1;
    }
    command.append(out.as_str());
}

/// The plan of a mux of live pipes by ffmpeg, made in a given directory.
pub fn plan_live_pipe_mux(
    binary: &str,
    pipe_names: &Vec<String>,
    output_path: &str,
    date_string: &str,
    custom_destination: Option<&str>,
    pipe_dir: &str,
    windows: bool,
    current_dir: &str,
) -> (r: MuxCommandPlan)
    ensures
        r.deep_view() == (MuxCommandPlanView {
            program: binary@,
            arguments: pipe_arguments(
                pipe_names.deep_view(),
                output_path@,
                date_string@,
                crate::text::opt(custom_destination),
                pipe_dir@,
                windows,
            ),
            working_directory: current_dir@,
            output_path: output_path@,
        }),
{
    let mut command: String = owned("-y -fflags +genpts -loglevel quiet ");
    if custom_destination.is_some() {
        command.append(" -re ");
    }
    push_pipe_inputs(&mut command, pipe_names, pipe_dir, windows);
    crate::mux::push_mux_maps(&mut command, pipe_names.len());
    command.append(" -strict unofficial -c copy ");
    command.append(" -metadata date=");
    command.append(quote(date_string).as_str());
    command.append(" ");
    command.append(" -ignore_unknown -copy_unknown ");
    let place: &str = match custom_destination {
        Some(value) => value,
        None => output_path,
    };
    if custom_destination.is_some() && begins_with(trimmed_start(place), "-") {
        command.append(place);
    } else {
        let target: String = cat2(" -f mpegts -shortest ", quote(place).as_str());
        command.append(target.as_str());
    }
    MuxCommandPlan {
        program: owned(binary),
        arguments: command,
        working_directory: owned(current_dir),
        output_path: owned(output_path),
    }
}

proof fn lemma_lowest(part: Seq<MediaSegmentView>, n: int, i: int)
    requires
        0 <= i < n <= part.len(),
    ensures
        lowest_index(part, n) is Some,
        lowest_index(part, n)->0 <= part[i].index,
    decreases n,
{
    if i < n - 1 {
        lemma_lowest(part, n - 1, i);
    }
}

/// The numbers of new segments do not fall behind the largest so far, as long as they can be
/// written in 64 bits.
pub proof fn law_new_indexes_do_not_fall_behind(x: RefreshInput, st: LiveStreamStateView, i: int)
    requires
        0 <= new_start(x, st) <= x.part.len(),
        0 <= i < new_segments(x, st).len(),
        forall|k: int, m: int|
            0 <= k < x.part.len() && 0 <= m < x.part.len() ==> st.max_index
                - #[trigger] x.part[k].index + 1 + #[trigger] x.part[m].index <= i64::MAX,
        forall|k: int|
            0 <= k < x.part.len() ==> st.max_index - #[trigger] x.part[k].index + 1 <= i64::MAX,
    ensures
        new_segments(x, st)[i].index >= st.max_index,
{
    let start = new_start(x, st);
    let raw = x.part.skip(start);
    lemma_lowest(raw, raw.len() as int, i);
    let low = lowest_index(raw, raw.len() as int)->0;
    lemma_lowest_is_one(raw, raw.len() as int);
    let w = choose|w: int| 0 <= w < raw.len() && (#[trigger] raw[w]).index == low;
    assert(raw[w] == x.part[start + w] && raw[i] == x.part[start + i]);
    if low < st.max_index {
        assert(st.max_index - x.part[start + w].index + 1 + x.part[start + i].index <= i64::MAX);
        assert(index_shift(raw, st.max_index) == st.max_index - low + 1);
    } else {
        assert(index_shift(raw, st.max_index) == 0);
    }
}

proof fn lemma_lowest_is_one(part: Seq<MediaSegmentView>, n: int)
    requires
        0 < n <= part.len(),
    ensures
        exists|w: int| 0 <= w < n && Some((#[trigger] part[w]).index as int) == lowest_index(part, n),
    decreases n,
{
    if n > 1 {
        lemma_lowest_is_one(part, n - 1);
        let w = choose|w: int|
            0 <= w < n - 1 && Some((#[trigger] part[w]).index as int) == lowest_index(part, n - 1);
        if lowest_index(part, n) == lowest_index(part, n - 1) {
            assert(Some(part[w].index as int) == lowest_index(part, n));
        } else {
            assert(Some(part[n - 1].index as int) == lowest_index(part, n));
        }
    } else {
        assert(lowest_index(part, 0) is None);
        assert(Some(part[0].index as int) == lowest_index(part, n));
    }
}

/// Where the last segment of a playlist is the last that was seen, and the only one that looks like
/// it, nothing of the playlist is new.
pub proof fn law_nothing_is_new_twice(x: RefreshInput, st: LiveStreamStateView)
    requires
        x.part.len() > 0,
        is_last_seen(
            x.part.last(),
            x.names[x.part.len() - 1],
            mode_of(x, st),
            st,
            recognition(x, st),
        ),
        forall|i: int|
            0 <= i < x.part.len() - 1 ==> !is_last_seen(
                #[trigger] x.part[i],
                x.names[i],
                mode_of(x, st),
                st,
                recognition(x, st),
            ),
    ensures
        new_segments(x, st).len() == 0,
        state_after(x, st).last_file_name == st.last_file_name,
        state_after(x, st).max_index == st.max_index,
{
    lemma_seen_at_end(x, st, 0);
    assert(x.part.skip(x.part.len() as int).len() == 0);
}

proof fn lemma_seen_at_end(x: RefreshInput, st: LiveStreamStateView, i: int)
    requires
        0 <= i < x.part.len(),
        is_last_seen(
            x.part.last(),
            x.names[x.part.len() - 1],
            mode_of(x, st),
            st,
            recognition(x, st),
        ),
        forall|i: int|
            0 <= i < x.part.len() - 1 ==> !is_last_seen(
                #[trigger] x.part[i],
                x.names[i],
                mode_of(x, st),
                st,
                recognition(x, st),
            ),
    ensures
        seen_from(x.part, x.names, mode_of(x, st), st, recognition(x, st), i) == Some(
            x.part.len() - 1,
        ),
    decreases x.part.len() - i,
{
    if i < x.part.len() - 1 {
        lemma_seen_at_end(x, st, i + 1);
    }
}

/// Segments of a playlist that are told apart by their numbers, which go up.
pub open spec fn is_numbered(part: Seq<MediaSegmentView>) -> bool {
    &&& forall|i: int|
        0 <= i < part.len() ==> (#[trigger] part[i]).program_date_time is None
            && part[i].name_from_var is None && part[i].index >= 0
    &&& forall|i: int, j: int|
        0 <= i < j < part.len() ==> (#[trigger] part[i]).index < (#[trigger] part[j]).index
}

proof fn lemma_not_shifted(part: Seq<MediaSegmentView>, max_index: i64)
    requires
        forall|i: int| 0 <= i < part.len() ==> (#[trigger] part[i]).index >= max_index,
    ensures
        shifted(part, index_shift(part, max_index)) == part,
{
    if part.len() > 0 {
        lemma_lowest_is_one(part, part.len() as int);
        let w = choose|w: int|
            0 <= w < part.len() && Some((#[trigger] part[w]).index as int) == lowest_index(
                part,
                part.len() as int,
            );
        assert(part[w].index >= max_index);
        assert(index_shift(part, max_index) == 0);
    }
    assert(shifted(part, index_shift(part, max_index)) =~= part);
}

proof fn lemma_highest_is_last(part: Seq<MediaSegmentView>, n: int)
    requires
        is_numbered(part),
        0 < n <= part.len(),
    ensures
        highest_index(part, n) == Some(part[n - 1].index as int),
    decreases n,
{
    if n > 1 {
        lemma_highest_is_last(part, n - 1);
        assert(part[n - 2].index < part[n - 1].index);
    } else {
        assert(highest_index(part, 0) is None);
    }
}

proof fn lemma_numbers_differ(a: int, b: int)
    requires
        a >= 0,
        b >= 0,
    ensures
        dec_int(a) == dec_int(b) ==> a == b,
        dec_int(a).len() > 0,
{
    law_decimal_round_trip(a as nat);
    law_decimal_round_trip(b as nat);
}

proof fn lemma_seen_none(x: RefreshInput, st: LiveStreamStateView, i: int)
    requires
        0 <= i <= x.part.len(),
        forall|k: int|
            0 <= k < x.part.len() ==> !is_last_seen(
                #[trigger] x.part[k],
                x.names[k],
                mode_of(x, st),
                st,
                recognition(x, st),
            ),
    ensures
        seen_from(x.part, x.names, mode_of(x, st), st, recognition(x, st), i) is None,
    decreases x.part.len() - i,
{
    if i < x.part.len() {
        lemma_seen_none(x, st, i + 1);
    }
}

proof fn lemma_seen_at(x: RefreshInput, st: LiveStreamStateView, i: int, at: int)
    requires
        0 <= i <= at < x.part.len(),
        is_last_seen(x.part[at], x.names[at], mode_of(x, st), st, recognition(x, st)),
        forall|k: int|
            0 <= k < at ==> !is_last_seen(
                #[trigger] x.part[k],
                x.names[k],
                mode_of(x, st),
                st,
                recognition(x, st),
            ),
    ensures
        seen_from(x.part, x.names, mode_of(x, st), st, recognition(x, st), i) == Some(at),
    decreases at - i,
{
    if i < at {
        lemma_seen_at(x, st, i + 1, at);
    }
}

proof fn lemma_first_window(x: RefreshInput)
    requires
        x.is_hls,
        x.part.len() > 0,
        is_numbered(x.part),
        x.part.len() <= u64::MAX,
    ensures
        new_segments(x, fresh_state()) == x.part,
        state_after(x, fresh_state()).max_index == x.part.last().index,
        state_after(x, fresh_state()).last_file_name == dec_int(x.part.last().index as int),
        state_after(x, fresh_state()).last_date_time_unix == 0,
        state_after(x, fresh_state()).refreshed_segments == x.part.len(),
{
    let st = fresh_state();
    assert(x.part[0].program_date_time is None);
    assert(!all_dated(x.part));
    assert forall|k: int| 0 <= k < x.part.len() implies !is_last_seen(
        #[trigger] x.part[k],
        x.names[k],
        mode_of(x, st),
        st,
        recognition(x, st),
    ) by {
        lemma_numbers_differ(x.part[k].index as int, 0);
    }
    lemma_seen_none(x, st, 0);
    assert(new_start(x, st) == 0);
    assert(x.part.skip(0) =~= x.part);
    lemma_not_shifted(x.part, 0);
    lemma_highest_is_last(x.part, x.part.len() as int);
}

/// Of two windows of a playlist that overlap, each segment is new once and in order: the first window
/// as a whole, then the segments behind it. The segments are told apart by their numbers, which go up
/// over both windows.
pub proof fn law_overlapping_windows(x: RefreshInput, y: RefreshInput, k: int, more: Seq<MediaSegmentView>)
    requires
        x.is_hls,
        y.is_hls,
        0 <= k < x.part.len(),
        y.part == x.part.skip(k) + more,
        is_numbered(x.part + more),
        x.part.len() + more.len() <= u64::MAX,
    ensures
        ({
            let first = state_after(x, fresh_state());
            let second = state_after(y, first);
            &&& new_segments(x, fresh_state()) == x.part
            &&& new_segments(y, first) == more
            &&& first.refreshed_segments == x.part.len()
            &&& second.refreshed_segments == x.part.len() + more.len()
            &&& first.max_index == x.part.last().index
            &&& second.max_index == (x.part + more).last().index
        }),
{
    let all = x.part + more;
    let n = x.part.len() as int;
    assert forall|i: int| 0 <= i < n implies (#[trigger] x.part[i]) == all[i] by {}
    assert(is_numbered(x.part)) by {
        assert forall|i: int, j: int| 0 <= i < j < n implies (#[trigger] x.part[i]).index < (
        #[trigger] x.part[j]).index by {
            assert(all[i].index < all[j].index);
        }
    }
    lemma_first_window(x);
    let st = state_after(x, fresh_state());
    let at = n - 1 - k;
    assert forall|i: int| 0 <= i < y.part.len() implies #[trigger] y.part[i] == all[k + i] by {}
    assert(y.part[0].program_date_time is None);
    assert(!all_dated(y.part));
    assert(y.part[at] == x.part[n - 1]);
    assert forall|i: int| 0 <= i < at implies !is_last_seen(
        #[trigger] y.part[i],
        y.names[i],
        mode_of(y, st),
        st,
        recognition(y, st),
    ) by {
        assert(all[k + i].index < all[n - 1].index);
        lemma_numbers_differ(all[k + i].index as int, all[n - 1].index as int);
    }
    lemma_seen_at(y, st, 0, at);
    assert(new_start(y, st) == n - k);
    assert(y.part.skip(n - k) =~= more);
    assert forall|i: int| 0 <= i < more.len() implies (#[trigger] more[i]).index >= st.max_index by {
        assert(more[i] == all[n + i]);
        assert(all[n - 1].index < all[n + i].index);
    }
    lemma_not_shifted(more, st.max_index);
    assert(new_segments(y, st) == more);
    if more.len() > 0 {
        assert(is_numbered(more)) by {
            assert forall|i: int| 0 <= i < more.len() implies (#[trigger] more[i]).program_date_time is None
                && more[i].name_from_var is None && more[i].index >= 0 by {
                assert(more[i] == all[n + i]);
            }
            assert forall|i: int, j: int| 0 <= i < j < more.len() implies (#[trigger] more[i]).index < (
            #[trigger] more[j]).index by {
                assert(all[n + i].index < all[n + j].index);
            }
        }
        lemma_highest_is_last(more, more.len() as int);
        assert(all.last() == more.last());
    } else {
        assert(all =~= x.part);
        assert(highest_index(more, 0) is None);
    }
}

} // verus!
