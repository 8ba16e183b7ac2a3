//! Fetching one segment: what is tried, how often, and when it is given up.

use crate::boxes::zeros;
use crate::config::LogLevel;
use crate::download::{
    decrypted_path, finished_path, format_segment_fetch_debug_message_for_url, index_number,
    number_of_index, plain_path, push_retry_extra_logs, reading_of, remove_tmp_extension,
    resolve_segment_redirect, retry_logs, segment_fetch_message, segment_progress,
    segment_progress_event, segment_redirect, ticked, SegmentDownloadResult,
    SegmentDownloadResultView, SpeedState, SpeedStateView,
};
use crate::error::{Error, ErrorView, Result};
use crate::event::{ProgressEvent, ProgressEventView};
use crate::http::{format_response_headers, listed_headers};
use crate::manifest::{MediaSegment, MediaSegmentView};
use crate::repair::{has_gzip_header, has_image_header, is_gzip_header, is_image_header};
use crate::text::{
    cat3, cat4, dec, dec_int, i64_text, opt, owned, parse_u64_text, parse_unsigned, same, trim_end,
    u64_text,
};
use crate::text_map::TextMap;
use vstd::prelude::*;

verus! {

/// What the fetching of a segment waits for.
#[derive(Clone, Copy, Debug, PartialEq, Eq, Structural)]
pub enum SegmentPhase {
    /// Whether the finished file is there already.
    LookingForFinal,
    /// Whether the decrypted file is there already.
    LookingForDecrypted,
    /// What an attempt brings.
    Fetching,
    /// That the file gets its final name.
    Renaming,
    /// That a second passes.
    Waiting,
    /// Nothing any more.
    Over,
}

/// What is to be done for a segment.
#[derive(Debug)]
pub enum SegmentAction {
    /// Look whether a file is there, and how long it is.
    LookFor(String),
    /// Fetch the segment.
    Fetch,
    /// Give a file another name; one of that name is removed before.
    Rename { from: String, to: String },
    /// Wait for a second.
    Wait,
    /// The segment is there.
    Done(SegmentDownloadResult),
    /// The segment is given up.
    Fail(Error),
}

/// Model of `SegmentAction`.
pub enum SegmentActionView {
    LookFor(Seq<char>),
    Fetch,
    Rename { from: Seq<char>, to: Seq<char> },
    Wait,
    Done(SegmentDownloadResultView),
    Fail(ErrorView),
}

impl DeepView for SegmentAction {
    type V = SegmentActionView;

    open spec fn deep_view(&self) -> SegmentActionView {
        match self {
            SegmentAction::LookFor(p) => SegmentActionView::LookFor(p@),
            SegmentAction::Fetch => SegmentActionView::Fetch,
            SegmentAction::Rename { from, to } => SegmentActionView::Rename { from: from@, to: to@ },
            SegmentAction::Wait => SegmentActionView::Wait,
            SegmentAction::Done(r) => SegmentActionView::Done(r.deep_view()),
            SegmentAction::Fail(e) => SegmentActionView::Fail(e.deep_view()),
        }
    }
}

/// What is told, what is counted as downloaded, and what is to be done.
#[derive(Debug)]
pub struct SegmentStep {
    pub events: Vec<ProgressEvent>,
    pub counted: u64,
    pub action: SegmentAction,
}

/// Model of `SegmentStep`.
pub struct SegmentStepView {
    pub events: Seq<ProgressEventView>,
    pub counted: u64,
    pub action: SegmentActionView,
}

impl DeepView for SegmentStep {
    type V = SegmentStepView;

    open spec fn deep_view(&self) -> SegmentStepView {
        SegmentStepView {
            events: self.events.deep_view(),
            counted: self.counted,
            action: self.action.deep_view(),
        }
    }
}

/// The fetching of one segment.
#[derive(Debug)]
pub struct SegmentTask {
    url: String,
    segment_index: u64,
    stream_id: String,
    final_path: String,
    phase: SegmentPhase,
    remaining: i32,
    attempt: u32,
    cancelled: bool,
    result: SegmentDownloadResult,
}

/// Model of `SegmentTask`.
pub struct SegmentTaskView {
    pub url: Seq<char>,
    pub segment_index: u64,
    pub stream_id: Seq<char>,
    pub final_path: Seq<char>,
    pub phase: SegmentPhase,
    /// How often the segment may be tried again.
    pub remaining: i32,
    /// How often it was tried again.
    pub attempt: u32,
    /// Whether the last attempt was stopped by the user.
    pub cancelled: bool,
    /// What the last attempt brought.
    pub result: SegmentDownloadResultView,
}

impl DeepView for SegmentTask {
    type V = SegmentTaskView;

    closed spec fn deep_view(&self) -> SegmentTaskView {
        SegmentTaskView {
            url: self.url@,
            segment_index: self.segment_index,
            stream_id: self.stream_id@,
            final_path: self.final_path@,
            phase: self.phase,
            remaining: self.remaining,
            attempt: self.attempt,
            cancelled: self.cancelled,
            result: self.result.deep_view(),
        }
    }
}

/// A file that was there already.
pub open spec fn existing(path: Seq<char>) -> SegmentDownloadResultView {
    SegmentDownloadResultView {
        actual_file_path: path,
        response_content_length: None,
        actual_content_length: Some(0),
        image_header: false,
        gzip_header: false,
        skipped_existing: true,
    }
}

fn existing_file(path: &str) -> (r: SegmentDownloadResult)
    ensures
        r.deep_view() == existing(path@),
{
    SegmentDownloadResult {
        actual_file_path: owned(path),
        response_content_length: None,
        actual_content_length: Some(0),
        image_header: false,
        gzip_header: false,
        skipped_existing: true,
    }
}

/// The event that a segment is there.
pub open spec fn finished_event(t: SegmentTaskView) -> ProgressEventView {
    ProgressEventView::SegmentFinished { stream_id: t.stream_id, segment_index: t.segment_index }
}

/// The start: the finished file is looked for.
pub open spec fn segment_start(
    s: MediaSegmentView,
    save_path: Seq<char>,
    stream_id: Seq<char>,
    retries: i32,
) -> (SegmentTaskView, SegmentStepView) {
    let t = SegmentTaskView {
        url: s.url,
        segment_index: index_number(s.index),
        stream_id,
        final_path: finished_path(save_path),
        phase: SegmentPhase::LookingForFinal,
        remaining: retries,
        attempt: 0,
        cancelled: false,
        result: existing(finished_path(save_path)),
    };
    (
        t,
        SegmentStepView {
            events: seq![
                ProgressEventView::SegmentStarted {
                    stream_id,
                    segment_index: t.segment_index,
                },
            ],
            counted: 0,
            action: SegmentActionView::LookFor(t.final_path),
        },
    )
}

/// A file was looked for: one that is there is taken and counted; else the decrypted one is looked
/// for, then the segment is fetched.
pub open spec fn segment_looked(t: SegmentTaskView, size: Option<u64>) -> (
    SegmentTaskView,
    SegmentStepView,
) {
    let path = if t.phase == SegmentPhase::LookingForFinal {
        t.final_path
    } else {
        plain_path(t.final_path)
    };
    match size {
        Some(n) => (
            SegmentTaskView { phase: SegmentPhase::Over, ..t },
            SegmentStepView {
                events: seq![finished_event(t)],
                counted: n,
                action: SegmentActionView::Done(existing(path)),
            },
        ),
        None => if t.phase == SegmentPhase::LookingForFinal {
            (
                SegmentTaskView { phase: SegmentPhase::LookingForDecrypted, ..t },
                SegmentStepView {
                    events: Seq::empty(),
                    counted: 0,
                    action: SegmentActionView::LookFor(plain_path(t.final_path)),
                },
            )
        } else {
            (
                SegmentTaskView { phase: SegmentPhase::Fetching, ..t },
                SegmentStepView {
                    events: Seq::empty(),
                    counted: 0,
                    action: SegmentActionView::Fetch,
                },
            )
        },
    }
}

/// The events when a segment is tried again.
pub open spec fn again_events(t: SegmentTaskView, e: ErrorView) -> Seq<ProgressEventView> {
    retry_logs(t.remaining as int, e, t.url, false) + seq![
        ProgressEventView::Log {
            level: LogLevel::Debug,
            message: e.message() + " retryCount: "@ + dec_int(t.remaining as int),
        },
        ProgressEventView::Log {
            level: LogLevel::Debug,
            message: t.url + " "@ + e.display(),
        },
        ProgressEventView::SegmentRetry {
            stream_id: t.stream_id,
            segment_index: t.segment_index,
            retry_attempt: next_attempt(t.attempt),
        },
    ]
}

/// One attempt more, as far as it can be counted.
pub open spec fn next_attempt(n: u32) -> u32 {
    if n == u32::MAX {
        u32::MAX
    } else {
        (n + 1) as u32
    }
}

/// An attempt failed: the segment is tried again after a second where it may be, else given up.
pub open spec fn segment_failed(t: SegmentTaskView, e: ErrorView) -> (
    SegmentTaskView,
    SegmentStepView,
) {
    if t.remaining > 0 {
        (
            SegmentTaskView {
                phase: SegmentPhase::Waiting,
                remaining: (t.remaining - 1) as i32,
                attempt: next_attempt(t.attempt),
                cancelled: e == ErrorView::UserCancelled,
                ..t
            },
            SegmentStepView {
                events: again_events(t, e),
                counted: 0,
                action: SegmentActionView::Wait,
            },
        )
    } else {
        (
            SegmentTaskView { phase: SegmentPhase::Over, ..t },
            SegmentStepView {
                events: retry_logs(0, e, t.url, true),
                counted: 0,
                action: SegmentActionView::Fail(e),
            },
        )
    }
}

/// An attempt brought a file: it gets its final name where it has another.
pub open spec fn segment_brought(t: SegmentTaskView, result: SegmentDownloadResultView) -> (
    SegmentTaskView,
    SegmentStepView,
) {
    if result.actual_file_path != t.final_path {
        (
            SegmentTaskView { phase: SegmentPhase::Renaming, result, ..t },
            SegmentStepView {
                events: Seq::empty(),
                counted: 0,
                action: SegmentActionView::Rename {
                    from: result.actual_file_path,
                    to: t.final_path,
                },
            },
        )
    } else {
        (
            SegmentTaskView { phase: SegmentPhase::Over, result, ..t },
            SegmentStepView {
                events: seq![finished_event(t)],
                counted: 0,
                action: SegmentActionView::Done(result),
            },
        )
    }
}

/// The file has its final name.
pub open spec fn segment_renamed(t: SegmentTaskView) -> (SegmentTaskView, SegmentStepView) {
    (
        SegmentTaskView { phase: SegmentPhase::Over, ..t },
        SegmentStepView {
            events: seq![finished_event(t)],
            counted: 0,
            action: SegmentActionView::Done(
                SegmentDownloadResultView { actual_file_path: t.final_path, ..t.result },
            ),
        },
    )
}

/// A second has passed: the segment is fetched again, but not where the user stopped it.
pub open spec fn segment_waited(t: SegmentTaskView) -> (SegmentTaskView, SegmentStepView) {
    if t.cancelled {
        (
            SegmentTaskView { phase: SegmentPhase::Over, ..t },
            SegmentStepView {
                events: Seq::empty(),
                counted: 0,
                action: SegmentActionView::Fail(ErrorView::UserCancelled),
            },
        )
    } else {
        (
            SegmentTaskView { phase: SegmentPhase::Fetching, ..t },
            SegmentStepView {
                events: Seq::empty(),
                counted: 0,
                action: SegmentActionView::Fetch,
            },
        )
    }
}

/// The state after attempts failed one after the other, with a second between them.
pub open spec fn after_failures(t: SegmentTaskView, errors: Seq<ErrorView>) -> SegmentTaskView
    decreases errors.len(),
{
    if errors.len() == 0 {
        t
    } else {
        let before = after_failures(t, errors.drop_last());
        let failed = segment_failed(before, errors.last()).0;
        if failed.phase == SegmentPhase::Waiting {
            segment_waited(failed).0
        } else {
            failed
        }
    }
}

/// A segment is fetched once more than it may be tried again, if every attempt fails and the user
/// does not stop it, and no more often.
pub proof fn law_attempts_are_bounded(t: SegmentTaskView, errors: Seq<ErrorView>)
    requires
        t.phase == SegmentPhase::Fetching,
        t.remaining >= 0,
        errors.len() <= t.remaining + 1,
        forall|i: int| 0 <= i < errors.len() ==> #[trigger] errors[i] != ErrorView::UserCancelled,
    ensures
        errors.len() <= t.remaining ==> after_failures(t, errors).phase == SegmentPhase::Fetching
            && after_failures(t, errors).remaining == t.remaining - errors.len(),
        errors.len() == t.remaining + 1 ==> after_failures(t, errors).phase == SegmentPhase::Over,
    decreases errors.len(),
{
    if errors.len() > 0 {
        law_attempts_are_bounded(t, errors.drop_last());
    }
}

fn step(events: Vec<ProgressEvent>, counted: u64, action: SegmentAction) -> (r: SegmentStep)
    ensures
        r.deep_view() == (SegmentStepView {
            events: events.deep_view(),
            counted,
            action: action.deep_view(),
        }),
{
    SegmentStep { events, counted, action }
}

fn quiet(action: SegmentAction) -> (r: SegmentStep)
    ensures
        r.deep_view() == (SegmentStepView {
            events: Seq::empty(),
            counted: 0,
            action: action.deep_view(),
        }),
{
    let events: Vec<ProgressEvent> = Vec::new();
    assert(events.deep_view() =~= Seq::<ProgressEventView>::empty());
    SegmentStep { events, counted: 0, action }
}

impl SegmentTask {
    fn finished(&self) -> (r: Vec<ProgressEvent>)
        ensures
            r.deep_view() == seq![finished_event(self.deep_view())],
    {
        let mut events: Vec<ProgressEvent> = Vec::new();
        events.push(
            ProgressEvent::SegmentFinished {
                stream_id: self.stream_id.clone(),
                segment_index: self.segment_index,
            },
        );
        assert(events.deep_view() =~= seq![finished_event(self.deep_view())]);
        events
    }

    /// What the task waits for.
    pub fn phase(&self) -> (r: SegmentPhase)
        ensures
            r == self.deep_view().phase,
    {
        self.phase
    }

    /// Begins to fetch a segment into a file, which may be tried again so often.
    pub fn start(segment: &MediaSegment, save_path: &str, stream_id: &str, retries: i32) -> (r: (
        Self,
        SegmentStep,
    ))
        ensures
            (r.0.deep_view(), r.1.deep_view()) == segment_start(
                segment.deep_view(),
                save_path@,
                stream_id@,
                retries,
            ),
    {
        let final_path: String = remove_tmp_extension(save_path);
        let segment_index: u64 = number_of_index(segment.index);
        let mut events: Vec<ProgressEvent> = Vec::new();
        events.push(
            ProgressEvent::SegmentStarted { stream_id: owned(stream_id), segment_index },
        );
        assert(events.deep_view() =~= seq![
            ProgressEventView::SegmentStarted { stream_id: stream_id@, segment_index },
        ]);
        let action: SegmentAction = SegmentAction::LookFor(final_path.clone());
        let result: SegmentDownloadResult = existing_file(final_path.as_str());
        let task: SegmentTask = SegmentTask {
            url: segment.url.clone(),
            segment_index,
            stream_id: owned(stream_id),
            final_path,
            phase: SegmentPhase::LookingForFinal,
            remaining: retries,
            attempt: 0,
            cancelled: false,
            result,
        };
        (task, step(events, 0, action))
    }

    /// Takes the length of the file that was looked for; none where there is no file.
    pub fn looked(&mut self, size: Option<u64>) -> (r: SegmentStep)
        requires
            old(self).deep_view().phase == SegmentPhase::LookingForFinal || old(
                self,
            ).deep_view().phase == SegmentPhase::LookingForDecrypted,
        ensures
            (final(self).deep_view(), r.deep_view()) == segment_looked(old(self).deep_view(), size),
    {
        let first: bool = match self.phase {
            SegmentPhase::LookingForFinal => true,
            _ => false,
        };
        match size {
            Some(n) => {
                let path: String = if first {
                    self.final_path.clone()
                } else {
                    decrypted_path(self.final_path.as_str())
                };
                let events: Vec<ProgressEvent> = self.finished();
                self.phase = SegmentPhase::Over;
                step(events, n, SegmentAction::Done(existing_file(path.as_str())))
            },
            None => {
                if first {
                    self.phase = SegmentPhase::LookingForDecrypted;
                    quiet(SegmentAction::LookFor(decrypted_path(self.final_path.as_str())))
                } else {
                    self.phase = SegmentPhase::Fetching;
                    quiet(SegmentAction::Fetch)
                }
            },
        }
    }

    fn again(&self, e: &Error) -> (r: Vec<ProgressEvent>)
        ensures
            r.deep_view() == again_events(self.deep_view(), e.deep_view()),
    {
        let mut events: Vec<ProgressEvent> = Vec::new();
        push_retry_extra_logs(&mut events, self.remaining, e, self.url.as_str(), false);
        let ghost logs = retry_logs(
            self.remaining as int,
            e.deep_view(),
            self.url@,
            false,
        );
        assert(events.deep_view() =~= logs);
        let number: String = i64_text(self.remaining as i64);
        let bare: String = e.compatibility_message();
        let first: String = cat3(bare.as_str(), " retryCount: ", number.as_str());
        let shown: String = e.display();
        let second: String = cat3(self.url.as_str(), " ", shown.as_str());
        let attempt: u32 = if self.attempt == u32::MAX {
            u32::MAX
        } else {
            self.attempt + 1
        };
        let ghost all = again_events(self.deep_view(), e.deep_view());
        events.push(ProgressEvent::Log { level: LogLevel::Debug, message: first });
        events.push(ProgressEvent::Log { level: LogLevel::Debug, message: second });
        events.push(
            ProgressEvent::SegmentRetry {
                stream_id: self.stream_id.clone(),
                segment_index: self.segment_index,
                retry_attempt: attempt,
            },
        );
        assert(events.deep_view() =~= all);
        events
    }

    /// Takes what an attempt brought.
    pub fn fetched(&mut self, outcome: Result<SegmentDownloadResult>) -> (r: SegmentStep)
        requires
            old(self).deep_view().phase == SegmentPhase::Fetching,
        ensures
            match outcome {
                Ok(result) => (final(self).deep_view(), r.deep_view()) == segment_brought(
                    old(self).deep_view(),
                    result.deep_view(),
                ),
                Err(e) => (final(self).deep_view(), r.deep_view()) == segment_failed(
                    old(self).deep_view(),
                    e.deep_view(),
                ),
            },
    {
        match outcome {
            Ok(result) => {
                if !same(result.actual_file_path.as_str(), self.final_path.as_str()) {
                    let action: SegmentAction = SegmentAction::Rename {
                        from: result.actual_file_path.clone(),
                        to: self.final_path.clone(),
                    };
                    self.result = result;
                    self.phase = SegmentPhase::Renaming;
                    return quiet(action);
                }
                let events: Vec<ProgressEvent> = self.finished();
                self.result = result.clone();
                self.phase = SegmentPhase::Over;
                step(events, 0, SegmentAction::Done(result))
            },
            Err(e) => {
                if self.remaining > 0 {
                    let events: Vec<ProgressEvent> = self.again(&e);
                    self.remaining = self.remaining - 1;
                    if self.attempt < u32::MAX {
                        self.attempt = self.attempt + 1;
                    }
                    self.cancelled = match &e {
                        Error::UserCancelled => true,
                        _ => false,
                    };
                    self.phase = SegmentPhase::Waiting;
                    return step(events, 0, SegmentAction::Wait);
                }
                let mut events: Vec<ProgressEvent> = Vec::new();
                push_retry_extra_logs(&mut events, 0, &e, self.url.as_str(), true);
                assert(events.deep_view() =~= retry_logs(0, e.deep_view(), self.url@, true));
                self.phase = SegmentPhase::Over;
                step(events, 0, SegmentAction::Fail(e))
            },
        }
    }

    /// Goes on when the file has its final name.
    pub fn renamed(&mut self) -> (r: SegmentStep)
        requires
            old(self).deep_view().phase == SegmentPhase::Renaming,
        ensures
            (final(self).deep_view(), r.deep_view()) == segment_renamed(old(self).deep_view()),
    {
        let events: Vec<ProgressEvent> = self.finished();
        let mut result: SegmentDownloadResult = self.result.clone();
        result.actual_file_path = self.final_path.clone();
        self.phase = SegmentPhase::Over;
        step(events, 0, SegmentAction::Done(result))
    }

    /// Goes on when a second has passed.
    pub fn waited(&mut self) -> (r: SegmentStep)
        requires
            old(self).deep_view().phase == SegmentPhase::Waiting,
        ensures
            (final(self).deep_view(), r.deep_view()) == segment_waited(old(self).deep_view()),
    {
        if self.cancelled {
            self.phase = SegmentPhase::Over;
            quiet(SegmentAction::Fail(Error::UserCancelled))
        } else {
            self.phase = SegmentPhase::Fetching;
            quiet(SegmentAction::Fetch)
        }
    }
}

/// What a response for a segment calls for.
#[derive(Debug)]
pub enum FetchAction {
    /// The request is made again for the present URL.
    Resend,
    /// The body is read.
    Read,
    /// The attempt has failed.
    Fail(Error),
}

/// Model of `FetchAction`.
pub enum FetchActionView {
    Resend,
    Read,
    Fail(ErrorView),
}

impl DeepView for FetchAction {
    type V = FetchActionView;

    open spec fn deep_view(&self) -> FetchActionView {
        match self {
            FetchAction::Resend => FetchActionView::Resend,
            FetchAction::Read => FetchActionView::Read,
            FetchAction::Fail(e) => FetchActionView::Fail(e.deep_view()),
        }
    }
}

/// One attempt to fetch a segment from a server.
#[derive(Debug)]
pub struct HttpFetch {
    url: String,
    content_length: Option<u64>,
    probe: Option<Vec<u8>>,
}

/// Model of `HttpFetch`.
pub struct HttpFetchView {
    /// The URL that is asked for.
    pub url: Seq<char>,
    /// How many bytes were announced.
    pub content_length: Option<u64>,
    /// The first bytes that came.
    pub probe: Option<Seq<u8>>,
}

impl DeepView for HttpFetch {
    type V = HttpFetchView;

    closed spec fn deep_view(&self) -> HttpFetchView {
        HttpFetchView {
            url: self.url@,
            content_length: self.content_length,
            probe: match self.probe {
                Some(b) => Some(b@),
                None => None,
            },
        }
    }
}

/// The URL to which a response for a segment redirects, where that is another than it came from.
pub open spec fn fetch_redirect(url: Seq<char>, status: u16, location: Option<Seq<char>>) -> Option<
    Seq<char>,
> {
    match location {
        Some(l) => if 300 <= status <= 399 && segment_redirect(url, l) != url {
            Some(segment_redirect(url, l))
        } else {
            None
        },
        None => None,
    }
}

/// A message for those who look for faults.
pub open spec fn debug_log(message: Seq<char>) -> ProgressEventView {
    ProgressEventView::Log { level: LogLevel::Debug, message }
}

/// A number of bytes that was announced.
pub open spec fn announced_length(text: Option<Seq<char>>) -> Option<u64> {
    match text {
        Some(t) => match parse_unsigned(t, u64::MAX as int) {
            Some(n) => Some(n as u64),
            None => None,
        },
        None => None,
    }
}

/// What follows from a response: a redirect is followed and told, an error ends the attempt, and of
/// a success the body is read.
pub open spec fn fetch_answered(
    f: HttpFetchView,
    s: MediaSegmentView,
    request: Seq<(Seq<char>, Seq<char>)>,
    status: u16,
    location: Option<Seq<char>>,
    response: Seq<(Seq<char>, Seq<char>)>,
    content_length: Option<Seq<char>>,
) -> (HttpFetchView, Seq<ProgressEventView>, FetchActionView) {
    match fetch_redirect(f.url, status, location) {
        Some(next) => {
            let told = debug_log(trim_end(listed_headers(response, response.len() as int)));
            match segment_fetch_message(s, next, request) {
                Ok(message) => (
                    HttpFetchView { url: next, ..f },
                    seq![told, debug_log(message)],
                    FetchActionView::Resend,
                ),
                Err(e) => (
                    HttpFetchView { url: next, ..f },
                    seq![told],
                    FetchActionView::Fail(e),
                ),
            }
        },
        None => if 200 <= status <= 299 {
            (
                HttpFetchView { content_length: announced_length(content_length), ..f },
                Seq::empty(),
                FetchActionView::Read,
            )
        } else {
            (
                f,
                Seq::empty(),
                FetchActionView::Fail(
                    ErrorView::Http("HTTP status "@ + dec(status as nat) + " for "@ + f.url),
                ),
            )
        },
    }
}

/// The first bytes of a chunk.
pub open spec fn head_of(chunk: Seq<u8>) -> Seq<u8> {
    if chunk.len() > 16_384 {
        chunk.subrange(0, 16_384)
    } else {
        chunk
    }
}

/// The first bytes that came, filled up with zeros.
pub open spec fn padded_probe(probe: Option<Seq<u8>>) -> Seq<u8> {
    match probe {
        Some(b) => b + zeros((16_384 - b.len()) as nat),
        None => zeros(16_384),
    }
}

/// What follows from the speed at one moment.
#[derive(Debug)]
pub enum PaceStep {
    /// A millisecond passes, then the speed is looked at again.
    Wait,
    /// The attempt has failed, which is told.
    Cancel(ProgressEvent, Error),
    /// The progress is told, and more is read.
    Go(ProgressEvent),
}

/// Model of `PaceStep`.
pub enum PaceStepView {
    Wait,
    Cancel(ProgressEventView, ErrorView),
    Go(ProgressEventView),
}

impl DeepView for PaceStep {
    type V = PaceStepView;

    open spec fn deep_view(&self) -> PaceStepView {
        match self {
            PaceStep::Wait => PaceStepView::Wait,
            PaceStep::Cancel(p, e) => PaceStepView::Cancel(p.deep_view(), e.deep_view()),
            PaceStep::Go(p) => PaceStepView::Go(p.deep_view()),
        }
    }
}

/// The end of an attempt that is too slow.
pub open spec fn too_slow() -> PaceStepView {
    PaceStepView::Cancel(
        debug_log("Cancel..."@),
        ErrorView::Http("download speed too slow"@),
    )
}

/// What follows from the speed after bytes came.
pub open spec fn paced(s: SpeedStateView, now: u64, id: Seq<char>, index: i64, total: Option<u64>) -> (
    SpeedStateView,
    PaceStepView,
) {
    let at = ticked(s, now);
    if crate::download::over_limit(at) {
        (at, PaceStepView::Wait)
    } else {
        let again = ticked(at, now);
        if again.low_speed_count >= 20 {
            (SpeedStateView { low_speed_count: 0, ..again }, too_slow())
        } else {
            let then_state = ticked(again, now);
            (
                then_state,
                PaceStepView::Go(segment_progress_event(id, index, reading_of(then_state), total)),
            )
        }
    }
}

fn cancel_slow() -> (r: PaceStep)
    ensures
        r.deep_view() == too_slow(),
{
    PaceStep::Cancel(
        ProgressEvent::Log { level: LogLevel::Debug, message: owned("Cancel...") },
        Error::http("download speed too slow"),
    )
}

impl HttpFetch {
    /// No more of the first bytes is kept than is looked at.
    pub open spec fn wf(&self) -> bool {
        match self.deep_view().probe {
            Some(b) => b.len() <= 16_384,
            None => true,
        }
    }

    /// An attempt to fetch a segment.
    pub fn new(segment: &MediaSegment) -> (r: Self)
        ensures
            r.wf(),
            r.deep_view() == (HttpFetchView {
                url: segment.deep_view().url,
                content_length: None,
                probe: None,
            }),
    {
        HttpFetch { url: segment.url.clone(), content_length: None, probe: None }
    }

    /// The URL that is asked for.
    pub fn url(&self) -> (r: &str)
        ensures
            r@ == self.deep_view().url,
    {
        self.url.as_str()
    }

    fn find_redirect(&self, status: u16, location: Option<&str>) -> (r: Option<String>)
        ensures
            r.deep_view() == fetch_redirect(self.deep_view().url, status, opt(location)),
    {
        match location {
            Some(l) => {
                if 300 <= status && status <= 399 {
                    let next: String = resolve_segment_redirect(self.url.as_str(), l);
                    if !same(next.as_str(), self.url.as_str()) {
                        return Some(next);
                    }
                }
                None
            },
            None => None,
        }
    }

    /// Takes a response.
    pub fn answered(
        &mut self,
        segment: &MediaSegment,
        request: &TextMap<String>,
        status: u16,
        location: Option<&str>,
        response: &Vec<(String, String)>,
        content_length: Option<&str>,
    ) -> (r: (Vec<ProgressEvent>, FetchAction))
        requires
            old(self).wf(),
        ensures
            final(self).wf(),
            (final(self).deep_view(), r.0.deep_view(), r.1.deep_view()) == fetch_answered(
                old(self).deep_view(),
                segment.deep_view(),
                request.deep_view(),
                status,
                opt(location),
                response.deep_view(),
                opt(content_length),
            ),
    {
        let mut events: Vec<ProgressEvent> = Vec::new();
        assert(events.deep_view() =~= Seq::<ProgressEventView>::empty());
        match self.find_redirect(status, location) {
            Some(next) => {
                let told: String = format_response_headers(response);
                let ghost one = debug_log(told@);
                events.push(ProgressEvent::Log { level: LogLevel::Debug, message: told });
                assert(events.deep_view() =~= seq![one]);
                let message: Result<String> = format_segment_fetch_debug_message_for_url(
                    segment,
                    next.as_str(),
                    request,
                );
                self.url = next;
                match message {
                    Ok(text) => {
                        let ghost two = debug_log(text@);
                        events.push(ProgressEvent::Log { level: LogLevel::Debug, message: text });
                        assert(events.deep_view() =~= seq![one, two]);
                        (events, FetchAction::Resend)
                    },
                    Err(e) => (events, FetchAction::Fail(e)),
                }
            },
            None => {
                if 200 <= status && status <= 299 {
                    self.content_length = match content_length {
                        Some(t) => parse_u64_text(t),
                        None => None,
                    };
                    return (events, FetchAction::Read);
                }
                let number: String = u64_text(status as u64);
                let message: String = cat4(
                    "HTTP status ",
                    number.as_str(),
                    " for ",
                    self.url.as_str(),
                );
                (events, FetchAction::Fail(Error::http(message.as_str())))
            },
        }
    }

    /// Takes a chunk of the body, which is written to the file. Gives whether more is read: an empty
    /// chunk ends the body.
    pub fn received(&mut self, chunk: &Vec<u8>, speed: &mut SpeedState) -> (r: bool)
        requires
            old(self).wf(),
        ensures
            final(self).wf(),
            r == (chunk@.len() > 0),
            final(self).deep_view() == if chunk@.len() > 0 && old(self).deep_view().probe is None {
                HttpFetchView { probe: Some(head_of(chunk@)), ..old(self).deep_view() }
            } else {
                old(self).deep_view()
            },
            final(speed).view() == if chunk@.len() > 0 {
                crate::download::with_bytes(old(speed).view(), chunk@.len() as u64)
            } else {
                old(speed).view()
            },
    {
        let size: usize = chunk.len();
        if size == 0 {
            return false;
        }
        if self.probe.is_none() {
            let n: usize = if size > 16_384 {
                16_384
            } else {
                size
            };
            let mut head: Vec<u8> = Vec::new();
            let mut i: usize = 0;
            while i < n
                invariant
                    i <= n <= chunk@.len(),
                    head@ =~= chunk@.subrange(0, i as int),
                decreases n - i,
            {
                head.push(chunk[i]);
                i = i + 1;
            }
            assert(head@ =~= head_of(chunk@));
            self.probe = Some(head);
        }
        speed.add(size as u64);
        true
    }

    /// What follows from the speed after bytes came.
    pub fn pace(&self, speed: &mut SpeedState, now: u64, stream_id: &str, segment_index: i64) -> (r:
        PaceStep)
        ensures
            (final(speed).view(), r.deep_view()) == paced(
                old(speed).view(),
                now,
                stream_id@,
                segment_index,
                self.deep_view().content_length,
            ),
    {
        if speed.must_wait(now) {
            return PaceStep::Wait;
        }
        if speed.must_cancel(now) {
            return cancel_slow();
        }
        PaceStep::Go(segment_progress(stream_id, segment_index, speed, self.content_length, now))
    }

    /// What follows when nothing came for a second: the attempt ends where that has happened too
    /// often.
    pub fn timed_out(&self, speed: &mut SpeedState, now: u64) -> (r: Option<PaceStep>)
        ensures
            ({
                let at = ticked(old(speed).view(), now);
                if at.low_speed_count >= 20 {
                    r is Some && r->0.deep_view() == too_slow() && final(speed).view() == (
                    SpeedStateView { low_speed_count: 0, ..at })
                } else {
                    r is None && final(speed).view() == at
                }
            }),
    {
        if speed.must_cancel(now) {
            Some(cancel_slow())
        } else {
            None
        }
    }

    /// What came of the attempt, of which a file of a length is left.
    pub fn finish(&self, save_path: &str, actual: u64) -> (r: SegmentDownloadResult)
        requires
            self.wf(),
        ensures
            r.deep_view() == (SegmentDownloadResultView {
                actual_file_path: save_path@,
                response_content_length: self.deep_view().content_length,
                actual_content_length: Some(actual),
                image_header: has_image_header(padded_probe(self.deep_view().probe)),
                gzip_header: has_gzip_header(padded_probe(self.deep_view().probe)),
                skipped_existing: false,
            }),
    {
        let mut probe: Vec<u8> = Vec::new();
        match &self.probe {
            Some(b) => {
                crate::boxes::push_all(&mut probe, b.as_slice());
                assert(probe@ =~= b@);
                crate::boxes::push_zeros(&mut probe, 16_384 - b.len());
            },
            None => {
                crate::boxes::push_zeros(&mut probe, 16_384);
                assert(probe@ =~= zeros(16_384));
            },
        }
        SegmentDownloadResult {
            actual_file_path: owned(save_path),
            response_content_length: self.content_length,
            actual_content_length: Some(actual),
            image_header: is_image_header(&probe),
            gzip_header: is_gzip_header(&probe),
            skipped_existing: false,
        }
    }
}

} // verus!
