//! Requests for downloads.

use crate::cancellation::CancellationToken;
use crate::config::{DownloadOptions, DownloadOptionsView};
use crate::error::{Error, ErrorView, Result};
use crate::event::ProgressEvent;
use crate::manifest::StreamSelector;
use crate::text::{owned, trim, trimmed};
use vstd::prelude::*;

verus! {

/// Takes requests.
#[derive(Clone, Copy, Debug)]
pub struct DownloadClient;

/// A request that names an input can be taken.
pub open spec fn is_prepared(input: Seq<char>) -> bool {
    trim(input).len() > 0
}

impl DownloadClient {
    /// A client.
    pub fn new() -> Self {
        DownloadClient
    }

    /// Takes a request that names an input, as it is.
    pub fn prepare<F>(&self, request: DownloadRequest<F>) -> (r: Result<DownloadRequest<F>>)
        ensures
            match r {
                Ok(taken) => is_prepared(request.deep_view().input) && taken == request,
                Err(e) => !is_prepared(request.deep_view().input) && e.deep_view()
                    == ErrorView::Config("input must not be empty"@),
            },
    {
        if trimmed(request.input.as_str()).unicode_len() == 0 {
            return Err(Error::config("input must not be empty"));
        }
        Ok(request)
    }
}

/// What is told of each event.
#[derive(Clone, Copy, Debug)]
pub struct ProgressCallback<F> {
    pub callback: F,
}

impl<F: Fn(&ProgressEvent) -> Result<()>> ProgressCallback<F> {
    /// Tells a function of each event.
    pub fn new(callback: F) -> (r: Self)
        ensures
            r.callback == callback,
    {
        ProgressCallback { callback }
    }

    /// Tells of an event; what the function returns is returned.
    pub fn emit(&self, event: &ProgressEvent) -> (r: Result<()>)
        requires
            self.callback.requires((event,)),
        ensures
            self.callback.ensures((event,), r),
    {
        (self.callback)(event)
    }
}

/// A download that was asked for, and what is told of its events.
#[derive(Debug)]
pub struct DownloadRequest<F> {
    pub input: String,
    pub options: DownloadOptions,
    pub stream_selector: StreamSelector,
    pub cancellation_token: CancellationToken,
    pub progress_callback: Option<ProgressCallback<F>>,
}

/// Which streams are asked for.
pub enum SelectorView {
    Interactive,
    Auto,
    SubtitlesOnly,
    ExplicitIds(Seq<Seq<char>>),
}

/// Model of a stream selector.
pub open spec fn selector_view(s: StreamSelector) -> SelectorView {
    match s {
        StreamSelector::Interactive => SelectorView::Interactive,
        StreamSelector::Auto => SelectorView::Auto,
        StreamSelector::SubtitlesOnly => SelectorView::SubtitlesOnly,
        StreamSelector::ExplicitIds(ids) => SelectorView::ExplicitIds(ids.deep_view()),
    }
}

/// Model of what a `DownloadRequest` asks for; whom it tells and what stops it are stated apart.
pub struct DownloadRequestView {
    pub input: Seq<char>,
    pub options: DownloadOptionsView,
    pub stream_selector: SelectorView,
}

impl<F> DeepView for DownloadRequest<F> {
    type V = DownloadRequestView;

    open spec fn deep_view(&self) -> DownloadRequestView {
        DownloadRequestView {
            input: self.input@,
            options: self.options.deep_view(),
            stream_selector: selector_view(self.stream_selector),
        }
    }
}

impl DownloadRequest<()> {
    /// A request with given options, an interactive choice of streams and a new flag that stops it, of
    /// which nobody is told.
    pub fn new(input: &str, options: DownloadOptions) -> (r: Self)
        ensures
            r.deep_view() == (DownloadRequestView {
                input: input@,
                options: options.deep_view(),
                stream_selector: SelectorView::Interactive,
            }),
            r.options == options,
            call_ensures(CancellationToken::new, (), r.cancellation_token),
            r.progress_callback is None,
    {
        DownloadRequest {
            input: owned(input),
            options,
            stream_selector: StreamSelector::Interactive,
            cancellation_token: CancellationToken::new(),
            progress_callback: None,
        }
    }
}

impl<F> DownloadRequest<F> {
    /// The request with other options.
    pub fn with_options(self, options: DownloadOptions) -> (r: Self)
        ensures
            r.deep_view() == (DownloadRequestView {
                options: options.deep_view(),
                ..self.deep_view()
            }),
            r.options == options,
            r.cancellation_token == self.cancellation_token,
            r.progress_callback == self.progress_callback,
    {
        DownloadRequest {
            input: self.input,
            options,
            stream_selector: self.stream_selector,
            cancellation_token: self.cancellation_token,
            progress_callback: self.progress_callback,
        }
    }

    /// The request with another choice of streams.
    pub fn with_stream_selector(self, stream_selector: StreamSelector) -> (r: Self)
        ensures
            r.deep_view() == (DownloadRequestView {
                stream_selector: selector_view(stream_selector),
                ..self.deep_view()
            }),
            r.options == self.options,
            r.cancellation_token == self.cancellation_token,
            r.progress_callback == self.progress_callback,
    {
        DownloadRequest {
            input: self.input,
            options: self.options,
            stream_selector,
            cancellation_token: self.cancellation_token,
            progress_callback: self.progress_callback,
        }
    }

    /// The request with another flag that stops it.
    pub fn with_cancellation_token(self, cancellation_token: CancellationToken) -> (r: Self)
        ensures
            r.deep_view() == self.deep_view(),
            r.options == self.options,
            r.cancellation_token == cancellation_token,
            r.progress_callback == self.progress_callback,
    {
        DownloadRequest {
            input: self.input,
            options: self.options,
            stream_selector: self.stream_selector,
            cancellation_token,
            progress_callback: self.progress_callback,
        }
    }

    /// The request with another function that is told of its events.
    pub fn with_progress_callback<G>(self, progress_callback: ProgressCallback<G>) -> (r:
        DownloadRequest<G>)
        ensures
            r.deep_view() == self.deep_view(),
            r.options == self.options,
            r.cancellation_token == self.cancellation_token,
            r.progress_callback == Some(progress_callback),
    {
        DownloadRequest {
            input: self.input,
            options: self.options,
            stream_selector: self.stream_selector,
            cancellation_token: self.cancellation_token,
            progress_callback: Some(progress_callback),
        }
    }
}

/// Records a live stream.
#[derive(Debug)]
pub struct LiveRecorder<F> {
    request: DownloadRequest<F>,
}

impl<F> LiveRecorder<F> {
    /// The request that is carried out.
    pub closed spec fn asked(&self) -> DownloadRequest<F> {
        self.request
    }

    /// A recorder for a request.
    pub fn new(request: DownloadRequest<F>) -> (r: Self)
        ensures
            r.asked() == request,
    {
        LiveRecorder { request }
    }

    /// The request.
    pub fn request(&self) -> (r: &DownloadRequest<F>)
        ensures
            *r == self.asked(),
    {
        &self.request
    }

    /// Takes the request for recording.
    pub fn start(self) -> (r: Result<DownloadRequest<F>>)
        ensures
            match r {
                Ok(taken) => is_prepared(self.asked().deep_view().input) && taken == self.asked(),
                Err(e) => !is_prepared(self.asked().deep_view().input) && e.deep_view()
                    == ErrorView::Config("input must not be empty"@),
            },
    {
        DownloadClient::new().prepare(self.request)
    }
}

} // verus!
