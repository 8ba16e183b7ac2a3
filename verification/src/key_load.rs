//! Loading the key that a key line of a playlist names.

use crate::codec::{base64_decode, decode_base64};
use crate::config::LogLevel;
use crate::download::file_uri_to_path;
use crate::path::{LocalPath, LocalPathView};
use crate::error::{view_result, Error, ErrorView, Result};
use crate::http::HttpResponse;
use crate::manifest::{ExtractorType, KeySource};
use crate::processor::{
    bytes_to_spaced_hex, format_source_http_request_headers, header_lines, inline_key, inline_part,
    key_line_notes, key_line_of, key_retry_note, key_retry_text, note, read_key_line,
    resolve_url_with, resolved_url, spaced_hex, DefaultUrlProcessor, KeyLine, KeyLineView,
    LoadedKey, LoadedKeyView, ParserConfig, ParserConfigView, ParserDiagnosticView,
    ParserDiagnostics,
};
use crate::text::{begins_with, cat2, join, owned, starts_with};
use vstd::prelude::*;

verus! {

/// How far the loading of a key is.
#[derive(Clone, Copy, Debug, PartialEq, Eq, Structural)]
pub enum KeyPlace {
    New,
    AtUri,
    AtUrl,
    Reading,
    Fetching,
    Waiting,
    Ended,
}

/// A key that is being loaded.
#[derive(Debug)]
pub struct KeyLoad {
    uri: String,
    manifest_url: String,
    url: String,
    retry_count: u32,
    attempt: u32,
    place: KeyPlace,
    windows: bool,
}

/// Model of `KeyLoad`.
pub struct KeyLoadView {
    /// As the key line names the key.
    pub uri: Seq<char>,
    pub manifest_url: Seq<char>,
    /// The URI as it is resolved.
    pub url: Seq<char>,
    pub retry_count: u32,
    /// How many requests have failed.
    pub attempt: u32,
    pub place: KeyPlace,
    /// Paths are those of Windows.
    pub windows: bool,
}

impl DeepView for KeyLoad {
    type V = KeyLoadView;

    closed spec fn deep_view(&self) -> KeyLoadView {
        KeyLoadView {
            uri: self.uri@,
            manifest_url: self.manifest_url@,
            url: self.url@,
            retry_count: self.retry_count,
            attempt: self.attempt,
            place: self.place,
            windows: self.windows,
        }
    }
}

/// What is done next.
#[derive(Debug)]
pub enum KeyAction {
    /// Whether there is something at a path is found out.
    Look(String),
    /// The file at a path is read.
    Read(LocalPath),
    /// A URL is asked for.
    Fetch(String),
    /// Some milliseconds pass.
    Wait(u64),
    /// The loading has ended.
    Done(LoadedKey),
}

/// Model of `KeyAction`.
pub enum KeyActionView {
    Look(Seq<char>),
    Read(LocalPathView),
    Fetch(Seq<char>),
    Wait(u64),
    Done(LoadedKeyView),
}

impl DeepView for KeyAction {
    type V = KeyActionView;

    open spec fn deep_view(&self) -> KeyActionView {
        match self {
            KeyAction::Look(p) => KeyActionView::Look(p@),
            KeyAction::Read(p) => KeyActionView::Read(p.deep_view()),
            KeyAction::Fetch(u) => KeyActionView::Fetch(u@),
            KeyAction::Wait(n) => KeyActionView::Wait(*n),
            KeyAction::Done(k) => KeyActionView::Done(k.deep_view()),
        }
    }
}

/// A state, what is done next and the messages on the way.
pub struct KeyStepView {
    pub state: KeyLoadView,
    pub action: KeyActionView,
    pub notes: Seq<ParserDiagnosticView>,
}

/// The loading has ended.
pub open spec fn ended(t: KeyLoadView, key: LoadedKeyView, notes: Seq<ParserDiagnosticView>) -> KeyStepView {
    KeyStepView {
        state: KeyLoadView { place: KeyPlace::Ended, ..t },
        action: KeyActionView::Done(key),
        notes,
    }
}

/// The loading has failed.
pub open spec fn failed(t: KeyLoadView, e: ErrorView) -> KeyStepView {
    ended(t, LoadedKeyView::Failed { message: e.message() }, Seq::empty())
}

/// The first step: a key in the URI itself is there, any other is looked for at the URI.
pub open spec fn begun(t: KeyLoadView) -> KeyStepView {
    match inline_key(t.uri) {
        Some(text) => match base64_decode(text) {
            Ok(bytes) => ended(
                t,
                LoadedKeyView::Key { bytes, source: KeySource::Inline },
                Seq::empty(),
            ),
            Err(e) => failed(t, ErrorView::Config(e)),
        },
        None => KeyStepView {
            state: KeyLoadView { place: KeyPlace::AtUri, ..t },
            action: KeyActionView::Look(t.uri),
            notes: Seq::empty(),
        },
    }
}

/// A file is read.
pub open spec fn reading(t: KeyLoadView, path: LocalPathView, notes: Seq<ParserDiagnosticView>) -> KeyStepView {
    KeyStepView {
        state: KeyLoadView { place: KeyPlace::Reading, ..t },
        action: KeyActionView::Read(path),
        notes,
    }
}

/// The URL is asked for.
pub open spec fn fetching(t: KeyLoadView, config: ParserConfigView) -> KeyStepView {
    KeyStepView {
        state: KeyLoadView { place: KeyPlace::Fetching, ..t },
        action: KeyActionView::Fetch(t.url),
        notes: seq![
            note(LogLevel::Debug, "Fetch: "@ + t.url),
            note(LogLevel::Debug, join(header_lines(config.headers), "\n"@)),
        ],
    }
}

/// The step once it is known whether there is something at the path. The path that the URL of a file
/// names is given.
pub open spec fn looked(
    t: KeyLoadView,
    found: bool,
    config: ParserConfigView,
    file: LocalPathView,
) -> KeyStepView {
    if t.place == KeyPlace::AtUri {
        if found {
            reading(t, LocalPathView::Text(t.uri), Seq::empty())
        } else {
            match resolved_url(
                DefaultUrlProcessor,
                ExtractorType::Hls,
                t.uri,
                t.manifest_url,
                config,
                0,
            ) {
                Err(e) => failed(t, e),
                Ok((url, notes)) => {
                    let u = KeyLoadView { url, ..t };
                    if starts_with(url, "file:"@) {
                        reading(u, file, notes)
                    } else {
                        KeyStepView {
                            state: KeyLoadView { place: KeyPlace::AtUrl, ..u },
                            action: KeyActionView::Look(url),
                            notes,
                        }
                    }
                },
            }
        }
    } else if found {
        reading(t, LocalPathView::Text(t.url), Seq::empty())
    } else {
        fetching(t, config)
    }
}

/// The key is at the URL of a file.
pub open spec fn names_file(t: KeyLoadView, found: bool, config: ParserConfigView) -> bool {
    t.place == KeyPlace::AtUri && !found && match resolved_url(
        DefaultUrlProcessor,
        ExtractorType::Hls,
        t.uri,
        t.manifest_url,
        config,
        0,
    ) {
        Ok((url, _)) => starts_with(url, "file:"@),
        Err(_) => false,
    }
}

/// A path is the one that the URL of a file names on this system.
pub open spec fn is_path_of(url: Seq<char>, windows: bool, path: LocalPath) -> bool {
    exists|text: &str|
        text@ == url && #[trigger] call_ensures(file_uri_to_path, (text, windows), path)
}

/// How often the URL is asked for at most.
pub open spec fn attempts(retry_count: u32) -> int {
    if retry_count == u32::MAX {
        u32::MAX as int
    } else {
        retry_count + 1
    }
}

/// The step after a response.
pub open spec fn answered(t: KeyLoadView, logs: Seq<Seq<char>>, body: Seq<u8>) -> KeyStepView {
    ended(
        t,
        LoadedKeyView::Key { bytes: body, source: KeySource::Uri },
        logs.map_values(|m: Seq<char>| note(LogLevel::Debug, m)).push(
            note(LogLevel::Debug, spaced_hex(body)),
        ),
    )
}

/// The step after a request that failed: there is another one after a second, unless there were
/// enough.
pub open spec fn refused(t: KeyLoadView, e: ErrorView) -> KeyStepView {
    let notes = match key_retry_text(e.message(), t.retry_count, t.attempt) {
        Some(text) => seq![note(LogLevel::Warn, text)],
        None => Seq::empty(),
    };
    if t.attempt + 1 < attempts(t.retry_count) {
        KeyStepView {
            state: KeyLoadView {
                place: KeyPlace::Waiting,
                attempt: (t.attempt + 1) as u32,
                ..t
            },
            action: KeyActionView::Wait(1000),
            notes,
        }
    } else {
        ended(t, LoadedKeyView::Failed { message: e.message() }, notes)
    }
}

/// There are never more failures than requests that are allowed: another request is made only while
/// there are fewer, and the failure that ends the loading is the last one.
pub proof fn law_requests_for_a_key_are_bounded(t: KeyLoadView, e: ErrorView)
    requires
        t.attempt < attempts(t.retry_count),
    ensures
        refused(t, e).state.place == KeyPlace::Waiting ==> refused(t, e).state.attempt == t.attempt + 1
            && refused(t, e).state.attempt < attempts(t.retry_count),
        refused(t, e).state.place == KeyPlace::Ended <==> t.attempt + 1 == attempts(t.retry_count),
        refused(t, e).state.place == KeyPlace::Ended ==> refused(t, e).action == KeyActionView::Done(
            LoadedKeyView::Failed { message: e.message() },
        ),
{
}

impl KeyLoad {
    /// Another request is allowed.
    pub closed spec fn wf(&self) -> bool {
        self.attempt < attempts(self.retry_count)
    }

    /// A key that is to be loaded.
    pub fn new(uri: &str, manifest_url: &str, retry_count: u32, windows: bool) -> (r: Self)
        ensures
            r.wf(),
            r.deep_view() == (KeyLoadView {
                uri: uri@,
                manifest_url: manifest_url@,
                url: ""@,
                retry_count,
                attempt: 0,
                place: KeyPlace::New,
                windows,
            }),
    {
        KeyLoad {
            uri: owned(uri),
            manifest_url: owned(manifest_url),
            url: owned(""),
            retry_count,
            attempt: 0,
            place: KeyPlace::New,
            windows,
        }
    }

    /// The first step.
    pub fn begin(&mut self) -> (r: KeyAction)
        requires
            old(self).wf(),
        ensures
            final(self).wf(),
            final(self).deep_view() == begun(old(self).deep_view()).state,
            r.deep_view() == begun(old(self).deep_view()).action,
    {
        match inline_part(self.uri.as_str()) {
            Some(text) => {
                let result = decode_base64(text);
                self.place = KeyPlace::Ended;
                match result {
                    Ok(bytes) => KeyAction::Done(
                        LoadedKey::Key { bytes, source: KeySource::Inline },
                    ),
                    Err(e) => {
                        let error: Error = Error::config(e);
                        KeyAction::Done(
                            LoadedKey::Failed { message: error.compatibility_message() },
                        )
                    },
                }
            },
            None => {
                self.place = KeyPlace::AtUri;
                KeyAction::Look(self.uri.clone())
            },
        }
    }

    fn fetch(&mut self, config: &ParserConfig, diagnostics: &mut ParserDiagnostics) -> (r: KeyAction)
        requires
            old(self).wf(),
        ensures
            final(self).wf(),
            final(self).deep_view() == fetching(old(self).deep_view(), config.deep_view()).state,
            r.deep_view() == fetching(old(self).deep_view(), config.deep_view()).action,
            final(diagnostics).deep_view() == old(diagnostics).deep_view() + fetching(
                old(self).deep_view(),
                config.deep_view(),
            ).notes,
    {
        let ghost start = diagnostics.deep_view();
        let message: String = cat2("Fetch: ", self.url.as_str());
        diagnostics.push(LogLevel::Debug, message.as_str());
        let headers: String = format_source_http_request_headers(&config.headers);
        diagnostics.push(LogLevel::Debug, headers.as_str());
        assert(diagnostics.deep_view() =~= start + fetching(
            self.deep_view(),
            config.deep_view(),
        ).notes);
        self.place = KeyPlace::Fetching;
        KeyAction::Fetch(self.url.clone())
    }

    /// It is known whether there is something at the path that was looked at.
    pub fn looked(
        &mut self,
        found: bool,
        config: &ParserConfig,
        diagnostics: &mut ParserDiagnostics,
    ) -> (r: KeyAction)
        requires
            old(self).wf(),
            old(self).deep_view().place == KeyPlace::AtUri || old(self).deep_view().place
                == KeyPlace::AtUrl,
        ensures
            final(self).wf(),
            exists|file: LocalPath|
                {
                    let step = #[trigger] looked(
                        old(self).deep_view(),
                        found,
                        config.deep_view(),
                        file.deep_view(),
                    );
                    &&& names_file(old(self).deep_view(), found, config.deep_view())
                        ==> is_path_of(step.state.url, old(self).deep_view().windows, file)
                    &&& final(self).deep_view() == step.state
                    &&& r.deep_view() == step.action
                    &&& final(diagnostics).deep_view() == old(diagnostics).deep_view() + step.notes
                },
    {
        let ghost t = self.deep_view();
        let ghost c = config.deep_view();
        let ghost start = diagnostics.deep_view();
        assert(start + Seq::<ParserDiagnosticView>::empty() =~= start);
        let ghost blank = LocalPath::Text(self.uri);
        let ghost step = looked(t, found, c, blank.deep_view());
        if self.place == KeyPlace::AtUri {
            if found {
                self.place = KeyPlace::Reading;
                let path: String = self.uri.clone();
                assert(self.deep_view() == step.state);
                return KeyAction::Read(LocalPath::Text(path));
            }
            let mut notes: ParserDiagnostics = ParserDiagnostics::new();
            let result: Result<String> = resolve_url_with(
                ExtractorType::Hls,
                self.uri.as_str(),
                self.manifest_url.as_str(),
                config,
                &DefaultUrlProcessor,
                0,
                &mut notes,
            );
            match result {
                Err(e) => {
                    self.place = KeyPlace::Ended;
                    assert(self.deep_view() == step.state);
                    KeyAction::Done(LoadedKey::Failed { message: e.compatibility_message() })
                },
                Ok(url) => {
                    diagnostics.extend(&notes);
                    assert(Seq::<ParserDiagnosticView>::empty() + step.notes =~= step.notes);
                    self.url = url;
                    if begins_with(self.url.as_str(), "file:") {
                        let text: &str = self.url.as_str();
                        let path: LocalPath = file_uri_to_path(text, self.windows);
                        assert(call_ensures(file_uri_to_path, (text, self.windows), path));
                        assert(is_path_of(self.url@, t.windows, path));
                        self.place = KeyPlace::Reading;
                        assert(self.deep_view() == looked(t, found, c, path.deep_view()).state);
                        return KeyAction::Read(path);
                    }
                    self.place = KeyPlace::AtUrl;
                    assert(self.deep_view() == step.state);
                    KeyAction::Look(self.url.clone())
                },
            }
        } else if found {
            self.place = KeyPlace::Reading;
            assert(self.deep_view() == step.state);
            KeyAction::Read(LocalPath::Text(self.url.clone()))
        } else {
            let action: KeyAction = self.fetch(config, diagnostics);
            assert(self.deep_view() == step.state);
            action
        }
    }

    /// The file was read, or it could not be read.
    pub fn read(&mut self, outcome: Result<Vec<u8>>) -> (r: KeyAction)
        requires
            old(self).wf(),
        ensures
            final(self).wf(),
            final(self).deep_view() == (KeyLoadView {
                place: KeyPlace::Ended,
                ..old(self).deep_view()
            }),
            r.deep_view() == KeyActionView::Done(
                match outcome {
                    Ok(bytes) => LoadedKeyView::Key { bytes: bytes@, source: KeySource::File },
                    Err(e) => LoadedKeyView::Failed { message: e.deep_view().message() },
                },
            ),
    {
        self.place = KeyPlace::Ended;
        KeyAction::Done(
            match outcome {
                Ok(bytes) => LoadedKey::Key { bytes, source: KeySource::File },
                Err(e) => LoadedKey::Failed { message: e.compatibility_message() },
            },
        )
    }

    /// The request was answered, or it failed.
    pub fn fetched(&mut self, outcome: Result<HttpResponse>, diagnostics: &mut ParserDiagnostics) -> (r:
        KeyAction)
        requires
            old(self).wf(),
        ensures
            final(self).wf(),
            ({
                let step = match outcome {
                    Ok(response) => answered(
                        old(self).deep_view(),
                        response.debug_logs.deep_view(),
                        response.body@,
                    ),
                    Err(e) => refused(old(self).deep_view(), e.deep_view()),
                };
                &&& final(self).deep_view() == step.state
                &&& r.deep_view() == step.action
                &&& final(diagnostics).deep_view() == old(diagnostics).deep_view() + step.notes
            }),
    {
        let ghost t = self.deep_view();
        let ghost start = diagnostics.deep_view();
        match outcome {
            Ok(response) => {
                let ghost logs = response.debug_logs.deep_view();
                let ghost told = logs.map_values(|m: Seq<char>| note(LogLevel::Debug, m));
                let mut i: usize = 0;
                assert(start + told.take(0) =~= start);
                while i < response.debug_logs.len()
                    invariant
                        i <= response.debug_logs@.len(),
                        logs == response.debug_logs.deep_view(),
                        told == logs.map_values(|m: Seq<char>| note(LogLevel::Debug, m)),
                        start == old(diagnostics).deep_view(),
                        diagnostics.deep_view() == start + told.take(i as int),
                    decreases response.debug_logs@.len() - i,
                {
                    assert(logs[i as int] == response.debug_logs@[i as int]@);
                    diagnostics.push(LogLevel::Debug, response.debug_logs[i].as_str());
                    assert(diagnostics.deep_view() =~= start + told.take(i + 1));
                    i = i + 1;
                }
                assert(told.take(i as int) =~= told);
                let digits: String = bytes_to_spaced_hex(&response.body);
                diagnostics.push(LogLevel::Debug, digits.as_str());
                self.place = KeyPlace::Ended;
                assert(diagnostics.deep_view() =~= start + answered(
                    t,
                    logs,
                    response.body@,
                ).notes);
                KeyAction::Done(LoadedKey::Key { bytes: response.body, source: KeySource::Uri })
            },
            Err(e) => {
                let message: String = e.compatibility_message();
                match key_retry_note(message.as_str(), self.retry_count, self.attempt) {
                    Some(text) => {
                        diagnostics.push(LogLevel::Warn, text.as_str());
                    },
                    None => {},
                }
                assert(diagnostics.deep_view() =~= start + refused(t, e.deep_view()).notes);
                let most: u32 = if self.retry_count == u32::MAX {
                    self.retry_count
                } else {
                    self.retry_count + 1
                };
                if self.attempt + 1 < most {
                    self.attempt = self.attempt + 1;
                    self.place = KeyPlace::Waiting;
                    return KeyAction::Wait(1000);
                }
                self.place = KeyPlace::Ended;
                KeyAction::Done(LoadedKey::Failed { message })
            },
        }
    }

    /// The time has passed: the URL is asked for again.
    pub fn waited(&mut self, config: &ParserConfig, diagnostics: &mut ParserDiagnostics) -> (r: KeyAction)
        requires
            old(self).wf(),
        ensures
            final(self).wf(),
            final(self).deep_view() == fetching(old(self).deep_view(), config.deep_view()).state,
            r.deep_view() == fetching(old(self).deep_view(), config.deep_view()).action,
            final(diagnostics).deep_view() == old(diagnostics).deep_view() + fetching(
                old(self).deep_view(),
                config.deep_view(),
            ).notes,
    {
        self.fetch(config, diagnostics)
    }
}

/// A step that key lines go through.
pub trait KeyProcessor {
    /// Whether the step applies.
    spec fn accepts(
        &self,
        extractor_type: ExtractorType,
        key_line: Seq<char>,
        manifest_url: Seq<char>,
        manifest_content: Seq<char>,
        config: ParserConfigView,
    ) -> bool;

    /// What a key line says, before the key is loaded.
    spec fn read(
        &self,
        key_line: Seq<char>,
        manifest_url: Seq<char>,
        manifest_content: Seq<char>,
        config: ParserConfigView,
    ) -> core::result::Result<KeyLineView, ErrorView>;

    /// The messages about a key line.
    spec fn told(
        &self,
        key_line: Seq<char>,
        manifest_url: Seq<char>,
        manifest_content: Seq<char>,
        config: ParserConfigView,
    ) -> Seq<ParserDiagnosticView>;

    /// Whether the step applies.
    fn can_process(
        &self,
        extractor_type: ExtractorType,
        key_line: &str,
        manifest_url: &str,
        manifest_content: &str,
        config: &ParserConfig,
    ) -> (r: bool)
        ensures
            r == self.accepts(
                extractor_type,
                key_line@,
                manifest_url@,
                manifest_content@,
                config.deep_view(),
            ),
    ;

    /// What a key line says, before the key is loaded.
    fn process(
        &self,
        key_line: &str,
        manifest_url: &str,
        manifest_content: &str,
        config: &ParserConfig,
        diagnostics: &mut ParserDiagnostics,
    ) -> (r: Result<KeyLine>)
        ensures
            view_result(r) == self.read(
                key_line@,
                manifest_url@,
                manifest_content@,
                config.deep_view(),
            ),
            final(diagnostics).deep_view() == old(diagnostics).deep_view() + self.told(
                key_line@,
                manifest_url@,
                manifest_content@,
                config.deep_view(),
            ),
    ;
}

/// Reads the key lines of playlists.
#[derive(Clone, Copy, Debug)]
pub struct DefaultHlsKeyProcessor;

impl KeyProcessor for DefaultHlsKeyProcessor {
    open spec fn accepts(
        &self,
        extractor_type: ExtractorType,
        key_line: Seq<char>,
        manifest_url: Seq<char>,
        manifest_content: Seq<char>,
        config: ParserConfigView,
    ) -> bool {
        extractor_type == ExtractorType::Hls
    }

    open spec fn read(
        &self,
        key_line: Seq<char>,
        manifest_url: Seq<char>,
        manifest_content: Seq<char>,
        config: ParserConfigView,
    ) -> core::result::Result<KeyLineView, ErrorView> {
        key_line_of(key_line, config)
    }

    open spec fn told(
        &self,
        key_line: Seq<char>,
        manifest_url: Seq<char>,
        manifest_content: Seq<char>,
        config: ParserConfigView,
    ) -> Seq<ParserDiagnosticView> {
        key_line_notes(key_line)
    }

    fn can_process(
        &self,
        extractor_type: ExtractorType,
        key_line: &str,
        manifest_url: &str,
        manifest_content: &str,
        config: &ParserConfig,
    ) -> (r: bool) {
        extractor_type == ExtractorType::Hls
    }

    fn process(
        &self,
        key_line: &str,
        manifest_url: &str,
        manifest_content: &str,
        config: &ParserConfig,
        diagnostics: &mut ParserDiagnostics,
    ) -> (r: Result<KeyLine>) {
        read_key_line(key_line, config, diagnostics)
    }
}

/// What a key line of a playlist says, where the step applies to it.
pub fn parse_key<P: KeyProcessor>(
    processor: &P,
    line: &str,
    url: &str,
    text: &str,
    config: &ParserConfig,
    diagnostics: &mut ParserDiagnostics,
) -> (r: Result<KeyLine>)
    ensures
        ({
            let c = config.deep_view();
            if processor.accepts(ExtractorType::Hls, line@, url@, text@, c) {
                &&& view_result(r) == processor.read(line@, url@, text@, c)
                &&& final(diagnostics).deep_view() == old(diagnostics).deep_view()
                    + processor.told(line@, url@, text@, c)
            } else {
                &&& view_result(r) == Err::<KeyLineView, ErrorView>(
                    ErrorView::Protocol("no HLS key processor accepted the key line"@),
                )
                &&& final(diagnostics).deep_view() == old(diagnostics).deep_view()
            }
        }),
{
    if processor.can_process(ExtractorType::Hls, line, url, text, config) {
        return processor.process(line, url, text, config, diagnostics);
    }
    Err(Error::protocol("no HLS key processor accepted the key line"))
}

} // verus!
