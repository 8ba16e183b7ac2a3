//! Loading the media playlists of the streams of a master playlist.

use crate::config::LogLevel;
use crate::error::{Error, ErrorView, Result};
use crate::hls::{
    apply_playlist, has_unknown_encryption, map_warning, media_notes, media_playlist_of,
    parse_media_playlist, playlist_has_unknown_encryption, same_identity,
    should_refresh_from_master, stream_refresh_identity_matches, with_playlist, HlsParser,
    HlsResult, HlsStopView, KeyAnswer, KeyAnswerView,
};
use crate::manifest::{Playlist, Stream, StreamView};
use crate::processor::{
    note, ParserConfig, ParserConfigView, ParserDiagnosticView, ParserDiagnostics,
};
use crate::text::{cat3, owned};
use vstd::prelude::*;

verus! {

/// Streams whose playlists are being loaded.
#[derive(Debug)]
pub struct PlaylistFetch {
    streams: Vec<Stream>,
    master_url: String,
    force_refresh: bool,
    at: usize,
    requires_binary_merge: bool,
    retried: bool,
    failure: Option<Error>,
}

/// Model of `PlaylistFetch`.
pub struct PlaylistFetchView {
    pub streams: Seq<StreamView>,
    /// Where the master playlist is.
    pub master_url: Seq<char>,
    /// Playlists that are there already are loaded again.
    pub force_refresh: bool,
    /// The stream whose playlist comes next, or the number of streams at the end.
    pub at: int,
    pub requires_binary_merge: bool,
    /// The stream has got a new URL from the master playlist.
    pub retried: bool,
    /// Why the playlist could not be loaded, while the master playlist is looked at.
    pub failure: Option<ErrorView>,
}

impl DeepView for PlaylistFetch {
    type V = PlaylistFetchView;

    closed spec fn deep_view(&self) -> PlaylistFetchView {
        PlaylistFetchView {
            streams: self.streams.deep_view(),
            master_url: self.master_url@,
            force_refresh: self.force_refresh,
            at: self.at as int,
            requires_binary_merge: self.requires_binary_merge,
            retried: self.retried,
            failure: self.failure.deep_view(),
        }
    }
}

/// What is loaded next.
#[derive(Debug)]
pub enum FetchAction {
    /// The playlist of a stream.
    Load(String),
    /// The master playlist, for the new URL of a stream.
    LoadMaster(String),
    /// Nothing.
    Done,
}

/// Model of `FetchAction`.
pub enum FetchActionView {
    Load(Seq<char>),
    LoadMaster(Seq<char>),
    Done,
}

impl DeepView for FetchAction {
    type V = FetchActionView;

    open spec fn deep_view(&self) -> FetchActionView {
        match self {
            FetchAction::Load(url) => FetchActionView::Load(url@),
            FetchAction::LoadMaster(url) => FetchActionView::LoadMaster(url@),
            FetchAction::Done => FetchActionView::Done,
        }
    }
}

/// What is loaded next.
pub open spec fn fetch_action(t: PlaylistFetchView) -> FetchActionView {
    if t.at >= t.streams.len() {
        FetchActionView::Done
    } else if t.failure is Some {
        FetchActionView::LoadMaster(t.master_url)
    } else {
        FetchActionView::Load(t.streams[t.at].url)
    }
}

/// The first stream from position `i` on whose playlist is to be loaded.
pub open spec fn next_due(streams: Seq<StreamView>, force: bool, i: int) -> int
    decreases streams.len() - i,
{
    if i < 0 || i >= streams.len() || force || streams[i].playlist is None {
        i
    } else {
        next_due(streams, force, i + 1)
    }
}

/// Loading starts with streams and the URL of the master playlist.
pub open spec fn fetch_of(streams: Seq<StreamView>, master_url: Seq<char>, force_refresh: bool) -> PlaylistFetchView {
    PlaylistFetchView {
        streams,
        master_url,
        force_refresh,
        at: next_due(streams, force_refresh, 0),
        requires_binary_merge: false,
        retried: false,
        failure: None,
    }
}

/// The first of some streams that describes the same thing as a stream; whether the frame rates
/// are equal is given.
pub open spec fn replacement_from(
    stream: StreamView,
    candidates: Seq<StreamView>,
    same_rates: Seq<bool>,
    i: int,
) -> Option<int>
    decreases candidates.len() - i,
{
    if i < 0 || i >= candidates.len() {
        None
    } else if same_identity(stream, candidates[i], same_rates[i]) {
        Some(i)
    } else {
        replacement_from(stream, candidates, same_rates, i + 1)
    }
}

/// A playlist can be asked for at the place of its stream.
pub open spec fn is_loading(t: PlaylistFetchView) -> bool {
    0 <= t.at < t.streams.len() && t.failure is None
}

/// The master playlist is looked at.
pub open spec fn is_refreshing(t: PlaylistFetchView) -> bool {
    0 <= t.at < t.streams.len() && t.failure is Some
}

/// A stream that could not be loaded may get a new URL, once.
pub open spec fn may_refresh(t: PlaylistFetchView) -> bool {
    !t.retried && t.master_url.len() > 0 && t.master_url != t.streams[t.at].url
}

/// The state once the playlist of a stream was read, or why it cannot be read.
pub open spec fn playlist_read(
    t: PlaylistFetchView,
    text: Seq<char>,
    url: Seq<char>,
    config: ParserConfigView,
    keys: Seq<KeyAnswerView>,
) -> core::result::Result<PlaylistFetchView, HlsStopView> {
    match media_playlist_of(text, url, config, keys) {
        Err(s) => Err(s),
        Ok(playlist) => {
            let streams = t.streams.update(t.at, with_playlist(t.streams[t.at], playlist));
            Ok(
                PlaylistFetchView {
                    streams,
                    at: next_due(streams, t.force_refresh, t.at + 1),
                    requires_binary_merge: t.requires_binary_merge || has_unknown_encryption(
                        playlist,
                    ),
                    retried: false,
                    ..t
                },
            )
        },
    }
}

/// The state once the streams of the master playlist are known, or why the playlist could not be
/// loaded.
pub open spec fn master_read(
    t: PlaylistFetchView,
    candidates: Seq<StreamView>,
    same_rates: Seq<bool>,
) -> core::result::Result<(PlaylistFetchView, Seq<ParserDiagnosticView>), ErrorView> {
    match replacement_from(t.streams[t.at], candidates, same_rates, 0) {
        None => Err(t.failure->0),
        Some(k) => Ok(
            (
                PlaylistFetchView {
                    streams: t.streams.update(
                        t.at,
                        StreamView { url: candidates[k].url, ..t.streams[t.at] },
                    ),
                    retried: true,
                    failure: None,
                    ..t
                },
                seq![
                    note(
                        LogLevel::Debug,
                        t.streams[t.at].url + " => "@ + candidates[k].url,
                    ),
                ],
            ),
        ),
    }
}

proof fn lemma_next_due(streams: Seq<StreamView>, force: bool, i: int)
    requires
        0 <= i <= streams.len(),
    ensures
        i <= next_due(streams, force, i) <= streams.len(),
        forall|k: int| i <= k < next_due(streams, force, i) ==> #[trigger] streams[k].playlist is Some,
        next_due(streams, force, i) < streams.len() ==> force || streams[next_due(
            streams,
            force,
            i,
        )].playlist is None,
    decreases streams.len() - i,
{
    if i < streams.len() && !force && streams[i].playlist is Some {
        lemma_next_due(streams, force, i + 1);
    }
}

/// A stream that is passed over has a playlist, and none is passed over where all are loaded again.
pub proof fn law_no_stream_is_forgotten(streams: Seq<StreamView>, force: bool, i: int)
    requires
        0 <= i <= streams.len(),
    ensures
        forall|k: int| i <= k < next_due(streams, force, i) ==> #[trigger] streams[k].playlist is Some,
        force ==> next_due(streams, force, i) == i,
{
    lemma_next_due(streams, force, i);
}

/// Reading a playlist gives its stream a playlist, changes no other stream and goes on.
pub proof fn law_a_playlist_changes_one_stream(
    t: PlaylistFetchView,
    text: Seq<char>,
    url: Seq<char>,
    config: ParserConfigView,
    keys: Seq<KeyAnswerView>,
    k: int,
)
    requires
        is_loading(t),
        playlist_read(t, text, url, config, keys) is Ok,
        0 <= k < t.streams.len(),
    ensures
        ({
            let u = playlist_read(t, text, url, config, keys)->Ok_0;
            &&& u.streams.len() == t.streams.len()
            &&& u.streams[t.at].playlist is Some
            &&& u.streams[t.at].url == t.streams[t.at].url
            &&& k != t.at ==> u.streams[k] == t.streams[k]
            &&& t.at < u.at <= t.streams.len()
            &&& t.requires_binary_merge ==> u.requires_binary_merge
        }),
{
    let u = playlist_read(t, text, url, config, keys)->Ok_0;
    lemma_next_due(u.streams, t.force_refresh, t.at + 1);
}

/// The master playlist is asked for once at most for a stream: after it the stream has another URL,
/// or the first failure stands.
pub proof fn law_the_master_is_asked_once(
    t: PlaylistFetchView,
    candidates: Seq<StreamView>,
    same_rates: Seq<bool>,
)
    requires
        is_refreshing(t),
        same_rates.len() == candidates.len(),
    ensures
        match master_read(t, candidates, same_rates) {
            Ok((u, _)) => is_loading(u) && !may_refresh(u) && u.at == t.at,
            Err(e) => Some(e) == t.failure,
        },
{
}

impl PlaylistFetch {
    /// The position is one of a stream or the end.
    pub closed spec fn wf(&self) -> bool {
        self.at <= self.streams@.len()
    }

    fn go_to_next(&mut self, from: usize)
        requires
            from <= old(self).streams@.len(),
        ensures
            final(self).wf(),
            final(self).deep_view() == (PlaylistFetchView {
                at: next_due(
                    old(self).streams.deep_view(),
                    old(self).force_refresh,
                    from as int,
                ),
                ..old(self).deep_view()
            }),
    {
        let ghost views = self.streams.deep_view();
        let ghost force = self.force_refresh;
        let mut i: usize = from;
        while i < self.streams.len() && !self.force_refresh && self.streams[i].playlist.is_some()
            invariant
                i <= self.streams@.len(),
                views == self.streams.deep_view(),
                force == self.force_refresh,
                next_due(views, force, from as int) == next_due(views, force, i as int),
            decreases self.streams@.len() - i,
        {
            assert(views[i as int] == self.streams@[i as int].deep_view());
            i = i + 1;
        }
        assert(i < self.streams@.len() ==> views[i as int] == self.streams@[i as int].deep_view());
        self.at = i;
    }

    /// Starts with streams and the URL of the master playlist. Streams that have a playlist are
    /// passed over unless they are to be loaded again.
    pub fn new(streams: Vec<Stream>, master_url: &str, force_refresh: bool) -> (r: Self)
        ensures
            r.wf(),
            r.deep_view() == fetch_of(streams.deep_view(), master_url@, force_refresh),
    {
        let mut r: PlaylistFetch = PlaylistFetch {
            streams,
            master_url: owned(master_url),
            force_refresh,
            at: 0,
            requires_binary_merge: false,
            retried: false,
            failure: None,
        };
        r.go_to_next(0);
        r
    }

    /// What is loaded next.
    pub fn action(&self) -> (r: FetchAction)
        requires
            self.wf(),
        ensures
            r.deep_view() == fetch_action(self.deep_view()),
    {
        assert(self.streams.deep_view().len() == self.streams@.len());
        if self.at >= self.streams.len() {
            FetchAction::Done
        } else if self.failure.is_some() {
            FetchAction::LoadMaster(self.master_url.clone())
        } else {
            assert(self.streams.deep_view()[self.at as int]
                == self.streams@[self.at as int].deep_view());
            FetchAction::Load(self.streams[self.at].url.clone())
        }
    }

    /// The stream whose playlist is loaded.
    pub fn stream(&self) -> (r: Option<&Stream>)
        requires
            self.wf(),
        ensures
            match r {
                Some(s) => 0 <= self.deep_view().at < self.deep_view().streams.len()
                    && s.deep_view() == self.deep_view().streams[self.deep_view().at],
                None => self.deep_view().at >= self.deep_view().streams.len(),
            },
    {
        assert(self.streams.deep_view().len() == self.streams@.len());
        if self.at < self.streams.len() {
            assert(self.streams.deep_view()[self.at as int]
                == self.streams@[self.at as int].deep_view());
            Some(&self.streams[self.at])
        } else {
            None
        }
    }

    /// The playlist could not be loaded: the master playlist may help, else the loading fails.
    pub fn load_failed(&mut self, error: Error, diagnostics: &mut ParserDiagnostics) -> (r: Result<()>)
        requires
            old(self).wf(),
            is_loading(old(self).deep_view()),
        ensures
            final(self).wf(),
            r is Ok <==> may_refresh(old(self).deep_view()),
            match r {
                Ok(_) => {
                    &&& final(self).deep_view() == (PlaylistFetchView {
                        failure: Some(error.deep_view()),
                        ..old(self).deep_view()
                    })
                    &&& final(diagnostics).deep_view() == old(diagnostics).deep_view().push(
                        note(
                            LogLevel::Warn,
                            "Can not load m3u8. Try refreshing url from master url..."@,
                        ),
                    )
                },
                Err(e) => {
                    &&& e == error
                    &&& final(self).deep_view() == old(self).deep_view()
                    &&& final(diagnostics).deep_view() == old(diagnostics).deep_view()
                },
            },
    {
        assert(self.streams.deep_view().len() == self.streams@.len());
        assert(self.streams.deep_view()[self.at as int]
            == self.streams@[self.at as int].deep_view());
        if !self.retried && should_refresh_from_master(
            self.master_url.as_str(),
            &self.streams[self.at],
        ) {
            diagnostics.push(
                LogLevel::Warn,
                "Can not load m3u8. Try refreshing url from master url...",
            );
            self.failure = Some(error);
            return Ok(());
        }
        Err(error)
    }

    /// The streams of the master playlist are known, and of each whether its frame rate equals the
    /// one of the stream: the stream takes its new URL from them, or the first failure stands.
    pub fn master_loaded(
        &mut self,
        candidates: &Vec<Stream>,
        same_rates: &Vec<bool>,
        diagnostics: &mut ParserDiagnostics,
    ) -> (r: Result<()>)
        requires
            old(self).wf(),
            is_refreshing(old(self).deep_view()),
            same_rates@.len() == candidates@.len(),
        ensures
            final(self).wf(),
            match master_read(old(self).deep_view(), candidates.deep_view(), same_rates@) {
                Ok((u, notes)) => {
                    &&& r is Ok
                    &&& final(self).deep_view() == u
                    &&& final(diagnostics).deep_view() == old(diagnostics).deep_view() + notes
                },
                Err(e) => {
                    &&& r is Err
                    &&& r->Err_0.deep_view() == e
                    &&& final(self).deep_view() == (PlaylistFetchView {
                        failure: None,
                        ..old(self).deep_view()
                    })
                    &&& final(diagnostics).deep_view() == old(diagnostics).deep_view()
                },
            },
    {
        let ghost t = self.deep_view();
        let ghost views = candidates.deep_view();
        let ghost start = diagnostics.deep_view();
        assert(self.streams.deep_view().len() == self.streams@.len());
        let mut stream: Stream = self.streams[self.at].clone();
        assert(t.streams[t.at] == stream.deep_view());
        let mut i: usize = 0;
        while i < candidates.len()
            invariant
                i <= candidates@.len(),
                same_rates@.len() == candidates@.len(),
                views == candidates.deep_view(),
                replacement_from(stream.deep_view(), views, same_rates@, 0) == replacement_from(
                    stream.deep_view(),
                    views,
                    same_rates@,
                    i as int,
                ),
                self.deep_view() == t,
                self.wf(),
                diagnostics.deep_view() == start,
                is_refreshing(t),
                t.streams[t.at] == stream.deep_view(),
                t == old(self).deep_view(),
                start == old(diagnostics).deep_view(),
            decreases candidates@.len() - i,
        {
            assert(views[i as int] == candidates@[i as int].deep_view());
            if stream_refresh_identity_matches(&stream, &candidates[i], same_rates[i]) {
                let message: String = cat3(
                    stream.url.as_str(),
                    " => ",
                    candidates[i].url.as_str(),
                );
                diagnostics.push(LogLevel::Debug, message.as_str());
                stream.url = candidates[i].url.clone();
                assert(self.streams.deep_view().len() == self.streams@.len());
                let ghost new = stream.deep_view();
                self.streams.set(self.at, stream);
                self.retried = true;
                self.failure = None;
                proof {
                    let u = master_read(t, views, same_rates@)->Ok_0.0;
                    assert(self.deep_view().streams =~= u.streams);
                    assert(diagnostics.deep_view() =~= start + master_read(
                        t,
                        views,
                        same_rates@,
                    )->Ok_0.1);
                }
                return Ok(());
            }
            i = i + 1;
        }
        match self.failure.take() {
            Some(e) => Err(e),
            None => Ok(()),
        }
    }

    /// The text of the playlist was loaded; the keys that were loaded so far are given. Where a key
    /// is missing the state stays as it was, and the messages are those up to its line.
    pub fn playlist_loaded(
        &mut self,
        text: &str,
        final_url: &str,
        config: &ParserConfig,
        keys: &Vec<KeyAnswer>,
        diagnostics: &mut ParserDiagnostics,
    ) -> (r: HlsResult<()>)
        requires
            old(self).wf(),
            is_loading(old(self).deep_view()),
        ensures
            final(self).wf(),
            match playlist_read(
                old(self).deep_view(),
                text@,
                final_url@,
                config.deep_view(),
                keys.deep_view(),
            ) {
                Ok(u) => r is Ok && final(self).deep_view() == u,
                Err(s) => {
                    &&& r is Err
                    &&& r->Err_0.deep_view() == s
                    &&& final(self).deep_view() == old(self).deep_view()
                },
            },
            final(diagnostics).deep_view() == old(diagnostics).deep_view() + map_warning(
                config.deep_view(),
            ) + media_notes(text@, final_url@, config.deep_view(), keys.deep_view()),
    {
        let ghost t = self.deep_view();
        assert(self.streams.deep_view().len() == self.streams@.len());
        HlsParser::push_allow_hls_multi_ext_map_warning(config, diagnostics);
        let read: Playlist = parse_media_playlist(text, final_url, config, keys, diagnostics)?;
        let unknown: bool = playlist_has_unknown_encryption(&read);
        let mut stream: Stream = self.streams[self.at].clone();
        assert(t.streams[t.at] == stream.deep_view());
        let ghost playlist = read.deep_view();
        apply_playlist(&mut stream, read);
        self.streams.set(self.at, stream);
        assert(self.streams.deep_view() =~= t.streams.update(
            t.at,
            with_playlist(t.streams[t.at], playlist),
        ));
        self.requires_binary_merge = self.requires_binary_merge || unknown;
        self.retried = false;
        let _len: usize = self.streams.len();
        self.go_to_next(self.at + 1);
        Ok(())
    }

    /// The streams, and whether their parts have to be joined as they are.
    pub fn finish(self) -> (r: (Vec<Stream>, bool))
        ensures
            r.0.deep_view() == self.deep_view().streams,
            r.1 == self.deep_view().requires_binary_merge,
    {
        (self.streams, self.requires_binary_merge)
    }
}

impl HlsParser {
    /// Loads the playlists of the streams that have none.
    pub fn fetch_playlists(&self, streams: Vec<Stream>, config: &ParserConfig) -> (r: PlaylistFetch)
        ensures
            r.wf(),
            r.deep_view() == fetch_of(streams.deep_view(), config.deep_view().url, false),
    {
        PlaylistFetch::new(streams, config.url.as_str(), false)
    }

    /// Loads the playlists of all streams again.
    pub fn refresh_playlists(&self, streams: Vec<Stream>, config: &ParserConfig) -> (r: PlaylistFetch)
        ensures
            r.wf(),
            r.deep_view() == fetch_of(streams.deep_view(), config.deep_view().url, true),
    {
        PlaylistFetch::new(streams, config.url.as_str(), true)
    }
}

} // verus!
