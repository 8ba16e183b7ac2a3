//! URLs of segments, and streams whose segments a newer manifest replaces.

use crate::error::{view_result, ErrorView, Result};
use crate::hls::same_opt;
use crate::manifest::{
    ExtractorType, MediaPart, MediaSegment, MediaSegmentView, Playlist, PlaylistView, Stream,
    StreamView,
};
use crate::processor::{
    after_processor, apply_processor, DefaultUrlProcessor, ParserConfig, ParserConfigView,
    ParserDiagnosticView, ParserDiagnostics, SignedDashUrlProcessor,
};
use crate::text::{begins_with, either, opt, same, starts_with};
use vstd::prelude::*;

verus! {

/// One URL after the steps of its kind of manifest, and the messages about it: a URL of DASH is
/// signed first.
pub open spec fn stepped_url(
    kind: ExtractorType,
    url: Seq<char>,
    config: ParserConfigView,
    now_ms: int,
) -> (core::result::Result<Seq<char>, ErrorView>, Seq<ParserDiagnosticView>) {
    if kind == ExtractorType::MpegDash {
        match after_processor(SignedDashUrlProcessor, kind, url, config, now_ms) {
            Err(e) => (Err(e), Seq::empty()),
            Ok((signed, first)) => match after_processor(
                DefaultUrlProcessor,
                kind,
                signed,
                config,
                now_ms,
            ) {
                Err(e) => (Err(e), first),
                Ok((whole, second)) => (Ok(whole), first + second),
            },
        }
    } else {
        match after_processor(DefaultUrlProcessor, kind, url, config, now_ms) {
            Err(e) => (Err(e), Seq::empty()),
            Ok((whole, notes)) => (Ok(whole), notes),
        }
    }
}

/// Whether the URL of an initialization segment is processed: one of Smooth Streaming that holds
/// the bytes themselves is not.
pub open spec fn init_is_processed(kind: ExtractorType, url: Seq<char>) -> bool {
    !(kind == ExtractorType::Mss && (starts_with(url, "base64://"@) || starts_with(
        url,
        "hex://"@,
    )))
}

fn process_resolved_url(
    kind: ExtractorType,
    url: &str,
    config: &ParserConfig,
    now_ms: i64,
    diagnostics: &mut ParserDiagnostics,
) -> (r: Result<String>)
    ensures
        ({
            let (done, notes) = stepped_url(kind, url@, config.deep_view(), now_ms as int);
            view_result(r) == done && final(diagnostics).deep_view() == old(diagnostics).deep_view()
                + notes
        }),
{
    let ghost start = diagnostics.deep_view();
    assert(start + Seq::<ParserDiagnosticView>::empty() =~= start);
    if kind != ExtractorType::MpegDash {
        return apply_processor(&DefaultUrlProcessor, kind, url, config, now_ms, diagnostics);
    }
    let signed: String = apply_processor(
        &SignedDashUrlProcessor,
        kind,
        url,
        config,
        now_ms,
        diagnostics,
    )?;
    let whole: String = apply_processor(
        &DefaultUrlProcessor,
        kind,
        signed.as_str(),
        config,
        now_ms,
        diagnostics,
    )?;
    assert(diagnostics.deep_view() =~= start + stepped_url(
        kind,
        url@,
        config.deep_view(),
        now_ms as int,
    ).1);
    Ok(whole)
}

/// The first `n` segments with their URLs processed, or the first error, and the messages about
/// them up to there.
pub open spec fn processed_segments(
    kind: ExtractorType,
    segments: Seq<MediaSegmentView>,
    n: int,
    config: ParserConfigView,
    now_ms: int,
) -> (core::result::Result<Seq<MediaSegmentView>, ErrorView>, Seq<ParserDiagnosticView>)
    decreases n,
{
    if n <= 0 {
        (Ok(Seq::empty()), Seq::empty())
    } else {
        let (before, notes) = processed_segments(kind, segments, n - 1, config, now_ms);
        match before {
            Err(e) => (Err(e), notes),
            Ok(head) => {
                let (stepped, more) = stepped_url(kind, segments[n - 1].url, config, now_ms);
                match stepped {
                    Err(e) => (Err(e), notes + more),
                    Ok(url) => (
                        Ok(head.push(MediaSegmentView { url, ..segments[n - 1] })),
                        notes + more,
                    ),
                }
            },
        }
    }
}

/// The first `n` parts with the URLs of their segments processed, or the first error, and the
/// messages about them up to there.
pub open spec fn processed_parts(
    kind: ExtractorType,
    parts: Seq<Seq<MediaSegmentView>>,
    n: int,
    config: ParserConfigView,
    now_ms: int,
) -> (core::result::Result<Seq<Seq<MediaSegmentView>>, ErrorView>, Seq<ParserDiagnosticView>)
    decreases n,
{
    if n <= 0 {
        (Ok(Seq::empty()), Seq::empty())
    } else {
        let (before, notes) = processed_parts(kind, parts, n - 1, config, now_ms);
        match before {
            Err(e) => (Err(e), notes),
            Ok(head) => {
                let (done, more) = processed_segments(
                    kind,
                    parts[n - 1],
                    parts[n - 1].len() as int,
                    config,
                    now_ms,
                );
                match done {
                    Err(e) => (Err(e), notes + more),
                    Ok(part) => (Ok(head.push(part)), notes + more),
                }
            },
        }
    }
}

/// An initialization segment with its URL processed, where it is, and the messages about it.
pub open spec fn processed_init(
    kind: ExtractorType,
    init: Option<MediaSegmentView>,
    config: ParserConfigView,
    now_ms: int,
) -> (core::result::Result<Option<MediaSegmentView>, ErrorView>, Seq<ParserDiagnosticView>) {
    match init {
        None => (Ok(None), Seq::empty()),
        Some(s) => if init_is_processed(kind, s.url) {
            let (stepped, notes) = stepped_url(kind, s.url, config, now_ms);
            match stepped {
                Err(e) => (Err(e), notes),
                Ok(url) => (Ok(Some(MediaSegmentView { url, ..s })), notes),
            }
        } else {
            (Ok(Some(s)), Seq::empty())
        },
    }
}

/// A playlist with the URLs of its segments processed, or the first error, and the messages about
/// it up to there.
pub open spec fn processed_playlist(
    kind: ExtractorType,
    p: PlaylistView,
    config: ParserConfigView,
    now_ms: int,
) -> (core::result::Result<PlaylistView, ErrorView>, Seq<ParserDiagnosticView>) {
    let (init, notes) = processed_init(kind, p.media_init, config, now_ms);
    match init {
        Err(e) => (Err(e), notes),
        Ok(media_init) => {
            let (parts, more) = processed_parts(
                kind,
                p.media_parts,
                p.media_parts.len() as int,
                config,
                now_ms,
            );
            match parts {
                Err(e) => (Err(e), notes + more),
                Ok(media_parts) => (
                    Ok(PlaylistView { media_init, media_parts, ..p }),
                    notes + more,
                ),
            }
        },
    }
}

/// The first `n` streams with the URLs of their segments processed, or the first error, and the
/// messages about them up to there.
pub open spec fn processed_streams(
    kind: ExtractorType,
    streams: Seq<StreamView>,
    n: int,
    config: ParserConfigView,
    now_ms: int,
) -> (core::result::Result<Seq<StreamView>, ErrorView>, Seq<ParserDiagnosticView>)
    decreases n,
{
    if n <= 0 {
        (Ok(Seq::empty()), Seq::empty())
    } else {
        let (before, notes) = processed_streams(kind, streams, n - 1, config, now_ms);
        match before {
            Err(e) => (Err(e), notes),
            Ok(head) => match streams[n - 1].playlist {
                None => (Ok(head.push(streams[n - 1])), notes),
                Some(p) => {
                    let (done, more) = processed_playlist(kind, p, config, now_ms);
                    match done {
                        Err(e) => (Err(e), notes + more),
                        Ok(playlist) => (
                            Ok(
                                head.push(
                                    StreamView { playlist: Some(playlist), ..streams[n - 1] },
                                ),
                            ),
                            notes + more,
                        ),
                    }
                },
            },
        }
    }
}

proof fn lemma_processed_segments_stop(
    kind: ExtractorType,
    segments: Seq<MediaSegmentView>,
    n: int,
    config: ParserConfigView,
    now_ms: int,
)
    requires
        0 <= n <= segments.len(),
        processed_segments(kind, segments, n, config, now_ms).0 is Err,
    ensures
        processed_segments(kind, segments, segments.len() as int, config, now_ms)
            == processed_segments(kind, segments, n, config, now_ms),
    decreases segments.len() - n,
{
    if n < segments.len() {
        lemma_processed_segments_stop(kind, segments, n + 1, config, now_ms);
    }
}

proof fn lemma_processed_parts_stop(
    kind: ExtractorType,
    parts: Seq<Seq<MediaSegmentView>>,
    n: int,
    config: ParserConfigView,
    now_ms: int,
)
    requires
        0 <= n <= parts.len(),
        processed_parts(kind, parts, n, config, now_ms).0 is Err,
    ensures
        processed_parts(kind, parts, parts.len() as int, config, now_ms) == processed_parts(
            kind,
            parts,
            n,
            config,
            now_ms,
        ),
    decreases parts.len() - n,
{
    if n < parts.len() {
        lemma_processed_parts_stop(kind, parts, n + 1, config, now_ms);
    }
}

proof fn lemma_processed_streams_stop(
    kind: ExtractorType,
    streams: Seq<StreamView>,
    n: int,
    config: ParserConfigView,
    now_ms: int,
)
    requires
        0 <= n <= streams.len(),
        processed_streams(kind, streams, n, config, now_ms).0 is Err,
    ensures
        processed_streams(kind, streams, streams.len() as int, config, now_ms) == processed_streams(
            kind,
            streams,
            n,
            config,
            now_ms,
        ),
    decreases streams.len() - n,
{
    if n < streams.len() {
        lemma_processed_streams_stop(kind, streams, n + 1, config, now_ms);
    }
}

fn process_segments(
    kind: ExtractorType,
    segments: &Vec<MediaSegment>,
    config: &ParserConfig,
    now_ms: i64,
    diagnostics: &mut ParserDiagnostics,
) -> (r: Result<Vec<MediaSegment>>)
    ensures
        ({
            let (done, notes) = processed_segments(
                kind,
                segments.deep_view(),
                segments@.len() as int,
                config.deep_view(),
                now_ms as int,
            );
            view_result(r) == done && final(diagnostics).deep_view() == old(diagnostics).deep_view()
                + notes
        }),
{
    let ghost all = segments.deep_view();
    let ghost c = config.deep_view();
    let ghost start = diagnostics.deep_view();
    let mut out: Vec<MediaSegment> = Vec::new();
    let mut i: usize = 0;
    assert(out.deep_view() =~= Seq::<MediaSegmentView>::empty());
    assert(start + Seq::<ParserDiagnosticView>::empty() =~= start);
    while i < segments.len()
        invariant
            i <= segments@.len(),
            all == segments.deep_view(),
            c == config.deep_view(),
            start == old(diagnostics).deep_view(),
            processed_segments(kind, all, i as int, c, now_ms as int).0 == Ok::<
                Seq<MediaSegmentView>,
                ErrorView,
            >(out.deep_view()),
            diagnostics.deep_view() == start + processed_segments(
                kind,
                all,
                i as int,
                c,
                now_ms as int,
            ).1,
        decreases segments@.len() - i,
    {
        let mut segment: MediaSegment = segments[i].clone();
        assert(all[i as int] == segment.deep_view());
        let stepped: Result<String> = process_resolved_url(
            kind,
            segment.url.as_str(),
            config,
            now_ms,
            diagnostics,
        );
        assert(diagnostics.deep_view() =~= start + processed_segments(
            kind,
            all,
            i + 1,
            c,
            now_ms as int,
        ).1);
        match stepped {
            Ok(url) => {
                segment.url = url;
                let ghost before = out.deep_view();
                let ghost item = segment.deep_view();
                out.push(segment);
                assert(out.deep_view() =~= before.push(item));
            },
            Err(e) => {
                proof {
                    lemma_processed_segments_stop(kind, all, i + 1, c, now_ms as int);
                }
                return Err(e);
            },
        }
        i = i + 1;
    }
    Ok(out)
}

fn process_parts(
    kind: ExtractorType,
    parts: &Vec<MediaPart>,
    config: &ParserConfig,
    now_ms: i64,
    diagnostics: &mut ParserDiagnostics,
) -> (r: Result<Vec<MediaPart>>)
    ensures
        ({
            let (done, notes) = processed_parts(
                kind,
                parts.deep_view(),
                parts@.len() as int,
                config.deep_view(),
                now_ms as int,
            );
            view_result(r) == done && final(diagnostics).deep_view() == old(diagnostics).deep_view()
                + notes
        }),
{
    let ghost all = parts.deep_view();
    let ghost c = config.deep_view();
    let ghost start = diagnostics.deep_view();
    let mut out: Vec<MediaPart> = Vec::new();
    let mut i: usize = 0;
    assert(out.deep_view() =~= Seq::<Seq<MediaSegmentView>>::empty());
    assert(start + Seq::<ParserDiagnosticView>::empty() =~= start);
    while i < parts.len()
        invariant
            i <= parts@.len(),
            all == parts.deep_view(),
            c == config.deep_view(),
            start == old(diagnostics).deep_view(),
            processed_parts(kind, all, i as int, c, now_ms as int).0 == Ok::<
                Seq<Seq<MediaSegmentView>>,
                ErrorView,
            >(out.deep_view()),
            diagnostics.deep_view() == start + processed_parts(
                kind,
                all,
                i as int,
                c,
                now_ms as int,
            ).1,
        decreases parts@.len() - i,
    {
        assert(all[i as int] == parts@[i as int].deep_view());
        let done: Result<Vec<MediaSegment>> = process_segments(
            kind,
            &parts[i].media_segments,
            config,
            now_ms,
            diagnostics,
        );
        assert(diagnostics.deep_view() =~= start + processed_parts(
            kind,
            all,
            i + 1,
            c,
            now_ms as int,
        ).1);
        match done {
            Ok(segments) => {
                let part: MediaPart = MediaPart { media_segments: segments };
                let ghost before = out.deep_view();
                let ghost item = part.deep_view();
                out.push(part);
                assert(out.deep_view() =~= before.push(item));
            },
            Err(e) => {
                proof {
                    lemma_processed_parts_stop(kind, all, i + 1, c, now_ms as int);
                }
                return Err(e);
            },
        }
        i = i + 1;
    }
    Ok(out)
}

fn process_playlist(
    kind: ExtractorType,
    p: Playlist,
    config: &ParserConfig,
    now_ms: i64,
    diagnostics: &mut ParserDiagnostics,
) -> (r: Result<Playlist>)
    ensures
        ({
            let (done, notes) = processed_playlist(
                kind,
                p.deep_view(),
                config.deep_view(),
                now_ms as int,
            );
            view_result(r) == done && final(diagnostics).deep_view() == old(diagnostics).deep_view()
                + notes
        }),
{
    let ghost start = diagnostics.deep_view();
    let ghost whole = p.deep_view();
    let mut p: Playlist = p;
    let mut taken: Option<MediaSegment> = None;
    core::mem::swap(&mut p.media_init, &mut taken);
    assert(start + Seq::<ParserDiagnosticView>::empty() =~= start);
    match taken {
        Some(init) => {
            let mut init: MediaSegment = init;
            if kind != ExtractorType::Mss || !(begins_with(init.url.as_str(), "base64://")
                || begins_with(init.url.as_str(), "hex://")) {
                let url: String = process_resolved_url(
                    kind,
                    init.url.as_str(),
                    config,
                    now_ms,
                    diagnostics,
                )?;
                init.url = url;
            }
            p.media_init = Some(init);
        },
        None => {},
    }
    let done: Result<Vec<MediaPart>> = process_parts(
        kind,
        &p.media_parts,
        config,
        now_ms,
        diagnostics,
    );
    assert(diagnostics.deep_view() =~= start + processed_playlist(
        kind,
        whole,
        config.deep_view(),
        now_ms as int,
    ).1);
    p.media_parts = done?;
    Ok(p)
}

/// The streams with the URLs of their segments processed.
pub fn process_urls(
    kind: ExtractorType,
    streams: &Vec<Stream>,
    config: &ParserConfig,
    now_ms: i64,
    diagnostics: &mut ParserDiagnostics,
) -> (r: Result<Vec<Stream>>)
    ensures
        ({
            let (done, notes) = processed_streams(
                kind,
                streams.deep_view(),
                streams@.len() as int,
                config.deep_view(),
                now_ms as int,
            );
            view_result(r) == done && final(diagnostics).deep_view() == old(diagnostics).deep_view()
                + notes
        }),
{
    let ghost all = streams.deep_view();
    let ghost c = config.deep_view();
    let ghost start = diagnostics.deep_view();
    let mut out: Vec<Stream> = Vec::new();
    let mut i: usize = 0;
    assert(out.deep_view() =~= Seq::<StreamView>::empty());
    assert(start + Seq::<ParserDiagnosticView>::empty() =~= start);
    while i < streams.len()
        invariant
            i <= streams@.len(),
            all == streams.deep_view(),
            c == config.deep_view(),
            start == old(diagnostics).deep_view(),
            processed_streams(kind, all, i as int, c, now_ms as int).0 == Ok::<
                Seq<StreamView>,
                ErrorView,
            >(out.deep_view()),
            diagnostics.deep_view() == start + processed_streams(
                kind,
                all,
                i as int,
                c,
                now_ms as int,
            ).1,
        decreases streams@.len() - i,
    {
        let mut stream: Stream = streams[i].clone();
        assert(all[i as int] == stream.deep_view());
        let mut taken: Option<Playlist> = None;
        core::mem::swap(&mut stream.playlist, &mut taken);
        match taken {
            None => {},
            Some(p) => {
                let done: Result<Playlist> = process_playlist(kind, p, config, now_ms, diagnostics);
                assert(diagnostics.deep_view() =~= start + processed_streams(
                    kind,
                    all,
                    i + 1,
                    c,
                    now_ms as int,
                ).1);
                match done {
                    Ok(playlist) => {
                        stream.playlist = Some(playlist);
                    },
                    Err(e) => {
                        proof {
                            lemma_processed_streams_stop(kind, all, i + 1, c, now_ms as int);
                        }
                        return Err(e);
                    },
                }
            },
        }
        let ghost before = out.deep_view();
        let ghost item = stream.deep_view();
        out.push(stream);
        assert(out.deep_view() =~= before.push(item));
        i = i + 1;
    }
    Ok(out)
}

/// Two streams of one representation. Those of Smooth Streaming must agree in more.
pub open spec fn same_representation(kind: ExtractorType, a: StreamView, b: StreamView) -> bool {
    a.group_id == b.group_id && a.resolution == b.resolution && a.media_type == b.media_type && (
    kind != ExtractorType::Mss || (a.bandwidth == b.bandwidth && a.codecs == b.codecs && a.language
        == b.language && a.channels == b.channels))
}

fn is_same_representation(kind: ExtractorType, a: &Stream, b: &Stream) -> (r: bool)
    ensures
        r == same_representation(kind, a.deep_view(), b.deep_view()),
{
    let same_type: bool = match (a.media_type, b.media_type) {
        (Some(x), Some(y)) => x == y,
        (None, None) => true,
        _ => false,
    };
    let same_width: bool = match (a.bandwidth, b.bandwidth) {
        (Some(x), Some(y)) => x == y,
        (None, None) => true,
        _ => false,
    };
    same_opt(&a.group_id, &b.group_id) && same_opt(&a.resolution, &b.resolution) && same_type && (
    kind != ExtractorType::Mss || (same_width && same_opt(&a.codecs, &b.codecs) && same_opt(
        &a.language,
        &b.language,
    ) && same_opt(&a.channels, &b.channels)))
}

/// The URL of the initialization segment of a stream.
pub open spec fn init_url(s: StreamView) -> Option<Seq<char>> {
    match s.playlist {
        Some(p) => match p.media_init {
            Some(init) => Some(init.url),
            None => None,
        },
        None => None,
    }
}

/// The first stream that is of the same representation, or that begins with the same initialization
/// segment, from position `i` on.
pub open spec fn fresh_from(kind: ExtractorType, fresh: Seq<StreamView>, s: StreamView, by_init: bool, i: int) -> Option<int>
    decreases fresh.len() - i,
{
    if i < 0 || i >= fresh.len() {
        None
    } else if if by_init {
        init_url(fresh[i]) == init_url(s)
    } else {
        same_representation(kind, fresh[i], s)
    } {
        Some(i)
    } else {
        fresh_from(kind, fresh, s, by_init, i + 1)
    }
}

/// A stream with the segments that a newer manifest gives it.
pub open spec fn refreshed_stream(kind: ExtractorType, s: StreamView, fresh: Seq<StreamView>) -> StreamView {
    match either(fresh_from(kind, fresh, s, false, 0), fresh_from(kind, fresh, s, true, 0)) {
        None => s,
        Some(i) => match (s.playlist, fresh[i].playlist) {
            (Some(old_list), Some(new_list)) => StreamView {
                playlist: Some(PlaylistView { media_parts: new_list.media_parts, ..old_list }),
                ..s
            },
            _ => s,
        },
    }
}

fn init_of_stream(s: &Stream) -> (r: Option<&str>)
    ensures
        opt(r) == init_url(s.deep_view()),
{
    match &s.playlist {
        Some(p) => match &p.media_init {
            Some(init) => Some(init.url.as_str()),
            None => None,
        },
        None => None,
    }
}

fn find_fresh(kind: ExtractorType, fresh: &Vec<Stream>, s: &Stream, by_init: bool) -> (r: Option<usize>)
    ensures
        match r {
            Some(i) => i < fresh@.len() && fresh_from(
                kind,
                fresh.deep_view(),
                s.deep_view(),
                by_init,
                0,
            ) == Some(i as int),
            None => fresh_from(kind, fresh.deep_view(), s.deep_view(), by_init, 0) is None,
        },
{
    let ghost all = fresh.deep_view();
    let ghost sv = s.deep_view();
    let mut i: usize = 0;
    while i < fresh.len()
        invariant
            i <= fresh@.len(),
            all == fresh.deep_view(),
            sv == s.deep_view(),
            fresh_from(kind, all, sv, by_init, 0) == fresh_from(kind, all, sv, by_init, i as int),
        decreases fresh@.len() - i,
    {
        assert(all[i as int] == fresh@[i as int].deep_view());
        let f: &Stream = &fresh[i];
        let hit: bool = if by_init {
            match (init_of_stream(f), init_of_stream(s)) {
                (Some(a), Some(b)) => same(a, b),
                (None, None) => true,
                _ => false,
            }
        } else {
            is_same_representation(kind, f, s)
        };
        if hit {
            return Some(i);
        }
        i = i + 1;
    }
    None
}

fn copy_parts(parts: &Vec<MediaPart>) -> (r: Vec<MediaPart>)
    ensures
        r.deep_view() == parts.deep_view(),
{
    let mut out: Vec<MediaPart> = Vec::new();
    let mut i: usize = 0;
    while i < parts.len()
        invariant
            i <= parts@.len(),
            out.deep_view() =~= parts.deep_view().subrange(0, i as int),
        decreases parts@.len() - i,
    {
        let part: MediaPart = parts[i].clone();
        let ghost before = out.deep_view();
        let ghost view = part.deep_view();
        out.push(part);
        assert(out.deep_view() =~= before.push(view));
        assert(parts.deep_view()[i as int] == view);
        i = i + 1;
    }
    assert(parts.deep_view().subrange(0, parts@.len() as int) =~= parts.deep_view());
    out
}

/// The streams, each with the segments that a newer manifest gives it.
pub fn take_fresh_segments(kind: ExtractorType, streams: &Vec<Stream>, fresh: &Vec<Stream>) -> (r: Vec<Stream>)
    ensures
        r.deep_view() == streams.deep_view().map_values(
            |s: StreamView| refreshed_stream(kind, s, fresh.deep_view()),
        ),
{
    let ghost all = streams.deep_view();
    let ghost fv = fresh.deep_view();
    let mut out: Vec<Stream> = Vec::new();
    let mut i: usize = 0;
    while i < streams.len()
        invariant
            i <= streams@.len(),
            all == streams.deep_view(),
            fv == fresh.deep_view(),
            out@.len() == i,
            forall|k: int|
                0 <= k < i ==> (#[trigger] out@[k]).deep_view() == refreshed_stream(kind, all[k], fv),
        decreases streams@.len() - i,
    {
        let mut s: Stream = streams[i].clone();
        assert(s.deep_view() == all[i as int]);
        let found: Option<usize> = match find_fresh(kind, fresh, &s, false) {
            Some(k) => Some(k),
            None => find_fresh(kind, fresh, &s, true),
        };
        match found {
            None => {},
            Some(k) => {
                assert(fv[k as int] == fresh@[k as int].deep_view());
                match &fresh[k].playlist {
                    None => {},
                    Some(newer) => {
                        let mut taken: Option<Playlist> = None;
                        core::mem::swap(&mut s.playlist, &mut taken);
                        match taken {
                            None => {},
                            Some(p) => {
                                let mut p: Playlist = p;
                                p.media_parts = copy_parts(&newer.media_parts);
                                s.playlist = Some(p);
                            },
                        }
                    },
                }
            },
        }
        out.push(s);
        i = i + 1;
    }
    assert(out.deep_view() =~= all.map_values(|s: StreamView| refreshed_stream(kind, s, fv)));
    out
}

/// The streams, each with the segments that a newer manifest gives it and with the URLs of its
/// segments processed, and the messages about that.
pub open spec fn refreshed_streams(
    kind: ExtractorType,
    streams: Seq<StreamView>,
    fresh: Seq<StreamView>,
    config: ParserConfigView,
    now_ms: int,
) -> (core::result::Result<Seq<StreamView>, ErrorView>, Seq<ParserDiagnosticView>) {
    processed_streams(
        kind,
        streams.map_values(|s: StreamView| refreshed_stream(kind, s, fresh)),
        streams.len() as int,
        config,
        now_ms,
    )
}

/// The streams, each with the segments that a newer manifest gives it and with the URLs of its
/// segments processed.
pub fn refresh_from(
    kind: ExtractorType,
    streams: &Vec<Stream>,
    fresh: &Vec<Stream>,
    config: &ParserConfig,
    now_ms: i64,
    diagnostics: &mut ParserDiagnostics,
) -> (r: Result<Vec<Stream>>)
    ensures
        ({
            let (done, notes) = refreshed_streams(
                kind,
                streams.deep_view(),
                fresh.deep_view(),
                config.deep_view(),
                now_ms as int,
            );
            view_result(r) == done && final(diagnostics).deep_view() == old(diagnostics).deep_view()
                + notes
        }),
{
    let taken: Vec<Stream> = take_fresh_segments(kind, streams, fresh);
    let ghost fv = fresh.deep_view();
    assert(taken.deep_view() =~= streams.deep_view().map_values(
        |s: StreamView| refreshed_stream(kind, s, fv),
    ));
    assert(taken.deep_view().len() == streams.deep_view().len());
    process_urls(kind, &taken, config, now_ms, diagnostics)
}

} // verus!
