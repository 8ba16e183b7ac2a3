//! Limits on what a download may use, and on what it may show.

use crate::datetime::TimeSpan;
use crate::decrypt::{hide_secrets, redact_secrets};
use crate::error::{Error, ErrorView, Result};
use crate::event::{ProgressEvent, ProgressEventView};
use crate::manifest::{count_segments, stream_segments, MediaSegmentView, Stream, StreamView};
use crate::path::{file_name, join_path, path_file_name, path_join};
use crate::text::{begins_with, contains, has_text, owned, same, split, split_text, starts_with};
use vstd::prelude::*;

verus! {

/// How much a download may use.
#[derive(Clone, Copy, Debug, PartialEq, Eq, Structural)]
pub struct ResourceLimits {
    pub max_concurrent_streams: usize,
    pub max_segments_per_stream: usize,
    pub max_event_queue: usize,
    pub max_manifest_bytes: usize,
}

impl Default for ResourceLimits {
    fn default() -> (r: Self)
        ensures
            r == (ResourceLimits {
                max_concurrent_streams: 16,
                max_segments_per_stream: 200_000,
                max_event_queue: 4096,
                max_manifest_bytes: 16_777_216,
            }),
    {
        ResourceLimits {
            max_concurrent_streams: 16,
            max_segments_per_stream: 200_000,
            max_event_queue: 4096,
            max_manifest_bytes: 16_777_216,
        }
    }
}

/// How long a number of items took.
#[derive(Debug, PartialEq, Eq)]
pub struct BenchmarkMetric {
    pub name: String,
    pub items: usize,
    pub elapsed: TimeSpan,
}

impl BenchmarkMetric {
    /// The milliseconds that were counted, one at least.
    pub open spec fn millis(&self) -> int {
        let whole = self.elapsed.seconds * 1000 + self.elapsed.nanoseconds / 1_000_000;
        if whole < 1 {
            1
        } else {
            whole
        }
    }

    /// Items in each second, rounded down; the lowest 64 bits of the number.
    pub fn items_per_second(&self) -> (r: u64)
        ensures
            r == (self.items * 1000 / self.millis()) % 0x1_0000_0000_0000_0000,
    {
        let whole: u128 = self.elapsed.seconds as u128 * 1000 + (self.elapsed.nanoseconds
            / 1_000_000) as u128;
        let millis: u128 = if whole < 1 {
            1
        } else {
            whole
        };
        let rate: u128 = (self.items as u128 * 1000) / millis;
        (rate % 0x1_0000_0000_0000_0000) as u64
    }
}

/// A queue of events that holds no more than it was made for.
#[derive(Debug)]
pub struct BoundedEventQueue {
    capacity: usize,
    events: Vec<ProgressEvent>,
}

impl BoundedEventQueue {
    /// How many events fit.
    pub closed spec fn limit(&self) -> usize {
        self.capacity
    }

    /// The events, the oldest first.
    pub closed spec fn queued(&self) -> Seq<ProgressEventView> {
        self.events.deep_view()
    }

    /// The queue holds no more than it was made for.
    pub open spec fn wf(&self) -> bool {
        self.queued().len() <= self.limit()
    }

    /// An empty queue.
    pub fn new(capacity: usize) -> (r: Self)
        ensures
            r.wf(),
            r.limit() == capacity,
            r.queued() == Seq::<ProgressEventView>::empty(),
    {
        let r = BoundedEventQueue { capacity, events: Vec::new() };
        assert(r.events.deep_view() =~= Seq::<ProgressEventView>::empty());
        r
    }

    /// Appends an event; a full queue stays as it is.
    pub fn push(&mut self, event: ProgressEvent) -> (r: Result<()>)
        requires
            old(self).wf(),
        ensures
            final(self).wf(),
            final(self).limit() == old(self).limit(),
            r is Err <==> old(self).queued().len() >= old(self).limit(),
            match r {
                Ok(_) => final(self).queued() == old(self).queued().push(event.deep_view()),
                Err(e) => final(self).queued() == old(self).queued() && e.deep_view()
                    == ErrorView::Config("progress event queue capacity exceeded"@),
            },
    {
        if self.events.len() >= self.capacity {
            return Err(Error::config("progress event queue capacity exceeded"));
        }
        let ghost before = self.events.deep_view();
        let ghost item = event.deep_view();
        self.events.push(event);
        assert(self.events.deep_view() =~= before.push(item));
        Ok(())
    }

    /// The events, the oldest first; never more than the queue was made for.
    pub fn events(&self) -> (r: &Vec<ProgressEvent>)
        requires
            self.wf(),
        ensures
            r.deep_view() == self.queued(),
            r@.len() <= self.limit(),
    {
        &self.events
    }
}

proof fn lemma_more_parts(parts: Seq<Seq<MediaSegmentView>>, n: int)
    requires
        0 <= n <= parts.len(),
    ensures
        count_segments(parts.subrange(0, n)) <= count_segments(parts),
    decreases parts.len() - n,
{
    if n < parts.len() {
        lemma_more_parts(parts, n + 1);
        assert(parts.subrange(0, n + 1).drop_last() =~= parts.subrange(0, n));
    } else {
        assert(parts.subrange(0, n) =~= parts);
    }
}

fn has_more_segments(stream: &Stream, limit: usize) -> (r: bool)
    ensures
        r == (stream_segments(stream.deep_view()) > limit),
{
    match &stream.playlist {
        None => false,
        Some(p) => {
            let ghost parts = p.media_parts.deep_view();
            let mut total: usize = 0;
            let mut i: usize = 0;
            assert(parts.subrange(0, 0) =~= Seq::<Seq<MediaSegmentView>>::empty());
            while i < p.media_parts.len()
                invariant
                    i <= p.media_parts@.len(),
                    parts == p.media_parts.deep_view(),
                    stream.deep_view().playlist is Some,
                    (stream.deep_view().playlist->0).media_parts == parts,
                    total == count_segments(parts.subrange(0, i as int)),
                    total <= limit,
                decreases p.media_parts@.len() - i,
            {
                let n: usize = p.media_parts[i].media_segments.len();
                proof {
                    assert(parts.subrange(0, i + 1).drop_last() =~= parts.subrange(0, i as int));
                    assert(parts.subrange(0, i + 1).last() == p.media_parts@[i as int].deep_view());
                    lemma_more_parts(parts, i + 1);
                }
                if n > limit - total {
                    return true;
                }
                total = total + n;
                i = i + 1;
            }
            assert(parts.subrange(0, parts.len() as int) =~= parts);
            false
        },
    }
}

/// What speaks against downloading streams under limits.
pub open spec fn limit_objection(streams: Seq<StreamView>, limits: ResourceLimits) -> Option<ErrorView> {
    if streams.len() > limits.max_concurrent_streams {
        Some(ErrorView::Config("too many concurrent streams"@))
    } else if exists|i: int|
        0 <= i < streams.len() && stream_segments(#[trigger] streams[i])
            > limits.max_segments_per_stream {
        Some(ErrorView::Config("too many segments in one stream"@))
    } else {
        None
    }
}

/// Whether streams stay within limits.
pub fn validate_resource_limits(streams: &Vec<Stream>, limits: &ResourceLimits) -> (r: Result<()>)
    ensures
        match r {
            Ok(_) => limit_objection(streams.deep_view(), *limits) is None,
            Err(e) => limit_objection(streams.deep_view(), *limits) == Some(e.deep_view()),
        },
{
    let ghost all = streams.deep_view();
    if streams.len() > limits.max_concurrent_streams {
        return Err(Error::config("too many concurrent streams"));
    }
    let mut i: usize = 0;
    while i < streams.len()
        invariant
            i <= streams@.len(),
            streams@.len() <= limits.max_concurrent_streams,
            all == streams.deep_view(),
            forall|k: int|
                0 <= k < i ==> stream_segments(#[trigger] all[k]) <= limits.max_segments_per_stream,
        decreases streams@.len() - i,
    {
        assert(all[i as int] == streams@[i as int].deep_view());
        if has_more_segments(&streams[i], limits.max_segments_per_stream) {
            assert(stream_segments(all[i as int]) > limits.max_segments_per_stream);
            return Err(Error::config("too many segments in one stream"));
        }
        i = i + 1;
    }
    Ok(())
}

/// Whether a manifest stays within the limit on its size.
pub fn validate_manifest_size(bytes: usize, limits: &ResourceLimits) -> (r: Result<()>)
    ensures
        r is Err <==> bytes > limits.max_manifest_bytes,
        r is Err ==> r->Err_0.deep_view() == ErrorView::Config(
            "manifest exceeds configured size limit"@,
        ),
{
    if bytes > limits.max_manifest_bytes {
        Err(Error::config("manifest exceeds configured size limit"))
    } else {
        Ok(())
    }
}

/// The segments of the first `n` streams.
pub open spec fn segments_in(streams: Seq<StreamView>, n: int) -> nat
    decreases n,
{
    if n <= 0 {
        0
    } else {
        segments_in(streams, n - 1) + stream_segments(streams[n - 1])
    }
}

proof fn lemma_segments_grow(streams: Seq<StreamView>, n: int, m: int)
    requires
        0 <= n <= m <= streams.len(),
    ensures
        segments_in(streams, n) <= segments_in(streams, m),
    decreases m - n,
{
    if n < m {
        lemma_segments_grow(streams, n, m - 1);
    }
}

/// The segments of all streams together.
pub fn estimate_segment_count(streams: &Vec<Stream>) -> (r: usize)
    requires
        segments_in(streams.deep_view(), streams@.len() as int) <= usize::MAX,
    ensures
        r == segments_in(streams.deep_view(), streams@.len() as int),
{
    let ghost all = streams.deep_view();
    let mut total: usize = 0;
    let mut i: usize = 0;
    while i < streams.len()
        invariant
            i <= streams@.len(),
            all == streams.deep_view(),
            segments_in(all, all.len() as int) <= usize::MAX,
            total == segments_in(all, i as int),
        decreases streams@.len() - i,
    {
        proof {
            assert(all[i as int] == streams@[i as int].deep_view());
            lemma_segments_grow(all, i + 1, all.len() as int);
        }
        total = total + streams[i].segments_count();
        i = i + 1;
    }
    total
}

/// A secret stands in a text.
pub open spec fn shows_secret(text: Seq<char>, secrets: Seq<&str>) -> bool {
    exists|k: int|
        0 <= k < secrets.len() && (#[trigger] secrets[k])@.len() > 0 && contains(text, secrets[k]@)
}

/// Whether a secret stands in a text.
pub fn contains_unredacted_secret(text: &str, known_secrets: &[&str]) -> (r: bool)
    ensures
        r == shows_secret(text@, known_secrets@),
{
    let mut i: usize = 0;
    while i < known_secrets.len()
        invariant
            i <= known_secrets@.len(),
            forall|k: int|
                0 <= k < i ==> (#[trigger] known_secrets@[k])@.len() == 0 || !contains(
                    text@,
                    known_secrets@[k]@,
                ),
        decreases known_secrets@.len() - i,
    {
        let secret: &str = known_secrets[i];
        if secret.unicode_len() > 0 && has_text(text, secret) {
            assert(known_secrets@[i as int]@ == secret@);
            return true;
        }
        i = i + 1;
    }
    false
}

/// The text with keys, tokens and signatures replaced; an error where a known secret still stands
/// in it.
pub fn redact_and_verify(text: &str, known_secrets: &[&str]) -> (r: Result<String>)
    ensures
        r is Err <==> shows_secret(hide_secrets(text@), known_secrets@),
        match r {
            Ok(t) => t@ == hide_secrets(text@),
            Err(e) => e.deep_view() == ErrorView::Config(
                "redaction left sensitive material visible"@,
            ),
        },
{
    let redacted: String = redact_secrets(text);
    if contains_unredacted_secret(redacted.as_str(), known_secrets) {
        Err(Error::config("redaction left sensitive material visible"))
    } else {
        Ok(redacted)
    }
}

/// The ways in which a program ends without handling an error, in the order of the search.
pub open spec fn exit_markers() -> Seq<Seq<char>> {
    seq!["unwrap("@, "expect("@, "panic!"@, "todo!"@, "unimplemented!"@]
}

/// Those of the first `n` markers that stand in a text.
pub open spec fn markers_in(source: Seq<char>, n: int) -> Seq<Seq<char>>
    decreases n,
{
    if n <= 0 {
        Seq::empty()
    } else if contains(source, exit_markers()[n - 1]) {
        markers_in(source, n - 1).push(exit_markers()[n - 1])
    } else {
        markers_in(source, n - 1)
    }
}

fn push_marker(source: &str, marker: &str, n: Ghost<int>, found: &mut Vec<String>)
    requires
        0 <= n@ < 5,
        marker@ == exit_markers()[n@],
        old(found).deep_view() == markers_in(source@, n@),
    ensures
        final(found).deep_view() == markers_in(source@, n@ + 1),
{
    if has_text(source, marker) {
        let ghost before = found.deep_view();
        found.push(owned(marker));
        assert(found.deep_view() =~= before.push(marker@));
    }
}

/// The ways in which a source text ends a program without handling an error.
pub fn scan_unchecked_exit_paths(source: &str) -> (r: Vec<String>)
    ensures
        r.deep_view() == markers_in(source@, 5),
{
    let mut found: Vec<String> = Vec::new();
    assert(found.deep_view() =~= Seq::<Seq<char>>::empty());
    push_marker(source, "unwrap(", Ghost(0), &mut found);
    push_marker(source, "expect(", Ghost(1), &mut found);
    push_marker(source, "panic!", Ghost(2), &mut found);
    push_marker(source, "todo!", Ghost(3), &mut found);
    push_marker(source, "unimplemented!", Ghost(4), &mut found);
    found
}

/// The components of a path among its first `n` parts: nothing between two separators is no
/// component, and a dot is one at the start alone.
pub open spec fn components(parts: Seq<Seq<char>>, n: int) -> Seq<Seq<char>>
    decreases n,
{
    if n <= 0 {
        Seq::empty()
    } else {
        let part = parts[n - 1];
        if part.len() == 0 || (part == "."@ && n > 1) {
            components(parts, n - 1)
        } else {
            components(parts, n - 1).push(part)
        }
    }
}

/// The components of a path.
pub open spec fn path_components(path: Seq<char>) -> Seq<Seq<char>> {
    let parts = split(path, "/"@);
    components(parts, parts.len() as int)
}

/// Whether a path leads to a directory or to something inside it.
pub open spec fn is_within(path: Seq<char>, root: Seq<char>) -> bool {
    let p = path_components(path);
    let r = path_components(root);
    starts_with(path, "/"@) == starts_with(root, "/"@) && r.len() <= p.len() && p.subrange(
        0,
        r.len() as int,
    ) == r
}

fn components_of(path: &str) -> (r: Vec<String>)
    ensures
        r.deep_view() == path_components(path@),
{
    proof {
        reveal_strlit("/");
    }
    let parts: Vec<String> = split_text(path, "/");
    let ghost all = parts.deep_view();
    let mut out: Vec<String> = Vec::new();
    let mut i: usize = 0;
    assert(out.deep_view() =~= Seq::<Seq<char>>::empty());
    while i < parts.len()
        invariant
            i <= parts@.len(),
            all == parts.deep_view(),
            out.deep_view() == components(all, i as int),
        decreases parts@.len() - i,
    {
        assert(all[i as int] == parts@[i as int]@);
        let part: &str = parts[i].as_str();
        if !(part.unicode_len() == 0 || (same(part, ".") && i > 0)) {
            let ghost before = out.deep_view();
            out.push(owned(part));
            assert(out.deep_view() =~= before.push(all[i as int]));
        }
        i = i + 1;
    }
    out
}

fn lies_within(path: &str, root: &str) -> (r: bool)
    ensures
        r == is_within(path@, root@),
{
    if begins_with(path, "/") != begins_with(root, "/") {
        return false;
    }
    let p: Vec<String> = components_of(path);
    let q: Vec<String> = components_of(root);
    if q.len() > p.len() {
        return false;
    }
    let ghost pv = p.deep_view();
    let ghost qv = q.deep_view();
    let mut i: usize = 0;
    while i < q.len()
        invariant
            i <= q@.len() <= p@.len(),
            pv == p.deep_view(),
            qv == q.deep_view(),
            pv == path_components(path@),
            qv == path_components(root@),
            forall|k: int| 0 <= k < i ==> pv[k] == qv[k],
        decreases q@.len() - i,
    {
        assert(pv[i as int] == p@[i as int]@ && qv[i as int] == q@[i as int]@);
        if !same(p[i].as_str(), q[i].as_str()) {
            assert(pv.subrange(0, qv.len() as int)[i as int] != qv[i as int]);
            return false;
        }
        i = i + 1;
    }
    assert(pv.subrange(0, qv.len() as int) =~= qv);
    true
}

/// A path that is to be removed, as the file system resolves it.
#[derive(Debug, PartialEq, Eq)]
pub struct CleanupPath {
    pub path: String,
    /// The path without links, where something is there.
    pub resolved: Option<String>,
    /// The directory that holds it without links, where that can be told.
    pub resolved_parent: Option<String>,
}

/// Model of `CleanupPath`.
pub struct CleanupPathView {
    pub path: Seq<char>,
    pub resolved: Option<Seq<char>>,
    pub resolved_parent: Option<Seq<char>>,
}

impl DeepView for CleanupPath {
    type V = CleanupPathView;

    open spec fn deep_view(&self) -> CleanupPathView {
        CleanupPathView {
            path: self.path@,
            resolved: self.resolved.deep_view(),
            resolved_parent: self.resolved_parent.deep_view(),
        }
    }
}

/// Where a path leads: where nothing is there, to its name in the directory that would hold it, or
/// in the root where that cannot be told.
pub open spec fn cleanup_target(p: CleanupPathView, root: Seq<char>) -> Seq<char> {
    match p.resolved {
        Some(r) => r,
        None => path_join(
            match p.resolved_parent {
                Some(d) => d,
                None => root,
            },
            match path_file_name(p.path) {
                Some(n) => n,
                None => ""@,
            },
        ),
    }
}

fn target_of(p: &CleanupPath, root: &str) -> (r: String)
    ensures
        r@ == cleanup_target(p.deep_view(), root@),
{
    match &p.resolved {
        Some(r) => r.clone(),
        None => {
            let directory: &str = match &p.resolved_parent {
                Some(d) => d.as_str(),
                None => root,
            };
            let name: &str = match file_name(p.path.as_str()) {
                Some(n) => n,
                None => "",
            };
            join_path(directory, name)
        },
    }
}

/// Whether all paths lead into the root, which is given without links.
pub fn validate_cleanup_paths(root: &str, paths: &Vec<CleanupPath>) -> (r: Result<()>)
    ensures
        r is Ok <==> forall|i: int|
            0 <= i < paths@.len() ==> is_within(
                cleanup_target(#[trigger] paths.deep_view()[i], root@),
                root@,
            ),
        r is Err ==> r->Err_0.deep_view() == ErrorView::Config("cleanup path escapes temp root"@),
{
    let ghost all = paths.deep_view();
    let mut i: usize = 0;
    while i < paths.len()
        invariant
            i <= paths@.len(),
            all == paths.deep_view(),
            forall|k: int|
                0 <= k < i ==> is_within(cleanup_target(#[trigger] all[k], root@), root@),
        decreases paths@.len() - i,
    {
        assert(all[i as int] == paths@[i as int].deep_view());
        let target: String = target_of(&paths[i], root);
        if !lies_within(target.as_str(), root) {
            assert(!is_within(cleanup_target(all[i as int], root@), root@));
            return Err(Error::config("cleanup path escapes temp root"));
        }
        i = i + 1;
    }
    Ok(())
}

} // verus!
