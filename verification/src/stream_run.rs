//! What a stream becomes over all that happens to it.

use crate::download::{is_complete, SegmentDownloadResultView, SpeedReading};
use crate::error::ErrorView;
use crate::event::ProgressEventView;
use crate::manifest::StreamView;
use crate::mux::MediaInfoView;
use crate::stream_task::{
    batch_of, covers, has_init, insert_by_order, stream_batched, stream_begun, stream_closed,
    stream_fetched, stream_hooked, stream_inspected, stream_probed, stream_ready, stream_rewritten,
    stream_sized, to_accept, to_batch, to_close, to_first, to_hook, to_next, to_probe, to_rest,
    with_file, with_results, BatchItemView, Moved, Place, StreamActionView, StreamPhase,
    StreamSettingsView, StreamTaskView,
};
use vstd::prelude::*;

verus! {

/// Something that a stream waits for.
pub enum StreamEventView {
    Sized(Option<i64>),
    DirsMade(SpeedReading),
    Fetched(core::result::Result<SegmentDownloadResultView, ErrorView>, SpeedReading),
    Inspected(Seq<u8>, SpeedReading),
    Rewritten(SpeedReading),
    Hooked(Seq<ProgressEventView>, SpeedReading),
    Probed(Seq<MediaInfoView>, SpeedReading),
    Batched(Seq<BatchItemView>, SpeedReading),
    Closed(Seq<ProgressEventView>),
}

/// The stream waits for the event.
pub open spec fn is_awaited(t: StreamTaskView, e: StreamEventView) -> bool {
    match e {
        StreamEventView::Sized(_) => t.phase == StreamPhase::Sizing,
        StreamEventView::DirsMade(_) => t.phase == StreamPhase::Preparing,
        StreamEventView::Fetched(_, _) => t.phase == StreamPhase::Fetching,
        StreamEventView::Inspected(_, _) => t.phase == StreamPhase::Inspecting,
        StreamEventView::Rewritten(_) => t.phase == StreamPhase::Rewriting,
        StreamEventView::Hooked(_, _) => t.phase == StreamPhase::Hooking,
        StreamEventView::Probed(_, _) => t.phase == StreamPhase::Probing,
        StreamEventView::Batched(items, _) => t.phase == StreamPhase::Batching && covers(
            items,
            t.start,
            t.next,
        ),
        StreamEventView::Closed(_) => t.phase == StreamPhase::Closing,
    }
}

/// What follows from an event.
pub open spec fn answered(t: StreamTaskView, e: StreamEventView) -> Moved {
    match e {
        StreamEventView::Sized(size) => stream_sized(t, size),
        StreamEventView::DirsMade(speed) => stream_ready(t, speed),
        StreamEventView::Fetched(outcome, speed) => stream_fetched(t, outcome, speed),
        StreamEventView::Inspected(bytes, speed) => stream_inspected(t, bytes, speed),
        StreamEventView::Rewritten(speed) => stream_rewritten(t, speed),
        StreamEventView::Hooked(events, speed) => stream_hooked(t, events, speed),
        StreamEventView::Probed(infos, speed) => stream_probed(t, infos, speed),
        StreamEventView::Batched(items, speed) => stream_batched(t, items, speed),
        StreamEventView::Closed(events) => stream_closed(t, events),
    }
}

/// A stream after its first `n` events.
pub open spec fn run(
    settings: StreamSettingsView,
    stream: StreamView,
    events: Seq<StreamEventView>,
    n: int,
) -> Moved
    decreases n,
{
    if n <= 0 {
        stream_begun(settings, stream)
    } else {
        answered(run(settings, stream, events, n - 1).0, events[n - 1])
    }
}

/// Every event is one that the stream waits for.
pub open spec fn all_awaited(
    settings: StreamSettingsView,
    stream: StreamView,
    events: Seq<StreamEventView>,
) -> bool {
    forall|i: int|
        0 <= i < events.len() ==> is_awaited(
            run(settings, stream, events, i).0,
            #[trigger] events[i],
        )
}

/// The complete ones among the first `n` results, each with the position of its segment and its file.
pub open spec fn complete_ones(kept: Seq<(int, SegmentDownloadResultView)>, n: int) -> Seq<
    (int, Seq<char>),
>
    decreases n,
{
    if n <= 0 {
        Seq::empty()
    } else if is_complete(kept[n - 1].1) {
        complete_ones(kept, n - 1).push((kept[n - 1].0, kept[n - 1].1.actual_file_path))
    } else {
        complete_ones(kept, n - 1)
    }
}

/// The position of the segment that is being fetched alone; the initialization segment comes before
/// the first.
pub open spec fn position_of(t: StreamTaskView) -> int {
    if t.place == Place::Init {
        -1
    } else {
        t.next - 1
    }
}

/// The files that an event brings, each with the position of its segment.
pub open spec fn brought(t: StreamTaskView, e: StreamEventView) -> Seq<(int, Seq<char>)> {
    match e {
        StreamEventView::Fetched(Ok(r), _) => if is_complete(r) {
            seq![(position_of(t), r.actual_file_path)]
        } else {
            Seq::empty()
        },
        StreamEventView::Batched(items, _) => {
            let b = batch_of(items, items.len() as int, t.missing);
            complete_ones(b.kept, b.kept.len() as int)
        },
        _ => Seq::empty(),
    }
}

/// The files that the first `n` events brought, each with the position of its segment.
pub open spec fn all_brought(
    settings: StreamSettingsView,
    stream: StreamView,
    events: Seq<StreamEventView>,
    n: int,
) -> Seq<(int, Seq<char>)>
    decreases n,
{
    if n <= 0 {
        Seq::empty()
    } else {
        all_brought(settings, stream, events, n - 1) + brought(
            run(settings, stream, events, n - 1).0,
            events[n - 1],
        )
    }
}

/// The positions of files.
pub open spec fn positions(log: Seq<(int, Seq<char>)>) -> Seq<int> {
    log.map_values(|x: (int, Seq<char>)| x.0)
}

/// The files alone.
pub open spec fn files_of(log: Seq<(int, Seq<char>)>) -> Seq<Seq<char>> {
    log.map_values(|x: (int, Seq<char>)| x.1)
}

/// The positions of the first `m` segments in their order, behind that of the initialization segment
/// where there is one.
pub open spec fn in_playlist_order(init: bool, m: int) -> Seq<int> {
    let lead: int = if init {
        1
    } else {
        0
    };
    Seq::new((lead + m) as nat, |i: int| i - lead)
}

/// The positions of a stream lie within it.
spec fn is_placed(t: StreamTaskView) -> bool {
    0 <= t.start <= t.next <= t.segments.len() && t.chunk >= 0
}

/// The files of a stream are those of its first `m` segments, unless something is missing.
spec fn stands_at(t: StreamTaskView, log: Seq<(int, Seq<char>)>, m: int) -> bool {
    &&& is_placed(t)
    &&& 0 <= m
    &&& files_of(log) == t.files
    &&& t.missing == 0 && t.all_good ==> positions(log) == in_playlist_order(has_init(t.stream), m)
}

/// The file that is being dealt with comes next.
spec fn holds(t: StreamTaskView, log: Seq<(int, Seq<char>)>) -> bool {
    &&& is_placed(t)
    &&& files_of(log) == t.files.push(t.current)
    &&& match t.place {
        Place::Init => t.next == 0 && has_init(t.stream),
        Place::First => t.next == 1,
        Place::Later => t.next >= 1,
    }
    &&& t.missing == 0 && t.all_good ==> positions(log) == in_playlist_order(
        has_init(t.stream),
        t.next,
    )
}

/// What holds of a stream and the files that were brought.
spec fn keeps(t: StreamTaskView, log: Seq<(int, Seq<char>)>) -> bool {
    match t.phase {
        StreamPhase::Sizing => is_placed(t) && t.next == 0 && log.len() == 0 && t.files.len() == 0,
        StreamPhase::Preparing => is_placed(t) && t.next == 0 && log.len() == 0 && t.files.len() == 0,
        StreamPhase::Fetching => match t.place {
            Place::Init => is_placed(t) && t.next == 0 && log.len() == 0 && t.files.len() == 0
                && has_init(t.stream),
            Place::First => stands_at(t, log, 0) && t.next == 1,
            Place::Later => stands_at(t, log, t.next - 1) && t.next >= 1,
        },
        StreamPhase::Inspecting => holds(t, log),
        StreamPhase::Rewriting => holds(t, log),
        StreamPhase::Hooking => holds(t, log),
        StreamPhase::Probing => holds(t, log),
        StreamPhase::Batching => stands_at(t, log, t.start),
        StreamPhase::Closing => stands_at(t, log, t.segments.len() as int) && t.all_good && (
        t.settings.check_segments_count ==> t.missing == 0),
        StreamPhase::Over => true,
    }
}

/// What holds after an event.
spec fn comes_to(m: Moved, log: Seq<(int, Seq<char>)>) -> bool {
    let (t, step) = m;
    match step.action {
        StreamActionView::Finish(result) => t.phase == StreamPhase::Over && result.files == files_of(
            log,
        ) && (t.settings.check_segments_count ==> positions(log) == in_playlist_order(
            has_init(t.stream),
            t.segments.len() as int,
        )),
        StreamActionView::Fail(_) => t.phase == StreamPhase::Over,
        _ => t.phase != StreamPhase::Over && keeps(t, log),
    }
}

proof fn lemma_close(t: StreamTaskView, events: Seq<ProgressEventView>, log: Seq<(int, Seq<char>)>)
    requires
        stands_at(t, log, t.segments.len() as int),
    ensures
        comes_to(to_close(t, events), log),
{
}

proof fn lemma_next(t: StreamTaskView, events: Seq<ProgressEventView>, log: Seq<(int, Seq<char>)>)
    requires
        stands_at(t, log, t.next),
    ensures
        comes_to(to_next(t, events), log),
{
    if t.next >= t.segments.len() {
        lemma_close(t, events, log);
    }
}

proof fn lemma_batch(
    t: StreamTaskView,
    events: Seq<ProgressEventView>,
    speed: SpeedReading,
    log: Seq<(int, Seq<char>)>,
)
    requires
        stands_at(t, log, t.next),
    ensures
        comes_to(to_batch(t, events, speed), log),
{
    if t.next >= t.segments.len() {
        lemma_close(
            t,
            events + crate::stream_task::told_progress(t, speed, crate::stream_task::total_of(t)),
            log,
        );
    }
}

proof fn lemma_rest(
    t: StreamTaskView,
    events: Seq<ProgressEventView>,
    speed: SpeedReading,
    log: Seq<(int, Seq<char>)>,
)
    requires
        stands_at(t, log, t.next),
    ensures
        comes_to(to_rest(t, events, speed), log),
{
    lemma_next(t, events, log);
    match crate::download::mode_for(t.settings.thread_count, t.segments.len() - t.next) {
        Ok(crate::download::ThreadMode::Concurrent(n)) => {
            let u = StreamTaskView { chunk: n as int, ..t };
            lemma_batch(u, events, speed, log);
        },
        _ => {},
    }
}

proof fn lemma_first(
    t: StreamTaskView,
    events: Seq<ProgressEventView>,
    speed: SpeedReading,
    log: Seq<(int, Seq<char>)>,
)
    requires
        stands_at(t, log, 0),
        t.next == 0,
    ensures
        comes_to(to_first(t, events, speed), log),
{
    lemma_rest(t, events, speed, log);
}

proof fn lemma_accept(
    t: StreamTaskView,
    events: Seq<ProgressEventView>,
    speed: SpeedReading,
    log: Seq<(int, Seq<char>)>,
)
    requires
        holds(t, log),
    ensures
        comes_to(to_accept(t, events, speed), log),
{
    let taken = with_file(t);
    let told = events + crate::stream_task::told_progress(
        taken,
        speed,
        crate::stream_task::total_of(t),
    );
    assert(stands_at(taken, log, t.next));
    match t.place {
        Place::Init => {
            lemma_first(taken, told, speed, log);
        },
        Place::First => {
            lemma_rest(taken, told, speed, log);
        },
        Place::Later => {
            lemma_next(taken, told, log);
        },
    }
}

proof fn lemma_probe(
    t: StreamTaskView,
    events: Seq<ProgressEventView>,
    speed: SpeedReading,
    log: Seq<(int, Seq<char>)>,
)
    requires
        holds(t, log),
    ensures
        comes_to(to_probe(t, events, speed), log),
{
    lemma_accept(t, events, speed, log);
}

proof fn lemma_hook(
    t: StreamTaskView,
    events: Seq<ProgressEventView>,
    speed: SpeedReading,
    log: Seq<(int, Seq<char>)>,
)
    requires
        holds(t, log),
    ensures
        comes_to(to_hook(t, events, speed), log),
{
    lemma_probe(t, events, speed, log);
}

/// A file more.
proof fn lemma_one_more(log: Seq<(int, Seq<char>)>, position: int, file: Seq<char>, init: bool, m: int)
    requires
        0 <= m,
        position == m,
    ensures
        files_of(log.push((position, file))) == files_of(log).push(file),
        positions(log) == in_playlist_order(init, m) ==> positions(log.push((position, file)))
            == in_playlist_order(init, m + 1),
{
    assert(files_of(log.push((position, file))) =~= files_of(log).push(file));
    if positions(log) == in_playlist_order(init, m) {
        assert(positions(log.push((position, file))) =~= in_playlist_order(init, m).push(position));
        assert(in_playlist_order(init, m).push(position) =~= in_playlist_order(init, m + 1));
    }
}

proof fn lemma_fetched(
    t: StreamTaskView,
    outcome: core::result::Result<SegmentDownloadResultView, ErrorView>,
    speed: SpeedReading,
    log: Seq<(int, Seq<char>)>,
)
    requires
        t.phase == StreamPhase::Fetching,
        keeps(t, log),
    ensures
        comes_to(
            stream_fetched(t, outcome, speed),
            log + brought(t, StreamEventView::Fetched(outcome, speed)),
        ),
{
    let e = StreamEventView::Fetched(outcome, speed);
    match outcome {
        Ok(r) => {
            if is_complete(r) {
                let file = r.actual_file_path;
                let u = StreamTaskView { current: file, ..t };
                let more = log.push((position_of(t), file));
                assert(log + brought(t, e) =~= more);
                match t.place {
                    Place::Init => {
                        assert(files_of(more) =~= seq![file]);
                        assert(t.files =~= Seq::empty());
                        assert(t.files.push(file) =~= seq![file]);
                        assert(positions(more) =~= in_playlist_order(true, 0));
                        assert(holds(u, more));
                    },
                    Place::First => {
                        lemma_one_more(log, 0, file, has_init(t.stream), 0);
                        assert(holds(u, more));
                    },
                    Place::Later => {
                        lemma_one_more(log, t.next - 1, file, has_init(t.stream), t.next - 1);
                        assert(holds(u, more));
                        lemma_hook(u, Seq::empty(), speed, more);
                    },
                }
            } else {
                assert(log + brought(t, e) =~= log);
                if t.place == Place::Later {
                    let u = StreamTaskView {
                        results: crate::download::capped_add(t.results, 1),
                        all_good: false,
                        ..t
                    };
                    lemma_next(u, Seq::empty(), log);
                }
            }
        },
        Err(error) => {
            assert(log + brought(t, e) =~= log);
            if t.place == Place::Later {
                let u = StreamTaskView { missing: crate::download::capped_add(t.missing, 1), ..t };
                assert(u.missing != 0);
                lemma_next(u, seq![crate::stream_task::warning(error.message())], log);
            }
        },
    }
}

proof fn lemma_with_results(t: StreamTaskView, kept: Seq<(int, SegmentDownloadResultView)>, n: int)
    requires
        0 <= n <= kept.len(),
    ensures
        with_results(t, kept, n).files == t.files + files_of(complete_ones(kept, n)),
        with_results(t, kept, n).all_good ==> t.all_good && complete_ones(kept, n).len() == n,
        with_results(t, kept, n).missing == t.missing,
        with_results(t, kept, n).next == t.next,
        with_results(t, kept, n).start == t.start,
        with_results(t, kept, n).chunk == t.chunk,
        with_results(t, kept, n).segments == t.segments,
        with_results(t, kept, n).stream == t.stream,
        with_results(t, kept, n).settings == t.settings,
    decreases n,
{
    if n > 0 {
        lemma_with_results(t, kept, n - 1);
        let before = complete_ones(kept, n - 1);
        let r = kept[n - 1].1;
        if is_complete(r) {
            assert(files_of(before.push((kept[n - 1].0, r.actual_file_path))) =~= files_of(
                before,
            ).push(r.actual_file_path));
            assert(t.files + files_of(before).push(r.actual_file_path) =~= (t.files + files_of(
                before,
            )).push(r.actual_file_path));
        }
        lemma_complete_count(kept, n - 1);
    } else {
        assert(t.files + files_of(complete_ones(kept, 0)) =~= t.files);
    }
}

proof fn lemma_complete_count(kept: Seq<(int, SegmentDownloadResultView)>, n: int)
    requires
        0 <= n <= kept.len(),
    ensures
        complete_ones(kept, n).len() <= n,
    decreases n,
{
    if n > 0 {
        lemma_complete_count(kept, n - 1);
    }
}

proof fn lemma_all_complete(kept: Seq<(int, SegmentDownloadResultView)>, n: int, i: int)
    requires
        0 <= i < n <= kept.len(),
        complete_ones(kept, n).len() == n,
    ensures
        complete_ones(kept, n)[i].0 == kept[i].0,
    decreases n,
{
    lemma_complete_count(kept, n - 1);
    if i < n - 1 {
        lemma_all_complete(kept, n - 1, i);
    }
}

/// The positions go up.
spec fn go_up(kept: Seq<(int, SegmentDownloadResultView)>) -> bool {
    forall|i: int, j: int| 0 <= i < j < kept.len() ==> (#[trigger] kept[i]).0 < (#[trigger] kept[j]).0
}

proof fn lemma_inserted(kept: Seq<(int, SegmentDownloadResultView)>, x: (int, SegmentDownloadResultView))
    requires
        go_up(kept),
        forall|i: int| 0 <= i < kept.len() ==> (#[trigger] kept[i]).0 != x.0,
    ensures
        go_up(insert_by_order(kept, x)),
        insert_by_order(kept, x).len() == kept.len() + 1,
        forall|i: int|
            0 <= i < insert_by_order(kept, x).len() ==> (#[trigger] insert_by_order(kept, x)[i]) == x
                || kept.contains(insert_by_order(kept, x)[i]),
    decreases kept.len(),
{
    let r = insert_by_order(kept, x);
    if kept.len() > 0 && x.0 < kept.last().0 {
        let front = kept.drop_last();
        assert forall|i: int| 0 <= i < front.len() implies (#[trigger] front[i]).0 != x.0 by {
            assert(front[i] == kept[i]);
        }
        assert(go_up(front)) by {
            assert forall|i: int, j: int| 0 <= i < j < front.len() implies (#[trigger] front[i]).0 < (
            #[trigger] front[j]).0 by {
                assert(kept[i].0 < kept[j].0);
            }
        }
        lemma_inserted(front, x);
        let q = insert_by_order(front, x);
        assert(r == q.push(kept.last()));
        assert forall|i: int| 0 <= i < q.len() implies (#[trigger] q[i]).0 < kept.last().0 by {
            if q[i] != x {
                assert(front.contains(q[i]));
                let k = choose|k: int| 0 <= k < front.len() && front[k] == q[i];
                assert(kept[k].0 < kept[kept.len() - 1].0);
            }
        }
        assert forall|i: int, j: int| 0 <= i < j < r.len() implies (#[trigger] r[i]).0 < (
        #[trigger] r[j]).0 by {
            assert(r[i] == q[i]);
            if j < q.len() {
                assert(r[j] == q[j]);
            }
        }
        assert forall|i: int| 0 <= i < r.len() implies (#[trigger] r[i]) == x || kept.contains(
            r[i],
        ) by {
            if i < q.len() {
                assert(r[i] == q[i]);
                if q[i] != x {
                    assert(front.contains(q[i]));
                    let k = choose|k: int| 0 <= k < front.len() && front[k] == q[i];
                    assert(kept[k] == r[i]);
                }
            } else {
                assert(kept[kept.len() - 1] == r[i]);
            }
        }
    } else {
        assert forall|i: int, j: int| 0 <= i < j < r.len() implies (#[trigger] r[i]).0 < (
        #[trigger] r[j]).0 by {
            if j < kept.len() {
                assert(kept[i].0 < kept[j].0);
            } else {
                assert(kept[i].0 != x.0);
                assert(kept[kept.len() - 1].0 != x.0);
                if i < kept.len() - 1 {
                    assert(kept[i].0 < kept[kept.len() - 1].0);
                }
            }
        }
        assert forall|i: int| 0 <= i < r.len() implies (#[trigger] r[i]) == x || kept.contains(
            r[i],
        ) by {
            if i < kept.len() {
                assert(kept[i] == r[i]);
            }
        }
    }
}

proof fn lemma_batch_of(items: Seq<BatchItemView>, n: int, missing: u64, start: int, end: int)
    requires
        covers(items, start, end),
        0 <= n <= items.len(),
    ensures
        ({
            let b = batch_of(items, n, missing);
            &&& go_up(b.kept)
            &&& b.stopped is None && b.missing == 0 ==> missing == 0 && b.kept.len() == n
            &&& forall|i: int|
                0 <= i < b.kept.len() ==> exists|k: int|
                    0 <= k < n && (#[trigger] b.kept[i]).0 == (#[trigger] items[k]).order
        }),
    decreases n,
{
    if n > 0 {
        lemma_batch_of(items, n - 1, missing, start, end);
        let before = batch_of(items, n - 1, missing);
        let b = batch_of(items, n, missing);
        if before.stopped is None {
            match items[n - 1].outcome {
                Ok(r) => {
                    let x = (items[n - 1].order, r);
                    assert forall|i: int| 0 <= i < before.kept.len() implies (
                    #[trigger] before.kept[i]).0 != x.0 by {
                        let k = choose|k: int|
                            0 <= k < n - 1 && before.kept[i].0 == (#[trigger] items[k]).order;
                        assert(items[k].order != items[n - 1].order);
                    }
                    lemma_inserted(before.kept, x);
                    assert forall|i: int| 0 <= i < b.kept.len() implies exists|k: int|
                        0 <= k < n && (#[trigger] b.kept[i]).0 == (#[trigger] items[k]).order by {
                        if b.kept[i] == x {
                            assert(b.kept[i].0 == items[n - 1].order);
                        } else {
                            assert(before.kept.contains(b.kept[i]));
                            let p = choose|p: int|
                                0 <= p < before.kept.len() && before.kept[p] == b.kept[i];
                            let k = choose|k: int|
                                0 <= k < n - 1 && before.kept[p].0 == (#[trigger] items[k]).order;
                            assert(b.kept[i].0 == items[k].order);
                        }
                    }
                },
                Err(_) => {},
            }
        }
        assert forall|i: int| 0 <= i < b.kept.len() implies exists|k: int|
            0 <= k < n && (#[trigger] b.kept[i]).0 == (#[trigger] items[k]).order by {
            if b.kept == before.kept {
                let k = choose|k: int|
                    0 <= k < n - 1 && before.kept[i].0 == (#[trigger] items[k]).order;
                assert(b.kept[i].0 == items[k].order);
            }
        }
    }
}

/// Numbers that go up, between two bounds that leave no room, are all of them.
proof fn lemma_no_room(kept: Seq<(int, SegmentDownloadResultView)>, start: int, end: int, i: int)
    requires
        go_up(kept),
        kept.len() == end - start,
        forall|k: int| 0 <= k < kept.len() ==> start <= (#[trigger] kept[k]).0 < end,
        0 <= i < kept.len(),
    ensures
        kept[i].0 == start + i,
{
    lemma_at_least(kept, start, i);
    lemma_at_most(kept, end, i);
}

proof fn lemma_at_least(kept: Seq<(int, SegmentDownloadResultView)>, start: int, i: int)
    requires
        go_up(kept),
        forall|k: int| 0 <= k < kept.len() ==> start <= (#[trigger] kept[k]).0,
        0 <= i < kept.len(),
    ensures
        kept[i].0 >= start + i,
    decreases i,
{
    if i > 0 {
        lemma_at_least(kept, start, i - 1);
        assert(kept[i - 1].0 < kept[i].0);
    }
}

proof fn lemma_at_most(kept: Seq<(int, SegmentDownloadResultView)>, end: int, i: int)
    requires
        go_up(kept),
        forall|k: int| 0 <= k < kept.len() ==> (#[trigger] kept[k]).0 < end,
        0 <= i < kept.len(),
    ensures
        kept[i].0 <= end - (kept.len() - i),
    decreases kept.len() - i,
{
    if i < kept.len() - 1 {
        lemma_at_most(kept, end, i + 1);
        assert(kept[i].0 < kept[i + 1].0);
    }
}

proof fn lemma_batched(
    t: StreamTaskView,
    items: Seq<BatchItemView>,
    speed: SpeedReading,
    log: Seq<(int, Seq<char>)>,
)
    requires
        t.phase == StreamPhase::Batching,
        keeps(t, log),
        covers(items, t.start, t.next),
    ensures
        comes_to(
            stream_batched(t, items, speed),
            log + brought(t, StreamEventView::Batched(items, speed)),
        ),
{
    let b = batch_of(items, items.len() as int, t.missing);
    let n = b.kept.len() as int;
    let new = complete_ones(b.kept, n);
    let more = log + new;
    lemma_batch_of(items, items.len() as int, t.missing, t.start, t.next);
    if b.stopped is None {
        let u = StreamTaskView { missing: b.missing, ..t };
        let w = with_results(u, b.kept, n);
        lemma_with_results(u, b.kept, n);
        assert(files_of(more) =~= files_of(log) + files_of(new));
        if w.missing == 0 && w.all_good {
            assert forall|k: int| 0 <= k < b.kept.len() implies t.start <= (#[trigger] b.kept[k]).0
                < t.next by {
                let j = choose|j: int|
                    0 <= j < items.len() && b.kept[k].0 == (#[trigger] items[j]).order;
                assert(t.start <= items[j].order < t.next);
            }
            let before = in_playlist_order(has_init(t.stream), t.start);
            let after = in_playlist_order(has_init(t.stream), t.next);
            assert(positions(log) == before);
            assert forall|i: int| 0 <= i < new.len() implies (#[trigger] new[i]).0 == t.start + i by {
                lemma_all_complete(b.kept, n, i);
                lemma_no_room(b.kept, t.start, t.next, i);
            }
            assert forall|i: int| 0 <= i < after.len() implies #[trigger] positions(more)[i]
                == after[i] by {
                if i < log.len() {
                    assert(more[i] == log[i]);
                    assert(positions(log)[i] == before[i]);
                } else {
                    assert(more[i] == new[i - log.len()]);
                }
            }
            assert(positions(log).len() == log.len());
            assert(positions(more) =~= after);
        }
        assert(stands_at(w, more, t.next));
        lemma_batch(w, b.events, speed, more);
    }
}

proof fn lemma_answered(t: StreamTaskView, e: StreamEventView, log: Seq<(int, Seq<char>)>)
    requires
        is_awaited(t, e),
        keeps(t, log),
    ensures
        comes_to(answered(t, e), log + brought(t, e)),
{
    match e {
        StreamEventView::Fetched(outcome, speed) => {
            lemma_fetched(t, outcome, speed, log);
        },
        StreamEventView::Batched(items, speed) => {
            lemma_batched(t, items, speed, log);
        },
        _ => {
            assert(brought(t, e) =~= Seq::empty());
            assert(log + brought(t, e) =~= log);
            lemma_plain(t, e, log);
        },
    }
}

proof fn lemma_plain(t: StreamTaskView, e: StreamEventView, log: Seq<(int, Seq<char>)>)
    requires
        is_awaited(t, e),
        keeps(t, log),
        !(e is Fetched),
        !(e is Batched),
    ensures
        comes_to(answered(t, e), log),
{
    match e {
        StreamEventView::Sized(size) => {},
        StreamEventView::DirsMade(speed) => {
            if !has_init(t.stream) {
                assert(files_of(log) =~= t.files);
                assert(positions(log) =~= in_playlist_order(false, 0));
                lemma_first(t, crate::stream_task::opening_events(t, speed), speed, log);
            }
        },
        StreamEventView::Inspected(bytes, speed) => {
            let told = crate::stream_task::protection_events(
                t.settings.stream_id,
                crate::decrypt::scan_from(bytes, 0, crate::decrypt::no_protection()),
            );
            lemma_hook(t, told, speed, log);
        },
        StreamEventView::Rewritten(speed) => {
            lemma_hook(t, Seq::empty(), speed, log);
        },
        StreamEventView::Hooked(events, speed) => {
            lemma_probe(t, events, speed, log);
        },
        StreamEventView::Probed(infos, speed) => {
            lemma_probed(t, infos, speed, log);
        },
        StreamEventView::Closed(events) => {},
        _ => {},
    }
}

proof fn lemma_probed(
    t: StreamTaskView,
    infos: Seq<MediaInfoView>,
    speed: SpeedReading,
    log: Seq<(int, Seq<char>)>,
)
    requires
        holds(t, log),
    ensures
        comes_to(stream_probed(t, infos, speed), log),
{
    if infos.len() == 0 {
        lemma_accept(t, Seq::empty(), speed, log);
    } else {
        let u = StreamTaskView { infos, infos_read: true, ..t };
        assert(holds(u, log));
        let told = if t.settings.logs {
            seq![
                ProgressEventView::MediaInfo {
                    stream_id: Some(t.settings.stream_id),
                    lines: infos.map_values(
                        |i: MediaInfoView| crate::media_info::track_label(i),
                    ),
                },
            ]
        } else {
            Seq::empty()
        };
        lemma_accept(u, told, speed, log);
    }
}

proof fn lemma_run(
    settings: StreamSettingsView,
    stream: StreamView,
    events: Seq<StreamEventView>,
    n: int,
)
    requires
        0 <= n <= events.len(),
        all_awaited(settings, stream, events),
    ensures
        comes_to(
            run(settings, stream, events, n),
            all_brought(settings, stream, events, n),
        ),
    decreases n,
{
    if n > 0 {
        lemma_run(settings, stream, events, n - 1);
        let before = run(settings, stream, events, n - 1).0;
        let log = all_brought(settings, stream, events, n - 1);
        assert(is_awaited(before, events[n - 1]));
        assert(keeps(before, log));
        lemma_answered(before, events[n - 1], log);
    }
}

/// A stream that is finished and whose segments are counted has one file for each segment, in the order
/// of the playlist and behind that of the initialization segment: the file that was brought for the
/// segment.
pub proof fn law_finished_streams_are_whole(
    settings: StreamSettingsView,
    stream: StreamView,
    events: Seq<StreamEventView>,
)
    requires
        all_awaited(settings, stream, events),
        run(settings, stream, events, events.len() as int).1.action is Finish,
    ensures
        ({
            let (t, step) = run(settings, stream, events, events.len() as int);
            let log = all_brought(settings, stream, events, events.len() as int);
            &&& step.action->Finish_0.files == files_of(log)
            &&& t.settings.check_segments_count ==> positions(log) == in_playlist_order(
                has_init(t.stream),
                t.segments.len() as int,
            )
        }),
{
    lemma_run(settings, stream, events, events.len() as int);
}

} // verus!
