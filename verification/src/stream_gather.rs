//! Fetching several streams: what is told at the start, and what comes of them.

use crate::download::{
    stream_identifier, stream_name, StreamDownloadResult, StreamDownloadResultView,
};
use crate::error::{Error, Result};
use crate::event::{ProgressEvent, ProgressEventView};
use crate::manifest::{Stream, StreamView};
use vstd::prelude::*;

verus! {

/// What is told of a stream at the start.
pub open spec fn task_event(s: StreamView, label: Seq<char>, task_id: int) -> ProgressEventView {
    ProgressEventView::StreamTaskCreated { stream_id: stream_name(s, task_id as nat), label }
}

/// What is told of streams at the start, in their order; their labels are given.
pub fn emit_stream_tasks(streams: &Vec<Stream>, labels: &Vec<String>) -> (r: Vec<ProgressEvent>)
    requires
        labels@.len() == streams@.len(),
    ensures
        r.deep_view() == Seq::new(
            streams@.len(),
            |i: int| task_event(streams.deep_view()[i], labels.deep_view()[i], i),
        ),
{
    let ghost told = Seq::new(
        streams@.len(),
        |i: int| task_event(streams.deep_view()[i], labels.deep_view()[i], i),
    );
    let mut out: Vec<ProgressEvent> = Vec::new();
    let mut i: usize = 0;
    assert(out.deep_view() =~= told.take(0));
    while i < streams.len()
        invariant
            i <= streams@.len(),
            labels@.len() == streams@.len(),
            told == Seq::new(
                streams@.len(),
                |i: int| task_event(streams.deep_view()[i], labels.deep_view()[i], i),
            ),
            out.deep_view() == told.take(i as int),
        decreases streams@.len() - i,
    {
        assert(streams.deep_view()[i as int] == streams@[i as int].deep_view());
        assert(labels.deep_view()[i as int] == labels@[i as int]@);
        let ghost before = out.deep_view();
        out.push(
            ProgressEvent::StreamTaskCreated {
                stream_id: stream_identifier(&streams[i], i),
                label: labels[i].clone(),
            },
        );
        assert(out.deep_view() =~= before.push(told[i as int]));
        assert(out.deep_view() =~= told.take(i + 1));
        i = i + 1;
    }
    assert(told.take(i as int) =~= told);
    out
}

/// What came of streams, each with its number.
pub type Gathered = Seq<(usize, StreamDownloadResultView)>;

/// A result at its place: behind those of the streams that come before.
pub open spec fn placed(s: Gathered, x: (usize, StreamDownloadResultView)) -> Gathered
    decreases s.len(),
{
    if s.len() > 0 && x.0 < s.last().0 {
        placed(s.drop_last(), x).push(s.last())
    } else {
        s.push(x)
    }
}

/// The numbers ascend.
pub open spec fn in_order(s: Gathered) -> bool {
    forall|i: int, j: int| 0 <= i < j < s.len() ==> (#[trigger] s[i]).0 <= (#[trigger] s[j]).0
}

proof fn lemma_placed(s: Gathered, x: (usize, StreamDownloadResultView), k: int)
    requires
        0 <= k <= s.len(),
        forall|i: int| k <= i < s.len() ==> x.0 < (#[trigger] s[i]).0,
        k > 0 ==> s[k - 1].0 <= x.0,
    ensures
        placed(s, x) == s.insert(k, x),
    decreases s.len(),
{
    if s.len() > k {
        let t = s.drop_last();
        assert forall|i: int| k <= i < t.len() implies x.0 < (#[trigger] t[i]).0 by {
            assert(t[i] == s[i]);
        }
        assert(x.0 < s[s.len() - 1].0);
        lemma_placed(t, x, k);
        assert(placed(s, x) =~= s.insert(k, x));
    } else {
        assert(s.push(x) =~= s.insert(k, x));
    }
}

/// In whatever order streams end, what came of them stands in the order of the streams, and nothing
/// is lost.
pub proof fn law_results_keep_the_order(s: Gathered, x: (usize, StreamDownloadResultView))
    requires
        in_order(s),
    ensures
        in_order(placed(s, x)),
        placed(s, x).len() == s.len() + 1,
        placed(s, x).contains(x),
        forall|i: int| 0 <= i < s.len() ==> placed(s, x).contains(#[trigger] s[i]),
        forall|i: int|
            0 <= i < placed(s, x).len() ==> (#[trigger] placed(s, x)[i]) == x || s.contains(
                placed(s, x)[i],
            ),
    decreases s.len(),
{
    let r = placed(s, x);
    if s.len() > 0 && x.0 < s.last().0 {
        let t = s.drop_last();
        assert(in_order(t)) by {
            assert forall|i: int, j: int| 0 <= i < j < t.len() implies (#[trigger] t[i]).0 <= (
            #[trigger] t[j]).0 by {
                assert(t[i] == s[i] && t[j] == s[j]);
            }
        }
        law_results_keep_the_order(t, x);
        let q = placed(t, x);
        assert(r == q.push(s.last()));
        assert forall|i: int| 0 <= i < q.len() implies (#[trigger] q[i]).0 <= s.last().0 by {
            if q[i] != x {
                assert(t.contains(q[i]));
                let k = choose|k: int| 0 <= k < t.len() && t[k] == q[i];
                assert(s[k] == q[i] && s[s.len() - 1] == s.last());
            }
        }
        assert forall|i: int, j: int| 0 <= i < j < r.len() implies (#[trigger] r[i]).0 <= (
        #[trigger] r[j]).0 by {
            assert(r[i] == q[i]);
            if j < q.len() {
                assert(r[j] == q[j]);
            }
        }
        let at = choose|k: int| 0 <= k < q.len() && q[k] == x;
        assert(q.contains(x));
        assert(r[at] == x);
        assert forall|i: int| 0 <= i < s.len() implies r.contains(#[trigger] s[i]) by {
            if i < t.len() {
                assert(t[i] == s[i]);
                assert(q.contains(t[i]));
                let k = choose|k: int| 0 <= k < q.len() && q[k] == t[i];
                assert(r[k] == s[i]);
            } else {
                assert(r[q.len() as int] == s[i]);
            }
        }
        assert forall|i: int| 0 <= i < r.len() implies (#[trigger] r[i]) == x || s.contains(r[i]) by {
            if i < q.len() {
                assert(r[i] == q[i]);
                if q[i] != x {
                    assert(t.contains(q[i]));
                    let k = choose|k: int| 0 <= k < t.len() && t[k] == q[i];
                    assert(s[k] == r[i]);
                }
            } else {
                assert(s[s.len() - 1] == r[i]);
            }
        }
    } else {
        assert(r[s.len() as int] == x);
        assert forall|i: int| 0 <= i < s.len() implies r.contains(#[trigger] s[i]) by {
            assert(r[i] == s[i]);
        }
        assert forall|i: int| 0 <= i < r.len() implies (#[trigger] r[i]) == x || s.contains(r[i]) by {
            if i < s.len() {
                assert(r[i] == s[i]);
            }
        }
        assert forall|i: int, j: int| 0 <= i < j < r.len() implies (#[trigger] r[i]).0 <= (
        #[trigger] r[j]).0 by {
            assert(r[i] == s[i]);
            if j < s.len() {
                assert(r[j] == s[j]);
            } else {
                assert(s[s.len() - 1] == s.last());
            }
        }
    }
}

/// Gathers what comes of streams that are fetched at the same time.
#[derive(Debug)]
pub struct StreamGather {
    results: Vec<(usize, StreamDownloadResult)>,
}

impl DeepView for StreamGather {
    type V = Gathered;

    closed spec fn deep_view(&self) -> Gathered {
        self.results.deep_view()
    }
}

impl StreamGather {
    /// Nothing has come yet.
    pub fn new() -> (r: Self)
        ensures
            r.deep_view() == Gathered::empty(),
    {
        let r = StreamGather { results: Vec::new() };
        assert(r.deep_view() =~= Gathered::empty());
        r
    }

    /// A stream has ended. One that failed ends the fetching with its error.
    pub fn ended(&mut self, task_id: usize, outcome: Result<StreamDownloadResult>) -> (r: Result<()>)
        requires
            in_order(old(self).deep_view()),
        ensures
            in_order(final(self).deep_view()),
            match outcome {
                Ok(result) => r is Ok && final(self).deep_view() == placed(
                    old(self).deep_view(),
                    (task_id, result.deep_view()),
                ),
                Err(e) => r == Err::<(), Error>(e) && final(self).deep_view() == old(
                    self,
                ).deep_view(),
            },
    {
        let result: StreamDownloadResult = match outcome {
            Ok(result) => result,
            Err(e) => {
                return Err(e);
            },
        };
        let ghost s = self.deep_view();
        let ghost x = (task_id, result.deep_view());
        assert(s.len() == self.results@.len());
        let mut k: usize = self.results.len();
        while k > 0 && task_id < self.results[k - 1].0
            invariant
                k <= self.results@.len(),
                s == self.deep_view(),
                s.len() == self.results@.len(),
                x.0 == task_id,
                forall|i: int| k <= i < s.len() ==> x.0 < (#[trigger] s[i]).0,
            decreases k,
        {
            assert(s[k - 1] == self.results@[k - 1].deep_view());
            k = k - 1;
        }
        if k > 0 {
            assert(s[k - 1] == self.results@[k - 1].deep_view());
        }
        proof {
            lemma_placed(s, x, k as int);
            law_results_keep_the_order(s, x);
        }
        self.results.insert(k, (task_id, result));
        assert(self.deep_view() =~= s.insert(k as int, x));
        Ok(())
    }

    /// What came of the streams, in their order.
    pub fn finish(self) -> (r: Vec<StreamDownloadResult>)
        ensures
            r.deep_view() == self.deep_view().map_values(
                |x: (usize, StreamDownloadResultView)| x.1,
            ),
    {
        let ghost s = self.deep_view();
        let ghost all = s.map_values(|x: (usize, StreamDownloadResultView)| x.1);
        let mut rest: Vec<(usize, StreamDownloadResult)> = self.results;
        let mut out: Vec<StreamDownloadResult> = Vec::new();
        let ghost mut n: int = 0;
        assert(rest.deep_view() =~= s.skip(0));
        assert(out.deep_view() =~= all.take(0));
        while rest.len() > 0
            invariant
                0 <= n <= s.len(),
                rest@.len() == s.len() - n,
                all == s.map_values(|x: (usize, StreamDownloadResultView)| x.1),
                rest.deep_view() == s.skip(n),
                out.deep_view() == all.take(n),
            decreases rest@.len(),
        {
            assert(rest.deep_view()[0] == rest@[0].deep_view());
            let ghost before = out.deep_view();
            let ghost left = rest.deep_view();
            let x: (usize, StreamDownloadResult) = rest.remove(0);
            assert(rest.deep_view() =~= left.skip(1));
            assert(left.skip(1) =~= s.skip(n + 1));
            out.push(x.1);
            assert(out.deep_view() =~= before.push(all[n]));
            assert(out.deep_view() =~= all.take(n + 1));
            proof {
                n = n + 1;
            }
        }
        assert(all.take(n) =~= all);
        out
    }
}

} // verus!
