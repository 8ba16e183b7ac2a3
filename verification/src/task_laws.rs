//! What fetching does from one step to the next.

use crate::codec::{base64_text, law_base64_round_trip};
use crate::download::{
    finished_path, is_complete, plain_path, segment_redirect, SegmentDownloadResultView,
    SpeedStateView,
};
use crate::error::ErrorView;
use crate::event::ProgressEventView;
use crate::key_load::{answered, begun, looked, refused, KeyActionView, KeyLoadView, KeyPlace};
use crate::manifest::{KeySource, MediaSegmentView};
use crate::path::{path_join, LocalPathView};
use crate::processor::{inline_key, LoadedKeyView, ParserConfigView};
use crate::segment_task::{
    announced_length, fetch_answered, fetch_redirect, paced, segment_brought, segment_failed,
    segment_looked, segment_renamed, segment_start, segment_waited, FetchActionView, HttpFetchView,
    PaceStepView, SegmentActionView, SegmentPhase, SegmentTaskView,
};
use crate::stream_task::{
    count_mismatch, has_init, length_mismatch, segment_path, stream_fetched, stream_result,
    to_batch, to_close, to_next, total_of, with_file, Place, StreamActionView, StreamPhase,
    StreamTaskView,
};
use crate::text::{dec, drop, lower, starts_with};
use crate::text_laws::law_decimal_is_read_within;
use vstd::prelude::*;

verus! {

/// A segment is first looked for under its final name, then decrypted, and then fetched; one that is
/// found is taken as it is, and its size counts as downloaded.
pub proof fn law_segments_are_looked_for_first(
    s: MediaSegmentView,
    save_path: Seq<char>,
    stream_id: Seq<char>,
    retries: i32,
    size: u64,
)
    ensures
        ({
            let (t, step) = segment_start(s, save_path, stream_id, retries);
            let (u, missed) = segment_looked(t, None);
            let (v, fetched) = segment_looked(u, None);
            let (_, found) = segment_looked(t, Some(size));
            let (_, found_plain) = segment_looked(u, Some(size));
            &&& step.action == SegmentActionView::LookFor(finished_path(save_path))
            &&& t.url == s.url
            &&& t.remaining == retries
            &&& missed.action == SegmentActionView::LookFor(plain_path(finished_path(save_path)))
            &&& fetched.action == SegmentActionView::Fetch
            &&& v.phase == SegmentPhase::Fetching
            &&& found.action is Done
            &&& found.action->Done_0.actual_file_path == finished_path(save_path)
            &&& found.action->Done_0.skipped_existing
            &&& found.counted == size
            &&& found_plain.action is Done
            &&& found_plain.action->Done_0.actual_file_path == plain_path(finished_path(save_path))
            &&& found_plain.counted == size
        }),
{
}

/// What was fetched ends under the final name of the segment, whatever it was called.
pub proof fn law_fetched_segments_get_their_name(
    t: SegmentTaskView,
    result: SegmentDownloadResultView,
)
    ensures
        ({
            let (u, step) = segment_brought(t, result);
            let (_, renamed) = segment_renamed(u);
            &&& result.actual_file_path == t.final_path ==> step.action == SegmentActionView::Done(
                result,
            ) && u.phase == SegmentPhase::Over
            &&& result.actual_file_path != t.final_path ==> {
                &&& step.action == (SegmentActionView::Rename {
                    from: result.actual_file_path,
                    to: t.final_path,
                })
                &&& renamed.action is Done
                &&& renamed.action->Done_0.actual_file_path == t.final_path
                &&& renamed.action->Done_0.actual_content_length == result.actual_content_length
                &&& renamed.action->Done_0.response_content_length
                    == result.response_content_length
            }
        }),
{
}

/// A failed attempt is followed by a wait and another one while there are any left, and by the failure
/// itself else; one that the user stopped is not tried again.
pub proof fn law_failed_attempts(t: SegmentTaskView, e: ErrorView)
    ensures
        ({
            let (u, step) = segment_failed(t, e);
            let (_, after) = segment_waited(u);
            &&& t.remaining > 0 ==> step.action == SegmentActionView::Wait && u.remaining
                == t.remaining - 1
            &&& t.remaining > 0 && e != ErrorView::UserCancelled ==> after.action
                == SegmentActionView::Fetch
            &&& t.remaining > 0 && e == ErrorView::UserCancelled ==> after.action
                == SegmentActionView::Fail(ErrorView::UserCancelled)
            &&& t.remaining <= 0 ==> step.action == SegmentActionView::Fail(e)
            &&& u.url == t.url && u.final_path == t.final_path
        }),
{
}

/// The length that an answer announces is the one that is expected.
pub proof fn law_announced_lengths(n: nat)
    requires
        n <= u64::MAX,
    ensures
        announced_length(Some(dec(n))) == Some(n as u64),
        announced_length(None) is None,
{
    law_decimal_is_read_within(n, 0, u64::MAX as int);
}

/// Of a success the body is read, a redirect to another place is sent there, and anything else fails
/// with its number.
pub proof fn law_answers_to_a_segment(
    f: HttpFetchView,
    s: MediaSegmentView,
    request: Seq<(Seq<char>, Seq<char>)>,
    status: u16,
    location: Option<Seq<char>>,
    response: Seq<(Seq<char>, Seq<char>)>,
    length: nat,
)
    requires
        length <= u64::MAX,
    ensures
        ({
            let (g, told, action) = fetch_answered(
                f,
                s,
                request,
                status,
                location,
                response,
                Some(dec(length)),
            );
            &&& 200 <= status <= 299 ==> action == FetchActionView::Read && g.content_length == Some(
                length as u64,
            ) && g.url == f.url
            &&& 300 <= status <= 399 && location is Some && segment_redirect(f.url, location->0)
                != f.url ==> g.url == segment_redirect(f.url, location->0) && told.len() > 0
            &&& status < 200 || status >= 400 ==> action == FetchActionView::Fail(
                ErrorView::Http("HTTP status "@ + dec(status as nat) + " for "@ + f.url),
            )
            &&& location is None ==> fetch_redirect(f.url, status, location) is None
        }),
{
    law_announced_lengths(length);
}

/// A download waits while it is over its limit, and is given up after twenty seconds in which nothing
/// came.
pub proof fn law_pace(
    s: SpeedStateView,
    now: u64,
    id: Seq<char>,
    index: i64,
    total: Option<u64>,
)
    requires
        s.last_reset <= now < s.last_reset + 1000,
    ensures
        s.speed_limit < u64::MAX && s.downloaded_window > s.speed_limit ==> paced(
            s,
            now,
            id,
            index,
            total,
        ).1 == PaceStepView::Wait,
        s.downloaded_window <= s.speed_limit && s.low_speed_count >= 20 ==> paced(
            s,
            now,
            id,
            index,
            total,
        ).1 is Cancel,
        s.downloaded_window <= s.speed_limit && s.low_speed_count < 20 ==> paced(
            s,
            now,
            id,
            index,
            total,
        ).1 is Go,
{
}

/// A key that its URI holds in base64 is there at once.
pub proof fn law_inline_keys_are_there(t: KeyLoadView, b: Seq<u8>)
    requires
        t.uri == "base64:"@ + base64_text(b),
    ensures
        begun(t).action == KeyActionView::Done(
            LoadedKeyView::Key { bytes: b, source: KeySource::Inline },
        ),
{
    reveal_strlit("base64:");
    law_base64_round_trip(b);
    let text = base64_text(b);
    let low = lower(t.uri);
    assert(low.subrange(0, 7) =~= "base64:"@) by {
        assert forall|i: int| 0 <= i < 7 implies low[i] == "base64:"@[i] by {
            assert(t.uri[i] == "base64:"@[i]);
        }
    }
    assert(starts_with(low, "base64:"@));
    assert(drop(t.uri, 7) =~= text);
}

/// A key of another URI is looked for as a file first, and read where it is one.
pub proof fn law_key_files_come_first(t: KeyLoadView, config: ParserConfigView, file: LocalPathView)
    requires
        inline_key(t.uri) is None,
    ensures
        begun(t).action == KeyActionView::Look(t.uri),
        looked(begun(t).state, true, config, file).action == KeyActionView::Read(
            LocalPathView::Text(t.uri),
        ),
{
}

/// A key is asked for at its URL where there is no such file; the body of the answer is the key.
pub proof fn law_keys_are_fetched(
    t: KeyLoadView,
    config: ParserConfigView,
    file: LocalPathView,
    logs: Seq<Seq<char>>,
    body: Seq<u8>,
    e: ErrorView,
)
    requires
        t.place == KeyPlace::AtUrl,
    ensures
        looked(t, false, config, file).action == KeyActionView::Fetch(t.url),
        looked(t, true, config, file).action == KeyActionView::Read(LocalPathView::Text(t.url)),
        answered(t, logs, body).action == KeyActionView::Done(
            LoadedKeyView::Key { bytes: body, source: KeySource::Uri },
        ),
        t.retry_count < u32::MAX && t.attempt < t.retry_count ==> refused(t, e).action == KeyActionView::Wait(1000),
        t.retry_count < u32::MAX && t.attempt >= t.retry_count ==> refused(t, e).action
            == KeyActionView::Done(LoadedKeyView::Failed { message: e.message() }),
{
}

/// One segment after the other is fetched, each by its position and under its own path; behind the
/// last the stream ends.
pub proof fn law_segments_are_fetched_in_order(t: StreamTaskView, events: Seq<ProgressEventView>)
    requires
        0 <= t.next <= t.segments.len(),
    ensures
        t.next < t.segments.len() ==> {
            let (u, step) = to_next(t, events);
            &&& step.action == (StreamActionView::Fetch {
                position: t.next,
                path: segment_path(t, t.next),
            })
            &&& u.next == t.next + 1
            &&& u.phase == StreamPhase::Fetching
            &&& u.files == t.files
        },
        t.next == t.segments.len() ==> to_next(t, events) == to_close(t, events),
{
}

/// Several at once are the next ones, as many as fit, and never beyond the last.
pub proof fn law_batches_are_the_next(
    t: StreamTaskView,
    events: Seq<ProgressEventView>,
    speed: crate::download::SpeedReading,
)
    requires
        0 <= t.next < t.segments.len(),
        t.chunk >= 1,
    ensures
        ({
            let (u, step) = to_batch(t, events, speed);
            &&& step.action is FetchBatch
            &&& step.action->start == t.next
            &&& t.next < step.action->end <= t.segments.len()
            &&& step.action->end <= t.next + t.chunk
            &&& t.next + t.chunk <= t.segments.len() ==> step.action->end == t.next + t.chunk
            &&& u.next == step.action->end
        }),
{
}

/// The end: with segments missing it is a failure where they are counted, with incomplete ones it
/// always is; else the files are the result, in the order in which they were taken.
pub proof fn law_streams_end(t: StreamTaskView, events: Seq<ProgressEventView>)
    ensures
        ({
            let (u, step) = to_close(t, events);
            &&& t.settings.check_segments_count && t.missing > 0 ==> step.action
                == StreamActionView::Fail(count_mismatch(total_of(t), t.results))
            &&& (!t.settings.check_segments_count || t.missing == 0) && !t.all_good ==> step.action
                == StreamActionView::Fail(length_mismatch())
            &&& t.missing == 0 && t.all_good && !t.settings.has_hooks ==> step.action
                == StreamActionView::Finish(stream_result(t))
            &&& stream_result(t).files == t.files
            &&& stream_result(t).output_path == t.settings.output_path
            &&& stream_result(t).temp_dir == t.settings.temp_dir
            &&& stream_result(t).media_infos == t.infos
        }),
{
}

/// The initialization segment counts among the segments.
pub proof fn law_init_is_counted(t: StreamTaskView)
    requires
        t.segments.len() < u64::MAX,
    ensures
        has_init(t.stream) ==> total_of(t) == t.segments.len() + 1,
        !has_init(t.stream) ==> total_of(t) == t.segments.len(),
{
}

/// A file that is taken comes behind those before it, and counts once.
pub proof fn law_taken_files_are_counted(t: StreamTaskView)
    requires
        t.results < u64::MAX,
        t.completed < u64::MAX,
    ensures
        with_file(t).files.drop_last() == t.files,
        with_file(t).files.last() == t.current,
        with_file(t).results == t.results + 1,
        with_file(t).completed == t.completed + 1,
        with_file(t).missing == t.missing,
        with_file(t).all_good == t.all_good,
{
    assert(with_file(t).files.drop_last() =~= t.files);
}

/// A later segment that fails is counted as missing and the next one is fetched; one that the user
/// stopped ends the stream; an incomplete one spoils it. The first must come whole.
pub proof fn law_failed_segments(
    t: StreamTaskView,
    e: ErrorView,
    r: SegmentDownloadResultView,
    speed: crate::download::SpeedReading,
)
    requires
        0 <= t.next < t.segments.len(),
        t.missing < u64::MAX,
    ensures
        t.place == Place::Later && e != ErrorView::UserCancelled ==> {
            let (u, step) = stream_fetched(t, Err(e), speed);
            &&& u.missing == t.missing + 1
            &&& step.action is Fetch
            &&& step.action->position == t.next
        },
        t.place == Place::Later && e == ErrorView::UserCancelled ==> stream_fetched(
            t,
            Err(e),
            speed,
        ).1.action == StreamActionView::Fail(e),
        t.place != Place::Later ==> stream_fetched(t, Err(e), speed).1.action
            == StreamActionView::Fail(e),
        t.place == Place::Later && !is_complete(r) ==> {
            let (u, step) = stream_fetched(t, Ok(r), speed);
            &&& !u.all_good
            &&& u.files == t.files
            &&& step.action is Fetch
        },
        t.place != Place::Later && !is_complete(r) ==> stream_fetched(t, Ok(r), speed).1.action
            == StreamActionView::Fail(length_mismatch()),
        t.place != Place::Later && is_complete(r) ==> stream_fetched(t, Ok(r), speed).1.action
            == StreamActionView::Inspect(r.actual_file_path),
{
}

/// A result is complete where as many bytes came as were announced, or where nothing was announced; a
/// file that was there already is complete.
pub proof fn law_complete_results(r: SegmentDownloadResultView, path: Seq<char>)
    requires
        r.actual_content_length is Some,
    ensures
        r.response_content_length is Some ==> (is_complete(r) <==> r.response_content_length
            == r.actual_content_length),
        r.response_content_length is None ==> is_complete(r),
        is_complete(crate::segment_task::existing(path)),
{
}

/// The file of a segment is named by the number of the segment, in the directory of the stream.
pub proof fn law_segment_files_are_numbered(t: StreamTaskView, position: int, extension: Seq<char>)
    requires
        0 <= position < t.segments.len(),
        t.segments[position].index >= 0,
        t.stream.extension == Some(extension),
        dec(t.segments[position].index as nat).len() >= dec(t.segments.len()).len(),
    ensures
        segment_path(t, position) == path_join(
            t.settings.temp_dir,
            dec(t.segments[position].index as nat) + "."@ + extension + ".tmp"@,
        ),
{
}

} // verus!
