//! What a live recording starts with and goes on with.

use crate::live::{
    aligned, common_start, first_part, first_place, from_place, is_active, left_out,
    live_destination, new_segments, new_start, parts_of, pipe_arguments, pipe_inputs, pipe_place,
    place_of, seen_from, segment_identity, state_after, LiveIdentityMode, LiveStreamStateView,
    Recognition, RefreshInput, SegmentNamesView,
};
use crate::manifest::{MediaSegmentView, StreamView};
use crate::mux_laws::{in_a_row, map_piece};
use crate::path::path_join;
use crate::text::{dec, starts_with};
use vstd::prelude::*;

verus! {

/// A segment is known by the name that its URL was made with; in HLS without one by its number; else
/// by the name in its URL.
pub proof fn law_segments_are_known_by(
    s: MediaSegmentView,
    names: SegmentNamesView,
    dated: bool,
    same_path: bool,
    local: int,
)
    ensures
        s.name_from_var is Some && (s.name_from_var->0).len() > 0 ==> segment_identity(
            s,
            names,
            true,
            dated,
            same_path,
            local,
        ) == s.name_from_var->0,
        s.name_from_var is None && s.index >= 0 ==> segment_identity(
            s,
            names,
            true,
            false,
            same_path,
            local,
        ) == dec(s.index as nat),
        s.name_from_var is None ==> segment_identity(s, names, false, dated, false, local)
            == names.from_url,
        s.name_from_var is None ==> segment_identity(s, names, false, dated, true, local)
            == names.from_query,
{
}

/// Of the segments of a part those stay, in their order, that do not stand before a place.
pub proof fn law_segments_from_a_place(
    part: Seq<MediaSegmentView>,
    start: int,
    dated: bool,
    local: int,
)
    ensures
        forall|i: int|
            0 <= i < from_place(part, start, dated, local).len() ==> {
                let s = #[trigger] from_place(part, start, dated, local)[i];
                &&& part.contains(s)
                &&& place_of(s, dated, local) is Some
                &&& place_of(s, dated, local)->0 >= start
            },
        forall|k: int|
            0 <= k < part.len() && place_of(#[trigger] part[k], dated, local) is Some && place_of(
                part[k],
                dated,
                local,
            )->0 >= start ==> from_place(part, start, dated, local).contains(part[k]),
    decreases part.len(),
{
    if part.len() > 0 {
        let head = part.drop_last();
        law_segments_from_a_place(head, start, dated, local);
        let kept = from_place(part, start, dated, local);
        let before = from_place(head, start, dated, local);
        assert forall|i: int| 0 <= i < kept.len() implies {
            let s = #[trigger] kept[i];
            &&& part.contains(s)
            &&& place_of(s, dated, local) is Some
            &&& place_of(s, dated, local)->0 >= start
        } by {
            if i < before.len() {
                assert(kept[i] == before[i]);
                let j = choose|j: int| 0 <= j < head.len() && head[j] == before[i];
                assert(part[j] == kept[i]);
            } else {
                assert(part[part.len() - 1] == kept[i]);
            }
        }
        assert forall|k: int|
            0 <= k < part.len() && place_of(#[trigger] part[k], dated, local) is Some && place_of(
                part[k],
                dated,
                local,
            )->0 >= start implies kept.contains(part[k]) by {
            if k < head.len() {
                assert(head[k] == part[k]);
                assert(before.contains(head[k]));
                let j = choose|j: int| 0 <= j < before.len() && before[j] == head[k];
                assert(kept[j] == part[k]);
            } else {
                assert(kept[kept.len() - 1] == part[k]);
            }
        }
    }
}

proof fn lemma_first_place(part: Seq<MediaSegmentView>, n: int, dated: bool, local: int)
    requires
        0 <= n <= part.len(),
    ensures
        forall|k: int|
            0 <= k < n && place_of(#[trigger] part[k], dated, local) is Some ==> first_place(
                part,
                n,
                dated,
                local,
            ) is Some && first_place(part, n, dated, local)->0 <= place_of(part[k], dated, local)->0,
        first_place(part, n, dated, local) is Some ==> exists|k: int|
            0 <= k < n && place_of(#[trigger] part[k], dated, local) == first_place(
                part,
                n,
                dated,
                local,
            ),
    decreases n,
{
    if n > 0 {
        lemma_first_place(part, n - 1, dated, local);
        let before = first_place(part, n - 1, dated, local);
        let now = first_place(part, n, dated, local);
        if now is Some {
            if before is Some && now == before {
                let k = choose|k: int|
                    0 <= k < n - 1 && place_of(#[trigger] part[k], dated, local) == before;
                assert(place_of(part[k], dated, local) == now);
            } else {
                assert(place_of(part[n - 1], dated, local) == now);
            }
        }
    }
}

/// The first place of a part is that of one of its segments, and no segment stands before it.
pub proof fn law_first_place_is_the_first(part: Seq<MediaSegmentView>, dated: bool, local: int, k: int)
    requires
        0 <= k < part.len(),
        place_of(part[k], dated, local) is Some,
    ensures
        first_place(part, part.len() as int, dated, local) is Some,
        first_place(part, part.len() as int, dated, local)->0 <= place_of(part[k], dated, local)->0,
        exists|j: int|
            0 <= j < part.len() && place_of(#[trigger] part[j], dated, local) == first_place(
                part,
                part.len() as int,
                dated,
                local,
            ),
{
    lemma_first_place(part, part.len() as int, dated, local);
}

/// The place from which all active streams are recorded is that where the last of them begins: no
/// active stream begins behind it.
pub proof fn law_common_start_is_the_latest(
    streams: Seq<StreamView>,
    n: int,
    dated: bool,
    local: int,
    k: int,
)
    requires
        0 <= k < n <= streams.len(),
        is_active(streams[k]),
        ({
            let part = first_part(streams[k])->0;
            first_place(part, part.len() as int, dated, local) is Some
        }),
    ensures
        ({
            let part = first_part(streams[k])->0;
            &&& common_start(streams, n, dated, local) is Some
            &&& common_start(streams, n, dated, local)->0 >= first_place(
                part,
                part.len() as int,
                dated,
                local,
            )->0
        }),
    decreases n,
{
    if k < n - 1 {
        law_common_start_is_the_latest(streams, n - 1, dated, local, k);
    }
}

/// Streams that begin together keep the segments from the common place on, and lose the others.
pub proof fn law_streams_begin_together(streams: Seq<StreamView>, local: int, i: int, p: int)
    requires
        0 <= i < streams.len(),
        is_active(streams[i]),
        0 <= p < parts_of(streams[i]).len(),
        common_start(
            streams,
            streams.len() as int,
            crate::live::streams_dated(streams),
            local,
        ) is Some,
    ensures
        ({
            let dated = crate::live::streams_dated(streams);
            let start = common_start(streams, streams.len() as int, dated, local)->0;
            let level = aligned(streams, local);
            &&& level.len() == streams.len()
            &&& parts_of(level[i]).len() == parts_of(streams[i]).len()
            &&& parts_of(level[i])[p] == from_place(parts_of(streams[i])[p], start, dated, local)
            &&& level[i].url == streams[i].url
        }),
{
}

/// Where a stream holds as many segments as are wanted or more, one less than wanted is left of the
/// shortest.
pub proof fn law_segments_left_out(fewest: int, wanted: int)
    requires
        1 <= wanted <= fewest,
    ensures
        fewest - left_out(fewest, wanted) == wanted - 1,
        left_out(fewest, wanted) >= 1,
{
}

proof fn lemma_seen(
    part: Seq<MediaSegmentView>,
    names: Seq<SegmentNamesView>,
    mode: LiveIdentityMode,
    st: LiveStreamStateView,
    c: Recognition,
    i: int,
)
    requires
        0 <= i <= part.len(),
    ensures
        match seen_from(part, names, mode, st, c, i) {
            Some(k) => i <= k < part.len(),
            None => true,
        },
    decreases part.len() - i,
{
    if i < part.len() {
        lemma_seen(part, names, mode, st, c, i + 1);
    }
}

/// The new segments of a refresh are the last ones of the part, in their order, with their URLs,
/// durations and keys; only their numbers may be raised, all by the same.
pub proof fn law_new_segments_are_the_last(x: RefreshInput, st: LiveStreamStateView, i: int)
    requires
        0 <= i < new_segments(x, st).len(),
    ensures
        0 <= new_start(x, st) <= x.part.len(),
        new_segments(x, st).len() == x.part.len() - new_start(x, st),
        ({
            let old_one = x.part[new_start(x, st) + i];
            let s = new_segments(x, st)[i];
            &&& s.url == old_one.url
            &&& s.duration == old_one.duration
            &&& s.encryption == old_one.encryption
            &&& s.start_range == old_one.start_range
            &&& s.expected_length == old_one.expected_length
            &&& s.program_date_time == old_one.program_date_time
        }),
{
    lemma_seen(
        x.part,
        x.names,
        crate::live::mode_of(x, st),
        st,
        crate::live::recognition(x, st),
        0,
    );
}

/// A refresh counts its new segments and their seconds, and the limit is reached once that many
/// seconds were refreshed.
pub proof fn law_refreshes_are_counted(x: RefreshInput, st: LiveStreamStateView)
    requires
        0 <= new_start(x, st) < x.seconds_from.len(),
        st.refreshed_duration_secs + x.seconds_from[new_start(x, st)] <= u64::MAX,
        st.refreshed_segments + new_segments(x, st).len() <= u64::MAX,
    ensures
        ({
            let after = state_after(x, st);
            let seconds = st.refreshed_duration_secs + x.seconds_from[new_start(x, st)];
            &&& after.refreshed_segments == st.refreshed_segments + new_segments(x, st).len()
            &&& after.refreshed_duration_secs == seconds
            &&& after.recorded_segments == st.recorded_segments
            &&& after.recorded_duration_secs == st.recorded_duration_secs
            &&& st.record_limit_reached ==> after.record_limit_reached
            &&& !st.record_limit_reached ==> (after.record_limit_reached <==> x.limit is Some
                && seconds >= x.limit->0)
        }),
{
}

/// After a refresh with new segments the last of them is the one that is known.
pub proof fn law_last_segment_is_known(x: RefreshInput, st: LiveStreamStateView)
    requires
        new_segments(x, st).len() > 0,
        x.is_hls,
        new_segments(x, st).last().name_from_var is None,
        new_segments(x, st).last().index >= 0,
        !crate::live::all_dated(x.part),
    ensures
        state_after(x, st).last_file_name == dec(new_segments(x, st).last().index as nat),
{
}

/// The pipes of a live mux are inputs, each once and in order, and each is taken into the output; the
/// output comes last.
pub proof fn law_live_mux_takes_every_pipe(
    names: Seq<Seq<char>>,
    output: Seq<char>,
    date: Seq<char>,
    directory: Seq<char>,
)
    ensures
        pipe_arguments(names, output, date, None, directory, false)
            == "-y -fflags +genpts -loglevel quiet "@ + in_a_row(
            Seq::new(names.len(), |k: int| " -i \""@ + path_join(directory, names[k]) + "\" "@),
        ) + in_a_row(Seq::new(names.len(), |k: int| map_piece(k))) + " -strict unofficial -c copy "@
            + " -metadata date="@ + ("\""@ + date + "\""@) + " "@
            + " -ignore_unknown -copy_unknown "@ + (" -f mpegts -shortest "@ + ("\""@ + output
            + "\""@)),
{
    lemma_pipes(names, names.len() as int, directory);
    crate::mux_laws::lemma_maps(names.len() as int);
}

proof fn lemma_pipes(names: Seq<Seq<char>>, n: int, directory: Seq<char>)
    requires
        0 <= n <= names.len(),
    ensures
        pipe_inputs(names, n, directory, false) == in_a_row(
            Seq::new(n as nat, |k: int| " -i \""@ + path_join(directory, names[k]) + "\" "@),
        ),
    decreases n,
{
    reveal_strlit(" -i ");
    reveal_strlit(" -i \"");
    reveal_strlit("\"");
    reveal_strlit("\" ");
    reveal_strlit(" ");
    let piece = |k: int| " -i \""@ + path_join(directory, names[k]) + "\" "@;
    if n > 0 {
        lemma_pipes(names, n - 1, directory);
        let pieces = Seq::new(n as nat, piece);
        assert(pieces.drop_last() =~= Seq::new((n - 1) as nat, piece));
        assert(pipe_inputs(names, n, directory, false) =~= pipe_inputs(
            names,
            n - 1,
            directory,
            false,
        ) + piece(n - 1));
    }
}

/// A live mux goes to the given place, or takes given arguments as they are.
pub proof fn law_live_destinations(place: Seq<char>, output: Seq<char>)
    ensures
        !starts_with(crate::text::trim_start(place), "-"@) ==> live_destination(Some(place), output)
            == " -f mpegts -shortest "@ + ("\""@ + place + "\""@),
        starts_with(crate::text::trim_start(place), "-"@) ==> live_destination(Some(place), output)
            == place,
        pipe_place(place, output, true) == "\\\\.\\pipe\\"@ + place,
{
}

} // verus!
