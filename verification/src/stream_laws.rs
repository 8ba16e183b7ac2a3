//! What is done with streams, paths and options as a whole.

use crate::config::{DownloadOptionsView, Toggle};
use crate::error::ErrorView;
use crate::hardening::{cleanup_target, limit_objection, CleanupPathView, ResourceLimits};
use crate::manifest::{
    all_segments, channels_of, key_before, key_of, role_of_name, role_of_number, role_of_token,
    stream_segments, ExtractorType, MediaSegmentView, MediaType, RoleType, StreamView,
};
use crate::observability::{
    log_head, log_path_at, summed, wanted_log_path, LogPlanConfigView, ProgressSummaryView,
};
use crate::event::ProgressEventView;
use crate::outside::{gzip_plain, path_of_url};
use crate::path::{name_extension, name_stem, path_join, path_parent};
use crate::processor::{
    config_of_options, missing_declarations, replaced_first, secure_value, signed_url,
};
use crate::prompt::{
    cursor_after, first_selection, group_entries, group_of, state_after, PromptEntryView, PromptKey,
    PromptStateView,
};
use crate::refresh::{fresh_from, refreshed_stream, same_representation};
use crate::repair::{repaired, without_picture};
use crate::text::{dec, ends_with, lemma_find_from, occurs_at, starts_with};
use crate::text_laws::law_decimal_is_read_within;
use vstd::prelude::*;

verus! {

/// Streams are ordered by their kind first: pictures without a kind, audio, video, subtitles; then the
/// one with more bandwidth comes first, and one without any last; then the one with more channels.
pub proof fn law_order_of_streams(a: StreamView, b: StreamView)
    ensures
        a.media_type is None && b.media_type is Some ==> key_before(key_of(a), key_of(b)),
        a.media_type == Some(MediaType::Audio) && b.media_type == Some(MediaType::Subtitles)
            ==> key_before(key_of(a), key_of(b)),
        a.media_type == Some(MediaType::Audio) && b.media_type == Some(MediaType::Video)
            ==> key_before(key_of(a), key_of(b)),
        a.media_type == b.media_type && a.bandwidth is Some && b.bandwidth is Some && a.bandwidth->0
            > b.bandwidth->0 ==> key_before(key_of(a), key_of(b)) && !key_before(
            key_of(b),
            key_of(a),
        ),
        a.media_type == b.media_type && a.bandwidth is Some && b.bandwidth is None ==> key_before(
            key_of(a),
            key_of(b),
        ),
        a.media_type == b.media_type && a.bandwidth == b.bandwidth && channels_of(a) > channels_of(b)
            ==> key_before(key_of(a), key_of(b)) && !key_before(key_of(b), key_of(a)),
{
}

/// The channels of a stream are the number before the first slash.
pub proof fn law_channels_are_counted(s: StreamView, n: nat, rest: Seq<char>)
    requires
        n <= i32::MAX,
    ensures
        s.channels == Some(dec(n)) ==> channels_of(s) == n,
        s.channels == Some(dec(n) + "/"@ + rest) ==> channels_of(s) == n,
        s.channels is None ==> channels_of(s) == 0,
{
    reveal_strlit("/");
    assert("/"@ =~= seq!['/']);
    crate::text_laws::lemma_decimal_lacks(n, '/');
    crate::text_laws::law_split_without_the_character(dec(n), '/');
    crate::text_laws::law_split_at_a_character(dec(n), '/', rest);
    law_decimal_is_read_within(n, i32::MIN as int, i32::MAX as int);
}

/// The segments of a playlist are those of its parts, one part behind the other.
pub proof fn law_segments_of_parts(
    parts: Seq<Seq<MediaSegmentView>>,
    part: Seq<MediaSegmentView>,
)
    ensures
        all_segments(parts.push(part)) == all_segments(parts) + part,
        all_segments(seq![part]) == part,
{
    assert(parts.push(part).drop_last() =~= parts);
    assert(seq![part].drop_last() =~= Seq::<Seq<MediaSegmentView>>::empty());
    assert(all_segments(Seq::<Seq<MediaSegmentView>>::empty()) =~= Seq::<MediaSegmentView>::empty());
    assert(seq![part].last() == part);
    assert(Seq::<MediaSegmentView>::empty() + part =~= part);
}

/// A stream that a newer manifest holds gets the segments of that manifest, and keeps all else; one
/// that it does not hold stays as it is.
pub proof fn law_refreshed_streams(kind: ExtractorType, s: StreamView, fresh: Seq<StreamView>)
    ensures
        ({
            let r = refreshed_stream(kind, s, fresh);
            let found = fresh_from(kind, fresh, s, false, 0);
            &&& found is Some && s.playlist is Some && fresh[found->0].playlist is Some ==> {
                &&& r.playlist is Some
                &&& (r.playlist->0).media_parts == (fresh[found->0].playlist->0).media_parts
                &&& (r.playlist->0).media_init == (s.playlist->0).media_init
                &&& r.id == s.id && r.url == s.url && r.bandwidth == s.bandwidth
            }
            &&& found is None && fresh_from(kind, fresh, s, true, 0) is None ==> r == s
        }),
{
}

/// The stream that is found in a newer manifest is the first of the same representation.
pub proof fn law_same_representation_is_found(
    kind: ExtractorType,
    fresh: Seq<StreamView>,
    s: StreamView,
    i: int,
)
    requires
        0 <= i <= fresh.len(),
    ensures
        match fresh_from(kind, fresh, s, false, i) {
            Some(k) => i <= k < fresh.len() && same_representation(kind, fresh[k], s) && forall|j: int|
                i <= j < k ==> !same_representation(kind, #[trigger] fresh[j], s),
            None => forall|j: int|
                i <= j < fresh.len() ==> !same_representation(kind, #[trigger] fresh[j], s),
        },
        forall|f: StreamView|
            same_representation(kind, f, s) ==> (#[trigger] f.group_id) == s.group_id && f.resolution
                == s.resolution && f.media_type == s.media_type,
    decreases fresh.len() - i,
{
    if i < fresh.len() {
        law_same_representation_is_found(kind, fresh, s, i + 1);
    }
}

/// Roles are known by their numbers, and a number that stands for none is kept.
pub proof fn law_roles_by_number(n: nat)
    requires
        n <= i32::MAX,
    ensures
        role_of_number(0) == RoleType::Subtitle && role_of_number(1) == RoleType::Main
            && role_of_number(5) == RoleType::Dub && role_of_number(9) == RoleType::ForcedSubtitle,
        n > 9 ==> role_of_number(n as i32) == RoleType::Numeric(n as i32),
        role_of_name(dec(n)) is None ==> role_of_token(dec(n)) == Some(role_of_number(n as i32)),
{
    crate::text_laws::lemma_decimal_is_trim(n);
    law_decimal_is_read_within(n, i32::MIN as int, i32::MAX as int);
}

/// A path inside a directory is the directory, a slash and the path; an absolute one stays.
pub proof fn law_paths_are_joined(a: Seq<char>, b: Seq<char>)
    requires
        a.len() > 0,
        a.last() != '/',
        b.len() > 0,
    ensures
        b[0] != '/' ==> path_join(a, b) == a + "/"@ + b,
        b[0] == '/' ==> path_join(a, b) == b,
        path_join(Seq::empty(), b) == b,
{
    reveal_strlit("/");
    crate::text_laws::lemma_prefix_char(b, "/"@, 0);
    if b[0] == '/' {
        assert(b.subrange(0, 1) =~= "/"@);
    }
    if ends_with(a, "/"@) {
        assert(a.subrange(a.len() - 1, a.len() as int)[0] == a.last());
    }
}

/// The ending of a name is what follows its last dot, and the rest is what precedes it.
pub proof fn law_names_and_endings(stem: Seq<char>, ending: Seq<char>)
    requires
        stem.len() > 0,
        !ending.contains('.'),
    ensures
        name_extension(stem + "."@ + ending) == Some(ending),
        name_stem(stem + "."@ + ending) == stem,
{
    reveal_strlit(".");
    assert("."@ =~= seq!['.']);
    let s = stem + "."@ + ending;
    let n = stem.len() as int;
    lemma_last_dot(stem, ending, s.len() as int);
    assert(crate::text::take(s, n) =~= stem);
    assert(crate::text::drop(s, n + 1) =~= ending);
}

proof fn lemma_last_dot(stem: Seq<char>, ending: Seq<char>, i: int)
    requires
        !ending.contains('.'),
        stem.len() <= i <= (stem + "."@ + ending).len(),
        "."@ == seq!['.'],
    ensures
        crate::text::rfind_from(stem + "."@ + ending, "."@, i) == Some(stem.len() as int),
    decreases i,
{
    let s = stem + "."@ + ending;
    crate::text_laws::lemma_char_occurs(s, '.', i);
    if i > stem.len() {
        if i < s.len() {
            assert(s[i] == ending[i - stem.len() - 1]);
        }
        lemma_last_dot(stem, ending, i - 1);
    } else {
        assert(s[i] == '.');
    }
}

/// The log goes where it is asked for, else into the directory for logs; at a later attempt the number
/// of the attempt stands in its name.
pub proof fn law_log_paths(c: LogPlanConfigView, path: Seq<char>, n: nat)
    ensures
        c.log_file_path == Some(path) ==> log_path_at(c, 0) == path,
        c.log_file_path is None ==> log_path_at(c, 0) == path_join(
            c.default_log_dir,
            c.suffix + ".log"@,
        ),
        n > 0 && c.log_file_path == Some(path) && path_parent(path) is Some
            && crate::path::path_stem(path) is Some && crate::path::path_extension(path) is Some
            ==> log_path_at(c, n) == path_join(
            path_parent(path)->0,
            crate::path::path_stem(path)->0 + "-"@ + dec(n) + "."@ + crate::path::path_extension(
                path,
            )->0,
        ),
        wanted_log_path(c) == log_path_at(c, 0),
{
}

/// A log begins with the start of the task and its command line.
pub proof fn law_logs_begin(path: Seq<char>, started_at: Seq<char>, command_line: Seq<char>)
    ensures
        starts_with(log_head(path, started_at, Some(command_line)), "LOG "@),
        ends_with(
            log_head(path, started_at, Some(command_line)),
            "Task Start: "@ + started_at + "\n"@ + "Task CommandLine: "@ + command_line + "\n"@
                + "\n"@,
        ),
{
    let all = log_head(path, started_at, Some(command_line));
    assert(all.subrange(0, "LOG "@.len() as int) =~= "LOG "@);
    let end = "Task Start: "@ + started_at + "\n"@ + "Task CommandLine: "@ + command_line + "\n"@
        + "\n"@;
    let at = all.len() - end.len();
    assert(all.subrange(at, at + end.len()) =~= end);
}

/// A summary collects warnings and outputs in their order, and keeps the last end.
pub proof fn law_summaries(s: ProgressSummaryView, message: Seq<char>, success: bool)
    ensures
        summed(s, ProgressEventView::Warning { message }).warnings == s.warnings.push(message),
        summed(s, ProgressEventView::Warning { message }).outputs == s.outputs,
        summed(s, ProgressEventView::Finished { success }).finished == Some(success),
        summed(s, ProgressEventView::Finished { success }).warnings == s.warnings,
{
}

/// What the options ask for is what the parsers are told.
pub proof fn law_parsers_are_told_the_options(o: DownloadOptionsView)
    ensures
        ({
            let c = config_of_options(o);
            &&& o.base_url is Some ==> c.base_url == o.base_url->0
            &&& c.append_url_params == (o.append_url_params == Toggle::On)
            &&& c.urlprocessor_args == o.urlprocessor_args
            &&& o.custom_hls_key is Some && (o.custom_hls_key->0).len() > 0 ==> c.custom_key
                == o.custom_hls_key
            &&& o.custom_hls_iv is Some && (o.custom_hls_iv->0).len() > 0 ==> c.custom_iv
                == o.custom_hls_iv
            &&& o.custom_hls_method is None ==> c.custom_method is None
            &&& crate::hls::allows_maps(c) == (o.allow_hls_multi_ext_map == Toggle::On)
        }),
{
    reveal_strlit("AllowHlsMultiExtMap");
    crate::text_map::law_lookup_after_put(
        Seq::<(Seq<char>, Seq<char>)>::empty(),
        "AllowHlsMultiExtMap"@,
        "true"@,
        "AllowHlsMultiExtMap"@,
    );
}

/// A signed URL is the URL with its signature behind it; the signature ends with its time, which is a
/// minute from now and the difference that was asked for.
pub proof fn law_signed_urls(url: Seq<char>, arguments: Seq<char>, now_ms: int, path: Seq<char>)
    requires
        0 <= now_ms <= 1_000_000_000_000_000,
        path_of_url(url) == Some(path),
        signed_url(url, Some(arguments), now_ms) is Ok,
    ensures
        starts_with(signed_url(url, Some(arguments), now_ms)->Ok_0, url + "?secure="@),
        ends_with(
            secure_value(path, arguments, 0, now_ms),
            ","@ + dec((now_ms + 60000) as nat),
        ),
        ends_with(
            secure_value(path, arguments, 500, now_ms),
            ","@ + dec((now_ms + 60500) as nat),
        ),
{
    let r = signed_url(url, Some(arguments), now_ms)->Ok_0;
    let head = url + "?secure="@;
    assert(r.subrange(0, head.len() as int) =~= head);
    let a = secure_value(path, arguments, 0, now_ms);
    let x = ","@ + dec((now_ms + 60000) as nat);
    assert(a.subrange(a.len() - x.len(), a.len() as int) =~= x);
    let b = secure_value(path, arguments, 500, now_ms);
    let y = ","@ + dec((now_ms + 60500) as nat);
    assert(b.subrange(b.len() - y.len(), b.len() as int) =~= y);
}

/// The first occurrence of a text is replaced, and nothing else changes.
pub proof fn law_first_occurrence_is_replaced(
    a: Seq<char>,
    p: Seq<char>,
    b: Seq<char>,
    w: Seq<char>,
)
    requires
        forall|i: int| 0 <= i < a.len() ==> !occurs_at(a + p + b, p, i),
    ensures
        replaced_first(a + p + b, p, w) == a + w + b,
{
    let s = a + p + b;
    let n = a.len() as int;
    lemma_find_from(s, p, 0);
    assert(s.subrange(n, n + p.len()) =~= p);
    assert(occurs_at(s, p, n));
    assert(crate::text::take(s, n) =~= a);
    assert(crate::text::drop(s, n + p.len()) =~= b);
}

/// A manifest that uses no prefix lacks no declaration.
pub proof fn law_no_prefix_no_declaration(raw: Seq<char>)
    requires
        !crate::text::contains(raw, "<cenc:"@),
        !crate::text::contains(raw, "<mspr:"@),
        !crate::text::contains(raw, "<mas:"@),
    ensures
        missing_declarations(raw).len() == 0,
{
    reveal_strlit("<");
    reveal_strlit(":");
    reveal_strlit("cenc");
    reveal_strlit("mspr");
    reveal_strlit("mas");
    reveal_strlit("<cenc:");
    reveal_strlit("<mspr:");
    reveal_strlit("<mas:");
    assert("<"@ + "cenc"@ + ":"@ =~= "<cenc:"@);
    assert("<"@ + "mspr"@ + ":"@ =~= "<mspr:"@);
    assert("<"@ + "mas"@ + ":"@ =~= "<mas:"@);
}

/// A segment that needs no repair stays as it is; one in gzip is unpacked; a picture of a known length
/// is cut off.
pub proof fn law_repairs(b: Seq<u8>)
    ensures
        repaired(b, false, false) == Ok::<Seq<u8>, ErrorView>(b),
        gzip_plain(b) is Ok ==> repaired(b, false, true) == Ok::<Seq<u8>, ErrorView>(
            gzip_plain(b)->Ok_0,
        ),
        gzip_plain(b) is Err ==> repaired(b, false, true) == Ok::<Seq<u8>, ErrorView>(b),
        b.len() > 120 && b[0] == 137 && b[1] == 80 && b[2] == 78 && b[3] == 71 && b[118] == 96
            && b[119] == 130 ==> without_picture(b) == Ok::<Seq<u8>, ErrorView>(b.skip(120)),
        b.len() >= 42 && b[0] == 0x47 && b[1] == 0x49 && b[2] == 0x46 && b[3] == 0x38
            ==> without_picture(b) == Ok::<Seq<u8>, ErrorView>(b.skip(42)),
{
}

/// Streams are refused where they are too many, or where one has too many segments, and not else.
pub proof fn law_limits(streams: Seq<StreamView>, limits: ResourceLimits, k: int)
    requires
        0 <= k < streams.len(),
    ensures
        streams.len() > limits.max_concurrent_streams ==> limit_objection(streams, limits) is Some,
        stream_segments(streams[k]) > limits.max_segments_per_stream ==> limit_objection(
            streams,
            limits,
        ) is Some,
        limit_objection(streams, limits) is None ==> stream_segments(streams[k])
            <= limits.max_segments_per_stream && streams.len() <= limits.max_concurrent_streams,
{
}

/// A path that leads somewhere is cleaned up there; one that leads nowhere under its name in its
/// directory.
pub proof fn law_cleanup_targets(p: CleanupPathView, root: Seq<char>, place: Seq<char>)
    ensures
        p.resolved == Some(place) ==> cleanup_target(p, root) == place,
        p.resolved is None && p.resolved_parent == Some(place) && crate::path::path_file_name(p.path)
            is Some ==> cleanup_target(p, root) == path_join(
            place,
            crate::path::path_file_name(p.path)->0,
        ),
{
}

/// The keys move the cursor by one or to an end, and not beyond.
pub proof fn law_keys_move_the_cursor(t: PromptStateView)
    requires
        0 <= t.cursor < t.entries.len(),
    ensures
        t.cursor > 0 ==> cursor_after(t, PromptKey::Up) == t.cursor - 1,
        t.cursor == 0 ==> cursor_after(t, PromptKey::Up) == 0,
        t.cursor + 1 < t.entries.len() ==> cursor_after(t, PromptKey::Down) == t.cursor + 1,
        t.cursor + 1 == t.entries.len() ==> cursor_after(t, PromptKey::Down) == t.cursor,
        cursor_after(t, PromptKey::Home) == 0,
        cursor_after(t, PromptKey::End) == t.entries.len() - 1,
        state_after(t, PromptKey::Down).selected == t.selected,
        state_after(t, PromptKey::Up).entries == t.entries,
{
}

/// Every stream stands in the list of its group, with its label, and the list begins with a title.
pub proof fn law_every_stream_is_listed(
    streams: Seq<StreamView>,
    labels: Seq<Seq<char>>,
    n: int,
    k: int,
)
    requires
        0 <= k < n <= streams.len(),
        n <= labels.len(),
    ensures
        group_entries(streams, labels, n, group_of(streams[k])).contains(
            PromptEntryView::Stream { stream_index: k as usize, label: labels[k] },
        ),
        group_entries(streams, labels, n, group_of(streams[k]))[0] is Group,
    decreases n,
{
    let g = group_of(streams[k]);
    let all = group_entries(streams, labels, n, g);
    let before = group_entries(streams, labels, n - 1, g);
    let e = PromptEntryView::Stream { stream_index: k as usize, label: labels[k] };
    if k < n - 1 {
        law_every_stream_is_listed(streams, labels, n - 1, k);
        let j = choose|j: int| 0 <= j < before.len() && before[j] == e;
        assert(all[j] == before[j]);
        assert(all[0] == before[0]);
    } else {
        assert(all[all.len() - 1] == e);
        if before.len() > 0 {
            lemma_title_first(streams, labels, n - 1, g);
            assert(all[0] == before[0]);
        }
    }
}

proof fn lemma_title_first(
    streams: Seq<StreamView>,
    labels: Seq<Seq<char>>,
    n: int,
    g: crate::prompt::MediaGroup,
)
    requires
        group_entries(streams, labels, n, g).len() > 0,
    ensures
        group_entries(streams, labels, n, g)[0] is Group,
    decreases n,
{
    if n > 0 && group_entries(streams, labels, n - 1, g).len() > 0 {
        lemma_title_first(streams, labels, n - 1, g);
    }
}

/// The first stream is chosen where none is named that is there.
pub proof fn law_first_choice(defaults: Seq<usize>, count: nat, x: usize)
    requires
        defaults.contains(x),
        x < count,
    ensures
        first_selection(defaults, count).contains(x),
        count > 0 ==> first_selection(Seq::empty(), count).contains(0usize),
{
    let there = Set::new(|y: usize| defaults.contains(y) && y < count);
    assert(there.contains(x));
    let none = Set::new(|y: usize| Seq::<usize>::empty().contains(y) && y < count);
    assert(none =~= Set::<usize>::empty());
}

} // verus!
