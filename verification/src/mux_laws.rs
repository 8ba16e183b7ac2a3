//! What the commands that join and mux files say.

use crate::mux::{
    added, audio_count, audio_dispositions, barred_names, combine_plan, file_language, file_title,
    first_track, merge_arguments, merge_date, merge_plan, mkv_inputs, mkv_plan, mp4_inputs,
    mp4_labels, mux_codecs, mux_date, mux_ending, mux_inputs, mux_labels, mux_maps, mux_plan,
    output_path_of, quoted, solid_paths, CombinePlanView, FfmpegMergeMetadataView,
    FfmpegMergeRequestView, MergeOutputFormat, MuxFormat, OutputFileView,
};
use crate::manifest::MediaType;
use crate::path::{path_file_name, path_join, path_parent};
use crate::text::{dec, ends_with, starts_with};
use crate::text_laws::law_decimals_differ;
use vstd::prelude::*;

verus! {

/// Pieces of a command, one behind the other.
pub open spec fn in_a_row(pieces: Seq<Seq<char>>) -> Seq<char>
    decreases pieces.len(),
{
    if pieces.len() == 0 {
        Seq::empty()
    } else {
        in_a_row(pieces.drop_last()) + pieces.last()
    }
}

/// The piece that names an input.
pub open spec fn input_piece(f: OutputFileView) -> Seq<char> {
    " -i \""@ + f.file_path + "\" "@
}

/// The piece that takes an input into the output.
pub open spec fn map_piece(k: int) -> Seq<char> {
    " -map "@ + dec(k as nat) + " "@
}

/// The piece that states language and title of a track.
pub open spec fn label_piece(track: nat, language: Seq<char>, title: Option<Seq<char>>) -> Seq<char> {
    let spoken = " -metadata:s:"@ + dec(track) + " language=\""@ + language + "\" "@;
    match title {
        Some(t) => if t.len() > 0 {
            spoken + (" -metadata:s:"@ + dec(track) + " title=\""@ + t + "\" "@)
        } else {
            spoken
        },
        None => spoken,
    }
}

proof fn lemma_inputs(files: Seq<OutputFileView>, n: int)
    requires
        0 <= n <= files.len(),
    ensures
        mux_inputs(files, n) == in_a_row(Seq::new(n as nat, |k: int| input_piece(files[k]))),
    decreases n,
{
    reveal_strlit(" -i ");
    reveal_strlit(" -i \"");
    reveal_strlit("\"");
    reveal_strlit("\" ");
    reveal_strlit(" ");
    let pieces = Seq::new(n as nat, |k: int| input_piece(files[k]));
    if n > 0 {
        lemma_inputs(files, n - 1);
        assert(pieces.drop_last() =~= Seq::new((n - 1) as nat, |k: int| input_piece(files[k])));
        assert(mux_inputs(files, n) =~= mux_inputs(files, n - 1) + input_piece(files[n - 1]));
    }
}

pub proof fn lemma_maps(n: int)
    requires
        0 <= n,
    ensures
        mux_maps(n as nat) == in_a_row(Seq::new(n as nat, |k: int| map_piece(k))),
    decreases n,
{
    let pieces = Seq::new(n as nat, |k: int| map_piece(k));
    if n > 0 {
        lemma_maps(n - 1);
        assert(pieces.drop_last() =~= Seq::new((n - 1) as nat, |k: int| map_piece(k)));
        assert(mux_maps(n as nat) =~= mux_maps((n - 1) as nat) + map_piece(n - 1));
    }
}

proof fn lemma_labels(files: Seq<OutputFileView>, n: int)
    requires
        0 <= n <= files.len(),
    ensures
        mux_labels(files, n) == in_a_row(
            Seq::new(
                n as nat,
                |k: int|
                    label_piece(first_track(files, k), file_language(files[k]), file_title(files[k])),
            ),
        ),
    decreases n,
{
    reveal_strlit(" language=");
    reveal_strlit(" language=\"");
    reveal_strlit(" title=");
    reveal_strlit(" title=\"");
    reveal_strlit("\"");
    reveal_strlit("\" ");
    reveal_strlit(" ");
    let piece = |k: int|
        label_piece(first_track(files, k), file_language(files[k]), file_title(files[k]));
    let pieces = Seq::new(n as nat, piece);
    if n > 0 {
        lemma_labels(files, n - 1);
        assert(pieces.drop_last() =~= Seq::new((n - 1) as nat, piece));
        assert(mux_labels(files, n) =~= mux_labels(files, n - 1) + piece(n - 1));
    }
}

/// The command of a mux names every file as an input, in order, takes every input into the output
/// once, and states language and title of every file at its own track. It ends with the output.
pub proof fn law_mux_takes_every_file(
    binary: Seq<char>,
    files: Seq<OutputFileView>,
    base: Seq<char>,
    format: MuxFormat,
    date: Option<Seq<char>>,
    current_dir: Seq<char>,
)
    ensures
        ({
            let plan = mux_plan(binary, files, base, format, date, current_dir);
            let n = files.len();
            let inputs = Seq::new(n, |k: int| input_piece(files[k]));
            let maps = Seq::new(n, |k: int| map_piece(k));
            let labels = Seq::new(
                n,
                |k: int|
                    label_piece(first_track(files, k), file_language(files[k]), file_title(files[k])),
            );
            &&& plan.program == binary
            &&& plan.working_directory == current_dir
            &&& starts_with(
                plan.arguments,
                "-loglevel warning -nostdin -y -dn "@ + in_a_row(inputs) + in_a_row(maps)
                    + mux_codecs(format, crate::mux::has_srt(files)) + " -map_metadata -1 "@
                    + in_a_row(labels),
            )
            &&& ends_with(plan.arguments, "\""@ + plan.output_path + "\""@)
        }),
{
    let plan = mux_plan(binary, files, base, format, date, current_dir);
    let n = files.len() as int;
    lemma_inputs(files, n);
    lemma_maps(n);
    lemma_labels(files, n);
    let labelled = "-loglevel warning -nostdin -y -dn "@ + mux_inputs(files, n) + mux_maps(n as nat)
        + mux_codecs(format, crate::mux::has_srt(files)) + " -map_metadata -1 "@ + mux_labels(
        files,
        n,
    );
    let pictured = crate::mux::added(
        labelled,
        exists|i: int| 0 <= i < n && crate::mux::is_picture(#[trigger] files[i]),
        " -disposition:v:0 default "@,
    );
    assert(pictured.subrange(0, labelled.len() as int) =~= labelled);
    assert(plan.arguments.subrange(0, labelled.len() as int) =~= labelled);
    let end = quoted(plan.output_path);
    let at = plan.arguments.len() - end.len();
    assert(plan.arguments.subrange(at, at + end.len()) =~= end);
}

/// Different inputs are taken by different pieces.
pub proof fn law_no_input_is_taken_twice(i: nat, k: nat)
    requires
        i != k,
    ensures
        map_piece(i as int) != map_piece(k as int),
{
    reveal_strlit(" -map ");
    reveal_strlit(" ");
    law_decimals_differ(i, k);
    let a = map_piece(i as int);
    let b = map_piece(k as int);
    if a == b {
        assert(a.subrange(6, a.len() - 1) =~= dec(i));
        assert(b.subrange(6, b.len() - 1) =~= dec(k));
    }
}

/// The tracks of the first file come first, and those of each other behind those of the one before:
/// one for each that was found in it, one at least.
pub proof fn law_tracks_are_counted_on(files: Seq<OutputFileView>, k: int)
    requires
        0 <= k < files.len(),
    ensures
        first_track(files, 0) == 0,
        files[k].media_infos.len() <= 1 ==> first_track(files, k + 1) == first_track(files, k) + 1,
        files[k].media_infos.len() > 1 ==> first_track(files, k + 1) == first_track(files, k)
            + files[k].media_infos.len(),
{
}

/// Every audio track behind the first is made no default.
pub proof fn law_later_audio_is_no_default(n: nat)
    ensures
        audio_dispositions(n) == in_a_row(
            Seq::new(
                if n == 0 {
                    0
                } else {
                    (n - 1) as nat
                },
                |k: int| " -disposition:a:"@ + dec((k + 1) as nat) + " 0 "@,
            ),
        ),
    decreases n,
{
    let piece = |k: int| " -disposition:a:"@ + dec((k + 1) as nat) + " 0 "@;
    if n > 1 {
        law_later_audio_is_no_default((n - 1) as nat);
        let pieces = Seq::new((n - 1) as nat, piece);
        assert(pieces.drop_last() =~= Seq::new((n - 2) as nat, piece));
        assert(audio_dispositions(n) =~= audio_dispositions((n - 1) as nat) + piece(n - 2));
    }
}

/// What mkvmerge is told of a file ends with its path, which is told of no earlier file.
pub proof fn law_mkv_takes_every_file(files: Seq<OutputFileView>, n: int)
    requires
        0 < n <= files.len(),
    ensures
        starts_with(
            mkv_inputs(files, n),
            mkv_inputs(files, n - 1) + " --language 0:\""@ + file_language(files[n - 1]) + "\" "@,
        ),
        ends_with(mkv_inputs(files, n), " \""@ + files[n - 1].file_path + "\" "@),
        file_title(files[n - 1]) is None ==> mkv_inputs(files, n) == mkv_inputs(files, n - 1)
            + " --language 0:\""@ + file_language(files[n - 1]) + "\" "@ + (if files[n - 1].media_type
            == Some(MediaType::Subtitles) || files[n - 1].media_type == Some(MediaType::Audio)
            && audio_count(files, n - 1) > 0 {
            " --default-track 0:no "@
        } else {
            Seq::empty()
        }) + " \""@ + files[n - 1].file_path + "\" "@,
{
    reveal_strlit(" --language 0:");
    reveal_strlit(" --language 0:\"");
    reveal_strlit(" --default-track 0:no ");
    reveal_strlit("\"");
    reveal_strlit("\" ");
    reveal_strlit(" \"");
    reveal_strlit(" ");
    let f = files[n - 1];
    let all = mkv_inputs(files, n);
    let head = mkv_inputs(files, n - 1) + " --language 0:\""@ + file_language(f) + "\" "@;
    assert(all.subrange(0, head.len() as int) =~= head);
    if file_title(f) is None {
        assert(all =~= head + (if f.media_type == Some(MediaType::Subtitles) || f.media_type == Some(
            MediaType::Audio,
        ) && audio_count(files, n - 1) > 0 {
            " --default-track 0:no "@
        } else {
            Seq::empty()
        }) + " \""@ + f.file_path + "\" "@);
    }
    let end = " \""@ + f.file_path + "\" "@;
    let at = all.len() - end.len();
    assert(all.subrange(at, at + end.len()) =~= end);
}

/// A mux by mkvmerge writes to the output and tells of all the files.
pub proof fn law_mkv_writes_the_output(
    binary: Seq<char>,
    files: Seq<OutputFileView>,
    base: Seq<char>,
    current_dir: Seq<char>,
)
    ensures
        ({
            let plan = mkv_plan(binary, files, base, current_dir);
            &&& plan.program == binary
            &&& plan.arguments == "-q --output \""@ + plan.output_path + "\"  --no-chapters "@
                + mkv_inputs(files, files.len() as int)
            &&& plan.output_path == output_path_of(base, current_dir, ".mkv"@)
        }),
{
    reveal_strlit("-q --output ");
    reveal_strlit("-q --output \"");
    reveal_strlit("\"");
    reveal_strlit("\"  --no-chapters ");
    reveal_strlit("  --no-chapters ");
    let plan = mkv_plan(binary, files, base, current_dir);
    assert(plan.arguments =~= "-q --output \""@ + plan.output_path + "\"  --no-chapters "@
        + mkv_inputs(files, files.len() as int));
}

/// An absolute path stays, another is seen from the directory; the ending comes behind.
pub proof fn law_output_path(base: Seq<char>, current_dir: Seq<char>, ending: Seq<char>)
    ensures
        starts_with(base, "/"@) ==> output_path_of(base, current_dir, ending) == base + ending,
        !starts_with(base, "/"@) ==> output_path_of(base, current_dir, ending) == path_join(
            current_dir,
            base,
        ) + ending,
        mux_ending(MuxFormat::Mp4) == ".mp4"@,
        mux_ending(MuxFormat::Mkv) == ".mkv"@,
        mux_ending(MuxFormat::Ts) == ".ts"@,
{
}

/// The files of a merge are named in their order, each by its name.
pub proof fn law_merge_names_every_file(files: Seq<Seq<char>>, n: int)
    requires
        0 <= n <= files.len(),
        forall|k: int| 0 <= k < n ==> path_file_name(#[trigger] files[k]) is Some,
    ensures
        barred_names(files, n) == in_a_row(
            Seq::new(n as nat, |k: int| path_file_name(files[k])->0 + "|"@),
        ),
    decreases n,
{
    let piece = |k: int| path_file_name(files[k])->0 + "|"@;
    if n > 0 {
        assert(path_file_name(files[n - 1]) is Some);
        law_merge_names_every_file(files, n - 1);
        let pieces = Seq::new(n as nat, piece);
        assert(pieces.drop_last() =~= Seq::new((n - 1) as nat, piece));
        assert(barred_names(files, n) =~= barred_names(files, n - 1) + piece(n - 1));
    }
}

proof fn lemma_grows(a: Seq<char>, b: Seq<char>, piece: Seq<char>)
    requires
        starts_with(b, a),
    ensures
        starts_with(b + piece, a),
        forall|wanted: bool| starts_with(#[trigger] added(b, wanted, piece), a),
{
    assert((b + piece).subrange(0, a.len() as int) =~= b.subrange(0, a.len() as int));
}

proof fn lemma_begins_with_itself(a: Seq<char>)
    ensures
        starts_with(a, a),
{
    assert(a.subrange(0, a.len() as int) =~= a);
}

proof fn lemma_mp4_inputs_grow(command: Seq<char>, m: FfmpegMergeMetadataView)
    ensures
        starts_with(mp4_inputs(command, m), command),
{
    let all = mp4_inputs(command, m);
    assert(all.subrange(0, command.len() as int) =~= command);
}

proof fn lemma_mp4_labels_grow(
    start: Seq<char>,
    command: Seq<char>,
    m: FfmpegMergeMetadataView,
    write_date: bool,
    date: Seq<char>,
)
    requires
        starts_with(command, start),
    ensures
        starts_with(mp4_labels(command, m, write_date, date), start),
{
    let all = mp4_labels(command, m, write_date, date);
    assert(all.subrange(0, start.len() as int) =~= command.subrange(0, start.len() as int));
}

proof fn lemma_merge_arguments(
    command: Seq<char>,
    q: FfmpegMergeRequestView,
    date: Seq<char>,
    output: Seq<char>,
)
    ensures
        starts_with(merge_arguments(command, q, date, output), command),
        ends_with(merge_arguments(command, q, date, output), quoted(output)),
{
    let all = merge_arguments(command, q, date, output);
    let end = quoted(output);
    let body = all.subrange(0, all.len() - end.len());
    let at = all.len() - end.len();
    assert(all.subrange(at, at + end.len()) =~= end);
    let filter = q.use_aac_filter && q.metadata.ddp_audio is None;
    let bsf = " -bsf:a aac_adtstoasc"@;
    lemma_begins_with_itself(command);
    match q.format {
        MergeOutputFormat::Mp4 => {
            let inputs = mp4_inputs(command, q.metadata);
            lemma_mp4_inputs_grow(command, q.metadata);
            lemma_mp4_labels_grow(command, inputs, q.metadata, q.write_date, date);
            let labels = mp4_labels(inputs, q.metadata, q.write_date, date);
            lemma_grows(command, labels, " -movflags +faststart"@);
            let fast = added(labels, q.fast_start, " -movflags +faststart"@);
            lemma_grows(command, fast, " -c copy -y"@);
            let copied = fast + " -c copy -y"@;
            lemma_grows(command, copied, bsf);
            let whole = added(copied, filter, bsf);
            lemma_grows(command, whole, " "@);
            lemma_grows(command, whole + " "@, end);
        },
        MergeOutputFormat::Mkv | MergeOutputFormat::Flv => {
            lemma_grows(command, command, " -map 0 -c copy -y"@);
            let copied = command + " -map 0 -c copy -y"@;
            lemma_grows(command, copied, bsf);
            let whole = added(copied, filter, bsf);
            lemma_grows(command, whole, " "@);
            lemma_grows(command, whole + " "@, end);
        },
        MergeOutputFormat::M4a => {
            lemma_grows(command, command, " -map 0 -c copy -f mp4 -y"@);
            let copied = command + " -map 0 -c copy -f mp4 -y"@;
            lemma_grows(command, copied, bsf);
            let whole = added(copied, filter, bsf);
            lemma_grows(command, whole, " "@);
            lemma_grows(command, whole + " "@, end);
        },
        MergeOutputFormat::Ts => {
            let copied = command + " -map 0 -c copy -y -f mpegts -bsf:v h264_mp4toannexb"@;
            lemma_grows(command, command, " -map 0 -c copy -y -f mpegts -bsf:v h264_mp4toannexb"@);
            lemma_grows(command, copied, " "@);
            lemma_grows(command, copied + " "@, end);
        },
        _ => {
            let copied = command + " -map 0:a -c copy -y"@;
            lemma_grows(command, command, " -map 0:a -c copy -y"@);
            lemma_grows(command, copied, " "@);
            lemma_grows(command, copied + " "@, end);
        },
    }
}

/// A merge runs where its files are, reads them or the list of them, and ends with its output.
pub proof fn law_merge_reads_its_files(
    q: FfmpegMergeRequestView,
    current_dir: Seq<char>,
    now: Seq<char>,
)
    requires
        merge_plan(q, current_dir, now) is Ok,
    ensures
        ({
            let plan = merge_plan(q, current_dir, now)->Ok_0;
            &&& q.files.len() > 0
            &&& path_parent(q.files[0]) == Some(plan.working_directory)
            &&& plan.program == q.binary
            &&& q.use_concat_demuxer ==> q.concat_list_path is Some && starts_with(
                plan.arguments,
                "-loglevel warning -nostdin "@ + " -f concat -safe 0 -i "@ + quoted(
                    q.concat_list_path->0,
                ),
            )
            &&& !q.use_concat_demuxer ==> starts_with(
                plan.arguments,
                "-loglevel warning -nostdin "@ + " -i concat:"@ + quoted(
                    barred_names(q.files, q.files.len() as int),
                ),
            )
            &&& ends_with(plan.arguments, "\""@ + plan.output_path + "\""@)
        }),
{
    let plan = merge_plan(q, current_dir, now)->Ok_0;
    let start = "-loglevel warning -nostdin "@;
    let command = if q.use_concat_demuxer {
        start + " -f concat -safe 0 -i "@ + quoted(q.concat_list_path->0)
    } else {
        start + " -i concat:"@ + quoted(barred_names(q.files, q.files.len() as int))
    };
    lemma_merge_arguments(command, q, merge_date(q.metadata, now), plan.output_path);
}

/// Joining files takes each that has a path, in order.
pub proof fn law_joined_files_keep_the_order(files: Seq<Seq<char>>)
    requires
        files.len() > 1,
        forall|k: int| 0 <= k < files.len() ==> (#[trigger] files[k]).len() > 0,
    ensures
        combine_plan(files) == CombinePlanView::Append(files),
{
    lemma_solid(files);
}

proof fn lemma_solid(files: Seq<Seq<char>>)
    requires
        forall|k: int| 0 <= k < files.len() ==> (#[trigger] files[k]).len() > 0,
    ensures
        solid_paths(files) == files,
    decreases files.len(),
{
    if files.len() > 0 {
        assert(files.last().len() > 0);
        lemma_solid(files.drop_last());
        assert(files.drop_last().push(files.last()) =~= files);
    }
}

/// The date of a mux is the given one, else the present; there is none where none is wanted.
pub proof fn law_given_date_counts(given: Seq<char>, now: Seq<char>)
    ensures
        mux_date(true, Some(given), now) == Some(given),
        mux_date(true, None, now) == Some(now),
        mux_date(false, Some(given), now) is None,
{
}

} // verus!
