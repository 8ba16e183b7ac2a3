//! What is told of streams and tracks, and what filters and mux options mean.

use crate::cli_values::{
    bandwidth_of, before_colon, complex_of, complex_run, count_of, filter_of, for_of, hms_value_of,
    is_choice, mux_format_of, mux_of, mux_target_of, muxer_of, pat, switch_of,
};
use crate::config::{MuxerKind, StreamFilterView};
use crate::error::ErrorView;
use crate::manifest::{EncryptionMethod, MediaSegmentView, StreamView};
use crate::media_info::{fraction_millis, label_parts, seconds_millis, track_label};
use crate::metadata::{
    array_text, encryption_text, escaped, field, field_lines, json_text, marked_bytes, object_text,
    opt_field, opt_raw, segment_fields, spaces, stream_head, stream_middle, value_lines, FieldsView,
    StreamNumbersView,
};
use crate::mux::{file_language, file_title, MediaInfoView, MuxFormat, OutputFileView};
use crate::text::{
    contains, dec, drop, find, is_digit, is_space, join, lemma_find_from, occurs_at, replace, trim,
    trim_char,
};
use crate::text_laws::{
    law_contains_char, law_cut_at_a_character, law_decimal_holds_digits, law_decimal_is_read_within,
    law_no_cut_without_the_character, law_trim_keeps, lemma_decimal_is_trim, lemma_decimal_lacks,
    lemma_lacks_first,
};
use vstd::prelude::*;

verus! {

/// The line about a track names it and lists what is known of it, in this order.
pub proof fn law_track_labels(
    i: MediaInfoView,
    id: Seq<char>,
    kind: Seq<char>,
    base: Seq<char>,
    size: Seq<char>,
    fps: Seq<char>,
    rate: Seq<char>,
)
    requires
        i.id == Some(id),
        i.media_type == Some(kind) && kind.len() > 0,
        i.base_info == Some(base) && base.len() > 0,
        i.resolution == Some(size) && size.len() > 0,
        i.fps == Some(fps) && fps.len() > 0,
        i.bitrate == Some(rate) && rate.len() > 0,
        !i.dolby_vision,
        !i.hdr,
    ensures
        track_label(i) == id + ": "@ + join(seq![kind, base, size, fps, rate], ", "@),
{
    let fields = seq![i.media_type, i.base_info, i.resolution, i.fps, i.bitrate];
    reveal_with_fuel(label_parts, 6);
    assert(label_parts(fields, 5) =~= seq![kind, base, size, fps, rate]);
}

/// A start in seconds with three decimals is counted in milliseconds.
pub proof fn law_start_times_in_milliseconds(seconds: nat, a: char, b: char, c: char)
    requires
        seconds < 1_000_000_000,
        is_digit(a) && is_digit(b) && is_digit(c),
    ensures
        seconds_millis(dec(seconds) + "."@ + seq![a, b, c]) == Some(
            seconds * 1000 + (a as u32 - 48) * 100 + (b as u32 - 48) * 10 + (c as u32 - 48),
        ),
{
    reveal_strlit(".");
    assert("."@ =~= seq!['.']);
    lemma_decimal_lacks(seconds, '.');
    law_cut_at_a_character(dec(seconds), '.', seq![a, b, c]);
    lemma_decimal_is_trim(seconds);
    law_decimal_is_read_within(seconds, i64::MIN as int, i64::MAX as int);
    reveal_with_fuel(fraction_millis, 4);
}

/// In JSON a quotation mark, a backslash and a line end stand behind a backslash; other characters
/// stay.
pub proof fn law_json_escapes(s: Seq<char>, c: char)
    ensures
        escaped(s.push('"')) == escaped(s) + seq!['\\', '"'],
        escaped(s.push('\\')) == escaped(s) + seq!['\\', '\\'],
        escaped(s.push('\n')) == escaped(s) + seq!['\\', 'n'],
        c != '"' && c != '\\' && c != '\n' && c != '\r' && c != '\t' ==> escaped(s.push(c))
            == escaped(s).push(c),
        json_text(s) == "\""@ + escaped(s) + "\""@,
{
    assert(s.push('"').drop_last() =~= s);
    assert(s.push('\\').drop_last() =~= s);
    assert(s.push('\n').drop_last() =~= s);
    assert(s.push(c).drop_last() =~= s);
    if c != '"' && c != '\\' && c != '\n' && c != '\r' && c != '\t' {
        assert(escaped(s.push(c)) =~= escaped(s).push(c));
    }
}

/// Fields and values stand on lines of their own, with commas between them.
pub proof fn law_json_lines(name: Seq<char>, value: Seq<char>, fields: FieldsView, indent: nat)
    requires
        fields.len() > 0,
    ensures
        object_text(FieldsView::empty().push((name, value)), indent) == "{\n"@ + spaces(indent + 2)
            + json_text(name) + ": "@ + value + "\n"@ + spaces(indent) + "}"@,
        field_lines(fields.push((name, value)), fields.len() as int + 1, indent) == field_lines(
            fields,
            fields.len() as int,
            indent,
        ) + ",\n"@ + spaces(indent + 2) + json_text(name) + ": "@ + value,
        array_text(seq![value], indent) == "[\n"@ + spaces(indent + 2) + value + "\n"@ + spaces(
            indent,
        ) + "]"@,
{
    let one = FieldsView::empty().push((name, value));
    reveal_with_fuel(field_lines, 2);
    reveal_with_fuel(value_lines, 2);
    assert(field_lines(one, 1, indent) =~= spaces(indent + 2) + json_text(name) + ": "@ + value);
    assert(object_text(one, indent) =~= "{\n"@ + spaces(indent + 2) + json_text(name) + ": "@ + value
        + "\n"@ + spaces(indent) + "}"@);
    lemma_lines_of_first(fields, (name, value), fields.len() as int, indent);
    assert(value_lines(seq![value], 1, indent) =~= spaces(indent + 2) + value);
    assert(array_text(seq![value], indent) =~= "[\n"@ + spaces(indent + 2) + value + "\n"@ + spaces(
        indent,
    ) + "]"@);
}

proof fn lemma_lines_of_first(fields: FieldsView, x: (Seq<char>, Seq<char>), n: int, indent: nat)
    requires
        0 <= n <= fields.len(),
    ensures
        field_lines(fields.push(x), n, indent) == field_lines(fields, n, indent),
    decreases n,
{
    if n > 0 {
        lemma_lines_of_first(fields, x, n - 1, indent);
    }
}

/// A field that is put in is there, and stays when more are put in.
proof fn lemma_fields_stay(
    fields: FieldsView,
    x: (Seq<char>, Seq<char>),
    name: Seq<char>,
    value: Option<Seq<char>>,
    raw: Seq<char>,
)
    ensures
        fields.contains(x) ==> opt_field(fields, name, value).contains(x) && opt_raw(
            fields,
            name,
            value,
        ).contains(x) && field(fields, name, raw).contains(x),
        field(fields, name, raw).contains((name, raw)),
        value is Some ==> opt_field(fields, name, value).contains((name, json_text(value->0)))
            && opt_raw(fields, name, value).contains((name, value->0)),
{
    assert(field(fields, name, raw)[fields.len() as int] == (name, raw));
    if value is Some {
        let a = opt_field(fields, name, value);
        let b = opt_raw(fields, name, value);
        assert(a[fields.len() as int] == (name, json_text(value->0)));
        assert(b[fields.len() as int] == (name, value->0));
    }
    if fields.contains(x) {
        let i = choose|i: int| 0 <= i < fields.len() && fields[i] == x;
        assert(field(fields, name, raw)[i] == x);
        assert(opt_field(fields, name, value)[i] == x);
        assert(opt_raw(fields, name, value)[i] == x);
    }
}

/// What is written of a segment names its number, its range and its URL, and says whether it is
/// encrypted.
pub proof fn law_segments_are_written(s: MediaSegmentView, duration: Seq<char>, indent: nat)
    requires
        s.index >= 0,
        s.start_range is Some && s.start_range->0 >= 0,
        !s.url.contains('%'),
    ensures
        ({
            let all = segment_fields(s, duration, indent);
            &&& all.contains(("Index"@, dec(s.index as nat)))
            &&& all.contains(("Duration"@, duration))
            &&& all.contains(("StartRange"@, dec(s.start_range->0 as nat)))
            &&& all.contains(("Url"@, json_text(s.url)))
            &&& all.contains(("EncryptInfo"@, encryption_text(s.encryption, indent + 2)))
            &&& s.encryption.method == EncryptionMethod::Unencrypted ==> all.contains(
                ("IsEncrypted"@, "false"@),
            )
            &&& s.encryption.method != EncryptionMethod::Unencrypted ==> all.contains(
                ("IsEncrypted"@, "true"@),
            )
        }),
{
    reveal_strlit("%20");
    lemma_lacks_first(s.url, "%20"@);
    assert(replace(s.url, "%20"@, " "@) == s.url);
    let index = ("Index"@, dec(s.index as nat));
    let lasting = ("Duration"@, duration);
    let from = ("StartRange"@, dec(s.start_range->0 as nat));
    let lock = ("EncryptInfo"@, encryption_text(s.encryption, indent + 2));
    let f0 = FieldsView::empty();
    let f1 = field(f0, "Index"@, dec(s.index as nat));
    lemma_fields_stay(f0, index, "Index"@, None, dec(s.index as nat));
    let f2 = field(f1, "Duration"@, duration);
    lemma_fields_stay(f1, index, "Duration"@, None, duration);
    let f3 = opt_field(f2, "Title"@, s.title);
    lemma_fields_stay(f2, index, "Title"@, s.title, duration);
    lemma_fields_stay(f2, lasting, "Title"@, s.title, duration);
    let f4 = opt_field(f3, "DateTime"@, s.program_date_time);
    lemma_fields_stay(f3, index, "DateTime"@, s.program_date_time, duration);
    lemma_fields_stay(f3, lasting, "DateTime"@, s.program_date_time, duration);
    let start_text = crate::metadata::opt_int_text(s.start_range);
    let f5 = opt_raw(f4, "StartRange"@, start_text);
    lemma_fields_stay(f4, index, "StartRange"@, start_text, duration);
    lemma_fields_stay(f4, lasting, "StartRange"@, start_text, duration);
    let stop = match crate::manifest::stop_range_of(s) {
        Some(n) => Some(crate::text::dec_int(n)),
        None => None,
    };
    let f6 = opt_raw(f5, "StopRange"@, stop);
    lemma_fields_stay(f5, index, "StopRange"@, stop, duration);
    lemma_fields_stay(f5, lasting, "StopRange"@, stop, duration);
    lemma_fields_stay(f5, from, "StopRange"@, stop, duration);
    let length = crate::metadata::opt_int_text(s.expected_length);
    let f7 = opt_raw(f6, "ExpectLength"@, length);
    lemma_fields_stay(f6, index, "ExpectLength"@, length, duration);
    lemma_fields_stay(f6, lasting, "ExpectLength"@, length, duration);
    lemma_fields_stay(f6, from, "ExpectLength"@, length, duration);
    let e = encryption_text(s.encryption, indent + 2);
    let f8 = field(f7, "EncryptInfo"@, e);
    lemma_fields_stay(f7, index, "EncryptInfo"@, None, e);
    lemma_fields_stay(f7, lasting, "EncryptInfo"@, None, e);
    lemma_fields_stay(f7, from, "EncryptInfo"@, None, e);
    let flag = crate::metadata::flag_text(s.encryption.method != EncryptionMethod::Unencrypted);
    let f9 = field(f8, "IsEncrypted"@, flag);
    let flagged = ("IsEncrypted"@, flag);
    lemma_fields_stay(f8, index, "IsEncrypted"@, None, flag);
    lemma_fields_stay(f8, lasting, "IsEncrypted"@, None, flag);
    lemma_fields_stay(f8, from, "IsEncrypted"@, None, flag);
    lemma_fields_stay(f8, lock, "IsEncrypted"@, None, flag);
    let place = ("Url"@, json_text(s.url));
    let f10 = field(f9, "Url"@, json_text(s.url));
    lemma_fields_stay(f9, index, "Url"@, None, json_text(s.url));
    lemma_fields_stay(f9, lasting, "Url"@, None, json_text(s.url));
    lemma_fields_stay(f9, from, "Url"@, None, json_text(s.url));
    lemma_fields_stay(f9, lock, "Url"@, None, json_text(s.url));
    lemma_fields_stay(f9, flagged, "Url"@, None, json_text(s.url));
    lemma_fields_stay(f10, index, "NameFromVar"@, s.name_from_var, duration);
    lemma_fields_stay(f10, lasting, "NameFromVar"@, s.name_from_var, duration);
    lemma_fields_stay(f10, from, "NameFromVar"@, s.name_from_var, duration);
    lemma_fields_stay(f10, lock, "NameFromVar"@, s.name_from_var, duration);
    lemma_fields_stay(f10, flagged, "NameFromVar"@, s.name_from_var, duration);
    lemma_fields_stay(f10, place, "NameFromVar"@, s.name_from_var, duration);
}

/// What some fields hold, others hold too.
spec fn keeps(a: FieldsView, b: FieldsView) -> bool {
    forall|x: (Seq<char>, Seq<char>)| a.contains(x) ==> #[trigger] b.contains(x)
}

proof fn lemma_keeps(fields: FieldsView, name: Seq<char>, value: Option<Seq<char>>)
    ensures
        keeps(fields, opt_field(fields, name, value)),
        keeps(fields, opt_raw(fields, name, value)),
        value is Some ==> opt_field(fields, name, value).contains((name, json_text(value->0))),
        value is Some ==> opt_raw(fields, name, value).contains((name, value->0)),
{
    assert forall|x: (Seq<char>, Seq<char>)| fields.contains(x) implies #[trigger] opt_field(
        fields,
        name,
        value,
    ).contains(x) by {
        lemma_fields_stay(fields, x, name, value, Seq::empty());
    }
    assert forall|x: (Seq<char>, Seq<char>)| fields.contains(x) implies #[trigger] opt_raw(
        fields,
        name,
        value,
    ).contains(x) by {
        lemma_fields_stay(fields, x, name, value, Seq::empty());
    }
    lemma_fields_stay(fields, (name, name), name, value, Seq::empty());
}

proof fn lemma_keeps_through(a: FieldsView, b: FieldsView, c: FieldsView)
    requires
        keeps(a, b),
        keeps(b, c),
    ensures
        keeps(a, c),
{
    assert forall|x: (Seq<char>, Seq<char>)| a.contains(x) implies #[trigger] c.contains(x) by {
        assert(b.contains(x));
    }
}

/// What is written of a stream names its group, its language, its bandwidth, its codecs and its size,
/// where it has them.
pub proof fn law_streams_are_written(s: StreamView, n: StreamNumbersView, indent: nat)
    ensures
        ({
            let all = stream_middle(s, n, stream_head(s, n, indent));
            &&& s.group_id is Some ==> all.contains(("GroupId"@, json_text(s.group_id->0)))
            &&& s.language is Some ==> all.contains(("Language"@, json_text(s.language->0)))
            &&& s.name is Some ==> all.contains(("Name"@, json_text(s.name->0)))
            &&& s.bandwidth is Some && s.bandwidth->0 >= 0 ==> all.contains(
                ("Bandwidth"@, dec(s.bandwidth->0 as nat)),
            )
            &&& s.codecs is Some ==> all.contains(("Codecs"@, json_text(s.codecs->0)))
            &&& s.resolution is Some ==> all.contains(("Resolution"@, json_text(s.resolution->0)))
            &&& s.channels is Some ==> all.contains(("Channels"@, json_text(s.channels->0)))
            &&& s.audio_id is Some ==> all.contains(("AudioId"@, json_text(s.audio_id->0)))
        }),
{
    let kind = match s.media_type {
        Some(t) => Some(crate::metadata::media_type_name(t)),
        None => None,
    };
    let h1 = opt_field(FieldsView::empty(), "MediaType"@, kind);
    let h2 = opt_field(h1, "GroupId"@, s.group_id);
    let h3 = opt_field(h2, "Language"@, s.language);
    let h4 = opt_field(h3, "Name"@, s.name);
    let chosen = match s.default {
        Some(c) => Some(crate::metadata::choice_name(c)),
        None => None,
    };
    let h5 = opt_field(h4, "Default"@, chosen);
    let h6 = opt_raw(h5, "SkippedDuration"@, n.skipped_duration);
    let mss = match s.mss_data {
        Some(d) => Some(crate::metadata::mss_text(d, indent + 2)),
        None => None,
    };
    let h7 = opt_raw(h6, "MSSData"@, mss);
    let width = crate::metadata::opt_int_text(s.bandwidth);
    let m1 = opt_raw(h7, "Bandwidth"@, width);
    let m2 = opt_field(m1, "Codecs"@, s.codecs);
    let m3 = opt_field(m2, "Resolution"@, s.resolution);
    let m4 = opt_raw(m3, "FrameRate"@, n.frame_rate);
    let m5 = opt_field(m4, "Channels"@, s.channels);
    let m6 = opt_field(m5, "Extension"@, s.extension);
    let role = match s.role {
        Some(r) => Some(crate::metadata::role_name(r)),
        None => None,
    };
    let m7 = opt_field(m6, "Role"@, role);
    let m8 = opt_field(m7, "VideoRange"@, s.video_range);
    let m9 = opt_field(m8, "Characteristics"@, s.characteristics);
    let m10 = opt_field(m9, "PublishTime"@, s.publish_time);
    let m11 = opt_field(m10, "AudioId"@, s.audio_id);
    let m12 = opt_field(m11, "VideoId"@, s.video_id);
    let m13 = opt_field(m12, "SubtitleId"@, s.subtitle_id);
    let m14 = opt_field(m13, "PeriodId"@, s.period_id);
    assert(m14 == stream_middle(s, n, stream_head(s, n, indent)));
    lemma_keeps(h1, "GroupId"@, s.group_id);
    lemma_keeps(h2, "Language"@, s.language);
    lemma_keeps(h3, "Name"@, s.name);
    lemma_keeps(h4, "Default"@, chosen);
    lemma_keeps(h5, "SkippedDuration"@, n.skipped_duration);
    lemma_keeps(h6, "MSSData"@, mss);
    lemma_keeps(h7, "Bandwidth"@, width);
    lemma_keeps(m1, "Codecs"@, s.codecs);
    lemma_keeps(m2, "Resolution"@, s.resolution);
    lemma_keeps(m3, "FrameRate"@, n.frame_rate);
    lemma_keeps(m4, "Channels"@, s.channels);
    lemma_keeps(m5, "Extension"@, s.extension);
    lemma_keeps(m6, "Role"@, role);
    lemma_keeps(m7, "VideoRange"@, s.video_range);
    lemma_keeps(m8, "Characteristics"@, s.characteristics);
    lemma_keeps(m9, "PublishTime"@, s.publish_time);
    lemma_keeps(m10, "AudioId"@, s.audio_id);
    lemma_keeps(m11, "VideoId"@, s.video_id);
    lemma_keeps(m12, "SubtitleId"@, s.subtitle_id);
    lemma_keeps(m13, "PeriodId"@, s.period_id);
    lemma_keeps_through(m12, m13, m14);
    lemma_keeps_through(m11, m12, m14);
    lemma_keeps_through(m10, m11, m14);
    lemma_keeps_through(m9, m10, m14);
    lemma_keeps_through(m8, m9, m14);
    lemma_keeps_through(m7, m8, m14);
    lemma_keeps_through(m6, m7, m14);
    lemma_keeps_through(m5, m6, m14);
    lemma_keeps_through(m4, m5, m14);
    lemma_keeps_through(m3, m4, m14);
    lemma_keeps_through(m2, m3, m14);
    lemma_keeps_through(m1, m2, m14);
    lemma_keeps_through(h7, m1, m14);
    lemma_keeps_through(h6, h7, m14);
    lemma_keeps_through(h5, h6, m14);
    lemma_keeps_through(h4, h5, m14);
    lemma_keeps_through(h3, h4, m14);
    lemma_keeps_through(h2, h3, m14);
}

/// A text file begins with the mark of its encoding, and holds its text behind it.
pub proof fn law_text_files(text: Seq<char>)
    ensures
        marked_bytes(text).take(3) == seq![0xefu8, 0xbb, 0xbf],
        marked_bytes(text).skip(3) == vstd::utf8::encode_utf8(text),
{
    assert(marked_bytes(text).take(3) =~= seq![0xefu8, 0xbb, 0xbf]);
    assert(marked_bytes(text).skip(3) =~= vstd::utf8::encode_utf8(text));
}

proof fn lemma_run(rest: Seq<char>, acc: Seq<char>, last: char)
    requires
        !rest.contains(':'),
    ensures
        complex_run(rest, acc, last) == acc + rest,
    decreases rest.len(),
{
    if rest.len() == 0 {
        assert(acc + rest =~= acc);
    } else {
        assert(rest[0] != ':');
        assert(!rest.drop_first().contains(':')) by {
            if rest.drop_first().contains(':') {
                let i = choose|i: int|
                    0 <= i < rest.drop_first().len() && rest.drop_first()[i] == ':';
                assert(rest[i + 1] == ':');
            }
        }
        lemma_run(rest.drop_first(), acc.push(rest[0]), rest[0]);
        assert(acc.push(rest[0]) + rest.drop_first() =~= acc + rest);
    }
}

proof fn lemma_run_to_colon(value: Seq<char>, rest: Seq<char>, acc: Seq<char>, last: char)
    requires
        !value.contains(':'),
        !value.contains('\\'),
        last != '\\',
    ensures
        complex_run(value + seq![':'] + rest, acc, last) == acc + value,
    decreases value.len(),
{
    let s = value + seq![':'] + rest;
    if value.len() == 0 {
        assert(s[0] == ':');
        assert(acc + value =~= acc);
    } else {
        assert(s[0] == value[0]);
        assert(value[0] != ':' && value[0] != '\\');
        let less = value.drop_first();
        assert(!less.contains(':') && !less.contains('\\')) by {
            if less.contains(':') {
                let i = choose|i: int| 0 <= i < less.len() && less[i] == ':';
                assert(value[i + 1] == ':');
            }
            if less.contains('\\') {
                let i = choose|i: int| 0 <= i < less.len() && less[i] == '\\';
                assert(value[i + 1] == '\\');
            }
        }
        assert(s.drop_first() =~= less + seq![':'] + rest);
        lemma_run_to_colon(less, rest, acc.push(value[0]), value[0]);
        assert(acc.push(value[0]) + less =~= acc + value);
    }
}

/// A value that needs no cleaning.
pub open spec fn is_clean(value: Seq<char>) -> bool {
    &&& value.len() > 0
    &&& !is_space(value[0])
    &&& !is_space(value.last())
    &&& !value.contains('"')
    &&& !value.contains('\'')
    &&& !value.contains(':')
    &&& !value.contains('\\')
}

proof fn lemma_clean(value: Seq<char>)
    requires
        is_clean(value),
    ensures
        trim_char(trim_char(trim(value), '"'), '\'') == value,
        !contains(value, "\""@),
        !contains(value, "'"@),
{
    reveal_strlit("\"");
    reveal_strlit("'");
    assert("\""@ =~= seq!['"']);
    assert("'"@ =~= seq!['\'']);
    law_trim_keeps(value);
    law_contains_char(value, '"');
    law_contains_char(value, '\'');
    assert(value[0] != '"' && value[0] != '\'');
    assert(value[value.len() - 1] != '"' && value[value.len() - 1] != '\'');
}

/// A named part of an option is what stands behind its name, up to the next colon or the end.
pub proof fn law_named_parts_are_read(
    a: Seq<char>,
    key: Seq<char>,
    value: Seq<char>,
    rest: Seq<char>,
)
    requires
        key.len() > 0,
        is_clean(value),
        forall|i: int|
            0 <= i < a.len() ==> !occurs_at(
                a + (key + "="@) + (value + ":"@ + rest),
                key + "="@,
                i,
            ),
        forall|i: int| 0 <= i < a.len() ==> !occurs_at(a + (key + "="@) + value, key + "="@, i),
    ensures
        complex_of(a + (key + "="@) + (value + ":"@ + rest), key) == Ok::<
            Option<Seq<char>>,
            ErrorView,
        >(Some(value)),
        complex_of(a + (key + "="@) + value, key) == Ok::<Option<Seq<char>>, ErrorView>(Some(value)),
{
    reveal_strlit("=");
    reveal_strlit(":");
    assert(":"@ =~= seq![':']);
    lemma_clean(value);
    let name = key + "="@;
    let n = a.len() as int;
    let s = a + name + (value + ":"@ + rest);
    lemma_find_from(s, name, 0);
    assert(s.subrange(n, n + name.len()) =~= name);
    assert(occurs_at(s, name, n));
    assert(find(s, name) == Some(n));
    assert(drop(s, n + key.len() + 1) =~= value + ":"@ + rest);
    lemma_run_to_colon(value, rest, Seq::empty(), '\0');
    assert(Seq::<char>::empty() + value =~= value);
    let t = a + name + value;
    lemma_find_from(t, name, 0);
    assert(t.subrange(n, n + name.len()) =~= name);
    assert(occurs_at(t, name, n));
    assert(find(t, name) == Some(n));
    assert(drop(t, n + key.len() + 1) =~= value);
    lemma_run(value, Seq::empty(), '\0');
}

/// Each part of a filter is what the option says under its name.
pub proof fn law_filters_are_read(v: Seq<char>, f: StreamFilterView)
    requires
        filter_of(v) == Ok::<StreamFilterView, ErrorView>(f),
    ensures
        pat(v, "id"@) == Ok::<Option<Seq<char>>, ErrorView>(f.id),
        pat(v, "lang"@) == Ok::<Option<Seq<char>>, ErrorView>(f.language),
        pat(v, "name"@) == Ok::<Option<Seq<char>>, ErrorView>(f.name),
        pat(v, "codecs"@) == Ok::<Option<Seq<char>>, ErrorView>(f.codecs),
        pat(v, "res"@) == Ok::<Option<Seq<char>>, ErrorView>(f.resolution),
        pat(v, "url"@) == Ok::<Option<Seq<char>>, ErrorView>(f.url),
        pat(v, "frame"@) == Ok::<Option<Seq<char>>, ErrorView>(f.frame_rate),
        pat(v, "channel"@) == Ok::<Option<Seq<char>>, ErrorView>(f.channels),
        pat(v, "range"@) == Ok::<Option<Seq<char>>, ErrorView>(f.range),
        count_of(complex_of(v, "segsMin"@), "segsMin"@) == Ok::<Option<i64>, ErrorView>(
            f.segment_count_min,
        ),
        count_of(complex_of(v, "segsMax"@), "segsMax"@) == Ok::<Option<i64>, ErrorView>(
            f.segment_count_max,
        ),
        hms_value_of(complex_of(v, "plistDurMin"@), "plistDurMin"@) == Ok::<Option<i64>, ErrorView>(
            f.playlist_duration_min,
        ),
        hms_value_of(complex_of(v, "plistDurMax"@), "plistDurMax"@) == Ok::<Option<i64>, ErrorView>(
            f.playlist_duration_max,
        ),
        bandwidth_of(complex_of(v, "bwMin"@), "bwMin"@) == Ok::<Option<i64>, ErrorView>(
            f.bandwidth_min,
        ),
        bandwidth_of(complex_of(v, "bwMax"@), "bwMax"@) == Ok::<Option<i64>, ErrorView>(
            f.bandwidth_max,
        ),
        for_of(v) == Ok::<Seq<char>, ErrorView>(f.for_choice),
{
}

/// The format and the muxer of a mux are those that the option names; without a muxer it is ffmpeg.
pub proof fn law_mux_options_are_read(v: Seq<char>, format: Seq<char>, muxer: Option<Seq<char>>)
    requires
        complex_of(v, "format"@) == Ok::<Option<Seq<char>>, ErrorView>(Some(format)),
        complex_of(v, "muxer"@) == Ok::<Option<Seq<char>>, ErrorView>(muxer),
        mux_target_of(v) is Ok,
    ensures
        mux_format_of(format) == Ok::<MuxFormat, ErrorView>(mux_target_of(v)->Ok_0.0),
        muxer is Some ==> muxer_of(muxer->0) == Ok::<MuxerKind, ErrorView>(mux_target_of(v)->Ok_0.1),
        muxer is None ==> muxer_of("ffmpeg"@) == Ok::<MuxerKind, ErrorView>(
            mux_target_of(v)->Ok_0.1,
        ),
        mux_of(v) is Ok ==> mux_of(v)->Ok_0.format == mux_target_of(v)->Ok_0.0 && mux_of(
            v,
        )->Ok_0.muxer == mux_target_of(v)->Ok_0.1,
        mux_of(v) is Ok ==> switch_of(complex_of(v, "keep"@), "keep"@) == Ok::<bool, ErrorView>(
            mux_of(v)->Ok_0.keep,
        ),
        mux_of(v) is Ok ==> switch_of(complex_of(v, "skip_sub"@), "skip_sub"@) == Ok::<
            bool,
            ErrorView,
        >(mux_of(v)->Ok_0.skip_sub),
{
}

/// The formats and the muxers by their names.
pub proof fn law_muxers_are_known()
    ensures
        muxer_of("ffmpeg"@) == Ok::<MuxerKind, ErrorView>(MuxerKind::Ffmpeg),
        muxer_of("mkvmerge"@) == Ok::<MuxerKind, ErrorView>(MuxerKind::Mkvmerge),
        muxer_of("mp4forge"@) == Ok::<MuxerKind, ErrorView>(MuxerKind::Mp4forge),
        mux_format_of("mkv"@) == Ok::<MuxFormat, ErrorView>(MuxFormat::Mkv),
        mux_format_of("mp4"@) == Ok::<MuxFormat, ErrorView>(MuxFormat::Mp4),
{
    reveal_strlit("ffmpeg");
    reveal_strlit("mkvmerge");
    reveal_strlit("mp4forge");
    reveal_strlit("mkv");
    reveal_strlit("mp4");
    assert("ffmpeg"@.len() == 6 && "mkvmerge"@.len() == 8 && "mp4forge"@.len() == 8);
    assert("mkvmerge"@[1] == 'k' && "mp4forge"@[1] == 'p');
    assert("mkv"@[1] == 'k' && "mp4"@[1] == 'p');
    assert(crate::text::lower("mkv"@) =~= "mkv"@);
    assert(crate::text::lower("mp4"@) =~= "mp4"@);
}

/// What precedes the first colon of an option is its short form.
pub proof fn law_short_forms(head: Seq<char>, rest: Seq<char>)
    requires
        !head.contains(':'),
    ensures
        before_colon(head + ":"@ + rest) == head,
        before_colon(head) == head,
{
    reveal_strlit(":");
    assert(":"@ =~= seq![':']);
    law_cut_at_a_character(head, ':', rest);
    law_no_cut_without_the_character(head, ':');
    assert(crate::text::take(head + ":"@ + rest, head.len() as int) =~= head);
}

/// `best` and `worst` may have a number, and stand for themselves.
pub proof fn law_choices(n: nat)
    ensures
        is_choice("best"@ + dec(n)),
        is_choice("worst"@ + dec(n)),
        is_choice("all"@),
        for_of("best"@ + dec(n)) == Ok::<Seq<char>, ErrorView>("best"@ + dec(n)),
        for_of("worst"@ + dec(n)) == Ok::<Seq<char>, ErrorView>("worst"@ + dec(n)),
{
    reveal_strlit("best");
    reveal_strlit("worst");
    law_decimal_holds_digits(n);
    crate::text_laws::law_prefix_comes_off("best"@, dec(n));
    crate::text_laws::law_prefix_comes_off("worst"@, dec(n));
    crate::text_laws::lemma_prefix_char("worst"@ + dec(n), "best"@, 0);
}

/// A file in a mux has the title of its description, and the undetermined language where it states
/// none.
pub proof fn law_titles_and_languages(f: OutputFileView, code: Seq<char>, title: Seq<char>)
    ensures
        f.lang_code is None ==> file_language(f) == "und"@ && file_title(f) == f.description,
        f.lang_code == Some(code) && code.len() > 0 ==> file_language(f)
            == crate::mux::converted_language(code),
        f.lang_code == Some(code) && code.len() > 0 && f.description == Some(title) && title.len()
            > 0 ==> file_title(f) == Some(title),
        f.lang_code == Some(code) && code.len() > 0 && f.description is None ==> file_title(f)
            == Some(crate::mux::displayed_language(code)),
{
}

} // verus!
