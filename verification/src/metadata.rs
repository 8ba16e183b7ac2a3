//! Streams as JSON.

use crate::codec::{base64_encode, base64_text};
use crate::manifest::{
    stop_range_of, stream_segments, Choice, EncryptionInfo, EncryptionInfoView, EncryptionMethod,
    MediaPart, MediaSegment, MediaSegmentView, MediaType, MssData, MssDataView, Playlist,
    PlaylistView, RoleType, Stream, StreamView,
};
use crate::path::{join_path, path_join};
use crate::processor::{encryption_method_compat_name, method_name};
use crate::text::{cat3, dec, dec_int, i64_text, owned, replace, replace_text, to_chars, u128_text};
use vstd::prelude::*;
use vstd::utf8::encode_utf8;

verus! {

/// A character in a JSON text.
pub open spec fn escaped_char(c: char) -> Seq<char> {
    if c == '"' {
        seq!['\\', '"']
    } else if c == '\\' {
        seq!['\\', '\\']
    } else if c == '\n' {
        seq!['\\', 'n']
    } else if c == '\r' {
        seq!['\\', 'r']
    } else if c == '\t' {
        seq!['\\', 't']
    } else {
        seq![c]
    }
}

/// The characters of a text in a JSON text.
pub open spec fn escaped(s: Seq<char>) -> Seq<char>
    decreases s.len(),
{
    if s.len() == 0 {
        s
    } else {
        escaped(s.drop_last()) + escaped_char(s.last())
    }
}

/// A text in JSON.
pub open spec fn json_text(s: Seq<char>) -> Seq<char> {
    "\""@ + escaped(s) + "\""@
}

/// The character that a character behind a backslash stands for.
pub open spec fn meant_by(c: char) -> char {
    if c == 'n' {
        '\n'
    } else if c == 'r' {
        '\r'
    } else if c == 't' {
        '\t'
    } else {
        c
    }
}

/// The text whose characters these are in a JSON text.
pub open spec fn unescaped(s: Seq<char>) -> Seq<char>
    decreases s.len(),
{
    if s.len() == 0 {
        s
    } else if s[0] == '\\' && s.len() > 1 {
        seq![meant_by(s[1])] + unescaped(s.skip(2))
    } else {
        seq![s[0]] + unescaped(s.skip(1))
    }
}

proof fn lemma_unescape_front(c: char, rest: Seq<char>)
    ensures
        unescaped(escaped_char(c) + rest) == seq![c] + unescaped(rest),
{
    let s = escaped_char(c) + rest;
    if escaped_char(c).len() == 2 {
        assert(s.skip(2) =~= rest);
    } else {
        assert(s.skip(1) =~= rest);
    }
}

proof fn lemma_unescape_all(s: Seq<char>, rest: Seq<char>)
    ensures
        unescaped(escaped(s) + rest) == s + unescaped(rest),
    decreases s.len(),
{
    if s.len() == 0 {
        assert(escaped(s) + rest =~= rest);
        assert(s + unescaped(rest) =~= unescaped(rest));
    } else {
        let head = s.drop_last();
        let tail = escaped_char(s.last()) + rest;
        assert(escaped(s) + rest =~= escaped(head) + tail);
        lemma_unescape_all(head, tail);
        lemma_unescape_front(s.last(), rest);
        assert(s + unescaped(rest) =~= head + (seq![s.last()] + unescaped(rest)));
    }
}

/// A text is found again in its JSON text.
pub proof fn law_escapes_can_be_undone(s: Seq<char>)
    ensures
        unescaped(escaped(s)) == s,
{
    lemma_unescape_all(s, Seq::empty());
    assert(escaped(s) + Seq::<char>::empty() =~= escaped(s));
    assert(s + unescaped(Seq::<char>::empty()) =~= s);
}

fn escape_json(value: &str) -> (r: String)
    ensures
        r@ == escaped(value@),
{
    let v: Vec<char> = to_chars(value);
    let mut out: String = String::new();
    let mut i: usize = 0;
    assert(value@.subrange(0, 0) =~= Seq::<char>::empty());
    while i < v.len()
        invariant
            i <= v@.len(),
            v@ == value@,
            out@ == escaped(value@.subrange(0, i as int)),
        decreases v@.len() - i,
    {
        let ghost head = value@.subrange(0, i + 1);
        assert(head.drop_last() =~= value@.subrange(0, i as int));
        let ghost before = out@;
        let c: char = v[i];
        if c == '"' || c == '\\' {
            out.push('\\');
            out.push(c);
        } else if c == '\n' {
            out.push('\\');
            out.push('n');
        } else if c == '\r' {
            out.push('\\');
            out.push('r');
        } else if c == '\t' {
            out.push('\\');
            out.push('t');
        } else {
            out.push(c);
        }
        assert(out@ =~= before + escaped_char(c));
        i = i + 1;
    }
    assert(value@.subrange(0, value@.len() as int) =~= value@);
    out
}

fn json_string(value: &str) -> (r: String)
    ensures
        r@ == json_text(value@),
{
    cat3("\"", escape_json(value).as_str(), "\"")
}

/// A run of spaces.
pub open spec fn spaces(n: nat) -> Seq<char> {
    Seq::new(n, |i: int| ' ')
}

fn push_spaces(out: &mut String, n: usize)
    ensures
        final(out)@ == old(out)@ + spaces(n as nat),
{
    let ghost start = out@;
    let mut i: usize = 0;
    while i < n
        invariant
            i <= n,
            out@ =~= start + spaces(i as nat),
        decreases n - i,
    {
        out.push(' ');
        i = i + 1;
    }
}

/// The names and values of an object.
pub type FieldsView = Seq<(Seq<char>, Seq<char>)>;

/// The first `n` fields of an object, each on a line of its own.
pub open spec fn field_lines(fields: FieldsView, n: int, indent: nat) -> Seq<char>
    decreases n,
{
    if n <= 0 {
        Seq::empty()
    } else {
        (if n > 1 {
            field_lines(fields, n - 1, indent) + ",\n"@
        } else {
            field_lines(fields, n - 1, indent)
        }) + spaces(indent + 2) + json_text(fields[n - 1].0) + ": "@ + fields[n - 1].1
    }
}

/// An object.
pub open spec fn object_text(fields: FieldsView, indent: nat) -> Seq<char> {
    if fields.len() == 0 {
        "{}"@
    } else {
        "{\n"@ + field_lines(fields, fields.len() as int, indent) + "\n"@ + spaces(indent) + "}"@
    }
}

/// The first `n` values of an array, each on a line of its own.
pub open spec fn value_lines(values: Seq<Seq<char>>, n: int, indent: nat) -> Seq<char>
    decreases n,
{
    if n <= 0 {
        Seq::empty()
    } else {
        (if n > 1 {
            value_lines(values, n - 1, indent) + ",\n"@
        } else {
            value_lines(values, n - 1, indent)
        }) + spaces(indent + 2) + values[n - 1]
    }
}

/// An array.
pub open spec fn array_text(values: Seq<Seq<char>>, indent: nat) -> Seq<char> {
    if values.len() == 0 {
        "[]"@
    } else {
        "[\n"@ + value_lines(values, values.len() as int, indent) + "\n"@ + spaces(indent) + "]"@
    }
}

fn object_json(fields: &Vec<(String, String)>, indent: usize) -> (r: String)
    requires
        indent <= 100,
    ensures
        r@ == object_text(fields.deep_view(), indent as nat),
{
    if fields.len() == 0 {
        return owned("{}");
    }
    let ghost all = fields.deep_view();
    let mut lines: String = String::new();
    let mut i: usize = 0;
    while i < fields.len()
        invariant
            i <= fields@.len(),
            indent <= 100,
            all == fields.deep_view(),
            lines@ == field_lines(all, i as int, indent as nat),
        decreases fields@.len() - i,
    {
        assert(all[i as int] == (fields@[i as int].0@, fields@[i as int].1@));
        if i > 0 {
            lines.append(",\n");
        }
        push_spaces(&mut lines, indent + 2);
        lines.append(json_string(fields[i].0.as_str()).as_str());
        lines.append(": ");
        lines.append(fields[i].1.as_str());
        i = i + 1;
    }
    let mut out: String = owned("{\n");
    out.append(lines.as_str());
    out.append("\n");
    push_spaces(&mut out, indent);
    out.append("}");
    out
}

fn array_json(values: &Vec<String>, indent: usize) -> (r: String)
    requires
        indent <= 100,
    ensures
        r@ == array_text(values.deep_view(), indent as nat),
{
    if values.len() == 0 {
        return owned("[]");
    }
    let ghost all = values.deep_view();
    let mut lines: String = String::new();
    let mut i: usize = 0;
    while i < values.len()
        invariant
            i <= values@.len(),
            indent <= 100,
            all == values.deep_view(),
            lines@ == value_lines(all, i as int, indent as nat),
        decreases values@.len() - i,
    {
        assert(all[i as int] == values@[i as int]@);
        if i > 0 {
            lines.append(",\n");
        }
        push_spaces(&mut lines, indent + 2);
        lines.append(values[i].as_str());
        i = i + 1;
    }
    let mut out: String = owned("[\n");
    out.append(lines.as_str());
    out.append("\n");
    push_spaces(&mut out, indent);
    out.append("]");
    out
}

/// Fields with one more.
pub open spec fn field(fields: FieldsView, name: Seq<char>, value: Seq<char>) -> FieldsView {
    fields.push((name, value))
}

/// Fields with one more text, where there is one.
pub open spec fn opt_field(fields: FieldsView, name: Seq<char>, value: Option<Seq<char>>) -> FieldsView {
    match value {
        Some(v) => fields.push((name, json_text(v))),
        None => fields,
    }
}

/// Fields with one more value as it stands, where there is one.
pub open spec fn opt_raw(fields: FieldsView, name: Seq<char>, value: Option<Seq<char>>) -> FieldsView {
    match value {
        Some(v) => fields.push((name, v)),
        None => fields,
    }
}

struct Fields {
    items: Vec<(String, String)>,
}

impl Fields {
    spec fn view(&self) -> FieldsView {
        self.items.deep_view()
    }

    fn new() -> (r: Self)
        ensures
            r.view() == FieldsView::empty(),
    {
        let r = Fields { items: Vec::new() };
        assert(r.items.deep_view() =~= FieldsView::empty());
        r
    }

    fn put(&mut self, name: &str, value: String)
        ensures
            final(self).view() == field(old(self).view(), name@, value@),
    {
        let ghost before = self.items.deep_view();
        let ghost item = (name@, value@);
        self.items.push((owned(name), value));
        assert(self.items.deep_view() =~= before.push(item));
    }

    fn put_text(&mut self, name: &str, value: &str)
        ensures
            final(self).view() == field(old(self).view(), name@, json_text(value@)),
    {
        self.put(name, json_string(value));
    }

    fn put_opt(&mut self, name: &str, value: &Option<String>)
        ensures
            final(self).view() == opt_field(old(self).view(), name@, value.deep_view()),
    {
        match value {
            Some(v) => self.put(name, json_string(v.as_str())),
            None => {},
        }
    }

    fn put_raw(&mut self, name: &str, value: &Option<String>)
        ensures
            final(self).view() == opt_raw(old(self).view(), name@, value.deep_view()),
    {
        match value {
            Some(v) => self.put(name, v.clone()),
            None => {},
        }
    }

    fn put_int(&mut self, name: &str, value: Option<i64>)
        ensures
            final(self).view() == opt_raw(
                old(self).view(),
                name@,
                match value {
                    Some(n) => Some(dec_int(n as int)),
                    None => None,
                },
            ),
    {
        match value {
            Some(n) => self.put(name, i64_text(n)),
            None => {},
        }
    }
}

/// The numbers of a playlist that are no integers, as they are shown.
#[derive(Debug)]
pub struct PlaylistNumbers {
    pub refresh_interval_ms: String,
    pub total_duration: String,
    pub target_duration: Option<String>,
    pub init_duration: String,
    /// The duration of each segment of each part.
    pub durations: Vec<Vec<String>>,
}

/// Model of `PlaylistNumbers`.
pub struct PlaylistNumbersView {
    pub refresh_interval_ms: Seq<char>,
    pub total_duration: Seq<char>,
    pub target_duration: Option<Seq<char>>,
    pub init_duration: Seq<char>,
    pub durations: Seq<Seq<Seq<char>>>,
}

impl DeepView for PlaylistNumbers {
    type V = PlaylistNumbersView;

    open spec fn deep_view(&self) -> PlaylistNumbersView {
        PlaylistNumbersView {
            refresh_interval_ms: self.refresh_interval_ms@,
            total_duration: self.total_duration@,
            target_duration: self.target_duration.deep_view(),
            init_duration: self.init_duration@,
            durations: self.durations.deep_view(),
        }
    }
}

/// The numbers of a stream that are no integers, as they are shown.
#[derive(Debug)]
pub struct StreamNumbers {
    pub skipped_duration: Option<String>,
    pub frame_rate: Option<String>,
    pub playlist: PlaylistNumbers,
}

/// Model of `StreamNumbers`.
pub struct StreamNumbersView {
    pub skipped_duration: Option<Seq<char>>,
    pub frame_rate: Option<Seq<char>>,
    pub playlist: PlaylistNumbersView,
}

impl DeepView for StreamNumbers {
    type V = StreamNumbersView;

    open spec fn deep_view(&self) -> StreamNumbersView {
        StreamNumbersView {
            skipped_duration: self.skipped_duration.deep_view(),
            frame_rate: self.frame_rate.deep_view(),
            playlist: self.playlist.deep_view(),
        }
    }
}

/// There is a duration for each segment of a playlist.
pub open spec fn numbers_fit(p: PlaylistView, n: PlaylistNumbersView) -> bool {
    n.durations.len() == p.media_parts.len() && forall|i: int|
        0 <= i < p.media_parts.len() ==> (#[trigger] n.durations[i]).len() == p.media_parts[i].len()
}

/// There is a duration for each segment of a stream.
pub open spec fn stream_numbers_fit(s: StreamView, n: StreamNumbersView) -> bool {
    s.playlist is Some ==> numbers_fit(s.playlist->0, n.playlist)
}

/// A yes or no.
pub open spec fn flag_text(b: bool) -> Seq<char> {
    if b {
        "true"@
    } else {
        "false"@
    }
}

fn flag_json(b: bool) -> (r: String)
    ensures
        r@ == flag_text(b),
{
    if b {
        owned("true")
    } else {
        owned("false")
    }
}

/// Bytes in base64.
pub open spec fn opt_base64(o: Option<Seq<u8>>) -> Option<Seq<char>> {
    match o {
        Some(b) => Some(base64_text(b)),
        None => None,
    }
}

fn encode_opt(o: &Option<Vec<u8>>) -> (r: Option<String>)
    ensures
        r.deep_view() == opt_base64(crate::manifest::opt_bytes(*o)),
{
    match o {
        Some(b) => Some(base64_encode(b)),
        None => None,
    }
}

/// An encryption.
pub open spec fn encryption_text(e: EncryptionInfoView, indent: nat) -> Seq<char> {
    object_text(
        opt_field(
            opt_field(
                field(FieldsView::empty(), "Method"@, json_text(method_name(e.method))),
                "Key"@,
                opt_base64(e.key),
            ),
            "IV"@,
            opt_base64(e.iv),
        ),
        indent,
    )
}

fn encryption_json(e: &EncryptionInfo, indent: usize) -> (r: String)
    requires
        indent <= 100,
    ensures
        r@ == encryption_text(e.deep_view(), indent as nat),
{
    let mut fields: Fields = Fields::new();
    fields.put_text("Method", encryption_method_compat_name(e.method));
    fields.put_opt("Key", &encode_opt(&e.key));
    fields.put_opt("IV", &encode_opt(&e.iv));
    object_json(&fields.items, indent)
}

/// An integer, where there is one.
pub open spec fn opt_int_text(o: Option<i64>) -> Option<Seq<char>> {
    match o {
        Some(n) => Some(dec_int(n as int)),
        None => None,
    }
}

/// The fields of a segment.
pub open spec fn segment_fields(s: MediaSegmentView, duration: Seq<char>, indent: nat) -> FieldsView {
    let start = field(
        field(FieldsView::empty(), "Index"@, dec_int(s.index as int)),
        "Duration"@,
        duration,
    );
    let dated = opt_field(
        opt_field(start, "Title"@, s.title),
        "DateTime"@,
        s.program_date_time,
    );
    let stop = match stop_range_of(s) {
        Some(n) => Some(dec_int(n)),
        None => None,
    };
    let ranged = opt_raw(
        opt_raw(opt_raw(dated, "StartRange"@, opt_int_text(s.start_range)), "StopRange"@, stop),
        "ExpectLength"@,
        opt_int_text(s.expected_length),
    );
    let locked = field(
        field(ranged, "EncryptInfo"@, encryption_text(s.encryption, indent + 2)),
        "IsEncrypted"@,
        flag_text(s.encryption.method != EncryptionMethod::Unencrypted),
    );
    opt_field(
        field(locked, "Url"@, json_text(replace(s.url, "%20"@, " "@))),
        "NameFromVar"@,
        s.name_from_var,
    )
}

fn segment_json(s: &MediaSegment, duration: &str, indent: usize) -> (r: String)
    requires
        indent <= 90,
    ensures
        r@ == object_text(
            segment_fields(s.deep_view(), duration@, indent as nat),
            indent as nat,
        ),
{
    proof {
        reveal_strlit("%20");
    }
    let mut fields: Fields = Fields::new();
    fields.put("Index", i64_text(s.index));
    fields.put("Duration", owned(duration));
    fields.put_opt("Title", &s.title);
    fields.put_opt("DateTime", &s.program_date_time);
    fields.put_int("StartRange", s.start_range);
    fields.put_int("StopRange", s.stop_range());
    fields.put_int("ExpectLength", s.expected_length);
    fields.put("EncryptInfo", encryption_json(&s.encryption, indent + 2));
    fields.put("IsEncrypted", flag_json(s.is_encrypted()));
    let url: String = replace_text(s.url.as_str(), "%20", " ");
    fields.put_text("Url", url.as_str());
    fields.put_opt("NameFromVar", &s.name_from_var);
    object_json(&fields.items, indent)
}

/// The segments of a part.
pub open spec fn segment_texts(part: Seq<MediaSegmentView>, durations: Seq<Seq<char>>, indent: nat) -> Seq<
    Seq<char>,
> {
    Seq::new(
        part.len(),
        |i: int| object_text(segment_fields(part[i], durations[i], indent), indent),
    )
}

/// A part.
pub open spec fn part_text(part: Seq<MediaSegmentView>, durations: Seq<Seq<char>>, indent: nat) -> Seq<char> {
    object_text(
        field(
            FieldsView::empty(),
            "MediaSegments"@,
            array_text(segment_texts(part, durations, indent + 4), indent + 2),
        ),
        indent,
    )
}

fn media_part_json(part: &MediaPart, durations: &Vec<String>, indent: usize) -> (r: String)
    requires
        indent <= 80,
        durations@.len() == part.media_segments@.len(),
    ensures
        r@ == part_text(part.deep_view(), durations.deep_view(), indent as nat),
{
    let ghost all = part.deep_view();
    let ghost dv = durations.deep_view();
    let mut values: Vec<String> = Vec::new();
    let mut i: usize = 0;
    while i < part.media_segments.len()
        invariant
            i <= part.media_segments@.len(),
            indent <= 80,
            durations@.len() == part.media_segments@.len(),
            all == part.deep_view(),
            dv == durations.deep_view(),
            values@.len() == i,
            forall|k: int|
                0 <= k < i ==> (#[trigger] values@[k])@ == object_text(
                    segment_fields(all[k], dv[k], indent as nat + 4),
                    indent as nat + 4,
                ),
        decreases part.media_segments@.len() - i,
    {
        assert(all[i as int] == part.media_segments@[i as int].deep_view());
        assert(dv[i as int] == durations@[i as int]@);
        values.push(segment_json(&part.media_segments[i], durations[i].as_str(), indent + 4));
        i = i + 1;
    }
    assert(values.deep_view() =~= segment_texts(all, dv, indent as nat + 4));
    let mut fields: Fields = Fields::new();
    fields.put("MediaSegments", array_json(&values, indent + 2));
    object_json(&fields.items, indent)
}

/// The parts of a playlist.
pub open spec fn part_texts(p: PlaylistView, n: PlaylistNumbersView, indent: nat) -> Seq<Seq<char>> {
    Seq::new(p.media_parts.len(), |i: int| part_text(p.media_parts[i], n.durations[i], indent))
}

/// A playlist.
pub open spec fn playlist_text(p: PlaylistView, n: PlaylistNumbersView, indent: nat) -> Seq<char> {
    let start = field(
        field(
            field(
                field(FieldsView::empty(), "Url"@, json_text(""@)),
                "IsLive"@,
                flag_text(p.is_live),
            ),
            "RefreshIntervalMs"@,
            n.refresh_interval_ms,
        ),
        "TotalDuration"@,
        n.total_duration,
    );
    let timed = opt_raw(start, "TargetDuration"@, n.target_duration);
    let begun = match p.media_init {
        Some(init) => field(
            timed,
            "MediaInit"@,
            object_text(segment_fields(init, n.init_duration, indent + 2), indent + 2),
        ),
        None => timed,
    };
    object_text(
        field(begun, "MediaParts"@, array_text(part_texts(p, n, indent + 4), indent + 2)),
        indent,
    )
}

fn parts_json(p: &Playlist, n: &PlaylistNumbers, indent: usize) -> (r: Vec<String>)
    requires
        indent <= 70,
        numbers_fit(p.deep_view(), n.deep_view()),
    ensures
        r.deep_view() == part_texts(p.deep_view(), n.deep_view(), indent as nat),
{
    let ghost pv = p.deep_view();
    let ghost nv = n.deep_view();
    let mut values: Vec<String> = Vec::new();
    let mut i: usize = 0;
    while i < p.media_parts.len()
        invariant
            i <= p.media_parts@.len(),
            indent <= 70,
            pv == p.deep_view(),
            nv == n.deep_view(),
            numbers_fit(pv, nv),
            values@.len() == i,
            forall|k: int|
                0 <= k < i ==> (#[trigger] values@[k])@ == part_text(
                    pv.media_parts[k],
                    nv.durations[k],
                    indent as nat,
                ),
        decreases p.media_parts@.len() - i,
    {
        assert(pv.media_parts[i as int] == p.media_parts@[i as int].deep_view());
        assert(nv.durations[i as int] == n.durations@[i as int].deep_view());
        values.push(media_part_json(&p.media_parts[i], &n.durations[i], indent));
        i = i + 1;
    }
    assert(values.deep_view() =~= part_texts(pv, nv, indent as nat));
    values
}

fn playlist_json(p: &Playlist, n: &PlaylistNumbers, indent: usize) -> (r: String)
    requires
        indent <= 60,
        numbers_fit(p.deep_view(), n.deep_view()),
    ensures
        r@ == playlist_text(p.deep_view(), n.deep_view(), indent as nat),
{
    let mut fields: Fields = Fields::new();
    fields.put_text("Url", "");
    fields.put("IsLive", flag_json(p.is_live));
    fields.put("RefreshIntervalMs", n.refresh_interval_ms.clone());
    fields.put("TotalDuration", n.total_duration.clone());
    fields.put_raw("TargetDuration", &n.target_duration);
    match &p.media_init {
        Some(init) => {
            fields.put("MediaInit", segment_json(init, n.init_duration.as_str(), indent + 2));
        },
        None => {},
    }
    let parts: Vec<String> = parts_json(p, n, indent + 4);
    fields.put("MediaParts", array_json(&parts, indent + 2));
    object_json(&fields.items, indent)
}

/// The data of a Smooth Streaming stream.
pub open spec fn mss_text(d: MssDataView, indent: nat) -> Seq<char> {
    let named = field(
        field(
            field(FieldsView::empty(), "FourCC"@, json_text(d.four_cc)),
            "CodecPrivateData"@,
            json_text(d.codec_private_data),
        ),
        "Type"@,
        json_text(d.stream_type),
    );
    let numbered = field(
        field(
            field(
                field(
                    field(
                        field(named, "Timesacle"@, dec_int(d.timescale as int)),
                        "SamplingRate"@,
                        dec_int(d.sampling_rate as int),
                    ),
                    "Channels"@,
                    dec_int(d.channels as int),
                ),
                "BitsPerSample"@,
                dec_int(d.bits_per_sample as int),
            ),
            "NalUnitLengthField"@,
            dec_int(d.nal_unit_length_field as int),
        ),
        "Duration"@,
        dec_int(d.duration as int),
    );
    object_text(
        field(
            field(
                field(numbered, "IsProtection"@, flag_text(d.is_protection)),
                "ProtectionSystemID"@,
                json_text(d.protection_system_id),
            ),
            "ProtectionData"@,
            json_text(d.protection_data),
        ),
        indent,
    )
}

fn mss_data_json(d: &MssData, indent: usize) -> (r: String)
    requires
        indent <= 100,
    ensures
        r@ == mss_text(d.deep_view(), indent as nat),
{
    let mut fields: Fields = Fields::new();
    fields.put_text("FourCC", d.four_cc.as_str());
    fields.put_text("CodecPrivateData", d.codec_private_data.as_str());
    fields.put_text("Type", d.stream_type.as_str());
    fields.put("Timesacle", i64_text(d.timescale as i64));
    fields.put("SamplingRate", i64_text(d.sampling_rate as i64));
    fields.put("Channels", i64_text(d.channels as i64));
    fields.put("BitsPerSample", i64_text(d.bits_per_sample as i64));
    fields.put("NalUnitLengthField", i64_text(d.nal_unit_length_field as i64));
    fields.put("Duration", i64_text(d.duration));
    fields.put("IsProtection", flag_json(d.is_protection));
    fields.put_text("ProtectionSystemID", d.protection_system_id.as_str());
    fields.put_text("ProtectionData", d.protection_data.as_str());
    object_json(&fields.items, indent)
}

/// The name of a kind of media.
pub open spec fn media_type_name(t: MediaType) -> Seq<char> {
    match t {
        MediaType::Audio => "AUDIO"@,
        MediaType::Video => "VIDEO"@,
        MediaType::Subtitles => "SUBTITLES"@,
        MediaType::ClosedCaptions => "CLOSED_CAPTIONS"@,
    }
}

fn media_type_text(t: MediaType) -> (r: &'static str)
    ensures
        r@ == media_type_name(t),
{
    match t {
        MediaType::Audio => "AUDIO",
        MediaType::Video => "VIDEO",
        MediaType::Subtitles => "SUBTITLES",
        MediaType::ClosedCaptions => "CLOSED_CAPTIONS",
    }
}

/// The name of a role.
pub open spec fn role_name(r: RoleType) -> Seq<char> {
    match r {
        RoleType::Subtitle => "Subtitle"@,
        RoleType::Main => "Main"@,
        RoleType::Alternate => "Alternate"@,
        RoleType::Supplementary => "Supplementary"@,
        RoleType::Commentary => "Commentary"@,
        RoleType::Dub => "Dub"@,
        RoleType::Description => "Description"@,
        RoleType::Sign => "Sign"@,
        RoleType::Metadata => "Metadata"@,
        RoleType::ForcedSubtitle => "ForcedSubtitle"@,
        RoleType::Numeric(n) => dec_int(n as int),
    }
}

pub(crate) fn role_text(role: RoleType) -> (r: String)
    ensures
        r@ == role_name(role),
{
    match role {
        RoleType::Subtitle => owned("Subtitle"),
        RoleType::Main => owned("Main"),
        RoleType::Alternate => owned("Alternate"),
        RoleType::Supplementary => owned("Supplementary"),
        RoleType::Commentary => owned("Commentary"),
        RoleType::Dub => owned("Dub"),
        RoleType::Description => owned("Description"),
        RoleType::Sign => owned("Sign"),
        RoleType::Metadata => owned("Metadata"),
        RoleType::ForcedSubtitle => owned("ForcedSubtitle"),
        RoleType::Numeric(n) => i64_text(n as i64),
    }
}

/// The name of a yes or no.
pub open spec fn choice_name(c: Choice) -> Seq<char> {
    match c {
        Choice::No => "NO"@,
        Choice::Yes => "YES"@,
    }
}

/// The fields of a stream before those of its sound and picture.
pub open spec fn stream_head(s: StreamView, n: StreamNumbersView, indent: nat) -> FieldsView {
    let typed = opt_field(
        FieldsView::empty(),
        "MediaType"@,
        match s.media_type {
            Some(t) => Some(media_type_name(t)),
            None => None,
        },
    );
    let named = opt_field(
        opt_field(opt_field(typed, "GroupId"@, s.group_id), "Language"@, s.language),
        "Name"@,
        s.name,
    );
    let chosen = opt_field(
        named,
        "Default"@,
        match s.default {
            Some(c) => Some(choice_name(c)),
            None => None,
        },
    );
    opt_raw(
        opt_raw(chosen, "SkippedDuration"@, n.skipped_duration),
        "MSSData"@,
        match s.mss_data {
            Some(d) => Some(mss_text(d, indent + 2)),
            None => None,
        },
    )
}

/// The fields of a stream up to its URLs.
pub open spec fn stream_middle(s: StreamView, n: StreamNumbersView, head: FieldsView) -> FieldsView {
    let wide = opt_field(
        opt_field(
            opt_raw(head, "Bandwidth"@, opt_int_text(s.bandwidth)),
            "Codecs"@,
            s.codecs,
        ),
        "Resolution"@,
        s.resolution,
    );
    let ended = opt_field(
        opt_field(opt_raw(wide, "FrameRate"@, n.frame_rate), "Channels"@, s.channels),
        "Extension"@,
        s.extension,
    );
    let played = opt_field(
        ended,
        "Role"@,
        match s.role {
            Some(r) => Some(role_name(r)),
            None => None,
        },
    );
    let told = opt_field(
        opt_field(
            opt_field(played, "VideoRange"@, s.video_range),
            "Characteristics"@,
            s.characteristics,
        ),
        "PublishTime"@,
        s.publish_time,
    );
    opt_field(
        opt_field(
            opt_field(opt_field(told, "AudioId"@, s.audio_id), "VideoId"@, s.video_id),
            "SubtitleId"@,
            s.subtitle_id,
        ),
        "PeriodId"@,
        s.period_id,
    )
}

/// A stream.
pub open spec fn stream_text(s: StreamView, n: StreamNumbersView, indent: nat) -> Seq<char> {
    let middle = stream_middle(s, n, stream_head(s, n, indent));
    let placed = field(
        field(middle, "Url"@, json_text(replace(s.url, " "@, "%20"@))),
        "OriginalUrl"@,
        json_text(replace(s.original_url, " "@, "%20"@)),
    );
    let listed = opt_raw(
        placed,
        "Playlist"@,
        match s.playlist {
            Some(p) => Some(playlist_text(p, n.playlist, indent + 2)),
            None => None,
        },
    );
    object_text(field(listed, "SegmentsCount"@, dec(stream_segments(s))), indent)
}

fn put_stream_head(fields: &mut Fields, s: &Stream, n: &StreamNumbers, indent: usize)
    requires
        indent <= 50,
        old(fields).view() == FieldsView::empty(),
    ensures
        final(fields).view() == stream_head(s.deep_view(), n.deep_view(), indent as nat),
{
    match s.media_type {
        Some(t) => fields.put_text("MediaType", media_type_text(t)),
        None => {},
    }
    fields.put_opt("GroupId", &s.group_id);
    fields.put_opt("Language", &s.language);
    fields.put_opt("Name", &s.name);
    match s.default {
        Some(Choice::No) => fields.put_text("Default", "NO"),
        Some(Choice::Yes) => fields.put_text("Default", "YES"),
        None => {},
    }
    fields.put_raw("SkippedDuration", &n.skipped_duration);
    match &s.mss_data {
        Some(d) => fields.put("MSSData", mss_data_json(d, indent + 2)),
        None => {},
    }
}

fn put_stream_middle(fields: &mut Fields, s: &Stream, n: &StreamNumbers)
    ensures
        final(fields).view() == stream_middle(s.deep_view(), n.deep_view(), old(fields).view()),
{
    fields.put_int("Bandwidth", s.bandwidth);
    fields.put_opt("Codecs", &s.codecs);
    fields.put_opt("Resolution", &s.resolution);
    fields.put_raw("FrameRate", &n.frame_rate);
    fields.put_opt("Channels", &s.channels);
    fields.put_opt("Extension", &s.extension);
    match s.role {
        Some(r) => fields.put_text("Role", role_text(r).as_str()),
        None => {},
    }
    fields.put_opt("VideoRange", &s.video_range);
    fields.put_opt("Characteristics", &s.characteristics);
    fields.put_opt("PublishTime", &s.publish_time);
    fields.put_opt("AudioId", &s.audio_id);
    fields.put_opt("VideoId", &s.video_id);
    fields.put_opt("SubtitleId", &s.subtitle_id);
    fields.put_opt("PeriodId", &s.period_id);
}

fn segments_text(s: &Stream) -> (r: String)
    ensures
        r@ == dec(stream_segments(s.deep_view())),
{
    match &s.playlist {
        None => u128_text(0),
        Some(p) => {
            let ghost parts = p.media_parts.deep_view();
            let mut total: u128 = 0;
            let mut i: usize = 0;
            assert(parts.subrange(0, 0) =~= Seq::<Seq<MediaSegmentView>>::empty());
            while i < p.media_parts.len()
                invariant
                    i <= p.media_parts@.len(),
                    parts == p.media_parts.deep_view(),
                    total == crate::manifest::count_segments(parts.subrange(0, i as int)),
                    total <= i * 0x1_0000_0000_0000_0000,
                decreases p.media_parts@.len() - i,
            {
                assert(parts.subrange(0, i + 1).drop_last() =~= parts.subrange(0, i as int));
                assert(parts.subrange(0, i + 1).last() == p.media_parts@[i as int].deep_view());
                assert(total <= 0xffff_ffff_ffff_ffff * 0x1_0000_0000_0000_0000)
                    by (nonlinear_arith)
                    requires
                        total <= i * 0x1_0000_0000_0000_0000,
                        i <= 0xffff_ffff_ffff_ffff,
                ;
                total = total + p.media_parts[i].media_segments.len() as u128;
                i = i + 1;
            }
            assert(parts.subrange(0, parts.len() as int) =~= parts);
            u128_text(total)
        },
    }
}

fn stream_metadata_json(s: &Stream, n: &StreamNumbers, indent: usize) -> (r: String)
    requires
        indent <= 50,
        stream_numbers_fit(s.deep_view(), n.deep_view()),
    ensures
        r@ == stream_text(s.deep_view(), n.deep_view(), indent as nat),
{
    proof {
        reveal_strlit(" ");
    }
    let mut fields: Fields = Fields::new();
    put_stream_head(&mut fields, s, n, indent);
    put_stream_middle(&mut fields, s, n);
    let url: String = replace_text(s.url.as_str(), " ", "%20");
    let original: String = replace_text(s.original_url.as_str(), " ", "%20");
    fields.put_text("Url", url.as_str());
    fields.put_text("OriginalUrl", original.as_str());
    match &s.playlist {
        Some(p) => fields.put("Playlist", playlist_json(p, &n.playlist, indent + 2)),
        None => {},
    }
    fields.put("SegmentsCount", segments_text(s));
    object_json(&fields.items, indent)
}

/// The streams as they stand in an array.
pub open spec fn stream_texts(streams: Seq<StreamView>, numbers: Seq<StreamNumbersView>) -> Seq<
    Seq<char>,
> {
    Seq::new(streams.len(), |i: int| stream_text(streams[i], numbers[i], 2))
}

/// Streams as JSON, with the line ends of a system.
pub open spec fn streams_text(
    streams: Seq<StreamView>,
    numbers: Seq<StreamNumbersView>,
    windows: bool,
) -> Seq<char> {
    let text = array_text(stream_texts(streams, numbers), 0);
    if windows {
        replace(text, "\n"@, "\r\n"@)
    } else {
        text
    }
}

/// Streams as JSON, with the line ends of a system. `numbers` holds for each stream the numbers
/// that are no integers.
pub fn streams_metadata_json(streams: &Vec<Stream>, numbers: &Vec<StreamNumbers>, windows: bool) -> (r:
    String)
    requires
        numbers@.len() == streams@.len(),
        forall|i: int|
            0 <= i < streams@.len() ==> stream_numbers_fit(
                #[trigger] streams.deep_view()[i],
                numbers.deep_view()[i],
            ),
    ensures
        r@ == streams_text(streams.deep_view(), numbers.deep_view(), windows),
{
    let ghost all = streams.deep_view();
    let ghost nv = numbers.deep_view();
    let mut values: Vec<String> = Vec::new();
    let mut i: usize = 0;
    while i < streams.len()
        invariant
            i <= streams@.len(),
            numbers@.len() == streams@.len(),
            all == streams.deep_view(),
            nv == numbers.deep_view(),
            forall|i: int|
                0 <= i < streams@.len() ==> stream_numbers_fit(#[trigger] all[i], nv[i]),
            values@.len() == i,
            forall|k: int|
                0 <= k < i ==> (#[trigger] values@[k])@ == stream_text(all[k], nv[k], 2),
        decreases streams@.len() - i,
    {
        assert(all[i as int] == streams@[i as int].deep_view());
        assert(nv[i as int] == numbers@[i as int].deep_view());
        values.push(stream_metadata_json(&streams[i], &numbers[i], 2));
        i = i + 1;
    }
    assert(values.deep_view() =~= stream_texts(all, nv));
    let text: String = array_json(&values, 0);
    if windows {
        proof {
            reveal_strlit("\n");
        }
        replace_text(text.as_str(), "\n", "\r\n")
    } else {
        text
    }
}

/// A text file begins with a byte order mark.
pub open spec fn marked_bytes(text: Seq<char>) -> Seq<u8> {
    seq![0xefu8, 0xbb, 0xbf] + encode_utf8(text)
}

/// The bytes of a text file, which begins with a byte order mark.
pub fn text_file_bytes(text: &str) -> (r: Vec<u8>)
    ensures
        r@ == marked_bytes(text@),
{
    let mut out: Vec<u8> = Vec::new();
    out.push(0xef);
    out.push(0xbb);
    out.push(0xbf);
    assert(out@ =~= seq![0xefu8, 0xbb, 0xbf]);
    crate::boxes::push_text(&mut out, text);
    out
}

/// The files for all streams and for the selected ones.
pub fn metadata_paths(directory: &str) -> (r: (String, String))
    ensures
        r.0@ == path_join(directory@, "meta.json"@),
        r.1@ == path_join(directory@, "meta_selected.json"@),
{
    (join_path(directory, "meta.json"), join_path(directory, "meta_selected.json"))
}

} // verus!
