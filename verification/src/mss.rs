//! Smooth Streaming manifests.

use crate::codec::{
    base64_decode, base64_encode, base64_text, bytes_to_hex, decode_base64, hex_digit, hex_text,
    hex_value,
};
use crate::dash::{
    either_text, give_tracks, given_tracks, int32_of, int64_of, own_opt, parse_optional_i32,
    parse_optional_i64, protect_stream, protected_stream,
};
use crate::datetime::{current_local_time, padded, year_text, zero_padded, LocalTime};
use crate::error::{view_result, Error, ErrorView, Result};
use crate::manifest::{
    blank_playlist, blank_segment, blank_stream, copy_opt, no_encryption, wrap_i64, EncryptionInfo,
    EncryptionInfoView, EncryptionMethod, ExtractorType, KeySource, MediaDuration,
    MediaDurationView, MediaPart, MediaSegment, MediaSegmentView, MediaType, MssData, MssDataView,
    Playlist, PlaylistView, Stream, StreamView,
};
use crate::mss_init::{generated_init, is_handled, MssGeneratedInit, MssInitGenerator};
use crate::numeric::{divide_up, double_quotient_up};
use crate::processor::{
    config_hex, current_millis, hex_to_bytes, ParserConfig, ParserConfigView, ParserDiagnostics,
};
use crate::refresh::{process_urls, processed_streams, refresh_from, refreshed_streams};
use crate::text::{
    cat2, cat3, contains, dec, dec_int, drop, either, find, find_text, has_text, i64_text, lower,
    lowered, opt, owned, replace, replace_text, same, slice, slice_from, take, trim, trimmed,
    u64_text, upper, uppered,
};
use crate::url::{combine_url, combined_url};
use crate::xml::{
    attr, attr_of, children, children_of, element_from, find_element, first_child, first_child_of,
    lemma_nodes_of_rows, nodes_of, parse_xml, xml_rows, XmlNode, XmlNodeView,
};
use vstd::prelude::*;
use vstd::utf8::encode_utf8;

verus! {

/// A Smooth Streaming manifest.
#[derive(Debug)]
pub struct MssManifest {
    pub streams: Vec<Stream>,
    pub warnings: Vec<String>,
    pub timescale: i32,
    pub duration: i64,
    pub is_live: bool,
}

/// Model of `MssManifest`.
pub struct MssManifestView {
    pub streams: Seq<StreamView>,
    pub warnings: Seq<Seq<char>>,
    pub timescale: i32,
    pub duration: i64,
    pub is_live: bool,
}

impl DeepView for MssManifest {
    type V = MssManifestView;

    open spec fn deep_view(&self) -> MssManifestView {
        MssManifestView {
            streams: self.streams.deep_view(),
            warnings: self.warnings.deep_view(),
            timescale: self.timescale,
            duration: self.duration,
            is_live: self.is_live,
        }
    }
}

/// Model of a parsed manifest.
pub open spec fn view_manifest(r: Result<MssManifest>) -> core::result::Result<
    MssManifestView,
    ErrorView,
> {
    match r {
        Ok(m) => Ok(m.deep_view()),
        Err(e) => Err(e.deep_view()),
    }
}

/// The kind of media of a stream type.
pub open spec fn media_type_of(value: Seq<char>) -> Option<MediaType> {
    if value == "audio"@ {
        Some(MediaType::Audio)
    } else if value == "text"@ {
        Some(MediaType::Subtitles)
    } else {
        None
    }
}

fn media_type(value: &str) -> (r: Option<MediaType>)
    ensures
        r == media_type_of(value@),
{
    if same(value, "audio") {
        Some(MediaType::Audio)
    } else if same(value, "text") {
        Some(MediaType::Subtitles)
    } else {
        None
    }
}

/// The characters that take up exactly the first `n` bytes of a text, looked for from `k`
/// characters on.
pub open spec fn byte_prefix(s: Seq<char>, n: nat, k: nat) -> Option<Seq<char>>
    decreases s.len() - k,
{
    if encode_utf8(take(s, k as int)).len() == n {
        Some(take(s, k as int))
    } else if k >= s.len() {
        None
    } else {
        byte_prefix(s, n, k + 1)
    }
}

fn bytes_prefix<'a>(s: &'a str, n: usize) -> (r: Option<&'a str>)
    ensures
        opt(r) == byte_prefix(s@, n as nat, 0),
{
    let len: usize = s.unicode_len();
    let mut k: usize = 0;
    loop
        invariant
            k <= len,
            len == s@.len(),
            byte_prefix(s@, n as nat, 0) == byte_prefix(s@, n as nat, k as nat),
        decreases len - k,
    {
        let head: &'a str = slice(s, 0, k);
        assert(head@ =~= take(s@, k as int));
        if head.as_bytes().len() == n {
            return Some(head);
        }
        if k >= len {
            return None;
        }
        k = k + 1;
    }
}

/// The codecs of AVC: the profile bytes of the first parameter set, where the first unit is one.
pub open spec fn avc_codecs(private: Seq<char>) -> Seq<char> {
    match find(private, "00000001"@) {
        Some(i) => {
            let unit = drop(private, i + 8);
            match (byte_prefix(unit, 2, 0), byte_prefix(drop(unit, 2), 6, 0)) {
                (Some(kind), Some(profile)) => if kind == "67"@ {
                    "avc1."@ + profile
                } else {
                    "avc1.4D401E"@
                },
                _ => "avc1.4D401E"@,
            }
        },
        None => "avc1.4D401E"@,
    }
}

fn parse_avc_codecs(private: &str) -> (r: String)
    ensures
        r@ == avc_codecs(private@),
{
    proof {
        reveal_strlit("00000001");
        reveal_strlit("67");
    }
    let _len: usize = private.unicode_len();
    match find_text(private, "00000001") {
        Some(i) => {
            let unit: &str = slice_from(private, i + 8);
            match bytes_prefix(unit, 2) {
                Some(kind) => {
                    if same(kind, "67") {
                        assert(unit@.len() >= 2) by {
                            lemma_prefix_is_inside(unit@, 2, 0);
                        }
                        match bytes_prefix(slice_from(unit, 2), 6) {
                            Some(profile) => {
                                return cat2("avc1.", profile);
                            },
                            None => {},
                        }
                    }
                },
                None => {},
            }
        },
        None => {},
    }
    owned("avc1.4D401E")
}

proof fn lemma_prefix_is_inside(s: Seq<char>, n: nat, k: nat)
    requires
        k <= s.len(),
    ensures
        match byte_prefix(s, n, k) {
            Some(t) => t.len() <= s.len(),
            None => true,
        },
    decreases s.len() - k,
{
    if encode_utf8(take(s, k as int)).len() != n && k < s.len() {
        lemma_prefix_is_inside(s, n, k + 1);
    }
}

/// A number of two characters in hexadecimal, of which the first may be a plus sign.
pub open spec fn hex_byte(s: Seq<char>) -> Option<int> {
    if s.len() != 2 {
        None
    } else if s[0] == '+' {
        hex_digit(s[1])
    } else {
        match (hex_digit(s[0]), hex_digit(s[1])) {
            (Some(a), Some(b)) => Some(a * 16 + b),
            _ => None,
        }
    }
}

fn parse_hex_byte(s: &str) -> (r: Option<u8>)
    ensures
        match r {
            Some(n) => hex_byte(s@) == Some(n as int),
            None => hex_byte(s@) is None,
        },
{
    if s.unicode_len() != 2 {
        return None;
    }
    let a: char = s.get_char(0);
    let b: char = s.get_char(1);
    if a == '+' {
        return hex_value(b);
    }
    match (hex_value(a), hex_value(b)) {
        (Some(x), Some(y)) => Some(x * 16 + y),
        _ => None,
    }
}

/// The profile of AAC: the object type of the configuration, 5 with high efficiency.
pub open spec fn aac_profile(four_cc: Seq<char>, private: Seq<char>) -> int {
    if four_cc == "AACH"@ {
        5
    } else {
        match byte_prefix(private, 2, 0) {
            Some(text) => match hex_byte(text) {
                Some(n) => n / 8,
                None => 2,
            },
            None => 2,
        }
    }
}

/// The codecs of a stream, as its format and codec private data tell.
pub open spec fn codecs_of(four_cc: Seq<char>, private: Seq<char>) -> Option<Seq<char>> {
    if four_cc == "TTML"@ {
        Some("stpp"@)
    } else if private.len() == 0 {
        None
    } else if four_cc == "H264"@ || four_cc == "X264"@ || four_cc == "DAVC"@ || four_cc == "AVC1"@ {
        Some(avc_codecs(private))
    } else if four_cc == "AAC"@ || four_cc == "AACL"@ || four_cc == "AACH"@ || four_cc == "AACP"@ {
        Some("mp4a.40."@ + dec(aac_profile(four_cc, private) as nat))
    } else {
        Some(lower(four_cc))
    }
}

fn parse_codecs(four_cc: &str, private: &str) -> (r: Option<String>)
    ensures
        r.deep_view() == codecs_of(four_cc@, private@),
{
    if same(four_cc, "TTML") {
        return Some(owned("stpp"));
    }
    if private.unicode_len() == 0 {
        return None;
    }
    if same(four_cc, "H264") || same(four_cc, "X264") || same(four_cc, "DAVC") || same(
        four_cc,
        "AVC1",
    ) {
        return Some(parse_avc_codecs(private));
    }
    if same(four_cc, "AAC") || same(four_cc, "AACL") || same(four_cc, "AACH") || same(
        four_cc,
        "AACP",
    ) {
        let profile: u8 = if same(four_cc, "AACH") {
            5
        } else {
            match bytes_prefix(private, 2) {
                Some(text) => match parse_hex_byte(text) {
                    Some(n) => n / 8,
                    None => 2,
                },
                None => 2,
            }
        };
        let digits: String = u64_text(profile as u64);
        return Some(cat2("mp4a.40.", digits.as_str()));
    }
    Some(lowered(four_cc))
}

/// The places in a URL pattern under one spelling.
pub open spec fn normal_pattern(pattern: Seq<char>) -> Seq<char> {
    replace(replace(pattern, "{bitrate}"@, "{Bitrate}"@), "{start time}"@, "{start_time}"@)
}

fn normalize_url_pattern(pattern: &str) -> (r: String)
    ensures
        r@ == normal_pattern(pattern@),
{
    proof {
        reveal_strlit("{bitrate}");
        reveal_strlit("{start time}");
    }
    let first: String = replace_text(pattern, "{bitrate}", "{Bitrate}");
    replace_text(first.as_str(), "{start time}", "{start_time}")
}

/// A URL with the bit rate and the start time of a segment in their places.
pub open spec fn filled_pattern(value: Seq<char>, bitrate: int, time: int) -> Seq<char> {
    replace(replace(value, "{Bitrate}"@, dec_int(bitrate)), "{start_time}"@, dec_int(time))
}

fn replace_mss_vars(value: &str, bitrate: i64, time: i64) -> (r: String)
    ensures
        r@ == filled_pattern(value@, bitrate as int, time as int),
{
    proof {
        reveal_strlit("{Bitrate}");
        reveal_strlit("{start_time}");
    }
    let first: String = replace_text(value, "{Bitrate}", i64_text(bitrate).as_str());
    replace_text(first.as_str(), "{start_time}", i64_text(time).as_str())
}

/// `true` or `false`, in any case.
pub open spec fn live_flag(value: Option<Seq<char>>) -> core::result::Result<bool, ErrorView> {
    match value {
        None => Ok(false),
        Some(text) => if lower(trim(text)) == "true"@ {
            Ok(true)
        } else if lower(trim(text)) == "false"@ {
            Ok(false)
        } else {
            Err(ErrorView::Protocol("Smooth Streaming IsLive value must be true or false"@))
        },
    }
}

fn parse_live(value: Option<&str>) -> (r: Result<bool>)
    ensures
        match r {
            Ok(b) => live_flag(opt(value)) == Ok::<bool, ErrorView>(b),
            Err(e) => live_flag(opt(value)) == Err::<bool, ErrorView>(e.deep_view()),
        },
{
    match value {
        None => Ok(false),
        Some(text) => {
            let word: String = lowered(trimmed(text));
            proof {
                reveal_strlit("true");
                reveal_strlit("false");
            }
            if same(word.as_str(), "true") {
                Ok(true)
            } else if same(word.as_str(), "false") {
                Ok(false)
            } else {
                Err(Error::protocol("Smooth Streaming IsLive value must be true or false"))
            }
        },
    }
}

/// Model of the protection of a manifest.
pub struct MssProtectionView {
    pub system_id: Seq<char>,
    pub data_hex: Seq<char>,
}

struct MssProtection {
    system_id: String,
    data_hex: String,
}

impl MssProtection {
    spec fn view(&self) -> MssProtectionView {
        MssProtectionView { system_id: self.system_id@, data_hex: self.data_hex@ }
    }
}

spec fn view_protection(p: Option<MssProtection>) -> Option<MssProtectionView> {
    match p {
        Some(v) => Some(v.view()),
        None => None,
    }
}

/// The protection that a manifest states.
pub open spec fn stated_protection(doc: Seq<XmlNodeView>, root: int) -> core::result::Result<
    Option<MssProtectionView>,
    ErrorView,
> {
    match first_child(doc, root, "Protection"@) {
        None => Ok(None),
        Some(protection) => match first_child(doc, protection, "ProtectionHeader"@) {
            None => Ok(None),
            Some(header) => match base64_decode(
                trim(
                    match doc[header].text {
                        Some(t) => t,
                        None => ""@,
                    },
                ),
            ) {
                Err(e) => Err(ErrorView::Config(e)),
                Ok(data) => Ok(
                    Some(
                        MssProtectionView {
                            system_id: match attr_of(doc, header, "SystemID"@) {
                                Some(id) => id,
                                None => "9A04F079-9840-4286-AB92-E65BE0885F95"@,
                            },
                            data_hex: hex_text(data, true),
                        },
                    ),
                ),
            },
        },
    }
}

fn parse_protection(doc: &Vec<XmlNode>, root: usize) -> (r: Result<Option<MssProtection>>)
    ensures
        match r {
            Ok(p) => stated_protection(doc.deep_view(), root as int) == Ok::<
                Option<MssProtectionView>,
                ErrorView,
            >(view_protection(p)),
            Err(e) => stated_protection(doc.deep_view(), root as int) == Err::<
                Option<MssProtectionView>,
                ErrorView,
            >(e.deep_view()),
        },
{
    let protection: usize = match first_child_of(doc, root, "Protection") {
        Some(i) => i,
        None => {
            return Ok(None);
        },
    };
    let header: usize = match first_child_of(doc, protection, "ProtectionHeader") {
        Some(i) => i,
        None => {
            return Ok(None);
        },
    };
    let system_id: String = match attr(doc, header, "SystemID") {
        Some(id) => owned(id),
        None => owned("9A04F079-9840-4286-AB92-E65BE0885F95"),
    };
    assert(doc.deep_view()[header as int] == doc@[header as int].deep_view());
    let text: &str = match &doc[header].text {
        Some(t) => t.as_str(),
        None => "",
    };
    match decode_base64(trimmed(text)) {
        Ok(data) => Ok(Some(MssProtection { system_id, data_hex: bytes_to_hex(&data, true) })),
        Err(e) => Err(Error::config(e)),
    }
}

/// A local time in ISO 8601, to the second.
pub open spec fn second_text(t: LocalTime) -> Seq<char> {
    year_text(t.year as int) + "-"@ + zero_padded(t.month as nat, 2) + "-"@ + zero_padded(
        t.day as nat,
        2,
    ) + "T"@ + zero_padded(t.hour as nat, 2) + ":"@ + zero_padded(t.minute as nat, 2) + ":"@
        + zero_padded(t.second as nat, 2)
}

/// A local time in ISO 8601, to the second.
pub fn publish_time_text(t: &LocalTime) -> (r: String)
    requires
        t.in_range(),
    ensures
        r@ == second_text(*t),
{
    let mut out: String = if t.year < 0 {
        let digits: String = padded((-t.year) as u64, 3);
        cat2("-", digits.as_str())
    } else {
        padded(t.year as u64, 4)
    };
    out.append("-");
    out.append(padded(t.month as u64, 2).as_str());
    out.append("-");
    out.append(padded(t.day as u64, 2).as_str());
    out.append("T");
    out.append(padded(t.hour as u64, 2).as_str());
    out.append(":");
    out.append(padded(t.minute as u64, 2).as_str());
    out.append(":");
    out.append(padded(t.second as u64, 2).as_str());
    out
}

/// What the streams of a manifest have in common.
pub struct MssContextView {
    pub doc: Seq<XmlNodeView>,
    pub url: Seq<char>,
    pub base: Seq<char>,
    pub original_url: Seq<char>,
    pub timescale: i32,
    pub duration: i64,
    pub is_live: bool,
    pub protection: Option<MssProtectionView>,
    pub published: Seq<char>,
    pub created: u64,
}

struct MssContext<'a> {
    doc: &'a Vec<XmlNode>,
    url: &'a str,
    base: &'a str,
    original_url: &'a str,
    timescale: i32,
    duration: i64,
    is_live: bool,
    protection: Option<MssProtection>,
    published: &'a str,
    created: u64,
}

impl<'a> MssContext<'a> {
    spec fn view(&self) -> MssContextView {
        MssContextView {
            doc: self.doc.deep_view(),
            url: self.url@,
            base: self.base@,
            original_url: self.original_url@,
            timescale: self.timescale,
            duration: self.duration,
            is_live: self.is_live,
            protection: view_protection(self.protection),
            published: self.published@,
            created: self.created,
        }
    }
}

/// Segments that were counted so far, and where the next one begins.
pub struct ChunkState {
    pub time: i64,
    pub index: i64,
    pub segments: Seq<MediaSegmentView>,
}

/// How the segments of a stream are addressed.
pub struct ChunkRule {
    pub combined: Seq<char>,
    pub bitrate: int,
    pub timescale: i32,
}

/// One segment.
pub open spec fn chunk_segment(rule: ChunkRule, st: ChunkState, units: i64) -> MediaSegmentView {
    MediaSegmentView {
        index: st.index,
        duration: MediaDurationView::Ticks {
            units: units as int,
            timescale: rule.timescale as int,
        },
        name_from_var: if contains(rule.combined, "{start_time}"@) {
            Some(dec_int(st.time as int))
        } else {
            None
        },
        url: filled_pattern(rule.combined, rule.bitrate, st.time as int),
        ..blank_segment()
    }
}

/// After one more segment.
pub open spec fn chunk_next(rule: ChunkRule, st: ChunkState, units: i64) -> ChunkState {
    ChunkState {
        time: wrap_i64(st.time + units) as i64,
        index: wrap_i64(st.index + 1) as i64,
        segments: st.segments.push(chunk_segment(rule, st, units)),
    }
}

/// After `n` more segments of one length.
pub open spec fn chunks(rule: ChunkRule, st: ChunkState, units: i64, n: nat) -> ChunkState
    decreases n,
{
    if n == 0 {
        st
    } else {
        chunk_next(rule, chunks(rule, st, units, (n - 1) as nat), units)
    }
}

/// The magnitude of a number.
pub open spec fn magnitude(n: int) -> nat {
    if n < 0 {
        (-n) as nat
    } else {
        n as nat
    }
}

/// How often a chunk stands in the timeline: as often as stated, and where a negative number is
/// stated, up to the end of the presentation; once at least.
pub open spec fn chunk_count(stated: int, total: int, units: int) -> nat {
    if stated > 0 {
        stated as nat
    } else if stated < 0 && ((total > 0 && units > 0) || (total < 0 && units < 0)) {
        let n = double_quotient_up(magnitude(total), magnitude(units));
        if n > i64::MAX {
            i64::MAX as nat
        } else if n > 1 {
            n
        } else {
            1
        }
    } else {
        1
    }
}

/// After the first `n` chunks of a stream.
pub open spec fn chunk_states(
    rule: ChunkRule,
    doc: Seq<XmlNodeView>,
    nodes: Seq<int>,
    n: int,
    total: i64,
) -> core::result::Result<ChunkState, ErrorView>
    decreases n,
{
    if n <= 0 {
        Ok(ChunkState { time: 0, index: 0, segments: Seq::empty() })
    } else {
        match chunk_states(rule, doc, nodes, n - 1, total) {
            Err(e) => Err(e),
            Ok(st) => {
                let c = nodes[n - 1];
                match (
                    int64_of(attr_of(doc, c, "t"@), "Smooth Streaming chunk t"@, st.time as int),
                    int64_of(attr_of(doc, c, "d"@), "Smooth Streaming chunk d"@, 0),
                    int64_of(attr_of(doc, c, "r"@), "Smooth Streaming chunk r"@, 0),
                ) {
                    (Err(e), _, _) => Err(e),
                    (_, Err(e), _) => Err(e),
                    (_, _, Err(e)) => Err(e),
                    (Ok(time), Ok(units), Ok(stated)) => Ok(
                        chunks(
                            rule,
                            ChunkState { time: time as i64, ..st },
                            units as i64,
                            chunk_count(stated, total as int, units),
                        ),
                    ),
                }
            },
        }
    }
}

fn absolute(n: i64) -> (r: u64)
    ensures
        r == magnitude(n as int),
{
    if n < 0 {
        (-(n + 1)) as u64 + 1
    } else {
        n as u64
    }
}

fn count_chunks(stated: i64, total: i64, units: i64) -> (r: u64)
    ensures
        r == chunk_count(stated as int, total as int, units as int),
        1 <= r <= i64::MAX,
{
    if stated > 0 {
        return stated as u64;
    }
    if stated < 0 && ((total > 0 && units > 0) || (total < 0 && units < 0)) {
        let n: u128 = divide_up(absolute(total), absolute(units));
        if n > 0x7fff_ffff_ffff_ffff {
            0x7fff_ffff_ffff_ffff
        } else if n > 1 {
            n as u64
        } else {
            1
        }
    } else {
        1
    }
}

struct ChunkRun<'a> {
    combined: &'a str,
    bitrate: i64,
    timescale: i32,
    time: i64,
    index: i64,
    segments: Vec<MediaSegment>,
}

impl<'a> ChunkRun<'a> {
    spec fn rule(&self) -> ChunkRule {
        ChunkRule {
            combined: self.combined@,
            bitrate: self.bitrate as int,
            timescale: self.timescale,
        }
    }

    spec fn state(&self) -> ChunkState {
        ChunkState { time: self.time, index: self.index, segments: self.segments.deep_view() }
    }

    fn next(&mut self, units: i64)
        ensures
            final(self).rule() == old(self).rule(),
            final(self).state() == chunk_next(old(self).rule(), old(self).state(), units),
    {
        let mut segment: MediaSegment = MediaSegment::default();
        segment.index = self.index;
        segment.duration = MediaDuration::Ticks { units, timescale: self.timescale as i64 };
        if has_text(self.combined, "{start_time}") {
            segment.name_from_var = Some(i64_text(self.time));
        }
        segment.url = replace_mss_vars(self.combined, self.bitrate, self.time);
        let ghost before = self.segments.deep_view();
        let ghost item = segment.deep_view();
        self.segments.push(segment);
        assert(self.segments.deep_view() =~= before.push(item));
        self.time = self.time.wrapping_add(units);
        self.index = self.index.wrapping_add(1);
    }

    fn repeat(&mut self, units: i64, n: u64)
        ensures
            final(self).rule() == old(self).rule(),
            final(self).state() == chunks(old(self).rule(), old(self).state(), units, n as nat),
    {
        let ghost rule = self.rule();
        let ghost start = self.state();
        let mut k: u64 = 0;
        while k < n
            invariant
                k <= n,
                self.rule() == rule,
                self.state() == chunks(rule, start, units, k as nat),
            decreases n - k,
        {
            self.next(units);
            k = k + 1;
        }
    }

    fn chunk(&mut self, doc: &Vec<XmlNode>, c: usize, total: i64) -> (r: Result<()>)
        requires
            c < doc@.len(),
        ensures
            final(self).rule() == old(self).rule(),
            ({
                let st = old(self).state();
                match (
                    int64_of(
                        attr_of(doc.deep_view(), c as int, "t"@),
                        "Smooth Streaming chunk t"@,
                        st.time as int,
                    ),
                    int64_of(
                        attr_of(doc.deep_view(), c as int, "d"@),
                        "Smooth Streaming chunk d"@,
                        0,
                    ),
                    int64_of(
                        attr_of(doc.deep_view(), c as int, "r"@),
                        "Smooth Streaming chunk r"@,
                        0,
                    ),
                ) {
                    (Err(e), _, _) => r is Err && r->Err_0.deep_view() == e,
                    (_, Err(e), _) => r is Err && r->Err_0.deep_view() == e,
                    (_, _, Err(e)) => r is Err && r->Err_0.deep_view() == e,
                    (Ok(time), Ok(units), Ok(stated)) => r is Ok && final(self).state() == chunks(
                        old(self).rule(),
                        ChunkState { time: time as i64, ..st },
                        units as i64,
                        chunk_count(stated, total as int, units),
                    ),
                }
            }),
    {
        let time: i64 = parse_optional_i64(
            attr(doc, c, "t"),
            "Smooth Streaming chunk t",
            self.time,
        )?;
        let units: i64 = parse_optional_i64(attr(doc, c, "d"), "Smooth Streaming chunk d", 0)?;
        let stated: i64 = parse_optional_i64(attr(doc, c, "r"), "Smooth Streaming chunk r", 0)?;
        self.time = time;
        self.repeat(units, count_chunks(stated, total, units));
        Ok(())
    }
}

proof fn lemma_chunk_states_stop(
    rule: ChunkRule,
    doc: Seq<XmlNodeView>,
    nodes: Seq<int>,
    n: int,
    total: i64,
)
    requires
        0 <= n <= nodes.len(),
        chunk_states(rule, doc, nodes, n, total) is Err,
    ensures
        chunk_states(rule, doc, nodes, nodes.len() as int, total) == chunk_states(
            rule,
            doc,
            nodes,
            n,
            total,
        ),
    decreases nodes.len() - n,
{
    if n < nodes.len() {
        lemma_chunk_states_stop(rule, doc, nodes, n + 1, total);
    }
}

/// The segments of a stream.
pub open spec fn stream_chunks(c: MssContextView, stream_index: int, pattern: Seq<char>, bitrate: int) -> core::result::Result<
    Seq<MediaSegmentView>,
    ErrorView,
> {
    let rule = ChunkRule {
        combined: combined_url(c.base, pattern),
        bitrate,
        timescale: c.timescale,
    };
    let nodes = children(c.doc, stream_index, "c"@);
    match chunk_states(rule, c.doc, nodes, nodes.len() as int, c.duration) {
        Err(e) => Err(e),
        Ok(st) => Ok(st.segments),
    }
}

fn expand_chunks(c: &MssContext, stream_index: usize, pattern: &str, bitrate: i64) -> (r: Result<
    Vec<MediaSegment>,
>)
    ensures
        match r {
            Ok(v) => stream_chunks(c.view(), stream_index as int, pattern@, bitrate as int) == Ok::<
                Seq<MediaSegmentView>,
                ErrorView,
            >(v.deep_view()),
            Err(e) => stream_chunks(c.view(), stream_index as int, pattern@, bitrate as int)
                == Err::<Seq<MediaSegmentView>, ErrorView>(e.deep_view()),
        },
{
    let doc: &Vec<XmlNode> = c.doc;
    let ghost view = doc.deep_view();
    let combined: String = combine_url(c.base, pattern);
    let total: i64 = c.duration;
    let mut run: ChunkRun = ChunkRun {
        combined: combined.as_str(),
        bitrate,
        timescale: c.timescale,
        time: 0,
        index: 0,
        segments: Vec::new(),
    };
    let ghost rule = run.rule();
    let nodes: Vec<usize> = children_of(doc, stream_index, "c");
    let ghost ints = children(view, stream_index as int, "c"@);
    assert(ints.len() == nodes@.len());
    assert(run.segments.deep_view() =~= Seq::<MediaSegmentView>::empty());
    let mut i: usize = 0;
    while i < nodes.len()
        invariant
            i <= nodes@.len(),
            view == doc.deep_view(),
            view == c.view().doc,
            total == c.duration,
            rule == run.rule(),
            rule == (ChunkRule {
                combined: combined_url(c.view().base, pattern@),
                bitrate: bitrate as int,
                timescale: c.timescale,
            }),
            ints == children(view, stream_index as int, "c"@),
            ints == nodes@.map_values(|k: usize| k as int),
            forall|k: int| 0 <= k < nodes@.len() ==> #[trigger] nodes@[k] < doc@.len(),
            chunk_states(rule, view, ints, i as int, total) == Ok::<ChunkState, ErrorView>(
                run.state(),
            ),
        decreases nodes@.len() - i,
    {
        assert(ints[i as int] == nodes@[i as int]);
        match run.chunk(doc, nodes[i], total) {
            Ok(_) => {},
            Err(e) => {
                proof {
                    lemma_chunk_states_stop(rule, view, ints, i + 1, total);
                }
                return Err(e);
            },
        }
        i = i + 1;
    }
    Ok(run.segments)
}

/// The numbers that a quality level states.
pub struct LevelNumbers {
    pub bitrate: int,
    pub width: int,
    pub height: int,
    pub sampling_rate: int,
    pub channels: int,
    pub bits_per_sample: int,
    pub length_field: int,
}

/// The numbers that a quality level states, or the first that is none.
pub open spec fn level_numbers(doc: Seq<XmlNodeView>, q: int) -> core::result::Result<
    LevelNumbers,
    ErrorView,
> {
    let bitrate = int32_of(attr_of(doc, q, "Bitrate"@), "Smooth Streaming Bitrate"@, 0);
    let width = int32_of(attr_of(doc, q, "MaxWidth"@), "Smooth Streaming MaxWidth"@, 0);
    let height = int32_of(attr_of(doc, q, "MaxHeight"@), "Smooth Streaming MaxHeight"@, 0);
    let rate = int32_of(
        attr_of(doc, q, "SamplingRate"@),
        "Smooth Streaming SamplingRate"@,
        48_000,
    );
    let channels = int32_of(attr_of(doc, q, "Channels"@), "Smooth Streaming Channels"@, 2);
    let bits = int32_of(
        attr_of(doc, q, "BitsPerSample"@),
        "Smooth Streaming BitsPerSample"@,
        16,
    );
    let field = int32_of(
        attr_of(doc, q, "NALUnitLengthField"@),
        "Smooth Streaming NALUnitLengthField"@,
        4,
    );
    if bitrate is Err {
        Err(bitrate->Err_0)
    } else if width is Err {
        Err(width->Err_0)
    } else if height is Err {
        Err(height->Err_0)
    } else if rate is Err {
        Err(rate->Err_0)
    } else if channels is Err {
        Err(channels->Err_0)
    } else if bits is Err {
        Err(bits->Err_0)
    } else if field is Err {
        Err(field->Err_0)
    } else {
        Ok(
            LevelNumbers {
                bitrate: bitrate->Ok_0,
                width: width->Ok_0,
                height: height->Ok_0,
                sampling_rate: rate->Ok_0,
                channels: channels->Ok_0,
                bits_per_sample: bits->Ok_0,
                length_field: field->Ok_0,
            },
        )
    }
}

struct Level {
    bitrate: i32,
    width: i32,
    height: i32,
    sampling_rate: i32,
    channels: i32,
    bits_per_sample: i32,
    length_field: i32,
}

impl Level {
    spec fn view(&self) -> LevelNumbers {
        LevelNumbers {
            bitrate: self.bitrate as int,
            width: self.width as int,
            height: self.height as int,
            sampling_rate: self.sampling_rate as int,
            channels: self.channels as int,
            bits_per_sample: self.bits_per_sample as int,
            length_field: self.length_field as int,
        }
    }
}

fn parse_level(doc: &Vec<XmlNode>, q: usize) -> (r: Result<Level>)
    requires
        q < doc@.len(),
    ensures
        match r {
            Ok(l) => level_numbers(doc.deep_view(), q as int) == Ok::<LevelNumbers, ErrorView>(
                l.view(),
            ),
            Err(e) => level_numbers(doc.deep_view(), q as int) == Err::<LevelNumbers, ErrorView>(
                e.deep_view(),
            ),
        },
{
    let bitrate: i32 = parse_optional_i32(attr(doc, q, "Bitrate"), "Smooth Streaming Bitrate", 0)?;
    let width: i32 = parse_optional_i32(attr(doc, q, "MaxWidth"), "Smooth Streaming MaxWidth", 0)?;
    let height: i32 = parse_optional_i32(
        attr(doc, q, "MaxHeight"),
        "Smooth Streaming MaxHeight",
        0,
    )?;
    let sampling_rate: i32 = parse_optional_i32(
        attr(doc, q, "SamplingRate"),
        "Smooth Streaming SamplingRate",
        48_000,
    )?;
    let channels: i32 = parse_optional_i32(
        attr(doc, q, "Channels"),
        "Smooth Streaming Channels",
        2,
    )?;
    let bits_per_sample: i32 = parse_optional_i32(
        attr(doc, q, "BitsPerSample"),
        "Smooth Streaming BitsPerSample",
        16,
    )?;
    let length_field: i32 = parse_optional_i32(
        attr(doc, q, "NALUnitLengthField"),
        "Smooth Streaming NALUnitLengthField",
        4,
    )?;
    Ok(Level { bitrate, width, height, sampling_rate, channels, bits_per_sample, length_field })
}

/// A text, empty where there is none.
pub open spec fn or_empty(o: Option<Seq<char>>) -> Seq<char> {
    match o {
        Some(t) => t,
        None => ""@,
    }
}

/// A language of three bytes.
pub open spec fn short_language(o: Option<Seq<char>>) -> Option<Seq<char>> {
    match o {
        Some(t) => if encode_utf8(t).len() == 3 {
            Some(t)
        } else {
            None
        },
        None => None,
    }
}

/// A stream as its quality level describes it, before its initialization segment is made.
pub open spec fn bare_stream(
    c: MssContextView,
    stream_index: int,
    q: int,
    four_cc: Seq<char>,
    n: LevelNumbers,
    segments: Seq<MediaSegmentView>,
) -> StreamView {
    let doc = c.doc;
    let private = or_empty(attr_of(doc, q, "CodecPrivateData"@));
    let stream_type = or_empty(attr_of(doc, stream_index, "Type"@));
    StreamView {
        id: match attr_of(doc, q, "Index"@) {
            Some(i) => i,
            None => four_cc + ":"@ + dec_int(n.bitrate),
        },
        media_type: media_type_of(stream_type),
        group_id: either(attr_of(doc, stream_index, "Name"@), attr_of(doc, q, "Index"@)),
        language: short_language(attr_of(doc, stream_index, "Language"@)),
        bandwidth: Some(n.bitrate as i64),
        codecs: codecs_of(four_cc, private),
        resolution: if n.width == 0 {
            None
        } else {
            Some(dec_int(n.width) + "x"@ + dec_int(n.height))
        },
        channels: attr_of(doc, q, "Channels"@),
        extension: Some("m4s"@),
        publish_time: Some(c.published),
        period_id: attr_of(doc, q, "Index"@),
        url: c.url,
        original_url: c.original_url,
        playlist: Some(
            PlaylistView {
                url: c.url,
                is_live: c.is_live,
                media_init: Some(
                    MediaSegmentView {
                        index: -1i64,
                        url: if private.len() == 0 {
                            Seq::empty()
                        } else {
                            "hex://"@ + private
                        },
                        ..blank_segment()
                    },
                ),
                media_parts: seq![segments],
                ..blank_playlist()
            },
        ),
        mss_data: Some(
            MssDataView {
                four_cc,
                codec_private_data: private,
                stream_type,
                timescale: c.timescale,
                sampling_rate: n.sampling_rate as i32,
                channels: n.channels as i32,
                bits_per_sample: n.bits_per_sample as i32,
                nal_unit_length_field: n.length_field as i32,
                duration: c.duration,
                is_protection: c.protection is Some,
                protection_system_id: match c.protection {
                    Some(p) => p.system_id,
                    None => Seq::empty(),
                },
                protection_data: match c.protection {
                    Some(p) => p.data_hex,
                    None => Seq::empty(),
                },
            },
        ),
        ..blank_stream()
    }
}

fn build_stream(
    c: &MssContext,
    stream_index: usize,
    q: usize,
    four_cc: &str,
    n: &Level,
    segments: Vec<MediaSegment>,
) -> (r: Stream)
    requires
        stream_index < c.doc@.len(),
        q < c.doc@.len(),
    ensures
        r.deep_view() == bare_stream(
            c.view(),
            stream_index as int,
            q as int,
            four_cc@,
            n.view(),
            segments.deep_view(),
        ),
{
    let doc: &Vec<XmlNode> = c.doc;
    let private: &str = match attr(doc, q, "CodecPrivateData") {
        Some(t) => t,
        None => "",
    };
    let stream_type: &str = match attr(doc, stream_index, "Type") {
        Some(t) => t,
        None => "",
    };
    let mut init: MediaSegment = MediaSegment::default();
    init.index = -1;
    if private.unicode_len() > 0 {
        init.url = cat2("hex://", private);
    }
    let part: MediaPart = MediaPart { media_segments: segments };
    let ghost part_view = part.deep_view();
    let mut parts: Vec<MediaPart> = Vec::new();
    parts.push(part);
    assert(parts.deep_view() =~= seq![part_view]);
    let mut playlist: Playlist = Playlist::default();
    playlist.url = owned(c.url);
    playlist.is_live = c.is_live;
    playlist.media_init = Some(init);
    playlist.media_parts = parts;
    let mut stream: Stream = Stream::default();
    let rate_text: String = i64_text(n.bitrate as i64);
    stream.id = match attr(doc, q, "Index") {
        Some(i) => owned(i),
        None => cat3(four_cc, ":", rate_text.as_str()),
    };
    stream.media_type = media_type(stream_type);
    stream.group_id = own_opt(
        either_text(attr(doc, stream_index, "Name"), attr(doc, q, "Index")),
    );
    stream.language = match attr(doc, stream_index, "Language") {
        Some(t) => if t.as_bytes().len() == 3 {
            Some(owned(t))
        } else {
            None
        },
        None => None,
    };
    stream.bandwidth = Some(n.bitrate as i64);
    stream.codecs = parse_codecs(four_cc, private);
    if n.width != 0 {
        let width: String = i64_text(n.width as i64);
        let height: String = i64_text(n.height as i64);
        stream.resolution = Some(cat3(width.as_str(), "x", height.as_str()));
    }
    stream.channels = own_opt(attr(doc, q, "Channels"));
    stream.extension = Some(owned("m4s"));
    stream.publish_time = Some(owned(c.published));
    stream.period_id = own_opt(attr(doc, q, "Index"));
    stream.url = owned(c.url);
    stream.original_url = owned(c.original_url);
    stream.playlist = Some(playlist);
    let (system_id, data_hex, is_protection): (String, String, bool) = match &c.protection {
        Some(p) => (p.system_id.clone(), p.data_hex.clone(), true),
        None => (String::new(), String::new(), false),
    };
    stream.mss_data = Some(
        MssData {
            four_cc: owned(four_cc),
            codec_private_data: owned(private),
            stream_type: owned(stream_type),
            timescale: c.timescale,
            sampling_rate: n.sampling_rate,
            channels: n.channels,
            bits_per_sample: n.bits_per_sample,
            nal_unit_length_field: n.length_field,
            duration: c.duration,
            is_protection,
            protection_system_id: system_id,
            protection_data: data_hex,
        },
    );
    stream
}

/// The encryption that the protection of a manifest stands for.
pub open spec fn mss_encryption(data: Seq<u8>) -> EncryptionInfoView {
    EncryptionInfoView {
        method: EncryptionMethod::Cenc,
        protection_data: Some(data),
        scheme: Some("cenc"@),
        source: KeySource::Inline,
        ..no_encryption()
    }
}

/// A stream with its initialization segment, which holds the bytes themselves.
pub open spec fn with_init(stream: StreamView, bytes: Seq<u8>, codecs: Option<Seq<char>>) -> StreamView {
    StreamView {
        codecs: either(codecs, stream.codecs),
        playlist: match stream.playlist {
            Some(p) => Some(
                PlaylistView {
                    media_init: match p.media_init {
                        Some(init) => Some(
                            MediaSegmentView {
                                url: "base64://"@ + base64_text(bytes),
                                ..init
                            },
                        ),
                        None => None,
                    },
                    ..p
                },
            ),
            None => None,
        },
        ..stream
    }
}

/// A stream under the protection of its manifest.
pub open spec fn with_protection(
    stream: StreamView,
    stream_type: Seq<char>,
    protection: Option<MssProtectionView>,
) -> core::result::Result<StreamView, ErrorView> {
    match protection {
        Some(p) => if stream_type != "text"@ {
            match config_hex(p.data_hex) {
                Err(e) => Err(e),
                Ok(data) => Ok(protected_stream(stream, mss_encryption(data))),
            }
        } else {
            Ok(stream)
        },
        None => Ok(stream),
    }
}

/// What became of a quality level.
pub enum LevelOutcome {
    Skipped(Seq<char>),
    Made(StreamView),
}

/// What becomes of a quality level: one of an unknown format is skipped with a warning.
#[verifier::opaque]
pub open spec fn level_outcome(c: MssContextView, stream_index: int, q: int) -> core::result::Result<
    LevelOutcome,
    ErrorView,
> {
    match attr_of(c.doc, q, "FourCC"@) {
        None => Err(ErrorView::Protocol("Smooth Streaming QualityLevel requires FourCC"@)),
        Some(stated) => {
            let four_cc = upper(stated);
            if !is_handled(four_cc) {
                Ok(LevelOutcome::Skipped(four_cc + " not supported! Skiped."@))
            } else {
                match either(attr_of(c.doc, q, "Url"@), attr_of(c.doc, stream_index, "Url"@)) {
                    None => Err(ErrorView::Protocol("Smooth Streaming stream requires Url"@)),
                    Some(pattern) => level_stream(c, stream_index, q, four_cc, pattern),
                }
            }
        },
    }
}

/// The stream of a quality level of a known format.
pub open spec fn level_stream(
    c: MssContextView,
    stream_index: int,
    q: int,
    four_cc: Seq<char>,
    pattern: Seq<char>,
) -> core::result::Result<LevelOutcome, ErrorView> {
    match level_numbers(c.doc, q) {
        Err(e) => Err(e),
        Ok(n) => match stream_chunks(c, stream_index, normal_pattern(pattern), n.bitrate) {
            Err(e) => Err(e),
            Ok(segments) => {
                let bare = bare_stream(c, stream_index, q, four_cc, n, segments);
                match generated_init(bare, 2, c.created) {
                    Err(e) => Err(e),
                    Ok(made) => match with_protection(
                        with_init(bare, made.bytes, made.codecs),
                        or_empty(attr_of(c.doc, stream_index, "Type"@)),
                        c.protection,
                    ) {
                        Err(e) => Err(e),
                        Ok(stream) => Ok(LevelOutcome::Made(stream)),
                    },
                }
            },
        },
    }
}

fn give_init(stream: Stream, made: MssGeneratedInit) -> (r: Stream)
    ensures
        r.deep_view() == with_init(
            stream.deep_view(),
            made.bytes@,
            made.codecs.deep_view(),
        ),
{
    let mut stream: Stream = stream;
    if made.codecs.is_some() {
        stream.codecs = made.codecs;
    }
    let encoded: String = base64_encode(&made.bytes);
    let mut taken: Option<Playlist> = None;
    core::mem::swap(&mut stream.playlist, &mut taken);
    match taken {
        None => {},
        Some(p) => {
            let mut p: Playlist = p;
            let mut init: Option<MediaSegment> = None;
            core::mem::swap(&mut p.media_init, &mut init);
            match init {
                None => {},
                Some(s) => {
                    let mut s: MediaSegment = s;
                    s.url = cat2("base64://", encoded.as_str());
                    p.media_init = Some(s);
                },
            }
            stream.playlist = Some(p);
        },
    }
    stream
}

fn apply_protection(stream: Stream, stream_type: &str, protection: &Option<MssProtection>) -> (r:
    Result<Stream>)
    ensures
        match r {
            Ok(s) => with_protection(
                stream.deep_view(),
                stream_type@,
                view_protection(*protection),
            ) == Ok::<StreamView, ErrorView>(s.deep_view()),
            Err(e) => with_protection(
                stream.deep_view(),
                stream_type@,
                view_protection(*protection),
            ) == Err::<StreamView, ErrorView>(e.deep_view()),
        },
{
    match protection {
        Some(p) => {
            if same(stream_type, "text") {
                return Ok(stream);
            }
            let data: Vec<u8> = hex_to_bytes(p.data_hex.as_str())?;
            let mut e: EncryptionInfo = EncryptionInfo::default();
            let ghost bytes = data@;
            e.method = EncryptionMethod::Cenc;
            e.protection_data = Some(data);
            e.scheme = Some(owned("cenc"));
            e.source = KeySource::Inline;
            assert(e.deep_view() == mss_encryption(bytes));
            Ok(protect_stream(stream, &e))
        },
        None => Ok(stream),
    }
}

enum LevelResult {
    Skipped(String),
    Made(Stream),
}

impl LevelResult {
    spec fn view(&self) -> LevelOutcome {
        match self {
            LevelResult::Skipped(w) => LevelOutcome::Skipped(w@),
            LevelResult::Made(s) => LevelOutcome::Made(s.deep_view()),
        }
    }
}

spec fn view_level(r: Result<LevelResult>) -> core::result::Result<LevelOutcome, ErrorView> {
    match r {
        Ok(l) => Ok(l.view()),
        Err(e) => Err(e.deep_view()),
    }
}

fn make_level(c: &MssContext, stream_index: usize, q: usize, four_cc: &str, pattern: &str) -> (r:
    Result<LevelResult>)
    requires
        stream_index < c.doc@.len(),
        q < c.doc@.len(),
    ensures
        view_level(r) == level_stream(
            c.view(),
            stream_index as int,
            q as int,
            four_cc@,
            pattern@,
        ),
{
    let normal: String = normalize_url_pattern(pattern);
    let n: Level = parse_level(c.doc, q)?;
    let segments: Vec<MediaSegment> = expand_chunks(
        c,
        stream_index,
        normal.as_str(),
        n.bitrate as i64,
    )?;
    let bare: Stream = build_stream(c, stream_index, q, four_cc, &n, segments);
    let made: MssGeneratedInit = MssInitGenerator::generate(&bare, c.created)?;
    let stream: Stream = give_init(bare, made);
    let stream_type: &str = match attr(c.doc, stream_index, "Type") {
        Some(t) => t,
        None => "",
    };
    let done: Stream = apply_protection(stream, stream_type, &c.protection)?;
    Ok(LevelResult::Made(done))
}

fn parse_quality(c: &MssContext, stream_index: usize, q: usize) -> (r: Result<LevelResult>)
    requires
        stream_index < c.doc@.len(),
        q < c.doc@.len(),
    ensures
        view_level(r) == level_outcome(c.view(), stream_index as int, q as int),
{
    proof {
        reveal(level_outcome);
    }
    let four_cc: String = match attr(c.doc, q, "FourCC") {
        None => {
            return Err(Error::protocol("Smooth Streaming QualityLevel requires FourCC"));
        },
        Some(t) => uppered(t),
    };
    if !MssInitGenerator::can_handle(four_cc.as_str()) {
        return Ok(LevelResult::Skipped(cat2(four_cc.as_str(), " not supported! Skiped.")));
    }
    match either_text(attr(c.doc, q, "Url"), attr(c.doc, stream_index, "Url")) {
        None => Err(Error::protocol("Smooth Streaming stream requires Url")),
        Some(pattern) => make_level(c, stream_index, q, four_cc.as_str(), pattern),
    }
}

/// The streams and warnings found so far.
pub struct FoundView {
    pub streams: Seq<StreamView>,
    pub warnings: Seq<Seq<char>>,
}

/// What was found after one more quality level.
pub open spec fn found_more(found: FoundView, outcome: LevelOutcome) -> FoundView {
    match outcome {
        LevelOutcome::Skipped(warning) => FoundView {
            warnings: found.warnings.push(warning),
            ..found
        },
        LevelOutcome::Made(stream) => FoundView { streams: found.streams.push(stream), ..found },
    }
}

/// What was found after the first `n` quality levels of a stream.
pub open spec fn after_levels(
    c: MssContextView,
    found: FoundView,
    stream_index: int,
    levels: Seq<int>,
    n: int,
) -> core::result::Result<FoundView, ErrorView>
    decreases n,
{
    if n <= 0 {
        Ok(found)
    } else {
        match after_levels(c, found, stream_index, levels, n - 1) {
            Err(e) => Err(e),
            Ok(before) => match level_outcome(c, stream_index, levels[n - 1]) {
                Err(e) => Err(e),
                Ok(outcome) => Ok(found_more(before, outcome)),
            },
        }
    }
}

/// What was found after the first `n` streams.
pub open spec fn after_indexes(c: MssContextView, indexes: Seq<int>, n: int) -> core::result::Result<
    FoundView,
    ErrorView,
>
    decreases n,
{
    if n <= 0 {
        Ok(FoundView { streams: Seq::empty(), warnings: Seq::empty() })
    } else {
        match after_indexes(c, indexes, n - 1) {
            Err(e) => Err(e),
            Ok(before) => {
                let levels = children(c.doc, indexes[n - 1], "QualityLevel"@);
                after_levels(c, before, indexes[n - 1], levels, levels.len() as int)
            },
        }
    }
}

proof fn lemma_levels_stop(
    c: MssContextView,
    found: FoundView,
    stream_index: int,
    levels: Seq<int>,
    n: int,
)
    requires
        0 <= n <= levels.len(),
        after_levels(c, found, stream_index, levels, n) is Err,
    ensures
        after_levels(c, found, stream_index, levels, levels.len() as int) == after_levels(
            c,
            found,
            stream_index,
            levels,
            n,
        ),
    decreases levels.len() - n,
{
    if n < levels.len() {
        lemma_levels_stop(c, found, stream_index, levels, n + 1);
    }
}

proof fn lemma_indexes_stop(c: MssContextView, indexes: Seq<int>, n: int)
    requires
        0 <= n <= indexes.len(),
        after_indexes(c, indexes, n) is Err,
    ensures
        after_indexes(c, indexes, indexes.len() as int) == after_indexes(c, indexes, n),
    decreases indexes.len() - n,
{
    if n < indexes.len() {
        lemma_indexes_stop(c, indexes, n + 1);
    }
}

struct Found {
    streams: Vec<Stream>,
    warnings: Vec<String>,
}

impl Found {
    spec fn view(&self) -> FoundView {
        FoundView { streams: self.streams.deep_view(), warnings: self.warnings.deep_view() }
    }

    fn take(&mut self, level: LevelResult)
        ensures
            final(self).view() == found_more(old(self).view(), level.view()),
    {
        let ghost before = self.view();
        match level {
            LevelResult::Skipped(warning) => {
                let ghost item = warning@;
                self.warnings.push(warning);
                assert(self.warnings.deep_view() =~= before.warnings.push(item));
            },
            LevelResult::Made(stream) => {
                let ghost item = stream.deep_view();
                self.streams.push(stream);
                assert(self.streams.deep_view() =~= before.streams.push(item));
            },
        }
    }
}

fn parse_stream_index(c: &MssContext, stream_index: usize, found: &mut Found) -> (r: Result<()>)
    requires
        stream_index < c.doc@.len(),
    ensures
        ({
            let levels = children(c.view().doc, stream_index as int, "QualityLevel"@);
            match r {
                Ok(_) => after_levels(
                    c.view(),
                    old(found).view(),
                    stream_index as int,
                    levels,
                    levels.len() as int,
                ) == Ok::<FoundView, ErrorView>(final(found).view()),
                Err(e) => after_levels(
                    c.view(),
                    old(found).view(),
                    stream_index as int,
                    levels,
                    levels.len() as int,
                ) == Err::<FoundView, ErrorView>(e.deep_view()),
            }
        }),
{
    let doc: &Vec<XmlNode> = c.doc;
    let ghost cv = c.view();
    let ghost start = found.view();
    let levels: Vec<usize> = children_of(doc, stream_index, "QualityLevel");
    let ghost ints = children(cv.doc, stream_index as int, "QualityLevel"@);
    assert(ints.len() == levels@.len());
    let mut i: usize = 0;
    while i < levels.len()
        invariant
            i <= levels@.len(),
            doc == c.doc,
            cv == c.view(),
            start == old(found).view(),
            stream_index < doc@.len(),
            ints == children(cv.doc, stream_index as int, "QualityLevel"@),
            ints == levels@.map_values(|k: usize| k as int),
            forall|k: int| 0 <= k < levels@.len() ==> #[trigger] levels@[k] < doc@.len(),
            after_levels(cv, start, stream_index as int, ints, i as int) == Ok::<
                FoundView,
                ErrorView,
            >(found.view()),
        decreases levels@.len() - i,
    {
        assert(ints[i as int] == levels@[i as int]);
        match parse_quality(c, stream_index, levels[i]) {
            Ok(level) => {
                found.take(level);
            },
            Err(e) => {
                proof {
                    lemma_levels_stop(cv, start, stream_index as int, ints, i + 1);
                }
                return Err(e);
            },
        }
        i = i + 1;
    }
    Ok(())
}

fn parse_indexes(c: &MssContext, root: usize) -> (r: Result<Found>)
    ensures
        ({
            let indexes = children(c.view().doc, root as int, "StreamIndex"@);
            match r {
                Ok(f) => after_indexes(c.view(), indexes, indexes.len() as int) == Ok::<
                    FoundView,
                    ErrorView,
                >(f.view()),
                Err(e) => after_indexes(c.view(), indexes, indexes.len() as int) == Err::<
                    FoundView,
                    ErrorView,
                >(e.deep_view()),
            }
        }),
{
    let doc: &Vec<XmlNode> = c.doc;
    let ghost cv = c.view();
    let indexes: Vec<usize> = children_of(doc, root, "StreamIndex");
    let ghost ints = children(cv.doc, root as int, "StreamIndex"@);
    assert(ints.len() == indexes@.len());
    let mut found: Found = Found { streams: Vec::new(), warnings: Vec::new() };
    assert(found.streams.deep_view() =~= Seq::<StreamView>::empty());
    assert(found.warnings.deep_view() =~= Seq::<Seq<char>>::empty());
    let mut i: usize = 0;
    while i < indexes.len()
        invariant
            i <= indexes@.len(),
            doc == c.doc,
            cv == c.view(),
            ints == children(cv.doc, root as int, "StreamIndex"@),
            ints == indexes@.map_values(|k: usize| k as int),
            forall|k: int| 0 <= k < indexes@.len() ==> #[trigger] indexes@[k] < doc@.len(),
            after_indexes(cv, ints, i as int) == Ok::<FoundView, ErrorView>(found.view()),
        decreases indexes@.len() - i,
    {
        assert(ints[i as int] == indexes@[i as int]);
        match parse_stream_index(c, indexes[i], &mut found) {
            Ok(_) => {},
            Err(e) => {
                proof {
                    lemma_indexes_stop(cv, ints, i + 1);
                }
                return Err(e);
            },
        }
        i = i + 1;
    }
    Ok(found)
}

/// The group of the first stream of a kind, from position `i` on.
pub open spec fn first_group(streams: Seq<StreamView>, kind: MediaType, i: int) -> Option<Seq<char>>
    decreases streams.len() - i,
{
    if i < 0 || i >= streams.len() {
        None
    } else if streams[i].media_type == Some(kind) {
        streams[i].group_id
    } else {
        first_group(streams, kind, i + 1)
    }
}

fn find_group(streams: &Vec<Stream>, kind: MediaType) -> (r: Option<String>)
    ensures
        r.deep_view() == first_group(streams.deep_view(), kind, 0),
{
    let ghost all = streams.deep_view();
    let mut i: usize = 0;
    while i < streams.len()
        invariant
            i <= streams@.len(),
            all == streams.deep_view(),
            first_group(all, kind, 0) == first_group(all, kind, i as int),
        decreases streams@.len() - i,
    {
        assert(all[i as int] == streams@[i as int].deep_view());
        let hit: bool = match streams[i].media_type {
            Some(t) => t == kind,
            None => false,
        };
        if hit {
            return copy_opt(&streams[i].group_id);
        }
        i = i + 1;
    }
    None
}

/// The manifest that a document holds, published at a given local time and made at a given second.
#[verifier::opaque]
pub open spec fn mss_document(
    doc: Seq<XmlNodeView>,
    url: Seq<char>,
    config: ParserConfigView,
    published: Seq<char>,
    created: u64,
) -> core::result::Result<MssManifestView, ErrorView> {
    match element_from(doc, "SmoothStreamingMedia"@, 0) {
        None => Err(ErrorView::Protocol("SmoothStreamingMedia element not found"@)),
        Some(root) => match (
            int32_of(
                attr_of(doc, root, "TimeScale"@),
                "Smooth Streaming TimeScale"@,
                10_000_000,
            ),
            int64_of(attr_of(doc, root, "Duration"@), "Smooth Streaming Duration"@, 0),
            live_flag(attr_of(doc, root, "IsLive"@)),
            stated_protection(doc, root),
        ) {
            (Err(e), _, _, _) => Err(e),
            (_, Err(e), _, _) => Err(e),
            (_, _, Err(e), _) => Err(e),
            (_, _, _, Err(e)) => Err(e),
            (Ok(timescale), Ok(duration), Ok(is_live), Ok(protection)) => {
                let c = MssContextView {
                    doc,
                    url,
                    base: if config.base_url.len() == 0 {
                        url
                    } else {
                        config.base_url
                    },
                    original_url: config.original_url,
                    timescale: timescale as i32,
                    duration: duration as i64,
                    is_live,
                    protection,
                    published,
                    created,
                };
                let indexes = children(doc, root, "StreamIndex"@);
                match after_indexes(c, indexes, indexes.len() as int) {
                    Err(e) => Err(e),
                    Ok(found) => Ok(
                        MssManifestView {
                            streams: given_tracks(
                                found.streams,
                                first_group(found.streams, MediaType::Audio, 0),
                                first_group(found.streams, MediaType::Subtitles, 0),
                            ),
                            warnings: found.warnings,
                            timescale: c.timescale,
                            duration: c.duration,
                            is_live,
                        },
                    ),
                }
            },
        },
    }
}

/// The manifest that a document holds, published at a given local time and made at a given second
/// of Unix time.
pub fn parse_mss_document(
    doc: &Vec<XmlNode>,
    url: &str,
    config: &ParserConfig,
    published: &str,
    created: u64,
) -> (r: Result<MssManifest>)
    ensures
        view_manifest(r) == mss_document(
            doc.deep_view(),
            url@,
            config.deep_view(),
            published@,
            created,
        ),
{
    proof {
        reveal(mss_document);
    }
    let root: usize = match find_element(doc, "SmoothStreamingMedia") {
        Some(i) => i,
        None => {
            return Err(Error::protocol("SmoothStreamingMedia element not found"));
        },
    };
    let timescale: i32 = parse_optional_i32(
        attr(doc, root, "TimeScale"),
        "Smooth Streaming TimeScale",
        10_000_000,
    )?;
    let duration: i64 = parse_optional_i64(
        attr(doc, root, "Duration"),
        "Smooth Streaming Duration",
        0,
    )?;
    let is_live: bool = parse_live(attr(doc, root, "IsLive"))?;
    let protection: Option<MssProtection> = parse_protection(doc, root)?;
    let c: MssContext = MssContext {
        doc,
        url,
        base: if config.base_url.as_str().unicode_len() == 0 {
            url
        } else {
            config.base_url.as_str()
        },
        original_url: config.original_url.as_str(),
        timescale,
        duration,
        is_live,
        protection,
        published,
        created,
    };
    let found: Found = parse_indexes(&c, root)?;
    let mut streams: Vec<Stream> = found.streams;
    let audio: Option<String> = find_group(&streams, MediaType::Audio);
    let subtitle: Option<String> = find_group(&streams, MediaType::Subtitles);
    give_tracks(&mut streams, &audio, &subtitle);
    Ok(MssManifest { streams, warnings: found.warnings, timescale, duration, is_live })
}

/// The manifest that a text holds, published at a given local time and made at a given second.
pub open spec fn mss_manifest(
    raw: Seq<char>,
    url: Seq<char>,
    config: ParserConfigView,
    published: Seq<char>,
    created: u64,
) -> core::result::Result<MssManifestView, ErrorView> {
    if !contains(raw, "<SmoothStreamingMedia"@) {
        Err(
            ErrorView::Protocol("Smooth Streaming input must contain SmoothStreamingMedia"@),
        )
    } else {
        match xml_rows(raw) {
            Ok(rows) => mss_document(nodes_of(rows), url, config, published, created),
            Err(e) => Err(ErrorView::Protocol(e)),
        }
    }
}

/// The second of Unix time in a number of milliseconds; the first where the clock stands before it.
pub open spec fn unix_second(millis: int) -> u64 {
    if millis < 0 {
        0
    } else {
        (millis / 1000) as u64
    }
}

/// Reads Smooth Streaming manifests.
#[derive(Clone, Copy, Debug)]
pub struct MssParser;

impl MssParser {
    pub fn new() -> Self {
        MssParser
    }

    /// The manifest that a text holds, published now.
    pub fn parse(&self, raw_text: &str, url: &str, config: &ParserConfig) -> (r: Result<MssManifest>)
        ensures
            exists|now: LocalTime, millis: i64|
                #![trigger call_ensures(current_local_time, (), now), call_ensures(current_millis, (), millis)]
                call_ensures(current_local_time, (), now) && call_ensures(current_millis, (), millis)
                    && view_manifest(r) == mss_manifest(
                    raw_text@,
                    url@,
                    config.deep_view(),
                    second_text(now),
                    unix_second(millis as int),
                ),
    {
        let now: LocalTime = current_local_time();
        let published: String = publish_time_text(&now);
        let millis: i64 = current_millis();
        let created: u64 = if millis < 0 {
            0
        } else {
            (millis / 1000) as u64
        };
        let r: Result<MssManifest> = self.parse_at(
            raw_text,
            url,
            config,
            published.as_str(),
            created,
        );
        assert(view_manifest(r) == mss_manifest(
            raw_text@,
            url@,
            config.deep_view(),
            second_text(now),
            unix_second(millis as int),
        ));
        r
    }

    /// The manifest that a text holds, published at a given local time and made at a given second
    /// of Unix time.
    pub fn parse_at(
        &self,
        raw_text: &str,
        url: &str,
        config: &ParserConfig,
        published: &str,
        created: u64,
    ) -> (r: Result<MssManifest>)
        ensures
            view_manifest(r) == mss_manifest(
                raw_text@,
                url@,
                config.deep_view(),
                published@,
                created,
            ),
    {
        if !has_text(raw_text, "<SmoothStreamingMedia") {
            return Err(
                Error::protocol("Smooth Streaming input must contain SmoothStreamingMedia"),
            );
        }
        match parse_xml(raw_text) {
            Err(e) => Err(Error::protocol(e.as_str())),
            Ok(doc) => {
                proof {
                    lemma_nodes_of_rows(doc.deep_view());
                }
                parse_mss_document(&doc, url, config, published, created)
            },
        }
    }

    /// The streams with the segments that a newer manifest gives them.
    pub fn refresh_streams(
        &self,
        streams: &Vec<Stream>,
        raw_text: &str,
        url: &str,
        config: &ParserConfig,
        now_ms: i64,
        diagnostics: &mut ParserDiagnostics,
    ) -> (r: Result<Vec<Stream>>)
        ensures
            exists|now: LocalTime, millis: i64|
                #![trigger call_ensures(current_local_time, (), now), call_ensures(current_millis, (), millis)]
                call_ensures(current_local_time, (), now) && call_ensures(current_millis, (), millis)
                    && match mss_manifest(
                    raw_text@,
                    url@,
                    config.deep_view(),
                    second_text(now),
                    unix_second(millis as int),
                ) {
                    Err(e) => r is Err && r->Err_0.deep_view() == e
                        && final(diagnostics).deep_view() == old(diagnostics).deep_view(),
                    Ok(m) => {
                        let (done, notes) = refreshed_streams(
                            ExtractorType::Mss,
                            streams.deep_view(),
                            m.streams,
                            config.deep_view(),
                            now_ms as int,
                        );
                        view_result(r) == done
                            && final(diagnostics).deep_view() == old(diagnostics).deep_view() + notes
                    },
                },
    {
        let fresh: MssManifest = self.parse(raw_text, url, config)?;
        refresh_from(ExtractorType::Mss, streams, &fresh.streams, config, now_ms, diagnostics)
    }

    /// The streams with the URLs of their segments processed.
    pub fn process_stream_urls(
        &self,
        streams: &Vec<Stream>,
        config: &ParserConfig,
        now_ms: i64,
        diagnostics: &mut ParserDiagnostics,
    ) -> (r: Result<Vec<Stream>>)
        ensures
            ({
                let (done, notes) = processed_streams(
                    ExtractorType::Mss,
                    streams.deep_view(),
                    streams@.len() as int,
                    config.deep_view(),
                    now_ms as int,
                );
                view_result(r) == done && final(diagnostics).deep_view() == old(
                    diagnostics,
                ).deep_view() + notes
            }),
    {
        process_urls(ExtractorType::Mss, streams, config, now_ms, diagnostics)
    }
}

} // verus!
