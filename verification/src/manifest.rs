//! Streams, playlists and segments, whatever manifest they came from.

use crate::text::{
    lower, lower_char, lowered, lowered_char, parse_i32_text, parse_within, same, split, split_text,
    trim, trimmed,
};
use vstd::prelude::*;

verus! {

/// Kind of media a stream carries.
#[derive(Clone, Copy, Debug, PartialEq, Eq, PartialOrd, Ord, Structural)]
pub enum MediaType {
    Audio,
    Video,
    Subtitles,
    ClosedCaptions,
}

/// Format of the manifest that a stream came from.
#[derive(Clone, Copy, Debug, PartialEq, Eq, Structural)]
pub enum ExtractorType {
    MpegDash,
    Hls,
    HttpLive,
    Mss,
}

/// A yes or no attribute.
#[derive(Clone, Copy, Debug, PartialEq, Eq, Structural)]
pub enum Choice {
    No,
    Yes,
}

/// Role of a stream.
#[derive(Clone, Copy, Debug, PartialEq, Eq, Structural)]
pub enum RoleType {
    Subtitle,
    Main,
    Alternate,
    Supplementary,
    Commentary,
    Dub,
    Description,
    Sign,
    Metadata,
    ForcedSubtitle,
    Numeric(i32),
}

/// The role with a given number.
pub open spec fn role_of_number(value: i32) -> RoleType {
    if value == 0 {
        RoleType::Subtitle
    } else if value == 1 {
        RoleType::Main
    } else if value == 2 {
        RoleType::Alternate
    } else if value == 3 {
        RoleType::Supplementary
    } else if value == 4 {
        RoleType::Commentary
    } else if value == 5 {
        RoleType::Dub
    } else if value == 6 {
        RoleType::Description
    } else if value == 7 {
        RoleType::Sign
    } else if value == 8 {
        RoleType::Metadata
    } else if value == 9 {
        RoleType::ForcedSubtitle
    } else {
        RoleType::Numeric(value)
    }
}

/// The role with a given name, in any ASCII case.
pub open spec fn role_of_name(value: Seq<char>) -> Option<RoleType> {
    let name = lower(value);
    if name == "subtitle"@ {
        Some(RoleType::Subtitle)
    } else if name == "main"@ {
        Some(RoleType::Main)
    } else if name == "alternate"@ {
        Some(RoleType::Alternate)
    } else if name == "supplementary"@ {
        Some(RoleType::Supplementary)
    } else if name == "commentary"@ {
        Some(RoleType::Commentary)
    } else if name == "dub"@ {
        Some(RoleType::Dub)
    } else if name == "description"@ {
        Some(RoleType::Description)
    } else if name == "sign"@ {
        Some(RoleType::Sign)
    } else if name == "metadata"@ {
        Some(RoleType::Metadata)
    } else if name == "forcedsubtitle"@ {
        Some(RoleType::ForcedSubtitle)
    } else {
        None
    }
}

/// The role that a token names, by name or by number.
pub open spec fn role_of_token(value: Seq<char>) -> Option<RoleType> {
    let token = trim(value);
    match role_of_name(token) {
        Some(role) => Some(role),
        None => match parse_within(token, i32::MIN as int, i32::MAX as int) {
            Some(number) => Some(role_of_number(number as i32)),
            None => None,
        },
    }
}

impl RoleType {
    /// The role with a given number.
    pub fn from_number(value: i32) -> (r: Self)
        ensures
            r == role_of_number(value),
    {
        match value {
            0 => RoleType::Subtitle,
            1 => RoleType::Main,
            2 => RoleType::Alternate,
            3 => RoleType::Supplementary,
            4 => RoleType::Commentary,
            5 => RoleType::Dub,
            6 => RoleType::Description,
            7 => RoleType::Sign,
            8 => RoleType::Metadata,
            9 => RoleType::ForcedSubtitle,
            other => RoleType::Numeric(other),
        }
    }

    /// The role that a token names, by name or by number.
    pub fn parse_enum_token(value: &str) -> (r: Option<Self>)
        ensures
            r == role_of_token(value@),
    {
        let token: &str = trimmed(value);
        match parse_role_name(token) {
            Some(role) => Some(role),
            None => match parse_i32_text(token) {
                Some(number) => Some(RoleType::from_number(number)),
                None => None,
            },
        }
    }
}

fn parse_role_name(value: &str) -> (r: Option<RoleType>)
    ensures
        r == role_of_name(value@),
{
    let name_text: String = lowered(value);
    let name: &str = name_text.as_str();
    if same(name, "subtitle") {
        Some(RoleType::Subtitle)
    } else if same(name, "main") {
        Some(RoleType::Main)
    } else if same(name, "alternate") {
        Some(RoleType::Alternate)
    } else if same(name, "supplementary") {
        Some(RoleType::Supplementary)
    } else if same(name, "commentary") {
        Some(RoleType::Commentary)
    } else if same(name, "dub") {
        Some(RoleType::Dub)
    } else if same(name, "description") {
        Some(RoleType::Description)
    } else if same(name, "sign") {
        Some(RoleType::Sign)
    } else if same(name, "metadata") {
        Some(RoleType::Metadata)
    } else if same(name, "forcedsubtitle") {
        Some(RoleType::ForcedSubtitle)
    } else {
        None
    }
}

/// How a segment is encrypted.
#[derive(Clone, Copy, Debug, PartialEq, Eq, Structural)]
pub enum EncryptionMethod {
    Unencrypted,
    Aes128,
    Aes128Ecb,
    SampleAes,
    SampleAesCtr,
    Cenc,
    Chacha20,
    Unknown,
}

/// The characters that a method token may hold between its letters.
pub open spec fn is_token_separator(c: char) -> bool {
    c == '-' || c == '_' || c == ' '
}

/// Lower case of one character of a token, where that is an ASCII character: the capital letters
/// and the Kelvin sign have such a one.
pub open spec fn token_char(c: char) -> char {
    if c == '\u{212a}' {
        'k'
    } else {
        lower_char(c)
    }
}

/// A token without separators, in lower case as far as that is ASCII.
pub open spec fn normal_token(value: Seq<char>) -> Seq<char> {
    value.filter(|c: char| !is_token_separator(c)).map_values(|c: char| token_char(c))
}

/// The method that a token names.
pub open spec fn method_of_token(value: Option<Seq<char>>) -> EncryptionMethod {
    match value {
        None => EncryptionMethod::Unknown,
        Some(text) => {
            let token = normal_token(text);
            if token == "none"@ {
                EncryptionMethod::Unencrypted
            } else if token == "aes128"@ {
                EncryptionMethod::Aes128
            } else if token == "aes128ecb"@ {
                EncryptionMethod::Aes128Ecb
            } else if token == "sampleaes"@ {
                EncryptionMethod::SampleAes
            } else if token == "sampleaesctr"@ {
                EncryptionMethod::SampleAesCtr
            } else if token == "cenc"@ {
                EncryptionMethod::Cenc
            } else if token == "chacha20"@ {
                EncryptionMethod::Chacha20
            } else {
                EncryptionMethod::Unknown
            }
        },
    }
}

pub(crate) fn normalize_token(value: &str) -> (r: String)
    ensures
        r@ == normal_token(value@),
{
    let v: Vec<char> = crate::text::to_chars(value);
    let mut out: String = String::new();
    let mut i: usize = 0;
    let ghost keep = |c: char| !is_token_separator(c);
    let ghost small = |c: char| token_char(c);
    assert(v@.subrange(0, 0).filter(keep) =~= Seq::<char>::empty()) by {
        reveal(Seq::filter);
    }
    while i < v.len()
        invariant
            i <= v@.len(),
            keep == (|c: char| !is_token_separator(c)),
            small == (|c: char| token_char(c)),
            out@ =~= v@.subrange(0, i as int).filter(keep).map_values(small),
        decreases v@.len() - i,
    {
        let c: char = v[i];
        assert(v@.subrange(0, i + 1).drop_last() =~= v@.subrange(0, i as int));
        assert(v@.subrange(0, i + 1).filter(keep) == if keep(c) {
            v@.subrange(0, i as int).filter(keep).push(c)
        } else {
            v@.subrange(0, i as int).filter(keep)
        }) by {
            reveal(Seq::filter);
        }
        if c != '-' && c != '_' && c != ' ' {
            out.push(
                if c == '\u{212a}' {
                    'k'
                } else {
                    lowered_char(c)
                },
            );
        }
        i = i + 1;
    }
    assert(v@.subrange(0, v@.len() as int) =~= v@);
    out
}

impl EncryptionMethod {
    /// The method that a token names.
    pub fn parse(value: Option<&str>) -> (r: Self)
        ensures
            r == method_of_token(crate::text::opt(value)),
    {
        match value {
            None => EncryptionMethod::Unknown,
            Some(text) => {
                let token_text: String = normalize_token(text);
                let token: &str = token_text.as_str();
                if same(token, "none") {
                    EncryptionMethod::Unencrypted
                } else if same(token, "aes128") {
                    EncryptionMethod::Aes128
                } else if same(token, "aes128ecb") {
                    EncryptionMethod::Aes128Ecb
                } else if same(token, "sampleaes") {
                    EncryptionMethod::SampleAes
                } else if same(token, "sampleaesctr") {
                    EncryptionMethod::SampleAesCtr
                } else if same(token, "cenc") {
                    EncryptionMethod::Cenc
                } else if same(token, "chacha20") {
                    EncryptionMethod::Chacha20
                } else {
                    EncryptionMethod::Unknown
                }
            },
        }
    }
}

/// Where a key came from.
#[derive(Clone, Copy, Debug, PartialEq, Eq, Structural)]
pub enum KeySource {
    Absent,
    Inline,
    Uri,
    File,
    KeyTextFile,
    Custom,
}

/// Model of optional bytes.
pub open spec fn opt_bytes(o: Option<Vec<u8>>) -> Option<Seq<u8>> {
    match o {
        Some(v) => Some(v@),
        None => None,
    }
}

/// A copy of bytes.
pub fn copy_bytes(v: &Vec<u8>) -> (r: Vec<u8>)
    ensures
        r@ == v@,
{
    let mut out: Vec<u8> = Vec::new();
    let mut i: usize = 0;
    while i < v.len()
        invariant
            i <= v@.len(),
            out@ == v@.subrange(0, i as int),
        decreases v@.len() - i,
    {
        out.push(v[i]);
        i = i + 1;
        assert(v@.subrange(0, i as int) =~= v@.subrange(0, i - 1).push(v@[i - 1]));
    }
    assert(v@.subrange(0, v@.len() as int) =~= v@);
    out
}

/// A copy of optional bytes.
pub fn copy_opt_bytes(o: &Option<Vec<u8>>) -> (r: Option<Vec<u8>>)
    ensures
        opt_bytes(r) == opt_bytes(*o),
{
    match o {
        Some(v) => Some(copy_bytes(v)),
        None => None,
    }
}

pub fn copy_texts(v: &Vec<String>) -> (r: Vec<String>)
    ensures
        r.deep_view() == v.deep_view(),
{
    let mut out: Vec<String> = Vec::new();
    let mut i: usize = 0;
    while i < v.len()
        invariant
            i <= v@.len(),
            out.deep_view() =~= v.deep_view().subrange(0, i as int),
        decreases v@.len() - i,
    {
        let text: String = v[i].clone();
        let ghost before = out.deep_view();
        let ghost item = text@;
        out.push(text);
        assert(out.deep_view() =~= before.push(item));
        assert(v.deep_view()[i as int] == item);
        i = i + 1;
    }
    assert(v.deep_view().subrange(0, v@.len() as int) =~= v.deep_view());
    out
}

/// A copy of an optional text.
pub fn copy_opt(o: &Option<String>) -> (r: Option<String>)
    ensures
        r.deep_view() == o.deep_view(),
{
    match o {
        Some(s) => Some(s.clone()),
        None => None,
    }
}

/// Encryption of a segment.
#[derive(Debug, PartialEq, Eq)]
pub struct EncryptionInfo {
    pub method: EncryptionMethod,
    pub key: Option<Vec<u8>>,
    pub iv: Option<Vec<u8>>,
    pub kid: Option<Vec<u8>>,
    pub scheme: Option<String>,
    pub protection_data: Option<Vec<u8>>,
    pub source: KeySource,
}

/// Model of `EncryptionInfo`.
pub struct EncryptionInfoView {
    pub method: EncryptionMethod,
    pub key: Option<Seq<u8>>,
    pub iv: Option<Seq<u8>>,
    pub kid: Option<Seq<u8>>,
    pub scheme: Option<Seq<char>>,
    pub protection_data: Option<Seq<u8>>,
    pub source: KeySource,
}

impl DeepView for EncryptionInfo {
    type V = EncryptionInfoView;

    open spec fn deep_view(&self) -> EncryptionInfoView {
        EncryptionInfoView {
            method: self.method,
            key: opt_bytes(self.key),
            iv: opt_bytes(self.iv),
            kid: opt_bytes(self.kid),
            scheme: self.scheme.deep_view(),
            protection_data: opt_bytes(self.protection_data),
            source: self.source,
        }
    }
}

/// No encryption.
pub open spec fn no_encryption() -> EncryptionInfoView {
    EncryptionInfoView {
        method: EncryptionMethod::Unencrypted,
        key: None,
        iv: None,
        kid: None,
        scheme: None,
        protection_data: None,
        source: KeySource::Absent,
    }
}

impl Default for EncryptionInfo {
    fn default() -> (r: Self)
        ensures
            r.deep_view() == no_encryption(),
    {
        EncryptionInfo {
            method: EncryptionMethod::Unencrypted,
            key: None,
            iv: None,
            kid: None,
            scheme: None,
            protection_data: None,
            source: KeySource::Absent,
        }
    }
}

impl Clone for EncryptionInfo {
    fn clone(&self) -> (r: Self)
        ensures
            r.deep_view() == self.deep_view(),
    {
        EncryptionInfo {
            method: self.method,
            key: copy_opt_bytes(&self.key),
            iv: copy_opt_bytes(&self.iv),
            kid: copy_opt_bytes(&self.kid),
            scheme: copy_opt(&self.scheme),
            protection_data: copy_opt_bytes(&self.protection_data),
            source: self.source,
        }
    }
}

impl EncryptionInfo {
    /// Whether there is any encryption at all.
    pub fn is_encrypted(&self) -> (r: bool)
        ensures
            r == (self.deep_view().method != EncryptionMethod::Unencrypted),
    {
        self.method != EncryptionMethod::Unencrypted
    }
}

/// Two's complement reduction to 64 bits.
pub open spec fn wrap_i64(n: int) -> int {
    let m = (n + 0x8000_0000_0000_0000) % 0x1_0000_0000_0000_0000;
    m - 0x8000_0000_0000_0000
}

/// A run of bytes.
#[derive(Clone, Copy, Debug, PartialEq, Eq, Structural)]
pub struct ByteRange {
    pub start: i64,
    pub length: i64,
}

fn wrapped_last(start: i64, length: i64) -> (r: i64)
    ensures
        r == wrap_i64(start + length - 1),
{
    start.wrapping_add(length).wrapping_sub(1)
}

impl ByteRange {
    /// The position of the last byte.
    pub fn end(&self) -> (r: Option<i64>)
        ensures
            r is Some,
            r->0 == wrap_i64(self.start + self.length - 1),
    {
        Some(wrapped_last(self.start, self.length))
    }
}

/// A length of time as a manifest states it.
#[derive(Debug, PartialEq, Eq)]
pub enum MediaDuration {
    /// Decimal text, in seconds.
    Seconds(String),
    /// `units` of which `timescale` make a second.
    Ticks { units: i64, timescale: i64 },
    /// ISO 8601 text, such as `PT1H2M3S`.
    Iso(String),
}

/// Model of `MediaDuration`.
pub enum MediaDurationView {
    Seconds(Seq<char>),
    Ticks { units: int, timescale: int },
    Iso(Seq<char>),
}

impl DeepView for MediaDuration {
    type V = MediaDurationView;

    open spec fn deep_view(&self) -> MediaDurationView {
        match self {
            MediaDuration::Seconds(text) => MediaDurationView::Seconds(text@),
            MediaDuration::Ticks { units, timescale } => MediaDurationView::Ticks {
                units: *units as int,
                timescale: *timescale as int,
            },
            MediaDuration::Iso(text) => MediaDurationView::Iso(text@),
        }
    }
}

impl Clone for MediaDuration {
    fn clone(&self) -> (r: Self)
        ensures
            r.deep_view() == self.deep_view(),
    {
        match self {
            MediaDuration::Seconds(text) => MediaDuration::Seconds(text.clone()),
            MediaDuration::Ticks { units, timescale } => MediaDuration::Ticks {
                units: *units,
                timescale: *timescale,
            },
            MediaDuration::Iso(text) => MediaDuration::Iso(text.clone()),
        }
    }
}

/// No time at all.
pub open spec fn no_duration() -> MediaDurationView {
    MediaDurationView::Ticks { units: 0, timescale: 1 }
}

/// A copy of durations.
pub fn copy_durations(v: &Vec<MediaDuration>) -> (r: Vec<MediaDuration>)
    ensures
        r.deep_view() == v.deep_view(),
{
    let mut out: Vec<MediaDuration> = Vec::new();
    let mut i: usize = 0;
    while i < v.len()
        invariant
            i <= v@.len(),
            out.deep_view() =~= v.deep_view().subrange(0, i as int),
        decreases v@.len() - i,
    {
        let item: MediaDuration = v[i].clone();
        let ghost before = out.deep_view();
        out.push(item);
        assert(out.deep_view() =~= before.push(item.deep_view()));
        assert(v.deep_view()[i as int] == item.deep_view());
        i = i + 1;
    }
    assert(v.deep_view().subrange(0, v@.len() as int) =~= v.deep_view());
    out
}

/// A copy of groups of durations.
pub fn copy_duration_groups(v: &Vec<Vec<MediaDuration>>) -> (r: Vec<Vec<MediaDuration>>)
    ensures
        r.deep_view() == v.deep_view(),
{
    let mut out: Vec<Vec<MediaDuration>> = Vec::new();
    let mut i: usize = 0;
    while i < v.len()
        invariant
            i <= v@.len(),
            out.deep_view() =~= v.deep_view().subrange(0, i as int),
        decreases v@.len() - i,
    {
        let item: Vec<MediaDuration> = copy_durations(&v[i]);
        let ghost before = out.deep_view();
        let ghost view = item.deep_view();
        out.push(item);
        assert(out.deep_view() =~= before.push(view));
        assert(v.deep_view()[i as int] == view);
        i = i + 1;
    }
    assert(v.deep_view().subrange(0, v@.len() as int) =~= v.deep_view());
    out
}

/// One downloadable segment.
#[derive(Debug, PartialEq, Eq)]
pub struct MediaSegment {
    pub index: i64,
    pub duration: MediaDuration,
    /// Durations that were added to this one, group by group.
    pub added_durations: Vec<Vec<MediaDuration>>,
    pub title: Option<String>,
    pub program_date_time: Option<String>,
    pub start_range: Option<i64>,
    pub expected_length: Option<i64>,
    pub encryption: EncryptionInfo,
    pub url: String,
    pub name_from_var: Option<String>,
}

/// Model of `MediaSegment`.
pub struct MediaSegmentView {
    pub index: i64,
    pub duration: MediaDurationView,
    pub added_durations: Seq<Seq<MediaDurationView>>,
    pub title: Option<Seq<char>>,
    pub program_date_time: Option<Seq<char>>,
    pub start_range: Option<i64>,
    pub expected_length: Option<i64>,
    pub encryption: EncryptionInfoView,
    pub url: Seq<char>,
    pub name_from_var: Option<Seq<char>>,
}

impl DeepView for MediaSegment {
    type V = MediaSegmentView;

    open spec fn deep_view(&self) -> MediaSegmentView {
        MediaSegmentView {
            index: self.index,
            duration: self.duration.deep_view(),
            added_durations: self.added_durations.deep_view(),
            title: self.title.deep_view(),
            program_date_time: self.program_date_time.deep_view(),
            start_range: self.start_range,
            expected_length: self.expected_length,
            encryption: self.encryption.deep_view(),
            url: self.url@,
            name_from_var: self.name_from_var.deep_view(),
        }
    }
}

/// A segment with nothing set.
pub open spec fn blank_segment() -> MediaSegmentView {
    MediaSegmentView {
        index: 0,
        duration: no_duration(),
        added_durations: Seq::empty(),
        title: None,
        program_date_time: None,
        start_range: None,
        expected_length: None,
        encryption: no_encryption(),
        url: Seq::empty(),
        name_from_var: None,
    }
}

impl Default for MediaSegment {
    fn default() -> (r: Self)
        ensures
            r.deep_view() == blank_segment(),
    {
        let r = MediaSegment {
            index: 0,
            duration: MediaDuration::Ticks { units: 0, timescale: 1 },
            added_durations: Vec::new(),
            title: None,
            program_date_time: None,
            start_range: None,
            expected_length: None,
            encryption: EncryptionInfo::default(),
            url: String::new(),
            name_from_var: None,
        };
        assert(r.added_durations.deep_view() =~= Seq::<Seq<MediaDurationView>>::empty());
        r
    }
}

impl Clone for MediaSegment {
    fn clone(&self) -> (r: Self)
        ensures
            r.deep_view() == self.deep_view(),
    {
        MediaSegment {
            index: self.index,
            duration: self.duration.clone(),
            added_durations: copy_duration_groups(&self.added_durations),
            title: copy_opt(&self.title),
            program_date_time: copy_opt(&self.program_date_time),
            start_range: self.start_range,
            expected_length: self.expected_length,
            encryption: self.encryption.clone(),
            url: self.url.clone(),
            name_from_var: copy_opt(&self.name_from_var),
        }
    }
}

/// The last byte of a ranged segment.
pub open spec fn stop_range_of(segment: MediaSegmentView) -> Option<int> {
    match (segment.start_range, segment.expected_length) {
        (Some(start), Some(length)) => Some(wrap_i64(start + length - 1)),
        _ => None,
    }
}

impl MediaSegment {
    /// The last byte of a ranged segment.
    pub fn stop_range(&self) -> (r: Option<i64>)
        ensures
            match r {
                Some(stop) => stop_range_of(self.deep_view()) == Some(stop as int),
                None => stop_range_of(self.deep_view()) is None,
            },
    {
        match (self.start_range, self.expected_length) {
            (Some(start), Some(length)) => Some(wrapped_last(start, length)),
            _ => None,
        }
    }

    /// Whether the segment is encrypted.
    pub fn is_encrypted(&self) -> (r: bool)
        ensures
            r == (self.deep_view().encryption.method != EncryptionMethod::Unencrypted),
    {
        self.encryption.is_encrypted()
    }
}

/// Segments between two discontinuities.
#[derive(Debug, PartialEq, Eq)]
pub struct MediaPart {
    pub media_segments: Vec<MediaSegment>,
}

impl DeepView for MediaPart {
    type V = Seq<MediaSegmentView>;

    open spec fn deep_view(&self) -> Seq<MediaSegmentView> {
        self.media_segments.deep_view()
    }
}

/// A copy of segments.
pub fn copy_segments(v: &Vec<MediaSegment>) -> (r: Vec<MediaSegment>)
    ensures
        r.deep_view() == v.deep_view(),
{
    let mut out: Vec<MediaSegment> = Vec::new();
    let mut i: usize = 0;
    while i < v.len()
        invariant
            i <= v@.len(),
            out.deep_view() =~= v.deep_view().subrange(0, i as int),
        decreases v@.len() - i,
    {
        let item: MediaSegment = v[i].clone();
        let ghost before = out.deep_view();
        out.push(item);
        assert(out.deep_view() =~= before.push(item.deep_view()));
        assert(v.deep_view()[i as int] == item.deep_view());
        i = i + 1;
    }
    assert(v.deep_view().subrange(0, v@.len() as int) =~= v.deep_view());
    out
}

impl Clone for MediaPart {
    fn clone(&self) -> (r: Self)
        ensures
            r.deep_view() == self.deep_view(),
    {
        MediaPart { media_segments: copy_segments(&self.media_segments) }
    }
}

/// How long to wait before a live playlist is read again.
#[derive(Clone, Copy, Debug, PartialEq, Eq, Structural)]
pub enum RefreshInterval {
    /// A fixed number of milliseconds.
    Millis(i64),
    /// Twice the target duration, or ten seconds where none is stated, in whole milliseconds.
    TwiceTarget,
    /// Half the buffer depth, or thirty seconds where none is stated.
    HalfBuffer,
}

/// The segments of a stream.
#[derive(Debug, PartialEq, Eq)]
pub struct Playlist {
    pub url: String,
    pub is_live: bool,
    pub refresh_interval: RefreshInterval,
    /// The depth of the buffer of a live presentation, in ISO 8601.
    pub buffer_depth: Option<String>,
    pub target_duration: Option<String>,
    pub media_init: Option<MediaSegment>,
    pub media_parts: Vec<MediaPart>,
}

/// Model of `Playlist`.
pub struct PlaylistView {
    pub url: Seq<char>,
    pub is_live: bool,
    pub refresh_interval: RefreshInterval,
    pub buffer_depth: Option<Seq<char>>,
    pub target_duration: Option<Seq<char>>,
    pub media_init: Option<MediaSegmentView>,
    pub media_parts: Seq<Seq<MediaSegmentView>>,
}

impl DeepView for Playlist {
    type V = PlaylistView;

    open spec fn deep_view(&self) -> PlaylistView {
        PlaylistView {
            url: self.url@,
            is_live: self.is_live,
            refresh_interval: self.refresh_interval,
            buffer_depth: self.buffer_depth.deep_view(),
            target_duration: self.target_duration.deep_view(),
            media_init: self.media_init.deep_view(),
            media_parts: self.media_parts.deep_view(),
        }
    }
}

/// A playlist with nothing set.
pub open spec fn blank_playlist() -> PlaylistView {
    PlaylistView {
        url: Seq::empty(),
        is_live: false,
        refresh_interval: RefreshInterval::Millis(15000),
        buffer_depth: None,
        target_duration: None,
        media_init: None,
        media_parts: Seq::empty(),
    }
}

impl Default for Playlist {
    fn default() -> (r: Self)
        ensures
            r.deep_view() == blank_playlist(),
    {
        let r = Playlist {
            url: String::new(),
            is_live: false,
            refresh_interval: RefreshInterval::Millis(15000),
            buffer_depth: None,
            target_duration: None,
            media_init: None,
            media_parts: Vec::new(),
        };
        assert(r.media_parts.deep_view() =~= Seq::empty());
        r
    }
}

impl Clone for Playlist {
    fn clone(&self) -> (r: Self)
        ensures
            r.deep_view() == self.deep_view(),
    {
        let mut parts: Vec<MediaPart> = Vec::new();
        let mut i: usize = 0;
        while i < self.media_parts.len()
            invariant
                i <= self.media_parts@.len(),
                parts.deep_view() =~= self.media_parts.deep_view().subrange(0, i as int),
            decreases self.media_parts@.len() - i,
        {
            let part: MediaPart = self.media_parts[i].clone();
            let ghost before = parts.deep_view();
            parts.push(part);
            assert(parts.deep_view() =~= before.push(part.deep_view()));
            assert(self.media_parts.deep_view()[i as int] == part.deep_view());
            i = i + 1;
        }
        assert(self.media_parts.deep_view().subrange(0, self.media_parts@.len() as int)
            =~= self.media_parts.deep_view());
        Playlist {
            url: self.url.clone(),
            is_live: self.is_live,
            refresh_interval: self.refresh_interval,
            buffer_depth: copy_opt(&self.buffer_depth),
            target_duration: copy_opt(&self.target_duration),
            media_init: match &self.media_init {
                Some(init) => Some(init.clone()),
                None => None,
            },
            media_parts: parts,
        }
    }
}

/// The number of segments in all parts.
pub open spec fn count_segments(parts: Seq<Seq<MediaSegmentView>>) -> nat
    decreases parts.len(),
{
    if parts.len() == 0 {
        0
    } else {
        count_segments(parts.drop_last()) + parts.last().len()
    }
}

/// The segments of all parts, in order.
pub open spec fn all_segments(parts: Seq<Seq<MediaSegmentView>>) -> Seq<MediaSegmentView>
    decreases parts.len(),
{
    if parts.len() == 0 {
        Seq::empty()
    } else {
        all_segments(parts.drop_last()) + parts.last()
    }
}

/// There are as many segments as the count says.
pub proof fn law_count_is_length(parts: Seq<Seq<MediaSegmentView>>)
    ensures
        all_segments(parts).len() == count_segments(parts),
    decreases parts.len(),
{
    if parts.len() > 0 {
        law_count_is_length(parts.drop_last());
    }
}

/// Fewer parts hold no more segments.
pub proof fn lemma_count_grows(parts: Seq<Seq<MediaSegmentView>>, n: int)
    requires
        0 <= n <= parts.len(),
    ensures
        count_segments(parts.subrange(0, n)) <= count_segments(parts),
    decreases parts.len(),
{
    if n < parts.len() {
        lemma_count_grows(parts.drop_last(), n);
        assert(parts.drop_last().subrange(0, n) =~= parts.subrange(0, n));
    } else {
        assert(parts.subrange(0, n) =~= parts);
    }
}

impl Playlist {
    /// The number of segments in all parts.
    pub fn segments_count(&self) -> (r: usize)
        requires
            count_segments(self.deep_view().media_parts) <= usize::MAX,
        ensures
            r == count_segments(self.deep_view().media_parts),
    {
        let mut total: usize = 0;
        let mut i: usize = 0;
        let ghost parts = self.media_parts.deep_view();
        while i < self.media_parts.len()
            invariant
                i <= self.media_parts@.len(),
                parts == self.media_parts.deep_view(),
                count_segments(parts) <= usize::MAX,
                total == count_segments(parts.subrange(0, i as int)),
            decreases self.media_parts@.len() - i,
        {
            proof {
                lemma_count_grows(parts, i + 1);
                assert(parts.subrange(0, i + 1).drop_last() =~= parts.subrange(0, i as int));
            }
            total = total + self.media_parts[i].media_segments.len();
            i = i + 1;
        }
        assert(parts.subrange(0, parts.len() as int) =~= parts);
        total
    }
}

/// Codec and protection data of a Smooth Streaming track.
#[derive(Debug, PartialEq, Eq)]
pub struct MssData {
    pub four_cc: String,
    pub codec_private_data: String,
    pub stream_type: String,
    pub timescale: i32,
    pub sampling_rate: i32,
    pub channels: i32,
    pub bits_per_sample: i32,
    pub nal_unit_length_field: i32,
    pub duration: i64,
    pub is_protection: bool,
    pub protection_system_id: String,
    pub protection_data: String,
}

/// Model of `MssData`.
pub struct MssDataView {
    pub four_cc: Seq<char>,
    pub codec_private_data: Seq<char>,
    pub stream_type: Seq<char>,
    pub timescale: i32,
    pub sampling_rate: i32,
    pub channels: i32,
    pub bits_per_sample: i32,
    pub nal_unit_length_field: i32,
    pub duration: i64,
    pub is_protection: bool,
    pub protection_system_id: Seq<char>,
    pub protection_data: Seq<char>,
}

impl DeepView for MssData {
    type V = MssDataView;

    open spec fn deep_view(&self) -> MssDataView {
        MssDataView {
            four_cc: self.four_cc@,
            codec_private_data: self.codec_private_data@,
            stream_type: self.stream_type@,
            timescale: self.timescale,
            sampling_rate: self.sampling_rate,
            channels: self.channels,
            bits_per_sample: self.bits_per_sample,
            nal_unit_length_field: self.nal_unit_length_field,
            duration: self.duration,
            is_protection: self.is_protection,
            protection_system_id: self.protection_system_id@,
            protection_data: self.protection_data@,
        }
    }
}

impl Clone for MssData {
    fn clone(&self) -> (r: Self)
        ensures
            r.deep_view() == self.deep_view(),
    {
        MssData {
            four_cc: self.four_cc.clone(),
            codec_private_data: self.codec_private_data.clone(),
            stream_type: self.stream_type.clone(),
            timescale: self.timescale,
            sampling_rate: self.sampling_rate,
            channels: self.channels,
            bits_per_sample: self.bits_per_sample,
            nal_unit_length_field: self.nal_unit_length_field,
            duration: self.duration,
            is_protection: self.is_protection,
            protection_system_id: self.protection_system_id.clone(),
            protection_data: self.protection_data.clone(),
        }
    }
}

/// One selectable stream.
#[derive(Debug, PartialEq, Eq)]
pub struct Stream {
    pub id: String,
    pub media_type: Option<MediaType>,
    pub group_id: Option<String>,
    pub language: Option<String>,
    pub name: Option<String>,
    pub default: Option<Choice>,
    pub forced: Option<Choice>,
    pub skipped_duration: Option<MediaDuration>,
    pub mss_data: Option<MssData>,
    pub bandwidth: Option<i64>,
    pub codecs: Option<String>,
    pub resolution: Option<String>,
    pub frame_rate: Option<String>,
    pub channels: Option<String>,
    pub extension: Option<String>,
    pub role: Option<RoleType>,
    pub video_range: Option<String>,
    pub characteristics: Option<String>,
    pub publish_time: Option<String>,
    pub audio_id: Option<String>,
    pub video_id: Option<String>,
    pub subtitle_id: Option<String>,
    pub period_id: Option<String>,
    pub url: String,
    pub original_url: String,
    pub playlist: Option<Playlist>,
}

/// Model of `Stream`.
pub struct StreamView {
    pub id: Seq<char>,
    pub media_type: Option<MediaType>,
    pub group_id: Option<Seq<char>>,
    pub language: Option<Seq<char>>,
    pub name: Option<Seq<char>>,
    pub default: Option<Choice>,
    pub forced: Option<Choice>,
    pub skipped_duration: Option<MediaDurationView>,
    pub mss_data: Option<MssDataView>,
    pub bandwidth: Option<i64>,
    pub codecs: Option<Seq<char>>,
    pub resolution: Option<Seq<char>>,
    pub frame_rate: Option<Seq<char>>,
    pub channels: Option<Seq<char>>,
    pub extension: Option<Seq<char>>,
    pub role: Option<RoleType>,
    pub video_range: Option<Seq<char>>,
    pub characteristics: Option<Seq<char>>,
    pub publish_time: Option<Seq<char>>,
    pub audio_id: Option<Seq<char>>,
    pub video_id: Option<Seq<char>>,
    pub subtitle_id: Option<Seq<char>>,
    pub period_id: Option<Seq<char>>,
    pub url: Seq<char>,
    pub original_url: Seq<char>,
    pub playlist: Option<PlaylistView>,
}

impl DeepView for Stream {
    type V = StreamView;

    open spec fn deep_view(&self) -> StreamView {
        StreamView {
            id: self.id@,
            media_type: self.media_type,
            group_id: self.group_id.deep_view(),
            language: self.language.deep_view(),
            name: self.name.deep_view(),
            default: self.default,
            forced: self.forced,
            skipped_duration: self.skipped_duration.deep_view(),
            mss_data: self.mss_data.deep_view(),
            bandwidth: self.bandwidth,
            codecs: self.codecs.deep_view(),
            resolution: self.resolution.deep_view(),
            frame_rate: self.frame_rate.deep_view(),
            channels: self.channels.deep_view(),
            extension: self.extension.deep_view(),
            role: self.role,
            video_range: self.video_range.deep_view(),
            characteristics: self.characteristics.deep_view(),
            publish_time: self.publish_time.deep_view(),
            audio_id: self.audio_id.deep_view(),
            video_id: self.video_id.deep_view(),
            subtitle_id: self.subtitle_id.deep_view(),
            period_id: self.period_id.deep_view(),
            url: self.url@,
            original_url: self.original_url@,
            playlist: self.playlist.deep_view(),
        }
    }
}

/// A stream with nothing set.
pub open spec fn blank_stream() -> StreamView {
    StreamView {
        id: Seq::empty(),
        media_type: None,
        group_id: None,
        language: None,
        name: None,
        default: None,
        forced: None,
        skipped_duration: None,
        mss_data: None,
        bandwidth: None,
        codecs: None,
        resolution: None,
        frame_rate: None,
        channels: None,
        extension: None,
        role: None,
        video_range: None,
        characteristics: None,
        publish_time: None,
        audio_id: None,
        video_id: None,
        subtitle_id: None,
        period_id: None,
        url: Seq::empty(),
        original_url: Seq::empty(),
        playlist: None,
    }
}

impl Default for Stream {
    fn default() -> (r: Self)
        ensures
            r.deep_view() == blank_stream(),
    {
        Stream {
            id: String::new(),
            media_type: None,
            group_id: None,
            language: None,
            name: None,
            default: None,
            forced: None,
            skipped_duration: None,
            mss_data: None,
            bandwidth: None,
            codecs: None,
            resolution: None,
            frame_rate: None,
            channels: None,
            extension: None,
            role: None,
            video_range: None,
            characteristics: None,
            publish_time: None,
            audio_id: None,
            video_id: None,
            subtitle_id: None,
            period_id: None,
            url: String::new(),
            original_url: String::new(),
            playlist: None,
        }
    }
}

impl Clone for Stream {
    fn clone(&self) -> (r: Self)
        ensures
            r.deep_view() == self.deep_view(),
    {
        Stream {
            id: self.id.clone(),
            media_type: self.media_type,
            group_id: copy_opt(&self.group_id),
            language: copy_opt(&self.language),
            name: copy_opt(&self.name),
            default: self.default,
            forced: self.forced,
            skipped_duration: match &self.skipped_duration {
                Some(d) => Some(d.clone()),
                None => None,
            },
            mss_data: match &self.mss_data {
                Some(d) => Some(d.clone()),
                None => None,
            },
            bandwidth: self.bandwidth,
            codecs: copy_opt(&self.codecs),
            resolution: copy_opt(&self.resolution),
            frame_rate: copy_opt(&self.frame_rate),
            channels: copy_opt(&self.channels),
            extension: copy_opt(&self.extension),
            role: self.role,
            video_range: copy_opt(&self.video_range),
            characteristics: copy_opt(&self.characteristics),
            publish_time: copy_opt(&self.publish_time),
            audio_id: copy_opt(&self.audio_id),
            video_id: copy_opt(&self.video_id),
            subtitle_id: copy_opt(&self.subtitle_id),
            period_id: copy_opt(&self.period_id),
            url: self.url.clone(),
            original_url: self.original_url.clone(),
            playlist: match &self.playlist {
                Some(p) => Some(p.clone()),
                None => None,
            },
        }
    }
}

/// The number of segments of a stream.
pub open spec fn stream_segments(stream: StreamView) -> nat {
    match stream.playlist {
        Some(playlist) => count_segments(playlist.media_parts),
        None => 0,
    }
}

impl Stream {
    /// The number of segments of the stream.
    pub fn segments_count(&self) -> (r: usize)
        requires
            stream_segments(self.deep_view()) <= usize::MAX,
        ensures
            r == stream_segments(self.deep_view()),
    {
        match &self.playlist {
            Some(playlist) => playlist.segments_count(),
            None => 0,
        }
    }
}

/// A whole manifest.
#[derive(Debug, PartialEq, Eq)]
pub struct Manifest {
    pub extractor_type: Option<ExtractorType>,
    pub source: Option<String>,
    pub streams: Vec<Stream>,
    pub warnings: Vec<String>,
    pub is_live: bool,
}

/// Which streams to take.
#[derive(Clone, Debug, PartialEq, Eq)]
pub enum StreamSelector {
    Interactive,
    Auto,
    SubtitlesOnly,
    ExplicitIds(Vec<String>),
}

/// Place of a media type in the order of streams.
pub open spec fn rank_of(media_type: Option<MediaType>) -> int {
    match media_type {
        None => -1,
        Some(MediaType::Audio) => 0,
        Some(MediaType::Video) => 1,
        Some(MediaType::Subtitles) => 2,
        Some(MediaType::ClosedCaptions) => 3,
    }
}

/// The number of channels before the first slash; zero where there is none.
pub open spec fn channels_of(stream: StreamView) -> int {
    match stream.channels {
        Some(channels) => match parse_within(
            split(channels, "/"@)[0],
            i32::MIN as int,
            i32::MAX as int,
        ) {
            Some(n) => n,
            None => 0,
        },
        None => 0,
    }
}

/// What the order of streams looks at: media rank, whether a bandwidth is missing, the bandwidth
/// and the channels.
pub struct StreamKey {
    pub rank: int,
    pub unknown_bandwidth: bool,
    pub bandwidth: int,
    pub channels: int,
}

pub open spec fn key_of(stream: StreamView) -> StreamKey {
    StreamKey {
        rank: rank_of(stream.media_type),
        unknown_bandwidth: stream.bandwidth is None,
        bandwidth: match stream.bandwidth {
            Some(b) => b as int,
            None => 0,
        },
        channels: channels_of(stream),
    }
}

/// `a` stands strictly before `b`: a lower rank, then more bandwidth (known before unknown), then
/// more channels.
pub open spec fn key_before(a: StreamKey, b: StreamKey) -> bool {
    if a.rank != b.rank {
        a.rank < b.rank
    } else if a.unknown_bandwidth != b.unknown_bandwidth {
        b.unknown_bandwidth
    } else if a.bandwidth != b.bandwidth {
        a.bandwidth > b.bandwidth
    } else {
        a.channels > b.channels
    }
}

/// The order is total: of two different keys exactly one stands before the other.
pub proof fn law_stream_order_total(a: StreamKey, b: StreamKey)
    requires
        a.unknown_bandwidth ==> a.bandwidth == 0,
        b.unknown_bandwidth ==> b.bandwidth == 0,
    ensures
        !(key_before(a, b) && key_before(b, a)),
        a == b || key_before(a, b) || key_before(b, a),
{
}

/// The order is transitive.
pub proof fn law_stream_order_transitive(a: StreamKey, b: StreamKey, c: StreamKey)
    requires
        key_before(a, b),
        key_before(b, c),
    ensures
        key_before(a, c),
{
}

proof fn lemma_not_before_transitive(a: StreamView, b: StreamView, c: StreamView)
    requires
        !key_before(key_of(b), key_of(a)),
        !key_before(key_of(c), key_of(b)),
    ensures
        !key_before(key_of(c), key_of(a)),
{
}

/// The number of channels before the first slash; zero where there is none.
pub fn audio_channel_order(stream: &Stream) -> (r: i32)
    ensures
        r == channels_of(stream.deep_view()),
{
    match &stream.channels {
        None => 0,
        Some(channels) => {
            proof {
                reveal_strlit("/");
            }
            let pieces: Vec<String> = split_text(channels.as_str(), "/");
            let ghost all = pieces.deep_view();
            proof {
                crate::text::lemma_split_not_empty(channels@, "/"@);
                assert(all[0] == pieces@[0]@);
            }
            match parse_i32_text(pieces[0].as_str()) {
                Some(n) => n,
                None => 0,
            }
        },
    }
}

fn media_rank(media_type: Option<MediaType>) -> (r: i32)
    ensures
        r == rank_of(media_type),
{
    match media_type {
        None => -1,
        Some(MediaType::Audio) => 0,
        Some(MediaType::Video) => 1,
        Some(MediaType::Subtitles) => 2,
        Some(MediaType::ClosedCaptions) => 3,
    }
}

/// Whether `left` stands strictly before `right`.
pub fn stream_before(left: &Stream, right: &Stream) -> (r: bool)
    ensures
        r == key_before(key_of(left.deep_view()), key_of(right.deep_view())),
{
    let left_rank: i32 = media_rank(left.media_type);
    let right_rank: i32 = media_rank(right.media_type);
    if left_rank != right_rank {
        return left_rank < right_rank;
    }
    match (left.bandwidth, right.bandwidth) {
        (Some(a), Some(b)) => {
            if a != b {
                return a > b;
            }
        },
        (Some(_), None) => {
            return true;
        },
        (None, Some(_)) => {
            return false;
        },
        (None, None) => {},
    }
    audio_channel_order(left) > audio_channel_order(right)
}

/// The place of `left` relative to `right`.
pub fn compare_streams_compatible(left: &Stream, right: &Stream) -> (r: core::cmp::Ordering)
    ensures
        r == if key_before(key_of(left.deep_view()), key_of(right.deep_view())) {
            core::cmp::Ordering::Less
        } else if key_before(key_of(right.deep_view()), key_of(left.deep_view())) {
            core::cmp::Ordering::Greater
        } else {
            core::cmp::Ordering::Equal
        },
{
    if stream_before(left, right) {
        core::cmp::Ordering::Less
    } else if stream_before(right, left) {
        core::cmp::Ordering::Greater
    } else {
        core::cmp::Ordering::Equal
    }
}

/// `x` put after every stream that does not stand after it.
pub open spec fn insert_stream(s: Seq<StreamView>, x: StreamView) -> Seq<StreamView>
    decreases s.len(),
{
    if s.len() > 0 && key_before(key_of(x), key_of(s.last())) {
        insert_stream(s.drop_last(), x).push(s.last())
    } else {
        s.push(x)
    }
}

/// The streams in order; those with equal keys stay as they stood.
pub open spec fn sort_streams(s: Seq<StreamView>) -> Seq<StreamView>
    decreases s.len(),
{
    if s.len() == 0 {
        s
    } else {
        insert_stream(sort_streams(s.drop_last()), s.last())
    }
}

/// No stream stands before one that precedes it.
pub open spec fn streams_ordered(s: Seq<StreamView>) -> bool {
    forall|i: int, j: int|
        0 <= i < j < s.len() ==> !key_before(#[trigger] key_of(s[j]), #[trigger] key_of(s[i]))
}

proof fn lemma_insert_ordered(s: Seq<StreamView>, x: StreamView)
    requires
        streams_ordered(s),
    ensures
        streams_ordered(insert_stream(s, x)),
        insert_stream(s, x).len() == s.len() + 1,
        forall|i: int|
            0 <= i < s.len() + 1 ==> (#[trigger] insert_stream(s, x)[i]) == x || s.contains(
                insert_stream(s, x)[i],
            ),
    decreases s.len(),
{
    let r = insert_stream(s, x);
    if s.len() > 0 && key_before(key_of(x), key_of(s.last())) {
        let t = insert_stream(s.drop_last(), x);
        lemma_insert_ordered(s.drop_last(), x);
        assert(r =~= t.push(s.last()));
        assert forall|i: int| 0 <= i < s.len() + 1 implies (#[trigger] r[i]) == x || s.contains(r[i]) by {
            if i < s.len() {
                assert(r[i] == t[i]);
                if t[i] != x {
                    let k = choose|k: int| 0 <= k < s.len() - 1 && s.drop_last()[k] == t[i];
                    assert(s[k] == r[i]);
                }
            } else {
                assert(s[s.len() - 1] == r[i]);
            }
        }
        assert forall|i: int, j: int| 0 <= i < j < r.len() implies !key_before(
            #[trigger] key_of(r[j]),
            #[trigger] key_of(r[i]),
        ) by {
            if j == s.len() as int {
                assert(r[i] == t[i]);
                if t[i] != x {
                    let k = choose|k: int| 0 <= k < s.len() - 1 && s.drop_last()[k] == t[i];
                    assert(s[k] == r[i]);
                    assert(!key_before(key_of(s[s.len() - 1]), key_of(s[k])));
                }
            } else {
                assert(!key_before(key_of(t[j]), key_of(t[i])));
            }
        }
    } else {
        assert(r =~= s.push(x));
        assert forall|i: int| 0 <= i < s.len() + 1 implies (#[trigger] r[i]) == x || s.contains(r[i]) by {
            if i < s.len() {
                assert(s[i] == r[i]);
            }
        }
        assert forall|i: int, j: int| 0 <= i < j < r.len() implies !key_before(
            #[trigger] key_of(r[j]),
            #[trigger] key_of(r[i]),
        ) by {
            if j == s.len() as int {
                if i < s.len() - 1 {
                    assert(!key_before(key_of(s[s.len() - 1]), key_of(s[i])));
                    lemma_not_before_transitive(s[i], s.last(), x);
                }
            } else {
                assert(!key_before(key_of(s[j]), key_of(s[i])));
            }
        }
    }
}

/// Sorting puts the streams in order.
pub proof fn law_sort_is_ordered(s: Seq<StreamView>)
    ensures
        streams_ordered(sort_streams(s)),
        sort_streams(s).len() == s.len(),
    decreases s.len(),
{
    if s.len() > 0 {
        law_sort_is_ordered(s.drop_last());
        lemma_insert_ordered(sort_streams(s.drop_last()), s.last());
    }
}

proof fn lemma_insert_multiset(s: Seq<StreamView>, x: StreamView)
    ensures
        insert_stream(s, x).to_multiset() == s.to_multiset().insert(x),
    decreases s.len(),
{
    broadcast use vstd::seq_lib::group_to_multiset_ensures;

    if s.len() > 0 && key_before(key_of(x), key_of(s.last())) {
        lemma_insert_multiset(s.drop_last(), x);
        assert(s =~= s.drop_last().push(s.last()));
        assert(insert_stream(s, x).to_multiset() =~= s.to_multiset().insert(x));
    }
}

/// Sorting keeps every stream and adds none.
pub proof fn law_sort_is_permutation(s: Seq<StreamView>)
    ensures
        sort_streams(s).to_multiset() == s.to_multiset(),
    decreases s.len(),
{
    broadcast use vstd::seq_lib::group_to_multiset_ensures;

    if s.len() > 0 {
        law_sort_is_permutation(s.drop_last());
        lemma_insert_multiset(sort_streams(s.drop_last()), s.last());
        assert(s =~= s.drop_last().push(s.last()));
    }
}

/// The streams with a given key, in the order in which they stand.
pub open spec fn with_key(s: Seq<StreamView>, key: StreamKey) -> Seq<StreamView>
    decreases s.len(),
{
    if s.len() == 0 {
        s
    } else if key_of(s.last()) == key {
        with_key(s.drop_last(), key).push(s.last())
    } else {
        with_key(s.drop_last(), key)
    }
}

proof fn lemma_insert_stable(s: Seq<StreamView>, x: StreamView, key: StreamKey)
    ensures
        with_key(insert_stream(s, x), key) == if key_of(x) == key {
            with_key(s, key).push(x)
        } else {
            with_key(s, key)
        },
    decreases s.len(),
{
    if s.len() > 0 && key_before(key_of(x), key_of(s.last())) {
        lemma_insert_stable(s.drop_last(), x, key);
        assert(insert_stream(s, x).drop_last() =~= insert_stream(s.drop_last(), x));
    } else {
        assert(insert_stream(s, x).drop_last() =~= s);
    }
}

/// Sorting keeps the order of streams with equal keys.
pub proof fn law_sort_is_stable(s: Seq<StreamView>, key: StreamKey)
    ensures
        with_key(sort_streams(s), key) == with_key(s, key),
    decreases s.len(),
{
    if s.len() > 0 {
        law_sort_is_stable(s.drop_last(), key);
        lemma_insert_stable(sort_streams(s.drop_last()), s.last(), key);
    }
}

/// Puts the streams in order; those with equal keys stay as they stood.
pub fn sort_streams_compatible(streams: &mut Vec<Stream>)
    ensures
        final(streams).deep_view() == sort_streams(old(streams).deep_view()),
{
    let ghost all = streams.deep_view();
    let mut i: usize = 0;
    assert(all.subrange(0, 0) =~= Seq::<StreamView>::empty());
    while i < streams.len()
        invariant
            i <= streams@.len(),
            streams@.len() == all.len(),
            streams.deep_view().subrange(0, i as int) =~= sort_streams(all.subrange(0, i as int)),
            streams.deep_view().subrange(i as int, all.len() as int) =~= all.subrange(
                i as int,
                all.len() as int,
            ),
        decreases streams@.len() - i,
    {
        let ghost before = streams.deep_view();
        let ghost sorted = before.subrange(0, i as int);
        let ghost x = before[i as int];
        assert(x == all[i as int]) by {
            assert(before.subrange(i as int, all.len() as int)[0] == all.subrange(
                i as int,
                all.len() as int,
            )[0]);
        }
        let mut j: usize = i;
        assert(sorted.subrange(0, i as int) =~= sorted);
        assert(insert_stream(sorted, x) =~= insert_stream(sorted.subrange(0, j as int), x)
            + sorted.subrange(j as int, i as int));
        while j > 0 && stream_before(&streams[i], &streams[j - 1])
            invariant
                j <= i < streams@.len(),
                before == streams.deep_view(),
                sorted == before.subrange(0, i as int),
                x == before[i as int],
                insert_stream(sorted, x) == insert_stream(sorted.subrange(0, j as int), x)
                    + sorted.subrange(j as int, i as int),
            decreases j,
        {
            let ghost head = sorted.subrange(0, j as int);
            assert(head.last() == streams@[j - 1].deep_view());
            assert(head.drop_last() =~= sorted.subrange(0, j - 1));
            j = j - 1;
            assert(insert_stream(sorted, x) =~= insert_stream(sorted.subrange(0, j as int), x)
                + sorted.subrange(j as int, i as int));
        }
        if j > 0 {
            assert(sorted.subrange(0, j as int).last() == streams@[j - 1].deep_view());
        }
        assert(insert_stream(sorted.subrange(0, j as int), x) =~= sorted.subrange(0, j as int).push(x));
        let item: Stream = streams.remove(i);
        streams.insert(j, item);
        let ghost after = streams.deep_view();
        assert(after.subrange(0, i + 1) =~= insert_stream(sorted, x));
        assert(all.subrange(0, i + 1).drop_last() =~= all.subrange(0, i as int));
        assert(all.subrange(0, i + 1).last() == x);
        assert(after.subrange(i + 1, all.len() as int) =~= before.subrange(i + 1, all.len() as int));
        assert(before.subrange(i + 1, all.len() as int) =~= all.subrange(i + 1, all.len() as int)) by {
            assert forall|k: int| 0 <= k < all.len() - i - 1 implies #[trigger] before.subrange(
                i + 1,
                all.len() as int,
            )[k] == all.subrange(i + 1, all.len() as int)[k] by {
                assert(before.subrange(i as int, all.len() as int)[k + 1] == all.subrange(
                    i as int,
                    all.len() as int,
                )[k + 1]);
            }
        }
        i = i + 1;
    }
    assert(all.subrange(0, all.len() as int) =~= all);
    assert(streams.deep_view().subrange(0, all.len() as int) =~= streams.deep_view());
}

} // verus!
