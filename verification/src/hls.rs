//! HLS master and media playlists.

use crate::attribute::{attribute_of, hls_attribute, non_empty_hls_attribute, solid_attribute};
use crate::config::LogLevel;
use crate::datetime::{parse_manifest_timestamp_at, timestamp_of};
use crate::error::{view_result, Error, ErrorView, Result};
use crate::manifest::{
    blank_segment, blank_stream, copy_bytes, no_encryption, wrap_i64, Choice, EncryptionInfo,
    EncryptionInfoView, EncryptionMethod, ExtractorType, KeySource, MediaDuration,
    MediaDurationView, MediaPart, MediaSegment, MediaSegmentView, MediaType, Playlist, PlaylistView,
    RefreshInterval, Stream, StreamView,
};
use crate::numeric::{manifest_number, parse_manifest_number};
use crate::processor::{
    note, repair_playlist, repaired_playlist, resolve_url_with, resolved_url, solid_bytes,
    DefaultUrlProcessor, ParserConfig, ParserConfigView, ParserDiagnosticView, ParserDiagnostics,
};
use crate::text::{
    begins_with, contains, cut_once, ends_with, finishes_with, has_text, lines, lines_text, owned,
    parse_i32_text, parse_i64_text, parse_within, replace, replace_text, same, split, split_once,
    split_text, starts_with, strip_prefix, trim, trim_start, trim_start_char, trimmed,
    trimmed_start, trimmed_start_char, without_prefix,
};
use crate::text_map::lookup;
use vstd::prelude::*;

verus! {

/// What an HLS text holds.
#[derive(Debug, PartialEq, Eq)]
pub struct HlsManifest {
    pub streams: Vec<Stream>,
    pub is_master: bool,
    pub requires_binary_merge: bool,
}

/// Model of `HlsManifest`.
pub struct HlsManifestView {
    pub streams: Seq<StreamView>,
    pub is_master: bool,
    pub requires_binary_merge: bool,
}

impl DeepView for HlsManifest {
    type V = HlsManifestView;

    open spec fn deep_view(&self) -> HlsManifestView {
        HlsManifestView {
            streams: self.streams.deep_view(),
            is_master: self.is_master,
            requires_binary_merge: self.requires_binary_merge,
        }
    }
}

/// A URL of a playlist, resolved, and the messages about it.
pub open spec fn hls_url(value: Seq<char>, url: Seq<char>, config: ParserConfigView) -> (
    Seq<char>,
    Seq<ParserDiagnosticView>,
) {
    resolved_url(DefaultUrlProcessor, ExtractorType::Hls, value, url, config, 0)->Ok_0
}

fn process_url(
    value: &str,
    url: &str,
    config: &ParserConfig,
    diagnostics: &mut ParserDiagnostics,
) -> (r: String)
    ensures
        r@ == hls_url(value@, url@, config.deep_view()).0,
        final(diagnostics).deep_view() == old(diagnostics).deep_view() + hls_url(
            value@,
            url@,
            config.deep_view(),
        ).1,
{
    match resolve_url_with(
        ExtractorType::Hls,
        value,
        url,
        config,
        &DefaultUrlProcessor,
        0,
        diagnostics,
    ) {
        Ok(u) => u,
        Err(_) => owned(""),
    }
}

/// Length and start of a byte range; the start may be left out where it is known. More than one `@`
/// makes the length zero.
pub open spec fn byte_range_of(value: Seq<char>, fallback: Option<i64>) -> core::result::Result<
    (i64, i64),
    ErrorView,
> {
    let missing = Err(ErrorView::Protocol("byte range start is missing"@));
    if split(value, "@"@).len() > 2 {
        match fallback {
            Some(start) => Ok((0i64, start)),
            None => missing,
        }
    } else {
        let (length, start) = match split_once(value, "@"@) {
            Some((l, s)) => (trim(l), Some(trim(s))),
            None => (trim(value), None),
        };
        match parse_within(length, i64::MIN as int, i64::MAX as int) {
            None => Err(ErrorView::Protocol("byte range length is invalid"@)),
            Some(n) => match start {
                Some(s) => match parse_within(s, i64::MIN as int, i64::MAX as int) {
                    Some(m) => Ok((n as i64, m as i64)),
                    None => Err(ErrorView::Protocol("byte range start is invalid"@)),
                },
                None => match fallback {
                    Some(m) => Ok((n as i64, m)),
                    None => missing,
                },
            },
        }
    }
}

fn parse_byte_range(value: &str, fallback: Option<i64>) -> (r: Result<(i64, i64)>)
    ensures
        match r {
            Ok(p) => byte_range_of(value@, fallback) == Ok::<(i64, i64), ErrorView>(p),
            Err(e) => byte_range_of(value@, fallback) == Err::<(i64, i64), ErrorView>(
                e.deep_view(),
            ),
        },
{
    proof {
        reveal_strlit("@");
    }
    let pieces: Vec<String> = split_text(value, "@");
    assert(pieces.deep_view().len() == pieces@.len());
    if pieces.len() > 2 {
        return match fallback {
            Some(start) => Ok((0, start)),
            None => Err(Error::protocol("byte range start is missing")),
        };
    }
    let (length, start): (&str, Option<&str>) = match cut_once(value, "@") {
        Some((l, s)) => (trimmed(l), Some(trimmed(s))),
        None => (trimmed(value), None),
    };
    match parse_i64_text(length) {
        None => Err(Error::protocol("byte range length is invalid")),
        Some(n) => match start {
            Some(s) => match parse_i64_text(s) {
                Some(m) => Ok((n, m)),
                None => Err(Error::protocol("byte range start is invalid")),
            },
            None => match fallback {
                Some(m) => Ok((n, m)),
                None => Err(Error::protocol("byte range start is missing")),
            },
        },
    }
}

/// The initialization vector of a segment that names none: its number, in sixteen bytes, most
/// significant first.
pub open spec fn iv_of(index: int) -> Seq<u8> {
    let value = index % 0x1_0000_0000_0000_0000;
    Seq::new(16, |i: int| if i < 8 { 0u8 } else { ((value / pow256(15 - i)) % 256) as u8 })
}

/// `256` to the power of `n`.
pub open spec fn pow256(n: int) -> int
    decreases n,
{
    if n <= 0 {
        1
    } else {
        256 * pow256(n - 1)
    }
}

fn default_iv(segment_index: i64) -> (r: Vec<u8>)
    ensures
        r@ == iv_of(segment_index as int),
{
    let value: u64 = if segment_index >= 0 {
        segment_index as u64
    } else {
        (segment_index as i128 + 0x1_0000_0000_0000_0000) as u64
    };
    let mut out: Vec<u8> = Vec::new();
    let mut zeros: usize = 0;
    while zeros < 8
        invariant
            zeros <= 8,
            out@.len() == zeros,
            forall|i: int| 0 <= i < zeros ==> out@[i] == 0u8,
        decreases 8 - zeros,
    {
        out.push(0);
        zeros = zeros + 1;
    }
    out.push((value / 0x100_0000_0000_0000) as u8);
    out.push(((value / 0x1_0000_0000_0000) % 256) as u8);
    out.push(((value / 0x100_0000_0000) % 256) as u8);
    out.push(((value / 0x1_0000_0000) % 256) as u8);
    out.push(((value / 0x100_0000) % 256) as u8);
    out.push(((value / 0x1_0000) % 256) as u8);
    out.push(((value / 0x100) % 256) as u8);
    out.push((value % 256) as u8);
    proof {
        reveal_with_fuel(pow256, 9);
        assert(segment_index as int % 0x1_0000_0000_0000_0000 == value as int);
        assert((value as int / 0x100_0000_0000_0000) % 256 == value as int / 0x100_0000_0000_0000);
        assert(out@ =~= iv_of(segment_index as int));
    }
    out
}

/// The number that bytes write, most significant first.
pub open spec fn be_value(s: Seq<u8>) -> int
    decreases s.len(),
{
    if s.len() == 0 {
        0
    } else {
        be_value(s.drop_last()) * 256 + s.last()
    }
}

/// The vector is the number itself, read back.
pub proof fn law_default_iv_is_the_number(index: int)
    requires
        0 <= index < 0x1_0000_0000_0000_0000,
    ensures
        iv_of(index).len() == 16,
        be_value(iv_of(index)) == index,
{
    let s = iv_of(index);
    lemma_iv_prefix(index, 8);
    assert(s.subrange(0, 16) =~= s);
}

/// The first `8 + n` bytes write the number without its last `8 - n` bytes.
proof fn lemma_iv_prefix(index: int, n: int)
    requires
        0 <= n <= 8,
        0 <= index < 0x1_0000_0000_0000_0000,
    ensures
        be_value(iv_of(index).subrange(0, 8 + n)) == index / pow256(8 - n),
    decreases n,
{
    let s = iv_of(index);
    if n == 0 {
        lemma_zeros_write_zero(s.subrange(0, 8));
        reveal_with_fuel(pow256, 9);
    } else {
        lemma_iv_prefix(index, n - 1);
        let head = s.subrange(0, 8 + n);
        assert(head.drop_last() =~= s.subrange(0, 7 + n));
        let p = pow256(8 - n);
        lemma_pow_positive(8 - n);
        assert(pow256(9 - n) == 256 * p);
        assert(head.last() == ((index / p) % 256) as u8);
        assert(index / (256 * p) == (index / p) / 256) by {
            vstd::arithmetic::div_mod::lemma_div_denominator(index, p, 256);
            assert(p * 256 == 256 * p);
        }
    }
}

proof fn lemma_pow_positive(n: int)
    ensures
        pow256(n) > 0,
    decreases n,
{
    if n > 0 {
        lemma_pow_positive(n - 1);
    }
}

proof fn lemma_zeros_write_zero(s: Seq<u8>)
    requires
        forall|i: int| 0 <= i < s.len() ==> #[trigger] s[i] == 0u8,
    ensures
        be_value(s) == 0,
    decreases s.len(),
{
    if s.len() > 0 {
        assert(s[s.len() - 1] == 0u8);
        assert forall|i: int| 0 <= i < s.len() - 1 implies #[trigger] s.drop_last()[i] == 0u8 by {
            assert(s.drop_last()[i] == s[i]);
        }
        lemma_zeros_write_zero(s.drop_last());
    }
}

/// A segment under the encryption in force; a missing vector is the number of the segment.
pub open spec fn encrypted_segment(
    segment: MediaSegmentView,
    current: EncryptionInfoView,
    index: i64,
) -> MediaSegmentView {
    if current.method == EncryptionMethod::Unencrypted {
        segment
    } else {
        MediaSegmentView {
            encryption: EncryptionInfoView {
                iv: if current.iv is None {
                    Some(iv_of(index as int))
                } else {
                    current.iv
                },
                ..current
            },
            ..segment
        }
    }
}

fn apply_encryption(segment: &mut MediaSegment, current: &EncryptionInfo, segment_index: i64)
    ensures
        final(segment).deep_view() == encrypted_segment(
            old(segment).deep_view(),
            current.deep_view(),
            segment_index,
        ),
{
    if current.method == EncryptionMethod::Unencrypted {
        return;
    }
    let mut info: EncryptionInfo = current.clone();
    if info.iv.is_none() {
        info.iv = Some(default_iv(segment_index));
    }
    segment.encryption = info;
}

/// The encryption before any key line: what the user gave.
pub open spec fn first_encryption(config: ParserConfigView) -> EncryptionInfoView {
    let key = solid_bytes(config.custom_key);
    EncryptionInfoView {
        method: match config.custom_method {
            Some(m) => m,
            None => EncryptionMethod::Unencrypted,
        },
        key,
        iv: solid_bytes(config.custom_iv),
        source: if key is Some {
            KeySource::Custom
        } else {
            KeySource::Absent
        },
        ..no_encryption()
    }
}

fn initial_encryption(config: &ParserConfig) -> (r: EncryptionInfo)
    ensures
        r.deep_view() == first_encryption(config.deep_view()),
{
    let mut info: EncryptionInfo = EncryptionInfo::default();
    match config.custom_method {
        Some(m) => {
            info.method = m;
        },
        None => {},
    }
    match &config.custom_key {
        Some(key) => {
            if key.len() > 0 {
                info.key = Some(copy_bytes(key));
                info.source = KeySource::Custom;
            }
        },
        None => {},
    }
    match &config.custom_iv {
        Some(iv) => {
            if iv.len() > 0 {
                info.iv = Some(copy_bytes(iv));
            }
        },
        None => {},
    }
    info
}

/// A URL of an advertisement of one provider.
pub open spec fn is_ad_url(url: Seq<char>) -> bool {
    (contains(url, "ccode="@) && contains(url, "/ad/"@) && contains(url, "duration="@)) || (
    contains(url, "ccode=0902"@) && contains(url, "duration="@))
}

fn is_provider_ad_segment(url: &str) -> (r: bool)
    ensures
        r == is_ad_url(url@),
{
    (has_text(url, "ccode=") && has_text(url, "/ad/") && has_text(url, "duration=")) || (has_text(
        url,
        "ccode=0902",
    ) && has_text(url, "duration="))
}

/// Encryption that a key line stands for, and the messages about it.
#[derive(Debug)]
pub struct KeyAnswer {
    pub info: EncryptionInfo,
    pub diagnostics: ParserDiagnostics,
}

/// Model of `KeyAnswer`.
pub struct KeyAnswerView {
    pub info: EncryptionInfoView,
    pub diagnostics: Seq<ParserDiagnosticView>,
}

impl DeepView for KeyAnswer {
    type V = KeyAnswerView;

    open spec fn deep_view(&self) -> KeyAnswerView {
        KeyAnswerView {
            info: self.info.deep_view(),
            diagnostics: self.diagnostics.deep_view(),
        }
    }
}

/// Why a playlist could not be read to its end.
#[derive(Debug)]
pub enum HlsStop {
    Fail(Error),
    /// The key of this line has to be loaded first.
    KeyNeeded { line: String },
}

/// Model of `HlsStop`.
pub enum HlsStopView {
    Fail(ErrorView),
    KeyNeeded { line: Seq<char> },
}

impl DeepView for HlsStop {
    type V = HlsStopView;

    open spec fn deep_view(&self) -> HlsStopView {
        match self {
            HlsStop::Fail(e) => HlsStopView::Fail(e.deep_view()),
            HlsStop::KeyNeeded { line } => HlsStopView::KeyNeeded { line: line@ },
        }
    }
}

/// What was read of a media playlist.
struct MediaState {
    parts: Vec<MediaPart>,
    current: Vec<MediaSegment>,
    pending: MediaSegment,
    expect_segment: Choice,
    ended: Choice,
    index: i64,
    encryption: EncryptionInfo,
    last_key_line: String,
    range_next: Option<i64>,
    ad_removed: Choice,
    inside_ad: Choice,
    stopped: Choice,
    target_duration: Option<String>,
    media_init: Option<MediaSegment>,
    keys_used: usize,
    diagnostics: ParserDiagnostics,
}

/// What was read of a media playlist.
pub struct MediaStateView {
    /// The parts that are complete.
    pub parts: Seq<Seq<MediaSegmentView>>,
    /// The segments of the part that is being read.
    pub current: Seq<MediaSegmentView>,
    /// What is known of the next segment.
    pub pending: MediaSegmentView,
    /// Whether the next line without a tag is a segment.
    pub expect_segment: Choice,
    /// Whether the playlist has an end.
    pub ended: Choice,
    /// The number of the next segment.
    pub index: i64,
    /// The encryption in force.
    pub encryption: EncryptionInfoView,
    pub last_key_line: Seq<char>,
    /// Where the next byte range begins unless it says so itself.
    pub range_next: Option<i64>,
    /// Whether an advertisement was left out of the part that is being read.
    pub ad_removed: Choice,
    /// Whether the lines belong to an advertisement.
    pub inside_ad: Choice,
    /// Whether the rest of the playlist does not count.
    pub stopped: Choice,
    pub target_duration: Option<Seq<char>>,
    pub media_init: Option<MediaSegmentView>,
    /// The number of keys that were asked for.
    pub keys_used: int,
    pub diagnostics: Seq<ParserDiagnosticView>,
}

impl DeepView for MediaState {
    type V = MediaStateView;

    closed spec fn deep_view(&self) -> MediaStateView {
        MediaStateView {
            parts: self.parts.deep_view(),
            current: self.current.deep_view(),
            pending: self.pending.deep_view(),
            expect_segment: self.expect_segment,
            ended: self.ended,
            index: self.index,
            encryption: self.encryption.deep_view(),
            last_key_line: self.last_key_line@,
            range_next: self.range_next,
            ad_removed: self.ad_removed,
            inside_ad: self.inside_ad,
            stopped: self.stopped,
            target_duration: self.target_duration.deep_view(),
            media_init: self.media_init.deep_view(),
            keys_used: self.keys_used as int,
            diagnostics: self.diagnostics.deep_view(),
        }
    }
}

/// Nothing read yet.
pub open spec fn media_start(config: ParserConfigView) -> MediaStateView {
    MediaStateView {
        parts: Seq::empty(),
        current: Seq::empty(),
        pending: blank_segment(),
        expect_segment: Choice::No,
        ended: Choice::No,
        index: 0,
        encryption: first_encryption(config),
        last_key_line: ""@,
        range_next: None,
        ad_removed: Choice::No,
        inside_ad: Choice::No,
        stopped: Choice::No,
        target_duration: None,
        media_init: None,
        keys_used: 0,
        diagnostics: Seq::empty(),
    }
}

/// The part that is being read put to the complete ones, where it holds anything.
pub open spec fn part_closed(st: MediaStateView) -> MediaStateView {
    if st.current.len() > 0 {
        MediaStateView { parts: st.parts.push(st.current), current: Seq::empty(), ..st }
    } else {
        st
    }
}

/// The part closed, and byte ranges with it.
pub open spec fn part_and_range_closed(st: MediaStateView) -> MediaStateView {
    if st.current.len() > 0 {
        MediaStateView { range_next: None, ..part_closed(st) }
    } else {
        st
    }
}

/// The messages about the URL in a map line.
pub open spec fn map_notes(value: Seq<char>, url: Seq<char>, config: ParserConfigView) -> Seq<
    ParserDiagnosticView,
> {
    match attribute_of(value, "URI"@) {
        Ok(Some(uri)) => hls_url(uri, url, config).1,
        _ => Seq::empty(),
    }
}

/// The initialization segment that a map line names.
pub open spec fn map_of(
    value: Seq<char>,
    url: Seq<char>,
    config: ParserConfigView,
    encryption: EncryptionInfoView,
    index: i64,
) -> core::result::Result<MediaSegmentView, ErrorView> {
    match attribute_of(value, "URI"@) {
        Err(e) => Err(e),
        Ok(None) => Err(ErrorView::Protocol("#EXT-X-MAP requires URI"@)),
        Ok(Some(uri)) => {
            let bare = MediaSegmentView {
                index: -1i64,
                url: hls_url(uri, url, config).0,
                ..blank_segment()
            };
            let ranged = match attribute_of(value, "BYTERANGE"@) {
                Err(e) => Err(e),
                Ok(None) => Ok(bare),
                Ok(Some(range)) => match byte_range_of(range, Some(0)) {
                    Err(e) => Err(e),
                    Ok((length, start)) => Ok(
                        MediaSegmentView {
                            expected_length: Some(length),
                            start_range: Some(start),
                            ..bare
                        },
                    ),
                },
            };
            match ranged {
                Err(e) => Err(e),
                Ok(segment) => Ok(encrypted_segment(segment, encryption, index)),
            }
        },
    }
}

/// What is read after a byte range, playlist type or provider line.
pub open spec fn after_opening(st: MediaStateView, line: Seq<char>) -> core::result::Result<
    MediaStateView,
    ErrorView,
> {
    if starts_with(line, "#EXT-X-BYTERANGE:"@) {
        match byte_range_of(strip_prefix(line, "#EXT-X-BYTERANGE:"@)->0, st.range_next) {
            Err(e) => Err(e),
            Ok((length, start)) => Ok(
                MediaStateView {
                    pending: MediaSegmentView {
                        expected_length: Some(length),
                        start_range: Some(start),
                        ..st.pending
                    },
                    expect_segment: Choice::Yes,
                    ..st
                },
            ),
        }
    } else if starts_with(line, "#EXT-X-PLAYLIST-TYPE:"@) {
        Ok(
            MediaStateView {
                ended: if ends_with(trim(strip_prefix(line, "#EXT-X-PLAYLIST-TYPE:"@)->0), "VOD"@) {
                    Choice::Yes
                } else {
                    Choice::No
                },
                ..st
            },
        )
    } else if starts_with(line, "#UPLYNK-SEGMENT"@) {
        Ok(
            MediaStateView {
                inside_ad: if contains(line, ",ad"@) {
                    Choice::Yes
                } else if contains(line, ",segment"@) {
                    Choice::No
                } else {
                    st.inside_ad
                },
                ..st
            },
        )
    } else {
        Ok(st)
    }
}

/// What is read after a line that says something of the whole playlist or of what follows.
pub open spec fn after_setting(st: MediaStateView, line: Seq<char>) -> core::result::Result<
    MediaStateView,
    ErrorView,
> {
    if starts_with(line, "#EXT-X-TARGETDURATION:"@) {
        match manifest_number(strip_prefix(line, "#EXT-X-TARGETDURATION:"@)->0) {
            None => Err(ErrorView::Protocol("HLS target duration is invalid"@)),
            Some(n) => Ok(MediaStateView { target_duration: Some(n), ..st }),
        }
    } else if starts_with(line, "#EXT-X-MEDIA-SEQUENCE:"@) {
        match parse_within(
            trim(strip_prefix(line, "#EXT-X-MEDIA-SEQUENCE:"@)->0),
            i64::MIN as int,
            i64::MAX as int,
        ) {
            None => Err(ErrorView::Protocol("HLS media sequence is invalid"@)),
            Some(n) => Ok(MediaStateView { index: n as i64, ..st }),
        }
    } else {
        let value = trim(strip_prefix(line, "#EXT-X-PROGRAM-DATE-TIME:"@)->0);
        match timestamp_of(value, 0) {
            None => Err(ErrorView::Protocol("invalid HLS program date time"@)),
            Some(_) => Ok(
                MediaStateView {
                    pending: MediaSegmentView { program_date_time: Some(value), ..st.pending },
                    ..st
                },
            ),
        }
    }
}

/// A line that says something of the whole playlist or of what follows.
pub open spec fn is_setting(line: Seq<char>) -> bool {
    starts_with(line, "#EXT-X-TARGETDURATION:"@) || starts_with(line, "#EXT-X-MEDIA-SEQUENCE:"@)
        || starts_with(line, "#EXT-X-PROGRAM-DATE-TIME:"@)
}

/// What is read after a discontinuity. Where an advertisement was left out, the part before it goes
/// on.
pub open spec fn after_discontinuity(st: MediaStateView) -> MediaStateView {
    if st.ad_removed == Choice::Yes && st.parts.len() > 0 {
        MediaStateView {
            current: st.parts.last(),
            parts: st.parts.drop_last(),
            ad_removed: Choice::No,
            ..st
        }
    } else {
        part_and_range_closed(st)
    }
}

/// What is read after a segment line with its duration.
pub open spec fn after_extinf(st: MediaStateView, value: Seq<char>) -> core::result::Result<
    MediaStateView,
    ErrorView,
> {
    let duration = match split_once(value, ","@) {
        Some((d, rest)) => d,
        None => value,
    };
    match manifest_number(duration) {
        None => Err(ErrorView::Protocol("#EXTINF duration is invalid"@)),
        Some(n) => Ok(
            MediaStateView {
                pending: encrypted_segment(
                    MediaSegmentView {
                        duration: MediaDurationView::Seconds(n),
                        title: None,
                        index: st.index,
                        ..st.pending
                    },
                    st.encryption,
                    st.index,
                ),
                expect_segment: Choice::Yes,
                index: wrap_i64(st.index + 1) as i64,
                ..st
            },
        ),
    }
}

/// What is read after a map line. A second map ends the playlist unless several are allowed.
pub open spec fn after_map(
    st: MediaStateView,
    value: Seq<char>,
    url: Seq<char>,
    config: ParserConfigView,
) -> core::result::Result<MediaStateView, ErrorView> {
    if st.media_init is None || st.ad_removed == Choice::Yes {
        match map_of(value, url, config, st.encryption, st.index) {
            Err(e) => Err(e),
            Ok(segment) => Ok(
                MediaStateView {
                    media_init: Some(segment),
                    diagnostics: st.diagnostics + map_notes(value, url, config),
                    ..st
                },
            ),
        }
    } else {
        let closed = part_and_range_closed(st);
        Ok(
            if allows_maps(config) {
                closed
            } else {
                MediaStateView { ended: Choice::Yes, stopped: Choice::Yes, ..closed }
            },
        )
    }
}

/// Several maps in one playlist are allowed.
pub open spec fn allows_maps(config: ParserConfigView) -> bool {
    lookup(config.custom_parser_args, "AllowHlsMultiExtMap"@) == Some("true"@)
}

/// What is read after the URL of a segment. An advertisement is left out, and its number is free
/// again.
pub open spec fn after_segment(
    st: MediaStateView,
    line: Seq<char>,
    url: Seq<char>,
    config: ParserConfigView,
) -> MediaStateView {
    let (resolved, notes) = hls_url(line, url, config);
    let segment = MediaSegmentView { url: resolved, ..st.pending };
    let read = MediaStateView {
        pending: blank_segment(),
        expect_segment: Choice::No,
        diagnostics: st.diagnostics + notes,
        ..st
    };
    if is_ad_url(resolved) {
        MediaStateView {
            index: if st.index == i64::MIN {
                st.index
            } else {
                (st.index - 1) as i64
            },
            ad_removed: Choice::Yes,
            ..read
        }
    } else {
        MediaStateView {
            current: st.current.push(segment),
            range_next: match (segment.start_range, segment.expected_length) {
                (Some(start), Some(length)) => Some(wrap_i64(start + length) as i64),
                _ => st.range_next,
            },
            ..read
        }
    }
}

/// What is read after one more line that is not empty.
#[verifier::opaque]
pub open spec fn after_line(
    before: MediaStateView,
    line: Seq<char>,
    url: Seq<char>,
    config: ParserConfigView,
    keys: Seq<KeyAnswerView>,
) -> core::result::Result<MediaStateView, HlsStopView> {
    match after_opening(before, line) {
        Err(e) => Err(HlsStopView::Fail(e)),
        Ok(st) => if starts_with(line, "#UPLYNK-SEGMENT"@) || st.inside_ad == Choice::Yes {
            Ok(st)
        } else if is_setting(line) {
            failing(after_setting(st, line))
        } else if starts_with(line, "#EXT-X-DISCONTINUITY"@) {
            Ok(after_discontinuity(st))
        } else if starts_with(line, "#EXT-X-KEY:"@) {
            if line == st.last_key_line {
                Ok(st)
            } else if st.keys_used < keys.len() {
                Ok(
                    MediaStateView {
                        encryption: keys[st.keys_used].info,
                        diagnostics: st.diagnostics + keys[st.keys_used].diagnostics,
                        keys_used: st.keys_used + 1,
                        last_key_line: line,
                        ..st
                    },
                )
            } else {
                Err(HlsStopView::KeyNeeded { line })
            }
        } else if starts_with(line, "#EXTINF:"@) {
            failing(after_extinf(st, strip_prefix(line, "#EXTINF:"@)->0))
        } else if starts_with(line, "#EXT-X-ENDLIST"@) {
            Ok(MediaStateView { ended: Choice::Yes, ..part_closed(st) })
        } else if starts_with(line, "#EXT-X-MAP:"@) {
            failing(after_map(st, strip_prefix(line, "#EXT-X-MAP:"@)->0, url, config))
        } else if starts_with(line, "#"@) || st.expect_segment == Choice::No {
            Ok(st)
        } else {
            Ok(after_segment(st, line, url, config))
        },
    }
}

/// An error as a reason to stop.
pub open spec fn failing<T>(r: core::result::Result<T, ErrorView>) -> core::result::Result<
    T,
    HlsStopView,
> {
    match r {
        Ok(v) => Ok(v),
        Err(e) => Err(HlsStopView::Fail(e)),
    }
}

/// What is read after the first `n` lines; empty lines do not count, nor lines behind the end.
pub open spec fn after_lines(
    all: Seq<Seq<char>>,
    n: int,
    url: Seq<char>,
    config: ParserConfigView,
    keys: Seq<KeyAnswerView>,
) -> core::result::Result<MediaStateView, HlsStopView>
    decreases n,
{
    if n <= 0 {
        Ok(media_start(config))
    } else {
        match after_lines(all, n - 1, url, config, keys) {
            Err(s) => Err(s),
            Ok(st) => if st.stopped == Choice::Yes || all[n - 1].len() == 0 {
                Ok(st)
            } else {
                after_line(st, all[n - 1], url, config, keys)
            },
        }
    }
}

/// The messages about a line that cannot be read: a map may have a URL that can.
#[verifier::opaque]
pub open spec fn unread_notes(line: Seq<char>, url: Seq<char>, config: ParserConfigView) -> Seq<
    ParserDiagnosticView,
> {
    if starts_with(line, "#EXT-X-MAP:"@) {
        map_notes(strip_prefix(line, "#EXT-X-MAP:"@)->0, url, config)
    } else {
        Seq::empty()
    }
}

/// The messages about the first `n` lines, up to the line where the reading stops.
#[verifier::opaque]
pub open spec fn lines_notes(
    all: Seq<Seq<char>>,
    n: int,
    url: Seq<char>,
    config: ParserConfigView,
    keys: Seq<KeyAnswerView>,
) -> Seq<ParserDiagnosticView>
    decreases n,
{
    match after_lines(all, n, url, config, keys) {
        Ok(st) => st.diagnostics,
        Err(_) => if n <= 0 {
            Seq::empty()
        } else {
            match after_lines(all, n - 1, url, config, keys) {
                Ok(st) => st.diagnostics + unread_notes(all[n - 1], url, config),
                Err(_) => lines_notes(all, n - 1, url, config, keys),
            }
        },
    }
}

/// The messages about the lines of a text, up to the line where the reading stops.
pub open spec fn media_notes(
    text: Seq<char>,
    url: Seq<char>,
    config: ParserConfigView,
    keys: Seq<KeyAnswerView>,
) -> Seq<ParserDiagnosticView> {
    lines_notes(lines(text), lines(text).len() as int, url, config, keys)
}

/// The playlist that the lines of a text make. Without an end it is live.
pub open spec fn media_playlist_of(
    text: Seq<char>,
    url: Seq<char>,
    config: ParserConfigView,
    keys: Seq<KeyAnswerView>,
) -> core::result::Result<PlaylistView, HlsStopView> {
    match after_lines(lines(text), lines(text).len() as int, url, config, keys) {
        Err(s) => Err(s),
        Ok(st) => {
            let live = st.ended == Choice::No;
            Ok(
                PlaylistView {
                    url,
                    is_live: live,
                    refresh_interval: if live {
                        RefreshInterval::TwiceTarget
                    } else {
                        RefreshInterval::Millis(15000)
                    },
                    buffer_depth: None,
                    target_duration: st.target_duration,
                    media_init: st.media_init,
                    media_parts: if live {
                        st.parts.push(st.current)
                    } else {
                        st.parts
                    },
                },
            )
        },
    }
}

/// A result that may also need a key.
pub type HlsResult<T> = core::result::Result<T, HlsStop>;

/// Model of a result that may also need a key.
pub open spec fn view_hls<T: DeepView>(r: HlsResult<T>) -> core::result::Result<T::V, HlsStopView> {
    match r {
        Ok(v) => Ok(v.deep_view()),
        Err(s) => Err(s.deep_view()),
    }
}

fn stop<T>(r: Result<T>) -> (s: HlsResult<T>)
    ensures
        match r {
            Ok(v) => s == HlsResult::Ok(v),
            Err(e) => s is Err && s->Err_0.deep_view() == HlsStopView::Fail(e.deep_view()),
        },
{
    match r {
        Ok(v) => Ok(v),
        Err(e) => Err(HlsStop::Fail(e)),
    }
}

impl MediaState {
    fn start(config: &ParserConfig) -> (r: Self)
        ensures
            r.deep_view() == media_start(config.deep_view()),
    {
        let r = MediaState {
            parts: Vec::new(),
            current: Vec::new(),
            pending: MediaSegment::default(),
            expect_segment: Choice::No,
            ended: Choice::No,
            index: 0,
            encryption: initial_encryption(config),
            last_key_line: owned(""),
            range_next: None,
            ad_removed: Choice::No,
            inside_ad: Choice::No,
            stopped: Choice::No,
            target_duration: None,
            media_init: None,
            keys_used: 0,
            diagnostics: ParserDiagnostics::new(),
        };
        assert(r.parts.deep_view() =~= Seq::<Seq<MediaSegmentView>>::empty());
        assert(r.current.deep_view() =~= Seq::<MediaSegmentView>::empty());
        r
    }

    fn close_part(&mut self)
        ensures
            final(self).deep_view() == part_closed(old(self).deep_view()),
    {
        if self.current.len() > 0 {
            let ghost before = self.deep_view();
            let mut segments: Vec<MediaSegment> = Vec::new();
            core::mem::swap(&mut self.current, &mut segments);
            let part: MediaPart = MediaPart { media_segments: segments };
            let ghost closed = part.deep_view();
            self.parts.push(part);
            assert(self.parts.deep_view() =~= before.parts.push(closed));
            assert(self.current.deep_view() =~= Seq::<MediaSegmentView>::empty());
        }
    }

    fn close_part_and_range(&mut self)
        ensures
            final(self).deep_view() == part_and_range_closed(old(self).deep_view()),
    {
        if self.current.len() > 0 {
            self.close_part();
            self.range_next = None;
        }
    }

    fn opening(&mut self, line: &str) -> (r: Result<()>)
        ensures
            match r {
                Ok(_) => after_opening(old(self).deep_view(), line@) == Ok::<
                    MediaStateView,
                    ErrorView,
                >(final(self).deep_view()),
                Err(e) => after_opening(old(self).deep_view(), line@) == Err::<
                    MediaStateView,
                    ErrorView,
                >(e.deep_view()) && final(self).diagnostics == old(self).diagnostics,
            },
    {
        match without_prefix(line, "#EXT-X-BYTERANGE:") {
            Some(value) => {
                let (length, start): (i64, i64) = parse_byte_range(value, self.range_next)?;
                self.pending.expected_length = Some(length);
                self.pending.start_range = Some(start);
                self.expect_segment = Choice::Yes;
                return Ok(());
            },
            None => {},
        }
        match without_prefix(line, "#EXT-X-PLAYLIST-TYPE:") {
            Some(value) => {
                self.ended = if finishes_with(trimmed(value), "VOD") {
                    Choice::Yes
                } else {
                    Choice::No
                };
                return Ok(());
            },
            None => {},
        }
        if begins_with(line, "#UPLYNK-SEGMENT") {
            if has_text(line, ",ad") {
                self.inside_ad = Choice::Yes;
            } else if has_text(line, ",segment") {
                self.inside_ad = Choice::No;
            }
        }
        Ok(())
    }

    fn setting(&mut self, line: &str) -> (r: Result<()>)
        requires
            is_setting(line@),
        ensures
            match r {
                Ok(_) => after_setting(old(self).deep_view(), line@) == Ok::<
                    MediaStateView,
                    ErrorView,
                >(final(self).deep_view()),
                Err(e) => after_setting(old(self).deep_view(), line@) == Err::<
                    MediaStateView,
                    ErrorView,
                >(e.deep_view()) && final(self).diagnostics == old(self).diagnostics,
            },
    {
        proof {
            reveal_strlit("HLS target duration");
            reveal_strlit(" is invalid");
            reveal_strlit("HLS target duration is invalid");
            assert("HLS target duration"@ + " is invalid"@ =~= "HLS target duration is invalid"@);
        }
        match without_prefix(line, "#EXT-X-TARGETDURATION:") {
            Some(value) => {
                let number: String = parse_manifest_number(value, "HLS target duration")?;
                self.target_duration = Some(number);
                return Ok(());
            },
            None => {},
        }
        match without_prefix(line, "#EXT-X-MEDIA-SEQUENCE:") {
            Some(value) => {
                match parse_i64_text(trimmed(value)) {
                    Some(n) => {
                        self.index = n;
                    },
                    None => {
                        return Err(Error::protocol("HLS media sequence is invalid"));
                    },
                }
                return Ok(());
            },
            None => {},
        }
        match without_prefix(line, "#EXT-X-PROGRAM-DATE-TIME:") {
            Some(value) => {
                let text: &str = trimmed(value);
                if parse_manifest_timestamp_at(text, 0).is_none() {
                    return Err(Error::protocol("invalid HLS program date time"));
                }
                self.pending.program_date_time = Some(owned(text));
            },
            None => {},
        }
        Ok(())
    }

    fn discontinuity(&mut self)
        ensures
            final(self).deep_view() == after_discontinuity(old(self).deep_view()),
    {
        if self.ad_removed == Choice::Yes && self.parts.len() > 0 {
            let ghost before = self.parts.deep_view();
            match self.parts.pop() {
                Some(part) => {
                    assert(before.last() == part.deep_view());
                    self.current = part.media_segments;
                },
                None => {},
            }
            assert(self.parts.deep_view() =~= before.drop_last());
            self.ad_removed = Choice::No;
            return;
        }
        self.close_part_and_range();
    }

    fn extinf(&mut self, value: &str) -> (r: Result<()>)
        ensures
            match r {
                Ok(_) => after_extinf(old(self).deep_view(), value@) == Ok::<
                    MediaStateView,
                    ErrorView,
                >(final(self).deep_view()),
                Err(e) => after_extinf(old(self).deep_view(), value@) == Err::<
                    MediaStateView,
                    ErrorView,
                >(e.deep_view()) && final(self).diagnostics == old(self).diagnostics,
            },
    {
        proof {
            reveal_strlit("#EXTINF duration");
            reveal_strlit(" is invalid");
            reveal_strlit("#EXTINF duration is invalid");
            assert("#EXTINF duration"@ + " is invalid"@ =~= "#EXTINF duration is invalid"@);
        }
        let text: &str = match cut_once(value, ",") {
            Some((d, _)) => d,
            None => value,
        };
        let number: String = parse_manifest_number(text, "#EXTINF duration")?;
        self.pending.duration = MediaDuration::Seconds(number);
        self.pending.title = None;
        self.pending.index = self.index;
        apply_encryption(&mut self.pending, &self.encryption, self.index);
        self.expect_segment = Choice::Yes;
        self.index = self.index.wrapping_add(1);
        Ok(())
    }

    fn map(&mut self, value: &str, url: &str, config: &ParserConfig) -> (r: Result<()>)
        ensures
            match r {
                Ok(_) => after_map(old(self).deep_view(), value@, url@, config.deep_view()) == Ok::<
                    MediaStateView,
                    ErrorView,
                >(final(self).deep_view()),
                Err(e) => after_map(old(self).deep_view(), value@, url@, config.deep_view())
                    == Err::<MediaStateView, ErrorView>(e.deep_view())
                    && final(self).deep_view().diagnostics == old(self).deep_view().diagnostics
                    + map_notes(value@, url@, config.deep_view()),
            },
    {
        if self.media_init.is_none() || self.ad_removed == Choice::Yes {
            let segment: MediaSegment = parse_map(
                value,
                url,
                config,
                &self.encryption,
                self.index,
                &mut self.diagnostics,
            )?;
            self.media_init = Some(segment);
            return Ok(());
        }
        self.close_part_and_range();
        let allowed: bool = match config.custom_parser_args.get("AllowHlsMultiExtMap") {
            Some(v) => same(v.as_str(), "true"),
            None => false,
        };
        if !allowed {
            self.ended = Choice::Yes;
            self.stopped = Choice::Yes;
        }
        Ok(())
    }

    fn segment(&mut self, line: &str, url: &str, config: &ParserConfig)
        ensures
            final(self).deep_view() == after_segment(
                old(self).deep_view(),
                line@,
                url@,
                config.deep_view(),
            ),
    {
        let ghost before = self.deep_view();
        let resolved: String = process_url(line, url, config, &mut self.diagnostics);
        let ad: bool = is_provider_ad_segment(resolved.as_str());
        let mut segment: MediaSegment = MediaSegment::default();
        core::mem::swap(&mut self.pending, &mut segment);
        self.expect_segment = Choice::No;
        if ad {
            if self.index != i64::MIN {
                self.index = self.index - 1;
            }
            self.ad_removed = Choice::Yes;
            return;
        }
        segment.url = resolved;
        match (segment.start_range, segment.expected_length) {
            (Some(start), Some(length)) => {
                self.range_next = Some(start.wrapping_add(length));
            },
            _ => {},
        }
        let ghost view = segment.deep_view();
        self.current.push(segment);
        assert(self.current.deep_view() =~= before.current.push(view));
    }

    fn line(
        &mut self,
        line: &str,
        url: &str,
        config: &ParserConfig,
        keys: &Vec<KeyAnswer>,
    ) -> (r: HlsResult<()>)
        ensures
            match r {
                Ok(_) => after_line(
                    old(self).deep_view(),
                    line@,
                    url@,
                    config.deep_view(),
                    keys.deep_view(),
                ) == Ok::<MediaStateView, HlsStopView>(final(self).deep_view()),
                Err(s) => after_line(
                    old(self).deep_view(),
                    line@,
                    url@,
                    config.deep_view(),
                    keys.deep_view(),
                ) == Err::<MediaStateView, HlsStopView>(s.deep_view())
                    && final(self).deep_view().diagnostics == old(self).deep_view().diagnostics
                    + unread_notes(line@, url@, config.deep_view()),
            },
    {
        proof {
            reveal(after_line);
            reveal(unread_notes);
            lemma_map_line(line@);
            let said = self.diagnostics.deep_view();
            assert(said + Seq::<ParserDiagnosticView>::empty() =~= said);
        }
        stop(self.opening(line))?;
        if begins_with(line, "#UPLYNK-SEGMENT") || self.inside_ad == Choice::Yes {
            return Ok(());
        }
        if begins_with(line, "#EXT-X-TARGETDURATION:") || begins_with(
            line,
            "#EXT-X-MEDIA-SEQUENCE:",
        ) || begins_with(line, "#EXT-X-PROGRAM-DATE-TIME:") {
            return stop(self.setting(line));
        }
        if begins_with(line, "#EXT-X-DISCONTINUITY") {
            self.discontinuity();
            return Ok(());
        }
        if begins_with(line, "#EXT-X-KEY:") {
            if same(line, self.last_key_line.as_str()) {
                return Ok(());
            }
            if self.keys_used < keys.len() {
                let answer: &KeyAnswer = &keys[self.keys_used];
                assert(keys.deep_view()[self.keys_used as int] == answer.deep_view());
                self.encryption = answer.info.clone();
                self.diagnostics.extend(&answer.diagnostics);
                self.keys_used = self.keys_used + 1;
                self.last_key_line = owned(line);
                return Ok(());
            }
            return Err(HlsStop::KeyNeeded { line: owned(line) });
        }
        match without_prefix(line, "#EXTINF:") {
            Some(value) => {
                return stop(self.extinf(value));
            },
            None => {},
        }
        if begins_with(line, "#EXT-X-ENDLIST") {
            self.close_part();
            self.ended = Choice::Yes;
            return Ok(());
        }
        match without_prefix(line, "#EXT-X-MAP:") {
            Some(value) => {
                return stop(self.map(value, url, config));
            },
            None => {},
        }
        if begins_with(line, "#") || self.expect_segment == Choice::No {
            return Ok(());
        }
        self.segment(line, url, config);
        Ok(())
    }
}

/// A map line is of no kind that an earlier test catches and that can fail.
proof fn lemma_map_line(line: Seq<char>)
    ensures
        starts_with(line, "#EXT-X-MAP:"@) ==> !starts_with(line, "#EXT-X-BYTERANGE:"@) && !is_setting(
            line,
        ) && !starts_with(line, "#EXT-X-KEY:"@) && !starts_with(line, "#EXTINF:"@),
{
    reveal_strlit("#EXT-X-MAP:");
    reveal_strlit("#EXT-X-BYTERANGE:");
    reveal_strlit("#EXT-X-TARGETDURATION:");
    reveal_strlit("#EXT-X-MEDIA-SEQUENCE:");
    reveal_strlit("#EXT-X-PROGRAM-DATE-TIME:");
    reveal_strlit("#EXT-X-KEY:");
    reveal_strlit("#EXTINF:");
    if starts_with(line, "#EXT-X-MAP:"@) {
        let head = line.take(11);
        assert(head[4] == '-' && head[7] == 'M' && head[8] == 'A');
        assert(line[4] == '-' && line[7] == 'M' && line[8] == 'A');
        if starts_with(line, "#EXT-X-BYTERANGE:"@) {
            assert(line.take(17)[7] == 'B');
        }
        if starts_with(line, "#EXT-X-TARGETDURATION:"@) {
            assert(line.take(22)[7] == 'T');
        }
        if starts_with(line, "#EXT-X-MEDIA-SEQUENCE:"@) {
            assert(line.take(22)[8] == 'E');
        }
        if starts_with(line, "#EXT-X-PROGRAM-DATE-TIME:"@) {
            assert(line.take(25)[7] == 'P');
        }
        if starts_with(line, "#EXT-X-KEY:"@) {
            assert(line.take(11)[7] == 'K');
        }
        if starts_with(line, "#EXTINF:"@) {
            assert(line.take(8)[4] == 'I');
        }
    }
}

fn parse_map(
    value: &str,
    url: &str,
    config: &ParserConfig,
    encryption: &EncryptionInfo,
    index: i64,
    diagnostics: &mut ParserDiagnostics,
) -> (r: Result<MediaSegment>)
    ensures
        view_result(r) == map_of(
            value@,
            url@,
            config.deep_view(),
            encryption.deep_view(),
            index,
        ),
        final(diagnostics).deep_view() == old(diagnostics).deep_view() + map_notes(
            value@,
            url@,
            config.deep_view(),
        ),
{
    let ghost said = diagnostics.deep_view();
    assert(said + Seq::<ParserDiagnosticView>::empty() =~= said);
    let uri: String = match hls_attribute(value, "URI")? {
        Some(uri) => uri,
        None => {
            return Err(Error::protocol("#EXT-X-MAP requires URI"));
        },
    };
    let mut segment: MediaSegment = MediaSegment::default();
    segment.index = -1;
    segment.url = process_url(uri.as_str(), url, config, diagnostics);
    match hls_attribute(value, "BYTERANGE")? {
        Some(range) => {
            let (length, start): (i64, i64) = parse_byte_range(range.as_str(), Some(0))?;
            segment.expected_length = Some(length);
            segment.start_range = Some(start);
        },
        None => {},
    }
    apply_encryption(&mut segment, encryption, index);
    Ok(segment)
}

/// The playlist that the lines of a text make, with the keys that were loaded so far. Where a key is
/// missing, the messages are those up to its line.
pub fn parse_media_playlist(
    text: &str,
    url: &str,
    config: &ParserConfig,
    keys: &Vec<KeyAnswer>,
    diagnostics: &mut ParserDiagnostics,
) -> (r: HlsResult<Playlist>)
    ensures
        view_hls(r) == media_playlist_of(text@, url@, config.deep_view(), keys.deep_view()),
        final(diagnostics).deep_view() == old(diagnostics).deep_view() + media_notes(
            text@,
            url@,
            config.deep_view(),
            keys.deep_view(),
        ),
{
    let all: Vec<String> = lines_text(text);
    let ghost views = all.deep_view();
    let ghost c = config.deep_view();
    let ghost k = keys.deep_view();
    let mut state: MediaState = MediaState::start(config);
    let mut i: usize = 0;
    while i < all.len()
        invariant
            i <= all@.len(),
            views == all.deep_view(),
            views == lines(text@),
            c == config.deep_view(),
            k == keys.deep_view(),
            after_lines(views, i as int, url@, c, k) == Ok::<MediaStateView, HlsStopView>(
                state.deep_view(),
            ),
            diagnostics.deep_view() == old(diagnostics).deep_view(),
        decreases all@.len() - i,
    {
        assert(views[i as int] == all@[i as int]@);
        if state.stopped == Choice::No && all[i].as_str().unicode_len() > 0 {
            match state.line(all[i].as_str(), url, config, keys) {
                Ok(_) => {},
                Err(s) => {
                    proof {
                        lemma_lines_notes(views, i + 1, url@, c, k);
                        lemma_stop_is_final(views, i + 1, url@, c, k);
                    }
                    diagnostics.extend(&state.diagnostics);
                    return Err(s);
                },
            }
        }
        i = i + 1;
    }
    proof {
        lemma_lines_notes(views, i as int, url@, c, k);
    }
    let live: bool = state.ended == Choice::No;
    let ghost end = state.deep_view();
    let MediaState {
        parts,
        current,
        pending: _,
        expect_segment: _,
        ended: _,
        index: _,
        encryption: _,
        last_key_line: _,
        range_next: _,
        ad_removed: _,
        inside_ad: _,
        stopped: _,
        target_duration,
        media_init,
        keys_used: _,
        diagnostics: said,
    } = state;
    diagnostics.extend(&said);
    let mut parts: Vec<MediaPart> = parts;
    if live {
        let part: MediaPart = MediaPart { media_segments: current };
        let ghost view = part.deep_view();
        parts.push(part);
        assert(parts.deep_view() =~= end.parts.push(view));
    }
    Ok(
        Playlist {
            url: owned(url),
            is_live: live,
            refresh_interval: if live {
                RefreshInterval::TwiceTarget
            } else {
                RefreshInterval::Millis(15000)
            },
            buffer_depth: None,
            target_duration,
            media_init,
            media_parts: parts,
        },
    )
}

/// The messages about the first lines are those of the state, or those of the state before the line
/// where the reading stops and the ones about that line.
proof fn lemma_lines_notes(
    all: Seq<Seq<char>>,
    n: int,
    url: Seq<char>,
    config: ParserConfigView,
    keys: Seq<KeyAnswerView>,
)
    requires
        0 <= n <= all.len(),
    ensures
        after_lines(all, n, url, config, keys) is Ok ==> lines_notes(all, n, url, config, keys)
            == after_lines(all, n, url, config, keys)->Ok_0.diagnostics,
        n > 0 && after_lines(all, n, url, config, keys) is Err && after_lines(
            all,
            n - 1,
            url,
            config,
            keys,
        ) is Ok ==> lines_notes(all, n, url, config, keys) == after_lines(
            all,
            n - 1,
            url,
            config,
            keys,
        )->Ok_0.diagnostics + unread_notes(all[n - 1], url, config),
{
    reveal(lines_notes);
}

/// What stops the reading stops it for good.
proof fn lemma_stop_is_final(
    all: Seq<Seq<char>>,
    n: int,
    url: Seq<char>,
    config: ParserConfigView,
    keys: Seq<KeyAnswerView>,
)
    requires
        0 <= n <= all.len(),
        after_lines(all, n, url, config, keys) is Err,
    ensures
        after_lines(all, all.len() as int, url, config, keys) == after_lines(
            all,
            n,
            url,
            config,
            keys,
        ),
        lines_notes(all, all.len() as int, url, config, keys) == lines_notes(
            all,
            n,
            url,
            config,
            keys,
        ),
    decreases all.len() - n,
{
    if n < all.len() {
        reveal(lines_notes);
        lemma_stop_is_final(all, n + 1, url, config, keys);
    }
}

/// No complete part is empty.
pub open spec fn parts_are_solid(parts: Seq<Seq<MediaSegmentView>>) -> bool {
    forall|i: int| 0 <= i < parts.len() ==> (#[trigger] parts[i]).len() > 0
}

proof fn lemma_line_keeps_parts_solid(
    st: MediaStateView,
    line: Seq<char>,
    url: Seq<char>,
    config: ParserConfigView,
    keys: Seq<KeyAnswerView>,
)
    requires
        parts_are_solid(st.parts),
        after_line(st, line, url, config, keys) is Ok,
    ensures
        parts_are_solid(after_line(st, line, url, config, keys)->Ok_0.parts),
{
    reveal(after_line);
    let opened = after_opening(st, line)->Ok_0;
    assert(opened.parts == st.parts);
    let next = after_line(st, line, url, config, keys)->Ok_0;
    assert(next.parts == st.parts || next.parts == st.parts.push(opened.current) && opened.current.len()
        > 0 || next.parts == st.parts.drop_last());
}

proof fn lemma_lines_keep_parts_solid(
    all: Seq<Seq<char>>,
    n: int,
    url: Seq<char>,
    config: ParserConfigView,
    keys: Seq<KeyAnswerView>,
)
    requires
        0 <= n <= all.len(),
        after_lines(all, n, url, config, keys) is Ok,
    ensures
        parts_are_solid(after_lines(all, n, url, config, keys)->Ok_0.parts),
    decreases n,
{
    if n > 0 {
        lemma_lines_keep_parts_solid(all, n - 1, url, config, keys);
        let st = after_lines(all, n - 1, url, config, keys)->Ok_0;
        if st.stopped == Choice::No && all[n - 1].len() > 0 {
            lemma_line_keeps_parts_solid(st, all[n - 1], url, config, keys);
        }
    }
}

/// A playlist with an end has no empty parts.
pub proof fn law_ended_playlist_has_solid_parts(
    text: Seq<char>,
    url: Seq<char>,
    config: ParserConfigView,
    keys: Seq<KeyAnswerView>,
)
    requires
        media_playlist_of(text, url, config, keys) is Ok,
    ensures
        !media_playlist_of(text, url, config, keys)->Ok_0.is_live ==> parts_are_solid(
            media_playlist_of(text, url, config, keys)->Ok_0.media_parts,
        ),
{
    lemma_lines_keep_parts_solid(lines(text), lines(text).len() as int, url, config, keys);
}

/// A key line that repeats the one before it asks for nothing and changes nothing.
pub proof fn law_repeated_key_line_changes_nothing(
    st: MediaStateView,
    line: Seq<char>,
    url: Seq<char>,
    config: ParserConfigView,
    keys: Seq<KeyAnswerView>,
)
    requires
        starts_with(line, "#EXT-X-KEY:"@),
        line == st.last_key_line,
    ensures
        after_line(st, line, url, config, keys) == Ok::<MediaStateView, HlsStopView>(st),
{
    reveal(after_line);
    reveal_strlit("#EXT-X-KEY:");
    reveal_strlit("#EXT-X-BYTERANGE:");
    reveal_strlit("#EXT-X-PLAYLIST-TYPE:");
    reveal_strlit("#UPLYNK-SEGMENT");
    reveal_strlit("#EXT-X-TARGETDURATION:");
    reveal_strlit("#EXT-X-MEDIA-SEQUENCE:");
    reveal_strlit("#EXT-X-PROGRAM-DATE-TIME:");
    reveal_strlit("#EXT-X-DISCONTINUITY");
    assert(line.subrange(0, 11)[7] == 'K');
    assert(line[7] == 'K');
    assert(line.subrange(0, 11)[1] == 'E');
    assert(line[1] == 'E');
    if starts_with(line, "#EXT-X-BYTERANGE:"@) {
        assert(line.subrange(0, 17)[7] == 'B');
    }
    if starts_with(line, "#EXT-X-PLAYLIST-TYPE:"@) {
        assert(line.subrange(0, 21)[7] == 'P');
    }
    if starts_with(line, "#UPLYNK-SEGMENT"@) {
        assert(line.subrange(0, 15)[1] == 'U');
    }
    if starts_with(line, "#EXT-X-TARGETDURATION:"@) {
        assert(line.subrange(0, 22)[7] == 'T');
    }
    if starts_with(line, "#EXT-X-MEDIA-SEQUENCE:"@) {
        assert(line.subrange(0, 22)[7] == 'M');
    }
    if starts_with(line, "#EXT-X-PROGRAM-DATE-TIME:"@) {
        assert(line.subrange(0, 25)[7] == 'P');
    }
    if starts_with(line, "#EXT-X-DISCONTINUITY"@) {
        assert(line.subrange(0, 20)[7] == 'D');
    }
}

/// A number of a variant; zero where it is missing.
pub open spec fn hls_int(value: Option<Seq<char>>) -> core::result::Result<i64, ErrorView> {
    match value {
        None => Ok(0i64),
        Some(v) => match parse_within(trim(v), i32::MIN as int, i32::MAX as int) {
            Some(n) => Ok(n as i64),
            None => Err(ErrorView::Protocol("HLS bandwidth is invalid"@)),
        },
    }
}

fn parse_hls_int_as_i64(value: &Option<String>) -> (r: Result<i64>)
    ensures
        match r {
            Ok(n) => hls_int(value.deep_view()) == Ok::<i64, ErrorView>(n),
            Err(e) => hls_int(value.deep_view()) == Err::<i64, ErrorView>(e.deep_view()),
        },
{
    match value {
        None => Ok(0),
        Some(v) => match parse_i32_text(trimmed(v.as_str())) {
            Some(n) => Ok(n as i64),
            None => Err(Error::protocol("HLS bandwidth is invalid")),
        },
    }
}

/// The bandwidth of a variant: the average where it is stated.
pub open spec fn variant_bandwidth(value: Seq<char>) -> core::result::Result<i64, ErrorView> {
    match solid_attribute(value, "AVERAGE-BANDWIDTH"@) {
        Err(e) => Err(e),
        Ok(Some(v)) => hls_int(Some(v)),
        Ok(None) => match attribute_of(value, "BANDWIDTH"@) {
            Err(e) => Err(e),
            Ok(v) => hls_int(v),
        },
    }
}

/// The first of the codecs, where the sound comes from another stream.
pub open spec fn variant_codecs(codecs: Option<Seq<char>>, audio: Option<Seq<char>>) -> Option<
    Seq<char>,
> {
    match codecs {
        Some(c) => if audio is Some {
            Some(split(c, ","@)[0])
        } else {
            Some(c)
        },
        None => None,
    }
}

/// The frame rate of a variant.
pub open spec fn variant_frame_rate(value: Seq<char>) -> core::result::Result<
    Option<Seq<char>>,
    ErrorView,
> {
    match solid_attribute(value, "FRAME-RATE"@) {
        Err(e) => Err(e),
        Ok(None) => Ok(None),
        Ok(Some(v)) => match manifest_number(v) {
            Some(n) => Ok(Some(n)),
            None => Err(ErrorView::Protocol("HLS frame rate is invalid"@)),
        },
    }
}

/// The stream that a variant line describes, without its URL.
pub open spec fn variant_of(value: Seq<char>, config: ParserConfigView) -> core::result::Result<
    StreamView,
    ErrorView,
> {
    match (
        variant_bandwidth(value),
        solid_attribute(value, "AUDIO"@),
        attribute_of(value, "CODECS"@),
        variant_frame_rate(value),
    ) {
        (Err(e), _, _, _) => Err(e),
        (_, Err(e), _, _) => Err(e),
        (_, _, Err(e), _) => Err(e),
        (_, _, _, Err(e)) => Err(e),
        (Ok(bandwidth), Ok(audio_id), Ok(codecs), Ok(frame_rate)) => match (
            attribute_of(value, "RESOLUTION"@),
            solid_attribute(value, "VIDEO"@),
            solid_attribute(value, "SUBTITLES"@),
            solid_attribute(value, "VIDEO-RANGE"@),
        ) {
            (Err(e), _, _, _) => Err(e),
            (_, Err(e), _, _) => Err(e),
            (_, _, Err(e), _) => Err(e),
            (_, _, _, Err(e)) => Err(e),
            (Ok(resolution), Ok(video_id), Ok(subtitle_id), Ok(video_range)) => Ok(
                StreamView {
                    original_url: config.original_url,
                    bandwidth: Some(bandwidth),
                    codecs: variant_codecs(codecs, audio_id),
                    resolution,
                    frame_rate,
                    audio_id,
                    video_id,
                    subtitle_id,
                    video_range,
                    ..blank_stream()
                },
            ),
        },
    }
}

fn parse_variant(value: &str, config: &ParserConfig) -> (r: Result<Stream>)
    ensures
        view_result(r) == variant_of(value@, config.deep_view()),
{
    proof {
        reveal_strlit("HLS frame rate");
        reveal_strlit(" is invalid");
        reveal_strlit("HLS frame rate is invalid");
        reveal_strlit(",");
        assert("HLS frame rate"@ + " is invalid"@ =~= "HLS frame rate is invalid"@);
    }
    let average: Option<String> = non_empty_hls_attribute(value, "AVERAGE-BANDWIDTH")?;
    let stated: Option<String> = if average.is_some() {
        average
    } else {
        hls_attribute(value, "BANDWIDTH")?
    };
    let bandwidth: i64 = parse_hls_int_as_i64(&stated)?;
    let audio_id: Option<String> = non_empty_hls_attribute(value, "AUDIO")?;
    let all_codecs: Option<String> = hls_attribute(value, "CODECS")?;
    let codecs: Option<String> = match all_codecs {
        Some(c) => {
            if audio_id.is_some() {
                let pieces: Vec<String> = split_text(c.as_str(), ",");
                proof {
                    crate::text::lemma_split_not_empty(c@, ","@);
                    assert(pieces.deep_view()[0] == pieces@[0]@);
                }
                Some(pieces[0].clone())
            } else {
                Some(c)
            }
        },
        None => None,
    };
    let frame_rate: Option<String> = match non_empty_hls_attribute(value, "FRAME-RATE")? {
        Some(v) => Some(parse_manifest_number(v.as_str(), "HLS frame rate")?),
        None => None,
    };
    let mut stream: Stream = Stream::default();
    stream.original_url = config.original_url.clone();
    stream.bandwidth = Some(bandwidth);
    stream.codecs = codecs;
    stream.resolution = hls_attribute(value, "RESOLUTION")?;
    stream.frame_rate = frame_rate;
    stream.audio_id = audio_id;
    stream.video_id = non_empty_hls_attribute(value, "VIDEO")?;
    stream.subtitle_id = non_empty_hls_attribute(value, "SUBTITLES")?;
    stream.video_range = non_empty_hls_attribute(value, "VIDEO-RANGE")?;
    Ok(stream)
}

/// The kind of a rendition; none where it is captions, which are not streams.
pub open spec fn rendition_type(token: Seq<char>) -> Option<Option<MediaType>> {
    let name = replace(token, "-"@, "_"@);
    if name == "AUDIO"@ {
        Some(Some(MediaType::Audio))
    } else if name == "VIDEO"@ {
        Some(Some(MediaType::Video))
    } else if name == "SUBTITLES"@ {
        Some(Some(MediaType::Subtitles))
    } else if name == "CLOSED_CAPTIONS"@ {
        None
    } else {
        Some(None)
    }
}

/// The last of the characteristics, without what precedes its last dot.
pub open spec fn last_characteristic(value: Option<Seq<char>>) -> Option<Seq<char>> {
    match value {
        Some(v) => Some(split(split(v, ","@).last(), "."@).last()),
        None => None,
    }
}

/// The messages about the URL in a rendition line.
pub open spec fn rendition_notes(value: Seq<char>, url: Seq<char>, config: ParserConfigView) -> Seq<
    ParserDiagnosticView,
> {
    match (attribute_of(value, "TYPE"@), solid_attribute(value, "URI"@)) {
        (Ok(Some(token)), Ok(Some(uri))) => if rendition_type(token) is Some {
            hls_url(uri, url, config).1
        } else {
            Seq::empty()
        },
        _ => Seq::empty(),
    }
}

/// The stream that a rendition line describes. Captions, and a rendition without a URI, are no
/// streams.
pub open spec fn rendition_of(value: Seq<char>, url: Seq<char>, config: ParserConfigView) -> core::result::Result<
    Option<StreamView>,
    ErrorView,
> {
    match attribute_of(value, "TYPE"@) {
        Err(e) => Err(e),
        Ok(None) => Err(ErrorView::Protocol("HLS media rendition requires TYPE"@)),
        Ok(Some(token)) => match rendition_type(token) {
            None => Ok(None),
            Some(media_type) => match solid_attribute(value, "URI"@) {
                Err(e) => Err(e),
                Ok(None) => Ok(None),
                Ok(Some(uri)) => {
                    let stream_url = hls_url(uri, url, config).0;
                    match (
                        solid_attribute(value, "CHARACTERISTICS"@),
                        attribute_of(value, "GROUP-ID"@),
                        solid_attribute(value, "LANGUAGE"@),
                        solid_attribute(value, "NAME"@),
                        solid_attribute(value, "CHANNELS"@),
                    ) {
                        (Err(e), _, _, _, _) => Err(e),
                        (_, Err(e), _, _, _) => Err(e),
                        (_, _, Err(e), _, _) => Err(e),
                        (_, _, _, Err(e), _) => Err(e),
                        (_, _, _, _, Err(e)) => Err(e),
                        (Ok(characteristics), Ok(group_id), Ok(language), Ok(name), Ok(channels)) => Ok(
                            Some(
                                StreamView {
                                    id: stream_url,
                                    media_type,
                                    group_id,
                                    language,
                                    name,
                                    channels,
                                    characteristics: last_characteristic(characteristics),
                                    url: stream_url,
                                    original_url: config.original_url,
                                    ..blank_stream()
                                },
                            ),
                        ),
                    }
                },
            },
        },
    }
}

fn last_piece(value: &str) -> (r: String)
    ensures
        r@ == split(split(value@, ","@).last(), "."@).last(),
{
    proof {
        reveal_strlit(",");
        reveal_strlit(".");
        crate::text::lemma_split_not_empty(value@, ","@);
    }
    let items: Vec<String> = split_text(value, ",");
    assert(items.deep_view().last() == items@.last()@);
    let item: &String = &items[items.len() - 1];
    proof {
        crate::text::lemma_split_not_empty(item@, "."@);
    }
    let pieces: Vec<String> = split_text(item.as_str(), ".");
    assert(pieces.deep_view().last() == pieces@.last()@);
    pieces[pieces.len() - 1].clone()
}

fn parse_media_rendition(
    value: &str,
    url: &str,
    config: &ParserConfig,
    diagnostics: &mut ParserDiagnostics,
) -> (r: Result<Option<Stream>>)
    ensures
        view_result(r) == rendition_of(value@, url@, config.deep_view()),
        final(diagnostics).deep_view() == old(diagnostics).deep_view() + rendition_notes(
            value@,
            url@,
            config.deep_view(),
        ),
{
    let ghost said = diagnostics.deep_view();
    proof {
        reveal_strlit("-");
        assert(said + Seq::<ParserDiagnosticView>::empty() =~= said);
    }
    let token: String = match hls_attribute(value, "TYPE")? {
        Some(t) => t,
        None => {
            return Err(Error::protocol("HLS media rendition requires TYPE"));
        },
    };
    let name: String = replace_text(token.as_str(), "-", "_");
    let media_type: Option<MediaType> = if same(name.as_str(), "AUDIO") {
        Some(MediaType::Audio)
    } else if same(name.as_str(), "VIDEO") {
        Some(MediaType::Video)
    } else if same(name.as_str(), "SUBTITLES") {
        Some(MediaType::Subtitles)
    } else if same(name.as_str(), "CLOSED_CAPTIONS") {
        return Ok(None);
    } else {
        None
    };
    let uri: String = match non_empty_hls_attribute(value, "URI")? {
        Some(uri) => uri,
        None => {
            return Ok(None);
        },
    };
    let stream_url: String = process_url(uri.as_str(), url, config, diagnostics);
    let characteristics: Option<String> = match non_empty_hls_attribute(value, "CHARACTERISTICS")? {
        Some(v) => Some(last_piece(v.as_str())),
        None => None,
    };
    let mut stream: Stream = Stream::default();
    stream.id = stream_url.clone();
    stream.media_type = media_type;
    stream.group_id = hls_attribute(value, "GROUP-ID")?;
    stream.language = non_empty_hls_attribute(value, "LANGUAGE")?;
    stream.name = non_empty_hls_attribute(value, "NAME")?;
    stream.channels = non_empty_hls_attribute(value, "CHANNELS")?;
    stream.characteristics = characteristics;
    stream.url = stream_url;
    stream.original_url = config.original_url.clone();
    Ok(Some(stream))
}

/// What was read of a master playlist.
pub struct MasterState {
    pub streams: Seq<StreamView>,
    /// The variant whose URL has not come yet.
    pub pending: Option<StreamView>,
    pub diagnostics: Seq<ParserDiagnosticView>,
}

/// What is read after one more line that is not empty.
pub open spec fn master_line(
    st: MasterState,
    line: Seq<char>,
    url: Seq<char>,
    config: ParserConfigView,
) -> core::result::Result<MasterState, ErrorView> {
    if starts_with(line, "#EXT-X-STREAM-INF:"@) {
        match variant_of(strip_prefix(line, "#EXT-X-STREAM-INF:"@)->0, config) {
            Err(e) => Err(e),
            Ok(variant) => Ok(MasterState { pending: Some(variant), ..st }),
        }
    } else if starts_with(line, "#EXT-X-MEDIA:"@) {
        match rendition_of(strip_prefix(line, "#EXT-X-MEDIA:"@)->0, url, config) {
            Err(e) => Err(e),
            Ok(None) => Ok(st),
            Ok(Some(stream)) => Ok(
                MasterState {
                    streams: st.streams.push(stream),
                    diagnostics: st.diagnostics + rendition_notes(
                        strip_prefix(line, "#EXT-X-MEDIA:"@)->0,
                        url,
                        config,
                    ),
                    ..st
                },
            ),
        }
    } else if starts_with(line, "#"@) {
        Ok(st)
    } else {
        match st.pending {
            None => Ok(st),
            Some(variant) => {
                let (resolved, notes) = hls_url(line, url, config);
                Ok(
                    MasterState {
                        streams: st.streams.push(
                            StreamView { url: resolved, id: resolved, ..variant },
                        ),
                        pending: None,
                        diagnostics: st.diagnostics + notes,
                    },
                )
            },
        }
    }
}

/// What is read after the first `n` lines.
pub open spec fn master_lines(
    all: Seq<Seq<char>>,
    n: int,
    url: Seq<char>,
    config: ParserConfigView,
) -> core::result::Result<MasterState, ErrorView>
    decreases n,
{
    if n <= 0 {
        Ok(MasterState { streams: Seq::empty(), pending: None, diagnostics: Seq::empty() })
    } else {
        match master_lines(all, n - 1, url, config) {
            Err(e) => Err(e),
            Ok(st) => if all[n - 1].len() == 0 {
                Ok(st)
            } else {
                master_line(st, all[n - 1], url, config)
            },
        }
    }
}

/// The messages about a line that cannot be read: a rendition may have a URL that can.
#[verifier::opaque]
pub open spec fn master_unread_notes(line: Seq<char>, url: Seq<char>, config: ParserConfigView) -> Seq<
    ParserDiagnosticView,
> {
    if starts_with(line, "#EXT-X-MEDIA:"@) {
        rendition_notes(strip_prefix(line, "#EXT-X-MEDIA:"@)->0, url, config)
    } else {
        Seq::empty()
    }
}

/// The messages about the first `n` lines, up to the first that cannot be read.
#[verifier::opaque]
pub open spec fn master_lines_notes(
    all: Seq<Seq<char>>,
    n: int,
    url: Seq<char>,
    config: ParserConfigView,
) -> Seq<ParserDiagnosticView>
    decreases n,
{
    match master_lines(all, n, url, config) {
        Ok(st) => st.diagnostics,
        Err(_) => if n <= 0 {
            Seq::empty()
        } else {
            match master_lines(all, n - 1, url, config) {
                Ok(st) => st.diagnostics + master_unread_notes(all[n - 1], url, config),
                Err(_) => master_lines_notes(all, n - 1, url, config),
            }
        },
    }
}

/// The messages about the lines of a master playlist, up to the first that cannot be read.
pub open spec fn master_notes(text: Seq<char>, url: Seq<char>, config: ParserConfigView) -> Seq<
    ParserDiagnosticView,
> {
    master_lines_notes(lines(text), lines(text).len() as int, url, config)
}

/// Whether one of the streams has a URL.
pub open spec fn has_url(streams: Seq<StreamView>, url: Seq<char>) -> bool {
    exists|i: int| 0 <= i < streams.len() && #[trigger] streams[i].url == url
}

/// The streams with each URL once, where it stands first.
pub open spec fn first_of_each(streams: Seq<StreamView>) -> Seq<StreamView>
    decreases streams.len(),
{
    if streams.len() == 0 {
        streams
    } else {
        let head = first_of_each(streams.drop_last());
        if has_url(head, streams.last().url) {
            head
        } else {
            head.push(streams.last())
        }
    }
}

/// Among the streams of a master playlist no URL occurs twice, and none is lost.
pub proof fn law_master_urls_are_distinct(streams: Seq<StreamView>)
    ensures
        forall|i: int, j: int|
            0 <= i < j < first_of_each(streams).len() ==> (#[trigger] first_of_each(
                streams,
            )[i]).url != (#[trigger] first_of_each(streams)[j]).url,
        forall|k: int|
            0 <= k < streams.len() ==> has_url(
                first_of_each(streams),
                (#[trigger] streams[k]).url,
            ),
    decreases streams.len(),
{
    if streams.len() > 0 {
        law_master_urls_are_distinct(streams.drop_last());
        let head = first_of_each(streams.drop_last());
        let r = first_of_each(streams);
        assert forall|k: int| 0 <= k < streams.len() implies has_url(
            r,
            (#[trigger] streams[k]).url,
        ) by {
            if k < streams.len() - 1 {
                assert(streams.drop_last()[k] == streams[k]);
                let i = choose|i: int| 0 <= i < head.len() && #[trigger] head[i].url == streams[k].url;
                assert(r[i].url == streams[k].url);
            } else if !has_url(head, streams.last().url) {
                assert(r[head.len() as int].url == streams[k].url);
            }
        }
        if !has_url(head, streams.last().url) {
            assert forall|i: int, j: int| 0 <= i < j < r.len() implies (#[trigger] r[i]).url != (
            #[trigger] r[j]).url by {
                if j == head.len() as int {
                    assert(head[i].url == r[i].url);
                } else {
                    assert(head[i].url != head[j].url);
                }
            }
        }
    }
}

fn deduplicate_master_streams(streams: Vec<Stream>) -> (r: Vec<Stream>)
    ensures
        r.deep_view() == first_of_each(streams.deep_view()),
{
    let ghost all = streams.deep_view();
    let mut out: Vec<Stream> = Vec::new();
    let mut i: usize = 0;
    assert(all.subrange(0, 0) =~= Seq::<StreamView>::empty());
    assert(out.deep_view() =~= Seq::<StreamView>::empty());
    while i < streams.len()
        invariant
            i <= streams@.len(),
            all == streams.deep_view(),
            out.deep_view() == first_of_each(all.subrange(0, i as int)),
        decreases streams@.len() - i,
    {
        let ghost head = all.subrange(0, i + 1);
        assert(head.drop_last() =~= all.subrange(0, i as int));
        assert(head.last() == streams@[i as int].deep_view());
        let ghost before = out.deep_view();
        let mut seen: bool = false;
        let mut k: usize = 0;
        while k < out.len()
            invariant
                k <= out@.len(),
                i < streams@.len(),
                before == out.deep_view(),
                seen == exists|j: int| 0 <= j < k && #[trigger] before[j].url == streams@[i as int].url@,
            decreases out@.len() - k,
        {
            assert(before[k as int].url == out@[k as int].url@);
            if same(out[k].url.as_str(), streams[i].url.as_str()) {
                seen = true;
            }
            k = k + 1;
        }
        if !seen {
            let item: Stream = streams[i].clone();
            out.push(item);
            assert(out.deep_view() =~= before.push(head.last()));
        }
        i = i + 1;
    }
    assert(all.subrange(0, all.len() as int) =~= all);
    out
}

/// The streams of a master playlist.
pub open spec fn master_of(text: Seq<char>, url: Seq<char>, config: ParserConfigView) -> core::result::Result<
    Seq<StreamView>,
    ErrorView,
> {
    match master_lines(lines(text), lines(text).len() as int, url, config) {
        Err(e) => Err(e),
        Ok(st) => Ok(first_of_each(st.streams)),
    }
}

proof fn lemma_master_error_is_final(
    all: Seq<Seq<char>>,
    n: int,
    url: Seq<char>,
    config: ParserConfigView,
)
    requires
        0 <= n <= all.len(),
        master_lines(all, n, url, config) is Err,
    ensures
        master_lines(all, all.len() as int, url, config) == master_lines(all, n, url, config),
        master_lines_notes(all, all.len() as int, url, config) == master_lines_notes(
            all,
            n,
            url,
            config,
        ),
    decreases all.len() - n,
{
    if n < all.len() {
        reveal(master_lines_notes);
        lemma_master_error_is_final(all, n + 1, url, config);
    }
}

proof fn lemma_master_lines_notes(
    all: Seq<Seq<char>>,
    n: int,
    url: Seq<char>,
    config: ParserConfigView,
)
    requires
        0 <= n <= all.len(),
    ensures
        master_lines(all, n, url, config) is Ok ==> master_lines_notes(all, n, url, config)
            == master_lines(all, n, url, config)->Ok_0.diagnostics,
        n > 0 && master_lines(all, n, url, config) is Err && master_lines(
            all,
            n - 1,
            url,
            config,
        ) is Ok ==> master_lines_notes(all, n, url, config) == master_lines(
            all,
            n - 1,
            url,
            config,
        )->Ok_0.diagnostics + master_unread_notes(all[n - 1], url, config),
{
    reveal(master_lines_notes);
}

proof fn lemma_rendition_line(line: Seq<char>)
    ensures
        starts_with(line, "#EXT-X-MEDIA:"@) ==> !starts_with(line, "#EXT-X-STREAM-INF:"@),
{
    reveal_strlit("#EXT-X-MEDIA:");
    reveal_strlit("#EXT-X-STREAM-INF:");
    if starts_with(line, "#EXT-X-MEDIA:"@) && starts_with(line, "#EXT-X-STREAM-INF:"@) {
        assert(line.take(13)[7] == 'M');
        assert(line.take(18)[7] == 'S');
    }
}

/// What was read of a master playlist.
struct MasterReader {
    streams: Vec<Stream>,
    pending: Option<Stream>,
    diagnostics: ParserDiagnostics,
}

impl MasterReader {
    spec fn state(&self) -> MasterState {
        MasterState {
            streams: self.streams.deep_view(),
            pending: self.pending.deep_view(),
            diagnostics: self.diagnostics.deep_view(),
        }
    }

    fn add(&mut self, stream: Stream)
        ensures
            final(self).state() == (MasterState {
                streams: old(self).state().streams.push(stream.deep_view()),
                ..old(self).state()
            }),
    {
        let ghost before = self.streams.deep_view();
        let ghost view = stream.deep_view();
        self.streams.push(stream);
        assert(self.streams.deep_view() =~= before.push(view));
    }

    fn take_variant(&mut self, line: &str, url: &str, config: &ParserConfig)
        ensures
            final(self).state() == match old(self).state().pending {
                None => old(self).state(),
                Some(variant) => {
                    let (resolved, notes) = hls_url(line@, url@, config.deep_view());
                    MasterState {
                        streams: old(self).state().streams.push(
                            StreamView { url: resolved, id: resolved, ..variant },
                        ),
                        pending: None,
                        diagnostics: old(self).state().diagnostics + notes,
                    }
                },
            },
    {
        let mut variant: Option<Stream> = None;
        core::mem::swap(&mut self.pending, &mut variant);
        match variant {
            Some(v) => {
                let mut stream: Stream = v;
                let resolved: String = process_url(line, url, config, &mut self.diagnostics);
                stream.id = resolved.clone();
                stream.url = resolved;
                self.add(stream);
            },
            None => {},
        }
    }

    fn line(&mut self, line: &str, url: &str, config: &ParserConfig) -> (r: Result<()>)
        ensures
            match r {
                Ok(_) => master_line(old(self).state(), line@, url@, config.deep_view()) == Ok::<
                    MasterState,
                    ErrorView,
                >(final(self).state()),
                Err(e) => master_line(old(self).state(), line@, url@, config.deep_view()) == Err::<
                    MasterState,
                    ErrorView,
                >(e.deep_view()) && final(self).state().diagnostics == old(self).state().diagnostics
                    + master_unread_notes(line@, url@, config.deep_view()),
            },
    {
        proof {
            reveal(master_unread_notes);
            lemma_rendition_line(line@);
            let said = self.diagnostics.deep_view();
            assert(said + Seq::<ParserDiagnosticView>::empty() =~= said);
        }
        match without_prefix(line, "#EXT-X-STREAM-INF:") {
            Some(value) => {
                let stream: Stream = parse_variant(value, config)?;
                self.pending = Some(stream);
                return Ok(());
            },
            None => {},
        }
        match without_prefix(line, "#EXT-X-MEDIA:") {
            Some(value) => {
                match parse_media_rendition(value, url, config, &mut self.diagnostics)? {
                    Some(stream) => {
                        self.add(stream);
                    },
                    None => {},
                }
                return Ok(());
            },
            None => {},
        }
        if !begins_with(line, "#") {
            self.take_variant(line, url, config);
        }
        Ok(())
    }
}

/// The streams of a master playlist.
pub fn parse_master(
    text: &str,
    url: &str,
    config: &ParserConfig,
    diagnostics: &mut ParserDiagnostics,
) -> (r: Result<Vec<Stream>>)
    ensures
        view_result(r) == master_of(text@, url@, config.deep_view()),
        final(diagnostics).deep_view() == old(diagnostics).deep_view() + master_notes(
            text@,
            url@,
            config.deep_view(),
        ),
{
    let ghost c = config.deep_view();
    let all: Vec<String> = lines_text(text);
    let ghost views = all.deep_view();
    let mut reader: MasterReader = MasterReader {
        streams: Vec::new(),
        pending: None,
        diagnostics: ParserDiagnostics::new(),
    };
    let mut i: usize = 0;
    assert(reader.streams.deep_view() =~= Seq::<StreamView>::empty());
    while i < all.len()
        invariant
            i <= all@.len(),
            views == all.deep_view(),
            views == lines(text@),
            c == config.deep_view(),
            master_lines(views, i as int, url@, c) == Ok::<MasterState, ErrorView>(reader.state()),
            diagnostics.deep_view() == old(diagnostics).deep_view(),
        decreases all@.len() - i,
    {
        assert(views[i as int] == all@[i as int]@);
        if all[i].as_str().unicode_len() > 0 {
            match reader.line(all[i].as_str(), url, config) {
                Ok(_) => {},
                Err(e) => {
                    proof {
                        lemma_master_lines_notes(views, i + 1, url@, c);
                        lemma_master_error_is_final(views, i + 1, url@, c);
                    }
                    diagnostics.extend(&reader.diagnostics);
                    return Err(e);
                },
            }
        }
        i = i + 1;
    }
    proof {
        lemma_master_lines_notes(views, i as int, url@, c);
    }
    diagnostics.extend(&reader.diagnostics);
    Ok(deduplicate_master_streams(reader.streams))
}

/// A segment under an encryption that is not known.
pub open spec fn is_unknown(segment: MediaSegmentView) -> bool {
    segment.encryption.method == EncryptionMethod::Unknown
}

/// Whether any segment is under an encryption that is not known.
pub open spec fn has_unknown_encryption(playlist: PlaylistView) -> bool {
    (match playlist.media_init {
        Some(init) => is_unknown(init),
        None => false,
    }) || exists|i: int, j: int|
        0 <= i < playlist.media_parts.len() && 0 <= j < playlist.media_parts[i].len()
            && is_unknown(#[trigger] playlist.media_parts[i][j])
}

/// Whether any segment is under an encryption that is not known.
pub fn playlist_has_unknown_encryption(playlist: &Playlist) -> (r: bool)
    ensures
        r == has_unknown_encryption(playlist.deep_view()),
{
    let ghost view = playlist.deep_view();
    match &playlist.media_init {
        Some(init) => {
            if init.encryption.method == EncryptionMethod::Unknown {
                return true;
            }
        },
        None => {},
    }
    let mut i: usize = 0;
    while i < playlist.media_parts.len()
        invariant
            i <= playlist.media_parts@.len(),
            view == playlist.deep_view(),
            forall|a: int, b: int|
                0 <= a < i && 0 <= b < view.media_parts[a].len() ==> !is_unknown(
                    #[trigger] view.media_parts[a][b],
                ),
        decreases playlist.media_parts@.len() - i,
    {
        let part: &MediaPart = &playlist.media_parts[i];
        assert(view.media_parts[i as int] == part.deep_view());
        let mut j: usize = 0;
        while j < part.media_segments.len()
            invariant
                i < playlist.media_parts@.len(),
                view == playlist.deep_view(),
                view.media_parts[i as int] == part.deep_view(),
                j <= part.media_segments@.len(),
                forall|b: int|
                    0 <= b < j ==> !is_unknown(#[trigger] view.media_parts[i as int][b]),
            decreases part.media_segments@.len() - j,
        {
            assert(view.media_parts[i as int][j as int]
                == part.media_segments@[j as int].deep_view());
            if part.media_segments[j].encryption.method == EncryptionMethod::Unknown {
                assert(is_unknown(view.media_parts[i as int][j as int]));
                return true;
            }
            j = j + 1;
        }
        i = i + 1;
    }
    false
}

/// Whether the URL of any segment holds a text.
pub open spec fn has_extension(playlist: PlaylistView, extension: Seq<char>) -> bool {
    exists|i: int, j: int|
        0 <= i < playlist.media_parts.len() && 0 <= j < playlist.media_parts[i].len() && contains(
            (#[trigger] playlist.media_parts[i][j]).url,
            extension,
        )
}

/// Whether the URL of any segment holds a text.
pub fn playlist_contains_extension(playlist: &Playlist, extension: &str) -> (r: bool)
    ensures
        r == has_extension(playlist.deep_view(), extension@),
{
    let ghost view = playlist.deep_view();
    let mut i: usize = 0;
    while i < playlist.media_parts.len()
        invariant
            i <= playlist.media_parts@.len(),
            view == playlist.deep_view(),
            forall|a: int, b: int|
                0 <= a < i && 0 <= b < view.media_parts[a].len() ==> !contains(
                    (#[trigger] view.media_parts[a][b]).url,
                    extension@,
                ),
        decreases playlist.media_parts@.len() - i,
    {
        let part: &MediaPart = &playlist.media_parts[i];
        assert(view.media_parts[i as int] == part.deep_view());
        let mut j: usize = 0;
        while j < part.media_segments.len()
            invariant
                i < playlist.media_parts@.len(),
                view == playlist.deep_view(),
                view.media_parts[i as int] == part.deep_view(),
                j <= part.media_segments@.len(),
                forall|b: int|
                    0 <= b < j ==> !contains(
                        (#[trigger] view.media_parts[i as int][b]).url,
                        extension@,
                    ),
            decreases part.media_segments@.len() - j,
        {
            assert(view.media_parts[i as int][j as int]
                == part.media_segments@[j as int].deep_view());
            if has_text(part.media_segments[j].url.as_str(), extension) {
                assert(contains(view.media_parts[i as int][j as int].url, extension@));
                return true;
            }
            j = j + 1;
        }
        i = i + 1;
    }
    false
}

/// The extension of a stream whose playlist was read.
pub open spec fn extension_for(stream: StreamView, playlist: PlaylistView) -> Option<Seq<char>> {
    if stream.media_type == Some(MediaType::Subtitles) {
        if has_extension(playlist, ".ttml"@) {
            Some("ttml"@)
        } else if has_extension(playlist, ".vtt"@) || has_extension(playlist, ".webvtt"@) {
            Some("vtt"@)
        } else {
            stream.extension
        }
    } else if playlist.media_init is Some {
        Some("m4s"@)
    } else {
        Some("ts"@)
    }
}

/// A stream whose playlist was read; an initialization segment that it has already stays.
pub open spec fn with_playlist(stream: StreamView, playlist: PlaylistView) -> StreamView {
    StreamView {
        extension: extension_for(stream, playlist),
        playlist: Some(
            match stream.playlist {
                Some(existing) => if existing.media_init is Some {
                    PlaylistView {
                        url: existing.url,
                        buffer_depth: existing.buffer_depth,
                        media_init: existing.media_init,
                        ..playlist
                    }
                } else {
                    playlist
                },
                None => playlist,
            },
        ),
        ..stream
    }
}

/// Gives a stream the playlist that was read for it.
pub fn apply_playlist(stream: &mut Stream, playlist: Playlist)
    ensures
        final(stream).deep_view() == with_playlist(old(stream).deep_view(), playlist.deep_view()),
{
    let extension: Option<String> = if stream.media_type.is_some() && is_subtitles(stream) {
        if playlist_contains_extension(&playlist, ".ttml") {
            Some(owned("ttml"))
        } else if playlist_contains_extension(&playlist, ".vtt") || playlist_contains_extension(
            &playlist,
            ".webvtt",
        ) {
            Some(owned("vtt"))
        } else {
            crate::manifest::copy_opt(&stream.extension)
        }
    } else if playlist.media_init.is_some() {
        Some(owned("m4s"))
    } else {
        Some(owned("ts"))
    };
    let merged: Playlist = match &stream.playlist {
        Some(existing) => match &existing.media_init {
            Some(init) => Playlist {
                url: existing.url.clone(),
                is_live: playlist.is_live,
                refresh_interval: playlist.refresh_interval,
                buffer_depth: crate::manifest::copy_opt(&existing.buffer_depth),
                target_duration: playlist.target_duration,
                media_init: Some(init.clone()),
                media_parts: playlist.media_parts,
            },
            None => playlist,
        },
        None => playlist,
    };
    stream.extension = extension;
    stream.playlist = Some(merged);
}

fn is_subtitles(stream: &Stream) -> (r: bool)
    ensures
        r == (stream.deep_view().media_type == Some(MediaType::Subtitles)),
{
    match stream.media_type {
        Some(MediaType::Subtitles) => true,
        _ => false,
    }
}

/// Whether a stream that cannot be loaded may get a new URL from the master playlist.
pub fn should_refresh_from_master(master_url: &str, stream: &Stream) -> (r: bool)
    ensures
        r == (master_url@.len() > 0 && master_url@ != stream.deep_view().url),
{
    master_url.unicode_len() > 0 && !same(master_url, stream.url.as_str())
}

/// Two streams describe the same thing; whether their frame rates are equal is given.
pub open spec fn same_identity(a: StreamView, b: StreamView, same_rate: bool) -> bool {
    a.media_type == b.media_type && a.group_id == b.group_id && a.language == b.language && a.name
        == b.name && a.codecs == b.codecs && a.resolution == b.resolution && same_rate && a.channels
        == b.channels && a.video_range == b.video_range && a.bandwidth == b.bandwidth
}

/// Whether two optional texts are equal.
pub fn same_opt(a: &Option<String>, b: &Option<String>) -> (r: bool)
    ensures
        r == (a.deep_view() == b.deep_view()),
{
    match (a, b) {
        (Some(x), Some(y)) => same(x.as_str(), y.as_str()),
        (None, None) => true,
        _ => false,
    }
}

/// Whether two streams describe the same thing, given whether their frame rates are equal.
pub fn stream_refresh_identity_matches(left: &Stream, right: &Stream, same_rate: bool) -> (r: bool)
    ensures
        r == same_identity(left.deep_view(), right.deep_view(), same_rate),
{
    let same_type: bool = match (left.media_type, right.media_type) {
        (Some(a), Some(b)) => a == b,
        (None, None) => true,
        _ => false,
    };
    let same_bandwidth: bool = match (left.bandwidth, right.bandwidth) {
        (Some(a), Some(b)) => a == b,
        (None, None) => true,
        _ => false,
    };
    same_type && same_opt(&left.group_id, &right.group_id) && same_opt(
        &left.language,
        &right.language,
    ) && same_opt(&left.name, &right.name) && same_opt(&left.codecs, &right.codecs) && same_opt(
        &left.resolution,
        &right.resolution,
    ) && same_rate && same_opt(&left.channels, &right.channels) && same_opt(
        &left.video_range,
        &right.video_range,
    ) && same_bandwidth
}

/// The text of a playlist without white space and byte order mark around it.
pub open spec fn bare_text(raw: Seq<char>) -> Seq<char> {
    trim_start(trim_start_char(trim(raw), '\u{feff}'))
}

/// The settings with the URL of the manifest where they name none.
pub open spec fn located(config: ParserConfigView, url: Seq<char>) -> ParserConfigView {
    ParserConfigView {
        url: if config.url.len() == 0 {
            url
        } else {
            config.url
        },
        ..config
    }
}

/// The warning about several maps.
pub open spec fn map_warning(config: ParserConfigView) -> Seq<ParserDiagnosticView> {
    if allows_maps(config) {
        seq![
            note(
                LogLevel::Warn,
                "Multiple #EXT-X-MAP tags are now allowed for detection. However, this software may not handle them correctly. Please manually verify the content's integrity"@,
            ),
        ]
    } else {
        Seq::empty()
    }
}

/// The one stream of a media playlist.
pub open spec fn lone_stream(url: Seq<char>, playlist: PlaylistView) -> StreamView {
    StreamView {
        url,
        extension: Some(
            if playlist.media_init is Some {
                "mp4"@
            } else {
                "ts"@
            },
        ),
        playlist: Some(playlist),
        ..blank_stream()
    }
}

/// What an HLS text holds: the streams of a master playlist, or the one stream of a media playlist.
pub open spec fn hls_manifest_of(
    raw: Seq<char>,
    url: Seq<char>,
    config: ParserConfigView,
    keys: Seq<KeyAnswerView>,
) -> core::result::Result<HlsManifestView, HlsStopView> {
    let c = located(config, url);
    let bare = bare_text(raw);
    if !starts_with(bare, "#EXTM3U"@) {
        Err(HlsStopView::Fail(ErrorView::Protocol("HLS input must start with #EXTM3U"@)))
    } else {
        match repaired_playlist(bare, c.url) {
            Err(e) => Err(HlsStopView::Fail(e)),
            Ok(text) => if !starts_with(text, "#EXTM3U"@) {
                Err(HlsStopView::Fail(ErrorView::Protocol("HLS input must start with #EXTM3U"@)))
            } else if contains(text, "#EXT-X-STREAM-INF"@) {
                match master_of(text, url, c) {
                    Err(e) => Err(HlsStopView::Fail(e)),
                    Ok(streams) => Ok(
                        HlsManifestView { streams, is_master: true, requires_binary_merge: false },
                    ),
                }
            } else {
                match media_playlist_of(text, url, c, keys) {
                    Err(s) => Err(s),
                    Ok(playlist) => Ok(
                        HlsManifestView {
                            streams: seq![lone_stream(url, playlist)],
                            is_master: false,
                            requires_binary_merge: has_unknown_encryption(playlist),
                        },
                    ),
                }
            },
        }
    }
}

/// The messages about an HLS text, up to where its reading stops. The warning about several maps
/// comes first, whatever the text is.
pub open spec fn hls_notes(
    raw: Seq<char>,
    url: Seq<char>,
    config: ParserConfigView,
    keys: Seq<KeyAnswerView>,
) -> Seq<ParserDiagnosticView> {
    let c = located(config, url);
    let bare = bare_text(raw);
    map_warning(c) + if !starts_with(bare, "#EXTM3U"@) {
        Seq::empty()
    } else {
        match repaired_playlist(bare, c.url) {
            Err(_) => Seq::empty(),
            Ok(text) => if !starts_with(text, "#EXTM3U"@) {
                Seq::empty()
            } else if contains(text, "#EXT-X-STREAM-INF"@) {
                master_notes(text, url, c)
            } else {
                media_notes(text, url, c, keys)
            },
        }
    }
}

/// Reads HLS texts.
#[derive(Clone, Copy, Debug)]
pub struct HlsParser;

impl HlsParser {
    pub fn new() -> Self {
        HlsParser
    }

    /// Leaves the warning about several maps where they are allowed.
    pub fn push_allow_hls_multi_ext_map_warning(
        config: &ParserConfig,
        diagnostics: &mut ParserDiagnostics,
    )
        ensures
            final(diagnostics).deep_view() == old(diagnostics).deep_view() + map_warning(
                config.deep_view(),
            ),
    {
        let ghost start = diagnostics.deep_view();
        let allowed: bool = match config.custom_parser_args.get("AllowHlsMultiExtMap") {
            Some(v) => same(v.as_str(), "true"),
            None => false,
        };
        if allowed {
            diagnostics.push(
                LogLevel::Warn,
                "Multiple #EXT-X-MAP tags are now allowed for detection. However, this software may not handle them correctly. Please manually verify the content's integrity",
            );
        }
        assert(diagnostics.deep_view() =~= start + map_warning(config.deep_view()));
    }

    /// What an HLS text holds, with the keys that were loaded so far. Where a key is missing, the
    /// messages are those up to its line; with the key the text is read again from its start.
    pub fn parse(
        &self,
        raw_text: &str,
        url: &str,
        config: &ParserConfig,
        keys: &Vec<KeyAnswer>,
        diagnostics: &mut ParserDiagnostics,
    ) -> (r: HlsResult<HlsManifest>)
        ensures
            view_hls(r) == hls_manifest_of(
                raw_text@,
                url@,
                config.deep_view(),
                keys.deep_view(),
            ),
            final(diagnostics).deep_view() == old(diagnostics).deep_view() + hls_notes(
                raw_text@,
                url@,
                config.deep_view(),
                keys.deep_view(),
            ),
    {
        let ghost start = diagnostics.deep_view();
        let mut effective: ParserConfig = config.clone();
        if effective.url.as_str().unicode_len() == 0 {
            effective.url = owned(url);
        }
        let ghost c = effective.deep_view();
        assert(c == located(config.deep_view(), url@));
        HlsParser::push_allow_hls_multi_ext_map_warning(&effective, diagnostics);
        let ghost warned = diagnostics.deep_view();
        assert(warned =~= start + (map_warning(c) + Seq::<ParserDiagnosticView>::empty()));
        let bare: &str = trimmed_start(trimmed_start_char(trimmed(raw_text), '\u{feff}'));
        if !begins_with(bare, "#EXTM3U") {
            return Err(HlsStop::Fail(Error::protocol("HLS input must start with #EXTM3U")));
        }
        let text: String = stop(repair_playlist(bare, effective.url.as_str()))?;
        if !begins_with(text.as_str(), "#EXTM3U") {
            return Err(HlsStop::Fail(Error::protocol("HLS input must start with #EXTM3U")));
        }
        if has_text(text.as_str(), "#EXT-X-STREAM-INF") {
            let read: Result<Vec<Stream>> = parse_master(
                text.as_str(),
                url,
                &effective,
                diagnostics,
            );
            assert(diagnostics.deep_view() =~= start + (map_warning(c) + master_notes(
                text@,
                url@,
                c,
            )));
            let streams: Vec<Stream> = stop(read)?;
            return Ok(HlsManifest { streams, is_master: true, requires_binary_merge: false });
        }
        let read: HlsResult<Playlist> = parse_media_playlist(
            text.as_str(),
            url,
            &effective,
            keys,
            diagnostics,
        );
        assert(diagnostics.deep_view() =~= start + (map_warning(c) + media_notes(
            text@,
            url@,
            c,
            keys.deep_view(),
        )));
        let playlist: Playlist = read?;
        let requires_binary_merge: bool = playlist_has_unknown_encryption(&playlist);
        let extension: &str = if playlist.media_init.is_some() {
            "mp4"
        } else {
            "ts"
        };
        let mut stream: Stream = Stream::default();
        stream.url = owned(url);
        stream.extension = Some(owned(extension));
        let ghost view = playlist.deep_view();
        stream.playlist = Some(playlist);
        assert(stream.deep_view() == lone_stream(url@, view));
        let mut streams: Vec<Stream> = Vec::new();
        streams.push(stream);
        assert(streams.deep_view() =~= seq![lone_stream(url@, view)]);
        Ok(HlsManifest { streams, is_master: false, requires_binary_merge })
    }
}

} // verus!
