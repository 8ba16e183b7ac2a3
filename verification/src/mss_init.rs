//! Initialization segments of Smooth Streaming, which serves none.

use crate::boxes::{
    be, box_bytes, boxed, full_box, full_boxed, push_all, push_text, push_u16, push_u32, push_u64,
    push_zeros, zeros,
};
use crate::codec::{base64_decode, bytes_to_hex, decode_base64, hex_char, hex_text};
use crate::decrypt::{be32, has_tag, is_tag, read_be32};
use crate::error::{Error, ErrorView, Result};
use crate::manifest::{MssData, MssDataView, Stream, StreamView};
use crate::outside::{lossy_text, utf8_lossy};
use crate::processor::{config_hex, hex_to_bytes};
use crate::text::{
    begins_with, cat2, cut_once, dec, drop, find, find_text, lower, owned, parse_i32_text,
    parse_within, replace, replace_text, same, same_ignoring_case, slice, slice_from, split,
    split_once, split_text, starts_with, take, u64_text,
};
use vstd::prelude::*;
use vstd::utf8::encode_utf8;

verus! {

/// A generated initialization segment.
#[derive(Debug)]
pub struct MssGeneratedInit {
    pub bytes: Vec<u8>,
    pub codec_private_data: String,
    /// The codecs, where the codec private data tells more of them than the manifest.
    pub codecs: Option<String>,
}

/// Model of `MssGeneratedInit`.
pub struct MssGeneratedInitView {
    pub bytes: Seq<u8>,
    pub codec_private_data: Seq<char>,
    pub codecs: Option<Seq<char>>,
}

impl DeepView for MssGeneratedInit {
    type V = MssGeneratedInitView;

    open spec fn deep_view(&self) -> MssGeneratedInitView {
        MssGeneratedInitView {
            bytes: self.bytes@,
            codec_private_data: self.codec_private_data@,
            codecs: self.codecs.deep_view(),
        }
    }
}

/// The protection of a stream.
pub struct ProtectionView {
    pub system_id: Seq<char>,
    pub data: Seq<u8>,
    pub kid: Seq<u8>,
}

struct ProtectionContext {
    system_id: String,
    data: Vec<u8>,
    kid: Vec<u8>,
}

impl ProtectionContext {
    spec fn view(&self) -> ProtectionView {
        ProtectionView { system_id: self.system_id@, data: self.data@, kid: self.kid@ }
    }
}

/// What an initialization segment is made from.
pub struct InitView {
    pub stream: StreamView,
    pub data: MssDataView,
    pub private: Seq<char>,
    pub protection: Option<ProtectionView>,
    pub created: u64,
    pub track: u32,
}

struct InitBuilder<'a> {
    stream: &'a Stream,
    data: &'a MssData,
    private: &'a str,
    protection: Option<ProtectionContext>,
    created: u64,
    track: u32,
}

impl<'a> InitBuilder<'a> {
    spec fn view(&self) -> InitView {
        InitView {
            stream: self.stream.deep_view(),
            data: self.data.deep_view(),
            private: self.private@,
            protection: match self.protection {
                Some(p) => Some(p.view()),
                None => None,
            },
            created: self.created,
            track: self.track,
        }
    }
}

/// A number as 8 bits; all ones where it does not fit.
pub open spec fn as_u8(n: int) -> u8 {
    if 0 <= n <= 255 {
        n as u8
    } else {
        255
    }
}

/// A number as 16 bits; all ones where it does not fit.
pub open spec fn as_u16(n: int) -> int {
    if 0 <= n <= 65535 {
        n
    } else {
        65535
    }
}

/// A number that is not negative, else zero.
pub open spec fn or_zero(n: int) -> int {
    if n < 0 {
        0
    } else {
        n
    }
}

fn u16_from_i32(n: i32) -> (r: u16)
    ensures
        r == as_u16(n as int),
{
    if 0 <= n && n <= 65535 {
        n as u16
    } else {
        65535
    }
}

fn u16_from_usize(n: usize) -> (r: u16)
    ensures
        r == as_u16(n as int),
{
    if n <= 65535 {
        n as u16
    } else {
        65535
    }
}

fn u8_from_i32(n: i32) -> (r: u8)
    ensures
        r == as_u8(n as int),
{
    if 0 <= n && n <= 255 {
        n as u8
    } else {
        255
    }
}

fn u8_from_usize(n: usize) -> (r: u8)
    ensures
        r == as_u8(n as int),
{
    if n <= 255 {
        n as u8
    } else {
        255
    }
}

fn u32_from_i32(n: i32) -> (r: u32)
    ensures
        r == or_zero(n as int),
{
    if n < 0 {
        0
    } else {
        n as u32
    }
}

fn u64_from_i64(n: i64) -> (r: u64)
    ensures
        r == or_zero(n as int),
{
    if n < 0 {
        0
    } else {
        n as u64
    }
}

/// Appends the lowest four bytes of a signed number.
fn push_low_u32(out: &mut Vec<u8>, n: i64)
    ensures
        final(out)@ == old(out)@ + be(n as int, 4),
{
    let low: u32 = if n >= 0 {
        (n as u64 % 4_294_967_296) as u32
    } else {
        let below: u64 = (-(n + 1)) as u64;
        (4_294_967_295 - below % 4_294_967_296) as u32
    };
    proof {
        assert(low == n as int % 4_294_967_296);
        crate::boxes::lemma_be_low(n as int, low as int);
    }
    push_u32(out, low);
}

/// The index of a sampling frequency in MPEG-4 audio.
pub open spec fn frequency_index(rate: int) -> u8 {
    if rate == 88_200 {
        1
    } else if rate == 64_000 {
        2
    } else if rate == 48_000 {
        3
    } else if rate == 44_100 {
        4
    } else if rate == 32_000 {
        5
    } else if rate == 24_000 {
        6
    } else if rate == 22_050 {
        7
    } else if rate == 16_000 {
        8
    } else if rate == 12_000 {
        9
    } else if rate == 11_025 {
        10
    } else if rate == 8_000 {
        11
    } else if rate == 7_350 {
        12
    } else {
        0
    }
}

fn sampling_frequency_index(rate: i64) -> (r: u8)
    ensures
        r == frequency_index(rate as int),
        r <= 12,
{
    match rate {
        88_200 => 1,
        64_000 => 2,
        48_000 => 3,
        44_100 => 4,
        32_000 => 5,
        24_000 => 6,
        22_050 => 7,
        16_000 => 8,
        12_000 => 9,
        11_025 => 10,
        8_000 => 11,
        7_350 => 12,
        _ => 0,
    }
}

/// The audio configuration that follows from a sampling rate and a number of channels: the object
/// type in 5 bits, the index of the frequency in 4, the channels in 4. With the high efficiency
/// profile the index of the doubled frequency in 4 and the core object type in 5 follow.
pub open spec fn aac_config(four_cc: Seq<char>, rate: int, channels: int) -> Option<Seq<u8>> {
    let f = frequency_index(rate);
    let x = frequency_index(2 * rate);
    let c = channels as u8;
    if !starts_with(four_cc, "AAC"@) || !(0 <= channels <= 255) {
        None
    } else if four_cc == "AACH"@ {
        Some(
            seq![
                (5u8 << 3u8) | (f >> 1u8),
                (f << 7u8) | (c << 3u8) | (x >> 1u8),
                (x << 7u8) | (2u8 << 2u8),
                0u8,
            ],
        )
    } else {
        Some(seq![(2u8 << 3u8) | (f >> 1u8), (f << 7u8) | (c << 3u8)])
    }
}

/// A configuration as text: each two bytes as a number of sixteen digits.
pub open spec fn wide_hex(b: Seq<u8>) -> Seq<char>
    decreases b.len(),
{
    if b.len() < 2 {
        Seq::empty()
    } else {
        "000000000000"@ + hex_text(b.subrange(0, 2), true) + wide_hex(b.skip(2))
    }
}

fn wide_pair(a: u8, b: u8) -> (r: String)
    ensures
        r@ == "000000000000"@ + hex_text(seq![a, b], true),
{
    let mut pair: Vec<u8> = Vec::new();
    pair.push(a);
    pair.push(b);
    assert(pair@ =~= seq![a, b]);
    let digits: String = bytes_to_hex(&pair, true);
    cat2("000000000000", digits.as_str())
}

/// Formats for which an initialization segment can be made.
pub open spec fn is_handled(four_cc: Seq<char>) -> bool {
    ||| is_hevc(four_cc)
    ||| is_dolby(four_cc)
    ||| is_avc(four_cc)
    ||| four_cc == "AACL"@
    ||| four_cc == "AACH"@
    ||| four_cc == "EC-3"@
    ||| four_cc == "TTML"@
}

/// Names of AVC.
pub open spec fn is_avc(four_cc: Seq<char>) -> bool {
    four_cc == "H264"@ || four_cc == "AVC1"@ || four_cc == "DAVC"@
}

/// Names of HEVC.
pub open spec fn is_hevc(four_cc: Seq<char>) -> bool {
    four_cc == "HVC1"@ || four_cc == "HEV1"@
}

/// Names of Dolby Vision.
pub open spec fn is_dolby(four_cc: Seq<char>) -> bool {
    four_cc == "DVHE"@ || four_cc == "DVH1"@
}

fn avc_name(four_cc: &str) -> (r: bool)
    ensures
        r == is_avc(four_cc@),
{
    same(four_cc, "H264") || same(four_cc, "AVC1") || same(four_cc, "DAVC")
}

fn hevc_name(four_cc: &str) -> (r: bool)
    ensures
        r == is_hevc(four_cc@),
{
    same(four_cc, "HVC1") || same(four_cc, "HEV1")
}

fn dolby_name(four_cc: &str) -> (r: bool)
    ensures
        r == is_dolby(four_cc@),
{
    same(four_cc, "DVHE") || same(four_cc, "DVH1")
}

/// The identifier of PlayReady.
pub open spec fn playready_id() -> Seq<char> {
    "9A04F079-9840-4286-AB92-E65BE0885F95"@
}

/// The identifier of Widevine.
pub open spec fn widevine_id() -> Seq<char> {
    "EDEF8BA9-79D6-4ACE-A3C8-27DCD51D21ED"@
}

/// A key identifier with its first three fields in big endian order.
pub open spec fn swapped_kid(k: Seq<u8>) -> Seq<u8> {
    seq![k[3], k[2], k[1], k[0], k[5], k[4], k[7], k[6]] + k.subrange(8, 16)
}

/// The key identifier that PlayReady data holds: what stands between `<KID>` and the next `<` in the
/// data without zero bytes, in base64. Other systems get zeros.
pub open spec fn playready_kid(system_id: Seq<char>, data: Seq<u8>) -> core::result::Result<
    Seq<u8>,
    ErrorView,
> {
    if lower(system_id) != lower(playready_id()) {
        Ok(zeros(16))
    } else {
        match config_hex(replace(hex_text(data, true), "00"@, ""@)) {
            Err(e) => Err(e),
            Ok(compact) => {
                let text = lossy_text(compact);
                match find(text, "<KID>"@) {
                    None => Err(
                        ErrorView::Protocol("Smooth Streaming protection KID is missing"@),
                    ),
                    Some(i) => {
                        let tail = drop(text, i + 5);
                        match find(tail, "<"@) {
                            None => Err(
                                ErrorView::Protocol("Smooth Streaming protection KID is invalid"@),
                            ),
                            Some(n) => match base64_decode(take(tail, n)) {
                                Err(e) => Err(ErrorView::Config(e)),
                                Ok(kid) => if kid.len() != 16 {
                                    Err(
                                        ErrorView::Protocol(
                                            "Smooth Streaming protection KID length is invalid"@,
                                        ),
                                    )
                                } else {
                                    Ok(swapped_kid(kid))
                                },
                            },
                        }
                    },
                }
            },
        }
    }
}

fn swap_kid(k: &Vec<u8>) -> (r: Vec<u8>)
    requires
        k@.len() == 16,
    ensures
        r@ == swapped_kid(k@),
{
    let mut out: Vec<u8> = Vec::new();
    out.push(k[3]);
    out.push(k[2]);
    out.push(k[1]);
    out.push(k[0]);
    out.push(k[5]);
    out.push(k[4]);
    out.push(k[7]);
    out.push(k[6]);
    let mut i: usize = 8;
    let ghost head = out@;
    while i < 16
        invariant
            8 <= i <= 16,
            k@.len() == 16,
            out@ =~= head + k@.subrange(8, i as int),
        decreases 16 - i,
    {
        out.push(k[i]);
        i = i + 1;
    }
    assert(out@ =~= swapped_kid(k@));
    out
}

fn extract_playready_kid(system_id: &str, data: &Vec<u8>) -> (r: Result<Vec<u8>>)
    ensures
        match r {
            Ok(v) => playready_kid(system_id@, data@) == Ok::<Seq<u8>, ErrorView>(v@),
            Err(e) => playready_kid(system_id@, data@) == Err::<Seq<u8>, ErrorView>(e.deep_view()),
        },
{
    if !same_ignoring_case(system_id, "9A04F079-9840-4286-AB92-E65BE0885F95") {
        let mut out: Vec<u8> = Vec::new();
        push_zeros(&mut out, 16);
        assert(out@ =~= zeros(16));
        return Ok(out);
    }
    proof {
        reveal_strlit("00");
        reveal_strlit("<KID>");
    }
    let hex: String = bytes_to_hex(data, true);
    let compact: String = replace_text(hex.as_str(), "00", "");
    let bytes: Vec<u8> = hex_to_bytes(compact.as_str())?;
    let text: String = utf8_lossy(&bytes);
    let start: usize = match find_text(text.as_str(), "<KID>") {
        None => {
            return Err(Error::protocol("Smooth Streaming protection KID is missing"));
        },
        Some(i) => i,
    };
    let _len: usize = text.as_str().unicode_len();
    let tail: &str = slice_from(text.as_str(), start + 5);
    let end: usize = match find_text(tail, "<") {
        None => {
            return Err(Error::protocol("Smooth Streaming protection KID is invalid"));
        },
        Some(i) => i,
    };
    let kid: Vec<u8> = match decode_base64(slice(tail, 0, end)) {
        Ok(v) => v,
        Err(e) => {
            return Err(Error::config(e));
        },
    };
    if kid.len() != 16 {
        return Err(Error::protocol("Smooth Streaming protection KID length is invalid"));
    }
    Ok(swap_kid(&kid))
}

/// The protection that the data of a stream describes.
pub open spec fn protection_of(data: MssDataView) -> core::result::Result<ProtectionView, ErrorView> {
    if lower(data.protection_system_id) == lower(widevine_id()) {
        Err(ErrorView::Compatibility("Smooth Streaming Widevine protection is not supported"@))
    } else {
        match config_hex(data.protection_data) {
            Err(e) => Err(e),
            Ok(bytes) => match playready_kid(data.protection_system_id, bytes) {
                Err(e) => Err(e),
                Ok(kid) => Ok(
                    ProtectionView { system_id: data.protection_system_id, data: bytes, kid },
                ),
            },
        }
    }
}

impl ProtectionContext {
    fn from_mss_data(data: &MssData) -> (r: Result<Self>)
        ensures
            match r {
                Ok(p) => protection_of(data.deep_view()) == Ok::<ProtectionView, ErrorView>(
                    p.view(),
                ),
                Err(e) => protection_of(data.deep_view()) == Err::<ProtectionView, ErrorView>(
                    e.deep_view(),
                ),
            },
    {
        if same_ignoring_case(
            data.protection_system_id.as_str(),
            "EDEF8BA9-79D6-4ACE-A3C8-27DCD51D21ED",
        ) {
            return Err(
                Error::compatibility("Smooth Streaming Widevine protection is not supported"),
            );
        }
        let bytes: Vec<u8> = hex_to_bytes(data.protection_data.as_str())?;
        let kid: Vec<u8> = extract_playready_kid(data.protection_system_id.as_str(), &bytes)?;
        Ok(ProtectionContext { system_id: data.protection_system_id.clone(), data: bytes, kid })
    }
}

/// Bytes in hexadecimal; none where the text is wrong.
pub open spec fn hex_or_nothing(s: Seq<char>) -> Seq<u8> {
    match config_hex(s) {
        Ok(b) => b,
        Err(_) => Seq::empty(),
    }
}

fn hex_or_default(s: &str) -> (r: Vec<u8>)
    ensures
        r@ == hex_or_nothing(s@),
{
    match hex_to_bytes(s) {
        Ok(b) => b,
        Err(_) => Vec::new(),
    }
}

/// The box of a protection system.
pub open spec fn pssh_box(system_id: Seq<char>, data: Seq<u8>) -> Seq<u8> {
    full_boxed(
        "pssh"@,
        0,
        0,
        Seq::<u8>::empty() + hex_or_nothing(replace(system_id, "-"@, ""@)) + be(
            crate::boxes::capped_u32(data.len() as int),
            4,
        ) + data,
    )
}

fn gen_pssh_box(system_id: &str, data: &Vec<u8>) -> (r: Vec<u8>)
    ensures
        r@ == pssh_box(system_id@, data@),
{
    proof {
        reveal_strlit("-");
    }
    let mut payload: Vec<u8> = Vec::new();
    let bare: String = replace_text(system_id, "-", "");
    let id: Vec<u8> = hex_or_default(bare.as_str());
    push_all(&mut payload, id.as_slice());
    let length: u32 = if data.len() <= 4_294_967_295 {
        data.len() as u32
    } else {
        4_294_967_295
    };
    push_u32(&mut payload, length);
    push_all(&mut payload, data.as_slice());
    full_box("pssh", 0, 0, payload)
}

/// The data of Widevine for one key.
pub open spec fn widevine_data(kid: Seq<u8>) -> Seq<u8> {
    hex_or_nothing("08011210"@ + hex_text(kid, true) + "1A046E647265220400000000"@)
}

fn gen_widevine_pssh_box(kid: &Vec<u8>) -> (r: Vec<u8>)
    ensures
        r@ == pssh_box(widevine_id(), widevine_data(kid@)),
{
    let digits: String = bytes_to_hex(kid, true);
    let text: String = crate::text::cat3("08011210", digits.as_str(), "1A046E647265220400000000");
    let data: Vec<u8> = hex_or_default(text.as_str());
    gen_pssh_box("EDEF8BA9-79D6-4ACE-A3C8-27DCD51D21ED", &data)
}

/// The box that says how a format is protected.
pub open spec fn sinf_box(codec: Seq<char>, kid: Seq<u8>) -> Seq<u8> {
    boxed(
        "sinf"@,
        Seq::<u8>::empty() + boxed("frma"@, Seq::<u8>::empty() + encode_utf8(codec)) + full_boxed(
            "schm"@,
            0,
            0,
            Seq::<u8>::empty() + encode_utf8("cenc"@) + be(0x10000, 4),
        ) + boxed(
            "schi"@,
            full_boxed("tenc"@, 0, 0, Seq::<u8>::empty() + be(0x108, 4) + kid),
        ),
    )
}

fn gen_sinf(codec: &str, kid: &Vec<u8>) -> (r: Vec<u8>)
    ensures
        r@ == sinf_box(codec@, kid@),
{
    let mut name: Vec<u8> = Vec::new();
    push_text(&mut name, codec);
    let frma: Vec<u8> = box_bytes("frma", name);
    let mut scheme: Vec<u8> = Vec::new();
    push_text(&mut scheme, "cenc");
    push_u32(&mut scheme, 0x10000);
    let schm: Vec<u8> = full_box("schm", 0, 0, scheme);
    let mut track: Vec<u8> = Vec::new();
    push_u32(&mut track, 0x108);
    push_all(&mut track, kid.as_slice());
    let schi: Vec<u8> = box_bytes("schi", full_box("tenc", 0, 0, track));
    let mut payload: Vec<u8> = Vec::new();
    push_all(&mut payload, frma.as_slice());
    push_all(&mut payload, schm.as_slice());
    push_all(&mut payload, schi.as_slice());
    box_bytes("sinf", payload)
}

/// The matrix that changes nothing.
pub open spec fn unity_matrix() -> Seq<u8> {
    Seq::<u8>::empty() + be(0x10000, 4) + be(0, 4) + be(0, 4) + be(0, 4) + be(0x10000, 4) + be(0, 4)
        + be(0, 4) + be(0, 4) + be(0x4000_0000, 4)
}

fn push_matrix(out: &mut Vec<u8>)
    ensures
        final(out)@ == old(out)@ + unity_matrix(),
{
    let mut matrix: Vec<u8> = Vec::new();
    push_u32(&mut matrix, 0x10000);
    push_u32(&mut matrix, 0);
    push_u32(&mut matrix, 0);
    push_u32(&mut matrix, 0);
    push_u32(&mut matrix, 0x10000);
    push_u32(&mut matrix, 0);
    push_u32(&mut matrix, 0);
    push_u32(&mut matrix, 0);
    push_u32(&mut matrix, 0x4000_0000);
    push_all(out, matrix.as_slice());
}

/// Width and height out of a resolution.
pub open spec fn dimensions_of(resolution: Option<Seq<char>>) -> (int, int) {
    match resolution {
        None => (0, 0),
        Some(text) => match split_once(text, "x"@) {
            None => (0, 0),
            Some((width, height)) => (dimension(width), dimension(height)),
        },
    }
}

/// A number of 32 bits, zero where the text is none.
pub open spec fn dimension(text: Seq<char>) -> int {
    match parse_within(text, i32::MIN as int, i32::MAX as int) {
        Some(n) => n,
        None => 0,
    }
}

fn parse_dimension(text: &str) -> (r: i32)
    ensures
        r == dimension(text@),
{
    match parse_i32_text(text) {
        Some(n) => n,
        None => 0,
    }
}

fn dimensions(stream: &Stream) -> (r: (i32, i32))
    ensures
        dimensions_of(stream.deep_view().resolution) == (r.0 as int, r.1 as int),
{
    match &stream.resolution {
        None => (0, 0),
        Some(text) => match cut_once(text.as_str(), "x") {
            None => (0, 0),
            Some((width, height)) => (parse_dimension(width), parse_dimension(height)),
        },
    }
}

/// A letter in five bits, `a` being one.
pub open spec fn letter_bits(b: u8) -> u16 {
    if b >= 0x60 {
        (b - 0x60) as u16
    } else {
        0
    }
}

/// A language of three letters, each in five bits.
pub open spec fn packed_language(b: Seq<u8>) -> u16 {
    (letter_bits(b[0]) << 10u16) | (letter_bits(b[1]) << 5u16) | letter_bits(b[2])
}

/// The language of a stream; `und` where it has none, or one of fewer than three bytes.
pub open spec fn language_of(language: Option<Seq<char>>) -> u16 {
    match language {
        Some(text) => if encode_utf8(text).len() >= 3 {
            packed_language(encode_utf8(text))
        } else {
            packed_language(seq![0x75u8, 0x6e, 0x64])
        },
        None => packed_language(seq![0x75u8, 0x6e, 0x64]),
    }
}

fn bits_of_letter(b: u8) -> (r: u16)
    ensures
        r == letter_bits(b),
{
    if b >= 0x60 {
        (b - 0x60) as u16
    } else {
        0
    }
}

fn pack_language(a: u8, b: u8, c: u8) -> (r: u16)
    ensures
        r == packed_language(seq![a, b, c]),
{
    (bits_of_letter(a) << 10u16) | (bits_of_letter(b) << 5u16) | bits_of_letter(c)
}

fn language_code(language: &Option<String>) -> (r: u16)
    ensures
        r == language_of(language.deep_view()),
{
    match language {
        Some(text) => {
            let b: &[u8] = text.as_str().as_bytes();
            if b.len() >= 3 {
                pack_language(b[0], b[1], b[2])
            } else {
                pack_language(0x75, 0x6e, 0x64)
            }
        },
        None => pack_language(0x75, 0x6e, 0x64),
    }
}

/// The name of a kind of media in a handler box.
pub open spec fn handler_of(stream_type: Seq<char>) -> Option<Seq<char>> {
    if stream_type == "audio"@ {
        Some("soun"@)
    } else if stream_type == "video"@ {
        Some("vide"@)
    } else if stream_type == "text"@ {
        Some("subt"@)
    } else {
        None
    }
}

/// The box with the brands of the file.
pub open spec fn ftyp_box() -> Seq<u8> {
    boxed(
        "ftyp"@,
        Seq::<u8>::empty() + encode_utf8("isml"@) + be(1, 4) + encode_utf8("iso5"@) + encode_utf8(
            "iso6"@,
        ) + encode_utf8("piff"@) + encode_utf8("msdh"@),
    )
}

fn gen_ftyp() -> (r: Vec<u8>)
    ensures
        r@ == ftyp_box(),
{
    let mut payload: Vec<u8> = Vec::new();
    push_text(&mut payload, "isml");
    push_u32(&mut payload, 1);
    push_text(&mut payload, "iso5");
    push_text(&mut payload, "iso6");
    push_text(&mut payload, "piff");
    push_text(&mut payload, "msdh");
    box_bytes("ftyp", payload)
}

/// The box with what holds of the whole film.
pub open spec fn mvhd_box(x: InitView) -> Seq<u8> {
    full_boxed(
        "mvhd"@,
        1,
        0,
        Seq::<u8>::empty() + be(x.created as int, 8) + be(x.created as int, 8) + be(
            or_zero(x.data.timescale as int),
            4,
        ) + be(or_zero(x.data.duration as int), 8) + be(1, 2) + be(0, 2) + zeros(0).push(1).push(0)
            + be(0, 2) + be(0, 4) + be(0, 4) + unity_matrix() + zeros(24) + be(0xffff_ffff, 4),
    )
}

/// The box with what holds of the track.
pub open spec fn tkhd_box(x: InitView) -> Seq<u8> {
    let (width, height) = dimensions_of(x.stream.resolution);
    full_boxed(
        "tkhd"@,
        1,
        7,
        Seq::<u8>::empty() + be(x.created as int, 8) + be(x.created as int, 8) + be(
            x.track as int,
            4,
        ) + be(0, 4) + be(or_zero(x.data.duration as int), 8) + be(0, 4) + be(0, 4) + be(0, 2) + be(
            0,
            2,
        ) + zeros(0).push(
            if x.data.stream_type == "audio"@ {
                1u8
            } else {
                0u8
            },
        ).push(0) + be(0, 2) + unity_matrix() + be(as_u16(width), 2) + be(0, 2) + be(
            as_u16(height),
            2,
        ) + be(0, 2),
    )
}

/// The box with what holds of the media.
pub open spec fn mdhd_box(x: InitView) -> Seq<u8> {
    full_boxed(
        "mdhd"@,
        1,
        0,
        Seq::<u8>::empty() + be(x.created as int, 8) + be(x.created as int, 8) + be(
            or_zero(x.data.timescale as int),
            4,
        ) + be(or_zero(x.data.duration as int), 8) + be(
            language_of(x.stream.language) as int,
            2,
        ) + be(0, 2),
    )
}

/// The box with the kind of the media.
pub open spec fn hdlr_box(x: InitView, handler: Seq<char>) -> Seq<u8> {
    full_boxed(
        "hdlr"@,
        0,
        0,
        (Seq::<u8>::empty() + be(0, 4) + encode_utf8(handler) + be(0, 4) + be(0, 4) + be(0, 4)
            + encode_utf8(
            match x.stream.group_id {
                Some(name) => name,
                None => "HAKI handler"@,
            },
        )).push(0),
    )
}

/// The box with how the film is extended by fragments.
pub open spec fn mvex_box(x: InitView) -> Seq<u8> {
    boxed(
        "mvex"@,
        Seq::<u8>::empty() + full_boxed(
            "mehd"@,
            1,
            0,
            Seq::<u8>::empty() + be(or_zero(x.data.duration as int), 8),
        ) + full_boxed(
            "trex"@,
            0,
            0,
            Seq::<u8>::empty() + be(x.track as int, 4) + be(1, 4) + be(0, 4) + be(0, 4) + be(0, 4),
        ),
    )
}

/// What every sample entry begins with.
pub open spec fn entry_header() -> Seq<u8> {
    Seq::<u8>::empty() + zeros(6) + be(1, 2)
}

fn sample_entry_header() -> (r: Vec<u8>)
    ensures
        r@ == entry_header(),
{
    let mut payload: Vec<u8> = Vec::new();
    push_zeros(&mut payload, 6);
    push_u16(&mut payload, 1);
    payload
}

fn push_pair(out: &mut Vec<u8>, a: u8, b: u8)
    ensures
        final(out)@ == old(out)@ + zeros(0).push(a).push(b),
{
    let ghost start = out@;
    out.push(a);
    out.push(b);
    assert(out@ =~= start + zeros(0).push(a).push(b));
}

impl<'a> InitBuilder<'a> {
    fn gen_mvhd(&self) -> (r: Vec<u8>)
        ensures
            r@ == mvhd_box(self.view()),
    {
        let mut payload: Vec<u8> = Vec::new();
        push_u64(&mut payload, self.created);
        push_u64(&mut payload, self.created);
        push_u32(&mut payload, u32_from_i32(self.data.timescale));
        push_u64(&mut payload, u64_from_i64(self.data.duration));
        push_u16(&mut payload, 1);
        push_u16(&mut payload, 0);
        push_pair(&mut payload, 1, 0);
        push_u16(&mut payload, 0);
        push_u32(&mut payload, 0);
        push_u32(&mut payload, 0);
        push_matrix(&mut payload);
        push_zeros(&mut payload, 24);
        push_u32(&mut payload, u32::MAX);
        full_box("mvhd", 1, 0, payload)
    }

    fn gen_tkhd(&self) -> (r: Vec<u8>)
        ensures
            r@ == tkhd_box(self.view()),
    {
        let (width, height) = dimensions(self.stream);
        let mut payload: Vec<u8> = Vec::new();
        push_u64(&mut payload, self.created);
        push_u64(&mut payload, self.created);
        push_u32(&mut payload, self.track);
        push_u32(&mut payload, 0);
        push_u64(&mut payload, u64_from_i64(self.data.duration));
        push_u32(&mut payload, 0);
        push_u32(&mut payload, 0);
        push_u16(&mut payload, 0);
        push_u16(&mut payload, 0);
        let volume: u8 = if same(self.data.stream_type.as_str(), "audio") {
            1
        } else {
            0
        };
        push_pair(&mut payload, volume, 0);
        push_u16(&mut payload, 0);
        push_matrix(&mut payload);
        push_u16(&mut payload, u16_from_i32(width));
        push_u16(&mut payload, 0);
        push_u16(&mut payload, u16_from_i32(height));
        push_u16(&mut payload, 0);
        full_box("tkhd", 1, 7, payload)
    }

    fn gen_mdhd(&self) -> (r: Vec<u8>)
        ensures
            r@ == mdhd_box(self.view()),
    {
        let mut payload: Vec<u8> = Vec::new();
        push_u64(&mut payload, self.created);
        push_u64(&mut payload, self.created);
        push_u32(&mut payload, u32_from_i32(self.data.timescale));
        push_u64(&mut payload, u64_from_i64(self.data.duration));
        push_u16(&mut payload, language_code(&self.stream.language));
        push_u16(&mut payload, 0);
        full_box("mdhd", 1, 0, payload)
    }

    fn gen_hdlr(&self, handler: &str) -> (r: Vec<u8>)
        ensures
            r@ == hdlr_box(self.view(), handler@),
    {
        let mut payload: Vec<u8> = Vec::new();
        push_u32(&mut payload, 0);
        push_text(&mut payload, handler);
        push_u32(&mut payload, 0);
        push_u32(&mut payload, 0);
        push_u32(&mut payload, 0);
        match &self.stream.group_id {
            Some(name) => push_text(&mut payload, name.as_str()),
            None => push_text(&mut payload, "HAKI handler"),
        }
        payload.push(0);
        full_box("hdlr", 0, 0, payload)
    }

    fn gen_mvex(&self) -> (r: Vec<u8>)
        ensures
            r@ == mvex_box(self.view()),
    {
        let mut length: Vec<u8> = Vec::new();
        push_u64(&mut length, u64_from_i64(self.data.duration));
        let mehd: Vec<u8> = full_box("mehd", 1, 0, length);
        let mut defaults: Vec<u8> = Vec::new();
        push_u32(&mut defaults, self.track);
        push_u32(&mut defaults, 1);
        push_u32(&mut defaults, 0);
        push_u32(&mut defaults, 0);
        push_u32(&mut defaults, 0);
        let trex: Vec<u8> = full_box("trex", 0, 0, defaults);
        let mut payload: Vec<u8> = Vec::new();
        push_all(&mut payload, mehd.as_slice());
        push_all(&mut payload, trex.as_slice());
        box_bytes("mvex", payload)
    }
}

/// A sample entry and the codecs that were found while it was made.
pub struct EntryView {
    pub bytes: Seq<u8>,
    pub codecs: Option<Seq<char>>,
}

struct Entry {
    bytes: Vec<u8>,
    codecs: Option<String>,
}

impl Entry {
    spec fn view(&self) -> EntryView {
        EntryView { bytes: self.bytes@, codecs: self.codecs.deep_view() }
    }
}

/// Model of a made sample entry.
spec fn view_entry(r: Result<Entry>) -> core::result::Result<EntryView, ErrorView> {
    match r {
        Ok(e) => Ok(e.view()),
        Err(e) => Err(e.deep_view()),
    }
}

/// Model of made bytes.
pub open spec fn view_bytes(r: Result<Vec<u8>>) -> core::result::Result<Seq<u8>, ErrorView> {
    match r {
        Ok(b) => Ok(b@),
        Err(e) => Err(e.deep_view()),
    }
}

/// A sample entry as it stands, or with the box that says how it is protected.
pub open spec fn sealed_entry(
    x: InitView,
    protected_kind: Seq<char>,
    kind: Seq<char>,
    payload: Seq<u8>,
) -> Seq<u8> {
    match x.protection {
        Some(p) => boxed(protected_kind, payload + sinf_box(kind, p.kid)),
        None => boxed(kind, payload),
    }
}

/// The box with the configuration of an audio decoder.
pub open spec fn esds_box(x: InitView, config: Seq<u8>) -> Seq<u8> {
    let bandwidth = match x.stream.bandwidth {
        Some(b) => b as int,
        None => 0,
    };
    full_boxed(
        "esds"@,
        0,
        0,
        (Seq::<u8>::empty().push(3).push(as_u8(20 + config.len() as int)) + be(
            x.track as int,
            2,
        )).push(0).push(4).push(as_u8(15 + config.len() as int)).push(0x40).push(0x15).push(
            0xff,
        ).push(0xff).push(0xff) + be(bandwidth, 4) + be(bandwidth, 4) + zeros(0).push(5).push(
            as_u8(config.len() as int),
        ) + config,
    )
}

/// What an audio sample entry holds.
pub open spec fn audio_payload(x: InitView, config: Seq<u8>) -> Seq<u8> {
    entry_header() + be(0, 4) + be(0, 4) + be(as_u16(x.data.channels as int), 2) + be(
        as_u16(x.data.bits_per_sample as int),
        2,
    ) + be(0, 2) + be(0, 2) + be(as_u16(x.data.sampling_rate as int), 2) + be(0, 2) + esds_box(
        x,
        config,
    )
}

/// The sample entry of audio.
pub open spec fn audio_entry(x: InitView) -> core::result::Result<EntryView, ErrorView> {
    match config_hex(x.private) {
        Err(e) => Err(e),
        Ok(config) => if starts_with(x.data.four_cc, "AAC"@) {
            Ok(
                EntryView {
                    bytes: sealed_entry(x, "enca"@, "mp4a"@, audio_payload(x, config)),
                    codecs: None,
                },
            )
        } else if x.data.four_cc == "EC-3"@ {
            Ok(
                EntryView {
                    bytes: sealed_entry(x, "enca"@, "ec-3"@, audio_payload(x, config)),
                    codecs: None,
                },
            )
        } else {
            Err(ErrorView::Compatibility("Smooth Streaming audio FourCC is not supported"@))
        },
    }
}

/// The sample entry of text.
pub open spec fn text_entry(x: InitView) -> core::result::Result<EntryView, ErrorView> {
    if x.data.four_cc != "TTML"@ {
        Err(ErrorView::Compatibility("Smooth Streaming text FourCC is not supported"@))
    } else {
        Ok(
            EntryView {
                bytes: boxed(
                    "stpp"@,
                    entry_header() + encode_utf8("http://www.w3.org/ns/ttml"@) + zeros(3),
                ),
                codecs: None,
            },
        )
    }
}

/// The first `n` parts of a text as bytes, without the empty ones, or the first error.
pub open spec fn hex_units(parts: Seq<Seq<char>>, n: int) -> core::result::Result<
    Seq<Seq<u8>>,
    ErrorView,
>
    decreases n,
{
    if n <= 0 {
        Ok(Seq::empty())
    } else {
        match hex_units(parts, n - 1) {
            Err(e) => Err(e),
            Ok(head) => if parts[n - 1].len() == 0 {
                Ok(head)
            } else {
                match config_hex(parts[n - 1]) {
                    Err(e) => Err(e),
                    Ok(unit) => Ok(head.push(unit)),
                }
            },
        }
    }
}

/// The units of codec private data, which start codes part.
pub open spec fn start_code_units(private: Seq<char>) -> core::result::Result<
    Seq<Seq<u8>>,
    ErrorView,
> {
    let parts = split(private, "00000001"@);
    hex_units(parts, parts.len() as int)
}

proof fn lemma_hex_units_stop(parts: Seq<Seq<char>>, n: int)
    requires
        0 <= n <= parts.len(),
        hex_units(parts, n) is Err,
    ensures
        hex_units(parts, parts.len() as int) == hex_units(parts, n),
    decreases parts.len() - n,
{
    if n < parts.len() {
        lemma_hex_units_stop(parts, n + 1);
    }
}

fn split_start_code_units(private: &str) -> (r: Result<Vec<Vec<u8>>>)
    ensures
        match r {
            Ok(v) => start_code_units(private@) == Ok::<Seq<Seq<u8>>, ErrorView>(v.deep_view()),
            Err(e) => start_code_units(private@) == Err::<Seq<Seq<u8>>, ErrorView>(e.deep_view()),
        },
{
    proof {
        reveal_strlit("00000001");
    }
    let parts: Vec<String> = split_text(private, "00000001");
    let ghost all = parts.deep_view();
    let mut units: Vec<Vec<u8>> = Vec::new();
    let mut i: usize = 0;
    assert(units.deep_view() =~= Seq::<Seq<u8>>::empty());
    while i < parts.len()
        invariant
            i <= parts@.len(),
            all == parts.deep_view(),
            all == split(private@, "00000001"@),
            hex_units(all, i as int) == Ok::<Seq<Seq<u8>>, ErrorView>(units.deep_view()),
        decreases parts@.len() - i,
    {
        assert(all[i as int] == parts@[i as int]@);
        if parts[i].as_str().unicode_len() > 0 {
            match hex_to_bytes(parts[i].as_str()) {
                Ok(unit) => {
                    let ghost before = units.deep_view();
                    let ghost item = unit.deep_view();
                    assert(item =~= unit@);
                    units.push(unit);
                    assert(units.deep_view() =~= before.push(item));
                },
                Err(e) => {
                    proof {
                        lemma_hex_units_stop(all, i + 1);
                    }
                    return Err(e);
                },
            }
        }
        i = i + 1;
    }
    Ok(units)
}

/// A unit of a given type, as the first byte tells.
pub open spec fn is_unit(unit: Seq<u8>, hevc: bool, kind: u8) -> bool {
    unit.len() > 0 && if hevc {
        unit[0] >> 1u8 == kind
    } else {
        unit[0] & 0x1fu8 == kind
    }
}

/// The first unit of a given type, from position `i` on.
pub open spec fn unit_from(units: Seq<Seq<u8>>, hevc: bool, kind: u8, i: int) -> Option<Seq<u8>>
    decreases units.len() - i,
{
    if i < 0 || i >= units.len() {
        None
    } else if is_unit(units[i], hevc, kind) {
        Some(units[i])
    } else {
        unit_from(units, hevc, kind, i + 1)
    }
}

fn find_unit(units: &Vec<Vec<u8>>, hevc: bool, kind: u8) -> (r: Option<&Vec<u8>>)
    ensures
        match r {
            Some(u) => unit_from(units.deep_view(), hevc, kind, 0) == Some(u@),
            None => unit_from(units.deep_view(), hevc, kind, 0) is None,
        },
{
    let ghost all = units.deep_view();
    let mut i: usize = 0;
    while i < units.len()
        invariant
            i <= units@.len(),
            all == units.deep_view(),
            unit_from(all, hevc, kind, 0) == unit_from(all, hevc, kind, i as int),
        decreases units@.len() - i,
    {
        let unit: &Vec<u8> = &units[i];
        assert(all[i as int] =~= unit@);
        if unit.len() > 0 {
            let hit: bool = if hevc {
                unit[0] >> 1u8 == kind
            } else {
                unit[0] & 0x1fu8 == kind
            };
            if hit {
                return Some(unit);
            }
        }
        i = i + 1;
    }
    None
}

/// The length of a unit and the unit.
pub open spec fn sized(unit: Seq<u8>) -> Seq<u8> {
    be(as_u16(unit.len() as int), 2) + unit
}

fn push_sized(out: &mut Vec<u8>, unit: &Vec<u8>)
    ensures
        final(out)@ == old(out)@ + sized(unit@),
{
    let ghost start = out@;
    push_u16(out, u16_from_usize(unit.len()));
    push_all(out, unit.as_slice());
    assert(out@ =~= start + sized(unit@));
}

/// One less, where a number of 32 bits can be.
pub open spec fn one_less(n: i32) -> int {
    if n == i32::MIN {
        n as int
    } else {
        n - 1
    }
}

/// The configuration box of AVC.
pub open spec fn avcc_box(x: InitView) -> core::result::Result<Seq<u8>, ErrorView> {
    match start_code_units(x.private) {
        Err(e) => Err(e),
        Ok(units) => match (unit_from(units, false, 7, 0), unit_from(units, false, 8, 0)) {
            (None, _) => Err(ErrorView::Protocol("AVC codec private data is missing SPS"@)),
            (_, None) => Err(ErrorView::Protocol("AVC codec private data is missing PPS"@)),
            (Some(sps), Some(pps)) => if sps.len() < 4 {
                Err(ErrorView::Protocol("AVC SPS is too short"@))
            } else {
                Ok(
                    boxed(
                        "avcC"@,
                        (Seq::<u8>::empty().push(1).push(sps[1]).push(sps[2]).push(sps[3]).push(
                            0xfcu8 | as_u8(one_less(x.data.nal_unit_length_field)),
                        ).push(1) + sized(sps)).push(1) + sized(pps),
                    ),
                )
            },
        },
    }
}

/// Bytes without the threes that were put behind two zeros.
pub open spec fn without_escapes(b: Seq<u8>) -> Seq<u8>
    decreases b.len(),
{
    if b.len() == 0 {
        b
    } else {
        let head = without_escapes(b.drop_last());
        let n = head.len();
        if b.last() == 3 && n >= 2 && head[n - 1] == 0 && head[n - 2] == 0 {
            head
        } else {
            head.push(b.last())
        }
    }
}

fn remove_emulation_prevention(b: &Vec<u8>) -> (r: Vec<u8>)
    ensures
        r@ == without_escapes(b@),
{
    let mut out: Vec<u8> = Vec::new();
    let mut i: usize = 0;
    assert(b@.subrange(0, 0) =~= Seq::<u8>::empty());
    while i < b.len()
        invariant
            i <= b@.len(),
            out@ == without_escapes(b@.subrange(0, i as int)),
        decreases b@.len() - i,
    {
        assert(b@.subrange(0, i + 1).drop_last() =~= b@.subrange(0, i as int));
        let n: usize = out.len();
        let escape: bool = b[i] == 3 && n >= 2 && out[n - 1] == 0 && out[n - 2] == 0;
        if !escape {
            out.push(b[i]);
        }
        i = i + 1;
    }
    assert(b@.subrange(0, b@.len() as int) =~= b@);
    out
}

/// A number in hexadecimal without leading zeros.
pub open spec fn hex_number(n: nat) -> Seq<char>
    decreases n,
{
    if n < 16 {
        seq![hex_char(n as int, false)]
    } else {
        hex_number(n / 16).push(hex_char((n % 16) as int, false))
    }
}

fn hex_number_text(n: u32) -> (r: String)
    ensures
        r@ == hex_number(n as nat),
    decreases n,
{
    let digit: char = crate::codec::hex_digit_char((n % 16) as u8, false);
    let mut out: String = if n < 16 {
        String::new()
    } else {
        hex_number_text(n / 16)
    };
    out.push(digit);
    assert(n < 16 ==> out@ =~= seq![hex_char(n as int, false)]);
    out
}

/// Bytes without the zeros among them.
pub open spec fn without_zeros(b: Seq<u8>) -> Seq<u8>
    decreases b.len(),
{
    if b.len() == 0 {
        b
    } else if b.last() == 0 {
        without_zeros(b.drop_last())
    } else {
        without_zeros(b.drop_last()).push(b.last())
    }
}

fn drop_zeros(b: &Vec<u8>) -> (r: Vec<u8>)
    ensures
        r@ == without_zeros(b@),
{
    let mut out: Vec<u8> = Vec::new();
    let mut i: usize = 0;
    assert(b@.subrange(0, 0) =~= Seq::<u8>::empty());
    while i < b.len()
        invariant
            i <= b@.len(),
            out@ == without_zeros(b@.subrange(0, i as int)),
        decreases b@.len() - i,
    {
        assert(b@.subrange(0, i + 1).drop_last() =~= b@.subrange(0, i as int));
        if b[i] != 0 {
            out.push(b[i]);
        }
        i = i + 1;
    }
    assert(b@.subrange(0, b@.len() as int) =~= b@);
    out
}

/// The letter of a profile space.
pub open spec fn space_letter(space: u8) -> Seq<char> {
    if space == 1 {
        "A"@
    } else if space == 2 {
        "B"@
    } else if space == 3 {
        "C"@
    } else {
        ""@
    }
}

/// The codecs that a parameter set of HEVC tells: profile space and profile, compatibility, tier and
/// level, constraints.
pub open spec fn hevc_codecs(code: Seq<char>, sps: Seq<u8>) -> Seq<char> {
    let profile = sps[3];
    code + "."@ + space_letter((profile & 0xc0u8) >> 6u8) + dec((profile & 0x1fu8) as nat) + "."@
        + hex_number(be32(sps, 4) as nat) + "."@ + (if (profile & 0x20u8) >> 5u8 == 1 {
        "H"@
    } else {
        "L"@
    }) + dec(sps[14] as nat) + "."@ + hex_text(without_zeros(sps.subrange(8, 14)), true)
}

/// What the configuration box of HEVC holds.
pub open spec fn hvcc_payload(x: InitView, vps: Seq<u8>, sps: Seq<u8>, pps: Seq<u8>) -> Seq<u8> {
    let clean = without_escapes(sps);
    let profile = clean[3];
    let idc = profile & 0x1fu8;
    let space = (profile & 0xc0u8) >> 6u8;
    let tier = (profile & 0x20u8) >> 5u8;
    ((((Seq::<u8>::empty().push(1).push((space << 6u8) | (tier << 5u8) | idc) + be(
        be32(clean, 4),
        4,
    ) + clean.subrange(8, 14)).push(idc) + be(0xf000, 2)).push(0xfc).push(0xfc).push(0xf8).push(
        0xf8,
    ) + be(0, 2)).push(as_u8(one_less(x.data.nal_unit_length_field))).push(3).push(0x20) + be(1, 2)
        + sized(vps)).push(0x21) + be(1, 2) + sized(sps) + (zeros(0).push(0x22) + be(1, 2) + sized(
        pps,
    ))
}

/// The configuration box of HEVC, and the codecs that its parameter set tells.
pub open spec fn hvcc_box(x: InitView, code: Seq<char>) -> core::result::Result<EntryView, ErrorView> {
    match start_code_units(x.private) {
        Err(e) => Err(e),
        Ok(units) => match (
            unit_from(units, true, 0x20, 0),
            unit_from(units, true, 0x21, 0),
            unit_from(units, true, 0x22, 0),
        ) {
            (None, _, _) => Err(ErrorView::Protocol("HEVC codec private data is missing VPS"@)),
            (_, None, _) => Err(ErrorView::Protocol("HEVC codec private data is missing SPS"@)),
            (_, _, None) => Err(ErrorView::Protocol("HEVC codec private data is missing PPS"@)),
            (Some(vps), Some(sps), Some(pps)) => if without_escapes(sps).len() < 15 {
                Err(ErrorView::Protocol("HEVC SPS is too short"@))
            } else {
                Ok(
                    EntryView {
                        bytes: boxed("hvcC"@, hvcc_payload(x, vps, sps, pps)),
                        codecs: Some(hevc_codecs(code, without_escapes(sps))),
                    },
                )
            },
        },
    }
}

/// What a video sample entry begins with.
pub open spec fn video_payload(x: InitView) -> Seq<u8> {
    let (width, height) = dimensions_of(x.stream.resolution);
    entry_header() + be(0, 2) + be(0, 2) + be(0, 4) + be(0, 4) + be(0, 4) + be(as_u16(width), 2) + be(
        as_u16(height),
        2,
    ) + be(0x48, 2) + be(0, 2) + be(0x48, 2) + be(0, 2) + be(0, 4) + be(1, 2) + zeros(32) + be(
        0x18,
        2,
    ) + be(0xffff, 2)
}

/// The sample entry of video.
pub open spec fn video_entry(x: InitView) -> core::result::Result<EntryView, ErrorView> {
    if is_avc(x.data.four_cc) {
        match avcc_box(x) {
            Err(e) => Err(e),
            Ok(b) => Ok(
                EntryView {
                    bytes: sealed_entry(x, "encv"@, "avc1"@, video_payload(x) + b),
                    codecs: None,
                },
            ),
        }
    } else if is_hevc(x.data.four_cc) || is_dolby(x.data.four_cc) {
        let code = if is_hevc(x.data.four_cc) {
            "hvc1"@
        } else {
            "dvh1"@
        };
        match hvcc_box(x, code) {
            Err(e) => Err(e),
            Ok(b) => Ok(
                EntryView {
                    bytes: sealed_entry(x, "encv"@, code, video_payload(x) + b.bytes),
                    codecs: b.codecs,
                },
            ),
        }
    } else {
        Err(ErrorView::Compatibility("Smooth Streaming video FourCC is not supported"@))
    }
}

impl<'a> InitBuilder<'a> {
    fn seal(&self, protected_kind: &str, kind: &str, payload: Vec<u8>) -> (r: Vec<u8>)
        ensures
            r@ == sealed_entry(self.view(), protected_kind@, kind@, payload@),
    {
        match &self.protection {
            Some(p) => {
                let mut payload: Vec<u8> = payload;
                let sinf: Vec<u8> = gen_sinf(kind, &p.kid);
                push_all(&mut payload, sinf.as_slice());
                box_bytes(protected_kind, payload)
            },
            None => box_bytes(kind, payload),
        }
    }

    fn gen_esds(&self, config: &Vec<u8>) -> (r: Vec<u8>)
        ensures
            r@ == esds_box(self.view(), config@),
    {
        let bandwidth: i64 = match self.stream.bandwidth {
            Some(b) => b,
            None => 0,
        };
        let n: usize = config.len();
        let mut payload: Vec<u8> = Vec::new();
        payload.push(3);
        payload.push(
            if n <= 235 {
                u8_from_usize(20 + n)
            } else {
                255
            },
        );
        proof {
            crate::boxes::lemma_be_low_two(self.track as int, (self.track % 65536) as int);
        }
        push_u16(&mut payload, (self.track % 65536) as u16);
        payload.push(0);
        payload.push(4);
        payload.push(
            if n <= 240 {
                u8_from_usize(15 + n)
            } else {
                255
            },
        );
        payload.push(0x40);
        payload.push(0x15);
        payload.push(0xff);
        payload.push(0xff);
        payload.push(0xff);
        push_low_u32(&mut payload, bandwidth);
        push_low_u32(&mut payload, bandwidth);
        push_pair(&mut payload, 5, u8_from_usize(n));
        push_all(&mut payload, config.as_slice());
        full_box("esds", 0, 0, payload)
    }

    fn audio_sample_entry(&self) -> (r: Result<Entry>)
        ensures
            view_entry(r) == audio_entry(self.view()),
    {
        let config: Vec<u8> = hex_to_bytes(self.private)?;
        let mut payload: Vec<u8> = sample_entry_header();
        push_u32(&mut payload, 0);
        push_u32(&mut payload, 0);
        push_u16(&mut payload, u16_from_i32(self.data.channels));
        push_u16(&mut payload, u16_from_i32(self.data.bits_per_sample));
        push_u16(&mut payload, 0);
        push_u16(&mut payload, 0);
        push_u16(&mut payload, u16_from_i32(self.data.sampling_rate));
        push_u16(&mut payload, 0);
        let esds: Vec<u8> = self.gen_esds(&config);
        push_all(&mut payload, esds.as_slice());
        if begins_with(self.data.four_cc.as_str(), "AAC") {
            return Ok(Entry { bytes: self.seal("enca", "mp4a", payload), codecs: None });
        }
        if same(self.data.four_cc.as_str(), "EC-3") {
            return Ok(Entry { bytes: self.seal("enca", "ec-3", payload), codecs: None });
        }
        Err(Error::compatibility("Smooth Streaming audio FourCC is not supported"))
    }

    fn text_sample_entry(&self) -> (r: Result<Entry>)
        ensures
            view_entry(r) == text_entry(self.view()),
    {
        if !same(self.data.four_cc.as_str(), "TTML") {
            return Err(Error::compatibility("Smooth Streaming text FourCC is not supported"));
        }
        let mut payload: Vec<u8> = sample_entry_header();
        push_text(&mut payload, "http://www.w3.org/ns/ttml");
        push_zeros(&mut payload, 3);
        Ok(Entry { bytes: box_bytes("stpp", payload), codecs: None })
    }

    fn length_field(&self) -> (r: u8)
        ensures
            r == as_u8(one_less(self.view().data.nal_unit_length_field)),
    {
        let n: i32 = self.data.nal_unit_length_field;
        u8_from_i32(
            if n == i32::MIN {
                n
            } else {
                n - 1
            },
        )
    }

    fn gen_avcc(&self) -> (r: Result<Vec<u8>>)
        ensures
            view_bytes(r) == avcc_box(self.view()),
    {
        let units: Vec<Vec<u8>> = split_start_code_units(self.private)?;
        let sps: &Vec<u8> = match find_unit(&units, false, 7) {
            Some(u) => u,
            None => {
                return Err(Error::protocol("AVC codec private data is missing SPS"));
            },
        };
        let pps: &Vec<u8> = match find_unit(&units, false, 8) {
            Some(u) => u,
            None => {
                return Err(Error::protocol("AVC codec private data is missing PPS"));
            },
        };
        if sps.len() < 4 {
            return Err(Error::protocol("AVC SPS is too short"));
        }
        let mut payload: Vec<u8> = Vec::new();
        payload.push(1);
        payload.push(sps[1]);
        payload.push(sps[2]);
        payload.push(sps[3]);
        payload.push(0xfcu8 | self.length_field());
        payload.push(1);
        push_sized(&mut payload, sps);
        payload.push(1);
        push_sized(&mut payload, pps);
        Ok(box_bytes("avcC", payload))
    }

    fn gen_hvcc_payload(&self, vps: &Vec<u8>, sps: &Vec<u8>, pps: &Vec<u8>, clean: &Vec<u8>) -> (r:
        Vec<u8>)
        requires
            clean@ == without_escapes(sps@),
            clean@.len() >= 15,
        ensures
            r@ == hvcc_payload(self.view(), vps@, sps@, pps@),
    {
        let profile: u8 = clean[3];
        let idc: u8 = profile & 0x1fu8;
        let space: u8 = (profile & 0xc0u8) >> 6u8;
        let tier: u8 = (profile & 0x20u8) >> 5u8;
        let mut constraint: Vec<u8> = Vec::new();
        constraint.push(clean[8]);
        constraint.push(clean[9]);
        constraint.push(clean[10]);
        constraint.push(clean[11]);
        constraint.push(clean[12]);
        constraint.push(clean[13]);
        assert(constraint@ =~= clean@.subrange(8, 14));
        let mut payload: Vec<u8> = Vec::new();
        payload.push(1);
        payload.push((space << 6u8) | (tier << 5u8) | idc);
        push_u32(&mut payload, read_be32(clean, 4) as u32);
        push_all(&mut payload, constraint.as_slice());
        payload.push(idc);
        push_u16(&mut payload, 0xf000);
        payload.push(0xfc);
        payload.push(0xfc);
        payload.push(0xf8);
        payload.push(0xf8);
        push_u16(&mut payload, 0);
        payload.push(self.length_field());
        payload.push(3);
        payload.push(0x20);
        push_u16(&mut payload, 1);
        push_sized(&mut payload, vps);
        payload.push(0x21);
        push_u16(&mut payload, 1);
        push_sized(&mut payload, sps);
        let mut last: Vec<u8> = Vec::new();
        push_zeros(&mut last, 0);
        assert(last@ =~= zeros(0));
        last.push(0x22);
        push_u16(&mut last, 1);
        push_sized(&mut last, pps);
        push_all(&mut payload, last.as_slice());
        payload
    }

    fn gen_hvcc(&self, code: &str) -> (r: Result<Entry>)
        ensures
            view_entry(r) == hvcc_box(self.view(), code@),
    {
        let units: Vec<Vec<u8>> = split_start_code_units(self.private)?;
        let vps: &Vec<u8> = match find_unit(&units, true, 0x20) {
            Some(u) => u,
            None => {
                return Err(Error::protocol("HEVC codec private data is missing VPS"));
            },
        };
        let sps: &Vec<u8> = match find_unit(&units, true, 0x21) {
            Some(u) => u,
            None => {
                return Err(Error::protocol("HEVC codec private data is missing SPS"));
            },
        };
        let pps: &Vec<u8> = match find_unit(&units, true, 0x22) {
            Some(u) => u,
            None => {
                return Err(Error::protocol("HEVC codec private data is missing PPS"));
            },
        };
        let clean: Vec<u8> = remove_emulation_prevention(sps);
        if clean.len() < 15 {
            return Err(Error::protocol("HEVC SPS is too short"));
        }
        let payload: Vec<u8> = self.gen_hvcc_payload(vps, sps, pps, &clean);
        let codecs: String = hevc_codecs_text(code, &clean);
        Ok(Entry { bytes: box_bytes("hvcC", payload), codecs: Some(codecs) })
    }

    fn video_sample_entry(&self) -> (r: Result<Entry>)
        ensures
            view_entry(r) == video_entry(self.view()),
    {
        let (width, height) = dimensions(self.stream);
        let mut payload: Vec<u8> = sample_entry_header();
        push_u16(&mut payload, 0);
        push_u16(&mut payload, 0);
        push_u32(&mut payload, 0);
        push_u32(&mut payload, 0);
        push_u32(&mut payload, 0);
        push_u16(&mut payload, u16_from_i32(width));
        push_u16(&mut payload, u16_from_i32(height));
        push_u16(&mut payload, 0x48);
        push_u16(&mut payload, 0);
        push_u16(&mut payload, 0x48);
        push_u16(&mut payload, 0);
        push_u32(&mut payload, 0);
        push_u16(&mut payload, 1);
        push_zeros(&mut payload, 32);
        push_u16(&mut payload, 0x18);
        push_u16(&mut payload, 0xffff);
        let four_cc: &str = self.data.four_cc.as_str();
        if avc_name(four_cc) {
            let b: Vec<u8> = self.gen_avcc()?;
            push_all(&mut payload, b.as_slice());
            return Ok(Entry { bytes: self.seal("encv", "avc1", payload), codecs: None });
        }
        if hevc_name(four_cc) || dolby_name(four_cc) {
            let code: &str = if hevc_name(four_cc) {
                "hvc1"
            } else {
                "dvh1"
            };
            let b: Entry = self.gen_hvcc(code)?;
            push_all(&mut payload, b.bytes.as_slice());
            return Ok(Entry { bytes: self.seal("encv", code, payload), codecs: b.codecs });
        }
        Err(Error::compatibility("Smooth Streaming video FourCC is not supported"))
    }
}

fn hevc_codecs_text(code: &str, sps: &Vec<u8>) -> (r: String)
    requires
        sps@.len() >= 15,
    ensures
        r@ == hevc_codecs(code@, sps@),
{
    let profile: u8 = sps[3];
    let space: u8 = (profile & 0xc0u8) >> 6u8;
    let tier: u8 = (profile & 0x20u8) >> 5u8;
    let mut constraint: Vec<u8> = Vec::new();
    constraint.push(sps[8]);
    constraint.push(sps[9]);
    constraint.push(sps[10]);
    constraint.push(sps[11]);
    constraint.push(sps[12]);
    constraint.push(sps[13]);
    assert(constraint@ =~= sps@.subrange(8, 14));
    let kept: Vec<u8> = drop_zeros(&constraint);
    let mut out: String = owned(code);
    out.append(".");
    out.append(
        if space == 1 {
            "A"
        } else if space == 2 {
            "B"
        } else if space == 3 {
            "C"
        } else {
            ""
        },
    );
    out.append(u64_text((profile & 0x1fu8) as u64).as_str());
    out.append(".");
    out.append(hex_number_text(read_be32(sps, 4) as u32).as_str());
    out.append(".");
    out.append(
        if tier == 1 {
            "H"
        } else {
            "L"
        },
    );
    out.append(u64_text(sps[14] as u64).as_str());
    out.append(".");
    out.append(bytes_to_hex(&kept, true).as_str());
    out
}

/// The sample entry of a stream.
#[verifier::opaque]
pub open spec fn sample_entry_of(x: InitView) -> core::result::Result<EntryView, ErrorView> {
    if x.data.stream_type == "audio"@ {
        audio_entry(x)
    } else if x.data.stream_type == "video"@ {
        video_entry(x)
    } else if x.data.stream_type == "text"@ {
        text_entry(x)
    } else {
        Err(ErrorView::Compatibility("Smooth Streaming stream type is not supported"@))
    }
}

/// The boxes of the empty sample tables around a sample entry.
pub open spec fn stbl_box(entry: Seq<u8>) -> Seq<u8> {
    boxed(
        "stbl"@,
        Seq::<u8>::empty() + full_boxed("stts"@, 0, 0, zeros(4)) + full_boxed(
            "stsc"@,
            0,
            0,
            zeros(4),
        ) + full_boxed("stco"@, 0, 0, zeros(4)) + full_boxed("stsz"@, 0, 0, zeros(8)) + full_boxed(
            "stsd"@,
            0,
            0,
            Seq::<u8>::empty() + be(1, 4) + entry,
        ),
    )
}

/// The box of a kind of media.
pub open spec fn media_header(stream_type: Seq<char>) -> Seq<u8> {
    if stream_type == "audio"@ {
        full_boxed("smhd"@, 0, 0, zeros(4))
    } else if stream_type == "video"@ {
        full_boxed("vmhd"@, 0, 1, zeros(8))
    } else {
        full_boxed("sthd"@, 0, 0, zeros(0))
    }
}

/// The box with what the samples are.
pub open spec fn minf_box(stream_type: Seq<char>, entry: Seq<u8>) -> Seq<u8> {
    boxed(
        "minf"@,
        Seq::<u8>::empty() + media_header(stream_type) + boxed(
            "dinf"@,
            full_boxed(
                "dref"@,
                0,
                0,
                Seq::<u8>::empty() + be(1, 4) + full_boxed("url "@, 0, 1, zeros(0)),
            ),
        ) + stbl_box(entry),
    )
}

fn zero_bytes(n: usize) -> (r: Vec<u8>)
    ensures
        r@ == zeros(n as nat),
{
    let mut out: Vec<u8> = Vec::new();
    push_zeros(&mut out, n);
    assert(out@ =~= zeros(n as nat));
    out
}

fn gen_stbl(entry: &Vec<u8>) -> (r: Vec<u8>)
    ensures
        r@ == stbl_box(entry@),
{
    let mut payload: Vec<u8> = Vec::new();
    push_all(&mut payload, full_box("stts", 0, 0, zero_bytes(4)).as_slice());
    push_all(&mut payload, full_box("stsc", 0, 0, zero_bytes(4)).as_slice());
    push_all(&mut payload, full_box("stco", 0, 0, zero_bytes(4)).as_slice());
    push_all(&mut payload, full_box("stsz", 0, 0, zero_bytes(8)).as_slice());
    let mut described: Vec<u8> = Vec::new();
    push_u32(&mut described, 1);
    push_all(&mut described, entry.as_slice());
    push_all(&mut payload, full_box("stsd", 0, 0, described).as_slice());
    box_bytes("stbl", payload)
}

fn gen_minf(stream_type: &str, entry: &Vec<u8>) -> (r: Vec<u8>)
    ensures
        r@ == minf_box(stream_type@, entry@),
{
    let mut payload: Vec<u8> = Vec::new();
    let header: Vec<u8> = if same(stream_type, "audio") {
        full_box("smhd", 0, 0, zero_bytes(4))
    } else if same(stream_type, "video") {
        full_box("vmhd", 0, 1, zero_bytes(8))
    } else {
        full_box("sthd", 0, 0, zero_bytes(0))
    };
    push_all(&mut payload, header.as_slice());
    let mut places: Vec<u8> = Vec::new();
    push_u32(&mut places, 1);
    push_all(&mut places, full_box("url ", 0, 1, zero_bytes(0)).as_slice());
    let dref: Vec<u8> = full_box("dref", 0, 0, places);
    push_all(&mut payload, box_bytes("dinf", dref).as_slice());
    push_all(&mut payload, gen_stbl(entry).as_slice());
    box_bytes("minf", payload)
}

/// The box with the one track.
pub open spec fn trak_box(x: InitView, handler: Seq<char>, entry: Seq<u8>) -> Seq<u8> {
    boxed(
        "trak"@,
        Seq::<u8>::empty() + tkhd_box(x) + boxed(
            "mdia"@,
            Seq::<u8>::empty() + mdhd_box(x) + hdlr_box(x, handler) + minf_box(
                x.data.stream_type,
                entry,
            ),
        ),
    )
}

/// The box with everything but the samples.
#[verifier::opaque]
pub open spec fn moov_box(x: InitView, handler: Seq<char>, entry: Seq<u8>) -> Seq<u8> {
    let bare = Seq::<u8>::empty() + mvhd_box(x) + trak_box(x, handler, entry) + mvex_box(x);
    boxed(
        "moov"@,
        match x.protection {
            None => bare,
            Some(p) => bare + pssh_box(p.system_id, p.data) + pssh_box(
                widevine_id(),
                widevine_data(p.kid),
            ),
        },
    )
}

/// The initialization segment that follows from its parts, and the codecs found on the way.
pub open spec fn init_segment(x: InitView) -> core::result::Result<EntryView, ErrorView> {
    match (handler_of(x.data.stream_type), sample_entry_of(x)) {
        (None, _) => Err(
            ErrorView::Compatibility("Smooth Streaming stream type is not supported"@),
        ),
        (_, Err(e)) => Err(e),
        (Some(handler), Ok(entry)) => Ok(
            EntryView {
                bytes: ftyp_box() + moov_box(x, handler, entry.bytes),
                codecs: entry.codecs,
            },
        ),
    }
}

impl<'a> InitBuilder<'a> {
    fn gen_trak(&self, handler: &str, entry: &Vec<u8>) -> (r: Vec<u8>)
        ensures
            r@ == trak_box(self.view(), handler@, entry@),
    {
        let mut media: Vec<u8> = Vec::new();
        push_all(&mut media, self.gen_mdhd().as_slice());
        push_all(&mut media, self.gen_hdlr(handler).as_slice());
        push_all(&mut media, gen_minf(self.data.stream_type.as_str(), entry).as_slice());
        let mut payload: Vec<u8> = Vec::new();
        push_all(&mut payload, self.gen_tkhd().as_slice());
        push_all(&mut payload, box_bytes("mdia", media).as_slice());
        box_bytes("trak", payload)
    }

    fn gen_moov(&self, handler: &str, entry: &Vec<u8>) -> (r: Vec<u8>)
        ensures
            r@ == moov_box(self.view(), handler@, entry@),
    {
        proof {
            reveal(moov_box);
        }
        let mut payload: Vec<u8> = Vec::new();
        push_all(&mut payload, self.gen_mvhd().as_slice());
        push_all(&mut payload, self.gen_trak(handler, entry).as_slice());
        push_all(&mut payload, self.gen_mvex().as_slice());
        match &self.protection {
            None => {},
            Some(p) => {
                push_all(&mut payload, gen_pssh_box(p.system_id.as_str(), &p.data).as_slice());
                push_all(&mut payload, gen_widevine_pssh_box(&p.kid).as_slice());
            },
        }
        box_bytes("moov", payload)
    }

    fn sample_entry(&self) -> (r: Result<Entry>)
        ensures
            view_entry(r) == sample_entry_of(self.view()),
    {
        proof {
            reveal(sample_entry_of);
        }
        let stream_type: &str = self.data.stream_type.as_str();
        if same(stream_type, "audio") {
            self.audio_sample_entry()
        } else if same(stream_type, "video") {
            self.video_sample_entry()
        } else if same(stream_type, "text") {
            self.text_sample_entry()
        } else {
            Err(Error::compatibility("Smooth Streaming stream type is not supported"))
        }
    }

    fn build(&self) -> (r: Result<Entry>)
        ensures
            view_entry(r) == init_segment(self.view()),
    {
        let stream_type: &str = self.data.stream_type.as_str();
        let handler: &str = if same(stream_type, "audio") {
            "soun"
        } else if same(stream_type, "video") {
            "vide"
        } else if same(stream_type, "text") {
            "subt"
        } else {
            return Err(Error::compatibility("Smooth Streaming stream type is not supported"));
        };
        let entry: Entry = self.sample_entry()?;
        let mut bytes: Vec<u8> = gen_ftyp();
        push_all(&mut bytes, self.gen_moov(handler, &entry.bytes).as_slice());
        Ok(Entry { bytes, codecs: entry.codecs })
    }
}

/// The codec private data of a stream, or the audio configuration that follows from its other
/// attributes where it has none.
pub open spec fn private_of(data: MssDataView) -> Seq<char> {
    if data.codec_private_data.len() > 0 {
        data.codec_private_data
    } else {
        match aac_config(data.four_cc, data.sampling_rate as int, data.channels as int) {
            Some(b) => wide_hex(b),
            None => ""@,
        }
    }
}

/// The initialization segment of a stream for a track, made at a given second.
pub open spec fn generated_init(stream: StreamView, track: u32, created: u64) -> core::result::Result<
    MssGeneratedInitView,
    ErrorView,
> {
    match stream.mss_data {
        None => Err(ErrorView::Protocol("Smooth Streaming stream is missing metadata"@)),
        Some(data) => if !is_handled(data.four_cc) {
            Err(ErrorView::Compatibility("Smooth Streaming FourCC is not supported"@))
        } else if data.is_protection && protection_of(data) is Err {
            Err(protection_of(data)->Err_0)
        } else {
            let x = InitView {
                stream,
                data,
                private: private_of(data),
                protection: if data.is_protection {
                    Some(protection_of(data)->Ok_0)
                } else {
                    None
                },
                created,
                track,
            };
            match init_segment(x) {
                Err(e) => Err(e),
                Ok(made) => Ok(
                    MssGeneratedInitView {
                        bytes: made.bytes,
                        codec_private_data: x.private,
                        codecs: made.codecs,
                    },
                ),
            }
        },
    }
}

/// Model of a made initialization segment.
pub open spec fn view_init(r: Result<MssGeneratedInit>) -> core::result::Result<
    MssGeneratedInitView,
    ErrorView,
> {
    match r {
        Ok(m) => Ok(m.deep_view()),
        Err(e) => Err(e.deep_view()),
    }
}

/// The track that the first fragment header between two positions names. A box of a wrong length
/// ends the search of the boxes beside it.
pub open spec fn track_between(b: Seq<u8>, start: int, end: int) -> Option<u32>
    decreases end - start,
{
    if start < 0 || start + 8 > end {
        None
    } else {
        let size = be32(b, start);
        if size < 8 || start + size > end {
            None
        } else if is_tag(b, start + 4, 0x74, 0x66, 0x68, 0x64) {
            if start + 16 <= b.len() {
                Some(be32(b, start + 12) as u32)
            } else {
                None
            }
        } else {
            let within = if is_tag(b, start + 4, 0x6d, 0x6f, 0x6f, 0x66) || is_tag(
                b,
                start + 4,
                0x74,
                0x72,
                0x61,
                0x66,
            ) {
                track_between(b, start + 8, start + size)
            } else {
                None
            };
            if within is Some {
                within
            } else {
                track_between(b, start + size, end)
            }
        }
    }
}

fn find_tfhd_track_id(b: &Vec<u8>, start: usize, end: usize) -> (r: Option<u32>)
    requires
        end <= b@.len(),
    ensures
        r == track_between(b@, start as int, end as int),
    decreases end - start,
{
    let _len: usize = b.len();
    if end < 8 || start > end - 8 {
        return None;
    }
    let size: u64 = read_be32(b, start);
    if size < 8 || size > (end - start) as u64 {
        return None;
    }
    let box_end: usize = start + size as usize;
    if has_tag(b, start + 4, 0x74, 0x66, 0x68, 0x64) {
        if b.len() - start >= 16 {
            return Some(read_be32(b, start + 12) as u32);
        }
        return None;
    }
    if has_tag(b, start + 4, 0x6d, 0x6f, 0x6f, 0x66) || has_tag(
        b,
        start + 4,
        0x74,
        0x72,
        0x61,
        0x66,
    ) {
        let within: Option<u32> = find_tfhd_track_id(b, start + 8, box_end);
        if within.is_some() {
            return within;
        }
    }
    find_tfhd_track_id(b, box_end, end)
}

/// The track that the first fragment header of a segment names, and 2 where there is none.
pub open spec fn track_of(segment: Seq<u8>) -> u32 {
    match track_between(segment, 0, segment.len() as int) {
        Some(track) => track,
        None => 2,
    }
}

/// Makes initialization segments.
#[derive(Clone, Copy, Debug)]
pub struct MssInitGenerator;

impl MssInitGenerator {
    /// Whether an initialization segment can be made for a format.
    pub fn can_handle(four_cc: &str) -> (r: bool)
        ensures
            r == is_handled(four_cc@),
    {
        hevc_name(four_cc) || dolby_name(four_cc) || avc_name(four_cc) || same(four_cc, "AACL")
            || same(four_cc, "AACH") || same(four_cc, "EC-3") || same(four_cc, "TTML")
    }

    /// The initialization segment of a stream, made at a given second of Unix time.
    pub fn generate(stream: &Stream, created: u64) -> (r: Result<MssGeneratedInit>)
        ensures
            view_init(r) == generated_init(stream.deep_view(), 2, created),
    {
        Self::generate_with_track_id(stream, 2, created)
    }

    /// The initialization segment of a stream for the track of its first segment, made at a given
    /// second of Unix time.
    pub fn generate_with_first_segment(stream: &Stream, first_segment: &Vec<u8>, created: u64) -> (r:
        Result<MssGeneratedInit>)
        ensures
            view_init(r) == generated_init(
                stream.deep_view(),
                track_of(first_segment@),
                created,
            ),
    {
        let track: u32 = match find_tfhd_track_id(first_segment, 0, first_segment.len()) {
            Some(t) => t,
            None => 2,
        };
        Self::generate_with_track_id(stream, track, created)
    }

    fn generate_with_track_id(stream: &Stream, track: u32, created: u64) -> (r: Result<
        MssGeneratedInit,
    >)
        ensures
            view_init(r) == generated_init(stream.deep_view(), track, created),
    {
        let data: &MssData = match &stream.mss_data {
            None => {
                return Err(Error::protocol("Smooth Streaming stream is missing metadata"));
            },
            Some(d) => d,
        };
        if !Self::can_handle(data.four_cc.as_str()) {
            return Err(Error::compatibility("Smooth Streaming FourCC is not supported"));
        }
        let protection: Option<ProtectionContext> = if data.is_protection {
            Some(ProtectionContext::from_mss_data(data)?)
        } else {
            None
        };
        let private: String = if data.codec_private_data.as_str().unicode_len() > 0 {
            data.codec_private_data.clone()
        } else {
            match Self::generate_aac_codec_private_data(
                data.four_cc.as_str(),
                data.sampling_rate,
                data.channels,
            ) {
                Some(text) => text,
                None => owned(""),
            }
        };
        let builder: InitBuilder = InitBuilder {
            stream,
            data,
            private: private.as_str(),
            protection,
            created,
            track,
        };
        let made: Entry = builder.build()?;
        Ok(
            MssGeneratedInit {
                bytes: made.bytes,
                codec_private_data: owned(builder.private),
                codecs: made.codecs,
            },
        )
    }

    /// The audio configuration that follows from a sampling rate and a number of channels, as text.
    pub fn generate_aac_codec_private_data(four_cc: &str, sampling_rate: i32, channels: i32) -> (r:
        Option<String>)
        ensures
            r.deep_view() == match aac_config(
                four_cc@,
                sampling_rate as int,
                channels as int,
            ) {
                Some(b) => Some(wide_hex(b)),
                None => None,
            },
    {
        if !begins_with(four_cc, "AAC") || channels < 0 || channels > 255 {
            proof {
                reveal_strlit("AAC");
                reveal_strlit("AACH");
            }
            return None;
        }
        let f: u8 = sampling_frequency_index(sampling_rate as i64);
        let x: u8 = sampling_frequency_index(2 * (sampling_rate as i64));
        let c: u8 = channels as u8;
        proof {
            reveal_with_fuel(wide_hex, 3);
        }
        if same(four_cc, "AACH") {
            let b0: u8 = (5u8 << 3u8) | (f >> 1u8);
            let b1: u8 = (f << 7u8) | (c << 3u8) | (x >> 1u8);
            let b2: u8 = (x << 7u8) | (2u8 << 2u8);
            let first: String = wide_pair(b0, b1);
            let second: String = wide_pair(b2, 0);
            proof {
                let all = seq![b0, b1, b2, 0u8];
                assert(all.subrange(0, 2) =~= seq![b0, b1]);
                assert(all.skip(2).subrange(0, 2) =~= seq![b2, 0u8]);
                assert(wide_hex(all.skip(2).skip(2)) =~= Seq::empty());
                assert(wide_hex(all) =~= first@ + second@);
            }
            return Some(cat2(first.as_str(), second.as_str()));
        }
        let b0: u8 = (2u8 << 3u8) | (f >> 1u8);
        let b1: u8 = (f << 7u8) | (c << 3u8);
        let text: String = wide_pair(b0, b1);
        proof {
            let all = seq![b0, b1];
            assert(all.subrange(0, 2) =~= all);
            assert(wide_hex(all) =~= text@);
        }
        Some(text)
    }
}

} // verus!
