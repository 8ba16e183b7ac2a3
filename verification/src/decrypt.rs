//! Decryption of segments, protection data of MP4 files, and redaction of secrets.

use crate::codec::{base64_encode, base64_text, bytes_to_hex, hex_text};
use crate::config::{CustomKey, CustomKeyView, DecryptionEngine};
use crate::error::{Error, ErrorView, Result};
use crate::manifest::EncryptionMethod;
use crate::outside::{
    aes_cbc_plain, aes_ecb_plain, cbc_decrypt, chacha20_apply, chacha20_byte, ecb_decrypt,
    lossy_text, utf8_lossy,
};
use crate::path::{file_name, parent, path_file_name, path_parent};
use crate::text::{
    begins_with, cat2, cat3, cat4, cat5, contains, cut_once, dec, drop, ends_with, find, find_text,
    finishes_with, has_text, is_space, join, join_texts, lemma_find_from, lines, lines_text,
    occurs_at, opt, owned, same, slice, slice_from, space_char, split_once, starts_with, take,
    to_chars, trim, trimmed, u64_text, usize_text,
};
use vstd::prelude::*;

verus! {

/// Key identifier that stands for no identifier.
pub open spec fn zero_kid() -> Seq<char> {
    "00000000000000000000000000000000"@
}

/// System that protection data is meant for.
#[derive(Clone, Copy, Debug, PartialEq, Eq, Structural)]
pub enum PsshSystem {
    Widevine,
    PlayReady,
    FairPlay,
}

/// Protection data of one system, in base64.
#[derive(Debug, PartialEq, Eq)]
pub struct PsshInfo {
    pub system: PsshSystem,
    pub data: String,
}

/// Model of `PsshInfo`.
pub struct PsshInfoView {
    pub system: PsshSystem,
    pub data: Seq<char>,
}

impl DeepView for PsshInfo {
    type V = PsshInfoView;

    open spec fn deep_view(&self) -> PsshInfoView {
        PsshInfoView { system: self.system, data: self.data@ }
    }
}

/// What an MP4 file says of its protection.
#[derive(Debug, PartialEq, Eq)]
pub struct Mp4ProtectionInfo {
    pub pssh: Option<String>,
    pub pssh_system: Option<PsshSystem>,
    pub psshs: Vec<PsshInfo>,
    pub kid: Option<String>,
    pub scheme: Option<String>,
    pub is_multi_drm: bool,
}

/// Model of `Mp4ProtectionInfo`.
pub struct Mp4ProtectionInfoView {
    pub pssh: Option<Seq<char>>,
    pub pssh_system: Option<PsshSystem>,
    pub psshs: Seq<PsshInfoView>,
    pub kid: Option<Seq<char>>,
    pub scheme: Option<Seq<char>>,
    pub is_multi_drm: bool,
}

impl DeepView for Mp4ProtectionInfo {
    type V = Mp4ProtectionInfoView;

    open spec fn deep_view(&self) -> Mp4ProtectionInfoView {
        Mp4ProtectionInfoView {
            pssh: self.pssh.deep_view(),
            pssh_system: self.pssh_system,
            psshs: self.psshs.deep_view(),
            kid: self.kid.deep_view(),
            scheme: self.scheme.deep_view(),
            is_multi_drm: self.is_multi_drm,
        }
    }
}

/// Nothing known.
pub open spec fn no_protection() -> Mp4ProtectionInfoView {
    Mp4ProtectionInfoView {
        pssh: None,
        pssh_system: None,
        psshs: Seq::empty(),
        kid: None,
        scheme: None,
        is_multi_drm: false,
    }
}

/// A big endian number of four bytes.
pub open spec fn be32(s: Seq<u8>, i: int) -> int {
    s[i] * 0x1000000 + s[i + 1] * 0x10000 + s[i + 2] * 0x100 + s[i + 3]
}

pub(crate) fn read_be32(s: &Vec<u8>, i: usize) -> (r: u64)
    requires
        i + 4 <= s@.len(),
    ensures
        r == be32(s@, i as int),
        r <= 0xffff_ffff,
{
    let _len: usize = s.len();
    s[i] as u64 * 0x1000000 + s[i + 1] as u64 * 0x10000 + s[i + 2] as u64 * 0x100 + s[i + 3] as u64
}

/// The bytes of four ASCII characters at `i`.
pub open spec fn is_tag(s: Seq<u8>, i: int, a: u8, b: u8, c: u8, d: u8) -> bool {
    s[i] == a && s[i + 1] == b && s[i + 2] == c && s[i + 3] == d
}

/// A box that may hold protection boxes.
pub open spec fn is_container(s: Seq<u8>, i: int) -> bool {
    ||| is_tag(s, i, 0x6d, 0x6f, 0x6f, 0x76)
    ||| is_tag(s, i, 0x74, 0x72, 0x61, 0x6b)
    ||| is_tag(s, i, 0x6d, 0x64, 0x69, 0x61)
    ||| is_tag(s, i, 0x6d, 0x69, 0x6e, 0x66)
    ||| is_tag(s, i, 0x73, 0x74, 0x62, 0x6c)
    ||| is_tag(s, i, 0x73, 0x74, 0x73, 0x64)
    ||| is_tag(s, i, 0x65, 0x6e, 0x63, 0x76)
    ||| is_tag(s, i, 0x65, 0x6e, 0x63, 0x61)
    ||| is_tag(s, i, 0x65, 0x6e, 0x63, 0x74)
    ||| is_tag(s, i, 0x65, 0x6e, 0x63, 0x73)
    ||| is_tag(s, i, 0x73, 0x69, 0x6e, 0x66)
    ||| is_tag(s, i, 0x73, 0x63, 0x68, 0x69)
}

pub(crate) fn has_tag(s: &Vec<u8>, i: usize, a: u8, b: u8, c: u8, d: u8) -> (r: bool)
    requires
        i + 4 <= s@.len(),
    ensures
        r == is_tag(s@, i as int, a, b, c, d),
{
    let _len: usize = s.len();
    s[i] == a && s[i + 1] == b && s[i + 2] == c && s[i + 3] == d
}

fn has_container_tag(s: &Vec<u8>, i: usize) -> (r: bool)
    requires
        i + 4 <= s@.len(),
    ensures
        r == is_container(s@, i as int),
{
    has_tag(s, i, 0x6d, 0x6f, 0x6f, 0x76) || has_tag(s, i, 0x74, 0x72, 0x61, 0x6b) || has_tag(
        s,
        i,
        0x6d,
        0x64,
        0x69,
        0x61,
    ) || has_tag(s, i, 0x6d, 0x69, 0x6e, 0x66) || has_tag(s, i, 0x73, 0x74, 0x62, 0x6c) || has_tag(
        s,
        i,
        0x73,
        0x74,
        0x73,
        0x64,
    ) || has_tag(s, i, 0x65, 0x6e, 0x63, 0x76) || has_tag(s, i, 0x65, 0x6e, 0x63, 0x61) || has_tag(
        s,
        i,
        0x65,
        0x6e,
        0x63,
        0x74,
    ) || has_tag(s, i, 0x65, 0x6e, 0x63, 0x73) || has_tag(s, i, 0x73, 0x69, 0x6e, 0x66) || has_tag(
        s,
        i,
        0x73,
        0x63,
        0x68,
        0x69,
    )
}

/// The identifier of a protection system.
pub open spec fn system_id(system: PsshSystem) -> Seq<u8> {
    match system {
        PsshSystem::Widevine => seq![
            0xedu8, 0xef, 0x8b, 0xa9, 0x79, 0xd6, 0x4a, 0xce, 0xa3, 0xc8, 0x27, 0xdc, 0xd5, 0x1d,
            0x21, 0xed,
        ],
        PsshSystem::PlayReady => seq![
            0x9au8, 0x04, 0xf0, 0x79, 0x98, 0x40, 0x42, 0x86, 0xab, 0x92, 0xe6, 0x5b, 0xe0, 0x88,
            0x5f, 0x95,
        ],
        PsshSystem::FairPlay => seq![
            0x94u8, 0xce, 0x86, 0xfb, 0x07, 0xff, 0x4f, 0x43, 0xad, 0xb8, 0x93, 0xd2, 0xfa, 0x96,
            0x8c, 0xa2,
        ],
    }
}

/// The protection system with a given identifier.
pub open spec fn system_of(id: Seq<u8>) -> Option<PsshSystem> {
    if id == system_id(PsshSystem::Widevine) {
        Some(PsshSystem::Widevine)
    } else if id == system_id(PsshSystem::PlayReady) {
        Some(PsshSystem::PlayReady)
    } else if id == system_id(PsshSystem::FairPlay) {
        Some(PsshSystem::FairPlay)
    } else {
        None
    }
}

fn equal_at(s: &Vec<u8>, i: usize, v: &Vec<u8>) -> (r: bool)
    requires
        i + v@.len() <= s@.len(),
    ensures
        r == (s@.subrange(i as int, i + v@.len()) == v@),
{
    let _len: usize = s.len();
    let mut k: usize = 0;
    while k < v.len()
        invariant
            k <= v@.len(),
            i + v@.len() <= s@.len() <= usize::MAX,
            forall|j: int| 0 <= j < k ==> s@[i + j] == v@[j],
        decreases v@.len() - k,
    {
        if s[i + k] != v[k] {
            assert(s@.subrange(i as int, i + v@.len())[k as int] != v@[k as int]);
            return false;
        }
        k = k + 1;
    }
    assert(s@.subrange(i as int, i + v@.len()) =~= v@);
    true
}

fn pssh_system(s: &Vec<u8>, i: usize) -> (r: Option<PsshSystem>)
    requires
        i + 16 <= s@.len(),
    ensures
        r == system_of(s@.subrange(i as int, i + 16)),
{
    let widevine: Vec<u8> = vec![
        0xedu8, 0xef, 0x8b, 0xa9, 0x79, 0xd6, 0x4a, 0xce, 0xa3, 0xc8, 0x27, 0xdc, 0xd5, 0x1d, 0x21,
        0xed,
    ];
    let playready: Vec<u8> = vec![
        0x9au8, 0x04, 0xf0, 0x79, 0x98, 0x40, 0x42, 0x86, 0xab, 0x92, 0xe6, 0x5b, 0xe0, 0x88, 0x5f,
        0x95,
    ];
    let fairplay: Vec<u8> = vec![
        0x94u8, 0xce, 0x86, 0xfb, 0x07, 0xff, 0x4f, 0x43, 0xad, 0xb8, 0x93, 0xd2, 0xfa, 0x96, 0x8c,
        0xa2,
    ];
    assert(widevine@ =~= system_id(PsshSystem::Widevine));
    assert(playready@ =~= system_id(PsshSystem::PlayReady));
    assert(fairplay@ =~= system_id(PsshSystem::FairPlay));
    if equal_at(s, i, &widevine) {
        Some(PsshSystem::Widevine)
    } else if equal_at(s, i, &playready) {
        Some(PsshSystem::PlayReady)
    } else if equal_at(s, i, &fairplay) {
        Some(PsshSystem::FairPlay)
    } else {
        None
    }
}

/// The data of a `pssh` box of a known system.
pub open spec fn pssh_payload(p: Seq<u8>) -> Option<(PsshSystem, Seq<u8>)> {
    if p.len() < 24 || p[0] > 1 || system_of(p.subrange(4, 20)) is None {
        None
    } else {
        let at = if p[0] == 1 {
            24 + be32(p, 20) * 16
        } else {
            20
        };
        if at + 4 > p.len() || at + 4 + be32(p, at) > p.len() {
            None
        } else {
            Some((system_of(p.subrange(4, 20))->0, p.subrange(at + 4, at + 4 + be32(p, at))))
        }
    }
}

/// What is known after a `pssh` box.
pub open spec fn after_pssh(p: Seq<u8>, info: Mp4ProtectionInfoView) -> Mp4ProtectionInfoView {
    match pssh_payload(p) {
        None => info,
        Some((system, data)) => {
            let text = base64_text(data);
            let names_key = system == PsshSystem::Widevine && info.kid == Some(zero_kid())
                && data.len() >= 18;
            Mp4ProtectionInfoView {
                pssh: if info.pssh is None {
                    Some(text)
                } else {
                    info.pssh
                },
                pssh_system: if info.pssh is None {
                    Some(system)
                } else {
                    info.pssh_system
                },
                psshs: info.psshs.push(PsshInfoView { system, data: text }),
                kid: if names_key {
                    Some(hex_text(data.subrange(2, 18), false))
                } else {
                    info.kid
                },
                scheme: info.scheme,
                is_multi_drm: info.is_multi_drm || names_key,
            }
        },
    }
}

/// A copy of `s[from..to]`.
pub fn copy_range(s: &Vec<u8>, from: usize, to: usize) -> (r: Vec<u8>)
    requires
        from <= to <= s@.len(),
    ensures
        r@ == s@.subrange(from as int, to as int),
{
    let mut out: Vec<u8> = Vec::new();
    let mut i: usize = from;
    while i < to
        invariant
            from <= i <= to <= s@.len(),
            out@ =~= s@.subrange(from as int, i as int),
        decreases to - i,
    {
        out.push(s[i]);
        i = i + 1;
    }
    out
}

/// The bytes from `at + skip` to `at + skip + n`, where they are there.
fn range_at(p: &Vec<u8>, at: u64, n: u64) -> (r: Option<Vec<u8>>)
    ensures
        match r {
            Some(v) => at + n <= p@.len() && v@ == p@.subrange(at as int, at + n),
            None => at + n > p@.len(),
        },
{
    let len: u64 = p.len() as u64;
    if at > len || n > len - at {
        return None;
    }
    Some(copy_range(p, at as usize, (at + n) as usize))
}

fn read_pssh_payload(p: &Vec<u8>) -> (r: Option<(PsshSystem, Vec<u8>)>)
    ensures
        match r {
            Some((system, data)) => pssh_payload(p@) == Some((system, data@)),
            None => pssh_payload(p@) is None,
        },
{
    if p.len() < 24 || p[0] > 1 {
        return None;
    }
    let system: PsshSystem = match pssh_system(p, 4) {
        Some(system) => system,
        None => {
            return None;
        },
    };
    let at: u64 = if p[0] == 1 {
        24 + read_be32(p, 20) * 16
    } else {
        20
    };
    let len: u64 = p.len() as u64;
    if at + 4 > len {
        return None;
    }
    let size: u64 = read_be32(p, at as usize);
    match range_at(p, at + 4, size) {
        Some(data) => Some((system, data)),
        None => None,
    }
}

fn read_pssh(p: &Vec<u8>, info: &mut Mp4ProtectionInfo)
    ensures
        final(info).deep_view() == after_pssh(p@, old(info).deep_view()),
{
    match read_pssh_payload(p) {
        None => {},
        Some((system, data)) => {
            let ghost start = info.deep_view();
            let text: String = base64_encode(&data);
            if info.pssh.is_none() {
                info.pssh = Some(text.clone());
                info.pssh_system = Some(system);
            }
            let ghost before = info.psshs.deep_view();
            let entry: PsshInfo = PsshInfo { system, data: text };
            info.psshs.push(entry);
            assert(info.psshs.deep_view() =~= before.push(entry.deep_view()));
            let is_zero: bool = match &info.kid {
                Some(kid) => same(kid.as_str(), "00000000000000000000000000000000"),
                None => false,
            };
            if system == PsshSystem::Widevine && is_zero && data.len() >= 18 {
                let id: Vec<u8> = copy_range(&data, 2, 18);
                info.kid = Some(bytes_to_hex(&id, false));
                info.is_multi_drm = true;
            }
            assert(info.deep_view() == after_pssh(p@, start));
        },
    }
}

/// The first position at or after `i` where a tag stands.
pub open spec fn tag_from(s: Seq<u8>, i: int, a: u8, b: u8, c: u8, d: u8) -> Option<int>
    decreases s.len() - i,
{
    if i < 0 || i + 4 > s.len() {
        None
    } else if is_tag(s, i, a, b, c, d) {
        Some(i)
    } else {
        tag_from(s, i + 1, a, b, c, d)
    }
}

fn find_tag(s: &Vec<u8>, a: u8, b: u8, c: u8, d: u8) -> (r: Option<usize>)
    ensures
        match r {
            Some(i) => tag_from(s@, 0, a, b, c, d) == Some(i as int) && i + 4 <= s@.len(),
            None => tag_from(s@, 0, a, b, c, d) is None,
        },
{
    let mut i: usize = 0;
    while i < s.len() && s.len() - i >= 4
        invariant
            i <= s@.len(),
            tag_from(s@, 0, a, b, c, d) == tag_from(s@, i as int, a, b, c, d),
        decreases s@.len() - i,
    {
        if has_tag(s, i, a, b, c, d) {
            return Some(i);
        }
        i = i + 1;
    }
    None
}

/// What is known after the sample entry boxes of a container: the scheme that `schm` names and the
/// key identifier that `tenc` names.
pub open spec fn after_entry(p: Seq<u8>, info: Mp4ProtectionInfoView) -> Mp4ProtectionInfoView {
    let schm = tag_from(p, 0, 0x73, 0x63, 0x68, 0x6d);
    let tenc = tag_from(p, 0, 0x74, 0x65, 0x6e, 0x63);
    Mp4ProtectionInfoView {
        scheme: if schm is Some && schm->0 + 12 <= p.len() {
            Some(lossy_text(p.subrange(schm->0 + 8, schm->0 + 12)))
        } else {
            info.scheme
        },
        kid: if tenc is Some && tenc->0 + 28 <= p.len() {
            Some(hex_text(p.subrange(tenc->0 + 12, tenc->0 + 28), false))
        } else {
            info.kid
        },
        ..info
    }
}

fn read_encryption_sample_entry(p: &Vec<u8>, info: &mut Mp4ProtectionInfo)
    ensures
        final(info).deep_view() == after_entry(p@, old(info).deep_view()),
{
    match find_tag(p, 0x73, 0x63, 0x68, 0x6d) {
        Some(i) => {
            if p.len() - i >= 12 {
                let scheme: Vec<u8> = copy_range(p, i + 8, i + 12);
                info.scheme = Some(utf8_lossy(&scheme));
            }
        },
        None => {},
    }
    match find_tag(p, 0x74, 0x65, 0x6e, 0x63) {
        Some(i) => {
            if p.len() - i >= 28 {
                let kid: Vec<u8> = copy_range(p, i + 12, i + 28);
                info.kid = Some(bytes_to_hex(&kid, false));
            }
        },
        None => {},
    }
}

/// What is known after the boxes from position `i` on. Where no whole box stands, the search goes
/// on one byte further.
pub open spec fn scan_from(s: Seq<u8>, i: int, info: Mp4ProtectionInfoView) -> Mp4ProtectionInfoView
    decreases s.len(), s.len() - i,
{
    if i < 0 || i + 8 > s.len() {
        info
    } else {
        let size = be32(s, i);
        if size < 8 || i + size > s.len() {
            scan_from(s, i + 1, info)
        } else {
            let payload = s.subrange(i + 8, i + size);
            let next = if is_tag(s, i + 4, 0x70, 0x73, 0x73, 0x68) {
                after_pssh(payload, info)
            } else if is_container(s, i + 4) {
                scan_from(payload, 0, after_entry(payload, info))
            } else {
                info
            };
            scan_from(s, i + size, next)
        }
    }
}

fn scan_boxes(s: &Vec<u8>, info: &mut Mp4ProtectionInfo)
    ensures
        final(info).deep_view() == scan_from(s@, 0, old(info).deep_view()),
    decreases s@.len(),
{
    let ghost start = info.deep_view();
    let mut i: usize = 0;
    let len: u64 = s.len() as u64;
    while i < s.len() && s.len() - i >= 8
        invariant
            i <= s@.len() <= usize::MAX,
            len == s@.len(),
            start == old(info).deep_view(),
            scan_from(s@, 0, start) == scan_from(s@, i as int, info.deep_view()),
        decreases s@.len() - i,
    {
        let size: u64 = read_be32(s, i);
        if size < 8 || size > len - i as u64 {
            i = i + 1;
        } else {
            let end: usize = i + size as usize;
            let payload: Vec<u8> = copy_range(s, i + 8, end);
            if has_tag(s, i + 4, 0x70, 0x73, 0x73, 0x68) {
                read_pssh(&payload, info);
            } else if has_container_tag(s, i + 4) {
                read_encryption_sample_entry(&payload, info);
                scan_boxes(&payload, info);
            }
            i = end;
        }
    }
}

/// What an MP4 file says of its protection.
pub fn read_mp4_protection_info(data: &Vec<u8>) -> (r: Mp4ProtectionInfo)
    ensures
        r.deep_view() == scan_from(data@, 0, no_protection()),
{
    let mut info: Mp4ProtectionInfo = Mp4ProtectionInfo {
        pssh: None,
        pssh_system: None,
        psshs: Vec::new(),
        kid: None,
        scheme: None,
        is_multi_drm: false,
    };
    assert(info.psshs.deep_view() =~= Seq::<PsshInfoView>::empty());
    scan_boxes(data, &mut info);
    info
}

/// Data of each box comes first come, first kept: `pssh` is the first entry of `psshs`.
pub open spec fn first_pssh_kept(info: Mp4ProtectionInfoView) -> bool {
    &&& info.pssh is None <==> info.psshs.len() == 0
    &&& info.pssh is Some ==> info.pssh == Some(info.psshs[0].data) && info.pssh_system == Some(
        info.psshs[0].system,
    )
}

/// Whatever a file holds, the protection data that is reported first is the first of the list.
pub proof fn law_first_pssh_is_reported(s: Seq<u8>, i: int, info: Mp4ProtectionInfoView)
    requires
        first_pssh_kept(info),
    ensures
        first_pssh_kept(scan_from(s, i, info)),
    decreases s.len(), s.len() - i,
{
    if 0 <= i && i + 8 <= s.len() {
        let size = be32(s, i);
        if size < 8 || i + size > s.len() {
            law_first_pssh_is_reported(s, i + 1, info);
        } else {
            let payload = s.subrange(i + 8, i + size);
            if is_tag(s, i + 4, 0x70, 0x73, 0x73, 0x68) {
                law_first_pssh_is_reported(s, i + size, after_pssh(payload, info));
            } else if is_container(s, i + 4) {
                law_first_pssh_is_reported(payload, 0, after_entry(payload, info));
                law_first_pssh_is_reported(
                    s,
                    i + size,
                    scan_from(payload, 0, after_entry(payload, info)),
                );
            } else {
                law_first_pssh_is_reported(s, i + size, info);
            }
        }
    }
}

/// Decrypts AES-128 in CBC mode with PKCS#7 padding.
pub fn aes_128_cbc_decrypt(encrypted: &[u8], key: &[u8], iv: &[u8]) -> (r: Result<Vec<u8>>)
    ensures
        match r {
            Ok(v) => key@.len() == 16 && iv@.len() == 16 && aes_cbc_plain(encrypted@, key@, iv@)
                == Some(v@),
            Err(e) => if key@.len() != 16 || iv@.len() != 16 {
                e.deep_view() == ErrorView::Decrypt("AES-128-CBC key or IV length is invalid"@)
            } else {
                aes_cbc_plain(encrypted@, key@, iv@) is None && e.deep_view()
                    == ErrorView::Decrypt("AES-128-CBC decrypt failed"@)
            },
        },
{
    if key.len() != 16 || iv.len() != 16 {
        return Err(Error::decrypt("AES-128-CBC key or IV length is invalid"));
    }
    match cbc_decrypt(encrypted, key, iv) {
        Some(v) => Ok(v),
        None => Err(Error::decrypt("AES-128-CBC decrypt failed")),
    }
}

/// Decrypts AES-128 in ECB mode with PKCS#7 padding.
pub fn aes_128_ecb_decrypt(encrypted: &[u8], key: &[u8]) -> (r: Result<Vec<u8>>)
    ensures
        match r {
            Ok(v) => key@.len() == 16 && aes_ecb_plain(encrypted@, key@) == Some(v@),
            Err(e) => if key@.len() != 16 {
                e.deep_view() == ErrorView::Decrypt("AES-128-ECB key length is invalid"@)
            } else {
                aes_ecb_plain(encrypted@, key@) is None && e.deep_view() == ErrorView::Decrypt(
                    "AES-128-ECB decrypt failed"@,
                )
            },
        },
{
    if key.len() != 16 {
        return Err(Error::decrypt("AES-128-ECB key length is invalid"));
    }
    match ecb_decrypt(encrypted, key) {
        Some(v) => Ok(v),
        None => Err(Error::decrypt("AES-128-ECB decrypt failed")),
    }
}

/// A nonce of twelve bytes; one of eight gets four zeros in front.
pub open spec fn long_nonce(nonce: Seq<u8>) -> Seq<u8> {
    if nonce.len() == 8 {
        seq![0u8, 0u8, 0u8, 0u8] + nonce
    } else {
        nonce
    }
}

/// The plain bytes of a text that ChaCha20 encrypted anew every 1024 bytes.
pub open spec fn chacha_plain(encrypted: Seq<u8>, key: Seq<u8>, nonce: Seq<u8>) -> Seq<u8> {
    Seq::new(
        encrypted.len(),
        |i: int| encrypted[i] ^ chacha20_byte(key, long_nonce(nonce), i % 1024),
    )
}

/// Decrypting twice gives the text back: encryption and decryption are the same.
pub proof fn law_chacha_is_an_involution(text: Seq<u8>, key: Seq<u8>, nonce: Seq<u8>)
    ensures
        chacha_plain(chacha_plain(text, key, nonce), key, nonce) == text,
{
    let once = chacha_plain(text, key, nonce);
    let twice = chacha_plain(once, key, nonce);
    assert forall|i: int| 0 <= i < text.len() implies #[trigger] twice[i] == text[i] by {
        let x = text[i];
        let k = chacha20_byte(key, long_nonce(nonce), i % 1024);
        assert((x ^ k) ^ k == x) by (bit_vector);
        assert(once[i] == x ^ k);
        assert(twice[i] == once[i] ^ k);
    }
    assert(twice =~= text);
}

/// Decrypts ChaCha20 where the key stream starts anew every 1024 bytes.
pub fn chacha20_decrypt_per_1024_bytes(encrypted: &[u8], key: &[u8], nonce: &[u8]) -> (r: Result<
    Vec<u8>,
>)
    ensures
        match r {
            Ok(v) => key@.len() == 32 && (nonce@.len() == 12 || nonce@.len() == 8) && v@
                == chacha_plain(encrypted@, key@, nonce@),
            Err(e) => if key@.len() != 32 {
                e.deep_view() == ErrorView::Decrypt("ChaCha20 key must be 32 bytes"@)
            } else {
                nonce@.len() != 12 && nonce@.len() != 8 && e.deep_view() == ErrorView::Decrypt(
                    "ChaCha20 nonce must be 12 or 8 bytes"@,
                )
            },
        },
{
    if key.len() != 32 {
        return Err(Error::decrypt("ChaCha20 key must be 32 bytes"));
    }
    if nonce.len() != 12 && nonce.len() != 8 {
        return Err(Error::decrypt("ChaCha20 nonce must be 12 or 8 bytes"));
    }
    let mut full: Vec<u8> = Vec::new();
    if nonce.len() == 8 {
        full.push(0);
        full.push(0);
        full.push(0);
        full.push(0);
    }
    let ghost lead = full@;
    let mut i: usize = 0;
    while i < nonce.len()
        invariant
            i <= nonce@.len(),
            full@ =~= lead + nonce@.subrange(0, i as int),
        decreases nonce@.len() - i,
    {
        full.push(nonce[i]);
        i = i + 1;
    }
    assert(full@ =~= long_nonce(nonce@));
    let ghost whole = chacha_plain(encrypted@, key@, nonce@);
    let mut out: Vec<u8> = Vec::new();
    let mut at: usize = 0;
    let len: usize = encrypted.len();
    while at < len
        invariant
            at <= len == encrypted@.len(),
            at % 1024 == 0 || at == len,
            key@.len() == 32,
            full@ == long_nonce(nonce@),
            full@.len() == 12,
            whole == chacha_plain(encrypted@, key@, nonce@),
            out@ =~= whole.subrange(0, at as int),
        decreases len - at,
    {
        let step: usize = if len - at < 1024 {
            len - at
        } else {
            1024
        };
        let mut chunk: Vec<u8> = Vec::new();
        let mut k: usize = 0;
        while k < step
            invariant
                k <= step,
                at + step <= len == encrypted@.len(),
                chunk@ =~= encrypted@.subrange(at as int, at + k),
            decreases step - k,
        {
            chunk.push(encrypted[at + k]);
            k = k + 1;
        }
        let mut plain: Vec<u8> = chacha20_apply(key, full.as_slice(), chunk.as_slice());
        let ghost piece = plain@;
        assert(whole.subrange(at as int, at + step) =~= piece) by {
            assert forall|j: int| 0 <= j < step implies #[trigger] piece[j] == whole[at + j] by {
                assert((at + j) % 1024 == j);
                assert(chunk@[j] == encrypted@[at + j]);
            }
        }
        out.append(&mut plain);
        at = at + step;
        assert(out@ =~= whole.subrange(0, at as int));
    }
    assert(whole.subrange(0, len as int) =~= whole);
    Ok(out)
}

/// Model of optional bytes.
pub open spec fn opt_slice(o: Option<&[u8]>) -> Option<Seq<u8>> {
    match o {
        Some(s) => Some(s@),
        None => None,
    }
}

/// The plain bytes of a segment, or what stands in the way.
pub open spec fn segment_plain(
    method: EncryptionMethod,
    encrypted: Seq<u8>,
    key: Option<Seq<u8>>,
    iv: Option<Seq<u8>>,
) -> core::result::Result<Seq<u8>, ErrorView> {
    if method == EncryptionMethod::Aes128 {
        match (key, iv) {
            (None, _) => Err(ErrorView::Decrypt("AES key is missing"@)),
            (_, None) => Err(ErrorView::Decrypt("AES IV is missing"@)),
            (Some(k), Some(v)) => if k.len() != 16 || v.len() != 16 {
                Err(ErrorView::Decrypt("AES-128-CBC key or IV length is invalid"@))
            } else {
                match aes_cbc_plain(encrypted, k, v) {
                    Some(p) => Ok(p),
                    None => Err(ErrorView::Decrypt("AES-128-CBC decrypt failed"@)),
                }
            },
        }
    } else if method == EncryptionMethod::Aes128Ecb {
        match key {
            None => Err(ErrorView::Decrypt("AES key is missing"@)),
            Some(k) => if k.len() != 16 {
                Err(ErrorView::Decrypt("AES-128-ECB key length is invalid"@))
            } else {
                match aes_ecb_plain(encrypted, k) {
                    Some(p) => Ok(p),
                    None => Err(ErrorView::Decrypt("AES-128-ECB decrypt failed"@)),
                }
            },
        }
    } else if method == EncryptionMethod::Chacha20 {
        match (key, iv) {
            (None, _) => Err(ErrorView::Decrypt("ChaCha20 key is missing"@)),
            (_, None) => Err(ErrorView::Decrypt("ChaCha20 nonce is missing"@)),
            (Some(k), Some(v)) => if k.len() != 32 {
                Err(ErrorView::Decrypt("ChaCha20 key must be 32 bytes"@))
            } else if v.len() != 12 && v.len() != 8 {
                Err(ErrorView::Decrypt("ChaCha20 nonce must be 12 or 8 bytes"@))
            } else {
                Ok(chacha_plain(encrypted, k, v))
            },
        }
    } else {
        Ok(encrypted)
    }
}

fn copy_slice(s: &[u8]) -> (r: Vec<u8>)
    ensures
        r@ == s@,
{
    let mut out: Vec<u8> = Vec::new();
    let mut i: usize = 0;
    while i < s.len()
        invariant
            i <= s@.len(),
            out@ =~= s@.subrange(0, i as int),
        decreases s@.len() - i,
    {
        out.push(s[i]);
        i = i + 1;
    }
    assert(s@.subrange(0, s@.len() as int) =~= s@);
    out
}

/// Decrypts a segment of a playlist; a method that works on samples leaves it as it is.
pub fn decrypt_hls_segment_bytes(
    method: EncryptionMethod,
    encrypted: &[u8],
    key: Option<&[u8]>,
    iv: Option<&[u8]>,
) -> (r: Result<Vec<u8>>)
    ensures
        match r {
            Ok(v) => segment_plain(method, encrypted@, opt_slice(key), opt_slice(iv)) == Ok::<
                Seq<u8>,
                ErrorView,
            >(v@),
            Err(e) => segment_plain(method, encrypted@, opt_slice(key), opt_slice(iv)) == Err::<
                Seq<u8>,
                ErrorView,
            >(e.deep_view()),
        },
{
    match method {
        EncryptionMethod::Aes128 => match key {
            None => Err(Error::decrypt("AES key is missing")),
            Some(k) => match iv {
                None => Err(Error::decrypt("AES IV is missing")),
                Some(v) => aes_128_cbc_decrypt(encrypted, k, v),
            },
        },
        EncryptionMethod::Aes128Ecb => match key {
            None => Err(Error::decrypt("AES key is missing")),
            Some(k) => aes_128_ecb_decrypt(encrypted, k),
        },
        EncryptionMethod::Chacha20 => match key {
            None => Err(Error::decrypt("ChaCha20 key is missing")),
            Some(k) => match iv {
                None => Err(Error::decrypt("ChaCha20 nonce is missing")),
                Some(v) => chacha20_decrypt_per_1024_bytes(encrypted, k, v),
            },
        },
        _ => Ok(copy_slice(encrypted)),
    }
}

/// A key as `id:key`, or the key alone.
pub open spec fn key_text(key: CustomKeyView) -> Seq<char> {
    match key {
        CustomKeyView::Track { track_id, key_hex } => dec(track_id as nat) + ":"@ + key_hex,
        CustomKeyView::Kid { kid_hex, key_hex } => kid_hex + ":"@ + key_hex,
        CustomKeyView::Key { key_hex } => key_hex,
    }
}

/// The texts of keys.
pub fn custom_keys_to_pairs(keys: &Vec<CustomKey>) -> (r: Vec<String>)
    ensures
        r.deep_view() == keys.deep_view().map_values(|k: CustomKeyView| key_text(k)),
{
    let mut out: Vec<String> = Vec::new();
    let mut i: usize = 0;
    let ghost all = keys.deep_view();
    while i < keys.len()
        invariant
            i <= keys@.len(),
            all == keys.deep_view(),
            out.deep_view() =~= all.subrange(0, i as int).map_values(
                |k: CustomKeyView| key_text(k),
            ),
        decreases keys@.len() - i,
    {
        let text: String = match &keys[i] {
            CustomKey::Track { track_id, key_hex } => {
                let id: String = u64_text(*track_id as u64);
                cat3(id.as_str(), ":", key_hex.as_str())
            },
            CustomKey::Kid { kid_hex, key_hex } => cat3(kid_hex.as_str(), ":", key_hex.as_str()),
            CustomKey::Key { key_hex } => key_hex.clone(),
        };
        assert(text@ == key_text(all[i as int]));
        let ghost before = out.deep_view();
        out.push(text);
        assert(out.deep_view() =~= before.push(text@));
        i = i + 1;
    }
    assert(all.subrange(0, all.len() as int) =~= all);
    out
}

/// The first line, without white space at its ends, that begins with `kid`, from line `i` on.
pub open spec fn key_line_from(all: Seq<Seq<char>>, kid: Seq<char>, i: int) -> Option<Seq<char>>
    decreases all.len() - i,
{
    if i < 0 || i >= all.len() {
        None
    } else if starts_with(trim(all[i]), kid) {
        Some(trim(all[i]))
    } else {
        key_line_from(all, kid, i + 1)
    }
}

/// The line of a key file that belongs to an identifier; an empty identifier has none.
pub fn find_key_line(text: &str, kid: &str) -> (r: Option<String>)
    ensures
        r.deep_view() == if kid@.len() == 0 {
            None
        } else {
            key_line_from(lines(text@), kid@, 0)
        },
{
    if kid.unicode_len() == 0 {
        return None;
    }
    let all: Vec<String> = lines_text(text);
    let ghost views = all.deep_view();
    let mut i: usize = 0;
    while i < all.len()
        invariant
            i <= all@.len(),
            kid@.len() != 0,
            views == all.deep_view(),
            views == lines(text@),
            key_line_from(views, kid@, 0) == key_line_from(views, kid@, i as int),
        decreases all@.len() - i,
    {
        assert(views[i as int] == all@[i as int]@);
        let line: &str = trimmed(all[i].as_str());
        if begins_with(line, kid) {
            return Some(owned(line));
        }
        i = i + 1;
    }
    None
}

/// The line of a key file that belongs to an identifier. There is none without an identifier, or
/// where the file could not be read.
pub fn search_key_text_file(content: Option<&Vec<u8>>, kid: Option<&str>) -> (r: Option<String>)
    ensures
        r.deep_view() == match (content, kid) {
            (Some(bytes), Some(k)) => if k@.len() == 0 {
                None
            } else {
                key_line_from(lines(lossy_text(bytes@)), k@, 0)
            },
            _ => None,
        },
{
    match (content, kid) {
        (Some(bytes), Some(k)) => {
            let text: String = utf8_lossy(bytes);
            find_key_line(text.as_str(), k)
        },
        _ => None,
    }
}

/// The key that fits a file.
#[derive(Debug, PartialEq, Eq)]
pub struct SelectedKey {
    pub track_id: Option<String>,
    pub key_pair: String,
}

/// Model of `SelectedKey`.
pub struct SelectedKeyView {
    pub track_id: Option<Seq<char>>,
    pub key_pair: Seq<char>,
}

impl DeepView for SelectedKey {
    type V = SelectedKeyView;

    open spec fn deep_view(&self) -> SelectedKeyView {
        SelectedKeyView { track_id: self.track_id.deep_view(), key_pair: self.key_pair@ }
    }
}

/// The first key that begins with `kid`, from key `i` on.
pub open spec fn key_from(keys: Seq<Seq<char>>, kid: Seq<char>, i: int) -> Option<Seq<char>>
    decreases keys.len() - i,
{
    if i < 0 || i >= keys.len() {
        None
    } else if kid.len() > 0 && starts_with(keys[i], kid) {
        Some(keys[i])
    } else {
        key_from(keys, kid, i + 1)
    }
}

/// The key that fits an identifier: the one listed under it; for the zero identifier the first; a
/// lone key without identifier fits any.
pub open spec fn select_key(keys: Seq<Seq<char>>, kid: Option<Seq<char>>, is_multi_drm: bool) -> Option<
    SelectedKeyView,
> {
    let id = match kid {
        Some(k) => k,
        None => ""@,
    };
    let zero = id == zero_kid();
    let listed = if zero {
        Some(keys[0])
    } else {
        key_from(keys, id, 0)
    };
    let pair = if listed is None && keys.len() == 1 && !contains(keys[0], ":"@) {
        Some(id + ":"@ + keys[0])
    } else {
        listed
    };
    if keys.len() == 0 {
        None
    } else {
        match pair {
            None => None,
            Some(key_pair) => Some(
                SelectedKeyView {
                    track_id: if is_multi_drm || zero {
                        Some("1"@)
                    } else {
                        None
                    },
                    key_pair,
                },
            ),
        }
    }
}

/// The key that fits an identifier.
pub fn select_key_pair(keys: &Vec<String>, kid: Option<&str>, is_multi_drm: bool) -> (r: Option<
    SelectedKey,
>)
    ensures
        r.deep_view() == select_key(keys.deep_view(), opt(kid), is_multi_drm),
{
    if keys.len() == 0 {
        return None;
    }
    let id: &str = match kid {
        Some(k) => k,
        None => "",
    };
    let ghost all = keys.deep_view();
    assert(all[0] == keys@[0]@);
    let zero: bool = same(id, "00000000000000000000000000000000");
    let mut pair: Option<String> = None;
    if zero {
        pair = Some(keys[0].clone());
    } else {
        let mut i: usize = 0;
        while i < keys.len() && pair.is_none()
            invariant
                i <= keys@.len(),
                all == keys.deep_view(),
                match pair {
                    Some(p) => key_from(all, id@, 0) == Some(p@),
                    None => key_from(all, id@, 0) == key_from(all, id@, i as int),
                },
            decreases keys@.len() - i,
        {
            assert(all[i as int] == keys@[i as int]@);
            if id.unicode_len() > 0 && begins_with(keys[i].as_str(), id) {
                pair = Some(keys[i].clone());
            }
            i = i + 1;
        }
    }
    if pair.is_none() && keys.len() == 1 && !has_text(keys[0].as_str(), ":") {
        pair = Some(cat3(id, ":", keys[0].as_str()));
    }
    match pair {
        None => None,
        Some(key_pair) => Some(
            SelectedKey {
                track_id: if is_multi_drm || zero {
                    Some(owned("1"))
                } else {
                    None
                },
                key_pair,
            },
        ),
    }
}

/// What stands for a key in a text that is shown.
pub open spec fn redacted(key: Seq<char>) -> Seq<char> {
    if key.len() == 0 {
        "<redacted>"@
    } else {
        "<redacted:"@ + dec(vstd::utf8::encode_utf8(key).len()) + ">"@
    }
}

fn redact_key(key: &str) -> (r: String)
    ensures
        r@ == redacted(key@),
{
    if key.unicode_len() == 0 {
        owned("<redacted>")
    } else {
        let n: String = usize_text(key.as_bytes().len());
        cat3("<redacted:", n.as_str(), ">")
    }
}

/// A `--key` argument with the key hidden.
pub open spec fn redacted_pair(key: Seq<char>) -> Seq<char> {
    match split_once(key, ":"@) {
        Some((kid, value)) => "--key "@ + kid + ":"@ + redacted(value),
        None => "--key "@ + redacted(key),
    }
}

fn redact_key_pair_argument(key: &str) -> (r: String)
    ensures
        r@ == redacted_pair(key@),
{
    match cut_once(key, ":") {
        Some((kid, value)) => {
            let hidden: String = redact_key(value);
            cat4("--key ", kid, ":", hidden.as_str())
        },
        None => {
            let hidden: String = redact_key(key);
            cat2("--key ", hidden.as_str())
        },
    }
}

/// The `--key` arguments of all keys, each hidden.
pub open spec fn pair_arguments(keys: Seq<Seq<char>>) -> Seq<Seq<char>> {
    keys.map_values(|k: Seq<char>| redacted_pair(k))
}

/// The `--key` arguments for a track of all keys that have an identifier, each hidden.
pub open spec fn track_arguments(keys: Seq<Seq<char>>, track: Seq<char>) -> Seq<Seq<char>>
    decreases keys.len(),
{
    if keys.len() == 0 {
        Seq::empty()
    } else {
        match split_once(keys.last(), ":"@) {
            Some((kid, value)) => track_arguments(keys.drop_last(), track).push(
                "--key "@ + track + ":"@ + redacted(value),
            ),
            None => track_arguments(keys.drop_last(), track),
        }
    }
}

fn mp4decrypt_keys(keys: &Vec<String>, track: &Option<String>) -> (r: String)
    ensures
        r@ == join(
            match track {
                Some(t) => track_arguments(keys.deep_view(), t@),
                None => pair_arguments(keys.deep_view()),
            },
            " "@,
        ),
{
    let ghost all = keys.deep_view();
    let mut out: Vec<String> = Vec::new();
    let mut i: usize = 0;
    assert(all.subrange(0, 0) =~= Seq::<Seq<char>>::empty());
    assert(out.deep_view() =~= Seq::<Seq<char>>::empty());
    assert(pair_arguments(all.subrange(0, 0)) =~= Seq::<Seq<char>>::empty());
    while i < keys.len()
        invariant
            i <= keys@.len(),
            all == keys.deep_view(),
            out.deep_view() == match track {
                Some(t) => track_arguments(all.subrange(0, i as int), t@),
                None => pair_arguments(all.subrange(0, i as int)),
            },
        decreases keys@.len() - i,
    {
        let ghost head = all.subrange(0, i + 1);
        assert(head.drop_last() =~= all.subrange(0, i as int));
        assert(head.last() == keys@[i as int]@);
        let ghost before = out.deep_view();
        match track {
            Some(t) => match cut_once(keys[i].as_str(), ":") {
                Some((_, value)) => {
                    let hidden: String = redact_key(value);
                    let argument: String = cat4("--key ", t.as_str(), ":", hidden.as_str());
                    out.push(argument);
                    assert(out.deep_view() =~= before.push(argument@));
                },
                None => {},
            },
            None => {
                let argument: String = redact_key_pair_argument(keys[i].as_str());
                out.push(argument);
                assert(out.deep_view() =~= before.push(argument@));
                assert(pair_arguments(head) =~= pair_arguments(all.subrange(0, i as int)).push(
                    redacted_pair(head.last()),
                ));
            },
        }
        i = i + 1;
    }
    assert(all.subrange(0, all.len() as int) =~= all);
    join_texts(&out, " ")
}

/// Decryption by another program.
#[derive(Debug)]
pub struct ExternalDecryptRequest<'a> {
    pub engine: DecryptionEngine,
    pub program: &'a str,
    pub keys: &'a Vec<String>,
    pub source: &'a str,
    pub dest: &'a str,
    pub kid: Option<&'a str>,
    pub init: Option<&'a str>,
    pub is_multi_drm: bool,
}

/// Command line of another program, with its keys hidden.
#[derive(Debug, PartialEq, Eq)]
pub struct ExternalDecryptPlan {
    pub engine: DecryptionEngine,
    pub program: String,
    pub redacted_arguments: String,
    pub work_dir: Option<String>,
    pub requires_init_concat: bool,
}

/// Model of `ExternalDecryptPlan`.
pub struct ExternalDecryptPlanView {
    pub engine: DecryptionEngine,
    pub program: Seq<char>,
    pub redacted_arguments: Seq<char>,
    pub work_dir: Option<Seq<char>>,
    pub requires_init_concat: bool,
}

impl DeepView for ExternalDecryptPlan {
    type V = ExternalDecryptPlanView;

    open spec fn deep_view(&self) -> ExternalDecryptPlanView {
        ExternalDecryptPlanView {
            engine: self.engine,
            program: self.program@,
            redacted_arguments: self.redacted_arguments@,
            work_dir: self.work_dir.deep_view(),
            requires_init_concat: self.requires_init_concat,
        }
    }
}

/// A path that leads to an initialization segment.
pub open spec fn is_init_file(path: Seq<char>) -> bool {
    match path_file_name(path) {
        Some(name) => ends_with(name, "_init.mp4"@),
        None => false,
    }
}

/// The key of a pair.
pub open spec fn pair_key(pair: Seq<char>) -> Seq<char> {
    match split_once(pair, ":"@) {
        Some((id, key)) => key,
        None => pair,
    }
}

/// The key identifier that the packager is given.
pub open spec fn packager_key_id(selected: SelectedKeyView, kid: Seq<char>) -> Seq<char> {
    if selected.track_id is Some {
        zero_kid()
    } else {
        match split_once(selected.key_pair, ":"@) {
            Some((id, key)) => if id.len() > 0 {
                id
            } else {
                kid
            },
            None => kid,
        }
    }
}

/// The name of a file, empty where there is none.
pub open spec fn name_or_empty(path: Seq<char>) -> Seq<char> {
    match path_file_name(path) {
        Some(name) => name,
        None => ""@,
    }
}

/// The arguments of an engine.
pub open spec fn engine_arguments(
    engine: DecryptionEngine,
    selected: SelectedKeyView,
    keys: Seq<Seq<char>>,
    kid: Seq<char>,
    source: Seq<char>,
    dest: Seq<char>,
) -> Seq<char> {
    match engine {
        DecryptionEngine::Mp4forge => ""@,
        DecryptionEngine::ShakaPackager => "--quiet --enable_raw_key_decryption input=\""@ + source
            + "\",stream=0,output=\""@ + dest + "\" --keys "@ + (match selected.track_id {
            Some(track) => "label="@ + track + ":"@,
            None => ""@,
        }) + "key_id="@ + packager_key_id(selected, kid) + ":key="@ + redacted(
            pair_key(selected.key_pair),
        ),
        DecryptionEngine::Mp4decrypt => join(
            match selected.track_id {
                Some(t) => track_arguments(keys, t),
                None => pair_arguments(keys),
            },
            " "@,
        ) + " \""@ + name_or_empty(source) + "\" \""@ + name_or_empty(dest) + "\""@,
        DecryptionEngine::Ffmpeg => "-loglevel error -nostdin -decryption_key "@ + redacted(
            pair_key(selected.key_pair),
        ) + " -i \""@ + source + "\" -c copy \""@ + dest + "\""@,
    }
}

/// The plan for a request; none where no key fits, where decryption is done in process, or where
/// an initialization segment needs none.
pub open spec fn decrypt_plan(r: ExternalDecryptRequest) -> Option<ExternalDecryptPlanView> {
    let kid = match r.kid {
        Some(k) => k@,
        None => ""@,
    };
    match select_key(r.keys.deep_view(), opt(r.kid), r.is_multi_drm) {
        None => None,
        Some(selected) => if r.engine == DecryptionEngine::Mp4forge || (is_init_file(r.source@)
            && r.engine != DecryptionEngine::Mp4decrypt) {
            None
        } else {
            Some(
                ExternalDecryptPlanView {
                    engine: r.engine,
                    program: r.program@,
                    redacted_arguments: engine_arguments(
                        r.engine,
                        selected,
                        r.keys.deep_view(),
                        kid,
                        r.source@,
                        r.dest@,
                    ),
                    work_dir: if r.engine == DecryptionEngine::Mp4decrypt {
                        path_parent(r.source@)
                    } else {
                        None
                    },
                    requires_init_concat: r.init is Some && r.engine
                        != DecryptionEngine::Mp4decrypt,
                },
            )
        },
    }
}

/// Two listed keys have the same identifier or none, and their keys look the same when they are
/// hidden.
pub open spec fn alike(a: Seq<char>, b: Seq<char>) -> bool {
    match (split_once(a, ":"@), split_once(b, ":"@)) {
        (Some((i, x)), Some((j, y))) => i == j && redacted(x) == redacted(y),
        (None, None) => redacted(a) == redacted(b),
        _ => false,
    }
}

/// An identifier is the beginning of both or of neither of two keys at one place that have no
/// identifier of their own.
pub open spec fn bare_keys_begin_alike(
    a: Seq<Seq<char>>,
    b: Seq<Seq<char>>,
    kid: Seq<char>,
) -> bool {
    forall|i: int|
        0 <= i < a.len() && !contains(#[trigger] a[i], ":"@) ==> starts_with(a[i], kid)
            == starts_with(b[i], kid)
}

/// The keys of two lists are alike, one by one.
pub open spec fn lists_alike(a: Seq<Seq<char>>, b: Seq<Seq<char>>) -> bool {
    a.len() == b.len() && forall|i: int|
        0 <= i < a.len() ==> alike(#[trigger] a[i], #[trigger] b[i])
}

proof fn lemma_alike_begin_alike(a: Seq<char>, b: Seq<char>, kid: Seq<char>)
    requires
        alike(a, b),
        contains(a, ":"@),
        !contains(kid, ":"@),
    ensures
        starts_with(a, kid) == starts_with(b, kid),
{
    reveal_strlit(":");
    lemma_find_from(a, ":"@, 0);
    lemma_find_from(b, ":"@, 0);
    lemma_find_from(kid, ":"@, 0);
    let n = find(a, ":"@)->0;
    assert(find(b, ":"@) is Some);
    let m = find(b, ":"@)->0;
    let (head, _) = split_once(a, ":"@)->0;
    assert(head == take(a, n) && head == take(b, m));
    assert(occurs_at(a, ":"@, n) && occurs_at(b, ":"@, m));
    assert(take(a, n).len() == n && take(b, m).len() == m);
    assert(n == m);
    assert(a[n] == ':') by {
        assert(a.subrange(n, n + 1)[0] == ":"@[0]);
    }
    assert(b[n] == ':') by {
        assert(b.subrange(n, n + 1)[0] == ":"@[0]);
    }
    if kid.len() > n {
        assert(!occurs_at(kid, ":"@, n));
        assert(kid[n] != ':') by {
            if kid[n] == ':' {
                assert(kid.subrange(n, n + 1) =~= ":"@);
            }
        }
        assert(!starts_with(a, kid)) by {
            if starts_with(a, kid) {
                assert(a.subrange(0, kid.len() as int)[n] == kid[n]);
            }
        }
        assert(!starts_with(b, kid)) by {
            if starts_with(b, kid) {
                assert(b.subrange(0, kid.len() as int)[n] == kid[n]);
            }
        }
    } else {
        assert(take(a, n).subrange(0, kid.len() as int) =~= a.subrange(0, kid.len() as int));
        assert(take(b, n).subrange(0, kid.len() as int) =~= b.subrange(0, kid.len() as int));
    }
}

proof fn lemma_alike_found_alike(a: Seq<Seq<char>>, b: Seq<Seq<char>>, kid: Seq<char>, i: int)
    requires
        lists_alike(a, b),
        bare_keys_begin_alike(a, b, kid),
        !contains(kid, ":"@),
        0 <= i <= a.len(),
    ensures
        match (key_from(a, kid, i), key_from(b, kid, i)) {
            (Some(x), Some(y)) => alike(x, y),
            (None, None) => true,
            _ => false,
        },
    decreases a.len() - i,
{
    if i < a.len() {
        assert(alike(a[i], b[i]));
        if contains(a[i], ":"@) {
            lemma_alike_begin_alike(a[i], b[i], kid);
        }
        lemma_alike_found_alike(a, b, kid, i + 1);
    }
}

proof fn lemma_alike_track_arguments(a: Seq<Seq<char>>, b: Seq<Seq<char>>, track: Seq<char>)
    requires
        lists_alike(a, b),
    ensures
        track_arguments(a, track) == track_arguments(b, track),
    decreases a.len(),
{
    if a.len() > 0 {
        assert(alike(a[a.len() - 1], b[b.len() - 1]));
        assert(lists_alike(a.drop_last(), b.drop_last())) by {
            assert forall|i: int| 0 <= i < a.len() - 1 implies alike(
                #[trigger] a.drop_last()[i],
                #[trigger] b.drop_last()[i],
            ) by {
                assert(alike(a[i], b[i]));
            }
        }
        lemma_alike_track_arguments(a.drop_last(), b.drop_last(), track);
    }
}

/// A key under an identifier is split into the two again.
proof fn lemma_pair_splits(id: Seq<char>, key: Seq<char>)
    requires
        !contains(id, ":"@),
    ensures
        split_once(id + ":"@ + key, ":"@) == Some((id, key)),
{
    reveal_strlit(":");
    let n = id.len() as int;
    let pair = id + ":"@ + key;
    lemma_find_from(id, ":"@, 0);
    lemma_find_from(pair, ":"@, 0);
    assert(pair.subrange(n, n + 1) =~= ":"@);
    assert(occurs_at(pair, ":"@, n));
    assert forall|j: int| 0 <= j < n implies !occurs_at(pair, ":"@, j) by {
        assert(pair.subrange(j, j + 1) =~= id.subrange(j, j + 1));
        assert(!occurs_at(id, ":"@, j));
    }
    assert(find(pair, ":"@) == Some(n));
    assert(take(pair, n) =~= id);
    assert(drop(pair, n + 1) =~= key);
}

/// A plan does not depend on the keys themselves: with other keys of the same length under the same
/// identifiers it is the same. Of two keys without an identifier, the identifier asked for must be
/// the beginning of both or of neither, as such a key is found by its beginning.
pub proof fn law_plan_shows_no_key(p: ExternalDecryptRequest, q: ExternalDecryptRequest)
    requires
        p.engine == q.engine,
        p.program@ == q.program@,
        p.source@ == q.source@,
        p.dest@ == q.dest@,
        opt(p.kid) == opt(q.kid),
        p.init is Some == q.init is Some,
        p.is_multi_drm == q.is_multi_drm,
        lists_alike(p.keys.deep_view(), q.keys.deep_view()),
        p.kid is Some && p.kid->0@ != zero_kid() ==> bare_keys_begin_alike(
            p.keys.deep_view(),
            q.keys.deep_view(),
            p.kid->0@,
        ),
        p.kid is Some ==> !contains(p.kid->0@, ":"@),
    ensures
        decrypt_plan(p) == decrypt_plan(q),
{
    let a = p.keys.deep_view();
    let b = q.keys.deep_view();
    let id = match p.kid {
        Some(k) => k@,
        None => ""@,
    };
    reveal_strlit("");
    reveal_strlit(":");
    lemma_find_from(id, ":"@, 0);
    if a.len() > 0 {
        assert(alike(a[0], b[0]));
        assert(contains(a[0], ":"@) == contains(b[0], ":"@));
        lemma_pair_splits(id, a[0]);
        lemma_pair_splits(id, b[0]);
    }
    if id != zero_kid() {
        assert(bare_keys_begin_alike(a, b, id)) by {
            if p.kid is None {
                assert forall|i: int| 0 <= i < a.len() && !contains(#[trigger] a[i], ":"@) implies starts_with(
                    a[i],
                    id,
                ) == starts_with(b[i], id) by {
                    assert(a[i].subrange(0, 0) =~= id && b[i].subrange(0, 0) =~= id);
                }
            }
        }
        lemma_alike_found_alike(a, b, id, 0);
    }
    let x = select_key(a, opt(p.kid), p.is_multi_drm);
    let y = select_key(b, opt(q.kid), q.is_multi_drm);
    if x is Some {
        assert(alike(x->0.key_pair, y->0.key_pair));
        match x->0.track_id {
            Some(t) => {
                lemma_alike_track_arguments(a, b, t);
            },
            None => {
                assert forall|i: int| 0 <= i < a.len() implies redacted_pair(#[trigger] a[i])
                    == redacted_pair(b[i]) by {
                    assert(alike(a[i], b[i]));
                }
                assert(pair_arguments(a) =~= pair_arguments(b));
            },
        }
    }
}

fn file_name_or_empty<'a>(path: &'a str) -> (r: &'a str)
    ensures
        r@ == name_or_empty(path@),
{
    match file_name(path) {
        Some(name) => name,
        None => "",
    }
}

fn plan_arguments(r: &ExternalDecryptRequest, selected: &SelectedKey, kid: &str) -> (s: String)
    ensures
        s@ == engine_arguments(
            r.engine,
            selected.deep_view(),
            r.keys.deep_view(),
            kid@,
            r.source@,
            r.dest@,
        ),
{
    let key: &str = match cut_once(selected.key_pair.as_str(), ":") {
        Some((_, key)) => key,
        None => selected.key_pair.as_str(),
    };
    let hidden: String = redact_key(key);
    match r.engine {
        DecryptionEngine::Mp4forge => owned(""),
        DecryptionEngine::ShakaPackager => {
            let mut s: String = cat5(
                "--quiet --enable_raw_key_decryption input=\"",
                r.source,
                "\",stream=0,output=\"",
                r.dest,
                "\" --keys ",
            );
            let label: String = match &selected.track_id {
                Some(track) => cat3("label=", track.as_str(), ":"),
                None => owned(""),
            };
            let key_id: &str = match &selected.track_id {
                Some(_) => "00000000000000000000000000000000",
                None => match cut_once(selected.key_pair.as_str(), ":") {
                    Some((id, _)) => if id.unicode_len() > 0 {
                        id
                    } else {
                        kid
                    },
                    None => kid,
                },
            };
            s.append(label.as_str());
            s.append("key_id=");
            s.append(key_id);
            s.append(":key=");
            s.append(hidden.as_str());
            s
        },
        DecryptionEngine::Mp4decrypt => {
            let mut s: String = mp4decrypt_keys(r.keys, &selected.track_id);
            s.append(" \"");
            s.append(file_name_or_empty(r.source));
            s.append("\" \"");
            s.append(file_name_or_empty(r.dest));
            s.append("\"");
            s
        },
        DecryptionEngine::Ffmpeg => {
            let mut s: String = cat5(
                "-loglevel error -nostdin -decryption_key ",
                hidden.as_str(),
                " -i \"",
                r.source,
                "\" -c copy \"",
            );
            s.append(r.dest);
            s.append("\"");
            s
        },
    }
}

/// Plans decryption by another program.
pub fn plan_external_decrypt(request: ExternalDecryptRequest) -> (r: Option<ExternalDecryptPlan>)
    ensures
        r.deep_view() == decrypt_plan(request),
{
    let selected: SelectedKey = match select_key_pair(
        request.keys,
        request.kid,
        request.is_multi_drm,
    ) {
        Some(selected) => selected,
        None => {
            return None;
        },
    };
    if request.engine == DecryptionEngine::Mp4forge {
        return None;
    }
    let is_init: bool = match file_name(request.source) {
        Some(name) => finishes_with(name, "_init.mp4"),
        None => false,
    };
    if is_init && request.engine != DecryptionEngine::Mp4decrypt {
        return None;
    }
    let kid: &str = match request.kid {
        Some(k) => k,
        None => "",
    };
    let redacted_arguments: String = plan_arguments(&request, &selected, kid);
    let work_dir: Option<String> = if request.engine == DecryptionEngine::Mp4decrypt {
        parent(request.source)
    } else {
        None
    };
    Some(
        ExternalDecryptPlan {
            engine: request.engine,
            program: owned(request.program),
            redacted_arguments,
            work_dir,
            requires_init_concat: request.init.is_some() && request.engine
                != DecryptionEngine::Mp4decrypt,
        },
    )
}

/// Where a secret ends.
pub open spec fn ends_secret(c: char, query: bool) -> bool {
    if query {
        c == '&'
    } else {
        is_space(c) || c == '&' || c == ',' || c == '"'
    }
}

/// The first position at or after `i` where a secret ends.
pub open spec fn secret_end(s: Seq<char>, query: bool, i: int) -> int
    decreases s.len() - i,
{
    if i < 0 || i >= s.len() || ends_secret(s[i], query) {
        i
    } else {
        secret_end(s, query, i + 1)
    }
}

/// `s` with what follows each marker replaced.
pub open spec fn hide_after(s: Seq<char>, marker: Seq<char>, query: bool) -> Seq<char>
    decreases s.len(),
    via hide_decreases
{
    if marker.len() == 0 {
        s
    } else {
        match find(s, marker) {
            None => s,
            Some(i) => {
                let end = secret_end(s, query, i + marker.len());
                take(s, i) + marker + "<redacted>"@ + hide_after(drop(s, end), marker, query)
            },
        }
    }
}

pub proof fn lemma_secret_end(s: Seq<char>, query: bool, i: int)
    requires
        0 <= i <= s.len(),
    ensures
        i <= secret_end(s, query, i) <= s.len(),
    decreases s.len() - i,
{
    if i < s.len() && !ends_secret(s[i], query) {
        lemma_secret_end(s, query, i + 1);
    }
}

#[via_fn]
proof fn hide_decreases(s: Seq<char>, marker: Seq<char>, query: bool) {
    lemma_find_from(s, marker, 0);
    if marker.len() > 0 && find(s, marker) is Some {
        lemma_secret_end(s, query, find(s, marker)->0 + marker.len());
    }
}

fn find_secret_end(v: &Vec<char>, query: bool, from: usize) -> (r: usize)
    requires
        from <= v@.len(),
    ensures
        r == secret_end(v@, query, from as int),
        from <= r <= v@.len(),
{
    let mut end: usize = from;
    while end < v.len() && !(v[end] == '&' || (!query && (v[end] == ',' || v[end] == '"'
        || space_char(v[end]))))
        invariant
            from <= end <= v@.len(),
            secret_end(v@, query, from as int) == secret_end(v@, query, end as int),
        decreases v@.len() - end,
    {
        end = end + 1;
    }
    end
}

fn redact_after(input: &str, marker: &str, query: bool) -> (r: String)
    requires
        marker@.len() > 0,
    ensures
        r@ == hide_after(input@, marker@, query),
{
    let size: usize = marker.unicode_len();
    let ghost whole = hide_after(input@, marker@, query);
    let mut out: String = String::new();
    let mut rest: &str = input;
    assert(out@ + whole =~= whole);
    loop
        invariant
            size == marker@.len(),
            size > 0,
            whole == hide_after(input@, marker@, query),
            out@ + hide_after(rest@, marker@, query) == whole,
        decreases rest@.len(),
    {
        proof {
            lemma_find_from(rest@, marker@, 0);
        }
        match find_text(rest, marker) {
            None => {
                out.append(rest);
                return out;
            },
            Some(i) => {
                let v: Vec<char> = to_chars(rest);
                let _len: usize = v.len();
                let end: usize = find_secret_end(&v, query, i + size);
                let ghost before = out@;
                let ghost tail = hide_after(drop(rest@, end as int), marker@, query);
                out.append(slice(rest, 0, i));
                out.append(marker);
                out.append("<redacted>");
                assert(out@ + tail =~= before + (take(rest@, i as int) + marker@ + "<redacted>"@
                    + tail));
                rest = slice_from(rest, end);
            },
        }
    }
}

/// `s` with keys, tokens and signatures replaced.
#[verifier::opaque]
pub open spec fn hide_secrets(s: Seq<char>) -> Seq<char> {
    let a = hide_after(s, "key="@, false);
    let b = hide_after(a, "decryption_key "@, false);
    let c = hide_after(b, "--key "@, false);
    let d = hide_after(c, "token="@, true);
    let e = hide_after(d, "signature="@, true);
    let f = hide_after(e, "sig="@, true);
    let g = hide_after(f, "Policy="@, true);
    hide_after(g, "Key-Pair-Id="@, true)
}

/// The text with keys, tokens and signatures replaced.
pub fn redact_secrets(input: &str) -> (r: String)
    ensures
        r@ == hide_secrets(input@),
{
    proof {
        reveal(hide_secrets);
    }
    proof {
        reveal_strlit("key=");
        reveal_strlit("decryption_key ");
        reveal_strlit("--key ");
        reveal_strlit("token=");
        reveal_strlit("signature=");
        reveal_strlit("sig=");
        reveal_strlit("Policy=");
        reveal_strlit("Key-Pair-Id=");
    }
    let a: String = redact_after(input, "key=", false);
    let b: String = redact_after(a.as_str(), "decryption_key ", false);
    let c: String = redact_after(b.as_str(), "--key ", false);
    let d: String = redact_after(c.as_str(), "token=", true);
    let e: String = redact_after(d.as_str(), "signature=", true);
    let f: String = redact_after(e.as_str(), "sig=", true);
    let g: String = redact_after(f.as_str(), "Policy=", true);
    redact_after(g.as_str(), "Key-Pair-Id=", true)
}

/// A text without markers is left as it is.
pub proof fn law_plain_text_is_kept(s: Seq<char>)
    requires
        !contains(s, "key="@),
        !contains(s, "decryption_key "@),
        !contains(s, "--key "@),
        !contains(s, "token="@),
        !contains(s, "signature="@),
        !contains(s, "sig="@),
        !contains(s, "Policy="@),
        !contains(s, "Key-Pair-Id="@),
    ensures
        hide_secrets(s) == s,
{
    reveal(hide_secrets);
}

/// What stands between a marker and the end of the secret does not matter.
pub proof fn law_secret_does_not_show(
    head: Seq<char>,
    marker: Seq<char>,
    a: Seq<char>,
    b: Seq<char>,
    query: bool,
)
    requires
        marker.len() > 0,
        !contains(head + marker.drop_last(), marker),
        forall|i: int| 0 <= i < a.len() ==> !ends_secret(#[trigger] a[i], query),
        forall|i: int| 0 <= i < b.len() ==> !ends_secret(#[trigger] b[i], query),
    ensures
        hide_after(head + marker + a, marker, query) == head + marker + "<redacted>"@,
        hide_after(head + marker + a, marker, query) == hide_after(
            head + marker + b,
            marker,
            query,
        ),
{
    lemma_hidden_tail(head, marker, a, query);
    lemma_hidden_tail(head, marker, b, query);
}

proof fn lemma_hidden_tail(head: Seq<char>, marker: Seq<char>, a: Seq<char>, query: bool)
    requires
        marker.len() > 0,
        !contains(head + marker.drop_last(), marker),
        forall|i: int| 0 <= i < a.len() ==> !ends_secret(#[trigger] a[i], query),
    ensures
        hide_after(head + marker + a, marker, query) == head + marker + "<redacted>"@,
{
    let s = head + marker + a;
    let short = head + marker.drop_last();
    lemma_find_from(short, marker, 0);
    lemma_find_from(s, marker, 0);
    let n = head.len() as int;
    assert(s.subrange(n, n + marker.len()) =~= marker);
    assert(crate::text::occurs_at(s, marker, n));
    assert forall|j: int| 0 <= j < n implies !crate::text::occurs_at(s, marker, j) by {
        if crate::text::occurs_at(s, marker, j) {
            assert(short.subrange(j, j + marker.len()) =~= s.subrange(j, j + marker.len()));
            assert(crate::text::occurs_at(short, marker, j));
        }
    }
    assert(find(s, marker) == Some(n));
    let from = n + marker.len();
    lemma_runs_to_end(s, query, from);
    let rest = drop(s, s.len() as int);
    assert(rest =~= Seq::<char>::empty());
    lemma_find_from(rest, marker, 0);
    assert(find(rest, marker) is None);
    assert(hide_after(rest, marker, query) == rest);
    assert(secret_end(s, query, from) == s.len());
    assert(hide_after(s, marker, query) == take(s, n) + marker + "<redacted>"@ + hide_after(
        drop(s, s.len() as int),
        marker,
        query,
    ));
    assert(take(s, n) =~= head);
    assert(take(s, n) + marker + "<redacted>"@ + rest =~= head + marker + "<redacted>"@);
}

proof fn lemma_runs_to_end(s: Seq<char>, query: bool, i: int)
    requires
        0 <= i <= s.len(),
        forall|j: int| i <= j < s.len() ==> !ends_secret(#[trigger] s[j], query),
    ensures
        secret_end(s, query, i) == s.len(),
    decreases s.len() - i,
{
    if i < s.len() {
        lemma_runs_to_end(s, query, i + 1);
    }
}

} // verus!
