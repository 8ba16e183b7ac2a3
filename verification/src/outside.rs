//! Calls into other crates whose results the library reasons about by name.

use cipher::{BlockDecryptMut, KeyInit, KeyIvInit, StreamCipher};
use md5::Digest;
use std::io::Read;
use vstd::prelude::*;

verus! {

/// Why a text is no absolute URL; none where it is one.
pub uninterp spec fn url_error_of(value: Seq<char>) -> Option<Seq<char>>;

/// `reqwest::Url::parse`: the message of its error, none where it succeeds.
#[verifier::external_body]
pub(crate) fn url_error(value: &str) -> (r: Option<String>)
    ensures
        r.deep_view() == url_error_of(value@),
{
    reqwest::Url::parse(value).err().map(|error| error.to_string())
}

/// Why a text is no regular expression; none where it is one.
pub uninterp spec fn regex_error_of(pattern: Seq<char>) -> Option<Seq<char>>;

/// `regex::Regex::new`: the message of its error, none where it succeeds.
#[verifier::external_body]
pub(crate) fn regex_error(pattern: &str) -> (r: Option<String>)
    ensures
        r.deep_view() == regex_error_of(pattern@),
{
    regex::Regex::new(pattern).err().map(|error| error.to_string())
}

/// The text of bytes with what is no UTF-8 replaced.
pub uninterp spec fn lossy_text(bytes: Seq<u8>) -> Seq<char>;

/// `String::from_utf8_lossy`: bytes that are the encoding of a text give that text.
#[verifier::external_body]
pub(crate) fn utf8_lossy(bytes: &Vec<u8>) -> (r: String)
    ensures
        r@ == lossy_text(bytes@),
        forall|t: Seq<char>| #[trigger] vstd::utf8::encode_utf8(t) == bytes@ ==> r@ == t,
{
    String::from_utf8_lossy(bytes).into_owned()
}

/// The plain bytes of AES-128-CBC with PKCS#7 padding; none where the padding is wrong.
pub uninterp spec fn aes_cbc_plain(encrypted: Seq<u8>, key: Seq<u8>, iv: Seq<u8>) -> Option<Seq<u8>>;

/// `cbc::Decryptor::<aes::Aes128>::decrypt_padded_vec_mut` with PKCS#7 padding. A result is shorter
/// than what was encrypted, by one block at most, and only whole blocks give one.
#[verifier::external_body]
pub(crate) fn cbc_decrypt(encrypted: &[u8], key: &[u8], iv: &[u8]) -> (r: Option<Vec<u8>>)
    requires
        key@.len() == 16,
        iv@.len() == 16,
    ensures
        match r {
            Some(v) => aes_cbc_plain(encrypted@, key@, iv@) == Some(v@),
            None => aes_cbc_plain(encrypted@, key@, iv@) is None,
        },
        r is Some ==> encrypted@.len() % 16 == 0 && encrypted@.len() - 16 <= r->0@.len()
            < encrypted@.len(),
{
    let decryptor = cbc::Decryptor::<aes::Aes128>::new_from_slices(key, iv).ok()?;
    decryptor.decrypt_padded_vec_mut::<cipher::block_padding::Pkcs7>(encrypted).ok()
}

/// The plain bytes of AES-128-ECB with PKCS#7 padding; none where the padding is wrong.
pub uninterp spec fn aes_ecb_plain(encrypted: Seq<u8>, key: Seq<u8>) -> Option<Seq<u8>>;

/// `ecb::Decryptor::<aes::Aes128>::decrypt_padded_vec_mut` with PKCS#7 padding. A result is shorter
/// than what was encrypted, by one block at most, and only whole blocks give one.
#[verifier::external_body]
pub(crate) fn ecb_decrypt(encrypted: &[u8], key: &[u8]) -> (r: Option<Vec<u8>>)
    requires
        key@.len() == 16,
    ensures
        match r {
            Some(v) => aes_ecb_plain(encrypted@, key@) == Some(v@),
            None => aes_ecb_plain(encrypted@, key@) is None,
        },
        r is Some ==> encrypted@.len() % 16 == 0 && encrypted@.len() - 16 <= r->0@.len()
            < encrypted@.len(),
{
    let decryptor = ecb::Decryptor::<aes::Aes128>::new_from_slice(key).ok()?;
    decryptor.decrypt_padded_vec_mut::<cipher::block_padding::Pkcs7>(encrypted).ok()
}

/// Byte `i` of the ChaCha20 key stream.
pub uninterp spec fn chacha20_byte(key: Seq<u8>, nonce: Seq<u8>, i: int) -> u8;

/// `chacha20::ChaCha20::apply_keystream` from the start of the key stream: each byte is combined
/// with the byte of the key stream at its position by exclusive or.
#[verifier::external_body]
pub(crate) fn chacha20_apply(key: &[u8], nonce: &[u8], data: &[u8]) -> (r: Vec<u8>)
    requires
        key@.len() == 32,
        nonce@.len() == 12,
        data@.len() <= 1024,
    ensures
        r@.len() == data@.len(),
        forall|i: int|
            0 <= i < data@.len() ==> #[trigger] r@[i] == data@[i] ^ chacha20_byte(key@, nonce@, i),
{
    let mut buffer = data.to_vec();
    let mut stream = chacha20::ChaCha20::new(key.into(), nonce.into());
    stream.apply_keystream(&mut buffer);
    buffer
}

/// A reference resolved against an absolute URL; none where that is impossible.
pub uninterp spec fn joined_url(base: Seq<char>, value: Seq<char>) -> Option<Seq<char>>;

/// `reqwest::Url::join` on the parsed base: the text of the joined URL, none where the base is no
/// absolute URL or the reference cannot be joined.
#[verifier::external_body]
pub(crate) fn join_url(base: &str, value: &str) -> (r: Option<String>)
    ensures
        r.deep_view() == joined_url(base@, value@),
{
    let base = reqwest::Url::parse(base).ok()?;
    base.join(value).ok().map(|url| url.to_string())
}

/// The path of an absolute URL; none where the text is none.
pub uninterp spec fn path_of_url(value: Seq<char>) -> Option<Seq<char>>;

/// `reqwest::Url::path` on the parsed URL.
#[verifier::external_body]
pub(crate) fn url_path(value: &str) -> (r: Option<String>)
    ensures
        r.deep_view() == path_of_url(value@),
{
    reqwest::Url::parse(value).ok().map(|url| url.path().to_string())
}

/// The MD5 digest of bytes.
pub uninterp spec fn md5_of(bytes: Seq<u8>) -> Seq<u8>;

/// `md5::Md5`: the digest of bytes, sixteen bytes long.
#[verifier::external_body]
pub(crate) fn md5_digest(bytes: &[u8]) -> (r: Vec<u8>)
    ensures
        r@ == md5_of(bytes@),
        r@.len() == 16,
{
    md5::Md5::digest(bytes).to_vec()
}

/// The matches of a regular expression in a text, left to right: for each the match and its groups,
/// none for a group that did not take part. None where the pattern is no regular expression.
pub uninterp spec fn regex_groups(pattern: Seq<char>, text: Seq<char>) -> Option<
    Seq<Seq<Option<Seq<char>>>>,
>;

/// `regex::Regex::captures_iter` and `Captures::iter`: the groups of each match, of which the first
/// is the match itself.
#[verifier::external_body]
pub(crate) fn regex_captures(pattern: &str, text: &str) -> (r: Option<Vec<Vec<Option<String>>>>)
    ensures
        r.deep_view() == regex_groups(pattern@, text@),
        r is None <==> regex_error_of(pattern@) is Some,
        r is Some ==> forall|i: int| 0 <= i < r->0@.len() ==> #[trigger] r->0@[i]@.len() >= 1,
{
    let regex = regex::Regex::new(pattern).ok()?;
    let group = |group: Option<regex::Match>| group.map(|group| group.as_str().to_string());
    Some(regex.captures_iter(text).map(|captures| captures.iter().map(group).collect()).collect())
}

/// The texts before, between and after the matches of a regular expression in a text. None where the
/// pattern is no regular expression.
pub uninterp spec fn regex_gaps(pattern: Seq<char>, text: Seq<char>) -> Option<Seq<Seq<char>>>;

/// `regex::Regex::split`: the texts around the matches, one more than there are matches.
#[verifier::external_body]
pub(crate) fn regex_split(pattern: &str, text: &str) -> (r: Option<Vec<String>>)
    ensures
        r.deep_view() == regex_gaps(pattern@, text@),
        r is None <==> regex_error_of(pattern@) is Some,
        r is Some && regex_groups(pattern@, text@) is Some ==> r->0@.len() == regex_groups(
            pattern@,
            text@,
        )->0.len() + 1,
{
    let regex = regex::Regex::new(pattern).ok()?;
    Some(regex.split(text).map(str::to_string).collect())
}

/// `time::OffsetDateTime::now_utc`: the seconds since 1970-01-01 at present, within the range of
/// years that the clock can show, and the milliseconds of the second.
#[verifier::external_body]
pub fn utc_now() -> (r: (i64, u16))
    ensures
        -400_000_000_000 < r.0 < 400_000_000_000,
        r.1 < 1000,
{
    let now = time::OffsetDateTime::now_utc();
    (now.unix_timestamp(), now.millisecond())
}

/// Whether a character is a letter or a number.
pub uninterp spec fn is_letter_or_number(c: char) -> bool;

/// `char::is_alphanumeric`; among the ASCII characters these are the letters and digits.
#[verifier::external_body]
pub(crate) fn alphanumeric(c: char) -> (r: bool)
    ensures
        r == is_letter_or_number(c),
        c < '\u{80}' ==> r == (('0' <= c && c <= '9') || ('A' <= c && c <= 'Z') || ('a' <= c && c
            <= 'z')),
{
    c.is_alphanumeric()
}

/// What gzip data stand for, or why they stand for nothing.
pub uninterp spec fn gzip_plain(bytes: Seq<u8>) -> core::result::Result<Seq<u8>, Seq<char>>;

/// `flate2::read::GzDecoder` read to its end: what the first gzip member stands for, or the message
/// of the error.
#[verifier::external_body]
pub(crate) fn gunzip(bytes: &Vec<u8>) -> (r: core::result::Result<Vec<u8>, String>)
    ensures
        match r {
            Ok(v) => gzip_plain(bytes@) is Ok && gzip_plain(bytes@)->Ok_0 == v@,
            Err(e) => gzip_plain(bytes@) is Err && gzip_plain(bytes@)->Err_0 == e@,
        },
{
    let mut plain = Vec::new();
    flate2::read::GzDecoder::new(&bytes[..])
        .read_to_end(&mut plain)
        .map_err(|error| error.to_string())?;
    Ok(plain)
}

/// What zlib data stand for, or why they stand for nothing.
pub uninterp spec fn zlib_plain(bytes: Seq<u8>) -> core::result::Result<Seq<u8>, Seq<char>>;

/// `flate2::read::ZlibDecoder` read to its end, or the message of the error.
#[verifier::external_body]
pub(crate) fn inflate(bytes: &Vec<u8>) -> (r: core::result::Result<Vec<u8>, String>)
    ensures
        match r {
            Ok(v) => zlib_plain(bytes@) is Ok && zlib_plain(bytes@)->Ok_0 == v@,
            Err(e) => zlib_plain(bytes@) is Err && zlib_plain(bytes@)->Err_0 == e@,
        },
{
    let mut plain = Vec::new();
    flate2::read::ZlibDecoder::new(&bytes[..])
        .read_to_end(&mut plain)
        .map_err(|error| error.to_string())?;
    Ok(plain)
}

/// What bare deflate data stand for, or why they stand for nothing.
pub uninterp spec fn deflate_plain(bytes: Seq<u8>) -> core::result::Result<Seq<u8>, Seq<char>>;

/// `flate2::read::DeflateDecoder` read to its end, or the message of the error.
#[verifier::external_body]
pub(crate) fn inflate_raw(bytes: &Vec<u8>) -> (r: core::result::Result<Vec<u8>, String>)
    ensures
        match r {
            Ok(v) => deflate_plain(bytes@) is Ok && deflate_plain(bytes@)->Ok_0 == v@,
            Err(e) => deflate_plain(bytes@) is Err && deflate_plain(bytes@)->Err_0 == e@,
        },
{
    let mut plain = Vec::new();
    flate2::read::DeflateDecoder::new(&bytes[..])
        .read_to_end(&mut plain)
        .map_err(|error| error.to_string())?;
    Ok(plain)
}

/// What brotli data stand for, or why they stand for nothing.
pub uninterp spec fn brotli_plain(bytes: Seq<u8>) -> core::result::Result<Seq<u8>, Seq<char>>;

/// `brotli::Decompressor` read to its end, or the message of the error.
#[verifier::external_body]
pub(crate) fn unbrotli(bytes: &Vec<u8>) -> (r: core::result::Result<Vec<u8>, String>)
    ensures
        match r {
            Ok(v) => brotli_plain(bytes@) is Ok && brotli_plain(bytes@)->Ok_0 == v@,
            Err(e) => brotli_plain(bytes@) is Err && brotli_plain(bytes@)->Err_0 == e@,
        },
{
    let mut plain = Vec::new();
    brotli::Decompressor::new(&bytes[..], 4096)
        .read_to_end(&mut plain)
        .map_err(|error| error.to_string())?;
    Ok(plain)
}

/// The scheme of the URL that `reqwest::Url::parse` reads, none where it reads none.
pub uninterp spec fn url_scheme(value: Seq<char>) -> Option<Seq<char>>;

/// What `file_url` gives: a scheme, and a path as a text or as bytes that are no text.
pub type FileUrl = Option<(String, Option<core::result::Result<String, Vec<u8>>>)>;

/// `reqwest::Url::scheme` and `Url::to_file_path` on the parsed URL: its scheme, and the path that it
/// names on this system, none where it names none. What that path is depends on the system, so
/// nothing is stated of it.
#[verifier::external_body]
pub fn file_url(value: &str) -> (r: FileUrl)
    ensures
        url_scheme(value@) == (match r {
            Some((scheme, _)) => Some(scheme@),
            None => None::<Seq<char>>,
        }),
{
    let url = reqwest::Url::parse(value).ok()?;
    let path = url.to_file_path().ok().map(|path| path.into_os_string().into_string());
    let path = path.map(|path| path.map_err(|raw| raw.into_encoded_bytes()));
    Some((url.scheme().to_string(), path))
}

} // verus!
