//! Values of command line options.

use crate::codec::{
    base64_decode, bytes_to_hex, decode_base64, decode_hex_pairs, hex_digit, hex_pairs, hex_text,
    hex_value, HexRun, HexRunView,
};
use crate::config::{
    CustomKey, CustomKeyView, CustomRange, CustomRangeView, DecryptionEngine, HlsMethod, LogLevel,
    MuxAfterDoneOptions, MuxAfterDoneOptionsView, MuxerKind, SpeedLimit, SpeedLimitView, SpeedUnit,
    StreamFilter, StreamFilterView, SubtitleFormat, TaskStartAt, UiLanguage,
};
use crate::datetime::{field, parse_digits, valid_date};
use crate::error::{view_result, Error, ErrorView, Result};
use crate::manifest::{normal_token, normalize_token, role_of_token, RoleType};
use crate::mux::MuxFormat;
use crate::numeric::{classify, classify_number, NumberClass};
use crate::outside::{regex_error, regex_error_of, url_error, url_error_of};
use crate::text::{
    all_digits, cat2, cat3, contains, cut_once, drop, ends_with, find, find_text, finishes_with,
    from_range, has_text, is_digit, lower, lowered, magnitude_from, owned, parse_i32_text,
    parse_i64_text, parse_nat, parse_within, replace, replace_text, same, same_ignoring_case, slice,
    slice_from, split, split_once, split_text, strip_prefix, take, to_chars, trim, trim_char,
    trimmed, trimmed_char, without_prefix, Magnitude,
};
use vstd::prelude::*;

verus! {

/// Model of a value that could not be read.
pub open spec fn bad<T>(message: Seq<char>) -> core::result::Result<T, ErrorView> {
    Err(ErrorView::Config(message))
}

/// Model of a plain result.
pub open spec fn plain<T>(r: Result<T>) -> core::result::Result<T, ErrorView> {
    match r {
        Ok(v) => Ok(v),
        Err(e) => Err(e.deep_view()),
    }
}

fn fail2<T>(a: &str, b: &str) -> (r: Result<T>)
    ensures
        r is Err,
        r->Err_0.deep_view() == ErrorView::Config(a@ + b@),
{
    let message: String = cat2(a, b);
    Err(Error::config(message.as_str()))
}

fn fail3<T>(a: &str, b: &str, c: &str) -> (r: Result<T>)
    ensures
        r is Err,
        r->Err_0.deep_view() == ErrorView::Config(a@ + b@ + c@),
{
    let message: String = cat3(a, b, c);
    Err(Error::config(message.as_str()))
}

pub open spec fn bool_of(v: Seq<char>) -> core::result::Result<bool, ErrorView> {
    if lower(v) == lower("true"@) {
        Ok(true)
    } else if lower(v) == lower("false"@) {
        Ok(false)
    } else {
        bad("invalid boolean value "@ + v)
    }
}

pub open spec fn is_bool(v: Seq<char>) -> bool {
    lower(v) == lower("true"@) || lower(v) == lower("false"@)
}

pub(crate) fn is_bool_text(v: &str) -> (r: bool)
    ensures
        r == is_bool(v@),
{
    same_ignoring_case(v, "true") || same_ignoring_case(v, "false")
}

pub(crate) fn parse_bool(v: &str) -> (r: Result<bool>)
    ensures
        plain(r) == bool_of(v@),
{
    if same_ignoring_case(v, "true") {
        Ok(true)
    } else if same_ignoring_case(v, "false") {
        Ok(false)
    } else {
        fail2("invalid boolean value ", v)
    }
}

pub open spec fn i32_of(v: Seq<char>, option: Seq<char>) -> core::result::Result<i32, ErrorView> {
    match parse_within(v, i32::MIN as int, i32::MAX as int) {
        Some(n) => Ok(n as i32),
        None => bad(option + " must be an integer"@),
    }
}

pub(crate) fn parse_i32(v: &str, option: &str) -> (r: Result<i32>)
    ensures
        plain(r) == i32_of(v@, option@),
{
    match parse_i32_text(v) {
        Some(n) => Ok(n),
        None => fail2(option, " must be an integer"),
    }
}

pub open spec fn i64_of(v: Seq<char>, option: Seq<char>) -> core::result::Result<i64, ErrorView> {
    match parse_within(v, i64::MIN as int, i64::MAX as int) {
        Some(n) => Ok(n as i64),
        None => bad(option + " must be an integer"@),
    }
}

fn parse_i64(v: &str, option: &str) -> (r: Result<i64>)
    ensures
        plain(r) == i64_of(v@, option@),
{
    match parse_i64_text(v) {
        Some(n) => Ok(n),
        None => fail2(option, " must be an integer"),
    }
}

pub open spec fn level_of(v: Seq<char>) -> core::result::Result<LogLevel, ErrorView> {
    let name = lower(v);
    if name == "debug"@ {
        Ok(LogLevel::Debug)
    } else if name == "info"@ {
        Ok(LogLevel::Info)
    } else if name == "warn"@ {
        Ok(LogLevel::Warn)
    } else if name == "error"@ {
        Ok(LogLevel::Error)
    } else if name == "off"@ {
        Ok(LogLevel::Off)
    } else {
        bad("invalid log level "@ + v)
    }
}

pub(crate) fn parse_log_level(v: &str) -> (r: Result<LogLevel>)
    ensures
        plain(r) == level_of(v@),
{
    let text: String = lowered(v);
    let name: &str = text.as_str();
    if same(name, "debug") {
        Ok(LogLevel::Debug)
    } else if same(name, "info") {
        Ok(LogLevel::Info)
    } else if same(name, "warn") {
        Ok(LogLevel::Warn)
    } else if same(name, "error") {
        Ok(LogLevel::Error)
    } else if same(name, "off") {
        Ok(LogLevel::Off)
    } else {
        fail2("invalid log level ", v)
    }
}

pub open spec fn engine_of(v: Seq<char>) -> core::result::Result<DecryptionEngine, ErrorView> {
    let name = normal_token(v);
    if name == "mp4forge"@ {
        Ok(DecryptionEngine::Mp4forge)
    } else if name == "mp4decrypt"@ {
        Ok(DecryptionEngine::Mp4decrypt)
    } else if name == "shakapackager"@ {
        Ok(DecryptionEngine::ShakaPackager)
    } else if name == "ffmpeg"@ {
        Ok(DecryptionEngine::Ffmpeg)
    } else {
        bad("invalid decryption engine "@ + v)
    }
}

pub(crate) fn parse_decryption_engine(v: &str) -> (r: Result<DecryptionEngine>)
    ensures
        plain(r) == engine_of(v@),
{
    let text: String = normalize_token(v);
    let name: &str = text.as_str();
    if same(name, "mp4forge") {
        Ok(DecryptionEngine::Mp4forge)
    } else if same(name, "mp4decrypt") {
        Ok(DecryptionEngine::Mp4decrypt)
    } else if same(name, "shakapackager") {
        Ok(DecryptionEngine::ShakaPackager)
    } else if same(name, "ffmpeg") {
        Ok(DecryptionEngine::Ffmpeg)
    } else {
        fail2("invalid decryption engine ", v)
    }
}

pub open spec fn subtitle_of(v: Seq<char>) -> core::result::Result<SubtitleFormat, ErrorView> {
    let name = lower(v);
    if name == "srt"@ {
        Ok(SubtitleFormat::Srt)
    } else if name == "vtt"@ {
        Ok(SubtitleFormat::Vtt)
    } else {
        bad("invalid subtitle format "@ + v)
    }
}

pub(crate) fn parse_subtitle_format(v: &str) -> (r: Result<SubtitleFormat>)
    ensures
        plain(r) == subtitle_of(v@),
{
    let text: String = lowered(v);
    if same(text.as_str(), "srt") {
        Ok(SubtitleFormat::Srt)
    } else if same(text.as_str(), "vtt") {
        Ok(SubtitleFormat::Vtt)
    } else {
        fail2("invalid subtitle format ", v)
    }
}

pub open spec fn language_of(v: Seq<char>) -> core::result::Result<UiLanguage, ErrorView> {
    if v == "auto"@ || v == "en-US"@ {
        Ok(UiLanguage::EnUs)
    } else {
        bad("invalid UI language "@ + v)
    }
}

pub(crate) fn parse_ui_language(v: &str) -> (r: Result<UiLanguage>)
    ensures
        plain(r) == language_of(v@),
{
    if same(v, "auto") || same(v, "en-US") {
        Ok(UiLanguage::EnUs)
    } else {
        fail2("invalid UI language ", v)
    }
}

pub open spec fn hls_method_of(v: Seq<char>) -> core::result::Result<HlsMethod, ErrorView> {
    let name = lower(v);
    if name == "none"@ {
        Ok(HlsMethod::Unencrypted)
    } else if name == "aes_128"@ {
        Ok(HlsMethod::Aes128)
    } else if name == "aes_128_ecb"@ {
        Ok(HlsMethod::Aes128Ecb)
    } else if name == "cenc"@ {
        Ok(HlsMethod::Cenc)
    } else if name == "sample_aes"@ {
        Ok(HlsMethod::SampleAes)
    } else if name == "sample_aes_ctr"@ {
        Ok(HlsMethod::SampleAesCtr)
    } else if name == "chacha20"@ {
        Ok(HlsMethod::Chacha20)
    } else if name == "unknown"@ {
        Ok(HlsMethod::Unknown)
    } else if trim(v).len() == 0 {
        bad("--custom-hls-method must not be empty"@)
    } else {
        bad("invalid HLS method "@ + v)
    }
}

pub(crate) fn parse_hls_method(v: &str) -> (r: Result<HlsMethod>)
    ensures
        plain(r) == hls_method_of(v@),
{
    let text: String = lowered(v);
    let name: &str = text.as_str();
    if same(name, "none") {
        Ok(HlsMethod::Unencrypted)
    } else if same(name, "aes_128") {
        Ok(HlsMethod::Aes128)
    } else if same(name, "aes_128_ecb") {
        Ok(HlsMethod::Aes128Ecb)
    } else if same(name, "cenc") {
        Ok(HlsMethod::Cenc)
    } else if same(name, "sample_aes") {
        Ok(HlsMethod::SampleAes)
    } else if same(name, "sample_aes_ctr") {
        Ok(HlsMethod::SampleAesCtr)
    } else if same(name, "chacha20") {
        Ok(HlsMethod::Chacha20)
    } else if same(name, "unknown") {
        Ok(HlsMethod::Unknown)
    } else if trimmed(v).unicode_len() == 0 {
        Err(Error::config("--custom-hls-method must not be empty"))
    } else {
        fail2("invalid HLS method ", v)
    }
}

/// Name and value of a header; a text without a colon is none.
pub open spec fn header_of(v: Seq<char>) -> Option<(Seq<char>, Seq<char>)> {
    match split_once(v, ":"@) {
        Some((name, value)) => Some((lower(trim(name)), trim(value))),
        None => None,
    }
}

pub(crate) fn parse_header(v: &str) -> (r: Option<(String, String)>)
    ensures
        r.deep_view() == header_of(v@),
{
    match cut_once(v, ":") {
        Some((name, value)) => {
            let low: String = lowered(trimmed(name));
            Some((low, owned(trimmed(value))))
        },
        None => None,
    }
}

pub open spec fn proxy_of(v: Seq<char>) -> core::result::Result<Option<Seq<char>>, ErrorView> {
    if v.len() == 0 {
        Ok(None)
    } else {
        match url_error_of(v) {
            Some(e) => bad("--custom-proxy URI is invalid: "@ + e),
            None => Ok(Some(v)),
        }
    }
}

pub(crate) fn parse_custom_proxy(v: &str) -> (r: Result<Option<String>>)
    ensures
        view_result(r) == proxy_of(v@),
{
    if v.unicode_len() == 0 {
        return Ok(None);
    }
    match url_error(v) {
        Some(e) => fail2("--custom-proxy URI is invalid: ", e.as_str()),
        None => Ok(Some(owned(v))),
    }
}

/// A character that no file name may hold.
pub open spec fn is_bad_name_char(c: char) -> bool {
    c <= '\u{1f}' || c == '"' || c == '<' || c == '>' || c == '|' || c == ':' || c == '*' || c
        == '?' || c == '\\' || c == '/'
}

/// The text with each character that no file name may hold turned into an underscore.
pub open spec fn clean_name(v: Seq<char>) -> Seq<char> {
    v.map_values(
        |c: char|
            if is_bad_name_char(c) {
                '_'
            } else {
                c
            },
    )
}

pub open spec fn file_name_of(v: Seq<char>, option: Seq<char>) -> core::result::Result<
    Seq<char>,
    ErrorView,
> {
    let cleaned = trim_char(clean_name(v), '.');
    if trim(cleaned).len() == 0 {
        bad(option + " produced an empty file name"@)
    } else {
        Ok(cleaned)
    }
}

fn is_invalid_file_name_char(c: char) -> (r: bool)
    ensures
        r == is_bad_name_char(c),
{
    c <= '\u{1f}' || c == '"' || c == '<' || c == '>' || c == '|' || c == ':' || c == '*' || c
        == '?' || c == '\\' || c == '/'
}

pub(crate) fn sanitize_file_name(v: &str, option: &str) -> (r: Result<String>)
    ensures
        view_result(r) == file_name_of(v@, option@),
{
    let chars: Vec<char> = to_chars(v);
    let mut cleaned: String = String::new();
    let mut i: usize = 0;
    while i < chars.len()
        invariant
            i <= chars@.len(),
            cleaned@ =~= clean_name(chars@.subrange(0, i as int)),
        decreases chars@.len() - i,
    {
        let c: char = chars[i];
        cleaned.push(
            if is_invalid_file_name_char(c) {
                '_'
            } else {
                c
            },
        );
        i = i + 1;
        assert(chars@.subrange(0, i as int) =~= chars@.subrange(0, i - 1).push(c));
    }
    assert(chars@.subrange(0, chars@.len() as int) =~= chars@);
    let name: &str = trimmed_char(cleaned.as_str(), '.');
    if trimmed(name).unicode_len() == 0 {
        fail2(option, " produced an empty file name")
    } else {
        Ok(owned(name))
    }
}

/// A digit or a point.
pub open spec fn is_speed_char(c: char) -> bool {
    is_digit(c) || c == '.'
}

/// The unit that a character stands for.
pub open spec fn unit_of(c: char) -> Option<SpeedUnit> {
    if c == 'M' || c == 'm' {
        Some(SpeedUnit::Mega)
    } else if c == 'K' || c == 'k' {
        Some(SpeedUnit::Kilo)
    } else {
        None
    }
}

/// The first run of digits and points that a unit follows; a run that begins at `start` is open.
pub open spec fn speed_run(v: Seq<char>, start: Option<int>, i: int) -> Option<
    (Seq<char>, SpeedUnit),
>
    decreases v.len() - i,
{
    if i < 0 || i >= v.len() {
        None
    } else if is_speed_char(v[i]) {
        speed_run(
            v,
            if start is None {
                Some(i)
            } else {
                start
            },
            i + 1,
        )
    } else if start is Some && unit_of(v[i]) is Some {
        Some((v.subrange(start->0, i), unit_of(v[i])->0))
    } else {
        speed_run(v, None, i + 1)
    }
}

pub open spec fn speed_of(v: Seq<char>) -> core::result::Result<SpeedLimitView, ErrorView> {
    match speed_run(v, None, 0) {
        None => bad("--max-speed must contain a number ending with M or K"@),
        Some((number, unit)) => if classify(number) is Malformed {
            bad("--max-speed must be numeric"@)
        } else {
            Ok(SpeedLimitView { number, unit })
        },
    }
}

fn find_speed_limit_match(v: &str) -> (r: Option<(String, SpeedUnit)>)
    ensures
        match r {
            Some((number, unit)) => speed_run(v@, None, 0) == Some((number@, unit)),
            None => speed_run(v@, None, 0) is None,
        },
{
    let chars: Vec<char> = to_chars(v);
    let mut start: Option<usize> = None;
    let mut i: usize = 0;
    while i < chars.len()
        invariant
            chars@ == v@,
            i <= chars@.len(),
            start is Some ==> start->0 < i,
            speed_run(v@, None, 0) == speed_run(
                v@,
                match start {
                    Some(n) => Some(n as int),
                    None => None,
                },
                i as int,
            ),
        decreases chars@.len() - i,
    {
        let c: char = chars[i];
        if ('0' <= c && c <= '9') || c == '.' {
            if start.is_none() {
                start = Some(i);
            }
        } else {
            let unit: Option<SpeedUnit> = if c == 'M' || c == 'm' {
                Some(SpeedUnit::Mega)
            } else if c == 'K' || c == 'k' {
                Some(SpeedUnit::Kilo)
            } else {
                None
            };
            match (start, unit) {
                (Some(from), Some(u)) => {
                    return Some((from_range(&chars, from, i), u));
                },
                _ => {
                    start = None;
                },
            }
        }
        i = i + 1;
    }
    None
}

pub(crate) fn parse_speed_limit(v: &str) -> (r: Result<SpeedLimit>)
    ensures
        view_result(r) == speed_of(v@),
{
    match find_speed_limit_match(v) {
        None => Err(Error::config("--max-speed must contain a number ending with M or K")),
        Some((number, unit)) => match classify_number(number.as_str()) {
            NumberClass::Malformed => Err(Error::config("--max-speed must be numeric")),
            _ => Ok(SpeedLimit { number, unit }),
        },
    }
}

/// The digits at the end.
pub open spec fn trailing_digits(s: Seq<char>) -> Seq<char>
    decreases s.len(),
{
    if s.len() > 0 && is_digit(s.last()) {
        trailing_digits(s.drop_last()).push(s.last())
    } else {
        Seq::empty()
    }
}

/// The digits at the start.
pub open spec fn leading_digits(s: Seq<char>) -> Seq<char> {
    s.subrange(0, crate::datetime::digit_run(s, 0))
}

pub open spec fn segment_range_of(v: Seq<char>) -> core::result::Result<(i64, i64), ErrorView> {
    match split_once(v, "-"@) {
        None => bad("--custom-range must use start-end syntax"@),
        Some((before, after)) => {
            let left = trailing_digits(before);
            let right = leading_digits(after);
            let start = if left.len() == 0 {
                Ok(0i64)
            } else {
                i64_of(left, "--custom-range"@)
            };
            let end = if right.len() == 0 {
                Ok(i64::MAX)
            } else {
                i64_of(right, "--custom-range"@)
            };
            match (start, end) {
                (Err(e), _) => Err(e),
                (_, Err(e)) => Err(e),
                (Ok(a), Ok(b)) => Ok((a, b)),
            }
        },
    }
}

fn digits_at_end(s: &str) -> (r: String)
    ensures
        r@ == trailing_digits(s@),
{
    let v: Vec<char> = to_chars(s);
    let mut n: usize = v.len();
    assert(v@.subrange(0, v@.len() as int) =~= v@);
    assert(trailing_digits(v@) =~= trailing_digits(v@.subrange(0, n as int)) + v@.subrange(
        n as int,
        v@.len() as int,
    ));
    while n > 0 && '0' <= v[n - 1] && v[n - 1] <= '9'
        invariant
            n <= v@.len(),
            trailing_digits(v@) == trailing_digits(v@.subrange(0, n as int)) + v@.subrange(
                n as int,
                v@.len() as int,
            ),
        decreases n,
    {
        let ghost head = v@.subrange(0, n as int);
        assert(head.drop_last() =~= v@.subrange(0, n - 1));
        n = n - 1;
        assert(trailing_digits(v@) =~= trailing_digits(v@.subrange(0, n as int)) + v@.subrange(
            n as int,
            v@.len() as int,
        ));
    }
    if n > 0 {
        assert(v@.subrange(0, n as int).last() == v@[n - 1]);
    }
    assert(trailing_digits(v@) =~= v@.subrange(n as int, v@.len() as int));
    from_range(&v, n, v.len())
}

fn digits_at_start(s: &str) -> (r: String)
    ensures
        r@ == leading_digits(s@),
{
    let v: Vec<char> = to_chars(s);
    let mut n: usize = 0;
    while n < v.len() && '0' <= v[n] && v[n] <= '9'
        invariant
            n <= v@.len(),
            crate::datetime::digit_run(v@, 0) == n + crate::datetime::digit_run(v@, n as int),
        decreases v@.len() - n,
    {
        n = n + 1;
    }
    from_range(&v, 0, n)
}

fn parse_segment_range(v: &str) -> (r: Result<(i64, i64)>)
    ensures
        plain(r) == segment_range_of(v@),
{
    match cut_once(v, "-") {
        None => Err(Error::config("--custom-range must use start-end syntax")),
        Some((before, after)) => {
            let left: String = digits_at_end(before);
            let right: String = digits_at_start(after);
            let start: i64 = if left.as_str().unicode_len() == 0 {
                0
            } else {
                match parse_i64(left.as_str(), "--custom-range") {
                    Ok(n) => n,
                    Err(e) => {
                        return Err(e);
                    },
                }
            };
            let end: i64 = if right.as_str().unicode_len() == 0 {
                i64::MAX
            } else {
                match parse_i64(right.as_str(), "--custom-range") {
                    Ok(n) => n,
                    Err(e) => {
                        return Err(e);
                    },
                }
            };
            Ok((start, end))
        },
    }
}

/// The numbers between colons, or the first that is none.
pub open spec fn colon_numbers(
    parts: Seq<Seq<char>>,
    option: Seq<char>,
) -> core::result::Result<Seq<int>, ErrorView>
    decreases parts.len(),
{
    if parts.len() == 0 {
        Ok(Seq::empty())
    } else {
        match colon_numbers(parts.drop_last(), option) {
            Err(e) => Err(e),
            Ok(head) => match i32_of(trim(parts.last()), option) {
                Err(e) => Err(e),
                Ok(n) => Ok(head.push(n as int)),
            },
        }
    }
}

/// Days, hours, minutes and seconds counted from the right; further numbers do not count.
pub open spec fn colon_total(numbers: Seq<int>) -> int {
    let n = numbers.len();
    (if n > 0 {
        numbers[n - 1]
    } else {
        0
    }) + (if n > 1 {
        numbers[n - 2] * 60
    } else {
        0
    }) + (if n > 2 {
        numbers[n - 3] * 3600
    } else {
        0
    }) + (if n > 3 {
        numbers[n - 4] * 86400
    } else {
        0
    })
}

/// The seconds of a duration written with colons; a full width colon counts as one.
pub open spec fn duration_of(v: Seq<char>, option: Seq<char>) -> core::result::Result<
    int,
    ErrorView,
> {
    if trim(v).len() == 0 {
        bad(option + " duration must not be empty"@)
    } else {
        match colon_numbers(split(replace(v, "\u{ff1a}"@, ":"@), ":"@), option) {
            Err(e) => Err(e),
            Ok(numbers) => Ok(colon_total(numbers)),
        }
    }
}

fn parse_duration_seconds(v: &str, option: &str) -> (r: Result<i64>)
    ensures
        match r {
            Ok(n) => duration_of(v@, option@) == Ok::<int, ErrorView>(n as int),
            Err(e) => duration_of(v@, option@) == Err::<int, ErrorView>(e.deep_view()),
        },
{
    if trimmed(v).unicode_len() == 0 {
        return fail2(option, " duration must not be empty");
    }
    proof {
        reveal_strlit("\u{ff1a}");
        reveal_strlit(":");
    }
    let normalized: String = replace_text(v, "\u{ff1a}", ":");
    let parts: Vec<String> = split_text(normalized.as_str(), ":");
    let ghost texts = parts.deep_view();
    let mut numbers: Vec<i32> = Vec::new();
    let mut i: usize = 0;
    let ghost as_ints = |s: Seq<i32>| s.map_values(|x: i32| x as int);
    assert(texts.subrange(0, 0) =~= Seq::<Seq<char>>::empty());
    assert(numbers@.map_values(|x: i32| x as int) =~= Seq::<int>::empty());
    while i < parts.len()
        invariant
            i <= parts@.len(),
            texts == parts.deep_view(),
            texts == split(replace(v@, "\u{ff1a}"@, ":"@), ":"@),
            trim(v@).len() != 0,
            numbers@.len() == i,
            colon_numbers(texts.subrange(0, i as int), option@) == Ok::<Seq<int>, ErrorView>(
                numbers@.map_values(|x: i32| x as int),
            ),
        decreases parts@.len() - i,
    {
        let ghost before = numbers@;
        let ghost head = texts.subrange(0, i + 1);
        assert(head.drop_last() =~= texts.subrange(0, i as int));
        assert(head.last() == parts@[i as int]@);
        match parse_i32(trimmed(parts[i].as_str()), option) {
            Ok(n) => {
                numbers.push(n);
                assert(numbers@.map_values(|x: i32| x as int) =~= before.map_values(
                    |x: i32| x as int,
                ).push(n as int));
            },
            Err(e) => {
                proof {
                    lemma_colon_error(texts, i + 1, option@);
                }
                return Err(e);
            },
        }
        i = i + 1;
    }
    assert(texts.subrange(0, texts.len() as int) =~= texts);
    let ghost ints = numbers@.map_values(|x: i32| x as int);
    let n: usize = numbers.len();
    let mut total: i64 = 0;
    if n > 0 {
        assert(ints[n - 1] == numbers@[n - 1]);
        total = total + numbers[n - 1] as i64;
    }
    if n > 1 {
        assert(ints[n - 2] == numbers@[n - 2]);
        total = total + numbers[n - 2] as i64 * 60;
    }
    if n > 2 {
        assert(ints[n - 3] == numbers@[n - 3]);
        total = total + numbers[n - 3] as i64 * 3600;
    }
    if n > 3 {
        assert(ints[n - 4] == numbers@[n - 4]);
        total = total + numbers[n - 4] as i64 * 86400;
    }
    Ok(total)
}

/// An error in a prefix is the error of the whole.
proof fn lemma_colon_error(parts: Seq<Seq<char>>, n: int, option: Seq<char>)
    requires
        0 <= n <= parts.len(),
        colon_numbers(parts.subrange(0, n), option) is Err,
    ensures
        colon_numbers(parts, option) == colon_numbers(parts.subrange(0, n), option),
    decreases parts.len() - n,
{
    if n < parts.len() {
        assert(parts.subrange(0, n + 1).drop_last() =~= parts.subrange(0, n));
        lemma_colon_error(parts, n + 1, option);
    } else {
        assert(parts.subrange(0, n) =~= parts);
    }
}

pub open spec fn range_of(v: Seq<char>) -> core::result::Result<Option<CustomRangeView>, ErrorView> {
    let parts = split(v, "-"@);
    if v.len() == 0 {
        Ok(None)
    } else if parts.len() != 2 {
        bad("--custom-range must use start-end syntax"@)
    } else if contains(v, ":"@) {
        let start = if trim(parts[0]).len() == 0 {
            Ok(0int)
        } else {
            duration_of(trim(parts[0]), "--custom-range"@)
        };
        let end = if trim(parts[1]).len() == 0 {
            Ok(None)
        } else {
            match duration_of(trim(parts[1]), "--custom-range"@) {
                Ok(n) => Ok(Some(n as i64)),
                Err(e) => Err(e),
            }
        };
        match (start, end) {
            (Err(e), _) => Err(e),
            (_, Err(e)) => Err(e),
            (Ok(a), Ok(b)) => Ok(
                Some(CustomRangeView::Time { input: v, start_seconds: a as i64, end_seconds: b }),
            ),
        }
    } else {
        match segment_range_of(v) {
            Err(e) => Err(e),
            Ok((a, b)) => Ok(
                Some(CustomRangeView::Segment { input: v, start_index: a, end_index: b }),
            ),
        }
    }
}

pub(crate) fn parse_custom_range(v: &str) -> (r: Result<Option<CustomRange>>)
    ensures
        view_result(r) == range_of(v@),
{
    if v.unicode_len() == 0 {
        return Ok(None);
    }
    proof {
        reveal_strlit("-");
    }
    let parts: Vec<String> = split_text(v, "-");
    assert(parts.deep_view().len() == parts@.len());
    if parts.len() != 2 {
        return Err(Error::config("--custom-range must use start-end syntax"));
    }
    assert(parts.deep_view()[0] == parts@[0]@ && parts.deep_view()[1] == parts@[1]@);
    if has_text(v, ":") {
        let first: &str = trimmed(parts[0].as_str());
        let second: &str = trimmed(parts[1].as_str());
        let start: i64 = if first.unicode_len() == 0 {
            0
        } else {
            match parse_duration_seconds(first, "--custom-range") {
                Ok(n) => n,
                Err(e) => {
                    return Err(e);
                },
            }
        };
        let end: Option<i64> = if second.unicode_len() == 0 {
            None
        } else {
            match parse_duration_seconds(second, "--custom-range") {
                Ok(n) => Some(n),
                Err(e) => {
                    return Err(e);
                },
            }
        };
        Ok(Some(CustomRange::Time { input: owned(v), start_seconds: start, end_seconds: end }))
    } else {
        match parse_segment_range(v) {
            Err(e) => Err(e),
            Ok((start_index, end_index)) => Ok(
                Some(CustomRange::Segment { input: owned(v), start_index, end_index }),
            ),
        }
    }
}

pub open spec fn record_limit_of(v: Seq<char>, option: Seq<char>) -> core::result::Result<
    u64,
    ErrorView,
> {
    match duration_of(v, option) {
        Err(e) => Err(e),
        Ok(n) => Ok(
            if n > 0 {
                n as u64
            } else {
                0
            },
        ),
    }
}

pub(crate) fn parse_duration(v: &str, option: &str) -> (r: Result<u64>)
    ensures
        plain(r) == record_limit_of(v@, option@),
{
    match parse_duration_seconds(v, option) {
        Err(e) => Err(e),
        Ok(n) => Ok(
            if n > 0 {
                n as u64
            } else {
                0
            },
        ),
    }
}

pub open spec fn timeout_of(v: Seq<char>, option: Seq<char>) -> core::result::Result<
    Seq<char>,
    ErrorView,
> {
    match classify(v) {
        NumberClass::Malformed => bad(option + " must be numeric"@),
        NumberClass::NotNegative => Ok(v),
        _ => bad(option + " duration is invalid"@),
    }
}

pub(crate) fn parse_seconds_duration(v: &str, option: &str) -> (r: Result<String>)
    ensures
        view_result(r) == timeout_of(v@, option@),
{
    match classify_number(v) {
        NumberClass::Malformed => fail2(option, " must be numeric"),
        NumberClass::NotNegative => Ok(owned(v)),
        _ => fail2(option, " duration is invalid"),
    }
}

/// Rank and length in seconds of a unit of a duration such as `1h2m3s`.
pub open spec fn hms_unit(c: char) -> Option<(int, int)> {
    if c == 'h' {
        Some((1, 3600))
    } else if c == 'm' {
        Some((2, 60))
    } else if c == 's' {
        Some((3, 1))
    } else {
        None
    }
}

/// The seconds of a duration such as `1h2m3s` from position `i` on; each unit at most once, in order.
pub open spec fn hms_from(v: Seq<char>, i: int, rank: int, option: Seq<char>) -> core::result::Result<
    int,
    ErrorView,
>
    decreases v.len() - i,
{
    if i < 0 || i >= v.len() {
        Ok(0)
    } else {
        let run = crate::datetime::digit_run(v, i);
        let end = i + run;
        if run <= 0 || end >= v.len() {
            bad(option + " duration must use h/m/s units"@)
        } else {
            match hms_unit(v[end]) {
                None => bad(option + " has invalid duration unit"@),
                Some((r, seconds)) => if r <= rank {
                    bad(option + " duration units must be ordered h/m/s"@)
                } else {
                    match i32_of(v.subrange(i, end), option) {
                        Err(e) => Err(e),
                        Ok(n) => match hms_from(v, end + 1, r, option) {
                            Err(e) => Err(e),
                            Ok(rest) => Ok(n * seconds + rest),
                        },
                    }
                },
            }
        }
    }
}

pub open spec fn hms_of(v: Seq<char>, option: Seq<char>) -> core::result::Result<int, ErrorView> {
    if trim(v).len() == 0 {
        bad(option + " duration must not be empty"@)
    } else {
        hms_from(v, 0, 0, option)
    }
}

fn parse_hms_duration(v: &str, option: &str) -> (r: Result<i64>)
    ensures
        match r {
            Ok(n) => hms_of(v@, option@) == Ok::<int, ErrorView>(n as int),
            Err(e) => hms_of(v@, option@) == Err::<int, ErrorView>(e.deep_view()),
        },
{
    if trimmed(v).unicode_len() == 0 {
        return fail2(option, " duration must not be empty");
    }
    let chars: Vec<char> = to_chars(v);
    let mut i: usize = 0;
    let mut total: i64 = 0;
    let mut rank: i64 = 0;
    while i < chars.len()
        invariant
            chars@ == v@,
            trim(v@).len() != 0,
            i <= chars@.len() <= usize::MAX,
            0 <= rank <= 3,
            -10_000_000_000_000 * rank <= total <= 10_000_000_000_000 * rank,
            hms_of(v@, option@) == match hms_from(v@, i as int, rank as int, option@) {
                Ok(rest) => Ok(total + rest),
                Err(e) => Err(e),
            },
        decreases chars@.len() - i,
    {
        let mut end: usize = i;
        while end < chars.len() && '0' <= chars[end] && chars[end] <= '9'
            invariant
                i <= end <= chars@.len(),
                crate::datetime::digit_run(chars@, i as int) == end - i + crate::datetime::digit_run(
                    chars@,
                    end as int,
                ),
            decreases chars@.len() - end,
        {
            end = end + 1;
        }
        if end == i || end >= chars.len() {
            return fail2(option, " duration must use h/m/s units");
        }
        let c: char = chars[end];
        let (next_rank, seconds): (i64, i64) = if c == 'h' {
            (1, 3600)
        } else if c == 'm' {
            (2, 60)
        } else if c == 's' {
            (3, 1)
        } else {
            return fail2(option, " has invalid duration unit");
        };
        if next_rank <= rank {
            return fail2(option, " duration units must be ordered h/m/s");
        }
        let number: String = from_range(&chars, i, end);
        let parsed: i64 = match parse_i32(number.as_str(), option) {
            Ok(n) => n as i64,
            Err(e) => {
                return Err(e);
            },
        };
        assert(-10_000_000_000_000 <= parsed * seconds <= 10_000_000_000_000) by (nonlinear_arith)
            requires
                -2147483648 <= parsed <= 2147483647,
                1 <= seconds <= 3600,
        ;
        total = total + parsed * seconds;
        rank = next_rank;
        i = end + 1;
    }
    Ok(total)
}

pub open spec fn start_of(v: Seq<char>) -> core::result::Result<Seq<char>, ErrorView> {
    if v.len() != 14 || !all_digits(v) {
        bad("--task-start-at must use yyyyMMddHHmmss"@)
    } else if !valid_date(field(v, 0, 4), field(v, 4, 6), field(v, 6, 8)) || field(v, 8, 10) > 23
        || field(v, 10, 12) > 59 || field(v, 12, 14) > 59 {
        bad("--task-start-at contains an out-of-range field"@)
    } else {
        Ok(v)
    }
}

/// Whether every character is a decimal digit.
pub(crate) fn only_digits(s: &str) -> (r: bool)
    ensures
        r == all_digits(s@),
{
    let v: Vec<char> = to_chars(s);
    let mut i: usize = 0;
    while i < v.len()
        invariant
            v@ == s@,
            i <= v@.len(),
            forall|j: int| 0 <= j < i ==> is_digit(#[trigger] v@[j]),
        decreases v@.len() - i,
    {
        if !('0' <= v[i] && v[i] <= '9') {
            assert(!is_digit(v@[i as int]));
            return false;
        }
        i = i + 1;
    }
    true
}

pub(crate) fn parse_task_start_at(v: &str) -> (r: Result<TaskStartAt>)
    ensures
        view_result(r) == start_of(v@),
{
    let chars: Vec<char> = to_chars(v);
    if chars.len() != 14 || !only_digits(v) {
        return Err(Error::config("--task-start-at must use yyyyMMddHHmmss"));
    }
    proof {
        crate::config::lemma_fields_are_digits(chars@);
    }
    let year: i64 = parse_digits(&chars, 0, 4).unwrap();
    let month: i64 = parse_digits(&chars, 4, 6).unwrap();
    let day: i64 = parse_digits(&chars, 6, 8).unwrap();
    let hour: i64 = parse_digits(&chars, 8, 10).unwrap();
    let minute: i64 = parse_digits(&chars, 10, 12).unwrap();
    let second: i64 = parse_digits(&chars, 12, 14).unwrap();
    if crate::datetime::days_from_civil(year, month, day).is_none() || hour > 23 || minute > 59
        || second > 59 {
        return Err(Error::config("--task-start-at contains an out-of-range field"));
    }
    Ok(TaskStartAt::new(owned(v)))
}

/// The value after `key=`, up to the first colon that no backslash precedes. Before such a colon
/// the backslashes read so far are dropped.
pub open spec fn complex_run(rest: Seq<char>, acc: Seq<char>, last: char) -> Seq<char>
    decreases rest.len(),
{
    if rest.len() == 0 {
        acc
    } else if rest[0] != ':' {
        complex_run(rest.drop_first(), acc.push(rest[0]), rest[0])
    } else if last == '\\' {
        complex_run(rest.drop_first(), replace(acc, "\\"@, ""@).push(':'), ':')
    } else {
        acc
    }
}

/// What a complex option says under a key.
pub open spec fn complex_of(source: Seq<char>, key: Seq<char>) -> core::result::Result<
    Option<Seq<char>>,
    ErrorView,
> {
    if key.len() == 0 || source.len() == 0 {
        Ok(None)
    } else {
        match find(source, key + "="@) {
            None => if contains(source, key) && ends_with(source, key) {
                Ok(Some("true"@))
            } else {
                Ok(None)
            },
            Some(i) => {
                let run = complex_run(drop(source, i + key.len() + 1), Seq::empty(), '\0');
                let cleaned = trim_char(trim_char(trim(run), '"'), '\'');
                if contains(cleaned, "\""@) || contains(cleaned, "'"@) {
                    bad("complex option "@ + key + " is invalid"@)
                } else {
                    Ok(Some(cleaned))
                }
            },
        }
    }
}

/// An option whose value holds named parts.
pub struct ComplexParams {
    source: String,
}

impl ComplexParams {
    pub closed spec fn source(&self) -> Seq<char> {
        self.source@
    }

    pub fn parse(v: &str) -> (r: Self)
        ensures
            r.source() == v@,
    {
        ComplexParams { source: owned(v) }
    }

    pub fn get(&self, key: &str) -> (r: Result<Option<String>>)
        ensures
            view_result(r) == complex_of(self.source(), key@),
    {
        let source: &str = self.source.as_str();
        if key.unicode_len() == 0 || source.unicode_len() == 0 {
            return Ok(None);
        }
        let needle: String = cat2(key, "=");
        let at: usize = match find_text(source, needle.as_str()) {
            Some(i) => i,
            None => {
                if has_text(source, key) && finishes_with(source, key) {
                    return Ok(Some(owned("true")));
                }
                return Ok(None);
            },
        };
        proof {
            reveal_strlit("=");
            reveal_strlit("\\");
        }
        let _len: usize = source.unicode_len();
        let rest: Vec<char> = to_chars(slice_from(source, at + key.unicode_len() + 1));
        let mut run: String = String::new();
        let mut last: char = '\0';
        let mut i: usize = 0;
        assert(rest@.subrange(0, rest@.len() as int) =~= rest@);
        let ghost whole = complex_run(rest@, Seq::empty(), '\0');
        while i < rest.len()
            invariant
                i <= rest@.len(),
                "\\"@.len() > 0,
                whole == complex_run(rest@.subrange(i as int, rest@.len() as int), run@, last),
            ensures
                whole == run@,
            decreases rest@.len() - i,
        {
            let c: char = rest[i];
            let ghost tail = rest@.subrange(i as int, rest@.len() as int);
            assert(tail.drop_first() =~= rest@.subrange(i + 1, rest@.len() as int));
            assert(tail[0] == c);
            if c == ':' {
                if last == '\\' {
                    run = replace_text(run.as_str(), "\\", "");
                    run.push(c);
                    last = c;
                } else {
                    break;
                }
            } else {
                run.push(c);
                last = c;
            }
            i = i + 1;
        }
        let cleaned: &str = trimmed_char(trimmed_char(trimmed(run.as_str()), '"'), '\'');
        if has_text(cleaned, "\"") || has_text(cleaned, "'") {
            fail3("complex option ", key, " is invalid")
        } else {
            Ok(Some(owned(cleaned)))
        }
    }
}

/// `all`, or `best` or `worst` with a number that may be missing.
pub open spec fn is_choice(v: Seq<char>) -> bool {
    if v == "all"@ {
        true
    } else {
        match strip_prefix(v, "best"@) {
            Some(rest) => all_digits(rest),
            None => match strip_prefix(v, "worst"@) {
                Some(rest) => all_digits(rest),
                None => false,
            },
        }
    }
}

fn is_direct_for_choice(v: &str) -> (r: bool)
    ensures
        r == is_choice(v@),
{
    if same(v, "all") {
        return true;
    }
    match without_prefix(v, "best") {
        Some(rest) => only_digits(rest),
        None => match without_prefix(v, "worst") {
            Some(rest) => only_digits(rest),
            None => false,
        },
    }
}

/// A pattern that is a regular expression; an empty one counts as none.
pub open spec fn pattern_of(
    v: core::result::Result<Option<Seq<char>>, ErrorView>,
    name: Seq<char>,
) -> core::result::Result<Option<Seq<char>>, ErrorView> {
    match v {
        Err(e) => Err(e),
        Ok(None) => Ok(None),
        Ok(Some(text)) => if text.len() == 0 {
            Ok(None)
        } else {
            match regex_error_of(text) {
                Some(e) => bad(name + " regex is invalid: "@ + e),
                None => Ok(Some(text)),
            }
        },
    }
}

fn pattern(params: &ComplexParams, key: &str) -> (r: Result<Option<String>>)
    ensures
        view_result(r) == pattern_of(complex_of(params.source(), key@), key@),
{
    match params.get(key) {
        Err(e) => Err(e),
        Ok(None) => Ok(None),
        Ok(Some(text)) => {
            if text.as_str().unicode_len() == 0 {
                return Ok(None);
            }
            match regex_error(text.as_str()) {
                Some(e) => fail3(key, " regex is invalid: ", e.as_str()),
                None => Ok(Some(text)),
            }
        },
    }
}

/// A number under a key; an empty one counts as none.
pub open spec fn count_of(
    v: core::result::Result<Option<Seq<char>>, ErrorView>,
    name: Seq<char>,
) -> core::result::Result<Option<i64>, ErrorView> {
    match v {
        Err(e) => Err(e),
        Ok(None) => Ok(None),
        Ok(Some(text)) => if text.len() == 0 {
            Ok(None)
        } else {
            match i64_of(text, name) {
                Err(e) => Err(e),
                Ok(n) => Ok(Some(n)),
            }
        },
    }
}

fn count(params: &ComplexParams, key: &str) -> (r: Result<Option<i64>>)
    ensures
        plain(r) == count_of(complex_of(params.source(), key@), key@),
{
    match params.get(key) {
        Err(e) => Err(e),
        Ok(None) => Ok(None),
        Ok(Some(text)) => {
            if text.as_str().unicode_len() == 0 {
                return Ok(None);
            }
            match parse_i64(text.as_str(), key) {
                Err(e) => Err(e),
                Ok(n) => Ok(Some(n)),
            }
        },
    }
}

/// A duration under a key; an empty one counts as none.
pub open spec fn hms_value_of(
    v: core::result::Result<Option<Seq<char>>, ErrorView>,
    name: Seq<char>,
) -> core::result::Result<Option<i64>, ErrorView> {
    match v {
        Err(e) => Err(e),
        Ok(None) => Ok(None),
        Ok(Some(text)) => if text.len() == 0 {
            Ok(None)
        } else {
            match hms_of(text, name) {
                Err(e) => Err(e),
                Ok(n) => Ok(Some(n as i64)),
            }
        },
    }
}

fn hms_value(params: &ComplexParams, key: &str) -> (r: Result<Option<i64>>)
    ensures
        plain(r) == hms_value_of(complex_of(params.source(), key@), key@),
{
    match params.get(key) {
        Err(e) => Err(e),
        Ok(None) => Ok(None),
        Ok(Some(text)) => {
            if text.as_str().unicode_len() == 0 {
                return Ok(None);
            }
            match parse_hms_duration(text.as_str(), key) {
                Err(e) => Err(e),
                Ok(n) => Ok(Some(n)),
            }
        },
    }
}

/// Two's complement reduction to 32 bits.
pub open spec fn wrap_i32(n: int) -> int {
    (n + 0x8000_0000) % 0x1_0000_0000 - 0x8000_0000
}

/// Kilobits under a key, as bits; an empty one counts as none.
pub open spec fn bandwidth_of(
    v: core::result::Result<Option<Seq<char>>, ErrorView>,
    name: Seq<char>,
) -> core::result::Result<Option<i64>, ErrorView> {
    match v {
        Err(e) => Err(e),
        Ok(None) => Ok(None),
        Ok(Some(text)) => if text.len() == 0 {
            Ok(None)
        } else {
            match i32_of(text, name) {
                Err(e) => Err(e),
                Ok(n) => Ok(Some(wrap_i32(n * 1000) as i64)),
            }
        },
    }
}

fn bandwidth(params: &ComplexParams, key: &str) -> (r: Result<Option<i64>>)
    ensures
        plain(r) == bandwidth_of(complex_of(params.source(), key@), key@),
{
    match params.get(key) {
        Err(e) => Err(e),
        Ok(None) => Ok(None),
        Ok(Some(text)) => {
            if text.as_str().unicode_len() == 0 {
                return Ok(None);
            }
            match parse_i32(text.as_str(), key) {
                Err(e) => Err(e),
                Ok(n) => {
                    let wide: i64 = n as i64 * 1000 + 0x8000_0000;
                    let rem: i64 = wide % 0x1_0000_0000;
                    let low: i64 = if rem < 0 {
                        rem + 0x1_0000_0000
                    } else {
                        rem
                    };
                    Ok(Some(low - 0x8000_0000))
                },
            }
        },
    }
}

/// The choice of a filter.
pub open spec fn for_of(v: Seq<char>) -> core::result::Result<Seq<char>, ErrorView> {
    let choice = if is_choice(v) {
        Ok(v)
    } else {
        match complex_of(v, "for"@) {
            Err(e) => Err(e),
            Ok(Some(text)) => Ok(text),
            Ok(None) => Ok("best"@),
        }
    };
    match choice {
        Err(e) => Err(e),
        Ok(text) => if text.len() > 0 && !is_choice(text) {
            bad("for="@ + text + " is invalid"@)
        } else {
            Ok(text)
        },
    }
}

fn for_choice(v: &str, params: &ComplexParams) -> (r: Result<String>)
    requires
        params.source() == v@,
    ensures
        view_result(r) == for_of(v@),
{
    let choice: String = if is_direct_for_choice(v) {
        owned(v)
    } else {
        match params.get("for") {
            Err(e) => {
                return Err(e);
            },
            Ok(Some(text)) => text,
            Ok(None) => owned("best"),
        }
    };
    if choice.as_str().unicode_len() > 0 && !is_direct_for_choice(choice.as_str()) {
        fail3("for=", choice.as_str(), " is invalid")
    } else {
        Ok(choice)
    }
}

/// The pattern under a key.
pub open spec fn pat(v: Seq<char>, key: Seq<char>) -> core::result::Result<
    Option<Seq<char>>,
    ErrorView,
> {
    pattern_of(complex_of(v, key), key)
}

/// A filter, or the first thing that is wrong with it.
pub open spec fn filter_of(v: Seq<char>) -> core::result::Result<StreamFilterView, ErrorView> {
    match (for_of(v), pat(v, "id"@), pat(v, "lang"@), pat(v, "name"@)) {
        (Err(e), _, _, _) => Err(e),
        (_, Err(e), _, _) => Err(e),
        (_, _, Err(e), _) => Err(e),
        (_, _, _, Err(e)) => Err(e),
        (Ok(for_choice), Ok(id), Ok(language), Ok(name)) => match (
            pat(v, "codecs"@),
            pat(v, "res"@),
            pat(v, "frame"@),
            pat(v, "channel"@),
        ) {
            (Err(e), _, _, _) => Err(e),
            (_, Err(e), _, _) => Err(e),
            (_, _, Err(e), _) => Err(e),
            (_, _, _, Err(e)) => Err(e),
            (Ok(codecs), Ok(resolution), Ok(frame_rate), Ok(channels)) => match (
                pat(v, "range"@),
                pat(v, "url"@),
                count_of(complex_of(v, "segsMin"@), "segsMin"@),
                count_of(complex_of(v, "segsMax"@), "segsMax"@),
            ) {
                (Err(e), _, _, _) => Err(e),
                (_, Err(e), _, _) => Err(e),
                (_, _, Err(e), _) => Err(e),
                (_, _, _, Err(e)) => Err(e),
                (
                    Ok(range),
                    Ok(url),
                    Ok(segment_count_min),
                    Ok(segment_count_max),
                ) => match (
                    hms_value_of(complex_of(v, "plistDurMin"@), "plistDurMin"@),
                    hms_value_of(complex_of(v, "plistDurMax"@), "plistDurMax"@),
                    bandwidth_of(complex_of(v, "bwMin"@), "bwMin"@),
                    bandwidth_of(complex_of(v, "bwMax"@), "bwMax"@),
                    complex_of(v, "role"@),
                ) {
                    (Err(e), _, _, _, _) => Err(e),
                    (_, Err(e), _, _, _) => Err(e),
                    (_, _, Err(e), _, _) => Err(e),
                    (_, _, _, Err(e), _) => Err(e),
                    (_, _, _, _, Err(e)) => Err(e),
                    (
                        Ok(playlist_duration_min),
                        Ok(playlist_duration_max),
                        Ok(bandwidth_min),
                        Ok(bandwidth_max),
                        Ok(role),
                    ) => Ok(
                        StreamFilterView {
                            for_choice,
                            id,
                            language,
                            name,
                            codecs,
                            resolution,
                            frame_rate,
                            channels,
                            range,
                            url,
                            segment_count_min,
                            segment_count_max,
                            playlist_duration_min,
                            playlist_duration_max,
                            bandwidth_min,
                            bandwidth_max,
                            role: match role {
                                Some(text) => role_of_token(text),
                                None => None,
                            },
                        },
                    ),
                },
            },
        },
    }
}

pub(crate) fn parse_stream_filter(v: &str) -> (r: Result<StreamFilter>)
    ensures
        view_result(r) == filter_of(v@),
{
    let params: ComplexParams = ComplexParams::parse(v);
    let for_choice: String = for_choice(v, &params)?;
    let id: Option<String> = pattern(&params, "id")?;
    let language: Option<String> = pattern(&params, "lang")?;
    let name: Option<String> = pattern(&params, "name")?;
    let codecs: Option<String> = pattern(&params, "codecs")?;
    let resolution: Option<String> = pattern(&params, "res")?;
    let frame_rate: Option<String> = pattern(&params, "frame")?;
    let channels: Option<String> = pattern(&params, "channel")?;
    let range: Option<String> = pattern(&params, "range")?;
    let url: Option<String> = pattern(&params, "url")?;
    let segment_count_min: Option<i64> = count(&params, "segsMin")?;
    let segment_count_max: Option<i64> = count(&params, "segsMax")?;
    let playlist_duration_min: Option<i64> = hms_value(&params, "plistDurMin")?;
    let playlist_duration_max: Option<i64> = hms_value(&params, "plistDurMax")?;
    let bandwidth_min: Option<i64> = bandwidth(&params, "bwMin")?;
    let bandwidth_max: Option<i64> = bandwidth(&params, "bwMax")?;
    let role_text: Option<String> = params.get("role")?;
    let role: Option<RoleType> = match role_text {
        Some(text) => RoleType::parse_enum_token(text.as_str()),
        None => None,
    };
    Ok(
        StreamFilter {
            for_choice,
            id,
            language,
            name,
            codecs,
            resolution,
            frame_rate,
            channels,
            range,
            url,
            segment_count_min,
            segment_count_max,
            playlist_duration_min,
            playlist_duration_max,
            bandwidth_min,
            bandwidth_max,
            role,
        },
    )
}

pub open spec fn mux_format_of(v: Seq<char>) -> core::result::Result<MuxFormat, ErrorView> {
    let name = lower(v);
    if name == "mp4"@ {
        Ok(MuxFormat::Mp4)
    } else if name == "mkv"@ {
        Ok(MuxFormat::Mkv)
    } else if name == "ts"@ {
        Ok(MuxFormat::Ts)
    } else {
        bad("invalid mux format "@ + v)
    }
}

fn parse_mux_format(v: &str) -> (r: Result<MuxFormat>)
    ensures
        plain(r) == mux_format_of(v@),
{
    let text: String = lowered(v);
    if same(text.as_str(), "mp4") {
        Ok(MuxFormat::Mp4)
    } else if same(text.as_str(), "mkv") {
        Ok(MuxFormat::Mkv)
    } else if same(text.as_str(), "ts") {
        Ok(MuxFormat::Ts)
    } else {
        fail2("invalid mux format ", v)
    }
}

pub open spec fn muxer_of(v: Seq<char>) -> core::result::Result<MuxerKind, ErrorView> {
    if v == "ffmpeg"@ {
        Ok(MuxerKind::Ffmpeg)
    } else if v == "mkvmerge"@ {
        Ok(MuxerKind::Mkvmerge)
    } else if v == "mp4forge"@ {
        Ok(MuxerKind::Mp4forge)
    } else {
        bad("invalid muxer "@ + v)
    }
}

fn parse_muxer(v: &str) -> (r: Result<MuxerKind>)
    ensures
        plain(r) == muxer_of(v@),
{
    if same(v, "ffmpeg") {
        Ok(MuxerKind::Ffmpeg)
    } else if same(v, "mkvmerge") {
        Ok(MuxerKind::Mkvmerge)
    } else if same(v, "mp4forge") {
        Ok(MuxerKind::Mp4forge)
    } else {
        fail2("invalid muxer ", v)
    }
}

/// The muxer that stands in for mp4forge.
pub open spec fn fallback_of(v: Option<Seq<char>>, primary: MuxerKind) -> core::result::Result<
    Option<MuxerKind>,
    ErrorView,
> {
    match v {
        None => Ok(None),
        Some(text) => if text.len() == 0 {
            bad("fallback_muxer must not be empty"@)
        } else if text == "none"@ {
            Ok(None)
        } else if primary != MuxerKind::Mp4forge {
            bad("fallback_muxer is only valid with muxer=mp4forge"@)
        } else {
            match muxer_of(text) {
                Err(e) => Err(e),
                Ok(MuxerKind::Mp4forge) => bad("fallback_muxer must be ffmpeg"@),
                Ok(muxer) => Ok(Some(muxer)),
            }
        },
    }
}

fn parse_optional_fallback_muxer(v: Option<String>, primary: MuxerKind) -> (r: Result<
    Option<MuxerKind>,
>)
    ensures
        plain(r) == fallback_of(v.deep_view(), primary),
{
    match v {
        None => Ok(None),
        Some(text) => {
            if text.as_str().unicode_len() == 0 {
                return Err(Error::config("fallback_muxer must not be empty"));
            }
            if same(text.as_str(), "none") {
                return Ok(None);
            }
            if primary != MuxerKind::Mp4forge {
                return Err(Error::config("fallback_muxer is only valid with muxer=mp4forge"));
            }
            match parse_muxer(text.as_str()) {
                Err(e) => Err(e),
                Ok(muxer) => {
                    if muxer == MuxerKind::Mp4forge {
                        Err(Error::config("fallback_muxer must be ffmpeg"))
                    } else {
                        Ok(Some(muxer))
                    }
                },
            }
        },
    }
}

pub open spec fn switch_of(
    v: core::result::Result<Option<Seq<char>>, ErrorView>,
    name: Seq<char>,
) -> core::result::Result<bool, ErrorView> {
    match v {
        Err(e) => Err(e),
        Ok(None) => Ok(false),
        Ok(Some(text)) => if text == "true"@ {
            Ok(true)
        } else if text == "false"@ {
            Ok(false)
        } else {
            bad(name + " must be true or false"@)
        },
    }
}

fn switch(params: &ComplexParams, key: &str) -> (r: Result<bool>)
    ensures
        plain(r) == switch_of(complex_of(params.source(), key@), key@),
{
    match params.get(key) {
        Err(e) => Err(e),
        Ok(None) => Ok(false),
        Ok(Some(text)) => {
            if same(text.as_str(), "true") {
                Ok(true)
            } else if same(text.as_str(), "false") {
                Ok(false)
            } else {
                fail2(key, " must be true or false")
            }
        },
    }
}

/// What precedes the first colon.
pub open spec fn before_colon(v: Seq<char>) -> Seq<char> {
    match find(v, ":"@) {
        Some(i) => take(v, i),
        None => v,
    }
}

/// The path of a muxer; `auto` means that it is looked up.
pub open spec fn bin_path_of(v: core::result::Result<Option<Seq<char>>, ErrorView>) -> core::result::Result<
    Option<Seq<char>>,
    ErrorView,
> {
    match v {
        Err(e) => Err(e),
        Ok(None) => Ok(None),
        Ok(Some(text)) => if text.len() == 0 {
            bad("bin_path must not be empty"@)
        } else if text == "auto"@ {
            Ok(None)
        } else {
            Ok(Some(text))
        },
    }
}

/// Format and muxer of `--mux-after-done`.
pub open spec fn mux_target_of(v: Seq<char>) -> core::result::Result<
    (MuxFormat, MuxerKind),
    ErrorView,
> {
    match (complex_of(v, "format"@), complex_of(v, "muxer"@)) {
        (Err(e), _) => Err(e),
        (_, Err(e)) => Err(e),
        (Ok(format), Ok(muxer)) => {
            let format_text = match format {
                Some(text) => text,
                None => before_colon(v),
            };
            let muxer_text = match muxer {
                Some(text) => text,
                None => "ffmpeg"@,
            };
            match (mux_format_of(format_text), muxer_of(muxer_text)) {
                (Err(e), _) => Err(e),
                (_, Err(e)) => Err(e),
                (Ok(f), Ok(m)) => if m == MuxerKind::Mkvmerge && format_text == "mp4"@ {
                    bad("mkvmerge cannot be used for mp4 mux-after-done"@)
                } else if m == MuxerKind::Mp4forge && f != MuxFormat::Mp4 {
                    bad("mp4forge mux-after-done is only valid for mp4 output"@)
                } else {
                    Ok((f, m))
                },
            }
        },
    }
}

fn mux_target(v: &str, params: &ComplexParams) -> (r: Result<(MuxFormat, MuxerKind)>)
    requires
        params.source() == v@,
    ensures
        plain(r) == mux_target_of(v@),
{
    let format: Option<String> = params.get("format")?;
    let muxer: Option<String> = params.get("muxer")?;
    let format_text: String = match format {
        Some(text) => text,
        None => match find_text(v, ":") {
            Some(i) => owned(slice(v, 0, i)),
            None => owned(v),
        },
    };
    let muxer_text: String = match muxer {
        Some(text) => text,
        None => owned("ffmpeg"),
    };
    let f: MuxFormat = parse_mux_format(format_text.as_str())?;
    let m: MuxerKind = parse_muxer(muxer_text.as_str())?;
    if m == MuxerKind::Mkvmerge && same(format_text.as_str(), "mp4") {
        return Err(Error::config("mkvmerge cannot be used for mp4 mux-after-done"));
    }
    if m == MuxerKind::Mp4forge && f != MuxFormat::Mp4 {
        return Err(Error::config("mp4forge mux-after-done is only valid for mp4 output"));
    }
    Ok((f, m))
}

pub open spec fn mux_of(v: Seq<char>) -> core::result::Result<MuxAfterDoneOptionsView, ErrorView> {
    match (mux_target_of(v), complex_of(v, "fallback_muxer"@)) {
        (Err(e), _) => Err(e),
        (_, Err(e)) => Err(e),
        (Ok((format, muxer)), Ok(fallback)) => match fallback_of(fallback, muxer) {
            Err(e) => Err(e),
            Ok(Some(MuxerKind::Mkvmerge)) => bad(
                "mkvmerge cannot be used as an mp4forge fallback for mp4 mux-after-done"@,
            ),
            Ok(fallback_muxer) => match (
                bin_path_of(complex_of(v, "bin_path"@)),
                switch_of(complex_of(v, "keep"@), "keep"@),
                switch_of(complex_of(v, "skip_sub"@), "skip_sub"@),
            ) {
                (Err(e), _, _) => Err(e),
                (_, Err(e), _) => Err(e),
                (_, _, Err(e)) => Err(e),
                (Ok(bin_path), Ok(keep), Ok(skip_sub)) => Ok(
                    MuxAfterDoneOptionsView {
                        format,
                        muxer,
                        fallback_muxer,
                        bin_path,
                        keep,
                        skip_sub,
                    },
                ),
            },
        },
    }
}

pub(crate) fn parse_mux_after_done(v: &str) -> (r: Result<MuxAfterDoneOptions>)
    ensures
        view_result(r) == mux_of(v@),
{
    let params: ComplexParams = ComplexParams::parse(v);
    let (format, muxer): (MuxFormat, MuxerKind) = mux_target(v, &params)?;
    let fallback: Option<String> = params.get("fallback_muxer")?;
    let fallback_muxer: Option<MuxerKind> = parse_optional_fallback_muxer(fallback, muxer)?;
    match fallback_muxer {
        Some(MuxerKind::Mkvmerge) => {
            return Err(
                Error::config(
                    "mkvmerge cannot be used as an mp4forge fallback for mp4 mux-after-done",
                ),
            );
        },
        _ => {},
    }
    let bin_text: Option<String> = params.get("bin_path")?;
    let bin_path: Option<String> = match bin_text {
        None => None,
        Some(text) => {
            if text.as_str().unicode_len() == 0 {
                return Err(Error::config("bin_path must not be empty"));
            }
            if same(text.as_str(), "auto") {
                None
            } else {
                Some(text)
            }
        },
    };
    let keep: bool = switch(&params, "keep")?;
    let skip_sub: bool = switch(&params, "skip_sub")?;
    Ok(MuxAfterDoneOptions { format, muxer, fallback_muxer, bin_path, keep, skip_sub })
}

/// Muxing is done by ffmpeg unless another program is named; mp4forge is used only where it is named,
/// for an output in MP4.
pub proof fn law_muxer_is_named(v: Seq<char>)
    requires
        mux_of(v) is Ok,
    ensures
        complex_of(v, "muxer"@) == Ok::<Option<Seq<char>>, ErrorView>(None)
            ==> mux_of(v)->Ok_0.muxer == MuxerKind::Ffmpeg,
        mux_of(v)->Ok_0.muxer == MuxerKind::Mp4forge ==> complex_of(v, "muxer"@) == Ok::<
            Option<Seq<char>>,
            ErrorView,
        >(Some("mp4forge"@)) && mux_of(v)->Ok_0.format == MuxFormat::Mp4,
{
}

/// Every character is a hexadecimal digit.
pub open spec fn all_hex(s: Seq<char>) -> bool {
    forall|i: int| 0 <= i < s.len() ==> hex_digit(#[trigger] s[i]) is Some
}

pub(crate) fn only_hex(s: &str) -> (r: bool)
    ensures
        r == all_hex(s@),
{
    let v: Vec<char> = to_chars(s);
    let mut i: usize = 0;
    while i < v.len()
        invariant
            v@ == s@,
            i <= v@.len(),
            forall|j: int| 0 <= j < i ==> hex_digit(#[trigger] v@[j]) is Some,
        decreases v@.len() - i,
    {
        if hex_value(v[i]).is_none() {
            assert(hex_digit(v@[i as int]) is None);
            return false;
        }
        i = i + 1;
    }
    true
}

/// Sixteen bytes in hexadecimal.
pub open spec fn is_key_hex(v: Seq<char>) -> bool {
    v.len() == 32 && all_hex(v)
}

fn is_cli_key_hex_16_literal(v: &str) -> (r: bool)
    ensures
        r == is_key_hex(v@),
{
    v.unicode_len() == 32 && only_hex(v)
}

/// A key of sixteen bytes, in hexadecimal or in base64.
pub open spec fn key_part_of(v: Seq<char>, option: Seq<char>) -> core::result::Result<
    Seq<char>,
    ErrorView,
> {
    if is_key_hex(v) {
        Ok(lower(v))
    } else {
        match base64_decode(v) {
            Err(e) => bad(option + ": "@ + e),
            Ok(bytes) => if bytes.len() != 16 {
                bad(option + " must decode to 16 bytes"@)
            } else {
                Ok(hex_text(bytes, false))
            },
        }
    }
}

fn parse_key_part(v: &str, option: &str) -> (r: Result<String>)
    ensures
        view_result(r) == key_part_of(v@, option@),
{
    if is_cli_key_hex_16_literal(v) {
        return Ok(lowered(v));
    }
    match decode_base64(v) {
        Err(e) => fail3(option, ": ", e),
        Ok(bytes) => {
            if bytes.len() != 16 {
                fail2(option, " must decode to 16 bytes")
            } else {
                Ok(bytes_to_hex(&bytes, false))
            }
        },
    }
}

/// The pieces that hold more than white space, without white space at their ends.
pub open spec fn solid_parts(parts: Seq<Seq<char>>) -> Seq<Seq<char>>
    decreases parts.len(),
{
    if parts.len() == 0 {
        Seq::empty()
    } else if trim(parts.last()).len() == 0 {
        solid_parts(parts.drop_last())
    } else {
        solid_parts(parts.drop_last()).push(trim(parts.last()))
    }
}

fn solid(parts: &Vec<String>) -> (r: Vec<String>)
    ensures
        r.deep_view() == solid_parts(parts.deep_view()),
{
    let mut out: Vec<String> = Vec::new();
    let mut i: usize = 0;
    let ghost all = parts.deep_view();
    assert(all.subrange(0, 0) =~= Seq::<Seq<char>>::empty());
    assert(out.deep_view() =~= Seq::<Seq<char>>::empty());
    while i < parts.len()
        invariant
            i <= parts@.len(),
            all == parts.deep_view(),
            out.deep_view() == solid_parts(all.subrange(0, i as int)),
        decreases parts@.len() - i,
    {
        let ghost before = out.deep_view();
        assert(all.subrange(0, i + 1).drop_last() =~= all.subrange(0, i as int));
        assert(all.subrange(0, i + 1).last() == parts@[i as int]@);
        let part: &str = trimmed(parts[i].as_str());
        if part.unicode_len() > 0 {
            out.push(owned(part));
            assert(out.deep_view() =~= before.push(part@));
        }
        i = i + 1;
    }
    assert(all.subrange(0, all.len() as int) =~= all);
    out
}

/// A key, a key with its identifier, or a key with its track.
pub open spec fn custom_key_of(v: Seq<char>) -> core::result::Result<CustomKeyView, ErrorView> {
    let raw = split(v, ":"@);
    if is_key_hex(v) {
        Ok(CustomKeyView::Key { key_hex: v })
    } else if raw.len() == 2 && is_key_hex(raw[0]) && is_key_hex(raw[1]) {
        Ok(CustomKeyView::Kid { kid_hex: raw[0], key_hex: raw[1] })
    } else if raw.len() == 2 && parse_nat(raw[0]) is Some && is_key_hex(raw[1]) {
        if parse_nat(raw[0])->0 <= u32::MAX {
            Ok(CustomKeyView::Track { track_id: parse_nat(raw[0])->0 as u32, key_hex: raw[1] })
        } else {
            bad("--key track id is invalid"@)
        }
    } else {
        let parts = solid_parts(raw);
        if parts.len() == 1 {
            match key_part_of(parts[0], "--key"@) {
                Err(e) => Err(e),
                Ok(key_hex) => Ok(CustomKeyView::Key { key_hex }),
            }
        } else if parts.len() == 2 {
            match (key_part_of(parts[0], "--key KID"@), key_part_of(parts[1], "--key value"@)) {
                (Err(e), _) => Err(e),
                (_, Err(e)) => Err(e),
                (Ok(kid_hex), Ok(key_hex)) => Ok(CustomKeyView::Kid { kid_hex, key_hex }),
            }
        } else {
            bad("--key must be key, KID:key, or trackId:key"@)
        }
    }
}

pub(crate) fn parse_custom_key(v: &str) -> (r: Result<CustomKey>)
    ensures
        view_result(r) == custom_key_of(v@),
{
    if is_cli_key_hex_16_literal(v) {
        return Ok(CustomKey::Key { key_hex: owned(v) });
    }
    proof {
        reveal_strlit(":");
    }
    let raw: Vec<String> = split_text(v, ":");
    let ghost raw_texts = raw.deep_view();
    assert(raw_texts.len() == raw@.len());
    if raw.len() == 2 {
        let left: &str = raw[0].as_str();
        let right: &str = raw[1].as_str();
        assert(raw_texts[0] == left@ && raw_texts[1] == right@);
        if is_cli_key_hex_16_literal(right) {
            if is_cli_key_hex_16_literal(left) {
                return Ok(CustomKey::Kid { kid_hex: owned(left), key_hex: owned(right) });
            }
            let chars: Vec<char> = to_chars(left);
            assert(drop(chars@, 0) =~= chars@);
            match magnitude_from(&chars, 0) {
                Magnitude::NotDigits => {},
                Magnitude::TooLarge => {
                    return Err(Error::config("--key track id is invalid"));
                },
                Magnitude::Value(n) => {
                    if n <= 4294967295 {
                        return Ok(CustomKey::Track { track_id: n as u32, key_hex: owned(right) });
                    }
                    return Err(Error::config("--key track id is invalid"));
                },
            }
        }
    }
    let parts: Vec<String> = solid(&raw);
    let ghost texts = parts.deep_view();
    assert(texts.len() == parts@.len());
    if parts.len() == 1 {
        assert(texts[0] == parts@[0]@);
        match parse_key_part(parts[0].as_str(), "--key") {
            Err(e) => Err(e),
            Ok(key_hex) => Ok(CustomKey::Key { key_hex }),
        }
    } else if parts.len() == 2 {
        assert(texts[0] == parts@[0]@ && texts[1] == parts@[1]@);
        let kid_hex: String = parse_key_part(parts[0].as_str(), "--key KID")?;
        let key_hex: String = parse_key_part(parts[1].as_str(), "--key value")?;
        Ok(CustomKey::Kid { kid_hex, key_hex })
    } else {
        Err(Error::config("--key must be key, KID:key, or trackId:key"))
    }
}

/// The bytes of a hexadecimal text of even length.
pub open spec fn even_hex(v: Seq<char>) -> Option<Seq<u8>> {
    if v.len() % 2 == 0 && all_hex(v) {
        match hex_pairs(v) {
            HexRunView::Bytes(b) => Some(b),
            _ => None,
        }
    } else {
        None
    }
}

fn read_even_hex(v: &str) -> (r: Option<Vec<u8>>)
    ensures
        match r {
            Some(b) => even_hex(v@) == Some(b@),
            None => even_hex(v@) is None,
        },
{
    if v.unicode_len() % 2 == 0 && only_hex(v) {
        match decode_hex_pairs(v) {
            HexRun::Bytes(b) => Some(b),
            _ => None,
        }
    } else {
        None
    }
}

/// Bytes given as hexadecimal, with or without `0x`, or as base64.
pub open spec fn literal_bytes_of(v: Seq<char>, option: Seq<char>) -> core::result::Result<
    Seq<u8>,
    ErrorView,
> {
    let prefixed = match strip_prefix(v, "0x"@) {
        Some(rest) => Some(rest),
        None => strip_prefix(v, "0X"@),
    };
    if prefixed is Some && even_hex(prefixed->0) is Some {
        Ok(even_hex(prefixed->0)->0)
    } else if v.len() > 0 && even_hex(v) is Some {
        Ok(even_hex(v)->0)
    } else {
        match base64_decode(v) {
            Ok(b) => Ok(b),
            Err(e) => bad(option + ": "@ + e),
        }
    }
}

pub(crate) fn parse_literal_bytes(v: &str, option: &str) -> (r: Result<Vec<u8>>)
    ensures
        match r {
            Ok(b) => literal_bytes_of(v@, option@) == Ok::<Seq<u8>, ErrorView>(b@),
            Err(e) => literal_bytes_of(v@, option@) == Err::<Seq<u8>, ErrorView>(e.deep_view()),
        },
{
    let prefixed: Option<&str> = match without_prefix(v, "0x") {
        Some(rest) => Some(rest),
        None => without_prefix(v, "0X"),
    };
    match prefixed {
        Some(rest) => match read_even_hex(rest) {
            Some(b) => {
                return Ok(b);
            },
            None => {},
        },
        None => {},
    }
    if v.unicode_len() > 0 {
        match read_even_hex(v) {
            Some(b) => {
                return Ok(b);
            },
            None => {},
        }
    }
    match decode_base64(v) {
        Ok(b) => Ok(b),
        Err(e) => fail3(option, ": ", e),
    }
}

} // verus!
