//! Settings of the parsers and the steps that prepare manifests, URLs and keys for them.

use crate::attribute::{attribute_of, hls_attribute};
use crate::codec::{
    base64_encode, base64_text, bytes_to_hex, decode_hex_pairs, hex_pairs, hex_text, HexRun,
    HexRunView,
};
use crate::config::{
    options_view, DownloadOptions, DownloadOptionsView, HlsMethod, LogLevel, Toggle,
};
use crate::error::{view_result, Error, ErrorView, Result};
use crate::manifest::{
    copy_bytes, copy_opt, copy_opt_bytes, method_of_token, no_encryption, opt_bytes, EncryptionInfo,
    EncryptionInfoView, EncryptionMethod, ExtractorType, KeySource,
};
use crate::outside::{
    md5_digest, md5_of, path_of_url, regex_error, regex_error_of, url_path, utc_now,
};
use crate::pattern::{regex_rows, regex_scan, view_rows};
use crate::text::{
    begins_with, cat2, cat3, cat4, contains, dec, dec_int, drop, find, find_text, has_text,
    i64_text, join, join_texts, lines, lines_text, lower, lowered, opt, owned, parse_i32_text,
    parse_within, replace, replace_text, same_ignoring_case, slice, slice_from, starts_with,
    strip_prefix, take, trim, trimmed, u64_text, without_prefix,
};
use crate::text_map::{discard, lookup, put, TextMap};
use crate::url::{
    append_query_params, combine_url, combined_url, query_of, query_part, with_query_of,
};
use vstd::prelude::*;

verus! {

/// A message that a parser leaves.
#[derive(Clone, Debug, PartialEq, Eq)]
pub struct ParserDiagnostic {
    pub level: LogLevel,
    pub message: String,
}

/// Model of `ParserDiagnostic`.
pub struct ParserDiagnosticView {
    pub level: LogLevel,
    pub message: Seq<char>,
}

impl DeepView for ParserDiagnostic {
    type V = ParserDiagnosticView;

    open spec fn deep_view(&self) -> ParserDiagnosticView {
        ParserDiagnosticView { level: self.level, message: self.message@ }
    }
}

/// A message.
pub open spec fn note(level: LogLevel, message: Seq<char>) -> ParserDiagnosticView {
    ParserDiagnosticView { level, message }
}

/// The messages that parsers left, in order.
#[derive(Debug)]
pub struct ParserDiagnostics {
    pub entries: Vec<ParserDiagnostic>,
}

impl DeepView for ParserDiagnostics {
    type V = Seq<ParserDiagnosticView>;

    open spec fn deep_view(&self) -> Seq<ParserDiagnosticView> {
        self.entries.deep_view()
    }
}

impl ParserDiagnostics {
    /// No messages.
    pub fn new() -> (r: Self)
        ensures
            r.deep_view() == Seq::<ParserDiagnosticView>::empty(),
    {
        let r = ParserDiagnostics { entries: Vec::new() };
        assert(r.deep_view() =~= Seq::<ParserDiagnosticView>::empty());
        r
    }

    /// Adds a message.
    pub fn push(&mut self, level: LogLevel, message: &str)
        ensures
            final(self).deep_view() == old(self).deep_view().push(note(level, message@)),
    {
        let ghost before = self.deep_view();
        let entry: ParserDiagnostic = ParserDiagnostic { level, message: owned(message) };
        self.entries.push(entry);
        assert(self.deep_view() =~= before.push(entry.deep_view()));
    }

    /// Adds messages.
    pub fn extend(&mut self, other: &ParserDiagnostics)
        ensures
            final(self).deep_view() == old(self).deep_view() + other.deep_view(),
    {
        let ghost start = self.deep_view();
        let ghost all = other.deep_view();
        let mut i: usize = 0;
        assert(start + all.subrange(0, 0) =~= start);
        while i < other.entries.len()
            invariant
                i <= other.entries@.len(),
                all == other.deep_view(),
                start == old(self).deep_view(),
                self.deep_view() == start + all.subrange(0, i as int),
            decreases other.entries@.len() - i,
        {
            assert(all[i as int] == other.entries@[i as int].deep_view());
            self.push(other.entries[i].level, other.entries[i].message.as_str());
            assert(self.deep_view() =~= start + all.subrange(0, i + 1));
            i = i + 1;
        }
        assert(all.subrange(0, all.len() as int) =~= all);
    }
}

/// Settings of the parsers.
#[derive(Debug)]
pub struct ParserConfig {
    pub url: String,
    pub original_url: String,
    pub base_url: String,
    pub custom_parser_args: TextMap<String>,
    pub headers: TextMap<String>,
    pub append_url_params: bool,
    pub urlprocessor_args: Option<String>,
    pub key_retry_count: u32,
    pub ad_keywords: Vec<String>,
    pub custom_method: Option<EncryptionMethod>,
    pub custom_key: Option<Vec<u8>>,
    pub custom_iv: Option<Vec<u8>>,
}

/// Model of `ParserConfig`.
pub struct ParserConfigView {
    pub url: Seq<char>,
    pub original_url: Seq<char>,
    pub base_url: Seq<char>,
    pub custom_parser_args: Seq<(Seq<char>, Seq<char>)>,
    pub headers: Seq<(Seq<char>, Seq<char>)>,
    pub append_url_params: bool,
    pub urlprocessor_args: Option<Seq<char>>,
    pub key_retry_count: u32,
    pub ad_keywords: Seq<Seq<char>>,
    pub custom_method: Option<EncryptionMethod>,
    pub custom_key: Option<Seq<u8>>,
    pub custom_iv: Option<Seq<u8>>,
}

impl DeepView for ParserConfig {
    type V = ParserConfigView;

    open spec fn deep_view(&self) -> ParserConfigView {
        ParserConfigView {
            url: self.url@,
            original_url: self.original_url@,
            base_url: self.base_url@,
            custom_parser_args: self.custom_parser_args.deep_view(),
            headers: self.headers.deep_view(),
            append_url_params: self.append_url_params,
            urlprocessor_args: self.urlprocessor_args.deep_view(),
            key_retry_count: self.key_retry_count,
            ad_keywords: self.ad_keywords.deep_view(),
            custom_method: self.custom_method,
            custom_key: opt_bytes(self.custom_key),
            custom_iv: opt_bytes(self.custom_iv),
        }
    }
}

/// The user agent that requests carry unless the user names another.
pub const DEFAULT_USER_AGENT: &'static str =
    "Mozilla/5.0 (Windows NT 10.0; WOW64) AppleWebKit/537.36 (KHTML, like Gecko) Chrome/78.0.3904.108 Safari/537.36";

/// The user agent that requests carry unless the user names another.
pub open spec fn default_user_agent() -> Seq<char> {
    DEFAULT_USER_AGENT@
}

/// The first key that equals `key` up to ASCII case.
pub open spec fn similar_key(s: Seq<(Seq<char>, Seq<char>)>, key: Seq<char>) -> Option<Seq<char>>
    decreases s.len(),
{
    if s.len() == 0 {
        None
    } else if lower(s[0].0) == lower(key) {
        Some(s[0].0)
    } else {
        similar_key(s.drop_first(), key)
    }
}

/// Headers with one set; one whose name differs in case only makes room for it.
pub open spec fn with_header(s: Seq<(Seq<char>, Seq<char>)>, key: Seq<char>, value: Seq<char>) -> Seq<
    (Seq<char>, Seq<char>),
> {
    match similar_key(s, key) {
        Some(existing) => put(discard(s, existing), key, value),
        None => put(s, key, value),
    }
}

/// Headers set one after the other.
pub open spec fn with_headers_of(
    s: Seq<(Seq<char>, Seq<char>)>,
    extra: Seq<(Seq<char>, Seq<char>)>,
) -> Seq<(Seq<char>, Seq<char>)>
    decreases extra.len(),
{
    if extra.len() == 0 {
        s
    } else {
        let last = extra.last();
        with_header(with_headers_of(s, extra.drop_last()), last.0, last.1)
    }
}

/// The headers of a request: the default user agent, then those of the user.
pub open spec fn request_headers(user: Seq<(Seq<char>, Seq<char>)>) -> Seq<(Seq<char>, Seq<char>)> {
    with_headers_of(with_header(Seq::empty(), "user-agent"@, default_user_agent()), user)
}

fn similar_header(headers: &TextMap<String>, key: &str) -> (r: Option<String>)
    ensures
        r.deep_view() == similar_key(headers.deep_view(), key@),
{
    let ghost all = headers.deep_view();
    let mut i: usize = 0;
    assert(all.subrange(0, all.len() as int) =~= all);
    while i < headers.entries.len()
        invariant
            i <= headers.entries@.len(),
            all == headers.deep_view(),
            similar_key(all, key@) == similar_key(all.subrange(i as int, all.len() as int), key@),
        decreases headers.entries@.len() - i,
    {
        let ghost rest = all.subrange(i as int, all.len() as int);
        assert(rest[0] == headers.entries@[i as int].deep_view());
        assert(rest.drop_first() =~= all.subrange(i + 1, all.len() as int));
        if same_ignoring_case(headers.entries[i].0.as_str(), key) {
            return Some(headers.entries[i].0.clone());
        }
        i = i + 1;
    }
    None
}

fn insert_header_override(headers: &mut TextMap<String>, key: &str, value: &str)
    ensures
        final(headers).deep_view() == with_header(old(headers).deep_view(), key@, value@),
        old(headers).wf() ==> final(headers).wf(),
{
    match similar_header(headers, key) {
        Some(existing) => {
            let _old: Option<String> = headers.remove(existing.as_str());
        },
        None => {},
    }
    headers.insert(owned(key), owned(value));
}

/// The headers of a request: the default user agent, then those of the user.
pub fn compatibility_headers(user_headers: &TextMap<String>) -> (r: TextMap<String>)
    ensures
        r.deep_view() == request_headers(user_headers.deep_view()),
        r.wf(),
{
    let mut headers: TextMap<String> = TextMap::new();
    insert_header_override(&mut headers, "user-agent", DEFAULT_USER_AGENT);
    let ghost start = headers.deep_view();
    let ghost all = user_headers.deep_view();
    let mut i: usize = 0;
    assert(all.subrange(0, 0) =~= Seq::<(Seq<char>, Seq<char>)>::empty());
    while i < user_headers.entries.len()
        invariant
            i <= user_headers.entries@.len(),
            all == user_headers.deep_view(),
            headers.wf(),
            headers.deep_view() == with_headers_of(start, all.subrange(0, i as int)),
        decreases user_headers.entries@.len() - i,
    {
        let ghost head = all.subrange(0, i + 1);
        assert(head.drop_last() =~= all.subrange(0, i as int));
        assert(head.last() == user_headers.entries@[i as int].deep_view());
        insert_header_override(
            &mut headers,
            user_headers.entries[i].0.as_str(),
            user_headers.entries[i].1.as_str(),
        );
        i = i + 1;
    }
    assert(all.subrange(0, all.len() as int) =~= all);
    headers
}

/// A header of the user is sent as the user wrote it.
pub proof fn law_user_header_wins(s: Seq<(Seq<char>, Seq<char>)>, key: Seq<char>, value: Seq<char>)
    ensures
        lookup(with_header(s, key, value), key) == Some(value),
{
    match similar_key(s, key) {
        Some(existing) => {
            crate::text_map::law_lookup_after_put(discard(s, existing), key, value, key);
        },
        None => {
            crate::text_map::law_lookup_after_put(s, key, value, key);
        },
    }
}

/// The settings where nothing was asked for.
pub open spec fn default_parser_config() -> ParserConfigView {
    ParserConfigView {
        url: ""@,
        original_url: ""@,
        base_url: ""@,
        custom_parser_args: Seq::empty(),
        headers: request_headers(Seq::empty()),
        append_url_params: false,
        urlprocessor_args: None,
        key_retry_count: 3,
        ad_keywords: Seq::empty(),
        custom_method: None,
        custom_key: None,
        custom_iv: None,
    }
}

/// The encryption method that an option names.
pub open spec fn method_of_option(method: HlsMethod) -> EncryptionMethod {
    match method {
        HlsMethod::Unencrypted => EncryptionMethod::Unencrypted,
        HlsMethod::Aes128 => EncryptionMethod::Aes128,
        HlsMethod::Aes128Ecb => EncryptionMethod::Aes128Ecb,
        HlsMethod::Cenc => EncryptionMethod::Cenc,
        HlsMethod::SampleAes => EncryptionMethod::SampleAes,
        HlsMethod::SampleAesCtr => EncryptionMethod::SampleAesCtr,
        HlsMethod::Chacha20 => EncryptionMethod::Chacha20,
        HlsMethod::Unknown => EncryptionMethod::Unknown,
    }
}

/// Bytes of which none count as nothing.
pub open spec fn solid_bytes(o: Option<Seq<u8>>) -> Option<Seq<u8>> {
    match o {
        Some(b) => if b.len() == 0 {
            None
        } else {
            Some(b)
        },
        None => None,
    }
}

/// The settings that options ask for.
pub open spec fn config_of_options(o: DownloadOptionsView) -> ParserConfigView {
    ParserConfigView {
        base_url: match o.base_url {
            Some(u) => u,
            None => ""@,
        },
        custom_parser_args: if o.allow_hls_multi_ext_map == Toggle::On {
            put(Seq::empty(), "AllowHlsMultiExtMap"@, "true"@)
        } else {
            Seq::empty()
        },
        headers: request_headers(o.headers),
        append_url_params: o.append_url_params == Toggle::On,
        urlprocessor_args: o.urlprocessor_args,
        custom_method: match o.custom_hls_method {
            Some(m) => Some(method_of_option(m)),
            None => None,
        },
        custom_key: solid_bytes(o.custom_hls_key),
        custom_iv: solid_bytes(o.custom_hls_iv),
        ..default_parser_config()
    }
}

fn copy_solid(o: &Option<Vec<u8>>) -> (r: Option<Vec<u8>>)
    ensures
        opt_bytes(r) == solid_bytes(opt_bytes(*o)),
{
    match o {
        Some(b) => if b.len() == 0 {
            None
        } else {
            Some(copy_bytes(b))
        },
        None => None,
    }
}

fn option_method(method: HlsMethod) -> (r: EncryptionMethod)
    ensures
        r == method_of_option(method),
{
    match method {
        HlsMethod::Unencrypted => EncryptionMethod::Unencrypted,
        HlsMethod::Aes128 => EncryptionMethod::Aes128,
        HlsMethod::Aes128Ecb => EncryptionMethod::Aes128Ecb,
        HlsMethod::Cenc => EncryptionMethod::Cenc,
        HlsMethod::SampleAes => EncryptionMethod::SampleAes,
        HlsMethod::SampleAesCtr => EncryptionMethod::SampleAesCtr,
        HlsMethod::Chacha20 => EncryptionMethod::Chacha20,
        HlsMethod::Unknown => EncryptionMethod::Unknown,
    }
}

impl Default for ParserConfig {
    fn default() -> (r: Self)
        ensures
            r.deep_view() == default_parser_config(),
    {
        let none: TextMap<String> = TextMap::new();
        let r = ParserConfig {
            url: owned(""),
            original_url: owned(""),
            base_url: owned(""),
            custom_parser_args: TextMap::new(),
            headers: compatibility_headers(&none),
            append_url_params: false,
            urlprocessor_args: None,
            key_retry_count: 3,
            ad_keywords: Vec::new(),
            custom_method: None,
            custom_key: None,
            custom_iv: None,
        };
        assert(r.ad_keywords.deep_view() =~= Seq::<Seq<char>>::empty());
        r
    }
}

impl Clone for ParserConfig {
    fn clone(&self) -> (r: Self)
        ensures
            r.deep_view() == self.deep_view(),
    {
        let mut ad_keywords: Vec<String> = Vec::new();
        let mut i: usize = 0;
        while i < self.ad_keywords.len()
            invariant
                i <= self.ad_keywords@.len(),
                ad_keywords.deep_view() =~= self.ad_keywords.deep_view().subrange(0, i as int),
            decreases self.ad_keywords@.len() - i,
        {
            let word: String = self.ad_keywords[i].clone();
            let ghost before = ad_keywords.deep_view();
            ad_keywords.push(word);
            assert(ad_keywords.deep_view() =~= before.push(word@));
            assert(self.ad_keywords.deep_view()[i as int] == word@);
            i = i + 1;
        }
        assert(self.ad_keywords.deep_view().subrange(0, self.ad_keywords@.len() as int)
            =~= self.ad_keywords.deep_view());
        ParserConfig {
            url: self.url.clone(),
            original_url: self.original_url.clone(),
            base_url: self.base_url.clone(),
            custom_parser_args: self.custom_parser_args.copied(),
            headers: self.headers.copied(),
            append_url_params: self.append_url_params,
            urlprocessor_args: copy_opt(&self.urlprocessor_args),
            key_retry_count: self.key_retry_count,
            ad_keywords,
            custom_method: self.custom_method,
            custom_key: copy_opt_bytes(&self.custom_key),
            custom_iv: copy_opt_bytes(&self.custom_iv),
        }
    }
}

impl ParserConfig {
    /// The settings that options ask for.
    pub fn from_options(options: &DownloadOptions) -> (r: Self)
        ensures
            r.deep_view() == config_of_options(options.deep_view()),
    {
        proof {
            reveal(options_view);
        }
        let mut r: ParserConfig = ParserConfig::default();
        r.base_url = match &options.base_url {
            Some(u) => u.clone(),
            None => owned(""),
        };
        if options.allow_hls_multi_ext_map.is_on() {
            r.custom_parser_args.insert(owned("AllowHlsMultiExtMap"), owned("true"));
        }
        r.headers = compatibility_headers(&options.headers);
        r.append_url_params = options.append_url_params.is_on();
        r.urlprocessor_args = copy_opt(&options.urlprocessor_args);
        r.custom_method = match options.custom_hls_method {
            Some(m) => Some(option_method(m)),
            None => None,
        };
        r.custom_key = copy_solid(&options.custom_hls_key);
        r.custom_iv = copy_solid(&options.custom_hls_iv);
        r
    }

    /// Leaves a message in the queue that these settings and their copies share.
    pub fn push_diagnostic(
        &self,
        diagnostics: &mut ParserDiagnostics,
        level: LogLevel,
        message: &str,
    )
        ensures
            final(diagnostics).deep_view() == old(diagnostics).deep_view().push(
                note(level, message@),
            ),
    {
        diagnostics.push(level, message);
    }

    /// Takes all messages out of the queue that these settings and their copies share.
    pub fn drain_diagnostics(&self, diagnostics: &mut ParserDiagnostics) -> (r: Vec<ParserDiagnostic>)
        ensures
            r.deep_view() == old(diagnostics).deep_view(),
            final(diagnostics).deep_view() == Seq::<ParserDiagnosticView>::empty(),
    {
        let mut fresh: ParserDiagnostics = ParserDiagnostics::new();
        core::mem::swap(diagnostics, &mut fresh);
        fresh.entries
    }
}

/// A step that URLs go through.
pub trait UrlProcessor {
    /// Whether the step applies.
    spec fn accepts(
        &self,
        extractor_type: ExtractorType,
        url: Seq<char>,
        config: ParserConfigView,
    ) -> bool;

    /// What the step makes of a URL at a time, and the messages it leaves.
    spec fn processed(&self, url: Seq<char>, config: ParserConfigView, now_ms: int) -> core::result::Result<
        (Seq<char>, Seq<ParserDiagnosticView>),
        ErrorView,
    >;

    /// Whether the step applies.
    fn can_process(&self, extractor_type: ExtractorType, url: &str, config: &ParserConfig) -> (r:
        bool)
        ensures
            r == self.accepts(extractor_type, url@, config.deep_view()),
    ;

    /// What the step makes of a URL at a time.
    fn process(
        &self,
        url: &str,
        config: &ParserConfig,
        now_ms: i64,
        diagnostics: &mut ParserDiagnostics,
    ) -> (r: Result<String>)
        ensures
            match r {
                Ok(u) => self.processed(url@, config.deep_view(), now_ms as int) is Ok && {
                    let (text, notes) = self.processed(url@, config.deep_view(), now_ms as int)->Ok_0;
                    u@ == text && final(diagnostics).deep_view() == old(diagnostics).deep_view()
                        + notes
                },
                Err(e) => self.processed(url@, config.deep_view(), now_ms as int) == Err::<
                    (Seq<char>, Seq<ParserDiagnosticView>),
                    ErrorView,
                >(e.deep_view()) && final(diagnostics).deep_view() == old(
                    diagnostics,
                ).deep_view(),
            },
    ;
}

/// Adds the query of the manifest to each URL, where that is asked for.
#[derive(Clone, Copy, Debug)]
pub struct DefaultUrlProcessor;

/// What adding the query of the manifest gives, and the messages it leaves.
pub open spec fn default_processed(url: Seq<char>, config: ParserConfigView) -> (
    Seq<char>,
    Seq<ParserDiagnosticView>,
) {
    let processed = with_query_of(url, config.url);
    (
        processed,
        if query_of(processed).len() > 0 {
            seq![
                note(LogLevel::Debug, "Before: "@ + url),
                note(LogLevel::Debug, "After: "@ + processed),
            ]
        } else {
            Seq::empty()
        },
    )
}

impl UrlProcessor for DefaultUrlProcessor {
    open spec fn accepts(
        &self,
        extractor_type: ExtractorType,
        url: Seq<char>,
        config: ParserConfigView,
    ) -> bool {
        config.append_url_params && starts_with(url, "http"@)
    }

    open spec fn processed(&self, url: Seq<char>, config: ParserConfigView, now_ms: int) -> core::result::Result<
        (Seq<char>, Seq<ParserDiagnosticView>),
        ErrorView,
    > {
        Ok(default_processed(url, config))
    }

    fn can_process(&self, extractor_type: ExtractorType, url: &str, config: &ParserConfig) -> (r:
        bool) {
        config.append_url_params && begins_with(url, "http")
    }

    fn process(
        &self,
        url: &str,
        config: &ParserConfig,
        now_ms: i64,
        diagnostics: &mut ParserDiagnostics,
    ) -> (r: Result<String>) {
        let processed: String = append_query_params(url, config.url.as_str());
        let ghost start = diagnostics.deep_view();
        if query_part(processed.as_str()).unicode_len() > 0 {
            let before: String = cat2("Before: ", url);
            let after: String = cat2("After: ", processed.as_str());
            diagnostics.push(LogLevel::Debug, before.as_str());
            diagnostics.push(LogLevel::Debug, after.as_str());
        }
        assert(diagnostics.deep_view() =~= start + default_processed(url@, config.deep_view()).1);
        Ok(processed)
    }
}

/// Signs DASH URLs for one provider.
#[derive(Clone, Copy, Debug)]
pub struct SignedDashUrlProcessor;

/// Two's complement limits of 64 bits.
pub open spec fn saturate(n: int) -> int {
    if n > i64::MAX {
        i64::MAX as int
    } else if n < i64::MIN {
        i64::MIN as int
    } else {
        n
    }
}

/// The signature of a path: a digest of time, path and token, and the time.
pub open spec fn secure_value(path: Seq<char>, token: Seq<char>, difference: int, now_ms: int) -> Seq<
    char,
> {
    let time = saturate(saturate(now_ms + 60000) + difference);
    let payload = dec_int(time) + path + token;
    let digest = base64_text(md5_of(vstd::utf8::encode_utf8(payload)));
    replace(replace(digest, "+"@, "-"@), "/"@, "_"@) + ","@ + dec_int(time)
}

fn saturating_sum(a: i64, b: i64) -> (r: i64)
    ensures
        r == saturate(a + b),
{
    match a.checked_add(b) {
        Some(n) => n,
        None => if b > 0 {
            i64::MAX
        } else {
            i64::MIN
        },
    }
}

/// The signature of a path at a time.
pub fn signed_dash_secure_value(
    path: &str,
    secure_token: &str,
    time_difference_ms: i64,
    now_ms: i64,
) -> (r: String)
    ensures
        r@ == secure_value(path@, secure_token@, time_difference_ms as int, now_ms as int),
{
    proof {
        reveal_strlit("+");
        reveal_strlit("/");
    }
    let time: i64 = saturating_sum(saturating_sum(now_ms, 60000), time_difference_ms);
    let time_text: String = i64_text(time);
    let payload: String = cat3(time_text.as_str(), path, secure_token);
    let digest: Vec<u8> = md5_digest(payload.as_str().as_bytes());
    let plain: String = base64_encode(&digest);
    let once: String = replace_text(plain.as_str(), "+", "-");
    let twice: String = replace_text(once.as_str(), "/", "_");
    cat3(twice.as_str(), ",", time_text.as_str())
}

/// The number of an attribute; none where it is missing.
pub open spec fn time_difference_of(args: Seq<char>) -> core::result::Result<int, ErrorView> {
    match attribute_of(args, "timeDifference"@) {
        Err(e) => Err(e),
        Ok(None) => Ok(0),
        Ok(Some(v)) => match parse_within(trim(v), i32::MIN as int, i32::MAX as int) {
            Some(n) => Ok(n),
            None => Err(ErrorView::Config("url processor timeDifference is invalid"@)),
        },
    }
}

/// A DASH URL with its signature.
pub open spec fn signed_url(url: Seq<char>, arguments: Option<Seq<char>>, now_ms: int) -> core::result::Result<
    Seq<char>,
    ErrorView,
> {
    let args = match arguments {
        Some(a) => strip_prefix(a, "nowehoryzonty:"@),
        None => None,
    };
    match args {
        None => Err(ErrorView::Config("url processor arguments are missing"@)),
        Some(a) => match (attribute_of(a, "filminfo.secureToken"@), time_difference_of(a)) {
            (Err(e), _) => Err(e),
            (_, Err(e)) => Err(e),
            (Ok(token), Ok(difference)) => match path_of_url(url) {
                None => Err(ErrorView::Config("url processor input must be absolute"@)),
                Some(path) => Ok(
                    url + "?secure="@ + secure_value(
                        path,
                        match token {
                            Some(t) => t,
                            None => ""@,
                        },
                        difference,
                        now_ms,
                    ),
                ),
            },
        },
    }
}

fn sign_url(url: &str, arguments: &Option<String>, now_ms: i64) -> (r: Result<String>)
    ensures
        view_result(r) == signed_url(url@, arguments.deep_view(), now_ms as int),
{
    let args: &str = match arguments {
        Some(a) => match without_prefix(a.as_str(), "nowehoryzonty:") {
            Some(rest) => rest,
            None => {
                return Err(Error::config("url processor arguments are missing"));
            },
        },
        None => {
            return Err(Error::config("url processor arguments are missing"));
        },
    };
    let token: String = match hls_attribute(args, "filminfo.secureToken") {
        Err(e) => {
            return Err(e);
        },
        Ok(Some(t)) => t,
        Ok(None) => owned(""),
    };
    let difference: i64 = match hls_attribute(args, "timeDifference") {
        Err(e) => {
            return Err(e);
        },
        Ok(None) => 0,
        Ok(Some(v)) => match parse_i32_text(trimmed(v.as_str())) {
            Some(n) => n as i64,
            None => {
                return Err(Error::config("url processor timeDifference is invalid"));
            },
        },
    };
    match url_path(url) {
        None => Err(Error::config("url processor input must be absolute")),
        Some(path) => {
            let value: String = signed_dash_secure_value(
                path.as_str(),
                token.as_str(),
                difference,
                now_ms,
            );
            Ok(cat3(url, "?secure=", value.as_str()))
        },
    }
}

impl UrlProcessor for SignedDashUrlProcessor {
    open spec fn accepts(
        &self,
        extractor_type: ExtractorType,
        url: Seq<char>,
        config: ParserConfigView,
    ) -> bool {
        extractor_type == ExtractorType::MpegDash && match config.urlprocessor_args {
            Some(args) => starts_with(args, "nowehoryzonty:"@),
            None => false,
        }
    }

    open spec fn processed(&self, url: Seq<char>, config: ParserConfigView, now_ms: int) -> core::result::Result<
        (Seq<char>, Seq<ParserDiagnosticView>),
        ErrorView,
    > {
        match signed_url(url, config.urlprocessor_args, now_ms) {
            Ok(u) => Ok((u, Seq::empty())),
            Err(e) => Err(e),
        }
    }

    fn can_process(&self, extractor_type: ExtractorType, url: &str, config: &ParserConfig) -> (r:
        bool) {
        extractor_type == ExtractorType::MpegDash && match &config.urlprocessor_args {
            Some(args) => begins_with(args.as_str(), "nowehoryzonty:"),
            None => false,
        }
    }

    fn process(
        &self,
        url: &str,
        config: &ParserConfig,
        now_ms: i64,
        diagnostics: &mut ParserDiagnostics,
    ) -> (r: Result<String>) {
        let ghost start = diagnostics.deep_view();
        assert(start + Seq::<ParserDiagnosticView>::empty() =~= start);
        sign_url(url, &config.urlprocessor_args, now_ms)
    }
}

/// The base that URLs of a manifest are seen from.
pub open spec fn base_of(manifest_url: Seq<char>, config: ParserConfigView) -> Seq<char> {
    if config.base_url.len() == 0 {
        manifest_url
    } else {
        config.base_url
    }
}

/// A URL after one step, where the step applies.
pub open spec fn after_processor<P: UrlProcessor>(
    p: P,
    extractor_type: ExtractorType,
    url: Seq<char>,
    config: ParserConfigView,
    now_ms: int,
) -> core::result::Result<(Seq<char>, Seq<ParserDiagnosticView>), ErrorView> {
    if p.accepts(extractor_type, url, config) {
        p.processed(url, config, now_ms)
    } else {
        Ok((url, Seq::empty()))
    }
}

/// A URL of a manifest, resolved and run through one step, and the messages of the step.
pub open spec fn resolved_url<P: UrlProcessor>(
    p: P,
    extractor_type: ExtractorType,
    url: Seq<char>,
    manifest_url: Seq<char>,
    config: ParserConfigView,
    now_ms: int,
) -> core::result::Result<(Seq<char>, Seq<ParserDiagnosticView>), ErrorView> {
    after_processor(
        p,
        extractor_type,
        combined_url(base_of(manifest_url, config), url),
        config,
        now_ms,
    )
}

/// A URL after one step, where the step applies.
pub fn apply_processor<P: UrlProcessor>(
    p: &P,
    extractor_type: ExtractorType,
    url: &str,
    config: &ParserConfig,
    now_ms: i64,
    diagnostics: &mut ParserDiagnostics,
) -> (r: Result<String>)
    ensures
        match r {
            Ok(u) => after_processor(
                *p,
                extractor_type,
                url@,
                config.deep_view(),
                now_ms as int,
            ) is Ok && {
                let (text, notes) = after_processor(
                    *p,
                    extractor_type,
                    url@,
                    config.deep_view(),
                    now_ms as int,
                )->Ok_0;
                u@ == text && final(diagnostics).deep_view() == old(diagnostics).deep_view() + notes
            },
            Err(e) => after_processor(
                *p,
                extractor_type,
                url@,
                config.deep_view(),
                now_ms as int,
            ) == Err::<(Seq<char>, Seq<ParserDiagnosticView>), ErrorView>(e.deep_view())
                && final(diagnostics).deep_view() == old(diagnostics).deep_view(),
        },
{
    let ghost start = diagnostics.deep_view();
    assert(start + Seq::<ParserDiagnosticView>::empty() =~= start);
    if p.can_process(extractor_type, url, config) {
        p.process(url, config, now_ms, diagnostics)
    } else {
        Ok(owned(url))
    }
}

/// A URL of a manifest, resolved and run through one step.
pub(crate) fn resolve_url_with<P: UrlProcessor>(
    extractor_type: ExtractorType,
    url: &str,
    manifest_url: &str,
    config: &ParserConfig,
    processor: &P,
    now_ms: i64,
    diagnostics: &mut ParserDiagnostics,
) -> (r: Result<String>)
    ensures
        match r {
            Ok(u) => resolved_url(
                *processor,
                extractor_type,
                url@,
                manifest_url@,
                config.deep_view(),
                now_ms as int,
            ) is Ok && {
                let (text, notes) = resolved_url(
                    *processor,
                    extractor_type,
                    url@,
                    manifest_url@,
                    config.deep_view(),
                    now_ms as int,
                )->Ok_0;
                u@ == text && final(diagnostics).deep_view() == old(diagnostics).deep_view() + notes
            },
            Err(e) => resolved_url(
                *processor,
                extractor_type,
                url@,
                manifest_url@,
                config.deep_view(),
                now_ms as int,
            ) == Err::<(Seq<char>, Seq<ParserDiagnosticView>), ErrorView>(e.deep_view())
                && final(diagnostics).deep_view() == old(diagnostics).deep_view(),
        },
{
    let base: &str = if config.base_url.as_str().unicode_len() == 0 {
        manifest_url
    } else {
        config.base_url.as_str()
    };
    let resolved: String = combine_url(base, url);
    apply_processor(processor, extractor_type, resolved.as_str(), config, now_ms, diagnostics)
}

/// A URL after steps in their order, each where it applies, and the messages of the steps. A step that
/// fails ends them with its error. The messages that were left are given with it.
pub open spec fn after_processors<P: UrlProcessor>(
    steps: Seq<P>,
    extractor_type: ExtractorType,
    url: Seq<char>,
    config: ParserConfigView,
    now_ms: int,
) -> (core::result::Result<Seq<char>, ErrorView>, Seq<ParserDiagnosticView>)
    decreases steps.len(),
{
    if steps.len() == 0 {
        (Ok(url), Seq::empty())
    } else {
        let (before, told) = after_processors(
            steps.drop_last(),
            extractor_type,
            url,
            config,
            now_ms,
        );
        match before {
            Err(e) => (Err(e), told),
            Ok(u) => match after_processor(steps.last(), extractor_type, u, config, now_ms) {
                Err(e) => (Err(e), told),
                Ok((text, notes)) => (Ok(text), told + notes),
            },
        }
    }
}

proof fn lemma_failed_steps<P: UrlProcessor>(
    steps: Seq<P>,
    n: int,
    extractor_type: ExtractorType,
    url: Seq<char>,
    config: ParserConfigView,
    now_ms: int,
)
    requires
        0 <= n <= steps.len(),
        after_processors(steps.take(n), extractor_type, url, config, now_ms).0 is Err,
    ensures
        after_processors(steps, extractor_type, url, config, now_ms) == after_processors(
            steps.take(n),
            extractor_type,
            url,
            config,
            now_ms,
        ),
    decreases steps.len() - n,
{
    if n < steps.len() {
        assert(steps.take(n + 1).drop_last() =~= steps.take(n));
        lemma_failed_steps(steps, n + 1, extractor_type, url, config, now_ms);
    } else {
        assert(steps.take(n) =~= steps);
    }
}

/// A URL of a manifest, resolved and run through steps in their order, each where it applies. The
/// first error ends them.
pub fn resolve_media_url<P: UrlProcessor>(
    extractor_type: ExtractorType,
    url: &str,
    manifest_url: &str,
    config: &ParserConfig,
    processors: &[P],
    now_ms: i64,
    diagnostics: &mut ParserDiagnostics,
) -> (r: Result<String>)
    ensures
        ({
            let (resolved, told) = after_processors(
                processors@,
                extractor_type,
                combined_url(base_of(manifest_url@, config.deep_view()), url@),
                config.deep_view(),
                now_ms as int,
            );
            view_result(r) == resolved && final(diagnostics).deep_view() == old(
                diagnostics,
            ).deep_view() + told
        }),
{
    let base: &str = if config.base_url.as_str().unicode_len() == 0 {
        manifest_url
    } else {
        config.base_url.as_str()
    };
    let mut resolved: String = combine_url(base, url);
    let ghost first = resolved@;
    let ghost c = config.deep_view();
    let ghost steps = processors@;
    let ghost start = diagnostics.deep_view();
    let mut i: usize = 0;
    assert(steps.take(0) =~= Seq::<P>::empty());
    assert(start + Seq::<ParserDiagnosticView>::empty() =~= start);
    while i < processors.len()
        invariant
            i <= processors@.len(),
            steps == processors@,
            c == config.deep_view(),
            start == old(diagnostics).deep_view(),
            first == combined_url(base_of(manifest_url@, config.deep_view()), url@),
            after_processors(steps.take(i as int), extractor_type, first, c, now_ms as int).0
                == Ok::<Seq<char>, ErrorView>(resolved@),
            diagnostics.deep_view() == start + after_processors(
                steps.take(i as int),
                extractor_type,
                first,
                c,
                now_ms as int,
            ).1,
        decreases processors@.len() - i,
    {
        let ghost told = after_processors(
            steps.take(i as int),
            extractor_type,
            first,
            c,
            now_ms as int,
        ).1;
        assert(steps.take(i + 1).drop_last() =~= steps.take(i as int));
        assert(steps.take(i + 1).last() == processors@[i as int]);
        match apply_processor(
            &processors[i],
            extractor_type,
            resolved.as_str(),
            config,
            now_ms,
            diagnostics,
        ) {
            Err(e) => {
                proof {
                    lemma_failed_steps(steps, i + 1, extractor_type, first, c, now_ms as int);
                }
                return Err(e);
            },
            Ok(next) => {
                let ghost notes = after_processor(
                    processors@[i as int],
                    extractor_type,
                    resolved@,
                    c,
                    now_ms as int,
                )->Ok_0.1;
                assert(diagnostics.deep_view() =~= start + (told + notes));
                resolved = next;
            },
        }
        i = i + 1;
    }
    assert(steps.take(i as int) =~= steps);
    Ok(resolved)
}

/// Milliseconds from whole seconds and the milliseconds behind them.
pub fn whole_millis(seconds: i64, millis: u16) -> (r: i64)
    requires
        i64::MIN <= seconds * 1000,
        seconds * 1000 + millis <= i64::MAX,
    ensures
        r == seconds * 1000 + millis,
{
    seconds * 1000 + millis as i64
}

/// The present time in milliseconds since 1970-01-01.
pub fn current_millis() -> (r: i64)
    ensures
        exists|read: (i64, u16)| #[trigger]
            call_ensures(utc_now, (), read) && r == read.0 * 1000 + read.1,
        -400_000_000_000_000 < r < 400_000_000_000_000,
{
    let read: (i64, u16) = utc_now();
    whole_millis(read.0, read.1)
}

/// A step that manifests go through.
pub trait ContentProcessor {
    /// Whether the step applies.
    spec fn accepts(&self, extractor_type: ExtractorType, raw: Seq<char>, config: ParserConfigView) -> bool;

    /// What the step makes of a manifest.
    spec fn processed(&self, raw: Seq<char>, config: ParserConfigView) -> core::result::Result<
        Seq<char>,
        ErrorView,
    >;

    /// Whether the step applies.
    fn can_process(&self, extractor_type: ExtractorType, raw_text: &str, config: &ParserConfig) -> (r:
        bool)
        ensures
            r == self.accepts(extractor_type, raw_text@, config.deep_view()),
    ;

    /// What the step makes of a manifest.
    fn process(&self, raw_text: &str, config: &ParserConfig) -> (r: Result<String>)
        ensures
            view_result(r) == self.processed(raw_text@, config.deep_view()),
    ;
}

/// Declares name spaces that a DASH manifest uses and does not declare.
#[derive(Clone, Copy, Debug)]
pub struct DefaultDashContentProcessor;

/// A prefix that is used and not declared.
pub open spec fn lacks_namespace(raw: Seq<char>, prefix: Seq<char>) -> bool {
    !contains(raw, "xmlns:"@ + prefix) && contains(raw, "<"@ + prefix + ":"@)
}

fn namespace_missing(raw: &str, prefix: &str) -> (r: bool)
    ensures
        r == lacks_namespace(raw@, prefix@),
{
    let declared: String = cat2("xmlns:", prefix);
    let used: String = cat3("<", prefix, ":");
    !has_text(raw, declared.as_str()) && has_text(raw, used.as_str())
}

/// `s` with the first occurrence of `old_text` replaced.
pub open spec fn replaced_first(s: Seq<char>, old_text: Seq<char>, new_text: Seq<char>) -> Seq<char> {
    match find(s, old_text) {
        Some(i) => take(s, i) + new_text + drop(s, i + old_text.len()),
        None => s,
    }
}

fn replace_first(s: &str, old_text: &str, new_text: &str) -> (r: String)
    ensures
        r@ == replaced_first(s@, old_text@, new_text@),
{
    let _len: usize = s.unicode_len();
    match find_text(s, old_text) {
        Some(i) => cat3(slice(s, 0, i), new_text, slice_from(s, i + old_text.unicode_len())),
        None => owned(s),
    }
}

/// The declarations that are missing, each with a space behind it but the last.
pub open spec fn missing_declarations(raw: Seq<char>) -> Seq<Seq<char>> {
    let a = if lacks_namespace(raw, "cenc"@) {
        seq!["xmlns:cenc=\"urn:mpeg:cenc:2013\""@]
    } else {
        Seq::empty()
    };
    let b = if lacks_namespace(raw, "mspr"@) {
        a.push("xmlns:mspr=\"urn:microsoft:playready\""@)
    } else {
        a
    };
    if lacks_namespace(raw, "mas"@) {
        b.push("xmlns:mas=\"urn:marlin:mas:1-0:services:schemas:mpd\""@)
    } else {
        b
    }
}

impl ContentProcessor for DefaultDashContentProcessor {
    open spec fn accepts(&self, extractor_type: ExtractorType, raw: Seq<char>, config: ParserConfigView) -> bool {
        extractor_type == ExtractorType::MpegDash && (lacks_namespace(raw, "cenc"@)
            || lacks_namespace(raw, "mspr"@) || lacks_namespace(raw, "mas"@))
    }

    open spec fn processed(&self, raw: Seq<char>, config: ParserConfigView) -> core::result::Result<
        Seq<char>,
        ErrorView,
    > {
        let missing = missing_declarations(raw);
        Ok(
            if missing.len() == 0 {
                raw
            } else {
                replaced_first(raw, "<MPD "@, "<MPD "@ + join(missing, " "@) + " "@)
            },
        )
    }

    fn can_process(&self, extractor_type: ExtractorType, raw_text: &str, config: &ParserConfig) -> (r:
        bool) {
        extractor_type == ExtractorType::MpegDash && (namespace_missing(raw_text, "cenc")
            || namespace_missing(raw_text, "mspr") || namespace_missing(raw_text, "mas"))
    }

    fn process(&self, raw_text: &str, config: &ParserConfig) -> (r: Result<String>) {
        let mut missing: Vec<String> = Vec::new();
        if namespace_missing(raw_text, "cenc") {
            missing.push(owned("xmlns:cenc=\"urn:mpeg:cenc:2013\""));
        }
        if namespace_missing(raw_text, "mspr") {
            missing.push(owned("xmlns:mspr=\"urn:microsoft:playready\""));
        }
        if namespace_missing(raw_text, "mas") {
            missing.push(owned("xmlns:mas=\"urn:marlin:mas:1-0:services:schemas:mpd\""));
        }
        assert(missing.deep_view() =~= missing_declarations(raw_text@));
        if missing.len() == 0 {
            return Ok(owned(raw_text));
        }
        let joined: String = join_texts(&missing, " ");
        let opening: String = cat3("<MPD ", joined.as_str(), " ");
        Ok(replace_first(raw_text, "<MPD ", opening.as_str()))
    }
}

/// Repairs playlists of some providers.
#[derive(Clone, Copy, Debug)]
pub struct DefaultHlsContentProcessor;

/// The text that rows of matches were cut from.
pub open spec fn rebuilt(rows: Seq<Seq<Seq<char>>>) -> Seq<char>
    decreases rows.len(),
{
    if rows.len() == 0 {
        Seq::empty()
    } else if rows[0].len() < 2 {
        rows[0][0] + rebuilt(rows.drop_first())
    } else {
        rows[0][0] + rows[0][1] + rebuilt(rows.drop_first())
    }
}

/// The text with the first match replaced, or what is wrong with the pattern.
pub open spec fn replaced_match(s: Seq<char>, pattern: Seq<char>, new_text: Seq<char>) -> core::result::Result<
    Seq<char>,
    ErrorView,
> {
    match regex_rows(pattern, s) {
        None => Err(ErrorView::Protocol(regex_error_of(pattern)->0)),
        Some(rows) => if rows.len() < 2 {
            Ok(s)
        } else {
            Ok(rows[0][0] + new_text + rebuilt(rows.drop_first()))
        },
    }
}

fn bad_pattern<T>(pattern: &str) -> (r: Result<T>)
    requires
        regex_error_of(pattern@) is Some,
    ensures
        r is Err,
        r->Err_0.deep_view() == ErrorView::Protocol(regex_error_of(pattern@)->0),
{
    match regex_error(pattern) {
        Some(e) => Err(Error::protocol(e.as_str())),
        None => Err(Error::protocol("")),
    }
}

fn rebuild(rows: &Vec<Vec<String>>, from: usize) -> (r: String)
    requires
        from <= rows@.len(),
        forall|i: int| 0 <= i < rows@.len() ==> (#[trigger] rows@[i])@.len() >= 1,
    ensures
        r@ == rebuilt(view_rows(*rows).subrange(from as int, rows@.len() as int)),
{
    let ghost all = view_rows(*rows);
    let mut out: String = String::new();
    let mut i: usize = from;
    let ghost whole = rebuilt(all.subrange(from as int, all.len() as int));
    assert(out@ + whole =~= whole);
    while i < rows.len()
        invariant
            from <= i <= rows@.len(),
            all == view_rows(*rows),
            forall|k: int| 0 <= k < rows@.len() ==> (#[trigger] rows@[k])@.len() >= 1,
            out@ + rebuilt(all.subrange(i as int, all.len() as int)) == whole,
        decreases rows@.len() - i,
    {
        let ghost rest = all.subrange(i as int, all.len() as int);
        let ghost before = out@;
        let row: &Vec<String> = &rows[i];
        assert(rest[0] == row.deep_view());
        assert(rest.drop_first() =~= all.subrange(i + 1, all.len() as int));
        assert(row.deep_view()[0] == row@[0]@);
        out.append(row[0].as_str());
        if row.len() >= 2 {
            assert(row.deep_view()[1] == row@[1]@);
            out.append(row[1].as_str());
        }
        i = i + 1;
        assert(out@ + rebuilt(rest.drop_first()) =~= before + rebuilt(rest));
    }
    assert(all.subrange(all.len() as int, all.len() as int) =~= Seq::<Seq<Seq<char>>>::empty());
    assert(out@ =~= whole);
    out
}

fn replace_first_regex(s: &str, pattern: &str, new_text: &str) -> (r: Result<String>)
    ensures
        view_result(r) == replaced_match(s@, pattern@, new_text@),
{
    match regex_scan(pattern, s) {
        None => bad_pattern(pattern),
        Some(rows) => {
            if rows.len() < 2 {
                return Ok(owned(s));
            }
            let ghost all = view_rows(rows);
            let row: &Vec<String> = &rows[0];
            assert(all[0] == row.deep_view());
            assert(row.deep_view()[0] == row@[0]@);
            assert(all.drop_first() =~= all.subrange(1, all.len() as int));
            let tail: String = rebuild(&rows, 1);
            Ok(cat3(row[0].as_str(), new_text, tail.as_str()))
        },
    }
}

/// The text with each map behind a discontinuity turned into a segment.
pub open spec fn maps_as_segments(rows: Seq<Seq<Seq<char>>>) -> Seq<char>
    decreases rows.len(),
{
    if rows.len() == 0 {
        Seq::empty()
    } else if rows[0].len() < 4 {
        rows[0][0] + maps_as_segments(rows.drop_first())
    } else {
        rows[0][0] + "#EXTINF:0.000000,\n#EXT-X-BYTERANGE:"@ + rows[0][3] + "\n"@ + rows[0][2]
            + maps_as_segments(rows.drop_first())
    }
}

/// What finds a map behind a discontinuity.
pub open spec fn map_pattern() -> Seq<char> {
    "#EXT-X-DISCONTINUITY\\s+#EXT-X-MAP:URI=\"(.*?)\",BYTERANGE=\"(.*?)\""@
}

/// The text with each map behind a discontinuity turned into a segment.
pub open spec fn dolby_maps_rewritten(s: Seq<char>) -> core::result::Result<Seq<char>, ErrorView> {
    match regex_rows(map_pattern(), s) {
        None => Err(ErrorView::Protocol(regex_error_of(map_pattern())->0)),
        Some(rows) => Ok(maps_as_segments(rows)),
    }
}

fn rewrite_youku_dolby_maps(s: &str) -> (r: Result<String>)
    ensures
        view_result(r) == dolby_maps_rewritten(s@),
{
    let pattern: &str = "#EXT-X-DISCONTINUITY\\s+#EXT-X-MAP:URI=\"(.*?)\",BYTERANGE=\"(.*?)\"";
    match regex_scan(pattern, s) {
        None => bad_pattern(pattern),
        Some(rows) => {
            let ghost all = view_rows(rows);
            let mut out: String = String::new();
            let mut i: usize = 0;
            let ghost whole = maps_as_segments(all);
            assert(all.subrange(0, all.len() as int) =~= all);
            assert(out@ + whole =~= whole);
            while i < rows.len()
                invariant
                    i <= rows@.len(),
                    rows@.len() > 0,
                    rows@.last()@.len() == 1,
                    forall|k: int|
                        0 <= k < rows@.len() - 1 ==> (#[trigger] rows@[k])@.len() >= 2,
                    all == view_rows(rows),
                    out@ + maps_as_segments(all.subrange(i as int, all.len() as int)) == whole,
                decreases rows@.len() - i,
            {
                let ghost rest = all.subrange(i as int, all.len() as int);
                let ghost before = out@;
                let row: &Vec<String> = &rows[i];
                assert(rest[0] == row.deep_view());
                assert(rest.drop_first() =~= all.subrange(i + 1, all.len() as int));
                assert(row@.len() >= 1);
                assert(row.deep_view()[0] == row@[0]@);
                out.append(row[0].as_str());
                if row.len() >= 4 {
                    assert(row.deep_view()[2] == row@[2]@ && row.deep_view()[3] == row@[3]@);
                    out.append("#EXTINF:0.000000,\n#EXT-X-BYTERANGE:");
                    out.append(row[3].as_str());
                    out.append("\n");
                    out.append(row[2].as_str());
                }
                i = i + 1;
                assert(out@ + maps_as_segments(rest.drop_first()) =~= before + maps_as_segments(
                    rest,
                ));
            }
            assert(all.subrange(all.len() as int, all.len() as int) =~= Seq::<
                Seq<Seq<char>>,
            >::empty());
            assert(out@ =~= whole);
            Ok(out)
        },
    }
}

/// What finds the encrypted part of a playlist.
pub open spec fn key_range_pattern() -> Seq<char> {
    "(?s)(#EXT-X-KEY:.*?)(#EXT-X-DISCONTINUITY|#EXT-X-ENDLIST)"@
}

/// The encrypted part of a playlist as a playlist of its own.
pub open spec fn key_range_kept(s: Seq<char>) -> core::result::Result<Seq<char>, ErrorView> {
    match regex_rows(key_range_pattern(), s) {
        None => Err(ErrorView::Protocol(regex_error_of(key_range_pattern())->0)),
        Some(rows) => if rows.len() < 2 {
            Ok(s)
        } else {
            Ok(
                "#EXTM3U\r\n"@ + (if rows[0].len() > 2 {
                    rows[0][2]
                } else {
                    ""@
                }) + "\r\n#EXT-X-ENDLIST"@,
            )
        },
    }
}

fn keep_apple_encrypted_hls_range(s: &str) -> (r: Result<String>)
    ensures
        view_result(r) == key_range_kept(s@),
{
    let pattern: &str = "(?s)(#EXT-X-KEY:.*?)(#EXT-X-DISCONTINUITY|#EXT-X-ENDLIST)";
    match regex_scan(pattern, s) {
        None => bad_pattern(pattern),
        Some(rows) => {
            if rows.len() < 2 {
                return Ok(owned(s));
            }
            let row: &Vec<String> = &rows[0];
            assert(view_rows(rows)[0] == row.deep_view());
            let part: &str = if row.len() > 2 {
                assert(row.deep_view()[2] == row@[2]@);
                row[2].as_str()
            } else {
                ""
            };
            Ok(cat3("#EXTM3U\r\n", part, "\r\n#EXT-X-ENDLIST"))
        },
    }
}

/// The first line at or after `i` that holds more than white space.
pub open spec fn solid_line(all: Seq<Seq<char>>, i: int) -> int
    decreases all.len() - i,
{
    if 0 <= i < all.len() && trim(all[i]).len() == 0 {
        solid_line(all, i + 1)
    } else {
        i
    }
}

proof fn lemma_solid_line(all: Seq<Seq<char>>, i: int)
    requires
        0 <= i <= all.len(),
    ensures
        i <= solid_line(all, i) <= all.len(),
    decreases all.len() - i,
{
    if i < all.len() && trim(all[i]).len() == 0 {
        lemma_solid_line(all, i + 1);
    }
}

/// The key line that follows the segment line at `i`, where one does.
pub open spec fn key_line_after(all: Seq<Seq<char>>, i: int) -> Option<int> {
    let k = solid_line(all, i + 1);
    if starts_with(all[i], "#EXTINF"@) && k < all.len() && starts_with(all[k], "#EXT-X-KEY"@) {
        Some(k)
    } else {
        None
    }
}

/// The lines from `i` on, with each key line that follows a segment line put before it.
pub open spec fn keys_first(all: Seq<Seq<char>>, i: int) -> Seq<Seq<char>>
    decreases all.len() - i,
    via keys_first_decreases
{
    if i < 0 || i >= all.len() {
        Seq::empty()
    } else {
        match key_line_after(all, i) {
            Some(k) => seq![all[k]] + all.subrange(i + 1, k) + seq![all[i]] + keys_first(
                all,
                k + 1,
            ),
            None => seq![all[i]] + keys_first(all, i + 1),
        }
    }
}

#[via_fn]
proof fn keys_first_decreases(all: Seq<Seq<char>>, i: int) {
    if 0 <= i < all.len() {
        lemma_solid_line(all, i + 1);
    }
}

/// The playlist with each key line that follows a segment line put before it.
pub open spec fn key_order_fixed(s: Seq<char>) -> Seq<char> {
    join(
        keys_first(lines(s), 0),
        if contains(s, "\r\n"@) {
            "\r\n"@
        } else {
            "\n"@
        },
    )
}

fn fix_hls_key_order(s: &str) -> (r: String)
    ensures
        r@ == key_order_fixed(s@),
{
    let separator: &str = if has_text(s, "\r\n") {
        "\r\n"
    } else {
        "\n"
    };
    let all: Vec<String> = lines_text(s);
    let _len: usize = all.len();
    let ghost views = all.deep_view();
    let mut out: Vec<String> = Vec::new();
    let mut i: usize = 0;
    let ghost whole = keys_first(views, 0);
    assert(out.deep_view() + whole =~= whole);
    while i < all.len()
        invariant
            i <= all@.len() <= usize::MAX,
            views == all.deep_view(),
            out.deep_view() + keys_first(views, i as int) == whole,
        decreases all@.len() - i,
    {
        let ghost before = out.deep_view();
        assert(views[i as int] == all@[i as int]@);
        let mut key: usize = i + 1;
        let mut found: bool = false;
        if begins_with(all[i].as_str(), "#EXTINF") {
            while key < all.len() && trimmed(all[key].as_str()).unicode_len() == 0
                invariant
                    i < key <= all@.len(),
                    views == all.deep_view(),
                    solid_line(views, i + 1) == solid_line(views, key as int),
                decreases all@.len() - key,
            {
                assert(views[key as int] == all@[key as int]@);
                key = key + 1;
            }
            if key < all.len() {
                assert(views[key as int] == all@[key as int]@);
                found = begins_with(all[key].as_str(), "#EXT-X-KEY");
            }
        }
        if found {
            assert(key_line_after(views, i as int) == Some(key as int));
            out.push(all[key].clone());
            assert(out.deep_view() =~= before + seq![views[key as int]]);
            let mut k: usize = i + 1;
            while k < key
                invariant
                    i < k <= key < all@.len(),
                    views == all.deep_view(),
                    out.deep_view() =~= before + seq![views[key as int]] + views.subrange(
                        i + 1,
                        k as int,
                    ),
                decreases key - k,
            {
                let line: String = all[k].clone();
                let ghost now = out.deep_view();
                out.push(line);
                assert(out.deep_view() =~= now.push(views[k as int]));
                k = k + 1;
            }
            let ghost now = out.deep_view();
            out.push(all[i].clone());
            assert(out.deep_view() =~= now.push(views[i as int]));
            assert(out.deep_view() + keys_first(views, key + 1) =~= before + keys_first(
                views,
                i as int,
            ));
            i = key + 1;
        } else {
            assert(key_line_after(views, i as int) is None);
            out.push(all[i].clone());
            assert(out.deep_view() =~= before.push(views[i as int]));
            assert(out.deep_view() + keys_first(views, i + 1) =~= before + keys_first(
                views,
                i as int,
            ));
            i = i + 1;
        }
    }
    assert(out.deep_view() =~= whole);
    join_texts(&out, separator)
}

/// Line endings as a single newline where only carriage returns stand.
pub open spec fn unified_lines(s: Seq<char>) -> Seq<char> {
    if contains(s, "\r"@) && !contains(s, "\n"@) {
        replace(s, "\r"@, "\n"@)
    } else {
        s
    }
}

/// The playlist with an end where the URL says that there is one.
pub open spec fn ended(s: Seq<char>, url: Seq<char>) -> Seq<char> {
    if contains(url, "tlivecloud-playback-cdn.ysp.cctv.cn"@) && contains(url, "endtime="@)
        && !contains(s, "#EXT-X-ENDLIST"@) {
        s + "\n#EXT-X-ENDLIST"@
    } else {
        s
    }
}

/// The repairs of a playlist, one after the other.
pub open spec fn repaired_playlist(raw: Seq<char>, url: Seq<char>) -> core::result::Result<
    Seq<char>,
    ErrorView,
> {
    let a = ended(unified_lines(raw), url);
    let b = if contains(a, "#EXT-X-DISCONTINUITY"@) && contains(a, "#EXT-X-MAP"@) && contains(
        a,
        "ott.cibntv.net"@,
    ) && contains(a, "ccode="@) {
        dolby_maps_rewritten(a)
    } else {
        Ok(a)
    };
    match b {
        Err(e) => Err(e),
        Ok(b) => {
            let c = if contains(b, "#EXT-X-DISCONTINUITY"@) && contains(b, "#EXT-X-MAP"@)
                && contains(url, "media.dssott.com/"@) {
                replaced_match(
                    b,
                    "(?s)#EXT-X-MAP:URI=\".*?BUMPER/.*?#EXT-X-DISCONTINUITY"@,
                    "#XXX"@,
                )
            } else {
                Ok(b)
            };
            match c {
                Err(e) => Err(e),
                Ok(c) => {
                    let d = if contains(c, "#EXT-X-DISCONTINUITY"@) && contains(
                        c,
                        "seg_00000.vtt"@,
                    ) && contains(url, "media.dssott.com/"@) {
                        replaced_match(
                            c,
                            "(?s)#EXTINF:.*?,\\s+.*BUMPER.*\\s+?#EXT-X-DISCONTINUITY"@,
                            "#XXX"@,
                        )
                    } else {
                        Ok(c)
                    };
                    match d {
                        Err(e) => Err(e),
                        Ok(d) => match from_apple(d, url) {
                            Err(e) => Err(e),
                            Ok(apple) => if apple {
                                match key_range_kept(d) {
                                    Err(e) => Err(e),
                                    Ok(k) => Ok(key_order_fixed(k)),
                                }
                            } else {
                                Ok(key_order_fixed(d))
                            },
                        },
                    }
                },
            }
        },
    }
}

/// A playlist with discontinuities and maps that URL or map place at one provider.
pub open spec fn from_apple(s: Seq<char>, url: Seq<char>) -> core::result::Result<bool, ErrorView> {
    if !contains(s, "#EXT-X-DISCONTINUITY"@) || !contains(s, "#EXT-X-MAP"@) {
        Ok(false)
    } else if contains(url, ".apple.com/"@) {
        Ok(true)
    } else {
        match regex_rows("#EXT-X-MAP.*\\.apple\\.com/"@, s) {
            None => Err(ErrorView::Protocol(regex_error_of("#EXT-X-MAP.*\\.apple\\.com/"@)->0)),
            Some(rows) => Ok(rows.len() >= 2),
        }
    }
}

fn is_from_apple(s: &str, url: &str) -> (r: Result<bool>)
    ensures
        match r {
            Ok(b) => from_apple(s@, url@) == Ok::<bool, ErrorView>(b),
            Err(e) => from_apple(s@, url@) == Err::<bool, ErrorView>(e.deep_view()),
        },
{
    if !has_text(s, "#EXT-X-DISCONTINUITY") || !has_text(s, "#EXT-X-MAP") {
        return Ok(false);
    }
    if has_text(url, ".apple.com/") {
        return Ok(true);
    }
    match regex_scan("#EXT-X-MAP.*\\.apple\\.com/", s) {
        None => bad_pattern("#EXT-X-MAP.*\\.apple\\.com/"),
        Some(rows) => Ok(rows.len() >= 2),
    }
}

/// The repairs of a playlist, one after the other.
pub fn repair_playlist(raw: &str, url: &str) -> (r: Result<String>)
    ensures
        view_result(r) == repaired_playlist(raw@, url@),
{
    proof {
        reveal_strlit("\r");
    }
    let mut text: String = if has_text(raw, "\r") && !has_text(raw, "\n") {
        replace_text(raw, "\r", "\n")
    } else {
        owned(raw)
    };
    if has_text(url, "tlivecloud-playback-cdn.ysp.cctv.cn") && has_text(url, "endtime=")
        && !has_text(text.as_str(), "#EXT-X-ENDLIST") {
        text.append("\n#EXT-X-ENDLIST");
    }
    if has_text(text.as_str(), "#EXT-X-DISCONTINUITY") && has_text(text.as_str(), "#EXT-X-MAP")
        && has_text(text.as_str(), "ott.cibntv.net") && has_text(text.as_str(), "ccode=") {
        text = rewrite_youku_dolby_maps(text.as_str())?;
    }
    if has_text(text.as_str(), "#EXT-X-DISCONTINUITY") && has_text(text.as_str(), "#EXT-X-MAP")
        && has_text(url, "media.dssott.com/") {
        text = replace_first_regex(
            text.as_str(),
            "(?s)#EXT-X-MAP:URI=\".*?BUMPER/.*?#EXT-X-DISCONTINUITY",
            "#XXX",
        )?;
    }
    if has_text(text.as_str(), "#EXT-X-DISCONTINUITY") && has_text(text.as_str(), "seg_00000.vtt")
        && has_text(url, "media.dssott.com/") {
        text = replace_first_regex(
            text.as_str(),
            "(?s)#EXTINF:.*?,\\s+.*BUMPER.*\\s+?#EXT-X-DISCONTINUITY",
            "#XXX",
        )?;
    }
    let apple: bool = is_from_apple(text.as_str(), url)?;
    if apple {
        text = keep_apple_encrypted_hls_range(text.as_str())?;
    }
    Ok(fix_hls_key_order(text.as_str()))
}

impl ContentProcessor for DefaultHlsContentProcessor {
    open spec fn accepts(&self, extractor_type: ExtractorType, raw: Seq<char>, config: ParserConfigView) -> bool {
        extractor_type == ExtractorType::Hls
    }

    open spec fn processed(&self, raw: Seq<char>, config: ParserConfigView) -> core::result::Result<
        Seq<char>,
        ErrorView,
    > {
        repaired_playlist(raw, config.url)
    }

    fn can_process(&self, extractor_type: ExtractorType, raw_text: &str, config: &ParserConfig) -> (r:
        bool) {
        extractor_type == ExtractorType::Hls
    }

    fn process(&self, raw_text: &str, config: &ParserConfig) -> (r: Result<String>) {
        repair_playlist(raw_text, config.url.as_str())
    }
}

/// Bytes in hexadecimal, as an option or attribute gives them.
pub open spec fn config_hex(v: Seq<char>) -> core::result::Result<Seq<u8>, ErrorView> {
    if vstd::utf8::encode_utf8(v).len() % 2 != 0 {
        Err(ErrorView::Config("hex length must be even"@))
    } else {
        match hex_pairs(v) {
            HexRunView::Bytes(b) => Ok(b),
            HexRunView::Odd => Err(ErrorView::Config("hex length must be even"@)),
            HexRunView::Bad => Err(ErrorView::Config("hex is invalid"@)),
        }
    }
}

/// Bytes in hexadecimal.
pub fn hex_to_bytes(v: &str) -> (r: Result<Vec<u8>>)
    ensures
        match r {
            Ok(b) => config_hex(v@) == Ok::<Seq<u8>, ErrorView>(b@),
            Err(e) => config_hex(v@) == Err::<Seq<u8>, ErrorView>(e.deep_view()),
        },
{
    if v.as_bytes().len() % 2 != 0 {
        return Err(Error::config("hex length must be even"));
    }
    match decode_hex_pairs(v) {
        HexRun::Bytes(b) => Ok(b),
        HexRun::Odd => Err(Error::config("hex length must be even")),
        HexRun::Bad => Err(Error::config("hex is invalid")),
    }
}

/// A hexadecimal text without `0x` and white space.
pub open spec fn bare_hex(v: Seq<char>) -> Seq<char> {
    let t = trim(v);
    match strip_prefix(t, "0x"@) {
        Some(rest) => rest,
        None => match strip_prefix(t, "0X"@) {
            Some(rest) => rest,
            None => t,
        },
    }
}

/// A hexadecimal text without `0x` and white space.
pub fn strip_hex_prefix<'a>(v: &'a str) -> (r: &'a str)
    ensures
        r@ == bare_hex(v@),
{
    let t: &str = trimmed(v);
    match without_prefix(t, "0x") {
        Some(rest) => rest,
        None => match without_prefix(t, "0X") {
            Some(rest) => rest,
            None => t,
        },
    }
}

/// The name of a method in messages.
pub open spec fn method_name(method: EncryptionMethod) -> Seq<char> {
    match method {
        EncryptionMethod::Unencrypted => "NONE"@,
        EncryptionMethod::Aes128 => "AES_128"@,
        EncryptionMethod::Aes128Ecb => "AES_128_ECB"@,
        EncryptionMethod::SampleAes => "SAMPLE_AES"@,
        EncryptionMethod::SampleAesCtr => "SAMPLE_AES_CTR"@,
        EncryptionMethod::Cenc => "CENC"@,
        EncryptionMethod::Chacha20 => "CHACHA20"@,
        EncryptionMethod::Unknown => "UNKNOWN"@,
    }
}

pub(crate) fn encryption_method_compat_name(method: EncryptionMethod) -> (r: &'static str)
    ensures
        r@ == method_name(method),
{
    match method {
        EncryptionMethod::Unencrypted => "NONE",
        EncryptionMethod::Aes128 => "AES_128",
        EncryptionMethod::Aes128Ecb => "AES_128_ECB",
        EncryptionMethod::SampleAes => "SAMPLE_AES",
        EncryptionMethod::SampleAesCtr => "SAMPLE_AES_CTR",
        EncryptionMethod::Cenc => "CENC",
        EncryptionMethod::Chacha20 => "CHACHA20",
        EncryptionMethod::Unknown => "UNKNOWN",
    }
}

/// A key line that was read: what it says, and the URI that the key has to be loaded from.
#[derive(Debug)]
pub struct KeyLine {
    pub info: EncryptionInfo,
    pub method_text: String,
    pub uri: Option<String>,
}

/// Model of `KeyLine`.
pub struct KeyLineView {
    pub info: EncryptionInfoView,
    pub method_text: Seq<char>,
    pub uri: Option<Seq<char>>,
}

impl DeepView for KeyLine {
    type V = KeyLineView;

    open spec fn deep_view(&self) -> KeyLineView {
        KeyLineView {
            info: self.info.deep_view(),
            method_text: self.method_text@,
            uri: self.uri.deep_view(),
        }
    }
}

/// A text, empty where there is none.
pub open spec fn or_empty(o: Option<Seq<char>>) -> Seq<char> {
    match o {
        Some(s) => s,
        None => ""@,
    }
}

/// What a key line says, before the key is loaded. With a key given by the user there is nothing to
/// load.
pub open spec fn key_line_of(line: Seq<char>, config: ParserConfigView) -> core::result::Result<
    KeyLineView,
    ErrorView,
> {
    match (attribute_of(line, "METHOD"@), attribute_of(line, "URI"@), attribute_of(line, "IV"@)) {
        (Err(e), _, _) => Err(e),
        (_, Err(e), _) => Err(e),
        (_, _, Err(e)) => Err(e),
        (Ok(method), Ok(uri), Ok(iv)) => {
            let iv_bytes = match iv {
                None => Ok(None),
                Some(v) => match config_hex(bare_hex(v)) {
                    Ok(b) => Ok(Some(b)),
                    Err(e) => Err(e),
                },
            };
            match iv_bytes {
                Err(e) => Err(e),
                Ok(bytes) => {
                    let own_key = solid_bytes(config.custom_key);
                    let own_iv = solid_bytes(config.custom_iv);
                    let named = method_of_token(method);
                    let info = EncryptionInfoView {
                        method: if own_key is None && uri is None && named
                            != EncryptionMethod::Unencrypted {
                            EncryptionMethod::Unknown
                        } else {
                            named
                        },
                        iv: if own_iv is Some {
                            own_iv
                        } else {
                            bytes
                        },
                        key: own_key,
                        source: if own_key is Some {
                            KeySource::Custom
                        } else {
                            KeySource::Absent
                        },
                        ..no_encryption()
                    };
                    Ok(
                        KeyLineView {
                            info,
                            method_text: or_empty(method),
                            uri: if own_key is Some {
                                None
                            } else {
                                uri
                            },
                        },
                    )
                },
            }
        },
    }
}

/// The message about a key line.
pub open spec fn key_line_note(line: Seq<char>) -> Seq<char> {
    "METHOD:"@ + or_empty(attribute_of(line, "METHOD"@)->Ok_0) + ",URI:"@ + or_empty(
        attribute_of(line, "URI"@)->Ok_0,
    ) + ",IV:"@ + or_empty(attribute_of(line, "IV"@)->Ok_0)
}

/// The messages about a key line: one where its attributes can be read.
pub open spec fn key_line_notes(line: Seq<char>) -> Seq<ParserDiagnosticView> {
    if attribute_of(line, "METHOD"@) is Ok && attribute_of(line, "URI"@) is Ok && attribute_of(
        line,
        "IV"@,
    ) is Ok {
        seq![note(LogLevel::Debug, key_line_note(line))]
    } else {
        Seq::empty()
    }
}

fn text_or_empty(o: &Option<String>) -> (r: &str)
    ensures
        r@ == or_empty(o.deep_view()),
{
    match o {
        Some(s) => s.as_str(),
        None => "",
    }
}

/// Reads a key line; the message about it is left where its attributes can be read.
pub fn read_key_line(line: &str, config: &ParserConfig, diagnostics: &mut ParserDiagnostics) -> (r:
    Result<KeyLine>)
    ensures
        view_result(r) == key_line_of(line@, config.deep_view()),
        final(diagnostics).deep_view() == old(diagnostics).deep_view() + key_line_notes(line@),
{
    let ghost start = diagnostics.deep_view();
    assert(start + Seq::<ParserDiagnosticView>::empty() =~= start);
    let method: Option<String> = hls_attribute(line, "METHOD")?;
    let uri: Option<String> = hls_attribute(line, "URI")?;
    let iv: Option<String> = hls_attribute(line, "IV")?;
    let mut message: String = cat2("METHOD:", text_or_empty(&method));
    message.append(",URI:");
    message.append(text_or_empty(&uri));
    message.append(",IV:");
    message.append(text_or_empty(&iv));
    diagnostics.push(LogLevel::Debug, message.as_str());
    assert(diagnostics.deep_view() =~= start + key_line_notes(line@));
    let method_text: String = owned(text_or_empty(&method));
    let token: Option<&str> = match &method {
        Some(m) => Some(m.as_str()),
        None => None,
    };
    let mut info: EncryptionInfo = EncryptionInfo::default();
    info.method = EncryptionMethod::parse(token);
    match iv {
        Some(v) => {
            let bytes: Vec<u8> = hex_to_bytes(strip_hex_prefix(v.as_str()))?;
            info.iv = Some(bytes);
        },
        None => {},
    }
    let own_iv: Option<Vec<u8>> = copy_solid(&config.custom_iv);
    if own_iv.is_some() {
        info.iv = own_iv;
    }
    let own_key: Option<Vec<u8>> = copy_solid(&config.custom_key);
    if own_key.is_some() {
        info.key = own_key;
        info.source = KeySource::Custom;
        return Ok(KeyLine { info, method_text, uri: None });
    }
    if uri.is_none() && info.method != EncryptionMethod::Unencrypted {
        info.method = EncryptionMethod::Unknown;
    }
    Ok(KeyLine { info, method_text, uri })
}

/// A key that was loaded, or why it was not.
#[derive(Debug)]
pub enum LoadedKey {
    Key { bytes: Vec<u8>, source: KeySource },
    Failed { message: String },
}

/// Model of `LoadedKey`.
pub enum LoadedKeyView {
    Key { bytes: Seq<u8>, source: KeySource },
    Failed { message: Seq<char> },
}

impl DeepView for LoadedKey {
    type V = LoadedKeyView;

    open spec fn deep_view(&self) -> LoadedKeyView {
        match self {
            LoadedKey::Key { bytes, source } => LoadedKeyView::Key {
                bytes: bytes@,
                source: *source,
            },
            LoadedKey::Failed { message } => LoadedKeyView::Failed { message: message@ },
        }
    }
}

/// The encryption that a key line asks for, once its key is there. A key that cannot be loaded makes
/// the method unknown; a method given by the user comes last.
pub open spec fn key_info_of(
    line: KeyLineView,
    loaded: Option<LoadedKeyView>,
    config: ParserConfigView,
) -> EncryptionInfoView {
    let with_key = match loaded {
        Some(LoadedKeyView::Key { bytes, source }) => EncryptionInfoView {
            key: Some(bytes),
            source,
            ..line.info
        },
        Some(LoadedKeyView::Failed { message }) => EncryptionInfoView {
            method: EncryptionMethod::Unknown,
            ..line.info
        },
        None => line.info,
    };
    match config.custom_method {
        Some(method) => EncryptionInfoView { method, ..with_key },
        None => with_key,
    }
}

/// The messages about a loaded key.
pub open spec fn key_info_notes(
    line: KeyLineView,
    loaded: Option<LoadedKeyView>,
    config: ParserConfigView,
) -> Seq<ParserDiagnosticView> {
    let first = match loaded {
        Some(LoadedKeyView::Failed { message }) => seq![
            note(LogLevel::Error, "Failed to get KEY, ignore.: "@ + message),
        ],
        _ => Seq::empty(),
    };
    match config.custom_method {
        Some(method) => first.push(
            note(
                LogLevel::Warn,
                "METHOD changed from "@ + line.method_text + " to "@ + method_name(method),
            ),
        ),
        None => first,
    }
}

/// The encryption that a key line asks for, once its key is there.
pub fn finish_key(
    line: KeyLine,
    loaded: Option<LoadedKey>,
    config: &ParserConfig,
    diagnostics: &mut ParserDiagnostics,
) -> (r: EncryptionInfo)
    ensures
        r.deep_view() == key_info_of(line.deep_view(), loaded.deep_view(), config.deep_view()),
        final(diagnostics).deep_view() == old(diagnostics).deep_view() + key_info_notes(
            line.deep_view(),
            loaded.deep_view(),
            config.deep_view(),
        ),
{
    let ghost start = diagnostics.deep_view();
    let ghost notes = key_info_notes(line.deep_view(), loaded.deep_view(), config.deep_view());
    let KeyLine { info, method_text, uri: _ } = line;
    let mut info: EncryptionInfo = info;
    match loaded {
        Some(LoadedKey::Key { bytes, source }) => {
            info.key = Some(bytes);
            info.source = source;
        },
        Some(LoadedKey::Failed { message }) => {
            let text: String = cat2("Failed to get KEY, ignore.: ", message.as_str());
            diagnostics.push(LogLevel::Error, text.as_str());
            info.method = EncryptionMethod::Unknown;
        },
        None => {},
    }
    match config.custom_method {
        Some(method) => {
            let text: String = cat4(
                "METHOD changed from ",
                method_text.as_str(),
                " to ",
                encryption_method_compat_name(method),
            );
            diagnostics.push(LogLevel::Warn, text.as_str());
            info.method = method;
        },
        None => {},
    }
    assert(diagnostics.deep_view() =~= start + notes);
    info
}

/// The base64 part of a URI that holds its key, in any ASCII case.
pub open spec fn inline_key(uri: Seq<char>) -> Option<Seq<char>> {
    let low = lower(uri);
    if starts_with(low, "base64:"@) {
        Some(drop(uri, 7))
    } else if starts_with(low, "data:;base64,"@) {
        Some(drop(uri, 13))
    } else if starts_with(low, "data:text/plain;base64,"@) {
        Some(drop(uri, 23))
    } else {
        None
    }
}

/// The base64 part of a URI that holds its key.
pub fn inline_part<'a>(uri: &'a str) -> (r: Option<&'a str>)
    ensures
        opt(r) == inline_key(uri@),
{
    let low: String = lowered(uri);
    proof {
        reveal_strlit("base64:");
        reveal_strlit("data:;base64,");
        reveal_strlit("data:text/plain;base64,");
    }
    if begins_with(low.as_str(), "base64:") {
        Some(slice_from(uri, 7))
    } else if begins_with(low.as_str(), "data:;base64,") {
        Some(slice_from(uri, 13))
    } else if begins_with(low.as_str(), "data:text/plain;base64,") {
        Some(slice_from(uri, 23))
    } else {
        None
    }
}

/// The message about a failed attempt to load a key; a scheme that is not supported leaves none.
pub open spec fn key_retry_text(message: Seq<char>, retry_count: u32, attempt: u32) -> Option<Seq<char>> {
    let attempts = if retry_count == u32::MAX {
        u32::MAX as int
    } else {
        retry_count + 1
    };
    let left = if attempts - (attempt + 1) < 0 {
        0
    } else {
        attempts - (attempt + 1)
    };
    if contains(message, "scheme is not supported."@) {
        None
    } else {
        Some(message + " retryCount: "@ + dec(left as nat))
    }
}

/// The message about a failed attempt to load a key.
pub fn key_retry_note(message: &str, retry_count: u32, attempt: u32) -> (r: Option<String>)
    ensures
        r.deep_view() == key_retry_text(message@, retry_count, attempt),
{
    if has_text(message, "scheme is not supported.") {
        return None;
    }
    let attempts: u64 = if retry_count == u32::MAX {
        u32::MAX as u64
    } else {
        retry_count as u64 + 1
    };
    let used: u64 = attempt as u64 + 1;
    let left: u64 = if attempts < used {
        0
    } else {
        attempts - used
    };
    let count: String = u64_text(left);
    Some(cat3(message, " retryCount: ", count.as_str()))
}

/// The header lines of a request for a manifest or key.
pub open spec fn header_lines(headers: Seq<(Seq<char>, Seq<char>)>) -> Seq<Seq<char>> {
    seq!["Accept-Encoding: gzip, deflate"@, "Cache-Control: no-cache"@] + headers.map_values(
        |h: (Seq<char>, Seq<char>)| h.0 + ": "@ + h.1,
    )
}

/// The header lines of a request for a manifest or key, as one text.
pub fn format_source_http_request_headers(headers: &TextMap<String>) -> (r: String)
    ensures
        r@ == join(header_lines(headers.deep_view()), "\n"@),
{
    let mut out: Vec<String> = Vec::new();
    out.push(owned("Accept-Encoding: gzip, deflate"));
    out.push(owned("Cache-Control: no-cache"));
    let ghost all = headers.deep_view();
    let ghost fixed = seq!["Accept-Encoding: gzip, deflate"@, "Cache-Control: no-cache"@];
    let mut i: usize = 0;
    assert(out.deep_view() =~= fixed);
    while i < headers.entries.len()
        invariant
            i <= headers.entries@.len(),
            all == headers.deep_view(),
            out.deep_view() =~= fixed + all.subrange(0, i as int).map_values(
                |h: (Seq<char>, Seq<char>)| h.0 + ": "@ + h.1,
            ),
        decreases headers.entries@.len() - i,
    {
        let line: String = cat3(
            headers.entries[i].0.as_str(),
            ": ",
            headers.entries[i].1.as_str(),
        );
        assert(all[i as int] == headers.entries@[i as int].deep_view());
        let ghost before = out.deep_view();
        out.push(line);
        assert(out.deep_view() =~= before.push(line@));
        i = i + 1;
    }
    assert(all.subrange(0, all.len() as int) =~= all);
    join_texts(&out, "\n")
}

/// Two digits for each byte, with a space between the bytes.
pub open spec fn spaced_hex(b: Seq<u8>) -> Seq<char>
    decreases b.len(),
{
    if b.len() <= 1 {
        hex_text(b, false)
    } else {
        spaced_hex(b.drop_last()) + " "@ + hex_text(seq![b.last()], false)
    }
}

/// Two digits for each byte, with a space between the bytes.
pub fn bytes_to_spaced_hex(b: &Vec<u8>) -> (r: String)
    ensures
        r@ == spaced_hex(b@),
{
    let mut out: String = String::new();
    let mut i: usize = 0;
    assert(b@.subrange(0, 0) =~= Seq::<u8>::empty());
    while i < b.len()
        invariant
            i <= b@.len(),
            out@ == spaced_hex(b@.subrange(0, i as int)),
        decreases b@.len() - i,
    {
        let ghost now = b@.subrange(0, i + 1);
        let ghost before = out@;
        assert(now.drop_last() =~= b@.subrange(0, i as int));
        let mut one: Vec<u8> = Vec::new();
        one.push(b[i]);
        assert(one@ =~= seq![now.last()]);
        if i > 0 {
            out.append(" ");
        } else {
            assert(now =~= one@);
        }
        let pair: String = bytes_to_hex(&one, false);
        out.append(pair.as_str());
        assert(i == 0 ==> out@ =~= pair@);
        i = i + 1;
    }
    assert(b@.subrange(0, b@.len() as int) =~= b@);
    out
}

} // verus!
