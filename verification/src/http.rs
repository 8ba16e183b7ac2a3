//! Requests and responses: redirects, encodings of bodies, and what a body looks like.

use crate::config::{DownloadOptions, Toggle};
use crate::error::{Error, ErrorView, Result};
use crate::outside::{
    brotli_plain, deflate_plain, gunzip, gzip_plain, inflate, inflate_raw, join_url, joined_url,
    unbrotli, url_error, url_error_of, zlib_plain,
};
use crate::processor::{format_source_http_request_headers, header_lines};
use crate::text::{
    begins_with, cat2, cat3, cat4, dec, drop, find, find_text, join, join_texts, lower, lowered,
    owned, rcut_once, replace, replace_text, rsplit_once, same, slice, slice_from, split,
    split_text, starts_with, take, trim, trim_end, trimmed, trimmed_end, u64_text,
};
use crate::text_map::{lookup, put, TextMap};
use vstd::prelude::*;

verus! {

/// How many idle connections to one host are kept.
pub const HTTP_CONNECTION_POOL_LIMIT: usize = 1024;

/// How often a source is asked for.
pub const SOURCE_RETRY_ATTEMPTS: usize = 10;

/// The milliseconds between two requests for a source.
pub const SOURCE_RETRY_DELAY_MILLIS: u64 = 1500;

/// How often a live manifest is asked for.
pub const LIVE_REFRESH_RETRY_ATTEMPTS: usize = 5;

/// The milliseconds between two requests for a live manifest.
pub const LIVE_REFRESH_RETRY_DELAY_MILLIS: u64 = 1000;

/// A request.
#[derive(Debug)]
pub struct HttpRequest {
    pub url: String,
    pub headers: TextMap<String>,
}

impl HttpRequest {
    /// A request without headers.
    pub fn new(url: &str) -> (r: Self)
        ensures
            r.url@ == url@,
            r.headers.deep_view() == Seq::<(Seq<char>, Seq<char>)>::empty(),
            r.headers.wf(),
    {
        HttpRequest { url: owned(url), headers: TextMap::new() }
    }
}

/// A response.
#[derive(Debug)]
pub struct HttpResponse {
    pub status: u16,
    pub final_url: String,
    pub headers: TextMap<String>,
    pub body: Vec<u8>,
    pub debug_logs: Vec<String>,
}

/// Through which proxy requests go.
#[derive(Debug, PartialEq, Eq)]
pub enum ProxyMode {
    System,
    Disabled,
    Custom(String),
}

/// Model of `ProxyMode`.
pub enum ProxyModeView {
    System,
    Disabled,
    Custom(Seq<char>),
}

impl DeepView for ProxyMode {
    type V = ProxyModeView;

    open spec fn deep_view(&self) -> ProxyModeView {
        match self {
            ProxyMode::System => ProxyModeView::System,
            ProxyMode::Disabled => ProxyModeView::Disabled,
            ProxyMode::Custom(p) => ProxyModeView::Custom(p@),
        }
    }
}

impl Default for ProxyMode {
    fn default() -> (r: Self)
        ensures
            r.deep_view() == ProxyModeView::System,
    {
        ProxyMode::System
    }
}

/// How requests are made.
#[derive(Debug, PartialEq, Eq)]
pub struct DefaultHttpClient {
    /// In seconds, as decimal text.
    timeout: String,
    proxy_mode: ProxyMode,
    allow_insecure_tls: bool,
}

/// Model of `DefaultHttpClient`.
pub struct DefaultHttpClientView {
    pub timeout: Seq<char>,
    pub proxy_mode: ProxyModeView,
    pub allow_insecure_tls: bool,
}

impl DeepView for DefaultHttpClient {
    type V = DefaultHttpClientView;

    closed spec fn deep_view(&self) -> DefaultHttpClientView {
        DefaultHttpClientView {
            timeout: self.timeout@,
            proxy_mode: self.proxy_mode.deep_view(),
            allow_insecure_tls: self.allow_insecure_tls,
        }
    }
}

impl DefaultHttpClient {
    /// A hundred seconds, the proxy of the system, and certificates that are checked.
    pub fn new() -> (r: Self)
        ensures
            r.deep_view() == (DefaultHttpClientView {
                timeout: "100"@,
                proxy_mode: ProxyModeView::System,
                allow_insecure_tls: false,
            }),
    {
        DefaultHttpClient {
            timeout: owned("100"),
            proxy_mode: ProxyMode::System,
            allow_insecure_tls: false,
        }
    }

    /// As the options say: a proxy that is given comes before that of the system.
    pub fn from_options(options: &DownloadOptions) -> (r: Self)
        ensures
            r.deep_view() == (DefaultHttpClientView {
                timeout: options.deep_view().http_request_timeout,
                proxy_mode: match options.deep_view().custom_proxy {
                    Some(p) => ProxyModeView::Custom(p),
                    None => if options.deep_view().use_system_proxy == Toggle::On {
                        ProxyModeView::System
                    } else {
                        ProxyModeView::Disabled
                    },
                },
                allow_insecure_tls: options.deep_view().allow_insecure_tls == Toggle::On,
            }),
    {
        proof {
            reveal(crate::config::options_view);
        }
        let proxy_mode: ProxyMode = match &options.custom_proxy {
            Some(p) => ProxyMode::Custom(p.clone()),
            None => match options.use_system_proxy {
                Toggle::On => ProxyMode::System,
                Toggle::Off => ProxyMode::Disabled,
            },
        };
        let insecure: bool = match options.allow_insecure_tls {
            Toggle::On => true,
            Toggle::Off => false,
        };
        DefaultHttpClient {
            timeout: options.http_request_timeout.clone(),
            proxy_mode,
            allow_insecure_tls: insecure,
        }
    }

    pub fn with_timeout(self, timeout: String) -> (r: Self)
        ensures
            r.deep_view() == (DefaultHttpClientView { timeout: timeout@, ..self.deep_view() }),
    {
        DefaultHttpClient { timeout, ..self }
    }

    pub fn with_proxy_mode(self, proxy_mode: ProxyMode) -> (r: Self)
        ensures
            r.deep_view() == (DefaultHttpClientView {
                proxy_mode: proxy_mode.deep_view(),
                ..self.deep_view()
            }),
    {
        DefaultHttpClient { proxy_mode, ..self }
    }

    pub fn with_insecure_tls(self, allow: bool) -> (r: Self)
        ensures
            r.deep_view() == (DefaultHttpClientView {
                allow_insecure_tls: allow,
                ..self.deep_view()
            }),
    {
        DefaultHttpClient { allow_insecure_tls: allow, ..self }
    }

    pub fn timeout(&self) -> (r: &str)
        ensures
            r@ == self.deep_view().timeout,
    {
        self.timeout.as_str()
    }

    pub fn proxy_mode(&self) -> (r: &ProxyMode)
        ensures
            r.deep_view() == self.deep_view().proxy_mode,
    {
        &self.proxy_mode
    }

    pub fn allow_insecure_tls(&self) -> (r: bool)
        ensures
            r == self.deep_view().allow_insecure_tls,
    {
        self.allow_insecure_tls
    }

    /// A message of an error without the name and password of the proxy.
    pub fn redact_error(&self, message: &str) -> (r: String)
        ensures
            r@ == match self.deep_view().proxy_mode {
                ProxyModeView::Custom(proxy) => without_proxy_secret(proxy, message@),
                _ => message@,
            },
    {
        match &self.proxy_mode {
            ProxyMode::Custom(proxy) => redact_proxy_error_message(proxy.as_str(), message),
            _ => owned(message),
        }
    }
}

/// A proxy without its name and password.
pub open spec fn shown_proxy(value: Seq<char>) -> Seq<char> {
    match find(value, "://"@) {
        None => value,
        Some(i) => match find(drop(value, i + 3), "@"@) {
            None => value,
            Some(k) => take(value, i + 3) + "***@"@ + drop(value, i + 3 + k + 1),
        },
    }
}

fn redact_proxy_url(value: &str) -> (r: String)
    ensures
        r@ == shown_proxy(value@),
{
    proof {
        reveal_strlit("://");
        reveal_strlit("@");
    }
    let _len: usize = value.unicode_len();
    match find_text(value, "://") {
        None => owned(value),
        Some(i) => match find_text(slice_from(value, i + 3), "@") {
            None => owned(value),
            Some(k) => cat3(
                slice(value, 0, i + 3),
                "***@",
                slice_from(value, i + 3 + k + 1),
            ),
        },
    }
}

/// A message without the name and password of a proxy.
pub open spec fn without_proxy_secret(proxy: Seq<char>, message: Seq<char>) -> Seq<char> {
    if proxy.len() == 0 {
        message
    } else {
        replace(message, proxy, shown_proxy(proxy))
    }
}

/// A message without the name and password of a proxy.
pub fn redact_proxy_error_message(proxy: &str, message: &str) -> (r: String)
    ensures
        r@ == without_proxy_secret(proxy@, message@),
{
    if proxy.unicode_len() == 0 {
        return owned(message);
    }
    let shown: String = redact_proxy_url(proxy);
    replace_text(message, proxy, shown.as_str())
}

/// How long to sleep next while waiting: fifty milliseconds at most, and not at all where the time
/// is over.
pub fn next_sleep_millis(waited_millis: u64, wait_millis: u64) -> (r: Option<u64>)
    ensures
        r == if waited_millis >= wait_millis {
            None::<u64>
        } else if wait_millis - waited_millis < 50 {
            Some((wait_millis - waited_millis) as u64)
        } else {
            Some(50u64)
        },
{
    if waited_millis >= wait_millis {
        None
    } else if wait_millis - waited_millis < 50 {
        Some(wait_millis - waited_millis)
    } else {
        Some(50)
    }
}

/// The parts of a path that lead on: a dot leads nowhere, two dots lead back.
pub open spec fn path_steps(parts: Seq<Seq<char>>, n: int) -> Seq<Seq<char>>
    decreases n,
{
    if n <= 0 {
        Seq::empty()
    } else {
        let before = path_steps(parts, n - 1);
        let part = parts[n - 1];
        if part.len() == 0 || part == "."@ {
            before
        } else if part == ".."@ {
            if before.len() > 0 {
                before.drop_last()
            } else {
                before
            }
        } else {
            before.push(part)
        }
    }
}

/// A path without dots.
pub open spec fn normal_path(path: Seq<char>) -> Seq<char> {
    let parts = split(path, "/"@);
    "/"@ + join(path_steps(parts, parts.len() as int), "/"@)
}

/// No part of a normal path is empty or made of one or two dots.
pub proof fn law_normal_paths_hold_no_dots(parts: Seq<Seq<char>>, n: int, i: int)
    requires
        0 <= n <= parts.len(),
        0 <= i < path_steps(parts, n).len(),
    ensures
        path_steps(parts, n)[i].len() > 0,
        path_steps(parts, n)[i] != "."@,
        path_steps(parts, n)[i] != ".."@,
    decreases n,
{
    if n > 0 && i < path_steps(parts, n - 1).len() {
        law_normal_paths_hold_no_dots(parts, n - 1, i);
    }
}

pub(crate) fn normalize_url_path(path: &str) -> (r: String)
    ensures
        r@ == normal_path(path@),
{
    proof {
        reveal_strlit("/");
    }
    let parts: Vec<String> = split_text(path, "/");
    let ghost all = parts.deep_view();
    let mut steps: Vec<String> = Vec::new();
    let mut i: usize = 0;
    assert(steps.deep_view() =~= Seq::<Seq<char>>::empty());
    while i < parts.len()
        invariant
            i <= parts@.len(),
            all == parts.deep_view(),
            steps.deep_view() == path_steps(all, i as int),
        decreases parts@.len() - i,
    {
        assert(all[i as int] == parts@[i as int]@);
        let part: &str = parts[i].as_str();
        let ghost before = steps.deep_view();
        if part.unicode_len() == 0 || same(part, ".") {
        } else if same(part, "..") {
            if steps.len() > 0 {
                let _gone: Option<String> = steps.pop();
                assert(steps.deep_view() =~= before.drop_last());
            }
        } else {
            steps.push(owned(part));
            assert(steps.deep_view() =~= before.push(all[i as int]));
        }
        i = i + 1;
    }
    let joined: String = join_texts(&steps, "/");
    cat2("/", joined.as_str())
}

/// Scheme and host of a URL, and what follows them.
pub open spec fn origin_and_path(url: Seq<char>) -> Option<(Seq<char>, Seq<char>)> {
    match find(url, "://"@) {
        None => None,
        Some(i) => match find(drop(url, i + 3), "/"@) {
            Some(k) => Some((take(url, i + 3 + k), drop(url, i + 3 + k))),
            None => Some((url, Seq::empty())),
        },
    }
}

pub(crate) fn split_url_origin_and_path<'a>(url: &'a str) -> (r: Option<(&'a str, &'a str)>)
    ensures
        crate::text::opt_pair(r) == origin_and_path(url@),
{
    proof {
        reveal_strlit("://");
        reveal_strlit("/");
    }
    let len: usize = url.unicode_len();
    match find_text(url, "://") {
        None => None,
        Some(i) => match find_text(slice_from(url, i + 3), "/") {
            Some(k) => Some((slice(url, 0, i + 3 + k), slice_from(url, i + 3 + k))),
            None => {
                let rest: &'a str = slice_from(url, len);
                assert(rest@ =~= Seq::<char>::empty());
                Some((url, rest))
            },
        },
    }
}

/// Where the path of a reference ends: at the first question mark or hash sign.
pub open spec fn path_end(value: Seq<char>) -> int {
    match (find(value, "?"@), find(value, "#"@)) {
        (Some(a), Some(b)) => if a < b {
            a
        } else {
            b
        },
        (Some(a), None) => a,
        (None, Some(b)) => b,
        (None, None) => value.len() as int,
    }
}

pub(crate) fn find_path_end(value: &str) -> (r: usize)
    ensures
        r == path_end(value@),
        r <= value@.len(),
{
    proof {
        reveal_strlit("?");
        reveal_strlit("#");
    }
    match (find_text(value, "?"), find_text(value, "#")) {
        (Some(a), Some(b)) => if a < b {
            a
        } else {
            b
        },
        (Some(a), None) => a,
        (None, Some(b)) => b,
        (None, None) => value.unicode_len(),
    }
}

/// The directory of a path.
pub open spec fn directory_of(path: Seq<char>) -> Seq<char> {
    match rsplit_once(path, "/"@) {
        Some((prefix, _)) => prefix + "/"@,
        None => "/"@,
    }
}

/// Where a redirect leads: as a URL is joined to another; where that is impossible, by the texts.
pub open spec fn redirect_target(base: Seq<char>, location: Seq<char>) -> Seq<char> {
    match joined_url(base, location) {
        Some(u) => u,
        None => if url_error_of(location) is None {
            location
        } else {
            match origin_and_path(base) {
                None => location,
                Some((origin, base_path)) => {
                    let path = take(location, path_end(location));
                    let suffix = drop(location, path_end(location));
                    origin + normal_path(
                        if starts_with(path, "/"@) {
                            path
                        } else {
                            directory_of(base_path) + path
                        },
                    ) + suffix
                },
            }
        },
    }
}

/// Where a redirect leads.
pub fn resolve_redirect(base: &str, location: &str) -> (r: String)
    ensures
        r@ == redirect_target(base@, location@),
{
    match join_url(base, location) {
        Some(u) => {
            return u;
        },
        None => {},
    }
    if url_error(location).is_none() {
        return owned(location);
    }
    match split_url_origin_and_path(base) {
        None => owned(location),
        Some((origin, base_path)) => {
            let end: usize = find_path_end(location);
            let path: &str = slice(location, 0, end);
            assert(path@ =~= take(location@, end as int));
            let suffix: &str = slice_from(location, end);
            let joined: String = if begins_with(path, "/") {
                normalize_url_path(path)
            } else {
                let directory: String = match rcut_once(base_path, "/") {
                    Some((prefix, _)) => cat2(prefix, "/"),
                    None => owned("/"),
                };
                let whole: String = cat2(directory.as_str(), path);
                normalize_url_path(whole.as_str())
            };
            cat3(origin, joined.as_str(), suffix)
        },
    }
}

/// What a response to a request calls for.
#[derive(Debug)]
pub enum ResponseStep {
    /// The request is made again for another URL.
    Follow(String),
    /// The request has failed.
    Fail(Error),
    /// The body is read.
    Take,
}

/// Model of `ResponseStep`.
pub enum ResponseStepView {
    Follow(Seq<char>),
    Fail(ErrorView),
    Take,
}

impl DeepView for ResponseStep {
    type V = ResponseStepView;

    open spec fn deep_view(&self) -> ResponseStepView {
        match self {
            ResponseStep::Follow(u) => ResponseStepView::Follow(u@),
            ResponseStep::Fail(e) => ResponseStepView::Fail(e.deep_view()),
            ResponseStep::Take => ResponseStepView::Take,
        }
    }
}

/// The URL to which a response redirects, where that is another than it came from.
pub open spec fn redirected(url: Seq<char>, status: u16, location: Option<Seq<char>>) -> Option<
    Seq<char>,
> {
    match location {
        Some(l) => if 300 <= status <= 399 && redirect_target(url, l) != url {
            Some(redirect_target(url, l))
        } else {
            None
        },
        None => None,
    }
}

/// What a response calls for: a redirect to another URL is followed, then only success is taken.
pub open spec fn response_step(url: Seq<char>, status: u16, location: Option<Seq<char>>) -> ResponseStepView {
    match redirected(url, status, location) {
        Some(u) => ResponseStepView::Follow(u),
        None => if 200 <= status <= 299 {
            ResponseStepView::Take
        } else {
            ResponseStepView::Fail(
                ErrorView::Http("HTTP status "@ + dec(status as nat) + " for "@ + url),
            )
        },
    }
}

/// The URL to which a response redirects, where that is another than it came from.
pub fn follow_redirect(url: &str, status: u16, location: Option<&str>) -> (r: Option<String>)
    ensures
        r.deep_view() == redirected(url@, status, crate::text::opt(location)),
{
    match location {
        Some(l) => {
            if 300 <= status && status <= 399 {
                let target: String = resolve_redirect(url, l);
                if !same(target.as_str(), url) {
                    return Some(target);
                }
            }
            None
        },
        None => None,
    }
}

/// What a response calls for.
pub fn after_response(url: &str, status: u16, location: Option<&str>) -> (r: ResponseStep)
    ensures
        r.deep_view() == response_step(url@, status, crate::text::opt(location)),
{
    match follow_redirect(url, status, location) {
        Some(u) => {
            return ResponseStep::Follow(u);
        },
        None => {},
    }
    if 200 <= status && status <= 299 {
        return ResponseStep::Take;
    }
    let number: String = u64_text(status as u64);
    let message: String = cat4("HTTP status ", number.as_str(), " for ", url);
    ResponseStep::Fail(Error::http(message.as_str()))
}

/// The headers of a response by their names in lower case; of two with one name the last counts.
pub open spec fn header_map(headers: Seq<(Seq<char>, Seq<char>)>, n: int) -> Seq<
    (Seq<char>, Seq<char>),
>
    decreases n,
{
    if n <= 0 {
        Seq::empty()
    } else {
        put(header_map(headers, n - 1), lower(headers[n - 1].0), headers[n - 1].1)
    }
}

/// The headers of a response by their names in lower case.
pub fn response_headers(headers: &Vec<(String, String)>) -> (r: TextMap<String>)
    ensures
        r.deep_view() == header_map(headers.deep_view(), headers@.len() as int),
        r.wf(),
{
    let ghost all = headers.deep_view();
    let mut out: TextMap<String> = TextMap::new();
    let mut i: usize = 0;
    while i < headers.len()
        invariant
            i <= headers@.len(),
            all == headers.deep_view(),
            out.deep_view() == header_map(all, i as int),
            out.wf(),
        decreases headers@.len() - i,
    {
        assert(all[i as int] == (headers@[i as int].0@, headers@[i as int].1@));
        out.insert(lowered(headers[i].0.as_str()), headers[i].1.clone());
        i = i + 1;
    }
    out
}

/// The first `n` headers, each on a line of its own.
pub open spec fn listed_headers(headers: Seq<(Seq<char>, Seq<char>)>, n: int) -> Seq<char>
    decreases n,
{
    if n <= 0 {
        Seq::empty()
    } else {
        listed_headers(headers, n - 1) + headers[n - 1].0 + ": "@ + headers[n - 1].1 + "\n"@
    }
}

/// The headers of a response, each on a line of its own.
pub fn format_response_headers(headers: &Vec<(String, String)>) -> (r: String)
    ensures
        r@ == trim_end(listed_headers(headers.deep_view(), headers@.len() as int)),
{
    let ghost all = headers.deep_view();
    let mut out: String = String::new();
    let mut i: usize = 0;
    while i < headers.len()
        invariant
            i <= headers@.len(),
            all == headers.deep_view(),
            out@ == listed_headers(all, i as int),
        decreases headers@.len() - i,
    {
        assert(all[i as int] == (headers@[i as int].0@, headers@[i as int].1@));
        out.append(headers[i].0.as_str());
        out.append(": ");
        out.append(headers[i].1.as_str());
        out.append("\n");
        i = i + 1;
    }
    owned(trimmed_end(out.as_str()))
}

/// The messages about a redirect: the headers that came, the URL that is asked for, and the headers
/// that go with it.
pub fn redirect_logs(
    response: &Vec<(String, String)>,
    redirected: &str,
    request: &TextMap<String>,
) -> (r: Vec<String>)
    ensures
        r.deep_view() == seq![
            trim_end(listed_headers(response.deep_view(), response@.len() as int)),
            "Fetch: "@ + redirected@,
            join(header_lines(request.deep_view()), "\n"@),
        ],
{
    let mut out: Vec<String> = Vec::new();
    let first: String = format_response_headers(response);
    let second: String = cat2("Fetch: ", redirected);
    let third: String = format_source_http_request_headers(request);
    let ghost views = seq![first@, second@, third@];
    out.push(first);
    out.push(second);
    out.push(third);
    assert(out.deep_view() =~= views);
    out
}

/// A body with one encoding undone. Gzip data are known by their first two bytes; data in a deflate
/// or brotli encoding that cannot be read stay as they are.
pub open spec fn decoded_once(encoding: Seq<char>, body: Seq<u8>) -> core::result::Result<
    Seq<u8>,
    ErrorView,
> {
    if encoding == "gzip"@ {
        if body.len() >= 2 && body[0] == 0x1f && body[1] == 0x8b {
            match gzip_plain(body) {
                Ok(b) => Ok(b),
                Err(e) => Err(ErrorView::Io(e)),
            }
        } else {
            Ok(body)
        }
    } else if encoding == "deflate"@ {
        match zlib_plain(body) {
            Ok(b) => Ok(b),
            Err(_) => match deflate_plain(body) {
                Ok(b) => Ok(b),
                Err(_) => Ok(body),
            },
        }
    } else if encoding == "br"@ {
        match brotli_plain(body) {
            Ok(b) => Ok(b),
            Err(_) => Ok(body),
        }
    } else {
        Ok(body)
    }
}

/// A body with the first `n` encodings undone.
pub open spec fn decoded_by(encodings: Seq<Seq<char>>, n: int, body: Seq<u8>) -> core::result::Result<
    Seq<u8>,
    ErrorView,
>
    decreases n,
{
    if n <= 0 {
        Ok(body)
    } else {
        match decoded_by(encodings, n - 1, body) {
            Err(e) => Err(e),
            Ok(b) => decoded_once(lower(trim(encodings[n - 1])), b),
        }
    }
}

/// A body with the encodings undone that the headers list.
pub open spec fn decoded_body(body: Seq<u8>, headers: Seq<(Seq<char>, Seq<char>)>) -> core::result::Result<
    Seq<u8>,
    ErrorView,
> {
    match lookup(headers, "content-encoding"@) {
        None => Ok(body),
        Some(list) => {
            let encodings = split(list, ","@);
            decoded_by(encodings, encodings.len() as int, body)
        },
    }
}

/// Model of bytes that were decoded.
pub open spec fn view_body(r: Result<Vec<u8>>) -> core::result::Result<Seq<u8>, ErrorView> {
    match r {
        Ok(b) => Ok(b@),
        Err(e) => Err(e.deep_view()),
    }
}

/// A body with one encoding undone.
pub fn decode_once(encoding: &str, body: Vec<u8>) -> (r: Result<Vec<u8>>)
    ensures
        view_body(r) == decoded_once(encoding@, body@),
{
    if same(encoding, "gzip") {
        if body.len() >= 2 && body[0] == 0x1f && body[1] == 0x8b {
            return match gunzip(&body) {
                Ok(b) => Ok(b),
                Err(e) => Err(Error::io(e.as_str())),
            };
        }
        return Ok(body);
    }
    if same(encoding, "deflate") {
        return match inflate(&body) {
            Ok(b) => Ok(b),
            Err(_) => match inflate_raw(&body) {
                Ok(b) => Ok(b),
                Err(_) => Ok(body),
            },
        };
    }
    if same(encoding, "br") {
        return match unbrotli(&body) {
            Ok(b) => Ok(b),
            Err(_) => Ok(body),
        };
    }
    Ok(body)
}

proof fn lemma_decoding_stops(encodings: Seq<Seq<char>>, n: int, body: Seq<u8>)
    requires
        0 <= n <= encodings.len(),
        decoded_by(encodings, n, body) is Err,
    ensures
        decoded_by(encodings, encodings.len() as int, body) == decoded_by(encodings, n, body),
    decreases encodings.len() - n,
{
    if n < encodings.len() {
        lemma_decoding_stops(encodings, n + 1, body);
    }
}

/// A body with the encodings undone that the headers list.
pub fn decode_content_body(body: Vec<u8>, headers: &TextMap<String>) -> (r: Result<Vec<u8>>)
    ensures
        view_body(r) == decoded_body(body@, headers.deep_view()),
{
    let list: &String = match headers.get("content-encoding") {
        None => {
            return Ok(body);
        },
        Some(l) => l,
    };
    proof {
        reveal_strlit(",");
    }
    let encodings: Vec<String> = split_text(list.as_str(), ",");
    let ghost all = encodings.deep_view();
    let ghost start = body@;
    let mut decoded: Vec<u8> = body;
    let mut i: usize = 0;
    while i < encodings.len()
        invariant
            i <= encodings@.len(),
            all == encodings.deep_view(),
            lookup(headers.deep_view(), "content-encoding"@) is Some,
            all == split(lookup(headers.deep_view(), "content-encoding"@)->0, ","@),
            decoded_by(all, i as int, start) == Ok::<Seq<u8>, ErrorView>(decoded@),
            start == body@,
        decreases encodings@.len() - i,
    {
        assert(all[i as int] == encodings@[i as int]@);
        let word: String = lowered(trimmed(encodings[i].as_str()));
        match decode_once(word.as_str(), decoded) {
            Ok(b) => {
                decoded = b;
            },
            Err(e) => {
                proof {
                    lemma_decoding_stops(all, i + 1, start);
                }
                return Err(e);
            },
        }
        i = i + 1;
    }
    Ok(decoded)
}

/// How many of the first `n` packets begin with the byte that marks one.
pub open spec fn marked_packets(b: Seq<u8>, n: int) -> int
    decreases n,
{
    if n <= 0 {
        0
    } else {
        marked_packets(b, n - 1) + if b[(n - 1) * 188] == 0x47 {
            1int
        } else {
            0int
        }
    }
}

/// Whether bytes are an MPEG transport stream: of the first five packets three are marked.
pub open spec fn is_transport_stream(b: Seq<u8>) -> bool {
    let packets = if b.len() / 188 < 5 {
        b.len() / 188
    } else {
        5
    };
    b.len() >= 188 && marked_packets(b, packets as int) >= 3
}

/// Whether bytes are an MPEG transport stream.
pub fn source_probe_is_mpeg2_ts(b: &Vec<u8>) -> (r: bool)
    ensures
        r == is_transport_stream(b@),
{
    if b.len() < 188 {
        return false;
    }
    let packets: usize = if b.len() / 188 < 5 {
        b.len() / 188
    } else {
        5
    };
    let mut marked: usize = 0;
    let mut i: usize = 0;
    while i < packets
        invariant
            i <= packets <= 5,
            marked <= i,
            packets * 188 <= b@.len(),
            marked == marked_packets(b@, i as int),
        decreases packets - i,
    {
        if b[i * 188] == 0x47 {
            marked = marked + 1;
        }
        i = i + 1;
    }
    marked >= 3
}

/// A printable ASCII byte, a tab or a line end.
pub open spec fn is_text_byte(b: u8) -> bool {
    (0x20 <= b <= 0x7e) || b == 9 || b == 10 || b == 13
}

/// How many bytes a character takes that begins with a byte.
pub open spec fn sequence_length(b: u8) -> int {
    if b & 0x80u8 == 0 {
        1
    } else if b & 0xe0u8 == 0xc0 {
        2
    } else if b & 0xf0u8 == 0xe0 {
        3
    } else if b & 0xf8u8 == 0xf0 {
        4
    } else {
        1
    }
}

/// Bytes that go on with a character.
pub open spec fn all_follow(b: Seq<u8>, from: int, to: int) -> bool {
    forall|i: int| from <= i < to ==> (#[trigger] b[i]) & 0xc0u8 == 0x80
}

/// A character of more than one byte at a position.
pub open spec fn wide_character(b: Seq<u8>, i: int) -> bool {
    sequence_length(b[i]) > 1 && i + sequence_length(b[i]) <= b.len() && all_follow(
        b,
        i + 1,
        i + sequence_length(b[i]),
    )
}

/// What bytes turned out to be.
pub struct TextCount {
    pub has_zero: bool,
    /// Characters, and bytes that belong to none.
    pub total: nat,
    /// Bytes that belong to no character.
    pub non_text: nat,
}

/// What the bytes from a position on turn out to be, up to the first zero.
pub open spec fn count_text(b: Seq<u8>, i: int) -> TextCount
    decreases b.len() - i,
{
    if i < 0 || i >= b.len() {
        TextCount { has_zero: false, total: 0, non_text: 0 }
    } else if b[i] == 0 {
        TextCount { has_zero: true, total: 1, non_text: 0 }
    } else if is_text_byte(b[i]) {
        let rest = count_text(b, i + 1);
        TextCount { total: rest.total + 1, ..rest }
    } else if wide_character(b, i) {
        let rest = count_text(b, i + sequence_length(b[i]));
        TextCount { total: rest.total + 1, ..rest }
    } else {
        let rest = count_text(b, i + 1);
        TextCount { total: rest.total + 1, non_text: rest.non_text + 1, ..rest }
    }
}

/// Whether bytes are no text: a zero is among them, or more than three in ten belong to no
/// character.
pub open spec fn is_binary(b: Seq<u8>) -> bool {
    let c = count_text(b, 0);
    c.has_zero || c.non_text * 10 > c.total * 3
}

fn find_sequence_length(b: u8) -> (r: usize)
    ensures
        r == sequence_length(b),
        1 <= r <= 4,
{
    if b & 0x80u8 == 0 {
        1
    } else if b & 0xe0u8 == 0xc0 {
        2
    } else if b & 0xf0u8 == 0xe0 {
        3
    } else if b & 0xf8u8 == 0xf0 {
        4
    } else {
        1
    }
}

fn is_wide_character(b: &Vec<u8>, i: usize) -> (r: bool)
    requires
        i < b@.len(),
    ensures
        r == wide_character(b@, i as int),
{
    let len: usize = b.len();
    let n: usize = find_sequence_length(b[i]);
    if n <= 1 || n > len - i {
        return false;
    }
    let mut k: usize = 1;
    while k < n
        invariant
            1 <= k <= n,
            n == sequence_length(b@[i as int]),
            i + n <= len,
            len == b@.len(),
            n > 1,
            all_follow(b@, i + 1, i + k),
        decreases n - k,
    {
        if b[i + k] & 0xc0u8 != 0x80 {
            assert(b@[i + k] & 0xc0u8 != 0x80);
            return false;
        }
        k = k + 1;
    }
    true
}

/// Whether bytes are no text.
pub fn source_probe_looks_binary(b: &Vec<u8>) -> (r: bool)
    ensures
        r == is_binary(b@),
{
    let ghost whole = count_text(b@, 0);
    let len: usize = b.len();
    let mut total: u128 = 0;
    let mut non_text: u128 = 0;
    let mut i: usize = 0;
    while i < len
        invariant
            i <= len,
            len == b@.len(),
            non_text <= total <= i,
            whole == count_text(b@, 0),
            whole.has_zero == count_text(b@, i as int).has_zero,
            whole.total == total + count_text(b@, i as int).total,
            whole.non_text == non_text + count_text(b@, i as int).non_text,
        decreases len - i,
    {
        let byte: u8 = b[i];
        if byte == 0 {
            return true;
        }
        total = total + 1;
        if (0x20 <= byte && byte <= 0x7e) || byte == 9 || byte == 10 || byte == 13 {
            i = i + 1;
        } else if is_wide_character(b, i) {
            i = i + find_sequence_length(byte);
        } else {
            non_text = non_text + 1;
            i = i + 1;
        }
    }
    non_text * 10 > total * 3
}

/// A body of which only the beginning is read where it is media.
#[derive(Debug)]
pub struct ProbeBody {
    pub bytes: Vec<u8>,
    /// Whether the body is still looked at.
    pub probing: bool,
    /// Whether nothing more is read.
    pub done: bool,
}

/// Model of `ProbeBody`.
pub struct ProbeBodyView {
    pub bytes: Seq<u8>,
    pub probing: bool,
    pub done: bool,
}

impl DeepView for ProbeBody {
    type V = ProbeBodyView;

    open spec fn deep_view(&self) -> ProbeBodyView {
        ProbeBodyView { bytes: self.bytes@, probing: self.probing, done: self.done }
    }
}

/// A body after one more chunk: up to five packets it is looked at, and where it is media, no more
/// of it is read.
pub open spec fn probed(p: ProbeBodyView, chunk: Seq<u8>) -> ProbeBodyView {
    if p.done {
        p
    } else if !p.probing {
        ProbeBodyView { bytes: p.bytes + chunk, ..p }
    } else {
        let room = if p.bytes.len() < 940 {
            940 - p.bytes.len()
        } else {
            0
        };
        let n = if room < chunk.len() {
            room
        } else {
            chunk.len() as int
        };
        let head = p.bytes + chunk.subrange(0, n);
        if is_transport_stream(head) || is_binary(head) {
            ProbeBodyView { bytes: head, probing: true, done: true }
        } else if n < chunk.len() {
            ProbeBodyView { bytes: p.bytes + chunk, probing: false, done: false }
        } else {
            ProbeBodyView { bytes: head, probing: head.len() < 940, done: false }
        }
    }
}

impl ProbeBody {
    pub fn new() -> (r: Self)
        ensures
            r.deep_view() == (ProbeBodyView { bytes: Seq::empty(), probing: true, done: false }),
    {
        ProbeBody { bytes: Vec::new(), probing: true, done: false }
    }

    /// Takes one more chunk.
    pub fn read(&mut self, chunk: &Vec<u8>)
        ensures
            final(self).deep_view() == probed(old(self).deep_view(), chunk@),
    {
        let ghost before = self.bytes@;
        if self.done {
            return;
        }
        if !self.probing {
            crate::boxes::push_all(&mut self.bytes, chunk.as_slice());
            return;
        }
        let room: usize = if self.bytes.len() < 940 {
            940 - self.bytes.len()
        } else {
            0
        };
        let n: usize = if room < chunk.len() {
            room
        } else {
            chunk.len()
        };
        let mut i: usize = 0;
        while i < n
            invariant
                i <= n <= chunk@.len(),
                self.bytes@ =~= before + chunk@.subrange(0, i as int),
                !self.done,
                self.probing,
            decreases n - i,
        {
            self.bytes.push(chunk[i]);
            i = i + 1;
        }
        if source_probe_is_mpeg2_ts(&self.bytes) || source_probe_looks_binary(&self.bytes) {
            self.done = true;
            return;
        }
        if n < chunk.len() {
            while i < chunk.len()
                invariant
                    n <= i <= chunk@.len(),
                    self.bytes@ =~= before + chunk@.subrange(0, i as int),
                    !self.done,
                    self.probing,
                decreases chunk@.len() - i,
            {
                self.bytes.push(chunk[i]);
                i = i + 1;
            }
            assert(chunk@.subrange(0, chunk@.len() as int) =~= chunk@);
            self.probing = false;
            return;
        }
        self.probing = self.bytes.len() < 940;
    }
}

/// How often a source may still be asked for, and how long to wait in between.
#[derive(Clone, Copy, Debug, PartialEq, Eq, Structural)]
pub struct SourceAttempts {
    pub left: usize,
    pub delay_millis: u64,
}

impl SourceAttempts {
    /// For a source that is loaded.
    pub fn new() -> (r: Self)
        ensures
            r == (SourceAttempts {
                left: SOURCE_RETRY_ATTEMPTS,
                delay_millis: SOURCE_RETRY_DELAY_MILLIS,
            }),
    {
        SourceAttempts { left: SOURCE_RETRY_ATTEMPTS, delay_millis: SOURCE_RETRY_DELAY_MILLIS }
    }

    /// For a live manifest that is loaded again.
    pub fn for_live_refresh() -> (r: Self)
        ensures
            r == (SourceAttempts {
                left: LIVE_REFRESH_RETRY_ATTEMPTS,
                delay_millis: LIVE_REFRESH_RETRY_DELAY_MILLIS,
            }),
    {
        SourceAttempts {
            left: LIVE_REFRESH_RETRY_ATTEMPTS,
            delay_millis: LIVE_REFRESH_RETRY_DELAY_MILLIS,
        }
    }

    /// A request failed: gives the milliseconds until the next one, none where there were enough.
    pub fn failed(&mut self) -> (r: Option<u64>)
        ensures
            r == if old(self).left > 1 {
                Some(old(self).delay_millis)
            } else {
                None
            },
            *final(self) == (SourceAttempts {
                left: if old(self).left > 0 {
                    (old(self).left - 1) as usize
                } else {
                    0
                },
                ..*old(self)
            }),
    {
        if self.left == 0 {
            return None;
        }
        self.left = self.left - 1;
        if self.left > 0 {
            Some(self.delay_millis)
        } else {
            None
        }
    }
}

} // verus!
