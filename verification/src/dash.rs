//! MPEG-DASH manifests.

use crate::config::LogLevel;
use crate::datetime::{padded, parse_manifest_timestamp_at, timestamp_of, zero_padded};
use crate::error::{view_result, Error, ErrorView, Result};
use crate::hls::same_opt;
use crate::manifest::{
    blank_segment, blank_stream, copy_opt, copy_opt_bytes, copy_segments, count_segments,
    no_duration, no_encryption, normal_token, normalize_token, opt_bytes, role_of_token, wrap_i64,
    EncryptionInfo, EncryptionInfoView, EncryptionMethod, ExtractorType, KeySource, MediaDuration,
    MediaDurationView, MediaPart, MediaSegment, MediaSegmentView, MediaType, Playlist, PlaylistView,
    RefreshInterval, RoleType, Stream, StreamView,
};
use crate::numeric::{
    classify, classify_number, manifest_number, parse_manifest_number, NumberClass,
};
use crate::outside::{alphanumeric, is_letter_or_number};
use crate::processor::{
    note, ContentProcessor, DefaultDashContentProcessor, ParserConfig, ParserConfigView,
    ParserDiagnosticView, ParserDiagnostics,
};
use crate::refresh::{process_urls, processed_streams, refresh_from, refreshed_streams};
use crate::text::{
    begins_with, cat2, cat3, contains, cut_once, dec_int, drop, either, find, find_text, has_text,
    i64_text, is_digit, is_space, lower, lowered, opt, owned, parse_i32_text, parse_i64_text,
    parse_u64_text, parse_unsigned, parse_within, replace, replace_text, same, slice, slice_from,
    space_char, split, split_once, split_text, starts_with, take, to_chars, trim, trim_char,
    trim_start, trim_start_char, trimmed, trimmed_char, trimmed_start, trimmed_start_char,
};
use crate::url::{combine_url, combined_url};
use crate::xml::{
    attr, attr_of, children, children_of, element_from, find_element, first_child, first_child_of,
    lemma_nodes_of_rows, loose_attr, loose_attr_from, nodes_of, parse_xml, xml_rows, XmlNode,
    XmlNodeView,
};
use vstd::prelude::*;

verus! {

/// A DASH manifest.
#[derive(Debug)]
pub struct DashManifest {
    pub streams: Vec<Stream>,
    pub is_dynamic: bool,
    pub publish_time: Option<String>,
    /// How often the manifest changes, in ISO 8601.
    pub minimum_update_period: Option<String>,
}

/// Model of `DashManifest`.
pub struct DashManifestView {
    pub streams: Seq<StreamView>,
    pub is_dynamic: bool,
    pub publish_time: Option<Seq<char>>,
    pub minimum_update_period: Option<Seq<char>>,
}

impl DeepView for DashManifest {
    type V = DashManifestView;

    open spec fn deep_view(&self) -> DashManifestView {
        DashManifestView {
            streams: self.streams.deep_view(),
            is_dynamic: self.is_dynamic,
            publish_time: self.publish_time.deep_view(),
            minimum_update_period: self.minimum_update_period.deep_view(),
        }
    }
}

/// A computation on decimal numbers that the manifest calls for.
#[derive(Debug)]
pub enum DashQuestion {
    /// The quotient of two decimals to three places.
    FrameRate { numerator: String, denominator: String },
    /// How many segments of `duration` units fill a period, the last one in part.
    SegmentCount { period: String, timescale: i32, duration: i64 },
    /// Which segments the buffer of a live presentation holds at present. No depth is a minute.
    LiveWindow {
        available: i64,
        offset: i64,
        depth: Option<String>,
        timescale: i32,
        duration: i64,
    },
}

/// Model of `DashQuestion`.
pub enum DashQuestionView {
    FrameRate { numerator: Seq<char>, denominator: Seq<char> },
    SegmentCount { period: Seq<char>, timescale: i32, duration: i64 },
    LiveWindow {
        available: i64,
        offset: i64,
        depth: Option<Seq<char>>,
        timescale: i32,
        duration: i64,
    },
}

impl DeepView for DashQuestion {
    type V = DashQuestionView;

    open spec fn deep_view(&self) -> DashQuestionView {
        match self {
            DashQuestion::FrameRate { numerator, denominator } => DashQuestionView::FrameRate {
                numerator: numerator@,
                denominator: denominator@,
            },
            DashQuestion::SegmentCount { period, timescale, duration } => DashQuestionView::SegmentCount {
                period: period@,
                timescale: *timescale,
                duration: *duration,
            },
            DashQuestion::LiveWindow { available, offset, depth, timescale, duration } => DashQuestionView::LiveWindow {
                available: *available,
                offset: *offset,
                depth: depth.deep_view(),
                timescale: *timescale,
                duration: *duration,
            },
        }
    }
}

/// What a computation gave.
#[derive(Debug)]
pub enum DashAnswer {
    /// The quotient; none where it is infinite.
    Rate(Option<String>),
    Count(i64),
    /// How far the first segment lies behind the start number, and how many there are.
    Window { shift: i64, count: i64 },
}

/// Model of `DashAnswer`.
pub enum DashAnswerView {
    Rate(Option<Seq<char>>),
    Count(i64),
    Window { shift: i64, count: i64 },
}

impl DeepView for DashAnswer {
    type V = DashAnswerView;

    open spec fn deep_view(&self) -> DashAnswerView {
        match self {
            DashAnswer::Rate(r) => DashAnswerView::Rate(r.deep_view()),
            DashAnswer::Count(n) => DashAnswerView::Count(*n),
            DashAnswer::Window { shift, count } => DashAnswerView::Window {
                shift: *shift,
                count: *count,
            },
        }
    }
}

/// What a parser knows besides the manifest.
#[derive(Debug)]
pub struct DashFacts {
    /// The local offset in seconds, for times that state none.
    pub local_offset: i32,
    pub answers: Vec<(DashQuestion, DashAnswer)>,
}

/// Model of `DashFacts`.
pub struct DashFactsView {
    pub local_offset: i32,
    pub answers: Seq<(DashQuestionView, DashAnswerView)>,
}

impl DeepView for DashFacts {
    type V = DashFactsView;

    open spec fn deep_view(&self) -> DashFactsView {
        DashFactsView { local_offset: self.local_offset, answers: self.answers.deep_view() }
    }
}

/// The answer to a question, from position `i` on.
pub open spec fn answer_from(
    answers: Seq<(DashQuestionView, DashAnswerView)>,
    q: DashQuestionView,
    i: int,
) -> Option<DashAnswerView>
    decreases answers.len() - i,
{
    if i < 0 || i >= answers.len() {
        None
    } else if answers[i].0 == q {
        Some(answers[i].1)
    } else {
        answer_from(answers, q, i + 1)
    }
}

/// Why a manifest could not be read to its end.
#[derive(Debug)]
pub enum DashStop {
    Fail(Error),
    Ask(DashQuestion),
}

/// Model of `DashStop`.
pub enum DashStopView {
    Fail(ErrorView),
    Ask(DashQuestionView),
}

impl DeepView for DashStop {
    type V = DashStopView;

    open spec fn deep_view(&self) -> DashStopView {
        match self {
            DashStop::Fail(e) => DashStopView::Fail(e.deep_view()),
            DashStop::Ask(q) => DashStopView::Ask(q.deep_view()),
        }
    }
}

/// A result that may also ask.
pub type DashResult<T> = core::result::Result<T, DashStop>;

/// Model of a result that may also ask.
pub type DashView<T> = core::result::Result<T, DashStopView>;

/// Model of a result that may also ask.
pub open spec fn view_dash<T: DeepView>(r: DashResult<T>) -> DashView<T::V> {
    match r {
        Ok(v) => Ok(v.deep_view()),
        Err(s) => Err(s.deep_view()),
    }
}

fn raise<T>(r: Result<T>) -> (s: DashResult<T>)
    ensures
        match r {
            Ok(v) => s == DashResult::Ok(v),
            Err(e) => s is Err && s->Err_0.deep_view() == DashStopView::Fail(e.deep_view()),
        },
{
    match r {
        Ok(v) => Ok(v),
        Err(e) => Err(DashStop::Fail(e)),
    }
}

fn refuse<T>(message: &str) -> (r: DashResult<T>)
    ensures
        r is Err,
        r->Err_0.deep_view() == DashStopView::Fail(ErrorView::Protocol(message@)),
{
    Err(DashStop::Fail(Error::protocol(message)))
}

fn same_question(a: &DashQuestion, b: &DashQuestion) -> (r: bool)
    ensures
        r == (a.deep_view() == b.deep_view()),
{
    match (a, b) {
        (
            DashQuestion::FrameRate { numerator: n, denominator: d },
            DashQuestion::FrameRate { numerator: m, denominator: e },
        ) => same(n.as_str(), m.as_str()) && same(d.as_str(), e.as_str()),
        (
            DashQuestion::SegmentCount { period: p, timescale: t, duration: d },
            DashQuestion::SegmentCount { period: q, timescale: u, duration: e },
        ) => same(p.as_str(), q.as_str()) && *t == *u && *d == *e,
        (
            DashQuestion::LiveWindow { available: a1, offset: o1, depth: p1, timescale: t1, duration: d1 },
            DashQuestion::LiveWindow { available: a2, offset: o2, depth: p2, timescale: t2, duration: d2 },
        ) => *a1 == *a2 && *o1 == *o2 && same_opt(p1, p2) && *t1 == *t2 && *d1 == *d2,
        _ => false,
    }
}

fn find_answer<'a>(facts: &'a DashFacts, q: &DashQuestion) -> (r: Option<&'a DashAnswer>)
    ensures
        match r {
            Some(a) => answer_from(facts.deep_view().answers, q.deep_view(), 0) == Some(
                a.deep_view(),
            ),
            None => answer_from(facts.deep_view().answers, q.deep_view(), 0) is None,
        },
{
    let ghost all = facts.answers.deep_view();
    let mut i: usize = 0;
    while i < facts.answers.len()
        invariant
            i <= facts.answers@.len(),
            all == facts.answers.deep_view(),
            answer_from(all, q.deep_view(), 0) == answer_from(all, q.deep_view(), i as int),
        decreases facts.answers@.len() - i,
    {
        assert(all[i as int] == facts.answers@[i as int].deep_view());
        if same_question(&facts.answers[i].0, q) {
            return Some(&facts.answers[i].1);
        }
        i = i + 1;
    }
    None
}

/// The number of segments that fill a period; a period of unknown length has none.
pub open spec fn count_for(
    period: Option<Seq<char>>,
    timescale: i32,
    duration: i64,
    facts: DashFactsView,
) -> DashView<i64> {
    match period {
        None => Ok(0i64),
        Some(p) => {
            let q = DashQuestionView::SegmentCount { period: p, timescale, duration };
            match answer_from(facts.answers, q, 0) {
                Some(DashAnswerView::Count(n)) => Ok(n),
                _ => Err(DashStopView::Ask(q)),
            }
        },
    }
}

/// Model of a plain result that may also ask.
pub open spec fn plain_dash<T>(r: DashResult<T>) -> DashView<T> {
    match r {
        Ok(v) => Ok(v),
        Err(s) => Err(s.deep_view()),
    }
}

fn segment_count(period: &Option<String>, timescale: i32, duration: i64, facts: &DashFacts) -> (r:
    DashResult<i64>)
    ensures
        plain_dash(r) == count_for(period.deep_view(), timescale, duration, facts.deep_view()),
{
    match period {
        None => Ok(0),
        Some(p) => {
            let q: DashQuestion = DashQuestion::SegmentCount {
                period: p.clone(),
                timescale,
                duration,
            };
            match find_answer(facts, &q) {
                Some(DashAnswer::Count(n)) => Ok(*n),
                _ => Err(DashStop::Ask(q)),
            }
        },
    }
}

/// What is left of an ISO 8601 duration: the digits read so far, whether the time part has begun,
/// and what follows. Days, hours, minutes and seconds are known, each a decimal.
pub open spec fn iso_rest(number: Seq<char>, in_time: bool, rest: Seq<char>, field: Seq<char>) -> core::result::Result<
    (),
    ErrorView,
>
    decreases rest.len(),
{
    let bad = Err(ErrorView::Protocol(field + " duration is invalid"@));
    if rest.len() == 0 {
        if number.len() == 0 {
            Ok(())
        } else {
            bad
        }
    } else if rest[0] == 'T' {
        iso_rest(number, true, rest.drop_first(), field)
    } else if is_digit(rest[0]) || rest[0] == '.' {
        iso_rest(number.push(rest[0]), in_time, rest.drop_first(), field)
    } else if number.len() == 0 {
        bad
    } else if classify(number) != NumberClass::NotNegative {
        Err(ErrorView::Protocol(field + " is invalid"@))
    } else if (!in_time && rest[0] == 'D') || (in_time && (rest[0] == 'H' || rest[0] == 'M'
        || rest[0] == 'S')) {
        iso_rest(Seq::empty(), in_time, rest.drop_first(), field)
    } else {
        bad
    }
}

/// An ISO 8601 duration of days, hours, minutes and seconds, or what is wrong with it.
pub open spec fn iso_duration(value: Seq<char>, field: Seq<char>) -> core::result::Result<
    Seq<char>,
    ErrorView,
> {
    if !starts_with(value, "P"@) {
        Err(ErrorView::Protocol(field + " duration is invalid"@))
    } else {
        match iso_rest(Seq::empty(), false, drop(value, 1), field) {
            Ok(_) => Ok(value),
            Err(e) => Err(e),
        }
    }
}

fn parse_duration(value: &str, field: &str) -> (r: Result<String>)
    ensures
        view_result(r) == iso_duration(value@, field@),
{
    let bad: String = cat2(field, " duration is invalid");
    if !begins_with(value, "P") {
        return Err(Error::protocol(bad.as_str()));
    }
    proof {
        reveal_strlit("P");
    }
    let v: Vec<char> = to_chars(value);
    let ghost whole = iso_rest(Seq::empty(), false, drop(value@, 1), field@);
    let mut number: String = String::new();
    let mut in_time: bool = false;
    let mut i: usize = 1;
    while i < v.len()
        invariant
            v@ == value@,
            1 <= i <= v@.len(),
            starts_with(value@, "P"@),
            bad@ == field@ + " duration is invalid"@,
            whole == iso_rest(Seq::empty(), false, drop(value@, 1), field@),
            whole == iso_rest(number@, in_time, drop(v@, i as int), field@),
        decreases v@.len() - i,
    {
        let c: char = v[i];
        let ghost rest = drop(v@, i as int);
        assert(rest[0] == c);
        assert(rest.drop_first() =~= drop(v@, i + 1));
        if c == 'T' {
            in_time = true;
        } else if ('0' <= c && c <= '9') || c == '.' {
            number.push(c);
        } else {
            if number.as_str().unicode_len() == 0 {
                return Err(Error::protocol(bad.as_str()));
            }
            if classify_number(number.as_str()) != NumberClass::NotNegative {
                let message: String = cat2(field, " is invalid");
                return Err(Error::protocol(message.as_str()));
            }
            if !((!in_time && c == 'D') || (in_time && (c == 'H' || c == 'M' || c == 'S'))) {
                return Err(Error::protocol(bad.as_str()));
            }
            number = String::new();
        }
        i = i + 1;
    }
    if number.as_str().unicode_len() > 0 {
        return Err(Error::protocol(bad.as_str()));
    }
    Ok(owned(value))
}

/// An optional duration.
pub open spec fn optional_duration(value: Option<Seq<char>>, field: Seq<char>) -> core::result::Result<
    Option<Seq<char>>,
    ErrorView,
> {
    match value {
        None => Ok(None),
        Some(v) => match iso_duration(v, field) {
            Ok(d) => Ok(Some(d)),
            Err(e) => Err(e),
        },
    }
}

fn parse_optional_duration(value: Option<&str>, field: &str) -> (r: Result<Option<String>>)
    ensures
        view_result(r) == optional_duration(opt(value), field@),
{
    match value {
        None => Ok(None),
        Some(v) => match parse_duration(v, field) {
            Ok(d) => Ok(Some(d)),
            Err(e) => Err(e),
        },
    }
}

/// A whole number of an attribute, within bounds; a default where it is missing.
pub open spec fn number_of(
    value: Option<Seq<char>>,
    field: Seq<char>,
    default: int,
    min: int,
    max: int,
) -> core::result::Result<int, ErrorView> {
    match value {
        None => Ok(default),
        Some(v) => match parse_within(v, min, max) {
            Some(n) => Ok(n),
            None => Err(ErrorView::Protocol(field + " is invalid"@)),
        },
    }
}

/// A number of 32 bits.
pub open spec fn int32_of(value: Option<Seq<char>>, field: Seq<char>, default: int) -> core::result::Result<
    int,
    ErrorView,
> {
    number_of(value, field, default, i32::MIN as int, i32::MAX as int)
}

/// A number of 64 bits.
pub open spec fn int64_of(value: Option<Seq<char>>, field: Seq<char>, default: int) -> core::result::Result<
    int,
    ErrorView,
> {
    number_of(value, field, default, i64::MIN as int, i64::MAX as int)
}

pub(crate) fn parse_optional_i32(value: Option<&str>, field: &str, default: i32) -> (r: Result<i32>)
    ensures
        match r {
            Ok(n) => int32_of(opt(value), field@, default as int) == Ok::<int, ErrorView>(n as int),
            Err(e) => int32_of(opt(value), field@, default as int) == Err::<int, ErrorView>(
                e.deep_view(),
            ),
        },
{
    match value {
        None => Ok(default),
        Some(v) => match parse_i32_text(v) {
            Some(n) => Ok(n),
            None => {
                let message: String = cat2(field, " is invalid");
                Err(Error::protocol(message.as_str()))
            },
        },
    }
}

pub(crate) fn parse_optional_i64(value: Option<&str>, field: &str, default: i64) -> (r: Result<i64>)
    ensures
        match r {
            Ok(n) => int64_of(opt(value), field@, default as int) == Ok::<int, ErrorView>(n as int),
            Err(e) => int64_of(opt(value), field@, default as int) == Err::<int, ErrorView>(
                e.deep_view(),
            ),
        },
{
    match value {
        None => Ok(default),
        Some(v) => match parse_i64_text(v) {
            Some(n) => Ok(n),
            None => {
                let message: String = cat2(field, " is invalid");
                Err(Error::protocol(message.as_str()))
            },
        },
    }
}

pub(crate) fn either_text<'a>(a: Option<&'a str>, b: Option<&'a str>) -> (r: Option<&'a str>)
    ensures
        opt(r) == either(opt(a), opt(b)),
{
    match a {
        Some(s) => Some(s),
        None => b,
    }
}

/// A decimal number of `width` characters at least, filled up with zeros behind the sign.
pub open spec fn signed_padded(n: int, width: nat) -> Seq<char> {
    if n < 0 {
        "-"@ + zero_padded(
            (-n) as nat,
            if width > 0 {
                (width - 1) as nat
            } else {
                0
            },
        )
    } else {
        zero_padded(n as nat, width)
    }
}

pub(crate) fn pad_signed(n: i64, width: usize) -> (r: String)
    ensures
        r@ == signed_padded(n as int, width as nat),
{
    if n < 0 {
        let magnitude: u64 = if n == i64::MIN {
            9223372036854775808u64
        } else {
            (-n) as u64
        };
        let digits: String = padded(
            magnitude,
            if width > 0 {
                width - 1
            } else {
                0
            },
        );
        cat2("-", digits.as_str())
    } else {
        padded(n as u64, width)
    }
}

/// The width of a number token; zero where it is none.
pub open spec fn token_width(text: Seq<char>) -> nat {
    match parse_unsigned(trim_start_char(text, '0'), usize::MAX as int) {
        Some(n) => n as nat,
        None => 0,
    }
}

/// The text with each `$Number%0<width>d$` replaced.
pub open spec fn formatted_numbers(s: Seq<char>, number: int) -> Seq<char>
    decreases s.len(),
    via formatted_decreases
{
    match find(s, "$Number%"@) {
        None => s,
        Some(i) => {
            let rest = drop(s, i + "$Number%"@.len());
            match find(rest, "d$"@) {
                None => s,
                Some(j) => take(s, i) + signed_padded(number, token_width(take(rest, j)))
                    + formatted_numbers(drop(rest, j + "d$"@.len()), number),
            }
        },
    }
}

#[via_fn]
proof fn formatted_decreases(s: Seq<char>, number: int) {
    reveal_strlit("$Number%");
    crate::text::lemma_find_from(s, "$Number%"@, 0);
    if find(s, "$Number%"@) is Some {
        let rest = drop(s, find(s, "$Number%"@)->0 + "$Number%"@.len());
        crate::text::lemma_find_from(rest, "d$"@, 0);
    }
}

fn replace_formatted_numbers(s: &str, number: i64) -> (r: String)
    ensures
        r@ == formatted_numbers(s@, number as int),
    decreases s@.len(),
{
    proof {
        reveal_strlit("$Number%");
        reveal_strlit("d$");
    }
    let _len: usize = s.unicode_len();
    match find_text(s, "$Number%") {
        None => owned(s),
        Some(i) => {
            let rest: &str = slice_from(s, i + 8);
            let _rest_len: usize = rest.unicode_len();
            match find_text(rest, "d$") {
                None => owned(s),
                Some(j) => {
                    let width: usize = match parse_u64_text(
                        trimmed_start_char(slice(rest, 0, j), '0'),
                    ) {
                        Some(n) => if n <= usize::MAX as u64 {
                            n as usize
                        } else {
                            0
                        },
                        None => 0,
                    };
                    let digits: String = pad_signed(number, width);
                    let tail: String = replace_formatted_numbers(slice_from(rest, j + 2), number);
                    cat3(slice(s, 0, i), digits.as_str(), tail.as_str())
                },
            }
        },
    }
}

/// A URL template with its variables replaced.
pub open spec fn template_url(
    template: Seq<char>,
    id: Seq<char>,
    bandwidth: Seq<char>,
    number: Option<int>,
    time: Option<int>,
) -> Seq<char> {
    let fixed = replace(replace(template, "$RepresentationID$"@, id), "$Bandwidth$"@, bandwidth);
    let numbered = match number {
        Some(n) => formatted_numbers(replace(fixed, "$Number$"@, dec_int(n)), n),
        None => fixed,
    };
    match time {
        Some(t) => replace(numbered, "$Time$"@, dec_int(t)),
        None => numbered,
    }
}

fn replace_template(
    template: &str,
    id: &str,
    bandwidth: &str,
    number: Option<i64>,
    time: Option<i64>,
) -> (r: String)
    ensures
        r@ == template_url(
            template@,
            id@,
            bandwidth@,
            match number {
                Some(n) => Some(n as int),
                None => None,
            },
            match time {
                Some(n) => Some(n as int),
                None => None,
            },
        ),
{
    proof {
        reveal_strlit("$RepresentationID$");
        reveal_strlit("$Bandwidth$");
        reveal_strlit("$Number$");
        reveal_strlit("$Time$");
    }
    let first: String = replace_text(template, "$RepresentationID$", id);
    let mut value: String = replace_text(first.as_str(), "$Bandwidth$", bandwidth);
    match number {
        Some(n) => {
            let digits: String = i64_text(n);
            let plain: String = replace_text(value.as_str(), "$Number$", digits.as_str());
            value = replace_formatted_numbers(plain.as_str(), n);
        },
        None => {},
    }
    match time {
        Some(t) => {
            let digits: String = i64_text(t);
            value = replace_text(value.as_str(), "$Time$", digits.as_str());
        },
        None => {},
    }
    value
}

/// A segment with the byte range `start-stop`.
pub open spec fn with_range(segment: MediaSegmentView, range: Seq<char>) -> core::result::Result<
    MediaSegmentView,
    ErrorView,
> {
    match split_once(range, "-"@) {
        None => Err(ErrorView::Protocol("range must use start-stop syntax"@)),
        Some((a, b)) => match parse_within(a, i64::MIN as int, i64::MAX as int) {
            None => Err(ErrorView::Protocol("range start is invalid"@)),
            Some(start) => match parse_within(b, i64::MIN as int, i64::MAX as int) {
                None => Err(ErrorView::Protocol("range stop is invalid"@)),
                Some(stop) => Ok(
                    MediaSegmentView {
                        start_range: Some(start as i64),
                        expected_length: Some(wrap_i64(stop - start + 1) as i64),
                        ..segment
                    },
                ),
            },
        },
    }
}

fn apply_range(segment: MediaSegment, range: &str) -> (r: Result<MediaSegment>)
    ensures
        view_result(r) == with_range(segment.deep_view(), range@),
{
    let mut segment: MediaSegment = segment;
    match cut_once(range, "-") {
        None => Err(Error::protocol("range must use start-stop syntax")),
        Some((a, b)) => match parse_i64_text(a) {
            None => Err(Error::protocol("range start is invalid")),
            Some(start) => match parse_i64_text(b) {
                None => Err(Error::protocol("range stop is invalid")),
                Some(stop) => {
                    segment.start_range = Some(start);
                    segment.expected_length = Some(stop.wrapping_sub(start).wrapping_add(1));
                    Ok(segment)
                },
            },
        },
    }
}

/// A segment with a stated byte range begins and ends where the range says.
pub proof fn law_range_is_what_was_stated(segment: MediaSegmentView, range: Seq<char>)
    requires
        with_range(segment, range) is Ok,
    ensures
        ({
            let (a, b) = split_once(range, "-"@)->0;
            let start = parse_within(a, i64::MIN as int, i64::MAX as int)->0;
            let stop = parse_within(b, i64::MIN as int, i64::MAX as int)->0;
            with_range(segment, range)->Ok_0.start_range == Some(start as i64)
                && crate::manifest::stop_range_of(with_range(segment, range)->Ok_0) == Some(stop)
        }),
{
}

/// An initialization segment.
pub open spec fn init_of(url: Seq<char>, range: Option<Seq<char>>) -> core::result::Result<
    MediaSegmentView,
    ErrorView,
> {
    let bare = MediaSegmentView { index: -1i64, url, ..blank_segment() };
    match range {
        None => Ok(bare),
        Some(r) => with_range(bare, r),
    }
}

fn init_segment(url: String, range: Option<&str>) -> (r: Result<MediaSegment>)
    ensures
        view_result(r) == init_of(url@, opt(range)),
{
    let mut segment: MediaSegment = MediaSegment::default();
    segment.index = -1;
    segment.url = url;
    match range {
        None => Ok(segment),
        Some(r) => apply_range(segment, r),
    }
}

/// The duration of a whole period.
pub open spec fn period_length(period: Option<Seq<char>>) -> MediaDurationView {
    match period {
        Some(p) => MediaDurationView::Iso(p),
        None => no_duration(),
    }
}

fn period_duration(period: &Option<String>) -> (r: MediaDuration)
    ensures
        r.deep_view() == period_length(period.deep_view()),
{
    match period {
        Some(p) => MediaDuration::Iso(p.clone()),
        None => MediaDuration::Ticks { units: 0, timescale: 1 },
    }
}

/// One segment that spans a period.
pub open spec fn whole_period(url: Seq<char>, period: Option<Seq<char>>) -> MediaSegmentView {
    MediaSegmentView { duration: period_length(period), url, ..blank_segment() }
}

fn whole_period_segment(url: &str, period: &Option<String>) -> (r: MediaSegment)
    ensures
        r.deep_view() == whole_period(url@, period.deep_view()),
{
    let mut segment: MediaSegment = MediaSegment::default();
    segment.duration = period_duration(period);
    segment.url = owned(url);
    segment
}

/// The segments of a representation: the initialization segment and the others.
pub struct Filled {
    pub init: Option<MediaSegmentView>,
    pub segments: Seq<MediaSegmentView>,
}

/// The segments of a representation.
struct Filling {
    init: Option<MediaSegment>,
    segments: Vec<MediaSegment>,
}

impl Filling {
    spec fn view(&self) -> Filled {
        Filled { init: self.init.deep_view(), segments: self.segments.deep_view() }
    }

    fn add(&mut self, segment: MediaSegment)
        ensures
            final(self).view() == (Filled {
                segments: old(self).view().segments.push(segment.deep_view()),
                ..old(self).view()
            }),
    {
        let ghost before = self.segments.deep_view();
        let ghost item = segment.deep_view();
        self.segments.push(segment);
        assert(self.segments.deep_view() =~= before.push(item));
    }
}

/// What `SegmentBase` adds: the initialization segment, or one segment that spans the period.
pub open spec fn after_base(
    f: Filled,
    doc: Seq<XmlNodeView>,
    node: int,
    base: Seq<char>,
    period: Option<Seq<char>>,
) -> core::result::Result<Filled, ErrorView> {
    match first_child(doc, node, "Initialization"@) {
        None => Ok(f),
        Some(i) => match attr_of(doc, i, "sourceURL"@) {
            Some(source) => match init_of(combined_url(base, source), attr_of(doc, i, "range"@)) {
                Ok(init) => Ok(Filled { init: Some(init), ..f }),
                Err(e) => Err(e),
            },
            None => Ok(Filled { segments: f.segments.push(whole_period(base, period)), ..f }),
        },
    }
}

fn parse_segment_base(
    f: &mut Filling,
    doc: &Vec<XmlNode>,
    node: usize,
    base: &str,
    period: &Option<String>,
) -> (r: Result<()>)
    ensures
        match r {
            Ok(_) => after_base(
                old(f).view(),
                doc.deep_view(),
                node as int,
                base@,
                period.deep_view(),
            ) == Ok::<Filled, ErrorView>(final(f).view()),
            Err(e) => after_base(
                old(f).view(),
                doc.deep_view(),
                node as int,
                base@,
                period.deep_view(),
            ) == Err::<Filled, ErrorView>(e.deep_view()),
        },
{
    match first_child_of(doc, node, "Initialization") {
        None => Ok(()),
        Some(i) => match attr(doc, i, "sourceURL") {
            Some(source) => {
                let url: String = combine_url(base, source);
                let init: MediaSegment = init_segment(url, attr(doc, i, "range"))?;
                f.init = Some(init);
                Ok(())
            },
            None => {
                f.add(whole_period_segment(base, period));
                Ok(())
            },
        },
    }
}

/// One segment of a list.
pub open spec fn listed_segment(
    doc: Seq<XmlNodeView>,
    node: int,
    index: int,
    base: Seq<char>,
    units: int,
    timescale: int,
) -> core::result::Result<MediaSegmentView, ErrorView> {
    let segment = MediaSegmentView {
        index: if index <= i64::MAX {
            index as i64
        } else {
            0
        },
        duration: MediaDurationView::Ticks { units, timescale },
        url: match attr_of(doc, node, "media"@) {
            Some(media) => combined_url(base, media),
            None => base,
        },
        ..blank_segment()
    };
    match attr_of(doc, node, "mediaRange"@) {
        Some(range) => with_range(segment, range),
        None => Ok(segment),
    }
}

/// The first `n` segments of a list.
pub open spec fn listed_segments(
    doc: Seq<XmlNodeView>,
    nodes: Seq<int>,
    n: int,
    base: Seq<char>,
    units: int,
    timescale: int,
) -> core::result::Result<Seq<MediaSegmentView>, ErrorView>
    decreases n,
{
    if n <= 0 {
        Ok(Seq::empty())
    } else {
        match listed_segments(doc, nodes, n - 1, base, units, timescale) {
            Err(e) => Err(e),
            Ok(head) => match listed_segment(doc, nodes[n - 1], n - 1, base, units, timescale) {
                Err(e) => Err(e),
                Ok(segment) => Ok(head.push(segment)),
            },
        }
    }
}

/// What `SegmentList` adds.
pub open spec fn after_list(f: Filled, doc: Seq<XmlNodeView>, node: int, base: Seq<char>) -> core::result::Result<
    Filled,
    ErrorView,
> {
    let init = match first_child(doc, node, "Initialization"@) {
        None => Ok(f.init),
        Some(i) => match init_of(
            match attr_of(doc, i, "sourceURL"@) {
                Some(source) => combined_url(base, source),
                None => base,
            },
            attr_of(doc, i, "range"@),
        ) {
            Ok(s) => Ok(Some(s)),
            Err(e) => Err(e),
        },
    };
    match (
        init,
        int32_of(attr_of(doc, node, "timescale"@), "SegmentList timescale"@, 1),
        int64_of(attr_of(doc, node, "duration"@), "SegmentList duration"@, 0),
    ) {
        (Err(e), _, _) => Err(e),
        (_, Err(e), _) => Err(e),
        (_, _, Err(e)) => Err(e),
        (Ok(init), Ok(timescale), Ok(units)) => {
            let nodes = children(doc, node, "SegmentURL"@);
            match listed_segments(doc, nodes, nodes.len() as int, base, units, timescale) {
                Err(e) => Err(e),
                Ok(segments) => Ok(Filled { init, segments: f.segments + segments }),
            }
        },
    }
}

proof fn lemma_listed_error(
    doc: Seq<XmlNodeView>,
    nodes: Seq<int>,
    n: int,
    base: Seq<char>,
    units: int,
    timescale: int,
)
    requires
        0 <= n <= nodes.len(),
        listed_segments(doc, nodes, n, base, units, timescale) is Err,
    ensures
        listed_segments(doc, nodes, nodes.len() as int, base, units, timescale)
            == listed_segments(doc, nodes, n, base, units, timescale),
    decreases nodes.len() - n,
{
    if n < nodes.len() {
        lemma_listed_error(doc, nodes, n + 1, base, units, timescale);
    }
}

fn parse_listed_segment(
    doc: &Vec<XmlNode>,
    node: usize,
    index: usize,
    base: &str,
    units: i64,
    timescale: i32,
) -> (r: Result<MediaSegment>)
    requires
        node < doc@.len(),
    ensures
        view_result(r) == listed_segment(
            doc.deep_view(),
            node as int,
            index as int,
            base@,
            units as int,
            timescale as int,
        ),
{
    let mut segment: MediaSegment = MediaSegment::default();
    segment.index = if index as u64 <= 9223372036854775807 {
        index as i64
    } else {
        0
    };
    segment.duration = MediaDuration::Ticks { units, timescale: timescale as i64 };
    segment.url = match attr(doc, node, "media") {
        Some(media) => combine_url(base, media),
        None => owned(base),
    };
    match attr(doc, node, "mediaRange") {
        Some(range) => apply_range(segment, range),
        None => Ok(segment),
    }
}

fn parse_segment_list(f: &mut Filling, doc: &Vec<XmlNode>, node: usize, base: &str) -> (r: Result<()>)
    requires
        node < doc@.len(),
    ensures
        match r {
            Ok(_) => after_list(old(f).view(), doc.deep_view(), node as int, base@) == Ok::<
                Filled,
                ErrorView,
            >(final(f).view()),
            Err(e) => after_list(old(f).view(), doc.deep_view(), node as int, base@) == Err::<
                Filled,
                ErrorView,
            >(e.deep_view()),
        },
{
    let ghost view = doc.deep_view();
    let ghost start = f.view();
    match first_child_of(doc, node, "Initialization") {
        None => {},
        Some(i) => {
            let url: String = match attr(doc, i, "sourceURL") {
                Some(source) => combine_url(base, source),
                None => owned(base),
            };
            let init: MediaSegment = init_segment(url, attr(doc, i, "range"))?;
            f.init = Some(init);
        },
    }
    let ghost init = f.view().init;
    let timescale: i32 = parse_optional_i32(
        attr(doc, node, "timescale"),
        "SegmentList timescale",
        1,
    )?;
    let units: i64 = parse_optional_i64(attr(doc, node, "duration"), "SegmentList duration", 0)?;
    let nodes: Vec<usize> = children_of(doc, node, "SegmentURL");
    let ghost ints = children(view, node as int, "SegmentURL"@);
    assert(ints.len() == nodes@.len());
    let mut i: usize = 0;
    assert(start.segments + Seq::<MediaSegmentView>::empty() =~= start.segments);
    while i < nodes.len()
        invariant
            i <= nodes@.len(),
            node < doc@.len(),
            view == doc.deep_view(),
            start == old(f).view(),
            ints == children(view, node as int, "SegmentURL"@),
            ints == nodes@.map_values(|k: usize| k as int),
            forall|k: int| 0 <= k < nodes@.len() ==> #[trigger] nodes@[k] < doc@.len(),
            int32_of(
                attr_of(view, node as int, "timescale"@),
                "SegmentList timescale"@,
                1,
            ) == Ok::<int, ErrorView>(timescale as int),
            int64_of(
                attr_of(view, node as int, "duration"@),
                "SegmentList duration"@,
                0,
            ) == Ok::<int, ErrorView>(units as int),
            (match first_child(view, node as int, "Initialization"@) {
                None => Ok(start.init),
                Some(i) => match init_of(
                    match attr_of(view, i, "sourceURL"@) {
                        Some(source) => combined_url(base@, source),
                        None => base@,
                    },
                    attr_of(view, i, "range"@),
                ) {
                    Ok(s) => Ok(Some(s)),
                    Err(e) => Err(e),
                },
            }) == Ok::<Option<MediaSegmentView>, ErrorView>(init),
            f.view().init == init,
            listed_segments(view, ints, i as int, base@, units as int, timescale as int) is Ok,
            f.view().segments == start.segments + listed_segments(
                view,
                ints,
                i as int,
                base@,
                units as int,
                timescale as int,
            )->Ok_0,
        decreases nodes@.len() - i,
    {
        assert(ints[i as int] == nodes@[i as int]);
        match parse_listed_segment(doc, nodes[i], i, base, units, timescale) {
            Ok(segment) => {
                let ghost item = segment.deep_view();
                let ghost before = f.view().segments;
                f.add(segment);
                assert(before.push(item) =~= start.segments + listed_segments(
                    view,
                    ints,
                    i + 1,
                    base@,
                    units as int,
                    timescale as int,
                )->Ok_0);
            },
            Err(e) => {
                proof {
                    lemma_listed_error(
                        view,
                        ints,
                        i + 1,
                        base@,
                        units as int,
                        timescale as int,
                    );
                }
                return Err(e);
            },
        }
        i = i + 1;
    }
    Ok(())
}

/// What the segments of a template share.
pub struct TemplateView {
    pub media: Seq<char>,
    pub id: Seq<char>,
    pub bandwidth: Seq<char>,
    pub base: Seq<char>,
    pub timescale: i32,
}

/// What the segments of a template share.
struct Template<'a> {
    media: &'a str,
    id: &'a str,
    bandwidth: &'a str,
    base: &'a str,
    timescale: i32,
}

impl<'a> Template<'a> {
    spec fn view(&self) -> TemplateView {
        TemplateView {
            media: self.media@,
            id: self.id@,
            bandwidth: self.bandwidth@,
            base: self.base@,
            timescale: self.timescale,
        }
    }
}

/// How far a timeline was read.
pub struct TimelineState {
    pub time: i64,
    pub number: i64,
    pub index: i64,
    pub segments: Seq<MediaSegmentView>,
}

/// The segment that comes next on a timeline.
pub open spec fn timeline_segment(t: TemplateView, st: TimelineState, units: i64) -> MediaSegmentView {
    MediaSegmentView {
        index: st.index,
        duration: MediaDurationView::Ticks { units: units as int, timescale: t.timescale as int },
        name_from_var: if contains(t.media, "$Time"@) {
            Some(dec_int(st.time as int))
        } else {
            None
        },
        url: combined_url(
            t.base,
            template_url(t.media, t.id, t.bandwidth, Some(st.number as int), Some(st.time as int)),
        ),
        ..blank_segment()
    }
}

/// A timeline after `n` more segments of the same duration.
pub open spec fn repeated(t: TemplateView, st: TimelineState, units: i64, n: int) -> TimelineState
    decreases n,
{
    if n <= 0 {
        st
    } else {
        timeline_next(t, repeated(t, st, units, n - 1), units)
    }
}

/// A timeline after one more segment.
pub open spec fn timeline_next(t: TemplateView, st: TimelineState, units: i64) -> TimelineState {
    TimelineState {
        time: wrap_i64(st.time + units) as i64,
        number: wrap_i64(st.number + 1) as i64,
        index: wrap_i64(st.index + 1) as i64,
        segments: st.segments.push(timeline_segment(t, st, units)),
    }
}

/// Segments of the same duration follow one another on a timeline: numbers and indexes go up by one,
/// and each segment begins where the one before ends. Those that were there stay.
pub proof fn law_timeline_goes_on(t: TemplateView, st: TimelineState, units: i64, n: int, k: int)
    requires
        0 <= k < n,
        units >= 0,
        0 <= st.time,
        0 <= st.number,
        0 <= st.index,
        st.time + n * units <= i64::MAX,
        st.number + n <= i64::MAX,
        st.index + n <= i64::MAX,
    ensures
        repeated(t, st, units, n).time == st.time + n * units,
        repeated(t, st, units, n).number == st.number + n,
        repeated(t, st, units, n).index == st.index + n,
        repeated(t, st, units, n).segments.len() == st.segments.len() + n,
        repeated(t, st, units, n).segments.take(st.segments.len() as int) == st.segments,
        repeated(t, st, units, n).segments[st.segments.len() + k] == timeline_segment(
            t,
            TimelineState {
                time: (st.time + k * units) as i64,
                number: (st.number + k) as i64,
                index: (st.index + k) as i64,
                segments: repeated(t, st, units, k).segments,
            },
            units,
        ),
    decreases n,
{
    lemma_repeated(t, st, units, n);
    if k < n - 1 {
        assert(n * units == (n - 1) * units + units) by (nonlinear_arith);
        law_timeline_goes_on(t, st, units, n - 1, k);
        lemma_repeated(t, st, units, n - 1);
    } else {
        assert(n * units == k * units + units) by (nonlinear_arith)
            requires
                n == k + 1,
        ;
        lemma_repeated(t, st, units, k);
    }
}

proof fn lemma_repeated(t: TemplateView, st: TimelineState, units: i64, n: int)
    requires
        0 <= n,
        units >= 0,
        0 <= st.time,
        0 <= st.number,
        0 <= st.index,
        st.time + n * units <= i64::MAX,
        st.number + n <= i64::MAX,
        st.index + n <= i64::MAX,
    ensures
        repeated(t, st, units, n).time == st.time + n * units,
        repeated(t, st, units, n).number == st.number + n,
        repeated(t, st, units, n).index == st.index + n,
        repeated(t, st, units, n).segments.len() == st.segments.len() + n,
        repeated(t, st, units, n).segments.take(st.segments.len() as int) == st.segments,
    decreases n,
{
    let m = st.segments.len() as int;
    if n > 0 {
        assert(n * units == (n - 1) * units + units) by (nonlinear_arith);
        lemma_repeated(t, st, units, n - 1);
        assert(repeated(t, st, units, n).segments.take(m) =~= repeated(
            t,
            st,
            units,
            n - 1,
        ).segments.take(m));
    } else {
        assert(0 * units == 0) by (nonlinear_arith);
        assert(st.segments.take(m) =~= st.segments);
    }
}

/// How often the duration of a timeline entry is repeated; a negative number means up to the end of
/// the period.
pub open spec fn repeats_of(
    stated: int,
    period: Option<Seq<char>>,
    timescale: i32,
    units: i64,
    facts: DashFactsView,
) -> DashView<int> {
    if stated < 0 {
        match count_for(period, timescale, units, facts) {
            Err(s) => Err(s),
            Ok(n) => Ok(
                if n > 1 {
                    n - 1
                } else {
                    0
                },
            ),
        }
    } else {
        Ok(stated)
    }
}

/// A timeline after one more entry.
pub open spec fn after_entry(
    t: TemplateView,
    st: TimelineState,
    doc: Seq<XmlNodeView>,
    node: int,
    period: Option<Seq<char>>,
    facts: DashFactsView,
) -> DashView<TimelineState> {
    match (
        int64_of(attr_of(doc, node, "t"@), "SegmentTimeline t"@, st.time as int),
        int64_of(attr_of(doc, node, "d"@), "SegmentTimeline d"@, 0),
        int64_of(attr_of(doc, node, "r"@), "SegmentTimeline r"@, 0),
    ) {
        (Err(e), _, _) => Err(DashStopView::Fail(e)),
        (_, Err(e), _) => Err(DashStopView::Fail(e)),
        (_, _, Err(e)) => Err(DashStopView::Fail(e)),
        (Ok(time), Ok(units), Ok(stated)) => match repeats_of(
            stated,
            period,
            t.timescale,
            units as i64,
            facts,
        ) {
            Err(s) => Err(s),
            Ok(repeats) => Ok(
                repeated(t, TimelineState { time: time as i64, ..st }, units as i64, repeats + 1),
            ),
        },
    }
}

/// A timeline after its first `n` entries.
pub open spec fn timeline(
    t: TemplateView,
    first: i64,
    segments: Seq<MediaSegmentView>,
    doc: Seq<XmlNodeView>,
    nodes: Seq<int>,
    n: int,
    period: Option<Seq<char>>,
    facts: DashFactsView,
) -> DashView<TimelineState>
    decreases n,
{
    if n <= 0 {
        Ok(TimelineState { time: 0, number: first, index: 0, segments })
    } else {
        match timeline(t, first, segments, doc, nodes, n - 1, period, facts) {
            Err(s) => Err(s),
            Ok(st) => after_entry(t, st, doc, nodes[n - 1], period, facts),
        }
    }
}

proof fn lemma_timeline_stop(
    t: TemplateView,
    first: i64,
    segments: Seq<MediaSegmentView>,
    doc: Seq<XmlNodeView>,
    nodes: Seq<int>,
    n: int,
    period: Option<Seq<char>>,
    facts: DashFactsView,
)
    requires
        0 <= n <= nodes.len(),
        timeline(t, first, segments, doc, nodes, n, period, facts) is Err,
    ensures
        timeline(t, first, segments, doc, nodes, nodes.len() as int, period, facts) == timeline(
            t,
            first,
            segments,
            doc,
            nodes,
            n,
            period,
            facts,
        ),
    decreases nodes.len() - n,
{
    if n < nodes.len() {
        lemma_timeline_stop(t, first, segments, doc, nodes, n + 1, period, facts);
    }
}

/// A timeline that is being read.
struct Timeline {
    time: i64,
    number: i64,
    index: i64,
    filling: Filling,
}

impl Timeline {
    spec fn state(&self) -> TimelineState {
        TimelineState {
            time: self.time,
            number: self.number,
            index: self.index,
            segments: self.filling.view().segments,
        }
    }

    fn next(&mut self, t: &Template, units: i64, with_time: bool)
        requires
            with_time == contains(t.view().media, "$Time"@),
        ensures
            final(self).state() == timeline_next(t.view(), old(self).state(), units),
            final(self).filling.view().init == old(self).filling.view().init,
    {
        let mut segment: MediaSegment = MediaSegment::default();
        segment.index = self.index;
        segment.duration = MediaDuration::Ticks { units, timescale: t.timescale as i64 };
        segment.name_from_var = if with_time {
            Some(i64_text(self.time))
        } else {
            None
        };
        let media: String = replace_template(
            t.media,
            t.id,
            t.bandwidth,
            Some(self.number),
            Some(self.time),
        );
        segment.url = combine_url(t.base, media.as_str());
        assert(segment.deep_view() == timeline_segment(t.view(), self.state(), units));
        self.filling.add(segment);
        self.time = self.time.wrapping_add(units);
        self.number = self.number.wrapping_add(1);
        self.index = self.index.wrapping_add(1);
    }

    fn repeat(&mut self, t: &Template, units: i64, n: i64)
        requires
            0 <= n,
        ensures
            final(self).state() == repeated(t.view(), old(self).state(), units, n + 1),
            final(self).filling.view().init == old(self).filling.view().init,
    {
        let ghost start = self.state();
        let ghost init = self.filling.view().init;
        let with_time: bool = has_text(t.media, "$Time");
        let total: u64 = n as u64 + 1;
        let mut k: u64 = 0;
        while k < total
            invariant
                k <= total,
                init == self.filling.view().init,
                with_time == contains(t.view().media, "$Time"@),
                self.state() == repeated(t.view(), start, units, k as int),
            decreases total - k,
        {
            self.next(t, units, with_time);
            k = k + 1;
        }
    }

    fn entry(
        &mut self,
        t: &Template,
        doc: &Vec<XmlNode>,
        node: usize,
        period: &Option<String>,
        facts: &DashFacts,
    ) -> (r: DashResult<()>)
        requires
            node < doc@.len(),
        ensures
            match r {
                Ok(_) => after_entry(
                    t.view(),
                    old(self).state(),
                    doc.deep_view(),
                    node as int,
                    period.deep_view(),
                    facts.deep_view(),
                ) == DashView::Ok(final(self).state()),
                Err(s) => after_entry(
                    t.view(),
                    old(self).state(),
                    doc.deep_view(),
                    node as int,
                    period.deep_view(),
                    facts.deep_view(),
                ) == DashView::<TimelineState>::Err(s.deep_view()),
            },
            final(self).filling.view().init == old(self).filling.view().init,
    {
        let time: i64 = raise(
            parse_optional_i64(attr(doc, node, "t"), "SegmentTimeline t", self.time),
        )?;
        let units: i64 = raise(parse_optional_i64(attr(doc, node, "d"), "SegmentTimeline d", 0))?;
        let stated: i64 = raise(parse_optional_i64(attr(doc, node, "r"), "SegmentTimeline r", 0))?;
        let repeats: i64 = if stated < 0 {
            let n: i64 = segment_count(period, t.timescale, units, facts)?;
            if n > 1 {
                n - 1
            } else {
                0
            }
        } else {
            stated
        };
        self.time = time;
        self.repeat(t, units, repeats);
        Ok(())
    }
}

fn expand_timeline(
    f: Filling,
    t: &Template,
    first: i64,
    doc: &Vec<XmlNode>,
    node: usize,
    period: &Option<String>,
    facts: &DashFacts,
) -> (r: DashResult<Filling>)
    ensures
        match r {
            Ok(g) => timeline(
                t.view(),
                first,
                f.view().segments,
                doc.deep_view(),
                children(doc.deep_view(), node as int, "S"@),
                children(doc.deep_view(), node as int, "S"@).len() as int,
                period.deep_view(),
                facts.deep_view(),
            ) is Ok && g.view() == (Filled {
                segments: timeline(
                    t.view(),
                    first,
                    f.view().segments,
                    doc.deep_view(),
                    children(doc.deep_view(), node as int, "S"@),
                    children(doc.deep_view(), node as int, "S"@).len() as int,
                    period.deep_view(),
                    facts.deep_view(),
                )->Ok_0.segments,
                ..f.view()
            }),
            Err(s) => timeline(
                t.view(),
                first,
                f.view().segments,
                doc.deep_view(),
                children(doc.deep_view(), node as int, "S"@),
                children(doc.deep_view(), node as int, "S"@).len() as int,
                period.deep_view(),
                facts.deep_view(),
            ) == DashView::<TimelineState>::Err(s.deep_view()),
        },
{
    let ghost start = f.view();
    let ghost view = doc.deep_view();
    let ghost tv = t.view();
    let ghost p = period.deep_view();
    let ghost fv = facts.deep_view();
    let nodes: Vec<usize> = children_of(doc, node, "S");
    let ghost ints = children(view, node as int, "S"@);
    assert(ints.len() == nodes@.len());
    let mut line: Timeline = Timeline { time: 0, number: first, index: 0, filling: f };
    let mut i: usize = 0;
    while i < nodes.len()
        invariant
            i <= nodes@.len(),
            view == doc.deep_view(),
            tv == t.view(),
            p == period.deep_view(),
            fv == facts.deep_view(),
            start == f.view(),
            ints == children(view, node as int, "S"@),
            ints == nodes@.map_values(|k: usize| k as int),
            forall|k: int| 0 <= k < nodes@.len() ==> #[trigger] nodes@[k] < doc@.len(),
            line.filling.view().init == start.init,
            timeline(tv, first, start.segments, view, ints, i as int, p, fv) == DashView::Ok(
                line.state(),
            ),
        decreases nodes@.len() - i,
    {
        assert(ints[i as int] == nodes@[i as int]);
        match line.entry(t, doc, nodes[i], period, facts) {
            Ok(_) => {},
            Err(s) => {
                proof {
                    lemma_timeline_stop(tv, first, start.segments, view, ints, i + 1, p, fv);
                }
                return Err(s);
            },
        }
        i = i + 1;
    }
    Ok(line.filling)
}

/// The segment with a number.
pub open spec fn numbered_segment(
    t: TemplateView,
    units: i64,
    first: i64,
    offset: int,
    is_dynamic: bool,
) -> MediaSegmentView {
    let number = wrap_i64(first + offset) as i64;
    MediaSegmentView {
        index: if is_dynamic {
            number
        } else {
            offset as i64
        },
        duration: MediaDurationView::Ticks { units: units as int, timescale: t.timescale as int },
        name_from_var: if contains(t.media, "$Number"@) {
            Some(dec_int(number as int))
        } else {
            None
        },
        url: combined_url(
            t.base,
            template_url(t.media, t.id, t.bandwidth, Some(number as int), None),
        ),
        ..blank_segment()
    }
}

/// Consecutive segments of equal duration.
pub open spec fn numbered_segments(
    t: TemplateView,
    units: i64,
    first: i64,
    count: i64,
    is_dynamic: bool,
) -> Seq<MediaSegmentView> {
    Seq::new(
        if count > 0 {
            count as nat
        } else {
            0
        },
        |k: int| numbered_segment(t, units, first, k, is_dynamic),
    )
}

fn add_numbered(f: &mut Filling, t: &Template, units: i64, first: i64, count: i64, is_dynamic: bool)
    ensures
        final(f).view() == (Filled {
            segments: old(f).view().segments + numbered_segments(
                t.view(),
                units,
                first,
                count,
                is_dynamic,
            ),
            ..old(f).view()
        }),
{
    let ghost start = f.view();
    let ghost tv = t.view();
    let ghost all = numbered_segments(tv, units, first, count, is_dynamic);
    let with_number: bool = has_text(t.media, "$Number");
    let mut k: i64 = 0;
    assert(start.segments + all.subrange(0, 0) =~= start.segments);
    while k < count
        invariant
            0 <= k,
            k <= count || k == 0,
            tv == t.view(),
            start == old(f).view(),
            with_number == contains(tv.media, "$Number"@),
            all == numbered_segments(tv, units, first, count, is_dynamic),
            f.view() == (Filled {
                segments: start.segments + all.subrange(0, k as int),
                ..start
            }),
        decreases count - k,
    {
        let number: i64 = first.wrapping_add(k);
        let mut segment: MediaSegment = MediaSegment::default();
        segment.index = if is_dynamic {
            number
        } else {
            k
        };
        segment.duration = MediaDuration::Ticks { units, timescale: t.timescale as i64 };
        segment.name_from_var = if with_number {
            Some(i64_text(number))
        } else {
            None
        };
        let media: String = replace_template(t.media, t.id, t.bandwidth, Some(number), None);
        segment.url = combine_url(t.base, media.as_str());
        assert(segment.deep_view() == numbered_segment(tv, units, first, k as int, is_dynamic));
        assert(all[k as int] == segment.deep_view());
        f.add(segment);
        assert((start.segments + all.subrange(0, k as int)).push(all[k as int]) =~= start.segments
            + all.subrange(0, k + 1));
        k = k + 1;
    }
    assert(all.subrange(0, all.len() as int) =~= all);
}

/// What the representations of a manifest share.
pub struct DashContextView {
    pub doc: Seq<XmlNodeView>,
    pub url: Seq<char>,
    pub original_url: Seq<char>,
    pub is_dynamic: bool,
    pub depth: Option<Seq<char>>,
    pub available: Option<Seq<char>>,
    pub publish_time: Option<Seq<char>>,
    pub facts: DashFactsView,
}

/// What the representations of a manifest share.
struct DashContext<'a> {
    doc: &'a Vec<XmlNode>,
    url: &'a str,
    original_url: &'a str,
    is_dynamic: bool,
    depth: &'a Option<String>,
    available: Option<&'a str>,
    publish_time: &'a Option<String>,
    facts: &'a DashFacts,
}

impl<'a> DashContext<'a> {
    spec fn view(&self) -> DashContextView {
        DashContextView {
            doc: self.doc.deep_view(),
            url: self.url@,
            original_url: self.original_url@,
            is_dynamic: self.is_dynamic,
            depth: self.depth.deep_view(),
            available: opt(self.available),
            publish_time: self.publish_time.deep_view(),
            facts: self.facts.deep_view(),
        }
    }

    spec fn wf(&self) -> bool {
        -100_000 <= self.facts.local_offset <= 100_000
    }
}

/// First number and count of the segments of a template with a fixed duration. A live presentation of
/// unknown length has those that its buffer holds.
pub open spec fn fixed_window(
    c: DashContextView,
    units: i64,
    timescale: i32,
    start_number: i64,
    offset: i64,
    period: Option<Seq<char>>,
) -> DashView<(i64, i64)> {
    match count_for(period, timescale, units, c.facts) {
        Err(s) => Err(s),
        Ok(total) => if total != 0 || !c.is_dynamic {
            Ok((start_number, total))
        } else {
            let available = match c.available {
                Some(text) => timestamp_of(text, c.facts.local_offset as int),
                None => None,
            };
            match available {
                None => Err(
                    DashStopView::Fail(
                        ErrorView::Protocol("invalid DASH availability start time"@),
                    ),
                ),
                Some(t) => {
                    let q = DashQuestionView::LiveWindow {
                        available: t.0 as i64,
                        offset,
                        depth: c.depth,
                        timescale,
                        duration: units,
                    };
                    match answer_from(c.facts.answers, q, 0) {
                        Some(DashAnswerView::Window { shift, count }) => Ok(
                            (wrap_i64(start_number + shift) as i64, count),
                        ),
                        _ => Err(DashStopView::Ask(q)),
                    }
                },
            }
        },
    }
}

fn segment_window(
    c: &DashContext,
    units: i64,
    timescale: i32,
    start_number: i64,
    offset: i64,
    period: &Option<String>,
) -> (r: DashResult<(i64, i64)>)
    requires
        c.wf(),
    ensures
        plain_dash(r) == fixed_window(
            c.view(),
            units,
            timescale,
            start_number,
            offset,
            period.deep_view(),
        ),
{
    let total: i64 = segment_count(period, timescale, units, c.facts)?;
    if total != 0 || !c.is_dynamic {
        return Ok((start_number, total));
    }
    let available: i64 = match c.available {
        None => {
            return refuse("invalid DASH availability start time");
        },
        Some(text) => match parse_manifest_timestamp_at(text, c.facts.local_offset) {
            None => {
                return refuse("invalid DASH availability start time");
            },
            Some(t) => t.unix_seconds,
        },
    };
    let q: DashQuestion = DashQuestion::LiveWindow {
        available,
        offset,
        depth: copy_opt(c.depth),
        timescale,
        duration: units,
    };
    match find_answer(c.facts, &q) {
        Some(DashAnswer::Window { shift, count }) => Ok(
            (start_number.wrapping_add(*shift), *count),
        ),
        _ => Err(DashStop::Ask(q)),
    }
}

/// An attribute of the inner template, else of the outer one.
pub open spec fn template_attr(doc: Seq<XmlNodeView>, inner: int, outer: int, name: Seq<char>) -> Option<
    Seq<char>,
> {
    either(attr_of(doc, inner, name), attr_of(doc, outer, name))
}

/// An attribute, empty where it is missing.
pub open spec fn attr_or_empty(doc: Seq<XmlNodeView>, node: int, name: Seq<char>) -> Seq<char> {
    match attr_of(doc, node, name) {
        Some(v) => v,
        None => ""@,
    }
}

/// What the segments of a template add, once its numbers are read.
pub open spec fn after_template_body(
    c: DashContextView,
    f: Filled,
    t: TemplateView,
    inner: int,
    outer: int,
    start_number: i64,
    offset: i64,
    period: Option<Seq<char>>,
) -> DashView<Filled> {
    match first_child(c.doc, inner, "SegmentTimeline"@) {
        Some(node) => {
            let nodes = children(c.doc, node, "S"@);
            match timeline(
                t,
                start_number,
                f.segments,
                c.doc,
                nodes,
                nodes.len() as int,
                period,
                c.facts,
            ) {
                Err(s) => Err(s),
                Ok(st) => Ok(Filled { segments: st.segments, ..f }),
            }
        },
        None => match template_attr(c.doc, inner, outer, "duration"@) {
            None => Err(
                DashStopView::Fail(ErrorView::Protocol("SegmentTemplate duration is invalid"@)),
            ),
            Some(text) => match int64_of(Some(text), "SegmentTemplate duration"@, 0) {
                Err(e) => Err(DashStopView::Fail(e)),
                Ok(units) => if units == 0 {
                    Err(
                        DashStopView::Fail(
                            ErrorView::Protocol("SegmentTemplate duration must be positive"@),
                        ),
                    )
                } else if units < 0 {
                    Ok(f)
                } else {
                    match fixed_window(
                        c,
                        units as i64,
                        t.timescale,
                        start_number,
                        offset,
                        period,
                    ) {
                        Err(s) => Err(s),
                        Ok((first, count)) => Ok(
                            Filled {
                                segments: f.segments + numbered_segments(
                                    t,
                                    units as i64,
                                    first,
                                    count,
                                    c.is_dynamic,
                                ),
                                ..f
                            },
                        ),
                    }
                },
            },
        },
    }
}

/// What `SegmentTemplate` adds.
pub open spec fn after_template(
    c: DashContextView,
    f: Filled,
    inner: int,
    outer: int,
    representation: int,
    base: Seq<char>,
    period: Option<Seq<char>>,
) -> DashView<Filled> {
    let id = attr_or_empty(c.doc, representation, "id"@);
    let bandwidth = attr_or_empty(c.doc, representation, "bandwidth"@);
    match (
        int32_of(
            template_attr(c.doc, inner, outer, "timescale"@),
            "SegmentTemplate timescale"@,
            1,
        ),
        int64_of(
            template_attr(c.doc, inner, outer, "startNumber"@),
            "SegmentTemplate startNumber"@,
            1,
        ),
        int64_of(
            template_attr(c.doc, inner, outer, "presentationTimeOffset"@),
            "SegmentTemplate presentationTimeOffset"@,
            0,
        ),
    ) {
        (Err(e), _, _) => Err(DashStopView::Fail(e)),
        (_, Err(e), _) => Err(DashStopView::Fail(e)),
        (_, _, Err(e)) => Err(DashStopView::Fail(e)),
        (Ok(timescale), Ok(start_number), Ok(offset)) => {
            let g = match template_attr(c.doc, inner, outer, "initialization"@) {
                Some(initialization) => Filled {
                    init: Some(
                        MediaSegmentView {
                            index: -1i64,
                            url: combined_url(
                                base,
                                template_url(initialization, id, bandwidth, None, None),
                            ),
                            ..blank_segment()
                        },
                    ),
                    ..f
                },
                None => f,
            };
            match template_attr(c.doc, inner, outer, "media"@) {
                None => Err(
                    DashStopView::Fail(ErrorView::Protocol("SegmentTemplate media is invalid"@)),
                ),
                Some(media) => after_template_body(
                    c,
                    g,
                    TemplateView { media, id, bandwidth, base, timescale: timescale as i32 },
                    inner,
                    outer,
                    start_number as i64,
                    offset as i64,
                    period,
                ),
            }
        },
    }
}

fn text_or<'a>(o: Option<&'a str>) -> (r: &'a str)
    ensures
        r@ == match opt(o) {
            Some(s) => s,
            None => ""@,
        },
{
    match o {
        Some(s) => s,
        None => "",
    }
}

fn fill_template(
    c: &DashContext,
    f: Filling,
    t: &Template,
    inner: usize,
    outer: usize,
    start_number: i64,
    offset: i64,
    period: &Option<String>,
) -> (r: DashResult<Filling>)
    requires
        c.wf(),
        inner < c.doc@.len(),
        outer < c.doc@.len(),
    ensures
        match r {
            Ok(g) => after_template_body(
                c.view(),
                f.view(),
                t.view(),
                inner as int,
                outer as int,
                start_number,
                offset,
                period.deep_view(),
            ) == DashView::Ok(g.view()),
            Err(s) => after_template_body(
                c.view(),
                f.view(),
                t.view(),
                inner as int,
                outer as int,
                start_number,
                offset,
                period.deep_view(),
            ) == DashView::<Filled>::Err(s.deep_view()),
        },
{
    match first_child_of(c.doc, inner, "SegmentTimeline") {
        Some(node) => expand_timeline(f, t, start_number, c.doc, node, period, c.facts),
        None => {
            let text: &str = match either_text(
                attr(c.doc, inner, "duration"),
                attr(c.doc, outer, "duration"),
            ) {
                Some(text) => text,
                None => {
                    return refuse("SegmentTemplate duration is invalid");
                },
            };
            let units: i64 = raise(parse_optional_i64(Some(text), "SegmentTemplate duration", 0))?;
            if units == 0 {
                return refuse("SegmentTemplate duration must be positive");
            }
            if units < 0 {
                return Ok(f);
            }
            let (first, count): (i64, i64) = segment_window(
                c,
                units,
                t.timescale,
                start_number,
                offset,
                period,
            )?;
            let mut f: Filling = f;
            add_numbered(&mut f, t, units, first, count, c.is_dynamic);
            Ok(f)
        },
    }
}

fn parse_segment_template(
    c: &DashContext,
    f: Filling,
    inner: usize,
    outer: usize,
    representation: usize,
    base: &str,
    period: &Option<String>,
) -> (r: DashResult<Filling>)
    requires
        c.wf(),
        inner < c.doc@.len(),
        outer < c.doc@.len(),
        representation < c.doc@.len(),
    ensures
        match r {
            Ok(g) => after_template(
                c.view(),
                f.view(),
                inner as int,
                outer as int,
                representation as int,
                base@,
                period.deep_view(),
            ) == DashView::Ok(g.view()),
            Err(s) => after_template(
                c.view(),
                f.view(),
                inner as int,
                outer as int,
                representation as int,
                base@,
                period.deep_view(),
            ) == DashView::<Filled>::Err(s.deep_view()),
        },
{
    let doc: &Vec<XmlNode> = c.doc;
    let id: &str = text_or(attr(doc, representation, "id"));
    let bandwidth: &str = text_or(attr(doc, representation, "bandwidth"));
    let timescale: i32 = raise(
        parse_optional_i32(
            either_text(attr(doc, inner, "timescale"), attr(doc, outer, "timescale")),
            "SegmentTemplate timescale",
            1,
        ),
    )?;
    let start_number: i64 = raise(
        parse_optional_i64(
            either_text(attr(doc, inner, "startNumber"), attr(doc, outer, "startNumber")),
            "SegmentTemplate startNumber",
            1,
        ),
    )?;
    let offset: i64 = raise(
        parse_optional_i64(
            either_text(
                attr(doc, inner, "presentationTimeOffset"),
                attr(doc, outer, "presentationTimeOffset"),
            ),
            "SegmentTemplate presentationTimeOffset",
            0,
        ),
    )?;
    let mut f: Filling = f;
    match either_text(attr(doc, inner, "initialization"), attr(doc, outer, "initialization")) {
        Some(initialization) => {
            let name: String = replace_template(initialization, id, bandwidth, None, None);
            let mut segment: MediaSegment = MediaSegment::default();
            segment.index = -1;
            segment.url = combine_url(base, name.as_str());
            f.init = Some(segment);
        },
        None => {},
    }
    let media: &str = match either_text(attr(doc, inner, "media"), attr(doc, outer, "media")) {
        Some(media) => media,
        None => {
            return refuse("SegmentTemplate media is invalid");
        },
    };
    let t: Template = Template { media, id, bandwidth, base, timescale };
    fill_template(c, f, &t, inner, outer, start_number, offset, period)
}

/// The segments of a representation: what its base, its list and its template give; where they give
/// none, one segment that spans the period.
pub open spec fn segments_of(
    c: DashContextView,
    adaptation: int,
    representation: int,
    base: Seq<char>,
    period: Option<Seq<char>>,
) -> DashView<Filled> {
    let empty = Filled { init: None, segments: Seq::empty() };
    let based = match first_child(c.doc, representation, "SegmentBase"@) {
        Some(node) => after_base(empty, c.doc, node, base, period),
        None => Ok(empty),
    };
    match based {
        Err(e) => Err(DashStopView::Fail(e)),
        Ok(f) => {
            let listed = match first_child(c.doc, representation, "SegmentList"@) {
                Some(node) => after_list(f, c.doc, node, base),
                None => Ok(f),
            };
            match listed {
                Err(e) => Err(DashStopView::Fail(e)),
                Ok(g) => {
                    let outer = first_child(c.doc, adaptation, "SegmentTemplate"@);
                    let inner = either(
                        first_child(c.doc, representation, "SegmentTemplate"@),
                        outer,
                    );
                    let filled = match inner {
                        Some(node) => after_template(
                            c,
                            g,
                            node,
                            match outer {
                                Some(o) => o,
                                None => node,
                            },
                            representation,
                            base,
                            period,
                        ),
                        None => Ok(g),
                    };
                    match filled {
                        Err(s) => Err(s),
                        Ok(h) => Ok(
                            if h.segments.len() == 0 {
                                Filled { segments: seq![whole_period(base, period)], ..h }
                            } else {
                                h
                            },
                        ),
                    }
                },
            }
        },
    }
}

fn fill_segments(
    c: &DashContext,
    adaptation: usize,
    representation: usize,
    base: &str,
    period: &Option<String>,
) -> (r: DashResult<Filling>)
    requires
        c.wf(),
        representation < c.doc@.len(),
    ensures
        match r {
            Ok(g) => segments_of(
                c.view(),
                adaptation as int,
                representation as int,
                base@,
                period.deep_view(),
            ) == DashView::Ok(g.view()),
            Err(s) => segments_of(
                c.view(),
                adaptation as int,
                representation as int,
                base@,
                period.deep_view(),
            ) == DashView::<Filled>::Err(s.deep_view()),
        },
{
    let doc: &Vec<XmlNode> = c.doc;
    let mut f: Filling = Filling { init: None, segments: Vec::new() };
    assert(f.segments.deep_view() =~= Seq::<MediaSegmentView>::empty());
    match first_child_of(doc, representation, "SegmentBase") {
        Some(node) => {
            raise(parse_segment_base(&mut f, doc, node, base, period))?;
        },
        None => {},
    }
    match first_child_of(doc, representation, "SegmentList") {
        Some(node) => {
            raise(parse_segment_list(&mut f, doc, node, base))?;
        },
        None => {},
    }
    let outer: Option<usize> = first_child_of(doc, adaptation, "SegmentTemplate");
    let own: Option<usize> = first_child_of(doc, representation, "SegmentTemplate");
    let inner: Option<usize> = if own.is_some() {
        own
    } else {
        outer
    };
    match inner {
        Some(node) => {
            let around: usize = match outer {
                Some(o) => o,
                None => node,
            };
            f = parse_segment_template(c, f, node, around, representation, base, period)?;
        },
        None => {},
    }
    if f.segments.len() == 0 {
        f.add(whole_period_segment(base, period));
        assert(f.view().segments =~= seq![whole_period(base@, period.deep_view())]);
    }
    Ok(f)
}

/// The kind of media of a representation.
pub open spec fn dash_media_type(source: Option<Seq<char>>, codecs: Option<Seq<char>>) -> Option<
    MediaType,
> {
    let head = split(
        match source {
            Some(s) => s,
            None => ""@,
        },
        "/"@,
    )[0];
    if codecs == Some("stpp"@) || codecs == Some("wvtt"@) {
        Some(MediaType::Subtitles)
    } else if head == "audio"@ {
        Some(MediaType::Audio)
    } else if head == "text"@ {
        Some(MediaType::Subtitles)
    } else {
        None
    }
}

fn media_type(source: Option<&str>, codecs: Option<&str>) -> (r: Option<MediaType>)
    ensures
        r == dash_media_type(opt(source), opt(codecs)),
{
    match codecs {
        Some(c) => {
            if same(c, "stpp") || same(c, "wvtt") {
                return Some(MediaType::Subtitles);
            }
        },
        None => {},
    }
    proof {
        reveal_strlit("/");
    }
    let value: &str = text_or(source);
    let pieces: Vec<String> = split_text(value, "/");
    proof {
        crate::text::lemma_split_not_empty(value@, "/"@);
        assert(pieces.deep_view()[0] == pieces@[0]@);
    }
    let head: &str = pieces[0].as_str();
    if same(head, "audio") {
        Some(MediaType::Audio)
    } else if same(head, "text") {
        Some(MediaType::Subtitles)
    } else {
        None
    }
}

/// The extension that a MIME type names.
pub open spec fn mime_extension(mime: Option<Seq<char>>, subtitle_role: bool) -> Option<Seq<char>> {
    match mime {
        None => None,
        Some(m) => if subtitle_role && contains(m, "ttml"@) {
            Some("ttml"@)
        } else if split(m, "/"@).len() > 1 {
            Some(split(m, "/"@)[1])
        } else {
            None
        },
    }
}

fn extension_from_mime(mime: Option<&str>, subtitle_role: bool) -> (r: Option<String>)
    ensures
        r.deep_view() == mime_extension(opt(mime), subtitle_role),
{
    match mime {
        None => None,
        Some(m) => {
            if subtitle_role && has_text(m, "ttml") {
                return Some(owned("ttml"));
            }
            proof {
                reveal_strlit("/");
            }
            let pieces: Vec<String> = split_text(m, "/");
            assert(pieces.deep_view().len() == pieces@.len());
            if pieces.len() > 1 {
                assert(pieces.deep_view()[1] == pieces@[1]@);
                Some(pieces[1].clone())
            } else {
                None
            }
        },
    }
}

/// A role, and whether it makes the representation a subtitle.
pub open spec fn role_of_value(value: Seq<char>) -> Option<(RoleType, bool)> {
    match role_of_token(value) {
        Some(role) => Some((role, role == RoleType::Subtitle)),
        None => if contains(value, "-"@) {
            match role_of_token(replace(value, "-"@, ""@)) {
                Some(role) => Some((role, role == RoleType::ForcedSubtitle)),
                None => None,
            }
        } else {
            None
        },
    }
}

fn parse_role_value(value: &str) -> (r: Option<(RoleType, bool)>)
    ensures
        r == role_of_value(value@),
{
    match RoleType::parse_enum_token(value) {
        Some(role) => Some((role, role == RoleType::Subtitle)),
        None => {
            if !has_text(value, "-") {
                return None;
            }
            proof {
                reveal_strlit("-");
            }
            let joined: String = replace_text(value, "-", "");
            match RoleType::parse_enum_token(joined.as_str()) {
                Some(role) => Some((role, role == RoleType::ForcedSubtitle)),
                None => None,
            }
        },
    }
}

/// The role that a node names.
pub open spec fn node_role(doc: Seq<XmlNodeView>, node: int) -> Option<(RoleType, bool)> {
    match first_child(doc, node, "Role"@) {
        None => None,
        Some(role) => match attr_of(doc, role, "value"@) {
            None => None,
            Some(value) => role_of_value(value),
        },
    }
}

fn role_type(doc: &Vec<XmlNode>, node: usize) -> (r: Option<(RoleType, bool)>)
    ensures
        r == node_role(doc.deep_view(), node as int),
{
    match first_child_of(doc, node, "Role") {
        None => None,
        Some(role) => match attr(doc, role, "value") {
            None => None,
            Some(value) => parse_role_value(value),
        },
    }
}

/// The language of a representation; one that is none is undetermined.
pub open spec fn language_of_tag(value: Option<Seq<char>>) -> Option<Seq<char>> {
    match value {
        None => None,
        Some(v) => if v.len() > 0 && forall|i: int|
            0 <= i < v.len() ==> (is_letter_or_number(#[trigger] v[i]) || v[i] == '_' || v[i]
                == '-') {
            Some(v)
        } else {
            Some("und"@)
        },
    }
}

fn filter_language(value: Option<&str>) -> (r: Option<String>)
    ensures
        r.deep_view() == language_of_tag(opt(value)),
{
    match value {
        None => None,
        Some(v) => {
            let chars: Vec<char> = to_chars(v);
            if chars.len() == 0 {
                return Some(owned("und"));
            }
            let mut i: usize = 0;
            while i < chars.len()
                invariant
                    chars@ == v@,
                    opt(value) == Some(v@),
                    chars@.len() > 0,
                    i <= chars@.len(),
                    forall|j: int|
                        0 <= j < i ==> (is_letter_or_number(#[trigger] chars@[j]) || chars@[j]
                            == '_' || chars@[j] == '-'),
                decreases chars@.len() - i,
            {
                if !(alphanumeric(chars[i]) || chars[i] == '_' || chars[i] == '-') {
                    assert(!(is_letter_or_number(v@[i as int]) || v@[i as int] == '_'
                        || v@[i as int] == '-'));
                    return Some(owned("und"));
                }
                i = i + 1;
            }
            Some(owned(v))
        },
    }
}

/// A frame rate such as `30000/1001`; one without a slash is none.
pub open spec fn frame_rate_of(value: Option<Seq<char>>, facts: DashFactsView) -> DashView<
    Option<Seq<char>>,
> {
    match value {
        None => Ok(None),
        Some(v) => match split_once(v, "/"@) {
            None => Ok(None),
            Some((a, b)) => match (manifest_number(a), manifest_number(b)) {
                (None, _) => Err(
                    DashStopView::Fail(
                        ErrorView::Protocol("DASH frameRate numerator is invalid"@),
                    ),
                ),
                (_, None) => Err(
                    DashStopView::Fail(
                        ErrorView::Protocol("DASH frameRate denominator is invalid"@),
                    ),
                ),
                (Some(numerator), Some(denominator)) => {
                    let q = DashQuestionView::FrameRate { numerator, denominator };
                    match answer_from(facts.answers, q, 0) {
                        Some(DashAnswerView::Rate(Some(rate))) => Ok(Some(rate)),
                        Some(DashAnswerView::Rate(None)) => Err(
                            DashStopView::Fail(ErrorView::Protocol("DASH frameRate is invalid"@)),
                        ),
                        _ => Err(DashStopView::Ask(q)),
                    }
                },
            },
        },
    }
}

fn parse_frame_rate(value: Option<&str>, facts: &DashFacts) -> (r: DashResult<Option<String>>)
    ensures
        view_dash(r) == frame_rate_of(opt(value), facts.deep_view()),
{
    proof {
        reveal_strlit("DASH frameRate numerator");
        reveal_strlit("DASH frameRate denominator");
        reveal_strlit(" is invalid");
        reveal_strlit("DASH frameRate numerator is invalid");
        reveal_strlit("DASH frameRate denominator is invalid");
        assert("DASH frameRate numerator"@ + " is invalid"@
            =~= "DASH frameRate numerator is invalid"@);
        assert("DASH frameRate denominator"@ + " is invalid"@
            =~= "DASH frameRate denominator is invalid"@);
    }
    let text: &str = match value {
        None => {
            return Ok(None);
        },
        Some(v) => v,
    };
    match cut_once(text, "/") {
        None => Ok(None),
        Some((a, b)) => {
            let numerator: String = raise(parse_manifest_number(a, "DASH frameRate numerator"))?;
            let denominator: String = raise(
                parse_manifest_number(b, "DASH frameRate denominator"),
            )?;
            let q: DashQuestion = DashQuestion::FrameRate { numerator, denominator };
            match find_answer(facts, &q) {
                Some(DashAnswer::Rate(Some(rate))) => Ok(Some(rate.clone())),
                Some(DashAnswer::Rate(None)) => refuse("DASH frameRate is invalid"),
                _ => Err(DashStop::Ask(q)),
            }
        },
    }
}

/// The text that an element of a given name begins with, without white space around it.
pub open spec fn text_of_child(doc: Seq<XmlNodeView>, node: int, name: Seq<char>) -> Option<Seq<char>> {
    match first_child(doc, node, name) {
        None => None,
        Some(child) => match doc[child].text {
            None => None,
            Some(t) => if trim(t).len() == 0 {
                None
            } else {
                Some(trim(t))
            },
        },
    }
}

fn child_text(doc: &Vec<XmlNode>, node: usize, name: &str) -> (r: Option<String>)
    ensures
        r.deep_view() == text_of_child(doc.deep_view(), node as int, name@),
{
    match first_child_of(doc, node, name) {
        None => None,
        Some(child) => {
            assert(doc.deep_view()[child as int] == doc@[child as int].deep_view());
            match &doc[child].text {
                None => None,
                Some(t) => {
                    let bare: &str = trimmed(t.as_str());
                    if bare.unicode_len() == 0 {
                        None
                    } else {
                        Some(owned(bare))
                    }
                },
            }
        },
    }
}

/// The base that the URLs inside a node are seen from.
pub open spec fn extended_base(doc: Seq<XmlNodeView>, node: int, base: Seq<char>) -> Seq<char> {
    match text_of_child(doc, node, "BaseURL"@) {
        Some(value) => combined_url(
            base,
            if contains(value, "kkbox.com.tw/"@) {
                replace(value, "//https:%2F%2F"@, "//"@)
            } else {
                value
            },
        ),
        None => base,
    }
}

fn extend_base_url(doc: &Vec<XmlNode>, node: usize, base: &str) -> (r: String)
    ensures
        r@ == extended_base(doc.deep_view(), node as int, base@),
{
    match child_text(doc, node, "BaseURL") {
        Some(value) => {
            if has_text(value.as_str(), "kkbox.com.tw/") {
                proof {
                    reveal_strlit("//https:%2F%2F");
                }
                let fixed: String = replace_text(value.as_str(), "//https:%2F%2F", "//");
                combine_url(base, fixed.as_str())
            } else {
                combine_url(base, value.as_str())
            }
        },
        None => owned(base),
    }
}

/// The group of a representation: its identifier, with the volume adjustment behind it.
pub open spec fn group_of(doc: Seq<XmlNodeView>, node: int) -> Option<Seq<char>> {
    match attr_of(doc, node, "id"@) {
        None => None,
        Some(id) => match attr_of(doc, node, "volumeAdjust"@) {
            Some(v) => Some(id + "-"@ + v),
            None => Some(id),
        },
    }
}

fn dash_group_id(doc: &Vec<XmlNode>, node: usize) -> (r: Option<String>)
    requires
        node < doc@.len(),
    ensures
        r.deep_view() == group_of(doc.deep_view(), node as int),
{
    match attr(doc, node, "id") {
        None => None,
        Some(id) => match attr(doc, node, "volumeAdjust") {
            Some(v) => Some(cat3(id, "-", v)),
            None => Some(owned(id)),
        },
    }
}

/// Width and height of a representation.
pub open spec fn resolution_of(doc: Seq<XmlNodeView>, node: int) -> Option<Seq<char>> {
    match (attr_of(doc, node, "width"@), attr_of(doc, node, "height"@)) {
        (Some(w), Some(h)) => Some(w + "x"@ + h),
        _ => None,
    }
}

fn resolution(doc: &Vec<XmlNode>, node: usize) -> (r: Option<String>)
    requires
        node < doc@.len(),
    ensures
        r.deep_view() == resolution_of(doc.deep_view(), node as int),
{
    match (attr(doc, node, "width"), attr(doc, node, "height")) {
        (Some(w), Some(h)) => Some(cat3(w, "x", h)),
        _ => None,
    }
}

/// The audio channels that a node states.
pub open spec fn channels_at(doc: Seq<XmlNodeView>, node: int) -> Option<Seq<char>> {
    match first_child(doc, node, "AudioChannelConfiguration"@) {
        Some(child) => attr_of(doc, child, "value"@),
        None => None,
    }
}

pub(crate) fn own_opt(o: Option<&str>) -> (r: Option<String>)
    ensures
        r.deep_view() == opt(o),
{
    match o {
        Some(s) => Some(owned(s)),
        None => None,
    }
}

fn audio_channels(doc: &Vec<XmlNode>, node: usize) -> (r: Option<String>)
    ensures
        r.deep_view() == channels_at(doc.deep_view(), node as int),
{
    match first_child_of(doc, node, "AudioChannelConfiguration") {
        Some(child) => own_opt(attr(doc, child, "value")),
        None => None,
    }
}

/// The playlist of a representation.
pub open spec fn dash_playlist(c: DashContextView, f: Filled) -> PlaylistView {
    PlaylistView {
        url: c.url,
        is_live: c.is_dynamic,
        refresh_interval: RefreshInterval::HalfBuffer,
        buffer_depth: c.depth,
        target_duration: None,
        media_init: f.init,
        media_parts: seq![f.segments],
    }
}

/// The stream of a representation, without its protection.
pub open spec fn representation_of(
    c: DashContextView,
    adaptation: int,
    representation: int,
    carried: Option<Seq<char>>,
    base: Seq<char>,
    period_id: Option<Seq<char>>,
    period: Option<Seq<char>>,
) -> DashView<StreamView> {
    let doc = c.doc;
    let role = either(node_role(doc, representation), node_role(doc, adaptation));
    let subtitle_role = role is Some && (role->0).1;
    let codecs = either(
        attr_of(doc, representation, "codecs"@),
        attr_of(doc, adaptation, "codecs"@),
    );
    match segments_of(c, adaptation, representation, base, period) {
        Err(s) => Err(s),
        Ok(f) => match int32_of(attr_of(doc, representation, "bandwidth"@), "DASH bandwidth"@, 0) {
            Err(e) => Err(DashStopView::Fail(e)),
            Ok(bandwidth) => {
                let outer_rate = frame_rate_of(attr_of(doc, adaptation, "frameRate"@), c.facts);
                let rate = match outer_rate {
                    Ok(None) => frame_rate_of(
                        attr_of(doc, representation, "frameRate"@),
                        c.facts,
                    ),
                    other => other,
                };
                match rate {
                    Err(s) => Err(s),
                    Ok(frame_rate) => {
                        let group_id = group_of(doc, representation);
                        Ok(
                            StreamView {
                                id: match group_id {
                                    Some(g) => g,
                                    None => base,
                                },
                                media_type: if subtitle_role {
                                    Some(MediaType::Subtitles)
                                } else {
                                    dash_media_type(carried, codecs)
                                },
                                group_id,
                                bandwidth: Some(bandwidth as i64),
                                codecs,
                                language: language_of_tag(
                                    either(
                                        attr_of(doc, representation, "lang"@),
                                        attr_of(doc, adaptation, "lang"@),
                                    ),
                                ),
                                name: text_of_child(doc, adaptation, "Label"@),
                                frame_rate,
                                resolution: resolution_of(doc, representation),
                                channels: either(
                                    channels_at(doc, adaptation),
                                    channels_at(doc, representation),
                                ),
                                extension: mime_extension(
                                    either(
                                        attr_of(doc, representation, "mimeType"@),
                                        attr_of(doc, adaptation, "mimeType"@),
                                    ),
                                    subtitle_role,
                                ),
                                role: match role {
                                    Some(r) => Some(r.0),
                                    None => None,
                                },
                                video_range: either(
                                    attr_of(doc, representation, "videoRange"@),
                                    attr_of(doc, adaptation, "videoRange"@),
                                ),
                                publish_time: c.publish_time,
                                period_id,
                                url: c.url,
                                original_url: c.original_url,
                                playlist: Some(dash_playlist(c, f)),
                                ..blank_stream()
                            },
                        )
                    },
                }
            },
        },
    }
}

fn parse_representation(
    c: &DashContext,
    adaptation: usize,
    representation: usize,
    carried: Option<&str>,
    base: &str,
    period_id: Option<&str>,
    period: &Option<String>,
) -> (r: DashResult<Stream>)
    requires
        c.wf(),
        adaptation < c.doc@.len(),
        representation < c.doc@.len(),
    ensures
        view_dash(r) == representation_of(
            c.view(),
            adaptation as int,
            representation as int,
            opt(carried),
            base@,
            opt(period_id),
            period.deep_view(),
        ),
{
    let doc: &Vec<XmlNode> = c.doc;
    let mime: Option<&str> = either_text(
        attr(doc, representation, "mimeType"),
        attr(doc, adaptation, "mimeType"),
    );
    let codecs: Option<&str> = either_text(
        attr(doc, representation, "codecs"),
        attr(doc, adaptation, "codecs"),
    );
    let role: Option<(RoleType, bool)> = match role_type(doc, representation) {
        Some(role) => Some(role),
        None => role_type(doc, adaptation),
    };
    let subtitle_role: bool = match role {
        Some((_, forced)) => forced,
        None => false,
    };
    let kind: Option<MediaType> = if subtitle_role {
        Some(MediaType::Subtitles)
    } else {
        media_type(carried, codecs)
    };
    let filling: Filling = fill_segments(c, adaptation, representation, base, period)?;
    let bandwidth: i32 = raise(
        parse_optional_i32(attr(doc, representation, "bandwidth"), "DASH bandwidth", 0),
    )?;
    let outer_rate: Option<String> = parse_frame_rate(attr(doc, adaptation, "frameRate"), c.facts)?;
    let frame_rate: Option<String> = match outer_rate {
        Some(rate) => Some(rate),
        None => parse_frame_rate(attr(doc, representation, "frameRate"), c.facts)?,
    };
    let group_id: Option<String> = dash_group_id(doc, representation);
    let ghost filled = filling.view();
    let Filling { init, segments } = filling;
    let mut parts: Vec<MediaPart> = Vec::new();
    parts.push(MediaPart { media_segments: segments });
    assert(parts.deep_view() =~= seq![filled.segments]);
    let playlist: Playlist = Playlist {
        url: owned(c.url),
        is_live: c.is_dynamic,
        refresh_interval: RefreshInterval::HalfBuffer,
        buffer_depth: copy_opt(c.depth),
        target_duration: None,
        media_init: init,
        media_parts: parts,
    };
    assert(playlist.deep_view() == dash_playlist(c.view(), filled));
    let mut stream: Stream = Stream::default();
    stream.id = match &group_id {
        Some(g) => g.clone(),
        None => owned(base),
    };
    stream.media_type = kind;
    stream.group_id = group_id;
    stream.bandwidth = Some(bandwidth as i64);
    stream.codecs = own_opt(codecs);
    stream.language = filter_language(
        either_text(attr(doc, representation, "lang"), attr(doc, adaptation, "lang")),
    );
    stream.name = child_text(doc, adaptation, "Label");
    stream.frame_rate = frame_rate;
    stream.resolution = resolution(doc, representation);
    let channels: Option<String> = audio_channels(doc, adaptation);
    stream.channels = match channels {
        Some(n) => Some(n),
        None => audio_channels(doc, representation),
    };
    stream.extension = extension_from_mime(mime, subtitle_role);
    stream.role = match role {
        Some((value, _)) => Some(value),
        None => None,
    };
    stream.video_range = own_opt(
        either_text(
            attr(doc, representation, "videoRange"),
            attr(doc, adaptation, "videoRange"),
        ),
    );
    stream.publish_time = copy_opt(c.publish_time);
    stream.period_id = own_opt(period_id);
    stream.url = owned(c.url);
    stream.original_url = owned(c.original_url);
    stream.playlist = Some(playlist);
    Ok(stream)
}

/// The first run of characters without white space; the whole text where there is none.
pub open spec fn first_word(s: Seq<char>) -> Seq<char> {
    let t = trim_start(s);
    if t.len() == 0 {
        s
    } else {
        take(t, word_end(t, 0))
    }
}

/// The first white space at or after `i`.
pub open spec fn word_end(s: Seq<char>, i: int) -> int
    decreases s.len() - i,
{
    if i < 0 || i >= s.len() || is_space(s[i]) {
        i
    } else {
        word_end(s, i + 1)
    }
}

fn leading_word<'a>(s: &'a str) -> (r: &'a str)
    ensures
        r@ == first_word(s@),
{
    let t: &str = trimmed_start(s);
    let v: Vec<char> = to_chars(t);
    if v.len() == 0 {
        return s;
    }
    let mut i: usize = 0;
    while i < v.len() && !space_char(v[i])
        invariant
            i <= v@.len(),
            word_end(v@, 0) == word_end(v@, i as int),
        decreases v@.len() - i,
    {
        i = i + 1;
    }
    slice(t, 0, i)
}

/// The sixteen bytes of a key identifier, with or without braces and hyphens.
pub open spec fn kid_bytes(value: Seq<char>) -> Option<Seq<u8>> {
    let bare = trim_char(trim_char(first_word(value), '{'), '}');
    let hex = replace(bare, "-"@, ""@);
    if hex.len() == 32 && crate::cli_values::all_hex(hex) {
        match crate::codec::hex_pairs(hex) {
            crate::codec::HexRunView::Bytes(b) => Some(b),
            _ => None,
        }
    } else {
        None
    }
}

pub(crate) fn parse_kid_hex(value: &str) -> (r: Option<Vec<u8>>)
    ensures
        opt_bytes(r) == kid_bytes(value@),
{
    let bare: &str = trimmed_char(trimmed_char(leading_word(value), '{'), '}');
    proof {
        reveal_strlit("-");
    }
    let hex: String = replace_text(bare, "-", "");
    if hex.as_str().unicode_len() != 32 || !crate::cli_values::only_hex(hex.as_str()) {
        return None;
    }
    match crate::codec::decode_hex_pairs(hex.as_str()) {
        crate::codec::HexRun::Bytes(b) => Some(b),
        _ => None,
    }
}

/// The scheme that a protection element names.
pub open spec fn protection_scheme(doc: Seq<XmlNodeView>, node: int) -> Option<Seq<char>> {
    let value = match attr_of(doc, node, "value"@) {
        Some(v) => trim(v),
        None => ""@,
    };
    if value.len() > 0 {
        Some(lower(value))
    } else {
        match attr_of(doc, node, "schemeIdUri"@) {
            Some(v) => if trim(v).len() > 0 {
                Some(lower(trim(v)))
            } else {
                None
            },
            None => None,
        }
    }
}

fn content_protection_scheme(doc: &Vec<XmlNode>, node: usize) -> (r: Option<String>)
    requires
        node < doc@.len(),
    ensures
        r.deep_view() == protection_scheme(doc.deep_view(), node as int),
{
    let value: &str = match attr(doc, node, "value") {
        Some(v) => trimmed(v),
        None => "",
    };
    if value.unicode_len() > 0 {
        return Some(lowered(value));
    }
    match attr(doc, node, "schemeIdUri") {
        Some(v) => {
            let uri: &str = trimmed(v);
            if uri.unicode_len() > 0 {
                Some(lowered(uri))
            } else {
                None
            }
        },
        None => None,
    }
}

/// The first text among nodes, from position `i` on, as bytes.
pub open spec fn text_among(doc: Seq<XmlNodeView>, nodes: Seq<int>, i: int) -> Option<Seq<u8>>
    decreases nodes.len() - i,
{
    if i < 0 || i >= nodes.len() {
        None
    } else {
        match doc[nodes[i]].text {
            Some(t) => Some(vstd::utf8::encode_utf8(t)),
            None => text_among(doc, nodes, i + 1),
        }
    }
}

/// The protection data inside a protection element.
pub open spec fn node_pssh(doc: Seq<XmlNodeView>, node: int) -> Option<Seq<u8>> {
    text_among(doc, children(doc, node, "pssh"@), 0)
}

fn bytes_of(s: &str) -> (r: Vec<u8>)
    ensures
        r@ == vstd::utf8::encode_utf8(s@),
{
    let b: &[u8] = s.as_bytes();
    let mut out: Vec<u8> = Vec::new();
    let mut i: usize = 0;
    while i < b.len()
        invariant
            i <= b@.len(),
            out@ =~= b@.subrange(0, i as int),
        decreases b@.len() - i,
    {
        out.push(b[i]);
        i = i + 1;
    }
    assert(b@.subrange(0, b@.len() as int) =~= b@);
    out
}

fn pssh_text(doc: &Vec<XmlNode>, node: usize) -> (r: Option<Vec<u8>>)
    ensures
        opt_bytes(r) == node_pssh(doc.deep_view(), node as int),
{
    let ghost view = doc.deep_view();
    let nodes: Vec<usize> = children_of(doc, node, "pssh");
    let ghost ints = children(view, node as int, "pssh"@);
    assert(ints.len() == nodes@.len());
    let mut i: usize = 0;
    while i < nodes.len()
        invariant
            i <= nodes@.len(),
            view == doc.deep_view(),
            ints == children(view, node as int, "pssh"@),
            ints == nodes@.map_values(|k: usize| k as int),
            forall|k: int| 0 <= k < nodes@.len() ==> #[trigger] nodes@[k] < doc@.len(),
            text_among(view, ints, 0) == text_among(view, ints, i as int),
        decreases nodes@.len() - i,
    {
        let child: usize = nodes[i];
        assert(ints[i as int] == child);
        assert(view[child as int] == doc@[child as int].deep_view());
        match &doc[child].text {
            Some(t) => {
                return Some(bytes_of(t.as_str()));
            },
            None => {},
        }
        i = i + 1;
    }
    None
}

/// A protection element of Widevine.
pub open spec fn is_widevine(doc: Seq<XmlNodeView>, node: int) -> bool {
    match attr_of(doc, node, "schemeIdUri"@) {
        Some(v) => contains(normal_token(v), "edef8ba979d64acea3c827dcd51d21ed"@),
        None => false,
    }
}

fn is_widevine_protection(doc: &Vec<XmlNode>, node: usize) -> (r: bool)
    requires
        node < doc@.len(),
    ensures
        r == is_widevine(doc.deep_view(), node as int),
{
    match attr(doc, node, "schemeIdUri") {
        Some(v) => {
            let token: String = normalize_token(v);
            has_text(token.as_str(), "edef8ba979d64acea3c827dcd51d21ed")
        },
        None => false,
    }
}

/// What protection elements say.
pub struct ProtectionView {
    pub kid: Option<Seq<u8>>,
    pub scheme: Option<Seq<char>>,
    pub first: Option<Seq<u8>>,
    pub widevine: Option<Seq<u8>>,
}

/// What the first `n` protection elements say: the first key identifier, the first scheme, the first
/// protection data and the last of Widevine.
pub open spec fn protections(doc: Seq<XmlNodeView>, nodes: Seq<int>, n: int) -> ProtectionView
    decreases n,
{
    if n <= 0 {
        ProtectionView { kid: None, scheme: None, first: None, widevine: None }
    } else {
        let before = protections(doc, nodes, n - 1);
        let node = nodes[n - 1];
        let pssh = node_pssh(doc, node);
        ProtectionView {
            kid: either(
                before.kid,
                match loose_attr_from(doc[node].attributes, "default_KID"@, 0) {
                    Some(v) => kid_bytes(v),
                    None => None,
                },
            ),
            scheme: either(before.scheme, protection_scheme(doc, node)),
            first: either(before.first, pssh),
            widevine: if is_widevine(doc, node) && pssh is Some {
                pssh
            } else {
                before.widevine
            },
        }
    }
}

/// What protection elements say.
struct Protection {
    kid: Option<Vec<u8>>,
    scheme: Option<String>,
    first: Option<Vec<u8>>,
    widevine: Option<Vec<u8>>,
}

impl Protection {
    spec fn view(&self) -> ProtectionView {
        ProtectionView {
            kid: opt_bytes(self.kid),
            scheme: self.scheme.deep_view(),
            first: opt_bytes(self.first),
            widevine: opt_bytes(self.widevine),
        }
    }
}

/// What the protection elements inside a node say.
pub open spec fn protection_at(doc: Seq<XmlNodeView>, node: int) -> ProtectionView {
    let nodes = children(doc, node, "ContentProtection"@);
    protections(doc, nodes, nodes.len() as int)
}

fn content_protection_info(doc: &Vec<XmlNode>, node: usize) -> (r: Protection)
    ensures
        r.view() == protection_at(doc.deep_view(), node as int),
{
    let ghost view = doc.deep_view();
    let nodes: Vec<usize> = children_of(doc, node, "ContentProtection");
    let ghost ints = children(view, node as int, "ContentProtection"@);
    assert(ints.len() == nodes@.len());
    let mut p: Protection = Protection { kid: None, scheme: None, first: None, widevine: None };
    let mut i: usize = 0;
    while i < nodes.len()
        invariant
            i <= nodes@.len(),
            view == doc.deep_view(),
            ints == nodes@.map_values(|k: usize| k as int),
            forall|k: int| 0 <= k < nodes@.len() ==> #[trigger] nodes@[k] < doc@.len(),
            p.view() == protections(view, ints, i as int),
        decreases nodes@.len() - i,
    {
        let child: usize = nodes[i];
        assert(ints[i as int] == child);
        if p.kid.is_none() {
            p.kid = match loose_attr(doc, child, "default_KID") {
                Some(v) => parse_kid_hex(v),
                None => None,
            };
        }
        if p.scheme.is_none() {
            p.scheme = content_protection_scheme(doc, child);
        }
        let pssh: Option<Vec<u8>> = pssh_text(doc, child);
        if is_widevine_protection(doc, child) && pssh.is_some() {
            p.widevine = copy_opt_bytes(&pssh);
        }
        if p.first.is_none() {
            p.first = pssh;
        }
        i = i + 1;
    }
    p
}

/// The encryption of a protected representation: what the adaptation set says, else what the
/// representation says.
pub open spec fn dash_encryption(doc: Seq<XmlNodeView>, adaptation: int, representation: int) -> EncryptionInfoView {
    let a = protection_at(doc, adaptation);
    let b = protection_at(doc, representation);
    EncryptionInfoView {
        method: EncryptionMethod::Cenc,
        kid: either(a.kid, b.kid),
        scheme: either(a.scheme, b.scheme),
        protection_data: either(either(a.widevine, a.first), either(b.widevine, b.first)),
        source: KeySource::Inline,
        ..no_encryption()
    }
}

fn either_bytes(a: Option<Vec<u8>>, b: Option<Vec<u8>>) -> (r: Option<Vec<u8>>)
    ensures
        opt_bytes(r) == either(opt_bytes(a), opt_bytes(b)),
{
    if a.is_some() {
        a
    } else {
        b
    }
}

/// Segments under an encryption.
pub open spec fn under(segments: Seq<MediaSegmentView>, e: EncryptionInfoView) -> Seq<
    MediaSegmentView,
> {
    segments.map_values(|s: MediaSegmentView| MediaSegmentView { encryption: e, ..s })
}

/// A representation that is protected.
pub open spec fn is_protected(doc: Seq<XmlNodeView>, adaptation: int, representation: int) -> bool {
    children(doc, adaptation, "ContentProtection"@).len() > 0 || children(
        doc,
        representation,
        "ContentProtection"@,
    ).len() > 0
}

/// A stream with an encryption on its initialization segment and on the segments of its first part.
pub open spec fn protected_stream(stream: StreamView, e: EncryptionInfoView) -> StreamView {
    match stream.playlist {
        None => stream,
        Some(p) => StreamView {
            playlist: Some(
                PlaylistView {
                    media_init: match p.media_init {
                        Some(init) => Some(MediaSegmentView { encryption: e, ..init }),
                        None => None,
                    },
                    media_parts: if p.media_parts.len() > 0 {
                        p.media_parts.update(0, under(p.media_parts[0], e))
                    } else {
                        p.media_parts
                    },
                    ..p
                },
            ),
            ..stream
        },
    }
}

fn encrypt_segments(segments: Vec<MediaSegment>, e: &EncryptionInfo) -> (r: Vec<MediaSegment>)
    ensures
        r.deep_view() == under(segments.deep_view(), e.deep_view()),
{
    let ghost all = segments.deep_view();
    let mut segments: Vec<MediaSegment> = segments;
    let mut i: usize = 0;
    while i < segments.len()
        invariant
            i <= segments@.len(),
            segments@.len() == all.len(),
            forall|k: int|
                0 <= k < i ==> (#[trigger] segments@[k]).deep_view() == (MediaSegmentView {
                    encryption: e.deep_view(),
                    ..all[k]
                }),
            forall|k: int|
                i <= k < all.len() ==> (#[trigger] segments@[k]).deep_view() == all[k],
        decreases segments@.len() - i,
    {
        let mut segment: MediaSegment = segments[i].clone();
        segment.encryption = e.clone();
        segments.set(i, segment);
        i = i + 1;
    }
    assert(segments.deep_view() =~= under(all, e.deep_view()));
    segments
}

pub(crate) fn protect_stream(stream: Stream, e: &EncryptionInfo) -> (r: Stream)
    ensures
        r.deep_view() == protected_stream(stream.deep_view(), e.deep_view()),
{
    let mut stream: Stream = stream;
    let ghost before = stream.deep_view();
    let mut taken: Option<Playlist> = None;
    core::mem::swap(&mut stream.playlist, &mut taken);
    match taken {
        None => {
            assert(stream.deep_view() == before);
            stream
        },
        Some(p) => {
            let ghost whole = p.deep_view();
            let mut p: Playlist = p;
            let mut init: Option<MediaSegment> = None;
            core::mem::swap(&mut p.media_init, &mut init);
            p.media_init = match init {
                Some(segment) => {
                    let mut segment: MediaSegment = segment;
                    segment.encryption = e.clone();
                    Some(segment)
                },
                None => None,
            };
            if p.media_parts.len() > 0 {
                let ghost parts = p.media_parts.deep_view();
                let copy: Vec<MediaSegment> = copy_segments(&p.media_parts[0].media_segments);
                let part: MediaPart = MediaPart { media_segments: encrypt_segments(copy, e) };
                let ghost view = part.deep_view();
                assert(parts[0] == p.media_parts@[0].deep_view());
                p.media_parts.set(0, part);
                assert(p.media_parts.deep_view() =~= parts.update(0, view));
            }
            stream.playlist = Some(p);
            stream
        },
    }
}

/// Two streams that continue each other over periods.
pub open spec fn continues(a: StreamView, b: StreamView) -> bool {
    a.period_id != b.period_id && a.group_id == b.group_id && a.resolution == b.resolution
        && a.media_type == b.media_type
}

/// The first stream that `s` continues, from position `i` on.
pub open spec fn continued_from(streams: Seq<StreamView>, s: StreamView, i: int) -> Option<int>
    decreases streams.len() - i,
{
    if i < 0 || i >= streams.len() {
        None
    } else if continues(streams[i], s) {
        Some(i)
    } else {
        continued_from(streams, s, i + 1)
    }
}

/// The last segment of parts.
pub open spec fn last_segment(parts: Seq<Seq<MediaSegmentView>>) -> Option<MediaSegmentView> {
    if parts.len() > 0 && parts.last().len() > 0 {
        Some(parts.last().last())
    } else {
        None
    }
}

/// Parts with the number of each segment raised.
pub open spec fn raised_part(part: Seq<MediaSegmentView>, by: int) -> Seq<MediaSegmentView> {
    part.map_values(
        |s: MediaSegmentView| MediaSegmentView { index: wrap_i64(s.index + by) as i64, ..s },
    )
}

/// Parts with the number of each segment raised.
pub open spec fn raised_parts(parts: Seq<Seq<MediaSegmentView>>, by: int) -> Seq<
    Seq<MediaSegmentView>,
> {
    parts.map_values(|p: Seq<MediaSegmentView>| raised_part(p, by))
}

/// A part whose last segment lasts longer by the durations of others.
pub open spec fn prolonged(part: Seq<MediaSegmentView>, more: Seq<MediaSegmentView>) -> Seq<
    MediaSegmentView,
> {
    part.update(
        part.len() - 1,
        MediaSegmentView {
            added_durations: part.last().added_durations.push(
                more.map_values(|s: MediaSegmentView| s.duration),
            ),
            ..part.last()
        },
    )
}

/// The playlist of a stream over two periods. Where both end in the same segment the first lasts
/// longer; else the parts of the second follow, numbered on.
pub open spec fn joined_playlist(a: PlaylistView, b: PlaylistView) -> PlaylistView {
    let end = last_segment(a.media_parts);
    let new_end = if b.media_parts.len() > 0 && b.media_parts[0].len() > 0 {
        Some(b.media_parts[0].last())
    } else {
        None
    };
    if end is Some && new_end is Some && (end->0).url == (new_end->0).url {
        PlaylistView {
            media_parts: a.media_parts.update(
                a.media_parts.len() - 1,
                prolonged(a.media_parts.last(), b.media_parts[0]),
            ),
            ..a
        }
    } else {
        let by = match end {
            Some(s) => wrap_i64(s.index + 1),
            None => 0,
        };
        PlaylistView { media_parts: a.media_parts + raised_parts(b.media_parts, by), ..a }
    }
}

/// The streams with one more: in a static manifest one that continues another is put to it.
pub open spec fn with_stream(streams: Seq<StreamView>, s: StreamView, is_dynamic: bool) -> Seq<
    StreamView,
> {
    match continued_from(streams, s, 0) {
        Some(i) => if is_dynamic {
            streams.push(s)
        } else {
            match (streams[i].playlist, s.playlist) {
                (Some(a), Some(b)) => streams.update(
                    i,
                    StreamView { playlist: Some(joined_playlist(a, b)), ..streams[i] },
                ),
                _ => streams,
            }
        },
        None => streams.push(s),
    }
}

fn stream_continues(a: &Stream, b: &Stream) -> (r: bool)
    ensures
        r == continues(a.deep_view(), b.deep_view()),
{
    let same_type: bool = match (a.media_type, b.media_type) {
        (Some(x), Some(y)) => x == y,
        (None, None) => true,
        _ => false,
    };
    !same_opt(&a.period_id, &b.period_id) && same_opt(&a.group_id, &b.group_id) && same_opt(
        &a.resolution,
        &b.resolution,
    ) && same_type
}

fn find_continued(streams: &Vec<Stream>, s: &Stream) -> (r: Option<usize>)
    ensures
        match r {
            Some(i) => i < streams@.len() && continued_from(
                streams.deep_view(),
                s.deep_view(),
                0,
            ) == Some(i as int),
            None => continued_from(streams.deep_view(), s.deep_view(), 0) is None,
        },
{
    let ghost all = streams.deep_view();
    let mut i: usize = 0;
    while i < streams.len()
        invariant
            i <= streams@.len(),
            all == streams.deep_view(),
            continued_from(all, s.deep_view(), 0) == continued_from(all, s.deep_view(), i as int),
        decreases streams@.len() - i,
    {
        assert(all[i as int] == streams@[i as int].deep_view());
        if stream_continues(&streams[i], s) {
            return Some(i);
        }
        i = i + 1;
    }
    None
}

fn raise_part(part: &MediaPart, by: i64) -> (r: MediaPart)
    ensures
        r.deep_view() == raised_part(part.deep_view(), by as int),
{
    let ghost all = part.deep_view();
    let mut out: Vec<MediaSegment> = Vec::new();
    let mut i: usize = 0;
    while i < part.media_segments.len()
        invariant
            i <= part.media_segments@.len(),
            all == part.deep_view(),
            out.deep_view() =~= raised_part(all.subrange(0, i as int), by as int),
        decreases part.media_segments@.len() - i,
    {
        let mut segment: MediaSegment = part.media_segments[i].clone();
        segment.index = segment.index.wrapping_add(by);
        assert(segment.deep_view() == (MediaSegmentView {
            index: wrap_i64(all[i as int].index + by) as i64,
            ..all[i as int]
        }));
        let ghost before = out.deep_view();
        let ghost item = segment.deep_view();
        out.push(segment);
        assert(out.deep_view() =~= before.push(item));
        i = i + 1;
    }
    assert(all.subrange(0, all.len() as int) =~= all);
    MediaPart { media_segments: out }
}

fn durations_of(part: &MediaPart) -> (r: Vec<MediaDuration>)
    ensures
        r.deep_view() == part.deep_view().map_values(|s: MediaSegmentView| s.duration),
{
    let ghost all = part.deep_view();
    let mut out: Vec<MediaDuration> = Vec::new();
    let mut i: usize = 0;
    while i < part.media_segments.len()
        invariant
            i <= part.media_segments@.len(),
            all == part.deep_view(),
            out.deep_view() =~= all.subrange(0, i as int).map_values(
                |s: MediaSegmentView| s.duration,
            ),
        decreases part.media_segments@.len() - i,
    {
        let item: MediaDuration = part.media_segments[i].duration.clone();
        assert(item.deep_view() == all[i as int].duration);
        let ghost before = out.deep_view();
        let ghost view = item.deep_view();
        out.push(item);
        assert(out.deep_view() =~= before.push(view));
        i = i + 1;
    }
    assert(all.subrange(0, all.len() as int) =~= all);
    out
}

fn prolong(part: MediaPart, more: &MediaPart) -> (r: MediaPart)
    requires
        part.deep_view().len() > 0,
    ensures
        r.deep_view() == prolonged(part.deep_view(), more.deep_view()),
{
    let ghost all = part.deep_view();
    let mut segments: Vec<MediaSegment> = part.media_segments;
    let n: usize = segments.len() - 1;
    let mut last: MediaSegment = segments[n].clone();
    let group: Vec<MediaDuration> = durations_of(more);
    let ghost groups = last.added_durations.deep_view();
    let ghost added = group.deep_view();
    last.added_durations.push(group);
    assert(last.added_durations.deep_view() =~= groups.push(added));
    assert(all.last() == segments@[n as int].deep_view());
    let ghost item = last.deep_view();
    segments.set(n, last);
    let r = MediaPart { media_segments: segments };
    assert(r.deep_view() =~= all.update(n as int, item));
    r
}

fn join_playlists(a: Playlist, b: &Playlist) -> (r: Playlist)
    ensures
        r.deep_view() == joined_playlist(a.deep_view(), b.deep_view()),
{
    let ghost av = a.deep_view();
    let ghost bv = b.deep_view();
    let mut a: Playlist = a;
    let count: usize = a.media_parts.len();
    let mut by: i64 = 0;
    if count > 0 {
        assert(av.media_parts.last() == a.media_parts@[count - 1].deep_view());
        let tail: &MediaPart = &a.media_parts[count - 1];
        let size: usize = tail.media_segments.len();
        if size > 0 {
            let end: &MediaSegment = &tail.media_segments[size - 1];
            assert(last_segment(av.media_parts) == Some(end.deep_view()));
            if b.media_parts.len() > 0 {
                assert(bv.media_parts[0] == b.media_parts@[0].deep_view());
                let head: &MediaPart = &b.media_parts[0];
                let more: usize = head.media_segments.len();
                if more > 0 {
                    let new_end: &MediaSegment = &head.media_segments[more - 1];
                    assert(bv.media_parts[0].last() == new_end.deep_view());
                    if same(end.url.as_str(), new_end.url.as_str()) {
                        let copy: MediaPart = tail.clone();
                        let longer: MediaPart = prolong(copy, head);
                        let ghost view = longer.deep_view();
                        a.media_parts.set(count - 1, longer);
                        assert(a.media_parts.deep_view() =~= av.media_parts.update(
                            count - 1,
                            view,
                        ));
                        return a;
                    }
                }
            }
            by = end.index.wrapping_add(1);
        }
    }
    let ghost parts = bv.media_parts;
    let mut i: usize = 0;
    assert(av.media_parts + raised_parts(parts.subrange(0, 0), by as int) =~= av.media_parts);
    while i < b.media_parts.len()
        invariant
            i <= b.media_parts@.len(),
            bv == b.deep_view(),
            parts == bv.media_parts,
            a.deep_view() == (PlaylistView {
                media_parts: av.media_parts + raised_parts(parts.subrange(0, i as int), by as int),
                ..av
            }),
        decreases b.media_parts@.len() - i,
    {
        let part: MediaPart = raise_part(&b.media_parts[i], by);
        assert(parts[i as int] == b.media_parts@[i as int].deep_view());
        let ghost before = a.media_parts.deep_view();
        let ghost view = part.deep_view();
        a.media_parts.push(part);
        assert(a.media_parts.deep_view() =~= before.push(view));
        assert(before.push(view) =~= av.media_parts + raised_parts(
            parts.subrange(0, i + 1),
            by as int,
        ));
        i = i + 1;
    }
    assert(parts.subrange(0, parts.len() as int) =~= parts);
    a
}

fn merge_or_push_stream(streams: &mut Vec<Stream>, stream: Stream, is_dynamic: bool)
    ensures
        final(streams).deep_view() == with_stream(
            old(streams).deep_view(),
            stream.deep_view(),
            is_dynamic,
        ),
{
    let ghost all = streams.deep_view();
    let ghost view = stream.deep_view();
    let found: Option<usize> = if is_dynamic {
        None
    } else {
        find_continued(streams, &stream)
    };
    match found {
        None => {
            streams.push(stream);
            assert(streams.deep_view() =~= all.push(view));
        },
        Some(i) => {
            let mut existing: Stream = streams[i].clone();
            assert(all[i as int] == existing.deep_view());
            let mut taken: Option<Playlist> = None;
            core::mem::swap(&mut existing.playlist, &mut taken);
            match (taken, &stream.playlist) {
                (Some(a), Some(b)) => {
                    let joined: Playlist = join_playlists(a, b);
                    existing.playlist = Some(joined);
                    let ghost item = existing.deep_view();
                    streams.set(i, existing);
                    assert(streams.deep_view() =~= all.update(i as int, item));
                },
                _ => {},
            }
        },
    }
}

/// The bandwidth of a stream; zero where it is unknown.
pub open spec fn bandwidth_of(s: StreamView) -> int {
    match s.bandwidth {
        Some(b) => b as int,
        None => 0,
    }
}

/// Among the first `n` streams of a kind the last of those with the greatest bandwidth.
pub open spec fn widest(streams: Seq<StreamView>, kind: MediaType, n: int) -> Option<int>
    decreases n,
{
    if n <= 0 {
        None
    } else {
        let before = widest(streams, kind, n - 1);
        if streams[n - 1].media_type != Some(kind) {
            before
        } else {
            match before {
                None => Some(n - 1),
                Some(k) => if bandwidth_of(streams[n - 1]) >= bandwidth_of(streams[k]) {
                    Some(n - 1)
                } else {
                    Some(k)
                },
            }
        }
    }
}

/// The group of the widest stream of a kind.
pub open spec fn widest_group(streams: Seq<StreamView>, kind: MediaType) -> Option<Seq<char>> {
    match widest(streams, kind, streams.len() as int) {
        Some(k) => streams[k].group_id,
        None => None,
    }
}

/// The widest stream is of the kind, and none of the kind is wider.
pub proof fn law_widest_is_widest(streams: Seq<StreamView>, kind: MediaType, n: int)
    requires
        0 <= n <= streams.len(),
    ensures
        match widest(streams, kind, n) {
            Some(k) => 0 <= k < n && streams[k].media_type == Some(kind) && forall|i: int|
                0 <= i < n && (#[trigger] streams[i]).media_type == Some(kind) ==> bandwidth_of(
                    streams[i],
                ) <= bandwidth_of(streams[k]),
            None => forall|i: int|
                0 <= i < n ==> (#[trigger] streams[i]).media_type != Some(kind),
        },
    decreases n,
{
    if n > 0 {
        law_widest_is_widest(streams, kind, n - 1);
    }
}

fn default_group(streams: &Vec<Stream>, kind: MediaType) -> (r: Option<String>)
    ensures
        r.deep_view() == widest_group(streams.deep_view(), kind),
{
    let ghost all = streams.deep_view();
    let mut best: Option<usize> = None;
    let mut i: usize = 0;
    while i < streams.len()
        invariant
            i <= streams@.len(),
            all == streams.deep_view(),
            match best {
                Some(k) => k < i && widest(all, kind, i as int) == Some(k as int),
                None => widest(all, kind, i as int) is None,
            },
        decreases streams@.len() - i,
    {
        assert(all[i as int] == streams@[i as int].deep_view());
        let matches_kind: bool = match streams[i].media_type {
            Some(t) => t == kind,
            None => false,
        };
        if matches_kind {
            let width: i64 = match streams[i].bandwidth {
                Some(b) => b,
                None => 0,
            };
            best = match best {
                None => Some(i),
                Some(k) => {
                    assert(all[k as int] == streams@[k as int].deep_view());
                    let other: i64 = match streams[k].bandwidth {
                        Some(b) => b,
                        None => 0,
                    };
                    if width >= other {
                        Some(i)
                    } else {
                        Some(k)
                    }
                },
            };
        }
        i = i + 1;
    }
    match best {
        Some(k) => {
            assert(all[k as int] == streams@[k as int].deep_view());
            copy_opt(&streams[k].group_id)
        },
        None => None,
    }
}

/// A stream with a picture gets the sound and subtitles that go with it where it names none.
pub open spec fn with_default_tracks(s: StreamView, audio: Option<Seq<char>>, subtitle: Option<Seq<char>>) -> StreamView {
    if s.resolution is Some {
        StreamView {
            audio_id: either(s.audio_id, audio),
            subtitle_id: either(s.subtitle_id, subtitle),
            ..s
        }
    } else {
        s
    }
}

/// All streams with given default tracks.
pub open spec fn given_tracks(
    streams: Seq<StreamView>,
    audio: Option<Seq<char>>,
    subtitle: Option<Seq<char>>,
) -> Seq<StreamView> {
    streams.map_values(|s: StreamView| with_default_tracks(s, audio, subtitle))
}

/// All streams with their default tracks.
pub open spec fn with_tracks(streams: Seq<StreamView>) -> Seq<StreamView> {
    given_tracks(
        streams,
        widest_group(streams, MediaType::Audio),
        widest_group(streams, MediaType::Subtitles),
    )
}

pub(crate) fn give_tracks(
    streams: &mut Vec<Stream>,
    audio: &Option<String>,
    subtitle: &Option<String>,
)
    ensures
        final(streams).deep_view() == given_tracks(
            old(streams).deep_view(),
            audio.deep_view(),
            subtitle.deep_view(),
        ),
{
    let ghost all = streams.deep_view();
    let ghost a = audio.deep_view();
    let ghost b = subtitle.deep_view();
    let mut i: usize = 0;
    while i < streams.len()
        invariant
            i <= streams@.len(),
            streams@.len() == all.len(),
            a == audio.deep_view(),
            b == subtitle.deep_view(),
            forall|k: int|
                0 <= k < i ==> (#[trigger] streams@[k]).deep_view() == with_default_tracks(
                    all[k],
                    a,
                    b,
                ),
            forall|k: int| i <= k < all.len() ==> (#[trigger] streams@[k]).deep_view() == all[k],
        decreases streams@.len() - i,
    {
        let mut s: Stream = streams[i].clone();
        assert(s.deep_view() == all[i as int]);
        if s.resolution.is_some() {
            if s.audio_id.is_none() {
                s.audio_id = copy_opt(audio);
            }
            if s.subtitle_id.is_none() {
                s.subtitle_id = copy_opt(subtitle);
            }
        }
        streams.set(i, s);
        i = i + 1;
    }
    assert(streams.deep_view() =~= given_tracks(all, a, b));
}

fn apply_default_tracks(streams: &mut Vec<Stream>)
    ensures
        final(streams).deep_view() == with_tracks(old(streams).deep_view()),
{
    let audio: Option<String> = default_group(streams, MediaType::Audio);
    let subtitle: Option<String> = default_group(streams, MediaType::Subtitles);
    give_tracks(streams, &audio, &subtitle);
}

/// A stream with more than one segment, or without extension, holds fragments.
pub open spec fn with_fragment_extension(s: StreamView) -> StreamView {
    if s.media_type == Some(MediaType::Subtitles) {
        if s.extension == Some("mp4"@) {
            StreamView { extension: Some("m4s"@), ..s }
        } else {
            s
        }
    } else if s.extension is None || crate::manifest::stream_segments(s) > 1 {
        StreamView { extension: Some("m4s"@), ..s }
    } else {
        s
    }
}

fn has_several_segments(s: &Stream) -> (r: bool)
    ensures
        r == (crate::manifest::stream_segments(s.deep_view()) > 1),
{
    match &s.playlist {
        None => false,
        Some(p) => {
            let ghost parts = p.media_parts.deep_view();
            let mut seen: bool = false;
            let mut i: usize = 0;
            assert(parts.subrange(0, 0) =~= Seq::<Seq<MediaSegmentView>>::empty());
            while i < p.media_parts.len()
                invariant
                    i <= p.media_parts@.len(),
                    parts == p.media_parts.deep_view(),
                    s.deep_view().playlist is Some,
                    (s.deep_view().playlist->0).media_parts == parts,
                    seen == (count_segments(parts.subrange(0, i as int)) == 1),
                    count_segments(parts.subrange(0, i as int)) <= 1,
                decreases p.media_parts@.len() - i,
            {
                assert(parts.subrange(0, i + 1).drop_last() =~= parts.subrange(0, i as int));
                assert(parts.subrange(0, i + 1).last() == p.media_parts@[i as int].deep_view());
                let n: usize = p.media_parts[i].media_segments.len();
                if n > 1 || (seen && n > 0) {
                    proof {
                        crate::manifest::lemma_count_grows(parts, i + 1);
                    }
                    return true;
                }
                if n == 1 {
                    seen = true;
                }
                i = i + 1;
            }
            assert(parts.subrange(0, parts.len() as int) =~= parts);
            false
        },
    }
}

/// All streams with their extensions.
pub open spec fn with_extensions(streams: Seq<StreamView>) -> Seq<StreamView> {
    streams.map_values(|s: StreamView| with_fragment_extension(s))
}

fn normalize_dash_extensions(streams: &mut Vec<Stream>)
    ensures
        final(streams).deep_view() == with_extensions(old(streams).deep_view()),
{
    let ghost all = streams.deep_view();
    let mut i: usize = 0;
    while i < streams.len()
        invariant
            i <= streams@.len(),
            streams@.len() == all.len(),
            forall|k: int|
                0 <= k < i ==> (#[trigger] streams@[k]).deep_view() == with_fragment_extension(
                    all[k],
                ),
            forall|k: int| i <= k < all.len() ==> (#[trigger] streams@[k]).deep_view() == all[k],
        decreases streams@.len() - i,
    {
        let mut s: Stream = streams[i].clone();
        assert(s.deep_view() == all[i as int]);
        let subtitles: bool = match s.media_type {
            Some(MediaType::Subtitles) => true,
            _ => false,
        };
        let change: bool = if subtitles {
            match &s.extension {
                Some(e) => same(e.as_str(), "mp4"),
                None => false,
            }
        } else {
            s.extension.is_none() || has_several_segments(&s)
        };
        if change {
            s.extension = Some(owned("m4s"));
        }
        streams.set(i, s);
        i = i + 1;
    }
    assert(streams.deep_view() =~= with_extensions(all));
}

/// The kind of media that the representations of a set share: what the set says, else what its first
/// representation says.
pub open spec fn carried_type(doc: Seq<XmlNodeView>, adaptation: int, reps: Seq<int>) -> Option<Seq<char>> {
    let own = either(
        attr_of(doc, adaptation, "contentType"@),
        attr_of(doc, adaptation, "mimeType"@),
    );
    if own is Some {
        own
    } else if reps.len() > 0 {
        match either(attr_of(doc, reps[0], "contentType"@), attr_of(doc, reps[0], "mimeType"@)) {
            Some(t) => Some(t),
            None => Some(""@),
        }
    } else {
        None
    }
}

/// Where a representation stands.
pub struct PeriodView {
    pub id: Option<Seq<char>>,
    pub duration: Option<Seq<char>>,
}

/// The streams after one more representation.
pub open spec fn after_representation(
    c: DashContextView,
    streams: Seq<StreamView>,
    adaptation: int,
    representation: int,
    carried: Option<Seq<char>>,
    base: Seq<char>,
    period: PeriodView,
) -> DashView<Seq<StreamView>> {
    match representation_of(
        c,
        adaptation,
        representation,
        carried,
        extended_base(c.doc, representation, base),
        period.id,
        period.duration,
    ) {
        Err(s) => Err(s),
        Ok(stream) => Ok(
            with_stream(
                streams,
                if is_protected(c.doc, adaptation, representation) {
                    protected_stream(
                        stream,
                        dash_encryption(c.doc, adaptation, representation),
                    )
                } else {
                    stream
                },
                c.is_dynamic,
            ),
        ),
    }
}

/// The streams after the first `n` representations of a set.
pub open spec fn after_representations(
    c: DashContextView,
    streams: Seq<StreamView>,
    adaptation: int,
    reps: Seq<int>,
    n: int,
    base: Seq<char>,
    period: PeriodView,
) -> DashView<Seq<StreamView>>
    decreases n,
{
    if n <= 0 {
        Ok(streams)
    } else {
        match after_representations(c, streams, adaptation, reps, n - 1, base, period) {
            Err(s) => Err(s),
            Ok(before) => after_representation(
                c,
                before,
                adaptation,
                reps[n - 1],
                carried_type(c.doc, adaptation, reps),
                base,
                period,
            ),
        }
    }
}

/// The streams after the first `n` sets of a period.
pub open spec fn after_adaptations(
    c: DashContextView,
    streams: Seq<StreamView>,
    sets: Seq<int>,
    n: int,
    base: Seq<char>,
    period: PeriodView,
) -> DashView<Seq<StreamView>>
    decreases n,
{
    if n <= 0 {
        Ok(streams)
    } else {
        match after_adaptations(c, streams, sets, n - 1, base, period) {
            Err(s) => Err(s),
            Ok(before) => {
                let reps = children(c.doc, sets[n - 1], "Representation"@);
                after_representations(
                    c,
                    before,
                    sets[n - 1],
                    reps,
                    reps.len() as int,
                    extended_base(c.doc, sets[n - 1], base),
                    period,
                )
            },
        }
    }
}

/// The streams after the first `n` periods.
pub open spec fn after_periods(
    c: DashContextView,
    periods: Seq<int>,
    n: int,
    base: Seq<char>,
    media_duration: Option<Seq<char>>,
) -> DashView<Seq<StreamView>>
    decreases n,
{
    if n <= 0 {
        Ok(Seq::empty())
    } else {
        match after_periods(c, periods, n - 1, base, media_duration) {
            Err(s) => Err(s),
            Ok(before) => {
                let node = periods[n - 1];
                match optional_duration(attr_of(c.doc, node, "duration"@), "Period duration"@) {
                    Err(e) => Err(DashStopView::Fail(e)),
                    Ok(own) => {
                        let sets = children(c.doc, node, "AdaptationSet"@);
                        after_adaptations(
                            c,
                            before,
                            sets,
                            sets.len() as int,
                            extended_base(c.doc, node, base),
                            PeriodView {
                                id: attr_of(c.doc, node, "id"@),
                                duration: either(own, media_duration),
                            },
                        )
                    },
                }
            },
        }
    }
}

fn parse_one_representation(
    c: &DashContext,
    streams: &mut Vec<Stream>,
    adaptation: usize,
    representation: usize,
    carried: Option<&str>,
    base: &str,
    period_id: Option<&str>,
    period: &Option<String>,
) -> (r: DashResult<()>)
    requires
        c.wf(),
        adaptation < c.doc@.len(),
        representation < c.doc@.len(),
    ensures
        match r {
            Ok(_) => after_representation(
                c.view(),
                old(streams).deep_view(),
                adaptation as int,
                representation as int,
                opt(carried),
                base@,
                PeriodView { id: opt(period_id), duration: period.deep_view() },
            ) == DashView::Ok(final(streams).deep_view()),
            Err(s) => after_representation(
                c.view(),
                old(streams).deep_view(),
                adaptation as int,
                representation as int,
                opt(carried),
                base@,
                PeriodView { id: opt(period_id), duration: period.deep_view() },
            ) == DashView::<Seq<StreamView>>::Err(s.deep_view()),
        },
{
    let doc: &Vec<XmlNode> = c.doc;
    let own_base: String = extend_base_url(doc, representation, base);
    let mut stream: Stream = parse_representation(
        c,
        adaptation,
        representation,
        carried,
        own_base.as_str(),
        period_id,
        period,
    )?;
    if first_child_of(doc, adaptation, "ContentProtection").is_some() || first_child_of(
        doc,
        representation,
        "ContentProtection",
    ).is_some() {
        let a: Protection = content_protection_info(doc, adaptation);
        let b: Protection = content_protection_info(doc, representation);
        let mut e: EncryptionInfo = EncryptionInfo::default();
        e.method = EncryptionMethod::Cenc;
        e.kid = either_bytes(a.kid, b.kid);
        e.scheme = if a.scheme.is_some() {
            a.scheme
        } else {
            b.scheme
        };
        e.protection_data = either_bytes(
            either_bytes(a.widevine, a.first),
            either_bytes(b.widevine, b.first),
        );
        e.source = KeySource::Inline;
        assert(e.deep_view() == dash_encryption(
            doc.deep_view(),
            adaptation as int,
            representation as int,
        ));
        stream = protect_stream(stream, &e);
    }
    merge_or_push_stream(streams, stream, c.is_dynamic);
    Ok(())
}

proof fn lemma_representations_stop(
    c: DashContextView,
    streams: Seq<StreamView>,
    adaptation: int,
    reps: Seq<int>,
    n: int,
    base: Seq<char>,
    period: PeriodView,
)
    requires
        0 <= n <= reps.len(),
        after_representations(c, streams, adaptation, reps, n, base, period) is Err,
    ensures
        after_representations(c, streams, adaptation, reps, reps.len() as int, base, period)
            == after_representations(c, streams, adaptation, reps, n, base, period),
    decreases reps.len() - n,
{
    if n < reps.len() {
        lemma_representations_stop(c, streams, adaptation, reps, n + 1, base, period);
    }
}

fn parse_adaptation(
    c: &DashContext,
    streams: &mut Vec<Stream>,
    adaptation: usize,
    base: &str,
    period_id: Option<&str>,
    period: &Option<String>,
) -> (r: DashResult<()>)
    requires
        c.wf(),
        adaptation < c.doc@.len(),
    ensures
        match r {
            Ok(_) => after_representations(
                c.view(),
                old(streams).deep_view(),
                adaptation as int,
                children(c.view().doc, adaptation as int, "Representation"@),
                children(c.view().doc, adaptation as int, "Representation"@).len() as int,
                base@,
                PeriodView { id: opt(period_id), duration: period.deep_view() },
            ) == DashView::Ok(final(streams).deep_view()),
            Err(s) => after_representations(
                c.view(),
                old(streams).deep_view(),
                adaptation as int,
                children(c.view().doc, adaptation as int, "Representation"@),
                children(c.view().doc, adaptation as int, "Representation"@).len() as int,
                base@,
                PeriodView { id: opt(period_id), duration: period.deep_view() },
            ) == DashView::<Seq<StreamView>>::Err(s.deep_view()),
        },
{
    let doc: &Vec<XmlNode> = c.doc;
    let ghost cv = c.view();
    let ghost start = streams.deep_view();
    let ghost pv = PeriodView { id: opt(period_id), duration: period.deep_view() };
    let reps: Vec<usize> = children_of(doc, adaptation, "Representation");
    let ghost ints = children(cv.doc, adaptation as int, "Representation"@);
    assert(ints.len() == reps@.len());
    let own: Option<&str> = either_text(
        attr(doc, adaptation, "contentType"),
        attr(doc, adaptation, "mimeType"),
    );
    let carried: Option<&str> = match own {
        Some(t) => Some(t),
        None => {
            if reps.len() > 0 {
                assert(ints[0] == reps@[0]);
                match either_text(
                    attr(doc, reps[0], "contentType"),
                    attr(doc, reps[0], "mimeType"),
                ) {
                    Some(t) => Some(t),
                    None => Some(""),
                }
            } else {
                None
            }
        },
    };
    assert(opt(carried) == carried_type(cv.doc, adaptation as int, ints));
    let mut i: usize = 0;
    while i < reps.len()
        invariant
            i <= reps@.len(),
            c.wf(),
            doc == c.doc,
            cv == c.view(),
            adaptation < doc@.len(),
            start == old(streams).deep_view(),
            pv == (PeriodView { id: opt(period_id), duration: period.deep_view() }),
            ints == children(cv.doc, adaptation as int, "Representation"@),
            ints == reps@.map_values(|k: usize| k as int),
            forall|k: int| 0 <= k < reps@.len() ==> #[trigger] reps@[k] < doc@.len(),
            opt(carried) == carried_type(cv.doc, adaptation as int, ints),
            after_representations(cv, start, adaptation as int, ints, i as int, base@, pv)
                == DashView::Ok(streams.deep_view()),
        decreases reps@.len() - i,
    {
        assert(ints[i as int] == reps@[i as int]);
        match parse_one_representation(
            c,
            streams,
            adaptation,
            reps[i],
            carried,
            base,
            period_id,
            period,
        ) {
            Ok(_) => {},
            Err(s) => {
                proof {
                    lemma_representations_stop(
                        cv,
                        start,
                        adaptation as int,
                        ints,
                        i + 1,
                        base@,
                        pv,
                    );
                }
                return Err(s);
            },
        }
        i = i + 1;
    }
    Ok(())
}

proof fn lemma_adaptations_stop(
    c: DashContextView,
    streams: Seq<StreamView>,
    sets: Seq<int>,
    n: int,
    base: Seq<char>,
    period: PeriodView,
)
    requires
        0 <= n <= sets.len(),
        after_adaptations(c, streams, sets, n, base, period) is Err,
    ensures
        after_adaptations(c, streams, sets, sets.len() as int, base, period) == after_adaptations(
            c,
            streams,
            sets,
            n,
            base,
            period,
        ),
    decreases sets.len() - n,
{
    if n < sets.len() {
        lemma_adaptations_stop(c, streams, sets, n + 1, base, period);
    }
}

fn parse_period(
    c: &DashContext,
    streams: &mut Vec<Stream>,
    node: usize,
    base: &str,
    period_id: Option<&str>,
    period: &Option<String>,
) -> (r: DashResult<()>)
    requires
        c.wf(),
        node < c.doc@.len(),
    ensures
        match r {
            Ok(_) => after_adaptations(
                c.view(),
                old(streams).deep_view(),
                children(c.view().doc, node as int, "AdaptationSet"@),
                children(c.view().doc, node as int, "AdaptationSet"@).len() as int,
                base@,
                PeriodView { id: opt(period_id), duration: period.deep_view() },
            ) == DashView::Ok(final(streams).deep_view()),
            Err(s) => after_adaptations(
                c.view(),
                old(streams).deep_view(),
                children(c.view().doc, node as int, "AdaptationSet"@),
                children(c.view().doc, node as int, "AdaptationSet"@).len() as int,
                base@,
                PeriodView { id: opt(period_id), duration: period.deep_view() },
            ) == DashView::<Seq<StreamView>>::Err(s.deep_view()),
        },
{
    let doc: &Vec<XmlNode> = c.doc;
    let ghost cv = c.view();
    let ghost start = streams.deep_view();
    let ghost pv = PeriodView { id: opt(period_id), duration: period.deep_view() };
    let sets: Vec<usize> = children_of(doc, node, "AdaptationSet");
    let ghost ints = children(cv.doc, node as int, "AdaptationSet"@);
    assert(ints.len() == sets@.len());
    let mut i: usize = 0;
    while i < sets.len()
        invariant
            i <= sets@.len(),
            c.wf(),
            doc == c.doc,
            cv == c.view(),
            start == old(streams).deep_view(),
            pv == (PeriodView { id: opt(period_id), duration: period.deep_view() }),
            ints == children(cv.doc, node as int, "AdaptationSet"@),
            ints == sets@.map_values(|k: usize| k as int),
            forall|k: int| 0 <= k < sets@.len() ==> #[trigger] sets@[k] < doc@.len(),
            after_adaptations(cv, start, ints, i as int, base@, pv) == DashView::Ok(
                streams.deep_view(),
            ),
        decreases sets@.len() - i,
    {
        assert(ints[i as int] == sets@[i as int]);
        let own_base: String = extend_base_url(doc, sets[i], base);
        match parse_adaptation(c, streams, sets[i], own_base.as_str(), period_id, period) {
            Ok(_) => {},
            Err(s) => {
                proof {
                    lemma_adaptations_stop(cv, start, ints, i + 1, base@, pv);
                }
                return Err(s);
            },
        }
        i = i + 1;
    }
    Ok(())
}

proof fn lemma_periods_stop(
    c: DashContextView,
    periods: Seq<int>,
    n: int,
    base: Seq<char>,
    media_duration: Option<Seq<char>>,
)
    requires
        0 <= n <= periods.len(),
        after_periods(c, periods, n, base, media_duration) is Err,
    ensures
        after_periods(c, periods, periods.len() as int, base, media_duration) == after_periods(
            c,
            periods,
            n,
            base,
            media_duration,
        ),
    decreases periods.len() - n,
{
    if n < periods.len() {
        lemma_periods_stop(c, periods, n + 1, base, media_duration);
    }
}

fn parse_periods(
    c: &DashContext,
    mpd: usize,
    base: &str,
    media_duration: &Option<String>,
) -> (r: DashResult<Vec<Stream>>)
    requires
        c.wf(),
    ensures
        view_dash(r) == after_periods(
            c.view(),
            children(c.view().doc, mpd as int, "Period"@),
            children(c.view().doc, mpd as int, "Period"@).len() as int,
            base@,
            media_duration.deep_view(),
        ),
{
    let doc: &Vec<XmlNode> = c.doc;
    let ghost cv = c.view();
    let ghost md = media_duration.deep_view();
    let periods: Vec<usize> = children_of(doc, mpd, "Period");
    let ghost ints = children(cv.doc, mpd as int, "Period"@);
    assert(ints.len() == periods@.len());
    let mut streams: Vec<Stream> = Vec::new();
    let mut i: usize = 0;
    assert(streams.deep_view() =~= Seq::<StreamView>::empty());
    while i < periods.len()
        invariant
            i <= periods@.len(),
            c.wf(),
            doc == c.doc,
            cv == c.view(),
            md == media_duration.deep_view(),
            ints == children(cv.doc, mpd as int, "Period"@),
            ints == periods@.map_values(|k: usize| k as int),
            forall|k: int| 0 <= k < periods@.len() ==> #[trigger] periods@[k] < doc@.len(),
            after_periods(cv, ints, i as int, base@, md) == DashView::Ok(streams.deep_view()),
        decreases periods@.len() - i,
    {
        let node: usize = periods[i];
        assert(ints[i as int] == node);
        let own: Option<String> = match parse_optional_duration(
            attr(doc, node, "duration"),
            "Period duration",
        ) {
            Ok(d) => d,
            Err(e) => {
                proof {
                    lemma_periods_stop(cv, ints, i + 1, base@, md);
                }
                return Err(DashStop::Fail(e));
            },
        };
        let duration: Option<String> = if own.is_some() {
            own
        } else {
            copy_opt(media_duration)
        };
        let own_base: String = extend_base_url(doc, node, base);
        match parse_period(
            c,
            &mut streams,
            node,
            own_base.as_str(),
            attr(doc, node, "id"),
            &duration,
        ) {
            Ok(_) => {},
            Err(s) => {
                proof {
                    lemma_periods_stop(cv, ints, i + 1, base@, md);
                }
                return Err(s);
            },
        }
        i = i + 1;
    }
    Ok(streams)
}

/// What the root element says.
pub struct MpdView {
    pub is_dynamic: bool,
    pub publish_time: Option<Seq<char>>,
    pub minimum_update_period: Option<Seq<char>>,
    pub media_duration: Option<Seq<char>>,
    pub depth: Option<Seq<char>>,
}

/// An attribute of which an empty value counts as none.
pub open spec fn solid_attr(doc: Seq<XmlNodeView>, node: int, name: Seq<char>) -> Option<Seq<char>> {
    match attr_of(doc, node, name) {
        Some(v) => if v.len() > 0 {
            Some(v)
        } else {
            None
        },
        None => None,
    }
}

fn non_empty_attr<'a>(doc: &'a Vec<XmlNode>, node: usize, name: &str) -> (r: Option<&'a str>)
    requires
        node < doc@.len(),
    ensures
        opt(r) == solid_attr(doc.deep_view(), node as int, name@),
{
    match attr(doc, node, name) {
        Some(v) => if v.unicode_len() > 0 {
            Some(v)
        } else {
            None
        },
        None => None,
    }
}

/// What the root element says, or what is wrong with it.
pub open spec fn mpd_of(doc: Seq<XmlNodeView>, mpd: int) -> core::result::Result<MpdView, ErrorView> {
    let publish_time = solid_attr(doc, mpd, "publishTime"@);
    if publish_time is Some && timestamp_of(publish_time->0, 0) is None {
        Err(ErrorView::Protocol("invalid DASH publish time"@))
    } else {
        match (
            optional_duration(attr_of(doc, mpd, "minimumUpdatePeriod"@), "minimumUpdatePeriod"@),
            optional_duration(
                attr_of(doc, mpd, "mediaPresentationDuration"@),
                "mediaPresentationDuration"@,
            ),
            optional_duration(
                solid_attr(doc, mpd, "timeShiftBufferDepth"@),
                "timeShiftBufferDepth"@,
            ),
        ) {
            (Err(e), _, _) => Err(e),
            (_, Err(e), _) => Err(e),
            (_, _, Err(e)) => Err(e),
            (Ok(minimum_update_period), Ok(media_duration), Ok(depth)) => Ok(
                MpdView {
                    is_dynamic: attr_of(doc, mpd, "type"@) == Some("dynamic"@),
                    publish_time,
                    minimum_update_period,
                    media_duration,
                    depth,
                },
            ),
        }
    }
}

/// The manifest that a document holds.
#[verifier::opaque]
pub open spec fn dash_document(
    doc: Seq<XmlNodeView>,
    url: Seq<char>,
    config: ParserConfigView,
    facts: DashFactsView,
) -> DashView<DashManifestView> {
    match element_from(doc, "MPD"@, 0) {
        None => Err(DashStopView::Fail(ErrorView::Protocol("MPD element not found"@))),
        Some(mpd) => match mpd_of(doc, mpd) {
            Err(e) => Err(DashStopView::Fail(e)),
            Ok(m) => {
                let c = DashContextView {
                    doc,
                    url,
                    original_url: config.original_url,
                    is_dynamic: m.is_dynamic,
                    depth: m.depth,
                    available: attr_of(doc, mpd, "availabilityStartTime"@),
                    publish_time: m.publish_time,
                    facts,
                };
                let base = extended_base(
                    doc,
                    mpd,
                    if config.base_url.len() == 0 {
                        url
                    } else {
                        config.base_url
                    },
                );
                let periods = children(doc, mpd, "Period"@);
                match after_periods(c, periods, periods.len() as int, base, m.media_duration) {
                    Err(s) => Err(s),
                    Ok(streams) => Ok(
                        DashManifestView {
                            streams: with_extensions(with_tracks(streams)),
                            is_dynamic: m.is_dynamic,
                            publish_time: m.publish_time,
                            minimum_update_period: m.minimum_update_period,
                        },
                    ),
                }
            },
        },
    }
}

/// The manifest that a document holds.
pub fn parse_dash_document(doc: &Vec<XmlNode>, url: &str, config: &ParserConfig, facts: &DashFacts) -> (r:
    DashResult<DashManifest>)
    requires
        -100_000 <= facts.local_offset <= 100_000,
    ensures
        view_dash(r) == dash_document(
            doc.deep_view(),
            url@,
            config.deep_view(),
            facts.deep_view(),
        ),
{
    proof {
        reveal(dash_document);
    }
    let mpd: usize = match find_element(doc, "MPD") {
        Some(i) => i,
        None => {
            return refuse("MPD element not found");
        },
    };
    let is_dynamic: bool = match attr(doc, mpd, "type") {
        Some(t) => same(t, "dynamic"),
        None => false,
    };
    let publish_time: Option<String> = own_opt(non_empty_attr(doc, mpd, "publishTime"));
    match &publish_time {
        Some(t) => {
            if parse_manifest_timestamp_at(t.as_str(), 0).is_none() {
                return refuse("invalid DASH publish time");
            }
        },
        None => {},
    }
    let minimum_update_period: Option<String> = raise(
        parse_optional_duration(attr(doc, mpd, "minimumUpdatePeriod"), "minimumUpdatePeriod"),
    )?;
    let media_duration: Option<String> = raise(
        parse_optional_duration(
            attr(doc, mpd, "mediaPresentationDuration"),
            "mediaPresentationDuration",
        ),
    )?;
    let depth: Option<String> = raise(
        parse_optional_duration(
            non_empty_attr(doc, mpd, "timeShiftBufferDepth"),
            "timeShiftBufferDepth",
        ),
    )?;
    let root: &str = if config.base_url.as_str().unicode_len() == 0 {
        url
    } else {
        config.base_url.as_str()
    };
    let base: String = extend_base_url(doc, mpd, root);
    let c: DashContext = DashContext {
        doc,
        url,
        original_url: config.original_url.as_str(),
        is_dynamic,
        depth: &depth,
        available: attr(doc, mpd, "availabilityStartTime"),
        publish_time: &publish_time,
        facts,
    };
    let mut streams: Vec<Stream> = parse_periods(&c, mpd, base.as_str(), &media_duration)?;
    apply_default_tracks(&mut streams);
    normalize_dash_extensions(&mut streams);
    Ok(DashManifest { streams, is_dynamic, publish_time, minimum_update_period })
}

/// The text of a manifest without white space and byte order mark around it, with the name spaces
/// declared that it uses.
pub open spec fn prepared_dash(raw: Seq<char>, config: ParserConfigView) -> core::result::Result<
    Seq<char>,
    ErrorView,
> {
    let bare = crate::hls::bare_text(raw);
    if DefaultDashContentProcessor.accepts(ExtractorType::MpegDash, bare, config) {
        DefaultDashContentProcessor.processed(bare, config)
    } else {
        Ok(bare)
    }
}

/// The messages about preparing a manifest.
pub open spec fn prepared_notes(raw: Seq<char>, config: ParserConfigView) -> Seq<
    ParserDiagnosticView,
> {
    if DefaultDashContentProcessor.accepts(
        ExtractorType::MpegDash,
        crate::hls::bare_text(raw),
        config,
    ) {
        seq![note(LogLevel::Info, "Namespace missing, try fix..."@)]
    } else {
        Seq::empty()
    }
}

/// The manifest that a prepared text holds.
pub open spec fn dash_text(
    text: Seq<char>,
    url: Seq<char>,
    config: ParserConfigView,
    facts: DashFactsView,
) -> DashView<DashManifestView> {
    if !contains(text, "<MPD"@) {
        Err(
            DashStopView::Fail(ErrorView::Protocol("DASH input must contain an MPD document"@)),
        )
    } else {
        match xml_rows(text) {
            Ok(rows) => dash_document(nodes_of(rows), url, config, facts),
            Err(e) => Err(DashStopView::Fail(ErrorView::Protocol(e))),
        }
    }
}

fn parse_dash_text(text: &str, url: &str, config: &ParserConfig, facts: &DashFacts) -> (r:
    DashResult<DashManifest>)
    requires
        -100_000 <= facts.local_offset <= 100_000,
    ensures
        view_dash(r) == dash_text(text@, url@, config.deep_view(), facts.deep_view()),
{
    if !has_text(text, "<MPD") {
        return refuse("DASH input must contain an MPD document");
    }
    match parse_xml(text) {
        Err(e) => refuse(e.as_str()),
        Ok(doc) => {
            proof {
                lemma_nodes_of_rows(doc.deep_view());
            }
            parse_dash_document(&doc, url, config, facts)
        },
    }
}

fn prepare_dash(raw_text: &str, config: &ParserConfig, diagnostics: &mut ParserDiagnostics) -> (r:
    Result<String>)
    ensures
        view_result(r) == prepared_dash(raw_text@, config.deep_view()),
        final(diagnostics).deep_view() == old(diagnostics).deep_view() + prepared_notes(
            raw_text@,
            config.deep_view(),
        ),
{
    let ghost start = diagnostics.deep_view();
    let bare: &str = trimmed_start(trimmed_start_char(trimmed(raw_text), '\u{feff}'));
    let processor: DefaultDashContentProcessor = DefaultDashContentProcessor;
    if processor.can_process(ExtractorType::MpegDash, bare, config) {
        diagnostics.push(LogLevel::Info, "Namespace missing, try fix...");
        assert(diagnostics.deep_view() =~= start + prepared_notes(raw_text@, config.deep_view()));
        processor.process(bare, config)
    } else {
        assert(diagnostics.deep_view() =~= start + prepared_notes(raw_text@, config.deep_view()));
        Ok(owned(bare))
    }
}

/// The manifest that a text holds.
pub open spec fn dash_manifest(
    raw: Seq<char>,
    url: Seq<char>,
    config: ParserConfigView,
    facts: DashFactsView,
) -> DashView<DashManifestView> {
    match prepared_dash(raw, config) {
        Err(e) => Err(DashStopView::Fail(e)),
        Ok(text) => dash_text(text, url, config, facts),
    }
}

/// Reads DASH manifests.
#[derive(Clone, Copy, Debug)]
pub struct DashParser;

impl DashParser {
    pub fn new() -> Self {
        DashParser
    }

    /// The manifest that a text holds, with the computations that were made so far.
    pub fn parse(
        &self,
        raw_text: &str,
        url: &str,
        config: &ParserConfig,
        facts: &DashFacts,
        diagnostics: &mut ParserDiagnostics,
    ) -> (r: DashResult<DashManifest>)
        requires
            -100_000 <= facts.local_offset <= 100_000,
        ensures
            view_dash(r) == dash_manifest(
                raw_text@,
                url@,
                config.deep_view(),
                facts.deep_view(),
            ),
            final(diagnostics).deep_view() == old(diagnostics).deep_view() + prepared_notes(
                raw_text@,
                config.deep_view(),
            ),
    {
        let text: String = raise(prepare_dash(raw_text, config, diagnostics))?;
        parse_dash_text(text.as_str(), url, config, facts)
    }

    /// The streams with the URLs of their segments processed.
    pub fn process_stream_urls(
        &self,
        streams: &Vec<Stream>,
        config: &ParserConfig,
        now_ms: i64,
        diagnostics: &mut ParserDiagnostics,
    ) -> (r: Result<Vec<Stream>>)
        ensures
            ({
                let (done, notes) = processed_streams(
                    ExtractorType::MpegDash,
                    streams.deep_view(),
                    streams@.len() as int,
                    config.deep_view(),
                    now_ms as int,
                );
                view_result(r) == done && final(diagnostics).deep_view() == old(
                    diagnostics,
                ).deep_view() + notes
            }),
    {
        process_urls(ExtractorType::MpegDash, streams, config, now_ms, diagnostics)
    }

    /// The streams with the segments that a newer manifest gives them.
    pub fn refresh_streams(
        &self,
        streams: &Vec<Stream>,
        raw_text: &str,
        url: &str,
        config: &ParserConfig,
        facts: &DashFacts,
        now_ms: i64,
        diagnostics: &mut ParserDiagnostics,
    ) -> (r: DashResult<Vec<Stream>>)
        requires
            -100_000 <= facts.local_offset <= 100_000,
        ensures
            match dash_manifest(raw_text@, url@, config.deep_view(), facts.deep_view()) {
                Err(s) => r is Err && r->Err_0.deep_view() == s && final(diagnostics).deep_view()
                    == old(diagnostics).deep_view() + prepared_notes(
                    raw_text@,
                    config.deep_view(),
                ),
                Ok(m) => {
                    let (done, notes) = refreshed_streams(
                        ExtractorType::MpegDash,
                        streams.deep_view(),
                        m.streams,
                        config.deep_view(),
                        now_ms as int,
                    );
                    (match done {
                        Ok(views) => r is Ok && r->Ok_0.deep_view() == views,
                        Err(e) => r is Err && r->Err_0.deep_view() == DashStopView::Fail(e),
                    }) && final(diagnostics).deep_view() == old(
                        diagnostics,
                    ).deep_view() + prepared_notes(raw_text@, config.deep_view()) + notes
                },
            },
    {
        let fresh: DashManifest = self.parse(raw_text, url, config, facts, diagnostics)?;
        match refresh_from(
            ExtractorType::MpegDash,
            streams,
            &fresh.streams,
            config,
            now_ms,
            diagnostics,
        ) {
            Ok(done) => Ok(done),
            Err(e) => Err(DashStop::Fail(e)),
        }
    }
}

} // verus!
