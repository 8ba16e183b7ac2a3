//! What is shown on a terminal while a download runs.

use crate::config::{DownloadOptions, LogLevel, Toggle};
use crate::console_color::{
    colorize_log_message, colorize_log_prefix, colorize_mux_message, colorize_stream_label_text,
    coloured_message, coloured_mux, coloured_prefix, coloured_text, decrypt_level,
    decrypt_progress_level, is_extra_debug_noise, is_noise, level_prefix, log_level_prefix, paint,
    painted,
};
use crate::datetime::{padded, zero_padded, LocalTime, TimeSpan};
use crate::event::{ProgressEvent, ProgressEventView};
use crate::metadata::spaces;
use crate::numeric::{double_or_zero, nearest_double, nearest_even, round_quotient};
use crate::observability::{
    clock_text, format_duration, is_logged, kilo, should_log, size_unit, two_decimals,
};
use crate::progress::{
    AggregateProgress, SegmentProgress, SegmentProgressView, StreamProgress, StreamProgressView,
};
use crate::text::{
    cat2, cat3, dec, either, lines, lines_text, owned, same, slice, strip_prefix, take, u64_text,
    without_prefix,
};
use crate::text_map::{lookup, put, TextMap};
use vstd::prelude::*;

verus! {

/// A part of what is shown.
#[derive(Debug, PartialEq, Eq)]
pub enum Piece {
    /// A text as it stands.
    Text(String),
    /// The present time of day.
    Stamp,
    /// A bar of thirty dashes of which a share is filled.
    Bar { part: u64, whole: u64 },
    /// A share in percent, with two decimals or none, filled up with spaces on the left.
    Percent { part: u64, whole: u64, exact: bool, width: usize, finished: bool },
}

/// Model of `Piece`.
pub enum PieceView {
    Text(Seq<char>),
    Stamp,
    Bar { part: u64, whole: u64 },
    Percent { part: u64, whole: u64, exact: bool, width: usize, finished: bool },
}

impl DeepView for Piece {
    type V = PieceView;

    open spec fn deep_view(&self) -> PieceView {
        match self {
            Piece::Text(t) => PieceView::Text(t@),
            Piece::Stamp => PieceView::Stamp,
            Piece::Bar { part, whole } => PieceView::Bar { part: *part, whole: *whole },
            Piece::Percent { part, whole, exact, width, finished } => PieceView::Percent {
                part: *part,
                whole: *whole,
                exact: *exact,
                width: *width,
                finished: *finished,
            },
        }
    }
}

fn push_piece(out: &mut Vec<Piece>, piece: Piece)
    ensures
        final(out).deep_view() == old(out).deep_view().push(piece.deep_view()),
{
    let ghost before = out.deep_view();
    let ghost item = piece.deep_view();
    out.push(piece);
    assert(out.deep_view() =~= before.push(item));
}

fn push_string(out: &mut Vec<Piece>, text: String)
    ensures
        final(out).deep_view() == old(out).deep_view().push(PieceView::Text(text@)),
{
    push_piece(out, Piece::Text(text));
}

fn no_pieces() -> (r: Vec<Piece>)
    ensures
        r.deep_view() == Seq::<PieceView>::empty(),
{
    let out: Vec<Piece> = Vec::new();
    assert(out.deep_view() =~= Seq::<PieceView>::empty());
    out
}

/// The time of day in front of a line.
pub open spec fn stamp_text(t: LocalTime) -> Seq<char> {
    zero_padded(t.hour as nat, 2) + ":"@ + zero_padded(t.minute as nat, 2) + ":"@ + zero_padded(
        t.second as nat,
        2,
    ) + "."@ + zero_padded((t.nanosecond / 1_000_000) as nat, 3)
}

/// The time of day in front of a line.
pub fn console_timestamp(t: &LocalTime) -> (r: String)
    ensures
        r@ == stamp_text(*t),
{
    let mut out: String = padded(t.hour as u64, 2);
    out.append(":");
    out.append(padded(t.minute as u64, 2).as_str());
    out.append(":");
    out.append(padded(t.second as u64, 2).as_str());
    out.append(".");
    out.append(padded((t.nanosecond / 1_000_000) as u64, 3).as_str());
    out
}

/// A run of dashes.
pub open spec fn dashes(n: nat) -> Seq<char> {
    Seq::new(n, |i: int| '-')
}

fn make_dashes(n: usize) -> (r: String)
    ensures
        r@ == dashes(n as nat),
{
    let mut out: String = String::new();
    let mut i: usize = 0;
    while i < n
        invariant
            i <= n,
            out@ =~= dashes(i as nat),
        decreases n - i,
    {
        out.push('-');
        i = i + 1;
    }
    out
}

/// A bar of thirty dashes of which some are filled.
pub open spec fn bar_text(filled: nat) -> Seq<char> {
    painted("38;5;11"@, dashes(filled)) + painted("38;5;8"@, dashes((30 - filled) as nat))
}

/// A bar of thirty dashes of which some are filled.
pub fn progress_bar(filled: usize) -> (r: String)
    requires
        filled <= 30,
    ensures
        r@ == bar_text(filled as nat),
{
    let done: String = make_dashes(filled);
    let left: String = make_dashes(30 - filled);
    cat2(paint("38;5;11", done.as_str()).as_str(), paint("38;5;8", left.as_str()).as_str())
}

/// A text filled up with spaces on the left.
pub open spec fn padded_left(s: Seq<char>, width: nat) -> Seq<char> {
    if s.len() < width {
        spaces((width - s.len()) as nat) + s
    } else {
        s
    }
}

/// A text filled up with spaces on the right.
pub open spec fn padded_right(s: Seq<char>, width: nat) -> Seq<char> {
    if s.len() < width {
        s + spaces((width - s.len()) as nat)
    } else {
        s
    }
}

fn make_spaces(n: usize) -> (r: String)
    ensures
        r@ == spaces(n as nat),
{
    let mut out: String = String::new();
    let mut i: usize = 0;
    while i < n
        invariant
            i <= n,
            out@ =~= spaces(i as nat),
        decreases n - i,
    {
        out.push(' ');
        i = i + 1;
    }
    out
}

fn pad_left(value: &str, width: usize) -> (r: String)
    ensures
        r@ == padded_left(value@, width as nat),
{
    let n: usize = value.unicode_len();
    if n < width {
        cat2(make_spaces(width - n).as_str(), value)
    } else {
        owned(value)
    }
}

fn pad_right(value: &str, width: usize) -> (r: String)
    ensures
        r@ == padded_right(value@, width as nat),
{
    let n: usize = value.unicode_len();
    if n < width {
        cat2(value, make_spaces(width - n).as_str())
    } else {
        owned(value)
    }
}

/// A share in percent as it is shown.
pub fn percent_text(text: &str, width: usize, finished: bool) -> (r: String)
    ensures
        r@ == if finished {
            painted("32"@, padded_left(text@, width as nat))
        } else {
            padded_left(text@, width as nat)
        },
{
    let wide: String = pad_left(text, width);
    if finished {
        paint("32", wide.as_str())
    } else {
        wide
    }
}

/// A share of which nothing is missing, in the arithmetic of doubles.
pub open spec fn is_full(part: u64, whole: u64) -> bool {
    nearest_double(part as nat) >= nearest_double(whole as nat)
}

fn full(part: u64, whole: u64) -> (r: bool)
    ensures
        r == is_full(part, whole),
{
    let a: u128 = double_or_zero(part);
    let b: u128 = double_or_zero(whole);
    a >= b
}

/// The name of a unit.
pub open spec fn short_unit(unit: nat) -> Seq<char> {
    if unit == 0 {
        "B"@
    } else if unit == 1 {
        "KB"@
    } else if unit == 2 {
        "MB"@
    } else if unit == 3 {
        "GB"@
    } else {
        "TB"@
    }
}

/// A number of bytes with two decimals, in the unit that suits it.
pub open spec fn size_text(bytes: nat) -> Seq<char> {
    let n = nearest_double(bytes);
    two_decimals(nearest_even(n * 100, kilo(size_unit(n)))) + short_unit(size_unit(n))
}

/// A number of bytes with two decimals, in the unit that suits it.
pub fn format_file_size_display(bytes: u64) -> (r: String)
    ensures
        r@ == size_text(bytes as nat),
{
    let n: u128 = double_or_zero(bytes);
    let (size, name): (u128, &str) = if n < 0x400 {
        (1, "B")
    } else if n < 0x10_0000 {
        (0x400, "KB")
    } else if n < 0x4000_0000 {
        (0x10_0000, "MB")
    } else if n < 0x100_0000_0000 {
        (0x4000_0000, "GB")
    } else {
        (0x100_0000_0000, "TB")
    };
    let hundredths: u128 = round_quotient(n * 100, size);
    assert(hundredths / 100 <= u64::MAX) by {
        if n < 0x400 {
            assert(hundredths <= n * 100 + 1) by (nonlinear_arith)
                requires
                    hundredths <= (n * 100) as int / size as int + 1,
                    size == 1,
            ;
        } else {
            assert(hundredths / 100 <= u64::MAX) by (nonlinear_arith)
                requires
                    hundredths <= (n * 100) as int / size as int + 1,
                    n <= 0x2_0000_0000_0000_0000,
                    size >= 0x400,
            ;
        }
    }
    let mut out: String = u64_text((hundredths / 100) as u64);
    out.append(".");
    out.append(padded((hundredths % 100) as u64, 2).as_str());
    out.append(name);
    out
}

/// A length of time in hours, minutes and seconds, without hours where there are none.
pub open spec fn short_clock(seconds: nat) -> Seq<char> {
    let tail = zero_padded((seconds / 60) % 60, 2) + "m"@ + zero_padded(seconds % 60, 2) + "s"@;
    if seconds / 3600 > 0 {
        zero_padded(seconds / 3600, 2) + "h"@ + tail
    } else {
        tail
    }
}

fn format_duration_short(duration: TimeSpan) -> (r: String)
    ensures
        r@ == short_clock(duration.seconds as nat),
{
    let s: u64 = duration.seconds;
    let mut tail: String = padded((s / 60) % 60, 2);
    tail.append("m");
    tail.append(padded(s % 60, 2).as_str());
    tail.append("s");
    if s / 3600 > 0 {
        cat3(padded(s / 3600, 2).as_str(), "h", tail.as_str())
    } else {
        tail
    }
}

/// How many segments are there.
pub open spec fn segments_status(completed: u64, total: Option<u64>) -> Seq<char> {
    match total {
        Some(n) => dec(completed as nat) + "/"@ + dec(n as nat),
        None => dec(completed as nat),
    }
}

fn segment_status(completed: u64, total: Option<u64>) -> (r: String)
    ensures
        r@ == segments_status(completed, total),
{
    match total {
        Some(n) => cat3(u64_text(completed).as_str(), "/", u64_text(n).as_str()),
        None => u64_text(completed),
    }
}

/// How many bytes are there.
pub open spec fn bytes_status(started: bool, downloaded: u64, total: Option<u64>) -> Seq<char> {
    if !started || downloaded == 0 {
        "-"@
    } else {
        match total {
            Some(n) => size_text(downloaded as nat) + "/"@ + size_text(n as nat),
            None => size_text(downloaded as nat),
        }
    }
}

fn byte_status(started: bool, downloaded: u64, total: Option<u64>) -> (r: String)
    ensures
        r@ == bytes_status(started, downloaded, total),
{
    if !started || downloaded == 0 {
        return owned("-");
    }
    match total {
        Some(n) => cat3(
            format_file_size_display(downloaded).as_str(),
            "/",
            format_file_size_display(n).as_str(),
        ),
        None => format_file_size_display(downloaded),
    }
}

/// How fast it goes.
pub open spec fn rate_status(started: bool, per_second: u64, slow: u32) -> Seq<char> {
    if !started || per_second == 0 {
        "-"@
    } else if slow > 0 {
        size_text(per_second as nat) + "ps"@ + ("("@ + dec(slow as nat) + ")"@)
    } else {
        size_text(per_second as nat) + "ps"@
    }
}

fn speed_status(started: bool, per_second: u64, slow: u32) -> (r: String)
    ensures
        r@ == rate_status(started, per_second, slow),
{
    if !started || per_second == 0 {
        return owned("-");
    }
    let rate: String = cat2(format_file_size_display(per_second).as_str(), "ps");
    if slow > 0 {
        let count: String = cat3("(", u64_text(slow as u64).as_str(), ")");
        cat2(rate.as_str(), count.as_str())
    } else {
        rate
    }
}

/// How long it takes still.
pub open spec fn left_status(
    started: bool,
    downloaded: u64,
    total: Option<u64>,
    per_second: u64,
) -> Seq<char> {
    match total {
        Some(n) => if !started {
            "--:--:--"@
        } else if n <= downloaded || per_second == 0 {
            "00:00:00"@
        } else {
            clock_text(((n - downloaded) / per_second as int) as nat)
        },
        None => "--:--:--"@,
    }
}

fn remaining_status(started: bool, downloaded: u64, total: Option<u64>, per_second: u64) -> (r: String)
    ensures
        r@ == left_status(started, downloaded, total, per_second),
{
    match total {
        Some(n) => {
            if !started {
                return owned("--:--:--");
            }
            if n <= downloaded || per_second == 0 {
                return owned("00:00:00");
            }
            format_duration(TimeSpan { seconds: (n - downloaded) / per_second, nanoseconds: 0 })
        },
        None => owned("--:--:--"),
    }
}

/// The share of a stream that is there: of its segments, or of its bytes where there is one segment
/// that is on its way, or where the number of segments is not known.
pub open spec fn share_of(
    completed: u64,
    total_segments: Option<u64>,
    downloaded: u64,
    total_bytes: Option<u64>,
) -> (u64, u64) {
    let by_bytes = match total_bytes {
        Some(n) => if n > 0 {
            Some((downloaded, n))
        } else {
            None
        },
        None => None,
    };
    match total_segments {
        Some(n) => if n == 1 && completed == 0 && by_bytes is Some {
            by_bytes->0
        } else if n > 0 {
            (completed, n)
        } else if by_bytes is Some {
            by_bytes->0
        } else {
            (0, 1)
        },
        None => if by_bytes is Some {
            by_bytes->0
        } else {
            (0, 1)
        },
    }
}

fn progress_share(
    completed: u64,
    total_segments: Option<u64>,
    downloaded: u64,
    total_bytes: Option<u64>,
) -> (r: (u64, u64))
    ensures
        r == share_of(completed, total_segments, downloaded, total_bytes),
{
    let by_bytes: Option<(u64, u64)> = match total_bytes {
        Some(n) => if n > 0 {
            Some((downloaded, n))
        } else {
            None
        },
        None => None,
    };
    match (total_segments, by_bytes) {
        (Some(n), Some(share)) => if n > 0 && !(n == 1 && completed == 0) {
            (completed, n)
        } else {
            share
        },
        (Some(n), None) => if n > 0 {
            (completed, n)
        } else {
            (0, 1)
        },
        (None, Some(share)) => share,
        (None, None) => (0, 1),
    }
}

/// The first characters of a label.
pub open spec fn short_label(label: Seq<char>) -> Seq<char> {
    if label.len() > 48 {
        take(label, 48)
    } else {
        label
    }
}

fn progress_label<'a>(label: &'a str) -> (r: &'a str)
    ensures
        r@ == short_label(label@),
{
    if label.unicode_len() > 48 {
        let head: &'a str = slice(label, 0, 48);
        assert(head@ =~= take(label@, 48));
        head
    } else {
        label
    }
}

/// What is known of a stream.
#[derive(Debug)]
pub struct StreamSnapshot {
    pub label: String,
    pub started: bool,
    pub downloaded_bytes: u64,
    pub total_bytes: Option<u64>,
    pub bytes_per_second: u64,
    pub low_speed_count: u32,
    pub completed_segments: u64,
    pub total_segments: Option<u64>,
}

/// Model of `StreamSnapshot`.
pub struct StreamSnapshotView {
    pub label: Seq<char>,
    pub started: bool,
    pub downloaded_bytes: u64,
    pub total_bytes: Option<u64>,
    pub bytes_per_second: u64,
    pub low_speed_count: u32,
    pub completed_segments: u64,
    pub total_segments: Option<u64>,
}

impl DeepView for StreamSnapshot {
    type V = StreamSnapshotView;

    open spec fn deep_view(&self) -> StreamSnapshotView {
        StreamSnapshotView {
            label: self.label@,
            started: self.started,
            downloaded_bytes: self.downloaded_bytes,
            total_bytes: self.total_bytes,
            bytes_per_second: self.bytes_per_second,
            low_speed_count: self.low_speed_count,
            completed_segments: self.completed_segments,
            total_segments: self.total_segments,
        }
    }
}

impl Clone for StreamSnapshot {
    fn clone(&self) -> (r: Self)
        ensures
            r.deep_view() == self.deep_view(),
    {
        StreamSnapshot {
            label: self.label.clone(),
            started: self.started,
            downloaded_bytes: self.downloaded_bytes,
            total_bytes: self.total_bytes,
            bytes_per_second: self.bytes_per_second,
            low_speed_count: self.low_speed_count,
            completed_segments: self.completed_segments,
            total_segments: self.total_segments,
        }
    }
}

/// What is known of a live stream.
#[derive(Debug)]
pub struct LiveSnapshot {
    pub label: String,
    pub bytes_per_second: u64,
    pub refreshed_duration: TimeSpan,
    pub recorded_duration: TimeSpan,
    pub recorded_segments: u64,
    pub total_segments: u64,
    pub is_waiting: bool,
    pub recorded_size: Option<u64>,
}

/// Model of `LiveSnapshot`.
pub struct LiveSnapshotView {
    pub label: Seq<char>,
    pub bytes_per_second: u64,
    pub refreshed_duration: TimeSpan,
    pub recorded_duration: TimeSpan,
    pub recorded_segments: u64,
    pub total_segments: u64,
    pub is_waiting: bool,
    pub recorded_size: Option<u64>,
}

impl DeepView for LiveSnapshot {
    type V = LiveSnapshotView;

    open spec fn deep_view(&self) -> LiveSnapshotView {
        LiveSnapshotView {
            label: self.label@,
            bytes_per_second: self.bytes_per_second,
            refreshed_duration: self.refreshed_duration,
            recorded_duration: self.recorded_duration,
            recorded_segments: self.recorded_segments,
            total_segments: self.total_segments,
            is_waiting: self.is_waiting,
            recorded_size: self.recorded_size,
        }
    }
}

impl Clone for LiveSnapshot {
    fn clone(&self) -> (r: Self)
        ensures
            r.deep_view() == self.deep_view(),
    {
        LiveSnapshot {
            label: self.label.clone(),
            bytes_per_second: self.bytes_per_second,
            refreshed_duration: self.refreshed_duration,
            recorded_duration: self.recorded_duration,
            recorded_segments: self.recorded_segments,
            total_segments: self.total_segments,
            is_waiting: self.is_waiting,
            recorded_size: self.recorded_size,
        }
    }
}

/// `a * b`, at most the largest number of 64 bits.
pub open spec fn capped_product(a: u64, b: u64) -> u64 {
    if a * b > u64::MAX {
        u64::MAX
    } else {
        (a * b) as u64
    }
}

/// The bytes of a stream: as announced, else as many as the segments so far let expect.
pub open spec fn expected_bytes(s: StreamSnapshotView) -> Option<u64> {
    if s.total_bytes is Some {
        s.total_bytes
    } else {
        match s.total_segments {
            Some(n) => if n == 0 || s.completed_segments == 0 || s.completed_segments >= n {
                None
            } else {
                Some(capped_product(s.downloaded_bytes, n) / s.completed_segments)
            },
            None => None,
        }
    }
}

fn display_total_bytes(s: &StreamSnapshot) -> (r: Option<u64>)
    ensures
        r == expected_bytes(s.deep_view()),
{
    if s.total_bytes.is_some() {
        return s.total_bytes;
    }
    match s.total_segments {
        Some(n) => {
            if n == 0 || s.completed_segments == 0 || s.completed_segments >= n {
                return None;
            }
            assert(s.downloaded_bytes * n <= 0xffff_ffff_ffff_ffff * 0xffff_ffff_ffff_ffff)
                by (nonlinear_arith)
                requires
                    s.downloaded_bytes <= 0xffff_ffff_ffff_ffff,
                    n <= 0xffff_ffff_ffff_ffff,
            ;
            let product: u128 = s.downloaded_bytes as u128 * n as u128;
            let capped: u64 = if product > 0xffff_ffff_ffff_ffff {
                u64::MAX
            } else {
                product as u64
            };
            Some(capped / s.completed_segments)
        },
        None => None,
    }
}

/// A text in a colour where it stands for something finished.
pub open spec fn if_finished(text: Seq<char>, finished: bool) -> Seq<char> {
    if finished {
        painted("32"@, text)
    } else {
        text
    }
}

fn colorize_finished_value(text: &str, finished: bool) -> (r: String)
    ensures
        r@ == if_finished(text@, finished),
{
    if finished {
        paint("32", text)
    } else {
        owned(text)
    }
}

/// A speed in its colour; a dash has none.
pub open spec fn coloured_rate(rate: Seq<char>) -> Seq<char> {
    if rate == "-"@ {
        rate
    } else {
        painted("32"@, rate)
    }
}

fn colorize_rate(rate: &str) -> (r: String)
    ensures
        r@ == coloured_rate(rate@),
{
    if same(rate, "-") {
        owned(rate)
    } else {
        paint("32", rate)
    }
}

/// The bar of a share.
pub open spec fn bar_piece(share: (u64, u64), colour: bool) -> PieceView {
    if !colour {
        PieceView::Text(dashes(30))
    } else if is_full(share.0, share.1) {
        PieceView::Text(painted("38;5;2"@, dashes(30)))
    } else {
        PieceView::Bar { part: share.0, whole: share.1 }
    }
}

fn make_bar(part: u64, whole: u64, colour: bool) -> (r: Piece)
    ensures
        r.deep_view() == bar_piece((part, whole), colour),
{
    if !colour {
        Piece::Text(make_dashes(30))
    } else if full(part, whole) {
        Piece::Text(paint("38;5;2", make_dashes(30).as_str()))
    } else {
        Piece::Bar { part, whole }
    }
}

/// What stands at the end of a line: bytes, speed and time.
pub open spec fn line_tail(
    bytes: Seq<char>,
    rate: Seq<char>,
    left: Seq<char>,
    colour: bool,
) -> Seq<char> {
    if colour {
        " "@ + painted("38;2;0;139;139"@, bytes) + " "@ + coloured_rate(rate) + " "@ + painted(
            "94"@,
            left,
        )
    } else {
        " "@ + bytes + " "@ + rate + " "@ + left
    }
}

fn make_tail(bytes: &str, rate: &str, left: &str, colour: bool) -> (r: String)
    ensures
        r@ == line_tail(bytes@, rate@, left@, colour),
{
    let mut out: String = owned(" ");
    if colour {
        out.append(paint("38;2;0;139;139", bytes).as_str());
        out.append(" ");
        out.append(colorize_rate(rate).as_str());
        out.append(" ");
        out.append(paint("94", left).as_str());
    } else {
        out.append(bytes);
        out.append(" ");
        out.append(rate);
        out.append(" ");
        out.append(left);
    }
    out
}

/// The line of a stream, whose label is filled up to a width.
pub open spec fn stream_line(s: StreamSnapshotView, width: nat, colour: bool) -> Seq<PieceView> {
    let total = expected_bytes(s);
    let share = share_of(s.completed_segments, s.total_segments, s.downloaded_bytes, total);
    let finished = is_full(share.0, share.1);
    let label = padded_right(short_label(s.label), width);
    let count = segments_status(s.completed_segments, s.total_segments);
    let rate = if finished {
        "-"@
    } else {
        rate_status(s.started, s.bytes_per_second, s.low_speed_count)
    };
    let left = if finished {
        "00:00:00"@
    } else {
        left_status(s.started, s.downloaded_bytes, total, s.bytes_per_second)
    };
    seq![
        PieceView::Text(
            (if colour {
                coloured_text(label)
            } else {
                label
            }) + " "@,
        ),
        bar_piece(share, colour),
        PieceView::Text(" "@ + if_finished(count, colour && finished) + " "@),
        PieceView::Percent {
            part: share.0,
            whole: share.1,
            exact: true,
            width: 0,
            finished: colour && finished,
        },
        PieceView::Text(
            line_tail(bytes_status(s.started, s.downloaded_bytes, total), rate, left, colour),
        ),
    ]
}

fn format_stream_progress_line(s: &StreamSnapshot, width: usize, colour: bool) -> (r: Vec<Piece>)
    ensures
        r.deep_view() == stream_line(s.deep_view(), width as nat, colour),
{
    let total: Option<u64> = display_total_bytes(s);
    let (part, whole) = progress_share(
        s.completed_segments,
        s.total_segments,
        s.downloaded_bytes,
        total,
    );
    let finished: bool = full(part, whole);
    let label: String = pad_right(progress_label(s.label.as_str()), width);
    let count: String = segment_status(s.completed_segments, s.total_segments);
    let rate: String = if finished {
        owned("-")
    } else {
        speed_status(s.started, s.bytes_per_second, s.low_speed_count)
    };
    let left: String = if finished {
        owned("00:00:00")
    } else {
        remaining_status(s.started, s.downloaded_bytes, total, s.bytes_per_second)
    };
    let bytes: String = byte_status(s.started, s.downloaded_bytes, total);
    let shown: String = if colour {
        colorize_stream_label_text(label.as_str())
    } else {
        label
    };
    let mut out: Vec<Piece> = no_pieces();
    push_string(&mut out, cat2(shown.as_str(), " "));
    push_piece(&mut out, make_bar(part, whole, colour));
    let middle: String = colorize_finished_value(count.as_str(), colour && finished);
    push_string(&mut out, cat3(" ", middle.as_str(), " "));
    push_piece(
        &mut out,
        Piece::Percent { part, whole, exact: true, width: 0, finished: colour && finished },
    );
    push_string(&mut out, make_tail(bytes.as_str(), rate.as_str(), left.as_str(), colour));
    assert(out.deep_view() =~= stream_line(s.deep_view(), width as nat, colour));
    out
}

/// The line of everything.
pub open spec fn total_line(p: AggregateProgress, colour: bool) -> Seq<PieceView> {
    let share = share_of(0, None, p.downloaded_bytes, p.total_bytes);
    let finished = is_full(share.0, share.1);
    let rate = if finished {
        "-"@
    } else {
        rate_status(true, p.bytes_per_second, 0)
    };
    let left = if finished {
        "00:00:00"@
    } else {
        left_status(true, p.downloaded_bytes, p.total_bytes, p.bytes_per_second)
    };
    seq![
        PieceView::Text(
            (if colour {
                coloured_text("Total"@)
            } else {
                "Total"@
            }) + " "@,
        ),
        bar_piece(share, colour),
        PieceView::Text(" - "@),
        PieceView::Percent {
            part: share.0,
            whole: share.1,
            exact: true,
            width: 0,
            finished: colour && finished,
        },
        PieceView::Text(
            line_tail(bytes_status(true, p.downloaded_bytes, p.total_bytes), rate, left, colour),
        ),
    ]
}

fn format_aggregate_progress_line(p: AggregateProgress, colour: bool) -> (r: Vec<Piece>)
    ensures
        r.deep_view() == total_line(p, colour),
{
    let (part, whole) = progress_share(0, None, p.downloaded_bytes, p.total_bytes);
    let finished: bool = full(part, whole);
    let rate: String = if finished {
        owned("-")
    } else {
        speed_status(true, p.bytes_per_second, 0)
    };
    let left: String = if finished {
        owned("00:00:00")
    } else {
        remaining_status(true, p.downloaded_bytes, p.total_bytes, p.bytes_per_second)
    };
    let bytes: String = byte_status(true, p.downloaded_bytes, p.total_bytes);
    let shown: String = if colour {
        colorize_stream_label_text("Total")
    } else {
        owned("Total")
    };
    let mut out: Vec<Piece> = no_pieces();
    push_string(&mut out, cat2(shown.as_str(), " "));
    push_piece(&mut out, make_bar(part, whole, colour));
    push_string(&mut out, owned(" - "));
    push_piece(
        &mut out,
        Piece::Percent { part, whole, exact: true, width: 0, finished: colour && finished },
    );
    push_string(&mut out, make_tail(bytes.as_str(), rate.as_str(), left.as_str(), colour));
    assert(out.deep_view() =~= total_line(p, colour));
    out
}

/// How much of a live stream was recorded: where it waits for more and all its segments are there,
/// as much as was refreshed.
pub open spec fn shown_recorded(s: LiveSnapshotView) -> TimeSpan {
    if s.is_waiting && s.total_segments > 0 && s.recorded_segments >= s.total_segments
        && s.refreshed_duration.nanos() > s.recorded_duration.nanos() {
        s.refreshed_duration
    } else {
        s.recorded_duration
    }
}

/// What was recorded and refreshed of a live stream.
pub open spec fn live_durations(s: LiveSnapshotView) -> Seq<char> {
    short_clock(shown_recorded(s).seconds as nat) + "/"@ + short_clock(
        s.refreshed_duration.seconds as nat,
    )
}

/// A time in the range of its parts.
pub open spec fn spans_ok(s: LiveSnapshotView) -> bool {
    s.refreshed_duration.nanoseconds < 1_000_000_000 && s.recorded_duration.nanoseconds
        < 1_000_000_000
}

fn segmented_live_duration_text(s: &LiveSnapshot) -> (r: String)
    requires
        spans_ok(s.deep_view()),
    ensures
        r@ == live_durations(s.deep_view()),
{
    let recorded: TimeSpan = if s.is_waiting && s.total_segments > 0 && s.recorded_segments
        >= s.total_segments && s.refreshed_duration.exceeds(&s.recorded_duration) {
        s.refreshed_duration
    } else {
        s.recorded_duration
    };
    cat3(
        format_duration_short(recorded).as_str(),
        "/",
        format_duration_short(s.refreshed_duration).as_str(),
    )
}

/// How many segments of a live stream are there, and what it does.
pub open spec fn live_count(s: LiveSnapshotView) -> Seq<char> {
    dec(s.recorded_segments as nat) + "/"@ + dec(s.total_segments as nat) + " "@ + (
    if s.is_waiting {
        "Waiting  "@
    } else {
        "Recording"@
    })
}

fn live_count_text(s: &LiveSnapshot) -> (r: String)
    ensures
        r@ == live_count(s.deep_view()),
{
    let mut out: String = u64_text(s.recorded_segments);
    out.append("/");
    out.append(u64_text(s.total_segments).as_str());
    out.append(" ");
    out.append(
        if s.is_waiting {
            "Waiting  "
        } else {
            "Recording"
        },
    );
    out
}

/// How wide the columns of live streams are.
pub struct LiveWidths {
    pub label: nat,
    pub duration: nat,
    pub size: nat,
    pub count: nat,
}

/// The larger of two numbers.
pub open spec fn wider(a: nat, b: nat) -> nat {
    if a >= b {
        a
    } else {
        b
    }
}

/// How wide the columns of the first `n` live streams are.
pub open spec fn live_widths(s: Seq<LiveSnapshotView>, n: int) -> LiveWidths
    decreases n,
{
    if n <= 0 {
        LiveWidths { label: 0, duration: 0, size: 0, count: 0 }
    } else {
        let w = live_widths(s, n - 1);
        let x = s[n - 1];
        LiveWidths {
            label: wider(w.label, short_label(x.label).len()),
            duration: wider(
                w.duration,
                match x.recorded_size {
                    Some(_) => short_clock(x.recorded_duration.seconds as nat).len(),
                    None => live_durations(x).len(),
                },
            ),
            size: match x.recorded_size {
                Some(n) => wider(w.size, size_text(n as nat).len()),
                None => w.size,
            },
            count: wider(w.count, live_count(x).len()),
        }
    }
}

struct Widths {
    label: usize,
    duration: usize,
    size: usize,
    count: usize,
}

impl Widths {
    spec fn view(&self) -> LiveWidths {
        LiveWidths {
            label: self.label as nat,
            duration: self.duration as nat,
            size: self.size as nat,
            count: self.count as nat,
        }
    }
}

fn wide(a: usize, b: usize) -> (r: usize)
    ensures
        r == wider(a as nat, b as nat),
{
    if a >= b {
        a
    } else {
        b
    }
}

fn live_progress_widths(s: &Vec<LiveSnapshot>) -> (r: Widths)
    requires
        forall|i: int| 0 <= i < s@.len() ==> spans_ok(#[trigger] s.deep_view()[i]),
    ensures
        r.view() == live_widths(s.deep_view(), s@.len() as int),
{
    let ghost all = s.deep_view();
    let mut w: Widths = Widths { label: 0, duration: 0, size: 0, count: 0 };
    let mut i: usize = 0;
    while i < s.len()
        invariant
            i <= s@.len(),
            all == s.deep_view(),
            forall|k: int| 0 <= k < s@.len() ==> spans_ok(#[trigger] all[k]),
            w.view() == live_widths(all, i as int),
        decreases s@.len() - i,
    {
        assert(all[i as int] == s@[i as int].deep_view());
        let x: &LiveSnapshot = &s[i];
        w.label = wide(w.label, progress_label(x.label.as_str()).unicode_len());
        match x.recorded_size {
            Some(n) => {
                let text: String = format_duration_short(x.recorded_duration);
                w.duration = wide(w.duration, text.as_str().unicode_len());
                let size: String = format_file_size_display(n);
                w.size = wide(w.size, size.as_str().unicode_len());
            },
            None => {
                let text: String = segmented_live_duration_text(x);
                w.duration = wide(w.duration, text.as_str().unicode_len());
            },
        }
        let count: String = live_count_text(x);
        w.count = wide(w.count, count.as_str().unicode_len());
        i = i + 1;
    }
    w
}

/// How fast a live stream comes.
pub open spec fn live_rate(per_second: u64, waiting: bool) -> Seq<char> {
    if waiting {
        "-"@
    } else {
        size_text(per_second as nat) + "ps"@
    }
}

fn live_speed_status(per_second: u64, waiting: bool) -> (r: String)
    ensures
        r@ == live_rate(per_second, waiting),
{
    if waiting {
        owned("-")
    } else {
        cat2(format_file_size_display(per_second).as_str(), "ps")
    }
}

/// A text in a colour, where colours are wanted.
pub open spec fn tinted(code: Seq<char>, text: Seq<char>, colour: bool) -> Seq<char> {
    if colour {
        painted(code, text)
    } else {
        text
    }
}

fn tint(code: &str, text: &str, colour: bool) -> (r: String)
    ensures
        r@ == tinted(code@, text@, colour),
{
    if colour {
        paint(code, text)
    } else {
        owned(text)
    }
}

/// The share of the segments of a live stream that are there.
pub open spec fn live_share(s: LiveSnapshotView) -> (u64, u64) {
    if s.total_segments == 0 {
        (0, 1)
    } else {
        (s.recorded_segments, s.total_segments)
    }
}

/// The line of a live stream in columns of given widths.
pub open spec fn live_line(s: LiveSnapshotView, w: LiveWidths, colour: bool) -> Seq<PieceView> {
    let bare = padded_right(short_label(s.label), w.label);
    let label = if colour {
        coloured_text(bare)
    } else {
        bare
    };
    let count = tinted(
        "38;5;11"@,
        padded_left(live_count(s), w.count),
        colour && s.is_waiting,
    );
    let rate = live_rate(s.bytes_per_second, s.is_waiting);
    let speed = if colour {
        coloured_rate(rate)
    } else {
        rate
    };
    match s.recorded_size {
        Some(n) => seq![
            PieceView::Text(
                label + " "@ + tinted(
                    "38;2;0;100;0"@,
                    padded_left(short_clock(s.recorded_duration.seconds as nat), w.duration),
                    colour,
                ) + " "@ + tinted(
                    "38;2;0;139;139"@,
                    padded_left(size_text(n as nat), w.size),
                    colour,
                ) + " "@ + count + " "@ + speed,
            ),
        ],
        None => {
            let share = live_share(s);
            seq![
                PieceView::Text(
                    label + " "@ + tinted(
                        "90"@,
                        padded_left(live_durations(s), w.duration),
                        colour,
                    ) + " "@ + count + " "@,
                ),
                PieceView::Percent {
                    part: share.0,
                    whole: share.1,
                    exact: false,
                    width: 4,
                    finished: colour && is_full(share.0, share.1),
                },
                PieceView::Text(" "@ + speed),
            ]
        },
    }
}

fn format_live_progress_line(s: &LiveSnapshot, w: &Widths, colour: bool) -> (r: Vec<Piece>)
    requires
        spans_ok(s.deep_view()),
    ensures
        r.deep_view() == live_line(s.deep_view(), w.view(), colour),
{
    let bare: String = pad_right(progress_label(s.label.as_str()), w.label);
    let label: String = if colour {
        colorize_stream_label_text(bare.as_str())
    } else {
        bare
    };
    let wide_count: String = pad_left(live_count_text(s).as_str(), w.count);
    let count: String = tint("38;5;11", wide_count.as_str(), colour && s.is_waiting);
    let rate: String = live_speed_status(s.bytes_per_second, s.is_waiting);
    let speed: String = if colour {
        colorize_rate(rate.as_str())
    } else {
        rate
    };
    let mut out: Vec<Piece> = no_pieces();
    let mut text: String = label;
    text.append(" ");
    match s.recorded_size {
        Some(n) => {
            let duration: String = pad_left(
                format_duration_short(s.recorded_duration).as_str(),
                w.duration,
            );
            let size: String = pad_left(format_file_size_display(n).as_str(), w.size);
            text.append(tint("38;2;0;100;0", duration.as_str(), colour).as_str());
            text.append(" ");
            text.append(tint("38;2;0;139;139", size.as_str(), colour).as_str());
            text.append(" ");
            text.append(count.as_str());
            text.append(" ");
            text.append(speed.as_str());
            push_string(&mut out, text);
            assert(out.deep_view() =~= live_line(s.deep_view(), w.view(), colour));
        },
        None => {
            let duration: String = pad_left(segmented_live_duration_text(s).as_str(), w.duration);
            text.append(tint("90", duration.as_str(), colour).as_str());
            text.append(" ");
            text.append(count.as_str());
            text.append(" ");
            let (part, whole): (u64, u64) = if s.total_segments == 0 {
                (0, 1)
            } else {
                (s.recorded_segments, s.total_segments)
            };
            push_string(&mut out, text);
            push_piece(
                &mut out,
                Piece::Percent {
                    part,
                    whole,
                    exact: false,
                    width: 4,
                    finished: colour && full(part, whole),
                },
            );
            push_string(&mut out, cat2(" ", speed.as_str()));
            assert(out.deep_view() =~= live_line(s.deep_view(), w.view(), colour));
        },
    }
    out
}

/// How things are shown.
#[derive(Clone, Copy, Debug, PartialEq, Eq, Structural)]
pub struct ConsoleStyle {
    pub log_level: LogLevel,
    /// Whether texts have colours.
    pub ansi_color: bool,
    /// Whether lines of progress are drawn over those before.
    pub ansi_progress: bool,
}

/// Whether progress is shown at all.
pub open spec fn shows_progress(s: ConsoleStyle) -> bool {
    s.log_level != LogLevel::Off
}

/// Shows what happens on a terminal.
#[derive(Debug)]
pub struct ConsoleRenderer {
    style: ConsoleStyle,
    progress_active: bool,
    progress_line_count: usize,
    block_written: bool,
    last_progress_at: Option<u64>,
    last_stream_id: Option<String>,
    stream_labels: TextMap<String>,
    stream_order: Vec<String>,
    stream_snapshots: TextMap<StreamSnapshot>,
    live_order: Vec<String>,
    live_snapshots: TextMap<LiveSnapshot>,
    pending_media_info: TextMap<Vec<String>>,
    next_media_info: usize,
    aggregate: Option<AggregateProgress>,
    writes: u64,
}

/// Model of `ConsoleRenderer`.
pub struct ConsoleView {
    pub style: ConsoleStyle,
    /// Whether lines of progress stand at the bottom.
    pub progress_active: bool,
    /// How many lines of progress stand there.
    pub progress_line_count: int,
    /// Whether progress was written below the last lines, without drawing over anything.
    pub block_written: bool,
    /// When progress was shown last, in milliseconds.
    pub last_progress_at: Option<u64>,
    pub last_stream_id: Option<Seq<char>>,
    pub stream_labels: Seq<(Seq<char>, Seq<char>)>,
    pub stream_order: Seq<Seq<char>>,
    pub stream_snapshots: Seq<(Seq<char>, StreamSnapshotView)>,
    pub live_order: Seq<Seq<char>>,
    pub live_snapshots: Seq<(Seq<char>, LiveSnapshotView)>,
    /// Lines about tracks that wait for those of the streams before.
    pub pending_media_info: Seq<(Seq<char>, Seq<Seq<char>>)>,
    pub next_media_info: int,
    pub aggregate: Option<AggregateProgress>,
    /// How often something was shown.
    pub writes: u64,
}

impl DeepView for ConsoleRenderer {
    type V = ConsoleView;

    closed spec fn deep_view(&self) -> ConsoleView {
        ConsoleView {
            style: self.style,
            progress_active: self.progress_active,
            progress_line_count: self.progress_line_count as int,
            block_written: self.block_written,
            last_progress_at: self.last_progress_at,
            last_stream_id: self.last_stream_id.deep_view(),
            stream_labels: self.stream_labels.deep_view(),
            stream_order: self.stream_order.deep_view(),
            stream_snapshots: self.stream_snapshots.deep_view(),
            live_order: self.live_order.deep_view(),
            live_snapshots: self.live_snapshots.deep_view(),
            pending_media_info: self.pending_media_info.deep_view(),
            next_media_info: self.next_media_info as int,
            aggregate: self.aggregate,
            writes: self.writes,
        }
    }
}

/// Lines stand at the bottom only where they can be drawn over, and all times are in the range of
/// their parts.
pub open spec fn console_wf(t: ConsoleView) -> bool {
    &&& (t.progress_active ==> t.style.ansi_progress)
    &&& t.next_media_info >= 0
    &&& forall|i: int| 0 <= i < t.live_snapshots.len() ==> spans_ok((#[trigger] t.live_snapshots[i]).1)
}

/// A list holds a text.
pub open spec fn listed(order: Seq<Seq<char>>, key: Seq<char>) -> bool {
    exists|i: int| 0 <= i < order.len() && #[trigger] order[i] == key
}

fn is_listed(order: &Vec<String>, key: &str) -> (r: bool)
    ensures
        r == listed(order.deep_view(), key@),
{
    let ghost all = order.deep_view();
    let mut i: usize = 0;
    while i < order.len()
        invariant
            i <= order@.len(),
            all == order.deep_view(),
            forall|k: int| 0 <= k < i ==> #[trigger] all[k] != key@,
        decreases order@.len() - i,
    {
        assert(all[i as int] == order@[i as int]@);
        if same(order[i].as_str(), key) {
            assert(all[i as int] == key@);
            return true;
        }
        i = i + 1;
    }
    false
}

/// A list with a text, where it did not hold it yet.
pub open spec fn with_key(order: Seq<Seq<char>>, key: Seq<char>) -> Seq<Seq<char>> {
    if listed(order, key) {
        order
    } else {
        order.push(key)
    }
}

fn push_key(order: &mut Vec<String>, key: &str)
    ensures
        final(order).deep_view() == with_key(old(order).deep_view(), key@),
{
    if !is_listed(order, key) {
        let ghost before = order.deep_view();
        order.push(owned(key));
        assert(order.deep_view() =~= before.push(key@));
    }
}

/// The values whose keys are among the first `n` of a list, in its order.
pub open spec fn by_list<V>(order: Seq<Seq<char>>, n: int, map: Seq<(Seq<char>, V)>) -> Seq<V>
    decreases n,
{
    if n <= 0 {
        Seq::empty()
    } else {
        match lookup(map, order[n - 1]) {
            Some(v) => by_list(order, n - 1, map).push(v),
            None => by_list(order, n - 1, map),
        }
    }
}

/// The values among the first `n` whose keys a list does not hold.
pub open spec fn off_list<V>(order: Seq<Seq<char>>, n: int, map: Seq<(Seq<char>, V)>) -> Seq<V>
    decreases n,
{
    if n <= 0 {
        Seq::empty()
    } else if listed(order, map[n - 1].0) {
        off_list(order, n - 1, map)
    } else {
        off_list(order, n - 1, map).push(map[n - 1].1)
    }
}

/// The values of a map: first in the order of a list, then those that it does not hold.
pub open spec fn in_order<V>(order: Seq<Seq<char>>, map: Seq<(Seq<char>, V)>) -> Seq<V> {
    by_list(order, order.len() as int, map) + off_list(order, map.len() as int, map)
}

fn stream_values(order: &Vec<String>, map: &TextMap<StreamSnapshot>) -> (r: Vec<StreamSnapshot>)
    ensures
        r.deep_view() == in_order(order.deep_view(), map.deep_view()),
{
    let ghost ov = order.deep_view();
    let ghost mv = map.deep_view();
    let mut out: Vec<StreamSnapshot> = Vec::new();
    assert(out.deep_view() =~= Seq::<StreamSnapshotView>::empty());
    let mut i: usize = 0;
    while i < order.len()
        invariant
            i <= order@.len(),
            ov == order.deep_view(),
            mv == map.deep_view(),
            out.deep_view() == by_list(ov, i as int, mv),
        decreases order@.len() - i,
    {
        assert(ov[i as int] == order@[i as int]@);
        match map.get(order[i].as_str()) {
            Some(v) => {
                let ghost before = out.deep_view();
                let copy: StreamSnapshot = v.clone();
                let ghost item = copy.deep_view();
                out.push(copy);
                assert(out.deep_view() =~= before.push(item));
            },
            None => {},
        }
        i = i + 1;
    }
    let ghost first = out.deep_view();
    let mut k: usize = 0;
    assert(first + off_list(ov, 0, mv) =~= first);
    while k < map.entries.len()
        invariant
            k <= map.entries@.len(),
            ov == order.deep_view(),
            mv == map.deep_view(),
            mv.len() == map.entries@.len(),
            out.deep_view() == first + off_list(ov, k as int, mv),
        decreases map.entries@.len() - k,
    {
        assert(mv[k as int] == (map.entries@[k as int].0@, map.entries@[k as int].1.deep_view()));
        if !is_listed(order, map.entries[k].0.as_str()) {
            let ghost before = out.deep_view();
            let copy: StreamSnapshot = map.entries[k].1.clone();
            let ghost item = copy.deep_view();
            out.push(copy);
            assert(out.deep_view() =~= before.push(item));
            assert(before.push(item) =~= first + off_list(ov, k + 1, mv));
        }
        k = k + 1;
    }
    out
}

fn live_values(order: &Vec<String>, map: &TextMap<LiveSnapshot>) -> (r: Vec<LiveSnapshot>)
    ensures
        r.deep_view() == in_order(order.deep_view(), map.deep_view()),
{
    let ghost ov = order.deep_view();
    let ghost mv = map.deep_view();
    let mut out: Vec<LiveSnapshot> = Vec::new();
    assert(out.deep_view() =~= Seq::<LiveSnapshotView>::empty());
    let mut i: usize = 0;
    while i < order.len()
        invariant
            i <= order@.len(),
            ov == order.deep_view(),
            mv == map.deep_view(),
            out.deep_view() == by_list(ov, i as int, mv),
        decreases order@.len() - i,
    {
        assert(ov[i as int] == order@[i as int]@);
        match map.get(order[i].as_str()) {
            Some(v) => {
                let ghost before = out.deep_view();
                let copy: LiveSnapshot = v.clone();
                let ghost item = copy.deep_view();
                out.push(copy);
                assert(out.deep_view() =~= before.push(item));
            },
            None => {},
        }
        i = i + 1;
    }
    let ghost first = out.deep_view();
    let mut k: usize = 0;
    assert(first + off_list(ov, 0, mv) =~= first);
    while k < map.entries.len()
        invariant
            k <= map.entries@.len(),
            ov == order.deep_view(),
            mv == map.deep_view(),
            mv.len() == map.entries@.len(),
            out.deep_view() == first + off_list(ov, k as int, mv),
        decreases map.entries@.len() - k,
    {
        assert(mv[k as int] == (map.entries@[k as int].0@, map.entries@[k as int].1.deep_view()));
        if !is_listed(order, map.entries[k].0.as_str()) {
            let ghost before = out.deep_view();
            let copy: LiveSnapshot = map.entries[k].1.clone();
            let ghost item = copy.deep_view();
            out.push(copy);
            assert(out.deep_view() =~= before.push(item));
            assert(before.push(item) =~= first + off_list(ov, k + 1, mv));
        }
        k = k + 1;
    }
    out
}

/// The width of the widest label among the first `n`.
pub open spec fn label_width(s: Seq<StreamSnapshotView>, n: int) -> nat
    decreases n,
{
    if n <= 0 {
        0
    } else {
        wider(label_width(s, n - 1), short_label(s[n - 1].label).len())
    }
}

/// The lines of progress: of the live streams, else of the streams, else of everything.
pub open spec fn progress_lines(t: ConsoleView) -> Seq<Seq<PieceView>> {
    if t.live_snapshots.len() > 0 {
        let s = in_order(t.live_order, t.live_snapshots);
        let w = live_widths(s, s.len() as int);
        s.map_values(|x: LiveSnapshotView| live_line(x, w, t.style.ansi_color))
    } else if t.stream_snapshots.len() > 0 {
        let s = in_order(t.stream_order, t.stream_snapshots);
        let w = label_width(s, s.len() as int);
        s.map_values(|x: StreamSnapshotView| stream_line(x, w, t.style.ansi_color))
    } else {
        match t.aggregate {
            Some(p) => seq![total_line(p, t.style.ansi_color)],
            None => Seq::empty(),
        }
    }
}

/// The first `n` lines with their ends.
pub open spec fn with_ends(lines: Seq<Seq<PieceView>>, n: int) -> Seq<PieceView>
    decreases n,
{
    if n <= 0 {
        Seq::empty()
    } else {
        with_ends(lines, n - 1) + lines[n - 1].push(PieceView::Text("\n"@))
    }
}

fn push_all_pieces(out: &mut Vec<Piece>, line: Vec<Piece>)
    ensures
        final(out).deep_view() == old(out).deep_view() + line.deep_view(),
{
    let ghost start = out.deep_view();
    let ghost all = line.deep_view();
    let mut line: Vec<Piece> = line;
    out.append(&mut line);
    assert(out.deep_view() =~= start + all);
}

fn push_lines(out: &mut Vec<Piece>, lines: Vec<Vec<Piece>>)
    ensures
        final(out).deep_view() == old(out).deep_view() + with_ends(
            lines.deep_view(),
            lines@.len() as int,
        ),
{
    let ghost start = out.deep_view();
    let ghost all = lines.deep_view();
    let count: usize = lines.len();
    let mut left: Vec<Vec<Piece>> = lines;
    let mut i: usize = 0;
    assert(start + with_ends(all, 0) =~= start);
    assert(left.deep_view() =~= all.skip(0));
    while i < count
        invariant
            i <= count,
            count == all.len(),
            left.deep_view() == all.skip(i as int),
            out.deep_view() == start + with_ends(all, i as int),
        decreases count - i,
    {
        let ghost rest = left.deep_view();
        let ghost before = out.deep_view();
        assert(rest.len() == left@.len());
        assert(rest[0] == all[i as int]);
        assert(rest[0] == left@[0].deep_view());
        let line: Vec<Piece> = left.remove(0);
        assert(left.deep_view() =~= rest.skip(1));
        assert(rest.skip(1) =~= all.skip(i + 1));
        let ghost view = line.deep_view();
        push_all_pieces(out, line);
        push_string(out, owned("\n"));
        assert(out.deep_view() =~= before + view.push(PieceView::Text("\n"@)));
        assert(out.deep_view() =~= start + with_ends(all, i + 1));
        i = i + 1;
    }
}

impl ConsoleRenderer {
    /// Lines stand at the bottom only where they can be drawn over, and all times are in the range
    /// of their parts.
    pub open spec fn wf(&self) -> bool {
        console_wf(self.deep_view())
    }

    /// A renderer in a style, which has shown nothing yet.
    pub fn with_style(style: ConsoleStyle) -> (r: Self)
        ensures
            r.wf(),
            r.deep_view() == blank_console(style),
    {
        let r = ConsoleRenderer {
            style,
            progress_active: false,
            progress_line_count: 0,
            block_written: false,
            last_progress_at: None,
            last_stream_id: None,
            stream_labels: TextMap::new(),
            stream_order: Vec::new(),
            stream_snapshots: TextMap::new(),
            live_order: Vec::new(),
            live_snapshots: TextMap::new(),
            pending_media_info: TextMap::new(),
            next_media_info: 0,
            aggregate: None,
            writes: 0,
        };
        assert(r.stream_order.deep_view() =~= Seq::<Seq<char>>::empty());
        assert(r.live_order.deep_view() =~= Seq::<Seq<char>>::empty());
        r
    }

    /// A renderer as the options say.
    pub fn new(options: &DownloadOptions) -> (r: Self)
        ensures
            r.wf(),
            r.deep_view() == blank_console(
                ConsoleStyle {
                    log_level: options.deep_view().log_level,
                    ansi_color: options.deep_view().no_ansi_color == Toggle::Off,
                    ansi_progress: options.deep_view().no_ansi_color == Toggle::Off,
                },
            ),
    {
        proof {
            reveal(crate::config::options_view);
        }
        let colour: bool = match options.no_ansi_color {
            Toggle::On => false,
            Toggle::Off => true,
        };
        Self::with_style(
            ConsoleStyle {
                log_level: options.log_level,
                ansi_color: colour,
                ansi_progress: colour,
            },
        )
    }

    /// A renderer without colours.
    pub fn with_log_level(log_level: LogLevel) -> (r: Self)
        ensures
            r.wf(),
            r.deep_view() == blank_console(
                ConsoleStyle { log_level, ansi_color: false, ansi_progress: false },
            ),
    {
        Self::with_style(ConsoleStyle { log_level, ansi_color: false, ansi_progress: false })
    }

    /// How often something was shown.
    pub fn writes(&self) -> (r: u64)
        ensures
            r == self.deep_view().writes,
    {
        self.writes
    }

    fn live_lines(&self) -> (r: Vec<Vec<Piece>>)
        requires
            self.wf(),
            self.deep_view().live_snapshots.len() > 0,
        ensures
            r.deep_view() == progress_lines(self.deep_view()),
    {
        let s: Vec<LiveSnapshot> = live_values(&self.live_order, &self.live_snapshots);
        let ghost all = s.deep_view();
        proof {
            lemma_values_ok(self.deep_view().live_order, self.deep_view().live_snapshots);
        }
        let w: Widths = live_progress_widths(&s);
        let colour: bool = self.style.ansi_color;
        let mut out: Vec<Vec<Piece>> = Vec::new();
        let mut i: usize = 0;
        while i < s.len()
            invariant
                i <= s@.len(),
                all == s.deep_view(),
                forall|k: int| 0 <= k < all.len() ==> spans_ok(#[trigger] all[k]),
                out@.len() == i,
                forall|k: int|
                    0 <= k < i ==> (#[trigger] out@[k]).deep_view() == live_line(
                        all[k],
                        w.view(),
                        colour,
                    ),
            decreases s@.len() - i,
        {
            assert(all[i as int] == s@[i as int].deep_view());
            out.push(format_live_progress_line(&s[i], &w, colour));
            i = i + 1;
        }
        assert(out.deep_view() =~= progress_lines(self.deep_view()));
        out
    }

    fn stream_lines(&self) -> (r: Vec<Vec<Piece>>)
        requires
            self.deep_view().live_snapshots.len() == 0,
            self.deep_view().stream_snapshots.len() > 0,
        ensures
            r.deep_view() == progress_lines(self.deep_view()),
    {
        let s: Vec<StreamSnapshot> = stream_values(&self.stream_order, &self.stream_snapshots);
        let ghost all = s.deep_view();
        let mut width: usize = 0;
        let mut k: usize = 0;
        while k < s.len()
            invariant
                k <= s@.len(),
                all == s.deep_view(),
                width == label_width(all, k as int),
            decreases s@.len() - k,
        {
            assert(all[k as int] == s@[k as int].deep_view());
            width = wide(width, progress_label(s[k].label.as_str()).unicode_len());
            k = k + 1;
        }
        let colour: bool = self.style.ansi_color;
        let mut out: Vec<Vec<Piece>> = Vec::new();
        let mut i: usize = 0;
        while i < s.len()
            invariant
                i <= s@.len(),
                all == s.deep_view(),
                out@.len() == i,
                forall|k: int|
                    0 <= k < i ==> (#[trigger] out@[k]).deep_view() == stream_line(
                        all[k],
                        width as nat,
                        colour,
                    ),
            decreases s@.len() - i,
        {
            assert(all[i as int] == s@[i as int].deep_view());
            out.push(format_stream_progress_line(&s[i], width, colour));
            i = i + 1;
        }
        assert(out.deep_view() =~= progress_lines(self.deep_view()));
        out
    }

    fn lines(&self) -> (r: Vec<Vec<Piece>>)
        requires
            self.wf(),
        ensures
            r.deep_view() == progress_lines(self.deep_view()),
    {
        if self.live_snapshots.entries.len() > 0 {
            return self.live_lines();
        }
        if self.stream_snapshots.entries.len() > 0 {
            return self.stream_lines();
        }
        let mut out: Vec<Vec<Piece>> = Vec::new();
        match self.aggregate {
            Some(p) => {
                out.push(format_aggregate_progress_line(p, self.style.ansi_color));
            },
            None => {},
        }
        assert(out.deep_view() =~= progress_lines(self.deep_view()));
        out
    }
}

/// Nothing was shown yet.
pub open spec fn blank_console(style: ConsoleStyle) -> ConsoleView {
    ConsoleView {
        style,
        progress_active: false,
        progress_line_count: 0,
        block_written: false,
        last_progress_at: None,
        last_stream_id: None,
        stream_labels: Seq::empty(),
        stream_order: Seq::empty(),
        stream_snapshots: Seq::empty(),
        live_order: Seq::empty(),
        live_snapshots: Seq::empty(),
        pending_media_info: Seq::empty(),
        next_media_info: 0,
        aggregate: None,
        writes: 0,
    }
}

proof fn lemma_lookup_ok(map: Seq<(Seq<char>, LiveSnapshotView)>, key: Seq<char>)
    requires
        forall|i: int| 0 <= i < map.len() ==> spans_ok((#[trigger] map[i]).1),
    ensures
        lookup(map, key) is Some ==> spans_ok(lookup(map, key)->0),
    decreases map.len(),
{
    if map.len() > 0 && map[0].0 != key {
        assert forall|i: int| 0 <= i < map.drop_first().len() implies spans_ok(
            (#[trigger] map.drop_first()[i]).1,
        ) by {
            assert(map.drop_first()[i] == map[i + 1]);
        }
        lemma_lookup_ok(map.drop_first(), key);
    }
}

proof fn lemma_values_ok(order: Seq<Seq<char>>, map: Seq<(Seq<char>, LiveSnapshotView)>)
    requires
        forall|i: int| 0 <= i < map.len() ==> spans_ok((#[trigger] map[i]).1),
    ensures
        forall|i: int|
            0 <= i < in_order(order, map).len() ==> spans_ok(#[trigger] in_order(order, map)[i]),
{
    lemma_by_list_ok(order, order.len() as int, map);
    lemma_off_list_ok(order, map.len() as int, map);
    let a = by_list(order, order.len() as int, map);
    let b = off_list(order, map.len() as int, map);
    assert forall|i: int| 0 <= i < in_order(order, map).len() implies spans_ok(
        #[trigger] in_order(order, map)[i],
    ) by {
        if i < a.len() {
            assert(in_order(order, map)[i] == a[i]);
        } else {
            assert(in_order(order, map)[i] == b[i - a.len()]);
        }
    }
}

proof fn lemma_by_list_ok(order: Seq<Seq<char>>, n: int, map: Seq<(Seq<char>, LiveSnapshotView)>)
    requires
        forall|i: int| 0 <= i < map.len() ==> spans_ok((#[trigger] map[i]).1),
    ensures
        forall|i: int|
            0 <= i < by_list(order, n, map).len() ==> spans_ok(#[trigger] by_list(order, n, map)[i]),
    decreases n,
{
    if n > 0 {
        lemma_by_list_ok(order, n - 1, map);
        lemma_lookup_ok(map, order[n - 1]);
        let before = by_list(order, n - 1, map);
        let after = by_list(order, n, map);
        assert forall|i: int| 0 <= i < after.len() implies spans_ok(#[trigger] after[i]) by {
            if i < before.len() {
                assert(after[i] == before[i]);
            }
        }
    }
}

proof fn lemma_off_list_ok(order: Seq<Seq<char>>, n: int, map: Seq<(Seq<char>, LiveSnapshotView)>)
    requires
        n <= map.len(),
        forall|i: int| 0 <= i < map.len() ==> spans_ok((#[trigger] map[i]).1),
    ensures
        forall|i: int|
            0 <= i < off_list(order, n, map).len() ==> spans_ok(
                #[trigger] off_list(order, n, map)[i],
            ),
    decreases n,
{
    if n > 0 {
        lemma_off_list_ok(order, n - 1, map);
        let before = off_list(order, n - 1, map);
        let after = off_list(order, n, map);
        assert forall|i: int| 0 <= i < after.len() implies spans_ok(#[trigger] after[i]) by {
            if i < before.len() {
                assert(after[i] == before[i]);
            } else {
                assert(after[i] == map[n - 1].1);
            }
        }
    }
}

/// A state and what was shown.
pub type Shown = (ConsoleView, Seq<PieceView>);

/// The same text so often.
pub open spec fn repeated_text(text: Seq<char>, n: nat) -> Seq<char>
    decreases n,
{
    if n == 0 {
        Seq::empty()
    } else {
        repeated_text(text, (n - 1) as nat) + text
    }
}

/// The lines of progress at the bottom are removed.
pub open spec fn cleared(t: ConsoleView) -> Shown {
    if t.progress_active {
        (
            ConsoleView { progress_active: false, progress_line_count: 0, ..t },
            seq![
                PieceView::Text(
                    repeated_text("\u{1b}[1A\r\u{1b}[2K"@, t.progress_line_count as nat),
                ),
            ],
        )
    } else {
        (t, Seq::empty())
    }
}

/// The lines of progress are drawn at the bottom.
pub open spec fn with_progress(t: ConsoleView) -> Shown {
    let lines = progress_lines(t);
    (
        ConsoleView {
            progress_active: true,
            progress_line_count: lines.len() as int,
            ..t
        },
        with_ends(lines, lines.len() as int),
    )
}

/// The lines of progress are drawn again, where there were any.
pub open spec fn redrawn(t: ConsoleView, had: bool) -> Shown {
    if had && t.style.ansi_progress && progress_lines(t).len() > 0 {
        with_progress(t)
    } else {
        (t, Seq::empty())
    }
}

/// Something was shown.
pub open spec fn noted(t: ConsoleView, wrote: bool) -> ConsoleView {
    if wrote {
        ConsoleView {
            writes: if t.writes == u64::MAX {
                u64::MAX
            } else {
                (t.writes + 1) as u64
            },
            ..t
        }
    } else {
        t
    }
}

/// Lines are shown above the lines of progress.
pub open spec fn above(t: ConsoleView, body: Seq<PieceView>, wrote: bool) -> Shown {
    let (a, first) = cleared(t);
    let (b, last) = redrawn(a, t.progress_active);
    (noted(b, wrote), first + body + last)
}

/// One line of a log.
pub open spec fn log_piece(prefix: Seq<char>, message: Seq<char>) -> Seq<PieceView> {
    seq![PieceView::Stamp, PieceView::Text(" "@ + prefix + " "@ + message + "\n"@)]
}

/// How the lines of a message are coloured.
#[derive(Clone, Copy, Debug, PartialEq, Eq, Structural)]
pub enum Tone {
    Log(LogLevel),
    Mux,
    Tool,
}

/// The level under which a tone is shown.
pub open spec fn tone_level(tone: Tone) -> LogLevel {
    match tone {
        Tone::Log(level) => level,
        _ => LogLevel::Warn,
    }
}

/// A line in its tone.
pub open spec fn toned(tone: Tone, line: Seq<char>, colour: bool) -> Seq<char> {
    match tone {
        Tone::Log(level) => coloured_message(level, line, colour),
        Tone::Mux => coloured_mux(line, colour),
        Tone::Tool => tinted("90"@, line, colour),
    }
}

/// The first `n` lines of a message.
pub open spec fn message_lines(tone: Tone, all: Seq<Seq<char>>, n: int, colour: bool) -> Seq<PieceView>
    decreases n,
{
    if n <= 0 {
        Seq::empty()
    } else {
        message_lines(tone, all, n - 1, colour) + log_piece(
            coloured_prefix(tone_level(tone), level_prefix(tone_level(tone))->0, colour),
            toned(tone, all[n - 1], colour),
        )
    }
}

/// The title of the window, where a newer release was found.
pub open spec fn title_pieces(t: ConsoleView, message: Seq<char>) -> Seq<PieceView> {
    match strip_prefix(message, "New version detected! "@) {
        Some(latest) => if t.style.ansi_color {
            seq![
                PieceView::Text(
                    "\u{1b}]0;New version detected! "@ + latest + "\u{7}"@,
                ),
            ]
        } else {
            Seq::empty()
        },
        None => Seq::empty(),
    }
}

/// A message of a level is shown, where it is severe enough and no noise.
#[verifier::opaque]
pub open spec fn log_shown(t: ConsoleView, level: LogLevel, message: Seq<char>) -> Shown {
    let colour = t.style.ansi_color;
    if !is_logged(t.style.log_level, level) || level_prefix(level) is None || (level
        == LogLevel::Debug && is_noise(message)) {
        (t, Seq::empty())
    } else {
        let title = title_pieces(t, message);
        if message.len() == 0 {
            let (u, shown) = above(
                t,
                seq![
                    PieceView::Stamp,
                    PieceView::Text(
                        " "@ + coloured_prefix(level, level_prefix(level)->0, colour) + "\n"@,
                    ),
                ],
                true,
            );
            (u, title + shown)
        } else {
            let all = lines(message);
            let (u, shown) = above(
                t,
                message_lines(Tone::Log(level), all, all.len() as int, colour),
                all.len() > 0,
            );
            (u, title + shown)
        }
    }
}

/// A message of a tool or about muxing is shown, where warnings are.
#[verifier::opaque]
pub open spec fn warn_shown(t: ConsoleView, tone: Tone, message: Seq<char>) -> Shown {
    if !is_logged(t.style.log_level, LogLevel::Warn) {
        (t, Seq::empty())
    } else {
        let all = lines(message);
        above(
            t,
            message_lines(tone, all, all.len() as int, t.style.ansi_color),
            all.len() > 0,
        )
    }
}

/// The first `n` lines as they stand.
pub open spec fn raw_lines(all: Seq<Seq<char>>, n: int) -> Seq<PieceView>
    decreases n,
{
    if n <= 0 {
        Seq::empty()
    } else {
        raw_lines(all, n - 1).push(PieceView::Text(all[n - 1] + "\n"@))
    }
}

/// A message is shown as it stands.
#[verifier::opaque]
pub open spec fn raw_shown(t: ConsoleView, message: Seq<char>) -> Shown {
    let all = lines(message);
    above(t, raw_lines(all, all.len() as int), all.len() > 0)
}

impl ConsoleRenderer {
    fn clear(&mut self, out: &mut Vec<Piece>)
        requires
            old(self).wf(),
        ensures
            final(self).wf(),
            final(self).deep_view() == cleared(old(self).deep_view()).0,
            final(out).deep_view() == old(out).deep_view() + cleared(old(self).deep_view()).1,
    {
        let ghost start = out.deep_view();
        if self.progress_active {
            let mut text: String = String::new();
            let mut i: usize = 0;
            let n: usize = self.progress_line_count;
            while i < n
                invariant
                    i <= n,
                    text@ == repeated_text("\u{1b}[1A\r\u{1b}[2K"@, i as nat),
                decreases n - i,
            {
                text.append("\u{1b}[1A\r\u{1b}[2K");
                i = i + 1;
            }
            let ghost item = PieceView::Text(text@);
            push_string(out, text);
            assert(out.deep_view() =~= start + seq![item]);
            self.progress_active = false;
            self.progress_line_count = 0;
            assert(self.deep_view().live_snapshots == old(self).deep_view().live_snapshots);
        } else {
            assert(out.deep_view() =~= start + Seq::<PieceView>::empty());
        }
    }

    fn show_progress(&mut self, out: &mut Vec<Piece>, lines: Vec<Vec<Piece>>)
        requires
            old(self).wf(),
            old(self).deep_view().style.ansi_progress,
            lines.deep_view() == progress_lines(old(self).deep_view()),
        ensures
            final(self).wf(),
            final(self).deep_view() == with_progress(old(self).deep_view()).0,
            final(out).deep_view() == old(out).deep_view() + with_progress(
                old(self).deep_view(),
            ).1,
    {
        assert(lines.deep_view().len() == lines@.len());
        let count: usize = lines.len();
        push_lines(out, lines);
        self.progress_active = true;
        self.progress_line_count = count;
    }

    fn redraw(&mut self, out: &mut Vec<Piece>, had: bool)
        requires
            old(self).wf(),
        ensures
            final(self).wf(),
            final(self).deep_view() == redrawn(old(self).deep_view(), had).0,
            final(out).deep_view() == old(out).deep_view() + redrawn(old(self).deep_view(), had).1,
    {
        let ghost start = out.deep_view();
        if had && self.style.ansi_progress {
            let lines: Vec<Vec<Piece>> = self.lines();
            assert(lines.deep_view().len() == lines@.len());
            if lines.len() > 0 {
                self.show_progress(out, lines);
                return;
            }
        }
        assert(out.deep_view() =~= start + Seq::<PieceView>::empty());
    }

    fn note_write(&mut self, wrote: bool)
        requires
            old(self).wf(),
        ensures
            final(self).wf(),
            final(self).deep_view() == noted(old(self).deep_view(), wrote),
    {
        if wrote && self.writes < u64::MAX {
            self.writes = self.writes + 1;
        }
    }

    fn show_above(&mut self, out: &mut Vec<Piece>, body: Vec<Piece>, wrote: bool)
        requires
            old(self).wf(),
        ensures
            final(self).wf(),
            final(self).deep_view() == above(old(self).deep_view(), body.deep_view(), wrote).0,
            final(out).deep_view() == old(out).deep_view() + above(
                old(self).deep_view(),
                body.deep_view(),
                wrote,
            ).1,
    {
        let ghost start = out.deep_view();
        let ghost t = self.deep_view();
        let ghost b = body.deep_view();
        let had: bool = self.progress_active;
        self.clear(out);
        push_all_pieces(out, body);
        self.redraw(out, had);
        self.note_write(wrote);
        assert(out.deep_view() =~= start + above(t, b, wrote).1);
    }

    fn tone_lines(&self, tone: Tone, all: &Vec<String>) -> (r: Vec<Piece>)
        requires
            level_prefix(tone_level(tone)) is Some,
        ensures
            r.deep_view() == message_lines(
                tone,
                all.deep_view(),
                all@.len() as int,
                self.deep_view().style.ansi_color,
            ),
    {
        let ghost av = all.deep_view();
        let colour: bool = self.style.ansi_color;
        let level: LogLevel = match tone {
            Tone::Log(l) => l,
            _ => LogLevel::Warn,
        };
        let bare: &str = match log_level_prefix(level) {
            Some(p) => p,
            None => "",
        };
        let prefix: String = colorize_log_prefix(level, bare, colour);
        let mut out: Vec<Piece> = no_pieces();
        let mut i: usize = 0;
        while i < all.len()
            invariant
                i <= all@.len(),
                av == all.deep_view(),
                level == tone_level(tone),
                prefix@ == coloured_prefix(level, level_prefix(level)->0, colour),
                out.deep_view() == message_lines(tone, av, i as int, colour),
            decreases all@.len() - i,
        {
            assert(av[i as int] == all@[i as int]@);
            let ghost before = out.deep_view();
            let line: &str = all[i].as_str();
            let text: String = match tone {
                Tone::Log(l) => colorize_log_message(l, line, colour),
                Tone::Mux => colorize_mux_message(line, colour),
                Tone::Tool => tint("90", line, colour),
            };
            let mut shown: String = owned(" ");
            shown.append(prefix.as_str());
            shown.append(" ");
            shown.append(text.as_str());
            shown.append("\n");
            push_piece(&mut out, Piece::Stamp);
            push_string(&mut out, shown);
            assert(out.deep_view() =~= before + log_piece(prefix@, text@));
            i = i + 1;
        }
        out
    }

    fn show_title(&self, out: &mut Vec<Piece>, message: &str)
        ensures
            final(out).deep_view() == old(out).deep_view() + title_pieces(
                self.deep_view(),
                message@,
            ),
    {
        let ghost start = out.deep_view();
        match without_prefix(message, "New version detected! ") {
            Some(latest) => {
                if self.style.ansi_color {
                    let title: String = cat3(
                        "\u{1b}]0;New version detected! ",
                        latest,
                        "\u{7}",
                    );
                    let ghost item = PieceView::Text(title@);
                    push_string(out, title);
                    assert(out.deep_view() =~= start + seq![item]);
                    return;
                }
            },
            None => {},
        }
        assert(out.deep_view() =~= start + Seq::<PieceView>::empty());
    }

    /// Shows a message of a level.
    pub fn write_log_line(&mut self, out: &mut Vec<Piece>, level: LogLevel, message: &str)
        requires
            old(self).wf(),
        ensures
            final(self).wf(),
            final(self).deep_view() == log_shown(old(self).deep_view(), level, message@).0,
            final(out).deep_view() == old(out).deep_view() + log_shown(
                old(self).deep_view(),
                level,
                message@,
            ).1,
    {
        proof {
            reveal(log_shown);
        }
        let ghost start = out.deep_view();
        let ghost t = self.deep_view();
        let bare: Option<&'static str> = log_level_prefix(level);
        if !should_log(self.style.log_level, level) || bare.is_none() || (level == LogLevel::Debug
            && is_extra_debug_noise(message)) {
            assert(out.deep_view() =~= start + Seq::<PieceView>::empty());
            return;
        }
        self.show_title(out, message);
        let ghost titled = out.deep_view();
        if message.unicode_len() == 0 {
            let name: &str = match bare {
                Some(p) => p,
                None => "",
            };
            let prefix: String = colorize_log_prefix(level, name, self.style.ansi_color);
            let mut body: Vec<Piece> = no_pieces();
            push_piece(&mut body, Piece::Stamp);
            push_string(&mut body, cat3(" ", prefix.as_str(), "\n"));
            let ghost bv = body.deep_view();
            assert(bv =~= seq![
                PieceView::Stamp,
                PieceView::Text(
                    " "@ + coloured_prefix(level, level_prefix(level)->0, t.style.ansi_color)
                        + "\n"@,
                ),
            ]);
            self.show_above(out, body, true);
            assert(out.deep_view() =~= start + log_shown(t, level, message@).1);
            return;
        }
        let all: Vec<String> = lines_text(message);
        let body: Vec<Piece> = self.tone_lines(Tone::Log(level), &all);
        assert(all.deep_view().len() == all@.len());
        self.show_above(out, body, all.len() > 0);
        assert(out.deep_view() =~= start + log_shown(t, level, message@).1);
    }

    fn write_warn_line(&mut self, out: &mut Vec<Piece>, tone: Tone, message: &str)
        requires
            old(self).wf(),
            tone_level(tone) == LogLevel::Warn,
        ensures
            final(self).wf(),
            final(self).deep_view() == warn_shown(old(self).deep_view(), tone, message@).0,
            final(out).deep_view() == old(out).deep_view() + warn_shown(
                old(self).deep_view(),
                tone,
                message@,
            ).1,
    {
        proof {
            reveal(warn_shown);
        }
        let ghost start = out.deep_view();
        if !should_log(self.style.log_level, LogLevel::Warn) {
            assert(out.deep_view() =~= start + Seq::<PieceView>::empty());
            return;
        }
        let all: Vec<String> = lines_text(message);
        let body: Vec<Piece> = self.tone_lines(tone, &all);
        assert(all.deep_view().len() == all@.len());
        self.show_above(out, body, all.len() > 0);
    }

    fn write_raw_line(&mut self, out: &mut Vec<Piece>, message: &str)
        requires
            old(self).wf(),
        ensures
            final(self).wf(),
            final(self).deep_view() == raw_shown(old(self).deep_view(), message@).0,
            final(out).deep_view() == old(out).deep_view() + raw_shown(
                old(self).deep_view(),
                message@,
            ).1,
    {
        proof {
            reveal(raw_shown);
        }
        let all: Vec<String> = lines_text(message);
        let ghost av = all.deep_view();
        let mut body: Vec<Piece> = no_pieces();
        let mut i: usize = 0;
        while i < all.len()
            invariant
                i <= all@.len(),
                av == all.deep_view(),
                body.deep_view() == raw_lines(av, i as int),
            decreases all@.len() - i,
        {
            assert(av[i as int] == all@[i as int]@);
            push_string(&mut body, cat2(all[i].as_str(), "\n"));
            i = i + 1;
        }
        assert(all.deep_view().len() == all@.len());
        self.show_above(out, body, all.len() > 0);
    }
}

/// The lines of progress are shown, where that is wanted and they were not shown just before.
#[verifier::opaque]
pub open spec fn drawn(t: ConsoleView, force: bool, now: u64) -> Shown {
    let recent = match t.last_progress_at {
        Some(last) => now - last < 100,
        None => false,
    };
    let lines = progress_lines(t);
    if !shows_progress(t.style) || (!force && recent) || lines.len() == 0 {
        (t, Seq::empty())
    } else if !t.style.ansi_progress {
        (
            noted(
                ConsoleView { block_written: true, last_progress_at: Some(now), ..t },
                true,
            ),
            block_pieces(lines),
        )
    } else {
        let (a, first) = cleared(t);
        let (b, last) = with_progress(a);
        (noted(ConsoleView { last_progress_at: Some(now), ..b }, true), first + last)
    }
}

/// Lines of progress between two empty lines.
pub open spec fn block_pieces(lines: Seq<Seq<PieceView>>) -> Seq<PieceView> {
    if lines.len() == 0 {
        Seq::empty()
    } else {
        (seq![PieceView::Text("\n"@)] + with_ends(lines, lines.len() as int)).push(
            PieceView::Text("\n"@),
        )
    }
}

fn push_block(out: &mut Vec<Piece>, lines: Vec<Vec<Piece>>)
    ensures
        final(out).deep_view() == old(out).deep_view() + block_pieces(lines.deep_view()),
{
    let ghost start = out.deep_view();
    let ghost all = lines.deep_view();
    assert(all.len() == lines@.len());
    if lines.len() == 0 {
        assert(out.deep_view() =~= start + Seq::<PieceView>::empty());
        return;
    }
    push_string(out, owned("\n"));
    push_lines(out, lines);
    push_string(out, owned("\n"));
    assert(out.deep_view() =~= start + block_pieces(all));
}

/// The end of the lines of progress: those that can be drawn over go, others are written where they
/// were not yet.
pub open spec fn finished_progress(t: ConsoleView) -> Shown {
    if t.style.ansi_progress {
        cleared(t)
    } else {
        (
            ConsoleView {
                block_written: false,
                progress_active: false,
                progress_line_count: 0,
                ..t
            },
            if t.block_written {
                Seq::empty()
            } else {
                block_pieces(progress_lines(t))
            },
        )
    }
}

/// The label of a stream; its name where it has none.
pub open spec fn label_of(t: ConsoleView, id: Seq<char>) -> Seq<char> {
    match lookup(t.stream_labels, id) {
        Some(l) => l,
        None => id,
    }
}

/// A stream will be downloaded.
#[verifier::opaque]
pub open spec fn with_task(t: ConsoleView, id: Seq<char>, label: Seq<char>) -> ConsoleView {
    ConsoleView {
        stream_labels: put(t.stream_labels, id, label),
        stream_order: with_key(t.stream_order, id),
        stream_snapshots: if lookup(t.stream_snapshots, id) is Some {
            t.stream_snapshots
        } else {
            put(
                t.stream_snapshots,
                id,
                StreamSnapshotView {
                    label,
                    started: false,
                    downloaded_bytes: 0,
                    total_bytes: None,
                    bytes_per_second: 0,
                    low_speed_count: 0,
                    completed_segments: 0,
                    total_segments: Some(100),
                },
            )
        },
        ..t
    }
}

/// A stream has come further.
#[verifier::opaque]
pub open spec fn with_stream_progress(t: ConsoleView, p: StreamProgressView) -> ConsoleView {
    ConsoleView {
        last_stream_id: Some(p.stream_id),
        stream_order: with_key(t.stream_order, p.stream_id),
        stream_snapshots: put(
            t.stream_snapshots,
            p.stream_id,
            StreamSnapshotView {
                label: label_of(t, p.stream_id),
                started: true,
                downloaded_bytes: p.downloaded_bytes,
                total_bytes: p.total_bytes,
                bytes_per_second: p.bytes_per_second,
                low_speed_count: p.low_speed_count,
                completed_segments: p.completed_segments,
                total_segments: p.total_segments,
            },
        ),
        live_snapshots: match lookup(t.live_snapshots, p.stream_id) {
            Some(s) => put(t.live_snapshots, p.stream_id, live_progressed(s, p)),
            None => t.live_snapshots,
        },
        ..t
    }
}

/// A live stream has come further; with all its segments it waits for more.
pub open spec fn live_progressed(s: LiveSnapshotView, p: StreamProgressView) -> LiveSnapshotView {
    let total = match p.total_segments {
        Some(n) => n,
        None => s.total_segments,
    };
    LiveSnapshotView {
        recorded_segments: p.completed_segments,
        total_segments: total,
        bytes_per_second: p.bytes_per_second,
        is_waiting: total > 0 && p.completed_segments >= total,
        ..s
    }
}

/// A segment has come further.
#[verifier::opaque]
pub open spec fn with_segment_progress(t: ConsoleView, p: SegmentProgressView) -> ConsoleView {
    let known = match lookup(t.stream_snapshots, p.stream_id) {
        Some(s) => s,
        None => StreamSnapshotView {
            label: label_of(t, p.stream_id),
            started: true,
            downloaded_bytes: 0,
            total_bytes: None,
            bytes_per_second: 0,
            low_speed_count: 0,
            completed_segments: 0,
            total_segments: None,
        },
    };
    ConsoleView {
        last_stream_id: Some(p.stream_id),
        stream_order: with_key(t.stream_order, p.stream_id),
        stream_snapshots: put(
            t.stream_snapshots,
            p.stream_id,
            StreamSnapshotView {
                started: true,
                downloaded_bytes: p.downloaded_bytes,
                total_bytes: if known.total_segments == Some(1u64) {
                    p.total_bytes
                } else {
                    known.total_bytes
                },
                bytes_per_second: p.bytes_per_second,
                low_speed_count: p.low_speed_count,
                ..known
            },
        ),
        ..t
    }
}

/// The stream that was spoken of last, else the first.
pub open spec fn current_stream(t: ConsoleView) -> Option<StreamSnapshotView> {
    let last = match t.last_stream_id {
        Some(id) => lookup(t.stream_snapshots, id),
        None => None,
    };
    if last is Some {
        last
    } else if t.stream_snapshots.len() > 0 {
        Some(t.stream_snapshots[0].1)
    } else {
        None
    }
}

/// What a refresh tells of a live stream.
pub struct LiveRefreshView {
    pub stream_id: Option<Seq<char>>,
    pub label: Option<Seq<char>>,
    pub refreshed_duration: TimeSpan,
    pub recorded_duration: TimeSpan,
    pub recorded_segments: u64,
    pub total_segments: u64,
    pub is_waiting: bool,
    pub recorded_size: Option<u64>,
}

/// The name under which a live stream is kept.
pub open spec fn live_key(e: LiveRefreshView) -> Seq<char> {
    match either(e.stream_id, e.label) {
        Some(k) => k,
        None => "live"@,
    }
}

/// The speed to show of a live stream.
pub open spec fn live_speed(t: ConsoleView) -> u64 {
    match t.aggregate {
        Some(p) => p.bytes_per_second,
        None => match current_stream(t) {
            Some(s) => s.bytes_per_second,
            None => 0,
        },
    }
}

/// The label to show of a live stream.
pub open spec fn live_label(t: ConsoleView, e: LiveRefreshView) -> Seq<char> {
    let known = match e.stream_id {
        Some(id) => lookup(t.stream_labels, id),
        None => None,
    };
    match either(e.label, known) {
        Some(l) => l,
        None => match current_stream(t) {
            Some(s) => s.label,
            None => "Live"@,
        },
    }
}

/// A live stream was refreshed.
#[verifier::opaque]
pub open spec fn with_live(t: ConsoleView, e: LiveRefreshView) -> ConsoleView {
    if e.stream_id is None && e.label is None && e.total_segments == 0 {
        t
    } else {
        ConsoleView {
            live_order: with_key(t.live_order, live_key(e)),
            live_snapshots: put(
                t.live_snapshots,
                live_key(e),
                LiveSnapshotView {
                    label: live_label(t, e),
                    bytes_per_second: live_speed(t),
                    refreshed_duration: e.refreshed_duration,
                    recorded_duration: e.recorded_duration,
                    recorded_segments: e.recorded_segments,
                    total_segments: e.total_segments,
                    is_waiting: e.is_waiting,
                    recorded_size: e.recorded_size,
                },
            ),
            ..t
        }
    }
}

/// Whether a refresh changes what is shown.
pub open spec fn refresh_shows(e: LiveRefreshView) -> bool {
    e.recorded_size is Some || e.recorded_segments > 0 || e.recorded_duration.nanos() > 0
        || e.is_waiting
}

proof fn lemma_put_spans(
    map: Seq<(Seq<char>, LiveSnapshotView)>,
    key: Seq<char>,
    v: LiveSnapshotView,
)
    requires
        forall|i: int| 0 <= i < map.len() ==> spans_ok((#[trigger] map[i]).1),
        spans_ok(v),
    ensures
        forall|i: int|
            0 <= i < put(map, key, v).len() ==> spans_ok((#[trigger] put(map, key, v)[i]).1),
    decreases map.len(),
{
    let r = put(map, key, v);
    if map.len() > 0 {
        let tail = map.drop_first();
        assert forall|i: int| 0 <= i < tail.len() implies spans_ok((#[trigger] tail[i]).1) by {
            assert(tail[i] == map[i + 1]);
        }
        lemma_put_spans(tail, key, v);
        assert forall|i: int| 0 <= i < r.len() implies spans_ok((#[trigger] r[i]).1) by {
            if map[0].0 == key {
                if i > 0 {
                    assert(r[i] == tail[i - 1]);
                }
            } else if crate::text_map::text_before(key, map[0].0) {
                if i > 0 {
                    assert(r[i] == map[i - 1]);
                }
            } else if i > 0 {
                assert(r[i] == put(tail, key, v)[i - 1]);
            } else {
                assert(r[0] == map[0]);
            }
        }
    }
}

impl ConsoleRenderer {
    fn draw(&mut self, out: &mut Vec<Piece>, force: bool, now: u64)
        requires
            old(self).wf(),
        ensures
            final(self).wf(),
            final(self).deep_view() == drawn(old(self).deep_view(), force, now).0,
            final(out).deep_view() == old(out).deep_view() + drawn(
                old(self).deep_view(),
                force,
                now,
            ).1,
    {
        proof {
            reveal(drawn);
        }
        let ghost start = out.deep_view();
        let ghost t = self.deep_view();
        let recent: bool = match self.last_progress_at {
            Some(last) => now < last || now - last < 100,
            None => false,
        };
        if self.style.log_level == LogLevel::Off || (!force && recent) {
            assert(out.deep_view() =~= start + Seq::<PieceView>::empty());
            return;
        }
        let lines: Vec<Vec<Piece>> = self.lines();
        assert(lines.deep_view().len() == lines@.len());
        if lines.len() == 0 {
            assert(out.deep_view() =~= start + Seq::<PieceView>::empty());
            return;
        }
        if !self.style.ansi_progress {
            push_block(out, lines);
            self.block_written = true;
            self.last_progress_at = Some(now);
            assert(self.deep_view().live_snapshots == t.live_snapshots);
            self.note_write(true);
            return;
        }
        self.clear(out);
        self.show_progress(out, lines);
        self.last_progress_at = Some(now);
        assert(self.deep_view().live_snapshots == t.live_snapshots);
        self.note_write(true);
        assert(out.deep_view() =~= start + drawn(t, force, now).1);
    }

    /// Ends the lines of progress.
    pub fn finish_progress_line(&mut self, out: &mut Vec<Piece>)
        requires
            old(self).wf(),
        ensures
            final(self).wf(),
            final(self).deep_view() == finished_progress(old(self).deep_view()).0,
            final(out).deep_view() == old(out).deep_view() + finished_progress(
                old(self).deep_view(),
            ).1,
    {
        if self.style.ansi_progress {
            self.clear(out);
            return;
        }
        let ghost start = out.deep_view();
        if !self.block_written {
            let lines: Vec<Vec<Piece>> = self.lines();
            push_block(out, lines);
        } else {
            assert(out.deep_view() =~= start + Seq::<PieceView>::empty());
        }
        self.block_written = false;
        self.progress_active = false;
        self.progress_line_count = 0;
        assert(self.deep_view().live_snapshots == old(self).deep_view().live_snapshots);
    }

    fn find_label(&self, id: &str) -> (r: String)
        ensures
            r@ == label_of(self.deep_view(), id@),
    {
        match self.stream_labels.get(id) {
            Some(l) => l.clone(),
            None => owned(id),
        }
    }

    fn add_task(&mut self, id: &str, label: &str)
        requires
            old(self).wf(),
        ensures
            final(self).wf(),
            final(self).deep_view() == with_task(old(self).deep_view(), id@, label@),
    {
        proof {
            reveal(with_task);
        }
        self.stream_labels.insert(owned(id), owned(label));
        push_key(&mut self.stream_order, id);
        if !self.stream_snapshots.contains_key(id) {
            self.stream_snapshots.insert(
                owned(id),
                StreamSnapshot {
                    label: owned(label),
                    started: false,
                    downloaded_bytes: 0,
                    total_bytes: None,
                    bytes_per_second: 0,
                    low_speed_count: 0,
                    completed_segments: 0,
                    total_segments: Some(100),
                },
            );
        }
        assert(self.deep_view().live_snapshots == old(self).deep_view().live_snapshots);
    }

    fn update_stream(&mut self, p: &StreamProgress)
        requires
            old(self).wf(),
        ensures
            final(self).wf(),
            final(self).deep_view() == with_stream_progress(old(self).deep_view(), p.deep_view()),
    {
        proof {
            reveal(with_stream_progress);
        }
        let ghost t = self.deep_view();
        let label: String = self.find_label(p.stream_id.as_str());
        self.last_stream_id = Some(p.stream_id.clone());
        push_key(&mut self.stream_order, p.stream_id.as_str());
        self.stream_snapshots.insert(
            p.stream_id.clone(),
            StreamSnapshot {
                label,
                started: true,
                downloaded_bytes: p.downloaded_bytes,
                total_bytes: p.total_bytes,
                bytes_per_second: p.bytes_per_second,
                low_speed_count: p.low_speed_count,
                completed_segments: p.completed_segments,
                total_segments: p.total_segments,
            },
        );
        let known: Option<LiveSnapshot> = match self.live_snapshots.get(p.stream_id.as_str()) {
            Some(s) => Some(s.clone()),
            None => None,
        };
        match known {
            None => {
                assert(self.deep_view().live_snapshots == t.live_snapshots);
            },
            Some(s) => {
                proof {
                    lemma_lookup_ok(t.live_snapshots, p.stream_id@);
                    lemma_put_spans(
                        t.live_snapshots,
                        p.stream_id@,
                        live_progressed(s.deep_view(), p.deep_view()),
                    );
                }
                let mut s: LiveSnapshot = s;
                s.recorded_segments = p.completed_segments;
                match p.total_segments {
                    Some(n) => {
                        s.total_segments = n;
                    },
                    None => {},
                }
                s.bytes_per_second = p.bytes_per_second;
                s.is_waiting = s.total_segments > 0 && s.recorded_segments >= s.total_segments;
                self.live_snapshots.insert(p.stream_id.clone(), s);
            },
        }
    }

    fn update_segment(&mut self, p: &SegmentProgress)
        requires
            old(self).wf(),
        ensures
            final(self).wf(),
            final(self).deep_view() == with_segment_progress(
                old(self).deep_view(),
                p.deep_view(),
            ),
    {
        proof {
            reveal(with_segment_progress);
        }
        let mut s: StreamSnapshot = match self.stream_snapshots.get(p.stream_id.as_str()) {
            Some(s) => s.clone(),
            None => StreamSnapshot {
                label: self.find_label(p.stream_id.as_str()),
                started: true,
                downloaded_bytes: 0,
                total_bytes: None,
                bytes_per_second: 0,
                low_speed_count: 0,
                completed_segments: 0,
                total_segments: None,
            },
        };
        self.last_stream_id = Some(p.stream_id.clone());
        push_key(&mut self.stream_order, p.stream_id.as_str());
        s.started = true;
        s.downloaded_bytes = p.downloaded_bytes;
        let single: bool = match s.total_segments {
            Some(n) => n == 1,
            None => false,
        };
        if single {
            s.total_bytes = p.total_bytes;
        }
        s.bytes_per_second = p.bytes_per_second;
        s.low_speed_count = p.low_speed_count;
        self.stream_snapshots.insert(p.stream_id.clone(), s);
        assert(self.deep_view().live_snapshots == old(self).deep_view().live_snapshots);
    }

    fn current(&self) -> (r: Option<&StreamSnapshot>)
        ensures
            match r {
                Some(s) => current_stream(self.deep_view()) == Some(s.deep_view()),
                None => current_stream(self.deep_view()) is None,
            },
    {
        match &self.last_stream_id {
            Some(id) => match self.stream_snapshots.get(id.as_str()) {
                Some(s) => {
                    return Some(s);
                },
                None => {},
            },
            None => {},
        }
        if self.stream_snapshots.entries.len() > 0 {
            assert(self.stream_snapshots.deep_view()[0].1
                == self.stream_snapshots.entries@[0].1.deep_view());
            Some(&self.stream_snapshots.entries[0].1)
        } else {
            None
        }
    }

    fn update_live(
        &mut self,
        stream_id: &Option<String>,
        label: &Option<String>,
        refreshed_duration: TimeSpan,
        recorded_duration: TimeSpan,
        recorded_segments: u64,
        total_segments: u64,
        is_waiting: bool,
        recorded_size: Option<u64>,
    )
        requires
            old(self).wf(),
            refreshed_duration.nanoseconds < 1_000_000_000,
            recorded_duration.nanoseconds < 1_000_000_000,
        ensures
            final(self).wf(),
            final(self).deep_view() == with_live(
                old(self).deep_view(),
                (LiveRefreshView {
                    stream_id: stream_id.deep_view(),
                    label: label.deep_view(),
                    refreshed_duration,
                    recorded_duration,
                    recorded_segments,
                    total_segments,
                    is_waiting,
                    recorded_size,
                }),
            ),
    {
        proof {
            reveal(with_live);
        }
        let ghost t = self.deep_view();
        if stream_id.is_none() && label.is_none() && total_segments == 0 {
            return;
        }
        let key: String = match (stream_id, label) {
            (Some(k), _) => k.clone(),
            (None, Some(k)) => k.clone(),
            (None, None) => owned("live"),
        };
        let bytes_per_second: u64 = match self.aggregate {
            Some(p) => p.bytes_per_second,
            None => match self.current() {
                Some(s) => s.bytes_per_second,
                None => 0,
            },
        };
        let known: Option<String> = match stream_id {
            Some(id) => match self.stream_labels.get(id.as_str()) {
                Some(l) => Some(l.clone()),
                None => None,
            },
            None => None,
        };
        let shown: String = match (label, known) {
            (Some(l), _) => l.clone(),
            (None, Some(l)) => l,
            (None, None) => match self.current() {
                Some(s) => s.label.clone(),
                None => owned("Live"),
            },
        };
        push_key(&mut self.live_order, key.as_str());
        let snapshot: LiveSnapshot = LiveSnapshot {
            label: shown,
            bytes_per_second,
            refreshed_duration,
            recorded_duration,
            recorded_segments,
            total_segments,
            is_waiting,
            recorded_size,
        };
        proof {
            lemma_put_spans(t.live_snapshots, key@, snapshot.deep_view());
        }
        self.live_snapshots.insert(key, snapshot);
    }
}

/// Lines about tracks that are taken out of those that wait.
pub struct Taken {
    pub next: int,
    pub pending: Seq<(Seq<char>, Seq<Seq<char>>)>,
    pub blocks: Seq<Seq<Seq<char>>>,
}

/// What waits is taken in the order of the live streams, as long as the next one is there.
pub open spec fn taken_ready(order: Seq<Seq<char>>, t: Taken) -> Taken
    decreases order.len() - t.next,
{
    if t.next < 0 || t.next >= order.len() {
        t
    } else {
        match lookup(t.pending, order[t.next]) {
            None => t,
            Some(block) => taken_ready(
                order,
                Taken {
                    next: t.next + 1,
                    pending: crate::text_map::discard(t.pending, order[t.next]),
                    blocks: t.blocks.push(block),
                },
            ),
        }
    }
}

/// What waits is taken in the order of the live streams, whether or not others are there.
pub open spec fn taken_rest(order: Seq<Seq<char>>, t: Taken) -> Taken
    decreases order.len() - t.next,
{
    if t.next < 0 || t.next >= order.len() {
        t
    } else {
        match lookup(t.pending, order[t.next]) {
            None => taken_rest(order, Taken { next: t.next + 1, ..t }),
            Some(block) => taken_rest(
                order,
                Taken {
                    next: t.next + 1,
                    pending: crate::text_map::discard(t.pending, order[t.next]),
                    blocks: t.blocks.push(block),
                },
            ),
        }
    }
}

/// The lines of all streams from a position on are there.
pub open spec fn all_pending(t: ConsoleView) -> bool {
    forall|i: int|
        t.next_media_info <= i < t.live_order.len() ==> lookup(
            t.pending_media_info,
            #[trigger] t.live_order[i],
        ) is Some
}

/// The warnings in front of blocks of lines about tracks.
pub open spec fn reading_lines(n: nat, colour: bool) -> Seq<PieceView>
    decreases n,
{
    if n == 0 {
        Seq::empty()
    } else {
        reading_lines((n - 1) as nat, colour) + log_piece(
            coloured_prefix(LogLevel::Warn, "WARN :"@, colour),
            coloured_message(LogLevel::Warn, "Reading media info..."@, colour),
        )
    }
}

/// The lines of the first `n` blocks.
pub open spec fn block_lines(blocks: Seq<Seq<Seq<char>>>, n: int, colour: bool) -> Seq<PieceView>
    decreases n,
{
    if n <= 0 {
        Seq::empty()
    } else {
        block_lines(blocks, n - 1, colour) + message_lines(
            Tone::Log(LogLevel::Info),
            blocks[n - 1],
            blocks[n - 1].len() as int,
            colour,
        )
    }
}

/// Blocks of lines about tracks are shown.
pub open spec fn blocks_shown(t: ConsoleView, blocks: Seq<Seq<Seq<char>>>) -> Shown {
    let warns = is_logged(t.style.log_level, LogLevel::Warn);
    let informs = is_logged(t.style.log_level, LogLevel::Info);
    let colour = t.style.ansi_color;
    if (!warns && !informs) || blocks.len() == 0 {
        (t, Seq::empty())
    } else {
        let first = if warns {
            reading_lines(blocks.len(), colour)
        } else {
            Seq::empty()
        };
        let body = if informs {
            first + block_lines(blocks, blocks.len() as int, colour)
        } else {
            first
        };
        above(t, body, true)
    }
}

/// Lines that waited are shown, where those of all streams are there.
pub open spec fn ready_shown(t: ConsoleView) -> Shown {
    if t.next_media_info < t.live_order.len() && !all_pending(t) {
        (t, Seq::empty())
    } else {
        let taken = taken_ready(
            t.live_order,
            Taken {
                next: t.next_media_info,
                pending: t.pending_media_info,
                blocks: Seq::empty(),
            },
        );
        blocks_shown(
            ConsoleView {
                next_media_info: taken.next,
                pending_media_info: taken.pending,
                ..t
            },
            taken.blocks,
        )
    }
}

/// All lines that waited are shown.
pub open spec fn rest_shown(t: ConsoleView) -> Shown {
    let (a, first) = ready_shown(t);
    let taken = taken_rest(
        a.live_order,
        Taken {
            next: a.next_media_info,
            pending: a.pending_media_info,
            blocks: Seq::empty(),
        },
    );
    let blocks = taken.blocks + taken.pending.map_values(
        |e: (Seq<char>, Seq<Seq<char>>)| e.1,
    );
    let (b, last) = blocks_shown(
        ConsoleView {
            next_media_info: taken.next,
            pending_media_info: Seq::empty(),
            ..a
        },
        blocks,
    );
    (b, first + last)
}

/// Lines about the tracks of a stream are shown; those of a live stream wait for the others.
#[verifier::opaque]
pub open spec fn media_info_shown(t: ConsoleView, id: Option<Seq<char>>, lines: Seq<Seq<char>>) -> Shown {
    match id {
        Some(key) => if listed(t.live_order, key) {
            ready_shown(
                ConsoleView { pending_media_info: put(t.pending_media_info, key, lines), ..t },
            )
        } else {
            blocks_shown(t, seq![lines])
        },
        None => blocks_shown(t, seq![lines]),
    }
}

impl ConsoleRenderer {
    fn blocks_body(&self, blocks: &Vec<Vec<String>>, warns: bool, informs: bool) -> (r: Vec<Piece>)
        ensures
            ({
                let colour = self.deep_view().style.ansi_color;
                let first = if warns {
                    reading_lines(blocks.deep_view().len(), colour)
                } else {
                    Seq::empty()
                };
                r.deep_view() == if informs {
                    first + block_lines(blocks.deep_view(), blocks@.len() as int, colour)
                } else {
                    first
                }
            }),
    {
        let ghost all = blocks.deep_view();
        let colour: bool = self.style.ansi_color;
        let mut out: Vec<Piece> = no_pieces();
        if warns {
            let prefix: String = colorize_log_prefix(LogLevel::Warn, "WARN :", colour);
            let text: String = colorize_log_message(
                LogLevel::Warn,
                "Reading media info...",
                colour,
            );
            let mut shown: String = owned(" ");
            shown.append(prefix.as_str());
            shown.append(" ");
            shown.append(text.as_str());
            shown.append("\n");
            let mut i: usize = 0;
            while i < blocks.len()
                invariant
                    i <= blocks@.len(),
                    prefix@ == coloured_prefix(LogLevel::Warn, "WARN :"@, colour),
                    text@ == coloured_message(LogLevel::Warn, "Reading media info..."@, colour),
                    shown@ == " "@ + prefix@ + " "@ + text@ + "\n"@,
                    out.deep_view() == reading_lines(i as nat, colour),
                decreases blocks@.len() - i,
            {
                let ghost before = out.deep_view();
                push_piece(&mut out, Piece::Stamp);
                push_string(&mut out, shown.clone());
                assert(out.deep_view() =~= before + log_piece(prefix@, text@));
                i = i + 1;
            }
        }
        if informs {
            let ghost first = out.deep_view();
            let mut k: usize = 0;
            assert(first + block_lines(all, 0, colour) =~= first);
            while k < blocks.len()
                invariant
                    k <= blocks@.len(),
                    all == blocks.deep_view(),
                    colour == self.deep_view().style.ansi_color,
                    out.deep_view() == first + block_lines(all, k as int, colour),
                decreases blocks@.len() - k,
            {
                assert(all[k as int] == blocks@[k as int].deep_view());
                let ghost before = out.deep_view();
                let lines: Vec<Piece> = self.tone_lines(Tone::Log(LogLevel::Info), &blocks[k]);
                push_all_pieces(&mut out, lines);
                assert(out.deep_view() =~= first + block_lines(all, k + 1, colour));
                k = k + 1;
            }
        }
        out
    }

    fn show_blocks(&mut self, out: &mut Vec<Piece>, blocks: &Vec<Vec<String>>)
        requires
            old(self).wf(),
        ensures
            final(self).wf(),
            final(self).deep_view() == blocks_shown(old(self).deep_view(), blocks.deep_view()).0,
            final(out).deep_view() == old(out).deep_view() + blocks_shown(
                old(self).deep_view(),
                blocks.deep_view(),
            ).1,
    {
        let ghost start = out.deep_view();
        let warns: bool = should_log(self.style.log_level, LogLevel::Warn);
        let informs: bool = should_log(self.style.log_level, LogLevel::Info);
        if (!warns && !informs) || blocks.len() == 0 {
            assert(out.deep_view() =~= start + Seq::<PieceView>::empty());
            return;
        }
        let body: Vec<Piece> = self.blocks_body(blocks, warns, informs);
        self.show_above(out, body, true);
    }

    fn is_all_pending(&self) -> (r: bool)
        requires
            self.wf(),
        ensures
            r == all_pending(self.deep_view()),
    {
        let ghost t = self.deep_view();
        let mut i: usize = self.next_media_info;
        while i < self.live_order.len()
            invariant
                t == self.deep_view(),
                t.next_media_info <= i,
                forall|k: int|
                    t.next_media_info <= k < i && k < t.live_order.len() ==> lookup(
                        t.pending_media_info,
                        #[trigger] t.live_order[k],
                    ) is Some,
            decreases self.live_order@.len() - i,
        {
            assert(t.live_order[i as int] == self.live_order@[i as int]@);
            if !self.pending_media_info.contains_key(self.live_order[i].as_str()) {
                assert(lookup(t.pending_media_info, t.live_order[i as int]) is None);
                return false;
            }
            i = i + 1;
        }
        true
    }

    fn take_ready(&mut self) -> (r: Vec<Vec<String>>)
        requires
            old(self).wf(),
        ensures
            final(self).wf(),
            ({
                let t = old(self).deep_view();
                let taken = taken_ready(
                    t.live_order,
                    Taken {
                        next: t.next_media_info,
                        pending: t.pending_media_info,
                        blocks: Seq::empty(),
                    },
                );
                r.deep_view() == taken.blocks && final(self).deep_view() == (ConsoleView {
                    next_media_info: taken.next,
                    pending_media_info: taken.pending,
                    ..t
                })
            }),
    {
        let ghost t = self.deep_view();
        let ghost goal = taken_ready(
            t.live_order,
            Taken {
                next: t.next_media_info,
                pending: t.pending_media_info,
                blocks: Seq::empty(),
            },
        );
        let mut blocks: Vec<Vec<String>> = Vec::new();
        assert(blocks.deep_view() =~= Seq::<Seq<Seq<char>>>::empty());
        while self.next_media_info < self.live_order.len()
            invariant
                t == old(self).deep_view(),
                console_wf(t),
                self.wf(),
                self.deep_view() == (ConsoleView {
                    next_media_info: self.next_media_info as int,
                    pending_media_info: self.pending_media_info.deep_view(),
                    ..t
                }),
                goal == taken_ready(
                    t.live_order,
                    Taken {
                        next: t.next_media_info,
                        pending: t.pending_media_info,
                        blocks: Seq::empty(),
                    },
                ),
                goal == taken_ready(
                    t.live_order,
                    Taken {
                        next: self.next_media_info as int,
                        pending: self.pending_media_info.deep_view(),
                        blocks: blocks.deep_view(),
                    },
                ),
            decreases self.live_order@.len() - self.next_media_info,
        {
            let ghost before = blocks.deep_view();
            let ghost waiting = self.pending_media_info.deep_view();
            assert(t.live_order[self.next_media_info as int]
                == self.live_order@[self.next_media_info as int]@);
            let key: String = self.live_order[self.next_media_info].clone();
            match self.pending_media_info.remove(key.as_str()) {
                None => {
                    proof {
                        crate::text_map::lemma_discard_absent(waiting, key@);
                    }
                    assert(self.deep_view().live_snapshots == t.live_snapshots);
                    return blocks;
                },
                Some(block) => {
                    let ghost item = block.deep_view();
                    blocks.push(block);
                    assert(blocks.deep_view() =~= before.push(item));
                    self.next_media_info = self.next_media_info + 1;
                    assert(self.deep_view().live_snapshots == t.live_snapshots);
                },
            }
        }
        blocks
    }

    fn take_rest(&mut self) -> (r: Vec<Vec<String>>)
        requires
            old(self).wf(),
        ensures
            final(self).wf(),
            ({
                let t = old(self).deep_view();
                let taken = taken_rest(
                    t.live_order,
                    Taken {
                        next: t.next_media_info,
                        pending: t.pending_media_info,
                        blocks: Seq::empty(),
                    },
                );
                r.deep_view() == taken.blocks + taken.pending.map_values(
                    |e: (Seq<char>, Seq<Seq<char>>)| e.1,
                ) && final(self).deep_view() == (ConsoleView {
                    next_media_info: taken.next,
                    pending_media_info: Seq::empty(),
                    ..t
                })
            }),
    {
        let ghost t = self.deep_view();
        let ghost goal = taken_rest(
            t.live_order,
            Taken {
                next: t.next_media_info,
                pending: t.pending_media_info,
                blocks: Seq::empty(),
            },
        );
        let mut blocks: Vec<Vec<String>> = Vec::new();
        assert(blocks.deep_view() =~= Seq::<Seq<Seq<char>>>::empty());
        while self.next_media_info < self.live_order.len()
            invariant
                t == old(self).deep_view(),
                console_wf(t),
                self.wf(),
                self.deep_view() == (ConsoleView {
                    next_media_info: self.next_media_info as int,
                    pending_media_info: self.pending_media_info.deep_view(),
                    ..t
                }),
                goal == taken_rest(
                    t.live_order,
                    Taken {
                        next: self.next_media_info as int,
                        pending: self.pending_media_info.deep_view(),
                        blocks: blocks.deep_view(),
                    },
                ),
            decreases self.live_order@.len() - self.next_media_info,
        {
            let ghost before = blocks.deep_view();
            let ghost waiting = self.pending_media_info.deep_view();
            assert(t.live_order[self.next_media_info as int]
                == self.live_order@[self.next_media_info as int]@);
            let key: String = self.live_order[self.next_media_info].clone();
            match self.pending_media_info.remove(key.as_str()) {
                None => {
                    proof {
                        crate::text_map::lemma_discard_absent(waiting, key@);
                    }
                },
                Some(block) => {
                    let ghost item = block.deep_view();
                    blocks.push(block);
                    assert(blocks.deep_view() =~= before.push(item));
                },
            }
            self.next_media_info = self.next_media_info + 1;
            assert(self.deep_view().live_snapshots == t.live_snapshots);
        }
        let ghost first = blocks.deep_view();
        let ghost waiting = self.pending_media_info.deep_view();
        let ghost values = waiting.map_values(|e: (Seq<char>, Seq<Seq<char>>)| e.1);
        let mut k: usize = 0;
        assert(first + values.subrange(0, 0) =~= first);
        while k < self.pending_media_info.entries.len()
            invariant
                k <= self.pending_media_info.entries@.len(),
                waiting == self.pending_media_info.deep_view(),
                waiting.len() == self.pending_media_info.entries@.len(),
                values == waiting.map_values(|e: (Seq<char>, Seq<Seq<char>>)| e.1),
                blocks.deep_view() =~= first + values.subrange(0, k as int),
            decreases self.pending_media_info.entries@.len() - k,
        {
            assert(waiting[k as int].1
                == self.pending_media_info.entries@[k as int].1.deep_view());
            let ghost before = blocks.deep_view();
            let copy: Vec<String> = crate::manifest::copy_texts(
                &self.pending_media_info.entries[k].1,
            );
            let ghost item = copy.deep_view();
            assert(values[k as int] == item);
            blocks.push(copy);
            assert(blocks.deep_view() =~= before.push(item));
            k = k + 1;
        }
        assert(values.subrange(0, values.len() as int) =~= values);
        self.pending_media_info = TextMap::new();
        assert(self.deep_view().live_snapshots == t.live_snapshots);
        blocks
    }

    fn show_ready(&mut self, out: &mut Vec<Piece>)
        requires
            old(self).wf(),
        ensures
            final(self).wf(),
            final(self).deep_view() == ready_shown(old(self).deep_view()).0,
            final(out).deep_view() == old(out).deep_view() + ready_shown(old(self).deep_view()).1,
    {
        let ghost start = out.deep_view();
        if self.next_media_info < self.live_order.len() && !self.is_all_pending() {
            assert(out.deep_view() =~= start + Seq::<PieceView>::empty());
            return;
        }
        let blocks: Vec<Vec<String>> = self.take_ready();
        self.show_blocks(out, &blocks);
    }

    fn show_rest(&mut self, out: &mut Vec<Piece>)
        requires
            old(self).wf(),
        ensures
            final(self).wf(),
            final(self).deep_view() == rest_shown(old(self).deep_view()).0,
            final(out).deep_view() == old(out).deep_view() + rest_shown(old(self).deep_view()).1,
    {
        let ghost start = out.deep_view();
        let ghost t = self.deep_view();
        self.show_ready(out);
        let blocks: Vec<Vec<String>> = self.take_rest();
        self.show_blocks(out, &blocks);
        assert(out.deep_view() =~= start + rest_shown(t).1);
    }

    fn show_media_info(&mut self, out: &mut Vec<Piece>, id: &Option<String>, lines: &Vec<String>)
        requires
            old(self).wf(),
        ensures
            final(self).wf(),
            final(self).deep_view() == media_info_shown(
                old(self).deep_view(),
                id.deep_view(),
                lines.deep_view(),
            ).0,
            final(out).deep_view() == old(out).deep_view() + media_info_shown(
                old(self).deep_view(),
                id.deep_view(),
                lines.deep_view(),
            ).1,
    {
        proof {
            reveal(media_info_shown);
        }
        match id {
            Some(key) => {
                if is_listed(&self.live_order, key.as_str()) {
                    self.pending_media_info.insert(
                        key.clone(),
                        crate::manifest::copy_texts(lines),
                    );
                    assert(self.deep_view().live_snapshots == old(self).deep_view().live_snapshots);
                    self.show_ready(out);
                    return;
                }
            },
            None => {},
        }
        let mut blocks: Vec<Vec<String>> = Vec::new();
        blocks.push(crate::manifest::copy_texts(lines));
        assert(blocks.deep_view() =~= seq![lines.deep_view()]);
        self.show_blocks(out, &blocks);
    }
}

/// A message of a level is shown after something else.
pub open spec fn and_log(s: Shown, level: LogLevel, message: Seq<char>) -> Shown {
    let (u, more) = log_shown(s.0, level, message);
    (u, s.1 + more)
}

/// What a transport stream says of itself is shown.
#[verifier::opaque]
pub open spec fn service_shown(
    t: ConsoleView,
    program: Seq<char>,
    provider: Option<Seq<char>>,
    name: Option<Seq<char>>,
) -> Shown {
    let first = log_shown(t, LogLevel::Info, "Program Id: "@ + program);
    let second = match name {
        Some(n) => and_log(first, LogLevel::Info, "Service Name: "@ + n),
        None => first,
    };
    match provider {
        Some(p) => and_log(second, LogLevel::Info, "Service Provider: "@ + p),
        None => second,
    }
}

/// The end is shown.
#[verifier::opaque]
pub open spec fn end_shown(t: ConsoleView, success: bool) -> Shown {
    let (a, first) = rest_shown(t);
    let (b, second) = finished_progress(a);
    if success {
        and_log((b, first + second), LogLevel::Info, "Done"@)
    } else {
        and_log((b, first + second), LogLevel::Error, "Failed"@)
    }
}

/// What is shown of an event at a time.
pub open spec fn rendered(t: ConsoleView, e: ProgressEventView, now: u64) -> Shown {
    match e {
        ProgressEventView::Log { level, message } => log_shown(t, level, message),
        ProgressEventView::MediaInfo { stream_id, lines } => media_info_shown(t, stream_id, lines),
        ProgressEventView::LogFileCreated { path } => log_shown(
            t,
            LogLevel::Debug,
            "Log file: "@ + path,
        ),
        ProgressEventView::UpdateCheckStarted => log_shown(
            t,
            LogLevel::Debug,
            "Update check started"@,
        ),
        ProgressEventView::TaskStartDelay { until, .. } => log_shown(
            t,
            LogLevel::Info,
            "The program will wait until: "@ + until,
        ),
        ProgressEventView::StreamTaskCreated { stream_id, label } => (
            with_task(t, stream_id, label),
            Seq::empty(),
        ),
        ProgressEventView::StreamProgress(p) => drawn(
            with_stream_progress(t, p),
            p.total_segments == Some(p.completed_segments),
            now,
        ),
        ProgressEventView::SegmentProgress(p) => drawn(with_segment_progress(t, p), false, now),
        ProgressEventView::AggregateProgress(p) => {
            let u = ConsoleView { aggregate: Some(p), ..t };
            if t.stream_snapshots.len() == 0 {
                drawn(u, false, now)
            } else {
                (u, Seq::empty())
            }
        },
        ProgressEventView::DecryptProgress { message, .. } => log_shown(
            t,
            decrypt_level(message),
            message,
        ),
        ProgressEventView::MergeProgress { message, .. } => log_shown(t, LogLevel::Info, message),
        ProgressEventView::SubtitleProgress { message, .. } => log_shown(
            t,
            LogLevel::Warn,
            message,
        ),
        ProgressEventView::MuxProgress { message } => warn_shown(t, Tone::Mux, message),
        ProgressEventView::ExternalToolOutput { message } => warn_shown(t, Tone::Tool, message),
        ProgressEventView::ConsoleLine { message } => raw_shown(t, message),
        ProgressEventView::LiveRefresh {
            stream_id,
            label,
            refreshed_duration,
            recorded_duration,
            recorded_segments,
            total_segments,
            is_waiting,
            recorded_size,
        } => {
            let r = LiveRefreshView {
                stream_id,
                label,
                refreshed_duration,
                recorded_duration,
                recorded_segments,
                total_segments,
                is_waiting,
                recorded_size,
            };
            if refresh_shows(r) {
                drawn(with_live(t, r), true, now)
            } else {
                (with_live(t, r), Seq::empty())
            }
        },
        ProgressEventView::LiveServiceInfo { program_id, service_provider, service_name } => service_shown(
            t,
            program_id,
            service_provider,
            service_name,
        ),
        ProgressEventView::Warning { message } => log_shown(t, LogLevel::Warn, message),
        ProgressEventView::Cancelled => log_shown(t, LogLevel::Warn, "Cancelled"@),
        ProgressEventView::Finished { success } => end_shown(t, success),
        _ => (t, Seq::empty()),
    }
}

/// The times of an event are in the range of their parts.
pub open spec fn event_ok(e: ProgressEventView) -> bool {
    match e {
        ProgressEventView::LiveRefresh { refreshed_duration, recorded_duration, .. } => {
            refreshed_duration.nanoseconds < 1_000_000_000 && recorded_duration.nanoseconds
                < 1_000_000_000
        },
        _ => true,
    }
}

impl ConsoleRenderer {
    fn show_service(
        &mut self,
        out: &mut Vec<Piece>,
        program: &str,
        provider: &Option<String>,
        name: &Option<String>,
    )
        requires
            old(self).wf(),
        ensures
            final(self).wf(),
            final(self).deep_view() == service_shown(
                old(self).deep_view(),
                program@,
                provider.deep_view(),
                name.deep_view(),
            ).0,
            final(out).deep_view() == old(out).deep_view() + service_shown(
                old(self).deep_view(),
                program@,
                provider.deep_view(),
                name.deep_view(),
            ).1,
    {
        proof {
            reveal(service_shown);
        }
        let ghost start = out.deep_view();
        let ghost t = self.deep_view();
        let first: String = cat2("Program Id: ", program);
        self.write_log_line(out, LogLevel::Info, first.as_str());
        match name {
            Some(n) => {
                let second: String = cat2("Service Name: ", n.as_str());
                self.write_log_line(out, LogLevel::Info, second.as_str());
            },
            None => {},
        }
        match provider {
            Some(p) => {
                let third: String = cat2("Service Provider: ", p.as_str());
                self.write_log_line(out, LogLevel::Info, third.as_str());
            },
            None => {},
        }
        assert(out.deep_view() =~= start + service_shown(
            t,
            program@,
            provider.deep_view(),
            name.deep_view(),
        ).1);
    }

    fn show_end(&mut self, out: &mut Vec<Piece>, success: bool)
        requires
            old(self).wf(),
        ensures
            final(self).wf(),
            final(self).deep_view() == end_shown(old(self).deep_view(), success).0,
            final(out).deep_view() == old(out).deep_view() + end_shown(
                old(self).deep_view(),
                success,
            ).1,
    {
        proof {
            reveal(end_shown);
        }
        let ghost start = out.deep_view();
        let ghost t = self.deep_view();
        self.show_rest(out);
        self.finish_progress_line(out);
        if success {
            self.write_log_line(out, LogLevel::Info, "Done");
        } else {
            self.write_log_line(out, LogLevel::Error, "Failed");
        }
        assert(out.deep_view() =~= start + end_shown(t, success).1);
    }

    fn show_aggregate(&mut self, out: &mut Vec<Piece>, p: AggregateProgress, now: u64)
        requires
            old(self).wf(),
        ensures
            final(self).wf(),
            final(self).deep_view() == rendered(
                old(self).deep_view(),
                ProgressEventView::AggregateProgress(p),
                now,
            ).0,
            final(out).deep_view() == old(out).deep_view() + rendered(
                old(self).deep_view(),
                ProgressEventView::AggregateProgress(p),
                now,
            ).1,
    {
        let ghost start = out.deep_view();
        self.aggregate = Some(p);
        assert(self.deep_view().live_snapshots == old(self).deep_view().live_snapshots);
        if self.stream_snapshots.entries.len() == 0 {
            self.draw(out, false, now);
            return;
        }
        assert(out.deep_view() =~= start + Seq::<PieceView>::empty());
    }

    /// Shows an event at a time, which is given in milliseconds.
    pub fn render(&mut self, out: &mut Vec<Piece>, event: &ProgressEvent, now: u64)
        requires
            old(self).wf(),
            event_ok(event.deep_view()),
        ensures
            final(self).wf(),
            final(self).deep_view() == rendered(old(self).deep_view(), event.deep_view(), now).0,
            final(out).deep_view() == old(out).deep_view() + rendered(
                old(self).deep_view(),
                event.deep_view(),
                now,
            ).1,
    {
        let ghost start = out.deep_view();
        match event {
            ProgressEvent::Log { level, message } => {
                self.write_log_line(out, *level, message.as_str());
                return;
            },
            ProgressEvent::MediaInfo { stream_id, lines } => {
                self.show_media_info(out, stream_id, lines);
                return;
            },
            ProgressEvent::LogFileCreated { path } => {
                let message: String = cat2("Log file: ", path.as_str());
                self.write_log_line(out, LogLevel::Debug, message.as_str());
                return;
            },
            ProgressEvent::UpdateCheckStarted => {
                self.write_log_line(out, LogLevel::Debug, "Update check started");
                return;
            },
            ProgressEvent::TaskStartDelay { until, .. } => {
                let message: String = cat2("The program will wait until: ", until.as_str());
                self.write_log_line(out, LogLevel::Info, message.as_str());
                return;
            },
            ProgressEvent::StreamTaskCreated { stream_id, label } => {
                self.add_task(stream_id.as_str(), label.as_str());
            },
            ProgressEvent::StreamProgress(p) => {
                self.update_stream(p);
                let force: bool = match p.total_segments {
                    Some(n) => n == p.completed_segments,
                    None => false,
                };
                self.draw(out, force, now);
                return;
            },
            ProgressEvent::SegmentProgress(p) => {
                self.update_segment(p);
                self.draw(out, false, now);
                return;
            },
            ProgressEvent::AggregateProgress(p) => {
                self.show_aggregate(out, *p, now);
                return;
            },
            ProgressEvent::DecryptProgress { message, .. } => {
                let level: LogLevel = decrypt_progress_level(message.as_str());
                self.write_log_line(out, level, message.as_str());
                return;
            },
            ProgressEvent::MergeProgress { message, .. } => {
                self.write_log_line(out, LogLevel::Info, message.as_str());
                return;
            },
            ProgressEvent::SubtitleProgress { message, .. } => {
                self.write_log_line(out, LogLevel::Warn, message.as_str());
                return;
            },
            ProgressEvent::MuxProgress { message } => {
                self.write_warn_line(out, Tone::Mux, message.as_str());
                return;
            },
            ProgressEvent::ExternalToolOutput { message } => {
                self.write_warn_line(out, Tone::Tool, message.as_str());
                return;
            },
            ProgressEvent::ConsoleLine { message } => {
                self.write_raw_line(out, message.as_str());
                return;
            },
            ProgressEvent::LiveRefresh {
                stream_id,
                label,
                refreshed_duration,
                recorded_duration,
                recorded_segments,
                total_segments,
                is_waiting,
                recorded_size,
            } => {
                let shows: bool = recorded_size.is_some() || *recorded_segments > 0
                    || recorded_duration.seconds > 0 || recorded_duration.nanoseconds > 0
                    || *is_waiting;
                self.update_live(
                    stream_id,
                    label,
                    *refreshed_duration,
                    *recorded_duration,
                    *recorded_segments,
                    *total_segments,
                    *is_waiting,
                    *recorded_size,
                );
                if shows {
                    self.draw(out, true, now);
                    return;
                }
            },
            ProgressEvent::LiveServiceInfo { program_id, service_provider, service_name } => {
                self.show_service(out, program_id.as_str(), service_provider, service_name);
                return;
            },
            ProgressEvent::Warning { message } => {
                self.write_log_line(out, LogLevel::Warn, message.as_str());
                return;
            },
            ProgressEvent::Cancelled => {
                self.write_log_line(out, LogLevel::Warn, "Cancelled");
                return;
            },
            ProgressEvent::Finished { success } => {
                self.show_end(out, *success);
                return;
            },
            _ => {},
        }
        assert(out.deep_view() =~= start + Seq::<PieceView>::empty());
    }

    /// Shows that everything has failed, and why.
    pub fn render_error(&mut self, out: &mut Vec<Piece>, error_text: &str)
        requires
            old(self).wf(),
        ensures
            final(self).wf(),
            ({
                let shown = and_log(
                    and_log(
                        finished_progress(old(self).deep_view()),
                        LogLevel::Error,
                        error_text@,
                    ),
                    LogLevel::Error,
                    "Failed"@,
                );
                final(self).deep_view() == shown.0 && final(out).deep_view() == old(out).deep_view()
                    + shown.1
            }),
    {
        let ghost start = out.deep_view();
        let ghost t = self.deep_view();
        self.finish_progress_line(out);
        self.write_log_line(out, LogLevel::Error, error_text);
        self.write_log_line(out, LogLevel::Error, "Failed");
        assert(out.deep_view() =~= start + and_log(
            and_log(finished_progress(t), LogLevel::Error, error_text@),
            LogLevel::Error,
            "Failed"@,
        ).1);
    }
}

/// A message that is not logged shows nothing and changes nothing.
pub proof fn law_what_is_not_logged_is_not_shown(t: ConsoleView, level: LogLevel, message: Seq<char>)
    requires
        !is_logged(t.style.log_level, level),
    ensures
        log_shown(t, level, message) == (t, Seq::<PieceView>::empty()),
{
    reveal(log_shown);
}

/// Where nothing is logged, no event shows anything but lines that are shown as they stand.
pub proof fn law_silence_is_kept(t: ConsoleView, e: ProgressEventView, now: u64)
    requires
        t.style.log_level == LogLevel::Off,
        !t.progress_active,
        t.block_written,
        !(e is ConsoleLine),
    ensures
        rendered(t, e, now).1.len() == 0,
{
    reveal(log_shown);
    reveal(drawn);
    reveal(warn_shown);
    reveal(media_info_shown);
    reveal(service_shown);
    reveal(end_shown);
    reveal(with_live);
    reveal(with_stream_progress);
    reveal(with_segment_progress);
    match e {
        ProgressEventView::Finished { success } => {
            let a = rest_shown(t).0;
            assert(rest_shown(t).1 =~= Seq::<PieceView>::empty());
            assert(finished_progress(a).1 =~= Seq::<PieceView>::empty());
        },
        _ => {},
    }
}

} // verus!
