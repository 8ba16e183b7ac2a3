//! What is shown of progress and messages.

use crate::config::LogLevel;
use crate::console::{
    bar_text, bytes_status, cleared, dashes, expected_bytes, left_status, log_shown, padded_left,
    padded_right, rate_status, rendered, repeated_text, segments_status, share_of, short_clock,
    size_text, stamp_text, ConsoleView, PieceView, StreamSnapshotView,
};
use crate::console_color::{coloured_message, coloured_prefix, is_noise, level_prefix, painted};
use crate::datetime::{zero_padded, LocalTime};
use crate::event::ProgressEventView;
use crate::numeric::{double_step, nearest_double, nearest_even};
use crate::observability::{clock_text, file_size_text, is_logged, size_unit};
use crate::text::{dec, digits_value, lines, starts_with};
use crate::time_laws::law_padding_keeps_the_number;
use vstd::prelude::*;

verus! {

/// A bar is thirty dashes, so many of them filled.
pub proof fn law_bars(filled: nat)
    requires
        filled <= 30,
    ensures
        bar_text(filled) == painted("38;5;11"@, dashes(filled)) + painted(
            "38;5;8"@,
            dashes((30 - filled) as nat),
        ),
        dashes(filled).len() + dashes((30 - filled) as nat).len() == 30,
        forall|i: int| 0 <= i < filled ==> #[trigger] dashes(filled)[i] == '-',
{
}

/// The time in front of a line is the time of day, to the millisecond.
pub proof fn law_stamps(t: LocalTime)
    requires
        t.in_range(),
    ensures
        stamp_text(t).len() == 12,
        digits_value(stamp_text(t).subrange(0, 2)) == t.hour,
        digits_value(stamp_text(t).subrange(3, 5)) == t.minute,
        digits_value(stamp_text(t).subrange(6, 8)) == t.second,
        digits_value(stamp_text(t).subrange(9, 12)) == t.nanosecond / 1_000_000,
{
    reveal_strlit(":");
    reveal_strlit(".");
    reveal_with_fuel(dec, 4);
    let ms = (t.nanosecond / 1_000_000) as nat;
    law_padding_keeps_the_number(t.hour as nat, 2);
    law_padding_keeps_the_number(t.minute as nat, 2);
    law_padding_keeps_the_number(t.second as nat, 2);
    law_padding_keeps_the_number(ms, 3);
    assert(dec(t.hour as nat).len() <= 2 && dec(t.minute as nat).len() <= 2 && dec(
        t.second as nat,
    ).len() <= 2 && dec(ms).len() <= 3);
    let s = stamp_text(t);
    assert(s.subrange(0, 2) =~= zero_padded(t.hour as nat, 2));
    assert(s.subrange(3, 5) =~= zero_padded(t.minute as nat, 2));
    assert(s.subrange(6, 8) =~= zero_padded(t.second as nat, 2));
    assert(s.subrange(9, 12) =~= zero_padded(ms, 3));
}

/// A text that is filled up is as wide as was asked for and still holds the text, on the right or on
/// the left.
pub proof fn law_filled_texts(s: Seq<char>, width: nat)
    ensures
        s.len() <= width ==> padded_left(s, width).len() == width && padded_right(s, width).len()
            == width,
        s.len() <= width ==> padded_right(s, width).take(s.len() as int) == s,
        s.len() <= width ==> padded_left(s, width).skip((width - s.len()) as int) == s,
        s.len() > width ==> padded_left(s, width) == s && padded_right(s, width) == s,
{
    if s.len() <= width {
        assert(padded_right(s, width).take(s.len() as int) =~= s);
        assert(padded_left(s, width).skip((width - s.len()) as int) =~= s);
    }
}

/// The segments that are there stand before all of them.
pub proof fn law_segment_counts(completed: u64, total: u64)
    ensures
        segments_status(completed, Some(total)) == dec(completed as nat) + "/"@ + dec(total as nat),
        segments_status(completed, None) == dec(completed as nat),
{
}

/// The bytes that are there stand before all of them; while nothing came there is a dash.
pub proof fn law_byte_counts(downloaded: u64, total: u64)
    requires
        downloaded > 0,
    ensures
        bytes_status(true, downloaded, Some(total)) == size_text(downloaded as nat) + "/"@
            + size_text(total as nat),
        bytes_status(true, downloaded, None) == size_text(downloaded as nat),
        bytes_status(true, 0, Some(total)) == "-"@,
        bytes_status(false, downloaded, Some(total)) == "-"@,
{
}

/// The time that is left is what the missing bytes take at the present speed.
pub proof fn law_time_left(downloaded: u64, total: u64, per_second: u64)
    requires
        per_second > 0,
    ensures
        downloaded < total ==> left_status(true, downloaded, Some(total), per_second) == clock_text(
            ((total - downloaded) / per_second as int) as nat,
        ),
        downloaded >= total ==> left_status(true, downloaded, Some(total), per_second)
            == "00:00:00"@,
        left_status(true, downloaded, None, per_second) == "--:--:--"@,
        left_status(false, downloaded, Some(total), per_second) == "--:--:--"@,
{
}

/// The speed is shown in bytes for a second, with the seconds in which nothing came.
pub proof fn law_speeds(per_second: u64, slow: u32)
    requires
        per_second > 0,
    ensures
        rate_status(true, per_second, 0) == size_text(per_second as nat) + "ps"@,
        slow > 0 ==> rate_status(true, per_second, slow) == size_text(per_second as nat) + "ps"@ + (
        "("@ + dec(slow as nat) + ")"@),
        rate_status(true, 0, slow) == "-"@,
{
}

/// The share of a stream is that of its segments; of one segment on its way it is that of its bytes.
pub proof fn law_shares(completed: u64, segments: u64, downloaded: u64, bytes: u64)
    requires
        bytes > 0,
    ensures
        segments > 1 ==> share_of(completed, Some(segments), downloaded, Some(bytes)) == (
            completed,
            segments,
        ),
        share_of(0, Some(1), downloaded, Some(bytes)) == (downloaded, bytes),
        share_of(1, Some(1), downloaded, Some(bytes)) == (1u64, 1u64),
        share_of(completed, None, downloaded, Some(bytes)) == (downloaded, bytes),
{
}

/// The bytes of a stream are those that were announced, or as many as the segments so far let expect.
pub proof fn law_expected_bytes(s: StreamSnapshotView, n: u64)
    requires
        s.total_bytes is None,
        s.total_segments == Some(n),
        0 < s.completed_segments < n,
        s.downloaded_bytes * n <= u64::MAX,
    ensures
        expected_bytes(s) is Some,
        expected_bytes(s)->0 == (s.downloaded_bytes * n) / s.completed_segments as int,
        expected_bytes(StreamSnapshotView { total_bytes: Some(n), ..s }) == Some(n),
{
}

/// A small number of bytes is shown as it is, and whole kibibytes as such.
pub proof fn law_file_sizes(n: nat)
    requires
        0 < n < 1024,
    ensures
        file_size_text(n) == dec(n) + "B"@,
        file_size_text(1024 * n) == dec(n) + ".00KiB"@,
        file_size_text(1_048_576 * n) == dec(n) + ".00MiB"@,
{
    reveal_strlit(".");
    reveal_strlit("00");
    reveal_strlit(".00KiB");
    reveal_strlit(".00MiB");
    reveal_strlit("KiB");
    reveal_strlit("MiB");
    lemma_exact(n);
    lemma_exact(1024 * n);
    lemma_exact(1_048_576 * n);
    assert(size_unit(n) == 0);
    assert(size_unit(1024 * n) == 1);
    assert(size_unit(1_048_576 * n) == 2);
    lemma_whole(n, 1024);
    lemma_whole(n, 1_048_576);
    assert(zero_padded(0, 2) =~= seq!['0', '0']) by {
        reveal_with_fuel(dec, 2);
        assert(dec(0) =~= seq!['0']);
    }
    assert((100 * n) as nat / 100 == n && (100 * n) as nat % 100 == 0);
    assert(file_size_text(1024 * n) =~= dec(n) + ".00KiB"@);
    assert(file_size_text(1_048_576 * n) =~= dec(n) + ".00MiB"@);
}

proof fn lemma_exact(n: nat)
    requires
        n < 0x20_0000_0000_0000,
    ensures
        nearest_double(n) == n,
{
    assert(double_step(n) == 1);
    assert(n % 1 == 0 && n / 1 == n);
}

proof fn lemma_whole(n: nat, d: nat)
    requires
        d > 0,
    ensures
        nearest_even(d * n * 100, d) == 100 * n,
{
    assert((d * n * 100) as int == d as int * (100 * n)) by (nonlinear_arith);
    vstd::arithmetic::div_mod::lemma_div_multiples_vanish((100 * n) as int, d as int);
    vstd::arithmetic::div_mod::lemma_mod_multiples_basic((100 * n) as int, d as int);
    assert((100 * n) as int * d as int == d as int * (100 * n) as int) by (nonlinear_arith);
}

/// The levels are named in front of their messages.
pub proof fn law_level_names()
    ensures
        level_prefix(LogLevel::Off) is None,
        level_prefix(LogLevel::Info) is Some && level_prefix(LogLevel::Warn) is Some
            && level_prefix(LogLevel::Error) is Some && level_prefix(LogLevel::Debug) is Some,
        level_prefix(LogLevel::Info) != level_prefix(LogLevel::Warn),
        level_prefix(LogLevel::Warn) != level_prefix(LogLevel::Error),
        level_prefix(LogLevel::Info) != level_prefix(LogLevel::Error),
        starts_with(level_prefix(LogLevel::Info)->0, "INFO"@),
        starts_with(level_prefix(LogLevel::Warn)->0, "WARN"@),
        starts_with(level_prefix(LogLevel::Error)->0, "ERROR"@),
        starts_with(level_prefix(LogLevel::Debug)->0, "DEBUG"@),
{
    reveal_strlit("INFO");
    reveal_strlit("WARN");
    reveal_strlit("ERROR");
    reveal_strlit("DEBUG");
    reveal_strlit("INFO :");
    reveal_strlit("WARN :");
    reveal_strlit("ERROR:");
    reveal_strlit("DEBUG:");
    assert("INFO :"@.subrange(0, 4) =~= "INFO"@);
    assert("WARN :"@.subrange(0, 4) =~= "WARN"@);
    assert("ERROR:"@.subrange(0, 5) =~= "ERROR"@);
    assert("DEBUG:"@.subrange(0, 5) =~= "DEBUG"@);
    assert("INFO :"@[0] == 'I' && "WARN :"@[0] == 'W' && "ERROR:"@[0] == 'E');
}

/// A message of one line, without colours and progress, is shown behind the time and its level, once,
/// and nothing is shown that is not severe enough.
pub proof fn law_messages_are_shown(t: ConsoleView, level: LogLevel, message: Seq<char>)
    requires
        !t.progress_active,
        !t.style.ansi_color,
        level_prefix(level) is Some,
        message.len() > 0,
        lines(message) == seq![message],
        !(level == LogLevel::Debug && is_noise(message)),
    ensures
        is_logged(t.style.log_level, level) ==> log_shown(t, level, message).1 == seq![
            PieceView::Stamp,
            PieceView::Text(" "@ + level_prefix(level)->0 + " "@ + message + "\n"@),
        ],
        !is_logged(t.style.log_level, level) ==> log_shown(t, level, message).1.len() == 0,
        rendered(t, ProgressEventView::Log { level, message }, 0) == log_shown(t, level, message),
        rendered(t, ProgressEventView::Warning { message }, 0) == log_shown(
            t,
            LogLevel::Warn,
            message,
        ),
{
    reveal(log_shown);
    reveal_with_fuel(crate::console::message_lines, 2);
    let shown = log_shown(t, level, message).1;
    if is_logged(t.style.log_level, level) {
        assert(coloured_prefix(level, level_prefix(level)->0, false) == level_prefix(level)->0);
        assert(coloured_message(level, message, false) == message);
        assert(shown =~= seq![
            PieceView::Stamp,
            PieceView::Text(" "@ + level_prefix(level)->0 + " "@ + message + "\n"@),
        ]);
    }
}

/// Lines of progress are removed as often as there are any.
pub proof fn law_progress_is_removed(t: ConsoleView)
    ensures
        t.progress_active ==> cleared(t).1 == seq![
            PieceView::Text(repeated_text("\u{1b}[1A\r\u{1b}[2K"@, t.progress_line_count as nat)),
        ],
        !t.progress_active ==> cleared(t).1.len() == 0,
        !cleared(t).0.progress_active,
{
}

/// A short time shows minutes and seconds, a longer one hours too.
pub proof fn law_short_times(seconds: nat)
    ensures
        seconds < 3600 ==> short_clock(seconds) == zero_padded(seconds / 60, 2) + "m"@ + zero_padded(
            seconds % 60,
            2,
        ) + "s"@,
        seconds >= 3600 ==> short_clock(seconds) == zero_padded(seconds / 3600, 2) + "h"@ + (
        zero_padded((seconds / 60) % 60, 2) + "m"@ + zero_padded(seconds % 60, 2) + "s"@),
{
}

} // verus!
