//! Colours of the lines on a terminal.

use crate::config::LogLevel;
use crate::text::{
    begins_with, cat2, cat3, contains, cut_once, drop, ends_with, find, find_text, finishes_with,
    has_text, is_digit, lower, lowered, opt, owned, rcut_once, rsplit_once, same, slice, slice_from,
    split, split_once, split_text, starts_with, strip_prefix, strip_suffix, take, trim, trim_end,
    trim_start, trimmed, trimmed_end, trimmed_start, without_prefix, without_suffix,
};
use vstd::prelude::*;

verus! {

/// A text in a colour.
pub open spec fn painted(code: Seq<char>, value: Seq<char>) -> Seq<char> {
    "\u{1b}["@ + code + "m"@ + value + "\u{1b}[0m"@
}

/// A text in a colour.
pub fn paint(code: &str, value: &str) -> (r: String)
    ensures
        r@ == painted(code@, value@),
{
    let mut out: String = owned("\u{1b}[");
    out.append(code);
    out.append("m");
    out.append(value);
    out.append("\u{1b}[0m");
    out
}

/// The characters of a text that can be seen, from position `i` on: a sequence of the terminal up
/// to the letter `m` cannot.
pub open spec fn seen_from(s: Seq<char>, i: int, hidden: bool) -> nat
    decreases s.len() - i,
{
    if i < 0 || i >= s.len() {
        0
    } else if hidden {
        seen_from(s, i + 1, s[i] != 'm')
    } else if s[i] == '\u{1b}' && i + 1 < s.len() && s[i + 1] == '[' {
        seen_from(s, i + 2, true)
    } else {
        1 + seen_from(s, i + 1, false)
    }
}

/// The width of a text on a terminal.
pub open spec fn seen_width(s: Seq<char>) -> nat {
    seen_from(s, 0, false)
}

/// The width of a text on a terminal.
pub fn visible_width(value: &str) -> (r: usize)
    ensures
        r == seen_width(value@),
{
    let n: usize = value.unicode_len();
    let mut width: usize = 0;
    let mut hidden: bool = false;
    let mut i: usize = 0;
    while i < n
        invariant
            i <= n,
            n == value@.len(),
            width <= i,
            seen_width(value@) == width + seen_from(value@, i as int, hidden),
        decreases n - i,
    {
        let c: char = value.get_char(i);
        if hidden {
            hidden = c != 'm';
            i = i + 1;
        } else if c == '\u{1b}' && i + 1 < n && value.get_char(i + 1) == '[' {
            hidden = true;
            i = i + 2;
        } else {
            width = width + 1;
            i = i + 1;
        }
    }
    width
}

/// A text that holds nothing a terminal hides.
pub open spec fn is_plain(s: Seq<char>) -> bool {
    forall|i: int| 0 <= i < s.len() ==> #[trigger] s[i] != '\u{1b}'
}

proof fn lemma_seen_code(s: Seq<char>, i: int, end: int)
    requires
        0 <= i <= end < s.len(),
        forall|k: int| i <= k < end ==> #[trigger] s[k] != 'm',
        s[end] == 'm',
    ensures
        seen_from(s, i, true) == seen_from(s, end + 1, false),
    decreases end - i,
{
    if i < end {
        lemma_seen_code(s, i + 1, end);
    }
}

proof fn lemma_seen_middle(s: Seq<char>, i: int, end: int)
    requires
        0 <= i <= end <= s.len(),
        forall|k: int| i <= k < end ==> #[trigger] s[k] != '\u{1b}',
    ensures
        seen_from(s, i, false) == end - i + seen_from(s, end, false),
    decreases end - i,
{
    if i < end {
        lemma_seen_middle(s, i + 1, end);
    }
}

/// Colour changes nothing about the width of a text.
pub proof fn law_colour_has_no_width(code: Seq<char>, value: Seq<char>)
    requires
        is_plain(value),
        forall|i: int| 0 <= i < code.len() ==> #[trigger] code[i] != 'm',
    ensures
        seen_width(painted(code, value)) == value.len(),
{
    reveal_strlit("\u{1b}[");
    reveal_strlit("m");
    reveal_strlit("\u{1b}[0m");
    let s = painted(code, value);
    let c = code.len() as int;
    let v = value.len() as int;
    assert(s[0] == '\u{1b}' && s[1] == '[');
    assert forall|k: int| 2 <= k < 2 + c implies #[trigger] s[k] != 'm' by {
        assert(s[k] == code[k - 2]);
    }
    assert(s[2 + c] == 'm');
    lemma_seen_code(s, 2, 2 + c);
    assert forall|k: int| 3 + c <= k < 3 + c + v implies #[trigger] s[k] != '\u{1b}' by {
        assert(s[k] == value[k - 3 - c]);
    }
    lemma_seen_middle(s, 3 + c, 3 + c + v);
    let t = 3 + c + v;
    assert(s.len() == t + 4);
    assert(s[t] == '\u{1b}' && s[t + 1] == '[' && s[t + 2] == '0' && s[t + 3] == 'm');
    lemma_seen_code(s, t + 2, t + 3);
    assert(seen_from(s, t + 4, false) == 0);
    assert(seen_from(s, t, false) == 0);
}

/// What a level is called in front of a line.
pub open spec fn level_prefix(level: LogLevel) -> Option<Seq<char>> {
    match level {
        LogLevel::Debug => Some("DEBUG:"@),
        LogLevel::Info => Some("INFO :"@),
        LogLevel::Warn => Some("WARN :"@),
        LogLevel::Error => Some("ERROR:"@),
        LogLevel::Off => None,
    }
}

/// What a level is called in front of a line.
pub fn log_level_prefix(level: LogLevel) -> (r: Option<&'static str>)
    ensures
        opt(r) == level_prefix(level),
{
    match level {
        LogLevel::Debug => Some("DEBUG:"),
        LogLevel::Info => Some("INFO :"),
        LogLevel::Warn => Some("WARN :"),
        LogLevel::Error => Some("ERROR:"),
        LogLevel::Off => None,
    }
}

/// The colour of a level.
pub open spec fn level_colour(level: LogLevel) -> Option<Seq<char>> {
    match level {
        LogLevel::Debug => Some("4;38;5;8"@),
        LogLevel::Info => Some("4;38;2;84;140;38"@),
        LogLevel::Warn => Some("4;38;2;168;144;34"@),
        LogLevel::Error => Some("4;38;5;196"@),
        LogLevel::Off => None,
    }
}

fn colour_of_level(level: LogLevel) -> (r: Option<&'static str>)
    ensures
        opt(r) == level_colour(level),
{
    match level {
        LogLevel::Debug => Some("4;38;5;8"),
        LogLevel::Info => Some("4;38;2;84;140;38"),
        LogLevel::Warn => Some("4;38;2;168;144;34"),
        LogLevel::Error => Some("4;38;5;196"),
        LogLevel::Off => None,
    }
}

/// Where the word of a prefix ends.
pub open spec fn word_end(prefix: Seq<char>) -> int {
    match find(prefix, ":"@) {
        Some(i) => trim_end(take(prefix, i)).len() as int,
        None => prefix.len() as int,
    }
}

/// A prefix with its word in the colour of its level.
pub open spec fn coloured_prefix(level: LogLevel, prefix: Seq<char>, enabled: bool) -> Seq<char> {
    if !enabled || level_colour(level) is None {
        prefix
    } else {
        painted(level_colour(level)->0, take(prefix, word_end(prefix))) + drop(
            prefix,
            word_end(prefix),
        )
    }
}

proof fn lemma_trim_end_short(s: Seq<char>)
    ensures
        trim_end(s).len() <= s.len(),
    decreases s.len(),
{
    if s.len() > 0 && crate::text::is_space(s.last()) {
        lemma_trim_end_short(s.drop_last());
    }
}

/// A prefix with its word in the colour of its level.
pub fn colorize_log_prefix(level: LogLevel, prefix: &str, enabled: bool) -> (r: String)
    ensures
        r@ == coloured_prefix(level, prefix@, enabled),
{
    if !enabled {
        return owned(prefix);
    }
    let code: &str = match colour_of_level(level) {
        Some(c) => c,
        None => {
            return owned(prefix);
        },
    };
    proof {
        reveal_strlit(":");
    }
    let end: usize = match find_text(prefix, ":") {
        Some(i) => {
            let head: &str = slice(prefix, 0, i);
            assert(head@ =~= take(prefix@, i as int));
            proof {
                lemma_trim_end_short(head@);
            }
            trimmed_end(head).unicode_len()
        },
        None => prefix.unicode_len(),
    };
    let word: &str = slice(prefix, 0, end);
    assert(word@ =~= take(prefix@, end as int));
    cat2(paint(code, word).as_str(), slice_from(prefix, end))
}

/// The background of a kind of source.
pub open spec fn coloured_match(value: Seq<char>) -> Seq<char> {
    if value == "HTTP Live MPEG2-TS"@ {
        painted("37;48;5;40"@, value)
    } else if value == "Dynamic Adaptive Streaming over HTTP"@ {
        painted("37;48;5;171"@, value)
    } else if value == "Microsoft Smooth Streaming"@ {
        painted("37;48;5;75"@, value)
    } else if value == "HTTP Live Streaming"@ || value == "Binary Data"@ {
        painted("37;48;5;39"@, value)
    } else {
        value
    }
}

fn colorize_content_match_value(value: &str) -> (r: String)
    ensures
        r@ == coloured_match(value@),
{
    if same(value, "HTTP Live MPEG2-TS") {
        paint("37;48;5;40", value)
    } else if same(value, "Dynamic Adaptive Streaming over HTTP") {
        paint("37;48;5;171", value)
    } else if same(value, "Microsoft Smooth Streaming") {
        paint("37;48;5;75", value)
    } else if same(value, "HTTP Live Streaming") || same(value, "Binary Data") {
        paint("37;48;5;39", value)
    } else {
        owned(value)
    }
}

/// The first part of a list.
pub open spec fn first_of(list: Seq<char>) -> Seq<char> {
    split(list, ","@)[0]
}

/// A line about a track.
pub open spec fn is_track(line: Seq<char>) -> bool {
    match split_once(line, ": "@) {
        None => false,
        Some((_, rest)) => {
            let word = trim(first_of(rest));
            (starts_with(line, "["@) || starts_with(line, "NaN:"@)) && (word == "Audio"@ || word
                == "Video"@ || word == "Subtitle"@ || word == "Unknown"@)
        },
    }
}

fn is_media_info_line(line: &str) -> (r: bool)
    ensures
        r == is_track(line@),
{
    match cut_once(line, ": ") {
        None => false,
        Some((_, rest)) => {
            proof {
                reveal_strlit(",");
                crate::text::lemma_split_not_empty(rest@, ","@);
            }
            let parts: Vec<String> = split_text(rest, ",");
            assert(parts.deep_view()[0] == parts@[0]@);
            let word: &str = trimmed(parts[0].as_str());
            (begins_with(line, "[") || begins_with(line, "NaN:")) && (same(word, "Audio") || same(
                word,
                "Video",
            ) || same(word, "Subtitle") || same(word, "Unknown"))
        },
    }
}

/// A line about a track in its colours.
pub open spec fn coloured_track(line: Seq<char>) -> Seq<char> {
    match (strip_suffix(line, " [HDR]"@), strip_suffix(line, " [DOVI]"@)) {
        (Some(base), _) => painted("38;5;67"@, base) + " "@ + painted("38;5;172"@, "[HDR]"@),
        (None, Some(base)) => painted("38;5;67"@, base) + " "@ + painted("38;5;172"@, "[DOVI]"@),
        (None, None) => painted("38;5;67"@, line),
    }
}

fn colorize_media_info_line(line: &str) -> (r: String)
    ensures
        r@ == coloured_track(line@),
{
    match without_suffix(line, " [HDR]") {
        Some(base) => {
            return cat3(
                paint("38;5;67", base).as_str(),
                " ",
                paint("38;5;172", "[HDR]").as_str(),
            );
        },
        None => {},
    }
    match without_suffix(line, " [DOVI]") {
        Some(base) => {
            return cat3(
                paint("38;5;67", base).as_str(),
                " ",
                paint("38;5;172", "[DOVI]").as_str(),
            );
        },
        None => {},
    }
    paint("38;5;67", line)
}

/// A line that a program for media prints.
pub open spec fn is_tool_line(line: Seq<char>) -> bool {
    let t = trim_start(line);
    ||| starts_with(t, "ffmpeg version"@)
    ||| starts_with(t, "Input #"@)
    ||| starts_with(t, "Output #"@)
    ||| starts_with(t, "Stream #"@)
    ||| starts_with(t, "Stream mapping:"@)
    ||| starts_with(t, "Press [q]"@)
    ||| starts_with(t, "frame="@)
    ||| starts_with(t, "size="@)
    ||| starts_with(t, "video:"@)
    ||| starts_with(t, "audio:"@)
    ||| starts_with(t, "subtitle:"@)
    ||| starts_with(t, "muxing overhead:"@)
    ||| starts_with(t, "["@)
}

fn is_media_tool_stderr_line(line: &str) -> (r: bool)
    ensures
        r == is_tool_line(line@),
{
    let t: &str = trimmed_start(line);
    begins_with(t, "ffmpeg version") || begins_with(t, "Input #") || begins_with(t, "Output #")
        || begins_with(t, "Stream #") || begins_with(t, "Stream mapping:") || begins_with(
        t,
        "Press [q]",
    ) || begins_with(t, "frame=") || begins_with(t, "size=") || begins_with(t, "video:")
        || begins_with(t, "audio:") || begins_with(t, "subtitle:") || begins_with(
        t,
        "muxing overhead:",
    ) || begins_with(t, "[")
}

/// A warning that segments are appended, or that nothing is muxed.
pub open spec fn is_merge_warning(line: Seq<char>) -> bool {
    ||| line == "fMP4 is detected, binary merging is automatically enabled"@
    ||| line == "Dolby Vision content is detected, binary merging is automatically enabled"@
    ||| line
        == "An unrecognized encryption method is detected, binary merging is automatically enabled"@
    ||| line == "When CENC encryption is detected, binary merging is automatically enabled"@
    ||| line == "Live streams are detected, binary merging is automatically enabled"@
    ||| line == "MuxAfterDone is detected, binary merging is automatically enabled"@
    ||| line == "Dolby Vision content is detected, mux after done is automatically disabled"@
}

fn is_auto_binary_merge_warning(line: &str) -> (r: bool)
    ensures
        r == is_merge_warning(line@),
{
    same(line, "fMP4 is detected, binary merging is automatically enabled") || same(
        line,
        "Dolby Vision content is detected, binary merging is automatically enabled",
    ) || same(
        line,
        "An unrecognized encryption method is detected, binary merging is automatically enabled",
    ) || same(
        line,
        "When CENC encryption is detected, binary merging is automatically enabled",
    ) || same(line, "Live streams are detected, binary merging is automatically enabled") || same(
        line,
        "MuxAfterDone is detected, binary merging is automatically enabled",
    ) || same(line, "Dolby Vision content is detected, mux after done is automatically disabled")
}

/// A warning about the source or what is made of it.
pub open spec fn is_source_warning(line: Seq<char>) -> bool {
    ||| line
        == "Please note that custom range may sometimes result in audio and video being out of sync"@
    ||| line == "The entire file has been cut into small segments to accelerate"@
    ||| line == "Real-time decryption has been disabled"@
    ||| line
        == "When enabling real-time decryption, it is recommended to use shaka-packager instead of mp4decrypt/ffmpeg"@
    ||| line
        == "Multiple #EXT-X-MAP tags are now allowed for detection. However, this software may not handle them correctly. Please manually verify the content's integrity"@
    ||| line == "Live stream found"@
    ||| line == "Live recording limit reached, will stop recording soon"@
    ||| line == "LivePipeMux detected, forced enable LiveRealTimeMerge"@
    ||| starts_with(line, "Live recording duration limit: "@)
}

fn is_source_warning_line(line: &str) -> (r: bool)
    ensures
        r == is_source_warning(line@),
{
    same(
        line,
        "Please note that custom range may sometimes result in audio and video being out of sync",
    ) || same(line, "The entire file has been cut into small segments to accelerate") || same(
        line,
        "Real-time decryption has been disabled",
    ) || same(
        line,
        "When enabling real-time decryption, it is recommended to use shaka-packager instead of mp4decrypt/ffmpeg",
    ) || same(
        line,
        "Multiple #EXT-X-MAP tags are now allowed for detection. However, this software may not handle them correctly. Please manually verify the content's integrity",
    ) || same(line, "Live stream found") || same(
        line,
        "Live recording limit reached, will stop recording soon",
    ) || same(line, "LivePipeMux detected, forced enable LiveRealTimeMerge") || begins_with(
        line,
        "Live recording duration limit: ",
    )
}

/// Decimal digits, or nothing.
pub open spec fn only_digits(s: Seq<char>) -> bool {
    forall|i: int| 0 <= i < s.len() ==> is_digit(#[trigger] s[i])
}

fn has_only_digits(s: &str) -> (r: bool)
    ensures
        r == only_digits(s@),
{
    let n: usize = s.unicode_len();
    let mut i: usize = 0;
    while i < n
        invariant
            i <= n,
            n == s@.len(),
            forall|k: int| 0 <= k < i ==> is_digit(#[trigger] s@[k]),
        decreases n - i,
    {
        let c: char = s.get_char(i);
        if !('0' <= c && c <= '9') {
            assert(!is_digit(s@[i as int]));
            return false;
        }
        i = i + 1;
    }
    true
}

/// A line that ends with how often something was tried and may be: ` (1/10)`.
pub open spec fn is_retry_line(line: Seq<char>) -> bool {
    match rsplit_once(line, " ("@) {
        None => false,
        Some((left, right)) => left.len() > 0 && match strip_suffix(right, ")"@) {
            None => false,
            Some(counter) => match split_once(counter, "/"@) {
                None => false,
                Some((attempt, most)) => attempt.len() > 0 && most.len() > 0 && only_digits(attempt)
                    && only_digits(most),
            },
        },
    }
}

fn is_retry_warning_line(line: &str) -> (r: bool)
    ensures
        r == is_retry_line(line@),
{
    match rcut_once(line, " (") {
        None => false,
        Some((left, right)) => {
            if left.unicode_len() == 0 {
                return false;
            }
            match without_suffix(right, ")") {
                None => false,
                Some(counter) => match cut_once(counter, "/") {
                    None => false,
                    Some((attempt, most)) => attempt.unicode_len() > 0 && most.unicode_len() > 0
                        && has_only_digits(attempt) && has_only_digits(most),
                },
            }
        },
    }
}

/// A line about how many segments are left: `10 segments => 8 segments`.
pub open spec fn is_count_line(line: Seq<char>) -> bool {
    match split_once(line, " segments => "@) {
        None => false,
        Some((left, right)) => only_digits(left) && match strip_suffix(right, " segments"@) {
            None => false,
            Some(value) => only_digits(value),
        },
    }
}

fn is_ad_cleanup_count_line(line: &str) -> (r: bool)
    ensures
        r == is_count_line(line@),
{
    match cut_once(line, " segments => ") {
        None => false,
        Some((left, right)) => has_only_digits(left) && match without_suffix(right, " segments") {
            None => false,
            Some(value) => has_only_digits(value),
        },
    }
}

/// The endings of files that are muxed.
pub open spec fn is_media_ending(e: Seq<char>) -> bool {
    ||| e == "mp4"@
    ||| e == "m4a"@
    ||| e == "m4v"@
    ||| e == "mkv"@
    ||| e == "ts"@
    ||| e == "aac"@
    ||| e == "ac3"@
    ||| e == "eac3"@
    ||| e == "srt"@
    ||| e == "vtt"@
    ||| e == "ass"@
    ||| e == "ssa"@
    ||| e == "h264"@
    ||| e == "h265"@
    ||| e == "hevc"@
}

fn media_ending(e: &str) -> (r: bool)
    ensures
        r == is_media_ending(e@),
{
    same(e, "mp4") || same(e, "m4a") || same(e, "m4v") || same(e, "mkv") || same(e, "ts") || same(
        e,
        "aac",
    ) || same(e, "ac3") || same(e, "eac3") || same(e, "srt") || same(e, "vtt") || same(e, "ass")
        || same(e, "ssa") || same(e, "h264") || same(e, "h265") || same(e, "hevc")
}

/// A line that is the bare name of a file that is muxed.
pub open spec fn is_mux_input(line: Seq<char>) -> bool {
    !contains(line, " "@) && !contains(line, ":"@) && !contains(line, "/"@) && !contains(
        line,
        "\\"@,
    ) && match rsplit_once(line, "."@) {
        None => false,
        Some((_, e)) => is_media_ending(lower(e)),
    }
}

fn looks_like_mux_input_file(line: &str) -> (r: bool)
    ensures
        r == is_mux_input(line@),
{
    if has_text(line, " ") || has_text(line, ":") || has_text(line, "/") || has_text(line, "\\") {
        return false;
    }
    match rcut_once(line, ".") {
        None => false,
        Some((_, e)) => {
            let small: String = lowered(e);
            media_ending(small.as_str())
        },
    }
}

/// A character that stands in the name of an encryption.
pub open spec fn is_method_char(c: char) -> bool {
    ('A' <= c && c <= 'Z') || ('0' <= c && c <= '9') || c == '_' || c == ',' || c == '-'
}

/// Where a run of such characters ends.
pub open spec fn method_end(s: Seq<char>, i: int) -> int
    decreases s.len() - i,
{
    if i < 0 || i >= s.len() || !is_method_char(s[i]) {
        i
    } else {
        method_end(s, i + 1)
    }
}

pub proof fn lemma_method_end(s: Seq<char>, i: int)
    requires
        0 <= i <= s.len(),
    ensures
        i <= method_end(s, i) <= s.len(),
    decreases s.len() - i,
{
    if i < s.len() && is_method_char(s[i]) {
        lemma_method_end(s, i + 1);
    }
}

/// A text with the names of encryptions, which stand behind an asterisk, in their colour, from
/// position `i` on.
pub open spec fn coloured_methods(s: Seq<char>, i: int) -> Seq<char>
    decreases s.len() - i,
    via coloured_methods_decreases
{
    if i < 0 || i >= s.len() {
        Seq::empty()
    } else if s[i] == '*' && method_end(s, i + 1) > i + 1 {
        painted("38;5;9"@, s.subrange(i, method_end(s, i + 1))) + coloured_methods(
            s,
            method_end(s, i + 1),
        )
    } else {
        seq![s[i]] + coloured_methods(s, i + 1)
    }
}

#[via_fn]
proof fn coloured_methods_decreases(s: Seq<char>, i: int) {
    if 0 <= i < s.len() {
        lemma_method_end(s, i + 1);
    }
}

pub(crate) fn find_method_end(v: &Vec<char>, i: usize) -> (r: usize)
    requires
        i <= v@.len(),
    ensures
        r == method_end(v@, i as int),
        i <= r <= v@.len(),
{
    let mut k: usize = i;
    while k < v.len() && (('A' <= v[k] && v[k] <= 'Z') || ('0' <= v[k] && v[k] <= '9') || v[k] == '_'
        || v[k] == ',' || v[k] == '-')
        invariant
            i <= k <= v@.len(),
            method_end(v@, i as int) == method_end(v@, k as int),
        decreases v@.len() - k,
    {
        k = k + 1;
    }
    k
}

/// A text with the names of encryptions in their colour.
pub fn colorize_encryption_tokens(line: &str) -> (r: String)
    ensures
        r@ == coloured_methods(line@, 0),
{
    let v: Vec<char> = crate::text::to_chars(line);
    let mut out: String = String::new();
    let mut i: usize = 0;
    assert(out@ + coloured_methods(line@, 0) =~= coloured_methods(line@, 0));
    while i < v.len()
        invariant
            i <= v@.len(),
            v@ == line@,
            out@ + coloured_methods(line@, i as int) == coloured_methods(line@, 0),
        decreases v@.len() - i,
    {
        let ghost before = out@;
        if v[i] == '*' {
            let end: usize = find_method_end(&v, i + 1);
            if end > i + 1 {
                let token: &str = slice(line, i, end);
                assert(token@ =~= line@.subrange(i as int, end as int));
                let coloured: String = paint("38;5;9", token);
                out.append(coloured.as_str());
                assert(out@ + coloured_methods(line@, end as int) =~= before + (coloured@
                    + coloured_methods(line@, end as int)));
                i = end;
                continue ;
            }
        }
        out.push(v[i]);
        assert(out@ + coloured_methods(line@, i + 1) =~= before + (seq![line@[i as int]]
            + coloured_methods(line@, i + 1)));
        i = i + 1;
    }
    assert(out@ =~= coloured_methods(line@, 0));
    out
}

/// A kind of stream in front of a label, in its colour, where it stands there.
pub open spec fn coloured_kind(line: Seq<char>, kind: Seq<char>, code: Seq<char>) -> Option<Seq<char>> {
    if line == kind {
        Some(painted(code, kind))
    } else {
        match strip_prefix(line, kind) {
            Some(rest) => if starts_with(rest, " "@) {
                Some(painted(code, kind) + coloured_methods(rest, 0))
            } else {
                None
            },
            None => None,
        }
    }
}

/// The label of a stream in its colours.
pub open spec fn coloured_label(line: Seq<char>) -> Seq<char> {
    if coloured_kind(line, "Vid"@, "96"@) is Some {
        coloured_kind(line, "Vid"@, "96"@)->0
    } else if coloured_kind(line, "Aud"@, "38;5;32"@) is Some {
        coloured_kind(line, "Aud"@, "38;5;32"@)->0
    } else if coloured_kind(line, "Sub"@, "38;5;45"@) is Some {
        coloured_kind(line, "Sub"@, "38;5;45"@)->0
    } else {
        coloured_methods(line, 0)
    }
}

/// A text that may tell what is downloaded, with the label of the stream in its colours.
pub open spec fn coloured_text(line: Seq<char>) -> Seq<char>
    decreases line.len(),
{
    match strip_prefix(line, "Start downloading..."@) {
        Some(rest) => if rest.len() < line.len() {
            "Start downloading..."@ + coloured_text(rest)
        } else {
            line
        },
        None => coloured_label(line),
    }
}

fn colorize_kind(line: &str, kind: &str, code: &str) -> (r: Option<String>)
    ensures
        r.deep_view() == coloured_kind(line@, kind@, code@),
{
    if same(line, kind) {
        return Some(paint(code, kind));
    }
    match without_prefix(line, kind) {
        Some(rest) => {
            if begins_with(rest, " ") {
                let head: String = paint(code, kind);
                let tail: String = colorize_encryption_tokens(rest);
                return Some(cat2(head.as_str(), tail.as_str()));
            }
            None
        },
        None => None,
    }
}

/// A text that may tell what is downloaded, with the label of the stream in its colours.
pub fn colorize_stream_label_text(line: &str) -> (r: String)
    ensures
        r@ == coloured_text(line@),
    decreases line@.len(),
{
    proof {
        reveal_strlit("Start downloading...");
    }
    match without_prefix(line, "Start downloading...") {
        Some(rest) => {
            assert(rest@.len() < line@.len());
            let tail: String = colorize_stream_label_text(rest);
            return cat2("Start downloading...", tail.as_str());
        },
        None => {},
    }
    match colorize_kind(line, "Vid", "96") {
        Some(t) => {
            return t;
        },
        None => {},
    }
    match colorize_kind(line, "Aud", "38;5;32") {
        Some(t) => {
            return t;
        },
        None => {},
    }
    match colorize_kind(line, "Sub", "38;5;45") {
        Some(t) => {
            return t;
        },
        None => {},
    }
    colorize_encryption_tokens(line)
}

/// A line whose value, behind a beginning, has a colour.
pub open spec fn coloured_value(line: Seq<char>, head: Seq<char>, code: Seq<char>) -> Option<Seq<char>> {
    match strip_prefix(line, head) {
        Some(value) => Some(head + painted(code, value)),
        None => None,
    }
}

fn colorize_value(line: &str, head: &str, code: &str) -> (r: Option<String>)
    ensures
        r.deep_view() == coloured_value(line@, head@, code@),
{
    match without_prefix(line, head) {
        Some(value) => Some(cat2(head, paint(code, value).as_str())),
        None => None,
    }
}

/// A line that is known whole, in its colour.
pub open spec fn coloured_whole(line: Seq<char>) -> Option<Seq<char>> {
    if line == "Done"@ {
        Some(painted("37;42"@, line))
    } else if line == "Failed"@ {
        Some(painted("37;41"@, line))
    } else if line == "Force Exit..."@ {
        Some(painted("38;5;172"@, line))
    } else {
        None
    }
}

/// A line with a value that is known by its beginning, in its colours.
pub open spec fn coloured_setting(line: Seq<char>) -> Option<Seq<char>> {
    if coloured_value(line, "User customed range: "@, "4;36"@) is Some {
        coloured_value(line, "User customed range: "@, "4;36"@)
    } else if coloured_value(line, "User customed Ad keyword: "@, "4;36"@) is Some {
        coloured_value(line, "User customed Ad keyword: "@, "4;36"@)
    } else if strip_prefix(line, "OK "@) is Some {
        Some(painted("32"@, "OK"@) + " "@ + painted("90"@, strip_prefix(line, "OK "@)->0))
    } else if coloured_value(line, "Save Name: "@, "38;5;39"@) is Some {
        coloured_value(line, "Save Name: "@, "38;5;39"@)
    } else if strip_prefix(line, "Content Matched: "@) is Some {
        Some("Content Matched: "@ + coloured_match(strip_prefix(line, "Content Matched: "@)->0))
    } else if strip_prefix(line, "New version detected! "@) is Some {
        Some(
            painted("96"@, "New version detected!"@) + " "@ + painted(
                "38;5;9"@,
                strip_prefix(line, "New version detected! "@)->0,
            ),
        )
    } else {
        None
    }
}

/// A line about a source or a live recording, in its colours.
pub open spec fn coloured_source(line: Seq<char>) -> Option<Seq<char>> {
    if starts_with(line, "Decrypting using "@) && ends_with(line, "..."@) {
        Some(painted("90"@, line))
    } else if line == "Namespace missing, try fix..."@ {
        Some(painted("90"@, line))
    } else if line == "Live stream found"@ {
        Some(painted("37;48;5;172"@, line))
    } else if coloured_value(line, "Named pipe created: "@, "96"@) is Some {
        coloured_value(line, "Named pipe created: "@, "96"@)
    } else if coloured_value(line, "Program Id: "@, "96"@) is Some {
        coloured_value(line, "Program Id: "@, "96"@)
    } else if coloured_value(line, "Service Name: "@, "96"@) is Some {
        coloured_value(line, "Service Name: "@, "96"@)
    } else if coloured_value(line, "Service Provider: "@, "96"@) is Some {
        coloured_value(line, "Service Provider: "@, "96"@)
    } else if is_track(line) {
        Some(coloured_track(line))
    } else {
        None
    }
}

/// A warning in its colour.
pub open spec fn coloured_warning(line: Seq<char>) -> Option<Seq<char>> {
    if starts_with(line, "Type:"@) || starts_with(line, "PSSH("@) || starts_with(line, "KID:"@)
        || is_retry_line(line) {
        Some(painted("90"@, line))
    } else if strip_suffix(line, " not supported! Skiped."@) is Some {
        Some(
            painted("32"@, strip_suffix(line, " not supported! Skiped."@)->0)
                + " not supported! Skiped."@,
        )
    } else if is_merge_warning(line) || is_source_warning(line) {
        Some(painted("38;5;172"@, line))
    } else if is_count_line(line) || is_tool_line(line) {
        Some(painted("90"@, line))
    } else {
        None
    }
}

/// A line of a log in its colours.
pub open spec fn coloured_message(level: LogLevel, line: Seq<char>, enabled: bool) -> Seq<char> {
    if !enabled {
        line
    } else if coloured_whole(line) is Some {
        coloured_whole(line)->0
    } else if coloured_setting(line) is Some {
        coloured_setting(line)->0
    } else if coloured_source(line) is Some {
        coloured_source(line)->0
    } else if level == LogLevel::Warn && coloured_warning(line) is Some {
        coloured_warning(line)->0
    } else {
        coloured_text(line)
    }
}

fn colorize_whole(line: &str) -> (r: Option<String>)
    ensures
        r.deep_view() == coloured_whole(line@),
{
    if same(line, "Done") {
        Some(paint("37;42", line))
    } else if same(line, "Failed") {
        Some(paint("37;41", line))
    } else if same(line, "Force Exit...") {
        Some(paint("38;5;172", line))
    } else {
        None
    }
}

fn colorize_setting(line: &str) -> (r: Option<String>)
    ensures
        r.deep_view() == coloured_setting(line@),
{
    let range: Option<String> = colorize_value(line, "User customed range: ", "4;36");
    if range.is_some() {
        return range;
    }
    let keyword: Option<String> = colorize_value(line, "User customed Ad keyword: ", "4;36");
    if keyword.is_some() {
        return keyword;
    }
    match without_prefix(line, "OK ") {
        Some(value) => {
            return Some(cat3(paint("32", "OK").as_str(), " ", paint("90", value).as_str()));
        },
        None => {},
    }
    let name: Option<String> = colorize_value(line, "Save Name: ", "38;5;39");
    if name.is_some() {
        return name;
    }
    match without_prefix(line, "Content Matched: ") {
        Some(value) => {
            let coloured: String = colorize_content_match_value(value);
            return Some(cat2("Content Matched: ", coloured.as_str()));
        },
        None => {},
    }
    match without_prefix(line, "New version detected! ") {
        Some(value) => Some(
            cat3(
                paint("96", "New version detected!").as_str(),
                " ",
                paint("38;5;9", value).as_str(),
            ),
        ),
        None => None,
    }
}

fn colorize_source(line: &str) -> (r: Option<String>)
    ensures
        r.deep_view() == coloured_source(line@),
{
    if begins_with(line, "Decrypting using ") && finishes_with(line, "...") {
        return Some(paint("90", line));
    }
    if same(line, "Namespace missing, try fix...") {
        return Some(paint("90", line));
    }
    if same(line, "Live stream found") {
        return Some(paint("37;48;5;172", line));
    }
    let pipe: Option<String> = colorize_value(line, "Named pipe created: ", "96");
    if pipe.is_some() {
        return pipe;
    }
    let program: Option<String> = colorize_value(line, "Program Id: ", "96");
    if program.is_some() {
        return program;
    }
    let service: Option<String> = colorize_value(line, "Service Name: ", "96");
    if service.is_some() {
        return service;
    }
    let provider: Option<String> = colorize_value(line, "Service Provider: ", "96");
    if provider.is_some() {
        return provider;
    }
    if is_media_info_line(line) {
        return Some(colorize_media_info_line(line));
    }
    None
}

fn colorize_warning(line: &str) -> (r: Option<String>)
    ensures
        r.deep_view() == coloured_warning(line@),
{
    if begins_with(line, "Type:") || begins_with(line, "PSSH(") || begins_with(line, "KID:")
        || is_retry_warning_line(line) {
        return Some(paint("90", line));
    }
    match without_suffix(line, " not supported! Skiped.") {
        Some(four_cc) => {
            return Some(cat2(paint("32", four_cc).as_str(), " not supported! Skiped."));
        },
        None => {},
    }
    if is_auto_binary_merge_warning(line) || is_source_warning_line(line) {
        return Some(paint("38;5;172", line));
    }
    if is_ad_cleanup_count_line(line) || is_media_tool_stderr_line(line) {
        return Some(paint("90", line));
    }
    None
}

/// A line of a log in its colours.
pub fn colorize_log_message(level: LogLevel, line: &str, enabled: bool) -> (r: String)
    ensures
        r@ == coloured_message(level, line@, enabled),
{
    if !enabled {
        return owned(line);
    }
    match colorize_whole(line) {
        Some(t) => {
            return t;
        },
        None => {},
    }
    match colorize_setting(line) {
        Some(t) => {
            return t;
        },
        None => {},
    }
    match colorize_source(line) {
        Some(t) => {
            return t;
        },
        None => {},
    }
    if level == LogLevel::Warn {
        match colorize_warning(line) {
            Some(t) => {
                return t;
            },
            None => {},
        }
    }
    colorize_stream_label_text(line)
}

/// A line about muxing in its colours.
pub open spec fn coloured_mux(line: Seq<char>, enabled: bool) -> Seq<char> {
    if !enabled {
        line
    } else if line == "Cleaning files..."@ {
        painted("90"@, line)
    } else if coloured_value(line, "Muxing to "@, "90"@) is Some {
        coloured_value(line, "Muxing to "@, "90"@)->0
    } else if coloured_value(line, "Rename to "@, "90"@) is Some {
        coloured_value(line, "Rename to "@, "90"@)->0
    } else if coloured_value(line, "Mux with named pipe, to "@, "38;5;39"@) is Some {
        coloured_value(line, "Mux with named pipe, to "@, "38;5;39"@)->0
    } else if starts_with(line, "-y -fflags "@) {
        painted("38;5;39"@, line)
    } else if is_mux_input(line) {
        painted("90"@, line)
    } else {
        coloured_message(LogLevel::Warn, line, true)
    }
}

/// A line about muxing in its colours.
pub fn colorize_mux_message(line: &str, enabled: bool) -> (r: String)
    ensures
        r@ == coloured_mux(line@, enabled),
{
    if !enabled {
        return owned(line);
    }
    if same(line, "Cleaning files...") {
        return paint("90", line);
    }
    match colorize_value(line, "Muxing to ", "90") {
        Some(t) => {
            return t;
        },
        None => {},
    }
    match colorize_value(line, "Rename to ", "90") {
        Some(t) => {
            return t;
        },
        None => {},
    }
    match colorize_value(line, "Mux with named pipe, to ", "38;5;39") {
        Some(t) => {
            return t;
        },
        None => {},
    }
    if begins_with(line, "-y -fflags ") {
        return paint("38;5;39", line);
    }
    if looks_like_mux_input_file(line) {
        return paint("90", line);
    }
    colorize_log_message(LogLevel::Warn, line, true)
}

/// The level of a message about decrypting.
pub open spec fn decrypt_level(message: Seq<char>) -> LogLevel {
    let t = trim_start(message);
    if starts_with(t, "Type:"@) || starts_with(t, "PSSH("@) || starts_with(t, "KID:"@) {
        LogLevel::Warn
    } else {
        LogLevel::Info
    }
}

/// The level of a message about decrypting.
pub fn decrypt_progress_level(message: &str) -> (r: LogLevel)
    ensures
        r == decrypt_level(message@),
{
    let t: &str = trimmed_start(message);
    if begins_with(t, "Type:") || begins_with(t, "PSSH(") || begins_with(t, "KID:") {
        LogLevel::Warn
    } else {
        LogLevel::Info
    }
}

/// A message for those who look for faults that is not shown on the terminal.
pub open spec fn is_noise(message: Seq<char>) -> bool {
    let t = trim_start(message);
    ||| starts_with(t, "Log file:"@)
    ||| starts_with(t, "Update check started"@)
    ||| starts_with(t, "ffmpeg =>"@)
    ||| starts_with(t, "mkvmerge =>"@)
    ||| starts_with(t, "mp4forge =>"@)
    ||| starts_with(t, "mp4decrypt =>"@)
    ||| starts_with(t, "shaka-packager =>"@)
    ||| starts_with(t, "User-Defined Header =>"@)
    ||| starts_with(t, "#EXTM3U"@)
    ||| starts_with(t, "<MPD"@)
    ||| starts_with(t, "<SmoothStreamingMedia"@)
    ||| starts_with(t, "DropVideoFilter =>"@)
    ||| starts_with(t, "DropAudioFilter =>"@)
    ||| starts_with(t, "DropSubtitleFilter =>"@)
    ||| starts_with(t, "VideoFilter =>"@)
    ||| starts_with(t, "AudioFilter =>"@)
    ||| starts_with(t, "SubtitleFilter =>"@)
    ||| starts_with(t, "Output:"@)
    ||| starts_with(t, "Cleaning "@)
    ||| contains(t, ": queued segment "@)
    ||| contains(t, ": downloading segment "@)
    ||| contains(t, ": finished segment "@)
}

/// Whether a message is not shown on the terminal.
pub fn is_extra_debug_noise(message: &str) -> (r: bool)
    ensures
        r == is_noise(message@),
{
    let t: &str = trimmed_start(message);
    begins_with(t, "Log file:") || begins_with(t, "Update check started") || begins_with(
        t,
        "ffmpeg =>",
    ) || begins_with(t, "mkvmerge =>") || begins_with(t, "mp4forge =>") || begins_with(
        t,
        "mp4decrypt =>",
    ) || begins_with(t, "shaka-packager =>") || begins_with(t, "User-Defined Header =>")
        || begins_with(t, "#EXTM3U") || begins_with(t, "<MPD") || begins_with(
        t,
        "<SmoothStreamingMedia",
    ) || begins_with(t, "DropVideoFilter =>") || begins_with(t, "DropAudioFilter =>")
        || begins_with(t, "DropSubtitleFilter =>") || begins_with(t, "VideoFilter =>")
        || begins_with(t, "AudioFilter =>") || begins_with(t, "SubtitleFilter =>") || begins_with(
        t,
        "Output:",
    ) || begins_with(t, "Cleaning ") || has_text(t, ": queued segment ") || has_text(
        t,
        ": downloading segment ",
    ) || has_text(t, ": finished segment ")
}

} // verus!
