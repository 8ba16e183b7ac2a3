//! What ffmpeg prints about a file.

use crate::error::{Error, ErrorView, Result};
use crate::mux::{no_media_info, MediaInfo, MediaInfoView};
use crate::outside::{regex_error, regex_error_of};
use crate::pattern::{regex_rows, regex_scan, view_rows};
use crate::text::{
    contains, cut_once, has_text, is_digit, join, join_texts, lines, lines_text, owned,
    parse_i64_text, parse_within, same, split_once, to_chars, trim, trim_end, trimmed, trimmed_end,
};
use vstd::prelude::*;

verus! {

/// The parts of a label that are there.
pub open spec fn label_parts(fields: Seq<Option<Seq<char>>>, n: int) -> Seq<Seq<char>>
    decreases n,
{
    if n <= 0 {
        Seq::empty()
    } else {
        match fields[n - 1] {
            Some(t) => if t.len() > 0 {
                label_parts(fields, n - 1).push(t)
            } else {
                label_parts(fields, n - 1)
            },
            None => label_parts(fields, n - 1),
        }
    }
}

/// One line about a track.
pub open spec fn track_label(i: MediaInfoView) -> Seq<char> {
    let fields = seq![i.media_type, i.base_info, i.resolution, i.fps, i.bitrate];
    let id = match i.id {
        Some(t) => t,
        None => "NaN"@,
    };
    let plain = id + ": "@ + join(label_parts(fields, 5), ", "@);
    if i.dolby_vision {
        plain + " [DOVI]"@
    } else if i.hdr {
        plain + " [HDR]"@
    } else {
        plain
    }
}

fn push_part(parts: &mut Vec<String>, value: &Option<String>, fields: Ghost<Seq<Option<Seq<char>>>>, n: Ghost<int>)
    requires
        0 <= n@ < fields@.len(),
        fields@[n@] == value.deep_view(),
        old(parts).deep_view() == label_parts(fields@, n@),
    ensures
        final(parts).deep_view() == label_parts(fields@, n@ + 1),
{
    match value {
        Some(t) => {
            if t.as_str().unicode_len() > 0 {
                let ghost before = parts.deep_view();
                parts.push(t.clone());
                assert(parts.deep_view() =~= before.push(t@));
            }
        },
        None => {},
    }
}

/// One line about a track.
pub fn media_info_console_label(info: &MediaInfo) -> (r: String)
    ensures
        r@ == track_label(info.deep_view()),
{
    let ghost i = info.deep_view();
    let ghost fields = seq![i.media_type, i.base_info, i.resolution, i.fps, i.bitrate];
    let mut parts: Vec<String> = Vec::new();
    assert(parts.deep_view() =~= Seq::<Seq<char>>::empty());
    push_part(&mut parts, &info.media_type, Ghost(fields), Ghost(0));
    push_part(&mut parts, &info.base_info, Ghost(fields), Ghost(1));
    push_part(&mut parts, &info.resolution, Ghost(fields), Ghost(2));
    push_part(&mut parts, &info.fps, Ghost(fields), Ghost(3));
    push_part(&mut parts, &info.bitrate, Ghost(fields), Ghost(4));
    let mut out: String = match &info.id {
        Some(t) => t.clone(),
        None => owned("NaN"),
    };
    out.append(": ");
    out.append(join_texts(&parts, ", ").as_str());
    if info.dolby_vision {
        out.append(" [DOVI]");
    } else if info.hdr {
        out.append(" [HDR]");
    }
    out
}

/// The milliseconds of a decimal number of seconds: at most three digits behind the point count, up
/// to the first that is none.
pub open spec fn fraction_millis(digits: Seq<char>, i: int) -> int
    decreases 3 - i,
{
    if i < 0 || i >= 3 || i >= digits.len() || !is_digit(digits[i]) {
        0
    } else {
        (digits[i] as u32 - 48) * (if i == 0 {
            100int
        } else if i == 1 {
            10
        } else {
            1
        }) + fraction_millis(digits, i + 1)
    }
}

/// The milliseconds of a decimal number of seconds, where they fit in 64 bits.
pub open spec fn seconds_millis(value: Seq<char>) -> Option<int> {
    let (whole, fraction) = match split_once(value, "."@) {
        Some(p) => p,
        None => (value, Seq::empty()),
    };
    match parse_within(trim(whole), i64::MIN as int, i64::MAX as int) {
        Some(n) => if i64::MIN <= n * 1000 <= i64::MAX && n * 1000 + fraction_millis(fraction, 0)
            <= i64::MAX {
            Some(n * 1000 + fraction_millis(fraction, 0))
        } else {
            None
        },
        None => None,
    }
}

fn read_fraction(digits: &Vec<char>, i: usize) -> (r: i64)
    requires
        i <= 3,
    ensures
        r == fraction_millis(digits@, i as int),
        0 <= r < (if i == 0 {
            1000int
        } else if i == 1 {
            100
        } else if i == 2 {
            10
        } else {
            1
        }),
    decreases 3 - i,
{
    if i >= 3 || i >= digits.len() {
        return 0;
    }
    let c: char = digits[i];
    if !('0' <= c && c <= '9') {
        return 0;
    }
    let scale: i64 = if i == 0 {
        100
    } else if i == 1 {
        10
    } else {
        1
    };
    let digit: i64 = (c as u32 - 48) as i64;
    digit * scale + read_fraction(digits, i + 1)
}

/// The milliseconds of a decimal number of seconds, where they fit in 64 bits.
pub fn parse_seconds_to_millis(value: &str) -> (r: Option<i64>)
    ensures
        match r {
            Some(n) => seconds_millis(value@) == Some(n as int),
            None => seconds_millis(value@) is None,
        },
{
    let (whole, fraction): (&str, &str) = match cut_once(value, ".") {
        Some((a, b)) => (a, b),
        None => (value, ""),
    };
    proof {
        reveal_strlit("");
        assert(""@ =~= Seq::<char>::empty());
    }
    let digits: Vec<char> = to_chars(fraction);
    let more: i64 = read_fraction(&digits, 0);
    match parse_i64_text(trimmed(whole)) {
        Some(n) => {
            if n > 9_223_372_036_854_775 || n < -9_223_372_036_854_775 {
                return None;
            }
            let millis: i64 = n * 1000;
            if millis > i64::MAX - more {
                return None;
            }
            Some(millis + more)
        },
        None => None,
    }
}

/// The expressions that pick the output apart, in the order in which they are made.
pub open spec fn patterns() -> Seq<Seq<char>> {
    seq![
        "^  Stream #.*"@,
        "#0:\\d(\\[0x\\w+?\\])"@,
        ": (\\w+): (.*)"@,
        "(.*?)(,|$)"@,
        " / 0x\\w+"@,
        "\\d{2,}x\\d+"@,
        "\\d+ kb/s"@,
        "(\\d+(\\.\\d+)?) fps"@,
        "DOVI configuration record.*profile: (\\d).*compatibility id: (\\d)"@,
        "Duration.*?start: (\\d+\\.?\\d{0,3})"@,
    ]
}

/// What is wrong with the first of the expressions that is none, from position `i` on.
pub open spec fn pattern_error(i: int) -> Option<Seq<char>>
    decreases 10 - i,
{
    if i < 0 || i >= 10 {
        None
    } else if regex_error_of(patterns()[i]) is Some {
        regex_error_of(patterns()[i])
    } else {
        pattern_error(i + 1)
    }
}

/// The first match of an expression, with the text before it and the groups behind it.
pub open spec fn first_match(pattern: Seq<char>, text: Seq<char>) -> Option<Seq<Seq<char>>> {
    match regex_rows(pattern, text) {
        Some(rows) => if rows.len() > 1 {
            Some(rows[0])
        } else {
            None
        },
        None => None,
    }
}

/// Group `k` of the first match of an expression; the match itself is group 0.
pub open spec fn group(pattern: Seq<char>, text: Seq<char>, k: int) -> Option<Seq<char>> {
    match first_match(pattern, text) {
        Some(row) => if 0 <= k && k + 1 < row.len() {
            Some(row[k + 1])
        } else {
            None
        },
        None => None,
    }
}

/// The texts before the first `n` matches and behind the last.
pub open spec fn between(rows: Seq<Seq<Seq<char>>>, n: int) -> Seq<char>
    decreases n,
{
    if n <= 0 {
        Seq::empty()
    } else if rows[n - 1].len() > 0 {
        between(rows, n - 1) + rows[n - 1][0]
    } else {
        between(rows, n - 1)
    }
}

/// A text without the matches of an expression.
pub open spec fn without_matches(pattern: Seq<char>, text: Seq<char>) -> Seq<char> {
    match regex_rows(pattern, text) {
        Some(rows) => between(rows, rows.len() as int),
        None => text,
    }
}

fn find_group(pattern: &str, text: &str, k: usize) -> (r: Option<String>)
    requires
        k <= 9,
    ensures
        r.deep_view() == group(pattern@, text@, k as int),
{
    match regex_scan(pattern, text) {
        Some(rows) => {
            if rows.len() > 1 {
                assert(view_rows(rows)[0] == rows@[0].deep_view());
                if k + 1 < rows[0].len() {
                    assert(rows@[0].deep_view()[k + 1] == rows@[0]@[k + 1]@);
                    return Some(rows[0][k + 1].clone());
                }
            }
            None
        },
        None => None,
    }
}

fn remove_matches(pattern: &str, text: &str) -> (r: String)
    ensures
        r@ == without_matches(pattern@, text@),
{
    match regex_scan(pattern, text) {
        Some(rows) => {
            let ghost all = view_rows(rows);
            let mut out: String = String::new();
            let mut i: usize = 0;
            while i < rows.len()
                invariant
                    i <= rows@.len(),
                    all == view_rows(rows),
                    out@ == between(all, i as int),
                decreases rows@.len() - i,
            {
                assert(all[i as int] == rows@[i as int].deep_view());
                if rows[i].len() > 0 {
                    assert(all[i as int][0] == rows@[i as int]@[0]@);
                    out.append(rows[i][0].as_str());
                }
                i = i + 1;
            }
            out
        },
        None => owned(text),
    }
}

/// Whether a line speaks of a track.
pub open spec fn is_track_line(line: Seq<char>) -> bool {
    first_match("^  Stream #.*"@, line) is Some
}

fn speaks_of_track(line: &str) -> (r: bool)
    ensures
        r == is_track_line(line@),
{
    match regex_scan("^  Stream #.*", line) {
        Some(rows) => rows.len() > 1,
        None => false,
    }
}

/// Whether the output describes Dolby Vision.
pub open spec fn tells_dolby_vision(output: Seq<char>) -> bool {
    first_match(
        "DOVI configuration record.*profile: (\\d).*compatibility id: (\\d)"@,
        output,
    ) is Some
}

/// What a line says of a track behind its kind.
pub open spec fn track_text(line: Seq<char>) -> Option<Seq<char>> {
    match group(": (\\w+): (.*)"@, line, 2) {
        Some(t) => Some(trim_end(t)),
        None => None,
    }
}

/// A group of the first match in a text, where there is a text.
pub open spec fn group_in(pattern: Seq<char>, text: Option<Seq<char>>, k: int) -> Option<Seq<char>> {
    match text {
        Some(t) => group(pattern, t, k),
        None => None,
    }
}

/// What a text says before its first comma, without the numbers of formats.
pub open spec fn base_of_text(text: Option<Seq<char>>) -> Option<Seq<char>> {
    match group_in("(.*?)(,|$)"@, text, 1) {
        Some(base) => Some(without_matches(" / 0x\\w+"@, base)),
        None => None,
    }
}

/// A text is there and holds another.
pub open spec fn holds(text: Option<Seq<char>>, part: Seq<char>) -> bool {
    match text {
        Some(t) => contains(t, part),
        None => false,
    }
}

/// What a line says of a track.
pub open spec fn track_info(line: Seq<char>, output: Seq<char>, start: Option<int>) -> MediaInfoView {
    let media_type = group(": (\\w+): (.*)"@, line, 1);
    let text = track_text(line);
    let base_info = base_of_text(text);
    MediaInfoView {
        id: group("#0:\\d(\\[0x\\w+?\\])"@, line, 1),
        text,
        base_info,
        bitrate: group_in("\\d+ kb/s"@, text, 0),
        resolution: group_in("\\d{2,}x\\d+"@, text, 0),
        fps: group_in("(\\d+(\\.\\d+)?) fps"@, text, 0),
        media_type,
        start_time_millis: match start {
            Some(n) => Some(n as i64),
            None => None,
        },
        dolby_vision: holds(base_info, "dvhe"@) || holds(base_info, "dvh1"@) || holds(
            base_info,
            "DOVI"@,
        ) || holds(media_type, "dvvideo"@) || (tells_dolby_vision(output) && media_type == Some(
            "Video"@,
        )),
        hdr: holds(text, "/bt2020/"@),
    }
}

/// The start of a file in milliseconds, where the output tells it.
pub open spec fn start_millis(output: Seq<char>) -> Option<int> {
    match group("Duration.*?start: (\\d+\\.?\\d{0,3})"@, output, 1) {
        Some(t) => seconds_millis(t),
        None => None,
    }
}

/// What the first `n` lines say of tracks.
pub open spec fn track_infos(lines: Seq<Seq<char>>, n: int, output: Seq<char>) -> Seq<MediaInfoView>
    decreases n,
{
    if n <= 0 {
        Seq::empty()
    } else if is_track_line(lines[n - 1]) {
        track_infos(lines, n - 1, output).push(
            track_info(lines[n - 1], output, start_millis(output)),
        )
    } else {
        track_infos(lines, n - 1, output)
    }
}

/// What ffmpeg prints about a file: its tracks, or one that is unknown where there is none.
pub open spec fn probed_infos(output: Seq<char>) -> core::result::Result<
    Seq<MediaInfoView>,
    ErrorView,
> {
    match pattern_error(0) {
        Some(e) => Err(ErrorView::Compatibility(e)),
        None => {
            let all = lines(output);
            let found = track_infos(all, all.len() as int, output);
            Ok(
                if found.len() == 0 {
                    seq![
                        MediaInfoView { media_type: Some("Unknown"@), ..no_media_info() },
                    ]
                } else {
                    found
                },
            )
        },
    }
}

fn find_group_in(pattern: &str, text: &Option<String>, k: usize) -> (r: Option<String>)
    requires
        k <= 9,
    ensures
        r.deep_view() == group_in(pattern@, text.deep_view(), k as int),
{
    match text {
        Some(t) => find_group(pattern, t.as_str(), k),
        None => None,
    }
}

fn text_holds(text: &Option<String>, part: &str) -> (r: bool)
    ensures
        r == holds(text.deep_view(), part@),
{
    match text {
        Some(t) => has_text(t.as_str(), part),
        None => false,
    }
}

fn read_track(line: &str, dovi: bool, start: Option<i64>, output: Ghost<Seq<char>>) -> (r: MediaInfo)
    requires
        dovi == tells_dolby_vision(output@),
    ensures
        r.deep_view() == track_info(
            line@,
            output@,
            match start {
                Some(n) => Some(n as int),
                None => None,
            },
        ),
{
    let media_type: Option<String> = find_group(": (\\w+): (.*)", line, 1);
    let text: Option<String> = match find_group(": (\\w+): (.*)", line, 2) {
        Some(t) => Some(owned(trimmed_end(t.as_str()))),
        None => None,
    };
    let base_info: Option<String> = match find_group_in("(.*?)(,|$)", &text, 1) {
        Some(base) => Some(remove_matches(" / 0x\\w+", base.as_str())),
        None => None,
    };
    let is_video: bool = match &media_type {
        Some(t) => same(t.as_str(), "Video"),
        None => false,
    };
    let dolby_vision: bool = text_holds(&base_info, "dvhe") || text_holds(&base_info, "dvh1")
        || text_holds(&base_info, "DOVI") || text_holds(&media_type, "dvvideo") || (dovi
        && is_video);
    let hdr: bool = text_holds(&text, "/bt2020/");
    let bitrate: Option<String> = find_group_in("\\d+ kb/s", &text, 0);
    let resolution: Option<String> = find_group_in("\\d{2,}x\\d+", &text, 0);
    let fps: Option<String> = find_group_in("(\\d+(\\.\\d+)?) fps", &text, 0);
    MediaInfo {
        id: find_group("#0:\\d(\\[0x\\w+?\\])", line, 1),
        text,
        base_info,
        bitrate,
        resolution,
        fps,
        media_type,
        start_time_millis: start,
        dolby_vision,
        hdr,
    }
}

fn check_pattern(pattern: &str, i: Ghost<int>) -> (r: Result<()>)
    requires
        0 <= i@ < 10,
        pattern@ == patterns()[i@],
        pattern_error(0) == pattern_error(i@),
    ensures
        match r {
            Ok(_) => pattern_error(0) == pattern_error(i@ + 1),
            Err(e) => pattern_error(0) is Some && e.deep_view() == ErrorView::Compatibility(
                pattern_error(0)->0,
            ),
        },
{
    match regex_error(pattern) {
        Some(e) => Err(Error::compatibility(e.as_str())),
        None => Ok(()),
    }
}

fn check_patterns() -> (r: Result<()>)
    ensures
        match r {
            Ok(_) => pattern_error(0) is None,
            Err(e) => pattern_error(0) is Some && e.deep_view() == ErrorView::Compatibility(
                pattern_error(0)->0,
            ),
        },
{
    check_pattern("^  Stream #.*", Ghost(0))?;
    check_pattern("#0:\\d(\\[0x\\w+?\\])", Ghost(1))?;
    check_pattern(": (\\w+): (.*)", Ghost(2))?;
    check_pattern("(.*?)(,|$)", Ghost(3))?;
    check_pattern(" / 0x\\w+", Ghost(4))?;
    check_pattern("\\d{2,}x\\d+", Ghost(5))?;
    check_pattern("\\d+ kb/s", Ghost(6))?;
    check_pattern("(\\d+(\\.\\d+)?) fps", Ghost(7))?;
    check_pattern(
        "DOVI configuration record.*profile: (\\d).*compatibility id: (\\d)",
        Ghost(8),
    )?;
    check_pattern("Duration.*?start: (\\d+\\.?\\d{0,3})", Ghost(9))?;
    Ok(())
}

/// What ffmpeg prints about a file.
pub fn parse_ffmpeg_media_infos(output: &str) -> (r: Result<Vec<MediaInfo>>)
    ensures
        match r {
            Ok(v) => probed_infos(output@) == Ok::<Seq<MediaInfoView>, ErrorView>(v.deep_view()),
            Err(e) => probed_infos(output@) == Err::<Seq<MediaInfoView>, ErrorView>(
                e.deep_view(),
            ),
        },
{
    check_patterns()?;
    let start: Option<i64> = match find_group("Duration.*?start: (\\d+\\.?\\d{0,3})", output, 1) {
        Some(t) => parse_seconds_to_millis(t.as_str()),
        None => None,
    };
    let dovi: bool = match regex_scan(
        "DOVI configuration record.*profile: (\\d).*compatibility id: (\\d)",
        output,
    ) {
        Some(rows) => rows.len() > 1,
        None => false,
    };
    let all: Vec<String> = lines_text(output);
    let ghost av = all.deep_view();
    let mut infos: Vec<MediaInfo> = Vec::new();
    let mut i: usize = 0;
    assert(infos.deep_view() =~= Seq::<MediaInfoView>::empty());
    while i < all.len()
        invariant
            i <= all@.len(),
            av == all.deep_view(),
            dovi == tells_dolby_vision(output@),
            start_millis(output@) == match start {
                Some(n) => Some(n as int),
                None => None,
            },
            infos.deep_view() == track_infos(av, i as int, output@),
        decreases all@.len() - i,
    {
        assert(av[i as int] == all@[i as int]@);
        if speaks_of_track(all[i].as_str()) {
            let info: MediaInfo = read_track(all[i].as_str(), dovi, start, Ghost(output@));
            let ghost before = infos.deep_view();
            let ghost item = info.deep_view();
            infos.push(info);
            assert(infos.deep_view() =~= before.push(item));
        }
        i = i + 1;
    }
    if infos.len() == 0 {
        let mut info: MediaInfo = MediaInfo::default();
        info.media_type = Some(owned("Unknown"));
        let ghost item = info.deep_view();
        infos.push(info);
        assert(infos.deep_view() =~= seq![item]);
    }
    Ok(infos)
}

} // verus!
