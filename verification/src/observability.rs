//! Logs, summaries and looking for a newer release.

use crate::config::LogLevel;
use crate::datetime::{padded, zero_padded, TimeSpan};
use crate::decrypt::{hide_secrets, redact_secrets};
use crate::error::{Error, Result};
use crate::event::{ProgressEvent, ProgressEventView};
use crate::numeric::{double_of, nearest_double, nearest_even, round_quotient};
use crate::mux::OutputArtifact;
use crate::path::{
    extension, file_stem, join_path, parent, path_extension, path_join, path_parent, path_stem,
};
use crate::text::{
    begins_with, cat2, dec, drop, find, find_text, is_space, opt, owned, same, slice, slice_from,
    space_char, starts_with, take, trim, trim_start, trim_start_char, trimmed, trimmed_start,
    trimmed_start_char, u64_text,
};
use vstd::prelude::*;

verus! {

/// The place of a level among the levels, the least severe first.
pub open spec fn rank_of(level: LogLevel) -> int {
    match level {
        LogLevel::Debug => 0,
        LogLevel::Info => 1,
        LogLevel::Warn => 2,
        LogLevel::Error => 3,
        LogLevel::Off => 4,
    }
}

fn rank(level: LogLevel) -> (r: u8)
    ensures
        r == rank_of(level),
{
    match level {
        LogLevel::Debug => 0,
        LogLevel::Info => 1,
        LogLevel::Warn => 2,
        LogLevel::Error => 3,
        LogLevel::Off => 4,
    }
}

/// Whether a message is logged: where logging is on, and the message is as severe as asked for.
pub open spec fn is_logged(active: LogLevel, message_level: LogLevel) -> bool {
    active != LogLevel::Off && rank_of(message_level) >= rank_of(active)
}

/// Whether a message is logged.
pub fn should_log(active: LogLevel, message_level: LogLevel) -> (r: bool)
    ensures
        r == is_logged(active, message_level),
{
    if active == LogLevel::Off {
        return false;
    }
    rank(message_level) >= rank(active)
}

/// Where a message is logged, so is a more severe one, and under a less strict setting that is not
/// off it is logged too.
pub proof fn law_severe_messages_are_logged(
    active: LogLevel,
    looser: LogLevel,
    level: LogLevel,
    severer: LogLevel,
)
    requires
        is_logged(active, level),
        rank_of(severer) >= rank_of(level),
        rank_of(looser) <= rank_of(active),
    ensures
        is_logged(looser, severer),
{
}

/// Where the log goes.
#[derive(Debug, PartialEq, Eq)]
pub struct LogFilePlan {
    pub enabled: bool,
    pub path: Option<String>,
}

/// Model of `LogFilePlan`.
pub struct LogFilePlanView {
    pub enabled: bool,
    pub path: Option<Seq<char>>,
}

impl DeepView for LogFilePlan {
    type V = LogFilePlanView;

    open spec fn deep_view(&self) -> LogFilePlanView {
        LogFilePlanView { enabled: self.enabled, path: self.path.deep_view() }
    }
}

/// What is asked of the log.
#[derive(Debug, PartialEq, Eq)]
pub struct LogPlanConfig {
    pub level: LogLevel,
    pub no_log: bool,
    pub log_file_path: Option<String>,
    pub default_log_dir: String,
    pub suffix: String,
}

/// Model of `LogPlanConfig`.
pub struct LogPlanConfigView {
    pub level: LogLevel,
    pub no_log: bool,
    pub log_file_path: Option<Seq<char>>,
    pub default_log_dir: Seq<char>,
    pub suffix: Seq<char>,
}

impl DeepView for LogPlanConfig {
    type V = LogPlanConfigView;

    open spec fn deep_view(&self) -> LogPlanConfigView {
        LogPlanConfigView {
            level: self.level,
            no_log: self.no_log,
            log_file_path: self.log_file_path.deep_view(),
            default_log_dir: self.default_log_dir@,
            suffix: self.suffix@,
        }
    }
}

/// A text, or another where there is none.
pub open spec fn or_else(o: Option<Seq<char>>, other: Seq<char>) -> Seq<char> {
    match o {
        Some(t) => t,
        None => other,
    }
}

/// The path of the log file that is asked for.
pub open spec fn wanted_log_path(c: LogPlanConfigView) -> Seq<char> {
    match c.log_file_path {
        Some(p) => p,
        None => path_join(c.default_log_dir, c.suffix + ".log"@),
    }
}

/// The path of the log file at attempt `n`: the wanted one, then the same with numbers.
pub open spec fn log_path_at(c: LogPlanConfigView, n: nat) -> Seq<char> {
    let wanted = wanted_log_path(c);
    if n == 0 {
        wanted
    } else {
        path_join(
            or_else(path_parent(wanted), ""@),
            or_else(path_stem(wanted), "log"@) + "-"@ + dec(n) + "."@ + or_else(
                path_extension(wanted),
                "log"@,
            ),
        )
    }
}

/// The path of the log file at an attempt; none where no log is wanted.
pub fn log_path_candidate(config: &LogPlanConfig, attempt: u32) -> (r: Option<String>)
    ensures
        r.deep_view() == if config.no_log {
            None
        } else {
            Some(log_path_at(config.deep_view(), attempt as nat))
        },
{
    if config.no_log {
        return None;
    }
    let wanted: String = match &config.log_file_path {
        Some(p) => p.clone(),
        None => {
            let name: String = cat2(config.suffix.as_str(), ".log");
            join_path(config.default_log_dir.as_str(), name.as_str())
        },
    };
    if attempt == 0 {
        return Some(wanted);
    }
    let directory: String = match parent(wanted.as_str()) {
        Some(d) => d,
        None => owned(""),
    };
    let stem: &str = match file_stem(wanted.as_str()) {
        Some(s) => s,
        None => "log",
    };
    let ending: &str = match extension(wanted.as_str()) {
        Some(e) => e,
        None => "log",
    };
    let mut name: String = owned(stem);
    name.append("-");
    name.append(u64_text(attempt as u64).as_str());
    name.append(".");
    name.append(ending);
    Some(join_path(directory.as_str(), name.as_str()))
}

/// Where the log goes, given the first attempt at which nothing is there yet.
pub fn plan_log_file(config: &LogPlanConfig, free_attempt: u32) -> (r: LogFilePlan)
    ensures
        r.deep_view() == (LogFilePlanView {
            enabled: !config.no_log,
            path: if config.no_log {
                None
            } else {
                Some(log_path_at(config.deep_view(), free_attempt as nat))
            },
        }),
{
    LogFilePlan { enabled: !config.no_log, path: log_path_candidate(config, free_attempt) }
}

/// The position of the first white space, from `i` on.
pub open spec fn space_from(s: Seq<char>, i: int) -> int
    decreases s.len() - i,
{
    if i < 0 || i >= s.len() {
        s.len() as int
    } else if is_space(s[i]) {
        i
    } else {
        space_from(s, i + 1)
    }
}

/// The first word of a text; the text itself where it holds none.
pub open spec fn first_word(s: Seq<char>) -> Seq<char> {
    let bare = trim_start(s);
    if bare.len() == 0 {
        s
    } else {
        take(bare, space_from(bare, 0))
    }
}

fn word_of<'a>(s: &'a str) -> (r: &'a str)
    ensures
        r@ == first_word(s@),
{
    let bare: &'a str = trimmed_start(s);
    let n: usize = bare.unicode_len();
    if n == 0 {
        return s;
    }
    let mut i: usize = 0;
    while i < n
        invariant
            i <= n,
            n == bare@.len(),
            bare@ == trim_start(s@),
            n > 0,
            space_from(bare@, 0) == space_from(bare@, i as int),
        decreases n - i,
    {
        if space_char(bare.get_char(i)) {
            let word: &'a str = slice(bare, 0, i);
            assert(word@ =~= take(bare@, i as int));
            return word;
        }
        i = i + 1;
    }
    assert(take(bare@, n as int) =~= bare@);
    bare
}

/// What a log file begins with.
pub open spec fn log_head(path: Seq<char>, started_at: Seq<char>, command_line: Option<Seq<char>>) -> Seq<char> {
    let head = "LOG "@ + first_word(started_at) + "\n"@ + "Save Path: "@ + or_else(
        path_parent(path),
        ""@,
    ) + "\n"@ + "Task Start: "@ + started_at + "\n"@;
    (match command_line {
        Some(line) => head + "Task CommandLine: "@ + line + "\n"@,
        None => head,
    }) + "\n"@
}

/// What is written into a new log file; nothing where there is none.
pub fn initialize_log_file(plan: &LogFilePlan, started_at: &str, command_line: Option<&str>) -> (r:
    Option<String>)
    ensures
        r.deep_view() == match plan.deep_view().path {
            Some(path) => Some(log_head(path, started_at@, opt(command_line))),
            None => None,
        },
{
    let path: &String = match &plan.path {
        Some(p) => p,
        None => {
            return None;
        },
    };
    let directory: String = match parent(path.as_str()) {
        Some(d) => d,
        None => owned(""),
    };
    let mut text: String = owned("LOG ");
    text.append(word_of(started_at));
    text.append("\n");
    text.append("Save Path: ");
    text.append(directory.as_str());
    text.append("\n");
    text.append("Task Start: ");
    text.append(started_at);
    text.append("\n");
    match command_line {
        Some(line) => {
            text.append("Task CommandLine: ");
            text.append(line);
            text.append("\n");
        },
        None => {},
    }
    text.append("\n");
    Some(text)
}

/// What the search for a newer release found.
#[derive(Debug, PartialEq, Eq)]
pub struct UpdateCheckResult {
    pub latest_version: Option<String>,
    pub update_available: bool,
}

/// Model of `UpdateCheckResult`.
pub struct UpdateCheckResultView {
    pub latest_version: Option<Seq<char>>,
    pub update_available: bool,
}

impl DeepView for UpdateCheckResult {
    type V = UpdateCheckResultView;

    open spec fn deep_view(&self) -> UpdateCheckResultView {
        UpdateCheckResultView {
            latest_version: self.latest_version.deep_view(),
            update_available: self.update_available,
        }
    }
}

/// Asks a server where it redirects to.
pub trait UpdateCheckClient {
    fn redirect_location(&self, url: &str) -> Result<Option<String>>;
}

/// How long an answer is waited for when a newer release is looked for.
#[derive(Clone, Copy, Debug)]
pub struct UpdateCheckHttpClient {
    pub timeout: TimeSpan,
}

impl UpdateCheckHttpClient {
    pub fn new() -> (r: Self)
        ensures
            r.timeout == (TimeSpan { seconds: 5, nanoseconds: 0 }),
    {
        UpdateCheckHttpClient { timeout: TimeSpan { seconds: 5, nanoseconds: 0 } }
    }

    pub fn with_timeout(self, timeout: TimeSpan) -> (r: Self)
        ensures
            r.timeout == timeout,
    {
        UpdateCheckHttpClient { timeout }
    }
}

/// Where the newest release is announced.
pub const DEFAULT_UPDATE_CHECK_URL: &'static str =
    "https://github.com/bakgio/haki-dl/releases/latest";

/// The version of the release to which a location leads.
pub open spec fn released_version(location: Seq<char>) -> Option<Seq<char>> {
    match find(location, "/tag/"@) {
        None => None,
        Some(i) => {
            let tag = trim(drop(location, i + 5));
            if tag.len() == 0 || starts_with(tag, "http"@) {
                None
            } else {
                Some(tag)
            }
        },
    }
}

/// The version of the release to which a location leads.
pub fn latest_version_from_release_redirect(location: &str) -> (r: Option<String>)
    ensures
        r.deep_view() == released_version(location@),
{
    proof {
        reveal_strlit("/tag/");
    }
    let _len: usize = location.unicode_len();
    match find_text(location, "/tag/") {
        None => None,
        Some(i) => {
            let tag: &str = trimmed(slice_from(location, i + 5));
            if tag.unicode_len() == 0 || begins_with(tag, "http") {
                None
            } else {
                Some(owned(tag))
            }
        },
    }
}

/// A version without the letter before it.
pub open spec fn bare_version(version: Seq<char>) -> Seq<char> {
    trim_start_char(trim(version), 'v')
}

/// What follows from the location of the newest release: another version than the present one is
/// an update.
pub open spec fn update_found(location: Option<Seq<char>>, current: Seq<char>) -> UpdateCheckResultView {
    let latest = match location {
        Some(l) => released_version(l),
        None => None,
    };
    UpdateCheckResultView {
        latest_version: latest,
        update_available: match latest {
            Some(v) => bare_version(v) != bare_version(current),
            None => false,
        },
    }
}

/// What follows from the location of the newest release.
pub fn update_check_result(location: Option<&str>, current_version: &str) -> (r: UpdateCheckResult)
    ensures
        r.deep_view() == update_found(opt(location), current_version@),
{
    let latest: Option<String> = match location {
        Some(l) => latest_version_from_release_redirect(l),
        None => None,
    };
    let update_available: bool = match &latest {
        Some(v) => !same(
            trimmed_start_char(trimmed(v.as_str()), 'v'),
            trimmed_start_char(trimmed(current_version), 'v'),
        ),
        None => false,
    };
    UpdateCheckResult { latest_version: latest, update_available }
}

/// Looks for a newer release: asks the client for the endpoint. What comes out follows from what the
/// client answered.
pub fn check_update_with_client<C: UpdateCheckClient>(
    client: &C,
    endpoint: &str,
    current_version: &str,
) -> (r: Result<UpdateCheckResult>)
    ensures
        exists|answer: Result<Option<String>>| #[trigger]
            call_ensures(C::redirect_location, (client, endpoint), answer) && match answer {
                Ok(location) => r is Ok && r->Ok_0.deep_view() == update_found(
                    location.deep_view(),
                    current_version@,
                ),
                Err(e) => r == Err::<UpdateCheckResult, Error>(e),
            },
{
    let answer: Result<Option<String>> = client.redirect_location(endpoint);
    let ghost given = answer;
    assert(call_ensures(C::redirect_location, (client, endpoint), given));
    let location: Option<String> = match answer {
        Ok(location) => location,
        Err(e) => {
            return Err(e);
        },
    };
    let text: Option<&str> = match &location {
        Some(l) => Some(l.as_str()),
        None => None,
    };
    let u: UpdateCheckResult = update_check_result(text, current_version);
    assert(u.deep_view() == update_found(opt(text), current_version@));
    Ok(u)
}

/// 1024 to a power.
pub open spec fn kilo(n: nat) -> nat {
    if n == 0 {
        1
    } else if n == 1 {
        0x400
    } else if n == 2 {
        0x10_0000
    } else if n == 3 {
        0x4000_0000
    } else {
        0x100_0000_0000
    }
}

/// The unit in which a number of bytes is shown: the largest of five that is not above it.
pub open spec fn size_unit(n: nat) -> nat {
    if n < kilo(1) {
        0
    } else if n < kilo(2) {
        1
    } else if n < kilo(3) {
        2
    } else if n < kilo(4) {
        3
    } else {
        4
    }
}

/// The name of a unit.
pub open spec fn unit_name(unit: nat) -> Seq<char> {
    if unit == 0 {
        "B"@
    } else if unit == 1 {
        "KiB"@
    } else if unit == 2 {
        "MiB"@
    } else if unit == 3 {
        "GiB"@
    } else {
        "TiB"@
    }
}

/// A number of hundredths with two decimals.
pub open spec fn two_decimals(hundredths: nat) -> Seq<char> {
    dec(hundredths / 100) + "."@ + zero_padded(hundredths % 100, 2)
}

/// A number of bytes in the unit that suits it, rounded to two decimals.
pub open spec fn file_size_text(bytes: nat) -> Seq<char> {
    if bytes == 0 {
        "0B"@
    } else {
        let n = nearest_double(bytes);
        let unit = size_unit(n);
        if unit == 0 {
            dec(bytes) + "B"@
        } else {
            two_decimals(nearest_even(n * 100, kilo(unit))) + unit_name(unit)
        }
    }
}

/// A number of bytes in the unit that suits it, rounded to two decimals.
pub fn format_file_size(bytes: u64) -> (r: String)
    ensures
        r@ == file_size_text(bytes as nat),
{
    if bytes == 0 {
        return owned("0B");
    }
    let n: u128 = double_of(bytes);
    let (size, name): (u128, &str) = if n < 0x400 {
        let mut out: String = u64_text(bytes);
        out.append("B");
        return out;
    } else if n < 0x10_0000 {
        (0x400, "KiB")
    } else if n < 0x4000_0000 {
        (0x10_0000, "MiB")
    } else if n < 0x100_0000_0000 {
        (0x4000_0000, "GiB")
    } else {
        (0x100_0000_0000, "TiB")
    };
    let hundredths: u128 = round_quotient(n * 100, size);
    assert(hundredths / 100 <= u64::MAX) by (nonlinear_arith)
        requires
            hundredths <= (n * 100) as int / size as int + 1,
            n <= 0x2_0000_0000_0000_0000,
            size >= 0x400,
    ;
    let mut out: String = u64_text((hundredths / 100) as u64);
    out.append(".");
    out.append(padded((hundredths % 100) as u64, 2).as_str());
    out.append(name);
    out
}

/// A length of time as hours, minutes and seconds.
pub open spec fn clock_text(seconds: nat) -> Seq<char> {
    zero_padded(seconds / 3600, 2) + ":"@ + zero_padded((seconds / 60) % 60, 2) + ":"@ + zero_padded(
        seconds % 60,
        2,
    )
}

/// A length of time as hours, minutes and seconds.
pub fn format_duration(duration: TimeSpan) -> (r: String)
    ensures
        r@ == clock_text(duration.seconds as nat),
{
    let s: u64 = duration.seconds;
    let mut out: String = padded(s / 3600, 2);
    out.append(":");
    out.append(padded((s / 60) % 60, 2).as_str());
    out.append(":");
    out.append(padded(s % 60, 2).as_str());
    out
}

/// An event with keys, tokens and signatures replaced in its messages.
pub open spec fn redacted_event(e: ProgressEventView) -> ProgressEventView {
    match e {
        ProgressEventView::Log { level, message } => ProgressEventView::Log {
            level,
            message: hide_secrets(message),
        },
        ProgressEventView::MediaInfo { stream_id, lines } => ProgressEventView::MediaInfo {
            stream_id,
            lines: lines.map_values(|l: Seq<char>| hide_secrets(l)),
        },
        ProgressEventView::DecryptProgress { stream_id, message } => ProgressEventView::DecryptProgress {
            stream_id,
            message: hide_secrets(message),
        },
        ProgressEventView::MergeProgress { stream_id, message } => ProgressEventView::MergeProgress {
            stream_id,
            message: hide_secrets(message),
        },
        ProgressEventView::SubtitleProgress { stream_id, message } => ProgressEventView::SubtitleProgress {
            stream_id,
            message: hide_secrets(message),
        },
        ProgressEventView::MuxProgress { message } => ProgressEventView::MuxProgress {
            message: hide_secrets(message),
        },
        ProgressEventView::ExternalToolOutput { message } => ProgressEventView::ExternalToolOutput {
            message: hide_secrets(message),
        },
        ProgressEventView::ConsoleLine { message } => ProgressEventView::ConsoleLine {
            message: hide_secrets(message),
        },
        ProgressEventView::Warning { message } => ProgressEventView::Warning {
            message: hide_secrets(message),
        },
        ProgressEventView::ExtraLog { message } => ProgressEventView::ExtraLog {
            message: hide_secrets(message),
        },
        other => other,
    }
}

fn redact_lines(lines: &Vec<String>) -> (r: Vec<String>)
    ensures
        r.deep_view() == lines.deep_view().map_values(|l: Seq<char>| hide_secrets(l)),
{
    let ghost all = lines.deep_view();
    let ghost hidden = all.map_values(|l: Seq<char>| hide_secrets(l));
    let mut out: Vec<String> = Vec::new();
    let mut i: usize = 0;
    while i < lines.len()
        invariant
            i <= lines@.len(),
            all == lines.deep_view(),
            hidden == all.map_values(|l: Seq<char>| hide_secrets(l)),
            out.deep_view() =~= hidden.subrange(0, i as int),
        decreases lines@.len() - i,
    {
        assert(all[i as int] == lines@[i as int]@);
        let line: String = redact_secrets(lines[i].as_str());
        let ghost before = out.deep_view();
        let ghost item = line@;
        assert(hidden[i as int] == item);
        out.push(line);
        assert(out.deep_view() =~= before.push(item));
        i = i + 1;
    }
    assert(hidden.subrange(0, lines@.len() as int) =~= hidden);
    out
}

/// The event with keys, tokens and signatures replaced in its messages.
pub fn redact_progress_event(event: ProgressEvent) -> (r: ProgressEvent)
    ensures
        r.deep_view() == redacted_event(event.deep_view()),
{
    match event {
        ProgressEvent::Log { level, message } => ProgressEvent::Log {
            level,
            message: redact_secrets(message.as_str()),
        },
        ProgressEvent::MediaInfo { stream_id, lines } => ProgressEvent::MediaInfo {
            stream_id,
            lines: redact_lines(&lines),
        },
        ProgressEvent::DecryptProgress { stream_id, message } => ProgressEvent::DecryptProgress {
            stream_id,
            message: redact_secrets(message.as_str()),
        },
        ProgressEvent::MergeProgress { stream_id, message } => ProgressEvent::MergeProgress {
            stream_id,
            message: redact_secrets(message.as_str()),
        },
        ProgressEvent::SubtitleProgress { stream_id, message } => ProgressEvent::SubtitleProgress {
            stream_id,
            message: redact_secrets(message.as_str()),
        },
        ProgressEvent::MuxProgress { message } => ProgressEvent::MuxProgress {
            message: redact_secrets(message.as_str()),
        },
        ProgressEvent::ExternalToolOutput { message } => ProgressEvent::ExternalToolOutput {
            message: redact_secrets(message.as_str()),
        },
        ProgressEvent::ConsoleLine { message } => ProgressEvent::ConsoleLine {
            message: redact_secrets(message.as_str()),
        },
        ProgressEvent::Warning { message } => ProgressEvent::Warning {
            message: redact_secrets(message.as_str()),
        },
        ProgressEvent::ExtraLog { message } => ProgressEvent::ExtraLog {
            message: redact_secrets(message.as_str()),
        },
        other => other,
    }
}

/// What events amount to.
#[derive(Debug, PartialEq, Eq)]
pub struct ProgressSummary {
    pub downloaded_bytes: u64,
    pub total_bytes: Option<u64>,
    pub bytes_per_second: u64,
    pub completed_segments: u64,
    pub total_segments: Option<u64>,
    pub refreshed_duration: Option<TimeSpan>,
    pub recorded_duration: Option<TimeSpan>,
    pub warnings: Vec<String>,
    pub outputs: Vec<String>,
    pub finished: Option<bool>,
}

/// Model of `ProgressSummary`.
pub struct ProgressSummaryView {
    pub downloaded_bytes: u64,
    pub total_bytes: Option<u64>,
    pub bytes_per_second: u64,
    pub completed_segments: u64,
    pub total_segments: Option<u64>,
    pub refreshed_duration: Option<TimeSpan>,
    pub recorded_duration: Option<TimeSpan>,
    pub warnings: Seq<Seq<char>>,
    pub outputs: Seq<Seq<char>>,
    pub finished: Option<bool>,
}

impl DeepView for ProgressSummary {
    type V = ProgressSummaryView;

    open spec fn deep_view(&self) -> ProgressSummaryView {
        ProgressSummaryView {
            downloaded_bytes: self.downloaded_bytes,
            total_bytes: self.total_bytes,
            bytes_per_second: self.bytes_per_second,
            completed_segments: self.completed_segments,
            total_segments: self.total_segments,
            refreshed_duration: self.refreshed_duration,
            recorded_duration: self.recorded_duration,
            warnings: self.warnings.deep_view(),
            outputs: self.outputs.deep_view(),
            finished: self.finished,
        }
    }
}

/// Nothing has happened.
pub open spec fn empty_summary() -> ProgressSummaryView {
    ProgressSummaryView {
        downloaded_bytes: 0,
        total_bytes: None,
        bytes_per_second: 0,
        completed_segments: 0,
        total_segments: None,
        refreshed_duration: None,
        recorded_duration: None,
        warnings: Seq::empty(),
        outputs: Seq::empty(),
        finished: None,
    }
}

impl Default for ProgressSummary {
    fn default() -> (r: Self)
        ensures
            r.deep_view() == empty_summary(),
    {
        let r = ProgressSummary {
            downloaded_bytes: 0,
            total_bytes: None,
            bytes_per_second: 0,
            completed_segments: 0,
            total_segments: None,
            refreshed_duration: None,
            recorded_duration: None,
            warnings: Vec::new(),
            outputs: Vec::new(),
            finished: None,
        };
        assert(r.warnings.deep_view() =~= Seq::empty());
        assert(r.outputs.deep_view() =~= Seq::empty());
        r
    }
}

/// The larger of two numbers.
pub open spec fn larger(a: u64, b: u64) -> u64 {
    if a >= b {
        a
    } else {
        b
    }
}

fn larger_of(a: u64, b: u64) -> (r: u64)
    ensures
        r == larger(a, b),
{
    if a >= b {
        a
    } else {
        b
    }
}

/// A summary after one more event.
pub open spec fn summed(s: ProgressSummaryView, e: ProgressEventView) -> ProgressSummaryView {
    match e {
        ProgressEventView::AggregateProgress(p) => ProgressSummaryView {
            downloaded_bytes: p.downloaded_bytes,
            total_bytes: p.total_bytes,
            bytes_per_second: p.bytes_per_second,
            ..s
        },
        ProgressEventView::StreamProgress(p) => ProgressSummaryView {
            downloaded_bytes: larger(s.downloaded_bytes, p.downloaded_bytes),
            completed_segments: larger(s.completed_segments, p.completed_segments),
            total_segments: p.total_segments,
            bytes_per_second: larger(s.bytes_per_second, p.bytes_per_second),
            ..s
        },
        ProgressEventView::LiveRefresh { refreshed_duration, recorded_duration, .. } => ProgressSummaryView {
            refreshed_duration: Some(refreshed_duration),
            recorded_duration: Some(recorded_duration),
            ..s
        },
        ProgressEventView::Warning { message } => ProgressSummaryView {
            warnings: s.warnings.push(message),
            ..s
        },
        ProgressEventView::ExternalToolOutput { message } => ProgressSummaryView {
            warnings: s.warnings.push(message),
            ..s
        },
        ProgressEventView::ConsoleLine { message } => ProgressSummaryView {
            warnings: s.warnings.push(message),
            ..s
        },
        ProgressEventView::OutputArtifact(artifact) => ProgressSummaryView {
            outputs: s.outputs.push(artifact.path),
            ..s
        },
        ProgressEventView::Finished { success } => ProgressSummaryView {
            finished: Some(success),
            ..s
        },
        _ => s,
    }
}

/// What the first `n` events amount to.
pub open spec fn summary_of(events: Seq<ProgressEventView>, n: int) -> ProgressSummaryView
    decreases n,
{
    if n <= 0 {
        empty_summary()
    } else {
        summed(summary_of(events, n - 1), events[n - 1])
    }
}

fn push_copy(texts: &mut Vec<String>, text: &String)
    ensures
        final(texts).deep_view() == old(texts).deep_view().push(text@),
{
    let ghost before = texts.deep_view();
    texts.push(text.clone());
    assert(texts.deep_view() =~= before.push(text@));
}

fn sum_event(s: &mut ProgressSummary, e: &ProgressEvent)
    ensures
        final(s).deep_view() == summed(old(s).deep_view(), e.deep_view()),
{
    match e {
        ProgressEvent::AggregateProgress(p) => {
            s.downloaded_bytes = p.downloaded_bytes;
            s.total_bytes = p.total_bytes;
            s.bytes_per_second = p.bytes_per_second;
        },
        ProgressEvent::StreamProgress(p) => {
            s.downloaded_bytes = larger_of(s.downloaded_bytes, p.downloaded_bytes);
            s.completed_segments = larger_of(s.completed_segments, p.completed_segments);
            s.total_segments = p.total_segments;
            s.bytes_per_second = larger_of(s.bytes_per_second, p.bytes_per_second);
        },
        ProgressEvent::LiveRefresh { refreshed_duration, recorded_duration, .. } => {
            s.refreshed_duration = Some(*refreshed_duration);
            s.recorded_duration = Some(*recorded_duration);
        },
        ProgressEvent::Warning { message } => {
            push_copy(&mut s.warnings, message);
        },
        ProgressEvent::ExternalToolOutput { message } => {
            push_copy(&mut s.warnings, message);
        },
        ProgressEvent::ConsoleLine { message } => {
            push_copy(&mut s.warnings, message);
        },
        ProgressEvent::OutputArtifact(artifact) => {
            push_copy(&mut s.outputs, &artifact.path);
        },
        ProgressEvent::Finished { success } => {
            s.finished = Some(*success);
        },
        _ => {},
    }
}

/// What events amount to.
pub fn summarize_events(events: &Vec<ProgressEvent>) -> (r: ProgressSummary)
    ensures
        r.deep_view() == summary_of(events.deep_view(), events@.len() as int),
{
    let ghost all = events.deep_view();
    let mut s: ProgressSummary = ProgressSummary::default();
    let mut i: usize = 0;
    while i < events.len()
        invariant
            i <= events@.len(),
            all == events.deep_view(),
            s.deep_view() == summary_of(all, i as int),
        decreases events@.len() - i,
    {
        assert(all[i as int] == events@[i as int].deep_view());
        sum_event(&mut s, &events[i]);
        i = i + 1;
    }
    s
}

/// Every warning, line and line of a program among the events is in the summary, and nothing else.
pub proof fn law_summary_counts_warnings(events: Seq<ProgressEventView>, n: int)
    requires
        0 <= n <= events.len(),
    ensures
        summary_of(events, n).warnings.len() == warning_count(events, n),
        summary_of(events, n).outputs.len() == output_count(events, n),
    decreases n,
{
    if n > 0 {
        law_summary_counts_warnings(events, n - 1);
    }
}

/// How many of the first `n` events are warnings, lines or lines of a program.
pub open spec fn warning_count(events: Seq<ProgressEventView>, n: int) -> nat
    decreases n,
{
    if n <= 0 {
        0
    } else {
        warning_count(events, n - 1) + if events[n - 1] is Warning || events[n - 1] is ConsoleLine
            || events[n - 1] is ExternalToolOutput {
            1nat
        } else {
            0nat
        }
    }
}

/// How many of the first `n` events tell of a file.
pub open spec fn output_count(events: Seq<ProgressEventView>, n: int) -> nat
    decreases n,
{
    if n <= 0 {
        0
    } else {
        output_count(events, n - 1) + if events[n - 1] is OutputArtifact {
            1nat
        } else {
            0nat
        }
    }
}

/// Keeps events, with keys, tokens and signatures replaced.
#[derive(Debug)]
pub struct ProgressEventCollector {
    events: Vec<ProgressEvent>,
}

impl ProgressEventCollector {
    /// The events, the oldest first.
    pub closed spec fn collected(&self) -> Seq<ProgressEventView> {
        self.events.deep_view()
    }

    pub fn new() -> (r: Self)
        ensures
            r.collected() == Seq::<ProgressEventView>::empty(),
    {
        let r = ProgressEventCollector { events: Vec::new() };
        assert(r.events.deep_view() =~= Seq::<ProgressEventView>::empty());
        r
    }

    /// Keeps an event, with keys, tokens and signatures replaced.
    pub fn emit(&mut self, event: ProgressEvent)
        ensures
            final(self).collected() == old(self).collected().push(
                redacted_event(event.deep_view()),
            ),
    {
        let ghost before = self.events.deep_view();
        let clean: ProgressEvent = redact_progress_event(event);
        let ghost item = clean.deep_view();
        self.events.push(clean);
        assert(self.events.deep_view() =~= before.push(item));
    }

    /// The events, the oldest first.
    pub fn events(&self) -> (r: &Vec<ProgressEvent>)
        ensures
            r.deep_view() == self.collected(),
    {
        &self.events
    }

    /// What the events amount to.
    pub fn summary(&self) -> (r: ProgressSummary)
        ensures
            r.deep_view() == summary_of(self.collected(), self.collected().len() as int),
    {
        summarize_events(&self.events)
    }
}

} // verus!
