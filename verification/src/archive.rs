//! Archive settings of the Archivist bot and its slash commands.

use vstd::prelude::*;
use crate::text::{
    ascii_lower, chars_of, decimal, is_ascii_text, is_prefix, lowercase_text, pad_left, parse_u16, seq_equals, spec_parse_u16,
    split_words, str_equals, str_starts_with, string_from_chars, string_from_range, to_lowercase,
    words, zero_padded4,
};
use crate::time::{known_time_format, Timestamp};

verus! {

/// Archive window configuration
#[derive(Debug, Clone, Copy, PartialEq, Eq, Structural)]
pub enum ArchiveWindow {
    /// Last 12 hours
    Hours12,
    /// Last 24 hours
    Hours24,
    /// Since last archive run
    SinceLastRun,
}

/// The stored name of a window.
pub open spec fn window_name(w: ArchiveWindow) -> Seq<char> {
    match w {
        ArchiveWindow::Hours12 => "12h"@,
        ArchiveWindow::Hours24 => "24h"@,
        ArchiveWindow::SinceLastRun => "since_last_run"@,
    }
}

/// The window named by an already lower-cased text.
pub open spec fn window_of_lower(s: Seq<char>) -> Option<ArchiveWindow> {
    if s == "12h"@ {
        Some(ArchiveWindow::Hours12)
    } else if s == "24h"@ {
        Some(ArchiveWindow::Hours24)
    } else if s == "since_last_run"@ || s == "since-last-run"@ {
        Some(ArchiveWindow::SinceLastRun)
    } else {
        None
    }
}

impl ArchiveWindow {
    /// Reads a window name, ignoring case; a window's own name reads back as
    /// that window.
    pub fn from_str(s: &str) -> (r: Option<Self>)
        ensures
            r == window_of_lower(lowercase_text(s@)),
            forall|w: ArchiveWindow| s@ == window_name(w) ==> r == Some(w),
    {
        let lower = to_lowercase(s);
        proof {
            assert forall|w: ArchiveWindow| s@ == window_name(w) implies window_of_lower(
                lowercase_text(s@),
            ) == Some(w) by {
                lemma_window_name_lower(w);
                lemma_window_name_roundtrip(w);
            }
        }
        let l = lower.as_str();
        if str_equals(l, "12h") {
            Some(ArchiveWindow::Hours12)
        } else if str_equals(l, "24h") {
            Some(ArchiveWindow::Hours24)
        } else if str_equals(l, "since_last_run") || str_equals(l, "since-last-run") {
            Some(ArchiveWindow::SinceLastRun)
        } else {
            None
        }
    }

    pub fn as_str(&self) -> (s: &'static str)
        ensures
            s@ == window_name(*self),
    {
        match self {
            ArchiveWindow::Hours12 => "12h",
            ArchiveWindow::Hours24 => "24h",
            ArchiveWindow::SinceLastRun => "since_last_run",
        }
    }
}

/// A window's stored name reads back as the same window once lower-cased
/// (the stored names are already lower case).
pub proof fn lemma_window_name_roundtrip(w: ArchiveWindow)
    ensures
        window_of_lower(window_name(w)) == Some(w),
{
    reveal_strlit("12h");
    reveal_strlit("24h");
    reveal_strlit("since_last_run");
    reveal_strlit("since-last-run");
    assert("12h"@.len() == 3);
    assert("24h"@.len() == 3);
    assert("since_last_run"@.len() == 14);
    assert("12h"@[0] != "24h"@[0]);
}

/// The window names are ASCII text with no upper-case letter, so ASCII
/// lower-casing leaves them as they are.
proof fn lemma_window_name_lower(w: ArchiveWindow)
    ensures
        is_ascii_text(window_name(w)),
        window_name(w).map_values(|c: char| ascii_lower(c)) == window_name(w),
{
    reveal_strlit("12h");
    reveal_strlit("24h");
    reveal_strlit("since_last_run");
    let n = window_name(w);
    assert(n.map_values(|c: char| ascii_lower(c)) =~= n);
}

/// Archive output configuration
#[derive(Debug, Clone, PartialEq, Eq)]
pub enum ArchiveOutput {
    /// Write to hall chest archives folder
    Chest,
    /// Write to user's subfolder under archives
    ChestUser(String),
}

impl View for ArchiveOutput {
    /// `None` for the chest itself, `Some(user)` for a user's subfolder.
    type V = Option<Seq<char>>;

    open spec fn view(&self) -> Option<Seq<char>> {
        match self {
            ArchiveOutput::Chest => None,
            ArchiveOutput::ChestUser(u) => Some(u@),
        }
    }
}

/// The stored text of an output.
pub open spec fn output_text(o: Option<Seq<char>>) -> Seq<char> {
    match o {
        None => "chest"@,
        Some(u) => "chest:"@ + u,
    }
}

/// The output a stored text names, if any.
pub open spec fn output_of_text(s: Seq<char>) -> Option<Option<Seq<char>>> {
    if s == "chest"@ {
        Some(None)
    } else if is_prefix("chest:"@, s) {
        Some(Some(s.subrange(6, s.len() as int)))
    } else {
        None
    }
}

impl ArchiveOutput {
    pub fn from_str(s: &str) -> (r: Option<Self>)
        ensures
            match r {
                Some(o) => output_of_text(s@) == Some(o@),
                None => output_of_text(s@) is None,
            },
    {
        if str_equals(s, "chest") {
            Some(ArchiveOutput::Chest)
        } else if str_starts_with(s, "chest:") {
            proof {
                reveal_strlit("chest:");
            }
            let v = chars_of(s);
            Some(ArchiveOutput::ChestUser(string_from_range(&v, 6, v.len())))
        } else {
            None
        }
    }

    pub fn as_str(&self) -> (s: String)
        ensures
            s@ == output_text(self@),
    {
        match self {
            ArchiveOutput::Chest => String::from_str("chest"),
            ArchiveOutput::ChestUser(username) => {
                let mut s = String::from_str("chest:");
                s.append(username.as_str());
                s
            },
        }
    }
}

/// Writing an output as text and reading it back gives the same output.
pub proof fn lemma_output_roundtrip(o: Option<Seq<char>>)
    ensures
        output_of_text(output_text(o)) == Some(o),
{
    reveal_strlit("chest");
    reveal_strlit("chest:");
    match o {
        None => {},
        Some(u) => {
            let t = "chest:"@ + u;
            assert(t.subrange(0, 6) =~= "chest:"@);
            assert(t.subrange(6, t.len() as int) =~= u);
            assert(t.len() != "chest"@.len());
        },
    }
}

/// Every text that names an output is exactly that output's stored text.
pub proof fn lemma_output_text_canonical(s: Seq<char>)
    ensures
        output_of_text(s) matches Some(o) ==> output_text(o) == s,
{
    reveal_strlit("chest");
    reveal_strlit("chest:");
    if output_of_text(s) is Some && s != "chest"@ {
        assert(s =~= "chest:"@ + s.subrange(6, s.len() as int));
    }
}

/// Archive configuration for a hall
#[derive(Debug, Clone)]
pub struct ArchiveConfig {
    pub hall_id: u128,
    pub enabled: bool,
    /// Time as HHMM (e.g., 2200 for 10 PM)
    pub archive_time: u16,
    pub archive_window: ArchiveWindow,
    pub archive_output: ArchiveOutput,
    pub last_run_at: Option<Timestamp>,
}

impl ArchiveConfig {
    /// The default configuration for a hall: disabled, at 22:00, last 24 hours, into the chest.
    pub fn default_for(hall_id: u128) -> (c: Self)
        ensures
            c.hall_id == hall_id,
            !c.enabled,
            c.archive_time == 2200,
            c.archive_window == ArchiveWindow::Hours24,
            c.archive_output@ == None::<Seq<char>>,
            c.last_run_at is None,
    {
        ArchiveConfig {
            hall_id,
            enabled: false,
            archive_time: 2200,
            archive_window: ArchiveWindow::Hours24,
            archive_output: ArchiveOutput::Chest,
            last_run_at: None,
        }
    }
}

impl Default for ArchiveConfig {
    fn default() -> (c: Self)
        ensures
            c.hall_id == 0,
            !c.enabled,
            c.archive_time == 2200,
            c.archive_window == ArchiveWindow::Hours24,
            c.archive_output@ == None::<Seq<char>>,
            c.last_run_at is None,
    {
        ArchiveConfig::default_for(0)
    }
}

} // verus!

verus! {

/// An Archivist slash command, with its argument already checked.
#[derive(Debug, Clone)]
pub enum ArchiveCommand {
    /// `/archive-now`
    Now,
    /// `/archive-status`
    Status,
    /// `/archive-enable`
    Enable,
    /// `/archive-disable`
    Disable,
    /// `/set-archive-time HHMM` with a valid time
    SetTime(u16),
    /// `/set-archive-time` without an argument
    SetTimeUsage,
    /// `/set-archive-time` with an argument that is not an HHMM time (0000-2359)
    SetTimeInvalid,
    /// `/set-archive-window` with a known window
    SetWindow(ArchiveWindow),
    /// `/set-archive-window` without an argument
    SetWindowUsage,
    /// `/set-archive-window` with an unknown window
    SetWindowInvalid,
    /// `/set-archive-output` with a valid output
    SetOutput(ArchiveOutput),
    /// `/set-archive-output` without an argument
    SetOutputUsage,
    /// `/set-archive-output` with an invalid output
    SetOutputInvalid,
}

/// An Archivist command as a mathematical value.
pub enum ArchiveCommandView {
    Now,
    Status,
    Enable,
    Disable,
    SetTime(u16),
    SetTimeUsage,
    SetTimeInvalid,
    SetWindow(ArchiveWindow),
    SetWindowUsage,
    SetWindowInvalid,
    SetOutput(Option<Seq<char>>),
    SetOutputUsage,
    SetOutputInvalid,
}

impl View for ArchiveCommand {
    type V = ArchiveCommandView;

    open spec fn view(&self) -> ArchiveCommandView {
        match self {
            ArchiveCommand::Now => ArchiveCommandView::Now,
            ArchiveCommand::Status => ArchiveCommandView::Status,
            ArchiveCommand::Enable => ArchiveCommandView::Enable,
            ArchiveCommand::Disable => ArchiveCommandView::Disable,
            ArchiveCommand::SetTime(t) => ArchiveCommandView::SetTime(*t),
            ArchiveCommand::SetTimeUsage => ArchiveCommandView::SetTimeUsage,
            ArchiveCommand::SetTimeInvalid => ArchiveCommandView::SetTimeInvalid,
            ArchiveCommand::SetWindow(w) => ArchiveCommandView::SetWindow(*w),
            ArchiveCommand::SetWindowUsage => ArchiveCommandView::SetWindowUsage,
            ArchiveCommand::SetWindowInvalid => ArchiveCommandView::SetWindowInvalid,
            ArchiveCommand::SetOutput(o) => ArchiveCommandView::SetOutput(o@),
            ArchiveCommand::SetOutputUsage => ArchiveCommandView::SetOutputUsage,
            ArchiveCommand::SetOutputInvalid => ArchiveCommandView::SetOutputInvalid,
        }
    }
}

/// A time of day written as HHMM: hours 00-23 and minutes 00-59.
pub open spec fn is_hhmm(t: u16) -> bool {
    t / 100 <= 23 && t % 100 <= 59
}

/// The command that the whitespace-separated words `ws` of a chat line name.
pub open spec fn spec_archive_command(ws: Seq<Seq<char>>) -> Option<ArchiveCommandView> {
    if ws.len() == 0 {
        None
    } else if ws[0] == "/archive-now"@ {
        Some(ArchiveCommandView::Now)
    } else if ws[0] == "/archive-status"@ {
        Some(ArchiveCommandView::Status)
    } else if ws[0] == "/archive-enable"@ {
        Some(ArchiveCommandView::Enable)
    } else if ws[0] == "/archive-disable"@ {
        Some(ArchiveCommandView::Disable)
    } else if ws[0] == "/set-archive-time"@ {
        if ws.len() < 2 {
            Some(ArchiveCommandView::SetTimeUsage)
        } else {
            match spec_parse_u16(ws[1]) {
                Some(t) => if is_hhmm(t) {
                    Some(ArchiveCommandView::SetTime(t))
                } else {
                    Some(ArchiveCommandView::SetTimeInvalid)
                },
                None => Some(ArchiveCommandView::SetTimeInvalid),
            }
        }
    } else if ws[0] == "/set-archive-window"@ {
        if ws.len() < 2 {
            Some(ArchiveCommandView::SetWindowUsage)
        } else {
            match window_of_lower(lowercase_text(ws[1])) {
                Some(w) => Some(ArchiveCommandView::SetWindow(w)),
                None => Some(ArchiveCommandView::SetWindowInvalid),
            }
        }
    } else if ws[0] == "/set-archive-output"@ {
        if ws.len() < 2 {
            Some(ArchiveCommandView::SetOutputUsage)
        } else {
            match output_of_text(ws[1]) {
                Some(o) => Some(ArchiveCommandView::SetOutput(o)),
                None => Some(ArchiveCommandView::SetOutputInvalid),
            }
        }
    } else {
        None
    }
}

/// Reads an Archivist command from a chat line; `None` when the line is no
/// Archivist command.
pub fn parse_archive_command(command: &str) -> (r: Option<ArchiveCommand>)
    ensures
        match r {
            Some(c) => spec_archive_command(words(command@)) == Some(c@),
            None => spec_archive_command(words(command@)) is None,
        },
{
    let parts = split_words(command);
    let ghost ws = parts@.map_values(|w: Vec<char>| w@);
    assert(ws == words(command@));
    if parts.len() == 0 {
        return None;
    }
    assert(ws[0] == parts[0]@);
    let head = &parts[0];
    if seq_equals(head, &chars_of("/archive-now")) {
        Some(ArchiveCommand::Now)
    } else if seq_equals(head, &chars_of("/archive-status")) {
        Some(ArchiveCommand::Status)
    } else if seq_equals(head, &chars_of("/archive-enable")) {
        Some(ArchiveCommand::Enable)
    } else if seq_equals(head, &chars_of("/archive-disable")) {
        Some(ArchiveCommand::Disable)
    } else if seq_equals(head, &chars_of("/set-archive-time")) {
        if parts.len() < 2 {
            return Some(ArchiveCommand::SetTimeUsage);
        }
        assert(ws[1] == parts[1]@);
        match parse_u16(&parts[1]) {
            Some(t) => if t / 100 <= 23 && t % 100 <= 59 {
                Some(ArchiveCommand::SetTime(t))
            } else {
                Some(ArchiveCommand::SetTimeInvalid)
            },
            None => Some(ArchiveCommand::SetTimeInvalid),
        }
    } else if seq_equals(head, &chars_of("/set-archive-window")) {
        if parts.len() < 2 {
            return Some(ArchiveCommand::SetWindowUsage);
        }
        assert(ws[1] == parts[1]@);
        let arg = string_from_chars(&parts[1]);
        match ArchiveWindow::from_str(arg.as_str()) {
            Some(w) => Some(ArchiveCommand::SetWindow(w)),
            None => Some(ArchiveCommand::SetWindowInvalid),
        }
    } else if seq_equals(head, &chars_of("/set-archive-output")) {
        if parts.len() < 2 {
            return Some(ArchiveCommand::SetOutputUsage);
        }
        assert(ws[1] == parts[1]@);
        let arg = string_from_chars(&parts[1]);
        match ArchiveOutput::from_str(arg.as_str()) {
            Some(o) => Some(ArchiveCommand::SetOutput(o)),
            None => Some(ArchiveCommand::SetOutputInvalid),
        }
    } else {
        None
    }
}

/// The fixed reply the Archivist gives to a command; `None` for the two
/// commands whose reply depends on the stored configuration (`Now`, `Status`).
pub open spec fn spec_command_reply(c: ArchiveCommandView) -> Option<Seq<char>> {
    match c {
        ArchiveCommandView::Now => None,
        ArchiveCommandView::Status => None,
        ArchiveCommandView::Enable => Some("Archivist enabled."@),
        ArchiveCommandView::Disable => Some("Archivist disabled."@),
        ArchiveCommandView::SetTime(t) => Some(
            "Archive time set to "@ + pad_left(decimal(t as nat), 4, '0') + "."@,
        ),
        ArchiveCommandView::SetTimeUsage => Some("Usage: /set-archive-time HHMM (e.g., 2200)"@),
        ArchiveCommandView::SetTimeInvalid => Some("Invalid time. Use HHMM format (0000-2359)."@),
        ArchiveCommandView::SetWindow(w) => Some("Archive window set to "@ + window_name(w) + "."@),
        ArchiveCommandView::SetWindowUsage => Some("Usage: /set-archive-window 12h|24h"@),
        ArchiveCommandView::SetWindowInvalid => Some("Invalid window. Use 12h or 24h."@),
        ArchiveCommandView::SetOutput(o) => Some("Archive output set to "@ + output_text(o) + "."@),
        ArchiveCommandView::SetOutputUsage => Some(
            "Usage: /set-archive-output chest|chest:username"@,
        ),
        ArchiveCommandView::SetOutputInvalid => Some(
            "Invalid output. Use chest or chest:username."@,
        ),
    }
}

/// The fixed reply to a command (see `spec_command_reply`).
pub fn command_reply(c: &ArchiveCommand) -> (r: Option<String>)
    ensures
        match r {
            Some(s) => spec_command_reply(c@) == Some(s@),
            None => spec_command_reply(c@) is None,
        },
{
    match c {
        ArchiveCommand::Now => None,
        ArchiveCommand::Status => None,
        ArchiveCommand::Enable => Some(String::from_str("Archivist enabled.")),
        ArchiveCommand::Disable => Some(String::from_str("Archivist disabled.")),
        ArchiveCommand::SetTime(t) => {
            let mut s = String::from_str("Archive time set to ");
            let p = zero_padded4(*t);
            s.append(p.as_str());
            s.append(".");
            Some(s)
        },
        ArchiveCommand::SetTimeUsage => Some(
            String::from_str("Usage: /set-archive-time HHMM (e.g., 2200)"),
        ),
        ArchiveCommand::SetTimeInvalid => Some(
            String::from_str("Invalid time. Use HHMM format (0000-2359)."),
        ),
        ArchiveCommand::SetWindow(w) => {
            let mut s = String::from_str("Archive window set to ");
            s.append(w.as_str());
            s.append(".");
            Some(s)
        },
        ArchiveCommand::SetWindowUsage => Some(
            String::from_str("Usage: /set-archive-window 12h|24h"),
        ),
        ArchiveCommand::SetWindowInvalid => Some(
            String::from_str("Invalid window. Use 12h or 24h."),
        ),
        ArchiveCommand::SetOutput(o) => {
            let mut s = String::from_str("Archive output set to ");
            let t = o.as_str();
            s.append(t.as_str());
            s.append(".");
            Some(s)
        },
        ArchiveCommand::SetOutputUsage => Some(
            String::from_str("Usage: /set-archive-output chest|chest:username"),
        ),
        ArchiveCommand::SetOutputInvalid => Some(
            String::from_str("Invalid output. Use chest or chest:username."),
        ),
    }
}

/// The configuration a settings command leaves: enabling or disabling, or a
/// new time, window or output; `None` for the commands that change nothing.
pub open spec fn configured_by(c: ArchiveConfig, command: ArchiveCommandView) -> Option<
    (bool, u16, ArchiveWindow, Option<Seq<char>>),
> {
    let now = (c.enabled, c.archive_time, c.archive_window, c.archive_output@);
    match command {
        ArchiveCommandView::Enable => Some((true, now.1, now.2, now.3)),
        ArchiveCommandView::Disable => Some((false, now.1, now.2, now.3)),
        ArchiveCommandView::SetTime(t) => Some((now.0, t, now.2, now.3)),
        ArchiveCommandView::SetWindow(w) => Some((now.0, now.1, w, now.3)),
        ArchiveCommandView::SetOutput(o) => Some((now.0, now.1, now.2, o)),
        _ => None,
    }
}

/// Apply a settings command to a hall's configuration. Returns whether it
/// was one (and the configuration is to be stored).
pub fn apply_archive_command(config: &mut ArchiveConfig, command: &ArchiveCommand) -> (changed: bool)
    ensures
        changed == configured_by(*old(config), command@) is Some,
        match configured_by(*old(config), command@) {
            Some(v) => (final(config).enabled, final(config).archive_time, final(config).archive_window,
                final(config).archive_output@) == v,
            None => final(config).enabled == old(config).enabled && final(config).archive_time
                == old(config).archive_time && final(config).archive_window == old(config).archive_window
                && final(config).archive_output@ == old(config).archive_output@,
        },
        final(config).hall_id == old(config).hall_id,
        final(config).last_run_at == old(config).last_run_at,
{
    match command {
        ArchiveCommand::Enable => {
            config.enabled = true;
            true
        },
        ArchiveCommand::Disable => {
            config.enabled = false;
            true
        },
        ArchiveCommand::SetTime(t) => {
            config.archive_time = *t;
            true
        },
        ArchiveCommand::SetWindow(w) => {
            config.archive_window = *w;
            true
        },
        ArchiveCommand::SetOutput(o) => {
            config.archive_output = match o {
                ArchiveOutput::Chest => ArchiveOutput::Chest,
                ArchiveOutput::ChestUser(u) => ArchiveOutput::ChestUser(u.clone()),
            };
            true
        },
        _ => false,
    }
}

/// Whether a scheduled archive run is due: archiving is configured and
/// enabled, the tick's time is the configured time, and the last tick that
/// ran was not at this same time.
pub open spec fn spec_should_run(config: Option<ArchiveConfig>, last_tick: Option<u16>, now_hhmm: u16) -> bool {
    match config {
        None => false,
        Some(c) => c.enabled && c.archive_time == now_hhmm && last_tick != Some(now_hhmm),
    }
}

/// Decides whether the archive should run at this tick.
pub fn should_run(config: Option<&ArchiveConfig>, last_tick: Option<u16>, current_time: u16) -> (b: bool)
    ensures
        b == spec_should_run(
            match config {
                Some(c) => Some(*c),
                None => None,
            },
            last_tick,
            current_time,
        ),
{
    let config = match config {
        Some(c) => c,
        None => return false,
    };
    // Not enabled
    if !config.enabled {
        return false;
    }
    // Check if time matches
    if config.archive_time != current_time {
        return false;
    }
    // Check if we already ran at this time
    if let Some(last) = last_tick {
        if last == current_time {
            return false;
        }
    }
    true
}

/// The path of the archive file for the given date text (`YYYY-MM-DD`).
pub open spec fn spec_archive_path(output: Option<Seq<char>>, date: Seq<char>) -> Seq<char> {
    match output {
        None => "archives/ARCHIVE_"@ + date + ".md"@,
        Some(u) => "archives/"@ + u + "/ARCHIVE_"@ + date + ".md"@,
    }
}

/// Generate archive file path for a given date text.
pub fn archive_path_for_date(config: &ArchiveConfig, date: &str) -> (p: String)
    ensures
        p@ == spec_archive_path(config.archive_output@, date@),
{
    match &config.archive_output {
        ArchiveOutput::Chest => {
            let mut s = String::from_str("archives/ARCHIVE_");
            s.append(date);
            s.append(".md");
            s
        },
        ArchiveOutput::ChestUser(username) => {
            let mut s = String::from_str("archives/");
            s.append(username.as_str());
            s.append("/ARCHIVE_");
            s.append(date);
            s.append(".md");
            s
        },
    }
}

/// Today's local date and time, written with `pattern`.
///
/// Trusted: calls `chrono::Local::now().format(pattern)`. The formats allowed
/// are valid chrono patterns, so writing them cannot fail. The value depends
/// on the clock and the time zone, so nothing is promised of it.
#[verifier::external_body]
fn local_date_text(pattern: &str) -> (s: String)
    requires
        known_time_format(pattern@),
{
    chrono::Local::now().format(pattern).to_string()
}

/// Generate archive file path for today's local date.
pub fn archive_path(config: &ArchiveConfig) -> (p: String)
    ensures
        exists|date: Seq<char>| p@ == spec_archive_path(config.archive_output@, date),
{
    let date = local_date_text("%Y-%m-%d");
    archive_path_for_date(config, date.as_str())
}

/// Seconds in an hour.
pub open spec fn hour_secs() -> int {
    3600
}

/// Where the archive window begins, given the current time.
pub open spec fn spec_window_start(window: ArchiveWindow, last_run: Option<Timestamp>, now: Timestamp) -> Timestamp {
    match window {
        ArchiveWindow::Hours12 => Timestamp { secs: (now.secs - 12 * hour_secs()) as i64, nanos: now.nanos },
        ArchiveWindow::Hours24 => Timestamp { secs: (now.secs - 24 * hour_secs()) as i64, nanos: now.nanos },
        ArchiveWindow::SinceLastRun => match last_run {
            Some(t) => t,
            None => Timestamp { secs: (now.secs - 24 * hour_secs()) as i64, nanos: now.nanos },
        },
    }
}

/// The start of the archive window.
pub fn window_start(window: ArchiveWindow, last_run: Option<Timestamp>, now: Timestamp) -> (t: Timestamp)
    requires
        now.secs >= i64::MIN + 86400,
    ensures
        t == spec_window_start(window, last_run, now),
{
    match window {
        ArchiveWindow::Hours12 => Timestamp { secs: now.secs - 43200, nanos: now.nanos },
        ArchiveWindow::Hours24 => Timestamp { secs: now.secs - 86400, nanos: now.nanos },
        ArchiveWindow::SinceLastRun => match last_run {
            Some(t) => t,
            None => Timestamp { secs: now.secs - 86400, nanos: now.nanos },
        },
    }
}

} // verus!
