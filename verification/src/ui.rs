//! What the terminal front end shows and takes: log events, the buttons that
//! toggle providers, and the facts of the running server.
//!
//! Nothing here touches a terminal. Times are plain numbers: a log entry
//! carries the UNIX second at which it was made.

use std::collections::VecDeque;
use vstd::prelude::*;
use vstd::string::*;
use crate::clock::local_now;
use crate::chars::chars_of;
use crate::network::NetworkStatus;
use crate::provider::Provider;
use crate::text::{append_decimal, decimal_text};

verus! {

/// Entries that a log keeps when nothing else is asked for.
pub const DEFAULT_MAX_LOGS: usize = 100;

/// First screen row that shows a provider in the status table.
pub const FIRST_TABLE_ROW: u16 = 6;

/// Column at which the toggle button of a table row starts.
pub const BUTTON_START_COLUMN: u16 = 72;

/// Width of the column that holds the toggle button.
pub const BUTTON_COLUMN_WIDTH: u16 = 10;

/// Weight of a log event.
#[derive(Clone, Copy, Debug, PartialEq, Eq)]
pub enum LogLevel {
    Info,
    Success,
    Warning,
    Error,
    Debug,
}

/// The colours in which log events are shown.
#[derive(Clone, Copy, Debug, PartialEq, Eq)]
pub enum LogColor {
    Cyan,
    Green,
    Yellow,
    Red,
    DarkGrey,
}

impl LogLevel {
    pub open spec fn spec_color(self) -> LogColor {
        match self {
            LogLevel::Info => LogColor::Cyan,
            LogLevel::Success => LogColor::Green,
            LogLevel::Warning => LogColor::Yellow,
            LogLevel::Error => LogColor::Red,
            LogLevel::Debug => LogColor::DarkGrey,
        }
    }

    pub open spec fn spec_icon(self) -> Seq<char> {
        match self {
            LogLevel::Info => "ℹ️"@,
            LogLevel::Success => "✅"@,
            LogLevel::Warning => "⚠️"@,
            LogLevel::Error => "❌"@,
            LogLevel::Debug => "🔍"@,
        }
    }

    /// The colour in which events of this level are shown.
    pub fn color(&self) -> (r: LogColor)
        ensures
            r == self.spec_color(),
    {
        match self {
            LogLevel::Info => LogColor::Cyan,
            LogLevel::Success => LogColor::Green,
            LogLevel::Warning => LogColor::Yellow,
            LogLevel::Error => LogColor::Red,
            LogLevel::Debug => LogColor::DarkGrey,
        }
    }

    /// The icon that stands before events of this level.
    pub fn icon(&self) -> (r: &'static str)
        ensures
            r@ == self.spec_icon(),
    {
        match self {
            LogLevel::Info => "ℹ️",
            LogLevel::Success => "✅",
            LogLevel::Warning => "⚠️",
            LogLevel::Error => "❌",
            LogLevel::Debug => "🔍",
        }
    }
}

/// One log event.
#[derive(Clone, Debug)]
pub struct LogEntry {
    /// UNIX second at which the event was logged.
    pub timestamp: i64,
    pub level: LogLevel,
    pub message: String,
}

/// The last `max` of `entries`.
pub open spec fn last_of(entries: Seq<LogEntry>, max: nat) -> Seq<LogEntry> {
    if entries.len() > max {
        entries.subrange(entries.len() - max, entries.len() as int)
    } else {
        entries
    }
}

/// A bounded log: it keeps the most recent events and drops the oldest.
pub struct Logger {
    logs: VecDeque<LogEntry>,
    max_logs: usize,
}

impl Logger {
    /// The events kept, oldest first.
    pub closed spec fn entries(&self) -> Seq<LogEntry> {
        self.logs@
    }

    /// The most events that are kept.
    pub closed spec fn capacity(&self) -> nat {
        self.max_logs as nat
    }

    /// An empty log that keeps a hundred events.
    pub fn new() -> (r: Logger)
        ensures
            r.entries().len() == 0,
            r.capacity() == DEFAULT_MAX_LOGS,
    {
        Logger { logs: VecDeque::new(), max_logs: DEFAULT_MAX_LOGS }
    }

    /// An empty log that keeps `max_logs` events.
    pub fn with_capacity(max_logs: usize) -> (r: Logger)
        ensures
            r.entries().len() == 0,
            r.capacity() == max_logs,
    {
        Logger { logs: VecDeque::new(), max_logs }
    }

    /// Number of events kept.
    pub fn len(&self) -> (r: usize)
        ensures
            r == self.entries().len(),
    {
        self.logs.len()
    }

    /// The event at place `i`, the oldest being at place 0.
    pub fn entry(&self, i: usize) -> (r: &LogEntry)
        requires
            i < self.entries().len(),
        ensures
            *r == self.entries()[i as int],
    {
        &self.logs[i]
    }

    /// Adds an event, and drops the oldest events beyond the capacity.
    pub fn log_at(&mut self, timestamp: i64, level: LogLevel, message: String)
        ensures
            final(self).capacity() == old(self).capacity(),
            final(self).entries() == last_of(
                old(self).entries().push(LogEntry { timestamp, level, message }),
                old(self).capacity(),
            ),
    {
        let entry = LogEntry { timestamp, level, message };
        let ghost all = self.logs@.push(entry);
        self.logs.push_back(entry);
        while self.logs.len() > self.max_logs
            invariant
                self.max_logs == old(self).max_logs,
                self.logs@.len() <= all.len(),
                self.logs@.len() == all.len() || self.logs@.len() >= self.max_logs,
                self.logs@ == all.subrange(all.len() - self.logs@.len(), all.len() as int),
            decreases self.logs.len(),
        {
            let _ = self.logs.pop_front();
            assert(self.logs@ =~= all.subrange(all.len() - self.logs@.len(), all.len() as int));
        }
        assert(self.logs@ =~= last_of(all, self.max_logs as nat));
    }

    /// Logs a piece of information.
    pub fn info_at(&mut self, timestamp: i64, message: String)
        ensures
            final(self).capacity() == old(self).capacity(),
            final(self).entries() == last_of(
                old(self).entries().push(LogEntry { timestamp, level: LogLevel::Info, message }),
                old(self).capacity(),
            ),
    {
        self.log_at(timestamp, LogLevel::Info, message);
    }

    /// Logs a success.
    pub fn success_at(&mut self, timestamp: i64, message: String)
        ensures
            final(self).capacity() == old(self).capacity(),
            final(self).entries() == last_of(
                old(self).entries().push(LogEntry { timestamp, level: LogLevel::Success, message }),
                old(self).capacity(),
            ),
    {
        self.log_at(timestamp, LogLevel::Success, message);
    }

    /// Logs a warning.
    pub fn warning_at(&mut self, timestamp: i64, message: String)
        ensures
            final(self).capacity() == old(self).capacity(),
            final(self).entries() == last_of(
                old(self).entries().push(LogEntry { timestamp, level: LogLevel::Warning, message }),
                old(self).capacity(),
            ),
    {
        self.log_at(timestamp, LogLevel::Warning, message);
    }

    /// Logs an error.
    pub fn error_at(&mut self, timestamp: i64, message: String)
        ensures
            final(self).capacity() == old(self).capacity(),
            final(self).entries() == last_of(
                old(self).entries().push(LogEntry { timestamp, level: LogLevel::Error, message }),
                old(self).capacity(),
            ),
    {
        self.log_at(timestamp, LogLevel::Error, message);
    }

    /// Logs a detail for debugging.
    pub fn debug_at(&mut self, timestamp: i64, message: String)
        ensures
            final(self).capacity() == old(self).capacity(),
            final(self).entries() == last_of(
                old(self).entries().push(LogEntry { timestamp, level: LogLevel::Debug, message }),
                old(self).capacity(),
            ),
    {
        self.log_at(timestamp, LogLevel::Debug, message);
    }

    /// The place of the first event shown in a log area of `height` rows:
    /// the area shows the most recent events that fit.
    pub fn first_visible(&self, height: u16) -> (r: usize)
        ensures
            r as int == if self.entries().len() > height {
                self.entries().len() - height
            } else {
                0
            },
    {
        let total = self.logs.len();
        let visible = height as usize;
        if total > visible {
            total - visible
        } else {
            0
        }
    }
}

/// Where the toggle button of one provider lies on the screen.
#[derive(Clone, Debug)]
pub struct ProviderButton {
    pub provider_name: String,
    pub row: u16,
    pub start_col: u16,
    pub end_col: u16,
}

impl ProviderButton {
    /// Whether a click at (`column`, `row`) lands on the button. Both end
    /// columns belong to it.
    pub open spec fn covers(self, column: u16, row: u16) -> bool {
        row == self.row && self.start_col <= column <= self.end_col
    }

    /// Whether a click at (`column`, `row`) lands on the button.
    pub fn is_hit(&self, column: u16, row: u16) -> (r: bool)
        ensures
            r == self.covers(column, row),
    {
        row == self.row && column >= self.start_col && column <= self.end_col
    }
}

/// The buttons of the status table: one per provider, from the first table
/// row down, for as many providers as the screen has row numbers for.
pub fn layout_buttons(providers: &Vec<Provider>) -> (r: Vec<ProviderButton>)
    ensures
        r.len() <= providers.len(),
        r.len() == providers.len() || r.len() == u16::MAX - FIRST_TABLE_ROW + 1,
        providers.len() <= u16::MAX - FIRST_TABLE_ROW ==> r.len() == providers.len(),
        forall|i: int|
            0 <= i < r.len() ==> {
                &&& (#[trigger] r[i]).provider_name@ == providers[i].name@
                &&& r[i].row == FIRST_TABLE_ROW + i
                &&& r[i].start_col == BUTTON_START_COLUMN
                &&& r[i].end_col == BUTTON_START_COLUMN + BUTTON_COLUMN_WIDTH
            },
{
    let mut out: Vec<ProviderButton> = Vec::new();
    let mut i: usize = 0;
    let mut row: u16 = FIRST_TABLE_ROW;
    while i < providers.len()
        invariant
            i <= providers.len(),
            out.len() == i,
            row == FIRST_TABLE_ROW + i,
            forall|j: int|
                0 <= j < out.len() ==> {
                    &&& (#[trigger] out[j]).provider_name@ == providers[j].name@
                    &&& out[j].row == FIRST_TABLE_ROW + j
                    &&& out[j].start_col == BUTTON_START_COLUMN
                    &&& out[j].end_col == BUTTON_START_COLUMN + BUTTON_COLUMN_WIDTH
                },
        decreases providers.len() - i,
    {
        out.push(
            ProviderButton {
                provider_name: providers[i].name.clone(),
                row,
                start_col: BUTTON_START_COLUMN,
                end_col: BUTTON_START_COLUMN + BUTTON_COLUMN_WIDTH,
            },
        );
        if row == u16::MAX {
            return out;
        }
        row = row + 1;
        i = i + 1;
    }
    out
}

/// What the front end hears from the terminal.
#[derive(Clone, Copy, Debug, PartialEq, Eq)]
pub enum UiEvent {
    /// A character key, with or without the control key.
    Char { c: char, control: bool },
    /// The escape key.
    Escape,
    /// A press of the left mouse button.
    Click { column: u16, row: u16 },
    /// Anything else.
    Other,
}

/// What the front end does about an event.
#[derive(Clone, Debug, PartialEq, Eq)]
pub enum UiAction {
    /// Leave the program.
    Exit,
    /// Toggle the provider of this name.
    Toggle(String),
    /// Nothing.
    Nothing,
}

/// Whether an event asks to leave: `q` in either case, control with `c`, or
/// escape.
pub open spec fn asks_exit(event: UiEvent) -> bool {
    match event {
        UiEvent::Char { c, control } => c == 'q' || c == 'Q' || (c == 'c' && control),
        UiEvent::Escape => true,
        _ => false,
    }
}

/// Whether an event asks to leave.
pub fn is_exit_event(event: UiEvent) -> (r: bool)
    ensures
        r == asks_exit(event),
{
    match event {
        UiEvent::Char { c, control } => c == 'q' || c == 'Q' || (c == 'c' && control),
        UiEvent::Escape => true,
        _ => false,
    }
}

/// The first button that a click at (`column`, `row`) lands on.
pub fn button_at(buttons: &Vec<ProviderButton>, column: u16, row: u16) -> (r: Option<usize>)
    ensures
        match r {
            Some(i) => {
                &&& i < buttons.len()
                &&& buttons[i as int].covers(column, row)
                &&& forall|j: int| 0 <= j < i ==> !buttons[j].covers(column, row)
            },
            None => forall|j: int| 0 <= j < buttons.len() ==> !buttons[j].covers(column, row),
        },
{
    let mut i: usize = 0;
    while i < buttons.len()
        invariant
            i <= buttons.len(),
            forall|j: int| 0 <= j < i ==> !buttons[j].covers(column, row),
        decreases buttons.len() - i,
    {
        if buttons[i].is_hit(column, row) {
            return Some(i);
        }
        i = i + 1;
    }
    None
}

/// What to do about an event: leave on a key that asks for it, toggle the
/// provider whose button a click lands on, else nothing.
pub fn action_for(buttons: &Vec<ProviderButton>, event: UiEvent) -> (r: UiAction)
    ensures
        asks_exit(event) <==> r is Exit,
        match event {
            UiEvent::Click { column, row } => match r {
                UiAction::Toggle(name) => exists|i: int|
                    {
                        &&& 0 <= i < buttons.len()
                        &&& buttons[i].covers(column, row)
                        &&& buttons[i].provider_name@ == name@
                        &&& forall|j: int| 0 <= j < i ==> !buttons[j].covers(column, row)
                    },
                _ => forall|j: int| 0 <= j < buttons.len() ==> !buttons[j].covers(column, row),
            },
            _ => !(r is Toggle),
        },
{
    if is_exit_event(event) {
        return UiAction::Exit;
    }
    match event {
        UiEvent::Click { column, row } => match button_at(buttons, column, row) {
            Some(i) => {
                let name = buttons[i].provider_name.clone();
                assert(buttons[i as int].covers(column, row) && buttons[i as int].provider_name@
                    == name@);
                UiAction::Toggle(name)
            },
            None => UiAction::Nothing,
        },
        _ => UiAction::Nothing,
    }
}

/// Seconds from `start` to `now`; zero if `now` lies before `start`.
pub open spec fn seconds_between(start: i64, now: i64) -> int {
    if now >= start {
        now - start
    } else {
        0
    }
}

/// Facts of the running server.
pub struct ServerInfo {
    pub port: u16,
    pub rate_limit: usize,
    /// UNIX second at which the server started.
    pub start_time: i64,
    pub network_status: NetworkStatus,
}

impl ServerInfo {
    /// The facts of a server started at `now`.
    pub fn new_at(port: u16, rate_limit: usize, now: i64) -> (r: ServerInfo)
        ensures
            r.port == port,
            r.rate_limit == rate_limit,
            r.start_time == now,
            !r.network_status.is_online,
            r.network_status.latency_ms is None,
            !r.network_status.dns_working,
            r.network_status.external_ip is None,
            r.network_status.error_message is None,
    {
        ServerInfo { port, rate_limit, start_time: now, network_status: NetworkStatus::new() }
    }

    /// Seconds that the server has run at `now`; zero if the clock is behind
    /// the start.
    pub fn uptime_at(&self, now: i64) -> (r: u64)
        ensures
            r == seconds_between(self.start_time, now),
    {
        if now >= self.start_time {
            if self.start_time >= 0 {
                (now - self.start_time) as u64
            } else {
                let back: u64 = (-(self.start_time + 1)) as u64 + 1;
                if now >= 0 {
                    (now as u64) + back
                } else {
                    back - ((-(now + 1)) as u64 + 1)
                }
            }
        } else {
            0
        }
    }

    /// Replaces what is known of the network.
    pub fn update_network_status(&mut self, status: NetworkStatus)
        ensures
            final(self).network_status == status,
            final(self).port == old(self).port,
            final(self).rate_limit == old(self).rate_limit,
            final(self).start_time == old(self).start_time,
    {
        self.network_status = status;
    }

    /// What is known of the network.
    pub fn get_network_status(&self) -> (r: &NetworkStatus)
        ensures
            *r == self.network_status,
    {
        &self.network_status
    }
}

/// A duration in words: hours, minutes and seconds, the larger units only
/// where they are not zero.
pub open spec fn duration_text(total_seconds: u64) -> Seq<char> {
    let hours = (total_seconds / 3600) as nat;
    let minutes = ((total_seconds % 3600) / 60) as nat;
    let seconds = (total_seconds % 60) as nat;
    if hours > 0 {
        decimal_text(hours) + seq!['h'] + decimal_text(minutes) + seq!['m'] + decimal_text(seconds)
            + seq!['s']
    } else if minutes > 0 {
        decimal_text(minutes) + seq!['m'] + decimal_text(seconds) + seq!['s']
    } else {
        decimal_text(seconds) + seq!['s']
    }
}

/// A duration of `total_seconds` in words.
pub fn format_duration(total_seconds: u64) -> (r: String)
    ensures
        r@ == duration_text(total_seconds),
{
    proof {
        reveal_strlit("h");
        reveal_strlit("m");
        reveal_strlit("s");
    }
    assert("h"@ =~= seq!['h'] && "m"@ =~= seq!['m'] && "s"@ =~= seq!['s']);
    let hours = total_seconds / 3600;
    let minutes = (total_seconds % 3600) / 60;
    let seconds = total_seconds % 60;
    let mut out = String::new();
    if hours > 0 {
        append_decimal(&mut out, hours);
        out.append("h");
        append_decimal(&mut out, minutes);
        out.append("m");
    } else if minutes > 0 {
        append_decimal(&mut out, minutes);
        out.append("m");
    }
    append_decimal(&mut out, seconds);
    out.append("s");
    assert(out@ =~= duration_text(total_seconds));
    out
}

/// Whether a character is one of the icons that take two columns.
pub open spec fn is_icon(c: char) -> bool {
    let cp = c as u32;
    ||| cp == 0x1F680
    ||| cp == 0x1F4CA
    ||| cp == 0x1F7E2
    ||| cp == 0x1F7E1
    ||| cp == 0x1F7E0
    ||| cp == 0x1F534
    ||| cp == 0x1F480
    ||| cp == 0x2705
    ||| cp == 0x1F6AB
    ||| cp == 0x274C
    ||| cp == 0x1F50D
}

/// Whether a character is a sign that takes two columns together with the
/// variation selector that may follow it.
pub open spec fn is_sign(c: char) -> bool {
    c as u32 == 0x2139 || c as u32 == 0x26A0
}

/// The variation selector, which alone takes no column.
pub open spec fn is_selector(c: char) -> bool {
    c as u32 == 0xFE0F
}

/// Whether a character is a common CJK ideograph.
pub open spec fn is_ideograph(c: char) -> bool {
    0x4E00 <= c as u32 <= 0x9FFF
}

/// Columns that `text` takes from place `from` on: two for an icon, for a
/// sign with its selector, and for an ideograph; none for a selector alone;
/// one for anything else.
pub open spec fn shown_width(text: Seq<char>, from: int) -> nat
    decreases text.len() - from,
{
    if from < 0 || from >= text.len() {
        0
    } else {
        let c = text[from];
        if is_icon(c) || is_ideograph(c) {
            2 + shown_width(text, from + 1)
        } else if is_sign(c) {
            if from + 1 < text.len() && is_selector(text[from + 1]) {
                2 + shown_width(text, from + 2)
            } else {
                2 + shown_width(text, from + 1)
            }
        } else if is_selector(c) {
            shown_width(text, from + 1)
        } else {
            1 + shown_width(text, from + 1)
        }
    }
}

/// The width of a text is at most twice its length.
pub proof fn lemma_shown_width_bound(text: Seq<char>, from: int)
    requires
        0 <= from <= text.len(),
    ensures
        shown_width(text, from) <= 2 * (text.len() - from),
    decreases text.len() - from,
{
    if from < text.len() {
        lemma_shown_width_bound(text, from + 1);
        if from + 1 < text.len() {
            lemma_shown_width_bound(text, from + 2);
        }
    }
}

/// Columns that `s` takes on a terminal. The result stays at the largest
/// number that fits.
pub fn display_width(s: &str) -> (r: usize)
    ensures
        r as nat == if shown_width(s@, 0) <= usize::MAX {
            shown_width(s@, 0)
        } else {
            usize::MAX as nat
        },
{
    let chars = chars_of(s);
    let n = chars.len();
    let mut width: usize = 0;
    let mut i: usize = 0;
    let ghost total = shown_width(s@, 0);
    while i < n
        invariant
            chars@ == s@,
            n == s@.len(),
            i <= n,
            total == shown_width(s@, 0),
            width < usize::MAX ==> width + shown_width(s@, i as int) == total,
            width == usize::MAX ==> total >= usize::MAX,
        decreases n - i,
    {
        let c = chars[i];
        let cp = c as u32;
        let icon = cp == 0x1F680 || cp == 0x1F4CA || cp == 0x1F7E2 || cp == 0x1F7E1 || cp == 0x1F7E0
            || cp == 0x1F534 || cp == 0x1F480 || cp == 0x2705 || cp == 0x1F6AB || cp == 0x274C || cp
            == 0x1F50D;
        assert(icon == is_icon(c));
        let mut step: usize = 1;
        let w: usize = if icon || (0x4E00 <= cp && cp <= 0x9FFF) {
            2
        } else if cp == 0x2139 || cp == 0x26A0 {
            if i + 1 < n && chars[i + 1] as u32 == 0xFE0F {
                step = 2;
            }
            2
        } else if cp == 0xFE0F {
            0
        } else {
            1
        };
        width = if width > usize::MAX - w {
            usize::MAX
        } else {
            width + w
        };
        i = i + step;
    }
    width
}

/// How a text stands in a cell that is wider than it.
#[derive(Clone, Copy, Debug, PartialEq, Eq)]
pub enum TextAlign {
    Center,
    Right,
}

/// Whether a character is one of the icons that take two columns in a cell.
pub open spec fn is_cell_icon(c: char) -> bool {
    is_icon(c) && c as u32 != 0x1F50D
}

/// Columns that a character takes where a text is cut to fit a cell.
pub open spec fn cell_width(c: char) -> nat {
    if is_cell_icon(c) || is_ideograph(c) {
        2
    } else {
        1
    }
}

/// A run of `n` spaces.
pub open spec fn spaces(n: int) -> Seq<char> {
    Seq::new(
        if n > 0 {
            n as nat
        } else {
            0
        },
        |i: int| ' ',
    )
}

/// A text cut to a cell of `width` columns, from place `from` on, when
/// `used` columns are taken: characters go in while one column stays free;
/// where the next does not fit, an ellipsis stands for the rest; spaces fill
/// the cell.
pub open spec fn cut(text: Seq<char>, from: int, used: int, width: int) -> Seq<char>
    decreases text.len() - from,
{
    if from < 0 || from >= text.len() {
        spaces(width - used)
    } else if used + cell_width(text[from]) <= width - 1 {
        seq![text[from]] + cut(text, from + 1, used + cell_width(text[from]), width)
    } else {
        seq!['\u{2026}'] + spaces(width - (used + 1))
    }
}

/// A text in a cell of `width` columns: cut where it takes the whole cell or
/// more, else with spaces around it or before it.
pub open spec fn in_cell(text: Seq<char>, width: nat, align: TextAlign) -> Seq<char> {
    let shown = shown_width(text, 0);
    if shown >= width {
        cut(text, 0, 0, width as int)
    } else {
        let padding = width - shown;
        match align {
            TextAlign::Center => spaces(padding / 2) + text + spaces(padding - padding / 2),
            TextAlign::Right => spaces(padding) + text,
        }
    }
}

/// Appends `n` spaces to `out`.
fn append_spaces(out: &mut String, n: usize)
    ensures
        final(out)@ == old(out)@ + spaces(n as int),
{
    proof {
        reveal_strlit(" ");
    }
    let mut i: usize = 0;
    assert(out@ =~= old(out)@ + spaces(0));
    while i < n
        invariant
            i <= n,
            out@ == old(out)@ + spaces(i as int),
        decreases n - i,
    {
        proof {
            reveal_strlit(" ");
        }
        assert(" "@ =~= seq![' ']);
        out.append(" ");
        assert(out@ =~= old(out)@ + spaces(i + 1));
        i = i + 1;
    }
}

/// A text in a cell of `width` columns.
pub fn format_text_with_width(text: &str, width: usize, align: TextAlign) -> (r: String)
    requires
        width >= 1 || text@.len() == 0,
    ensures
        r@ == in_cell(text@, width as nat, align),
{
    let shown = display_width(text);
    let mut out = String::new();
    if shown >= width {
        let n = text.unicode_len();
        let mut used: usize = 0;
        let mut i: usize = 0;
        assert(out@ + cut(text@, 0, 0, width as int) =~= cut(text@, 0, 0, width as int));
        while i < n
            invariant
                n == text@.len(),
                i <= n,
                used <= width,
                width >= 1 ==> used <= width - 1,
                i < n ==> width >= 1,
                out@ + cut(text@, i as int, used as int, width as int) == in_cell(
                    text@,
                    width as nat,
                    align,
                ),
            decreases n - i,
        {
            let c = text.get_char(i);
            let cp = c as u32;
            let w: usize = if cp == 0x1F680 || cp == 0x1F4CA || cp == 0x1F7E2 || cp == 0x1F7E1 || cp
                == 0x1F7E0 || cp == 0x1F534 || cp == 0x1F480 || cp == 0x2705 || cp == 0x1F6AB || cp
                == 0x274C || (0x4E00 <= cp && cp <= 0x9FFF) {
                2
            } else {
                1
            };
            assert(w as nat == cell_width(c));
            let ghost before = out@;
            if w <= width - 1 && used <= width - 1 - w {
                out.append(text.substring_char(i, i + 1));
                assert(text@.subrange(i as int, i + 1) =~= seq![c]);
                assert(out@ + cut(text@, i + 1, used + w, width as int) =~= before + cut(
                    text@,
                    i as int,
                    used as int,
                    width as int,
                ));
                used = used + w;
                i = i + 1;
            } else {
                proof {
                    reveal_strlit("…");
                }
                assert("…"@ =~= seq!['\u{2026}']);
                out.append("…");
                append_spaces(&mut out, width - (used + 1));
                assert(out@ =~= before + cut(text@, i as int, used as int, width as int));
                return out;
            }
        }
        append_spaces(&mut out, width - used);
        out
    } else {
        proof {
            lemma_shown_width_bound(text@, 0);
        }
        let padding = width - shown;
        match align {
            TextAlign::Center => {
                let left = padding / 2;
                append_spaces(&mut out, left);
                out.append(text);
                append_spaces(&mut out, padding - left);
                assert(out@ =~= in_cell(text@, width as nat, align));
            },
            TextAlign::Right => {
                append_spaces(&mut out, padding);
                out.append(text);
                assert(out@ =~= in_cell(text@, width as nat, align));
            },
        }
        out
    }
}

/// The cells of a table row, one behind the other.
pub fn format_table_row(
    status: &str,
    name: &str,
    health: &str,
    rate: &str,
    token: &str,
    status_code: &str,
    action: &str,
) -> (r: String)
    ensures
        r@ == status@ + name@ + health@ + rate@ + token@ + status_code@ + action@,
{
    let mut out = String::from_str(status);
    out.append(name);
    out.append(health);
    out.append(rate);
    out.append(token);
    out.append(status_code);
    out.append(action);
    out
}

/// The icon for a health score: green from 90, yellow from 70, orange from
/// 40, red from 20, and a skull below.
pub open spec fn score_icon_of(score: u8) -> Seq<char> {
    if 90 <= score <= 100 {
        "🟢"@
    } else if 70 <= score <= 89 {
        "🟡"@
    } else if 40 <= score <= 69 {
        "🟠"@
    } else if 20 <= score <= 39 {
        "🔴"@
    } else {
        "💀"@
    }
}

/// The icon for a health score.
pub fn score_icon(score: u8) -> (r: &'static str)
    ensures
        r@ == score_icon_of(score),
{
    if 90 <= score && score <= 100 {
        "🟢"
    } else if 70 <= score && score <= 89 {
        "🟡"
    } else if 40 <= score && score <= 69 {
        "🟠"
    } else if 20 <= score && score <= 39 {
        "🔴"
    } else {
        "💀"
    }
}

/// The last status of a provider in words: the number, `网络错误` for a
/// network error, and `--` if it never answered.
pub open spec fn status_code_text_of(last: Option<u16>) -> Seq<char> {
    match last {
        Some(code) => if code == 0 {
            "网络错误"@
        } else {
            decimal_text(code as nat)
        },
        None => "--"@,
    }
}

/// The last status of a provider in words.
pub fn status_code_text(last: Option<u16>) -> (r: String)
    ensures
        r@ == status_code_text_of(last),
{
    match last {
        Some(code) => {
            if code == 0 {
                String::from_str("网络错误")
            } else {
                let mut out = String::new();
                append_decimal(&mut out, code as u64);
                assert(out@ =~= decimal_text(code as nat));
                out
            }
        },
        None => String::from_str("--"),
    }
}

/// The colour of a last status: green for success, yellow from 400, red
/// from 500, grey for anything else.
pub open spec fn status_code_color_of(last: Option<u16>) -> LogColor {
    match last {
        Some(code) => if 200 <= code < 300 {
            LogColor::Green
        } else if 400 <= code < 500 {
            LogColor::Yellow
        } else if code >= 500 {
            LogColor::Red
        } else {
            LogColor::DarkGrey
        },
        None => LogColor::DarkGrey,
    }
}

/// The colour of a last status.
pub fn status_code_color(last: Option<u16>) -> (r: LogColor)
    ensures
        r == status_code_color_of(last),
{
    match last {
        Some(code) => {
            if code == 0 {
                LogColor::DarkGrey
            } else if code >= 200 && code < 300 {
                LogColor::Green
            } else if code >= 400 && code < 500 {
                LogColor::Yellow
            } else if code >= 500 {
                LogColor::Red
            } else {
                LogColor::DarkGrey
            }
        },
        None => LogColor::DarkGrey,
    }
}

impl Logger {
    /// Adds an event made now.
    pub fn log(&mut self, level: LogLevel, message: String)
        ensures
            final(self).capacity() == old(self).capacity(),
            exists|timestamp: i64|
                final(self).entries() == last_of(
                    old(self).entries().push(LogEntry { timestamp, level, message }),
                    old(self).capacity(),
                ),
    {
        self.log_at(local_now(), level, message);
    }

    /// Logs a piece of information now.
    pub fn info(&mut self, message: String)
        ensures
            final(self).capacity() == old(self).capacity(),
            exists|timestamp: i64|
                final(self).entries() == last_of(
                    old(self).entries().push(LogEntry { timestamp, level: LogLevel::Info, message }),
                    old(self).capacity(),
                ),
    {
        self.log_at(local_now(), LogLevel::Info, message);
    }

    /// Logs a success now.
    pub fn success(&mut self, message: String)
        ensures
            final(self).capacity() == old(self).capacity(),
            exists|timestamp: i64|
                final(self).entries() == last_of(
                    old(self).entries().push(
                        LogEntry { timestamp, level: LogLevel::Success, message },
                    ),
                    old(self).capacity(),
                ),
    {
        self.log_at(local_now(), LogLevel::Success, message);
    }

    /// Logs a warning now.
    pub fn warning(&mut self, message: String)
        ensures
            final(self).capacity() == old(self).capacity(),
            exists|timestamp: i64|
                final(self).entries() == last_of(
                    old(self).entries().push(
                        LogEntry { timestamp, level: LogLevel::Warning, message },
                    ),
                    old(self).capacity(),
                ),
    {
        self.log_at(local_now(), LogLevel::Warning, message);
    }

    /// Logs an error now.
    pub fn error(&mut self, message: String)
        ensures
            final(self).capacity() == old(self).capacity(),
            exists|timestamp: i64|
                final(self).entries() == last_of(
                    old(self).entries().push(LogEntry { timestamp, level: LogLevel::Error, message }),
                    old(self).capacity(),
                ),
    {
        self.log_at(local_now(), LogLevel::Error, message);
    }

    /// Logs a detail for debugging now.
    pub fn debug(&mut self, message: String)
        ensures
            final(self).capacity() == old(self).capacity(),
            exists|timestamp: i64|
                final(self).entries() == last_of(
                    old(self).entries().push(LogEntry { timestamp, level: LogLevel::Debug, message }),
                    old(self).capacity(),
                ),
    {
        self.log_at(local_now(), LogLevel::Debug, message);
    }
}

impl ServerInfo {
    /// The facts of a server started now.
    pub fn new(port: u16, rate_limit: usize) -> (r: ServerInfo)
        ensures
            r.port == port,
            r.rate_limit == rate_limit,
            !r.network_status.is_online,
            r.network_status.latency_ms is None,
            !r.network_status.dns_working,
            r.network_status.external_ip is None,
            r.network_status.error_message is None,
    {
        ServerInfo::new_at(port, rate_limit, local_now())
    }

    /// Seconds that the server has run by now; zero if the clock is behind
    /// the start.
    pub fn uptime(&self) -> (r: u64)
        ensures
            exists|now: i64| r == seconds_between(self.start_time, now),
    {
        self.uptime_at(local_now())
    }
}

/// The colours in which health scores are shown.
#[derive(Clone, Copy, Debug, PartialEq, Eq)]
pub enum ScoreColor {
    Green,
    Yellow,
    DarkYellow,
    Red,
    DarkRed,
}

/// The colour for a health score, by the steps of the icons.
pub open spec fn score_color_of(score: u8) -> ScoreColor {
    if 90 <= score <= 100 {
        ScoreColor::Green
    } else if 70 <= score <= 89 {
        ScoreColor::Yellow
    } else if 40 <= score <= 69 {
        ScoreColor::DarkYellow
    } else if 20 <= score <= 39 {
        ScoreColor::Red
    } else {
        ScoreColor::DarkRed
    }
}

/// The colour for a health score.
pub fn score_color(score: u8) -> (r: ScoreColor)
    ensures
        r == score_color_of(score),
{
    if 90 <= score && score <= 100 {
        ScoreColor::Green
    } else if 70 <= score && score <= 89 {
        ScoreColor::Yellow
    } else if 40 <= score && score <= 69 {
        ScoreColor::DarkYellow
    } else if 20 <= score && score <= 39 {
        ScoreColor::Red
    } else {
        ScoreColor::DarkRed
    }
}

/// Width of the column that holds provider names in a plain list.
pub const NAME_COLUMN_WIDTH: usize = 15;

/// Spaces that follow a name of `width` columns in a plain list: what the
/// name column has left, and one where the name fills it or is wider.
pub open spec fn name_padding_of(width: nat) -> nat {
    if width < NAME_COLUMN_WIDTH as nat {
        (NAME_COLUMN_WIDTH as nat - width) as nat
    } else {
        1
    }
}

/// Spaces that follow a name of `width` columns in a plain list.
pub fn name_padding(width: usize) -> (r: usize)
    ensures
        r as nat == name_padding_of(width as nat),
{
    if width < NAME_COLUMN_WIDTH {
        NAME_COLUMN_WIDTH - width
    } else {
        1
    }
}

} // verus!
