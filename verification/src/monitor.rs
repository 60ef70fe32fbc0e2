//! State of the terminal monitor: a chat client that shows the room's
//! traffic, lets its operator post messages, and scrolls through the log.

use vstd::prelude::*;
use crate::text::{
    chars_of, contains_text, push_decimal, spec_contains, spec_decimal, spec_strip_line_end,
    spec_trim, strip_line_end, trim,
};

verus! {

/// The log keeps at most this many received lines before it is trimmed.
pub const MAX_MESSAGES: usize = 5000;

/// How many of the oldest lines a trim drops.
pub const TRIM_CHUNK: usize = 1000;

/// How long the event loop waits for a key before redrawing, in
/// milliseconds.
pub const TICK_MS: u64 = 50;

/// How many lines one PageUp or PageDown scrolls.
pub const SCROLL_STEP: usize = 10;

/// How a log line is shown.
#[derive(Clone, Copy, Debug, PartialEq, Eq, Structural)]
pub enum LineKind {
    /// An arrival or departure notice from the server.
    Server,
    /// A chat line from another client.
    Chat,
    /// A line this monitor sent.
    SelfMe,
    /// A note from the monitor itself (connection state, errors).
    Sys,
}

/// A colour of the terminal's palette.
#[derive(Clone, Copy, Debug, PartialEq, Eq, Structural)]
pub enum Shade {
    Yellow,
    Green,
    Magenta,
    White,
}

/// How a log line is drawn.
#[derive(Clone, Copy, Debug, PartialEq, Eq, Structural)]
pub struct LineStyle {
    pub color: Shade,
    pub bold: bool,
}

/// How lines of each kind are drawn: server notices bold yellow, the
/// monitor's own lines bold green, its notes magenta, chat white.
pub fn line_style(kind: LineKind) -> (st: LineStyle)
    ensures
        st == match kind {
            LineKind::Server => LineStyle { color: Shade::Yellow, bold: true },
            LineKind::SelfMe => LineStyle { color: Shade::Green, bold: true },
            LineKind::Sys => LineStyle { color: Shade::Magenta, bold: false },
            LineKind::Chat => LineStyle { color: Shade::White, bold: false },
        },
{
    match kind {
        LineKind::Server => LineStyle { color: Shade::Yellow, bold: true },
        LineKind::SelfMe => LineStyle { color: Shade::Green, bold: true },
        LineKind::Sys => LineStyle { color: Shade::Magenta, bold: false },
        LineKind::Chat => LineStyle { color: Shade::White, bold: false },
    }
}

/// One line of the log.
#[derive(Clone, Debug)]
pub struct LogEntry {
    pub kind: LineKind,
    pub text: String,
}

/// The mathematical content of a [`LogEntry`].
pub struct LogEntryView {
    pub kind: LineKind,
    pub text: Seq<char>,
}

impl View for LogEntry {
    type V = LogEntryView;

    open spec fn view(&self) -> LogEntryView {
        LogEntryView { kind: self.kind, text: self.text@ }
    }
}

/// A key of the keyboard, as far as the monitor tells keys apart.
#[derive(Clone, Copy, Debug, PartialEq, Eq, Structural)]
pub enum Key {
    Esc,
    Enter,
    Backspace,
    PageUp,
    PageDown,
    End,
    Char(char),
    Other,
}

/// A keyboard event.
#[derive(Clone, Copy, Debug, PartialEq, Eq, Structural)]
pub struct KeyPress {
    pub key: Key,
    /// The Control modifier was held.
    pub ctrl: bool,
    /// The key went down (as opposed to a release or an auto-repeat).
    pub pressed: bool,
}

/// What the event loop does after a key.
pub enum KeyOutcome {
    /// Keep going.
    Continue,
    /// Send this line to the server, then keep going.
    Send(String),
    /// Leave the monitor.
    Quit,
}

/// The mathematical content of a [`KeyOutcome`].
pub enum KeyOutcomeView {
    Continue,
    Send(Seq<char>),
    Quit,
}

impl View for KeyOutcome {
    type V = KeyOutcomeView;

    open spec fn view(&self) -> KeyOutcomeView {
        match self {
            KeyOutcome::Continue => KeyOutcomeView::Continue,
            KeyOutcome::Send(s) => KeyOutcomeView::Send(s@),
            KeyOutcome::Quit => KeyOutcomeView::Quit,
        }
    }
}

/// The mathematical content of a [`Monitor`].
pub struct MonitorView {
    pub nick: Seq<char>,
    pub entries: Seq<LogEntryView>,
    pub input: Seq<char>,
    /// How many lines the view is scrolled back from the newest (0: live).
    pub scroll: nat,
}

/// The log line shown for a message this monitor sent.
pub open spec fn own_line(nick: Seq<char>, msg: Seq<char>) -> Seq<char> {
    "[나] "@ + nick + ": "@ + msg
}

/// The monitor after a line is added to its log: the line is appended;
/// when the log then holds more than [`MAX_MESSAGES`] lines the oldest
/// [`TRIM_CHUNK`] are dropped, and a scroll position beyond the remaining
/// lines returns to live.
pub open spec fn spec_append(s: MonitorView, e: LogEntryView) -> MonitorView {
    let grown = s.entries.push(e);
    if grown.len() > MAX_MESSAGES {
        let kept = grown.subrange(TRIM_CHUNK as int, grown.len() as int);
        MonitorView {
            entries: kept,
            scroll: if s.scroll > kept.len() { 0 } else { s.scroll },
            ..s
        }
    } else {
        MonitorView { entries: grown, ..s }
    }
}

/// The monitor after a line arrives from the server.
pub open spec fn spec_receive(s: MonitorView, e: LogEntryView) -> MonitorView {
    spec_append(s, e)
}

/// The monitor after a key, and what the event loop does next.
pub open spec fn spec_handle_key(s: MonitorView, k: KeyPress) -> (MonitorView, KeyOutcomeView) {
    if !k.pressed {
        (s, KeyOutcomeView::Continue)
    } else {
        match k.key {
            Key::Esc => (s, KeyOutcomeView::Quit),
            Key::Char(c) => if c == 'c' && k.ctrl {
                (s, KeyOutcomeView::Quit)
            } else {
                (MonitorView { input: s.input.push(c), ..s }, KeyOutcomeView::Continue)
            },
            Key::Enter => {
                let msg = spec_trim(s.input);
                if msg.len() == 0 {
                    (MonitorView { input: Seq::empty(), ..s }, KeyOutcomeView::Continue)
                } else {
                    let shown = spec_append(
                        s,
                        LogEntryView { kind: LineKind::SelfMe, text: own_line(s.nick, msg) },
                    );
                    (
                        MonitorView { input: Seq::empty(), scroll: 0, ..shown },
                        KeyOutcomeView::Send(msg),
                    )
                }
            },
            Key::Backspace => (
                MonitorView {
                    input: if s.input.len() > 0 {
                        s.input.drop_last()
                    } else {
                        s.input
                    },
                    ..s
                },
                KeyOutcomeView::Continue,
            ),
            Key::PageUp => (
                MonitorView {
                    scroll: if s.scroll + SCROLL_STEP <= s.entries.len() {
                        (s.scroll + SCROLL_STEP) as nat
                    } else {
                        s.entries.len()
                    },
                    ..s
                },
                KeyOutcomeView::Continue,
            ),
            Key::PageDown => (
                MonitorView {
                    scroll: if s.scroll >= SCROLL_STEP {
                        (s.scroll - SCROLL_STEP) as nat
                    } else {
                        0
                    },
                    ..s
                },
                KeyOutcomeView::Continue,
            ),
            Key::End => (MonitorView { scroll: 0, ..s }, KeyOutcomeView::Continue),
            Key::Other => (s, KeyOutcomeView::Continue),
        }
    }
}

/// The monitor's state: its nickname, the log, the line being typed, and
/// the scroll position.
pub struct Monitor {
    nick: String,
    messages: Vec<LogEntry>,
    input: String,
    scroll_back: usize,
}

impl Monitor {
    /// The scroll position reaches no further back than the oldest line,
    /// and the log never holds more than [`MAX_MESSAGES`] lines.
    #[verifier::type_invariant]
    spec fn bounded(self) -> bool {
        &&& self.scroll_back <= self.messages@.len()
        &&& self.messages@.len() <= MAX_MESSAGES
    }

    /// The monitor's state as a mathematical value.
    pub closed spec fn model(&self) -> MonitorView {
        MonitorView {
            nick: self.nick@,
            entries: self.messages@.map_values(|e: LogEntry| e@),
            input: self.input@,
            scroll: self.scroll_back as nat,
        }
    }

    /// A monitor signed in as `nick`, with an empty log, live.
    pub fn new(nick: String) -> (m: Monitor)
        ensures
            m.model() == (MonitorView {
                nick: nick@,
                entries: Seq::empty(),
                input: Seq::empty(),
                scroll: 0,
            }),
    {
        let m = Monitor { nick, messages: Vec::new(), input: String::new(), scroll_back: 0 };
        assert(m.model().entries =~= Seq::<LogEntryView>::empty());
        m
    }

    /// Takes the whole state out of `self`, leaving an empty monitor.
    fn take(&mut self) -> (m: Monitor)
        ensures
            m == *old(self),
    {
        let mut m = Monitor::new(String::new());
        std::mem::swap(self, &mut m);
        m
    }

    /// The log and scroll position after `entry` is added (see
    /// [`spec_append`]); the rest of the state is kept.
    fn appended(
        nick: String,
        messages: Vec<LogEntry>,
        input: String,
        scroll_back: usize,
        entry: LogEntry,
    ) -> (m: Monitor)
        requires
            scroll_back <= messages@.len(),
            messages@.len() <= MAX_MESSAGES,
        ensures
            m.model() == spec_append(
                MonitorView {
                    nick: nick@,
                    entries: messages@.map_values(|e: LogEntry| e@),
                    input: input@,
                    scroll: scroll_back as nat,
                },
                entry@,
            ),
    {
        let ghost old_entries = messages@.map_values(|e: LogEntry| e@);
        let ghost e = entry@;
        let mut messages = messages;
        messages.push(entry);
        let mut scroll = scroll_back;
        if messages.len() > MAX_MESSAGES {
            let kept = messages.split_off(TRIM_CHUNK);
            messages = kept;
            if scroll > messages.len() {
                scroll = 0;
            }
            proof {
                let g = old_entries.push(e);
                assert(messages@.map_values(|x: LogEntry| x@) =~= g.subrange(
                    TRIM_CHUNK as int,
                    g.len() as int,
                ));
            }
        } else {
            proof {
                assert(messages@.map_values(|x: LogEntry| x@) =~= old_entries.push(e));
            }
        }
        Monitor { nick, messages, input, scroll_back: scroll }
    }

    /// Appends a line that arrived from the server, trimming the log when
    /// it grows too long.
    pub fn receive(&mut self, entry: LogEntry)
        ensures
            final(self).model() == spec_receive(old(self).model(), entry@),
            final(self).model().scroll <= final(self).model().entries.len(),
            final(self).model().entries.len() <= MAX_MESSAGES,
    {
        let cur = self.take();
        proof {
            use_type_invariant(&cur);
        }
        let Monitor { nick, messages, input, scroll_back } = cur;
        let next = Monitor::appended(nick, messages, input, scroll_back, entry);
        proof {
            use_type_invariant(&next);
        }
        *self = next;
    }

    /// The log, oldest line first.
    pub fn entries(&self) -> (v: &Vec<LogEntry>)
        ensures
            v@.map_values(|e: LogEntry| e@) == self.model().entries,
    {
        &self.messages
    }

    /// The line being typed.
    pub fn input(&self) -> (t: &str)
        ensures
            t@ == self.model().input,
    {
        self.input.as_str()
    }

    /// The header: nickname, number of lines in the log, and `LIVE` or how
    /// far the view is scrolled back.
    pub fn header_text(&self) -> (t: String)
        ensures
            t@ == header_line(self.model()),
    {
        let mut t = String::from_str(" 🖥  서버 모니터  |  닉: ");
        t.append(self.nick.as_str());
        t.append("  |  메시지: ");
        push_decimal(&mut t, self.messages.len() as u64);
        t.append("  |  ");
        if self.scroll_back == 0 {
            t.append("LIVE");
        } else {
            t.append("스크롤 -");
            push_decimal(&mut t, self.scroll_back as u64);
        }
        t
    }

    /// The lines of the log that fit in a pane of `height` rows: the range
    /// `start..end` that ends `scroll` lines before the newest line.
    pub fn visible_range(&self, height: usize) -> (r: (usize, usize))
        ensures
            r == spec_visible_range(self.model(), height as nat),
    {
        let total = self.messages.len();
        let end = total.saturating_sub(self.scroll_back);
        let start = end.saturating_sub(height);
        (start, end)
    }

    /// Handles one key: typing edits the input line, Enter sends it (and
    /// shows it locally, since the server does not echo it back),
    /// PageUp / PageDown / End scroll, and Esc or Ctrl+C quits.
    pub fn handle_key(&mut self, k: KeyPress) -> (out: KeyOutcome)
        ensures
            (final(self).model(), out@) == spec_handle_key(old(self).model(), k),
            final(self).model().scroll <= final(self).model().entries.len(),
            final(self).model().entries.len() <= MAX_MESSAGES,
    {
        let cur = self.take();
        proof {
            use_type_invariant(&cur);
        }
        let ghost before = cur.model();
        if !k.pressed {
            *self = cur;
            return KeyOutcome::Continue;
        }
        let Monitor { nick, messages, mut input, mut scroll_back } = cur;
        let len = messages.len();
        let out = match k.key {
            Key::Esc => KeyOutcome::Quit,
            Key::Char(c) => {
                if c == 'c' && k.ctrl {
                    KeyOutcome::Quit
                } else {
                    crate::text::push_char(&mut input, c);
                    KeyOutcome::Continue
                }
            },
            Key::Enter => {
                let msg = trim(input.as_str());
                input = String::new();
                if msg.as_str().unicode_len() == 0 {
                    KeyOutcome::Continue
                } else {
                    let mut text = String::from_str("[나] ");
                    text.append(nick.as_str());
                    text.append(": ");
                    text.append(msg.as_str());
                    let shown = Monitor::appended(
                        nick,
                        messages,
                        input,
                        scroll_back,
                        LogEntry { kind: LineKind::SelfMe, text },
                    );
                    proof {
                        use_type_invariant(&shown);
                    }
                    let Monitor { nick: n2, messages: m2, input: i2, scroll_back: _ } = shown;
                    *self = Monitor { nick: n2, messages: m2, input: i2, scroll_back: 0 };
                    return KeyOutcome::Send(msg);
                }
            },
            Key::Backspace => {
                let n = input.as_str().unicode_len();
                if n > 0 {
                    let shorter = String::from_str(input.as_str().substring_char(0, n - 1));
                    proof {
                        assert(shorter@ =~= input@.drop_last());
                    }
                    input = shorter;
                }
                KeyOutcome::Continue
            },
            Key::PageUp => {
                if scroll_back <= len && len - scroll_back >= SCROLL_STEP {
                    scroll_back = scroll_back + SCROLL_STEP;
                } else {
                    scroll_back = len;
                }
                KeyOutcome::Continue
            },
            Key::PageDown => {
                scroll_back = scroll_back.saturating_sub(SCROLL_STEP);
                KeyOutcome::Continue
            },
            Key::End => {
                scroll_back = 0;
                KeyOutcome::Continue
            },
            Key::Other => KeyOutcome::Continue,
        };
        *self = Monitor { nick, messages, input, scroll_back };
        out
    }
}

/// The header line shown above the log.
pub open spec fn header_line(s: MonitorView) -> Seq<char> {
    " 🖥  서버 모니터  |  닉: "@ + s.nick + "  |  메시지: "@ + spec_decimal(s.entries.len()) + "  |  "@
        + if s.scroll == 0 {
        "LIVE"@
    } else {
        "스크롤 -"@ + spec_decimal(s.scroll)
    }
}

/// The range `start..end` of log lines shown in a pane of `height` rows.
pub open spec fn spec_visible_range(s: MonitorView, height: nat) -> (usize, usize) {
    let end: int = if s.scroll <= s.entries.len() { s.entries.len() - s.scroll } else { 0 };
    let start: int = if height <= end { end - height } else { 0 };
    (start as usize, end as usize)
}

/// The title of the log pane for lines `start..end` of `total`, counted
/// from one.
pub open spec fn log_title_text(start: nat, end: nat, total: nat) -> Seq<char> {
    " 채팅 로그 ("@ + spec_decimal(start + 1) + "~"@ + spec_decimal(end) + " / "@ + spec_decimal(
        total,
    ) + ") "@
}

/// The title of the log pane.
pub fn log_title(start: usize, end: usize, total: usize) -> (t: String)
    requires
        start < usize::MAX,
    ensures
        t@ == log_title_text(start as nat, end as nat, total as nat),
{
    let mut t = String::from_str(" 채팅 로그 (");
    push_decimal(&mut t, (start + 1) as u64);
    t.append("~");
    push_decimal(&mut t, end as u64);
    t.append(" / ");
    push_decimal(&mut t, total as u64);
    t.append(") ");
    t
}

/// Columns that `s` takes on the terminal, counting an ASCII character as
/// one column and any other as two.
pub open spec fn display_width(s: Seq<char>) -> nat
    decreases s.len(),
{
    if s.len() == 0 {
        0
    } else {
        display_width(s.drop_last()) + if (s.last() as u32) < 128 { 1nat } else { 2nat }
    }
}

/// Column of the cursor in an input box whose left border is at column
/// `box_x` and which is `box_width` columns wide: just after the typed text,
/// but never past the box's inner width.
pub open spec fn spec_cursor_column(box_x: nat, box_width: nat, input: Seq<char>) -> nat {
    let inner: nat = if box_width >= 2 { (box_width - 2) as nat } else { 0 };
    box_x + 1 + if display_width(input) <= inner { display_width(input) } else { inner }
}

/// The cursor column in the input box, or `None` when the width of the
/// typed text or the column does not fit in a `u16`.
pub fn cursor_column(box_x: u16, box_width: u16, input: &str) -> (c: Option<u16>)
    ensures
        c == if display_width(input@) <= u16::MAX && spec_cursor_column(
            box_x as nat,
            box_width as nat,
            input@,
        ) <= u16::MAX {
            Some(spec_cursor_column(box_x as nat, box_width as nat, input@) as u16)
        } else {
            None::<u16>
        },
{
    let v = chars_of(input);
    let n = v.len();
    let mut w: u64 = 0;
    let mut i: usize = 0;
    while i < n
        invariant
            v@ == input@,
            n == v@.len(),
            i <= n,
            w == display_width(v@.take(i as int)),
            w <= 65535,
        decreases n - i,
    {
        proof {
            assert(v@.take(i + 1).drop_last() =~= v@.take(i as int));
        }
        let code = v[i] as u32;
        if code < 128 {
            w = w + 1;
        } else {
            w = w + 2;
        }
        i = i + 1;
        if w > 65535 {
            proof {
                lemma_display_width_prefix(v@, i as int);
            }
            return None;
        }
    }
    assert(v@.take(n as int) =~= v@);
    let inner = box_width.saturating_sub(2);
    let w16 = w as u16;
    let shown = if w16 <= inner { w16 } else { inner };
    let col = box_x as u32 + 1 + shown as u32;
    if col > 65535 {
        None
    } else {
        Some(col as u16)
    }
}

proof fn lemma_display_width_prefix(s: Seq<char>, k: int)
    requires
        0 <= k <= s.len(),
    ensures
        display_width(s.take(k)) <= display_width(s),
    decreases s.len() - k,
{
    if k < s.len() {
        lemma_display_width_prefix(s, k + 1);
        assert(s.take(k + 1).drop_last() =~= s.take(k));
    } else {
        assert(s.take(k) =~= s);
    }
}

/// A monitor state within bounds: the scroll position reaches no further
/// back than the oldest line, and the log holds at most [`MAX_MESSAGES`]
/// lines.
pub open spec fn within_bounds(s: MonitorView) -> bool {
    &&& s.scroll <= s.entries.len()
    &&& s.entries.len() <= MAX_MESSAGES
}

/// No arriving line and no key takes the monitor out of bounds: the log
/// never grows past [`MAX_MESSAGES`] lines (lines sent from the monitor
/// are trimmed like received ones) and the scroll position never passes
/// the oldest line.
pub proof fn lemma_stays_within_bounds(s: MonitorView, e: LogEntryView, k: KeyPress)
    requires
        within_bounds(s),
    ensures
        within_bounds(spec_receive(s, e)),
        within_bounds(spec_handle_key(s, k).0),
{
}

/// Arriving lines keep their order: the log after an arrival is the old log
/// with the new line at the end, less (after a trim) a block of the oldest
/// lines, and the newest line is always the one that just arrived.
pub proof fn lemma_receive_keeps_newest(s: MonitorView, e: LogEntryView)
    requires
        s.entries.len() <= MAX_MESSAGES,
    ensures
        spec_receive(s, e).entries.last() == e,
        spec_receive(s, e).entries.len() <= MAX_MESSAGES,
        spec_receive(s, e).entries =~= s.entries.push(e) || spec_receive(s, e).entries
            =~= s.entries.push(e).subrange(TRIM_CHUNK as int, s.entries.len() + 1 as int),
{
}

/// Typing a character and then pressing Backspace gives back the input
/// line as it was, and nothing else changes.
pub proof fn lemma_backspace_undoes_typing(s: MonitorView, c: char)
    ensures
        ({
            let typed = spec_handle_key(s, KeyPress { key: Key::Char(c), ctrl: false, pressed: true }).0;
            spec_handle_key(typed, KeyPress { key: Key::Backspace, ctrl: false, pressed: true }).0
        }) == s,
{
    let typed = spec_handle_key(s, KeyPress { key: Key::Char(c), ctrl: false, pressed: true }).0;
    assert(typed.input.drop_last() =~= s.input);
}

/// Scrolling back a page and forward a page returns to where the view was,
/// when the log reaches that far back.
pub proof fn lemma_page_up_then_down(s: MonitorView)
    requires
        s.scroll + SCROLL_STEP <= s.entries.len(),
    ensures
        ({
            let up = spec_handle_key(s, KeyPress { key: Key::PageUp, ctrl: false, pressed: true }).0;
            spec_handle_key(up, KeyPress { key: Key::PageDown, ctrl: false, pressed: true }).0
        }) == s,
{
}

/// Sending a line (Enter on a non-blank input) always brings the view back
/// to live, empties the input, and sends the input without its surrounding
/// whitespace.
pub proof fn lemma_enter_sends_trimmed(s: MonitorView, ctrl: bool)
    requires
        spec_trim(s.input).len() != 0,
    ensures
        ({
            let (t, out) = spec_handle_key(s, KeyPress { key: Key::Enter, ctrl, pressed: true });
            &&& t.scroll == 0
            &&& t.input.len() == 0
            &&& out == KeyOutcomeView::Send(spec_trim(s.input))
        }),
{
}

/// A key event that is not a press (a release or an auto-repeat) changes
/// nothing and the monitor keeps running, whatever the key.
pub proof fn lemma_non_press_ignored(s: MonitorView, k: KeyPress)
    requires
        !k.pressed,
    ensures
        spec_handle_key(s, k).0 == s,
        spec_handle_key(s, k).1 == KeyOutcomeView::Continue,
{
}

/// The monitor quits on exactly two keys, Esc and Ctrl+C, and quitting
/// changes nothing else.
pub proof fn lemma_quit_keys(s: MonitorView, k: KeyPress)
    ensures
        (spec_handle_key(s, k).1 is Quit) <==> (k.pressed && (k.key == Key::Esc || (k.key
            == Key::Char('c') && k.ctrl))),
        spec_handle_key(s, k).1 is Quit ==> spec_handle_key(s, k).0 == s,
{
}

/// A line is sent exactly when Enter is pressed on an input that is not
/// blank, and what is sent is that input without surrounding whitespace.
pub proof fn lemma_send_only_on_enter(s: MonitorView, k: KeyPress)
    ensures
        (spec_handle_key(s, k).1 is Send) <==> (k.pressed && k.key == Key::Enter && spec_trim(
            s.input,
        ).len() != 0),
        spec_handle_key(s, k).1 matches KeyOutcomeView::Send(m) ==> m == spec_trim(s.input),
{
}

/// A pressed key without a binding changes nothing and the monitor keeps
/// running.
pub proof fn lemma_unbound_key_ignored(s: MonitorView, ctrl: bool)
    ensures
        spec_handle_key(s, KeyPress { key: Key::Other, ctrl, pressed: true }) == (
            s,
            KeyOutcomeView::Continue,
        ),
{
}

/// Typing a character (other than Ctrl+C) appends it to the input line and
/// changes nothing else.
pub proof fn lemma_typing_appends(s: MonitorView, c: char, ctrl: bool)
    requires
        !(c == 'c' && ctrl),
    ensures
        ({
            let (t, out) = spec_handle_key(s, KeyPress { key: Key::Char(c), ctrl, pressed: true });
            &&& t.input == s.input.push(c)
            &&& t.nick == s.nick
            &&& t.entries == s.entries
            &&& t.scroll == s.scroll
            &&& out == KeyOutcomeView::Continue
        }),
{
}

/// Backspace removes exactly the last character of the input line (if
/// there is one) and changes nothing else.
pub proof fn lemma_backspace_removes_one(s: MonitorView, ctrl: bool)
    ensures
        ({
            let (t, out) = spec_handle_key(s, KeyPress { key: Key::Backspace, ctrl, pressed: true });
            &&& t.input.len() == if s.input.len() > 0 { s.input.len() - 1 } else { 0 }
            &&& t.input == s.input.subrange(0, t.input.len() as int)
            &&& t.nick == s.nick
            &&& t.entries == s.entries
            &&& t.scroll == s.scroll
            &&& out == KeyOutcomeView::Continue
        }),
{
}

/// PageUp scrolls back ten lines but not past the oldest one, PageDown
/// forward ten but not past the newest, End back to live; none of them
/// changes anything but the scroll position.
pub proof fn lemma_scroll_keys(s: MonitorView, ctrl: bool)
    ensures
        ({
            let (t, out) = spec_handle_key(s, KeyPress { key: Key::PageUp, ctrl, pressed: true });
            &&& t.scroll as int == (if s.scroll + 10 <= s.entries.len() { s.scroll + 10 } else { s.entries.len() })
            &&& MonitorView { scroll: s.scroll, ..t } == s
            &&& out == KeyOutcomeView::Continue
        }),
        ({
            let (t, out) = spec_handle_key(s, KeyPress { key: Key::PageDown, ctrl, pressed: true });
            &&& t.scroll as int == (if s.scroll >= 10 { s.scroll - 10 } else { 0 })
            &&& MonitorView { scroll: s.scroll, ..t } == s
            &&& out == KeyOutcomeView::Continue
        }),
        ({
            let (t, out) = spec_handle_key(s, KeyPress { key: Key::End, ctrl, pressed: true });
            &&& t.scroll == 0
            &&& MonitorView { scroll: s.scroll, ..t } == s
            &&& out == KeyOutcomeView::Continue
        }),
{
}

/// Enter always empties the input line. On a blank input nothing else
/// changes; otherwise the trimmed input is shown as the monitor's own line
/// `[나] nick: msg` at the end of the log and the view goes live.
pub proof fn lemma_enter_effect(s: MonitorView, ctrl: bool)
    requires
        within_bounds(s),
    ensures
        ({
            let (t, out) = spec_handle_key(s, KeyPress { key: Key::Enter, ctrl, pressed: true });
            &&& t.input.len() == 0
            &&& t.nick == s.nick
            &&& if spec_trim(s.input).len() == 0 {
                &&& t.entries == s.entries
                &&& t.scroll == s.scroll
                &&& out == KeyOutcomeView::Continue
            } else {
                &&& t.scroll == 0
                &&& t.entries.last() == (LogEntryView {
                    kind: LineKind::SelfMe,
                    text: "[나] "@ + s.nick + ": "@ + spec_trim(s.input),
                })
                &&& t.entries.drop_last() == (if s.entries.len() < MAX_MESSAGES {
                    s.entries
                } else {
                    s.entries.subrange(TRIM_CHUNK as int, s.entries.len() as int)
                })
                &&& out == KeyOutcomeView::Send(spec_trim(s.input))
            }
        }),
{
    let (t, out) = spec_handle_key(s, KeyPress { key: Key::Enter, ctrl, pressed: true });
    if spec_trim(s.input).len() != 0 {
        let e = LogEntryView { kind: LineKind::SelfMe, text: own_line(s.nick, spec_trim(s.input)) };
        let g = s.entries.push(e);
        if g.len() > MAX_MESSAGES {
            assert(g.subrange(TRIM_CHUNK as int, g.len() as int).drop_last() =~= s.entries.subrange(
                TRIM_CHUNK as int,
                s.entries.len() as int,
            ));
        } else {
            assert(g.drop_last() =~= s.entries);
        }
    }
}

/// A line from the server goes to the end of the log, behind the lines
/// that were there (less the oldest 1000 when the log was full); the
/// scroll position stays where it was unless fewer lines than that remain,
/// in which case the view goes live; the nickname and the input line are
/// untouched.
pub proof fn lemma_receive_effect(s: MonitorView, e: LogEntryView)
    requires
        within_bounds(s),
    ensures
        ({
            let t = spec_receive(s, e);
            &&& t.entries.last() == e
            &&& t.entries.drop_last() == (if s.entries.len() < MAX_MESSAGES {
                s.entries
            } else {
                s.entries.subrange(TRIM_CHUNK as int, s.entries.len() as int)
            })
            &&& t.scroll == (if s.scroll <= t.entries.len() { s.scroll } else { 0 })
            &&& t.nick == s.nick
            &&& t.input == s.input
        }),
        s.entries.len() < MAX_MESSAGES ==> spec_receive(s, e).scroll == s.scroll,
{
    let g = s.entries.push(e);
    if g.len() > MAX_MESSAGES {
        assert(g.subrange(TRIM_CHUNK as int, g.len() as int).drop_last() =~= s.entries.subrange(
            TRIM_CHUNK as int,
            s.entries.len() as int,
        ));
    } else {
        assert(g.drop_last() =~= s.entries);
    }
}

/// What the monitor's reader took from the server connection.
pub enum ServerRead {
    /// A line, with its line ending if any.
    Line(String),
    /// The server closed the connection.
    Closed,
    /// Reading failed; the error as text.
    Failed(String),
}

/// The log entry, if any, that a read from the server produces, and
/// whether the reader goes on reading.
pub open spec fn spec_read_entry(r: ServerRead) -> (Option<LogEntryView>, bool) {
    match r {
        ServerRead::Line(l) => {
            let t = spec_strip_line_end(l@);
            if t.len() == 0 {
                (None, true)
            } else if spec_contains(t, "SERVER"@) {
                (Some(LogEntryView { kind: LineKind::Server, text: t }), true)
            } else {
                (Some(LogEntryView { kind: LineKind::Chat, text: t }), true)
            }
        },
        ServerRead::Closed => (
            Some(LogEntryView { kind: LineKind::Sys, text: "⚠️  서버 연결이 종료되었습니다."@ }),
            false,
        ),
        ServerRead::Failed(e) => (
            Some(LogEntryView { kind: LineKind::Sys, text: "⚠️  읽기 오류: "@ + e@ }),
            false,
        ),
    }
}

/// Turns what the reader got from the server into a log entry: lines lose
/// their line ending, blank lines are skipped, lines that mention `SERVER`
/// are notices and the rest chat; the end of the connection or a read error
/// becomes a note and stops the reader.
pub fn read_entry(r: ServerRead) -> (res: (Option<LogEntry>, bool))
    ensures
        (match res.0 {
            Some(e) => Some(e@),
            None => None,
        }, res.1) == spec_read_entry(r),
{
    match r {
        ServerRead::Line(l) => {
            let t = strip_line_end(l.as_str());
            if t.as_str().unicode_len() == 0 {
                (None, true)
            } else if contains_text(t.as_str(), "SERVER") {
                (Some(LogEntry { kind: LineKind::Server, text: t }), true)
            } else {
                (Some(LogEntry { kind: LineKind::Chat, text: t }), true)
            }
        },
        ServerRead::Closed => (
            Some(
                LogEntry {
                    kind: LineKind::Sys,
                    text: String::from_str("⚠️  서버 연결이 종료되었습니다."),
                },
            ),
            false,
        ),
        ServerRead::Failed(e) => {
            let mut text = String::from_str("⚠️  읽기 오류: ");
            text.append(e.as_str());
            (Some(LogEntry { kind: LineKind::Sys, text }), false)
        },
    }
}

/// The note shown once the monitor has connected to `addr` as `nick`.
pub fn connected_note(addr: &str, nick: &str) -> (e: LogEntry)
    ensures
        e@ == (LogEntryView { kind: LineKind::Sys, text: "✅ "@ + addr@ + " 에 ["@ + nick@ + "] 닉네임으로 접속됨"@ }),
{
    let mut text = String::from_str("✅ ");
    text.append(addr);
    text.append(" 에 [");
    text.append(nick);
    text.append("] 닉네임으로 접속됨");
    LogEntry { kind: LineKind::Sys, text }
}

/// The line sent to the server for `text`: the text and a line feed.
pub fn outgoing_line(text: &str) -> (l: String)
    ensures
        l@ == text@ + "\n"@,
{
    let mut l = String::from_str(text);
    l.append("\n");
    l
}

/// Server address and nickname from the command line: the first and
/// second arguments after the program name, defaulting to
/// `127.0.0.1:8080` and `MONITOR`.
pub fn monitor_settings(args: &Vec<String>) -> (r: (String, String))
    ensures
        r.0@ == if args@.len() > 1 { args@[1]@ } else { "127.0.0.1:8080"@ },
        r.1@ == if args@.len() > 2 { args@[2]@ } else { "MONITOR"@ },
{
    let addr = if args.len() > 1 { args[1].clone() } else { String::from_str("127.0.0.1:8080") };
    let nick = if args.len() > 2 { args[2].clone() } else { String::from_str("MONITOR") };
    (addr, nick)
}

} // verus!
