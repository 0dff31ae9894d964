//! The developer console: a ring of log lines and a command line.

use std::collections::VecDeque;

use vstd::prelude::*;

use crate::folds::lemma_take_next;
use crate::names::views;
use crate::scalar::{scalar, Scalar};
use crate::text::{all_white, concat, joined, join, lemma_blank, trim, trimmed};
use crate::typing::{rub_out, rubbed, taken, type_text, Key, KeyEvent};

verus! {

/// How many lines the console keeps.
pub const RING_SIZE: usize = 512;

/// How many lines the console shows.
pub const SHOWN_LINES: usize = 30;

/// The seconds of each blink during which the cursor shows (0.4).
pub const CURSOR_ON: u32 = 0x3ecc_cccd;

/// The severity of a log event.
#[derive(Clone, Copy, PartialEq, Eq, Structural, Debug)]
pub enum LogSeverity {
    Error,
    Warn,
    Info,
    Debug,
    Trace,
}

/// A ring after one more line.
pub open spec fn ring_with(lines: Seq<Seq<char>>, line: Seq<char>) -> Seq<Seq<char>> {
    if lines.len() >= RING_SIZE {
        lines.drop_first().push(line)
    } else {
        lines.push(line)
    }
}

/// A ring after more lines, one after the other.
pub open spec fn ring_with_all(lines: Seq<Seq<char>>, more: Seq<Seq<char>>) -> Seq<Seq<char>>
    decreases more.len(),
{
    if more.len() == 0 {
        lines
    } else {
        ring_with(ring_with_all(lines, more.drop_last()), more.last())
    }
}

/// The last `n` of some lines.
pub open spec fn last_lines(lines: Seq<Seq<char>>, n: nat) -> Seq<Seq<char>> {
    if lines.len() <= n {
        lines
    } else {
        lines.skip(lines.len() - n)
    }
}

/// The lines that the console keeps.
#[derive(Clone, Debug)]
pub struct ConsoleLog {
    pub lines: VecDeque<String>,
}

impl ConsoleLog {
    pub open spec fn kept(self) -> Seq<Seq<char>> {
        views(self.lines@)
    }

    pub fn new() -> (r: Self)
        ensures
            r.kept() == Seq::<Seq<char>>::empty(),
    {
        let r = ConsoleLog { lines: VecDeque::new() };
        assert(r.kept() =~= Seq::<Seq<char>>::empty());
        r
    }

    /// Keeps one more line and lets the oldest go where the ring is full.
    pub fn ring_push(&mut self, line: String)
        ensures
            final(self).kept() == ring_with(old(self).kept(), line@),
    {
        if self.lines.len() >= RING_SIZE {
            let _ = self.lines.pop_front();
        }
        self.lines.push_back(line);
        assert(self.kept() =~= ring_with(old(self).kept(), line@));
    }

    /// The text of the log area: the most recent lines, oldest first.
    pub fn shown(&self) -> (r: String)
        ensures
            r@ == joined(last_lines(self.kept(), SHOWN_LINES as nat), "\n"@),
    {
        let n: usize = self.lines.len();
        let from: usize = if n > SHOWN_LINES {
            n - SHOWN_LINES
        } else {
            0
        };
        let mut parts: Vec<String> = Vec::new();
        let mut i: usize = from;
        while i < n
            invariant
                n == self.lines@.len(),
                from <= i <= n,
                parts.len() == i - from,
                forall|j: int| 0 <= j < parts.len() ==> parts@[j]@ == self.lines@[from + j]@,
            decreases n - i,
        {
            parts.push(self.lines[i].clone());
            i = i + 1;
        }
        assert(views(parts@) =~= last_lines(self.kept(), SHOWN_LINES as nat));
        join(&parts, "\n")
    }
}

/// The ring holds the last lines of all that were ever pushed, whatever their
/// number.
pub proof fn law_ring_keeps_last(more: Seq<Seq<char>>)
    ensures
        ring_with_all(Seq::empty(), more) == last_lines(more, RING_SIZE as nat),
    decreases more.len(),
{
    if more.len() > 0 {
        let front = more.drop_last();
        law_ring_keeps_last(front);
        assert(more =~= front.push(more.last()));
        assert(ring_with(last_lines(front, RING_SIZE as nat), more.last()) =~= last_lines(
            more,
            RING_SIZE as nat,
        ));
    }
}

/// The mark of a severity in the log.
pub open spec fn severity_mark(level: LogSeverity) -> Seq<char> {
    match level {
        LogSeverity::Error => "[ERR] "@,
        LogSeverity::Warn => "[WRN] "@,
        LogSeverity::Info => "[INF] "@,
        LogSeverity::Debug => "[DBG] "@,
        LogSeverity::Trace => "[TRC] "@,
    }
}

/// The line that a log event adds; an event without a message adds none.
pub fn on_event(level: LogSeverity, message: &str) -> (r: Option<String>)
    ensures
        r is None <==> message@.len() == 0,
        r is Some ==> r->0@ == severity_mark(level) + message@,
{
    if message.is_empty() {
        return None;
    }
    let mark = match level {
        LogSeverity::Error => "[ERR] ",
        LogSeverity::Warn => "[WRN] ",
        LogSeverity::Info => "[INF] ",
        LogSeverity::Debug => "[DBG] ",
        LogSeverity::Trace => "[TRC] ",
    };
    Some(concat(mark, message))
}

/// Whether the console is open, and its command line.
#[derive(Clone, Debug)]
pub struct ConsoleState {
    pub open: bool,
    pub input: String,
}

impl Default for ConsoleState {
    fn default() -> (r: Self)
        ensures
            !r.open,
            r.input@.len() == 0,
    {
        ConsoleState { open: false, input: String::new() }
    }
}

/// A command line and a ring of lines.
pub struct ConsoleView {
    pub input: Seq<char>,
    pub lines: Seq<Seq<char>>,
}

/// What a command adds to the ring: the command and what came of it.
pub open spec fn after_command(lines: Seq<Seq<char>>, command: Seq<char>) -> Seq<Seq<char>> {
    if command.len() == 0 {
        lines
    } else {
        ring_with(
            ring_with(lines, "> "@ + command),
            "[console] unknown command: "@ + command,
        )
    }
}

/// The console after a key event.
pub open spec fn after_key(s: ConsoleView, event: KeyEvent) -> ConsoleView {
    if !event.pressed {
        s
    } else {
        match event.key {
            Key::Character(text) => ConsoleView { input: s.input + taken(text@, true), ..s },
            Key::Backspace => ConsoleView { input: rubbed(s.input), ..s },
            Key::Enter => ConsoleView {
                input: Seq::empty(),
                lines: after_command(s.lines, trimmed(s.input)),
            },
            _ => s,
        }
    }
}

/// The console after key events, one after the other.
pub open spec fn after_keys(s: ConsoleView, events: Seq<KeyEvent>) -> ConsoleView
    decreases events.len(),
{
    if events.len() == 0 {
        s
    } else {
        after_key(after_keys(s, events.drop_last()), events.last())
    }
}

impl ConsoleState {
    pub open spec fn with(self, log: ConsoleLog) -> ConsoleView {
        ConsoleView { input: self.input@, lines: log.kept() }
    }

    /// Opens or closes the console where its key was pressed; says whether the
    /// overlay shows afterwards where that changed.
    pub fn toggle(&mut self, pressed: bool) -> (r: Option<bool>)
        ensures
            final(self).input == old(self).input,
            final(self).open == (old(self).open != pressed),
            r == (if pressed {
                Some(final(self).open)
            } else {
                None
            }),
    {
        if !pressed {
            return None;
        }
        self.open = !self.open;
        Some(self.open)
    }

    /// Takes the key events of a frame; a closed console ignores them.
    pub fn type_input(&mut self, log: &mut ConsoleLog, events: &Vec<KeyEvent>)
        ensures
            final(self).open == old(self).open,
            final(self).with(*final(log)) == (if old(self).open {
                after_keys(old(self).with(*old(log)), events@)
            } else {
                old(self).with(*old(log))
            }),
    {
        if !self.open {
            return;
        }
        let ghost start = self.with(*log);
        let mut i: usize = 0;
        assert(events@.take(0) =~= Seq::<KeyEvent>::empty());
        while i < events.len()
            invariant
                i <= events.len(),
                self.open == old(self).open,
                self.with(*log) == after_keys(start, events@.take(i as int)),
            decreases events.len() - i,
        {
            proof {
                lemma_take_next(events@, i as int);
            }
            if events[i].pressed {
                match &events[i].key {
                    Key::Character(text) => {
                        type_text(&mut self.input, text.as_str(), true);
                    },
                    Key::Backspace => {
                        rub_out(&mut self.input);
                    },
                    Key::Enter => {
                        let command = trim(self.input.as_str());
                        self.input = String::new();
                        if !command.as_str().is_empty() {
                            log.ring_push(concat("> ", command.as_str()));
                            log.ring_push(concat("[console] unknown command: ", command.as_str()));
                        }
                    },
                    _ => {},
                }
            }
            assert(self.with(*log) == after_keys(start, events@.take(i + 1)));
            i = i + 1;
        }
        assert(events@.take(events.len() as int) =~= events@);
    }

    /// The text of the command line; nothing is drawn while the console is
    /// closed. `blink` is the time within the current blink.
    pub fn redraw(&self, blink: Scalar) -> (r: Option<String>)
        ensures
            r is Some <==> self.open,
            r is Some ==> r->0@ == self.input@ + (if blink.less(scalar(CURSOR_ON)) {
                "_"@
            } else {
                " "@
            }),
    {
        if !self.open {
            return None;
        }
        let cursor = if blink.lt(scalar(CURSOR_ON)) {
            "_"
        } else {
            " "
        };
        Some(concat(self.input.as_str(), cursor))
    }
}

/// A ring takes one more line at its end; with 512 lines in it the oldest goes.
/// It starts empty.
pub proof fn law_ring_push(log: &mut ConsoleLog, line: String, new: ConsoleLog)
    requires
        call_ensures(ConsoleLog::ring_push, (log, line), ()),
        call_ensures(ConsoleLog::new, (), new),
    ensures
        new.lines@.len() == 0,
        old(log).lines@.len() < 512 ==> final(log).kept() == old(log).kept().push(line@),
        old(log).lines@.len() >= 512 ==> final(log).kept() == old(log).kept().skip(1).push(line@),
        old(log).lines@.len() <= 512 ==> final(log).lines@.len() <= 512,
{
    assert(old(log).kept().len() == old(log).lines@.len());
    assert(final(log).kept().len() == final(log).lines@.len());
    assert(new.kept().len() == new.lines@.len());
    assert(old(log).lines@.len() >= 512 ==> old(log).kept().skip(1) =~= old(log).kept().drop_first());
}

/// The log area shows the last thirty lines, or all where there are fewer, one
/// below the other.
pub proof fn law_log_shown(log: &ConsoleLog, r: String, earlier: Seq<Seq<char>>, last: Seq<Seq<char>>)
    requires
        call_ensures(ConsoleLog::shown, (log,), r),
        views(log.lines@) == earlier + last,
        last.len() == 30 || (last.len() < 30 && earlier.len() == 0),
    ensures
        r@ == joined(last, "\n"@),
{
    if earlier.len() == 0 {
        assert(earlier + last =~= last);
    } else {
        assert((earlier + last).skip(earlier.len() as int) =~= last);
    }
}

/// A log event adds its message behind the mark of its severity; one without a
/// message adds nothing.
pub proof fn law_event_line(level: LogSeverity, message: &str, r: Option<String>)
    requires
        call_ensures(on_event, (level, message), r),
    ensures
        message@.len() == 0 <==> r is None,
        r matches Some(line) ==> {
            &&& level is Error ==> line@ == "[ERR] "@ + message@
            &&& level is Warn ==> line@ == "[WRN] "@ + message@
            &&& level is Info ==> line@ == "[INF] "@ + message@
            &&& level is Debug ==> line@ == "[DBG] "@ + message@
            &&& level is Trace ==> line@ == "[TRC] "@ + message@
        },
{
}

/// The key of the console opens it and closes it again, and keeps the command
/// line; without the key nothing changes.
pub proof fn law_console_toggles(
    first: &mut ConsoleState,
    second: &mut ConsoleState,
    still: &mut ConsoleState,
    a: Option<bool>,
    b: Option<bool>,
    c: Option<bool>,
)
    requires
        call_ensures(ConsoleState::toggle, (first, true), a),
        call_ensures(ConsoleState::toggle, (second, true), b),
        call_ensures(ConsoleState::toggle, (still, false), c),
        *old(second) == *final(first),
    ensures
        a == Some(!old(first).open),
        b == Some(old(first).open),
        final(first).open == !old(first).open,
        final(second).open == old(first).open,
        final(second).input == old(first).input,
        c is None,
        *final(still) == *old(still),
{
}

/// One key in an open console: a character is typed, backspace rubs out, and
/// Enter takes the line, which is answered in the log unless it is blank. A closed
/// console ignores every key.
pub proof fn law_console_key(
    state: &mut ConsoleState,
    log: &mut ConsoleLog,
    events: &Vec<KeyEvent>,
    typed: &mut String,
    text: &str,
    rubbed_out: &mut String,
    echo: &mut ConsoleLog,
    answer: &mut ConsoleLog,
    echoed: String,
    answered: String,
)
    requires
        call_ensures(ConsoleState::type_input, (state, log, events), ()),
        events@.len() == 1,
        call_ensures(type_text, (typed, text, true), ()),
        call_ensures(rub_out, (rubbed_out,), ()),
        old(typed)@ == old(state).input@,
        old(rubbed_out)@ == old(state).input@,
        events@[0].key matches Key::Character(c) ==> text@ == c@,
        call_ensures(ConsoleLog::ring_push, (echo, echoed), ()),
        call_ensures(ConsoleLog::ring_push, (answer, answered), ()),
        echoed@ == "> "@ + trimmed(old(state).input@),
        answered@ == "[console] unknown command: "@ + trimmed(old(state).input@),
        old(echo).kept() == old(log).kept(),
        old(answer).kept() == final(echo).kept(),
    ensures
        ({
            let e = events@[0];
            let acts = old(state).open && e.pressed;
            &&& !acts ==> final(state).input@ == old(state).input@ && final(log).kept() == old(log).kept()
            &&& acts && e.key is Character ==> final(state).input@ == final(typed)@
            &&& acts && e.key is Backspace ==> final(state).input@ == final(rubbed_out)@
            &&& acts && e.key is Enter ==> final(state).input@.len() == 0
            &&& acts && e.key is Enter && all_white(old(state).input@) ==> final(log).kept() == old(log).kept()
            &&& acts && e.key is Enter && !all_white(old(state).input@) ==> final(log).kept()
                == final(answer).kept()
            &&& acts && !(e.key is Enter) ==> final(log).kept() == old(log).kept()
            &&& acts && !(e.key is Enter) && !(e.key is Character) && !(e.key is Backspace)
                ==> final(state).input@ == old(state).input@
        }),
        final(state).open == old(state).open,
{
    reveal_with_fuel(after_keys, 2);
    assert(events@.drop_last() =~= Seq::<KeyEvent>::empty());
    assert(events@.last() == events@[0]);
    lemma_blank(old(state).input@);
}

proof fn lemma_console_in_turn(s: ConsoleView, a: Seq<KeyEvent>, b: Seq<KeyEvent>)
    ensures
        after_keys(s, a + b) == after_keys(after_keys(s, a), b),
    decreases b.len(),
{
    if b.len() == 0 {
        assert(a + b =~= a);
    } else {
        lemma_console_in_turn(s, a, b.drop_last());
        assert((a + b).drop_last() =~= a + b.drop_last());
        assert((a + b).last() == b.last());
    }
}

/// Keys act one after the other: those of two frames in one frame do what they do
/// in two.
pub proof fn law_console_keys_in_turn(
    first: &mut ConsoleState,
    second: &mut ConsoleState,
    both: &mut ConsoleState,
    log: &mut ConsoleLog,
    later: &mut ConsoleLog,
    at_once: &mut ConsoleLog,
    a: &Vec<KeyEvent>,
    b: &Vec<KeyEvent>,
    all: &Vec<KeyEvent>,
)
    requires
        call_ensures(ConsoleState::type_input, (first, log, a), ()),
        call_ensures(ConsoleState::type_input, (second, later, b), ()),
        call_ensures(ConsoleState::type_input, (both, at_once, all), ()),
        all@ == a@ + b@,
        *old(second) == *final(first),
        *old(both) == *old(first),
        old(later).kept() == final(log).kept(),
        old(at_once).kept() == old(log).kept(),
    ensures
        final(both).input@ == final(second).input@,
        final(at_once).kept() == final(later).kept(),
{
    lemma_console_in_turn(old(first).with(*old(log)), a@, b@);
}

/// The command line shows with a cursor for the first 0.4 s of each blink; a
/// closed console shows nothing.
pub proof fn law_command_line(state: &ConsoleState, blink: Scalar, r: Option<String>)
    requires
        call_ensures(ConsoleState::redraw, (state, blink), r),
    ensures
        r is Some <==> state.open,
        state.open && blink.less(scalar(0x3ecc_cccd)) ==> r->0@ == state.input@ + "_"@,
        state.open && !blink.less(scalar(0x3ecc_cccd)) ==> r->0@ == state.input@ + " "@,
{
}

/// At first the console is closed and empty.
pub proof fn law_console_start(r: ConsoleState)
    requires
        call_ensures(ConsoleState::default, (), r),
    ensures
        !r.open && r.input@.len() == 0,
{
}

} // verus!
