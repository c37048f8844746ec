//! The box in which the user types.
use vstd::prelude::*;

use crate::ansi::{plain, Color, Line, Span, SpanView, Style};
use crate::input_text::{
    column_of, count_line_feeds, cursor_at, first_shown, line_and_column, line_feeds, line_of,
    lines_in, law_cursor_line_is_shown, lemma_position_in_text, position_of, scroll_offset,
};
use crate::layout::{parts_of, split_bottom, Rect};
use crate::mentions::{
    complete_at_mention, completions, mention_at, mention_before, Entry, EntryView,
};
use crate::model::{group_views, views};
use crate::slash::{commands_for, matching_slash_commands};
use crate::text::{
    char_from, chars_of, decimal, decimal_text, first_chars, index_of_char, split, split_at_char,
    text_of, text_range,
};

verus! {

broadcast use group_views;

/// The time within which a second Ctrl-C quits, in milliseconds.
pub const CTRL_C_QUIT_WINDOW_MILLIS: u64 = 2000;

/// Whether a turn is running.
#[derive(Clone, Copy, Debug, PartialEq, Eq, Structural)]
pub enum InputMode {
    Idle,
    Running,
}

/// A key.
#[derive(Clone, Copy, Debug, PartialEq, Eq, Structural)]
pub enum KeyCode {
    Enter,
    Backspace,
    Delete,
    Left,
    Right,
    Home,
    End,
    Up,
    Down,
    Tab,
    Esc,
    Char(char),
    Other,
}

/// A key with the modifiers that were held.
#[derive(Clone, Copy, Debug, PartialEq, Eq, Structural)]
pub struct Key {
    pub code: KeyCode,
    pub control: bool,
    pub alt: bool,
    pub shift: bool,
}

/// What a key did.
pub enum InputOutcome {
    /// Nothing that concerns others.
    Handled,
    /// This line was entered: a new turn, or a question while one runs.
    Submit(String),
    /// The running turn is to be cancelled.
    CancelTurn,
    /// The program is to be left.
    Quit,
    /// Once more and the program is left.
    CtrlCHint,
}

#[verifier::ext_equal]
pub enum OutcomeView {
    Handled,
    Submit(Seq<char>),
    CancelTurn,
    Quit,
    CtrlCHint,
}

impl View for InputOutcome {
    type V = OutcomeView;

    open spec fn view(&self) -> OutcomeView {
        match self {
            InputOutcome::Handled => OutcomeView::Handled,
            InputOutcome::Submit(s) => OutcomeView::Submit(s@),
            InputOutcome::CancelTurn => OutcomeView::CancelTurn,
            InputOutcome::Quit => OutcomeView::Quit,
            InputOutcome::CtrlCHint => OutcomeView::CtrlCHint,
        }
    }
}

/// The text that is typed, the cursor in it, and what was entered before.
pub struct InputBoxState {
    buffer: Vec<char>,
    cursor: usize,
    history: Vec<String>,
    history_index: Option<usize>,
    draft: Vec<char>,
    last_idle_ctrl_c: Option<u64>,
}

#[verifier::ext_equal]
pub struct InputView {
    pub buffer: Seq<char>,
    /// The number of characters before the cursor.
    pub cursor: nat,
    pub history: Seq<Seq<char>>,
    /// The entry of the history that is shown, if one is.
    pub history_index: Option<usize>,
    /// What was typed before the history was entered.
    pub draft: Seq<char>,
    /// When Ctrl-C was last pressed with nothing to clear, in milliseconds.
    pub last_idle_ctrl_c: Option<u64>,
}

impl View for InputBoxState {
    type V = InputView;

    closed spec fn view(&self) -> InputView {
        InputView {
            buffer: self.buffer@,
            cursor: self.cursor as nat,
            history: views(self.history@),
            history_index: self.history_index,
            draft: self.draft@,
            last_idle_ctrl_c: self.last_idle_ctrl_c,
        }
    }
}

impl InputView {
    /// The cursor is in the text, and the history is shown at one of its
    /// entries.
    pub open spec fn well_formed(self) -> bool {
        &&& self.cursor <= self.buffer.len()
        &&& match self.history_index {
            Some(i) => i < self.history.len(),
            None => true,
        }
    }
}

// ---------------------------------------------------------------------------
// What keys do
// ---------------------------------------------------------------------------

/// The text with a character put in before the cursor.
pub open spec fn typed(s: InputView, c: char) -> InputView {
    InputView {
        buffer: s.buffer.insert(s.cursor as int, c),
        cursor: s.cursor + 1,
        ..s
    }
}

/// The line is taken out of the box and remembered, unless it was the last one
/// anyway.
pub open spec fn committed(s: InputView) -> InputView {
    InputView {
        buffer: Seq::empty(),
        cursor: 0,
        history_index: None,
        draft: Seq::empty(),
        history: if s.history.len() > 0 && s.history.last() == s.buffer {
            s.history
        } else {
            s.history.push(s.buffer)
        },
        ..s
    }
}

/// The text with the cursor behind it.
pub open spec fn showing(s: InputView, text: Seq<char>, index: Option<usize>) -> InputView {
    InputView { buffer: text, cursor: text.len(), history_index: index, ..s }
}

/// One step back in the history.
pub open spec fn older(s: InputView) -> InputView {
    if s.history.len() == 0 {
        s
    } else {
        match s.history_index {
            None => {
                let last = (s.history.len() - 1) as usize;
                showing(
                    InputView { draft: s.buffer, ..s },
                    s.history[last as int],
                    Some(last),
                )
            },
            Some(i) => if i == 0 {
                s
            } else {
                showing(s, s.history[i - 1], Some((i - 1) as usize))
            },
        }
    }
}

/// One step forth in the history; past its end, what was being typed.
pub open spec fn newer(s: InputView) -> InputView {
    if s.history.len() == 0 {
        s
    } else {
        match s.history_index {
            None => s,
            Some(i) => if i + 1 >= s.history.len() {
                showing(InputView { draft: Seq::empty(), ..s }, s.draft, None)
            } else {
                showing(s, s.history[i + 1], Some((i + 1) as usize))
            },
        }
    }
}

/// The text after a completion at the cursor: a command that is the only one,
/// or the first entry that completes a mention.
pub open spec fn completed(s: InputView, entries: Seq<EntryView>) -> InputView {
    let at_end = s.cursor == s.buffer.len();
    if at_end && commands_for(s.buffer) is Some && commands_for(s.buffer)->Some_0.len() == 1 {
        let text = "/"@ + commands_for(s.buffer)->Some_0[0] + " "@;
        InputView { buffer: text, cursor: text.len(), ..s }
    } else {
        match mention_at(s.buffer, s.cursor as int) {
            Some((start, prefix)) => if completions(prefix, entries).len() > 0 {
                let text = s.buffer.take(start) + completions(prefix, entries)[0].replacement;
                InputView { buffer: text, cursor: text.len(), ..s }
            } else {
                s
            },
            None => s,
        }
    }
}

/// What the keys do that are no commands.
pub open spec fn edited(s: InputView, code: KeyCode, entries: Seq<EntryView>) -> InputView {
    let line = line_of(s.buffer, s.cursor);
    let col = column_of(s.buffer, s.cursor);
    match code {
        KeyCode::Backspace => if s.cursor > 0 {
            InputView {
                buffer: s.buffer.remove(s.cursor - 1),
                cursor: (s.cursor - 1) as nat,
                ..s
            }
        } else {
            s
        },
        KeyCode::Delete => if s.cursor < s.buffer.len() {
            InputView { buffer: s.buffer.remove(s.cursor as int), ..s }
        } else {
            s
        },
        KeyCode::Left => if s.cursor > 0 {
            InputView { cursor: (s.cursor - 1) as nat, ..s }
        } else {
            s
        },
        KeyCode::Right => if s.cursor < s.buffer.len() {
            InputView { cursor: s.cursor + 1, ..s }
        } else {
            s
        },
        KeyCode::Home => InputView { cursor: position_of(s.buffer, line, 0) as nat, ..s },
        KeyCode::End => InputView {
            cursor: position_of(s.buffer, line, usize::MAX as nat) as nat,
            ..s
        },
        KeyCode::Up => if line_feeds(s.buffer) > 0 {
            if line > 0 {
                InputView {
                    cursor: position_of(s.buffer, (line - 1) as nat, col) as nat,
                    ..s
                }
            } else {
                s
            }
        } else {
            older(s)
        },
        KeyCode::Down => if line_feeds(s.buffer) > 0 {
            if line + 1 < lines_in(s.buffer) {
                InputView { cursor: position_of(s.buffer, line + 1, col) as nat, ..s }
            } else {
                s
            }
        } else {
            newer(s)
        },
        KeyCode::Tab => completed(s, entries),
        KeyCode::Char(c) => typed(s, c),
        _ => s,
    }
}

/// Whether a key is this letter with the control key.
pub open spec fn is_control(key: Key, c: char) -> bool {
    key.code == KeyCode::Char(c) && key.control
}

/// Whether a second Ctrl-C comes soon enough to quit.
pub open spec fn soon(last: Option<u64>, now: u64) -> bool {
    match last {
        Some(t) => now - t < CTRL_C_QUIT_WINDOW_MILLIS,
        None => false,
    }
}

/// What a key does, at a time in milliseconds.
pub open spec fn pressed(
    s0: InputView,
    key: Key,
    mode: InputMode,
    now: u64,
    entries: Seq<EntryView>,
) -> (InputView, OutcomeView) {
    let ctrl_c = is_control(key, 'c');
    let may_quit = ctrl_c && mode == InputMode::Idle && s0.buffer.len() == 0;
    let s = if may_quit {
        s0
    } else {
        InputView { last_idle_ctrl_c: None, ..s0 }
    };
    if is_control(key, 'd') {
        (
            s,
            if mode == InputMode::Idle && s.buffer.len() == 0 {
                OutcomeView::Quit
            } else {
                OutcomeView::Handled
            },
        )
    } else if key.code == KeyCode::Enter && (key.alt || key.shift) {
        (typed(s, '\n'), OutcomeView::Handled)
    } else if key.code == KeyCode::Esc || ctrl_c {
        if mode == InputMode::Running {
            (s, OutcomeView::CancelTurn)
        } else if may_quit {
            if soon(s0.last_idle_ctrl_c, now) {
                (s, OutcomeView::Quit)
            } else {
                (InputView { last_idle_ctrl_c: Some(now), ..s }, OutcomeView::CtrlCHint)
            }
        } else {
            (
                InputView { buffer: Seq::empty(), cursor: 0, history_index: None, ..s },
                OutcomeView::Handled,
            )
        }
    } else if key.code == KeyCode::Enter {
        if s.buffer.len() == 0 {
            (s, OutcomeView::Handled)
        } else {
            (committed(s), OutcomeView::Submit(s.buffer))
        }
    } else {
        (edited(s, key.code, entries), OutcomeView::Handled)
    }
}

impl InputBoxState {
    /// An empty box with a history.
    pub fn new(history: Vec<String>) -> (r: InputBoxState)
        ensures
            r@ == (InputView {
                buffer: Seq::empty(),
                cursor: 0,
                history: views(history@),
                history_index: None,
                draft: Seq::empty(),
                last_idle_ctrl_c: None,
            }),
            r@.well_formed(),
    {
        InputBoxState {
            buffer: Vec::new(),
            cursor: 0,
            history,
            history_index: None,
            draft: Vec::new(),
            last_idle_ctrl_c: None,
        }
    }

    /// Takes the line out of the box and remembers it.
    fn commit(&mut self) -> (line: String)
        requires
            old(self)@.well_formed(),
        ensures
            line@ == old(self)@.buffer,
            final(self)@ == committed(old(self)@),
            final(self)@.well_formed(),
    {
        let line = text_of(&self.buffer);
        self.buffer = Vec::new();
        self.cursor = 0;
        self.history_index = None;
        self.draft = Vec::new();
        let n: usize = self.history.len();
        let repeated = n > 0 && self.history[n - 1] == line;
        if !repeated {
            let ghost before = views(self.history@);
            self.history.push(line.clone());
            assert(views(self.history@) == before.push(line@));
        }
        line
    }

    fn insert(&mut self, c: char)
        requires
            old(self)@.well_formed(),
        ensures
            final(self)@ == typed(old(self)@, c),
            final(self)@.well_formed(),
    {
        self.buffer.insert(self.cursor, c);
        let n: usize = self.buffer.len();
        assert(self.cursor < n);
        self.cursor = self.cursor + 1;
    }

    fn show(&mut self, text: Vec<char>, index: Option<usize>)
        requires
            old(self)@.well_formed(),
            index matches Some(i) ==> i < old(self)@.history.len(),
        ensures
            final(self)@ == showing(old(self)@, text@, index),
            final(self)@.well_formed(),
    {
        self.cursor = text.len();
        self.buffer = text;
        self.history_index = index;
    }

    /// Goes one step back (`older_entry`) or forth in the history.
    pub fn navigate_history(&mut self, older_entry: bool)
        requires
            old(self)@.well_formed(),
        ensures
            final(self)@ == if older_entry {
                older(old(self)@)
            } else {
                newer(old(self)@)
            },
            final(self)@.well_formed(),
    {
        let n: usize = self.history.len();
        if n == 0 {
            return;
        }
        match self.history_index {
            None => {
                if older_entry {
                    let text = chars_of(self.history[n - 1].as_str());
                    assert(text@ == self@.history[n - 1]);
                    let mut draft: Vec<char> = Vec::new();
                    std::mem::swap(&mut draft, &mut self.buffer);
                    self.draft = draft;
                    self.cursor = text.len();
                    self.buffer = text;
                    self.history_index = Some(n - 1);
                }
            },
            Some(i) => {
                if older_entry {
                    if i > 0 {
                        let text = chars_of(self.history[i - 1].as_str());
                        assert(text@ == self@.history[i - 1]);
                        self.show(text, Some(i - 1));
                    }
                } else if i + 1 >= n {
                    let mut draft: Vec<char> = Vec::new();
                    std::mem::swap(&mut draft, &mut self.draft);
                    self.cursor = draft.len();
                    self.buffer = draft;
                    self.history_index = None;
                } else {
                    let text = chars_of(self.history[i + 1].as_str());
                    assert(text@ == self@.history[i + 1]);
                    self.show(text, Some(i + 1));
                }
            },
        }
    }

    /// Completes a command or a mention at the cursor. The entries are those of
    /// the directory that the mention names.
    pub fn complete(&mut self, entries: &Vec<Entry>)
        requires
            old(self)@.well_formed(),
        ensures
            final(self)@ == completed(old(self)@, views(entries@)),
            final(self)@.well_formed(),
    {
        let n: usize = self.buffer.len();
        if self.cursor == n {
            let line = text_of(&self.buffer);
            let end: usize = line.as_str().len();
            if let Some(matches) = matching_slash_commands(line.as_str(), end) {
                assert(matches@.len() == commands_for(self@.buffer)->Some_0.len());
                if matches.len() == 1 {
                    assert(matches@[0]@ == commands_for(self@.buffer)->Some_0[0]);
                    let mut text = "/".to_owned();
                    text.append(matches[0].as_str());
                    text.append(" ");
                    let v = chars_of(text.as_str());
                    self.cursor = v.len();
                    self.buffer = v;
                    return;
                }
            }
        }
        if let Some((start, prefix)) = mention_before(&self.buffer, self.cursor) {
            let candidates = complete_at_mention(prefix.as_str(), entries);
            assert(candidates@.len() == completions(prefix@, views(entries@)).len());
            if candidates.len() > 0 {
                assert(candidates@[0]@ == completions(prefix@, views(entries@))[0]);
                let mut tail = chars_of(candidates[0].replacement.as_str());
                let ghost before = self.buffer@;
                self.buffer.truncate(start);
                assert(self.buffer@ =~= before.take(start as int));
                self.buffer.append(&mut tail);
                self.cursor = self.buffer.len();
            }
        }
    }

    fn edit(&mut self, code: KeyCode, entries: &Vec<Entry>)
        requires
            old(self)@.well_formed(),
        ensures
            final(self)@ == edited(old(self)@, code, views(entries@)),
            final(self)@.well_formed(),
    {
        match code {
            KeyCode::Backspace => {
                if self.cursor > 0 {
                    self.buffer.remove(self.cursor - 1);
                    self.cursor = self.cursor - 1;
                }
            },
            KeyCode::Delete => {
                if self.cursor < self.buffer.len() {
                    self.buffer.remove(self.cursor);
                }
            },
            KeyCode::Left => {
                if self.cursor > 0 {
                    self.cursor = self.cursor - 1;
                }
            },
            KeyCode::Right => {
                if self.cursor < self.buffer.len() {
                    self.cursor = self.cursor + 1;
                }
            },
            KeyCode::Home => {
                let (line, _) = line_and_column(&self.buffer, self.cursor);
                self.cursor = cursor_at(&self.buffer, line, 0);
            },
            KeyCode::End => {
                let (line, _) = line_and_column(&self.buffer, self.cursor);
                self.cursor = cursor_at(&self.buffer, line, usize::MAX);
            },
            KeyCode::Up => {
                if count_line_feeds(&self.buffer) > 0 {
                    let (line, col) = line_and_column(&self.buffer, self.cursor);
                    if line > 0 {
                        self.cursor = cursor_at(&self.buffer, line - 1, col);
                    }
                } else {
                    self.navigate_history(true);
                }
            },
            KeyCode::Down => {
                let feeds: usize = count_line_feeds(&self.buffer);
                if feeds > 0 {
                    let (line, col) = line_and_column(&self.buffer, self.cursor);
                    if line < feeds {
                        self.cursor = cursor_at(&self.buffer, line + 1, col);
                    }
                } else {
                    self.navigate_history(false);
                }
            },
            KeyCode::Tab => {
                self.complete(entries);
            },
            KeyCode::Char(c) => {
                self.insert(c);
            },
            _ => {},
        }
    }

    /// Handles a key that was pressed at a time in milliseconds. The entries
    /// are those of the directory that the mention at the cursor names.
    pub fn handle_key(
        &mut self,
        key: Key,
        mode: InputMode,
        now: u64,
        entries: &Vec<Entry>,
    ) -> (r: InputOutcome)
        requires
            old(self)@.well_formed(),
        ensures
            (final(self)@, r@) == pressed(old(self)@, key, mode, now, views(entries@)),
            final(self)@.well_formed(),
    {
        let ctrl_c = key.control && key.code == KeyCode::Char('c');
        let ctrl_d = key.control && key.code == KeyCode::Char('d');
        let may_quit = ctrl_c && mode == InputMode::Idle && self.buffer.len() == 0;
        let last = self.last_idle_ctrl_c;
        if !may_quit {
            self.last_idle_ctrl_c = None;
        }
        if ctrl_d {
            return if mode == InputMode::Idle && self.buffer.len() == 0 {
                InputOutcome::Quit
            } else {
                InputOutcome::Handled
            };
        }
        if key.code == KeyCode::Enter && (key.alt || key.shift) {
            self.insert('\n');
            return InputOutcome::Handled;
        }
        if key.code == KeyCode::Esc || ctrl_c {
            if mode == InputMode::Running {
                return InputOutcome::CancelTurn;
            }
            if may_quit {
                let armed = match last {
                    Some(t) => now < t || now - t < CTRL_C_QUIT_WINDOW_MILLIS,
                    None => false,
                };
                if armed {
                    return InputOutcome::Quit;
                }
                self.last_idle_ctrl_c = Some(now);
                return InputOutcome::CtrlCHint;
            }
            self.buffer = Vec::new();
            self.cursor = 0;
            self.history_index = None;
            return InputOutcome::Handled;
        }
        if key.code == KeyCode::Enter {
            return if self.buffer.len() == 0 {
                InputOutcome::Handled
            } else {
                InputOutcome::Submit(self.commit())
            };
        }
        self.edit(key.code, entries);
        InputOutcome::Handled
    }

    /// The text in the box.
    pub fn buffer(&self) -> (r: String)
        ensures
            r@ == self@.buffer,
    {
        text_of(&self.buffer)
    }

    /// The number of characters before the cursor.
    pub fn cursor(&self) -> (r: usize)
        ensures
            r == self@.cursor,
    {
        self.cursor
    }

    /// What was entered before.
    pub fn history(&self) -> (r: &Vec<String>)
        ensures
            views(r@) == self@.history,
    {
        &self.history
    }

    /// The contents of the box, to be drawn elsewhere.
    pub fn snapshot(&self, mode: InputMode) -> (r: PinnedInputSnapshot)
        ensures
            r.buffer@ == self@.buffer,
            r.cursor == self@.cursor,
            r.mode == mode,
    {
        PinnedInputSnapshot { buffer: text_of(&self.buffer), cursor: self.cursor, mode }
    }
}

/// The contents of the box.
pub struct PinnedInputSnapshot {
    pub buffer: String,
    pub cursor: usize,
    pub mode: InputMode,
}

// ---------------------------------------------------------------------------
// Laws
// ---------------------------------------------------------------------------

/// While a turn runs no key leaves the program, nor hints at leaving it.
pub proof fn law_running_never_quits(s: InputView, key: Key, now: u64, entries: Seq<EntryView>)
    ensures
        !(pressed(s, key, InputMode::Running, now, entries).1 is Quit),
        !(pressed(s, key, InputMode::Running, now, entries).1 is CtrlCHint),
{
}

/// A first Ctrl-C in an empty idle box only hints; a second one within the
/// window quits; any other key in between takes the first one back.
pub proof fn law_two_ctrl_cs_quit(
    s: InputView,
    between: Key,
    t1: u64,
    t2: u64,
    entries: Seq<EntryView>,
)
    requires
        s.buffer.len() == 0,
        s.last_idle_ctrl_c is None,
        !is_control(between, 'c'),
    ensures
        ({
            let c = Key { code: KeyCode::Char('c'), control: true, alt: false, shift: false };
            let first = pressed(s, c, InputMode::Idle, t1, entries);
            &&& first.1 == OutcomeView::CtrlCHint
            &&& t2 - t1 < CTRL_C_QUIT_WINDOW_MILLIS ==> pressed(
                first.0,
                c,
                InputMode::Idle,
                t2,
                entries,
            ).1 == OutcomeView::Quit
            &&& pressed(first.0, between, InputMode::Idle, t1, entries).0.last_idle_ctrl_c is None
        }),
{
}

/// Steps in the history, each back (`true`) or forth.
pub open spec fn walked(s: InputView, steps: Seq<bool>) -> InputView
    decreases steps.len(),
{
    if steps.len() == 0 {
        s
    } else {
        let before = walked(s, steps.drop_last());
        if steps.last() {
            older(before)
        } else {
            newer(before)
        }
    }
}

/// `back` steps back in the history, then `forth` steps forth.
pub open spec fn back_and_forth(back: nat, forth: nat) -> Seq<bool> {
    Seq::new(back + forth, |i: int| i < back)
}

/// How many steps the entry that is shown lies back.
pub open spec fn steps_back(s: InputView) -> int {
    match s.history_index {
        None => 0,
        Some(i) => s.history.len() - i,
    }
}

/// However one goes back and forth in the history, its entries stay as they
/// were, and what was typed before is there again whenever one has left it.
pub proof fn law_history_keeps_draft(s: InputView, steps: Seq<bool>)
    requires
        s.history_index is None,
        s.history.len() <= usize::MAX,
    ensures
        walked(s, steps).history == s.history,
        match walked(s, steps).history_index {
            None => walked(s, steps).buffer == s.buffer,
            Some(i) => i < s.history.len() && walked(s, steps).buffer == s.history[i as int]
                && walked(s, steps).draft == s.buffer,
        },
    decreases steps.len(),
{
    if steps.len() > 0 {
        law_history_keeps_draft(s, steps.drop_last());
    }
}

proof fn lemma_back_and_forth(s: InputView, back: nat, forth: nat)
    requires
        s.history_index is None,
        s.history.len() <= usize::MAX,
    ensures
        ({
            let deepest = if back < s.history.len() {
                back as int
            } else {
                s.history.len() as int
            };
            steps_back(walked(s, back_and_forth(back, forth))) == if forth < deepest {
                deepest - forth
            } else {
                0
            }
        }),
    decreases back + forth,
{
    let steps = back_and_forth(back, forth);
    if forth > 0 {
        law_history_keeps_draft(s, steps.drop_last());
        lemma_back_and_forth(s, back, (forth - 1) as nat);
        assert(steps.drop_last() =~= back_and_forth(back, (forth - 1) as nat));
    } else if back > 0 {
        law_history_keeps_draft(s, steps.drop_last());
        lemma_back_and_forth(s, (back - 1) as nat, 0);
        assert(steps.drop_last() =~= back_and_forth((back - 1) as nat, 0));
    }
}

proof fn lemma_cursor_comes_back(s: InputView, back: nat, forth: nat)
    requires
        s.history.len() > 0,
        s.history_index is None,
        s.history.len() <= usize::MAX,
        back > 0,
        forth > 0,
        walked(s, back_and_forth(back, forth)).history_index is None,
    ensures
        walked(s, back_and_forth(back, forth)).cursor == s.buffer.len(),
    decreases forth,
{
    let before = back_and_forth(back, forth).drop_last();
    assert(before =~= back_and_forth(back, (forth - 1) as nat));
    law_history_keeps_draft(s, before);
    lemma_back_and_forth(s, back, (forth - 1) as nat);
    if walked(s, before).history_index is None {
        lemma_cursor_comes_back(s, back, (forth - 1) as nat);
    }
}

/// Going back in the history any number of steps, and forth again as many or
/// more, brings back what was typed, with the cursor behind it.
pub proof fn law_draft_comes_back(s: InputView, back: nat, forth: nat)
    requires
        s.history.len() > 0,
        s.history_index is None,
        s.history.len() <= usize::MAX,
        0 < back <= forth,
    ensures
        walked(s, back_and_forth(back, forth)).history_index is None,
        walked(s, back_and_forth(back, forth)).buffer == s.buffer,
        walked(s, back_and_forth(back, forth)).cursor == s.buffer.len(),
{
    law_history_keeps_draft(s, back_and_forth(back, forth));
    lemma_back_and_forth(s, back, forth);
    lemma_cursor_comes_back(s, back, forth);
}

/// Whatever key is pressed, the cursor stays in the text. The history stays as it
/// is, unless a line is entered: then it is as before, or has that line at its
/// end, and the box is empty.
pub proof fn law_keys_keep_cursor_and_history(
    s: InputView,
    key: Key,
    mode: InputMode,
    now: u64,
    entries: Seq<EntryView>,
)
    requires
        s.well_formed(),
    ensures
        ({
            let (after, outcome) = pressed(s, key, mode, now, entries);
            &&& after.cursor <= after.buffer.len()
            &&& match outcome {
                OutcomeView::Submit(line) => (after.history == s.history || after.history
                    == s.history.push(line)) && after.buffer.len() == 0 && after.cursor == 0,
                _ => after.history == s.history,
            }
        }),
{
    assert forall|line: nat, col: nat| 0 <= #[trigger] position_of(s.buffer, line, col)
        <= s.buffer.len() by {
        lemma_position_in_text(s.buffer, line, col);
    }
}

/// Deleting backwards takes back what was typed, wherever the cursor is.
pub proof fn law_backspace_undoes_typing(
    s: InputView,
    c: char,
    mode: InputMode,
    now: u64,
    later: u64,
    entries: Seq<EntryView>,
)
    requires
        s.well_formed(),
    ensures
        ({
            let char_key = Key { code: KeyCode::Char(c), control: false, alt: false, shift: false };
            let backspace = Key {
                code: KeyCode::Backspace,
                control: false,
                alt: false,
                shift: false,
            };
            let (after, outcome) = pressed(s, char_key, mode, now, entries);
            &&& outcome is Handled
            &&& pressed(after, backspace, mode, later, entries) == (
                InputView { last_idle_ctrl_c: None, ..s },
                OutcomeView::Handled,
            )
        }),
{
    assert(s.buffer.insert(s.cursor as int, c).remove(s.cursor as int) =~= s.buffer);
}

// ---------------------------------------------------------------------------
// How the box is drawn
// ---------------------------------------------------------------------------

/// The style of the panel.
pub open spec fn panel_style(color: bool) -> Style {
    if color {
        Style { fg: Some(Color::Rgb(220, 220, 225)), bg: Some(Color::Rgb(30, 32, 38)), ..plain() }
    } else {
        plain()
    }
}

/// The style of the panel.
pub fn panel(color: bool) -> (r: Style)
    ensures
        r == panel_style(color),
{
    if color {
        Style {
            fg: Some(Color::Rgb(220, 220, 225)),
            bg: Some(Color::Rgb(30, 32, 38)),
            bold: false,
            dim: false,
            italic: false,
            underlined: false,
        }
    } else {
        Style::default()
    }
}

/// The colour that says whether a turn is running.
pub open spec fn accent_color(mode: InputMode) -> Color {
    match mode {
        InputMode::Running => Color::LightYellow,
        InputMode::Idle => Color::Yellow,
    }
}

/// The colour that says whether a turn is running.
pub fn accent(mode: InputMode) -> (r: Color)
    ensures
        r == accent_color(mode),
{
    match mode {
        InputMode::Running => Color::LightYellow,
        InputMode::Idle => Color::Yellow,
    }
}

/// The sign before the first line.
pub open spec fn glyph(mode: InputMode) -> Seq<char> {
    match mode {
        InputMode::Idle => "❯ "@,
        InputMode::Running => "» "@,
    }
}

/// The style of the sign before the first line.
pub open spec fn glyph_style(mode: InputMode, color: bool) -> Style {
    if color {
        Style { fg: Some(accent_color(mode)), bold: true, ..panel_style(color) }
    } else {
        plain()
    }
}

/// The `i`-th line of the box: a sign or an indent, then a line of the text.
pub open spec fn box_line(
    buffer: Seq<char>,
    offset: nat,
    i: nat,
    mode: InputMode,
    color: bool,
) -> Seq<SpanView> {
    let lines = split(buffer, '\n');
    let text = if offset + i < lines.len() {
        lines[(offset + i) as int]
    } else {
        Seq::empty()
    };
    seq![
        if i == 0 {
            SpanView { content: glyph(mode), style: glyph_style(mode, color) }
        } else {
            SpanView { content: "  "@, style: panel_style(color) }
        },
        SpanView { content: text, style: panel_style(color) },
    ]
}

/// The lines of the box with room for `visible` of them: those around the
/// cursor.
pub fn box_lines(
    buffer: &str,
    cursor: usize,
    mode: InputMode,
    visible: usize,
    color: bool,
) -> (r: Vec<Line>)
    requires
        buffer@.len() < usize::MAX,
    ensures
        r@.len() == visible,
        forall|i: int|
            0 <= i < visible ==> (#[trigger] r@[i])@ == box_line(
                buffer@,
                first_shown(
                    lines_in(buffer@),
                    line_of(buffer@, cursor as nat),
                    visible as nat,
                ),
                i as nat,
                mode,
                color,
            ),
{
    let v = chars_of(buffer);
    let (cursor_line, _) = line_and_column(&v, cursor);
    let offset: usize = scroll_offset(buffer, cursor_line, visible);
    let lines = split_at_char(buffer, '\n');
    let base = panel(color);
    let sign_style = if color {
        Style { fg: Some(accent(mode)), bold: true, ..base }
    } else {
        Style::default()
    };
    let mut r: Vec<Line> = Vec::new();
    for i in 0..visible
        invariant
            views(lines@) == split(buffer@, '\n'),
            offset == first_shown(
                lines_in(buffer@),
                line_of(buffer@, cursor as nat),
                visible as nat,
            ),
            base == panel_style(color),
            sign_style == glyph_style(mode, color),
            r@.len() == i,
            forall|k: int|
                0 <= k < i ==> (#[trigger] r@[k])@ == box_line(
                    buffer@,
                    offset as nat,
                    k as nat,
                    mode,
                    color,
                ),
    {
        let mut spans: Vec<Span> = Vec::new();
        if i == 0 {
            let sign = match mode {
                InputMode::Idle => "❯ ",
                InputMode::Running => "» ",
            };
            spans.push(Span { content: sign.to_owned(), style: sign_style });
        } else {
            spans.push(Span { content: "  ".to_owned(), style: base });
        }
        let content = if i < lines.len() && offset < lines.len() - i {
            assert(views(lines@)[offset + i] == lines@[offset + i]@);
            lines[offset + i].clone()
        } else {
            String::new()
        };
        spans.push(Span { content, style: base });
        let line = Line { spans };
        assert(line@ =~= box_line(buffer@, offset as nat, i as nat, mode, color));
        r.push(line);
    }
    r
}

/// The style of waiting questions.
pub open spec fn pending_style(color: bool) -> Style {
    if color {
        Style { fg: Some(Color::DarkGray), dim: true, ..plain() }
    } else {
        plain()
    }
}

/// The first line of a text.
pub open spec fn first_line_of(s: Seq<char>) -> Seq<char> {
    s.take(char_from(s, '\n', 0))
}

/// The first line of a text.
pub fn first_line(text: &str) -> (r: String)
    ensures
        r@ == first_line_of(text@),
{
    let v = chars_of(text);
    let k: usize = index_of_char(&v, '\n', 0);
    assert(v@.subrange(0, k as int) == v@.take(k as int));
    text_range(&v, 0, k)
}

/// The number of waiting questions that are shown in so many lines: where they
/// do not fit, the last line says how many more there are.
pub open spec fn pending_shown(n: nat, visible: nat) -> nat {
    if n > visible {
        (visible - 1) as nat
    } else {
        n
    }
}

/// The texts of the lines for waiting questions.
pub open spec fn pending_texts(pending: Seq<Seq<char>>, visible: nat) -> Seq<Seq<char>> {
    if visible == 0 {
        Seq::empty()
    } else {
        let shown = pending_shown(pending.len(), visible);
        let lines = pending.subrange(0, shown as int).map_values(
            |q: Seq<char>| "⏳ "@ + first_line_of(q),
        );
        if pending.len() > visible {
            lines.push("… +"@ + decimal((pending.len() - shown) as nat) + " more waiting"@)
        } else {
            lines
        }
    }
}

/// The lines for waiting questions, in room for `visible` of them.
pub fn pending_lines(pending: &Vec<String>, visible: usize, color: bool) -> (r: Vec<Line>)
    ensures
        views(r@) == pending_texts(views(pending@), visible as nat).map_values(
            |t: Seq<char>| seq![SpanView { content: t, style: pending_style(color) }],
        ),
{
    let style = if color {
        Style {
            fg: Some(Color::DarkGray),
            bg: None,
            bold: false,
            dim: true,
            italic: false,
            underlined: false,
        }
    } else {
        Style::default()
    };
    let mut r: Vec<Line> = Vec::new();
    if visible == 0 {
        assert(views(r@) =~= pending_texts(views(pending@), visible as nat).map_values(
            |t: Seq<char>| seq![SpanView { content: t, style: pending_style(color) }],
        ));
        return r;
    }
    let overflow = pending.len() > visible;
    let shown: usize = if overflow {
        visible - 1
    } else {
        pending.len()
    };
    let ghost texts = pending_texts(views(pending@), visible as nat);
    for i in 0..shown
        invariant
            shown <= pending@.len(),
            visible > 0,
            shown == pending_shown(pending@.len(), visible as nat),
            texts == pending_texts(views(pending@), visible as nat),
            style == pending_style(color),
            r@.len() == i,
            forall|k: int|
                0 <= k < i ==> (#[trigger] r@[k])@ == seq![
                    SpanView { content: texts[k], style: pending_style(color) },
                ],
    {
        let mut text = "⏳ ".to_owned();
        text.append(first_line(pending[i].as_str()).as_str());
        assert(text@ == texts[i as int]);
        r.push(Line::styled(text, style));
    }
    if overflow {
        let mut text = "… +".to_owned();
        text.append(decimal_text((pending.len() - shown) as u64).as_str());
        text.append(" more waiting");
        assert(text@ == texts[shown as int]);
        r.push(Line::styled(text, style));
    }
    assert(r@.len() == texts.len());
    assert(views(r@) =~= texts.map_values(
        |t: Seq<char>| seq![SpanView { content: t, style: pending_style(color) }],
    ));
    r
}

/// The number of columns that a character takes.
pub uninterp spec fn char_columns(c: char) -> Option<usize>;

/// `unicode_width::UnicodeWidthChar::width`: the columns that a character
/// takes, none for a control character. No character takes more than three.
#[verifier::external_body]
fn columns_of(c: char) -> (r: Option<usize>)
    ensures
        r == char_columns(c),
        r matches Some(n) ==> n <= 3,
{
    unicode_width::UnicodeWidthChar::width(c)
}

/// The columns that the characters of a text take.
pub open spec fn columns(s: Seq<char>) -> nat
    decreases s.len(),
{
    if s.len() == 0 {
        0
    } else {
        columns(s.drop_last()) + match char_columns(s.last()) {
            Some(n) => n as nat,
            None => 0,
        }
    }
}

/// The cell of the cursor, from the widths of the characters before it.
pub open spec fn cursor_cell(area: Rect, buffer: Seq<char>, cursor: nat, pending: nat) -> (int, int) {
    match parts_of(area, pending).interior {
        None => (area.x as int, area.y as int),
        Some(interior) => {
            let line = line_of(buffer, cursor);
            let offset = first_shown(lines_in(buffer), line, interior.height as nat);
            (
                interior.x + 2 + columns(before_cursor(buffer, cursor)),
                interior.y + (line - offset),
            )
        },
    }
}

proof fn lemma_columns_grow(s: Seq<char>, i: int)
    requires
        0 <= i <= s.len(),
    ensures
        columns(s.take(i)) <= columns(s),
    decreases s.len(),
{
    if i == s.len() {
        assert(s.take(i) == s);
    } else {
        lemma_columns_grow(s.drop_last(), i);
        assert(s.drop_last().take(i) == s.take(i));
    }
}

/// The columns that a text takes, where they can be counted in 16 bits.
fn counted_columns(text: &Vec<char>) -> (r: Option<u16>)
    ensures
        match r {
            Some(n) => n == columns(text@),
            None => columns(text@) > u16::MAX,
        },
{
    let mut width: u16 = 0;
    for i in 0..text.len()
        invariant
            width == columns(text@.take(i as int)),
    {
        assert(text@.take(i + 1).drop_last() == text@.take(i as int));
        let w: usize = match columns_of(text[i]) {
            Some(n) => n,
            None => 0,
        };
        proof {
            lemma_columns_grow(text@, i + 1);
        }
        if w as u16 > u16::MAX - width {
            return None;
        }
        width = width + w as u16;
    }
    assert(text@.take(text@.len() as int) == text@);
    Some(width)
}

/// The text of the cursor's line before the cursor.
pub open spec fn before_cursor(buffer: Seq<char>, cursor: nat) -> Seq<char> {
    let lines = split(buffer, '\n');
    let line = line_of(buffer, cursor);
    let text = if line < lines.len() {
        lines[line as int]
    } else {
        Seq::empty()
    };
    first_chars(text, column_of(buffer, cursor))
}

/// The text of the cursor's line before the cursor.
fn text_before_cursor(buffer: &str, cursor: usize) -> (r: Vec<char>)
    requires
        buffer@.len() < usize::MAX,
    ensures
        r@ == before_cursor(buffer@, cursor as nat),
{
    let v = chars_of(buffer);
    let (line, col) = line_and_column(&v, cursor);
    let lines = split_at_char(buffer, '\n');
    let ghost all = split(buffer@, '\n');
    let text = if line < lines.len() {
        assert(all[line as int] == lines@[line as int]@);
        lines[line].clone()
    } else {
        String::new()
    };
    let mut chars = chars_of(text.as_str());
    if col < chars.len() {
        chars.truncate(col);
    }
    assert(chars@ =~= before_cursor(buffer@, cursor as nat));
    chars
}

/// Where the cursor is on the screen. Its column must be one that can be
/// counted.
pub fn cursor_screen_position_for(
    area: Rect,
    buffer: &str,
    cursor: usize,
    pending: &Vec<String>,
) -> (r: (u16, u16))
    requires
        area.fits(),
        buffer@.len() < usize::MAX,
        cursor_cell(area, buffer@, cursor as nat, pending@.len()).0 <= u16::MAX,
    ensures
        (r.0 as int, r.1 as int) == cursor_cell(area, buffer@, cursor as nat, pending@.len()),
{
    let parts = split_bottom(area, pending);
    match parts.interior {
        None => (area.x, area.y),
        Some(interior) => {
            let v = chars_of(buffer);
            let (line, _col) = line_and_column(&v, cursor);
            let visible: usize = interior.height as usize;
            let offset: usize = scroll_offset(buffer, line, visible);
            proof {
                law_cursor_line_is_shown(buffer@, cursor as nat, 1);
                if visible > 0 {
                    law_cursor_line_is_shown(buffer@, cursor as nat, visible as nat);
                }
            }
            let row: u16 = interior.y + (line - offset) as u16;
            let width: u16 = match counted_columns(&text_before_cursor(buffer, cursor)) {
                Some(n) => n,
                None => 0,
            };
            (interior.x + 2 + width, row)
        },
    }
}

/// Where the cursor is on the screen, if its column is one that can be counted.
pub fn cursor_on_screen(area: Rect, buffer: &str, cursor: usize, pending: &Vec<String>) -> (r:
    Option<(u16, u16)>)
    requires
        area.fits(),
        buffer@.len() < usize::MAX,
    ensures
        match r {
            Some(p) => (p.0 as int, p.1 as int) == cursor_cell(
                area,
                buffer@,
                cursor as nat,
                pending@.len(),
            ),
            None => cursor_cell(area, buffer@, cursor as nat, pending@.len()).0 > u16::MAX,
        },
{
    if let Some(interior) = split_bottom(area, pending).interior {
        match counted_columns(&text_before_cursor(buffer, cursor)) {
            None => {
                return None;
            },
            Some(width) => {
                if interior.x > u16::MAX - 2 || width > u16::MAX - 2 - interior.x {
                    return None;
                }
            },
        }
    }
    Some(cursor_screen_position_for(area, buffer, cursor, pending))
}

} // verus!
