//! The full-screen session: what happens on each event, and the texts around
//! the conversation.
use vstd::prelude::*;

use crate::input_box::{InputMode, InputOutcome, OutcomeView};
use crate::model::{group_views, views};
use crate::reporter::{painted, paint, BOLD, DIM, RED, RESET, YELLOW};
use crate::session::{agent_error_text, AgentError, AgentErrorView};
use crate::text::{decimal, decimal_text, same, strip_prefix, trim, trimmed, without_prefix};

verus! {

broadcast use group_views;

/// How long a cancelled turn may go on before it is cut off, in milliseconds.
pub const INTERRUPT_GRACE_MILLIS: u64 = 1500;

// ---------------------------------------------------------------------------
// While a turn runs
// ---------------------------------------------------------------------------

/// What happens while a turn runs.
pub enum RunEvent {
    /// The turn is over.
    Finished,
    /// The time for a cancelled turn is up.
    DeadlinePassed,
    /// It is time to draw again.
    Tick,
    /// Nothing came from the terminal, or nothing that counts.
    Nothing,
    /// The transcript was scrolled.
    Scrolled,
    /// A key was pressed, and the input box did this with it.
    Key(InputOutcome),
    /// The model asks the user something.
    Question,
}

/// What is to be done then.
pub enum RunAction {
    /// Give back what the turn gave.
    Return,
    /// Cut the turn off.
    Interrupt,
    Wait,
    Redraw,
    /// Ask the turn to stop, and cut it off at the deadline.
    Cancel { deadline: u64 },
    /// Answer this beside the turn.
    Aside(String),
    /// Show the question.
    Ask,
}

#[verifier::ext_equal]
pub enum RunEventView {
    Finished,
    DeadlinePassed,
    Tick,
    Nothing,
    Scrolled,
    Key(OutcomeView),
    Question,
}

#[verifier::ext_equal]
pub enum RunActionView {
    Return,
    Interrupt,
    Wait,
    Redraw,
    Cancel { deadline: u64 },
    Aside(Seq<char>),
    Ask,
}

impl View for RunEvent {
    type V = RunEventView;

    open spec fn view(&self) -> RunEventView {
        match self {
            RunEvent::Finished => RunEventView::Finished,
            RunEvent::DeadlinePassed => RunEventView::DeadlinePassed,
            RunEvent::Tick => RunEventView::Tick,
            RunEvent::Nothing => RunEventView::Nothing,
            RunEvent::Scrolled => RunEventView::Scrolled,
            RunEvent::Key(o) => RunEventView::Key(o@),
            RunEvent::Question => RunEventView::Question,
        }
    }
}

impl View for RunAction {
    type V = RunActionView;

    open spec fn view(&self) -> RunActionView {
        match self {
            RunAction::Return => RunActionView::Return,
            RunAction::Interrupt => RunActionView::Interrupt,
            RunAction::Wait => RunActionView::Wait,
            RunAction::Redraw => RunActionView::Redraw,
            RunAction::Cancel { deadline } => RunActionView::Cancel { deadline: *deadline },
            RunAction::Aside(s) => RunActionView::Aside(s@),
            RunAction::Ask => RunActionView::Ask,
        }
    }
}

/// Watches over a running turn.
pub struct TurnWatch {
    /// The turn was asked to stop.
    pub cancelled: bool,
}

/// What is to be done on an event, and whether the turn was asked to stop.
pub open spec fn run_step(cancelled: bool, e: RunEventView, now: u64) -> (bool, RunActionView) {
    match e {
        RunEventView::Finished => (cancelled, RunActionView::Return),
        RunEventView::DeadlinePassed => (cancelled, RunActionView::Interrupt),
        RunEventView::Nothing => (cancelled, RunActionView::Wait),
        RunEventView::Tick | RunEventView::Scrolled => (cancelled, RunActionView::Redraw),
        RunEventView::Question => (cancelled, RunActionView::Ask),
        RunEventView::Key(OutcomeView::CancelTurn) => if cancelled {
            (cancelled, RunActionView::Interrupt)
        } else {
            (true, RunActionView::Cancel { deadline: (now + INTERRUPT_GRACE_MILLIS) as u64 })
        },
        RunEventView::Key(OutcomeView::Submit(text)) => (cancelled, RunActionView::Aside(text)),
        RunEventView::Key(_) => (cancelled, RunActionView::Redraw),
    }
}

impl TurnWatch {
    /// The watch at the start of a turn.
    pub fn new() -> (r: TurnWatch)
        ensures
            !r.cancelled,
    {
        TurnWatch { cancelled: false }
    }

    /// What is to be done on an event at the time `now`, in milliseconds.
    pub fn step(&mut self, event: RunEvent, now: u64) -> (r: RunAction)
        requires
            now + INTERRUPT_GRACE_MILLIS <= u64::MAX,
        ensures
            (final(self).cancelled, r@) == run_step(old(self).cancelled, event@, now),
    {
        match event {
            RunEvent::Finished => RunAction::Return,
            RunEvent::DeadlinePassed => RunAction::Interrupt,
            RunEvent::Nothing => RunAction::Wait,
            RunEvent::Tick | RunEvent::Scrolled => RunAction::Redraw,
            RunEvent::Question => RunAction::Ask,
            RunEvent::Key(InputOutcome::CancelTurn) => {
                if self.cancelled {
                    RunAction::Interrupt
                } else {
                    self.cancelled = true;
                    RunAction::Cancel { deadline: now + INTERRUPT_GRACE_MILLIS }
                }
            },
            RunEvent::Key(InputOutcome::Submit(text)) => RunAction::Aside(text),
            RunEvent::Key(_) => RunAction::Redraw,
        }
    }
}

/// What some events lead to: the actions, up to the one that ends the turn.
pub open spec fn run_actions(cancelled: bool, events: Seq<(RunEventView, u64)>) -> Seq<
    RunActionView,
>
    decreases events.len(),
{
    if events.len() == 0 {
        Seq::empty()
    } else {
        let (next, action) = run_step(cancelled, events[0].0, events[0].1);
        if action is Return || action is Interrupt {
            seq![action]
        } else {
            seq![action] + run_actions(next, events.skip(1))
        }
    }
}

/// The first request to stop gives a turn its time; the second, or the end of
/// that time, cuts it off.
pub proof fn law_second_cancel_interrupts(now: u64, later: u64)
    ensures
        ({
            let cancel = RunEventView::Key(OutcomeView::CancelTurn);
            let (cancelled, action) = run_step(false, cancel, now);
            &&& action == RunActionView::Cancel { deadline: (now + INTERRUPT_GRACE_MILLIS) as u64 }
            &&& run_step(cancelled, cancel, later).1 is Interrupt
            &&& run_step(cancelled, RunEventView::DeadlinePassed, later).1 is Interrupt
        }),
{
}

/// A turn that nobody asks to stop is not cut off.
pub proof fn law_uncancelled_turn_is_not_cut_off(events: Seq<(RunEventView, u64)>)
    requires
        forall|i: int|
            0 <= i < events.len() ==> (#[trigger] events[i]).0 != RunEventView::Key(
                OutcomeView::CancelTurn,
            ) && !(events[i].0 is DeadlinePassed),
    ensures
        forall|i: int|
            0 <= i < run_actions(false, events).len() ==> !(#[trigger] run_actions(
                false,
                events,
            )[i] is Interrupt),
    decreases events.len(),
{
    if events.len() > 0 {
        let (next, action) = run_step(false, events[0].0, events[0].1);
        assert(events[0].0 != RunEventView::Key(OutcomeView::CancelTurn));
        assert(!next && !(action is Interrupt));
        assert forall|i: int| 0 <= i < events.skip(1).len() implies (#[trigger] events.skip(1)[i]).0
            != RunEventView::Key(OutcomeView::CancelTurn) && !(events.skip(1)[i].0
            is DeadlinePassed) by {
            assert(events.skip(1)[i] == events[i + 1]);
        }
        law_uncancelled_turn_is_not_cut_off(events.skip(1));
        if !(action is Return) {
            let rest = run_actions(false, events.skip(1));
            let all = run_actions(false, events);
            assert forall|i: int| 0 <= i < all.len() implies !(#[trigger] all[i] is Interrupt) by {
                if i > 0 {
                    assert(all[i] == rest[i - 1]);
                }
            }
        }
    }
}

// ---------------------------------------------------------------------------
// While a line is typed
// ---------------------------------------------------------------------------

/// What happens while no turn runs.
pub enum LineEvent {
    /// Nothing more comes from the terminal.
    End,
    /// Nothing came, or nothing that counts.
    Nothing,
    Resized,
    Scrolled,
    /// A key was pressed, and the input box did this with it.
    Key(InputOutcome),
}

/// What is to be done then.
pub enum LineAction {
    /// Leave the program.
    Stop,
    Wait,
    Redraw,
    /// Draw with the hint that the next Ctrl-C leaves.
    RedrawWithHint,
    /// This line was entered.
    Line(String),
}

#[verifier::ext_equal]
pub enum LineActionView {
    Stop,
    Wait,
    Redraw,
    RedrawWithHint,
    Line(Seq<char>),
}

impl View for LineAction {
    type V = LineActionView;

    open spec fn view(&self) -> LineActionView {
        match self {
            LineAction::Stop => LineActionView::Stop,
            LineAction::Wait => LineActionView::Wait,
            LineAction::Redraw => LineActionView::Redraw,
            LineAction::RedrawWithHint => LineActionView::RedrawWithHint,
            LineAction::Line(s) => LineActionView::Line(s@),
        }
    }
}

/// What is to be done on an event while no turn runs.
pub open spec fn line_step(e: LineEvent) -> LineActionView {
    match e {
        LineEvent::End => LineActionView::Stop,
        LineEvent::Nothing => LineActionView::Wait,
        LineEvent::Resized | LineEvent::Scrolled => LineActionView::Redraw,
        LineEvent::Key(InputOutcome::Submit(s)) => LineActionView::Line(s@),
        LineEvent::Key(InputOutcome::Quit) => LineActionView::Stop,
        LineEvent::Key(InputOutcome::CtrlCHint) => LineActionView::RedrawWithHint,
        LineEvent::Key(_) => LineActionView::Redraw,
    }
}

/// What is to be done on an event while no turn runs.
pub fn read_line(event: LineEvent) -> (r: LineAction)
    ensures
        r@ == line_step(event),
{
    match event {
        LineEvent::End => LineAction::Stop,
        LineEvent::Nothing => LineAction::Wait,
        LineEvent::Resized | LineEvent::Scrolled => LineAction::Redraw,
        LineEvent::Key(InputOutcome::Submit(s)) => LineAction::Line(s),
        LineEvent::Key(InputOutcome::Quit) => LineAction::Stop,
        LineEvent::Key(InputOutcome::CtrlCHint) => LineAction::RedrawWithHint,
        LineEvent::Key(_) => LineAction::Redraw,
    }
}

/// What a line that was entered asks for.
pub enum Entered {
    Nothing,
    Leave,
    /// A command, without its slash.
    Command(String),
    /// A task for a turn.
    Task(String),
}

#[verifier::ext_equal]
pub enum EnteredView {
    Nothing,
    Leave,
    Command(Seq<char>),
    Task(Seq<char>),
}

impl View for Entered {
    type V = EnteredView;

    open spec fn view(&self) -> EnteredView {
        match self {
            Entered::Nothing => EnteredView::Nothing,
            Entered::Leave => EnteredView::Leave,
            Entered::Command(s) => EnteredView::Command(s@),
            Entered::Task(s) => EnteredView::Task(s@),
        }
    }
}

/// What a line that was entered asks for.
pub open spec fn entered(line: Seq<char>) -> EnteredView {
    let s = trim(line);
    if s.len() == 0 {
        EnteredView::Nothing
    } else if s == "exit"@ || s == "quit"@ {
        EnteredView::Leave
    } else if let Some(command) = strip_prefix(s, "/"@) {
        EnteredView::Command(command)
    } else {
        EnteredView::Task(s)
    }
}

/// What a line that was entered asks for.
pub fn classify_line(line: &str) -> (r: Entered)
    ensures
        r@ == entered(line@),
{
    let s = trimmed(line);
    if s.as_str().unicode_len() == 0 {
        Entered::Nothing
    } else if same(s.as_str(), "exit") || same(s.as_str(), "quit") {
        Entered::Leave
    } else if let Some(command) = without_prefix(s.as_str(), "/") {
        Entered::Command(command)
    } else {
        Entered::Task(s)
    }
}

// ---------------------------------------------------------------------------
// Texts
// ---------------------------------------------------------------------------

/// The sign before a line that was entered.
pub open spec fn entry_sign(mode: InputMode) -> Seq<char> {
    match mode {
        InputMode::Idle => "❯"@,
        InputMode::Running => "»"@,
    }
}

/// A line that was entered as the transcript shows it.
pub open spec fn echoed(mode: InputMode, text: Seq<char>, color: bool) -> Seq<char> {
    if color {
        BOLD@ + YELLOW@ + entry_sign(mode) + RESET@ + " "@ + text
    } else {
        entry_sign(mode) + " "@ + text
    }
}

/// A line that was entered as the transcript shows it.
pub fn echo_submitted(mode: InputMode, text: &str, color: bool) -> (r: String)
    ensures
        r@ == echoed(mode, text@, color),
{
    let sign = match mode {
        InputMode::Idle => "❯",
        InputMode::Running => "»",
    };
    if color {
        let mut r = BOLD.to_owned();
        r.append(YELLOW);
        r.append(sign);
        r.append(RESET);
        r.append(" ");
        r.append(text);
        r
    } else {
        let mut r = sign.to_owned();
        r.append(" ");
        r.append(text);
        r
    }
}

/// A status with the number of questions that are being answered.
pub open spec fn with_pending(base: Seq<char>, pending: nat) -> Seq<char> {
    if pending == 0 {
        base
    } else {
        base + " · "@ + decimal(pending) + " answering"@
    }
}

/// The status while a turn runs.
pub fn running_status(base: &str, pending: usize) -> (r: String)
    ensures
        r@ == with_pending(base@, pending as nat),
{
    let mut r = base.to_owned();
    if pending > 0 {
        r.append(" · ");
        r.append(decimal_text(pending as u64).as_str());
        r.append(" answering");
    }
    r
}

/// The status while no turn runs.
pub open spec fn idle_status(
    provider: Seq<char>,
    model: Seq<char>,
    dir: Seq<char>,
    pending: nat,
) -> Seq<char> {
    with_pending(
        provider + " ("@ + model + ") · "@ + dir
            + " · Alt+Enter for newline · Ctrl-D/exit/Ctrl-C twice quits · Tab completes · PgUp/PgDn scrolls"@,
        pending,
    )
}

/// The status while no turn runs.
pub fn idle_status_text(provider_id: &str, model: &str, dir: &str, pending: usize) -> (r: String)
    ensures
        r@ == idle_status(provider_id@, model@, dir@, pending as nat),
{
    let mut base = provider_id.to_owned();
    base.append(" (");
    base.append(model);
    base.append(") · ");
    base.append(dir);
    base.append(
        " · Alt+Enter for newline · Ctrl-D/exit/Ctrl-C twice quits · Tab completes · PgUp/PgDn scrolls",
    );
    running_status(base.as_str(), pending)
}

/// What a session that answers a question beside a turn is told.
pub const SIDE_QUESTION_SYSTEM_PROMPT: &'static str = "You're answering a quick side question the user asked while their main task keeps running concurrently in this same working directory. Use the available tools if you need to, but keep any changes conservative to avoid conflicting with whatever the main task might be doing at the same time. Reply concisely -- this is the only message the user will see from you.";

/// Whether a question beside a turn may use a tool: it starts no agents.
pub fn is_side_tool(name: &str) -> (r: bool)
    ensures
        r == (name@ != "agent"@),
{
    !same(name, "agent")
}

/// The answer to a question beside a turn, as the transcript shows it.
pub open spec fn side_answer(ok: bool, text: Seq<char>, color: bool) -> Seq<char> {
    if ok {
        painted(color, DIM@, "↩"@) + " "@ + text
    } else {
        painted(color, RED@, "✗"@) + " "@ + text
    }
}

/// The answer to a question beside a turn, or why there is none.
pub fn side_answer_line(ok: bool, text: &str, color: bool) -> (r: String)
    ensures
        r@ == side_answer(ok, text@, color),
{
    let mut r = if ok {
        paint(color, DIM, "↩")
    } else {
        paint(color, RED, "✗")
    };
    r.append(" ");
    r.append(text);
    r
}

/// The first position of a question from `i` on.
pub open spec fn question_at(pending: Seq<Seq<char>>, question: Seq<char>, i: int) -> Option<int>
    decreases pending.len() - i,
{
    if i < 0 || i >= pending.len() {
        None
    } else if pending[i] == question {
        Some(i)
    } else {
        question_at(pending, question, i + 1)
    }
}

/// The open questions when one is answered: its first occurrence is gone.
pub open spec fn without_question(pending: Seq<Seq<char>>, question: Seq<char>) -> Seq<Seq<char>> {
    match question_at(pending, question, 0) {
        Some(i) => pending.remove(i),
        None => pending,
    }
}

/// Takes an answered question from the open ones.
pub fn remove_pending(pending: &mut Vec<String>, question: &str)
    ensures
        views(final(pending)@) == without_question(views(old(pending)@), question@),
{
    let ghost all = views(pending@);
    let n: usize = pending.len();
    let mut i: usize = 0;
    while i < n && !same(pending[i].as_str(), question)
        invariant
            n == pending@.len(),
            i <= n,
            all == views(pending@),
            pending@ == old(pending)@,
            question_at(all, question@, 0) == question_at(all, question@, i as int),
        decreases n - i,
    {
        assert(all[i as int] != question@);
        i += 1;
    }
    if i < n {
        assert(all[i as int] == question@);
        pending.remove(i);
    }
}

/// A question that is asked and then answered leaves the open ones as they
/// were, if it was not among them.
pub proof fn law_answered_question_is_gone(pending: Seq<Seq<char>>, question: Seq<char>)
    requires
        question_at(pending, question, 0) is None,
    ensures
        without_question(pending.push(question), question) == pending,
{
    lemma_question_at_end(pending, question, 0);
    assert(pending.push(question).remove(pending.len() as int) =~= pending);
}

proof fn lemma_question_at_end(pending: Seq<Seq<char>>, question: Seq<char>, i: int)
    requires
        0 <= i <= pending.len(),
        question_at(pending, question, i) is None,
    ensures
        question_at(pending.push(question), question, i) == Some(pending.len() as int),
    decreases pending.len() - i,
{
    if i < pending.len() {
        lemma_question_at_end(pending, question, i + 1);
    }
}

/// What is said of a turn that failed.
pub open spec fn error_notices(e: AgentErrorView, edited: bool) -> Seq<Seq<char>> {
    match e {
        AgentErrorView::Interrupted => if edited {
            seq!["Interrupted."@, undo_note()]
        } else {
            seq!["Interrupted."@]
        },
        _ => seq!["error: "@ + agent_error_text(e)],
    }
}

/// The note that files were changed before a turn was interrupted.
pub open spec fn undo_note() -> Seq<char> {
    "note: this turn already edited file(s) on disk before being interrupted -- run /undo to revert them."@
}

/// What is said of a turn that failed; `edited` tells whether it had changed
/// files.
pub fn turn_error_notices(err: &AgentError, edited: bool) -> (r: Vec<String>)
    ensures
        views(r@) == error_notices(err@, edited),
{
    let mut r: Vec<String> = Vec::new();
    match err {
        AgentError::Interrupted => {
            r.push("Interrupted.".to_owned());
            if edited {
                r.push(
                    "note: this turn already edited file(s) on disk before being interrupted -- run /undo to revert them.".to_owned(),
                );
            }
        },
        _ => {
            let mut text = "error: ".to_owned();
            text.append(err.message().as_str());
            r.push(text);
        },
    }
    assert(views(r@) =~= error_notices(err@, edited));
    r
}

} // verus!
