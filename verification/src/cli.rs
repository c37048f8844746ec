//! The command line: what is run, and what is said around it.
use vstd::prelude::*;

use crate::json::{entry, group_pairs, text_value, Json, JsonTree};
use crate::mentions::{expand_mentions, expanded, Mention};
use crate::message::{message_text, Message, MessageView};
use crate::model::{group_views, opt_view, views};
use crate::reporter::{paint, painted, BOLD, CYAN, DIM, RESET, YELLOW};
use crate::session::{agent_error_text, AgentError, AgentErrorView};
use crate::session_store::{empty_record, SessionRecord};
use crate::text::{decimal, decimal_text, take_chars, trim, trimmed};
use crate::tui::{classify_line, entered, Entered};

verus! {

broadcast use {group_pairs, group_views};

/// What every session is told.
pub const SYSTEM_PROMPT: &'static str = "You are minder, a coding agent working in a git repository via tool calls. Investigate with `read_file`/`grep`/`glob`/`git_log`/`git_diff` before answering or editing -- read a file before editing it, prefer `edit_file` over `write_file` for existing files, and verify a change with `git_diff`/tests before calling it done.\n\nDelegate self-contained work to `agent`, and check `skill` for a matching project skill before improvising. Pass `background: true` to `agent` for a long-running or parallelizable piece of work you don't need to wait on -- check on it later with `list_agents`/`agent_output`, or cancel it with `agent_stop`. Only commit, push, or run other state-changing git/bash commands when asked. Use `delete_file` (not `bash rm`) to remove a file -- it's recoverable, `rm` isn't.\n\nUse `todo_write` to plan and track progress on any task with several non-trivial steps -- keep at most one item `in_progress` at a time and mark items `completed` as soon as they're actually done. Skip it for a single quick action.\n\nKeep replies short and grounded in what the tools actually returned.";

/// How the answer to a task is written.
#[derive(Clone, Copy, Debug, PartialEq, Eq, Structural)]
pub enum OutputFormat {
    /// As it comes.
    Text,
    /// As one JSON object at the end.
    Json,
}

/// A subcommand.
pub enum CliCommand {
    Chat,
    Loop { file: String, task_hint: Option<String> },
    Schedule { task: String, every_secs: u64, max_runs: Option<usize> },
    Completion { shell: String },
}

/// The command line.
pub struct Cli {
    pub command: Option<CliCommand>,
    /// Go on with the last session.
    pub go_on: bool,
    /// Go on with this session.
    pub resume: Option<String>,
    pub output: OutputFormat,
    pub task: Option<String>,
}

/// What is run.
pub enum Command {
    OneShot { task: String, output: OutputFormat },
    Continue { task: Option<String>, output: OutputFormat },
    Resume { id: String, task: Option<String>, output: OutputFormat },
    Chat,
    Loop { file: String, task_hint: Option<String> },
    Schedule { task: String, every_secs: u64, max_runs: Option<usize> },
    Completion { shell: String },
}

/// What a command line asks for: a subcommand comes before a session to go on
/// with, and that before a task.
pub open spec fn command_of(cli: Cli) -> Command {
    match cli.command {
        Some(CliCommand::Chat) => Command::Chat,
        Some(CliCommand::Loop { file, task_hint }) => Command::Loop { file, task_hint },
        Some(CliCommand::Schedule { task, every_secs, max_runs }) => Command::Schedule {
            task,
            every_secs,
            max_runs,
        },
        Some(CliCommand::Completion { shell }) => Command::Completion { shell },
        None => if let Some(id) = cli.resume {
            Command::Resume { id, task: cli.task, output: cli.output }
        } else if cli.go_on {
            Command::Continue { task: cli.task, output: cli.output }
        } else if let Some(task) = cli.task {
            Command::OneShot { task, output: cli.output }
        } else {
            Command::Chat
        },
    }
}

/// What a command line asks for.
pub fn command_from(cli: Cli) -> (r: Command)
    ensures
        r == command_of(cli),
{
    match cli.command {
        Some(CliCommand::Chat) => {
            return Command::Chat;
        },
        Some(CliCommand::Loop { file, task_hint }) => {
            return Command::Loop { file, task_hint };
        },
        Some(CliCommand::Schedule { task, every_secs, max_runs }) => {
            return Command::Schedule { task, every_secs, max_runs };
        },
        Some(CliCommand::Completion { shell }) => {
            return Command::Completion { shell };
        },
        None => {},
    }
    if let Some(id) = cli.resume {
        return Command::Resume { id, task: cli.task, output: cli.output };
    }
    if cli.go_on {
        return Command::Continue { task: cli.task, output: cli.output };
    }
    match cli.task {
        Some(task) => Command::OneShot { task, output: cli.output },
        None => Command::Chat,
    }
}

/// The number of characters of piped input that are taken.
pub const MAX_STDIN_CHARS: usize = 200_000;

/// A task with the input that was piped in.
pub open spec fn with_input(task: Seq<char>, piped: Seq<char>) -> Seq<char> {
    let input = trim(piped);
    if input.len() == 0 {
        task
    } else if input.len() <= MAX_STDIN_CHARS {
        task + "\n\n---\nPiped input:\n"@ + input
    } else {
        task + "\n\n---\nPiped input (truncated to the first "@ + decimal(MAX_STDIN_CHARS as nat)
            + " of "@ + decimal(input.len()) + " characters):\n"@ + input.take(
            MAX_STDIN_CHARS as int,
        )
    }
}

/// A task with the input that was piped in.
pub fn combine_task_with_piped_input(task: String, piped: &str) -> (r: String)
    ensures
        r@ == with_input(task@, piped@),
{
    let input = trimmed(piped);
    let n: usize = input.as_str().unicode_len();
    let mut r = task;
    if n == 0 {
        return r;
    }
    if n <= MAX_STDIN_CHARS {
        r.append("\n\n---\nPiped input:\n");
        r.append(input.as_str());
    } else {
        r.append("\n\n---\nPiped input (truncated to the first ");
        r.append(decimal_text(MAX_STDIN_CHARS as u64).as_str());
        r.append(" of ");
        r.append(decimal_text(n as u64).as_str());
        r.append(" characters):\n");
        r.append(take_chars(input.as_str(), MAX_STDIN_CHARS).as_str());
    }
    r
}

/// A task with what it mentions attached.
pub fn expand_task_mentions(task: String, found: &Vec<Mention>) -> (r: String)
    ensures
        r@ == expanded(task@, views(found@)),
{
    expand_mentions(task.as_str(), found)
}

// ---------------------------------------------------------------------------
// Lines of the line-based session
// ---------------------------------------------------------------------------

/// The width of a rule where the terminal does not tell its own.
pub const FALLBACK_RULE_WIDTH: usize = 64;

/// The least width of a rule.
pub const MIN_RULE_WIDTH: usize = 20;

/// The width of a rule on a terminal of this width.
pub open spec fn rule_columns(terminal_width: Option<u16>) -> nat {
    match terminal_width {
        Some(w) => if w > MIN_RULE_WIDTH {
            (w - 1) as nat
        } else {
            MIN_RULE_WIDTH as nat
        },
        None => FALLBACK_RULE_WIDTH as nat,
    }
}

/// The width of a rule on a terminal of this width.
pub fn rule_width(terminal_width: Option<u16>) -> (r: usize)
    ensures
        r == rule_columns(terminal_width),
{
    match terminal_width {
        Some(w) => if w as usize > MIN_RULE_WIDTH {
            w as usize - 1
        } else {
            MIN_RULE_WIDTH
        },
        None => FALLBACK_RULE_WIDTH,
    }
}

/// A row of dashes.
pub open spec fn dashes(n: nat) -> Seq<char> {
    Seq::new(n, |i: int| '-')
}

/// The rule above and below the input.
pub fn rule_line(width: usize, color: bool) -> (r: String)
    ensures
        r@ == painted(color, DIM@, dashes(width as nat)),
{
    let mut rule = String::new();
    for i in 0..width
        invariant
            rule@ == dashes(i as nat),
    {
        rule.push('-');
        assert(rule@ =~= dashes(i as nat + 1));
    }
    paint(color, DIM, rule.as_str())
}

/// Whether output has color: on a terminal, unless it is asked not to.
pub fn color_enabled(stream_is_tty: bool, no_color: bool) -> (r: bool)
    ensures
        r == (stream_is_tty && !no_color),
{
    stream_is_tty && !no_color
}

/// What stands before the input.
pub open spec fn prompt_text(color: bool) -> Seq<char> {
    if color {
        BOLD@ + CYAN@ + "❯"@ + RESET@ + " "@
    } else {
        "> "@
    }
}

/// What stands before the input.
pub fn repl_prompt(color: bool) -> (r: String)
    ensures
        r@ == prompt_text(color),
{
    if color {
        let mut r = BOLD.to_owned();
        r.append(CYAN);
        r.append("❯");
        r.append(RESET);
        r.append(" ");
        r
    } else {
        "> ".to_owned()
    }
}

/// The line about the provider, the model and the directory.
pub fn status_line(provider_id: &str, model: &str, dir: &str, color: bool) -> (r: String)
    ensures
        r@ == painted(color, DIM@, provider_id@ + " ("@ + model@ + ") · "@ + dir@),
{
    let mut text = provider_id.to_owned();
    text.append(" (");
    text.append(model);
    text.append(") · ");
    text.append(dir);
    paint(color, DIM, text.as_str())
}

/// What the keys do.
pub open spec fn keys_text(key_watching: bool) -> Seq<char> {
    if key_watching {
        "Esc/Ctrl-C cancel input/turn, type + Enter to steer a running turn · Ctrl-D, 'exit'/'quit', or Ctrl-C twice to leave · /help for commands · @path attaches a file/dir"@
    } else {
        "Ctrl-C cancels a running turn (press twice at the prompt to quit) · Ctrl-D or 'exit'/'quit' to leave · /help for commands · @path attaches a file/dir"@
    }
}

/// The line about what the keys do.
pub fn hint_line(color: bool, key_watching_supported: bool) -> (r: String)
    ensures
        r@ == painted(color, DIM@, keys_text(key_watching_supported)),
{
    let text = if key_watching_supported {
        "Esc/Ctrl-C cancel input/turn, type + Enter to steer a running turn · Ctrl-D, 'exit'/'quit', or Ctrl-C twice to leave · /help for commands · @path attaches a file/dir"
    } else {
        "Ctrl-C cancels a running turn (press twice at the prompt to quit) · Ctrl-D or 'exit'/'quit' to leave · /help for commands · @path attaches a file/dir"
    };
    paint(color, DIM, text)
}

/// What `/help` shows.
pub const SLASH_HELP: &'static str = "Available commands:\n  /help                      Show this list\n  /model                     Show the active provider and model\n  /model <provider> [model]  Switch the active provider/model mid-session (keeps history)\n  /models                    List locally pulled models, marking the active one\n  /clear                     Clear the conversation history (keeps the session file, starts fresh)\n  /status                    Toggle showing the active provider/model in the spinner while a turn runs\n  /thinking                  Toggle showing the model's extended-thinking output\n  /todo                      Show the model's current todo list\n  /undo                      Revert the file changes from the most recently completed turn\n  exit, quit                 Leave (Ctrl-D also works)\n\nType @path (Tab to complete) to attach a file or directory's contents, e.g. @src/main.rs or @src/.";

/// The state of a session that a record starts with.
pub open spec fn session_status(messages: nat) -> Seq<char> {
    if messages == 0 {
        "new session"@
    } else {
        "resumed, "@ + decimal(messages) + " prior message(s)"@
    }
}

/// A line of the banner.
pub open spec fn banner_line(
    color: bool,
    art: Seq<char>,
    code: Seq<char>,
    text: Seq<char>,
) -> Seq<char> {
    "  "@ + painted(color, YELLOW@ + BOLD@, art) + "   "@ + painted(color, code, text)
}

/// The banner at the start of an interactive session.
pub open spec fn banner(
    color: bool,
    version: Seq<char>,
    provider: Seq<char>,
    messages: nat,
    dir: Seq<char>,
) -> Seq<Seq<char>> {
    seq![
        Seq::empty(),
        banner_line(color, " ◆ "@, BOLD@, "v"@ + version),
        banner_line(color, "◆ ◆"@, DIM@, provider + " · "@ + session_status(messages)),
        banner_line(color, " ◆ "@, DIM@, dir),
        Seq::empty(),
    ]
}

fn line_of_banner(color: bool, art: &str, code: &str, text: &str) -> (r: String)
    ensures
        r@ == banner_line(color, art@, code@, text@),
{
    let mut accent = YELLOW.to_owned();
    accent.append(BOLD);
    let mut r = "  ".to_owned();
    r.append(paint(color, accent.as_str(), art).as_str());
    r.append("   ");
    r.append(paint(color, code, text).as_str());
    r
}

/// The banner at the start of an interactive session.
pub fn banner_lines(color: bool, version: &str, provider_id: &str, messages: usize, dir: &str) -> (r:
    Vec<String>)
    ensures
        views(r@) == banner(color, version@, provider_id@, messages as nat, dir@),
{
    let mut v = "v".to_owned();
    v.append(version);
    let mut about = provider_id.to_owned();
    about.append(" · ");
    if messages == 0 {
        about.append("new session");
    } else {
        let mut status = "resumed, ".to_owned();
        status.append(decimal_text(messages as u64).as_str());
        status.append(" prior message(s)");
        about.append(status.as_str());
    }
    let mut r: Vec<String> = Vec::new();
    r.push(String::new());
    r.push(line_of_banner(color, " ◆ ", BOLD, v.as_str()));
    r.push(line_of_banner(color, "◆ ◆", DIM, about.as_str()));
    r.push(line_of_banner(color, " ◆ ", DIM, dir));
    r.push(String::new());
    assert(views(r@) =~= banner(color, version@, provider_id@, messages as nat, dir@));
    r
}

// ---------------------------------------------------------------------------
// The line-based session
// ---------------------------------------------------------------------------

/// The time within which a second Ctrl-C leaves, in milliseconds.
pub const IDLE_CTRL_C_QUIT_MILLIS: u64 = 2000;

/// What came from the line editor.
pub enum ReplEvent {
    Line(String),
    Interrupted,
    Eof,
    Failed(String),
}

/// What is to be done then.
pub enum ReplAction {
    /// Leave the session, after saying this if there is something to say.
    Leave(Option<String>),
    /// Say that the next Ctrl-C leaves.
    Warn,
    /// Do what was entered.
    Enter(Entered),
}

/// Whether a Ctrl-C is the second within the time.
pub open spec fn quits(last: Option<u64>, now: u64) -> bool {
    last matches Some(t) && now < t + IDLE_CTRL_C_QUIT_MILLIS
}

/// The line-based session.
pub struct Repl {
    /// When Ctrl-C was last pressed, if nothing was entered since.
    pub last_interrupt: Option<u64>,
}

impl Repl {
    /// The session at its start.
    pub fn new() -> (r: Repl)
        ensures
            r.last_interrupt is None,
    {
        Repl { last_interrupt: None }
    }

    /// What is to be done at the time `now`, in milliseconds.
    pub fn step(&mut self, event: ReplEvent, now: u64) -> (r: ReplAction)
        ensures
            match event {
                ReplEvent::Line(line) => {
                    &&& final(self).last_interrupt is None
                    &&& r matches ReplAction::Enter(e)
                    &&& e@ == entered(line@)
                },
                ReplEvent::Interrupted => if quits(old(self).last_interrupt, now) {
                    r == ReplAction::Leave(None) && *final(self) == *old(self)
                } else {
                    r == ReplAction::Warn && final(self).last_interrupt == Some(now)
                },
                ReplEvent::Eof => r == ReplAction::Leave(None) && *final(self) == *old(self),
                ReplEvent::Failed(e) => r matches ReplAction::Leave(Some(m)) && m@ == "error: "@
                    + e@ && *final(self) == *old(self),
            },
    {
        match event {
            ReplEvent::Line(line) => {
                self.last_interrupt = None;
                ReplAction::Enter(classify_line(line.as_str()))
            },
            ReplEvent::Interrupted => {
                let again = match self.last_interrupt {
                    Some(t) => now < t || now - t < IDLE_CTRL_C_QUIT_MILLIS,
                    None => false,
                };
                if again {
                    ReplAction::Leave(None)
                } else {
                    self.last_interrupt = Some(now);
                    ReplAction::Warn
                }
            },
            ReplEvent::Eof => ReplAction::Leave(None),
            ReplEvent::Failed(e) => {
                let mut m = "error: ".to_owned();
                m.append(e.as_str());
                ReplAction::Leave(Some(m))
            },
        }
    }
}

// ---------------------------------------------------------------------------
// What a task gave
// ---------------------------------------------------------------------------

/// The view of what a turn gave.
pub open spec fn turn_view(r: Result<Message, AgentError>) -> Result<MessageView, AgentErrorView> {
    match r {
        Ok(m) => Ok(m@),
        Err(e) => Err(e@),
    }
}

/// What a task gave, as JSON.
pub open spec fn result_tree(
    provider: Seq<char>,
    model: Seq<char>,
    result: Result<MessageView, AgentErrorView>,
) -> JsonTree {
    JsonTree::Object(
        seq![
            ("provider"@, JsonTree::Str(provider)),
            ("model"@, JsonTree::Str(model)),
            (
                "answer"@,
                match result {
                    Ok(m) => JsonTree::Str(message_text(m)),
                    Err(_) => JsonTree::Null,
                },
            ),
            (
                "error"@,
                match result {
                    Ok(_) => JsonTree::Null,
                    Err(e) => JsonTree::Str(agent_error_text(e)),
                },
            ),
        ],
    )
}

/// What a task gave, as JSON.
pub fn json_result_payload(
    provider_id: &str,
    model: &str,
    result: &Result<Message, AgentError>,
) -> (r: Json)
    ensures
        r@ == result_tree(provider_id@, model@, turn_view(*result)),
{
    let mut m: Vec<(String, Json)> = Vec::new();
    m.push(entry("provider", text_value(provider_id)));
    m.push(entry("model", text_value(model)));
    match result {
        Ok(message) => {
            m.push(entry("answer", Json::Str(message.text())));
            m.push(entry("error", Json::Null));
        },
        Err(e) => {
            m.push(entry("answer", Json::Null));
            m.push(entry("error", Json::Str(e.message())));
        },
    }
    let r = Json::object(m);
    assert(r@->Object_0 =~= result_tree(provider_id@, model@, turn_view(*result))->Object_0);
    r
}

/// What is said of a task that failed; with JSON the object says it.
pub fn one_shot_error(output: OutputFormat, result: &Result<Message, AgentError>) -> (r: Option<
    String,
>)
    ensures
        opt_view(r) == (match turn_view(*result) {
            Err(e) if output == OutputFormat::Text => Some("error: "@ + agent_error_text(e)),
            _ => None,
        }),
{
    match result {
        Ok(_) => None,
        Err(e) => {
            if output == OutputFormat::Text {
                let mut m = "error: ".to_owned();
                m.append(e.message().as_str());
                Some(m)
            } else {
                None
            }
        },
    }
}

// ---------------------------------------------------------------------------
// Which session is gone on with
// ---------------------------------------------------------------------------

/// The session to go on with, or what is said where there is none.
pub fn resumed_record(loaded: Result<Option<SessionRecord>, String>) -> (r: Result<
    SessionRecord,
    String,
>)
    ensures
        match loaded {
            Ok(Some(record)) => r == Ok::<SessionRecord, String>(record),
            Ok(None) => r matches Err(e) && e@ == "no session found to resume in this project"@,
            Err(m) => r matches Err(e) && e@ == "error: failed to load session: "@ + m@,
        },
{
    match loaded {
        Ok(Some(record)) => Ok(record),
        Ok(None) => Err("no session found to resume in this project".to_owned()),
        Err(m) => {
            let mut e = "error: failed to load session: ".to_owned();
            e.append(m.as_str());
            Err(e)
        },
    }
}

/// What is said when an interactive session goes on with one that was cut off.
pub fn chat_notice(messages: usize) -> (r: String)
    ensures
        r@ == "resuming a session that didn't finish cleanly last time ("@ + decimal(
            messages as nat,
        ) + " prior message(s))"@,
{
    let mut r = "resuming a session that didn't finish cleanly last time (".to_owned();
    r.append(decimal_text(messages as u64).as_str());
    r.append(" prior message(s))");
    r
}

/// Work that finds its own session again.
pub enum Recurring {
    /// The work on the checklist of this file.
    Loop(String),
    /// Running a task again and again.
    Schedule(String),
}

/// The session of such work at its start.
pub struct RecurringStart {
    pub record: SessionRecord,
    /// The conversation is to be taken from the record.
    pub restore: bool,
    pub notice: Option<String>,
}

/// What is said when such work goes on.
pub open spec fn resume_notice(work: Recurring, messages: nat) -> Seq<char> {
    (match work {
        Recurring::Loop(file) => "resuming loop session for "@ + file@,
        Recurring::Schedule(task) => "resuming schedule session for '"@ + task@ + "'"@,
    }) + " ("@ + decimal(messages) + " prior message(s))"@
}

/// What is said when its session cannot be loaded.
pub open spec fn load_warning(work: Recurring, e: Seq<char>) -> Seq<char> {
    (match work {
        Recurring::Loop(_) => "warning: failed to load prior loop session: "@,
        Recurring::Schedule(_) => "warning: failed to load prior schedule session: "@,
    }) + e
}

/// The session of recurring work: the one that is kept under its key, or a new
/// one under that key.
pub fn recurring_session(
    loaded: Result<Option<SessionRecord>, String>,
    key: String,
    work: &Recurring,
    now: u64,
) -> (r: RecurringStart)
    ensures
        match loaded {
            Ok(Some(record)) => r.record == record && r.restore && opt_view(r.notice) == Some(
                resume_notice(*work, record@.messages.len()),
            ),
            Ok(None) => r.record@ == empty_record(key@, now) && !r.restore && r.notice is None,
            Err(e) => r.record@ == empty_record(key@, now) && !r.restore && opt_view(r.notice)
                == Some(load_warning(*work, e@)),
        },
{
    match loaded {
        Ok(Some(record)) => {
            let mut notice = match work {
                Recurring::Loop(file) => {
                    let mut m = "resuming loop session for ".to_owned();
                    m.append(file.as_str());
                    m
                },
                Recurring::Schedule(task) => {
                    let mut m = "resuming schedule session for '".to_owned();
                    m.append(task.as_str());
                    m.append("'");
                    m
                },
            };
            notice.append(" (");
            notice.append(decimal_text(record.messages.len() as u64).as_str());
            notice.append(" prior message(s))");
            RecurringStart { record, restore: true, notice: Some(notice) }
        },
        Ok(None) => RecurringStart {
            record: SessionRecord::with_id(key, now),
            restore: false,
            notice: None,
        },
        Err(e) => {
            let mut notice = match work {
                Recurring::Loop(_) => "warning: failed to load prior loop session: ".to_owned(),
                Recurring::Schedule(_) => "warning: failed to load prior schedule session: ".to_owned(),
            };
            notice.append(e.as_str());
            RecurringStart {
                record: SessionRecord::with_id(key, now),
                restore: false,
                notice: Some(notice),
            }
        },
    }
}

/// What is said before a scheduled task is run.
pub fn schedule_notice(task: &str, every_secs: u64) -> (r: String)
    ensures
        r@ == "[schedule] running '"@ + task@ + "' every "@ + decimal(every_secs as nat)
            + "s (Ctrl-C to stop)"@,
{
    let mut r = "[schedule] running '".to_owned();
    r.append(task);
    r.append("' every ");
    r.append(decimal_text(every_secs).as_str());
    r.append("s (Ctrl-C to stop)");
    r
}

// ---------------------------------------------------------------------------
// What commands say
// ---------------------------------------------------------------------------

/// What a switch says when it is turned.
pub open spec fn switch_text(what: Seq<char>, on: bool) -> Seq<char> {
    what + " is now "@ + (if on {
        "on"@
    } else {
        "off"@
    }) + "."@
}

/// What a switch says when it is turned.
pub fn switch_notice(what: &str, on: bool) -> (r: String)
    ensures
        r@ == switch_text(what@, on),
{
    let mut r = what.to_owned();
    r.append(" is now ");
    r.append(
        if on {
            "on"
        } else {
            "off"
        },
    );
    r.append(".");
    r
}

/// What `/undo` says of the files that it took back.
pub open spec fn undo_text(restored: Seq<Seq<char>>) -> Seq<Seq<char>> {
    if restored.len() == 0 {
        seq!["Nothing to undo."@]
    } else {
        seq!["Reverted "@ + decimal(restored.len()) + " file(s):"@] + Seq::new(
            restored.len(),
            |i: int| "  "@ + restored[i],
        )
    }
}

/// What `/undo` says of the files that it took back.
pub fn undo_lines(restored: &Vec<String>) -> (r: Vec<String>)
    ensures
        views(r@) == undo_text(views(restored@)),
{
    let ghost all = views(restored@);
    let mut r: Vec<String> = Vec::new();
    let n: usize = restored.len();
    if n == 0 {
        r.push("Nothing to undo.".to_owned());
        assert(views(r@) =~= undo_text(all));
        return r;
    }
    let mut head = "Reverted ".to_owned();
    head.append(decimal_text(n as u64).as_str());
    head.append(" file(s):");
    r.push(head);
    let ghost wanted = undo_text(all);
    assert(views(r@) =~= wanted.take(1));
    for i in 0..n
        invariant
            n == restored@.len(),
            n > 0,
            all == views(restored@),
            wanted == undo_text(all),
            views(r@) == wanted.take(i + 1),
    {
        let mut line = "  ".to_owned();
        line.append(restored[i].as_str());
        r.push(line);
        assert(wanted[i + 1] == "  "@ + all[i as int]);
        assert(views(r@) =~= wanted.take(i + 2));
    }
    assert(wanted.take(n + 1) =~= wanted);
    r
}

} // verus!
