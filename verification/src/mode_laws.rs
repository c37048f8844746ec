//! How the program runs: on a checklist, for a command, and from its arguments.
use vstd::prelude::*;

use crate::bang::{kept_output, result_text, told, CommandEnd};
use crate::cli::{
    banner, command_of, quits, result_tree, resume_notice, rule_columns, session_status,
    switch_text, undo_text, with_input, Cli, CliCommand, Command, Recurring,
};
use crate::json::{lemma_member, member, text_member, JsonTree};
use crate::loop_mode::{
    looked, loop_next, loop_notice, loop_prompt, open_items, setting_or, LoopError, LoopNext,
    LoopState,
};
use crate::message::{message_text, MessageView};
use crate::session::{agent_error_text, AgentErrorView};
use crate::text::{decimal, join, number, trim};

verus! {

// ---------------------------------------------------------------------------
// Checklists
// ---------------------------------------------------------------------------

/// A setting of the loop is the number that is given, or the one that it has by
/// itself.
pub proof fn law_loop_setting(n: u64, default_value: u64, max: u64, s: Seq<char>)
    ensures
        n <= max ==> setting_or(Some(decimal(n as nat)), default_value, max) == n,
        setting_or(None, default_value, max) == default_value,
        number(s, max as nat) is None ==> setting_or(Some(s), default_value, max) == default_value,
{
    crate::text_laws::law_written_number_is_read(n as nat, max as nat, s);
}

/// What a query finds is what is open; a query that finds no list finds nothing,
/// and one that fails is an error.
pub proof fn law_open_items(items: Seq<Seq<char>>, e: Seq<char>)
    ensures
        open_items(Ok(Some(items))) == Ok::<Seq<Seq<char>>, Seq<char>>(items),
        open_items(Ok(None)) matches Ok(v) && v.len() == 0,
        open_items(Err(e)) == Err::<Seq<Seq<char>>, Seq<char>>(e),
{
}

/// With nothing open the loop waits, and says so once; what it has done so far
/// stays counted, but there is nothing left to compare with.
pub proof fn law_empty_list_is_polled(s: LoopState, max: usize, secs: u64, path: Seq<char>)
    ensures
        loop_next(s, 0, max) == LoopNext::Poll,
        looked(s, 0).worked == s.worked,
        looked(s, 0).stalls == s.stalls,
        looked(s, 0).previous is None,
        looked(s, 0).announced,
        loop_notice(s, 0, max, secs, path) == if s.announced {
            None
        } else {
            Some(
                "[loop] "@ + path + " has no unchecked items -- polling every "@ + decimal(
                    secs as nat,
                ) + "s for new work (Ctrl-C to stop)"@,
            )
        },
{
}

/// With something open a turn is run and counted, unless as many were run as may
/// be, or the list has twice in a row not become shorter.
pub proof fn law_open_list_is_worked_on(
    s: LoopState,
    count: usize,
    max: usize,
    secs: u64,
    path: Seq<char>,
)
    requires
        count > 0,
        s.worked < usize::MAX,
        s.stalls < usize::MAX,
    ensures
        ({
            let t = looked(s, count as nat);
            let stuck = s.previous matches Some(p) && count >= p;
            &&& t.worked == s.worked + 1
            &&& t.previous == Some(count)
            &&& !t.announced
            &&& t.stalls == if stuck {
                s.stalls + 1
            } else {
                0
            }
            &&& s.worked >= max ==> loop_next(s, count as nat, max) == LoopNext::Stop(
                LoopError::MaxIterationsReached(max),
            )
            &&& s.worked < max && t.stalls >= 2 ==> loop_next(s, count as nat, max)
                == LoopNext::Stop(LoopError::Stalled(t.stalls))
            &&& s.worked < max && t.stalls < 2 ==> loop_next(s, count as nat, max)
                == LoopNext::Work
            &&& s.worked < max ==> loop_notice(s, count as nat, max, secs, path) == Some(
                "[loop "@ + decimal(s.worked as nat + 1) + "/"@ + decimal(max as nat) + "] "@
                    + decimal(count as nat) + " item(s) remaining in "@ + path,
            )
            &&& s.worked >= max ==> loop_notice(s, count as nat, max, secs, path) is None
        }),
{
}

/// What the model is asked: the goal where there is one, then the file and what
/// is open in it, and to check off what is done.
pub proof fn law_loop_asks_for_the_open_items(
    path: Seq<char>,
    hint: Seq<char>,
    open: Seq<Seq<char>>,
)
    ensures
        loop_prompt(path, Some(hint), open) == "Overall goal: "@ + hint + "\n\n"@ + loop_prompt(
            path,
            None,
            open,
        ),
        loop_prompt(path, None, open) == "Work through the checklist in `"@ + path
            + "`. Remaining unchecked items:\n\n"@ + join(open, "\n"@)
            + "\n\nPick the first unfinished item, implement it completely, then edit `"@ + path
            + "` to check it off (`- [ ]` -> `- [x]`) for that item before ending your turn. Only check off an item once it is genuinely done -- if you run out of turn budget partway through, leave it unchecked."@,
{
    assert(Seq::<char>::empty() + "Work through the checklist in `"@
        =~= "Work through the checklist in `"@);
    assert(loop_prompt(path, Some(hint), open) =~= "Overall goal: "@ + hint + "\n\n"@ + loop_prompt(
        path,
        None,
        open,
    ));
}

// ---------------------------------------------------------------------------
// Commands of the user
// ---------------------------------------------------------------------------

/// Of a command's output the first twenty thousand characters are kept, with a
/// word on it where there are more.
pub proof fn law_output_is_kept(output: Seq<char>)
    ensures
        output.len() <= 20_000 ==> kept_output(output) == output,
        output.len() > 20_000 ==> kept_output(output) == output.take(20_000)
            + "\n... (truncated to the first "@ + decimal(20_000) + " characters)"@,
{
}

/// A command that ran to its end gives all its output, and succeeds if it says
/// so; any other end is a failure.
pub proof fn law_command_gives_its_output(end: CommandEnd)
    ensures
        end matches CommandEnd::Done { stdout, stderr, success } ==> result_text(end) == (
            kept_output(stdout@ + stderr@),
            success,
        ),
        end matches CommandEnd::NotStarted(e) ==> result_text(end) == (
            "failed to spawn command: "@ + e@,
            false,
        ),
        end matches CommandEnd::Failed(e) ==> result_text(end) == ("command failed: "@ + e@, false),
        end is TimedOut ==> result_text(end) == (
            "command timed out after "@ + decimal(30) + "s"@,
            false,
        ),
{
}

/// The model is told the command, its output, and that it failed where it did.
pub proof fn law_model_is_told_the_output(command: Seq<char>, output: Seq<char>)
    ensures
        told(command, output, true) == "I ran `"@ + command + "`"@
            + ", here's the output:\n\n```\n"@ + output + "\n```"@,
        told(command, output, false) == "I ran `"@ + command + "`"@ + " (exit status: failed)"@
            + ", here's the output:\n\n```\n"@ + output + "\n```"@,
{
    assert("I ran `"@ + command + "`"@ + Seq::empty() =~= "I ran `"@ + command + "`"@);
}

// ---------------------------------------------------------------------------
// Arguments
// ---------------------------------------------------------------------------

/// A command that is named is run. Without one, a session that is named is gone
/// on with; else the last one, if that is asked; else a task is done; and
/// without a task the user is asked.
pub proof fn law_arguments_name_a_command(cli: Cli)
    ensures
        cli.command matches Some(CliCommand::Chat) ==> command_of(cli) == Command::Chat,
        cli.command matches Some(CliCommand::Loop { file, task_hint }) ==> command_of(cli) == (
        Command::Loop { file, task_hint }),
        cli.command matches Some(CliCommand::Schedule { task, every_secs, max_runs })
            ==> command_of(cli) == (Command::Schedule { task, every_secs, max_runs }),
        cli.command matches Some(CliCommand::Completion { shell }) ==> command_of(cli) == (
        Command::Completion { shell }),
        cli.command is None && cli.resume is Some ==> command_of(cli) == (Command::Resume {
            id: cli.resume->0,
            task: cli.task,
            output: cli.output,
        }),
        cli.command is None && cli.resume is None && cli.go_on ==> command_of(cli) == (
        Command::Continue { task: cli.task, output: cli.output }),
        cli.command is None && cli.resume is None && !cli.go_on && cli.task is Some ==> command_of(
            cli,
        ) == (Command::OneShot { task: cli.task->0, output: cli.output }),
        cli.command is None && cli.resume is None && !cli.go_on && cli.task is None ==> command_of(
            cli,
        ) == Command::Chat,
{
}

/// Piped input stands behind the task, up to two hundred thousand characters of
/// it; blank input changes nothing.
pub proof fn law_piped_input_joins_the_task(task: Seq<char>, piped: Seq<char>)
    ensures
        trim(piped).len() == 0 ==> with_input(task, piped) == task,
        0 < trim(piped).len() <= 200_000 ==> with_input(task, piped) == task
            + "\n\n---\nPiped input:\n"@ + trim(piped),
        trim(piped).len() > 200_000 ==> with_input(task, piped) == task
            + "\n\n---\nPiped input (truncated to the first "@ + decimal(200_000) + " of "@
            + decimal(trim(piped).len()) + " characters):\n"@ + trim(piped).take(200_000),
{
}

/// A rule leaves one column of the terminal free, but has at least twenty; where
/// the width is not known it has sixty-four.
pub proof fn law_rule_fits_the_terminal(w: u16)
    ensures
        w >= 21 ==> rule_columns(Some(w)) == w - 1,
        w < 21 ==> rule_columns(Some(w)) == 20,
        rule_columns(None) == 64,
{
}

/// The banner names the version, the provider, the session and the directory.
pub proof fn law_banner_tells_the_start(
    version: Seq<char>,
    provider: Seq<char>,
    messages: nat,
    dir: Seq<char>,
)
    ensures
        session_status(0) == "new session"@,
        messages > 0 ==> session_status(messages) == "resumed, "@ + decimal(messages)
            + " prior message(s)"@,
        ({
            let b = banner(false, version, provider, messages, dir);
            &&& b.len() == 5
            &&& b[0].len() == 0
            &&& b[1] == "  "@ + " ◆ "@ + "   "@ + ("v"@ + version)
            &&& b[2] == "  "@ + "◆ ◆"@ + "   "@ + (provider + " · "@ + session_status(messages))
            &&& b[3] == "  "@ + " ◆ "@ + "   "@ + dir
            &&& b[4].len() == 0
        }),
{
}

/// A second interrupt leaves if it comes within two seconds of the first.
pub proof fn law_second_interrupt_leaves(first: u64, now: u64)
    ensures
        quits(Some(first), now) <==> now < first + 2000,
        !quits(None, now),
{
}

/// The result of a task as JSON holds the provider and the model, and the answer
/// or the error.
pub proof fn law_result_holds_answer_or_error(
    provider: Seq<char>,
    model: Seq<char>,
    m: MessageView,
    e: AgentErrorView,
)
    ensures
        text_member(result_tree(provider, model, Ok(m)), "provider"@) == Some(provider),
        text_member(result_tree(provider, model, Ok(m)), "model"@) == Some(model),
        text_member(result_tree(provider, model, Ok(m)), "answer"@) == Some(message_text(m)),
        member(result_tree(provider, model, Ok(m)), "error"@) == Some(JsonTree::Null),
        member(result_tree(provider, model, Err(e)), "answer"@) == Some(JsonTree::Null),
        text_member(result_tree(provider, model, Err(e)), "error"@) == Some(agent_error_text(e)),
{
    reveal_strlit("provider");
    reveal_strlit("model");
    reveal_strlit("answer");
    reveal_strlit("error");
    assert("provider"@[0] == 'p' && "model"@[0] == 'm' && "answer"@[0] == 'a' && "error"@[0]
        == 'e');
    let a = result_tree(provider, model, Ok(m))->Object_0;
    lemma_member(a, 0);
    lemma_member(a, 1);
    lemma_member(a, 2);
    lemma_member(a, 3);
    let b = result_tree(provider, model, Err(e))->Object_0;
    lemma_member(b, 2);
    lemma_member(b, 3);
}

/// Work that goes on says of what it is, and how much was said before.
pub proof fn law_recurring_work_says_that_it_goes_on(work: Recurring, n: nat)
    ensures
        work matches Recurring::Loop(file) ==> resume_notice(work, n)
            == "resuming loop session for "@ + file@ + " ("@ + decimal(n)
            + " prior message(s))"@,
        work matches Recurring::Schedule(task) ==> resume_notice(work, n)
            == "resuming schedule session for '"@ + task@ + "'"@ + " ("@ + decimal(n)
            + " prior message(s))"@,
{
}

/// A switch says how it stands; what was undone is listed.
pub proof fn law_switches_and_undone_files(what: Seq<char>, files: Seq<Seq<char>>)
    ensures
        switch_text(what, true) == what + " is now "@ + "on"@ + "."@,
        switch_text(what, false) == what + " is now "@ + "off"@ + "."@,
        files.len() == 0 ==> undo_text(files) == seq!["Nothing to undo."@],
        files.len() > 0 ==> undo_text(files).len() == files.len() + 1 && undo_text(files)[0]
            == "Reverted "@ + decimal(files.len()) + " file(s):"@ && forall|i: int|
            0 <= i < files.len() ==> #[trigger] undo_text(files)[i + 1] == "  "@ + files[i],
{
}

} // verus!
