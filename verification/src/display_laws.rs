//! What is shown, logged and laid out.
use vstd::prelude::*;

use crate::file_reporter::{
    call_event, delay_text, logged, report_event, result_event, LogEventView, LogFormat,
};
use crate::hooks::RenderView;
use crate::input_box::{InputMode, OutcomeView as KeyOutcomeView};
use crate::json::{canonical, json_text, lemma_member, member, number_tree, text_member, JsonTree};
use crate::layout::{bottom_rows, centered_in, input_rows, parts_of, pending_rows, Rect};
use crate::message::{OutcomeView, ToolCallView, Usage};
use crate::reporter::{
    args_summary, decided_line, default_call, default_result, diff_code, diff_line, earliest,
    elapsed_suffix, label_at, label_texts, one_line, outcome_mark, painted, painted_as, retry_text,
    shown_diff, truncated, with_started, with_stopped, ElapsedView, LabelView, SpinnerView,
};
use crate::session::{agent_error_text, AgentErrorView, ReportView};
use crate::status_reporter::{entered, left, snapshot_tree, StatusView};
use crate::text::{decimal, join, lines, starts_with};
use crate::tui::{
    echoed, error_notices, idle_status, run_step, side_answer, with_pending, without_question,
    RunActionView, RunEventView,
};
use crate::wasm::bytes_at;

verus! {

// ---------------------------------------------------------------------------
// Lines
// ---------------------------------------------------------------------------

/// Color is a code before a text and one that takes it back behind it; without
/// color a text is itself.
pub proof fn law_color_surrounds_the_text(code: Seq<char>, text: Seq<char>)
    ensures
        painted(true, code, text) == code + text + "\x1b[0m"@,
        painted(false, code, text) == text,
{
}

/// A style is one of the known colors and weights, by its name; an unknown one,
/// or none, leaves a text alone.
pub proof fn law_style_goes_by_its_name(text: Seq<char>, style: Seq<char>)
    ensures
        painted_as(true, Some("green"@), text) == "\x1b[32m"@ + text + "\x1b[0m"@,
        painted_as(true, Some("red"@), text) == "\x1b[31m"@ + text + "\x1b[0m"@,
        painted_as(true, Some("yellow"@), text) == "\x1b[33m"@ + text + "\x1b[0m"@,
        painted_as(true, Some("cyan"@), text) == "\x1b[36m"@ + text + "\x1b[0m"@,
        painted_as(true, Some("dim"@), text) == "\x1b[2m"@ + text + "\x1b[0m"@,
        painted_as(true, Some("bold"@), text) == "\x1b[1m"@ + text + "\x1b[0m"@,
        painted_as(true, None, text) == text,
        style != "green"@ && style != "red"@ && style != "yellow"@ && style != "cyan"@ && style
            != "dim"@ && style != "bold"@ ==> painted_as(true, Some(style), text) == text,
        painted_as(false, Some(style), text) == text,
{
    reveal_strlit("green");
    reveal_strlit("red");
    reveal_strlit("yellow");
    reveal_strlit("cyan");
    reveal_strlit("dim");
    reveal_strlit("bold");
    assert("green"@.len() == 5 && "red"@.len() == 3 && "yellow"@.len() == 6 && "cyan"@.len() == 4
        && "dim"@.len() == 3 && "bold"@.len() == 4);
    assert("red"@[0] == 'r' && "dim"@[0] == 'd' && "cyan"@[0] == 'c' && "bold"@[0] == 'b');
}

/// In a text that is put into one line, line feeds become blanks, and nothing
/// else changes.
pub proof fn law_one_line_has_no_line_feed(s: Seq<char>)
    ensures
        one_line(s).len() == s.len(),
        forall|i: int|
            0 <= i < s.len() ==> #[trigger] one_line(s)[i] == if s[i] == '\n' {
                ' '
            } else {
                s[i]
            },
{
}

/// A text that is too long is cut, with dots behind it.
pub proof fn law_long_text_is_cut(s: Seq<char>, n: nat)
    ensures
        s.len() <= n ==> truncated(s, n) == one_line(s),
        s.len() > n ==> truncated(s, n) == one_line(s.take(n as int)) + "..."@,
{
    reveal_strlit("...");
    if s.len() > n {
        assert(truncated(s, n) =~= one_line(s.take(n as int)) + "..."@);
    }
}

/// The lines of a diff have the color of what they are.
pub proof fn law_diff_lines_have_their_color(rest: Seq<char>, line: Seq<char>)
    ensures
        diff_code("+++"@ + rest) == "\x1b[1m"@,
        diff_code("---"@ + rest) == "\x1b[1m"@,
        diff_code("@@"@ + rest) == "\x1b[36m"@,
        !starts_with(line, "+++"@) && starts_with(line, "+"@) ==> diff_code(line) == "\x1b[32m"@,
        !starts_with(line, "---"@) && starts_with(line, "-"@) ==> diff_code(line) == "\x1b[31m"@,
        line.len() == 0 || (line[0] != '+' && line[0] != '-' && line[0] != '@') ==> diff_code(line)
            == "\x1b[2m"@,
        diff_line(false, line) == "  "@ + line,
{
    reveal_strlit("+++");
    reveal_strlit("---");
    reveal_strlit("@@");
    reveal_strlit("+");
    reveal_strlit("-");
    assert("+++"@[0] == '+' && "---"@[0] == '-' && "@@"@[0] == '@' && "+"@[0] == '+' && "-"@[0]
        == '-');
    let a = "+++"@ + rest;
    assert(a.take(3) =~= "+++"@);
    let b = "---"@ + rest;
    assert(b.take(3) =~= "---"@);
    let c = "@@"@ + rest;
    assert(c.take(2) =~= "@@"@);
    assert(c[0] == '@');
    if starts_with(c, "+++"@) {
        assert(c.take(3)[0] == '+');
    }
    if starts_with(c, "---"@) {
        assert(c.take(3)[0] == '-');
    }
    lemma_starts(line, "+++"@);
    lemma_starts(line, "---"@);
    lemma_starts(line, "@@"@);
    lemma_starts(line, "+"@);
    lemma_starts(line, "-"@);
}

proof fn lemma_starts(s: Seq<char>, pat: Seq<char>)
    requires
        pat.len() > 0,
    ensures
        starts_with(s, pat) ==> s.len() > 0 && s[0] == pat[0],
{
    if starts_with(s, pat) {
        assert(s.take(pat.len() as int)[0] == s[0]);
    }
}

/// Of a diff the first forty lines are shown, with a word on how many more there
/// are.
pub proof fn law_long_diff_is_cut(unified: Seq<char>)
    ensures
        ({
            let ls = lines(unified);
            &&& ls.len() <= 40 ==> shown_diff(false, unified) == join(
                Seq::new(ls.len(), |i: int| "  "@ + ls[i]),
                "\n"@,
            )
            &&& ls.len() > 40 ==> shown_diff(false, unified) == join(
                Seq::new(40, |i: int| "  "@ + ls[i]).push(
                    "  "@ + ("… "@ + decimal((ls.len() - 40) as nat) + " more line(s)"@),
                ),
                "\n"@,
            )
        }),
{
    let ls = lines(unified);
    if ls.len() <= 40 {
        assert(crate::reporter::diff_lines(false, ls, ls.len()) =~= Seq::new(
            ls.len(),
            |i: int| "  "@ + ls[i],
        ));
    } else {
        assert(crate::reporter::diff_lines(false, ls, 40) =~= Seq::new(
            40,
            |i: int| "  "@ + ls[i],
        ));
    }
}

/// A call is shown by its name and the first of its usual arguments: the path,
/// else the command, the pattern, the address, the name, the query; else by all.
pub proof fn law_call_is_shown_by_its_first_argument(args: JsonTree, v: Seq<char>)
    ensures
        text_member(args, "path"@) == Some(v) ==> args_summary(args) == "path="@ + v,
        text_member(args, "path"@) is None && text_member(args, "command"@) == Some(v)
            ==> args_summary(args) == "command="@ + v,
        text_member(args, "path"@) is None && text_member(args, "command"@) is None && text_member(
            args,
            "pattern"@,
        ) == Some(v) ==> args_summary(args) == "pattern="@ + v,
        text_member(args, "path"@) is None && text_member(args, "command"@) is None && text_member(
            args,
            "pattern"@,
        ) is None && text_member(args, "url"@) == Some(v) ==> args_summary(args) == "url="@ + v,
        text_member(args, "path"@) is None && text_member(args, "command"@) is None && text_member(
            args,
            "pattern"@,
        ) is None && text_member(args, "url"@) is None && text_member(args, "name"@) == Some(v)
            ==> args_summary(args) == "name="@ + v,
        text_member(args, "path"@) is None && text_member(args, "command"@) is None && text_member(
            args,
            "pattern"@,
        ) is None && text_member(args, "url"@) is None && text_member(args, "name"@) is None
            && text_member(args, "query"@) == Some(v) ==> args_summary(args) == "query="@ + v,
        text_member(args, "path"@) is None && text_member(args, "command"@) is None && text_member(
            args,
            "pattern"@,
        ) is None && text_member(args, "url"@) is None && text_member(args, "name"@) is None
            && text_member(args, "query"@) is None ==> args_summary(args) == truncated(
            json_text(canonical(args)),
            100,
        ),
{
}

/// The line of a call names the tool, with its arguments in brackets.
pub proof fn law_call_line_names_the_tool(call: ToolCallView)
    ensures
        args_summary(call.arguments).len() > 0 ==> default_call(false, call) == "● "@ + (call.name
            + "("@ + args_summary(call.arguments) + ")"@),
        args_summary(call.arguments).len() == 0 ==> default_call(false, call) == "● "@ + call.name,
{
}

/// The line of a result says whether it went well, and shows the first three
/// hundred characters; that of a change counts the lines and shows the diff. How
/// long it took is said from a second on.
pub proof fn law_result_line_tells_the_result(o: OutcomeView, e: ElapsedView)
    ensures
        outcome_mark(false, true) == "✗"@,
        outcome_mark(false, false) == "✓"@,
        e.millis >= 1000 ==> elapsed_suffix(false, Some(e)) == " "@ + ("("@ + e.seconds + "s)"@),
        e.millis < 1000 ==> elapsed_suffix(false, Some(e)).len() == 0,
        elapsed_suffix(false, None).len() == 0,
        text_member(o.metadata, "diff"@) is None ==> default_result(false, o, None) == "  "@ + (
        if o.is_error {
            "✗"@
        } else {
            "✓"@
        }) + " "@ + truncated(o.content, 300),
        text_member(o.metadata, "diff"@) matches Some(d) ==> (d.len() > 0 ==> default_result(
            false,
            o,
            None,
        ) == "  "@ + (if o.is_error {
            "✗"@
        } else {
            "✓"@
        }) + " "@ + ("+"@ + decimal(crate::reporter::line_count(o.metadata, "additions"@))) + " "@
            + ("-"@ + decimal(crate::reporter::line_count(o.metadata, "deletions"@))) + "\n"@
            + shown_diff(false, d)),
{
    let suffix = elapsed_suffix(false, None);
    assert(suffix =~= Seq::empty());
    assert(forall|a: Seq<char>| #[trigger] (a + Seq::<char>::empty()) =~= a);
}

/// What a hook on the display says is shown in place of the line, or hides it.
pub proof fn law_hook_decides_the_line(
    color: bool,
    value: Seq<char>,
    style: Option<Seq<char>>,
    line: Seq<char>,
)
    ensures
        decided_line(color, RenderView::Hide, line) is None,
        decided_line(color, RenderView::Text { value, style }, line) == Some(
            painted_as(color, style, value),
        ),
        decided_line(color, RenderView::Default, line) == Some(line),
{
}

/// A retry says in how long, which one it is, and why.
pub proof fn law_retry_is_told(attempt: nat, max: nat, secs: nat, reason: Seq<char>)
    ensures
        retry_text(false, attempt, max, secs, reason) == "retrying in "@ + decimal(secs)
            + "s (attempt "@ + decimal(attempt) + "/"@ + decimal(max) + "): "@ + reason,
{
}

// ---------------------------------------------------------------------------
// What runs
// ---------------------------------------------------------------------------

proof fn lemma_label_at(labels: Seq<LabelView>, key: Seq<char>, i: int)
    requires
        0 <= i,
    ensures
        match label_at(labels, key, i) {
            Some(k) => i <= k < labels.len() && labels[k].key == key && forall|j: int|
                i <= j < k ==> (#[trigger] labels[j]).key != key,
            None => forall|j: int| i <= j < labels.len() ==> (#[trigger] labels[j]).key != key,
        },
    decreases labels.len() - i,
{
    if i < labels.len() && labels[i].key != key {
        lemma_label_at(labels, key, i + 1);
    }
}

/// What starts is shown behind what runs, in place of what has its key; what
/// stops is taken away, and all else stays.
pub proof fn law_running_things_are_shown(s: SpinnerView, l: LabelView, k: int)
    ensures
        (forall|j: int| 0 <= j < s.labels.len() ==> (#[trigger] s.labels[j]).key != l.key)
            ==> with_started(s, l).labels == s.labels.push(l) && with_stopped(s, l.key) == s,
        0 <= k < s.labels.len() && s.labels[k].key == l.key && (forall|j: int|
            0 <= j < k ==> (#[trigger] s.labels[j]).key != l.key) ==> with_started(s, l).labels
            == s.labels.update(k, l) && with_stopped(s, l.key).labels == s.labels.remove(k),
        with_started(s, l).frame == s.frame,
        with_stopped(s, l.key).frame == s.frame,
        label_texts(s.labels).len() == s.labels.len(),
        forall|j: int|
            0 <= j < s.labels.len() ==> #[trigger] label_texts(s.labels)[j] == s.labels[j].label,
{
    lemma_label_at(s.labels, l.key, 0);
}

/// The time that is shown is since the first of what runs started.
pub proof fn law_first_start_counts(labels: Seq<LabelView>, i: int)
    requires
        0 <= i < labels.len(),
    ensures
        earliest(labels) <= labels[i].started,
        exists|j: int| 0 <= j < labels.len() && earliest(labels) == (#[trigger] labels[j]).started,
    decreases labels.len(),
{
    let front = labels.drop_last();
    if front.len() > 0 {
        law_first_start_counts(
            front,
            if i < front.len() {
                i
            } else {
                0
            },
        );
        let j = choose|j: int| 0 <= j < front.len() && earliest(front) == (#[trigger] front[j]).started;
        assert(labels[j].started == earliest(front));
        if labels.last().started < earliest(front) {
            assert(labels[labels.len() - 1].started == earliest(labels));
        }
    } else {
        reveal_with_fuel(earliest, 2);
        assert(earliest(labels) == labels[0].started);
    }
}

// ---------------------------------------------------------------------------
// Logs
// ---------------------------------------------------------------------------

/// A log has one line for each event, with the time before it; as JSON, with the
/// time and the name of the event before its own members.
pub proof fn law_log_line_has_time_and_event(ts: u64, e: LogEventView)
    ensures
        logged(LogFormat::Text, ts, e) == "["@ + decimal(ts as nat) + "] "@ + one_line(e.line),
        logged(LogFormat::Json, ts, e) == json_text(
            canonical(
                JsonTree::Object(
                    seq![("ts"@, number_tree(ts)), ("event"@, JsonTree::Str(e.name))] + e.fields,
                ),
            ),
        ),
{
}

/// Starts, texts, thoughts, retries and used tokens are logged; other progress is
/// not.
pub proof fn law_progress_is_logged(
    text: Seq<char>,
    attempt: usize,
    max_attempts: usize,
    delay_secs: u64,
    usage: Usage,
    id: Seq<char>,
)
    ensures
        report_event(ReportView::TurnStart) matches Some(e) && e.name == "turn_start"@ && e.line
            == "turn: waiting on model"@ && e.fields.len() == 0,
        report_event(ReportView::AssistantText(text)) matches Some(e) && e.name
            == "assistant_text"@ && e.line == "assistant: "@ + text && e.fields == seq![
            ("text"@, JsonTree::Str(text)),
        ],
        report_event(ReportView::Thinking(text)) matches Some(e) && e.name == "thinking"@ && e.line
            == "thinking: "@ + text && e.fields == seq![("text"@, JsonTree::Str(text))],
        report_event(
            ReportView::Retry { attempt, max_attempts, delay_secs, reason: text },
        ) matches Some(e) && e.name == "retry"@ && e.line == "retry "@ + decimal(attempt as nat)
            + "/"@ + decimal(max_attempts as nat) + " in "@ + delay_text(delay_secs) + ": "@ + text
            && e.fields.len() == 4 && e.fields[0] == ("attempt"@, number_tree(attempt as u64))
            && e.fields[1] == ("max_attempts"@, number_tree(max_attempts as u64)) && e.fields[3]
            == ("reason"@, JsonTree::Str(text)),
        delay_secs * 1000 <= u64::MAX ==> report_event(
            ReportView::Retry { attempt, max_attempts, delay_secs, reason: text },
        )->0.fields[2] == ("delay_ms"@, number_tree((delay_secs * 1000) as u64)),
        report_event(ReportView::Usage(usage)) matches Some(e) && e.name == "usage"@ && e.line
            == "usage: input="@ + decimal(usage.input_tokens as nat) + " output="@ + decimal(
            usage.output_tokens as nat,
        ) && e.fields == seq![
            ("input_tokens"@, number_tree(usage.input_tokens as u64)),
            ("output_tokens"@, number_tree(usage.output_tokens as u64)),
        ],
        report_event(ReportView::TurnEnd) is None,
        report_event(ReportView::AssistantTextDelta(text)) is None,
        report_event(ReportView::Steering(text)) is None,
        report_event(ReportView::ProviderChanged { id, model: text }) is None,
        delay_text(0) == "0ns"@,
        delay_secs > 0 ==> delay_text(delay_secs) == decimal(delay_secs as nat) + "s"@,
{
}

/// Calls and results are logged with the id and the name of the call; of a
/// result, the first two thousand characters.
pub proof fn law_calls_and_results_are_logged(call: ToolCallView, o: OutcomeView)
    ensures
        call_event(call).name == "tool_call"@,
        call_event(call).line == "tool_call: "@ + call.name + "("@ + json_text(
            canonical(call.arguments),
        ) + ")"@,
        call_event(call).fields == seq![
            ("id"@, JsonTree::Str(call.id)),
            ("name"@, JsonTree::Str(call.name)),
            ("arguments"@, call.arguments),
        ],
        result_event(call, o).name == "tool_result"@,
        o.is_error ==> result_event(call, o).line == "tool_result: "@ + call.name + " ["@ + "error"@
            + "] "@ + truncated(o.content, 2000),
        !o.is_error ==> result_event(call, o).line == "tool_result: "@ + call.name + " ["@ + "ok"@
            + "] "@ + truncated(o.content, 2000),
        result_event(call, o).fields == seq![
            ("id"@, JsonTree::Str(call.id)),
            ("name"@, JsonTree::Str(call.name)),
            ("is_error"@, JsonTree::Bool(o.is_error)),
            ("content"@, JsonTree::Str(truncated(o.content, 2000))),
        ],
{
}

// ---------------------------------------------------------------------------
// The status
// ---------------------------------------------------------------------------

/// The status says what is done since when; the time is that of the outermost
/// work, and with it both are gone.
pub proof fn law_status_follows_the_work(s: StatusView, action: Seq<char>, now: u64)
    ensures
        entered(s, action, now).current_action == Some(action),
        entered(s, action, now).depth == s.depth + 1,
        s.depth == 0 ==> entered(s, action, now).turn_started_at == Some(now),
        s.depth > 0 ==> entered(s, action, now).turn_started_at == s.turn_started_at,
        entered(s, action, now).path == s.path,
        s.depth <= 1 ==> left(s).depth == 0 && left(s).turn_started_at is None && left(
            s,
        ).current_action is None,
        s.depth > 1 ==> left(s).depth == s.depth - 1 && left(s).turn_started_at
            == s.turn_started_at && left(s).current_action == s.current_action,
        left(s).path == s.path && left(s).model == s.model && left(s).provider_id
            == s.provider_id,
{
}

/// A snapshot holds the status under the names that its readers know.
pub proof fn law_snapshot_holds_the_status(s: StatusView, pid: u32, now: u64)
    ensures
        s.depth > 0 ==> text_member(snapshot_tree(s, pid, now), "state"@) == Some("running"@),
        s.depth == 0 ==> text_member(snapshot_tree(s, pid, now), "state"@) == Some("idle"@),
        member(snapshot_tree(s, pid, now), "current_action"@) == Some(
            match s.current_action {
                Some(a) => JsonTree::Str(a),
                None => JsonTree::Null,
            },
        ),
        member(snapshot_tree(s, pid, now), "turn_started_at"@) == Some(
            match s.turn_started_at {
                Some(n) => number_tree(n),
                None => JsonTree::Null,
            },
        ),
        text_member(snapshot_tree(s, pid, now), "provider"@) == Some(s.provider_id),
        text_member(snapshot_tree(s, pid, now), "model"@) == Some(s.model),
        member(snapshot_tree(s, pid, now), "pid"@) == Some(number_tree(pid as u64)),
        member(snapshot_tree(s, pid, now), "updated_at"@) == Some(number_tree(now)),
{
    reveal_strlit("state");
    reveal_strlit("current_action");
    reveal_strlit("turn_started_at");
    reveal_strlit("provider");
    reveal_strlit("model");
    reveal_strlit("pid");
    reveal_strlit("updated_at");
    assert("state"@.len() == 5 && "current_action"@.len() == 14 && "turn_started_at"@.len() == 15
        && "provider"@.len() == 8 && "model"@.len() == 5 && "pid"@.len() == 3 && "updated_at"@.len()
        == 10);
    assert("state"@[0] == 's' && "model"@[0] == 'm');
    let m = snapshot_tree(s, pid, now)->Object_0;
    lemma_member(m, 0);
    lemma_member(m, 1);
    lemma_member(m, 2);
    lemma_member(m, 3);
    lemma_member(m, 4);
    lemma_member(m, 5);
    lemma_member(m, 6);
}

// ---------------------------------------------------------------------------
// A running turn
// ---------------------------------------------------------------------------

/// While a turn runs: its end is given back, a line is answered beside it, and
/// whoever cancels it gives it a second and a half, or cuts it off the second
/// time.
pub proof fn law_events_of_a_running_turn(cancelled: bool, text: Seq<char>, now: u64)
    requires
        now + 1500 <= u64::MAX,
    ensures
        run_step(cancelled, RunEventView::Finished, now) == (cancelled, RunActionView::Return),
        run_step(cancelled, RunEventView::DeadlinePassed, now) == (
            cancelled,
            RunActionView::Interrupt,
        ),
        run_step(cancelled, RunEventView::Question, now) == (cancelled, RunActionView::Ask),
        run_step(cancelled, RunEventView::Tick, now) == (cancelled, RunActionView::Redraw),
        run_step(cancelled, RunEventView::Scrolled, now) == (cancelled, RunActionView::Redraw),
        run_step(cancelled, RunEventView::Nothing, now) == (cancelled, RunActionView::Wait),
        run_step(cancelled, RunEventView::Key(KeyOutcomeView::Submit(text)), now) == (
            cancelled,
            RunActionView::Aside(text),
        ),
        run_step(false, RunEventView::Key(KeyOutcomeView::CancelTurn), now) == (
            true,
            RunActionView::Cancel { deadline: (now + 1500) as u64 },
        ),
        run_step(true, RunEventView::Key(KeyOutcomeView::CancelTurn), now) == (
            true,
            RunActionView::Interrupt,
        ),
{
}

/// What was entered is shown behind a sign: one at rest, another while a turn
/// runs. Questions that wait are counted in the status.
pub proof fn law_entries_and_status_are_shown(
    text: Seq<char>,
    base: Seq<char>,
    n: nat,
    provider: Seq<char>,
    model: Seq<char>,
    dir: Seq<char>,
)
    ensures
        echoed(InputMode::Idle, text, false) == "❯"@ + " "@ + text,
        echoed(InputMode::Running, text, false) == "»"@ + " "@ + text,
        with_pending(base, 0) == base,
        n > 0 ==> with_pending(base, n) == base + " · "@ + decimal(n) + " answering"@,
        idle_status(provider, model, dir, 0) == provider + " ("@ + model + ") · "@ + dir
            + " · Alt+Enter for newline · Ctrl-D/exit/Ctrl-C twice quits · Tab completes · PgUp/PgDn scrolls"@,
        side_answer(true, text, false) == "↩"@ + " "@ + text,
        side_answer(false, text, false) == "✗"@ + " "@ + text,
{
}

/// An answered question is taken from those that wait: its first place, and no
/// other.
pub proof fn law_one_question_is_taken(pending: Seq<Seq<char>>, q: Seq<char>, k: int)
    requires
        0 <= k < pending.len(),
        pending[k] == q,
        forall|j: int| 0 <= j < k ==> #[trigger] pending[j] != q,
    ensures
        without_question(pending, q) == pending.remove(k),
{
    lemma_question_at(pending, q, 0, k);
}

proof fn lemma_question_at(pending: Seq<Seq<char>>, q: Seq<char>, i: int, k: int)
    requires
        0 <= i <= k < pending.len(),
        pending[k] == q,
        forall|j: int| 0 <= j < k ==> #[trigger] pending[j] != q,
    ensures
        crate::tui::question_at(pending, q, i) == Some(k),
    decreases k - i,
{
    if i < k {
        lemma_question_at(pending, q, i + 1, k);
    }
}

/// A turn that was cut off says so, and how to undo what it did to files; any
/// other end in an error says the error.
pub proof fn law_end_of_a_turn_is_told(e: AgentErrorView, reason: Seq<char>)
    ensures
        error_notices(AgentErrorView::Interrupted, false) == seq!["Interrupted."@],
        error_notices(AgentErrorView::Interrupted, true) == seq![
            "Interrupted."@,
            "note: this turn already edited file(s) on disk before being interrupted -- run /undo to revert them."@,
        ],
        !(e is Interrupted) ==> error_notices(e, true) == seq!["error: "@ + agent_error_text(e)]
            && error_notices(e, false) == seq!["error: "@ + agent_error_text(e)],
        agent_error_text(AgentErrorView::HookBlocked(reason)) == "blocked by hook: "@ + reason,
        agent_error_text(AgentErrorView::Interrupted) == "interrupted"@,
        e matches AgentErrorView::Provider(p) ==> agent_error_text(e) == "provider error: "@
            + crate::provider::error_text(p),
{
}

// ---------------------------------------------------------------------------
// Areas
// ---------------------------------------------------------------------------

/// The lower part of the screen has a line for the status, up to three for
/// questions that wait, and the input with its border, up to six lines of it.
pub proof fn law_rows_of_the_lower_part(h: u16, buffer: Seq<char>, pending: nat)
    ensures
        pending_rows(pending) == if pending < 3 {
            pending
        } else {
            3
        },
        input_rows(buffer) == if crate::input_text::lines_in(buffer) < 6 {
            crate::input_text::lines_in(buffer)
        } else {
            6
        },
        1 + pending_rows(pending) + 2 + input_rows(buffer) <= h ==> bottom_rows(h, buffer, pending)
            == 1 + pending_rows(pending) + 2 + input_rows(buffer),
        1 + pending_rows(pending) + 2 + input_rows(buffer) > h ==> bottom_rows(h, buffer, pending)
            == h,
{
}

/// The parts of the lower area stand below each other and fill it: the status,
/// what waits, and the input, whose interior lies one cell within its border.
pub proof fn law_parts_fill_the_lower_area(area: Rect, pending: nat)
    requires
        area.fits(),
        area.height >= 2,
    ensures
        ({
            let p = parts_of(area, pending);
            let n: int = match p.pending {
                Some(r) => r.height as int,
                None => 0,
            };
            &&& p.status matches Some(s) && s.y == area.y && s.height == 1 && s.x == area.x
                && s.width == area.width
            &&& p.pending matches Some(r) ==> r.y == area.y + 1 && r.height > 0 && r.width
                == area.width && r.x == area.x
            &&& p.input matches Some(i) && i.y == area.y + 1 + n && i.y + i.height == area.y
                + area.height && i.width == area.width && i.x == area.x
            &&& n == if pending_rows(pending) <= area.height - 2 {
                pending_rows(pending) as int
            } else {
                area.height - 2
            }
            &&& p.interior matches Some(r) ==> (p.input matches Some(i) && (area.width >= 2 ==> r.x
                == i.x + 1 && r.y == i.y + 1 && r.width == i.width - 2 && r.height == i.height
                - 2))
        }),
{
}

/// What is centered has the wanted size, or that of the area where it is smaller,
/// and as much room on either side, up to one cell.
pub proof fn law_centered_is_in_the_middle(area: Rect, width: u16, height: u16)
    requires
        area.fits(),
    ensures
        ({
            let r = centered_in(area, width, height);
            &&& r.width == if width <= area.width {
                width
            } else {
                area.width
            }
            &&& r.height == if height <= area.height {
                height
            } else {
                area.height
            }
            &&& 0 <= (area.x + area.width - r.x - r.width) - (r.x - area.x) <= 1
            &&& 0 <= (area.y + area.height - r.y - r.height) - (r.y - area.y) <= 1
        }),
{
}

// ---------------------------------------------------------------------------
// Memory of plugins
// ---------------------------------------------------------------------------

/// The bytes at a place are those that are there, as many as are wanted, or up to
/// the end.
pub proof fn law_bytes_at_a_place(data: Seq<u8>, ptr: u32, len: u32)
    ensures
        ptr + len <= data.len() ==> bytes_at(data, ptr, len) == data.subrange(
            ptr as int,
            ptr + len,
        ),
        ptr <= data.len() < ptr + len ==> bytes_at(data, ptr, len) == data.skip(ptr as int),
        ptr > data.len() ==> bytes_at(data, ptr, len).len() == 0,
{
    if ptr + len <= data.len() {
        assert(bytes_at(data, ptr, len) =~= data.subrange(ptr as int, ptr + len));
    } else if ptr <= data.len() {
        assert(bytes_at(data, ptr, len) =~= data.skip(ptr as int));
    }
}

/// How long something took stands behind its line.
pub proof fn law_time_stands_behind_the_line(color: bool, o: OutcomeView, e: ElapsedView)
    ensures
        text_member(o.metadata, "diff"@) is None ==> default_result(color, o, Some(e))
            == default_result(color, o, None) + elapsed_suffix(color, Some(e)),
{
    assert(forall|a: Seq<char>| #[trigger] (a + Seq::<char>::empty()) =~= a);
    assert(elapsed_suffix(color, None) =~= Seq::empty());
}

/// The lines in color: calls are bold, marks green or red, retries yellow, and
/// what is less important dim.
pub proof fn law_lines_in_color(
    call: ToolCallView,
    e: ElapsedView,
    attempt: nat,
    max: nat,
    secs: nat,
    reason: Seq<char>,
)
    ensures
        default_call(true, call) == "\x1b[1m"@ + default_call(false, call) + "\x1b[0m"@,
        outcome_mark(true, true) == "\x1b[31m"@ + "✗"@ + "\x1b[0m"@,
        outcome_mark(true, false) == "\x1b[32m"@ + "✓"@ + "\x1b[0m"@,
        e.millis >= 1000 ==> elapsed_suffix(true, Some(e)) == " "@ + ("\x1b[2m"@ + ("("@ + e.seconds
            + "s)"@) + "\x1b[0m"@),
        retry_text(true, attempt, max, secs, reason) == "\x1b[33m"@ + retry_text(
            false,
            attempt,
            max,
            secs,
            reason,
        ) + "\x1b[0m"@,
{
}

} // verus!
