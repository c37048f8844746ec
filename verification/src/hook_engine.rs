//! Hooks written as `mq` scripts.
//!
//! A hook is a function of a script. It is called with one JSON value and
//! answers with one: an object whose `action` says what is to happen. What the
//! answer means, and what happens where there is none, is decided here.
use vstd::prelude::*;

use crate::hooks::{
    BudgetInfo, DecisionView, HookDecision, RenderDecision, RenderView, ToolCallDecision,
    ToolCallDecisionView, ToolResultInfo, Veto,
};
use crate::json::{
    bool_member, entry, member, number_tree, text_member, Json, JsonTree,
};
use crate::message::{
    Message, MessageView, OutcomeView, ToolCall, ToolCallView, ToolExecOutcome, Usage,
};
use crate::message_json::{
    call_from, call_json, call_tree, law_call_survives_json, law_messages_survive_json,
    message_trees, messages_from, messages_json, read_call, read_messages, text_if_any,
};
use crate::model::{group_views, opt_view, views, Copied};
use crate::order::{in_order, sort_texts};
use crate::script::{
    as_json, eval_steps, evaluating, json_of, Evaluation, ScriptStep, StepView,
};
use crate::text::{chars_of, same, text_range};

verus! {

broadcast use group_views;

/// What a failing hook does: nothing, or stop.
#[derive(Clone, Copy, Debug, PartialEq, Eq, Structural)]
pub enum FailMode {
    Open,
    Closed,
}

/// Why hooks could not be loaded.
pub enum HookLoadError {
    /// The directory could not be read: its path and the reason.
    Io(String, String),
    /// A script is wrong: its name and the reason.
    Mq(String, String),
}

/// The message that a load error shows.
pub open spec fn load_error_text(e: HookLoadError) -> Seq<char> {
    match e {
        HookLoadError::Io(path, reason) => "failed to read hooks directory "@ + path@ + ": "@
            + reason@,
        HookLoadError::Mq(name, reason) => "failed to load hook module '"@ + name@ + "': "@
            + reason@,
    }
}

impl HookLoadError {
    /// The message that the error shows.
    pub fn message(&self) -> (r: String)
        ensures
            r@ == load_error_text(*self),
    {
        match self {
            HookLoadError::Io(path, reason) => {
                let mut r = "failed to read hooks directory ".to_owned();
                r.append(path.as_str());
                r.append(": ");
                r.append(reason.as_str());
                r
            },
            HookLoadError::Mq(name, reason) => {
                let mut r = "failed to load hook module '".to_owned();
                r.append(name.as_str());
                r.append("': ");
                r.append(reason.as_str());
                r
            },
        }
    }
}

// ---------------------------------------------------------------------------
// Which files are hooks
// ---------------------------------------------------------------------------

/// The position of the last dot of a file name, from `i` down.
pub open spec fn last_dot(s: Seq<char>, i: int) -> int
    decreases i,
{
    if i <= 0 {
        -1
    } else if i <= s.len() && s[i - 1] == '.' {
        i - 1
    } else {
        last_dot(s, i - 1)
    }
}

/// The name of a file without its extension, if that is `mq`.
pub open spec fn module_name(file: Seq<char>) -> Option<Seq<char>> {
    let k = last_dot(file, file.len() as int);
    if k > 0 && file.skip(k + 1) == "mq"@ {
        Some(file.take(k))
    } else {
        None
    }
}

/// The names of the modules among some files.
pub open spec fn module_names(files: Seq<Seq<char>>) -> Seq<Seq<char>>
    decreases files.len(),
{
    if files.len() == 0 {
        Seq::empty()
    } else {
        let rest = module_names(files.drop_last());
        match module_name(files.last()) {
            Some(name) => rest.push(name),
            None => rest,
        }
    }
}

fn name_of_module(file: &str) -> (r: Option<String>)
    ensures
        opt_view(r) == module_name(file@),
{
    let v = chars_of(file);
    let n: usize = v.len();
    let mut i: usize = n;
    while i > 0 && v[i - 1] != '.'
        invariant
            n == v@.len(),
            i <= n,
            last_dot(v@, n as int) == last_dot(v@, i as int),
        decreases i,
    {
        i -= 1;
    }
    if i <= 1 {
        return None;
    }
    let extension = text_range(&v, i, n);
    assert(extension@ == v@.skip(i as int));
    if same(extension.as_str(), "mq") {
        let stem = text_range(&v, 0, i - 1);
        assert(stem@ == v@.take(i - 1));
        Some(stem)
    } else {
        None
    }
}

/// The names of the hook modules among the files of a directory, in the order
/// in which they are loaded.
pub fn hook_modules(files: &Vec<String>) -> (r: Vec<String>)
    ensures
        views(r@) == in_order(module_names(views(files@)), false),
{
    let mut names: Vec<String> = Vec::new();
    let ghost all = views(files@);
    for i in 0..files.len()
        invariant
            all == views(files@),
            views(names@) == module_names(all.take(i as int)),
    {
        assert(all.take(i + 1).drop_last() == all.take(i as int));
        if let Some(name) = name_of_module(files[i].as_str()) {
            names.push(name);
        }
    }
    assert(all.take(all.len() as int) == all);
    sort_texts(names, false)
}

// ---------------------------------------------------------------------------
// What a hook answered
// ---------------------------------------------------------------------------

/// What calling a hook gave.
pub enum HookOutcome {
    Value(Json),
    /// The script has no such function.
    NotDefined,
    /// The script failed.
    Error(String),
}

#[verifier::ext_equal]
pub enum HookOutcomeView {
    Value(JsonTree),
    NotDefined,
    Error(Seq<char>),
}

impl View for HookOutcome {
    type V = HookOutcomeView;

    open spec fn view(&self) -> HookOutcomeView {
        match self {
            HookOutcome::Value(j) => HookOutcomeView::Value(j@),
            HookOutcome::NotDefined => HookOutcomeView::NotDefined,
            HookOutcome::Error(m) => HookOutcomeView::Error(m@),
        }
    }
}

/// The error of a script engine about a function that is not there.
pub open spec fn not_defined_text(fn_name: Seq<char>) -> Seq<char> {
    "\""@ + fn_name + "\" is not defined"@
}

/// What an evaluation means for the hook that was called.
pub open spec fn outcome_of(r: Result<JsonTree, Seq<char>>, fn_name: Seq<char>) -> HookOutcomeView {
    match r {
        Ok(t) => HookOutcomeView::Value(t),
        Err(m) => if m == not_defined_text(fn_name) {
            HookOutcomeView::NotDefined
        } else {
            HookOutcomeView::Error(m)
        },
    }
}

/// Sorts the result of an evaluation: a value, a hook that is not there, or a
/// failure.
pub fn classify(result: Result<Json, String>, fn_name: &str) -> (r: HookOutcome)
    ensures
        r@ == outcome_of(
            match result {
                Ok(j) => Ok(j@),
                Err(m) => Err(m@),
            },
            fn_name@,
        ),
{
    match result {
        Ok(j) => HookOutcome::Value(j),
        Err(m) => {
            let mut expected = "\"".to_owned();
            expected.append(fn_name);
            expected.append("\" is not defined");
            if m == expected {
                HookOutcome::NotDefined
            } else {
                HookOutcome::Error(m)
            }
        },
    }
}

/// What is said of an answer that no hook gives; the complaint is that of the
/// reader of the answer.
pub open spec fn malformed(complaint: Seq<char>) -> Seq<char> {
    "malformed hook return value: "@ + complaint
}

fn malformed_text(complaint: &str) -> (r: String)
    ensures
        r@ == malformed(complaint@),
{
    let mut r = "malformed hook return value: ".to_owned();
    r.append(complaint);
    r
}

/// Whether an answer says this action.
pub open spec fn says(t: JsonTree, action: Seq<char>) -> bool {
    text_member(t, "action"@) == Some(action)
}

/// The decision of a hook that failed.
pub open spec fn on_error<T>(
    message: Seq<char>,
    default: DecisionView<T>,
    mode: FailMode,
) -> DecisionView<T> {
    match mode {
        FailMode::Open => default,
        FailMode::Closed => DecisionView::Block(message),
    }
}

/// The decision of a hook that may change a text: `allow` with a `value`, or
/// `block` with a `reason`.
pub open spec fn text_decision(
    o: HookOutcomeView,
    default: Seq<char>,
    mode: FailMode,
    complaint: Seq<char>,
) -> DecisionView<Seq<char>> {
    let d = DecisionView::Allow(default);
    match o {
        HookOutcomeView::NotDefined => d,
        HookOutcomeView::Error(m) => on_error(m, d, mode),
        HookOutcomeView::Value(t) => match (
            says(t, "allow"@),
            text_member(t, "value"@),
            says(t, "block"@),
            text_member(t, "reason"@),
        ) {
            (true, Some(value), _, _) => DecisionView::Allow(value),
            (_, _, true, Some(reason)) => DecisionView::Block(reason),
            _ => on_error(malformed(complaint), d, mode),
        },
    }
}

fn said(j: &Json, action: &str) -> (r: bool)
    ensures
        r == says(j@, action@),
{
    match j.get_text("action") {
        Some(a) => same(a.as_str(), action),
        None => false,
    }
}

/// Decides for a hook that may change a text.
pub fn decide_text(
    outcome: HookOutcome,
    default: String,
    mode: FailMode,
    complaint: &str,
) -> (r: HookDecision<String>)
    ensures
        r@ == text_decision(outcome@, default@, mode, complaint@),
{
    match outcome {
        HookOutcome::NotDefined => HookDecision::Allow(default),
        HookOutcome::Error(m) => match mode {
            FailMode::Open => HookDecision::Allow(default),
            FailMode::Closed => HookDecision::Block(m),
        },
        HookOutcome::Value(j) => {
            if said(&j, "allow") {
                if let Some(value) = j.get_text("value") {
                    return HookDecision::Allow(value.clone());
                }
            }
            if said(&j, "block") {
                if let Some(reason) = j.get_text("reason") {
                    return HookDecision::Block(reason.clone());
                }
            }
            match mode {
                FailMode::Open => HookDecision::Allow(default),
                FailMode::Closed => HookDecision::Block(malformed_text(complaint)),
            }
        },
    }
}

/// The decision of a hook that only lets pass or stops.
pub open spec fn gate_decision(
    o: HookOutcomeView,
    mode: FailMode,
    complaint: Seq<char>,
) -> Option<Seq<char>> {
    match o {
        HookOutcomeView::NotDefined => None,
        HookOutcomeView::Error(m) => match mode {
            FailMode::Open => None,
            FailMode::Closed => Some(m),
        },
        HookOutcomeView::Value(t) => if says(t, "allow"@) {
            None
        } else {
            match (says(t, "block"@), text_member(t, "reason"@)) {
                (true, Some(reason)) => Some(reason),
                _ => match mode {
                    FailMode::Open => None,
                    FailMode::Closed => Some(malformed(complaint)),
                },
            }
        },
    }
}

/// Decides for a hook that only lets pass or stops.
pub fn decide_gate(outcome: HookOutcome, mode: FailMode, complaint: &str) -> (r: Veto)
    ensures
        opt_view(r) == gate_decision(outcome@, mode, complaint@),
{
    match outcome {
        HookOutcome::NotDefined => None,
        HookOutcome::Error(m) => match mode {
            FailMode::Open => None,
            FailMode::Closed => Some(m),
        },
        HookOutcome::Value(j) => {
            if said(&j, "allow") {
                return None;
            }
            if said(&j, "block") {
                if let Some(reason) = j.get_text("reason") {
                    return Some(reason.clone());
                }
            }
            match mode {
                FailMode::Open => None,
                FailMode::Closed => Some(malformed_text(complaint)),
            }
        },
    }
}

/// A decision on messages, seen through their views.
pub open spec fn answer_view(d: HookDecision<Vec<Message>>) -> DecisionView<Seq<MessageView>> {
    match d {
        HookDecision::Allow(m) => DecisionView::Allow(views(m@)),
        HookDecision::Block(reason) => DecisionView::Block(reason@),
    }
}

/// The messages that a value denotes, if it is a list of messages.
pub open spec fn listed_messages(t: Option<JsonTree>) -> Option<Seq<MessageView>> {
    match t {
        Some(JsonTree::Array(v)) => messages_from(v, 0),
        _ => None,
    }
}

/// The decision of a hook that may change messages: `allow` with a `value`
/// that is a list of messages, or `block` with a `reason`.
pub open spec fn messages_decision(
    o: HookOutcomeView,
    default: Seq<MessageView>,
    mode: FailMode,
    complaint: Seq<char>,
) -> DecisionView<Seq<MessageView>> {
    let d = DecisionView::Allow(default);
    match o {
        HookOutcomeView::NotDefined => d,
        HookOutcomeView::Error(m) => on_error(m, d, mode),
        HookOutcomeView::Value(t) => match (
            says(t, "allow"@),
            listed_messages(member(t, "value"@)),
            says(t, "block"@),
            text_member(t, "reason"@),
        ) {
            (true, Some(value), _, _) => DecisionView::Allow(value),
            (_, _, true, Some(reason)) => DecisionView::Block(reason),
            _ => on_error(malformed(complaint), d, mode),
        },
    }
}

/// Decides for a hook that may change messages.
pub fn decide_messages(
    outcome: HookOutcome,
    default: Vec<Message>,
    mode: FailMode,
    complaint: &str,
) -> (r: HookDecision<Vec<Message>>)
    ensures
        answer_view(r) == messages_decision(outcome@, views(default@), mode, complaint@),
{
    match outcome {
        HookOutcome::NotDefined => HookDecision::Allow(default),
        HookOutcome::Error(m) => match mode {
            FailMode::Open => HookDecision::Allow(default),
            FailMode::Closed => HookDecision::Block(m),
        },
        HookOutcome::Value(j) => {
            if said(&j, "allow") {
                if let Some(v) = j.get_array("value") {
                    if let Some(value) = read_messages(v) {
                        return HookDecision::Allow(value);
                    }
                }
            }
            if said(&j, "block") {
                if let Some(reason) = j.get_text("reason") {
                    return HookDecision::Block(reason.clone());
                }
            }
            match mode {
                FailMode::Open => HookDecision::Allow(default),
                FailMode::Closed => HookDecision::Block(malformed_text(complaint)),
            }
        },
    }
}

/// The outcome that a JSON value denotes.
pub open spec fn outcome_from(t: JsonTree) -> Option<OutcomeView> {
    match (text_member(t, "content"@), bool_member(t, "is_error"@), member(t, "metadata"@)) {
        (Some(content), Some(is_error), Some(metadata)) => Some(
            OutcomeView { content, is_error, metadata },
        ),
        _ => None,
    }
}

fn read_outcome(j: &Json) -> (r: Option<ToolExecOutcome>)
    ensures
        opt_view(r) == outcome_from(j@),
{
    match (j.get_text("content"), j.get_bool("is_error"), j.get("metadata")) {
        (Some(content), Some(is_error), Some(metadata)) => Some(
            ToolExecOutcome { content: content.clone(), is_error, metadata: metadata.copy() },
        ),
        _ => None,
    }
}

/// The decision of the hook on tool calls. It fails closed: whatever is wrong
/// with the script, the call is refused. A script without the hook allows it.
pub open spec fn tool_call_decision(
    o: HookOutcomeView,
    call: ToolCallView,
    complaint: Seq<char>,
) -> ToolCallDecisionView {
    match o {
        HookOutcomeView::NotDefined => ToolCallDecisionView::Allow(call),
        HookOutcomeView::Error(m) => ToolCallDecisionView::Block(m),
        HookOutcomeView::Value(t) => if says(t, "allow"@) {
            match member(t, "value"@) {
                Some(v) => match call_from(v) {
                    Some(c) => ToolCallDecisionView::Allow(c),
                    None => ToolCallDecisionView::Block(malformed(complaint)),
                },
                None => ToolCallDecisionView::Block(malformed(complaint)),
            }
        } else if says(t, "override"@) {
            match member(t, "value"@) {
                Some(v) => match outcome_from(v) {
                    Some(x) => ToolCallDecisionView::Override(x),
                    None => ToolCallDecisionView::Block(malformed(complaint)),
                },
                None => ToolCallDecisionView::Block(malformed(complaint)),
            }
        } else {
            match (says(t, "block"@), text_member(t, "reason"@)) {
                (true, Some(reason)) => ToolCallDecisionView::Block(reason),
                _ => ToolCallDecisionView::Block(malformed(complaint)),
            }
        },
    }
}

/// Decides for the hook on tool calls.
pub fn decide_tool_call(
    outcome: HookOutcome,
    call: &ToolCall,
    complaint: &str,
) -> (r: ToolCallDecision)
    ensures
        r@ == tool_call_decision(outcome@, call@, complaint@),
{
    match outcome {
        HookOutcome::NotDefined => ToolCallDecision::Allow(call.copied()),
        HookOutcome::Error(m) => ToolCallDecision::Block(m),
        HookOutcome::Value(j) => {
            if said(&j, "allow") {
                if let Some(v) = j.get("value") {
                    if let Some(c) = read_call(v) {
                        return ToolCallDecision::Allow(c);
                    }
                }
                return ToolCallDecision::Block(malformed_text(complaint));
            }
            if said(&j, "override") {
                if let Some(v) = j.get("value") {
                    if let Some(o) = read_outcome(v) {
                        return ToolCallDecision::Override(o);
                    }
                }
                return ToolCallDecision::Block(malformed_text(complaint));
            }
            if said(&j, "block") {
                if let Some(reason) = j.get_text("reason") {
                    return ToolCallDecision::Block(reason.clone());
                }
            }
            ToolCallDecision::Block(malformed_text(complaint))
        },
    }
}

/// The decision of a hook on the display. It fails open: whatever is wrong, the
/// built-in display is used.
pub open spec fn render_decision(o: HookOutcomeView) -> RenderView {
    match o {
        HookOutcomeView::Value(t) => if says(t, "hide"@) {
            RenderView::Hide
        } else if says(t, "text"@) {
            match (text_member(t, "value"@), text_if_any(member(t, "style"@))) {
                (Some(value), Some(style)) => RenderView::Text { value, style },
                _ => RenderView::Default,
            }
        } else {
            RenderView::Default
        },
        _ => RenderView::Default,
    }
}

/// Decides for a hook on the display.
pub fn decide_render(outcome: HookOutcome) -> (r: RenderDecision)
    ensures
        r@ == render_decision(outcome@),
{
    match outcome {
        HookOutcome::Value(j) => {
            if said(&j, "hide") {
                return RenderDecision::Hide;
            }
            if said(&j, "text") {
                if let Some(value) = j.get_text("value") {
                    match j.get("style") {
                        None => {
                            return RenderDecision::Text { value: value.clone(), style: None };
                        },
                        Some(Json::Null) => {
                            return RenderDecision::Text { value: value.clone(), style: None };
                        },
                        Some(Json::Str(s)) => {
                            return RenderDecision::Text {
                                value: value.clone(),
                                style: Some(s.clone()),
                            };
                        },
                        _ => {},
                    }
                }
            }
            RenderDecision::Default
        },
        _ => RenderDecision::Default,
    }
}

/// A hook that is not defined changes nothing, whichever hook it is.
pub proof fn law_undefined_hook_changes_nothing(
    text: Seq<char>,
    messages: Seq<MessageView>,
    call: ToolCallView,
    mode: FailMode,
    complaint: Seq<char>,
)
    ensures
        text_decision(HookOutcomeView::NotDefined, text, mode, complaint) == DecisionView::Allow(
            text,
        ),
        gate_decision(HookOutcomeView::NotDefined, mode, complaint) is None,
        messages_decision(HookOutcomeView::NotDefined, messages, mode, complaint)
            == DecisionView::Allow(messages),
        tool_call_decision(HookOutcomeView::NotDefined, call, complaint)
            == ToolCallDecisionView::Allow(call),
        render_decision(HookOutcomeView::NotDefined) == RenderView::Default,
{
}

/// A broken script refuses every tool call and changes nothing else.
pub proof fn law_broken_script_fails_closed_on_calls_only(
    message: Seq<char>,
    text: Seq<char>,
    messages: Seq<MessageView>,
    call: ToolCallView,
    complaint: Seq<char>,
)
    ensures
        tool_call_decision(HookOutcomeView::Error(message), call, complaint)
            == ToolCallDecisionView::Block(message),
        text_decision(HookOutcomeView::Error(message), text, FailMode::Open, complaint)
            == DecisionView::Allow(text),
        gate_decision(HookOutcomeView::Error(message), FailMode::Open, complaint) is None,
        messages_decision(HookOutcomeView::Error(message), messages, FailMode::Open, complaint)
            == DecisionView::Allow(messages),
        render_decision(HookOutcomeView::Error(message)) == RenderView::Default,
{
}

// ---------------------------------------------------------------------------
// What an engine is to do
// ---------------------------------------------------------------------------

/// The name under which errors of the functions for hooks are told.
pub const AGENT_MODULE_NAME: &'static str = "agent";

/// Functions for hooks, loaded before any of them. A hook that defines one of
/// them anew takes its place.
pub const AGENT_MODULE_SOURCE: &'static str = "# Every message's content, in one list of blocks.\ndef agent_content_blocks(messages): flat_map(messages, fn(m): m[\"content\"];);\n# The tool calls so far.\ndef agent_tool_calls(messages): compact_map(agent_content_blocks(messages), fn(b): b[\"tool_use\"];);\n# The tool results so far.\ndef agent_tool_results(messages): compact_map(agent_content_blocks(messages), fn(b): b[\"tool_result\"];);\n# What the assistant wrote, in order.\ndef agent_assistant_texts(messages): compact_map(agent_content_blocks(filter(messages, fn(m): m[\"role\"] == \"assistant\";)), fn(b): b[\"text\"];);\n# The names of the tools that were called, each once.\ndef agent_tool_names(messages): unique_by(map(agent_tool_calls(messages), fn(c): c[\"name\"];), identity);\n# How many tool results are errors.\ndef agent_error_count(messages): len(filter(agent_tool_results(messages), fn(r): r[\"is_error\"];));\n# How many of the last results are errors, without one that is not between them.\ndef agent_consecutive_errors(results): fold(results, 0, fn(acc, r): if (r[\"is_error\"]): acc + 1 else: 0;);\n# The last n items of a list.\ndef agent_last_n(items, n): if (len(items) <= n): items else: slice(items, len(items) - n, len(items));\n";

/// The name under which a hook finds its argument.
pub const ARGUMENT_NAME: &'static str = "__hook_arg";

/// The steps that load modules, in this order, behind the functions for hooks;
/// they are looked for in `search_dir`.
pub open spec fn loading(modules: Seq<Seq<char>>, search_dir: Seq<char>) -> Seq<StepView> {
    seq![StepView::SearchDir(search_dir), StepView::Eval(AGENT_MODULE_SOURCE@)] + Seq::new(
        modules.len(),
        |i: int| StepView::Module(modules[i]),
    )
}

/// The steps of a fresh engine that load the hooks of these modules.
pub fn load_steps(modules: &Vec<String>, search_dir: &str) -> (r: Vec<ScriptStep>)
    ensures
        views(r@) == loading(views(modules@), search_dir@),
{
    let mut r: Vec<ScriptStep> = Vec::new();
    r.push(ScriptStep::SearchDir(search_dir.to_owned()));
    r.push(ScriptStep::Eval(AGENT_MODULE_SOURCE.to_owned()));
    let ghost all = views(modules@);
    assert(views(r@) =~= loading(all.take(0), search_dir@));
    for i in 0..modules.len()
        invariant
            all == views(modules@),
            views(r@) == loading(all.take(i as int), search_dir@),
    {
        r.push(ScriptStep::Module(modules[i].clone()));
        assert(views(r@) =~= loading(all.take(i + 1), search_dir@));
    }
    assert(all.take(all.len() as int) == all);
    r
}

/// The name of what a step of loading loads: a module, or the functions for
/// hooks.
pub open spec fn loaded_name(step: StepView) -> Seq<char> {
    match step {
        StepView::Module(name) => name,
        _ => AGENT_MODULE_NAME@,
    }
}

/// The error of loading hooks where this step fails.
pub fn load_failure(step: &ScriptStep, reason: String) -> (r: HookLoadError)
    ensures
        r matches HookLoadError::Mq(name, why) && name@ == loaded_name(step@) && why@ == reason@,
{
    match step {
        ScriptStep::Module(name) => HookLoadError::Mq(name.clone(), reason),
        _ => HookLoadError::Mq(AGENT_MODULE_NAME.to_owned(), reason),
    }
}

/// The steps that call a hook with an argument.
pub open spec fn calling(fn_name: Seq<char>, arg: JsonTree) -> Seq<StepView> {
    evaluating(ARGUMENT_NAME@, arg, fn_name + "("@ + ARGUMENT_NAME@ + ")"@)
}

/// The steps that call the hook `fn_name` with `arg`.
pub fn call_steps(fn_name: &str, arg: &Json) -> (r: Vec<ScriptStep>)
    ensures
        views(r@) == calling(fn_name@, arg@),
{
    let mut code = fn_name.to_owned();
    code.append("(");
    code.append(ARGUMENT_NAME);
    code.append(")");
    eval_steps(ARGUMENT_NAME, arg, code.as_str())
}

/// What the evaluation of a call means for the hook that was called.
pub fn outcome(result: Evaluation, fn_name: &str) -> (r: HookOutcome)
    ensures
        r@ == outcome_of(json_of(result), fn_name@),
{
    classify(as_json(result), fn_name)
}

/// An outcome as JSON.
pub open spec fn outcome_tree(o: OutcomeView) -> JsonTree {
    JsonTree::Object(
        seq![
            ("content"@, JsonTree::Str(o.content)),
            ("is_error"@, JsonTree::Bool(o.is_error)),
            ("metadata"@, o.metadata),
        ],
    )
}

/// An outcome as JSON.
pub fn outcome_json(o: &ToolExecOutcome) -> (r: Json)
    ensures
        r@ == outcome_tree(o@),
{
    let mut m: Vec<(String, Json)> = Vec::new();
    m.push(entry("content", Json::Str(o.content.clone())));
    m.push(entry("is_error", Json::Bool(o.is_error)));
    m.push(entry("metadata", o.metadata.copy()));
    let r = Json::Object(m);
    assert(r@->Object_0 =~= outcome_tree(o@)->Object_0);
    r
}

/// What the hook on results is shown, as JSON.
pub open spec fn info_tree(info: ToolResultInfo) -> JsonTree {
    JsonTree::Object(
        seq![
            ("tool_name"@, JsonTree::Str(info.tool_name@)),
            ("content"@, JsonTree::Str(info.content@)),
            ("is_error"@, JsonTree::Bool(info.is_error)),
        ],
    )
}

/// What the hook on results is shown, as JSON.
pub fn info_json(info: &ToolResultInfo) -> (r: Json)
    ensures
        r@ == info_tree(*info),
{
    let mut m: Vec<(String, Json)> = Vec::new();
    m.push(entry("tool_name", Json::Str(info.tool_name.clone())));
    m.push(entry("content", Json::Str(info.content.clone())));
    m.push(entry("is_error", Json::Bool(info.is_error)));
    let r = Json::Object(m);
    assert(r@->Object_0 =~= info_tree(*info)->Object_0);
    r
}

/// What the hook on the display of results is shown.
pub open spec fn render_tree(c: ToolCallView, o: OutcomeView) -> JsonTree {
    JsonTree::Object(seq![("call"@, call_tree(c)), ("outcome"@, outcome_tree(o))])
}

/// What the hook on the display of results is shown.
pub fn render_json(c: &ToolCall, o: &ToolExecOutcome) -> (r: Json)
    ensures
        r@ == render_tree(c@, o@),
{
    let mut m: Vec<(String, Json)> = Vec::new();
    m.push(entry("call", call_json(c)));
    m.push(entry("outcome", outcome_json(o)));
    let r = Json::Object(m);
    assert(r@->Object_0 =~= render_tree(c@, o@)->Object_0);
    r
}

/// Consumed tokens as JSON.
pub open spec fn usage_tree(u: Usage) -> JsonTree {
    JsonTree::Object(
        seq![
            ("input_tokens"@, number_tree(u.input_tokens as u64)),
            ("output_tokens"@, number_tree(u.output_tokens as u64)),
        ],
    )
}

fn usage_json(u: &Usage) -> (r: Json)
    ensures
        r@ == usage_tree(*u),
{
    let mut m: Vec<(String, Json)> = Vec::new();
    m.push(entry("input_tokens", Json::number(u.input_tokens as u64)));
    m.push(entry("output_tokens", Json::number(u.output_tokens as u64)));
    let r = Json::Object(m);
    assert(r@->Object_0 =~= usage_tree(*u)->Object_0);
    r
}

/// What the hook on the budget is shown.
pub open spec fn budget_tree(info: BudgetInfo) -> JsonTree {
    JsonTree::Object(
        seq![
            ("turn"@, usage_tree(info.turn)),
            ("session"@, usage_tree(info.session)),
            ("turn_count"@, number_tree(info.turn_count as u64)),
        ],
    )
}

/// What the hook on the budget is shown.
pub fn budget_json(info: &BudgetInfo) -> (r: Json)
    ensures
        r@ == budget_tree(*info),
{
    let mut m: Vec<(String, Json)> = Vec::new();
    m.push(entry("turn", usage_json(&info.turn)));
    m.push(entry("session", usage_json(&info.session)));
    m.push(entry("turn_count", Json::number(info.turn_count as u64)));
    let r = Json::Object(m);
    assert(r@->Object_0 =~= budget_tree(*info)->Object_0);
    r
}

/// A hook that gives the messages back as it was shown them changes nothing.
pub proof fn law_messages_given_back_are_kept(
    answer: JsonTree,
    messages: Seq<MessageView>,
    mode: FailMode,
    complaint: Seq<char>,
)
    requires
        says(answer, "allow"@),
        member(answer, "value"@) == Some(JsonTree::Array(message_trees(messages))),
    ensures
        messages_decision(HookOutcomeView::Value(answer), messages, mode, complaint)
            == DecisionView::Allow(messages),
{
    law_messages_survive_json(messages);
}

/// A hook that gives the call back as it was shown it lets it run unchanged.
pub proof fn law_call_given_back_runs_unchanged(
    answer: JsonTree,
    call: ToolCallView,
    complaint: Seq<char>,
)
    requires
        says(answer, "allow"@),
        member(answer, "value"@) == Some(call_tree(call)),
    ensures
        tool_call_decision(HookOutcomeView::Value(answer), call, complaint)
            == ToolCallDecisionView::Allow(call),
{
    law_call_survives_json(call);
}

// ---------------------------------------------------------------------------
// The hooks: what each is asked, and what its answer decides
// ---------------------------------------------------------------------------

/// The steps that ask the hook on the system prompt.
pub fn ask_before_agent_start(system_prompt: &str) -> (r: Vec<ScriptStep>)
    ensures
        views(r@) == calling("before_agent_start"@, JsonTree::Str(system_prompt@)),
{
    call_steps("before_agent_start", &Json::Str(system_prompt.to_owned()))
}

/// Decides by what the hook on the system prompt gave; it fails open.
pub fn before_agent_start(result: Evaluation, system_prompt: &str) -> (r: HookDecision<String>)
    ensures
        r@ == text_decision(
            outcome_of(json_of(result), "before_agent_start"@),
            system_prompt@,
            FailMode::Open,
            Seq::<char>::empty(),
        ),
{
    decide_text(outcome(result, "before_agent_start"), system_prompt.to_owned(), FailMode::Open, "")
}

/// The steps that ask the hook on what is sent.
pub fn ask_on_context(messages: &Vec<Message>) -> (r: Vec<ScriptStep>)
    ensures
        views(r@) == calling("on_context"@, JsonTree::Array(message_trees(views(messages@)))),
{
    call_steps("on_context", &messages_json(messages))
}

/// Decides by what the hook on what is sent gave; it fails open.
pub fn on_context(result: Evaluation, messages: Vec<Message>) -> (r: HookDecision<Vec<Message>>)
    ensures
        answer_view(r) == messages_decision(
            outcome_of(json_of(result), "on_context"@),
            views(messages@),
            FailMode::Open,
            Seq::<char>::empty(),
        ),
{
    decide_messages(outcome(result, "on_context"), messages, FailMode::Open, "")
}

/// The steps that ask the hook on tool calls.
pub fn ask_on_tool_call(call: &ToolCall) -> (r: Vec<ScriptStep>)
    ensures
        views(r@) == calling("on_tool_call"@, call_tree(call@)),
{
    call_steps("on_tool_call", &call_json(call))
}

/// Decides by what the hook on tool calls gave; it fails closed.
pub fn on_tool_call(result: Evaluation, call: &ToolCall, complaint: &str) -> (r: ToolCallDecision)
    ensures
        r@ == tool_call_decision(outcome_of(json_of(result), "on_tool_call"@), call@, complaint@),
{
    decide_tool_call(outcome(result, "on_tool_call"), call, complaint)
}

/// The steps that ask the hook on results.
pub fn ask_on_tool_result(info: &ToolResultInfo) -> (r: Vec<ScriptStep>)
    ensures
        views(r@) == calling("on_tool_result"@, info_tree(*info)),
{
    call_steps("on_tool_result", &info_json(info))
}

/// Decides by what the hook on results gave; it fails open.
pub fn on_tool_result(result: Evaluation, info: &ToolResultInfo) -> (r: HookDecision<String>)
    ensures
        r@ == text_decision(
            outcome_of(json_of(result), "on_tool_result"@),
            info.content@,
            FailMode::Open,
            Seq::<char>::empty(),
        ),
{
    decide_text(outcome(result, "on_tool_result"), info.content.clone(), FailMode::Open, "")
}

/// The steps that ask the hook on dropping messages.
pub fn ask_before_compact(messages: &Vec<Message>) -> (r: Vec<ScriptStep>)
    ensures
        views(r@) == calling("before_compact"@, JsonTree::Array(message_trees(views(messages@)))),
{
    call_steps("before_compact", &messages_json(messages))
}

/// Decides by what the hook on dropping messages gave; it fails open.
pub fn before_compact(result: Evaluation) -> (r: Veto)
    ensures
        opt_view(r) == gate_decision(
            outcome_of(json_of(result), "before_compact"@),
            FailMode::Open,
            Seq::<char>::empty(),
        ),
{
    decide_gate(outcome(result, "before_compact"), FailMode::Open, "")
}

/// The steps that ask the hook on the budget.
pub fn ask_on_budget(info: &BudgetInfo) -> (r: Vec<ScriptStep>)
    ensures
        views(r@) == calling("on_budget"@, budget_tree(*info)),
{
    call_steps("on_budget", &budget_json(info))
}

/// Decides by what the hook on the budget gave; it fails open.
pub fn on_budget(result: Evaluation) -> (r: Veto)
    ensures
        opt_view(r) == gate_decision(
            outcome_of(json_of(result), "on_budget"@),
            FailMode::Open,
            Seq::<char>::empty(),
        ),
{
    decide_gate(outcome(result, "on_budget"), FailMode::Open, "")
}

/// The steps that ask the hook on the display of a call.
pub fn ask_render_tool_call(call: &ToolCall) -> (r: Vec<ScriptStep>)
    ensures
        views(r@) == calling("render_tool_call"@, call_tree(call@)),
{
    call_steps("render_tool_call", &call_json(call))
}

/// Decides by what the hook on the display of a call gave.
pub fn render_tool_call(result: Evaluation) -> (r: RenderDecision)
    ensures
        r@ == render_decision(outcome_of(json_of(result), "render_tool_call"@)),
{
    decide_render(outcome(result, "render_tool_call"))
}

/// The steps that ask the hook on the display of a result.
pub fn ask_render_tool_result(call: &ToolCall, result: &ToolExecOutcome) -> (r: Vec<ScriptStep>)
    ensures
        views(r@) == calling("render_tool_result"@, render_tree(call@, result@)),
{
    call_steps("render_tool_result", &render_json(call, result))
}

/// Decides by what the hook on the display of a result gave.
pub fn render_tool_result(result: Evaluation) -> (r: RenderDecision)
    ensures
        r@ == render_decision(outcome_of(json_of(result), "render_tool_result"@)),
{
    decide_render(outcome(result, "render_tool_result"))
}

} // verus!
