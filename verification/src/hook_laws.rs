//! What the answers of hooks decide.
use vstd::prelude::*;

use crate::hook_engine::{
    budget_tree, calling, gate_decision, info_tree, last_dot, loading, messages_decision,
    module_name, module_names, outcome_from, outcome_of, outcome_tree, render_decision, render_tree,
    text_decision, tool_call_decision, usage_tree, AGENT_MODULE_SOURCE, FailMode, HookOutcomeView,
};
use crate::hooks::{DecisionView, RenderView, ToolCallDecisionView};
use crate::json::{bool_member, lemma_member, member, text_member, JsonTree};
use crate::message::{MessageView, OutcomeView, ToolCallView};
use crate::message_json::{call_from, law_call_survives_json, messages_from};
use crate::script::StepView;

verus! {

/// Whether an answer lets pass.
pub open spec fn allows(t: JsonTree) -> bool {
    member(t, "action"@) == Some(JsonTree::Str("allow"@))
}

/// Whether an answer stops, with a reason.
pub open spec fn blocks(t: JsonTree, reason: Seq<char>) -> bool {
    member(t, "action"@) == Some(JsonTree::Str("block"@)) && member(t, "reason"@) == Some(
        JsonTree::Str(reason),
    )
}

proof fn lemma_actions_differ()
    ensures
        "allow"@ != "block"@,
        "allow"@ != "override"@,
        "block"@ != "override"@,
        "hide"@ != "text"@,
{
    reveal_strlit("allow");
    reveal_strlit("block");
    reveal_strlit("override");
    reveal_strlit("hide");
    reveal_strlit("text");
    assert("allow"@[0] == 'a');
    assert("block"@[0] == 'b');
    assert("override"@[0] == 'o');
    assert("hide"@[0] == 'h');
    assert("text"@[0] == 't');
}

/// An evaluation that fails because the hook is not there is told apart from all
/// other failures by what it says.
pub proof fn law_missing_hook_is_told_apart(
    t: JsonTree,
    m: Seq<char>,
    name: Seq<char>,
)
    ensures
        outcome_of(Ok(t), name) == HookOutcomeView::Value(t),
        m == "\""@ + name + "\" is not defined"@ ==> outcome_of(Err(m), name)
            == HookOutcomeView::NotDefined,
        m != "\""@ + name + "\" is not defined"@ ==> outcome_of(Err(m), name)
            == HookOutcomeView::Error(m),
{
}

/// A hook on a text that allows puts its own text in place; one that blocks
/// stops with its reason; any other answer is a failure.
pub proof fn law_text_hook_decides(
    t: JsonTree,
    value: Seq<char>,
    reason: Seq<char>,
    default: Seq<char>,
    mode: FailMode,
    complaint: Seq<char>,
)
    ensures
        allows(t) && member(t, "value"@) == Some(JsonTree::Str(value)) ==> text_decision(
            HookOutcomeView::Value(t),
            default,
            mode,
            complaint,
        ) == DecisionView::Allow(value),
        blocks(t, reason) ==> text_decision(HookOutcomeView::Value(t), default, mode, complaint)
            == DecisionView::<Seq<char>>::Block(reason),
        !(allows(t) && text_member(t, "value"@) is Some) && (forall|r: Seq<char>| !blocks(t, r))
            ==> text_decision(HookOutcomeView::Value(t), default, mode, complaint) == match mode {
            FailMode::Open => DecisionView::Allow(default),
            FailMode::Closed => DecisionView::Block(
                "malformed hook return value: "@ + complaint,
            ),
        },
{
    lemma_actions_differ();
    if text_member(t, "action"@) == Some("block"@) {
        if let Some(r) = text_member(t, "reason"@) {
            assert(blocks(t, r));
        }
    }
}

/// A hook that fails stops what it was asked about, with the failure, if it
/// fails closed; else it is as if it were not there.
pub proof fn law_failed_hook_decides(
    m: Seq<char>,
    text: Seq<char>,
    messages: Seq<MessageView>,
    call: ToolCallView,
    complaint: Seq<char>,
)
    ensures
        text_decision(HookOutcomeView::Error(m), text, FailMode::Open, complaint)
            == DecisionView::Allow(text),
        text_decision(HookOutcomeView::Error(m), text, FailMode::Closed, complaint)
            == DecisionView::<Seq<char>>::Block(m),
        messages_decision(HookOutcomeView::Error(m), messages, FailMode::Open, complaint)
            == DecisionView::Allow(messages),
        messages_decision(HookOutcomeView::Error(m), messages, FailMode::Closed, complaint)
            == DecisionView::<Seq<MessageView>>::Block(m),
        gate_decision(HookOutcomeView::Error(m), FailMode::Open, complaint) is None,
        gate_decision(HookOutcomeView::Error(m), FailMode::Closed, complaint) == Some(m),
        tool_call_decision(HookOutcomeView::Error(m), call, complaint)
            == ToolCallDecisionView::Block(m),
        render_decision(HookOutcomeView::Error(m)) == RenderView::Default,
{
}

/// A hook that only lets pass or stops: it stops exactly with the reason that it
/// gives, or, failing closed, on an answer that says neither.
pub proof fn law_gate_hook_decides(
    t: JsonTree,
    reason: Seq<char>,
    mode: FailMode,
    complaint: Seq<char>,
)
    ensures
        allows(t) ==> gate_decision(HookOutcomeView::Value(t), mode, complaint) is None,
        blocks(t, reason) ==> gate_decision(HookOutcomeView::Value(t), mode, complaint) == Some(
            reason,
        ),
        !allows(t) && (forall|r: Seq<char>| !blocks(t, r)) ==> gate_decision(
            HookOutcomeView::Value(t),
            mode,
            complaint,
        ) == match mode {
            FailMode::Open => None,
            FailMode::Closed => Some("malformed hook return value: "@ + complaint),
        },
{
    lemma_actions_differ();
    if text_member(t, "action"@) == Some("block"@) {
        if let Some(r) = text_member(t, "reason"@) {
            assert(blocks(t, r));
        }
    }
}

/// A hook on messages that allows puts its own messages in place; one that blocks
/// stops with its reason; any other answer is a failure.
pub proof fn law_messages_hook_decides(
    t: JsonTree,
    list: Seq<JsonTree>,
    value: Seq<MessageView>,
    reason: Seq<char>,
    default: Seq<MessageView>,
    mode: FailMode,
    complaint: Seq<char>,
)
    ensures
        allows(t) && member(t, "value"@) == Some(JsonTree::Array(list)) && messages_from(list, 0)
            == Some(value) ==> messages_decision(
            HookOutcomeView::Value(t),
            default,
            mode,
            complaint,
        ) == DecisionView::Allow(value),
        blocks(t, reason) ==> messages_decision(
            HookOutcomeView::Value(t),
            default,
            mode,
            complaint,
        ) == DecisionView::<Seq<MessageView>>::Block(reason),
        !allows(t) && (forall|r: Seq<char>| !blocks(t, r)) ==> messages_decision(
            HookOutcomeView::Value(t),
            default,
            mode,
            complaint,
        ) == match mode {
            FailMode::Open => DecisionView::Allow(default),
            FailMode::Closed => DecisionView::Block(
                "malformed hook return value: "@ + complaint,
            ),
        },
        allows(t) && (member(t, "value"@) matches Some(JsonTree::Array(l)) ==> messages_from(l, 0)
            is None) ==> messages_decision(HookOutcomeView::Value(t), default, mode, complaint)
            == match mode {
            FailMode::Open => DecisionView::Allow(default),
            FailMode::Closed => DecisionView::Block(
                "malformed hook return value: "@ + complaint,
            ),
        },
{
    lemma_actions_differ();
    if text_member(t, "action"@) == Some("block"@) {
        if let Some(r) = text_member(t, "reason"@) {
            assert(blocks(t, r));
        }
    }
}

/// A hook on a call that allows puts its own call in place, one that overrides
/// answers in place of the tool, and one that blocks stops with its reason. Any
/// other answer stops the call.
pub proof fn law_call_hook_decides(
    t: JsonTree,
    v: JsonTree,
    call: ToolCallView,
    complaint: Seq<char>,
    reason: Seq<char>,
)
    requires
        member(t, "value"@) == Some(v),
    ensures
        ({
            let d = tool_call_decision(HookOutcomeView::Value(t), call, complaint);
            let bad = ToolCallDecisionView::Block("malformed hook return value: "@ + complaint);
            &&& allows(t) ==> d == match call_from(v) {
                Some(c) => ToolCallDecisionView::Allow(c),
                None => bad,
            }
            &&& member(t, "action"@) == Some(JsonTree::Str("override"@)) ==> d
                == match outcome_from(v) {
                Some(o) => ToolCallDecisionView::Override(o),
                None => bad,
            }
            &&& blocks(t, reason) ==> d == ToolCallDecisionView::Block(reason)
            &&& !allows(t) && member(t, "action"@) != Some(JsonTree::Str("override"@)) && (forall|
                r: Seq<char>,
            | !blocks(t, r)) ==> d == bad
        }),
{
    lemma_actions_differ();
    if text_member(t, "action"@) == Some("block"@) {
        if let Some(r) = text_member(t, "reason"@) {
            assert(blocks(t, r));
        }
    }
    if text_member(t, "action"@) == Some("override"@) {
        assert(member(t, "action"@) == Some(JsonTree::Str("override"@)));
    }
    if text_member(t, "action"@) == Some("allow"@) {
        assert(member(t, "action"@) == Some(JsonTree::Str("allow"@)));
    }
}

/// Without a value nothing is let pass, and nothing answers in place of a tool.
pub proof fn law_call_hook_needs_a_value(t: JsonTree, call: ToolCallView, complaint: Seq<char>)
    requires
        member(t, "value"@) is None,
    ensures
        tool_call_decision(HookOutcomeView::Value(t), call, complaint) is Block,
{
}

/// A hook on the display hides, or shows its own text in the style that it
/// names; any other answer leaves the display alone.
pub proof fn law_display_hook_decides(t: JsonTree, value: Seq<char>, style: Seq<char>)
    ensures
        member(t, "action"@) == Some(JsonTree::Str("hide"@)) ==> render_decision(
            HookOutcomeView::Value(t),
        ) == RenderView::Hide,
        member(t, "action"@) == Some(JsonTree::Str("text"@)) && member(t, "value"@) == Some(
            JsonTree::Str(value),
        ) && member(t, "style"@) == Some(JsonTree::Str(style)) ==> render_decision(
            HookOutcomeView::Value(t),
        ) == (RenderView::Text { value, style: Some(style) }),
        member(t, "action"@) == Some(JsonTree::Str("text"@)) && member(t, "value"@) == Some(
            JsonTree::Str(value),
        ) && member(t, "style"@) is None ==> render_decision(HookOutcomeView::Value(t)) == (
        RenderView::Text { value, style: None }),
        member(t, "action"@) == Some(JsonTree::Str("text"@)) && text_member(t, "value"@) is None
            ==> render_decision(HookOutcomeView::Value(t)) == RenderView::Default,
        text_member(t, "action"@) != Some("hide"@) && text_member(t, "action"@) != Some("text"@)
            ==> render_decision(HookOutcomeView::Value(t)) == RenderView::Default,
        render_decision(HookOutcomeView::NotDefined) == RenderView::Default,
{
    lemma_actions_differ();
}

/// An outcome that a hook is shown and gives back is the same outcome.
pub proof fn law_outcome_survives_json(o: OutcomeView)
    ensures
        outcome_from(outcome_tree(o)) == Some(o),
{
    let m = outcome_tree(o)->Object_0;
    reveal_strlit("content");
    reveal_strlit("is_error");
    reveal_strlit("metadata");
    assert("content"@[0] == 'c' && "is_error"@[0] == 'i' && "metadata"@[0] == 'm');
    lemma_member(m, 0);
    lemma_member(m, 1);
    lemma_member(m, 2);
}

/// The hook on results finds the tool, the text and whether it is an error under
/// their names.
pub proof fn law_result_hook_is_shown_the_result(info: crate::hooks::ToolResultInfo)
    ensures
        text_member(info_tree(info), "tool_name"@) == Some(info.tool_name@),
        text_member(info_tree(info), "content"@) == Some(info.content@),
        bool_member(info_tree(info), "is_error"@) == Some(info.is_error),
{
    let m = info_tree(info)->Object_0;
    reveal_strlit("tool_name");
    reveal_strlit("content");
    reveal_strlit("is_error");
    assert("content"@[0] == 'c' && "is_error"@[0] == 'i' && "tool_name"@[0] == 't');
    lemma_member(m, 0);
    lemma_member(m, 1);
    lemma_member(m, 2);
}

/// The hook on the display finds the call and its outcome.
pub proof fn law_display_hook_is_shown_call_and_outcome(c: ToolCallView, o: OutcomeView)
    ensures
        member(render_tree(c, o), "call"@) matches Some(t) && call_from(t) == Some(c),
        member(render_tree(c, o), "outcome"@) matches Some(t) && outcome_from(t) == Some(o),
{
    let m = render_tree(c, o)->Object_0;
    reveal_strlit("call");
    reveal_strlit("outcome");
    assert("call"@[0] == 'c' && "outcome"@[0] == 'o');
    lemma_member(m, 0);
    lemma_member(m, 1);
    law_call_survives_json(c);
    law_outcome_survives_json(o);
}

/// The hook on the budget finds the tokens of the turn and of the session, and
/// the number of turns.
pub proof fn law_budget_hook_is_shown_the_use(info: crate::hooks::BudgetInfo)
    ensures
        member(budget_tree(info), "turn"@) == Some(usage_tree(info.turn)),
        member(budget_tree(info), "session"@) == Some(usage_tree(info.session)),
        member(budget_tree(info), "turn_count"@) == Some(
            crate::json::number_tree(info.turn_count as u64),
        ),
        member(usage_tree(info.turn), "input_tokens"@) == Some(
            crate::json::number_tree(info.turn.input_tokens as u64),
        ),
        member(usage_tree(info.turn), "output_tokens"@) == Some(
            crate::json::number_tree(info.turn.output_tokens as u64),
        ),
{
    reveal_strlit("turn");
    reveal_strlit("session");
    reveal_strlit("turn_count");
    reveal_strlit("input_tokens");
    reveal_strlit("output_tokens");
    assert("turn"@[0] == 't' && "session"@[0] == 's' && "turn_count"@[0] == 't');
    assert("turn"@.len() != "turn_count"@.len());
    assert("input_tokens"@[0] == 'i' && "output_tokens"@[0] == 'o');
    let m = budget_tree(info)->Object_0;
    lemma_member(m, 0);
    lemma_member(m, 1);
    lemma_member(m, 2);
    let u = usage_tree(info.turn)->Object_0;
    lemma_member(u, 0);
    lemma_member(u, 1);
}

/// To call a hook is to put its argument under a name and to evaluate the call
/// with that name.
pub proof fn law_hook_is_called_with_its_argument(name: Seq<char>, arg: JsonTree)
    ensures
        calling(name, arg).len() == 2,
        calling(name, arg)[0] matches StepView::Define { name: n, value } && value == arg
            && calling(name, arg)[1] == StepView::Eval(name + "("@ + n + ")"@),
{
}

/// The modules are loaded in their order, after the directory is known and the
/// functions for hooks are there.
pub proof fn law_modules_are_loaded_in_order(modules: Seq<Seq<char>>, dir: Seq<char>)
    ensures
        loading(modules, dir).len() == modules.len() + 2,
        loading(modules, dir)[0] == StepView::SearchDir(dir),
        loading(modules, dir)[1] == StepView::Eval(AGENT_MODULE_SOURCE@),
        forall|i: int|
            0 <= i < modules.len() ==> #[trigger] loading(modules, dir)[i + 2]
                == StepView::Module(modules[i]),
{
}

proof fn lemma_last_dot(s: Seq<char>, i: int)
    requires
        0 <= i <= s.len(),
    ensures
        -1 <= last_dot(s, i) < i || (i == 0 && last_dot(s, i) == -1),
        last_dot(s, i) >= 0 ==> s[last_dot(s, i)] == '.',
        forall|j: int| last_dot(s, i) < j < i && 0 <= j ==> s[j] != '.',
    decreases i,
{
    if i > 0 && s[i - 1] != '.' {
        lemma_last_dot(s, i - 1);
    }
}

/// A module is a file with a name before `.mq`; that name is the module's.
pub proof fn law_modules_are_the_mq_files(name: Seq<char>, file: Seq<char>)
    ensures
        name.len() > 0 ==> module_name(name + ".mq"@) == Some(name),
        module_name(file) matches Some(n) ==> n.len() > 0 && file == n + ".mq"@,
{
    reveal_strlit(".mq");
    reveal_strlit("mq");
    let whole = name + ".mq"@;
    lemma_last_dot(whole, whole.len() as int);
    if name.len() > 0 {
        let k = last_dot(whole, whole.len() as int);
        assert(whole[name.len() as int] == '.');
        assert(whole[name.len() as int + 1] == 'm');
        assert(whole[name.len() as int + 2] == 'q');
        assert(k == name.len());
        assert(whole.skip(k + 1) =~= "mq"@);
        assert(whole.take(k) =~= name);
    }
    lemma_last_dot(file, file.len() as int);
    if let Some(n) = module_name(file) {
        let k = last_dot(file, file.len() as int);
        let tail = file.skip(k + 1);
        assert(tail[0] == 'm' && tail[1] == 'q' && tail.len() == 2);
        assert(file =~= n + ".mq"@);
    }
}

/// Of files, the modules are taken, each in its place among the others.
pub proof fn law_modules_of_files(a: Seq<Seq<char>>, b: Seq<Seq<char>>, file: Seq<char>)
    ensures
        module_names(a + b) == module_names(a) + module_names(b),
        module_names(seq![file]) == match module_name(file) {
            Some(name) => seq![name],
            None => Seq::empty(),
        },
    decreases b.len(),
{
    assert(seq![file].drop_last() =~= Seq::empty());
    reveal_with_fuel(module_names, 2);
    assert(module_names(seq![file]) =~= match module_name(file) {
        Some(name) => seq![name],
        None => Seq::empty(),
    });
    if b.len() == 0 {
        assert(a + b =~= a);
        assert(module_names(a) + module_names(b) =~= module_names(a));
    } else {
        law_modules_of_files(a, b.drop_last(), file);
        assert((a + b).drop_last() =~= a + b.drop_last());
        assert(module_names(a + b) =~= module_names(a) + module_names(b));
    }
}

} // verus!
