//! Running one tool call under the hooks' policy.
use vstd::prelude::*;

use crate::hooks::{
    DecisionView, HookDecision, ToolCallDecision, ToolCallDecisionView, ToolResultInfo,
};
use crate::json::{Json, JsonTree};
use crate::message::{OutcomeView, ToolCall, ToolCallView, ToolExecOutcome};
use crate::model::{group_views, views, Copied};
use crate::suggest::{unknown_tool_message, unknown_tool_text};
use crate::text::same;

verus! {

broadcast use group_views;

/// What follows the hook's decision on a call.
pub enum CallNext {
    /// Run the tool at this index with this call.
    Execute { index: usize, call: ToolCall },
    /// No tool runs; show this outcome to the hook on results.
    Settle { tool_name: String, outcome: ToolExecOutcome },
    /// No tool runs and no hook is asked.
    Final(ToolExecOutcome),
}

#[verifier::ext_equal]
pub enum CallNextView {
    Execute { index: int, call: ToolCallView },
    Settle { tool_name: Seq<char>, outcome: OutcomeView },
    Final(OutcomeView),
}

impl View for CallNext {
    type V = CallNextView;

    open spec fn view(&self) -> CallNextView {
        match self {
            CallNext::Execute { index, call } => CallNextView::Execute {
                index: *index as int,
                call: call@,
            },
            CallNext::Settle { tool_name, outcome } => CallNextView::Settle {
                tool_name: tool_name@,
                outcome: outcome@,
            },
            CallNext::Final(o) => CallNextView::Final(o@),
        }
    }
}

/// The call as it is shown, and what follows.
pub struct CallPlan {
    pub shown: ToolCall,
    pub next: CallNext,
}

/// The position of the first tool called `name`.
pub open spec fn tool_at(tools: Seq<Seq<char>>, name: Seq<char>, i: int) -> Option<int>
    decreases tools.len() - i,
{
    if i < 0 || i >= tools.len() {
        None
    } else if tools[i] == name {
        Some(i)
    } else {
        tool_at(tools, name, i + 1)
    }
}

/// The outcome of a refused call or result.
pub open spec fn refused(reason: Seq<char>, metadata: JsonTree) -> OutcomeView {
    OutcomeView { content: "Blocked by policy: "@ + reason, is_error: true, metadata }
}

/// The outcome of a call of a tool that does not exist.
pub open spec fn no_such_tool(name: Seq<char>, tools: Seq<Seq<char>>) -> OutcomeView {
    OutcomeView {
        content: unknown_tool_text(name, tools),
        is_error: true,
        metadata: JsonTree::Null,
    }
}

/// The call as it is shown: as the hook changed it, if it goes ahead.
pub open spec fn shown_call(d: ToolCallDecisionView, call: ToolCallView) -> ToolCallView {
    match d {
        ToolCallDecisionView::Allow(c) => c,
        _ => call,
    }
}

/// What follows the hook's decision on a call.
pub open spec fn call_next(
    d: ToolCallDecisionView,
    call: ToolCallView,
    tools: Seq<Seq<char>>,
) -> CallNextView {
    match d {
        ToolCallDecisionView::Allow(c) => match tool_at(tools, c.name, 0) {
            Some(index) => CallNextView::Execute { index, call: c },
            None => CallNextView::Settle {
                tool_name: c.name,
                outcome: no_such_tool(c.name, tools),
            },
        },
        ToolCallDecisionView::Block(reason) => CallNextView::Final(
            refused(reason, JsonTree::Null),
        ),
        ToolCallDecisionView::Override(o) => CallNextView::Settle {
            tool_name: call.name,
            outcome: o,
        },
    }
}

fn find_tool(tools: &Vec<String>, name: &str) -> (r: Option<usize>)
    ensures
        match r {
            Some(i) => tool_at(views(tools@), name@, 0) == Some(i as int),
            None => tool_at(views(tools@), name@, 0) is None,
        },
{
    for i in 0..tools.len()
        invariant
            tool_at(views(tools@), name@, 0) == tool_at(views(tools@), name@, i as int),
    {
        if same(tools[i].as_str(), name) {
            return Some(i);
        }
    }
    None
}

/// Decides what follows the hook's decision on a call. Where there are no
/// hooks, the decision is to allow the call as it is.
pub fn plan_call(decision: ToolCallDecision, call: ToolCall, tools: &Vec<String>) -> (r: CallPlan)
    ensures
        r.shown@ == shown_call(decision@, call@),
        r.next@ == call_next(decision@, call@, views(tools@)),
{
    match decision {
        ToolCallDecision::Allow(effective) => {
            let shown = effective.copied();
            match find_tool(tools, effective.name.as_str()) {
                Some(index) => CallPlan {
                    shown,
                    next: CallNext::Execute { index, call: effective },
                },
                None => {
                    let content = unknown_tool_message(effective.name.as_str(), tools);
                    CallPlan {
                        shown,
                        next: CallNext::Settle {
                            tool_name: effective.name,
                            outcome: ToolExecOutcome {
                                content,
                                is_error: true,
                                metadata: Json::Null,
                            },
                        },
                    }
                },
            }
        },
        ToolCallDecision::Block(reason) => {
            let mut content = "Blocked by policy: ".to_owned();
            content.append(reason.as_str());
            CallPlan {
                shown: call,
                next: CallNext::Final(
                    ToolExecOutcome { content, is_error: true, metadata: Json::Null },
                ),
            }
        },
        ToolCallDecision::Override(outcome) => {
            let tool_name = call.name.clone();
            CallPlan { shown: call, next: CallNext::Settle { tool_name, outcome } }
        },
    }
}

/// What the hook on results is shown.
pub fn result_info(tool_name: &str, outcome: &ToolExecOutcome) -> (r: ToolResultInfo)
    ensures
        r.tool_name@ == tool_name@,
        r.content@ == outcome.content@,
        r.is_error == outcome.is_error,
{
    ToolResultInfo {
        tool_name: tool_name.to_owned(),
        content: outcome.content.clone(),
        is_error: outcome.is_error,
    }
}

/// The outcome after the hook's decision on a result.
pub open spec fn settled(d: DecisionView<Seq<char>>, o: OutcomeView) -> OutcomeView {
    match d {
        DecisionView::Allow(content) => OutcomeView { content, ..o },
        DecisionView::Block(reason) => refused(reason, o.metadata),
    }
}

/// Applies the hook's decision on a result.
pub fn settle(decision: HookDecision<String>, outcome: ToolExecOutcome) -> (r: ToolExecOutcome)
    ensures
        r@ == settled(decision@, outcome@),
{
    match decision {
        HookDecision::Allow(content) => ToolExecOutcome {
            content,
            is_error: outcome.is_error,
            metadata: outcome.metadata,
        },
        HookDecision::Block(reason) => {
            let mut content = "Blocked by policy: ".to_owned();
            content.append(reason.as_str());
            ToolExecOutcome { content, is_error: true, metadata: outcome.metadata }
        },
    }
}

/// A tool runs only where the hook allows the call, and then it is a tool of
/// that name.
pub proof fn law_only_allowed_calls_run(
    d: ToolCallDecisionView,
    call: ToolCallView,
    tools: Seq<Seq<char>>,
)
    ensures
        call_next(d, call, tools) is Execute ==> d is Allow && ({
            let index = call_next(d, call, tools)->Execute_index;
            0 <= index < tools.len() && tools[index] == d->Allow_0.name
        }),
{
    if let ToolCallDecisionView::Allow(c) = d {
        lemma_tool_at(tools, c.name, 0);
    }
}

/// Whatever the hook on results decides, an outcome that a hook supplied in
/// place of a call is decided upon like one that a tool gave, and a refused
/// call is an error that no hook changes.
pub proof fn law_supplied_outcomes_are_settled(
    d: ToolCallDecisionView,
    call: ToolCallView,
    tools: Seq<Seq<char>>,
)
    ensures
        d matches ToolCallDecisionView::Override(o) ==> call_next(d, call, tools)
            == (CallNextView::Settle { tool_name: call.name, outcome: o }),
        d matches ToolCallDecisionView::Block(reason) ==> (call_next(d, call, tools) matches
            CallNextView::Final(o) && o.is_error && o.content == "Blocked by policy: "@ + reason),
{
}

proof fn lemma_tool_at(tools: Seq<Seq<char>>, name: Seq<char>, i: int)
    requires
        0 <= i,
    ensures
        match tool_at(tools, name, i) {
            Some(k) => i <= k < tools.len() && tools[k] == name,
            None => true,
        },
    decreases tools.len() - i,
{
    if i < tools.len() && tools[i] != name {
        lemma_tool_at(tools, name, i + 1);
    }
}

/// What the hook on results makes of an outcome is what counts: where it allows
/// a text, that text is the content, and the error flag and the metadata are
/// those of the outcome; where it blocks, there is an error that names the
/// reason, and the metadata stay.
pub proof fn law_result_hook_has_the_last_word(d: DecisionView<Seq<char>>, o: OutcomeView)
    ensures
        d matches DecisionView::Allow(text) ==> settled(d, o).content == text && settled(
            d,
            o,
        ).is_error == o.is_error,
        d matches DecisionView::Block(reason) ==> settled(d, o).is_error && settled(d, o).content
            == "Blocked by policy: "@ + reason,
        settled(d, o).metadata == o.metadata,
        settled(DecisionView::Allow(o.content), o) == o,
{
}

/// A call that the hook allows runs as the hook gave it, and is shown so: with
/// the first tool of its name. Where there is no such tool, nothing runs, and
/// the outcome is an error.
pub proof fn law_allowed_call_runs_as_changed(
    c: ToolCallView,
    call: ToolCallView,
    tools: Seq<Seq<char>>,
)
    ensures
        shown_call(ToolCallDecisionView::Allow(c), call) == c,
        match call_next(ToolCallDecisionView::Allow(c), call, tools) {
            CallNextView::Execute { index, call: run } => run == c && 0 <= index < tools.len()
                && tools[index] == c.name && forall|k: int|
                0 <= k < index ==> #[trigger] tools[k] != c.name,
            CallNextView::Settle { tool_name, outcome } => tool_name == c.name && outcome.is_error
                && !tools.contains(c.name),
            CallNextView::Final(_) => false,
        },
{
    lemma_first_tool(tools, c.name, 0);
}

/// A call that the hook refuses or answers itself is shown as the model asked
/// for it, and no tool runs.
pub proof fn law_refused_or_answered_call_does_not_run(
    reason: Seq<char>,
    o: OutcomeView,
    call: ToolCallView,
    tools: Seq<Seq<char>>,
)
    ensures
        shown_call(ToolCallDecisionView::Block(reason), call) == call,
        shown_call(ToolCallDecisionView::Override(o), call) == call,
        call_next(ToolCallDecisionView::Block(reason), call, tools) is Final,
        call_next(ToolCallDecisionView::Override(o), call, tools) is Settle,
        call_next(ToolCallDecisionView::Override(o), call, tools)->Settle_outcome == o,
{
}

proof fn lemma_first_tool(tools: Seq<Seq<char>>, name: Seq<char>, i: int)
    requires
        0 <= i,
    ensures
        match tool_at(tools, name, i) {
            Some(k) => i <= k < tools.len() && tools[k] == name && forall|j: int|
                i <= j < k ==> #[trigger] tools[j] != name,
            None => forall|j: int| i <= j < tools.len() ==> #[trigger] tools[j] != name,
        },
    decreases tools.len() - i,
{
    if i < tools.len() && tools[i] != name {
        lemma_first_tool(tools, name, i + 1);
    }
}

} // verus!
