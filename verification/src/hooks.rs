//! Decisions of hooks.
use vstd::prelude::*;

use crate::model::opt_view;
use crate::message::{OutcomeView, ToolCall, ToolCallView, ToolExecOutcome, Usage};

verus! {

/// A hook's answer: go on with this value, or stop for this reason.
pub enum HookDecision<T> {
    Allow(T),
    Block(String),
}

#[verifier::ext_equal]
pub enum DecisionView<T> {
    Allow(T),
    Block(Seq<char>),
}

impl<T: View> View for HookDecision<T> {
    type V = DecisionView<T::V>;

    open spec fn view(&self) -> DecisionView<T::V> {
        match self {
            HookDecision::Allow(x) => DecisionView::Allow(x@),
            HookDecision::Block(reason) => DecisionView::Block(reason@),
        }
    }
}

/// A hook's answer that carries no value: `None` goes on, a reason stops.
pub type Veto = Option<String>;

/// A hook's answer to a tool call: run this call, refuse it, or take this
/// outcome in place of running it.
pub enum ToolCallDecision {
    Allow(ToolCall),
    Block(String),
    Override(ToolExecOutcome),
}

#[verifier::ext_equal]
pub enum ToolCallDecisionView {
    Allow(ToolCallView),
    Block(Seq<char>),
    Override(OutcomeView),
}

impl View for ToolCallDecision {
    type V = ToolCallDecisionView;

    open spec fn view(&self) -> ToolCallDecisionView {
        match self {
            ToolCallDecision::Allow(c) => ToolCallDecisionView::Allow(c@),
            ToolCallDecision::Block(reason) => ToolCallDecisionView::Block(reason@),
            ToolCallDecision::Override(o) => ToolCallDecisionView::Override(o@),
        }
    }
}

/// What a hook on a tool's result is shown.
pub struct ToolResultInfo {
    pub tool_name: String,
    pub content: String,
    pub is_error: bool,
}

/// What a hook on the budget is shown: the usage of this turn and of the
/// session, and how many turns there were.
#[derive(Clone, Copy, Debug)]
pub struct BudgetInfo {
    pub turn: Usage,
    pub session: Usage,
    pub turn_count: usize,
}

/// How a tool call or its result is shown: in the built-in way, as this text,
/// or not at all.
pub enum RenderDecision {
    Default,
    Text { value: String, style: Option<String> },
    Hide,
}

#[verifier::ext_equal]
pub enum RenderView {
    Default,
    Text { value: Seq<char>, style: Option<Seq<char>> },
    Hide,
}

impl View for RenderDecision {
    type V = RenderView;

    open spec fn view(&self) -> RenderView {
        match self {
            RenderDecision::Default => RenderView::Default,
            RenderDecision::Text { value, style } => RenderView::Text {
                value: value@,
                style: opt_view(*style),
            },
            RenderDecision::Hide => RenderView::Hide,
        }
    }
}

} // verus!
