//! The agent loop.
//!
//! A turn is a conversation between [`AgentSession`] and its driver: the
//! session says what is to be done next (ask a hook, call the provider, run a
//! tool, sleep), the driver does it and hands the outcome back as an event.
//! Everything that is decided on the way is decided here.
use vstd::prelude::*;

use crate::compaction::{dedup, dedup_stale_reads};
use crate::hooks::{BudgetInfo, DecisionView, HookDecision, Veto};
use crate::json::{Json, JsonTree};
use crate::ledger::{
    ledger_text, plain_text_transcript, record_messages, transcript_lines, with_summary,
    DecisionLedger, LedgerView,
};
use crate::message::{
    calls_of, message_text, texts_of, tool_results_view, user_text_view, BlockView, ContentBlock,
    Message, MessageView, OutcomeView, ProviderResponse, ResponseView, Role, StopReason, ToolCall,
    ToolCallView, ToolExecOutcome, ToolResult, ToolResultContent, ToolResultContentView,
    ToolResultView, Usage,
};
use crate::model::{copy_all, copy_range, group_views, opt_view, views, Copied};
use crate::provider::{
    backoff_delay, backoff_secs, context_length_error, error_text, is_context_length_error,
    is_transient_error, transient_error, ProviderError, ProviderErrorView, MAX_TRANSIENT_RETRIES,
};
use crate::text::{join, same, trim, trimmed};

verus! {

broadcast use group_views;

/// A transcript of more messages than this is made smaller.
pub const COMPACT_THRESHOLD: usize = 60;

/// How many messages stay when a transcript is made smaller.
pub const KEEP_RECENT: usize = 40;

/// A request of more tokens than this makes the transcript smaller, where the
/// size of the context window is not known.
pub const TOKEN_COMPACT_THRESHOLD: u32 = 100_000;

/// How many messages stay when the provider refuses a request as too large.
pub const EMERGENCY_KEEP_RECENT: usize = 20;

/// The tool whose calls run concurrently with each other.
pub open spec fn concurrent_tool() -> Seq<char> {
    "agent"@
}

/// Why a turn failed.
pub enum AgentError {
    Provider(ProviderError),
    HookBlocked(String),
    /// The turn was cancelled while it ran.
    Interrupted,
}

#[verifier::ext_equal]
pub enum AgentErrorView {
    Provider(ProviderErrorView),
    HookBlocked(Seq<char>),
    Interrupted,
}

impl View for AgentError {
    type V = AgentErrorView;

    open spec fn view(&self) -> AgentErrorView {
        match self {
            AgentError::Provider(e) => AgentErrorView::Provider(e@),
            AgentError::HookBlocked(reason) => AgentErrorView::HookBlocked(reason@),
            AgentError::Interrupted => AgentErrorView::Interrupted,
        }
    }
}

/// The message that an error shows.
pub open spec fn agent_error_text(e: AgentErrorView) -> Seq<char> {
    match e {
        AgentErrorView::Provider(p) => "provider error: "@ + error_text(p),
        AgentErrorView::HookBlocked(reason) => "blocked by hook: "@ + reason,
        AgentErrorView::Interrupted => "interrupted"@,
    }
}

impl AgentError {
    /// The message that the error shows.
    pub fn message(&self) -> (r: String)
        ensures
            r@ == agent_error_text(self@),
    {
        match self {
            AgentError::Provider(e) => {
                let mut r = "provider error: ".to_owned();
                r.append(e.message().as_str());
                r
            },
            AgentError::HookBlocked(reason) => {
                let mut r = "blocked by hook: ".to_owned();
                r.append(reason.as_str());
                r
            },
            AgentError::Interrupted => "interrupted".to_owned(),
        }
    }
}

// ---------------------------------------------------------------------------
// What the session says and hears
// ---------------------------------------------------------------------------

/// Progress to be shown before the next action is taken.
pub enum Report {
    TurnStart,
    TurnEnd,
    /// A piece of an answer, before the answer is there as a whole.
    AssistantTextDelta(String),
    AssistantText(String),
    Thinking(String),
    Retry { attempt: usize, max_attempts: usize, delay_secs: u64, reason: String },
    Steering(String),
    Usage(Usage),
    /// Another provider answers from now on.
    ProviderChanged { id: String, model: String },
}

#[verifier::ext_equal]
pub enum ReportView {
    TurnStart,
    TurnEnd,
    AssistantTextDelta(Seq<char>),
    AssistantText(Seq<char>),
    Thinking(Seq<char>),
    Retry { attempt: usize, max_attempts: usize, delay_secs: u64, reason: Seq<char> },
    Steering(Seq<char>),
    Usage(Usage),
    ProviderChanged { id: Seq<char>, model: Seq<char> },
}

impl View for Report {
    type V = ReportView;

    open spec fn view(&self) -> ReportView {
        match self {
            Report::TurnStart => ReportView::TurnStart,
            Report::TurnEnd => ReportView::TurnEnd,
            Report::AssistantTextDelta(t) => ReportView::AssistantTextDelta(t@),
            Report::AssistantText(t) => ReportView::AssistantText(t@),
            Report::Thinking(t) => ReportView::Thinking(t@),
            Report::Retry { attempt, max_attempts, delay_secs, reason } => ReportView::Retry {
                attempt: *attempt,
                max_attempts: *max_attempts,
                delay_secs: *delay_secs,
                reason: reason@,
            },
            Report::Steering(t) => ReportView::Steering(t@),
            Report::Usage(u) => ReportView::Usage(*u),
            Report::ProviderChanged { id, model } => ReportView::ProviderChanged {
                id: id@,
                model: model@,
            },
        }
    }
}

/// What the driver is to do next.
pub enum Action {
    /// Ask the `before_agent_start` hook about the system prompt.
    AskStart(String),
    /// Hand over the texts that the user queued.
    DrainSteering,
    /// Ask the `before_compact` hook about the transcript.
    AskCompact(Vec<Message>),
    /// Ask the provider for a summary.
    Summarize(String),
    /// Ask the `on_context` hook what to send.
    AskContext(Vec<Message>),
    /// Ask the provider for the next message.
    Complete { messages: Vec<Message>, system_prompt: String },
    /// Wait so many seconds.
    Sleep(u64),
    /// Ask the `on_budget` hook.
    AskBudget(BudgetInfo),
    /// Run one tool call.
    RunTool(ToolCall),
    /// Run these calls concurrently.
    RunBatch(Vec<ToolCall>),
    /// The turn ended with this message.
    Done(Message),
    /// The turn failed.
    Fail(AgentError),
    /// The event was no answer to what had been asked.
    Ignored,
}

#[verifier::ext_equal]
pub enum ActionView {
    AskStart(Seq<char>),
    DrainSteering,
    AskCompact(Seq<MessageView>),
    Summarize(Seq<char>),
    AskContext(Seq<MessageView>),
    Complete { messages: Seq<MessageView>, system_prompt: Seq<char> },
    Sleep(u64),
    AskBudget(BudgetInfo),
    RunTool(ToolCallView),
    RunBatch(Seq<ToolCallView>),
    Done(MessageView),
    Fail(AgentErrorView),
    Ignored,
}

impl View for Action {
    type V = ActionView;

    open spec fn view(&self) -> ActionView {
        match self {
            Action::AskStart(p) => ActionView::AskStart(p@),
            Action::DrainSteering => ActionView::DrainSteering,
            Action::AskCompact(m) => ActionView::AskCompact(views(m@)),
            Action::Summarize(p) => ActionView::Summarize(p@),
            Action::AskContext(m) => ActionView::AskContext(views(m@)),
            Action::Complete { messages, system_prompt } => ActionView::Complete {
                messages: views(messages@),
                system_prompt: system_prompt@,
            },
            Action::Sleep(secs) => ActionView::Sleep(*secs),
            Action::AskBudget(info) => ActionView::AskBudget(*info),
            Action::RunTool(c) => ActionView::RunTool(c@),
            Action::RunBatch(c) => ActionView::RunBatch(views(c@)),
            Action::Done(m) => ActionView::Done(m@),
            Action::Fail(e) => ActionView::Fail(e@),
            Action::Ignored => ActionView::Ignored,
        }
    }
}

/// Progress to be shown, then what is to be done.
pub struct Step {
    pub reports: Vec<Report>,
    pub action: Action,
}

#[verifier::ext_equal]
pub struct StepView {
    pub reports: Seq<ReportView>,
    pub action: ActionView,
}

impl View for Step {
    type V = StepView;

    open spec fn view(&self) -> StepView {
        StepView { reports: views(self.reports@), action: self.action@ }
    }
}

/// What the driver hands back.
pub enum Event {
    /// The user gave an input: a turn begins.
    Begin(String),
    /// The `before_agent_start` hook answered.
    Started(HookDecision<String>),
    /// The texts that the user queued.
    Steered(Vec<String>),
    /// The `before_compact` hook answered.
    CompactAnswered(Veto),
    /// The provider answered the request for a summary, or failed.
    Summarized(Option<Message>),
    /// The `on_context` hook answered.
    ContextAnswered(HookDecision<Vec<Message>>),
    /// The provider answered.
    Completed(Result<ProviderResponse, ProviderError>),
    /// The wait is over.
    Slept,
    /// The `on_budget` hook answered.
    BudgetAnswered(Veto),
    /// A tool call is finished.
    ToolDone(ToolExecOutcome),
    /// The concurrent calls are finished.
    BatchDone(Vec<ToolExecOutcome>),
}

#[verifier::ext_equal]
pub enum EventView {
    Begin(Seq<char>),
    Started(DecisionView<Seq<char>>),
    Steered(Seq<Seq<char>>),
    CompactAnswered(Option<Seq<char>>),
    Summarized(Option<MessageView>),
    ContextAnswered(DecisionView<Seq<MessageView>>),
    Completed(Result<ResponseView, ProviderErrorView>),
    Slept,
    BudgetAnswered(Option<Seq<char>>),
    ToolDone(OutcomeView),
    BatchDone(Seq<OutcomeView>),
}

impl View for Event {
    type V = EventView;

    open spec fn view(&self) -> EventView {
        match self {
            Event::Begin(input) => EventView::Begin(input@),
            Event::Started(d) => EventView::Started(d@),
            Event::Steered(t) => EventView::Steered(views(t@)),
            Event::CompactAnswered(v) => EventView::CompactAnswered(opt_view(*v)),
            Event::Summarized(m) => EventView::Summarized(opt_view(*m)),
            Event::ContextAnswered(d) => EventView::ContextAnswered(
                match d {
                    HookDecision::Allow(m) => DecisionView::Allow(views(m@)),
                    HookDecision::Block(reason) => DecisionView::Block(reason@),
                },
            ),
            Event::Completed(r) => EventView::Completed(
                match r {
                    Ok(x) => Ok(x@),
                    Err(e) => Err(e@),
                },
            ),
            Event::Slept => EventView::Slept,
            Event::BudgetAnswered(v) => EventView::BudgetAnswered(opt_view(*v)),
            Event::ToolDone(o) => EventView::ToolDone(o@),
            Event::BatchDone(o) => EventView::BatchDone(views(o@)),
        }
    }
}

// ---------------------------------------------------------------------------
// The state
// ---------------------------------------------------------------------------

/// What the session waits for.
pub enum Phase {
    /// No turn runs.
    Idle,
    /// The answer of the `before_agent_start` hook; the input waits.
    Starting { input: String },
    /// Queued texts, at the start of the turn.
    SteerStart,
    /// The answer of the `before_compact` hook.
    CompactGate { emergency: bool },
    /// A summary of dropped messages.
    Summarizing { emergency: bool },
    /// The answer of the `on_context` hook.
    Context { retry: bool },
    /// The provider's answer to this request, after so many retries.
    Completing { outgoing: Vec<Message>, attempt: usize, retry: bool },
    /// The end of the wait before the next attempt.
    Backoff { outgoing: Vec<Message>, attempt: usize, retry: bool },
    /// The answer of the `on_budget` hook.
    Budget { response: ProviderResponse },
    /// Queued texts, after an answer that ends the turn.
    SteerEnd { message: Message },
    /// The outcome of the next of the calls that run one after the other.
    RunningTool { calls: Vec<ToolCall>, done: Vec<ToolExecOutcome> },
    /// The outcomes of the concurrent calls.
    RunningBatch { calls: Vec<ToolCall>, done: Vec<ToolExecOutcome> },
    /// Queued texts, after tool results.
    SteerTools,
}

#[verifier::ext_equal]
pub enum PhaseView {
    Idle,
    Starting { input: Seq<char> },
    SteerStart,
    CompactGate { emergency: bool },
    Summarizing { emergency: bool },
    Context { retry: bool },
    Completing { outgoing: Seq<MessageView>, attempt: usize, retry: bool },
    Backoff { outgoing: Seq<MessageView>, attempt: usize, retry: bool },
    Budget { response: ResponseView },
    SteerEnd { message: MessageView },
    RunningTool { calls: Seq<ToolCallView>, done: Seq<OutcomeView> },
    RunningBatch { calls: Seq<ToolCallView>, done: Seq<OutcomeView> },
    SteerTools,
}

impl View for Phase {
    type V = PhaseView;

    open spec fn view(&self) -> PhaseView {
        match self {
            Phase::Idle => PhaseView::Idle,
            Phase::Starting { input } => PhaseView::Starting { input: input@ },
            Phase::SteerStart => PhaseView::SteerStart,
            Phase::CompactGate { emergency } => PhaseView::CompactGate { emergency: *emergency },
            Phase::Summarizing { emergency } => PhaseView::Summarizing { emergency: *emergency },
            Phase::Context { retry } => PhaseView::Context { retry: *retry },
            Phase::Completing { outgoing, attempt, retry } => PhaseView::Completing {
                outgoing: views(outgoing@),
                attempt: *attempt,
                retry: *retry,
            },
            Phase::Backoff { outgoing, attempt, retry } => PhaseView::Backoff {
                outgoing: views(outgoing@),
                attempt: *attempt,
                retry: *retry,
            },
            Phase::Budget { response } => PhaseView::Budget { response: response@ },
            Phase::SteerEnd { message } => PhaseView::SteerEnd { message: message@ },
            Phase::RunningTool { calls, done } => PhaseView::RunningTool {
                calls: views(calls@),
                done: views(done@),
            },
            Phase::RunningBatch { calls, done } => PhaseView::RunningBatch {
                calls: views(calls@),
                done: views(done@),
            },
            Phase::SteerTools => PhaseView::SteerTools,
        }
    }
}

/// Who answers.
pub struct ProviderInfo {
    pub id: String,
    pub model: String,
    /// The size of the model's context window, where it is known.
    pub context_window: Option<u32>,
}

#[verifier::ext_equal]
pub struct ProviderView {
    pub id: Seq<char>,
    pub model: Seq<char>,
    pub context_window: Option<u32>,
}

impl View for ProviderInfo {
    type V = ProviderView;

    open spec fn view(&self) -> ProviderView {
        ProviderView { id: self.id@, model: self.model@, context_window: self.context_window }
    }
}

/// A conversation with a model.
pub struct AgentSession {
    messages: Vec<Message>,
    system_prompt: String,
    started: bool,
    last_input_tokens: Option<u32>,
    total_usage: Usage,
    turn_count: usize,
    decision_ledger: DecisionLedger,
    hooks: bool,
    provider: ProviderInfo,
    phase: Phase,
    before: Vec<Message>,
    turn_usage: Usage,
}

/// The state of a session.
#[verifier::ext_equal]
pub struct SessionView {
    /// The transcript.
    pub messages: Seq<MessageView>,
    pub system_prompt: Seq<char>,
    /// Whether the `before_agent_start` hook has been passed.
    pub started: bool,
    /// The input tokens of the last answer.
    pub last_input_tokens: Option<u32>,
    /// The usage of all turns.
    pub total_usage: Usage,
    pub turn_count: usize,
    pub ledger: LedgerView,
    /// Whether there are hooks to be asked.
    pub hooks: bool,
    /// Who answers.
    pub provider: ProviderView,
    pub phase: PhaseView,
    /// The transcript as it was before the turn.
    pub before: Seq<MessageView>,
    /// The usage of this turn.
    pub turn_usage: Usage,
}

impl View for AgentSession {
    type V = SessionView;

    closed spec fn view(&self) -> SessionView {
        SessionView {
            messages: views(self.messages@),
            system_prompt: self.system_prompt@,
            started: self.started,
            last_input_tokens: self.last_input_tokens,
            total_usage: self.total_usage,
            turn_count: self.turn_count,
            ledger: self.decision_ledger@,
            hooks: self.hooks,
            provider: self.provider@,
            phase: self.phase@,
            before: views(self.before@),
            turn_usage: self.turn_usage,
        }
    }
}

// ---------------------------------------------------------------------------
// What a step does
// ---------------------------------------------------------------------------

/// The state of a new session.
pub open spec fn fresh(
    provider: ProviderView,
    hooks: bool,
    system_prompt: Seq<char>,
) -> SessionView {
    SessionView {
        messages: Seq::empty(),
        system_prompt,
        started: false,
        last_input_tokens: None,
        total_usage: Usage { input_tokens: 0, output_tokens: 0 },
        turn_count: 0,
        ledger: LedgerView::empty(),
        hooks,
        provider,
        phase: PhaseView::Idle,
        before: Seq::empty(),
        turn_usage: Usage { input_tokens: 0, output_tokens: 0 },
    }
}

/// The input tokens above which the transcript is made smaller: three quarters
/// of the context window, or a constant where that is not known.
pub open spec fn token_threshold(window: Option<u32>) -> nat {
    match window {
        Some(w) => (w as nat * 3) / 4,
        None => TOKEN_COMPACT_THRESHOLD as nat,
    }
}

/// Whether the transcript is to be made smaller.
pub open spec fn over_limit(s: SessionView) -> bool {
    ||| s.messages.len() > COMPACT_THRESHOLD
    ||| match s.last_input_tokens {
        Some(t) => t > token_threshold(s.provider.context_window),
        None => false,
    }
}

/// How many messages stay.
pub open spec fn kept(emergency: bool) -> nat {
    if emergency {
        EMERGENCY_KEEP_RECENT as nat
    } else {
        KEEP_RECENT as nat
    }
}

/// What the model is asked when dropped messages are to be summarised.
pub open spec fn summary_request(transcript: Seq<char>) -> Seq<char> {
    "Summarize the key facts, decisions, and open threads from this part of a coding session in 3-5 short bullet points. Be concise.\n\n"@
        + transcript
}

/// The system prompt with the recorded facts behind it.
pub open spec fn full_prompt(s: SessionView) -> Seq<char> {
    match ledger_text(s.ledger) {
        Some(facts) => s.system_prompt + "\n\n"@ + facts,
        None => s.system_prompt,
    }
}

/// A state that waits for something, and what the driver is told.
pub open spec fn wait(
    s: SessionView,
    phase: PhaseView,
    reports: Seq<ReportView>,
    action: ActionView,
) -> (SessionView, StepView) {
    (SessionView { phase, ..s }, StepView { reports, action })
}

/// The turn is over and failed: the transcript is what it was before.
pub open spec fn fail(s: SessionView, reports: Seq<ReportView>, e: AgentErrorView) -> (
    SessionView,
    StepView,
) {
    (
        SessionView {
            messages: s.before,
            before: Seq::empty(),
            phase: PhaseView::Idle,
            ..s
        },
        StepView { reports, action: ActionView::Fail(e) },
    )
}

/// The end of the provider's turn, where it has started.
pub open spec fn end_of(started: bool) -> Seq<ReportView> {
    if started {
        seq![ReportView::TurnEnd]
    } else {
        Seq::empty()
    }
}

/// The next round: stale reads are collapsed, a transcript that is too large is
/// made smaller, then the next message is asked for.
pub open spec fn next_round(s0: SessionView, reports: Seq<ReportView>) -> (SessionView, StepView) {
    let s = SessionView { messages: dedup(s0.messages), ..s0 };
    if over_limit(s) {
        ask_compact(s, false, reports)
    } else {
        ask_context(s, false, reports)
    }
}

/// The hook is asked before messages are dropped.
pub open spec fn ask_compact(s: SessionView, emergency: bool, reports: Seq<ReportView>) -> (
    SessionView,
    StepView,
) {
    if s.hooks {
        wait(s, PhaseView::CompactGate { emergency }, reports, ActionView::AskCompact(s.messages))
    } else {
        compact(s, emergency, reports)
    }
}

/// The oldest messages are dropped and what they did is recorded; what was said
/// in them is summarised.
pub open spec fn compact(s: SessionView, emergency: bool, reports: Seq<ReportView>) -> (
    SessionView,
    StepView,
) {
    if s.messages.len() <= kept(emergency) {
        ask_context(s, emergency, reports)
    } else {
        let n = s.messages.len() - kept(emergency);
        let dropped = s.messages.subrange(0, n);
        let t = SessionView {
            messages: s.messages.subrange(n, s.messages.len() as int),
            ledger: record_messages(s.ledger, dropped),
            ..s
        };
        let transcript = join(transcript_lines(dropped), "\n"@);
        if trim(transcript).len() == 0 {
            ask_context(t, emergency, reports)
        } else {
            wait(
                t,
                PhaseView::Summarizing { emergency },
                reports,
                ActionView::Summarize(summary_request(transcript)),
            )
        }
    }
}

/// The hook is asked what to send.
pub open spec fn ask_context(s: SessionView, retry: bool, reports: Seq<ReportView>) -> (
    SessionView,
    StepView,
) {
    if s.hooks {
        wait(s, PhaseView::Context { retry }, reports, ActionView::AskContext(s.messages))
    } else {
        request(s, s.messages, retry, reports)
    }
}

/// The provider is asked for the next message.
pub open spec fn request(
    s: SessionView,
    outgoing: Seq<MessageView>,
    retry: bool,
    reports: Seq<ReportView>,
) -> (SessionView, StepView) {
    wait(
        s,
        PhaseView::Completing { outgoing, attempt: 0, retry },
        if retry {
            reports
        } else {
            reports.push(ReportView::TurnStart)
        },
        ActionView::Complete { messages: outgoing, system_prompt: full_prompt(s) },
    )
}

/// The provider failed: a transient failure is retried, a request that is too
/// large is made smaller once, anything else ends the turn.
pub open spec fn provider_failed(
    s: SessionView,
    outgoing: Seq<MessageView>,
    attempt: usize,
    retry: bool,
    e: ProviderErrorView,
) -> (SessionView, StepView) {
    if transient_error(e) && attempt < MAX_TRANSIENT_RETRIES {
        let delay = backoff_secs(attempt as nat, e) as u64;
        wait(
            s,
            PhaseView::Backoff { outgoing, attempt: (attempt + 1) as usize, retry },
            seq![
                ReportView::Retry {
                    attempt: (attempt + 1) as usize,
                    max_attempts: MAX_TRANSIENT_RETRIES,
                    delay_secs: delay,
                    reason: error_text(e),
                },
            ],
            ActionView::Sleep(delay),
        )
    } else if !retry && context_length_error(e) && s.messages.len() > EMERGENCY_KEEP_RECENT {
        ask_compact(s, true, Seq::empty())
    } else {
        fail(s, seq![ReportView::TurnEnd], AgentErrorView::Provider(e))
    }
}

/// Two usages together.
pub open spec fn plus(a: Usage, b: Usage) -> Usage {
    Usage {
        input_tokens: (a.input_tokens + b.input_tokens) as u32,
        output_tokens: (a.output_tokens + b.output_tokens) as u32,
    }
}

/// What is shown while an answer comes in: a provider that gives it as a whole
/// gives each of its texts in one piece.
pub open spec fn answer_reports(m: MessageView) -> Seq<ReportView> {
    texts_of(m.content).map_values(|t: Seq<char>| ReportView::AssistantTextDelta(t)).push(
        ReportView::TurnEnd,
    )
}

/// The provider answered: its usage is counted and the hook is asked.
pub open spec fn provider_answered(s0: SessionView, r: ResponseView) -> (SessionView, StepView) {
    let s = SessionView {
        last_input_tokens: Some(r.usage.input_tokens),
        turn_usage: plus(s0.turn_usage, r.usage),
        total_usage: plus(s0.total_usage, r.usage),
        ..s0
    };
    if s.hooks {
        wait(
            s,
            PhaseView::Budget { response: r },
            answer_reports(r.message),
            ActionView::AskBudget(
                BudgetInfo {
                    turn: s.turn_usage,
                    session: s.total_usage,
                    turn_count: s.turn_count,
                },
            ),
        )
    } else {
        deliver(s, r, answer_reports(r.message))
    }
}

/// What is shown of the blocks of an answer.
pub open spec fn block_reports(blocks: Seq<BlockView>) -> Seq<ReportView>
    decreases blocks.len(),
{
    if blocks.len() == 0 {
        Seq::empty()
    } else {
        let rest = block_reports(blocks.drop_last());
        match blocks.last() {
            BlockView::Text(t) => rest.push(ReportView::AssistantText(t)),
            BlockView::Thinking { text, .. } => rest.push(ReportView::Thinking(text)),
            _ => rest,
        }
    }
}

/// The answer joins the transcript; its tool calls are run, or the turn ends.
pub open spec fn deliver(s0: SessionView, r: ResponseView, reports: Seq<ReportView>) -> (
    SessionView,
    StepView,
) {
    let s = SessionView { messages: s0.messages.push(r.message), ..s0 };
    let shown = reports + block_reports(r.message.content);
    let calls = calls_of(r.message.content);
    if calls.len() == 0 || r.stop_reason != StopReason::ToolUse {
        wait(
            s,
            PhaseView::SteerEnd { message: r.message },
            shown,
            ActionView::DrainSteering,
        )
    } else {
        run_tools(s, calls, Seq::empty(), shown)
    }
}

/// Whether a call runs concurrently with others.
pub open spec fn is_concurrent(c: ToolCallView) -> bool {
    c.name == concurrent_tool()
}

/// The calls that run one after the other, or those that run concurrently.
pub open spec fn select(calls: Seq<ToolCallView>, concurrent: bool) -> Seq<ToolCallView>
    decreases calls.len(),
{
    if calls.len() == 0 {
        Seq::empty()
    } else {
        let rest = select(calls.drop_last(), concurrent);
        if is_concurrent(calls.last()) == concurrent {
            rest.push(calls.last())
        } else {
            rest
        }
    }
}

/// The next call is run: first those that run one after the other, then the
/// concurrent ones together.
pub open spec fn run_tools(
    s: SessionView,
    calls: Seq<ToolCallView>,
    done: Seq<OutcomeView>,
    reports: Seq<ReportView>,
) -> (SessionView, StepView) {
    let ordered = select(calls, false);
    let together = select(calls, true);
    if done.len() < ordered.len() {
        wait(
            s,
            PhaseView::RunningTool { calls, done },
            reports,
            ActionView::RunTool(ordered[done.len() as int]),
        )
    } else if together.len() > 0 {
        wait(
            s,
            PhaseView::RunningBatch { calls, done },
            reports,
            ActionView::RunBatch(together),
        )
    } else {
        tools_done(s, calls, done, Seq::empty(), reports)
    }
}

/// The answer to a call.
pub open spec fn result_of(c: ToolCallView, o: OutcomeView) -> ToolResultView {
    ToolResultView {
        tool_call_id: c.id,
        content: ToolResultContentView::Text(o.content),
        is_error: o.is_error,
    }
}

/// The answers to all calls, in the order of the calls.
pub open spec fn results_of(
    calls: Seq<ToolCallView>,
    done: Seq<OutcomeView>,
    batch: Seq<OutcomeView>,
) -> Seq<ToolResultView>
    decreases calls.len(),
{
    if calls.len() == 0 {
        Seq::empty()
    } else if is_concurrent(calls.last()) {
        results_of(calls.drop_last(), done, batch.drop_last()).push(
            result_of(calls.last(), batch.last()),
        )
    } else {
        results_of(calls.drop_last(), done.drop_last(), batch).push(
            result_of(calls.last(), done.last()),
        )
    }
}

/// The answers join the transcript.
pub open spec fn tools_done(
    s: SessionView,
    calls: Seq<ToolCallView>,
    done: Seq<OutcomeView>,
    batch: Seq<OutcomeView>,
    reports: Seq<ReportView>,
) -> (SessionView, StepView) {
    wait(
        SessionView {
            messages: s.messages.push(tool_results_view(results_of(calls, done, batch))),
            ..s
        },
        PhaseView::SteerTools,
        reports,
        ActionView::DrainSteering,
    )
}

/// A queued text as it is added to a message.
pub open spec fn steering_block(text: Seq<char>) -> BlockView {
    BlockView::Text("[User, while you were working on this]: "@ + text)
}

/// The transcript with queued texts added to its last message.
pub open spec fn steer_last(ms: Seq<MessageView>, texts: Seq<Seq<char>>) -> Seq<MessageView> {
    if ms.len() == 0 {
        ms
    } else {
        ms.update(
            ms.len() - 1,
            MessageView {
                content: ms.last().content + texts.map_values(|t: Seq<char>| steering_block(t)),
                ..ms.last()
            },
        )
    }
}

/// What is shown of queued texts.
pub open spec fn steering_reports(texts: Seq<Seq<char>>) -> Seq<ReportView> {
    texts.map_values(|t: Seq<char>| ReportView::Steering(t))
}

/// A message made of queued texts.
pub open spec fn steering_message(texts: Seq<Seq<char>>) -> MessageView {
    MessageView {
        role: Role::User,
        content: texts.map_values(|t: Seq<char>| BlockView::Text(t)),
        metadata: JsonTree::Null,
    }
}

/// The input joins the transcript.
pub open spec fn begin(s: SessionView, input: Seq<char>) -> (SessionView, StepView) {
    wait(
        SessionView { messages: s.messages.push(user_text_view(input)), ..s },
        PhaseView::SteerStart,
        Seq::empty(),
        ActionView::DrainSteering,
    )
}

/// Whether an event answers what the session waits for.
pub open spec fn answers(p: PhaseView, e: EventView) -> bool {
    match (p, e) {
        (PhaseView::Idle, EventView::Begin(_)) => true,
        (PhaseView::Starting { .. }, EventView::Started(_)) => true,
        (PhaseView::SteerStart, EventView::Steered(_)) => true,
        (PhaseView::CompactGate { .. }, EventView::CompactAnswered(_)) => true,
        (PhaseView::Summarizing { .. }, EventView::Summarized(_)) => true,
        (PhaseView::Context { .. }, EventView::ContextAnswered(_)) => true,
        (PhaseView::Completing { .. }, EventView::Completed(_)) => true,
        (PhaseView::Backoff { .. }, EventView::Slept) => true,
        (PhaseView::Budget { .. }, EventView::BudgetAnswered(_)) => true,
        (PhaseView::SteerEnd { .. }, EventView::Steered(_)) => true,
        (PhaseView::RunningTool { .. }, EventView::ToolDone(_)) => true,
        (PhaseView::RunningBatch { calls, .. }, EventView::BatchDone(batch)) => batch.len()
            == select(calls, true).len(),
        (PhaseView::SteerTools, EventView::Steered(_)) => true,
        _ => false,
    }
}

/// An event that answers nothing changes nothing.
pub proof fn lemma_ignored(s: SessionView, e: EventView)
    ensures
        !answers(s.phase, e) ==> turn_step(s, e) == (
            s,
            StepView { reports: Seq::empty(), action: ActionView::Ignored },
        ),
{
    reveal(turn_step);
}

/// The next state and what the driver is told, for each event.
#[verifier::opaque]
pub open spec fn turn_step(s: SessionView, e: EventView) -> (SessionView, StepView) {
    match (s.phase, e) {
        (PhaseView::Idle, EventView::Begin(input)) => {
            let t = SessionView {
                before: s.messages,
                turn_usage: Usage { input_tokens: 0, output_tokens: 0 },
                ..s
            };
            if s.started {
                begin(t, input)
            } else if s.hooks {
                wait(
                    t,
                    PhaseView::Starting { input },
                    Seq::empty(),
                    ActionView::AskStart(s.system_prompt),
                )
            } else {
                begin(SessionView { started: true, ..t }, input)
            }
        },
        (PhaseView::Starting { input }, EventView::Started(d)) => match d {
            DecisionView::Allow(prompt) => begin(
                SessionView { system_prompt: prompt, started: true, ..s },
                input,
            ),
            DecisionView::Block(reason) => fail(
                s,
                Seq::empty(),
                AgentErrorView::HookBlocked(reason),
            ),
        },
        (PhaseView::SteerStart, EventView::Steered(texts)) => next_round(
            SessionView {
                messages: steer_last(s.messages, texts),
                turn_count: (s.turn_count + 1) as usize,
                ..s
            },
            steering_reports(texts),
        ),
        (PhaseView::CompactGate { emergency }, EventView::CompactAnswered(v)) => match v {
            Some(reason) => fail(s, end_of(emergency), AgentErrorView::HookBlocked(reason)),
            None => compact(s, emergency, Seq::empty()),
        },
        (PhaseView::Summarizing { emergency }, EventView::Summarized(m)) => ask_context(
            match m {
                Some(msg) => if trim(message_text(msg)).len() > 0 {
                    SessionView { ledger: with_summary(s.ledger, message_text(msg)), ..s }
                } else {
                    s
                },
                None => s,
            },
            emergency,
            Seq::empty(),
        ),
        (PhaseView::Context { retry }, EventView::ContextAnswered(d)) => match d {
            DecisionView::Allow(ms) => request(s, ms, retry, Seq::empty()),
            DecisionView::Block(reason) => fail(
                s,
                end_of(retry),
                AgentErrorView::HookBlocked(reason),
            ),
        },
        (PhaseView::Completing { outgoing, attempt, retry }, EventView::Completed(r)) => match r {
            Ok(response) => provider_answered(s, response),
            Err(err) => provider_failed(s, outgoing, attempt, retry, err),
        },
        (PhaseView::Backoff { outgoing, attempt, retry }, EventView::Slept) => wait(
            s,
            PhaseView::Completing { outgoing, attempt, retry },
            Seq::empty(),
            ActionView::Complete { messages: outgoing, system_prompt: full_prompt(s) },
        ),
        (PhaseView::Budget { response }, EventView::BudgetAnswered(v)) => match v {
            Some(reason) => fail(s, Seq::empty(), AgentErrorView::HookBlocked(reason)),
            None => deliver(s, response, Seq::empty()),
        },
        (PhaseView::SteerEnd { message }, EventView::Steered(texts)) => if texts.len() == 0 {
            (
                SessionView { phase: PhaseView::Idle, before: Seq::empty(), ..s },
                StepView {
                    reports: seq![ReportView::Usage(s.turn_usage)],
                    action: ActionView::Done(message),
                },
            )
        } else {
            next_round(
                SessionView { messages: s.messages.push(steering_message(texts)), ..s },
                steering_reports(texts),
            )
        },
        (PhaseView::RunningTool { calls, done }, EventView::ToolDone(o)) => run_tools(
            s,
            calls,
            done.push(o),
            Seq::empty(),
        ),
        (PhaseView::RunningBatch { calls, done }, EventView::BatchDone(batch)) => if batch.len()
            == select(calls, true).len() {
            tools_done(s, calls, done, batch, Seq::empty())
        } else {
            (s, StepView { reports: Seq::empty(), action: ActionView::Ignored })
        },
        (PhaseView::SteerTools, EventView::Steered(texts)) => next_round(
            SessionView { messages: steer_last(s.messages, texts), ..s },
            steering_reports(texts),
        ),
        _ => (s, StepView { reports: Seq::empty(), action: ActionView::Ignored }),
    }
}

/// Whether the counters can take what an event brings.
pub open spec fn counters_fit(s: SessionView, e: EventView) -> bool {
    match e {
        EventView::Steered(_) => s.turn_count < usize::MAX,
        EventView::Completed(Ok(r)) => {
            &&& s.total_usage.input_tokens + r.usage.input_tokens <= u32::MAX
            &&& s.total_usage.output_tokens + r.usage.output_tokens <= u32::MAX
            &&& s.turn_usage.input_tokens + r.usage.input_tokens <= u32::MAX
            &&& s.turn_usage.output_tokens + r.usage.output_tokens <= u32::MAX
        },
        _ => true,
    }
}

/// The state after an interrupted turn: of the transcript before the turn, the
/// first `n` messages.
pub open spec fn discarded(s: SessionView, n: nat) -> SessionView {
    let messages = if s.phase is Idle {
        s.messages
    } else {
        s.before
    };
    SessionView {
        messages: if n < messages.len() {
            messages.subrange(0, n as int)
        } else {
            messages
        },
        phase: PhaseView::Idle,
        before: Seq::empty(),
        ..s
    }
}

/// What holds of the state between steps.
pub open spec fn consistent(s: SessionView) -> bool {
    &&& s.ledger.within_caps()
    &&& match s.phase {
        PhaseView::Idle => s.before.len() == 0,
        PhaseView::SteerStart => s.messages.len() > 0,
        PhaseView::SteerTools => s.messages.len() > 0,
        PhaseView::SteerEnd { message } => s.messages.len() > 0 && s.messages.last() == message,
        PhaseView::Completing { attempt, .. } => attempt <= MAX_TRANSIENT_RETRIES,
        PhaseView::Backoff { attempt, .. } => attempt <= MAX_TRANSIENT_RETRIES,
        PhaseView::RunningTool { calls, done } => done.len() < select(calls, false).len(),
        PhaseView::RunningBatch { calls, done } => done.len() == select(calls, false).len()
            && select(calls, true).len() > 0,
        _ => true,
    }
}

/// Every call is among the selected ones of exactly one kind.
proof fn lemma_select_len(calls: Seq<ToolCallView>)
    ensures
        select(calls, false).len() + select(calls, true).len() == calls.len(),
    decreases calls.len(),
{
    if calls.len() > 0 {
        lemma_select_len(calls.drop_last());
    }
}

fn push_steering(content: &mut Vec<ContentBlock>, texts: &Vec<String>)
    ensures
        views(final(content)@) == views(old(content)@) + views(texts@).map_values(
            |t: Seq<char>| steering_block(t),
        ),
{
    let ghost start = views(content@);
    let ghost added = views(texts@).map_values(|t: Seq<char>| steering_block(t));
    assert(start + added.take(0) == start);
    for i in 0..texts.len()
        invariant
            added == views(texts@).map_values(|t: Seq<char>| steering_block(t)),
            views(content@) == start + added.take(i as int),
    {
        let mut line = "[User, while you were working on this]: ".to_owned();
        line.append(texts[i].as_str());
        content.push(ContentBlock::Text(line));
        assert(added.take(i + 1) == added.take(i as int).push(added[i as int]));
        assert(start + added.take(i + 1) == (start + added.take(i as int)).push(added[i as int]));
    }
    assert(added.take(added.len() as int) == added);
}

fn steering_shown(texts: &Vec<String>) -> (r: Vec<Report>)
    ensures
        views(r@) == steering_reports(views(texts@)),
{
    let mut r: Vec<Report> = Vec::new();
    for i in 0..texts.len()
        invariant
            r@.len() == i,
            forall|j: int|
                0 <= j < i ==> (#[trigger] r@[j])@ == ReportView::Steering(texts@[j]@),
    {
        r.push(Report::Steering(texts[i].clone()));
    }
    assert(views(r@) =~= steering_reports(views(texts@)));
    r
}

fn answer_shown(message: &Message) -> (r: Vec<Report>)
    ensures
        views(r@) == answer_reports(message@),
{
    let texts = message.text_blocks();
    let ghost all = views(texts@);
    let mut r: Vec<Report> = Vec::new();
    for text in it: texts
        invariant
            views(it.seq()) == all,
            r@.len() == it.index(),
            forall|j: int|
                0 <= j < r@.len() ==> (#[trigger] r@[j])@ == ReportView::AssistantTextDelta(
                    all[j],
                ),
    {
        assert(all[it.index() as int] == text@);
        r.push(Report::AssistantTextDelta(text));
    }
    r.push(Report::TurnEnd);
    assert(views(r@) =~= answer_reports(message@));
    r
}

fn show_blocks(reports: &mut Vec<Report>, content: &Vec<ContentBlock>)
    ensures
        views(final(reports)@) == views(old(reports)@) + block_reports(views(content@)),
{
    let ghost start = views(reports@);
    let ghost blocks = views(content@);
    assert(start + block_reports(blocks.take(0)) == start);
    for i in 0..content.len()
        invariant
            blocks == views(content@),
            views(reports@) == start + block_reports(blocks.take(i as int)),
    {
        assert(blocks.take(i + 1).drop_last() == blocks.take(i as int));
        let ghost so_far = views(reports@);
        match &content[i] {
            ContentBlock::Text(t) => {
                reports.push(Report::AssistantText(t.clone()));
                assert(views(reports@) == so_far.push(ReportView::AssistantText(t@)));
            },
            ContentBlock::Thinking { text, .. } => {
                reports.push(Report::Thinking(text.clone()));
                assert(views(reports@) == so_far.push(ReportView::Thinking(text@)));
            },
            _ => {},
        }
        assert(views(reports@) == start + block_reports(blocks.take(i + 1)));
    }
    assert(blocks.take(blocks.len() as int) == blocks);
}

fn selected(calls: &Vec<ToolCall>, concurrent: bool) -> (r: Vec<ToolCall>)
    ensures
        views(r@) == select(views(calls@), concurrent),
{
    let mut r: Vec<ToolCall> = Vec::new();
    let ghost all = views(calls@);
    for i in 0..calls.len()
        invariant
            all == views(calls@),
            views(r@) == select(all.take(i as int), concurrent),
    {
        assert(all.take(i + 1).drop_last() == all.take(i as int));
        if same(calls[i].name.as_str(), "agent") == concurrent {
            r.push(calls[i].copied());
        }
    }
    assert(all.take(all.len() as int) == all);
    r
}

fn tool_result(call: &ToolCall, outcome: &ToolExecOutcome) -> (r: ToolResult)
    ensures
        r@ == result_of(call@, outcome@),
{
    ToolResult {
        tool_call_id: call.id.clone(),
        content: ToolResultContent::Text(outcome.content.clone()),
        is_error: outcome.is_error,
    }
}

fn merged(
    calls: &Vec<ToolCall>,
    done: &Vec<ToolExecOutcome>,
    batch: &Vec<ToolExecOutcome>,
) -> (r: Vec<ToolResult>)
    requires
        done@.len() == select(views(calls@), false).len(),
        batch@.len() == select(views(calls@), true).len(),
    ensures
        views(r@) == results_of(views(calls@), views(done@), views(batch@)),
{
    let mut r: Vec<ToolResult> = Vec::new();
    let ghost all = views(calls@);
    let ghost ds = views(done@);
    let ghost bs = views(batch@);
    let mut a: usize = 0;
    let mut b: usize = 0;
    let most_done: usize = done.len();
    let most_batch: usize = batch.len();
    for i in 0..calls.len()
        invariant
            all == views(calls@),
            most_done == done@.len(),
            most_batch == batch@.len(),
            ds == views(done@),
            bs == views(batch@),
            done@.len() == select(all, false).len(),
            batch@.len() == select(all, true).len(),
            a == select(all.take(i as int), false).len(),
            b == select(all.take(i as int), true).len(),
            views(r@) == results_of(all.take(i as int), ds.take(a as int), bs.take(b as int)),
    {
        assert(all.take(i + 1).drop_last() == all.take(i as int));
        proof {
            lemma_select_grows(all, i + 1, false);
            lemma_select_grows(all, i + 1, true);
        }
        if same(calls[i].name.as_str(), "agent") {
            r.push(tool_result(&calls[i], &batch[b]));
            b += 1;
            assert(bs.take(b as int).drop_last() == bs.take(b - 1));
        } else {
            r.push(tool_result(&calls[i], &done[a]));
            a += 1;
            assert(ds.take(a as int).drop_last() == ds.take(a - 1));
        }
    }
    assert(all.take(all.len() as int) == all);
    assert(ds.take(ds.len() as int) == ds);
    assert(bs.take(bs.len() as int) == bs);
    r
}

/// A prefix has no more selected calls than the whole.
proof fn lemma_select_grows(calls: Seq<ToolCallView>, i: int, concurrent: bool)
    requires
        0 <= i <= calls.len(),
    ensures
        select(calls.take(i), concurrent).len() <= select(calls, concurrent).len(),
    decreases calls.len(),
{
    if i < calls.len() {
        lemma_select_grows(calls.drop_last(), i, concurrent);
        assert(calls.drop_last().take(i) == calls.take(i));
    } else {
        assert(calls.take(i) == calls);
    }
}

fn end_reports(started: bool) -> (r: Vec<Report>)
    ensures
        views(r@) == end_of(started),
{
    let mut r: Vec<Report> = Vec::new();
    if started {
        r.push(Report::TurnEnd);
    }
    assert(views(r@) =~= end_of(started));
    r
}

impl AgentSession {
    /// A session with an empty transcript.
    pub fn new(provider: ProviderInfo, hooks: bool, system_prompt: String) -> (r: AgentSession)
        ensures
            r@ == fresh(provider@, hooks, system_prompt@),
            consistent(r@),
    {
        AgentSession {
            messages: Vec::new(),
            system_prompt,
            started: false,
            last_input_tokens: None,
            total_usage: Usage { input_tokens: 0, output_tokens: 0 },
            turn_count: 0,
            decision_ledger: DecisionLedger::new(),
            hooks,
            provider,
            phase: Phase::Idle,
            before: Vec::new(),
            turn_usage: Usage { input_tokens: 0, output_tokens: 0 },
        }
    }

    fn fail(&mut self, reports: Vec<Report>, error: AgentError) -> (r: Step)
        ensures
            (final(self)@, r@) == fail(old(self)@, views(reports@), error@),
    {
        let mut before: Vec<Message> = Vec::new();
        std::mem::swap(&mut before, &mut self.before);
        self.messages = before;
        self.phase = Phase::Idle;
        Step { reports, action: Action::Fail(error) }
    }

    /// The input tokens above which the transcript is made smaller.
    pub fn token_compact_threshold(&self) -> (r: u32)
        ensures
            r == token_threshold(self@.provider.context_window),
    {
        match self.provider.context_window {
            Some(w) => ((w as u64 * 3) / 4) as u32,
            None => TOKEN_COMPACT_THRESHOLD,
        }
    }

    fn is_over_limit(&self) -> (r: bool)
        ensures
            r == over_limit(self@),
    {
        self.messages.len() > COMPACT_THRESHOLD || match self.last_input_tokens {
            Some(t) => t > self.token_compact_threshold(),
            None => false,
        }
    }

    fn next_round(&mut self, reports: Vec<Report>) -> (r: Step)
        requires
            old(self)@.ledger.within_caps(),
        ensures
            (final(self)@, r@) == next_round(old(self)@, views(reports@)),
            consistent(final(self)@),
    {
        dedup_stale_reads(&mut self.messages);
        if self.is_over_limit() {
            self.ask_compact(false, reports)
        } else {
            self.ask_context(false, reports)
        }
    }

    fn ask_compact(&mut self, emergency: bool, reports: Vec<Report>) -> (r: Step)
        requires
            old(self)@.ledger.within_caps(),
        ensures
            (final(self)@, r@) == ask_compact(old(self)@, emergency, views(reports@)),
            consistent(final(self)@),
    {
        if self.hooks {
            self.phase = Phase::CompactGate { emergency };
            Step { reports, action: Action::AskCompact(copy_all(&self.messages)) }
        } else {
            self.compact(emergency, reports)
        }
    }

    fn compact(&mut self, emergency: bool, reports: Vec<Report>) -> (r: Step)
        requires
            old(self)@.ledger.within_caps(),
        ensures
            (final(self)@, r@) == compact(old(self)@, emergency, views(reports@)),
            consistent(final(self)@),
    {
        let keep: usize = if emergency {
            EMERGENCY_KEEP_RECENT
        } else {
            KEEP_RECENT
        };
        if self.messages.len() <= keep {
            return self.ask_context(emergency, reports);
        }
        let n: usize = self.messages.len() - keep;
        let dropped = copy_range(&self.messages, 0, n);
        let recent = copy_range(&self.messages, n, self.messages.len());
        self.messages = recent;
        self.decision_ledger.record(&dropped);
        let transcript = plain_text_transcript(&dropped);
        if trimmed(transcript.as_str()).as_str().unicode_len() == 0 {
            return self.ask_context(emergency, reports);
        }
        let mut prompt =
            "Summarize the key facts, decisions, and open threads from this part of a coding session in 3-5 short bullet points. Be concise.\n\n".to_owned();
        prompt.append(transcript.as_str());
        self.phase = Phase::Summarizing { emergency };
        Step { reports, action: Action::Summarize(prompt) }
    }

    fn ask_context(&mut self, retry: bool, reports: Vec<Report>) -> (r: Step)
        requires
            old(self)@.ledger.within_caps(),
        ensures
            (final(self)@, r@) == ask_context(old(self)@, retry, views(reports@)),
            consistent(final(self)@),
    {
        if self.hooks {
            self.phase = Phase::Context { retry };
            Step { reports, action: Action::AskContext(copy_all(&self.messages)) }
        } else {
            let outgoing = copy_all(&self.messages);
            self.request(outgoing, retry, reports)
        }
    }

    fn full_prompt(&self) -> (r: String)
        ensures
            r@ == full_prompt(self@),
    {
        match self.decision_ledger.render() {
            Some(facts) => {
                let mut r = self.system_prompt.clone();
                r.append("\n\n");
                r.append(facts.as_str());
                r
            },
            None => self.system_prompt.clone(),
        }
    }

    fn request(&mut self, outgoing: Vec<Message>, retry: bool, reports: Vec<Report>) -> (r: Step)
        requires
            old(self)@.ledger.within_caps(),
        ensures
            (final(self)@, r@) == request(
                old(self)@,
                views(outgoing@),
                retry,
                views(reports@),
            ),
            consistent(final(self)@),
    {
        let mut reports = reports;
        if !retry {
            reports.push(Report::TurnStart);
        }
        let messages = copy_all(&outgoing);
        let system_prompt = self.full_prompt();
        self.phase = Phase::Completing { outgoing, attempt: 0, retry };
        Step { reports, action: Action::Complete { messages, system_prompt } }
    }

    fn provider_failed(
        &mut self,
        outgoing: Vec<Message>,
        attempt: usize,
        retry: bool,
        error: ProviderError,
    ) -> (r: Step)
        requires
            old(self)@.ledger.within_caps(),
        ensures
            (final(self)@, r@) == provider_failed(
                old(self)@,
                views(outgoing@),
                attempt,
                retry,
                error@,
            ),
            consistent(final(self)@),
    {
        let mut reports: Vec<Report> = Vec::new();
        if is_transient_error(&error) && attempt < MAX_TRANSIENT_RETRIES {
            let delay_secs: u64 = backoff_delay(attempt, &error);
            reports.push(
                Report::Retry {
                    attempt: attempt + 1,
                    max_attempts: MAX_TRANSIENT_RETRIES,
                    delay_secs,
                    reason: error.message(),
                },
            );
            self.phase = Phase::Backoff { outgoing, attempt: attempt + 1, retry };
            let r = Step { reports, action: Action::Sleep(delay_secs) };
            assert(r@.reports =~= provider_failed(
                old(self)@,
                views(outgoing@),
                attempt,
                retry,
                error@,
            ).1.reports);
            r
        } else if !retry && is_context_length_error(&error) && self.messages.len()
            > EMERGENCY_KEEP_RECENT {
            self.ask_compact(true, reports)
        } else {
            reports.push(Report::TurnEnd);
            assert(views(reports@) =~= seq![ReportView::TurnEnd]);
            self.fail(reports, AgentError::Provider(error))
        }
    }

    fn provider_answered(&mut self, response: ProviderResponse) -> (r: Step)
        requires
            old(self)@.ledger.within_caps(),
            counters_fit(old(self)@, EventView::Completed(Ok(response@))),
        ensures
            (final(self)@, r@) == provider_answered(old(self)@, response@),
            consistent(final(self)@),
    {
        let usage = response.usage;
        self.last_input_tokens = Some(usage.input_tokens);
        self.turn_usage = Usage {
            input_tokens: self.turn_usage.input_tokens + usage.input_tokens,
            output_tokens: self.turn_usage.output_tokens + usage.output_tokens,
        };
        self.total_usage = Usage {
            input_tokens: self.total_usage.input_tokens + usage.input_tokens,
            output_tokens: self.total_usage.output_tokens + usage.output_tokens,
        };
        let reports = answer_shown(&response.message);
        if self.hooks {
            let info = BudgetInfo {
                turn: self.turn_usage,
                session: self.total_usage,
                turn_count: self.turn_count,
            };
            self.phase = Phase::Budget { response };
            Step { reports, action: Action::AskBudget(info) }
        } else {
            self.deliver(response, reports)
        }
    }

    fn deliver(&mut self, response: ProviderResponse, reports: Vec<Report>) -> (r: Step)
        requires
            old(self)@.ledger.within_caps(),
        ensures
            (final(self)@, r@) == deliver(old(self)@, response@, views(reports@)),
            consistent(final(self)@),
    {
        let mut reports = reports;
        show_blocks(&mut reports, &response.message.content);
        let calls = response.message.tool_calls();
        let ends = calls.len() == 0 || response.stop_reason != StopReason::ToolUse;
        self.messages.push(response.message.copied());
        if ends {
            self.phase = Phase::SteerEnd { message: response.message };
            Step { reports, action: Action::DrainSteering }
        } else {
            self.run_tools(calls, Vec::new(), reports)
        }
    }

    fn run_tools(
        &mut self,
        calls: Vec<ToolCall>,
        done: Vec<ToolExecOutcome>,
        reports: Vec<Report>,
    ) -> (r: Step)
        requires
            old(self)@.ledger.within_caps(),
            done@.len() <= select(views(calls@), false).len(),
        ensures
            (final(self)@, r@) == run_tools(
                old(self)@,
                views(calls@),
                views(done@),
                views(reports@),
            ),
            consistent(final(self)@),
    {
        let ordered = selected(&calls, false);
        let together = selected(&calls, true);
        assert(ordered@.len() == select(views(calls@), false).len());
        assert(together@.len() == select(views(calls@), true).len());
        if done.len() < ordered.len() {
            let call = ordered[done.len()].copied();
            self.phase = Phase::RunningTool { calls, done };
            Step { reports, action: Action::RunTool(call) }
        } else if together.len() > 0 {
            self.phase = Phase::RunningBatch { calls, done };
            Step { reports, action: Action::RunBatch(together) }
        } else {
            self.tools_done(calls, done, Vec::new(), reports)
        }
    }

    fn tools_done(
        &mut self,
        calls: Vec<ToolCall>,
        done: Vec<ToolExecOutcome>,
        batch: Vec<ToolExecOutcome>,
        reports: Vec<Report>,
    ) -> (r: Step)
        requires
            old(self)@.ledger.within_caps(),
            done@.len() == select(views(calls@), false).len(),
            batch@.len() == select(views(calls@), true).len(),
        ensures
            (final(self)@, r@) == tools_done(
                old(self)@,
                views(calls@),
                views(done@),
                views(batch@),
                views(reports@),
            ),
            consistent(final(self)@),
    {
        let results = merged(&calls, &done, &batch);
        self.messages.push(Message::tool_results(results));
        self.phase = Phase::SteerTools;
        Step { reports, action: Action::DrainSteering }
    }

    fn begin(&mut self, input: String) -> (r: Step)
        requires
            old(self)@.ledger.within_caps(),
        ensures
            (final(self)@, r@) == begin(old(self)@, input@),
            consistent(final(self)@),
    {
        self.messages.push(Message::user_text(input.as_str()));
        self.phase = Phase::SteerStart;
        Step { reports: Vec::new(), action: Action::DrainSteering }
    }

    fn steer_last(&mut self, texts: &Vec<String>)
        requires
            old(self)@.messages.len() > 0,
        ensures
            final(self)@ == (SessionView {
                messages: steer_last(old(self)@.messages, views(texts@)),
                ..old(self)@
            }),
    {
        let last: usize = self.messages.len() - 1;
        push_steering(&mut self.messages[last].content, texts);
        assert(views(self.messages@) =~= steer_last(views(old(self).messages@), views(texts@)));
    }

    fn ignored() -> (r: Step)
        ensures
            r@ == (StepView { reports: Seq::empty(), action: ActionView::Ignored }),
    {
        Step { reports: Vec::new(), action: Action::Ignored }
    }

    fn on_begin(&mut self, input: String) -> (r: Step)
        requires
            old(self)@.phase is Idle,
            consistent(SessionView { phase: PhaseView::Idle, ..old(self)@ }),
            counters_fit(old(self)@, EventView::Begin(input@)),
        ensures
            (final(self)@, r@) == turn_step(
                SessionView { phase: PhaseView::Idle, ..old(self)@ },
                EventView::Begin(input@),
            ),
            consistent(final(self)@),
    {
        proof {
            reveal(turn_step);
        }
        self.before = copy_all(&self.messages);
        self.turn_usage = Usage { input_tokens: 0, output_tokens: 0 };
        if self.started {
            return self.begin(input);
        }
        if self.hooks {
            let prompt = self.system_prompt.clone();
            self.phase = Phase::Starting { input };
            return Step { reports: Vec::new(), action: Action::AskStart(prompt) };
        }
        self.started = true;
        self.begin(input)
    }

    fn on_started(&mut self, input: String, d: HookDecision<String>) -> (r: Step)
        requires
            old(self)@.phase is Idle,
            consistent(SessionView { phase: PhaseView::Starting { input: input@ }, ..old(self)@ }),
            counters_fit(old(self)@, EventView::Started(d@)),
        ensures
            (final(self)@, r@) == turn_step(
                SessionView { phase: PhaseView::Starting { input: input@ }, ..old(self)@ },
                EventView::Started(d@),
            ),
            consistent(final(self)@),
    {
        proof {
            reveal(turn_step);
        }
        match d {
            HookDecision::Allow(prompt) => {
                self.system_prompt = prompt;
                self.started = true;
                self.begin(input)
            },
            HookDecision::Block(reason) => self.fail(Vec::new(), AgentError::HookBlocked(reason)),
        }
    }

    fn on_steered_start(&mut self, texts: Vec<String>) -> (r: Step)
        requires
            old(self)@.phase is Idle,
            consistent(SessionView { phase: PhaseView::SteerStart, ..old(self)@ }),
            counters_fit(old(self)@, EventView::Steered(views(texts@))),
        ensures
            (final(self)@, r@) == turn_step(
                SessionView { phase: PhaseView::SteerStart, ..old(self)@ },
                EventView::Steered(views(texts@)),
            ),
            consistent(final(self)@),
    {
        proof {
            reveal(turn_step);
        }
        self.steer_last(&texts);
        self.turn_count = self.turn_count + 1;
        self.next_round(steering_shown(&texts))
    }

    fn on_compact(&mut self, emergency: bool, v: Veto) -> (r: Step)
        requires
            old(self)@.phase is Idle,
            consistent(SessionView { phase: PhaseView::CompactGate { emergency }, ..old(self)@ }),
            counters_fit(old(self)@, EventView::CompactAnswered(opt_view(v))),
        ensures
            (final(self)@, r@) == turn_step(
                SessionView { phase: PhaseView::CompactGate { emergency }, ..old(self)@ },
                EventView::CompactAnswered(opt_view(v)),
            ),
            consistent(final(self)@),
    {
        proof {
            reveal(turn_step);
        }
        match v {
            Some(reason) => self.fail(end_reports(emergency), AgentError::HookBlocked(reason)),
            None => self.compact(emergency, Vec::new()),
        }
    }

    fn on_summary(&mut self, emergency: bool, m: Option<Message>) -> (r: Step)
        requires
            old(self)@.phase is Idle,
            consistent(SessionView { phase: PhaseView::Summarizing { emergency }, ..old(self)@ }),
            counters_fit(old(self)@, EventView::Summarized(opt_view(m))),
        ensures
            (final(self)@, r@) == turn_step(
                SessionView { phase: PhaseView::Summarizing { emergency }, ..old(self)@ },
                EventView::Summarized(opt_view(m)),
            ),
            consistent(final(self)@),
    {
        proof {
            reveal(turn_step);
        }
        if let Some(msg) = m {
            let text = msg.text();
            if trimmed(text.as_str()).as_str().unicode_len() > 0 {
                self.decision_ledger.push_summary(text);
            }
        }
        self.ask_context(emergency, Vec::new())
    }

    fn on_context(&mut self, retry: bool, d: HookDecision<Vec<Message>>) -> (r: Step)
        requires
            old(self)@.phase is Idle,
            consistent(SessionView { phase: PhaseView::Context { retry }, ..old(self)@ }),
            counters_fit(old(self)@, Event::ContextAnswered(d)@),
        ensures
            (final(self)@, r@) == turn_step(
                SessionView { phase: PhaseView::Context { retry }, ..old(self)@ },
                Event::ContextAnswered(d)@,
            ),
            consistent(final(self)@),
    {
        proof {
            reveal(turn_step);
        }
        match d {
            HookDecision::Allow(messages) => self.request(messages, retry, Vec::new()),
            HookDecision::Block(reason) => self.fail(
                end_reports(retry),
                AgentError::HookBlocked(reason),
            ),
        }
    }

    fn on_completed(&mut self, outgoing: Vec<Message>, attempt: usize, retry: bool, answer: Result<ProviderResponse, ProviderError>) -> (r: Step)
        requires
            old(self)@.phase is Idle,
            consistent(SessionView { phase: PhaseView::Completing { outgoing: views(outgoing@), attempt, retry }, ..old(self)@ }),
            counters_fit(old(self)@, Event::Completed(answer)@),
        ensures
            (final(self)@, r@) == turn_step(
                SessionView { phase: PhaseView::Completing { outgoing: views(outgoing@), attempt, retry }, ..old(self)@ },
                Event::Completed(answer)@,
            ),
            consistent(final(self)@),
    {
        proof {
            reveal(turn_step);
        }
        match answer {
            Ok(response) => self.provider_answered(response),
            Err(error) => self.provider_failed(outgoing, attempt, retry, error),
        }
    }

    fn on_slept(&mut self, outgoing: Vec<Message>, attempt: usize, retry: bool) -> (r: Step)
        requires
            old(self)@.phase is Idle,
            consistent(SessionView { phase: PhaseView::Backoff { outgoing: views(outgoing@), attempt, retry }, ..old(self)@ }),
            counters_fit(old(self)@, EventView::Slept),
        ensures
            (final(self)@, r@) == turn_step(
                SessionView { phase: PhaseView::Backoff { outgoing: views(outgoing@), attempt, retry }, ..old(self)@ },
                EventView::Slept,
            ),
            consistent(final(self)@),
    {
        proof {
            reveal(turn_step);
        }
        let messages = copy_all(&outgoing);
        let system_prompt = self.full_prompt();
        self.phase = Phase::Completing { outgoing, attempt, retry };
        Step { reports: Vec::new(), action: Action::Complete { messages, system_prompt } }
    }

    fn on_budget(&mut self, response: ProviderResponse, v: Veto) -> (r: Step)
        requires
            old(self)@.phase is Idle,
            consistent(SessionView { phase: PhaseView::Budget { response: response@ }, ..old(self)@ }),
            counters_fit(old(self)@, EventView::BudgetAnswered(opt_view(v))),
        ensures
            (final(self)@, r@) == turn_step(
                SessionView { phase: PhaseView::Budget { response: response@ }, ..old(self)@ },
                EventView::BudgetAnswered(opt_view(v)),
            ),
            consistent(final(self)@),
    {
        proof {
            reveal(turn_step);
        }
        match v {
            Some(reason) => self.fail(Vec::new(), AgentError::HookBlocked(reason)),
            None => self.deliver(response, Vec::new()),
        }
    }

    fn on_steered_end(&mut self, message: Message, texts: Vec<String>) -> (r: Step)
        requires
            old(self)@.phase is Idle,
            consistent(SessionView { phase: PhaseView::SteerEnd { message: message@ }, ..old(self)@ }),
            counters_fit(old(self)@, EventView::Steered(views(texts@))),
        ensures
            (final(self)@, r@) == turn_step(
                SessionView { phase: PhaseView::SteerEnd { message: message@ }, ..old(self)@ },
                EventView::Steered(views(texts@)),
            ),
            consistent(final(self)@),
    {
        proof {
            reveal(turn_step);
        }
        if texts.len() == 0 {
            self.before = Vec::new();
            let mut reports: Vec<Report> = Vec::new();
            reports.push(Report::Usage(self.turn_usage));
            assert(views(reports@) =~= seq![ReportView::Usage(self.turn_usage)]);
            return Step { reports, action: Action::Done(message) };
        }
        let mut content: Vec<ContentBlock> = Vec::new();
        for i in 0..texts.len()
            invariant
                content@.len() == i,
                forall|j: int|
                    0 <= j < i ==> (#[trigger] content@[j])@ == BlockView::Text(texts@[j]@),
        {
            content.push(ContentBlock::Text(texts[i].clone()));
        }
        let next = Message { role: Role::User, content, metadata: Json::Null };
        assert(next@ =~= steering_message(views(texts@)));
        self.messages.push(next);
        self.next_round(steering_shown(&texts))
    }

    fn on_tool(&mut self, calls: Vec<ToolCall>, done: Vec<ToolExecOutcome>, outcome: ToolExecOutcome) -> (r: Step)
        requires
            old(self)@.phase is Idle,
            consistent(SessionView { phase: PhaseView::RunningTool { calls: views(calls@), done: views(done@) }, ..old(self)@ }),
            counters_fit(old(self)@, EventView::ToolDone(outcome@)),
        ensures
            (final(self)@, r@) == turn_step(
                SessionView { phase: PhaseView::RunningTool { calls: views(calls@), done: views(done@) }, ..old(self)@ },
                EventView::ToolDone(outcome@),
            ),
            consistent(final(self)@),
    {
        proof {
            reveal(turn_step);
        }
        let mut done = done;
        done.push(outcome);
        self.run_tools(calls, done, Vec::new())
    }

    fn on_batch(&mut self, calls: Vec<ToolCall>, done: Vec<ToolExecOutcome>, batch: Vec<ToolExecOutcome>) -> (r: Step)
        requires
            old(self)@.phase is Idle,
            consistent(SessionView { phase: PhaseView::RunningBatch { calls: views(calls@), done: views(done@) }, ..old(self)@ }),
            counters_fit(old(self)@, EventView::BatchDone(views(batch@))),
        ensures
            (final(self)@, r@) == turn_step(
                SessionView { phase: PhaseView::RunningBatch { calls: views(calls@), done: views(done@) }, ..old(self)@ },
                EventView::BatchDone(views(batch@)),
            ),
            consistent(final(self)@),
    {
        proof {
            reveal(turn_step);
        }
        let together = selected(&calls, true);
        assert(together@.len() == select(views(calls@), true).len());
        if batch.len() == together.len() {
            return self.tools_done(calls, done, batch, Vec::new());
        }
        self.phase = Phase::RunningBatch { calls, done };
        Self::ignored()
    }

    fn on_steered_tools(&mut self, texts: Vec<String>) -> (r: Step)
        requires
            old(self)@.phase is Idle,
            consistent(SessionView { phase: PhaseView::SteerTools, ..old(self)@ }),
            counters_fit(old(self)@, EventView::Steered(views(texts@))),
        ensures
            (final(self)@, r@) == turn_step(
                SessionView { phase: PhaseView::SteerTools, ..old(self)@ },
                EventView::Steered(views(texts@)),
            ),
            consistent(final(self)@),
    {
        proof {
            reveal(turn_step);
        }
        self.steer_last(&texts);
        self.next_round(steering_shown(&texts))
    }

    /// Takes an event and says what is to be done next.
    pub fn step(&mut self, event: Event) -> (r: Step)
        requires
            consistent(old(self)@),
            counters_fit(old(self)@, event@),
        ensures
            (final(self)@, r@) == turn_step(old(self)@, event@),
            consistent(final(self)@),
    {
        let mut phase = Phase::Idle;
        std::mem::swap(&mut phase, &mut self.phase);
        let ghost e = event@;
        proof {
            lemma_ignored(old(self)@, e);
            assert(old(self)@ =~= SessionView { phase: phase@, ..self@ });
        }
        match (phase, event) {
            (Phase::Idle, Event::Begin(input)) => self.on_begin(input),
            (Phase::Starting { input }, Event::Started(d)) => self.on_started(input, d),
            (Phase::SteerStart, Event::Steered(texts)) => self.on_steered_start(texts),
            (Phase::CompactGate { emergency }, Event::CompactAnswered(v)) => self.on_compact(
                emergency,
                v,
            ),
            (Phase::Summarizing { emergency }, Event::Summarized(m)) => self.on_summary(
                emergency,
                m,
            ),
            (Phase::Context { retry }, Event::ContextAnswered(d)) => self.on_context(retry, d),
            (
                Phase::Completing { outgoing, attempt, retry },
                Event::Completed(answer),
            ) => self.on_completed(outgoing, attempt, retry, answer),
            (Phase::Backoff { outgoing, attempt, retry }, Event::Slept) => self.on_slept(
                outgoing,
                attempt,
                retry,
            ),
            (Phase::Budget { response }, Event::BudgetAnswered(v)) => self.on_budget(response, v),
            (Phase::SteerEnd { message }, Event::Steered(texts)) => self.on_steered_end(
                message,
                texts,
            ),
            (Phase::RunningTool { calls, done }, Event::ToolDone(outcome)) => self.on_tool(
                calls,
                done,
                outcome,
            ),
            (Phase::RunningBatch { calls, done }, Event::BatchDone(batch)) => self.on_batch(
                calls,
                done,
                batch,
            ),
            (Phase::SteerTools, Event::Steered(texts)) => self.on_steered_tools(texts),
            (phase, _) => {
                self.phase = phase;
                Self::ignored()
            },
        }
    }

    /// Whether the counters can take what an event brings.
    pub fn fits(&self, event: &Event) -> (r: bool)
        ensures
            r == counters_fit(self@, event@),
    {
        match event {
            Event::Steered(_) => self.turn_count < usize::MAX,
            Event::Completed(Ok(response)) => {
                let u = response.usage;
                self.total_usage.input_tokens <= u32::MAX - u.input_tokens
                    && self.total_usage.output_tokens <= u32::MAX - u.output_tokens
                    && self.turn_usage.input_tokens <= u32::MAX - u.input_tokens
                    && self.turn_usage.output_tokens <= u32::MAX - u.output_tokens
            },
            _ => true,
        }
    }

    /// The transcript so far.
    pub fn messages(&self) -> (r: &Vec<Message>)
        ensures
            views(r@) == self@.messages,
    {
        &self.messages
    }

    /// The system prompt, after a hook may have changed it.
    pub fn system_prompt(&self) -> (r: &str)
        ensures
            r@ == self@.system_prompt,
    {
        self.system_prompt.as_str()
    }

    /// Takes over a saved transcript. The session counts as started and has
    /// recorded nothing.
    pub fn restore(&mut self, system_prompt: String, messages: Vec<Message>)
        requires
            consistent(old(self)@),
        ensures
            final(self)@ == (SessionView {
                system_prompt: system_prompt@,
                messages: views(messages@),
                started: true,
                ledger: LedgerView::empty(),
                phase: PhaseView::Idle,
                before: Seq::empty(),
                ..old(self)@
            }),
            consistent(final(self)@),
    {
        self.system_prompt = system_prompt;
        self.messages = messages;
        self.started = true;
        self.decision_ledger = DecisionLedger::new();
        self.phase = Phase::Idle;
        self.before = Vec::new();
    }

    /// Ends a turn that was interrupted: the transcript keeps the
    /// `pre_turn_len` messages that it had before, whatever the turn did to it.
    pub fn discard_interrupted_turn(&mut self, pre_turn_len: usize)
        requires
            consistent(old(self)@),
        ensures
            final(self)@ == discarded(old(self)@, pre_turn_len as nat),
            consistent(final(self)@),
    {
        let mut phase = Phase::Idle;
        std::mem::swap(&mut phase, &mut self.phase);
        let mut before: Vec<Message> = Vec::new();
        std::mem::swap(&mut before, &mut self.before);
        match phase {
            Phase::Idle => {},
            _ => {
                self.messages = before;
            },
        }
        self.messages.truncate(pre_turn_len);
    }

    /// The name of who answers.
    pub fn provider_id(&self) -> (r: &str)
        ensures
            r@ == self@.provider.id,
    {
        self.provider.id.as_str()
    }

    /// The name of the model that answers.
    pub fn model(&self) -> (r: &str)
        ensures
            r@ == self@.provider.model,
    {
        self.provider.model.as_str()
    }

    /// Lets another provider answer; nothing else changes. Gives what is to be
    /// reported.
    pub fn set_provider(&mut self, provider: ProviderInfo) -> (r: Report)
        requires
            consistent(old(self)@),
        ensures
            final(self)@ == (SessionView { provider: provider@, ..old(self)@ }),
            consistent(final(self)@),
            r@ == (ReportView::ProviderChanged { id: provider@.id, model: provider@.model }),
    {
        let report = Report::ProviderChanged {
            id: provider.id.clone(),
            model: provider.model.clone(),
        };
        self.provider = provider;
        report
    }
}

} // verus!
