//! What holds of whole turns.
use vstd::prelude::*;

use crate::compaction::dedup;
use crate::ledger::{law_recording_keeps_caps, record_messages, with_summary};
use crate::message::{
    message_text, tool_results_view, user_text_view, BlockView, MessageView, OutcomeView,
    ResponseView, Role, ToolCallView, Usage,
};
use crate::provider::{transient_error, MAX_TRANSIENT_RETRIES, ProviderErrorView};
use crate::session::{
    answer_reports, answers, ask_compact, ask_context, block_reports, compact, consistent,
    counters_fit, deliver, is_concurrent, kept, next_round, request, results_of, run_tools, select,
    steer_last, steering_message, steering_reports, tools_done, turn_step, ActionView,
    AgentErrorView, EventView, PhaseView, ReportView, SessionView,
};

verus! {

/// The state after some events.
pub open spec fn run(s: SessionView, es: Seq<EventView>) -> SessionView
    decreases es.len(),
{
    if es.len() == 0 {
        s
    } else {
        turn_step(run(s, es.drop_last()), es.last()).0
    }
}

/// Whether the turn is still running after each of some events.
pub open spec fn keeps_running(s: SessionView, es: Seq<EventView>) -> bool
    decreases es.len(),
{
    if es.len() == 0 {
        !(s.phase is Idle)
    } else {
        keeps_running(s, es.drop_last()) && !(run(s, es).phase is Idle)
    }
}

// ---------------------------------------------------------------------------
// A failed turn leaves no trace in the transcript
// ---------------------------------------------------------------------------

/// A step fails back to the transcript before the turn; any other step of a
/// running turn keeps that transcript in mind.
proof fn lemma_step_and_before(s: SessionView, e: EventView)
    ensures
        turn_step(s, e).1.action is Fail ==> turn_step(s, e).0.messages == s.before && turn_step(
            s,
            e,
        ).0.phase is Idle,
        !(s.phase is Idle) && !(turn_step(s, e).0.phase is Idle) ==> turn_step(s, e).0.before
            == s.before,
{
    reveal(turn_step);
}

proof fn lemma_run_keeps_before(s: SessionView, es: Seq<EventView>)
    requires
        keeps_running(s, es),
    ensures
        run(s, es).before == s.before,
    decreases es.len(),
{
    if es.len() > 0 {
        lemma_run_keeps_before(s, es.drop_last());
        lemma_still_running(s, es.drop_last());
        lemma_step_and_before(run(s, es.drop_last()), es.last());
    }
}

proof fn lemma_still_running(s: SessionView, es: Seq<EventView>)
    requires
        keeps_running(s, es),
    ensures
        !(run(s, es).phase is Idle),
{
}

/// A turn that fails, whenever and for whatever reason, leaves the transcript
/// as it was before the turn.
pub proof fn law_failed_turn_restores_transcript(
    s: SessionView,
    input: Seq<char>,
    es: Seq<EventView>,
    e: EventView,
)
    requires
        s.phase is Idle,
        keeps_running(turn_step(s, EventView::Begin(input)).0, es),
        turn_step(run(turn_step(s, EventView::Begin(input)).0, es), e).1.action is Fail,
    ensures
        turn_step(run(turn_step(s, EventView::Begin(input)).0, es), e).0.messages == s.messages,
{
    let first = turn_step(s, EventView::Begin(input)).0;
    assert(first.before == s.messages) by {
        reveal(turn_step);
    }
    lemma_run_keeps_before(first, es);
    lemma_step_and_before(run(first, es), e);
}

/// An interrupted turn, discarded with the length that the transcript had
/// before it, leaves the transcript as it was.
pub proof fn law_interrupted_turn_restores_transcript(
    s: SessionView,
    input: Seq<char>,
    es: Seq<EventView>,
)
    requires
        s.phase is Idle,
        keeps_running(turn_step(s, EventView::Begin(input)).0, es),
    ensures
        crate::session::discarded(
            run(turn_step(s, EventView::Begin(input)).0, es),
            s.messages.len(),
        ).messages == s.messages,
{
    let first = turn_step(s, EventView::Begin(input)).0;
    assert(first.before == s.messages) by {
        reveal(turn_step);
    }
    lemma_run_keeps_before(first, es);
    lemma_still_running(first, es);
}

// ---------------------------------------------------------------------------
// Invariants
// ---------------------------------------------------------------------------

/// Each step keeps the state consistent; in particular a request is never
/// retried more often than allowed.
pub proof fn law_steps_keep_consistent(s: SessionView, e: EventView)
    requires
        consistent(s),
    ensures
        consistent(turn_step(s, e).0),
{
    reveal(turn_step);
    match (s.phase, e) {
        (PhaseView::SteerStart, EventView::Steered(texts)) => {
            lemma_round_consistent(
                SessionView {
                    messages: steer_last(s.messages, texts),
                    turn_count: (s.turn_count + 1) as usize,
                    ..s
                },
                crate::session::steering_reports(texts),
            );
        },
        (PhaseView::CompactGate { emergency }, EventView::CompactAnswered(v)) => {
            lemma_compact_consistent(s, emergency, Seq::empty());
        },
        (PhaseView::Completing { .. }, EventView::Completed(r)) => {
            lemma_compact_consistent(s, true, Seq::empty());
        },
        (PhaseView::SteerEnd { message }, EventView::Steered(texts)) => {
            lemma_round_consistent(
                SessionView { messages: s.messages.push(steering_message(texts)), ..s },
                crate::session::steering_reports(texts),
            );
        },
        (PhaseView::SteerTools, EventView::Steered(texts)) => {
            lemma_round_consistent(
                SessionView { messages: steer_last(s.messages, texts), ..s },
                crate::session::steering_reports(texts),
            );
        },
        _ => {},
    }
}

proof fn lemma_compact_consistent(s: SessionView, emergency: bool, reports: Seq<ReportView>)
    requires
        s.ledger.within_caps(),
    ensures
        consistent(compact(s, emergency, reports).0),
{
    law_recording_keeps_caps(
        s.ledger,
        s.messages.subrange(0, s.messages.len() - kept(emergency)),
    );
}

proof fn lemma_round_consistent(s: SessionView, reports: Seq<ReportView>)
    requires
        s.ledger.within_caps(),
    ensures
        consistent(next_round(s, reports).0),
{
    lemma_compact_consistent(
        SessionView { messages: dedup(s.messages), ..s },
        false,
        reports,
    );
}

/// The message with which a turn ends is the last of the transcript.
pub proof fn law_final_message_is_last(s: SessionView, e: EventView)
    requires
        consistent(s),
        turn_step(s, e).1.action is Done,
    ensures
        turn_step(s, e).0.messages.len() > 0,
        turn_step(s, e).0.messages.last() == turn_step(s, e).1.action->Done_0,
{
    reveal(turn_step);
}

/// Whether a message is the assistant's.
pub open spec fn by_assistant(m: MessageView) -> bool {
    m.role == Role::Assistant
}

/// Whether the assistant and the other side take turns.
pub open spec fn alternates(ms: Seq<MessageView>) -> bool {
    forall|i: int, j: int|
        0 <= i && j == i + 1 && j < ms.len() ==> by_assistant(#[trigger] ms[i]) != by_assistant(
            #[trigger] ms[j],
        )
}

/// Whether the next message is the assistant's to write.
pub open spec fn assistant_is_next(ms: Seq<MessageView>) -> bool {
    ms.len() > 0 && !by_assistant(ms.last())
}

/// Whether the next message is the user's to write.
pub open spec fn user_is_next(ms: Seq<MessageView>) -> bool {
    ms.len() == 0 || by_assistant(ms.last())
}

/// A state whose transcript alternates, with the right side to speak next.
pub open spec fn in_order(s: SessionView) -> bool {
    &&& alternates(s.messages)
    &&& !(s.phase is Idle) ==> alternates(s.before) && user_is_next(s.before)
    &&& match s.phase {
        PhaseView::Idle => user_is_next(s.messages),
        PhaseView::Starting { .. } => user_is_next(s.messages),
        PhaseView::SteerEnd { .. } => s.messages.len() > 0 && user_is_next(s.messages),
        PhaseView::RunningTool { .. } => s.messages.len() > 0 && user_is_next(s.messages),
        PhaseView::RunningBatch { .. } => s.messages.len() > 0 && user_is_next(s.messages),
        PhaseView::Budget { response } => assistant_is_next(s.messages) && by_assistant(
            response.message,
        ),
        PhaseView::Completing { outgoing, .. } => assistant_is_next(s.messages) && (!s.hooks
            ==> outgoing == s.messages),
        PhaseView::Backoff { outgoing, .. } => assistant_is_next(s.messages) && (!s.hooks
            ==> outgoing == s.messages),
        PhaseView::Context { .. } => s.hooks && assistant_is_next(s.messages),
        _ => assistant_is_next(s.messages),
    }
}

/// Whether what a provider answers is the assistant's.
pub open spec fn answers_as_assistant(e: EventView) -> bool {
    match e {
        EventView::Completed(Ok(r)) => by_assistant(r.message),
        _ => true,
    }
}

proof fn lemma_alternates_push(ms: Seq<MessageView>, m: MessageView)
    requires
        alternates(ms),
        ms.len() > 0 ==> by_assistant(ms.last()) != by_assistant(m),
    ensures
        alternates(ms.push(m)),
{
    assert forall|i: int, j: int| 0 <= i && j == i + 1 && j < ms.push(m).len() implies by_assistant(
        #[trigger] ms.push(m)[i],
    ) != by_assistant(#[trigger] ms.push(m)[j]) by {
        if j < ms.len() {
            assert(by_assistant(ms[i]) != by_assistant(ms[j]));
        }
    }
}

proof fn lemma_alternates_same_roles(a: Seq<MessageView>, b: Seq<MessageView>)
    requires
        a.len() == b.len(),
        forall|i: int| 0 <= i < a.len() ==> (#[trigger] b[i]).role == a[i].role,
    ensures
        alternates(a) ==> alternates(b),
        assistant_is_next(a) ==> assistant_is_next(b),
        user_is_next(a) ==> user_is_next(b),
{
    if alternates(a) {
        assert forall|i: int, j: int| 0 <= i && j == i + 1 && j < b.len() implies by_assistant(
            #[trigger] b[i],
        ) != by_assistant(#[trigger] b[j]) by {
            assert(by_assistant(a[i]) != by_assistant(a[j]));
        }
    }
}

proof fn lemma_alternates_suffix(ms: Seq<MessageView>, n: int)
    requires
        0 <= n < ms.len(),
        alternates(ms),
    ensures
        alternates(ms.subrange(n, ms.len() as int)),
        assistant_is_next(ms) ==> assistant_is_next(ms.subrange(n, ms.len() as int)),
{
    let t = ms.subrange(n, ms.len() as int);
    assert forall|i: int, j: int| 0 <= i && j == i + 1 && j < t.len() implies by_assistant(
        #[trigger] t[i],
    ) != by_assistant(#[trigger] t[j]) by {
        assert(by_assistant(ms[i + n]) != by_assistant(ms[j + n]));
    }
}

proof fn lemma_compact_in_order(s: SessionView, emergency: bool, reports: Seq<ReportView>)
    requires
        alternates(s.messages),
        assistant_is_next(s.messages),
        alternates(s.before),
        user_is_next(s.before),
    ensures
        in_order(compact(s, emergency, reports).0),
{
    if s.messages.len() > kept(emergency) {
        lemma_alternates_suffix(s.messages, s.messages.len() - kept(emergency));
    }
}

proof fn lemma_round_in_order(s: SessionView, reports: Seq<ReportView>)
    requires
        alternates(s.messages),
        assistant_is_next(s.messages),
        alternates(s.before),
        user_is_next(s.before),
    ensures
        in_order(next_round(s, reports).0),
{
    lemma_alternates_same_roles(s.messages, dedup(s.messages));
    let d = SessionView { messages: dedup(s.messages), ..s };
    lemma_compact_in_order(d, false, reports);
}

proof fn lemma_deliver_in_order(s: SessionView, r: ResponseView, reports: Seq<ReportView>)
    requires
        alternates(s.messages),
        assistant_is_next(s.messages),
        alternates(s.before),
        user_is_next(s.before),
        by_assistant(r.message),
    ensures
        in_order(deliver(s, r, reports).0),
{
    lemma_alternates_push(s.messages, r.message);
    let t = SessionView { messages: s.messages.push(r.message), ..s };
    let calls = crate::message::calls_of(r.message.content);
    lemma_run_tools_in_order(
        t,
        calls,
        Seq::empty(),
        reports + crate::session::block_reports(r.message.content),
    );
}

proof fn lemma_run_tools_in_order(
    s: SessionView,
    calls: Seq<ToolCallView>,
    done: Seq<OutcomeView>,
    reports: Seq<ReportView>,
)
    requires
        alternates(s.messages),
        s.messages.len() > 0,
        user_is_next(s.messages),
        alternates(s.before),
        user_is_next(s.before),
    ensures
        in_order(run_tools(s, calls, done, reports).0),
        forall|batch: Seq<OutcomeView>|
            in_order((#[trigger] tools_done(s, calls, done, batch, reports)).0),
{
    assert forall|batch: Seq<OutcomeView>| in_order(
        (#[trigger] tools_done(s, calls, done, batch, reports)).0,
    ) by {
        lemma_alternates_push(s.messages, tool_results_view(results_of(calls, done, batch)));
    }
}

/// As long as the provider answers in the assistant's name, the assistant and
/// the other side take turns in the transcript, through tool calls, queued
/// texts, dropped messages, failures and retries.
pub proof fn law_roles_alternate(s: SessionView, e: EventView)
    requires
        in_order(s),
        answers_as_assistant(e),
    ensures
        in_order(turn_step(s, e).0),
{
    reveal(turn_step);
    match (s.phase, e) {
        (PhaseView::Idle, EventView::Begin(input)) => {
            lemma_alternates_push(s.messages, user_text_view(input));
        },
        (PhaseView::Starting { input }, EventView::Started(d)) => {
            lemma_alternates_push(s.messages, user_text_view(input));
        },
        (PhaseView::SteerStart, EventView::Steered(texts)) => {
            lemma_alternates_same_roles(s.messages, steer_last(s.messages, texts));
            lemma_round_in_order(
                SessionView {
                    messages: steer_last(s.messages, texts),
                    turn_count: (s.turn_count + 1) as usize,
                    ..s
                },
                crate::session::steering_reports(texts),
            );
        },
        (PhaseView::CompactGate { emergency }, EventView::CompactAnswered(v)) => {
            lemma_compact_in_order(s, emergency, Seq::empty());
        },
        (PhaseView::Completing { outgoing, attempt, retry }, EventView::Completed(r)) => {
            match r {
                Ok(response) => {
                    let t = SessionView {
                        last_input_tokens: Some(response.usage.input_tokens),
                        turn_usage: crate::session::plus(s.turn_usage, response.usage),
                        total_usage: crate::session::plus(s.total_usage, response.usage),
                        ..s
                    };
                    lemma_deliver_in_order(
                        t,
                        response,
                        crate::session::answer_reports(response.message),
                    );
                },
                Err(err) => {
                    lemma_compact_in_order(s, true, Seq::empty());
                },
            }
        },
        (PhaseView::Budget { response }, EventView::BudgetAnswered(v)) => {
            lemma_deliver_in_order(s, response, Seq::empty());
        },
        (PhaseView::SteerEnd { message }, EventView::Steered(texts)) => {
            lemma_alternates_push(s.messages, steering_message(texts));
            lemma_round_in_order(
                SessionView { messages: s.messages.push(steering_message(texts)), ..s },
                crate::session::steering_reports(texts),
            );
        },
        (PhaseView::RunningTool { calls, done }, EventView::ToolDone(o)) => {
            lemma_run_tools_in_order(s, calls, done.push(o), Seq::empty());
        },
        (PhaseView::RunningBatch { calls, done }, EventView::BatchDone(batch)) => {
            lemma_run_tools_in_order(s, calls, done, Seq::empty());
        },
        (PhaseView::SteerTools, EventView::Steered(texts)) => {
            lemma_alternates_same_roles(s.messages, steer_last(s.messages, texts));
            lemma_round_in_order(
                SessionView { messages: steer_last(s.messages, texts), ..s },
                crate::session::steering_reports(texts),
            );
        },
        _ => {},
    }
}

/// Where no hook changes what is sent, every request to the provider
/// alternates and leaves the assistant to speak.
pub proof fn law_requests_alternate(s: SessionView, e: EventView)
    requires
        in_order(s),
        answers_as_assistant(e),
        !s.hooks,
        turn_step(s, e).1.action is Complete,
    ensures
        alternates(turn_step(s, e).1.action->Complete_messages),
        assistant_is_next(turn_step(s, e).1.action->Complete_messages),
{
    law_roles_alternate(s, e);
    lemma_request_is_waited_for(s, e);
}

proof fn lemma_request_is_waited_for(s: SessionView, e: EventView)
    requires
        turn_step(s, e).1.action is Complete,
    ensures
        turn_step(s, e).0.hooks == s.hooks,
        turn_step(s, e).0.phase is Completing,
        turn_step(s, e).0.phase->Completing_outgoing == turn_step(
            s,
            e,
        ).1.action->Complete_messages,
{
    reveal(turn_step);
}

// ---------------------------------------------------------------------------
// Tool calls and usage
// ---------------------------------------------------------------------------

/// Every call is answered, under its own id and in the order of the calls,
/// whether it ran alone or with others.
pub proof fn law_every_call_is_answered(
    calls: Seq<ToolCallView>,
    done: Seq<OutcomeView>,
    batch: Seq<OutcomeView>,
)
    ensures
        results_of(calls, done, batch).len() == calls.len(),
        forall|i: int|
            0 <= i < calls.len() ==> (#[trigger] results_of(calls, done, batch)[i]).tool_call_id
                == calls[i].id,
    decreases calls.len(),
{
    if calls.len() > 0 {
        if is_concurrent(calls.last()) {
            law_every_call_is_answered(calls.drop_last(), done, batch.drop_last());
        } else {
            law_every_call_is_answered(calls.drop_last(), done.drop_last(), batch);
        }
    }
}

/// The input and output tokens that the provider's answers cost, for the events
/// that answer what the session waits for.
pub open spec fn cost(s: SessionView, es: Seq<EventView>) -> (nat, nat)
    decreases es.len(),
{
    if es.len() == 0 {
        (0, 0)
    } else {
        let before = cost(s, es.drop_last());
        match (run(s, es.drop_last()).phase, es.last()) {
            (PhaseView::Completing { .. }, EventView::Completed(Ok(r))) => (
                before.0 + r.usage.input_tokens as nat,
                before.1 + r.usage.output_tokens as nat,
            ),
            _ => before,
        }
    }
}

/// Whether the counters can take each of some events.
pub open spec fn all_fit(s: SessionView, es: Seq<EventView>) -> bool
    decreases es.len(),
{
    es.len() == 0 || (all_fit(s, es.drop_last()) && counters_fit(
        run(s, es.drop_last()),
        es.last(),
    ))
}

proof fn lemma_step_usage(s: SessionView, e: EventView)
    requires
        counters_fit(s, e),
        !(s.phase is Idle),
    ensures
        ({
            let t = turn_step(s, e).0;
            match (s.phase, e) {
                (PhaseView::Completing { .. }, EventView::Completed(Ok(r))) => {
                    &&& t.turn_usage.input_tokens == s.turn_usage.input_tokens
                        + r.usage.input_tokens
                    &&& t.turn_usage.output_tokens == s.turn_usage.output_tokens
                        + r.usage.output_tokens
                },
                _ => t.turn_usage == s.turn_usage,
            }
        }),
        turn_step(s, e).1.action is Done ==> turn_step(s, e).1.reports.last() == ReportView::Usage(
            turn_step(s, e).0.turn_usage,
        ),
{
    reveal(turn_step);
}

/// The usage of a turn is the sum over all answers that the provider gave in
/// it, and that is what is shown when the turn ends.
pub proof fn law_turn_usage_is_the_sum(s: SessionView, input: Seq<char>, es: Seq<EventView>)
    requires
        s.phase is Idle,
        keeps_running(turn_step(s, EventView::Begin(input)).0, es),
        all_fit(turn_step(s, EventView::Begin(input)).0, es),
    ensures
        ({
            let first = turn_step(s, EventView::Begin(input)).0;
            &&& run(first, es).turn_usage.input_tokens == cost(first, es).0
            &&& run(first, es).turn_usage.output_tokens == cost(first, es).1
            &&& forall|e: EventView|
                (#[trigger] turn_step(run(first, es), e)).1.action is Done && counters_fit(
                    run(first, es),
                    e,
                ) ==> turn_step(run(first, es), e).1.reports.last() == ReportView::Usage(
                    run(first, es).turn_usage,
                )
        }),
    decreases es.len(),
{
    let first = turn_step(s, EventView::Begin(input)).0;
    if es.len() == 0 {
        reveal(turn_step);
    } else {
        law_turn_usage_is_the_sum(s, input, es.drop_last());
        lemma_still_running(first, es.drop_last());
        lemma_step_usage(run(first, es.drop_last()), es.last());
    }
    lemma_still_running(first, es);
    assert forall|e: EventView|
        (#[trigger] turn_step(run(first, es), e)).1.action is Done && counters_fit(
            run(first, es),
            e,
        ) implies turn_step(run(first, es), e).1.reports.last() == ReportView::Usage(
        run(first, es).turn_usage,
    ) by {
        lemma_step_usage(run(first, es), e);
        lemma_done_keeps_usage(run(first, es), e);
    }
}

proof fn lemma_done_keeps_usage(s: SessionView, e: EventView)
    requires
        turn_step(s, e).1.action is Done,
    ensures
        turn_step(s, e).0.turn_usage == s.turn_usage,
{
    reveal(turn_step);
}

// ---------------------------------------------------------------------------
// The start and the end of the provider's turn
// ---------------------------------------------------------------------------

/// How many starts of the provider's turn were reported more than ends.
pub open spec fn open_turns(reports: Seq<ReportView>) -> int
    decreases reports.len(),
{
    if reports.len() == 0 {
        0
    } else {
        open_turns(reports.drop_last()) + match reports.last() {
            ReportView::TurnStart => 1int,
            ReportView::TurnEnd => -1int,
            _ => 0int,
        }
    }
}

/// Whether the provider's turn has started and not ended.
pub open spec fn is_providers_turn(p: PhaseView) -> bool {
    match p {
        PhaseView::Completing { .. } => true,
        PhaseView::Backoff { .. } => true,
        PhaseView::CompactGate { emergency } => emergency,
        PhaseView::Summarizing { emergency } => emergency,
        PhaseView::Context { retry } => retry,
        _ => false,
    }
}

/// Everything that is reported on some events.
pub open spec fn reported(s: SessionView, es: Seq<EventView>) -> Seq<ReportView>
    decreases es.len(),
{
    if es.len() == 0 {
        Seq::empty()
    } else {
        reported(s, es.drop_last()) + turn_step(run(s, es.drop_last()), es.last()).1.reports
    }
}

proof fn lemma_open_turns_of_both(a: Seq<ReportView>, b: Seq<ReportView>)
    ensures
        open_turns(a + b) == open_turns(a) + open_turns(b),
    decreases b.len(),
{
    if b.len() == 0 {
        assert(a + b =~= a);
    } else {
        lemma_open_turns_of_both(a, b.drop_last());
        assert((a + b).drop_last() =~= a + b.drop_last());
    }
}

proof fn lemma_no_turns(reports: Seq<ReportView>)
    requires
        forall|i: int|
            0 <= i < reports.len() ==> !((#[trigger] reports[i]) is TurnStart) && !(
            reports[i] is TurnEnd),
    ensures
        open_turns(reports) == 0,
    decreases reports.len(),
{
    if reports.len() > 0 {
        assert(!(reports.last() is TurnStart) && !(reports.last() is TurnEnd));
        lemma_no_turns(reports.drop_last());
    }
}

proof fn lemma_blocks_no_turns(blocks: Seq<BlockView>)
    ensures
        open_turns(block_reports(blocks)) == 0,
    decreases blocks.len(),
{
    if blocks.len() > 0 {
        lemma_blocks_no_turns(blocks.drop_last());
        let rest = block_reports(blocks.drop_last());
        match blocks.last() {
            BlockView::Text(t) => {
                assert(rest.push(ReportView::AssistantText(t)).drop_last() =~= rest);
            },
            BlockView::Thinking { text, .. } => {
                assert(rest.push(ReportView::Thinking(text)).drop_last() =~= rest);
            },
            _ => {},
        }
    }
}

proof fn lemma_answer_ends_turn(m: MessageView)
    ensures
        open_turns(answer_reports(m)) == -1,
{
    let all = answer_reports(m);
    lemma_no_turns(all.drop_last());
}

proof fn lemma_context_turns(s: SessionView, retry: bool, reports: Seq<ReportView>)
    ensures
        ({
            let (t, step) = ask_context(s, retry, reports);
            open_turns(step.reports) + (if retry {
                1int
            } else {
                0
            }) == open_turns(reports) + (if is_providers_turn(t.phase) {
                1int
            } else {
                0
            })
        }),
{
    assert(reports.push(ReportView::TurnStart).drop_last() =~= reports);
}

proof fn lemma_compact_turns(s: SessionView, emergency: bool, reports: Seq<ReportView>)
    ensures
        ({
            let (t, step) = ask_compact(s, emergency, reports);
            open_turns(step.reports) + (if emergency {
                1int
            } else {
                0
            }) == open_turns(reports) + (if is_providers_turn(t.phase) {
                1int
            } else {
                0
            })
        }),
        ({
            let (t, step) = compact(s, emergency, reports);
            open_turns(step.reports) + (if emergency {
                1int
            } else {
                0
            }) == open_turns(reports) + (if is_providers_turn(t.phase) {
                1int
            } else {
                0
            })
        }),
{
    lemma_context_turns(s, emergency, reports);
    if s.messages.len() > kept(emergency) {
        let n = s.messages.len() - kept(emergency);
        let t = SessionView {
            messages: s.messages.subrange(n, s.messages.len() as int),
            ledger: record_messages(s.ledger, s.messages.subrange(0, n)),
            ..s
        };
        lemma_context_turns(t, emergency, reports);
    }
}

proof fn lemma_step_turns(s: SessionView, e: EventView)
    ensures
        ({
            let (t, step) = turn_step(s, e);
            open_turns(step.reports) + (if is_providers_turn(s.phase) {
                1int
            } else {
                0
            }) == if is_providers_turn(t.phase) {
                1int
            } else {
                0
            }
        }),
{
    reveal(turn_step);
    reveal_with_fuel(open_turns, 2);
    match e {
        EventView::Steered(texts) => {
            let shown = steering_reports(texts);
            lemma_no_turns(shown);
            let started = SessionView {
                messages: steer_last(s.messages, texts),
                turn_count: (s.turn_count + 1) as usize,
                ..s
            };
            let ended = SessionView { messages: s.messages.push(steering_message(texts)), ..s };
            let answered = SessionView { messages: steer_last(s.messages, texts), ..s };
            lemma_round_turns(started, shown);
            lemma_round_turns(ended, shown);
            lemma_round_turns(answered, shown);
        },
        EventView::CompactAnswered(_) => {
            lemma_compact_turns(s, true, Seq::empty());
            lemma_compact_turns(s, false, Seq::empty());
        },
        EventView::Summarized(m) => {
            lemma_context_turns(s, true, Seq::empty());
            lemma_context_turns(s, false, Seq::empty());
            if let Some(msg) = m {
                let t = SessionView { ledger: with_summary(s.ledger, message_text(msg)), ..s };
                lemma_context_turns(t, true, Seq::empty());
                lemma_context_turns(t, false, Seq::empty());
            }
        },
        EventView::ContextAnswered(_) => {
            assert(Seq::<ReportView>::empty().push(ReportView::TurnStart).drop_last()
                =~= Seq::<ReportView>::empty());
        },
        EventView::Completed(answer) => {
            match answer {
                Ok(r) => {
                    lemma_answer_ends_turn(r.message);
                    lemma_blocks_no_turns(r.message.content);
                    lemma_open_turns_of_both(
                        answer_reports(r.message),
                        block_reports(r.message.content),
                    );
                },
                Err(_) => {
                    lemma_compact_turns(s, true, Seq::empty());
                },
            }
        },
        EventView::BudgetAnswered(_) => {
            if let PhaseView::Budget { response } = s.phase {
                let shown = block_reports(response.message.content);
                lemma_blocks_no_turns(response.message.content);
                assert(Seq::<ReportView>::empty() + shown =~= shown);
            }
        },
        _ => {},
    }
}

proof fn lemma_round_turns(s0: SessionView, reports: Seq<ReportView>)
    ensures
        ({
            let (t, step) = next_round(s0, reports);
            open_turns(step.reports) == open_turns(reports) + (if is_providers_turn(t.phase) {
                1int
            } else {
                0
            })
        }),
{
    let s = SessionView { messages: dedup(s0.messages), ..s0 };
    lemma_compact_turns(s, false, reports);
    lemma_context_turns(s, false, reports);
}

/// The provider's turn is reported to start and to end in turns, and once a
/// turn is over, with an answer or an error, each start has its end.
pub proof fn law_starts_and_ends_pair(s: SessionView, es: Seq<EventView>)
    requires
        s.phase is Idle,
    ensures
        open_turns(reported(s, es)) == if is_providers_turn(run(s, es).phase) {
            1int
        } else {
            0
        },
        run(s, es).phase is Idle ==> open_turns(reported(s, es)) == 0,
    decreases es.len(),
{
    if es.len() > 0 {
        law_starts_and_ends_pair(s, es.drop_last());
        lemma_step_turns(run(s, es.drop_last()), es.last());
        lemma_open_turns_of_both(
            reported(s, es.drop_last()),
            turn_step(run(s, es.drop_last()), es.last()).1.reports,
        );
    }
}

// ---------------------------------------------------------------------------
// Hooks, retries and concurrent calls
// ---------------------------------------------------------------------------

proof fn lemma_step_started(s: SessionView, e: EventView)
    ensures
        s.started ==> turn_step(s, e).0.started && !(turn_step(s, e).1.action is AskStart),
        ({
            let t = turn_step(s, e).0;
            (s.started || s.phase is Idle || s.phase is Starting) ==> (t.started || t.phase is Idle
                || t.phase is Starting)
        }),
        turn_step(s, e).1.action is Complete || turn_step(s, e).1.action is Summarize
            ==> !(turn_step(s, e).0.phase is Idle) && !(turn_step(s, e).0.phase is Starting),
{
    reveal(turn_step);
}

/// The hook on the start has been passed before anything is asked of the
/// provider, and once it has, it is not asked again.
pub proof fn law_start_hook_comes_first_and_once(s: SessionView, es: Seq<EventView>, e: EventView)
    requires
        s.phase is Idle,
    ensures
        ({
            let before = run(s, es);
            let (after, step) = turn_step(before, e);
            &&& step.action is Complete || step.action is Summarize ==> after.started
            &&& before.started ==> after.started && !(step.action is AskStart)
        }),
{
    lemma_run_started(s, es);
    lemma_step_started(run(s, es), e);
}

proof fn lemma_run_started(s: SessionView, es: Seq<EventView>)
    requires
        s.phase is Idle,
    ensures
        ({
            let t = run(s, es);
            t.started || t.phase is Idle || t.phase is Starting
        }),
    decreases es.len(),
{
    if es.len() > 0 {
        lemma_run_started(s, es.drop_last());
        lemma_step_started(run(s, es.drop_last()), es.last());
    }
}

/// How often a request was retried so far.
pub open spec fn retries(p: PhaseView) -> nat {
    match p {
        PhaseView::Completing { attempt, .. } => attempt as nat,
        PhaseView::Backoff { attempt, .. } => attempt as nat,
        _ => 0,
    }
}

proof fn lemma_step_retries(s: SessionView, e: EventView)
    requires
        retries(s.phase) <= MAX_TRANSIENT_RETRIES,
    ensures
        retries(turn_step(s, e).0.phase) <= MAX_TRANSIENT_RETRIES,
{
    reveal(turn_step);
}

/// No request is retried more often than the limit allows, whatever happens.
pub proof fn law_retries_are_bounded(s: SessionView, es: Seq<EventView>)
    requires
        s.phase is Idle,
    ensures
        retries(run(s, es).phase) <= MAX_TRANSIENT_RETRIES,
    decreases es.len(),
{
    if es.len() > 0 {
        law_retries_are_bounded(s, es.drop_last());
        lemma_step_retries(run(s, es.drop_last()), es.last());
    }
}

/// A request that is too large is made smaller once: where the smaller one is
/// too large as well, the turn fails.
pub proof fn law_too_large_is_made_smaller_once(
    s: SessionView,
    outgoing: Seq<MessageView>,
    attempt: usize,
    e: ProviderErrorView,
)
    requires
        s.phase == (PhaseView::Completing { outgoing, attempt, retry: true }),
        !transient_error(e),
    ensures
        turn_step(s, EventView::Completed(Err(e))).1.action == ActionView::Fail(
            AgentErrorView::Provider(e),
        ),
{
    reveal(turn_step);
}

proof fn lemma_selected(calls: Seq<ToolCallView>, concurrent: bool)
    ensures
        forall|i: int|
            0 <= i < select(calls, concurrent).len() ==> is_concurrent(
                #[trigger] select(calls, concurrent)[i],
            ) == concurrent,
    decreases calls.len(),
{
    if calls.len() > 0 {
        lemma_selected(calls.drop_last(), concurrent);
        let rest = select(calls.drop_last(), concurrent);
        let all = select(calls, concurrent);
        assert forall|i: int| 0 <= i < all.len() implies is_concurrent(#[trigger] all[i])
            == concurrent by {
            if i < rest.len() {
                assert(all[i] == rest[i]);
            }
        }
    }
}

/// Only delegations run together; every other call runs by itself.
pub proof fn law_only_delegations_run_together(
    s: SessionView,
    calls: Seq<ToolCallView>,
    done: Seq<OutcomeView>,
    reports: Seq<ReportView>,
)
    ensures
        match run_tools(s, calls, done, reports).1.action {
            ActionView::RunTool(c) => !is_concurrent(c),
            ActionView::RunBatch(cs) => forall|i: int|
                0 <= i < cs.len() ==> is_concurrent(#[trigger] cs[i]),
            _ => true,
        },
{
    lemma_selected(calls, false);
    lemma_selected(calls, true);
}

} // verus!
