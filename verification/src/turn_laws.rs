//! What each step of a turn does, told by what goes in and what comes out.
use vstd::prelude::*;

use crate::compaction::dedup;
use crate::hooks::DecisionView;
use crate::ledger::{ledger_text, record_messages, transcript_lines, with_summary};
use crate::message::{
    calls_of, message_text, texts_of, BlockView, MessageView, OutcomeView, ResponseView, Role,
    StopReason, ToolCallView, ToolResultContentView, ToolResultView,
};
use crate::provider::{
    backoff_secs, context_length_error, error_text, transient_error, ProviderErrorView,
};
use crate::session::{
    answer_reports, block_reports, consistent, counters_fit, discarded, fresh, results_of, select,
    turn_step, ActionView, AgentErrorView, EventView, PhaseView, ProviderView, ReportView,
    SessionView,
};
use crate::text::{join, trim};

verus! {

// ---------------------------------------------------------------------------
// Tool calls
// ---------------------------------------------------------------------------

/// How many of some calls are delegations to another agent.
pub open spec fn delegations(calls: Seq<ToolCallView>) -> nat
    decreases calls.len(),
{
    if calls.len() == 0 {
        0
    } else {
        delegations(calls.drop_last()) + if calls.last().name == "agent"@ {
            1nat
        } else {
            0
        }
    }
}

/// How many calls before the `i`-th are of its kind: delegations, or other ones.
pub open spec fn alike_before(calls: Seq<ToolCallView>, i: int) -> int {
    if calls[i].name == "agent"@ {
        delegations(calls.take(i)) as int
    } else {
        i - delegations(calls.take(i))
    }
}

proof fn lemma_delegations_of_prefix(calls: Seq<ToolCallView>, i: int)
    requires
        0 <= i <= calls.len(),
    ensures
        delegations(calls.take(i)) <= delegations(calls),
        i - delegations(calls.take(i)) <= calls.len() - delegations(calls),
        delegations(calls.take(i)) <= i,
        i < calls.len() && calls[i].name == "agent"@ ==> delegations(calls.take(i)) < delegations(
            calls,
        ),
        i < calls.len() && calls[i].name != "agent"@ ==> i - delegations(calls.take(i))
            < calls.len() - delegations(calls),
    decreases calls.len(),
{
    if i == calls.len() {
        assert(calls.take(i) =~= calls);
        if calls.len() > 0 {
            lemma_delegations_of_prefix(calls.drop_last(), i - 1);
        }
    } else {
        lemma_delegations_of_prefix(calls.drop_last(), i);
        assert(calls.drop_last().take(i) =~= calls.take(i));
    }
}

proof fn lemma_selected_by_kind(calls: Seq<ToolCallView>)
    ensures
        select(calls, true).len() == delegations(calls),
        select(calls, false).len() == calls.len() - delegations(calls),
        forall|i: int|
            0 <= i < calls.len() ==> select(calls, (#[trigger] calls[i]).name
                == "agent"@)[alike_before(calls, i)] == calls[i],
    decreases calls.len(),
{
    if calls.len() > 0 {
        let rest = calls.drop_last();
        lemma_selected_by_kind(rest);
        assert forall|i: int| 0 <= i < calls.len() implies select(
            calls,
            (#[trigger] calls[i]).name == "agent"@,
        )[alike_before(calls, i)] == calls[i] by {
            if i < rest.len() {
                assert(rest.take(i) =~= calls.take(i));
                assert(rest[i] == calls[i]);
                lemma_delegations_of_prefix(rest, i);
            } else {
                assert(calls.take(i) =~= rest);
            }
        }
    }
}

/// Each call is answered, in the order of the calls, under its own id and with
/// what came of it: the outcome that was handed back for it, in the order of the
/// calls of its kind, with its content and its error flag.
pub proof fn law_each_call_gets_its_own_outcome(
    calls: Seq<ToolCallView>,
    done: Seq<OutcomeView>,
    batch: Seq<OutcomeView>,
    i: int,
)
    requires
        done.len() == calls.len() - delegations(calls),
        batch.len() == delegations(calls),
        0 <= i < calls.len(),
    ensures
        results_of(calls, done, batch).len() == calls.len(),
        ({
            let outcome = if calls[i].name == "agent"@ {
                batch[alike_before(calls, i)]
            } else {
                done[alike_before(calls, i)]
            };
            results_of(calls, done, batch)[i] == (ToolResultView {
                tool_call_id: calls[i].id,
                content: ToolResultContentView::Text(outcome.content),
                is_error: outcome.is_error,
            })
        }),
    decreases calls.len(),
{
    let rest = calls.drop_last();
    reveal_with_fuel(results_of, 2);
    lemma_delegations_of_prefix(calls, rest.len() as int);
    assert(calls.take(rest.len() as int) =~= rest);
    lemma_delegations_of_prefix(rest, rest.len() as int);
    assert(rest.take(rest.len() as int) =~= rest);
    let (done2, batch2) = if calls.last().name == "agent"@ {
        (done, batch.drop_last())
    } else {
        (done.drop_last(), batch)
    };
    if i < rest.len() {
        law_each_call_gets_its_own_outcome(rest, done2, batch2, i);
        assert(rest.take(i) =~= calls.take(i));
        lemma_delegations_of_prefix(rest, i);
    } else if rest.len() > 0 {
        law_each_call_gets_its_own_outcome(rest, done2, batch2, 0);
    }
}

/// The outcome of the `i`-th call, once the last event is in.
pub open spec fn outcome_for(
    calls: Seq<ToolCallView>,
    done: Seq<OutcomeView>,
    e: EventView,
    i: int,
) -> OutcomeView {
    match e {
        EventView::ToolDone(o) => done.push(o)[alike_before(calls, i)],
        EventView::BatchDone(batch) => if calls[i].name == "agent"@ {
            batch[alike_before(calls, i)]
        } else {
            done[alike_before(calls, i)]
        },
        _ => arbitrary(),
    }
}

/// Once all calls have run, the transcript has one message more: a tool's, with
/// one result for each call, under the id of the call and with the outcome that
/// was handed back for it. Then queued texts are asked for.
pub proof fn law_results_join_the_transcript(
    s: SessionView,
    calls: Seq<ToolCallView>,
    done: Seq<OutcomeView>,
    e: EventView,
)
    requires
        consistent(s),
        (s.phase == (PhaseView::RunningTool { calls, done }) && e is ToolDone && done.len() + 1
            == calls.len()) || (s.phase == (PhaseView::RunningBatch { calls, done })
            && e is BatchDone && e->BatchDone_0.len() == delegations(calls)),
        e is ToolDone ==> delegations(calls) == 0,
    ensures
        ({
            let (t, step) = turn_step(s, e);
            &&& step.action is DrainSteering
            &&& t.phase is SteerTools
            &&& t.messages.len() == s.messages.len() + 1
            &&& t.messages.drop_last() == s.messages
            &&& t.messages.last().role == Role::Tool
            &&& t.messages.last().content.len() == calls.len()
            &&& forall|i: int|
                0 <= i < calls.len() ==> #[trigger] t.messages.last().content[i]
                    == BlockView::ToolResult(
                    ToolResultView {
                        tool_call_id: calls[i].id,
                        content: ToolResultContentView::Text(
                            outcome_for(calls, done, e, i).content,
                        ),
                        is_error: outcome_for(calls, done, e, i).is_error,
                    },
                )
        }),
{
    reveal(turn_step);
    lemma_selected_by_kind(calls);
    let (t, step) = turn_step(s, e);
    let (all_done, batch) = match e {
        EventView::ToolDone(o) => (done.push(o), Seq::empty()),
        EventView::BatchDone(b) => (done, b),
        _ => (done, Seq::empty()),
    };
    if calls.len() > 0 {
        law_each_call_gets_its_own_outcome(calls, all_done, batch, 0);
    }
    assert(t.messages.drop_last() =~= s.messages);
    assert forall|i: int| 0 <= i < calls.len() implies #[trigger] t.messages.last().content[i]
        == BlockView::ToolResult(
        ToolResultView {
            tool_call_id: calls[i].id,
            content: ToolResultContentView::Text(outcome_for(calls, done, e, i).content),
            is_error: outcome_for(calls, done, e, i).is_error,
        },
    ) by {
        law_each_call_gets_its_own_outcome(calls, all_done, batch, i);
        lemma_delegations_of_prefix(calls, i);
    }
}

/// What is run next where `n` calls that run by themselves are over: the `n`-th
/// of these, and where none is left, all delegations together.
pub open spec fn is_next_run(calls: Seq<ToolCallView>, n: nat, a: ActionView) -> bool {
    if n < calls.len() - delegations(calls) {
        a is RunTool && forall|i: int|
            0 <= i < calls.len() && (#[trigger] calls[i]).name != "agent"@ && alike_before(calls, i)
                == n ==> a->RunTool_0 == calls[i]
    } else {
        delegations(calls) > 0 ==> a is RunBatch && a->RunBatch_0.len() == delegations(calls)
            && forall|i: int|
            0 <= i < calls.len() && (#[trigger] calls[i]).name == "agent"@
                ==> a->RunBatch_0[alike_before(calls, i)] == calls[i]
    }
}

/// Calls run one after the other in their order, delegations together at the
/// end; what a call gave is kept until all have run.
pub proof fn law_calls_run_in_their_order(
    s: SessionView,
    calls: Seq<ToolCallView>,
    done: Seq<OutcomeView>,
    o: OutcomeView,
)
    requires
        consistent(s),
        s.phase == (PhaseView::RunningTool { calls, done }),
        done.len() + 1 < calls.len() - delegations(calls) || delegations(calls) > 0,
    ensures
        ({
            let (t, step) = turn_step(s, EventView::ToolDone(o));
            &&& is_next_run(calls, done.len() + 1, step.action)
            &&& t.messages == s.messages
            &&& t.phase == (PhaseView::RunningTool { calls, done: done.push(o) }) || t.phase == (
            PhaseView::RunningBatch { calls, done: done.push(o) })
        }),
{
    reveal(turn_step);
    lemma_selected_by_kind(calls);
}

/// An answer joins the transcript as it is. If the model stopped for its tool
/// calls, these are run, all of them; else the turn waits for queued texts, and
/// without any ends with the answer.
pub proof fn law_answer_joins_and_its_calls_run(
    s: SessionView,
    outgoing: Seq<MessageView>,
    attempt: usize,
    retry: bool,
    r: ResponseView,
)
    requires
        s.phase == (PhaseView::Completing { outgoing, attempt, retry }),
        !s.hooks,
    ensures
        ({
            let (t, step) = turn_step(s, EventView::Completed(Ok(r)));
            let calls = calls_of(r.message.content);
            &&& t.messages == s.messages.push(r.message)
            &&& t.last_input_tokens == Some(r.usage.input_tokens)
            &&& if r.stop_reason == StopReason::ToolUse && calls.len() > 0 {
                &&& is_next_run(calls, 0, step.action)
                &&& t.phase == (PhaseView::RunningTool { calls, done: Seq::empty() }) || t.phase
                    == (PhaseView::RunningBatch { calls, done: Seq::empty() })
            } else {
                &&& step.action is DrainSteering
                &&& t.phase == (PhaseView::SteerEnd { message: r.message })
                &&& turn_step(t, EventView::Steered(Seq::empty())).1.action == ActionView::Done(
                    r.message,
                )
                &&& turn_step(t, EventView::Steered(Seq::empty())).0.messages == t.messages
                &&& turn_step(t, EventView::Steered(Seq::empty())).0.phase is Idle
            }
        }),
{
    reveal(turn_step);
    lemma_selected_by_kind(calls_of(r.message.content));
}

/// With hooks, an answer waits for the hook on the budget, which is shown what
/// was used in the turn and in all, the answer included. Where that hook lets it
/// pass, everything goes on as without hooks; where it does not, the turn fails
/// for its reason.
pub proof fn law_budget_hook_is_asked_before_the_answer_counts(
    s: SessionView,
    outgoing: Seq<MessageView>,
    attempt: usize,
    retry: bool,
    r: ResponseView,
    reason: Seq<char>,
)
    requires
        s.phase == (PhaseView::Completing { outgoing, attempt, retry }),
        s.hooks,
        counters_fit(s, EventView::Completed(Ok(r))),
    ensures
        ({
            let (t, step) = turn_step(s, EventView::Completed(Ok(r)));
            let passed = turn_step(t, EventView::BudgetAnswered(None));
            let stopped = turn_step(t, EventView::BudgetAnswered(Some(reason)));
            let plain = turn_step(SessionView { hooks: false, ..s }, EventView::Completed(Ok(r)));
            &&& t.messages == s.messages
            &&& step.action matches ActionView::AskBudget(info) && info.turn.input_tokens
                == s.turn_usage.input_tokens + r.usage.input_tokens && info.turn.output_tokens
                == s.turn_usage.output_tokens + r.usage.output_tokens && info.session.input_tokens
                == s.total_usage.input_tokens + r.usage.input_tokens && info.session.output_tokens
                == s.total_usage.output_tokens + r.usage.output_tokens && info.turn_count
                == s.turn_count
            &&& passed.0 == (SessionView { hooks: true, ..plain.0 })
            &&& passed.1.action == plain.1.action
            &&& step.reports + passed.1.reports == plain.1.reports
            &&& stopped.1.action == ActionView::Fail(AgentErrorView::HookBlocked(reason))
            &&& stopped.0.messages == s.before
        }),
{
    reveal(turn_step);
    let (t, step) = turn_step(s, EventView::Completed(Ok(r)));
    let passed = turn_step(t, EventView::BudgetAnswered(None));
    let plain = turn_step(SessionView { hooks: false, ..s }, EventView::Completed(Ok(r)));
    assert(step.reports + passed.1.reports =~= plain.1.reports);
}

// ---------------------------------------------------------------------------
// The start of a turn
// ---------------------------------------------------------------------------

/// Whether a step put the user's text at the end of the transcript.
pub open spec fn takes_input(s: SessionView, t: SessionView, input: Seq<char>) -> bool {
    &&& t.messages.len() == s.messages.len() + 1
    &&& t.messages.drop_last() == s.messages
    &&& t.messages.last().role == Role::User
    &&& t.messages.last().content == seq![BlockView::Text(input)]
}

/// An input joins the transcript as the user's. On the first turn of a session
/// with hooks the hook on the start is asked first: it is shown the prompt, what
/// it gives back is the prompt from then on, and where it blocks, the turn fails
/// for its reason.
pub proof fn law_input_joins_the_transcript(
    s: SessionView,
    input: Seq<char>,
    prompt: Seq<char>,
    reason: Seq<char>,
)
    requires
        s.phase is Idle,
    ensures
        ({
            let (t, step) = turn_step(s, EventView::Begin(input));
            if s.started || !s.hooks {
                &&& takes_input(s, t, input)
                &&& step.action is DrainSteering
                &&& t.started
                &&& t.system_prompt == s.system_prompt
            } else {
                let allowed = turn_step(t, EventView::Started(DecisionView::Allow(prompt)));
                let blocked = turn_step(t, EventView::Started(DecisionView::Block(reason)));
                &&& t.messages == s.messages
                &&& !t.started
                &&& step.action == ActionView::AskStart(s.system_prompt)
                &&& takes_input(s, allowed.0, input)
                &&& allowed.0.system_prompt == prompt
                &&& allowed.0.started
                &&& allowed.1.action is DrainSteering
                &&& blocked.1.action == ActionView::Fail(AgentErrorView::HookBlocked(reason))
                &&& blocked.0.messages == s.messages
                &&& blocked.0.system_prompt == s.system_prompt
            }
        }),
        turn_step(s, EventView::Begin(input)).0.turn_usage.input_tokens == 0,
        turn_step(s, EventView::Begin(input)).0.turn_usage.output_tokens == 0,
        turn_step(s, EventView::Begin(input)).0.total_usage == s.total_usage,
{
    reveal(turn_step);
    let (t, step) = turn_step(s, EventView::Begin(input));
    let allowed = turn_step(t, EventView::Started(DecisionView::Allow(prompt)));
    assert(t.messages.len() > s.messages.len() ==> t.messages.drop_last() =~= s.messages);
    assert(allowed.0.messages.len() > s.messages.len() ==> allowed.0.messages.drop_last()
        =~= s.messages);
}

// ---------------------------------------------------------------------------
// What is sent
// ---------------------------------------------------------------------------

/// The prompt that a request has: the session's, and behind it, where something
/// was recorded of messages that were dropped, what was recorded.
pub open spec fn is_prompt_of(prompt: Seq<char>, s: SessionView) -> bool {
    match ledger_text(s.ledger) {
        Some(facts) => prompt == s.system_prompt + "\n\n"@ + facts,
        None => prompt == s.system_prompt,
    }
}

/// What is sent is the transcript, where there are no hooks, and what the hook
/// on the context gave back, where there are. The prompt goes with it.
#[verifier::rlimit(60)]
#[verifier::spinoff_prover]
pub proof fn law_request_is_the_transcript(s: SessionView, e: EventView)
    requires
        consistent(s),
        turn_step(s, e).1.action is Complete,
        !(s.phase is Backoff),
    ensures
        ({
            let (t, step) = turn_step(s, e);
            &&& is_prompt_of(step.action->Complete_system_prompt, t)
            &&& s.hooks ==> s.phase is Context
            &&& if s.phase is Context {
                &&& e == EventView::ContextAnswered(
                    DecisionView::Allow(step.action->Complete_messages),
                )
                &&& t.messages == s.messages
            } else {
                step.action->Complete_messages == t.messages
            }
        }),
{
    reveal(turn_step);
}

/// The hook on the context is shown the transcript; where it blocks, the turn
/// fails for its reason.
pub proof fn law_context_hook_is_shown_the_transcript(
    s: SessionView,
    e: EventView,
    reason: Seq<char>,
)
    ensures
        turn_step(s, e).1.action matches ActionView::AskContext(ms) ==> ms == turn_step(
            s,
            e,
        ).0.messages && turn_step(s, e).0.phase is Context && s.hooks,
        s.phase is Context ==> turn_step(
            s,
            EventView::ContextAnswered(DecisionView::Block(reason)),
        ).1.action == ActionView::Fail(AgentErrorView::HookBlocked(reason)),
        turn_step(s, e).1.action matches ActionView::AskCompact(ms) ==> ms == turn_step(
            s,
            e,
        ).0.messages && turn_step(s, e).0.phase is CompactGate && s.hooks,
        s.phase is CompactGate ==> turn_step(
            s,
            EventView::CompactAnswered(Some(reason)),
        ).1.action == ActionView::Fail(AgentErrorView::HookBlocked(reason)),
{
    reveal(turn_step);
}

// ---------------------------------------------------------------------------
// Failures
// ---------------------------------------------------------------------------

/// A transient failure is retried, five times at most: after the wait that is
/// reported, the same messages are sent again, and nothing else has changed.
pub proof fn law_transient_failure_is_retried(
    s: SessionView,
    outgoing: Seq<MessageView>,
    attempt: usize,
    retry: bool,
    e: ProviderErrorView,
)
    requires
        s.phase == (PhaseView::Completing { outgoing, attempt, retry }),
        transient_error(e),
        attempt < 5,
    ensures
        ({
            let (t, step) = turn_step(s, EventView::Completed(Err(e)));
            let (u, again) = turn_step(t, EventView::Slept);
            &&& step.action matches ActionView::Sleep(secs) && secs == backoff_secs(
                attempt as nat,
                e,
            ) && step.reports == seq![
                ReportView::Retry {
                    attempt: (attempt + 1) as usize,
                    max_attempts: 5,
                    delay_secs: secs,
                    reason: error_text(e),
                },
            ]
            &&& again.action matches ActionView::Complete { messages, system_prompt } && messages
                == outgoing && is_prompt_of(system_prompt, s)
            &&& u == (SessionView {
                phase: PhaseView::Completing { outgoing, attempt: (attempt + 1) as usize, retry },
                ..s
            })
        }),
{
    reveal(turn_step);
    crate::provider::law_backoff_fits(attempt as nat, e);
}

/// Any other failure ends the turn with that failure, unless the request was too
/// large and can be made smaller; and so does a transient one that was retried
/// five times.
pub proof fn law_other_failure_ends_the_turn(
    s: SessionView,
    outgoing: Seq<MessageView>,
    attempt: usize,
    retry: bool,
    e: ProviderErrorView,
)
    requires
        s.phase == (PhaseView::Completing { outgoing, attempt, retry }),
        !transient_error(e) || attempt >= 5,
        retry || !(e is Api) || s.messages.len() <= 20,
    ensures
        ({
            let (t, step) = turn_step(s, EventView::Completed(Err(e)));
            &&& step.action == ActionView::Fail(AgentErrorView::Provider(e))
            &&& t.messages == s.before
            &&& t.phase is Idle
        }),
{
    reveal(turn_step);
}

/// A request that the provider refuses as too large is made smaller: the last
/// twenty messages stay, and what the others did is recorded.
pub proof fn law_too_large_request_is_cut_to_twenty(
    s: SessionView,
    outgoing: Seq<MessageView>,
    attempt: usize,
    body: Seq<char>,
)
    requires
        s.phase == (PhaseView::Completing { outgoing, attempt, retry: false }),
        !s.hooks,
        s.messages.len() > 20,
    ensures
        ({
            let e = ProviderErrorView::Api { status: 413, body };
            let (t, step) = turn_step(s, EventView::Completed(Err(e)));
            let n = s.messages.len() - 20;
            &&& t.messages == s.messages.skip(n)
            &&& t.ledger == record_messages(s.ledger, s.messages.take(n))
            &&& step.action is Summarize || step.action is Complete
        }),
{
    reveal(turn_step);
    let n = s.messages.len() - 20;
    assert(s.messages.subrange(n, s.messages.len() as int) =~= s.messages.skip(n));
    assert(s.messages.subrange(0, n) =~= s.messages.take(n));
}

// ---------------------------------------------------------------------------
// Rounds
// ---------------------------------------------------------------------------

/// Whether the texts that a user queued while the model worked stand at the end
/// of the last message, each in a block that says where it comes from.
pub open spec fn is_steered(
    before: Seq<MessageView>,
    after: Seq<MessageView>,
    texts: Seq<Seq<char>>,
) -> bool {
    &&& after.len() == before.len()
    &&& forall|i: int| 0 <= i < before.len() - 1 ==> #[trigger] after[i] == before[i]
    &&& before.len() > 0 ==> {
        let (old_last, new_last) = (before.last(), after.last());
        &&& new_last.role == old_last.role
        &&& new_last.content.len() == old_last.content.len() + texts.len()
        &&& forall|k: int|
            0 <= k < old_last.content.len() ==> #[trigger] new_last.content[k]
                == old_last.content[k]
        &&& forall|k: int|
            0 <= k < texts.len() ==> #[trigger] new_last.content[old_last.content.len() + k]
                == BlockView::Text("[User, while you were working on this]: "@ + texts[k])
    }
}

/// The messages of the next round: the transcript with the queued texts, either
/// added to the last message or, behind an answer, as a message of the user.
pub open spec fn is_next_transcript(
    s: SessionView,
    texts: Seq<Seq<char>>,
    ms: Seq<MessageView>,
) -> bool {
    if s.phase is SteerEnd {
        &&& ms.len() == s.messages.len() + 1
        &&& ms.drop_last() == s.messages
        &&& ms.last().role == Role::User
        &&& ms.last().content.len() == texts.len()
        &&& forall|k: int|
            0 <= k < texts.len() ==> #[trigger] ms.last().content[k] == BlockView::Text(texts[k])
    } else {
        is_steered(s.messages, ms, texts)
    }
}

/// Whether a transcript is to be made smaller: it has more than sixty messages,
/// or the last request was larger than three quarters of the context window, or
/// than a hundred thousand tokens where the window is not known.
pub open spec fn is_too_large(s: SessionView, ms: Seq<MessageView>) -> bool {
    ms.len() > 60 || match (s.last_input_tokens, s.provider.context_window) {
        (Some(t), Some(w)) => t > (w * 3) / 4,
        (Some(t), None) => t > 100_000,
        (None, _) => false,
    }
}

/// A round, without hooks: queued texts join the transcript, stale reads are
/// collapsed, and the transcript is sent. One that is too large is cut to its
/// last forty messages first, and what the others did is recorded.
pub proof fn law_round_sends_what_fits(s: SessionView, texts: Seq<Seq<char>>)
    requires
        consistent(s),
        !s.hooks,
        s.phase is SteerStart || s.phase is SteerTools || (s.phase is SteerEnd && texts.len() > 0),
    ensures
        exists|ms: Seq<MessageView>|
            #![trigger dedup(ms)]
            {
                let (t, step) = turn_step(s, EventView::Steered(texts));
                let n = ms.len() - 40;
                &&& is_next_transcript(s, texts, ms)
                &&& if !is_too_large(s, ms) || ms.len() <= 40 {
                    &&& t.messages == dedup(ms)
                    &&& t.ledger == s.ledger
                    &&& step.action is Complete
                } else {
                    &&& t.messages == dedup(ms).skip(n)
                    &&& t.ledger == record_messages(s.ledger, dedup(ms).take(n))
                    &&& step.action is Complete || step.action is Summarize
                }
            },
{
    reveal(turn_step);
    let ms = if s.phase is SteerEnd {
        s.messages.push(crate::session::steering_message(texts))
    } else {
        crate::session::steer_last(s.messages, texts)
    };
    let (t, step) = turn_step(s, EventView::Steered(texts));
    assert(s.phase is SteerEnd ==> ms.drop_last() =~= s.messages);
    assert(is_next_transcript(s, texts, ms));
    let d = dedup(ms);
    assert(d.len() == ms.len());
    let n = ms.len() - 40;
    if ms.len() > 40 {
        assert(d.subrange(n, d.len() as int) =~= d.skip(n));
        assert(d.subrange(0, n) =~= d.take(n));
    }
}

/// With hooks a round comes to the same messages, and asks the hook on dropping
/// where something is to be dropped, else the hook on the context.
pub proof fn law_round_asks_the_hooks(s: SessionView, texts: Seq<Seq<char>>)
    requires
        consistent(s),
        s.hooks,
        s.phase is SteerStart || s.phase is SteerTools || (s.phase is SteerEnd && texts.len() > 0),
    ensures
        exists|ms: Seq<MessageView>|
            #![trigger dedup(ms)]
            {
                let (t, step) = turn_step(s, EventView::Steered(texts));
                &&& is_next_transcript(s, texts, ms)
                &&& t.messages == dedup(ms)
                &&& t.ledger == s.ledger
                &&& step.action == if is_too_large(s, ms) {
                    ActionView::AskCompact(dedup(ms))
                } else {
                    ActionView::AskContext(dedup(ms))
                }
            },
{
    reveal(turn_step);
    let ms = if s.phase is SteerEnd {
        s.messages.push(crate::session::steering_message(texts))
    } else {
        crate::session::steer_last(s.messages, texts)
    };
    assert(s.phase is SteerEnd ==> ms.drop_last() =~= s.messages);
    assert(is_next_transcript(s, texts, ms));
    assert(dedup(ms).len() == ms.len());
}

/// Where the hook on dropping lets it pass, the last forty messages stay, or
/// twenty where the provider refused a request as too large; a transcript that
/// is no longer stays.
pub proof fn law_dropping_keeps_the_last_messages(s: SessionView, emergency: bool)
    requires
        s.phase == (PhaseView::CompactGate { emergency }),
    ensures
        ({
            let t = turn_step(s, EventView::CompactAnswered(None)).0;
            let kept: int = if emergency {
                20
            } else {
                40
            };
            let n = s.messages.len() - kept;
            if n <= 0 {
                t.messages == s.messages && t.ledger == s.ledger
            } else {
                t.messages == s.messages.skip(n) && t.ledger == record_messages(
                    s.ledger,
                    s.messages.take(n),
                )
            }
        }),
{
    reveal(turn_step);
    let kept: int = if emergency {
        20
    } else {
        40
    };
    let n = s.messages.len() - kept;
    if n > 0 {
        assert(s.messages.subrange(n, s.messages.len() as int) =~= s.messages.skip(n));
        assert(s.messages.subrange(0, n) =~= s.messages.take(n));
    }
}

/// A summary that the model gives of dropped messages is recorded, unless it is
/// blank; where it gives none, the turn goes on without.
pub proof fn law_summary_is_recorded(s: SessionView, emergency: bool, m: Option<MessageView>)
    requires
        s.phase == (PhaseView::Summarizing { emergency }),
    ensures
        ({
            let t = turn_step(s, EventView::Summarized(m)).0;
            &&& t.messages == s.messages
            &&& t.ledger == match m {
                Some(msg) => if trim(message_text(msg)).len() > 0 {
                    with_summary(s.ledger, message_text(msg))
                } else {
                    s.ledger
                },
                None => s.ledger,
            }
        }),
        !(turn_step(s, EventView::Summarized(m)).1.action is Fail),
{
    reveal(turn_step);
}

/// The queued texts are shown, each once and in their order, before anything
/// else.
pub proof fn law_queued_texts_are_shown(s: SessionView, texts: Seq<Seq<char>>, k: int)
    requires
        s.phase is SteerStart || s.phase is SteerTools || (s.phase is SteerEnd && texts.len() > 0),
        0 <= k < texts.len(),
    ensures
        turn_step(s, EventView::Steered(texts)).1.reports.len() >= texts.len(),
        turn_step(s, EventView::Steered(texts)).1.reports[k] == ReportView::Steering(texts[k]),
{
    reveal(turn_step);
}

/// Only the start of the round that the user began counts as a turn.
pub proof fn law_turns_are_counted_once(s: SessionView, e: EventView)
    requires
        counters_fit(s, e),
    ensures
        turn_step(s, e).0.turn_count == if s.phase is SteerStart && e is Steered {
            s.turn_count + 1
        } else {
            s.turn_count as int
        },
{
    reveal(turn_step);
}

/// No step changes who answers, nor whether there are hooks; the prompt changes
/// only where the hook on the start gives another one.
pub proof fn law_steps_keep_the_setting(s: SessionView, e: EventView)
    ensures
        turn_step(s, e).0.provider == s.provider,
        turn_step(s, e).0.hooks == s.hooks,
        !(s.phase is Starting) ==> turn_step(s, e).0.system_prompt == s.system_prompt,
{
    reveal(turn_step);
}

/// An event that nobody asked for changes nothing.
pub proof fn law_unasked_event_changes_nothing(s: SessionView, e: EventView)
    requires
        match e {
            EventView::Begin(_) => !(s.phase is Idle),
            EventView::Started(_) => !(s.phase is Starting),
            EventView::Steered(_) => !(s.phase is SteerStart || s.phase is SteerEnd
                || s.phase is SteerTools),
            EventView::CompactAnswered(_) => !(s.phase is CompactGate),
            EventView::Summarized(_) => !(s.phase is Summarizing),
            EventView::ContextAnswered(_) => !(s.phase is Context),
            EventView::Completed(_) => !(s.phase is Completing),
            EventView::Slept => !(s.phase is Backoff),
            EventView::BudgetAnswered(_) => !(s.phase is Budget),
            EventView::ToolDone(_) => !(s.phase is RunningTool),
            EventView::BatchDone(_) => !(s.phase is RunningBatch),
        },
    ensures
        turn_step(s, e).0 == s,
        turn_step(s, e).1.action is Ignored,
        turn_step(s, e).1.reports.len() == 0,
{
    reveal(turn_step);
}

// ---------------------------------------------------------------------------
// What is shown, counted and asked on the way
// ---------------------------------------------------------------------------

/// Of an answer, texts and thoughts are shown, in their order; calls are not. Of
/// one that comes as a whole, each text is given first as it comes in, and then
/// the end of the model's turn.
pub proof fn law_texts_and_thoughts_are_shown(
    a: Seq<BlockView>,
    b: Seq<BlockView>,
    block: BlockView,
    m: MessageView,
)
    ensures
        block_reports(a + b) == block_reports(a) + block_reports(b),
        block_reports(seq![block]) == match block {
            BlockView::Text(t) => seq![ReportView::AssistantText(t)],
            BlockView::Thinking { text, .. } => seq![ReportView::Thinking(text)],
            _ => Seq::empty(),
        },
        answer_reports(m).len() == texts_of(m.content).len() + 1,
        answer_reports(m).last() == ReportView::TurnEnd,
        forall|i: int|
            0 <= i < texts_of(m.content).len() ==> #[trigger] answer_reports(m)[i]
                == ReportView::AssistantTextDelta(texts_of(m.content)[i]),
    decreases b.len(),
{
    assert(seq![block].drop_last() =~= Seq::empty());
    reveal_with_fuel(block_reports, 2);
    assert(block_reports(seq![block]) =~= match block {
        BlockView::Text(t) => seq![ReportView::AssistantText(t)],
        BlockView::Thinking { text, .. } => seq![ReportView::Thinking(text)],
        _ => Seq::empty(),
    });
    if b.len() == 0 {
        assert(a + b =~= a);
        assert(block_reports(a) + block_reports(b) =~= block_reports(a));
    } else {
        law_texts_and_thoughts_are_shown(a, b.drop_last(), block, m);
        assert((a + b).drop_last() =~= a + b.drop_last());
        assert(block_reports(a + b) =~= block_reports(a) + block_reports(b));
    }
}

/// An answer is shown when it comes, and its tokens are counted for the turn and
/// for the session. A hook on the budget is shown these counts, and what the
/// answer says is shown when the hook has let it pass.
pub proof fn law_answer_is_shown_and_counted(
    s: SessionView,
    outgoing: Seq<MessageView>,
    attempt: usize,
    retry: bool,
    r: ResponseView,
)
    requires
        s.phase == (PhaseView::Completing { outgoing, attempt, retry }),
        counters_fit(s, EventView::Completed(Ok(r))),
    ensures
        ({
            let (t, step) = turn_step(s, EventView::Completed(Ok(r)));
            &&& t.turn_usage.input_tokens == s.turn_usage.input_tokens + r.usage.input_tokens
            &&& t.turn_usage.output_tokens == s.turn_usage.output_tokens + r.usage.output_tokens
            &&& t.total_usage.input_tokens == s.total_usage.input_tokens + r.usage.input_tokens
            &&& t.total_usage.output_tokens == s.total_usage.output_tokens
                + r.usage.output_tokens
            &&& t.last_input_tokens == Some(r.usage.input_tokens)
            &&& !s.hooks ==> step.reports == answer_reports(r.message) + block_reports(
                r.message.content,
            )
            &&& s.hooks ==> {
                &&& step.reports == answer_reports(r.message)
                &&& step.action matches ActionView::AskBudget(info) && info.turn == t.turn_usage
                    && info.session == t.total_usage && info.turn_count == s.turn_count
                &&& turn_step(t, EventView::BudgetAnswered(None)).1.reports == block_reports(
                    r.message.content,
                )
            }
        }),
{
    reveal(turn_step);
    let (t, step) = turn_step(s, EventView::Completed(Ok(r)));
    if s.hooks {
        assert(Seq::<ReportView>::empty() + block_reports(r.message.content) =~= block_reports(
            r.message.content,
        ));
    }
}

/// At the end of a turn its tokens are told, and nothing of it is held back.
pub proof fn law_end_tells_the_tokens(s: SessionView, message: MessageView)
    requires
        s.phase == (PhaseView::SteerEnd { message }),
    ensures
        ({
            let (t, step) = turn_step(s, EventView::Steered(Seq::empty()));
            &&& step.action == ActionView::Done(message)
            &&& step.reports == seq![ReportView::Usage(s.turn_usage)]
            &&& t.messages == s.messages
            &&& t.before.len() == 0
            &&& t.phase is Idle
        }),
{
    reveal(turn_step);
}

/// Whoever blocks ends the turn with the reason: before messages are dropped,
/// before a request, or after the answer. The transcript is what it was before
/// the turn, and a model's turn that was shown to start is shown to end.
pub proof fn law_hook_ends_the_turn(s: SessionView, flag: bool, r: ResponseView, reason: Seq<char>)
    ensures
        s.phase == (PhaseView::CompactGate { emergency: flag }) ==> {
            let (t, step) = turn_step(s, EventView::CompactAnswered(Some(reason)));
            &&& step.action == ActionView::Fail(AgentErrorView::HookBlocked(reason))
            &&& step.reports == if flag {
                seq![ReportView::TurnEnd]
            } else {
                Seq::empty()
            }
            &&& t.messages == s.before && t.phase is Idle
        },
        s.phase == (PhaseView::Context { retry: flag }) ==> {
            let (t, step) = turn_step(
                s,
                EventView::ContextAnswered(DecisionView::Block(reason)),
            );
            &&& step.action == ActionView::Fail(AgentErrorView::HookBlocked(reason))
            &&& step.reports == if flag {
                seq![ReportView::TurnEnd]
            } else {
                Seq::empty()
            }
            &&& t.messages == s.before && t.phase is Idle
        },
        s.phase == (PhaseView::Budget { response: r }) ==> {
            let (t, step) = turn_step(s, EventView::BudgetAnswered(Some(reason)));
            &&& step.action == ActionView::Fail(AgentErrorView::HookBlocked(reason))
            &&& step.reports.len() == 0
            &&& t.messages == s.before && t.phase is Idle
        },
{
    reveal(turn_step);
}

/// When the hook lets messages be dropped, all but the last forty are, or all but
/// the last twenty where the request was too large; what was said in them is to
/// be summarised, if anything was.
pub proof fn law_dropped_messages_are_summarised(s: SessionView, emergency: bool)
    requires
        s.phase == (PhaseView::CompactGate { emergency }),
    ensures
        ({
            let (t, step) = turn_step(s, EventView::CompactAnswered(None));
            let kept: int = if emergency {
                20
            } else {
                40
            };
            let n = s.messages.len() - kept;
            let said = join(transcript_lines(s.messages.take(n)), "\n"@);
            &&& s.messages.len() <= kept ==> t.messages == s.messages && t.ledger == s.ledger
                && !(step.action is Summarize)
            &&& s.messages.len() > kept ==> t.messages == s.messages.skip(n) && t.ledger
                == record_messages(s.ledger, s.messages.take(n))
            &&& s.messages.len() > kept && trim(said).len() > 0 ==> step.action
                == ActionView::Summarize(
                "Summarize the key facts, decisions, and open threads from this part of a coding session in 3-5 short bullet points. Be concise.\n\n"@
                    + said,
            )
            &&& s.messages.len() > kept && trim(said).len() == 0 ==> !(step.action is Summarize)
        }),
{
    reveal(turn_step);
    let kept: int = if emergency {
        20
    } else {
        40
    };
    let n = s.messages.len() - kept;
    if n > 0 {
        assert(s.messages.subrange(0, n) =~= s.messages.take(n));
        assert(s.messages.subrange(n, s.messages.len() as int) =~= s.messages.skip(n));
    }
}

/// A turn that is thrown away leaves the first messages of what was there before
/// it, as many as are asked; nothing else is lost.
pub proof fn law_thrown_away_turn(s: SessionView, n: nat)
    ensures
        ({
            let t = discarded(s, n);
            let before = if s.phase is Idle {
                s.messages
            } else {
                s.before
            };
            &&& t.messages == if n < before.len() {
                before.take(n as int)
            } else {
                before
            }
            &&& t.phase is Idle
            &&& t.before.len() == 0
            &&& t.ledger == s.ledger
            &&& t.total_usage == s.total_usage
            &&& t.system_prompt == s.system_prompt
            &&& t.turn_count == s.turn_count
        }),
{
    let before = if s.phase is Idle {
        s.messages
    } else {
        s.before
    };
    if n < before.len() {
        assert(before.subrange(0, n as int) =~= before.take(n as int));
    }
}

/// A new session has said and counted nothing.
pub proof fn law_new_session_is_silent(provider: ProviderView, hooks: bool, prompt: Seq<char>)
    ensures
        ({
            let s = fresh(provider, hooks, prompt);
            &&& s.messages.len() == 0 && s.before.len() == 0
            &&& s.system_prompt == prompt
            &&& s.provider == provider
            &&& s.hooks == hooks
            &&& !s.started
            &&& s.turn_count == 0
            &&& s.phase is Idle
            &&& s.last_input_tokens is None
            &&& s.total_usage.input_tokens == 0 && s.total_usage.output_tokens == 0
            &&& ledger_text(s.ledger) is None
        }),
{
}

/// A request that is too large, however the provider says so, is made smaller
/// once: a hook is asked first, and without one all but the last twenty messages
/// are dropped.
pub proof fn law_too_large_request_is_made_smaller(
    s: SessionView,
    outgoing: Seq<MessageView>,
    attempt: usize,
    e: ProviderErrorView,
)
    requires
        s.phase == (PhaseView::Completing { outgoing, attempt, retry: false }),
        s.messages.len() > 20,
        context_length_error(e),
        !transient_error(e) || attempt >= 5,
    ensures
        ({
            let (t, step) = turn_step(s, EventView::Completed(Err(e)));
            let n = s.messages.len() - 20;
            &&& s.hooks ==> step.action == ActionView::AskCompact(s.messages) && t.messages
                == s.messages && t.phase == (PhaseView::CompactGate { emergency: true })
            &&& !s.hooks ==> t.messages == s.messages.skip(n) && t.ledger == record_messages(
                s.ledger,
                s.messages.take(n),
            )
        }),
{
    reveal(turn_step);
    let n = s.messages.len() - 20;
    assert(s.messages.subrange(n, s.messages.len() as int) =~= s.messages.skip(n));
    assert(s.messages.subrange(0, n) =~= s.messages.take(n));
}

} // verus!
