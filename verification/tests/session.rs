use std::collections::VecDeque;

use minder::hooks::{HookDecision, ToolCallDecision};
use minder::json::Json;
use minder::ledger::DecisionLedger;
use minder::message::{
    ContentBlock, Message, ProviderResponse, Role, StopReason, ToolCall, ToolExecOutcome,
    ToolResultContent, Usage,
};
use minder::model::Copied;
use minder::provider::{ProviderError, MAX_TRANSIENT_RETRIES};
use minder::session::{
    Action, AgentError, AgentSession, Event, ProviderInfo, Report, COMPACT_THRESHOLD,
    EMERGENCY_KEEP_RECENT, KEEP_RECENT, TOKEN_COMPACT_THRESHOLD,
};
use minder::suggest::unknown_tool_message;
use minder::tool_run::{plan_call, result_info, settle, CallNext};

type Reply = Result<ProviderResponse, ProviderError>;

fn json(text: &str) -> Json {
    Json::parse(text).expect("valid JSON")
}

fn respond(content: Vec<ContentBlock>, stop_reason: StopReason, usage: Usage) -> Reply {
    Ok(ProviderResponse {
        message: Message { role: Role::Assistant, content, metadata: Json::Null },
        stop_reason,
        usage,
    })
}

fn no_usage() -> Usage {
    Usage { input_tokens: 0, output_tokens: 0 }
}

fn text_response(text: &str) -> Reply {
    respond(vec![ContentBlock::Text(text.to_string())], StopReason::EndTurn, no_usage())
}

fn call(id: &str, name: &str, arguments: &str) -> ToolCall {
    ToolCall { id: id.to_string(), name: name.to_string(), arguments: json(arguments) }
}

fn tool_use_response(id: &str, name: &str, arguments: &str) -> Reply {
    respond(
        vec![ContentBlock::ToolUse(call(id, name, arguments))],
        StopReason::ToolUse,
        no_usage(),
    )
}

fn with_usage(reply: Reply, input_tokens: u32, output_tokens: u32) -> Reply {
    reply.map(|r| ProviderResponse { usage: Usage { input_tokens, output_tokens }, ..r })
}

fn rate_limited() -> Reply {
    Err(ProviderError::RateLimited { retry_after_secs: Some(1) })
}

fn bad_request() -> Reply {
    Err(ProviderError::Api { status: 400, body: "bad request".to_string() })
}

fn user_messages(n: usize) -> Vec<Message> {
    (0..n).map(|i| Message::user_text(&format!("msg {i}"))).collect()
}

fn provider(id: &str, context_window: Option<u32>) -> ProviderInfo {
    ProviderInfo { id: id.to_string(), model: format!("{id}-model"), context_window }
}

/// Drives a session against scripted replies.
struct Driver {
    session: AgentSession,
    replies: VecDeque<Reply>,
    /// What the provider called `alt` replies.
    alt_replies: VecDeque<Reply>,
    tools: Vec<String>,
    tool_output: Option<String>,
    hook: Option<fn(&ToolCall) -> ToolCallDecision>,
    budget: Option<String>,
    steering: VecDeque<Vec<String>>,
    log: Vec<String>,
    deltas: Vec<String>,
    prompts: Vec<String>,
    slept: Vec<u64>,
    executed: usize,
    peak: usize,
    /// Refuses to drop messages.
    veto: Option<String>,
    /// Refuses the requests from this one on.
    refuse_from: usize,
    requests: usize,
    start_asked: usize,
    starts: usize,
    ends: usize,
}

impl Driver {
    fn new(hooks: bool, prompt: &str, replies: Vec<Reply>, tools: &[&str]) -> Driver {
        Driver {
            session: AgentSession::new(provider("scripted", None), hooks, prompt.to_string()),
            replies: replies.into(),
            alt_replies: VecDeque::new(),
            tools: tools.iter().map(|t| t.to_string()).collect(),
            tool_output: None,
            hook: None,
            budget: None,
            steering: VecDeque::new(),
            log: Vec::new(),
            deltas: Vec::new(),
            prompts: Vec::new(),
            slept: Vec::new(),
            executed: 0,
            peak: 0,
            veto: None,
            refuse_from: usize::MAX,
            requests: 0,
            start_asked: 0,
            starts: 0,
            ends: 0,
        }
    }

    fn next_reply(&mut self) -> Reply {
        let script = match self.session.provider_id() {
            "alt" => &mut self.alt_replies,
            _ => &mut self.replies,
        };
        script.pop_front().expect("script exhausted")
    }

    fn note(&mut self, report: &Report) {
        match report {
            Report::TurnStart => self.starts += 1,
            Report::TurnEnd => self.ends += 1,
            Report::Thinking(t) => self.log.push(format!("thinking:{t}")),
            Report::AssistantText(t) => self.log.push(format!("text:{t}")),
            Report::AssistantTextDelta(t) => self.deltas.push(t.clone()),
            Report::Steering(t) => self.log.push(format!("steering:{t}")),
            Report::Usage(u) => {
                self.log.push(format!("usage:{}/{}", u.input_tokens, u.output_tokens))
            }
            Report::ProviderChanged { id, model } => {
                self.log.push(format!("provider_changed:{id}/{model}"))
            }
            _ => {}
        }
    }

    fn run_tool(&mut self, c: ToolCall) -> ToolExecOutcome {
        let decision = match self.hook {
            Some(hook) => hook(&c),
            None => ToolCallDecision::Allow(c.copied()),
        };
        let (tool_name, outcome) = match plan_call(decision, c, &self.tools).next {
            CallNext::Final(outcome) => return outcome,
            CallNext::Settle { tool_name, outcome } => (tool_name, outcome),
            CallNext::Execute { index, call } => {
                self.executed += 1;
                let content = match &self.tool_output {
                    Some(t) => t.clone(),
                    None => call.arguments.get_text("text").cloned().unwrap_or_default(),
                };
                let outcome = ToolExecOutcome { content, is_error: false, metadata: Json::Null };
                (self.tools[index].clone(), outcome)
            }
        };
        let info = result_info(&tool_name, &outcome);
        settle(HookDecision::Allow(info.content), outcome)
    }

    fn run_turn(&mut self, input: &str) -> Result<Message, AgentError> {
        let mut event = Event::Begin(input.to_string());
        loop {
            assert!(self.session.fits(&event));
            let step = self.session.step(event);
            for report in &step.reports {
                self.note(report);
            }
            event = match step.action {
                Action::AskStart(prompt) => {
                    self.start_asked += 1;
                    Event::Started(HookDecision::Allow(prompt))
                }
                Action::DrainSteering => {
                    Event::Steered(self.steering.pop_front().unwrap_or_default())
                }
                Action::AskCompact(_) => Event::CompactAnswered(self.veto.clone()),
                Action::Summarize(_) => {
                    let reply = self.next_reply();
                    Event::Summarized(reply.ok().map(|r| r.message))
                }
                Action::AskContext(messages) => {
                    self.requests += 1;
                    Event::ContextAnswered(if self.requests >= self.refuse_from {
                        HookDecision::Block("no more".to_string())
                    } else {
                        HookDecision::Allow(messages)
                    })
                }
                Action::Complete { system_prompt, .. } => {
                    self.prompts.push(system_prompt);
                    Event::Completed(self.next_reply())
                }
                Action::Sleep(secs) => {
                    self.slept.push(secs);
                    Event::Slept
                }
                Action::AskBudget(_) => Event::BudgetAnswered(self.budget.clone()),
                Action::RunTool(c) => Event::ToolDone(self.run_tool(c)),
                Action::RunBatch(calls) => {
                    self.peak = self.peak.max(calls.len());
                    Event::BatchDone(calls.into_iter().map(|c| self.run_tool(c)).collect())
                }
                Action::Done(message) => return Ok(message),
                Action::Fail(e) => return Err(e),
                Action::Ignored => panic!("an answer was refused"),
            };
        }
    }
}

fn text_of(message: &Message) -> &str {
    match &message.content[0] {
        ContentBlock::Text(t) => t,
        _ => panic!("expected Text"),
    }
}

fn tool_result<'a>(messages: &'a [Message], call_id: &str) -> (&'a str, bool) {
    for message in messages {
        for block in &message.content {
            if let ContentBlock::ToolResult(r) = block {
                if r.tool_call_id == call_id {
                    match &r.content {
                        ToolResultContent::Text(t) => return (t, r.is_error),
                        _ => panic!("expected Text"),
                    }
                }
            }
        }
    }
    panic!("no tool result for {call_id}")
}

fn holds_text(message: &Message, text: &str) -> bool {
    message.content.iter().any(|b| matches!(b, ContentBlock::Text(t) if t.contains(text)))
}

#[test]
fn thinking_block_reaches_the_reporter_ahead_of_the_final_text() {
    let reply = respond(
        vec![
            ContentBlock::Thinking {
                text: "working through the problem".to_string(),
                signature: None,
            },
            ContentBlock::Text("here's the answer".to_string()),
        ],
        StopReason::EndTurn,
        no_usage(),
    );
    let mut driver = Driver::new(false, "you are a test agent", vec![reply], &[]);
    driver.run_turn("solve it").ok().unwrap();
    assert_eq!(
        driver.log,
        vec![
            "thinking:working through the problem".to_string(),
            "text:here's the answer".to_string(),
            "usage:0/0".to_string(),
        ]
    );
    assert_eq!(driver.deltas, vec!["here's the answer".to_string()]);
}

#[test]
fn on_usage_sums_tokens_across_every_round_trip_in_the_turn() {
    let replies = vec![
        with_usage(tool_use_response("call_1", "echo", r#"{"text": "hi"}"#), 100, 10),
        with_usage(text_response("done"), 150, 20),
    ];
    let mut driver = Driver::new(false, "you are a test agent", replies, &["echo"]);
    driver.run_turn("do it").ok().unwrap();
    assert!(driver.log.iter().any(|line| line == "usage:250/30"), "{:?}", driver.log);
}

#[test]
fn session_loop_executes_tool_call_then_terminates_on_text_response() {
    let replies = vec![
        tool_use_response("call_1", "echo", r#"{"text": "hi from tool"}"#),
        text_response("the tool said: hi from tool"),
    ];
    let mut driver = Driver::new(false, "you are a test agent", replies, &["echo"]);
    let last = driver.run_turn("please echo something").ok().unwrap();
    assert_eq!(text_of(&last), "the tool said: hi from tool");
    assert_eq!(driver.session.messages().len(), 4);
    assert_eq!(tool_result(driver.session.messages(), "call_1"), ("hi from tool", false));
}

#[test]
fn set_provider_swaps_the_provider_used_by_the_next_turn() {
    let mut driver =
        Driver::new(false, "you are a test agent", vec![text_response("from scripted")], &[]);
    driver.alt_replies.push_back(text_response("from alt"));
    assert_eq!(text_of(&driver.run_turn("hi").ok().unwrap()), "from scripted");
    assert_eq!(driver.session.provider_id(), "scripted");
    assert_eq!(driver.session.model(), "scripted-model");

    let report = driver.session.set_provider(provider("alt", Some(100)));
    driver.note(&report);
    assert_eq!(driver.session.provider_id(), "alt");
    assert_eq!(driver.session.model(), "alt-model");
    assert!(driver.log.contains(&"provider_changed:alt/alt-model".to_string()));
    assert_eq!(driver.session.token_compact_threshold(), 75);

    // History survives the swap.
    assert_eq!(text_of(&driver.run_turn("hi again").ok().unwrap()), "from alt");
    assert_eq!(driver.session.messages().len(), 4);
}

#[test]
fn multiple_agent_tool_calls_in_one_turn_run_concurrently() {
    let both = respond(
        vec![
            ContentBlock::ToolUse(call("call_1", "agent", "{}")),
            ContentBlock::ToolUse(call("call_2", "agent", "{}")),
        ],
        StopReason::ToolUse,
        no_usage(),
    );
    let mut driver = Driver::new(false, "test", vec![both, text_response("both done")], &["agent"]);
    driver.run_turn("delegate two things at once").ok().unwrap();
    assert_eq!(driver.peak, 2);
}

#[test]
fn session_loop_terminates_immediately_with_no_tool_calls() {
    let replies = vec![text_response("no tools needed")];
    let mut driver = Driver::new(false, "you are a test agent", replies, &[]);
    assert_eq!(text_of(&driver.run_turn("hello").ok().unwrap()), "no tools needed");
    assert_eq!(driver.session.messages().len(), 2);
}

#[test]
fn unknown_tool_call_is_reported_back_instead_of_aborting_the_turn() {
    let replies = vec![
        tool_use_response("call_1", "grpe", "{}"),
        text_response("retried with the right tool"),
    ];
    let mut driver = Driver::new(false, "you are a test agent", replies, &["echo"]);
    let last = driver.run_turn("do something").ok().unwrap();
    assert_eq!(text_of(&last), "retried with the right tool");
    let (text, is_error) = tool_result(&driver.session.messages()[2..3], "call_1");
    assert!(is_error);
    assert!(text.contains("Unknown tool 'grpe'"), "got: {text}");
}

#[test]
fn unknown_tool_message_suggests_the_closest_registered_name() {
    let tools = vec!["echo".to_string()];
    assert!(unknown_tool_message("ecko", &tools).contains("Did you mean 'echo'?"));
    assert!(!unknown_tool_message("completely_unrelated_xyz", &tools).contains("Did you mean"));
}

#[test]
fn restore_replaces_history_and_skips_before_agent_start_again() {
    let mut driver = Driver::new(true, "original prompt", vec![text_response("continuing")], &[]);
    driver
        .session
        .restore("restored prompt".to_string(), vec![Message::user_text("earlier turn")]);
    assert_eq!(driver.session.system_prompt(), "restored prompt");
    assert_eq!(driver.session.messages().len(), 1);
    let step = driver.session.step(Event::Begin("follow up".to_string()));
    assert!(matches!(step.action, Action::DrainSteering));
    driver.session.discard_interrupted_turn(1);
    driver.run_turn("follow up").ok().unwrap();
    assert_eq!(driver.session.messages().len(), 3);
}

#[test]
fn discard_interrupted_turn_rolls_the_transcript_back() {
    let replies = vec![
        tool_use_response("call_1", "echo", r#"{"text": "hi"}"#),
        text_response("done"),
    ];
    let mut driver = Driver::new(false, "test agent", replies, &["echo"]);
    driver.session.restore("test agent".to_string(), vec![Message::user_text("earlier turn")]);
    let pre_turn_len = driver.session.messages().len();
    driver.run_turn("do something").ok().unwrap();
    assert!(driver.session.messages().len() > pre_turn_len);
    driver.session.discard_interrupted_turn(pre_turn_len);
    assert_eq!(driver.session.messages().len(), pre_turn_len);
}

#[test]
fn drain_steering_appends_onto_the_existing_message_at_that_index() {
    let replies = vec![
        tool_use_response("call_1", "echo", r#"{"text": "hi"}"#),
        text_response("done"),
    ];
    let mut driver = Driver::new(false, "test agent", replies, &["echo"]);
    driver.steering = vec![vec![], vec!["also check the licensing".to_string()]].into();
    driver.run_turn("do something").ok().unwrap();
    let at = driver.session.messages().iter().position(|m| m.role == Role::Tool).unwrap();
    assert!(holds_text(&driver.session.messages()[at], "also check the licensing"));
    assert!(driver.log.contains(&"steering:also check the licensing".to_string()));
}

#[test]
fn steering_text_arriving_during_a_toolless_turn_becomes_a_follow_up_turn() {
    let replies = vec![text_response("first reply"), text_response("second reply")];
    let mut driver = Driver::new(false, "test agent", replies, &[]);
    driver.steering = vec![vec![], vec!["also check the changelog".to_string()], vec![]].into();
    let last = driver.run_turn("first").ok().unwrap();
    assert_eq!(text_of(&last), "second reply");
    let messages = driver.session.messages();
    let steered = &messages[messages.len() - 2];
    assert_eq!(steered.role, Role::User);
    assert!(holds_text(steered, "also check the changelog"));
    assert_eq!(messages.len(), 4);
}

#[test]
fn steering_text_left_unconsumed_by_one_turn_carries_over_to_the_next() {
    let replies = vec![text_response("immediate reply"), text_response("second reply")];
    let mut driver = Driver::new(false, "test agent", replies, &[]);
    driver.run_turn("first").ok().unwrap();
    driver.steering = vec![vec!["don't forget the changelog".to_string()]].into();
    driver.run_turn("second").ok().unwrap();
    let messages = driver.session.messages();
    let second = messages.iter().rev().find(|m| m.role == Role::User).unwrap();
    assert!(holds_text(second, "second"));
    assert!(holds_text(second, "don't forget the changelog"));
}

#[test]
fn no_enable_steering_call_means_drain_is_a_harmless_noop() {
    let mut driver = Driver::new(false, "test agent", vec![text_response("reply")], &[]);
    assert!(driver.run_turn("hi").is_ok());
}

#[test]
fn context_length_error_triggers_compaction_and_retry() {
    let too_long = Err(ProviderError::Api {
        status: 400,
        body: "maximum context length exceeded".to_string(),
    });
    // One answer is used for the summary of what is dropped.
    let replies = vec![too_long, text_response("recovered"), text_response("recovered")];
    let mut driver = Driver::new(false, "test", replies, &[]);
    driver.session.restore("test".to_string(), user_messages(25));
    assert_eq!(text_of(&driver.run_turn("trigger").ok().unwrap()), "recovered");
    assert_eq!(driver.session.messages().len(), EMERGENCY_KEEP_RECENT + 1);
}

fn too_long() -> Reply {
    Err(ProviderError::Api { status: 413, body: String::new() })
}

#[test]
fn each_start_of_the_providers_turn_has_its_end() {
    let mut vetoed = Driver::new(true, "test", vec![too_long()], &[]);
    vetoed.session.restore("test".to_string(), user_messages(25));
    vetoed.veto = Some("keep it".to_string());
    assert!(matches!(vetoed.run_turn("go"), Err(AgentError::HookBlocked(r)) if r == "keep it"));
    assert_eq!((vetoed.starts, vetoed.ends), (1, 1));

    let replies = vec![too_long(), text_response("summary")];
    let mut refused = Driver::new(true, "test", replies, &[]);
    refused.session.restore("test".to_string(), user_messages(25));
    refused.refuse_from = 2;
    assert!(matches!(refused.run_turn("go"), Err(AgentError::HookBlocked(_))));
    assert_eq!((refused.starts, refused.ends), (1, 1));

    let replies = vec![
        rate_limited(),
        tool_use_response("call_1", "echo", r#"{"text": "hi"}"#),
        text_response("done"),
    ];
    let mut driver = Driver::new(true, "test", replies, &["echo"]);
    driver.run_turn("go").ok().unwrap();
    assert_eq!((driver.starts, driver.ends), (2, 2));
    let mut failing = Driver::new(false, "test", vec![bad_request()], &[]);
    assert!(failing.run_turn("go").is_err());
    assert_eq!((failing.starts, failing.ends), (1, 1));
}

#[test]
fn a_request_that_stays_too_large_fails() {
    let replies = vec![too_long(), text_response("summary"), too_long()];
    let mut driver = Driver::new(false, "test", replies, &[]);
    driver.session.restore("test".to_string(), user_messages(25));
    let err = driver.run_turn("go").err().unwrap();
    assert!(matches!(err, AgentError::Provider(ProviderError::Api { status: 413, .. })));
    assert!(driver.replies.is_empty());
}

#[test]
fn the_hook_on_the_start_is_asked_once() {
    let replies = vec![text_response("one"), text_response("two")];
    let mut driver = Driver::new(true, "test", replies, &[]);
    driver.run_turn("first").ok().unwrap();
    driver.run_turn("second").ok().unwrap();
    assert_eq!(driver.start_asked, 1);
}

#[test]
fn transient_errors_are_retried_until_success() {
    let replies =
        vec![rate_limited(), rate_limited(), rate_limited(), text_response("recovered")];
    let mut driver = Driver::new(false, "test", replies, &[]);
    assert_eq!(text_of(&driver.run_turn("go").ok().unwrap()), "recovered");
    assert_eq!(driver.slept, vec![1, 1, 1]);
}

#[test]
fn exhausting_transient_retries_surfaces_the_error() {
    let replies = (0..MAX_TRANSIENT_RETRIES + 1).map(|_| rate_limited()).collect();
    let mut driver = Driver::new(false, "test", replies, &[]);
    let err = driver.run_turn("go").err().unwrap();
    assert!(matches!(err, AgentError::Provider(ProviderError::RateLimited { .. })));
    assert!(driver.replies.is_empty());
}

#[test]
fn a_non_transient_error_rolls_the_turn_back_instead_of_leaving_a_dangling_message() {
    let mut driver = Driver::new(false, "test", vec![bad_request()], &[]);
    driver.session.restore(
        "test".to_string(),
        vec![
            Message::user_text("earlier turn"),
            Message {
                role: Role::Assistant,
                content: vec![ContentBlock::Text("earlier reply".to_string())],
                metadata: Json::Null,
            },
        ],
    );
    let pre_turn_len = driver.session.messages().len();
    let err = driver.run_turn("this will fail").err().unwrap();
    assert!(matches!(err, AgentError::Provider(ProviderError::Api { status: 400, .. })));
    assert_eq!(driver.session.messages().len(), pre_turn_len);
}

#[test]
fn a_failed_turn_does_not_prevent_the_next_turn_from_succeeding() {
    let replies = vec![bad_request(), text_response("recovered")];
    let mut driver = Driver::new(false, "test", replies, &[]);
    assert!(driver.run_turn("first, will fail").is_err());
    assert_eq!(text_of(&driver.run_turn("second, should work").ok().unwrap()), "recovered");
    assert_eq!(driver.session.messages().len(), 2);
}

#[test]
fn high_token_usage_triggers_proactive_compaction_under_message_threshold() {
    let replies = vec![
        with_usage(text_response("first"), TOKEN_COMPACT_THRESHOLD + 1, 0),
        text_response("summary"),
        text_response("second"),
    ];
    let mut driver = Driver::new(false, "test", replies, &[]);
    driver.run_turn("prime usage").ok().unwrap();
    driver.session.restore("test".to_string(), user_messages(44));
    driver.run_turn("go").ok().unwrap();
    assert_eq!(driver.session.messages().len(), KEEP_RECENT + 1);
}

#[test]
fn a_stale_read_file_result_is_collapsed_once_the_file_is_read_again() {
    let replies = vec![
        tool_use_response("call1", "read_file", r#"{"path": "a.txt"}"#),
        text_response("ok"),
        tool_use_response("call2", "read_file", r#"{"path": "a.txt"}"#),
        text_response("ok again"),
    ];
    let mut driver = Driver::new(false, "test", replies, &["read_file"]);
    driver.tool_output = Some("the real file content".to_string());
    driver.run_turn("read it").ok().unwrap();
    driver.run_turn("read it again").ok().unwrap();
    let (first, _) = tool_result(driver.session.messages(), "call1");
    assert!(first.contains("superseded") && first.contains("a.txt"), "got: {first}");
    let (second, _) = tool_result(driver.session.messages(), "call2");
    assert_eq!(second, "the real file content");
}

#[test]
fn reads_of_different_paths_are_left_alone() {
    let replies = vec![
        tool_use_response("call1", "read_file", r#"{"path": "a.txt"}"#),
        text_response("ok"),
        tool_use_response("call2", "read_file", r#"{"path": "b.txt"}"#),
        text_response("ok again"),
    ];
    let mut driver = Driver::new(false, "test", replies, &["read_file"]);
    driver.tool_output = Some("content".to_string());
    driver.run_turn("read a").ok().unwrap();
    driver.run_turn("read b").ok().unwrap();
    for id in ["call1", "call2"] {
        assert_eq!(tool_result(driver.session.messages(), id).0, "content", "{id}");
    }
}

#[test]
fn token_compact_threshold_scales_with_the_providers_context_window() {
    let session = AgentSession::new(provider("p", Some(8192)), false, "test".to_string());
    assert_eq!(session.token_compact_threshold(), 6144);
}

#[test]
fn token_compact_threshold_falls_back_to_the_constant_when_unknown() {
    let session = AgentSession::new(provider("p", None), false, "test".to_string());
    assert_eq!(session.token_compact_threshold(), TOKEN_COMPACT_THRESHOLD);
}

fn tool_use_message(id: &str, tool: &str, args: &str) -> Message {
    Message {
        role: Role::Assistant,
        content: vec![ContentBlock::ToolUse(call(id, tool, args))],
        metadata: Json::Null,
    }
}

#[test]
fn decision_ledger_captures_touched_files_commits_and_the_todo_list() {
    let mut ledger = DecisionLedger::default();
    ledger.record(&vec![
        tool_use_message("1", "write_file", r#"{"path": "src/a.rs"}"#),
        tool_use_message("2", "git_commit", r#"{"message": "add a.rs"}"#),
        tool_use_message(
            "3",
            "todo_write",
            r#"{"todos": [
                {"content": "write a.rs", "status": "completed"},
                {"content": "write tests", "status": "in_progress"}
            ]}"#,
        ),
    ]);
    let rendered = ledger.render().unwrap();
    assert!(rendered.contains("src/a.rs"), "{rendered}");
    assert!(rendered.contains("add a.rs"), "{rendered}");
    assert!(rendered.contains("[x] write a.rs"), "{rendered}");
    assert!(rendered.contains("[~] write tests"), "{rendered}");
}

#[test]
fn decision_ledger_keeps_only_the_latest_todo_write() {
    let mut ledger = DecisionLedger::default();
    ledger.record(&vec![tool_use_message(
        "1",
        "todo_write",
        r#"{"todos": [{"content": "first plan", "status": "pending"}]}"#,
    )]);
    ledger.record(&vec![tool_use_message(
        "2",
        "todo_write",
        r#"{"todos": [{"content": "revised plan", "status": "pending"}]}"#,
    )]);
    let rendered = ledger.render().unwrap();
    assert!(rendered.contains("revised plan"));
    assert!(!rendered.contains("first plan"));
}

#[test]
fn a_malformed_todo_write_leaves_the_list_as_it_was() {
    let mut ledger = DecisionLedger::default();
    let record = |ledger: &mut DecisionLedger, args: &str| {
        ledger.record(&vec![tool_use_message("1", "todo_write", args)]);
    };
    record(&mut ledger, r#"{"todos": [{"content": "first plan", "status": "pending"}]}"#);
    for malformed in [r#"{"todos": "oops"}"#, "{}", r#"{"todos": [{"status": "pending"}]}"#] {
        record(&mut ledger, malformed);
        assert!(ledger.render().unwrap().contains("[ ] first plan"), "{malformed}");
    }
    record(&mut ledger, r#"{"todos": []}"#);
    assert_eq!(ledger.render(), None);
}

#[test]
fn compacted_facts_reach_the_system_prompt_on_the_next_call() {
    let replies = vec![text_response("summary"), text_response("done")];
    let mut driver = Driver::new(false, "base prompt", replies, &[]);
    let mut seed = vec![tool_use_message("1", "write_file", r#"{"path": "src/a.rs"}"#)];
    seed.extend(user_messages(COMPACT_THRESHOLD));
    driver.session.restore("base prompt".to_string(), seed);
    driver.run_turn("go").ok().unwrap();
    let last = driver.prompts.last().unwrap();
    assert!(last.contains("src/a.rs"), "got: {last}");
    assert!(last.starts_with("base prompt"), "got: {last}");
}

/// A session whose oldest messages are dropped on the next turn.
fn about_to_drop(first: Vec<Message>, replies: Vec<Reply>) -> Driver {
    let mut driver = Driver::new(false, "test", replies, &[]);
    let mut seed = first;
    while seed.len() < COMPACT_THRESHOLD - KEEP_RECENT + 1 {
        seed.push(tool_use_message("1", "write_file", r#"{"path": "a.rs"}"#));
    }
    seed.extend(user_messages(KEEP_RECENT - 1));
    driver.session.restore("test".to_string(), seed);
    driver
}

#[test]
fn summarize_dropped_skips_the_call_when_theres_no_prose() {
    let mut driver = about_to_drop(Vec::new(), vec![text_response("done")]);
    driver.run_turn("go").ok().unwrap();
    assert!(driver.replies.is_empty());
    assert_eq!(driver.session.messages().len(), KEEP_RECENT + 1);
}

#[test]
fn summarize_dropped_is_best_effort_on_a_flaky_provider() {
    let first = vec![Message::user_text("please remember this")];
    let mut driver = about_to_drop(first, vec![bad_request(), text_response("done")]);
    assert_eq!(text_of(&driver.run_turn("go").ok().unwrap()), "done");
    assert!(driver.replies.is_empty());
    assert_eq!(driver.session.messages().len(), KEEP_RECENT + 1);
}

fn mocked(_call: &ToolCall) -> ToolCallDecision {
    ToolCallDecision::Override(ToolExecOutcome {
        content: "mocked by hook".to_string(),
        is_error: false,
        metadata: Json::Null,
    })
}

#[test]
fn tool_call_override_skips_the_real_tool_but_still_runs_on_tool_result() {
    let replies = vec![
        tool_use_response("call_1", "echo", r#"{"text": "hi"}"#),
        text_response("done"),
    ];
    let mut driver = Driver::new(true, "you are a test agent", replies, &["echo"]);
    driver.hook = Some(mocked);
    assert_eq!(text_of(&driver.run_turn("do something").ok().unwrap()), "done");
    assert_eq!(driver.executed, 0);
    let (text, _) = tool_result(&driver.session.messages()[2..3], "call_1");
    assert_eq!(text, "mocked by hook");
}

#[test]
fn on_budget_block_stops_the_turn() {
    let replies = vec![text_response("should never be returned")];
    let mut driver = Driver::new(true, "test", replies, &[]);
    driver.budget = Some("budget exceeded".to_string());
    let err = driver.run_turn("do something").err().unwrap();
    assert!(matches!(err, AgentError::HookBlocked(reason) if reason == "budget exceeded"));
    assert_eq!(driver.session.messages().len(), 0);
}

fn refused(_call: &ToolCall) -> ToolCallDecision {
    ToolCallDecision::Block("policy".to_string())
}

#[test]
fn a_blocked_call_is_answered_with_the_reason() {
    let replies = vec![tool_use_response("call_1", "echo", "{}"), text_response("ok")];
    let mut driver = Driver::new(true, "test", replies, &["echo"]);
    driver.hook = Some(refused);
    driver.run_turn("go").ok().unwrap();
    let (text, is_error) = tool_result(driver.session.messages(), "call_1");
    assert!(is_error && text.contains("policy"));
    assert_eq!(driver.executed, 0);
}

#[test]
fn an_unasked_answer_is_ignored() {
    let mut session = AgentSession::new(provider("p", None), false, "test".to_string());
    assert!(matches!(session.step(Event::Slept).action, Action::Ignored));
}
