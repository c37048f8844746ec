use minder::anthropic::{from_anthropic_response, to_anthropic_block, AnthropicResponse};
use minder::compaction::dedup_stale_reads;
use minder::gemini::{from_gemini_response, to_gemini_contents, GmCandidate, GmContent, GmPart, GmResponse};
use minder::input_box::InputOutcome;
use minder::json::Json;
use minder::layout::{bottom_area, transcript_area, Rect};
use minder::ledger::{
    DecisionLedger, DECISION_LEDGER_COMMIT_CAP, DECISION_LEDGER_FILE_CAP,
};
use minder::mcp::{server_tools, RemoteTool};
use minder::message::{
    ContentBlock, Message, Role, ToolCall, ToolResult, ToolResultContent,
};
use minder::provider::{backoff_delay, ProviderError};
use minder::session::AgentError;
use minder::session_store::{key_for_path, load_latest, SessionRecord};
use minder::setup::{LogFile, Setup, SetupEvent, Stage};
use minder::slash::{parse_slash_command, slash_commands, SlashCommand};
use minder::suggest::levenshtein;
use minder::tui::{
    classify_line, read_line, remove_pending, turn_error_notices, Entered, LineAction, LineEvent,
    RunAction, RunEvent, TurnWatch,
};

fn json(text: &str) -> Json {
    Json::parse(text).expect("valid JSON")
}

fn read_call(id: &str, path: &str) -> Message {
    Message {
        role: Role::Assistant,
        content: vec![ContentBlock::ToolUse(ToolCall {
            id: id.to_string(),
            name: "read_file".to_string(),
            arguments: json(&format!(r#"{{"path": "{path}"}}"#)),
        })],
        metadata: Json::Null,
    }
}

fn result(id: &str, content: &str) -> Message {
    Message::tool_results(vec![ToolResult {
        tool_call_id: id.to_string(),
        content: ToolResultContent::Text(content.to_string()),
        is_error: false,
    }])
}

fn result_texts(messages: &[Message]) -> Vec<String> {
    let mut texts = Vec::new();
    for message in messages {
        for block in &message.content {
            if let ContentBlock::ToolResult(r) = block {
                match &r.content {
                    ToolResultContent::Text(t) => texts.push(t.clone()),
                    _ => panic!("expected Text"),
                }
            }
        }
    }
    texts
}

#[test]
fn assistant_blocks_survive_the_wire() {
    let call = ToolCall {
        id: "t1".to_string(),
        name: "bash".to_string(),
        arguments: json(r#"{"command": "ls"}"#),
    };
    let sent = vec![
        to_anthropic_block(&ContentBlock::Text("hello".to_string())),
        to_anthropic_block(&ContentBlock::ToolUse(call)),
    ];
    let back = from_anthropic_response(AnthropicResponse {
        content: sent,
        stop_reason: None,
        input_tokens: 0,
        output_tokens: 0,
    });
    assert_eq!(back.message.text(), "hello");
    let calls = back.message.tool_calls();
    assert_eq!(calls[0].id, "t1");
    assert_eq!(calls[0].arguments.text(), r#"{"command":"ls"}"#);
}

#[test]
fn gemini_answers_are_matched_to_their_calls() {
    let response = from_gemini_response(GmResponse {
        candidates: vec![GmCandidate {
            content: Some(GmContent {
                role: None,
                parts: vec![
                    GmPart::FunctionCall { name: "ls".to_string(), args: json("{}") },
                    GmPart::FunctionCall { name: "ls".to_string(), args: json("{}") },
                    GmPart::FunctionCall { name: "ns::tool".to_string(), args: json("{}") },
                    GmPart::FunctionCall { name: "odd:".to_string(), args: json("{}") },
                ],
            }),
            finish_reason: None,
        }],
        usage_metadata: None,
    })
    .ok()
    .unwrap();
    let calls = response.message.tool_calls();
    assert_ne!(calls[0].id, calls[1].id);
    for call in calls {
        let mapped = to_gemini_contents(&vec![result(&call.id, "x")]);
        match &mapped[0].parts[0] {
            GmPart::FunctionResponse { name, .. } => assert_eq!(name, &call.name),
            _ => panic!("expected FunctionResponse"),
        }
    }
}

#[test]
fn collapsing_stale_reads_twice_is_collapsing_once() {
    let mut messages = vec![
        read_call("1", "a.txt"),
        result("1", "old"),
        read_call("2", "b.txt"),
        result("2", "other"),
        read_call("3", "a.txt"),
        result("3", "new"),
    ];
    dedup_stale_reads(&mut messages);
    let once = result_texts(&messages);
    assert_ne!(once[0], "old");
    assert_eq!(once[1..], ["other".to_string(), "new".to_string()]);
    dedup_stale_reads(&mut messages);
    assert_eq!(result_texts(&messages), once);
}

#[test]
fn distances_are_symmetric_and_zero_only_for_equal_texts() {
    let words = ["", "grep", "grpe", "glob", "日本", "web_fetch"];
    for a in words {
        for b in words {
            assert_eq!(levenshtein(a, b), levenshtein(b, a));
            assert_eq!(levenshtein(a, b) == 0, a == b);
        }
    }
    assert_eq!(levenshtein("kitten", "sitting"), 3);
}

#[test]
fn a_detour_is_no_shorter_than_the_way() {
    let words = ["", "grep", "grpe", "glob", "日本", "web_fetch", "fetch"];
    for a in words {
        for b in words {
            for c in words {
                assert!(levenshtein(a, c) <= levenshtein(a, b) + levenshtein(b, c));
            }
        }
    }
    assert_eq!(levenshtein("grep", "gre"), 1);
    assert_eq!(levenshtein("grep", "grepp"), 1);
    assert_eq!(levenshtein("grep", "grap"), 1);
}

#[test]
fn delays_grow_to_a_minute() {
    let err = ProviderError::Transport("x".to_string());
    let delays: Vec<u64> = (0..100).map(|i| backoff_delay(i, &err)).collect();
    assert!(delays.windows(2).all(|w| w[0] <= w[1]));
    assert_eq!(delays[99], 60);
}

#[test]
fn the_screen_is_filled_without_overlap() {
    for height in 0..12 {
        let frame = Rect { x: 0, y: 0, width: 40, height };
        let pending = vec!["q".to_string()];
        let top = transcript_area(frame, "a\nb", &pending);
        let bottom = bottom_area(frame, "a\nb", &pending);
        assert_eq!(top.height + bottom.height, height);
        assert_eq!(top.y + top.height, bottom.y);
    }
}

#[test]
fn the_ledger_keeps_within_its_caps() {
    let mut ledger = DecisionLedger::new();
    let calls = |name: &str, key: &str| -> Vec<Message> {
        (0..50)
            .map(|i| Message {
                role: Role::Assistant,
                content: vec![ContentBlock::ToolUse(ToolCall {
                    id: format!("{i}"),
                    name: name.to_string(),
                    arguments: json(&format!(r#"{{"{key}": "item-{i}-"}}"#)),
                })],
                metadata: Json::Null,
            })
            .collect()
    };
    ledger.record(&calls("write_file", "path"));
    assert_eq!(ledger.render().unwrap().matches("item-").count(), DECISION_LEDGER_FILE_CAP);
    let mut commits = DecisionLedger::new();
    commits.push_summary("recap".to_string());
    commits.record(&calls("git_commit", "message"));
    assert_eq!(commits.render().unwrap().matches("item-").count(), DECISION_LEDGER_COMMIT_CAP);
    let last: Vec<String> = (38..50).map(|i| format!("item-{i}-")).collect();
    assert_eq!(commits.commits, last);
    assert_eq!(commits.summaries, ["recap"]);
    ledger.record(&calls("delete_file", "path"));
    let mut files = ledger.touched_files.clone();
    files.sort();
    files.dedup();
    assert_eq!(files.len(), DECISION_LEDGER_FILE_CAP);
}

#[test]
fn a_second_cancel_cuts_a_turn_off() {
    let mut watch = TurnWatch::new();
    assert!(matches!(watch.step(RunEvent::Tick, 0), RunAction::Redraw));
    match watch.step(RunEvent::Key(InputOutcome::CancelTurn), 1000) {
        RunAction::Cancel { deadline } => assert_eq!(deadline, 2500),
        _ => panic!("expected Cancel"),
    }
    assert!(matches!(
        watch.step(RunEvent::Key(InputOutcome::CancelTurn), 1100),
        RunAction::Interrupt
    ));
    assert!(matches!(watch.step(RunEvent::DeadlinePassed, 2500), RunAction::Interrupt));
    assert!(matches!(watch.step(RunEvent::Finished, 2500), RunAction::Return));
}

#[test]
fn entered_lines_are_sorted() {
    assert!(matches!(classify_line("  "), Entered::Nothing));
    assert!(matches!(classify_line("exit"), Entered::Leave));
    assert!(matches!(classify_line("quit "), Entered::Leave));
    assert!(matches!(classify_line("/help"), Entered::Command(c) if c == "help"));
    assert!(matches!(classify_line(" fix it "), Entered::Task(t) if t == "fix it"));
    assert!(matches!(read_line(LineEvent::End), LineAction::Stop));
    assert!(matches!(read_line(LineEvent::Key(InputOutcome::Quit)), LineAction::Stop));
    assert!(matches!(
        read_line(LineEvent::Key(InputOutcome::CtrlCHint)),
        LineAction::RedrawWithHint
    ));
}

#[test]
fn an_answered_question_is_gone() {
    let mut pending = vec!["a".to_string(), "b".to_string(), "a".to_string()];
    remove_pending(&mut pending, "b");
    assert_eq!(pending, vec!["a".to_string(), "a".to_string()]);
    remove_pending(&mut pending, "a");
    assert_eq!(pending, vec!["a".to_string()]);
    let err = AgentError::Provider(ProviderError::Transport("down".to_string()));
    assert!(turn_error_notices(&err, false).join("\n").contains("down"));
}

#[test]
fn keys_can_stand_in_file_names() {
    let key = key_for_path("/home/u/my project/TÖDO.md");
    assert!(key.chars().all(|c| c.is_ascii_alphanumeric() || "-_.".contains(c)), "{key}");
}

#[test]
fn the_latest_of_equal_times_is_the_first() {
    let record = |id: &str| SessionRecord::with_id(id.to_string(), 5);
    assert_eq!(load_latest(vec![record("a"), record("b")]).unwrap().id, "a");
}

#[test]
fn agents_of_the_project_replace_built_in_ones() {
    let mut setup = Setup::new(&vec!["explore".to_string(), "plan".to_string()]);
    let own = vec!["plan".to_string(), "own".to_string()];
    setup.stage = Stage::LogFile;
    let log = LogFile { path: "l".to_string(), result: Ok(()) };
    assert!(setup.on(SetupEvent::LogFile(Some(log))).is_ok());
    assert!(setup.on(SetupEvent::StatusFile(Some("s".to_string()))).is_ok());
    assert!(setup.on(SetupEvent::Subagents(Ok(own))).is_ok());
    let mut names: Vec<&str> = setup.agents.iter().map(|a| a.name.as_str()).collect();
    names.sort();
    assert_eq!(names, vec!["explore", "own", "plan"]);
    let plan = setup.agents.iter().find(|a| a.name == "plan").unwrap();
    assert_eq!(plan.found, Some(0));
    assert!(setup.has_several_reporters());
}

#[test]
fn offered_commands_are_understood() {
    for name in slash_commands() {
        assert!(!matches!(parse_slash_command(&name), SlashCommand::Unknown(_)), "{name}");
    }
}

#[test]
fn tools_of_one_server_stay_apart() {
    let tool = |name: &str| RemoteTool {
        name: name.to_string(),
        description: None,
        input_schema: json("{}"),
    };
    let specs = server_tools("s", &vec![tool("a"), tool("b")]);
    assert_ne!(specs[0].name, specs[1].name);
    let other = server_tools("s2", &vec![tool("a")]);
    assert_ne!(specs[0].name, other[0].name);
}
