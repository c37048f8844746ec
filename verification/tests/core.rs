use std::time::Duration;

use minder::ansi::strip_ansi;
use minder::bang::{format_for_agent, result_of, BangResult, CommandEnd};
use minder::cli::{combine_task_with_piped_input, MAX_STDIN_CHARS};
use minder::ledger::{DecisionLedger, DECISION_LEDGER_SUMMARY_CAP};
use minder::loop_mode::build_prompt;
use minder::mentions::at_mention_token;
use minder::message::{Message, ToolResult, ToolResultContent};
use minder::openai::to_openai_messages;
use minder::provider::{backoff_delay, is_transient_error, ProviderError};
use minder::reporter::truncate;
use minder::skill::{Skill, SkillTool};
use minder::suggest::levenshtein;
use minder::wasm::{pack, unpack};

#[test]
fn reporter_truncate_collapses_newlines_and_caps_length() {
    let s = "a\nb\nc".repeat(50);
    let out = truncate(&s, 10);
    assert!(!out.contains('\n'));
    assert!(out.ends_with("..."));
}

#[test]
fn truncate_collapses_newlines_and_caps_length() {
    let s = "a\nb\nc".repeat(50);
    let out = truncate(&s, 10);
    assert!(!out.contains('\n'));
    assert!(out.ends_with("..."));
    assert_eq!(out, "a b ca b c...");
    assert_eq!(truncate("a\nb", 10), "a b");
}

#[test]
fn tool_result_message_becomes_tool_role_with_call_id() {
    let messages = vec![Message::tool_results(vec![ToolResult {
        tool_call_id: "call_1".into(),
        content: ToolResultContent::Text("output".into()),
        is_error: false,
    }])];
    let mapped = to_openai_messages(&messages);
    assert_eq!(mapped.len(), 1);
    assert_eq!(mapped[0].role, "tool");
    assert_eq!(mapped[0].tool_call_id.as_deref(), Some("call_1"));
    assert_eq!(mapped[0].content.as_deref(), Some("output"));
}

#[test]
fn pack_unpack_round_trips() {
    let (ptr, len) = (12345u32, 678u32);
    let packed = pack(ptr, len);
    assert_eq!(unpack(packed), (ptr, len));
}

#[test]
fn pack_unpack_handles_zero() {
    assert_eq!(unpack(pack(0, 0)), (0, 0));
}

#[test]
fn tool_description_lists_available_skills() {
    let tool = SkillTool::new(vec![Skill {
        name: "example".to_string(),
        description: "an example skill".to_string(),
        body: String::new(),
    }]);
    assert!(tool.description().contains("example: an example skill"));
}

#[test]
fn format_for_agent_notes_a_failed_exit() {
    let result = BangResult { output: "boom".to_string(), success: false };
    let formatted = format_for_agent("false", &result);
    assert!(formatted.contains("failed"));
    assert!(formatted.contains("boom"));
}

#[test]
fn prompt_includes_remaining_items_and_instructs_checkoff() {
    let remaining = vec!["- [ ] a".to_string()];
    let prompt = build_prompt("TODO.md", &Some("ship the feature".to_string()), &remaining);
    assert!(prompt.contains("ship the feature"));
    assert!(prompt.contains("- [ ] a"));
    assert!(prompt.contains("TODO.md"));
    assert!(prompt.contains("- [x]"));
}

#[test]
fn empty_piped_input_leaves_the_task_untouched() {
    assert_eq!(combine_task_with_piped_input("do the thing".to_string(), ""), "do the thing");
    assert_eq!(combine_task_with_piped_input("do the thing".to_string(), "   \n  "), "do the thing");
}

#[test]
fn piped_input_is_appended_after_the_task() {
    let combined = combine_task_with_piped_input("summarize this".to_string(), "line one\nline two");
    assert!(combined.starts_with("summarize this"));
    assert!(combined.contains("line one\nline two"));
}

#[test]
fn oversized_piped_input_is_truncated_with_a_note() {
    let huge = "x".repeat(MAX_STDIN_CHARS + 500);
    let combined = combine_task_with_piped_input("task".to_string(), &huge);
    assert!(combined.contains("truncated to the first"));
    assert!(!combined.contains(&"x".repeat(MAX_STDIN_CHARS + 1)));
}

#[test]
fn at_mention_token_finds_the_word_under_the_cursor() {
    let line = "explain @src/mai";
    let (start, prefix) = at_mention_token(line, line.len()).unwrap();
    assert_eq!(start, 8);
    assert_eq!(prefix, "src/mai");
}

#[test]
fn at_mention_token_absent_for_plain_word() {
    assert_eq!(at_mention_token("explain this", 12), None);
}

#[test]
fn strip_ansi_removes_truecolor_codes_too() {
    assert_eq!(strip_ansi("\x1b[38;2;249;38;114mfn\x1b[0m"), "fn");
}

#[test]
fn levenshtein_finds_close_names_but_not_distant_ones() {
    assert_eq!(levenshtein("grep", "grep"), 0);
    assert_eq!(levenshtein("grpe", "grep"), 2);
    assert!(levenshtein("bash", "web_fetch") > 3);
}

#[test]
fn transient_errors_are_classified_correctly() {
    assert!(is_transient_error(&ProviderError::RateLimited { retry_after_secs: None }));
    assert!(is_transient_error(&ProviderError::Transport("boom".to_string())));
    assert!(is_transient_error(&ProviderError::Api { status: 503, body: String::new() }));
    assert!(!is_transient_error(&ProviderError::Api {
        status: 400,
        body: "bad request".to_string()
    }));
    assert!(!is_transient_error(&ProviderError::Deserialize("oops".to_string())));
    assert!(!is_transient_error(&ProviderError::Api { status: 600, body: String::new() }));
}

#[test]
fn backoff_honors_retry_after_and_otherwise_grows_exponentially_up_to_a_cap() {
    let delay = |attempt, err: &ProviderError| Duration::from_secs(backoff_delay(attempt, err));
    let rate_limited = ProviderError::RateLimited { retry_after_secs: Some(7) };
    assert_eq!(delay(0, &rate_limited), Duration::from_secs(7));

    let transport = ProviderError::Transport("x".to_string());
    assert_eq!(delay(0, &transport), Duration::from_secs(2));
    assert_eq!(delay(1, &transport), Duration::from_secs(4));
    assert_eq!(delay(10, &transport), Duration::from_secs(60));
}

#[test]
fn decision_ledger_renders_nothing_when_empty() {
    assert!(DecisionLedger::default().render().is_none());
}

#[test]
fn decision_ledger_caps_summaries_dropping_the_oldest() {
    let mut ledger = DecisionLedger::default();
    for i in 0..DECISION_LEDGER_SUMMARY_CAP + 2 {
        ledger.push_summary(format!("summary {i}"));
    }
    let rendered = ledger.render().unwrap();
    assert!(!rendered.contains("summary 0"), "oldest summary should have been dropped");
    assert!(rendered.contains(&format!("summary {}", DECISION_LEDGER_SUMMARY_CAP + 1)));
}

#[test]
fn long_output_is_truncated() {
    let result = result_of(CommandEnd::Done {
        stdout: "x\n".repeat(15_000),
        stderr: String::new(),
        success: true,
    });
    assert!(result.output.contains("truncated to the first"));
    assert!(result.output.chars().count() < 30_000);
    assert!(result.success);
}
