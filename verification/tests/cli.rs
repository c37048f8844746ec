use minder::cli::{
    banner_lines, chat_notice, color_enabled, command_from, json_result_payload, one_shot_error,
    recurring_session, resumed_record, rule_line, rule_width, schedule_notice, switch_notice,
    undo_lines, Cli, CliCommand, Command, OutputFormat, Recurring, Repl, ReplAction, ReplEvent,
};
use minder::json::Json;
use minder::message::{ContentBlock, Message, Role};
use minder::session::AgentError;
use minder::session_store::SessionRecord;

fn text_in(j: &Json, key: &str) -> String {
    j.get_text(key).expect("a text").clone()
}

fn is_null(j: &Json, key: &str) -> bool {
    matches!(j.get(key), Some(Json::Null))
}

#[test]
fn json_payload_carries_the_answer_on_success() {
    let ok: Result<Message, AgentError> = Ok(Message {
        role: Role::Assistant,
        content: vec![ContentBlock::Text("42".to_string())],
        metadata: Json::Null,
    });
    let payload = json_result_payload("ollama", "llama3.2", &ok);
    assert_eq!(text_in(&payload, "provider"), "ollama");
    assert_eq!(text_in(&payload, "model"), "llama3.2");
    assert_eq!(text_in(&payload, "answer"), "42");
    assert!(is_null(&payload, "error"));
}

#[test]
fn json_payload_carries_the_error_on_failure() {
    let err: Result<Message, AgentError> =
        Err(AgentError::HookBlocked("blocked by policy".to_string()));
    let payload = json_result_payload("ollama", "llama3.2", &err);
    assert!(is_null(&payload, "answer"));
    assert!(text_in(&payload, "error").contains("blocked by policy"));
}

#[test]
fn one_shot_failures_are_reported_once() {
    let err: Result<Message, AgentError> = Err(AgentError::HookBlocked("no".to_string()));
    assert!(one_shot_error(OutputFormat::Text, &err).unwrap().contains("no"));
    let ok: Result<Message, AgentError> = Ok(Message::user_text("x"));
    assert_eq!(one_shot_error(OutputFormat::Text, &ok), None);
}

fn bare() -> Cli {
    Cli { command: None, go_on: false, resume: None, output: OutputFormat::Text, task: None }
}

#[test]
fn arguments_choose_the_command() {
    assert!(matches!(command_from(bare()), Command::Chat));
    let task = Some("fix".to_string());
    assert!(matches!(command_from(Cli { task: task.clone(), ..bare() }), Command::OneShot { .. }));
    assert!(matches!(
        command_from(Cli { go_on: true, task, ..bare() }),
        Command::Continue { task: Some(_), .. }
    ));
    assert!(matches!(
        command_from(Cli { resume: Some("ab".to_string()), ..bare() }),
        Command::Resume { task: None, .. }
    ));
    let schedule = CliCommand::Schedule { task: "t".to_string(), every_secs: 5, max_runs: Some(2) };
    assert!(matches!(
        command_from(Cli { command: Some(schedule), ..bare() }),
        Command::Schedule { every_secs: 5, max_runs: Some(2), .. }
    ));
}

#[test]
fn rules_fit_the_terminal() {
    assert_eq!(rule_width(None), 64);
    assert_eq!(rule_width(Some(10)), 20);
    assert_eq!(rule_width(Some(81)), 80);
    assert_eq!(rule_line(3, false).chars().count(), 3);
    assert!(color_enabled(true, false));
    assert!(!color_enabled(true, true));
    assert!(!color_enabled(false, false));
}

#[test]
fn the_banner_tells_whether_a_session_is_resumed() {
    let fresh = banner_lines(false, "1.0", "ollama", 0, "/w").join("\n");
    assert!(fresh.contains("new session"));
    let resumed = banner_lines(false, "1.0", "ollama", 3, "/w").join("\n");
    assert!(resumed.contains("resumed, 3 prior message(s)"));
    assert!(chat_notice(3).contains('3'));
}

#[test]
fn a_second_ctrl_c_soon_after_the_first_leaves() {
    let mut repl = Repl::new();
    assert!(matches!(repl.step(ReplEvent::Interrupted, 1000), ReplAction::Warn));
    assert!(matches!(repl.step(ReplEvent::Interrupted, 4000), ReplAction::Warn));
    assert!(matches!(repl.step(ReplEvent::Interrupted, 4500), ReplAction::Leave(None)));
    assert!(matches!(repl.step(ReplEvent::Eof, 5000), ReplAction::Leave(None)));
    assert!(matches!(
        repl.step(ReplEvent::Failed("tty".to_string()), 5000),
        ReplAction::Leave(Some(_))
    ));
    assert!(matches!(repl.step(ReplEvent::Line("hi".to_string()), 5000), ReplAction::Enter(_)));
}

#[test]
fn recurring_work_resumes_its_session() {
    let work = Recurring::Schedule("check".to_string());
    let fresh = recurring_session(Ok(None), "key".to_string(), &work, 9);
    assert!(!fresh.restore);
    assert_eq!(fresh.record.id, "key");
    assert_eq!(fresh.record.created_at, 9);
    let mut old = SessionRecord::with_id("key".to_string(), 1);
    old.messages.push(Message::user_text("hi"));
    let again = recurring_session(Ok(Some(old)), "key".to_string(), &work, 9);
    assert!(again.restore);
    assert_eq!(again.record.created_at, 1);
    assert!(schedule_notice("check", 60).contains("60"));
}

#[test]
fn a_session_to_resume_must_exist() {
    assert!(resumed_record(Ok(None)).is_err());
    assert!(resumed_record(Err("broken".to_string())).is_err());
    assert!(resumed_record(Ok(Some(SessionRecord::with_id("a".to_string(), 1)))).is_ok());
}

#[test]
fn notices_name_what_changed() {
    assert_ne!(switch_notice("thinking", true), switch_notice("thinking", false));
    let undone = undo_lines(&vec!["a.rs".to_string()]).join("\n");
    assert!(undone.contains("a.rs"));
    assert_ne!(undo_lines(&Vec::new()), undo_lines(&vec!["a.rs".to_string()]));
}
