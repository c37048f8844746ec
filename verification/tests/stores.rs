use minder::config::{
    number_setting, show_status, text_setting, ConfigError, ProjectConfig,
};
use minder::file_reporter::{
    event_of, render_event, tool_call_event, tool_result_event, LogFormat,
};
use minder::history::{append_history, escape_history_line, load_history, unescape_history_line};
use minder::json::Json;
use minder::message::{Message, ToolCall, ToolExecOutcome, Usage};
use minder::provider_select::{build_provider, select_provider, ProviderEnv};
use minder::session::Report;
use minder::session_store::{
    id_of_file, key_for_path, load_by_id, load_latest, path_for, session_key, to_resume,
    SessionRecord,
};
use minder::status_reporter::StatusReporter;

fn json(text: &str) -> Json {
    Json::parse(text).expect("valid JSON")
}

fn text_in(j: &Json, key: &str) -> String {
    j.get_text(key).expect("a text").clone()
}

fn is_null(j: &Json, key: &str) -> bool {
    matches!(j.get(key), Some(Json::Null))
}

fn no_env() -> ProviderEnv {
    ProviderEnv {
        provider: None,
        model: None,
        request_timeout_secs: None,
        num_ctx: None,
        ollama_base_url: None,
        openai_compat_base_url: None,
        openai_compat_api_key: None,
    }
}

fn compat() -> ProjectConfig {
    ProjectConfig {
        openai_compat_base_url: Some("http://localhost:8080/v1".to_string()),
        ..Default::default()
    }
}

fn bash(arguments: &str) -> ToolCall {
    ToolCall { id: "1".to_string(), name: "bash".to_string(), arguments: json(arguments) }
}

#[test]
fn missing_file_resolves_to_all_none() {
    let cfg = ProjectConfig::default();
    assert_eq!(cfg.provider, None);
    assert_eq!(cfg.model, None);
    assert_eq!(cfg.ollama_base_url, None);
    assert_eq!(cfg.openai_compat_base_url, None);
    assert_eq!(cfg.request_timeout_secs, None);
    assert_eq!(cfg.num_ctx, None);
    assert_eq!(cfg.show_status_bar, None);
}

#[test]
fn settings_come_from_the_environment_first() {
    let env = Some("a".to_string());
    let file = Some("b".to_string());
    assert_eq!(text_setting(&env, &file).as_deref(), Some("a"));
    assert_eq!(text_setting(&None, &file).as_deref(), Some("b"));
    assert_eq!(number_setting(&Some("12".to_string()), Some(3), 100), Some(12));
    assert_eq!(number_setting(&Some("x".to_string()), Some(3), 100), Some(3));
    assert_eq!(number_setting(&None, None, 100), None);
    assert!(show_status(&None, &ProjectConfig::default()));
}

#[test]
fn openai_compat_without_a_base_url_is_a_clear_error() {
    let err = build_provider(
        "openai-compat",
        Some("some-model".to_string()),
        &ProjectConfig::default(),
        &no_env(),
    )
    .err()
    .unwrap();
    assert!(err.contains("MINDER_OPENAI_COMPAT_BASE_URL"), "{err}");
}

#[test]
fn openai_compat_without_a_model_is_a_clear_error() {
    let err = build_provider("openai-compat", None, &compat(), &no_env()).err().unwrap();
    assert!(err.contains("MINDER_MODEL"), "{err}");
}

#[test]
fn openai_compat_builds_when_base_url_and_model_are_set() {
    let provider =
        build_provider("openai-compat", Some("some-model".to_string()), &compat(), &no_env())
            .ok()
            .unwrap();
    assert_eq!(provider.id(), "openai-compat");
    assert_eq!(provider.model(), "some-model");
}

#[test]
fn unknown_provider_names_both_supported_providers() {
    let err = build_provider("not-a-provider", None, &ProjectConfig::default(), &no_env())
        .err()
        .unwrap();
    assert!(err.contains("ollama") && err.contains("openai-compat"), "{err}");
}

#[test]
fn ollama_is_the_default_provider() {
    let chosen = select_provider(&ProjectConfig::default(), &no_env()).ok().unwrap();
    assert_eq!(chosen.id(), "ollama");
    assert_eq!(chosen.model(), "llama3.2");
    let env = ProviderEnv { model: Some("m".to_string()), ..no_env() };
    assert_eq!(select_provider(&compat(), &env).ok().unwrap().model(), "m");
}

#[test]
fn save_then_load_by_exact_id_round_trips() {
    let mut record = SessionRecord::new(5);
    record.system_prompt = "sys".to_string();
    record.messages = vec![Message::user_text("hello there")];
    record.refresh(7);
    assert_eq!(record.summary, "hello there");
    assert_eq!(record.updated_at, 7);
    let names = vec![format!("{}.json", record.id)];
    let path = load_by_id("/w", &record.id, true, &names).ok().unwrap().unwrap();
    assert_eq!(path, path_for("/w", &record.id));
    let loaded = SessionRecord::from_text(&record.to_text()).unwrap();
    assert_eq!(loaded.id, record.id);
    assert_eq!(loaded.created_at, 5);
    assert_eq!(loaded.updated_at, 7);
    assert_eq!(loaded.system_prompt, "sys");
    assert_eq!(loaded.messages.len(), 1);
    assert_eq!(loaded.messages[0].text(), "hello there");
    assert_eq!(loaded.summary, "hello there");
    assert!(!loaded.interrupted);
}

fn carrying(metadata: &str) -> SessionRecord {
    let mut record = SessionRecord::new(5);
    let mut message = Message::user_text("hello");
    message.metadata = json(metadata);
    record.messages = vec![message];
    record
}

#[test]
fn a_session_with_numbers_of_all_kinds_and_deep_values_reads_back() {
    let nested = |n: usize| format!("{}1{}", "[".repeat(n), "]".repeat(n));
    let fractions = r#"[0.5, -0.0, 0.1, 1e300, 123456789.12345679, 5e-324]"#;
    for metadata in
        [r#"{"offset": -7, "least": -9223372036854775808}"#, fractions, &nested(124)]
    {
        let record = carrying(metadata);
        assert!(record.reads_back());
        let loaded = SessionRecord::from_text(&record.to_text()).unwrap();
        assert_eq!(loaded.messages[0].metadata.text(), json(metadata).text());
    }
    assert!(!carrying(&nested(125)).reads_back());
    assert!(SessionRecord::from_text(&carrying(&nested(125)).to_text()).is_none());
    let mut twice = carrying("null");
    let member = || ("k".to_string(), Json::Null);
    twice.messages[0].metadata = Json::object(vec![member(), member()]);
    assert!(!twice.reads_back());
}

#[test]
fn a_file_without_the_flag_was_not_interrupted() {
    let text = r#"{"id": "a", "created_at": 1, "updated_at": 2, "system_prompt": "",
        "messages": [], "summary": ""}"#;
    assert!(!SessionRecord::from_text(text).unwrap().interrupted);
    let flagged = text.replace(r#""summary": """#, r#""summary": "", "interrupted": true"#);
    assert!(SessionRecord::from_text(&flagged).unwrap().interrupted);
    assert!(SessionRecord::from_text(&text.replace("1,", "-1,")).is_none());
    assert!(SessionRecord::from_text("{}").is_none());
    assert!(SessionRecord::from_text("no session").is_none());
}

#[test]
fn load_by_id_matches_unambiguous_prefix() {
    let record = SessionRecord::new(1);
    let names = vec!["other.json".to_string(), format!("{}.json", record.id)];
    let path = load_by_id("/w", &record.id[..8], false, &names).ok().unwrap().unwrap();
    assert_eq!(path, path_for("/w", &record.id));
}

#[test]
fn an_ambiguous_prefix_is_an_error() {
    let names = vec!["ab1.json".to_string(), "ab2.json".to_string()];
    assert!(load_by_id("/w", "ab", false, &names).is_err());
}

#[test]
fn load_latest_picks_the_most_recently_saved() {
    let mut older = SessionRecord::new(1);
    older.updated_at = 100;
    let mut newer = SessionRecord::new(1);
    newer.updated_at = 200;
    let newer_id = newer.id.clone();
    let latest = load_latest(vec![older, newer]).unwrap();
    assert_eq!(latest.id, newer_id);
    assert!(load_latest(Vec::new()).is_none());
}

#[test]
fn load_by_id_returns_none_when_missing() {
    let names = vec!["something.json".to_string()];
    assert!(load_by_id("/w", "does-not-exist", false, &names).ok().unwrap().is_none());
}

#[test]
fn key_for_path_is_stable_and_distinguishes_different_paths() {
    let a = "/tmp/scratch/TODO.md";
    let b = "/tmp/scratch/OTHER.md";
    assert_eq!(key_for_path(a), key_for_path(a));
    assert_ne!(key_for_path(a), key_for_path(b));
    assert_ne!(session_key("schedule", "x"), session_key("loop", "x"));
}

#[test]
fn loop_session_round_trips_by_its_deterministic_key() {
    let key = key_for_path("/tmp/scratch/TODO.md");
    let record = SessionRecord::with_id(key.clone(), 3);
    assert_eq!(record.id, key);
    let names = vec![format!("{key}.json")];
    let path = load_by_id("/w", &key, true, &names).ok().unwrap().unwrap();
    assert_eq!(path, path_for("/w", &key));
    assert_eq!(id_of_file(&names[0]), Some(key));
    assert_eq!(id_of_file("notes.txt"), None);
}

#[test]
fn fresh_records_have_distinct_well_formed_ids() {
    let a = SessionRecord::new(1);
    let b = SessionRecord::new(1);
    assert_ne!(a.id, b.id);
    assert_eq!(a.id.len(), 36);
    assert_eq!(a.id.as_bytes()[14], b'4');
}

#[test]
fn only_a_cut_off_turn_is_resumed() {
    let mut record = SessionRecord::with_id("a".to_string(), 1);
    record.mark_turn_started(2);
    assert!(record.interrupted);
    assert!(to_resume(Some(record)).is_some());
    let mut done = SessionRecord::with_id("b".to_string(), 1);
    done.mark_turn_started(2);
    done.conclude_turn("sys".to_string(), vec![Message::user_text("x")], 3);
    assert!(!done.interrupted);
    assert!(to_resume(Some(done)).is_none());
}

#[test]
fn idle_before_any_event() {
    let reporter = StatusReporter::new("idle.json".to_string());
    let snapshot = reporter.snapshot(1, 2);
    assert_eq!(text_in(&snapshot, "state"), "idle");
    assert!(is_null(&snapshot, "current_action"));
}

#[test]
fn turn_start_reports_running_and_turn_end_reports_idle() {
    let mut reporter = StatusReporter::new("turn.json".to_string());
    reporter.on_turn_start(5);
    let running = reporter.snapshot(1, 6);
    assert_eq!(text_in(&running, "state"), "running");
    assert_eq!(text_in(&running, "current_action"), "Waiting on model");
    assert!(!is_null(&running, "turn_started_at"));
    reporter.on_turn_end();
    let idle = reporter.snapshot(1, 7);
    assert_eq!(text_in(&idle, "state"), "idle");
    assert!(is_null(&idle, "turn_started_at"));
}

#[test]
fn a_provider_error_still_clears_running_via_the_paired_turn_end() {
    let mut reporter = StatusReporter::new("error.json".to_string());
    reporter.on_turn_start(5);
    reporter.on_turn_end();
    assert_eq!(text_in(&reporter.snapshot(1, 6), "state"), "idle");
}

#[test]
fn a_tool_call_nested_inside_a_turn_stays_running_until_both_close() {
    let mut reporter = StatusReporter::new("nested.json".to_string());
    reporter.on_turn_start(1);
    reporter.on_turn_end();
    reporter.on_tool_call(&bash("{}"), 2);
    let mid = reporter.snapshot(1, 3);
    assert_eq!(text_in(&mid, "state"), "running");
    assert_eq!(text_in(&mid, "current_action"), "Running bash");
    reporter.on_tool_result();
    assert_eq!(text_in(&reporter.snapshot(1, 4), "state"), "idle");
}

#[test]
fn a_status_is_idle_once_as_much_is_over_as_has_started() {
    let mut reporter = StatusReporter::new("deep.json".to_string());
    reporter.enter("a", 1);
    reporter.enter("b", 2);
    reporter.leave();
    reporter.enter("c", 3);
    reporter.leave();
    assert_eq!(text_in(&reporter.snapshot(1, 4), "state"), "running");
    reporter.leave();
    assert_eq!(text_in(&reporter.snapshot(1, 5), "state"), "idle");
    reporter.leave();
    assert_eq!(text_in(&reporter.snapshot(1, 6), "state"), "idle");
}

#[test]
fn provider_changed_updates_the_snapshot_without_touching_running_state() {
    let mut reporter = StatusReporter::new("provider.json".to_string());
    reporter.on_provider_changed("anthropic", "sonnet-5");
    let snapshot = json(&reporter.rendered(1, 2));
    assert_eq!(text_in(&snapshot, "provider"), "anthropic");
    assert_eq!(text_in(&snapshot, "model"), "sonnet-5");
    assert_eq!(text_in(&snapshot, "state"), "idle");
    assert_ne!(reporter.tmp_path(), reporter.path());
}

#[test]
fn writes_assistant_text_and_tool_events_as_lines() {
    let log = |report: Report| render_event(LogFormat::Text, 1, event_of(&report).unwrap());
    let mut contents = log(Report::TurnStart);
    contents += &log(Report::AssistantText("hello there".to_string()));
    contents += &log(Report::Thinking("mulling it over".to_string()));
    contents += &render_event(LogFormat::Text, 1, tool_call_event(&bash(r#"{"command": "ls"}"#)));
    let outcome = ToolExecOutcome {
        content: "a.txt".to_string(),
        is_error: false,
        metadata: Json::Null,
    };
    contents += &render_event(LogFormat::Text, 1, tool_result_event(&bash("{}"), &outcome));
    contents += &log(Report::Usage(Usage { input_tokens: 100, output_tokens: 20 }));
    assert!(contents.contains("turn: waiting on model"));
    assert!(contents.contains("assistant: hello there"));
    assert!(contents.contains("thinking: mulling it over"));
    assert!(contents.contains("tool_call: bash"));
    assert!(contents.contains("tool_result: bash [ok] a.txt"));
    assert!(contents.contains("usage: input=100 output=20"));
}

#[test]
fn a_retry_is_logged_with_its_delay() {
    let line = |delay_secs: u64| {
        let reason = "busy".to_string();
        let report = Report::Retry { attempt: 1, max_attempts: 5, delay_secs, reason };
        render_event(LogFormat::Text, 9, event_of(&report).unwrap())
    };
    assert_eq!(line(0), "[9] retry 1/5 in 0ns: busy");
    assert_eq!(line(2), "[9] retry 1/5 in 2s: busy");
}

#[test]
fn an_event_takes_one_line_whatever_its_text() {
    let said = || event_of(&Report::AssistantText("a\nb\n\nc".to_string())).unwrap();
    assert_eq!(render_event(LogFormat::Text, 3, said()), "[3] assistant: a b  c");
    let object = render_event(LogFormat::Json, 3, said());
    assert!(!object.contains('\n'));
    assert_eq!(text_in(&json(&object), "text"), "a\nb\n\nc");
}

#[test]
fn json_format_emits_one_parseable_object_per_line() {
    let json_line = |e| json(render_event(LogFormat::Json, 7, e).trim_end());
    let start = json_line(event_of(&Report::TurnStart).unwrap());
    assert_eq!(text_in(&start, "event"), "turn_start");
    let call = json_line(tool_call_event(&bash(r#"{"command": "ls"}"#)));
    assert_eq!(text_in(&call, "event"), "tool_call");
    assert_eq!(text_in(&call, "name"), "bash");
    assert_eq!(text_in(call.get("arguments").unwrap(), "command"), "ls");
    let usage = Report::Usage(Usage { input_tokens: 100, output_tokens: 20 });
    let usage = json_line(event_of(&usage).unwrap());
    assert_eq!(text_in(&usage, "event"), "usage");
    assert_eq!(usage.get_u64("input_tokens"), Some(100));
}

#[test]
fn the_log_format_is_chosen_by_name() {
    assert!(LogFormat::from_env(&Some("json".to_string())) == LogFormat::Json);
    assert!(LogFormat::from_env(&Some("text".to_string())) == LogFormat::Text);
    assert!(LogFormat::from_env(&Some("JSON".to_string())) == LogFormat::Text);
    assert!(LogFormat::from_env(&None) == LogFormat::Text);
}

#[test]
fn round_trips_entries_through_the_v2_escaped_format() {
    let mut contents = append_history("plain line", true);
    contents += &append_history("line with\nan embedded newline", false);
    contents += &append_history(r"line with a \ backslash", false);
    assert_eq!(
        load_history(&contents),
        vec![
            "plain line".to_string(),
            "line with\nan embedded newline".to_string(),
            r"line with a \ backslash".to_string(),
        ]
    );
}

#[test]
fn missing_history_file_loads_as_empty() {
    assert!(load_history("").is_empty());
}

#[test]
fn escaping_keeps_a_line_in_one_line() {
    let line = "a\\nb\nc\\";
    let escaped = escape_history_line(line);
    assert!(!escaped.contains('\n'));
    assert_eq!(unescape_history_line(&escaped), line);
}

#[test]
fn settings_that_cannot_be_loaded_are_named() {
    let io = ConfigError::Io("c.toml".to_string(), "denied".to_string());
    assert_eq!(io.message(), "failed to read c.toml: denied");
    let parse = ConfigError::Parse("c.toml".to_string(), "bad".to_string());
    assert_eq!(parse.message(), "failed to parse c.toml: bad");
}
