use minder::hooks::RenderDecision;
use minder::json::Json;
use minder::message::{ToolCall, ToolExecOutcome};
use minder::reporter::{
    summarize_args, Elapsed, SpinnerLabel, SpinnerState, TerminalReporter, MAX_DIFF_LINES,
};

fn json(text: &str) -> Json {
    Json::parse(text).expect("valid JSON")
}

fn no_color_reporter() -> TerminalReporter {
    TerminalReporter { color: false, interactive: false }
}

fn call() -> ToolCall {
    ToolCall {
        id: "1".to_string(),
        name: "bash".to_string(),
        arguments: json(r#"{"command": "ls"}"#),
    }
}

fn outcome() -> ToolExecOutcome {
    ToolExecOutcome { content: "a.txt".to_string(), is_error: false, metadata: Json::Null }
}

fn label(key: &str, name: &str, started: u64) -> SpinnerLabel {
    SpinnerLabel { key: key.to_string(), label: name.to_string(), started }
}

#[test]
fn reporter_summarizes_path_argument() {
    let args = json(r#"{"path": "src/main.rs", "content": "..."}"#);
    assert_eq!(summarize_args(&args), "path=src/main.rs");
}

#[test]
fn reporter_falls_back_to_truncated_json() {
    let args = json(r#"{"foo": "bar"}"#);
    assert_eq!(summarize_args(&args), r#"{"foo":"bar"}"#);
}

#[test]
fn no_hooks_configured_always_defaults() {
    let reporter = no_color_reporter();
    assert_eq!(
        reporter.call_line(&RenderDecision::Default, &call()),
        Some(reporter.format_default_call(&call()))
    );
    assert_eq!(
        reporter.result_line(&RenderDecision::Default, &outcome(), &None),
        Some(reporter.format_default_result(&outcome(), &None))
    );
}

#[test]
fn hook_hide_decision_is_honored() {
    let reporter = no_color_reporter();
    assert_eq!(reporter.call_line(&RenderDecision::Hide, &call()), None);
}

#[test]
fn hook_text_decision_is_honored() {
    let decision = RenderDecision::Text {
        value: "custom".to_string(),
        style: Some("green".to_string()),
    };
    let plain = no_color_reporter().result_line(&decision, &outcome(), &None);
    assert_eq!(plain.as_deref(), Some("custom"));
    let colored = TerminalReporter { color: true, interactive: false };
    let painted = colored.result_line(&decision, &outcome(), &None);
    assert_eq!(painted.as_deref(), Some("\x1b[32mcustom\x1b[0m"));
}

#[test]
fn painted_by_name_falls_back_to_plain_for_unknown_style() {
    let reporter = no_color_reporter();
    assert_eq!(reporter.painted_by_name(&Some("not-a-color".to_string()), "x"), "x");
    assert_eq!(reporter.painted_by_name(&None, "x"), "x");
}

#[test]
fn render_diff_truncates_long_diffs() {
    let reporter = no_color_reporter();
    let long_diff = (0..100).map(|i| format!(" line {i}")).collect::<Vec<_>>().join("\n");
    let rendered = reporter.render_diff(&long_diff);
    assert!(rendered.contains("more line(s)"));
    assert_eq!(rendered.lines().count(), MAX_DIFF_LINES + 1);
}

#[test]
fn spinner_is_a_noop_when_not_interactive() {
    let mut spinner = SpinnerState::new();
    spinner.start(false, label("k", "Running", 0));
    assert!(spinner.is_empty());
    assert!(spinner.stop(false, "k").is_none());
}

#[test]
fn spinner_shows_sorted_names_and_the_longest_time() {
    let mut spinner = SpinnerState::new();
    spinner.start(true, label("1", "Running b", 40));
    spinner.start(true, label("2", "Running a", 20));
    let shown = spinner.tick().unwrap();
    assert_eq!(shown.names, "Running a, Running b");
    assert_eq!(shown.since, 20);
    assert_eq!(spinner.stop(true, "1"), Some(40));
    assert_eq!(spinner.stop(true, "1"), None);
    assert_eq!(spinner.stop(true, "2"), Some(20));
    assert!(spinner.is_empty());
}

#[test]
fn elapsed_under_a_second_is_not_shown_in_result_line() {
    let reporter = no_color_reporter();
    let took = Some(Elapsed { millis: 200, seconds: "0.2".to_string() });
    let line = reporter.format_default_result(&outcome(), &took);
    assert!(!line.contains('('), "unexpected elapsed suffix in: {line}");
}

#[test]
fn elapsed_over_a_second_is_shown_in_result_line() {
    let reporter = no_color_reporter();
    let took = Some(Elapsed { millis: 3000, seconds: "3.0".to_string() });
    let line = reporter.format_default_result(&outcome(), &took);
    assert!(line.contains("(3.0s)"), "missing elapsed suffix in: {line}");
}

#[test]
fn an_edit_shows_its_counts_and_its_diff() {
    let edited = ToolExecOutcome {
        content: "done".to_string(),
        is_error: false,
        metadata: json(r#"{"diff": "-a\n+b", "additions": 1, "deletions": 1}"#),
    };
    let line = no_color_reporter().format_default_result(&edited, &None);
    assert!(line.starts_with("  ✓ +1 -1\n"), "{line}");
    assert!(line.contains("-a") && line.contains("+b"));
}

#[test]
fn a_retry_is_announced() {
    let line = no_color_reporter().retry_line(1, 3, 4, "rate limited");
    assert!(line.contains("rate limited") && line.contains('4'), "{line}");
}
