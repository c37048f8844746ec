use minder::slash::{
    complete_line, hint_for_line, model_line, parse_slash_command, slash_commands,
    unknown_command_text, CompletionStart, SlashCommand,
};
use minder::mentions::{Candidate, Entry};

fn complete_with(models: &[&str], line: &str) -> (usize, Vec<Candidate>) {
    let known: Vec<String> = models.iter().map(|m| m.to_string()).collect();
    let (start, candidates) = complete_line(line, line.len(), &known, &Vec::new());
    let at = match start {
        CompletionStart::Line => 0,
        CompletionStart::Typed(n) => line.len() - n,
        CompletionStart::Word(n) => line.char_indices().nth(n).map_or(line.len(), |(i, _)| i),
        CompletionStart::Nothing => line.len(),
    };
    (at, candidates)
}

fn complete_at_cursor(line: &str) -> (usize, Vec<Candidate>) {
    complete_with(&[], line)
}

fn hint_with(models: &[&str], line: &str) -> Option<String> {
    let known: Vec<String> = models.iter().map(|m| m.to_string()).collect();
    hint_for_line(line, line.len(), &known, &Vec::new()).map(|h| h.display)
}

fn hint_at_cursor(line: &str) -> Option<String> {
    hint_with(&[], line)
}

#[test]
fn slash_completion_lists_all_commands_for_bare_slash() {
    let (start, candidates) = complete_at_cursor("/");
    assert_eq!(start, 0);
    let names: Vec<&str> = candidates.iter().map(|p| p.display.as_str()).collect();
    assert_eq!(names.len(), slash_commands().len());
    assert!(names.contains(&"/model"));
}

#[test]
fn slash_completion_narrows_by_prefix() {
    let (_, candidates) = complete_at_cursor("/th");
    assert_eq!(candidates.len(), 1);
    assert_eq!(candidates[0].display, "/thinking");
    assert_eq!(candidates[0].replacement, "/thinking ");
}

#[test]
fn slash_completion_stops_after_the_command_name() {
    let (_, candidates) = complete_at_cursor("/model fix the ");
    assert!(candidates.is_empty());
}

#[test]
fn slash_completion_empty_for_plain_text() {
    let (_, candidates) = complete_at_cursor("hello");
    assert!(candidates.is_empty());
}

#[test]
fn slash_hint_lists_every_command_for_bare_slash() {
    let hint = hint_at_cursor("/").expect("a bare slash hints the full command list");
    for cmd in slash_commands() {
        assert!(hint.contains(&format!("/{cmd}")), "hint {hint:?} lacks /{cmd}");
    }
}

#[test]
fn slash_hint_completes_the_rest_of_a_single_match() {
    let hint = hint_at_cursor("/th").expect("'/th' uniquely matches '/thinking'");
    assert_eq!(hint, "inking");
}

#[test]
fn slash_hint_absent_once_a_command_is_fully_typed() {
    assert_eq!(hint_at_cursor("/thinking"), None);
}

#[test]
fn slash_hint_absent_past_the_command_name() {
    assert_eq!(hint_at_cursor("/model fix the "), None);
}

#[test]
fn slash_hint_absent_for_plain_text() {
    assert_eq!(hint_at_cursor("hello"), None);
}

#[test]
fn model_completion_suggests_ollama_as_the_provider() {
    let (start, candidates) = complete_with(&["qwen2.5-coder:14b"], "/model oll");
    assert_eq!(start, "/model ".len());
    assert_eq!(candidates[0].display, "ollama");
    assert_eq!(candidates[0].replacement, "ollama ");
}

#[test]
fn model_completion_suggests_pulled_model_names() {
    let (start, candidates) =
        complete_with(&["qwen2.5-coder:14b", "llama3.2"], "/model ollama qwen");
    assert_eq!(start, "/model ollama ".len());
    assert_eq!(candidates.len(), 1);
    assert_eq!(candidates[0].display, "qwen2.5-coder:14b");
}

#[test]
fn model_completion_is_empty_for_an_unknown_provider() {
    let (_, candidates) = complete_with(&["qwen2.5-coder:14b"], "/model anthropic ");
    assert!(candidates.is_empty());
}

#[test]
fn model_hint_completes_the_rest_of_a_single_matching_model() {
    let hint = hint_with(&["qwen2.5-coder:14b", "llama3.2"], "/model ollama qwen").unwrap();
    assert_eq!(hint, "2.5-coder:14b");
}

#[test]
fn a_mention_is_completed_and_hinted_behind_its_sign() {
    let entries = vec![Entry { name: "main.rs".to_string(), is_dir: false }];
    let (start, candidates) = complete_line("see @ma", 7, &Vec::new(), &entries);
    assert!(matches!(start, CompletionStart::Word(4)));
    assert_eq!(candidates[0].replacement, "@main.rs");
    let hint = hint_for_line("see @ma", 7, &Vec::new(), &entries).unwrap();
    assert_eq!(hint.display, "in.rs");
    assert_eq!(hint.completion_len, 5);
}

#[test]
fn every_command_is_parsed() {
    assert!(matches!(parse_slash_command("help"), SlashCommand::Help));
    assert!(matches!(parse_slash_command("model"), SlashCommand::ShowModel));
    match parse_slash_command("model ollama llama3.2") {
        SlashCommand::SetModel { provider, model } => {
            assert_eq!(provider, "ollama");
            assert_eq!(model.as_deref(), Some("llama3.2"));
        }
        _ => panic!("expected SetModel"),
    }
    assert!(matches!(parse_slash_command("models"), SlashCommand::Models));
    assert!(matches!(parse_slash_command("clear"), SlashCommand::Clear));
    assert!(matches!(parse_slash_command("status"), SlashCommand::Status));
    assert!(matches!(parse_slash_command("thinking"), SlashCommand::Thinking));
    assert!(matches!(parse_slash_command("todo"), SlashCommand::Todo));
    assert!(matches!(parse_slash_command("undo"), SlashCommand::Undo));
    match parse_slash_command("nope now") {
        SlashCommand::Unknown(name) => {
            assert!(unknown_command_text(&name).contains("nope"));
        }
        _ => panic!("expected Unknown"),
    }
    assert_ne!(model_line("a", "a"), model_line("a", "b"));
}
