use minder::cli::expand_task_mentions;
use minder::mentions::{
    at_mention_hint, attach_dir, attach_file, complete_at_mention, expand_mentions,
    join_path, list_dir_shallow, mention_path, mention_tokens, Entry, Mention,
    MAX_MENTION_FILE_CHARS,
};

fn entry(name: &str, is_dir: bool) -> Entry {
    Entry { name: name.to_string(), is_dir }
}

fn file(path: &str, label: &str, content: &str) -> Mention {
    Mention { path: path.to_string(), attachment: Some(attach_file(label, content)) }
}

#[test]
fn no_mentions_leaves_text_untouched() {
    assert!(mention_tokens("just a plain task").is_empty());
    assert_eq!(expand_mentions("just a plain task", &Vec::new()), "just a plain task");
}

#[test]
fn unresolvable_mention_is_left_alone() {
    let text = "thanks @someone for the report";
    assert_eq!(mention_tokens(text), vec!["someone"]);
    let found = vec![Mention { path: "/w/someone".to_string(), attachment: None }];
    assert_eq!(expand_mentions(text, &found), text);
}

#[test]
fn file_mention_attaches_its_content() {
    let found = vec![file("/w/notes.md", "notes.md", "hello world")];
    let expanded = expand_mentions("summarize @notes.md please", &found);
    assert!(expanded.starts_with("summarize @notes.md please"));
    assert!(expanded.contains("### notes.md"));
    assert!(expanded.contains("hello world"));
    assert_eq!(expand_task_mentions("summarize @notes.md please".to_string(), &found), expanded);
}

#[test]
fn trailing_punctuation_is_stripped_before_resolving() {
    assert_eq!(mention_tokens("see @README.md."), vec!["README.md"]);
    let found = vec![file("/w/README.md", "README.md", "content")];
    let expanded = expand_mentions("see @README.md.", &found);
    assert!(expanded.contains("### README.md"));
}

#[test]
fn directory_mention_lists_its_entries() {
    let attachment = attach_dir("src", &vec![entry("main.rs", false)]);
    let found = vec![Mention { path: "/w/src".to_string(), attachment: Some(attachment) }];
    let expanded = expand_mentions("look at @src", &found);
    assert!(expanded.contains("### src/ (directory listing)"));
    assert!(expanded.contains("main.rs"));
}

#[test]
fn duplicate_mentions_are_only_attached_once() {
    let found = vec![file("/w/a.txt", "a.txt", "content"), file("/w/a.txt", "a.txt", "content")];
    let expanded = expand_mentions("@a.txt and again @a.txt", &found);
    assert_eq!(expanded.matches("### a.txt").count(), 1);
}

#[test]
fn paths_with_the_same_components_are_one_path() {
    let found = vec![
        file("/w/a.txt", "a.txt", "content"),
        file("/w/./a.txt", "a.txt", "content"),
        file("/w//a.txt/", "a.txt", "content"),
        file("w/a.txt", "other", "content"),
        file("./w/a.txt", "third", "content"),
        file("w/../w/a.txt", "fourth", "content"),
    ];
    let expanded = expand_mentions("t", &found);
    assert_eq!(expanded.matches("### a.txt").count(), 1);
    assert_eq!(expanded.matches("### ").count(), 4);
}

#[test]
fn oversized_file_mention_is_truncated_with_a_note() {
    let content = "x".repeat(MAX_MENTION_FILE_CHARS + 500);
    let expanded = expand_mentions("@big.txt", &vec![file("/w/big.txt", "big.txt", &content)]);
    assert!(expanded.contains("truncated to the first"));
    assert!(!expanded.contains(&"x".repeat(MAX_MENTION_FILE_CHARS + 1)));
}

#[test]
fn complete_at_mention_matches_top_level_entries_by_prefix() {
    let entries = vec![entry("main.rs", false), entry("mod.rs", false), entry("markdown", true)];
    let mut displays: Vec<String> =
        complete_at_mention("ma", &entries).into_iter().map(|c| c.display).collect();
    displays.sort();
    assert_eq!(displays, vec!["main.rs", "markdown/"]);
}

#[test]
fn complete_at_mention_descends_into_a_subdirectory() {
    let candidates = complete_at_mention("src/ma", &vec![entry("main.rs", false)]);
    assert_eq!(candidates.len(), 1);
    assert_eq!(candidates[0].replacement, "@src/main.rs");
}

#[test]
fn a_single_candidate_is_hinted_by_its_rest() {
    let entries = vec![entry("main.rs", false), entry("lib.rs", false)];
    let (display, len) = at_mention_hint("ma", &entries).unwrap();
    assert_eq!(display, "in.rs");
    assert_eq!(len, 5);
    assert!(at_mention_hint("zzz", &entries).is_none());
}

#[test]
fn mentions_are_resolved_below_the_working_or_the_home_directory() {
    let home = Some("/home/u".to_string());
    assert_eq!(mention_path("a.txt", &None, "/w"), Some("/w/a.txt".to_string()));
    assert_eq!(mention_path("/abs", &None, "/w"), Some("/abs".to_string()));
    assert_eq!(mention_path("~/notes", &home, "/w"), Some("/home/u/notes".to_string()));
    assert_eq!(join_path("/w/", "x"), "/w/x");
}

#[test]
fn listings_put_directories_first() {
    let listing = list_dir_shallow(&vec![entry("b", false), entry("z", true), entry("a", false)]);
    assert_eq!(listing, "z/\na\nb");
}
