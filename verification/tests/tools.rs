use minder::bang::{format_for_agent, result_of, CommandEnd};
use minder::diff::{count_changes, diff_files, LineChange};
use minder::edit_file::{EditFileTool, EditPlan};
use minder::glob_tool::GlobTool;
use minder::json::Json;
use minder::ls::{list, LsTool, Walked};
use minder::manifest::ManifestError;
use minder::mcp::{outcome_of_call, server_tools, CallEnd, McpToolError, RemoteTool};
use minder::message::ToolExecOutcome;
use minder::read_file::ReadFileTool;
use minder::replace::count_occurrences;
use minder::skill::{load_skills, parse_skill, Skill, SkillFile, SkillLoadError, SkillTool};
use minder::tool::{failed_on, invalid_arguments};
use minder::wasm::{pack, read_bytes, read_packed_string, unpack, WrittenLimits};
use minder::write_file::WriteFileTool;

fn json(text: &str) -> Json {
    Json::parse(text).expect("valid JSON")
}

fn file(dir: &str, content: &str) -> SkillFile {
    SkillFile { path: format!("skills/{dir}/SKILL.md"), content: Ok(content.to_string()) }
}

fn walked(relative: &str, depth: usize, is_dir: bool) -> Walked {
    Walked { relative: relative.to_string(), depth, is_dir }
}

fn edited(content: &str, old: &str, new: &str, all: bool) -> Result<String, ToolExecOutcome> {
    match EditFileTool.plan("a.txt", content, old, new, all) {
        EditPlan::Write { content, .. } => Ok(content),
        EditPlan::Refuse(outcome) => Err(outcome),
    }
}

#[test]
fn counts_additions_and_deletions() {
    let diff = diff_files("a.txt", "one\ntwo\nthree\n", "one\ntwo changed\nthree\nfour\n");
    assert_eq!(diff.additions, 2);
    assert_eq!(diff.deletions, 1);
    assert!(diff.unified.contains("a/a.txt"));
    assert!(diff.unified.contains("b/a.txt"));
    assert!(diff.unified.contains("-two"));
    assert!(diff.unified.contains("+two changed"));
}

#[test]
fn new_file_is_all_additions() {
    let diff = diff_files("new.txt", "", "hello\nworld\n");
    assert_eq!(diff.additions, 2);
    assert_eq!(diff.deletions, 0);
}

#[test]
fn changes_are_counted_by_kind() {
    let changes = vec![LineChange::Added, LineChange::Kept, LineChange::Removed, LineChange::Added];
    assert_eq!(count_changes(&changes), (2, 1));
}

#[test]
fn replaces_a_unique_match() {
    assert_eq!(edited("hello world", "world", "there", false).ok().unwrap(), "hello there");
}

#[test]
fn rejects_ambiguous_match_without_replace_all() {
    let outcome = edited("foo foo foo", "foo", "bar", false).err().unwrap();
    assert!(outcome.is_error);
    assert!(outcome.content.contains("3 times"));
}

#[test]
fn replace_all_replaces_every_occurrence() {
    assert_eq!(edited("foo foo foo", "foo", "bar", true).ok().unwrap(), "bar bar bar");
}

#[test]
fn missing_old_string_is_an_error() {
    assert!(edited("hello world", "xyz", "abc", false).err().unwrap().is_error);
}

#[test]
fn an_edit_reports_its_diff() {
    let outcome = EditFileTool.outcome("/w/a.txt", "a.txt", 1, "old\n", "new\n");
    assert!(!outcome.is_error);
    assert_eq!(outcome.metadata.get_u64("additions"), Some(1));
    assert_eq!(outcome.metadata.get_u64("deletions"), Some(1));
    assert!(outcome.metadata.get_text("diff").unwrap().contains("+new"));
}

#[test]
fn occurrences_do_not_overlap() {
    assert_eq!(count_occurrences("aaaa", "aa"), 2);
    assert_eq!(count_occurrences("ab", "c"), 0);
    assert_eq!(count_occurrences("äöä", ""), "äöä".matches("").count());
}

#[test]
fn reads_whole_file() {
    let outcome = ReadFileTool.outcome("line1\nline2\nline3".to_string(), None, None);
    assert!(!outcome.is_error);
    assert_eq!(outcome.content, "line1\nline2\nline3");
}

#[test]
fn reads_a_line_range() {
    let content = "line1\nline2\nline3\nline4".to_string();
    let outcome = ReadFileTool.outcome(content, Some(2), Some(3));
    assert!(!outcome.is_error);
    assert_eq!(outcome.content, "line2\nline3");
}

#[test]
fn read_file_missing_file_is_an_error() {
    let outcome = failed_on("read", "missing.txt", "No such file or directory");
    assert!(outcome.is_error);
    assert_eq!(outcome.content, "failed to read missing.txt: No such file or directory");
    assert!(invalid_arguments("missing field `path`").is_error);
}

#[test]
fn ranges_are_clamped_to_the_file() {
    let read = |start, end| ReadFileTool.outcome("a\nb\nc\n".to_string(), start, end).content;
    assert_eq!(read(Some(0), Some(99)), "a\nb\nc");
    assert_eq!(read(Some(3), Some(2)), "");
    assert_eq!(read(Some(9), None), "");
}

#[test]
fn written_bytes_are_counted() {
    let outcome = WriteFileTool.outcome("a.txt", "hällo");
    assert_eq!(outcome.content, "wrote 6 bytes to a.txt");
    assert_eq!(outcome.metadata.get_u64("bytes_written"), Some(6));
}

#[test]
fn finds_matching_files_recursively() {
    let found = vec![
        "src/nested/util.rs".to_string(),
        "src/main.rs".to_string(),
        "src/lib.rs".to_string(),
    ];
    let outcome = GlobTool.outcome(found);
    assert!(!outcome.is_error);
    assert_eq!(outcome.metadata.get_u64("count"), Some(3));
    assert!(outcome.content.contains("main.rs"));
    assert!(!outcome.content.contains("README"));
    assert_eq!(outcome.content, "src/lib.rs\nsrc/main.rs\nsrc/nested/util.rs");
}

#[test]
fn no_matches_reports_cleanly() {
    let outcome = GlobTool.outcome(Vec::new());
    assert!(!outcome.is_error);
    assert_eq!(outcome.content, "no matches");
}

#[test]
fn non_recursive_lists_only_top_level() {
    assert_eq!(LsTool.max_depth(false, Some(9)), 1);
    let outcome = LsTool.outcome(vec![walked("a.txt", 1, false), walked("sub", 1, true)]);
    assert!(!outcome.is_error);
    assert!(outcome.content.contains("a.txt"));
    assert!(outcome.content.contains("sub/"));
    assert!(!outcome.content.contains("b.txt"));
}

#[test]
fn recursive_respects_max_depth() {
    assert_eq!(LsTool.max_depth(true, Some(2)), 2);
    assert_eq!(LsTool.max_depth(true, None), 3);
    let outcome = LsTool.outcome(vec![walked("a", 1, true), walked("a/b", 2, true)]);
    assert!(!outcome.is_error);
    assert!(outcome.content.contains("a/"));
    assert!(outcome.content.contains("a/b/"));
    assert!(!outcome.content.contains("d.txt"));
}

#[test]
fn listings_skip_the_root_and_are_sorted() {
    let shown = list(vec![walked("", 0, true), walked("b", 1, false), walked("a", 1, false)]);
    let names: Vec<&str> = shown.iter().map(|w| w.relative.as_str()).collect();
    assert_eq!(names, vec!["a", "b"]);
    let many = (0..600).map(|i| walked(&format!("f{i:03}"), 1, false)).collect();
    assert_eq!(list(many).len(), 500);
    assert_eq!(LsTool.outcome(vec![walked("", 0, true)]).content, "(empty)");
    assert_eq!(LsTool.root("/w", &None), "/w/.");
    assert_eq!(LsTool.root("/w", &Some("sub".to_string())), "/w/sub");
}

#[test]
fn discovers_no_skills_when_skills_dir_is_absent() {
    assert!(load_skills(&Vec::new()).ok().unwrap().is_empty());
}

#[test]
fn discovers_and_parses_a_skill() {
    let skills = load_skills(&vec![file(
        "commit-messages",
        "---\nname: commit-messages\ndescription: Writes conventional commit messages\n---\n# Commit messages\n\nUse the conventional commits format.\n",
    )])
    .ok()
    .unwrap();
    assert_eq!(skills.len(), 1);
    assert_eq!(skills[0].name, "commit-messages");
    assert_eq!(skills[0].description, "Writes conventional commit messages");
    assert_eq!(skills[0].body, "# Commit messages\n\nUse the conventional commits format.");
}

#[test]
fn missing_frontmatter_is_an_error() {
    let err = load_skills(&vec![file("bad", "# no frontmatter here\n")]).err().unwrap();
    assert!(matches!(err, SkillLoadError::MissingFrontmatter(_)));
}

#[test]
fn missing_required_field_is_an_error() {
    let err = load_skills(&vec![file("bad", "---\nname: bad\n---\nbody\n")]).err().unwrap();
    assert!(matches!(err, SkillLoadError::MissingField(_, field) if field == "description"));
}

#[test]
fn duplicate_skill_names_are_an_error() {
    let err = load_skills(&vec![
        file("a", "---\nname: dup\ndescription: first\n---\nbody\n"),
        file("b", "---\nname: dup\ndescription: second\n---\nbody\n"),
    ])
    .err()
    .unwrap();
    assert!(matches!(err, SkillLoadError::DuplicateName { name, .. } if name == "dup"));
}

#[test]
fn an_unreadable_skill_is_an_error() {
    let broken = SkillFile { path: "p".to_string(), content: Err("denied".to_string()) };
    let err = load_skills(&vec![broken]).err().unwrap();
    assert!(err.message().contains("denied"));
    assert!(parse_skill("p", "---\nname: n\ndescription: d\n---\nb").is_ok());
}

#[test]
fn only_one_line_of_dashes_closes_the_frontmatter() {
    let raw = "---\nname: a\ndescription: b\n---\n---\nrest\n";
    assert_eq!(parse_skill("p", raw).ok().unwrap().body, "---\nrest");
}

#[test]
fn loads_a_skill_body_by_name() {
    let tool = SkillTool::new(vec![Skill {
        name: "example".to_string(),
        description: "an example skill".to_string(),
        body: "full instructions here".to_string(),
    }]);
    let outcome = tool.execute(&json(r#"{"name": "example"}"#));
    assert!(!outcome.is_error);
    assert_eq!(outcome.content, "full instructions here");
}

#[test]
fn unknown_skill_name_is_an_error() {
    let tool = SkillTool::new(vec![]);
    let outcome = tool.execute(&json(r#"{"name": "nope"}"#));
    assert!(outcome.is_error);
}

#[test]
fn captures_combined_stdout_and_stderr() {
    let result = result_of(CommandEnd::Done {
        stdout: "out\n".to_string(),
        stderr: "err\n".to_string(),
        success: true,
    });
    assert!(result.success);
    assert!(result.output.contains("out"));
    assert!(result.output.contains("err"));
}

#[test]
fn success_is_false_on_a_nonzero_exit() {
    let result = result_of(CommandEnd::Done {
        stdout: String::new(),
        stderr: String::new(),
        success: false,
    });
    assert!(!result.success);
    assert!(!result_of(CommandEnd::TimedOut).success);
    assert!(result_of(CommandEnd::NotStarted("no sh".to_string())).output.contains("no sh"));
    assert!(format_for_agent("ls", &result).contains("ls"));
}

#[test]
fn manifest_limits_have_defaults() {
    let limits = WrittenLimits { timeout_secs: None, max_memory_pages: Some(8), fuel: None }.resolve();
    assert_eq!(limits.timeout_secs, 30);
    assert_eq!(limits.max_memory_pages, 8);
    assert_eq!(limits.fuel, 5_000_000);
}

#[test]
fn packed_regions_are_unpacked() {
    assert_eq!(unpack(pack(7, 9)), (7, 9));
    assert_eq!(unpack(pack(u32::MAX, u32::MAX)), (u32::MAX, u32::MAX));
    let data = b"xxhello\xff".to_vec();
    assert_eq!(read_bytes(&data, 2, 3), b"hel".to_vec());
    assert_eq!(read_bytes(&data, 6, 99), b"o\xff".to_vec());
    assert!(read_bytes(&data, 99, 1).is_empty());
    assert_eq!(read_packed_string(&data, pack(2, 5)), "hello");
    assert_eq!(read_packed_string(&data, pack(6, 2)), "o\u{fffd}");
}

#[test]
fn remote_tools_carry_their_server_name() {
    let tools = vec![RemoteTool {
        name: "read".to_string(),
        description: None,
        input_schema: json("{}"),
    }];
    let specs = server_tools("fs", &tools);
    assert_eq!(specs.len(), 1);
    assert!(specs[0].name.contains("fs") && specs[0].name.contains("read"));
    let answer = CallEnd::Answer { texts: vec!["a".to_string(), "b".to_string()], is_error: None };
    let outcome = outcome_of_call("read", &answer);
    assert_eq!(outcome.content, "a\nb");
    assert!(!outcome.is_error);
    assert!(outcome_of_call("read", &CallEnd::Failed("gone".to_string())).is_error);
    let spawn = McpToolError::Spawn {
        name: "fs".to_string(),
        command: "npx".to_string(),
        reason: "missing".to_string(),
    };
    assert!(spawn.message().contains("npx"));
}

#[test]
fn a_manifest_that_cannot_be_loaded_is_named() {
    let read = ManifestError::Read { path: "m.toml".to_string(), reason: "gone".to_string() };
    assert_eq!(read.message(), "failed to read manifest m.toml: gone");
    let parse = ManifestError::Parse { path: "m.toml".to_string(), reason: "bad".to_string() };
    assert_eq!(
        McpToolError::Manifest(parse).message(),
        "failed to parse manifest m.toml: bad"
    );
}
