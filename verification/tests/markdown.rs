use minder::markdown::{finish_line, highlight_code_blocks, overlay, render, MdNode};

#[test]
fn plain_text_passes_through_uncolored() {
    assert_eq!(render("hello world", false), "hello world");
}

#[test]
fn heading_gets_colored_when_color_enabled() {
    let out = render("# Title", true);
    assert!(out.contains("\x1b["));
    assert!(out.contains("Title"));
}

#[test]
fn invalid_utf8_boundary_like_input_falls_back_to_plain() {
    assert_eq!(render("", true), "");
}

#[test]
fn recognized_language_code_block_is_syntax_highlighted() {
    let text = "```rust\nfn main() {}\n```\n";
    let out = render(text, true);
    assert!(out.contains("\x1b[38;2;"), "expected 24-bit color codes: {out}");
    assert!(out.contains("fn"));
    assert!(out.contains("main"));
}

#[test]
fn unknown_language_code_block_is_left_plain() {
    let text = "```not-a-real-language\nsome text\n```\n";
    let out = render(text, true);
    assert_eq!(out.trim_end(), "```not-a-real-language\nsome text\n```".trim_end());
}

#[test]
fn fence_lines_are_never_recolored() {
    let text = "```python\nprint('hi')\n```\n";
    let out = render(text, true);
    assert!(out.starts_with("```python\n"));
}

#[test]
fn multiline_code_block_keeps_one_output_line_per_source_line() {
    let text = "```rust\nfn a() {}\nfn b() {}\nfn c() {}\n```\n";
    let out = render(text, true);
    let body_lines = out.lines().skip(1).take_while(|line| !line.starts_with("```")).count();
    assert_eq!(body_lines, 3, "got:\n{out}");
}

#[test]
fn only_the_body_of_a_block_changes() {
    let text = "before\n```rust\nlet x = 1;\n```\nafter";
    let nodes = vec![
        MdNode::Other,
        MdNode::Code { fence: true, lang: Some("rust".to_string()), position: Some((2, 4)) },
        MdNode::Other,
    ];
    let out = highlight_code_blocks(text, &nodes);
    let lines: Vec<&str> = out.split('\n').collect();
    assert_eq!(lines.len(), 5);
    assert_eq!(lines[0], "before");
    assert_eq!(lines[1], "```rust");
    assert!(lines[2].starts_with("\x1b[38;2;"));
    assert!(lines[2].ends_with("\x1b[0m"));
    assert_eq!(lines[3], "```");
    assert_eq!(lines[4], "after");
}

#[test]
fn blocks_that_cannot_be_placed_stay_plain() {
    let text = "```rust\nlet x = 1;\n```\n";
    let node = |fence, lang: Option<&str>, position| MdNode::Code {
        fence,
        lang: lang.map(|l| l.to_string()),
        position,
    };
    for n in [
        node(false, Some("rust"), Some((1, 3))),
        node(true, None, Some((1, 3))),
        node(true, Some("rust"), None),
        node(true, Some("rust"), Some((1, 2))),
        node(true, Some("rust"), Some((1, 9))),
        node(true, Some("rust"), Some((0, 0))),
    ] {
        assert_eq!(highlight_code_blocks(text, &vec![n]), text);
    }
}

#[test]
fn finished_lines_lose_their_line_end_and_reset_the_style() {
    assert_eq!(finish_line("abc\n"), "abc\x1b[0m");
    assert_eq!(finish_line("abc"), "abc\x1b[0m");
    assert_eq!(finish_line(""), "\x1b[0m");
    let mut lines = vec!["a".to_string(), "b".to_string(), "c".to_string()];
    overlay(&mut lines, 1, &vec![Some("B\n".to_string()), None]);
    assert_eq!(lines, vec!["a", "B\x1b[0m", "c"]);
}
