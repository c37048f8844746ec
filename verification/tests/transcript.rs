use minder::ansi::{ansi_to_line, split_sgr_code, strip_ansi, Color, Line, Style};
use minder::transcript::{delta_for, Scroll, Transcript};

fn plain_text(line: &Line) -> String {
    line.spans.iter().map(|s| s.content.as_str()).collect()
}

fn line(text: &str) -> Line {
    Line::styled(text.to_string(), Style::default())
}

#[test]
fn truecolor_sgr_codes_do_not_leak_into_the_rendered_text() {
    let line = ansi_to_line("\x1b[38;2;249;38;114mfn\x1b[0m main() {}");
    assert_eq!(plain_text(&line), "fn main() {}");
}

#[test]
fn truecolor_foreground_sets_an_rgb_style() {
    let line = ansi_to_line("\x1b[38;2;249;38;114mfn\x1b[0m");
    assert_eq!(line.spans[0].style.fg, Some(Color::Rgb(249, 38, 114)));
}

#[test]
fn indexed_256_color_codes_do_not_leak_either() {
    let line = ansi_to_line("\x1b[38;5;208morange\x1b[0m");
    assert_eq!(plain_text(&line), "orange");
    assert_eq!(line.spans[0].style.fg, Some(Color::Indexed(208)));
}

#[test]
fn background_truecolor_codes_are_applied_and_not_leaked() {
    let line = ansi_to_line("\x1b[48;2;1;2;3mtext\x1b[0m");
    assert_eq!(plain_text(&line), "text");
    assert_eq!(line.spans[0].style.bg, Some(Color::Rgb(1, 2, 3)));
}

#[test]
fn reporters_own_fixed_palette_still_works() {
    let line = ansi_to_line("\x1b[1m\x1b[36mheading\x1b[0m plain");
    assert_eq!(plain_text(&line), "heading plain");
    assert_eq!(line.spans[0].style.fg, Some(Color::Cyan));
    assert!(line.spans[0].style.bold);
}

#[test]
fn stripped_text_is_the_text_of_the_styled_line() {
    for s in ["plain", "\x1b[1mb\x1b[0m x \x1b[", "\x1b[999mz", "a\x1b[38;2;1mb", "\x1bx", ""] {
        assert_eq!(strip_ansi(s), plain_text(&ansi_to_line(s)));
    }
}

#[test]
fn transcript_follows_the_bottom_by_default_as_content_grows() {
    let mut t = Transcript::default();
    for i in 0..10 {
        t.push(vec![line(&format!("line {i}"))]);
    }
    let total = t.wrapped_line_count(80);
    assert_eq!(total, 10);
    t.scroll_by(0, 80, 4);
    assert!(t.follow);
}

#[test]
fn scrolling_up_disables_follow_and_scrolling_back_down_re_enables_it() {
    let mut t = Transcript::default();
    for i in 0..20 {
        t.push(vec![line(&format!("line {i}"))]);
    }
    t.scroll_by(-5, 80, 4);
    assert!(!t.follow);

    t.scroll_by(100, 80, 4);
    assert!(t.follow);
}

#[test]
fn scroll_by_clamps_at_the_top() {
    let mut t = Transcript::default();
    for i in 0..5 {
        t.push(vec![line(&format!("line {i}"))]);
    }
    t.scroll_by(-1000, 80, 2);
    assert!(!t.follow);
    assert_eq!(t.scroll, 0);
}

#[test]
fn long_lines_count_as_many_rows_as_they_wrap_to() {
    let mut t = Transcript::default();
    t.push(vec![line("aaaa bbbb cccc")]);
    assert_eq!(t.wrapped_line_count(80), 1);
    assert_eq!(t.wrapped_line_count(5), 3);
    t.place(5, 2);
    assert_eq!(t.scroll, 1);
}

#[test]
fn printing_adds_a_line_for_each_line_of_text() {
    let mut t = Transcript::default();
    t.print("one\n\x1b[31mtwo\x1b[0m");
    assert_eq!(t.lines.len(), 2);
    assert_eq!(plain_text(&t.lines[1]), "two");
    assert_eq!(t.lines[1].spans[0].style.fg, Some(Color::Red));
}

#[test]
fn pages_scroll_by_the_height_and_wheels_by_three() {
    assert_eq!(delta_for(Scroll::PageUp, 7), -7);
    assert_eq!(delta_for(Scroll::PageDown, 0), 1);
    assert_eq!(delta_for(Scroll::WheelUp, 7), -3);
    assert_eq!(delta_for(Scroll::WheelDown, 7), 3);
}

#[test]
fn a_style_sequence_is_split_off() {
    let split = split_sgr_code("\u{1b}[1;31mred");
    assert_eq!(split, Some(("1;31".to_string(), "red".to_string())));
    assert_eq!(split_sgr_code("red"), None);
    assert_eq!(split_sgr_code("\u{1b}[1;31"), None);
}

#[test]
fn rows_are_counted_up_to_the_largest_number() {
    let mut t = Transcript::default();
    t.print(&"\n".repeat(70_000));
    assert_eq!(t.wrapped_line_count(10), u16::MAX);
}
