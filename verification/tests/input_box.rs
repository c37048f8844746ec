use minder::ansi::{Color, Line};
use minder::input_box::{
    box_lines, cursor_on_screen, cursor_screen_position_for, first_line, pending_lines,
    InputBoxState, InputMode, InputOutcome, Key, KeyCode,
};
use minder::input_text::{cursor_from_line_col, line_col, scroll_offset};
use minder::layout::{
    bottom_area, split_bottom, transcript_area, Rect, MAX_INPUT_LINES, MAX_PENDING_LINES,
};
use minder::mentions::Entry;

fn key(code: KeyCode) -> Key {
    Key { code, control: false, alt: false, shift: false }
}

fn ctrl(c: char) -> Key {
    Key { code: KeyCode::Char(c), control: true, alt: false, shift: false }
}

fn alt_enter() -> Key {
    Key { code: KeyCode::Enter, control: false, alt: true, shift: false }
}

fn rect(x: u16, y: u16, width: u16, height: u16) -> Rect {
    Rect { x, y, width, height }
}

fn press(state: &mut InputBoxState, k: Key, mode: InputMode) -> InputOutcome {
    state.handle_key(k, mode, 0, &Vec::new())
}

fn type_text(state: &mut InputBoxState, text: &str) {
    for c in text.chars() {
        press(state, key(KeyCode::Char(c)), InputMode::Idle);
    }
}

fn text_of(line: &Line) -> String {
    line.spans.iter().map(|s| s.content.as_str()).collect()
}

#[test]
fn typing_appends_to_the_buffer() {
    let mut box_state = InputBoxState::new(Vec::new());
    press(&mut box_state, key(KeyCode::Char('h')), InputMode::Idle);
    press(&mut box_state, key(KeyCode::Char('i')), InputMode::Idle);
    assert_eq!(box_state.buffer(), "hi");
    assert_eq!(box_state.cursor(), 2);
}

#[test]
fn enter_on_empty_buffer_is_a_noop() {
    let mut box_state = InputBoxState::new(Vec::new());
    assert!(matches!(
        press(&mut box_state, key(KeyCode::Enter), InputMode::Idle),
        InputOutcome::Handled
    ));
}

#[test]
fn enter_on_non_empty_buffer_submits_and_clears() {
    let mut box_state = InputBoxState::new(Vec::new());
    press(&mut box_state, key(KeyCode::Char('x')), InputMode::Idle);
    match press(&mut box_state, key(KeyCode::Enter), InputMode::Idle) {
        InputOutcome::Submit(line) => assert_eq!(line, "x"),
        _ => panic!("expected Submit"),
    }
    assert!(box_state.buffer().is_empty());
}

#[test]
fn esc_while_idle_clears_the_buffer_instead_of_cancelling() {
    let mut box_state = InputBoxState::new(Vec::new());
    press(&mut box_state, key(KeyCode::Char('x')), InputMode::Idle);
    assert!(matches!(
        press(&mut box_state, key(KeyCode::Esc), InputMode::Idle),
        InputOutcome::Handled
    ));
    assert!(box_state.buffer().is_empty());
}

#[test]
fn esc_while_running_cancels_the_turn() {
    let mut box_state = InputBoxState::new(Vec::new());
    assert!(matches!(
        press(&mut box_state, key(KeyCode::Esc), InputMode::Running),
        InputOutcome::CancelTurn
    ));
}

#[test]
fn ctrl_c_on_a_non_empty_idle_buffer_clears_it_instead_of_arming_quit() {
    let mut box_state = InputBoxState::new(Vec::new());
    press(&mut box_state, key(KeyCode::Char('x')), InputMode::Idle);
    assert!(matches!(press(&mut box_state, ctrl('c'), InputMode::Idle), InputOutcome::Handled));
    assert!(box_state.buffer().is_empty());
    assert!(matches!(press(&mut box_state, ctrl('c'), InputMode::Idle), InputOutcome::CtrlCHint));
}

#[test]
fn first_idle_ctrl_c_on_an_empty_buffer_only_hints() {
    let mut box_state = InputBoxState::new(Vec::new());
    assert!(matches!(press(&mut box_state, ctrl('c'), InputMode::Idle), InputOutcome::CtrlCHint));
}

#[test]
fn a_second_immediate_idle_ctrl_c_quits() {
    let mut box_state = InputBoxState::new(Vec::new());
    press(&mut box_state, ctrl('c'), InputMode::Idle);
    assert!(matches!(press(&mut box_state, ctrl('c'), InputMode::Idle), InputOutcome::Quit));
}

#[test]
fn a_late_second_ctrl_c_only_hints_again() {
    let mut box_state = InputBoxState::new(Vec::new());
    let none: Vec<Entry> = Vec::new();
    box_state.handle_key(ctrl('c'), InputMode::Idle, 10_000, &none);
    assert!(matches!(
        box_state.handle_key(ctrl('c'), InputMode::Idle, 12_000, &none),
        InputOutcome::CtrlCHint
    ));
    assert!(matches!(
        box_state.handle_key(ctrl('c'), InputMode::Idle, 13_999, &none),
        InputOutcome::Quit
    ));
}

#[test]
fn typing_between_two_idle_ctrl_cs_disarms_the_quit_window() {
    let mut box_state = InputBoxState::new(Vec::new());
    press(&mut box_state, ctrl('c'), InputMode::Idle);
    press(&mut box_state, key(KeyCode::Char('x')), InputMode::Idle);
    press(&mut box_state, key(KeyCode::Backspace), InputMode::Idle);
    assert!(matches!(press(&mut box_state, ctrl('c'), InputMode::Idle), InputOutcome::CtrlCHint));
}

#[test]
fn ctrl_d_on_empty_buffer_quits() {
    let mut box_state = InputBoxState::new(Vec::new());
    assert!(matches!(press(&mut box_state, ctrl('d'), InputMode::Idle), InputOutcome::Quit));
}

#[test]
fn no_key_quits_while_a_turn_runs() {
    for k in [ctrl('d'), ctrl('c'), key(KeyCode::Esc), key(KeyCode::Enter)] {
        let mut box_state = InputBoxState::new(Vec::new());
        for _ in 0..2 {
            let outcome = press(&mut box_state, k, InputMode::Running);
            assert!(!matches!(outcome, InputOutcome::Quit | InputOutcome::CtrlCHint));
        }
    }
}

#[test]
fn ctrl_d_on_non_empty_buffer_is_a_noop() {
    let mut box_state = InputBoxState::new(Vec::new());
    press(&mut box_state, key(KeyCode::Char('x')), InputMode::Idle);
    assert!(matches!(press(&mut box_state, ctrl('d'), InputMode::Idle), InputOutcome::Handled));
    assert_eq!(box_state.buffer(), "x");
}

#[test]
fn backspace_removes_the_char_before_the_cursor() {
    let mut box_state = InputBoxState::new(Vec::new());
    press(&mut box_state, key(KeyCode::Char('a')), InputMode::Idle);
    press(&mut box_state, key(KeyCode::Char('b')), InputMode::Idle);
    press(&mut box_state, key(KeyCode::Backspace), InputMode::Idle);
    assert_eq!(box_state.buffer(), "a");
    assert_eq!(box_state.cursor(), 1);
}

#[test]
fn up_recalls_the_most_recent_history_entry() {
    let mut box_state = InputBoxState::new(vec!["first".to_string(), "second".to_string()]);
    press(&mut box_state, key(KeyCode::Up), InputMode::Idle);
    assert_eq!(box_state.buffer(), "second");
}

#[test]
fn down_past_the_newest_entry_restores_the_in_progress_draft() {
    let mut box_state = InputBoxState::new(vec!["first".to_string()]);
    press(&mut box_state, key(KeyCode::Char('d')), InputMode::Idle);
    press(&mut box_state, key(KeyCode::Up), InputMode::Idle);
    assert_eq!(box_state.buffer(), "first");
    press(&mut box_state, key(KeyCode::Down), InputMode::Idle);
    assert_eq!(box_state.buffer(), "d");
}

#[test]
fn going_back_and_forth_any_number_of_steps_restores_the_draft() {
    for steps in 1..6 {
        let mut box_state = InputBoxState::new(vec!["a".to_string(), "bb".to_string()]);
        type_text(&mut box_state, "draft");
        for _ in 0..steps {
            press(&mut box_state, key(KeyCode::Up), InputMode::Idle);
        }
        assert_eq!(box_state.buffer(), if steps == 1 { "bb" } else { "a" });
        for _ in 0..steps {
            press(&mut box_state, key(KeyCode::Down), InputMode::Idle);
        }
        assert_eq!(box_state.buffer(), "draft");
        assert_eq!(box_state.cursor(), 5);
    }
}

#[test]
fn submitting_appends_to_history_but_skips_immediate_repeats() {
    let mut box_state = InputBoxState::new(Vec::new());
    for line in ["hi", "hi"] {
        type_text(&mut box_state, line);
        press(&mut box_state, key(KeyCode::Enter), InputMode::Idle);
    }
    assert_eq!(box_state.history(), &["hi"]);
}

#[test]
fn cursor_screen_position_accounts_for_double_width_chars_before_the_cursor() {
    let area = rect(0, 0, 20, 4);
    let none = Vec::new();
    assert_eq!(
        cursor_screen_position_for(area, "あ", 1, &none),
        (area.x + 1 + 2 + 2, area.y + 2)
    );
    assert_eq!(
        cursor_screen_position_for(area, "あい", 2, &none),
        (area.x + 1 + 2 + 4, area.y + 2)
    );
}

#[test]
fn the_cursor_is_placed_in_narrow_areas_and_behind_long_lines() {
    let none = Vec::new();
    assert_eq!(cursor_on_screen(rect(7, 3, 1, 4), "ab", 1, &none), Some((3, 0)));
    assert_eq!(cursor_on_screen(rect(7, 3, 20, 1), "ab", 1, &none), Some((7, 3)));
    let fits = "a".repeat(65532);
    let wide = rect(0, 0, 20, 4);
    assert_eq!(cursor_on_screen(wide, &fits, 65532, &none), Some((65535, 2)));
    assert_eq!(cursor_on_screen(wide, &format!("{fits}a"), 65533, &none), None);
    assert_eq!(cursor_on_screen(wide, &"あ".repeat(40000), 40000, &none), None);
}

#[test]
fn bottom_area_is_the_last_four_rows_of_a_tall_frame_for_a_single_line_buffer() {
    let area = rect(0, 0, 80, 24);
    assert_eq!(bottom_area(area, "", &Vec::new()), rect(0, 20, 80, 4));
    assert_eq!(transcript_area(area, "", &Vec::new()), rect(0, 0, 80, 20));
}

#[test]
fn bottom_area_shrinks_instead_of_overflowing_a_short_frame() {
    let area = rect(0, 0, 80, 2);
    assert_eq!(bottom_area(area, "", &Vec::new()), rect(0, 0, 80, 2));
    assert_eq!(transcript_area(area, "", &Vec::new()), rect(0, 0, 80, 0));
}

#[test]
fn bottom_area_grows_with_extra_buffer_lines_up_to_the_cap() {
    let area = rect(0, 0, 80, 24);
    assert_eq!(bottom_area(area, "one\ntwo", &Vec::new()).height, 5);
    let many = "1\n2\n3\n4\n5\n6\n7\n8\n9\n10";
    assert_eq!(bottom_area(area, many, &Vec::new()).height, 3 + MAX_INPUT_LINES as u16);
}

#[test]
fn bottom_area_grows_for_pending_questions_and_caps_at_max_pending_lines() {
    let area = rect(0, 0, 80, 24);
    let one = vec!["question one".to_string()];
    assert_eq!(bottom_area(area, "", &one).height, 5);
    let many: Vec<String> = (0..5).map(|i| format!("q{i}")).collect();
    assert_eq!(bottom_area(area, "", &many).height, (1 + MAX_PENDING_LINES + 2 + 1) as u16);
}

#[test]
fn pending_questions_render_above_the_box_capped_with_an_overflow_summary() {
    let area = rect(0, 0, 80, 24);
    let many: Vec<String> = (0..5).map(|i| format!("q{i}")).collect();
    let bottom = bottom_area(area, "", &many);
    let parts = split_bottom(bottom, &many);
    assert_eq!(parts.pending.unwrap().height, MAX_PENDING_LINES as u16);
    assert!(parts.input.is_some());
    let lines = pending_lines(&many, MAX_PENDING_LINES, false);
    assert_eq!(lines.len(), MAX_PENDING_LINES);
    assert!(text_of(&lines[0]).contains("q0"));
    assert!(text_of(&lines[MAX_PENDING_LINES - 1]).contains("3"));
}

#[test]
fn alt_enter_inserts_a_newline_instead_of_submitting() {
    let mut box_state = InputBoxState::new(Vec::new());
    press(&mut box_state, key(KeyCode::Char('a')), InputMode::Idle);
    assert!(matches!(press(&mut box_state, alt_enter(), InputMode::Idle), InputOutcome::Handled));
    press(&mut box_state, key(KeyCode::Char('b')), InputMode::Idle);
    assert_eq!(box_state.buffer(), "a\nb");
}

#[test]
fn plain_enter_still_submits_a_multi_line_buffer() {
    let mut box_state = InputBoxState::new(Vec::new());
    press(&mut box_state, key(KeyCode::Char('a')), InputMode::Idle);
    press(&mut box_state, alt_enter(), InputMode::Idle);
    press(&mut box_state, key(KeyCode::Char('b')), InputMode::Idle);
    match press(&mut box_state, key(KeyCode::Enter), InputMode::Idle) {
        InputOutcome::Submit(line) => assert_eq!(line, "a\nb"),
        _ => panic!("expected Submit"),
    }
}

#[test]
fn up_and_down_move_between_lines_instead_of_history_once_the_buffer_has_a_newline() {
    let mut box_state = InputBoxState::new(vec!["old history entry".to_string()]);
    press(&mut box_state, key(KeyCode::Char('a')), InputMode::Idle);
    press(&mut box_state, alt_enter(), InputMode::Idle);
    press(&mut box_state, key(KeyCode::Char('b')), InputMode::Idle);
    assert_eq!(box_state.cursor(), 3);

    press(&mut box_state, key(KeyCode::Up), InputMode::Idle);
    assert_eq!(box_state.buffer(), "a\nb", "Up should move the cursor, not recall history");
    assert_eq!(box_state.cursor(), 1);

    press(&mut box_state, key(KeyCode::Down), InputMode::Idle);
    assert_eq!(box_state.cursor(), 3);
}

#[test]
fn home_and_end_operate_on_the_current_line_of_a_multi_line_buffer() {
    let mut box_state = InputBoxState::new(Vec::new());
    type_text(&mut box_state, "ab");
    press(&mut box_state, alt_enter(), InputMode::Idle);
    type_text(&mut box_state, "cd");
    press(&mut box_state, key(KeyCode::Home), InputMode::Idle);
    assert_eq!(box_state.cursor(), 3);
    press(&mut box_state, key(KeyCode::End), InputMode::Idle);
    assert_eq!(box_state.cursor(), 5);
}

#[test]
fn tab_completes_an_unambiguous_slash_command() {
    let mut box_state = InputBoxState::new(Vec::new());
    type_text(&mut box_state, "/hel");
    press(&mut box_state, key(KeyCode::Tab), InputMode::Idle);
    assert_eq!(box_state.buffer(), "/help ");
}

#[test]
fn tab_completes_a_mention_behind_wide_text() {
    let mut box_state = InputBoxState::new(Vec::new());
    type_text(&mut box_state, "見て @ma");
    let entries = vec![
        Entry { name: "main.rs".to_string(), is_dir: false },
        Entry { name: "lib.rs".to_string(), is_dir: false },
    ];
    box_state.handle_key(key(KeyCode::Tab), InputMode::Idle, 0, &entries);
    assert_eq!(box_state.buffer(), "見て @main.rs");
    assert_eq!(box_state.cursor(), 11);
}

#[test]
fn left_right_and_delete_edit_in_the_middle() {
    let mut box_state = InputBoxState::new(Vec::new());
    type_text(&mut box_state, "abc");
    press(&mut box_state, key(KeyCode::Left), InputMode::Idle);
    press(&mut box_state, key(KeyCode::Left), InputMode::Idle);
    press(&mut box_state, key(KeyCode::Delete), InputMode::Idle);
    assert_eq!(box_state.buffer(), "ac");
    press(&mut box_state, key(KeyCode::Char('é')), InputMode::Idle);
    assert_eq!(box_state.buffer(), "aéc");
    press(&mut box_state, key(KeyCode::Right), InputMode::Idle);
    assert_eq!(box_state.cursor(), 3);
    let shot = box_state.snapshot(InputMode::Running);
    assert_eq!(shot.buffer, "aéc");
    assert_eq!(shot.mode, InputMode::Running);
}

#[test]
fn lines_and_columns_lead_back_to_the_position() {
    let text = "ab\n\ncde";
    for k in 0..=text.chars().count() {
        let (line, col) = line_col(text, k);
        assert_eq!(cursor_from_line_col(text, line, col), k);
    }
    assert_eq!(line_col(text, 4), (2, 0));
    assert_eq!(cursor_from_line_col(text, 0, 99), 2);
}

#[test]
fn the_cursor_line_is_always_shown() {
    let text = "1\n2\n3\n4\n5\n6\n7\n8";
    for line in 0..8 {
        let first = scroll_offset(text, line, 3);
        assert!(first <= line && line < first + 3);
    }
    assert_eq!(scroll_offset("1\n2", 1, 6), 0);
}

#[test]
fn the_box_shows_its_lines_behind_a_prompt() {
    let lines = box_lines("one\ntwo", 7, InputMode::Idle, 2, false);
    assert_eq!(lines.len(), 2);
    assert!(text_of(&lines[0]).ends_with("one"));
    assert!(text_of(&lines[1]).ends_with("two"));
    let colored = box_lines("x", 1, InputMode::Running, 1, true);
    assert!(colored[0].spans.iter().any(|s| s.style.fg == Some(Color::Yellow) || s.style.bg.is_some()));
    assert_eq!(first_line("a\nb"), "a");
    assert_eq!(first_line("a"), "a");
}

#[test]
fn backspace_takes_back_a_typed_character_wherever_the_cursor_is() {
    for back in 0..4 {
        let mut box_state = InputBoxState::new(vec!["old".to_string()]);
        type_text(&mut box_state, "añ日");
        for _ in 0..back {
            press(&mut box_state, key(KeyCode::Left), InputMode::Idle);
        }
        let cursor = box_state.cursor();
        press(&mut box_state, key(KeyCode::Char('é')), InputMode::Idle);
        assert_eq!(box_state.cursor(), cursor + 1);
        let outcome = press(&mut box_state, key(KeyCode::Backspace), InputMode::Idle);
        assert!(matches!(outcome, InputOutcome::Handled));
        assert_eq!(box_state.buffer(), "añ日");
        assert_eq!(box_state.cursor(), cursor);
        assert_eq!(box_state.history(), &vec!["old".to_string()]);
    }
}
