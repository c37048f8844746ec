use minder::ansi::Line;
use minder::ask::{AskOption, AskQuestion};
use minder::ask_overlay::{modal, AskOverlayOutcome, AskOverlayState};
use minder::input_box::{Key, KeyCode};
use minder::layout::Rect;

fn question(header: &str, multi_select: bool) -> AskQuestion {
    AskQuestion {
        header: header.to_string(),
        question: format!("{header}?"),
        options: vec![
            AskOption { label: "A".to_string(), description: String::new() },
            AskOption { label: "B".to_string(), description: String::new() },
        ],
        multi_select,
    }
}

fn key(code: KeyCode) -> Key {
    Key { code, control: false, alt: false, shift: false }
}

fn text_of(line: &Line) -> String {
    line.spans.iter().map(|s| s.content.as_str()).collect()
}

#[test]
fn digit_key_selects_and_finishes_a_single_question_single_select() {
    let mut state = AskOverlayState::new(vec![question("Approach", false)]);
    match state.handle_key(key(KeyCode::Char('2'))) {
        AskOverlayOutcome::Finished(answers) => {
            assert_eq!(answers.len(), 1);
            assert_eq!(answers[0].selected, vec!["B".to_string()]);
        }
        AskOverlayOutcome::Continue => panic!("expected the only question to finish the batch"),
    }
}

#[test]
fn multi_select_requires_at_least_one_checked_option_before_enter_confirms() {
    let mut state = AskOverlayState::new(vec![question("Features", true)]);
    assert!(matches!(state.handle_key(key(KeyCode::Enter)), AskOverlayOutcome::Continue));
    assert!(matches!(state.handle_key(key(KeyCode::Char('1'))), AskOverlayOutcome::Continue));
    match state.handle_key(key(KeyCode::Enter)) {
        AskOverlayOutcome::Finished(answers) => {
            assert_eq!(answers[0].selected, vec!["A".to_string()])
        }
        AskOverlayOutcome::Continue => panic!("expected Enter with one checked option to finish"),
    }
}

#[test]
fn other_switches_to_text_input_and_enter_confirms_the_typed_answer() {
    let mut state = AskOverlayState::new(vec![question("Approach", false)]);
    state.handle_key(key(KeyCode::Down));
    state.handle_key(key(KeyCode::Char('j')));
    assert!(matches!(state.handle_key(key(KeyCode::Enter)), AskOverlayOutcome::Continue));
    for c in "custom".chars() {
        assert!(matches!(state.handle_key(key(KeyCode::Char(c))), AskOverlayOutcome::Continue));
    }
    assert_eq!(text_of(&state.lines(false)[3]), "> custom_");
    match state.handle_key(key(KeyCode::Enter)) {
        AskOverlayOutcome::Finished(answers) => {
            assert_eq!(answers[0].selected, vec!["custom".to_string()])
        }
        AskOverlayOutcome::Continue => panic!("expected Enter on the free-text buffer to finish"),
    }
}

#[test]
fn esc_at_list_level_skips_every_remaining_question() {
    let mut state =
        AskOverlayState::new(vec![question("First", false), question("Second", false)]);
    match state.handle_key(key(KeyCode::Esc)) {
        AskOverlayOutcome::Finished(answers) => {
            assert_eq!(answers.len(), 2);
            assert!(answers.iter().all(|a| a.selected == vec!["(skipped)".to_string()]));
            assert_eq!(answers[1].header, "Second");
        }
        AskOverlayOutcome::Continue => panic!("expected Esc to finish the whole batch"),
    }
}

#[test]
fn answering_the_first_of_two_questions_advances_without_finishing() {
    let mut state =
        AskOverlayState::new(vec![question("First", false), question("Second", false)]);
    assert!(matches!(state.handle_key(key(KeyCode::Char('1'))), AskOverlayOutcome::Continue));
    assert_eq!(state.current_question().header, "Second");
    assert_eq!(state.title(), " Question 2 of 2 ");
    assert_eq!(text_of(&state.option_line(0, false)), "❯ 1. A");
}

#[test]
fn the_marked_row_wraps_around_at_both_ends() {
    let mut state = AskOverlayState::new(vec![question("First", false)]);
    assert_eq!(state.row_count(), 3);
    state.handle_key(key(KeyCode::Up));
    assert_eq!(
        text_of(&state.option_line(2, false)),
        "❯ 3. Other -- type your own answer"
    );
    state.handle_key(key(KeyCode::Char('k')));
    assert_eq!(text_of(&state.option_line(1, false)), "❯ 2. B");
    state.handle_key(key(KeyCode::Down));
    state.handle_key(key(KeyCode::Down));
    assert_eq!(text_of(&state.option_line(0, false)), "❯ 1. A");
}

#[test]
fn own_words_are_the_whole_answer_whatever_is_checked() {
    let mut state = AskOverlayState::new(vec![question("Features", true)]);
    state.handle_key(key(KeyCode::Char(' ')));
    assert_eq!(text_of(&state.option_line(0, false)), "[x] 1. A");
    assert_eq!(text_of(&state.option_line(1, false)), "[ ] 2. B");
    state.handle_key(key(KeyCode::Up));
    state.handle_key(key(KeyCode::Enter));
    assert!(matches!(state.handle_key(key(KeyCode::Enter)), AskOverlayOutcome::Continue));
    state.handle_key(key(KeyCode::Char('x')));
    state.handle_key(key(KeyCode::Char('y')));
    state.handle_key(key(KeyCode::Backspace));
    match state.handle_key(key(KeyCode::Enter)) {
        AskOverlayOutcome::Finished(answers) => {
            assert_eq!(answers[0].selected, vec!["x".to_string()])
        }
        AskOverlayOutcome::Continue => panic!("expected an answer"),
    }
}

#[test]
fn the_panel_shows_question_options_and_help() {
    let state = AskOverlayState::new(vec![question("Approach", false)]);
    let texts: Vec<String> = state.lines(true).iter().map(text_of).collect();
    assert_eq!(
        texts,
        vec![
            "Approach",
            "Approach?",
            "",
            "❯ 1. A",
            "  2. B",
            "  3. Other -- type your own answer",
            "",
            "↑↓ move · 1-9 select · Enter select · Esc skip",
        ]
    );
    let area = Rect { x: 0, y: 0, width: 100, height: 24 };
    assert_eq!(modal(area), Rect { x: 15, y: 1, width: 70, height: 22 });
}
