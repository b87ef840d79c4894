use quizz_training::input::{map_key_to_action, Action, Key, KeyPress};
use quizz_training::number::{decimal_string, parse_usize};

fn press(key: Key, ctrl: bool) -> Action {
    map_key_to_action(KeyPress { key, ctrl })
}

#[test]
fn ctrl_x_quits() {
    assert_eq!(press(Key::Char('x'), true), Action::Quit);
    assert_eq!(press(Key::Char('X'), true), Action::Quit);
    assert_eq!(press(Key::Char('x'), false), Action::NoAction);
}

#[test]
fn keys_map_to_actions() {
    assert_eq!(press(Key::Up, false), Action::NavigateUp);
    assert_eq!(press(Key::Down, true), Action::NavigateDown);
    assert_eq!(press(Key::Enter, false), Action::Select);
    assert_eq!(press(Key::Esc, false), Action::Back);
    assert_eq!(press(Key::Backspace, false), Action::Backspace);
    assert_eq!(press(Key::Other, false), Action::NoAction);
}

#[test]
fn digits_toggle_options_and_zero_is_input() {
    for (c, n) in [('1', 1), ('5', 5), ('9', 9)] {
        assert_eq!(press(Key::Char(c), false), Action::ToggleOption(n));
    }
    assert_eq!(press(Key::Char('3'), true), Action::ToggleOption(3));
    assert_eq!(press(Key::Char('0'), false), Action::InputChar('0'));
    assert_eq!(press(Key::Char('a'), false), Action::NoAction);
    assert_eq!(press(Key::Char('٣'), false), Action::NoAction);
}

#[test]
fn parse_matches_std() {
    for s in ["", "+", "-", "-1", "+7", "12", "0012", "1 2", "abc", "٣", "18446744073709551615", "18446744073709551616", "99999999999999999999999"] {
        assert_eq!(parse_usize(s), s.parse::<usize>().ok(), "input {:?}", s);
    }
}

#[test]
fn decimal_text_matches_std() {
    for n in [0usize, 7, 10, 42, 1000, 123456789, usize::MAX] {
        assert_eq!(decimal_string(n), n.to_string());
    }
}
