use std::path::PathBuf;

use quizz_training::app::session::TrainingSession;
use quizz_training::app::{App, AppScreen};
use quizz_training::input::Action;
use quizz_training::quiz::models::{Question, Quiz, QuizMetadata, QuizOption};

fn option(text: &str, is_correct: bool) -> QuizOption {
    QuizOption { text: text.to_string(), is_correct }
}

fn one_question_session(options: Vec<QuizOption>, selected: Vec<bool>) -> TrainingSession {
    let n = options.len();
    TrainingSession {
        quiz_name: "Q".to_string(),
        questions: vec![Question { title: "T".to_string(), options }],
        current_question_index: 0,
        selected_options: selected,
        selected_ui_index: 0,
        error_count: 0,
        total_questions: 1,
        option_shuffle_map: (0..n).collect(),
    }
}

#[test]
fn quit_works_with_a_session_missing_check_boxes() {
    let mut app = App::new(Vec::new());
    app.screen = AppScreen::Question { feedback: None };
    app.training_session = Some(one_question_session(vec![option("A", true)], Vec::new()));
    assert!(app.can_handle(Action::Quit));
    assert!(app.can_handle(Action::NavigateDown));
    assert!(!app.can_handle(Action::ToggleOption(1)));
    app.handle_action(Action::NavigateDown);
    assert_eq!(app.training_session.as_ref().unwrap().selected_ui_index, 1);
    app.handle_action(Action::Quit);
    assert!(app.should_quit);
    assert!(matches!(app.screen, AppScreen::Question { feedback: None }));
}

#[test]
fn no_action_changes_nothing() {
    let mut app = App::new(Vec::new());
    app.screen = AppScreen::Question { feedback: None };
    app.training_session = Some(one_question_session(vec![option("A", true), option("B", false)], vec![true, false]));
    app.handle_action(Action::NoAction);
    assert!(!app.should_quit);
    let s = app.training_session.as_ref().unwrap();
    assert_eq!(s.selected_options, vec![true, false]);
    assert_eq!(s.selected_ui_index, 0);
    assert!(matches!(app.screen, AppScreen::Question { feedback: None }));
}

#[test]
fn number_key_twice_restores_the_check_box() {
    let mut app = App::new(Vec::new());
    app.screen = AppScreen::Question { feedback: None };
    app.training_session = Some(one_question_session(vec![option("A", true), option("B", false)], vec![false, true]));
    app.handle_action(Action::ToggleOption(1));
    assert_eq!(app.training_session.as_ref().unwrap().selected_options, vec![true, true]);
    app.handle_action(Action::ToggleOption(1));
    assert_eq!(app.training_session.as_ref().unwrap().selected_options, vec![false, true]);
}

#[test]
fn enter_on_an_option_is_its_number_key() {
    for ui in 0..2 {
        let mut by_enter = App::new(Vec::new());
        by_enter.screen = AppScreen::Question { feedback: None };
        by_enter.training_session =
            Some(one_question_session(vec![option("A", true), option("B", false)], vec![false, false]));
        by_enter.training_session.as_mut().unwrap().selected_ui_index = ui;
        by_enter.handle_action(Action::Select);
        let mut by_key = App::new(Vec::new());
        by_key.screen = AppScreen::Question { feedback: None };
        by_key.training_session =
            Some(one_question_session(vec![option("A", true), option("B", false)], vec![false, false]));
        by_key.training_session.as_mut().unwrap().selected_ui_index = ui;
        by_key.handle_action(Action::ToggleOption(ui + 1));
        assert_eq!(
            by_enter.training_session.as_ref().unwrap().selected_options,
            by_key.training_session.as_ref().unwrap().selected_options
        );
    }
}

#[test]
fn accepting_every_question_completes_after_total() {
    let quiz = Quiz {
        metadata: QuizMetadata { name: "Q".to_string() },
        questions: vec![Question { title: "T".to_string(), options: vec![option("A", true)] }; 3],
        file_path: PathBuf::new(),
    };
    let mut session = TrainingSession::new(&quiz, None);
    for k in 0..3 {
        assert!(!session.is_complete());
        assert_eq!(session.current_question_index, k);
        session.prepare_next_question();
    }
    assert!(session.is_complete());
    let copy = quiz.clone();
    assert_eq!(copy.questions.len(), 3);
    assert_eq!(copy.file_path, quiz.file_path);
}
