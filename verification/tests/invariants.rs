use std::path::PathBuf;

use quizz_training::app::{App, AppScreen};
use quizz_training::input::{map_key_to_action, Action, Key, KeyPress};
use quizz_training::quiz::models::{QuestionYaml, QuizMetadataYaml, QuizYaml};
use quizz_training::quiz::validator::validate_quiz;

fn raw_quiz(name: &str, questions: &[(&str, &[&str])]) -> QuizYaml {
    QuizYaml {
        metadata: QuizMetadataYaml { name: name.to_string() },
        questions: questions
            .iter()
            .map(|(t, o)| QuestionYaml {
                title: t.to_string(),
                options: o.iter().map(|s| s.to_string()).collect(),
            })
            .collect(),
    }
}

fn quizzes() -> Vec<quizz_training::quiz::models::Quiz> {
    vec![
        validate_quiz(
            raw_quiz("One", &[("q1", &["a*", "b", "c"]), ("q2", &["a", "b*", "c*"]), ("q3", &["x*"])]),
            PathBuf::from("one.yaml"),
        )
        .unwrap(),
        validate_quiz(raw_quiz("Two", &[("r1", &["yes*", "no"])]), PathBuf::from("two.yaml")).unwrap(),
    ]
}

/// The well-formedness that every action keeps.
fn check_wf(app: &App) {
    match &app.screen {
        AppScreen::QuizSelection { selected_index } => assert!(*selected_index < app.quizzes.len()),
        AppScreen::ModeSelection { .. } => assert!(app.selected_quiz_index < app.quizzes.len()),
        AppScreen::QuestionCountInput { input, .. } => {
            assert!(app.selected_quiz_index < app.quizzes.len());
            assert!(input.chars().all(|c| c.is_ascii_digit()));
            assert!(input.chars().count() <= 4);
        },
        AppScreen::Question { .. } | AppScreen::Result => {
            let s = app.training_session.as_ref().expect("a session");
            assert_eq!(s.total_questions, s.questions.len());
            if let Some(q) = s.current_question() {
                assert_eq!(s.selected_options.len(), q.options.len());
                let mut map = s.option_shuffle_map.clone();
                map.sort();
                assert_eq!(map, (0..q.options.len()).collect::<Vec<_>>());
                assert!(s.selected_ui_index <= q.options.len());
                let mut shown: Vec<String> = s.shuffled_options().iter().map(|o| o.text.clone()).collect();
                let mut all: Vec<String> = q.options.iter().map(|o| o.text.clone()).collect();
                shown.sort();
                all.sort();
                assert_eq!(shown, all);
            }
            if matches!(app.screen, AppScreen::Result) {
                assert!(s.is_complete());
            }
        },
    }
}

#[test]
fn validated_quizzes_are_well_formed() {
    for quiz in quizzes() {
        assert!(!quiz.questions.is_empty());
        for q in &quiz.questions {
            assert!(!q.title.trim().is_empty());
            assert!(!q.options.is_empty());
            assert!(q.options.iter().all(|o| !o.text.is_empty()));
            assert!(q.correct_answer_count() >= 1);
        }
    }
}

#[test]
fn every_action_keeps_the_state_well_formed() {
    let actions = [
        Action::NavigateUp,
        Action::NavigateDown,
        Action::Select,
        Action::Select,
        Action::ToggleOption(1),
        Action::ToggleOption(2),
        Action::ToggleOption(3),
        Action::ToggleOption(12),
        Action::InputChar('1'),
        Action::InputChar('0'),
        Action::Backspace,
        Action::Back,
        Action::NoAction,
    ];
    let mut seed: u64 = 12345;
    for _ in 0..20 {
        let mut app = App::new(quizzes());
        let names: Vec<String> = app.quizzes.iter().map(|q| q.metadata.name.clone()).collect();
        check_wf(&app);
        for _ in 0..400 {
            seed = seed.wrapping_mul(6364136223846793005).wrapping_add(1442695040888963407);
            let action = actions[((seed >> 33) as usize) % actions.len()];
            let before_index = app.selected_quiz_index;
            let was_on_list = matches!(app.screen, AppScreen::QuizSelection { .. });
            app.handle_action(action);
            check_wf(&app);
            let after: Vec<String> = app.quizzes.iter().map(|q| q.metadata.name.clone()).collect();
            assert_eq!(after, names);
            if app.selected_quiz_index != before_index {
                assert!(was_on_list && action == Action::Select);
            }
        }
    }
}

#[test]
fn ctrl_x_quits_from_the_question_screen() {
    let mut app = App::new(quizzes());
    app.handle_action(Action::Select);
    app.handle_action(Action::Select);
    let index = app.training_session.as_ref().unwrap().current_question_index;
    app.handle_action(map_key_to_action(KeyPress { key: Key::Char('X'), ctrl: true }));
    assert!(app.should_quit);
    assert!(matches!(app.screen, AppScreen::Question { .. }));
    assert_eq!(app.training_session.as_ref().unwrap().current_question_index, index);
}

#[test]
fn backspace_undoes_a_typed_digit() {
    let mut app = App::new(quizzes());
    app.handle_action(Action::Select);
    app.handle_action(Action::NavigateDown);
    app.handle_action(Action::Select);
    app.handle_action(Action::InputChar('4'));
    app.handle_action(Action::Select);
    match &app.screen {
        AppScreen::QuestionCountInput { input, error_message } => {
            assert_eq!(input, "4");
            assert_eq!(error_message.as_deref(), Some("Please enter a number between 1 and 3"));
        },
        _ => panic!("not on the count screen"),
    }
    app.handle_action(Action::ToggleOption(7));
    app.handle_action(Action::Backspace);
    match &app.screen {
        AppScreen::QuestionCountInput { input, error_message } => {
            assert_eq!(input, "4");
            assert!(error_message.is_none());
        },
        _ => panic!("not on the count screen"),
    }
}

#[test]
fn question_highlight_round_trip() {
    let mut app = App::new(quizzes());
    app.handle_action(Action::Select);
    app.handle_action(Action::Select);
    let option_count =
        app.training_session.as_ref().unwrap().current_question().unwrap().options.len();
    for start in 0..=option_count {
        app.training_session.as_mut().unwrap().selected_ui_index = start;
        app.handle_action(Action::NavigateUp);
        app.handle_action(Action::NavigateDown);
        assert_eq!(app.training_session.as_ref().unwrap().selected_ui_index, start);
        app.handle_action(Action::NavigateDown);
        app.handle_action(Action::NavigateUp);
        assert_eq!(app.training_session.as_ref().unwrap().selected_ui_index, start);
    }
}
