use std::path::PathBuf;

use quizz_training::app::session::{AnswerFeedback, TrainingMode, TrainingSession};
use quizz_training::app::{App, AppScreen};
use quizz_training::input::Action;
use quizz_training::quiz::models::{Question, Quiz, QuizMetadata, QuizOption};

fn question(title: &str, options: &[(&str, bool)]) -> Question {
    Question {
        title: title.to_string(),
        options: options
            .iter()
            .map(|(t, c)| QuizOption { text: t.to_string(), is_correct: *c })
            .collect(),
    }
}

fn quiz(name: &str, questions: Vec<Question>) -> Quiz {
    Quiz {
        metadata: QuizMetadata { name: name.to_string() },
        questions,
        file_path: PathBuf::from(format!("{}.yaml", name)),
    }
}

fn sample_quizzes() -> Vec<Quiz> {
    vec![
        quiz(
            "Alpha",
            vec![
                question("a1", &[("x", true), ("y", false)]),
                question("a2", &[("x", false), ("y", true), ("z", true)]),
            ],
        ),
        quiz("Beta", vec![question("b1", &[("only", true)])]),
    ]
}

fn selected_index(app: &App) -> usize {
    match app.screen {
        AppScreen::QuizSelection { selected_index } => selected_index,
        _ => panic!("not on the quiz list"),
    }
}

/// Checks, on the question screen, the options that are correct, by display position.
fn check_correct_options(app: &mut App) {
    let session = app.training_session.as_ref().unwrap();
    let shown = session.shuffled_options();
    let correct: Vec<usize> =
        shown.iter().enumerate().filter(|(_, o)| o.is_correct).map(|(i, _)| i + 1).collect();
    for n in correct {
        app.handle_action(Action::ToggleOption(n));
    }
}

/// Moves the highlight to the confirm button and presses Enter.
fn confirm(app: &mut App) {
    let count = app.training_session.as_ref().unwrap().current_question().unwrap().options.len();
    app.training_session.as_mut().unwrap().selected_ui_index = count;
    app.handle_action(Action::Select);
}

#[test]
fn quit_from_any_screen() {
    let mut app = App::new(sample_quizzes());
    app.handle_action(Action::NavigateDown);
    app.handle_action(Action::Quit);
    assert!(app.should_quit);
    assert_eq!(selected_index(&app), 1);
}

#[test]
fn quiz_list_wraps_around() {
    let mut app = App::new(sample_quizzes());
    assert_eq!(selected_index(&app), 0);
    app.handle_action(Action::NavigateUp);
    assert_eq!(selected_index(&app), 1);
    app.handle_action(Action::NavigateDown);
    assert_eq!(selected_index(&app), 0);
    app.handle_action(Action::NavigateDown);
    app.handle_action(Action::NavigateDown);
    assert_eq!(selected_index(&app), 0);
}

#[test]
fn empty_quiz_list_stays_put() {
    let mut app = App::new(Vec::new());
    app.handle_action(Action::NavigateUp);
    assert_eq!(selected_index(&app), 0);
    app.handle_action(Action::Select);
    assert_eq!(selected_index(&app), 0);
    assert!(app.selected_quiz().is_none());
}

#[test]
fn mode_selection_toggles_and_goes_back() {
    let mut app = App::new(sample_quizzes());
    app.handle_action(Action::NavigateDown);
    app.handle_action(Action::Select);
    assert_eq!(app.selected_quiz_index, 1);
    assert_eq!(app.selected_quiz().unwrap().metadata.name, "Beta");
    assert!(matches!(app.screen, AppScreen::ModeSelection { selected_mode: TrainingMode::AllQuestions }));
    app.handle_action(Action::NavigateUp);
    assert!(matches!(
        app.screen,
        AppScreen::ModeSelection { selected_mode: TrainingMode::LimitedQuestions }
    ));
    app.handle_action(Action::NavigateDown);
    assert!(matches!(app.screen, AppScreen::ModeSelection { selected_mode: TrainingMode::AllQuestions }));
    app.handle_action(Action::Back);
    assert_eq!(selected_index(&app), 1);
}

fn count_field(app: &App) -> (String, Option<String>) {
    match &app.screen {
        AppScreen::QuestionCountInput { input, error_message } => (input.clone(), error_message.clone()),
        _ => panic!("not on the count screen"),
    }
}

#[test]
fn question_count_input_is_checked() {
    let mut app = App::new(sample_quizzes());
    app.handle_action(Action::Select);
    app.handle_action(Action::NavigateDown);
    app.handle_action(Action::Select);
    assert_eq!(count_field(&app), (String::new(), None));

    app.handle_action(Action::Select);
    assert_eq!(count_field(&app), (String::new(), Some("Please enter a valid number".to_string())));

    app.handle_action(Action::InputChar('0'));
    app.handle_action(Action::Select);
    assert_eq!(
        count_field(&app),
        ("0".to_string(), Some("Please enter a number between 1 and 2".to_string()))
    );

    app.handle_action(Action::ToggleOption(5));
    app.handle_action(Action::InputChar('a'));
    assert_eq!(count_field(&app).0, "05");
    app.handle_action(Action::ToggleOption(12));
    assert_eq!(count_field(&app).0, "05");
    app.handle_action(Action::InputChar('1'));
    app.handle_action(Action::InputChar('2'));
    app.handle_action(Action::InputChar('3'));
    assert_eq!(count_field(&app).0, "0512");

    app.handle_action(Action::Backspace);
    app.handle_action(Action::Backspace);
    app.handle_action(Action::Backspace);
    assert_eq!(count_field(&app), ("0".to_string(), None));
    app.handle_action(Action::ToggleOption(2));
    app.handle_action(Action::Select);
    assert!(matches!(app.screen, AppScreen::Question { feedback: None }));
    let session = app.training_session.as_ref().unwrap();
    assert_eq!(session.total_questions, 2);
    assert_eq!(session.quiz_name, "Alpha");
}

#[test]
fn back_from_count_returns_to_limited_mode() {
    let mut app = App::new(sample_quizzes());
    app.handle_action(Action::Select);
    app.handle_action(Action::NavigateUp);
    app.handle_action(Action::Select);
    app.handle_action(Action::Back);
    assert!(matches!(
        app.screen,
        AppScreen::ModeSelection { selected_mode: TrainingMode::LimitedQuestions }
    ));
}

#[test]
fn limited_training_takes_one_question() {
    let mut app = App::new(sample_quizzes());
    app.handle_action(Action::Select);
    app.handle_action(Action::NavigateDown);
    app.handle_action(Action::Select);
    app.handle_action(Action::ToggleOption(1));
    app.handle_action(Action::Select);
    let session = app.training_session.as_ref().unwrap();
    assert_eq!(session.total_questions, 1);
    assert_eq!(session.questions.len(), 1);
}

#[test]
fn full_training_round() {
    let mut app = App::new(sample_quizzes());
    app.handle_action(Action::Select);
    app.handle_action(Action::Select);
    assert!(matches!(app.screen, AppScreen::Question { feedback: None }));
    assert_eq!(app.training_session.as_ref().unwrap().total_questions, 2);

    // A wrong answer: nothing checked.
    confirm(&mut app);
    let multiple = app.training_session.as_ref().unwrap().current_question().unwrap().is_multiple_answer();
    assert!(matches!(
        app.screen,
        AppScreen::Question { feedback: Some(AnswerFeedback::Incorrect { is_multiple_answer }) }
            if is_multiple_answer == multiple
    ));
    let session = app.training_session.as_ref().unwrap();
    assert_eq!(session.error_count, 1);
    assert_eq!(session.current_question_index, 0);
    assert!(session.selected_options.iter().all(|s| !s));

    // The right answer moves on.
    check_correct_options(&mut app);
    confirm(&mut app);
    assert!(matches!(app.screen, AppScreen::Question { feedback: None }));
    assert_eq!(app.training_session.as_ref().unwrap().current_question_index, 1);

    check_correct_options(&mut app);
    confirm(&mut app);
    assert!(matches!(app.screen, AppScreen::Result));
    let session = app.training_session.as_ref().unwrap();
    assert!(session.is_complete());
    assert_eq!(session.error_count, 1);

    app.handle_action(Action::NavigateDown);
    assert!(matches!(app.screen, AppScreen::Result));
    app.handle_action(Action::Select);
    assert!(app.training_session.is_none());
    assert_eq!(selected_index(&app), 0);
}

#[test]
fn question_highlight_wraps_and_select_toggles() {
    let mut app = App::new(sample_quizzes());
    app.handle_action(Action::NavigateDown);
    app.handle_action(Action::Select);
    app.handle_action(Action::Select);
    // One option and the confirm button.
    app.handle_action(Action::NavigateUp);
    assert_eq!(app.training_session.as_ref().unwrap().selected_ui_index, 1);
    app.handle_action(Action::NavigateDown);
    assert_eq!(app.training_session.as_ref().unwrap().selected_ui_index, 0);
    app.handle_action(Action::Select);
    assert_eq!(app.training_session.as_ref().unwrap().selected_options, vec![true]);
    app.handle_action(Action::ToggleOption(1));
    assert_eq!(app.training_session.as_ref().unwrap().selected_options, vec![false]);
    app.handle_action(Action::ToggleOption(2));
    assert_eq!(app.training_session.as_ref().unwrap().selected_options, vec![false]);
    app.handle_action(Action::Select);
    app.handle_action(Action::NavigateDown);
    app.handle_action(Action::Select);
    assert!(matches!(app.screen, AppScreen::Result));
    assert_eq!(app.training_session.as_ref().unwrap().error_count, 0);
}

#[test]
fn session_draws_questions_and_option_orders() {
    let source = quiz(
        "Big",
        (0..10).map(|i| question(&format!("q{}", i), &[("a", true), ("b", false), ("c", false)])).collect(),
    );
    let mut saw_other_order = false;
    for _ in 0..30 {
        let session = TrainingSession::new(&source, None);
        assert_eq!(session.total_questions, 10);
        let mut titles: Vec<String> = session.questions.iter().map(|q| q.title.clone()).collect();
        if titles.iter().enumerate().any(|(i, t)| *t != format!("q{}", i)) {
            saw_other_order = true;
        }
        titles.sort();
        let mut expected: Vec<String> = (0..10).map(|i| format!("q{}", i)).collect();
        expected.sort();
        assert_eq!(titles, expected);
        let mut map = session.option_shuffle_map.clone();
        map.sort();
        assert_eq!(map, vec![0, 1, 2]);
        assert_eq!(session.selected_options, vec![false, false, false]);
        assert_eq!(session.shuffled_options().len(), 3);
    }
    assert!(saw_other_order);
    let limited = TrainingSession::new(&source, Some(4));
    assert_eq!(limited.total_questions, 4);
    assert_eq!(limited.questions.len(), 4);
    let too_many = TrainingSession::new(&source, Some(40));
    assert_eq!(too_many.total_questions, 10);
}

#[test]
fn from_shuffled_keeps_given_orders() {
    let source = quiz("S", vec![question("q", &[("a", true), ("b", false)])]);
    let shuffled = vec![
        question("second", &[("x", false), ("y", true), ("z", false)]),
        question("first", &[("a", true)]),
    ];
    let session = TrainingSession::from_shuffled(&source, Some(1), shuffled, vec![2, 0, 1]);
    assert_eq!(session.quiz_name, "S");
    assert_eq!(session.total_questions, 1);
    assert_eq!(session.questions[0].title, "second");
    assert_eq!(session.selected_options, vec![false, false, false]);
    let shown: Vec<&str> = session.shuffled_options().iter().map(|o| o.text.as_str()).collect();
    assert_eq!(shown, vec!["z", "x", "y"]);
}

#[test]
fn answer_is_judged_through_the_display_order() {
    let source = quiz("S", vec![question("q", &[("a", true), ("b", false), ("c", true)])]);
    let mut session = TrainingSession::from_shuffled(
        &source,
        None,
        vec![question("q", &[("a", true), ("b", false), ("c", true)])],
        vec![1, 2, 0],
    );
    // Display: b, c, a. Checking c and a is right.
    session.selected_options = vec![false, true, true];
    assert_eq!(session.validate_answer(), AnswerFeedback::Correct);
    session.selected_options = vec![true, true, true];
    assert_eq!(session.validate_answer(), AnswerFeedback::Incorrect { is_multiple_answer: true });
    session.selected_options = vec![false, true, false];
    assert_eq!(session.validate_answer(), AnswerFeedback::Incorrect { is_multiple_answer: true });
    session.prepare_next_question();
    assert_eq!(session.current_question_index, 1);
    assert!(session.current_question().is_none());
    assert!(session.is_complete());
    assert_eq!(session.validate_answer(), AnswerFeedback::Correct);
    assert!(session.shuffled_options().is_empty());
}

#[test]
fn next_question_resets_selection() {
    let source = quiz("S", vec![question("q", &[("a", true)])]);
    let mut session = TrainingSession::from_shuffled(
        &source,
        None,
        vec![question("q1", &[("a", true)]), question("q2", &[("a", true), ("b", false)])],
        vec![0],
    );
    session.selected_options = vec![true];
    session.selected_ui_index = 1;
    session.prepare_next_question();
    assert_eq!(session.current_question().unwrap().title, "q2");
    assert_eq!(session.selected_options, vec![false, false]);
    assert_eq!(session.selected_ui_index, 0);
    let mut map = session.option_shuffle_map.clone();
    map.sort();
    assert_eq!(map, vec![0, 1]);
}
