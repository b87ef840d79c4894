use std::path::PathBuf;

use quizz_training::error::QuizError;
use quizz_training::quiz::models::{Question, QuestionYaml, QuizMetadataYaml, QuizOption, QuizYaml};
use quizz_training::quiz::validator::validate_quiz;
use quizz_training::text::{ends_with_star_str, trim, trim_end_stars_str};

fn raw_question(title: &str, options: &[&str]) -> QuestionYaml {
    QuestionYaml {
        title: title.to_string(),
        options: options.iter().map(|o| o.to_string()).collect(),
    }
}

fn raw_quiz(name: &str, questions: Vec<QuestionYaml>) -> QuizYaml {
    QuizYaml { metadata: QuizMetadataYaml { name: name.to_string() }, questions }
}

fn readme_quiz() -> QuizYaml {
    raw_quiz(
        "Quizz name",
        vec![
            raw_question(
                "What is the capital of France?",
                &["Strasbourg", "Metz", "Paris*", "Marseille"],
            ),
            raw_question(
                "What should you do during high temperatures?",
                &["Doing sport at noon", "Drink often*", "Eat enough*", "Close all your windows*"],
            ),
        ],
    )
}

#[test]
fn readme_quiz_is_valid() {
    let quiz = validate_quiz(readme_quiz(), PathBuf::from("quizz/sample.yaml")).unwrap();
    assert_eq!(quiz.metadata.name, "Quizz name");
    assert_eq!(quiz.file_path, PathBuf::from("quizz/sample.yaml"));
    assert_eq!(quiz.questions.len(), 2);
    let first = &quiz.questions[0];
    assert_eq!(first.title, "What is the capital of France?");
    let texts: Vec<&str> = first.options.iter().map(|o| o.text.as_str()).collect();
    assert_eq!(texts, vec!["Strasbourg", "Metz", "Paris", "Marseille"]);
    let correct: Vec<bool> = first.options.iter().map(|o| o.is_correct).collect();
    assert_eq!(correct, vec![false, false, true, false]);
    assert_eq!(first.correct_answer_count(), 1);
    assert!(!first.is_multiple_answer());
    let second = &quiz.questions[1];
    assert_eq!(second.correct_answer_count(), 3);
    assert!(second.is_multiple_answer());
}

#[test]
fn option_marker_and_spaces_are_stripped() {
    let quiz = validate_quiz(
        raw_quiz("q", vec![raw_question("t", &["  spaced  ", " right **", "plain", "kept * "])]),
        PathBuf::from("a.yaml"),
    )
    .unwrap();
    let options = &quiz.questions[0].options;
    assert_eq!(options[0].text, "spaced");
    assert!(!options[0].is_correct);
    assert_eq!(options[1].text, "right");
    assert!(options[1].is_correct);
    assert_eq!(options[2].text, "plain");
    // A marker followed by a space is no marker.
    assert_eq!(options[3].text, "kept *");
    assert!(!options[3].is_correct);
}

#[test]
fn title_and_name_are_kept_untrimmed() {
    let quiz = validate_quiz(
        raw_quiz("  Name ", vec![raw_question(" Title ", &["a*"])]),
        PathBuf::from("a.yaml"),
    )
    .unwrap();
    assert_eq!(quiz.metadata.name, "  Name ");
    assert_eq!(quiz.questions[0].title, " Title ");
}

#[test]
fn blank_name_is_refused() {
    let r = validate_quiz(raw_quiz(" \t ", vec![raw_question("t", &["a*"])]), PathBuf::from("f.yaml"));
    match r {
        Err(QuizError::EmptyQuizName { file }) => assert_eq!(file, PathBuf::from("f.yaml")),
        other => panic!("unexpected {:?}", other),
    }
}

#[test]
fn no_question_is_refused() {
    let r = validate_quiz(raw_quiz("n", vec![]), PathBuf::from("f.yaml"));
    assert!(matches!(r, Err(QuizError::NoQuestions { .. })));
}

#[test]
fn blank_title_is_refused_with_its_position() {
    let r = validate_quiz(
        raw_quiz("n", vec![raw_question("ok", &["a*"]), raw_question("\u{3000}", &["a*"])]),
        PathBuf::from("f.yaml"),
    );
    match r {
        Err(QuizError::EmptyQuestionTitle { question_index, .. }) => assert_eq!(question_index, 2),
        other => panic!("unexpected {:?}", other),
    }
}

#[test]
fn question_without_options_is_refused() {
    let r = validate_quiz(raw_quiz("n", vec![raw_question("t", &[])]), PathBuf::from("f.yaml"));
    match r {
        Err(QuizError::NoOptions { question_index, .. }) => assert_eq!(question_index, 1),
        other => panic!("unexpected {:?}", other),
    }
}

#[test]
fn empty_option_text_is_refused_with_its_position() {
    let r = validate_quiz(
        raw_quiz("n", vec![raw_question("t", &["a", " *", "  "])]),
        PathBuf::from("f.yaml"),
    );
    match r {
        Err(QuizError::EmptyOptionText { question_index, option_index, .. }) => {
            assert_eq!(question_index, 1);
            assert_eq!(option_index, 2);
        },
        other => panic!("unexpected {:?}", other),
    }
}

#[test]
fn question_without_correct_answer_is_refused() {
    let r = validate_quiz(
        raw_quiz("n", vec![raw_question("t", &["a*"]), raw_question("u", &["a", "b"])]),
        PathBuf::from("f.yaml"),
    );
    match r {
        Err(QuizError::NoCorrectAnswer { question_index, .. }) => assert_eq!(question_index, 2),
        other => panic!("unexpected {:?}", other),
    }
}

#[test]
fn first_broken_rule_is_reported() {
    // The empty option of the first question comes before the missing title of the second.
    let r = validate_quiz(
        raw_quiz("n", vec![raw_question("t", &["", "a"]), raw_question("", &[])]),
        PathBuf::from("f.yaml"),
    );
    match r {
        Err(QuizError::EmptyOptionText { question_index, option_index, .. }) => {
            assert_eq!((question_index, option_index), (1, 1));
        },
        other => panic!("unexpected {:?}", other),
    }
}

#[test]
fn trimming_matches_std() {
    for s in ["", "  ", " a ", "\u{a0}x\u{2003}", "\tab c\n", "é ", "a*", "**", "x* *"] {
        assert_eq!(trim(s), s.trim());
        assert_eq!(trim_end_stars_str(s), s.trim_end_matches('*'));
        assert_eq!(ends_with_star_str(s), s.ends_with('*'));
    }
}

#[test]
fn question_clone_keeps_content() {
    let q = Question {
        title: "t".to_string(),
        options: vec![
            QuizOption { text: "a".to_string(), is_correct: true },
            QuizOption { text: "b".to_string(), is_correct: false },
        ],
    };
    let c = q.clone();
    assert_eq!(c.title, "t");
    assert_eq!(c.options.len(), 2);
    assert_eq!(c.options[0].text, "a");
    assert!(c.options[0].is_correct);
    assert!(!c.options[1].is_correct);
}
