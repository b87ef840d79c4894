use std::path::PathBuf;

use quizz_training::error::QuizError;
use quizz_training::quiz::loader::{collect_quizzes, is_quiz_extension, sort_by_name, text_le_exec};
use quizz_training::quiz::models::{Quiz, QuizMetadata};

fn quiz(name: &str, file: &str) -> Quiz {
    Quiz {
        metadata: QuizMetadata { name: name.to_string() },
        questions: Vec::new(),
        file_path: PathBuf::from(file),
    }
}

#[test]
fn yaml_files_count() {
    assert!(is_quiz_extension(Some("yaml")));
    assert!(is_quiz_extension(Some("yml")));
    assert!(!is_quiz_extension(Some("YAML")));
    assert!(!is_quiz_extension(Some("json")));
    assert!(!is_quiz_extension(None));
}

#[test]
fn first_error_wins() {
    let loaded = vec![
        Ok(quiz("a", "a.yaml")),
        Err(QuizError::NoQuestions { file: PathBuf::from("b.yaml") }),
        Err(QuizError::EmptyQuizName { file: PathBuf::from("c.yaml") }),
    ];
    match collect_quizzes(loaded) {
        Err(QuizError::NoQuestions { file }) => assert_eq!(file, PathBuf::from("b.yaml")),
        other => panic!("unexpected {:?}", other),
    }
}

#[test]
fn nothing_loaded_means_no_quiz_found() {
    assert!(matches!(collect_quizzes(Vec::new()), Err(QuizError::NoQuizzesFound)));
}

#[test]
fn quizzes_come_sorted_by_name_stably() {
    let loaded = vec![
        Ok(quiz("Zeta", "1.yaml")),
        Ok(quiz("Alpha", "2.yaml")),
        Ok(quiz("Mu", "3.yaml")),
        Ok(quiz("Alpha", "4.yaml")),
        Ok(quiz("alpha", "5.yaml")),
    ];
    let quizzes = collect_quizzes(loaded).unwrap();
    let order: Vec<(String, PathBuf)> =
        quizzes.iter().map(|q| (q.metadata.name.clone(), q.file_path.clone())).collect();
    assert_eq!(
        order,
        vec![
            ("Alpha".to_string(), PathBuf::from("2.yaml")),
            ("Alpha".to_string(), PathBuf::from("4.yaml")),
            ("Mu".to_string(), PathBuf::from("3.yaml")),
            ("Zeta".to_string(), PathBuf::from("1.yaml")),
            ("alpha".to_string(), PathBuf::from("5.yaml")),
        ]
    );
}

#[test]
fn sort_matches_std_sort_by() {
    let names = ["é", "e", "ab", "a", "", "b", "ab", "Ω", "z"];
    let quizzes: Vec<Quiz> = names.iter().enumerate().map(|(i, n)| quiz(n, &format!("{}", i))).collect();
    let mut expected: Vec<(String, PathBuf)> =
        quizzes.iter().map(|q| (q.metadata.name.clone(), q.file_path.clone())).collect();
    expected.sort_by(|a, b| a.0.cmp(&b.0));
    let sorted = sort_by_name(quizzes);
    let got: Vec<(String, PathBuf)> =
        sorted.iter().map(|q| (q.metadata.name.clone(), q.file_path.clone())).collect();
    assert_eq!(got, expected);
}

#[test]
fn text_order_matches_string_order() {
    let words = ["", "a", "ab", "b", "é", "e\u{301}", "Z", "zz"];
    for a in words {
        for b in words {
            assert_eq!(text_le_exec(a, b), a <= b, "{:?} {:?}", a, b);
        }
    }
}
