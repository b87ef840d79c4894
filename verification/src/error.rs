//! The errors met while loading and validating quizzes.
use std::path::PathBuf;
use vstd::prelude::*;

verus! {

/// `std::io::Error`, carried through unopened when reading a quiz fails.
#[verifier::external_type_specification]
#[verifier::external_body]
pub struct ExIoError(std::io::Error);

/// The errors of the quiz application.
///
/// Indices of questions and options are counted from 1, as they are shown to
/// the user.
#[derive(Debug)]
pub enum QuizError {
    IoError(std::io::Error),
    DirectoryNotFound(PathBuf),
    NoQuizzesFound,
    YamlParseError { file: PathBuf, error: String },
    EmptyQuizName { file: PathBuf },
    NoQuestions { file: PathBuf },
    EmptyQuestionTitle { file: PathBuf, question_index: usize },
    NoOptions { file: PathBuf, question_index: usize },
    NoCorrectAnswer { file: PathBuf, question_index: usize },
    EmptyOptionText { file: PathBuf, question_index: usize, option_index: usize },
}

/// Result type of quiz operations.
pub type QuizResult<T> = Result<T, QuizError>;

} // verus!
