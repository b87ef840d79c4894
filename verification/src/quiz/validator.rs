//! Validation of a raw YAML quiz into a `Quiz`.
use std::path::PathBuf;
use vstd::prelude::*;

use crate::error::QuizError;
use crate::quiz::models::{
    OptionView, Question, QuestionView, QuestionYamlView, Quiz, QuizMetadata, QuizOption, QuizView,
    QuizYaml, QuizYamlView,
};
use crate::text::{
    ends_with_star, ends_with_star_str, trim, trim_chars, trim_end_stars, trim_end_stars_str,
};

verus! {

/// A text is blank when nothing but whitespace is in it.
pub open spec fn is_blank(s: Seq<char>) -> bool {
    trim_chars(s).len() == 0
}

/// The option that a raw option line stands for: a trailing `*` marks a
/// correct answer and is dropped, and the text is trimmed.
pub open spec fn parse_option(raw: Seq<char>) -> OptionView {
    if ends_with_star(raw) {
        OptionView { text: trim_chars(trim_end_stars(raw)), is_correct: true }
    } else {
        OptionView { text: trim_chars(raw), is_correct: false }
    }
}

/// Option `i` of `q` has an empty text once parsed.
pub open spec fn empty_option_at(q: QuestionYamlView, i: int) -> bool {
    0 <= i < q.options.len() && parse_option(q.options[i]).text.len() == 0
}

/// Option `i` of `q` is the first option with an empty text.
pub open spec fn first_empty_option(q: QuestionYamlView, i: int) -> bool {
    empty_option_at(q, i) && forall|j: int| 0 <= j < i ==> !empty_option_at(q, j)
}

/// Some option of `q` is marked correct.
pub open spec fn has_correct_option(q: QuestionYamlView) -> bool {
    exists|i: int| 0 <= i < q.options.len() && #[trigger] parse_option(q.options[i]).is_correct
}

/// A raw question is valid: a title, at least one option, no empty option
/// text and at least one correct answer.
pub open spec fn question_valid(q: QuestionYamlView) -> bool {
    &&& !is_blank(q.title)
    &&& q.options.len() > 0
    &&& forall|i: int| !empty_option_at(q, i)
    &&& has_correct_option(q)
}

/// The error reported for the invalid raw question `q`, at 0-based position `k`.
pub open spec fn question_error(q: QuestionYamlView, file: PathBuf, k: int) -> QuizError {
    if is_blank(q.title) {
        QuizError::EmptyQuestionTitle { file, question_index: (k + 1) as usize }
    } else if q.options.len() == 0 {
        QuizError::NoOptions { file, question_index: (k + 1) as usize }
    } else if exists|i: int| empty_option_at(q, i) {
        let i = choose|i: int| first_empty_option(q, i);
        QuizError::EmptyOptionText {
            file,
            question_index: (k + 1) as usize,
            option_index: (i + 1) as usize,
        }
    } else {
        QuizError::NoCorrectAnswer { file, question_index: (k + 1) as usize }
    }
}

/// Question `k` is the first invalid question of `y`.
pub open spec fn first_invalid_question(y: QuizYamlView, k: int) -> bool {
    &&& 0 <= k < y.questions.len()
    &&& !question_valid(y.questions[k])
    &&& forall|j: int| 0 <= j < k ==> question_valid(#[trigger] y.questions[j])
}

/// The question that a valid raw question becomes.
pub open spec fn validated_question(q: QuestionYamlView) -> QuestionView {
    QuestionView { title: q.title, options: q.options.map_values(|o: Seq<char>| parse_option(o)) }
}

/// The quiz that a valid raw quiz becomes.
pub open spec fn validated_quiz(y: QuizYamlView, file: PathBuf) -> QuizView {
    QuizView {
        name: y.name,
        questions: y.questions.map_values(|q: QuestionYamlView| validated_question(q)),
        file_path: file,
    }
}

/// What validating the raw quiz `y` read from `file` gives: the first rule
/// broken, in the order name, questions, then each question in turn.
pub open spec fn validation_outcome(y: QuizYamlView, file: PathBuf) -> Result<QuizView, QuizError> {
    if is_blank(y.name) {
        Err(QuizError::EmptyQuizName { file })
    } else if y.questions.len() == 0 {
        Err(QuizError::NoQuestions { file })
    } else if exists|k: int| 0 <= k < y.questions.len() && !question_valid(y.questions[k]) {
        let k = choose|k: int| first_invalid_question(y, k);
        Err(question_error(y.questions[k], file, k))
    } else {
        Ok(validated_quiz(y, file))
    }
}

/// The outcome of validation matches `outcome`.
pub open spec fn outcome_matches(r: Result<Quiz, QuizError>, outcome: Result<QuizView, QuizError>) -> bool {
    match (r, outcome) {
        (Ok(q), Ok(v)) => q@ == v,
        (Err(e), Err(f)) => e == f,
        _ => false,
    }
}

/// Parses one raw option line.
fn parse_option_line(raw: &String) -> (option: QuizOption)
    ensures
        option@ == parse_option(raw@),
{
    let s = raw.as_str();
    if ends_with_star_str(s) {
        let t = trim(trim_end_stars_str(s));
        QuizOption { text: t.to_owned(), is_correct: true }
    } else {
        let t = trim(s);
        QuizOption { text: t.to_owned(), is_correct: false }
    }
}

/// Result of checking one raw question.
fn validate_question(q: &crate::quiz::models::QuestionYaml, file: PathBuf, k: usize) -> (r: Result<
    (Question, PathBuf),
    QuizError,
>)
    requires
        k < usize::MAX,
    ensures
        match r {
            Ok((question, f)) => question_valid(q@) && question@ == validated_question(q@) && f
                == file,
            Err(e) => !question_valid(q@) && e == question_error(q@, file, k as int),
        },
{
    let ghost qv = q@;
    if trim(q.title.as_str()).is_empty() {
        return Err(QuizError::EmptyQuestionTitle { file, question_index: k + 1 });
    }
    if q.options.len() == 0 {
        return Err(QuizError::NoOptions { file, question_index: k + 1 });
    }
    let mut options: Vec<QuizOption> = Vec::new();
    let mut has_correct = false;
    let mut i: usize = 0;
    while i < q.options.len()
        invariant
            qv == q@,
            !is_blank(qv.title),
            qv.options.len() == q.options.len() > 0,
            i <= q.options.len(),
            options@.len() == i,
            forall|j: int| 0 <= j < i ==> (#[trigger] options@[j])@ == parse_option(qv.options[j]),
            forall|j: int| 0 <= j < i ==> !empty_option_at(qv, j),
            has_correct <==> exists|j: int| 0 <= j < i && #[trigger] parse_option(qv.options[j]).is_correct,
            k < usize::MAX,
        decreases q.options.len() - i,
    {
        let option = parse_option_line(&q.options[i]);
        assert(q.options[i as int]@ == qv.options[i as int]);
        if option.text.as_str().is_empty() {
            proof {
                assert(empty_option_at(qv, i as int));
                assert(first_empty_option(qv, i as int));
                let c = choose|c: int| first_empty_option(qv, c);
                assert(c == i) by {
                    if c < i {
                        assert(!empty_option_at(qv, c));
                    }
                    if c > i {
                        assert(!empty_option_at(qv, i as int));
                    }
                }
            }
            return Err(QuizError::EmptyOptionText { file, question_index: k + 1, option_index: i + 1 });
        }
        assert(option@ == parse_option(qv.options[i as int]));
        if option.is_correct {
            has_correct = true;
        }
        proof {
            if has_correct {
                if option.is_correct {
                    assert(parse_option(qv.options[i as int]).is_correct);
                } else {
                    let j0 = choose|j2: int| 0 <= j2 < i && #[trigger] parse_option(qv.options[j2]).is_correct;
                    assert(parse_option(qv.options[j0]).is_correct);
                }
                assert(exists|j2: int| 0 <= j2 < i + 1 && #[trigger] parse_option(qv.options[j2]).is_correct);
            }
            if !has_correct {
                assert forall|j: int| 0 <= j < i + 1 implies !#[trigger] parse_option(qv.options[j]).is_correct by {
                    if j == i {
                    } else {
                        if parse_option(qv.options[j]).is_correct {
                            assert(exists|j2: int| 0 <= j2 < i && #[trigger] parse_option(qv.options[j2]).is_correct);
                        }
                    }
                }
            }
        }
        options.push(option);
        i = i + 1;
    }
    if !has_correct {
        proof {
            assert(!has_correct_option(qv)) by {
                if has_correct_option(qv) {
                    let j = choose|j: int| 0 <= j < qv.options.len() && #[trigger] parse_option(qv.options[j]).is_correct;
                    assert(parse_option(qv.options[j]).is_correct);
                }
            }
            assert(!(exists|c: int| empty_option_at(qv, c)));
        }
        return Err(QuizError::NoCorrectAnswer { file, question_index: k + 1 });
    }
    let question = Question { title: q.title.clone(), options };
    proof {
        assert(question@.options =~= validated_question(qv).options);
    }
    Ok((question, file))
}

/// Validates a raw YAML quiz structure and converts it to a validated `Quiz`.
pub fn validate_quiz(quiz_yaml: QuizYaml, file_path: PathBuf) -> (r: Result<Quiz, QuizError>)
    ensures
        outcome_matches(r, validation_outcome(quiz_yaml@, file_path)),
{
    let ghost y = quiz_yaml@;
    let ghost file = file_path;
    if trim(quiz_yaml.metadata.name.as_str()).is_empty() {
        return Err(QuizError::EmptyQuizName { file: file_path });
    }
    if quiz_yaml.questions.len() == 0 {
        return Err(QuizError::NoQuestions { file: file_path });
    }
    let mut questions: Vec<Question> = Vec::new();
    let mut path = file_path;
    let mut k: usize = 0;
    while k < quiz_yaml.questions.len()
        invariant
            y == quiz_yaml@,
            path == file,
            file == file_path,
            !is_blank(y.name),
            y.questions.len() == quiz_yaml.questions.len() > 0,
            k <= quiz_yaml.questions.len(),
            questions@.len() == k,
            forall|j: int| 0 <= j < k ==> (#[trigger] questions@[j])@ == validated_question(y.questions[j]),
            forall|j: int| 0 <= j < k ==> question_valid(#[trigger] y.questions[j]),
        decreases quiz_yaml.questions.len() - k,
    {
        assert(quiz_yaml.questions[k as int]@ == y.questions[k as int]);
        match validate_question(&quiz_yaml.questions[k], path, k) {
            Ok((question, f)) => {
                questions.push(question);
                path = f;
            },
            Err(e) => {
                proof {
                    assert(first_invalid_question(y, k as int));
                    let c = choose|c: int| first_invalid_question(y, c);
                    assert(c == k) by {
                        if c < k {
                            assert(question_valid(y.questions[c]));
                        }
                        if c > k {
                            assert(question_valid(y.questions[k as int]));
                        }
                    }
                }
                return Err(e);
            },
        }
        k = k + 1;
    }
    let quiz = Quiz {
        metadata: QuizMetadata { name: quiz_yaml.metadata.name.clone() },
        questions,
        file_path: path,
    };
    proof {
        assert(quiz@.questions =~= validated_quiz(y, file).questions);
        assert(!(exists|c: int| 0 <= c < y.questions.len() && !question_valid(y.questions[c])));
    }
    Ok(quiz)
}

} // verus!
