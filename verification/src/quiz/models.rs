use std::path::PathBuf;
use vstd::prelude::*;

verus! {

/// `std::path::PathBuf`, carried through unopened as the file a quiz came from.
#[verifier::external_type_specification]
#[verifier::external_body]
pub struct ExPathBuf(PathBuf);

/// `Clone::clone` on a `PathBuf`, which copies the path. Nothing is stated
/// of the copy: the path is carried through unopened.
pub assume_specification[ <PathBuf as Clone>::clone ](path: &PathBuf) -> (copy: PathBuf);

/// A loaded and validated quiz.
#[derive(Debug, Clone)]
pub struct Quiz {
    pub metadata: QuizMetadata,
    pub questions: Vec<Question>,
    pub file_path: PathBuf,
}

/// Quiz metadata.
#[derive(Debug)]
pub struct QuizMetadata {
    pub name: String,
}

/// A single question with its options.
#[derive(Debug)]
pub struct Question {
    pub title: String,
    pub options: Vec<QuizOption>,
}

/// A selectable option for a question.
#[derive(Debug)]
pub struct QuizOption {
    pub text: String,
    pub is_correct: bool,
}

/// The mathematical content of a `QuizOption`.
pub struct OptionView {
    pub text: Seq<char>,
    pub is_correct: bool,
}

/// The mathematical content of a `Question`.
pub struct QuestionView {
    pub title: Seq<char>,
    pub options: Seq<OptionView>,
}

/// The mathematical content of a `Quiz`.
pub struct QuizView {
    pub name: Seq<char>,
    pub questions: Seq<QuestionView>,
    pub file_path: PathBuf,
}

impl View for QuizOption {
    type V = OptionView;

    open spec fn view(&self) -> OptionView {
        OptionView { text: self.text@, is_correct: self.is_correct }
    }
}

/// The views of a sequence of options.
pub open spec fn options_view(options: Seq<QuizOption>) -> Seq<OptionView> {
    options.map_values(|o: QuizOption| o@)
}

impl View for Question {
    type V = QuestionView;

    open spec fn view(&self) -> QuestionView {
        QuestionView { title: self.title@, options: options_view(self.options@) }
    }
}

/// The views of a sequence of questions.
pub open spec fn questions_view(questions: Seq<Question>) -> Seq<QuestionView> {
    questions.map_values(|q: Question| q@)
}

impl View for Quiz {
    type V = QuizView;

    open spec fn view(&self) -> QuizView {
        QuizView {
            name: self.metadata.name@,
            questions: questions_view(self.questions@),
            file_path: self.file_path,
        }
    }
}

impl QuizView {
    /// The quiz's counts fit the machine: its questions, and each
    /// question's options, number at most `usize::MAX`.
    pub open spec fn fits_machine(self) -> bool {
        &&& self.questions.len() <= usize::MAX
        &&& forall|k: int|
            0 <= k < self.questions.len() ==> (#[trigger] self.questions[k]).options.len() <= usize::MAX
    }
}

/// The views of a sequence of quizzes.
pub open spec fn quizzes_view(quizzes: Seq<Quiz>) -> Seq<QuizView> {
    quizzes.map_values(|q: Quiz| q@)
}

/// Number of options marked correct.
pub open spec fn count_correct(options: Seq<OptionView>) -> nat
    decreases options.len(),
{
    if options.len() == 0 {
        0
    } else {
        count_correct(options.drop_last()) + if options.last().is_correct {
            1nat
        } else {
            0nat
        }
    }
}

impl QuestionView {
    /// A question has multiple answers when more than one option is correct.
    pub open spec fn is_multiple_answer(self) -> bool {
        count_correct(self.options) > 1
    }
}

impl Question {
    /// Returns the number of correct answers for this question.
    pub fn correct_answer_count(&self) -> (count: usize)
        ensures
            count == count_correct(self@.options),
    {
        let ghost opts = self@.options;
        let mut count: usize = 0;
        let mut i: usize = 0;
        while i < self.options.len()
            invariant
                opts == options_view(self.options@),
                i <= self.options.len(),
                count == count_correct(opts.take(i as int)),
                count <= i,
            decreases self.options.len() - i,
        {
            assert(opts.take(i + 1).drop_last() =~= opts.take(i as int));
            if self.options[i].is_correct {
                count = count + 1;
            }
            i = i + 1;
        }
        assert(opts.take(i as int) =~= opts);
        count
    }

    /// Returns true if this question has multiple correct answers.
    pub fn is_multiple_answer(&self) -> (multiple: bool)
        ensures
            multiple == self@.is_multiple_answer(),
    {
        self.correct_answer_count() > 1
    }
}

impl Clone for QuizOption {
    fn clone(&self) -> (copy: Self)
        ensures
            copy@ == self@,
    {
        QuizOption { text: self.text.clone(), is_correct: self.is_correct }
    }
}

impl Clone for Question {
    fn clone(&self) -> (copy: Self)
        ensures
            copy@ == self@,
    {
        let options = self.options.clone();
        assert(options_view(options@) =~= options_view(self.options@)) by {
            assert forall|i: int| 0 <= i < options@.len() implies options@[i]@
                == self.options@[i]@ by {
                assert(cloned::<QuizOption>(self.options[i], options[i]));
            }
        }
        Question { title: self.title.clone(), options }
    }
}

impl Clone for QuizMetadata {
    fn clone(&self) -> (copy: Self)
        ensures
            copy.name@ == self.name@,
    {
        QuizMetadata { name: self.name.clone() }
    }
}

/// Raw YAML quiz structure, as read from a file.
#[derive(Debug)]
pub struct QuizYaml {
    pub metadata: QuizMetadataYaml,
    pub questions: Vec<QuestionYaml>,
}

/// Raw YAML metadata structure.
#[derive(Debug)]
pub struct QuizMetadataYaml {
    pub name: String,
}

/// Raw YAML question structure.
#[derive(Debug)]
pub struct QuestionYaml {
    pub title: String,
    pub options: Vec<String>,
}

/// The mathematical content of a `QuestionYaml`.
pub struct QuestionYamlView {
    pub title: Seq<char>,
    pub options: Seq<Seq<char>>,
}

/// The mathematical content of a `QuizYaml`.
pub struct QuizYamlView {
    pub name: Seq<char>,
    pub questions: Seq<QuestionYamlView>,
}

impl View for QuestionYaml {
    type V = QuestionYamlView;

    open spec fn view(&self) -> QuestionYamlView {
        QuestionYamlView { title: self.title@, options: self.options@.map_values(|o: String| o@) }
    }
}

impl View for QuizYaml {
    type V = QuizYamlView;

    open spec fn view(&self) -> QuizYamlView {
        QuizYamlView {
            name: self.metadata.name@,
            questions: self.questions@.map_values(|q: QuestionYaml| q@),
        }
    }
}

} // verus!
