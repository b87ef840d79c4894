//! A training session: the questions drawn from a quiz, the answer being
//! built for the current one, and the running error count.
use rand::rngs::ThreadRng;
use rand::seq::SliceRandom;
use vstd::prelude::*;

use crate::input::Action;
use crate::perm::{
    index_range, is_index_permutation, is_rearrangement, lemma_rearranged_indices,
    lemma_rearrangement_map,
};
use crate::quiz::models::{
    questions_view, OptionView, Question, QuestionView, Quiz, QuizOption, QuizView,
};

verus! {

/// `rand::rngs::ThreadRng`, the thread-local random generator, used unopened.
#[verifier::external_type_specification]
#[verifier::external_body]
pub struct ExThreadRng(ThreadRng);

/// Calls `rand::thread_rng`. Nothing is stated of the generator it hands back.
#[verifier::external_body]
fn new_rng() -> ThreadRng {
    rand::thread_rng()
}

/// Calls `SliceRandom::shuffle` on the vector's items. Claimed: the items
/// afterwards are those before, each once, in some order (the source only
/// swaps items). Which order comes out rests on the generator and is not
/// stated.
#[verifier::external_body]
fn shuffle<T>(items: &mut Vec<T>, rng: &mut ThreadRng)
    ensures
        is_rearrangement(final(items)@, old(items)@),
{
    items.shuffle(rng);
}

/// Training mode selection.
#[derive(Debug, Clone, Copy, PartialEq, Eq, Structural)]
pub enum TrainingMode {
    AllQuestions,
    LimitedQuestions,
}

/// Feedback after an answer is submitted.
#[derive(Debug, Clone, Copy, PartialEq, Eq, Structural)]
pub enum AnswerFeedback {
    Correct,
    Incorrect { is_multiple_answer: bool },
}

/// An active training session.
#[derive(Debug, Clone)]
pub struct TrainingSession {
    pub quiz_name: String,
    pub questions: Vec<Question>,
    pub current_question_index: usize,
    /// Whether each option, by display position, is checked.
    pub selected_options: Vec<bool>,
    /// The highlighted item: an option by display position, or the confirm
    /// button just after the last option.
    pub selected_ui_index: usize,
    pub error_count: usize,
    pub total_questions: usize,
    /// Maps each display position to the index of the option in the question.
    pub option_shuffle_map: Vec<usize>,
}

/// The mathematical content of a `TrainingSession`.
pub struct SessionView {
    pub quiz_name: Seq<char>,
    pub questions: Seq<QuestionView>,
    pub current_question_index: usize,
    pub selected_options: Seq<bool>,
    pub selected_ui_index: usize,
    pub error_count: usize,
    pub total_questions: usize,
    pub option_shuffle_map: Seq<usize>,
}

impl View for TrainingSession {
    type V = SessionView;

    open spec fn view(&self) -> SessionView {
        SessionView {
            quiz_name: self.quiz_name@,
            questions: questions_view(self.questions@),
            current_question_index: self.current_question_index,
            selected_options: self.selected_options@,
            selected_ui_index: self.selected_ui_index,
            error_count: self.error_count,
            total_questions: self.total_questions,
            option_shuffle_map: self.option_shuffle_map@,
        }
    }
}

/// How many questions a session holds: the count asked for, at most all of them.
pub open spec fn session_length(count: Option<usize>, available: nat) -> nat {
    match count {
        Some(c) => if (c as nat) < available {
            c as nat
        } else {
            available
        },
        None => available,
    }
}

/// Number of options of the first question, or 0 when there is none.
pub open spec fn first_option_count(questions: Seq<QuestionView>) -> nat {
    if questions.len() > 0 {
        questions[0].options.len()
    } else {
        0
    }
}

/// `n` unchecked options.
pub open spec fn no_selection(n: nat) -> Seq<bool> {
    Seq::new(n, |i: int| false)
}

/// The session drawn from a quiz named `quiz_name`, once its questions are
/// in the order `shuffled` and the options of the first question in the
/// display order `order`.
pub open spec fn session_from(
    quiz_name: Seq<char>,
    count: Option<usize>,
    shuffled: Seq<QuestionView>,
    order: Seq<usize>,
) -> SessionView {
    let total = session_length(count, shuffled.len());
    let questions = shuffled.take(total as int);
    SessionView {
        quiz_name,
        questions,
        current_question_index: 0,
        selected_options: no_selection(first_option_count(questions)),
        selected_ui_index: 0,
        error_count: 0,
        total_questions: total as usize,
        option_shuffle_map: order,
    }
}

/// `s` is a session freshly drawn from `quiz`: its questions are the first
/// ones of some rearrangement of the quiz's questions, and the options of the
/// first question are shown in some order.
pub open spec fn is_fresh_session(quiz: QuizView, count: Option<usize>, s: SessionView) -> bool {
    exists|shuffled: Seq<QuestionView>, order: Seq<usize>|
        #![trigger session_from(quiz.name, count, shuffled, order)]
        {
            &&& is_rearrangement(shuffled, quiz.questions)
            &&& is_index_permutation(
                order,
                first_option_count(shuffled.take(session_length(count, shuffled.len()) as int)),
            )
            &&& s == session_from(quiz.name, count, shuffled, order)
        }
}

/// Whether option `j` (in the question's own order) of `q` is a correct answer.
pub open spec fn option_is_correct(q: QuestionView, j: int) -> bool {
    0 <= j < q.options.len() && q.options[j].is_correct
}

/// The options of `options` in the display order `order`; positions that
/// name no option are skipped.
pub open spec fn pick_options(options: Seq<OptionView>, order: Seq<usize>) -> Seq<OptionView>
    decreases order.len(),
{
    if order.len() == 0 {
        seq![]
    } else {
        let rest = pick_options(options, order.drop_last());
        if (order.last() as int) < options.len() {
            rest.push(options[order.last() as int])
        } else {
            rest
        }
    }
}

impl SessionView {
    /// The question being asked, if any.
    pub open spec fn current_question(self) -> Option<QuestionView> {
        if self.current_question_index < self.questions.len() {
            Some(self.questions[self.current_question_index as int])
        } else {
            None
        }
    }

    /// Number of options of the current question (0 when there is none).
    pub open spec fn option_count(self) -> nat {
        match self.current_question() {
            Some(q) => q.options.len(),
            None => 0,
        }
    }

    /// Whether the option shown at display position `i` is checked.
    pub open spec fn is_selected(self, i: int) -> bool {
        0 <= i < self.selected_options.len() && self.selected_options[i]
    }

    /// The answer is right when, at every display position, the option is
    /// checked exactly when the option it shows is correct.
    pub open spec fn answer_is_correct(self) -> bool {
        match self.current_question() {
            Some(q) => forall|i: int|
                0 <= i < self.option_shuffle_map.len() ==> #[trigger] self.is_selected(i)
                    == option_is_correct(q, self.option_shuffle_map[i] as int),
            None => true,
        }
    }

    /// The feedback that validating the current answer gives.
    pub open spec fn feedback(self) -> AnswerFeedback {
        if self.answer_is_correct() {
            AnswerFeedback::Correct
        } else {
            AnswerFeedback::Incorrect {
                is_multiple_answer: match self.current_question() {
                    Some(q) => q.is_multiple_answer(),
                    None => false,
                },
            }
        }
    }

    /// All questions have been answered.
    pub open spec fn is_complete(self) -> bool {
        self.current_question_index >= self.total_questions
    }

    /// The options of the current question, in display order.
    pub open spec fn shuffled_options(self) -> Seq<OptionView> {
        match self.current_question() {
            Some(q) => pick_options(q.options, self.option_shuffle_map),
            None => seq![],
        }
    }

    /// The session after moving on to the next question, whose options are
    /// shown in the order `order`.
    pub open spec fn next_question(self, order: Seq<usize>) -> SessionView {
        let next = (self.current_question_index + 1) as usize;
        if (next as int) < self.questions.len() {
            SessionView {
                current_question_index: next,
                selected_options: no_selection(self.questions[next as int].options.len()),
                selected_ui_index: 0,
                option_shuffle_map: order,
                ..self
            }
        } else {
            SessionView { current_question_index: next, ..self }
        }
    }

    /// `post` is this session moved on to the next question, with that
    /// question's options shown in some order.
    pub open spec fn advanced_to(self, post: SessionView) -> bool {
        &&& post == self.next_question(post.option_shuffle_map)
        &&& match post.current_question() {
            Some(q) => is_index_permutation(post.option_shuffle_map, q.options.len()),
            None => true,
        }
    }

    /// Well-formed: the question count matches the questions, option
    /// counts fit the machine, and while a
    /// question is asked there is one check box per option, the display order
    /// is a permutation of its options, and the highlight is on an option or
    /// on the confirm button.
    pub open spec fn wf(self) -> bool {
        &&& self.total_questions == self.questions.len()
        &&& forall|k: int|
            0 <= k < self.questions.len() ==> (#[trigger] self.questions[k]).options.len() <= usize::MAX
        &&& match self.current_question() {
            Some(q) => {
                &&& self.selected_options.len() == q.options.len()
                &&& is_index_permutation(self.option_shuffle_map, q.options.len())
                &&& self.selected_ui_index <= q.options.len()
            },
            None => true,
        }
    }

    /// Confirming the answer stays within the machine's integers: a right
    /// answer moves the question index on, a wrong one the error count.
    pub open spec fn can_confirm(self) -> bool {
        if self.answer_is_correct() {
            self.current_question_index < usize::MAX
        } else {
            self.error_count < usize::MAX
        }
    }

    /// `action` on the question screen stays within the machine's integers
    /// and the check boxes: the option count leaves room for the confirm
    /// button, a toggled option has its check box, and a confirmation can
    /// count on.
    pub open spec fn can_take(self, action: Action) -> bool {
        let option_count = self.option_count();
        let ui = self.selected_ui_index;
        &&& option_count < usize::MAX
        &&& match action {
            Action::Select => if (ui as int) < option_count {
                (ui as int) < self.selected_options.len()
            } else {
                self.can_confirm()
            },
            Action::ToggleOption(n) => (0 < n && n <= option_count) ==> n
                <= self.selected_options.len(),
            _ => true,
        }
    }
}

impl TrainingSession {
    /// Creates a new training session with shuffled questions and shuffled options.
    pub fn new(quiz: &Quiz, question_count: Option<usize>) -> (session: Self)
        ensures
            is_fresh_session(quiz@, question_count, session@),
    {
        let mut rng = new_rng();
        let mut questions = quiz.questions.clone();
        proof {
            assert(questions_view(questions@) =~= questions_view(quiz.questions@)) by {
                assert forall|i: int| 0 <= i < questions@.len() implies questions@[i]@
                    == quiz.questions@[i]@ by {
                    assert(cloned::<Question>(quiz.questions[i], questions[i]));
                }
            }
        }
        let ghost unshuffled = questions@;
        shuffle(&mut questions, &mut rng);
        proof {
            lemma_rearrangement_map(questions@, unshuffled, |q: Question| q@);
        }
        let ghost shuffled = questions_view(questions@);
        let total = match question_count {
            Some(c) => if c < questions.len() {
                c
            } else {
                questions.len()
            },
            None => questions.len(),
        };
        let first_count = if total > 0 {
            questions[0].options.len()
        } else {
            0
        };
        let mut order = index_range(first_count);
        let ghost ordered = order@;
        shuffle(&mut order, &mut rng);
        proof {
            lemma_rearranged_indices(order@, first_count as nat);
            assert(shuffled.take(total as int).len() > 0 ==> shuffled.take(total as int)[0]
                == shuffled[0]);
        }
        let session = Self::from_shuffled(quiz, question_count, questions, order);
        assert(session@ == session_from(quiz@.name, question_count, shuffled, order@));
        session
    }

    /// The session drawn from `quiz` once its questions are in the order
    /// `shuffled_questions` and the first question's options in the display
    /// order `option_order`: the first questions, as many as asked for, with
    /// nothing checked.
    pub fn from_shuffled(
        quiz: &Quiz,
        question_count: Option<usize>,
        shuffled_questions: Vec<Question>,
        option_order: Vec<usize>,
    ) -> (session: Self)
        ensures
            session@ == session_from(
                quiz@.name,
                question_count,
                questions_view(shuffled_questions@),
                option_order@,
            ),
    {
        let mut questions = shuffled_questions;
        let ghost all = questions_view(questions@);
        let total = match question_count {
            Some(c) => if c < questions.len() {
                c
            } else {
                questions.len()
            },
            None => questions.len(),
        };
        questions.truncate(total);
        assert(questions_view(questions@) =~= all.take(total as int));
        let first_count = if questions.len() > 0 {
            questions[0].options.len()
        } else {
            0
        };
        let selected_options = vec![false; first_count];
        assert(selected_options@ =~= no_selection(first_count as nat));
        TrainingSession {
            quiz_name: quiz.metadata.name.clone(),
            questions,
            current_question_index: 0,
            selected_options,
            selected_ui_index: 0,
            error_count: 0,
            total_questions: total,
            option_shuffle_map: option_order,
        }
    }

    /// Returns the current question.
    pub fn current_question(&self) -> (question: Option<&Question>)
        ensures
            match question {
                Some(q) => self@.current_question() == Some(q@),
                None => self@.current_question() is None,
            },
    {
        if self.current_question_index < self.questions.len() {
            Some(&self.questions[self.current_question_index])
        } else {
            None
        }
    }

    /// Resets selections for the next question and shuffles its options.
    pub fn prepare_next_question(&mut self)
        requires
            old(self).current_question_index < usize::MAX,
        ensures
            old(self)@.advanced_to(final(self)@),
    {
        self.current_question_index = self.current_question_index + 1;
        if self.current_question_index < self.questions.len() {
            let option_count = self.questions[self.current_question_index].options.len();
            self.selected_options = vec![false; option_count];
            assert(self.selected_options@ =~= no_selection(option_count as nat));
            self.selected_ui_index = 0;
            let mut rng = new_rng();
            let mut order = index_range(option_count);
            shuffle(&mut order, &mut rng);
            proof {
                lemma_rearranged_indices(order@, option_count as nat);
            }
            self.option_shuffle_map = order;
        }
    }

    /// Validates the current answer against the shuffled option mapping.
    pub fn validate_answer(&self) -> (feedback: AnswerFeedback)
        ensures
            feedback == self@.feedback(),
    {
        match self.current_question() {
            Some(question) => {
                let ghost s = self@;
                let ghost q = question@;
                let mut i: usize = 0;
                while i < self.option_shuffle_map.len()
                    invariant
                        s == self@,
                        s.current_question() == Some(q),
                        q == question@,
                        i <= self.option_shuffle_map.len(),
                        forall|j: int|
                            0 <= j < i ==> #[trigger] s.is_selected(j) == option_is_correct(
                                q,
                                s.option_shuffle_map[j] as int,
                            ),
                    decreases self.option_shuffle_map.len() - i,
                {
                    let option_idx = self.option_shuffle_map[i];
                    let is_selected = if i < self.selected_options.len() {
                        self.selected_options[i]
                    } else {
                        false
                    };
                    let is_correct = if option_idx < question.options.len() {
                        question.options[option_idx].is_correct
                    } else {
                        false
                    };
                    assert(is_selected == s.is_selected(i as int));
                    assert(is_correct == option_is_correct(q, option_idx as int));
                    if is_correct != is_selected {
                        return AnswerFeedback::Incorrect {
                            is_multiple_answer: question.is_multiple_answer(),
                        };
                    }
                    i = i + 1;
                }
                AnswerFeedback::Correct
            },
            None => AnswerFeedback::Correct,
        }
    }

    /// Returns true if all questions have been answered.
    pub fn is_complete(&self) -> (complete: bool)
        ensures
            complete == self@.is_complete(),
    {
        self.current_question_index >= self.total_questions
    }

    /// Returns the options of the current question in display order.
    pub fn shuffled_options(&self) -> (options: Vec<&QuizOption>)
        ensures
            options@.map_values(|o: &QuizOption| o@) == self@.shuffled_options(),
    {
        let mut result: Vec<&QuizOption> = Vec::new();
        match self.current_question() {
            Some(question) => {
                let ghost opts = question@.options;
                let mut i: usize = 0;
                while i < self.option_shuffle_map.len()
                    invariant
                        opts == question@.options,
                        self@.current_question() == Some(question@),
                        i <= self.option_shuffle_map.len(),
                        result@.map_values(|o: &QuizOption| o@) == pick_options(
                            opts,
                            self.option_shuffle_map@.take(i as int),
                        ),
                    decreases self.option_shuffle_map.len() - i,
                {
                    let option_idx = self.option_shuffle_map[i];
                    assert(self.option_shuffle_map@.take(i + 1).drop_last()
                        =~= self.option_shuffle_map@.take(i as int));
                    if option_idx < question.options.len() {
                        result.push(&question.options[option_idx]);
                    }
                    assert(result@.map_values(|o: &QuizOption| o@) =~= pick_options(
                        opts,
                        self.option_shuffle_map@.take(i + 1),
                    ));
                    i = i + 1;
                }
                assert(self.option_shuffle_map@.take(i as int) =~= self.option_shuffle_map@);
            },
            None => {
                assert(result@.map_values(|o: &QuizOption| o@) =~= seq![]);
            },
        }
        result
    }
}

} // verus!
