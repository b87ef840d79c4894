//! Properties of the library as a whole, proved over the contracts of its
//! functions.
use std::path::PathBuf;
use vstd::prelude::*;

use crate::app::session::{
    first_option_count, pick_options, is_fresh_session, no_selection, option_is_correct, session_from,
    session_length, SessionView,
};
use crate::app::{toggle_at, AppView, ScreenView, TrainingMode};
use crate::app::AnswerFeedback;
use crate::input::{key_action, Action, Key, KeyPress};
use crate::number::parse_usize_spec;
use crate::error::QuizError;
use crate::number::{all_digits, decimal_text, decimal_value, digit_char, digit_value, is_digit_char};
use crate::perm::{in_image, is_index_permutation, is_permutation, is_rearrangement};
use crate::quiz::loader::text_le;
use crate::quiz::models::{count_correct, OptionView, QuestionView, QuestionYamlView, QuizView, QuizYamlView};
use crate::text::{
    ends_with_star, is_whitespace_char, trim_chars, trim_end_chars, trim_end_stars, trim_start_chars,
};
use crate::quiz::validator::{
    has_correct_option, is_blank, parse_option, question_valid, validation_outcome, validated_question,
};

verus! {

/// A question that can be trained on: a title, at least one option, no
/// empty option text, and at least one correct answer.
pub open spec fn question_well_formed(q: QuestionView) -> bool {
    &&& !is_blank(q.title)
    &&& q.options.len() > 0
    &&& forall|i: int| 0 <= i < q.options.len() ==> (#[trigger] q.options[i]).text.len() > 0
    &&& exists|i: int| 0 <= i < q.options.len() && (#[trigger] q.options[i]).is_correct
}

/// A quiz that can be trained on: at least one question, each well formed.
pub open spec fn quiz_well_formed(q: QuizView) -> bool {
    &&& q.questions.len() > 0
    &&& forall|k: int| 0 <= k < q.questions.len() ==> question_well_formed(#[trigger] q.questions[k])
}

/// Every quiz that validation accepts has at least one question, and every
/// question has a title, options with text, and at least one correct answer.
pub proof fn law_validated_quiz_is_well_formed(y: QuizYamlView, file: PathBuf)
    ensures
        validation_outcome(y, file) matches Ok(q) ==> quiz_well_formed(q),
{
    if validation_outcome(y, file) is Ok {
        let q = validation_outcome(y, file)->Ok_0;
        assert forall|k: int| 0 <= k < q.questions.len() implies question_well_formed(
            #[trigger] q.questions[k],
        ) by {
            assert(question_valid(y.questions[k]));
            let raw = y.questions[k];
            let v = validated_question(raw);
            assert(q.questions[k] == v);
            assert forall|i: int| 0 <= i < v.options.len() implies (#[trigger] v.options[i]).text.len()
                > 0 by {
                assert(!crate::quiz::validator::empty_option_at(raw, i));
            }
            let c = choose|c: int|
                0 <= c < raw.options.len() && #[trigger] crate::quiz::validator::parse_option(
                    raw.options[c],
                ).is_correct;
            assert(v.options[c].is_correct);
        }
    }
}

/// Option `j` (in the question's own order) is checked at the display position that shows it.
pub open spec fn checked_option(s: SessionView, j: int) -> bool {
    exists|i: int|
        0 <= i < s.option_shuffle_map.len() && s.option_shuffle_map[i] == j && #[trigger] s.is_selected(
            i,
        )
}

/// However the options are shown, an answer is right exactly when the
/// checked options are the correct ones: every correct option checked and
/// no other.
pub proof fn law_answer_right_iff_checked_are_correct(s: SessionView)
    requires
        s.wf(),
        s.current_question() is Some,
    ensures
        s.answer_is_correct() <==> forall|j: int|
            0 <= j < s.current_question().unwrap().options.len() ==> checked_option(s, j)
                == #[trigger] option_is_correct(s.current_question().unwrap(), j),
{
    let q = s.current_question().unwrap();
    let n = q.options.len();
    let m = s.option_shuffle_map;
    let mi = m.map_values(|x: usize| x as int);
    assert(is_index_permutation(m, n));
    assert forall|i: int| 0 <= i < n implies #[trigger] mi[i] == m[i] as int && m[i] < n by {}
    if s.answer_is_correct() {
        assert forall|j: int| 0 <= j < n implies checked_option(s, j) == #[trigger] option_is_correct(
            q,
            j,
        ) by {
            assert(in_image(mi, j));
            let i = choose|i: int| 0 <= i < mi.len() && mi[i] == j;
            assert(s.is_selected(i) == option_is_correct(q, m[i] as int));
            if checked_option(s, j) {
                let i2 = choose|i2: int|
                    0 <= i2 < m.len() && m[i2] == j && #[trigger] s.is_selected(i2);
                assert(s.is_selected(i2) == option_is_correct(q, m[i2] as int));
            }
        }
    }
    if forall|j: int| 0 <= j < n ==> checked_option(s, j) == #[trigger] option_is_correct(q, j) {
        assert forall|i: int| 0 <= i < m.len() implies #[trigger] s.is_selected(i)
            == option_is_correct(q, m[i] as int) by {
            let j = m[i] as int;
            assert(mi[i] == j);
            assert(checked_option(s, j) == option_is_correct(q, j));
            if checked_option(s, j) {
                let i2 = choose|i2: int|
                    0 <= i2 < m.len() && m[i2] == j && #[trigger] s.is_selected(i2);
                assert(mi[i2] == j);
                assert(i2 == i);
            }
        }
    }
}

/// A freshly drawn session is well formed.
pub proof fn lemma_fresh_session_wf(quiz: QuizView, count: Option<usize>, s: SessionView)
    requires
        is_fresh_session(quiz, count, s),
        quiz.fits_machine(),
    ensures
        s.wf(),
        s.current_question_index == 0,
        s.error_count == 0,
{
    let (shuffled, order) = choose|shuffled: Seq<QuestionView>, order: Seq<usize>|
        {
            &&& crate::perm::is_rearrangement(shuffled, quiz.questions)
            &&& is_index_permutation(
                order,
                first_option_count(shuffled.take(session_length(count, shuffled.len()) as int)),
            )
            &&& s == session_from(quiz.name, count, shuffled, order)
        };
    let total = session_length(count, shuffled.len());
    assert(s.questions == shuffled.take(total as int));
    assert(s.questions.len() == total);
    assert(shuffled.len() == quiz.questions.len());
    if total > 0 {
        assert(s.questions[0] == shuffled[0]);
    }
    let p = choose|p: Seq<int>|
        crate::perm::is_permutation(p, quiz.questions.len()) && forall|i: int|
            0 <= i < shuffled.len() ==> #[trigger] shuffled[i] == quiz.questions[p[i]];
    assert forall|k: int| 0 <= k < s.questions.len() implies (#[trigger] s.questions[k]).options.len()
        <= usize::MAX by {
        assert(s.questions[k] == shuffled[k]);
        assert(shuffled[k] == quiz.questions[p[k]]);
    }
}

/// Digits are single bytes in UTF-8.
proof fn lemma_digits_byte_length(input: Seq<char>)
    requires
        all_digits(input),
    ensures
        vstd::utf8::encode_utf8(input).len() == input.len(),
{
    assert(vstd::utf8::is_ascii_chars(input)) by {
        assert forall|i: int| 0 <= i < input.len() implies '\0' <= #[trigger] input[i] <= '\u{7f}' by {
            assert(is_digit_char(input[i]));
        }
    }
    vstd::utf8::is_ascii_chars_encode_utf8(input);
}

/// Starting a session keeps the state well formed.
proof fn lemma_started_training_wf(pre: AppView, count: Option<usize>, post: AppView)
    requires
        pre.wf(),
        (pre.selected_quiz_index as int) < pre.quizzes.len(),
        pre.started_training(count, post),
    ensures
        post.wf(),
{
    let s = post.session.unwrap();
    lemma_fresh_session_wf(pre.quizzes[pre.selected_quiz_index as int], count, s);
}

/// An action on the question screen keeps the state well formed.
proof fn lemma_question_step_wf(
    pre: AppView,
    action: Action,
    feedback: Option<AnswerFeedback>,
    s: SessionView,
    post: AppView,
)
    requires
        pre.wf(),
        pre.screen == (ScreenView::Question { feedback }),
        pre.session == Some(s),
        pre.question_step(action, feedback, s, post),
    ensures
        post.wf(),
{
    let ui = s.selected_ui_index;
    if action == Action::Select && (ui as int) >= s.option_count() {
        if s.answer_is_correct() {
            let next = post.session.unwrap();
            assert(next == s.next_question(next.option_shuffle_map));
        } else {
            let next = post.session.unwrap();
            assert(next.current_question() == s.current_question());
        }
    }
}

/// Every action keeps the application state well formed.
pub proof fn law_step_preserves_wf(pre: AppView, action: Action, post: AppView)
    requires
        pre.wf(),
        pre.step(action, post),
    ensures
        post.wf(),
{
    if action != Action::Quit {
        match pre.screen {
            ScreenView::ModeSelection { selected_mode } => {
                if action == Action::Select {
                    if selected_mode == crate::app::TrainingMode::AllQuestions {
                        lemma_started_training_wf(pre, None, post);
                    }
                }
            },
            ScreenView::QuestionCountInput { input, error_message } => {
                lemma_digits_byte_length(input);
                match action {
                    Action::InputChar(c) => {
                        if is_digit_char(c) && crate::app::input_has_room(input) {
                            assert(all_digits(input.push(c))) by {
                                assert forall|i: int| 0 <= i < input.len() + 1 implies is_digit_char(
                                    #[trigger] input.push(c)[i],
                                ) by {
                                    if i < input.len() {
                                        assert(input.push(c)[i] == input[i]);
                                    }
                                }
                            }
                        }
                    },
                    Action::ToggleOption(n) => {
                        let c = digit_char((n as u32) as nat);
                        if (n as u32) < 10 && crate::app::input_has_room(input) {
                            assert(all_digits(input.push(c))) by {
                                assert forall|i: int| 0 <= i < input.len() + 1 implies is_digit_char(
                                    #[trigger] input.push(c)[i],
                                ) by {
                                    if i < input.len() {
                                        assert(input.push(c)[i] == input[i]);
                                    }
                                }
                            }
                        }
                    },
                    Action::Backspace => {
                        if input.len() > 0 {
                            assert(all_digits(input.drop_last())) by {
                                assert forall|i: int| 0 <= i < input.len() - 1 implies is_digit_char(
                                    #[trigger] input.drop_last()[i],
                                ) by {
                                    assert(input.drop_last()[i] == input[i]);
                                }
                            }
                        }
                    },
                    Action::Select => {
                        match crate::number::parse_usize_spec(input) {
                            Some(count) => {
                                if 0 < count && count <= pre.selected_question_total() {
                                    lemma_started_training_wf(pre, Some(count), post);
                                }
                            },
                            None => {},
                        }
                    },
                    _ => {},
                }
            },
            ScreenView::Question { feedback } => {
                lemma_question_step_wf(pre, action, feedback, pre.session.unwrap(), post);
            },
            _ => {},
        }
    }
}

/// The quizzes loaded at startup never change, and the chosen quiz changes
/// only when a quiz is picked from the list.
pub proof fn law_quizzes_unchanged(pre: AppView, action: Action, post: AppView)
    requires
        pre.step(action, post),
    ensures
        post.quizzes == pre.quizzes,
        post.selected_quiz_index != pre.selected_quiz_index ==> pre.screen is QuizSelection
            && action == Action::Select,
{
}

/// The application starts on the quiz list, well formed.
pub proof fn law_initial_state_wf(quizzes: Seq<QuizView>)
    requires
        quizzes.len() <= usize::MAX,
        forall|k: int| 0 <= k < quizzes.len() ==> (#[trigger] quizzes[k]).fits_machine(),
    ensures
        (AppView {
            screen: ScreenView::QuizSelection { selected_index: 0 },
            quizzes,
            selected_quiz_index: 0,
            session: None,
            should_quit: false,
        }).wf(),
{
}

/// Ctrl+X quits from any screen, and changes nothing else.
pub proof fn law_ctrl_x_quits(pre: AppView, c: char, post: AppView)
    requires
        c == 'x' || c == 'X',
        pre.step(key_action(KeyPress { key: Key::Char(c), ctrl: true }), post),
    ensures
        post == (AppView { should_quit: true, ..pre }),
{
}

/// On the quiz list, moving up then down comes back to the same quiz, and so
/// does moving down then up.
pub proof fn law_quiz_list_up_down_round_trip(
    pre: AppView,
    first: Action,
    second: Action,
    mid: AppView,
    post: AppView,
)
    requires
        pre.screen matches ScreenView::QuizSelection { selected_index } && (selected_index as int)
            < pre.quizzes.len(),
        pre.quizzes.len() <= usize::MAX,
        (first == Action::NavigateUp && second == Action::NavigateDown) || (first
            == Action::NavigateDown && second == Action::NavigateUp),
        pre.step(first, mid),
        mid.step(second, post),
    ensures
        post == pre,
{
}

/// On the mode screen, moving twice comes back to the same mode.
pub proof fn law_mode_toggle_twice(pre: AppView, first: Action, second: Action, mid: AppView, post: AppView)
    requires
        pre.screen is ModeSelection,
        first == Action::NavigateUp || first == Action::NavigateDown,
        second == Action::NavigateUp || second == Action::NavigateDown,
        pre.step(first, mid),
        mid.step(second, post),
    ensures
        post == pre,
{
}

/// On the question screen, moving up then down (or down then up) comes back
/// to the same highlighted option or confirm button.
pub proof fn law_question_up_down_round_trip(
    pre: AppView,
    first: Action,
    second: Action,
    mid: AppView,
    post: AppView,
)
    requires
        pre.screen is Question,
        pre.session matches Some(s) && (s.selected_ui_index as int) <= s.option_count()
            <= usize::MAX,
        (first == Action::NavigateUp && second == Action::NavigateDown) || (first
            == Action::NavigateDown && second == Action::NavigateUp),
        pre.step(first, mid),
        mid.step(second, post),
    ensures
        post == pre,
{
    let s = pre.session.unwrap();
    assert(mid.session.unwrap().option_count() == s.option_count());
    assert(mid.session.unwrap() == SessionView { selected_ui_index: mid.session.unwrap().selected_ui_index, ..s });
}

/// On the question screen, with `n` options and the highlight at `u` (the
/// confirm button being `n`), Down moves the highlight to `(u + 1) % (n + 1)`
/// and Up to `(u + n) % (n + 1)`; nothing else changes.
pub proof fn law_question_navigation_wraps(pre: AppView, action: Action, post: AppView)
    requires
        pre.screen is Question,
        pre.session matches Some(s) && (s.selected_ui_index as int) <= s.option_count()
            < usize::MAX,
        action == Action::NavigateUp || action == Action::NavigateDown,
        pre.step(action, post),
    ensures
        ({
            let s = pre.session.unwrap();
            let u = s.selected_ui_index as int;
            let n = s.option_count() as int;
            let target = if action == Action::NavigateDown {
                (u + 1) % (n + 1)
            } else {
                (u + n) % (n + 1)
            };
            post == AppView {
                session: Some(SessionView { selected_ui_index: target as usize, ..s }),
                ..pre
            }
        }),
{
    let s = pre.session.unwrap();
    let u = s.selected_ui_index as int;
    let n = s.option_count() as int;
    if u < n {
        assert((u + 1) % (n + 1) == u + 1) by (nonlinear_arith)
            requires
                0 <= u < n,
        ;
    } else {
        assert((u + 1) % (n + 1) == 0) by (nonlinear_arith)
            requires
                u == n,
                0 <= n,
        ;
    }
    if u > 0 {
        assert((u + n) % (n + 1) == u - 1) by (nonlinear_arith)
            requires
                0 < u <= n,
        ;
    } else {
        assert((u + n) % (n + 1) == n) by (nonlinear_arith)
            requires
                u == 0,
                0 <= n,
        ;
    }
}

/// On the question screen, a number key twice gives back the state it
/// started from (the check box is flipped back).
pub proof fn law_toggle_twice(pre: AppView, n: usize, mid: AppView, post: AppView)
    requires
        pre.screen is Question,
        pre.session matches Some(s) && n <= s.selected_options.len(),
        pre.step(Action::ToggleOption(n), mid),
        mid.step(Action::ToggleOption(n), post),
    ensures
        post == pre,
{
    let s = pre.session.unwrap();
    if 0 < n && n <= s.option_count() {
        let t = mid.session.unwrap();
        assert(t.option_count() == s.option_count());
        assert(toggle_at(toggle_at(s.selected_options, n - 1), n - 1) =~= s.selected_options);
        assert(post.session.unwrap() == s);
    }
}

/// On the question screen, Enter on a highlighted option does what the
/// option's number key does.
pub proof fn law_select_is_number_key(pre: AppView, by_enter: AppView, by_key: AppView)
    requires
        pre.screen is Question,
        pre.session matches Some(s) && (s.selected_ui_index as int) < s.option_count()
            <= usize::MAX,
        pre.step(Action::Select, by_enter),
        pre.step(Action::ToggleOption((pre.session.unwrap().selected_ui_index + 1) as usize), by_key),
    ensures
        by_enter == by_key,
{
}

/// After moving on from the first question `k` times, the session is
/// complete exactly when `k` reaches the number of questions.
pub proof fn law_complete_after_all_questions(sessions: Seq<SessionView>)
    requires
        0 < sessions.len() <= usize::MAX,
        sessions[0].current_question_index == 0,
        forall|k: int| 0 <= k < sessions.len() - 1 ==> #[trigger] sessions[k].advanced_to(sessions[k + 1]),
    ensures
        forall|k: int|
            0 <= k < sessions.len() ==> ((#[trigger] sessions[k]).is_complete() <==> k
                >= sessions[0].total_questions),
{
    assert forall|k: int| 0 <= k < sessions.len() implies (#[trigger] sessions[k]).is_complete() <==> k
        >= sessions[0].total_questions by {
        lemma_advanced_index(sessions, k);
    }
}

proof fn lemma_advanced_index(sessions: Seq<SessionView>, k: int)
    requires
        0 <= k < sessions.len() <= usize::MAX,
        sessions[0].current_question_index == 0,
        forall|j: int| 0 <= j < sessions.len() - 1 ==> #[trigger] sessions[j].advanced_to(sessions[j + 1]),
    ensures
        sessions[k].current_question_index == k,
        sessions[k].total_questions == sessions[0].total_questions,
    decreases k,
{
    if k > 0 {
        lemma_advanced_index(sessions, k - 1);
        assert(sessions[k - 1].advanced_to(sessions[k]));
    }
}

/// In the count field, every action keeps the text to at most 4 ASCII
/// digits.
pub proof fn law_count_field_stays_digits(pre: AppView, action: Action, post: AppView)
    requires
        pre.screen matches ScreenView::QuestionCountInput { input, .. } && all_digits(input)
            && input.len() <= 4,
        pre.step(action, post),
    ensures
        post.screen matches ScreenView::QuestionCountInput { input, .. } ==> all_digits(input)
            && input.len() <= 4,
{
    let input = pre.screen->QuestionCountInput_input;
    lemma_digits_byte_length(input);
    lemma_count_step_digits(pre, action, input, post);
}

proof fn lemma_count_step_digits(pre: AppView, action: Action, input: Seq<char>, post: AppView)
    requires
        pre.screen matches ScreenView::QuestionCountInput { input: i, .. } && i == input,
        all_digits(input),
        input.len() <= 4,
        vstd::utf8::encode_utf8(input).len() == input.len(),
        action != Action::Quit ==> pre.count_input_step(action, input, post),
        action == Action::Quit ==> post == (AppView { should_quit: true, ..pre }),
    ensures
        post.screen matches ScreenView::QuestionCountInput { input, .. } ==> all_digits(input)
            && input.len() <= 4,
{
    match action {
        Action::InputChar(c) => {
            if is_digit_char(c) && crate::app::input_has_room(input) {
                assert forall|i: int| 0 <= i < input.len() + 1 implies is_digit_char(
                    #[trigger] input.push(c)[i],
                ) by {
                    if i < input.len() {
                        assert(input.push(c)[i] == input[i]);
                    }
                }
            }
        },
        Action::ToggleOption(n) => {
            let c = digit_char((n as u32) as nat);
            if (n as u32) < 10 && crate::app::input_has_room(input) {
                assert forall|i: int| 0 <= i < input.len() + 1 implies is_digit_char(
                    #[trigger] input.push(c)[i],
                ) by {
                    if i < input.len() {
                        assert(input.push(c)[i] == input[i]);
                    }
                }
            }
        },
        Action::Backspace => {
            if input.len() > 0 {
                assert forall|i: int| 0 <= i < input.len() - 1 implies is_digit_char(
                    #[trigger] input.drop_last()[i],
                ) by {
                    assert(input.drop_last()[i] == input[i]);
                }
            }
        },
        _ => {},
    }
}

/// Nothing happens on no action; the quit flag is set by Quit alone and
/// never cleared.
pub proof fn law_quit_flag(pre: AppView, action: Action, post: AppView)
    requires
        pre.step(action, post),
    ensures
        action == Action::NoAction ==> post == pre,
        pre.should_quit ==> post.should_quit,
        (!pre.should_quit && post.should_quit) ==> action == Action::Quit,
{
}

/// Deleting a digit just typed gives back the field as it was, with no error shown.
pub proof fn law_backspace_undoes_digit(pre: AppView, c: char, mid: AppView, post: AppView)
    requires
        pre.screen matches ScreenView::QuestionCountInput { input, .. },
        pre.step(Action::InputChar(c), mid),
        mid != pre,
        mid.step(Action::Backspace, post),
    ensures
        post == pre.with_screen(
            ScreenView::QuestionCountInput {
                input: pre.screen->QuestionCountInput_input,
                error_message: None,
            },
        ),
{
    let input = pre.screen->QuestionCountInput_input;
    assert(input.push(c).drop_last() =~= input);
}

/// Training starts from the count field only on a number from 1 to the
/// number of questions of the quiz, and then holds exactly that many
/// questions.
pub proof fn law_count_must_be_in_range(pre: AppView, post: AppView)
    requires
        pre.screen matches ScreenView::QuestionCountInput { input, .. },
        pre.step(Action::Select, post),
        post.screen is Question,
    ensures
        parse_usize_spec(pre.screen->QuestionCountInput_input) matches Some(count) && (0 < count
            && count <= pre.selected_question_total() && (post.session matches Some(s)
            && s.total_questions == count)),
{
    let input = pre.screen->QuestionCountInput_input;
    let count = parse_usize_spec(input).unwrap();
    let quiz = pre.quizzes[pre.selected_quiz_index as int];
    let s = post.session.unwrap();
    let (shuffled, order) = choose|shuffled: Seq<QuestionView>, order: Seq<usize>|
        {
            &&& crate::perm::is_rearrangement(shuffled, quiz.questions)
            &&& is_index_permutation(
                order,
                first_option_count(shuffled.take(session_length(Some(count), shuffled.len()) as int)),
            )
            &&& s == session_from(quiz.name, Some(count), shuffled, order)
        };
    assert(shuffled.len() == quiz.questions.len());
}

/// A session on all questions asks each question of the quiz exactly once.
pub proof fn law_all_questions_session(quiz: QuizView, s: SessionView)
    requires
        is_fresh_session(quiz, None, s),
    ensures
        crate::perm::is_rearrangement(s.questions, quiz.questions),
{
    let (shuffled, order) = choose|shuffled: Seq<QuestionView>, order: Seq<usize>|
        {
            &&& crate::perm::is_rearrangement(shuffled, quiz.questions)
            &&& is_index_permutation(
                order,
                first_option_count(shuffled.take(session_length(None, shuffled.len()) as int)),
            )
            &&& s == session_from(quiz.name, None, shuffled, order)
        };
    assert(shuffled.take(shuffled.len() as int) =~= shuffled);
}

/// Confirming an answer either moves on to the next question with the error
/// count unchanged, or, when the answer is wrong, stays on the question,
/// counts one error, clears the check boxes and says whether the question
/// has several correct answers.
pub proof fn law_confirm_answer(pre: AppView, post: AppView)
    requires
        pre.screen is Question,
        pre.can_act(Action::Select),
        pre.session matches Some(s) && (s.selected_ui_index as int) >= s.option_count(),
        pre.step(Action::Select, post),
    ensures
        ({
            let s = pre.session.unwrap();
            let t = post.session.unwrap();
            &&& post.session is Some
            &&& s.answer_is_correct() ==> {
                &&& t.current_question_index == s.current_question_index + 1
                &&& t.error_count == s.error_count
                &&& post.screen == if t.is_complete() {
                    ScreenView::Result
                } else {
                    ScreenView::Question { feedback: None }
                }
            }
            &&& !s.answer_is_correct() ==> {
                &&& t.current_question_index == s.current_question_index
                &&& t.error_count == s.error_count + 1
                &&& t.selected_options == no_selection(s.selected_options.len())
                &&& post.screen == ScreenView::Question {
                    feedback: Some(
                        AnswerFeedback::Incorrect {
                            is_multiple_answer: s.current_question() matches Some(q)
                                && q.is_multiple_answer(),
                        },
                    ),
                }
            }
        }),
{
}

proof fn lemma_pick_options_in_range(options: Seq<OptionView>, order: Seq<usize>)
    requires
        forall|i: int| 0 <= i < order.len() ==> (#[trigger] order[i] as int) < options.len(),
    ensures
        pick_options(options, order) == order.map_values(|j: usize| options[j as int]),
    decreases order.len(),
{
    if order.len() > 0 {
        lemma_pick_options_in_range(options, order.drop_last());
        assert(order.map_values(|j: usize| options[j as int]) =~= order.drop_last().map_values(
            |j: usize| options[j as int],
        ).push(options[order.last() as int]));
    } else {
        assert(order.map_values(|j: usize| options[j as int]) =~= seq![]);
    }
}

/// The question screen shows each option of the current question exactly
/// once.
pub proof fn law_each_option_shown_once(s: SessionView)
    requires
        s.wf(),
        s.current_question() is Some,
    ensures
        is_rearrangement(s.shuffled_options(), s.current_question().unwrap().options),
{
    let q = s.current_question().unwrap();
    let m = s.option_shuffle_map;
    let mi = m.map_values(|x: usize| x as int);
    assert(is_index_permutation(m, q.options.len()));
    assert forall|i: int| 0 <= i < m.len() implies (#[trigger] m[i] as int) < q.options.len() by {
        assert(mi[i] == m[i] as int);
    }
    lemma_pick_options_in_range(q.options, m);
    let shown = s.shuffled_options();
    assert forall|i: int| 0 <= i < shown.len() implies #[trigger] shown[i] == q.options[mi[i]] by {}
    assert(is_permutation(mi, q.options.len()));
}

/// Every raw quiz that breaks no rule is accepted as it is: a name that is
/// not blank, at least one question, and for each question a title that is
/// not blank, at least one option (of any number), no option empty once
/// parsed and at least one option marked correct. The quiz keeps the name,
/// the file, every question's title and every option, parsed.
pub proof fn law_valid_quiz_is_accepted(y: QuizYamlView, file: PathBuf)
    requires
        !is_blank(y.name),
        y.questions.len() > 0,
        forall|k: int| 0 <= k < y.questions.len() ==> !is_blank((#[trigger] y.questions[k]).title),
        forall|k: int| 0 <= k < y.questions.len() ==> (#[trigger] y.questions[k]).options.len() > 0,
        forall|k: int, i: int|
            0 <= k < y.questions.len() && 0 <= i < y.questions[k].options.len() ==> parse_option(
                #[trigger] y.questions[k].options[i],
            ).text.len() > 0,
        forall|k: int|
            0 <= k < y.questions.len() ==> exists|i: int|
                0 <= i < (#[trigger] y.questions[k]).options.len() && parse_option(
                    y.questions[k].options[i],
                ).is_correct,
    ensures
        validation_outcome(y, file) matches Ok(q) && {
            &&& q.name == y.name
            &&& q.file_path == file
            &&& q.questions.len() == y.questions.len()
            &&& forall|k: int|
                0 <= k < y.questions.len() ==> {
                    &&& (#[trigger] q.questions[k]).title == y.questions[k].title
                    &&& q.questions[k].options.len() == y.questions[k].options.len()
                    &&& forall|i: int|
                        0 <= i < y.questions[k].options.len() ==> #[trigger] q.questions[k].options[i]
                            == parse_option(y.questions[k].options[i])
                }
        },
{
    assert forall|k: int| 0 <= k < y.questions.len() implies question_valid(
        #[trigger] y.questions[k],
    ) by {
        let q = y.questions[k];
        assert forall|i: int| !crate::quiz::validator::empty_option_at(q, i) by {
            if 0 <= i < q.options.len() {
                assert(parse_option(y.questions[k].options[i]).text.len() > 0);
            }
        }
        let i = choose|i: int|
            0 <= i < q.options.len() && parse_option(y.questions[k].options[i]).is_correct;
        assert(parse_option(q.options[i]).is_correct);
        assert(has_correct_option(q));
    }
    assert(!exists|k: int| 0 <= k < y.questions.len() && !question_valid(y.questions[k]));
}

/// Moving on to the next question keeps the drawn questions, their number,
/// the quiz name and the error count: the session asks each drawn question
/// once, in order, and the index grows by one.
pub proof fn law_advancing_keeps_questions(pre: SessionView, post: SessionView)
    requires
        pre.advanced_to(post),
        pre.current_question_index < usize::MAX,
    ensures
        post.questions == pre.questions,
        post.total_questions == pre.total_questions,
        post.quiz_name == pre.quiz_name,
        post.error_count == pre.error_count,
        post.current_question_index == pre.current_question_index + 1,
        (post.current_question_index as int) < pre.questions.len() ==> post.current_question()
            == Some(pre.questions[pre.current_question_index + 1]),
{
}

/// On the quiz list with the highlight at `i` among `n` quizzes, Down moves
/// it to `(i + 1) % n` and Up to `(i + n - 1) % n`; nothing else changes.
pub proof fn law_quiz_list_navigation_wraps(pre: AppView, action: Action, post: AppView)
    requires
        pre.screen matches ScreenView::QuizSelection { selected_index } && (selected_index as int)
            < pre.quizzes.len(),
        pre.quizzes.len() <= usize::MAX,
        action == Action::NavigateUp || action == Action::NavigateDown,
        pre.step(action, post),
    ensures
        ({
            let i = pre.screen->QuizSelection_selected_index as int;
            let n = pre.quizzes.len() as int;
            let target = if action == Action::NavigateDown {
                (i + 1) % n
            } else {
                (i + n - 1) % n
            };
            post == AppView {
                screen: ScreenView::QuizSelection { selected_index: target as usize },
                ..pre
            }
        }),
{
    let i = pre.screen->QuizSelection_selected_index as int;
    let n = pre.quizzes.len() as int;
    if i + 1 < n {
        assert((i + 1) % n == i + 1) by (nonlinear_arith)
            requires
                0 <= i,
                i + 1 < n,
        ;
    } else {
        assert((i + 1) % n == 0) by (nonlinear_arith)
            requires
                i + 1 == n,
                0 < n,
        ;
    }
    if i > 0 {
        assert((i + n - 1) % n == i - 1) by (nonlinear_arith)
            requires
                0 < i < n,
        ;
    } else {
        assert((i + n - 1) % n == n - 1) by (nonlinear_arith)
            requires
                i == 0,
                0 < n,
        ;
    }
}

/// The digit characters have the code points `'0' + d`.
proof fn lemma_digit_char_code(d: nat)
    requires
        d < 10,
    ensures
        digit_char(d) as u32 == d + '0' as u32,
        is_digit_char(digit_char(d)),
{
}

/// On the count screen, the number key `n` (1 to 9) appends the digit `n`
/// whenever the field holds fewer than 4 digits, clearing the error shown,
/// exactly as typing that digit does.
pub proof fn law_number_key_types_digit(
    pre: AppView,
    n: usize,
    c: char,
    by_key: AppView,
    by_char: AppView,
)
    requires
        pre.screen matches ScreenView::QuestionCountInput { input, .. } && all_digits(input)
            && input.len() < 4,
        1 <= n <= 9,
        c as u32 == n + '0' as u32,
        pre.step(Action::ToggleOption(n), by_key),
        pre.step(Action::InputChar(c), by_char),
    ensures
        by_key == by_char,
        by_key.screen matches ScreenView::QuestionCountInput { input, error_message } && {
            &&& input.len() == pre.screen->QuestionCountInput_input.len() + 1
            &&& input.drop_last() == pre.screen->QuestionCountInput_input
            &&& input.last() as u32 == n + '0' as u32
            &&& error_message is None
        },
{
    let input = pre.screen->QuestionCountInput_input;
    lemma_digits_byte_length(input);
    lemma_digit_char_code(n as nat);
    assert((n as u32) as nat == n as nat);
    assert(digit_char(n as nat) == c);
    assert(input.push(c).drop_last() =~= input);
}

/// The number keys 1 to 9, without Control, toggle the option of that
/// number.
pub proof fn law_number_keys_toggle_their_option(d: nat)
    requires
        1 <= d <= 9,
    ensures
        key_action(KeyPress { key: Key::Char(digit_char(d)), ctrl: false }) == Action::ToggleOption(
            d as usize,
        ),
{
    lemma_digit_char_code(d);
}

/// The first question of a raw quiz that breaks no rule.
pub open spec fn raw_question_ok(q: QuestionYamlView) -> bool {
    &&& !is_blank(q.title)
    &&& q.options.len() > 0
    &&& forall|i: int| 0 <= i < q.options.len() ==> parse_option(#[trigger] q.options[i]).text.len() > 0
    &&& exists|i: int| 0 <= i < q.options.len() && parse_option(#[trigger] q.options[i]).is_correct
}

/// A raw quiz is refused for the first rule it breaks, the error naming the
/// file and, counted from 1, the question and the option at fault: a blank
/// name, no question, then, at the first question `j` that breaks a rule, a
/// blank title, no option, the first option `i` empty once parsed, or no
/// option marked correct.
pub proof fn law_first_broken_rule_is_reported(y: QuizYamlView, file: PathBuf, j: int, i: int)
    requires
        y.questions.len() <= usize::MAX,
        0 <= j < y.questions.len(),
        forall|k: int| 0 <= k < j ==> raw_question_ok(#[trigger] y.questions[k]),
        !raw_question_ok(y.questions[j]),
        !is_blank(y.questions[j].title) && y.questions[j].options.len() > 0 ==> {
            &&& 0 <= i < y.questions[j].options.len()
            &&& (parse_option(y.questions[j].options[i]).text.len() == 0 || forall|o: int|
                0 <= o < y.questions[j].options.len() ==> parse_option(
                    #[trigger] y.questions[j].options[o],
                ).text.len() > 0)
            &&& forall|o: int|
                0 <= o < i ==> parse_option(#[trigger] y.questions[j].options[o]).text.len() > 0
        },
    ensures
        is_blank(y.name) ==> validation_outcome(y, file) == Err::<QuizView, QuizError>(
            QuizError::EmptyQuizName { file },
        ),
        !is_blank(y.name) ==> validation_outcome(y, file) == Err::<QuizView, QuizError>(
            if is_blank(y.questions[j].title) {
                QuizError::EmptyQuestionTitle { file, question_index: (j + 1) as usize }
            } else if y.questions[j].options.len() == 0 {
                QuizError::NoOptions { file, question_index: (j + 1) as usize }
            } else if parse_option(y.questions[j].options[i]).text.len() == 0 {
                QuizError::EmptyOptionText {
                    file,
                    question_index: (j + 1) as usize,
                    option_index: (i + 1) as usize,
                }
            } else {
                QuizError::NoCorrectAnswer { file, question_index: (j + 1) as usize }
            },
        ),
{
    let q = y.questions[j];
    assert forall|k: int| 0 <= k < j implies question_valid(#[trigger] y.questions[k]) by {
        let r = y.questions[k];
        assert(raw_question_ok(r));
        assert forall|o: int| !crate::quiz::validator::empty_option_at(r, o) by {
            if 0 <= o < r.options.len() {
                assert(parse_option(r.options[o]).text.len() > 0);
            }
        }
        let c = choose|c: int| 0 <= c < r.options.len() && parse_option(#[trigger] r.options[c]).is_correct;
        assert(parse_option(r.options[c]).is_correct);
    }
    assert(!question_valid(q)) by {
        if question_valid(q) {
            assert forall|o: int| 0 <= o < q.options.len() implies parse_option(#[trigger] q.options[o]).text.len()
                > 0 by {
                assert(!crate::quiz::validator::empty_option_at(q, o));
            }
            let c = choose|c: int| 0 <= c < q.options.len() && #[trigger] parse_option(q.options[c]).is_correct;
            assert(parse_option(q.options[c]).is_correct);
        }
    }
    assert(crate::quiz::validator::first_invalid_question(y, j));
    let c = choose|c: int| crate::quiz::validator::first_invalid_question(y, c);
    assert(c == j) by {
        if c < j {
            assert(question_valid(y.questions[c]));
        }
        if c > j {
            assert(question_valid(y.questions[j]));
        }
    }
    if !is_blank(q.title) && q.options.len() > 0 {
        if parse_option(q.options[i]).text.len() == 0 {
            assert(crate::quiz::validator::first_empty_option(q, i)) by {
                assert forall|o: int| 0 <= o < i implies !crate::quiz::validator::empty_option_at(q, o) by {
                    assert(parse_option(q.options[o]).text.len() > 0);
                }
            }
            let e = choose|e: int| crate::quiz::validator::first_empty_option(q, e);
            assert(e == i) by {
                if e < i {
                    assert(parse_option(q.options[e]).text.len() > 0);
                }
                if e > i {
                    assert(!crate::quiz::validator::empty_option_at(q, i));
                }
            }
        } else {
            assert(!exists|e: int| crate::quiz::validator::empty_option_at(q, e)) by {
                if exists|e: int| crate::quiz::validator::empty_option_at(q, e) {
                    let e = choose|e: int| crate::quiz::validator::empty_option_at(q, e);
                    assert(parse_option(q.options[e]).text.len() > 0);
                }
            }
        }
    }
}

/// A quiz with no question, or with a blank name, is refused for that.
pub proof fn law_empty_quiz_is_refused(y: QuizYamlView, file: PathBuf)
    requires
        y.questions.len() == 0 || is_blank(y.name),
    ensures
        validation_outcome(y, file) == Err::<QuizView, QuizError>(
            if is_blank(y.name) {
                QuizError::EmptyQuizName { file }
            } else {
                QuizError::NoQuestions { file }
            },
        ),
{
}

/// Digits read back as the number they spell: the text of any `n` parses to `n`.
pub proof fn law_decimal_text_parses_back(n: nat)
    requires
        n <= usize::MAX,
    ensures
        parse_usize_spec(decimal_text(n)) == Some(n as usize),
{
    lemma_decimal_text_value(n);
}

proof fn lemma_decimal_text_value(n: nat)
    ensures
        all_digits(decimal_text(n)),
        decimal_text(n).len() > 0,
        decimal_value(decimal_text(n)) == n,
        decimal_text(n)[0] != '+',
    decreases n,
{
    lemma_digit_char_code(n % 10);
    if n >= 10 {
        lemma_decimal_text_value(n / 10);
        let t = decimal_text(n / 10);
        let u = t.push(digit_char(n % 10));
        assert(decimal_text(n) == u);
        assert(u.drop_last() =~= t);
        assert(u.last() == digit_char(n % 10));
        assert(decimal_value(u) == decimal_value(t) * 10 + digit_value(u.last()));
        assert forall|k: int| 0 <= k < u.len() implies is_digit_char(#[trigger] u[k]) by {
            if k < t.len() {
                assert(u[k] == t[k]);
            }
        }
        assert(digit_value(digit_char(n % 10)) == n % 10);
        assert(n == (n / 10) * 10 + n % 10);
    } else {
        assert(decimal_text(n) == seq![digit_char(n)]);
        assert(decimal_text(n).drop_last() =~= Seq::<char>::empty());
        assert(digit_value(digit_char(n)) == n);
        assert(decimal_value(decimal_text(n)) == decimal_value(Seq::<char>::empty()) * 10 + digit_value(
            digit_char(n),
        ));
    }
}

/// On the count screen, Enter on a count from 1 to the chosen quiz's number
/// of questions starts a session of exactly that many questions, on its
/// first question with no error; any other text shows an error and starts
/// nothing.
pub proof fn law_count_in_range_starts(pre: AppView, post: AppView)
    requires
        pre.screen matches ScreenView::QuestionCountInput { input, .. },
        (pre.selected_quiz_index as int) < pre.quizzes.len(),
        pre.quizzes[pre.selected_quiz_index as int].questions.len() <= usize::MAX,
        pre.step(Action::Select, post),
    ensures
        ({
            let input = pre.screen->QuestionCountInput_input;
            let max = pre.quizzes[pre.selected_quiz_index as int].questions.len();
            let parsed = parse_usize_spec(input);
            if parsed is Some && 0 < parsed.unwrap() <= max {
                &&& post.screen == (ScreenView::Question { feedback: None })
                &&& post.session matches Some(s) && s.total_questions == parsed.unwrap()
                    && s.questions.len() == parsed.unwrap() && s.current_question_index == 0
                    && s.error_count == 0
            } else {
                &&& post.session == pre.session
                &&& post.screen matches ScreenView::QuestionCountInput { input: i2, error_message }
                    && i2 == input && error_message is Some
            }
        }),
{
    let input = pre.screen->QuestionCountInput_input;
    if parse_usize_spec(input) is Some {
        let c = parse_usize_spec(input).unwrap();
        let quiz = pre.quizzes[pre.selected_quiz_index as int];
        if 0 < c <= quiz.questions.len() {
            let s = post.session.unwrap();
            let (shuffled, order) = choose|shuffled: Seq<QuestionView>, order: Seq<usize>|
                {
                    &&& crate::perm::is_rearrangement(shuffled, quiz.questions)
                    &&& is_index_permutation(
                        order,
                        first_option_count(
                            shuffled.take(session_length(Some(c), shuffled.len()) as int),
                        ),
                    )
                    &&& s == session_from(quiz.name, Some(c), shuffled, order)
                };
            assert(shuffled.len() == quiz.questions.len());
        }
    }
}

/// On the mode screen, Up or Down always switches to the other mode.
pub proof fn law_mode_move_switches(pre: AppView, action: Action, post: AppView)
    requires
        pre.screen matches ScreenView::ModeSelection { selected_mode },
        action == Action::NavigateUp || action == Action::NavigateDown,
        pre.step(action, post),
    ensures
        post.screen matches ScreenView::ModeSelection { selected_mode } && selected_mode
            != pre.screen->ModeSelection_selected_mode,
        post == pre.with_screen(post.screen),
{
}

/// Enter on the quiz list chooses the highlighted quiz and asks for the
/// mode, all questions highlighted; on an empty list it does nothing.
pub proof fn law_enter_picks_highlighted_quiz(pre: AppView, post: AppView)
    requires
        pre.screen matches ScreenView::QuizSelection { selected_index },
        pre.step(Action::Select, post),
    ensures
        pre.quizzes.len() > 0 ==> post == (AppView {
            selected_quiz_index: pre.screen->QuizSelection_selected_index,
            screen: ScreenView::ModeSelection { selected_mode: TrainingMode::AllQuestions },
            ..pre
        }),
        pre.quizzes.len() == 0 ==> post == pre,
{
}

/// Esc goes back one screen: from the mode screen to the quiz list at the
/// chosen quiz, from the count screen to the mode screen with limited
/// questions highlighted.
pub proof fn law_back_goes_back(pre: AppView, post: AppView)
    requires
        pre.screen is ModeSelection || pre.screen is QuestionCountInput,
        pre.step(Action::Back, post),
    ensures
        pre.screen is ModeSelection ==> post == pre.with_screen(
            ScreenView::QuizSelection { selected_index: pre.selected_quiz_index },
        ),
        pre.screen is QuestionCountInput ==> post == pre.with_screen(
            ScreenView::ModeSelection { selected_mode: TrainingMode::LimitedQuestions },
        ),
{
}

/// On the results screen, Enter drops the session and returns to the quiz
/// list at the quiz just trained on; other keys do nothing.
pub proof fn law_results_return_to_list(pre: AppView, action: Action, post: AppView)
    requires
        pre.screen is Result,
        action != Action::Quit,
        pre.step(action, post),
    ensures
        action == Action::Select ==> post == (AppView {
            session: None,
            screen: ScreenView::QuizSelection { selected_index: pre.selected_quiz_index },
            ..pre
        }),
        action != Action::Select ==> post == pre,
{
}

/// The arrows, Enter, Esc and Backspace map to their actions whether or not
/// Control is held, `0` types a zero, and other characters without Control
/// do nothing.
pub proof fn law_named_keys(ctrl: bool, c: char)
    ensures
        key_action(KeyPress { key: Key::Up, ctrl }) == Action::NavigateUp,
        key_action(KeyPress { key: Key::Down, ctrl }) == Action::NavigateDown,
        key_action(KeyPress { key: Key::Enter, ctrl }) == Action::Select,
        key_action(KeyPress { key: Key::Esc, ctrl }) == Action::Back,
        key_action(KeyPress { key: Key::Backspace, ctrl }) == Action::Backspace,
        key_action(KeyPress { key: Key::Other, ctrl }) == Action::NoAction,
        key_action(KeyPress { key: Key::Char('0'), ctrl: false }) == Action::InputChar('0'),
        !is_digit_char(c) ==> key_action(KeyPress { key: Key::Char(c), ctrl: false })
            == Action::NoAction,
{
}

proof fn lemma_trim_start_shape(s: Seq<char>) -> (a: int)
    ensures
        0 <= a <= s.len(),
        trim_start_chars(s) == s.subrange(a, s.len() as int),
        forall|i: int| 0 <= i < a ==> is_whitespace_char(#[trigger] s[i]),
        a < s.len() ==> !is_whitespace_char(s[a]),
    decreases s.len(),
{
    if s.len() > 0 && is_whitespace_char(s[0]) {
        let rest = s.drop_first();
        let a1 = lemma_trim_start_shape(rest);
        assert(rest.subrange(a1, rest.len() as int) =~= s.subrange(a1 + 1, s.len() as int));
        assert forall|i: int| 0 <= i < a1 + 1 implies is_whitespace_char(#[trigger] s[i]) by {
            if i > 0 {
                assert(s[i] == rest[i - 1]);
            }
        }
        if a1 + 1 < s.len() {
            assert(s[a1 + 1] == rest[a1]);
        }
        a1 + 1
    } else {
        assert(s.subrange(0, s.len() as int) =~= s);
        0
    }
}

proof fn lemma_trim_end_shape(s: Seq<char>) -> (b: int)
    ensures
        0 <= b <= s.len(),
        trim_end_chars(s) == s.subrange(0, b),
        forall|i: int| b <= i < s.len() ==> is_whitespace_char(#[trigger] s[i]),
        b > 0 ==> !is_whitespace_char(s[b - 1]),
    decreases s.len(),
{
    if s.len() > 0 && is_whitespace_char(s.last()) {
        let rest = s.drop_last();
        let b1 = lemma_trim_end_shape(rest);
        assert(rest.subrange(0, b1) =~= s.subrange(0, b1));
        assert forall|i: int| b1 <= i < s.len() implies is_whitespace_char(#[trigger] s[i]) by {
            if i < s.len() - 1 {
                assert(s[i] == rest[i]);
            }
        }
        if b1 > 0 {
            assert(s[b1 - 1] == rest[b1 - 1]);
        }
        b1
    } else {
        assert(s.subrange(0, s.len() as int) =~= s);
        s.len() as int
    }
}

proof fn lemma_stars_shape(s: Seq<char>) -> (c: int)
    ensures
        0 <= c <= s.len(),
        trim_end_stars(s) == s.subrange(0, c),
        forall|i: int| c <= i < s.len() ==> #[trigger] s[i] == '*',
        ends_with_star(s) ==> c < s.len(),
    decreases s.len(),
{
    if s.len() > 0 && s.last() == '*' {
        let rest = s.drop_last();
        let c1 = lemma_stars_shape(rest);
        assert(rest.subrange(0, c1) =~= s.subrange(0, c1));
        assert forall|i: int| c1 <= i < s.len() implies #[trigger] s[i] == '*' by {
            if i < s.len() - 1 {
                assert(s[i] == rest[i]);
            }
        }
        c1
    } else {
        assert(s.subrange(0, s.len() as int) =~= s);
        s.len() as int
    }
}

/// Trimming removes exactly the whitespace at both ends: the result is the
/// piece `s[a..b]`, everything outside it is whitespace, and it neither
/// starts nor ends with whitespace. So a text is blank exactly when all of
/// it is whitespace.
pub proof fn law_trim_removes_outer_whitespace(s: Seq<char>) -> (piece: (int, int))
    ensures
        0 <= piece.0 <= piece.1 <= s.len(),
        trim_chars(s) == s.subrange(piece.0, piece.1),
        forall|i: int|
            0 <= i < s.len() && !(piece.0 <= i < piece.1) ==> is_whitespace_char(#[trigger] s[i]),
        piece.0 < piece.1 ==> !is_whitespace_char(s[piece.0]) && !is_whitespace_char(
            s[piece.1 - 1],
        ),
        is_blank(s) <==> forall|i: int| 0 <= i < s.len() ==> is_whitespace_char(#[trigger] s[i]),
{
    let a = lemma_trim_start_shape(s);
    let t = s.subrange(a, s.len() as int);
    let b = lemma_trim_end_shape(t);
    assert(t.subrange(0, b) =~= s.subrange(a, a + b));
    assert forall|i: int|
        0 <= i < s.len() && !(a <= i < a + b) implies is_whitespace_char(#[trigger] s[i]) by {
        if i >= a + b {
            assert(s[i] == t[i - a]);
        }
    }
    if b > 0 {
        assert(s[a + b - 1] == t[b - 1]);
    }
    if b == 0 && a < s.len() {
        assert(t[0] == s[a]);
    }
    (a, a + b)
}

/// An option is correct exactly when its raw line ends with `*`; its text is
/// a piece of the raw line, before the trailing `*`s when it is correct,
/// and never starts or ends with whitespace.
pub proof fn law_option_parsing(raw: Seq<char>) -> (piece: (int, int))
    ensures
        parse_option(raw).is_correct <==> (raw.len() > 0 && raw.last() == '*'),
        0 <= piece.0 <= piece.1 <= raw.len(),
        parse_option(raw).text == raw.subrange(piece.0, piece.1),
        parse_option(raw).is_correct ==> piece.1 < raw.len(),
        parse_option(raw).text.len() > 0 ==> !is_whitespace_char(parse_option(raw).text[0])
            && !is_whitespace_char(parse_option(raw).text.last()),
{
    let c = lemma_stars_shape(raw);
    let base = if ends_with_star(raw) {
        raw.subrange(0, c)
    } else {
        raw
    };
    let end = if ends_with_star(raw) {
        c
    } else {
        raw.len() as int
    };
    assert(base =~= raw.subrange(0, end));
    let p = law_trim_removes_outer_whitespace(base);
    assert(base.subrange(p.0, p.1) =~= raw.subrange(p.0, p.1));
    let text = parse_option(raw).text;
    if text.len() > 0 {
        assert(text[0] == base[p.0]);
        assert(text.last() == base[p.1 - 1]);
    }
    p
}

/// A question has multiple answers exactly when two different options are
/// correct, and at least one answer exactly when some option is correct.
pub proof fn law_multiple_answers_means_two_correct(options: Seq<OptionView>)
    ensures
        count_correct(options) > 1 <==> exists|i: int, j: int|
            0 <= i < j < options.len() && (#[trigger] options[i]).is_correct
                && (#[trigger] options[j]).is_correct,
        count_correct(options) > 0 <==> exists|i: int|
            0 <= i < options.len() && (#[trigger] options[i]).is_correct,
    decreases options.len(),
{
    if options.len() > 0 {
        let rest = options.drop_last();
        law_multiple_answers_means_two_correct(rest);
        let n = options.len() - 1;
        if exists|i: int| 0 <= i < rest.len() && (#[trigger] rest[i]).is_correct {
            let i = choose|i: int| 0 <= i < rest.len() && (#[trigger] rest[i]).is_correct;
            assert(options[i] == rest[i]);
            if options[n].is_correct {
                assert(options[i].is_correct && options[n].is_correct);
            }
        }
        if exists|i: int, j: int|
            0 <= i < j < rest.len() && (#[trigger] rest[i]).is_correct
                && (#[trigger] rest[j]).is_correct {
            let (i, j) = choose|i: int, j: int|
                0 <= i < j < rest.len() && (#[trigger] rest[i]).is_correct
                    && (#[trigger] rest[j]).is_correct;
            assert(options[i] == rest[i] && options[j] == rest[j]);
        }
        if exists|i: int, j: int|
            0 <= i < j < options.len() && (#[trigger] options[i]).is_correct
                && (#[trigger] options[j]).is_correct {
            let (i, j) = choose|i: int, j: int|
                0 <= i < j < options.len() && (#[trigger] options[i]).is_correct
                    && (#[trigger] options[j]).is_correct;
            assert(rest[i] == options[i]);
            if j < n {
                assert(rest[j] == options[j]);
            }
        }
        if exists|i: int| 0 <= i < options.len() && (#[trigger] options[i]).is_correct {
            let i = choose|i: int| 0 <= i < options.len() && (#[trigger] options[i]).is_correct;
            if i < n {
                assert(rest[i] == options[i]);
            }
        }
    }
}

/// The order of quiz names is the lexicographic order by code point: every
/// text is before itself and before its extensions, the first differing
/// character decides, and the order is total and antisymmetric.
pub proof fn law_name_order_is_lexicographic(a: Seq<char>, b: Seq<char>, k: int)
    ensures
        text_le(a, a),
        text_le(a, a + b),
        text_le(a, b) || text_le(b, a),
        text_le(a, b) && text_le(b, a) ==> a == b,
        0 <= k < a.len() && k < b.len() && a.take(k) == b.take(k) && a[k] < b[k] ==> text_le(a, b)
            && !text_le(b, a),
    decreases a.len(),
{
    if a.len() > 0 {
        law_name_order_is_lexicographic(a.drop_first(), b.drop_first(), k - 1);
        assert((a + b).drop_first() =~= a.drop_first() + b);
        law_name_order_is_lexicographic(a.drop_first(), b, k - 1);
        if b.len() > 0 && a[0] == b[0] {
            if text_le(a, b) && text_le(b, a) {
                assert(a =~= seq![a[0]] + a.drop_first());
                assert(b =~= seq![b[0]] + b.drop_first());
            }
            if 0 < k < a.len() && k < b.len() && a.take(k) == b.take(k) {
                assert(a.drop_first().take(k - 1) =~= a.take(k).drop_first());
                assert(b.drop_first().take(k - 1) =~= b.take(k).drop_first());
                assert(a.drop_first()[k - 1] == a[k]);
                assert(b.drop_first()[k - 1] == b[k]);
            }
        }
        if 0 == k && k < b.len() && a[0] < b[0] {
        }
        if 0 < k < a.len() && k < b.len() && a.take(k) == b.take(k) {
            assert(a[0] == a.take(k)[0] && b[0] == b.take(k)[0]);
        }
    } else {
        assert(a + b =~= b);
        if text_le(b, a) {
            assert(b.len() == 0);
            assert(a =~= b);
        }
    }
}

} // verus!
