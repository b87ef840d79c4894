//! The application's screens and what each action does on them.
pub mod session;

use vstd::prelude::*;

use crate::input::Action;
use crate::number::{
    all_digits, decimal_string, decimal_text, digit_char, digit_text, digit_to_char, is_digit_char, parse_usize,
    parse_usize_spec,
};
use crate::quiz::models::{quizzes_view, Quiz, QuizView};
pub use session::{
    is_fresh_session, no_selection, AnswerFeedback, SessionView, TrainingMode, TrainingSession,
};

verus! {

/// Current screen of the application.
#[derive(Debug, Clone)]
pub enum AppScreen {
    QuizSelection { selected_index: usize },
    ModeSelection { selected_mode: TrainingMode },
    QuestionCountInput { input: String, error_message: Option<String> },
    Question { feedback: Option<AnswerFeedback> },
    Result,
}

/// The mathematical content of an `AppScreen`.
pub enum ScreenView {
    QuizSelection { selected_index: usize },
    ModeSelection { selected_mode: TrainingMode },
    QuestionCountInput { input: Seq<char>, error_message: Option<Seq<char>> },
    Question { feedback: Option<AnswerFeedback> },
    Result,
}

impl View for AppScreen {
    type V = ScreenView;

    open spec fn view(&self) -> ScreenView {
        match self {
            AppScreen::QuizSelection { selected_index } => ScreenView::QuizSelection {
                selected_index: *selected_index,
            },
            AppScreen::ModeSelection { selected_mode } => ScreenView::ModeSelection {
                selected_mode: *selected_mode,
            },
            AppScreen::QuestionCountInput { input, error_message } => ScreenView::QuestionCountInput {
                input: input@,
                error_message: match error_message {
                    Some(m) => Some(m@),
                    None => None,
                },
            },
            AppScreen::Question { feedback } => ScreenView::Question { feedback: *feedback },
            AppScreen::Result => ScreenView::Result,
        }
    }
}

/// Main application state.
pub struct App {
    pub screen: AppScreen,
    pub quizzes: Vec<Quiz>,
    pub selected_quiz_index: usize,
    pub training_session: Option<TrainingSession>,
    pub should_quit: bool,
}

/// The mathematical content of an `App`.
pub struct AppView {
    pub screen: ScreenView,
    pub quizzes: Seq<QuizView>,
    pub selected_quiz_index: usize,
    pub session: Option<SessionView>,
    pub should_quit: bool,
}

impl View for App {
    type V = AppView;

    open spec fn view(&self) -> AppView {
        AppView {
            screen: self.screen@,
            quizzes: quizzes_view(self.quizzes@),
            selected_quiz_index: self.selected_quiz_index,
            session: match self.training_session {
                Some(s) => Some(s@),
                None => None,
            },
            should_quit: self.should_quit,
        }
    }
}

/// The other training mode.
pub open spec fn toggled_mode(mode: TrainingMode) -> TrainingMode {
    match mode {
        TrainingMode::AllQuestions => TrainingMode::LimitedQuestions,
        TrainingMode::LimitedQuestions => TrainingMode::AllQuestions,
    }
}

/// The count field takes another character while its text is under 4 bytes
/// long (its length as `str::len` reports it).
pub open spec fn input_has_room(input: Seq<char>) -> bool {
    (vstd::utf8::encode_utf8(input).len() as usize) < 4
}

/// The message shown when the count field does not hold a number.
pub open spec fn invalid_number_message() -> Seq<char> {
    "Please enter a valid number"@
}

/// The message shown when the count is out of `1..=max`.
pub open spec fn out_of_range_message(max: nat) -> Seq<char> {
    "Please enter a number between 1 and "@ + decimal_text(max)
}

/// `sel` with the check box at `i` flipped.
pub open spec fn toggle_at(sel: Seq<bool>, i: int) -> Seq<bool> {
    sel.update(i, !sel[i])
}

impl AppView {
    /// The index of the last quiz (0 when there is none).
    pub open spec fn last_quiz_index(self) -> usize {
        if self.quizzes.len() == 0 {
            0
        } else {
            (self.quizzes.len() - 1) as usize
        }
    }

    /// Number of questions of the selected quiz (0 when there is none).
    pub open spec fn selected_question_total(self) -> nat {
        if (self.selected_quiz_index as int) < self.quizzes.len() {
            self.quizzes[self.selected_quiz_index as int].questions.len()
        } else {
            0
        }
    }

    /// This state on another screen.
    pub open spec fn with_screen(self, screen: ScreenView) -> AppView {
        AppView { screen, ..self }
    }

    /// This state with another session.
    pub open spec fn with_session(self, s: SessionView) -> AppView {
        AppView { session: Some(s), ..self }
    }

    /// An action on the quiz list, whose highlight is at `index`.
    pub open spec fn quiz_selection_step(self, action: Action, index: usize) -> AppView {
        match action {
            Action::NavigateUp => self.with_screen(
                ScreenView::QuizSelection {
                    selected_index: if index > 0 {
                        (index - 1) as usize
                    } else {
                        self.last_quiz_index()
                    },
                },
            ),
            Action::NavigateDown => self.with_screen(
                ScreenView::QuizSelection {
                    selected_index: if index < self.last_quiz_index() {
                        (index + 1) as usize
                    } else {
                        0
                    },
                },
            ),
            Action::Select => if self.quizzes.len() > 0 {
                AppView {
                    selected_quiz_index: index,
                    screen: ScreenView::ModeSelection { selected_mode: TrainingMode::AllQuestions },
                    ..self
                }
            } else {
                self
            },
            _ => self,
        }
    }

    /// `post` is this state with a training session on the selected quiz
    /// started, when there is such a quiz.
    pub open spec fn started_training(self, count: Option<usize>, post: AppView) -> bool {
        if (self.selected_quiz_index as int) < self.quizzes.len() {
            &&& post == AppView {
                session: post.session,
                screen: ScreenView::Question { feedback: None },
                ..self
            }
            &&& post.session matches Some(s) && is_fresh_session(
                self.quizzes[self.selected_quiz_index as int],
                count,
                s,
            )
        } else {
            post == self
        }
    }

    /// An action on the mode screen, with `mode` highlighted.
    pub open spec fn mode_selection_step(self, action: Action, mode: TrainingMode, post: AppView) -> bool {
        match action {
            Action::NavigateUp | Action::NavigateDown => post == self.with_screen(
                ScreenView::ModeSelection { selected_mode: toggled_mode(mode) },
            ),
            Action::Select => match mode {
                TrainingMode::AllQuestions => self.started_training(None, post),
                TrainingMode::LimitedQuestions => post == self.with_screen(
                    ScreenView::QuestionCountInput { input: seq![], error_message: None },
                ),
            },
            Action::Back => post == self.with_screen(
                ScreenView::QuizSelection { selected_index: self.selected_quiz_index },
            ),
            _ => post == self,
        }
    }

    /// An action on the question count screen, whose field holds `input`.
    pub open spec fn count_input_step(self, action: Action, input: Seq<char>, post: AppView) -> bool {
        match action {
            Action::InputChar(c) => if is_digit_char(c) && input_has_room(input) {
                post == self.with_screen(
                    ScreenView::QuestionCountInput { input: input.push(c), error_message: None },
                )
            } else {
                post == self
            },
            Action::ToggleOption(n) => if (n as u32) < 10 && input_has_room(input) {
                post == self.with_screen(
                    ScreenView::QuestionCountInput {
                        input: input.push(digit_char((n as u32) as nat)),
                        error_message: None,
                    },
                )
            } else {
                post == self
            },
            Action::Backspace => post == self.with_screen(
                ScreenView::QuestionCountInput {
                    input: if input.len() > 0 {
                        input.drop_last()
                    } else {
                        input
                    },
                    error_message: None,
                },
            ),
            Action::Select => match parse_usize_spec(input) {
                Some(count) => if 0 < count && count <= self.selected_question_total() {
                    self.started_training(Some(count), post)
                } else {
                    post == self.with_screen(
                        ScreenView::QuestionCountInput {
                            input,
                            error_message: Some(out_of_range_message(self.selected_question_total())),
                        },
                    )
                },
                None => post == self.with_screen(
                    ScreenView::QuestionCountInput {
                        input,
                        error_message: Some(invalid_number_message()),
                    },
                ),
            },
            Action::Back => post == self.with_screen(
                ScreenView::ModeSelection { selected_mode: TrainingMode::LimitedQuestions },
            ),
            _ => post == self,
        }
    }

    /// `post` is this state once the answer of session `s` is confirmed: on a
    /// right answer the session moves to the next question (or to the
    /// results when none is left); on a wrong one the error count grows, the
    /// check boxes are cleared and the feedback is shown.
    pub open spec fn answered(self, s: SessionView, post: AppView) -> bool {
        if s.answer_is_correct() {
            &&& post.session matches Some(next) && s.advanced_to(next)
            &&& post == AppView {
                session: post.session,
                screen: if post.session.unwrap().is_complete() {
                    ScreenView::Result
                } else {
                    ScreenView::Question { feedback: None }
                },
                ..self
            }
        } else {
            post == AppView {
                session: Some(
                    SessionView {
                        error_count: (s.error_count + 1) as usize,
                        selected_options: no_selection(s.selected_options.len()),
                        ..s
                    },
                ),
                screen: ScreenView::Question { feedback: Some(s.feedback()) },
                ..self
            }
        }
    }

    /// This state on the question screen with `feedback`, with session `s`.
    pub open spec fn on_question(self, feedback: Option<AnswerFeedback>, s: SessionView) -> AppView {
        AppView { session: Some(s), screen: ScreenView::Question { feedback }, ..self }
    }

    /// An action on the question screen showing `feedback`, with session `s`.
    pub open spec fn question_step(
        self,
        action: Action,
        feedback: Option<AnswerFeedback>,
        s: SessionView,
        post: AppView,
    ) -> bool {
        let option_count = s.option_count();
        let ui = s.selected_ui_index;
        match action {
            Action::NavigateUp => post == self.on_question(
                feedback,
                SessionView {
                    selected_ui_index: if ui > 0 {
                        (ui - 1) as usize
                    } else {
                        option_count as usize
                    },
                    ..s
                },
            ),
            Action::NavigateDown => post == self.on_question(
                feedback,
                SessionView {
                    selected_ui_index: if (ui as int) < option_count {
                        (ui + 1) as usize
                    } else {
                        0
                    },
                    ..s
                },
            ),
            Action::Select => if (ui as int) < option_count {
                post == self.on_question(
                    feedback,
                    SessionView { selected_options: toggle_at(s.selected_options, ui as int), ..s },
                )
            } else {
                self.answered(s, post)
            },
            Action::ToggleOption(n) => if 0 < n && n <= option_count {
                post == self.on_question(
                    feedback,
                    SessionView { selected_options: toggle_at(s.selected_options, n - 1), ..s },
                )
            } else {
                post == self
            },
            _ => post == self,
        }
    }

    /// An action on the results screen.
    pub open spec fn result_step(self, action: Action) -> AppView {
        if action == Action::Select {
            AppView {
                session: None,
                screen: ScreenView::QuizSelection { selected_index: self.selected_quiz_index },
                ..self
            }
        } else {
            self
        }
    }

    /// `post` is what `action` makes of this state.
    pub open spec fn step(self, action: Action, post: AppView) -> bool {
        if action == Action::Quit {
            post == AppView { should_quit: true, ..self }
        } else {
            match self.screen {
                ScreenView::QuizSelection { selected_index } => post == self.quiz_selection_step(
                    action,
                    selected_index,
                ),
                ScreenView::ModeSelection { selected_mode } => self.mode_selection_step(
                    action,
                    selected_mode,
                    post,
                ),
                ScreenView::QuestionCountInput { input, error_message } => self.count_input_step(
                    action,
                    input,
                    post,
                ),
                ScreenView::Question { feedback } => match self.session {
                    Some(s) => self.question_step(action, feedback, s, post),
                    None => post == self,
                },
                ScreenView::Result => post == self.result_step(action),
            }
        }
    }

    /// Well-formed: the counts of quizzes, questions and options fit the
    /// machine, a highlighted quiz exists (unless there is none), a
    /// chosen quiz exists past the quiz list, the count field holds at most 4
    /// digits, and the question and results screens have a well-formed
    /// session, complete on the results screen.
    pub open spec fn wf(self) -> bool {
        let chosen = (self.selected_quiz_index as int) < self.quizzes.len();
        &&& self.quizzes.len() <= usize::MAX
        &&& forall|k: int| 0 <= k < self.quizzes.len() ==> (#[trigger] self.quizzes[k]).fits_machine()
        &&& match self.screen {
            ScreenView::QuizSelection { selected_index } => (selected_index as int)
                < self.quizzes.len() || (self.quizzes.len() == 0 && selected_index == 0),
            ScreenView::ModeSelection { .. } => chosen,
            ScreenView::QuestionCountInput { input, .. } => chosen && all_digits(input)
                && input.len() <= 4,
            ScreenView::Question { .. } => chosen && (self.session matches Some(s) && s.wf()),
            ScreenView::Result => chosen && (self.session matches Some(s) && s.wf()
                && s.is_complete()),
        }
    }

    /// `action` can be handled without running past the machine's integers
    /// or the check boxes of the session: always, except on the question
    /// screen, where the session must be able to take it.
    pub open spec fn can_act(self, action: Action) -> bool {
        (action != Action::Quit && self.screen is Question && self.session is Some)
            ==> self.session.unwrap().can_take(action)
    }
}

/// `s` without its last character.
fn without_last_char(s: &String) -> (t: String)
    ensures
        t@ == (if s@.len() > 0 {
            s@.drop_last()
        } else {
            s@
        }),
{
    let n = s.as_str().unicode_len();
    if n > 0 {
        let t = s.as_str().substring_char(0, n - 1).to_owned();
        assert(t@ =~= s@.drop_last());
        t
    } else {
        s.clone()
    }
}

/// `s` followed by the digit `c`.
fn with_digit(s: &String, c: char) -> (t: String)
    requires
        is_digit_char(c),
    ensures
        t@ == s@.push(c),
{
    let mut t = s.clone();
    t.append(digit_text(c));
    assert(t@ =~= s@.push(c));
    t
}

/// The text of `invalid_number_message`.
fn invalid_number_text() -> (m: String)
    ensures
        m@ == invalid_number_message(),
{
    "Please enter a valid number".to_owned()
}

/// The text of `out_of_range_message(max)`.
fn out_of_range_text(max: usize) -> (m: String)
    ensures
        m@ == out_of_range_message(max as nat),
{
    let mut m = "Please enter a number between 1 and ".to_owned();
    let digits = decimal_string(max);
    m.append(digits.as_str());
    m
}

impl App {
    /// Creates a new App with the given quizzes, on the quiz list.
    pub fn new(quizzes: Vec<Quiz>) -> (app: Self)
        ensures
            app@ == (AppView {
                screen: ScreenView::QuizSelection { selected_index: 0 },
                quizzes: quizzes_view(quizzes@),
                selected_quiz_index: 0,
                session: None,
                should_quit: false,
            }),
    {
        App {
            screen: AppScreen::QuizSelection { selected_index: 0 },
            quizzes,
            selected_quiz_index: 0,
            training_session: None,
            should_quit: false,
        }
    }

    /// Returns the currently selected quiz.
    pub fn selected_quiz(&self) -> (quiz: Option<&Quiz>)
        ensures
            match quiz {
                Some(q) => (self.selected_quiz_index as int) < self.quizzes@.len() && q@
                    == self@.quizzes[self.selected_quiz_index as int],
                None => self.selected_quiz_index as int >= self.quizzes@.len(),
            },
    {
        if self.selected_quiz_index < self.quizzes.len() {
            Some(&self.quizzes[self.selected_quiz_index])
        } else {
            None
        }
    }

    /// Whether `action` can be handled here without running past the
    /// machine's integers or the check boxes of the session.
    pub fn can_handle(&self, action: Action) -> (ok: bool)
        ensures
            ok == self@.can_act(action),
    {
        if action == Action::Quit {
            return true;
        }
        match &self.screen {
            AppScreen::Question { .. } => {},
            _ => {
                return true;
            },
        }
        match &self.training_session {
            Some(session) => {
                let option_count = match session.current_question() {
                    Some(q) => q.options.len(),
                    None => 0,
                };
                if option_count == usize::MAX {
                    return false;
                }
                let ui = session.selected_ui_index;
                match action {
                    Action::Select => {
                        if ui < option_count {
                            ui < session.selected_options.len()
                        } else {
                            match session.validate_answer() {
                                AnswerFeedback::Correct => session.current_question_index
                                    < usize::MAX,
                                AnswerFeedback::Incorrect { .. } => session.error_count
                                    < usize::MAX,
                            }
                        }
                    },
                    Action::ToggleOption(n) => {
                        if 0 < n && n <= option_count {
                            n <= session.selected_options.len()
                        } else {
                            true
                        }
                    },
                    _ => true,
                }
            },
            None => true,
        }
    }

    /// Handles an input action and updates the application state.
    pub fn handle_action(&mut self, action: Action)
        requires
            old(self)@.can_act(action),
        ensures
            old(self)@.step(action, final(self)@),
    {
        if action == Action::Quit {
            self.should_quit = true;
            return;
        }
        match &self.screen {
            AppScreen::QuizSelection { selected_index } => {
                let index = *selected_index;
                self.handle_quiz_selection_action(action, index);
            },
            AppScreen::ModeSelection { selected_mode } => {
                let mode = *selected_mode;
                self.handle_mode_selection_action(action, mode);
            },
            AppScreen::QuestionCountInput { input, error_message } => {
                let input = input.clone();
                let error_message = error_message.clone();
                self.handle_question_count_action(action, input, error_message);
            },
            AppScreen::Question { feedback } => {
                let feedback = *feedback;
                self.handle_question_action(action, feedback);
            },
            AppScreen::Result => {
                self.handle_result_action(action);
            },
        }
    }

    fn handle_quiz_selection_action(&mut self, action: Action, selected_index: usize)
        ensures
            final(self)@ == old(self)@.quiz_selection_step(action, selected_index),
    {
        let last = if self.quizzes.len() > 0 {
            self.quizzes.len() - 1
        } else {
            0
        };
        match action {
            Action::NavigateUp => {
                let index = if selected_index > 0 {
                    selected_index - 1
                } else {
                    last
                };
                self.screen = AppScreen::QuizSelection { selected_index: index };
            },
            Action::NavigateDown => {
                let index = if selected_index < last {
                    selected_index + 1
                } else {
                    0
                };
                self.screen = AppScreen::QuizSelection { selected_index: index };
            },
            Action::Select => {
                if self.quizzes.len() > 0 {
                    self.selected_quiz_index = selected_index;
                    self.screen = AppScreen::ModeSelection {
                        selected_mode: TrainingMode::AllQuestions,
                    };
                }
            },
            _ => {},
        }
    }

    fn handle_mode_selection_action(&mut self, action: Action, selected_mode: TrainingMode)
        ensures
            old(self)@.mode_selection_step(action, selected_mode, final(self)@),
    {
        match action {
            Action::NavigateUp | Action::NavigateDown => {
                let new_mode = match selected_mode {
                    TrainingMode::AllQuestions => TrainingMode::LimitedQuestions,
                    TrainingMode::LimitedQuestions => TrainingMode::AllQuestions,
                };
                self.screen = AppScreen::ModeSelection { selected_mode: new_mode };
            },
            Action::Select => match selected_mode {
                TrainingMode::AllQuestions => {
                    self.start_training(None);
                },
                TrainingMode::LimitedQuestions => {
                    self.screen = AppScreen::QuestionCountInput {
                        input: String::new(),
                        error_message: None,
                    };
                },
            },
            Action::Back => {
                self.screen = AppScreen::QuizSelection { selected_index: self.selected_quiz_index };
            },
            _ => {},
        }
    }

    fn handle_question_count_action(
        &mut self,
        action: Action,
        input: String,
        _error_message: Option<String>,
    )
        ensures
            old(self)@.count_input_step(action, input@, final(self)@),
    {
        match action {
            Action::InputChar(c) => {
                if '0' <= c && c <= '9' && input.as_str().len() < 4 {
                    let input = with_digit(&input, c);
                    self.screen = AppScreen::QuestionCountInput { input, error_message: None };
                }
            },
            Action::ToggleOption(n) => {
                let d = #[verifier::truncate] (n as u32);
                if d < 10 {
                    if input.as_str().len() < 4 {
                        let input = with_digit(&input, digit_to_char(d));
                        self.screen = AppScreen::QuestionCountInput { input, error_message: None };
                    }
                }
            },
            Action::Backspace => {
                let input = without_last_char(&input);
                self.screen = AppScreen::QuestionCountInput { input, error_message: None };
            },
            Action::Select => {
                match parse_usize(input.as_str()) {
                    Some(count) => {
                        let max_questions = if self.selected_quiz_index < self.quizzes.len() {
                            self.quizzes[self.selected_quiz_index].questions.len()
                        } else {
                            0
                        };
                        if count > 0 && count <= max_questions {
                            self.start_training(Some(count));
                        } else {
                            let message = out_of_range_text(max_questions);
                            self.screen = AppScreen::QuestionCountInput {
                                input,
                                error_message: Some(message),
                            };
                        }
                    },
                    None => {
                        let message = invalid_number_text();
                        self.screen = AppScreen::QuestionCountInput {
                            input,
                            error_message: Some(message),
                        };
                    },
                }
            },
            Action::Back => {
                self.screen = AppScreen::ModeSelection {
                    selected_mode: TrainingMode::LimitedQuestions,
                };
            },
            _ => {},
        }
    }

    fn handle_question_action(&mut self, action: Action, feedback: Option<AnswerFeedback>)
        requires
            old(self)@.session matches Some(s) ==> s.can_take(action),
        ensures
            match old(self)@.session {
                Some(s) => old(self)@.question_step(action, feedback, s, final(self)@),
                None => final(self)@ == old(self)@,
            },
    {
        let option_count = match &self.training_session {
            Some(session) => match session.current_question() {
                Some(q) => q.options.len(),
                None => 0,
            },
            None => {
                return;
            },
        };
        let total_items = option_count + 1;
        match action {
            Action::NavigateUp => {
                match &mut self.training_session {
                    Some(session) => {
                        if session.selected_ui_index > 0 {
                            session.selected_ui_index = session.selected_ui_index - 1;
                        } else {
                            session.selected_ui_index = total_items - 1;
                        }
                    },
                    None => {},
                }
                self.screen = AppScreen::Question { feedback };
            },
            Action::NavigateDown => {
                match &mut self.training_session {
                    Some(session) => {
                        if session.selected_ui_index < total_items - 1 {
                            session.selected_ui_index = session.selected_ui_index + 1;
                        } else {
                            session.selected_ui_index = 0;
                        }
                    },
                    None => {},
                }
                self.screen = AppScreen::Question { feedback };
            },
            Action::Select => {
                let ui = match &self.training_session {
                    Some(session) => session.selected_ui_index,
                    None => 0,
                };
                if ui < option_count {
                    match &mut self.training_session {
                        Some(session) => {
                            let flipped = !session.selected_options[ui];
                            session.selected_options.set(ui, flipped);
                        },
                        None => {},
                    }
                    self.screen = AppScreen::Question { feedback };
                } else {
                    self.validate_and_proceed();
                }
            },
            Action::ToggleOption(n) => {
                if n > 0 && n <= option_count {
                    let idx = n - 1;
                    match &mut self.training_session {
                        Some(session) => {
                            let flipped = !session.selected_options[idx];
                            session.selected_options.set(idx, flipped);
                        },
                        None => {},
                    }
                    self.screen = AppScreen::Question { feedback };
                }
            },
            _ => {},
        }
    }

    fn handle_result_action(&mut self, action: Action)
        ensures
            final(self)@ == old(self)@.result_step(action),
    {
        if action == Action::Select {
            self.training_session = None;
            self.screen = AppScreen::QuizSelection { selected_index: self.selected_quiz_index };
        }
    }

    fn start_training(&mut self, question_count: Option<usize>)
        ensures
            old(self)@.started_training(question_count, final(self)@),
    {
        if self.selected_quiz_index < self.quizzes.len() {
            let session = TrainingSession::new(&self.quizzes[self.selected_quiz_index], question_count);
            self.training_session = Some(session);
            self.screen = AppScreen::Question { feedback: None };
        }
    }

    fn validate_and_proceed(&mut self)
        requires
            old(self)@.session matches Some(s) ==> s.can_confirm(),
        ensures
            match old(self)@.session {
                Some(s) => old(self)@.answered(s, final(self)@),
                None => final(self)@ == old(self)@,
            },
    {
        match &mut self.training_session {
            Some(session) => {
                let feedback = session.validate_answer();
                match feedback {
                    AnswerFeedback::Correct => {
                        session.prepare_next_question();
                        let complete = session.is_complete();
                        if complete {
                            self.screen = AppScreen::Result;
                        } else {
                            self.screen = AppScreen::Question { feedback: None };
                        }
                    },
                    AnswerFeedback::Incorrect { .. } => {
                        session.error_count = session.error_count + 1;
                        let cleared = vec![false; session.selected_options.len()];
                        assert(cleared@ =~= no_selection(session.selected_options@.len()));
                        session.selected_options = cleared;
                        self.screen = AppScreen::Question { feedback: Some(feedback) };
                    },
                }
            },
            None => {},
        }
    }
}

} // verus!
