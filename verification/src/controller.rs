//! The controller of the interaction cycle: a finite-state machine that is
//! stepped by its owner. Every step takes what the owner observed (the
//! cancellation flag, whether the target window still exists, how the outside
//! work of the current state ended) and yields the next state and a signal.

use vstd::prelude::*;
use crate::text::{decimal_text, padded_decimal_text, push_decimal, push_padded_decimal};

verus! {

/// Pause after the End button was clicked, so that the page change can begin.
pub const END_CLICK_SETTLE_MS: u64 = 500;

/// Pause between bringing the window to the foreground and clicking.
pub const FOCUS_SETTLE_MS: u64 = 50;

/// The states of the interaction cycle.
#[derive(Debug, Clone, PartialEq)]
pub enum AutomationState {
    /// Not started yet.
    Idle,
    /// Waiting for the start page to appear.
    WaitingForStartPage,
    /// Clicking the Start button.
    ClickingStart,
    /// Waiting for loading to end.
    WaitingForLoading,
    /// Clicking the Skip button.
    ClickingSkip,
    /// Waiting for the result screen.
    WaitingForResult,
    /// Capturing the result screen.
    Capturing,
    /// Clicking the End button.
    ClickingEnd,
    /// Deciding whether another iteration follows.
    CheckingLoop,
    /// Every iteration is done.
    Complete,
    /// The run failed; the reason is kept for the operator.
    Error(String),
    /// The operator cancelled the run.
    Aborted,
}

/// The mathematical value of an [`AutomationState`].
pub ghost enum StateView {
    Idle,
    WaitingForStartPage,
    ClickingStart,
    WaitingForLoading,
    ClickingSkip,
    WaitingForResult,
    Capturing,
    ClickingEnd,
    CheckingLoop,
    Complete,
    Error(Seq<char>),
    Aborted,
}

impl View for AutomationState {
    type V = StateView;

    open spec fn view(&self) -> StateView {
        match self {
            AutomationState::Idle => StateView::Idle,
            AutomationState::WaitingForStartPage => StateView::WaitingForStartPage,
            AutomationState::ClickingStart => StateView::ClickingStart,
            AutomationState::WaitingForLoading => StateView::WaitingForLoading,
            AutomationState::ClickingSkip => StateView::ClickingSkip,
            AutomationState::WaitingForResult => StateView::WaitingForResult,
            AutomationState::Capturing => StateView::Capturing,
            AutomationState::ClickingEnd => StateView::ClickingEnd,
            AutomationState::CheckingLoop => StateView::CheckingLoop,
            AutomationState::Complete => StateView::Complete,
            AutomationState::Error(reason) => StateView::Error(reason@),
            AutomationState::Aborted => StateView::Aborted,
        }
    }
}

impl StateView {
    /// `Complete`, `Error` and `Aborted` end a run.
    pub open spec fn is_terminal(self) -> bool {
        self is Complete || self is Error || self is Aborted
    }

    /// The three states in which the controller waits for the screen to change.
    pub open spec fn is_wait(self) -> bool {
        self is WaitingForStartPage || self is WaitingForLoading || self is WaitingForResult
    }

    /// The text shown for a state.
    pub open spec fn text(self) -> Seq<char> {
        match self {
            StateView::Idle => "Idle"@,
            StateView::WaitingForStartPage => "Waiting for start page"@,
            StateView::ClickingStart => "Clicking Start"@,
            StateView::WaitingForLoading => "Waiting for loading"@,
            StateView::ClickingSkip => "Clicking Skip"@,
            StateView::WaitingForResult => "Waiting for result"@,
            StateView::Capturing => "Capturing"@,
            StateView::ClickingEnd => "Clicking End"@,
            StateView::CheckingLoop => "Checking loop"@,
            StateView::Complete => "Complete"@,
            StateView::Error(reason) => "Error: "@ + reason,
            StateView::Aborted => "Aborted"@,
        }
    }

    /// The outside work that a state calls for.
    pub open spec fn action(self) -> Action {
        match self {
            StateView::WaitingForStartPage => Action::WaitForStartPage,
            StateView::ClickingStart => Action::ClickStart,
            StateView::WaitingForLoading => Action::WaitForLoading,
            StateView::ClickingSkip => Action::ClickSkip,
            StateView::WaitingForResult => Action::WaitForResult,
            StateView::Capturing => Action::Capture,
            StateView::ClickingEnd => Action::ClickEnd,
            _ => Action::Nothing,
        }
    }

    /// The state that follows when the outside work of a state succeeded.
    pub open spec fn successor(self) -> StateView {
        match self {
            StateView::WaitingForStartPage => StateView::ClickingStart,
            StateView::ClickingStart => StateView::WaitingForLoading,
            StateView::WaitingForLoading => StateView::ClickingSkip,
            StateView::ClickingSkip => StateView::WaitingForResult,
            StateView::WaitingForResult => StateView::Capturing,
            StateView::Capturing => StateView::ClickingEnd,
            StateView::ClickingEnd => StateView::CheckingLoop,
            other => other,
        }
    }

    /// What stands before the collaborator's own words in the reason of a
    /// failure; `persisting` tells a capture that could not be stored from one
    /// that could not be taken.
    pub open spec fn failure_prefix(self, persisting: bool) -> Seq<char> {
        match self {
            StateView::WaitingForStartPage => "Start page wait failed: "@,
            StateView::ClickingStart => "Failed to click Start: "@,
            StateView::WaitingForLoading => "Loading wait failed: "@,
            StateView::ClickingSkip => "Failed to click Skip: "@,
            StateView::WaitingForResult => "Result wait failed: "@,
            StateView::Capturing => if persisting {
                "Failed to save screenshot: "@
            } else {
                "Failed to capture: "@
            },
            StateView::ClickingEnd => "Failed to click End: "@,
            _ => Seq::<char>::empty(),
        }
    }
}

/// The outside work that the owner carries out for the controller.
#[derive(Debug, Clone, Copy, PartialEq, Eq, Structural)]
pub enum Action {
    /// Nothing: the state is bookkeeping only, or the run is over.
    Nothing,
    /// Wait until the start page is shown.
    WaitForStartPage,
    /// Bring the window to the foreground and click the Start button.
    ClickStart,
    /// Wait until loading has ended and the Skip button can be used.
    WaitForLoading,
    /// Bring the window to the foreground and click the Skip button.
    ClickSkip,
    /// Wait until the result page is shown.
    WaitForResult,
    /// Capture the window, store the image and queue it for recognition.
    Capture,
    /// Bring the window to the foreground and click the End button, then
    /// pause for [`END_CLICK_SETTLE_MS`].
    ClickEnd,
}

/// How the outside work of a step ended.
#[derive(Debug, Clone, PartialEq)]
pub enum ActionOutcome {
    /// The work was done.
    Succeeded,
    /// The work failed; the text is the collaborator's description.
    Failed(String),
    /// The capture was taken but the image could not be stored.
    SaveFailed(String),
}

/// The mathematical value of an [`ActionOutcome`].
pub ghost enum OutcomeView {
    Succeeded,
    Failed(Seq<char>),
    SaveFailed(Seq<char>),
}

impl View for ActionOutcome {
    type V = OutcomeView;

    open spec fn view(&self) -> OutcomeView {
        match self {
            ActionOutcome::Succeeded => OutcomeView::Succeeded,
            ActionOutcome::Failed(detail) => OutcomeView::Failed(detail@),
            ActionOutcome::SaveFailed(detail) => OutcomeView::SaveFailed(detail@),
        }
    }
}

/// How a capture ended. An image that was taken and stored counts as
/// captured whether or not it could be queued for recognition: recognition
/// is secondary to the cycle.
pub open spec fn capture_outcome_spec(
    capture_error: Option<Seq<char>>,
    save_error: Option<Seq<char>>,
) -> OutcomeView {
    match capture_error {
        Some(detail) => OutcomeView::Failed(detail),
        None => match save_error {
            Some(detail) => OutcomeView::SaveFailed(detail),
            None => OutcomeView::Succeeded,
        },
    }
}

/// The view of an optional text.
pub open spec fn text_view(text: Option<String>) -> Option<Seq<char>> {
    match text {
        Some(t) => Some(t@),
        None => None,
    }
}

/// How a capture ended, from what went wrong with taking the image and with
/// storing it, and from whether the capture event was queued. The last
/// plays no part.
pub fn capture_outcome(capture_error: Option<String>, save_error: Option<String>, queued: bool) -> (outcome:
    ActionOutcome)
    ensures
        outcome@ == capture_outcome_spec(text_view(capture_error), text_view(save_error)),
{
    match capture_error {
        Some(detail) => ActionOutcome::Failed(detail),
        None => match save_error {
            Some(detail) => ActionOutcome::SaveFailed(detail),
            None => ActionOutcome::Succeeded,
        },
    }
}

/// What the owner observed for one step.
#[derive(Debug, Clone, PartialEq)]
pub struct StepInput {
    /// Cancellation was requested when the step began.
    pub cancel_at_entry: bool,
    /// The target window still exists.
    pub window_exists: bool,
    /// How the work named by [`AutomationContext::action_due`] ended. It is
    /// not looked at where no work was due.
    pub outcome: ActionOutcome,
    /// Cancellation was requested by the time the work had ended.
    pub cancel_after_action: bool,
}

/// The mathematical value of a [`StepInput`].
pub ghost struct StepInputView {
    pub cancel_at_entry: bool,
    pub window_exists: bool,
    pub outcome: OutcomeView,
    pub cancel_after_action: bool,
}

impl View for StepInput {
    type V = StepInputView;

    open spec fn view(&self) -> StepInputView {
        StepInputView {
            cancel_at_entry: self.cancel_at_entry,
            window_exists: self.window_exists,
            outcome: self.outcome@,
            cancel_after_action: self.cancel_after_action,
        }
    }
}

/// How a run ended.
#[derive(Debug, Clone, PartialEq)]
pub enum SessionOutcome {
    /// Every iteration was run.
    Completed,
    /// The operator cancelled the run.
    Aborted,
    /// The run failed, for the given reason.
    Error(String),
}

/// The mathematical value of a [`SessionOutcome`].
pub ghost enum OutcomeOfRun {
    Completed,
    Aborted,
    Error(Seq<char>),
}

impl View for SessionOutcome {
    type V = OutcomeOfRun;

    open spec fn view(&self) -> OutcomeOfRun {
        match self {
            SessionOutcome::Completed => OutcomeOfRun::Completed,
            SessionOutcome::Aborted => OutcomeOfRun::Aborted,
            SessionOutcome::Error(reason) => OutcomeOfRun::Error(reason@),
        }
    }
}

/// How the run of a controller in the given state ended, if it has ended.
pub open spec fn outcome_spec(state: StateView) -> Option<OutcomeOfRun> {
    match state {
        StateView::Complete => Some(OutcomeOfRun::Completed),
        StateView::Aborted => Some(OutcomeOfRun::Aborted),
        StateView::Error(reason) => Some(OutcomeOfRun::Error(reason)),
        _ => None,
    }
}

/// What a step tells the owner of the controller.
#[derive(Debug, Clone, Copy, PartialEq, Eq, Structural)]
pub enum StepSignal {
    /// The run goes on: step again.
    Continue,
    /// The run is over: it completed, or the operator cancelled it.
    StopNormally,
    /// The run is over because it failed.
    StopWithError,
}

/// The controller: the current state and the iteration count.
#[derive(Debug, Clone, PartialEq)]
pub struct AutomationContext {
    /// The state the cycle is in.
    pub state: AutomationState,
    /// The iteration being run, counted from 1.
    pub current_iteration: u32,
    /// The number of iterations to run.
    pub max_iterations: u32,
}

/// The mathematical value of an [`AutomationContext`].
pub ghost struct ContextView {
    pub state: StateView,
    pub current_iteration: nat,
    pub max_iterations: nat,
}

impl View for AutomationContext {
    type V = ContextView;

    open spec fn view(&self) -> ContextView {
        ContextView {
            state: self.state@,
            current_iteration: self.current_iteration as nat,
            max_iterations: self.max_iterations as nat,
        }
    }
}

/// The reason recorded when the target window has gone.
pub open spec fn window_closed_reason() -> Seq<char> {
    "Game window closed"@
}

/// The state after the outside work of the state `s` ended as `input` says.
/// A failed wait counts as a cancellation where cancellation was requested
/// meanwhile; a failed click or capture is always an error.
pub open spec fn after_action(s: StateView, input: StepInputView) -> StateView {
    match input.outcome {
        OutcomeView::Succeeded => s.successor(),
        OutcomeView::Failed(detail) => if s.is_wait() && input.cancel_after_action {
            StateView::Aborted
        } else {
            StateView::Error(s.failure_prefix(false) + detail)
        },
        OutcomeView::SaveFailed(detail) => if s.is_wait() && input.cancel_after_action {
            StateView::Aborted
        } else {
            StateView::Error(s.failure_prefix(true) + detail)
        },
    }
}

/// The transition function of the controller. Cancellation is looked at
/// first and wins over everything else; then the window; only then the
/// state's own logic.
pub open spec fn step_spec(c: ContextView, input: StepInputView) -> ContextView {
    if input.cancel_at_entry {
        ContextView { state: StateView::Aborted, ..c }
    } else if !input.window_exists {
        ContextView { state: StateView::Error(window_closed_reason()), ..c }
    } else {
        match c.state {
            StateView::Idle => ContextView { state: StateView::WaitingForStartPage, ..c },
            StateView::CheckingLoop => if c.current_iteration >= c.max_iterations {
                ContextView { state: StateView::Complete, ..c }
            } else {
                ContextView {
                    state: StateView::WaitingForStartPage,
                    current_iteration: c.current_iteration + 1,
                    ..c
                }
            },
            StateView::Complete | StateView::Error(_) | StateView::Aborted => c,
            s => ContextView { state: after_action(s, input), ..c },
        }
    }
}

/// The signal that goes with the state reached by a step.
pub open spec fn signal_spec(after: StateView) -> StepSignal {
    match after {
        StateView::Error(_) => StepSignal::StopWithError,
        StateView::Complete | StateView::Aborted => StepSignal::StopNormally,
        _ => StepSignal::Continue,
    }
}

/// The outside work that is due before a step can be taken: none where an
/// entry check stops the step, else what the state calls for.
pub open spec fn action_due_spec(
    state: StateView,
    cancel_at_entry: bool,
    window_exists: bool,
) -> Action {
    if cancel_at_entry || !window_exists {
        Action::Nothing
    } else {
        state.action()
    }
}

impl AutomationState {
    /// Whether the state ends a run.
    pub fn is_terminal(&self) -> (b: bool)
        ensures
            b == self@.is_terminal(),
    {
        match self {
            AutomationState::Complete | AutomationState::Error(_) | AutomationState::Aborted => true,
            _ => false,
        }
    }

    /// Whether the controller waits for the screen in this state.
    pub fn is_wait(&self) -> (b: bool)
        ensures
            b == self@.is_wait(),
    {
        match self {
            AutomationState::WaitingForStartPage
            | AutomationState::WaitingForLoading
            | AutomationState::WaitingForResult => true,
            _ => false,
        }
    }

    /// The outside work that the state calls for.
    pub fn action(&self) -> (a: Action)
        ensures
            a == self@.action(),
    {
        match self {
            AutomationState::WaitingForStartPage => Action::WaitForStartPage,
            AutomationState::ClickingStart => Action::ClickStart,
            AutomationState::WaitingForLoading => Action::WaitForLoading,
            AutomationState::ClickingSkip => Action::ClickSkip,
            AutomationState::WaitingForResult => Action::WaitForResult,
            AutomationState::Capturing => Action::Capture,
            AutomationState::ClickingEnd => Action::ClickEnd,
            _ => Action::Nothing,
        }
    }

    /// The text shown for the state.
    pub fn to_string(&self) -> (s: String)
        ensures
            s@ == self@.text(),
    {
        match self {
            AutomationState::Idle => String::from_str("Idle"),
            AutomationState::WaitingForStartPage => String::from_str("Waiting for start page"),
            AutomationState::ClickingStart => String::from_str("Clicking Start"),
            AutomationState::WaitingForLoading => String::from_str("Waiting for loading"),
            AutomationState::ClickingSkip => String::from_str("Clicking Skip"),
            AutomationState::WaitingForResult => String::from_str("Waiting for result"),
            AutomationState::Capturing => String::from_str("Capturing"),
            AutomationState::ClickingEnd => String::from_str("Clicking End"),
            AutomationState::CheckingLoop => String::from_str("Checking loop"),
            AutomationState::Complete => String::from_str("Complete"),
            AutomationState::Error(reason) => {
                let mut s = String::from_str("Error: ");
                s.append(reason.as_str());
                s
            },
            AutomationState::Aborted => String::from_str("Aborted"),
        }
    }

    /// The state that follows when the state's outside work succeeded.
    fn successor(&self) -> (next: AutomationState)
        ensures
            next@ == self@.successor(),
    {
        match self {
            AutomationState::WaitingForStartPage => AutomationState::ClickingStart,
            AutomationState::ClickingStart => AutomationState::WaitingForLoading,
            AutomationState::WaitingForLoading => AutomationState::ClickingSkip,
            AutomationState::ClickingSkip => AutomationState::WaitingForResult,
            AutomationState::WaitingForResult => AutomationState::Capturing,
            AutomationState::Capturing => AutomationState::ClickingEnd,
            AutomationState::ClickingEnd => AutomationState::CheckingLoop,
            other => other.clone_state(),
        }
    }

    /// A copy of the state.
    fn clone_state(&self) -> (copy: AutomationState)
        ensures
            copy@ == self@,
    {
        match self {
            AutomationState::Idle => AutomationState::Idle,
            AutomationState::WaitingForStartPage => AutomationState::WaitingForStartPage,
            AutomationState::ClickingStart => AutomationState::ClickingStart,
            AutomationState::WaitingForLoading => AutomationState::WaitingForLoading,
            AutomationState::ClickingSkip => AutomationState::ClickingSkip,
            AutomationState::WaitingForResult => AutomationState::WaitingForResult,
            AutomationState::Capturing => AutomationState::Capturing,
            AutomationState::ClickingEnd => AutomationState::ClickingEnd,
            AutomationState::CheckingLoop => AutomationState::CheckingLoop,
            AutomationState::Complete => AutomationState::Complete,
            AutomationState::Error(reason) => AutomationState::Error(reason.clone()),
            AutomationState::Aborted => AutomationState::Aborted,
        }
    }

    /// The error state whose reason is the state's failure prefix followed
    /// by `detail`.
    fn failure(&self, persisting: bool, detail: &str) -> (next: AutomationState)
        ensures
            next@ == StateView::Error(self@.failure_prefix(persisting) + detail@),
    {
        let mut reason = match self {
            AutomationState::WaitingForStartPage => String::from_str("Start page wait failed: "),
            AutomationState::ClickingStart => String::from_str("Failed to click Start: "),
            AutomationState::WaitingForLoading => String::from_str("Loading wait failed: "),
            AutomationState::ClickingSkip => String::from_str("Failed to click Skip: "),
            AutomationState::WaitingForResult => String::from_str("Result wait failed: "),
            AutomationState::Capturing => if persisting {
                String::from_str("Failed to save screenshot: ")
            } else {
                String::from_str("Failed to capture: ")
            },
            AutomationState::ClickingEnd => String::from_str("Failed to click End: "),
            _ => String::new(),
        };
        reason.append(detail);
        AutomationState::Error(reason)
    }
}

impl AutomationContext {
    /// A controller that has not started, at the first iteration of a run of
    /// `max_iterations`.
    pub fn new(max_iterations: u32) -> (ctx: AutomationContext)
        ensures
            ctx@ == (ContextView {
                state: StateView::Idle,
                current_iteration: 1,
                max_iterations: max_iterations as nat,
            }),
    {
        AutomationContext { state: AutomationState::Idle, current_iteration: 1, max_iterations }
    }

    /// The outside work to carry out before the next call of
    /// [`AutomationContext::step`], given the two entry checks.
    pub fn action_due(&self, cancel_at_entry: bool, window_exists: bool) -> (a: Action)
        ensures
            a == action_due_spec(self@.state, cancel_at_entry, window_exists),
    {
        if cancel_at_entry || !window_exists {
            Action::Nothing
        } else {
            self.state.action()
        }
    }

    /// Advances the state machine by one step.
    ///
    /// Cancellation at entry always leads to `Aborted`; a missing window to
    /// `Error`; else the state's own logic applies. `CheckingLoop` is the
    /// only state that changes the iteration count, and nothing changes the
    /// number of iterations to run.
    pub fn step(&mut self, input: &StepInput) -> (signal: StepSignal)
        ensures
            final(self)@ == step_spec(old(self)@, input@),
            signal == signal_spec(final(self)@.state),
            input.cancel_at_entry ==> final(self)@.state == StateView::Aborted,
            !input.cancel_at_entry && input.window_exists && old(self)@.state
                == StateView::CheckingLoop ==> if old(self).current_iteration
                == old(self).max_iterations {
                final(self)@.state == StateView::Complete && final(self).current_iteration == old(
                    self,
                ).current_iteration
            } else if old(self).current_iteration < old(self).max_iterations {
                final(self)@.state == StateView::WaitingForStartPage
                    && final(self).current_iteration == old(self).current_iteration + 1
            } else {
                final(self)@.state == StateView::Complete
            },
            old(self)@.state != StateView::CheckingLoop ==> final(self).current_iteration == old(
                self,
            ).current_iteration,
            final(self).max_iterations == old(self).max_iterations,
    {
        if input.cancel_at_entry {
            self.state = AutomationState::Aborted;
            return StepSignal::StopNormally;
        }
        if !input.window_exists {
            self.state = AutomationState::Error(String::from_str("Game window closed"));
            return StepSignal::StopWithError;
        }
        match &self.state {
            AutomationState::Idle => {
                self.state = AutomationState::WaitingForStartPage;
                StepSignal::Continue
            },
            AutomationState::CheckingLoop => {
                if self.current_iteration >= self.max_iterations {
                    self.state = AutomationState::Complete;
                    StepSignal::StopNormally
                } else {
                    self.current_iteration = self.current_iteration + 1;
                    self.state = AutomationState::WaitingForStartPage;
                    StepSignal::Continue
                }
            },
            AutomationState::Complete | AutomationState::Aborted => StepSignal::StopNormally,
            AutomationState::Error(_) => StepSignal::StopWithError,
            _ => {
                let waiting = self.state.is_wait();
                let next = match &input.outcome {
                    ActionOutcome::Succeeded => self.state.successor(),
                    ActionOutcome::Failed(detail) => if waiting && input.cancel_after_action {
                        AutomationState::Aborted
                    } else {
                        self.state.failure(false, detail.as_str())
                    },
                    ActionOutcome::SaveFailed(detail) => if waiting && input.cancel_after_action {
                        AutomationState::Aborted
                    } else {
                        self.state.failure(true, detail.as_str())
                    },
                };
                let signal = match &next {
                    AutomationState::Error(_) => StepSignal::StopWithError,
                    AutomationState::Aborted => StepSignal::StopNormally,
                    _ => StepSignal::Continue,
                };
                self.state = next;
                signal
            },
        }
    }

    /// How the run ended: nothing while it goes on.
    pub fn outcome(&self) -> (r: Option<SessionOutcome>)
        ensures
            r is Some <==> self@.state.is_terminal(),
            match r {
                Some(outcome) => outcome_spec(self@.state) == Some(outcome@),
                None => outcome_spec(self@.state) is None,
            },
    {
        match &self.state {
            AutomationState::Complete => Some(SessionOutcome::Completed),
            AutomationState::Aborted => Some(SessionOutcome::Aborted),
            AutomationState::Error(reason) => Some(SessionOutcome::Error(reason.clone())),
            _ => None,
        }
    }

    /// A short account of the progress, for display.
    pub fn progress_string(&self) -> (s: String)
        ensures
            s@ == progress_text(self@),
    {
        match &self.state {
            AutomationState::Complete => {
                let mut s = String::from_str("Complete (");
                push_decimal(&mut s, self.max_iterations as u64);
                s.append(" iterations)");
                s
            },
            AutomationState::Error(reason) => {
                let mut s = String::from_str("Error: ");
                s.append(reason.as_str());
                s
            },
            AutomationState::Aborted => String::from_str("Aborted"),
            _ => {
                let mut s = String::new();
                push_decimal(&mut s, self.current_iteration as u64);
                s.append("/");
                push_decimal(&mut s, self.max_iterations as u64);
                s.append(" - ");
                let state_text = self.state.to_string();
                s.append(state_text.as_str());
                proof {
                    assert(s@ =~= progress_text(self@));
                }
                s
            },
        }
    }
}

/// The account of the progress that [`AutomationContext::progress_string`]
/// gives.
pub open spec fn progress_text(c: ContextView) -> Seq<char> {
    match c.state {
        StateView::Complete => "Complete ("@ + decimal_text(c.max_iterations) + " iterations)"@,
        StateView::Error(reason) => "Error: "@ + reason,
        StateView::Aborted => "Aborted"@,
        s => decimal_text(c.current_iteration) + "/"@ + decimal_text(c.max_iterations) + " - "@
            + s.text(),
    }
}

/// The name under which the capture of an iteration is stored: the
/// iteration in at least three digits, an underscore, the time stamp and
/// the extension.
pub open spec fn screenshot_file_name_spec(iteration: nat, timestamp: Seq<char>) -> Seq<char> {
    padded_decimal_text(iteration, 3) + "_"@ + timestamp + ".png"@
}

/// The name under which the capture of an iteration is stored.
pub fn screenshot_file_name(iteration: u32, timestamp: &str) -> (name: String)
    ensures
        name@ == screenshot_file_name_spec(iteration as nat, timestamp@),
{
    let mut name = String::new();
    push_padded_decimal(&mut name, iteration as u64, 3);
    name.append("_");
    name.append(timestamp);
    name.append(".png");
    name
}

} // verus!
