//! The calibration wizard: the steps through which an operator records the
//! positions of buttons and regions, and what each hotkey does at each step.
//! Reading the cursor, showing previews and saving are the owner's work.

use vstd::prelude::*;
use crate::text::{decimal_text, push_decimal};

verus! {

/// The number of stages, and of characters in a stage.
pub const GRID_SIDE: usize = 3;

pub const HOTKEY_CAL_F1: i32 = 100;

pub const HOTKEY_CAL_F2: i32 = 101;

pub const HOTKEY_CAL_F3: i32 = 102;

pub const HOTKEY_CAL_Y: i32 = 103;

pub const HOTKEY_CAL_N: i32 = 104;

pub const HOTKEY_CAL_ESCAPE: i32 = 105;

pub const HOTKEY_CAL_ENTER: i32 = 106;

/// The steps of the wizard. Stages and characters are counted from 0.
#[derive(Debug, Clone, Copy, PartialEq, Eq, Structural)]
pub enum CalibrationStep {
    /// Record the Start button.
    StartButton,
    /// Record the Skip button.
    SkipButton,
    /// Record the top-left corner of the region around the Skip button.
    SkipButtonRegionTopLeft,
    /// Record the bottom-right corner of the region around the Skip button.
    SkipButtonRegionBottomRight,
    /// Record the top-left corner of a score region.
    ScoreRegionTopLeft { stage: usize, character: usize },
    /// Record the bottom-right corner of a score region.
    ScoreRegionBottomRight { stage: usize, character: usize },
    /// Record the top-left corner of the region of a stage's total.
    StageTotalRegionTopLeft { stage: usize },
    /// Record the bottom-right corner of the region of a stage's total.
    StageTotalRegionBottomRight { stage: usize },
    /// Everything is recorded.
    Complete,
}

/// The item that a preview marks.
#[derive(Debug, Clone, Copy, PartialEq, Eq, Structural)]
pub enum HighlightedItem {
    StartButton,
    SkipButton,
    SkipButtonRegion,
    ScoreRegion { stage: usize, character: usize },
    StageTotalRegion { stage: usize },
}

impl CalibrationStep {
    /// Stages and characters lie within the grid.
    pub open spec fn wf(self) -> bool {
        match self {
            CalibrationStep::ScoreRegionTopLeft { stage, character }
            | CalibrationStep::ScoreRegionBottomRight { stage, character } => stage < GRID_SIDE
                && character < GRID_SIDE,
            CalibrationStep::StageTotalRegionTopLeft { stage }
            | CalibrationStep::StageTotalRegionBottomRight { stage } => stage < GRID_SIDE,
            _ => true,
        }
    }

    /// The name of a score region: the stage and the character, counted
    /// from 1.
    pub open spec fn score_region_name(stage: nat, character: nat) -> Seq<char> {
        "Score Region S"@ + decimal_text(stage + 1) + "C"@ + decimal_text(character + 1)
    }

    /// The name of the region of a stage's total.
    pub open spec fn total_region_name(stage: nat) -> Seq<char> {
        "Stage "@ + decimal_text(stage + 1) + " Total Region"@
    }

    /// The description of a step for the operator.
    pub open spec fn description_spec(self) -> Seq<char> {
        match self {
            CalibrationStep::StartButton => "Start Button (開始する)"@,
            CalibrationStep::SkipButton => "Skip Button (スキップ)"@,
            CalibrationStep::SkipButtonRegionTopLeft => "Skip Button Region - TOP-LEFT corner"@,
            CalibrationStep::SkipButtonRegionBottomRight =>
                "Skip Button Region - BOTTOM-RIGHT corner"@,
            CalibrationStep::ScoreRegionTopLeft { stage, character } => Self::score_region_name(
                stage as nat,
                character as nat,
            ) + " - TOP-LEFT corner"@,
            CalibrationStep::ScoreRegionBottomRight { stage, character } => Self::score_region_name(
                stage as nat,
                character as nat,
            ) + " - BOTTOM-RIGHT corner"@,
            CalibrationStep::StageTotalRegionTopLeft { stage } => Self::total_region_name(
                stage as nat,
            ) + " - TOP-LEFT corner"@,
            CalibrationStep::StageTotalRegionBottomRight { stage } => Self::total_region_name(
                stage as nat,
            ) + " - BOTTOM-RIGHT corner"@,
            CalibrationStep::Complete => "Complete"@,
        }
    }

    /// The place of a step in the wizard, counted from 1. `Complete` comes
    /// after the last step.
    pub open spec fn step_number_spec(self) -> nat {
        match self {
            CalibrationStep::StartButton => 1,
            CalibrationStep::SkipButton => 2,
            CalibrationStep::SkipButtonRegionTopLeft => 3,
            CalibrationStep::SkipButtonRegionBottomRight => 4,
            CalibrationStep::ScoreRegionTopLeft { stage, character } => (5 + (stage * 3
                + character) * 2) as nat,
            CalibrationStep::ScoreRegionBottomRight { stage, character } => (6 + (stage * 3
                + character) * 2) as nat,
            CalibrationStep::StageTotalRegionTopLeft { stage } => (23 + stage * 2) as nat,
            CalibrationStep::StageTotalRegionBottomRight { stage } => (24 + stage * 2) as nat,
            CalibrationStep::Complete => 29,
        }
    }

    /// A step at which a single point is recorded.
    pub open spec fn is_point_step(self) -> bool {
        self is StartButton || self is SkipButton
    }

    /// A step at which the top-left corner of a region is recorded.
    pub open spec fn is_top_left_step(self) -> bool {
        self is SkipButtonRegionTopLeft || self is ScoreRegionTopLeft
            || self is StageTotalRegionTopLeft
    }

    /// A step at which the bottom-right corner of a region is recorded.
    pub open spec fn is_bottom_right_step(self) -> bool {
        self is SkipButtonRegionBottomRight || self is ScoreRegionBottomRight
            || self is StageTotalRegionBottomRight
    }

    /// The first step of the item after the one that `self` belongs to.
    pub open spec fn next_item(self) -> CalibrationStep {
        match self {
            CalibrationStep::StartButton => CalibrationStep::SkipButton,
            CalibrationStep::SkipButton => CalibrationStep::SkipButtonRegionTopLeft,
            CalibrationStep::SkipButtonRegionTopLeft
            | CalibrationStep::SkipButtonRegionBottomRight => CalibrationStep::ScoreRegionTopLeft {
                stage: 0,
                character: 0,
            },
            CalibrationStep::ScoreRegionTopLeft { stage, character }
            | CalibrationStep::ScoreRegionBottomRight { stage, character } => if character < 2 {
                CalibrationStep::ScoreRegionTopLeft { stage, character: (character + 1) as usize }
            } else if stage < 2 {
                CalibrationStep::ScoreRegionTopLeft { stage: (stage + 1) as usize, character: 0 }
            } else {
                CalibrationStep::StageTotalRegionTopLeft { stage: 0 }
            },
            CalibrationStep::StageTotalRegionTopLeft { stage }
            | CalibrationStep::StageTotalRegionBottomRight { stage } => if stage < 2 {
                CalibrationStep::StageTotalRegionTopLeft { stage: (stage + 1) as usize }
            } else {
                CalibrationStep::Complete
            },
            CalibrationStep::Complete => CalibrationStep::Complete,
        }
    }

    /// The step after a confirmed one. Only what has been recorded can be
    /// confirmed: at the top-left corner of a region nothing changes.
    pub open spec fn confirmed_spec(self) -> CalibrationStep {
        if self.is_top_left_step() {
            self
        } else {
            self.next_item()
        }
    }

    /// The first step of the item that `self` belongs to.
    pub open spec fn rewound_spec(self) -> CalibrationStep {
        match self {
            CalibrationStep::SkipButtonRegionBottomRight => CalibrationStep::SkipButtonRegionTopLeft,
            CalibrationStep::ScoreRegionBottomRight { stage, character } =>
                CalibrationStep::ScoreRegionTopLeft { stage, character },
            CalibrationStep::StageTotalRegionBottomRight { stage } =>
                CalibrationStep::StageTotalRegionTopLeft { stage },
            other => other,
        }
    }

    /// The step at which the opposite corner of the same region is
    /// recorded.
    pub open spec fn bottom_right_spec(self) -> CalibrationStep {
        match self {
            CalibrationStep::SkipButtonRegionTopLeft => CalibrationStep::SkipButtonRegionBottomRight,
            CalibrationStep::ScoreRegionTopLeft { stage, character } =>
                CalibrationStep::ScoreRegionBottomRight { stage, character },
            CalibrationStep::StageTotalRegionTopLeft { stage } =>
                CalibrationStep::StageTotalRegionBottomRight { stage },
            other => other,
        }
    }

    /// The item that the preview of a step marks, once something has been
    /// recorded at it.
    pub open spec fn highlight_spec(self) -> Option<HighlightedItem> {
        match self {
            CalibrationStep::StartButton => Some(HighlightedItem::StartButton),
            CalibrationStep::SkipButton => Some(HighlightedItem::SkipButton),
            CalibrationStep::SkipButtonRegionBottomRight => Some(HighlightedItem::SkipButtonRegion),
            CalibrationStep::ScoreRegionBottomRight { stage, character } => Some(
                HighlightedItem::ScoreRegion { stage, character },
            ),
            CalibrationStep::StageTotalRegionBottomRight { stage } => Some(
                HighlightedItem::StageTotalRegion { stage },
            ),
            _ => None,
        }
    }

    /// The description of the step for the operator.
    pub fn description(&self) -> (s: String)
        requires
            self.wf(),
        ensures
            s@ == self.description_spec(),
    {
        match self {
            CalibrationStep::StartButton => String::from_str("Start Button (開始する)"),
            CalibrationStep::SkipButton => String::from_str("Skip Button (スキップ)"),
            CalibrationStep::SkipButtonRegionTopLeft => String::from_str(
                "Skip Button Region - TOP-LEFT corner",
            ),
            CalibrationStep::SkipButtonRegionBottomRight => String::from_str(
                "Skip Button Region - BOTTOM-RIGHT corner",
            ),
            CalibrationStep::ScoreRegionTopLeft { stage, character } => {
                let mut s = String::from_str("Score Region S");
                push_decimal(&mut s, (*stage + 1) as u64);
                s.append("C");
                push_decimal(&mut s, (*character + 1) as u64);
                s.append(" - TOP-LEFT corner");
                s
            },
            CalibrationStep::ScoreRegionBottomRight { stage, character } => {
                let mut s = String::from_str("Score Region S");
                push_decimal(&mut s, (*stage + 1) as u64);
                s.append("C");
                push_decimal(&mut s, (*character + 1) as u64);
                s.append(" - BOTTOM-RIGHT corner");
                s
            },
            CalibrationStep::StageTotalRegionTopLeft { stage } => {
                let mut s = String::from_str("Stage ");
                push_decimal(&mut s, (*stage + 1) as u64);
                s.append(" Total Region");
                s.append(" - TOP-LEFT corner");
                s
            },
            CalibrationStep::StageTotalRegionBottomRight { stage } => {
                let mut s = String::from_str("Stage ");
                push_decimal(&mut s, (*stage + 1) as u64);
                s.append(" Total Region");
                s.append(" - BOTTOM-RIGHT corner");
                s
            },
            CalibrationStep::Complete => String::from_str("Complete"),
        }
    }

    /// The place of the step in the wizard, counted from 1.
    pub fn step_number(&self) -> (n: usize)
        requires
            self.wf(),
        ensures
            n == self.step_number_spec(),
            1 <= n <= 29,
            n == 29 <==> *self is Complete,
    {
        match self {
            CalibrationStep::StartButton => 1,
            CalibrationStep::SkipButton => 2,
            CalibrationStep::SkipButtonRegionTopLeft => 3,
            CalibrationStep::SkipButtonRegionBottomRight => 4,
            CalibrationStep::ScoreRegionTopLeft { stage, character } => 5 + (*stage * 3
                + *character) * 2,
            CalibrationStep::ScoreRegionBottomRight { stage, character } => 6 + (*stage * 3
                + *character) * 2,
            CalibrationStep::StageTotalRegionTopLeft { stage } => 23 + *stage * 2,
            CalibrationStep::StageTotalRegionBottomRight { stage } => 24 + *stage * 2,
            CalibrationStep::Complete => 29,
        }
    }

    /// The number of steps of the wizard: two buttons, and two corners each
    /// for the region of the Skip button, nine score regions and three
    /// regions of totals.
    pub fn total_steps() -> (n: usize)
        ensures
            n == 28,
    {
        28
    }

    /// The first step of the item after the one that the step belongs to.
    fn following_item(&self) -> (next: CalibrationStep)
        requires
            self.wf(),
        ensures
            next == self.next_item(),
            next.wf(),
    {
        match self {
            CalibrationStep::StartButton => CalibrationStep::SkipButton,
            CalibrationStep::SkipButton => CalibrationStep::SkipButtonRegionTopLeft,
            CalibrationStep::SkipButtonRegionTopLeft
            | CalibrationStep::SkipButtonRegionBottomRight => CalibrationStep::ScoreRegionTopLeft {
                stage: 0,
                character: 0,
            },
            CalibrationStep::ScoreRegionTopLeft { stage, character }
            | CalibrationStep::ScoreRegionBottomRight { stage, character } => {
                if *character < 2 {
                    CalibrationStep::ScoreRegionTopLeft { stage: *stage, character: *character + 1 }
                } else if *stage < 2 {
                    CalibrationStep::ScoreRegionTopLeft { stage: *stage + 1, character: 0 }
                } else {
                    CalibrationStep::StageTotalRegionTopLeft { stage: 0 }
                }
            },
            CalibrationStep::StageTotalRegionTopLeft { stage }
            | CalibrationStep::StageTotalRegionBottomRight { stage } => {
                if *stage < 2 {
                    CalibrationStep::StageTotalRegionTopLeft { stage: *stage + 1 }
                } else {
                    CalibrationStep::Complete
                }
            },
            CalibrationStep::Complete => CalibrationStep::Complete,
        }
    }

    /// Whether the top-left corner of a region is recorded at the step.
    pub fn expects_top_left(&self) -> (b: bool)
        ensures
            b == self.is_top_left_step(),
    {
        match self {
            CalibrationStep::SkipButtonRegionTopLeft
            | CalibrationStep::ScoreRegionTopLeft { .. }
            | CalibrationStep::StageTotalRegionTopLeft { .. } => true,
            _ => false,
        }
    }

    /// Whether the bottom-right corner of a region is recorded at the step.
    pub fn expects_bottom_right(&self) -> (b: bool)
        ensures
            b == self.is_bottom_right_step(),
    {
        match self {
            CalibrationStep::SkipButtonRegionBottomRight
            | CalibrationStep::ScoreRegionBottomRight { .. }
            | CalibrationStep::StageTotalRegionBottomRight { .. } => true,
            _ => false,
        }
    }

    /// Whether a single point is recorded at the step.
    pub fn expects_point(&self) -> (b: bool)
        ensures
            b == self.is_point_step(),
    {
        match self {
            CalibrationStep::StartButton | CalibrationStep::SkipButton => true,
            _ => false,
        }
    }

    /// The item that the preview of the step marks.
    pub fn highlight(&self) -> (h: Option<HighlightedItem>)
        ensures
            h == self.highlight_spec(),
    {
        match self {
            CalibrationStep::StartButton => Some(HighlightedItem::StartButton),
            CalibrationStep::SkipButton => Some(HighlightedItem::SkipButton),
            CalibrationStep::SkipButtonRegionBottomRight => Some(HighlightedItem::SkipButtonRegion),
            CalibrationStep::ScoreRegionBottomRight { stage, character } => Some(
                HighlightedItem::ScoreRegion { stage: *stage, character: *character },
            ),
            CalibrationStep::StageTotalRegionBottomRight { stage } => Some(
                HighlightedItem::StageTotalRegion { stage: *stage },
            ),
            _ => None,
        }
    }
}

/// The step after a confirmed one.
pub fn advance_to_next_step(step: &CalibrationStep) -> (next: CalibrationStep)
    requires
        step.wf(),
    ensures
        next == step.confirmed_spec(),
        next.wf(),
        !step.is_top_left_step() && !(*step is Complete) ==> next.step_number_spec()
            == step.step_number_spec() + 1,
{
    if step.expects_top_left() {
        *step
    } else {
        step.following_item()
    }
}

/// The first step of the item that `step` belongs to: where the operator
/// starts again after declining what was recorded.
pub fn rewind_to_step_start(step: &CalibrationStep) -> (first: CalibrationStep)
    ensures
        first == step.rewound_spec(),
        step.wf() ==> first.wf(),
        !first.is_bottom_right_step(),
        step.is_bottom_right_step() ==> first.step_number_spec() + 1 == step.step_number_spec(),
        !step.is_bottom_right_step() ==> first == *step,
{
    match step {
        CalibrationStep::SkipButtonRegionBottomRight => CalibrationStep::SkipButtonRegionTopLeft,
        CalibrationStep::ScoreRegionBottomRight { stage, character } =>
            CalibrationStep::ScoreRegionTopLeft { stage: *stage, character: *character },
        CalibrationStep::StageTotalRegionBottomRight { stage } =>
            CalibrationStep::StageTotalRegionTopLeft { stage: *stage },
        other => *other,
    }
}

/// The step after a skipped item: the first step of the next item.
pub fn skip_current_step(step: &CalibrationStep) -> (next: CalibrationStep)
    requires
        step.wf(),
    ensures
        next == step.next_item(),
        next.wf(),
        !next.is_bottom_right_step(),
        !(*step is Complete) ==> next.step_number_spec() > step.step_number_spec(),
{
    step.following_item()
}

/// The wizard while it runs.
#[derive(Debug, Clone, Copy, PartialEq, Eq, Structural)]
pub struct CalibrationSession {
    /// The step that the wizard is at.
    pub current_step: CalibrationStep,
    /// Something was recorded and waits for the operator's yes or no.
    pub awaiting_confirmation: bool,
    /// The top-left corner of a region is recorded, the other is not yet.
    pub pending_top_left: bool,
}

/// The wizard: running or not.
#[derive(Debug, Clone, Copy, PartialEq, Eq, Structural)]
pub struct Calibration {
    pub session: Option<CalibrationSession>,
}

/// What the owner does after a hotkey.
#[derive(Debug, Clone, Copy, PartialEq, Eq, Structural)]
pub enum HotkeyAction {
    /// Nothing.
    Ignore,
    /// The wizard was left: release the hotkeys.
    Abort,
    /// The wizard moved to another step: show its instructions.
    ShowStep,
    /// Everything is recorded: save it and end the wizard.
    Finish,
    /// Read the cursor for a button, then report with
    /// [`point_recorded`].
    CapturePoint,
    /// Read the cursor for a top-left corner, then report with
    /// [`top_left_recorded`].
    CaptureTopLeft,
    /// Read the cursor for a bottom-right corner, then report with
    /// [`bottom_right_recorded`].
    CaptureBottomRight,
    /// The key records a point, but the step wants a corner.
    WrongKeyForRegion,
    /// The key records a corner that the step does not want.
    WrongKeyForStep,
    /// A bottom-right corner needs its top-left corner first.
    TopLeftMissing,
}

impl Calibration {
    /// The session is at a valid step.
    pub open spec fn wf(self) -> bool {
        self.session matches Some(s) ==> s.current_step.wf()
    }

    /// A wizard that is not running.
    pub fn new() -> (c: Calibration)
        ensures
            c.session is None,
    {
        Calibration { session: None }
    }
}

/// What a hotkey does to a running wizard, and what it asks of the owner.
pub open spec fn hotkey_spec(s: CalibrationSession, hotkey_id: i32) -> (
    Option<CalibrationSession>,
    HotkeyAction,
) {
    if hotkey_id == HOTKEY_CAL_ESCAPE {
        (None, HotkeyAction::Abort)
    } else if hotkey_id == HOTKEY_CAL_Y {
        if s.awaiting_confirmation {
            moved(
                CalibrationSession {
                    current_step: s.current_step.confirmed_spec(),
                    awaiting_confirmation: false,
                    pending_top_left: s.pending_top_left,
                },
            )
        } else {
            settled(s, HotkeyAction::Ignore)
        }
    } else if hotkey_id == HOTKEY_CAL_N {
        if s.awaiting_confirmation {
            moved(
                CalibrationSession {
                    current_step: s.current_step.rewound_spec(),
                    awaiting_confirmation: false,
                    pending_top_left: false,
                },
            )
        } else {
            settled(s, HotkeyAction::Ignore)
        }
    } else if s.awaiting_confirmation {
        settled(s, HotkeyAction::Ignore)
    } else if hotkey_id == HOTKEY_CAL_F1 {
        settled(
            s,
            if s.current_step.is_point_step() {
                HotkeyAction::CapturePoint
            } else {
                HotkeyAction::WrongKeyForRegion
            },
        )
    } else if hotkey_id == HOTKEY_CAL_F2 {
        settled(
            s,
            if s.current_step.is_top_left_step() {
                HotkeyAction::CaptureTopLeft
            } else {
                HotkeyAction::WrongKeyForStep
            },
        )
    } else if hotkey_id == HOTKEY_CAL_F3 {
        settled(
            s,
            if !s.current_step.is_bottom_right_step() {
                HotkeyAction::WrongKeyForStep
            } else if !s.pending_top_left {
                HotkeyAction::TopLeftMissing
            } else {
                HotkeyAction::CaptureBottomRight
            },
        )
    } else if hotkey_id == HOTKEY_CAL_ENTER {
        moved(
            CalibrationSession {
                current_step: s.current_step.next_item(),
                awaiting_confirmation: false,
                pending_top_left: false,
            },
        )
    } else {
        settled(s, HotkeyAction::Ignore)
    }
}

/// A session that stays as it is; the wizard ends where it stands at
/// `Complete`.
pub open spec fn settled(s: CalibrationSession, action: HotkeyAction) -> (
    Option<CalibrationSession>,
    HotkeyAction,
) {
    if s.current_step is Complete {
        (Some(s), HotkeyAction::Finish)
    } else {
        (Some(s), action)
    }
}

/// A session that took a new step: its instructions are shown, unless the
/// wizard is through.
pub open spec fn moved(s: CalibrationSession) -> (Option<CalibrationSession>, HotkeyAction) {
    settled(s, HotkeyAction::ShowStep)
}

/// Whether the wizard runs.
pub fn is_calibrating(calibration: &Calibration) -> (b: bool)
    ensures
        b == calibration.session is Some,
{
    calibration.session.is_some()
}

/// Starts the wizard at its first step, unless it runs already. Returns
/// whether it was started.
pub fn start_calibration(calibration: &mut Calibration) -> (started: bool)
    ensures
        started == old(calibration).session is None,
        started ==> final(calibration).session == Some(
            CalibrationSession {
                current_step: CalibrationStep::StartButton,
                awaiting_confirmation: false,
                pending_top_left: false,
            },
        ),
        !started ==> *final(calibration) == *old(calibration),
{
    if calibration.session.is_some() {
        return false;
    }
    calibration.session = Some(
        CalibrationSession {
            current_step: CalibrationStep::StartButton,
            awaiting_confirmation: false,
            pending_top_left: false,
        },
    );
    true
}

/// Ends the wizard. Returns whether it ran, in which case the owner
/// releases the hotkeys.
pub fn stop_calibration(calibration: &mut Calibration) -> (stopped: bool)
    ensures
        stopped == old(calibration).session is Some,
        final(calibration).session is None,
{
    let ran = calibration.session.is_some();
    calibration.session = None;
    ran
}

/// Handles a hotkey of the wizard. Without a running wizard nothing
/// happens.
pub fn handle_calibration_hotkey(calibration: &mut Calibration, hotkey_id: i32) -> (action:
    HotkeyAction)
    requires
        old(calibration).wf(),
    ensures
        final(calibration).wf(),
        match old(calibration).session {
            None => action == HotkeyAction::Ignore && final(calibration).session is None,
            Some(s) => (final(calibration).session, action) == hotkey_spec(s, hotkey_id),
        },
{
    let s = match calibration.session {
        None => {
            return HotkeyAction::Ignore;
        },
        Some(s) => s,
    };
    let mut next = s;
    let mut action = HotkeyAction::Ignore;
    if hotkey_id == HOTKEY_CAL_ESCAPE {
        calibration.session = None;
        return HotkeyAction::Abort;
    } else if hotkey_id == HOTKEY_CAL_Y {
        if s.awaiting_confirmation {
            next.current_step = advance_to_next_step(&s.current_step);
            next.awaiting_confirmation = false;
            action = HotkeyAction::ShowStep;
        }
    } else if hotkey_id == HOTKEY_CAL_N {
        if s.awaiting_confirmation {
            next.current_step = rewind_to_step_start(&s.current_step);
            next.awaiting_confirmation = false;
            next.pending_top_left = false;
            action = HotkeyAction::ShowStep;
        }
    } else if s.awaiting_confirmation {
    } else if hotkey_id == HOTKEY_CAL_F1 {
        action = if s.current_step.expects_point() {
            HotkeyAction::CapturePoint
        } else {
            HotkeyAction::WrongKeyForRegion
        };
    } else if hotkey_id == HOTKEY_CAL_F2 {
        action = if s.current_step.expects_top_left() {
            HotkeyAction::CaptureTopLeft
        } else {
            HotkeyAction::WrongKeyForStep
        };
    } else if hotkey_id == HOTKEY_CAL_F3 {
        action = if !s.current_step.expects_bottom_right() {
            HotkeyAction::WrongKeyForStep
        } else if !s.pending_top_left {
            HotkeyAction::TopLeftMissing
        } else {
            HotkeyAction::CaptureBottomRight
        };
    } else if hotkey_id == HOTKEY_CAL_ENTER {
        next.current_step = skip_current_step(&s.current_step);
        next.awaiting_confirmation = false;
        next.pending_top_left = false;
        action = HotkeyAction::ShowStep;
    }
    calibration.session = Some(next);
    match next.current_step {
        CalibrationStep::Complete => HotkeyAction::Finish,
        _ => action,
    }
}

/// Records that a button's position was taken: the wizard now waits for
/// the operator's yes or no. Elsewhere than at a button nothing changes.
pub fn point_recorded(calibration: &mut Calibration)
    ensures
        match old(calibration).session {
            Some(s) => final(calibration).session == Some(
                if s.current_step.is_point_step() && !s.awaiting_confirmation {
                    CalibrationSession { awaiting_confirmation: true, ..s }
                } else {
                    s
                },
            ),
            None => final(calibration).session is None,
        },
{
    match calibration.session {
        Some(s) => {
            if s.current_step.expects_point() && !s.awaiting_confirmation {
                let mut next = s;
                next.awaiting_confirmation = true;
                calibration.session = Some(next);
            }
        },
        None => {},
    }
}

/// Records that the top-left corner of a region was taken: the wizard
/// moves on to the opposite corner. Elsewhere nothing changes.
pub fn top_left_recorded(calibration: &mut Calibration)
    ensures
        match old(calibration).session {
            Some(s) => final(calibration).session == Some(
                if s.current_step.is_top_left_step() && !s.awaiting_confirmation {
                    CalibrationSession {
                        current_step: s.current_step.bottom_right_spec(),
                        awaiting_confirmation: false,
                        pending_top_left: true,
                    }
                } else {
                    s
                },
            ),
            None => final(calibration).session is None,
        },
{
    match calibration.session {
        Some(s) => {
            if s.current_step.expects_top_left() && !s.awaiting_confirmation {
                let step = match s.current_step {
                    CalibrationStep::SkipButtonRegionTopLeft =>
                        CalibrationStep::SkipButtonRegionBottomRight,
                    CalibrationStep::ScoreRegionTopLeft { stage, character } =>
                        CalibrationStep::ScoreRegionBottomRight { stage, character },
                    CalibrationStep::StageTotalRegionTopLeft { stage } =>
                        CalibrationStep::StageTotalRegionBottomRight { stage },
                    other => other,
                };
                calibration.session = Some(
                    CalibrationSession {
                        current_step: step,
                        awaiting_confirmation: false,
                        pending_top_left: true,
                    },
                );
            }
        },
        None => {},
    }
}

/// Records what came of the bottom-right corner of a region. The pending
/// top-left corner is used up either way. A region that `spans`, with its
/// bottom-right corner below and to the right of the other, waits for the
/// operator's yes or no; one that does not is dropped. Elsewhere than at a
/// bottom-right corner with a pending top-left one, nothing changes.
pub fn bottom_right_recorded(calibration: &mut Calibration, spans: bool)
    ensures
        match old(calibration).session {
            Some(s) => final(calibration).session == Some(
                if s.current_step.is_bottom_right_step() && s.pending_top_left
                    && !s.awaiting_confirmation {
                    CalibrationSession {
                        current_step: s.current_step,
                        awaiting_confirmation: spans,
                        pending_top_left: false,
                    }
                } else {
                    s
                },
            ),
            None => final(calibration).session is None,
        },
{
    match calibration.session {
        Some(s) => {
            if s.current_step.expects_bottom_right() && s.pending_top_left
                && !s.awaiting_confirmation {
                calibration.session = Some(
                    CalibrationSession {
                        current_step: s.current_step,
                        awaiting_confirmation: spans,
                        pending_top_left: false,
                    },
                );
            }
        },
        None => {},
    }
}

/// Every step but the last one is followed by a step with a larger number,
/// and confirming steps one by one reaches `Complete` after the step with
/// the number 28.
pub proof fn lemma_steps_are_in_order(step: CalibrationStep)
    requires
        step.wf(),
    ensures
        step.next_item().wf(),
        1 <= step.step_number_spec() <= 29,
        step.step_number_spec() == 29 <==> step is Complete,
        !(step is Complete) ==> step.next_item().step_number_spec() > step.step_number_spec(),
        step.step_number_spec() == 28 ==> step.confirmed_spec() is Complete,
{
}

} // verus!
