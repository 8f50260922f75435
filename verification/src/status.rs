//! What a run publishes about itself: the flags and counters that the
//! controller's thread writes and an observer reads, and the status that a
//! display shows.
//!
//! The values here are plain data. Where two threads share them, the owner
//! puts them behind a lock of its own.

use vstd::prelude::*;
use std::time::{Duration, Instant};
use crate::text::{decimal_text, padded_decimal_text, push_decimal, push_padded_decimal};

verus! {

/// The number of iterations of a run where none is asked for.
pub const DEFAULT_ITERATIONS: u32 = 10;

/// The number of iterations that a display offers at first.
pub const DEFAULT_GUI_ITERATIONS: u32 = 100;

/// The flags and counters of the current run.
#[derive(Debug, Clone, PartialEq)]
pub struct RunStatus {
    /// A run is under way.
    pub running: bool,
    /// The operator asked for the run to stop.
    pub abort_requested: bool,
    /// The iteration that the controller is at.
    pub current_iteration: u32,
    /// The number of iterations of the run.
    pub total_iterations: u32,
    /// What the controller is doing, in words.
    pub state_description: String,
    /// Where the run stores what it produces.
    pub session_path: Option<String>,
}

/// Why a run cannot start.
#[derive(Debug, Clone, Copy, PartialEq, Eq, Structural)]
pub enum StartError {
    /// A run is under way already.
    AlreadyRunning,
}

impl RunStatus {
    /// The status before any run.
    pub fn new() -> (s: RunStatus)
        ensures
            !s.running,
            !s.abort_requested,
            s.current_iteration == 0,
            s.total_iterations == 0,
            s.state_description@ == Seq::<char>::empty(),
            s.session_path is None,
    {
        RunStatus {
            running: false,
            abort_requested: false,
            current_iteration: 0,
            total_iterations: 0,
            state_description: String::new(),
            session_path: None,
        }
    }
}

/// Whether a run is under way.
pub fn is_automation_running(status: &RunStatus) -> (b: bool)
    ensures
        b == status.running,
{
    status.running
}

/// The iteration that the controller is at.
pub fn get_current_iteration(status: &RunStatus) -> (n: u32)
    ensures
        n == status.current_iteration,
{
    status.current_iteration
}

/// The number of iterations of the run.
pub fn get_total_iterations(status: &RunStatus) -> (n: u32)
    ensures
        n == status.total_iterations,
{
    status.total_iterations
}

/// What the controller is doing, in words.
pub fn get_current_state_description(status: &RunStatus) -> (s: String)
    ensures
        s@ == status.state_description@,
{
    status.state_description.clone()
}

/// Records what the controller is doing.
pub fn update_state_description(status: &mut RunStatus, desc: &str)
    ensures
        final(status).state_description@ == desc@,
        final(status).running == old(status).running,
        final(status).abort_requested == old(status).abort_requested,
        final(status).current_iteration == old(status).current_iteration,
        final(status).total_iterations == old(status).total_iterations,
        final(status).session_path == old(status).session_path,
{
    status.state_description = String::from_str(desc);
}

/// Where the run stores what it produces, once that is known.
pub fn get_current_session_path(status: &RunStatus) -> (p: Option<String>)
    ensures
        p is Some == status.session_path is Some,
        p matches Some(path) ==> path@ == status.session_path->0@,
{
    match &status.session_path {
        Some(path) => Some(path.clone()),
        None => None,
    }
}

/// Records where the run stores what it produces.
pub fn set_current_session_path(status: &mut RunStatus, path: String)
    ensures
        final(status).session_path == Some(path),
        final(status).running == old(status).running,
        final(status).abort_requested == old(status).abort_requested,
        final(status).current_iteration == old(status).current_iteration,
        final(status).total_iterations == old(status).total_iterations,
        final(status).state_description == old(status).state_description,
{
    status.session_path = Some(path);
}

/// Records the iteration that the controller is at.
pub fn set_current_iteration(status: &mut RunStatus, iteration: u32)
    ensures
        final(status).current_iteration == iteration,
        final(status).running == old(status).running,
        final(status).abort_requested == old(status).abort_requested,
        final(status).total_iterations == old(status).total_iterations,
        final(status).state_description == old(status).state_description,
        final(status).session_path == old(status).session_path,
{
    status.current_iteration = iteration;
}

/// Clears the request to stop. Nothing else changes.
pub fn reset_abort_flag(status: &mut RunStatus)
    ensures
        !final(status).abort_requested,
        final(status).running == old(status).running,
        final(status).current_iteration == old(status).current_iteration,
        final(status).total_iterations == old(status).total_iterations,
        final(status).state_description == old(status).state_description,
        final(status).session_path == old(status).session_path,
{
    status.abort_requested = false;
}

/// Asks the run to stop. Nothing else changes.
pub fn request_abort(status: &mut RunStatus)
    ensures
        final(status).abort_requested,
        final(status).running == old(status).running,
        final(status).current_iteration == old(status).current_iteration,
        final(status).total_iterations == old(status).total_iterations,
        final(status).state_description == old(status).state_description,
        final(status).session_path == old(status).session_path,
{
    status.abort_requested = true;
}

/// Claims the run: refuses where one is under way, and else marks the run
/// as under way, clears the request to stop and returns the number of
/// iterations to run, [`DEFAULT_ITERATIONS`] where none is asked for.
pub fn start_automation(status: &mut RunStatus, max_iterations: Option<u32>) -> (r: Result<
    u32,
    StartError,
>)
    ensures
        old(status).running ==> r == Err::<u32, StartError>(StartError::AlreadyRunning)
            && *final(status) == *old(status),
        !old(status).running ==> r == Ok::<u32, StartError>(
            match max_iterations {
                Some(n) => n,
                None => DEFAULT_ITERATIONS,
            },
        ) && final(status).running && !final(status).abort_requested,
        final(status).current_iteration == old(status).current_iteration,
        final(status).total_iterations == old(status).total_iterations,
        final(status).state_description == old(status).state_description,
        final(status).session_path == old(status).session_path,
{
    if status.running {
        return Err(StartError::AlreadyRunning);
    }
    status.running = true;
    status.abort_requested = false;
    match max_iterations {
        Some(n) => Ok(n),
        None => Ok(DEFAULT_ITERATIONS),
    }
}

/// Publishes the counters of a run that is about to begin: no iteration
/// done, `iterations` to do.
pub fn publish_run_start(status: &mut RunStatus, iterations: u32, description: &str)
    ensures
        final(status).current_iteration == 0,
        final(status).total_iterations == iterations,
        final(status).state_description@ == description@,
        final(status).running == old(status).running,
        final(status).abort_requested == old(status).abort_requested,
        final(status).session_path == old(status).session_path,
{
    status.current_iteration = 0;
    status.total_iterations = iterations;
    status.state_description = String::from_str(description);
}

/// Marks the run as over. Nothing else changes.
pub fn finish_automation(status: &mut RunStatus)
    ensures
        !final(status).running,
        final(status).abort_requested == old(status).abort_requested,
        final(status).current_iteration == old(status).current_iteration,
        final(status).total_iterations == old(status).total_iterations,
        final(status).state_description == old(status).state_description,
        final(status).session_path == old(status).session_path,
{
    status.running = false;
}

/// `std::time::Instant`, a point in time. Nothing is known of what is
/// inside it.
#[verifier::external_type_specification]
#[verifier::external_body]
pub struct ExInstant(std::time::Instant);

/// `Instant` is a plain value that can be copied: the clone of a point in
/// time is that point in time.
pub assume_specification[ <std::time::Instant as Clone>::clone ](t: &Instant) -> (copy: Instant)
    ensures
        copy == *t,
;

/// `std::time::Instant::elapsed` reads the clock and gives the time that
/// has passed since the instant. Nothing is promised of it: it depends on
/// when the call is made.
pub assume_specification[ std::time::Instant::elapsed ](start: &Instant) -> (passed: Duration);

/// `std::time::Duration::as_secs` gives the whole seconds of a duration.
/// Nothing more is needed of it here.
pub assume_specification[ std::time::Duration::as_secs ](duration: &Duration) -> (seconds: u64);

/// The status of the automation as a display shows it.
#[derive(Debug, Clone, PartialEq)]
pub enum AutomationStatus {
    /// Not running, ready to start.
    Idle,
    /// A run is under way.
    Running { current: u32, total: u32, state_description: String, start_time: Instant },
    /// The run went through.
    Completed { total: u32, session_path: String },
    /// The operator stopped the run.
    Aborted,
    /// The run failed.
    Error(String),
}

/// A span of `seconds` as minutes and seconds, each in at least two digits.
pub open spec fn clock_text(seconds: nat) -> Seq<char> {
    padded_decimal_text(seconds / 60, 2) + ":"@ + padded_decimal_text(seconds % 60, 2)
}

/// A span of `seconds` as minutes and seconds, each in at least two digits.
pub fn format_elapsed(seconds: u64) -> (s: String)
    ensures
        s@ == clock_text(seconds as nat),
{
    let mut s = String::new();
    push_padded_decimal(&mut s, seconds / 60, 2);
    s.append(":");
    push_padded_decimal(&mut s, seconds % 60, 2);
    s
}

impl AutomationStatus {
    /// The text shown for the status.
    pub open spec fn status_text_spec(&self) -> Seq<char> {
        match self {
            AutomationStatus::Idle => "待機中"@,
            AutomationStatus::Running { current, total, state_description, .. } => "実行中 ("@
                + decimal_text(*current as nat) + "/"@ + decimal_text(*total as nat) + ") - "@
                + state_description@,
            AutomationStatus::Completed { total, .. } => "完了 ("@ + decimal_text(*total as nat)
                + "回)"@,
            AutomationStatus::Aborted => "中断"@,
            AutomationStatus::Error(reason) => "エラー: "@ + reason@,
        }
    }

    /// The text shown for the status.
    pub fn status_text(&self) -> (s: String)
        ensures
            s@ == self.status_text_spec(),
    {
        match self {
            AutomationStatus::Idle => String::from_str("待機中"),
            AutomationStatus::Running { current, total, state_description, .. } => {
                let mut s = String::from_str("実行中 (");
                push_decimal(&mut s, *current as u64);
                s.append("/");
                push_decimal(&mut s, *total as u64);
                s.append(") - ");
                s.append(state_description.as_str());
                s
            },
            AutomationStatus::Completed { total, .. } => {
                let mut s = String::from_str("完了 (");
                push_decimal(&mut s, *total as u64);
                s.append("回)");
                s
            },
            AutomationStatus::Aborted => String::from_str("中断"),
            AutomationStatus::Error(reason) => {
                let mut s = String::from_str("エラー: ");
                s.append(reason.as_str());
                s
            },
        }
    }

    /// The time that the run has taken so far, while it is under way. The
    /// text is that of [`format_elapsed`] for the seconds that the clock
    /// gives.
    pub fn elapsed_text(&self) -> (r: Option<String>)
        ensures
            r is Some <==> self is Running,
            r matches Some(s) ==> exists|seconds: u64| s@ == clock_text(seconds as nat),
    {
        match self {
            AutomationStatus::Running { start_time, .. } => {
                let passed = start_time.elapsed();
                Some(format_elapsed(passed.as_secs()))
            },
            _ => None,
        }
    }

    /// Whether a run is under way.
    pub fn is_running(&self) -> (b: bool)
        ensures
            b == self is Running,
    {
        match self {
            AutomationStatus::Running { .. } => true,
            _ => false,
        }
    }

    /// The part of the run that is done, in thousandths: the share of
    /// iterations while running, but no more than all; all of it once
    /// completed; else nothing.
    pub open spec fn progress_spec(&self) -> int {
        match self {
            AutomationStatus::Running { current, total, .. } => if *total == 0 {
                0
            } else if *current >= *total {
                1000
            } else {
                *current as int * 1000 / *total as int
            },
            AutomationStatus::Completed { .. } => 1000,
            _ => 0,
        }
    }

    /// The part of the run that is done, in thousandths.
    pub fn progress(&self) -> (p: u32)
        ensures
            p == self.progress_spec(),
            p <= 1000,
    {
        match self {
            AutomationStatus::Running { current, total, .. } => {
                if *total == 0 {
                    0
                } else if *current >= *total {
                    1000
                } else {
                    let scaled: u64 = *current as u64 * 1000;
                    let share: u64 = scaled / *total as u64;
                    assert(share <= 1000) by (nonlinear_arith)
                        requires
                            share == scaled / (*total as u64),
                            scaled == *current * 1000,
                            *current < *total,
                            *total > 0,
                    ;
                    share as u32
                }
            },
            AutomationStatus::Completed { .. } => 1000,
            _ => 0,
        }
    }
}

impl Default for AutomationStatus {
    fn default() -> (s: AutomationStatus)
        ensures
            s is Idle,
    {
        AutomationStatus::Idle
    }
}

/// What a display keeps between frames.
#[derive(Debug, Clone, PartialEq)]
pub struct GuiState {
    /// The number of iterations that the operator entered.
    pub iterations: u32,
    /// The status of the automation.
    pub status: AutomationStatus,
    /// Where the latest run stored what it produced.
    pub latest_session_path: Option<String>,
    /// When the current run began.
    pub automation_start_time: Option<Instant>,
}

impl Default for GuiState {
    fn default() -> (s: GuiState)
        ensures
            s.iterations == DEFAULT_GUI_ITERATIONS,
            s.status is Idle,
            s.latest_session_path is None,
            s.automation_start_time is None,
    {
        GuiState {
            iterations: DEFAULT_GUI_ITERATIONS,
            status: AutomationStatus::Idle,
            latest_session_path: None,
            automation_start_time: None,
        }
    }
}

/// What a display sees of the run when it looks.
#[derive(Debug, Clone, PartialEq)]
pub struct RunObservation {
    /// A run is under way.
    pub is_running: bool,
    /// The operator asked for the run to stop.
    pub is_aborted: bool,
    /// The iteration that the controller is at.
    pub current: u32,
    /// What the controller is doing, in words.
    pub state_description: String,
    /// Where the run stores what it produces.
    pub session_path: String,
    /// The time of the look.
    pub now: Instant,
}

/// The description shown while a run is being set up.
pub open spec fn starting_description() -> Seq<char> {
    "開始中..."@
}

/// Whether `after` is the display's state once it has looked at the run,
/// and `completed` tells that the run has just gone through.
///
/// A status of running follows the run: while the run goes on, the
/// iteration and the description are taken over; once it is over, the
/// status becomes aborted if the operator asked for that, and completed
/// otherwise, and the place of the session is kept. Any other status turns
/// to running, from the start, when a run is found under way.
pub open spec fn status_follows(
    before: GuiState,
    seen: RunObservation,
    after: GuiState,
    completed: bool,
) -> bool {
    &&& after.iterations == before.iterations
    &&& after.automation_start_time == before.automation_start_time
    &&& match before.status {
        AutomationStatus::Running { total, start_time, .. } => if seen.is_running {
            &&& !completed
            &&& after.latest_session_path == before.latest_session_path
            &&& after.status matches AutomationStatus::Running {
                current: c,
                total: t,
                state_description: d,
                start_time: at,
            }
            &&& c == seen.current
            &&& t == total
            &&& d@ == seen.state_description@
            &&& at == start_time
        } else {
            &&& after.latest_session_path matches Some(kept)
            &&& kept@ == seen.session_path@
            &&& completed == !seen.is_aborted
            &&& if seen.is_aborted {
                after.status is Aborted
            } else {
                &&& after.status matches AutomationStatus::Completed { total: t, session_path: p }
                &&& t == total
                &&& p@ == seen.session_path@
            }
        },
        _ => {
            &&& !completed
            &&& after.latest_session_path == before.latest_session_path
            &&& if seen.is_running {
                &&& after.status matches AutomationStatus::Running {
                    current: c,
                    total: t,
                    state_description: d,
                    start_time: at,
                }
                &&& c == 0
                &&& t == before.iterations
                &&& d@ == starting_description()
                &&& at == seen.now
            } else {
                after.status == before.status
            }
        },
    }
}

/// Brings the display's state up to date with the run. Returns whether the
/// run has just gone through, which is when its results are worked up.
pub fn update_automation_status(state: &mut GuiState, seen: RunObservation) -> (completed: bool)
    ensures
        status_follows(*old(state), seen, *final(state), completed),
{
    let followed: Option<(u32, Instant)> = match &state.status {
        AutomationStatus::Running { total, start_time, .. } => Some((*total, start_time.clone())),
        _ => None,
    };
    match followed {
        Some((total, start_time)) => {
            if seen.is_running {
                state.status = AutomationStatus::Running {
                    current: seen.current,
                    total,
                    state_description: seen.state_description,
                    start_time,
                };
                false
            } else {
                state.latest_session_path = Some(seen.session_path.clone());
                if seen.is_aborted {
                    state.status = AutomationStatus::Aborted;
                    false
                } else {
                    state.status = AutomationStatus::Completed {
                        total,
                        session_path: seen.session_path,
                    };
                    true
                }
            }
        },
        None => {
            if seen.is_running {
                state.status = AutomationStatus::Running {
                    current: 0,
                    total: state.iterations,
                    state_description: String::from_str("開始中..."),
                    start_time: seen.now,
                };
            }
            false
        },
    }
}

/// Whether `after` is the display's state once a start of the automation
/// was tried at the time `now`. A start that went well shows a run from the
/// beginning and keeps the place of the session; one that failed shows the
/// reason.
pub open spec fn start_recorded(
    before: GuiState,
    session_path: Option<String>,
    failure: Option<String>,
    now: Instant,
    after: GuiState,
) -> bool {
    &&& after.iterations == before.iterations
    &&& match failure {
        Some(reason) => {
            &&& after.status matches AutomationStatus::Error(shown)
            &&& shown@ == reason@
            &&& after.latest_session_path == before.latest_session_path
            &&& after.automation_start_time == before.automation_start_time
        },
        None => {
            &&& after.latest_session_path == session_path
            &&& after.automation_start_time == Some(now)
            &&& after.status matches AutomationStatus::Running {
                current: c,
                total: t,
                state_description: d,
                start_time: at,
            }
            &&& c == 0
            &&& t == before.iterations
            &&& d@ == starting_description()
            &&& at == now
        },
    }
}

/// Records in the display's state how a start of the automation went:
/// `failure` is the reason where it failed, `session_path` the place of the
/// session where it went well.
pub fn record_start(
    state: &mut GuiState,
    session_path: Option<String>,
    failure: Option<String>,
    now: Instant,
)
    ensures
        start_recorded(*old(state), session_path, failure, now, *final(state)),
{
    match failure {
        Some(reason) => {
            state.status = AutomationStatus::Error(reason);
        },
        None => {
            state.latest_session_path = session_path;
            state.status = AutomationStatus::Running {
                current: 0,
                total: state.iterations,
                state_description: String::from_str("開始中..."),
                start_time: now.clone(),
            };
            state.automation_start_time = Some(now);
        },
    }
}

} // verus!
