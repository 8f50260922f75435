use gakumas_screenshot::controller::{
    capture_outcome, screenshot_file_name, Action, ActionOutcome, AutomationContext, AutomationState,
    SessionOutcome, StepInput, StepSignal, END_CLICK_SETTLE_MS, FOCUS_SETTLE_MS,
};
use gakumas_screenshot::defaults::{
    default_capture_delay_ms, default_end_button_reference, default_loading_timeout_ms,
    default_ocr_threshold, default_result_timeout_ms, default_skip_button_reference,
    default_start_button_reference,
};

fn ok() -> StepInput {
    StepInput {
        cancel_at_entry: false,
        window_exists: true,
        outcome: ActionOutcome::Succeeded,
        cancel_after_action: false,
    }
}

fn failed(detail: &str, cancel_after_action: bool) -> StepInput {
    StepInput {
        cancel_at_entry: false,
        window_exists: true,
        outcome: ActionOutcome::Failed(detail.to_string()),
        cancel_after_action,
    }
}

fn at(state: AutomationState, current: u32, max: u32) -> AutomationContext {
    AutomationContext {
        state,
        current_iteration: current,
        max_iterations: max,
    }
}

fn all_states() -> Vec<AutomationState> {
    vec![
        AutomationState::Idle,
        AutomationState::WaitingForStartPage,
        AutomationState::ClickingStart,
        AutomationState::WaitingForLoading,
        AutomationState::ClickingSkip,
        AutomationState::WaitingForResult,
        AutomationState::Capturing,
        AutomationState::ClickingEnd,
        AutomationState::CheckingLoop,
        AutomationState::Complete,
        AutomationState::Error("x".to_string()),
        AutomationState::Aborted,
    ]
}

#[test]
fn test_state_display() {
    assert_eq!(AutomationState::Idle.to_string(), "Idle");
    assert_eq!(
        AutomationState::WaitingForLoading.to_string(),
        "Waiting for loading"
    );
    assert_eq!(
        AutomationState::Error("test".to_string()).to_string(),
        "Error: test"
    );
}

#[test]
fn every_state_has_its_text() {
    let texts: Vec<String> = all_states().iter().map(|s| s.to_string()).collect();
    assert_eq!(
        texts,
        vec![
            "Idle",
            "Waiting for start page",
            "Clicking Start",
            "Waiting for loading",
            "Clicking Skip",
            "Waiting for result",
            "Capturing",
            "Clicking End",
            "Checking loop",
            "Complete",
            "Error: x",
            "Aborted",
        ]
    );
}

#[test]
fn a_new_controller_is_idle() {
    let ctx = AutomationContext::new(7);
    assert_eq!(ctx, at(AutomationState::Idle, 1, 7));
    assert_eq!(ctx.action_due(false, true), Action::Nothing);
}

#[test]
fn the_happy_path_runs_the_cycle_and_completes() {
    let mut ctx = AutomationContext::new(2);
    let mut seen = Vec::new();
    let mut actions = Vec::new();
    let mut signal = StepSignal::Continue;
    let mut steps = 0;
    while signal == StepSignal::Continue {
        actions.push(ctx.action_due(false, true));
        signal = ctx.step(&ok());
        seen.push((ctx.state.clone(), ctx.current_iteration));
        steps += 1;
        assert!(steps < 100);
    }
    assert_eq!(signal, StepSignal::StopNormally);
    let cycle = |n: u32| {
        vec![
            (AutomationState::WaitingForStartPage, n),
            (AutomationState::ClickingStart, n),
            (AutomationState::WaitingForLoading, n),
            (AutomationState::ClickingSkip, n),
            (AutomationState::WaitingForResult, n),
            (AutomationState::Capturing, n),
            (AutomationState::ClickingEnd, n),
            (AutomationState::CheckingLoop, n),
        ]
    };
    let mut want = cycle(1);
    want.extend(cycle(2));
    want.push((AutomationState::Complete, 2));
    assert_eq!(seen, want);
    let round = vec![
        Action::WaitForStartPage,
        Action::ClickStart,
        Action::WaitForLoading,
        Action::ClickSkip,
        Action::WaitForResult,
        Action::Capture,
        Action::ClickEnd,
        Action::Nothing,
    ];
    let mut want_actions = vec![Action::Nothing];
    want_actions.extend(round.clone());
    want_actions.extend(round);
    assert_eq!(actions, want_actions);
}

#[test]
fn cancellation_at_entry_always_aborts() {
    for state in all_states() {
        for window_exists in [true, false] {
            for outcome in [
                ActionOutcome::Succeeded,
                ActionOutcome::Failed("boom".to_string()),
                ActionOutcome::SaveFailed("disk".to_string()),
            ] {
                let mut ctx = at(state.clone(), 3, 5);
                assert_eq!(ctx.action_due(true, window_exists), Action::Nothing);
                let signal = ctx.step(&StepInput {
                    cancel_at_entry: true,
                    window_exists,
                    outcome,
                    cancel_after_action: false,
                });
                assert_eq!(ctx, at(AutomationState::Aborted, 3, 5));
                assert_eq!(signal, StepSignal::StopNormally);
            }
        }
    }
}

#[test]
fn a_missing_window_is_an_error_in_every_state() {
    for state in all_states() {
        let mut ctx = at(state, 1, 5);
        assert_eq!(ctx.action_due(false, false), Action::Nothing);
        let mut input = ok();
        input.window_exists = false;
        let signal = ctx.step(&input);
        assert_eq!(
            ctx,
            at(AutomationState::Error("Game window closed".to_string()), 1, 5)
        );
        assert_eq!(signal, StepSignal::StopWithError);
    }
}

#[test]
fn checking_loop_counts_or_completes() {
    let mut ctx = at(AutomationState::CheckingLoop, 5, 5);
    assert_eq!(ctx.step(&ok()), StepSignal::StopNormally);
    assert_eq!(ctx, at(AutomationState::Complete, 5, 5));

    let mut ctx = at(AutomationState::CheckingLoop, 4, 5);
    assert_eq!(ctx.step(&ok()), StepSignal::Continue);
    assert_eq!(ctx, at(AutomationState::WaitingForStartPage, 5, 5));

    let mut ctx = at(AutomationState::CheckingLoop, 0, u32::MAX);
    assert_eq!(ctx.step(&failed("ignored", true)), StepSignal::Continue);
    assert_eq!(ctx, at(AutomationState::WaitingForStartPage, 1, u32::MAX));

    let mut ctx = at(AutomationState::CheckingLoop, 9, 5);
    assert_eq!(ctx.step(&ok()), StepSignal::StopNormally);
    assert_eq!(ctx, at(AutomationState::Complete, 9, 5));

    let mut ctx = at(AutomationState::CheckingLoop, u32::MAX, u32::MAX);
    assert_eq!(ctx.step(&ok()), StepSignal::StopNormally);
    assert_eq!(ctx, at(AutomationState::Complete, u32::MAX, u32::MAX));
}

#[test]
fn a_failed_wait_is_an_error_unless_cancelled_meanwhile() {
    let cases = [
        (AutomationState::WaitingForStartPage, "Start page wait failed: timeout"),
        (AutomationState::WaitingForLoading, "Loading wait failed: timeout"),
        (AutomationState::WaitingForResult, "Result wait failed: timeout"),
    ];
    for (state, reason) in cases {
        let mut ctx = at(state.clone(), 2, 3);
        assert_eq!(ctx.step(&failed("timeout", false)), StepSignal::StopWithError);
        assert_eq!(ctx, at(AutomationState::Error(reason.to_string()), 2, 3));

        let mut ctx = at(state, 2, 3);
        assert_eq!(ctx.step(&failed("timeout", true)), StepSignal::StopNormally);
        assert_eq!(ctx, at(AutomationState::Aborted, 2, 3));
    }
}

#[test]
fn a_failed_click_or_capture_is_always_an_error() {
    let cases = [
        (AutomationState::ClickingStart, "Failed to click Start: no"),
        (AutomationState::ClickingSkip, "Failed to click Skip: no"),
        (AutomationState::ClickingEnd, "Failed to click End: no"),
        (AutomationState::Capturing, "Failed to capture: no"),
    ];
    for (state, reason) in cases {
        for cancel_after in [false, true] {
            let mut ctx = at(state.clone(), 1, 1);
            assert_eq!(ctx.step(&failed("no", cancel_after)), StepSignal::StopWithError);
            assert_eq!(ctx, at(AutomationState::Error(reason.to_string()), 1, 1));
        }
    }
    let mut ctx = at(AutomationState::Capturing, 1, 1);
    let mut input = ok();
    input.outcome = ActionOutcome::SaveFailed("disk full".to_string());
    assert_eq!(ctx.step(&input), StepSignal::StopWithError);
    assert_eq!(
        ctx,
        at(
            AutomationState::Error("Failed to save screenshot: disk full".to_string()),
            1,
            1
        )
    );
}

#[test]
fn terminal_states_stay() {
    for (state, signal) in [
        (AutomationState::Complete, StepSignal::StopNormally),
        (AutomationState::Aborted, StepSignal::StopNormally),
        (AutomationState::Error("why".to_string()), StepSignal::StopWithError),
    ] {
        assert!(state.is_terminal());
        let mut ctx = at(state.clone(), 4, 9);
        assert_eq!(ctx.step(&failed("late", true)), signal);
        assert_eq!(ctx, at(state, 4, 9));
    }
    assert!(!AutomationState::CheckingLoop.is_terminal());
    assert!(AutomationState::WaitingForResult.is_wait());
    assert!(!AutomationState::ClickingEnd.is_wait());
}

#[test]
fn progress_string_follows_the_state() {
    assert_eq!(
        at(AutomationState::Complete, 10, 10).progress_string(),
        "Complete (10 iterations)"
    );
    assert_eq!(
        at(AutomationState::Error("Game window closed".to_string()), 3, 10).progress_string(),
        "Error: Game window closed"
    );
    assert_eq!(at(AutomationState::Aborted, 3, 10).progress_string(), "Aborted");
    assert_eq!(
        at(AutomationState::WaitingForLoading, 3, 10).progress_string(),
        "3/10 - Waiting for loading"
    );
    assert_eq!(at(AutomationState::Idle, 0, 4294967295).progress_string(), "0/4294967295 - Idle");
}

#[test]
fn screenshot_names_carry_the_iteration_in_three_digits() {
    assert_eq!(screenshot_file_name(1, "20260115_100000"), "001_20260115_100000.png");
    assert_eq!(screenshot_file_name(42, "t"), "042_t.png");
    assert_eq!(screenshot_file_name(999, ""), "999_.png");
    assert_eq!(screenshot_file_name(1000, "x"), "1000_x.png");
    assert_eq!(screenshot_file_name(0, "x"), "000_x.png");
    assert_eq!(screenshot_file_name(u32::MAX, "x"), "4294967295_x.png");
}

#[test]
fn pauses_are_as_documented() {
    assert_eq!(END_CLICK_SETTLE_MS, 500);
    assert_eq!(FOCUS_SETTLE_MS, 50);
}

#[test]
fn a_run_has_an_outcome_once_it_is_over() {
    assert_eq!(at(AutomationState::Complete, 3, 3).outcome(), Some(SessionOutcome::Completed));
    assert_eq!(at(AutomationState::Aborted, 1, 3).outcome(), Some(SessionOutcome::Aborted));
    assert_eq!(
        at(AutomationState::Error("Game window closed".to_string()), 1, 3).outcome(),
        Some(SessionOutcome::Error("Game window closed".to_string()))
    );
    for state in all_states() {
        assert_eq!(at(state.clone(), 1, 3).outcome().is_some(), state.is_terminal());
    }
}

#[test]
fn settings_have_their_defaults() {
    assert_eq!(default_ocr_threshold(), 190);
    assert_eq!(default_loading_timeout_ms(), 30000);
    assert_eq!(default_result_timeout_ms(), 30000);
    assert_eq!(default_capture_delay_ms(), 500);
    assert_eq!(
        default_start_button_reference(),
        "resources/template/rehearsal/start_button_ref.png"
    );
    assert_eq!(
        default_skip_button_reference(),
        "resources/template/rehearsal/skip_button_ref.png"
    );
    assert_eq!(default_end_button_reference(), "resources/template/rehearsal/end_button_ref.png");
}

#[test]
fn a_capture_that_cannot_be_queued_still_counts() {
    for queued in [true, false] {
        assert_eq!(capture_outcome(None, None, queued), ActionOutcome::Succeeded);
        assert_eq!(
            capture_outcome(Some("gone".to_string()), None, queued),
            ActionOutcome::Failed("gone".to_string())
        );
        assert_eq!(
            capture_outcome(None, Some("disk".to_string()), queued),
            ActionOutcome::SaveFailed("disk".to_string())
        );
        assert_eq!(
            capture_outcome(Some("gone".to_string()), Some("disk".to_string()), queued),
            ActionOutcome::Failed("gone".to_string())
        );
    }
}

#[test]
fn only_checking_loop_changes_the_count() {
    let mut ctx = AutomationContext::new(4);
    assert_eq!(ctx.step(&ok()), StepSignal::Continue);
    assert_eq!(ctx, at(AutomationState::WaitingForStartPage, 1, 4));
    let mut ctx = at(AutomationState::Idle, 5, 9);
    assert_eq!(ctx.step(&ok()), StepSignal::Continue);
    assert_eq!(ctx, at(AutomationState::WaitingForStartPage, 5, 9));
    for state in all_states() {
        if state == AutomationState::CheckingLoop {
            continue;
        }
        for input in [ok(), failed("no", false), failed("no", true)] {
            for (cancel, window) in [(false, true), (true, true), (false, false)] {
                let mut ctx = at(state.clone(), 3, 8);
                let mut input = input.clone();
                input.cancel_at_entry = cancel;
                input.window_exists = window;
                ctx.step(&input);
                assert_eq!(ctx.current_iteration, 3);
                assert_eq!(ctx.max_iterations, 8);
            }
        }
    }
}
