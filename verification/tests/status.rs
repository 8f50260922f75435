use gakumas_screenshot::status::{
    finish_automation, format_elapsed, get_current_iteration, get_current_session_path,
    get_current_state_description, get_total_iterations, is_automation_running,
    publish_run_start, record_start, request_abort, reset_abort_flag, set_current_iteration,
    set_current_session_path, start_automation, update_automation_status,
    update_state_description, AutomationStatus, GuiState, RunObservation, RunStatus, StartError,
    DEFAULT_ITERATIONS,
};
use std::time::Instant;

#[test]
fn a_fresh_status_is_at_rest() {
    let status = RunStatus::new();
    assert!(!is_automation_running(&status));
    assert!(!status.abort_requested);
    assert_eq!(get_current_iteration(&status), 0);
    assert_eq!(get_total_iterations(&status), 0);
    assert_eq!(get_current_state_description(&status), "");
    assert_eq!(get_current_session_path(&status), None);
}

#[test]
fn a_run_can_be_claimed_once() {
    let mut status = RunStatus::new();
    request_abort(&mut status);
    assert_eq!(start_automation(&mut status, None), Ok(DEFAULT_ITERATIONS));
    assert_eq!(DEFAULT_ITERATIONS, 10);
    assert!(is_automation_running(&status));
    assert!(!status.abort_requested);

    request_abort(&mut status);
    let before = status.clone();
    assert_eq!(start_automation(&mut status, Some(3)), Err(StartError::AlreadyRunning));
    assert_eq!(status, before);

    finish_automation(&mut status);
    assert!(!is_automation_running(&status));
    assert!(status.abort_requested);
    assert_eq!(start_automation(&mut status, Some(3)), Ok(3));
    assert_eq!(start_automation(&mut RunStatus::new(), Some(0)), Ok(0));
}

#[test]
fn the_abort_flag_is_set_and_cleared() {
    let mut status = RunStatus::new();
    set_current_iteration(&mut status, 4);
    request_abort(&mut status);
    assert!(status.abort_requested);
    request_abort(&mut status);
    assert!(status.abort_requested);
    reset_abort_flag(&mut status);
    assert!(!status.abort_requested);
    assert_eq!(get_current_iteration(&status), 4);
}

#[test]
fn progress_is_published() {
    let mut status = RunStatus::new();
    publish_run_start(&mut status, 25, "開始中...");
    assert_eq!(get_total_iterations(&status), 25);
    assert_eq!(get_current_iteration(&status), 0);
    assert_eq!(get_current_state_description(&status), "開始中...");
    set_current_iteration(&mut status, 7);
    update_state_description(&mut status, "Clicking Skip");
    set_current_session_path(&mut status, "output/20260115_100000".to_string());
    assert_eq!(get_current_iteration(&status), 7);
    assert_eq!(get_current_state_description(&status), "Clicking Skip");
    assert_eq!(
        get_current_session_path(&status),
        Some("output/20260115_100000".to_string())
    );
    assert_eq!(get_total_iterations(&status), 25);
}

fn running(current: u32, total: u32) -> AutomationStatus {
    AutomationStatus::Running {
        current,
        total,
        state_description: "Waiting for loading".to_string(),
        start_time: Instant::now(),
    }
}

#[test]
fn status_text_names_the_status() {
    assert_eq!(AutomationStatus::Idle.status_text(), "待機中");
    assert_eq!(running(3, 100).status_text(), "実行中 (3/100) - Waiting for loading");
    assert_eq!(
        AutomationStatus::Completed { total: 100, session_path: "out".to_string() }.status_text(),
        "完了 (100回)"
    );
    assert_eq!(AutomationStatus::Aborted.status_text(), "中断");
    assert_eq!(
        AutomationStatus::Error("Game window closed".to_string()).status_text(),
        "エラー: Game window closed"
    );
}

#[test]
fn only_a_running_status_is_running() {
    assert!(running(0, 1).is_running());
    assert!(!AutomationStatus::Idle.is_running());
    assert!(!AutomationStatus::Aborted.is_running());
    assert!(!AutomationStatus::Error(String::new()).is_running());
    assert!(!AutomationStatus::Completed { total: 1, session_path: String::new() }.is_running());
    assert_eq!(AutomationStatus::default(), AutomationStatus::Idle);
}

#[test]
fn elapsed_time_is_shown_while_running() {
    let text = running(1, 2).elapsed_text().unwrap();
    assert!(text == "00:00" || text == "00:01", "{}", text);
    assert_eq!(AutomationStatus::Idle.elapsed_text(), None);
    assert_eq!(AutomationStatus::Aborted.elapsed_text(), None);
    assert_eq!(
        AutomationStatus::Completed { total: 1, session_path: String::new() }.elapsed_text(),
        None
    );
}

#[test]
fn elapsed_time_is_minutes_and_seconds() {
    assert_eq!(format_elapsed(0), "00:00");
    assert_eq!(format_elapsed(59), "00:59");
    assert_eq!(format_elapsed(60), "01:00");
    assert_eq!(format_elapsed(754), "12:34");
    assert_eq!(format_elapsed(5999), "99:59");
    assert_eq!(format_elapsed(6000), "100:00");
    assert_eq!(format_elapsed(u64::MAX), "307445734561825860:15");
}

#[test]
fn progress_is_the_share_of_iterations() {
    assert_eq!(running(0, 10).progress(), 0);
    assert_eq!(running(3, 10).progress(), 300);
    assert_eq!(running(1, 3).progress(), 333);
    assert_eq!(running(10, 10).progress(), 1000);
    assert_eq!(running(5, 0).progress(), 0);
    assert_eq!(running(u32::MAX, 1).progress(), 1000);
    assert_eq!(running(u32::MAX - 1, u32::MAX).progress(), 999);
    assert_eq!(
        AutomationStatus::Completed { total: 3, session_path: String::new() }.progress(),
        1000
    );
    assert_eq!(AutomationStatus::Idle.progress(), 0);
}

#[test]
fn the_display_starts_idle_with_a_hundred_iterations() {
    let state = GuiState::default();
    assert_eq!(state.iterations, 100);
    assert_eq!(state.status, AutomationStatus::Idle);
    assert_eq!(state.latest_session_path, None);
    assert_eq!(state.automation_start_time, None);
}

#[test]
fn a_copy_of_a_status_is_the_same_status() {
    let status = running(2, 9);
    let copy = status.clone();
    assert_eq!(copy, status);
    let state = GuiState {
        iterations: 9,
        status,
        latest_session_path: Some("out".to_string()),
        automation_start_time: Some(Instant::now()),
    };
    assert_eq!(state.clone(), state);
}

fn seen(is_running: bool, is_aborted: bool, now: Instant) -> RunObservation {
    RunObservation {
        is_running,
        is_aborted,
        current: 4,
        state_description: "Capturing".to_string(),
        session_path: "output/s1".to_string(),
        now,
    }
}

fn shown(status: AutomationStatus) -> GuiState {
    GuiState {
        iterations: 25,
        status,
        latest_session_path: Some("output/s0".to_string()),
        automation_start_time: None,
    }
}

#[test]
fn a_running_status_follows_the_run() {
    let began = Instant::now();
    let status = AutomationStatus::Running {
        current: 1,
        total: 9,
        state_description: "Idle".to_string(),
        start_time: began,
    };
    let mut state = shown(status.clone());
    assert!(!update_automation_status(&mut state, seen(true, true, Instant::now())));
    assert_eq!(
        state,
        shown(AutomationStatus::Running {
            current: 4,
            total: 9,
            state_description: "Capturing".to_string(),
            start_time: began,
        })
    );

    let mut state = shown(status.clone());
    assert!(update_automation_status(&mut state, seen(false, false, Instant::now())));
    let mut want = shown(AutomationStatus::Completed {
        total: 9,
        session_path: "output/s1".to_string(),
    });
    want.latest_session_path = Some("output/s1".to_string());
    assert_eq!(state, want);

    let mut state = shown(status);
    assert!(!update_automation_status(&mut state, seen(false, true, Instant::now())));
    let mut want = shown(AutomationStatus::Aborted);
    want.latest_session_path = Some("output/s1".to_string());
    assert_eq!(state, want);
}

#[test]
fn a_status_at_rest_turns_to_running_when_a_run_is_found() {
    for status in [
        AutomationStatus::Idle,
        AutomationStatus::Aborted,
        AutomationStatus::Error("x".to_string()),
        AutomationStatus::Completed { total: 2, session_path: "p".to_string() },
    ] {
        let mut state = shown(status.clone());
        assert!(!update_automation_status(&mut state, seen(false, true, Instant::now())));
        assert_eq!(state, shown(status.clone()));

        let now = Instant::now();
        let mut state = shown(status);
        assert!(!update_automation_status(&mut state, seen(true, false, now)));
        assert_eq!(
            state,
            shown(AutomationStatus::Running {
                current: 0,
                total: 25,
                state_description: "開始中...".to_string(),
                start_time: now,
            })
        );
    }
}

#[test]
fn a_start_is_recorded() {
    let now = Instant::now();
    let mut state = shown(AutomationStatus::Idle);
    record_start(&mut state, Some("output/s2".to_string()), None, now);
    assert_eq!(
        state,
        GuiState {
            iterations: 25,
            status: AutomationStatus::Running {
                current: 0,
                total: 25,
                state_description: "開始中...".to_string(),
                start_time: now,
            },
            latest_session_path: Some("output/s2".to_string()),
            automation_start_time: Some(now),
        }
    );
    let mut state = shown(AutomationStatus::Idle);
    record_start(&mut state, None, Some("Automation is already running".to_string()), now);
    assert_eq!(state, shown(AutomationStatus::Error("Automation is already running".to_string())));
}
