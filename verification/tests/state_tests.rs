use dupscan::state::AppState;

#[test]
fn test_initial_state() {
    let state = AppState::new();

    assert!(!state.is_scanning());
    assert!(!state.is_cancel_requested());
    assert!(state.current_scan_id().is_none());
}

#[test]
fn test_start_scan() {
    let mut state = AppState::new();

    let scan_id = state.try_start_scan();

    assert!(scan_id.is_some());
    assert!(state.is_scanning());
    assert!(state.current_scan_id().is_some());
    assert!(!state.is_cancel_requested());
}

#[test]
fn test_start_scan_while_scanning() {
    let mut state = AppState::new();

    // Start first scan
    let first_id = state.try_start_scan();
    assert!(first_id.is_some());

    // Try to start second scan - should fail
    let second_id = state.try_start_scan();
    assert!(second_id.is_none());

    // First scan ID should still be active
    assert_eq!(state.current_scan_id(), first_id);
}

#[test]
fn test_finish_scan() {
    let mut state = AppState::new();

    state.try_start_scan();
    assert!(state.is_scanning());

    state.finish_scan();

    assert!(!state.is_scanning());
    assert!(state.current_scan_id().is_none());
    assert!(!state.is_cancel_requested());
}

#[test]
fn test_request_cancel() {
    let mut state = AppState::new();

    // Can't cancel if not scanning
    assert!(!state.request_cancel());

    state.try_start_scan();

    // Now can cancel
    assert!(state.request_cancel());
    assert!(state.is_cancel_requested());
}

#[test]
fn test_cancel_cleared_after_finish() {
    let mut state = AppState::new();

    state.try_start_scan();
    state.request_cancel();
    assert!(state.is_cancel_requested());

    state.finish_scan();

    assert!(!state.is_cancel_requested());
}

#[test]
fn test_reset() {
    let mut state = AppState::new();

    state.try_start_scan();
    state.request_cancel();

    state.reset();

    assert!(!state.is_scanning());
    assert!(!state.is_cancel_requested());
    assert!(state.current_scan_id().is_none());
}

#[test]
fn test_restart_after_finish() {
    let mut state = AppState::new();

    let first = state.try_start_scan();
    assert!(first.is_some());
    state.finish_scan();

    // After finish, a new scan can start again.
    let second = state.try_start_scan();
    assert!(second.is_some());
}

#[test]
fn test_default_trait() {
    let state = AppState::default();

    assert!(!state.is_scanning());
    assert!(!state.is_cancel_requested());
}
