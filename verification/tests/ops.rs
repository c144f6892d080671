use rate_governor::ops::OperationState;

#[test]
fn fresh_state_is_clean() {
    let s = OperationState::new();
    let st = s.status();
    assert!(!st.is_running);
    assert!(!st.is_paused);
    assert!(!st.should_abort);
}

#[test]
fn start_sets_only_running() {
    let mut s = OperationState::new();
    s.start();
    let st = s.status();
    assert!(st.is_running);
    assert!(!st.is_paused);
    assert!(!st.should_abort);
}

#[test]
fn wait_not_blocked_while_unpaused() {
    let mut s = OperationState::new();
    s.start();
    assert!(!s.wait_blocked());
}

#[test]
fn wait_blocked_while_paused_until_resume() {
    let mut s = OperationState::new();
    s.start();
    s.pause();
    assert!(s.wait_blocked());
    s.resume();
    assert!(!s.wait_blocked());
}

#[test]
fn abort_releases_waiter_without_resume() {
    let mut s = OperationState::new();
    s.start();
    s.pause();
    assert!(s.wait_blocked());
    s.request_abort();
    assert!(!s.wait_blocked());
    assert!(s.should_abort());
}

#[test]
fn abort_flag_survives_pause_state() {
    let mut s = OperationState::new();
    s.start();
    s.request_abort();
    assert!(s.should_abort());
    assert!(!s.wait_blocked());
}

#[test]
fn reset_clears_all_flags_after_any_history() {
    let mut s = OperationState::new();
    s.start();
    s.pause();
    s.request_abort();
    s.reset();
    let st = s.status();
    assert!(!st.is_running);
    assert!(!st.is_paused);
    assert!(!st.should_abort);
}

#[test]
fn start_after_reset_begins_clean() {
    let mut s = OperationState::new();
    s.start();
    s.pause();
    s.request_abort();
    s.reset();
    s.start();
    let st = s.status();
    assert!(st.is_running);
    assert!(!st.is_paused);
    assert!(!st.should_abort);
}
