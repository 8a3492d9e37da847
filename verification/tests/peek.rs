use side_panel_right::peek::PeekState;

#[test]
fn peek_close_request_is_noop_while_pinned() {
    let mut state = PeekState::new();
    state.pinned = true;
    assert!(!state.should_close_on_peek_leave());
}

#[test]
fn peek_close_request_closes_when_not_pinned() {
    let mut state = PeekState::new();
    state.pinned = false;
    assert!(state.should_close_on_peek_leave());
}

#[test]
fn peek_close_suppressed_while_resizing() {
    let mut state = PeekState::new();
    state.pinned = false;
    state.resizing = true;
    assert!(!state.should_close_on_peek_leave());
}

#[test]
fn reenter_cancels_pending_close() {
    let mut state = PeekState::new();
    let ticket = state.release_ticket();
    assert!(state.release_due(ticket));
    state.hold();
    assert!(!state.release_due(ticket));
    assert!(state.release_due(state.release_ticket()));
}

#[test]
fn hold_wraps_at_the_top() {
    let mut state = PeekState::new();
    state.generation = u64::MAX;
    state.hold();
    assert_eq!(state.generation, 0);
}
