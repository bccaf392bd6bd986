use pause_button::control::{
    toggle_outcome, toggle_request, toggle_suspend, ControlRequest, OsReply, Primitive,
};
use pause_button::selection::SelectionState;
use pause_button::{ControlError, Process};

fn record(pid: u32, ppid: Option<u32>, name: &str) -> Process {
    Process { pid, ppid, name: name.to_string() }
}

fn live_target(request: ControlRequest) -> OsReply {
    if request.pid == 20 {
        OsReply::Status(0)
    } else {
        OsReply::NoHandle
    }
}

#[test]
fn toggle_of_a_live_target_suspends_then_resumes() {
    assert_eq!(toggle_suspend(20, false, live_target), Ok(true));
    assert_eq!(toggle_suspend(20, true, live_target), Ok(false));
}

#[test]
fn toggle_of_a_missing_process_fails_on_the_handle() {
    assert_eq!(
        toggle_suspend(9999, false, live_target),
        Err(ControlError::HandleAcquisitionFailure)
    );
    assert_eq!(
        toggle_suspend(9999, true, live_target),
        Err(ControlError::HandleAcquisitionFailure)
    );
}

#[test]
fn toggle_hands_over_one_request_for_the_right_primitive() {
    let mut seen: Vec<ControlRequest> = Vec::new();
    let outcome = toggle_suspend(20, false, |request| {
        seen.push(request);
        OsReply::Status(0)
    });
    assert_eq!(outcome, Ok(true));
    assert_eq!(seen, vec![ControlRequest { pid: 20, primitive: Primitive::Suspend }]);
    let mut seen: Vec<ControlRequest> = Vec::new();
    let outcome = toggle_suspend(20, true, |request| {
        seen.push(request);
        OsReply::Status(-1)
    });
    assert_eq!(outcome, Err(ControlError::PrimitiveFailure));
    assert_eq!(seen, vec![ControlRequest { pid: 20, primitive: Primitive::Resume }]);
}

#[test]
fn toggle_request_follows_the_paused_flag() {
    assert_eq!(
        toggle_request(7, false),
        ControlRequest { pid: 7, primitive: Primitive::Suspend }
    );
    assert_eq!(toggle_request(7, true), ControlRequest { pid: 7, primitive: Primitive::Resume });
    assert_eq!(
        toggle_request(0, false),
        ControlRequest { pid: 0, primitive: Primitive::Suspend }
    );
}

#[test]
fn toggle_outcome_reads_the_status() {
    assert_eq!(toggle_outcome(false, OsReply::Status(0)), Ok(true));
    assert_eq!(toggle_outcome(true, OsReply::Status(0)), Ok(false));
    assert_eq!(toggle_outcome(false, OsReply::Status(1)), Ok(true));
    assert_eq!(toggle_outcome(true, OsReply::Status(i32::MAX)), Ok(false));
    assert_eq!(toggle_outcome(false, OsReply::Status(-1)), Err(ControlError::PrimitiveFailure));
    assert_eq!(
        toggle_outcome(true, OsReply::Status(i32::MIN)),
        Err(ControlError::PrimitiveFailure)
    );
    assert_eq!(toggle_outcome(false, OsReply::NoHandle), Err(ControlError::HandleAcquisitionFailure));
    assert_eq!(toggle_outcome(true, OsReply::NoHandle), Err(ControlError::HandleAcquisitionFailure));
}

#[test]
fn two_successful_toggles_restore_the_flag() {
    for start in [false, true] {
        for first in [0, 1, 77] {
            for second in [0, 5] {
                let middle = toggle_outcome(start, OsReply::Status(first)).unwrap();
                assert_eq!(middle, !start);
                let end = toggle_outcome(middle, OsReply::Status(second)).unwrap();
                assert_eq!(end, start);
            }
        }
    }
}

#[test]
fn selection_starts_with_the_whole_inventory() {
    let inventory = vec![record(1, None, "a"), record(2, Some(1), "b")];
    let state = SelectionState::new(inventory.clone());
    match &state {
        SelectionState::ProcessSelect { processes, search_string, hide_childs } => {
            assert_eq!(*processes, inventory);
            assert_eq!(search_string, "");
            assert!(!*hide_childs);
        },
        SelectionState::Main { .. } => panic!("a process is chosen at startup"),
    }
    assert_eq!(state.visible(), inventory);
    assert_eq!(state.pending_request(), None);
}

#[test]
fn selection_lists_what_the_filter_shows() {
    let inventory = vec![record(1, None, "Alpha"), record(2, Some(1), "beta"), record(3, None, "Gamma")];
    let mut state = SelectionState::new(inventory);
    state.toggle_hide_childs();
    assert_eq!(state.visible(), vec![record(1, None, "Alpha"), record(3, None, "Gamma")]);
    if let SelectionState::ProcessSelect { search_string, .. } = &mut state {
        search_string.push_str("GAM");
    }
    assert_eq!(state.visible(), vec![record(3, None, "Gamma")]);
    state.toggle_hide_childs();
    if let SelectionState::ProcessSelect { search_string, .. } = &mut state {
        search_string.clear();
        search_string.push_str("A");
    }
    assert_eq!(
        state.visible(),
        vec![record(1, None, "Alpha"), record(2, Some(1), "beta"), record(3, None, "Gamma")]
    );
}

#[test]
fn selection_holds_the_first_choice() {
    let mut state = SelectionState::new(vec![record(1, None, "a"), record(2, None, "b")]);
    assert!(state.select(record(2, None, "b")));
    match &state {
        SelectionState::Main { process, paused } => {
            assert_eq!(*process, record(2, None, "b"));
            assert!(!*paused);
        },
        SelectionState::ProcessSelect { .. } => panic!("no process is chosen"),
    }
    assert!(!state.select(record(1, None, "a")));
    match &state {
        SelectionState::Main { process, .. } => assert_eq!(process.pid, 2),
        SelectionState::ProcessSelect { .. } => panic!("no process is chosen"),
    }
    assert!(state.visible().is_empty());
    state.toggle_hide_childs();
    assert!(matches!(state, SelectionState::Main { paused: false, .. }));
}

#[test]
fn selection_tracks_the_paused_flag() {
    let mut state = SelectionState::new(vec![record(20, None, "app.exe")]);
    assert_eq!(state.settle(OsReply::Status(0)), None);
    assert!(matches!(state, SelectionState::ProcessSelect { .. }));
    state.select(record(20, None, "app.exe"));
    assert_eq!(
        state.pending_request(),
        Some(ControlRequest { pid: 20, primitive: Primitive::Suspend })
    );
    assert_eq!(state.settle(OsReply::Status(0)), Some(Ok(true)));
    assert!(matches!(state, SelectionState::Main { paused: true, .. }));
    assert_eq!(
        state.pending_request(),
        Some(ControlRequest { pid: 20, primitive: Primitive::Resume })
    );
    assert_eq!(state.settle(OsReply::NoHandle), Some(Err(ControlError::HandleAcquisitionFailure)));
    assert!(matches!(state, SelectionState::Main { paused: true, .. }));
    assert_eq!(state.settle(OsReply::Status(-5)), Some(Err(ControlError::PrimitiveFailure)));
    assert!(matches!(state, SelectionState::Main { paused: true, .. }));
    assert_eq!(state.settle(OsReply::Status(0)), Some(Ok(false)));
    assert!(matches!(state, SelectionState::Main { paused: false, .. }));
}
