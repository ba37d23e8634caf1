use message_server::lifecycle::{
    accept_step, AcceptAction, AcceptEvent, ServerControl, ServerPhase,
};

#[test]
fn a_new_server_is_created_and_not_running() {
    let c = ServerControl::new();
    assert_eq!(c.phase, ServerPhase::Created);
}

#[test]
fn start_sets_the_running_flag() {
    let mut c = ServerControl::new();
    c.start();
    assert_eq!(c.phase, ServerPhase::Running);
}

#[test]
fn stop_on_a_running_server_signals_shutdown() {
    let mut c = ServerControl::new();
    c.start();
    assert!(c.request_stop());
    assert_eq!(c.phase, ServerPhase::Stopped);
}

#[test]
fn stop_on_a_stopped_server_only_warns() {
    let mut c = ServerControl::new();
    c.start();
    assert!(c.request_stop());
    assert!(!c.request_stop());
    assert_eq!(c.phase, ServerPhase::Stopped);
}

#[test]
fn stop_before_running_only_warns() {
    let mut c = ServerControl::new();
    assert!(!c.request_stop());
    assert_eq!(c.phase, ServerPhase::Created);
}

#[test]
fn a_running_accept_loop_spawns_sleeps_or_logs() {
    assert_eq!(accept_step(true, &AcceptEvent::Connection), AcceptAction::Spawn);
    assert_eq!(accept_step(true, &AcceptEvent::WouldBlock), AcceptAction::Sleep);
    assert_eq!(
        accept_step(true, &AcceptEvent::Failed),
        AcceptAction::LogAndContinue
    );
}

#[test]
fn a_cleared_flag_exits_the_accept_loop_promptly() {
    // Whatever the poll observes — even a pending connection — a cleared
    // running flag means the loop exits instead of accepting.
    assert_eq!(accept_step(false, &AcceptEvent::Connection), AcceptAction::Exit);
    assert_eq!(accept_step(false, &AcceptEvent::WouldBlock), AcceptAction::Exit);
    assert_eq!(accept_step(false, &AcceptEvent::Failed), AcceptAction::Exit);
}
