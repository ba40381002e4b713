use supervisor::state::ProcessState;
use supervisor::state::SupervisorError;
use supervisor::supervisor::spawn_failure_message;
use supervisor::supervisor::StopOutcome;
use supervisor::supervisor::Supervisor;

fn command(program: &str) -> Supervisor {
    Supervisor::new(program.to_string(), Vec::new())
}

#[test]
fn new_supervisor_is_not_started() {
    let sup = command("true");
    assert!(matches!(sup.status(), ProcessState::NotStarted));
}

#[test]
fn begin_start_hands_out_the_configured_command() {
    let sup = Supervisor::new(
        "node".to_string(),
        vec!["../server/build/server-bundle.js".to_string()],
    );
    let req = sup.begin_start().expect("start must be allowed when nothing runs");
    assert_eq!(req.program, "node");
    assert_eq!(req.args, vec!["../server/build/server-bundle.js".to_string()]);
}

#[test]
fn start_while_running_is_rejected() {
    let mut sup = command("sleep");
    sup.begin_start().expect("start must be allowed when nothing runs");
    sup.finish_start(Ok(4242)).expect("a reported spawn success is a success");
    assert!(matches!(sup.status(), ProcessState::Running { pid: 4242 }));
    let second = sup.begin_start();
    assert!(matches!(second, Err(SupervisorError::AlreadyRunning)));
    // The rejection changed nothing: the first process is still the one
    // live process attributed to the supervisor.
    assert!(matches!(sup.status(), ProcessState::Running { pid: 4242 }));
}

#[test]
fn stop_when_not_started_is_a_noop() {
    let sup = command("true");
    assert!(sup.begin_stop().is_none());
    assert!(matches!(sup.status(), ProcessState::NotStarted));
}

#[test]
fn stop_when_stopped_is_a_noop() {
    let mut sup = command("true");
    sup.finish_start(Ok(7)).unwrap();
    sup.finish_stop(StopOutcome::Exited { exit_code: 0 }).unwrap();
    assert!(matches!(sup.status(), ProcessState::Stopped { exit_code: 0 }));
    assert!(sup.begin_stop().is_none());
    assert!(matches!(sup.status(), ProcessState::Stopped { exit_code: 0 }));
}

#[test]
fn stop_when_failed_is_a_noop() {
    let mut sup = command("/nonexistent/binary");
    let _ = sup.finish_start(Err("No such file or directory (os error 2)".to_string()));
    assert!(matches!(sup.status(), ProcessState::Failed { .. }));
    assert!(sup.begin_stop().is_none());
}

#[test]
fn spawn_failure_message_names_the_program() {
    let msg = spawn_failure_message("/nonexistent/binary", "No such file or directory (os error 2)");
    assert_eq!(
        msg,
        "failed to start /nonexistent/binary: No such file or directory (os error 2)"
    );
    assert!(msg.contains("/nonexistent/binary"));
}

#[test]
fn failed_spawn_reports_and_records_the_reason() {
    let mut sup = command("/nonexistent/binary");
    let err = sup
        .finish_start(Err("No such file or directory (os error 2)".to_string()))
        .expect_err("a reported spawn failure is an error");
    match err {
        SupervisorError::SpawnFailure { message } => {
            assert!(message.contains("/nonexistent/binary"));
            assert!(message.contains("No such file or directory"));
        }
        other => panic!("expected SpawnFailure, got {:?}", other),
    }
    match sup.status() {
        ProcessState::Failed { error: SupervisorError::SpawnFailure { message } } => {
            assert!(message.contains("/nonexistent/binary"));
        }
        other => panic!("expected Failed with SpawnFailure, got {:?}", other),
    }
}

#[test]
fn requested_stop_records_the_exit_code() {
    let mut sup = command("sleep");
    sup.finish_start(Ok(99)).unwrap();
    let code = sup.finish_stop(StopOutcome::Exited { exit_code: -1 }).unwrap();
    assert_eq!(code, -1);
    assert!(matches!(sup.status(), ProcessState::Stopped { exit_code: -1 }));
}

#[test]
fn failed_kill_is_reported_and_the_process_stays_attributed() {
    let mut sup = command("sleep");
    sup.finish_start(Ok(99)).unwrap();
    let err = sup
        .finish_stop(StopOutcome::KillError { message: "operation not permitted".to_string() })
        .expect_err("a failed kill must be reported, not swallowed");
    assert!(matches!(err, SupervisorError::KillFailed { .. }));
    // The process may still be alive, so it is still the one live
    // process attributed to the supervisor.
    assert!(matches!(sup.status(), ProcessState::Running { pid: 99 }));
}

#[test]
fn own_exit_with_code_zero_is_stopped() {
    let mut sup = command("true");
    sup.finish_start(Ok(11)).unwrap();
    sup.notice_exit(0);
    assert!(matches!(sup.status(), ProcessState::Stopped { exit_code: 0 }));
}

#[test]
fn own_exit_with_nonzero_code_is_failed() {
    let mut sup = command("false");
    sup.finish_start(Ok(12)).unwrap();
    sup.notice_exit(3);
    assert!(matches!(
        sup.status(),
        ProcessState::Failed { error: SupervisorError::UnexpectedExit { exit_code: 3 } }
    ));
}

#[test]
fn stopped_supervisor_can_be_restarted() {
    let mut sup = command("true");
    sup.finish_start(Ok(21)).unwrap();
    sup.finish_stop(StopOutcome::Exited { exit_code: 0 }).unwrap();
    let req = sup.begin_start().expect("restart from Stopped must be allowed");
    assert_eq!(req.program, "true");
    sup.finish_start(Ok(22)).unwrap();
    assert!(matches!(sup.status(), ProcessState::Running { pid: 22 }));
}

#[test]
fn failed_supervisor_can_be_restarted() {
    let mut sup = command("true");
    let _ = sup.finish_start(Err("resource limit".to_string()));
    assert!(matches!(sup.status(), ProcessState::Failed { .. }));
    sup.begin_start().expect("restart from Failed must be allowed");
    sup.finish_start(Ok(23)).unwrap();
    assert!(matches!(sup.status(), ProcessState::Running { pid: 23 }));
}
