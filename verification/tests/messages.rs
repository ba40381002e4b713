use supervisor::state::SupervisorError;
use supervisor::text::dec_i32_string;

#[test]
fn decimal_text_of_small_numbers() {
    assert_eq!(dec_i32_string(0), "0");
    assert_eq!(dec_i32_string(7), "7");
    assert_eq!(dec_i32_string(10), "10");
    assert_eq!(dec_i32_string(12345), "12345");
}

#[test]
fn decimal_text_of_negative_numbers() {
    assert_eq!(dec_i32_string(-1), "-1");
    assert_eq!(dec_i32_string(-203), "-203");
}

#[test]
fn decimal_text_of_the_extremes() {
    assert_eq!(dec_i32_string(i32::MAX), "2147483647");
    assert_eq!(dec_i32_string(i32::MIN), "-2147483648");
}

#[test]
fn spawn_failure_message_is_passed_through() {
    let err = SupervisorError::SpawnFailure {
        message: "failed to start node: No such file or directory".to_string(),
    };
    assert_eq!(err.message(), "failed to start node: No such file or directory");
}

#[test]
fn already_running_message() {
    assert_eq!(
        SupervisorError::AlreadyRunning.message(),
        "a process is already running"
    );
}

#[test]
fn kill_failed_message_names_the_reason() {
    let err = SupervisorError::KillFailed { message: "operation not permitted".to_string() };
    assert_eq!(
        err.message(),
        "failed to kill the process: operation not permitted"
    );
}

#[test]
fn unexpected_exit_message_names_the_code() {
    let err = SupervisorError::UnexpectedExit { exit_code: 137 };
    assert_eq!(err.message(), "the process exited unexpectedly with code 137");
    let err = SupervisorError::UnexpectedExit { exit_code: -1 };
    assert_eq!(err.message(), "the process exited unexpectedly with code -1");
}
