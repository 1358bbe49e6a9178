use mpv_ipc::process::{
    ipc_timeout_message, ipc_wait_step, ipc_wait_timed_out, mpv_args, spawn_failure,
    startup_failure, IpcWait, StdoutLog, STDOUT_LOG_CAPACITY,
};
use mpv_ipc::Error;

#[test]
fn args_start_with_ipc_server_and_profile() {
    let extra = vec!["--force-window".to_string(), "--keep-open=yes".to_string()];
    let args = mpv_args("/tmp/mpv.sock", &extra);
    assert_eq!(
        args,
        vec![
            "--input-ipc-server=/tmp/mpv.sock".to_string(),
            "--profile=libmpv".to_string(),
            "--force-window".to_string(),
            "--keep-open=yes".to_string(),
        ]
    );
}

#[test]
fn args_without_extras() {
    let args = mpv_args(r"\\.\pipe\mpv", &Vec::new());
    assert_eq!(args, vec![r"--input-ipc-server=\\.\pipe\mpv".to_string(), "--profile=libmpv".to_string()]);
}

#[test]
fn log_keeps_all_lines_below_capacity() {
    let mut log = StdoutLog::new();
    log.push("a".to_string());
    log.push("b".to_string());
    assert_eq!(log.take_lines(), vec!["a".to_string(), "b".to_string()]);
    assert!(log.take_lines().is_empty());
}

#[test]
fn log_keeps_last_hundred_lines() {
    let mut log = StdoutLog::new();
    for i in 0..150 {
        log.push(format!("line {}", i));
    }
    let lines = log.take_lines();
    assert_eq!(lines.len(), STDOUT_LOG_CAPACITY);
    assert_eq!(lines[0], "line 50");
    assert_eq!(lines[99], "line 149");
}

#[test]
fn startup_failure_report() {
    let lines = vec!["hello".to_string(), "world".to_string()];
    match startup_failure("7_1", &lines, "Timed out") {
        Error::MpvProcessError(message) => assert_eq!(
            message,
            "mpv startup failed for instance '7_1'. Collected stdout:\nmpv stdout [7_1] hello\nmpv stdout [7_1] world\nTimed out"
        ),
        other => panic!("unexpected error {:?}", other),
    }
}

#[test]
fn startup_failure_report_without_output() {
    match startup_failure("7_1", &Vec::new(), "boom") {
        Error::MpvProcessError(message) => {
            assert_eq!(message, "mpv startup failed for instance '7_1'. Collected stdout:\nboom")
        }
        other => panic!("unexpected error {:?}", other),
    }
}

#[test]
fn spawn_failure_report() {
    match spawn_failure("No such file or directory (os error 2)") {
        Error::MpvProcessError(message) => assert_eq!(
            message,
            "Failed to start mpv: No such file or directory (os error 2). Is mpv installed and in your PATH?"
        ),
        other => panic!("unexpected error {:?}", other),
    }
}

#[test]
fn wait_step_decisions() {
    assert_eq!(ipc_wait_step(0, 2_000_000_000, true), IpcWait::Ready);
    assert_eq!(ipc_wait_step(0, 2_000_000_000, false), IpcWait::Poll);
    assert_eq!(ipc_wait_step(1_999_999_999, 2_000_000_000, false), IpcWait::Poll);
    assert_eq!(ipc_wait_step(2_000_000_000, 2_000_000_000, true), IpcWait::TimedOut);
    assert_eq!(ipc_wait_step(0, 0, true), IpcWait::TimedOut);
}

#[test]
fn timeout_message_from_rendered_duration() {
    assert_eq!(
        ipc_timeout_message("2s", "5_0", "/tmp/mpv.sock"),
        "Timed out after 2s waiting for IPC server for instance '5_0' at '/tmp/mpv.sock'"
    );
}

#[test]
fn timeout_message_renders_duration() {
    assert_eq!(
        ipc_wait_timed_out(2, 0, "5_0", "/tmp/mpv.sock"),
        "Timed out after 2s waiting for IPC server for instance '5_0' at '/tmp/mpv.sock'"
    );
    assert_eq!(
        ipc_wait_timed_out(1, 500_000_000, "5_1", "p"),
        "Timed out after 1.5s waiting for IPC server for instance '5_1' at 'p'"
    );
    assert_eq!(
        ipc_wait_timed_out(0, 50_000_000, "5_2", "p"),
        "Timed out after 50ms waiting for IPC server for instance '5_2' at 'p'"
    );
}
