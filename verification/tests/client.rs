use mpv_ipc::models::JsonNumber;
use mpv_ipc::{
    command_outcome, event_poll_outcome, instance_id, kill_outcome, Error, EventPoll, JsonValue,
    MpvCommandResponse, MpvEvent,
};

#[test]
fn instance_id_joins_pid_and_sequence() {
    assert_eq!(instance_id(1234, 0), "1234_0");
    assert_eq!(instance_id(0, 17), "0_17");
    assert_eq!(instance_id(u32::MAX, u64::MAX), "4294967295_18446744073709551615");
}

#[test]
fn instance_ids_differ_across_sequence_numbers() {
    assert_ne!(instance_id(12, 3), instance_id(1, 23));
    assert_ne!(instance_id(7, 9), instance_id(7, 10));
}

#[test]
fn command_success_returns_data() {
    let response = MpvCommandResponse {
        data: Some(JsonValue::Number(JsonNumber::PosInt(42))),
        error: "success".to_string(),
        request_id: 1,
    };
    match command_outcome(response) {
        Ok(value) => assert_eq!(value, JsonValue::Number(JsonNumber::PosInt(42))),
        Err(e) => panic!("unexpected error {:?}", e),
    }
}

#[test]
fn command_success_without_data_is_null() {
    let response = MpvCommandResponse { data: None, error: "success".to_string(), request_id: 2 };
    match command_outcome(response) {
        Ok(value) => assert_eq!(value, JsonValue::Null),
        Err(e) => panic!("unexpected error {:?}", e),
    }
}

#[test]
fn command_failure_is_command_error() {
    let response = MpvCommandResponse {
        data: Some(JsonValue::Bool(true)),
        error: "property not found".to_string(),
        request_id: 3,
    };
    match command_outcome(response) {
        Err(Error::MpvCommandError(message)) => assert_eq!(message, "property not found"),
        other => panic!("unexpected outcome {:?}", other),
    }
}

#[test]
fn event_poll_received() {
    match event_poll_outcome(EventPoll::Received(MpvEvent::Idle)) {
        Ok(Some(MpvEvent::Idle)) => {}
        other => panic!("unexpected outcome {:?}", other),
    }
}

#[test]
fn event_poll_empty() {
    assert!(matches!(event_poll_outcome(EventPoll::Empty), Ok(None)));
}

#[test]
fn event_poll_disconnected() {
    match event_poll_outcome(EventPoll::Disconnected) {
        Err(Error::IpcError(message)) => assert_eq!(message, "Event channel disconnected"),
        other => panic!("unexpected outcome {:?}", other),
    }
}

#[test]
fn kill_success() {
    assert!(matches!(kill_outcome(4321, "1_0", None), Ok(())));
}

#[test]
fn kill_failure_message() {
    match kill_outcome(4321, "99_2", Some("No such process".to_string())) {
        Err(Error::MpvProcessError(message)) => assert_eq!(
            message,
            "Failed to kill mpv process (PID: 4321) for instance '99_2': No such process"
        ),
        other => panic!("unexpected outcome {:?}", other),
    }
}
