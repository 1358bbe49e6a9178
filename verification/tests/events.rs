use mpv_ipc::events::{
    line_action, observe_property_command, observe_report, AttemptDecision, EventListener,
    FailureDecision, LineAction, ListenerStop, MAX_CONNECT_ATTEMPTS,
};
use mpv_ipc::{EndFileReason, MpvEvent};

#[test]
fn listener_gives_up_after_five_failed_attempts() {
    let mut listener = EventListener::new(100);
    for attempt in 1..=MAX_CONNECT_ATTEMPTS {
        assert_eq!(listener.begin_attempt(100, false), AttemptDecision::Connect { attempt });
        let decision = listener.connect_failed();
        if attempt < MAX_CONNECT_ATTEMPTS {
            assert_eq!(decision, FailureDecision::RetryAfterPause);
        } else {
            assert_eq!(decision, FailureDecision::Stop(ListenerStop::RetriesExhausted));
        }
    }
    assert_eq!(listener.retry_count(), 5);
}

#[test]
fn listener_connection_resets_attempts() {
    let mut listener = EventListener::new(7);
    for _ in 0..4 {
        listener.begin_attempt(7, false);
        assert_eq!(listener.connect_failed(), FailureDecision::RetryAfterPause);
    }
    assert_eq!(listener.begin_attempt(7, false), AttemptDecision::Connect { attempt: 5 });
    listener.connected();
    assert_eq!(listener.retry_count(), 0);
    assert_eq!(listener.begin_attempt(7, false), AttemptDecision::Connect { attempt: 1 });
}

#[test]
fn listener_stops_for_other_process() {
    let mut listener = EventListener::new(7);
    assert_eq!(listener.begin_attempt(8, false), AttemptDecision::Stop(ListenerStop::StaleProcess));
    assert_eq!(listener.begin_attempt(8, true), AttemptDecision::Stop(ListenerStop::StaleProcess));
    assert_eq!(listener.retry_count(), 0);
    assert_eq!(listener.process_id(), 7);
}

#[test]
fn listener_stops_when_process_exited() {
    let mut listener = EventListener::new(7);
    assert_eq!(listener.begin_attempt(7, true), AttemptDecision::Stop(ListenerStop::ProcessExited));
    assert_eq!(listener.retry_count(), 0);
}

#[test]
fn observe_command_numbers_from_one() {
    assert_eq!(
        observe_property_command(0, "pause"),
        r#"{"command": ["observe_property", 1, "pause"]}"#
    );
    assert_eq!(
        observe_property_command(11, "time-pos"),
        r#"{"command": ["observe_property", 12, "time-pos"]}"#
    );
}

#[test]
fn observe_report_splits_at_failure() {
    let props = vec!["pause".to_string(), "time-pos".to_string(), "duration".to_string()];
    let (ok, failed) = observe_report(&props, Some(1));
    assert_eq!(ok, vec!["pause".to_string()]);
    assert_eq!(failed, vec!["time-pos".to_string()]);
    let (ok, failed) = observe_report(&props, None);
    assert_eq!(ok, props);
    assert!(failed.is_empty());
    let (ok, failed) = observe_report(&props, Some(0));
    assert!(ok.is_empty());
    assert_eq!(failed, vec!["pause".to_string()]);
}

#[test]
fn line_with_event_is_forwarded() {
    let event = MpvEvent::EndFile { reason: EndFileReason::Stop, playlist_entry_id: 3 };
    assert_eq!(
        line_action(Some(event.clone()), r#"{"event":"end-file","reason":"stop","playlist_entry_id":3}"#),
        LineAction::Forward(event)
    );
}

#[test]
fn unreadable_event_line_is_reported() {
    assert_eq!(line_action(None, r#"{"event":"mystery"}"#), LineAction::ReportUnparsed);
}

#[test]
fn other_lines_are_ignored() {
    assert_eq!(
        line_action(None, r#"{"data":null,"error":"success","request_id":0}"#),
        LineAction::Ignore
    );
    assert_eq!(line_action(None, ""), LineAction::Ignore);
    assert_eq!(line_action(None, "event"), LineAction::Ignore);
}
