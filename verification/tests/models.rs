use mpv_ipc::models::{JsonNumber, JsonValue};
use mpv_ipc::{default_ipc_timeout, default_mpv_path, EndFileReason, MpvConfig, MpvEvent};

#[test]
fn default_path_is_mpv() {
    assert_eq!(default_mpv_path(), "mpv");
}

#[test]
fn default_timeout_is_two_seconds() {
    assert_eq!(default_ipc_timeout(), 2000);
}

#[test]
fn default_config_fields() {
    let config = MpvConfig::default();
    assert_eq!(config.path, "mpv");
    assert!(config.args.is_empty());
    assert!(config.observed_properties.is_empty());
    assert_eq!(config.ipc_timeout_ms, 2000);
    assert!(!config.show_mpv_output);
}

#[test]
fn config_struct_update_keeps_defaults() {
    let config = MpvConfig {
        args: vec!["--force-window".to_string()],
        observed_properties: vec!["pause".to_string()],
        ..Default::default()
    };
    assert_eq!(config.path, "mpv");
    assert_eq!(config.ipc_timeout_ms, 2000);
    assert_eq!(config.args, vec!["--force-window".to_string()]);
}

#[test]
fn json_clone_is_deep() {
    let value = JsonValue::Object(vec![
        ("name".to_string(), JsonValue::String("pause".to_string())),
        (
            "list".to_string(),
            JsonValue::Array(vec![
                JsonValue::Null,
                JsonValue::Bool(true),
                JsonValue::Number(JsonNumber::NegInt(-3)),
                JsonValue::Number(JsonNumber::Float(1.5f64.to_bits())),
            ]),
        ),
    ]);
    let copy = value.clone();
    assert_eq!(copy, value);
}

#[test]
fn event_clone_keeps_payload() {
    let event = MpvEvent::PropertyChange {
        id: 2,
        name: "time-pos".to_string(),
        data: Some(JsonValue::Number(JsonNumber::PosInt(12))),
    };
    assert_eq!(event.clone(), event);
    let end = MpvEvent::EndFile { reason: EndFileReason::Eof, playlist_entry_id: 1 };
    assert_eq!(end.clone(), end);
}
