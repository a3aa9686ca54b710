use arena_sessions::channel::{dispatch_step, frame_for, make_frame, reconnect_done};
use arena_sessions::channel::{ChannelEvent, DispatchStep};

fn serde_envelope(request_id: &str, command: &str) -> String {
    let mut body = serde_json::Map::new();
    body.insert("version".to_string(), serde_json::Value::from(1));
    body.insert(
        "commandLine".to_string(),
        serde_json::Value::String(command.to_string()),
    );
    let mut header = serde_json::Map::new();
    header.insert("version".to_string(), serde_json::Value::from(1));
    header.insert(
        "requestId".to_string(),
        serde_json::Value::String(request_id.to_string()),
    );
    header.insert(
        "messagePurpose".to_string(),
        serde_json::Value::String("commandRequest".to_string()),
    );
    header.insert(
        "messageType".to_string(),
        serde_json::Value::String("commandRequest".to_string()),
    );
    let mut root = serde_json::Map::new();
    root.insert("header".to_string(), serde_json::Value::Object(header));
    root.insert("body".to_string(), serde_json::Value::Object(body));
    serde_json::Value::Object(root).to_string()
}

#[test]
fn frame_matches_serde_rendering() {
    let id = "8f3c2a10-aaaa-bbbb-cccc-0123456789ab".to_string();
    let cmd = "/clear Bob".to_string();
    let frame = frame_for(&id, &cmd);
    assert_eq!(frame, serde_envelope(&id, &cmd));
}

#[test]
fn frame_exact_text() {
    let id = "id-1".to_string();
    let cmd = "fill 25 -30 -25 -25 -20 25 bedrock hollow".to_string();
    let frame = frame_for(&id, &cmd);
    assert_eq!(
        frame,
        "{\"body\":{\"commandLine\":\"fill 25 -30 -25 -25 -20 25 bedrock hollow\",\"version\":1},\
         \"header\":{\"messagePurpose\":\"commandRequest\",\"messageType\":\"commandRequest\",\
         \"requestId\":\"id-1\",\"version\":1}}"
    );
}

#[test]
fn frame_escapes_special_characters() {
    // The command text is quoted as a JSON string literal, not pasted in.
    let id = "id-2".to_string();
    let cmd = "say \"hello\\there\"\n".to_string();
    let frame = frame_for(&id, &cmd);
    assert_eq!(frame, serde_envelope(&id, &cmd));
    assert!(frame.contains("\\\"hello\\\\there\\\"\\n"));
}

#[test]
fn make_frame_uses_a_fresh_36_char_request_id() {
    let cmd = "/clear Bob".to_string();
    let frame = make_frame(&cmd);
    // Same shape and length as a frame under any 36-character identifier.
    let reference = frame_for(&"x".repeat(36), &cmd);
    assert_eq!(frame.len(), reference.len());
    let prefix = "{\"body\":{\"commandLine\":\"/clear Bob\",\"version\":1},\"header\":{\
                  \"messagePurpose\":\"commandRequest\",\"messageType\":\"commandRequest\",\
                  \"requestId\":\"";
    assert!(frame.starts_with(prefix));
    assert!(frame.ends_with("\",\"version\":1}}"));
    // Two frames carry different identifiers.
    let other = make_frame(&cmd);
    assert_ne!(frame, other);
}

#[test]
fn dispatch_step_decides_delivery_or_wait() {
    assert_eq!(dispatch_step(true), DispatchStep::Delivered);
    assert_eq!(dispatch_step(false), DispatchStep::AwaitConnection);
}

#[test]
fn reconnect_waits_for_a_connection_event() {
    assert!(reconnect_done(&ChannelEvent::Connected));
    assert!(!reconnect_done(&ChannelEvent::Other));
}
