use apply_inovelli_defaults::bootstrap::{bootstrap, Handshake, HandshakeError, Stage};
use apply_inovelli_defaults::json::{JsonValue};
use apply_inovelli_defaults::messages::{decode_init, InitKind, InitMessage};

fn text(s: &str) -> JsonValue {
    JsonValue::Str(s.to_string())
}

fn object(entries: Vec<(&str, JsonValue)>) -> JsonValue {
    JsonValue::Object(entries.into_iter().map(|(k, v)| (k.to_string(), v)).collect())
}

fn frame(topic: &str, payload: JsonValue) -> JsonValue {
    object(vec![("topic", text(topic)), ("payload", payload)])
}

fn device(name: &str, addr: &str) -> JsonValue {
    object(vec![
        ("friendly_name", text(name)),
        ("ieee_address", text(addr)),
        ("supported", JsonValue::Bool(true)),
        ("model", text("VZM31-SN")),
    ])
}

fn init_frames() -> Vec<JsonValue> {
    vec![
        frame("bridge/state", object(vec![("state", text("online"))])),
        frame("bridge/info", object(vec![("version", text("1.33.0")), ("commit", text("abc"))])),
        frame("bridge/devices", JsonValue::Array(vec![device("kitchen", "0x01"), device("hall", "0x02")])),
        frame("bridge/groups", JsonValue::Array(vec![])),
        frame("bridge/extensions", JsonValue::Array(vec![])),
    ]
}

#[test]
fn handshake_in_order_succeeds() {
    let mut frames = init_frames();
    frames.push(frame("dev1", object(vec![("state", text("ON"))])));
    let info = bootstrap(&frames).expect("handshake completes");
    assert_eq!(info.version, "1.33.0");
    assert_eq!(info.devices, vec!["kitchen".to_string(), "hall".to_string()]);
}

#[test]
fn handshake_out_of_order_fails() {
    let mut frames = init_frames();
    frames.swap(1, 2);
    match bootstrap(&frames) {
        Err(HandshakeError::OutOfOrder { expected, found }) => {
            assert_eq!(expected, InitKind::BridgeInfo);
            assert_eq!(found, InitKind::Devices);
        }
        other => panic!("unexpected {:?}", other),
    }
}

#[test]
fn handshake_with_extra_frame_fails() {
    let mut frames = init_frames();
    frames.insert(2, frame("bridge/logging", object(vec![("level", text("info")), ("message", text("hi"))])));
    assert!(matches!(bootstrap(&frames), Err(HandshakeError::Malformed)));
    let mut frames = init_frames();
    frames.insert(1, frame("bridge/state", object(vec![("state", text("online"))])));
    assert!(matches!(bootstrap(&frames), Err(HandshakeError::OutOfOrder { .. })));
}

#[test]
fn handshake_with_missing_frame_fails() {
    let mut frames = init_frames();
    frames.remove(3);
    assert!(matches!(
        bootstrap(&frames),
        Err(HandshakeError::OutOfOrder { expected: InitKind::Groups, found: InitKind::Extensions })
    ));
    let mut frames = init_frames();
    frames.pop();
    assert!(matches!(bootstrap(&frames), Err(HandshakeError::HungUp)));
    assert!(matches!(bootstrap(&Vec::new()), Err(HandshakeError::HungUp)));
}

#[test]
fn handshake_rejects_bad_payload() {
    let mut frames = init_frames();
    frames[1] = frame("bridge/info", object(vec![("version", JsonValue::Bool(true))]));
    assert!(matches!(bootstrap(&frames), Err(HandshakeError::Malformed)));
    let mut frames = init_frames();
    frames[2] = frame("bridge/devices", JsonValue::Array(vec![object(vec![("friendly_name", text("x"))])]));
    assert!(matches!(bootstrap(&frames), Err(HandshakeError::Malformed)));
    let mut frames = init_frames();
    frames[0] = text("not an object");
    assert!(matches!(bootstrap(&frames), Err(HandshakeError::Malformed)));
}

#[test]
fn handshake_steps_one_frame_at_a_time() {
    let frames = init_frames();
    let mut h = Handshake::new();
    assert_eq!(h.stage, Stage::AwaitState);
    for f in frames.iter() {
        assert!(!h.is_ready());
        h.accept(f).unwrap();
    }
    assert!(h.is_ready());
    let info = h.finish();
    assert_eq!(info.version, "1.33.0");
}

#[test]
fn failed_step_keeps_stage() {
    let frames = init_frames();
    let mut h = Handshake::new();
    h.accept(&frames[0]).unwrap();
    assert!(h.accept(&frames[0]).is_err());
    assert_eq!(h.stage, Stage::AwaitInfo);
}

#[test]
fn decodes_device_list() {
    let f = frame("bridge/devices", JsonValue::Array(vec![device("kitchen", "0x01")]));
    match decode_init(&f) {
        Ok(InitMessage::Devices { devices }) => {
            assert_eq!(devices.len(), 1);
            assert_eq!(devices[0].topic_name, "kitchen");
            assert_eq!(devices[0].ieee_address, "0x01");
            assert!(devices[0].supported);
        }
        other => panic!("unexpected {:?}", other),
    }
    assert!(decode_init(&frame("bridge/unknown", JsonValue::Null)).is_err());
}
