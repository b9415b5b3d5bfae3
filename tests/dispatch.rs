use apply_inovelli_defaults::config::ConfigClause;
use apply_inovelli_defaults::dispatch::{decompose, set_topic, Action, Dispatcher};
use apply_inovelli_defaults::json::{JsonNumber, JsonValue};
use apply_inovelli_defaults::messages::{classify, Message};

fn text(s: &str) -> JsonValue {
    JsonValue::Str(s.to_string())
}

fn num(n: u64) -> JsonValue {
    JsonValue::Number(JsonNumber::PosInt(n))
}

fn fields(entries: Vec<(&str, JsonValue)>) -> Vec<(String, JsonValue)> {
    entries.into_iter().map(|(k, v)| (k.to_string(), v)).collect()
}

fn frame(topic: &str, payload: JsonValue) -> JsonValue {
    JsonValue::Object(fields(vec![("topic", text(topic)), ("payload", payload)]))
}

fn update(topic: &str, entries: Vec<(&str, JsonValue)>) -> JsonValue {
    frame(topic, JsonValue::Object(fields(entries)))
}

fn brightness_rules() -> Vec<ConfigClause> {
    vec![ConfigClause::new(None, fields(vec![("state", text("ON"))]), fields(vec![("brightness", num(100))]))]
}

#[test]
fn matching_update_sends_one_frame_and_marks_device() {
    let mut d = Dispatcher::new(brightness_rules(), false);
    match d.on_frame(update("dev1", vec![("state", text("ON"))])) {
        Action::Apply { topic, messages, transmit, .. } => {
            assert_eq!(topic, "dev1/set");
            assert!(transmit);
            assert_eq!(messages.len(), 1);
            assert_eq!(messages[0].topic, "dev1/set");
            assert_eq!(messages[0].payload.len(), 1);
            assert_eq!(messages[0].payload[0].0, "brightness");
            assert!(messages[0].payload[0].1.equals(&num(100)));
        }
        other => panic!("unexpected {:?}", other),
    }
    assert_eq!(d.handled, vec!["dev1".to_string()]);
}

#[test]
fn second_update_of_handled_device_is_skipped() {
    let mut d = Dispatcher::new(brightness_rules(), false);
    assert!(matches!(d.on_frame(update("dev1", vec![("state", text("ON"))])), Action::Apply { .. }));
    assert!(matches!(d.on_frame(update("dev1", vec![("state", text("OFF"))])), Action::AlreadyHandled { .. }));
    assert!(matches!(d.on_frame(update("dev1", vec![("state", text("ON"))])), Action::AlreadyHandled { .. }));
    assert_eq!(d.handled.len(), 1);
}

#[test]
fn non_matching_update_changes_nothing() {
    let mut d = Dispatcher::new(brightness_rules(), false);
    assert!(matches!(d.on_frame(update("dev2", vec![("state", text("OFF"))])), Action::NoMatch { .. }));
    assert!(d.handled.is_empty());
    assert!(matches!(d.on_frame(update("dev2", vec![("state", text("ON"))])), Action::Apply { .. }));
}

#[test]
fn dry_run_decides_the_same_but_does_not_transmit() {
    let mut live = Dispatcher::new(brightness_rules(), false);
    let mut dry = Dispatcher::new(brightness_rules(), true);
    let f = || update("dev1", vec![("state", text("ON"))]);
    match (live.on_frame(f()), dry.on_frame(f())) {
        (
            Action::Apply { rule_name: n1, topic: t1, messages: m1, transmit: x1 },
            Action::Apply { rule_name: n2, topic: t2, messages: m2, transmit: x2 },
        ) => {
            assert!(x1);
            assert!(!x2);
            assert_eq!(n1, n2);
            assert_eq!(t1, t2);
            assert_eq!(m1.len(), m2.len());
        }
        other => panic!("unexpected {:?}", other),
    }
    assert_eq!(live.handled, dry.handled);
}

#[test]
fn decomposes_into_one_message_per_field() {
    let values = fields(vec![("a", num(1)), ("b", text("x")), ("c", JsonValue::Bool(false))]);
    let msgs = decompose(&"lamp/set".to_string(), &values);
    assert_eq!(msgs.len(), 3);
    for (m, (k, v)) in msgs.iter().zip(values.iter()) {
        assert_eq!(m.topic, "lamp/set");
        assert_eq!(m.payload.len(), 1);
        assert_eq!(&m.payload[0].0, k);
        assert!(m.payload[0].1.equals(v));
    }
    assert!(decompose(&"lamp/set".to_string(), &Vec::new()).is_empty());
}

#[test]
fn set_topic_appends_suffix() {
    assert_eq!(set_topic(&"living room/lamp".to_string()), "living room/lamp/set");
}

#[test]
fn outbound_frame_shape() {
    let msgs = decompose(&"dev1/set".to_string(), &fields(vec![("brightness", num(100))]));
    let f = msgs[0].to_frame();
    let expected = frame("dev1/set", JsonValue::Object(fields(vec![("brightness", num(100))])));
    assert!(f.equals(&expected));
}

#[test]
fn log_frames_are_recorded_not_matched() {
    let rules = vec![ConfigClause::new(None, Vec::new(), fields(vec![("x", num(1))]))];
    let mut d = Dispatcher::new(rules, false);
    let f = update("bridge/logging", vec![("level", text("info")), ("message", text("hello"))]);
    match d.on_frame(f) {
        Action::Log { topic, level, message } => {
            assert_eq!(topic, "bridge/logging");
            assert_eq!(level, "info");
            assert_eq!(message, "hello");
        }
        other => panic!("unexpected {:?}", other),
    }
    assert!(d.handled.is_empty());
}

#[test]
fn markers_and_unknown_frames_are_ignored() {
    let mut d = Dispatcher::new(brightness_rules(), false);
    assert!(matches!(d.on_frame(frame("bridge/state", text("online"))), Action::Ignore));
    assert!(matches!(d.on_frame(frame("x", JsonValue::Null)), Action::Ignore));
    assert!(matches!(d.on_frame(JsonValue::Object(fields(vec![("topic", text("y"))]))), Action::Ignore));
    assert!(matches!(d.on_frame(frame("groups", JsonValue::Array(vec![]))), Action::Ignore));
    assert!(matches!(d.on_frame(text("junk")), Action::Ignore));
}

#[test]
fn classify_shapes() {
    assert!(matches!(classify(frame("t", text("s"))), Message::Null { .. }));
    assert!(matches!(classify(JsonValue::Object(fields(vec![("topic", text("t"))]))), Message::Null { .. }));
    assert!(matches!(classify(update("t", vec![("level", text("x"))])), Message::Update { .. }));
    assert!(matches!(classify(frame("t", num(3))), Message::Other));
    match classify(update("dev9", vec![("state", text("ON")), ("linkquality", num(80))])) {
        Message::Update { topic, payload } => {
            assert_eq!(topic, "dev9");
            assert_eq!(payload.len(), 2);
        }
        other => panic!("unexpected {:?}", other),
    }
}
