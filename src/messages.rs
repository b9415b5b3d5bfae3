//! Reading frames as the messages of the handshake and of the steady state.

use vstd::prelude::*;

use crate::json::{
    find_named, first_key_at, get_object_member, get_str, lemma_first_key_unique, member, object_member,
    object_str, Fields, JsonValue,
};

verus! {

/// The five messages the bridge sends when a connection opens, in the
/// order they arrive.
#[derive(Clone, Copy, Debug, PartialEq, Eq, Structural)]
pub enum InitKind {
    BridgeState,
    BridgeInfo,
    Devices,
    Groups,
    Extensions,
}

/// A device the bridge knows of.
#[derive(Debug)]
pub struct BridgeDevice {
    /// The topic the device's updates are published under.
    pub topic_name: String,
    pub ieee_address: String,
    pub supported: bool,
}

/// A decoded initialization message.
#[derive(Debug)]
pub enum InitMessage {
    BridgeState { state: String },
    BridgeInfo { version: String },
    Devices { devices: Vec<BridgeDevice> },
    Groups,
    Extensions,
}

/// A decoded message of the steady-state protocol.
#[derive(Debug)]
pub enum Message {
    /// A log line of the bridge.
    Log { topic: String, level: String, message: String },
    /// A marker without content, ignored.
    Null { topic: String },
    /// The current values of the device whose topic is `topic`.
    Update { topic: String, payload: Fields },
    /// A frame of no known shape, ignored.
    Other,
}

/// The `topic` text of a frame.
pub open spec fn frame_topic(frame: JsonValue) -> Option<Seq<char>> {
    object_str(frame, "topic"@)
}

/// The `payload` value of a frame.
pub open spec fn frame_payload(frame: JsonValue) -> Option<JsonValue> {
    object_member(frame, "payload"@)
}

/// An entry of the device list: an object with a text `friendly_name`, a
/// text `ieee_address` and a boolean `supported`.
pub open spec fn is_device_record(v: JsonValue) -> bool {
    &&& object_str(v, "friendly_name"@) is Some
    &&& object_str(v, "ieee_address"@) is Some
    &&& object_member(v, "supported"@) matches Some(JsonValue::Bool(_))
}

/// The payload of the device list: an array of device records.
pub open spec fn is_device_list(p: JsonValue) -> bool {
    &&& p is Array
    &&& forall|i: int|
        0 <= i < p->Array_0@.len() ==> is_device_record(#[trigger] p->Array_0@[i])
}

/// Which initialization message a frame decodes as, if any: its `topic`
/// picks the shape, and its payload must fit that shape.
pub open spec fn init_kind(frame: JsonValue) -> Option<InitKind> {
    match frame_topic(frame) {
        Some(t) => {
            let p = frame_payload(frame);
            if t == "bridge/state"@ {
                if p matches Some(q) && object_str(q, "state"@) is Some {
                    Some(InitKind::BridgeState)
                } else {
                    None
                }
            } else if t == "bridge/info"@ {
                if p matches Some(q) && object_str(q, "version"@) is Some {
                    Some(InitKind::BridgeInfo)
                } else {
                    None
                }
            } else if t == "bridge/devices"@ {
                if p matches Some(q) && is_device_list(q) {
                    Some(InitKind::Devices)
                } else {
                    None
                }
            } else if t == "bridge/groups"@ {
                Some(InitKind::Groups)
            } else if t == "bridge/extensions"@ {
                Some(InitKind::Extensions)
            } else {
                None
            }
        },
        None => None,
    }
}

/// The kind of a decoded initialization message.
pub open spec fn kind_of(m: InitMessage) -> InitKind {
    match m {
        InitMessage::BridgeState { .. } => InitKind::BridgeState,
        InitMessage::BridgeInfo { .. } => InitKind::BridgeInfo,
        InitMessage::Devices { .. } => InitKind::Devices,
        InitMessage::Groups => InitKind::Groups,
        InitMessage::Extensions => InitKind::Extensions,
    }
}

/// `d` holds what the device record `v` holds.
pub open spec fn device_decoded(v: JsonValue, d: BridgeDevice) -> bool {
    &&& object_str(v, "friendly_name"@) == Some(d.topic_name@)
    &&& object_str(v, "ieee_address"@) == Some(d.ieee_address@)
    &&& object_member(v, "supported"@) == Some(JsonValue::Bool(d.supported))
}

/// `m` holds what the payload of `frame` holds.
pub open spec fn init_decoded(frame: JsonValue, m: InitMessage) -> bool {
    let p = frame_payload(frame);
    match m {
        InitMessage::BridgeState { state } => p matches Some(q) && object_str(q, "state"@) == Some(
            state@,
        ),
        InitMessage::BridgeInfo { version } => p matches Some(q) && object_str(q, "version"@)
            == Some(version@),
        InitMessage::Devices { devices } => p matches Some(JsonValue::Array(items)) && {
            &&& devices@.len() == items@.len()
            &&& forall|i: int|
                0 <= i < items@.len() ==> device_decoded(#[trigger] items@[i], devices@[i])
        },
        InitMessage::Groups => true,
        InitMessage::Extensions => true,
    }
}

/// A frame that does not fit the shape its topic names, or names none.
#[derive(Debug)]
pub struct DecodeError;

impl InitMessage {
    /// The kind of the message.
    pub fn kind(&self) -> (r: InitKind)
        ensures
            r == kind_of(*self),
    {
        match self {
            InitMessage::BridgeState { .. } => InitKind::BridgeState,
            InitMessage::BridgeInfo { .. } => InitKind::BridgeInfo,
            InitMessage::Devices { .. } => InitKind::Devices,
            InitMessage::Groups => InitKind::Groups,
            InitMessage::Extensions => InitKind::Extensions,
        }
    }
}

fn text_is(s: &String, t: &str) -> (r: bool)
    ensures
        r == (s@ == t@),
{
    *s == String::from_str(t)
}

/// Decodes the device list payload.
fn decode_devices(items: &Vec<JsonValue>) -> (r: Option<Vec<BridgeDevice>>)
    ensures
        r is Some <==> is_device_list(JsonValue::Array(*items)),
        r matches Some(ds) ==> ds@.len() == items@.len() && forall|i: int|
            0 <= i < items@.len() ==> device_decoded(#[trigger] items@[i], ds@[i]),
{
    let mut out: Vec<BridgeDevice> = Vec::new();
    let mut i: usize = 0;
    while i < items.len()
        invariant
            i <= items.len(),
            out@.len() == i,
            forall|j: int| 0 <= j < i ==> is_device_record(#[trigger] items@[j]),
            forall|j: int| 0 <= j < i ==> device_decoded(#[trigger] items@[j], out@[j]),
        decreases items.len() - i,
    {
        let item = &items[i];
        let name = get_str(item, "friendly_name");
        let address = get_str(item, "ieee_address");
        let supported = get_object_member(item, "supported");
        match (name, address, supported) {
            (Some(n), Some(a), Some(JsonValue::Bool(b))) => {
                out.push(BridgeDevice { topic_name: n.clone(), ieee_address: a.clone(), supported: *b });
            },
            _ => {
                proof {
                    assert(!is_device_record(items@[i as int]));
                    let p = JsonValue::Array(*items);
                    assert(p->Array_0@[i as int] == items@[i as int]);
                }
                return None;
            },
        }
        i = i + 1;
    }
    proof {
        let p = JsonValue::Array(*items);
        assert forall|j: int| 0 <= j < p->Array_0@.len() implies is_device_record(
            #[trigger] p->Array_0@[j],
        ) by {
            assert(p->Array_0@[j] == items@[j]);
        }
    }
    Some(out)
}

/// Decodes a frame as one of the initialization messages.
pub fn decode_init(frame: &JsonValue) -> (r: Result<InitMessage, DecodeError>)
    ensures
        r is Ok <==> init_kind(*frame) is Some,
        r matches Ok(m) ==> init_kind(*frame) == Some(kind_of(m)) && init_decoded(*frame, m),
{
    let topic = match get_str(frame, "topic") {
        Some(t) => t,
        None => return Err(DecodeError),
    };
    let payload = get_object_member(frame, "payload");
    if text_is(topic, "bridge/state") {
        match payload {
            Some(q) => match get_str(q, "state") {
                Some(s) => Ok(InitMessage::BridgeState { state: s.clone() }),
                None => Err(DecodeError),
            },
            None => Err(DecodeError),
        }
    } else if text_is(topic, "bridge/info") {
        match payload {
            Some(q) => match get_str(q, "version") {
                Some(v) => Ok(InitMessage::BridgeInfo { version: v.clone() }),
                None => Err(DecodeError),
            },
            None => Err(DecodeError),
        }
    } else if text_is(topic, "bridge/devices") {
        match payload {
            Some(JsonValue::Array(items)) => match decode_devices(items) {
                Some(devices) => Ok(InitMessage::Devices { devices }),
                None => Err(DecodeError),
            },
            _ => Err(DecodeError),
        }
    } else if text_is(topic, "bridge/groups") {
        Ok(InitMessage::Groups)
    } else if text_is(topic, "bridge/extensions") {
        Ok(InitMessage::Extensions)
    } else {
        Err(DecodeError)
    }
}

/// A payload that reads as a log line: an object with text `level` and
/// `message`.
pub open spec fn is_log_payload(p: JsonValue) -> bool {
    &&& object_str(p, "level"@) is Some
    &&& object_str(p, "message"@) is Some
}

/// `m` is how the steady-state protocol reads `frame`. The shapes are tried
/// in order, the first that fits wins: a log line, a marker whose payload is
/// absent, null or a text, an update whose payload is an object; a frame
/// without a text `topic`, or with a payload of another kind, is "other".
pub open spec fn classified(frame: JsonValue, m: Message) -> bool {
    let p = frame_payload(frame);
    match m {
        Message::Log { topic, level, message } => {
            &&& frame_topic(frame) == Some(topic@)
            &&& p matches Some(q) && q is Object && object_str(q, "level"@) == Some(level@)
                && object_str(q, "message"@) == Some(message@)
        },
        Message::Null { topic } => {
            &&& frame_topic(frame) == Some(topic@)
            &&& (p is None || p matches Some(JsonValue::Null) || p matches Some(JsonValue::Str(_)))
        },
        Message::Update { topic, payload } => {
            &&& frame_topic(frame) == Some(topic@)
            &&& p == Some(JsonValue::Object(payload))
            &&& !is_log_payload(JsonValue::Object(payload))
        },
        Message::Other => {
            ||| frame_topic(frame) is None
            ||| p matches Some(JsonValue::Bool(_))
            ||| p matches Some(JsonValue::Number(_))
            ||| p matches Some(JsonValue::Array(_))
        },
    }
}

/// Reads a frame of the steady-state protocol.
pub fn classify(frame: JsonValue) -> (r: Message)
    ensures
        classified(frame, r),
{
    let topic = match get_str(&frame, "topic") {
        Some(t) => t.clone(),
        None => return Message::Other,
    };
    let ghost whole = frame;
    let mut fields = match frame {
        JsonValue::Object(f) => f,
        _ => return Message::Other,
    };
    let payload = match find_named(&fields, "payload") {
        Some(i) => {
            proof {
                let j = choose|j: int| first_key_at(fields@, "payload"@, j);
                lemma_first_key_unique(fields@, "payload"@, i as int, j);
                assert(member(fields@, "payload"@) == Some(fields@[i as int].1));
            }
            fields.remove(i).1
        },
        None => {
            proof {
                assert forall|i: int| !first_key_at(fields@, "payload"@, i) by {
                    if 0 <= i < fields@.len() {
                        assert(fields@[i].0@ != "payload"@);
                    }
                }
            }
            return Message::Null { topic };
        },
    };
    proof {
        assert(frame_payload(whole) == Some(payload));
    }
    match payload {
        JsonValue::Null => Message::Null { topic },
        JsonValue::Str(_) => Message::Null { topic },
        JsonValue::Object(p) => {
            let q = JsonValue::Object(p);
            let level = get_str(&q, "level");
            let message = get_str(&q, "message");
            match (level, message) {
                (Some(l), Some(m)) => {
                    return Message::Log { topic, level: l.clone(), message: m.clone() };
                },
                _ => {},
            }
            match q {
                JsonValue::Object(p) => Message::Update { topic, payload: p },
                _ => Message::Other,
            }
        },
        _ => Message::Other,
    }
}

} // verus!
