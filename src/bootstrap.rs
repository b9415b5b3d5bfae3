//! The opening handshake: five messages in a fixed order.

use vstd::prelude::*;

use crate::json::{object_str, JsonValue};
use crate::messages::{
    decode_init, frame_payload, init_decoded, init_kind, InitKind, InitMessage,
};

verus! {

/// Where the opening handshake stands: the message it waits for next, or
/// done.
#[derive(Clone, Copy, Debug, PartialEq, Eq, Structural)]
pub enum Stage {
    AwaitState,
    AwaitInfo,
    AwaitDevices,
    AwaitGroups,
    AwaitExtensions,
    Ready,
}

/// The message a stage waits for.
pub open spec fn expected_kind(s: Stage) -> InitKind
    recommends
        s != Stage::Ready,
{
    match s {
        Stage::AwaitState => InitKind::BridgeState,
        Stage::AwaitInfo => InitKind::BridgeInfo,
        Stage::AwaitDevices => InitKind::Devices,
        Stage::AwaitGroups => InitKind::Groups,
        _ => InitKind::Extensions,
    }
}

/// The stage after a stage's message has arrived.
pub open spec fn next_stage(s: Stage) -> Stage {
    match s {
        Stage::AwaitState => Stage::AwaitInfo,
        Stage::AwaitInfo => Stage::AwaitDevices,
        Stage::AwaitDevices => Stage::AwaitGroups,
        Stage::AwaitGroups => Stage::AwaitExtensions,
        _ => Stage::Ready,
    }
}

/// The message expected at position `k` (below five) of the handshake.
pub open spec fn kind_at(k: int) -> InitKind {
    if k == 0 {
        InitKind::BridgeState
    } else if k == 1 {
        InitKind::BridgeInfo
    } else if k == 2 {
        InitKind::Devices
    } else if k == 3 {
        InitKind::Groups
    } else {
        InitKind::Extensions
    }
}

/// Why the handshake failed.
#[derive(Debug)]
pub enum HandshakeError {
    /// The channel closed before the handshake was complete.
    HungUp,
    /// A frame did not decode as any initialization message.
    Malformed,
    /// A frame decoded as another initialization message than the one due.
    OutOfOrder { expected: InitKind, found: InitKind },
}

/// What the handshake learnt of the bridge.
#[derive(Debug)]
pub struct ConnectionInfo {
    /// The bridge's version.
    pub version: String,
    /// The topics of the devices the bridge knows of, in the order listed.
    pub devices: Vec<String>,
}

/// The opening handshake: the five initialization messages, each exactly
/// once and in order.
#[derive(Debug)]
pub struct Handshake {
    pub stage: Stage,
    /// The version from the info message, once it has arrived.
    pub version: String,
    /// The device topics from the device list, once it has arrived.
    pub devices: Vec<String>,
}

/// `names` are the `friendly_name`s of the device list carried by `frame`.
pub open spec fn listed_devices(frame: JsonValue, names: Seq<String>) -> bool {
    frame_payload(frame) matches Some(JsonValue::Array(items)) && {
        &&& names.len() == items@.len()
        &&& forall|i: int|
            0 <= i < items@.len() ==> object_str(#[trigger] items@[i], "friendly_name"@) == Some(
                names[i]@,
            )
    }
}

/// `version` is the version carried by the info message `frame`.
pub open spec fn info_version(frame: JsonValue, version: Seq<char>) -> bool {
    frame_payload(frame) matches Some(q) && object_str(q, "version"@) == Some(version)
}

impl Handshake {
    /// A handshake waiting for its first message.
    pub fn new() -> (r: Handshake)
        ensures
            r.stage == Stage::AwaitState,
            r.version@.len() == 0,
            r.devices@.len() == 0,
    {
        Handshake { stage: Stage::AwaitState, version: String::new(), devices: Vec::new() }
    }

    /// Whether all five messages have arrived.
    pub fn is_ready(&self) -> (r: bool)
        ensures
            r == (self.stage == Stage::Ready),
    {
        self.stage == Stage::Ready
    }

    /// The message the handshake waits for.
    pub fn expected(&self) -> (r: InitKind)
        requires
            self.stage != Stage::Ready,
        ensures
            r == expected_kind(self.stage),
    {
        match self.stage {
            Stage::AwaitState => InitKind::BridgeState,
            Stage::AwaitInfo => InitKind::BridgeInfo,
            Stage::AwaitDevices => InitKind::Devices,
            Stage::AwaitGroups => InitKind::Groups,
            _ => InitKind::Extensions,
        }
    }

    /// Takes the next frame. It must decode as the message the current stage
    /// waits for; the handshake then moves to the next stage, keeping the
    /// version or the device topics the message carries.
    pub fn accept(&mut self, frame: &JsonValue) -> (r: Result<(), HandshakeError>)
        requires
            old(self).stage != Stage::Ready,
        ensures
            r is Ok <==> init_kind(*frame) == Some(expected_kind(old(self).stage)),
            r matches Err(HandshakeError::Malformed) <==> init_kind(*frame) is None,
            r matches Err(HandshakeError::OutOfOrder { expected, found }) ==> init_kind(*frame)
                == Some(found) && found != expected && expected == expected_kind(old(self).stage),
            !(r matches Err(HandshakeError::HungUp)),
            r is Ok ==> final(self).stage == next_stage(old(self).stage),
            r is Err ==> final(self).stage == old(self).stage,
            r is Ok && old(self).stage == Stage::AwaitInfo ==> info_version(
                *frame,
                final(self).version@,
            ) && final(self).devices@ == old(self).devices@,
            r is Ok && old(self).stage == Stage::AwaitDevices ==> listed_devices(
                *frame,
                final(self).devices@,
            ) && final(self).version@ == old(self).version@,
            r is Ok && old(self).stage != Stage::AwaitInfo && old(self).stage
                != Stage::AwaitDevices ==> final(self).version@ == old(self).version@
                && final(self).devices@ == old(self).devices@,
    {
        let expected = self.expected();
        let m = match decode_init(frame) {
            Ok(m) => m,
            Err(_) => return Err(HandshakeError::Malformed),
        };
        let found = m.kind();
        if found != expected {
            return Err(HandshakeError::OutOfOrder { expected, found });
        }
        proof {
            assert(init_decoded(*frame, m));
        }
        match m {
            InitMessage::BridgeInfo { version } => {
                self.version = version;
            },
            InitMessage::Devices { devices } => {
                let mut names: Vec<String> = Vec::new();
                let mut i: usize = 0;
                while i < devices.len()
                    invariant
                        i <= devices@.len(),
                        names@.len() == i,
                        forall|j: int|
                            0 <= j < i ==> (#[trigger] names@[j])@ == devices@[j].topic_name@,
                    decreases devices.len() - i,
                {
                    names.push(devices[i].topic_name.clone());
                    i = i + 1;
                }
                self.devices = names;
            },
            _ => {},
        }
        self.stage = match self.stage {
            Stage::AwaitState => Stage::AwaitInfo,
            Stage::AwaitInfo => Stage::AwaitDevices,
            Stage::AwaitDevices => Stage::AwaitGroups,
            Stage::AwaitGroups => Stage::AwaitExtensions,
            _ => Stage::Ready,
        };
        Ok(())
    }

    /// What the completed handshake learnt.
    pub fn finish(self) -> (r: ConnectionInfo)
        requires
            self.stage == Stage::Ready,
        ensures
            r.version@ == self.version@,
            r.devices@ == self.devices@,
    {
        ConnectionInfo { version: self.version, devices: self.devices }
    }
}

/// The stage that waits for the message at position `k` of the handshake.
pub open spec fn stage_at(k: int) -> Stage {
    if k == 0 {
        Stage::AwaitState
    } else if k == 1 {
        Stage::AwaitInfo
    } else if k == 2 {
        Stage::AwaitDevices
    } else if k == 3 {
        Stage::AwaitGroups
    } else if k == 4 {
        Stage::AwaitExtensions
    } else {
        Stage::Ready
    }
}

/// The first `n` frames are the first `n` handshake messages, in order.
pub open spec fn handshake_prefix_ok(frames: Seq<JsonValue>, n: int) -> bool {
    forall|k: int| 0 <= k < n ==> init_kind(#[trigger] frames[k]) == Some(kind_at(k))
}

/// The handshake completes on `frames`: the first five frames are the state,
/// info, device list, groups and extensions messages, in this order.
pub open spec fn handshake_ok(frames: Seq<JsonValue>) -> bool {
    frames.len() >= 5 && handshake_prefix_ok(frames, 5)
}

/// Runs the handshake over the frames in the order they arrive. It reads at
/// most five of them; the rest belong to the steady-state protocol.
pub fn bootstrap(frames: &Vec<JsonValue>) -> (r: Result<ConnectionInfo, HandshakeError>)
    ensures
        r is Ok <==> handshake_ok(frames@),
        r matches Ok(info) ==> info_version(frames@[1], info.version@) && listed_devices(
            frames@[2],
            info.devices@,
        ),
        r matches Err(HandshakeError::HungUp) <==> frames@.len() < 5 && handshake_prefix_ok(
            frames@,
            frames@.len() as int,
        ),
{
    let mut h = Handshake::new();
    let mut k: usize = 0;
    while k < 5
        invariant
            k <= 5,
            h.stage == stage_at(k as int),
            k <= frames@.len(),
            handshake_prefix_ok(frames@, k as int),
            k > 1 ==> info_version(frames@[1], h.version@),
            k > 2 ==> listed_devices(frames@[2], h.devices@),
        decreases 5 - k,
    {
        if k == frames.len() {
            proof {
                assert(handshake_prefix_ok(frames@, frames@.len() as int));
            }
            return Err(HandshakeError::HungUp);
        }
        let ghost before = h;
        match h.accept(&frames[k]) {
            Ok(()) => {},
            Err(e) => {
                proof {
                    assert(!handshake_prefix_ok(frames@, k + 1));
                }
                return Err(e);
            },
        }
        proof {
            assert(handshake_prefix_ok(frames@, k + 1)) by {
                assert forall|j: int| 0 <= j < k + 1 implies init_kind(#[trigger] frames@[j])
                    == Some(kind_at(j)) by {
                    if j < k {
                        assert(handshake_prefix_ok(frames@, k as int));
                    }
                }
            }
        }
        k = k + 1;
    }
    Ok(h.finish())
}

/// A frame that is not the message due at its position fails the handshake.
pub proof fn lemma_out_of_order_fails(frames: Seq<JsonValue>, k: int)
    requires
        0 <= k < 5,
        k < frames.len(),
        init_kind(frames[k]) != Some(kind_at(k)),
    ensures
        !handshake_ok(frames),
{
}

/// Fewer than five frames never complete the handshake.
pub proof fn lemma_missing_frames_fail(frames: Seq<JsonValue>)
    requires
        frames.len() < 5,
    ensures
        !handshake_ok(frames),
{
}

/// A frame added among the handshake messages of a sequence that completes
/// the handshake makes it fail, unless it is one more extensions message
/// placed just before the extensions message.
pub proof fn lemma_extra_frame_fails(frames: Seq<JsonValue>, k: int, x: JsonValue)
    requires
        handshake_ok(frames),
        0 <= k < 4 || (k == 4 && init_kind(x) != Some(InitKind::Extensions)),
    ensures
        !handshake_ok(frames.insert(k, x)),
{
    let g = frames.insert(k, x);
    if k < 4 {
        assert(g[k + 1] == frames[k]);
        assert(init_kind(frames[k]) == Some(kind_at(k)));
        assert(init_kind(g[k + 1]) != Some(kind_at(k + 1)));
    } else {
        assert(g[k] == x);
    }
}

/// Leaving out one of the first four handshake messages of a sequence that
/// completes the handshake makes it fail.
pub proof fn lemma_dropped_frame_fails(frames: Seq<JsonValue>, k: int)
    requires
        handshake_ok(frames),
        0 <= k < 4,
    ensures
        !handshake_ok(frames.remove(k)),
{
    let g = frames.remove(k);
    assert(g[k] == frames[k + 1]);
    assert(init_kind(frames[k + 1]) == Some(kind_at(k + 1)));
    assert(init_kind(g[k]) != Some(kind_at(k)));
}

/// Only the first five frames decide the handshake: frames after them are
/// never read by it.
pub proof fn lemma_only_first_five_read(a: Seq<JsonValue>, b: Seq<JsonValue>)
    requires
        a.len() >= 5,
        b.len() >= 5,
        a.subrange(0, 5) == b.subrange(0, 5),
    ensures
        handshake_ok(a) == handshake_ok(b),
{
    assert forall|k: int| 0 <= k < 5 implies a[k] == b[k] by {
        assert(a[k] == a.subrange(0, 5)[k]);
        assert(b[k] == b.subrange(0, 5)[k]);
    }
}

} // verus!
