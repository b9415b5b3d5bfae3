//! The steady-state protocol: which device updates fire a rule, and the
//! messages that result.

use vstd::prelude::*;
use vstd::string::StringExecFns;

use crate::config::{clause_name, first_match, first_match_at, none_match, ConfigClause};
use crate::json::{copy_fields, fields_eq, json_eq, Fields, JsonValue};
use crate::messages::{classified, classify, frame_payload, frame_topic, is_log_payload, Message};

verus! {

/// A message to send to a device: its `set` topic and the fields to set.
#[derive(Debug)]
pub struct OutboundUpdate {
    pub topic: String,
    pub payload: Fields,
}

/// `msgs` sends the fields of `values` to `topic` one per message, in the
/// order of `values`.
pub open spec fn decomposed(
    msgs: Seq<OutboundUpdate>,
    topic: Seq<char>,
    values: Seq<(String, JsonValue)>,
) -> bool {
    &&& msgs.len() == values.len()
    &&& forall|i: int|
        #![trigger msgs[i]]
        0 <= i < msgs.len() ==> {
            &&& msgs[i].topic@ == topic
            &&& msgs[i].payload@.len() == 1
            &&& msgs[i].payload@[0].0@ == values[i].0@
            &&& json_eq(msgs[i].payload@[0].1, values[i].1)
        }
}

/// The topic a device takes commands on.
pub open spec fn set_topic_of(topic: Seq<char>) -> Seq<char> {
    topic + "/set"@
}

/// The topic a device takes commands on: its own followed by `/set`.
pub fn set_topic(topic: &String) -> (r: String)
    ensures
        r@ == set_topic_of(topic@),
{
    let mut t = topic.clone();
    t.append("/set");
    t
}

/// Splits an update into one message per field, because the bridge does not
/// reliably apply several fields sent in one message.
pub fn decompose(topic: &String, values: &Fields) -> (r: Vec<OutboundUpdate>)
    ensures
        decomposed(r@, topic@, values@),
{
    let mut out: Vec<OutboundUpdate> = Vec::new();
    let mut i: usize = 0;
    while i < values.len()
        invariant
            i <= values.len(),
            out@.len() == i,
            forall|j: int|
                #![trigger out@[j]]
                0 <= j < i ==> {
                    &&& out@[j].topic@ == topic@
                    &&& out@[j].payload@.len() == 1
                    &&& out@[j].payload@[0].0@ == values@[j].0@
                    &&& json_eq(out@[j].payload@[0].1, values@[j].1)
                },
        decreases values.len() - i,
    {
        let mut payload: Fields = Vec::new();
        payload.push((values[i].0.clone(), values[i].1.duplicate()));
        out.push(OutboundUpdate { topic: topic.clone(), payload });
        i = i + 1;
    }
    out
}

impl OutboundUpdate {
    /// The message as the frame sent on the wire:
    /// `{"topic": <topic>, "payload": {<field>: <value>}}`.
    pub fn to_frame(&self) -> (r: JsonValue)
        ensures
            r is Object,
            r->Object_0@.len() == 2,
            r->Object_0@[0].0@ == "topic"@,
            r->Object_0@[0].1 == JsonValue::Str(self.topic),
            r->Object_0@[1].0@ == "payload"@,
            r->Object_0@[1].1 is Object,
            fields_eq(r->Object_0@[1].1->Object_0@, self.payload@),
    {
        let mut f: Fields = Vec::new();
        f.push((String::from_str("topic"), JsonValue::Str(self.topic.clone())));
        f.push((String::from_str("payload"), JsonValue::Object(copy_fields(&self.payload))));
        JsonValue::Object(f)
    }
}

/// The frame is a device update (and not a log line): it has a text topic
/// and an object payload.
pub open spec fn is_update(frame: JsonValue) -> bool {
    &&& frame_topic(frame) is Some
    &&& frame_payload(frame) matches Some(q) && q is Object && !is_log_payload(q)
}

/// The frame is a log line of the bridge.
pub open spec fn is_log(frame: JsonValue) -> bool {
    &&& frame_topic(frame) is Some
    &&& frame_payload(frame) matches Some(q) && q is Object && is_log_payload(q)
}

/// The topic of a device update.
pub open spec fn update_topic(frame: JsonValue) -> Seq<char> {
    frame_topic(frame)->Some_0
}

/// The fields a device update reports.
pub open spec fn update_fields(frame: JsonValue) -> Seq<(String, JsonValue)> {
    frame_payload(frame)->Some_0->Object_0@
}

/// A rule fires on `frame`: it is an update of a device not handled yet,
/// and some clause matches what it reports.
pub open spec fn applies(
    rules: Seq<ConfigClause>,
    handled: Set<Seq<char>>,
    frame: JsonValue,
) -> bool {
    &&& is_update(frame)
    &&& !handled.contains(update_topic(frame))
    &&& !none_match(rules, update_fields(frame))
}

/// The handled topics after `frame`: a device enters when a rule fires on it.
pub open spec fn after_frame(
    rules: Seq<ConfigClause>,
    handled: Set<Seq<char>>,
    frame: JsonValue,
) -> Set<Seq<char>> {
    if applies(rules, handled, frame) {
        handled.insert(update_topic(frame))
    } else {
        handled
    }
}

/// The handled topics after `frames`, in order, starting from `handled`.
pub open spec fn after_frames(
    rules: Seq<ConfigClause>,
    handled: Set<Seq<char>>,
    frames: Seq<JsonValue>,
) -> Set<Seq<char>>
    decreases frames.len(),
{
    if frames.len() == 0 {
        handled
    } else {
        after_frame(rules, after_frames(rules, handled, frames.drop_last()), frames.last())
    }
}

/// What to do about one frame of the steady-state protocol.
#[derive(Debug)]
pub enum Action {
    /// Record a log line of the bridge.
    Log { topic: String, level: String, message: String },
    /// Nothing to do: a marker, or a frame of no known shape.
    Ignore,
    /// An update of a device a rule has already fired on this session.
    AlreadyHandled { topic: String },
    /// An update no rule matches.
    NoMatch { topic: String },
    /// A rule fired: send `messages`, one after the other, when `transmit`
    /// is set; only record them otherwise.
    Apply { rule_name: String, topic: String, messages: Vec<OutboundUpdate>, transmit: bool },
}

/// The steady-state protocol of one session: the rules, and the devices a
/// rule has already fired on.
#[derive(Debug)]
pub struct Dispatcher {
    pub rules: Vec<ConfigClause>,
    /// Topics a rule has fired on, each once, in the order they fired.
    pub handled: Vec<String>,
    /// When set, nothing is sent: matches are only recorded.
    pub dry_run: bool,
}

/// The set of topics in a list.
pub open spec fn topic_set(ts: Seq<String>) -> Set<Seq<char>> {
    Set::new(|t: Seq<char>| exists|i: int| 0 <= i < ts.len() && (#[trigger] ts[i])@ == t)
}

impl Dispatcher {
    /// The topics a rule has fired on.
    pub open spec fn handled_set(&self) -> Set<Seq<char>> {
        topic_set(self.handled@)
    }

    /// Each topic is in the handled list at most once.
    pub open spec fn wf(&self) -> bool {
        forall|i: int, j: int|
            0 <= i < j < self.handled@.len() ==> (#[trigger] self.handled@[i])@
                != (#[trigger] self.handled@[j])@
    }

    /// A session that has handled no device yet.
    pub fn new(rules: Vec<ConfigClause>, dry_run: bool) -> (r: Dispatcher)
        ensures
            r.wf(),
            r.rules == rules,
            r.dry_run == dry_run,
            r.handled_set() == Set::<Seq<char>>::empty(),
    {
        let r = Dispatcher { rules, handled: Vec::new(), dry_run };
        assert(r.handled_set() =~= Set::<Seq<char>>::empty());
        r
    }

    /// Whether a rule has already fired on `topic`.
    pub fn is_handled(&self, topic: &String) -> (r: bool)
        ensures
            r == self.handled_set().contains(topic@),
    {
        let mut i: usize = 0;
        while i < self.handled.len()
            invariant
                i <= self.handled@.len(),
                forall|j: int| 0 <= j < i ==> (#[trigger] self.handled@[j])@ != topic@,
            decreases self.handled.len() - i,
        {
            if self.handled[i] == *topic {
                return true;
            }
            i = i + 1;
        }
        false
    }

    /// Handles one frame of the steady-state protocol. An update of a device
    /// not handled yet is checked against the rules; when one matches, the
    /// device is handled from then on, and the rule's values are sent to its
    /// `set` topic, one message per field. Dry-run changes nothing but
    /// `transmit`.
    pub fn on_frame(&mut self, frame: JsonValue) -> (r: Action)
        requires
            old(self).wf(),
        ensures
            final(self).wf(),
            final(self).rules == old(self).rules,
            final(self).dry_run == old(self).dry_run,
            final(self).handled_set() == after_frame(
                old(self).rules@,
                old(self).handled_set(),
                frame,
            ),
            (r is Apply) == applies(old(self).rules@, old(self).handled_set(), frame),
            r matches Action::Apply { rule_name, topic, messages, transmit } ==> {
                &&& transmit == !old(self).dry_run
                &&& topic@ == set_topic_of(update_topic(frame))
                &&& exists|i: int|
                    #[trigger] first_match_at(old(self).rules@, update_fields(frame), i)
                        && rule_name@ == clause_name(old(self).rules@[i]) && decomposed(
                        messages@,
                        topic@,
                        old(self).rules@[i].values@,
                    )
            },
            r matches Action::AlreadyHandled { topic } <==> is_update(frame)
                && old(self).handled_set().contains(update_topic(frame)),
            r matches Action::AlreadyHandled { topic } ==> topic@ == update_topic(frame),
            r matches Action::NoMatch { topic } <==> is_update(frame) && !old(
                self,
            ).handled_set().contains(update_topic(frame)) && none_match(
                old(self).rules@,
                update_fields(frame),
            ),
            r matches Action::NoMatch { topic } ==> topic@ == update_topic(frame),
            r matches Action::Log { topic, level, message } ==> classified(
                frame,
                Message::Log { topic, level, message },
            ),
            (r is Log) == is_log(frame),
            (r is Ignore) == (!is_log(frame) && !is_update(frame)),
    {
        let ghost f = frame;
        match classify(frame) {
            Message::Log { topic, level, message } => Action::Log { topic, level, message },
            Message::Null { topic } => {
                assert(classified(f, Message::Null { topic }));
                Action::Ignore
            },
            Message::Other => Action::Ignore,
            Message::Update { topic, payload } => {
                if self.is_handled(&topic) {
                    return Action::AlreadyHandled { topic };
                }
                match first_match(&self.rules, &payload) {
                    None => Action::NoMatch { topic },
                    Some(i) => {
                        let ghost old_handled = self.handled@;
                        let rule_name = match &self.rules[i].name {
                            Some(n) => n.clone(),
                            None => String::new(),
                        };
                        let set = set_topic(&topic);
                        let messages = decompose(&set, &self.rules[i].values);
                        self.handled.push(topic);
                        proof {
                            assert(self.handled_set() =~= topic_set(old_handled).insert(
                                update_topic(f),
                            )) by {
                                assert(self.handled@[old_handled.len() as int]@ == update_topic(
                                    f,
                                ));
                                assert forall|t: Seq<char>| #[trigger]
                                    topic_set(old_handled).contains(t) implies self.handled_set().contains(t) by {
                                    let j = choose|j: int|
                                        0 <= j < old_handled.len() && (#[trigger] old_handled[j])@ == t;
                                    assert(self.handled@[j] == old_handled[j]);
                                }
                                assert forall|t: Seq<char>| #[trigger]
                                    self.handled_set().contains(t) implies topic_set(old_handled).insert(update_topic(f)).contains(t) by {
                                    let j = choose|j: int|
                                        0 <= j < self.handled@.len() && (#[trigger] self.handled@[j])@ == t;
                                    if j < old_handled.len() {
                                        assert(self.handled@[j] == old_handled[j]);
                                    }
                                }
                            }
                            assert(first_match_at(self.rules@, update_fields(f), i as int));
                            assert forall|a: int, b: int|
                                0 <= a < b < self.handled@.len() implies (#[trigger] self.handled@[a])@
                                != (#[trigger] self.handled@[b])@ by {
                                if b == old_handled.len() {
                                    assert(self.handled@[a] == old_handled[a]);
                                    assert(topic_set(old_handled).contains(old_handled[a]@));
                                } else {
                                    assert(self.handled@[a] == old_handled[a]);
                                    assert(self.handled@[b] == old_handled[b]);
                                }
                            }
                        }
                        Action::Apply { rule_name, topic: set, messages, transmit: !self.dry_run }
                    },
                }
            },
        }
    }
}

/// The handled topics only grow: those after the first `k` frames are among
/// those after the first `m`, for `k <= m`.
pub proof fn lemma_handled_grows(
    rules: Seq<ConfigClause>,
    handled: Set<Seq<char>>,
    frames: Seq<JsonValue>,
    k: int,
    m: int,
)
    requires
        0 <= k <= m <= frames.len(),
    ensures
        after_frames(rules, handled, frames.take(k)).subset_of(
            after_frames(rules, handled, frames.take(m)),
        ),
    decreases m - k,
{
    if k < m {
        lemma_handled_grows(rules, handled, frames, k, m - 1);
        assert(frames.take(m).drop_last() =~= frames.take(m - 1));
    }
}

/// Once a rule has fired on a device, no rule fires on it again in the
/// session, whatever the device reports afterwards.
pub proof fn lemma_fires_at_most_once(
    rules: Seq<ConfigClause>,
    handled: Set<Seq<char>>,
    frames: Seq<JsonValue>,
    i: int,
    j: int,
)
    requires
        0 <= i < j < frames.len(),
        applies(rules, after_frames(rules, handled, frames.take(i)), frames[i]),
        is_update(frames[j]),
        update_topic(frames[j]) == update_topic(frames[i]),
    ensures
        !applies(rules, after_frames(rules, handled, frames.take(j)), frames[j]),
{
    assert(frames.take(i + 1).drop_last() =~= frames.take(i));
    assert(frames.take(i + 1).last() == frames[i]);
    assert(after_frames(rules, handled, frames.take(i + 1)).contains(update_topic(frames[i])));
    lemma_handled_grows(rules, handled, frames, i + 1, j);
}

} // verus!
