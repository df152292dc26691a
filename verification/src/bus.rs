//! Messages of the hub's message bus, and the table that routes them to
//! topic subscribers.
use vstd::prelude::*;
use crate::clock::unix_now_secs;
use vstd::hash_map::StringHashMap;
use crate::text::{concat, owned};

verus! {

/// A message on the bus.
pub struct BusMessage {
    pub topic: String,
    pub payload: String,
    pub source: String,
    pub timestamp: u64,
}

pub struct BusMessageView {
    pub topic: Seq<char>,
    pub payload: Seq<char>,
    pub source: Seq<char>,
    pub timestamp: u64,
}

impl View for BusMessage {
    type V = BusMessageView;

    open spec fn view(&self) -> BusMessageView {
        BusMessageView {
            topic: self.topic@,
            payload: self.payload@,
            source: self.source@,
            timestamp: self.timestamp,
        }
    }
}

impl Clone for BusMessage {
    fn clone(&self) -> (r: Self)
        ensures
            r@ == self@,
    {
        BusMessage {
            topic: self.topic.clone(),
            payload: self.payload.clone(),
            source: self.source.clone(),
            timestamp: self.timestamp,
        }
    }
}

impl BusMessage {
    /// A message stamped with the current time, in seconds since the Unix epoch.
    pub fn new(topic: String, payload: String, source: String) -> (r: Self)
        ensures
            r.topic@ == topic@,
            r.payload@ == payload@,
            r.source@ == source@,
    {
        let timestamp = unix_now_secs();
        BusMessage { topic, payload, source, timestamp }
    }

    /// A message with the given time stamp.
    pub fn with_timestamp(topic: String, payload: String, source: String, timestamp: u64) -> (r:
        Self)
        ensures
            r@ == (BusMessageView { topic: topic@, payload: payload@, source: source@, timestamp }),
    {
        BusMessage { topic, payload, source, timestamp }
    }
}

/// A `close_gate` request, on topic `com_input`.
pub fn gate_close(source: String) -> (r: BusMessage)
    ensures
        r.topic@ == "com_input"@,
        r.payload@ == "close_gate"@,
        r.source@ == source@,
{
    BusMessage::new(owned("com_input"), owned("close_gate"), source)
}

/// A monitoring reading: the value on its own topic.
pub fn monitoring_update(topic: String, value: String, source: String) -> (r: BusMessage)
    ensures
        r.topic@ == topic@,
        r.payload@ == value@,
        r.source@ == source@,
{
    BusMessage::new(topic, value, source)
}

/// A query for the language model, on topic `llm_response`.
pub fn llm_query(query: String, source: String) -> (r: BusMessage)
    ensures
        r.topic@ == "llm_response"@,
        r.payload@ == query@,
        r.source@ == source@,
{
    BusMessage::new(owned("llm_response"), query, source)
}

/// The topic of an application event: `app.event.<name>`.
pub fn app_event_topic(event_name: &str) -> (r: String)
    ensures
        r@ == "app.event."@ + event_name@,
{
    concat("app.event.", event_name)
}

/// An application event as the terminal UI publishes it.
pub fn app_event_message(event_name: &str, payload: &str) -> (r: BusMessage)
    ensures
        r.topic@ == "app.event."@ + event_name@,
        r.payload@ == payload@,
        r.source@ == "survon_tui"@,
{
    BusMessage::new(app_event_topic(event_name), owned(payload), owned("survon_tui"))
}

/// The topics of the events that the hub knows of.
pub fn get_all_event_message_topics() -> (r: Vec<String>)
    ensures
        r@.len() == 14,
        r@.map_values(|s: String| s@) == seq![
            "com_input"@,
            "sensor_data"@,
            "navigation"@,
            "pressure_sensor"@,
            "network"@,
            "system_status"@,
            "llm_response"@,
            "control"@,
            "monitoring"@,
            "device_discovered"@,
            "device_registration"@,
            "device_registered"@,
            "arduino_sensor_001"@,
            "a01"@,
        ],
{
    let r = vec![
        owned("com_input"),
        owned("sensor_data"),
        owned("navigation"),
        owned("pressure_sensor"),
        owned("network"),
        owned("system_status"),
        owned("llm_response"),
        owned("control"),
        owned("monitoring"),
        owned("device_discovered"),
        owned("device_registration"),
        owned("device_registered"),
        owned("arduino_sensor_001"),
        owned("a01"),
    ];
    assert(r@.map_values(|s: String| s@) =~= seq![
        "com_input"@,
        "sensor_data"@,
        "navigation"@,
        "pressure_sensor"@,
        "network"@,
        "system_status"@,
        "llm_response"@,
        "control"@,
        "monitoring"@,
        "device_discovered"@,
        "device_registration"@,
        "device_registered"@,
        "arduino_sensor_001"@,
        "a01"@,
    ]);
    r
}

/// Which subscribers listen to which topic. Subscribers are numbered in the
/// order they subscribe; a message published on a topic goes to the main
/// receiver and to every subscriber of exactly that topic.
pub struct SubscriptionTable {
    topics: StringHashMap<Vec<u64>>,
    next_id: u64,
}

impl SubscriptionTable {
    /// The subscribers of a topic, in the order they subscribed; empty where
    /// it has none.
    pub closed spec fn subscribers_of(&self, topic: Seq<char>) -> Seq<u64> {
        if self.topics@.contains_key(topic) {
            self.topics@[topic]@
        } else {
            Seq::empty()
        }
    }

    /// The number of subscriptions made so far.
    pub closed spec fn count(&self) -> u64 {
        self.next_id
    }

    /// Every subscriber number handed out is below `count`.
    pub closed spec fn wf(&self) -> bool {
        forall|t: Seq<char>, k: int|
            #![trigger self.topics@[t]@[k]]
            self.topics@.contains_key(t) && 0 <= k < self.topics@[t]@.len() ==> self.topics@[t]@[k]
                < self.next_id
    }

    /// A table with no subscriber.
    pub fn new() -> (r: Self)
        ensures
            r.wf(),
            r.count() == 0,
            forall|t: Seq<char>| #[trigger] r.subscribers_of(t) == Seq::<u64>::empty(),
    {
        SubscriptionTable { topics: StringHashMap::new(), next_id: 0 }
    }

    /// The number of subscriptions made so far.
    pub fn subscriptions(&self) -> (r: u64)
        ensures
            r == self.count(),
    {
        self.next_id
    }

    /// Adds a subscriber to `topic` and returns its number.
    pub fn subscribe(&mut self, topic: &str) -> (id: u64)
        requires
            old(self).wf(),
            old(self).count() < u64::MAX,
        ensures
            final(self).wf(),
            id == old(self).count(),
            final(self).count() == old(self).count() + 1,
            final(self).subscribers_of(topic@) == old(self).subscribers_of(topic@).push(id),
            forall|t: Seq<char>|
                t != topic@ ==> #[trigger] final(self).subscribers_of(t) == old(
                    self,
                ).subscribers_of(t),
    {
        let id = self.next_id;
        let ghost pre = *self;
        let mut ids: Vec<u64> = match self.topics.get(topic) {
            Some(v) => v.clone(),
            None => Vec::new(),
        };
        assert(ids@ == pre.subscribers_of(topic@));
        ids.push(id);
        self.topics.insert(owned(topic), ids);
        self.next_id = id + 1;
        proof {
            assert forall|t: Seq<char>, k: int|
                #![trigger self.topics@[t]@[k]]
                self.topics@.contains_key(t) && 0 <= k < self.topics@[t]@.len()
                    implies self.topics@[t]@[k] < self.next_id by {
                if t != topic@ {
                    assert(pre.topics@.contains_key(t));
                    assert(pre.topics@[t]@[k] < pre.next_id);
                } else if k < self.topics@[t]@.len() - 1 {
                    assert(pre.topics@.contains_key(t));
                    assert(self.topics@[t]@[k] == pre.topics@[t]@[k]);
                    assert(pre.topics@[t]@[k] < pre.next_id);
                }
            }
        }
        id
    }

    /// Every subscriber of any topic is numbered below `count`.
    pub proof fn lemma_subscribers_below_count(&self, topic: Seq<char>)
        requires
            self.wf(),
        ensures
            forall|k: int|
                0 <= k < self.subscribers_of(topic).len() ==> #[trigger] self.subscribers_of(
                    topic,
                )[k] < self.count(),
    {
        let subs = self.subscribers_of(topic);
        assert forall|k: int| 0 <= k < subs.len() implies #[trigger] subs[k] < self.count() by {
            assert(self.topics@[topic]@[k] < self.next_id);
        }
    }

    /// The subscribers that a message on `topic` goes to.
    pub fn recipients(&self, topic: &str) -> (r: Vec<u64>)
        ensures
            r@ == self.subscribers_of(topic@),
    {
        match self.topics.get(topic) {
            Some(v) => {
                let r = v.clone();
                assert(r@ =~= v@);
                r
            },
            None => Vec::new(),
        }
    }
}

/// Once subscribed to a topic, a subscriber is among the recipients of
/// every message on that topic, and of no message on another topic.
pub proof fn lemma_subscriber_receives(
    before: SubscriptionTable,
    after: SubscriptionTable,
    topic: Seq<char>,
    id: u64,
    other: Seq<char>,
)
    requires
        before.wf(),
        id == before.count(),
        after.subscribers_of(topic) == before.subscribers_of(topic).push(id),
        forall|t: Seq<char>|
            t != topic ==> #[trigger] after.subscribers_of(t) == before.subscribers_of(t),
    ensures
        after.subscribers_of(topic).contains(id),
        other != topic ==> !after.subscribers_of(other).contains(id),
{
    assert(after.subscribers_of(topic).last() == id);
    if other != topic {
        before.lemma_subscribers_below_count(other);
        if after.subscribers_of(other).contains(id) {
            let subs = after.subscribers_of(other);
            let k = choose|k: int| 0 <= k < subs.len() && subs[k] == id;
            assert(before.subscribers_of(other)[k] < before.count());
        }
    }
}

} // verus!
