//! Channel events.
//!
//! The agent sends an event's payload as one JSON document; the accessors read
//! the fields that applications use.
use vstd::prelude::*;

use crate::json::{entries_of, field, field2, ref_doc, Json, Value};
use crate::models::{id_of, value_as_id};
use crate::text::same;

verus! {

/// The event name of an aggregate update.
pub const AGGREGATE_UPDATE: &'static str = "AggregateUpdate";

/// The event name of a new message.
pub const MESSAGE_CREATE: &'static str = "MessageCreate";

/// The event name of a changed message.
pub const MESSAGE_UPDATE: &'static str = "MessageUpdate";

/// The event name of a one-shot message.
pub const ONE_SHOT_MESSAGE: &'static str = "OneShotMessage";

/// The event name of the boot state of a channel.
pub const CHANNEL_SYNC: &'static str = "ChannelSync";

/// Which kinds of events a subscriber wants.
#[derive(Debug, Clone, Copy, PartialEq, Eq, Structural)]
pub struct EventSubscription {
    pub bits: u8,
}

impl EventSubscription {
    /// No events.
    #[verifier::allow_in_spec]
    pub fn none() -> EventSubscription
        returns
            (EventSubscription { bits: 0 }),
    {
        EventSubscription { bits: 0 }
    }

    /// New messages.
    #[verifier::allow_in_spec]
    pub fn message_create() -> EventSubscription
        returns
            (EventSubscription { bits: 1 }),
    {
        EventSubscription { bits: 1 }
    }

    /// Changed messages.
    #[verifier::allow_in_spec]
    pub fn message_update() -> EventSubscription
        returns
            (EventSubscription { bits: 2 }),
    {
        EventSubscription { bits: 2 }
    }

    /// Aggregate updates.
    #[verifier::allow_in_spec]
    pub fn aggregate_update() -> EventSubscription
        returns
            (EventSubscription { bits: 4 }),
    {
        EventSubscription { bits: 4 }
    }

    /// One-shot messages.
    #[verifier::allow_in_spec]
    pub fn oneshot_message() -> EventSubscription
        returns
            (EventSubscription { bits: 8 }),
    {
        EventSubscription { bits: 8 }
    }

    /// Boot states.
    #[verifier::allow_in_spec]
    pub fn channel_sync() -> EventSubscription
        returns
            (EventSubscription { bits: 16 }),
    {
        EventSubscription { bits: 16 }
    }

    /// Every event.
    #[verifier::allow_in_spec]
    pub fn all() -> EventSubscription
        returns
            (EventSubscription { bits: 31 }),
    {
        EventSubscription { bits: 31 }
    }

    /// Whether every kind in `other` is in `self`.
    pub open spec fn covers(self, other: Self) -> bool {
        self.bits & other.bits == other.bits
    }

    /// Whether every kind in `other` is in `self`.
    pub fn contains(self, other: Self) -> (r: bool)
        ensures
            r == self.covers(other),
    {
        self.bits & other.bits == other.bits
    }

    /// Whether some kind is in both.
    pub fn intersects(self, other: Self) -> (r: bool)
        ensures
            r == (self.bits & other.bits != 0),
    {
        self.bits & other.bits != 0
    }

    /// The kinds that are in either.
    pub fn union(self, other: Self) -> (r: Self)
        ensures
            r.bits == self.bits | other.bits,
    {
        EventSubscription { bits: self.bits | other.bits }
    }
}

impl Default for EventSubscription {
    fn default() -> (r: Self)
        ensures
            r == EventSubscription::all(),
    {
        EventSubscription::all()
    }
}

/// A union covers both of its parts, and nothing that neither part shares a
/// kind with.
pub proof fn law_union_covers_its_parts(
    a: EventSubscription,
    b: EventSubscription,
    u: EventSubscription,
    c: EventSubscription,
)
    requires
        u.bits == a.bits | b.bits,
    ensures
        u.covers(a),
        u.covers(b),
        a.covers(c) ==> u.covers(c),
        (u.bits & c.bits != 0) == (a.bits & c.bits != 0 || b.bits & c.bits != 0),
{
    let x = a.bits;
    let y = b.bits;
    let z = c.bits;
    assert((x | y) & x == x) by (bit_vector);
    assert((x | y) & y == y) by (bit_vector);
    assert(x & z == z ==> (x | y) & z == z) by (bit_vector);
    assert(((x | y) & z != 0) == (x & z != 0 || y & z != 0)) by (bit_vector);
}

/// The flag that an event name stands for.
pub open spec fn flag_of(name: Seq<char>) -> EventSubscription {
    if name == MESSAGE_CREATE@ {
        EventSubscription::message_create()
    } else if name == MESSAGE_UPDATE@ {
        EventSubscription::message_update()
    } else if name == AGGREGATE_UPDATE@ {
        EventSubscription::aggregate_update()
    } else if name == ONE_SHOT_MESSAGE@ {
        EventSubscription::oneshot_message()
    } else if name == CHANNEL_SYNC@ {
        EventSubscription::channel_sync()
    } else {
        EventSubscription::none()
    }
}

/// One event on a channel.
#[derive(Debug)]
pub struct Event {
    pub event_name: String,
    pub channel: String,
    /// The full decoded payload.
    pub payload: Value,
}

impl Clone for Event {
    fn clone(&self) -> (e: Self)
        ensures
            e.event_name@ == self.event_name@,
            e.channel@ == self.channel@,
            e.payload@ == self.payload@,
    {
        Event {
            event_name: self.event_name.clone(),
            channel: self.channel.clone(),
            payload: self.payload.clone(),
        }
    }
}

/// The payload of the boot state of a channel.
pub open spec fn boot_payload(data: Json) -> Json {
    Json::Obj(seq![("aggregate"@, Json::Obj(seq![("data"@, data)]))])
}

impl Event {
    /// The boot state of a channel as an event, from its first aggregate.
    pub fn channel_sync(channel: &str, aggregate_data: Value) -> (e: Event)
        ensures
            e.event_name@ == CHANNEL_SYNC@,
            e.channel@ == channel@,
            e.payload@ == boot_payload(aggregate_data@),
            field2(e.payload@, "aggregate"@, "data"@) == Some(aggregate_data@),
    {
        let mut inner: Vec<(String, Value)> = Vec::new();
        inner.push(("data".to_owned(), aggregate_data));
        assert(entries_of(inner@) =~= seq![("data"@, aggregate_data@)]);
        let mut outer: Vec<(String, Value)> = Vec::new();
        let aggregate = Value::object(inner);
        outer.push(("aggregate".to_owned(), aggregate));
        assert(entries_of(outer@) =~= seq![("aggregate"@, aggregate@)]);
        let payload = Value::object(outer);
        proof {
            crate::json::lemma_first_is_position(payload@->Obj_0, "aggregate"@, 0);
            crate::json::lemma_first_is_position(aggregate@->Obj_0, "data"@, 0);
        }
        Event { event_name: CHANNEL_SYNC.to_owned(), channel: channel.to_owned(), payload }
    }

    /// Whether this is an aggregate update.
    pub fn is_aggregate_update(&self) -> (r: bool)
        ensures
            r == (self.event_name@ == AGGREGATE_UPDATE@),
    {
        same(self.event_name.as_str(), AGGREGATE_UPDATE)
    }

    /// Whether this is a new message.
    pub fn is_message_create(&self) -> (r: bool)
        ensures
            r == (self.event_name@ == MESSAGE_CREATE@),
    {
        same(self.event_name.as_str(), MESSAGE_CREATE)
    }

    /// Whether this is a changed message.
    pub fn is_message_update(&self) -> (r: bool)
        ensures
            r == (self.event_name@ == MESSAGE_UPDATE@),
    {
        same(self.event_name.as_str(), MESSAGE_UPDATE)
    }

    /// Whether this is a one-shot message.
    pub fn is_one_shot(&self) -> (r: bool)
        ensures
            r == (self.event_name@ == ONE_SHOT_MESSAGE@),
    {
        same(self.event_name.as_str(), ONE_SHOT_MESSAGE)
    }

    /// Whether this is a boot state.
    pub fn is_channel_sync(&self) -> (r: bool)
        ensures
            r == (self.event_name@ == CHANNEL_SYNC@),
    {
        same(self.event_name.as_str(), CHANNEL_SYNC)
    }

    /// The flag of this event; none for an unknown name.
    pub fn subscription_flag(&self) -> (r: EventSubscription)
        ensures
            r == flag_of(self.event_name@),
    {
        if self.is_message_create() {
            EventSubscription::message_create()
        } else if self.is_message_update() {
            EventSubscription::message_update()
        } else if self.is_aggregate_update() {
            EventSubscription::aggregate_update()
        } else if self.is_one_shot() {
            EventSubscription::oneshot_message()
        } else if self.is_channel_sync() {
            EventSubscription::channel_sync()
        } else {
            EventSubscription::none()
        }
    }

    /// The full merged aggregate data.
    pub fn aggregate_data(&self) -> (r: Option<&Value>)
        ensures
            ref_doc(r) == field2(self.payload@, "aggregate"@, "data"@),
    {
        self.payload.get2("aggregate", "data")
    }

    /// The diff that triggered an aggregate update.
    pub fn aggregate_diff(&self) -> (r: Option<&Value>)
        ensures
            ref_doc(r) == field2(self.payload@, "request_data"@, "data"@),
    {
        self.payload.get2("request_data", "data")
    }

    /// The body of a message.
    pub fn message_data(&self) -> (r: Option<&Value>)
        ensures
            ref_doc(r) == field(self.payload@, "data"@),
    {
        self.payload.get("data")
    }

    /// The id of a message.
    pub fn message_id(&self) -> (r: Option<u64>)
        ensures
            r == id_of(field(self.payload@, "id"@)),
    {
        value_as_id(self.payload.get("id"))
    }

    /// The id of the author.
    pub fn author_id(&self) -> (r: Option<u64>)
        ensures
            r == id_of(field(self.payload@, "author_id"@)),
    {
        value_as_id(self.payload.get("author_id"))
    }
}

/// Each kind of event has a bit of its own, the set of all events covers every kind, and no
/// other name is a kind.
pub proof fn law_kinds_of_events_are_apart(name: Seq<char>)
    ensures
        flag_of("MessageCreate"@).bits == 1,
        flag_of("MessageUpdate"@).bits == 2,
        flag_of("AggregateUpdate"@).bits == 4,
        flag_of("OneShotMessage"@).bits == 8,
        flag_of("ChannelSync"@).bits == 16,
        name != "MessageCreate"@ && name != "MessageUpdate"@ && name != "AggregateUpdate"@ && name
            != "OneShotMessage"@ && name != "ChannelSync"@ ==> flag_of(name).bits == 0,
        EventSubscription::all().covers(flag_of(name)),
        flag_of(name).bits != 0 ==> !EventSubscription::none().covers(flag_of(name)),
{
    reveal_strlit("MessageCreate");
    reveal_strlit("MessageUpdate");
    reveal_strlit("AggregateUpdate");
    reveal_strlit("OneShotMessage");
    reveal_strlit("ChannelSync");
    assert("MessageCreate"@[7] != "MessageUpdate"@[7]);
    assert("AggregateUpdate"@[0] == 'A' && "OneShotMessage"@[0] == 'O' && "ChannelSync"@[0] == 'C');
    assert("MessageCreate"@[0] == 'M' && "MessageUpdate"@[0] == 'M');
    let b = flag_of(name).bits;
    assert(31u8 & b == b && 0u8 & b == 0) by (bit_vector)
        requires
            b == 0 || b == 1 || b == 2 || b == 4 || b == 8 || b == 16,
    ;
}

} // verus!
