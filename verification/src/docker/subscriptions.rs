//! Who is told of which events, and how the stream of a channel is kept alive.
//!
//! - The first subscriber of a channel starts its stream; later ones share it.
//! - A stream begins with the aggregate of its channel, which is created if there is
//!   none. The subscribers see it as an event of its own before any other.
//! - A stream that ends is connected again, after a pause that doubles up to a
//!   limit and starts over once a connection stands.
//! - An aggregate update is remembered before the subscribers are told of it.
use vstd::prelude::*;

use crate::events::{
    boot_payload, flag_of, Event, EventSubscription, AGGREGATE_UPDATE, CHANNEL_SYNC,
};
use crate::json::{
    at, empty_obj, entries_of, field2, find, insert, lemma_position, lemma_put, opt_doc, put,
    Entries, Json, Value,
};
use crate::text::{same, views};

verus! {

/// The first pause before a stream is connected again, in milliseconds.
pub const FIRST_BACKOFF_MS: u64 = 1_000;

/// The longest pause before a stream is connected again, in milliseconds.
pub const MAX_BACKOFF_MS: u64 = 10_000;

/// How often it is looked whether channels are synced, in milliseconds.
pub const SYNC_POLL_MS: u64 = 200;

/// A subscriber, by the number of its callback.
#[derive(Debug)]
pub struct Subscriber {
    pub channel: String,
    pub events: EventSubscription,
    pub callback: u64,
}

/// The subscribers, the streams that run, and what they have brought.
#[derive(Debug)]
pub struct SubscriptionHub {
    subscribers: Vec<Subscriber>,
    running: Vec<String>,
    synced: Vec<String>,
    aggregates: Vec<(String, Value)>,
}

/// The model of a subscriber: its channel, the kinds of events, and the callback.
pub type Listener = (Seq<char>, EventSubscription, u64);

/// The model of the hub.
#[verifier::ext_equal]
pub struct HubView {
    pub listeners: Seq<Listener>,
    pub running: Set<Seq<char>>,
    pub synced: Set<Seq<char>>,
    pub aggregates: Entries,
}

pub closed spec fn listeners_of(list: Seq<Subscriber>) -> Seq<Listener> {
    Seq::new(list.len(), |i: int| (list[i].channel@, list[i].events, list[i].callback))
}

impl View for SubscriptionHub {
    type V = HubView;

    closed spec fn view(&self) -> HubView {
        HubView {
            listeners: listeners_of(self.subscribers@),
            running: views(self.running@).to_set(),
            synced: views(self.synced@).to_set(),
            aggregates: entries_of(self.aggregates@),
        }
    }
}

/// Whether a channel has a subscriber.
pub open spec fn has_listener(list: Seq<Listener>, channel: Seq<char>) -> bool {
    exists|i: int| 0 <= i < list.len() && (#[trigger] list[i]).0 == channel
}

/// The callbacks that are told of an event of a kind, in the order of subscription.
pub open spec fn told(list: Seq<Listener>, channel: Seq<char>, flag: EventSubscription) -> Seq<u64>
    decreases list.len(),
{
    if list.len() == 0 {
        Seq::empty()
    } else {
        let before = told(list.drop_last(), channel, flag);
        if list.last().0 == channel && list.last().1.covers(flag) {
            before.push(list.last().2)
        } else {
            before
        }
    }
}

/// The callbacks that are told of an event with a name. Nobody is told of an event
/// whose name is not known.
pub open spec fn audience(v: HubView, channel: Seq<char>, name: Seq<char>) -> Seq<u64> {
    if flag_of(name) == EventSubscription::none() {
        Seq::empty()
    } else {
        told(v.listeners, channel, flag_of(name))
    }
}

/// The hub once a channel is synced.
pub open spec fn with_sync(v: HubView, channel: Seq<char>) -> HubView {
    if has_listener(v.listeners, channel) {
        HubView { synced: v.synced.insert(channel), ..v }
    } else {
        v
    }
}

/// The hub once the aggregate of a channel is known.
pub open spec fn with_aggregate(v: HubView, channel: Seq<char>, data: Json) -> HubView {
    with_sync(HubView { aggregates: put(v.aggregates, channel, data), ..v }, channel)
}

// ---- the stream of a channel -----------------------------------------------------------

/// Where the stream of a channel stands.
#[derive(Debug, Clone, Copy, PartialEq, Eq, Structural)]
pub enum StreamPhase {
    /// The aggregate is being fetched.
    Seeding,
    /// The channel is being created with an empty aggregate.
    Creating,
    /// The stream is being connected.
    Connecting,
    /// Events are being read.
    Streaming,
    /// The pause before the next connection.
    Pausing,
}

/// The stream of a channel.
#[derive(Debug, Clone, Copy, PartialEq, Eq, Structural)]
pub struct StreamState {
    pub phase: StreamPhase,
    /// The length of the next pause, in milliseconds.
    pub backoff_ms: u64,
}

/// What happened to a stream.
#[derive(Debug)]
pub enum StreamInput {
    /// The aggregate; nothing if there is no such channel.
    Fetched(Option<Value>),
    FetchFailed,
    Created,
    CreateFailed,
    Connected,
    ConnectFailed,
    /// An event arrived.
    Item(Event),
    /// The stream broke.
    ItemFailed,
    /// The stream ended.
    Ended,
    /// The pause is over.
    Paused,
}

/// Where a stream stands after something happened.
pub open spec fn next_state(s: StreamState, input: StreamInput) -> StreamState {
    match (s.phase, input) {
        (StreamPhase::Seeding, StreamInput::Fetched(None)) => StreamState {
            phase: StreamPhase::Creating,
            ..s
        },
        (StreamPhase::Seeding, StreamInput::Fetched(Some(_))) => StreamState {
            phase: StreamPhase::Connecting,
            ..s
        },
        (StreamPhase::Seeding, StreamInput::FetchFailed) => StreamState {
            phase: StreamPhase::Connecting,
            ..s
        },
        (StreamPhase::Creating, StreamInput::Created) => StreamState {
            phase: StreamPhase::Connecting,
            ..s
        },
        (StreamPhase::Creating, StreamInput::CreateFailed) => StreamState {
            phase: StreamPhase::Connecting,
            ..s
        },
        (StreamPhase::Connecting, StreamInput::Connected) => StreamState {
            phase: StreamPhase::Streaming,
            backoff_ms: FIRST_BACKOFF_MS,
        },
        (StreamPhase::Connecting, StreamInput::ConnectFailed) => StreamState {
            phase: StreamPhase::Pausing,
            ..s
        },
        (StreamPhase::Streaming, StreamInput::ItemFailed) => StreamState {
            phase: StreamPhase::Pausing,
            ..s
        },
        (StreamPhase::Streaming, StreamInput::Ended) => StreamState {
            phase: StreamPhase::Pausing,
            ..s
        },
        (StreamPhase::Pausing, StreamInput::Paused) => StreamState {
            phase: StreamPhase::Connecting,
            backoff_ms: if 2 * s.backoff_ms < MAX_BACKOFF_MS {
                (2 * s.backoff_ms) as u64
            } else {
                MAX_BACKOFF_MS
            },
        },
        _ => s,
    }
}

/// What a stream begins with, once that is known: the aggregate, or nothing if it
/// could be neither fetched nor created.
pub open spec fn seeded(phase: StreamPhase, input: StreamInput) -> Option<Option<Json>> {
    match (phase, input) {
        (StreamPhase::Seeding, StreamInput::Fetched(Some(v))) => Some(Some(v@)),
        (StreamPhase::Seeding, StreamInput::FetchFailed) => Some(None),
        (StreamPhase::Creating, StreamInput::Created) => Some(Some(empty_obj())),
        (StreamPhase::Creating, StreamInput::CreateFailed) => Some(None),
        _ => None,
    }
}

/// The data that an aggregate update brings.
pub open spec fn updated(e: Event) -> Option<Json> {
    if e.event_name@ == AGGREGATE_UPDATE@ {
        field2(e.payload@, "aggregate"@, "data"@)
    } else {
        None
    }
}

/// The hub after something happened to a stream.
pub open spec fn hub_after(
    v: HubView,
    channel: Seq<char>,
    phase: StreamPhase,
    input: StreamInput,
) -> HubView {
    match seeded(phase, input) {
        Some(Some(data)) => with_aggregate(v, channel, data),
        Some(None) => with_sync(v, channel),
        None => match (phase, input) {
            (StreamPhase::Streaming, StreamInput::Item(e)) => match updated(e) {
                Some(data) => with_aggregate(v, channel, data),
                None => v,
            },
            _ => v,
        },
    }
}

/// The name of the event that the subscribers are told of, if there is one.
pub open spec fn announced(phase: StreamPhase, input: StreamInput) -> Option<Seq<char>> {
    match seeded(phase, input) {
        Some(Some(_)) => Some(CHANNEL_SYNC@),
        Some(None) => None,
        None => match (phase, input) {
            (StreamPhase::Streaming, StreamInput::Item(e)) => Some(e.event_name@),
            _ => None,
        },
    }
}

/// Whether an event is the one that the subscribers are told of: the boot state of
/// the channel, or the event that arrived.
pub open spec fn is_announcement(
    e: Event,
    channel: Seq<char>,
    phase: StreamPhase,
    input: StreamInput,
) -> bool {
    match seeded(phase, input) {
        Some(Some(data)) => e.event_name@ == CHANNEL_SYNC@ && e.channel@ == channel && e.payload@
            == boot_payload(data),
        Some(None) => false,
        None => match (phase, input) {
            (StreamPhase::Streaming, StreamInput::Item(i)) => e == i,
            _ => false,
        },
    }
}

/// An event and the callbacks that are told of it.
#[derive(Debug)]
pub struct Announcement {
    pub event: Event,
    pub callbacks: Vec<u64>,
}

fn list_has(list: &Vec<String>, name: &str) -> (r: bool)
    ensures
        r == views(list@).to_set().contains(name@),
{
    let ghost all = views(list@);
    let mut i: usize = 0;
    while i < list.len()
        invariant
            i <= list@.len(),
            all == views(list@),
            forall|j: int| 0 <= j < i ==> #[trigger] all[j] != name@,
        decreases list@.len() - i,
    {
        if same(list[i].as_str(), name) {
            assert(all[i as int] == name@);
            assert(all.contains(name@));
            return true;
        }
        assert(all[i as int] != name@);
        i += 1;
    }
    assert(!all.contains(name@));
    false
}

fn add_name(list: &mut Vec<String>, name: &str)
    ensures
        views(final(list)@).to_set() == views(old(list)@).to_set().insert(name@),
{
    let ghost before = views(list@);
    list.push(name.to_owned());
    let ghost after = views(list@);
    proof {
        assert(after =~= before.push(name@));
        assert(after.to_set() =~= before.to_set().insert(name@)) by {
            assert forall|k: Seq<char>| after.contains(k) == (before.contains(k) || k == name@) by {
                if before.contains(k) {
                    let i = choose|i: int| 0 <= i < before.len() && before[i] == k;
                    assert(after[i] == k);
                }
                if k == name@ {
                    assert(after[before.len() as int] == k);
                }
                if after.contains(k) && k != name@ {
                    let i = choose|i: int| 0 <= i < after.len() && after[i] == k;
                    assert(before[i] == k);
                }
            }
        }
    }
}

impl SubscriptionHub {
    /// A hub without subscribers.
    pub fn new() -> (h: Self)
        ensures
            h@ == (HubView {
                listeners: Seq::empty(),
                running: Set::empty(),
                synced: Set::empty(),
                aggregates: Seq::empty(),
            }),
    {
        let h = SubscriptionHub {
            subscribers: Vec::new(),
            running: Vec::new(),
            synced: Vec::new(),
            aggregates: Vec::new(),
        };
        proof {
            assert(listeners_of(h.subscribers@) =~= Seq::empty());
            assert(views(h.running@) =~= Seq::empty());
            assert(views(h.synced@) =~= Seq::empty());
            assert(views(h.running@).to_set() =~= Set::empty());
            assert(entries_of(h.aggregates@) =~= Seq::empty());
        }
        h
    }

    /// Adds a subscriber. The result says whether the stream of the channel has to
    /// be started.
    pub fn subscribe(&mut self, channel: &str, events: EventSubscription, callback: u64) -> (start: bool)
        ensures
            start == !old(self)@.running.contains(channel@),
            final(self)@ == (HubView {
                listeners: old(self)@.listeners.push((channel@, events, callback)),
                running: old(self)@.running.insert(channel@),
                ..old(self)@
            }),
    {
        let ghost before = self@;
        self.subscribers.push(Subscriber { channel: channel.to_owned(), events, callback });
        assert(listeners_of(self.subscribers@) =~= before.listeners.push(
            (channel@, events, callback),
        ));
        if list_has(&self.running, channel) {
            assert(before.running =~= before.running.insert(channel@));
            false
        } else {
            add_name(&mut self.running, channel);
            true
        }
    }

    /// The aggregate of a channel, if its stream has brought one.
    pub fn cached_aggregate(&self, channel: &str) -> (r: Option<Value>)
        ensures
            opt_doc(r) == at(self@.aggregates, channel@),
    {
        proof {
            lemma_position(entries_of(self.aggregates@), channel@);
        }
        match find(&self.aggregates, channel) {
            Some(i) => Some(self.aggregates[i].1.clone()),
            None => None,
        }
    }

    fn is_listened(&self, channel: &str) -> (r: bool)
        ensures
            r == has_listener(self@.listeners, channel@),
    {
        let ghost all = self@.listeners;
        let mut i: usize = 0;
        while i < self.subscribers.len()
            invariant
                i <= self.subscribers@.len(),
                all == listeners_of(self.subscribers@),
                forall|j: int| 0 <= j < i ==> (#[trigger] all[j]).0 != channel@,
            decreases self.subscribers@.len() - i,
        {
            if same(self.subscribers[i].channel.as_str(), channel) {
                assert(all[i as int].0 == channel@);
                return true;
            }
            assert(all[i as int].0 != channel@);
            i += 1;
        }
        false
    }

    /// Whether a channel has a subscriber and is synced.
    pub fn is_channel_synced(&self, channel: &str) -> (r: bool)
        ensures
            r == (has_listener(self@.listeners, channel@) && self@.synced.contains(channel@)),
    {
        self.is_listened(channel) && list_has(&self.synced, channel)
    }

    /// Whether every one of the channels is synced.
    pub fn all_synced(&self, channels: &Vec<String>) -> (r: bool)
        ensures
            r == forall|i: int|
                0 <= i < channels@.len() ==> has_listener(
                    self@.listeners,
                    (#[trigger] channels@[i])@,
                ) && self@.synced.contains(channels@[i]@),
    {
        let mut i: usize = 0;
        while i < channels.len()
            invariant
                i <= channels@.len(),
                forall|j: int|
                    0 <= j < i ==> has_listener(self@.listeners, (#[trigger] channels@[j])@)
                        && self@.synced.contains(channels@[j]@),
            decreases channels@.len() - i,
        {
            if !self.is_channel_synced(channels[i].as_str()) {
                assert(!(has_listener(self@.listeners, channels@[i as int]@)
                    && self@.synced.contains(channels@[i as int]@)));
                return false;
            }
            i += 1;
        }
        true
    }

    /// Whether waiting for channels is over, and with what result: all of them
    /// synced, or the time is up. Nothing means that it is looked again after
    /// [`SYNC_POLL_MS`].
    pub fn wait_for_channels_sync(
        &self,
        channels: &Vec<String>,
        waited_ms: u64,
        timeout_ms: u64,
    ) -> (r: Option<bool>)
        ensures
            r == (if (forall|i: int|
                0 <= i < channels@.len() ==> has_listener(
                    self@.listeners,
                    (#[trigger] channels@[i])@,
                ) && self@.synced.contains(channels@[i]@)) {
                Some(true)
            } else if waited_ms >= timeout_ms {
                Some(false)
            } else {
                None
            }),
    {
        if self.all_synced(channels) {
            Some(true)
        } else if waited_ms >= timeout_ms {
            Some(false)
        } else {
            None
        }
    }

    /// Ends every stream. The result holds their channels.
    pub fn close(&mut self) -> (ended: Vec<String>)
        ensures
            views(ended@).to_set() == old(self)@.running,
            final(self)@ == (HubView { running: Set::empty(), ..old(self)@ }),
    {
        let mut ended: Vec<String> = Vec::new();
        let ghost names = self.running@;
        ended.append(&mut self.running);
        proof {
            assert(ended@ =~= names);
            assert(views(self.running@) =~= Seq::empty());
            assert(views(self.running@).to_set() =~= Set::empty());
        }
        ended
    }

    /// The callbacks that are told of an event.
    pub fn dispatch(&self, channel: &str, event: &Event) -> (list: Vec<u64>)
        ensures
            list@ == audience(self@, channel@, event.event_name@),
    {
        let flag = event.subscription_flag();
        let mut list: Vec<u64> = Vec::new();
        if flag == EventSubscription::none() {
            return list;
        }
        let ghost all = self@.listeners;
        let mut i: usize = 0;
        assert(all.take(0) =~= Seq::empty());
        while i < self.subscribers.len()
            invariant
                i <= self.subscribers@.len(),
                all == listeners_of(self.subscribers@),
                list@ == told(all.take(i as int), channel@, flag),
            decreases self.subscribers@.len() - i,
        {
            proof {
                assert(all.take(i as int + 1).drop_last() =~= all.take(i as int));
                assert(all.take(i as int + 1).last() == all[i as int]);
            }
            let s = &self.subscribers[i];
            if same(s.channel.as_str(), channel) && s.events.contains(flag) {
                list.push(s.callback);
            }
            i += 1;
        }
        assert(all.take(all.len() as int) =~= all);
        list
    }

    fn mark_synced(&mut self, channel: &str)
        ensures
            final(self)@ == with_sync(old(self)@, channel@),
    {
        if self.is_listened(channel) {
            add_name(&mut self.synced, channel);
        }
    }

    fn keep_aggregate(&mut self, channel: &str, data: Value)
        ensures
            final(self)@ == with_aggregate(old(self)@, channel@, data@),
    {
        insert(&mut self.aggregates, channel, data);
        self.mark_synced(channel);
    }

    /// Takes in what happened to the stream of a channel. The stream moves on, the
    /// hub remembers what arrived, and the result is the event that subscribers are
    /// told of.
    pub fn run_channel_stream(
        &mut self,
        channel: &str,
        state: &mut StreamState,
        input: StreamInput,
    ) -> (r: Option<Announcement>)
        requires
            old(state).backoff_ms <= MAX_BACKOFF_MS,
        ensures
            final(state).backoff_ms <= MAX_BACKOFF_MS,
            *final(state) == next_state(*old(state), input),
            final(self)@ == hub_after(old(self)@, channel@, old(state).phase, input),
            match r {
                Some(a) => is_announcement(a.event, channel@, old(state).phase, input)
                    && announced(old(state).phase, input) == Some(a.event.event_name@)
                    && a.callbacks@ == audience(final(self)@, channel@, a.event.event_name@),
                None => announced(old(state).phase, input) is None,
            },
    {
        match (state.phase, input) {
            (StreamPhase::Seeding, StreamInput::Fetched(Some(v))) => {
                state.phase = StreamPhase::Connecting;
                Some(self.begin(channel, v))
            },
            (StreamPhase::Seeding, StreamInput::Fetched(None)) => {
                state.phase = StreamPhase::Creating;
                None
            },
            (StreamPhase::Seeding, StreamInput::FetchFailed) => {
                state.phase = StreamPhase::Connecting;
                self.mark_synced(channel);
                None
            },
            (StreamPhase::Creating, StreamInput::Created) => {
                state.phase = StreamPhase::Connecting;
                Some(self.begin(channel, Value::empty_object()))
            },
            (StreamPhase::Creating, StreamInput::CreateFailed) => {
                state.phase = StreamPhase::Connecting;
                self.mark_synced(channel);
                None
            },
            (StreamPhase::Connecting, StreamInput::Connected) => {
                state.phase = StreamPhase::Streaming;
                state.backoff_ms = FIRST_BACKOFF_MS;
                None
            },
            (StreamPhase::Connecting, StreamInput::ConnectFailed) => {
                state.phase = StreamPhase::Pausing;
                None
            },
            (StreamPhase::Streaming, StreamInput::Item(event)) => {
                if event.is_aggregate_update() {
                    let data = match event.aggregate_data() {
                        Some(data) => Some(data.clone()),
                        None => None,
                    };
                    if let Some(data) = data {
                        self.keep_aggregate(channel, data);
                    }
                }
                let callbacks = self.dispatch(channel, &event);
                Some(Announcement { event, callbacks })
            },
            (StreamPhase::Streaming, StreamInput::ItemFailed) => {
                state.phase = StreamPhase::Pausing;
                None
            },
            (StreamPhase::Streaming, StreamInput::Ended) => {
                state.phase = StreamPhase::Pausing;
                None
            },
            (StreamPhase::Pausing, StreamInput::Paused) => {
                state.phase = StreamPhase::Connecting;
                let twice: u64 = 2 * state.backoff_ms;
                state.backoff_ms = if twice < MAX_BACKOFF_MS {
                    twice
                } else {
                    MAX_BACKOFF_MS
                };
                None
            },
            _ => None,
        }
    }

    fn begin(&mut self, channel: &str, data: Value) -> (a: Announcement)
        ensures
            final(self)@ == with_aggregate(old(self)@, channel@, data@),
            a.event.event_name@ == CHANNEL_SYNC@,
            a.event.channel@ == channel@,
            a.event.payload@ == boot_payload(data@),
            a.callbacks@ == audience(final(self)@, channel@, CHANNEL_SYNC@),
    {
        let event = Event::channel_sync(channel, data.clone());
        self.keep_aggregate(channel, data);
        let callbacks = self.dispatch(channel, &event);
        Announcement { event, callbacks }
    }
}

/// The stream of a channel at its start.
pub fn new_stream() -> (s: StreamState)
    ensures
        s == (StreamState { phase: StreamPhase::Seeding, backoff_ms: FIRST_BACKOFF_MS }),
{
    StreamState { phase: StreamPhase::Seeding, backoff_ms: FIRST_BACKOFF_MS }
}

// ---- laws ----------------------------------------------------------------------------

/// A pause is never shorter than the first and never longer than the limit.
pub proof fn law_pauses_are_bounded(s: StreamState, input: StreamInput)
    requires
        FIRST_BACKOFF_MS <= s.backoff_ms <= MAX_BACKOFF_MS,
    ensures
        FIRST_BACKOFF_MS <= next_state(s, input).backoff_ms <= MAX_BACKOFF_MS,
{
}

/// A stream that ends or breaks is connected again after its pause, and a stream
/// that has begun never asks for the aggregate again.
pub proof fn law_streams_reconnect(s: StreamState, input: StreamInput)
    ensures
        s.phase == StreamPhase::Streaming && (input is Ended || input is ItemFailed) ==> next_state(
            next_state(s, input),
            StreamInput::Paused,
        ).phase == StreamPhase::Connecting,
        s.phase != StreamPhase::Seeding ==> next_state(s, input).phase != StreamPhase::Seeding,
{
}

/// The aggregate of a channel is that of the latest update.
pub proof fn law_cache_holds_the_latest(v: HubView, channel: Seq<char>, e: Event)
    requires
        updated(e) is Some,
    ensures
        at(
            hub_after(v, channel, StreamPhase::Streaming, StreamInput::Item(e)).aggregates,
            channel,
        ) == updated(e),
        forall|other: Seq<char>|
            other != channel ==> #[trigger] at(
                hub_after(v, channel, StreamPhase::Streaming, StreamInput::Item(e)).aggregates,
                other,
            ) == at(v.aggregates, other),
{
    lemma_put(v.aggregates, channel, updated(e)->0);
}

/// Once a stream has begun, its channel is synced, whether or not there was an
/// aggregate to begin with.
pub proof fn law_begun_is_synced(
    v: HubView,
    channel: Seq<char>,
    phase: StreamPhase,
    input: StreamInput,
)
    requires
        has_listener(v.listeners, channel),
        seeded(phase, input) is Some,
    ensures
        hub_after(v, channel, phase, input).synced.contains(channel),
{
}

/// A subscriber is told of an event exactly if it listens to the channel and wants
/// events of that kind.
pub proof fn law_who_is_told(
    list: Seq<Listener>,
    channel: Seq<char>,
    flag: EventSubscription,
    callback: u64,
)
    ensures
        told(list, channel, flag).contains(callback) <==> exists|i: int|
            0 <= i < list.len() && (#[trigger] list[i]).0 == channel && list[i].1.covers(flag)
                && list[i].2 == callback,
    decreases list.len(),
{
    if list.len() > 0 {
        let d = list.drop_last();
        let before = told(d, channel, flag);
        let all = told(list, channel, flag);
        law_who_is_told(d, channel, flag, callback);
        assert(forall|i: int| 0 <= i < d.len() ==> #[trigger] d[i] == list[i]);
        if before.contains(callback) {
            let k = choose|k: int| 0 <= k < before.len() && before[k] == callback;
            assert(all[k] == callback);
            let i = choose|i: int|
                0 <= i < d.len() && (#[trigger] d[i]).0 == channel && d[i].1.covers(flag)
                    && d[i].2 == callback;
            assert(list[i] == d[i]);
        }
        if list.last().0 == channel && list.last().1.covers(flag) {
            assert(all[before.len() as int] == list.last().2);
            assert(list[list.len() - 1] == list.last());
        }
        if all.contains(callback) && !before.contains(callback) {
            let k = choose|k: int| 0 <= k < all.len() && all[k] == callback;
            assert(k == before.len());
        }
        if exists|i: int|
            0 <= i < list.len() && (#[trigger] list[i]).0 == channel && list[i].1.covers(flag)
                && list[i].2 == callback {
            let i = choose|i: int|
                0 <= i < list.len() && (#[trigger] list[i]).0 == channel && list[i].1.covers(flag)
                    && list[i].2 == callback;
            if i < d.len() {
                assert(d[i] == list[i]);
            }
        }
    }
}

} // verus!
