//! What device applications can rely on: which listeners are told of an event, what a
//! stream does, which pulses count, and how a run proceeds.
use vstd::prelude::*;

use crate::api::reply::doubled;
use crate::docker::application::{
    after_event, connect_pause, is_action_for, is_follow_up, run_next, says_success, tag_entries,
    tags_doc, Callback, CommandAnswer, CommandFollowUp, ContextView, RunInput, RunPhase, RunState,
    RunnerAction, RunnerEvent, UiCommand,
};
use crate::docker::platform::{
    after_events, counts, in_window, others_of, pulse_of, spread, updates_of, CounterView, Edge,
    Gap, PlatformEvent,
};
use crate::docker::subscriptions::{
    announced, audience, hub_after, is_announcement, next_state, told, updated, HubView, Listener,
    StreamInput, StreamPhase, StreamState,
};
use crate::error::DooverError;
use crate::events::{flag_of, Event, EventSubscription};
use crate::json::{at, empty_obj, field, field2, lemma_at_one, lemma_put, str_field, Json, Value};

verus! {

// ---- events and their listeners ------------------------------------------------------------

proof fn lemma_event_names()
    ensures
        "MessageCreate"@.len() == 13 && "MessageCreate"@[7] == 'C',
        "MessageUpdate"@.len() == 13 && "MessageUpdate"@[7] == 'U',
        "AggregateUpdate"@.len() == 15,
        "OneShotMessage"@.len() == 14,
        "ChannelSync"@.len() == 11,
{
    reveal_strlit("MessageCreate");
    reveal_strlit("MessageUpdate");
    reveal_strlit("AggregateUpdate");
    reveal_strlit("OneShotMessage");
    reveal_strlit("ChannelSync");
}

/// Whether a subscriber wants events with a name. Each kind has a bit of its own.
pub open spec fn wants(s: EventSubscription, name: Seq<char>) -> bool {
    ||| name == "MessageCreate"@ && s.bits & 1 == 1
    ||| name == "MessageUpdate"@ && s.bits & 2 == 2
    ||| name == "AggregateUpdate"@ && s.bits & 4 == 4
    ||| name == "OneShotMessage"@ && s.bits & 8 == 8
    ||| name == "ChannelSync"@ && s.bits & 16 == 16
}

/// An event reaches every listener on its channel that wants events of its kind, in the
/// order in which they subscribed, and no other listener.
pub proof fn law_events_reach_their_listeners(v: HubView, channel: Seq<char>, name: Seq<char>)
    ensures
        audience(v, channel, name) == v.listeners.filter_map(
            |l: Listener|
                if l.0 == channel && wants(l.1, name) {
                    Some(l.2)
                } else {
                    None
                },
        ),
        forall|i: int|
            0 <= i < v.listeners.len() && (#[trigger] v.listeners[i]).0 == channel && wants(
                v.listeners[i].1,
                name,
            ) ==> audience(v, channel, name).contains(v.listeners[i].2),
{
    lemma_event_names();
    let flag = flag_of(name);
    assert forall|s: EventSubscription| flag != EventSubscription::none() implies #[trigger] s.covers(
        flag,
    ) == wants(s, name) by {}
    if flag == EventSubscription::none() {
        assert forall|s: EventSubscription| !#[trigger] wants(s, name) by {}
    }
    lemma_told(v.listeners, channel, name);
    let f = |l: Listener|
        if l.0 == channel && wants(l.1, name) {
            Some(l.2)
        } else {
            None
        };
    lemma_filter_map_takes(v.listeners, f);
    assert forall|i: int|
        0 <= i < v.listeners.len() && (#[trigger] v.listeners[i]).0 == channel && wants(
            v.listeners[i].1,
            name,
        ) implies audience(v, channel, name).contains(v.listeners[i].2) by {
        assert(f(v.listeners[i]) == Some(v.listeners[i].2));
    }
}

proof fn lemma_filter_map_takes<A, B>(list: Seq<A>, f: spec_fn(A) -> Option<B>)
    ensures
        forall|i: int|
            0 <= i < list.len() && (#[trigger] f(list[i])) is Some ==> list.filter_map(f).contains(
                f(list[i]).unwrap(),
            ),
    decreases list.len(),
{
    if list.len() > 0 {
        let d = list.drop_last();
        let before = d.filter_map(f);
        let all = list.filter_map(f);
        lemma_filter_map_takes(d, f);
        assert forall|i: int| 0 <= i < list.len() && (#[trigger] f(list[i]))
            is Some implies all.contains(f(list[i]).unwrap()) by {
            if i < d.len() {
                assert(d[i] == list[i]);
                assert(f(d[i]) is Some);
                let k = choose|k: int| 0 <= k < before.len() && before[k] == f(list[i]).unwrap();
                assert(all[k] == before[k]);
            } else {
                assert(all[before.len() as int] == f(list[i]).unwrap());
            }
        }
    }
}

proof fn lemma_told(list: Seq<Listener>, channel: Seq<char>, name: Seq<char>)
    requires
        forall|s: EventSubscription|
            flag_of(name) != EventSubscription::none() ==> #[trigger] s.covers(flag_of(name))
                == wants(s, name),
        flag_of(name) == EventSubscription::none() ==> forall|s: EventSubscription| !#[trigger] wants(s, name),
    ensures
        (if flag_of(name) == EventSubscription::none() {
            Seq::empty()
        } else {
            told(list, channel, flag_of(name))
        }) == list.filter_map(
            |l: Listener|
                if l.0 == channel && wants(l.1, name) {
                    Some(l.2)
                } else {
                    None
                },
        ),
    decreases list.len(),
{
    let f = |l: Listener|
        if l.0 == channel && wants(l.1, name) {
            Some(l.2)
        } else {
            None
        };
    if list.len() > 0 {
        lemma_told(list.drop_last(), channel, name);
        let before = told(list.drop_last(), channel, flag_of(name));
        if flag_of(name) != EventSubscription::none() {
            assert(list.last().1.covers(flag_of(name)) == wants(list.last().1, name));
            assert(told(list, channel, flag_of(name)) =~= list.filter_map(f));
        } else {
            assert(!wants(list.last().1, name));
        }
    }
}

// ---- streams --------------------------------------------------------------------------------

/// A stream begins with the channel's aggregate: it is cached, the channel counts as synced
/// if anyone listens, and listeners get it as a boot state. A channel that does not exist
/// is created and begins empty. If either fails the channel counts as synced without data.
/// Then the stream connects.
pub proof fn law_streams_begin_with_the_aggregate(
    v: HubView,
    channel: Seq<char>,
    data: Value,
    e: Event,
    s: StreamState,
)
    requires
        exists|i: int| 0 <= i < v.listeners.len() && (#[trigger] v.listeners[i]).0 == channel,
    ensures
        ({
            let got = StreamInput::Fetched(Some(data));
            let is = hub_after(v, channel, StreamPhase::Seeding, got);
            &&& at(is.aggregates, channel) == Some(data@)
            &&& is.synced.contains(channel)
            &&& announced(StreamPhase::Seeding, got) == Some("ChannelSync"@)
            &&& is_announcement(e, channel, StreamPhase::Seeding, got) ==> e.event_name@
                == "ChannelSync"@ && e.channel@ == channel && field2(
                e.payload@,
                "aggregate"@,
                "data"@,
            ) == Some(data@)
        }),
        ({
            let made = StreamInput::Created;
            let is = hub_after(v, channel, StreamPhase::Creating, made);
            &&& at(is.aggregates, channel) == Some(empty_obj())
            &&& is.synced.contains(channel)
            &&& announced(StreamPhase::Creating, made) == Some("ChannelSync"@)
        }),
        ({
            let a = hub_after(v, channel, StreamPhase::Seeding, StreamInput::FetchFailed);
            let b = hub_after(v, channel, StreamPhase::Creating, StreamInput::CreateFailed);
            &&& a.synced.contains(channel) && a.aggregates == v.aggregates
            &&& b.synced.contains(channel) && b.aggregates == v.aggregates
            &&& announced(StreamPhase::Seeding, StreamInput::FetchFailed) is None
            &&& announced(StreamPhase::Creating, StreamInput::CreateFailed) is None
        }),
        s.phase == StreamPhase::Seeding ==> next_state(s, StreamInput::Fetched(Some(data))).phase
            == StreamPhase::Connecting && next_state(s, StreamInput::FetchFailed).phase
            == StreamPhase::Connecting && next_state(s, StreamInput::Fetched(None)).phase
            == StreamPhase::Creating,
        s.phase == StreamPhase::Creating ==> next_state(s, StreamInput::Created).phase
            == StreamPhase::Connecting && next_state(s, StreamInput::CreateFailed).phase
            == StreamPhase::Connecting,
{
    lemma_put(v.aggregates, channel, data@);
    lemma_put(v.aggregates, channel, empty_obj());
    reveal_strlit("aggregate");
    reveal_strlit("data");
    lemma_at_one("data"@, data@, "data"@);
    lemma_at_one("aggregate"@, Json::Obj(seq![("data"@, data@)]), "aggregate"@);
}

/// Every event that arrives on a stream is announced as it came. An aggregate update
/// changes the cache of its channel; any other event leaves the hub as it was, and no event
/// ends the stream.
pub proof fn law_streamed_events_are_announced(
    v: HubView,
    channel: Seq<char>,
    item: Event,
    e: Event,
    backoff_ms: u64,
)
    ensures
        ({
            let s = StreamState { phase: StreamPhase::Streaming, backoff_ms };
            let input = StreamInput::Item(item);
            let is = hub_after(v, channel, StreamPhase::Streaming, input);
            &&& announced(StreamPhase::Streaming, input) == Some(item.event_name@)
            &&& is_announcement(e, channel, StreamPhase::Streaming, input) <==> e == item
            &&& next_state(s, input) == s
            &&& item.event_name@ != "AggregateUpdate"@ ==> is == v
            &&& item.event_name@ == "AggregateUpdate"@ ==> (match field2(
                item.payload@,
                "aggregate"@,
                "data"@,
            ) {
                Some(data) => at(is.aggregates, channel) == Some(data),
                None => is == v,
            })
            &&& is.listeners == v.listeners
        }),
{
    if let Some(data) = updated(item) {
        lemma_put(v.aggregates, channel, data);
    }
}

/// A stream pauses before it connects again: a second at first, then twice as long each
/// time, ten seconds at most. A connection that succeeds starts over with a second.
pub proof fn law_pauses_double(s: StreamState)
    requires
        s.backoff_ms <= 10_000,
    ensures
        s.phase == StreamPhase::Connecting ==> next_state(s, StreamInput::Connected) == (
        StreamState { phase: StreamPhase::Streaming, backoff_ms: 1_000 }),
        s.phase == StreamPhase::Connecting ==> next_state(s, StreamInput::ConnectFailed) == (
        StreamState { phase: StreamPhase::Pausing, ..s }),
        s.phase == StreamPhase::Streaming ==> next_state(s, StreamInput::ItemFailed) == (
        StreamState { phase: StreamPhase::Pausing, ..s }),
        s.phase == StreamPhase::Streaming ==> next_state(s, StreamInput::Ended) == (StreamState {
            phase: StreamPhase::Pausing,
            ..s
        }),
        s.phase == StreamPhase::Pausing ==> next_state(s, StreamInput::Paused) == (StreamState {
            phase: StreamPhase::Connecting,
            backoff_ms: if s.backoff_ms <= 5_000 {
                (2 * s.backoff_ms) as u64
            } else {
                10_000
            },
        }),
{
}

// ---- pulses -----------------------------------------------------------------------------------

/// Whether an event is a pulse: a rising edge, a falling edge, or a voltage.
pub open spec fn is_pulse(event: Seq<char>) -> bool {
    event == "DI_R"@ || event == "DI_F"@ || event == "VI"@
}

proof fn lemma_pulse_names()
    ensures
        "DI_R"@.len() == 4 && "DI_R"@[3] == 'R',
        "DI_F"@.len() == 4 && "DI_F"@[3] == 'F',
        "VI"@.len() == 2,
{
    reveal_strlit("DI_R");
    reveal_strlit("DI_F");
    reveal_strlit("VI");
}

/// An event counts exactly if it is a pulse and happened more than 10 milliseconds after
/// the last one that counted, if there was one. An event without a time happened now.
pub proof fn law_which_events_count(v: CounterView, e: PlatformEvent, now: i64)
    ensures
        counts(v, e, now) <==> is_pulse(e.event@) && (v.stamps.len() == 0 || (if e.time == 0 {
            now
        } else {
            e.time
        }) > v.stamps[v.stamps.len() - 1] + 10),
{
}

/// Pulses that are more than 10 milliseconds apart are all counted, each once and in
/// order, and each is told of: at its time, with its number, with the time since the one
/// before, as high exactly if it is a rising edge.
pub proof fn law_spaced_pulses_are_all_counted(
    v: CounterView,
    events: Seq<PlatformEvent>,
    now: i64,
)
    requires
        forall|i: int|
            0 <= i < events.len() ==> is_pulse((#[trigger] events[i]).event@) && events[i].time
                != 0,
        forall|i: int, j: int|
            0 <= i < j < events.len() ==> (#[trigger] events[i]).time + 10 < (
            #[trigger] events[j]).time,
        v.stamps.len() > 0 && events.len() > 0 ==> v.stamps.last() + 10 < events[0].time,
        0 <= v.count,
        v.count + events.len() <= u64::MAX,
    ensures
        ({
            let is = after_events(v, events, now);
            let told = updates_of(v, events, now);
            &&& is.count == v.count + events.len()
            &&& is.stamps == v.stamps + Seq::new(events.len(), |i: int| events[i].time)
            &&& is.pin == v.pin && is.edge == v.edge && is.window == v.window
            &&& told.len() == events.len()
            &&& forall|i: int|
                0 <= i < events.len() ==> {
                    let u = #[trigger] told[i];
                    &&& u.pin == v.pin
                    &&& u.count == v.count + i + 1
                    &&& u.timestamp_ms == Some(events[i].time)
                    &&& u.value == (events[i].event@ == "DI_R"@)
                    &&& u.edge == (if events[i].event@ == "DI_R"@ {
                        Some(Edge::Rising)
                    } else if events[i].event@ == "DI_F"@ {
                        Some(Edge::Falling)
                    } else {
                        None
                    })
                    &&& i > 0 ==> u.gap == Gap::Millis(
                        (events[i].time - events[i - 1].time) as u64,
                    )
                    &&& i == 0 ==> u.gap == Gap::Millis(
                        if v.stamps.len() == 0 {
                            0
                        } else {
                            (events[0].time - v.stamps.last()) as u64
                        },
                    )
                }
        }),
    decreases events.len(),
{
    lemma_pulse_names();
    if events.len() > 0 {
        let d = events.drop_last();
        assert(forall|i: int| 0 <= i < d.len() ==> #[trigger] d[i] == events[i]);
        if d.len() > 0 {
            assert(d[0] == events[0]);
        }
        law_spaced_pulses_are_all_counted(v, d, now);
        let before = after_events(v, d, now);
        let last = events.last();
        assert(last == events[events.len() - 1]);
        let more = Seq::new(d.len(), |i: int| d[i].time);
        if d.len() > 0 {
            assert(before.stamps.last() == d[d.len() - 1].time);
            assert(events[d.len() - 1].time + 10 < events[events.len() - 1].time);
        } else {
            assert(before.stamps =~= v.stamps);
        }
        assert(counts(before, last, now));
        assert(after_events(v, events, now).stamps =~= v.stamps + Seq::new(
            events.len(),
            |i: int| events[i].time,
        ));
        let told = updates_of(v, events, now);
        let earlier = updates_of(v, d, now);
        assert forall|i: int| 0 <= i < events.len() implies ({
            let u = #[trigger] told[i];
            &&& u.pin == v.pin
            &&& u.count == v.count + i + 1
            &&& u.timestamp_ms == Some(events[i].time)
            &&& u.value == (events[i].event@ == "DI_R"@)
            &&& u.edge == (if events[i].event@ == "DI_R"@ {
                Some(Edge::Rising)
            } else if events[i].event@ == "DI_F"@ {
                Some(Edge::Falling)
            } else {
                None
            })
            &&& i > 0 ==> u.gap == Gap::Millis((events[i].time - events[i - 1].time) as u64)
            &&& i == 0 ==> u.gap == Gap::Millis(
                if v.stamps.len() == 0 {
                    0
                } else {
                    (events[0].time - v.stamps.last()) as u64
                },
            )
        }) by {
            if i < d.len() {
                assert(told[i] == earlier[i]);
                assert(d[i] == events[i]);
                if i > 0 {
                    assert(d[i - 1] == events[i - 1]);
                }
            } else {
                assert(is_pulse(events[i].event@));
            }
        }
    } else {
        assert(after_events(v, events, now).stamps =~= v.stamps + Seq::new(
            events.len(),
            |i: int| events[i].time,
        ));
    }
}

/// Events that are no pulses are handed on, all of them and in order.
pub proof fn law_other_events_are_handed_on(events: Seq<PlatformEvent>)
    ensures
        forall|i: int|
            0 <= i < events.len() ==> (others_of(events).contains(i) <==> !is_pulse(
                (#[trigger] events[i]).event@,
            )),
        forall|k: int|
            0 <= k < others_of(events).len() ==> 0 <= #[trigger] others_of(events)[k]
                < events.len(),
        forall|j: int, k: int|
            0 <= j < k < others_of(events).len() ==> #[trigger] others_of(events)[j]
                < #[trigger] others_of(events)[k],
    decreases events.len(),
{
    if events.len() > 0 {
        let d = events.drop_last();
        let before = others_of(d);
        let all = others_of(events);
        law_other_events_are_handed_on(d);
        assert forall|i: int| 0 <= i < events.len() implies (all.contains(i) <==> !is_pulse(
            (#[trigger] events[i]).event@,
        )) by {
            if i < d.len() {
                assert(d[i] == events[i]);
                if before.contains(i) {
                    let k = choose|k: int| 0 <= k < before.len() && before[k] == i;
                    assert(all[k] == i);
                }
                if all.contains(i) {
                    let k = choose|k: int| 0 <= k < all.len() && all[k] == i;
                    assert(k < before.len());
                    assert(before[k] == i);
                }
            } else {
                if pulse_of(events[i].event@) is None {
                    assert(all[before.len() as int] == i);
                } else if all.contains(i) {
                    let k = choose|k: int| 0 <= k < all.len() && all[k] == i;
                    assert(before[k] < d.len());
                }
            }
        }
    }
}

/// The pulses in the window are those that happened less than its length before the last
/// one, in order.
pub proof fn law_the_window_holds_recent_pulses(stamps: Seq<i64>, newest: i64, window: u64)
    ensures
        in_window(stamps, newest, window) == stamps.filter(|t: i64| t > newest - window),
    decreases stamps.len(),
{
    reveal(Seq::filter);
    if stamps.len() > 0 {
        law_the_window_holds_recent_pulses(stamps.drop_last(), newest, window);
    }
}

/// One value goes to every pin, and as many values as pins go to the pins one by one; any
/// other number is refused.
pub proof fn law_values_are_spread_over_pins<T>(pins: nat, values: Seq<T>)
    ensures
        spread(pins, values) is Some <==> values.len() == pins || values.len() == 1,
        (spread(pins, values) matches Some(s) ==> s.len() == pins && forall|i: int|
            0 <= i < pins ==> #[trigger] s[i] == (if values.len() == pins {
                values[i]
            } else {
                values[0]
            })),
{
}

// ---- a run --------------------------------------------------------------------------------------

/// A run goes through its steps in order: it serves its health, connects, gets and loads
/// its configuration, prepares, sets the application up and publishes its interface. Then
/// it waits. Each tick runs the loop, commits the tags and publishes again, after which the
/// application is healthy. A failure before the application exists ends the run with it.
pub proof fn law_runs_go_in_order(s: RunState, e: DooverError)
    ensures
        s.phase == RunPhase::Healthcheck ==> run_next(s, RunInput::Done).phase
            == RunPhase::Connecting,
        s.phase == RunPhase::Connecting ==> run_next(s, RunInput::Done).phase
            == RunPhase::Configuring,
        s.phase == RunPhase::Configuring ==> run_next(s, RunInput::Done).phase == RunPhase::Loading,
        s.phase == RunPhase::Loading ==> run_next(s, RunInput::Done).phase == RunPhase::Preparing,
        s.phase == RunPhase::Preparing ==> run_next(s, RunInput::Done).phase
            == RunPhase::SettingUp,
        s.phase == RunPhase::SettingUp ==> run_next(s, RunInput::Done).phase
            == RunPhase::Publishing,
        s.phase == RunPhase::Publishing ==> run_next(s, RunInput::Done).phase == RunPhase::Idle
            && run_next(s, RunInput::Failed(e)).phase == RunPhase::Idle,
        s.phase == RunPhase::Connecting || s.phase == RunPhase::Configuring || s.phase
            == RunPhase::Loading ==> run_next(s, RunInput::Failed(e)) == (RunState {
            phase: RunPhase::Ended,
            failure: Some(e),
            ..s
        }),
        s.phase == RunPhase::Idle ==> ({
            let looped = run_next(s, RunInput::Tick);
            let committing = run_next(looped, RunInput::Done);
            let publishing = run_next(committing, RunInput::Done);
            let idle = run_next(publishing, RunInput::Done);
            &&& looped == (RunState { phase: RunPhase::Looping, ..s })
            &&& committing == (RunState { phase: RunPhase::Committing, ..s })
            &&& publishing == (RunState { phase: RunPhase::Republishing, ..s })
            &&& idle == (RunState { phase: RunPhase::Idle, healthy: true, ..s })
            &&& run_next(publishing, RunInput::Failed(e)) == idle
            &&& run_next(looped, RunInput::Failed(e)) == (RunState {
                phase: RunPhase::Failing,
                healthy: false,
                failure: Some(e),
            })
            &&& run_next(committing, RunInput::Failed(e)) == (RunState {
                phase: RunPhase::Failing,
                healthy: false,
                failure: Some(e),
            })
        }),
        s.phase == RunPhase::SettingUp ==> run_next(s, RunInput::Failed(e)) == (RunState {
            phase: RunPhase::Failing,
            healthy: s.healthy,
            failure: Some(e),
        }),
        s.phase == RunPhase::Idle ==> run_next(s, RunInput::Event) == (RunState {
            phase: RunPhase::Handling,
            ..s
        }) && run_next(s, RunInput::Stop) == (RunState { phase: RunPhase::ShuttingDown, ..s }),
        s.phase != RunPhase::Idle ==> run_next(s, RunInput::Event) == s && run_next(
            s,
            RunInput::Stop,
        ) == s && run_next(s, RunInput::Tick) == s,
{
}

/// The pauses between tries to connect are 200 milliseconds doubled with every try, and
/// five seconds at most.
pub proof fn law_connect_pauses(tries: nat)
    ensures
        tries == 0 ==> connect_pause(tries) == 200,
        tries == 1 ==> connect_pause(tries) == 400,
        tries == 2 ==> connect_pause(tries) == 800,
        tries == 3 ==> connect_pause(tries) == 1_600,
        tries == 4 ==> connect_pause(tries) == 3_200,
        tries >= 5 ==> connect_pause(tries) == 5_000,
        tries + 1 < 5 ==> connect_pause(tries + 1) == 2 * connect_pause(tries),
{
    reveal_with_fuel(doubled, 7);
}

/// A configuration update gives the application its own part of the deployment
/// configuration, the empty object if there is none, with the agent and the name that are
/// in it, and has it loaded. Without data it changes nothing.
pub proof fn law_configuration_updates_are_taken_over(v: ContextView, e: Event, a: RunnerAction)
    requires
        is_action_for(a, RunnerEvent::ConfigUpdate(e)),
    ensures
        ({
            let is = after_event(v, RunnerEvent::ConfigUpdate(e));
            match field2(e.payload@, "aggregate"@, "data"@) {
                Some(data) => {
                    &&& a is Reload
                    &&& is.app_key == v.app_key
                    &&& is.config == (match field2(data, "applications"@, v.app_key) {
                        Some(c) => c,
                        None => empty_obj(),
                    })
                    &&& is.agent_id == field(is.config, "AGENT_ID"@)
                    &&& is.app_display_name == (match str_field(is.config, "APP_DISPLAY_NAME"@) {
                        Some(n) => n,
                        None => Seq::empty(),
                    })
                },
                None => a is Nothing && is == v,
            }
        }),
{
}

/// An event of an application's channel is handed to the callback for its kind, unchanged,
/// and changes nothing by itself; an event of no known kind is dropped.
pub proof fn law_events_reach_their_callback(v: ContextView, e: Event, a: RunnerAction)
    requires
        is_action_for(a, RunnerEvent::App(e)),
    ensures
        after_event(v, RunnerEvent::App(e)) == v,
        e.event_name@ == "MessageCreate"@ <==> a == RunnerAction::Call(
            Callback::MessageCreate,
            e,
        ),
        e.event_name@ == "MessageUpdate"@ <==> a == RunnerAction::Call(
            Callback::MessageUpdate,
            e,
        ),
        e.event_name@ == "AggregateUpdate"@ <==> a == RunnerAction::Call(
            Callback::AggregateUpdate,
            e,
        ),
        e.event_name@ == "OneShotMessage"@ <==> a == RunnerAction::Call(
            Callback::OneshotMessage,
            e,
        ),
        e.event_name@ == "ChannelSync"@ <==> a == RunnerAction::Call(
            Callback::ChannelSync,
            e,
        ),
        a is Call || a is Nothing,
{
    lemma_event_names();
}

/// What an application writes of several tags holds each of them under the app's key, if
/// it has one; of a tag that is named twice the later value.
pub proof fn law_written_tags_are_under_the_app(app_key: Seq<char>, tags: Seq<(String, Value)>, i: int)
    requires
        0 <= i < tags.len(),
        forall|j: int| i < j < tags.len() ==> (#[trigger] tags[j]).0@ != tags[i].0@,
    ensures
        app_key.len() > 0 ==> field2(tags_doc(app_key, tags), app_key, tags[i].0@) == Some(
            tags[i].1@,
        ),
        app_key.len() == 0 ==> field(tags_doc(app_key, tags), tags[i].0@) == Some(tags[i].1@),
{
    lemma_tag_entries(tags, i);
    lemma_at_one(app_key, Json::Obj(tag_entries(tags)), app_key);
}

proof fn lemma_tag_entries(tags: Seq<(String, Value)>, i: int)
    requires
        0 <= i < tags.len(),
        forall|j: int| i < j < tags.len() ==> (#[trigger] tags[j]).0@ != tags[i].0@,
    ensures
        at(tag_entries(tags), tags[i].0@) == Some(tags[i].1@),
    decreases tags.len(),
{
    let d = tags.drop_last();
    lemma_put(tag_entries(d), tags.last().0@, tags.last().1@);
    if i < d.len() {
        assert(tags[tags.len() - 1].0@ != tags[i].0@);
        assert forall|j: int| i < j < d.len() implies (#[trigger] d[j]).0@ != d[i].0@ by {
            assert(d[j] == tags[j]);
        }
        lemma_tag_entries(d, i);
    }
}

/// A health endpoint that cannot be served and a preparation that fails do not stop a run, a
/// failed loop ends it after its pause, and so does shutting down, however that ends.
pub proof fn law_some_failures_are_passed_over(s: RunState, e: DooverError)
    ensures
        s.phase == RunPhase::Healthcheck ==> run_next(s, RunInput::Failed(e)) == (RunState {
            phase: RunPhase::Connecting,
            ..s
        }),
        s.phase == RunPhase::Preparing ==> run_next(s, RunInput::Failed(e)) == (RunState {
            phase: RunPhase::SettingUp,
            ..s
        }),
        s.phase == RunPhase::Failing || s.phase == RunPhase::ShuttingDown ==> run_next(
            s,
            RunInput::Done,
        ) == (RunState { phase: RunPhase::Ended, ..s }) && run_next(s, RunInput::Failed(e)) == (
        RunState { phase: RunPhase::Ended, ..s }),
{
}

/// A command that the application accepts is written back under its own name with its own
/// value, and logged; one that it refuses is answered with its name, a code and the reason.
pub proof fn law_accepted_commands_are_written_back(
    f: CommandFollowUp,
    cmd: UiCommand,
    result: Result<(), DooverError>,
)
    requires
        is_follow_up(f, cmd, result),
    ensures
        result is Ok ==> (f matches CommandFollowUp::WriteBack(w) && w.name@ == cmd.name@ && w.value@
            == cmd.value@ && w.log),
        result matches Err(e) ==> (f matches CommandFollowUp::Answer(CommandAnswer::Error {
            name,
            code,
            message,
        }) && name@ == cmd.name@ && code@ == "INTERNAL_ERROR"@ && message@ == e.text()),
        forall|a: CommandAnswer| #[trigger]
            says_success(a, cmd) ==> (a matches CommandAnswer::Success { name } && name@
                == cmd.name@),
{
}

} // verus!
