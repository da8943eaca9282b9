//! Inputs and outputs through the platform sidecar, and counting the pulses of a
//! digital input.
//!
//! A counter counts either live pulses or stored events, never both. Times are in
//! milliseconds.
use vstd::prelude::*;

use crate::docker::grpc::{check_response_header, is_failure};
use crate::docker::platform_client::PlatformClient;
use crate::diff::tidy;
use crate::error::{is_json_error, is_other, DooverError};
use crate::json::{Json, Value};
use crate::json_text::{from_text, json_parse};
use crate::text::{concat, debug_text, opt_chars, quoted, same};

verus! {

/// The name of the service.
pub const SERVICE_NAME: &'static str = "doover.PlatformInterface";

// ---- edges -----------------------------------------------------------------------------

/// Which edges of a digital input count.
#[derive(Debug, Clone, Copy, PartialEq, Eq, Structural)]
pub enum Edge {
    Rising,
    Falling,
    Both,
}

impl Default for Edge {
    fn default() -> (e: Self)
        ensures
            e == Edge::Rising,
    {
        Edge::Rising
    }
}

impl Edge {
    /// The name of the edge.
    pub open spec fn name(self) -> Seq<char> {
        match self {
            Edge::Rising => "rising"@,
            Edge::Falling => "falling"@,
            Edge::Both => "both"@,
        }
    }

    /// The name of the edge.
    pub fn as_str(self) -> (r: &'static str)
        ensures
            r@ == self.name(),
    {
        match self {
            Edge::Rising => "rising",
            Edge::Falling => "falling",
            Edge::Both => "both",
        }
    }

    /// Whether rising and whether falling edges count.
    pub fn flags(self) -> (r: (bool, bool))
        ensures
            r.0 == (self != Edge::Falling),
            r.1 == (self != Edge::Rising),
    {
        match self {
            Edge::Rising => (true, false),
            Edge::Falling => (false, true),
            Edge::Both => (true, true),
        }
    }

    /// Whether something is what a text is read as: the edge with that name, or the error
    /// that there is none.
    pub open spec fn is_read(s: Seq<char>, r: Result<Edge, DooverError>) -> bool {
        match r {
            Ok(e) => s == e.name(),
            Err(e) => s != "rising"@ && s != "falling"@ && s != "both"@ && is_other(
                e,
                "invalid edge: "@ + debug_text(s),
            ),
        }
    }

    /// The edge with a name.
    pub fn from_name(s: &str) -> (r: Result<Edge, DooverError>)
        ensures
            Edge::is_read(s@, r),
    {
        if same(s, "rising") {
            Ok(Edge::Rising)
        } else if same(s, "falling") {
            Ok(Edge::Falling)
        } else if same(s, "both") {
            Ok(Edge::Both)
        } else {
            Err(DooverError::Other(concat("invalid edge: ", quoted(s).as_str())))
        }
    }
}

impl std::str::FromStr for Edge {
    type Err = DooverError;

    fn from_str(s: &str) -> (r: Result<Edge, DooverError>)
        ensures
            match r {
                Ok(e) => s@ == e.name(),
                Err(e) => s@ != "rising"@ && s@ != "falling"@ && s@ != "both"@ && is_other(
                    e,
                    "invalid edge: "@ + debug_text(s@),
                ),
            },
    {
        Edge::from_name(s)
    }
}

/// The name of an edge reads as that edge, and no other text does.
pub proof fn law_edges_read_back(s: Seq<char>, r: Result<Edge, DooverError>, e: Edge)
    requires
        Edge::is_read(s, r),
    ensures
        r == Ok::<Edge, DooverError>(e) <==> s == e.name(),
        r is Err <==> s != "rising"@ && s != "falling"@ && s != "both"@,
{
    if let Ok(x) = r {
        law_edge_names_differ(x, e);
    }
}

/// The names of the edges tell them apart.
pub proof fn law_edge_names_differ(a: Edge, b: Edge)
    ensures
        a.name() == b.name() ==> a == b,
{
    reveal_strlit("rising");
    reveal_strlit("falling");
    reveal_strlit("both");
    assert("rising"@.len() == 6 && "falling"@.len() == 7 && "both"@.len() == 4);
}

// ---- requests --------------------------------------------------------------------------

/// A change of a digital input's configuration. What is missing stays as it is.
#[derive(Debug, Clone, Copy, PartialEq, Eq, Structural)]
pub struct DiConfigUpdate {
    pub pnp_mode: Option<bool>,
    pub irq_edge: Option<Edge>,
    pub debounce_ms: Option<i32>,
    pub wake_on_event: Option<bool>,
}

impl Default for DiConfigUpdate {
    fn default() -> (u: Self)
        ensures
            u == (DiConfigUpdate {
                pnp_mode: None,
                irq_edge: None,
                debounce_ms: None,
                wake_on_event: None,
            }),
    {
        DiConfigUpdate { pnp_mode: None, irq_edge: None, debounce_ms: None, wake_on_event: None }
    }
}

/// A request to the sidecar.
#[derive(Debug)]
pub enum PlatformOp {
    TestComms { message: String },
    GetDi { pins: Vec<i32> },
    GetAi { pins: Vec<i32> },
    GetDo { pins: Vec<i32> },
    GetAo { pins: Vec<i32> },
    SetDo { pins: Vec<i32>, levels: Vec<bool> },
    ScheduleDo { pins: Vec<i32>, levels: Vec<bool>, in_secs: u32 },
    /// Analog values are single-precision numbers, by their bits.
    SetAo { pins: Vec<i32>, value_bits: Vec<u32> },
    ScheduleAo { pins: Vec<i32>, value_bits: Vec<u32>, in_secs: u32 },
    GetDiEvents {
        pin: i32,
        rising: bool,
        falling: bool,
        include_system_events: bool,
        events_from: Option<i64>,
    },
    SetDiConfig {
        pin: i32,
        pnp_mode: Option<bool>,
        irq_edge: Option<String>,
        debounce_ms: Option<i32>,
        wake_on_event: Option<bool>,
    },
    StartPulseCounter { pin: i32, edge: String },
    GetInputVoltage,
    GetSystemPower,
    GetTemperature,
    GetLocation,
    GetIoTable,
    SyncRtcTime,
    Reboot,
    Shutdown,
    GetShutdownImmunity,
    SetShutdownImmunity { immunity_secs: i32 },
    GetWakeOnVoltage,
    /// A single-precision number, by its bits; nothing to switch it off.
    SetWakeOnVoltage { voltage_bits: Option<u32> },
    GetWakeReason,
    ScheduleStartup { time_secs: u32 },
    ScheduleShutdown { time_secs: u32 },
    GetSleepLog { since: Option<i64> },
    GetSleepLogInterval,
    SetSleepLogInterval { interval_secs: i32 },
    GetEvents { events_from: Option<i64> },
    GetDiConfig { pin: i32 },
}

/// The values for a number of pins: as many as there are pins, or one for all.
pub open spec fn spread<T>(pins: nat, values: Seq<T>) -> Option<Seq<T>> {
    if values.len() == pins {
        Some(values)
    } else if values.len() == 1 {
        Some(Seq::new(pins, |i: int| values[0]))
    } else {
        None
    }
}

/// The values for a number of pins. One value goes to every pin; otherwise there
/// have to be as many values as pins.
pub fn broadcast_values<T: Copy>(pins: &Vec<i32>, values: &Vec<T>, kind: &str) -> (r: Result<
    Vec<T>,
    DooverError,
>)
    ensures
        match r {
            Ok(v) => spread(pins@.len(), values@) == Some(v@),
            Err(e) => spread(pins@.len(), values@) is None && is_other(
                e,
                kind@ + " and value lists are not the same length"@,
            ),
        },
{
    if values.len() == pins.len() {
        let mut out: Vec<T> = Vec::new();
        let mut i: usize = 0;
        while i < values.len()
            invariant
                i <= values@.len(),
                out@ == values@.take(i as int),
            decreases values@.len() - i,
        {
            out.push(values[i]);
            i += 1;
            assert(values@.take(i as int) =~= values@.take(i as int - 1).push(
                values@[i as int - 1],
            ));
        }
        assert(values@.take(values@.len() as int) =~= values@);
        Ok(out)
    } else if values.len() == 1 {
        let mut out: Vec<T> = Vec::new();
        let mut i: usize = 0;
        while i < pins.len()
            invariant
                i <= pins@.len(),
                values@.len() == 1,
                out@ == Seq::new(i as nat, |j: int| values@[0]),
            decreases pins@.len() - i,
        {
            out.push(values[0]);
            i += 1;
            assert(out@ =~= Seq::new(i as nat, |j: int| values@[0]));
        }
        Ok(out)
    } else {
        Err(DooverError::Other(concat(kind, " and value lists are not the same length")))
    }
}

pub(crate) fn copy_pins(pins: &Vec<i32>) -> (out: Vec<i32>)
    ensures
        out@ == pins@,
{
    let mut out: Vec<i32> = Vec::new();
    let mut i: usize = 0;
    while i < pins.len()
        invariant
            i <= pins@.len(),
            out@ == pins@.take(i as int),
        decreases pins@.len() - i,
    {
        out.push(pins[i]);
        i += 1;
        assert(pins@.take(i as int) =~= pins@.take(i as int - 1).push(pins@[i as int - 1]));
    }
    assert(pins@.take(pins@.len() as int) =~= pins@);
    out
}

/// Whether a request sets digital outputs, at once or later.
pub open spec fn sets_levels(
    op: PlatformOp,
    to: Seq<i32>,
    values: Seq<bool>,
    later: Option<u32>,
) -> bool {
    match op {
        PlatformOp::SetDo { pins, levels } => pins@ == to && levels@ == values && later is None,
        PlatformOp::ScheduleDo { pins, levels, in_secs } => pins@ == to && levels@ == values
            && later == Some(in_secs),
        _ => false,
    }
}

/// Whether a request sets analog outputs, at once or later.
pub open spec fn sets_values(
    op: PlatformOp,
    to: Seq<i32>,
    values: Seq<u32>,
    later: Option<u32>,
) -> bool {
    match op {
        PlatformOp::SetAo { pins, value_bits } => pins@ == to && value_bits@ == values
            && later is None,
        PlatformOp::ScheduleAo { pins, value_bits, in_secs } => pins@ == to && value_bits@ == values
            && later == Some(in_secs),
        _ => false,
    }
}

/// Whether a request changes the configuration of a digital input.
pub open spec fn is_config_change(op: PlatformOp, of: i32, u: DiConfigUpdate) -> bool {
    match op {
        PlatformOp::SetDiConfig { pin, pnp_mode, irq_edge, debounce_ms, wake_on_event } => {
            &&& pin == of
            &&& pnp_mode == u.pnp_mode
            &&& opt_chars(irq_edge) == (match u.irq_edge {
                Some(e) => Some(e.name()),
                None => None,
            })
            &&& debounce_ms == u.debounce_ms
            &&& wake_on_event == u.wake_on_event
        },
        _ => false,
    }
}

// ---- replies ---------------------------------------------------------------------------

/// The header of the sidecar's response.
#[derive(Debug)]
pub struct PlatformHeader {
    pub success: bool,
    pub response_code: Option<i32>,
    pub message: Option<String>,
}

/// Whether a check of a header came out as it should. A missing header is no
/// failure.
pub open spec fn is_checked(r: Result<(), DooverError>, header: Option<PlatformHeader>) -> bool {
    match header {
        None => r is Ok,
        Some(h) => match r {
            Ok(_) => h.success,
            Err(e) => !h.success && is_failure(
                e,
                h.response_code,
                match h.message {
                    Some(m) => m@,
                    None => "Unknown error"@,
                },
            ),
        },
    }
}

/// What the header of a response means.
pub fn check(header: Option<PlatformHeader>) -> (r: Result<(), DooverError>)
    ensures
        is_checked(r, header),
{
    match header {
        Some(h) => check_response_header(h.success, h.response_code, h.message),
        None => Ok(()),
    }
}

/// What a response carries, unless its header reports a failure.
pub fn reply<T>(header: Option<PlatformHeader>, carried: T) -> (r: Result<T, DooverError>)
    ensures
        match r {
            Ok(v) => is_checked(Ok(()), header) && v == carried,
            Err(e) => is_checked(Err(e), header),
        },
{
    match check(header) {
        Ok(_) => Ok(carried),
        Err(e) => Err(e),
    }
}

/// Whether the log of a digital input is complete, and its events. A response that
/// does not say counts as incomplete.
pub fn read_di_events(
    header: Option<PlatformHeader>,
    synced: Option<bool>,
    events: Vec<PlatformEvent>,
) -> (r: Result<(bool, Vec<PlatformEvent>), DooverError>)
    ensures
        match r {
            Ok((s, list)) => is_checked(Ok(()), header) && s == (synced == Some(true)) && list
                == events,
            Err(e) => is_checked(Err(e), header),
        },
{
    let complete: bool = match synced {
        Some(s) => s,
        None => false,
    };
    reply(header, (complete, events))
}

/// The first of the levels that were read or set; low if there is none.
pub fn first_level(levels: &Vec<bool>) -> (r: bool)
    ensures
        r == (levels@.len() > 0 && levels@[0]),
{
    levels.len() > 0 && levels[0]
}

/// The first of the analog values that were read or set, by its bits; zero if there
/// is none.
pub fn first_value(value_bits: &Vec<u32>) -> (r: u32)
    ensures
        r == (if value_bits@.len() > 0 {
            value_bits@[0]
        } else {
            0
        }),
{
    if value_bits.len() > 0 {
        value_bits[0]
    } else {
        0
    }
}

/// The table of inputs and outputs, which is sent as a JSON text.
pub fn read_io_table(header: Option<PlatformHeader>, io_table: Option<&str>) -> (r: Result<
    Option<Value>,
    DooverError,
>)
    ensures
        match r {
            Ok(v) => is_checked(Ok(()), header) && match io_table {
                Some(t) => v matches Some(d) && json_parse(t@) == Ok::<Json, Seq<char>>(d@),
                None => v is None,
            },
            Err(e) => is_checked(Err(e), header) || (is_checked(Ok(()), header)
                && io_table_fault(e, io_table)),
        },
        r matches Ok(Some(d)) ==> tidy(d@),
{
    if let Err(e) = check(header) {
        return Err(e);
    }
    match io_table {
        Some(t) => match from_text(t) {
            Ok(v) => Ok(Some(v)),
            Err(m) => Err(DooverError::Json(m)),
        },
        None => Ok(None),
    }
}

/// Whether an error says that the table is no JSON text.
pub open spec fn io_table_fault(e: DooverError, io_table: Option<&str>) -> bool {
    match io_table {
        Some(t) => match json_parse(t@) {
            Ok(_) => false,
            Err(m) => is_json_error(e, m),
        },
        None => false,
    }
}

// ---- events and pulses -------------------------------------------------------------------

/// An event that the platform recorded.
#[derive(Debug, Clone, PartialEq, Eq)]
pub struct PlatformEvent {
    pub event_id: i32,
    /// `DI_R` is a rising and `DI_F` a falling edge.
    pub event: String,
    pub pin: i32,
    pub value: String,
    /// When it happened, in milliseconds since the epoch.
    pub time: i64,
    pub cm4_online: Option<bool>,
}

/// The time between two pulses.
#[derive(Debug, Clone, Copy, PartialEq, Eq, Structural)]
pub enum Gap {
    Millis(u64),
    /// Seconds as a single-precision number, by its bits.
    SecondsBits(u32),
}

/// What is told of a pulse.
#[derive(Debug, Clone, Copy, PartialEq, Eq, Structural)]
pub struct PulseCounterUpdate {
    pub pin: i32,
    /// Whether the input is high.
    pub value: bool,
    /// The time since the pulse before.
    pub gap: Gap,
    /// When it happened; missing for a live pulse.
    pub timestamp_ms: Option<i64>,
    /// How many pulses there have been.
    pub count: u64,
    /// Missing for a pulse that is no edge.
    pub edge: Option<Edge>,
}

/// The pulse that an event is: its level and edge. Other events are none.
pub open spec fn pulse_of(event: Seq<char>) -> Option<(bool, Option<Edge>)> {
    if event == "DI_R"@ {
        Some((true, Some(Edge::Rising)))
    } else if event == "DI_F"@ {
        Some((false, Some(Edge::Falling)))
    } else if event == "VI"@ {
        Some((false, None))
    } else {
        None
    }
}

/// How long after its start a counter ignores live pulses, in milliseconds.
pub const PULSE_GRACE_MS: u64 = 200;

/// How far an event has to be from the newest one to count, in milliseconds.
pub const EVENT_GAP_MS: u64 = 10;

/// The model of a counter.
#[verifier::ext_equal]
pub struct CounterView {
    pub pin: i32,
    pub edge: Edge,
    pub count: int,
    /// When the pulses happened.
    pub stamps: Seq<i64>,
    pub window: u64,
    pub receiving_pulses: bool,
    pub receiving_events: bool,
    pub start: i64,
}

/// The request for the stored events that a counter counts: all of them, with those of
/// the system.
pub open spec fn events_request(v: CounterView) -> PlatformOp {
    PlatformOp::GetDiEvents {
        pin: v.pin,
        rising: v.edge != Edge::Falling,
        falling: v.edge != Edge::Rising,
        include_system_events: true,
        events_from: Some(0),
    }
}

/// When an event happened: now, if it does not say.
pub open spec fn event_time(e: PlatformEvent, now: i64) -> i64 {
    if e.time == 0 {
        now
    } else {
        e.time
    }
}

/// Whether an event counts: it is a pulse, and later than the newest by more than
/// the gap.
pub open spec fn counts(v: CounterView, e: PlatformEvent, now: i64) -> bool {
    pulse_of(e.event@) is Some && (v.stamps.len() == 0 || event_time(e, now) > v.stamps.last()
        + EVENT_GAP_MS)
}

/// The counter after an event.
pub open spec fn after_one(v: CounterView, e: PlatformEvent, now: i64) -> CounterView {
    if counts(v, e, now) {
        CounterView { count: v.count + 1, stamps: v.stamps.push(event_time(e, now)), ..v }
    } else {
        v
    }
}

/// The counter after several events.
pub open spec fn after_events(v: CounterView, events: Seq<PlatformEvent>, now: i64) -> CounterView
    decreases events.len(),
{
    if events.len() == 0 {
        v
    } else {
        after_one(after_events(v, events.drop_last(), now), events.last(), now)
    }
}

/// What is told of an event that counts.
pub open spec fn told_of(v: CounterView, e: PlatformEvent, now: i64) -> PulseCounterUpdate {
    let p = pulse_of(e.event@)->0;
    PulseCounterUpdate {
        pin: v.pin,
        value: p.0,
        gap: Gap::Millis(
            if v.stamps.len() == 0 {
                0
            } else {
                (event_time(e, now) - v.stamps.last()) as u64
            },
        ),
        timestamp_ms: Some(event_time(e, now)),
        count: (v.count + 1) as u64,
        edge: p.1,
    }
}

/// What is told of several events, in their order.
pub open spec fn updates_of(v: CounterView, events: Seq<PlatformEvent>, now: i64) -> Seq<
    PulseCounterUpdate,
>
    decreases events.len(),
{
    if events.len() == 0 {
        Seq::empty()
    } else {
        let before = after_events(v, events.drop_last(), now);
        let told = updates_of(v, events.drop_last(), now);
        if counts(before, events.last(), now) {
            told.push(told_of(before, events.last(), now))
        } else {
            told
        }
    }
}

/// The places of the events that are no pulses, in order.
pub open spec fn others_of(events: Seq<PlatformEvent>) -> Seq<int>
    decreases events.len(),
{
    if events.len() == 0 {
        Seq::empty()
    } else if pulse_of(events.last().event@) is None {
        others_of(events.drop_last()).push(events.len() - 1)
    } else {
        others_of(events.drop_last())
    }
}

/// What came of several events.
#[derive(Debug)]
pub struct EventOutcome {
    /// What is told of the pulses among them.
    pub updates: Vec<PulseCounterUpdate>,
    /// The places of the others, which are system events.
    pub system_events: Vec<usize>,
}

/// A counter of the pulses of a digital input.
#[derive(Debug)]
pub struct PulseCounter {
    pin: i32,
    edge: Edge,
    count: u64,
    stamps: Vec<i64>,
    window: u64,
    receiving_pulses: bool,
    receiving_events: bool,
    start: i64,
}

impl View for PulseCounter {
    type V = CounterView;

    closed spec fn view(&self) -> CounterView {
        CounterView {
            pin: self.pin,
            edge: self.edge,
            count: self.count as int,
            stamps: self.stamps@,
            window: self.window,
            receiving_pulses: self.receiving_pulses,
            receiving_events: self.receiving_events,
            start: self.start,
        }
    }
}

/// The pulses within the window of the newest, in order.
pub open spec fn in_window(stamps: Seq<i64>, newest: i64, window: u64) -> Seq<i64>
    decreases stamps.len(),
{
    if stamps.len() == 0 {
        Seq::empty()
    } else {
        let before = in_window(stamps.drop_last(), newest, window);
        if stamps.last() > newest - window {
            before.push(stamps.last())
        } else {
            before
        }
    }
}

impl PulseCounter {
    /// A counter that has counted nothing.
    pub fn new(pin: i32, edge: Edge, rate_window_ms: u64, now: i64) -> (c: Self)
        ensures
            c@ == (CounterView {
                pin,
                edge,
                count: 0,
                stamps: Seq::empty(),
                window: rate_window_ms,
                receiving_pulses: false,
                receiving_events: false,
                start: now,
            }),
    {
        let c = PulseCounter {
            pin,
            edge,
            count: 0,
            stamps: Vec::new(),
            window: rate_window_ms,
            receiving_pulses: false,
            receiving_events: false,
            start: now,
        };
        assert(c.stamps@ =~= Seq::empty());
        c
    }

    /// Whether the counter counts live pulses.
    pub fn is_receiving_pulses(&self) -> (r: bool)
        ensures
            r == self@.receiving_pulses,
    {
        self.receiving_pulses
    }

    /// Starts counting live pulses, from the result on. Nothing happens if the
    /// counter counts stored events.
    pub fn start_listener_pulses(&mut self, now: i64) -> (r: Option<u64>)
        ensures
            match r {
                Some(n) => !old(self)@.receiving_events && n == old(self)@.count && final(self)@
                    == (CounterView { receiving_pulses: true, start: now, ..old(self)@ }),
                None => old(self)@.receiving_events && final(self)@ == old(self)@,
            },
    {
        if self.receiving_events {
            return None;
        }
        self.receiving_pulses = true;
        self.start = now;
        Some(self.count)
    }

    /// Takes in a live pulse. It is ignored shortly after the start.
    pub fn receive_pulse(&mut self, update: PulseCounterUpdate, now: i64) -> (r: Option<
        PulseCounterUpdate,
    >)
        requires
            old(self)@.count < u64::MAX,
        ensures
            if now - old(self)@.start < PULSE_GRACE_MS {
                r is None && final(self)@ == old(self)@
            } else {
                r == Some(
                    PulseCounterUpdate {
                        count: (old(self)@.count + 1) as u64,
                        timestamp_ms: None,
                        ..update
                    },
                ) && final(self)@ == (CounterView {
                    count: old(self)@.count + 1,
                    stamps: old(self)@.stamps.push(now),
                    ..old(self)@
                })
            },
    {
        if (now as i128) - (self.start as i128) < PULSE_GRACE_MS as i128 {
            return None;
        }
        self.count += 1;
        self.stamps.push(now);
        Some(PulseCounterUpdate { count: self.count, timestamp_ms: None, ..update })
    }

    /// Begins to count stored events. The result is the request for them; there is none
    /// if the counter counts live pulses.
    pub fn update_events(&mut self) -> (r: Option<PlatformOp>)
        ensures
            if old(self)@.receiving_pulses {
                r is None && final(self)@ == old(self)@
            } else {
                r == Some(events_request(old(self)@)) && final(self)@ == (CounterView {
                    receiving_events: true,
                    ..old(self)@
                })
            },
    {
        if self.receiving_pulses {
            return None;
        }
        self.receiving_events = true;
        Some(PlatformClient.fetch_di_events(self.pin, self.edge, true, 0))
    }

    /// Takes in pulses that are already known. Nothing happens if the counter counts
    /// live pulses.
    pub fn add_existing_events(&mut self, timestamps: &Vec<i64>)
        ensures
            final(self)@ == (if old(self)@.receiving_pulses {
                old(self)@
            } else {
                CounterView {
                    receiving_events: true,
                    stamps: old(self)@.stamps + timestamps@,
                    count: (old(self)@.stamps + timestamps@).len() as int,
                    ..old(self)@
                }
            }),
    {
        if self.receiving_pulses {
            return;
        }
        self.receiving_events = true;
        let ghost before = self.stamps@;
        let mut i: usize = 0;
        assert(before + timestamps@.take(0) =~= before);
        while i < timestamps.len()
            invariant
                i <= timestamps@.len(),
                self.stamps@ == before + timestamps@.take(i as int),
                *self == (PulseCounter {
                    receiving_events: true,
                    stamps: self.stamps,
                    ..*old(self)
                }),
            decreases timestamps@.len() - i,
        {
            self.stamps.push(timestamps[i]);
            i += 1;
            assert(self.stamps@ =~= before + timestamps@.take(i as int));
        }
        assert(timestamps@.take(timestamps@.len() as int) =~= timestamps@);
        self.count = self.stamps.len() as u64;
    }

    /// Takes in stored events. Edges count, unless they are not later than the newest
    /// pulse by more than the gap; other events are left to the caller. Nothing
    /// happens if the counter counts live pulses.
    pub fn receive_events(&mut self, events: &Vec<PlatformEvent>, now: i64) -> (r: EventOutcome)
        requires
            old(self)@.count + events@.len() <= u64::MAX,
        ensures
            if old(self)@.receiving_pulses {
                final(self)@ == old(self)@ && r.updates@.len() == 0 && r.system_events@.len() == 0
            } else {
                let v = CounterView { receiving_events: true, ..old(self)@ };
                &&& final(self)@ == after_events(v, events@, now)
                &&& r.updates@ == updates_of(v, events@, now)
                &&& r.system_events@.map(|i: int, x: usize| x as int) == others_of(events@)
            },
    {
        let mut updates: Vec<PulseCounterUpdate> = Vec::new();
        let mut system_events: Vec<usize> = Vec::new();
        if self.receiving_pulses {
            return EventOutcome { updates, system_events };
        }
        self.receiving_events = true;
        let ghost v = self@;
        let mut i: usize = 0;
        assert(events@.take(0) =~= Seq::empty());
        assert(system_events@.map(|i: int, x: usize| x as int) =~= Seq::empty());
        while i < events.len()
            invariant
                i <= events@.len(),
                v.count + events@.len() <= u64::MAX,
                self@ == after_events(v, events@.take(i as int), now),
                v.count <= self.count <= v.count + i,
                updates@ == updates_of(v, events@.take(i as int), now),
                system_events@.map(|i: int, x: usize| x as int) == others_of(
                    events@.take(i as int),
                ),
            decreases events@.len() - i,
        {
            proof {
                assert(events@.take(i as int + 1).drop_last() =~= events@.take(i as int));
                assert(events@.take(i as int + 1).last() == events@[i as int]);
            }
            let event = &events[i];
            let pulse: Option<(bool, Option<Edge>)> = if same(event.event.as_str(), "DI_R") {
                Some((true, Some(Edge::Rising)))
            } else if same(event.event.as_str(), "DI_F") {
                Some((false, Some(Edge::Falling)))
            } else if same(event.event.as_str(), "VI") {
                Some((false, None))
            } else {
                None
            };
            match pulse {
                None => {
                    let ghost before = system_events@;
                    system_events.push(i);
                    proof {
                        assert(system_events@.map(|i: int, x: usize| x as int) =~= before.map(
                            |i: int, x: usize| x as int,
                        ).push(i as int));
                    }
                },
                Some((value, edge)) => {
                    let t: i64 = if event.time == 0 {
                        now
                    } else {
                        event.time
                    };
                    let n = self.stamps.len();
                    let fits = n == 0 || (t as i128) > (self.stamps[n - 1] as i128)
                        + EVENT_GAP_MS as i128;
                    if fits {
                        let gap: u64 = if n == 0 {
                            0
                        } else {
                            ((t as i128) - (self.stamps[n - 1] as i128)) as u64
                        };
                        self.count += 1;
                        self.stamps.push(t);
                        updates.push(
                            PulseCounterUpdate {
                                pin: self.pin,
                                value,
                                gap: Gap::Millis(gap),
                                timestamp_ms: Some(t),
                                count: self.count,
                                edge,
                            },
                        );
                    }
                },
            }
            i += 1;
        }
        assert(events@.take(events@.len() as int) =~= events@);
        EventOutcome { updates, system_events }
    }

    /// The pulses within the window, measured back from the newest.
    pub fn get_pulses_in_window(&self) -> (out: Vec<i64>)
        ensures
            out@ == (if self@.stamps.len() == 0 {
                Seq::empty()
            } else {
                in_window(self@.stamps, self@.stamps.last(), self@.window)
            }),
    {
        let mut out: Vec<i64> = Vec::new();
        let n = self.stamps.len();
        if n == 0 {
            return out;
        }
        let newest = self.stamps[n - 1];
        let mut i: usize = 0;
        assert(self.stamps@.take(0) =~= Seq::empty());
        while i < n
            invariant
                i <= n,
                n == self.stamps@.len(),
                newest == self.stamps@.last(),
                out@ == in_window(self.stamps@.take(i as int), newest, self.window),
            decreases n - i,
        {
            proof {
                assert(self.stamps@.take(i as int + 1).drop_last() =~= self.stamps@.take(
                    i as int,
                ));
                assert(self.stamps@.take(i as int + 1).last() == self.stamps@[i as int]);
            }
            let t = self.stamps[i];
            if (t as i128) > (newest as i128) - (self.window as i128) {
                out.push(t);
            }
            i += 1;
        }
        assert(self.stamps@.take(n as int) =~= self.stamps@);
        out
    }

    /// The pulses per minute over the window, as a fraction: the pulses in the window
    /// times the milliseconds of a minute, over the milliseconds of the window.
    pub fn get_pulses_per_minute(&self) -> (r: (u128, u64))
        ensures
            r.0 == (if self@.stamps.len() == 0 {
                0
            } else {
                in_window(self@.stamps, self@.stamps.last(), self@.window).len() * 60_000
            }),
            r.1 == self@.window,
    {
        let pulses = self.get_pulses_in_window();
        ((pulses.len() as u128) * 60_000, self.window)
    }

    /// Sets the window.
    pub fn set_rate_window(&mut self, rate_window_ms: u64)
        ensures
            final(self)@ == (CounterView { window: rate_window_ms, ..old(self)@ }),
    {
        self.window = rate_window_ms;
    }

    /// The window.
    pub fn get_rate_window(&self) -> (r: u64)
        ensures
            r == self@.window,
    {
        self.window
    }

    /// Sets the count.
    pub fn set_counter(&mut self, counter: u64)
        ensures
            final(self)@ == (CounterView { count: counter as int, ..old(self)@ }),
    {
        self.count = counter;
    }

    /// How many pulses there have been.
    pub fn get_counter(&self) -> (r: u64)
        ensures
            r == self@.count,
    {
        self.count
    }
}

/// Whether the bits are those of a single-precision number above zero.
pub open spec fn is_positive(bits: u32) -> bool {
    0 < bits <= 0x7f80_0000
}

/// A listener to the live pulses of a digital input.
#[derive(Debug)]
pub struct PulseListener {
    pub di: i32,
    pub edge: Edge,
    pub counter: u64,
}

impl PulseListener {
    /// Takes in a pulse: the level, and the seconds since the one before by their
    /// bits. Only pulses with a time above zero count.
    pub fn receive(&mut self, value: Option<bool>, dt_bits: Option<u32>) -> (r: Option<
        PulseCounterUpdate,
    >)
        requires
            old(self).counter < u64::MAX,
        ensures
            final(self).di == old(self).di,
            final(self).edge == old(self).edge,
            match dt_bits {
                Some(bits) => if is_positive(bits) {
                    final(self).counter == old(self).counter + 1 && r == Some(
                        PulseCounterUpdate {
                            pin: old(self).di,
                            value: value == Some(true),
                            gap: Gap::SecondsBits(bits),
                            timestamp_ms: None,
                            count: (old(self).counter + 1) as u64,
                            edge: Some(old(self).edge),
                        },
                    )
                } else {
                    final(self).counter == old(self).counter && r is None
                },
                None => final(self).counter == old(self).counter && r is None,
            },
    {
        let bits = match dt_bits {
            Some(bits) => bits,
            None => 0,
        };
        if !(0 < bits && bits <= 0x7f80_0000) {
            return None;
        }
        self.counter += 1;
        let high = match value {
            Some(b) => b,
            None => false,
        };
        Some(
            PulseCounterUpdate {
                pin: self.di,
                value: high,
                gap: Gap::SecondsBits(bits),
                timestamp_ms: None,
                count: self.counter,
                edge: Some(self.edge),
            },
        )
    }
}

// ---- laws ------------------------------------------------------------------------------

/// The times of counted events only grow, by more than the gap each.
pub open spec fn apart(stamps: Seq<i64>) -> bool {
    forall|i: int, j: int|
        0 <= i < j < stamps.len() ==> #[trigger] stamps[i] + EVENT_GAP_MS < #[trigger] stamps[j]
}

/// Counting events keeps their times in order and apart, counts each exactly once,
/// and tells of each exactly once.
pub proof fn law_events_count_once(v: CounterView, events: Seq<PlatformEvent>, now: i64)
    requires
        apart(v.stamps),
    ensures
        apart(after_events(v, events, now).stamps),
        after_events(v, events, now).count - v.count == after_events(v, events, now).stamps.len()
            - v.stamps.len(),
        updates_of(v, events, now).len() == after_events(v, events, now).stamps.len()
            - v.stamps.len(),
        after_events(v, events, now).stamps.len() - v.stamps.len() + others_of(events).len()
            <= events.len(),
    decreases events.len(),
{
    if events.len() > 0 {
        let d = events.drop_last();
        law_events_count_once(v, d, now);
        let before = after_events(v, d, now);
        let after = after_events(v, events, now);
        assert forall|i: int, j: int| 0 <= i < j < after.stamps.len() implies #[trigger] after.stamps[i]
            + EVENT_GAP_MS < #[trigger] after.stamps[j] by {
            if j == before.stamps.len() {
                assert(after.stamps[j] == event_time(events.last(), now));
                let last = before.stamps.len() - 1;
                assert(before.stamps[last] == before.stamps.last());
                if i < last {
                    assert(before.stamps[i] + EVENT_GAP_MS < before.stamps[last]);
                }
            } else {
                assert(before.stamps[i] + EVENT_GAP_MS < before.stamps[j]);
            }
        }
    }
}

/// Whether none of several events would count.
pub open spec fn all_known(v: CounterView, events: Seq<PlatformEvent>, now: i64) -> bool {
    forall|i: int| 0 <= i < events.len() ==> !counts(v, #[trigger] events[i], now)
}

proof fn lemma_events_become_known(v: CounterView, events: Seq<PlatformEvent>, now: i64)
    ensures
        all_known(after_events(v, events, now), events, now),
    decreases events.len(),
{
    if events.len() > 0 {
        let d = events.drop_last();
        lemma_events_become_known(v, d, now);
        let before = after_events(v, d, now);
        let after = after_events(v, events, now);
        assert forall|i: int| 0 <= i < events.len() implies !counts(
            after,
            #[trigger] events[i],
            now,
        ) by {
            if i < d.len() {
                assert(events[i] == d[i]);
                assert(!counts(before, d[i], now));
            }
        }
    }
}

proof fn lemma_known_events_change_nothing(v: CounterView, events: Seq<PlatformEvent>, now: i64)
    requires
        all_known(v, events, now),
    ensures
        after_events(v, events, now) == v,
        updates_of(v, events, now).len() == 0,
    decreases events.len(),
{
    if events.len() > 0 {
        let d = events.drop_last();
        assert forall|i: int| 0 <= i < d.len() implies !counts(v, #[trigger] d[i], now) by {
            assert(d[i] == events[i]);
        }
        lemma_known_events_change_nothing(v, d, now);
        assert(!counts(v, events[events.len() - 1], now));
    }
}

/// The same events a second time count nothing, and nothing is told of them.
pub proof fn law_known_events_do_not_count_again(
    v: CounterView,
    events: Seq<PlatformEvent>,
    now: i64,
)
    ensures
        after_events(after_events(v, events, now), events, now) == after_events(v, events, now),
        updates_of(after_events(v, events, now), events, now).len() == 0,
{
    lemma_events_become_known(v, events, now);
    lemma_known_events_change_nothing(after_events(v, events, now), events, now);
}

/// A counter that counts stored events never starts on live pulses.
pub proof fn law_modes_are_exclusive(v: CounterView, events: Seq<PlatformEvent>, now: i64)
    requires
        v.receiving_events,
        !v.receiving_pulses,
    ensures
        after_events(v, events, now).receiving_events,
        !after_events(v, events, now).receiving_pulses,
    decreases events.len(),
{
    if events.len() > 0 {
        law_modes_are_exclusive(v, events.drop_last(), now);
    }
}

} // verus!
