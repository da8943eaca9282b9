//! What the command line prints: JSON documents of fixed shapes, and the settings
//! that it takes.
use base64::Engine;
use vstd::prelude::*;

use crate::docker::device_agent::{Message, TurnCredential};
use crate::docker::modbus::{BusSettings, SerialBusSettings, TcpBusSettings};
use crate::docker::platform::PlatformEvent;
use crate::events::Event;
use crate::json::{docs, opt_doc, Json, Number, Value};
use crate::processor::application::base64_bytes;
use crate::text::{chars, concat, debug_text, integer, quoted, read_i64, same, slice, views};

verus! {

/// The address of the device agent, unless another is named.
pub const DEFAULT_DDA_URI: &'static str = "localhost:50051";

/// The address of the platform sidecar, unless another is named.
pub const DEFAULT_PLT_URI: &'static str = "localhost:50053";

/// The address of the modbus sidecar, unless another is named.
pub const DEFAULT_MODBUS_URI: &'static str = "localhost:50054";

/// The application that requests come from, unless another is named.
pub const DEFAULT_APP_KEY: &'static str = "pydoover-cli";

/// What is echoed, unless something else is named.
pub const DEFAULT_COMMS_MESSAGE: &'static str = "Comms Check Message";

/// The first of two texts that is there and not empty, or else the default.
pub open spec fn resolved(
    first: Option<String>,
    second: Option<String>,
    default: Seq<char>,
) -> Seq<char> {
    match first {
        Some(s) if s@.len() > 0 => s@,
        _ => match second {
            Some(s) if s@.len() > 0 => s@,
            _ => default,
        },
    }
}

/// What an option of a section, or else an option of all sections, or else the
/// default gives.
pub fn resolve(section: Option<String>, global: Option<String>, default: &str) -> (r: String)
    ensures
        r@ == resolved(section, global, default@),
{
    if let Some(s) = section {
        if chars(s.as_str()).len() > 0 {
            return s;
        }
    }
    if let Some(s) = global {
        if chars(s.as_str()).len() > 0 {
            return s;
        }
    }
    default.to_owned()
}

// ---- pins and registers ------------------------------------------------------------------

/// One value alone if one was asked for and came, otherwise the list.
pub open spec fn scalar_or_list(asked: int, values: Seq<Json>) -> Json {
    if asked == 1 && values.len() == 1 {
        values[0]
    } else {
        Json::Arr(values)
    }
}

/// The values of pins: one value alone if one pin was asked for.
pub fn pin_values(pins: usize, values: Vec<Value>) -> (v: Value)
    ensures
        v@ == scalar_or_list(pins as int, docs(values@)),
{
    let mut values = values;
    proof {
        Value::lemma_array(values);
    }
    if pins == 1 && values.len() == 1 {
        assert(docs(values@)[0] == values@[0]@);
        return values.remove(0);
    }
    Value::Array(values)
}

/// The documents of numbers.
pub open spec fn number_docs(values: Seq<i32>) -> Seq<Json> {
    Seq::new(values.len(), |i: int| Json::Int(values[i] as int))
}

/// The values of registers: one value alone if one register was asked for.
pub fn register_values(num_registers: i32, values: &Vec<i32>) -> (v: Value)
    ensures
        v@ == scalar_or_list(num_registers as int, number_docs(values@)),
{
    let mut out: Vec<Value> = Vec::new();
    let mut i: usize = 0;
    while i < values.len()
        invariant
            i <= values@.len(),
            out@.len() == i,
            forall|j: int| 0 <= j < i ==> (#[trigger] out@[j])@ == Json::Int(values@[j] as int),
        decreases values@.len() - i,
    {
        out.push(Value::signed(values[i] as i64));
        i += 1;
    }
    assert(docs(out@) =~= number_docs(values@));
    proof {
        Value::lemma_array(out);
    }
    if num_registers == 1 && out.len() == 1 {
        assert(docs(out@)[0] == out@[0]@);
        return out.remove(0);
    }
    Value::Array(out)
}

// ---- documents ---------------------------------------------------------------------------

/// The document of an optional truth value; null if it is missing.
pub open spec fn flag_doc(b: Option<bool>) -> Json {
    match b {
        Some(b) => Json::Bool(b),
        None => Json::Null,
    }
}

/// The document of an optional string; null if it is missing.
pub open spec fn string_doc(s: Option<String>) -> Json {
    match s {
        Some(t) => Json::Str(t@),
        None => Json::Null,
    }
}

/// The document of an optional integer; null if it is missing.
pub open spec fn int_doc(n: Option<i32>) -> Json {
    match n {
        Some(n) => Json::Int(n as int),
        None => Json::Null,
    }
}

/// The document of an optional number; null if it is missing.
pub open spec fn num_doc(n: Option<Number>) -> Json {
    match n {
        Some(n) => n@,
        None => Json::Null,
    }
}

fn flag_value(b: Option<bool>) -> (v: Value)
    ensures
        v@ == flag_doc(b),
{
    match b {
        Some(b) => Value::Bool(b),
        None => Value::Null,
    }
}

fn int_value(n: Option<i32>) -> (v: Value)
    ensures
        v@ == int_doc(n),
{
    match n {
        Some(n) => Value::signed(n as i64),
        None => Value::Null,
    }
}

fn num_value(n: &Option<Number>) -> (v: Value)
    ensures
        v@ == num_doc(*n),
{
    match n {
        Some(n) => Value::Number(n.clone()),
        None => Value::Null,
    }
}

/// The document of a message.
pub open spec fn message_doc(m: Message) -> Json {
    Json::Obj(
        seq![
            ("message_id"@, Json::Int(m.message_id as int)),
            ("author_id"@, Json::Int(m.author_id as int)),
            ("channel_name"@, Json::Str(m.channel_name@)),
            ("data"@, m.data@),
        ],
    )
}

/// The document of a message.
pub fn message_json(m: &Message) -> (v: Value)
    ensures
        v@ == message_doc(*m),
{
    let mut e: Vec<(String, Value)> = Vec::new();
    e.push(("message_id".to_owned(), Value::unsigned(m.message_id)));
    e.push(("author_id".to_owned(), Value::unsigned(m.author_id)));
    e.push(("channel_name".to_owned(), Value::text(m.channel_name.as_str())));
    e.push(("data".to_owned(), m.data.clone()));
    let v = Value::object(e);
    assert(v@->Obj_0 =~= message_doc(*m)->Obj_0);
    v
}

/// The document of several messages, in their order.
pub fn messages_json(list: &Vec<Message>) -> (v: Value)
    ensures
        v@ == Json::Arr(Seq::new(list@.len(), |i: int| message_doc(list@[i]))),
{
    let mut out: Vec<Value> = Vec::new();
    let mut i: usize = 0;
    while i < list.len()
        invariant
            i <= list@.len(),
            out@.len() == i,
            forall|j: int| 0 <= j < i ==> (#[trigger] out@[j])@ == message_doc(list@[j]),
        decreases list@.len() - i,
    {
        out.push(message_json(&list[i]));
        i += 1;
    }
    let v = Value::Array(out);
    assert(v@->Arr_0 =~= Seq::new(list@.len(), |i: int| message_doc(list@[i])));
    v
}

/// The documents of strings.
pub open spec fn string_docs(list: Seq<Seq<char>>) -> Seq<Json> {
    Seq::new(list.len(), |i: int| Json::Str(list[i]))
}

/// The document of TURN credentials.
pub open spec fn turn_doc(c: TurnCredential) -> Json {
    Json::Obj(
        seq![
            ("username"@, Json::Str(c.username@)),
            ("credential"@, Json::Str(c.credential@)),
            ("ttl"@, Json::Int(c.ttl as int)),
            ("expires_at"@, Json::Int(c.expires_at as int)),
            ("uris"@, Json::Arr(string_docs(views(c.uris@)))),
        ],
    )
}

/// The document of TURN credentials.
pub fn turn_json(c: &TurnCredential) -> (v: Value)
    ensures
        v@ == turn_doc(*c),
{
    let mut uris: Vec<Value> = Vec::new();
    let mut i: usize = 0;
    while i < c.uris.len()
        invariant
            i <= c.uris@.len(),
            uris@.len() == i,
            forall|j: int| 0 <= j < i ==> (#[trigger] uris@[j])@ == Json::Str(c.uris@[j]@),
        decreases c.uris@.len() - i,
    {
        uris.push(Value::text(c.uris[i].as_str()));
        i += 1;
    }
    let list = Value::Array(uris);
    assert(list@->Arr_0 =~= string_docs(views(c.uris@)));
    let mut e: Vec<(String, Value)> = Vec::new();
    e.push(("username".to_owned(), Value::text(c.username.as_str())));
    e.push(("credential".to_owned(), Value::text(c.credential.as_str())));
    e.push(("ttl".to_owned(), Value::unsigned(c.ttl)));
    e.push(("expires_at".to_owned(), Value::unsigned(c.expires_at)));
    e.push(("uris".to_owned(), list));
    let v = Value::object(e);
    assert(v@->Obj_0 =~= turn_doc(*c)->Obj_0);
    v
}

/// The document of a channel's event.
pub fn channel_event_json(ev: &Event) -> (v: Value)
    ensures
        v@ == Json::Obj(
            seq![
                ("event_name"@, Json::Str(ev.event_name@)),
                ("channel"@, Json::Str(ev.channel@)),
                ("payload"@, ev.payload@),
            ],
        ),
{
    let mut e: Vec<(String, Value)> = Vec::new();
    e.push(("event_name".to_owned(), Value::text(ev.event_name.as_str())));
    e.push(("channel".to_owned(), Value::text(ev.channel.as_str())));
    e.push(("payload".to_owned(), ev.payload.clone()));
    let v = Value::object(e);
    assert(v@->Obj_0 =~= seq![
        ("event_name"@, Json::Str(ev.event_name@)),
        ("channel"@, Json::Str(ev.channel@)),
        ("payload"@, ev.payload@),
    ]);
    v
}

/// The document of a platform event.
pub open spec fn event_doc(ev: PlatformEvent) -> Json {
    Json::Obj(
        seq![
            ("event_id"@, Json::Int(ev.event_id as int)),
            ("event"@, Json::Str(ev.event@)),
            ("pin"@, Json::Int(ev.pin as int)),
            ("value"@, Json::Str(ev.value@)),
            ("time"@, Json::Int(ev.time as int)),
            ("cm4_online"@, flag_doc(ev.cm4_online)),
        ],
    )
}

/// The document of a platform event.
pub fn event_json(ev: &PlatformEvent) -> (v: Value)
    ensures
        v@ == event_doc(*ev),
{
    let mut e: Vec<(String, Value)> = Vec::new();
    e.push(("event_id".to_owned(), Value::signed(ev.event_id as i64)));
    e.push(("event".to_owned(), Value::text(ev.event.as_str())));
    e.push(("pin".to_owned(), Value::signed(ev.pin as i64)));
    e.push(("value".to_owned(), Value::text(ev.value.as_str())));
    e.push(("time".to_owned(), Value::signed(ev.time)));
    e.push(("cm4_online".to_owned(), flag_value(ev.cm4_online)));
    let v = Value::object(e);
    assert(v@->Obj_0 =~= event_doc(*ev)->Obj_0);
    v
}

/// The document of the stored events of a digital input, and whether they are
/// complete. A reply that does not say is not.
pub fn di_events_json(events_synced: Option<bool>, events: &Vec<PlatformEvent>) -> (v: Value)
    ensures
        v@ == Json::Obj(
            seq![
                ("events_synced"@, Json::Bool(events_synced == Some(true))),
                (
                    "events"@,
                    Json::Arr(Seq::new(events@.len(), |i: int| event_doc(events@[i]))),
                ),
            ],
        ),
{
    let mut out: Vec<Value> = Vec::new();
    let mut i: usize = 0;
    while i < events.len()
        invariant
            i <= events@.len(),
            out@.len() == i,
            forall|j: int| 0 <= j < i ==> (#[trigger] out@[j])@ == event_doc(events@[j]),
        decreases events@.len() - i,
    {
        out.push(event_json(&events[i]));
        i += 1;
    }
    let list = Value::Array(out);
    assert(list@->Arr_0 =~= Seq::new(events@.len(), |i: int| event_doc(events@[i])));
    let synced = match events_synced {
        Some(b) => b,
        None => false,
    };
    let mut e: Vec<(String, Value)> = Vec::new();
    e.push(("events_synced".to_owned(), Value::Bool(synced)));
    e.push(("events".to_owned(), list));
    let v = Value::object(e);
    assert(v@->Obj_0 =~= seq![
        ("events_synced"@, Json::Bool(synced)),
        ("events"@, Json::Arr(Seq::new(events@.len(), |i: int| event_doc(events@[i])))),
    ]);
    v
}

/// Where a device is. What is not known is missing.
#[derive(Debug, Clone)]
pub struct Location {
    pub latitude: Option<Number>,
    pub longitude: Option<Number>,
    pub altitude_m: Option<Number>,
    pub accuracy_m: Option<Number>,
    pub speed_mps: Option<Number>,
    pub heading_deg: Option<Number>,
    pub sat_count: Option<i32>,
    pub timestamp: Option<String>,
}

impl Default for Location {
    fn default() -> (l: Self)
        ensures
            l == (Location {
                latitude: None,
                longitude: None,
                altitude_m: None,
                accuracy_m: None,
                speed_mps: None,
                heading_deg: None,
                sat_count: None,
                timestamp: None,
            }),
    {
        Location {
            latitude: None,
            longitude: None,
            altitude_m: None,
            accuracy_m: None,
            speed_mps: None,
            heading_deg: None,
            sat_count: None,
            timestamp: None,
        }
    }
}

/// The document of a location.
pub open spec fn location_doc(l: Location) -> Json {
    Json::Obj(
        seq![
            ("latitude"@, num_doc(l.latitude)),
            ("longitude"@, num_doc(l.longitude)),
            ("altitude_m"@, num_doc(l.altitude_m)),
            ("accuracy_m"@, num_doc(l.accuracy_m)),
            ("speed_mps"@, num_doc(l.speed_mps)),
            ("heading_deg"@, num_doc(l.heading_deg)),
            ("sat_count"@, int_doc(l.sat_count)),
            ("timestamp"@, string_doc(l.timestamp)),
        ],
    )
}

/// The document of a location.
pub fn location_json(l: &Location) -> (v: Value)
    ensures
        v@ == location_doc(*l),
{
    let mut e: Vec<(String, Value)> = Vec::new();
    e.push(("latitude".to_owned(), num_value(&l.latitude)));
    e.push(("longitude".to_owned(), num_value(&l.longitude)));
    e.push(("altitude_m".to_owned(), num_value(&l.altitude_m)));
    e.push(("accuracy_m".to_owned(), num_value(&l.accuracy_m)));
    e.push(("speed_mps".to_owned(), num_value(&l.speed_mps)));
    e.push(("heading_deg".to_owned(), num_value(&l.heading_deg)));
    e.push(("sat_count".to_owned(), int_value(l.sat_count)));
    e.push(("timestamp".to_owned(), Value::opt_text(&l.timestamp)));
    let v = Value::object(e);
    assert(v@->Obj_0 =~= location_doc(*l)->Obj_0);
    v
}

/// A snapshot from the time that a device was asleep. Its readings are documents.
#[derive(Debug)]
pub struct SleepLogEntry {
    pub timestamp: Value,
    pub input_voltage: Value,
    pub system_current: Value,
    pub system_power: Value,
    pub di: Value,
    pub dos: Value,
    pub ai: Value,
    pub ao: Value,
}

/// The document of a snapshot.
pub open spec fn sleep_log_doc(s: SleepLogEntry) -> Json {
    Json::Obj(
        seq![
            ("timestamp"@, s.timestamp@),
            ("input_voltage"@, s.input_voltage@),
            ("system_current"@, s.system_current@),
            ("system_power"@, s.system_power@),
            ("di"@, s.di@),
            ("do"@, s.dos@),
            ("ai"@, s.ai@),
            ("ao"@, s.ao@),
        ],
    )
}

/// The document of a snapshot.
pub fn sleep_log_json(s: &SleepLogEntry) -> (v: Value)
    ensures
        v@ == sleep_log_doc(*s),
{
    let mut e: Vec<(String, Value)> = Vec::new();
    e.push(("timestamp".to_owned(), s.timestamp.clone()));
    e.push(("input_voltage".to_owned(), s.input_voltage.clone()));
    e.push(("system_current".to_owned(), s.system_current.clone()));
    e.push(("system_power".to_owned(), s.system_power.clone()));
    e.push(("di".to_owned(), s.di.clone()));
    e.push(("do".to_owned(), s.dos.clone()));
    e.push(("ai".to_owned(), s.ai.clone()));
    e.push(("ao".to_owned(), s.ao.clone()));
    let v = Value::object(e);
    assert(v@->Obj_0 =~= sleep_log_doc(*s)->Obj_0);
    v
}

/// The configuration of a digital input.
#[derive(Debug)]
pub struct DiConfig {
    pub pin: i32,
    pub pnp_mode: Option<bool>,
    pub irq_edge: Option<String>,
    pub debounce_ms: Option<i32>,
    pub wake_on_event: Option<bool>,
}

/// The document of a digital input's configuration; null if there is none.
pub open spec fn di_config_doc(c: Option<DiConfig>) -> Json {
    match c {
        Some(c) => Json::Obj(
            seq![
                ("pin"@, Json::Int(c.pin as int)),
                ("pnp_mode"@, flag_doc(c.pnp_mode)),
                ("irq_edge"@, string_doc(c.irq_edge)),
                ("debounce_ms"@, int_doc(c.debounce_ms)),
                ("wake_on_event"@, flag_doc(c.wake_on_event)),
            ],
        ),
        None => Json::Null,
    }
}

/// The document of a digital input's configuration.
pub fn di_config_json(c: &Option<DiConfig>) -> (v: Value)
    ensures
        v@ == di_config_doc(*c),
{
    match c {
        Some(c) => {
            let mut e: Vec<(String, Value)> = Vec::new();
            e.push(("pin".to_owned(), Value::signed(c.pin as i64)));
            e.push(("pnp_mode".to_owned(), flag_value(c.pnp_mode)));
            e.push(("irq_edge".to_owned(), Value::opt_text(&c.irq_edge)));
            e.push(("debounce_ms".to_owned(), int_value(c.debounce_ms)));
            e.push(("wake_on_event".to_owned(), flag_value(c.wake_on_event)));
            let v = Value::object(e);
            assert(v@->Obj_0 =~= di_config_doc(Some(*c))->Obj_0);
            v
        },
        None => Value::Null,
    }
}

/// A channel in a listing.
#[derive(Debug)]
pub struct ListedChannel {
    pub channel_name: String,
    /// The data of its aggregate, if that was asked for.
    pub aggregate: Option<Value>,
}

/// The document of a channel in a listing.
pub open spec fn listed_doc(c: ListedChannel) -> Json {
    Json::Obj(
        seq![
            ("channel_name"@, Json::Str(c.channel_name@)),
            (
                "aggregate"@,
                match opt_doc(c.aggregate) {
                    Some(d) => d,
                    None => Json::Null,
                },
            ),
        ],
    )
}

/// The document of a listing of channels.
pub fn channels_json(from_cloud: bool, channels: &Vec<ListedChannel>) -> (v: Value)
    ensures
        v@ == Json::Obj(
            seq![
                ("from_cloud"@, Json::Bool(from_cloud)),
                (
                    "channels"@,
                    Json::Arr(Seq::new(channels@.len(), |i: int| listed_doc(channels@[i]))),
                ),
            ],
        ),
{
    let mut out: Vec<Value> = Vec::new();
    let mut i: usize = 0;
    while i < channels.len()
        invariant
            i <= channels@.len(),
            out@.len() == i,
            forall|j: int| 0 <= j < i ==> (#[trigger] out@[j])@ == listed_doc(channels@[j]),
        decreases channels@.len() - i,
    {
        let c = &channels[i];
        let aggregate = match &c.aggregate {
            Some(d) => d.clone(),
            None => Value::Null,
        };
        let mut e: Vec<(String, Value)> = Vec::new();
        e.push(("channel_name".to_owned(), Value::text(c.channel_name.as_str())));
        e.push(("aggregate".to_owned(), aggregate));
        let doc = Value::object(e);
        assert(doc@->Obj_0 =~= listed_doc(*c)->Obj_0);
        out.push(doc);
        i += 1;
    }
    let list = Value::Array(out);
    assert(list@->Arr_0 =~= Seq::new(channels@.len(), |i: int| listed_doc(channels@[i])));
    let mut e: Vec<(String, Value)> = Vec::new();
    e.push(("from_cloud".to_owned(), Value::Bool(from_cloud)));
    e.push(("channels".to_owned(), list));
    let v = Value::object(e);
    assert(v@->Obj_0 =~= seq![
        ("from_cloud"@, Json::Bool(from_cloud)),
        ("channels"@, Json::Arr(Seq::new(channels@.len(), |i: int| listed_doc(channels@[i])))),
    ]);
    v
}

/// The message that there is no such channel.
pub fn channel_not_found(channel: &str) -> (m: String)
    ensures
        m@ == "channel '"@ + channel@ + "' not found"@,
{
    let mut m = concat("channel '", channel);
    m.append("' not found");
    m
}

// ---- buses -------------------------------------------------------------------------------

/// The state of a bus.
#[derive(Debug)]
pub struct BusStatus {
    pub bus_id: String,
    pub open: bool,
    pub serial: Option<SerialStatus>,
    pub ethernet: Option<EthernetStatus>,
}

/// The settings of a serial bus, as the sidecar tells them.
#[derive(Debug)]
pub struct SerialStatus {
    pub port: String,
    pub baud: i32,
    pub modbus_method: Option<String>,
    pub data_bits: Option<i32>,
    pub parity: Option<String>,
    pub stop_bits: Option<i32>,
    pub timeout: Option<Number>,
}

/// The settings of a bus over TCP, as the sidecar tells them.
#[derive(Debug)]
pub struct EthernetStatus {
    pub ip: String,
    pub port: i32,
    pub timeout: Option<Number>,
}

/// The document of a serial bus; null if the bus is none.
pub open spec fn serial_doc(s: Option<SerialStatus>) -> Json {
    match s {
        Some(s) => Json::Obj(
            seq![
                ("port"@, Json::Str(s.port@)),
                ("baud"@, Json::Int(s.baud as int)),
                ("modbus_method"@, string_doc(s.modbus_method)),
                ("data_bits"@, int_doc(s.data_bits)),
                ("parity"@, string_doc(s.parity)),
                ("stop_bits"@, int_doc(s.stop_bits)),
                ("timeout"@, num_doc(s.timeout)),
            ],
        ),
        None => Json::Null,
    }
}

/// The document of a bus over TCP; null if the bus is none.
pub open spec fn ethernet_doc(s: Option<EthernetStatus>) -> Json {
    match s {
        Some(s) => Json::Obj(
            seq![
                ("ip"@, Json::Str(s.ip@)),
                ("port"@, Json::Int(s.port as int)),
                ("timeout"@, num_doc(s.timeout)),
            ],
        ),
        None => Json::Null,
    }
}

/// The document of a bus.
pub open spec fn bus_doc(b: BusStatus) -> Json {
    Json::Obj(
        seq![
            ("bus_id"@, Json::Str(b.bus_id@)),
            ("open"@, Json::Bool(b.open)),
            ("serial_settings"@, serial_doc(b.serial)),
            ("ethernet_settings"@, ethernet_doc(b.ethernet)),
        ],
    )
}

fn serial_json(s: &Option<SerialStatus>) -> (v: Value)
    ensures
        v@ == serial_doc(*s),
{
    match s {
        Some(s) => {
            let mut e: Vec<(String, Value)> = Vec::new();
            e.push(("port".to_owned(), Value::text(s.port.as_str())));
            e.push(("baud".to_owned(), Value::signed(s.baud as i64)));
            e.push(("modbus_method".to_owned(), Value::opt_text(&s.modbus_method)));
            e.push(("data_bits".to_owned(), int_value(s.data_bits)));
            e.push(("parity".to_owned(), Value::opt_text(&s.parity)));
            e.push(("stop_bits".to_owned(), int_value(s.stop_bits)));
            e.push(("timeout".to_owned(), num_value(&s.timeout)));
            let v = Value::object(e);
            assert(v@->Obj_0 =~= serial_doc(Some(*s))->Obj_0);
            v
        },
        None => Value::Null,
    }
}

fn ethernet_json(s: &Option<EthernetStatus>) -> (v: Value)
    ensures
        v@ == ethernet_doc(*s),
{
    match s {
        Some(s) => {
            let mut e: Vec<(String, Value)> = Vec::new();
            e.push(("ip".to_owned(), Value::text(s.ip.as_str())));
            e.push(("port".to_owned(), Value::signed(s.port as i64)));
            e.push(("timeout".to_owned(), num_value(&s.timeout)));
            let v = Value::object(e);
            assert(v@->Obj_0 =~= ethernet_doc(Some(*s))->Obj_0);
            v
        },
        None => Value::Null,
    }
}

/// The document of a bus.
pub fn bus_status_json(b: &BusStatus) -> (v: Value)
    ensures
        v@ == bus_doc(*b),
{
    let mut e: Vec<(String, Value)> = Vec::new();
    e.push(("bus_id".to_owned(), Value::text(b.bus_id.as_str())));
    e.push(("open".to_owned(), Value::Bool(b.open)));
    e.push(("serial_settings".to_owned(), serial_json(&b.serial)));
    e.push(("ethernet_settings".to_owned(), ethernet_json(&b.ethernet)));
    let v = Value::object(e);
    assert(v@->Obj_0 =~= bus_doc(*b)->Obj_0);
    v
}

/// The place of the last colon; nothing if there is none.
pub open spec fn last_colon(s: Seq<char>) -> Option<int>
    decreases s.len(),
{
    if s.len() == 0 {
        None
    } else if s.last() == ':' {
        Some(s.len() - 1)
    } else {
        last_colon(s.drop_last())
    }
}

/// The address and the port of `ip:port`, or what is wrong with it.
pub open spec fn endpoint_of(s: Seq<char>) -> Result<(Seq<char>, int), Seq<char>> {
    match last_colon(s) {
        None => Err("tcp_uri "@ + debug_text(s) + " is not 'ip:port'"@),
        Some(i) => {
            let port = s.skip(i + 1);
            match integer(port) {
                Some(n) => if i32::MIN <= n <= i32::MAX {
                    Ok((s.take(i), n))
                } else {
                    Err("tcp_uri port "@ + debug_text(port) + " is not a number"@)
                },
                None => Err("tcp_uri port "@ + debug_text(port) + " is not a number"@),
            }
        },
    }
}

fn parse_endpoint(s: &str) -> (r: Result<(String, i32), String>)
    ensures
        match (endpoint_of(s@), r) {
            (Ok(e), Ok(p)) => p.0@ == e.0 && p.1 == e.1,
            (Err(t), Err(m)) => m@ == t,
            _ => false,
        },
{
    let v = chars(s);
    let mut i: usize = v.len();
    assert(s@.take(s@.len() as int) =~= s@);
    while i > 0 && v[i - 1] != ':'
        invariant
            i <= v@.len(),
            v@ == s@,
            last_colon(s@) == last_colon(s@.take(i as int)),
        decreases i,
    {
        assert(s@.take(i as int).drop_last() =~= s@.take(i as int - 1));
        i -= 1;
    }
    if i == 0 {
        assert(s@.take(0) =~= Seq::empty());
        let mut m = concat("tcp_uri ", quoted(s).as_str());
        m.append(" is not 'ip:port'");
        return Err(m);
    }
    assert(s@.take(i as int).last() == ':');
    let ip = slice(&v, 0, i - 1);
    let port = slice(&v, i, v.len());
    assert(ip@ =~= s@.take(i as int - 1));
    assert(port@ =~= s@.skip(i as int));
    match read_i64(port.as_str()) {
        Some(n) => {
            if n >= i32::MIN as i64 && n <= i32::MAX as i64 {
                return Ok((ip, n as i32));
            }
        },
        None => {},
    }
    let mut m = concat("tcp_uri port ", quoted(port.as_str()).as_str());
    m.append(" is not a number");
    Err(m)
}

/// Whether settings of a bus are those that were asked for, or the message says what
/// is wrong: the type has to be `serial` or `tcp`, and the address of a TCP bus has to
/// be one.
pub open spec fn are_settings(
    r: Result<BusSettings, String>,
    bus_type: Seq<char>,
    serial: SerialBusSettings,
    tcp_uri: Seq<char>,
    tcp_timeout_ms: u32,
) -> bool {
    if bus_type == "serial"@ {
        r matches Ok(b) && b == BusSettings::Serial(serial)
    } else if bus_type == "tcp"@ {
        match (endpoint_of(tcp_uri), r) {
            (Ok(e), Ok(BusSettings::Tcp(t))) => t.ip@ == e.0 && t.port == e.1 && t.timeout_ms
                == tcp_timeout_ms,
            (Err(t), Err(m)) => m@ == t,
            _ => false,
        }
    } else {
        r matches Err(m) && m@ == "unknown bus_type "@ + debug_text(bus_type) + " (serial or tcp)"@
    }
}

/// The settings of a bus.
pub fn bus_settings(
    bus_type: &str,
    serial: SerialBusSettings,
    tcp_uri: &str,
    tcp_timeout_ms: u32,
) -> (r: Result<BusSettings, String>)
    ensures
        are_settings(r, bus_type@, serial, tcp_uri@, tcp_timeout_ms),
{
    if same(bus_type, "serial") {
        Ok(BusSettings::Serial(serial))
    } else if same(bus_type, "tcp") {
        match parse_endpoint(tcp_uri) {
            Ok((ip, port)) => Ok(
                BusSettings::Tcp(TcpBusSettings { ip, port, timeout_ms: tcp_timeout_ms }),
            ),
            Err(m) => Err(m),
        }
    } else {
        let mut m = concat("unknown bus_type ", quoted(bus_type).as_str());
        m.append(" (serial or tcp)");
        Err(m)
    }
}

// ---- attachments -----------------------------------------------------------------------

/// The text of bytes in the standard base64 alphabet.
pub uninterp spec fn base64_text(bytes: Seq<u8>) -> Seq<char>;

/// Whether a text in base64 is read as the given bytes.
pub open spec fn reads_as_bytes(text: Seq<char>, bytes: Seq<u8>) -> bool {
    base64_bytes(text) matches Ok(b) && b == bytes
}

/// Whether so many bytes have a text whose length can be counted.
pub open spec fn can_encode(n: nat) -> bool {
    n / 3 < usize::MAX / 4
}

/// `encode` of `base64::engine::general_purpose::STANDARD`: the same bytes always give
/// the same text, from which `decode` gives the bytes back. It panics on more bytes than
/// the length of a text can be counted for.
#[verifier::external_body]
fn encode_base64(bytes: &Vec<u8>) -> (text: String)
    requires
        can_encode(bytes@.len()),
    ensures
        text@ == base64_text(bytes@),
        reads_as_bytes(text@, bytes@),
{
    base64::engine::general_purpose::STANDARD.encode(bytes)
}

/// An attachment as it is printed: its bytes in base64.
pub fn attachment_json(bytes: &Vec<u8>) -> (v: Value)
    requires
        can_encode(bytes@.len()),
    ensures
        v@ == Json::Str(base64_text(bytes@)),
        v@ matches Json::Str(t) && reads_as_bytes(t, bytes@),
{
    Value::text(encode_base64(bytes).as_str())
}

} // verus!
