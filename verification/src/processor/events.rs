//! The events that a processor handles, read from an invocation's payload.
use vstd::prelude::*;

use crate::error::{invalid, is_invalid, DooverError};
use crate::json::{field, field2, field_or_null, ref_doc, str_field, Json, Number, Value};
use crate::models::{id_of, value_as_id};
use crate::text::{decimal_int, opt_chars, write_i64, write_u64};

verus! {

/// An id that defaults to 0.
pub open spec fn id_or_zero(j: Option<Json>) -> u64 {
    match id_of(j) {
        Some(n) => n,
        None => 0,
    }
}

fn read_id_or_zero(v: Option<&Value>) -> (r: u64)
    ensures
        r == id_or_zero(ref_doc(v)),
{
    match value_as_id(v) {
        Some(n) => n,
        None => 0,
    }
}

/// A string that defaults to the empty one.
pub open spec fn str_or_empty(j: Json, k: Seq<char>) -> Seq<char> {
    match str_field(j, k) {
        Some(s) => s,
        None => Seq::empty(),
    }
}

fn read_str_or_empty(v: &Value, key: &str) -> (r: String)
    ensures
        r@ == str_or_empty(v@, key@),
{
    match v.get_string(key) {
        Some(s) => s,
        None => {
            let s = String::new();
            assert(s@ =~= Seq::empty());
            s
        },
    }
}

/// An id as text: a string, or the text of a number.
pub open spec fn id_text(j: Option<Json>) -> Option<Seq<char>> {
    match j {
        Some(Json::Str(s)) => Some(s),
        Some(Json::Int(i)) => Some(decimal_int(i)),
        Some(Json::Float(t)) => Some(t),
        _ => None,
    }
}

/// Reads an id as text.
pub fn id_string(v: Option<&Value>) -> (r: Option<String>)
    ensures
        opt_chars(r) == id_text(ref_doc(v)),
{
    match v {
        Some(Value::String(s)) => Some(s.clone()),
        Some(Value::Number(Number::Unsigned(u))) => Some(write_u64(*u)),
        Some(Value::Number(Number::Negative(i))) => Some(write_i64(*i)),
        Some(Value::Number(Number::Float(t))) => Some(t.clone()),
        _ => None,
    }
}

/// An agent's channel.
#[derive(Debug)]
pub struct ChannelId {
    pub agent_id: u64,
    pub name: String,
}

impl Clone for ChannelId {
    fn clone(&self) -> (copy: Self)
        ensures
            copy.agent_id == self.agent_id,
            copy.name@ == self.name@,
    {
        ChannelId { agent_id: self.agent_id, name: self.name.clone() }
    }
}

impl ChannelId {
    /// Whether this holds what the document says.
    pub open spec fn reads(&self, data: Json) -> bool {
        &&& self.agent_id == id_or_zero(field(data, "agent_id"@))
        &&& str_field(data, "name"@) == Some(self.name@)
    }

    /// Reads a channel; its name is required.
    pub fn from_value(data: &Value) -> (r: Result<ChannelId, DooverError>)
        ensures
            match r {
                Ok(c) => c.reads(data@),
                Err(e) => str_field(data@, "name"@) is None && is_invalid(
                    e,
                    "channel missing name"@,
                ),
            },
    {
        match data.get_string("name") {
            Some(name) => Ok(ChannelId { agent_id: read_id_or_zero(data.get("agent_id")), name }),
            None => Err(invalid("channel missing name")),
        }
    }
}

/// A message that an event carries.
#[derive(Debug, Clone)]
pub struct EventMessage {
    pub id: u64,
    pub author_id: u64,
    pub channel: ChannelId,
    pub data: Value,
}

/// Why no channel can be read from a document, if none can.
pub open spec fn channel_fault(j: Json, missing: Seq<char>) -> Option<Seq<char>> {
    match field(j, "channel"@) {
        None => Some(missing),
        Some(c) => if str_field(c, "name"@) is None {
            Some("channel missing name"@)
        } else {
            None
        },
    }
}

fn read_channel(v: &Value, missing: &str) -> (r: Result<ChannelId, DooverError>)
    ensures
        match r {
            Ok(c) => channel_fault(v@, missing@) is None && c.reads(field_or_null(v@, "channel"@)),
            Err(e) => channel_fault(v@, missing@) matches Some(m) && is_invalid(e, m),
        },
{
    match v.get("channel") {
        Some(c) => ChannelId::from_value(c),
        None => Err(invalid(missing)),
    }
}

impl EventMessage {
    /// Whether this holds what the document says.
    pub open spec fn reads(&self, data: Json) -> bool {
        &&& self.id == id_or_zero(field(data, "id"@))
        &&& self.author_id == id_or_zero(field(data, "author_id"@))
        &&& self.channel.reads(field_or_null(data, "channel"@))
        &&& self.data@ == field_or_null(data, "data"@)
    }

    /// Reads a message; its channel is required.
    pub fn from_value(data: &Value) -> (r: Result<EventMessage, DooverError>)
        ensures
            match r {
                Ok(m) => channel_fault(data@, "message missing channel"@) is None && m.reads(data@),
                Err(e) => channel_fault(data@, "message missing channel"@) matches Some(m)
                    && is_invalid(e, m),
            },
    {
        match read_channel(data, "message missing channel") {
            Ok(channel) => Ok(
                EventMessage {
                    id: read_id_or_zero(data.get("id")),
                    author_id: read_id_or_zero(data.get("author_id")),
                    channel,
                    data: data.get_or_null("data"),
                },
            ),
            Err(e) => Err(e),
        }
    }
}

/// A message was created.
#[derive(Debug, Clone)]
pub struct MessageCreateEvent {
    pub channel: ChannelId,
    pub message: EventMessage,
}

/// The message of an event: under `message`, or the payload itself.
pub open spec fn message_doc(d: Json) -> Json {
    match field(d, "message"@) {
        Some(m) => m,
        None => d,
    }
}

impl MessageCreateEvent {
    /// Whether this holds what the payload says.
    pub open spec fn reads(&self, d: Json) -> bool {
        &&& self.message.reads(message_doc(d))
        &&& self.channel.agent_id == self.message.channel.agent_id
        &&& self.channel.name@ == self.message.channel.name@
    }

    /// Reads the event.
    pub fn from_value(d: &Value) -> (r: Result<MessageCreateEvent, DooverError>)
        ensures
            match r {
                Ok(e) => channel_fault(message_doc(d@), "message missing channel"@) is None
                    && e.reads(d@),
                Err(e) => channel_fault(message_doc(d@), "message missing channel"@) matches Some(m)
                    && is_invalid(e, m),
            },
    {
        let inner = match d.get("message") {
            Some(m) => m,
            None => d,
        };
        match EventMessage::from_value(inner) {
            Ok(message) => Ok(MessageCreateEvent { channel: message.channel.clone(), message }),
            Err(e) => Err(e),
        }
    }
}

/// An aggregate was updated.
#[derive(Debug, Clone)]
pub struct AggregateUpdateEvent {
    pub author_id: u64,
    pub channel: ChannelId,
    /// The full merged data.
    pub aggregate_data: Value,
    /// The write that triggered the event.
    pub request_data: Value,
    pub organisation_id: Option<u64>,
}

/// What two keys lead to, or null.
pub open spec fn field2_or_null(j: Json, a: Seq<char>, b: Seq<char>) -> Json {
    match field2(j, a, b) {
        Some(v) => v,
        None => Json::Null,
    }
}

fn read2_or_null(v: &Value, a: &str, b: &str) -> (r: Value)
    ensures
        r@ == field2_or_null(v@, a@, b@),
{
    match v.get2(a, b) {
        Some(x) => x.clone(),
        None => Value::Null,
    }
}

impl AggregateUpdateEvent {
    /// Whether this holds what the payload says.
    pub open spec fn reads(&self, d: Json) -> bool {
        &&& self.author_id == id_or_zero(field(d, "author_id"@))
        &&& self.channel.reads(field_or_null(d, "channel"@))
        &&& self.aggregate_data@ == field2_or_null(d, "aggregate"@, "data"@)
        &&& self.request_data@ == field2_or_null(d, "request_data"@, "data"@)
        &&& self.organisation_id == id_of(field(d, "organisation_id"@))
    }

    /// Reads the event.
    pub fn from_value(d: &Value) -> (r: Result<AggregateUpdateEvent, DooverError>)
        ensures
            match r {
                Ok(e) => channel_fault(d@, "event missing channel"@) is None && e.reads(d@),
                Err(e) => channel_fault(d@, "event missing channel"@) matches Some(m)
                    && is_invalid(e, m),
            },
    {
        match read_channel(d, "event missing channel") {
            Ok(channel) => Ok(
                AggregateUpdateEvent {
                    author_id: read_id_or_zero(d.get("author_id")),
                    channel,
                    aggregate_data: read2_or_null(d, "aggregate", "data"),
                    request_data: read2_or_null(d, "request_data", "data"),
                    organisation_id: value_as_id(d.get("organisation_id")),
                },
            ),
            Err(e) => Err(e),
        }
    }
}

/// The app was deployed to an agent.
#[derive(Debug, Clone)]
pub struct DeploymentEvent {
    pub agent_id: u64,
    pub app_id: Value,
    pub app_install_id: Value,
    pub app_key: String,
    pub app_display_name: String,
}

impl DeploymentEvent {
    /// Whether this holds what the payload says.
    pub open spec fn reads(&self, d: Json) -> bool {
        &&& self.agent_id == id_or_zero(field(d, "agent_id"@))
        &&& self.app_id@ == field_or_null(d, "app_id"@)
        &&& self.app_install_id@ == field_or_null(d, "app_install_id"@)
        &&& self.app_key@ == str_or_empty(d, "app_key"@)
        &&& self.app_display_name@ == str_or_empty(d, "app_display_name"@)
    }

    /// Reads the event.
    pub fn from_value(d: &Value) -> (e: DeploymentEvent)
        ensures
            e.reads(d@),
    {
        DeploymentEvent {
            agent_id: read_id_or_zero(d.get("agent_id")),
            app_id: d.get_or_null("app_id"),
            app_install_id: d.get_or_null("app_install_id"),
            app_key: read_str_or_empty(d, "app_key"),
            app_display_name: read_str_or_empty(d, "app_display_name"),
        }
    }
}

/// A schedule fired.
#[derive(Debug, Clone)]
pub struct ScheduleEvent {
    pub schedule_id: String,
}

/// An id as text that defaults to the empty one.
pub open spec fn id_text_or_empty(j: Option<Json>) -> Seq<char> {
    match id_text(j) {
        Some(s) => s,
        None => Seq::empty(),
    }
}

fn read_id_text(v: Option<&Value>) -> (r: String)
    ensures
        r@ == id_text_or_empty(ref_doc(v)),
{
    match id_string(v) {
        Some(s) => s,
        None => {
            let s = String::new();
            assert(s@ =~= Seq::empty());
            s
        },
    }
}

impl ScheduleEvent {
    /// Reads the event.
    pub fn from_value(d: &Value) -> (e: ScheduleEvent)
        ensures
            e.schedule_id@ == id_text_or_empty(field(d@, "schedule_id"@)),
    {
        ScheduleEvent { schedule_id: read_id_text(d.get("schedule_id")) }
    }
}

/// An ingestion endpoint was called.
#[derive(Debug, Clone)]
pub struct IngestionEndpointEvent {
    pub ingestion_id: String,
    pub agent_id: u64,
    pub organisation_id: Option<u64>,
    /// The payload as delivered.
    pub payload: String,
    /// The payload as decoded.
    pub data: Value,
    pub invocation_url: Option<String>,
    pub content_type: Option<String>,
}

impl IngestionEndpointEvent {
    /// Whether this holds what the payload says.
    pub open spec fn reads(&self, d: Json, parsed: Json) -> bool {
        &&& self.ingestion_id@ == id_text_or_empty(field(d, "ingestion_id"@))
        &&& self.agent_id == id_or_zero(field(d, "agent_id"@))
        &&& self.organisation_id == id_of(field(d, "organisation_id"@))
        &&& self.payload@ == str_or_empty(d, "payload"@)
        &&& self.data@ == parsed
        &&& opt_chars(self.invocation_url) == str_field(d, "invocation_url"@)
        &&& opt_chars(self.content_type) == str_field(d, "content_type"@)
    }

    /// Reads the event, with its payload already decoded.
    pub fn from_value(d: &Value, parsed: Value) -> (e: IngestionEndpointEvent)
        ensures
            e.reads(d@, parsed@),
    {
        IngestionEndpointEvent {
            ingestion_id: read_id_text(d.get("ingestion_id")),
            agent_id: read_id_or_zero(d.get("agent_id")),
            organisation_id: value_as_id(d.get("organisation_id")),
            payload: read_str_or_empty(d, "payload"),
            data: parsed,
            invocation_url: d.get_string("invocation_url"),
            content_type: d.get_string("content_type"),
        }
    }
}

/// The processor was invoked by hand.
#[derive(Debug, Clone)]
pub struct ManualInvokeEvent {
    pub organisation_id: Option<u64>,
    pub payload: Value,
}

impl ManualInvokeEvent {
    /// Reads the event.
    pub fn from_value(d: &Value) -> (e: ManualInvokeEvent)
        ensures
            e.organisation_id == id_of(field(d@, "organisation_id"@)),
            e.payload@ == field_or_null(d@, "payload"@),
    {
        ManualInvokeEvent {
            organisation_id: value_as_id(d.get("organisation_id")),
            payload: d.get_or_null("payload"),
        }
    }
}

/// The payload of an invocation.
#[derive(Debug, Clone)]
pub enum EventPayload {
    MessageCreate(MessageCreateEvent),
    AggregateUpdate(AggregateUpdateEvent),
    Deployment(DeploymentEvent),
    Schedule(ScheduleEvent),
    IngestionEndpoint(IngestionEndpointEvent),
    ManualInvoke(ManualInvokeEvent),
}

impl EventPayload {
    /// The channel that triggered the invocation.
    pub open spec fn channel(&self) -> Option<Seq<char>> {
        match self {
            EventPayload::MessageCreate(e) => Some(e.channel.name@),
            EventPayload::AggregateUpdate(e) => Some(e.channel.name@),
            _ => None,
        }
    }

    /// The channel that triggered the invocation.
    pub fn invoking_channel(&self) -> (r: Option<&str>)
        ensures
            match r {
                Some(c) => self.channel() == Some(c@),
                None => self.channel() is None,
            },
    {
        match self {
            EventPayload::MessageCreate(e) => Some(e.channel.name.as_str()),
            EventPayload::AggregateUpdate(e) => Some(e.channel.name.as_str()),
            _ => None,
        }
    }
}

} // verus!
