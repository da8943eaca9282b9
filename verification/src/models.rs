//! Models shared across transports: notifications, the token upgrade of a
//! processor invocation, and the classes of a connection.
use vstd::prelude::*;

use crate::error::{invalid, is_invalid, DooverError};
use crate::json::{
    at, entries_of, field, field_or_null, lemma_at_none, lemma_at_one, ref_doc, str_field, Entries,
    Json, Value,
};
use crate::text::{natural, opt_chars, read_u64, trim, trimmed};

verus! {

/// The channel that notifications are published on.
pub const NOTIFICATIONS_CHANNEL: &'static str = "notifications";

/// The severity of a notification. Subscribers get what is at or above theirs.
#[derive(Debug, Clone, Copy, PartialEq, Eq, Structural, PartialOrd, Ord)]
pub enum NotificationSeverity {
    Trace,
    Debug,
    Info,
    Warn,
    Critical,
}

impl NotificationSeverity {
    /// The number of the severity on the wire.
    pub open spec fn level(self) -> int {
        match self {
            NotificationSeverity::Trace => 3,
            NotificationSeverity::Debug => 4,
            NotificationSeverity::Info => 5,
            NotificationSeverity::Warn => 6,
            NotificationSeverity::Critical => 7,
        }
    }

    /// The number of the severity on the wire.
    pub fn code(self) -> (r: i64)
        ensures
            r == self.level(),
    {
        match self {
            NotificationSeverity::Trace => 3,
            NotificationSeverity::Debug => 4,
            NotificationSeverity::Info => 5,
            NotificationSeverity::Warn => 6,
            NotificationSeverity::Critical => 7,
        }
    }
}

/// A notification message.
#[derive(Debug, Clone)]
pub struct Notification {
    /// The body.
    pub message: String,
    /// The headline.
    pub title: Option<String>,
    pub severity: Option<NotificationSeverity>,
    /// The topic that subscriptions filter by.
    pub topic: Option<String>,
}

/// The entry of an optional field: one if it is set, none otherwise.
pub open spec fn optional_entry(key: Seq<char>, v: Option<Json>) -> Entries {
    match v {
        Some(j) => seq![(key, j)],
        None => Seq::empty(),
    }
}

/// What a key names in an optional entry.
pub proof fn lemma_at_optional(key: Seq<char>, v: Option<Json>, q: Seq<char>)
    ensures
        at(optional_entry(key, v), q) == (if q == key {
            v
        } else {
            None
        }),
{
    match v {
        Some(j) => lemma_at_one(key, j, q),
        None => lemma_at_none(q),
    }
}

/// A string document for an optional string.
pub open spec fn opt_str_doc(s: Option<String>) -> Option<Json> {
    match s {
        Some(t) => Some(Json::Str(t@)),
        None => None,
    }
}

impl From<String> for Notification {
    fn from(message: String) -> (n: Self) {
        Notification { message, title: None, severity: None, topic: None }
    }
}

impl vstd::std_specs::convert::FromSpecImpl<String> for Notification {
    open spec fn obeys_from_spec() -> bool {
        true
    }

    /// A bare message.
    open spec fn from_spec(message: String) -> Notification {
        Notification { message, title: None, severity: None, topic: None }
    }
}

impl<'a> From<&'a str> for Notification {
    fn from(message: &'a str) -> (n: Self)
        ensures
            n.message@ == message@,
            n.title is None,
            n.severity is None,
            n.topic is None,
    {
        Notification::new(message)
    }
}

impl<'a> vstd::std_specs::convert::FromSpecImpl<&'a str> for Notification {
    /// Many strings hold the same text, so that none of them is the result: what `from`
    /// returns is stated on it, by its text.
    open spec fn obeys_from_spec() -> bool {
        false
    }

    open spec fn from_spec(message: &'a str) -> Notification {
        arbitrary()
    }
}

impl Notification {
    /// A bare message.
    pub fn new(message: &str) -> (n: Self)
        ensures
            n.message@ == message@,
            n.title is None,
            n.severity is None,
            n.topic is None,
    {
        Notification { message: message.to_owned(), title: None, severity: None, topic: None }
    }

    /// Sets the headline.
    pub fn title(self, title: &str) -> (n: Self)
        ensures
            opt_chars(n.title) == Some(title@),
            n.message == self.message,
            n.severity == self.severity,
            n.topic == self.topic,
    {
        Notification {
            message: self.message,
            title: Some(title.to_owned()),
            severity: self.severity,
            topic: self.topic,
        }
    }

    /// Sets the severity.
    pub fn severity(self, severity: NotificationSeverity) -> (n: Self)
        ensures
            n.severity == Some(severity),
            n.message == self.message,
            n.title == self.title,
            n.topic == self.topic,
    {
        Notification {
            message: self.message,
            title: self.title,
            severity: Some(severity),
            topic: self.topic,
        }
    }

    /// Sets the topic.
    pub fn topic(self, topic: &str) -> (n: Self)
        ensures
            opt_chars(n.topic) == Some(topic@),
            n.message == self.message,
            n.title == self.title,
            n.severity == self.severity,
    {
        Notification {
            message: self.message,
            title: self.title,
            severity: self.severity,
            topic: Some(topic.to_owned()),
        }
    }

    /// The entries of the payload: the message, then whatever is set.
    pub open spec fn entries(&self) -> Entries {
        seq![("message"@, Json::Str(self.message@))] + optional_entry(
            "title"@,
            opt_str_doc(self.title),
        ) + optional_entry(
            "severity"@,
            match self.severity {
                Some(s) => Some(Json::Int(s.level())),
                None => None,
            },
        ) + optional_entry("topic"@, opt_str_doc(self.topic))
    }

    /// The payload: the message, then whatever is set, the severity by number.
    pub fn to_json(&self) -> (v: Value)
        ensures
            v@ == Json::Obj(self.entries()),
    {
        let mut e: Vec<(String, Value)> = Vec::new();
        e.push(("message".to_owned(), Value::text(self.message.as_str())));
        assert(entries_of(e@) =~= seq![("message"@, Json::Str(self.message@))]);
        if let Some(title) = &self.title {
            let ghost before = entries_of(e@);
            e.push(("title".to_owned(), Value::text(title.as_str())));
            assert(entries_of(e@) =~= before + seq![("title"@, Json::Str(title@))]);
        }
        if let Some(severity) = self.severity {
            let ghost before = entries_of(e@);
            e.push(("severity".to_owned(), Value::signed(severity.code())));
            assert(entries_of(e@) =~= before + seq![("severity"@, Json::Int(severity.level()))]);
        }
        if let Some(topic) = &self.topic {
            let ghost before = entries_of(e@);
            e.push(("topic".to_owned(), Value::text(topic.as_str())));
            assert(entries_of(e@) =~= before + seq![("topic"@, Json::Str(topic@))]);
        }
        assert(entries_of(e@) =~= self.entries());
        Value::object(e)
    }
}

/// The id that a document holds: a number, or a decimal string with white space
/// around it.
pub open spec fn id_of(j: Option<Json>) -> Option<u64> {
    match j {
        Some(Json::Int(i)) => if 0 <= i <= u64::MAX {
            Some(i as u64)
        } else {
            None
        },
        Some(Json::Str(s)) => match natural(trimmed(s)) {
            Some(n) => if n <= u64::MAX {
                Some(n as u64)
            } else {
                None
            },
            None => None,
        },
        _ => None,
    }
}

/// Reads an id that is a number or a decimal string.
pub fn value_as_id(v: Option<&Value>) -> (r: Option<u64>)
    ensures
        r == id_of(ref_doc(v)),
{
    match v {
        Some(v) => match v.as_str() {
            Some(s) => read_u64(trim(s).as_str()),
            None => v.as_u64(),
        },
        None => None,
    }
}

/// Whether a token upgrade was read as it should: the agent id, the app key and the
/// token are required, in this order.
pub open spec fn is_info(r: Result<SubscriptionInfo, DooverError>, data: Json) -> bool {
    match r {
        Ok(info) => info.reads(data),
        Err(e) => if id_of(field(data, "agent_id"@)) is None {
            is_invalid(e, "SubscriptionInfo missing agent_id"@)
        } else if str_field(data, "app_key"@) is None {
            is_invalid(e, "SubscriptionInfo missing app_key"@)
        } else {
            str_field(data, "token"@) is None && is_invalid(e, "SubscriptionInfo missing token"@)
        },
    }
}

/// What the processor info endpoints return, or the event carries inline: the
/// full token and the channels a processor almost always needs.
#[derive(Debug, Clone)]
pub struct SubscriptionInfo {
    pub agent_id: u64,
    pub organisation_id: Option<u64>,
    pub app_key: String,
    pub deployment_config: Value,
    pub ui_state: Value,
    pub ui_cmds: Value,
    pub tag_values: Value,
    /// The connection's config and status; missing for organisations and for
    /// new devices.
    pub connection_data: Value,
    pub token: String,
}

impl SubscriptionInfo {
    /// Whether this holds what the document says.
    pub open spec fn reads(&self, data: Json) -> bool {
        &&& id_of(field(data, "agent_id"@)) == Some(self.agent_id)
        &&& self.organisation_id == id_of(field(data, "organisation_id"@))
        &&& str_field(data, "app_key"@) == Some(self.app_key@)
        &&& str_field(data, "token"@) == Some(self.token@)
        &&& self.deployment_config@ == field_or_null(data, "deployment_config"@)
        &&& self.ui_state@ == field_or_null(data, "ui_state"@)
        &&& self.ui_cmds@ == field_or_null(data, "ui_cmds"@)
        &&& self.tag_values@ == field_or_null(data, "tag_values"@)
        &&& self.connection_data@ == field_or_null(data, "connection_data"@)
    }

    /// Reads the token upgrade; the channels default to null.
    pub fn from_value(data: &Value) -> (r: Result<SubscriptionInfo, DooverError>)
        ensures
            is_info(r, data@),
    {
        let agent_id: u64 = match value_as_id(data.get("agent_id")) {
            Some(id) => id,
            None => {
                return Err(invalid("SubscriptionInfo missing agent_id"));
            },
        };
        let app_key = match data.get_string("app_key") {
            Some(s) => s,
            None => {
                return Err(invalid("SubscriptionInfo missing app_key"));
            },
        };
        let token = match data.get_string("token") {
            Some(s) => s,
            None => {
                return Err(invalid("SubscriptionInfo missing token"));
            },
        };
        Ok(
            SubscriptionInfo {
                agent_id,
                organisation_id: value_as_id(data.get("organisation_id")),
                app_key,
                deployment_config: data.get_or_null("deployment_config"),
                ui_state: data.get_or_null("ui_state"),
                ui_cmds: data.get_or_null("ui_cmds"),
                tag_values: data.get_or_null("tag_values"),
                connection_data: data.get_or_null("connection_data"),
                token,
            },
        )
    }
}

/// The verdict attached to a connection ping.
#[derive(Debug, Clone, Copy, PartialEq, Eq, Structural)]
pub enum ConnectionDetermination {
    Online,
    Offline,
}

impl ConnectionDetermination {
    /// The name on the wire.
    pub open spec fn name(self) -> Seq<char> {
        match self {
            ConnectionDetermination::Online => "Online"@,
            ConnectionDetermination::Offline => "Offline"@,
        }
    }

    /// The name on the wire.
    pub fn as_str(self) -> (r: &'static str)
        ensures
            r@ == self.name(),
    {
        match self {
            ConnectionDetermination::Online => "Online",
            ConnectionDetermination::Offline => "Offline",
        }
    }
}

/// How an agent's link is classed.
#[derive(Debug, Clone, Copy, PartialEq, Eq, Structural)]
pub enum ConnectionStatus {
    ContinuousOnline,
    ContinuousOnlineNoPing,
    ContinuousOffline,
    ContinuousPending,
    PeriodicUnknown,
    Unknown,
}

impl Default for ConnectionStatus {
    fn default() -> (r: Self)
        ensures
            r == ConnectionStatus::PeriodicUnknown,
    {
        ConnectionStatus::PeriodicUnknown
    }
}

impl ConnectionStatus {
    /// The name on the wire.
    pub open spec fn name(self) -> Seq<char> {
        match self {
            ConnectionStatus::ContinuousOnline => "ContinuousOnline"@,
            ConnectionStatus::ContinuousOnlineNoPing => "ContinuousOnlineNoPing"@,
            ConnectionStatus::ContinuousOffline => "ContinuousOffline"@,
            ConnectionStatus::ContinuousPending => "ContinuousPending"@,
            ConnectionStatus::PeriodicUnknown => "PeriodicUnknown"@,
            ConnectionStatus::Unknown => "Unknown"@,
        }
    }

    /// The name on the wire.
    pub fn as_str(self) -> (r: &'static str)
        ensures
            r@ == self.name(),
    {
        match self {
            ConnectionStatus::ContinuousOnline => "ContinuousOnline",
            ConnectionStatus::ContinuousOnlineNoPing => "ContinuousOnlineNoPing",
            ConnectionStatus::ContinuousOffline => "ContinuousOffline",
            ConnectionStatus::ContinuousPending => "ContinuousPending",
            ConnectionStatus::PeriodicUnknown => "PeriodicUnknown",
            ConnectionStatus::Unknown => "Unknown",
        }
    }
}

} // verus!
