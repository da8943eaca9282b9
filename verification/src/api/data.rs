//! Requests to the cloud data API: paths, queries and bodies; when a request is
//! tried again; what a reply means; and the guard that keeps an invocation from
//! writing to the channel that triggered it.
use std::io::Write;

use vstd::prelude::*;
use vstd::utf8::encode_utf8;

use crate::api::auth::BearerAuth;
use crate::channel_backend::{AggregateOptions, UpdateMessageOptions};
use crate::error::{invalid, is_invalid, is_other, DooverError};
use crate::json::{entries_of, field, members, field2, opt_doc, str_field, Json, Value};
use crate::json_text::{json_text, to_text, written};
use crate::models::{
    id_of, value_as_id, ConnectionDetermination, ConnectionStatus, Notification,
    NOTIFICATIONS_CHANNEL,
};
use crate::tags::runtime::TAG_CHANNEL_NAME;
use crate::text::{
    chars, concat, copy_opt, decimal, opt_chars, same, slice, write_u64,
};

verus! {

/// The API's address, unless the environment says otherwise.
pub const DEFAULT_DATA_ENDPOINT: &'static str = "https://data.doover.com/api";

/// The environment variable that overrides the API's address.
pub const DATA_ENDPOINT_ENV: &'static str = "DOOVER_DATA_ENDPOINT";

/// Bodies below this many bytes are sent plain.
pub const MIN_COMPRESS_SIZE: usize = 50;

/// The channel of an agent's connection.
pub const CONNECTION_CHANNEL: &'static str = "doover_connection";

/// The gzip level of a request body.
pub const GZIP_LEVEL: u32 = 6;

// ---- channels ------------------------------------------------------------------

/// A channel as the API describes it.
#[derive(Debug, Clone)]
pub struct Channel {
    pub name: String,
    pub owner_id: u64,
    pub is_private: bool,
    /// The aggregate's data, if it was asked for and there is any.
    pub aggregate_data: Option<Value>,
    pub raw: Value,
}

impl Channel {
    /// Whether this holds what the document says.
    pub open spec fn reads(&self, raw: Json) -> bool {
        &&& str_field(raw, "name"@) == Some(self.name@)
        &&& self.owner_id == (match id_of(field(raw, "owner_id"@)) {
            Some(n) => n,
            None => 0,
        })
        &&& self.is_private == (field(raw, "is_private"@) == Some(Json::Bool(true)))
        &&& opt_doc(self.aggregate_data) == (match field2(raw, "aggregate"@, "data"@) {
            Some(Json::Null) => None,
            other => other,
        })
        &&& self.raw@ == raw
    }

    /// Reads a channel; its name is required.
    pub fn from_value(raw: Value) -> (r: Result<Channel, DooverError>)
        ensures
            match r {
                Ok(c) => c.reads(raw@),
                Err(e) => str_field(raw@, "name"@) is None && is_invalid(e, "channel missing name"@),
            },
    {
        let name = match raw.get_string("name") {
            Some(s) => s,
            None => {
                return Err(invalid("channel missing name"));
            },
        };
        let owner_id: u64 = match value_as_id(raw.get("owner_id")) {
            Some(n) => n,
            None => 0,
        };
        let is_private = match raw.get("is_private") {
            Some(v) => match v.as_bool() {
                Some(b) => b,
                None => false,
            },
            None => false,
        };
        let aggregate_data = match raw.get2("aggregate", "data") {
            Some(d) => if d.is_null() {
                None
            } else {
                Some(d.clone())
            },
            None => None,
        };
        Ok(Channel { name, owner_id, is_private, aggregate_data, raw })
    }
}

/// Which messages to list.
#[derive(Debug, Clone)]
pub struct ListMessagesQuery {
    /// Only messages with a smaller id.
    pub before: Option<u64>,
    /// Only messages with a larger id.
    pub after: Option<u64>,
    pub limit: Option<u32>,
    /// Only these fields.
    pub field_names: Vec<String>,
}

impl Default for ListMessagesQuery {
    fn default() -> (q: Self)
        ensures
            q.before is None,
            q.after is None,
            q.limit is None,
            q.field_names@.len() == 0,
    {
        ListMessagesQuery { before: None, after: None, limit: None, field_names: Vec::new() }
    }
}

/// A connection ping.
#[derive(Debug, Clone)]
pub struct PingConnectionArgs {
    /// When the agent was last known online, in milliseconds.
    pub online_at_ms: u64,
    pub connection_status: ConnectionStatus,
    pub determination: ConnectionDetermination,
    /// Defaults to now.
    pub ping_at_ms: Option<u64>,
    pub user_agent: Option<String>,
    pub ip_address: Option<String>,
    pub agent_id: Option<u64>,
}

/// The document of a connection ping.
pub open spec fn ping_doc(args: PingConnectionArgs, now: u64) -> Json {
    Json::Obj(
        seq![
            (
                "status"@,
                Json::Obj(
                    seq![
                        ("status"@, Json::Str(args.connection_status.name())),
                        ("last_online"@, Json::Int(args.online_at_ms as int)),
                        (
                            "last_ping"@,
                            Json::Int(
                                match args.ping_at_ms {
                                    Some(t) => t as int,
                                    None => now as int,
                                },
                            ),
                        ),
                        (
                            "user_agent"@,
                            Json::Str(
                                match args.user_agent {
                                    Some(u) => u@,
                                    None => "doover-rs-processor"@,
                                },
                            ),
                        ),
                        (
                            "ip"@,
                            match args.ip_address {
                                Some(ip) => Json::Str(ip@),
                                None => Json::Null,
                            },
                        ),
                    ],
                ),
            ),
            ("determination"@, Json::Str(args.determination.name())),
        ],
    )
}

/// The payload of a connection ping, written as a message and to the aggregate.
pub fn ping_payload(args: &PingConnectionArgs, now: u64) -> (v: Value)
    ensures
        v@ == ping_doc(*args, now),
{
    let ping_at: u64 = match args.ping_at_ms {
        Some(t) => t,
        None => now,
    };
    let user_agent = match &args.user_agent {
        Some(u) => Value::text(u.as_str()),
        None => Value::text("doover-rs-processor"),
    };
    let mut inner: Vec<(String, Value)> = Vec::new();
    inner.push(("status".to_owned(), Value::text(args.connection_status.as_str())));
    inner.push(("last_online".to_owned(), Value::unsigned(args.online_at_ms)));
    inner.push(("last_ping".to_owned(), Value::unsigned(ping_at)));
    inner.push(("user_agent".to_owned(), user_agent));
    inner.push(("ip".to_owned(), Value::opt_text(&args.ip_address)));
    let status = Value::object(inner);
    let mut outer: Vec<(String, Value)> = Vec::new();
    outer.push(("status".to_owned(), status));
    outer.push(("determination".to_owned(), Value::text(args.determination.as_str())));
    let v = Value::object(outer);
    proof {
        let want = ping_doc(*args, now);
        assert(status@->Obj_0 =~= want->Obj_0[0].1->Obj_0);
        assert(v@->Obj_0 =~= want->Obj_0);
    }
    v
}

/// The object with one entry.
pub fn single(key: &str, value: Value) -> (v: Value)
    ensures
        v@ == Json::Obj(seq![(key@, value@)]),
{
    let mut e: Vec<(String, Value)> = Vec::new();
    e.push((key.to_owned(), value));
    assert(entries_of(e@) =~= seq![(key@, value@)]);
    Value::object(e)
}

// ---- requests ------------------------------------------------------------------

/// The verb of a request.
#[derive(Debug, Clone, Copy, PartialEq, Eq, Structural)]
pub enum Method {
    Get,
    Post,
    Put,
    Patch,
}

/// A request to the API.
#[derive(Debug)]
pub struct ApiRequest {
    pub method: Method,
    pub path: String,
    pub body: Option<Value>,
    /// The query parameters; one that is a list is repeated.
    pub query: Vec<(String, String)>,
}

/// A query parameter.
pub type Param = (Seq<char>, Seq<char>);

/// The model of a list of query parameters.
pub open spec fn params(q: Seq<(String, String)>) -> Seq<Param> {
    Seq::new(q.len(), |i: int| (q[i].0@, q[i].1@))
}

impl ApiRequest {
    /// Whether this asks for exactly this.
    pub open spec fn asks(
        &self,
        method: Method,
        path: Seq<char>,
        body: Option<Json>,
        query: Seq<Param>,
    ) -> bool {
        &&& self.method == method
        &&& self.path@ == path
        &&& opt_doc(self.body) == body
        &&& params(self.query@) == query
    }
}

/// The text of a truth value in a query.
pub open spec fn bool_text(b: bool) -> Seq<char> {
    if b {
        "true"@
    } else {
        "false"@
    }
}

fn bool_param(v: bool) -> (r: String)
    ensures
        r@ == bool_text(v),
{
    if v {
        "true".to_owned()
    } else {
        "false".to_owned()
    }
}

/// A parameter, if the flag is set.
pub open spec fn flag_param(name: Seq<char>, set: bool) -> Seq<Param> {
    if set {
        seq![(name, "true"@)]
    } else {
        Seq::empty()
    }
}

/// One parameter for every value of a list.
pub open spec fn list_params(name: Seq<char>, values: Seq<String>) -> Seq<Param> {
    Seq::new(values.len(), |i: int| (name, values[i]@))
}

/// A parameter, if the number is set.
pub open spec fn number_param(name: Seq<char>, n: Option<nat>) -> Seq<Param> {
    match n {
        Some(n) => seq![(name, decimal(n))],
        None => Seq::empty(),
    }
}

fn push_param(q: &mut Vec<(String, String)>, name: &str, value: String)
    ensures
        params(final(q)@) == params(old(q)@).push((name@, value@)),
        params(final(q)@) == params(old(q)@) + seq![(name@, value@)],
{
    let ghost before = params(q@);
    let ghost v = value@;
    q.push((name.to_owned(), value));
    assert(params(q@) =~= before.push((name@, v)));
    assert(params(q@) =~= before + seq![(name@, v)]);
}

fn push_list(q: &mut Vec<(String, String)>, name: &str, values: &Vec<String>)
    ensures
        params(final(q)@) == params(old(q)@) + list_params(name@, values@),
{
    let ghost before = params(q@);
    let mut i: usize = 0;
    assert(before + list_params(name@, values@).take(0) =~= before);
    while i < values.len()
        invariant
            i <= values@.len(),
            params(q@) == before + list_params(name@, values@).take(i as int),
        decreases values@.len() - i,
    {
        let ghost all = list_params(name@, values@);
        let ghost mid = params(q@);
        push_param(q, name, values[i].clone());
        proof {
            assert(all.take(i as int + 1) =~= all.take(i as int).push(all[i as int]));
            assert(mid.push(all[i as int]) =~= before + all.take(i as int + 1));
        }
        i += 1;
    }
    assert(list_params(name@, values@).take(values@.len() as int) =~= list_params(name@, values@));
}

/// The path of a channel.
pub open spec fn channel_path(agent: u64, channel: Seq<char>) -> Seq<char> {
    "/agents/"@ + decimal(agent as nat) + "/channels/"@ + channel
}

fn write_channel_path(agent: u64, channel: &str, rest: &str) -> (r: String)
    ensures
        r@ == channel_path(agent, channel@) + rest@,
{
    let mut r = concat("/agents/", write_u64(agent).as_str());
    r.append("/channels/");
    r.append(channel);
    r.append(rest);
    r
}

/// The path of a message.
pub open spec fn message_path(agent: u64, channel: Seq<char>, id: u64) -> Seq<char> {
    channel_path(agent, channel) + ("/messages/"@ + decimal(id as nat))
}

fn write_message_path(agent: u64, channel: &str, id: u64) -> (r: String)
    ensures
        r@ == message_path(agent, channel@, id),
{
    let rest = concat("/messages/", write_u64(id).as_str());
    write_channel_path(agent, channel, rest.as_str())
}

// ---- the client ----------------------------------------------------------------

/// The client's own knowledge: where the API is, who it asks for, and how often
/// it tries.
#[derive(Debug)]
pub struct DataClient {
    base_url: String,
    auth: BearerAuth,
    agent_id: Option<u64>,
    organisation_id: Option<String>,
    app_key: Option<String>,
    invoking_channel: Option<String>,
    /// How often a request is tried.
    pub max_retries: u32,
    /// The delay before the second try, in milliseconds; it doubles each time.
    pub retry_delay_ms: u64,
    /// Compress bodies that are large enough.
    pub compress: bool,
}

/// The model of the client.
#[verifier::ext_equal]
pub struct ClientView {
    pub base_url: Seq<char>,
    pub token: Option<Seq<char>>,
    pub agent_id: Option<u64>,
    pub organisation_id: Option<Seq<char>>,
    pub app_key: Option<Seq<char>>,
    pub invoking_channel: Option<Seq<char>>,
    pub max_retries: u32,
    pub retry_delay_ms: u64,
    pub compress: bool,
}

impl View for DataClient {
    type V = ClientView;

    closed spec fn view(&self) -> ClientView {
        ClientView {
            base_url: self.base_url@,
            token: self.auth@,
            agent_id: self.agent_id,
            organisation_id: opt_chars(self.organisation_id),
            app_key: opt_chars(self.app_key),
            invoking_channel: opt_chars(self.invoking_channel),
            max_retries: self.max_retries,
            retry_delay_ms: self.retry_delay_ms,
            compress: self.compress,
        }
    }
}

/// The text without the slashes at its end.
pub open spec fn without_slashes(s: Seq<char>) -> Seq<char>
    decreases s.len(),
{
    if s.len() > 0 && s.last() == '/' {
        without_slashes(s.drop_last())
    } else {
        s
    }
}

fn cut_slashes(s: &str) -> (r: String)
    ensures
        r@ == without_slashes(s@),
{
    let v = chars(s);
    let mut to: usize = v.len();
    assert(v@.subrange(0, to as int) =~= s@);
    while to > 0 && v[to - 1] == '/'
        invariant
            to <= v@.len(),
            without_slashes(s@) == without_slashes(v@.subrange(0, to as int)),
        decreases to,
    {
        assert(v@.subrange(0, to as int).drop_last() =~= v@.subrange(0, to - 1));
        to -= 1;
    }
    slice(&v, 0, to)
}

/// Why a write is refused, if it is. While an invocation handles an event of a
/// channel, nothing may be written to that channel; `tag_values` alone may be,
/// with this app's key and no other.
pub open spec fn write_refusal(v: ClientView, channel: Seq<char>, data: Json) -> Option<Seq<char>> {
    if v.invoking_channel != Some(channel) {
        None
    } else if channel != TAG_CHANNEL_NAME@ {
        Some("Cannot publish to the invoking channel."@)
    } else if outside_scope(v, data) {
        Some(
            "Cannot publish to tag_values outside the scope of this app without explicit enable."@,
        )
    } else {
        None
    }
}

/// Whether a document has a key that is not this app's.
pub open spec fn outside_scope(v: ClientView, data: Json) -> bool {
    let e = members(data);
    exists|i: int| 0 <= i < e.len() && Some((#[trigger] e[i]).0) != v.app_key
}

/// The message for a request without an agent.
pub open spec fn no_agent() -> Seq<char> {
    "agent_id must be provided either as a method argument or set on the client"@
}

/// The agent that a request is for: the explicit one, else the client's.
pub open spec fn agent_for(v: ClientView, explicit: Option<u64>) -> Option<u64> {
    if explicit is Some {
        explicit
    } else {
        v.agent_id
    }
}

/// Whether a request is refused as it should be: for what it writes, then for
/// the want of an agent.
pub open spec fn refused(
    v: ClientView,
    write: Option<(Seq<char>, Json)>,
    agent: Option<u64>,
    e: DooverError,
) -> bool {
    let reason = match write {
        Some((channel, data)) => write_refusal(v, channel, data),
        None => None,
    };
    match reason {
        Some(m) => is_other(e, m),
        None => agent_for(v, agent) is None && is_other(e, no_agent()),
    }
}

/// Whether a write may be made.
pub open spec fn may_write(v: ClientView, channel: Seq<char>, data: Json) -> bool {
    write_refusal(v, channel, data) is None
}

/// A client that knows no more than where the API is. It tries three times, with a
/// second before the second try, and compresses bodies.
pub open spec fn fresh_client(base_url: Seq<char>) -> ClientView {
    ClientView {
        base_url: without_slashes(base_url),
        token: None,
        agent_id: None,
        organisation_id: None,
        app_key: None,
        invoking_channel: None,
        max_retries: 3,
        retry_delay_ms: 1000,
        compress: true,
    }
}

/// The API's address: the explicit one, else a non-empty one from the environment, else
/// the default.
pub open spec fn endpoint(explicit: Option<String>, env: Option<String>) -> Seq<char> {
    match explicit {
        Some(u) => u@,
        None => match env {
            Some(e) => if e@.len() > 0 {
                e@
            } else {
                DEFAULT_DATA_ENDPOINT@
            },
            None => DEFAULT_DATA_ENDPOINT@,
        },
    }
}

/// The API's address: the explicit one, else a non-empty one from the environment, else
/// the default.
pub fn choose_endpoint(explicit: Option<String>, env: Option<String>) -> (r: String)
    ensures
        r@ == endpoint(explicit, env),
{
    if let Some(u) = explicit {
        return u;
    }
    if let Some(e) = env {
        if !e.as_str().is_empty() {
            return e;
        }
    }
    DEFAULT_DATA_ENDPOINT.to_owned()
}

impl DataClient {
    /// A client of the API at the address that the environment gives, or at the
    /// default one.
    pub fn new(env: Option<String>) -> (c: Self)
        ensures
            c@ == fresh_client(endpoint(None, env)),
    {
        DataClient::with_base_url(choose_endpoint(None, env).as_str())
    }

    /// A client of the API at the given address.
    pub fn with_base_url(base_url: &str) -> (c: Self)
        ensures
            c@ == fresh_client(base_url@),
    {
        DataClient {
            base_url: cut_slashes(base_url),
            auth: BearerAuth::new(None),
            agent_id: None,
            organisation_id: None,
            app_key: None,
            invoking_channel: None,
            max_retries: 3,
            retry_delay_ms: 1000,
            compress: true,
        }
    }

    /// The API's address.
    pub fn base_url(&self) -> (r: &str)
        ensures
            r@ == self@.base_url,
    {
        self.base_url.as_str()
    }

    /// Sets the token.
    pub fn set_token(&mut self, token: &str)
        ensures
            final(self)@ == (ClientView { token: Some(token@), ..old(self)@ }),
    {
        self.auth.set_token(token);
    }

    /// The token.
    pub fn token(&self) -> (r: Option<String>)
        ensures
            opt_chars(r) == self@.token,
    {
        self.auth.token()
    }

    /// The value of the `Authorization` header.
    pub fn authorization(&self) -> (r: Option<String>)
        ensures
            opt_chars(r) == (match self@.token {
                Some(t) => Some("Bearer "@ + t),
                None => None,
            }),
    {
        self.auth.authorization()
    }

    /// Sets the agent that requests are for.
    pub fn set_agent_id(&mut self, agent_id: u64)
        ensures
            final(self)@ == (ClientView { agent_id: Some(agent_id), ..old(self)@ }),
    {
        self.agent_id = Some(agent_id);
    }

    /// The agent that requests are for.
    pub fn agent_id(&self) -> (r: Option<u64>)
        ensures
            r == self@.agent_id,
    {
        self.agent_id
    }

    /// Sets the organisation that requests are made for.
    pub fn set_organisation_id(&mut self, organisation_id: &str)
        ensures
            final(self)@ == (ClientView {
                organisation_id: Some(organisation_id@),
                ..old(self)@
            }),
    {
        self.organisation_id = Some(organisation_id.to_owned());
    }

    /// The organisation that requests are made for.
    pub fn organisation_id(&self) -> (r: Option<String>)
        ensures
            opt_chars(r) == self@.organisation_id,
    {
        copy_opt(&self.organisation_id)
    }

    /// Sets this app's key.
    pub fn set_app_key(&mut self, app_key: &str)
        ensures
            final(self)@ == (ClientView { app_key: Some(app_key@), ..old(self)@ }),
    {
        self.app_key = Some(app_key.to_owned());
    }

    /// This app's key.
    pub fn app_key(&self) -> (r: Option<String>)
        ensures
            opt_chars(r) == self@.app_key,
    {
        copy_opt(&self.app_key)
    }

    /// Sets the channel that triggered the invocation.
    pub fn set_invoking_channel(&mut self, channel: Option<String>)
        ensures
            final(self)@ == (ClientView { invoking_channel: opt_chars(channel), ..old(self)@ }),
    {
        self.invoking_channel = channel;
    }

    /// The agent that a request is for.
    pub fn resolve_agent_id(&self, agent_id: Option<u64>) -> (r: Result<u64, DooverError>)
        ensures
            match r {
                Ok(id) => agent_for(self@, agent_id) == Some(id),
                Err(e) => agent_for(self@, agent_id) is None && is_other(e, no_agent()),
            },
    {
        if let Some(id) = agent_id {
            return Ok(id);
        }
        match self.agent_id {
            Some(id) => Ok(id),
            None => Err(
                DooverError::Other(
                    "agent_id must be provided either as a method argument or set on the client".to_owned(),
                ),
            ),
        }
    }

    /// Refuses a write to the channel that triggered the invocation.
    pub fn check_invoking_channel(&self, channel: &str, data: &Value) -> (r: Result<(), DooverError>)
        ensures
            match r {
                Ok(_) => write_refusal(self@, channel@, data@) is None,
                Err(e) => write_refusal(self@, channel@, data@) matches Some(m) && is_other(e, m),
            },
    {
        let invoking = match &self.invoking_channel {
            Some(c) => same(c.as_str(), channel),
            None => false,
        };
        if !invoking {
            return Ok(());
        }
        if !same(channel, TAG_CHANNEL_NAME) {
            return Err(DooverError::Other("Cannot publish to the invoking channel.".to_owned()));
        }
        if let Value::Object(entries) = data {
            let ghost e = entries_of(entries@);
            proof {
                Value::lemma_object(*entries);
            }
            let mut i: usize = 0;
            while i < entries.len()
                invariant
                    i <= entries@.len(),
                    e == entries_of(entries@),
                    members(data@) == e,
                    forall|j: int| 0 <= j < i ==> Some((#[trigger] e[j]).0) == self@.app_key,
                    self@.invoking_channel == Some(channel@),
                    channel@ == TAG_CHANNEL_NAME@,
                decreases entries@.len() - i,
            {
                let own = match &self.app_key {
                    Some(k) => *k == entries[i].0,
                    None => false,
                };
                assert(e[i as int].0 == entries@[i as int].0@);
                if !own {
                    assert(i < e.len() && Some(e[i as int].0) != self@.app_key);
                    assert(outside_scope(self@, data@));
                    return Err(
                        DooverError::Other(
                            "Cannot publish to tag_values outside the scope of this app without explicit enable.".to_owned(),
                        ),
                    );
                }
                i += 1;
            }
            assert(!outside_scope(self@, data@));
        }
        Ok(())
    }

    /// Asks for a channel.
    pub fn fetch_channel_with(
        &self,
        channel: &str,
        include_aggregate: bool,
        agent_id: Option<u64>,
    ) -> (r: Result<ApiRequest, DooverError>)
        ensures
            match r {
                Ok(q) => agent_for(self@, agent_id) matches Some(id) && q.asks(
                    Method::Get,
                    channel_path(id, channel@),
                    None,
                    seq![("include_aggregate"@, bool_text(include_aggregate))],
                ),
                Err(e) => refused(self@, None, agent_id, e),
            },
    {
        let id: u64 = match self.resolve_agent_id(agent_id) {
            Ok(id) => id,
            Err(e) => {
                return Err(e);
            },
        };
        let mut query: Vec<(String, String)> = Vec::new();
        assert(params(query@) =~= Seq::empty());
        push_param(&mut query, "include_aggregate", bool_param(include_aggregate));
        let path = write_channel_path(id, channel, "");
        proof {
            reveal_strlit("");
            assert(path@ =~= channel_path(id, channel@));
            assert(params(query@) =~= seq![("include_aggregate"@, bool_text(include_aggregate))]);
        }
        Ok(ApiRequest { method: Method::Get, path, body: None, query })
    }

    /// Asks for a channel's aggregate.
    pub fn fetch_channel_aggregate_raw(
        &self,
        channel: &str,
        agent_id: Option<u64>,
    ) -> (r: Result<ApiRequest, DooverError>)
        ensures
            match r {
                Ok(q) => agent_for(self@, agent_id) matches Some(id) && q.asks(
                    Method::Get,
                    channel_path(id, channel@) + "/aggregate"@,
                    None,
                    Seq::empty(),
                ),
                Err(e) => refused(self@, None, agent_id, e),
            },
    {
        let id: u64 = match self.resolve_agent_id(agent_id) {
            Ok(id) => id,
            Err(e) => {
                return Err(e);
            },
        };
        let query: Vec<(String, String)> = Vec::new();
        assert(params(query@) =~= Seq::empty());
        Ok(
            ApiRequest {
                method: Method::Get,
                path: write_channel_path(id, channel, "/aggregate"),
                body: None,
                query,
            },
        )
    }

    /// Asks for a write to a channel's aggregate.
    pub fn update_channel_aggregate_http(
        &self,
        channel: &str,
        data: &Value,
        opts: &AggregateOptions,
        agent_id: Option<u64>,
    ) -> (r: Result<ApiRequest, DooverError>)
        ensures
            match r {
                Ok(q) => agent_for(self@, agent_id) matches Some(id) && may_write(
                    self@,
                    channel@,
                    data@,
                ) && q.asks(
                    if opts.replace_data {
                        Method::Put
                    } else {
                        Method::Patch
                    },
                    channel_path(id, channel@) + "/aggregate"@,
                    Some(data@),
                    flag_param("clear_attachments"@, opts.clear_attachments) + flag_param(
                        "log_update"@,
                        opts.save_log,
                    ) + list_params("replace"@, opts.replace_keys@),
                ),
                Err(e) => refused(self@, Some((channel@, data@)), agent_id, e),
            },
    {
        if let Err(e) = self.check_invoking_channel(channel, data) {
            return Err(e);
        }
        let id: u64 = match self.resolve_agent_id(agent_id) {
            Ok(id) => id,
            Err(e) => {
                return Err(e);
            },
        };
        let method = if opts.replace_data {
            Method::Put
        } else {
            Method::Patch
        };
        let mut query: Vec<(String, String)> = Vec::new();
        assert(params(query@) =~= Seq::empty());
        if opts.clear_attachments {
            push_param(&mut query, "clear_attachments", bool_param(true));
        }
        assert(params(query@) =~= flag_param("clear_attachments"@, opts.clear_attachments));
        let ghost first = params(query@);
        if opts.save_log {
            push_param(&mut query, "log_update", bool_param(true));
        }
        assert(params(query@) =~= first + flag_param("log_update"@, opts.save_log));
        push_list(&mut query, "replace", &opts.replace_keys);
        Ok(
            ApiRequest {
                method,
                path: write_channel_path(id, channel, "/aggregate"),
                body: Some(data.clone()),
                query,
            },
        )
    }

    /// Asks for a new message.
    pub fn create_message_http(
        &self,
        channel: &str,
        data: &Value,
        timestamp_ms: Option<u64>,
        agent_id: Option<u64>,
    ) -> (r: Result<ApiRequest, DooverError>)
        ensures
            match r {
                Ok(q) => agent_for(self@, agent_id) matches Some(id) && may_write(
                    self@,
                    channel@,
                    data@,
                ) && q.asks(
                    Method::Post,
                    channel_path(id, channel@) + "/messages"@,
                    Some(message_body(data@, timestamp_ms)),
                    Seq::empty(),
                ),
                Err(e) => refused(self@, Some((channel@, data@)), agent_id, e),
            },
    {
        if let Err(e) = self.check_invoking_channel(channel, data) {
            return Err(e);
        }
        let id: u64 = match self.resolve_agent_id(agent_id) {
            Ok(id) => id,
            Err(e) => {
                return Err(e);
            },
        };
        let mut body: Vec<(String, Value)> = Vec::new();
        body.push(("data".to_owned(), data.clone()));
        assert(entries_of(body@) =~= seq![("data"@, data@)]);
        if let Some(ts) = timestamp_ms {
            body.push(("ts".to_owned(), Value::unsigned(ts)));
            assert(entries_of(body@) =~= seq![("data"@, data@), ("ts"@, Json::Int(ts as int))]);
        }
        let query: Vec<(String, String)> = Vec::new();
        assert(params(query@) =~= Seq::empty());
        Ok(
            ApiRequest {
                method: Method::Post,
                path: write_channel_path(id, channel, "/messages"),
                body: Some(Value::object(body)),
                query,
            },
        )
    }

    /// Asks for a message.
    pub fn fetch_message(
        &self,
        channel: &str,
        message_id: u64,
        agent_id: Option<u64>,
    ) -> (r: Result<ApiRequest, DooverError>)
        ensures
            match r {
                Ok(q) => agent_for(self@, agent_id) matches Some(id) && q.asks(
                    Method::Get,
                    message_path(id, channel@, message_id),
                    None,
                    Seq::empty(),
                ),
                Err(e) => refused(self@, None, agent_id, e),
            },
    {
        let id: u64 = match self.resolve_agent_id(agent_id) {
            Ok(id) => id,
            Err(e) => {
                return Err(e);
            },
        };
        let query: Vec<(String, String)> = Vec::new();
        assert(params(query@) =~= Seq::empty());
        Ok(
            ApiRequest {
                method: Method::Get,
                path: write_message_path(id, channel, message_id),
                body: None,
                query,
            },
        )
    }

    /// Asks for a list of messages.
    pub fn list_messages(
        &self,
        channel: &str,
        query: &ListMessagesQuery,
        agent_id: Option<u64>,
    ) -> (r: Result<ApiRequest, DooverError>)
        ensures
            match r {
                Ok(q) => agent_for(self@, agent_id) matches Some(id) && q.asks(
                    Method::Get,
                    channel_path(id, channel@) + "/messages"@,
                    None,
                    list_query(*query),
                ),
                Err(e) => refused(self@, None, agent_id, e),
            },
    {
        let id: u64 = match self.resolve_agent_id(agent_id) {
            Ok(id) => id,
            Err(e) => {
                return Err(e);
            },
        };
        let mut q: Vec<(String, String)> = Vec::new();
        assert(params(q@) =~= Seq::empty());
        if let Some(before) = query.before {
            push_param(&mut q, "before", write_u64(before));
        }
        let ghost one = number_param(
            "before"@,
            match query.before {
                Some(n) => Some(n as nat),
                None => None,
            },
        );
        assert(params(q@) =~= one);
        if let Some(after) = query.after {
            push_param(&mut q, "after", write_u64(after));
        }
        let ghost two = number_param(
            "after"@,
            match query.after {
                Some(n) => Some(n as nat),
                None => None,
            },
        );
        assert(params(q@) =~= one + two);
        if let Some(limit) = query.limit {
            push_param(&mut q, "limit", write_u64(limit as u64));
        }
        let ghost three = number_param(
            "limit"@,
            match query.limit {
                Some(n) => Some(n as nat),
                None => None,
            },
        );
        assert(params(q@) =~= one + two + three);
        push_list(&mut q, "field_name", &query.field_names);
        Ok(
            ApiRequest {
                method: Method::Get,
                path: write_channel_path(id, channel, "/messages"),
                body: None,
                query: q,
            },
        )
    }

    /// Asks for a change of a message.
    pub fn update_message_http(
        &self,
        channel: &str,
        message_id: u64,
        data: &Value,
        opts: &UpdateMessageOptions,
        agent_id: Option<u64>,
    ) -> (r: Result<ApiRequest, DooverError>)
        ensures
            match r {
                Ok(q) => agent_for(self@, agent_id) matches Some(id) && q.asks(
                    if opts.replace_data {
                        Method::Put
                    } else {
                        Method::Patch
                    },
                    message_path(id, channel@, message_id),
                    Some(Json::Obj(seq![("data"@, data@)])),
                    flag_param("clear_attachments"@, opts.clear_attachments),
                ),
                Err(e) => refused(self@, None, agent_id, e),
            },
    {
        let id: u64 = match self.resolve_agent_id(agent_id) {
            Ok(id) => id,
            Err(e) => {
                return Err(e);
            },
        };
        let method = if opts.replace_data {
            Method::Put
        } else {
            Method::Patch
        };
        let mut query: Vec<(String, String)> = Vec::new();
        assert(params(query@) =~= Seq::empty());
        if opts.clear_attachments {
            push_param(&mut query, "clear_attachments", bool_param(true));
        }
        assert(params(query@) =~= flag_param("clear_attachments"@, opts.clear_attachments));
        Ok(
            ApiRequest {
                method,
                path: write_message_path(id, channel, message_id),
                body: Some(single("data", data.clone())),
                query,
            },
        )
    }

    /// Asks for what a subscription's token is traded for.
    pub fn fetch_subscription_info(&self, subscription_id: &str) -> (q: ApiRequest)
        ensures
            q.asks(
                Method::Get,
                "/processors/subscriptions/"@ + subscription_id@,
                None,
                Seq::empty(),
            ),
    {
        let query: Vec<(String, String)> = Vec::new();
        assert(params(query@) =~= Seq::empty());
        ApiRequest {
            method: Method::Get,
            path: concat("/processors/subscriptions/", subscription_id),
            body: None,
            query,
        }
    }

    /// Asks for what a schedule's token is traded for.
    pub fn fetch_schedule_info(&self, schedule_id: &str) -> (q: ApiRequest)
        ensures
            q.asks(Method::Get, "/processors/schedules/"@ + schedule_id@, None, Seq::empty()),
    {
        let query: Vec<(String, String)> = Vec::new();
        assert(params(query@) =~= Seq::empty());
        ApiRequest {
            method: Method::Get,
            path: concat("/processors/schedules/", schedule_id),
            body: None,
            query,
        }
    }

    /// Asks to publish a notification.
    pub fn send_notification(
        &self,
        notification: &Notification,
        agent_id: Option<u64>,
    ) -> (r: Result<ApiRequest, DooverError>)
        ensures
            match r {
                Ok(q) => agent_for(self@, agent_id) matches Some(id) && may_write(
                    self@,
                    NOTIFICATIONS_CHANNEL@,
                    Json::Obj(notification.entries()),
                ) && q.asks(
                    Method::Post,
                    channel_path(id, NOTIFICATIONS_CHANNEL@) + "/messages"@,
                    Some(message_body(Json::Obj(notification.entries()), None)),
                    Seq::empty(),
                ),
                Err(e) => refused(
                    self@,
                    Some((NOTIFICATIONS_CHANNEL@, Json::Obj(notification.entries()))),
                    agent_id,
                    e,
                ),
            },
    {
        self.create_message_http(NOTIFICATIONS_CHANNEL, &notification.to_json(), None, agent_id)
    }

    /// Asks for a channel with its aggregate.
    pub fn fetch_channel(&self, channel: &str) -> (r: Result<ApiRequest, DooverError>)
        ensures
            match r {
                Ok(q) => agent_for(self@, None) matches Some(id) && q.asks(
                    Method::Get,
                    channel_path(id, channel@),
                    None,
                    seq![("include_aggregate"@, "true"@)],
                ),
                Err(e) => refused(self@, None, None, e),
            },
    {
        self.fetch_channel_with(channel, true, None)
    }

    /// Asks to write a document to the connection of an agent: as a message, and once
    /// that is done to the aggregate.
    fn write_connection(&self, data: &Value, agent_id: Option<u64>) -> (r: Result<
        (ApiRequest, ApiRequest),
        DooverError,
    >)
        ensures
            writes_connection(self@, data@, agent_id, r),
    {
        let message = match self.create_message_http(CONNECTION_CHANNEL, data, None, agent_id) {
            Ok(q) => q,
            Err(e) => {
                return Err(e);
            },
        };
        let opts = AggregateOptions::default();
        proof {
            assert(list_params("replace"@, opts.replace_keys@) =~= Seq::empty());
            assert(flag_param("clear_attachments"@, false) + flag_param("log_update"@, false)
                + list_params("replace"@, opts.replace_keys@) =~= Seq::empty());
        }
        match self.update_channel_aggregate_http(CONNECTION_CHANNEL, data, &opts, agent_id) {
            Ok(aggregate) => Ok((message, aggregate)),
            Err(e) => Err(e),
        }
    }

    /// Asks to publish a ping of a connection.
    pub fn ping_connection_at(&self, args: &PingConnectionArgs, now: u64) -> (r: Result<
        (ApiRequest, ApiRequest),
        DooverError,
    >)
        ensures
            writes_connection(self@, ping_doc(*args, now), args.agent_id, r),
    {
        self.write_connection(&ping_payload(args, now), args.agent_id)
    }

    /// Asks to write the configuration of a connection.
    pub fn update_connection_config(&self, config: &Value, agent_id: Option<u64>) -> (r: Result<
        (ApiRequest, ApiRequest),
        DooverError,
    >)
        ensures
            writes_connection(self@, Json::Obj(seq![("config"@, config@)]), agent_id, r),
    {
        self.write_connection(&single("config", config.clone()), agent_id)
    }
}

/// Whether two requests write a document to the connection of an agent: as a message,
/// and merged into the aggregate.
pub open spec fn writes_connection(
    v: ClientView,
    data: Json,
    agent: Option<u64>,
    r: Result<(ApiRequest, ApiRequest), DooverError>,
) -> bool {
    match r {
        Ok((message, aggregate)) => {
            &&& may_write(v, CONNECTION_CHANNEL@, data)
            &&& agent_for(v, agent) matches Some(id) && message.asks(
                Method::Post,
                channel_path(id, CONNECTION_CHANNEL@) + "/messages"@,
                Some(message_body(data, None)),
                Seq::empty(),
            ) && aggregate.asks(
                Method::Patch,
                channel_path(id, CONNECTION_CHANNEL@) + "/aggregate"@,
                Some(data),
                Seq::empty(),
            )
        },
        Err(e) => refused(v, Some((CONNECTION_CHANNEL@, data)), agent, e),
    }
}

/// The body of a new message.
pub open spec fn message_body(data: Json, timestamp: Option<u64>) -> Json {
    match timestamp {
        Some(ts) => Json::Obj(seq![("data"@, data), ("ts"@, Json::Int(ts as int))]),
        None => Json::Obj(seq![("data"@, data)]),
    }
}

/// The query of a list of messages.
pub open spec fn list_query(q: ListMessagesQuery) -> Seq<Param> {
    number_param(
        "before"@,
        match q.before {
            Some(n) => Some(n as nat),
            None => None,
        },
    ) + number_param(
        "after"@,
        match q.after {
            Some(n) => Some(n as nat),
            None => None,
        },
    ) + number_param(
        "limit"@,
        match q.limit {
            Some(n) => Some(n as nat),
            None => None,
        },
    ) + list_params("field_name"@, q.field_names@)
}

// ---- bodies --------------------------------------------------------------------

/// What `flate2` makes of bytes at a level: the gzip stream, or the message of
/// the error.
pub uninterp spec fn gzip_bytes(raw: Seq<u8>, level: u32) -> Result<Seq<u8>, Seq<char>>;

/// `flate2::write::GzEncoder` over the bytes: the same bytes and level always
/// give the same stream, whose header carries no time.
#[verifier::external_body]
fn gzip(raw: &[u8], level: u32) -> (r: Result<Vec<u8>, String>)
    requires
        level <= 9,
    ensures
        gzip_bytes(raw@, level) == (match r {
            Ok(out) => Ok::<Seq<u8>, Seq<char>>(out@),
            Err(m) => Err::<Seq<u8>, Seq<char>>(m@),
        }),
{
    let mut enc = flate2::write::GzEncoder::new(Vec::new(), flate2::Compression::new(level));
    enc.write_all(raw).and_then(|_| enc.finish()).map_err(|e: std::io::Error| e.to_string())
}

/// The body of a request as it is sent.
#[derive(Debug)]
pub enum RequestBody {
    Empty,
    Plain(String),
    Gzip(Vec<u8>),
}

/// Turns the outcome of the compression into a body.
pub fn compressed_body(outcome: Result<Vec<u8>, String>) -> (r: Result<RequestBody, DooverError>)
    ensures
        match r {
            Ok(b) => outcome matches Ok(out) && b == RequestBody::Gzip(out),
            Err(e) => outcome matches Err(m) && is_other(e, "gzip encode failed: "@ + m@),
        },
{
    match outcome {
        Ok(out) => Ok(RequestBody::Gzip(out)),
        Err(m) => Err(DooverError::Other(concat("gzip encode failed: ", m.as_str()))),
    }
}

/// Whether a text is compressed.
pub open spec fn compresses(compress: bool, bytes: Seq<u8>) -> bool {
    compress && bytes.len() >= MIN_COMPRESS_SIZE
}

/// Whether a body is what a text is sent as.
pub open spec fn sent_as(
    compress: bool,
    text: Seq<char>,
    r: Result<RequestBody, DooverError>,
) -> bool {
    let bytes = encode_utf8(text);
    if compresses(compress, bytes) {
        match gzip_bytes(bytes, GZIP_LEVEL) {
            Ok(z) => r matches Ok(RequestBody::Gzip(out)) && out@ == z,
            Err(m) => r matches Err(e) && is_other(e, "gzip encode failed: "@ + m),
        }
    } else {
        r matches Ok(RequestBody::Plain(t)) && t@ == text
    }
}

/// Prepares the text of a document for sending.
pub fn prepare_text(text: String, compress: bool) -> (r: Result<RequestBody, DooverError>)
    ensures
        sent_as(compress, text@, r),
{
    let raw = text.as_str().as_bytes();
    if compress && raw.len() >= MIN_COMPRESS_SIZE {
        compressed_body(gzip(raw, GZIP_LEVEL))
    } else {
        Ok(RequestBody::Plain(text))
    }
}

/// Prepares the body of a request: large ones are compressed.
pub fn prepare_body(body: Option<&Value>, compress: bool) -> (r: Result<RequestBody, DooverError>)
    ensures
        match body {
            None => r matches Ok(RequestBody::Empty),
            Some(v) => sent_as(compress, json_text(written(v@)), r),
        },
{
    match body {
        Some(v) => {
            let text = to_text(v);
            prepare_text(text, compress)
        },
        None => Ok(RequestBody::Empty),
    }
}

// ---- laws -----------------------------------------------------------------------

/// An invocation never writes to the channel that triggered it, unless that is
/// `tag_values` and every key written is this app's.
pub proof fn law_no_write_to_the_invoking_channel(v: ClientView, channel: Seq<char>, data: Json)
    requires
        v.invoking_channel == Some(channel),
        may_write(v, channel, data),
    ensures
        channel == TAG_CHANNEL_NAME@,
        forall|i: int|
            0 <= i < members(data).len() ==> Some((#[trigger] members(data)[i]).0) == v.app_key,
{
}

/// The guard concerns no other channel.
pub proof fn law_other_channels_may_be_written(v: ClientView, channel: Seq<char>, data: Json)
    requires
        v.invoking_channel != Some(channel),
    ensures
        may_write(v, channel, data),
{
}

/// An address without slashes at its end stays as it is.
pub proof fn law_address_is_cut_once(s: Seq<char>)
    ensures
        without_slashes(without_slashes(s)) == without_slashes(s),
    decreases s.len(),
{
    if s.len() > 0 && s.last() == '/' {
        law_address_is_cut_once(s.drop_last());
    }
}

} // verus!
