//! What requests to the data API ask for, and what is made of their replies.
use vstd::prelude::*;
use vstd::utf8::encode_utf8;

use crate::api::data::{
    agent_for, bool_text, channel_path, endpoint, flag_param, fresh_client, list_params, list_query,
    may_write, message_body, message_path, number_param, ping_doc, refused, sent_as,
    without_slashes, writes_connection, ApiRequest, Channel, ClientView, ListMessagesQuery, Method,
    Param, PingConnectionArgs, RequestBody, gzip_bytes,
};
use crate::api::reply::{doubled, follows, means, Attempt, Step};
use crate::error::{is_other, DooverError};
use crate::json::{
    field, field2, field_or_null, lemma_at_add, lemma_at_one, lemma_first_is_position, members,
    opt_doc, str_field, Json,
};
use crate::json_text::json_parse_bytes;
use crate::models::{
    id_of, is_info, lemma_at_optional, opt_str_doc, optional_entry, Notification,
    NotificationSeverity, SubscriptionInfo,
};
use crate::text::{
    decimal, is_white, lemma_decimal_reads_back, lemma_trim_keeps, lemma_trimmed_padding,
};

verus! {

// ---- requests -----------------------------------------------------------------------------

/// A request for a channel goes to the agent's channel of that name, one for a message to
/// that message in it.
pub proof fn law_requests_go_to_their_channel(
    q: ApiRequest,
    method: Method,
    agent: u64,
    channel: Seq<char>,
    id: u64,
    end: Seq<char>,
    body: Option<Json>,
    query: Seq<Param>,
)
    ensures
        q.asks(method, channel_path(agent, channel) + end, body, query) ==> q.method == method
            && q.path@ == "/agents/"@ + decimal(agent as nat) + "/channels/"@ + channel + end
            && opt_doc(q.body) == body && q.query@.len() == query.len() && forall|i: int|
            0 <= i < query.len() ==> (#[trigger] q.query@[i]).0@ == query[i].0 && q.query@[i].1@
                == query[i].1,
        q.asks(method, message_path(agent, channel, id), body, query) ==> q.method == method
            && q.path@ == "/agents/"@ + decimal(agent as nat) + "/channels/"@ + channel
            + "/messages/"@ + decimal(id as nat) && opt_doc(q.body) == body,
{
    assert("/agents/"@ + decimal(agent as nat) + "/channels/"@ + channel + ("/messages/"@ + decimal(
        id as nat,
    )) =~= "/agents/"@ + decimal(agent as nat) + "/channels/"@ + channel + "/messages/"@ + decimal(
        id as nat,
    ));
    if q.asks(method, channel_path(agent, channel) + end, body, query) {
        assert forall|i: int| 0 <= i < query.len() implies (#[trigger] q.query@[i]).0@ == query[i].0
            && q.query@[i].1@ == query[i].1 by {
            assert(crate::api::data::params(q.query@)[i] == query[i]);
        }
    }
}

/// A request is for the agent that it names, else for the client's; without either it is
/// refused.
pub proof fn law_requests_name_their_agent(v: ClientView, explicit: Option<u64>)
    ensures
        explicit matches Some(id) ==> agent_for(v, explicit) == Some(id),
        explicit is None ==> agent_for(v, explicit) == v.agent_id,
{
}

/// While an invocation handles an event of a channel, exactly the writes to other channels
/// go through, and of those to `tag_values` the ones that name no app but this one. A
/// refused write is told why.
pub proof fn law_the_guard_refuses_exactly(
    v: ClientView,
    channel: Seq<char>,
    data: Json,
    agent: Option<u64>,
    e: DooverError,
)
    ensures
        may_write(v, channel, data) <==> v.invoking_channel != Some(channel) || (channel
            == "tag_values"@ && forall|i: int|
            0 <= i < members(data).len() ==> Some((#[trigger] members(data)[i]).0) == v.app_key),
        !may_write(v, channel, data) && refused(v, Some((channel, data)), agent, e) ==> is_other(
            e,
            if channel == "tag_values"@ {
                "Cannot publish to tag_values outside the scope of this app without explicit enable."@
            } else {
                "Cannot publish to the invoking channel."@
            },
        ),
        may_write(v, channel, data) && refused(v, Some((channel, data)), agent, e) ==> is_other(
            e,
            "agent_id must be provided either as a method argument or set on the client"@,
        ) && agent is None && v.agent_id is None,
{
}

/// A new client knows where the API is and nothing else; it tries three times, with a
/// second before the second try, and compresses what it sends. The API is where it is said
/// to be, else where the environment says, else at its usual place.
pub proof fn law_new_clients(url: Seq<char>, explicit: Option<String>, env: Option<String>)
    ensures
        ({
            let c = fresh_client(url);
            &&& c.max_retries == 3 && c.retry_delay_ms == 1000 && c.compress
            &&& c.token is None && c.agent_id is None && c.organisation_id is None
            &&& c.app_key is None && c.invoking_channel is None
            &&& c.base_url == without_slashes(url)
        }),
        explicit matches Some(u) ==> endpoint(explicit, env) == u@,
        explicit is None && (env matches Some(u) && u@.len() > 0) ==> endpoint(explicit, env)
            == env.unwrap()@,
        explicit is None && !(env matches Some(u) && u@.len() > 0) ==> endpoint(explicit, env)
            == "https://data.doover.com/api"@,
{
}

/// An address loses the slashes at its end and nothing else.
pub proof fn law_addresses_lose_their_last_slashes(s: Seq<char>)
    ensures
        ({
            let r = without_slashes(s);
            &&& r.len() <= s.len()
            &&& r == s.take(r.len() as int)
            &&& r.len() > 0 ==> r.last() != '/'
            &&& forall|i: int| r.len() <= i < s.len() ==> s[i] == '/'
        }),
    decreases s.len(),
{
    if s.len() > 0 && s.last() == '/' {
        let d = s.drop_last();
        law_addresses_lose_their_last_slashes(d);
        let r = without_slashes(s);
        assert(r =~= s.take(r.len() as int));
        assert forall|i: int| r.len() <= i < s.len() implies s[i] == '/' by {
            if i < d.len() {
                assert(d[i] == s[i]);
            }
        }
    } else {
        assert(s.take(s.len() as int) =~= s);
    }
}

/// A message is sent with its data, and with its time if it has one.
pub proof fn law_messages_carry_their_data(data: Json, timestamp: Option<u64>)
    ensures
        field(message_body(data, timestamp), "data"@) == Some(data),
        timestamp matches Some(t) ==> field(message_body(data, timestamp), "ts"@) == Some(
            Json::Int(t as int),
        ),
        timestamp is None ==> field(message_body(data, timestamp), "ts"@) is None,
{
    reveal_strlit("data");
    reveal_strlit("ts");
    assert("data"@.len() == 4 && "ts"@.len() == 2);
    lemma_at_one("data"@, data, "data"@);
    lemma_at_one("data"@, data, "ts"@);
    if let Some(t) = timestamp {
        let e = seq![("data"@, data), ("ts"@, Json::Int(t as int))];
        assert(e[0].0 == "data"@ && e[1].0 == "ts"@);
        lemma_first_is_position(e, "data"@, 0);
        lemma_first_is_position(e, "ts"@, 1);
    }
}

/// A listing asks for what lies before and after the given messages, for no more than the
/// limit, and for every named field; what is not given is not asked for.
pub proof fn law_listings_ask_for_what_is_given(q: ListMessagesQuery)
    ensures
        q.before matches Some(n) ==> list_query(q).contains(("before"@, decimal(n as nat))),
        q.after matches Some(n) ==> list_query(q).contains(("after"@, decimal(n as nat))),
        q.limit matches Some(n) ==> list_query(q).contains(("limit"@, decimal(n as nat))),
        forall|i: int|
            0 <= i < q.field_names@.len() ==> list_query(q).contains(
                ("field_name"@, (#[trigger] q.field_names@[i])@),
            ),
        list_query(q).len() == (if q.before is Some {
            1int
        } else {
            0
        }) + (if q.after is Some {
            1int
        } else {
            0
        }) + (if q.limit is Some {
            1int
        } else {
            0
        }) + q.field_names@.len(),
{
    let a = number_param(
        "before"@,
        match q.before {
            Some(n) => Some(n as nat),
            None => None,
        },
    );
    let b = number_param(
        "after"@,
        match q.after {
            Some(n) => Some(n as nat),
            None => None,
        },
    );
    let c = number_param(
        "limit"@,
        match q.limit {
            Some(n) => Some(n as nat),
            None => None,
        },
    );
    let d = list_params("field_name"@, q.field_names@);
    let all = list_query(q);
    assert(all =~= a + b + c + d);
    if let Some(n) = q.before {
        assert(all[0] == ("before"@, decimal(n as nat)));
    }
    if let Some(n) = q.after {
        assert(all[a.len() as int] == ("after"@, decimal(n as nat)));
    }
    if let Some(n) = q.limit {
        assert(all[(a.len() + b.len()) as int] == ("limit"@, decimal(n as nat)));
    }
    assert forall|i: int| 0 <= i < q.field_names@.len() implies all.contains(
        ("field_name"@, (#[trigger] q.field_names@[i])@),
    ) by {
        assert(all[a.len() + b.len() + c.len() + i] == ("field_name"@, q.field_names@[i]@));
    }
}

/// A flag is asked for exactly if it is set, and every value of a list is asked for, in
/// order.
pub proof fn law_flags_and_lists_are_asked_for(name: Seq<char>, set: bool, values: Seq<String>)
    ensures
        set ==> flag_param(name, set) == seq![(name, "true"@)],
        !set ==> flag_param(name, set).len() == 0,
        list_params(name, values).len() == values.len(),
        forall|i: int|
            0 <= i < values.len() ==> #[trigger] list_params(name, values)[i] == (name, values[i]@),
{
}

/// A body is compressed exactly if the client compresses and the body has at least 50
/// bytes; otherwise it goes out as its text.
pub proof fn law_large_bodies_are_compressed(
    compress: bool,
    text: Seq<char>,
    r: Result<RequestBody, DooverError>,
)
    requires
        sent_as(compress, text, r),
    ensures
        !(compress && encode_utf8(text).len() >= 50) ==> (r matches Ok(RequestBody::Plain(t)) && t@
            == text),
        compress && encode_utf8(text).len() >= 50 ==> (match gzip_bytes(encode_utf8(text), 6) {
            Ok(z) => r matches Ok(RequestBody::Gzip(out)) && out@ == z,
            Err(m) => r matches Err(e) && is_other(e, "gzip encode failed: "@ + m),
        }),
{
}

/// A sign of life goes out as a message and into the aggregate of the connection channel,
/// with the same document.
pub proof fn law_connections_are_written_twice(
    v: ClientView,
    data: Json,
    agent: Option<u64>,
    r: Result<(ApiRequest, ApiRequest), DooverError>,
)
    requires
        writes_connection(v, data, agent, r),
    ensures
        r matches Ok((message, aggregate)) ==> (agent_for(v, agent) matches Some(id) && {
            let channel = "/agents/"@ + decimal(id as nat) + "/channels/"@ + "doover_connection"@;
            &&& message.method == Method::Post
            &&& message.path@ == channel + "/messages"@
            &&& opt_doc(message.body) == Some(Json::Obj(seq![("data"@, data)]))
            &&& aggregate.method == Method::Patch
            &&& aggregate.path@ == channel + "/aggregate"@
            &&& opt_doc(aggregate.body) == Some(data)
        }),
        r is Ok <==> (v.invoking_channel != Some("doover_connection"@) && agent_for(v, agent)
            is Some),
{
    reveal_strlit("doover_connection");
    reveal_strlit("tag_values");
    assert("doover_connection"@.len() == 17 && "tag_values"@.len() == 10);
}

/// A ping says how the device is connected, when it was last online and last heard of, with
/// what it was made and from where.
pub proof fn law_pings_say_how_a_device_is(args: PingConnectionArgs, now: u64)
    ensures
        ({
            let d = ping_doc(args, now);
            &&& field2(d, "status"@, "status"@) == Some(Json::Str(args.connection_status.name()))
            &&& field2(d, "status"@, "last_online"@) == Some(Json::Int(args.online_at_ms as int))
            &&& field2(d, "status"@, "last_ping"@) == Some(
                Json::Int(
                    match args.ping_at_ms {
                        Some(t) => t as int,
                        None => now as int,
                    },
                ),
            )
            &&& field2(d, "status"@, "user_agent"@) == Some(
                Json::Str(
                    match args.user_agent {
                        Some(u) => u@,
                        None => "doover-rs-processor"@,
                    },
                ),
            )
            &&& field2(d, "status"@, "ip"@) == Some(
                match args.ip_address {
                    Some(ip) => Json::Str(ip@),
                    None => Json::Null,
                },
            )
            &&& field(d, "determination"@) == Some(Json::Str(args.determination.name()))
        }),
{
    reveal_strlit("status");
    reveal_strlit("last_online");
    reveal_strlit("last_ping");
    reveal_strlit("user_agent");
    reveal_strlit("ip");
    reveal_strlit("determination");
    assert("status"@.len() == 6 && "last_online"@.len() == 11 && "last_ping"@.len() == 9);
    assert("user_agent"@.len() == 10 && "ip"@.len() == 2 && "determination"@.len() == 13);
    let e = ping_doc(args, now)->Obj_0;
    assert(e[0].0 == "status"@ && e[1].0 == "determination"@);
    lemma_first_is_position(e, "status"@, 0);
    lemma_first_is_position(e, "determination"@, 1);
    let s = e[0].1->Obj_0;
    assert(s[0].0 == "status"@ && s[1].0 == "last_online"@ && s[2].0 == "last_ping"@ && s[3].0
        == "user_agent"@ && s[4].0 == "ip"@);
    lemma_first_is_position(s, "status"@, 0);
    lemma_first_is_position(s, "last_online"@, 1);
    lemma_first_is_position(s, "last_ping"@, 2);
    lemma_first_is_position(s, "user_agent"@, 3);
    lemma_first_is_position(s, "ip"@, 4);
}

// ---- replies --------------------------------------------------------------------------------

/// What follows on a try: a success is read, the empty reply as nothing; a server error or
/// no reply at all is tried again while tries are left; anything else ends the request with
/// its error. The pause before the second try is the delay, and doubles with each try.
pub proof fn law_tries_are_answered(
    attempt: u32,
    max_retries: u32,
    delay: u64,
    a: Attempt,
    s: Step,
)
    requires
        follows(attempt, max_retries, delay, a, s),
        attempt < max_retries,
    ensures
        ({
            let again = match a {
                Attempt::Failed(status, _) => status >= 500,
                Attempt::Unreachable(_) => true,
                Attempt::Replied(_) => false,
                Attempt::Broken(_) => false,
            };
            &&& s is Retry <==> again && attempt + 1 < max_retries
            &&& s is Retry ==> s == Step::Retry(doubled(delay as nat, attempt as nat) as u64)
            &&& s is Retry && attempt == 0 ==> s == Step::Retry(delay)
            &&& a matches Attempt::Replied(bytes) ==> (if bytes@.len() == 0 {
                s == Step::Finish(Ok(None))
            } else {
                match json_parse_bytes(bytes@) {
                    Ok(j) => s matches Step::Finish(Ok(Some(v))) && v@ == j,
                    Err(m) => s matches Step::Finish(Err(DooverError::Json(t))) && t@ == m,
                }
            })
            &&& a matches Attempt::Broken(m) ==> s == Step::Finish(Err(DooverError::Request(m)))
            &&& (a matches Attempt::Unreachable(m) && attempt + 1 >= max_retries) ==> s
                == Step::Finish(Err(DooverError::Request(a->Unreachable_0)))
        }),
{
}

// ---- models ------------------------------------------------------------------------------------

/// An id is read whether it is written as a number or as its digits, with white space
/// around them or not; nothing else is an id.
pub proof fn law_ids_are_read(n: u64, before: Seq<char>, after: Seq<char>, j: Json)
    requires
        forall|i: int| 0 <= i < before.len() ==> is_white(#[trigger] before[i]),
        forall|i: int| 0 <= i < after.len() ==> is_white(#[trigger] after[i]),
    ensures
        id_of(Some(Json::Int(n as int))) == Some(n),
        id_of(Some(Json::Str(decimal(n as nat)))) == Some(n),
        id_of(Some(Json::Str(before + decimal(n as nat) + after))) == Some(n),
        id_of(None) is None,
        !(j is Int) && !(j is Str) ==> id_of(Some(j)) is None,
        (j matches Json::Int(i) && i < 0) ==> id_of(Some(j)) is None,
{
    let d = decimal(n as nat);
    lemma_decimal_reads_back(n as nat);
    lemma_trim_keeps(d);
    lemma_trimmed_padding(before, d, after);
}

/// What a token was traded for is read from its document, and is there exactly if it names
/// an agent, an app and a token.
pub proof fn law_upgrades_are_read(r: Result<SubscriptionInfo, DooverError>, d: Json)
    requires
        is_info(r, d),
    ensures
        r is Ok <==> id_of(field(d, "agent_id"@)) is Some && str_field(d, "app_key"@) is Some
            && str_field(d, "token"@) is Some,
        r matches Ok(info) ==> {
            &&& id_of(field(d, "agent_id"@)) == Some(info.agent_id)
            &&& str_field(d, "app_key"@) == Some(info.app_key@)
            &&& str_field(d, "token"@) == Some(info.token@)
            &&& info.organisation_id == id_of(field(d, "organisation_id"@))
            &&& info.deployment_config@ == field_or_null(d, "deployment_config"@)
            &&& info.tag_values@ == field_or_null(d, "tag_values"@)
            &&& info.ui_state@ == field_or_null(d, "ui_state"@)
            &&& info.ui_cmds@ == field_or_null(d, "ui_cmds"@)
            &&& info.connection_data@ == field_or_null(d, "connection_data"@)
        },
{
}

/// A channel is read from its document: its name, its owner, whether it is private, and
/// the data of its aggregate unless that is null.
pub proof fn law_channels_are_read(c: Channel, raw: Json)
    requires
        c.reads(raw),
    ensures
        str_field(raw, "name"@) == Some(c.name@),
        id_of(field(raw, "owner_id"@)) matches Some(n) ==> c.owner_id == n,
        c.is_private <==> field(raw, "is_private"@) == Some(Json::Bool(true)),
        field2(raw, "aggregate"@, "data"@) matches Some(x) ==> (x is Null ==> c.aggregate_data
            is None) && (!(x is Null) ==> opt_doc(c.aggregate_data) == Some(x)),
        field2(raw, "aggregate"@, "data"@) is None ==> c.aggregate_data is None,
        c.raw@ == raw,
{
}

/// A notification's document has its message, and its title, severity and topic exactly if
/// they are set. The severities are numbered 3 to 7, from trace to critical.
pub proof fn law_notifications_say_what_is_set(n: Notification)
    ensures
        ({
            let d = Json::Obj(n.entries());
            &&& field(d, "message"@) == Some(Json::Str(n.message@))
            &&& n.title is None ==> field(d, "title"@) is None
            &&& n.title matches Some(t) ==> field(d, "title"@) == Some(Json::Str(t@))
            &&& n.topic is None ==> field(d, "topic"@) is None
            &&& n.topic matches Some(t) ==> field(d, "topic"@) == Some(Json::Str(t@))
            &&& n.severity is None ==> field(d, "severity"@) is None
            &&& n.severity matches Some(s) ==> field(d, "severity"@) == Some(
                Json::Int(
                    match s {
                        NotificationSeverity::Trace => 3,
                        NotificationSeverity::Debug => 4,
                        NotificationSeverity::Info => 5,
                        NotificationSeverity::Warn => 6,
                        NotificationSeverity::Critical => 7,
                    },
                ),
            )
        }),
{
    reveal_strlit("message");
    reveal_strlit("title");
    reveal_strlit("severity");
    reveal_strlit("topic");
    assert("message"@.len() == 7 && "severity"@.len() == 8);
    assert("title"@.len() == 5 && "topic"@.len() == 5 && "title"@[1] == 'i' && "topic"@[1] == 'o');
    let sev = match n.severity {
        Some(s) => Some(Json::Int(s.level())),
        None => None,
    };
    let a = seq![("message"@, Json::Str(n.message@))];
    let b = optional_entry("title"@, opt_str_doc(n.title));
    let c = optional_entry("severity"@, sev);
    let d = optional_entry("topic"@, opt_str_doc(n.topic));
    assert forall|q: Seq<char>|
        #[trigger] field(Json::Obj(n.entries()), q) == (if q == "message"@ {
            Some(Json::Str(n.message@))
        } else if q == "title"@ {
            opt_str_doc(n.title)
        } else if q == "severity"@ {
            sev
        } else if q == "topic"@ {
            opt_str_doc(n.topic)
        } else {
            None
        }) by {
        lemma_at_one("message"@, Json::Str(n.message@), q);
        lemma_at_optional("title"@, opt_str_doc(n.title), q);
        lemma_at_optional("severity"@, sev, q);
        lemma_at_optional("topic"@, opt_str_doc(n.topic), q);
        lemma_at_add(a, b, q);
        lemma_at_add(a + b, c, q);
        lemma_at_add(a + b + c, d, q);
    }
    assert(field(Json::Obj(n.entries()), "message"@) is Some);
    assert(field(Json::Obj(n.entries()), "title"@) == opt_str_doc(n.title));
    assert(field(Json::Obj(n.entries()), "severity"@) == sev);
    assert(field(Json::Obj(n.entries()), "topic"@) == opt_str_doc(n.topic));
}

// ---- failures ------------------------------------------------------------------------------

/// What was not found is said to be so; every other failed status is told with its code. The
/// text of the reply is kept.
pub proof fn law_failed_statuses_are_told(e: DooverError, status: u16, text: Seq<char>)
    requires
        means(e, status, text),
    ensures
        e.kind() == (if status == 404 {
            "NotFoundError"@
        } else {
            "HTTPError"@
        }),
        e.text() == (if status == 404 {
            "not found: "@ + text
        } else {
            "agent error "@ + decimal(status as nat) + ": "@ + text
        }),
{
}

/// Truth values are asked for in words.
pub proof fn law_truth_values_are_words(b: bool)
    ensures
        bool_text(b) == (if b {
            "true"@
        } else {
            "false"@
        }),
{
}

/// Where something is missing from what a token was traded for, the first thing missing is
/// told: the agent, the app, or the token.
pub proof fn law_missing_parts_of_upgrades_are_told(
    r: Result<SubscriptionInfo, DooverError>,
    d: Json,
)
    requires
        is_info(r, d),
        r is Err,
    ensures
        r->Err_0.kind() == "InvalidPayload"@,
        id_of(field(d, "agent_id"@)) is None ==> r->Err_0.text()
            == "invalid payload: "@ + "SubscriptionInfo missing agent_id"@,
        id_of(field(d, "agent_id"@)) is Some && str_field(d, "app_key"@) is None ==> r->Err_0.text()
            == "invalid payload: "@ + "SubscriptionInfo missing app_key"@,
        id_of(field(d, "agent_id"@)) is Some && str_field(d, "app_key"@) is Some
            ==> r->Err_0.text() == "invalid payload: "@ + "SubscriptionInfo missing token"@,
{
}

} // verus!
