//! What a processor's handlers are given and asked: results, filters, pings,
//! and the decoding of what an ingestion endpoint delivers.
use base64::Engine;
use vstd::prelude::*;

use crate::api::data::{single, PingConnectionArgs};
use crate::channel_backend::AggregateOptions;
use crate::diff::tidy;
use crate::error::{is_invalid, DooverError};
use crate::json::{entries_of, field, insert, members, opt_doc, put, Json, Value};
use crate::json_text::{from_bytes, json_parse_bytes};
use crate::models::{ConnectionDetermination, ConnectionStatus};
use crate::processor::runner::ProcessorContext;
use crate::text::{concat, opt_chars, views};

verus! {

/// When an agent counts as offline, in seconds, if its config does not say.
pub const DEFAULT_OFFLINE_AFTER_SECS: u64 = 3600;

/// Whether a handler handled the event.
#[derive(Debug, Clone, Copy, PartialEq, Eq, Structural)]
pub enum Handled {
    /// It did.
    Done,
    /// There is no handler for this kind of event.
    NotImplemented,
}

/// Why an invocation did nothing on purpose.
#[derive(Debug, Clone, Copy, PartialEq, Eq, Structural)]
pub enum SkipReason {
    NoHandler,
    PreHookFilter,
    TagValuesSelfLoop,
    PostSetupFilter,
}

impl SkipReason {
    /// The name in the invocation summary.
    pub open spec fn name(self) -> Seq<char> {
        match self {
            SkipReason::NoHandler => "no_handler"@,
            SkipReason::PreHookFilter => "pre_hook_filter"@,
            SkipReason::TagValuesSelfLoop => "tag_values_self_loop"@,
            SkipReason::PostSetupFilter => "post_setup_filter"@,
        }
    }

    /// The name in the invocation summary.
    pub fn as_str(self) -> (r: &'static str)
        ensures
            r@ == self.name(),
    {
        match self {
            SkipReason::NoHandler => "no_handler",
            SkipReason::PreHookFilter => "pre_hook_filter",
            SkipReason::TagValuesSelfLoop => "tag_values_self_loop",
            SkipReason::PostSetupFilter => "post_setup_filter",
        }
    }
}

// ---- pings ---------------------------------------------------------------------

/// What a ping says of an agent.
#[derive(Debug, Clone, Copy, PartialEq, Eq, Structural)]
pub struct PingOptions {
    /// When the agent was last known online, in milliseconds; now if missing.
    pub online_at_ms: Option<u64>,
    pub connection_status: ConnectionStatus,
    /// When the agent is to count as offline, in milliseconds.
    pub offline_at_ms: Option<u64>,
}

impl Default for PingOptions {
    fn default() -> (o: Self)
        ensures
            o == (PingOptions {
                online_at_ms: None,
                connection_status: ConnectionStatus::PeriodicUnknown,
                offline_at_ms: None,
            }),
    {
        PingOptions {
            online_at_ms: None,
            connection_status: ConnectionStatus::PeriodicUnknown,
            offline_at_ms: None,
        }
    }
}

/// When the agent was last known online.
pub open spec fn online_at(o: PingOptions, now: u64) -> u64 {
    match o.online_at_ms {
        Some(t) => t,
        None => now,
    }
}

/// The unsigned integer that a key holds.
pub open spec fn unsigned_field(j: Json, k: Seq<char>) -> Option<u64> {
    match field(j, k) {
        Some(Json::Int(i)) => if 0 <= i <= u64::MAX {
            Some(i as u64)
        } else {
            None
        },
        _ => None,
    }
}

fn read_unsigned(v: &Value, key: &str) -> (r: Option<u64>)
    ensures
        r == unsigned_field(v@, key@),
{
    match v.get(key) {
        Some(x) => x.as_u64(),
        None => None,
    }
}

/// After how many seconds an agent counts as offline: from the deadline if one
/// is given, else from the connection's config, else an hour.
pub open spec fn offline_after(o: PingOptions, now: u64, config: Json) -> u64 {
    match o.offline_at_ms {
        Some(at) => if at >= online_at(o, now) {
            ((at - online_at(o, now)) as u64 / 1000) as u64
        } else {
            0
        },
        None => match unsigned_field(config, "offline_after"@) {
            Some(n) => n,
            None => DEFAULT_OFFLINE_AFTER_SECS,
        },
    }
}

/// Whether the agent counts as offline: it was online too long ago.
pub open spec fn is_offline(o: PingOptions, now: u64, config: Json) -> bool {
    now - online_at(o, now) > offline_after(o, now, config) * 1000
}

/// Whether a deadline changes a config that is there.
pub open spec fn changes_config(o: PingOptions, now: u64, config: Json) -> bool {
    o.offline_at_ms is Some && members(config).len() > 0 && unsigned_field(
        config,
        "offline_after"@,
    ) != Some(offline_after(o, now, config))
}

/// The config with a new deadline in it.
pub open spec fn changed_config(o: PingOptions, now: u64, config: Json) -> Json {
    Json::Obj(
        put(
            members(config),
            "offline_after"@,
            Json::Int(offline_after(o, now, config) as int),
        ),
    )
}

/// What a ping does: perhaps write a config, then publish the ping.
#[derive(Debug)]
pub struct PingPlan {
    /// The config to write first.
    pub config: Option<Value>,
    pub ping: PingConnectionArgs,
}

/// Decides what a ping does. A deadline that differs from the connection's
/// config is kept in it.
pub fn plan_ping(
    opts: &PingOptions,
    now: u64,
    config: &mut Value,
    app_key: &str,
    agent_id: u64,
) -> (p: PingPlan)
    ensures
        final(config)@ == (if changes_config(*opts, now, old(config)@) {
            changed_config(*opts, now, old(config)@)
        } else {
            old(config)@
        }),
        opt_doc(p.config) == (if changes_config(*opts, now, old(config)@) {
            Some(changed_config(*opts, now, old(config)@))
        } else {
            None
        }),
        p.ping.online_at_ms == online_at(*opts, now),
        p.ping.connection_status == opts.connection_status,
        p.ping.determination == (if is_offline(*opts, now, old(config)@) {
            ConnectionDetermination::Offline
        } else {
            ConnectionDetermination::Online
        }),
        p.ping.ping_at_ms is None,
        opt_chars(p.ping.user_agent) == Some("doover-rs-processor,app_key="@ + app_key@),
        p.ping.ip_address is None,
        p.ping.agent_id == Some(agent_id),
{
    let online: u64 = match opts.online_at_ms {
        Some(t) => t,
        None => now,
    };
    let stored = read_unsigned(config, "offline_after");
    let after: u64 = match opts.offline_at_ms {
        Some(at) => if at >= online {
            (at - online) / 1000
        } else {
            0
        },
        None => match stored {
            Some(n) => n,
            None => DEFAULT_OFFLINE_AFTER_SECS,
        },
    };
    let offline = now >= online && (now - online) as u128 > after as u128 * 1000;
    let mut update: Option<Value> = None;
    if opts.offline_at_ms.is_some() {
        let differs = match stored {
            Some(n) => n != after,
            None => true,
        };
        let mut entries: Vec<(String, Value)> = Vec::new();
        if let Value::Object(e) = &*config {
            proof {
                Value::lemma_object(*e);
            }
            entries = crate::json::copy_entries(e);
        } else {
            assert(entries_of(entries@) =~= Seq::empty());
        }
        assert(entries_of(entries@) == members(config@));
        if entries.len() > 0 && differs {
            assert(entries_of(entries@).len() > 0);
            insert(&mut entries, "offline_after", Value::unsigned(after));
            let doc = Value::object(entries);
            update = Some(doc.clone());
            *config = doc;
        } else {
            assert(entries_of(entries@).len() == entries@.len());
        }
    }
    let determination = if offline {
        ConnectionDetermination::Offline
    } else {
        ConnectionDetermination::Online
    };
    PingPlan {
        config: update,
        ping: PingConnectionArgs {
            online_at_ms: online,
            connection_status: opts.connection_status,
            determination,
            ping_at_ms: None,
            user_agent: Some(concat("doover-rs-processor,app_key=", app_key)),
            ip_address: None,
            agent_id: Some(agent_id),
        },
    }
}

// ---- interface schemas ------------------------------------------------------------

impl ProcessorContext {
    /// The write that publishes this app's interface schema. With `clear` the app's
    /// subtree is replaced instead of merged.
    pub fn publish_ui_schema(&self, schema: &Value, clear: bool) -> (r: (Value, AggregateOptions))
        ensures
            r.0@ == Json::Obj(
                seq![
                    (
                        "state"@,
                        Json::Obj(seq![("children"@, Json::Obj(seq![(self.app_key@, schema@)]))]),
                    ),
                ],
            ),
            r.1.max_age_ms == 0,
            !r.1.save_log,
            !r.1.replace_data,
            !r.1.clear_attachments,
            views(r.1.replace_keys@) == (if clear {
                seq!["state.children."@ + self.app_key@]
            } else {
                Seq::empty()
            }),
    {
        let app_key = self.app_key.as_str();
        let data = single("state", single("children", single(app_key, schema.clone())));
        let mut opts = AggregateOptions::default();
        if clear {
            opts.replace_keys.push(concat("state.children.", app_key));
            assert(views(opts.replace_keys@) =~= seq!["state.children."@ + app_key@]);
        } else {
            assert(views(opts.replace_keys@) =~= Seq::empty());
        }
        (data, opts)
    }
}

// ---- ingestion -------------------------------------------------------------------

/// What the standard base64 alphabet makes of a text: the bytes, or the message
/// of the error.
pub uninterp spec fn base64_bytes(text: Seq<char>) -> Result<Seq<u8>, Seq<char>>;

/// `decode` of `base64::engine::general_purpose::STANDARD`: the same text always
/// gives the same bytes, or the same error message.
#[verifier::external_body]
fn decode_base64(text: &str) -> (r: Result<Vec<u8>, String>)
    ensures
        base64_bytes(text@) == (match r {
            Ok(b) => Ok::<Seq<u8>, Seq<char>>(b@),
            Err(m) => Err::<Seq<u8>, Seq<char>>(m@),
        }),
{
    base64::engine::general_purpose::STANDARD.decode(text).map_err(|e| e.to_string())
}

/// The document that decoded bytes hold.
pub fn parse_decoded(decoded: Result<Vec<u8>, String>) -> (r: Result<Value, DooverError>)
    ensures
        match decoded {
            Ok(bytes) => match json_parse_bytes(bytes@) {
                Ok(j) => r matches Ok(v) && v@ == j,
                Err(m) => r matches Err(DooverError::Json(t)) && t@ == m,
            },
            Err(m) => r matches Err(e) && is_invalid(e, "bad base64: "@ + m@),
        },
        r matches Ok(v) ==> tidy(v@),
{
    match decoded {
        Ok(bytes) => match from_bytes(&bytes) {
            Ok(v) => Ok(v),
            Err(m) => Err(DooverError::Json(m)),
        },
        Err(m) => Err(DooverError::InvalidPayload(concat("bad base64: ", m.as_str()))),
    }
}

/// Decodes what an ingestion endpoint delivers: base64 around a JSON text.
pub fn parse_ingestion_payload(payload: &str) -> (r: Result<Value, DooverError>)
    ensures
        match base64_bytes(payload@) {
            Ok(bytes) => match json_parse_bytes(bytes) {
                Ok(j) => r matches Ok(v) && v@ == j,
                Err(m) => r matches Err(DooverError::Json(t)) && t@ == m,
            },
            Err(m) => r matches Err(e) && is_invalid(e, "bad base64: "@ + m),
        },
{
    parse_decoded(decode_base64(payload))
}

} // verus!
