//! The framework's part of a processor's deployment config.
use vstd::prelude::*;

use crate::json::{entries_of, field, Entries, Json, Value};
use crate::models::{id_of, value_as_id};

verus! {

/// One destination of the invocation summary.
#[derive(Debug, Clone)]
pub struct InvocationPublishTarget {
    /// The agent to post for; this agent if missing.
    pub agent_id: Option<u64>,
    /// The channel; `$app_id` stands for the app's id.
    pub channel: String,
}

/// The config that the framework reads.
#[derive(Debug, Clone)]
pub struct ProcConfig {
    pub log_level: String,
    pub log_overrides: Vec<(String, Value)>,
    /// Where the invocation summary goes; none disables it.
    pub inv_targets: Vec<InvocationPublishTarget>,
    pub live_logs: bool,
}

/// The model of a destination.
pub type Target = (Option<u64>, Seq<char>);

/// The model of the config.
#[verifier::ext_equal]
pub struct ConfigView {
    pub log_level: Seq<char>,
    pub log_overrides: Entries,
    pub inv_targets: Seq<Target>,
    pub live_logs: bool,
}

/// The models of a list of destinations.
pub open spec fn target_views(list: Seq<InvocationPublishTarget>) -> Seq<Target> {
    Seq::new(list.len(), |i: int| (list[i].agent_id, list[i].channel@))
}

impl View for ProcConfig {
    type V = ConfigView;

    open spec fn view(&self) -> ConfigView {
        ConfigView {
            log_level: self.log_level@,
            log_overrides: entries_of(self.log_overrides@),
            inv_targets: target_views(self.inv_targets@),
            live_logs: self.live_logs,
        }
    }
}

/// The config of an app that sets none.
pub open spec fn default_config() -> ConfigView {
    ConfigView {
        log_level: "INFO"@,
        log_overrides: Seq::empty(),
        inv_targets: seq![(None, "dv-proc-inv-$app_id"@)],
        live_logs: false,
    }
}

/// The destination that a document describes: an object with a channel, or a
/// pair of agent id and channel.
pub open spec fn target_of(j: Json) -> Option<Target> {
    match j {
        Json::Obj(_) => match field(j, "channel"@) {
            Some(Json::Str(c)) => Some((id_of(field(j, "agent_id"@)), c)),
            _ => None,
        },
        Json::Arr(a) => if a.len() == 2 && a[1] is Str {
            Some((id_of(Some(a[0])), a[1]->Str_0))
        } else {
            None
        },
        _ => None,
    }
}

/// The destinations that documents describe, if every one does.
pub open spec fn targets_of(a: Seq<Json>) -> Option<Seq<Target>>
    decreases a.len(),
{
    if a.len() == 0 {
        Some(Seq::empty())
    } else {
        match (targets_of(a.drop_last()), target_of(a.last())) {
            (Some(before), Some(t)) => Some(before.push(t)),
            _ => None,
        }
    }
}

/// The config that an object describes; nothing if a field has the wrong type.
pub open spec fn config_of(j: Json) -> Option<ConfigView> {
    let level = match field(j, "log_level"@) {
        None => Some(default_config().log_level),
        Some(Json::Str(s)) => Some(s),
        Some(_) => None,
    };
    let overrides = match field(j, "log_overrides"@) {
        None => Some(default_config().log_overrides),
        Some(Json::Obj(e)) => Some(e),
        Some(_) => None,
    };
    let targets = match field(j, "inv_targets"@) {
        None => Some(default_config().inv_targets),
        Some(Json::Arr(a)) => targets_of(a),
        Some(_) => None,
    };
    let live = match field(j, "live_logs"@) {
        None => Some(default_config().live_logs),
        Some(Json::Bool(b)) => Some(b),
        Some(_) => None,
    };
    match (level, overrides, targets, live) {
        (Some(log_level), Some(log_overrides), Some(inv_targets), Some(live_logs)) => Some(
            ConfigView { log_level, log_overrides, inv_targets, live_logs },
        ),
        _ => None,
    }
}

impl Default for ProcConfig {
    fn default() -> (c: Self)
        ensures
            c@ == default_config(),
    {
        let mut targets: Vec<InvocationPublishTarget> = Vec::new();
        targets.push(
            InvocationPublishTarget { agent_id: None, channel: "dv-proc-inv-$app_id".to_owned() },
        );
        let c = ProcConfig {
            log_level: "INFO".to_owned(),
            log_overrides: Vec::new(),
            inv_targets: targets,
            live_logs: false,
        };
        assert(c@ =~= default_config());
        c
    }
}

fn read_target(v: &Value) -> (r: Option<InvocationPublishTarget>)
    ensures
        match r {
            Some(t) => target_of(v@) == Some((t.agent_id, t.channel@)),
            None => target_of(v@) is None,
        },
{
    match v {
        Value::Object(_) => match v.get_string("channel") {
            Some(channel) => Some(
                InvocationPublishTarget { agent_id: value_as_id(v.get("agent_id")), channel },
            ),
            None => None,
        },
        Value::Array(items) => {
            if items.len() != 2 {
                return None;
            }
            match items[1].as_str() {
                Some(channel) => Some(
                    InvocationPublishTarget {
                        agent_id: value_as_id(Some(&items[0])),
                        channel: channel.to_owned(),
                    },
                ),
                None => None,
            }
        },
        _ => None,
    }
}

proof fn lemma_targets_prefix(a: Seq<Json>, k: int)
    requires
        0 <= k <= a.len(),
        targets_of(a.take(k)) is None,
    ensures
        targets_of(a) is None,
    decreases a.len() - k,
{
    if k < a.len() {
        assert(a.take(k + 1).drop_last() =~= a.take(k));
        lemma_targets_prefix(a, k + 1);
    } else {
        assert(a.take(k) =~= a);
    }
}

fn read_targets(items: &Vec<Value>, Ghost(a): Ghost<Seq<Json>>) -> (r: Option<
    Vec<InvocationPublishTarget>,
>)
    requires
        a == crate::json::docs(items@),
    ensures
        match r {
            Some(list) => targets_of(a) == Some(target_views(list@)),
            None => targets_of(a) is None,
        },
{
    let mut list: Vec<InvocationPublishTarget> = Vec::new();
    let mut i: usize = 0;
    assert(a.take(0) =~= Seq::empty());
    assert(target_views(list@) =~= Seq::empty());
    while i < items.len()
        invariant
            i <= items@.len(),
            a == crate::json::docs(items@),
            targets_of(a.take(i as int)) == Some(target_views(list@)),
        decreases items@.len() - i,
    {
        let ghost before = target_views(list@);
        proof {
            assert(a.take(i as int + 1).drop_last() =~= a.take(i as int));
            assert(a.take(i as int + 1).last() == items@[i as int]@);
        }
        match read_target(&items[i]) {
            Some(t) => {
                let ghost view: Target = (t.agent_id, t.channel@);
                list.push(t);
                assert(target_views(list@) =~= before.push(view));
            },
            None => {
                proof {
                    lemma_targets_prefix(a, i as int + 1);
                }
                return None;
            },
        }
        i += 1;
    }
    assert(a.take(a.len() as int) =~= a);
    Some(list)
}

fn read_config(v: &Value) -> (r: Option<ProcConfig>)
    ensures
        match r {
            Some(c) => config_of(v@) == Some(c@),
            None => config_of(v@) is None,
        },
{
    let fallback = ProcConfig::default();
    let log_level = match v.get("log_level") {
        None => fallback.log_level,
        Some(level) => match level.as_str() {
            Some(s) => s.to_owned(),
            None => {
                return None;
            },
        },
    };
    let log_overrides: Vec<(String, Value)> = match v.get("log_overrides") {
        None => fallback.log_overrides,
        Some(Value::Object(entries)) => {
            proof {
                Value::lemma_object(*entries);
            }
            crate::json::copy_entries(entries)
        },
        Some(_) => {
            return None;
        },
    };
    let inv_targets: Vec<InvocationPublishTarget> = match v.get("inv_targets") {
        None => fallback.inv_targets,
        Some(Value::Array(items)) => {
            proof {
                Value::lemma_array(*items);
            }
            match read_targets(items, Ghost(crate::json::docs(items@))) {
                Some(list) => list,
                None => {
                    return None;
                },
            }
        },
        Some(_) => {
            return None;
        },
    };
    let live_logs = match v.get("live_logs") {
        None => false,
        Some(flag) => match flag.as_bool() {
            Some(b) => b,
            None => {
                return None;
            },
        },
    };
    Some(ProcConfig { log_level, log_overrides, inv_targets, live_logs })
}

impl ProcConfig {
    /// Reads the config; what is missing, null or invalid gives the defaults.
    pub fn from_value(value: Option<&Value>) -> (c: ProcConfig)
        ensures
            c@ == (match value {
                Some(v) => if v@ is Obj && config_of(v@) is Some {
                    config_of(v@).unwrap()
                } else {
                    default_config()
                },
                None => default_config(),
            }),
    {
        if let Some(v) = value {
            if v.is_object() {
                if let Some(c) = read_config(v) {
                    return c;
                }
            }
        }
        ProcConfig::default()
    }
}

} // verus!
