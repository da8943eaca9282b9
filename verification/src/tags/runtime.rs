//! The tag manager of a device application.
//!
//! Writes are buffered and published once per loop iteration. A write that does
//! not change anything is skipped. What is logged goes into one of two buckets:
//! the immediate one, written at the end of the loop, and the periodic one,
//! written every fifteen minutes. How old a publish may get depends on whether
//! anyone has the application open.
use vstd::prelude::*;

use crate::diff::{applied, apply_diff, apply_diff_in_place, changed, generate_diff};
use crate::events::{Event, CHANNEL_SYNC};
use crate::json::{
    blank, empty_obj, entries_of, field, field2, members, opt_doc, Entries, Json, Value,
};
use crate::text::{concat, joined, same};

use crate::tags::key_path::{found, strip_paths, stripped, tag_path, wrapped, KeyPath};
use crate::tags::triggers::{
    any_fires, trigger_views, read_key, reading, LogTrigger, SetView, StateView, TriggerSet,
};

verus! {

/// The channel that tag values live on.
pub const TAG_CHANNEL_NAME: &'static str = "tag_values";

/// The channel that live tags are streamed to.
pub const LIVE_TAG_CHANNEL_NAME: &'static str = "tag_values";

/// The channel on which viewers claim what they have open.
pub const UI_SUB_CHANNEL_NAME: &'static str = "dv-ui-sub";

/// A claim older than this many milliseconds is dropped.
pub const UI_SUB_FRESH_MS: u64 = 120_000;

/// How old a publish may get, in seconds, while nobody has the app open.
pub const TAG_CLOUD_MAX_AGE: u32 = 900;

/// How old a publish may get, in seconds, while someone has the app open.
pub const TAG_OBSERVED_MAX_AGE: u32 = 3;

/// The time between two periodic logs, in milliseconds.
pub const LOG_INTERVAL_MS: u64 = 900_000;

/// How a tag is written.
#[derive(Debug, Clone, Copy, PartialEq, Eq, Structural)]
pub struct SetTagOptions {
    /// Skip the write when the value is what is there already.
    pub only_if_changed: bool,
    /// Publish at once instead of at the end of the loop.
    pub flush: bool,
    /// Log the write at the end of this loop.
    pub log: bool,
}

impl Default for SetTagOptions {
    fn default() -> (o: Self)
        ensures
            o == (SetTagOptions { only_if_changed: true, flush: false, log: false }),
    {
        SetTagOptions { only_if_changed: true, flush: false, log: false }
    }
}

/// The tag manager.
#[derive(Debug)]
pub struct TagsRuntime {
    app_key: String,
    tag_values: Value,
    pending_aggregate: Value,
    pending_log: Value,
    pending_immediate_log: Value,
    dirty: bool,
    last_log_flush: Option<u64>,
    live_tag_keys: Vec<KeyPath>,
    ui_sub: Value,
    subscriptions: Vec<(KeyPath, u64)>,
    log_triggers: Vec<(KeyPath, TriggerSet)>,
}

/// A path as its segments.
pub type Path = Seq<Seq<char>>;

/// The model of the tag manager.
#[verifier::ext_equal]
pub struct RuntimeView {
    pub app_key: Seq<char>,
    /// The channel's tags as last seen.
    pub tag_values: Json,
    /// Writes that wait for the end of the loop.
    pub pending_aggregate: Json,
    /// Changes that wait for the periodic log.
    pub pending_log: Json,
    /// Changes that wait for the log at the end of this loop.
    pub pending_immediate_log: Json,
    pub dirty: bool,
    pub last_log_flush: Option<u64>,
    pub live_tag_keys: Seq<Path>,
    pub ui_sub: Json,
    pub subscriptions: Seq<(Path, u64)>,
    pub log_triggers: Seq<(Path, SetView)>,
}

/// The paths of a list of keys.
pub open spec fn paths(keys: Seq<KeyPath>) -> Seq<Path> {
    Seq::new(keys.len(), |i: int| keys[i]@)
}

impl View for TagsRuntime {
    type V = RuntimeView;

    closed spec fn view(&self) -> RuntimeView {
        RuntimeView {
            app_key: self.app_key@,
            tag_values: self.tag_values@,
            pending_aggregate: self.pending_aggregate@,
            pending_log: self.pending_log@,
            pending_immediate_log: self.pending_immediate_log@,
            dirty: self.dirty,
            last_log_flush: self.last_log_flush,
            live_tag_keys: paths(self.live_tag_keys@),
            ui_sub: self.ui_sub@,
            subscriptions: Seq::new(
                self.subscriptions@.len(),
                |i: int| (self.subscriptions@[i].0@, self.subscriptions@[i].1),
            ),
            log_triggers: Seq::new(
                self.log_triggers@.len(),
                |i: int| (self.log_triggers@[i].0@, self.log_triggers@[i].1@),
            ),
        }
    }
}

/// What became of a write.
#[derive(Debug)]
pub enum SetOutcome {
    /// Nothing differed, so nothing was written.
    Unchanged,
    /// The write waits for the end of the loop.
    Buffered,
    /// The document must be published now.
    Publish(Value),
}

// ---- the model of reads and writes -----------------------------------------------

/// The tags as an application sees them: the channel's, overlaid with what is
/// pending.
pub open spec fn current(v: RuntimeView) -> Json {
    applied(v.tag_values, v.pending_aggregate, false)
}

/// The manager after an event of the tag channel: the tags are what the event says. A
/// sync without tags says that there are none; any other event without them says
/// nothing.
pub open spec fn after_tag_event(v: RuntimeView, is_sync: bool, payload: Json) -> RuntimeView {
    match field2(payload, "aggregate"@, "data"@) {
        Some(data) => RuntimeView { tag_values: data, ..v },
        None => if is_sync {
            RuntimeView { tag_values: empty_obj(), ..v }
        } else {
            v
        },
    }
}

/// Whether a write is skipped.
pub open spec fn skips(v: RuntimeView, tags: Json, o: SetTagOptions) -> bool {
    o.only_if_changed && blank(changed(current(v), tags))
}

/// The manager after a write was buffered.
pub open spec fn buffered(v: RuntimeView, tags: Json, o: SetTagOptions) -> RuntimeView {
    RuntimeView {
        pending_immediate_log: if o.log {
            applied(v.pending_immediate_log, tags, false)
        } else {
            v.pending_immediate_log
        },
        pending_log: if o.log {
            stripped(v.pending_log, tags)
        } else {
            applied(v.pending_log, tags, false)
        },
        pending_aggregate: applied(v.pending_aggregate, tags, false),
        dirty: v.dirty || !o.flush,
        ..v
    }
}

/// The manager after a write.
pub open spec fn after_set(v: RuntimeView, tags: Json, o: SetTagOptions) -> RuntimeView {
    if skips(v, tags, o) {
        v
    } else {
        buffered(v, tags, o)
    }
}

/// Whether an outcome is what a write has.
pub open spec fn set_outcome(v: RuntimeView, tags: Json, o: SetTagOptions, r: SetOutcome) -> bool {
    if skips(v, tags, o) {
        r is Unchanged
    } else if o.flush {
        r matches SetOutcome::Publish(payload) && payload@ == buffered(v, tags, o).pending_aggregate
    } else {
        r is Buffered
    }
}

/// The position of the triggers of a path.
pub open spec fn triggers_from(list: Seq<(Path, SetView)>, path: Path, from: int) -> Option<int>
    decreases list.len() - from,
{
    if from < 0 || from >= list.len() {
        None
    } else if list[from].0 == path {
        Some(from)
    } else {
        triggers_from(list, path, from + 1)
    }
}

/// The triggers of a path.
pub open spec fn triggers_of(v: RuntimeView, path: Path) -> Option<SetView> {
    match triggers_from(v.log_triggers, path, 0) {
        Some(i) => Some(v.log_triggers[i].1),
        None => None,
    }
}

/// How many triggers a path has.
pub open spec fn trigger_count(v: RuntimeView, path: Path) -> nat {
    match triggers_of(v, path) {
        Some(s) => s.triggers.len(),
        None => 0,
    }
}

/// The document that the triggers of a path compare a write with.
pub open spec fn trigger_prev(v: RuntimeView, path: Path, s: SetView) -> Json {
    match found(path, current(v)) {
        Some(j) => j,
        None => match s.default {
            Some(d) => d,
            None => Json::Null,
        },
    }
}

/// Whether a write to a path fires one of its triggers.
pub open spec fn write_fires(v: RuntimeView, path: Path, new: Json, far: Seq<bool>) -> bool {
    match triggers_of(v, path) {
        Some(s) => any_fires(s, trigger_prev(v, path, s), new, far),
        None => false,
    }
}

/// The triggers of a path after a write: every one has seen the new value.
pub open spec fn set_after(s: SetView, new: Json, far: Seq<bool>) -> SetView {
    SetView {
        states: Seq::new(
            s.triggers.len(),
            |i: int| s.triggers[i].after(new, far[i], s.states[i]),
        ),
        ..s
    }
}

/// The manager after the triggers of a path have seen a write.
pub open spec fn after_triggers(
    v: RuntimeView,
    path: Path,
    new: Json,
    far: Seq<bool>,
) -> RuntimeView {
    match triggers_from(v.log_triggers, path, 0) {
        Some(i) => RuntimeView {
            log_triggers: v.log_triggers.update(i, (path, set_after(v.log_triggers[i].1, new, far))),
            ..v
        },
        None => v,
    }
}

/// The options of a write, logged if a trigger fired.
pub open spec fn promoted(o: SetTagOptions, fired: bool) -> SetTagOptions {
    SetTagOptions { log: o.log || fired, ..o }
}

/// `triggers_from` finds the first entry of a path, or there is none.
pub proof fn lemma_triggers_from(list: Seq<(Path, SetView)>, path: Path, from: int)
    requires
        0 <= from,
    ensures
        match triggers_from(list, path, from) {
            Some(i) => from <= i < list.len() && list[i].0 == path && forall|j: int|
                from <= j < i ==> (#[trigger] list[j]).0 != path,
            None => forall|j: int| from <= j < list.len() ==> (#[trigger] list[j]).0 != path,
        },
    decreases list.len() - from,
{
    if from < list.len() && list[from].0 != path {
        lemma_triggers_from(list, path, from + 1);
    }
}

// ---- the model of observation ------------------------------------------------------

/// When a claim was made: its `ts`, or the claim itself where it is no object.
pub open spec fn claim_time(entry: Json) -> Option<int> {
    match entry {
        Json::Obj(_) => match field(entry, "ts"@) {
            Some(ts) => reading(ts),
            None => None,
        },
        _ => reading(entry),
    }
}

/// Whether a claim is fresh: made less than the limit before `now`.
pub open spec fn is_fresh(entry: Json, now: u64) -> bool {
    match (claim_time(entry), reading(Json::Int(now - UI_SUB_FRESH_MS))) {
        (Some(ts), Some(limit)) => ts > limit,
        _ => false,
    }
}

/// The claims in a bucket.
pub open spec fn claims(ui_sub: Json, bucket: Seq<char>) -> Entries {
    match field(ui_sub, bucket) {
        Some(j) => members(j),
        None => Seq::empty(),
    }
}

/// Whether some claim in the bucket is fresh.
pub open spec fn bucket_open(ui_sub: Json, bucket: Seq<char>, now: u64) -> bool {
    let e = claims(ui_sub, bucket);
    exists|i: int| 0 <= i < e.len() && is_fresh((#[trigger] e[i]).1, now)
}

/// Whether a claim lists a name under a key.
pub open spec fn lists(entry: Json, key: Seq<char>, name: Seq<char>) -> bool {
    field(entry, key) matches Some(Json::Arr(a)) && exists|i: int|
        0 <= i < a.len() && #[trigger] a[i] == Json::Str(name)
}

/// Whether a fresh claim in the bucket lists a name under a key.
pub open spec fn claimed(
    ui_sub: Json,
    bucket: Seq<char>,
    key: Seq<char>,
    name: Seq<char>,
    now: u64,
) -> bool {
    let e = claims(ui_sub, bucket);
    exists|i: int|
        0 <= i < e.len() && is_fresh((#[trigger] e[i]).1, now) && lists(e[i].1, key, name)
}

/// Whether someone has the app open.
pub open spec fn app_open(v: RuntimeView, now: u64) -> bool {
    v.app_key.len() > 0 && claimed(v.ui_sub, "app_open"@, "apps"@, v.app_key, now)
}

/// Whether someone has a tag in live mode.
pub open spec fn live_open(v: RuntimeView, name: Seq<char>, now: u64) -> bool {
    claimed(v.ui_sub, "live_tag_open"@, "tags"@, name, now)
}

/// What is streamed of the live tags: the ones in live mode that have a value.
pub open spec fn live_doc(v: RuntimeView, keys: Seq<Path>, now: u64) -> Json
    decreases keys.len(),
{
    if keys.len() == 0 {
        empty_obj()
    } else {
        let before = live_doc(v, keys.drop_last(), now);
        let path = keys.last();
        if live_open(v, joined(path, "."@), now) {
            match found(path, current(v)) {
                Some(value) => applied(before, wrapped(path, value), false),
                None => before,
            }
        } else {
            before
        }
    }
}

/// The subscribers that a change concerns, each with what changed at its path.
pub open spec fn notified(subs: Seq<(Path, u64)>, diff: Json) -> Seq<(Path, u64, Json)>
    decreases subs.len(),
{
    if subs.len() == 0 {
        Seq::empty()
    } else {
        let before = notified(subs.drop_last(), diff);
        match found(subs.last().0, diff) {
            Some(j) => before.push((subs.last().0, subs.last().1, j)),
            None => before,
        }
    }
}

/// The notices as documents.
pub open spec fn notices(list: Seq<(KeyPath, u64, Value)>) -> Seq<(Path, u64, Json)> {
    Seq::new(list.len(), |i: int| (list[i].0@, list[i].1, list[i].2@))
}

/// The entries whose path is another.
pub open spec fn others<T>(list: Seq<(Path, T)>, path: Path) -> Seq<(Path, T)>
    decreases list.len(),
{
    if list.len() == 0 {
        Seq::empty()
    } else {
        let before = others(list.drop_last(), path);
        if list.last().0 == path {
            before
        } else {
            before.push(list.last())
        }
    }
}

/// The messages of a history: every point that has tags, under the app's key.
pub open spec fn history(app_key: Seq<char>, points: Seq<(u64, Value)>) -> Seq<(u64, Json)>
    decreases points.len(),
{
    if points.len() == 0 {
        Seq::empty()
    } else {
        let before = history(app_key, points.drop_last());
        let (at, tags) = points.last();
        if blank(tags@) {
            before
        } else {
            before.push(
                (
                    at,
                    if app_key.len() == 0 {
                        tags@
                    } else {
                        Json::Obj(seq![(app_key, tags@)])
                    },
                ),
            )
        }
    }
}

// ---- observation ----------------------------------------------------------------

fn fresh_limit(now: u64) -> (v: Value)
    ensures
        v@ == Json::Int(now - UI_SUB_FRESH_MS),
{
    if now >= UI_SUB_FRESH_MS {
        Value::unsigned(now - UI_SUB_FRESH_MS)
    } else {
        let below: u64 = UI_SUB_FRESH_MS - now;
        Value::signed(-(below as i64))
    }
}

pub(crate) fn fresh(entry: &Value, now: u64) -> (r: bool)
    ensures
        r == is_fresh(entry@, now),
{
    let limit = fresh_limit(now);
    let ts: Option<i64> = if entry.is_object() {
        match entry.get("ts") {
            Some(ts) => read_key(ts),
            None => None,
        }
    } else {
        read_key(entry)
    };
    match (ts, read_key(&limit)) {
        (Some(ts), Some(limit)) => ts > limit,
        _ => false,
    }
}

fn has_fresh(ui_sub: &Value, bucket: &str, now: u64) -> (r: bool)
    ensures
        r == bucket_open(ui_sub@, bucket@, now),
{
    match ui_sub.get(bucket) {
        Some(Value::Object(entries)) => {
            proof {
                Value::lemma_object(*entries);
            }
            let ghost e = entries_of(entries@);
            let mut i: usize = 0;
            while i < entries.len()
                invariant
                    i <= entries@.len(),
                    e == entries_of(entries@),
                    claims(ui_sub@, bucket@) == e,
                    forall|j: int| 0 <= j < i ==> !is_fresh((#[trigger] e[j]).1, now),
                decreases entries@.len() - i,
            {
                if fresh(&entries[i].1, now) {
                    assert(i < e.len() && is_fresh(e[i as int].1, now));
                    return true;
                }
                assert(!is_fresh(e[i as int].1, now));
                i += 1;
            }
            false
        },
        _ => false,
    }
}

fn names(entry: &Value, key: &str, name: &str) -> (r: bool)
    ensures
        r == lists(entry@, key@, name@),
{
    match entry.get(key) {
        Some(Value::Array(items)) => {
            let ghost a = field(entry@, key@).unwrap()->Arr_0;
            let mut i: usize = 0;
            while i < items.len()
                invariant
                    i <= items@.len(),
                    a.len() == items@.len(),
                    field(entry@, key@) == Some(Json::Arr(a)),
                    forall|j: int| 0 <= j < a.len() ==> #[trigger] a[j] == items@[j]@,
                    forall|j: int| 0 <= j < i ==> #[trigger] a[j] != Json::Str(name@),
                decreases items@.len() - i,
            {
                assert(a[i as int] == items@[i as int]@);
                if let Some(s) = items[i].as_str() {
                    if same(s, name) {
                        assert(a[i as int] == Json::Str(name@));
                        return true;
                    }
                }
                assert(a[i as int] != Json::Str(name@));
                i += 1;
            }
            false
        },
        _ => false,
    }
}

pub(crate) fn has_claim(ui_sub: &Value, bucket: &str, key: &str, name: &str, now: u64) -> (r: bool)
    ensures
        r == claimed(ui_sub@, bucket@, key@, name@, now),
{
    match ui_sub.get(bucket) {
        Some(Value::Object(entries)) => {
            proof {
                Value::lemma_object(*entries);
            }
            let ghost e = entries_of(entries@);
            let mut i: usize = 0;
            while i < entries.len()
                invariant
                    i <= entries@.len(),
                    e == entries_of(entries@),
                    claims(ui_sub@, bucket@) == e,
                    forall|j: int|
                        0 <= j < i ==> !(is_fresh((#[trigger] e[j]).1, now) && lists(
                            e[j].1,
                            key@,
                            name@,
                        )),
                decreases entries@.len() - i,
            {
                if fresh(&entries[i].1, now) && names(&entries[i].1, key, name) {
                    assert(i < e.len() && is_fresh(e[i as int].1, now));
                    return true;
                }
                assert(!(is_fresh(e[i as int].1, now) && lists(e[i as int].1, key@, name@)));
                i += 1;
            }
            false
        },
        _ => false,
    }
}

fn keep_others<T>(list: Vec<(KeyPath, T)>, path: &KeyPath) -> (out: Vec<(KeyPath, T)>)
    ensures
        Seq::new(out@.len(), |i: int| (out@[i].0@, out@[i].1)) == others(
            Seq::new(list@.len(), |i: int| (list@[i].0@, list@[i].1)),
            path@,
        ),
{
    let ghost all = Seq::new(list@.len(), |i: int| (list@[i].0@, list@[i].1));
    let ghost n = list@.len();
    let mut rest: Vec<(KeyPath, T)> = list;
    let mut out: Vec<(KeyPath, T)> = Vec::new();
    let ghost mut k: int = 0;
    assert(Seq::new(out@.len(), |i: int| (out@[i].0@, out@[i].1)) =~= others(all.take(0), path@));
    while rest.len() > 0
        invariant
            k + rest@.len() == n,
            all.len() == n,
            forall|i: int|
                0 <= i < rest@.len() ==> (#[trigger] rest@[i]).0@ == all[k + i].0 && rest@[i].1
                    == all[k + i].1,
            0 <= k,
            Seq::new(out@.len(), |i: int| (out@[i].0@, out@[i].1)) == others(all.take(k), path@),
        decreases rest@.len(),
    {
        let ghost before = Seq::new(out@.len(), |i: int| (out@[i].0@, out@[i].1));
        let entry = rest.remove(0);
        proof {
            assert(entry.0@ == all[k].0 && entry.1 == all[k].1);
            assert(all.take(k + 1).drop_last() =~= all.take(k));
            assert(all.take(k + 1).last() == all[k]);
        }
        if !entry.0.same_path(path) {
            out.push(entry);
            assert(Seq::new(out@.len(), |i: int| (out@[i].0@, out@[i].1)) =~= before.push(all[k]));
        }
        proof {
            k = k + 1;
        }
    }
    assert(all.take(n as int) =~= all);
    out
}

impl TagsRuntime {
    /// Every trigger set has one state for each of its triggers.
    pub closed spec fn wf(&self) -> bool {
        forall|i: int| 0 <= i < self.log_triggers@.len() ==> (#[trigger] self.log_triggers@[i]).1.wf()
    }

    /// A manager with nothing in it.
    pub fn new(app_key: &str) -> (t: Self)
        ensures
            t.wf(),
            t@ == (RuntimeView {
                app_key: app_key@,
                tag_values: empty_obj(),
                pending_aggregate: empty_obj(),
                pending_log: empty_obj(),
                pending_immediate_log: empty_obj(),
                dirty: false,
                last_log_flush: None,
                live_tag_keys: Seq::empty(),
                ui_sub: empty_obj(),
                subscriptions: Seq::empty(),
                log_triggers: Seq::empty(),
            }),
    {
        let t = TagsRuntime {
            app_key: app_key.to_owned(),
            tag_values: Value::empty_object(),
            pending_aggregate: Value::empty_object(),
            pending_log: Value::empty_object(),
            pending_immediate_log: Value::empty_object(),
            dirty: false,
            last_log_flush: None,
            live_tag_keys: Vec::new(),
            ui_sub: Value::empty_object(),
            subscriptions: Vec::new(),
            log_triggers: Vec::new(),
        };
        assert(t@.live_tag_keys =~= Seq::empty());
        assert(t@.subscriptions =~= Seq::empty());
        assert(t@.log_triggers =~= Seq::empty());
        t
    }

    /// The key of the application.
    pub fn app_key(&self) -> (r: &str)
        ensures
            r@ == self@.app_key,
    {
        self.app_key.as_str()
    }

    /// Takes the boot state of the tag channel over.
    pub fn on_tag_sync(&mut self, event: &Event)
        requires
            old(self).wf(),
        ensures
            final(self).wf(),
            final(self)@ == (RuntimeView {
                tag_values: match field2(event.payload@, "aggregate"@, "data"@) {
                    Some(data) => data,
                    None => empty_obj(),
                },
                ..old(self)@
            }),
    {
        self.tag_values = match event.aggregate_data() {
            Some(data) => data.clone(),
            None => Value::empty_object(),
        };
    }

    /// Takes an update of the tag channel over. Returns the subscribers whose
    /// path is in what changed, each with what changed there.
    pub fn on_tag_update(&mut self, event: &Event) -> (r: Vec<(KeyPath, u64, Value)>)
        requires
            old(self).wf(),
        ensures
            final(self).wf(),
            match field2(event.payload@, "aggregate"@, "data"@) {
                None => final(self)@ == old(self)@ && r@.len() == 0,
                Some(data) => {
                    let diff = changed(old(self)@.tag_values, data);
                    &&& final(self)@ == (RuntimeView { tag_values: data, ..old(self)@ })
                    &&& notices(r@) == (if blank(diff) {
                        Seq::empty()
                    } else {
                        notified(old(self)@.subscriptions, diff)
                    })
                },
            },
    {
        let mut r: Vec<(KeyPath, u64, Value)> = Vec::new();
        assert(notices(r@) =~= Seq::empty());
        let data = match event.aggregate_data() {
            Some(data) => data,
            None => {
                return r;
            },
        };
        let diff = generate_diff(&self.tag_values, data);
        self.tag_values = data.clone();
        if diff.is_blank() {
            return r;
        }
        let ghost subs = self@.subscriptions;
        let mut i: usize = 0;
        assert(subs.take(0) =~= Seq::empty());
        while i < self.subscriptions.len()
            invariant
                i <= self.subscriptions@.len(),
                subs == self@.subscriptions,
                notices(r@) == notified(subs.take(i as int), diff@),
            decreases self.subscriptions@.len() - i,
        {
            let ghost before = notices(r@);
            proof {
                assert(subs.take(i as int + 1).drop_last() =~= subs.take(i as int));
                assert(subs.take(i as int + 1).last() == subs[i as int]);
            }
            if let Some(at) = self.subscriptions[i].0.lookup(&diff) {
                r.push((self.subscriptions[i].0.clone(), self.subscriptions[i].1, at.clone()));
                assert(notices(r@) =~= before.push((subs[i as int].0, subs[i as int].1, at@)));
            }
            i += 1;
        }
        assert(subs.take(subs.len() as int) =~= subs);
        r
    }

    /// Takes any event of the tag channel over.
    pub fn on_tag_event(&mut self, event: &Event) -> (r: Vec<(KeyPath, u64, Value)>)
        requires
            old(self).wf(),
        ensures
            final(self).wf(),
            final(self)@ == after_tag_event(
                old(self)@,
                event.event_name@ == CHANNEL_SYNC@,
                event.payload@,
            ),
            if event.event_name@ == CHANNEL_SYNC@ {
                r@.len() == 0
            } else {
                match field2(event.payload@, "aggregate"@, "data"@) {
                    None => r@.len() == 0,
                    Some(data) => {
                        let diff = changed(old(self)@.tag_values, data);
                        notices(r@) == (if blank(diff) {
                            Seq::empty()
                        } else {
                            notified(old(self)@.subscriptions, diff)
                        })
                    },
                }
            },
    {
        if event.is_channel_sync() {
            self.on_tag_sync(event);
            Vec::new()
        } else {
            self.on_tag_update(event)
        }
    }

    /// Takes what viewers have open over.
    pub fn on_ui_sub(&mut self, event: &Event)
        requires
            old(self).wf(),
        ensures
            final(self).wf(),
            final(self)@ == (match field2(event.payload@, "aggregate"@, "data"@) {
                Some(data) => RuntimeView { ui_sub: data, ..old(self)@ },
                None => old(self)@,
            }),
    {
        if let Some(data) = event.aggregate_data() {
            self.ui_sub = data.clone();
        }
    }

    /// Registers a subscriber for a tag; an earlier one for the path is dropped.
    pub fn subscribe_to_tag(&mut self, app_key: &str, key: &str, subscriber: u64)
        requires
            old(self).wf(),
        ensures
            final(self).wf(),
            final(self)@ == (RuntimeView {
                subscriptions: others(old(self)@.subscriptions, tag_path(app_key@, key@)).push(
                    (tag_path(app_key@, key@), subscriber),
                ),
                ..old(self)@
            }),
    {
        let path = KeyPath::tag(app_key, key);
        let ghost was = self@;
        let mut list: Vec<(KeyPath, u64)> = Vec::new();
        list.append(&mut self.subscriptions);
        assert(Seq::new(list@.len(), |i: int| (list@[i].0@, list@[i].1)) =~= was.subscriptions);
        let mut kept = keep_others(list, &path);
        let ghost before = Seq::new(kept@.len(), |i: int| (kept@[i].0@, kept@[i].1));
        let ghost p = path@;
        kept.push((path, subscriber));
        self.subscriptions = kept;
        assert(self@.subscriptions =~= before.push((p, subscriber)));
        assert(self@ =~= RuntimeView { subscriptions: self@.subscriptions, ..was });
    }

    /// Registers the triggers of a tag, in their initial state; earlier ones for
    /// the path are dropped.
    pub fn register_log_triggers(
        &mut self,
        app_key: &str,
        key: &str,
        triggers: Vec<LogTrigger>,
        default: Option<Value>,
    )
        requires
            old(self).wf(),
        ensures
            final(self).wf(),
            final(self)@ == (RuntimeView {
                log_triggers: final(self)@.log_triggers,
                ..old(self)@
            }),
            final(self)@.log_triggers == others(
                old(self)@.log_triggers,
                tag_path(app_key@, key@),
            ).push(
                (
                    tag_path(app_key@, key@),
                    SetView {
                        triggers: trigger_views(triggers@),
                        states: Seq::new(
                            triggers@.len(),
                            |i: int| (StateView { sides: None, last_logged: None }),
                        ),
                        default: opt_doc(default),
                    },
                ),
            ),
    {
        let path = KeyPath::tag(app_key, key);
        let ghost was = self@;
        let ghost old_list = self.log_triggers@;
        let mut rest: Vec<(KeyPath, TriggerSet)> = Vec::new();
        rest.append(&mut self.log_triggers);
        let mut out: Vec<(KeyPath, TriggerSet)> = Vec::new();
        let ghost all = was.log_triggers;
        let ghost mut k: int = 0;
        assert(Seq::new(out@.len(), |i: int| (out@[i].0@, out@[i].1@)) =~= others(
            all.take(0),
            path@,
        ));
        while rest.len() > 0
            invariant
                0 <= k,
                k + rest@.len() == all.len(),
                forall|i: int|
                    0 <= i < rest@.len() ==> (#[trigger] rest@[i]).0@ == all[k + i].0
                        && rest@[i].1@ == all[k + i].1 && rest@[i].1.wf(),
                forall|i: int| 0 <= i < out@.len() ==> (#[trigger] out@[i]).1.wf(),
                Seq::new(out@.len(), |i: int| (out@[i].0@, out@[i].1@)) == others(
                    all.take(k),
                    path@,
                ),
            decreases rest@.len(),
        {
            let ghost before = Seq::new(out@.len(), |i: int| (out@[i].0@, out@[i].1@));
            let entry = rest.remove(0);
            proof {
                assert(entry.0@ == all[k].0 && entry.1@ == all[k].1);
                assert(all.take(k + 1).drop_last() =~= all.take(k));
                assert(all.take(k + 1).last() == all[k]);
            }
            if !entry.0.same_path(&path) {
                out.push(entry);
                assert(Seq::new(out@.len(), |i: int| (out@[i].0@, out@[i].1@)) =~= before.push(
                    all[k],
                ));
            }
            proof {
                k = k + 1;
            }
        }
        assert(all.take(all.len() as int) =~= all);
        let ghost before = Seq::new(out@.len(), |i: int| (out@[i].0@, out@[i].1@));
        let ghost p = path@;
        let set = TriggerSet::new(triggers, default);
        out.push((path, set));
        self.log_triggers = out;
        assert(self@.log_triggers =~= before.push((p, set@)));
        assert(self@ =~= RuntimeView { log_triggers: self@.log_triggers, ..was });
    }

    fn find_triggers(&self, path: &KeyPath) -> (r: Option<usize>)
        ensures
            match r {
                Some(i) => i < self.log_triggers@.len() && triggers_from(
                    self@.log_triggers,
                    path@,
                    0,
                ) == Some(i as int),
                None => triggers_from(self@.log_triggers, path@, 0) is None,
            },
    {
        let ghost list = self@.log_triggers;
        proof {
            lemma_triggers_from(list, path@, 0);
        }
        let mut i: usize = 0;
        while i < self.log_triggers.len()
            invariant
                i <= self.log_triggers@.len(),
                list == self@.log_triggers,
                match triggers_from(list, path@, 0) {
                    Some(p) => 0 <= p < list.len() && list[p].0 == path@ && forall|j: int|
                        0 <= j < p ==> (#[trigger] list[j]).0 != path@,
                    None => forall|j: int| 0 <= j < list.len() ==> (#[trigger] list[j]).0 != path@,
                },
                forall|j: int| 0 <= j < i ==> (#[trigger] list[j]).0 != path@,
            decreases self.log_triggers@.len() - i,
        {
            assert(list[i as int].0 == self.log_triggers@[i as int].0@);
            if self.log_triggers[i].0.same_path(path) {
                return Some(i);
            }
            i += 1;
        }
        None
    }

    /// The triggers of a tag, with the baseline of each.
    pub fn triggers_for(&self, app_key: &str, key: &str) -> (r: Option<&TriggerSet>)
        requires
            self.wf(),
        ensures
            match r {
                Some(s) => triggers_of(self@, tag_path(app_key@, key@)) == Some(s@) && s.wf(),
                None => triggers_of(self@, tag_path(app_key@, key@)) is None,
            },
    {
        let path = KeyPath::tag(app_key, key);
        match self.find_triggers(&path) {
            Some(i) => Some(&self.log_triggers[i].1),
            None => None,
        }
    }

    /// Shows a write to every trigger of its path and says whether any fired.
    pub fn evaluate_log_triggers(
        &mut self,
        path: &KeyPath,
        new: &Value,
        far: &Vec<bool>,
    ) -> (fired: bool)
        requires
            old(self).wf(),
            far@.len() == trigger_count(old(self)@, path@),
        ensures
            final(self).wf(),
            fired == write_fires(old(self)@, path@, new@, far@),
            final(self)@ == after_triggers(old(self)@, path@, new@, far@),
    {
        let ghost was = self@;
        let i: usize = match self.find_triggers(path) {
            Some(i) => i,
            None => {
                return false;
            },
        };
        proof {
            lemma_triggers_from(was.log_triggers, path@, 0);
        }
        let now = apply_diff(&self.tag_values, &self.pending_aggregate, false);
        let prev = path.lookup(&now);
        let mut list: Vec<(KeyPath, TriggerSet)> = Vec::new();
        list.append(&mut self.log_triggers);
        let ghost all = list@;
        let (key, mut set) = list.remove(i);
        let ghost set_was = set@;
        let fired = set.evaluate(prev, new, far);
        assert(set@.states =~= set_after(set_was, new@, far@).states);
        list.insert(i, (key, set));
        assert(list@ =~= all.update(i as int, (key, set)));
        self.log_triggers = list;
        proof {
            assert forall|j: int| 0 <= j < self.log_triggers@.len() implies (
            #[trigger] self.log_triggers@[j]).1.wf() by {
                if j != i {
                    assert(self.log_triggers@[j] == all[j]);
                }
            }
            assert(self@.log_triggers =~= was.log_triggers.update(
                i as int,
                (path@, set_after(set_was, new@, far@)),
            ));
            assert(self@ =~= after_triggers(was, path@, new@, far@));
        }
        fired
    }

    /// Registers the paths of the live tags.
    pub fn set_live_tags(&mut self, keys: Vec<KeyPath>)
        requires
            old(self).wf(),
        ensures
            final(self).wf(),
            final(self)@ == (RuntimeView { live_tag_keys: paths(keys@), ..old(self)@ }),
    {
        self.live_tag_keys = keys;
    }

    /// Whether anyone has a claim on this agent.
    pub fn is_being_observed(&self, now: u64) -> (r: bool)
        ensures
            r == (bucket_open(self@.ui_sub, "agent_open"@, now) || bucket_open(
                self@.ui_sub,
                "group_open"@,
                now,
            ) || bucket_open(self@.ui_sub, "app_open"@, now) || bucket_open(
                self@.ui_sub,
                "live_tag_open"@,
                now,
            )),
    {
        has_fresh(&self.ui_sub, "agent_open", now) || has_fresh(&self.ui_sub, "group_open", now)
            || has_fresh(&self.ui_sub, "app_open", now) || has_fresh(
            &self.ui_sub,
            "live_tag_open",
            now,
        )
    }

    /// Whether anyone has this agent's page open.
    pub fn is_agent_open(&self, now: u64) -> (r: bool)
        ensures
            r == bucket_open(self@.ui_sub, "agent_open"@, now),
    {
        has_fresh(&self.ui_sub, "agent_open", now)
    }

    /// Whether anyone views a context that shows this agent.
    pub fn is_group_open(&self, now: u64) -> (r: bool)
        ensures
            r == bucket_open(self@.ui_sub, "group_open"@, now),
    {
        has_fresh(&self.ui_sub, "group_open", now)
    }

    /// Whether anyone has this application open.
    pub fn is_app_open(&self, now: u64) -> (r: bool)
        ensures
            r == app_open(self@, now),
    {
        if self.app_key.as_str().is_empty() {
            return false;
        }
        has_claim(&self.ui_sub, "app_open", "apps", self.app_key.as_str(), now)
    }

    /// Whether anyone has a tag in live mode. Without an app key the tag is one
    /// of this application.
    pub fn is_live_tag_open(&self, tag_name: &str, app_key: Option<&str>, now: u64) -> (r: bool)
        ensures
            ({
                let key = match app_key {
                    Some(k) => k@,
                    None => self@.app_key,
                };
                r == live_open(
                    self@,
                    if key.len() == 0 {
                        tag_name@
                    } else {
                        key + "."@ + tag_name@
                    },
                    now,
                )
            }),
    {
        let key = match app_key {
            Some(k) => k,
            None => self.app_key.as_str(),
        };
        if key.is_empty() {
            has_claim(&self.ui_sub, "live_tag_open", "tags", tag_name, now)
        } else {
            let mut name = concat(key, ".");
            name.append(tag_name);
            has_claim(&self.ui_sub, "live_tag_open", "tags", name.as_str(), now)
        }
    }

    /// How old a publish may get, in seconds.
    pub fn max_age_secs(&self, now: u64) -> (r: u32)
        ensures
            r == (if app_open(self@, now) {
                TAG_OBSERVED_MAX_AGE
            } else {
                TAG_CLOUD_MAX_AGE
            }),
    {
        if self.is_app_open(now) {
            TAG_OBSERVED_MAX_AGE
        } else {
            TAG_CLOUD_MAX_AGE
        }
    }

    /// Reads a tag: the channel's value, overlaid with what is pending.
    pub fn get_tag(&self, app_key: &str, key: &str) -> (r: Option<Value>)
        ensures
            opt_doc(r) == found(tag_path(app_key@, key@), current(self@)),
    {
        let path = KeyPath::tag(app_key, key);
        let now = apply_diff(&self.tag_values, &self.pending_aggregate, false);
        match path.lookup(&now) {
            Some(v) => Some(v.clone()),
            None => None,
        }
    }

    /// Writes one tag. Its triggers see the value first, and the write is logged
    /// if one of them fires.
    pub fn set_tag(
        &mut self,
        app_key: &str,
        key: &str,
        value: Value,
        opts: &SetTagOptions,
        far: &Vec<bool>,
    ) -> (r: SetOutcome)
        requires
            old(self).wf(),
            far@.len() == trigger_count(old(self)@, tag_path(app_key@, key@)),
        ensures
            final(self).wf(),
            ({
                let path = tag_path(app_key@, key@);
                let fired = write_fires(old(self)@, path, value@, far@);
                let mid = after_triggers(old(self)@, path, value@, far@);
                let o = promoted(*opts, fired);
                &&& final(self)@ == after_set(mid, wrapped(path, value@), o)
                &&& set_outcome(mid, wrapped(path, value@), o, r)
            }),
    {
        let path = KeyPath::tag(app_key, key);
        let fired = self.evaluate_log_triggers(&path, &value, far);
        let opts = SetTagOptions {
            only_if_changed: opts.only_if_changed,
            flush: opts.flush,
            log: opts.log || fired,
        };
        let nested = path.construct(value);
        self.set_nested_tags(&nested, &opts)
    }

    /// Writes tags given as one nested document.
    pub fn set_nested_tags(&mut self, tags: &Value, opts: &SetTagOptions) -> (r: SetOutcome)
        requires
            old(self).wf(),
        ensures
            final(self).wf(),
            final(self)@ == after_set(old(self)@, tags@, *opts),
            set_outcome(old(self)@, tags@, *opts, r),
    {
        if opts.only_if_changed {
            let now = apply_diff(&self.tag_values, &self.pending_aggregate, false);
            let diff = generate_diff(&now, tags);
            if diff.is_blank() {
                return SetOutcome::Unchanged;
            }
        }
        if opts.log {
            apply_diff_in_place(&mut self.pending_immediate_log, tags, false);
            strip_paths(&mut self.pending_log, tags);
        } else {
            apply_diff_in_place(&mut self.pending_log, tags, false);
        }
        apply_diff_in_place(&mut self.pending_aggregate, tags, false);
        if opts.flush {
            SetOutcome::Publish(self.pending_aggregate.clone())
        } else {
            self.dirty = true;
            SetOutcome::Buffered
        }
    }

    /// Takes over that the document of [`SetOutcome::Publish`] was published.
    pub fn published(&mut self)
        requires
            old(self).wf(),
        ensures
            final(self).wf(),
            final(self)@ == (RuntimeView {
                tag_values: applied(old(self)@.tag_values, old(self)@.pending_aggregate, true),
                dirty: false,
                ..old(self)@
            }),
    {
        self.tag_values = apply_diff(&self.tag_values, &self.pending_aggregate, true);
        self.dirty = false;
    }

    /// What the end of the loop publishes, if anything was written since the
    /// last time; the buffer starts anew.
    pub fn flush_tags(&mut self) -> (r: Option<Value>)
        requires
            old(self).wf(),
        ensures
            final(self).wf(),
            if old(self)@.dirty {
                &&& opt_doc(r) == Some(old(self)@.pending_aggregate)
                &&& final(self)@ == (RuntimeView {
                    dirty: false,
                    pending_aggregate: empty_obj(),
                    ..old(self)@
                })
            } else {
                r is None && final(self)@ == old(self)@
            },
    {
        if !self.dirty {
            return None;
        }
        self.dirty = false;
        let data = self.pending_aggregate.clone();
        self.pending_aggregate = Value::empty_object();
        Some(data)
    }

    /// Takes over that the document of [`TagsRuntime::flush_tags`] was published.
    pub fn flushed(&mut self, data: &Value)
        requires
            old(self).wf(),
        ensures
            final(self).wf(),
            final(self)@ == (RuntimeView {
                tag_values: applied(old(self)@.tag_values, data@, true),
                ..old(self)@
            }),
    {
        apply_diff_in_place(&mut self.tag_values, data, true);
    }

    /// What is streamed of the live tags that someone watches.
    pub fn flush_live_tags(&self, now: u64) -> (r: Option<Value>)
        ensures
            ({
                let doc = live_doc(self@, self@.live_tag_keys, now);
                opt_doc(r) == (if blank(doc) {
                    None
                } else {
                    Some(doc)
                })
            }),
    {
        let state = apply_diff(&self.tag_values, &self.pending_aggregate, false);
        let ghost keys = self@.live_tag_keys;
        let mut payload = Value::empty_object();
        let mut i: usize = 0;
        assert(keys.take(0) =~= Seq::empty());
        while i < self.live_tag_keys.len()
            invariant
                i <= self.live_tag_keys@.len(),
                keys == self@.live_tag_keys,
                state@ == current(self@),
                payload@ == live_doc(self@, keys.take(i as int), now),
            decreases self.live_tag_keys@.len() - i,
        {
            proof {
                assert(keys.take(i as int + 1).drop_last() =~= keys.take(i as int));
                assert(keys.take(i as int + 1).last() == keys[i as int]);
                assert(keys[i as int] == self.live_tag_keys@[i as int]@);
            }
            let name = self.live_tag_keys[i].qualified_name();
            if has_claim(&self.ui_sub, "live_tag_open", "tags", name.as_str(), now) {
                if let Some(value) = self.live_tag_keys[i].lookup(&state) {
                    let nested = self.live_tag_keys[i].construct(value.clone());
                    apply_diff_in_place(&mut payload, &nested, false);
                }
            }
            i += 1;
        }
        assert(keys.take(keys.len() as int) =~= keys);
        if payload.is_blank() {
            None
        } else {
            Some(payload)
        }
    }

    /// The message of the log at the end of the loop; its bucket starts anew.
    pub fn flush_immediate_logs(&mut self) -> (r: Option<Value>)
        requires
            old(self).wf(),
        ensures
            final(self).wf(),
            if blank(old(self)@.pending_immediate_log) {
                r is None && final(self)@ == old(self)@
            } else {
                &&& opt_doc(r) == Some(old(self)@.pending_immediate_log)
                &&& final(self)@ == (RuntimeView {
                    pending_immediate_log: empty_obj(),
                    ..old(self)@
                })
            },
    {
        if self.pending_immediate_log.is_blank() {
            return None;
        }
        let data = self.pending_immediate_log.clone();
        self.pending_immediate_log = Value::empty_object();
        Some(data)
    }

    /// Whether the periodic log is due: there is something to log, and the
    /// interval since the last one is over.
    pub fn periodic_due(&self, now: u64) -> (r: bool)
        ensures
            r == periodic_due(self@, now),
    {
        !self.pending_log.is_blank() && match self.last_log_flush {
            Some(at) => now >= at && now - at >= LOG_INTERVAL_MS,
            None => true,
        }
    }

    /// The message of the periodic log; its bucket starts anew.
    pub fn flush_logs(&mut self, now: u64) -> (r: Option<Value>)
        requires
            old(self).wf(),
        ensures
            final(self).wf(),
            if blank(old(self)@.pending_log) {
                r is None && final(self)@ == old(self)@
            } else {
                &&& opt_doc(r) == Some(old(self)@.pending_log)
                &&& final(self)@ == (RuntimeView {
                    pending_log: empty_obj(),
                    last_log_flush: Some(now),
                    ..old(self)@
                })
            },
    {
        if self.pending_log.is_blank() {
            return None;
        }
        self.last_log_flush = Some(now);
        let data = self.pending_log.clone();
        self.pending_log = Value::empty_object();
        Some(data)
    }

    /// The next thing that a commit does: publish the buffer, stream live tags,
    /// write the immediate log, write the periodic log if it is due. Whether that is due
    /// goes by any clock in milliseconds; everything else goes by the time since the
    /// epoch.
    pub fn commit_tags(&mut self, stage: CommitStage, now: u64) -> (r: (CommitAction, CommitStage))
        requires
            old(self).wf(),
        ensures
            final(self).wf(),
            committed(old(self)@, stage, now, final(self)@, r.0, r.1),
    {
        match stage {
            CommitStage::Aggregate => {
                let max_age: u32 = self.max_age_secs(now);
                match self.flush_tags() {
                    Some(data) => (CommitAction::Publish(data, max_age), CommitStage::Live),
                    None => (CommitAction::Nothing, CommitStage::Live),
                }
            },
            CommitStage::Live => match self.flush_live_tags(now) {
                Some(data) => (CommitAction::OneShot(data), CommitStage::Immediate),
                None => (CommitAction::Nothing, CommitStage::Immediate),
            },
            CommitStage::Immediate => match self.flush_immediate_logs() {
                Some(data) => (CommitAction::Log(data), CommitStage::Periodic),
                None => (CommitAction::Nothing, CommitStage::Periodic),
            },
            CommitStage::Periodic => {
                if self.periodic_due(now) {
                    match self.flush_logs(now) {
                        Some(data) => (CommitAction::Log(data), CommitStage::Done),
                        None => (CommitAction::Nothing, CommitStage::Done),
                    }
                } else {
                    (CommitAction::Nothing, CommitStage::Done)
                }
            },
            CommitStage::Done => (CommitAction::Nothing, CommitStage::Done),
        }
    }

    /// The messages of a history, one for every point that has tags, each under
    /// the app's key.
    pub fn log_history(app_key: &str, points: &Vec<(u64, Value)>) -> (r: Vec<(u64, Value)>)
        ensures
            Seq::new(r@.len(), |i: int| (r@[i].0, r@[i].1@)) == history(app_key@, points@),
    {
        let mut r: Vec<(u64, Value)> = Vec::new();
        let mut i: usize = 0;
        assert(points@.take(0) =~= Seq::empty());
        assert(Seq::new(r@.len(), |i: int| (r@[i].0, r@[i].1@)) =~= Seq::empty());
        while i < points.len()
            invariant
                i <= points@.len(),
                Seq::new(r@.len(), |j: int| (r@[j].0, r@[j].1@)) == history(
                    app_key@,
                    points@.take(i as int),
                ),
            decreases points@.len() - i,
        {
            let ghost before = Seq::new(r@.len(), |j: int| (r@[j].0, r@[j].1@));
            proof {
                assert(points@.take(i as int + 1).drop_last() =~= points@.take(i as int));
                assert(points@.take(i as int + 1).last() == points@[i as int]);
            }
            let at: u64 = points[i].0;
            let tags = &points[i].1;
            if !tags.is_blank() {
                let payload = if app_key.is_empty() {
                    tags.clone()
                } else {
                    let mut entries: Vec<(String, Value)> = Vec::new();
                    entries.push((app_key.to_owned(), tags.clone()));
                    assert(entries_of(entries@) =~= seq![(app_key@, tags@)]);
                    Value::object(entries)
                };
                r.push((at, payload));
                assert(Seq::new(r@.len(), |j: int| (r@[j].0, r@[j].1@)) =~= before.push(
                    (at, payload@),
                ));
            }
            i += 1;
        }
        assert(points@.take(points@.len() as int) =~= points@);
        r
    }
}

/// Whether the periodic log is due.
pub open spec fn periodic_due(v: RuntimeView, now: u64) -> bool {
    !blank(v.pending_log) && (v.last_log_flush matches Some(at) ==> now - at >= LOG_INTERVAL_MS)
}

/// Where a commit is.
#[derive(Debug, Clone, Copy, PartialEq, Eq, Structural)]
pub enum CommitStage {
    Aggregate,
    Live,
    Immediate,
    Periodic,
    Done,
}

/// What a commit asks for.
#[derive(Debug)]
pub enum CommitAction {
    Nothing,
    /// Publish the document with the given age, in seconds.
    Publish(Value, u32),
    /// Send the document as a one-shot message.
    OneShot(Value),
    /// Write the document as a message.
    Log(Value),
}

/// One step of a commit.
pub open spec fn committed(
    was: RuntimeView,
    stage: CommitStage,
    now: u64,
    is: RuntimeView,
    action: CommitAction,
    next: CommitStage,
) -> bool {
    match stage {
        CommitStage::Aggregate => next == CommitStage::Live && if was.dirty {
            &&& action matches CommitAction::Publish(data, age) && data@ == was.pending_aggregate
                && age == (if app_open(was, now) {
                TAG_OBSERVED_MAX_AGE
            } else {
                TAG_CLOUD_MAX_AGE
            })
            &&& is == (RuntimeView { dirty: false, pending_aggregate: empty_obj(), ..was })
        } else {
            action is Nothing && is == was
        },
        CommitStage::Live => {
            let doc = live_doc(was, was.live_tag_keys, now);
            &&& next == CommitStage::Immediate
            &&& is == was
            &&& if blank(doc) {
                action is Nothing
            } else {
                action matches CommitAction::OneShot(data) && data@ == doc
            }
        },
        CommitStage::Immediate => next == CommitStage::Periodic && if blank(
            was.pending_immediate_log,
        ) {
            action is Nothing && is == was
        } else {
            &&& action matches CommitAction::Log(data) && data@ == was.pending_immediate_log
            &&& is == (RuntimeView { pending_immediate_log: empty_obj(), ..was })
        },
        CommitStage::Periodic => next == CommitStage::Done && if periodic_due(was, now) {
            &&& action matches CommitAction::Log(data) && data@ == was.pending_log
            &&& is == (RuntimeView {
                pending_log: empty_obj(),
                last_log_flush: Some(now),
                ..was
            })
        } else {
            action is Nothing && is == was
        },
        CommitStage::Done => next == CommitStage::Done && action is Nothing && is == was,
    }
}

} // verus!
