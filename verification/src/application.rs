//! A plain application: a setup function and a loop function, with tags that are
//! written at once and streamed while someone watches them.
//!
//! Unlike an application under [`crate::docker::application`], it survives a failed
//! loop: it pauses and goes on.
use vstd::prelude::*;

use crate::docker::options::{normalize_uri, with_scheme};
use crate::json::{
    at, entries_of, field2, field_or_null, find, insert, lemma_at_none, lemma_position, lemma_put,
    members, put, ref_doc, Entries, Json, Value,
};
use crate::tags::runtime::{claimed, claims, fresh, has_claim, is_fresh};
use crate::tags::runtime_laws::{claims_now, lemma_claimed};
use crate::tags::triggers::reading;
use crate::text::{chars, concat, copy_opt, opt_chars, views};

verus! {

/// How old a tag write may get before it is sent, in milliseconds.
pub const TAG_MAX_AGE_MS: u64 = 3_000;

/// What a plain application runs with.
#[derive(Debug, Clone)]
pub struct RunOptions {
    pub dda_uri: String,
    pub app_key: String,
    pub config_fp: Option<String>,
    /// How long the application pauses after a failed loop, in seconds.
    pub error_wait_secs: u64,
}

impl RunOptions {
    /// The options that the environment gives. The address of the agent gets a
    /// scheme if it has none.
    pub fn from_env(
        dda_uri: &Option<String>,
        app_key: &Option<String>,
        config_fp: &Option<String>,
    ) -> (o: RunOptions)
        ensures
            o.dda_uri@ == with_scheme(
                match *dda_uri {
                    Some(u) => u@,
                    None => "http://127.0.0.1:50051"@,
                },
            ),
            o.app_key@ == (match *app_key {
                Some(k) => k@,
                None => Seq::empty(),
            }),
            opt_chars(o.config_fp) == opt_chars(*config_fp),
            o.error_wait_secs == 10,
    {
        let uri = match dda_uri {
            Some(u) => normalize_uri(u.as_str()),
            None => normalize_uri("http://127.0.0.1:50051"),
        };
        let key = match app_key {
            Some(k) => k.clone(),
            None => {
                let empty = String::new();
                assert(empty@ =~= Seq::empty());
                empty
            },
        };
        RunOptions {
            dda_uri: uri,
            app_key: key,
            config_fp: copy_opt(config_fp),
            error_wait_secs: 10,
        }
    }
}

/// The configuration that a fetched deployment configuration holds for an
/// application; null if there is none.
pub open spec fn deployed_config(fetched: Option<Json>, app_key: Seq<char>) -> Json {
    match fetched {
        Some(full) => match field2(full, "applications"@, app_key) {
            Some(c) => c,
            None => Json::Null,
        },
        None => Json::Null,
    }
}

/// The configuration of an application. `fetched` is the deployment configuration;
/// nothing if it could not be fetched, or there is none.
pub fn load_deployment_config(fetched: Option<&Value>, app_key: &str) -> (v: Value)
    ensures
        v@ == deployed_config(ref_doc(fetched), app_key@),
{
    match fetched {
        Some(full) => match full.get2("applications", app_key) {
            Some(c) => c.clone(),
            None => Value::Null,
        },
        None => Value::Null,
    }
}

/// The tags of a plain application: their latest values, which of them are live, and
/// who is watching.
#[derive(Debug)]
pub struct TagState {
    app_key: String,
    values: Vec<(String, Value)>,
    live_tags: Vec<String>,
    ui_sub: Value,
}

/// The model of the tags.
#[verifier::ext_equal]
pub struct TagStateView {
    pub app_key: Seq<char>,
    pub values: Entries,
    pub live_tags: Seq<Seq<char>>,
    pub ui_sub: Json,
}

impl View for TagState {
    type V = TagStateView;

    closed spec fn view(&self) -> TagStateView {
        TagStateView {
            app_key: self.app_key@,
            values: entries_of(self.values@),
            live_tags: views(self.live_tags@),
            ui_sub: self.ui_sub@,
        }
    }
}

/// The name by which a watcher knows a tag.
pub open spec fn qualified(app_key: Seq<char>, tag: Seq<char>) -> Seq<char> {
    if app_key.len() == 0 {
        tag
    } else {
        app_key + "."@ + tag
    }
}

/// Whether someone watches a tag in live mode.
pub open spec fn watched(v: TagStateView, tag: Seq<char>, now: u64) -> bool {
    claimed(v.ui_sub, "live_tag_open"@, "tags"@, qualified(v.app_key, tag), now)
}

/// The values of the live tags that are watched and have one.
pub open spec fn live_values(v: TagStateView, tags: Seq<Seq<char>>, now: u64) -> Entries
    decreases tags.len(),
{
    if tags.len() == 0 {
        Seq::empty()
    } else {
        let before = live_values(v, tags.drop_last(), now);
        match at(v.values, tags.last()) {
            Some(value) => if watched(v, tags.last(), now) {
                put(before, tags.last(), value)
            } else {
                before
            },
            None => before,
        }
    }
}

/// The values after several were set, one after the other.
pub open spec fn values_after(values: Entries, tags: Seq<(String, Value)>) -> Entries
    decreases tags.len(),
{
    if tags.len() == 0 {
        values
    } else {
        put(values_after(values, tags.drop_last()), tags.last().0@, tags.last().1@)
    }
}

/// Whether an object in a bucket is a fresh claim.
pub open spec fn observed_in(ui_sub: Json, bucket: Seq<char>, now: u64) -> bool {
    let e = claims(ui_sub, bucket);
    exists|i: int| 0 <= i < e.len() && (#[trigger] e[i]).1 is Obj && is_fresh(e[i].1, now)
}

fn is_observed_in(ui_sub: &Value, bucket: &str, now: u64) -> (r: bool)
    ensures
        r == observed_in(ui_sub@, bucket@, now),
{
    match ui_sub.get(bucket) {
        Some(Value::Object(entries)) => {
            proof {
                Value::lemma_object(*entries);
            }
            let ghost e = entries_of(entries@);
            let mut i: usize = 0;
            while i < entries.len()
                invariant
                    i <= entries@.len(),
                    e == entries_of(entries@),
                    claims(ui_sub@, bucket@) == e,
                    forall|j: int|
                        0 <= j < i ==> !((#[trigger] e[j]).1 is Obj && is_fresh(e[j].1, now)),
                decreases entries@.len() - i,
            {
                if entries[i].1.is_object() && fresh(&entries[i].1, now) {
                    assert(i < e.len() && e[i as int].1 is Obj && is_fresh(e[i as int].1, now));
                    return true;
                }
                assert(!(e[i as int].1 is Obj && is_fresh(e[i as int].1, now)));
                i += 1;
            }
            false
        },
        _ => false,
    }
}

impl TagState {
    /// Tags without values.
    pub fn new(app_key: &str, live_tags: Vec<String>) -> (t: Self)
        ensures
            t@ == (TagStateView {
                app_key: app_key@,
                values: Seq::empty(),
                live_tags: views(live_tags@),
                ui_sub: Json::Null,
            }),
    {
        let t = TagState {
            app_key: app_key.to_owned(),
            values: Vec::new(),
            live_tags,
            ui_sub: Value::Null,
        };
        assert(entries_of(t.values@) =~= Seq::empty());
        t
    }

    /// Takes in who is watching.
    pub fn on_ui_sub(&mut self, data: Value)
        ensures
            final(self)@ == (TagStateView { ui_sub: data@, ..old(self)@ }),
    {
        self.ui_sub = data;
    }

    fn qualify(&self, tag: &str) -> (r: String)
        ensures
            r@ == qualified(self@.app_key, tag@),
    {
        if chars(self.app_key.as_str()).len() == 0 {
            tag.to_owned()
        } else {
            let mut r = concat(self.app_key.as_str(), ".");
            r.append(tag);
            r
        }
    }

    /// Whether someone watches a tag in live mode.
    pub fn is_live_tag_open(&self, tag_name: &str, now: u64) -> (r: bool)
        ensures
            r == watched(self@, tag_name@, now),
    {
        let name = self.qualify(tag_name);
        has_claim(&self.ui_sub, "live_tag_open", "tags", name.as_str(), now)
    }

    /// Whether someone watches the agent at all.
    pub fn is_being_observed(&self, now: u64) -> (r: bool)
        ensures
            r == (observed_in(self@.ui_sub, "agent_open"@, now) || observed_in(
                self@.ui_sub,
                "group_open"@,
                now,
            ) || observed_in(self@.ui_sub, "app_open"@, now) || observed_in(
                self@.ui_sub,
                "live_tag_open"@,
                now,
            )),
    {
        is_observed_in(&self.ui_sub, "agent_open", now) || is_observed_in(
            &self.ui_sub,
            "group_open",
            now,
        ) || is_observed_in(&self.ui_sub, "app_open", now) || is_observed_in(
            &self.ui_sub,
            "live_tag_open",
            now,
        )
    }

    /// Sets tags. The result is what is merged into the channel of the tags, and
    /// may get [`TAG_MAX_AGE_MS`] old before it is sent.
    pub fn set_tags(&mut self, tags: &Vec<(String, Value)>) -> (v: Value)
        ensures
            final(self)@.values == values_after(old(self)@.values, tags@),
            final(self)@ == (TagStateView { values: final(self)@.values, ..old(self)@ }),
            v@ == Json::Obj(
                seq![(old(self)@.app_key, Json::Obj(values_after(Seq::empty(), tags@)))],
            ),
    {
        let ghost before = self@;
        let mut inner: Vec<(String, Value)> = Vec::new();
        let mut i: usize = 0;
        assert(tags@.take(0) =~= Seq::empty());
        assert(entries_of(inner@) =~= Seq::empty());
        while i < tags.len()
            invariant
                i <= tags@.len(),
                self@ == (TagStateView { values: self@.values, ..before }),
                self@.values == values_after(before.values, tags@.take(i as int)),
                entries_of(inner@) == values_after(Seq::empty(), tags@.take(i as int)),
            decreases tags@.len() - i,
        {
            proof {
                assert(tags@.take(i as int + 1).drop_last() =~= tags@.take(i as int));
                assert(tags@.take(i as int + 1).last() == tags@[i as int]);
            }
            insert(&mut inner, tags[i].0.as_str(), tags[i].1.clone());
            insert(&mut self.values, tags[i].0.as_str(), tags[i].1.clone());
            i += 1;
        }
        assert(tags@.take(tags@.len() as int) =~= tags@);
        let inner = Value::object(inner);
        let mut outer: Vec<(String, Value)> = Vec::new();
        outer.push((self.app_key.clone(), inner));
        assert(entries_of(outer@) =~= seq![(self.app_key@, inner@)]);
        Value::object(outer)
    }

    /// What is sent, without being kept, to those who watch: the values of the live
    /// tags that are watched. Nothing is sent if there are none.
    pub fn flush_live_tags(&self, now: u64) -> (r: Option<Value>)
        ensures
            match r {
                Some(v) => live_values(self@, self@.live_tags, now).len() > 0 && v@ == Json::Obj(
                    seq![
                        (
                            self@.app_key,
                            Json::Obj(live_values(self@, self@.live_tags, now)),
                        ),
                    ],
                ),
                None => live_values(self@, self@.live_tags, now).len() == 0,
            },
    {
        let ghost all = self@.live_tags;
        let mut inner: Vec<(String, Value)> = Vec::new();
        let mut i: usize = 0;
        assert(all.take(0) =~= Seq::empty());
        assert(entries_of(inner@) =~= Seq::empty());
        while i < self.live_tags.len()
            invariant
                i <= self.live_tags@.len(),
                all == views(self.live_tags@),
                all == self@.live_tags,
                entries_of(inner@) == live_values(self@, all.take(i as int), now),
            decreases self.live_tags@.len() - i,
        {
            proof {
                assert(all.take(i as int + 1).drop_last() =~= all.take(i as int));
                assert(all.take(i as int + 1).last() == self.live_tags@[i as int]@);
                lemma_position(entries_of(self.values@), self.live_tags@[i as int]@);
            }
            let tag = self.live_tags[i].as_str();
            if let Some(p) = find(&self.values, tag) {
                if self.is_live_tag_open(tag, now) {
                    insert(&mut inner, tag, self.values[p].1.clone());
                }
            }
            i += 1;
        }
        assert(all.take(all.len() as int) =~= all);
        assert(entries_of(inner@).len() == inner@.len());
        if inner.len() == 0 {
            return None;
        }
        let inner = Value::object(inner);
        let mut outer: Vec<(String, Value)> = Vec::new();
        outer.push((self.app_key.clone(), inner));
        assert(entries_of(outer@) =~= seq![(self.app_key@, inner@)]);
        Some(Value::object(outer))
    }
}

// ---- a run -----------------------------------------------------------------------------

/// The steps of a run.
#[derive(Debug, Clone, Copy, PartialEq, Eq, Structural)]
pub enum AppPhase {
    Connecting,
    /// The configuration is being loaded.
    Loading,
    SettingUp,
    /// The next tick or signal is awaited.
    Idle,
    /// The loop function runs.
    Looping,
    /// The live tags are being streamed.
    Flushing,
    /// The pause after a failed loop.
    Pausing,
    Ended,
}

/// What happened in a run.
#[derive(Debug, Clone, Copy, PartialEq, Eq, Structural)]
pub enum AppInput {
    Done,
    Failed,
    Stop,
    Tick,
}

/// The step after something happened. A step before the loop that fails ends the
/// run; a loop that fails does not.
pub open spec fn app_next(phase: AppPhase, input: AppInput) -> AppPhase {
    match (phase, input) {
        (AppPhase::Connecting, AppInput::Done) => AppPhase::Loading,
        (AppPhase::Loading, AppInput::Done) => AppPhase::SettingUp,
        (AppPhase::SettingUp, AppInput::Done) => AppPhase::Idle,
        (AppPhase::Connecting, AppInput::Failed) => AppPhase::Ended,
        (AppPhase::Loading, AppInput::Failed) => AppPhase::Ended,
        (AppPhase::SettingUp, AppInput::Failed) => AppPhase::Ended,
        (AppPhase::Idle, AppInput::Stop) => AppPhase::Ended,
        (AppPhase::Idle, AppInput::Tick) => AppPhase::Looping,
        (AppPhase::Looping, AppInput::Done) => AppPhase::Flushing,
        (AppPhase::Looping, AppInput::Failed) => AppPhase::Pausing,
        (AppPhase::Flushing, AppInput::Done) => AppPhase::Idle,
        (AppPhase::Flushing, AppInput::Failed) => AppPhase::Idle,
        (AppPhase::Pausing, AppInput::Done) => AppPhase::Idle,
        _ => phase,
    }
}

/// The step after something happened.
pub fn run_app_with(phase: AppPhase, input: AppInput) -> (r: AppPhase)
    ensures
        r == app_next(phase, input),
{
    match (phase, input) {
        (AppPhase::Connecting, AppInput::Done) => AppPhase::Loading,
        (AppPhase::Loading, AppInput::Done) => AppPhase::SettingUp,
        (AppPhase::SettingUp, AppInput::Done) => AppPhase::Idle,
        (AppPhase::Connecting, AppInput::Failed) => AppPhase::Ended,
        (AppPhase::Loading, AppInput::Failed) => AppPhase::Ended,
        (AppPhase::SettingUp, AppInput::Failed) => AppPhase::Ended,
        (AppPhase::Idle, AppInput::Stop) => AppPhase::Ended,
        (AppPhase::Idle, AppInput::Tick) => AppPhase::Looping,
        (AppPhase::Looping, AppInput::Done) => AppPhase::Flushing,
        (AppPhase::Looping, AppInput::Failed) => AppPhase::Pausing,
        (AppPhase::Flushing, AppInput::Done) => AppPhase::Idle,
        (AppPhase::Flushing, AppInput::Failed) => AppPhase::Idle,
        (AppPhase::Pausing, AppInput::Done) => AppPhase::Idle,
        _ => phase,
    }
}

/// A failed loop does not end the run: after a pause the next tick loops again. Once
/// an application loops, only the signal to stop ends it.
pub proof fn law_failed_loops_are_survived(phase: AppPhase, input: AppInput)
    ensures
        app_next(
            app_next(app_next(AppPhase::Looping, AppInput::Failed), AppInput::Done),
            AppInput::Tick,
        ) == AppPhase::Looping,
        app_next(phase, input) == AppPhase::Ended && phase != AppPhase::Ended && phase
            != AppPhase::Connecting && phase != AppPhase::Loading && phase != AppPhase::SettingUp
            ==> phase == AppPhase::Idle && input == AppInput::Stop,
{
}

/// A run goes from one step to the next while each is done, and back to waiting after
/// every loop. What cannot happen in a step changes nothing, and an ended run stays ended.
pub proof fn law_runs_go_on_step_by_step(input: AppInput)
    ensures
        app_next(AppPhase::Connecting, AppInput::Done) == AppPhase::Loading,
        app_next(AppPhase::Loading, AppInput::Done) == AppPhase::SettingUp,
        app_next(AppPhase::SettingUp, AppInput::Done) == AppPhase::Idle,
        app_next(AppPhase::Idle, AppInput::Tick) == AppPhase::Looping,
        app_next(AppPhase::Idle, AppInput::Stop) == AppPhase::Ended,
        app_next(AppPhase::Looping, AppInput::Done) == AppPhase::Flushing,
        app_next(AppPhase::Looping, AppInput::Failed) == AppPhase::Pausing,
        app_next(AppPhase::Flushing, AppInput::Done) == AppPhase::Idle,
        app_next(AppPhase::Flushing, AppInput::Failed) == AppPhase::Idle,
        app_next(AppPhase::Pausing, AppInput::Done) == AppPhase::Idle,
        forall|phase: AppPhase|
            phase == AppPhase::Connecting || phase == AppPhase::Loading || phase
                == AppPhase::SettingUp ==> #[trigger] app_next(phase, AppInput::Failed)
                == AppPhase::Ended,
        forall|phase: AppPhase|
            phase != AppPhase::Idle && (input == AppInput::Tick || input == AppInput::Stop)
                ==> #[trigger] app_next(phase, input) == phase,
        app_next(AppPhase::Ended, input) == AppPhase::Ended,
{
}

/// The configuration of an app is what stands under its key among the applications of
/// what was fetched, and null where nothing stands there.
pub proof fn law_apps_have_their_own_configuration(full: Entries, apps: Entries, app_key: Seq<char>)
    requires
        at(full, "applications"@) == Some(Json::Obj(apps)),
    ensures
        deployed_config(Some(Json::Obj(full)), app_key) == (match at(apps, app_key) {
            Some(c) => c,
            None => Json::Null,
        }),
        deployed_config(None, app_key) is Null,
        forall|rest: Entries| #[trigger]
            at(rest, "applications"@) is None ==> deployed_config(Some(Json::Obj(rest)), app_key)
                is Null,
{
}

/// After tags were set each has the last value given for it, and every other tag has the
/// value that it had.
pub proof fn law_set_tags_have_their_last_value(
    values: Entries,
    tags: Seq<(String, Value)>,
    name: Seq<char>,
)
    ensures
        (forall|i: int| 0 <= i < tags.len() ==> (#[trigger] tags[i]).0@ != name) ==> at(
            values_after(values, tags),
            name,
        ) == at(values, name),
        forall|i: int|
            0 <= i < tags.len() && (#[trigger] tags[i]).0@ == name && (forall|j: int|
                i < j < tags.len() ==> (#[trigger] tags[j]).0@ != name) ==> at(
                values_after(values, tags),
                name,
            ) == Some(tags[i].1@),
    decreases tags.len(),
{
    if tags.len() > 0 {
        let d = tags.drop_last();
        law_set_tags_have_their_last_value(values, d, name);
        lemma_put(values_after(values, d), tags.last().0@, tags.last().1@);
        if tags.last().0@ == name {
            assert forall|i: int|
                0 <= i < tags.len() && (#[trigger] tags[i]).0@ == name && (forall|j: int|
                    i < j < tags.len() ==> (#[trigger] tags[j]).0@ != name) implies at(
                values_after(values, tags),
                name,
            ) == Some(tags[i].1@) by {
                assert(tags[tags.len() - 1].0@ == name);
            }
            assert(tags[tags.len() - 1].0@ == name);
        } else {
            assert forall|i: int|
                0 <= i < tags.len() && (#[trigger] tags[i]).0@ == name && (forall|j: int|
                    i < j < tags.len() ==> (#[trigger] tags[j]).0@ != name) implies at(
                values_after(values, tags),
                name,
            ) == Some(tags[i].1@) by {
                assert(d[i] == tags[i]);
                assert forall|j: int| i < j < d.len() implies (#[trigger] d[j]).0@ != name by {
                    assert(d[j] == tags[j]);
                }
            }
            if forall|i: int| 0 <= i < tags.len() ==> (#[trigger] tags[i]).0@ != name {
                assert forall|i: int| 0 <= i < d.len() implies (#[trigger] d[i]).0@ != name by {
                    assert(d[i] == tags[i]);
                }
            }
        }
    }
}

/// A tag counts as watched exactly if some viewer's claim of live tags lists it, not too
/// long ago, under the key of the app and a dot.
pub proof fn law_tags_are_watched_by_their_full_name(v: TagStateView, tag: Seq<char>, now: u64)
    requires
        v.app_key.len() > 0,
    ensures
        watched(v, tag, now) <==> exists|i: int|
            0 <= i < members(field_or_null(v.ui_sub, "live_tag_open"@)).len() && claims_now(
                (#[trigger] members(field_or_null(v.ui_sub, "live_tag_open"@))[i]).1,
                "tags"@,
                v.app_key + "."@ + tag,
                now,
            ),
{
    lemma_claimed(v.ui_sub, "live_tag_open"@, "tags"@, v.app_key + "."@ + tag, now);
}

/// What is streamed holds exactly the live tags that have a value and are watched, each
/// with its value.
pub proof fn law_watched_values_are_streamed(
    v: TagStateView,
    tags: Seq<Seq<char>>,
    now: u64,
    tag: Seq<char>,
)
    ensures
        at(live_values(v, tags, now), tag) == (if tags.contains(tag) && watched(v, tag, now) {
            at(v.values, tag)
        } else {
            None
        }),
    decreases tags.len(),
{
    if tags.len() == 0 {
        lemma_at_none(tag);
    } else {
        let d = tags.drop_last();
        law_watched_values_are_streamed(v, d, now, tag);
        if let Some(value) = at(v.values, tags.last()) {
            lemma_put(live_values(v, d, now), tags.last(), value);
        }
        assert(tags =~= d.push(tags.last()));
        if d.contains(tag) {
            let i = choose|i: int| 0 <= i < d.len() && d[i] == tag;
            assert(tags[i] == tag);
        }
        if tags.contains(tag) && !d.contains(tag) {
            let i = choose|i: int| 0 <= i < tags.len() && tags[i] == tag;
            if i < d.len() {
                assert(d[i] == tag);
            }
        }
        if tag == tags.last() {
            assert(tags[tags.len() - 1] == tag);
        }
    }
}

/// A bucket of claims is observed exactly if one of its claims, whichever it is, was made
/// less than 120000 milliseconds ago.
pub proof fn law_one_fresh_claim_is_enough(ui_sub: Json, bucket: Seq<char>, now: u64)
    ensures
        observed_in(ui_sub, bucket, now) <==> exists|i: int|
            0 <= i < members(field_or_null(ui_sub, bucket)).len() && made_after(
                (#[trigger] members(field_or_null(ui_sub, bucket))[i]).1,
                now - 120_000,
            ),
{
    let e = claims(ui_sub, bucket);
    assert(e =~= members(field_or_null(ui_sub, bucket)));
    assert forall|i: int| 0 <= i < e.len() implies ((#[trigger] e[i]).1 is Obj && is_fresh(
        e[i].1,
        now,
    )) == made_after(e[i].1, now - 120_000) by {}
}

/// Whether a claim says that it was made after a time.
pub open spec fn made_after(claim: Json, time: int) -> bool {
    &&& claim is Obj
    &&& reading(field_or_null(claim, "ts"@)) matches Some(ts) && (reading(Json::Int(time)) matches Some(
        limit,
    ) && ts > limit)
}

} // verus!
