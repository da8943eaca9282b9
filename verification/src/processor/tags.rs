//! The tags of one processor invocation: buffered over the values that the
//! invocation came with, and written once at its end.
use vstd::prelude::*;

use crate::diff::{equal, lemma_same_doc_reflexive, same_doc, tidy};
use crate::json::{
    at, entries_of, field2, find, insert_nested, lemma_at_none, lemma_at_one, lemma_position,
    lemma_put, nested_at, nested_put, opt_doc, put, ref_doc, Entries, Json, Value,
};
use crate::text::same;

verus! {

/// What a commit writes to the logged history.
#[derive(Debug, Clone, Copy, PartialEq, Eq, Structural)]
pub enum LogMode {
    /// Every tag of the app, changed or not.
    Always,
    /// Nothing.
    Never,
    /// The tags whose value differs from the stored one.
    OnlyChanged,
    /// The tags that were set, even to the value they had.
    OnlySet,
}

impl Default for LogMode {
    fn default() -> (m: Self)
        ensures
            m == LogMode::Always,
    {
        LogMode::Always
    }
}

/// How a tag is set.
#[derive(Debug, Clone)]
pub struct SetProcessorTagOptions {
    /// The app under whose key the tag is written; this app if missing.
    pub app_key: Option<String>,
    /// Ask for a logged data point.
    pub log: bool,
}

impl Default for SetProcessorTagOptions {
    fn default() -> (o: Self)
        ensures
            o.app_key is None,
            !o.log,
    {
        SetProcessorTagOptions { app_key: None, log: false }
    }
}

/// The buffered tags of one invocation.
#[derive(Debug)]
pub struct ProcessorTags {
    app_key: String,
    agent_id: u64,
    tag_values: Vec<(String, Value)>,
    update_tags: bool,
    record_tag_update: bool,
    update_external_tags: bool,
    log_mode: LogMode,
    dirty: Vec<(String, Value)>,
    touched: Vec<(String, Value)>,
}

/// The model of the buffered tags.
#[verifier::ext_equal]
pub struct TagsView {
    pub app_key: Seq<char>,
    pub agent_id: u64,
    /// The tags by app and name.
    pub tag_values: Entries,
    /// Something is to be committed.
    pub update_tags: bool,
    /// A data point was asked for.
    pub record_tag_update: bool,
    /// Another app's tags were written.
    pub update_external_tags: bool,
    pub log_mode: LogMode,
    /// The tags whose value moved.
    pub dirty: Entries,
    /// The tags that were set.
    pub touched: Entries,
}

impl View for ProcessorTags {
    type V = TagsView;

    closed spec fn view(&self) -> TagsView {
        TagsView {
            app_key: self.app_key@,
            agent_id: self.agent_id,
            tag_values: entries_of(self.tag_values@),
            update_tags: self.update_tags,
            record_tag_update: self.record_tag_update,
            update_external_tags: self.update_external_tags,
            log_mode: self.log_mode,
            dirty: entries_of(self.dirty@),
            touched: entries_of(self.touched@),
        }
    }
}

/// What a commit writes.
#[derive(Debug)]
pub struct TagsCommit {
    /// The aggregate update.
    pub aggregate: Option<Value>,
    /// The logged message.
    pub log: Option<Value>,
}

/// Null and the empty object publish nothing.
pub open spec fn falsy(j: Json) -> bool {
    match j {
        Json::Null => true,
        Json::Obj(e) => e.len() == 0,
        _ => false,
    }
}

/// The part of a buffer that a commit publishes: all of it if another app's tags
/// were written, otherwise this app's.
pub open spec fn scoped(e: Entries, app: Seq<char>, external: bool) -> Option<Json> {
    if external {
        if e.len() == 0 {
            None
        } else {
            Some(Json::Obj(e))
        }
    } else {
        match at(e, app) {
            Some(own) => if falsy(own) {
                None
            } else {
                Some(Json::Obj(seq![(app, own)]))
            },
            None => None,
        }
    }
}

/// The app whose tag is written.
pub open spec fn target_app(v: TagsView, o: SetProcessorTagOptions) -> Seq<char> {
    match o.app_key {
        Some(k) => k@,
        None => v.app_key,
    }
}

/// Whether setting the tag would not change it; a missing tag counts as null.
pub open spec fn is_same(v: TagsView, app: Seq<char>, key: Seq<char>, value: Json) -> bool {
    same_doc(
        match nested_at(v.tag_values, app, key) {
            Some(j) => j,
            None => Json::Null,
        },
        value,
    )
}

/// The buffered tags after a tag was set.
pub open spec fn after_set(
    v: TagsView,
    key: Seq<char>,
    value: Json,
    o: SetProcessorTagOptions,
) -> TagsView {
    let app = target_app(v, o);
    let touched = nested_put(v.touched, app, key, value);
    let marked = !is_same(v, app, key, value) || o.log || v.log_mode == LogMode::OnlySet;
    TagsView {
        touched,
        tag_values: if is_same(v, app, key, value) {
            v.tag_values
        } else {
            nested_put(v.tag_values, app, key, value)
        },
        dirty: if is_same(v, app, key, value) {
            v.dirty
        } else {
            nested_put(v.dirty, app, key, value)
        },
        update_tags: v.update_tags || marked,
        record_tag_update: v.record_tag_update || o.log,
        update_external_tags: v.update_external_tags || (marked && app != v.app_key),
        ..v
    }
}

/// What a commit of the aggregate would write, if anything moved.
pub open spec fn update_doc(v: TagsView) -> Option<Json> {
    scoped(v.tag_values, v.app_key, v.update_external_tags)
}

/// The aggregate update of a commit.
pub open spec fn commit_aggregate(v: TagsView) -> Option<Json> {
    if v.update_tags && v.dirty.len() > 0 {
        update_doc(v)
    } else {
        None
    }
}

/// The logged message of a commit.
pub open spec fn commit_log(v: TagsView, record_log: bool) -> Option<Json> {
    if v.update_tags && (v.record_tag_update || record_log) {
        match v.log_mode {
            LogMode::Always => update_doc(v),
            LogMode::OnlyChanged => scoped(v.dirty, v.app_key, v.update_external_tags),
            LogMode::OnlySet => scoped(v.touched, v.app_key, v.update_external_tags),
            LogMode::Never => None,
        }
    } else {
        None
    }
}

/// The buffered tags after a commit.
pub open spec fn after_commit(v: TagsView) -> TagsView {
    if v.update_tags {
        TagsView { update_tags: false, dirty: Seq::empty(), touched: Seq::empty(), ..v }
    } else {
        v
    }
}

fn read_nested<'a>(entries: &'a Vec<(String, Value)>, app: &str, key: &str) -> (r: Option<&'a Value>)
    ensures
        ref_doc(r) == nested_at(entries_of(entries@), app@, key@),
{
    proof {
        lemma_position(entries_of(entries@), app@);
    }
    match find(entries, app) {
        Some(i) => entries[i].1.get(key),
        None => None,
    }
}

fn is_falsy(v: &Value) -> (r: bool)
    ensures
        r == falsy(v@),
{
    match v {
        Value::Null => true,
        Value::Object(m) => m.len() == 0,
        _ => false,
    }
}

fn scope_payload(source: &Vec<(String, Value)>, app: &str, external: bool) -> (r: Option<Value>)
    ensures
        opt_doc(r) == scoped(entries_of(source@), app@, external),
{
    if external {
        if source.len() == 0 {
            return None;
        }
        return Some(Value::object(crate::json::copy_entries(source)));
    }
    proof {
        lemma_position(entries_of(source@), app@);
    }
    match find(source, app) {
        Some(i) => {
            if is_falsy(&source[i].1) {
                None
            } else {
                let mut outer: Vec<(String, Value)> = Vec::new();
                outer.push((app.to_owned(), source[i].1.clone()));
                assert(entries_of(outer@) =~= seq![(app@, source@[i as int].1@)]);
                Some(Value::object(outer))
            }
        },
        None => None,
    }
}

impl ProcessorTags {
    /// The tags that an invocation came with; anything but an object is none.
    pub fn new(app_key: &str, agent_id: u64, tag_values: &Value, record_tag_update: bool) -> (t: Self)
        ensures
            t@ == (TagsView {
                app_key: app_key@,
                agent_id,
                tag_values: match tag_values@ {
                    Json::Obj(e) => e,
                    _ => Seq::empty(),
                },
                update_tags: false,
                record_tag_update,
                update_external_tags: false,
                log_mode: LogMode::Always,
                dirty: Seq::empty(),
                touched: Seq::empty(),
            }),
    {
        let values: Vec<(String, Value)> = match tag_values {
            Value::Object(entries) => {
                proof {
                    Value::lemma_object(*entries);
                }
                crate::json::copy_entries(entries)
            },
            _ => {
                let none: Vec<(String, Value)> = Vec::new();
                assert(entries_of(none@) =~= Seq::empty());
                none
            },
        };
        let t = ProcessorTags {
            app_key: app_key.to_owned(),
            agent_id,
            tag_values: values,
            update_tags: false,
            record_tag_update,
            update_external_tags: false,
            log_mode: LogMode::Always,
            dirty: Vec::new(),
            touched: Vec::new(),
        };
        assert(t@.dirty =~= Seq::empty());
        assert(t@.touched =~= Seq::empty());
        t
    }

    /// The key of this app.
    pub fn app_key(&self) -> (r: &str)
        ensures
            r@ == self@.app_key,
    {
        self.app_key.as_str()
    }

    /// The agent that the invocation is for.
    pub fn agent_id(&self) -> (r: u64)
        ensures
            r == self@.agent_id,
    {
        self.agent_id
    }

    /// What commits log.
    pub fn log_mode(&self) -> (r: LogMode)
        ensures
            r == self@.log_mode,
    {
        self.log_mode
    }

    /// Sets what commits log.
    pub fn set_log_mode(&mut self, mode: LogMode)
        ensures
            final(self)@ == (TagsView { log_mode: mode, ..old(self)@ }),
    {
        self.log_mode = mode;
    }

    /// Reads a tag of this app.
    pub fn get_tag(&self, key: &str) -> (r: Option<Value>)
        ensures
            opt_doc(r) == nested_at(self@.tag_values, self@.app_key, key@),
    {
        self.get_tag_scoped(self.app_key.as_str(), key)
    }

    /// Reads a tag of any app.
    pub fn get_tag_scoped(&self, app_key: &str, key: &str) -> (r: Option<Value>)
        ensures
            opt_doc(r) == nested_at(self@.tag_values, app_key@, key@),
    {
        match read_nested(&self.tag_values, app_key, key) {
            Some(v) => Some(v.clone()),
            None => None,
        }
    }

    /// Sets a tag of this app.
    pub fn set_tag(&mut self, key: &str, value: Value)
        ensures
            final(self)@ == after_set(
                old(self)@,
                key@,
                value@,
                SetProcessorTagOptions { app_key: None, log: false },
            ),
    {
        let opts = SetProcessorTagOptions { app_key: None, log: false };
        self.set_tag_with(key, value, &opts)
    }

    /// Sets a tag. Nothing is published until the commit.
    pub fn set_tag_with(&mut self, key: &str, value: Value, opts: &SetProcessorTagOptions)
        ensures
            final(self)@ == after_set(old(self)@, key@, value@, *opts),
    {
        let ghost was = self@;
        let app = match &opts.app_key {
            Some(k) => k.clone(),
            None => self.app_key.clone(),
        };
        let unchanged = match read_nested(&self.tag_values, app.as_str(), key) {
            Some(current) => equal(current, &value),
            None => equal(&Value::Null, &value),
        };
        let external = !same(app.as_str(), self.app_key.as_str());
        insert_nested(&mut self.touched, app.as_str(), key, value.clone());
        if unchanged {
            if opts.log || self.log_mode == LogMode::OnlySet {
                self.update_tags = true;
                if opts.log {
                    self.record_tag_update = true;
                }
                if external {
                    self.update_external_tags = true;
                }
            }
        } else {
            insert_nested(&mut self.tag_values, app.as_str(), key, value.clone());
            insert_nested(&mut self.dirty, app.as_str(), key, value);
            self.update_tags = true;
            if opts.log {
                self.record_tag_update = true;
            }
            if external {
                self.update_external_tags = true;
            }
        }
        assert(self@ =~= after_set(was, key@, value@, *opts));
    }

    /// The write of the end of an invocation.
    pub fn commit_tags(&mut self) -> (r: TagsCommit)
        ensures
            opt_doc(r.aggregate) == commit_aggregate(old(self)@),
            opt_doc(r.log) == commit_log(old(self)@, false),
            final(self)@ == after_commit(old(self)@),
    {
        self.commit_tags_with(false)
    }

    /// The write of the end of an invocation; `record_log` asks for a data point
    /// that no tag asked for.
    pub fn commit_tags_with(&mut self, record_log: bool) -> (r: TagsCommit)
        ensures
            opt_doc(r.aggregate) == commit_aggregate(old(self)@),
            opt_doc(r.log) == commit_log(old(self)@, record_log),
            final(self)@ == after_commit(old(self)@),
    {
        let ghost was = self@;
        if !self.update_tags {
            return TagsCommit { aggregate: None, log: None };
        }
        let external = self.update_external_tags;
        let aggregate = if self.dirty.len() > 0 {
            scope_payload(&self.tag_values, self.app_key.as_str(), external)
        } else {
            None
        };
        let log = if self.record_tag_update || record_log {
            match self.log_mode {
                LogMode::Always => scope_payload(&self.tag_values, self.app_key.as_str(), external),
                LogMode::OnlyChanged => scope_payload(
                    &self.dirty,
                    self.app_key.as_str(),
                    external,
                ),
                LogMode::OnlySet => scope_payload(&self.touched, self.app_key.as_str(), external),
                LogMode::Never => None,
            }
        } else {
            None
        };
        self.update_tags = false;
        self.dirty = Vec::new();
        self.touched = Vec::new();
        assert(self@ =~= after_commit(was));
        TagsCommit { aggregate, log }
    }
}

// ---- laws -----------------------------------------------------------------------

/// A tag that was set to a new value reads back as that value, and every other
/// tag of the app as before.
pub proof fn law_set_then_get(v: TagsView, key: Seq<char>, value: Json, o: SetProcessorTagOptions)
    ensures
        ({
            let app = target_app(v, o);
            let is = after_set(v, key, value, o);
            &&& !is_same(v, app, key, value) ==> nested_at(is.tag_values, app, key) == Some(value)
            &&& is_same(v, app, key, value) ==> is.tag_values == v.tag_values
            &&& forall|q: Seq<char>|
                q != app ==> #[trigger] at(is.tag_values, q) == at(v.tag_values, q)
            &&& forall|q: Seq<char>|
                q != key && at(v.tag_values, app) is Some && at(v.tag_values, app).unwrap() is Obj
                    ==> #[trigger] nested_at(is.tag_values, app, q) == nested_at(
                    v.tag_values,
                    app,
                    q,
                )
        }),
{
    let app = target_app(v, o);
    let is = after_set(v, key, value, o);
    match at(v.tag_values, app) {
        Some(Json::Obj(inner)) => {
            lemma_put(inner, key, value);
            lemma_put(v.tag_values, app, Json::Obj(put(inner, key, value)));
            assert forall|q: Seq<char>| q != key implies #[trigger] nested_at(is.tag_values, app, q)
                == nested_at(v.tag_values, app, q) by {
                assert(at(put(inner, key, value), q) == at(inner, q));
            }
        },
        _ => {
            let e = seq![(key, value)];
            lemma_put(v.tag_values, app, Json::Obj(e));
            lemma_position(e, key);
            assert(e[0].0 == key);
        },
    }
}

/// The mode that never logs never logs, whatever asks for it.
pub proof fn law_never_mode_never_logs(v: TagsView, record_log: bool)
    requires
        v.log_mode == LogMode::Never,
    ensures
        commit_log(v, record_log) is None,
{
}

/// A second commit writes nothing.
pub proof fn law_second_commit_writes_nothing(v: TagsView, record_log: bool)
    ensures
        commit_aggregate(after_commit(v)) is None,
        commit_log(after_commit(v), record_log) is None,
{
}

/// Setting tags to the values they have publishes no aggregate.
pub proof fn law_unchanged_tag_is_not_published(
    v: TagsView,
    key: Seq<char>,
    value: Json,
    o: SetProcessorTagOptions,
)
    requires
        v.dirty.len() == 0,
        is_same(v, target_app(v, o), key, value),
    ensures
        commit_aggregate(after_set(v, key, value, o)) is None,
{
}

/// The tag that a document of tags by app holds.
pub open spec fn tag_in(doc: Option<Json>, app: Seq<char>, key: Seq<char>) -> Option<Json> {
    match doc {
        Some(d) => field2(d, app, key),
        None => None,
    }
}

proof fn lemma_nested_put(e: Entries, app: Seq<char>, key: Seq<char>, v: Json)
    ensures
        nested_at(nested_put(e, app, key, v), app, key) == Some(v),
        forall|q: Seq<char>| q != app ==> #[trigger] at(nested_put(e, app, key, v), q) == at(e, q),
        at(nested_put(e, app, key, v), app) matches Some(x) && x is Obj && x->Obj_0.len() > 0,
        nested_put(e, app, key, v).len() > 0,
        forall|q: Seq<char>|
            q != key ==> #[trigger] nested_at(nested_put(e, app, key, v), app, q) == (match at(
                e,
                app,
            ) {
                Some(Json::Obj(inner)) => at(inner, q),
                _ => None,
            }),
{
    match at(e, app) {
        Some(Json::Obj(inner)) => {
            lemma_put(inner, key, v);
            lemma_put(e, app, Json::Obj(put(inner, key, v)));
        },
        _ => {
            let one = seq![(key, v)];
            lemma_put(e, app, Json::Obj(one));
            lemma_position(one, key);
            assert(one[0].0 == key);
            assert forall|q: Seq<char>| q != key implies at(one, q) is None by {
                lemma_at_one(key, v, q);
            }
        },
    }
}

proof fn lemma_scoped(e: Entries, app: Seq<char>, external: bool, target: Seq<char>, key: Seq<char>)
    requires
        external || target == app,
        nested_at(e, target, key) is Some,
    ensures
        tag_in(scoped(e, app, external), target, key) == nested_at(e, target, key),
{
    lemma_position(e, target);
    if !external {
        let own = at(e, app).unwrap();
        lemma_position(own->Obj_0, key);
        lemma_at_one(app, own, app);
    }
}

/// A tag that was set to a new value is in the aggregate update of the next commit, with
/// that value, whichever app it belongs to.
pub proof fn law_changed_tags_are_published(
    v: TagsView,
    key: Seq<char>,
    value: Json,
    o: SetProcessorTagOptions,
)
    requires
        ({
            let app = target_app(v, o);
            match nested_at(v.tag_values, app, key) {
                Some(x) => !same_doc(x, value),
                None => !(value is Null),
            }
        }),
    ensures
        tag_in(commit_aggregate(after_set(v, key, value, o)), target_app(v, o), key) == Some(value),
        target_app(v, o) == (match o.app_key {
            Some(k) => k@,
            None => v.app_key,
        }),
{
    let app = target_app(v, o);
    let is = after_set(v, key, value, o);
    lemma_nested_put(v.tag_values, app, key, value);
    lemma_nested_put(v.dirty, app, key, value);
    lemma_scoped(is.tag_values, is.app_key, is.update_external_tags, app, key);
}

/// A tag that is set with a data point asked for is in the logged message of the next
/// commit, with an equal value, unless the mode never logs or logs changes alone and the
/// value did not move.
pub proof fn law_logged_tags_are_logged(
    v: TagsView,
    key: Seq<char>,
    value: Json,
    o: SetProcessorTagOptions,
    record_log: bool,
)
    requires
        o.log,
        tidy(value),
        !(value is Null),
        v.log_mode != LogMode::Never,
        v.log_mode == LogMode::OnlyChanged ==> (match nested_at(
            v.tag_values,
            target_app(v, o),
            key,
        ) {
            Some(x) => !same_doc(x, value),
            None => true,
        }),
    ensures
        tag_in(
            commit_log(after_set(v, key, value, o), record_log),
            target_app(v, o),
            key,
        ) matches Some(x) && same_doc(x, value),
{
    let app = target_app(v, o);
    let is = after_set(v, key, value, o);
    lemma_same_doc_reflexive(value);
    lemma_nested_put(v.tag_values, app, key, value);
    lemma_nested_put(v.dirty, app, key, value);
    lemma_nested_put(v.touched, app, key, value);
    match v.log_mode {
        LogMode::Always => {
            lemma_scoped(is.tag_values, is.app_key, is.update_external_tags, app, key);
        },
        LogMode::OnlyChanged => {
            lemma_scoped(is.dirty, is.app_key, is.update_external_tags, app, key);
        },
        LogMode::OnlySet => {
            lemma_scoped(is.touched, is.app_key, is.update_external_tags, app, key);
        },
        LogMode::Never => {},
    }
}

/// A commit that is itself to log has every tag that moved in its logged message, unless
/// the mode never logs.
pub proof fn law_recorded_commits_log_what_moved(
    v: TagsView,
    key: Seq<char>,
    value: Json,
    o: SetProcessorTagOptions,
)
    requires
        v.log_mode != LogMode::Never,
        match nested_at(v.tag_values, target_app(v, o), key) {
            Some(x) => !same_doc(x, value),
            None => !(value is Null),
        },
    ensures
        tag_in(commit_log(after_set(v, key, value, o), true), target_app(v, o), key) == Some(value),
{
    let app = target_app(v, o);
    let is = after_set(v, key, value, o);
    lemma_nested_put(v.tag_values, app, key, value);
    lemma_nested_put(v.dirty, app, key, value);
    lemma_nested_put(v.touched, app, key, value);
    match v.log_mode {
        LogMode::Always => {
            lemma_scoped(is.tag_values, is.app_key, is.update_external_tags, app, key);
        },
        LogMode::OnlyChanged => {
            lemma_scoped(is.dirty, is.app_key, is.update_external_tags, app, key);
        },
        LogMode::OnlySet => {
            lemma_scoped(is.touched, is.app_key, is.update_external_tags, app, key);
        },
        LogMode::Never => {},
    }
}

/// Nothing is logged that nobody asked for, and tags that were all set to what they were
/// publish nothing. The mode of set tags alone counts setting as a reason to commit.
pub proof fn law_nothing_is_written_unasked(
    v: TagsView,
    key: Seq<char>,
    value: Json,
    o: SetProcessorTagOptions,
)
    requires
        v.update_tags == false,
        v.dirty.len() == 0,
        !o.log,
    ensures
        !v.record_tag_update ==> commit_log(after_set(v, key, value, o), false) is None,
        (nested_at(v.tag_values, target_app(v, o), key) matches Some(x) && same_doc(x, value)) ==> {
            let is = after_set(v, key, value, o);
            &&& commit_aggregate(is) is None
            &&& is.tag_values == v.tag_values
            &&& v.log_mode != LogMode::OnlySet ==> commit_log(is, true) is None && is.update_tags
                == false
        },
{
}

/// While no other app's tags were written, a commit writes this app's tags and nothing
/// else.
pub proof fn law_other_apps_are_left_out(v: TagsView, record_log: bool)
    requires
        v.update_external_tags == false,
    ensures
        commit_aggregate(v) matches Some(d) ==> at(v.tag_values, v.app_key) matches Some(own) && d
            == Json::Obj(seq![(v.app_key, own)]),
        commit_log(v, record_log) matches Some(d) ==> d is Obj && d->Obj_0.len() == 1
            && d->Obj_0[0].0 == v.app_key,
{
}

/// Writing a tag of another app makes commits write every app's tags; writing one of this
/// app's does not.
pub proof fn law_external_writes_are_noticed(
    v: TagsView,
    key: Seq<char>,
    value: Json,
    o: SetProcessorTagOptions,
)
    ensures
        ({
            let is = after_set(v, key, value, o);
            let moved = match nested_at(v.tag_values, target_app(v, o), key) {
                Some(x) => !same_doc(x, value),
                None => !same_doc(Json::Null, value),
            };
            &&& target_app(v, o) == v.app_key ==> is.update_external_tags == v.update_external_tags
            &&& target_app(v, o) != v.app_key && (moved || o.log) ==> is.update_external_tags
            &&& moved || o.log ==> is.update_tags
            &&& o.log ==> is.record_tag_update
            &&& !o.log ==> is.record_tag_update == v.record_tag_update
            &&& is.log_mode == v.log_mode && is.app_key == v.app_key && is.agent_id == v.agent_id
        }),
{
}

/// In the mode of changes alone the logged message holds no tag of this app but those that
/// moved since the last commit, and in the mode of set tags none but those that were set.
pub proof fn law_modes_leave_out_the_rest(
    v: TagsView,
    key: Seq<char>,
    value: Json,
    o: SetProcessorTagOptions,
    other: Seq<char>,
    record_log: bool,
)
    requires
        v.dirty.len() == 0,
        v.touched.len() == 0,
        target_app(v, o) == v.app_key,
        other != key,
        v.log_mode == LogMode::OnlyChanged || v.log_mode == LogMode::OnlySet,
    ensures
        tag_in(commit_log(after_set(v, key, value, o), record_log), v.app_key, other) is None,
{
    let app = v.app_key;
    let is = after_set(v, key, value, o);
    assert(v.dirty =~= Seq::empty());
    assert(v.touched =~= Seq::empty());
    lemma_at_none(app);
    lemma_nested_put(v.dirty, app, key, value);
    lemma_nested_put(v.touched, app, key, value);
    assert(nested_at(nested_put(v.dirty, app, key, value), app, other) is None);
    assert(nested_at(nested_put(v.touched, app, key, value), app, other) is None);
    if let Some(own) = at(is.dirty, app) {
        lemma_at_one(app, own, app);
    }
    if let Some(own) = at(is.touched, app) {
        lemma_at_one(app, own, app);
    }
}

/// After a commit every tag still reads as before, and nothing of what was written is
/// written again.
pub proof fn law_commits_keep_the_tags(v: TagsView)
    ensures
        after_commit(v).tag_values == v.tag_values,
        after_commit(v).app_key == v.app_key,
        after_commit(v).log_mode == v.log_mode,
        after_commit(v).update_tags == false,
        v.update_tags ==> after_commit(v).dirty.len() == 0 && after_commit(v).touched.len() == 0,
{
}

} // verus!
