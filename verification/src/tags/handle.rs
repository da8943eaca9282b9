//! Tag declarations: the name, type, default and rules of a tag, and how an
//! interface element refers to it.
use vstd::prelude::*;

use crate::diff::tidy;
use crate::diff_laws::carries;
use crate::error::{is_other, DooverError};
use crate::json::{opt_doc, ref_doc, Json, Value};
use crate::json_text::{json_text, to_text, written};
use crate::tags::key_path::{found, law_construct_then_lookup, tag_path, wrapped};
use crate::tags::runtime::{
    after_set, after_triggers, current, others, promoted, set_outcome, trigger_count, write_fires,
    RuntimeView, SetOutcome, SetTagOptions, TagsRuntime,
};
use crate::tags::runtime_laws::{law_set_then_get, lemma_wrapped_tidy, sound};
use crate::tags::triggers::{
    copy_triggers, mismatch_message, numeric_type, state_type, trigger_views, unsupported_message,
    validate_log_on, LogTrigger, SetView, StateView, TriggerView,
};
use crate::tags::value::{TagType, TagValue};
use crate::text::{concat, same};

verus! {

/// The type name that an interface element uses for a declared tag type.
pub open spec fn ui_type(t: Seq<char>) -> Seq<char> {
    if t == "integer"@ || t == "float"@ {
        "number"@
    } else if t == "bool"@ {
        "boolean"@
    } else if t == "list"@ {
        "array"@
    } else if t == "dict"@ {
        "object"@
    } else {
        t
    }
}

/// The type name that an interface element uses for a declared tag type.
pub fn ui_tag_type(tag_type: &str) -> (r: &str)
    ensures
        r@ == ui_type(tag_type@),
{
    if same(tag_type, "integer") || same(tag_type, "float") {
        "number"
    } else if same(tag_type, "bool") {
        "boolean"
    } else if same(tag_type, "list") {
        "array"
    } else if same(tag_type, "dict") {
        "object"
    } else {
        tag_type
    }
}

/// Mapping a type name twice is mapping it once.
pub proof fn law_ui_type_is_idempotent(t: Seq<char>)
    ensures
        ui_type(ui_type(t)) == ui_type(t),
{
    reveal_strlit("integer");
    reveal_strlit("float");
    reveal_strlit("bool");
    reveal_strlit("list");
    reveal_strlit("dict");
    reveal_strlit("number");
    reveal_strlit("boolean");
    reveal_strlit("array");
    reveal_strlit("object");
    let names = seq!["integer"@, "float"@, "bool"@, "list"@, "dict"@];
    assert("number"@[0] == 'n' && "integer"@[0] == 'i' && "float"@[0] == 'f' && "bool"@.len() == 4
        && "boolean"@.len() == 7 && "list"@[0] == 'l' && "dict"@[0] == 'd' && "array"@[0] == 'a'
        && "object"@[0] == 'o');
}

/// The reference `$tag.app().<name>[:<type>[:<default>]]`, from the text of the
/// default. A default without a type makes the type a string.
pub open spec fn reference(
    name: Seq<char>,
    tag_type: Option<Seq<char>>,
    default: Option<Seq<char>>,
) -> Seq<char> {
    let head = "$tag.app()."@ + name + (match tag_type {
        Some(t) => ":"@ + t,
        None => Seq::empty(),
    });
    match default {
        Some(d) => head + (if tag_type is None {
            ":string"@
        } else {
            Seq::empty()
        }) + ":"@ + d,
        None => head,
    }
}

/// The characters of an optional borrowed string.
pub open spec fn opt_view(s: Option<&str>) -> Option<Seq<char>> {
    match s {
        Some(t) => Some(t@),
        None => None,
    }
}

/// The reference to a tag, from the text of its default.
pub fn tag_reference(name: &str, tag_type: Option<&str>, default: Option<&str>) -> (r: String)
    ensures
        r@ == reference(name@, opt_view(tag_type), opt_view(default)),
{
    let mut r = concat("$tag.app().", name);
    let ghost head = r@;
    match tag_type {
        Some(t) => {
            r.append(":");
            r.append(t);
            assert(r@ =~= head + (":"@ + t@));
        },
        None => {
            assert(r@ =~= head + Seq::<char>::empty());
        },
    }
    let ghost full = r@;
    match default {
        Some(d) => {
            if tag_type.is_none() {
                r.append(":string");
            } else {
                assert(r@ =~= full + Seq::<char>::empty());
            }
            r.append(":");
            r.append(d);
        },
        None => {},
    }
    r
}

/// The text of an optional default.
pub open spec fn default_text(default: Option<Json>) -> Option<Seq<char>> {
    match default {
        Some(d) => Some(json_text(written(d))),
        None => None,
    }
}

/// The reference to a tag. No default is not the same as a default of null.
pub fn tag_ref_lookup(name: &str, tag_type: Option<&str>, default: Option<&Value>) -> (r: String)
    ensures
        r@ == reference(name@, opt_view(tag_type), default_text(ref_doc(default))),
{
    match default {
        Some(d) => {
            let text = to_text(d);
            tag_reference(name, tag_type, Some(text.as_str()))
        },
        None => tag_reference(name, tag_type, None),
    }
}

/// A declared tag that holds values of a type.
#[derive(Debug)]
pub struct Tag<T> {
    name: String,
    live: bool,
    default: Option<Value>,
    log_on: Vec<LogTrigger>,
    bound: bool,
    marker: core::marker::PhantomData<T>,
}

/// The model of a declared tag. No default is not the same as one of null.
#[verifier::ext_equal]
pub struct TagView {
    pub name: Seq<char>,
    pub live: bool,
    pub default: Option<Json>,
    pub log_on: Seq<TriggerView>,
    /// Whether the tag is attached to a manager.
    pub bound: bool,
}

impl<T> View for Tag<T> {
    type V = TagView;

    closed spec fn view(&self) -> TagView {
        TagView {
            name: self.name@,
            live: self.live,
            default: opt_doc(self.default),
            log_on: trigger_views(self.log_on@),
            bound: self.bound,
        }
    }
}

impl<T> Clone for Tag<T> {
    fn clone(&self) -> (t: Self)
        ensures
            t@ == self@,
    {
        let t = Tag {
            name: self.name.clone(),
            live: self.live,
            default: match &self.default {
                Some(d) => Some(d.clone()),
                None => None,
            },
            log_on: copy_triggers(&self.log_on),
            bound: self.bound,
            marker: core::marker::PhantomData,
        };
        assert(t@ =~= self@);
        t
    }
}

/// Whether a tag of the type takes the rules.
pub open spec fn takes(t: TagType, rules: Seq<TriggerView>) -> bool {
    let numeric = numeric_type(t.name());
    &&& numeric || state_type(t.name())
    &&& forall|i: int| 0 <= i < rules.len() ==> (#[trigger] rules[i]).numeric() == numeric
}

/// Whether a message says why a tag of the type does not take the rules: the type takes
/// none, or the first rule that does not fit.
pub open spec fn is_refused(t: TagType, rules: Seq<TriggerView>, m: Seq<char>) -> bool {
    let numeric = numeric_type(t.name());
    if !numeric && !state_type(t.name()) {
        m == unsupported_message(t.name())
    } else {
        exists|i: int|
            0 <= i < rules.len() && (#[trigger] rules[i]).numeric() != numeric && m
                == mismatch_message(t.name(), rules[i].kind()) && forall|j: int|
                0 <= j < i ==> (#[trigger] rules[j]).numeric() == numeric
    }
}

/// A value that is there and not null.
pub open spec fn non_null(v: Option<Json>) -> Option<Json> {
    match v {
        Some(Json::Null) => None,
        _ => v,
    }
}

/// The document that a tag shows: what its manager holds, else its default; null counts
/// as nothing, and a tag without a manager shows its default.
pub open spec fn shown(t: TagView, rt: RuntimeView) -> Option<Json> {
    let stored = non_null(found(tag_path(rt.app_key, t.name), current(rt)));
    if t.bound && stored is Some {
        stored
    } else {
        non_null(t.default)
    }
}

/// Whether an error is that of writing a tag that has no manager.
pub open spec fn is_detached(e: DooverError, name: Seq<char>) -> bool {
    is_other(e, "tag '"@ + name + "': tags not attached"@)
}

/// The error of writing a tag that has no manager.
pub fn not_attached(name: &str) -> (e: DooverError)
    ensures
        is_detached(e, name@),
{
    let mut m = concat("tag '", name);
    m.append("': tags not attached");
    DooverError::Other(m)
}

/// Whether a write of a tag went as it should. A tag without a manager cannot be
/// written; otherwise the write is one of the manager, under the app's key.
pub open spec fn is_written(
    t: TagView,
    doc: Json,
    opts: SetTagOptions,
    far: Seq<bool>,
    was: RuntimeView,
    is: RuntimeView,
    r: Result<SetOutcome, DooverError>,
) -> bool {
    let path = tag_path(was.app_key, t.name);
    let mid = after_triggers(was, path, doc, far);
    let o = promoted(opts, write_fires(was, path, doc, far));
    if t.bound {
        is == after_set(mid, wrapped(path, doc), o) && (r matches Ok(out) && set_outcome(
            mid,
            wrapped(path, doc),
            o,
            out,
        ))
    } else {
        is == was && (r matches Err(e) && is_detached(e, t.name))
    }
}

impl<T: TagValue> Tag<T> {
    /// Declares a tag without rules and without a manager.
    pub fn declared(name: &str, live: bool, default: Option<Value>) -> (t: Self)
        ensures
            t@ == (TagView {
                name: name@,
                live,
                default: opt_doc(default),
                log_on: Seq::empty(),
                bound: false,
            }),
    {
        let t = Tag {
            name: name.to_owned(),
            live,
            default,
            log_on: Vec::new(),
            bound: false,
            marker: core::marker::PhantomData,
        };
        assert(t@.log_on =~= Seq::empty());
        t
    }

    /// Declares the rules by which writes are logged. Rules that the tag's type
    /// does not take are refused.
    pub fn with_log_on(self, triggers: Vec<LogTrigger>) -> (r: Result<Tag<T>, String>)
        ensures
            match r {
                Ok(t) => takes(T::kind(), trigger_views(triggers@)) && t@ == (TagView {
                    log_on: trigger_views(triggers@),
                    ..self@
                }),
                Err(m) => is_refused(T::kind(), trigger_views(triggers@), m@),
            },
    {
        let ghost rules = trigger_views(triggers@);
        match validate_log_on(T::tag_type().as_str(), &triggers) {
            Ok(_) => {
                assert forall|i: int| 0 <= i < rules.len() implies (#[trigger] rules[i]).numeric()
                    == numeric_type(T::kind().name()) by {
                    assert(triggers@[i]@ == rules[i]);
                }
                Ok(
                    Tag {
                        name: self.name,
                        live: self.live,
                        default: self.default,
                        log_on: triggers,
                        bound: self.bound,
                        marker: self.marker,
                    },
                )
            },
            Err(m) => {
                proof {
                    let numeric = numeric_type(T::kind().name());
                    if numeric || state_type(T::kind().name()) {
                        let i = choose|i: int|
                            0 <= i < triggers@.len() && (#[trigger] triggers@[i])@.numeric()
                                != numeric && m@ == mismatch_message(
                                T::kind().name(),
                                triggers@[i]@.kind(),
                            ) && forall|j: int|
                                0 <= j < i ==> (#[trigger] triggers@[j])@.numeric() == numeric;
                        assert(rules[i] == triggers@[i]@);
                        assert forall|j: int| 0 <= j < i implies (#[trigger] rules[j]).numeric()
                            == numeric by {
                            assert(rules[j] == triggers@[j]@);
                        }
                    }
                }
                Err(m)
            },
        }
    }

    /// The rules by which writes are logged.
    pub fn log_on(&self) -> (r: &Vec<LogTrigger>)
        ensures
            trigger_views(r@) == self@.log_on,
    {
        &self.log_on
    }

    /// Attaches the tag to a manager, which learns its rules if it has any.
    pub fn attached(self, runtime: &mut TagsRuntime) -> (t: Tag<T>)
        requires
            old(runtime).wf(),
        ensures
            t@ == (TagView { bound: true, ..self@ }),
            final(runtime).wf(),
            if self@.log_on.len() == 0 {
                final(runtime)@ == old(runtime)@
            } else {
                let path = tag_path(old(runtime)@.app_key, self@.name);
                &&& final(runtime)@ == (RuntimeView {
                    log_triggers: final(runtime)@.log_triggers,
                    ..old(runtime)@
                })
                &&& final(runtime)@.log_triggers == others(
                    old(runtime)@.log_triggers,
                    path,
                ).push(
                    (
                        path,
                        SetView {
                            triggers: self@.log_on,
                            states: Seq::new(
                                self@.log_on.len(),
                                |i: int| (StateView { sides: None, last_logged: None }),
                            ),
                            default: self@.default,
                        },
                    ),
                )
            },
    {
        if self.log_on.len() > 0 {
            let key = runtime.app_key().to_owned();
            let default = match &self.default {
                Some(d) => Some(d.clone()),
                None => None,
            };
            runtime.register_log_triggers(
                key.as_str(),
                self.name.as_str(),
                copy_triggers(&self.log_on),
                default,
            );
        }
        Tag {
            name: self.name,
            live: self.live,
            default: self.default,
            log_on: self.log_on,
            bound: true,
            marker: self.marker,
        }
    }

    /// The name of the tag: its key in the app's namespace.
    pub fn name(&self) -> (r: &str)
        ensures
            r@ == self@.name,
    {
        self.name.as_str()
    }

    /// Whether the tag is streamed while someone watches it.
    pub fn is_live(&self) -> (r: bool)
        ensures
            r == self@.live,
    {
        self.live
    }

    /// The name of the tag's type.
    pub fn tag_type(&self) -> (r: &'static str)
        ensures
            r@ == T::kind().name(),
    {
        T::tag_type().as_str()
    }

    /// The declared default.
    pub fn default(&self) -> (r: Option<&Value>)
        ensures
            ref_doc(r) == self@.default,
    {
        self.default.as_ref()
    }

    /// How an interface element refers to this tag.
    pub fn ui_reference(&self) -> (r: String)
        ensures
            r@ == reference(
                self@.name,
                Some(ui_type(T::kind().name())),
                default_text(self@.default),
            ),
    {
        tag_ref_lookup(
            self.name.as_str(),
            Some(ui_tag_type(T::tag_type().as_str())),
            self.default.as_ref(),
        )
    }

    /// The current value: what the manager holds, else the default. A document that is
    /// no value of the tag's type counts as none.
    pub fn get(&self, runtime: &TagsRuntime) -> (r: Option<T>)
        ensures
            match shown(self@, runtime@) {
                Some(d) => match r {
                    Some(v) => T::readable(d) && v.stands_for(d),
                    None => !T::readable(d),
                },
                None => r is None,
            },
    {
        if self.bound {
            let stored = runtime.get_tag(runtime.app_key(), self.name.as_str());
            if let Some(v) = stored {
                if !v.is_null() {
                    return T::from_value(&v);
                }
            }
        }
        match &self.default {
            Some(d) => {
                if d.is_null() {
                    None
                } else {
                    T::from_value(d)
                }
            },
            None => None,
        }
    }

    /// Writes the tag at the end of the loop, if the value is a new one.
    pub fn set(&self, value: &T, runtime: &mut TagsRuntime, far: &Vec<bool>) -> (r: Result<
        SetOutcome,
        DooverError,
    >)
        requires
            old(runtime).wf(),
            far@.len() == trigger_count(
                old(runtime)@,
                tag_path(old(runtime)@.app_key, self@.name),
            ),
        ensures
            final(runtime).wf(),
            is_written(
                self@,
                value.doc(),
                SetTagOptions { only_if_changed: true, flush: false, log: false },
                far@,
                old(runtime)@,
                final(runtime)@,
                r,
            ),
    {
        self.set_with(value, &SetTagOptions::default(), runtime, far)
    }

    /// Writes the tag as [`Tag::set`] does, and has the write logged at the end of the
    /// loop.
    pub fn set_logged(&self, value: &T, runtime: &mut TagsRuntime, far: &Vec<bool>) -> (r: Result<
        SetOutcome,
        DooverError,
    >)
        requires
            old(runtime).wf(),
            far@.len() == trigger_count(
                old(runtime)@,
                tag_path(old(runtime)@.app_key, self@.name),
            ),
        ensures
            final(runtime).wf(),
            is_written(
                self@,
                value.doc(),
                SetTagOptions { only_if_changed: true, flush: false, log: true },
                far@,
                old(runtime)@,
                final(runtime)@,
                r,
            ),
    {
        let opts = SetTagOptions { only_if_changed: true, flush: false, log: true };
        self.set_with(value, &opts, runtime, far)
    }

    fn set_with(
        &self,
        value: &T,
        opts: &SetTagOptions,
        runtime: &mut TagsRuntime,
        far: &Vec<bool>,
    ) -> (r: Result<SetOutcome, DooverError>)
        requires
            old(runtime).wf(),
            far@.len() == trigger_count(
                old(runtime)@,
                tag_path(old(runtime)@.app_key, self@.name),
            ),
        ensures
            final(runtime).wf(),
            is_written(
                self@,
                value.doc(),
                *opts,
                far@,
                old(runtime)@,
                final(runtime)@,
                r,
            ),
    {
        if !self.bound {
            return Err(not_attached(self.name.as_str()));
        }
        let key = runtime.app_key().to_owned();
        Ok(runtime.set_tag(key.as_str(), self.name.as_str(), value.to_value(), opts, far))
    }
}

/// A collection of declared tags.
pub trait TagsCollection: Sized {
    /// The tags, attached to a manager.
    fn attach(runtime: &mut TagsRuntime) -> Self;

    /// The tags without a manager.
    fn detached() -> Self;

    /// The names of the tags, in the order of their declaration.
    fn tag_names() -> Vec<&'static str>;

    /// The names of the tags that are streamed while someone watches them.
    fn live_tag_names() -> Vec<&'static str>;
}

/// An application without tags.
impl TagsCollection for () {
    fn attach(_runtime: &mut TagsRuntime) -> (r: Self)
        ensures
            *final(_runtime) == *old(_runtime),
    {
    }

    fn detached() -> (r: Self) {
    }

    fn tag_names() -> (r: Vec<&'static str>)
        ensures
            r@.len() == 0,
    {
        Vec::new()
    }

    fn live_tag_names() -> (r: Vec<&'static str>)
        ensures
            r@.len() == 0,
    {
        Vec::new()
    }
}

/// A tag shows what was written to it, unless that is null: then it shows its default.
pub proof fn law_written_tags_are_shown(
    t: TagView,
    doc: Json,
    opts: SetTagOptions,
    far: Seq<bool>,
    was: RuntimeView,
    is: RuntimeView,
    r: Result<SetOutcome, DooverError>,
)
    requires
        t.bound,
        sound(was),
        tidy(doc),
        is_written(t, doc, opts, far, was, is, r),
    ensures
        !(doc is Null) ==> (shown(t, is) matches Some(x) && carries(x, doc)),
        doc is Null ==> shown(t, is) == non_null(t.default),
{
    let path = tag_path(was.app_key, t.name);
    let mid = after_triggers(was, path, doc, far);
    let o = promoted(opts, write_fires(was, path, doc, far));
    law_construct_then_lookup(path, doc);
    lemma_wrapped_tidy(path, doc);
    law_set_then_get(mid, wrapped(path, doc), o, path, doc);
}

/// A tag without a manager shows its default and cannot be written.
pub proof fn law_detached_tags_are_fixed(
    t: TagView,
    doc: Json,
    opts: SetTagOptions,
    far: Seq<bool>,
    was: RuntimeView,
    is: RuntimeView,
    r: Result<SetOutcome, DooverError>,
)
    requires
        !t.bound,
        is_written(t, doc, opts, far, was, is, r),
    ensures
        r is Err,
        is == was,
        shown(t, is) == non_null(t.default),
{
}

/// A reference names the tag behind the app of its own; a type and a default follow behind
/// colons. A default without a type is taken for a string.
pub proof fn law_references_name_tag_type_and_default(
    name: Seq<char>,
    t: Seq<char>,
    d: Seq<char>,
)
    ensures
        reference(name, None, None) == "$tag.app()."@ + name,
        reference(name, Some(t), None) == reference(name, None, None) + ":"@ + t,
        reference(name, Some(t), Some(d)) == reference(name, Some(t), None) + ":"@ + d,
        reference(name, None, Some(d)) == reference(name, Some("string"@), Some(d)),
{
    reveal_strlit(":");
    reveal_strlit("string");
    reveal_strlit(":string");
    assert(":string"@ =~= ":"@ + "string"@);
    assert(reference(name, None, None) =~= "$tag.app()."@ + name);
    assert(reference(name, Some(t), None) =~= reference(name, None, None) + ":"@ + t);
    assert(reference(name, Some(t), Some(d)) =~= reference(name, Some(t), None) + ":"@ + d);
    assert(reference(name, None, Some(d)) =~= reference(name, Some("string"@), Some(d)));
}

/// In an interface both kinds of numbers are numbers, and a tag type that has a name of its
/// own there goes by it; every other type keeps its name.
pub proof fn law_interface_types(t: Seq<char>)
    ensures
        ui_type("integer"@) == "number"@,
        ui_type("float"@) == "number"@,
        ui_type("bool"@) == "boolean"@,
        ui_type("list"@) == "array"@,
        ui_type("dict"@) == "object"@,
        t != "integer"@ && t != "float"@ && t != "bool"@ && t != "list"@ && t != "dict"@
            ==> ui_type(t) == t,
{
    reveal_strlit("integer");
    reveal_strlit("float");
    reveal_strlit("bool");
    reveal_strlit("list");
    reveal_strlit("dict");
    assert("bool"@[0] != "integer"@[0] && "bool"@[0] != "float"@[0]);
    assert("list"@[0] != "integer"@[0] && "list"@[0] != "float"@[0] && "list"@[0] != "bool"@[0]);
    assert("dict"@[0] != "integer"@[0] && "dict"@[0] != "float"@[0] && "dict"@[0] != "bool"@[0]
        && "dict"@[0] != "list"@[0]);
}

/// A bound tag shows what the tags hold under its path, unless that is null or missing; then,
/// and while it is not bound, it shows its default. It never shows null.
pub proof fn law_tags_show_their_value_or_default(t: TagView, rt: RuntimeView, v: Json)
    ensures
        t.bound && found(tag_path(rt.app_key, t.name), current(rt)) == Some(v) && !(v is Null)
            ==> shown(t, rt) == Some(v),
        !t.bound || found(tag_path(rt.app_key, t.name), current(rt)) is None || found(
            tag_path(rt.app_key, t.name),
            current(rt),
        ) == Some(Json::Null) ==> shown(t, rt) == (match t.default {
            Some(Json::Null) => None,
            d => d,
        }),
        shown(t, rt) != Some(Json::Null),
{
}

/// Number tags take rules that compare numbers, boolean and text tags take rules on changes of
/// state, and object tags take none.
pub proof fn law_tags_take_rules_of_their_kind(rules: Seq<TriggerView>)
    ensures
        takes(TagType::Number, rules) <==> forall|i: int|
            0 <= i < rules.len() ==> !((#[trigger] rules[i]) is AnyChange || rules[i] is Enter
                || rules[i] is Exit),
        takes(TagType::Integer, rules) <==> takes(TagType::Number, rules),
        takes(TagType::Boolean, rules) <==> forall|i: int|
            0 <= i < rules.len() ==> ((#[trigger] rules[i]) is AnyChange || rules[i] is Enter
                || rules[i] is Exit),
        takes(TagType::Text, rules) <==> takes(TagType::Boolean, rules),
        !takes(TagType::Object, rules),
{
    reveal_strlit("number");
    reveal_strlit("integer");
    reveal_strlit("float");
    reveal_strlit("boolean");
    reveal_strlit("string");
    reveal_strlit("object");
    assert("boolean"@[0] == 'b' && "string"@[0] == 's' && "object"@[0] == 'o');
    assert("number"@[0] == 'n' && "integer"@[0] == 'i' && "float"@[0] == 'f');
}

/// Rules that do not fit are refused with the first one that does not.
pub proof fn law_the_first_misfit_is_told(rules: Seq<TriggerView>, k: int, m: Seq<char>)
    requires
        0 <= k < rules.len(),
    ensures
        is_refused(TagType::Number, rules, m) && (rules[k] is AnyChange || rules[k] is Enter
            || rules[k] is Exit) && (forall|j: int|
            0 <= j < k ==> !((#[trigger] rules[j]) is AnyChange || rules[j] is Enter || rules[j]
                is Exit)) ==> m == mismatch_message("number"@, rules[k].kind()),
        is_refused(TagType::Text, rules, m) && !(rules[k] is AnyChange || rules[k] is Enter
            || rules[k] is Exit) && (forall|j: int|
            0 <= j < k ==> ((#[trigger] rules[j]) is AnyChange || rules[j] is Enter || rules[j]
                is Exit)) ==> m == mismatch_message("string"@, rules[k].kind()),
        is_refused(TagType::Object, rules, m) ==> m == unsupported_message("object"@),
{
    law_tags_take_rules_of_their_kind(rules);
    reveal_strlit("number");
    reveal_strlit("integer");
    reveal_strlit("float");
    reveal_strlit("boolean");
    reveal_strlit("string");
    reveal_strlit("object");
    assert("boolean"@[0] == 'b' && "string"@[0] == 's' && "object"@[0] == 'o');
    assert("number"@[0] == 'n' && "integer"@[0] == 'i' && "float"@[0] == 'f');
    let here = rules[k].numeric();
    assert(forall|i: int|
        0 <= i < rules.len() ==> (#[trigger] rules[i]).numeric() == !(rules[i] is AnyChange
            || rules[i] is Enter || rules[i] is Exit));
}

} // verus!
