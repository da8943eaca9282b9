//! Declared tags: their options, and the code that builds their handles.
use vstd::prelude::*;

use crate::derive::fields::{generic_inner, inside, TypeDesc};
use crate::derive::log_on::{
    can_be_readings, kind_of_trigger, list_items, log_on_of, read_items, reading_views,
    readings_fit, spec_views, trigger_code, triggers_with, SpecView, Tok, TriggerSpec,
};
use crate::derive::structs::DeclFault;
use crate::text::{concat, debug_text, join, joined, opt_chars, quoted, same, views};

verus! {

// ---- options ---------------------------------------------------------------------------

/// The value of an option of a tag.
#[derive(Debug)]
pub enum TagValueTokens {
    /// The option has no value.
    Flag,
    Text(String),
    /// The tokens of an expression.
    Expr(String),
    /// What stands in the brackets behind the option.
    List(Vec<Tok>),
}

/// The options of a tag.
#[derive(Debug)]
pub struct TagAttrs {
    pub live: bool,
    pub name: Option<String>,
    /// The tokens of the default.
    pub default: Option<String>,
    pub log_on: Vec<TriggerSpec>,
}

/// The model of the options of a tag.
#[verifier::ext_equal]
pub struct TagAttrsView {
    pub live: bool,
    pub name: Option<Seq<char>>,
    pub default: Option<Seq<char>>,
    pub log_on: Seq<SpecView>,
}

impl View for TagAttrs {
    type V = TagAttrsView;

    open spec fn view(&self) -> TagAttrsView {
        TagAttrsView {
            live: self.live,
            name: opt_chars(self.name),
            default: opt_chars(self.default),
            log_on: spec_views(self.log_on@),
        }
    }
}

/// A tag without options.
pub open spec fn no_tag_attrs() -> TagAttrsView {
    TagAttrsView { live: false, name: None, default: None, log_on: Seq::empty() }
}

impl Default for TagAttrs {
    fn default() -> (a: Self)
        ensures
            a@ == no_tag_attrs(),
    {
        let a = TagAttrs { live: false, name: None, default: None, log_on: Vec::new() };
        assert(a@ =~= no_tag_attrs());
        a
    }
}

/// The message that a tag has no such option.
pub open spec fn unknown_option(name: Seq<char>) -> Seq<char> {
    "unknown #[tag] option `"@ + name + "`"@
}

/// The message that an option of a tag has another kind of value.
pub open spec fn wrong_value(name: Seq<char>) -> Seq<char> {
    "wrong kind of value for #[tag] option `"@ + name + "`"@
}

/// The options with one more, or what is wrong with it. Triggers add up; of the others
/// the later wins. `readings` are what came out of reading the arguments of triggers.
pub open spec fn with_tag_option(
    a: TagAttrsView,
    name: Seq<char>,
    v: TagValueTokens,
    readings: Seq<Result<Seq<int>, Seq<char>>>,
) -> Result<TagAttrsView, Seq<char>> {
    if name == "live"@ {
        match v {
            TagValueTokens::Flag => Ok(TagAttrsView { live: true, ..a }),
            _ => Err(wrong_value(name)),
        }
    } else if name == "name"@ {
        match v {
            TagValueTokens::Text(t) => Ok(TagAttrsView { name: Some(t@), ..a }),
            _ => Err(wrong_value(name)),
        }
    } else if name == "default"@ {
        match v {
            TagValueTokens::Expr(t) => Ok(TagAttrsView { default: Some(t@), ..a }),
            _ => Err(wrong_value(name)),
        }
    } else if name == "log_on"@ {
        match v {
            TagValueTokens::List(list) => match log_on_of(list@, readings) {
                Ok(specs) => Ok(TagAttrsView { log_on: a.log_on + specs, ..a }),
                Err(m) => Err(m),
            },
            _ => Err(wrong_value(name)),
        }
    } else {
        Err(unknown_option(name))
    }
}

/// The options that a list gives, or what is wrong with the first that is not accepted.
pub open spec fn tag_attrs_of(
    list: Seq<(String, TagValueTokens)>,
    readings: Seq<Seq<Result<Seq<int>, Seq<char>>>>,
) -> Result<TagAttrsView, Seq<char>>
    decreases list.len(),
{
    if list.len() == 0 {
        Ok(no_tag_attrs())
    } else {
        match tag_attrs_of(list.drop_last(), readings) {
            Err(m) => Err(m),
            Ok(a) => with_tag_option(
                a,
                list.last().0@,
                list.last().1,
                readings[list.len() - 1],
            ),
        }
    }
}

proof fn lemma_tag_attrs_fault(
    list: Seq<(String, TagValueTokens)>,
    readings: Seq<Seq<Result<Seq<int>, Seq<char>>>>,
    n: int,
)
    requires
        0 <= n <= list.len(),
        tag_attrs_of(list.take(n), readings) is Err,
    ensures
        tag_attrs_of(list, readings) == tag_attrs_of(list.take(n), readings),
    decreases list.len(),
{
    if n == list.len() {
        assert(list.take(n) =~= list);
    } else {
        assert(list.drop_last().take(n) =~= list.take(n));
        lemma_tag_attrs_fault(list.drop_last(), readings, n);
    }
}

/// The items of an option: those of a list.
pub open spec fn option_items(v: TagValueTokens) -> Seq<Seq<Tok>> {
    match v {
        TagValueTokens::List(list) => list_items(list@),
        _ => Seq::empty(),
    }
}

/// Whether readings fit options.
pub open spec fn option_readings_fit(
    list: Seq<(String, TagValueTokens)>,
    readings: Seq<Seq<Result<Seq<int>, Seq<char>>>>,
) -> bool {
    &&& readings.len() == list.len()
    &&& forall|i: int|
        0 <= i < list.len() ==> readings_fit(option_items((#[trigger] list[i]).1), readings[i])
}

/// Whether readings can come out of reading the arguments of triggers in options.
pub open spec fn can_be_option_readings(
    list: Seq<(String, TagValueTokens)>,
    readings: Seq<Seq<Result<Seq<int>, Seq<char>>>>,
) -> bool {
    &&& readings.len() == list.len()
    &&& forall|i: int|
        0 <= i < list.len() ==> can_be_readings(option_items((#[trigger] list[i]).1), readings[i])
}

/// The models of the readings of options.
pub open spec fn option_reading_views(list: Seq<Vec<Result<Vec<usize>, String>>>) -> Seq<
    Seq<Result<Seq<int>, Seq<char>>>,
> {
    Seq::new(list.len(), |i: int| reading_views(list[i]@))
}

/// Whether options or a message are the expected ones.
pub open spec fn is_tag_attrs(
    r: Result<TagAttrs, String>,
    expected: Result<TagAttrsView, Seq<char>>,
) -> bool {
    match (r, expected) {
        (Ok(a), Ok(v)) => a@ == v,
        (Err(m), Err(t)) => m@ == t,
        _ => false,
    }
}

impl TagAttrs {
    fn set(
        self,
        name: &str,
        v: TagValueTokens,
        readings: &Vec<Result<Vec<usize>, String>>,
    ) -> (r: Result<TagAttrs, String>)
        requires
            readings_fit(option_items(v), reading_views(readings@)),
        ensures
            is_tag_attrs(r, with_tag_option(self@, name@, v, reading_views(readings@))),
    {
        if same(name, "live") {
            match v {
                TagValueTokens::Flag => Ok(TagAttrs { live: true, ..self }),
                _ => Err(tell("wrong kind of value for #[tag] option `", name)),
            }
        } else if same(name, "name") {
            match v {
                TagValueTokens::Text(t) => Ok(TagAttrs { name: Some(t), ..self }),
                _ => Err(tell("wrong kind of value for #[tag] option `", name)),
            }
        } else if same(name, "default") {
            match v {
                TagValueTokens::Expr(t) => Ok(TagAttrs { default: Some(t), ..self }),
                _ => Err(tell("wrong kind of value for #[tag] option `", name)),
            }
        } else if same(name, "log_on") {
            match v {
                TagValueTokens::List(list) => match triggers_with(&list, readings) {
                    Ok(specs) => {
                        let mut specs = specs;
                        let ghost more = spec_views(specs@);
                        let ghost before = self@;
                        let mut out = self;
                        out.log_on.append(&mut specs);
                        assert(out@ =~= TagAttrsView { log_on: before.log_on + more, ..before });
                        Ok(out)
                    },
                    Err(m) => Err(m),
                },
                _ => Err(tell("wrong kind of value for #[tag] option `", name)),
            }
        } else {
            Err(tell("unknown #[tag] option `", name))
        }
    }
}

fn tell(start: &str, name: &str) -> (m: String)
    ensures
        m@ == start@ + name@ + "`"@,
{
    let mut m = concat(start, name);
    m.append("`");
    m
}

/// The options that a list gives. `readings` are what came out of reading the arguments
/// of the triggers in each option.
pub fn tag_attrs_with(
    options: Vec<(String, TagValueTokens)>,
    readings: &Vec<Vec<Result<Vec<usize>, String>>>,
) -> (r: Result<TagAttrs, String>)
    requires
        option_readings_fit(options@, option_reading_views(readings@)),
    ensures
        is_tag_attrs(r, tag_attrs_of(options@, option_reading_views(readings@))),
{
    let ghost all = options@;
    let ghost known = option_reading_views(readings@);
    let n = readings.len();
    let mut rest = options;
    let mut attrs = TagAttrs::default();
    let mut k: usize = 0;
    assert(all.take(0) =~= Seq::empty());
    while rest.len() > 0
        invariant
            all == options@,
            known == option_reading_views(readings@),
            option_readings_fit(all, known),
            all.len() == n,
            n == readings@.len(),
            k + rest@.len() == all.len(),
            forall|i: int| 0 <= i < rest@.len() ==> #[trigger] rest@[i] == all[k + i],
            tag_attrs_of(all.take(k as int), known) == Ok::<TagAttrsView, Seq<char>>(attrs@),
        decreases rest@.len(),
    {
        let ghost before = rest@;
        let (name, value) = rest.remove(0);
        proof {
            assert((name, value) == before[0]);
            assert(all[k as int] == (name, value));
            assert(known[k as int] == reading_views(readings@[k as int]@));
            assert(all.take(k + 1).drop_last() =~= all.take(k as int));
            assert(all.take(k + 1).last() == all[k as int]);
            assert forall|i: int| 0 <= i < rest@.len() implies #[trigger] rest@[i] == all[k + 1
                + i] by {
                assert(rest@[i] == before[i + 1]);
            }
        }
        match attrs.set(name.as_str(), value, &readings[k]) {
            Ok(a) => {
                attrs = a;
            },
            Err(m) => {
                proof {
                    lemma_tag_attrs_fault(all, known, k + 1);
                }
                return Err(m);
            },
        }
        k += 1;
    }
    assert(all.take(k as int) =~= all);
    Ok(attrs)
}

fn read_options(options: &Vec<(String, TagValueTokens)>) -> (readings: Vec<
    Vec<Result<Vec<usize>, String>>,
>)
    ensures
        option_readings_fit(options@, option_reading_views(readings@)),
        can_be_option_readings(options@, option_reading_views(readings@)),
{
    let mut readings: Vec<Vec<Result<Vec<usize>, String>>> = Vec::new();
    let mut i: usize = 0;
    while i < options.len()
        invariant
            i <= options@.len(),
            readings@.len() == i,
            forall|j: int|
                0 <= j < i ==> readings_fit(
                    option_items((#[trigger] options@[j]).1),
                    reading_views(readings@[j]@),
                ) && can_be_readings(option_items(options@[j].1), reading_views(readings@[j]@)),
        decreases options@.len() - i,
    {
        let none: Vec<Result<Vec<usize>, String>> = Vec::new();
        let reading = match &options[i].1 {
            TagValueTokens::List(list) => read_items(list),
            _ => none,
        };
        let ghost before = readings@;
        readings.push(reading);
        assert forall|j: int| 0 <= j < i + 1 implies readings_fit(
            option_items((#[trigger] options@[j]).1),
            reading_views(readings@[j]@),
        ) && can_be_readings(option_items(options@[j].1), reading_views(readings@[j]@)) by {
            if j < i {
                assert(readings@[j] == before[j]);
            }
        }
        i += 1;
    }
    readings
}

/// The options that a list gives.
pub fn parse_tag_attrs(options: Vec<(String, TagValueTokens)>) -> (r: Result<TagAttrs, String>)
    ensures
        exists|readings: Seq<Seq<Result<Seq<int>, Seq<char>>>>|
            can_be_option_readings(options@, readings) && is_tag_attrs(
                r,
                #[trigger] tag_attrs_of(options@, readings),
            ),
{
    let readings = read_options(&options);
    let ghost all = options@;
    let r = tag_attrs_with(options, &readings);
    assert(is_tag_attrs(r, tag_attrs_of(all, option_reading_views(readings@))));
    r
}

// ---- the code of a tag -----------------------------------------------------------------

/// A field of a declared collection of tags.
#[derive(Debug)]
pub struct TagField {
    pub ident: String,
    pub ty: TypeDesc,
    pub attrs: TagAttrs,
}

/// Whether a type is a number, a truth value or string, or not known.
pub open spec fn kind_of_type(ty: TypeDesc) -> Option<bool> {
    match opt_chars(ty.last) {
        Some(id) => if id == "f64"@ || id == "i64"@ {
            Some(true)
        } else if id == "bool"@ || id == "String"@ {
            Some(false)
        } else {
            None
        },
        None => None,
    }
}

/// The message that a trigger does not fit a type.
pub open spec fn mismatch(name: Seq<char>, for_numbers: bool) -> Seq<char> {
    "log_on: `"@ + name + (if for_numbers {
        "` only applies to numeric tags (Tag<f64>/Tag<i64>); this field is not numeric (pydoover: boolean/string log_on accepts AnyChange, Enter, Exit)"@
    } else {
        "` only applies to boolean/string tags (Tag<bool>/Tag<String>) (pydoover: numeric log_on accepts Cross, Rise, Fall, Delta)"@
    })
}

/// The code of a trigger on a tag of a kind, or what is wrong with it.
pub open spec fn fitted(s: SpecView, kind: Option<bool>) -> Result<Seq<char>, Seq<char>> {
    match (kind, kind_of_trigger(s.name)) {
        (Some(k), Some(t)) => if k != t {
            Err(mismatch(s.name, t))
        } else {
            trigger_code(s)
        },
        _ => trigger_code(s),
    }
}

/// The code of the triggers of a tag, or what is wrong with the first that is not
/// accepted.
pub open spec fn trigger_codes(list: Seq<SpecView>, kind: Option<bool>) -> Result<
    Seq<Seq<char>>,
    Seq<char>,
>
    decreases list.len(),
{
    if list.len() == 0 {
        Ok(Seq::empty())
    } else {
        match trigger_codes(list.drop_last(), kind) {
            Err(m) => Err(m),
            Ok(before) => match fitted(list.last(), kind) {
                Ok(c) => Ok(before.push(c)),
                Err(m) => Err(m),
            },
        }
    }
}

proof fn lemma_codes_fault(list: Seq<SpecView>, kind: Option<bool>, n: int)
    requires
        0 <= n <= list.len(),
        trigger_codes(list.take(n), kind) is Err,
    ensures
        trigger_codes(list, kind) == trigger_codes(list.take(n), kind),
    decreases list.len(),
{
    if n == list.len() {
        assert(list.take(n) =~= list);
    } else {
        assert(list.drop_last().take(n) =~= list.take(n));
        lemma_codes_fault(list.drop_last(), kind, n);
    }
}

/// The message that a field is no tag.
pub const NEEDS_TAG: &'static str =
    "#[derive(Tags)] fields must be of type `Tag<T>` (doover::tags::Tag)";

impl TagField {
    /// The name of the tag.
    pub open spec fn tag_name(&self) -> Seq<char> {
        match self.attrs.name {
            Some(n) => n@,
            None => self.ident@,
        }
    }

    /// The code of the default. `None` stands for null, which is not the same as no
    /// default.
    pub open spec fn default_code(&self, inner: Seq<char>) -> Seq<char> {
        match self.attrs.default {
            None => "::core::option::Option::None"@,
            Some(e) => if e@ == "None"@ {
                "::core::option::Option::Some(::doover::__private::serde_json::Value::Null)"@
            } else {
                "::core::option::Option::Some({ let __default: "@ + inner
                    + " = ::core::convert::Into::into("@ + e@ + "); <"@ + inner
                    + " as ::doover::tags::TagValue>::to_value(&__default) })"@
            },
        }
    }

    /// The code that declares the tag, or what is wrong with it.
    pub open spec fn code(&self) -> Result<Seq<char>, Seq<char>> {
        match inside(self.ty, "Tag"@) {
            None => Err(NEEDS_TAG@),
            Some(inner) => match trigger_codes(spec_views(self.attrs.log_on@), kind_of_type(inner)) {
                Err(m) => Err(m),
                Ok(list) => {
                    let base = "::doover::tags::Tag::<"@ + inner.text@ + ">::declared("@
                        + debug_text(self.tag_name()) + ", "@ + (if self.attrs.live {
                        "true"@
                    } else {
                        "false"@
                    }) + ", "@ + self.default_code(inner.text@) + ")"@;
                    if list.len() == 0 {
                        Ok(base)
                    } else {
                        Ok(base + ".with_log_on(::std::vec!["@ + joined(list, ", "@) + "])"@)
                    }
                },
            },
        }
    }

    fn get_name(&self) -> (r: String)
        ensures
            r@ == self.tag_name(),
    {
        match &self.attrs.name {
            Some(n) => n.clone(),
            None => self.ident.clone(),
        }
    }

    fn emit_default(&self, inner: &str) -> (s: String)
        ensures
            s@ == self.default_code(inner@),
    {
        match &self.attrs.default {
            None => "::core::option::Option::None".to_owned(),
            Some(e) => {
                if same(e.as_str(), "None") {
                    "::core::option::Option::Some(::doover::__private::serde_json::Value::Null)".to_owned()
                } else {
                    let mut s = concat("::core::option::Option::Some({ let __default: ", inner);
                    s.append(" = ::core::convert::Into::into(");
                    s.append(e.as_str());
                    s.append("); <");
                    s.append(inner);
                    s.append(" as ::doover::tags::TagValue>::to_value(&__default) })");
                    s
                }
            },
        }
    }

    fn emit_triggers(&self, kind: Option<bool>) -> (r: Result<Vec<String>, String>)
        ensures
            match (trigger_codes(spec_views(self.attrs.log_on@), kind), r) {
                (Ok(list), Ok(v)) => views(v@) == list,
                (Err(t), Err(m)) => m@ == t,
                _ => false,
            },
    {
        let ghost all = spec_views(self.attrs.log_on@);
        let mut list: Vec<String> = Vec::new();
        let mut i: usize = 0;
        assert(all.take(0) =~= Seq::empty());
        assert(views(list@) =~= Seq::empty());
        while i < self.attrs.log_on.len()
            invariant
                i <= self.attrs.log_on@.len(),
                all == spec_views(self.attrs.log_on@),
                trigger_codes(all.take(i as int), kind) == Ok::<Seq<Seq<char>>, Seq<char>>(
                    views(list@),
                ),
            decreases self.attrs.log_on@.len() - i,
        {
            proof {
                assert(all.take(i as int + 1).drop_last() =~= all.take(i as int));
                assert(all.take(i as int + 1).last() == self.attrs.log_on@[i as int]@);
            }
            let spec = &self.attrs.log_on[i];
            if let (Some(field_kind), Some(trigger_kind)) = (kind, spec.numeric_kind()) {
                if field_kind != trigger_kind {
                    proof {
                        lemma_codes_fault(all, kind, i as int + 1);
                    }
                    let mut m = concat("log_on: `", spec.name.as_str());
                    m.append(
                        if trigger_kind {
                            "` only applies to numeric tags (Tag<f64>/Tag<i64>); this field is not numeric (pydoover: boolean/string log_on accepts AnyChange, Enter, Exit)"
                        } else {
                            "` only applies to boolean/string tags (Tag<bool>/Tag<String>) (pydoover: numeric log_on accepts Cross, Rise, Fall, Delta)"
                        },
                    );
                    return Err(m);
                }
            }
            match spec.to_tokens() {
                Ok(code) => {
                    let ghost before = views(list@);
                    let ghost c = code@;
                    list.push(code);
                    assert(views(list@) =~= before.push(c));
                },
                Err(m) => {
                    proof {
                        lemma_codes_fault(all, kind, i as int + 1);
                    }
                    return Err(m);
                },
            }
            i += 1;
        }
        assert(all.take(all.len() as int) =~= all);
        Ok(list)
    }

    fn emit(&self) -> (r: Result<String, String>)
        ensures
            match (self.code(), r) {
                (Ok(c), Ok(s)) => s@ == c,
                (Err(t), Err(m)) => m@ == t,
                _ => false,
            },
    {
        let inner = match generic_inner(&self.ty, "Tag") {
            Some(t) => t,
            None => {
                return Err(NEEDS_TAG.to_owned());
            },
        };
        let kind: Option<bool> = match &inner.last {
            Some(id) => {
                if same(id.as_str(), "f64") || same(id.as_str(), "i64") {
                    Some(true)
                } else if same(id.as_str(), "bool") || same(id.as_str(), "String") {
                    Some(false)
                } else {
                    None
                }
            },
            None => None,
        };
        let triggers = match self.emit_triggers(kind) {
            Ok(list) => list,
            Err(m) => {
                return Err(m);
            },
        };
        let mut s = concat("::doover::tags::Tag::<", inner.text.as_str());
        s.append(">::declared(");
        s.append(quoted(self.get_name().as_str()).as_str());
        s.append(", ");
        s.append(
            if self.attrs.live {
                "true"
            } else {
                "false"
            },
        );
        s.append(", ");
        s.append(self.emit_default(inner.text.as_str()).as_str());
        s.append(")");
        assert(views(triggers@).len() == triggers@.len());
        if triggers.len() > 0 {
            s.append(".with_log_on(::std::vec![");
            s.append(join(&triggers, ", ").as_str());
            s.append("])");
        }
        Ok(s)
    }
}

/// The code of a collection of tags, piece by piece.
#[verifier::ext_equal]
pub struct TagsCode {
    /// The fields, attached to a runtime.
    pub attached: Seq<char>,
    /// The fields, attached to nothing.
    pub detached: Seq<char>,
    /// The names of the tags, as literals.
    pub names: Seq<Seq<char>>,
    /// The names of the live tags, as literals.
    pub live_names: Seq<Seq<char>>,
}

/// The code of the fields, or the first that is not accepted and what is wrong with it.
pub open spec fn fields_code(fields: Seq<TagField>) -> Result<TagsCode, (int, Seq<char>)>
    decreases fields.len(),
{
    if fields.len() == 0 {
        Ok(
            TagsCode {
                attached: Seq::empty(),
                detached: Seq::empty(),
                names: Seq::empty(),
                live_names: Seq::empty(),
            },
        )
    } else {
        let f = fields.last();
        match fields_code(fields.drop_last()) {
            Err(e) => Err(e),
            Ok(c) => match f.code() {
                Err(m) => Err((fields.len() - 1, m)),
                Ok(decl) => Ok(
                    TagsCode {
                        attached: c.attached + (f.ident@ + ": "@ + decl
                            + ".attached(::std::sync::Arc::clone(&__rt)), "@),
                        detached: c.detached + (f.ident@ + ": "@ + decl + ", "@),
                        names: c.names.push(debug_text(f.tag_name())),
                        live_names: if f.attrs.live {
                            c.live_names.push(debug_text(f.tag_name()))
                        } else {
                            c.live_names
                        },
                    },
                ),
            },
        }
    }
}

proof fn lemma_fields_fault(fields: Seq<TagField>, n: int)
    requires
        0 <= n <= fields.len(),
        fields_code(fields.take(n)) is Err,
    ensures
        fields_code(fields) == fields_code(fields.take(n)),
    decreases fields.len(),
{
    if n == fields.len() {
        assert(fields.take(n) =~= fields);
    } else {
        assert(fields.drop_last().take(n) =~= fields.take(n));
        lemma_fields_fault(fields.drop_last(), n);
    }
}

/// The code of a collection of tags.
pub open spec fn tags_code(ident: Seq<char>, c: TagsCode) -> Seq<char> {
    "const _: () = { #[automatically_derived] impl ::doover::tags::TagsCollection for "@ + ident
        + " { fn attach(__rt: ::std::sync::Arc<::doover::tags::TagsRuntime>) -> Self { Self { "@
        + c.attached + "} } fn detached() -> Self { Self { "@ + c.detached
        + "} } fn tag_names() -> ::std::vec::Vec<&'static str> { ::std::vec!["@ + joined(
        c.names,
        ", "@,
    ) + "] } fn live_tag_names() -> ::std::vec::Vec<&'static str> { ::std::vec!["@ + joined(
        c.live_names,
        ", "@,
    ) + "] } } };"@
}

/// The code of a collection of tags, or what is wrong with it.
pub fn expand_tags(ident: &str, fields: &Vec<TagField>) -> (r: Result<String, DeclFault>)
    ensures
        match (fields_code(fields@), r) {
            (Ok(c), Ok(s)) => s@ == tags_code(ident@, c),
            (Err(f), Err(e)) => e.member == f.0 && e.message@ == f.1,
            _ => false,
        },
{
    let mut attached = String::new();
    let mut detached = String::new();
    let mut names: Vec<String> = Vec::new();
    let mut live_names: Vec<String> = Vec::new();
    let mut i: usize = 0;
    assert(fields@.take(0) =~= Seq::empty());
    assert(attached@ =~= Seq::empty());
    assert(detached@ =~= Seq::empty());
    assert(views(names@) =~= Seq::empty());
    assert(views(live_names@) =~= Seq::empty());
    while i < fields.len()
        invariant
            i <= fields@.len(),
            fields_code(fields@.take(i as int)) == Ok::<TagsCode, (int, Seq<char>)>(
                TagsCode {
                    attached: attached@,
                    detached: detached@,
                    names: views(names@),
                    live_names: views(live_names@),
                },
            ),
        decreases fields@.len() - i,
    {
        proof {
            assert(fields@.take(i as int + 1).drop_last() =~= fields@.take(i as int));
            assert(fields@.take(i as int + 1).last() == fields@[i as int]);
        }
        let f = &fields[i];
        match f.emit() {
            Ok(decl) => {
                let mut one = concat(f.ident.as_str(), ": ");
                one.append(decl.as_str());
                one.append(".attached(::std::sync::Arc::clone(&__rt)), ");
                attached.append(one.as_str());
                let mut two = concat(f.ident.as_str(), ": ");
                two.append(decl.as_str());
                two.append(", ");
                detached.append(two.as_str());
                let ghost literal = debug_text(f.tag_name());
                let ghost names_before = views(names@);
                let ghost live_before = views(live_names@);
                names.push(quoted(f.get_name().as_str()));
                assert(views(names@) =~= names_before.push(literal));
                if f.attrs.live {
                    live_names.push(quoted(f.get_name().as_str()));
                    assert(views(live_names@) =~= live_before.push(literal));
                }
            },
            Err(message) => {
                proof {
                    lemma_fields_fault(fields@, i as int + 1);
                }
                return Err(DeclFault { member: i, message });
            },
        }
        i += 1;
    }
    assert(fields@.take(fields@.len() as int) =~= fields@);
    let mut s = concat(
        "const _: () = { #[automatically_derived] impl ::doover::tags::TagsCollection for ",
        ident,
    );
    s.append(
        " { fn attach(__rt: ::std::sync::Arc<::doover::tags::TagsRuntime>) -> Self { Self { ",
    );
    s.append(attached.as_str());
    s.append("} } fn detached() -> Self { Self { ");
    s.append(detached.as_str());
    s.append("} } fn tag_names() -> ::std::vec::Vec<&'static str> { ::std::vec![");
    s.append(join(&names, ", ").as_str());
    s.append("] } fn live_tag_names() -> ::std::vec::Vec<&'static str> { ::std::vec![");
    s.append(join(&live_names, ", ").as_str());
    s.append("] } } };");
    Ok(s)
}

/// A trigger for one kind of tag never gets code on the other kind.
pub proof fn law_triggers_fit_their_tags(s: SpecView, kind: bool)
    ensures
        kind_of_trigger(s.name) == Some(!kind) ==> fitted(s, Some(kind)) is Err,
        fitted(s, Some(kind)) is Ok ==> kind_of_trigger(s.name) == Some(kind),
{
}

} // verus!
