//! The schema of an application's configuration.
//!
//! The order of the keys in a schema document is part of the format:
//!
//! - every element: `title, x-name, x-hidden, [format], type, x-required,
//!   [description], [default], [x-position], [deprecated], [x-advanced]`, then
//!   what its kind adds;
//! - a choice has its `enum` before all of these.
//!
//! An element is required if it has no default, unless it says otherwise. One
//! that is not required may also be null.
use vstd::prelude::*;

use crate::json::{
    docs, entries_of, insert, opt_doc, put, Entries, Json, Number, Value,
};
use crate::models::optional_entry;
use crate::tags::handle::opt_view;
use crate::text::{copy_opt, opt_chars};

verus! {

/// The constraints of a number.
#[derive(Debug)]
pub struct NumericBounds {
    pub minimum: Option<Number>,
    pub exclusive_minimum: Option<Number>,
    pub maximum: Option<Number>,
    pub exclusive_maximum: Option<Number>,
    pub multiple_of: Option<Number>,
}

impl Default for NumericBounds {
    fn default() -> (b: Self)
        ensures
            b == (NumericBounds {
                minimum: None,
                exclusive_minimum: None,
                maximum: None,
                exclusive_maximum: None,
                multiple_of: None,
            }),
    {
        NumericBounds {
            minimum: None,
            exclusive_minimum: None,
            maximum: None,
            exclusive_maximum: None,
            multiple_of: None,
        }
    }
}

/// The constraints of a string.
#[derive(Debug, Clone, PartialEq, Eq)]
pub struct StringBounds {
    pub length: Option<u64>,
    pub pattern: Option<String>,
}

impl Default for StringBounds {
    fn default() -> (b: Self)
        ensures
            b == (StringBounds { length: None, pattern: None }),
    {
        StringBounds { length: None, pattern: None }
    }
}

/// The type that the choices of an element share.
#[derive(Debug, Clone, Copy, PartialEq, Eq, Structural)]
pub enum ChoiceType {
    Text,
    Double,
    Mixed,
}

/// What kind of element it is, with what the kind adds.
#[derive(Debug)]
pub enum ElementKind {
    Integer(NumericBounds),
    Number(NumericBounds),
    Boolean,
    String(StringBounds),
    Enum { choices: Vec<Value>, ty: ChoiceType },
    Array {
        items: Box<ElementSchema>,
        min_items: Option<u64>,
        max_items: Option<u64>,
        unique_items: Option<bool>,
    },
    Object {
        properties: Vec<ElementSchema>,
        /// Whether, or how, further properties are allowed.
        additional_elements: Value,
        collapsible: bool,
        default_collapsed: bool,
    },
}

/// One element of a configuration.
#[derive(Debug)]
pub struct ElementSchema {
    /// What is displayed.
    pub title: String,
    /// The key in the schema and in the configuration.
    pub name: String,
    pub hidden: bool,
    pub format: Option<String>,
    /// Whether the element is required, against what its default says.
    pub required: Option<bool>,
    pub description: Option<String>,
    /// No default is not the same as a default of null.
    pub default: Option<Value>,
    pub position: Option<u32>,
    pub deprecated: Option<bool>,
    pub advanced: Option<bool>,
    pub kind: ElementKind,
}

impl ElementKind {
    /// A string with the given length and pattern.
    pub open spec fn is_string(&self, length: Option<u64>, pattern: Seq<char>) -> bool {
        match self {
            ElementKind::String(b) => b.length == length && opt_chars(b.pattern) == Some(pattern),
            _ => false,
        }
    }

    /// The name of the type; none for choices of several types.
    pub open spec fn type_text(&self) -> Option<Seq<char>> {
        match self {
            ElementKind::Integer(_) => Some("integer"@),
            ElementKind::Number(_) => Some("number"@),
            ElementKind::Boolean => Some("boolean"@),
            ElementKind::String(_) => Some("string"@),
            ElementKind::Enum { ty, .. } => match ty {
                ChoiceType::Text => Some("string"@),
                ChoiceType::Double => Some("number"@),
                ChoiceType::Mixed => None,
            },
            ElementKind::Array { .. } => Some("array"@),
            ElementKind::Object { .. } => Some("object"@),
        }
    }

    /// The name of the type; none for choices of several types.
    pub fn json_type(&self) -> (r: Option<&'static str>)
        ensures
            match r {
                Some(t) => self.type_text() == Some(t@),
                None => self.type_text() is None,
            },
    {
        match self {
            ElementKind::Integer(_) => Some("integer"),
            ElementKind::Number(_) => Some("number"),
            ElementKind::Boolean => Some("boolean"),
            ElementKind::String(_) => Some("string"),
            ElementKind::Enum { ty, .. } => match ty {
                ChoiceType::Text => Some("string"),
                ChoiceType::Double => Some("number"),
                ChoiceType::Mixed => None,
            },
            ElementKind::Array { .. } => Some("array"),
            ElementKind::Object { .. } => Some("object"),
        }
    }
}

// ---- the documents -----------------------------------------------------------------

/// The document of an optional string.
pub open spec fn text_doc(s: Option<String>) -> Option<Json> {
    match s {
        Some(t) => Some(Json::Str(t@)),
        None => None,
    }
}

/// The document of an optional truth value.
pub open spec fn bool_doc(b: Option<bool>) -> Option<Json> {
    match b {
        Some(b) => Some(Json::Bool(b)),
        None => None,
    }
}

/// The document of an optional count.
pub open spec fn count_doc(n: Option<u64>) -> Option<Json> {
    match n {
        Some(n) => Some(Json::Int(n as int)),
        None => None,
    }
}

/// The document of an optional number.
pub open spec fn number_doc(n: Option<Number>) -> Option<Json> {
    match n {
        Some(n) => Some(n@),
        None => None,
    }
}

/// The type of an element: alone if it is required, otherwise with null.
pub open spec fn type_doc(ty: Option<Seq<char>>, required: bool) -> Option<Json> {
    match ty {
        Some(t) => Some(
            if required {
                Json::Str(t)
            } else {
                Json::Arr(seq![Json::Str(t), Json::Str("null"@)])
            },
        ),
        None => None,
    }
}

/// What the constraints of a number add.
pub open spec fn numeric_entries(b: NumericBounds) -> Entries {
    optional_entry("minimum"@, number_doc(b.minimum)) + optional_entry(
        "exclusiveMinimum"@,
        number_doc(b.exclusive_minimum),
    ) + optional_entry("maximum"@, number_doc(b.maximum)) + optional_entry(
        "exclusiveMaximum"@,
        number_doc(b.exclusive_maximum),
    ) + optional_entry("multipleOf"@, number_doc(b.multiple_of))
}

/// The names of the elements that are required.
pub open spec fn required_names(list: Seq<ElementSchema>) -> Seq<Json>
    decreases list.len(),
{
    if list.len() == 0 {
        Seq::empty()
    } else {
        let before = required_names(list.drop_last());
        if list.last().required_here() {
            before.push(Json::Str(list.last().name@))
        } else {
            before
        }
    }
}

/// The properties of a list of elements: the document of each under its name. A
/// later element with the same name takes the place of the earlier one.
pub open spec fn property_entries(list: Seq<ElementSchema>) -> Entries
    decreases list,
{
    if list.len() == 0 {
        Seq::empty()
    } else {
        put(property_entries(list.drop_last()), list.last().name@, list.last().doc())
    }
}

impl ElementSchema {
    /// Whether the element is required.
    pub open spec fn required_here(&self) -> bool {
        match self.required {
            Some(r) => r,
            None => self.default is None,
        }
    }

    /// What every element has.
    pub open spec fn base_entries(&self) -> Entries {
        seq![
            ("title"@, Json::Str(self.title@)),
            ("x-name"@, Json::Str(self.name@)),
            ("x-hidden"@, Json::Bool(self.hidden)),
        ] + optional_entry("format"@, text_doc(self.format)) + optional_entry(
            "type"@,
            type_doc(self.kind.type_text(), self.required_here()),
        ) + seq![("x-required"@, Json::Bool(self.required_here()))] + optional_entry(
            "description"@,
            text_doc(self.description),
        ) + optional_entry("default"@, opt_doc(self.default)) + optional_entry(
            "x-position"@,
            match self.position {
                Some(p) => Some(Json::Int(p as int)),
                None => None,
            },
        ) + optional_entry("deprecated"@, bool_doc(self.deprecated)) + optional_entry(
            "x-advanced"@,
            bool_doc(self.advanced),
        )
    }

    /// What stands before everything else: the choices of a choice.
    pub open spec fn choice_entries(&self) -> Entries {
        match self.kind {
            ElementKind::Enum { choices, .. } => seq![("enum"@, Json::Arr(docs(choices@)))],
            _ => Seq::empty(),
        }
    }

    /// The document of the element.
    pub open spec fn doc(&self) -> Json
        decreases self,
    {
        Json::Obj(
            self.choice_entries() + self.base_entries() + (match self.kind {
                ElementKind::Integer(b) => numeric_entries(b),
                ElementKind::Number(b) => numeric_entries(b),
                ElementKind::String(b) => optional_entry("length"@, count_doc(b.length))
                    + optional_entry("pattern"@, text_doc(b.pattern)),
                ElementKind::Array { items, min_items, max_items, unique_items } => seq![
                    ("items"@, items.doc()),
                ] + optional_entry("minItems"@, count_doc(min_items)) + optional_entry(
                    "maxItems"@,
                    count_doc(max_items),
                ) + optional_entry("uniqueItems"@, bool_doc(unique_items)),
                ElementKind::Object {
                    properties,
                    additional_elements,
                    collapsible,
                    default_collapsed,
                } => seq![
                    ("properties"@, Json::Obj(property_entries(properties@))),
                    ("additionalElements"@, additional_elements@),
                    ("required"@, Json::Arr(required_names(properties@))),
                    ("x-collapsible"@, Json::Bool(collapsible)),
                    ("x-defaultCollapsed"@, Json::Bool(default_collapsed)),
                ],
                _ => Seq::empty(),
            }),
        )
    }
}

// ---- writing -------------------------------------------------------------------------

fn add_entry(e: &mut Vec<(String, Value)>, key: &str, v: Value)
    ensures
        entries_of(final(e)@) == entries_of(old(e)@) + seq![(key@, v@)],
{
    let ghost before = entries_of(e@);
    let ghost doc = v@;
    e.push((key.to_owned(), v));
    assert(entries_of(e@) =~= before + seq![(key@, doc)]);
}

fn add_optional(e: &mut Vec<(String, Value)>, key: &str, v: Option<Value>)
    ensures
        entries_of(final(e)@) == entries_of(old(e)@) + optional_entry(key@, opt_doc(v)),
{
    let ghost before = entries_of(e@);
    match v {
        Some(v) => add_entry(e, key, v),
        None => {
            assert(before + optional_entry(key@, None) =~= before);
        },
    }
}

fn text_value(s: &Option<String>) -> (r: Option<Value>)
    ensures
        opt_doc(r) == text_doc(*s),
{
    match s {
        Some(t) => Some(Value::text(t.as_str())),
        None => None,
    }
}

fn bool_value(b: Option<bool>) -> (r: Option<Value>)
    ensures
        opt_doc(r) == bool_doc(b),
{
    match b {
        Some(b) => Some(Value::Bool(b)),
        None => None,
    }
}

fn count_value(n: Option<u64>) -> (r: Option<Value>)
    ensures
        opt_doc(r) == count_doc(n),
{
    match n {
        Some(n) => Some(Value::unsigned(n)),
        None => None,
    }
}

fn number_value(n: &Option<Number>) -> (r: Option<Value>)
    ensures
        opt_doc(r) == number_doc(*n),
{
    match n {
        Some(n) => Some(Value::Number(n.clone())),
        None => None,
    }
}

fn type_value(ty: Option<&str>, required: bool) -> (r: Option<Value>)
    ensures
        opt_doc(r) == type_doc(opt_view(ty), required),
{
    match ty {
        Some(t) => {
            if required {
                Some(Value::text(t))
            } else {
                let mut items: Vec<Value> = Vec::new();
                items.push(Value::text(t));
                items.push(Value::text("null"));
                let v = Value::Array(items);
                assert(v@->Arr_0 =~= seq![Json::Str(t@), Json::Str("null"@)]);
                Some(v)
            }
        },
        None => None,
    }
}

fn add_bounds(e: &mut Vec<(String, Value)>, b: &NumericBounds)
    ensures
        entries_of(final(e)@) == entries_of(old(e)@) + numeric_entries(*b),
{
    let ghost before = entries_of(e@);
    add_optional(e, "minimum", number_value(&b.minimum));
    add_optional(e, "exclusiveMinimum", number_value(&b.exclusive_minimum));
    add_optional(e, "maximum", number_value(&b.maximum));
    add_optional(e, "exclusiveMaximum", number_value(&b.exclusive_maximum));
    add_optional(e, "multipleOf", number_value(&b.multiple_of));
    assert(entries_of(e@) =~= before + numeric_entries(*b));
}

fn copy_values(list: &Vec<Value>) -> (out: Vec<Value>)
    ensures
        docs(out@) == docs(list@),
{
    let mut out: Vec<Value> = Vec::new();
    let mut i: usize = 0;
    while i < list.len()
        invariant
            i <= list@.len(),
            out@.len() == i,
            forall|j: int| 0 <= j < i ==> (#[trigger] out@[j])@ == list@[j]@,
        decreases list@.len() - i,
    {
        out.push(list[i].clone());
        i += 1;
    }
    assert(docs(out@) =~= docs(list@));
    out
}

// ---- copies --------------------------------------------------------------------------

/// Whether two elements are the same but for where their texts are stored.
pub open spec fn alike(a: ElementSchema, b: ElementSchema) -> bool {
    &&& a.title@ == b.title@
    &&& a.name@ == b.name@
    &&& a.hidden == b.hidden
    &&& opt_chars(a.format) == opt_chars(b.format)
    &&& a.required == b.required
    &&& opt_chars(a.description) == opt_chars(b.description)
    &&& opt_doc(a.default) == opt_doc(b.default)
    &&& a.position == b.position
    &&& a.deprecated == b.deprecated
    &&& a.advanced == b.advanced
    &&& a.doc() == b.doc()
}

/// Whether two lists of elements are the same but for where their texts are stored.
pub open spec fn all_alike(a: Seq<ElementSchema>, b: Seq<ElementSchema>) -> bool {
    a.len() == b.len() && forall|i: int| 0 <= i < a.len() ==> alike(#[trigger] a[i], b[i])
}

/// Whether two constraints of numbers are the same.
pub open spec fn same_bounds(a: NumericBounds, b: NumericBounds) -> bool {
    &&& number_doc(a.minimum) == number_doc(b.minimum)
    &&& number_doc(a.exclusive_minimum) == number_doc(b.exclusive_minimum)
    &&& number_doc(a.maximum) == number_doc(b.maximum)
    &&& number_doc(a.exclusive_maximum) == number_doc(b.exclusive_maximum)
    &&& number_doc(a.multiple_of) == number_doc(b.multiple_of)
}

/// Whether two kinds of elements are the same but for where their texts are stored.
pub open spec fn same_kind(a: ElementKind, b: ElementKind) -> bool {
    match (a, b) {
        (ElementKind::Integer(x), ElementKind::Integer(y)) => same_bounds(x, y),
        (ElementKind::Number(x), ElementKind::Number(y)) => same_bounds(x, y),
        (ElementKind::Boolean, ElementKind::Boolean) => true,
        (ElementKind::String(x), ElementKind::String(y)) => x.length == y.length && opt_chars(
            x.pattern,
        ) == opt_chars(y.pattern),
        (
            ElementKind::Enum { choices: x, ty: t },
            ElementKind::Enum { choices: y, ty: u },
        ) => docs(x@) == docs(y@) && t == u,
        (
            ElementKind::Array { items: x, min_items: a1, max_items: a2, unique_items: a3 },
            ElementKind::Array { items: y, min_items: b1, max_items: b2, unique_items: b3 },
        ) => alike(*x, *y) && a1 == b1 && a2 == b2 && a3 == b3,
        (
            ElementKind::Object {
                properties: x,
                additional_elements: a1,
                collapsible: a2,
                default_collapsed: a3,
            },
            ElementKind::Object {
                properties: y,
                additional_elements: b1,
                collapsible: b2,
                default_collapsed: b3,
            },
        ) => all_alike(x@, y@) && a1@ == b1@ && a2 == b2 && a3 == b3,
        _ => false,
    }
}

proof fn lemma_all_alike(a: Seq<ElementSchema>, b: Seq<ElementSchema>)
    requires
        all_alike(a, b),
    ensures
        property_entries(a) == property_entries(b),
        required_names(a) == required_names(b),
    decreases a.len(),
{
    if a.len() > 0 {
        let x = a.drop_last();
        let y = b.drop_last();
        assert forall|i: int| 0 <= i < x.len() implies alike(#[trigger] x[i], y[i]) by {
            assert(x[i] == a[i] && y[i] == b[i]);
        }
        lemma_all_alike(x, y);
        assert(alike(a[a.len() - 1], b[b.len() - 1]));
    }
}

fn copy_number(n: &Option<Number>) -> (r: Option<Number>)
    ensures
        number_doc(r) == number_doc(*n),
{
    match n {
        Some(n) => Some(n.clone()),
        None => None,
    }
}

impl Clone for NumericBounds {
    fn clone(&self) -> (b: Self)
        ensures
            same_bounds(b, *self),
    {
        NumericBounds {
            minimum: copy_number(&self.minimum),
            exclusive_minimum: copy_number(&self.exclusive_minimum),
            maximum: copy_number(&self.maximum),
            exclusive_maximum: copy_number(&self.exclusive_maximum),
            multiple_of: copy_number(&self.multiple_of),
        }
    }
}

fn copy_kind(k: &ElementKind) -> (c: ElementKind)
    ensures
        same_kind(c, *k),
    decreases k,
{
    match k {
        ElementKind::Integer(b) => ElementKind::Integer(b.clone()),
        ElementKind::Number(b) => ElementKind::Number(b.clone()),
        ElementKind::Boolean => ElementKind::Boolean,
        ElementKind::String(b) => ElementKind::String(
            StringBounds { length: b.length, pattern: copy_opt(&b.pattern) },
        ),
        ElementKind::Enum { choices, ty } => ElementKind::Enum {
            choices: copy_values(choices),
            ty: *ty,
        },
        ElementKind::Array { items, min_items, max_items, unique_items } => ElementKind::Array {
            items: Box::new(copy_element(items)),
            min_items: *min_items,
            max_items: *max_items,
            unique_items: *unique_items,
        },
        ElementKind::Object {
            properties,
            additional_elements,
            collapsible,
            default_collapsed,
        } => ElementKind::Object {
            properties: copy_elements(properties),
            additional_elements: additional_elements.clone(),
            collapsible: *collapsible,
            default_collapsed: *default_collapsed,
        },
    }
}

fn copy_elements(list: &Vec<ElementSchema>) -> (out: Vec<ElementSchema>)
    ensures
        all_alike(out@, list@),
    decreases list,
{
    let mut out: Vec<ElementSchema> = Vec::new();
    let mut i: usize = 0;
    while i < list.len()
        invariant
            i <= list@.len(),
            out@.len() == i,
            forall|j: int| 0 <= j < i ==> alike(#[trigger] out@[j], list@[j]),
        decreases list@.len() - i,
    {
        assert(decreases_to!(*list => list@[i as int]));
        out.push(copy_element(&list[i]));
        i += 1;
    }
    out
}

fn copy_element(e: &ElementSchema) -> (c: ElementSchema)
    ensures
        alike(c, *e),
        same_kind(c.kind, e.kind),
    decreases e,
{
    let c = ElementSchema {
        title: e.title.clone(),
        name: e.name.clone(),
        hidden: e.hidden,
        format: copy_opt(&e.format),
        required: e.required,
        description: copy_opt(&e.description),
        default: match &e.default {
            Some(d) => Some(d.clone()),
            None => None,
        },
        position: e.position,
        deprecated: e.deprecated,
        advanced: e.advanced,
        kind: copy_kind(&e.kind),
    };
    proof {
        if e.kind is Object {
            lemma_all_alike(c.kind->properties@, e.kind->properties@);
        }
        assert(c.base_entries() =~= e.base_entries());
        assert(c.choice_entries() =~= e.choice_entries());
        assert(c.doc() == e.doc());
    }
    c
}

impl Clone for ElementKind {
    fn clone(&self) -> (k: Self)
        ensures
            same_kind(k, *self),
    {
        copy_kind(self)
    }
}

impl Clone for ElementSchema {
    fn clone(&self) -> (e: Self)
        ensures
            alike(e, *self),
            same_kind(e.kind, self.kind),
    {
        copy_element(self)
    }
}

fn names_value(list: &Vec<ElementSchema>) -> (v: Value)
    ensures
        v@ == Json::Arr(required_names(list@)),
{
    let mut out: Vec<Value> = Vec::new();
    let mut i: usize = 0;
    assert(list@.take(0) =~= Seq::empty());
    assert(docs(out@) =~= Seq::empty());
    while i < list.len()
        invariant
            i <= list@.len(),
            docs(out@) == required_names(list@.take(i as int)),
        decreases list@.len() - i,
    {
        let ghost before = docs(out@);
        proof {
            assert(list@.take(i as int + 1).drop_last() =~= list@.take(i as int));
            assert(list@.take(i as int + 1).last() == list@[i as int]);
        }
        if list[i].is_required() {
            out.push(Value::text(list[i].name.as_str()));
            assert(docs(out@) =~= before.push(Json::Str(list@[i as int].name@)));
        }
        i += 1;
    }
    assert(list@.take(list@.len() as int) =~= list@);
    proof {
        Value::lemma_array(out);
    }
    Value::Array(out)
}

fn properties_value(list: &Vec<ElementSchema>) -> (v: Value)
    ensures
        v@ == Json::Obj(property_entries(list@)),
    decreases list,
{
    let mut out: Vec<(String, Value)> = Vec::new();
    let mut i: usize = 0;
    assert(list@.take(0) =~= Seq::empty());
    assert(entries_of(out@) =~= Seq::empty());
    while i < list.len()
        invariant
            i <= list@.len(),
            entries_of(out@) == property_entries(list@.take(i as int)),
        decreases list@.len() - i,
    {
        proof {
            assert(list@.take(i as int + 1).drop_last() =~= list@.take(i as int));
            assert(list@.take(i as int + 1).last() == list@[i as int]);
            assert(decreases_to!(*list => list@[i as int]));
        }
        let doc = list[i].to_json();
        insert(&mut out, list[i].name.as_str(), doc);
        i += 1;
    }
    assert(list@.take(list@.len() as int) =~= list@);
    Value::object(out)
}

impl ElementSchema {
    fn new(title: &str, name: &str, kind: ElementKind) -> (e: Self)
        ensures
            e.is_bare(title@, name@),
            e.kind == kind,
    {
        ElementSchema {
            title: title.to_owned(),
            name: name.to_owned(),
            hidden: false,
            format: None,
            required: None,
            description: None,
            default: None,
            position: None,
            deprecated: None,
            advanced: None,
            kind,
        }
    }

    /// An element with nothing but a title and a name.
    pub open spec fn is_bare(&self, title: Seq<char>, name: Seq<char>) -> bool {
        &&& self.title@ == title
        &&& self.name@ == name
        &&& !self.hidden
        &&& self.format is None
        &&& self.required is None
        &&& self.description is None
        &&& self.default is None
        &&& self.position is None
        &&& self.deprecated is None
        &&& self.advanced is None
    }

    /// An integer.
    pub fn integer(title: &str, name: &str) -> (e: Self)
        ensures
            e.is_bare(title@, name@),
            e.kind == ElementKind::Integer(
                NumericBounds {
                    minimum: None,
                    exclusive_minimum: None,
                    maximum: None,
                    exclusive_maximum: None,
                    multiple_of: None,
                },
            ),
    {
        ElementSchema::new(title, name, ElementKind::Integer(NumericBounds::default()))
    }

    /// A number.
    pub fn number(title: &str, name: &str) -> (e: Self)
        ensures
            e.is_bare(title@, name@),
            e.kind == ElementKind::Number(
                NumericBounds {
                    minimum: None,
                    exclusive_minimum: None,
                    maximum: None,
                    exclusive_maximum: None,
                    multiple_of: None,
                },
            ),
    {
        ElementSchema::new(title, name, ElementKind::Number(NumericBounds::default()))
    }

    /// A truth value.
    pub fn boolean(title: &str, name: &str) -> (e: Self)
        ensures
            e.is_bare(title@, name@),
            e.kind is Boolean,
    {
        ElementSchema::new(title, name, ElementKind::Boolean)
    }

    /// A string.
    pub fn string(title: &str, name: &str) -> (e: Self)
        ensures
            e.is_bare(title@, name@),
            e.kind == ElementKind::String(StringBounds { length: None, pattern: None }),
    {
        ElementSchema::new(title, name, ElementKind::String(StringBounds::default()))
    }

    /// A choice. Its type is string if every choice is a string, number if every
    /// choice is a double, and nothing otherwise.
    pub fn enumeration(title: &str, name: &str, choices: Vec<Value>) -> (e: Self)
        ensures
            e.is_bare(title@, name@),
            e.kind == (ElementKind::Enum { choices, ty: choice_type(docs(choices@)) }),
    {
        let ty = choices_type(&choices);
        ElementSchema::new(title, name, ElementKind::Enum { choices, ty })
    }

    /// A list.
    pub fn array(title: &str, name: &str, items: ElementSchema) -> (e: Self)
        ensures
            e.is_bare(title@, name@),
            e.kind == (ElementKind::Array {
                items: Box::new(items),
                min_items: None,
                max_items: None,
                unique_items: None,
            }),
    {
        ElementSchema::new(
            title,
            name,
            ElementKind::Array {
                items: Box::new(items),
                min_items: None,
                max_items: None,
                unique_items: None,
            },
        )
    }

    /// An object. Further properties are allowed, and it can be collapsed.
    pub fn object(title: &str, name: &str, properties: Vec<ElementSchema>) -> (e: Self)
        ensures
            e.is_bare(title@, name@),
            e.kind == (ElementKind::Object {
                properties,
                additional_elements: Value::Bool(true),
                collapsible: true,
                default_collapsed: false,
            }),
    {
        ElementSchema::new(
            title,
            name,
            ElementKind::Object {
                properties,
                additional_elements: Value::Bool(true),
                collapsible: true,
                default_collapsed: false,
            },
        )
    }

    /// Whether the element is required: it has no default, unless it says
    /// otherwise.
    pub fn is_required(&self) -> (r: bool)
        ensures
            r == self.required_here(),
    {
        match self.required {
            Some(r) => r,
            None => self.default.is_none(),
        }
    }

    /// Sets the least value.
    pub fn set_minimum(&mut self, n: Number)
        requires
            old(self).kind is Integer || old(self).kind is Number,
        ensures
            *final(self) == (ElementSchema { kind: final(self).kind, ..*old(self) }),
            old(self).kind matches ElementKind::Integer(b) ==> final(self).kind
                == ElementKind::Integer(NumericBounds { minimum: Some(n), ..b }),
            old(self).kind matches ElementKind::Number(b) ==> final(self).kind
                == ElementKind::Number(NumericBounds { minimum: Some(n), ..b }),
    {
        match &mut self.kind {
            ElementKind::Integer(b) => {
                b.minimum = Some(n);
            },
            ElementKind::Number(b) => {
                b.minimum = Some(n);
            },
            _ => {},
        }
    }

    /// Sets the value that every value is above.
    pub fn set_exclusive_minimum(&mut self, n: Number)
        requires
            old(self).kind is Integer || old(self).kind is Number,
        ensures
            *final(self) == (ElementSchema { kind: final(self).kind, ..*old(self) }),
            old(self).kind matches ElementKind::Integer(b) ==> final(self).kind
                == ElementKind::Integer(NumericBounds { exclusive_minimum: Some(n), ..b }),
            old(self).kind matches ElementKind::Number(b) ==> final(self).kind
                == ElementKind::Number(NumericBounds { exclusive_minimum: Some(n), ..b }),
    {
        match &mut self.kind {
            ElementKind::Integer(b) => {
                b.exclusive_minimum = Some(n);
            },
            ElementKind::Number(b) => {
                b.exclusive_minimum = Some(n);
            },
            _ => {},
        }
    }

    /// Sets the greatest value.
    pub fn set_maximum(&mut self, n: Number)
        requires
            old(self).kind is Integer || old(self).kind is Number,
        ensures
            *final(self) == (ElementSchema { kind: final(self).kind, ..*old(self) }),
            old(self).kind matches ElementKind::Integer(b) ==> final(self).kind
                == ElementKind::Integer(NumericBounds { maximum: Some(n), ..b }),
            old(self).kind matches ElementKind::Number(b) ==> final(self).kind
                == ElementKind::Number(NumericBounds { maximum: Some(n), ..b }),
    {
        match &mut self.kind {
            ElementKind::Integer(b) => {
                b.maximum = Some(n);
            },
            ElementKind::Number(b) => {
                b.maximum = Some(n);
            },
            _ => {},
        }
    }

    /// Sets the value that every value is below.
    pub fn set_exclusive_maximum(&mut self, n: Number)
        requires
            old(self).kind is Integer || old(self).kind is Number,
        ensures
            *final(self) == (ElementSchema { kind: final(self).kind, ..*old(self) }),
            old(self).kind matches ElementKind::Integer(b) ==> final(self).kind
                == ElementKind::Integer(NumericBounds { exclusive_maximum: Some(n), ..b }),
            old(self).kind matches ElementKind::Number(b) ==> final(self).kind
                == ElementKind::Number(NumericBounds { exclusive_maximum: Some(n), ..b }),
    {
        match &mut self.kind {
            ElementKind::Integer(b) => {
                b.exclusive_maximum = Some(n);
            },
            ElementKind::Number(b) => {
                b.exclusive_maximum = Some(n);
            },
            _ => {},
        }
    }

    /// Sets the step between values.
    pub fn set_multiple_of(&mut self, n: Number)
        requires
            old(self).kind is Integer || old(self).kind is Number,
        ensures
            *final(self) == (ElementSchema { kind: final(self).kind, ..*old(self) }),
            old(self).kind matches ElementKind::Integer(b) ==> final(self).kind
                == ElementKind::Integer(NumericBounds { multiple_of: Some(n), ..b }),
            old(self).kind matches ElementKind::Number(b) ==> final(self).kind
                == ElementKind::Number(NumericBounds { multiple_of: Some(n), ..b }),
    {
        match &mut self.kind {
            ElementKind::Integer(b) => {
                b.multiple_of = Some(n);
            },
            ElementKind::Number(b) => {
                b.multiple_of = Some(n);
            },
            _ => {},
        }
    }

    /// Sets the length of a string.
    pub fn set_length(&mut self, n: u64)
        requires
            old(self).kind is String,
        ensures
            *final(self) == (ElementSchema { kind: final(self).kind, ..*old(self) }),
            old(self).kind matches ElementKind::String(b) ==> final(self).kind
                == ElementKind::String(StringBounds { length: Some(n), ..b }),
    {
        if let ElementKind::String(b) = &mut self.kind {
            b.length = Some(n);
        }
    }

    /// Sets the pattern of a string.
    pub fn set_pattern(&mut self, pattern: &str)
        requires
            old(self).kind is String,
        ensures
            *final(self) == (ElementSchema { kind: final(self).kind, ..*old(self) }),
            old(self).kind matches ElementKind::String(b) ==> final(self).kind.is_string(
                b.length,
                pattern@,
            ),
    {
        if let ElementKind::String(b) = &mut self.kind {
            b.pattern = Some(pattern.to_owned());
        }
    }

    /// Sets how many items a list has at least.
    pub fn set_min_items(&mut self, n: u64)
        requires
            old(self).kind is Array,
        ensures
            *final(self) == (ElementSchema { kind: final(self).kind, ..*old(self) }),
            old(self).kind matches ElementKind::Array {
                items,
                min_items,
                max_items,
                unique_items,
            } ==> final(self).kind == (ElementKind::Array {
                items,
                min_items: Some(n),
                max_items,
                unique_items,
            }),
    {
        if let ElementKind::Array { min_items, .. } = &mut self.kind {
            *min_items = Some(n);
        }
    }

    /// Sets how many items a list has at most.
    pub fn set_max_items(&mut self, n: u64)
        requires
            old(self).kind is Array,
        ensures
            *final(self) == (ElementSchema { kind: final(self).kind, ..*old(self) }),
            old(self).kind matches ElementKind::Array {
                items,
                min_items,
                max_items,
                unique_items,
            } ==> final(self).kind == (ElementKind::Array {
                items,
                min_items,
                max_items: Some(n),
                unique_items,
            }),
    {
        if let ElementKind::Array { max_items, .. } = &mut self.kind {
            *max_items = Some(n);
        }
    }

    /// Sets whether the items of a list differ from each other.
    pub fn set_unique_items(&mut self, unique: bool)
        requires
            old(self).kind is Array,
        ensures
            *final(self) == (ElementSchema { kind: final(self).kind, ..*old(self) }),
            old(self).kind matches ElementKind::Array {
                items,
                min_items,
                max_items,
                unique_items,
            } ==> final(self).kind == (ElementKind::Array {
                items,
                min_items,
                max_items,
                unique_items: Some(unique),
            }),
    {
        if let ElementKind::Array { unique_items, .. } = &mut self.kind {
            *unique_items = Some(unique);
        }
    }

    fn base(&self) -> (m: Vec<(String, Value)>)
        ensures
            entries_of(m@) == self.base_entries(),
    {
        let mut m: Vec<(String, Value)> = Vec::new();
        let required = self.is_required();
        m.push(("title".to_owned(), Value::text(self.title.as_str())));
        m.push(("x-name".to_owned(), Value::text(self.name.as_str())));
        m.push(("x-hidden".to_owned(), Value::Bool(self.hidden)));
        assert(entries_of(m@) =~= seq![
            ("title"@, Json::Str(self.title@)),
            ("x-name"@, Json::Str(self.name@)),
            ("x-hidden"@, Json::Bool(self.hidden)),
        ]);
        add_optional(&mut m, "format", text_value(&self.format));
        add_optional(&mut m, "type", type_value(self.kind.json_type(), required));
        add_entry(&mut m, "x-required", Value::Bool(required));
        add_optional(&mut m, "description", text_value(&self.description));
        let default = match &self.default {
            Some(d) => Some(d.clone()),
            None => None,
        };
        add_optional(&mut m, "default", default);
        let position = match self.position {
            Some(p) => Some(Value::unsigned(p as u64)),
            None => None,
        };
        add_optional(&mut m, "x-position", position);
        add_optional(&mut m, "deprecated", bool_value(self.deprecated));
        add_optional(&mut m, "x-advanced", bool_value(self.advanced));
        m
    }

    /// The document of the element.
    pub fn to_json(&self) -> (v: Value)
        ensures
            v@ == self.doc(),
        decreases self,
    {
        let mut m: Vec<(String, Value)> = Vec::new();
        assert(entries_of(m@) =~= Seq::empty());
        if let ElementKind::Enum { choices, .. } = &self.kind {
            let list = copy_values(choices);
            proof {
                Value::lemma_array(list);
            }
            add_entry(&mut m, "enum", Value::Array(list));
        }
        assert(entries_of(m@) =~= self.choice_entries());
        let mut base = self.base();
        let ghost chosen = m@;
        let ghost own = base@;
        m.append(&mut base);
        let ghost head = self.choice_entries() + self.base_entries();
        assert(entries_of(chosen + own) =~= entries_of(chosen) + entries_of(own));
        assert(entries_of(m@) == head);
        match &self.kind {
            ElementKind::Integer(b) => {
                add_bounds(&mut m, b);
            },
            ElementKind::Number(b) => {
                add_bounds(&mut m, b);
            },
            ElementKind::String(b) => {
                add_optional(&mut m, "length", count_value(b.length));
                add_optional(&mut m, "pattern", text_value(&b.pattern));
                assert(entries_of(m@) =~= head + (optional_entry("length"@, count_doc(b.length))
                    + optional_entry("pattern"@, text_doc(b.pattern))));
            },
            ElementKind::Array { items, min_items, max_items, unique_items } => {
                let inner = items.to_json();
                add_entry(&mut m, "items", inner);
                add_optional(&mut m, "minItems", count_value(*min_items));
                add_optional(&mut m, "maxItems", count_value(*max_items));
                add_optional(&mut m, "uniqueItems", bool_value(*unique_items));
                assert(entries_of(m@) =~= head + (seq![("items"@, items.doc())] + optional_entry(
                    "minItems"@,
                    count_doc(*min_items),
                ) + optional_entry("maxItems"@, count_doc(*max_items)) + optional_entry(
                    "uniqueItems"@,
                    bool_doc(*unique_items),
                )));
            },
            ElementKind::Object {
                properties,
                additional_elements,
                collapsible,
                default_collapsed,
            } => {
                let props = properties_value(properties);
                add_entry(&mut m, "properties", props);
                add_entry(&mut m, "additionalElements", additional_elements.clone());
                add_entry(&mut m, "required", names_value(properties));
                add_entry(&mut m, "x-collapsible", Value::Bool(*collapsible));
                add_entry(&mut m, "x-defaultCollapsed", Value::Bool(*default_collapsed));
                assert(entries_of(m@) =~= head + seq![
                    ("properties"@, Json::Obj(property_entries(properties@))),
                    ("additionalElements"@, additional_elements@),
                    ("required"@, Json::Arr(required_names(properties@))),
                    ("x-collapsible"@, Json::Bool(*collapsible)),
                    ("x-defaultCollapsed"@, Json::Bool(*default_collapsed)),
                ]);
            },
            _ => {
                assert(entries_of(m@) =~= head + Seq::empty());
            },
        }
        Value::object(m)
    }
}

/// The type that choices share.
pub open spec fn choice_type(choices: Seq<Json>) -> ChoiceType {
    if forall|i: int| 0 <= i < choices.len() ==> (#[trigger] choices[i]) is Str {
        ChoiceType::Text
    } else if forall|i: int| 0 <= i < choices.len() ==> (#[trigger] choices[i]) is Float {
        ChoiceType::Double
    } else {
        ChoiceType::Mixed
    }
}

fn choices_type(choices: &Vec<Value>) -> (r: ChoiceType)
    ensures
        r == choice_type(docs(choices@)),
{
    let ghost d = docs(choices@);
    let mut text = true;
    let mut double = true;
    let mut i: usize = 0;
    while i < choices.len()
        invariant
            i <= choices@.len(),
            d == docs(choices@),
            text == forall|j: int| 0 <= j < i ==> (#[trigger] d[j]) is Str,
            double == forall|j: int| 0 <= j < i ==> (#[trigger] d[j]) is Float,
        decreases choices@.len() - i,
    {
        assert(d[i as int] == choices@[i as int]@);
        match &choices[i] {
            Value::String(_) => {
                assert(!(d[i as int] is Float));
                double = false;
            },
            Value::Number(Number::Float(_)) => {
                assert(!(d[i as int] is Str));
                text = false;
            },
            _ => {
                assert(!(d[i as int] is Float) && !(d[i as int] is Str));
                text = false;
                double = false;
            },
        }
        i += 1;
    }
    if text {
        ChoiceType::Text
    } else if double {
        ChoiceType::Double
    } else {
        ChoiceType::Mixed
    }
}

// ---- the whole schema -----------------------------------------------------------------

/// The schema of an application.
#[derive(Debug)]
pub struct SchemaModel {
    /// `$default` if missing.
    pub title: Option<String>,
    pub advanced: Option<bool>,
    pub elements: Vec<ElementSchema>,
}

impl Default for SchemaModel {
    fn default() -> (m: Self)
        ensures
            m.title is None,
            m.advanced is None,
            m.elements@.len() == 0,
    {
        SchemaModel { title: None, advanced: None, elements: Vec::new() }
    }
}

impl Clone for SchemaModel {
    fn clone(&self) -> (m: Self)
        ensures
            opt_chars(m.title) == opt_chars(self.title),
            m.advanced == self.advanced,
            all_alike(m.elements@, self.elements@),
    {
        SchemaModel {
            title: copy_opt(&self.title),
            advanced: self.advanced,
            elements: copy_elements(&self.elements),
        }
    }
}

impl SchemaModel {
    /// A schema without elements.
    pub fn new() -> (m: Self)
        ensures
            m.title is None,
            m.advanced is None,
            m.elements@.len() == 0,
    {
        SchemaModel { title: None, advanced: None, elements: Vec::new() }
    }

    /// Appends an element. One without a position gets the next one.
    pub fn push(&mut self, element: ElementSchema)
        requires
            old(self).elements@.len() <= u32::MAX,
        ensures
            final(self).title == old(self).title,
            final(self).advanced == old(self).advanced,
            final(self).elements@ == old(self).elements@.push(
                ElementSchema {
                    position: if element.position is None {
                        Some(old(self).elements@.len() as u32)
                    } else {
                        element.position
                    },
                    ..element
                },
            ),
    {
        let mut element = element;
        if element.position.is_none() {
            element.position = Some(self.elements.len() as u32);
        }
        self.elements.push(element);
    }

    /// The document of the schema.
    pub open spec fn doc(&self) -> Json {
        Json::Obj(
            seq![
                ("$schema"@, Json::Str("https://json-schema.org/draft/2020-12/schema"@)),
                ("$id"@, Json::Str(""@)),
                (
                    "title"@,
                    Json::Str(
                        match self.title {
                            Some(t) => t@,
                            None => "$default"@,
                        },
                    ),
                ),
                ("type"@, Json::Str("object"@)),
                ("properties"@, Json::Obj(property_entries(self.elements@))),
                ("additionalElements"@, Json::Bool(true)),
                ("required"@, Json::Arr(required_names(self.elements@))),
            ] + optional_entry("x-advanced"@, bool_doc(self.advanced)),
        )
    }

    /// The document of the schema.
    pub fn to_json(&self) -> (v: Value)
        ensures
            v@ == self.doc(),
    {
        let mut m: Vec<(String, Value)> = Vec::new();
        assert(entries_of(m@) =~= Seq::empty());
        add_entry(&mut m, "$schema", Value::text("https://json-schema.org/draft/2020-12/schema"));
        add_entry(&mut m, "$id", Value::text(""));
        let title = match &self.title {
            Some(t) => Value::text(t.as_str()),
            None => Value::text("$default"),
        };
        add_entry(&mut m, "title", title);
        add_entry(&mut m, "type", Value::text("object"));
        add_entry(&mut m, "properties", properties_value(&self.elements));
        add_entry(&mut m, "additionalElements", Value::Bool(true));
        add_entry(&mut m, "required", names_value(&self.elements));
        add_optional(&mut m, "x-advanced", bool_value(self.advanced));
        assert(entries_of(m@) =~= self.doc()->Obj_0);
        Value::object(m)
    }
}

// ---- laws -----------------------------------------------------------------------------

/// No two elements have the same name.
pub open spec fn distinct_names(list: Seq<ElementSchema>) -> bool {
    forall|i: int, j: int|
        0 <= i < j < list.len() ==> (#[trigger] list[i]).name@ != (#[trigger] list[j]).name@
}

/// Every element is found under its name, and the properties stand in the order
/// of the elements.
pub proof fn law_properties_hold_every_element(list: Seq<ElementSchema>)
    requires
        distinct_names(list),
    ensures
        property_entries(list).len() == list.len(),
        forall|i: int|
            0 <= i < list.len() ==> #[trigger] property_entries(list)[i] == (
                list[i].name@,
                list[i].doc(),
            ),
    decreases list.len(),
{
    if list.len() > 0 {
        let d = list.drop_last();
        assert(forall|i: int| 0 <= i < d.len() ==> #[trigger] d[i] == list[i]);
        law_properties_hold_every_element(d);
        let before = property_entries(d);
        let k = list.last().name@;
        crate::json::lemma_position(before, k);
        assert(crate::json::position(before, k) is None) by {
            if let Some(p) = crate::json::position(before, k) {
                assert(before[p] == (d[p].name@, d[p].doc()));
                assert(list[p].name@ != list[list.len() - 1].name@);
            }
        }
        assert forall|i: int| 0 <= i < list.len() implies #[trigger] property_entries(list)[i] == (
            list[i].name@,
            list[i].doc(),
        ) by {
            if i < d.len() {
                assert(before[i] == (d[i].name@, d[i].doc()));
            }
        }
    }
}

/// The names that a schema requires are those of its required elements.
pub proof fn law_required_names(list: Seq<ElementSchema>, name: Seq<char>)
    ensures
        required_names(list).contains(Json::Str(name)) <==> exists|i: int|
            0 <= i < list.len() && (#[trigger] list[i]).name@ == name && list[i].required_here(),
    decreases list.len(),
{
    if list.len() > 0 {
        let d = list.drop_last();
        let before = required_names(d);
        let all = required_names(list);
        law_required_names(d, name);
        assert(forall|i: int| 0 <= i < d.len() ==> #[trigger] d[i] == list[i]);
        if before.contains(Json::Str(name)) {
            let k = choose|k: int| 0 <= k < before.len() && before[k] == Json::Str(name);
            assert(all[k] == Json::Str(name));
            let i = choose|i: int|
                0 <= i < d.len() && (#[trigger] d[i]).name@ == name && d[i].required_here();
            assert(list[i] == d[i]);
        }
        if list.last().required_here() {
            assert(all[before.len() as int] == Json::Str(list.last().name@));
            assert(list[list.len() - 1] == list.last());
        }
        if all.contains(Json::Str(name)) && !before.contains(Json::Str(name)) {
            let k = choose|k: int| 0 <= k < all.len() && all[k] == Json::Str(name);
            assert(k == before.len());
        }
        if exists|i: int|
            0 <= i < list.len() && (#[trigger] list[i]).name@ == name && list[i].required_here() {
            let i = choose|i: int|
                0 <= i < list.len() && (#[trigger] list[i]).name@ == name
                    && list[i].required_here();
            if i < d.len() {
                assert(d[i] == list[i]);
            }
        }
    }
}

} // verus!
