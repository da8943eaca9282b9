//! Typed loading of configuration values, and the elements that stand for types.
use vstd::prelude::*;

use crate::config::schema::{ElementKind, ElementSchema, NumericBounds, SchemaModel, StringBounds};
use crate::error::{is_other, DooverError};
use crate::json::{at, docs, field, ref_doc, Entries, Json, Number, Value};
use crate::json_text::{
    double_of, json_text, serde_bool, serde_double, serde_i16, serde_i32, serde_i64, serde_i8,
    serde_string, serde_u16, serde_u32, serde_u8, to_serde, to_text, type_fault, written,
};
use crate::text::concat;

verus! {

// ---- what a configuration is made of -------------------------------------------------

/// A typed configuration: its schema, and how it is loaded from a deployment
/// configuration.
pub trait ConfigSchema: Sized {
    /// The schema of the configuration.
    fn schema() -> SchemaModel;

    /// Loads the configuration.
    fn from_value(v: &Value) -> Result<Self, DooverError>;
}

/// An application without a configuration.
impl ConfigSchema for () {
    fn schema() -> (m: SchemaModel)
        ensures
            m.title is None,
            m.advanced is None,
            m.elements@.len() == 0,
    {
        SchemaModel::new()
    }

    fn from_value(_v: &Value) -> (r: Result<Self, DooverError>)
        ensures
            r is Ok,
    {
        Ok(())
    }
}

/// A type that has a schema element.
pub trait ConfigElementBuild {
    /// Whether an element is the one for this type with a given title and name.
    spec fn is_element(e: ElementSchema, title: Seq<char>, name: Seq<char>) -> bool;

    /// The element for a field of this type. A type may keep to a title and name
    /// of its own.
    fn element(title: &str, name: &str) -> (e: ElementSchema)
        ensures
            Self::is_element(e, title@, name@),
    ;
}

/// A type that is loaded from one value of a configuration.
pub trait FromConfigValue: Sized {
    /// Why a document cannot be loaded; nothing if it can.
    spec fn fault(j: Json) -> Option<Seq<char>>;

    /// Whether the value is what the document is loaded as.
    spec fn loaded(&self, j: Json) -> bool;

    /// Loads a value.
    fn from_config_value(v: &Value) -> (r: Result<Self, DooverError>)
        ensures
            match r {
                Ok(x) => Self::fault(v@) is None && x.loaded(v@),
                Err(e) => Self::fault(v@) == Some(e.text()),
            },
    ;
}

/// A type whose values can be defaults in a schema.
pub trait ToConfigValue {
    /// The document of the value.
    spec fn config_doc(&self) -> Json;

    /// The value as it is stored in a schema. Integers stay integers.
    fn to_config_value(&self) -> (v: Value)
        ensures
            v@ == self.config_doc(),
    ;
}

// ---- messages ------------------------------------------------------------------------

/// The message that a document is not of a type.
pub open spec fn not_a(j: Json, ty: Seq<char>) -> Seq<char> {
    "expected "@ + ty + ", got "@ + json_text(written(j)) + ": "@ + type_fault(written(j), ty)
}

fn not_a_text(v: &Value, ty: &str, cause: &str) -> (e: DooverError)
    ensures
        e.text() == "expected "@ + ty@ + ", got "@ + json_text(written(v@)) + ": "@ + cause@,
{
    let mut m = concat("expected ", ty);
    m.append(", got ");
    m.append(to_text(v).as_str());
    m.append(": ");
    m.append(cause);
    DooverError::Other(m)
}

/// The start of the message that an element cannot be loaded.
pub open spec fn at_element(key: Seq<char>) -> Seq<char> {
    "config element '"@ + key + "': "@
}

/// The start of the message that the default of an element cannot be loaded.
pub open spec fn at_default(key: Seq<char>) -> Seq<char> {
    "config element '"@ + key + "' default: "@
}

/// The message that a required element is not there.
pub open spec fn absent(key: Seq<char>) -> Seq<char> {
    "required config element '"@ + key + "' not found in deployment config"@
}

fn start_at_element(key: &str) -> (m: String)
    ensures
        m@ == at_element(key@),
{
    let mut m = concat("config element '", key);
    m.append("': ");
    m
}

fn start_at_default(key: &str) -> (m: String)
    ensures
        m@ == at_default(key@),
{
    let mut m = concat("config element '", key);
    m.append("' default: ");
    m
}

/// The error that something cannot be loaded, with the start of its message.
pub fn started_error(start: &str, cause: &DooverError) -> (e: DooverError)
    ensures
        is_other(e, start@ + cause.text()),
{
    DooverError::Other(concat(start, cause.message().as_str()))
}

fn element_error(key: &str, cause: &DooverError) -> (e: DooverError)
    ensures
        is_other(e, at_element(key@) + cause.text()),
{
    started_error(start_at_element(key).as_str(), cause)
}

fn absent_error(key: &str) -> (e: DooverError)
    ensures
        is_other(e, absent(key@)),
{
    let mut m = concat("required config element '", key);
    m.append("' not found in deployment config");
    DooverError::Other(m)
}

// ---- scalars -------------------------------------------------------------------------

/// Whether a document is an integer from `low` to `high`.
pub open spec fn integer_in(j: Json, low: int, high: int) -> bool {
    match j {
        Json::Int(i) => low <= i <= high,
        _ => false,
    }
}

/// The constraints of an element without constraints.
pub open spec fn unbounded() -> NumericBounds {
    NumericBounds {
        minimum: None,
        exclusive_minimum: None,
        maximum: None,
        exclusive_maximum: None,
        multiple_of: None,
    }
}

impl ConfigElementBuild for i8 {
    open spec fn is_element(e: ElementSchema, title: Seq<char>, name: Seq<char>) -> bool {
        e.is_bare(title, name) && e.kind == ElementKind::Integer(unbounded())
    }

    fn element(title: &str, name: &str) -> (e: ElementSchema) {
        ElementSchema::integer(title, name)
    }
}

impl FromConfigValue for i8 {
    open spec fn fault(j: Json) -> Option<Seq<char>> {
        if integer_in(written(j), i8::MIN as int, i8::MAX as int) {
            None
        } else {
            Some(not_a(j, "i8"@))
        }
    }

    open spec fn loaded(&self, j: Json) -> bool {
        written(j) == Json::Int(*self as int)
    }

    fn from_config_value(v: &Value) -> (r: Result<Self, DooverError>) {
        match serde_i8(to_serde(v)) {
            Ok(n) => Ok(n),
            Err(m) => Err(not_a_text(v, "i8", m.as_str())),
        }
    }
}

impl ToConfigValue for i8 {
    open spec fn config_doc(&self) -> Json {
        Json::Int(*self as int)
    }

    fn to_config_value(&self) -> (v: Value) {
        Value::signed(*self as i64)
    }
}

impl ConfigElementBuild for i16 {
    open spec fn is_element(e: ElementSchema, title: Seq<char>, name: Seq<char>) -> bool {
        e.is_bare(title, name) && e.kind == ElementKind::Integer(unbounded())
    }

    fn element(title: &str, name: &str) -> (e: ElementSchema) {
        ElementSchema::integer(title, name)
    }
}

impl FromConfigValue for i16 {
    open spec fn fault(j: Json) -> Option<Seq<char>> {
        if integer_in(written(j), i16::MIN as int, i16::MAX as int) {
            None
        } else {
            Some(not_a(j, "i16"@))
        }
    }

    open spec fn loaded(&self, j: Json) -> bool {
        written(j) == Json::Int(*self as int)
    }

    fn from_config_value(v: &Value) -> (r: Result<Self, DooverError>) {
        match serde_i16(to_serde(v)) {
            Ok(n) => Ok(n),
            Err(m) => Err(not_a_text(v, "i16", m.as_str())),
        }
    }
}

impl ToConfigValue for i16 {
    open spec fn config_doc(&self) -> Json {
        Json::Int(*self as int)
    }

    fn to_config_value(&self) -> (v: Value) {
        Value::signed(*self as i64)
    }
}

impl ConfigElementBuild for i32 {
    open spec fn is_element(e: ElementSchema, title: Seq<char>, name: Seq<char>) -> bool {
        e.is_bare(title, name) && e.kind == ElementKind::Integer(unbounded())
    }

    fn element(title: &str, name: &str) -> (e: ElementSchema) {
        ElementSchema::integer(title, name)
    }
}

impl FromConfigValue for i32 {
    open spec fn fault(j: Json) -> Option<Seq<char>> {
        if integer_in(written(j), i32::MIN as int, i32::MAX as int) {
            None
        } else {
            Some(not_a(j, "i32"@))
        }
    }

    open spec fn loaded(&self, j: Json) -> bool {
        written(j) == Json::Int(*self as int)
    }

    fn from_config_value(v: &Value) -> (r: Result<Self, DooverError>) {
        match serde_i32(to_serde(v)) {
            Ok(n) => Ok(n),
            Err(m) => Err(not_a_text(v, "i32", m.as_str())),
        }
    }
}

impl ToConfigValue for i32 {
    open spec fn config_doc(&self) -> Json {
        Json::Int(*self as int)
    }

    fn to_config_value(&self) -> (v: Value) {
        Value::signed(*self as i64)
    }
}

impl ConfigElementBuild for i64 {
    open spec fn is_element(e: ElementSchema, title: Seq<char>, name: Seq<char>) -> bool {
        e.is_bare(title, name) && e.kind == ElementKind::Integer(unbounded())
    }

    fn element(title: &str, name: &str) -> (e: ElementSchema) {
        ElementSchema::integer(title, name)
    }
}

impl FromConfigValue for i64 {
    open spec fn fault(j: Json) -> Option<Seq<char>> {
        if integer_in(written(j), i64::MIN as int, i64::MAX as int) {
            None
        } else {
            Some(not_a(j, "i64"@))
        }
    }

    open spec fn loaded(&self, j: Json) -> bool {
        written(j) == Json::Int(*self as int)
    }

    fn from_config_value(v: &Value) -> (r: Result<Self, DooverError>) {
        match serde_i64(to_serde(v)) {
            Ok(n) => Ok(n),
            Err(m) => Err(not_a_text(v, "i64", m.as_str())),
        }
    }
}

impl ToConfigValue for i64 {
    open spec fn config_doc(&self) -> Json {
        Json::Int(*self as int)
    }

    fn to_config_value(&self) -> (v: Value) {
        Value::signed(*self as i64)
    }
}

impl ConfigElementBuild for u8 {
    open spec fn is_element(e: ElementSchema, title: Seq<char>, name: Seq<char>) -> bool {
        e.is_bare(title, name) && e.kind == ElementKind::Integer(unbounded())
    }

    fn element(title: &str, name: &str) -> (e: ElementSchema) {
        ElementSchema::integer(title, name)
    }
}

impl FromConfigValue for u8 {
    open spec fn fault(j: Json) -> Option<Seq<char>> {
        if integer_in(written(j), u8::MIN as int, u8::MAX as int) {
            None
        } else {
            Some(not_a(j, "u8"@))
        }
    }

    open spec fn loaded(&self, j: Json) -> bool {
        written(j) == Json::Int(*self as int)
    }

    fn from_config_value(v: &Value) -> (r: Result<Self, DooverError>) {
        match serde_u8(to_serde(v)) {
            Ok(n) => Ok(n),
            Err(m) => Err(not_a_text(v, "u8", m.as_str())),
        }
    }
}

impl ToConfigValue for u8 {
    open spec fn config_doc(&self) -> Json {
        Json::Int(*self as int)
    }

    fn to_config_value(&self) -> (v: Value) {
        Value::unsigned(*self as u64)
    }
}

impl ConfigElementBuild for u16 {
    open spec fn is_element(e: ElementSchema, title: Seq<char>, name: Seq<char>) -> bool {
        e.is_bare(title, name) && e.kind == ElementKind::Integer(unbounded())
    }

    fn element(title: &str, name: &str) -> (e: ElementSchema) {
        ElementSchema::integer(title, name)
    }
}

impl FromConfigValue for u16 {
    open spec fn fault(j: Json) -> Option<Seq<char>> {
        if integer_in(written(j), u16::MIN as int, u16::MAX as int) {
            None
        } else {
            Some(not_a(j, "u16"@))
        }
    }

    open spec fn loaded(&self, j: Json) -> bool {
        written(j) == Json::Int(*self as int)
    }

    fn from_config_value(v: &Value) -> (r: Result<Self, DooverError>) {
        match serde_u16(to_serde(v)) {
            Ok(n) => Ok(n),
            Err(m) => Err(not_a_text(v, "u16", m.as_str())),
        }
    }
}

impl ToConfigValue for u16 {
    open spec fn config_doc(&self) -> Json {
        Json::Int(*self as int)
    }

    fn to_config_value(&self) -> (v: Value) {
        Value::unsigned(*self as u64)
    }
}

impl ConfigElementBuild for u32 {
    open spec fn is_element(e: ElementSchema, title: Seq<char>, name: Seq<char>) -> bool {
        e.is_bare(title, name) && e.kind == ElementKind::Integer(unbounded())
    }

    fn element(title: &str, name: &str) -> (e: ElementSchema) {
        ElementSchema::integer(title, name)
    }
}

impl FromConfigValue for u32 {
    open spec fn fault(j: Json) -> Option<Seq<char>> {
        if integer_in(written(j), u32::MIN as int, u32::MAX as int) {
            None
        } else {
            Some(not_a(j, "u32"@))
        }
    }

    open spec fn loaded(&self, j: Json) -> bool {
        written(j) == Json::Int(*self as int)
    }

    fn from_config_value(v: &Value) -> (r: Result<Self, DooverError>) {
        match serde_u32(to_serde(v)) {
            Ok(n) => Ok(n),
            Err(m) => Err(not_a_text(v, "u32", m.as_str())),
        }
    }
}

impl ToConfigValue for u32 {
    open spec fn config_doc(&self) -> Json {
        Json::Int(*self as int)
    }

    fn to_config_value(&self) -> (v: Value) {
        Value::unsigned(*self as u64)
    }
}

impl ConfigElementBuild for bool {
    open spec fn is_element(e: ElementSchema, title: Seq<char>, name: Seq<char>) -> bool {
        e.is_bare(title, name) && e.kind is Boolean
    }

    fn element(title: &str, name: &str) -> (e: ElementSchema) {
        ElementSchema::boolean(title, name)
    }
}

impl FromConfigValue for bool {
    open spec fn fault(j: Json) -> Option<Seq<char>> {
        if written(j) is Bool {
            None
        } else {
            Some(not_a(j, "bool"@))
        }
    }

    open spec fn loaded(&self, j: Json) -> bool {
        written(j) == Json::Bool(*self)
    }

    fn from_config_value(v: &Value) -> (r: Result<Self, DooverError>) {
        match serde_bool(to_serde(v)) {
            Ok(b) => Ok(b),
            Err(m) => Err(not_a_text(v, "bool", m.as_str())),
        }
    }
}

impl ToConfigValue for bool {
    open spec fn config_doc(&self) -> Json {
        Json::Bool(*self)
    }

    fn to_config_value(&self) -> (v: Value) {
        Value::Bool(*self)
    }
}

impl ConfigElementBuild for String {
    open spec fn is_element(e: ElementSchema, title: Seq<char>, name: Seq<char>) -> bool {
        e.is_bare(title, name) && e.kind == ElementKind::String(
            StringBounds { length: None, pattern: None },
        )
    }

    fn element(title: &str, name: &str) -> (e: ElementSchema) {
        ElementSchema::string(title, name)
    }
}

impl FromConfigValue for String {
    open spec fn fault(j: Json) -> Option<Seq<char>> {
        if written(j) is Str {
            None
        } else {
            Some(not_a(j, "String"@))
        }
    }

    open spec fn loaded(&self, j: Json) -> bool {
        written(j) == Json::Str(self@)
    }

    fn from_config_value(v: &Value) -> (r: Result<Self, DooverError>) {
        match serde_string(to_serde(v)) {
            Ok(s) => Ok(s),
            Err(m) => Err(not_a_text(v, "String", m.as_str())),
        }
    }
}

impl ToConfigValue for String {
    open spec fn config_doc(&self) -> Json {
        Json::Str(self@)
    }

    fn to_config_value(&self) -> (v: Value) {
        Value::text(self.as_str())
    }
}

impl ToConfigValue for str {
    open spec fn config_doc(&self) -> Json {
        Json::Str(self@)
    }

    fn to_config_value(&self) -> (v: Value) {
        Value::text(self)
    }
}

/// A double, by its IEEE bits.
#[derive(Debug, Clone, Copy, PartialEq, Eq, Structural)]
pub struct Double {
    pub bits: u64,
}

impl ConfigElementBuild for Double {
    open spec fn is_element(e: ElementSchema, title: Seq<char>, name: Seq<char>) -> bool {
        e.is_bare(title, name) && e.kind == ElementKind::Number(unbounded())
    }

    fn element(title: &str, name: &str) -> (e: ElementSchema) {
        ElementSchema::number(title, name)
    }
}

impl FromConfigValue for Double {
    open spec fn fault(j: Json) -> Option<Seq<char>> {
        if written(j) is Int || written(j) is Float {
            None
        } else {
            Some(not_a(j, "f64"@))
        }
    }

    open spec fn loaded(&self, j: Json) -> bool {
        self.bits == double_of(written(j))
    }

    fn from_config_value(v: &Value) -> (r: Result<Self, DooverError>) {
        match serde_double(to_serde(v)) {
            Ok(bits) => Ok(Double { bits }),
            Err(m) => Err(not_a_text(v, "f64", m.as_str())),
        }
    }
}

/// Numbers, with or without a fraction, are stored as they are.
impl ToConfigValue for Number {
    open spec fn config_doc(&self) -> Json {
        self@
    }

    fn to_config_value(&self) -> (v: Value) {
        Value::Number(self.clone())
    }
}

// ---- options and lists ------------------------------------------------------------------

impl<T: FromConfigValue> FromConfigValue for Option<T> {
    open spec fn fault(j: Json) -> Option<Seq<char>> {
        if j is Null {
            None
        } else {
            T::fault(j)
        }
    }

    open spec fn loaded(&self, j: Json) -> bool {
        match self {
            None => j is Null,
            Some(x) => !(j is Null) && x.loaded(j),
        }
    }

    fn from_config_value(v: &Value) -> (r: Result<Self, DooverError>) {
        if v.is_null() {
            Ok(None)
        } else {
            match T::from_config_value(v) {
                Ok(x) => Ok(Some(x)),
                Err(e) => Err(e),
            }
        }
    }
}

/// The fault of the first item that has one.
pub open spec fn first_fault<T: FromConfigValue>(items: Seq<Json>) -> Option<Seq<char>>
    decreases items.len(),
{
    if items.len() == 0 {
        None
    } else {
        match first_fault::<T>(items.drop_last()) {
            Some(m) => Some(m),
            None => T::fault(items.last()),
        }
    }
}

/// A fault among the first items is the fault of all of them.
proof fn lemma_first_fault<T: FromConfigValue>(items: Seq<Json>, n: int)
    requires
        0 <= n <= items.len(),
        first_fault::<T>(items.take(n)) is Some,
    ensures
        first_fault::<T>(items) == first_fault::<T>(items.take(n)),
    decreases items.len(),
{
    if n == items.len() {
        assert(items.take(n) =~= items);
    } else {
        assert(items.drop_last().take(n) =~= items.take(n));
        lemma_first_fault::<T>(items.drop_last(), n);
    }
}

impl<T: FromConfigValue> FromConfigValue for Vec<T> {
    open spec fn fault(j: Json) -> Option<Seq<char>> {
        match j {
            Json::Arr(items) => first_fault::<T>(items),
            _ => Some("expected array, got "@ + json_text(written(j))),
        }
    }

    open spec fn loaded(&self, j: Json) -> bool {
        match j {
            Json::Arr(items) => self@.len() == items.len() && forall|i: int|
                0 <= i < items.len() ==> (#[trigger] self@[i]).loaded(items[i]),
            _ => false,
        }
    }

    fn from_config_value(v: &Value) -> (r: Result<Self, DooverError>) {
        if let Value::Array(items) = v {
            let ghost d = docs(items@);
            proof {
                Value::lemma_array(*items);
            }
            let mut out: Vec<T> = Vec::new();
            let mut i: usize = 0;
            assert(d.take(0) =~= Seq::empty());
            while i < items.len()
                invariant
                    i <= items@.len(),
                    out@.len() == i,
                    d == docs(items@),
                    v@ == Json::Arr(d),
                    first_fault::<T>(d.take(i as int)) is None,
                    forall|j: int| 0 <= j < i ==> (#[trigger] out@[j]).loaded(d[j]),
                decreases items@.len() - i,
            {
                proof {
                    assert(d.take(i as int + 1).drop_last() =~= d.take(i as int));
                    assert(d.take(i as int + 1).last() == items@[i as int]@);
                }
                match T::from_config_value(&items[i]) {
                    Ok(x) => {
                        out.push(x);
                    },
                    Err(e) => {
                        proof {
                            lemma_first_fault::<T>(d, i as int + 1);
                        }
                        return Err(e);
                    },
                }
                i += 1;
            }
            assert(d.take(d.len() as int) =~= d);
            Ok(out)
        } else {
            let m = concat("expected array, got ", to_text(v).as_str());
            Err(DooverError::Other(m))
        }
    }
}

/// The documents of a list.
pub open spec fn config_docs<T: ToConfigValue>(list: Seq<T>) -> Seq<Json> {
    Seq::new(list.len(), |i: int| list[i].config_doc())
}

impl<T: ToConfigValue> ToConfigValue for Vec<T> {
    open spec fn config_doc(&self) -> Json {
        Json::Arr(config_docs(self@))
    }

    fn to_config_value(&self) -> (v: Value) {
        let mut out: Vec<Value> = Vec::new();
        let mut i: usize = 0;
        while i < self.len()
            invariant
                i <= self@.len(),
                out@.len() == i,
                forall|j: int| 0 <= j < i ==> (#[trigger] out@[j])@ == self@[j].config_doc(),
            decreases self@.len() - i,
        {
            out.push(self[i].to_config_value());
            i += 1;
        }
        proof {
            Value::lemma_array(out);
            assert(docs(out@) =~= config_docs(self@));
        }
        Value::Array(out)
    }
}

// ---- fields ---------------------------------------------------------------------------

/// The document of a key that is there and not null.
pub open spec fn present(j: Json, key: Seq<char>) -> Option<Json> {
    match field(j, key) {
        Some(Json::Null) => None,
        d => d,
    }
}

fn get_present<'a>(v: &'a Value, key: &str) -> (r: Option<&'a Value>)
    ensures
        ref_doc(r) == present(v@, key@),
{
    match v.get(key) {
        Some(val) => {
            if val.is_null() {
                None
            } else {
                Some(val)
            }
        },
        None => None,
    }
}

/// Loads a field that has to be there.
pub fn field_required<T: FromConfigValue>(v: &Value, key: &str) -> (r: Result<T, DooverError>)
    ensures
        match (field(v@, key@), r) {
            (Some(d), Ok(x)) => T::fault(d) is None && x.loaded(d),
            (Some(d), Err(e)) => T::fault(d) is Some && is_other(
                e,
                at_element(key@) + T::fault(d)->0,
            ),
            (None, Ok(_)) => false,
            (None, Err(e)) => is_other(e, absent(key@)),
        },
{
    match v.get(key) {
        Some(val) => match T::from_config_value(val) {
            Ok(x) => Ok(x),
            Err(e) => Err(element_error(key, &e)),
        },
        None => Err(absent_error(key)),
    }
}

/// Loads a field; the default if it is missing or null.
pub fn field_or<T: FromConfigValue>(v: &Value, key: &str, default: T) -> (r: Result<T, DooverError>)
    ensures
        match (present(v@, key@), r) {
            (Some(d), Ok(x)) => T::fault(d) is None && x.loaded(d),
            (Some(d), Err(e)) => T::fault(d) is Some && is_other(
                e,
                at_element(key@) + T::fault(d)->0,
            ),
            (None, Ok(x)) => x == default,
            (None, Err(_)) => false,
        },
{
    match get_present(v, key) {
        Some(val) => match T::from_config_value(val) {
            Ok(x) => Ok(x),
            Err(e) => Err(element_error(key, &e)),
        },
        None => Ok(default),
    }
}

/// Loads a field; nothing if it is missing or null.
pub fn field_optional<T: FromConfigValue>(v: &Value, key: &str) -> (r: Result<
    Option<T>,
    DooverError,
>)
    ensures
        match (present(v@, key@), r) {
            (Some(d), Ok(Some(x))) => T::fault(d) is None && x.loaded(d),
            (Some(d), Err(e)) => T::fault(d) is Some && is_other(
                e,
                at_element(key@) + T::fault(d)->0,
            ),
            (None, Ok(None)) => true,
            _ => false,
        },
{
    match get_present(v, key) {
        Some(val) => match T::from_config_value(val) {
            Ok(x) => Ok(Some(x)),
            Err(e) => Err(element_error(key, &e)),
        },
        None => Ok(None),
    }
}

/// What is loaded for an element: the document under its name, or its default
/// where that is missing or null and the element is not required. With it comes
/// the start of the message, should it not load.
pub open spec fn element_source(j: Json, el: ElementSchema) -> Option<(Json, Seq<char>)> {
    match present(j, el.name@) {
        Some(d) => Some((d, at_element(el.name@))),
        None => if !el.required_here() {
            Some((default_doc(el), at_default(el.name@)))
        } else if field(j, el.name@) is Some {
            Some((Json::Null, at_element(el.name@)))
        } else {
            None
        },
    }
}

/// The default of an element; null if it has none.
pub open spec fn default_doc(el: ElementSchema) -> Json {
    match el.default {
        Some(d) => d@,
        None => Json::Null,
    }
}

/// What is loaded for an element, and the start of the message, should it not load.
/// There is an error if nothing can be loaded.
pub fn find_source(v: &Value, el: &ElementSchema) -> (r: Result<(Value, String), DooverError>)
    ensures
        match (element_source(v@, *el), r) {
            (Some(s), Ok(x)) => x.0@ == s.0 && x.1@ == s.1,
            (None, Err(e)) => is_other(e, absent(el.name@)),
            _ => false,
        },
{
    let key = el.name.as_str();
    let found = v.get(key);
    if let Some(val) = found {
        if !val.is_null() || el.is_required() {
            return Ok((val.clone(), start_at_element(key)));
        }
    }
    if el.is_required() {
        return Err(absent_error(key));
    }
    let default = match &el.default {
        Some(d) => d.clone(),
        None => Value::Null,
    };
    Ok((default, start_at_default(key)))
}

/// Loads the value of an element.
pub fn load_element<T: FromConfigValue>(v: &Value, el: &ElementSchema) -> (r: Result<T, DooverError>)
    ensures
        match (element_source(v@, *el), r) {
            (Some(s), Ok(x)) => T::fault(s.0) is None && x.loaded(s.0),
            (Some(s), Err(e)) => T::fault(s.0) is Some && is_other(e, s.1 + T::fault(s.0)->0),
            (None, Ok(_)) => false,
            (None, Err(e)) => is_other(e, absent(el.name@)),
        },
{
    match find_source(v, el) {
        Ok((source, start)) => match T::from_config_value(&source) {
            Ok(x) => Ok(x),
            Err(e) => Err(started_error(start.as_str(), &e)),
        },
        Err(e) => Err(e),
    }
}

// ---- laws -----------------------------------------------------------------------------

/// An integer, a truth value and a string are loaded back as what they were stored
/// as.
pub proof fn law_stored_values_load_back(n: i64, m: i64, b: bool, c: bool, s: String, t: String)
    ensures
        i64::fault(n.config_doc()) is None,
        m.loaded(n.config_doc()) <==> m == n,
        bool::fault(b.config_doc()) is None,
        c.loaded(b.config_doc()) <==> c == b,
        String::fault(s.config_doc()) is None,
        t.loaded(s.config_doc()) <==> t@ == s@,
{
}

/// An element with a default never fails for want of a value.
pub proof fn law_default_stands_in(j: Json, el: ElementSchema)
    requires
        el.default is Some,
        el.required is None,
    ensures
        present(j, el.name@) is None ==> element_source(j, el) == Some(
            (el.default->0@, at_default(el.name@)),
        ),
        element_source(j, el) is Some,
{
}

/// An element is loaded from the value that stands under its name. Where there is none, or
/// null, a default takes its place; without one the element is missing, unless it need not
/// be there.
pub proof fn law_elements_are_loaded_from_their_name(e: Entries, el: ElementSchema, d: Json)
    requires
        el.required is None,
    ensures
        at(e, el.name@) == Some(d) && !(d is Null) ==> (element_source(Json::Obj(e), el) matches Some(
            s,
        ) && s.0 == d),
        at(e, el.name@) is None && el.default is Some ==> (element_source(Json::Obj(e), el) matches Some(
            s,
        ) && s.0 == el.default->0@),
        at(e, el.name@) == Some(Json::Null) && el.default is Some ==> (element_source(
            Json::Obj(e),
            el,
        ) matches Some(s) && s.0 == el.default->0@),
        at(e, el.name@) is None && el.default is None ==> element_source(Json::Obj(e), el) is None,
        at(e, el.name@) == Some(Json::Null) && el.default is None ==> (element_source(
            Json::Obj(e),
            el,
        ) matches Some(s) && s.0 is Null),
{
}

/// An element that is said to be required is never loaded from its default, and one that is
/// said to be optional is never missing.
pub proof fn law_required_decides(j: Json, el: ElementSchema)
    ensures
        el.required == Some(true) && field(j, el.name@) is None ==> element_source(j, el) is None,
        el.required == Some(false) ==> element_source(j, el) is Some,
        el.required == Some(false) && el.default is None && field(j, el.name@) is None ==> (
        element_source(j, el) matches Some(s) && s.0 is Null),
{
}

/// A whole number is loaded exactly if the type has room for it, and as that number.
pub proof fn law_numbers_load_within_their_type(i: int, a: i8, b: i16, c: i32, d: i64)
    ensures
        i8::fault(Json::Int(i)) is None <==> -128 <= i <= 127,
        i16::fault(Json::Int(i)) is None <==> -32_768 <= i <= 32_767,
        i32::fault(Json::Int(i)) is None <==> -2_147_483_648 <= i <= 2_147_483_647,
        i64::fault(Json::Int(i)) is None <==> -0x8000_0000_0000_0000 <= i <= 0x7fff_ffff_ffff_ffff,
        u8::fault(Json::Int(i)) is None <==> 0 <= i <= 255,
        u16::fault(Json::Int(i)) is None <==> 0 <= i <= 65_535,
        u32::fault(Json::Int(i)) is None <==> 0 <= i <= 4_294_967_295,
        a.loaded(Json::Int(i)) <==> a == i,
        b.loaded(Json::Int(i)) <==> b == i,
        c.loaded(Json::Int(i)) <==> c == i,
        d.loaded(Json::Int(i)) <==> d == i,
        bool::fault(Json::Int(i)) is Some,
        String::fault(Json::Int(i)) is Some,
{
    assert(written(Json::Int(i)) == Json::Int(i));
}

/// A list is loaded item by item, and can be loaded exactly if every item can; otherwise the
/// first item that cannot says why.
pub proof fn law_lists_load_item_by_item<T: FromConfigValue>(items: Seq<Json>, list: Vec<T>, i: int)
    requires
        0 <= i < items.len(),
    ensures
        Vec::<T>::fault(Json::Arr(items)) is None <==> forall|k: int|
            0 <= k < items.len() ==> T::fault(#[trigger] items[k]) is None,
        T::fault(items[i]) is Some && (forall|k: int|
            0 <= k < i ==> T::fault(#[trigger] items[k]) is None) ==> Vec::<T>::fault(
            Json::Arr(items),
        ) == T::fault(items[i]),
        list.loaded(Json::Arr(items)) ==> list@.len() == items.len() && list@[i].loaded(items[i]),
{
    lemma_no_fault::<T>(items);
    if T::fault(items[i]) is Some && (forall|k: int|
        0 <= k < i ==> T::fault(#[trigger] items[k]) is None) {
        lemma_first_fault_at::<T>(items, i);
    }
}

proof fn lemma_no_fault<T: FromConfigValue>(items: Seq<Json>)
    ensures
        first_fault::<T>(items) is None <==> forall|k: int|
            0 <= k < items.len() ==> T::fault(#[trigger] items[k]) is None,
    decreases items.len(),
{
    if items.len() > 0 {
        let d = items.drop_last();
        lemma_no_fault::<T>(d);
        assert(forall|k: int| 0 <= k < d.len() ==> #[trigger] d[k] == items[k]);
        if first_fault::<T>(items) is None {
            assert forall|k: int| 0 <= k < items.len() implies T::fault(
                #[trigger] items[k],
            ) is None by {
                if k < d.len() {
                    assert(T::fault(d[k]) is None);
                }
            }
        }
        if forall|k: int| 0 <= k < items.len() ==> T::fault(#[trigger] items[k]) is None {
            assert(T::fault(items[items.len() - 1]) is None);
        }
    }
}

proof fn lemma_first_fault_at<T: FromConfigValue>(items: Seq<Json>, i: int)
    requires
        0 <= i < items.len(),
        T::fault(items[i]) is Some,
        forall|k: int| 0 <= k < i ==> T::fault(#[trigger] items[k]) is None,
    ensures
        first_fault::<T>(items) == T::fault(items[i]),
    decreases items.len(),
{
    let d = items.drop_last();
    assert(forall|k: int| 0 <= k < d.len() ==> #[trigger] d[k] == items[k]);
    if i < d.len() {
        lemma_first_fault_at::<T>(d, i);
    } else {
        lemma_no_fault::<T>(d);
    }
}

/// What may be missing is loaded from null as nothing, and from anything else as what it
/// holds would be.
pub proof fn law_null_is_nothing<T: FromConfigValue>(j: Json, x: Option<T>)
    ensures
        Option::<T>::fault(Json::Null) is None,
        x.loaded(Json::Null) <==> x is None,
        !(j is Null) ==> Option::<T>::fault(j) == T::fault(j),
        !(j is Null) && x.loaded(j) ==> x is Some && x->0.loaded(j),
{
}

/// A failure says which element failed, and whether its default did.
pub proof fn law_failures_name_the_element(key: Seq<char>, j: Json, ty: Seq<char>)
    ensures
        at_element(key) == "config element '"@ + key + "': "@,
        at_default(key) == "config element '"@ + key + "' default: "@,
        absent(key) == "required config element '"@ + key + "' not found in deployment config"@,
        not_a(j, ty) == "expected "@ + ty + ", got "@ + json_text(written(j)) + ": "@ + type_fault(
            written(j),
            ty,
        ),
{
}

} // verus!
