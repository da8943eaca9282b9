//! The bridge between [`Value`] and the `serde_json` crate: reading documents
//! from text, writing them as text, and reading numbers as doubles.
use serde::Serialize;
use serde_json::Value as Document;
use vstd::prelude::*;

use crate::diff::tidy;
use crate::json::{
    distinct, lemma_position, lemma_put, opt_doc, put, Entries, Json, Number, Value,
};

verus! {

/// A document of the `serde_json` crate.
#[verifier::external_type_specification]
#[verifier::external_body]
pub struct ExDocument(Document);

/// The document that a `serde_json::Value` holds.
pub uninterp spec fn doc_of(v: Document) -> Json;

/// What `serde_json::from_str` makes of a text: the document, or the message
/// of the error.
pub uninterp spec fn json_parse(text: Seq<char>) -> Result<Json, Seq<char>>;

/// What `serde_json::from_slice` makes of bytes: the document, or the message
/// of the error.
pub uninterp spec fn json_parse_bytes(bytes: Seq<u8>) -> Result<Json, Seq<char>>;

/// What `serde_json::from_str` makes of the text of an object: the object, or the
/// message of the error.
pub uninterp spec fn json_parse_map(text: Seq<char>) -> Result<Json, Seq<char>>;

/// The text that `serde_json` writes for a document with the given indent.
pub uninterp spec fn json_pretty(j: Json, indent: Seq<u8>) -> Result<Seq<u8>, Seq<char>>;

/// The message with which `serde_json::from_value` refuses a document that is
/// not of the named type.
pub uninterp spec fn type_fault(j: Json, ty: Seq<char>) -> Seq<char>;

/// The IEEE bits of the double that `serde_json::from_value` reads a number as.
pub uninterp spec fn double_of(j: Json) -> u64;

/// The compact text that `serde_json` writes for a document.
pub uninterp spec fn json_text(j: Json) -> Seq<char>;

/// The IEEE bits of the double nearest to the number that a text says, as
/// `serde_json::Number::as_f64` gives it; nothing if the text says no finite number.
pub uninterp spec fn double_bits(text: Seq<char>) -> Option<u64>;

/// The document of the double nearest to the number that a text says, as
/// `serde_json::Number::from_f64` makes it; nothing if the text says no finite number.
pub uninterp spec fn double_doc(text: Seq<char>) -> Option<Json>;

/// The outermost layer of a document: its members are still `serde_json`'s.
pub enum Layer {
    Null,
    Bool(bool),
    Number(Number),
    String(String),
    Array(Vec<Document>),
    Object(Vec<(String, Document)>),
}

/// The members of an array layer.
pub open spec fn layer_items(items: Seq<Document>) -> Seq<Json> {
    Seq::new(items.len(), |i: int| doc_of(items[i]))
}

/// The entries of an object layer.
pub open spec fn layer_entries(entries: Seq<(String, Document)>) -> Entries {
    Seq::new(entries.len(), |i: int| (entries[i].0@, doc_of(entries[i].1)))
}

impl View for Layer {
    type V = Json;

    open spec fn view(&self) -> Json {
        match self {
            Layer::Null => Json::Null,
            Layer::Bool(b) => Json::Bool(*b),
            Layer::Number(n) => n@,
            Layer::String(s) => Json::Str(s@),
            Layer::Array(items) => Json::Arr(layer_items(items@)),
            Layer::Object(entries) => Json::Obj(layer_entries(entries@)),
        }
    }
}

/// `serde_json::from_str`: the same text always gives the same document, or
/// the same error message.
#[verifier::external_body]
fn parse_text(text: &str) -> (r: Result<Document, String>)
    ensures
        json_parse(text@) == (match r {
            Ok(v) => Ok::<Json, Seq<char>>(doc_of(v)),
            Err(m) => Err::<Json, Seq<char>>(m@),
        }),
{
    serde_json::from_str(text).map_err(|e: serde_json::Error| e.to_string())
}

/// `serde_json::from_slice`: the same bytes always give the same document, or
/// the same error message.
#[verifier::external_body]
fn parse_bytes(bytes: &Vec<u8>) -> (r: Result<Document, String>)
    ensures
        json_parse_bytes(bytes@) == (match r {
            Ok(v) => Ok::<Json, Seq<char>>(doc_of(v)),
            Err(m) => Err::<Json, Seq<char>>(m@),
        }),
{
    serde_json::from_slice(bytes).map_err(|e: serde_json::Error| e.to_string())
}

/// `serde_json::from_str` into a `serde_json::Map`: the same text always gives
/// the same object, or the same error message.
#[verifier::external_body]
fn parse_map(text: &str) -> (r: Result<Document, String>)
    ensures
        json_parse_map(text@) == (match r {
            Ok(v) => Ok::<Json, Seq<char>>(doc_of(v)),
            Err(m) => Err::<Json, Seq<char>>(m@),
        }),
        r matches Ok(v) ==> doc_of(v) is Obj,
{
    let map: Result<serde_json::Map<std::string::String, Document>, serde_json::Error> =
        serde_json::from_str(text);
    map.map(Document::Object).map_err(|e| e.to_string())
}

/// A `serde_json::Serializer` with a `PrettyFormatter`: the same document and
/// indent always give the same bytes.
#[verifier::external_body]
fn pretty_bytes(v: &Document, indent: &[u8]) -> (r: Result<Vec<u8>, String>)
    ensures
        json_pretty(doc_of(*v), indent@) == (match r {
            Ok(b) => Ok::<Seq<u8>, Seq<char>>(b@),
            Err(m) => Err::<Seq<u8>, Seq<char>>(m@),
        }),
{
    let mut out = Vec::new();
    let formatter = serde_json::ser::PrettyFormatter::with_indent(indent);
    let mut ser = serde_json::Serializer::with_formatter(&mut out, formatter);
    v.serialize(&mut ser).map_err(|e| e.to_string())?;
    Ok(out)
}

/// `serde_json::from_value` of an `i8`: integers in its range, nothing else.
#[verifier::external_body]
pub(crate) fn serde_i8(v: Document) -> (r: Result<i8, String>)
    ensures
        match r {
            Ok(n) => doc_of(v) == Json::Int(n as int),
            Err(m) => !(doc_of(v) matches Json::Int(i) && i8::MIN <= i <= i8::MAX) && m@
                == type_fault(doc_of(v), "i8"@),
        },
{
    serde_json::from_value(v).map_err(|e| e.to_string())
}

/// `serde_json::from_value` of an `i16`: integers in its range, nothing else.
#[verifier::external_body]
pub(crate) fn serde_i16(v: Document) -> (r: Result<i16, String>)
    ensures
        match r {
            Ok(n) => doc_of(v) == Json::Int(n as int),
            Err(m) => !(doc_of(v) matches Json::Int(i) && i16::MIN <= i <= i16::MAX) && m@
                == type_fault(doc_of(v), "i16"@),
        },
{
    serde_json::from_value(v).map_err(|e| e.to_string())
}

/// `serde_json::from_value` of an `i32`: integers in its range, nothing else.
#[verifier::external_body]
pub(crate) fn serde_i32(v: Document) -> (r: Result<i32, String>)
    ensures
        match r {
            Ok(n) => doc_of(v) == Json::Int(n as int),
            Err(m) => !(doc_of(v) matches Json::Int(i) && i32::MIN <= i <= i32::MAX) && m@
                == type_fault(doc_of(v), "i32"@),
        },
{
    serde_json::from_value(v).map_err(|e| e.to_string())
}

/// `serde_json::from_value` of an `i64`: integers in its range, nothing else.
#[verifier::external_body]
pub(crate) fn serde_i64(v: Document) -> (r: Result<i64, String>)
    ensures
        match r {
            Ok(n) => doc_of(v) == Json::Int(n as int),
            Err(m) => !(doc_of(v) matches Json::Int(i) && i64::MIN <= i <= i64::MAX) && m@
                == type_fault(doc_of(v), "i64"@),
        },
{
    serde_json::from_value(v).map_err(|e| e.to_string())
}

/// `serde_json::from_value` of a `u8`: integers in its range, nothing else.
#[verifier::external_body]
pub(crate) fn serde_u8(v: Document) -> (r: Result<u8, String>)
    ensures
        match r {
            Ok(n) => doc_of(v) == Json::Int(n as int),
            Err(m) => !(doc_of(v) matches Json::Int(i) && 0 <= i <= u8::MAX) && m@ == type_fault(
                doc_of(v),
                "u8"@,
            ),
        },
{
    serde_json::from_value(v).map_err(|e| e.to_string())
}

/// `serde_json::from_value` of a `u16`: integers in its range, nothing else.
#[verifier::external_body]
pub(crate) fn serde_u16(v: Document) -> (r: Result<u16, String>)
    ensures
        match r {
            Ok(n) => doc_of(v) == Json::Int(n as int),
            Err(m) => !(doc_of(v) matches Json::Int(i) && 0 <= i <= u16::MAX) && m@ == type_fault(
                doc_of(v),
                "u16"@,
            ),
        },
{
    serde_json::from_value(v).map_err(|e| e.to_string())
}

/// `serde_json::from_value` of a `u32`: integers in its range, nothing else.
#[verifier::external_body]
pub(crate) fn serde_u32(v: Document) -> (r: Result<u32, String>)
    ensures
        match r {
            Ok(n) => doc_of(v) == Json::Int(n as int),
            Err(m) => !(doc_of(v) matches Json::Int(i) && 0 <= i <= u32::MAX) && m@ == type_fault(
                doc_of(v),
                "u32"@,
            ),
        },
{
    serde_json::from_value(v).map_err(|e| e.to_string())
}

/// `serde_json::from_value` of a `bool`: truth values, nothing else.
#[verifier::external_body]
pub(crate) fn serde_bool(v: Document) -> (r: Result<bool, String>)
    ensures
        match r {
            Ok(b) => doc_of(v) == Json::Bool(b),
            Err(m) => !(doc_of(v) is Bool) && m@ == type_fault(doc_of(v), "bool"@),
        },
{
    serde_json::from_value(v).map_err(|e| e.to_string())
}

/// `serde_json::from_value` of a `String`: strings, nothing else.
#[verifier::external_body]
pub(crate) fn serde_string(v: Document) -> (r: Result<String, String>)
    ensures
        match r {
            Ok(s) => doc_of(v) == Json::Str(s@),
            Err(m) => !(doc_of(v) is Str) && m@ == type_fault(doc_of(v), "String"@),
        },
{
    serde_json::from_value(v).map_err(|e| e.to_string())
}

/// `serde_json::from_value` of a double, by its IEEE bits: integers and doubles,
/// nothing else.
#[verifier::external_body]
pub(crate) fn serde_double(v: Document) -> (r: Result<u64, String>)
    ensures
        match r {
            Ok(bits) => (doc_of(v) is Int || doc_of(v) is Float) && bits == double_of(doc_of(v)),
            Err(m) => !(doc_of(v) is Int || doc_of(v) is Float) && m@ == type_fault(
                doc_of(v),
                "f64"@,
            ),
        },
{
    // The first value only gives the variable its type.
    let mut double = v.as_f64().unwrap_or_default();
    double = serde_json::from_value(v).map_err(|e| e.to_string())?;
    Ok(double.to_bits())
}

/// Takes a `serde_json::Value` apart by its variants. The layer holds what the
/// value held; the keys of a `serde_json::Map` are distinct.
#[verifier::external_body]
fn peel(v: Document) -> (layer: Layer)
    ensures
        layer@ == doc_of(v),
        layer matches Layer::Object(entries) ==> distinct(layer_entries(entries@)),
{
    match v {
        Document::Null => Layer::Null,
        Document::Bool(b) => Layer::Bool(b),
        Document::Number(n) => Layer::Number(match (n.as_u64(), n.as_i64()) {
            (Some(u), _) => Number::Unsigned(u),
            (None, Some(i)) => Number::Negative(i),
            (None, None) => Number::Float(n.to_string()),
        }),
        Document::String(s) => Layer::String(s),
        Document::Array(items) => Layer::Array(items),
        Document::Object(map) => Layer::Object(map.into_iter().collect()),
    }
}

/// Builds a `serde_json::Value` of the given variant. A `serde_json::Map`
/// keeps the order in which distinct keys are put into it.
#[verifier::external_body]
fn seal(layer: Layer) -> (v: Document)
    requires
        !(layer matches Layer::Number(Number::Float(_))),
        layer matches Layer::Object(entries) ==> distinct(layer_entries(entries@)),
    ensures
        doc_of(v) == layer@,
{
    match layer {
        Layer::Null => Document::Null,
        Layer::Bool(b) => Document::Bool(b),
        Layer::Number(Number::Unsigned(u)) => Document::from(u),
        Layer::Number(Number::Negative(i)) => Document::from(i),
        Layer::Number(Number::Float(_)) => Document::Null,
        Layer::String(s) => Document::String(s),
        Layer::Array(items) => Document::Array(items),
        Layer::Object(entries) => Document::Object(entries.into_iter().collect()),
    }
}

/// The `Display` text of a `serde_json::Value`, which is its compact text.
#[verifier::external_body]
fn compact_text(v: &Document) -> (text: String)
    ensures
        text@ == json_text(doc_of(*v)),
{
    v.to_string()
}

/// `serde_json::Number::as_f64` of the double nearest to a text, by its IEEE bits: the
/// same text always gives the same double.
#[verifier::external_body]
pub(crate) fn read_double(text: &str) -> (bits: Option<u64>)
    ensures
        bits == double_bits(text@),
{
    serde_json::Number::from_f64(text.parse().ok()?)?.as_f64().map(|x| x.to_bits())
}

/// `serde_json::Number::from_f64` of the double nearest to a text: the same text always
/// gives the same document, which is a double and no integer.
#[verifier::external_body]
fn seal_double(text: &str) -> (r: Option<Document>)
    ensures
        double_doc(text@) == (match r {
            Some(v) => Some(doc_of(v)),
            None => None,
        }),
        r matches Some(v) ==> doc_of(v) is Float,
{
    serde_json::Number::from_f64(text.parse().ok()?).map(Document::Number)
}

/// The list in reverse order.
fn reversed<T>(list: Vec<T>) -> (out: Vec<T>)
    ensures
        out@.len() == list@.len(),
        forall|i: int| 0 <= i < out@.len() ==> #[trigger] out@[i] == list@[list@.len() - 1 - i],
{
    let ghost all = list@;
    let mut rest: Vec<T> = list;
    let mut out: Vec<T> = Vec::new();
    while rest.len() > 0
        invariant
            all.len() == rest@.len() + out@.len(),
            forall|i: int| 0 <= i < rest@.len() ==> #[trigger] rest@[i] == all[i],
            forall|i: int| 0 <= i < out@.len() ==> #[trigger] out@[i] == all[all.len() - 1 - i],
        decreases rest@.len(),
    {
        let last = rest.pop().unwrap();
        out.push(last);
    }
    out
}

/// Turns a document of the `serde_json` crate into a [`Value`].
pub fn from_serde(v: Document) -> (r: Value)
    ensures
        r@ == doc_of(v),
        tidy(r@),
    decreases doc_of(v),
{
    let ghost whole = doc_of(v);
    match peel(v) {
        Layer::Null => Value::Null,
        Layer::Bool(b) => Value::Bool(b),
        Layer::Number(n) => Value::Number(n),
        Layer::String(s) => Value::String(s),
        Layer::Array(items) => {
            let ghost all = layer_items(items@);
            let mut rest: Vec<Document> = items;
            let mut out: Vec<Value> = Vec::new();
            while rest.len() > 0
                invariant
                    whole == doc_of(v),
                    whole == Json::Arr(all),
                    all.len() == rest@.len() + out@.len(),
                    forall|i: int| 0 <= i < rest@.len() ==> doc_of(#[trigger] rest@[i]) == all[i],
                    forall|i: int|
                        0 <= i < out@.len() ==> (#[trigger] out@[i])@ == all[all.len() - 1 - i]
                            && tidy(out@[i]@),
                decreases rest@.len(),
            {
                let ghost n = rest@.len() - 1;
                let last = rest.pop().unwrap();
                assert(doc_of(last) == whole->Arr_0[n]);
                assert(decreases_to!(whole => whole->Arr_0[n]));
                out.push(from_serde(last));
            }
            let ghost made = out@;
            let r = Value::Array(reversed(out));
            proof {
                assert(r@->Arr_0 =~= all);
                assert forall|i: int| 0 <= i < all.len() implies tidy(#[trigger] all[i]) by {
                    assert(made[all.len() - 1 - i]@ == all[i]);
                }
            }
            r
        },
        Layer::Object(entries) => {
            let ghost all = layer_entries(entries@);
            let mut rest: Vec<(String, Document)> = entries;
            let mut out: Vec<(String, Value)> = Vec::new();
            while rest.len() > 0
                invariant
                    whole == doc_of(v),
                    whole == Json::Obj(all),
                    all.len() == rest@.len() + out@.len(),
                    forall|i: int|
                        0 <= i < rest@.len() ==> (#[trigger] rest@[i]).0@ == all[i].0 && doc_of(
                            rest@[i].1,
                        ) == all[i].1,
                    forall|i: int|
                        0 <= i < out@.len() ==> (#[trigger] out@[i]).0@ == all[all.len() - 1 - i].0
                            && out@[i].1@ == all[all.len() - 1 - i].1 && tidy(out@[i].1@),
                decreases rest@.len(),
            {
                let ghost n = rest@.len() - 1;
                let last = rest.pop().unwrap();
                assert(doc_of(last.1) == whole->Obj_0[n].1);
                assert(decreases_to!(whole => whole->Obj_0[n].1));
                let member = from_serde(last.1);
                out.push((last.0, member));
            }
            let ghost made = out@;
            let r = Value::Object(reversed(out));
            proof {
                assert(r@->Obj_0 =~= all);
                assert forall|i: int| 0 <= i < all.len() implies tidy((#[trigger] all[i]).1) by {
                    assert(made[all.len() - 1 - i].1@ == all[i].1);
                }
            }
            r
        },
    }
}

/// The document as it is written: a double is the one nearest to its text, and of two
/// entries with one key the later wins.
pub open spec fn written(j: Json) -> Json
    decreases j,
{
    match j {
        Json::Float(t) => match double_doc(t) {
            Some(d) => d,
            None => Json::Null,
        },
        Json::Arr(a) => Json::Arr(
            Seq::new(
                a.len(),
                |i: int|
                    if 0 <= i < a.len() {
                        written(a[i])
                    } else {
                        Json::Null
                    },
            ),
        ),
        Json::Obj(e) => Json::Obj(written_entries(e)),
        _ => j,
    }
}

/// The entries of an object as they are written.
pub open spec fn written_entries(e: Entries) -> Entries
    decreases e,
{
    if e.len() == 0 {
        Seq::empty()
    } else {
        put(written_entries(e.drop_last()), e.last().0, written(e.last().1))
    }
}

/// Gives `key` the value `v` in a list of entries.
fn set_entry(entries: &mut Vec<(String, Document)>, key: &str, v: Document)
    ensures
        layer_entries(final(entries)@) == put(layer_entries(old(entries)@), key@, doc_of(v)),
{
    let wanted = key.to_owned();
    let ghost e = layer_entries(entries@);
    let mut i: usize = 0;
    while i < entries.len() && entries[i].0 != wanted
        invariant
            i <= entries@.len(),
            e == layer_entries(entries@),
            *entries == *old(entries),
            wanted@ == key@,
            forall|j: int| 0 <= j < i ==> (#[trigger] e[j]).0 != key@,
        decreases entries@.len() - i,
    {
        assert(e[i as int].0 != key@);
        i += 1;
    }
    proof {
        lemma_position(e, key@);
        if i < entries@.len() {
            assert(e[i as int].0 == key@);
        }
    }
    if i < entries.len() {
        entries.set(i, (wanted, v));
        assert(layer_entries(entries@) =~= e.update(i as int, (key@, doc_of(v))));
    } else {
        entries.push((wanted, v));
        assert(layer_entries(entries@) =~= e.push((key@, doc_of(v))));
    }
}

/// Turns a [`Value`] into a document of the `serde_json` crate.
pub fn to_serde(value: &Value) -> (v: Document)
    ensures
        doc_of(v) == written(value@),
    decreases value,
{
    match value {
        Value::Null => seal(Layer::Null),
        Value::Bool(b) => seal(Layer::Bool(*b)),
        Value::Number(Number::Unsigned(u)) => seal(Layer::Number(Number::Unsigned(*u))),
        Value::Number(Number::Negative(i)) => seal(Layer::Number(Number::Negative(*i))),
        Value::Number(Number::Float(t)) => match seal_double(t.as_str()) {
            Some(v) => v,
            None => seal(Layer::Null),
        },
        Value::String(s) => seal(Layer::String(s.clone())),
        Value::Array(items) => {
            let mut out: Vec<Document> = Vec::new();
            let mut i: usize = 0;
            while i < items.len()
                invariant
                    i <= items@.len(),
                    out@.len() == i,
                    *value == Value::Array(*items),
                    forall|j: int|
                        0 <= j < i ==> doc_of(#[trigger] out@[j]) == written(items@[j]@),
                decreases items@.len() - i,
            {
                assert(decreases_to!(*value => value->Array_0@[i as int]));
                out.push(to_serde(&items[i]));
                i += 1;
            }
            proof {
                assert(layer_items(out@) =~= written(value@)->Arr_0);
            }
            seal(Layer::Array(out))
        },
        Value::Object(entries) => {
            let ghost e = value@->Obj_0;
            let mut out: Vec<(String, Document)> = Vec::new();
            let mut i: usize = 0;
            assert(layer_entries(out@) =~= written_entries(e.take(0)));
            while i < entries.len()
                invariant
                    i <= entries@.len(),
                    *value == Value::Object(*entries),
                    e == value@->Obj_0,
                    e.len() == entries@.len(),
                    layer_entries(out@) == written_entries(e.take(i as int)),
                    distinct(layer_entries(out@)),
                decreases entries@.len() - i,
            {
                assert(decreases_to!(*value => value->Object_0@[i as int].1));
                let member = to_serde(&entries[i].1);
                proof {
                    let upto = e.take(i as int + 1);
                    assert(upto.drop_last() =~= e.take(i as int));
                    assert(upto.last() == e[i as int]);
                    lemma_put(layer_entries(out@), e[i as int].0, doc_of(member));
                }
                set_entry(&mut out, entries[i].0.as_str(), member);
                i += 1;
            }
            assert(e.take(e.len() as int) =~= e);
            seal(Layer::Object(out))
        },
    }
}

/// The double nearest to the number that a text says; nothing if the text says no finite
/// number.
pub fn nearest_double(text: &str) -> (r: Option<Value>)
    ensures
        opt_doc(r) == double_doc(text@),
        r matches Some(v) ==> v@ is Float,
{
    match seal_double(text) {
        Some(v) => Some(from_serde(v)),
        None => None,
    }
}

/// Reads a document from its text.
pub fn from_text(text: &str) -> (r: Result<Value, String>)
    ensures
        json_parse(text@) == (match r {
            Ok(v) => Ok::<Json, Seq<char>>(v@),
            Err(m) => Err::<Json, Seq<char>>(m@),
        }),
        r matches Ok(v) ==> tidy(v@),
{
    match parse_text(text) {
        Ok(v) => Ok(from_serde(v)),
        Err(m) => Err(m),
    }
}

/// Reads an object from its text.
pub fn map_from_text(text: &str) -> (r: Result<Value, String>)
    ensures
        json_parse_map(text@) == (match r {
            Ok(v) => Ok::<Json, Seq<char>>(v@),
            Err(m) => Err::<Json, Seq<char>>(m@),
        }),
        r matches Ok(v) ==> v@ is Obj && tidy(v@),
{
    match parse_map(text) {
        Ok(v) => Ok(from_serde(v)),
        Err(m) => Err(m),
    }
}

/// Writes a document over several lines with the given indent.
pub fn to_pretty(value: &Value, indent: &[u8]) -> (r: Result<Vec<u8>, String>)
    ensures
        json_pretty(written(value@), indent@) == (match r {
            Ok(b) => Ok::<Seq<u8>, Seq<char>>(b@),
            Err(m) => Err::<Seq<u8>, Seq<char>>(m@),
        }),
{
    pretty_bytes(&to_serde(value), indent)
}

/// Reads a document from the bytes of its text.
pub fn from_bytes(bytes: &Vec<u8>) -> (r: Result<Value, String>)
    ensures
        json_parse_bytes(bytes@) == (match r {
            Ok(v) => Ok::<Json, Seq<char>>(v@),
            Err(m) => Err::<Json, Seq<char>>(m@),
        }),
        r matches Ok(v) ==> tidy(v@),
{
    match parse_bytes(bytes) {
        Ok(v) => Ok(from_serde(v)),
        Err(m) => Err(m),
    }
}

/// Writes a document as compact text.
pub fn to_text(value: &Value) -> (text: String)
    ensures
        text@ == json_text(written(value@)),
{
    compact_text(&to_serde(value))
}

} // verus!
