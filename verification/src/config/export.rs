//! Merging schemas into the text of a `doover_config.json`.
//!
//! The file holds one object per application. A schema takes its place in the
//! object of its application; every other entry stays as and where it was. The text
//! has an indent of four spaces and no newline at its end.
use vstd::prelude::*;

use crate::error::DooverError;
use crate::json::{
    at, entries_of, insert_nested, lemma_position, lemma_put, members, nested_at, nested_put, put,
    Entries, Json, Value,
};
use crate::json_text::{json_parse_map, json_pretty, map_from_text, to_pretty, written};

verus! {

/// The indent of the file.
pub open spec fn indent() -> Seq<u8> {
    seq![32u8, 32u8, 32u8, 32u8]
}

/// The entries of the file as it was: none if there is no file.
pub open spec fn existing_entries(existing: Option<&str>) -> Result<Entries, Seq<char>> {
    match existing {
        Some(text) => match json_parse_map(text@) {
            Ok(d) => Ok(members(d)),
            Err(m) => Err(m),
        },
        None => Ok(Seq::empty()),
    }
}

/// The text of the file once `data[app][key]` is set.
pub open spec fn merged_text(
    existing: Option<&str>,
    app: Seq<char>,
    key: Seq<char>,
    value: Json,
) -> Result<Seq<u8>, Seq<char>> {
    match existing_entries(existing) {
        Ok(e) => json_pretty(written(Json::Obj(nested_put(e, app, key, value))), indent()),
        Err(m) => Err(m),
    }
}

/// Whether a merge came out as it should.
pub open spec fn is_merge(
    r: Result<Vec<u8>, DooverError>,
    expected: Result<Seq<u8>, Seq<char>>,
) -> bool {
    match (r, expected) {
        (Ok(b), Ok(t)) => b@ == t,
        (Err(DooverError::Json(m)), Err(t)) => m@ == t,
        _ => false,
    }
}

fn write_app_entry(existing: Option<&str>, app_name: &str, key: &str, value: Value) -> (r: Result<
    Vec<u8>,
    DooverError,
>)
    ensures
        is_merge(r, merged_text(existing, app_name@, key@, value@)),
{
    let mut data: Vec<(String, Value)> = Vec::new();
    assert(entries_of(data@) =~= Seq::empty());
    if let Some(text) = existing {
        match map_from_text(text) {
            Ok(Value::Object(entries)) => {
                proof {
                    Value::lemma_object(entries);
                }
                data = entries;
            },
            Ok(_) => {},
            Err(m) => {
                return Err(DooverError::Json(m));
            },
        }
    }
    insert_nested(&mut data, app_name, key, value);
    let whole = Value::object(data);
    let spaces: Vec<u8> = vec![32u8, 32u8, 32u8, 32u8];
    assert(spaces@ =~= indent());
    match to_pretty(&whole, spaces.as_slice()) {
        Ok(b) => Ok(b),
        Err(m) => Err(DooverError::Json(m)),
    }
}

/// The text of the file with the configuration schema of an application.
pub fn write_config_schema(existing: Option<&str>, app_name: &str, schema_json: Value) -> (r: Result<
    Vec<u8>,
    DooverError,
>)
    ensures
        is_merge(r, merged_text(existing, app_name@, "config_schema"@, schema_json@)),
{
    write_app_entry(existing, app_name, "config_schema", schema_json)
}

/// The text of the file with the user interface schema of an application.
pub fn write_ui_schema(existing: Option<&str>, app_name: &str, ui_json: Value) -> (r: Result<
    Vec<u8>,
    DooverError,
>)
    ensures
        is_merge(r, merged_text(existing, app_name@, "ui_schema"@, ui_json@)),
{
    write_app_entry(existing, app_name, "ui_schema", ui_json)
}

/// A merge gives the schema its place in the object of its application and leaves
/// every other key as it was: those of the other applications, those of the same
/// application, and the order of the applications.
pub proof fn law_merge_keeps_everything_else(
    e: Entries,
    app: Seq<char>,
    key: Seq<char>,
    value: Json,
    other: Seq<char>,
)
    ensures
        nested_at(nested_put(e, app, key, value), app, key) == Some(value),
        other != app ==> at(nested_put(e, app, key, value), other) == at(e, other),
        other != key && at(e, app) is Some && at(e, app)->0 is Obj ==> nested_at(
            nested_put(e, app, key, value),
            app,
            other,
        ) == nested_at(e, app, other),
        forall|i: int|
            0 <= i < e.len() ==> (#[trigger] nested_put(e, app, key, value)[i]).0 == e[i].0,
{
    lemma_position(e, app);
    let inner = match at(e, app) {
        Some(Json::Obj(i)) => i,
        _ => Seq::empty(),
    };
    lemma_put(inner, key, value);
    let single = seq![(key, value)];
    lemma_position(single, key);
    lemma_put(e, app, Json::Obj(put(inner, key, value)));
    lemma_put(e, app, Json::Obj(single));
}

/// An exported file is indented by four spaces and holds what it held before; a new file
/// starts from nothing, and a file that cannot be read is left alone.
pub proof fn law_exports_start_from_what_is_there(
    existing: Option<&str>,
    app: Seq<char>,
    key: Seq<char>,
    value: Json,
    i: int,
)
    ensures
        indent().len() == 4,
        0 <= i < 4 ==> indent()[i] == 0x20,
        existing is None ==> existing_entries(existing) == Ok::<Entries, Seq<char>>(Seq::empty()),
        existing matches Some(t) ==> (json_parse_map(t@) matches Ok(Json::Obj(e))
            ==> existing_entries(existing) == Ok::<Entries, Seq<char>>(e)),
        existing matches Some(t) ==> (json_parse_map(t@) matches Err(m) ==> merged_text(
            existing,
            app,
            key,
            value,
        ) == Err::<Seq<u8>, Seq<char>>(m)),
        existing_entries(existing) matches Ok(e) ==> merged_text(existing, app, key, value)
            == json_pretty(written(Json::Obj(nested_put(e, app, key, value))), indent()),
{
}

} // verus!
