//! What the device agent accepts as a payload: an object, with keys made of
//! letters, digits, underscores and dashes at every depth.
use vstd::prelude::*;

use crate::error::{invalid, is_invalid, DooverError};
use crate::json::{docs, entries_of, Entries, Json, Value};
use crate::text::{chars, concat, debug_text, quoted};

verus! {

/// Whether a character can stand in a key.
pub open spec fn key_char(c: char) -> bool {
    'a' <= c <= 'z' || 'A' <= c <= 'Z' || '0' <= c <= '9' || c == '_' || c == '-'
}

/// Whether a key is accepted.
pub open spec fn valid_key(k: Seq<char>) -> bool {
    k.len() > 0 && forall|i: int| 0 <= i < k.len() ==> key_char(#[trigger] k[i])
}

/// What is wrong with the entries of an object: the first fault in order. Keys at
/// the root and below it are reported in different words.
pub open spec fn entries_fault(e: Entries, root: bool) -> Option<Seq<char>>
    decreases e,
{
    if e.len() == 0 {
        None
    } else {
        match entries_fault(e.drop_last(), root) {
            Some(m) => Some(m),
            None => if !valid_key(e.last().0) {
                Some(key_fault(e.last().0, root))
            } else {
                value_fault(e.last().1)
            },
        }
    }
}

/// The message that a key is not accepted.
pub open spec fn key_fault(k: Seq<char>, root: bool) -> Seq<char> {
    (if root {
        "invalid key: "@
    } else {
        "invalid nested key: "@
    }) + debug_text(k)
}

/// What is wrong with the items of a list: the first fault in order.
pub open spec fn items_fault(a: Seq<Json>) -> Option<Seq<char>>
    decreases a,
{
    if a.len() == 0 {
        None
    } else {
        match items_fault(a.drop_last()) {
            Some(m) => Some(m),
            None => value_fault(a.last()),
        }
    }
}

/// What is wrong with a value below the root.
pub open spec fn value_fault(j: Json) -> Option<Seq<char>>
    decreases j,
{
    match j {
        Json::Arr(a) => items_fault(a),
        Json::Obj(e) => entries_fault(e, false),
        _ => None,
    }
}

/// What is wrong with a payload; nothing if it is accepted.
pub open spec fn payload_fault(j: Json) -> Option<Seq<char>> {
    match j {
        Json::Obj(e) => entries_fault(e, true),
        _ => Some("payload root must be an object"@),
    }
}

/// Whether a check came out as it should.
pub open spec fn is_verdict(r: Result<(), DooverError>, fault: Option<Seq<char>>) -> bool {
    match (r, fault) {
        (Ok(_), None) => true,
        (Err(e), Some(m)) => is_invalid(e, m),
        _ => false,
    }
}

proof fn lemma_entries_fault(e: Entries, root: bool, n: int)
    requires
        0 <= n <= e.len(),
        entries_fault(e.take(n), root) is Some,
    ensures
        entries_fault(e, root) == entries_fault(e.take(n), root),
    decreases e.len(),
{
    if n == e.len() {
        assert(e.take(n) =~= e);
    } else {
        assert(e.drop_last().take(n) =~= e.take(n));
        lemma_entries_fault(e.drop_last(), root, n);
    }
}

proof fn lemma_items_fault(a: Seq<Json>, n: int)
    requires
        0 <= n <= a.len(),
        items_fault(a.take(n)) is Some,
    ensures
        items_fault(a) == items_fault(a.take(n)),
    decreases a.len(),
{
    if n == a.len() {
        assert(a.take(n) =~= a);
    } else {
        assert(a.drop_last().take(n) =~= a.take(n));
        lemma_items_fault(a.drop_last(), n);
    }
}

fn is_valid_key(k: &str) -> (r: bool)
    ensures
        r == valid_key(k@),
{
    let v = chars(k);
    if v.len() == 0 {
        return false;
    }
    let mut i: usize = 0;
    while i < v.len()
        invariant
            i <= v@.len(),
            v@ == k@,
            forall|j: int| 0 <= j < i ==> key_char(#[trigger] v@[j]),
        decreases v@.len() - i,
    {
        let c = v[i];
        if !((c >= 'a' && c <= 'z') || (c >= 'A' && c <= 'Z') || (c >= '0' && c <= '9') || c == '_'
            || c == '-') {
            assert(!key_char(k@[i as int]));
            return false;
        }
        i += 1;
    }
    true
}

fn check_entry(key: &str, root: bool) -> (r: Result<(), DooverError>)
    ensures
        is_verdict(
            r,
            if valid_key(key@) {
                None
            } else {
                Some(key_fault(key@, root))
            },
        ),
{
    if is_valid_key(key) {
        Ok(())
    } else {
        let start = if root {
            "invalid key: "
        } else {
            "invalid nested key: "
        };
        Err(invalid(concat(start, quoted(key).as_str()).as_str()))
    }
}

fn validate_value(v: &Value) -> (r: Result<(), DooverError>)
    ensures
        is_verdict(r, value_fault(v@)),
    decreases v,
{
    match v {
        Value::Array(items) => {
            let ghost d = docs(items@);
            proof {
                Value::lemma_array(*items);
            }
            let mut i: usize = 0;
            assert(d.take(0) =~= Seq::empty());
            while i < items.len()
                invariant
                    i <= items@.len(),
                    d == docs(items@),
                    v@ == Json::Arr(d),
                    *v == Value::Array(*items),
                    items_fault(d.take(i as int)) is None,
                decreases items@.len() - i,
            {
                proof {
                    assert(decreases_to!(*v => v->Array_0@[i as int]));
                    assert(d.take(i as int + 1).drop_last() =~= d.take(i as int));
                    assert(d.take(i as int + 1).last() == items@[i as int]@);
                }
                let r = validate_value(&items[i]);
                if r.is_err() {
                    proof {
                        lemma_items_fault(d, i as int + 1);
                    }
                    return r;
                }
                i += 1;
            }
            assert(d.take(d.len() as int) =~= d);
            Ok(())
        },
        Value::Object(entries) => {
            let ghost e = entries_of(entries@);
            proof {
                Value::lemma_object(*entries);
            }
            let mut i: usize = 0;
            assert(e.take(0) =~= Seq::empty());
            while i < entries.len()
                invariant
                    i <= entries@.len(),
                    e == entries_of(entries@),
                    v@ == Json::Obj(e),
                    *v == Value::Object(*entries),
                    entries_fault(e.take(i as int), false) is None,
                decreases entries@.len() - i,
            {
                proof {
                    assert(decreases_to!(*v => v->Object_0@[i as int].1));
                    assert(e.take(i as int + 1).drop_last() =~= e.take(i as int));
                    assert(e.take(i as int + 1).last() == e[i as int]);
                }
                let r = check_entry(entries[i].0.as_str(), false);
                if r.is_err() {
                    proof {
                        lemma_entries_fault(e, false, i as int + 1);
                    }
                    return r;
                }
                let r = validate_value(&entries[i].1);
                if r.is_err() {
                    proof {
                        lemma_entries_fault(e, false, i as int + 1);
                    }
                    return r;
                }
                i += 1;
            }
            assert(e.take(e.len() as int) =~= e);
            Ok(())
        },
        _ => Ok(()),
    }
}

/// Whether a payload is accepted; if not, its first fault.
pub fn validate_payload(data: &Value) -> (r: Result<(), DooverError>)
    ensures
        is_verdict(r, payload_fault(data@)),
{
    match data {
        Value::Object(entries) => {
            let ghost e = entries_of(entries@);
            proof {
                Value::lemma_object(*entries);
            }
            let mut i: usize = 0;
            assert(e.take(0) =~= Seq::empty());
            while i < entries.len()
                invariant
                    i <= entries@.len(),
                    e == entries_of(entries@),
                    data@ == Json::Obj(e),
                    entries_fault(e.take(i as int), true) is None,
                decreases entries@.len() - i,
            {
                proof {
                    assert(e.take(i as int + 1).drop_last() =~= e.take(i as int));
                    assert(e.take(i as int + 1).last() == e[i as int]);
                }
                let r = check_entry(entries[i].0.as_str(), true);
                if r.is_err() {
                    proof {
                        lemma_entries_fault(e, true, i as int + 1);
                    }
                    return r;
                }
                let r = validate_value(&entries[i].1);
                if r.is_err() {
                    proof {
                        lemma_entries_fault(e, true, i as int + 1);
                    }
                    return r;
                }
                i += 1;
            }
            assert(e.take(e.len() as int) =~= e);
            Ok(())
        },
        _ => Err(invalid("payload root must be an object")),
    }
}

// ---- laws ----------------------------------------------------------------------------

/// Whether every key of a document is accepted, at every depth.
pub open spec fn clean_keys(j: Json) -> bool
    decreases j,
{
    match j {
        Json::Arr(a) => forall|i: int| 0 <= i < a.len() ==> clean_keys(#[trigger] a[i]),
        Json::Obj(e) => forall|i: int|
            0 <= i < e.len() ==> valid_key((#[trigger] e[i]).0) && clean_keys(e[i].1),
        _ => true,
    }
}

proof fn lemma_clean_entries(e: Entries, root: bool)
    ensures
        entries_fault(e, root) is None <==> (forall|i: int|
            0 <= i < e.len() ==> valid_key((#[trigger] e[i]).0) && clean_keys(e[i].1)),
    decreases e,
{
    if e.len() > 0 {
        let d = e.drop_last();
        lemma_clean_entries(d, root);
        lemma_clean_value(e.last().1);
        assert(forall|i: int| 0 <= i < d.len() ==> #[trigger] d[i] == e[i]);
        assert(e[e.len() - 1] == e.last());
        if entries_fault(e, root) is None {
            assert forall|i: int| 0 <= i < e.len() implies valid_key((#[trigger] e[i]).0)
                && clean_keys(e[i].1) by {
                if i < d.len() {
                    assert(d[i] == e[i]);
                }
            }
        }
    }
}

proof fn lemma_clean_items(a: Seq<Json>)
    ensures
        items_fault(a) is None <==> (forall|i: int| 0 <= i < a.len() ==> clean_keys(#[trigger] a[i])),
    decreases a,
{
    if a.len() > 0 {
        let d = a.drop_last();
        lemma_clean_items(d);
        lemma_clean_value(a.last());
        assert(forall|i: int| 0 <= i < d.len() ==> #[trigger] d[i] == a[i]);
        assert(a[a.len() - 1] == a.last());
        if items_fault(a) is None {
            assert forall|i: int| 0 <= i < a.len() implies clean_keys(#[trigger] a[i]) by {
                if i < d.len() {
                    assert(d[i] == a[i]);
                }
            }
        }
    }
}

proof fn lemma_clean_value(j: Json)
    ensures
        value_fault(j) is None <==> clean_keys(j),
    decreases j,
{
    match j {
        Json::Arr(a) => {
            lemma_clean_items(a);
        },
        Json::Obj(e) => {
            lemma_clean_entries(e, false);
        },
        _ => {},
    }
}

/// A payload is accepted exactly if it is an object and every key in it, at every
/// depth, is made of letters, digits, underscores and dashes.
pub proof fn law_accepted_payloads(j: Json)
    ensures
        payload_fault(j) is None <==> j is Obj && clean_keys(j),
{
    if let Json::Obj(e) = j {
        lemma_clean_entries(e, true);
    }
}

} // verus!
