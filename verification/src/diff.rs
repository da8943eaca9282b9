//! Merging, comparing and diffing JSON documents.
use vstd::prelude::*;

use crate::json::{
    at, copy_entries, cut, distinct, entries_of, find, insert, lemma_distinct_at, lemma_position,
    position, put, remove, Entries, Json, Number, Value,
};
use crate::text;

verus! {

// ---- equality -----------------------------------------------------------------

/// Whether the text is that of a zero double.
pub open spec fn is_zero_text(t: Seq<char>) -> bool {
    t == "0.0"@ || t == "-0.0"@
}

/// Whether two double texts stand for equal doubles; the two zeros are equal.
pub open spec fn same_float(a: Seq<char>, b: Seq<char>) -> bool {
    a == b || (is_zero_text(a) && is_zero_text(b))
}

/// Whether two documents are equal. The order of an object's entries does not
/// matter; an integer never equals a double.
pub open spec fn same_doc(a: Json, b: Json) -> bool
    decreases a,
{
    match (a, b) {
        (Json::Null, Json::Null) => true,
        (Json::Bool(x), Json::Bool(y)) => x == y,
        (Json::Int(x), Json::Int(y)) => x == y,
        (Json::Float(x), Json::Float(y)) => same_float(x, y),
        (Json::Str(x), Json::Str(y)) => x == y,
        (Json::Arr(x), Json::Arr(y)) => {
            &&& x.len() == y.len()
            &&& forall|i: int| 0 <= i < x.len() ==> same_doc(#[trigger] x[i], y[i])
        },
        (Json::Obj(x), Json::Obj(y)) => {
            &&& x.len() == y.len()
            &&& forall|i: int|
                0 <= i < x.len() ==> entry_in((#[trigger] x[i]).0, y) && same_doc(
                    x[i].1,
                    y[position(y, x[i].0).unwrap()].1,
                )
        },
        _ => false,
    }
}

/// Whether the key names an entry.
pub open spec fn entry_in(k: Seq<char>, e: Entries) -> bool {
    position(e, k) is Some
}

/// Every object in the document has distinct keys.
pub open spec fn tidy(j: Json) -> bool
    decreases j,
{
    match j {
        Json::Arr(a) => forall|i: int| 0 <= i < a.len() ==> tidy(#[trigger] a[i]),
        Json::Obj(e) => distinct(e) && forall|i: int| 0 <= i < e.len() ==> tidy((#[trigger] e[i]).1),
        _ => true,
    }
}

/// A document equals itself.
pub proof fn lemma_same_doc_reflexive(j: Json)
    requires
        tidy(j),
    ensures
        same_doc(j, j),
    decreases j,
{
    match j {
        Json::Arr(a) => {
            assert forall|i: int| 0 <= i < a.len() implies same_doc(#[trigger] a[i], a[i]) by {
                assert(tidy(a[i]));
                lemma_same_doc_reflexive(a[i]);
            }
        },
        Json::Obj(e) => {
            assert forall|i: int| 0 <= i < e.len() implies entry_in((#[trigger] e[i]).0, e)
                && same_doc(e[i].1, e[position(e, e[i].0).unwrap()].1) by {
                lemma_distinct_at(e, i);
                assert(tidy(e[i].1));
                lemma_same_doc_reflexive(e[i].1);
            }
        },
        _ => {},
    }
}

fn is_zero(t: &str) -> (r: bool)
    ensures
        r == is_zero_text(t@),
{
    text::same(t, "0.0") || text::same(t, "-0.0")
}

/// Whether two documents are equal.
pub fn equal(a: &Value, b: &Value) -> (r: bool)
    ensures
        r == same_doc(a@, b@),
    decreases a,
{
    match (a, b) {
        (Value::Null, Value::Null) => true,
        (Value::Bool(x), Value::Bool(y)) => *x == *y,
        (Value::Number(x), Value::Number(y)) => equal_numbers(x, y),
        (Value::String(x), Value::String(y)) => *x == *y,
        (Value::Array(x), Value::Array(y)) => {
            if x.len() != y.len() {
                return false;
            }
            let mut i: usize = 0;
            while i < x.len()
                invariant
                    i <= x@.len(),
                    x@.len() == y@.len(),
                    *a == Value::Array(*x),
                    *b == Value::Array(*y),
                    forall|j: int| 0 <= j < i ==> same_doc(#[trigger] a@->Arr_0[j], b@->Arr_0[j]),
                decreases x@.len() - i,
            {
                assert(decreases_to!(*a => a->Array_0@[i as int]));
                if !equal(&x[i], &y[i]) {
                    assert(!same_doc(a@->Arr_0[i as int], b@->Arr_0[i as int]));
                    return false;
                }
                i += 1;
            }
            true
        },
        (Value::Object(x), Value::Object(y)) => {
            if x.len() != y.len() {
                return false;
            }
            let ghost ex = a@->Obj_0;
            let ghost ey = entries_of(y@);
            proof {
                Value::lemma_object(*y);
            }
            let mut i: usize = 0;
            while i < x.len()
                invariant
                    i <= x@.len(),
                    x@.len() == y@.len(),
                    *a == Value::Object(*x),
                    *b == Value::Object(*y),
                    ex == a@->Obj_0,
                    ey == entries_of(y@),
                    b@ == Json::Obj(ey),
                    forall|j: int|
                        0 <= j < i ==> entry_in((#[trigger] ex[j]).0, ey) && same_doc(
                            ex[j].1,
                            ey[position(ey, ex[j].0).unwrap()].1,
                        ),
                decreases x@.len() - i,
            {
                assert(decreases_to!(*a => a->Object_0@[i as int].1));
                match find(y, x[i].0.as_str()) {
                    Some(p) => {
                        if !equal(&x[i].1, &y[p].1) {
                            assert(!(entry_in(ex[i as int].0, ey) && same_doc(
                                ex[i as int].1,
                                ey[position(ey, ex[i as int].0).unwrap()].1,
                            )));
                            return false;
                        }
                    },
                    None => {
                        assert(!entry_in(ex[i as int].0, ey));
                        return false;
                    },
                }
                i += 1;
            }
            true
        },
        _ => false,
    }
}

fn equal_numbers(x: &Number, y: &Number) -> (r: bool)
    ensures
        r == same_doc(x@, y@),
{
    match (x, y) {
        (Number::Unsigned(a), Number::Unsigned(b)) => *a == *b,
        (Number::Negative(a), Number::Negative(b)) => *a == *b,
        (Number::Unsigned(a), Number::Negative(b)) => *b >= 0 && *a == *b as u64,
        (Number::Negative(a), Number::Unsigned(b)) => *a >= 0 && *a as u64 == *b,
        (Number::Float(a), Number::Float(b)) => *a == *b || (is_zero(a.as_str()) && is_zero(
            b.as_str(),
        )),
        _ => false,
    }
}

// ---- merging ------------------------------------------------------------------

/// The document after a merge: objects merge key by key, anything else is
/// replaced. With `delete`, a null in the patch takes its key out.
pub open spec fn applied(base: Json, patch: Json, delete: bool) -> Json
    decreases patch,
{
    match (base, patch) {
        (Json::Obj(b), Json::Obj(p)) => Json::Obj(applied_entries(b, p, delete)),
        _ => patch,
    }
}

/// The entries after a merge, one patch entry after the other.
pub open spec fn applied_entries(b: Entries, p: Entries, delete: bool) -> Entries
    decreases p,
{
    if p.len() == 0 {
        b
    } else {
        let before = applied_entries(b, p.drop_last(), delete);
        let (k, v) = p.last();
        if delete && v is Null {
            cut(before, k)
        } else {
            put(
                before,
                k,
                match at(before, k) {
                    Some(old) => applied(old, v, delete),
                    None => v,
                },
            )
        }
    }
}

/// Merges `patch` into a copy of `base`.
pub fn apply_diff(base: &Value, patch: &Value, delete: bool) -> (r: Value)
    ensures
        r@ == applied(base@, patch@, delete),
    decreases patch,
{
    match (base, patch) {
        (Value::Object(b), Value::Object(p)) => {
            let ghost eb = entries_of(b@);
            let ghost ep = entries_of(p@);
            proof {
                Value::lemma_object(*b);
                Value::lemma_object(*p);
            }
            let mut out = copy_entries(b);
            let mut i: usize = 0;
            assert(ep.take(0) =~= Seq::empty());
            while i < p.len()
                invariant
                    i <= p@.len(),
                    *patch == Value::Object(*p),
                    ep == entries_of(p@),
                    entries_of(out@) == applied_entries(eb, ep.take(i as int), delete),
                decreases p@.len() - i,
            {
                proof {
                    assert(decreases_to!(*patch => patch->Object_0@[i as int].1));
                    assert(ep.take(i as int + 1).drop_last() =~= ep.take(i as int));
                    assert(ep.take(i as int + 1).last() == ep[i as int]);
                    lemma_position(entries_of(out@), ep[i as int].0);
                }
                let key = p[i].0.as_str();
                let v = &p[i].1;
                if delete && v.is_null() {
                    remove(&mut out, key);
                } else {
                    let merged = match find(&out, key) {
                        Some(at) => {
                            if out[at].1.is_object() && v.is_object() {
                                apply_diff(&out[at].1, v, delete)
                            } else {
                                v.clone()
                            }
                        },
                        None => v.clone(),
                    };
                    insert(&mut out, key, merged);
                }
                i += 1;
            }
            assert(ep.take(ep.len() as int) =~= ep);
            Value::object(out)
        },
        _ => patch.clone(),
    }
}

/// Merges `patch` into `target`.
pub fn apply_diff_in_place(target: &mut Value, patch: &Value, delete: bool)
    ensures
        final(target)@ == applied(old(target)@, patch@, delete),
{
    let merged = apply_diff(target, patch, delete);
    *target = merged;
}

// ---- diffing ------------------------------------------------------------------

/// What of `new` differs from `old`: for objects only the keys whose value is
/// new or changed, otherwise all of `new`.
pub open spec fn changed(old: Json, new: Json) -> Json
    decreases new,
{
    match (old, new) {
        (Json::Obj(o), Json::Obj(n)) => Json::Obj(changed_entries(o, n)),
        _ => new,
    }
}

/// The entries of `n` that are new or changed against `o`.
pub open spec fn changed_entries(o: Entries, n: Entries) -> Entries
    decreases n,
{
    if n.len() == 0 {
        Seq::empty()
    } else {
        let before = changed_entries(o, n.drop_last());
        let (k, v) = n.last();
        match at(o, k) {
            Some(x) => if x is Obj && v is Obj {
                let inner = changed_entries(x->Obj_0, v->Obj_0);
                if inner.len() == 0 {
                    before
                } else {
                    put(before, k, Json::Obj(inner))
                }
            } else if same_doc(x, v) {
                before
            } else {
                put(before, k, v)
            },
            None => put(before, k, v),
        }
    }
}

/// What of `new` differs from `prior`.
pub fn generate_diff(prior: &Value, new: &Value) -> (r: Value)
    ensures
        r@ == changed(prior@, new@),
    decreases new,
{
    match (prior, new) {
        (Value::Object(o), Value::Object(n)) => {
            let ghost eo = entries_of(o@);
            let ghost en = entries_of(n@);
            proof {
                Value::lemma_object(*o);
                Value::lemma_object(*n);
            }
            let mut out: Vec<(String, Value)> = Vec::new();
            let mut i: usize = 0;
            assert(en.take(0) =~= Seq::empty());
            assert(entries_of(out@) =~= Seq::empty());
            while i < n.len()
                invariant
                    i <= n@.len(),
                    *new == Value::Object(*n),
                    en == entries_of(n@),
                    eo == entries_of(o@),
                    entries_of(out@) == changed_entries(eo, en.take(i as int)),
                decreases n@.len() - i,
            {
                proof {
                    assert(decreases_to!(*new => new->Object_0@[i as int].1));
                    assert(en.take(i as int + 1).drop_last() =~= en.take(i as int));
                    assert(en.take(i as int + 1).last() == en[i as int]);
                    lemma_position(eo, en[i as int].0);
                }
                let key = n[i].0.as_str();
                let v = &n[i].1;
                match find(o, key) {
                    Some(p) => {
                        let x = &o[p].1;
                        if x.is_object() && v.is_object() {
                            let inner = generate_diff(x, v);
                            if !inner.is_blank() {
                                insert(&mut out, key, inner);
                            }
                        } else if !equal(x, v) {
                            insert(&mut out, key, v.clone());
                        }
                    },
                    None => {
                        insert(&mut out, key, v.clone());
                    },
                }
                i += 1;
            }
            assert(en.take(en.len() as int) =~= en);
            Value::object(out)
        },
        _ => new.clone(),
    }
}

} // verus!
