//! What merging and diffing promise of each other.
use vstd::prelude::*;

use crate::diff::{
    applied, applied_entries, changed, changed_entries, entry_in, lemma_same_doc_reflexive, same_doc,
    tidy,
};
use crate::json::{
    at, distinct, lemma_cut, lemma_distinct_at, lemma_first_is_position, lemma_position, lemma_put,
    position, Entries, Json,
};

verus! {

/// Without its last entry a list of entries names everything but the last key.
pub proof fn lemma_drop_last_at(e: Entries)
    requires
        e.len() > 0,
        distinct(e),
    ensures
        distinct(e.drop_last()),
        at(e, e.last().0) == Some(e.last().1),
        at(e.drop_last(), e.last().0) is None,
        forall|q: Seq<char>| q != e.last().0 ==> #[trigger] at(e.drop_last(), q) == at(e, q),
{
    let d = e.drop_last();
    let k = e.last().0;
    assert(forall|i: int| 0 <= i < d.len() ==> #[trigger] d[i] == e[i]);
    lemma_distinct_at(e, e.len() - 1);
    lemma_position(d, k);
    assert forall|q: Seq<char>| q != k implies #[trigger] at(d, q) == at(e, q) by {
        lemma_position(d, q);
        lemma_position(e, q);
        match position(d, q) {
            Some(i) => {
                assert(e[i].0 == q);
                lemma_distinct_at(e, i);
            },
            None => {
                if let Some(i) = position(e, q) {
                    assert(i < d.len());
                    assert(d[i].0 == q);
                }
            },
        }
    }
}

/// What a key holds after a merge, from what it held and what the patch says.
pub open spec fn merged_at(was: Option<Json>, patch: Option<Json>, delete: bool) -> Option<Json> {
    match patch {
        None => was,
        Some(v) => if delete && v is Null {
            None
        } else {
            match was {
                Some(x) => Some(applied(x, v, delete)),
                None => Some(v),
            }
        },
    }
}

/// A merge works key by key: a key that the patch leaves out keeps its value,
/// and a key that the patch names holds its old value merged with the patch's.
pub proof fn law_merge_is_key_by_key(b: Entries, p: Entries, delete: bool)
    requires
        distinct(b),
        distinct(p),
    ensures
        distinct(applied_entries(b, p, delete)),
        forall|q: Seq<char>|
            #[trigger] at(applied_entries(b, p, delete), q) == merged_at(
                at(b, q),
                at(p, q),
                delete,
            ),
    decreases p.len(),
{
    if p.len() == 0 {
        assert forall|q: Seq<char>| at(p, q) is None by {
            lemma_position(p, q);
        }
    } else {
        let d = p.drop_last();
        let (k, v) = p.last();
        let before = applied_entries(b, d, delete);
        lemma_drop_last_at(p);
        law_merge_is_key_by_key(b, d, delete);
        if delete && v is Null {
            lemma_cut(before, k);
        } else {
            lemma_put(
                before,
                k,
                match at(before, k) {
                    Some(old) => applied(old, v, delete),
                    None => v,
                },
            );
        }
        assert(at(before, k) == merged_at(at(b, k), at(d, k), delete));
        assert forall|q: Seq<char>|
            #[trigger] at(applied_entries(b, p, delete), q) == merged_at(
                at(b, q),
                at(p, q),
                delete,
            ) by {
            assert(at(before, q) == merged_at(at(b, q), at(d, q), delete));
            if q != k {
                assert(at(d, q) == at(p, q));
            }
        }
    }
}

/// Whether a document carries a written value already: an object every key of it,
/// anything else an equal value.
pub open spec fn carries(x: Json, v: Json) -> bool {
    if x is Obj && v is Obj {
        changed_entries(x->Obj_0, v->Obj_0).len() == 0
    } else {
        same_doc(x, v)
    }
}

/// Whether the value that a key of `n` holds is already what `o` holds.
pub open spec fn settled(o: Entries, k: Seq<char>, v: Json) -> bool {
    match at(o, k) {
        Some(x) => carries(x, v),
        None => false,
    }
}

/// Nothing is changed exactly when every entry is settled.
pub proof fn lemma_unchanged(o: Entries, n: Entries)
    ensures
        changed_entries(o, n).len() == 0 <==> (forall|j: int|
            0 <= j < n.len() ==> settled(o, (#[trigger] n[j]).0, n[j].1)),
    decreases n.len(),
{
    if n.len() > 0 {
        let d = n.drop_last();
        let (k, v) = n.last();
        lemma_unchanged(o, d);
        assert(forall|j: int| 0 <= j < d.len() ==> #[trigger] d[j] == n[j]);
        let before = changed_entries(o, d);
        lemma_put(before, k, v);
        if let Some(x) = at(o, k) {
            lemma_put(before, k, Json::Obj(changed_entries(x->Obj_0, v->Obj_0)));
        }
        if settled(o, k, v) {
            assert(changed_entries(o, n) == before);
            assert forall|j: int| 0 <= j < n.len() && before.len() == 0 implies settled(
                o,
                (#[trigger] n[j]).0,
                n[j].1,
            ) by {
                if j < d.len() {
                    assert(d[j] == n[j]);
                }
            }
            if forall|j: int| 0 <= j < n.len() ==> settled(o, (#[trigger] n[j]).0, n[j].1) {
                assert forall|j: int| 0 <= j < d.len() implies settled(
                    o,
                    (#[trigger] d[j]).0,
                    d[j].1,
                ) by {
                    assert(d[j] == n[j]);
                }
            }
        } else {
            assert(changed_entries(o, n).len() > 0);
            assert(n[n.len() - 1] == n.last());
        }
    }
}

proof fn lemma_unchanged_keeps_keys(c: Entries, t: Entries)
    requires
        changed_entries(c, t).len() == 0,
    ensures
        applied_entries(c, t, false).len() == c.len(),
        forall|i: int|
            0 <= i < c.len() ==> (#[trigger] applied_entries(c, t, false)[i]).0 == c[i].0,
    decreases t.len(),
{
    if t.len() > 0 {
        let d = t.drop_last();
        let (k, v) = t.last();
        lemma_unchanged(c, t);
        lemma_unchanged(c, d);
        assert forall|j: int| 0 <= j < d.len() implies settled(c, (#[trigger] d[j]).0, d[j].1) by {
            assert(d[j] == t[j]);
        }
        lemma_unchanged_keeps_keys(c, d);
        let before = applied_entries(c, d, false);
        assert(settled(c, t[t.len() - 1].0, t[t.len() - 1].1));
        lemma_position(c, k);
        let i = position(c, k).unwrap();
        assert(before[i].0 == k);
        assert forall|j: int| 0 <= j < i implies (#[trigger] before[j]).0 != k by {
            assert(before[j].0 == c[j].0);
        }
        lemma_first_is_position(before, k, i);
    }
}

/// A write of which nothing differs from what is there would change nothing:
/// merging it gives an equal document.
pub proof fn law_skipped_write_changes_nothing(c: Entries, t: Entries)
    requires
        tidy(Json::Obj(c)),
        tidy(Json::Obj(t)),
        changed_entries(c, t).len() == 0,
    ensures
        same_doc(Json::Obj(c), Json::Obj(applied_entries(c, t, false))),
    decreases t,
{
    let p = applied_entries(c, t, false);
    lemma_unchanged_keeps_keys(c, t);
    lemma_unchanged(c, t);
    law_merge_is_key_by_key(c, t, false);
    assert forall|i: int| 0 <= i < c.len() implies entry_in((#[trigger] c[i]).0, p) && same_doc(
        c[i].1,
        p[position(p, c[i].0).unwrap()].1,
    ) by {
        let k = c[i].0;
        lemma_distinct_at(c, i);
        assert(p[i].0 == k);
        lemma_distinct_at(p, i);
        assert(at(p, k) == merged_at(Some(c[i].1), at(t, k), false));
        assert(tidy(c[i].1));
        lemma_same_doc_reflexive(c[i].1);
        lemma_position(t, k);
        if let Some(j) = position(t, k) {
            let v = t[j].1;
            assert(settled(c, t[j].0, v));
            assert(tidy(t[j].1));
            if c[i].1 is Obj && v is Obj {
                assert(decreases_to!(t => t[j].1));
                law_skipped_write_changes_nothing(c[i].1->Obj_0, v->Obj_0);
            }
        }
    }
}

pub proof fn lemma_no_change_against_self(v: Entries)
    requires
        tidy(Json::Obj(v)),
    ensures
        changed_entries(v, v).len() == 0,
    decreases v,
{
    lemma_unchanged(v, v);
    assert forall|j: int| 0 <= j < v.len() implies settled(v, (#[trigger] v[j]).0, v[j].1) by {
        lemma_distinct_at(v, j);
        assert(tidy(v[j].1));
        lemma_same_doc_reflexive(v[j].1);
        if v[j].1 is Obj {
            assert(decreases_to!(v => v[j].1));
            lemma_no_change_against_self(v[j].1->Obj_0);
        }
    }
}

/// After a merge nothing of what was merged is left to write.
pub proof fn law_merged_write_leaves_no_change(c: Entries, t: Entries)
    requires
        tidy(Json::Obj(c)),
        tidy(Json::Obj(t)),
    ensures
        changed_entries(applied_entries(c, t, false), t).len() == 0,
    decreases t,
{
    let p = applied_entries(c, t, false);
    lemma_unchanged(p, t);
    law_merge_is_key_by_key(c, t, false);
    assert forall|j: int| 0 <= j < t.len() implies settled(p, (#[trigger] t[j]).0, t[j].1) by {
        let k = t[j].0;
        let v = t[j].1;
        lemma_distinct_at(t, j);
        assert(at(p, k) == merged_at(at(c, k), Some(v), false));
        assert(tidy(t[j].1));
        lemma_same_doc_reflexive(v);
        if v is Obj {
            assert(decreases_to!(t => t[j].1));
            lemma_no_change_against_self(v->Obj_0);
            lemma_position(c, k);
            if let Some(i) = position(c, k) {
                assert(tidy(c[i].1));
                if c[i].1 is Obj {
                    law_merged_write_leaves_no_change(c[i].1->Obj_0, v->Obj_0);
                }
            }
        }
    }
}

// ---- equality -------------------------------------------------------------------------

/// The keys of entries.
pub open spec fn keys_of(e: Entries) -> Seq<Seq<char>> {
    Seq::new(e.len(), |i: int| e[i].0)
}

proof fn lemma_keys(e: Entries, q: Seq<char>)
    ensures
        keys_of(e).to_set().contains(q) <==> at(e, q) is Some,
        distinct(e) ==> keys_of(e).no_duplicates(),
{
    let keys = keys_of(e);
    lemma_position(e, q);
    if keys.contains(q) {
        let i = choose|i: int| 0 <= i < keys.len() && keys[i] == q;
        assert(e[i].0 == q);
    }
    if let Some(i) = position(e, q) {
        assert(keys[i] == q);
    }
    if distinct(e) {
        assert forall|i: int, j: int| 0 <= i < keys.len() && 0 <= j < keys.len() && i
            != j implies keys[i] != keys[j] by {
            assert(e[i].0 != e[j].0);
        }
    }
}

/// Two objects are equal exactly if they have the same keys and each key names equal
/// documents, in whatever order.
pub proof fn law_objects_are_equal_by_key(x: Entries, y: Entries)
    requires
        distinct(x),
        distinct(y),
    ensures
        same_doc(Json::Obj(x), Json::Obj(y)) <==> (forall|q: Seq<char>|
            match (#[trigger] at(x, q), at(y, q)) {
                (Some(a), Some(b)) => same_doc(a, b),
                (None, None) => true,
                _ => false,
            }),
{
    broadcast use vstd::seq_lib::seq_to_set_is_finite;

    let kx = keys_of(x).to_set();
    let ky = keys_of(y).to_set();
    lemma_keys(x, Seq::empty());
    lemma_keys(y, Seq::empty());
    keys_of(x).unique_seq_to_set();
    keys_of(y).unique_seq_to_set();
    if same_doc(Json::Obj(x), Json::Obj(y)) {
        assert forall|q: Seq<char>| kx.contains(q) implies ky.contains(q) by {
            lemma_keys(x, q);
            lemma_keys(y, q);
            lemma_position(x, q);
            let i = position(x, q).unwrap();
            assert(entry_in(x[i].0, y));
        }
        vstd::set_lib::lemma_subset_equality(kx, ky);
        assert forall|q: Seq<char>|
            match (#[trigger] at(x, q), at(y, q)) {
                (Some(a), Some(b)) => same_doc(a, b),
                (None, None) => true,
                _ => false,
            } by {
            lemma_keys(x, q);
            lemma_keys(y, q);
            lemma_position(x, q);
            if let Some(i) = position(x, q) {
                assert(entry_in(x[i].0, y) && same_doc(
                    x[i].1,
                    y[position(y, x[i].0).unwrap()].1,
                ));
            }
        }
    }
    if forall|q: Seq<char>|
        match (#[trigger] at(x, q), at(y, q)) {
            (Some(a), Some(b)) => same_doc(a, b),
            (None, None) => true,
            _ => false,
        } {
        assert forall|q: Seq<char>| kx.contains(q) == ky.contains(q) by {
            lemma_keys(x, q);
            lemma_keys(y, q);
            assert(at(x, q) is Some <==> at(y, q) is Some);
        }
        assert(kx =~= ky);
        assert forall|i: int| 0 <= i < x.len() implies entry_in((#[trigger] x[i]).0, y) && same_doc(
            x[i].1,
            y[position(y, x[i].0).unwrap()].1,
        ) by {
            lemma_distinct_at(x, i);
            assert(at(x, x[i].0) is Some);
        }
    }
}

/// Documents of different kinds are never equal, an integer and a double among them. Of
/// the same kind, texts are equal if their characters are, truth values and integers if
/// they are the same, and lists if they are as long and equal item by item.
pub proof fn law_equality_is_by_kind(a: Json, b: Json)
    ensures
        same_doc(a, b) ==> (a is Null <==> b is Null) && (a is Bool <==> b is Bool) && (a is Int
            <==> b is Int) && (a is Float <==> b is Float) && (a is Str <==> b is Str) && (a is Arr
            <==> b is Arr) && (a is Obj <==> b is Obj),
        a is Null && b is Null ==> same_doc(a, b),
        a is Bool && b is Bool ==> (same_doc(a, b) <==> a->Bool_0 == b->Bool_0),
        a is Int && b is Int ==> (same_doc(a, b) <==> a->Int_0 == b->Int_0),
        a is Str && b is Str ==> (same_doc(a, b) <==> a->Str_0 == b->Str_0),
        a is Float && b is Float && a->Float_0 == b->Float_0 ==> same_doc(a, b),
        a is Float && b is Float && a->Float_0 != b->Float_0 ==> (same_doc(a, b) <==> (a->Float_0
            == "0.0"@ || a->Float_0 == "-0.0"@) && (b->Float_0 == "0.0"@ || b->Float_0
            == "-0.0"@)),
        a is Arr && b is Arr ==> (same_doc(a, b) <==> a->Arr_0.len() == b->Arr_0.len() && forall|
            i: int,
        |
            0 <= i < a->Arr_0.len() ==> same_doc(#[trigger] a->Arr_0[i], b->Arr_0[i])),
{
}

/// Equality does not depend on which document comes first.
pub proof fn law_equality_is_symmetric(a: Json, b: Json)
    requires
        tidy(a),
        tidy(b),
    ensures
        same_doc(a, b) <==> same_doc(b, a),
    decreases a,
{
    match (a, b) {
        (Json::Arr(x), Json::Arr(y)) => {
            if x.len() == y.len() {
                assert forall|i: int| 0 <= i < x.len() implies same_doc(#[trigger] x[i], y[i])
                    == same_doc(y[i], x[i]) by {
                    assert(tidy(x[i]) && tidy(y[i]));
                    law_equality_is_symmetric(x[i], y[i]);
                }
                assert forall|i: int| 0 <= i < x.len() implies same_doc(#[trigger] y[i], x[i])
                    == same_doc(x[i], y[i]) by {
                    assert(tidy(x[i]) && tidy(y[i]));
                    law_equality_is_symmetric(x[i], y[i]);
                }
            }
        },
        (Json::Obj(x), Json::Obj(y)) => {
            law_objects_are_equal_by_key(x, y);
            law_objects_are_equal_by_key(y, x);
            assert forall|q: Seq<char>| at(x, q) is Some && at(y, q) is Some implies same_doc(
                #[trigger] at(x, q).unwrap(),
                at(y, q).unwrap(),
            ) == same_doc(at(y, q).unwrap(), at(x, q).unwrap()) by {
                lemma_position(x, q);
                lemma_position(y, q);
                let i = position(x, q).unwrap();
                let j = position(y, q).unwrap();
                assert(tidy(x[i].1) && tidy(y[j].1));
                assert(decreases_to!(a => a->Obj_0[i].1));
                law_equality_is_symmetric(x[i].1, y[j].1);
            }
            if same_doc(a, b) {
                assert forall|q: Seq<char>|
                    match (#[trigger] at(y, q), at(x, q)) {
                        (Some(c), Some(d)) => same_doc(c, d),
                        (None, None) => true,
                        _ => false,
                    } by {
                    assert(at(x, q) is Some <==> at(y, q) is Some);
                    if at(x, q) is Some {
                        assert(same_doc(at(x, q).unwrap(), at(y, q).unwrap()));
                    }
                }
            }
            if same_doc(b, a) {
                assert forall|q: Seq<char>|
                    match (#[trigger] at(x, q), at(y, q)) {
                        (Some(c), Some(d)) => same_doc(c, d),
                        (None, None) => true,
                        _ => false,
                    } by {
                    assert(at(y, q) is Some <==> at(x, q) is Some);
                    if at(x, q) is Some {
                        assert(same_doc(at(y, q).unwrap(), at(x, q).unwrap()));
                    }
                }
            }
        },
        _ => {},
    }
}

// ---- merging ----------------------------------------------------------------------------

/// After a merge every key that the patch leaves out holds what it held, and every key
/// that the patch gives something that is no object holds just that; with `delete` a key
/// that the patch gives null is gone. An object in the patch is merged into an object,
/// and takes the place of anything else.
pub proof fn law_merge_keeps_and_takes(b: Entries, p: Entries, delete: bool, q: Seq<char>)
    requires
        distinct(b),
        distinct(p),
    ensures
        ({
            let r = applied(Json::Obj(b), Json::Obj(p), delete);
            &&& r is Obj
            &&& distinct(r->Obj_0)
            &&& at(r->Obj_0, q) == (match (at(b, q), at(p, q)) {
                (was, None) => was,
                (_, Some(Json::Null)) => if delete {
                    None
                } else {
                    Some(Json::Null)
                },
                (Some(Json::Obj(x)), Some(Json::Obj(v))) => Some(
                    applied(Json::Obj(x), Json::Obj(v), delete),
                ),
                (_, Some(v)) => Some(v),
            })
        }),
{
    law_merge_is_key_by_key(b, p, delete);
    assert(at(applied_entries(b, p, delete), q) == merged_at(at(b, q), at(p, q), delete));
}

/// What is merged into no object, or is no object, takes its place whole.
pub proof fn law_merge_replaces_what_is_no_object(base: Json, patch: Json, delete: bool)
    requires
        !(base is Obj) || !(patch is Obj),
    ensures
        applied(base, patch, delete) == patch,
{
}

// ---- diffing ----------------------------------------------------------------------------

/// A diff holds a key exactly if its value is new or not what it was: the new value, or
/// of two objects what differs inside them.
pub proof fn law_diff_is_key_by_key(o: Entries, n: Entries)
    requires
        distinct(n),
    ensures
        distinct(changed_entries(o, n)),
        forall|q: Seq<char>|
            #[trigger] at(changed_entries(o, n), q) == (match (at(o, q), at(n, q)) {
                (_, None) => None,
                (None, Some(v)) => Some(v),
                (Some(x), Some(v)) => if x is Obj && v is Obj {
                    if changed(x, v)->Obj_0.len() == 0 {
                        None
                    } else {
                        Some(changed(x, v))
                    }
                } else if same_doc(x, v) {
                    None
                } else {
                    Some(v)
                },
            }),
    decreases n.len(),
{
    if n.len() == 0 {
        assert forall|q: Seq<char>| at(n, q) is None by {
            lemma_position(n, q);
        }
    } else {
        let d = n.drop_last();
        let (k, v) = n.last();
        let before = changed_entries(o, d);
        lemma_drop_last_at(n);
        law_diff_is_key_by_key(o, d);
        lemma_put(before, k, v);
        if let Some(x) = at(o, k) {
            lemma_put(before, k, Json::Obj(changed_entries(x->Obj_0, v->Obj_0)));
        }
        assert(at(before, k) is None);
        assert forall|q: Seq<char>|
            #[trigger] at(changed_entries(o, n), q) == (match (at(o, q), at(n, q)) {
                (_, None) => None,
                (None, Some(v)) => Some(v),
                (Some(x), Some(v)) => if x is Obj && v is Obj {
                    if changed(x, v)->Obj_0.len() == 0 {
                        None
                    } else {
                        Some(changed(x, v))
                    }
                } else if same_doc(x, v) {
                    None
                } else {
                    Some(v)
                },
            }) by {
            if q != k {
                assert(at(d, q) == at(n, q));
                assert(at(before, q) == at(changed_entries(o, n), q));
            }
        }
    }
}

/// A diff loses nothing: merged into the old document it gives one that the new document
/// would not change any more.
pub proof fn law_merging_a_diff_restores(o: Entries, n: Entries)
    requires
        tidy(Json::Obj(o)),
        tidy(Json::Obj(n)),
    ensures
        changed_entries(applied_entries(o, changed_entries(o, n), false), n).len() == 0,
    decreases n,
{
    let d = changed_entries(o, n);
    let r = applied_entries(o, d, false);
    law_diff_is_key_by_key(o, n);
    law_merge_is_key_by_key(o, d, false);
    lemma_unchanged(r, n);
    assert forall|j: int| 0 <= j < n.len() implies settled(r, (#[trigger] n[j]).0, n[j].1) by {
        let k = n[j].0;
        let v = n[j].1;
        lemma_distinct_at(n, j);
        assert(tidy(v));
        lemma_same_doc_reflexive(v);
        if v is Obj {
            lemma_no_change_against_self(v->Obj_0);
        }
        assert(at(r, k) == merged_at(at(o, k), at(d, k), false));
        lemma_position(o, k);
        if let Some(i) = position(o, k) {
            assert(tidy(o[i].1));
            if o[i].1 is Obj && v is Obj {
                assert(decreases_to!(n => n[j].1));
                law_merging_a_diff_restores(o[i].1->Obj_0, v->Obj_0);
            }
        }
    }
}

} // verus!
