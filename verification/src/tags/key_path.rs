//! Tag keys as nested paths into the `tag_values` aggregate.
use vstd::prelude::*;

use crate::diff::{applied, applied_entries, tidy};
use crate::diff_laws::lemma_drop_last_at;
use crate::json::{
    at, cut, distinct, entries_of, field, find, insert, lemma_cut, lemma_position, lemma_put,
    position, put, remove, Entries, Json, Value,
};
use crate::text::{join, joined, views};

verus! {

/// The leaf wrapped into nested objects along the path.
pub open spec fn wrapped(path: Seq<Seq<char>>, leaf: Json) -> Json
    decreases path.len(),
{
    if path.len() == 0 {
        leaf
    } else {
        Json::Obj(seq![(path[0], wrapped(path.drop_first(), leaf))])
    }
}

/// What the path leads to. A null at its end is found; a missing key is not.
pub open spec fn found(path: Seq<Seq<char>>, root: Json) -> Option<Json>
    decreases path.len(),
{
    if path.len() == 0 {
        Some(root)
    } else {
        match field(root, path[0]) {
            Some(inner) => found(path.drop_first(), inner),
            None => None,
        }
    }
}

/// A tag key as a nested path into the `tag_values` aggregate. The first
/// segment is usually an app key.
#[derive(Debug, PartialEq, Eq, Hash)]
pub struct KeyPath {
    path: Vec<String>,
}

impl View for KeyPath {
    type V = Seq<Seq<char>>;

    closed spec fn view(&self) -> Seq<Seq<char>> {
        views(self.path@)
    }
}

impl Clone for KeyPath {
    fn clone(&self) -> (copy: Self)
        ensures
            copy@ == self@,
    {
        let mut path: Vec<String> = Vec::new();
        let mut i: usize = 0;
        while i < self.path.len()
            invariant
                i <= self.path@.len(),
                views(path@) == views(self.path@).take(i as int),
            decreases self.path@.len() - i,
        {
            let ghost before = views(path@);
            path.push(self.path[i].clone());
            assert(views(path@) =~= before.push(views(self.path@)[i as int]));
            assert(views(self.path@).take(i as int + 1) =~= before.push(
                views(self.path@)[i as int],
            ));
            i += 1;
        }
        assert(views(self.path@).take(self.path@.len() as int) =~= views(self.path@));
        KeyPath { path }
    }
}

impl KeyPath {
    /// A path from its segments, already fully qualified.
    pub fn new(parts: Vec<String>) -> (r: Self)
        requires
            parts@.len() > 0,
        ensures
            r@ == views(parts@),
    {
        KeyPath { path: parts }
    }

    /// A path scoped under an app key. An empty app key gives a global path.
    pub fn scoped(app_key: &str, parts: Vec<String>) -> (r: Self)
        ensures
            r@ == (if app_key@.len() == 0 {
                views(parts@)
            } else {
                seq![app_key@] + views(parts@)
            }),
    {
        let mut path: Vec<String> = parts;
        if !app_key.is_empty() {
            path.insert(0, app_key.to_owned());
            assert(views(path@) =~= seq![app_key@] + views(parts@));
        }
        KeyPath { path }
    }

    /// The path of one tag under an app key.
    pub fn tag(app_key: &str, key: &str) -> (r: Self)
        ensures
            r@ == tag_path(app_key@, key@),
    {
        let mut parts: Vec<String> = Vec::new();
        parts.push(key.to_owned());
        assert(views(parts@) =~= seq![key@]);
        assert(seq![app_key@] + seq![key@] =~= seq![app_key@, key@]);
        KeyPath::scoped(app_key, parts)
    }

    /// The segments of the path.
    pub fn segments(&self) -> (r: &Vec<String>)
        ensures
            views(r@) == self@,
    {
        &self.path
    }

    /// `<app_key>.<tag>`: how tags are qualified on the wire.
    pub fn qualified_name(&self) -> (r: String)
        ensures
            r@ == joined(self@, "."@),
    {
        join(&self.path, ".")
    }

    /// Whether two paths have the same segments.
    pub fn same_path(&self, other: &KeyPath) -> (r: bool)
        ensures
            r == (self@ == other@),
    {
        if self.path.len() != other.path.len() {
            assert(self@.len() != other@.len());
            return false;
        }
        let mut i: usize = 0;
        while i < self.path.len()
            invariant
                i <= self.path@.len(),
                self.path@.len() == other.path@.len(),
                forall|j: int| 0 <= j < i ==> (#[trigger] self.path@[j])@ == other.path@[j]@,
            decreases self.path@.len() - i,
        {
            if self.path[i] != other.path[i] {
                assert(self@[i as int] != other@[i as int]);
                return false;
            }
            i += 1;
        }
        assert(self@ =~= other@);
        true
    }

    /// Wraps a leaf into nested objects along this path.
    pub fn construct(&self, value: Value) -> (r: Value)
        ensures
            r@ == wrapped(self@, value@),
    {
        let mut result = value;
        let mut i: usize = self.path.len();
        assert(self@.skip(i as int) =~= Seq::empty());
        while i > 0
            invariant
                i <= self.path@.len(),
                result@ == wrapped(self@.skip(i as int), value@),
            decreases i,
        {
            i -= 1;
            let mut entries: Vec<(String, Value)> = Vec::new();
            entries.push((self.path[i].clone(), result));
            proof {
                let rest = self@.skip(i as int);
                assert(rest[0] == self.path@[i as int]@);
                assert(rest.drop_first() =~= self@.skip(i as int + 1));
                assert(entries_of(entries@) =~= seq![(rest[0], result@)]);
            }
            result = Value::object(entries);
        }
        assert(self@.skip(0) =~= self@);
        result
    }

    /// Resolves this path against a document.
    pub fn lookup<'a>(&self, root: &'a Value) -> (r: Option<&'a Value>)
        ensures
            match r {
                Some(v) => found(self@, root@) == Some(v@),
                None => found(self@, root@) is None,
            },
    {
        let mut current = root;
        let mut i: usize = 0;
        assert(self@.skip(0) =~= self@);
        while i < self.path.len()
            invariant
                i <= self.path@.len(),
                found(self@, root@) == found(self@.skip(i as int), current@),
            decreases self.path@.len() - i,
        {
            proof {
                let rest = self@.skip(i as int);
                assert(rest[0] == self.path@[i as int]@);
                assert(rest.drop_first() =~= self@.skip(i as int + 1));
            }
            match current.get(self.path[i].as_str()) {
                Some(inner) => {
                    current = inner;
                },
                None => {
                    return None;
                },
            }
            i += 1;
        }
        assert(self@.skip(i as int) =~= Seq::empty());
        Some(current)
    }

    /// Whether this path exists in a document.
    pub fn in_value(&self, root: &Value) -> (r: bool)
        ensures
            r == (found(self@, root@) is Some),
    {
        self.lookup(root).is_some()
    }
}

/// The path of one tag under an app key; an empty app key makes it global.
pub open spec fn tag_path(app_key: Seq<char>, key: Seq<char>) -> Seq<Seq<char>> {
    if app_key.len() == 0 {
        seq![key]
    } else {
        seq![app_key, key]
    }
}

// ---- stripping promoted paths ----------------------------------------------------

/// The entries without the leaves that `p` names; an object that is left
/// without entries goes too.
pub open spec fn stripped_entries(t: Entries, p: Entries) -> Entries
    decreases p,
{
    if p.len() == 0 {
        t
    } else {
        let before = stripped_entries(t, p.drop_last());
        let (k, v) = p.last();
        match at(before, k) {
            None => before,
            Some(x) => if x is Obj && v is Obj {
                let inner = stripped_entries(x->Obj_0, v->Obj_0);
                if inner.len() == 0 {
                    cut(before, k)
                } else {
                    put(before, k, Json::Obj(inner))
                }
            } else {
                cut(before, k)
            },
        }
    }
}

/// The document without the leaves that `paths` names.
pub open spec fn stripped(target: Json, paths: Json) -> Json {
    match (target, paths) {
        (Json::Obj(t), Json::Obj(p)) => Json::Obj(stripped_entries(t, p)),
        _ => target,
    }
}

/// Removes every leaf that `paths` names from `target`.
pub fn strip_paths(target: &mut Value, paths: &Value)
    ensures
        final(target)@ == stripped(old(target)@, paths@),
{
    let left = strip(target, paths);
    *target = left;
}

fn strip(target: &Value, paths: &Value) -> (r: Value)
    ensures
        r@ == stripped(target@, paths@),
    decreases paths,
{
    match (target, paths) {
        (Value::Object(t), Value::Object(p)) => {
            let ghost et = entries_of(t@);
            let ghost ep = entries_of(p@);
            proof {
                Value::lemma_object(*t);
                Value::lemma_object(*p);
            }
            let mut out = crate::json::copy_entries(t);
            let mut i: usize = 0;
            assert(ep.take(0) =~= Seq::empty());
            while i < p.len()
                invariant
                    i <= p@.len(),
                    *paths == Value::Object(*p),
                    ep == entries_of(p@),
                    entries_of(out@) == stripped_entries(et, ep.take(i as int)),
                decreases p@.len() - i,
            {
                proof {
                    assert(decreases_to!(*paths => paths->Object_0@[i as int].1));
                    assert(ep.take(i as int + 1).drop_last() =~= ep.take(i as int));
                    assert(ep.take(i as int + 1).last() == ep[i as int]);
                    lemma_position(entries_of(out@), ep[i as int].0);
                }
                let key = p[i].0.as_str();
                let v = &p[i].1;
                match find(&out, key) {
                    Some(at) => {
                        if out[at].1.is_object() && v.is_object() {
                            let inner = strip(&out[at].1, v);
                            if inner.is_blank() {
                                remove(&mut out, key);
                            } else {
                                insert(&mut out, key, inner);
                            }
                        } else {
                            remove(&mut out, key);
                        }
                    },
                    None => {},
                }
                i += 1;
            }
            assert(ep.take(ep.len() as int) =~= ep);
            Value::object(out)
        },
        _ => target.clone(),
    }
}

// ---- laws -----------------------------------------------------------------------

/// Looking a path up in what it constructed gives the leaf back.
pub proof fn law_construct_then_lookup(path: Seq<Seq<char>>, leaf: Json)
    ensures
        found(path, wrapped(path, leaf)) == Some(leaf),
    decreases path.len(),
{
    if path.len() > 0 {
        law_construct_then_lookup(path.drop_first(), leaf);
        let e = wrapped(path, leaf)->Obj_0;
        lemma_position(e, path[0]);
        assert(e[0].0 == path[0]);
    }
}

proof fn lemma_single_patch(b: Entries, k: Seq<char>, v: Json)
    ensures
        applied_entries(b, seq![(k, v)], false) == put(
            b,
            k,
            match at(b, k) {
                Some(old) => applied(old, v, false),
                None => v,
            },
        ),
{
    let p = seq![(k, v)];
    assert(p.drop_last() =~= Seq::empty());
    assert(p.last() == (k, v));
    reveal_with_fuel(applied_entries, 2);
}

/// A tag reads back what was merged at its path, whatever was there before.
pub proof fn law_written_tag_reads_back(base: Json, path: Seq<Seq<char>>, leaf: Json)
    requires
        !(leaf is Obj),
    ensures
        found(path, applied(base, wrapped(path, leaf), false)) == Some(leaf),
    decreases path.len(),
{
    if path.len() > 0 {
        law_construct_then_lookup(path, leaf);
        law_construct_then_lookup(path.drop_first(), leaf);
        if let Json::Obj(b) = base {
            let rest = wrapped(path.drop_first(), leaf);
            lemma_single_patch(b, path[0], rest);
            let v = match at(b, path[0]) {
                Some(old) => applied(old, rest, false),
                None => rest,
            };
            lemma_put(b, path[0], v);
            if let Some(old) = at(b, path[0]) {
                law_written_tag_reads_back(old, path.drop_first(), leaf);
            }
        }
    }
}

/// Two paths part ways: they agree up to some segment and differ there.
pub open spec fn diverge(p: Seq<Seq<char>>, q: Seq<Seq<char>>) -> bool
    decreases p.len(),
{
    if p.len() == 0 || q.len() == 0 {
        false
    } else if p[0] != q[0] {
        true
    } else {
        diverge(p.drop_first(), q.drop_first())
    }
}

proof fn lemma_other_path_not_constructed(p: Seq<Seq<char>>, q: Seq<Seq<char>>, leaf: Json)
    requires
        diverge(p, q),
    ensures
        found(q, wrapped(p, leaf)) is None,
    decreases p.len(),
{
    let e = wrapped(p, leaf)->Obj_0;
    lemma_position(e, q[0]);
    if p[0] == q[0] {
        assert(e[0].0 == q[0]);
        lemma_other_path_not_constructed(p.drop_first(), q.drop_first(), leaf);
    }
}

/// Writing one tag leaves every tag whose path parts from it as it was.
pub proof fn law_write_keeps_other_tags(
    base: Json,
    p: Seq<Seq<char>>,
    q: Seq<Seq<char>>,
    leaf: Json,
)
    requires
        diverge(p, q),
        base is Obj,
    ensures
        found(q, applied(base, wrapped(p, leaf), false)) == found(q, base),
    decreases p.len(),
{
    let b = base->Obj_0;
    let rest = wrapped(p.drop_first(), leaf);
    lemma_single_patch(b, p[0], rest);
    let v = match at(b, p[0]) {
        Some(old) => applied(old, rest, false),
        None => rest,
    };
    lemma_put(b, p[0], v);
    if p[0] == q[0] {
        let p2 = p.drop_first();
        let q2 = q.drop_first();
        match at(b, p[0]) {
            Some(old) => {
                if old is Obj {
                    law_write_keeps_other_tags(old, p2, q2, leaf);
                } else {
                    lemma_other_path_not_constructed(p2, q2, leaf);
                }
            },
            None => {
                lemma_other_path_not_constructed(p2, q2, leaf);
            },
        }
    }
}

/// What a key holds after stripping, from what it held and what was stripped.
pub open spec fn stripped_at(was: Option<Json>, paths: Option<Json>) -> Option<Json> {
    match (was, paths) {
        (Some(x), Some(v)) => if x is Obj && v is Obj {
            let inner = stripped_entries(x->Obj_0, v->Obj_0);
            if inner.len() == 0 {
                None
            } else {
                Some(Json::Obj(inner))
            }
        } else {
            None
        },
        _ => was,
    }
}

/// Stripping works key by key; a key that `p` does not name keeps its value.
pub proof fn law_strip_is_key_by_key(t: Entries, p: Entries)
    requires
        distinct(t),
        distinct(p),
    ensures
        distinct(stripped_entries(t, p)),
        forall|q: Seq<char>|
            #[trigger] at(stripped_entries(t, p), q) == stripped_at(at(t, q), at(p, q)),
    decreases p.len(),
{
    if p.len() == 0 {
        assert forall|q: Seq<char>| at(p, q) is None by {
            lemma_position(p, q);
        }
    } else {
        let d = p.drop_last();
        let (k, v) = p.last();
        let before = stripped_entries(t, d);
        lemma_drop_last_at(p);
        law_strip_is_key_by_key(t, d);
        lemma_cut(before, k);
        if let Some(x) = at(before, k) {
            lemma_put(before, k, Json::Obj(stripped_entries(x->Obj_0, v->Obj_0)));
        }
        assert(at(before, k) == stripped_at(at(t, k), at(d, k)));
        assert forall|q: Seq<char>|
            #[trigger] at(stripped_entries(t, p), q) == stripped_at(at(t, q), at(p, q)) by {
            assert(at(before, q) == stripped_at(at(t, q), at(d, q)));
            if q != k {
                assert(at(d, q) == at(p, q));
            }
        }
    }
}

/// No leaf that `p` names is left in what was stripped.
pub proof fn law_stripped_leaves_are_gone(t: Entries, p: Entries, path: Seq<Seq<char>>)
    requires
        tidy(Json::Obj(t)),
        tidy(Json::Obj(p)),
        path.len() > 0,
        found(path, Json::Obj(p)) matches Some(leaf) && !(leaf is Obj),
    ensures
        found(path, Json::Obj(stripped_entries(t, p))) is None,
    decreases path.len(),
{
    let k = path[0];
    let rest = path.drop_first();
    law_strip_is_key_by_key(t, p);
    assert(at(stripped_entries(t, p), k) == stripped_at(at(t, k), at(p, k)));
    lemma_position(p, k);
    lemma_position(t, k);
    if let (Some(x), Some(v)) = (at(t, k), at(p, k)) {
        assert(tidy(p[position(p, k).unwrap()].1));
        assert(tidy(t[position(t, k).unwrap()].1));
        if x is Obj && v is Obj {
            assert(found(rest, v) == found(path, Json::Obj(p)));
            assert(rest.len() == 0 ==> found(rest, v) == Some(v));
            law_stripped_leaves_are_gone(x->Obj_0, v->Obj_0, rest);
        }
    }
}

} // verus!
