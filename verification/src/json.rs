//! JSON documents: the executable [`Value`] and its mathematical model [`Json`].
//!
//! An object keeps its entries in insertion order. Writing a key that is
//! already there keeps its place; taking a key out moves the last entry into
//! the gap.
use vstd::prelude::*;

use crate::text::opt_chars;

verus! {

/// The entries of an object, in order.
pub type Entries = Seq<(Seq<char>, Json)>;

/// The mathematical model of a JSON document.
pub enum Json {
    Null,
    Bool(bool),
    Int(int),
    /// A double, by its shortest decimal text.
    Float(Seq<char>),
    Str(Seq<char>),
    Arr(Seq<Json>),
    Obj(Seq<(Seq<char>, Json)>),
}

/// A JSON number: an integer, or a double by its shortest decimal text.
#[derive(Debug)]
pub enum Number {
    Unsigned(u64),
    Negative(i64),
    Float(String),
}

/// A JSON document.
#[derive(Debug)]
pub enum Value {
    Null,
    Bool(bool),
    Number(Number),
    String(String),
    Array(Vec<Value>),
    Object(Vec<(String, Value)>),
}

// ---- the model -----------------------------------------------------------

impl View for Number {
    type V = Json;

    open spec fn view(&self) -> Json {
        match self {
            Number::Unsigned(u) => Json::Int(*u as int),
            Number::Negative(i) => Json::Int(*i as int),
            Number::Float(t) => Json::Float(t@),
        }
    }
}

impl Value {
    /// The document that this value stands for.
    pub open spec fn doc(&self) -> Json
        decreases self,
    {
        match self {
            Value::Null => Json::Null,
            Value::Bool(b) => Json::Bool(*b),
            Value::Number(n) => n@,
            Value::String(s) => Json::Str(s@),
            Value::Array(items) => Json::Arr(
                Seq::new(
                    items@.len(),
                    |i: int|
                        if 0 <= i < items@.len() {
                            items@[i].doc()
                        } else {
                            Json::Null
                        },
                ),
            ),
            Value::Object(entries) => Json::Obj(
                Seq::new(
                    entries@.len(),
                    |i: int|
                        if 0 <= i < entries@.len() {
                            (entries@[i].0@, entries@[i].1.doc())
                        } else {
                            (Seq::empty(), Json::Null)
                        },
                ),
            ),
        }
    }
}

impl View for Value {
    type V = Json;

    open spec fn view(&self) -> Json {
        self.doc()
    }
}

/// The documents that a list of values stands for.
pub open spec fn docs(items: Seq<Value>) -> Seq<Json> {
    Seq::new(items.len(), |i: int| items[i]@)
}

/// The entries that a list of key-value pairs stands for.
pub open spec fn entries_of(entries: Seq<(String, Value)>) -> Entries {
    Seq::new(entries.len(), |i: int| (entries[i].0@, entries[i].1@))
}

/// The position of the first entry at or after `from` whose key is `k`.
pub open spec fn position_from(e: Entries, k: Seq<char>, from: int) -> Option<int>
    decreases e.len() - from,
{
    if from < 0 || from >= e.len() {
        None
    } else if e[from].0 == k {
        Some(from)
    } else {
        position_from(e, k, from + 1)
    }
}

/// The position of the entry that `k` names.
pub open spec fn position(e: Entries, k: Seq<char>) -> Option<int> {
    position_from(e, k, 0)
}

/// What `k` names.
pub open spec fn at(e: Entries, k: Seq<char>) -> Option<Json> {
    match position(e, k) {
        Some(i) => Some(e[i].1),
        None => None,
    }
}

/// The entries after `k` was given the value `v`.
pub open spec fn put(e: Entries, k: Seq<char>, v: Json) -> Entries {
    match position(e, k) {
        Some(i) => e.update(i, (k, v)),
        None => e.push((k, v)),
    }
}

/// The entries without the one that `k` names; the last entry takes its place.
pub open spec fn cut(e: Entries, k: Seq<char>) -> Entries {
    match position(e, k) {
        Some(i) => e.update(i, e.last()).drop_last(),
        None => e,
    }
}

/// No key occurs twice.
pub open spec fn distinct(e: Entries) -> bool {
    forall|i: int, j: int| 0 <= i < j < e.len() ==> (#[trigger] e[i]).0 != (#[trigger] e[j]).0
}

/// What a key names in a document; nothing where it is not an object.
pub open spec fn field(j: Json, k: Seq<char>) -> Option<Json> {
    match j {
        Json::Obj(e) => at(e, k),
        _ => None,
    }
}

/// The member of an array.
pub open spec fn item(j: Json, i: int) -> Option<Json> {
    match j {
        Json::Arr(a) => if 0 <= i < a.len() {
            Some(a[i])
        } else {
            None
        },
        _ => None,
    }
}

/// The entries of an object; none where it is not one.
pub open spec fn members(j: Json) -> Entries {
    match j {
        Json::Obj(e) => e,
        _ => Seq::empty(),
    }
}

/// What two keys lead to, one inside the other.
pub open spec fn field2(j: Json, outer: Seq<char>, inner: Seq<char>) -> Option<Json> {
    match field(j, outer) {
        Some(x) => field(x, inner),
        None => None,
    }
}

/// The document of a value that may be missing.
pub open spec fn ref_doc(v: Option<&Value>) -> Option<Json> {
    match v {
        Some(v) => Some(v@),
        None => None,
    }
}

/// The document of an owned value that may be missing.
pub open spec fn opt_doc(v: Option<Value>) -> Option<Json> {
    match v {
        Some(v) => Some(v@),
        None => None,
    }
}

/// What a key names, or null.
pub open spec fn field_or_null(j: Json, k: Seq<char>) -> Json {
    match field(j, k) {
        Some(v) => v,
        None => Json::Null,
    }
}

/// The entries after `buffer[app][key]` was given a value. What is no object at
/// `app` gives way to one.
pub open spec fn nested_put(e: Entries, app: Seq<char>, key: Seq<char>, v: Json) -> Entries {
    match at(e, app) {
        Some(Json::Obj(inner)) => put(e, app, Json::Obj(put(inner, key, v))),
        _ => put(e, app, Json::Obj(seq![(key, v)])),
    }
}

/// What `e[app][key]` holds.
pub open spec fn nested_at(e: Entries, app: Seq<char>, key: Seq<char>) -> Option<Json> {
    match at(e, app) {
        Some(inner) => field(inner, key),
        None => None,
    }
}

/// The string that a key names.
pub open spec fn str_field(j: Json, k: Seq<char>) -> Option<Seq<char>> {
    match field(j, k) {
        Some(v) => str_of(v),
        None => None,
    }
}

/// An object without entries, or no object at all.
pub open spec fn blank(j: Json) -> bool {
    match j {
        Json::Obj(e) => e.len() == 0,
        _ => true,
    }
}

/// The empty object.
pub open spec fn empty_obj() -> Json {
    Json::Obj(Seq::empty())
}

/// The characters of a string document.
pub open spec fn str_of(j: Json) -> Option<Seq<char>> {
    match j {
        Json::Str(s) => Some(s),
        _ => None,
    }
}

// ---- lemmas about entries --------------------------------------------------

proof fn lemma_position_from(e: Entries, k: Seq<char>, from: int)
    requires
        0 <= from,
    ensures
        match position_from(e, k, from) {
            Some(i) => from <= i < e.len() && e[i].0 == k && forall|j: int|
                from <= j < i ==> (#[trigger] e[j]).0 != k,
            None => forall|j: int| from <= j < e.len() ==> (#[trigger] e[j]).0 != k,
        },
    decreases e.len() - from,
{
    if from < e.len() && e[from].0 != k {
        lemma_position_from(e, k, from + 1);
    }
}

/// `position` finds the first entry with the key, or there is none.
pub proof fn lemma_position(e: Entries, k: Seq<char>)
    ensures
        match position(e, k) {
            Some(i) => 0 <= i < e.len() && e[i].0 == k && forall|j: int|
                0 <= j < i ==> (#[trigger] e[j]).0 != k,
            None => forall|j: int| 0 <= j < e.len() ==> (#[trigger] e[j]).0 != k,
        },
{
    lemma_position_from(e, k, 0);
}

/// An index whose key is `k`, with no earlier one, is the position of `k`.
pub proof fn lemma_first_is_position(e: Entries, k: Seq<char>, i: int)
    requires
        0 <= i < e.len(),
        e[i].0 == k,
        forall|j: int| 0 <= j < i ==> (#[trigger] e[j]).0 != k,
    ensures
        position(e, k) == Some(i),
{
    lemma_position(e, k);
}

/// With distinct keys, every entry is what its own key names.
pub proof fn lemma_distinct_at(e: Entries, i: int)
    requires
        distinct(e),
        0 <= i < e.len(),
    ensures
        position(e, e[i].0) == Some(i),
        at(e, e[i].0) == Some(e[i].1),
{
    lemma_first_is_position(e, e[i].0, i);
}

/// What a key names in two lists of entries, one behind the other: what it names in the
/// first, else what it names in the second.
pub proof fn lemma_at_add(a: Entries, b: Entries, q: Seq<char>)
    ensures
        at(a + b, q) == (if at(a, q) is Some {
            at(a, q)
        } else {
            at(b, q)
        }),
{
    let c = a + b;
    lemma_position(a, q);
    lemma_position(b, q);
    match position(a, q) {
        Some(i) => {
            assert forall|j: int| 0 <= j < i implies (#[trigger] c[j]).0 != q by {
                assert(c[j] == a[j]);
            }
            assert(c[i] == a[i]);
            lemma_first_is_position(c, q, i);
        },
        None => match position(b, q) {
            Some(i) => {
                assert forall|j: int| 0 <= j < a.len() + i implies (#[trigger] c[j]).0 != q by {
                    if j < a.len() {
                        assert(c[j] == a[j]);
                    } else {
                        assert(c[j] == b[j - a.len()]);
                    }
                }
                assert(c[a.len() + i] == b[i]);
                lemma_first_is_position(c, q, a.len() + i);
            },
            None => {
                lemma_position(c, q);
                if let Some(i) = position(c, q) {
                    if i < a.len() {
                        assert(c[i] == a[i]);
                    } else {
                        assert(c[i] == b[i - a.len()]);
                    }
                }
            },
        },
    }
}

/// What a key names in a single entry.
pub proof fn lemma_at_one(k: Seq<char>, v: Json, q: Seq<char>)
    ensures
        at(seq![(k, v)], q) == (if q == k {
            Some(v)
        } else {
            None
        }),
{
    let e = seq![(k, v)];
    lemma_position(e, q);
    assert(e[0] == (k, v));
}

/// What a key names in no entries.
pub proof fn lemma_at_none(q: Seq<char>)
    ensures
        at(Seq::empty(), q) is None,
{
    lemma_position(Seq::empty(), q);
}

/// A key reads back what was written to it; every other key reads what it did.
pub proof fn lemma_put(e: Entries, k: Seq<char>, v: Json)
    ensures
        at(put(e, k, v), k) == Some(v),
        forall|q: Seq<char>| q != k ==> #[trigger] at(put(e, k, v), q) == at(e, q),
        distinct(e) ==> distinct(put(e, k, v)),
        put(e, k, v).len() > 0,
{
    let w = put(e, k, v);
    lemma_position(e, k);
    lemma_position(w, k);
    assert forall|q: Seq<char>| q != k implies #[trigger] at(w, q) == at(e, q) by {
        lemma_position(e, q);
        lemma_position(w, q);
        match position(e, k) {
            Some(i) => {
                assert forall|j: int| 0 <= j < e.len() implies w[j].0 == (#[trigger] e[j]).0 by {}
                assert(forall|j: int| 0 <= j < e.len() ==> (#[trigger] w[j]).0 == e[j].0);
            },
            None => {
                assert(forall|j: int| 0 <= j < e.len() ==> (#[trigger] e[j]) == w[j]);
                assert(forall|j: int| 0 <= j < e.len() ==> (#[trigger] w[j]) == e[j]);
            },
        }
    }
    match position(e, k) {
        Some(i) => {
            assert(w[i].0 == k);
            assert(forall|j: int| 0 <= j < e.len() ==> (#[trigger] w[j]).0 == e[j].0);
        },
        None => {
            assert(w[e.len() as int].0 == k);
            assert(forall|j: int| 0 <= j < e.len() ==> (#[trigger] w[j]) == e[j]);
        },
    }
}

/// A key that was taken out names nothing; every other key reads what it did.
pub proof fn lemma_cut(e: Entries, k: Seq<char>)
    requires
        distinct(e),
    ensures
        at(cut(e, k), k) is None,
        forall|q: Seq<char>| q != k ==> #[trigger] at(cut(e, k), q) == at(e, q),
        distinct(cut(e, k)),
{
    let w = cut(e, k);
    lemma_position(e, k);
    match position(e, k) {
        Some(i) => {
            let n = e.len() - 1;
            assert(w.len() == n);
            assert(forall|j: int| 0 <= j < n && j != i ==> #[trigger] w[j] == e[j]);
            assert(i < n ==> w[i] == e[n]);
            assert(distinct(w)) by {
                assert forall|a: int, b: int| 0 <= a < b < w.len() implies (#[trigger] w[a]).0
                    != (#[trigger] w[b]).0 by {
                    let x = if a == i {
                        n
                    } else {
                        a
                    };
                    let y = if b == i {
                        n
                    } else {
                        b
                    };
                    assert(w[a] == e[x] && w[b] == e[y] && x != y);
                    if x < y {
                        assert(e[x].0 != e[y].0);
                    } else {
                        assert(e[y].0 != e[x].0);
                    }
                }
            }
            lemma_position(w, k);
            assert(at(w, k) is None) by {
                if let Some(p) = position(w, k) {
                    let x = if p == i {
                        n
                    } else {
                        p
                    };
                    assert(w[p] == e[x] && x != i && e[x].0 == e[i].0);
                    if x < i {
                        assert(e[x].0 != e[i].0);
                    } else {
                        assert(e[i].0 != e[x].0);
                    }
                }
            }
            assert forall|q: Seq<char>| q != k implies #[trigger] at(w, q) == at(e, q) by {
                lemma_position(e, q);
                lemma_position(w, q);
                match position(e, q) {
                    Some(p) => {
                        let x = if p == n {
                            i
                        } else {
                            p
                        };
                        assert(p != i);
                        assert(w[x] == e[p]);
                        lemma_distinct_at(w, x);
                    },
                    None => {
                        if let Some(p) = position(w, q) {
                            let x = if p == i {
                                n
                            } else {
                                p
                            };
                            assert(w[p] == e[x]);
                        }
                    },
                }
            }
        },
        None => {},
    }
}

// ---- executable access ------------------------------------------------------

impl Clone for Number {
    fn clone(&self) -> (copy: Self)
        ensures
            copy@ == self@,
    {
        match self {
            Number::Unsigned(u) => Number::Unsigned(*u),
            Number::Negative(i) => Number::Negative(*i),
            Number::Float(t) => Number::Float(t.clone()),
        }
    }
}

impl Clone for Value {
    fn clone(&self) -> (copy: Self)
        ensures
            copy@ == self@,
        decreases self,
    {
        match self {
            Value::Null => Value::Null,
            Value::Bool(b) => Value::Bool(*b),
            Value::Number(n) => Value::Number(n.clone()),
            Value::String(s) => Value::String(s.clone()),
            Value::Array(items) => {
                let mut out: Vec<Value> = Vec::new();
                let mut i: usize = 0;
                while i < items.len()
                    invariant
                        i <= items@.len(),
                        out@.len() == i,
                        *self == Value::Array(*items),
                        forall|j: int| 0 <= j < i ==> (#[trigger] out@[j])@ == items@[j]@,
                    decreases items@.len() - i,
                {
                    assert(decreases_to!(*self => self->Array_0@[i as int]));
                    let c = (&items[i]).clone();
                    out.push(c);
                    i += 1;
                }
                let copy = Value::Array(out);
                assert(copy@->Arr_0 =~= self@->Arr_0);
                copy
            },
            Value::Object(entries) => {
                let mut out: Vec<(String, Value)> = Vec::new();
                let mut i: usize = 0;
                while i < entries.len()
                    invariant
                        i <= entries@.len(),
                        out@.len() == i,
                        *self == Value::Object(*entries),
                        forall|j: int|
                            0 <= j < i ==> (#[trigger] out@[j]).0@ == entries@[j].0@ && out@[j].1@
                                == entries@[j].1@,
                    decreases entries@.len() - i,
                {
                    assert(decreases_to!(*self => self->Object_0@[i as int].1));
                    let k = entries[i].0.clone();
                    let c = (&entries[i].1).clone();
                    out.push((k, c));
                    i += 1;
                }
                let copy = Value::Object(out);
                assert(copy@->Obj_0 =~= self@->Obj_0);
                copy
            },
        }
    }
}

/// Finds the first entry with the given key.
pub fn find(entries: &Vec<(String, Value)>, key: &str) -> (r: Option<usize>)
    ensures
        match r {
            Some(i) => i < entries@.len() && position(entries_of(entries@), key@) == Some(i as int),
            None => position(entries_of(entries@), key@) is None,
        },
{
    let wanted = key.to_owned();
    let ghost e = entries_of(entries@);
    let mut i: usize = 0;
    while i < entries.len()
        invariant
            i <= entries@.len(),
            e == entries_of(entries@),
            wanted@ == key@,
            forall|j: int| 0 <= j < i ==> (#[trigger] e[j]).0 != key@,
        decreases entries@.len() - i,
    {
        if entries[i].0 == wanted {
            proof {
                assert(e[i as int].0 == key@);
                lemma_first_is_position(e, key@, i as int);
            }
            return Some(i);
        }
        assert(e[i as int].0 != key@);
        i += 1;
    }
    proof {
        lemma_position(e, key@);
    }
    None
}

/// Gives `key` the value `value`.
pub fn insert(entries: &mut Vec<(String, Value)>, key: &str, value: Value)
    ensures
        entries_of(final(entries)@) == put(entries_of(old(entries)@), key@, value@),
{
    let ghost before = entries_of(entries@);
    match find(entries, key) {
        Some(i) => {
            entries.set(i, (key.to_owned(), value));
            assert(entries_of(entries@) =~= before.update(i as int, (key@, value@)));
        },
        None => {
            entries.push((key.to_owned(), value));
            assert(entries_of(entries@) =~= before.push((key@, value@)));
        },
    }
}

/// Takes the entry that `key` names out.
pub fn remove(entries: &mut Vec<(String, Value)>, key: &str)
    ensures
        entries_of(final(entries)@) == cut(entries_of(old(entries)@), key@),
{
    let ghost before = entries_of(entries@);
    match find(entries, key) {
        Some(i) => {
            let _gone = entries.swap_remove(i);
            assert(entries_of(entries@) =~= before.update(i as int, before.last()).drop_last());
        },
        None => {},
    }
}

/// A copy of a list of entries.
pub fn copy_entries(entries: &Vec<(String, Value)>) -> (out: Vec<(String, Value)>)
    ensures
        entries_of(out@) == entries_of(entries@),
{
    let mut out: Vec<(String, Value)> = Vec::new();
    let mut i: usize = 0;
    while i < entries.len()
        invariant
            i <= entries@.len(),
            entries_of(out@) == entries_of(entries@).take(i as int),
        decreases entries@.len() - i,
    {
        let ghost before = entries_of(out@);
        out.push((entries[i].0.clone(), entries[i].1.clone()));
        assert(entries_of(out@) =~= before.push(entries_of(entries@)[i as int]));
        assert(entries_of(entries@).take(i as int + 1) =~= before.push(
            entries_of(entries@)[i as int],
        ));
        i += 1;
    }
    assert(entries_of(entries@).take(entries@.len() as int) =~= entries_of(entries@));
    out
}

/// Gives `buffer[app][key]` a value.
pub fn insert_nested(buffer: &mut Vec<(String, Value)>, app: &str, key: &str, value: Value)
    ensures
        entries_of(final(buffer)@) == nested_put(entries_of(old(buffer)@), app@, key@, value@),
{
    let ghost e = entries_of(buffer@);
    proof {
        lemma_position(e, app@);
    }
    let mut inner: Vec<(String, Value)> = Vec::new();
    match find(buffer, app) {
        Some(i) => {
            if let Value::Object(entries) = &buffer[i].1 {
                proof {
                    Value::lemma_object(*entries);
                }
                inner = copy_entries(entries);
                insert(&mut inner, key, value);
                let doc = Value::object(inner);
                insert(buffer, app, doc);
                return;
            }
        },
        None => {},
    }
    inner.push((key.to_owned(), value));
    assert(entries_of(inner@) =~= seq![(key@, value@)]);
    let doc = Value::object(inner);
    insert(buffer, app, doc);
}

impl Value {
    /// The object with the given entries.
    pub proof fn lemma_object(entries: Vec<(String, Value)>)
        ensures
            Value::Object(entries)@ == Json::Obj(entries_of(entries@)),
    {
        assert(Value::Object(entries)@->Obj_0 =~= entries_of(entries@));
    }

    /// The array with the given members.
    pub proof fn lemma_array(items: Vec<Value>)
        ensures
            Value::Array(items)@ == Json::Arr(docs(items@)),
    {
        assert(Value::Array(items)@->Arr_0 =~= docs(items@));
    }

    /// An object without entries.
    pub fn empty_object() -> (v: Value)
        ensures
            v@ == empty_obj(),
    {
        let entries: Vec<(String, Value)> = Vec::new();
        proof {
            Value::lemma_object(entries);
            assert(entries_of(entries@) =~= Seq::empty());
        }
        Value::Object(entries)
    }

    /// An object from its entries.
    pub fn object(entries: Vec<(String, Value)>) -> (v: Value)
        ensures
            v@ == Json::Obj(entries_of(entries@)),
    {
        proof {
            Value::lemma_object(entries);
        }
        Value::Object(entries)
    }

    /// A string document.
    pub fn text(s: &str) -> (v: Value)
        ensures
            v@ == Json::Str(s@),
    {
        Value::String(s.to_owned())
    }

    /// A string document, or null for no string.
    pub fn opt_text(s: &Option<String>) -> (v: Value)
        ensures
            v@ == (match *s {
                Some(t) => Json::Str(t@),
                None => Json::Null,
            }),
    {
        match s {
            Some(t) => Value::String(t.clone()),
            None => Value::Null,
        }
    }

    /// An unsigned integer document.
    pub fn unsigned(n: u64) -> (v: Value)
        ensures
            v@ == Json::Int(n as int),
    {
        Value::Number(Number::Unsigned(n))
    }

    /// An integer document.
    pub fn signed(n: i64) -> (v: Value)
        ensures
            v@ == Json::Int(n as int),
    {
        if n >= 0 {
            Value::Number(Number::Unsigned(n as u64))
        } else {
            Value::Number(Number::Negative(n))
        }
    }

    /// What `key` names, where this is an object.
    pub fn get(&self, key: &str) -> (r: Option<&Value>)
        ensures
            ref_doc(r) == field(self@, key@),
    {
        match self {
            Value::Object(entries) => {
                proof {
                    Value::lemma_object(*entries);
                }
                match find(entries, key) {
                    Some(i) => {
                        proof {
                            lemma_position(entries_of(entries@), key@);
                        }
                        Some(&entries[i].1)
                    },
                    None => None,
                }
            },
            _ => None,
        }
    }

    /// What two keys lead to, one inside the other.
    pub fn get2(&self, outer: &str, inner: &str) -> (r: Option<&Value>)
        ensures
            ref_doc(r) == field2(self@, outer@, inner@),
    {
        match self.get(outer) {
            Some(v) => v.get(inner),
            None => None,
        }
    }

    /// A copy of what `key` names, or null.
    pub fn get_or_null(&self, key: &str) -> (r: Value)
        ensures
            r@ == field_or_null(self@, key@),
    {
        match self.get(key) {
            Some(v) => v.clone(),
            None => Value::Null,
        }
    }

    /// A copy of the string that `key` names.
    pub fn get_string(&self, key: &str) -> (r: Option<String>)
        ensures
            opt_chars(r) == str_field(self@, key@),
    {
        match self.get(key) {
            Some(v) => match v.as_str() {
                Some(s) => Some(s.to_owned()),
                None => None,
            },
            None => None,
        }
    }

    /// The member at `index`, where this is an array.
    pub fn get_item(&self, index: usize) -> (r: Option<&Value>)
        ensures
            ref_doc(r) == item(self@, index as int),
    {
        match self {
            Value::Array(items) => {
                if index < items.len() {
                    Some(&items[index])
                } else {
                    None
                }
            },
            _ => None,
        }
    }

    /// Whether this is null.
    pub fn is_null(&self) -> (b: bool)
        ensures
            b == (self@ is Null),
    {
        match self {
            Value::Null => true,
            _ => false,
        }
    }

    /// Whether this is an object.
    pub fn is_object(&self) -> (b: bool)
        ensures
            b == (self@ is Obj),
    {
        match self {
            Value::Object(_) => true,
            _ => false,
        }
    }

    /// Whether this is an object without entries, or no object at all.
    pub fn is_blank(&self) -> (b: bool)
        ensures
            b == blank(self@),
    {
        match self {
            Value::Object(entries) => entries.len() == 0,
            _ => true,
        }
    }

    /// The string, where this is one.
    pub fn as_str(&self) -> (r: Option<&str>)
        ensures
            match r {
                Some(s) => self@ == Json::Str(s@),
                None => !(self@ is Str),
            },
    {
        match self {
            Value::String(s) => Some(s.as_str()),
            _ => None,
        }
    }

    /// The truth value, where this is one.
    pub fn as_bool(&self) -> (r: Option<bool>)
        ensures
            match r {
                Some(b) => self@ == Json::Bool(b),
                None => !(self@ is Bool),
            },
    {
        match self {
            Value::Bool(b) => Some(*b),
            _ => None,
        }
    }

    /// The integer, where this is one that an unsigned 64-bit number holds.
    pub fn as_u64(&self) -> (r: Option<u64>)
        ensures
            match r {
                Some(n) => self@ == Json::Int(n as int),
                None => !(self@ matches Json::Int(i) && 0 <= i <= u64::MAX),
            },
    {
        match self {
            Value::Number(Number::Unsigned(u)) => Some(*u),
            Value::Number(Number::Negative(i)) => {
                if *i >= 0 {
                    Some(*i as u64)
                } else {
                    None
                }
            },
            _ => None,
        }
    }

    /// The integer, where this is one that a signed 64-bit number holds.
    pub fn as_i64(&self) -> (r: Option<i64>)
        ensures
            match r {
                Some(n) => self@ == Json::Int(n as int),
                None => !(self@ matches Json::Int(i) && i64::MIN <= i <= i64::MAX),
            },
    {
        match self {
            Value::Number(Number::Unsigned(u)) => {
                if *u <= i64::MAX as u64 {
                    Some(*u as i64)
                } else {
                    None
                }
            },
            Value::Number(Number::Negative(i)) => Some(*i),
            _ => None,
        }
    }
}

} // verus!
