//! What the tag manager promises across several calls.
use vstd::prelude::*;

use crate::diff::{applied, applied_entries, changed, changed_entries, same_doc, tidy};
use crate::diff_laws::{
    carries, law_diff_is_key_by_key, law_merge_is_key_by_key, law_merged_write_leaves_no_change,
    lemma_no_change_against_self, lemma_unchanged, merged_at, settled,
};
use crate::events::boot_payload;
use crate::json::{
    at, blank, empty_obj, field, field2, field_or_null, lemma_at_one, lemma_distinct_at,
    lemma_position, members, position, Entries, Json, Value,
};
use crate::tags::key_path::{
    diverge, found, law_construct_then_lookup, law_strip_is_key_by_key,
    law_stripped_leaves_are_gone, law_write_keeps_other_tags, law_written_tag_reads_back, stripped,
    stripped_at, stripped_entries, wrapped,
};
use crate::tags::runtime::{
    after_set, after_tag_event, after_triggers, app_open, bucket_open, claimed, claims, committed,
    current, history, is_fresh, lemma_triggers_from, lists, live_doc, live_open, notified, others,
    promoted, set_outcome, skips, triggers_from, triggers_of, write_fires, CommitAction,
    CommitStage, Path, RuntimeView, SetOutcome, SetTagOptions,
};
use crate::tags::triggers::{law_any_change_fires_on_every_change, reading, SetView};
use crate::text::joined;

verus! {

/// A merge of two documents without doubled keys has no doubled keys.
pub proof fn lemma_applied_tidy(b: Json, p: Json, delete: bool)
    requires
        tidy(b),
        tidy(p),
    ensures
        tidy(applied(b, p, delete)),
    decreases p,
{
    if let (Json::Obj(eb), Json::Obj(ep)) = (b, p) {
        let r = applied_entries(eb, ep, delete);
        law_merge_is_key_by_key(eb, ep, delete);
        assert forall|i: int| 0 <= i < r.len() implies tidy((#[trigger] r[i]).1) by {
            let k = r[i].0;
            lemma_distinct_at(r, i);
            assert(at(r, k) == merged_at(at(eb, k), at(ep, k), delete));
            lemma_position(eb, k);
            lemma_position(ep, k);
            if let Some(x) = position(eb, k) {
                assert(tidy(eb[x].1));
            }
            if let Some(y) = position(ep, k) {
                assert(tidy(ep[y].1));
                if let Some(x) = position(eb, k) {
                    assert(decreases_to!(p => p->Obj_0[y].1));
                    lemma_applied_tidy(eb[x].1, ep[y].1, delete);
                }
            }
        }
    }
}

/// What is left of a document without doubled keys has no doubled keys.
pub proof fn lemma_stripped_tidy(t: Json, p: Json)
    requires
        tidy(t),
        tidy(p),
    ensures
        tidy(stripped(t, p)),
    decreases p,
{
    if let (Json::Obj(et), Json::Obj(ep)) = (t, p) {
        let r = stripped_entries(et, ep);
        law_strip_is_key_by_key(et, ep);
        assert forall|i: int| 0 <= i < r.len() implies tidy((#[trigger] r[i]).1) by {
            let k = r[i].0;
            lemma_distinct_at(r, i);
            assert(at(r, k) == stripped_at(at(et, k), at(ep, k)));
            lemma_position(et, k);
            lemma_position(ep, k);
            if let Some(x) = position(et, k) {
                assert(tidy(et[x].1));
                if let Some(y) = position(ep, k) {
                    assert(tidy(ep[y].1));
                    assert(decreases_to!(p => p->Obj_0[y].1));
                    lemma_stripped_tidy(et[x].1, ep[y].1);
                }
            }
        }
    }
}

/// A document nested along a path has no doubled keys.
pub proof fn lemma_wrapped_tidy(path: Path, leaf: Json)
    requires
        tidy(leaf),
    ensures
        tidy(wrapped(path, leaf)),
    decreases path.len(),
{
    if path.len() > 0 {
        lemma_wrapped_tidy(path.drop_first(), leaf);
        let e = wrapped(path, leaf)->Obj_0;
        assert forall|i: int| 0 <= i < e.len() implies tidy((#[trigger] e[i]).1) by {
            assert(i == 0);
        }
    }
}

/// What an overlay holds at a path shines through, whatever lies below it.
pub proof fn lemma_overlay_reads(below: Json, overlay: Json, path: Path, leaf: Json)
    requires
        tidy(below),
        tidy(overlay),
        !(leaf is Obj),
        found(path, overlay) == Some(leaf),
    ensures
        found(path, applied(below, overlay, false)) == Some(leaf),
    decreases path.len(),
{
    if path.len() > 0 {
        if let (Json::Obj(b), Json::Obj(p)) = (below, overlay) {
            let k = path[0];
            law_merge_is_key_by_key(b, p, false);
            assert(at(applied_entries(b, p, false), k) == merged_at(at(b, k), at(p, k), false));
            lemma_position(p, k);
            lemma_position(b, k);
            let y = position(p, k).unwrap();
            assert(tidy(p[y].1));
            if let Some(x) = position(b, k) {
                assert(tidy(b[x].1));
                lemma_overlay_reads(b[x].1, p[y].1, path.drop_first(), leaf);
            }
        }
    }
}

/// The documents of a manager have no doubled keys, and its buffers are objects.
pub open spec fn sound(v: RuntimeView) -> bool {
    &&& tidy(v.tag_values)
    &&& v.pending_aggregate is Obj && tidy(v.pending_aggregate)
    &&& v.pending_log is Obj && tidy(v.pending_log)
    &&& v.pending_immediate_log is Obj && tidy(v.pending_immediate_log)
}

/// A manager stays sound: through every write, through every step of a commit, and when
/// what was published becomes part of the channel.
pub proof fn law_the_manager_stays_sound(
    v: RuntimeView,
    tags: Json,
    o: SetTagOptions,
    stage: CommitStage,
    now: u64,
)
    requires
        sound(v),
        tags is Obj,
        tidy(tags),
    ensures
        sound(after_set(v, tags, o)),
        sound(RuntimeView { tag_values: applied(v.tag_values, tags, true), ..v }),
        forall|is: RuntimeView, action: CommitAction, next: CommitStage|
            #[trigger] committed(v, stage, now, is, action, next) ==> sound(is),
{
    lemma_applied_tidy(v.pending_immediate_log, tags, false);
    lemma_applied_tidy(v.pending_log, tags, false);
    lemma_applied_tidy(v.pending_aggregate, tags, false);
    lemma_applied_tidy(v.tag_values, tags, true);
    lemma_stripped_tidy(v.pending_log, tags);
}

proof fn lemma_field_tidy(j: Json, k: Seq<char>)
    requires
        tidy(j),
    ensures
        field(j, k) matches Some(x) ==> tidy(x),
{
    if let Json::Obj(e) = j {
        lemma_position(e, k);
        if let Some(i) = position(e, k) {
            assert(tidy(e[i].1));
        }
    }
}

/// A manager stays sound through every event of the tag channel whose payload has no
/// doubled keys, as none has that was read from text. So does one that takes the boot
/// state of the channel over.
pub proof fn law_events_keep_the_manager_sound(
    v: RuntimeView,
    is_sync: bool,
    payload: Json,
    data: Json,
)
    requires
        sound(v),
        tidy(payload),
        tidy(data),
    ensures
        sound(after_tag_event(v, is_sync, payload)),
        tidy(boot_payload(data)),
        sound(after_tag_event(v, true, boot_payload(data))),
{
    if let Some(x) = field(payload, "aggregate"@) {
        lemma_field_tidy(payload, "aggregate"@);
        lemma_field_tidy(x, "data"@);
    }
    let boot = boot_payload(data);
    let inner = boot->Obj_0[0].1;
    assert(tidy(inner)) by {
        assert forall|i: int| 0 <= i < inner->Obj_0.len() implies tidy(
            (#[trigger] inner->Obj_0[i]).1,
        ) by {
            assert(i == 0);
        }
    }
    assert(tidy(boot)) by {
        assert forall|i: int| 0 <= i < boot->Obj_0.len() implies tidy(
            (#[trigger] boot->Obj_0[i]).1,
        ) by {
            assert(i == 0);
        }
    }
    if let Some(x) = field(boot, "aggregate"@) {
        lemma_field_tidy(boot, "aggregate"@);
        lemma_field_tidy(x, "data"@);
    }
}

proof fn lemma_buffered_write_is_settled(t: Entries, p: Entries, w: Entries)
    requires
        tidy(Json::Obj(t)),
        tidy(Json::Obj(p)),
        tidy(Json::Obj(w)),
    ensures
        changed_entries(applied_entries(t, applied_entries(p, w, false), false), w).len() == 0,
    decreases w,
{
    let mid = applied_entries(p, w, false);
    let top = applied_entries(t, mid, false);
    law_merge_is_key_by_key(p, w, false);
    law_merge_is_key_by_key(t, mid, false);
    lemma_unchanged(top, w);
    assert forall|j: int| 0 <= j < w.len() implies settled(top, (#[trigger] w[j]).0, w[j].1) by {
        let k = w[j].0;
        let x = w[j].1;
        lemma_distinct_at(w, j);
        assert(tidy(w[j].1));
        crate::diff::lemma_same_doc_reflexive(x);
        assert(at(mid, k) == merged_at(at(p, k), Some(x), false));
        assert(at(top, k) == merged_at(at(t, k), at(mid, k), false));
        lemma_position(p, k);
        lemma_position(t, k);
        if let Some(i) = position(p, k) {
            assert(tidy(p[i].1));
        }
        if let Some(i) = position(t, k) {
            assert(tidy(t[i].1));
        }
        if x is Obj {
            assert(decreases_to!(w => w[j].1));
            lemma_no_change_against_self(x->Obj_0);
            if let Some(a) = at(p, k) {
                if a is Obj {
                    law_merged_write_leaves_no_change(a->Obj_0, x->Obj_0);
                    if let Some(b) = at(t, k) {
                        if b is Obj {
                            lemma_buffered_write_is_settled(b->Obj_0, a->Obj_0, x->Obj_0);
                        }
                    }
                }
            }
            if let Some(b) = at(t, k) {
                if b is Obj {
                    law_merged_write_leaves_no_change(b->Obj_0, x->Obj_0);
                }
            }
        }
    }
}

proof fn lemma_carried_below(c: Entries, t: Entries, path: Path, leaf: Json)
    requires
        changed_entries(c, t).len() == 0,
        path.len() > 0,
        found(path, Json::Obj(t)) == Some(leaf),
    ensures
        found(path, Json::Obj(c)) matches Some(x) && carries(x, leaf),
    decreases path.len(),
{
    let k = path[0];
    let rest = path.drop_first();
    lemma_unchanged(c, t);
    lemma_position(t, k);
    let j = position(t, k).unwrap();
    let v = t[j].1;
    assert(settled(c, t[j].0, v));
    let x = at(c, k).unwrap();
    reveal_with_fuel(found, 2);
    if rest.len() > 0 {
        assert(x is Obj);
        lemma_carried_below(x->Obj_0, v->Obj_0, rest, leaf);
    }
}

/// What is written can be read at once: every tag of a write carries what was written
/// to it. A write is skipped only if that was so before.
pub proof fn law_set_then_get(
    v: RuntimeView,
    tags: Json,
    o: SetTagOptions,
    path: Path,
    leaf: Json,
)
    requires
        sound(v),
        tags is Obj,
        tidy(tags),
        path.len() > 0,
        found(path, tags) == Some(leaf),
    ensures
        found(path, current(after_set(v, tags, o))) matches Some(x) && carries(x, leaf),
{
    let is = after_set(v, tags, o);
    if skips(v, tags, o) {
        lemma_carried_below(current(is)->Obj_0, tags->Obj_0, path, leaf);
    } else {
        let p = v.pending_aggregate->Obj_0;
        if v.tag_values is Obj {
            lemma_buffered_write_is_settled(v.tag_values->Obj_0, p, tags->Obj_0);
        } else {
            law_merged_write_leaves_no_change(p, tags->Obj_0);
        }
        lemma_carried_below(current(is)->Obj_0, tags->Obj_0, path, leaf);
    }
}

/// Writing the same tags a second time is skipped.
pub proof fn law_second_write_is_skipped(
    v: RuntimeView,
    tags: Json,
    first: SetTagOptions,
    second: SetTagOptions,
)
    requires
        sound(v),
        tags is Obj,
        tidy(tags),
        second.only_if_changed,
    ensures
        skips(after_set(v, tags, first), tags, second),
{
    if !skips(v, tags, first) {
        let p = v.pending_aggregate->Obj_0;
        if v.tag_values is Obj {
            lemma_buffered_write_is_settled(v.tag_values->Obj_0, p, tags->Obj_0);
        } else {
            law_merged_write_leaves_no_change(p, tags->Obj_0);
        }
    }
}

/// Every leaf of a logged write is in the immediate log and no longer in the periodic
/// one.
pub proof fn law_logged_write_is_logged_once(
    v: RuntimeView,
    tags: Json,
    o: SetTagOptions,
    path: Path,
    leaf: Json,
)
    requires
        sound(v),
        tags is Obj,
        tidy(tags),
        path.len() > 0,
        found(path, tags) == Some(leaf),
        !(leaf is Obj),
        o.log,
        !skips(v, tags, o),
    ensures
        ({
            let is = after_set(v, tags, o);
            &&& found(path, is.pending_immediate_log) == Some(leaf)
            &&& found(path, is.pending_log) is None
        }),
{
    lemma_overlay_reads(v.pending_immediate_log, tags, path, leaf);
    law_stripped_leaves_are_gone(v.pending_log->Obj_0, tags->Obj_0, path);
}

/// No key of the document holds null.
pub open spec fn no_nulls(j: Json) -> bool
    decreases j,
{
    match j {
        Json::Obj(e) => forall|i: int|
            0 <= i < e.len() ==> !((#[trigger] e[i]).1 is Null) && no_nulls(e[i].1),
        _ => true,
    }
}

proof fn lemma_delete_without_nulls(b: Entries, p: Entries)
    requires
        no_nulls(Json::Obj(p)),
    ensures
        applied_entries(b, p, true) == applied_entries(b, p, false),
    decreases p,
{
    if p.len() > 0 {
        let d = p.drop_last();
        let last = p.len() - 1;
        assert(p[last] == p.last());
        assert(no_nulls(Json::Obj(d))) by {
            assert forall|i: int| 0 <= i < d.len() implies !((#[trigger] d[i]).1 is Null)
                && no_nulls(d[i].1) by {
                assert(d[i] == p[i]);
            }
        }
        assert(decreases_to!(p => d)) by {
            assert(d =~= p.subrange(0, p.len() - 1));
        }
        lemma_delete_without_nulls(b, d);
        let before = applied_entries(b, d, true);
        let v = p.last().1;
        if let (Some(Json::Obj(x)), Json::Obj(y)) = (at(before, p.last().0), v) {
            assert(decreases_to!(p => p[last].1));
            lemma_delete_without_nulls(x, y);
        }
        if let Some(old) = at(before, p.last().0) {
            assert(applied(old, v, true) == applied(old, v, false));
        }
        assert(!(v is Null));
        assert(before == applied_entries(b, d, false));
    }
}

/// A commit does not change what an application reads, as long as no tag was
/// set to null.
pub proof fn law_commit_keeps_what_is_read(v: RuntimeView, is: RuntimeView)
    requires
        v.pending_aggregate is Obj,
        no_nulls(v.pending_aggregate),
        is == (RuntimeView {
            dirty: false,
            pending_aggregate: empty_obj(),
            tag_values: applied(v.tag_values, v.pending_aggregate, true),
            ..v
        }),
    ensures
        current(is) == current(v),
{
    if v.tag_values is Obj {
        lemma_delete_without_nulls(v.tag_values->Obj_0, v.pending_aggregate->Obj_0);
    }
    assert(applied_entries(is.tag_values->Obj_0, Seq::empty(), false) == is.tag_values->Obj_0);
}

// ---- who is told --------------------------------------------------------------------

/// What a subscription is told of a diff, if anything.
pub open spec fn notice_of(s: (Path, u64), diff: Json) -> Option<(Path, u64, Json)> {
    match found(s.0, diff) {
        Some(j) => Some((s.0, s.1, j)),
        None => None,
    }
}

/// Every subscription whose path is in a diff is told what the diff holds there, each
/// once, in the order of the subscriptions; nobody else is told anything.
pub proof fn law_every_subscriber_of_a_change_is_told(subs: Seq<(Path, u64)>, diff: Json)
    ensures
        notified(subs, diff) == subs.filter_map(|s: (Path, u64)| notice_of(s, diff)),
        forall|i: int|
            0 <= i < subs.len() ==> (found((#[trigger] subs[i]).0, diff) matches Some(j)
                ==> notified(subs, diff).contains((subs[i].0, subs[i].1, j))),
        forall|k: int|
            0 <= k < notified(subs, diff).len() ==> {
                let n = #[trigger] notified(subs, diff)[k];
                subs.contains((n.0, n.1)) && found(n.0, diff) == Some(n.2)
            },
        (forall|i: int| 0 <= i < subs.len() ==> found((#[trigger] subs[i]).0, diff) is Some)
            ==> notified(subs, diff).len() == subs.len(),
    decreases subs.len(),
{
    let f = |s: (Path, u64)| notice_of(s, diff);
    let r = notified(subs, diff);
    if subs.len() > 0 {
        let d = subs.drop_last();
        let last = subs.last();
        let before = notified(d, diff);
        law_every_subscriber_of_a_change_is_told(d, diff);
        if let Some(j) = found(last.0, diff) {
            assert(r =~= before + seq![(last.0, last.1, j)]);
            assert(r[before.len() as int] == (last.0, last.1, j));
        }
        assert(subs.filter_map(f) =~= r);
        assert forall|i: int| 0 <= i < subs.len() implies (found((#[trigger] subs[i]).0, diff) matches Some(
            j,
        ) ==> r.contains((subs[i].0, subs[i].1, j))) by {
            if let Some(j) = found(subs[i].0, diff) {
                let n = (subs[i].0, subs[i].1, j);
                if i < d.len() {
                    assert(d[i] == subs[i]);
                    let k = choose|k: int| 0 <= k < before.len() && before[k] == n;
                    assert(r[k] == n);
                } else {
                    assert(r[before.len() as int] == n);
                }
            }
        }
        assert forall|k: int| 0 <= k < r.len() implies {
            let n = #[trigger] r[k];
            subs.contains((n.0, n.1)) && found(n.0, diff) == Some(n.2)
        } by {
            let n = r[k];
            if k < before.len() {
                assert(before[k] == n);
                let i = choose|i: int| 0 <= i < d.len() && d[i] == (n.0, n.1);
                assert(subs[i] == (n.0, n.1));
            } else {
                assert(subs[subs.len() - 1] == (n.0, n.1));
            }
        }
        if forall|i: int| 0 <= i < subs.len() ==> found((#[trigger] subs[i]).0, diff) is Some {
            assert forall|i: int| 0 <= i < d.len() implies found((#[trigger] d[i]).0, diff) is Some by {
                assert(d[i] == subs[i]);
            }
            assert(found(subs[subs.len() - 1].0, diff) is Some);
        }
    }
}

/// A diff holds the new value of a leaf exactly if the old document held no equal value
/// at its path; where the new document holds nothing, so does the diff.
pub proof fn law_diff_holds_changed_leaves(was: Json, new: Json, path: Path)
    requires
        tidy(was),
        tidy(new),
        path.len() > 0,
    ensures
        found(path, new) is None ==> found(path, changed(was, new)) is None,
        found(path, new) matches Some(leaf) ==> (!(leaf is Obj) ==> found(path, changed(was, new))
            == (if found(path, was) matches Some(x) && same_doc(x, leaf) {
            None
        } else {
            Some(leaf)
        })),
    decreases path.len(),
{
    let k = path[0];
    let rest = path.drop_first();
    if let (Json::Obj(o), Json::Obj(n)) = (was, new) {
        law_diff_is_key_by_key(o, n);
        let d = changed_entries(o, n);
        let found_here = at(d, k);
        lemma_position(o, k);
        lemma_position(n, k);
        if let Some(j) = position(n, k) {
            let v = n[j].1;
            assert(tidy(v));
            if let Some(i) = position(o, k) {
                let x = o[i].1;
                assert(tidy(x));
                if x is Obj && v is Obj {
                    if rest.len() > 0 {
                        law_diff_holds_changed_leaves(x, v, rest);
                        let inner = changed_entries(x->Obj_0, v->Obj_0);
                        if inner.len() == 0 {
                            lemma_position(inner, rest[0]);
                        }
                    }
                } else if rest.len() > 0 && v is Obj {
                    assert(!same_doc(x, v));
                }
            }
        }
    }
}

/// Whoever subscribed to a tag is told its new value whenever an update of the channel
/// changes it, and is told nothing by an update that leaves it equal.
pub proof fn law_changed_tags_are_told(
    subs: Seq<(Path, u64)>,
    was: Json,
    data: Json,
    i: int,
    leaf: Json,
)
    requires
        tidy(was),
        tidy(data),
        was is Obj,
        data is Obj,
        0 <= i < subs.len(),
        subs[i].0.len() > 0,
        found(subs[i].0, data) == Some(leaf),
        !(leaf is Obj),
    ensures
        !(found(subs[i].0, was) matches Some(x) && same_doc(x, leaf)) ==> !blank(
            changed(was, data),
        ) && notified(subs, changed(was, data)).contains((subs[i].0, subs[i].1, leaf)),
        (found(subs[i].0, was) matches Some(x) && same_doc(x, leaf)) ==> forall|k: int|
            0 <= k < notified(subs, changed(was, data)).len() ==> (#[trigger] notified(
                subs,
                changed(was, data),
            )[k]).0 != subs[i].0,
{
    let diff = changed(was, data);
    law_diff_holds_changed_leaves(was, data, subs[i].0);
    law_every_subscriber_of_a_change_is_told(subs, diff);
    if found(subs[i].0, diff) is Some {
        lemma_position(diff->Obj_0, subs[i].0[0]);
    }
}

/// Taking out the entries of a path takes out all of them and nothing else, and keeps
/// the order of the rest.
pub proof fn law_others_are_kept<T>(list: Seq<(Path, T)>, path: Path)
    ensures
        others(list, path) == list.filter(|e: (Path, T)| e.0 != path),
        forall|i: int|
            0 <= i < list.len() && (#[trigger] list[i]).0 != path ==> others(list, path).contains(
                list[i],
            ),
        forall|k: int|
            0 <= k < others(list, path).len() ==> (#[trigger] others(list, path)[k]).0 != path
                && list.contains(others(list, path)[k]),
    decreases list.len(),
{
    let f = |e: (Path, T)| e.0 != path;
    reveal(Seq::filter);
    if list.len() > 0 {
        law_others_are_kept(list.drop_last(), path);
        let d = list.drop_last();
        let before = others(d, path);
        let r = others(list, path);
        assert(r =~= list.filter(f));
        assert forall|i: int| 0 <= i < list.len() && (#[trigger] list[i]).0 != path implies r.contains(
            list[i],
        ) by {
            if i < d.len() {
                assert(d[i] == list[i]);
                let k = choose|k: int| 0 <= k < before.len() && before[k] == list[i];
                assert(r[k] == list[i]);
            } else {
                assert(r[before.len() as int] == list[i]);
            }
        }
        assert forall|k: int| 0 <= k < r.len() implies (#[trigger] r[k]).0 != path && list.contains(
            r[k],
        ) by {
            if k < before.len() {
                assert(before[k] == r[k]);
                let i = choose|i: int| 0 <= i < d.len() && d[i] == r[k];
                assert(list[i] == r[k]);
            } else {
                assert(list[list.len() - 1] == r[k]);
            }
        }
    }
}

/// A new subscriber takes the place of an earlier one for the same tag: it alone is told
/// of the tag. Subscribers to other tags are told as before.
pub proof fn law_the_last_subscriber_is_told(
    subs: Seq<(Path, u64)>,
    path: Path,
    id: u64,
    diff: Json,
)
    ensures
        ({
            let is = others(subs, path).push((path, id));
            let r = notified(is, diff);
            &&& found(path, diff) matches Some(j) ==> r.contains((path, id, j))
            &&& forall|k: int| 0 <= k < r.len() && (#[trigger] r[k]).0 == path ==> r[k].1 == id
            &&& forall|i: int|
                0 <= i < subs.len() && (#[trigger] subs[i]).0 != path ==> (found(
                    subs[i].0,
                    diff,
                ) matches Some(j) ==> r.contains((subs[i].0, subs[i].1, j)))
        }),
{
    let kept = others(subs, path);
    let is = kept.push((path, id));
    let r = notified(is, diff);
    law_others_are_kept(subs, path);
    law_every_subscriber_of_a_change_is_told(is, diff);
    assert(is[kept.len() as int] == (path, id));
    assert forall|k: int| 0 <= k < r.len() && (#[trigger] r[k]).0 == path implies r[k].1 == id by {
        let i = choose|i: int| 0 <= i < is.len() && is[i] == (r[k].0, r[k].1);
        if i < kept.len() {
            assert(kept[i] == is[i]);
        }
    }
    assert forall|i: int| 0 <= i < subs.len() && (#[trigger] subs[i]).0 != path implies (found(
        subs[i].0,
        diff,
    ) matches Some(j) ==> r.contains((subs[i].0, subs[i].1, j))) by {
        let k = choose|k: int| 0 <= k < kept.len() && kept[k] == subs[i];
        assert(is[k] == subs[i]);
    }
}

// ---- what is published and logged ---------------------------------------------------

/// What was written is published at the end of the loop, once: the commit's update holds
/// every leaf of the write, to arrive within 3 seconds while someone has the app open and
/// within 900 otherwise, and the next commit publishes nothing.
pub proof fn law_writes_are_published_once(
    v: RuntimeView,
    tags: Json,
    o: SetTagOptions,
    path: Path,
    leaf: Json,
    now: u64,
    is: RuntimeView,
    action: CommitAction,
    next: CommitStage,
)
    requires
        sound(v),
        tags is Obj,
        tidy(tags),
        path.len() > 0,
        found(path, tags) == Some(leaf),
        !(leaf is Obj),
        !o.flush,
        !skips(v, tags, o),
        committed(after_set(v, tags, o), CommitStage::Aggregate, now, is, action, next),
    ensures
        action matches CommitAction::Publish(data, age) && found(path, data@) == Some(leaf) && age
            == (if app_open(v, now) {
            3
        } else {
            900u32
        }),
        next == CommitStage::Live,
        is.dirty == false,
        is.pending_aggregate == empty_obj(),
        is.tag_values == v.tag_values,
        is.pending_log == after_set(v, tags, o).pending_log,
        is.pending_immediate_log == after_set(v, tags, o).pending_immediate_log,
        forall|then: RuntimeView, act: CommitAction, stage: CommitStage|
            #[trigger] committed(is, CommitStage::Aggregate, now, then, act, stage) ==> act
                is Nothing && then == is,
{
    lemma_overlay_reads(v.pending_aggregate, tags, path, leaf);
}

/// A write that is to go out at once is handed back to be published, with everything that
/// waited before it; one that changes nothing is not.
pub proof fn law_flushed_writes_are_published_at_once(
    v: RuntimeView,
    tags: Json,
    o: SetTagOptions,
    r: SetOutcome,
    path: Path,
    leaf: Json,
)
    requires
        sound(v),
        tags is Obj,
        tidy(tags),
        o.flush,
        set_outcome(v, tags, o, r),
        path.len() > 0,
        found(path, tags) == Some(leaf),
        !(leaf is Obj),
    ensures
        skips(v, tags, o) ==> r is Unchanged,
        !skips(v, tags, o) ==> (r matches SetOutcome::Publish(data) && found(path, data@) == Some(
            leaf,
        )),
        !skips(v, tags, o) ==> (r matches SetOutcome::Publish(data) && forall|q: Seq<char>|
            at(tags->Obj_0, q) is None ==> #[trigger] at(data@->Obj_0, q) == at(
                v.pending_aggregate->Obj_0,
                q,
            )),
{
    lemma_overlay_reads(v.pending_aggregate, tags, path, leaf);
    law_merge_is_key_by_key(v.pending_aggregate->Obj_0, tags->Obj_0, false);
    let e = applied_entries(v.pending_aggregate->Obj_0, tags->Obj_0, false);
    assert forall|q: Seq<char>| at(tags->Obj_0, q) is None implies #[trigger] at(e, q) == at(
        v.pending_aggregate->Obj_0,
        q,
    ) by {
        assert(at(e, q) == merged_at(at(v.pending_aggregate->Obj_0, q), at(tags->Obj_0, q), false));
    }
}

/// A logged write is in the log at the end of the loop, which is then empty. A write that
/// is not logged waits in the periodic log, and the log at the end of the loop is left as
/// it was.
pub proof fn law_writes_are_logged(
    v: RuntimeView,
    tags: Json,
    o: SetTagOptions,
    path: Path,
    leaf: Json,
    now: u64,
    is: RuntimeView,
    action: CommitAction,
    next: CommitStage,
)
    requires
        sound(v),
        tags is Obj,
        tidy(tags),
        path.len() > 0,
        found(path, tags) == Some(leaf),
        !(leaf is Obj),
        !skips(v, tags, o),
        committed(after_set(v, tags, o), CommitStage::Immediate, now, is, action, next),
    ensures
        o.log ==> (action matches CommitAction::Log(data) && found(path, data@) == Some(leaf)),
        o.log ==> is.pending_immediate_log == empty_obj(),
        !o.log ==> found(path, is.pending_log) == Some(leaf),
        !o.log ==> after_set(v, tags, o).pending_immediate_log == v.pending_immediate_log,
        next == CommitStage::Periodic,
{
    lemma_overlay_reads(v.pending_immediate_log, tags, path, leaf);
    lemma_overlay_reads(v.pending_log, tags, path, leaf);
    let log = applied(v.pending_immediate_log, tags, false);
    lemma_position(log->Obj_0, path[0]);
}

/// What waits in the periodic log is written when nothing was written for 900000
/// milliseconds, or never before, and then it waits no longer; until then it is kept.
pub proof fn law_the_periodic_log_is_written_when_due(
    v: RuntimeView,
    now: u64,
    is: RuntimeView,
    action: CommitAction,
    next: CommitStage,
)
    requires
        committed(v, CommitStage::Periodic, now, is, action, next),
    ensures
        next == CommitStage::Done,
        ({
            let waits = v.pending_log matches Json::Obj(e) && e.len() > 0;
            let due = waits && (v.last_log_flush is None || now - v.last_log_flush.unwrap()
                >= 900_000);
            &&& due ==> (action matches CommitAction::Log(data) && data@ == v.pending_log)
            &&& due ==> is == (RuntimeView {
                pending_log: empty_obj(),
                last_log_flush: Some(now),
                ..v
            })
            &&& !due ==> action is Nothing && is == v
        }),
{
}

/// A commit goes through its stages in order and publishes before it logs.
pub proof fn law_commits_go_through_every_stage(
    v: RuntimeView,
    stage: CommitStage,
    now: u64,
    is: RuntimeView,
    action: CommitAction,
    next: CommitStage,
)
    requires
        committed(v, stage, now, is, action, next),
    ensures
        next == (match stage {
            CommitStage::Aggregate => CommitStage::Live,
            CommitStage::Live => CommitStage::Immediate,
            CommitStage::Immediate => CommitStage::Periodic,
            CommitStage::Periodic => CommitStage::Done,
            CommitStage::Done => CommitStage::Done,
        }),
        action is Publish ==> stage == CommitStage::Aggregate,
        action is OneShot ==> stage == CommitStage::Live,
        action is Log ==> stage == CommitStage::Immediate || stage == CommitStage::Periodic,
        is.subscriptions == v.subscriptions,
        is.log_triggers == v.log_triggers,
        is.live_tag_keys == v.live_tag_keys,
        is.tag_values == v.tag_values,
        stage == CommitStage::Aggregate && v.dirty <==> action is Publish,
{
}

// ---- triggers ------------------------------------------------------------------------

/// The triggers registered for a path are the ones that its writes are held against; the
/// triggers of other paths stay theirs.
pub proof fn law_registered_triggers_are_found(v: RuntimeView, path: Path, set: SetView, q: Path)
    ensures
        ({
            let is = RuntimeView {
                log_triggers: others(v.log_triggers, path).push((path, set)),
                ..v
            };
            &&& triggers_of(is, path) == Some(set)
            &&& q != path ==> triggers_of(is, q) == triggers_of(v, q)
        }),
{
    let list = v.log_triggers;
    let kept = others(list, path);
    let now = kept.push((path, set));
    law_others_are_kept(list, path);
    lemma_first_of(now, path);
    if let Some(i) = triggers_from(now, path, 0) {
        if i < kept.len() {
            assert(kept[i] == now[i]);
        }
    }
    assert(now[kept.len() as int].0 == path);
    if q != path {
        lemma_first_of_pushed(kept, (path, set), q);
        lemma_first_of_others(list, path, q);
        lemma_first_of(kept, q);
        if let Some(i) = triggers_from(kept, q, 0) {
            assert(now[i] == kept[i]);
        }
    }
}

proof fn lemma_first_of(list: Seq<(Path, SetView)>, path: Path)
    ensures
        match triggers_from(list, path, 0) {
            Some(i) => 0 <= i < list.len() && list[i].0 == path && forall|j: int|
                0 <= j < i ==> (#[trigger] list[j]).0 != path,
            None => forall|j: int| 0 <= j < list.len() ==> (#[trigger] list[j]).0 != path,
        },
{
    lemma_triggers_from(list, path, 0);
}

proof fn lemma_first_of_pushed(list: Seq<(Path, SetView)>, e: (Path, SetView), q: Path)
    requires
        e.0 != q,
    ensures
        triggers_from(list.push(e), q, 0) == triggers_from(list, q, 0),
{
    let more = list.push(e);
    lemma_first_of(list, q);
    lemma_first_of(more, q);
    match (triggers_from(list, q, 0), triggers_from(more, q, 0)) {
        (Some(i), Some(j)) => {
            assert(more[i] == list[i]);
            if j < list.len() {
                assert(more[j] == list[j]);
            }
        },
        (Some(i), None) => {
            assert(more[i] == list[i]);
        },
        (None, Some(j)) => {
            if j < list.len() {
                assert(more[j] == list[j]);
            }
        },
        (None, None) => {},
    }
}

proof fn lemma_first_of_others(list: Seq<(Path, SetView)>, path: Path, q: Path)
    requires
        q != path,
    ensures
        ({
            let kept = others(list, path);
            match (triggers_from(kept, q, 0), triggers_from(list, q, 0)) {
                (Some(i), Some(j)) => kept[i] == list[j],
                (None, None) => true,
                _ => false,
            }
        }),
    decreases list.len(),
{
    let kept = others(list, path);
    lemma_first_of(kept, q);
    lemma_first_of(list, q);
    if list.len() > 0 {
        let d = list.drop_last();
        let last = list.last();
        lemma_first_of_others(d, path, q);
        lemma_first_of(d, q);
        assert(d.push(last) =~= list);
        if last.0 != q {
            lemma_first_of_pushed(d, last, q);
            if last.0 != path {
                lemma_first_of_pushed(others(d, path), last, q);
            }
        } else {
            let before = others(d, path);
            lemma_first_of(before, q);
            match triggers_from(d, q, 0) {
                Some(j) => {
                    let i = triggers_from(before, q, 0).unwrap();
                    assert(list[j] == d[j]);
                    assert(kept[i] == before[i]);
                    let a = triggers_from(list, q, 0).unwrap();
                    assert(list[a] == d[a] || a == d.len());
                    let b = triggers_from(kept, q, 0).unwrap();
                    assert(b < before.len() ==> kept[b] == before[b]);
                    assert forall|x: int| 0 <= x < j implies (#[trigger] list[x]).0 != q by {
                        assert(d[x] == list[x]);
                    }
                    assert forall|x: int| 0 <= x < i implies (#[trigger] kept[x]).0 != q by {
                        assert(before[x] == kept[x]);
                    }
                },
                None => {
                    assert forall|x: int| 0 <= x < d.len() implies (#[trigger] list[x]).0 != q by {
                        assert(d[x] == list[x]);
                    }
                    assert forall|x: int| 0 <= x < before.len() implies (#[trigger] kept[x]).0 != q by {
                        assert(before[x] == kept[x]);
                    }
                    assert(list[list.len() - 1].0 == q);
                    assert(kept[before.len() as int].0 == q);
                },
            }
        }
    }
}

/// A write that one of its tag's triggers fires on is logged at the end of the loop, also
/// if nobody asked for that; one that no trigger fires on is logged only if asked for.
/// The triggers compare it with what the tag holds, else with its default.
pub proof fn law_fired_writes_are_logged(
    v: RuntimeView,
    path: Path,
    new: Json,
    o: SetTagOptions,
    far: Seq<bool>,
    set: SetView,
    k: int,
)
    requires
        sound(v),
        path.len() > 0,
        triggers_of(v, path) == Some(set),
        0 <= k < set.triggers.len(),
        !(new is Obj),
        tidy(new),
    ensures
        ({
            let prev = match found(path, current(v)) {
                Some(j) => j,
                None => match set.default {
                    Some(d) => d,
                    None => Json::Null,
                },
            };
            let fired = write_fires(v, path, new, far);
            let mid = after_triggers(v, path, new, far);
            let is = after_set(mid, wrapped(path, new), promoted(o, fired));
            &&& set.triggers[k].fires(prev, new, far[k], set.states[k]) ==> fired
            &&& (forall|i: int|
                0 <= i < set.triggers.len() ==> !(#[trigger] set.triggers[i]).fires(
                    prev,
                    new,
                    far[i],
                    set.states[i],
                )) ==> !fired
            &&& (fired || o.log) && !skips(mid, wrapped(path, new), promoted(o, fired)) ==> found(
                path,
                is.pending_immediate_log,
            ) == Some(new) && found(path, is.pending_log) is None
            &&& !fired && !o.log ==> is.pending_immediate_log == v.pending_immediate_log
            &&& triggers_of(mid, path) matches Some(s) && s.triggers == set.triggers && s.default
                == set.default && forall|i: int|
                0 <= i < set.triggers.len() ==> #[trigger] s.states[i] == set.triggers[i].after(
                    new,
                    far[i],
                    set.states[i],
                )
        }),
{
    let fired = write_fires(v, path, new, far);
    let mid = after_triggers(v, path, new, far);
    let tags = wrapped(path, new);
    lemma_wrapped_tidy(path, new);
    law_construct_then_lookup(path, new);
    assert(sound(mid));
    if (fired || o.log) && !skips(mid, tags, promoted(o, fired)) {
        law_logged_write_is_logged_once(mid, tags, promoted(o, fired), path, new);
    }
    lemma_first_of(v.log_triggers, path);
    lemma_first_of(mid.log_triggers, path);
    let i = triggers_from(v.log_triggers, path, 0).unwrap();
    let j = triggers_from(mid.log_triggers, path, 0).unwrap();
    assert(mid.log_triggers[i].0 == path);
    assert forall|x: int| 0 <= x < i implies (#[trigger] mid.log_triggers[x]).0 != path by {
        assert(mid.log_triggers[x] == v.log_triggers[x]);
    }
    assert(j == i);
}

/// Setting a text tag with a trigger on any change to another text is logged at the end
/// of the loop.
pub proof fn law_text_transitions_are_logged(
    v: RuntimeView,
    path: Path,
    was: Seq<char>,
    new: Seq<char>,
    o: SetTagOptions,
    far: Seq<bool>,
    set: SetView,
    k: int,
)
    requires
        sound(v),
        path.len() > 0,
        triggers_of(v, path) == Some(set),
        0 <= k < set.triggers.len(),
        set.triggers[k] is AnyChange,
        found(path, current(v)) == Some(Json::Str(was)),
        was != new,
        current(v) is Obj,
        tidy(current(v)),
    ensures
        ({
            let fired = write_fires(v, path, Json::Str(new), far);
            let mid = after_triggers(v, path, Json::Str(new), far);
            let is = after_set(mid, wrapped(path, Json::Str(new)), promoted(o, fired));
            &&& fired
            &&& found(path, is.pending_immediate_log) == Some(Json::Str(new))
            &&& found(path, is.pending_aggregate) == Some(Json::Str(new))
        }),
{
    let j = Json::Str(new);
    law_fired_writes_are_logged(v, path, j, o, far, set, k);
    let fired = write_fires(v, path, j, far);
    let mid = after_triggers(v, path, j, far);
    let tags = wrapped(path, j);
    lemma_wrapped_tidy(path, j);
    law_construct_then_lookup(path, j);
    law_any_change_fires_on_every_change(Json::Str(was), j, far[k], set.states[k]);
    assert(current(mid) == current(v));
    law_diff_holds_changed_leaves(current(v), tags, path);
    let diff = changed(current(v), tags);
    lemma_position(diff->Obj_0, path[0]);
    assert(!skips(mid, tags, promoted(o, fired)));
    lemma_overlay_reads(v.pending_aggregate, tags, path, j);
}

// ---- viewers and live tags ------------------------------------------------------------

/// Whether a claim that a viewer made no more than 120000 milliseconds ago lists a name
/// under a key. A claim says when it was made in its `ts`.
pub open spec fn claims_now(claim: Json, key: Seq<char>, name: Seq<char>, now: u64) -> bool {
    &&& claim is Obj
    &&& reading(field_or_null(claim, "ts"@)) matches Some(ts) && (reading(
        Json::Int(now - 120_000),
    ) matches Some(limit) && ts > limit)
    &&& field_or_null(claim, key) matches Json::Arr(list) && list.contains(Json::Str(name))
}

/// A name is claimed exactly if some claim lists it now.
pub proof fn lemma_claimed(
    ui_sub: Json,
    bucket: Seq<char>,
    key: Seq<char>,
    name: Seq<char>,
    now: u64,
)
    ensures
        claimed(ui_sub, bucket, key, name, now) <==> exists|i: int|
            0 <= i < members(field_or_null(ui_sub, bucket)).len() && claims_now(
                (#[trigger] members(field_or_null(ui_sub, bucket))[i]).1,
                key,
                name,
                now,
            ),
{
    let e = claims(ui_sub, bucket);
    assert(e =~= members(field_or_null(ui_sub, bucket)));
    assert forall|i: int| 0 <= i < e.len() implies (is_fresh((#[trigger] e[i]).1, now) && lists(
        e[i].1,
        key,
        name,
    )) == claims_now(e[i].1, key, name, now) by {
        let c = e[i].1;
        if let Some(Json::Arr(list)) = field(c, key) {
            if list.contains(Json::Str(name)) {
                let k = choose|k: int| 0 <= k < list.len() && list[k] == Json::Str(name);
                assert(list[k] == Json::Str(name));
            }
        }
    }
}

/// The app counts as open exactly if it has a key and some viewer's claim of an open app
/// lists that key among its apps, not too long ago.
pub proof fn law_the_app_is_open_while_claimed(v: RuntimeView, now: u64)
    ensures
        app_open(v, now) <==> v.app_key.len() > 0 && exists|i: int|
            0 <= i < members(field_or_null(v.ui_sub, "app_open"@)).len() && claims_now(
                (#[trigger] members(field_or_null(v.ui_sub, "app_open"@))[i]).1,
                "apps"@,
                v.app_key,
                now,
            ),
{
    lemma_claimed(v.ui_sub, "app_open"@, "apps"@, v.app_key, now);
}

/// A tag counts as watched exactly if some viewer's claim of live tags lists its name, not
/// too long ago.
pub proof fn law_tags_are_watched_while_claimed(v: RuntimeView, name: Seq<char>, now: u64)
    ensures
        live_open(v, name, now) <==> exists|i: int|
            0 <= i < members(field_or_null(v.ui_sub, "live_tag_open"@)).len() && claims_now(
                (#[trigger] members(field_or_null(v.ui_sub, "live_tag_open"@))[i]).1,
                "tags"@,
                name,
                now,
            ),
{
    lemma_claimed(v.ui_sub, "live_tag_open"@, "tags"@, name, now);
}

/// What is streamed holds every live tag that someone watches and that has a value, with
/// that value, and no tag that nobody watches.
pub proof fn law_watched_tags_are_streamed(v: RuntimeView, keys: Seq<Path>, now: u64, i: int)
    requires
        0 <= i < keys.len(),
        keys[i].len() > 0,
        forall|j: int| 0 <= j < keys.len() && j != i ==> diverge(#[trigger] keys[j], keys[i]),
        !(found(keys[i], current(v)) matches Some(x) && x is Obj),
    ensures
        live_doc(v, keys, now) is Obj,
        found(keys[i], live_doc(v, keys, now)) == (if live_open(v, joined(keys[i], "."@), now) {
            found(keys[i], current(v))
        } else {
            None
        }),
    decreases keys.len(),
{
    let d = keys.drop_last();
    let last = keys.last();
    let before = live_doc(v, d, now);
    assert(forall|j: int| 0 <= j < d.len() ==> #[trigger] d[j] == keys[j]);
    if i < d.len() {
        law_watched_tags_are_streamed(v, d, now, i);
        assert(diverge(keys[keys.len() - 1], keys[i]));
        if let Some(value) = found(last, current(v)) {
            law_write_keeps_other_tags(before, last, keys[i], value);
        }
    } else {
        lemma_unnamed_is_not_streamed(v, d, now, keys[i]);
        if let Some(value) = found(last, current(v)) {
            law_written_tag_reads_back(before, last, value);
        }
    }
}

proof fn lemma_unnamed_is_not_streamed(v: RuntimeView, keys: Seq<Path>, now: u64, q: Path)
    requires
        q.len() > 0,
        forall|j: int| 0 <= j < keys.len() ==> diverge(#[trigger] keys[j], q),
    ensures
        live_doc(v, keys, now) is Obj,
        found(q, live_doc(v, keys, now)) is None,
    decreases keys.len(),
{
    if keys.len() > 0 {
        let d = keys.drop_last();
        assert(forall|j: int| 0 <= j < d.len() ==> #[trigger] d[j] == keys[j]);
        lemma_unnamed_is_not_streamed(v, d, now, q);
        assert(diverge(keys[keys.len() - 1], q));
        if let Some(value) = found(keys.last(), current(v)) {
            law_write_keeps_other_tags(live_doc(v, d, now), keys.last(), q, value);
        }
    } else {
        lemma_position(Seq::<(Seq<char>, Json)>::empty(), q[0]);
    }
}

/// A history has one message for every point that has tags, at the point's time and in
/// the order of the points, under the app's key if there is one.
pub proof fn law_history_has_every_point(app_key: Seq<char>, points: Seq<(u64, Value)>)
    ensures
        history(app_key, points) == points.filter_map(
            |p: (u64, Value)|
                if p.1@ matches Json::Obj(e) && e.len() > 0 {
                    Some(
                        (
                            p.0,
                            if app_key.len() == 0 {
                                p.1@
                            } else {
                                Json::Obj(seq![(app_key, p.1@)])
                            },
                        ),
                    )
                } else {
                    None
                },
        ),
    decreases points.len(),
{
    if points.len() > 0 {
        law_history_has_every_point(app_key, points.drop_last());
        let f = |p: (u64, Value)|
            if p.1@ matches Json::Obj(e) && e.len() > 0 {
                Some(
                    (
                        p.0,
                        if app_key.len() == 0 {
                            p.1@
                        } else {
                            Json::Obj(seq![(app_key, p.1@)])
                        },
                    ),
                )
            } else {
                None
            };
        assert(history(app_key, points) =~= points.filter_map(f));
    }
}

/// A bucket counts as open exactly if one of its claims, whichever it is, was made less than
/// 120000 milliseconds ago: a claim says so itself or in its `ts`.
pub proof fn law_buckets_are_open_while_claimed(ui_sub: Json, bucket: Seq<char>, now: u64)
    ensures
        bucket_open(ui_sub, bucket, now) <==> exists|i: int|
            0 <= i < members(field_or_null(ui_sub, bucket)).len() && is_recent(
                (#[trigger] members(field_or_null(ui_sub, bucket))[i]).1,
                now - 120_000,
            ),
{
    let e = claims(ui_sub, bucket);
    assert(e =~= members(field_or_null(ui_sub, bucket)));
    assert forall|i: int| 0 <= i < e.len() implies is_fresh((#[trigger] e[i]).1, now) == is_recent(
        e[i].1,
        now - 120_000,
    ) by {}
}

/// Whether a claim says that it was made after a time.
pub open spec fn is_recent(claim: Json, time: int) -> bool {
    reading(
        if claim is Obj {
            field_or_null(claim, "ts"@)
        } else {
            claim
        },
    ) matches Some(ts) && (reading(Json::Int(time)) matches Some(limit) && ts > limit)
}

/// An event that brings the tags replaces them whole. A first event without any empties them;
/// any other one leaves them as they are.
pub proof fn law_tag_events_bring_the_tags(v: RuntimeView, is_sync: bool, payload: Json, data: Json)
    ensures
        field2(payload, "aggregate"@, "data"@) == Some(data) ==> after_tag_event(v, is_sync, payload)
            == (RuntimeView { tag_values: data, ..v }),
        field2(payload, "aggregate"@, "data"@) is None ==> after_tag_event(v, true, payload) == (
        RuntimeView { tag_values: empty_obj(), ..v }),
        field2(payload, "aggregate"@, "data"@) is None ==> after_tag_event(v, false, payload) == v,
        after_tag_event(v, is_sync, boot_payload(data)).tag_values == data,
{
    lemma_at_one("aggregate"@, Json::Obj(seq![("data"@, data)]), "aggregate"@);
    lemma_at_one("data"@, data, "data"@);
}

} // verus!
