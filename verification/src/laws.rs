//! The library's laws, proved over the coordinator's transition relation
//! `step` and the store model that every public operation is specified
//! against.

use vstd::prelude::*;

use crate::events::GenEventView;
use crate::job::{record_valid, RecordView};
use crate::lifecycle::{
    cache_entry, cache_find_index, cache_has_generating, cache_remove, coord_wf, event_wf,
    lemma_cache_find_index_at, lemma_cache_find_index_facts, lemma_cache_remove_wf,
    lemma_cache_upsert_wf, step, CacheEntryView, CoordView, OutcomeView,
};
use crate::store::{
    find_index, find_record, has_id, insertion_point, lemma_find_index, lemma_find_index_at,
    lemma_wf_update, patched_record, reconciled_record, reconciled_store, store_wf,
};

verus! {

/// Statuses only move forward. One callback leaves every record's id in
/// place, moves no record's status backwards along
/// QUEUED -> GENERATING -> {COMPLETE, FAILED}, and never takes a record out
/// of a terminal state.
pub proof fn lemma_status_only_advances(c: CoordView, e: GenEventView)
    requires
        coord_wf(c),
    ensures
        step(c, e).state.store.len() == c.store.len(),
        forall|i: int|
            0 <= i < c.store.len() ==> (#[trigger] c.store[i]).id == step(c, e).state.store[i].id,
        forall|i: int|
            0 <= i < c.store.len() ==> (#[trigger] c.store[i]).metadata.status.may_advance_to(
                step(c, e).state.store[i].metadata.status,
            ),
        forall|i: int|
            0 <= i < c.store.len() && (#[trigger] c.store[i]).metadata.status.spec_is_complete()
                ==> step(c, e).state.store[i].metadata.status.spec_is_complete(),
{
    let s2 = step(c, e).state.store;
    lemma_find_index(c.store, e.id);
    assert forall|i: int| 0 <= i < c.store.len() implies (#[trigger] c.store[i]).id == s2[i].id
        && c.store[i].metadata.status.may_advance_to(s2[i].metadata.status) && (
    c.store[i].metadata.status.spec_is_complete() ==> s2[i].metadata.status.spec_is_complete()) by {
        if s2 != c.store {
            let fi = find_index(c.store, e.id);
            if i != fi {
                assert(s2[i] == c.store[i]);
            }
        }
    }
}

/// Every record of a well-formed store carries outputs exactly when its
/// status is COMPLETE.
pub proof fn lemma_outputs_iff_complete(s: Seq<RecordView>)
    requires
        store_wf(s),
    ensures
        forall|i: int|
            0 <= i < s.len() ==> (((#[trigger] s[i]).outputs is Some) <==> (
            s[i].metadata.status is Complete)),
{
    assert forall|i: int| 0 <= i < s.len() implies (((#[trigger] s[i]).outputs is Some) <==> (
    s[i].metadata.status is Complete)) by {
        assert(record_valid(s[i]));
    }
}

/// One callback keeps the whole state well formed.
pub proof fn lemma_step_preserves_wf(c: CoordView, e: GenEventView)
    requires
        coord_wf(c),
    ensures
        coord_wf(step(c, e).state),
{
    let c2 = step(c, e).state;
    if event_wf(e) {
        let fi = find_index(c.store, e.id);
        lemma_find_index(c.store, e.id);
        if fi >= 0 {
            let rec = c.store[fi];
            if rec.metadata.status.may_advance_to(e.data.status) {
                if e.data.status is Queued {
                    lemma_cache_upsert_wf(c.cache, c2.cache, e);
                } else if e.data.status is Generating {
                    lemma_cache_upsert_wf(c.cache, c2.cache, e);
                    if !cache_has_generating(c.cache, e.id) {
                        let rv = patched_record(rec, e.data, None);
                        lemma_wf_update(c.store, fi, rv);
                    }
                } else {
                    lemma_cache_remove_wf(c.cache, e.id);
                    let outs = if e.data.status is Complete {
                        e.outputs
                    } else {
                        None
                    };
                    let rv = patched_record(
                        rec,
                        crate::lifecycle::terminal_meta(e.data),
                        outs,
                    );
                    lemma_wf_update(c.store, fi, rv);
                }
            }
        }
    }
}

/// A callback for an unknown id is dropped: no record is created, nothing
/// changes.
pub proof fn lemma_unknown_id_dropped(c: CoordView, e: GenEventView)
    requires
        !has_id(c.store, e.id),
    ensures
        step(c, e).state == c,
        step(c, e).outcome == OutcomeView::Dropped,
{
}

/// Replacing a record with one of the same id does not move the first
/// match for any id.
proof fn lemma_find_index_update_same_id(s: Seq<RecordView>, i: int, r: RecordView)
    requires
        0 <= i < s.len(),
        r.id == s[i].id,
        find_index(s, s[i].id) == i,
    ensures
        find_index(s.update(i, r), r.id) == i,
{
    let s1 = s.update(i, r);
    lemma_find_index(s, r.id);
    assert forall|j: int| 0 <= j < i implies s1[j].id != r.id by {
        assert(s1[j] == s[j]);
    }
    lemma_find_index_at(s1, r.id, i);
}

/// Applying the same terminal callback twice leaves the state exactly as
/// applying it once: duplicate terminal updates are idempotent.
pub proof fn lemma_terminal_idempotent(c: CoordView, e: GenEventView)
    requires
        coord_wf(c),
        e.data.status.spec_is_complete(),
    ensures
        step(step(c, e).state, e).state == step(c, e).state,
{
    if !event_wf(e) {
        return ;
    }
    let fi = find_index(c.store, e.id);
    lemma_find_index(c.store, e.id);
    if fi < 0 {
        return ;
    }
    let rec = c.store[fi];
    let c1 = step(c, e).state;
    let outs = if e.data.status is Complete {
        e.outputs
    } else {
        Option::<crate::job::OutputsView>::None
    };
    let rv = patched_record(rec, crate::lifecycle::terminal_meta(e.data), outs);
    assert(c1.store == c.store.update(fi, rv));
    lemma_find_index_update_same_id(c.store, fi, rv);
    assert(find_index(c1.store, e.id) == fi);
    let rec2 = c1.store[fi];
    assert(rec2 == rv);
    assert(rec2.metadata.status == e.data.status);
    assert(rec2.metadata.status.may_advance_to(e.data.status));
    let rv2 = patched_record(rec2, crate::lifecycle::terminal_meta(e.data), outs);
    assert(rv2 == rv);
    let c2 = step(c1, e).state;
    assert(c2.store =~= c1.store) by {
        assert(c2.store == c1.store.update(fi, rv2));
    }
    // the cache entry is gone after the first application, so the second
    // removal finds nothing
    lemma_cache_find_index_facts(c.cache, e.id);
    let ci = cache_find_index(c.cache, e.id);
    if ci >= 0 {
        let cc1 = c.cache.remove(ci);
        assert(c1.cache == cc1);
        assert forall|j: int| 0 <= j < cc1.len() implies cc1[j].id != e.id by {
            let j0 = if j < ci {
                j
            } else {
                j + 1
            };
            assert(cc1[j] == c.cache[j0]);
            if j0 != ci {
                assert(c.cache[j0].id != c.cache[ci].id);
            }
        }
        lemma_cache_find_index_at(cc1, e.id, cc1.len() as int);
        assert(cache_remove(c1.cache, e.id) == c1.cache);
    } else {
        assert(c1.cache == c.cache);
        assert(cache_remove(c1.cache, e.id) == c1.cache);
    }
    assert(c2.cache == c1.cache);
    assert(c2 == c1);
}

/// Reconciliation leaves no record QUEUED or GENERATING and leaves records
/// that were already terminal word-for-word unchanged.
pub proof fn lemma_reconcile_clears_active(s: Seq<RecordView>, now: i64)
    ensures
        reconciled_store(s, now).len() == s.len(),
        forall|i: int|
            0 <= i < s.len() ==> !(#[trigger] reconciled_store(s, now)[i])
                .metadata.status.spec_is_active(),
        forall|i: int|
            0 <= i < s.len() && (#[trigger] s[i]).metadata.status.spec_is_complete()
                ==> reconciled_store(s, now)[i] == s[i],
{
}

/// A record just inserted comes back from a lookup exactly as it went in.
pub proof fn lemma_insert_get_roundtrip(s: Seq<RecordView>, r: RecordView)
    requires
        store_wf(s),
        !has_id(s, r.id),
    ensures
        find_record(
            s.insert(insertion_point(s, r.metadata.created_at), r),
            r.id,
        ) == Some(r),
{
    let p = insertion_point(s, r.metadata.created_at);
    lemma_insertion_point_bounds(s, r.metadata.created_at);
    let s2 = s.insert(p, r);
    lemma_find_index(s, r.id);
    assert forall|j: int| 0 <= j < p implies s2[j].id != r.id by {
        assert(s2[j] == s[j]);
    }
    assert(s2[p] == r);
    lemma_find_index_at(s2, r.id, p);
}

pub proof fn lemma_insertion_point_bounds(s: Seq<RecordView>, t: i64)
    ensures
        0 <= insertion_point(s, t) <= s.len(),
    decreases s.len(),
{
    if s.len() == 0 {
    } else if s[0].metadata.created_at <= t {
    } else {
        lemma_insertion_point_bounds(s.drop_first(), t);
    }
}

/// A generating callback is one whose payload is well formed, names this
/// job, and reports GENERATING.
pub open spec fn generating_event_for(e: GenEventView, id: Seq<char>) -> bool {
    &&& e.id == id
    &&& e.data.status is Generating
    &&& event_wf(e)
}

/// Running a sequence of callbacks, first to last.
pub open spec fn run(c: CoordView, es: Seq<GenEventView>) -> CoordView
    decreases es.len(),
{
    if es.len() == 0 {
        c
    } else {
        run(step(c, es[0]).state, es.drop_first())
    }
}

/// Once a job's generating entry sits in the cache and its record is
/// GENERATING, further generating callbacks for it never touch the store:
/// they are cache-only, and the cache ends at the last callback's data.
pub proof fn lemma_generating_steady(c: CoordView, es: Seq<GenEventView>, id: Seq<char>)
    requires
        coord_wf(c),
        forall|k: int| 0 <= k < es.len() ==> generating_event_for(#[trigger] es[k], id),
        has_id(c.store, id),
        c.store[find_index(c.store, id)].metadata.status is Generating,
        cache_has_generating(c.cache, id),
    ensures
        run(c, es).store == c.store,
        es.len() == 0 ==> run(c, es) == c,
        es.len() > 0 ==> cache_entry(run(c, es).cache, id) == Some(
            CacheEntryView { id: id, data: es.last().data, outputs: es.last().outputs },
        ),
        cache_has_generating(run(c, es).cache, id),
    decreases es.len(),
{
    if es.len() == 0 {
    } else {
        let e = es[0];
        let fi = find_index(c.store, id);
        lemma_find_index(c.store, id);
        let c1 = step(c, e).state;
        // this step is cache-only
        assert(c1.store == c.store);
        assert(step(c, e).outcome == OutcomeView::CachedOnly);
        lemma_step_preserves_wf(c, e);
        // the upserted entry is the event's data, still generating
        let entry = CacheEntryView { id: id, data: e.data, outputs: e.outputs };
        lemma_cache_find_index_facts(c.cache, id);
        let ci = cache_find_index(c.cache, id);
        assert(c1.cache == c.cache.update(ci, entry));
        lemma_cache_update_same_id(c.cache, ci, entry);
        assert(cache_find_index(c1.cache, id) == ci);
        assert(cache_has_generating(c1.cache, id));
        let rest = es.drop_first();
        assert forall|k: int| 0 <= k < rest.len() implies generating_event_for(
            #[trigger] rest[k],
            id,
        ) by {
            assert(rest[k] == es[k + 1]);
        }
        lemma_generating_steady(c1, rest, id);
        assert(run(c, es) == run(c1, rest));
        if rest.len() == 0 {
            assert(run(c1, rest) == c1);
            assert(cache_entry(c1.cache, id) == Some(entry));
            assert(es.last() == e);
        } else {
            assert(rest.last() == es.last());
        }
    }
}

/// Replacing a cache entry with one of the same id does not move the first
/// match.
proof fn lemma_cache_update_same_id(s: Seq<CacheEntryView>, i: int, e: CacheEntryView)
    requires
        0 <= i < s.len(),
        e.id == s[i].id,
        cache_find_index(s, e.id) == i,
    ensures
        cache_find_index(s.update(i, e), e.id) == i,
{
    let s1 = s.update(i, e);
    lemma_cache_find_index_first(s, e.id);
    assert forall|j: int| 0 <= j < i implies s1[j].id != e.id by {
        assert(s1[j] == s[j]);
    }
    lemma_cache_find_index_at(s1, e.id, i);
}

/// No entry before the first match carries the id.
proof fn lemma_cache_find_index_first(s: Seq<CacheEntryView>, id: Seq<char>)
    ensures
        forall|j: int| 0 <= j < cache_find_index(s, id) ==> s[j].id != id,
    decreases s.len(),
{
    if s.len() == 0 {
    } else if s[0].id == id {
    } else {
        let rest = s.drop_first();
        lemma_cache_find_index_first(rest, id);
        lemma_cache_find_index_facts(rest, id);
        let r = cache_find_index(rest, id);
        if r >= 0 {
            assert forall|j: int| 0 <= j < r + 1 implies s[j].id != id by {
                if j > 0 {
                    assert(rest[j - 1] == s[j]);
                }
            }
        }
    }
}

/// Write amplification: N consecutive generating callbacks for one job,
/// starting from a job whose start is not yet persisted, write the store
/// exactly once — on the first callback — while every callback, first and
/// later alike, lands in the cache; the cache ends at the last callback's
/// data.
pub proof fn lemma_write_amplification(c: CoordView, es: Seq<GenEventView>, id: Seq<char>)
    requires
        coord_wf(c),
        es.len() > 0,
        forall|k: int| 0 <= k < es.len() ==> generating_event_for(#[trigger] es[k], id),
        has_id(c.store, id),
        c.store[find_index(c.store, id)].metadata.status.spec_is_active(),
        !cache_has_generating(c.cache, id),
    ensures
        step(c, es[0]).outcome == (OutcomeView::Persisted { load: None }),
        run(c, es).store == step(c, es[0]).state.store,
        cache_entry(run(c, es).cache, id) == Some(
            CacheEntryView { id: id, data: es.last().data, outputs: es.last().outputs },
        ),
{
    let e = es[0];
    let fi = find_index(c.store, id);
    lemma_find_index(c.store, id);
    let rec = c.store[fi];
    let rv = patched_record(rec, e.data, None);
    let c1 = step(c, e).state;
    assert(c1.store == c.store.update(fi, rv));
    lemma_step_preserves_wf(c, e);
    // the persisted record is now generating, and the cache holds a
    // generating entry, so the rest of the callbacks stay in memory
    lemma_find_index_update_same_id(c.store, fi, rv);
    assert(c1.store[find_index(c1.store, id)].metadata.status is Generating);
    let entry = CacheEntryView { id: id, data: e.data, outputs: e.outputs };
    lemma_cache_find_index_facts(c.cache, id);
    let ci = cache_find_index(c.cache, id);
    if ci >= 0 {
        lemma_cache_update_same_id(c.cache, ci, entry);
    } else {
        assert(c1.cache == c.cache.push(entry));
        assert forall|j: int| 0 <= j < c.cache.len() implies c1.cache[j].id != id by {
            assert(c1.cache[j] == c.cache[j]);
        }
        assert(c1.cache[c.cache.len() as int] == entry);
        lemma_cache_find_index_at(c1.cache, id, c.cache.len() as int);
    }
    assert(cache_has_generating(c1.cache, id));
    let rest = es.drop_first();
    assert forall|k: int| 0 <= k < rest.len() implies generating_event_for(
        #[trigger] rest[k],
        id,
    ) by {
        assert(rest[k] == es[k + 1]);
    }
    lemma_generating_steady(c1, rest, id);
    assert(run(c, es) == run(c1, rest));
    if rest.len() == 0 {
        assert(cache_entry(c1.cache, id) == Some(entry));
        assert(es.last() == e);
    } else {
        assert(rest.last() == es.last());
    }
}

} // verus!
