//! The lifecycle coordinator: the single consumer of worker callbacks and
//! UI commands, and the only writer of job state after submission.
//!
//! Its write policy follows the lifecycle: queued records are written at
//! submission; the first generating callback for a job is persisted once,
//! every further one only refreshes the in-memory progress cache; terminal
//! callbacks are always persisted, remove the cache entry, and report the
//! produced asset so the caller can load it. A callback for an unknown id,
//! one whose fields contradict its status, or one that would move a job
//! backwards is dropped. Between two terminal updates the last write wins.

use vstd::prelude::*;

use crate::events::{GenEvent, GenEventView};
use crate::generator::{Generator, JobCreateResponse};
use crate::job::{
    metadata_valid, opt_outputs_view, opt_string_view, JobMetadata, JobOutputs, JobRecord,
    MetaView, OutputsView, RecordView, PROGRESS_SCALE,
};
use crate::model::Model3D;
use crate::status::JobStatus;
use crate::store::{
    find_index, find_record, has_id, insertion_point, patched_record, reconciled_record,
    selected_records, store_wf, StoreError,
};

verus! {

/// One entry of the in-memory progress cache: the latest metadata and
/// outputs seen for a job that is still in flight. Not durable; empty
/// after a restart.
#[derive(Debug, PartialEq)]
pub struct CacheEntry {
    pub id: String,
    pub data: JobMetadata,
    pub outputs: Option<JobOutputs>,
}

pub struct CacheEntryView {
    pub id: Seq<char>,
    pub data: MetaView,
    pub outputs: Option<OutputsView>,
}

impl View for CacheEntry {
    type V = CacheEntryView;

    open spec fn view(&self) -> CacheEntryView {
        CacheEntryView { id: self.id@, data: self.data@, outputs: opt_outputs_view(self.outputs) }
    }
}

impl Clone for CacheEntry {
    fn clone(&self) -> (r: Self)
        ensures
            r@ == self@,
    {
        CacheEntry {
            id: self.id.clone(),
            data: self.data.clone(),
            outputs: crate::job::clone_opt_outputs(&self.outputs),
        }
    }
}

pub open spec fn cache_views(v: Seq<CacheEntry>) -> Seq<CacheEntryView> {
    v.map_values(|e: CacheEntry| e@)
}

/// Index of the first cache entry with the given id, or -1.
pub open spec fn cache_find_index(s: Seq<CacheEntryView>, id: Seq<char>) -> int
    decreases s.len(),
{
    if s.len() == 0 {
        -1
    } else if s[0].id == id {
        0
    } else {
        let rest = cache_find_index(s.drop_first(), id);
        if rest < 0 {
            -1
        } else {
            rest + 1
        }
    }
}

pub open spec fn cache_entry(s: Seq<CacheEntryView>, id: Seq<char>) -> Option<CacheEntryView> {
    let i = cache_find_index(s, id);
    if i >= 0 {
        Some(s[i])
    } else {
        None
    }
}

/// Replace the entry under the id, or append a new one.
pub open spec fn cache_upsert(s: Seq<CacheEntryView>, e: CacheEntryView) -> Seq<CacheEntryView> {
    let i = cache_find_index(s, e.id);
    if i >= 0 {
        s.update(i, e)
    } else {
        s.push(e)
    }
}

/// Drop the entry under the id, if any.
pub open spec fn cache_remove(s: Seq<CacheEntryView>, id: Seq<char>) -> Seq<CacheEntryView> {
    let i = cache_find_index(s, id);
    if i >= 0 {
        s.remove(i)
    } else {
        s
    }
}

/// The job already has a generating entry in the cache, so its start has
/// been persisted and further progress stays in memory.
pub open spec fn cache_has_generating(s: Seq<CacheEntryView>, id: Seq<char>) -> bool {
    let i = cache_find_index(s, id);
    i >= 0 && s[i].data.status is Generating
}

pub proof fn lemma_cache_find_index_at(s: Seq<CacheEntryView>, id: Seq<char>, p: int)
    requires
        0 <= p <= s.len(),
        forall|j: int| 0 <= j < p ==> s[j].id != id,
        p < s.len() ==> s[p].id == id,
    ensures
        p < s.len() ==> cache_find_index(s, id) == p,
        p == s.len() ==> cache_find_index(s, id) == -1,
    decreases s.len(),
{
    if s.len() == 0 {
    } else if p == 0 {
        if s.len() > 0 && s[0].id != id {
            lemma_cache_find_index_at(s.drop_first(), id, 0);
        }
    } else {
        assert forall|j: int| 0 <= j < p - 1 implies s.drop_first()[j].id != id by {
            assert(s.drop_first()[j] == s[j + 1]);
        }
        assert(p - 1 < s.drop_first().len() ==> s.drop_first()[p - 1].id == id) by {
            if p < s.len() {
                assert(s.drop_first()[p - 1] == s[p]);
            }
        }
        lemma_cache_find_index_at(s.drop_first(), id, p - 1);
    }
}

/// Cache well-formedness: one entry per id, every entry for a job that is
/// still in flight, with self-consistent metadata.
pub open spec fn cache_wf(s: Seq<CacheEntryView>) -> bool {
    &&& forall|i: int, j: int| #![trigger s[i], s[j]] 0 <= i < j < s.len() ==> s[i].id != s[j].id
    &&& forall|i: int|
        0 <= i < s.len() ==> (#[trigger] s[i]).data.status.spec_is_active() && metadata_valid(
            s[i].data,
        )
}

/// A callback payload whose fields agree with its status: progress in
/// range, a completion time exactly on terminal statuses, an error text
/// exactly on failure, and outputs exactly on completion.
pub open spec fn event_wf(e: GenEventView) -> bool {
    &&& metadata_valid(e.data)
    &&& ((e.outputs is Some) <==> (e.data.status is Complete))
}

/// The metadata a terminal callback persists: a completed job always lands
/// at full progress; a failed one keeps the progress it reported.
pub open spec fn terminal_meta(m: MetaView) -> MetaView {
    if m.status is Complete {
        MetaView { progress_permille: PROGRESS_SCALE, ..m }
    } else {
        m
    }
}

/// What handling one callback did.
#[derive(Debug, PartialEq)]
pub enum EventOutcome {
    /// Unknown id, a payload at odds with its status, or a status that
    /// would move the job backwards: nothing changed.
    Dropped,
    /// Only the in-memory progress cache changed.
    CachedOnly,
    /// The store was written; on completion, the asset path to load.
    Persisted { load: Option<String> },
}

pub enum OutcomeView {
    Dropped,
    CachedOnly,
    Persisted { load: Option<Seq<char>> },
}

impl View for EventOutcome {
    type V = OutcomeView;

    open spec fn view(&self) -> OutcomeView {
        match self {
            EventOutcome::Dropped => OutcomeView::Dropped,
            EventOutcome::CachedOnly => OutcomeView::CachedOnly,
            EventOutcome::Persisted { load } => OutcomeView::Persisted {
                load: opt_string_view(*load),
            },
        }
    }
}

/// The coordinator's whole state: the persistent store and the progress
/// cache.
pub struct CoordView {
    pub store: Seq<RecordView>,
    pub cache: Seq<CacheEntryView>,
}

pub open spec fn coord_wf(c: CoordView) -> bool {
    &&& store_wf(c.store)
    &&& cache_wf(c.cache)
}

pub struct StepResult {
    pub state: CoordView,
    pub outcome: OutcomeView,
}

/// The transition relation of the coordinator: how one callback moves the
/// store and the cache. `on_gen_event` implements exactly this function.
pub open spec fn step(c: CoordView, e: GenEventView) -> StepResult {
    if !event_wf(e) {
        StepResult { state: c, outcome: OutcomeView::Dropped }
    } else {
        let fi = find_index(c.store, e.id);
        if fi < 0 {
            StepResult { state: c, outcome: OutcomeView::Dropped }
        } else {
            let rec = c.store[fi];
            let entry = CacheEntryView { id: e.id, data: e.data, outputs: e.outputs };
            if !rec.metadata.status.may_advance_to(e.data.status) {
                StepResult { state: c, outcome: OutcomeView::Dropped }
            } else if e.data.status is Queued {
                StepResult {
                    state: CoordView { store: c.store, cache: cache_upsert(c.cache, entry) },
                    outcome: OutcomeView::CachedOnly,
                }
            } else if e.data.status is Generating {
                if cache_has_generating(c.cache, e.id) {
                    StepResult {
                        state: CoordView { store: c.store, cache: cache_upsert(c.cache, entry) },
                        outcome: OutcomeView::CachedOnly,
                    }
                } else {
                    StepResult {
                        state: CoordView {
                            store: c.store.update(fi, patched_record(rec, e.data, None)),
                            cache: cache_upsert(c.cache, entry),
                        },
                        outcome: OutcomeView::Persisted { load: None },
                    }
                }
            } else {
                let outs = if e.data.status is Complete {
                    e.outputs
                } else {
                    None
                };
                let load = if e.data.status is Complete {
                    match e.outputs {
                        Some(o) => Some(o.ply_path),
                        None => None,
                    }
                } else {
                    None
                };
                StepResult {
                    state: CoordView {
                        store: c.store.update(fi, patched_record(rec, terminal_meta(e.data), outs)),
                        cache: cache_remove(c.cache, e.id),
                    },
                    outcome: OutcomeView::Persisted { load },
                }
            }
        }
    }
}

/// Executable check of `event_wf` over a callback's parts.
pub fn check_event(data: &JobMetadata, outputs: &Option<JobOutputs>) -> (r: bool)
    ensures
        r == (metadata_valid(data@) && ((opt_outputs_view(*outputs) is Some) <==> (data.status
            is Complete))),
{
    let progress_ok = data.progress_permille <= PROGRESS_SCALE;
    let terminal = data.status.is_complete();
    let completed_ok = data.completed_at.is_some() == terminal;
    let error_ok = data.error.is_some() == matches!(data.status, JobStatus::Failed);
    let outputs_ok = outputs.is_some() == matches!(data.status, JobStatus::Complete);
    progress_ok && completed_ok && error_ok && outputs_ok
}

/// The single consumer of worker callbacks and UI commands: composes the
/// orchestrator with the in-memory progress cache.
#[derive(Debug)]
pub struct LifecycleCoordinator {
    generator: Generator,
    active_job_progress: Vec<CacheEntry>,
}

impl View for LifecycleCoordinator {
    type V = CoordView;

    closed spec fn view(&self) -> CoordView {
        CoordView { store: self.generator@, cache: cache_views(self.active_job_progress@) }
    }
}

impl LifecycleCoordinator {
    pub open spec fn wf(&self) -> bool {
        coord_wf(self@)
    }

    /// A coordinator over an empty store, with an empty cache.
    pub fn new() -> (r: Self)
        ensures
            r@.store == Seq::<RecordView>::empty(),
            r@.cache == Seq::<CacheEntryView>::empty(),
            r.wf(),
    {
        let r = LifecycleCoordinator {
            generator: Generator::new(),
            active_job_progress: Vec::new(),
        };
        proof {
            assert(r@.cache =~= Seq::<CacheEntryView>::empty());
        }
        r
    }

    /// A coordinator over an already loaded orchestrator; the cache starts
    /// empty, as after any restart.
    pub fn from_generator(generator: Generator) -> (r: Self)
        requires
            generator.wf(),
        ensures
            r@.store == generator@,
            r@.cache == Seq::<CacheEntryView>::empty(),
            r.wf(),
    {
        let r = LifecycleCoordinator { generator, active_job_progress: Vec::new() };
        proof {
            assert(r@.cache =~= Seq::<CacheEntryView>::empty());
        }
        r
    }

    fn cache_pos(&self, id: &String) -> (r: Option<usize>)
        ensures
            match r {
                Some(i) => i < self@.cache.len() && cache_find_index(self@.cache, id@) == i,
                None => cache_find_index(self@.cache, id@) == -1,
            },
    {
        let n = self.active_job_progress.len();
        let mut i: usize = 0;
        while i < n
            invariant
                i <= n,
                n == self.active_job_progress.len(),
                forall|j: int| 0 <= j < i ==> self@.cache[j].id != id@,
            decreases n - i,
        {
            if self.active_job_progress[i].id == *id {
                proof {
                    lemma_cache_find_index_at(self@.cache, id@, i as int);
                }
                return Some(i);
            }
            i = i + 1;
        }
        proof {
            lemma_cache_find_index_at(self@.cache, id@, n as int);
        }
        None
    }

    /// Replace or add the cache entry for `id`; the store is untouched.
    fn upsert_progress(&mut self, id: String, data: JobMetadata, outputs: Option<JobOutputs>)
        ensures
            final(self)@.store == old(self)@.store,
            final(self)@.cache == cache_upsert(
                old(self)@.cache,
                CacheEntryView { id: id@, data: data@, outputs: opt_outputs_view(outputs) },
            ),
    {
        let entry = CacheEntry { id, data, outputs };
        let ghost ev = entry@;
        match self.cache_pos(&entry.id) {
            Some(i) => {
                let _ = self.active_job_progress.remove(i);
                self.active_job_progress.insert(i, entry);
                proof {
                    assert(self@.cache =~= old(self)@.cache.update(i as int, ev));
                }
            },
            None => {
                let ghost pre = self.active_job_progress@;
                self.active_job_progress.push(entry);
                proof {
                    assert(cache_views(pre).len() == pre.len());
                    assert(self@.cache =~= old(self)@.cache.push(ev));
                }
            },
        }
    }

    /// Drop the cache entry for `id`, if any; the store is untouched.
    fn remove_progress(&mut self, id: &String)
        ensures
            final(self)@.store == old(self)@.store,
            final(self)@.cache == cache_remove(old(self)@.cache, id@),
    {
        match self.cache_pos(id) {
            Some(i) => {
                let _ = self.active_job_progress.remove(i);
                proof {
                    assert(self@.cache =~= old(self)@.cache.remove(i as int));
                }
            },
            None => {},
        }
    }

    /// Whether the cache already holds a generating entry for `id`.
    fn has_generating(&self, id: &String) -> (r: bool)
        ensures
            r == cache_has_generating(self@.cache, id@),
    {
        match self.cache_pos(id) {
            Some(i) => matches!(self.active_job_progress[i].data.status, JobStatus::Generating),
            None => false,
        }
    }

    /// The latest cached progress for `id`, if the job is in flight.
    pub fn cached_progress(&self, id: &String) -> (r: Option<CacheEntry>)
        ensures
            match r {
                Some(e) => cache_entry(self@.cache, id@) == Some(e@),
                None => cache_entry(self@.cache, id@) is None,
            },
    {
        match self.cache_pos(id) {
            Some(i) => Some(self.active_job_progress[i].clone()),
            None => None,
        }
    }

    /// How many jobs the cache is tracking.
    pub fn active_progress_count(&self) -> (r: usize)
        ensures
            r == self@.cache.len(),
    {
        self.active_job_progress.len()
    }

    /// Record an acknowledged submission; see `Generator::submit_acked`.
    /// The cache is untouched: a queued job has reported no progress yet.
    pub fn submit(
        &mut self,
        resp: JobCreateResponse,
        prompt: String,
        model: Model3D,
        now: i64,
    ) -> (r: Result<(), StoreError>)
        requires
            old(self).wf(),
        ensures
            final(self).wf(),
            final(self)@.cache == old(self)@.cache,
            match r {
                Ok(()) => !has_id(old(self)@.store, resp.id@) && final(self)@.store == old(self)@.store.insert(
                    insertion_point(old(self)@.store, now),
                    crate::generator::submitted_record(
                        resp.id@,
                        prompt@,
                        model,
                        opt_string_view(resp.message),
                        now,
                    ),
                ),
                Err(StoreError::DuplicateId) => has_id(old(self)@.store, resp.id@) && final(self)@.store == old(self)@.store,
                Err(StoreError::NotFound) => false,
            },
    {
        self.generator.submit_acked(resp, prompt, model, now)
    }

    /// Delete the local record for `id`; see `Generator::remove_job`.
    pub fn remove_job(&mut self, id: String)
        requires
            old(self).wf(),
        ensures
            final(self).wf(),
            final(self)@.cache == old(self)@.cache,
            has_id(old(self)@.store, id@) ==> final(self)@.store == old(self)@.store.remove(
                find_index(old(self)@.store, id@),
            ),
            !has_id(old(self)@.store, id@) ==> final(self)@.store == old(self)@.store,
    {
        self.generator.remove_job(id)
    }

    /// Delete every terminal record; see `Generator::clear_completed`.
    pub fn clear_completed(&mut self)
        requires
            old(self).wf(),
        ensures
            final(self).wf(),
            final(self)@.cache == old(self)@.cache,
            final(self)@.store == selected_records(old(self)@.store, false),
    {
        self.generator.clear_completed()
    }

    /// Startup recovery; see `JobStore::reconcile`. Runs before any
    /// callback is consumed.
    pub fn reconcile(&mut self, now: i64)
        requires
            old(self).wf(),
        ensures
            final(self).wf(),
            final(self)@.cache == old(self)@.cache,
            final(self)@.store == old(self)@.store.map_values(
                |r: RecordView| reconciled_record(r, now),
            ),
    {
        self.generator.reconcile(now)
    }

    /// All records, newest first.
    pub fn get_jobs(&self) -> (r: Vec<JobRecord>)
        ensures
            crate::store::views_of(r@) == self@.store,
    {
        self.generator.get_jobs()
    }

    /// Look a record up by id.
    pub fn get_job(&self, job_id: String) -> (r: Option<JobRecord>)
        ensures
            match r {
                Some(rec) => find_record(self@.store, job_id@) == Some(rec@),
                None => find_record(self@.store, job_id@) is None,
            },
    {
        self.generator.get_job(job_id)
    }

    /// The asset path to load for a completed job, if it has outputs.
    pub fn scene_path_for(&self, id: String) -> (r: Option<String>)
        ensures
            match r {
                Some(p) => match find_record(self@.store, id@) {
                    Some(rec) => rec.outputs == Some(OutputsView { ply_path: p@ }),
                    None => false,
                },
                None => match find_record(self@.store, id@) {
                    Some(rec) => rec.outputs is None,
                    None => true,
                },
            },
    {
        match self.generator.get_job(id) {
            Some(rec) => match rec.outputs {
                Some(o) => Some(o.ply_path),
                None => None,
            },
            None => None,
        }
    }

    /// Handle one worker callback under the lifecycle's write policy; the
    /// state moves exactly as `step` says, and the outcome reports whether
    /// the store was written and what to load.
    pub fn on_gen_event(&mut self, event: GenEvent) -> (r: EventOutcome)
        requires
            old(self).wf(),
        ensures
            final(self).wf(),
            final(self)@ == step(old(self)@, event@).state,
            r@ == step(old(self)@, event@).outcome,
    {
        let GenEvent::JobStatus { id, data, outputs } = event;
        if !check_event(&data, &outputs) {
            return EventOutcome::Dropped;
        }
        let existing = match self.generator.get_job(id.clone()) {
            Some(rec) => rec,
            None => {
                return EventOutcome::Dropped;
            },
        };
        if !existing.metadata.status.may_advance(&data.status) {
            return EventOutcome::Dropped;
        }
        match data.status {
            JobStatus::Queued => {
                self.upsert_progress(id, data, outputs);
                proof {
                    lemma_cache_upsert_wf(
                        old(self)@.cache,
                        step(old(self)@, event@).state.cache,
                        event@,
                    );
                }
                EventOutcome::CachedOnly
            },
            JobStatus::Generating => {
                if self.has_generating(&id) {
                    self.upsert_progress(id, data, outputs);
                    proof {
                        lemma_cache_upsert_wf(
                            old(self)@.cache,
                            step(old(self)@, event@).state.cache,
                            event@,
                        );
                    }
                    EventOutcome::CachedOnly
                } else {
                    let res = self.generator.update_job_status(id.clone(), data.clone(), None);
                    if res.is_err() {
                        // the record was found above, so the update cannot miss
                        proof {
                            assert(false);
                        }
                        return EventOutcome::Dropped;
                    }
                    self.upsert_progress(id, data, outputs);
                    proof {
                        lemma_cache_upsert_wf(
                            old(self)@.cache,
                            step(old(self)@, event@).state.cache,
                            event@,
                        );
                    }
                    EventOutcome::Persisted { load: None }
                }
            },
            JobStatus::Complete => {
                let load = match &outputs {
                    Some(o) => Some(o.ply_path.clone()),
                    None => None,
                };
                let m = JobMetadata {
                    status: JobStatus::Complete,
                    progress_permille: PROGRESS_SCALE,
                    message: data.message,
                    error: data.error,
                    created_at: data.created_at,
                    updated_at: data.updated_at,
                    completed_at: data.completed_at,
                };
                let res = self.generator.update_job_status(id.clone(), m, outputs);
                if res.is_err() {
                    // the record was found above, so the update cannot miss
                    proof {
                        assert(false);
                    }
                    return EventOutcome::Dropped;
                }
                self.remove_progress(&id);
                proof {
                    lemma_cache_remove_wf(old(self)@.cache, id@);
                }
                EventOutcome::Persisted { load }
            },
            JobStatus::Failed => {
                let res = self.generator.update_job_status(id.clone(), data, None);
                if res.is_err() {
                    // the record was found above, so the update cannot miss
                    proof {
                        assert(false);
                    }
                    return EventOutcome::Dropped;
                }
                self.remove_progress(&id);
                proof {
                    lemma_cache_remove_wf(old(self)@.cache, id@);
                }
                EventOutcome::Persisted { load: None }
            },
        }
    }
}

/// Upserting a well-formed in-flight entry keeps the cache well formed.
pub proof fn lemma_cache_upsert_wf(s: Seq<CacheEntryView>, s1: Seq<CacheEntryView>, e: GenEventView)
    requires
        cache_wf(s),
        event_wf(e),
        e.data.status.spec_is_active(),
        s1 == cache_upsert(s, CacheEntryView { id: e.id, data: e.data, outputs: e.outputs }),
    ensures
        cache_wf(s1),
{
    let entry = CacheEntryView { id: e.id, data: e.data, outputs: e.outputs };
    let i = cache_find_index(s, e.id);
    lemma_cache_find_index_facts(s, e.id);
    if i >= 0 {
        assert forall|a: int, b: int|
            #![trigger s1[a], s1[b]]
            0 <= a < b < s1.len() implies s1[a].id != s1[b].id by {
            assert(s1[a].id == s[a].id && s1[b].id == s[b].id);
        }
        assert forall|k: int| 0 <= k < s1.len() implies (#[trigger] s1[k]).data.status.spec_is_active()
            && metadata_valid(s1[k].data) by {
            if k != i {
                assert(s1[k] == s[k]);
            }
        }
    } else {
        assert forall|a: int, b: int|
            #![trigger s1[a], s1[b]]
            0 <= a < b < s1.len() implies s1[a].id != s1[b].id by {
            if b == s.len() {
                assert(s1[a] == s[a]);
                assert(s[a].id != e.id);
            } else {
                assert(s1[a] == s[a] && s1[b] == s[b]);
            }
        }
        assert forall|k: int| 0 <= k < s1.len() implies (#[trigger] s1[k]).data.status.spec_is_active()
            && metadata_valid(s1[k].data) by {
            if k < s.len() {
                assert(s1[k] == s[k]);
            } else {
                assert(s1[k] == entry);
            }
        }
    }
}

/// Dropping an entry keeps the cache well formed.
pub proof fn lemma_cache_remove_wf(s: Seq<CacheEntryView>, id: Seq<char>)
    requires
        cache_wf(s),
    ensures
        cache_wf(cache_remove(s, id)),
{
    let i = cache_find_index(s, id);
    lemma_cache_find_index_facts(s, id);
    if i >= 0 {
        let s1 = s.remove(i);
        assert forall|a: int, b: int|
            #![trigger s1[a], s1[b]]
            0 <= a < b < s1.len() implies s1[a].id != s1[b].id by {
            let a0 = if a < i { a } else { a + 1 };
            let b0 = if b < i { b } else { b + 1 };
            assert(s1[a] == s[a0] && s1[b] == s[b0]);
        }
        assert forall|k: int| 0 <= k < s1.len() implies (#[trigger] s1[k]).data.status.spec_is_active()
            && metadata_valid(s1[k].data) by {
            let k0 = if k < i { k } else { k + 1 };
            assert(s1[k] == s[k0]);
        }
    }
}

/// Bounds and meaning of `cache_find_index`.
pub proof fn lemma_cache_find_index_facts(s: Seq<CacheEntryView>, id: Seq<char>)
    ensures
        -1 <= cache_find_index(s, id) < s.len(),
        cache_find_index(s, id) >= 0 ==> s[cache_find_index(s, id)].id == id,
        cache_find_index(s, id) == -1 ==> forall|i: int| 0 <= i < s.len() ==> s[i].id != id,
    decreases s.len(),
{
    if s.len() == 0 {
    } else if s[0].id == id {
    } else {
        let rest = s.drop_first();
        lemma_cache_find_index_facts(rest, id);
        let r = cache_find_index(rest, id);
        if r < 0 {
            assert forall|i: int| 0 <= i < s.len() implies s[i].id != id by {
                if i > 0 {
                    assert(rest[i - 1] == s[i]);
                }
            }
        } else {
            assert(s[r + 1] == rest[r]);
        }
    }
}

} // verus!
