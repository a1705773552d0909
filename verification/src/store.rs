//! The job store: keyed records with derived views, held newest first.
//!
//! The store keeps every record valid (outputs exactly on completion, an
//! error text exactly on failure), keeps ids unique, and keeps the listing
//! ordered by creation time, newest first. Updates never touch a record's
//! creation time, so the order is stable.

use vstd::prelude::*;

use crate::job::{
    metadata_valid, opt_outputs_view, record_valid, Job, JobMetadata, JobOutputs, JobRecord,
    MetaView, OutputsView, RecordView, PROGRESS_SCALE,
};
use crate::status::JobStatus;

verus! {

/// Failures of store operations.
#[derive(Clone, Copy, Debug, PartialEq, Eq, Structural)]
pub enum StoreError {
    /// An insert found a record under the same id.
    DuplicateId,
    /// An update addressed an id with no record.
    NotFound,
}

pub open spec fn views_of(v: Seq<JobRecord>) -> Seq<RecordView> {
    v.map_values(|r: JobRecord| r@)
}

pub open spec fn all_valid(s: Seq<RecordView>) -> bool {
    forall|i: int| 0 <= i < s.len() ==> record_valid(#[trigger] s[i])
}

pub open spec fn ids_unique(s: Seq<RecordView>) -> bool {
    forall|i: int, j: int| #![trigger s[i], s[j]] 0 <= i < j < s.len() ==> s[i].id != s[j].id
}

pub open spec fn sorted_newest_first(s: Seq<RecordView>) -> bool {
    forall|i: int, j: int|
        #![trigger s[i], s[j]]
        0 <= i <= j < s.len() ==> s[i].metadata.created_at >= s[j].metadata.created_at
}

/// Well-formedness of the stored sequence of records.
pub open spec fn store_wf(s: Seq<RecordView>) -> bool {
    &&& all_valid(s)
    &&& ids_unique(s)
    &&& sorted_newest_first(s)
}

/// Index of the first record with the given id, or -1.
pub open spec fn find_index(s: Seq<RecordView>, id: Seq<char>) -> int
    decreases s.len(),
{
    if s.len() == 0 {
        -1
    } else if s[0].id == id {
        0
    } else {
        let rest = find_index(s.drop_first(), id);
        if rest < 0 {
            -1
        } else {
            rest + 1
        }
    }
}

pub open spec fn has_id(s: Seq<RecordView>, id: Seq<char>) -> bool {
    find_index(s, id) >= 0
}

pub open spec fn find_record(s: Seq<RecordView>, id: Seq<char>) -> Option<RecordView> {
    if has_id(s, id) {
        Some(s[find_index(s, id)])
    } else {
        None
    }
}

/// Where a record created at time `t` belongs: before the first record that
/// is not newer than `t`.
pub open spec fn insertion_point(s: Seq<RecordView>, t: i64) -> int
    decreases s.len(),
{
    if s.len() == 0 {
        0
    } else if s[0].metadata.created_at <= t {
        0
    } else {
        1 + insertion_point(s.drop_first(), t)
    }
}

pub proof fn lemma_find_index(s: Seq<RecordView>, id: Seq<char>)
    ensures
        -1 <= find_index(s, id) < s.len(),
        find_index(s, id) >= 0 ==> s[find_index(s, id)].id == id,
        find_index(s, id) == -1 ==> forall|i: int| 0 <= i < s.len() ==> s[i].id != id,
        forall|j: int| 0 <= j < find_index(s, id) ==> s[j].id != id,
    decreases s.len(),
{
    if s.len() == 0 {
    } else if s[0].id == id {
    } else {
        let rest = s.drop_first();
        lemma_find_index(rest, id);
        let r = find_index(rest, id);
        if r < 0 {
            assert forall|i: int| 0 <= i < s.len() implies s[i].id != id by {
                if i > 0 {
                    assert(rest[i - 1] == s[i]);
                }
            }
        } else {
            assert(s[r + 1] == rest[r]);
            assert forall|j: int| 0 <= j < r + 1 implies s[j].id != id by {
                if j > 0 {
                    assert(rest[j - 1] == s[j]);
                }
            }
        }
    }
}

/// With no match before `p` and a match at `p` (if `p` is in range), the
/// first match sits exactly at `p`; with no match at all, there is none.
pub proof fn lemma_find_index_at(s: Seq<RecordView>, id: Seq<char>, p: int)
    requires
        0 <= p <= s.len(),
        forall|j: int| 0 <= j < p ==> s[j].id != id,
        p < s.len() ==> s[p].id == id,
    ensures
        p < s.len() ==> find_index(s, id) == p,
        p == s.len() ==> find_index(s, id) == -1,
    decreases s.len(),
{
    if s.len() == 0 {
    } else if p == 0 {
        if s.len() > 0 && s[0].id != id {
            lemma_find_index_at(s.drop_first(), id, 0);
        }
    } else {
        assert(s[0].id != id);
        assert forall|j: int| 0 <= j < p - 1 implies s.drop_first()[j].id != id by {
            assert(s.drop_first()[j] == s[j + 1]);
        }
        assert(p - 1 < s.drop_first().len() ==> s.drop_first()[p - 1].id == id) by {
            if p < s.len() {
                assert(s.drop_first()[p - 1] == s[p]);
            }
        }
        lemma_find_index_at(s.drop_first(), id, p - 1);
    }
}

pub proof fn lemma_insertion_point_at(s: Seq<RecordView>, t: i64, p: int)
    requires
        0 <= p <= s.len(),
        forall|j: int| 0 <= j < p ==> s[j].metadata.created_at > t,
        p < s.len() ==> s[p].metadata.created_at <= t,
    ensures
        insertion_point(s, t) == p,
    decreases s.len(),
{
    if s.len() == 0 {
    } else if s[0].metadata.created_at <= t {
        assert(p == 0);
    } else {
        assert forall|j: int| 0 <= j < p - 1 implies s.drop_first()[j].metadata.created_at > t by {
            assert(s.drop_first()[j] == s[j + 1]);
        }
        assert(p - 1 < s.drop_first().len() ==> s.drop_first()[p - 1].metadata.created_at <= t)
            by {
            if p < s.len() {
                assert(s.drop_first()[p - 1] == s[p]);
            }
        }
        lemma_insertion_point_at(s.drop_first(), t, p - 1);
    }
}

/// The records whose terminal flag matches `completed`, in store order.
pub open spec fn selected_records(s: Seq<RecordView>, completed: bool) -> Seq<RecordView> {
    s.filter(|r: RecordView| r.metadata.status.spec_is_complete() == completed)
}

/// A full update leaves id, inputs and creation time alone, replaces the
/// rest of the metadata, and replaces the outputs outright.
pub open spec fn patched_record(r: RecordView, m: MetaView, o: Option<OutputsView>) -> RecordView {
    RecordView {
        metadata: MetaView { created_at: r.metadata.created_at, ..m },
        outputs: o,
        ..r
    }
}

/// A partial status update: status, progress and message replaced, the
/// update time refreshed, everything else kept.
pub open spec fn status_merged_record(
    r: RecordView,
    status: JobStatus,
    progress_permille: u32,
    message: Option<Seq<char>>,
    now: i64,
) -> RecordView {
    RecordView {
        metadata: MetaView {
            status: status,
            progress_permille: progress_permille,
            message: message,
            updated_at: now,
            ..r.metadata
        },
        ..r
    }
}

/// A completed record: full progress, outputs set, any old error cleared.
pub open spec fn completed_record(r: RecordView, ply_path: Seq<char>, now: i64) -> RecordView {
    RecordView {
        metadata: MetaView {
            status: JobStatus::Complete,
            progress_permille: PROGRESS_SCALE,
            error: None,
            updated_at: now,
            completed_at: Some(now),
            ..r.metadata
        },
        outputs: Some(OutputsView { ply_path: ply_path }),
        ..r
    }
}

/// A failed record: error text set, outputs cleared, progress kept.
pub open spec fn failed_record(r: RecordView, error: Seq<char>, now: i64) -> RecordView {
    RecordView {
        metadata: MetaView {
            status: JobStatus::Failed,
            error: Some(error),
            updated_at: now,
            completed_at: Some(now),
            ..r.metadata
        },
        outputs: None,
        ..r
    }
}

/// What the startup reconciler makes of a record: a job still marked active
/// can no longer be resolved, so it becomes failed with a fixed message;
/// terminal records are untouched.
pub open spec fn reconciled_record(r: RecordView, now: i64) -> RecordView {
    if r.metadata.status.spec_is_active() {
        RecordView {
            metadata: MetaView {
                status: JobStatus::Failed,
                error: Some("Job interrupted by application shutdown"@),
                updated_at: now,
                completed_at: Some(now),
                ..r.metadata
            },
            outputs: None,
            ..r
        }
    } else {
        r
    }
}

/// A whole store after startup reconciliation.
pub open spec fn reconciled_store(s: Seq<RecordView>, now: i64) -> Seq<RecordView> {
    s.map_values(|r: RecordView| reconciled_record(r, now))
}

/// Replacing one record with another of the same id and creation time keeps
/// the store well formed, as long as the new record is valid.
pub proof fn lemma_wf_update(s: Seq<RecordView>, i: int, r: RecordView)
    requires
        store_wf(s),
        0 <= i < s.len(),
        record_valid(r),
        r.id == s[i].id,
        r.metadata.created_at == s[i].metadata.created_at,
    ensures
        store_wf(s.update(i, r)),
{
    let s1 = s.update(i, r);
    assert forall|k: int| 0 <= k < s1.len() implies record_valid(#[trigger] s1[k]) by {
        if k != i {
            assert(s1[k] == s[k]);
        }
    }
    assert forall|a: int, b: int|
        #![trigger s1[a], s1[b]]
        0 <= a < b < s1.len() implies s1[a].id != s1[b].id by {
        assert(s1[a].id == s[a].id && s1[b].id == s[b].id);
    }
    assert forall|a: int, b: int|
        #![trigger s1[a], s1[b]]
        0 <= a <= b < s1.len() implies s1[a].metadata.created_at
        >= s1[b].metadata.created_at by {
        assert(s1[a].metadata.created_at == s[a].metadata.created_at);
        assert(s1[b].metadata.created_at == s[b].metadata.created_at);
    }
}

pub proof fn lemma_wf_remove(s: Seq<RecordView>, i: int)
    requires
        store_wf(s),
        0 <= i < s.len(),
    ensures
        store_wf(s.remove(i)),
{
    let s1 = s.remove(i);
    assert forall|k: int| 0 <= k < s1.len() implies record_valid(#[trigger] s1[k]) by {
        if k < i {
            assert(s1[k] == s[k]);
        } else {
            assert(s1[k] == s[k + 1]);
        }
    }
    assert forall|a: int, b: int|
        #![trigger s1[a], s1[b]]
        0 <= a < b < s1.len() implies s1[a].id != s1[b].id by {
        let a0 = if a < i { a } else { a + 1 };
        let b0 = if b < i { b } else { b + 1 };
        assert(s1[a] == s[a0] && s1[b] == s[b0]);
    }
    assert forall|a: int, b: int|
        #![trigger s1[a], s1[b]]
        0 <= a <= b < s1.len() implies s1[a].metadata.created_at
        >= s1[b].metadata.created_at by {
        let a0 = if a < i { a } else { a + 1 };
        let b0 = if b < i { b } else { b + 1 };
        assert(s1[a] == s[a0] && s1[b] == s[b0]);
    }
}

pub proof fn lemma_filter_push<A>(s: Seq<A>, x: A, pred: spec_fn(A) -> bool)
    ensures
        s.push(x).filter(pred) == (if pred(x) {
            s.filter(pred).push(x)
        } else {
            s.filter(pred)
        }),
{
    reveal(Seq::filter);
    assert(s.push(x).drop_last() =~= s);
    assert(s.push(x).last() == x);
}

/// Keeping a subset of a well-formed store in order keeps it well formed;
/// every kept record comes from the original sequence.
pub proof fn lemma_selected_wf(s: Seq<RecordView>, completed: bool)
    requires
        store_wf(s),
    ensures
        store_wf(selected_records(s, completed)),
        forall|k: int|
            0 <= k < selected_records(s, completed).len() ==> s.contains(
                #[trigger] selected_records(s, completed)[k],
            ),
    decreases s.len(),
{
    reveal(Seq::filter);
    let out = selected_records(s, completed);
    if s.len() == 0 {
        assert(out =~= Seq::<RecordView>::empty());
    } else {
        let d = s.drop_last();
        let last = s.last();
        assert forall|k: int| 0 <= k < d.len() implies record_valid(#[trigger] d[k]) by {
            assert(d[k] == s[k]);
        }
        assert forall|a: int, b: int|
            #![trigger d[a], d[b]]
            0 <= a < b < d.len() implies d[a].id != d[b].id by {
            assert(d[a] == s[a] && d[b] == s[b]);
        }
        assert forall|a: int, b: int|
            #![trigger d[a], d[b]]
            0 <= a <= b < d.len() implies d[a].metadata.created_at
            >= d[b].metadata.created_at by {
            assert(d[a] == s[a] && d[b] == s[b]);
        }
        lemma_selected_wf(d, completed);
        let outd = selected_records(d, completed);
        assert forall|k: int| 0 <= k < outd.len() implies d.contains(outd[k]) && s.contains(
            #[trigger] outd[k],
        ) by {
            let w = choose|w: int| 0 <= w < d.len() && d[w] == outd[k];
            assert(s[w] == outd[k]);
        }
        if last.metadata.status.spec_is_complete() == completed {
            assert(out == outd.push(last));
            assert(s.contains(last)) by {
                assert(s[s.len() - 1] == last);
            }
            assert forall|k: int| 0 <= k < out.len() implies s.contains(#[trigger] out[k]) by {
                if k < outd.len() {
                    assert(out[k] == outd[k]);
                }
            }
            assert forall|k: int| 0 <= k < out.len() implies record_valid(#[trigger] out[k]) by {
                let w = choose|w: int| 0 <= w < s.len() && s[w] == out[k];
            }
            assert forall|a: int, b: int|
                #![trigger out[a], out[b]]
                0 <= a < b < out.len() implies out[a].id != out[b].id by {
                if b < outd.len() {
                    assert(out[a] == outd[a] && out[b] == outd[b]);
                } else {
                    assert(out[b] == last);
                    assert(d.contains(outd[a]));
                    let w = choose|w: int| 0 <= w < d.len() && d[w] == outd[a];
                    assert(s[w] == out[a]);
                    assert(s[s.len() - 1] == last);
                }
            }
            assert forall|a: int, b: int|
                #![trigger out[a], out[b]]
                0 <= a <= b < out.len() implies out[a].metadata.created_at
                >= out[b].metadata.created_at by {
                if b < outd.len() {
                    assert(out[a] == outd[a] && out[b] == outd[b]);
                } else if a < outd.len() {
                    assert(out[b] == last);
                    assert(d.contains(outd[a]));
                    let w = choose|w: int| 0 <= w < d.len() && d[w] == outd[a];
                    assert(s[w] == out[a]);
                    assert(s[s.len() - 1] == last);
                }
            }
        } else {
            assert(out == outd);
        }
    }
}

/// Executable check of `record_valid`.
fn record_valid_exec(rec: &JobRecord) -> (r: bool)
    ensures
        r == record_valid(rec@),
{
    let progress_ok = rec.metadata.progress_permille <= PROGRESS_SCALE;
    let terminal = rec.metadata.status.is_complete();
    let completed_ok = rec.metadata.completed_at.is_some() == terminal;
    let error_ok = rec.metadata.error.is_some() == matches!(rec.metadata.status, JobStatus::Failed);
    let outputs_ok = rec.outputs.is_some() == matches!(rec.metadata.status, JobStatus::Complete);
    progress_ok && completed_ok && error_ok && outputs_ok
}

/// The durable keyed store of job records, newest first.
#[derive(Debug)]
pub struct JobStore {
    records: Vec<JobRecord>,
}

impl View for JobStore {
    type V = Seq<RecordView>;

    closed spec fn view(&self) -> Seq<RecordView> {
        views_of(self.records@)
    }
}

impl JobStore {
    pub open spec fn wf(&self) -> bool {
        store_wf(self@)
    }

    /// An empty store.
    pub fn new() -> (r: Self)
        ensures
            r@ == Seq::<RecordView>::empty(),
            r.wf(),
    {
        let r = JobStore { records: Vec::new() };
        proof {
            assert(r@ =~= Seq::<RecordView>::empty());
        }
        r
    }

    /// How many records the store holds.
    pub fn len(&self) -> (r: usize)
        ensures
            r == self@.len(),
    {
        self.records.len()
    }

    fn find_pos(&self, id: &String) -> (r: Option<usize>)
        ensures
            match r {
                Some(i) => i < self@.len() && find_index(self@, id@) == i,
                None => find_index(self@, id@) == -1,
            },
    {
        let n = self.records.len();
        let mut i: usize = 0;
        while i < n
            invariant
                i <= n,
                n == self.records.len(),
                forall|j: int| 0 <= j < i ==> self@[j].id != id@,
            decreases n - i,
        {
            if self.records[i].id == *id {
                proof {
                    lemma_find_index_at(self@, id@, i as int);
                }
                return Some(i);
            }
            i = i + 1;
        }
        proof {
            lemma_find_index_at(self@, id@, n as int);
        }
        None
    }

    /// Build a store from records loaded from durable storage; refused
    /// exactly when they do not form a well-formed store (an invalid
    /// record, a duplicate id, or records out of order).
    pub fn from_records(records: Vec<JobRecord>) -> (r: Option<JobStore>)
        ensures
            match r {
                Some(st) => st@ == views_of(records@) && st.wf(),
                None => !store_wf(views_of(records@)),
            },
    {
        let ghost s = views_of(records@);
        proof {
            assert(s.len() == records@.len());
        }
        let n = records.len();
        let mut i: usize = 0;
        while i < n
            invariant
                i <= n,
                n == records.len(),
                s == views_of(records@),
                s.len() == n,
                forall|j: int| 0 <= j < i ==> record_valid(#[trigger] s[j]),
            decreases n - i,
        {
            if !record_valid_exec(&records[i]) {
                proof {
                    assert(!record_valid(s[i as int]));
                }
                return None;
            }
            i = i + 1;
        }
        let mut a: usize = 0;
        while a + 1 < n
            invariant
                n == records.len(),
                s == views_of(records@),
                s.len() == n,
                n == 0 ==> a == 0,
                n > 0 ==> a < n,
                forall|p: int, q: int|
                    #![trigger s[p], s[q]]
                    0 <= p <= q <= a && q < n ==> s[p].metadata.created_at
                        >= s[q].metadata.created_at,
            decreases n - a,
        {
            if records[a].metadata.created_at < records[a + 1].metadata.created_at {
                proof {
                    assert(s[a as int].metadata.created_at < s[a + 1].metadata.created_at);
                }
                return None;
            }
            a = a + 1;
        }
        let mut x: usize = 0;
        while x < n
            invariant
                x <= n,
                n == records.len(),
                s == views_of(records@),
                s.len() == n,
                forall|p: int, q: int|
                    #![trigger s[p], s[q]]
                    0 <= p < q < n && p < x ==> s[p].id != s[q].id,
            decreases n - x,
        {
            let mut y: usize = x + 1;
            while y < n
                invariant
                    x < y,
                    y <= n,
                    x < n,
                    n == records.len(),
                    s == views_of(records@),
                    s.len() == n,
                    forall|q: int| x < q < y ==> s[x as int].id != #[trigger] s[q].id,
                decreases n - y,
            {
                if records[x].id == records[y].id {
                    proof {
                        assert(s[x as int].id == s[y as int].id);
                    }
                    return None;
                }
                y = y + 1;
            }
            x = x + 1;
        }
        Some(JobStore { records })
    }

    /// Look a record up by id; the returned copy matches the stored one.
    pub fn get_job(&self, job_id: String) -> (r: Option<JobRecord>)
        ensures
            match r {
                Some(rec) => find_record(self@, job_id@) == Some(rec@),
                None => find_record(self@, job_id@) is None,
            },
    {
        match self.find_pos(&job_id) {
            Some(i) => Some(self.records[i].clone()),
            None => None,
        }
    }

    /// Insert a new job under `id`; refused with `DuplicateId` when a record
    /// with that id exists. The record lands at its place in the
    /// newest-first order and comes back from `get_job` exactly as given.
    pub fn insert_job(&mut self, id: String, job: Job) -> (r: Result<(), StoreError>)
        requires
            old(self).wf(),
            record_valid(job.as_record_view(id@)),
        ensures
            final(self).wf(),
            match r {
                Ok(()) => !has_id(old(self)@, id@) && final(self)@ == old(self)@.insert(
                    insertion_point(old(self)@, job.metadata.created_at),
                    job.as_record_view(id@),
                ),
                Err(StoreError::DuplicateId) => has_id(old(self)@, id@) && final(self)@ == old(self)@,
                Err(StoreError::NotFound) => false,
            },
    {
        match self.find_pos(&id) {
            Some(_) => {
                return Err(StoreError::DuplicateId);
            },
            None => {},
        }
        let ghost s0 = self@;
        let t = job.metadata.created_at;
        let n = self.records.len();
        let mut p: usize = 0;
        while p < n && self.records[p].metadata.created_at > t
            invariant
                p <= n,
                n == self.records.len(),
                self@ == s0,
                forall|j: int| 0 <= j < p ==> self@[j].metadata.created_at > t,
            decreases n - p,
        {
            p = p + 1;
        }
        proof {
            lemma_insertion_point_at(s0, t, p as int);
        }
        let Job { inputs, metadata, outputs } = job;
        let rec = JobRecord { id, inputs, metadata, outputs };
        let ghost rv = rec@;
        self.records.insert(p, rec);
        proof {
            lemma_find_index(s0, rv.id);
            assert(self@ =~= s0.insert(p as int, rv));
            let s1 = self@;
            assert forall|i: int| 0 <= i < s1.len() implies record_valid(#[trigger] s1[i]) by {
                if i < p {
                    assert(s1[i] == s0[i]);
                } else if i == p {
                    assert(s1[i] == rv);
                } else {
                    assert(s1[i] == s0[i - 1]);
                }
            }
            assert forall|i: int, j: int|
                #![trigger s1[i], s1[j]]
                0 <= i < j < s1.len() implies s1[i].id != s1[j].id by {
                if i < p && j < p {
                } else if i < p && j == p {
                    assert(s0[i].id != rv.id);
                } else if i == p && j > p {
                    assert(s0[j - 1].id != rv.id);
                } else if i < p && j > p {
                    assert(s1[i] == s0[i] && s1[j] == s0[j - 1]);
                } else {
                    assert(s1[i] == s0[i - 1] && s1[j] == s0[j - 1]);
                }
            }
            assert forall|i: int, j: int|
                #![trigger s1[i], s1[j]]
                0 <= i <= j < s1.len() implies s1[i].metadata.created_at
                >= s1[j].metadata.created_at by {
                if p < s0.len() {
                    assert(s0[p as int].metadata.created_at <= t);
                }
                if i < p && j == p {
                    assert(s1[i] == s0[i]);
                } else if i == p && j > p {
                    assert(s1[j] == s0[j - 1]);
                    assert(s0[p as int].metadata.created_at >= s0[j - 1].metadata.created_at);
                } else if i < p && j > p {
                    assert(s1[i] == s0[i] && s1[j] == s0[j - 1]);
                } else if i == p && j == p {
                } else if i < p && j < p {
                    assert(s1[i] == s0[i] && s1[j] == s0[j]);
                } else {
                    assert(s1[i] == s0[i - 1] && s1[j] == s0[j - 1]);
                }
            }
        }
        Ok(())
    }

    /// Apply a full metadata and outputs update to the record under
    /// `job_id`; refused with `NotFound` when no record has that id. The
    /// record's id, inputs and creation time stay as they were; the rest of
    /// the metadata and the outputs are replaced.
    pub fn update_job(
        &mut self,
        job_id: String,
        metadata: JobMetadata,
        outputs: Option<JobOutputs>,
    ) -> (r: Result<(), StoreError>)
        requires
            old(self).wf(),
            metadata_valid(metadata@),
            (outputs is Some) <==> (metadata.status is Complete),
        ensures
            final(self).wf(),
            match r {
                Ok(()) => has_id(old(self)@, job_id@) && final(self)@ == old(self)@.update(
                    find_index(old(self)@, job_id@),
                    patched_record(
                        old(self)@[find_index(old(self)@, job_id@)],
                        metadata@,
                        opt_outputs_view(outputs),
                    ),
                ),
                Err(StoreError::NotFound) => !has_id(old(self)@, job_id@) && final(self)@ == old(self)@,
                Err(StoreError::DuplicateId) => false,
            },
    {
        let i = match self.find_pos(&job_id) {
            Some(i) => i,
            None => {
                return Err(StoreError::NotFound);
            },
        };
        let old_rec = self.records.remove(i);
        let mut m = metadata;
        m.created_at = old_rec.metadata.created_at;
        let rec = JobRecord { id: old_rec.id, inputs: old_rec.inputs, metadata: m, outputs };
        self.records.insert(i, rec);
        proof {
            let s0 = old(self)@;
            let rv = patched_record(s0[i as int], metadata@, opt_outputs_view(outputs));
            assert(self@ =~= s0.update(i as int, rv));
            lemma_wf_update(s0, i as int, rv);
        }
        Ok(())
    }

    /// Merge a partial status update into the record under `job_id`:
    /// status, progress and message replaced, the update time refreshed.
    /// Only meant for records that are still active, which a partial update
    /// must not make terminal.
    pub fn update_status(
        &mut self,
        job_id: String,
        status: JobStatus,
        progress_permille: u32,
        message: Option<String>,
        now: i64,
    ) -> (r: Result<(), StoreError>)
        requires
            old(self).wf(),
            progress_permille <= PROGRESS_SCALE,
            status.spec_is_active(),
            match find_record(old(self)@, job_id@) {
                Some(rec) => rec.metadata.status.spec_is_active(),
                None => true,
            },
        ensures
            final(self).wf(),
            match r {
                Ok(()) => has_id(old(self)@, job_id@) && final(self)@ == old(self)@.update(
                    find_index(old(self)@, job_id@),
                    status_merged_record(
                        old(self)@[find_index(old(self)@, job_id@)],
                        status,
                        progress_permille,
                        crate::job::opt_string_view(message),
                        now,
                    ),
                ),
                Err(StoreError::NotFound) => !has_id(old(self)@, job_id@) && final(self)@ == old(self)@,
                Err(StoreError::DuplicateId) => false,
            },
    {
        let i = match self.find_pos(&job_id) {
            Some(i) => i,
            None => {
                return Err(StoreError::NotFound);
            },
        };
        let old_rec = self.records.remove(i);
        let m = JobMetadata {
            status,
            progress_permille,
            message,
            error: old_rec.metadata.error,
            created_at: old_rec.metadata.created_at,
            updated_at: now,
            completed_at: old_rec.metadata.completed_at,
        };
        let rec = JobRecord {
            id: old_rec.id,
            inputs: old_rec.inputs,
            metadata: m,
            outputs: old_rec.outputs,
        };
        self.records.insert(i, rec);
        proof {
            let s0 = old(self)@;
            let rv = status_merged_record(
                s0[i as int],
                status,
                progress_permille,
                crate::job::opt_string_view(message),
                now,
            );
            assert(self@ =~= s0.update(i as int, rv));
            lemma_wf_update(s0, i as int, rv);
        }
        Ok(())
    }

    /// Mark the record under `job_id` complete: full progress, outputs set
    /// to the produced asset path, any old error cleared, completion time
    /// stamped.
    pub fn complete_job(&mut self, job_id: String, ply_path: String, now: i64) -> (r: Result<
        (),
        StoreError,
    >)
        requires
            old(self).wf(),
        ensures
            final(self).wf(),
            match r {
                Ok(()) => has_id(old(self)@, job_id@) && final(self)@ == old(self)@.update(
                    find_index(old(self)@, job_id@),
                    completed_record(
                        old(self)@[find_index(old(self)@, job_id@)],
                        ply_path@,
                        now,
                    ),
                ),
                Err(StoreError::NotFound) => !has_id(old(self)@, job_id@) && final(self)@ == old(self)@,
                Err(StoreError::DuplicateId) => false,
            },
    {
        let i = match self.find_pos(&job_id) {
            Some(i) => i,
            None => {
                return Err(StoreError::NotFound);
            },
        };
        let old_rec = self.records.remove(i);
        let m = JobMetadata {
            status: JobStatus::Complete,
            progress_permille: PROGRESS_SCALE,
            message: old_rec.metadata.message,
            error: None,
            created_at: old_rec.metadata.created_at,
            updated_at: now,
            completed_at: Some(now),
        };
        let rec = JobRecord {
            id: old_rec.id,
            inputs: old_rec.inputs,
            metadata: m,
            outputs: Some(JobOutputs { ply_path }),
        };
        self.records.insert(i, rec);
        proof {
            let s0 = old(self)@;
            let rv = completed_record(s0[i as int], ply_path@, now);
            assert(self@ =~= s0.update(i as int, rv));
            lemma_wf_update(s0, i as int, rv);
        }
        Ok(())
    }

    /// Mark the record under `job_id` failed with the given error text;
    /// outputs are cleared, progress and message stay as they were.
    pub fn fail_job(&mut self, job_id: String, error: String, now: i64) -> (r: Result<
        (),
        StoreError,
    >)
        requires
            old(self).wf(),
        ensures
            final(self).wf(),
            match r {
                Ok(()) => has_id(old(self)@, job_id@) && final(self)@ == old(self)@.update(
                    find_index(old(self)@, job_id@),
                    failed_record(old(self)@[find_index(old(self)@, job_id@)], error@, now),
                ),
                Err(StoreError::NotFound) => !has_id(old(self)@, job_id@) && final(self)@ == old(self)@,
                Err(StoreError::DuplicateId) => false,
            },
    {
        let i = match self.find_pos(&job_id) {
            Some(i) => i,
            None => {
                return Err(StoreError::NotFound);
            },
        };
        let old_rec = self.records.remove(i);
        let m = JobMetadata {
            status: JobStatus::Failed,
            progress_permille: old_rec.metadata.progress_permille,
            message: old_rec.metadata.message,
            error: Some(error),
            created_at: old_rec.metadata.created_at,
            updated_at: now,
            completed_at: Some(now),
        };
        let rec = JobRecord { id: old_rec.id, inputs: old_rec.inputs, metadata: m, outputs: None };
        self.records.insert(i, rec);
        proof {
            let s0 = old(self)@;
            let rv = failed_record(s0[i as int], error@, now);
            assert(self@ =~= s0.update(i as int, rv));
            assert(record_valid(s0[i as int]));
            lemma_wf_update(s0, i as int, rv);
        }
        Ok(())
    }

    /// Remove the record under `job_id`; a no-op when no record has that id.
    pub fn delete_job(&mut self, job_id: String)
        requires
            old(self).wf(),
        ensures
            final(self).wf(),
            has_id(old(self)@, job_id@) ==> final(self)@ == old(self)@.remove(
                find_index(old(self)@, job_id@),
            ),
            !has_id(old(self)@, job_id@) ==> final(self)@ == old(self)@,
    {
        match self.find_pos(&job_id) {
            Some(i) => {
                let _ = self.records.remove(i);
                proof {
                    assert(self@ =~= old(self)@.remove(i as int));
                    lemma_wf_remove(old(self)@, i as int);
                }
            },
            None => {},
        }
    }

    /// All records, newest first; never fails, an empty store simply
    /// lists nothing.
    pub fn get_all_jobs(&self) -> (r: Vec<JobRecord>)
        ensures
            views_of(r@) == self@,
    {
        let mut out: Vec<JobRecord> = Vec::new();
        let n = self.records.len();
        let mut i: usize = 0;
        proof {
            assert(views_of(out@) =~= self@.subrange(0, 0));
        }
        while i < n
            invariant
                i <= n,
                n == self.records.len(),
                views_of(out@) == self@.subrange(0, i as int),
            decreases n - i,
        {
            let ghost pre = out@;
            out.push(self.records[i].clone());
            proof {
                assert(views_of(pre).len() == pre.len());
                assert(views_of(out@) =~= self@.subrange(0, i + 1));
            }
            i = i + 1;
        }
        proof {
            assert(self@.subrange(0, n as int) =~= self@);
        }
        out
    }

    /// The records whose terminal flag matches `completed`, newest first.
    fn select_jobs(&self, completed: bool) -> (r: Vec<JobRecord>)
        ensures
            views_of(r@) == selected_records(self@, completed),
    {
        let mut out: Vec<JobRecord> = Vec::new();
        let n = self.records.len();
        let mut i: usize = 0;
        proof {
            reveal(Seq::filter);
            assert(views_of(out@) =~= selected_records(self@.subrange(0, 0), completed));
        }
        while i < n
            invariant
                i <= n,
                n == self.records.len(),
                views_of(out@) == selected_records(self@.subrange(0, i as int), completed),
            decreases n - i,
        {
            if self.records[i].metadata.status.is_complete() == completed {
                out.push(self.records[i].clone());
            }
            proof {
                let pred = |r: RecordView| r.metadata.status.spec_is_complete() == completed;
                lemma_filter_push(self@.subrange(0, i as int), self@[i as int], pred);
                assert(self@.subrange(0, i + 1) =~= self@.subrange(0, i as int).push(
                    self@[i as int],
                ));
                if pred(self@[i as int]) {
                    assert(views_of(out@) =~= selected_records(
                        self@.subrange(0, i as int),
                        completed,
                    ).push(self@[i as int]));
                }
            }
            i = i + 1;
        }
        proof {
            assert(self@.subrange(0, n as int) =~= self@);
        }
        out
    }

    /// The jobs still awaiting an outcome, newest first.
    pub fn get_active_jobs(&self) -> (r: Vec<JobRecord>)
        ensures
            views_of(r@) == selected_records(self@, false),
    {
        self.select_jobs(false)
    }

    /// The jobs that reached a terminal state, newest first.
    pub fn get_completed_jobs(&self) -> (r: Vec<JobRecord>)
        ensures
            views_of(r@) == selected_records(self@, true),
    {
        self.select_jobs(true)
    }

    /// Delete every terminal record; active records stay, in order.
    pub fn clear_completed(&mut self)
        requires
            old(self).wf(),
        ensures
            final(self).wf(),
            final(self)@ == selected_records(old(self)@, false),
    {
        let kept = self.select_jobs(false);
        self.records = kept;
        proof {
            lemma_selected_wf(old(self)@, false);
        }
    }

    /// Startup recovery: every record still marked active becomes failed
    /// with a fixed message, since the callback that would resolve it will
    /// never arrive; terminal records are untouched.
    pub fn reconcile(&mut self, now: i64)
        requires
            old(self).wf(),
        ensures
            final(self).wf(),
            final(self)@ == old(self)@.map_values(
                |r: RecordView| reconciled_record(r, now),
            ),
    {
        let n = self.records.len();
        let mut i: usize = 0;
        while i < n
            invariant
                i <= n,
                n == self.records.len(),
                old(self)@.len() == n,
                forall|j: int|
                    0 <= j < i ==> self@[j] == reconciled_record(#[trigger] old(self)@[j], now),
                forall|j: int| i <= j < n ==> self@[j] == #[trigger] old(self)@[j],
            decreases n - i,
        {
            if self.records[i].metadata.status.is_active() {
                let old_rec = self.records.remove(i);
                let m = JobMetadata {
                    status: JobStatus::Failed,
                    progress_permille: old_rec.metadata.progress_permille,
                    message: old_rec.metadata.message,
                    error: Some("Job interrupted by application shutdown".to_owned()),
                    created_at: old_rec.metadata.created_at,
                    updated_at: now,
                    completed_at: Some(now),
                };
                let rec = JobRecord {
                    id: old_rec.id,
                    inputs: old_rec.inputs,
                    metadata: m,
                    outputs: None,
                };
                self.records.insert(i, rec);
            }
            i = i + 1;
        }
        proof {
            let s0 = old(self)@;
            let s1 = self@;
            assert(s1 =~= s0.map_values(|r: RecordView| reconciled_record(r, now)));
            assert forall|k: int| 0 <= k < s1.len() implies record_valid(#[trigger] s1[k]) by {
                assert(record_valid(s0[k]));
                assert(s1[k] == reconciled_record(s0[k], now));
            }
            assert forall|a: int, b: int|
                #![trigger s1[a], s1[b]]
                0 <= a < b < s1.len() implies s1[a].id != s1[b].id by {
                assert(s1[a].id == s0[a].id && s1[b].id == s0[b].id);
            }
            assert forall|a: int, b: int|
                #![trigger s1[a], s1[b]]
                0 <= a <= b < s1.len() implies s1[a].metadata.created_at
                >= s1[b].metadata.created_at by {
                assert(s1[a].metadata.created_at == s0[a].metadata.created_at);
                assert(s1[b].metadata.created_at == s0[b].metadata.created_at);
            }
        }
    }
}

} // verus!
