//! The job orchestrator: it owns job creation after the worker's
//! acknowledgment and every persistent state change afterwards.

use vstd::prelude::*;

use crate::job::{
    opt_string_view, InputsView, Job, JobInputs, JobMetadata, JobOutputs, JobRecord, MetaView,
    RecordView, DEFAULT_INFERENCE_STEPS, GUIDANCE_SCALE_TENTHS,
};
use crate::model::Model3D;
use crate::status::JobStatus;
use crate::store::{
    find_index, has_id, insertion_point, patched_record, selected_records, store_wf, views_of,
    JobStore, StoreError,
};

verus! {

/// Acknowledgment from the worker that a generation request was queued.
#[derive(Debug)]
pub struct JobCreateResponse {
    pub id: String,
    pub status: String,
    pub message: Option<String>,
}

impl Clone for JobCreateResponse {
    fn clone(&self) -> (r: Self)
        ensures
            r.id@ == self.id@,
            r.status@ == self.status@,
            opt_string_view(r.message) == opt_string_view(self.message),
    {
        JobCreateResponse {
            id: self.id.clone(),
            status: self.status.clone(),
            message: crate::job::clone_opt_string(&self.message),
        }
    }
}

/// Application-level failure surfaced to the user.
#[derive(Debug, PartialEq)]
pub enum AppError {
    /// The worker rejected or failed a request; carries the description.
    BackendError(String),
}

/// The record a freshly acknowledged submission leaves in the store:
/// queued, zero progress, the ack message kept, both timestamps at `now`.
pub open spec fn submitted_record(
    id: Seq<char>,
    prompt: Seq<char>,
    model: Model3D,
    message: Option<Seq<char>>,
    now: i64,
) -> RecordView {
    RecordView {
        id: id,
        inputs: InputsView {
            prompt: prompt,
            model: model.spec_id(),
            guidance_scale_tenths: GUIDANCE_SCALE_TENTHS,
            num_inference_steps: DEFAULT_INFERENCE_STEPS,
        },
        metadata: MetaView {
            status: JobStatus::Queued,
            progress_permille: 0,
            message: message,
            error: None,
            created_at: now,
            updated_at: now,
            completed_at: None,
        },
        outputs: None,
    }
}

/// Composes the outbound submitter (which runs outside the library) with the
/// job store; the only writer of job records.
#[derive(Debug)]
pub struct Generator {
    db: JobStore,
}

impl View for Generator {
    type V = Seq<RecordView>;

    closed spec fn view(&self) -> Seq<RecordView> {
        self.db@
    }
}

impl Generator {
    pub open spec fn wf(&self) -> bool {
        store_wf(self@)
    }

    /// An orchestrator over an empty store.
    pub fn new() -> (r: Self)
        ensures
            r@ == Seq::<RecordView>::empty(),
            r.wf(),
    {
        Generator { db: JobStore::new() }
    }

    /// An orchestrator over an already loaded store.
    pub fn from_store(db: JobStore) -> (r: Self)
        requires
            db.wf(),
        ensures
            r@ == db@,
            r.wf(),
    {
        Generator { db }
    }

    /// Record a job the worker has acknowledged: a queued record under the
    /// acknowledged id, carrying the prompt, the model's API id, the fixed
    /// generation parameters, and the ack message.
    pub fn submit_acked(
        &mut self,
        resp: JobCreateResponse,
        prompt: String,
        model: Model3D,
        now: i64,
    ) -> (r: Result<(), StoreError>)
        requires
            old(self).wf(),
        ensures
            final(self).wf(),
            match r {
                Ok(()) => !has_id(old(self)@, resp.id@) && final(self)@ == old(self)@.insert(
                    insertion_point(old(self)@, now),
                    submitted_record(resp.id@, prompt@, model, opt_string_view(resp.message), now),
                ),
                Err(StoreError::DuplicateId) => has_id(old(self)@, resp.id@) && final(self)@
                    == old(self)@,
                Err(StoreError::NotFound) => false,
            },
    {
        let JobCreateResponse { id, status: _, message } = resp;
        let job = Job {
            inputs: JobInputs {
                prompt,
                model: model.id().to_owned(),
                guidance_scale_tenths: GUIDANCE_SCALE_TENTHS,
                num_inference_steps: DEFAULT_INFERENCE_STEPS,
            },
            metadata: JobMetadata {
                status: JobStatus::Queued,
                progress_permille: 0,
                message,
                error: None,
                created_at: now,
                updated_at: now,
                completed_at: None,
            },
            outputs: None,
        };
        proof {
            assert(job.as_record_view(id@) == submitted_record(
                resp.id@,
                prompt@,
                model,
                opt_string_view(resp.message),
                now,
            ));
        }
        self.db.insert_job(id, job)
    }

    /// Delete the local record; a later callback for this id is dropped as
    /// unknown. A no-op when the id is absent.
    pub fn remove_job(&mut self, id: String)
        requires
            old(self).wf(),
        ensures
            final(self).wf(),
            has_id(old(self)@, id@) ==> final(self)@ == old(self)@.remove(
                find_index(old(self)@, id@),
            ),
            !has_id(old(self)@, id@) ==> final(self)@ == old(self)@,
    {
        self.db.delete_job(id)
    }

    /// Look a record up by id.
    pub fn get_job(&self, job_id: String) -> (r: Option<JobRecord>)
        ensures
            match r {
                Some(rec) => crate::store::find_record(self@, job_id@) == Some(rec@),
                None => crate::store::find_record(self@, job_id@) is None,
            },
    {
        self.db.get_job(job_id)
    }

    /// All records, newest first.
    pub fn get_jobs(&self) -> (r: Vec<JobRecord>)
        ensures
            views_of(r@) == self@,
    {
        self.db.get_all_jobs()
    }

    /// Persist a status callback's full metadata and outputs for `job_id`.
    pub fn update_job_status(
        &mut self,
        job_id: String,
        metadata: JobMetadata,
        outputs: Option<JobOutputs>,
    ) -> (r: Result<(), StoreError>)
        requires
            old(self).wf(),
            crate::job::metadata_valid(metadata@),
            (outputs is Some) <==> (metadata.status is Complete),
        ensures
            final(self).wf(),
            match r {
                Ok(()) => has_id(old(self)@, job_id@) && final(self)@ == old(self)@.update(
                    find_index(old(self)@, job_id@),
                    patched_record(
                        old(self)@[find_index(old(self)@, job_id@)],
                        metadata@,
                        crate::job::opt_outputs_view(outputs),
                    ),
                ),
                Err(StoreError::NotFound) => !has_id(old(self)@, job_id@) && final(self)@ == old(self)@,
                Err(StoreError::DuplicateId) => false,
            },
    {
        self.db.update_job(job_id, metadata, outputs)
    }

    /// Delete every terminal record; active records stay, in order.
    pub fn clear_completed(&mut self)
        requires
            old(self).wf(),
        ensures
            final(self).wf(),
            final(self)@ == selected_records(old(self)@, false),
    {
        self.db.clear_completed()
    }

    /// Startup recovery over the store; see `JobStore::reconcile`.
    pub fn reconcile(&mut self, now: i64)
        requires
            old(self).wf(),
        ensures
            final(self).wf(),
            final(self)@ == old(self)@.map_values(
                |r: RecordView| crate::store::reconciled_record(r, now),
            ),
    {
        self.db.reconcile(now)
    }
}

} // verus!
