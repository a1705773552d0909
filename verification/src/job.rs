//! Job records: inputs fixed at submission, mutable metadata, and outputs
//! that appear exactly when a job completes.
//!
//! Fractional quantities are carried as scaled integers: progress in
//! thousandths of 1 (`0..=1000`), the guidance scale in tenths. Timestamps
//! are milliseconds since the Unix epoch.

use vstd::prelude::*;

use crate::status::JobStatus;

verus! {

/// Progress is measured in thousandths: 1000 means done.
pub const PROGRESS_SCALE: u32 = 1000;

/// Guidance scale handed to the worker, in tenths (15.0).
pub const GUIDANCE_SCALE_TENTHS: u32 = 150;

/// Inference steps handed to the worker.
pub const DEFAULT_INFERENCE_STEPS: u32 = 64;

/// Immutable generation parameters, set once at submission.
#[derive(Debug, PartialEq)]
pub struct JobInputs {
    pub prompt: String,
    pub model: String,
    pub guidance_scale_tenths: u32,
    pub num_inference_steps: u32,
}

/// Artifacts of a finished job.
#[derive(Debug, PartialEq)]
pub struct JobOutputs {
    pub ply_path: String,
}

/// Mutable job state; every mutation refreshes `updated_at`.
#[derive(Debug, PartialEq)]
pub struct JobMetadata {
    pub status: JobStatus,
    pub progress_permille: u32,
    pub message: Option<String>,
    pub error: Option<String>,
    pub created_at: i64,
    pub updated_at: i64,
    pub completed_at: Option<i64>,
}

/// A job as handed to the store at insertion.
#[derive(Debug, PartialEq)]
pub struct Job {
    pub inputs: JobInputs,
    pub metadata: JobMetadata,
    pub outputs: Option<JobOutputs>,
}

/// A stored job, keyed by its id.
#[derive(Debug, PartialEq)]
pub struct JobRecord {
    pub id: String,
    pub inputs: JobInputs,
    pub metadata: JobMetadata,
    pub outputs: Option<JobOutputs>,
}

pub struct InputsView {
    pub prompt: Seq<char>,
    pub model: Seq<char>,
    pub guidance_scale_tenths: u32,
    pub num_inference_steps: u32,
}

pub struct OutputsView {
    pub ply_path: Seq<char>,
}

pub struct MetaView {
    pub status: JobStatus,
    pub progress_permille: u32,
    pub message: Option<Seq<char>>,
    pub error: Option<Seq<char>>,
    pub created_at: i64,
    pub updated_at: i64,
    pub completed_at: Option<i64>,
}

pub struct RecordView {
    pub id: Seq<char>,
    pub inputs: InputsView,
    pub metadata: MetaView,
    pub outputs: Option<OutputsView>,
}

pub open spec fn opt_string_view(o: Option<String>) -> Option<Seq<char>> {
    match o {
        Some(s) => Some(s@),
        None => None,
    }
}

pub open spec fn opt_outputs_view(o: Option<JobOutputs>) -> Option<OutputsView> {
    match o {
        Some(x) => Some(x@),
        None => None,
    }
}

impl View for JobInputs {
    type V = InputsView;

    open spec fn view(&self) -> InputsView {
        InputsView {
            prompt: self.prompt@,
            model: self.model@,
            guidance_scale_tenths: self.guidance_scale_tenths,
            num_inference_steps: self.num_inference_steps,
        }
    }
}

impl View for JobOutputs {
    type V = OutputsView;

    open spec fn view(&self) -> OutputsView {
        OutputsView { ply_path: self.ply_path@ }
    }
}

impl View for JobMetadata {
    type V = MetaView;

    open spec fn view(&self) -> MetaView {
        MetaView {
            status: self.status,
            progress_permille: self.progress_permille,
            message: opt_string_view(self.message),
            error: opt_string_view(self.error),
            created_at: self.created_at,
            updated_at: self.updated_at,
            completed_at: self.completed_at,
        }
    }
}

impl View for JobRecord {
    type V = RecordView;

    open spec fn view(&self) -> RecordView {
        RecordView {
            id: self.id@,
            inputs: self.inputs@,
            metadata: self.metadata@,
            outputs: opt_outputs_view(self.outputs),
        }
    }
}

impl Job {
    pub open spec fn as_record_view(&self, id: Seq<char>) -> RecordView {
        RecordView {
            id: id,
            inputs: self.inputs@,
            metadata: self.metadata@,
            outputs: opt_outputs_view(self.outputs),
        }
    }
}

/// The metadata invariants of the data model: progress stays in range,
/// a completion time exists exactly for terminal jobs, and an error text
/// exists exactly for failed ones.
pub open spec fn metadata_valid(m: MetaView) -> bool {
    &&& m.progress_permille <= PROGRESS_SCALE
    &&& (m.status.spec_is_complete() <==> m.completed_at is Some)
    &&& ((m.status is Failed) <==> m.error is Some)
}

/// A persisted record is valid when its metadata is, and it carries outputs
/// exactly when it is complete.
pub open spec fn record_valid(r: RecordView) -> bool {
    &&& metadata_valid(r.metadata)
    &&& ((r.outputs is Some) <==> (r.metadata.status is Complete))
}

pub fn clone_opt_string(o: &Option<String>) -> (r: Option<String>)
    ensures
        opt_string_view(r) == opt_string_view(*o),
{
    match o {
        Some(s) => Some(s.clone()),
        None => None,
    }
}

impl Clone for JobInputs {
    fn clone(&self) -> (r: Self)
        ensures
            r@ == self@,
    {
        JobInputs {
            prompt: self.prompt.clone(),
            model: self.model.clone(),
            guidance_scale_tenths: self.guidance_scale_tenths,
            num_inference_steps: self.num_inference_steps,
        }
    }
}

impl Clone for JobOutputs {
    fn clone(&self) -> (r: Self)
        ensures
            r@ == self@,
    {
        JobOutputs { ply_path: self.ply_path.clone() }
    }
}

pub fn clone_opt_outputs(o: &Option<JobOutputs>) -> (r: Option<JobOutputs>)
    ensures
        opt_outputs_view(r) == opt_outputs_view(*o),
{
    match o {
        Some(x) => Some(x.clone()),
        None => None,
    }
}

impl Clone for JobMetadata {
    fn clone(&self) -> (r: Self)
        ensures
            r@ == self@,
    {
        JobMetadata {
            status: self.status,
            progress_permille: self.progress_permille,
            message: clone_opt_string(&self.message),
            error: clone_opt_string(&self.error),
            created_at: self.created_at,
            updated_at: self.updated_at,
            completed_at: self.completed_at,
        }
    }
}

impl Clone for JobRecord {
    fn clone(&self) -> (r: Self)
        ensures
            r@ == self@,
    {
        JobRecord {
            id: self.id.clone(),
            inputs: self.inputs.clone(),
            metadata: self.metadata.clone(),
            outputs: clone_opt_outputs(&self.outputs),
        }
    }
}

} // verus!
