//! Events moved across the application: UI commands, application
//! notifications, and worker callbacks, merged into one tagged union that a
//! single coordinator entry point dispatches on.

use vstd::prelude::*;

use crate::job::{
    opt_outputs_view, JobMetadata, JobOutputs, JobRecord, MetaView, OutputsView,
};
use crate::model::Model3D;

verus! {

/// A status callback from the worker, keyed by job id.
#[derive(Debug)]
pub enum GenEvent {
    JobStatus { id: String, data: JobMetadata, outputs: Option<JobOutputs> },
}

pub struct GenEventView {
    pub id: Seq<char>,
    pub data: MetaView,
    pub outputs: Option<OutputsView>,
}

impl View for GenEvent {
    type V = GenEventView;

    open spec fn view(&self) -> GenEventView {
        match self {
            GenEvent::JobStatus { id, data, outputs } => GenEventView {
                id: id@,
                data: data@,
                outputs: opt_outputs_view(*outputs),
            },
        }
    }
}

/// Notifications from the application to the UI layer.
#[derive(Debug)]
pub enum AppEvent {
    ImagesLoaded,
    GaussianCloudReady,
    CameraResetDone,
    Status(String),
    Progress(u32),
    Log(String),
    SceneReady,
    JobQueued(JobRecord),
    JobProgress { job_id: String, progress_permille: u32, message: String },
    JobComplete(String),
    JobFailed { job_id: String, error: String },
}

/// Commands originating from the UI.
#[derive(Debug)]
pub enum UiEvent {
    ResetCamera,
    LoadImages,
    GenerateWithModel { prompt: String, model: Model3D },
    PromptChanged(String),
    ToggleWireframe(bool),
    Log(String),
    LoadScene(String),
    RemoveJob(String),
    ClearCompletedJobs,
}

/// The one outer event type delivered to the application loop.
#[derive(Debug)]
pub enum GjEvent {
    Ui(UiEvent),
    App(AppEvent),
    Gen(GenEvent),
}

} // verus!
