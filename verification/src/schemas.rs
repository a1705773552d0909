//! The inbound callback payload, already brought to plain values by the
//! HTTP layer.

use vstd::prelude::*;

use crate::events::{GenEvent, GenEventView};
use crate::job::{opt_outputs_view, JobMetadata, JobOutputs};

verus! {

/// A worker's status callback for one job, as posted to the progress
/// endpoint.
#[derive(Debug)]
pub struct JobStatusResponse {
    pub id: String,
    pub data: JobMetadata,
    pub outputs: Option<JobOutputs>,
}

impl JobStatusResponse {
    /// Republish the payload as the internal event the coordinator consumes.
    pub fn into_event(self) -> (r: GenEvent)
        ensures
            r@ == (GenEventView {
                id: self.id@,
                data: self.data@,
                outputs: opt_outputs_view(self.outputs),
            }),
    {
        let JobStatusResponse { id, data, outputs } = self;
        GenEvent::JobStatus { id, data, outputs }
    }
}

} // verus!
