//! Lifecycle states of a generation job.

use vstd::prelude::*;

use crate::text::str_eq;

verus! {

/// State of a job along its lifecycle. Transitions only move forward:
/// `Queued` -> `Generating` -> (`Complete` | `Failed`), and nothing ever
/// leaves a terminal state.
#[derive(Clone, Copy, Debug, PartialEq, Eq, Structural, Hash)]
pub enum JobStatus {
    Queued,
    Generating,
    Complete,
    Failed,
}

impl JobStatus {
    /// Position of a status along the lifecycle; the rank never decreases.
    pub open spec fn rank(self) -> int {
        match self {
            JobStatus::Queued => 0,
            JobStatus::Generating => 1,
            JobStatus::Complete => 2,
            JobStatus::Failed => 2,
        }
    }

    pub open spec fn spec_is_active(&self) -> bool {
        self is Queued || self is Generating
    }

    pub open spec fn spec_is_complete(&self) -> bool {
        self is Complete || self is Failed
    }

    /// The job still awaits its outcome.
    #[verifier::when_used_as_spec(spec_is_active)]
    pub fn is_active(&self) -> (r: bool)
        ensures
            r == self.spec_is_active(),
    {
        matches!(self, JobStatus::Queued | JobStatus::Generating)
    }

    /// The job reached a terminal state, successful or not.
    #[verifier::when_used_as_spec(spec_is_complete)]
    pub fn is_complete(&self) -> (r: bool)
        ensures
            r == self.spec_is_complete(),
    {
        matches!(self, JobStatus::Complete | JobStatus::Failed)
    }

    pub open spec fn spec_icon(self) -> Seq<char> {
        match self {
            JobStatus::Queued => "⏳"@,
            JobStatus::Generating => "⚡"@,
            JobStatus::Complete => "✅"@,
            JobStatus::Failed => "❌"@,
        }
    }

    /// Glyph shown next to a job in the queue view.
    pub fn icon(&self) -> (r: &'static str)
        ensures
            r@ == self.spec_icon(),
    {
        match self {
            JobStatus::Queued => "⏳",
            JobStatus::Generating => "⚡",
            JobStatus::Complete => "✅",
            JobStatus::Failed => "❌",
        }
    }

    /// A status may replace `self` on a record only if it does not move the
    /// job backwards; two terminal statuses may replace one another
    /// (last write wins).
    pub open spec fn may_advance_to(self, next: JobStatus) -> bool {
        self.rank() <= next.rank()
    }

    pub open spec fn spec_wire(&self) -> Seq<char> {
        match self {
            JobStatus::Queued => "QUEUED"@,
            JobStatus::Generating => "GENERATING"@,
            JobStatus::Complete => "COMPLETE"@,
            JobStatus::Failed => "FAILED"@,
        }
    }

    /// The status name as it travels over the worker protocol.
    pub fn as_wire_str(&self) -> (r: &'static str)
        ensures
            r@ == self.spec_wire(),
    {
        match self {
            JobStatus::Queued => "QUEUED",
            JobStatus::Generating => "GENERATING",
            JobStatus::Complete => "COMPLETE",
            JobStatus::Failed => "FAILED",
        }
    }

    /// Parse a wire status name; `None` exactly when the text matches no
    /// status.
    pub fn parse_wire(s: &str) -> (r: Option<JobStatus>)
        ensures
            match r {
                Some(st) => s@ == st.spec_wire(),
                None => forall|st: JobStatus| s@ != #[trigger] st.spec_wire(),
            },
    {
        if str_eq(s, "QUEUED") {
            Some(JobStatus::Queued)
        } else if str_eq(s, "GENERATING") {
            Some(JobStatus::Generating)
        } else if str_eq(s, "COMPLETE") {
            Some(JobStatus::Complete)
        } else if str_eq(s, "FAILED") {
            Some(JobStatus::Failed)
        } else {
            proof {
                assert forall|st: JobStatus| s@ != #[trigger] st.spec_wire() by {
                    match st {
                        JobStatus::Queued => {},
                        JobStatus::Generating => {},
                        JobStatus::Complete => {},
                        JobStatus::Failed => {},
                    }
                }
            }
            None
        }
    }

    /// Executable check of `may_advance_to`.
    pub fn may_advance(&self, next: &JobStatus) -> (r: bool)
        ensures
            r == self.may_advance_to(*next),
    {
        let a: u32 = match self {
            JobStatus::Queued => 0,
            JobStatus::Generating => 1,
            JobStatus::Complete => 2,
            JobStatus::Failed => 2,
        };
        let b: u32 = match next {
            JobStatus::Queued => 0,
            JobStatus::Generating => 1,
            JobStatus::Complete => 2,
            JobStatus::Failed => 2,
        };
        a <= b
    }
}

} // verus!
