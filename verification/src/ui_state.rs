//! UI-side state that reacts to application events: the side panel's
//! submission form and progress summary, the queue panel's visibility, and
//! the in-place refresh a progress callback applies to the job list on
//! display.

use vstd::prelude::*;

use crate::events::AppEvent;
use crate::job::{
    opt_outputs_view, opt_string_view, JobMetadata, JobOutputs, JobRecord, MetaView, OutputsView,
    RecordView,
};
use crate::model::Model3D;
use crate::store::{find_index, has_id, lemma_find_index, lemma_find_index_at, views_of};

verus! {

/// State behind the side panel: the prompt being edited, the chosen model,
/// and a summary of the work in flight.
#[derive(Debug)]
pub struct SidePanel {
    pub selected_model: Model3D,
    pub last_status: Option<String>,
    pub prompt_text: String,
    pub is_generating: bool,
    pub progress_permille: u32,
    pub active_jobs: usize,
}

pub struct SidePanelView {
    pub selected_model: Model3D,
    pub last_status: Option<Seq<char>>,
    pub prompt_text: Seq<char>,
    pub is_generating: bool,
    pub progress_permille: u32,
    pub active_jobs: usize,
}

impl View for SidePanel {
    type V = SidePanelView;

    open spec fn view(&self) -> SidePanelView {
        SidePanelView {
            selected_model: self.selected_model,
            last_status: opt_string_view(self.last_status),
            prompt_text: self.prompt_text@,
            is_generating: self.is_generating,
            progress_permille: self.progress_permille,
            active_jobs: self.active_jobs,
        }
    }
}

/// How the side panel reacts to one application event: a queued job raises
/// the active count, progress moves the bar and the status line, a terminal
/// event lowers the count and clears the summary once nothing is left.
pub open spec fn side_panel_step(s: SidePanelView, ev: AppEvent) -> SidePanelView {
    match ev {
        AppEvent::JobQueued(_) => SidePanelView {
            active_jobs: if s.active_jobs < usize::MAX {
                (s.active_jobs + 1) as usize
            } else {
                usize::MAX
            },
            ..s
        },
        AppEvent::JobProgress { job_id: _, progress_permille, message } => SidePanelView {
            progress_permille: progress_permille,
            last_status: Some(message@),
            ..s
        },
        AppEvent::JobComplete(_) => side_panel_job_done(s),
        AppEvent::JobFailed { .. } => side_panel_job_done(s),
        _ => s,
    }
}

pub open spec fn side_panel_job_done(s: SidePanelView) -> SidePanelView {
    let n: usize = if s.active_jobs > 0 {
        (s.active_jobs - 1) as usize
    } else {
        0
    };
    if n == 0 {
        SidePanelView { active_jobs: n, progress_permille: 0, last_status: None, ..s }
    } else {
        SidePanelView { active_jobs: n, ..s }
    }
}

impl Default for SidePanel {
    /// A fresh panel: the one model selected, an empty prompt, nothing in
    /// flight.
    fn default() -> (r: Self)
        ensures
            r.selected_model == Model3D::ShapE,
            r.last_status is None,
            r.prompt_text@ == Seq::<char>::empty(),
            !r.is_generating,
            r.progress_permille == 0,
            r.active_jobs == 0,
    {
        SidePanel {
            selected_model: Model3D::ShapE,
            last_status: None,
            prompt_text: String::new(),
            is_generating: false,
            progress_permille: 0,
            active_jobs: 0,
        }
    }
}

impl SidePanel {
    /// React to one application event, as `side_panel_step` says.
    pub fn on_app_event(&mut self, ev: &AppEvent)
        ensures
            final(self)@ == side_panel_step(old(self)@, *ev),
    {
        match ev {
            AppEvent::JobQueued(_) => {
                self.active_jobs = if self.active_jobs < usize::MAX {
                    self.active_jobs + 1
                } else {
                    usize::MAX
                };
            },
            AppEvent::JobProgress { job_id: _, progress_permille, message } => {
                self.progress_permille = *progress_permille;
                self.last_status = Some(message.clone());
            },
            AppEvent::JobComplete(_) | AppEvent::JobFailed { .. } => {
                self.active_jobs = if self.active_jobs > 0 {
                    self.active_jobs - 1
                } else {
                    0
                };
                if self.active_jobs == 0 {
                    self.progress_permille = 0;
                    self.last_status = None;
                }
            },
            _ => {},
        }
    }
}

/// State behind the queue panel: whether it shows at all, and whether it
/// also shows terminal jobs.
#[derive(Debug)]
pub struct QueuePanel {
    pub show_panel: bool,
    pub show_completed: bool,
}

impl Default for QueuePanel {
    fn default() -> (r: Self)
        ensures
            !r.show_panel,
            !r.show_completed,
    {
        QueuePanel { show_panel: false, show_completed: false }
    }
}

impl QueuePanel {
    /// The panel appears for good once a job is queued.
    pub fn on_app_event(&mut self, ev: &AppEvent)
        ensures
            final(self).show_completed == old(self).show_completed,
            final(self).show_panel == (old(self).show_panel || *ev is JobQueued),
    {
        match ev {
            AppEvent::JobQueued(_) => {
                self.show_panel = true;
            },
            _ => {},
        }
    }
}

/// How a progress callback lands on the job list on display: the metadata
/// is replaced, outputs only when the callback brought some.
pub open spec fn ui_merged(r: RecordView, m: MetaView, o: Option<OutputsView>) -> RecordView {
    RecordView {
        metadata: m,
        outputs: if o is Some {
            o
        } else {
            r.outputs
        },
        ..r
    }
}

/// Refresh the displayed job list in place for one job, without touching
/// the store: the job's card shows the latest metadata, and outputs if the
/// callback brought some. A list without the job is left as it is.
pub fn update_ui_job_progress(
    jobs: &mut Vec<JobRecord>,
    job_id: &String,
    data: JobMetadata,
    outputs: Option<JobOutputs>,
)
    ensures
        ({
            let s = views_of(old(jobs)@);
            if has_id(s, job_id@) {
                views_of(final(jobs)@) == s.update(
                    find_index(s, job_id@),
                    ui_merged(s[find_index(s, job_id@)], data@, opt_outputs_view(outputs)),
                )
            } else {
                views_of(final(jobs)@) == s
            }
        }),
{
    let ghost s = views_of(jobs@);
    let n = jobs.len();
    let mut i: usize = 0;
    while i < n
        invariant
            i <= n,
            n == jobs.len(),
            s == views_of(jobs@),
            s == views_of(old(jobs)@),
            forall|j: int| 0 <= j < i ==> s[j].id != job_id@,
        decreases n - i,
    {
        if jobs[i].id == *job_id {
            proof {
                lemma_find_index_at(s, job_id@, i as int);
            }
            let old_rec = jobs.remove(i);
            let merged_outputs = match outputs {
                Some(o) => Some(o),
                None => old_rec.outputs,
            };
            let rec = JobRecord {
                id: old_rec.id,
                inputs: old_rec.inputs,
                metadata: data,
                outputs: merged_outputs,
            };
            jobs.insert(i, rec);
            proof {
                assert(views_of(jobs@) =~= s.update(
                    i as int,
                    ui_merged(s[i as int], data@, opt_outputs_view(outputs)),
                ));
            }
            return ;
        }
        i = i + 1;
    }
    proof {
        lemma_find_index_at(s, job_id@, n as int);
    }
}

} // verus!
