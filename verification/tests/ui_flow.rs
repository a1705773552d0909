use gj_jobs::events::AppEvent;
use gj_jobs::job::{JobInputs, JobMetadata, JobOutputs, JobRecord};
use gj_jobs::model::Model3D;
use gj_jobs::status::JobStatus;
use gj_jobs::ui_state::{update_ui_job_progress, QueuePanel, SidePanel};

fn record(id: &str, status: JobStatus, created: i64) -> JobRecord {
    let terminal = matches!(status, JobStatus::Complete | JobStatus::Failed);
    JobRecord {
        id: id.to_string(),
        inputs: JobInputs {
            prompt: "a mug".to_string(),
            model: "shap_e".to_string(),
            guidance_scale_tenths: 150,
            num_inference_steps: 64,
        },
        metadata: JobMetadata {
            status,
            progress_permille: 0,
            message: None,
            error: if matches!(status, JobStatus::Failed) {
                Some("boom".to_string())
            } else {
                None
            },
            created_at: created,
            updated_at: created,
            completed_at: if terminal { Some(created) } else { None },
        },
        outputs: if matches!(status, JobStatus::Complete) {
            Some(JobOutputs { ply_path: "outputs/a.ply".to_string() })
        } else {
            None
        },
    }
}

#[test]
fn side_panel_tracks_active_jobs() {
    let mut p = SidePanel::default();
    assert_eq!(p.active_jobs, 0);
    assert_eq!(p.selected_model, Model3D::ShapE);

    p.on_app_event(&AppEvent::JobQueued(record("a", JobStatus::Queued, 1)));
    p.on_app_event(&AppEvent::JobQueued(record("b", JobStatus::Queued, 2)));
    assert_eq!(p.active_jobs, 2);

    p.on_app_event(&AppEvent::JobProgress {
        job_id: "a".to_string(),
        progress_permille: 400,
        message: "rendering".to_string(),
    });
    assert_eq!(p.progress_permille, 400);
    assert_eq!(p.last_status.as_deref(), Some("rendering"));

    p.on_app_event(&AppEvent::JobComplete("a".to_string()));
    assert_eq!(p.active_jobs, 1);
    // the summary stays while something is still running
    assert_eq!(p.progress_permille, 400);

    p.on_app_event(&AppEvent::JobFailed { job_id: "b".to_string(), error: "boom".to_string() });
    assert_eq!(p.active_jobs, 0);
    assert_eq!(p.progress_permille, 0);
    assert_eq!(p.last_status, None);

    // a terminal event with nothing in flight stays at zero
    p.on_app_event(&AppEvent::JobComplete("c".to_string()));
    assert_eq!(p.active_jobs, 0);
}

#[test]
fn side_panel_ignores_unrelated_events() {
    let mut p = SidePanel::default();
    p.on_app_event(&AppEvent::SceneReady);
    p.on_app_event(&AppEvent::Status("hello".to_string()));
    assert_eq!(p.active_jobs, 0);
    assert_eq!(p.last_status, None);
}

#[test]
fn queue_panel_appears_once_a_job_is_queued() {
    let mut p = QueuePanel::default();
    assert!(!p.show_panel);
    p.on_app_event(&AppEvent::SceneReady);
    assert!(!p.show_panel);
    p.on_app_event(&AppEvent::JobQueued(record("a", JobStatus::Queued, 1)));
    assert!(p.show_panel);
    p.on_app_event(&AppEvent::SceneReady);
    assert!(p.show_panel);
    assert!(!p.show_completed);
}

#[test]
fn displayed_jobs_are_refreshed_in_place() {
    let mut jobs = vec![
        record("b", JobStatus::Generating, 2),
        record("a", JobStatus::Generating, 1),
    ];
    let data = JobMetadata {
        status: JobStatus::Generating,
        progress_permille: 700,
        message: Some("almost".to_string()),
        error: None,
        created_at: 1,
        updated_at: 9,
        completed_at: None,
    };
    update_ui_job_progress(&mut jobs, &"a".to_string(), data.clone(), None);
    assert_eq!(jobs[1].metadata.progress_permille, 700);
    assert_eq!(jobs[1].metadata.message.as_deref(), Some("almost"));
    // outputs are kept when the callback brought none
    assert_eq!(jobs[1].outputs, None);
    // the other job is untouched
    assert_eq!(jobs[0], record("b", JobStatus::Generating, 2));

    // outputs land when the callback brings some
    update_ui_job_progress(
        &mut jobs,
        &"a".to_string(),
        data,
        Some(JobOutputs { ply_path: "outputs/a.ply".to_string() }),
    );
    assert_eq!(jobs[1].outputs, Some(JobOutputs { ply_path: "outputs/a.ply".to_string() }));

    // an unknown id changes nothing
    let before = jobs.clone();
    let data2 = JobMetadata {
        status: JobStatus::Generating,
        progress_permille: 1,
        message: None,
        error: None,
        created_at: 0,
        updated_at: 0,
        completed_at: None,
    };
    update_ui_job_progress(&mut jobs, &"zzz".to_string(), data2, None);
    assert_eq!(jobs, before);
}
