use gj_jobs::events::GenEvent;
use gj_jobs::generator::JobCreateResponse;
use gj_jobs::job::{JobMetadata, JobOutputs};
use gj_jobs::lifecycle::{EventOutcome, LifecycleCoordinator};
use gj_jobs::model::Model3D;
use gj_jobs::status::JobStatus;

fn ack(id: &str) -> JobCreateResponse {
    JobCreateResponse { id: id.to_string(), status: "queued".to_string(), message: None }
}

fn event(id: &str, status: JobStatus, progress: u32, t: i64, ply: Option<&str>) -> GenEvent {
    let terminal = matches!(status, JobStatus::Complete | JobStatus::Failed);
    GenEvent::JobStatus {
        id: id.to_string(),
        data: JobMetadata {
            status,
            progress_permille: progress,
            message: None,
            error: if matches!(status, JobStatus::Failed) {
                Some("worker failed".to_string())
            } else {
                None
            },
            created_at: t,
            updated_at: t,
            completed_at: if terminal { Some(t) } else { None },
        },
        outputs: ply.map(|p| JobOutputs { ply_path: p.to_string() }),
    }
}

#[test]
fn submit_then_progress_then_complete() {
    let mut c = LifecycleCoordinator::new();
    c.submit(ack("job1"), "a red mug".to_string(), Model3D::ShapE, 1000).unwrap();

    let jobs = c.get_jobs();
    assert_eq!(jobs.len(), 1);
    assert_eq!(jobs[0].id, "job1");
    assert_eq!(jobs[0].metadata.status, JobStatus::Queued);
    assert_eq!(jobs[0].metadata.progress_permille, 0);
    assert_eq!(jobs[0].inputs.prompt, "a red mug");
    assert_eq!(jobs[0].inputs.model, "shap_e");
    assert_eq!(jobs[0].inputs.guidance_scale_tenths, 150);
    assert_eq!(jobs[0].inputs.num_inference_steps, 64);

    // the first generating callback is persisted once
    let r1 = c.on_gen_event(event("job1", JobStatus::Generating, 100, 1100, None));
    assert_eq!(r1, EventOutcome::Persisted { load: None });
    let stored = c.get_jobs();
    assert_eq!(stored[0].metadata.status, JobStatus::Generating);

    // later progress stays in memory: the cache shows it, the store does not
    let r2 = c.on_gen_event(event("job1", JobStatus::Generating, 400, 1200, None));
    assert_eq!(r2, EventOutcome::CachedOnly);
    let cached = c.cached_progress(&"job1".to_string()).unwrap();
    assert_eq!(cached.data.progress_permille, 400);
    assert_eq!(c.get_jobs(), stored);

    // completion is persisted: full progress, outputs set, cache cleared
    let r3 = c.on_gen_event(event("job1", JobStatus::Complete, 900, 1300, Some("outputs/a.ply")));
    assert_eq!(r3, EventOutcome::Persisted { load: Some("outputs/a.ply".to_string()) });
    let done = c.get_jobs();
    assert_eq!(done[0].metadata.status, JobStatus::Complete);
    assert_eq!(done[0].metadata.progress_permille, 1000);
    assert_eq!(done[0].outputs, Some(JobOutputs { ply_path: "outputs/a.ply".to_string() }));
    assert!(c.cached_progress(&"job1".to_string()).is_none());
    assert_eq!(c.active_progress_count(), 0);
    assert_eq!(c.scene_path_for("job1".to_string()), Some("outputs/a.ply".to_string()));
}

#[test]
fn unknown_id_is_dropped() {
    let mut c = LifecycleCoordinator::new();
    c.submit(ack("known"), "a mug".to_string(), Model3D::ShapE, 10).unwrap();
    let before = c.get_jobs();

    let r = c.on_gen_event(event("unknown", JobStatus::Generating, 100, 20, None));
    assert_eq!(r, EventOutcome::Dropped);
    assert_eq!(c.get_jobs(), before);
    assert_eq!(c.active_progress_count(), 0);
}

#[test]
fn removed_job_callback_is_dropped() {
    let mut c = LifecycleCoordinator::new();
    c.submit(ack("a"), "a mug".to_string(), Model3D::ShapE, 10).unwrap();
    c.remove_job("a".to_string());
    assert_eq!(c.get_jobs().len(), 0);
    let r = c.on_gen_event(event("a", JobStatus::Complete, 1000, 20, Some("outputs/a.ply")));
    assert_eq!(r, EventOutcome::Dropped);
    assert_eq!(c.get_jobs().len(), 0);
}

#[test]
fn terminal_event_applied_twice_is_idempotent() {
    let mut c = LifecycleCoordinator::new();
    c.submit(ack("a"), "a mug".to_string(), Model3D::ShapE, 10).unwrap();
    let e = || event("a", JobStatus::Complete, 1000, 30, Some("outputs/a.ply"));
    let r1 = c.on_gen_event(e());
    assert_eq!(r1, EventOutcome::Persisted { load: Some("outputs/a.ply".to_string()) });
    let once = c.get_jobs();
    let r2 = c.on_gen_event(e());
    assert_eq!(r2, EventOutcome::Persisted { load: Some("outputs/a.ply".to_string()) });
    assert_eq!(c.get_jobs(), once);
    assert_eq!(c.active_progress_count(), 0);
}

#[test]
fn generating_writes_once() {
    let mut c = LifecycleCoordinator::new();
    c.submit(ack("a"), "a mug".to_string(), Model3D::ShapE, 10).unwrap();

    let mut persisted = 0;
    let mut cached = 0;
    let n: u32 = 5;
    let mut stored_after_first = None;
    for k in 0..n {
        let r = c.on_gen_event(event("a", JobStatus::Generating, 100 * (k + 1), 20 + k as i64, None));
        match r {
            EventOutcome::Persisted { load: None } => persisted += 1,
            EventOutcome::CachedOnly => cached += 1,
            other => panic!("unexpected outcome: {:?}", other),
        }
        if k == 0 {
            stored_after_first = Some(c.get_jobs());
        }
    }
    assert_eq!(persisted, 1);
    assert_eq!(cached, n - 1);
    // the store never changed after the first write
    assert_eq!(Some(c.get_jobs()), stored_after_first);
    // every callback landed in the cache; the last one shows
    let cachedv = c.cached_progress(&"a".to_string()).unwrap();
    assert_eq!(cachedv.data.progress_permille, 100 * n);
}

#[test]
fn stale_status_is_dropped() {
    let mut c = LifecycleCoordinator::new();
    c.submit(ack("a"), "a mug".to_string(), Model3D::ShapE, 10).unwrap();
    c.on_gen_event(event("a", JobStatus::Complete, 1000, 20, Some("outputs/a.ply")));
    let before = c.get_jobs();

    // a late progress callback cannot move the job out of its terminal state
    let r = c.on_gen_event(event("a", JobStatus::Generating, 500, 30, None));
    assert_eq!(r, EventOutcome::Dropped);
    assert_eq!(c.get_jobs(), before);
}

#[test]
fn ill_formed_payloads_are_dropped() {
    let mut c = LifecycleCoordinator::new();
    c.submit(ack("a"), "a mug".to_string(), Model3D::ShapE, 10).unwrap();
    let before = c.get_jobs();

    // progress out of range
    let r = c.on_gen_event(event("a", JobStatus::Generating, 2000, 20, None));
    assert_eq!(r, EventOutcome::Dropped);
    // completion without outputs
    let r = c.on_gen_event(event("a", JobStatus::Complete, 1000, 20, None));
    assert_eq!(r, EventOutcome::Dropped);
    // outputs on a progress callback
    let r = c.on_gen_event(event("a", JobStatus::Generating, 100, 20, Some("outputs/a.ply")));
    assert_eq!(r, EventOutcome::Dropped);
    assert_eq!(c.get_jobs(), before);
    assert_eq!(c.active_progress_count(), 0);
}

#[test]
fn clear_completed_removes_terminal_jobs() {
    let mut c = LifecycleCoordinator::new();
    c.submit(ack("done"), "a".to_string(), Model3D::ShapE, 30).unwrap();
    c.submit(ack("lost"), "b".to_string(), Model3D::ShapE, 20).unwrap();
    c.submit(ack("busy"), "c".to_string(), Model3D::ShapE, 10).unwrap();
    c.on_gen_event(event("done", JobStatus::Complete, 1000, 40, Some("outputs/d.ply")));
    c.on_gen_event(event("lost", JobStatus::Failed, 0, 41, None));
    c.on_gen_event(event("busy", JobStatus::Generating, 300, 42, None));

    c.clear_completed();
    let ids: Vec<String> = c.get_jobs().into_iter().map(|r| r.id).collect();
    assert_eq!(ids, vec!["busy".to_string()]);
}

#[test]
fn duplicate_submission_is_refused() {
    let mut c = LifecycleCoordinator::new();
    c.submit(ack("a"), "a mug".to_string(), Model3D::ShapE, 10).unwrap();
    let r = c.submit(ack("a"), "another".to_string(), Model3D::ShapE, 20);
    assert!(r.is_err());
    assert_eq!(c.get_jobs().len(), 1);
}

#[test]
fn reconcile_then_no_active_jobs_remain() {
    let mut c = LifecycleCoordinator::new();
    c.submit(ack("q"), "a".to_string(), Model3D::ShapE, 10).unwrap();
    c.submit(ack("g"), "b".to_string(), Model3D::ShapE, 5).unwrap();
    c.on_gen_event(event("g", JobStatus::Generating, 100, 6, None));
    c.reconcile(99);
    for rec in c.get_jobs() {
        assert!(rec.metadata.status.is_complete());
    }
    let q = c.get_job("q".to_string()).unwrap();
    assert_eq!(q.metadata.status, JobStatus::Failed);
    assert_eq!(q.metadata.error.as_deref(), Some("Job interrupted by application shutdown"));
}
