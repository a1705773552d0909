use gj_jobs::job::{Job, JobInputs, JobMetadata, JobOutputs, JobRecord};
use gj_jobs::status::JobStatus;
use gj_jobs::store::{JobStore, StoreError};

fn meta(status: JobStatus, progress: u32, created: i64) -> JobMetadata {
    let terminal = matches!(status, JobStatus::Complete | JobStatus::Failed);
    JobMetadata {
        status,
        progress_permille: progress,
        message: None,
        error: if matches!(status, JobStatus::Failed) {
            Some("boom".to_string())
        } else {
            None
        },
        created_at: created,
        updated_at: created,
        completed_at: if terminal { Some(created) } else { None },
    }
}

fn inputs(prompt: &str) -> JobInputs {
    JobInputs {
        prompt: prompt.to_string(),
        model: "shap_e".to_string(),
        guidance_scale_tenths: 150,
        num_inference_steps: 64,
    }
}

fn job(status: JobStatus, created: i64) -> Job {
    Job {
        inputs: inputs("a red mug"),
        metadata: meta(status, 0, created),
        outputs: if matches!(status, JobStatus::Complete) {
            Some(JobOutputs { ply_path: "outputs/a.ply".to_string() })
        } else {
            None
        },
    }
}

fn record(id: &str, status: JobStatus, created: i64) -> JobRecord {
    let j = job(status, created);
    JobRecord { id: id.to_string(), inputs: j.inputs, metadata: j.metadata, outputs: j.outputs }
}

#[test]
fn insert_then_get_roundtrip() {
    let mut st = JobStore::new();
    st.insert_job("a".to_string(), job(JobStatus::Queued, 100)).unwrap();
    let got = st.get_job("a".to_string()).unwrap();
    assert_eq!(got.id, "a");
    assert_eq!(got.inputs, inputs("a red mug"));
    assert_eq!(got.metadata, meta(JobStatus::Queued, 0, 100));
    assert_eq!(got.outputs, None);
}

#[test]
fn duplicate_id_refused() {
    let mut st = JobStore::new();
    st.insert_job("a".to_string(), job(JobStatus::Queued, 100)).unwrap();
    let r = st.insert_job("a".to_string(), job(JobStatus::Queued, 200));
    assert_eq!(r, Err(StoreError::DuplicateId));
    assert_eq!(st.len(), 1);
}

#[test]
fn update_missing_refused() {
    let mut st = JobStore::new();
    let r = st.update_job("nope".to_string(), meta(JobStatus::Generating, 100, 5), None);
    assert_eq!(r, Err(StoreError::NotFound));
}

#[test]
fn listing_is_newest_first() {
    let mut st = JobStore::new();
    st.insert_job("one".to_string(), job(JobStatus::Queued, 1)).unwrap();
    st.insert_job("three".to_string(), job(JobStatus::Queued, 3)).unwrap();
    st.insert_job("two".to_string(), job(JobStatus::Queued, 2)).unwrap();
    let all = st.get_all_jobs();
    let ids: Vec<&str> = all.iter().map(|r| r.id.as_str()).collect();
    assert_eq!(ids, vec!["three", "two", "one"]);
}

#[test]
fn active_and_completed_views() {
    let mut st = JobStore::new();
    st.insert_job("q".to_string(), job(JobStatus::Queued, 4)).unwrap();
    st.insert_job("g".to_string(), job(JobStatus::Generating, 3)).unwrap();
    st.insert_job("c".to_string(), job(JobStatus::Complete, 2)).unwrap();
    st.insert_job("f".to_string(), job(JobStatus::Failed, 1)).unwrap();
    let active: Vec<String> = st.get_active_jobs().into_iter().map(|r| r.id).collect();
    let done: Vec<String> = st.get_completed_jobs().into_iter().map(|r| r.id).collect();
    assert_eq!(active, vec!["q".to_string(), "g".to_string()]);
    assert_eq!(done, vec!["c".to_string(), "f".to_string()]);
}

#[test]
fn delete_absent_is_noop() {
    let mut st = JobStore::new();
    st.insert_job("a".to_string(), job(JobStatus::Queued, 1)).unwrap();
    st.delete_job("missing".to_string());
    assert_eq!(st.len(), 1);
    st.delete_job("a".to_string());
    assert_eq!(st.len(), 0);
}

#[test]
fn clear_completed_keeps_active() {
    let mut st = JobStore::new();
    st.insert_job("c".to_string(), job(JobStatus::Complete, 3)).unwrap();
    st.insert_job("f".to_string(), job(JobStatus::Failed, 2)).unwrap();
    st.insert_job("g".to_string(), job(JobStatus::Generating, 1)).unwrap();
    st.clear_completed();
    let ids: Vec<String> = st.get_all_jobs().into_iter().map(|r| r.id).collect();
    assert_eq!(ids, vec!["g".to_string()]);
}

#[test]
fn reconcile_fails_interrupted_jobs() {
    let mut st = JobStore::new();
    st.insert_job("q".to_string(), job(JobStatus::Queued, 4)).unwrap();
    st.insert_job("g".to_string(), job(JobStatus::Generating, 3)).unwrap();
    st.insert_job("c".to_string(), job(JobStatus::Complete, 2)).unwrap();
    st.insert_job("f".to_string(), job(JobStatus::Failed, 1)).unwrap();
    let before = st.get_all_jobs();
    st.reconcile(999);
    let after = st.get_all_jobs();
    assert_eq!(after.len(), 4);
    for rec in &after {
        assert!(rec.metadata.status.is_complete());
    }
    // interrupted jobs carry the fixed message and the reconciliation time
    for id in ["q", "g"] {
        let rec = st.get_job(id.to_string()).unwrap();
        assert_eq!(rec.metadata.status, JobStatus::Failed);
        assert_eq!(
            rec.metadata.error.as_deref(),
            Some("Job interrupted by application shutdown")
        );
        assert_eq!(rec.metadata.completed_at, Some(999));
        assert_eq!(rec.metadata.updated_at, 999);
        assert_eq!(rec.outputs, None);
    }
    // records that were already terminal are untouched
    assert_eq!(st.get_job("c".to_string()).unwrap(), before[2].clone());
    assert_eq!(st.get_job("f".to_string()).unwrap(), before[3].clone());
}

#[test]
fn complete_and_fail_update_records() {
    let mut st = JobStore::new();
    st.insert_job("a".to_string(), job(JobStatus::Queued, 1)).unwrap();
    st.update_status("a".to_string(), JobStatus::Generating, 250, Some("working".to_string()), 2)
        .unwrap();
    let rec = st.get_job("a".to_string()).unwrap();
    assert_eq!(rec.metadata.status, JobStatus::Generating);
    assert_eq!(rec.metadata.progress_permille, 250);
    assert_eq!(rec.metadata.message.as_deref(), Some("working"));
    assert_eq!(rec.metadata.created_at, 1);
    assert_eq!(rec.metadata.updated_at, 2);

    st.complete_job("a".to_string(), "outputs/a.ply".to_string(), 3).unwrap();
    let rec = st.get_job("a".to_string()).unwrap();
    assert_eq!(rec.metadata.status, JobStatus::Complete);
    assert_eq!(rec.metadata.progress_permille, 1000);
    assert_eq!(rec.metadata.completed_at, Some(3));
    assert_eq!(rec.outputs, Some(JobOutputs { ply_path: "outputs/a.ply".to_string() }));

    // a later failure wins and clears the outputs
    st.fail_job("a".to_string(), "lost".to_string(), 4).unwrap();
    let rec = st.get_job("a".to_string()).unwrap();
    assert_eq!(rec.metadata.status, JobStatus::Failed);
    assert_eq!(rec.metadata.error.as_deref(), Some("lost"));
    assert_eq!(rec.outputs, None);
    assert_eq!(rec.metadata.completed_at, Some(4));
}

#[test]
fn from_records_accepts_a_well_formed_listing() {
    let recs = vec![
        record("b", JobStatus::Complete, 5),
        record("a", JobStatus::Queued, 3),
    ];
    let st = JobStore::from_records(recs).unwrap();
    assert_eq!(st.len(), 2);
    assert!(st.get_job("a".to_string()).is_some());
}

#[test]
fn from_records_rejects_duplicates_and_disorder() {
    let dup = vec![
        record("a", JobStatus::Queued, 5),
        record("a", JobStatus::Queued, 3),
    ];
    assert!(JobStore::from_records(dup).is_none());

    let unsorted = vec![
        record("a", JobStatus::Queued, 3),
        record("b", JobStatus::Queued, 5),
    ];
    assert!(JobStore::from_records(unsorted).is_none());

    // outputs on a non-complete record violate the data model
    let mut bad = record("a", JobStatus::Queued, 3);
    bad.outputs = Some(JobOutputs { ply_path: "outputs/a.ply".to_string() });
    assert!(JobStore::from_records(vec![bad]).is_none());
}
