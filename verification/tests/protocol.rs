use gj_jobs::config::{GenBackendConfig, parse_port};
use gj_jobs::events::GenEvent;
use gj_jobs::job::{JobMetadata, JobOutputs};
use gj_jobs::schemas::JobStatusResponse;
use gj_jobs::status::JobStatus;
use gj_jobs::worker::{interpret_generate_response, normalize_output_path, GenerateOutcome};

#[test]
fn wire_status_roundtrip() {
    for st in [JobStatus::Queued, JobStatus::Generating, JobStatus::Complete, JobStatus::Failed] {
        assert_eq!(JobStatus::parse_wire(st.as_wire_str()), Some(st));
    }
    assert_eq!(JobStatus::parse_wire("QUEUED"), Some(JobStatus::Queued));
    assert_eq!(JobStatus::parse_wire("queued"), None);
    assert_eq!(JobStatus::parse_wire("DONE"), None);
    assert_eq!(JobStatus::parse_wire(""), None);
}

#[test]
fn status_icons() {
    assert_eq!(JobStatus::Queued.icon(), "⏳");
    assert_eq!(JobStatus::Generating.icon(), "⚡");
    assert_eq!(JobStatus::Complete.icon(), "✅");
    assert_eq!(JobStatus::Failed.icon(), "❌");
}

#[test]
fn status_predicates() {
    assert!(JobStatus::Queued.is_active());
    assert!(JobStatus::Generating.is_active());
    assert!(!JobStatus::Complete.is_active());
    assert!(JobStatus::Complete.is_complete());
    assert!(JobStatus::Failed.is_complete());
    assert!(!JobStatus::Generating.is_complete());
}

#[test]
fn port_parsing() {
    assert_eq!(parse_port("3000"), Some(3000));
    assert_eq!(parse_port("0"), Some(0));
    assert_eq!(parse_port("65535"), Some(65535));
    assert_eq!(parse_port("65536"), None);
    assert_eq!(parse_port(""), None);
    assert_eq!(parse_port("12a"), None);
    assert_eq!(parse_port("+1"), None);
    assert_eq!(parse_port("99999999999999999999"), None);
    assert_eq!(parse_port("00443"), Some(443));
}

#[test]
fn config_from_vars() {
    let c = GenBackendConfig::from_vars(None, None).unwrap();
    assert_eq!(c.backend_port, 3000);
    assert_eq!(c.genjutsu_api_port, 5000);

    let c = GenBackendConfig::from_vars(Some("8080".to_string()), None).unwrap();
    assert_eq!(c.backend_port, 8080);
    assert_eq!(c.genjutsu_api_port, 5000);

    assert!(GenBackendConfig::from_vars(Some("eight".to_string()), None).is_none());
    assert!(GenBackendConfig::from_vars(None, Some("70000".to_string())).is_none());
}

#[test]
fn output_paths_are_mapped_onto_the_host() {
    assert_eq!(
        normalize_output_path("/app/outputs/x.ply").as_deref(),
        Some("outputs/x.ply")
    );
    assert_eq!(
        normalize_output_path("../outputs/y.ply").as_deref(),
        Some("outputs/y.ply")
    );
    assert_eq!(
        normalize_output_path("outputs/z.ply").as_deref(),
        Some("outputs/z.ply")
    );
    assert_eq!(
        normalize_output_path("/srv/deep/w.ply").as_deref(),
        Some("outputs/w.ply")
    );
    assert_eq!(normalize_output_path("w.ply").as_deref(), Some("outputs/w.ply"));
    assert_eq!(normalize_output_path("dir/"), None);
    assert_eq!(normalize_output_path(""), None);
}

#[test]
fn generate_responses_are_interpreted() {
    assert_eq!(
        interpret_generate_response("success", Some("/app/outputs/a.ply".to_string()), None),
        GenerateOutcome::Ready("outputs/a.ply".to_string())
    );
    assert_eq!(
        interpret_generate_response("success", None, None),
        GenerateOutcome::MissingPath
    );
    assert_eq!(
        interpret_generate_response("success", Some("bad/".to_string()), None),
        GenerateOutcome::InvalidPath
    );
    assert_eq!(
        interpret_generate_response("error", None, Some("out of memory".to_string())),
        GenerateOutcome::ServiceError(Some("out of memory".to_string()))
    );
    assert_eq!(
        interpret_generate_response("error", None, None),
        GenerateOutcome::ServiceError(None)
    );
    assert_eq!(
        interpret_generate_response("pending", None, None),
        GenerateOutcome::UnexpectedStatus
    );
}

#[test]
fn callback_payload_becomes_event() {
    let payload = JobStatusResponse {
        id: "job9".to_string(),
        data: JobMetadata {
            status: JobStatus::Complete,
            progress_permille: 1000,
            message: Some("done".to_string()),
            error: None,
            created_at: 1,
            updated_at: 2,
            completed_at: Some(2),
        },
        outputs: Some(JobOutputs { ply_path: "outputs/j9.ply".to_string() }),
    };
    let GenEvent::JobStatus { id, data, outputs } = payload.into_event();
    assert_eq!(id, "job9");
    assert_eq!(data.status, JobStatus::Complete);
    assert_eq!(data.message.as_deref(), Some("done"));
    assert_eq!(outputs, Some(JobOutputs { ply_path: "outputs/j9.ply".to_string() }));
}
