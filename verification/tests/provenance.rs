use agent_browser_service::json::{JsonMember, JsonValue};
use agent_browser_service::provenance::{
    stable_self_declared_subject, ServiceRequestProvenance, SERVICE_REQUEST_PROVENANCE_SCHEMA_VERSION,
};

fn object(pairs: &[(&str, &str)]) -> JsonValue {
    JsonValue::Object(
        pairs
            .iter()
            .map(|(key, value)| JsonMember {
                key: key.to_string(),
                value: JsonValue::Str(value.to_string()),
            })
            .collect(),
    )
}

#[test]
fn capture_keeps_only_contract_approved_causal_identifiers() {
    let provenance = ServiceRequestProvenance::capture(
        &object(&[
            ("action", "navigate"),
            ("requestId", "request-7"),
            ("clientSubjectId", "client:fieldwork"),
            ("identityAssurance", "self-declared"),
            ("connectionInstanceId", "connection-3"),
            ("runtimeEnvironmentId", "production"),
            ("profileId", "research-gov"),
            ("sessionName", "selector-that-will-be-consumed"),
            ("serviceName", "research-fieldwork"),
            ("url", "https://private.example/path"),
            ("profilePath", "/private/profile"),
            ("credential", "do-not-retain"),
        ]),
        "transport-id",
        "job-7",
        "connection-ingress-9",
        "runtime-lane-2",
    );

    assert_eq!(provenance.request_id, "request-7");
    assert_eq!(provenance.job_id, "job-7");
    assert_eq!(provenance.runtime_lane_id.as_deref(), Some("runtime-lane-2"));
    assert_eq!(provenance.connection_instance_id.as_deref(), Some("connection-ingress-9"));
    assert_eq!(provenance.profile_resource_key.as_deref(), Some("profile:research-gov"));
    assert_eq!(provenance.session_id.as_deref(), Some("selector-that-will-be-consumed"));
    assert_eq!(provenance.schema_version, SERVICE_REQUEST_PROVENANCE_SCHEMA_VERSION);
    assert_eq!(provenance.action, "navigate");
    assert_eq!(provenance.identity_assurance, "self-declared");
    assert_eq!(provenance.client_subject_id.as_deref(), Some("client:fieldwork"));
    assert_eq!(provenance.runtime_environment_id.as_deref(), Some("production"));
    assert_eq!(provenance.profile_id.as_deref(), Some("research-gov"));
    assert_eq!(provenance.service_name.as_deref(), Some("research-fieldwork"));
}

#[test]
fn capture_normalizes_invalid_assurance_and_blank_identifiers() {
    let provenance = ServiceRequestProvenance::capture(
        &object(&[
            ("action", "status"),
            ("identityAssurance", "unrecognized-proof"),
            ("clientSubjectId", "   "),
        ]),
        "request-1",
        "job-1",
        "connection-1",
        "lane-1",
    );

    assert_eq!(provenance.identity_assurance, "unknown");
    assert_eq!(provenance.client_subject_id, None);
    assert_eq!(provenance.request_id, "request-1");
}

#[test]
fn labeled_local_requests_derive_one_stable_self_declared_subject() {
    assert_eq!(
        stable_self_declared_subject(Some("research-fieldwork"), Some("codex"), Some("collect-evidence"))
            .as_deref(),
        Some("service:research-fieldwork/agent:codex/task:collect-evidence")
    );
}

#[test]
fn self_declared_subject_keeps_present_labels_in_order() {
    assert_eq!(
        stable_self_declared_subject(Some("research"), None, Some("task-b")).as_deref(),
        Some("service:research/task:task-b")
    );
    assert_eq!(stable_self_declared_subject(None, None, None), None);
    assert_eq!(
        stable_self_declared_subject(None, Some("codex"), Some("task-a")).as_deref(),
        Some("agent:codex/task:task-a")
    );
}

#[test]
fn capture_prefers_runtime_profile_only_without_profile_id() {
    let provenance = ServiceRequestProvenance::capture(
        &object(&[("action", "navigate"), ("runtimeProfile", "fallback-profile")]),
        "request-2",
        "job-2",
        "connection-2",
        "lane-2",
    );
    assert_eq!(provenance.profile_id.as_deref(), Some("fallback-profile"));
    assert_eq!(provenance.profile_resource_key.as_deref(), Some("profile:fallback-profile"));
}
