use agent_browser_service::diagnosis::{
    classify_profile_diagnosis, diagnose_service_profile, diagnosis_findings, dominant_finding,
    eligible_action, missing_authentication_targets, parse_singleton_lock_pid, ProfileDiagnosisState,
};
use agent_browser_service::model::{
    BrowserProcess, BrowserProfile, BrowserSession, LeaseState, ProfileOwner, ProfileOwnerState,
    RuntimeOwnerRegistry, ServicePrincipals, ServiceState,
};

const DIGEST: &str = "aaaaaaaaaaaaaaaaaaaaaaaaaaaaaaaaaaaaaaaaaaaaaaaaaaaaaaaaaaaaaaaa";
const BROWSER_ID: &str = "session:original-browser";

fn transferred_state(browser_profile: Option<&str>) -> ServiceState {
    ServiceState {
        state_revision: 0,
        profiles: vec![BrowserProfile {
            id: "shared-profile".to_string(),
            user_data_dir: Some("/tmp/profile-diagnosis".to_string()),
            identity_digest: Some(DIGEST.to_string()),
            profile_origin: "managed".to_string(),
            profile_class: "shared_local".to_string(),
            access_fence: None,
            target_service_ids: Vec::new(),
            authenticated_service_ids: Vec::new(),
        }],
        browsers: vec![BrowserProcess {
            id: BROWSER_ID.to_string(),
            profile_id: browser_profile.map(str::to_string),
            pid: Some(4242),
            health: "ready".to_string(),
            boot_epoch: None,
            host: "local_headless".to_string(),
            display_isolation: None,
            view_streams: Vec::new(),
            active_session_ids: vec!["handoff-current".to_string()],
        }],
        sessions: vec![BrowserSession {
            id: "handoff-current".to_string(),
            profile_id: Some("shared-profile".to_string()),
            lease: LeaseState::Shared,
            expires_at: None,
            principal_id: None,
            principal_provenance: None,
            browser_ids: vec![BROWSER_ID.to_string()],
            tab_ids: Vec::new(),
            last_lease_observed_at: None,
            boot_epoch: None,
            work_lease_revision: 0,
        }],
        tabs: Vec::new(),
        remote_view_routes: Vec::new(),
        runtime_owner_registry: RuntimeOwnerRegistry {
            revision: 6,
            owners: vec![ProfileOwner {
                owner_id: "owner-current".to_string(),
                profile_identity_digest: DIGEST.to_string(),
                state: ProfileOwnerState::Ready,
                owner_generation: 6,
                browser_id: BROWSER_ID.to_string(),
                daemon_session_route: "handoff-current".to_string(),
                process_instance_digest: DIGEST.to_string(),
                pending_transfer: false,
            }],
            principal_bindings: Vec::new(),
            lifecycle_records: Vec::new(),
        },
        service_principals: ServicePrincipals { principals: Vec::new(), profile_capabilities: Vec::new() },
        profile_lifecycle_authorizations: Vec::new(),
        profile_lifecycle_effect_receipts: Vec::new(),
        profile_lease_reconcile_receipts: Vec::new(),
        viewer_leases: Vec::new(),
        events: Vec::new(),
        profile_recovery_receipts: Vec::new(),
    }
}

#[test]
fn transferred_owner_missing_profile_join_is_repairable() {
    let state = transferred_state(None);
    let findings = diagnosis_findings(&state, "shared-profile", DIGEST, "matching", true, "absent");
    let diagnosis = classify_profile_diagnosis(&findings, 0);
    assert!(diagnosis == ProfileDiagnosisState::Repairable);
    assert!(findings
        .iter()
        .any(|finding| finding.code == "subordinate_browser_profile_missing" && finding.blocking));
    assert!(findings
        .iter()
        .any(|finding| finding.code == "runtime_owner_principal_binding_missing" && !finding.blocking));
    assert_eq!(eligible_action(diagnosis), "service_profile_repair_plan");
    assert_eq!(dominant_finding(&findings).as_deref(), Some("subordinate_browser_profile_missing"));
    let whole = diagnose_service_profile(&state, "shared-profile", "2026-09-10T10:00:00Z", "request-1", "current", true, "clear")
        .ok()
        .unwrap();
    assert!(whole.state == ProfileDiagnosisState::Repairable);
    assert_eq!(whole.browser_id.as_deref(), Some("session:original-browser"));
    assert_eq!(whole.daemon_session_route.as_deref(), Some("handoff-current"));
    assert_eq!(whole.eligible_action, "service_profile_repair_plan");
}

#[test]
fn healthy_shared_local_profile_does_not_require_registered_identity() {
    let state = transferred_state(Some("shared-profile"));
    let findings = diagnosis_findings(&state, "shared-profile", DIGEST, "matching", true, "absent");
    let diagnosis = classify_profile_diagnosis(&findings, 0);
    assert!(diagnosis == ProfileDiagnosisState::Ready);
    assert_eq!(eligible_action(diagnosis), "normal_launch");
    assert!(findings.iter().all(|finding| !finding.blocking));
}

#[test]
fn missing_authentication_routes_to_manual_action_without_ownership_error() {
    let state = transferred_state(Some("shared-profile"));
    let findings = diagnosis_findings(&state, "shared-profile", DIGEST, "matching", true, "absent");
    let diagnosis = classify_profile_diagnosis(&findings, 1);
    assert!(diagnosis == ProfileDiagnosisState::ManualAction);
    assert!(findings.iter().all(|finding| !finding.blocking));
}

#[test]
fn stale_singleton_lock_is_reported_without_removal() {
    assert_eq!(parse_singleton_lock_pid("host-4294967294"), Some(4294967294));
    let state = transferred_state(Some("shared-profile"));
    let findings = diagnosis_findings(&state, "shared-profile", DIGEST, "matching", true, "proven_stale");
    let diagnosis = classify_profile_diagnosis(&findings, 0);
    assert!(diagnosis == ProfileDiagnosisState::Repairable);
    assert!(findings
        .iter()
        .any(|finding| finding.code == "chrome_singleton_lock_proven_stale" && finding.blocking));
}

#[test]
fn foreign_profile_mismatch_dominates_a_repairable_stale_lock() {
    let state = transferred_state(Some("another-profile"));
    let findings = diagnosis_findings(&state, "shared-profile", DIGEST, "matching", true, "proven_stale");
    let diagnosis = classify_profile_diagnosis(&findings, 0);
    assert!(diagnosis == ProfileDiagnosisState::Blocked);
    assert_eq!(eligible_action(diagnosis), "none");
    assert!(findings
        .iter()
        .any(|finding| finding.code == "subordinate_browser_profile_mismatch" && finding.blocking));
}

#[test]
fn restricted_profile_without_binding_is_repairable_and_unproven_process_blocks() {
    let state = transferred_state(Some("shared-profile"));
    let findings = diagnosis_findings(&state, "shared-profile", DIGEST, "matching", false, "absent");
    assert!(classify_profile_diagnosis(&findings, 0) == ProfileDiagnosisState::Repairable);
    assert_eq!(findings[0].severity, "error");
    assert_eq!(findings[0].recourse, "plan_preserving_principal_repair");

    let findings = diagnosis_findings(&state, "shared-profile", DIGEST, "missing_or_changed", true, "absent");
    assert!(classify_profile_diagnosis(&findings, 0) == ProfileDiagnosisState::Blocked);
    assert_eq!(dominant_finding(&findings).as_deref(), Some("owner_process_identity_unproven"));
}

#[test]
fn missing_browser_record_is_repairable_and_live_lock_blocks() {
    let mut state = transferred_state(Some("shared-profile"));
    state.browsers.clear();
    let findings = diagnosis_findings(&state, "shared-profile", DIGEST, "matching", true, "absent");
    assert_eq!(findings[0].code, "runtime_browser_record_missing");
    assert_eq!(findings[0].evidence, vec![BROWSER_ID.to_string()]);
    assert!(classify_profile_diagnosis(&findings, 0) == ProfileDiagnosisState::Repairable);

    let state = transferred_state(Some("shared-profile"));
    let findings = diagnosis_findings(&state, "shared-profile", DIGEST, "matching", true, "occupied_unproven");
    assert!(classify_profile_diagnosis(&findings, 3) == ProfileDiagnosisState::Blocked);
}

#[test]
fn singleton_lock_pid_is_the_positive_number_after_the_last_dash() {
    assert_eq!(parse_singleton_lock_pid("hostname-1234"), Some(1234));
    assert_eq!(parse_singleton_lock_pid("my-host-name-77"), Some(77));
    assert_eq!(parse_singleton_lock_pid("x-+7"), Some(7));
    assert_eq!(parse_singleton_lock_pid("x-0"), None);
    assert_eq!(parse_singleton_lock_pid("nodash"), None);
    assert_eq!(parse_singleton_lock_pid("host-"), None);
    assert_eq!(parse_singleton_lock_pid("host-4294967296"), None);
    assert_eq!(parse_singleton_lock_pid("host-12a"), None);
}

#[test]
fn diagnosis_refuses_a_missing_profile_or_unresolved_identity() {
    let state = transferred_state(Some("shared-profile"));
    assert_eq!(
        diagnose_service_profile(&state, "other-profile", "2026-09-10T10:00:00Z", "request-1", "current", true, "clear").err(),
        Some("service_profile_diagnosis_profile_missing".to_string())
    );
    let mut unresolved = transferred_state(Some("shared-profile"));
    unresolved.profiles[0].identity_digest = None;
    assert_eq!(
        diagnose_service_profile(&unresolved, "shared-profile", "2026-09-10T10:00:00Z", "request-1", "current", true, "clear").err(),
        Some("profile_recovery_identity_unavailable".to_string())
    );
}

#[test]
fn unauthenticated_targets_ask_for_manual_action() {
    let mut state = transferred_state(Some("shared-profile"));
    state.profiles[0].target_service_ids = vec!["svc-a".to_string(), "svc-b".to_string()];
    state.profiles[0].authenticated_service_ids = vec!["svc-b".to_string()];
    let d = diagnose_service_profile(&state, "shared-profile", "2026-09-10T10:00:00Z", "request-3", "current", true, "clear").ok().unwrap();
    assert_eq!(d.missing_authentication_targets, vec!["svc-a".to_string()]);
    assert!(d.state == ProfileDiagnosisState::ManualAction);
    assert_eq!(d.eligible_action, "service_profile_reset_plan_authentication");
    assert_eq!(d.dominant_blocker, None);
    assert_eq!(d.profile_identity_digest, DIGEST);

    state.profiles[0].authenticated_service_ids.push("svc-a".to_string());
    let ready = diagnose_service_profile(&state, "shared-profile", "2026-09-10T10:00:00Z", "request-3", "current", true, "clear").ok().unwrap();
    assert!(ready.state == ProfileDiagnosisState::Ready);
    assert_eq!(ready.eligible_action, "normal_launch");
}

#[test]
fn missing_authentication_keeps_target_order() {
    let targets = vec!["c".to_string(), "a".to_string(), "b".to_string()];
    let authenticated = vec!["a".to_string()];
    assert_eq!(missing_authentication_targets(&targets, &authenticated), vec!["c".to_string(), "b".to_string()]);
}

#[test]
fn diagnosis_is_identified_by_its_request_and_names_the_owner_runtime() {
    let mut state = transferred_state(None);
    state.state_revision = 9;
    let first = diagnose_service_profile(&state, "shared-profile", "2026-09-10T10:00:00Z", "request-1", "current", true, "clear")
        .ok()
        .unwrap();
    let again = diagnose_service_profile(&state, "shared-profile", "2026-09-10T10:00:00Z", "request-1", "current", true, "clear")
        .ok()
        .unwrap();
    let other = diagnose_service_profile(&state, "shared-profile", "2026-09-10T10:00:00Z", "request-2", "current", true, "clear")
        .ok()
        .unwrap();
    assert_eq!(first.diagnosis_id, again.diagnosis_id);
    assert_ne!(first.diagnosis_id, other.diagnosis_id);
    assert_eq!(first.diagnosis_id.len(), 64);
    assert_eq!(first.observed_at, "2026-09-10T10:00:00Z");
    assert_eq!(first.correlation_id, "request-1");
    assert_eq!(first.state_revision, 9);
    assert_eq!(first.browser_id.as_deref(), Some(BROWSER_ID));
    assert_eq!(first.daemon_session_route.as_deref(), Some("handoff-current"));
}
