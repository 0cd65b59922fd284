use agent_browser_service::decision::ProfileIdentityAssurance;
use agent_browser_service::json::{JsonMember, JsonValue};
use agent_browser_service::lifecycle::{
    begin_profile_tab_eviction, evict_command_fields, eviction_target, physical_close_outcome, replayed_eviction_receipt,
    check_profile_tab_settlement, close_evicted_tab, finish_profile_tab_settlement, record_uncertain_profile_tab_eviction,
    restore_profile_tab_after_failed_eviction, routes_for_session, settle_profile_tab_eviction, terminate_route_viewer_leases, prove_profile_tab_eviction, register_profile_eviction_authorization, ProfileEvictionMode,
    ProfileEvictionPlan, ProfileLifecycleAuthorization, ProfileLifecycleAuthorizationState,
    ProfileTabPhysicalObservation, PROFILE_LIFECYCLE_PROOF_SCHEMA_V1,
};
use agent_browser_service::model::{
    BrowserProfile, BrowserSession, BrowserTab, LeaseState, RemoteViewRoute, ViewerLease, ProfileAccessFence, RuntimeOwnerRegistry, ServicePrincipals, ServiceState,
    TabLifecycle,
};

fn plan() -> ProfileEvictionPlan {
    ProfileEvictionPlan {
        plan_id: "profile-eviction-plan:test".to_string(),
        profile_id: "research-gov".to_string(),
        policy_revision: 7,
        requested_by: Some("principal:admin".to_string()),
        mode: ProfileEvictionMode::ForceImmediate,
        grace_deadline: None,
        target_resource_ids: vec!["tab:fieldwork".to_string()],
    }
}

fn tab(id: &str, target: &str, owner_session: &str) -> BrowserTab {
    BrowserTab {
        id: id.to_string(),
        browser_id: "browser:research".to_string(),
        owner_session_id: Some(owner_session.to_string()),
        principal_id: None,
        principal_provenance: None,
        lifecycle: TabLifecycle::Ready,
        work_lease_expires_at: None,
        target_id: Some(target.to_string()),
        session_id: None,
        service_tab_handle: None,
    }
}

fn authorized_state() -> (ServiceState, ProfileLifecycleAuthorization) {
    let mut authorizations = Vec::new();
    let authorization = register_profile_eviction_authorization(
        &mut authorizations,
        &plan(),
        ProfileIdentityAssurance::RegisteredCapability,
        "2026-09-02T20:00:00Z",
    )
    .ok()
    .unwrap();
    let state = ServiceState {
        state_revision: 0,
        profiles: vec![BrowserProfile {
            id: "research-gov".to_string(),
            user_data_dir: None,
            identity_digest: None,
            profile_origin: "managed".to_string(),
            profile_class: "named_account".to_string(),
            access_fence: Some(ProfileAccessFence { revision: 7, draining: true, force_authorized: true }),
            target_service_ids: Vec::new(),
            authenticated_service_ids: Vec::new(),
        }],
        browsers: Vec::new(),
        sessions: Vec::new(),
        tabs: vec![tab("tab:fieldwork", "target:research", "research-runtime")],
        remote_view_routes: Vec::new(),
        runtime_owner_registry: RuntimeOwnerRegistry {
            revision: 0,
            owners: Vec::new(),
            principal_bindings: Vec::new(),
            lifecycle_records: Vec::new(),
        },
        service_principals: ServicePrincipals { principals: Vec::new(), profile_capabilities: Vec::new() },
        profile_lifecycle_authorizations: authorizations,
        profile_lifecycle_effect_receipts: Vec::new(),
        profile_lease_reconcile_receipts: Vec::new(),
        viewer_leases: Vec::new(),
        events: Vec::new(),
        profile_recovery_receipts: Vec::new(),
    };
    (state, authorization)
}

fn observation(target: &str, observed_at: &str) -> ProfileTabPhysicalObservation {
    ProfileTabPhysicalObservation {
        daemon_session_id: "research-runtime".to_string(),
        browser_id: "browser:research".to_string(),
        target_id: target.to_string(),
        attached_target_ids: vec!["target:research".to_string()],
        observed_at: observed_at.to_string(),
    }
}

#[test]
fn eviction_requires_permission_authorization_and_exact_attached_target() {
    let (state, authorization) = authorized_state();
    let proof = prove_profile_tab_eviction(
        &state,
        &authorization.authorization_id,
        "tab:fieldwork",
        &observation("target:research", "2026-09-02T20:00:01Z"),
    )
    .ok()
    .unwrap();
    assert_eq!(proof.tab_id, "tab:fieldwork");
    assert_eq!(proof.target_id, "target:research");
    assert_eq!(proof.schema_version, PROFILE_LIFECYCLE_PROOF_SCHEMA_V1);
    assert_eq!(
        proof.proof_id,
        "profile-lifecycle-proof:0236cc82da5326cace50014fc1daec6763f645288dcb16d811cd6b85e97e6f39"
    );

    let wrong_target = prove_profile_tab_eviction(
        &state,
        &authorization.authorization_id,
        "tab:fieldwork",
        &observation("target:other", "2026-09-02T20:00:01Z"),
    )
    .err()
    .unwrap();
    assert_eq!(wrong_target, "profile_lifecycle_physical_target_mismatch");
}

#[test]
fn changed_policy_fence_invalidates_an_unconsumed_authorization() {
    let (mut state, authorization) = authorized_state();
    state.profiles[0].access_fence = Some(ProfileAccessFence { revision: 8, draining: true, force_authorized: true });
    let error = prove_profile_tab_eviction(
        &state,
        &authorization.authorization_id,
        "tab:fieldwork",
        &observation("target:research", "2026-09-02T20:00:01Z"),
    )
    .err()
    .unwrap();
    assert_eq!(error, "profile_lifecycle_policy_fence_changed");
}

#[test]
fn post_grace_force_cannot_run_before_its_authorized_deadline() {
    let (mut state, authorization) = authorized_state();
    let current = &mut state.profile_lifecycle_authorizations[0];
    current.eviction_mode = ProfileEvictionMode::ForceAfterGrace;
    current.grace_deadline = Some("2026-09-02T20:05:00Z".to_string());

    let error = prove_profile_tab_eviction(
        &state,
        &authorization.authorization_id,
        "tab:fieldwork",
        &observation("target:research", "2026-09-02T20:04:59Z"),
    )
    .err()
    .unwrap();
    assert_eq!(error, "profile_lifecycle_grace_period_active");

    assert!(prove_profile_tab_eviction(
        &state,
        &authorization.authorization_id,
        "tab:fieldwork",
        &observation("target:research", "2026-09-02T20:05:00Z"),
    )
    .is_ok());

    let offset = prove_profile_tab_eviction(
        &state,
        &authorization.authorization_id,
        "tab:fieldwork",
        &observation("target:research", "2026-09-02T22:04:59+02:00"),
    )
    .err()
    .unwrap();
    assert_eq!(offset, "profile_lifecycle_grace_period_active");
}

#[test]
fn graceful_only_authorization_cannot_be_used_for_a_forced_effect() {
    let (mut state, authorization) = authorized_state();
    state.profile_lifecycle_authorizations[0].eviction_mode = ProfileEvictionMode::GracefulOnly;
    let error = prove_profile_tab_eviction(
        &state,
        &authorization.authorization_id,
        "tab:fieldwork",
        &observation("target:research", "2026-09-02T20:00:01Z"),
    )
    .err()
    .unwrap();
    assert_eq!(error, "profile_lifecycle_force_not_authorized");
}

#[test]
fn registration_is_idempotent_and_refuses_conflicts() {
    let mut authorizations = Vec::new();
    let first = register_profile_eviction_authorization(
        &mut authorizations,
        &plan(),
        ProfileIdentityAssurance::RegisteredCapability,
        "2026-09-02T20:00:00Z",
    )
    .ok()
    .unwrap();
    assert!(first.state == ProfileLifecycleAuthorizationState::Authorized);
    assert_eq!(first.permission, "evict");
    let again = register_profile_eviction_authorization(
        &mut authorizations,
        &plan(),
        ProfileIdentityAssurance::RegisteredCapability,
        "2026-09-02T20:00:00Z",
    )
    .ok()
    .unwrap();
    assert_eq!(again.authorization_id, first.authorization_id);
    assert_eq!(authorizations.len(), 1);

    let conflict = register_profile_eviction_authorization(
        &mut authorizations,
        &plan(),
        ProfileIdentityAssurance::RegisteredCapability,
        "2026-09-02T21:00:00Z",
    )
    .err()
    .unwrap();
    assert_eq!(conflict, "profile_lifecycle_authorization_conflict");
    assert_eq!(authorizations.len(), 1);

    let mut earlier = plan();
    earlier.plan_id = "profile-eviction-plan:a".to_string();
    register_profile_eviction_authorization(
        &mut authorizations,
        &earlier,
        ProfileIdentityAssurance::Operator,
        "2026-09-02T20:00:00Z",
    )
    .ok()
    .unwrap();
    assert_eq!(authorizations[0].authorization_id, "profile-eviction-plan:a");
    assert_eq!(authorizations[1].authorization_id, "profile-eviction-plan:test");
}

#[test]
fn registration_requires_assurance_and_canonical_targets() {
    let mut authorizations = Vec::new();
    let weak = register_profile_eviction_authorization(
        &mut authorizations,
        &plan(),
        ProfileIdentityAssurance::SelfDeclared,
        "2026-09-02T20:00:00Z",
    )
    .err()
    .unwrap();
    assert_eq!(weak, "profile_lifecycle_authorization_invalid");

    let mut unsorted = plan();
    unsorted.target_resource_ids = vec!["tab:b".to_string(), "tab:a".to_string()];
    let error = register_profile_eviction_authorization(
        &mut authorizations,
        &unsorted,
        ProfileIdentityAssurance::RegisteredCapability,
        "2026-09-02T20:00:00Z",
    )
    .err()
    .unwrap();
    assert_eq!(error, "profile_lifecycle_authorization_targets_noncanonical");

    let mut duplicated = plan();
    duplicated.target_resource_ids = vec!["tab:a".to_string(), "tab:a".to_string()];
    assert!(register_profile_eviction_authorization(
        &mut authorizations,
        &duplicated,
        ProfileIdentityAssurance::RegisteredCapability,
        "2026-09-02T20:00:00Z",
    )
    .is_err());
    assert!(authorizations.is_empty());
}

#[test]
fn eviction_refuses_missing_and_unauthorized_targets() {
    let (mut state, authorization) = authorized_state();
    let missing = prove_profile_tab_eviction(
        &state,
        "profile-eviction-plan:unknown",
        "tab:fieldwork",
        &observation("target:research", "2026-09-02T20:00:01Z"),
    )
    .err()
    .unwrap();
    assert_eq!(missing, "profile_lifecycle_authorization_missing");

    let other = prove_profile_tab_eviction(
        &state,
        &authorization.authorization_id,
        "tab:other",
        &observation("target:research", "2026-09-02T20:00:01Z"),
    )
    .err()
    .unwrap();
    assert_eq!(other, "profile_lifecycle_authorization_mismatch");

    state.tabs[0].owner_session_id = None;
    let unrouted = prove_profile_tab_eviction(
        &state,
        &authorization.authorization_id,
        "tab:fieldwork",
        &observation("target:research", "2026-09-02T20:00:01Z"),
    )
    .err()
    .unwrap();
    assert_eq!(unrouted, "profile_lifecycle_daemon_route_unproven");

    state.tabs[0].session_id = Some("research-runtime".to_string());
    assert!(prove_profile_tab_eviction(
        &state,
        &authorization.authorization_id,
        "tab:fieldwork",
        &observation("target:research", "2026-09-02T20:00:01Z"),
    )
    .is_ok());
}

fn session(id: &str) -> BrowserSession {
    BrowserSession {
        id: id.to_string(),
        profile_id: Some("research-gov".to_string()),
        lease: LeaseState::Exclusive,
        expires_at: None,
        principal_id: None,
        principal_provenance: None,
        browser_ids: vec!["browser:research".to_string()],
        tab_ids: Vec::new(),
        last_lease_observed_at: None,
        boot_epoch: None,
        work_lease_revision: 0,
    }
}

fn settle(
    state: &mut ServiceState,
    proof: &agent_browser_service::lifecycle::ProfileLifecycleProof,
    completed_at: &str,
) -> Result<agent_browser_service::lifecycle::ProfileLifecycleEffectReceipt, String> {
    settle_profile_tab_eviction(state, proof, completed_at, Vec::new())
}

#[test]
fn settlement_closes_only_the_proven_tab_and_persists_a_minimal_receipt() {
    let (mut state, authorization) = authorized_state();
    state.tabs.push(BrowserTab { browser_id: "browser:research".to_string(), ..tab("tab:other", "target:other", "other-runtime") });
    let mut o = observation("target:research", "2026-09-02T20:00:01Z");
    o.attached_target_ids = vec!["target:research".to_string(), "target:other".to_string()];
    let proof = prove_profile_tab_eviction(&state, &authorization.authorization_id, "tab:fieldwork", &o).ok().unwrap();

    let receipt = settle(&mut state, &proof, "2026-09-02T20:00:02Z").ok().unwrap();

    let fieldwork = state.tabs.iter().find(|t| t.id == "tab:fieldwork").unwrap();
    let other = state.tabs.iter().find(|t| t.id == "tab:other").unwrap();
    assert!(fieldwork.lifecycle == TabLifecycle::Closed);
    assert!(other.lifecycle == TabLifecycle::Ready);
    assert!(state.profile_lifecycle_authorizations[0].state == ProfileLifecycleAuthorizationState::Completed);
    assert_eq!(receipt.outcome, "forced_eviction_completed");
    assert!(state.profile_lifecycle_effect_receipts.iter().any(|r| r.receipt_id == receipt.receipt_id));
    let recorded = format!(
        "{} {} {} {} {} {:?} {:?}",
        receipt.receipt_id,
        receipt.profile_id,
        receipt.tab_id,
        receipt.browser_id,
        receipt.target_id,
        receipt.released_session_id,
        receipt.terminated_viewer_lease_ids
    );
    assert!(!recorded.contains("page"));
    assert!(!recorded.contains("form"));
    assert!(!recorded.contains("user-data"));
}

#[test]
fn settlement_releases_an_unshared_session_and_lists_its_viewer_leases_once() {
    let (mut state, authorization) = authorized_state();
    state.sessions = vec![session("research-runtime")];
    state.remote_view_routes = vec![
        RemoteViewRoute { id: "route-b".to_string(), browser_id: None, session_id: Some("research-runtime".to_string()), viewer_lease_ids: Vec::new(), last_provider_event: None },
        RemoteViewRoute { id: "route-c".to_string(), browser_id: None, session_id: Some("elsewhere".to_string()), viewer_lease_ids: Vec::new(), last_provider_event: None },
    ];
    let proof = prove_profile_tab_eviction(
        &state,
        &authorization.authorization_id,
        "tab:fieldwork",
        &observation("target:research", "2026-09-02T20:00:01Z"),
    )
    .ok()
    .unwrap();
    check_profile_tab_settlement(&state, &proof).ok().unwrap();
    let released = close_evicted_tab(&mut state, &proof, "2026-09-02T20:00:02Z");
    assert_eq!(released.as_deref(), Some("research-runtime"));
    assert!(state.sessions[0].lease == LeaseState::Released);
    assert_eq!(state.sessions[0].last_lease_observed_at.as_deref(), Some("2026-09-02T20:00:02Z"));
    assert_eq!(routes_for_session(&state, "research-runtime"), vec!["route-b".to_string()]);
    let leases = vec!["viewer-2".to_string(), "viewer-1".to_string(), "viewer-2".to_string()];
    let receipt = finish_profile_tab_settlement(
        &mut state,
        &proof,
        "2026-09-02T20:00:02Z",
        vec!["job-1".to_string()],
        released,
        &leases,
    );
    assert_eq!(receipt.terminated_viewer_lease_ids, vec!["viewer-1".to_string(), "viewer-2".to_string()]);
    assert_eq!(receipt.cancelled_job_ids, vec!["job-1".to_string()]);
    assert_eq!(receipt.released_session_id.as_deref(), Some("research-runtime"));
    assert_eq!(receipt.completed_at, "2026-09-02T20:00:02Z");
}

#[test]
fn settlement_keeps_a_session_another_live_tab_still_uses() {
    let (mut state, authorization) = authorized_state();
    state.sessions = vec![session("research-runtime")];
    state.tabs.push(tab("tab:sibling", "target:sibling", "research-runtime"));
    let proof = prove_profile_tab_eviction(
        &state,
        &authorization.authorization_id,
        "tab:fieldwork",
        &observation("target:research", "2026-09-02T20:00:01Z"),
    )
    .ok()
    .unwrap();
    let receipt = settle(&mut state, &proof, "2026-09-02T20:00:02Z").ok().unwrap();
    assert!(receipt.released_session_id.is_none());
    assert!(state.sessions[0].lease == LeaseState::Exclusive);
}

#[test]
fn settlement_refuses_a_changed_target_and_uncertain_close_stays_incomplete() {
    let (mut state, authorization) = authorized_state();
    let proof = prove_profile_tab_eviction(
        &state,
        &authorization.authorization_id,
        "tab:fieldwork",
        &observation("target:research", "2026-09-02T20:00:01Z"),
    )
    .ok()
    .unwrap();
    state.tabs[0].target_id = Some("target:replaced".to_string());
    assert_eq!(check_profile_tab_settlement(&state, &proof).err().as_deref(), Some("profile_lifecycle_effect_target_changed"));

    let receipt = record_uncertain_profile_tab_eviction(&mut state, &proof, "2026-09-02T20:00:03Z").ok().unwrap();
    assert_eq!(receipt.outcome, "physical_close_acknowledged_settlement_uncertain");
    assert!(receipt.receipt_id.starts_with("profile-lifecycle-receipt:"));
    assert!(state.profile_lifecycle_authorizations[0].state == ProfileLifecycleAuthorizationState::Incomplete);
    assert_eq!(state.profile_lifecycle_effect_receipts.len(), 1);

    let missing = agent_browser_service::lifecycle::ProfileLifecycleProof {
        schema_version: proof.schema_version.clone(),
        proof_id: proof.proof_id.clone(),
        authorization_id: "profile-eviction-plan:unknown".to_string(),
        profile_id: proof.profile_id.clone(),
        policy_revision: proof.policy_revision,
        tab_id: proof.tab_id.clone(),
        browser_id: proof.browser_id.clone(),
        target_id: proof.target_id.clone(),
        daemon_session_id: proof.daemon_session_id.clone(),
        observed_at: proof.observed_at.clone(),
    };
    assert_eq!(
        record_uncertain_profile_tab_eviction(&mut state, &missing, "t").err().as_deref(),
        Some("profile_lifecycle_authorization_missing")
    );
}

#[test]
fn failed_eviction_restores_only_a_closing_proven_tab() {
    let (mut state, authorization) = authorized_state();
    let proof = prove_profile_tab_eviction(
        &state,
        &authorization.authorization_id,
        "tab:fieldwork",
        &observation("target:research", "2026-09-02T20:00:01Z"),
    )
    .ok()
    .unwrap();
    restore_profile_tab_after_failed_eviction(&mut state, &proof);
    assert!(state.tabs[0].lifecycle == TabLifecycle::Ready);
    state.tabs[0].lifecycle = TabLifecycle::Closing;
    restore_profile_tab_after_failed_eviction(&mut state, &proof);
    assert!(state.tabs[0].lifecycle == TabLifecycle::Ready);
    state.tabs[0].lifecycle = TabLifecycle::Closing;
    state.tabs[0].browser_id = "browser:other".to_string();
    restore_profile_tab_after_failed_eviction(&mut state, &proof);
    assert!(state.tabs[0].lifecycle == TabLifecycle::Closing);
}

fn convert(value: &serde_json::Value) -> JsonValue {
    match value {
        serde_json::Value::Null => JsonValue::Null,
        serde_json::Value::Bool(b) => JsonValue::Bool(*b),
        serde_json::Value::Number(n) => JsonValue::UInt(n.as_u64().unwrap_or(0)),
        serde_json::Value::String(s) => JsonValue::Str(s.clone()),
        serde_json::Value::Array(items) => JsonValue::Array(items.iter().map(convert).collect()),
        serde_json::Value::Object(members) => JsonValue::Object(
            members.iter().map(|(k, v)| JsonMember { key: k.clone(), value: convert(v) }).collect(),
        ),
    }
}

fn text_json(text: &str) -> JsonValue {
    convert(&serde_json::from_str::<serde_json::Value>(text).unwrap())
}

#[test]
fn eviction_steps_check_the_command_the_target_and_the_close_acknowledgement() {
    assert_eq!(
        evict_command_fields(&text_json(r#"{"authorizationId": " ", "tabId": "t"}"#)).err().as_deref(),
        Some("service_profile_tab_evict requires authorizationId")
    );
    assert_eq!(
        evict_command_fields(&text_json(r#"{"authorizationId": "a"}"#)).err().as_deref(),
        Some("service_profile_tab_evict requires tabId")
    );
    assert_eq!(
        evict_command_fields(&text_json(r#"{"authorizationId": "a", "tabId": "t"}"#)).ok(),
        Some(("a".to_string(), "t".to_string()))
    );

    let (mut state, authorization) = authorized_state();
    assert_eq!(
        eviction_target(&state, "tab:fieldwork").ok(),
        Some(("browser:research".to_string(), "target:research".to_string()))
    );
    assert_eq!(eviction_target(&state, "tab:none").err().as_deref(), Some("profile_lifecycle_tab_missing"));

    let o = observation("target:research", "2026-09-02T20:00:01Z");
    let proof = prove_profile_tab_eviction(&state, &authorization.authorization_id, "tab:fieldwork", &o).ok().unwrap();
    begin_profile_tab_eviction(&mut state, &authorization.authorization_id, "tab:fieldwork", &o, &proof).ok().unwrap();
    assert!(state.tabs[0].lifecycle == TabLifecycle::Closing);
    assert_eq!(
        begin_profile_tab_eviction(&mut state, &authorization.authorization_id, "tab:fieldwork", &o, &proof)
            .err()
            .as_deref(),
        Some("profile_lifecycle_effect_target_changed")
    );

    assert!(physical_close_outcome(&text_json(r#"{"closeCommandAcknowledged": true}"#)).is_ok());
    assert_eq!(
        physical_close_outcome(&text_json(r#"{"closeCommandAcknowledged": false, "closeCommandError": "detached"}"#))
            .err()
            .as_deref(),
        Some("profile_lifecycle_physical_close_unproven:detached")
    );
    assert_eq!(
        physical_close_outcome(&text_json("{}")).err().as_deref(),
        Some("profile_lifecycle_physical_close_unproven:unknown")
    );

    assert!(replayed_eviction_receipt(&state, &authorization.authorization_id, "tab:fieldwork").is_none());
    let receipt = settle(&mut state, &proof, "2026-09-02T20:00:02Z").ok().unwrap();
    let replay = replayed_eviction_receipt(&state, &authorization.authorization_id, "tab:fieldwork").unwrap();
    assert_eq!(replay.receipt_id, receipt.receipt_id);
}

fn viewer(id: &str) -> ViewerLease {
    ViewerLease { id: id.to_string(), state: "connected".to_string(), last_viewer_event: None, updated_at: None }
}

#[test]
fn eviction_disconnects_the_viewers_of_the_released_session_routes_only() {
    let (mut state, _) = authorized_state();
    state.remote_view_routes = vec![
        RemoteViewRoute {
            id: "route-b".to_string(),
            browser_id: None,
            session_id: Some("research-runtime".to_string()),
            viewer_lease_ids: vec!["viewer-2".to_string(), "viewer-1".to_string(), "viewer-9".to_string()],
            last_provider_event: None,
        },
        RemoteViewRoute {
            id: "route-c".to_string(),
            browser_id: None,
            session_id: Some("elsewhere".to_string()),
            viewer_lease_ids: vec!["viewer-3".to_string()],
            last_provider_event: None,
        },
    ];
    state.viewer_leases = vec![viewer("viewer-1"), viewer("viewer-2"), viewer("viewer-3")];
    let routes = routes_for_session(&state, "research-runtime");
    let terminated = terminate_route_viewer_leases(&mut state, &routes, "2026-09-02T20:00:02Z");
    assert_eq!(terminated, vec!["viewer-2".to_string(), "viewer-1".to_string()]);
    for i in 0..2 {
        assert_eq!(state.viewer_leases[i].state, "disconnected");
        assert_eq!(state.viewer_leases[i].last_viewer_event.as_deref(), Some("profile_evicted"));
        assert_eq!(state.viewer_leases[i].updated_at.as_deref(), Some("2026-09-02T20:00:02Z"));
    }
    assert_eq!(state.viewer_leases[2].state, "connected");
    assert!(state.remote_view_routes[0].viewer_lease_ids.is_empty());
    assert_eq!(state.remote_view_routes[0].last_provider_event.as_deref(), Some("profile_evicted"));
    assert_eq!(state.remote_view_routes[1].viewer_lease_ids, vec!["viewer-3".to_string()]);
    assert_eq!(state.remote_view_routes[1].last_provider_event, None);
    let again = terminate_route_viewer_leases(&mut state, &routes, "2026-09-02T20:00:03Z");
    assert!(again.is_empty());
}

#[test]
fn settling_an_eviction_releases_the_session_and_ends_its_route_viewers() {
    let (mut state, authorization) = authorized_state();
    state.sessions = vec![session("research-runtime")];
    state.remote_view_routes = vec![
        RemoteViewRoute {
            id: "route-b".to_string(),
            browser_id: None,
            session_id: Some("research-runtime".to_string()),
            viewer_lease_ids: vec!["viewer-2".to_string(), "viewer-1".to_string()],
            last_provider_event: None,
        },
        RemoteViewRoute {
            id: "route-c".to_string(),
            browser_id: None,
            session_id: Some("elsewhere".to_string()),
            viewer_lease_ids: vec!["viewer-3".to_string()],
            last_provider_event: None,
        },
    ];
    state.viewer_leases = vec![viewer("viewer-1"), viewer("viewer-2"), viewer("viewer-3")];
    let proof = prove_profile_tab_eviction(
        &state,
        &authorization.authorization_id,
        "tab:fieldwork",
        &observation("target:research", "2026-09-02T20:00:01Z"),
    )
    .ok()
    .unwrap();
    let receipt =
        settle_profile_tab_eviction(&mut state, &proof, "2026-09-02T20:00:02Z", vec!["job-7".to_string()]).ok().unwrap();
    assert_eq!(receipt.released_session_id.as_deref(), Some("research-runtime"));
    assert_eq!(receipt.terminated_viewer_lease_ids, vec!["viewer-1".to_string(), "viewer-2".to_string()]);
    assert_eq!(receipt.cancelled_job_ids, vec!["job-7".to_string()]);
    assert_eq!(receipt.outcome, "forced_eviction_completed");
    assert!(state.sessions[0].lease == LeaseState::Released);
    assert_eq!(state.viewer_leases[0].state, "disconnected");
    assert_eq!(state.viewer_leases[1].state, "disconnected");
    assert_eq!(state.viewer_leases[2].state, "connected");
    assert!(state.remote_view_routes[0].viewer_lease_ids.is_empty());
    assert_eq!(state.remote_view_routes[1].viewer_lease_ids, vec!["viewer-3".to_string()]);
    let fieldwork = state.tabs.iter().find(|t| t.id == "tab:fieldwork").unwrap();
    assert!(fieldwork.lifecycle == TabLifecycle::Closed);
    assert!(fieldwork.service_tab_handle.is_none());
    assert!(state.profile_lifecycle_authorizations[0].state == ProfileLifecycleAuthorizationState::Completed);
}
