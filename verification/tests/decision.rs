use agent_browser_service::acquisition::{lifecycle_replacement_decision, ServiceAccessPlanRequest};
use agent_browser_service::decision::{
    acquisition_blocker, authorization_object, decide_profile_acquisition, profile_access_query,
    service_request_decision, AccessAdmission, LaunchPosture, ProfileAcquisitionDecision,
    ProfileAcquisitionDisposition, ProfileIdentityAssurance, ProfileRecommendation,
};
use agent_browser_service::json::{JsonMember, JsonValue};
use agent_browser_service::model::{
    AuthenticatedServicePrincipal, BrowserProcess, BrowserProfile, BrowserSession, LeaseState,
    ProfileOwner, ProfileOwnerState, RuntimeLaneLifecycleState, RuntimeLifecycleRecord,
    RuntimeOwnerRegistry, ServicePrincipalProvenance, ServicePrincipals, ServiceState,
};
use agent_browser_service::reuse::{profile_reuse_decision, ProfileReuse};

const DIGEST: &str = "5f1d9c3e0a7b4c2d8e6f1a3b5c7d9e0f2a4b6c8d0e1f3a5b7c9d1e3f5a7b9c1d";
const BROWSER: &str = "session:durable-browser";
const COLD_ROUTE: &str = "principal-profile-01f4d0c1ce8aa31147006653";

fn profile() -> BrowserProfile {
    BrowserProfile {
        id: "last30days-facebook".to_string(),
        user_data_dir: Some("  /tmp/agent-browser-p137/recovery-contract ".to_string()),
        identity_digest: Some(DIGEST.to_string()),
        profile_origin: "managed".to_string(),
        profile_class: "named_account".to_string(),
        access_fence: None,
        target_service_ids: Vec::new(),
        authenticated_service_ids: Vec::new(),
    }
}

fn empty_state() -> ServiceState {
    ServiceState {
        state_revision: 0,
        profiles: vec![profile()],
        browsers: Vec::new(),
        sessions: Vec::new(),
        tabs: Vec::new(),
        remote_view_routes: Vec::new(),
        runtime_owner_registry: RuntimeOwnerRegistry {
            revision: 3,
            owners: Vec::new(),
            principal_bindings: Vec::new(),
            lifecycle_records: Vec::new(),
        },
        service_principals: ServicePrincipals { principals: Vec::new(), profile_capabilities: Vec::new() },
        profile_lifecycle_authorizations: Vec::new(),
        profile_lifecycle_effect_receipts: Vec::new(),
        profile_lease_reconcile_receipts: Vec::new(),
        viewer_leases: Vec::new(),
        events: Vec::new(),
        profile_recovery_receipts: Vec::new(),
    }
}

fn terminal_state() -> ServiceState {
    let mut state = empty_state();
    state.runtime_owner_registry.revision = 55;
    state.runtime_owner_registry.owners.push(ProfileOwner {
        owner_id: "owner:generation-55".to_string(),
        profile_identity_digest: DIGEST.to_string(),
        state: ProfileOwnerState::Ready,
        owner_generation: 55,
        browser_id: BROWSER.to_string(),
        daemon_session_route: "handoff-a79ef2887412addf".to_string(),
        process_instance_digest: "process".to_string(),
        pending_transfer: false,
    });
    state.runtime_owner_registry.lifecycle_records.push(RuntimeLifecycleRecord {
        logical_browser_id: BROWSER.to_string(),
        profile_identity_digest: DIGEST.to_string(),
        owner_generation: 55,
        lifecycle_state: RuntimeLaneLifecycleState::Terminal,
        cleanup_obligation_state: "satisfied".to_string(),
        terminal_evidence: vec!["exact_process_exited".to_string(), "profile_lock_released".to_string()],
    });
    state
}

fn live_state() -> ServiceState {
    let mut state = empty_state();
    state.browsers.push(BrowserProcess {
        id: "browser-a".to_string(),
        profile_id: Some("last30days-facebook".to_string()),
        pid: Some(11),
        health: "ready".to_string(),
        boot_epoch: None,
        host: "local_headless".to_string(),
        display_isolation: None,
        view_streams: Vec::new(),
        active_session_ids: vec!["session-own".to_string()],
    });
    state.sessions.push(BrowserSession {
        id: "session-own".to_string(),
        profile_id: Some("last30days-facebook".to_string()),
        lease: LeaseState::Exclusive,
        expires_at: None,
        principal_id: Some("principal:last30days".to_string()),
        principal_provenance: Some(ServicePrincipalProvenance::RegisteredCapability),
        browser_ids: vec!["browser-a".to_string()],
        tab_ids: Vec::new(),
        last_lease_observed_at: None,
        boot_epoch: None,
        work_lease_revision: 1,
    });
    state
}

fn request() -> ServiceAccessPlanRequest {
    ServiceAccessPlanRequest {
        service_name: Some("Last30days".to_string()),
        agent_name: Some("agent".to_string()),
        task_name: Some("task".to_string()),
        client_subject_id: None,
        runtime_profile: Some("last30days-facebook".to_string()),
        session_name: None,
        browser_host: None,
        view_stream_provider: None,
        control_input_provider: None,
        display_isolation: None,
        target_service_ids: vec!["facebook".to_string()],
        account_ids: Vec::new(),
        target_url: Some("https://www.facebook.com/".to_string()),
    }
}

fn authority() -> AuthenticatedServicePrincipal {
    AuthenticatedServicePrincipal {
        principal_id: "principal:last30days".to_string(),
        profile_id: "last30days-facebook".to_string(),
        capability_id: "capability:last30days".to_string(),
        capability_revision: 4,
        provenance: ServicePrincipalProvenance::RegisteredCapability,
    }
}

fn admission(allowed: bool) -> AccessAdmission {
    AccessAdmission {
        allowed,
        policy_revision: 7,
        decision_id: "access-decision-1".to_string(),
        subject_id: Some("principal:last30days".to_string()),
        identity_assurance: "registered-capability".to_string(),
        connection_instance_id: Some("connection-1".to_string()),
    }
}

fn posture() -> LaunchPosture {
    LaunchPosture {
        requires_cdp_free: None,
        cdp_attachment_allowed: None,
        browser_build: Some("chrome".to_string()),
        headed: Some(true),
        browser_host: Some("local_headed".to_string()),
        view_stream_provider: None,
        control_input_provider: None,
        display_isolation: Some(":7".to_string()),
    }
}

fn no_recommendation() -> ProfileRecommendation {
    ProfileRecommendation { runtime_profile: None, profile_class: None }
}

fn reuse_for(state: &ServiceState, authority: Option<&AuthenticatedServicePrincipal>) -> ProfileReuse {
    let selected = profile();
    let replacement = lifecycle_replacement_decision(Some(&selected), state);
    profile_reuse_decision(&request(), Some(&selected), state, &None, false, &replacement, authority, true, &None, &None)
}

fn object(members: Vec<(&str, JsonValue)>) -> JsonValue {
    JsonValue::Object(members.into_iter().map(|(key, value)| JsonMember { key: key.to_string(), value }).collect())
}

fn member<'a>(value: &'a JsonValue, key: &str) -> Option<&'a JsonValue> {
    match value {
        JsonValue::Object(members) => members.iter().find(|m| m.key == key).map(|m| &m.value),
        _ => None,
    }
}

fn text<'a>(value: &'a JsonValue, key: &str) -> Option<&'a str> {
    match member(value, key) {
        Some(JsonValue::Str(s)) => Some(s.as_str()),
        _ => None,
    }
}

#[test]
fn blockers_follow_access_then_reuse_then_terminal_capability() {
    let state = live_state();
    let own = authority();
    let reuse = reuse_for(&state, Some(&own));
    let replacement = lifecycle_replacement_decision(Some(&profile()), &state);
    assert_eq!(acquisition_blocker(&admission(false), &reuse, true, &replacement), Some("profile_access_denied"));
    assert_eq!(acquisition_blocker(&admission(true), &reuse, true, &replacement), None);

    let anonymous = reuse_for(&state, None);
    assert_eq!(anonymous.recommended_action, "authenticate_for_profile_reuse");
    assert_eq!(
        acquisition_blocker(&admission(true), &anonymous, false, &replacement),
        Some("profile_capability_required")
    );

    let terminal = terminal_state();
    let terminal_replacement = lifecycle_replacement_decision(Some(&profile()), &terminal);
    let launch = reuse_for(&terminal, None);
    assert_eq!(launch.recommended_action, "launch_new_browser");
    assert_eq!(
        acquisition_blocker(&admission(true), &launch, false, &terminal_replacement),
        Some("profile_capability_required")
    );
    assert_eq!(acquisition_blocker(&admission(true), &launch, true, &terminal_replacement), None);
}

#[test]
fn reused_browser_request_carries_its_exact_route() {
    let state = live_state();
    let own = authority();
    let selected = profile();
    let reuse = reuse_for(&state, Some(&own));
    let replacement = lifecycle_replacement_decision(Some(&selected), &state);
    let decision = service_request_decision(
        &request(),
        Some(&selected),
        false,
        false,
        false,
        &posture(),
        &reuse,
        &replacement,
        &no_recommendation(),
        None,
        Some(&own),
        &admission(true),
    );
    assert!(decision.available);
    assert!(!decision.blocked_by_acquisition);
    assert_eq!(decision.runtime_profile.as_deref(), Some("last30days-facebook"));
    assert_eq!(decision.profile_class.as_deref(), Some("named_account"));
    let request = decision.request.as_ref().expect("request");
    assert_eq!(request.browser_id.as_deref(), Some("browser-a"));
    assert_eq!(request.session_name.as_deref(), Some("session-own"));
    assert_eq!(request.profile.as_deref(), Some("/tmp/agent-browser-p137/recovery-contract"));
    assert_eq!(request.client_subject_id.as_deref(), Some("principal:last30days"));
    assert_eq!(request.policy_revision, 7);
    assert_eq!(request.headless, Some(false));
    assert_eq!(request.browser_host.as_deref(), Some("local_headed"));
    assert_eq!(request.display_isolation.as_deref(), Some(":7"));
    assert_eq!(request.url.as_deref(), Some("https://www.facebook.com/"));
    assert_eq!(request.target_service_ids, vec!["facebook".to_string()]);
    assert!(request.cdp_attachment_allowed);

    let joined = ProfileAcquisitionDecision::from_components(
        Some(&selected),
        &admission(true),
        &reuse,
        &replacement,
        &decision,
    )
    .ok()
    .unwrap();
    assert!(joined.disposition() == ProfileAcquisitionDisposition::ReuseExistingBrowser);
    assert_eq!(joined.browser_id(), Some("browser-a"));
    assert_eq!(joined.session_name(), Some("session-own"));
    assert_eq!(joined.selected_profile_id(), Some("last30days-facebook"));

    let mut command = object(vec![("action", JsonValue::Str("tab_new".to_string()))]);
    joined.apply_to_service_command(&mut command, Some(&own)).ok().unwrap();
    assert_eq!(text(&command, "browserId"), Some("browser-a"));
    assert_eq!(text(&command, "sessionName"), Some("session-own"));
    assert_eq!(text(&command, "accessDecisionId"), Some("access-decision-1"));
    assert_eq!(text(&command, "identityAssurance"), Some("registered-capability"));
    assert_eq!(text(&command, "connectionInstanceId"), Some("connection-1"));
    assert!(matches!(member(&command, "policyRevision"), Some(JsonValue::UInt(7))));
    assert_eq!(text(&command, "action"), Some("tab_new"));
    assert!(member(&command, "serviceProfileRouteAuthorization").is_none());
}

#[test]
fn cold_launch_routes_through_the_principal_route_with_authorization() {
    let state = empty_state();
    let own = authority();
    let plan = decide_profile_acquisition(
        &request(),
        Some(&profile()),
        &state,
        false,
        false,
        false,
        &posture(),
        &no_recommendation(),
        Some(&own),
        &admission(true),
        true,
        &None,
        &None,
    );
    assert_eq!(plan.profile_reuse.recommended_action, "launch_new_browser");
    assert!(plan.service_request.available);
    let request = plan.service_request.request.as_ref().unwrap();
    assert_eq!(request.session_name.as_deref(), Some(COLD_ROUTE));
    let decision = plan.decision.ok().unwrap();
    assert!(decision.disposition() == ProfileAcquisitionDisposition::LaunchNewBrowser);
    assert_eq!(decision.session_name(), Some(COLD_ROUTE));

    let mut command = object(vec![("action", JsonValue::Str("tab_new".to_string()))]);
    decision.apply_to_service_command(&mut command, Some(&own)).ok().unwrap();
    assert_eq!(text(&command, "sessionName"), Some(COLD_ROUTE));
    let authorization = member(&command, "serviceProfileRouteAuthorization").expect("authorization");
    assert_eq!(text(authorization, "kind"), Some("authenticated_cold"));
    assert_eq!(text(authorization, "sessionName"), Some(COLD_ROUTE));
    assert_eq!(text(authorization, "principalId"), Some("principal:last30days"));
    assert_eq!(text(authorization, "capabilityId"), Some("capability:last30days"));
    assert_eq!(text(authorization, "schemaVersion"), Some("agent-browser.profile-launch-route-authorization.v1"));
    assert!(matches!(member(authorization, "capabilityRevision"), Some(JsonValue::UInt(4))));
    assert!(matches!(member(authorization, "runtimeOwnerRegistryRevision"), Some(JsonValue::UInt(3))));
    assert!(matches!(member(authorization, "ownerGeneration"), Some(JsonValue::Null)));

    let mut partial = object(vec![("browserId", JsonValue::Str("browser-x".to_string()))]);
    assert_eq!(
        decision.apply_to_service_command(&mut partial, Some(&own)).err().unwrap(),
        "service_access_plan_incomplete_route_hints"
    );
    assert_eq!(text(&partial, "browserId"), Some("browser-x"));
    assert_eq!(text(&partial, "accessDecisionId"), Some("access-decision-1"));
}

#[test]
fn blocked_acquisition_withholds_the_request_and_fails_route_application() {
    let state = live_state();
    let plan = decide_profile_acquisition(
        &request(),
        Some(&profile()),
        &state,
        false,
        false,
        false,
        &posture(),
        &no_recommendation(),
        None,
        &admission(true),
        true,
        &None,
        &None,
    );
    assert_eq!(plan.service_request.acquisition_blocker.as_deref(), Some("profile_capability_required"));
    assert!(plan.service_request.request.is_none());
    assert!(!plan.service_request.available);
    let decision = plan.decision.ok().unwrap();
    assert!(decision.disposition() == ProfileAcquisitionDisposition::Blocked);
    let mut command = object(Vec::new());
    assert_eq!(
        decision.apply_to_service_command(&mut command, None).err().unwrap(),
        "service_access_plan_request_unavailable:profile_capability_required"
    );
}

#[test]
fn cdp_free_posture_and_manual_action_block_availability() {
    let state = empty_state();
    let own = authority();
    let selected = profile();
    let reuse = reuse_for(&state, Some(&own));
    let replacement = lifecycle_replacement_decision(Some(&selected), &state);
    let mut cdp_free = posture();
    cdp_free.requires_cdp_free = Some(true);
    let decision = service_request_decision(
        &request(),
        Some(&selected),
        false,
        false,
        false,
        &cdp_free,
        &reuse,
        &replacement,
        &no_recommendation(),
        None,
        Some(&own),
        &admission(true),
    );
    assert!(decision.blocked_by_cdp_free);
    assert!(!decision.cdp_attachment_allowed);
    assert!(!decision.available);
    assert!(decision.request.as_ref().unwrap().requires_cdp_free);

    let manual = service_request_decision(
        &request(),
        Some(&selected),
        false,
        true,
        true,
        &posture(),
        &reuse,
        &replacement,
        &no_recommendation(),
        None,
        Some(&own),
        &admission(true),
    );
    assert!(!manual.available);
    assert!(manual.recommended_after_manual_action);
    let request = manual.request.unwrap();
    assert!(request.blocked_by_manual_action);
    assert!(request.manual_seeding_required);
}

#[test]
fn recommendation_supplies_profile_lane_without_a_selection() {
    let state = empty_state();
    let mut unlabeled = request();
    unlabeled.runtime_profile = None;
    let recommendation = ProfileRecommendation {
        runtime_profile: Some("one-time-profile".to_string()),
        profile_class: Some("one_time".to_string()),
    };
    let replacement = lifecycle_replacement_decision(None, &state);
    let reuse = profile_reuse_decision(&unlabeled, None, &state, &None, false, &replacement, None, false, &None, &None);
    let decision = service_request_decision(
        &unlabeled,
        None,
        false,
        false,
        false,
        &posture(),
        &reuse,
        &replacement,
        &recommendation,
        None,
        None,
        &admission(true),
    );
    assert_eq!(decision.runtime_profile.as_deref(), Some("one-time-profile"));
    assert_eq!(decision.profile_class.as_deref(), Some("one_time"));
    assert_eq!(decision.selected_profile_id, None);
    assert!(decision.available);

    let nothing = ProfileRecommendation { runtime_profile: None, profile_class: None };
    let unavailable = service_request_decision(
        &unlabeled,
        None,
        false,
        false,
        false,
        &posture(),
        &reuse,
        &replacement,
        &nothing,
        None,
        None,
        &admission(true),
    );
    assert!(!unavailable.available);
    assert_eq!(unavailable.runtime_profile, None);
}

#[test]
fn access_query_prefers_authentication_and_lists_foreign_occupancy() {
    let mut state = live_state();
    state.sessions.insert(0, BrowserSession {
        id: "session-other".to_string(),
        profile_id: Some("last30days-facebook".to_string()),
        lease: LeaseState::HumanTakeover,
        expires_at: None,
        principal_id: None,
        principal_provenance: None,
        browser_ids: Vec::new(),
        tab_ids: Vec::new(),
        last_lease_observed_at: None,
        boot_epoch: None,
        work_lease_revision: 0,
    });
    let own = authority();
    let query = profile_access_query(&request(), Some(&profile()), &state, Some(&own), &None);
    assert_eq!(query.profile_id, "last30days-facebook");
    assert_eq!(query.subject_id.as_deref(), Some("principal:last30days"));
    assert!(query.assurance == ProfileIdentityAssurance::RegisteredCapability);
    assert_eq!(query.incompatible_occupancy, vec!["session-other".to_string()]);

    let declared = profile_access_query(&request(), None, &state, None, &None);
    assert_eq!(declared.subject_id.as_deref(), Some("service:Last30days/agent:agent/task:task"));
    assert!(declared.assurance == ProfileIdentityAssurance::SelfDeclared);
    assert_eq!(
        declared.incompatible_occupancy,
        vec!["session-other".to_string(), "session-own".to_string()]
    );

    let mut anonymous = request();
    anonymous.service_name = None;
    anonymous.agent_name = None;
    anonymous.task_name = None;
    anonymous.runtime_profile = None;
    let unknown = profile_access_query(&anonymous, None, &state, None, &None);
    assert_eq!(unknown.profile_id, "unselected");
    assert!(unknown.assurance == ProfileIdentityAssurance::Unknown);
    assert!(unknown.incompatible_occupancy.is_empty());
}

#[test]
fn route_authorization_object_has_every_member() {
    let own = authority();
    let plan = decide_profile_acquisition(
        &request(),
        Some(&profile()),
        &empty_state(),
        false,
        false,
        false,
        &posture(),
        &no_recommendation(),
        Some(&own),
        &admission(true),
        true,
        &None,
        &None,
    );
    let decision = plan.decision.ok().unwrap();
    let route = decision.route_command(None, None, Some(&own)).ok().unwrap();
    let authorization = route.route_authorization.expect("authorization");
    let object = authorization_object(&authorization);
    assert_eq!(text(&object, "profileId"), Some("last30days-facebook"));
    assert!(matches!(member(&object, "ownerId"), Some(JsonValue::Null)));
    assert_eq!(route.session_name.as_deref(), Some(COLD_ROUTE));
}
