use agent_browser_service::acquisition::{
    authenticated_cold_session_name, boot_epoch_is_not_prior, lifecycle_replacement_decision,
    reusable_session_name_for_browser, self_declared_subject, terminal_replacement_launch_session_name,
    ServiceAccessPlanRequest,
};
use agent_browser_service::model::{
    AuthenticatedServicePrincipal, BrowserProcess, BrowserProfile, BrowserSession, LeaseState,
    ProfileOwner, ProfileOwnerState, RuntimeLaneLifecycleState, RuntimeLifecycleRecord,
    RuntimeOwnerRegistry, ServicePrincipalProvenance, ServicePrincipals, ServiceState,
};
use agent_browser_service::reuse::{profile_reuse_decision, ActiveLeaseClaim};

const DIGEST: &str = "5f1d9c3e0a7b4c2d8e6f1a3b5c7d9e0f2a4b6c8d0e1f3a5b7c9d1e3f5a7b9c1d";
const BROWSER: &str = "session:durable-browser";

fn profile(origin: &str) -> BrowserProfile {
    BrowserProfile {
        id: "last30days-facebook".to_string(),
        user_data_dir: Some("/tmp/agent-browser-p137/recovery-contract".to_string()),
        identity_digest: Some(DIGEST.to_string()),
        profile_origin: origin.to_string(),
        profile_class: "named_account".to_string(),
        access_fence: None,
        target_service_ids: Vec::new(),
        authenticated_service_ids: Vec::new(),
    }
}

fn browser(id: &str, pid: Option<u64>, sessions: &[&str]) -> BrowserProcess {
    BrowserProcess {
        id: id.to_string(),
        profile_id: Some("last30days-facebook".to_string()),
        pid,
        health: "ready".to_string(),
        boot_epoch: None,
        host: "local_headless".to_string(),
        display_isolation: None,
        view_streams: Vec::new(),
        active_session_ids: sessions.iter().map(|s| s.to_string()).collect(),
    }
}

fn session(id: &str, principal: Option<&str>, browser_ids: &[&str]) -> BrowserSession {
    BrowserSession {
        id: id.to_string(),
        profile_id: Some("last30days-facebook".to_string()),
        lease: LeaseState::Exclusive,
        expires_at: None,
        principal_id: principal.map(str::to_string),
        principal_provenance: principal.map(|_| ServicePrincipalProvenance::RegisteredCapability),
        browser_ids: browser_ids.iter().map(|s| s.to_string()).collect(),
        tab_ids: Vec::new(),
        last_lease_observed_at: None,
        boot_epoch: None,
        work_lease_revision: 1,
    }
}

fn terminal_state() -> ServiceState {
    ServiceState {
        state_revision: 0,
        profiles: vec![profile("managed")],
        browsers: Vec::new(),
        sessions: Vec::new(),
        tabs: Vec::new(),
        remote_view_routes: Vec::new(),
        runtime_owner_registry: RuntimeOwnerRegistry {
            revision: 55,
            owners: vec![ProfileOwner {
                owner_id: "owner:generation-55".to_string(),
                profile_identity_digest: DIGEST.to_string(),
                state: ProfileOwnerState::Ready,
                owner_generation: 55,
                browser_id: BROWSER.to_string(),
                daemon_session_route: "handoff-a79ef2887412addf".to_string(),
                process_instance_digest: "process".to_string(),
                pending_transfer: false,
            }],
            principal_bindings: Vec::new(),
            lifecycle_records: vec![RuntimeLifecycleRecord {
                logical_browser_id: BROWSER.to_string(),
                profile_identity_digest: DIGEST.to_string(),
                owner_generation: 55,
                lifecycle_state: RuntimeLaneLifecycleState::Terminal,
                cleanup_obligation_state: "satisfied".to_string(),
                terminal_evidence: vec!["exact_process_exited".to_string(), "profile_lock_released".to_string()],
            }],
        },
        service_principals: ServicePrincipals { principals: Vec::new(), profile_capabilities: Vec::new() },
        profile_lifecycle_authorizations: Vec::new(),
        profile_lifecycle_effect_receipts: Vec::new(),
        profile_lease_reconcile_receipts: Vec::new(),
        viewer_leases: Vec::new(),
        events: Vec::new(),
        profile_recovery_receipts: Vec::new(),
    }
}

fn request() -> ServiceAccessPlanRequest {
    ServiceAccessPlanRequest {
        service_name: Some("Last30days".to_string()),
        agent_name: Some("agent".to_string()),
        task_name: Some("task".to_string()),
        client_subject_id: None,
        runtime_profile: Some("last30days-facebook".to_string()),
        session_name: None,
        browser_host: None,
        view_stream_provider: None,
        control_input_provider: None,
        display_isolation: None,
        target_service_ids: vec!["facebook".to_string()],
        account_ids: Vec::new(),
        target_url: None,
    }
}

fn authority(principal: &str) -> AuthenticatedServicePrincipal {
    AuthenticatedServicePrincipal {
        principal_id: principal.to_string(),
        profile_id: "last30days-facebook".to_string(),
        capability_id: "capability:last30days".to_string(),
        capability_revision: 1,
        provenance: ServicePrincipalProvenance::RegisteredCapability,
    }
}

#[test]
fn terminal_owner_with_satisfied_cleanup_is_replaceable_on_a_fresh_route() {
    let state = terminal_state();
    let selected = profile("managed");
    let replacement = lifecycle_replacement_decision(Some(&selected), &state);
    assert!(replacement.available);
    assert!(replacement.replacement_eligible);
    assert!(replacement.process_absence_proven);
    assert_eq!(replacement.reason, "terminal_cleanup_satisfied");
    assert_eq!(replacement.required_action.as_deref(), Some("supersede_terminal_owner"));
    assert_eq!(replacement.replacement_browser_id.as_deref(), Some(BROWSER));
    assert_eq!(replacement.replacement_session_name.as_deref(), Some("handoff-a79ef2887412addf"));
    assert_eq!(replacement.registry_revision, Some(55));
    assert_eq!(
        terminal_replacement_launch_session_name(&selected, &replacement).as_deref(),
        Some("terminal-profile-f27054379a2e8d333f4b962d")
    );
}

#[test]
fn live_process_or_held_lease_withholds_replacement() {
    let mut state = terminal_state();
    state.browsers.push(browser(BROWSER, Some(7137), &[]));
    let selected = profile("managed");
    let replacement = lifecycle_replacement_decision(Some(&selected), &state);
    assert!(!replacement.replacement_eligible);
    assert_eq!(replacement.reason, "terminal_process_still_live");
    assert_eq!(replacement.required_action.as_deref(), Some("inspect_lifecycle_owner"));
    assert_eq!(terminal_replacement_launch_session_name(&selected, &replacement), None);

    let mut state = terminal_state();
    state.sessions.push(session("holder", None, &[]));
    let replacement = lifecycle_replacement_decision(Some(&selected), &state);
    assert!(!replacement.replacement_eligible);
    assert_eq!(replacement.reason, "terminal_profile_lease_active");
    assert_eq!(replacement.active_profile_lease_session_ids, vec!["holder".to_string()]);
}

#[test]
fn replacement_without_profile_or_owner() {
    let state = terminal_state();
    let none = lifecycle_replacement_decision(None, &state);
    assert!(!none.available);
    assert_eq!(none.reason, "no_selected_profile");

    let mut unresolved = profile("managed");
    unresolved.identity_digest = None;
    let unknown = lifecycle_replacement_decision(Some(&unresolved), &state);
    assert!(!unknown.available);
    assert_eq!(unknown.reason, "profile_identity_unavailable");

    let mut state = terminal_state();
    state.runtime_owner_registry.owners.clear();
    state.runtime_owner_registry.lifecycle_records.clear();
    let ownerless = lifecycle_replacement_decision(Some(&profile("managed")), &state);
    assert!(ownerless.available);
    assert!(ownerless.replacement_eligible);
    assert_eq!(ownerless.reason, "no_lifecycle_owner");
    assert_eq!(ownerless.required_action.as_deref(), Some("launch_new_browser"));
}

#[test]
fn cold_session_name_is_stable_and_bound_to_the_profile() {
    let mut selected = profile("managed");
    selected.id = "odollo-fulfillment".to_string();
    let mut odollo = authority("principal:odollo");
    odollo.profile_id = "odollo-fulfillment".to_string();
    assert_eq!(
        authenticated_cold_session_name(&odollo, &selected).as_deref(),
        Some("principal-profile-1b7aa5084eb99642674b9f20")
    );
    odollo.profile_id = "another-profile".to_string();
    assert_eq!(authenticated_cold_session_name(&odollo, &selected), None);
}

#[test]
fn boot_epochs_and_reusable_session_names() {
    assert!(boot_epoch_is_not_prior(&None, &Some("boot-2".to_string())));
    assert!(boot_epoch_is_not_prior(&Some("boot-2".to_string()), &Some("boot-2".to_string())));
    assert!(!boot_epoch_is_not_prior(&Some("boot-1".to_string()), &Some("boot-2".to_string())));

    let mut state = terminal_state();
    state.browsers.push(browser("browser-a", Some(1), &["listed-session"]));
    state.browsers.push(browser("session:named", Some(2), &[]));
    assert_eq!(reusable_session_name_for_browser(&state, "browser-a").as_deref(), Some("listed-session"));
    assert_eq!(reusable_session_name_for_browser(&state, "session:named").as_deref(), Some("named"));
    assert_eq!(reusable_session_name_for_browser(&state, "unknown"), None);

    assert_eq!(self_declared_subject(&request()).as_deref(), Some("service:Last30days/agent:agent/task:task"));
}

#[test]
fn reuse_decision_follows_identity_and_live_browsers() {
    let selected = profile("managed");
    let mut state = terminal_state();
    state.runtime_owner_registry.owners.clear();
    state.runtime_owner_registry.lifecycle_records.clear();
    state.browsers.push(browser("browser-a", Some(1), &["session-own"]));
    state.sessions.push(session("session-own", Some("principal:last30days"), &["browser-a"]));
    let replacement = lifecycle_replacement_decision(Some(&selected), &state);
    let own = authority("principal:last30days");

    let reuse = profile_reuse_decision(
        &request(),
        Some(&selected),
        &state,
        &None,
        false,
        &replacement,
        Some(&own),
        true,
        &None,
        &None,
    );
    assert_eq!(reuse.recommended_action, "reuse_existing_browser");
    assert_eq!(reuse.reusable_browser_id.as_deref(), Some("browser-a"));
    assert_eq!(reuse.reusable_session_name.as_deref(), Some("session-own"));
    assert_eq!(reuse.principal_bound_session_ids, vec!["session-own".to_string()]);

    let foreign = authority("principal:foreign");
    let blocked = profile_reuse_decision(
        &request(),
        Some(&selected),
        &state,
        &None,
        false,
        &replacement,
        Some(&foreign),
        true,
        &None,
        &None,
    );
    assert_eq!(blocked.recommended_action, "wait_for_foreign_principal");
    assert_eq!(blocked.foreign_principal_session_ids, vec!["session-own".to_string()]);
    assert_eq!(blocked.reusable_browser_id, None);

    let anonymous = profile_reuse_decision(
        &request(),
        Some(&selected),
        &state,
        &None,
        false,
        &replacement,
        None,
        true,
        &None,
        &None,
    );
    assert_eq!(anonymous.recommended_action, "authenticate_for_profile_reuse");

    let seeding = profile_reuse_decision(
        &request(),
        Some(&selected),
        &state,
        &None,
        true,
        &replacement,
        Some(&own),
        true,
        &None,
        &None,
    );
    assert_eq!(seeding.recommended_action, "seed_profile_before_reuse");

    let claim = ActiveLeaseClaim {
        claim_id: "claim-1".to_string(),
        revision: 1,
        fencing_token: 1,
        principal_id: "principal:foreign".to_string(),
    };
    let claimed = profile_reuse_decision(
        &request(),
        Some(&selected),
        &state,
        &None,
        false,
        &replacement,
        Some(&own),
        true,
        &Some(claim),
        &None,
    );
    assert_eq!(claimed.recommended_action, "wait_for_foreign_principal");
}

#[test]
fn reuse_decision_summaries_for_missing_and_observed_profiles() {
    let state = terminal_state();
    let replacement = lifecycle_replacement_decision(None, &state);
    let none = profile_reuse_decision(
        &request(), None, &state, &None, false, &replacement, None, false, &None, &None,
    );
    assert_eq!(none.recommended_action, "register_or_select_profile");
    assert_eq!(none.reasons, vec!["no_selected_profile".to_string()]);

    let mut state = terminal_state();
    state.browsers.push(browser("browser-a", Some(1), &[]));
    let observed = profile("external_observed");
    let external = profile_reuse_decision(
        &request(), Some(&observed), &state, &None, false, &replacement, None, false, &None, &None,
    );
    assert_eq!(external.recommended_action, "launch_new_browser");
    assert_eq!(external.same_profile_live_browser_ids, vec!["browser-a".to_string()]);
    assert_eq!(external.reasons, vec!["external_observed_not_reusable".to_string()]);

    let mut stale = terminal_state();
    let mut old = browser("browser-old", Some(3), &[]);
    old.boot_epoch = Some("boot-1".to_string());
    stale.browsers.push(old);
    let managed = profile("managed");
    let replacement = lifecycle_replacement_decision(Some(&managed), &stale);
    let reuse = profile_reuse_decision(
        &request(),
        Some(&managed),
        &stale,
        &None,
        false,
        &replacement,
        None,
        false,
        &None,
        &Some("boot-2".to_string()),
    );
    assert!(reuse.same_profile_live_browser_ids.is_empty());
    assert_eq!(reuse.reusable_browser_id, None);
}
