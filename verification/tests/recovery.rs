use agent_browser_service::digest::digest_text;
use agent_browser_service::recovery_apply::{
    finish_terminal_recovery, terminal_recovery_step, ProfileAcquisitionRetryResult, RecoveryApplyAction,
};
use agent_browser_service::json::{JsonMember, JsonValue};
use agent_browser_service::model::{
    AuthenticatedServicePrincipal, BrowserProcess, BrowserProfile, BrowserSession, LeaseState,
    ProfileOwner, ProfileOwnerState, RuntimeLaneLifecycleState, RuntimeLifecycleRecord,
    RuntimeOwnerPrincipalBinding, RuntimeOwnerRegistry, ServicePrincipalProvenance,
    ServicePrincipals, ServiceState,
};
use agent_browser_service::recovery::{
    acquire_profile_claim_for_intent, dominant_profile_blocker, mitigation_action_registry,
    plan_profile_acquisition, plan_terminal_owner_recovery, profile_blocker_dominance_order,
    verify_plan_integrity, MitigationActionType, ProfileAcquisitionIntent, ProfileAcquisitionState,
    ProfileClaimStep, RecoveryEffectAuthority, PROFILE_RECOVERY_PLAN_SCHEMA_V1,
    profile_acquisition_retry_route, protected_existing_owner_disposition, protected_profile_daemon_route,
    ProtectedAuthorityObservationState, ProtectedExistingOwnerDisposition,
    acquisition_intent_from_command, optional_command_string, optional_command_string_array,
    profile_acquisition_retry_command, protected_owner_step, protected_profile_acquisition_launch_command,
    required_command_string, ProtectedOwnerStep,
};

const PROFILE_DIGEST: &str = "5f1d9c3e0a7b4c2d8e6f1a3b5c7d9e0f2a4b6c8d0e1f3a5b7c9d1e3f5a7b9c1d";

fn seal_key() -> &'static [u8] {
    b"synthetic-profile-capability-seal-key-with-at-least-thirty-two-bytes"
}

fn profile() -> BrowserProfile {
    BrowserProfile {
        id: "last30days-facebook".to_string(),
        user_data_dir: Some("/tmp/agent-browser-p137/recovery-contract".to_string()),
        identity_digest: Some(PROFILE_DIGEST.to_string()),
        profile_origin: "managed".to_string(),
        profile_class: "named_account".to_string(),
        access_fence: None,
        target_service_ids: Vec::new(),
        authenticated_service_ids: Vec::new(),
    }
}

fn browser(id: &str, profile_id: Option<&str>, pid: Option<u64>) -> BrowserProcess {
    BrowserProcess {
        id: id.to_string(),
        profile_id: profile_id.map(str::to_string),
        pid,
        health: "ready".to_string(),
        boot_epoch: None,
        host: "local_headless".to_string(),
        display_isolation: None,
        view_streams: Vec::new(),
        active_session_ids: Vec::new(),
    }
}

fn state() -> ServiceState {
    let browser_id = "session:durable-browser".to_string();
    ServiceState {
        state_revision: 0,
        profiles: vec![profile()],
        browsers: Vec::new(),
        sessions: Vec::new(),
        tabs: Vec::new(),
        remote_view_routes: Vec::new(),
        runtime_owner_registry: RuntimeOwnerRegistry {
            revision: 55,
            owners: vec![ProfileOwner {
                owner_id: "owner:generation-55".to_string(),
                profile_identity_digest: PROFILE_DIGEST.to_string(),
                state: ProfileOwnerState::Ready,
                owner_generation: 55,
                browser_id: browser_id.clone(),
                daemon_session_route: "handoff-a79ef2887412addf".to_string(),
                process_instance_digest: digest_text("old-process"),
                pending_transfer: false,
            }],
            principal_bindings: Vec::new(),
            lifecycle_records: vec![RuntimeLifecycleRecord {
                logical_browser_id: browser_id,
                profile_identity_digest: PROFILE_DIGEST.to_string(),
                owner_generation: 55,
                lifecycle_state: RuntimeLaneLifecycleState::Terminal,
                cleanup_obligation_state: "satisfied".to_string(),
                terminal_evidence: vec![
                    "exact_process_exited".to_string(),
                    "profile_lock_released".to_string(),
                ],
            }],
        },
        service_principals: ServicePrincipals { principals: Vec::new(), profile_capabilities: Vec::new() },
        profile_lifecycle_authorizations: Vec::new(),
        profile_lifecycle_effect_receipts: Vec::new(),
        profile_lease_reconcile_receipts: Vec::new(),
        viewer_leases: Vec::new(),
        events: Vec::new(),
        profile_recovery_receipts: Vec::new(),
    }
}

fn ready_state(principal_id: &str, include_binding: bool) -> ServiceState {
    let mut state = state();
    let owner_browser = state.runtime_owner_registry.owners[0].browser_id.clone();
    let generation = state.runtime_owner_registry.owners[0].owner_generation;
    let lifecycle = &mut state.runtime_owner_registry.lifecycle_records[0];
    lifecycle.lifecycle_state = RuntimeLaneLifecycleState::Ready;
    lifecycle.cleanup_obligation_state = "owned".to_string();
    lifecycle.terminal_evidence.clear();
    state.browsers.push(browser(&owner_browser, None, Some(7137)));
    if include_binding {
        state.runtime_owner_registry.principal_bindings.push(RuntimeOwnerPrincipalBinding {
            principal_id: principal_id.to_string(),
            profile_id: "last30days-facebook".to_string(),
            profile_identity_digest: PROFILE_DIGEST.to_string(),
            capability_id: "capability:test".to_string(),
            provenance: ServicePrincipalProvenance::RegisteredCapability,
            owner_generation: generation,
        });
    }
    state
}

fn intent() -> ProfileAcquisitionIntent {
    ProfileAcquisitionIntent {
        principal_id: "principal:last30days".to_string(),
        profile_id: "last30days-facebook".to_string(),
        service_name: "Last30days".to_string(),
        agent_name: "last30days-agent".to_string(),
        task_name: "acquire-facebook-profile".to_string(),
        target_service_ids: vec!["facebook".to_string()],
    }
}

fn last30days_authority() -> AuthenticatedServicePrincipal {
    AuthenticatedServicePrincipal {
        principal_id: "principal:last30days".to_string(),
        profile_id: "last30days-facebook".to_string(),
        capability_id: "capability:last30days".to_string(),
        capability_revision: 1,
        provenance: ServicePrincipalProvenance::RegisteredCapability,
    }
}

#[test]
fn acquisition_coordinator_reuses_current_process_backed_principal_lane() {
    let state = ready_state("principal:last30days", true);
    let outcome = plan_profile_acquisition(
        &state,
        intent(),
        "2026-08-28T12:00:00Z",
        "2026-08-28T12:05:00Z",
        "request-ready",
        seal_key(),
    )
    .unwrap();

    assert!(outcome.state == ProfileAcquisitionState::Acquired);
    assert_eq!(outcome.browser_id.as_deref(), Some("session:durable-browser"));
    assert_eq!(outcome.daemon_session_route.as_deref(), Some("handoff-a79ef2887412addf"));
    assert!(outcome.recovery.is_none());
}

#[test]
fn acquisition_coordinator_hard_blocks_current_foreign_principal() {
    let state = ready_state("principal:foreign", true);
    let outcome = plan_profile_acquisition(
        &state,
        intent(),
        "2026-08-28T12:00:00Z",
        "2026-08-28T12:05:00Z",
        "request-foreign",
        seal_key(),
    )
    .unwrap();

    assert!(outcome.state == ProfileAcquisitionState::Blocked);
    assert_eq!(outcome.dominant_blocker.unwrap().code, "live_foreign_principal_authority");
    assert_eq!(outcome.next_action.as_deref(), Some("wait_or_coordinate_with_current_principal"));
    assert!(outcome.recovery.is_none());
}

#[test]
fn acquisition_coordinator_offers_reviewed_identity_reconciliation_without_launch() {
    let state = ready_state("principal:last30days", false);
    let outcome = plan_profile_acquisition(
        &state,
        intent(),
        "2026-08-28T12:00:00Z",
        "2026-08-28T12:05:00Z",
        "request-unproven",
        seal_key(),
    )
    .unwrap();

    assert!(outcome.state == ProfileAcquisitionState::RecoveryAvailable);
    assert!(!outcome.automatic);
    assert_eq!(outcome.dominant_blocker.unwrap().code, "existing_session_profile_identity_unproven");
    assert!(
        outcome.recovery.unwrap().actions[0].action_type
            == MitigationActionType::ReconcileExactPrincipalProfileIdentity
    );
}

#[test]
fn mitigation_dominance_keeps_live_foreign_authority_above_recoverable_defects() {
    assert_eq!(
        dominant_profile_blocker(&[
            "expired_ownerless_lease",
            "runtime_owner_principal_binding_missing",
            "live_foreign_principal_authority",
        ])
        .as_deref(),
        Some("live_foreign_principal_authority")
    );
}

#[test]
fn mitigation_registry_classifies_every_dominant_blocker_with_exact_scope() {
    let registry = mitigation_action_registry();
    for blocker in profile_blocker_dominance_order() {
        if blocker == "live_foreign_principal_authority" {
            continue;
        }
        let descriptors = registry
            .iter()
            .filter(|descriptor| descriptor.blocker_codes.iter().any(|code| code == blocker))
            .collect::<Vec<_>>();
        assert!(!descriptors.is_empty(), "actionless blocker: {blocker}");
        assert!(descriptors.iter().all(|descriptor| {
            descriptor.effect_authority == RecoveryEffectAuthority::ExactProfileGraph
                && !descriptor.executor_action.is_empty()
                && !descriptor.preconditions.is_empty()
                && !descriptor.compensation.is_empty()
        }));
    }
}

#[test]
fn terminal_owner_plan_is_sealed_deterministic_and_zero_effect() {
    let state = state();
    let first = plan_terminal_owner_recovery(
        &state,
        intent(),
        "2026-08-28T12:00:00Z",
        "2026-08-28T12:05:00Z",
        "request-1",
        seal_key(),
    )
    .unwrap();
    let replay = plan_terminal_owner_recovery(
        &state,
        intent(),
        "2026-08-28T12:00:00Z",
        "2026-08-28T12:05:00Z",
        "request-1",
        seal_key(),
    )
    .unwrap();

    assert_eq!(state.runtime_owner_registry.revision, 55);
    assert_eq!(state.runtime_owner_registry.owners.len(), 1);
    let first_plan = first.recovery.as_ref().unwrap();
    let replay_plan = replay.recovery.as_ref().unwrap();
    assert_eq!(first_plan.plan_id, replay_plan.plan_id);
    assert_eq!(first_plan.recovery_id, replay_plan.recovery_id);
    assert_eq!(first_plan.integrity_seal, replay_plan.integrity_seal);
    assert_eq!(first_plan.actions[0].action_id, replay_plan.actions[0].action_id);
    assert!(first.state == ProfileAcquisitionState::RecoveryAvailable);
    let plan = first.recovery.unwrap();
    assert_eq!(plan.schema_version, PROFILE_RECOVERY_PLAN_SCHEMA_V1);
    assert_eq!(plan.service_state_revision, 55);
    assert_eq!(plan.identities.lifecycle_owner_generation, 55);
    assert_eq!(plan.identities.durable_browser_id, "session:durable-browser");
    assert_eq!(plan.identities.daemon_session_route, "handoff-a79ef2887412addf");
    assert_eq!(plan.integrity_seal.len(), 71);
    assert!(plan.integrity_seal.starts_with("sha256:"));
    assert_eq!(plan.actions.len(), 1);
    assert!(plan.actions[0].action_type == MitigationActionType::SupersedeTerminalOwner);
}

#[test]
fn terminal_owner_plan_preserves_secondary_evidence_when_blocked() {
    let mut state = state();
    state.runtime_owner_registry.lifecycle_records[0].terminal_evidence =
        vec!["profile_lock_released".to_string()];

    let outcome = plan_terminal_owner_recovery(
        &state,
        intent(),
        "2026-08-28T12:00:00Z",
        "2026-08-28T12:05:00Z",
        "request-2",
        seal_key(),
    )
    .unwrap();

    assert!(outcome.state == ProfileAcquisitionState::Blocked);
    assert_eq!(outcome.dominant_blocker.unwrap().code, "terminal_owner_evidence_incomplete");
    assert_eq!(outcome.evidence[0].code, "profile_lock_released");
    assert!(outcome.recovery.is_none());
}

#[test]
fn atomic_profile_claim_refuses_current_foreign_owner() {
    let initial = ready_state("principal:foreign", true);
    let error = match acquire_profile_claim_for_intent(
        &initial,
        &Ok(last30days_authority()),
        &intent(),
        false,
        "2026-08-28T12:00:00Z",
        "2026-08-28T12:05:00Z",
        "foreign-owner-acquire",
        seal_key(),
    ) {
        Ok(_) => panic!("a foreign owner must refuse the claim"),
        Err(error) => error,
    };

    assert_eq!(error, "profile_acquisition_preflight_live_foreign_principal_authority");
    assert_eq!(initial.runtime_owner_registry.principal_bindings.len(), 1);
    assert_eq!(initial.runtime_owner_registry.principal_bindings[0].principal_id, "principal:foreign");
}

#[test]
fn reviewed_recovery_does_not_create_an_active_claim() {
    let initial = ready_state("principal:last30days", false);
    let error = match acquire_profile_claim_for_intent(
        &initial,
        &Ok(last30days_authority()),
        &intent(),
        false,
        "2026-08-28T12:00:00Z",
        "2026-08-28T12:05:00Z",
        "reviewed-recovery-acquire",
        seal_key(),
    ) {
        Ok(_) => panic!("a reviewed recovery must not admit a claim"),
        Err(error) => error,
    };

    assert_eq!(error, "profile_acquisition_preflight_existing_session_profile_identity_unproven");
    assert!(initial.runtime_owner_registry.principal_bindings.is_empty());
}

#[test]
fn completed_acquisition_replay_precedes_new_foreign_owner_preflight() {
    let mut initial = state();
    initial.runtime_owner_registry = RuntimeOwnerRegistry {
        revision: 0,
        owners: Vec::new(),
        principal_bindings: Vec::new(),
        lifecycle_records: Vec::new(),
    };
    let first = acquire_profile_claim_for_intent(
        &initial,
        &Ok(last30days_authority()),
        &intent(),
        false,
        "2026-08-28T12:00:00Z",
        "2026-08-28T12:05:00Z",
        "stable-acquisition-operation",
        seal_key(),
    )
    .unwrap();
    assert!(matches!(first, ProfileClaimStep::Acquire { owner_generation: None }));

    let foreign = ready_state("principal:foreign", true);
    initial.runtime_owner_registry = foreign.runtime_owner_registry;
    initial.browsers = foreign.browsers;

    let replayed = acquire_profile_claim_for_intent(
        &initial,
        &Ok(last30days_authority()),
        &intent(),
        true,
        "2026-08-28T12:10:00Z",
        "2026-08-28T12:15:00Z",
        "stable-acquisition-operation",
        seal_key(),
    )
    .unwrap();
    assert!(matches!(replayed, ProfileClaimStep::Replay));

    let current_outcome = plan_profile_acquisition(
        &initial,
        intent(),
        "2026-08-28T12:10:00Z",
        "2026-08-28T12:15:00Z",
        "stable-acquisition-operation",
        seal_key(),
    )
    .unwrap();
    assert!(current_outcome.state == ProfileAcquisitionState::Blocked);
}

#[test]
fn live_process_or_active_profile_lease_blocks_recovery_planning() {
    let mut live_process = state();
    live_process
        .browsers
        .push(browser("session:durable-browser", Some("last30days-facebook"), Some(9137)));
    let live_outcome = plan_terminal_owner_recovery(
        &live_process,
        intent(),
        "2026-08-28T12:00:00Z",
        "2026-08-28T12:05:00Z",
        "request-live-1",
        seal_key(),
    )
    .unwrap();
    assert!(live_outcome.state == ProfileAcquisitionState::Blocked);

    let mut active_lease = state();
    active_lease.sessions.push(BrowserSession {
        id: "foreign-session".to_string(),
        profile_id: Some("last30days-facebook".to_string()),
        lease: LeaseState::Exclusive,
        expires_at: None,
        principal_id: Some("principal:foreign".to_string()),
        principal_provenance: None,
        browser_ids: Vec::new(),
        tab_ids: Vec::new(),
        last_lease_observed_at: None,
        boot_epoch: None,
        work_lease_revision: 0,
    });
    let lease_outcome = plan_terminal_owner_recovery(
        &active_lease,
        intent(),
        "2026-08-28T12:00:00Z",
        "2026-08-28T12:05:00Z",
        "request-lease-1",
        seal_key(),
    )
    .unwrap();
    assert!(lease_outcome.state == ProfileAcquisitionState::Blocked);
}

#[test]
fn sealed_terminal_plan_verifies_and_an_altered_seal_does_not() {
    let outcome = plan_terminal_owner_recovery(
        &state(),
        intent(),
        "2026-08-28T12:00:00Z",
        "2026-08-28T12:05:00Z",
        "request-seal",
        seal_key(),
    )
    .unwrap();
    let mut plan = outcome.recovery.unwrap();
    assert!(verify_plan_integrity(&plan, seal_key()).is_ok());
    let short_key: &[u8] = b"short";
    assert_eq!(verify_plan_integrity(&plan, short_key).unwrap_err(), "profile_recovery_plan_invalid");
    plan.integrity_seal = format!("sha256:{}", "0".repeat(64));
    assert_eq!(
        verify_plan_integrity(&plan, seal_key()).unwrap_err(),
        "profile_recovery_plan_integrity_mismatch"
    );
}

#[test]
fn missing_owner_and_missing_profile_have_exact_outcomes() {
    let mut unowned = state();
    unowned.runtime_owner_registry.owners.clear();
    let outcome = plan_profile_acquisition(
        &unowned,
        intent(),
        "2026-08-28T12:00:00Z",
        "2026-08-28T12:05:00Z",
        "request-unowned",
        seal_key(),
    )
    .unwrap();
    assert!(outcome.state == ProfileAcquisitionState::Blocked);
    assert_eq!(outcome.dominant_blocker.as_ref().unwrap().code, "runtime_owner_missing");
    assert!(outcome.dominant_blocker.as_ref().unwrap().recoverable);
    assert_eq!(outcome.next_action.as_deref(), Some("register_exact_profile_owner"));

    let mut missing = state();
    missing.profiles.clear();
    assert_eq!(
        plan_profile_acquisition(&missing, intent(), "t", "u", "k", seal_key()).err().unwrap(),
        "profile_recovery_profile_missing"
    );
    assert_eq!(
        plan_terminal_owner_recovery(&state(), intent(), "t", "u", "   ", seal_key()).err().unwrap(),
        "profile_recovery_plan_invalid"
    );
}

#[test]
fn claim_refuses_a_mismatched_or_unauthenticated_principal() {
    let state = ready_state("principal:last30days", true);
    let mut other = last30days_authority();
    other.principal_id = "principal:other".to_string();
    assert_eq!(
        acquire_profile_claim_for_intent(&state, &Ok(other), &intent(), false, "t", "u", "k", seal_key())
            .err()
            .unwrap(),
        "profile_acquisition_principal_mismatch"
    );
    assert_eq!(
        acquire_profile_claim_for_intent(
            &state,
            &Err("capability_mismatch".to_string()),
            &intent(),
            false,
            "t",
            "u",
            "k",
            seal_key(),
        )
        .err()
        .unwrap(),
        "profile_acquisition_principal_capability_mismatch"
    );
    assert!(matches!(
        acquire_profile_claim_for_intent(
            &state,
            &Ok(last30days_authority()),
            &intent(),
            false,
            "t",
            "u",
            "k",
            seal_key(),
        ),
        Ok(ProfileClaimStep::Acquire { owner_generation: Some(55) })
    ));
}

#[test]
fn retry_route_reuses_exact_owner_and_falls_back_only_without_owner() {
    let owned = state();
    let authority = AuthenticatedServicePrincipal {
        principal_id: "principal:last30days".to_string(),
        profile_id: "last30days-facebook".to_string(),
        capability_id: "capability:test".to_string(),
        capability_revision: 1,
        provenance: ServicePrincipalProvenance::RegisteredCapability,
    };
    assert_eq!(
        profile_acquisition_retry_route(&owned, &authority).ok().unwrap(),
        "handoff-a79ef2887412addf"
    );

    let mut unowned = owned;
    unowned.runtime_owner_registry.owners.clear();
    let cold_route = profile_acquisition_retry_route(&unowned, &authority).ok().unwrap();
    assert_ne!(cold_route, "default");
    assert!(cold_route.starts_with("principal-profile-"));
    assert_eq!(cold_route, "principal-profile-01f4d0c1ce8aa31147006653");

    let mut missing = unowned;
    missing.profiles.clear();
    assert_eq!(
        profile_acquisition_retry_route(&missing, &authority).err().unwrap(),
        "profile_recovery_profile_missing"
    );
}

#[test]
fn protected_owner_disposition_never_turns_uncertain_custody_into_adoption() {
    let (absent, current, stale, uncertain) = (
        ProtectedAuthorityObservationState::Absent,
        ProtectedAuthorityObservationState::Current,
        ProtectedAuthorityObservationState::Stale,
        ProtectedAuthorityObservationState::Uncertain,
    );
    assert!(protected_existing_owner_disposition(stale, current, absent, false) == ProtectedExistingOwnerDisposition::Adopt);
    assert!(
        protected_existing_owner_disposition(stale, current, uncertain, false)
            == ProtectedExistingOwnerDisposition::EffectChannelCustodyUnproven
    );
    assert!(
        protected_existing_owner_disposition(current, stale, current, false)
            == ProtectedExistingOwnerDisposition::ReconcileThenColdLaunch
    );
    assert!(
        protected_existing_owner_disposition(current, current, current, true)
            == ProtectedExistingOwnerDisposition::ReconstructCurrentHolder
    );
    assert!(
        protected_existing_owner_disposition(current, current, current, false)
            == ProtectedExistingOwnerDisposition::ExactCurrentConflict
    );
    assert!(
        protected_existing_owner_disposition(stale, uncertain, uncertain, false)
            == ProtectedExistingOwnerDisposition::PhysicalOccupancyUncertain
    );
}

#[test]
fn protected_route_digests_public_identity_only() {
    assert_eq!(
        protected_profile_daemon_route("principal:last30days", "last30days-facebook"),
        "principal-profile-01f4d0c1ce8aa31147006653"
    );
}

fn text_of<'a>(v: &'a JsonValue, key: &str) -> Option<&'a str> {
    v.get(key).and_then(|f| f.as_str())
}

fn object(members: Vec<(&str, JsonValue)>) -> JsonValue {
    JsonValue::Object(
        members.into_iter().map(|(key, value)| JsonMember { key: key.to_string(), value }).collect(),
    )
}

fn text(s: &str) -> JsonValue {
    JsonValue::Str(s.to_string())
}

#[test]
fn protected_acquisition_launch_command_binds_exact_profile_without_a_bearer() {
    let command = protected_profile_acquisition_launch_command(
        &intent(),
        "principal-profile-protected",
        "/srv/agent-browser/profiles/last30days-facebook",
    );

    assert_eq!(text_of(&command, "action"), Some("tab_new"));
    assert_eq!(text_of(&command, "profileId"), Some("last30days-facebook"));
    assert_eq!(
        text_of(&command, "profile"),
        Some("/srv/agent-browser/profiles/last30days-facebook")
    );
    assert_eq!(text_of(&command, "sessionName"), Some("principal-profile-protected"));
    assert!(command.get("leaseEffectAuthorization").is_none());
    assert!(command.get("leaseEffectOperationId").is_none());
}

#[test]
fn acquisition_retry_command_preserves_authenticated_principal_identity() {
    let command = profile_acquisition_retry_command(&intent(), "recovery-route");

    assert_eq!(text_of(&command, "action"), Some("tab_new"));
    assert_eq!(text_of(&command, "sessionName"), Some("recovery-route"));
    assert_eq!(text_of(&command, "profileId"), Some("last30days-facebook"));
    assert_eq!(text_of(&command, "servicePrincipalId"), Some("principal:last30days"));
    assert_eq!(
        text_of(&command, "servicePrincipalProvenance"),
        Some("registered_capability")
    );
}

#[test]
fn acquisition_retry_command_uses_principal_as_empty_service_name_fallback() {
    let mut intent = intent();
    intent.service_name.clear();

    let command = profile_acquisition_retry_command(&intent, "recovery-route");

    assert_eq!(text_of(&command, "serviceName"), Some("principal:last30days"));
    assert_eq!(text_of(&command, "servicePrincipalId"), Some("principal:last30days"));
}

#[test]
fn retry_command_carries_labels_and_target_services() {
    let command = profile_acquisition_retry_command(&intent(), "route-a");
    assert_eq!(text_of(&command, "serviceName"), Some("Last30days"));
    assert_eq!(text_of(&command, "agentName"), Some("last30days-agent"));
    assert_eq!(text_of(&command, "taskName"), Some("acquire-facebook-profile"));
    match command.get("targetServiceIds") {
        Some(JsonValue::Array(items)) => {
            assert_eq!(items.len(), 1);
            assert_eq!(items[0].as_str(), Some("facebook"));
        }
        _ => panic!("targetServiceIds is not an array"),
    }
}

#[test]
fn owner_step_proceeds_only_on_adoption_or_reconciliation() {
    assert!(matches!(
        protected_owner_step(ProtectedExistingOwnerDisposition::Adopt, "owner:a", "route-a"),
        Ok(ProtectedOwnerStep::Adopt)
    ));
    assert!(matches!(
        protected_owner_step(ProtectedExistingOwnerDisposition::ReconcileThenColdLaunch, "owner:a", "route-a"),
        Ok(ProtectedOwnerStep::ReconcileThenLaunch)
    ));
    assert_eq!(
        protected_owner_step(ProtectedExistingOwnerDisposition::ExactCurrentConflict, "owner:a", "route-a").err(),
        Some("profile_acquisition_exact_current_conflict:owner:a:route-a".to_string())
    );
    assert_eq!(
        protected_owner_step(ProtectedExistingOwnerDisposition::PhysicalOccupancyUncertain, "owner:a", "route-a").err(),
        Some("profile_acquisition_physical_occupancy_uncertain".to_string())
    );
    assert_eq!(
        protected_owner_step(ProtectedExistingOwnerDisposition::EffectChannelCustodyUnproven, "o", "r").err(),
        Some("profile_acquisition_effect_channel_custody_unproven".to_string())
    );
    assert_eq!(
        protected_owner_step(ProtectedExistingOwnerDisposition::ReconstructCurrentHolder, "o", "r").err(),
        Some("profile_acquisition_protected_holder_reconstruction_required".to_string())
    );
}

#[test]
fn command_strings_are_trimmed_and_blank_ones_absent() {
    let command = object(vec![
        ("serviceName", text("  Billing  ")),
        ("agentName", text("   ")),
        ("targetServiceIds", JsonValue::Array(vec![text(" a "), text("b")])),
    ]);
    assert_eq!(optional_command_string(&command, "serviceName"), Some("Billing".to_string()));
    assert_eq!(optional_command_string(&command, "agentName"), None);
    assert_eq!(optional_command_string(&command, "taskName"), None);
    assert_eq!(required_command_string(&command, "serviceName"), Ok("Billing".to_string()));
    assert_eq!(
        required_command_string(&command, "profileId"),
        Err("profile_recovery_profileId_required".to_string())
    );
    assert_eq!(
        optional_command_string_array(&command, "targetServiceIds"),
        Ok(vec!["a".to_string(), "b".to_string()])
    );
    assert_eq!(optional_command_string_array(&command, "missing"), Ok(Vec::new()));
}

#[test]
fn string_array_with_a_blank_or_non_string_item_is_invalid() {
    let blank = object(vec![("targetServiceIds", JsonValue::Array(vec![text("a"), text("  ")]))]);
    assert_eq!(
        optional_command_string_array(&blank, "targetServiceIds"),
        Err("profile_recovery_targetServiceIds_invalid".to_string())
    );
    let number = object(vec![("targetServiceIds", JsonValue::Array(vec![JsonValue::UInt(3)]))]);
    assert!(optional_command_string_array(&number, "targetServiceIds").is_err());
    let scalar = object(vec![("targetServiceIds", text("a"))]);
    assert!(optional_command_string_array(&scalar, "targetServiceIds").is_err());
}

#[test]
fn acquisition_intent_reads_labels_and_targets_from_the_command() {
    let command = object(vec![
        ("serviceName", text("Billing")),
        ("taskName", text(" sync ")),
        ("targetServiceIds", JsonValue::Array(vec![text("svc")])),
    ]);
    let intent = acquisition_intent_from_command(&command, "principal:p", "profile-a").unwrap();
    assert_eq!(intent.principal_id, "principal:p");
    assert_eq!(intent.profile_id, "profile-a");
    assert_eq!(intent.service_name, "Billing");
    assert_eq!(intent.agent_name, "");
    assert_eq!(intent.task_name, "sync");
    assert_eq!(intent.target_service_ids, vec!["svc".to_string()]);
    let bad = object(vec![("targetServiceIds", text("svc"))]);
    assert_eq!(
        acquisition_intent_from_command(&bad, "principal:p", "profile-a").err(),
        Some("profile_recovery_targetServiceIds_invalid".to_string())
    );
}

/// What the acquisition retry leaves in the state: the next owner generation
/// on a replacement browser, its ready lifecycle record and the principal's
/// binding to it.
fn apply_retry_effect(state: &mut ServiceState) -> ProfileAcquisitionRetryResult {
    let owner = &mut state.runtime_owner_registry.owners[0];
    owner.owner_generation = 56;
    owner.browser_id = "session:replacement-browser".to_string();
    owner.daemon_session_route = "replacement-route".to_string();
    state.runtime_owner_registry.lifecycle_records.push(RuntimeLifecycleRecord {
        logical_browser_id: "session:replacement-browser".to_string(),
        profile_identity_digest: PROFILE_DIGEST.to_string(),
        owner_generation: 56,
        lifecycle_state: RuntimeLaneLifecycleState::Ready,
        cleanup_obligation_state: "owned".to_string(),
        terminal_evidence: Vec::new(),
    });
    state.runtime_owner_registry.principal_bindings.push(RuntimeOwnerPrincipalBinding {
        principal_id: "principal:last30days".to_string(),
        profile_id: "last30days-facebook".to_string(),
        profile_identity_digest: PROFILE_DIGEST.to_string(),
        capability_id: "capability:test".to_string(),
        provenance: ServicePrincipalProvenance::RegisteredCapability,
        owner_generation: 56,
    });
    ProfileAcquisitionRetryResult {
        browser_id: "session:replacement-browser".to_string(),
        daemon_session_route: "replacement-route".to_string(),
    }
}

fn terminal_plan(state: &ServiceState, key: &str) -> agent_browser_service::recovery::RecoveryPlan {
    plan_terminal_owner_recovery(state, intent(), "2026-08-28T12:00:00Z", "2026-08-28T12:05:00Z", key, seal_key())
        .ok()
        .unwrap()
        .recovery
        .unwrap()
}

#[test]
fn apply_retries_once_persists_receipt_and_replays_without_effect() {
    let mut state = state();
    let plan = terminal_plan(&state, "request-apply-1");
    let step = terminal_recovery_step(&state, &plan, "2026-08-28T12:01:00Z", seal_key()).ok().unwrap();
    assert!(matches!(step, RecoveryApplyAction::Retry));
    let retry = apply_retry_effect(&mut state);
    let first = finish_terminal_recovery(&mut state, &plan, &retry).ok().unwrap();

    assert!(!first.replayed);
    assert!(first.acquisition.state == ProfileAcquisitionState::Acquired);
    assert_eq!(first.receipt.terminal_result, "applied");
    assert_eq!(first.receipt.browser_id, "session:replacement-browser");
    assert_eq!(first.receipt.daemon_session_route, "replacement-route");
    assert_eq!(state.profile_recovery_receipts.len(), 1);
    assert_eq!(state.profile_recovery_receipts[0].recovery_id, plan.recovery_id);
    assert_eq!(state.runtime_owner_registry.owners[0].owner_generation, 56);
    assert_eq!(state.runtime_owner_registry.owners[0].browser_id, "session:replacement-browser");

    let replay = match terminal_recovery_step(&state, &plan, "2026-08-28T12:02:00Z", seal_key()).ok().unwrap() {
        RecoveryApplyAction::Replay(outcome) => outcome,
        RecoveryApplyAction::Retry => panic!("receipt replay must not retry acquisition"),
    };
    assert!(replay.replayed);
    assert_eq!(replay.receipt.recovery_id, first.receipt.recovery_id);
    assert_eq!(replay.receipt.plan_id, first.receipt.plan_id);
    assert_eq!(replay.receipt.browser_id, first.receipt.browser_id);
    assert_eq!(replay.receipt.attempted_operation_ids, first.receipt.attempted_operation_ids);
    assert_eq!(replay.receipt.final_state_revision, first.receipt.final_state_revision);
}

#[test]
fn stale_plan_fails_before_retry_effect() {
    let mut state = state();
    let plan = terminal_plan(&state, "request-stale-1");
    state.runtime_owner_registry.revision += 1;
    let error = terminal_recovery_step(&state, &plan, "2026-08-28T12:01:00Z", seal_key()).err().unwrap();
    assert_eq!(error, "profile_recovery_plan_stale");
    assert!(state.profile_recovery_receipts.is_empty());
}

#[test]
fn altered_seal_fails_before_retry_effect() {
    let state = state();
    let mut plan = terminal_plan(&state, "request-seal-1");
    plan.identities.daemon_session_route = "tampered-route".to_string();
    let error = terminal_recovery_step(&state, &plan, "2026-08-28T12:01:00Z", seal_key()).err().unwrap();
    assert_eq!(error, "profile_recovery_plan_integrity_mismatch");
}

#[test]
fn finishing_refuses_a_state_without_the_recovered_owner() {
    let mut state = state();
    let plan = terminal_plan(&state, "request-post-1");
    let retry = ProfileAcquisitionRetryResult {
        browser_id: "session:replacement-browser".to_string(),
        daemon_session_route: "replacement-route".to_string(),
    };
    assert_eq!(
        finish_terminal_recovery(&mut state, &plan, &retry).err(),
        Some("profile_recovery_postcondition_mismatch".to_string())
    );
    assert!(state.profile_recovery_receipts.is_empty());
}
