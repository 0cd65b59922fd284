use agent_browser_service::lease::{
    profile_leases_for_state, ProfileLeaseFailureCode, PROFILE_LEASE_SCHEMA_VERSION,
};
use agent_browser_service::lease_ops::{
    doctor_profile_leases, inspect_profile_lease, release_profile_lease, renew_profile_lease,
};
use agent_browser_service::reconcile::{
    apply_profile_lease_reconciliation, plan_profile_lease_reconciliation,
    ProfileLeaseReconcilePlan, ProfileLeaseReconcileReceipt,
};
use agent_browser_service::lease::ProfileLeaseError;
use agent_browser_service::rejoin::rejoin_profile_lease;
use agent_browser_service::model::{
    AuthenticatedServicePrincipal, BrowserProfile, BrowserSession, BrowserTab, LeaseState,
    PrincipalContinuityRecourse, ProfileOwner, ProfileOwnerState, RegistrationState,
    RuntimeOwnerPrincipalBinding, RuntimeOwnerRegistry, ServicePrincipal,
    ServicePrincipalProvenance, ServicePrincipals, ServiceProfileCapability, ServiceState,
    TabLifecycle,
};

const NOW: &str = "2026-08-27T12:00:00Z";
const READ_ACTIONS: [&str; 5] = ["list", "inspect", "explain", "doctor", "watch"];
const PROFILE_ID: &str = "odollo-fulfillment";
const PRINCIPAL_ID: &str = "principal:odollo-fulfillment";
const PROFILE_DIGEST: &str = "0d0110f0c0ffee0d0110f0c0ffee0d0110f0c0ffee0d0110f0c0ffee0d0110f0";
const CAPABILITY_ID: &str = "capability:odollo-fulfillment";

fn empty_state() -> ServiceState {
    ServiceState {
        state_revision: 0,
        profiles: Vec::new(),
        browsers: Vec::new(),
        sessions: Vec::new(),
        tabs: Vec::new(),
        remote_view_routes: Vec::new(),
        runtime_owner_registry: RuntimeOwnerRegistry {
            revision: 0,
            owners: Vec::new(),
            principal_bindings: Vec::new(),
            lifecycle_records: Vec::new(),
        },
        service_principals: ServicePrincipals {
            principals: Vec::new(),
            profile_capabilities: Vec::new(),
        },
        profile_lifecycle_authorizations: Vec::new(),
        profile_lifecycle_effect_receipts: Vec::new(),
        profile_lease_reconcile_receipts: Vec::new(),
        viewer_leases: Vec::new(),
        events: Vec::new(),
        profile_recovery_receipts: Vec::new(),
    }
}

fn session(id: &str, profile_id: &str, lease: LeaseState) -> BrowserSession {
    BrowserSession {
        id: id.to_string(),
        profile_id: Some(profile_id.to_string()),
        lease,
        expires_at: None,
        principal_id: None,
        principal_provenance: None,
        browser_ids: Vec::new(),
        tab_ids: Vec::new(),
        last_lease_observed_at: None,
        boot_epoch: None,
        work_lease_revision: 0,
    }
}

fn authority() -> AuthenticatedServicePrincipal {
    AuthenticatedServicePrincipal {
        principal_id: PRINCIPAL_ID.to_string(),
        profile_id: PROFILE_ID.to_string(),
        capability_id: CAPABILITY_ID.to_string(),
        capability_revision: 1,
        provenance: ServicePrincipalProvenance::RegisteredCapability,
    }
}

/// A profile owned at generation 9, a registered capability bound to that
/// owner, and one exclusive session holding work for the principal.
fn state_with_lease() -> (ServiceState, AuthenticatedServicePrincipal, String) {
    let mut state = empty_state();
    state.profiles.push(BrowserProfile {
        id: PROFILE_ID.to_string(),
        user_data_dir: Some("/tmp/agent-browser-p134/odollo-fulfillment".to_string()),
        identity_digest: Some(PROFILE_DIGEST.to_string()),
        profile_origin: "managed".to_string(),
        profile_class: "named_account".to_string(),
        access_fence: None,
        target_service_ids: Vec::new(),
        authenticated_service_ids: Vec::new(),
    });
    state.runtime_owner_registry.owners.push(ProfileOwner {
        owner_id: "owner-odollo".to_string(),
        profile_identity_digest: PROFILE_DIGEST.to_string(),
        state: ProfileOwnerState::Ready,
        owner_generation: 9,
        browser_id: "browser-odollo".to_string(),
        daemon_session_route: "session-odollo".to_string(),
        process_instance_digest: "process-odollo".to_string(),
        pending_transfer: false,
    });
    state.service_principals.principals.push(ServicePrincipal {
        principal_id: PRINCIPAL_ID.to_string(),
        state: RegistrationState::Active,
    });
    state.service_principals.profile_capabilities.push(ServiceProfileCapability {
        capability_id: CAPABILITY_ID.to_string(),
        principal_id: PRINCIPAL_ID.to_string(),
        profile_id: PROFILE_ID.to_string(),
        revision: 1,
        state: RegistrationState::Active,
    });
    state.runtime_owner_registry.principal_bindings.push(RuntimeOwnerPrincipalBinding {
        principal_id: PRINCIPAL_ID.to_string(),
        profile_id: PROFILE_ID.to_string(),
        profile_identity_digest: PROFILE_DIGEST.to_string(),
        capability_id: CAPABILITY_ID.to_string(),
        provenance: ServicePrincipalProvenance::RegisteredCapability,
        owner_generation: 9,
    });
    let mut held = session("session-odollo", PROFILE_ID, LeaseState::Exclusive);
    held.principal_id = Some(PRINCIPAL_ID.to_string());
    held.principal_provenance = Some(ServicePrincipalProvenance::RegisteredCapability);
    held.expires_at = Some("2099-08-27T13:00:00Z".to_string());
    held.last_lease_observed_at = Some(NOW.to_string());
    held.work_lease_revision = 1;
    state.sessions.push(held);
    let lease_id = profile_leases_for_state(&state, NOW)[0].id.clone();
    (state, authority(), lease_id)
}

#[test]
fn legacy_profile_is_observation_only_and_doctor_reports_it() {
    let mut state = empty_state();
    state.sessions.push(session("legacy", "legacy-profile", LeaseState::Exclusive));
    let leases = profile_leases_for_state(&state, NOW);
    assert_eq!(leases.len(), 1);
    assert!(leases[0].observation_only);
    assert!(!leases[0].authorized_actions.contains(&"release".to_string()));
    assert!(leases[0].authorized_actions.contains(&"profile_acquire".to_string()));
    assert!(!leases[0].authorized_actions.contains(&"reconcile_plan".to_string()));
    let doctor = doctor_profile_leases(&state, NOW);
    assert!(!doctor.healthy);
    assert_eq!(doctor.findings[0].code, "legacy_principal_unproven");
}

#[test]
fn historical_legacy_profile_remains_visible_without_operational_blockers() {
    let mut state = empty_state();
    state.sessions.push(session("expired-legacy", "historical-profile", LeaseState::Expired));
    state.sessions.push(session("released-legacy", "historical-profile", LeaseState::Released));

    let leases = profile_leases_for_state(&state, NOW);
    assert_eq!(leases.len(), 1);
    assert_eq!(leases[0].state, "historical");
    assert_eq!(leases[0].mode, "idle");
    assert_eq!(leases[0].session_ids, ["expired-legacy", "released-legacy"]);
    assert!(leases[0].observation_only);
    assert!(leases[0].blocking_identity_axes.is_empty());
    assert_eq!(leases[0].authorized_actions, READ_ACTIONS.map(ToString::to_string));

    let doctor = doctor_profile_leases(&state, NOW);
    assert!(doctor.healthy);
    assert!(doctor.findings.is_empty());
}

#[test]
fn projection_exposes_exact_owner_and_authorized_recourse() {
    let (state, _, lease_id) = state_with_lease();
    let lease = inspect_profile_lease(&state, &lease_id, NOW).ok().unwrap();
    assert_eq!(lease.state, "active");
    assert_eq!(lease.owner_generation, Some(9));
    assert!(lease.recourse == PrincipalContinuityRecourse::RejoinOwnedBrowser);
    assert!(lease.authorized_actions.contains(&"rejoin".to_string()));
    assert!(lease.authorized_actions.contains(&"renew".to_string()));
    assert!(lease.authorized_actions.contains(&"release".to_string()));
    assert!(!lease.observation_only);
    assert_eq!(lease.schema_version, PROFILE_LEASE_SCHEMA_VERSION);
    assert_eq!(lease.browser_id.as_deref(), Some("browser-odollo"));
    assert_eq!(lease.process_instance_digest.as_deref(), Some("process-odollo"));
}

#[test]
fn renew_uses_revision_cas_and_release_refuses_active_tab() {
    let (mut state, authority, lease_id) = state_with_lease();
    let initial = inspect_profile_lease(&state, &lease_id, NOW).ok().unwrap();
    let renewed = renew_profile_lease(
        &mut state,
        &lease_id,
        &initial.lease_revision,
        &authority,
        NOW,
        "2026-08-27T14:00:00Z",
        &None,
    )
    .ok()
    .unwrap();
    assert_ne!(renewed.lease_revision, initial.lease_revision);
    let stale = renew_profile_lease(
        &mut state,
        &lease_id,
        &initial.lease_revision,
        &authority,
        NOW,
        "2026-08-27T15:00:00Z",
        &None,
    )
    .err()
    .unwrap();
    assert!(stale.code == ProfileLeaseFailureCode::RevisionMismatch);

    state.tabs.push(BrowserTab {
        id: "tab-odollo".to_string(),
        browser_id: "browser-odollo".to_string(),
        owner_session_id: Some("session-odollo".to_string()),
        principal_id: Some(PRINCIPAL_ID.to_string()),
        principal_provenance: Some(ServicePrincipalProvenance::RegisteredCapability),
        lifecycle: TabLifecycle::Ready,
        work_lease_expires_at: Some("2026-08-27T13:30:00Z".to_string()),
        target_id: None,
        session_id: None,
        service_tab_handle: None,
    });
    let with_tab = inspect_profile_lease(&state, &lease_id, NOW).ok().unwrap();
    let error = release_profile_lease(
        &mut state,
        &lease_id,
        &with_tab.lease_revision,
        &authority,
        NOW,
        &None,
    )
    .err()
    .unwrap();
    assert!(error.code == ProfileLeaseFailureCode::ActionNotAuthorized);
}

#[test]
fn renewal_moves_session_expiry_and_heartbeat() {
    let (mut state, authority, lease_id) = state_with_lease();
    let initial = inspect_profile_lease(&state, &lease_id, NOW).ok().unwrap();
    let renewed = renew_profile_lease(
        &mut state,
        &lease_id,
        &initial.lease_revision,
        &authority,
        NOW,
        "2026-08-27T14:00:00Z",
        &None,
    )
    .ok()
    .unwrap();
    assert_eq!(renewed.id, lease_id);
    assert_eq!(state.sessions[0].expires_at.as_deref(), Some("2026-08-27T14:00:00Z"));
    assert_eq!(state.sessions[0].last_lease_observed_at.as_deref(), Some(NOW));
    assert_eq!(renewed.expires_at.as_deref(), Some("2026-08-27T14:00:00Z"));
}

#[test]
fn renewal_must_move_expiry_past_now() {
    let (mut state, authority, lease_id) = state_with_lease();
    let initial = inspect_profile_lease(&state, &lease_id, NOW).ok().unwrap();
    let error = renew_profile_lease(
        &mut state,
        &lease_id,
        &initial.lease_revision,
        &authority,
        NOW,
        "2026-08-27T11:00:00Z",
        &None,
    )
    .err()
    .unwrap();
    assert!(error.code == ProfileLeaseFailureCode::ActionNotAuthorized);
    assert_eq!(state.sessions[0].expires_at.as_deref(), Some("2099-08-27T13:00:00Z"));
}

#[test]
fn release_without_tab_work_releases_the_session() {
    let (mut state, authority, lease_id) = state_with_lease();
    let initial = inspect_profile_lease(&state, &lease_id, NOW).ok().unwrap();
    let released = release_profile_lease(
        &mut state,
        &lease_id,
        &initial.lease_revision,
        &authority,
        NOW,
        &None,
    )
    .ok()
    .unwrap();
    assert!(state.sessions[0].lease == LeaseState::Released);
    assert_eq!(released.state, "stale");
    assert!(!released.authorized_actions.contains(&"release".to_string()));
}

#[test]
fn unknown_lease_and_foreign_authority_are_refused() {
    let (mut state, _, lease_id) = state_with_lease();
    let missing = inspect_profile_lease(&state, "profile-lease:missing", NOW).err().unwrap();
    assert!(missing.code == ProfileLeaseFailureCode::LeaseNotFound);

    let initial = inspect_profile_lease(&state, &lease_id, NOW).ok().unwrap();
    let mut foreign = authority();
    foreign.principal_id = "principal:foreign".to_string();
    let error = renew_profile_lease(
        &mut state,
        &lease_id,
        &initial.lease_revision,
        &foreign,
        NOW,
        "2026-08-27T14:00:00Z",
        &None,
    )
    .err()
    .unwrap();
    assert!(error.code == ProfileLeaseFailureCode::AuthorityMismatch);
}

#[test]
fn doctor_reports_foreign_work_against_a_bound_lease() {
    let (mut state, _, _) = state_with_lease();
    let mut foreign = session("session-foreign", PROFILE_ID, LeaseState::Exclusive);
    foreign.principal_id = Some("principal:foreign".to_string());
    foreign.principal_provenance = Some(ServicePrincipalProvenance::RegisteredCapability);
    state.sessions.push(foreign);
    let leases = profile_leases_for_state(&state, NOW);
    let bound = leases.iter().find(|lease| lease.principal_id.as_deref() == Some(PRINCIPAL_ID)).unwrap();
    assert_eq!(bound.state, "foreign_held");
    assert!(bound.recourse == PrincipalContinuityRecourse::WaitForForeignPrincipal);
    assert!(bound.blocking_identity_axes.contains(&"foreign_principal_active_work".to_string()));
    let doctor = doctor_profile_leases(&state, NOW);
    assert!(!doctor.healthy);
    assert!(doctor.findings.iter().any(|f| f.code == "foreign_principal_active_work"));
}

const SEAL_KEY: &[u8] = b"0123456789abcdef0123456789abcdef";

/// Applies a plan with this host's boot epoch.
fn apply(
    state: &mut ServiceState,
    plan: &ProfileLeaseReconcilePlan,
    authority: &AuthenticatedServicePrincipal,
    now: &str,
    boot: Option<&str>,
) -> Result<ProfileLeaseReconcileReceipt, ProfileLeaseError> {
    apply_profile_lease_reconciliation(state, plan, authority, now, boot, SEAL_KEY, boot.map(str::to_string))
}

#[test]
fn reconcile_refreshes_exact_stale_owner_generation_without_session_work() {
    let (mut state, authority, lease_id) = state_with_lease();
    state.runtime_owner_registry.owners[0].owner_generation += 1;
    state.sessions.clear();
    state.tabs.clear();

    let blocked = inspect_profile_lease(&state, &lease_id, NOW).ok().unwrap();
    assert_eq!(blocked.blocking_identity_axes, vec!["owner_generation_or_binding_mismatch".to_string()]);
    assert!(blocked.recourse == PrincipalContinuityRecourse::ReconcilePrincipalIdentity);

    let plan = plan_profile_lease_reconciliation(
        &state,
        &lease_id,
        &blocked.lease_revision,
        &authority,
        NOW,
        "2026-08-27T12:05:00Z",
        Some("boot-epoch-1".to_string()),
        "idempotency-owner-generation-refresh".to_string(),
        SEAL_KEY,
    )
    .ok()
    .unwrap();
    assert!(plan.effect_capable);
    assert_eq!(plan.proposed_transitions.len(), 1);
    assert_eq!(plan.proposed_transitions[0].action, "refresh_principal_owner_binding");

    let receipt = apply(&mut state, &plan, &authority, "2026-08-27T12:01:00Z", Some("boot-epoch-1")).ok().unwrap();
    assert_eq!(receipt.transition_count, 1);
    let resolved = inspect_profile_lease(&state, &lease_id, "2026-08-27T12:01:00Z").ok().unwrap();
    assert!(!resolved.observation_only);
    assert!(resolved.blocking_identity_axes.is_empty());
    assert_eq!(resolved.state, "owned_idle");
    assert_eq!(
        state.runtime_owner_registry.principal_bindings[0].owner_generation,
        state.runtime_owner_registry.owners[0].owner_generation
    );
}

#[test]
fn reconcile_rejects_owner_binding_refresh_after_binding_changes() {
    let (mut state, authority, lease_id) = state_with_lease();
    state.runtime_owner_registry.owners[0].owner_generation += 1;
    state.sessions.clear();
    state.tabs.clear();
    let blocked = inspect_profile_lease(&state, &lease_id, NOW).ok().unwrap();
    let plan = plan_profile_lease_reconciliation(
        &state,
        &lease_id,
        &blocked.lease_revision,
        &authority,
        NOW,
        "2026-08-27T12:05:00Z",
        Some("boot-epoch-1".to_string()),
        "idempotency-stale-owner-generation-refresh".to_string(),
        SEAL_KEY,
    )
    .ok()
    .unwrap();

    state.runtime_owner_registry.principal_bindings[0].owner_generation =
        state.runtime_owner_registry.owners[0].owner_generation;
    let error = apply(&mut state, &plan, &authority, "2026-08-27T12:01:00Z", Some("boot-epoch-1")).err().unwrap();
    assert!(error.code == ProfileLeaseFailureCode::RevisionMismatch);
    assert!(!state.profile_lease_reconcile_receipts.iter().any(|r| r.idempotency_key == plan.idempotency_key));
}

#[test]
fn reconcile_plan_is_boot_bound_sealed_and_idempotent() {
    let (mut state, authority, lease_id) = state_with_lease();
    state.sessions[0].lease = LeaseState::Expired;
    state.sessions[0].expires_at = Some("2026-08-27T11:00:00Z".to_string());
    let stale = inspect_profile_lease(&state, &lease_id, NOW).ok().unwrap();
    let blocked = plan_profile_lease_reconciliation(
        &state,
        &lease_id,
        &stale.lease_revision,
        &authority,
        NOW,
        "2026-08-27T12:05:00Z",
        None,
        "idempotency-blocked".to_string(),
        SEAL_KEY,
    )
    .ok()
    .unwrap();
    assert!(!blocked.effect_capable);
    assert_eq!(blocked.blocked_reasons, vec!["boot_epoch_unavailable".to_string()]);

    let plan = plan_profile_lease_reconciliation(
        &state,
        &lease_id,
        &stale.lease_revision,
        &authority,
        NOW,
        "2026-08-27T12:05:00Z",
        Some("boot-epoch-1".to_string()),
        "idempotency-1".to_string(),
        SEAL_KEY,
    )
    .ok()
    .unwrap();
    assert!(plan.effect_capable);
    let receipt = apply(&mut state, &plan, &authority, "2026-08-27T12:01:00Z", Some("boot-epoch-1")).ok().unwrap();
    assert!(!receipt.replayed);
    let replay = apply(&mut state, &plan, &authority, "2026-08-27T12:02:00Z", Some("boot-epoch-1")).ok().unwrap();
    assert!(replay.replayed);
}

#[test]
fn applied_plan_stores_its_receipt_and_replays_it_unchanged() {
    let (mut state, authority, lease_id) = state_with_lease();
    state.sessions[0].lease = LeaseState::Expired;
    state.sessions[0].expires_at = Some("2026-08-27T11:00:00Z".to_string());
    let stale = inspect_profile_lease(&state, &lease_id, NOW).ok().unwrap();
    let plan = plan_profile_lease_reconciliation(
        &state,
        &lease_id,
        &stale.lease_revision,
        &authority,
        NOW,
        "2026-08-27T12:05:00Z",
        Some("boot-epoch-1".to_string()),
        "idempotency-replay".to_string(),
        SEAL_KEY,
    )
    .ok()
    .unwrap();
    let first = apply(&mut state, &plan, &authority, "2026-08-27T12:01:00Z", Some("boot-epoch-1")).ok().unwrap();
    assert_eq!(state.profile_lease_reconcile_receipts.len(), 1);
    assert_eq!(state.profile_lease_reconcile_receipts[0].idempotency_key, "idempotency-replay");
    assert!(state.sessions[0].lease == LeaseState::Released);
    let revision = state.sessions[0].work_lease_revision;
    let replay = apply(&mut state, &plan, &authority, "2026-08-27T12:02:00Z", Some("boot-epoch-1")).ok().unwrap();
    assert!(replay.replayed && !first.replayed);
    assert_eq!(replay.idempotency_key, first.idempotency_key);
    assert_eq!(replay.plan_id, first.plan_id);
    assert_eq!(replay.lease_id, first.lease_id);
    assert_eq!(replay.principal_id, first.principal_id);
    assert_eq!(replay.applied_at, "2026-08-27T12:01:00Z");
    assert_eq!(replay.applied_at, first.applied_at);
    assert_eq!(replay.transition_count, first.transition_count);
    assert_eq!(replay.resulting_lease_revision, first.resulting_lease_revision);
    assert_eq!(state.sessions[0].work_lease_revision, revision);
    assert_eq!(state.profile_lease_reconcile_receipts.len(), 1);
}

#[test]
fn reconcile_plan_compares_rfc3339_instants_across_offsets() {
    let (mut state, authority, lease_id) = state_with_lease();
    state.sessions[0].lease = LeaseState::Expired;
    state.sessions[0].expires_at = Some("2026-08-27T11:00:00Z".to_string());
    let stale = inspect_profile_lease(&state, &lease_id, NOW).ok().unwrap();
    let plan = plan_profile_lease_reconciliation(
        &state,
        &lease_id,
        &stale.lease_revision,
        &authority,
        "2026-08-27T07:00:00-05:00",
        "2026-08-27T12:05:00Z",
        Some("boot-epoch-1".to_string()),
        "idempotency-offset-expiry".to_string(),
        SEAL_KEY,
    )
    .ok()
    .unwrap();
    assert!(plan.effect_capable);

    let receipt =
        apply(&mut state, &plan, &authority, "2026-08-27T07:01:00-05:00", Some("boot-epoch-1")).ok().unwrap();
    assert_eq!(receipt.transition_count, 1);
}

#[test]
fn altered_or_reused_plans_are_refused() {
    let (mut state, authority, lease_id) = state_with_lease();
    state.sessions[0].lease = LeaseState::Expired;
    let stale = inspect_profile_lease(&state, &lease_id, NOW).ok().unwrap();
    let mut plan = plan_profile_lease_reconciliation(
        &state,
        &lease_id,
        &stale.lease_revision,
        &authority,
        NOW,
        "2026-08-27T12:05:00Z",
        Some("boot-epoch-1".to_string()),
        "idempotency-altered".to_string(),
        SEAL_KEY,
    )
    .ok()
    .unwrap();
    assert_eq!(plan.proposed_transitions[0].session_id, "session-odollo");
    assert_eq!(plan.proposed_transitions[0].from_state, "expired");
    assert!(plan.seal.starts_with("sha256:"));
    assert!(plan.plan_id.starts_with("profile-lease-reconcile-plan-v1:"));

    let wrong_boot = apply(&mut state, &plan, &authority, "2026-08-27T12:01:00Z", Some("boot-epoch-2")).err().unwrap();
    assert!(wrong_boot.code == ProfileLeaseFailureCode::BootEpochMismatch);
    let expired = apply(&mut state, &plan, &authority, "2026-08-27T12:06:00Z", Some("boot-epoch-1")).err().unwrap();
    assert!(expired.code == ProfileLeaseFailureCode::PlanExpired);
    plan.expires_at = "2026-08-27T13:05:00Z".to_string();
    let altered = apply(&mut state, &plan, &authority, "2026-08-27T12:06:00Z", Some("boot-epoch-1")).err().unwrap();
    assert!(altered.code == ProfileLeaseFailureCode::PlanInvalid);
    assert!(state.sessions[0].lease == LeaseState::Expired);

    let short_key = plan_profile_lease_reconciliation(
        &state,
        &lease_id,
        &stale.lease_revision,
        &authority,
        NOW,
        "2026-08-27T12:05:00Z",
        Some("boot-epoch-1".to_string()),
        "idempotency-short".to_string(),
        b"short",
    )
    .err()
    .unwrap();
    assert!(short_key.code == ProfileLeaseFailureCode::PlanInvalid);
}

fn tab(id: &str, browser_id: &str, owner_session: &str, principal: Option<&str>) -> BrowserTab {
    BrowserTab {
        id: id.to_string(),
        browser_id: browser_id.to_string(),
        owner_session_id: Some(owner_session.to_string()),
        principal_id: principal.map(str::to_string),
        principal_provenance: None,
        lifecycle: TabLifecycle::Ready,
        work_lease_expires_at: None,
        target_id: None,
        session_id: None,
        service_tab_handle: None,
    }
}

fn unprove_session(state: &mut ServiceState) {
    let session = &mut state.sessions[0];
    session.principal_id = None;
    session.principal_provenance = None;
    session.expires_at = None;
}

fn session_named<'a>(state: &'a ServiceState, id: &str) -> &'a BrowserSession {
    state.sessions.iter().find(|s| s.id == id).unwrap()
}

fn tab_named<'a>(state: &'a ServiceState, id: &str) -> &'a BrowserTab {
    state.tabs.iter().find(|t| t.id == id).unwrap()
}

#[test]
fn pre_registered_capability_can_rejoin_unique_owner_after_launch() {
    let (mut state, authority, _) = state_with_lease();
    state.runtime_owner_registry.principal_bindings.clear();
    unprove_session(&mut state);
    state.sessions[0].work_lease_revision = 0;

    let blocked = profile_leases_for_state(&state, NOW)
        .into_iter()
        .find(|lease| lease.principal_id.as_deref() == Some(authority.principal_id.as_str()))
        .unwrap();
    assert!(blocked.observation_only);
    assert_eq!(blocked.blocking_identity_axes, vec!["runtime_owner_principal_binding_missing"]);
    assert!(blocked.authorized_actions.contains(&"rejoin".to_string()));
    assert!(blocked.recourse == PrincipalContinuityRecourse::RejoinOwnedBrowser);

    let rejoined = rejoin_profile_lease(
        &mut state,
        &blocked.id,
        &blocked.lease_revision,
        &authority,
        NOW,
        Some("2026-08-27T13:00:00Z"),
        None,
    )
    .ok()
    .unwrap();

    assert!(!rejoined.observation_only);
    assert_eq!(rejoined.state, "active");
    assert_eq!(session_named(&state, "session-odollo").principal_id.as_deref(), Some("principal:odollo-fulfillment"));
    assert_eq!(state.runtime_owner_registry.principal_bindings.len(), 1);
    let binding = &state.runtime_owner_registry.principal_bindings[0];
    assert_eq!(binding.principal_id, authority.principal_id);
    assert_eq!(binding.capability_id, authority.capability_id);
    assert_eq!(binding.owner_generation, 9);
}

#[test]
fn pre_registered_capability_cannot_rejoin_ambiguous_profile_work() {
    let (mut state, authority, _) = state_with_lease();
    state.runtime_owner_registry.principal_bindings.clear();
    unprove_session(&mut state);
    state.sessions[0].work_lease_revision = 0;
    let mut foreign = session("session-odollo-foreign", PROFILE_ID, LeaseState::Exclusive);
    foreign.browser_ids = vec!["browser-odollo-foreign".to_string()];
    state.sessions.push(foreign);

    let blocked = profile_leases_for_state(&state, NOW)
        .into_iter()
        .find(|lease| lease.principal_id.as_deref() == Some(authority.principal_id.as_str()))
        .unwrap();
    assert!(blocked.observation_only);
    assert!(!blocked.authorized_actions.contains(&"rejoin".to_string()));
    assert!(blocked.recourse == PrincipalContinuityRecourse::ReconcilePrincipalIdentity);
    let error = rejoin_profile_lease(
        &mut state,
        &blocked.id,
        &blocked.lease_revision,
        &authority,
        NOW,
        Some("2026-08-27T13:00:00Z"),
        None,
    )
    .err()
    .unwrap();
    assert!(error.code == ProfileLeaseFailureCode::ActionNotAuthorized);
    assert!(state.runtime_owner_registry.principal_bindings.is_empty());
    assert!(session_named(&state, "session-odollo").principal_id.is_none());
    assert!(session_named(&state, "session-odollo-foreign").principal_id.is_none());
}

#[test]
fn rejoin_claims_exact_unproven_owner_session_and_tabs() {
    let (mut state, authority, lease_id) = state_with_lease();
    unprove_session(&mut state);
    state.sessions[0].browser_ids = vec!["browser-odollo".to_string()];
    state.tabs.push(tab("tab-odollo", "browser-odollo", "session-odollo", None));

    let blocked = inspect_profile_lease(&state, &lease_id, NOW).ok().unwrap();
    assert!(blocked.observation_only);
    assert_eq!(blocked.blocking_identity_axes, vec!["unproven_session_authority"]);
    assert!(blocked.authorized_actions.contains(&"rejoin".to_string()));

    let rejoined = rejoin_profile_lease(
        &mut state,
        &lease_id,
        &blocked.lease_revision,
        &authority,
        NOW,
        Some("2026-08-27T13:00:00Z"),
        None,
    )
    .ok()
    .unwrap();
    assert!(!rejoined.observation_only);
    assert_eq!(rejoined.state, "active");
    assert_eq!(session_named(&state, "session-odollo").principal_id.as_deref(), Some("principal:odollo-fulfillment"));
    assert_eq!(tab_named(&state, "tab-odollo").principal_id.as_deref(), Some("principal:odollo-fulfillment"));
    assert_eq!(tab_named(&state, "tab-odollo").work_lease_expires_at.as_deref(), Some("2026-08-27T13:00:00Z"));
}

#[test]
fn rejoin_refuses_ambiguous_unproven_profile_work() {
    let (mut state, authority, lease_id) = state_with_lease();
    unprove_session(&mut state);
    state.sessions[0].browser_ids = vec!["browser-odollo".to_string()];
    let mut unrelated = session("unrelated-same-profile", PROFILE_ID, LeaseState::Exclusive);
    unrelated.browser_ids = vec!["browser-unrelated".to_string()];
    state.sessions.push(unrelated);

    let blocked = inspect_profile_lease(&state, &lease_id, NOW).ok().unwrap();
    assert!(!blocked.authorized_actions.contains(&"rejoin".to_string()));
    let error = rejoin_profile_lease(
        &mut state,
        &lease_id,
        &blocked.lease_revision,
        &authority,
        NOW,
        Some("2026-08-27T13:00:00Z"),
        None,
    )
    .err()
    .unwrap();
    assert!(error.code == ProfileLeaseFailureCode::ActionNotAuthorized);
    assert!(session_named(&state, "session-odollo").principal_id.is_none());
    assert!(session_named(&state, "unrelated-same-profile").principal_id.is_none());
}

#[test]
fn rejoin_refuses_foreign_tab_on_exact_owner_session() {
    let (mut state, authority, lease_id) = state_with_lease();
    unprove_session(&mut state);
    state.sessions[0].browser_ids = vec!["browser-odollo".to_string()];
    state.tabs.push(tab("tab-foreign", "browser-odollo", "session-odollo", Some("principal:foreign")));

    let blocked = inspect_profile_lease(&state, &lease_id, NOW).ok().unwrap();
    assert!(!blocked.authorized_actions.contains(&"rejoin".to_string()));
    let error = rejoin_profile_lease(
        &mut state,
        &lease_id,
        &blocked.lease_revision,
        &authority,
        NOW,
        Some("2026-08-27T13:00:00Z"),
        None,
    )
    .err()
    .unwrap();
    assert!(error.code == ProfileLeaseFailureCode::ActionNotAuthorized);
    assert!(session_named(&state, "session-odollo").principal_id.is_none());
    assert_eq!(tab_named(&state, "tab-foreign").principal_id.as_deref(), Some("principal:foreign"));
}

#[test]
fn rejoin_refreshes_same_capability_after_owner_generation_changes() {
    let (mut state, authority, lease_id) = state_with_lease();
    let profile_digest = state.runtime_owner_registry.principal_bindings[0].profile_identity_digest.clone();
    state.sessions[0].lease = LeaseState::Released;
    let owner = &mut state.runtime_owner_registry.owners[0];
    owner.owner_generation = 10;
    owner.browser_id = "browser-odollo-replayed".to_string();
    owner.daemon_session_route = "session-odollo-replayed".to_string();
    owner.process_instance_digest = "process-odollo-replayed".to_string();
    let mut replayed = session("session-odollo-replayed", PROFILE_ID, LeaseState::Exclusive);
    replayed.browser_ids = vec!["browser-odollo-replayed".to_string()];
    state.sessions.push(replayed);
    state.tabs.push(tab("tab-odollo-replayed", "browser-odollo-replayed", "session-odollo-replayed", None));

    let blocked = inspect_profile_lease(&state, &lease_id, NOW).ok().unwrap();
    assert_eq!(
        blocked.blocking_identity_axes,
        vec!["owner_generation_or_binding_mismatch", "unproven_session_authority"]
    );
    assert!(blocked.authorized_actions.contains(&"rejoin".to_string()));
    assert!(blocked.recourse == PrincipalContinuityRecourse::RejoinOwnedBrowser);

    let rejoined = rejoin_profile_lease(
        &mut state,
        &lease_id,
        &blocked.lease_revision,
        &authority,
        NOW,
        Some("2026-08-27T13:00:00Z"),
        None,
    )
    .ok()
    .unwrap();
    assert!(!rejoined.observation_only);
    assert_eq!(rejoined.owner_generation, Some(10));
    assert_eq!(state.runtime_owner_registry.principal_bindings[0].profile_identity_digest, profile_digest);
    assert_eq!(state.runtime_owner_registry.principal_bindings[0].owner_generation, 10);
    assert_eq!(session_named(&state, "session-odollo-replayed").principal_id.as_deref(), Some("principal:odollo-fulfillment"));
    assert_eq!(tab_named(&state, "tab-odollo-replayed").principal_id.as_deref(), Some("principal:odollo-fulfillment"));
}
