//! Versioned, no-launch profile acquisition recovery contracts.
//!
//! Recovery planning consumes an authenticated principal identity and an
//! immutable Service State snapshot. It never persists state or launches a
//! browser; effectful application stays behind the repository's
//! compare-and-swap boundary.

use vstd::prelude::*;
use crate::acquisition::{authenticated_cold_session_name, cold_session_name_spec};
use crate::digest::{digest_prefix, digest_prefix_spec, digest_text, digest_text_spec};
use crate::json::{field_str, json_get, json_str, push_decimal, push_quoted, JsonMember, JsonValue};
use crate::capture::member;
use crate::lease::{contains_text, lemma_map_push, lemma_strs_push};
use crate::model::{
    get_keyed, lookup, opt_eq, opt_is, ov, AuthenticatedServicePrincipal, BrowserProfile, BrowserSession, LeaseState, ProfileOwner,
    RuntimeLaneLifecycleState, RuntimeLifecycleRecord, ServiceState,
};
use crate::plan_json::{
    action_id_json, plan_id_json, push_action_json, push_blocker_json, push_identities_json, push_intent_json,
    plan_sorted_json, recovery_id_json, seal_bytes, seal_recovery_plan, seal_spec,
};
use crate::seqs::{lemma_filter_take_step, lemma_take_full};
use crate::time::{instant_at_or_after, parse_rfc3339, rfc3339_instant};
use crate::text::{concat2, concat3, is_blank, owned, str_equal, strs, trim};

verus! {

/// The version written into every acquisition outcome.
pub const PROFILE_ACQUISITION_OUTCOME_SCHEMA_V1: &'static str =
    "agent-browser.profile-acquisition-outcome.v1";

/// The version written into every recovery plan.
pub const PROFILE_RECOVERY_PLAN_SCHEMA_V1: &'static str = "agent-browser.profile-recovery-plan.v1";

/// The version written into every recovery receipt.
pub const PROFILE_RECOVERY_RECEIPT_SCHEMA_V1: &'static str =
    "agent-browser.profile-recovery-receipt.v1";

/// The version written into every mitigation action.
pub const PROFILE_MITIGATION_ACTION_SCHEMA_V1: &'static str =
    "agent-browser.profile-mitigation-action.v1";

/// Where an acquisition stands.
#[derive(PartialEq, Eq, Structural, Clone, Copy)]
pub enum ProfileAcquisitionState {
    Acquired,
    RecoveryAvailable,
    Blocked,
}

/// The kinds of guarded mitigation a server may perform.
#[derive(PartialEq, Eq, Structural, Clone, Copy)]
pub enum MitigationActionType {
    SupersedeTerminalOwner,
    ReconcileExactPrincipalProfileIdentity,
    ReconcileLegacyPrincipal,
    BindOwnerPrincipalAuthority,
    RepairOwnerGenerationBinding,
    ReleaseExpiredOwnerlessLease,
    AdoptExactLiveBrowser,
    RepairSubordinateProfileBinding,
    RepairIndependentRouteIdentity,
    FinalizeTerminalInstallationBookkeeping,
    RetireInertBrowserRecord,
}

/// Whether a mitigation may run unattended.
#[derive(PartialEq, Eq, Structural, Clone, Copy)]
pub enum MitigationApplyPosture {
    AutomaticConclusive,
    ReviewedExactGraph,
}

/// The scope of state a mitigation may touch.
#[derive(PartialEq, Eq, Structural, Clone, Copy)]
pub enum RecoveryEffectAuthority {
    ExactProfileGraph,
}

/// One entry of the server-owned mitigation registry.
pub struct MitigationActionDescriptor {
    pub action_type: MitigationActionType,
    pub recovery_class: String,
    /// The server-owned action that performs the guarded mutation. Clients
    /// discover it here instead of deriving an executor from blocker text.
    pub executor_action: String,
    pub apply_posture: MitigationApplyPosture,
    pub effect_authority: RecoveryEffectAuthority,
    pub blocker_codes: Vec<String>,
    pub preconditions: Vec<String>,
    pub compensation: Vec<String>,
}

/// The content of a registry entry.
pub struct DescriptorView {
    pub action_type: MitigationActionType,
    pub recovery_class: Seq<char>,
    pub executor_action: Seq<char>,
    pub apply_posture: MitigationApplyPosture,
    pub effect_authority: RecoveryEffectAuthority,
    pub blocker_codes: Seq<Seq<char>>,
    pub preconditions: Seq<Seq<char>>,
    pub compensation: Seq<Seq<char>>,
}

impl View for MitigationActionDescriptor {
    type V = DescriptorView;

    open spec fn view(&self) -> DescriptorView {
        DescriptorView {
            action_type: self.action_type,
            recovery_class: self.recovery_class@,
            executor_action: self.executor_action@,
            apply_posture: self.apply_posture,
            effect_authority: self.effect_authority,
            blocker_codes: strs(self.blocker_codes@),
            preconditions: strs(self.preconditions@),
            compensation: strs(self.compensation@),
        }
    }
}

/// One authenticated acquisition intent. The principal comes from the
/// authenticated service-principal layer, never from caller-authored labels.
pub struct ProfileAcquisitionIntent {
    pub principal_id: String,
    pub profile_id: String,
    pub service_name: String,
    pub agent_name: String,
    pub task_name: String,
    pub target_service_ids: Vec<String>,
}

/// The content of an intent.
pub struct IntentView {
    pub principal_id: Seq<char>,
    pub profile_id: Seq<char>,
    pub service_name: Seq<char>,
    pub agent_name: Seq<char>,
    pub task_name: Seq<char>,
    pub target_service_ids: Seq<Seq<char>>,
}

impl View for ProfileAcquisitionIntent {
    type V = IntentView;

    open spec fn view(&self) -> IntentView {
        IntentView {
            principal_id: self.principal_id@,
            profile_id: self.profile_id@,
            service_name: self.service_name@,
            agent_name: self.agent_name@,
            task_name: self.task_name@,
            target_service_ids: strs(self.target_service_ids@),
        }
    }
}

/// The exact identities a recovery plan joins.
pub struct RecoveryIdentityJoins {
    pub principal_id: String,
    pub profile_id: String,
    pub profile_identity_digest: String,
    pub lifecycle_owner_id: String,
    pub lifecycle_owner_generation: u64,
    pub durable_browser_id: String,
    pub daemon_session_route: String,
    pub service_session_id: Option<String>,
    pub process_instance_digest: String,
    pub presentation_route_id: Option<String>,
}

/// The content of identity joins.
pub struct IdentitiesView {
    pub principal_id: Seq<char>,
    pub profile_id: Seq<char>,
    pub profile_identity_digest: Seq<char>,
    pub lifecycle_owner_id: Seq<char>,
    pub lifecycle_owner_generation: u64,
    pub durable_browser_id: Seq<char>,
    pub daemon_session_route: Seq<char>,
    pub service_session_id: Option<Seq<char>>,
    pub process_instance_digest: Seq<char>,
    pub presentation_route_id: Option<Seq<char>>,
}

impl View for RecoveryIdentityJoins {
    type V = IdentitiesView;

    open spec fn view(&self) -> IdentitiesView {
        IdentitiesView {
            principal_id: self.principal_id@,
            profile_id: self.profile_id@,
            profile_identity_digest: self.profile_identity_digest@,
            lifecycle_owner_id: self.lifecycle_owner_id@,
            lifecycle_owner_generation: self.lifecycle_owner_generation,
            durable_browser_id: self.durable_browser_id@,
            daemon_session_route: self.daemon_session_route@,
            service_session_id: ov(self.service_session_id),
            process_instance_digest: self.process_instance_digest@,
            presentation_route_id: ov(self.presentation_route_id),
        }
    }
}

/// The blocker that decides an outcome.
pub struct DominantBlocker {
    pub code: String,
    pub recoverable: bool,
    pub detail: String,
}

/// The content of a blocker.
pub struct BlockerView {
    pub code: Seq<char>,
    pub recoverable: bool,
    pub detail: Seq<char>,
}

impl View for DominantBlocker {
    type V = BlockerView;

    open spec fn view(&self) -> BlockerView {
        BlockerView { code: self.code@, recoverable: self.recoverable, detail: self.detail@ }
    }
}

/// One piece of evidence about a subject.
pub struct RecoveryEvidence {
    pub code: String,
    pub subject_id: String,
}

/// The content of a piece of evidence.
pub struct EvidenceView {
    pub code: Seq<char>,
    pub subject_id: Seq<char>,
}

impl View for RecoveryEvidence {
    type V = EvidenceView;

    open spec fn view(&self) -> EvidenceView {
        EvidenceView { code: self.code@, subject_id: self.subject_id@ }
    }
}

/// The contents of evidence items.
pub open spec fn evidence_views(v: Seq<RecoveryEvidence>) -> Seq<EvidenceView> {
    v.map_values(|e: RecoveryEvidence| e@)
}

/// One sealed mitigation action of a plan.
pub struct MitigationAction {
    pub schema_version: String,
    pub action_id: String,
    pub action_type: MitigationActionType,
    pub effect_authority: RecoveryEffectAuthority,
    pub preconditions: Vec<String>,
    pub expected_postconditions: Vec<String>,
    pub compensation: Vec<String>,
}

/// The content of a mitigation action.
pub struct ActionView {
    pub schema_version: Seq<char>,
    pub action_id: Seq<char>,
    pub action_type: MitigationActionType,
    pub effect_authority: RecoveryEffectAuthority,
    pub preconditions: Seq<Seq<char>>,
    pub expected_postconditions: Seq<Seq<char>>,
    pub compensation: Seq<Seq<char>>,
}

impl View for MitigationAction {
    type V = ActionView;

    open spec fn view(&self) -> ActionView {
        ActionView {
            schema_version: self.schema_version@,
            action_id: self.action_id@,
            action_type: self.action_type,
            effect_authority: self.effect_authority,
            preconditions: strs(self.preconditions@),
            expected_postconditions: strs(self.expected_postconditions@),
            compensation: strs(self.compensation@),
        }
    }
}

/// A sealed, no-effect recovery plan.
pub struct RecoveryPlan {
    pub schema_version: String,
    pub plan_id: String,
    pub recovery_id: String,
    pub created_at: String,
    pub expires_at: String,
    pub idempotency_key_digest: String,
    pub service_state_revision: u64,
    pub identities: RecoveryIdentityJoins,
    pub dominant_blocker: DominantBlocker,
    pub evidence: Vec<RecoveryEvidence>,
    pub actions: Vec<MitigationAction>,
    pub original_intent: ProfileAcquisitionIntent,
    pub integrity_seal: String,
}

/// The content of a recovery plan.
pub struct PlanView {
    pub schema_version: Seq<char>,
    pub plan_id: Seq<char>,
    pub recovery_id: Seq<char>,
    pub created_at: Seq<char>,
    pub expires_at: Seq<char>,
    pub idempotency_key_digest: Seq<char>,
    pub service_state_revision: u64,
    pub identities: IdentitiesView,
    pub dominant_blocker: BlockerView,
    pub evidence: Seq<EvidenceView>,
    pub actions: Seq<ActionView>,
    pub original_intent: IntentView,
    pub integrity_seal: Seq<char>,
}

impl View for RecoveryPlan {
    type V = PlanView;

    open spec fn view(&self) -> PlanView {
        PlanView {
            schema_version: self.schema_version@,
            plan_id: self.plan_id@,
            recovery_id: self.recovery_id@,
            created_at: self.created_at@,
            expires_at: self.expires_at@,
            idempotency_key_digest: self.idempotency_key_digest@,
            service_state_revision: self.service_state_revision,
            identities: self.identities@,
            dominant_blocker: self.dominant_blocker@,
            evidence: evidence_views(self.evidence@),
            actions: self.actions@.map_values(|a: MitigationAction| a@),
            original_intent: self.original_intent@,
            integrity_seal: self.integrity_seal@,
        }
    }
}

/// The receipt of an applied recovery.
pub struct RecoveryReceipt {
    pub schema_version: String,
    pub recovery_id: String,
    pub plan_id: String,
    pub principal_id: String,
    pub profile_id: String,
    pub terminal_result: String,
    pub precondition_comparison: String,
    pub attempted_operation_ids: Vec<String>,
    pub compensation_result: String,
    pub final_state_revision: u64,
    pub acquisition_retry_state: ProfileAcquisitionState,
    pub browser_id: String,
    pub daemon_session_route: String,
}

/// The outcome of planning or applying an acquisition.
pub struct ProfileAcquisitionOutcome {
    pub schema_version: String,
    pub state: ProfileAcquisitionState,
    pub dominant_blocker: Option<DominantBlocker>,
    pub automatic: bool,
    pub browser_id: Option<String>,
    pub daemon_session_route: Option<String>,
    pub recovery: Option<RecoveryPlan>,
    pub next_action: Option<String>,
    pub evidence: Vec<RecoveryEvidence>,
}

/// The content of an acquisition outcome.
pub struct OutcomeView {
    pub schema_version: Seq<char>,
    pub state: ProfileAcquisitionState,
    pub dominant_blocker: Option<BlockerView>,
    pub automatic: bool,
    pub browser_id: Option<Seq<char>>,
    pub daemon_session_route: Option<Seq<char>>,
    pub recovery: Option<PlanView>,
    pub next_action: Option<Seq<char>>,
    pub evidence: Seq<EvidenceView>,
}

impl View for ProfileAcquisitionOutcome {
    type V = OutcomeView;

    open spec fn view(&self) -> OutcomeView {
        OutcomeView {
            schema_version: self.schema_version@,
            state: self.state,
            dominant_blocker: match self.dominant_blocker {
                Some(b) => Some(b@),
                None => None,
            },
            automatic: self.automatic,
            browser_id: ov(self.browser_id),
            daemon_session_route: ov(self.daemon_session_route),
            recovery: match self.recovery {
                Some(p) => Some(p@),
                None => None,
            },
            next_action: ov(self.next_action),
            evidence: evidence_views(self.evidence@),
        }
    }
}

/// The result of applying a recovery plan.
pub struct RecoveryApplyOutcome {
    pub receipt: RecoveryReceipt,
    pub acquisition: ProfileAcquisitionOutcome,
    pub replayed: bool,
}

/// The views of string slices.
pub open spec fn texts(v: Seq<&str>) -> Seq<Seq<char>> {
    v.map_values(|s: &str| s@)
}

/// Copies string slices into owned strings.
pub fn strings_of(items: &[&str]) -> (r: Vec<String>)
    ensures
        strs(r@) == texts(items@),
{
    let mut out: Vec<String> = Vec::new();
    let mut i: usize = 0;
    while i < items.len()
        invariant
            i <= items@.len(),
            strs(out@) == texts(items@.take(i as int)),
        decreases items@.len() - i,
    {
        let s = owned(items[i]);
        proof {
            crate::lease::lemma_strs_push(out@, s);
            assert(items@.take(i + 1) =~= items@.take(i as int).push(items@[i as int]));
        }
        out.push(s);
        assert(strs(out@) =~= texts(items@.take(i + 1)));
        i = i + 1;
    }
    assert(items@.take(items@.len() as int) =~= items@);
    out
}

/// A registry entry with exact-profile-graph authority.
pub open spec fn entry(
    action_type: MitigationActionType,
    recovery_class: Seq<char>,
    executor_action: Seq<char>,
    apply_posture: MitigationApplyPosture,
    blocker_codes: Seq<Seq<char>>,
    preconditions: Seq<Seq<char>>,
    compensation: Seq<Seq<char>>,
) -> DescriptorView {
    DescriptorView {
        action_type,
        recovery_class,
        executor_action,
        apply_posture,
        effect_authority: RecoveryEffectAuthority::ExactProfileGraph,
        blocker_codes,
        preconditions,
        compensation,
    }
}

/// Builds a registry entry with exact-profile-graph authority.
pub fn descriptor(
    action_type: MitigationActionType,
    recovery_class: &str,
    executor_action: &str,
    apply_posture: MitigationApplyPosture,
    blocker_codes: &[&str],
    preconditions: &[&str],
    compensation: &[&str],
) -> (r: MitigationActionDescriptor)
    ensures
        r@ == entry(
            action_type,
            recovery_class@,
            executor_action@,
            apply_posture,
            texts(blocker_codes@),
            texts(preconditions@),
            texts(compensation@),
        ),
{
    MitigationActionDescriptor {
        action_type,
        recovery_class: owned(recovery_class),
        executor_action: owned(executor_action),
        apply_posture,
        effect_authority: RecoveryEffectAuthority::ExactProfileGraph,
        blocker_codes: strings_of(blocker_codes),
        preconditions: strings_of(preconditions),
        compensation: strings_of(compensation),
    }
}

/// The server-owned mitigation registry, in its published order.
pub open spec fn registry_spec() -> Seq<DescriptorView> {
    seq![
        entry(
            MitigationActionType::SupersedeTerminalOwner,
            "supersede_terminal_owner"@,
            "service_profile_acquire"@,
            MitigationApplyPosture::AutomaticConclusive,
            seq!["terminal_replacement_route_inconsistent"@, "terminal_owner_cleanup_satisfied"@],
            seq!["terminal_cleanup_satisfied"@, "exact_process_absence_proven"@, "foreign_lease_absent"@],
            seq!["retain_exact_cleanup_obligation_on_uncertain_effect"@],
        ),
        entry(
            MitigationActionType::ReconcileExactPrincipalProfileIdentity,
            "reconcile_exact_principal_profile_identity"@,
            "service_profile_acquire"@,
            MitigationApplyPosture::ReviewedExactGraph,
            seq!["existing_session_profile_identity_unproven"@, "existing_session_profile_identity_inconsistent"@],
            seq!["profile_capability_current"@, "current_process_identity_matches"@, "foreign_principal_absent"@],
            seq!["retain_existing_binding_on_compare_and_swap_failure"@],
        ),
        entry(
            MitigationActionType::RepairSubordinateProfileBinding,
            "repair_exact_subordinate_binding"@,
            "service_profile_lease_reconcile_apply"@,
            MitigationApplyPosture::ReviewedExactGraph,
            seq!["existing_session_profile_identity_inconsistent"@],
            seq!["profile_capability_current"@, "browser_session_profile_join_unique"@],
            seq!["preserve_subordinate_work_as_blocked"@],
        ),
        entry(
            MitigationActionType::ReconcileLegacyPrincipal,
            "reconcile_exact_principal_capability"@,
            "service_profile_lease_rejoin"@,
            MitigationApplyPosture::ReviewedExactGraph,
            seq!["legacy_principal_unproven"@],
            seq!["profile_capability_current"@, "one_exact_uncontested_owner"@],
            seq!["preserve_legacy_principal_evidence"@],
        ),
        entry(
            MitigationActionType::BindOwnerPrincipalAuthority,
            "rejoin_exact_owner_principal"@,
            "service_profile_lease_rejoin"@,
            MitigationApplyPosture::ReviewedExactGraph,
            seq!["runtime_owner_principal_binding_missing"@],
            seq!["owner_ready"@, "owner_generation_current"@, "profile_capability_current"@],
            seq!["leave_owner_unbound_on_compare_and_swap_failure"@],
        ),
        entry(
            MitigationActionType::RepairOwnerGenerationBinding,
            "compare_and_swap_principal_owner_binding"@,
            "service_profile_lease_reconcile_apply"@,
            MitigationApplyPosture::ReviewedExactGraph,
            seq!["owner_generation_or_binding_mismatch"@],
            seq!["same_principal_profile_capability"@, "new_owner_generation_ready"@],
            seq!["preserve_prior_binding_on_stale_generation"@],
        ),
        entry(
            MitigationActionType::ReleaseExpiredOwnerlessLease,
            "release_expired_ownerless_lease"@,
            "service_profile_lease_release"@,
            MitigationApplyPosture::AutomaticConclusive,
            seq!["expired_ownerless_lease"@],
            seq!["lease_expired"@, "owner_absent"@, "subordinate_work_absent"@],
            seq!["restore_exact_lease_from_receipt_on_persistence_failure"@],
        ),
        entry(
            MitigationActionType::AdoptExactLiveBrowser,
            "adopt_exact_live_browser"@,
            "external_byop_adopt"@,
            MitigationApplyPosture::ReviewedExactGraph,
            seq!["exact_live_browser_unowned"@],
            seq!["process_identity_current"@, "profile_identity_exact"@, "foreign_owner_absent"@],
            seq!["remove_only_new_owner_binding_on_adoption_failure"@],
        ),
        entry(
            MitigationActionType::RepairSubordinateProfileBinding,
            "repair_subordinate_browser_session_profile_binding"@,
            "service_profile_lease_reconcile_apply"@,
            MitigationApplyPosture::ReviewedExactGraph,
            seq!["subordinate_browser_session_profile_mismatch"@],
            seq!["principal_authority_current"@, "browser_session_profile_join_unique"@],
            seq!["preserve_subordinate_work_as_blocked"@],
        ),
        entry(
            MitigationActionType::RepairIndependentRouteIdentity,
            "acquire_route_bound_manual_seeding_handoff"@,
            "service_profile_manual_seeding_acquire"@,
            MitigationApplyPosture::ReviewedExactGraph,
            seq!["presentation_route_identity_unproven"@, "independent_route_stale"@],
            seq!["browser_identity_exact"@, "route_unreferenced_or_same_owner"@],
            seq!["restore_prior_route_binding_or_quarantine_exact_route"@],
        ),
        entry(
            MitigationActionType::FinalizeTerminalInstallationBookkeeping,
            "finalize_terminal_installation_bookkeeping"@,
            "install_transactions_close"@,
            MitigationApplyPosture::AutomaticConclusive,
            seq!["terminal_installation_transaction"@],
            seq!["installation_effect_terminal"@, "selected_generation_unchanged"@],
            seq!["retain_exact_install_recovery_obligation"@],
        ),
        entry(
            MitigationActionType::RetireInertBrowserRecord,
            "review_exact_inert_record_retirement"@,
            "service_browser_retirement_apply"@,
            MitigationApplyPosture::ReviewedExactGraph,
            seq!["live_browser_missing_pid"@, "fixture_shaped_browser_record"@],
            seq!["process_authority_absent"@, "managed_runtime_authority_absent"@, "references_absent"@],
            seq!["replay_receipt_without_broad_cleanup"@],
        ),
    ]
}

/// The contents of registry entries.
pub open spec fn descriptor_views(v: Seq<MitigationActionDescriptor>) -> Seq<DescriptorView> {
    v.map_values(|d: MitigationActionDescriptor| d@)
}

/// Returns the server-owned mitigation registry. Clients discover new
/// actions from this contract and never infer effect authority from
/// reason-code text.
pub fn mitigation_action_registry() -> (r: Vec<MitigationActionDescriptor>)
    ensures
        descriptor_views(r@) == registry_spec(),
{
    let mut r: Vec<MitigationActionDescriptor> = Vec::new();
    r.push(descriptor(
            MitigationActionType::SupersedeTerminalOwner,
            "supersede_terminal_owner",
            "service_profile_acquire",
            MitigationApplyPosture::AutomaticConclusive,
            &["terminal_replacement_route_inconsistent", "terminal_owner_cleanup_satisfied"],
            &["terminal_cleanup_satisfied", "exact_process_absence_proven", "foreign_lease_absent"],
            &["retain_exact_cleanup_obligation_on_uncertain_effect"],
        ));
    assert(r@[0]@.blocker_codes =~= registry_spec()[0].blocker_codes);
    assert(r@[0]@.preconditions =~= registry_spec()[0].preconditions);
    assert(r@[0]@.compensation =~= registry_spec()[0].compensation);
    r.push(descriptor(
            MitigationActionType::ReconcileExactPrincipalProfileIdentity,
            "reconcile_exact_principal_profile_identity",
            "service_profile_acquire",
            MitigationApplyPosture::ReviewedExactGraph,
            &["existing_session_profile_identity_unproven", "existing_session_profile_identity_inconsistent"],
            &["profile_capability_current", "current_process_identity_matches", "foreign_principal_absent"],
            &["retain_existing_binding_on_compare_and_swap_failure"],
        ));
    assert(r@[1]@.blocker_codes =~= registry_spec()[1].blocker_codes);
    assert(r@[1]@.preconditions =~= registry_spec()[1].preconditions);
    assert(r@[1]@.compensation =~= registry_spec()[1].compensation);
    r.push(descriptor(
            MitigationActionType::RepairSubordinateProfileBinding,
            "repair_exact_subordinate_binding",
            "service_profile_lease_reconcile_apply",
            MitigationApplyPosture::ReviewedExactGraph,
            &["existing_session_profile_identity_inconsistent"],
            &["profile_capability_current", "browser_session_profile_join_unique"],
            &["preserve_subordinate_work_as_blocked"],
        ));
    assert(r@[2]@.blocker_codes =~= registry_spec()[2].blocker_codes);
    assert(r@[2]@.preconditions =~= registry_spec()[2].preconditions);
    assert(r@[2]@.compensation =~= registry_spec()[2].compensation);
    r.push(descriptor(
            MitigationActionType::ReconcileLegacyPrincipal,
            "reconcile_exact_principal_capability",
            "service_profile_lease_rejoin",
            MitigationApplyPosture::ReviewedExactGraph,
            &["legacy_principal_unproven"],
            &["profile_capability_current", "one_exact_uncontested_owner"],
            &["preserve_legacy_principal_evidence"],
        ));
    assert(r@[3]@.blocker_codes =~= registry_spec()[3].blocker_codes);
    assert(r@[3]@.preconditions =~= registry_spec()[3].preconditions);
    assert(r@[3]@.compensation =~= registry_spec()[3].compensation);
    r.push(descriptor(
            MitigationActionType::BindOwnerPrincipalAuthority,
            "rejoin_exact_owner_principal",
            "service_profile_lease_rejoin",
            MitigationApplyPosture::ReviewedExactGraph,
            &["runtime_owner_principal_binding_missing"],
            &["owner_ready", "owner_generation_current", "profile_capability_current"],
            &["leave_owner_unbound_on_compare_and_swap_failure"],
        ));
    assert(r@[4]@.blocker_codes =~= registry_spec()[4].blocker_codes);
    assert(r@[4]@.preconditions =~= registry_spec()[4].preconditions);
    assert(r@[4]@.compensation =~= registry_spec()[4].compensation);
    r.push(descriptor(
            MitigationActionType::RepairOwnerGenerationBinding,
            "compare_and_swap_principal_owner_binding",
            "service_profile_lease_reconcile_apply",
            MitigationApplyPosture::ReviewedExactGraph,
            &["owner_generation_or_binding_mismatch"],
            &["same_principal_profile_capability", "new_owner_generation_ready"],
            &["preserve_prior_binding_on_stale_generation"],
        ));
    assert(r@[5]@.blocker_codes =~= registry_spec()[5].blocker_codes);
    assert(r@[5]@.preconditions =~= registry_spec()[5].preconditions);
    assert(r@[5]@.compensation =~= registry_spec()[5].compensation);
    r.push(descriptor(
            MitigationActionType::ReleaseExpiredOwnerlessLease,
            "release_expired_ownerless_lease",
            "service_profile_lease_release",
            MitigationApplyPosture::AutomaticConclusive,
            &["expired_ownerless_lease"],
            &["lease_expired", "owner_absent", "subordinate_work_absent"],
            &["restore_exact_lease_from_receipt_on_persistence_failure"],
        ));
    assert(r@[6]@.blocker_codes =~= registry_spec()[6].blocker_codes);
    assert(r@[6]@.preconditions =~= registry_spec()[6].preconditions);
    assert(r@[6]@.compensation =~= registry_spec()[6].compensation);
    r.push(descriptor(
            MitigationActionType::AdoptExactLiveBrowser,
            "adopt_exact_live_browser",
            "external_byop_adopt",
            MitigationApplyPosture::ReviewedExactGraph,
            &["exact_live_browser_unowned"],
            &["process_identity_current", "profile_identity_exact", "foreign_owner_absent"],
            &["remove_only_new_owner_binding_on_adoption_failure"],
        ));
    assert(r@[7]@.blocker_codes =~= registry_spec()[7].blocker_codes);
    assert(r@[7]@.preconditions =~= registry_spec()[7].preconditions);
    assert(r@[7]@.compensation =~= registry_spec()[7].compensation);
    r.push(descriptor(
            MitigationActionType::RepairSubordinateProfileBinding,
            "repair_subordinate_browser_session_profile_binding",
            "service_profile_lease_reconcile_apply",
            MitigationApplyPosture::ReviewedExactGraph,
            &["subordinate_browser_session_profile_mismatch"],
            &["principal_authority_current", "browser_session_profile_join_unique"],
            &["preserve_subordinate_work_as_blocked"],
        ));
    assert(r@[8]@.blocker_codes =~= registry_spec()[8].blocker_codes);
    assert(r@[8]@.preconditions =~= registry_spec()[8].preconditions);
    assert(r@[8]@.compensation =~= registry_spec()[8].compensation);
    r.push(descriptor(
            MitigationActionType::RepairIndependentRouteIdentity,
            "acquire_route_bound_manual_seeding_handoff",
            "service_profile_manual_seeding_acquire",
            MitigationApplyPosture::ReviewedExactGraph,
            &["presentation_route_identity_unproven", "independent_route_stale"],
            &["browser_identity_exact", "route_unreferenced_or_same_owner"],
            &["restore_prior_route_binding_or_quarantine_exact_route"],
        ));
    assert(r@[9]@.blocker_codes =~= registry_spec()[9].blocker_codes);
    assert(r@[9]@.preconditions =~= registry_spec()[9].preconditions);
    assert(r@[9]@.compensation =~= registry_spec()[9].compensation);
    r.push(descriptor(
            MitigationActionType::FinalizeTerminalInstallationBookkeeping,
            "finalize_terminal_installation_bookkeeping",
            "install_transactions_close",
            MitigationApplyPosture::AutomaticConclusive,
            &["terminal_installation_transaction"],
            &["installation_effect_terminal", "selected_generation_unchanged"],
            &["retain_exact_install_recovery_obligation"],
        ));
    assert(r@[10]@.blocker_codes =~= registry_spec()[10].blocker_codes);
    assert(r@[10]@.preconditions =~= registry_spec()[10].preconditions);
    assert(r@[10]@.compensation =~= registry_spec()[10].compensation);
    r.push(descriptor(
            MitigationActionType::RetireInertBrowserRecord,
            "review_exact_inert_record_retirement",
            "service_browser_retirement_apply",
            MitigationApplyPosture::ReviewedExactGraph,
            &["live_browser_missing_pid", "fixture_shaped_browser_record"],
            &["process_authority_absent", "managed_runtime_authority_absent", "references_absent"],
            &["replay_receipt_without_broad_cleanup"],
        ));
    assert(r@[11]@.blocker_codes =~= registry_spec()[11].blocker_codes);
    assert(r@[11]@.preconditions =~= registry_spec()[11].preconditions);
    assert(r@[11]@.compensation =~= registry_spec()[11].compensation);
    assert(descriptor_views(r@) =~= registry_spec());
    r
}


/// The blocker codes in order of dominance, highest first.
pub open spec fn dominance_order() -> Seq<Seq<char>> {
    seq![
        "live_foreign_principal_authority"@,
        "existing_session_profile_identity_inconsistent"@,
        "existing_session_profile_identity_unproven"@,
        "legacy_principal_unproven"@,
        "runtime_owner_principal_binding_missing"@,
        "owner_generation_or_binding_mismatch"@,
        "subordinate_browser_session_profile_mismatch"@,
        "expired_ownerless_lease"@,
        "presentation_route_identity_unproven"@,
        "terminal_installation_transaction"@,
    ]
}

/// The blocker codes in order of dominance, highest first.
pub fn profile_blocker_dominance_order() -> (r: Vec<&'static str>)
    ensures
        texts(r@) == dominance_order(),
{
    let r = vec![
        "live_foreign_principal_authority",
        "existing_session_profile_identity_inconsistent",
        "existing_session_profile_identity_unproven",
        "legacy_principal_unproven",
        "runtime_owner_principal_binding_missing",
        "owner_generation_or_binding_mismatch",
        "subordinate_browser_session_profile_mismatch",
        "expired_ownerless_lease",
        "presentation_route_identity_unproven",
        "terminal_installation_transaction",
    ];
    assert(texts(r@) =~= dominance_order());
    r
}

/// The first code of `order` that occurs in `codes`.
pub open spec fn first_dominant(order: Seq<Seq<char>>, codes: Seq<Seq<char>>) -> Option<Seq<char>>
    decreases order.len(),
{
    if order.len() == 0 {
        None
    } else if codes.contains(order[0]) {
        Some(order[0])
    } else {
        first_dominant(order.drop_first(), codes)
    }
}

/// Whether `code` is one of `codes`.
fn contains_str(codes: &[&str], code: &str) -> (r: bool)
    ensures
        r == texts(codes@).contains(code@),
{
    let mut i: usize = 0;
    while i < codes.len()
        invariant
            i <= codes@.len(),
            forall|j: int| 0 <= j < i ==> codes@[j]@ != code@,
        decreases codes@.len() - i,
    {
        if str_equal(codes[i], code) {
            assert(texts(codes@)[i as int] == code@);
            return true;
        }
        i = i + 1;
    }
    assert(!texts(codes@).contains(code@)) by {
        if texts(codes@).contains(code@) {
            let j = choose|j: int| 0 <= j < texts(codes@).len() && texts(codes@)[j] == code@;
            assert(codes@[j]@ == code@);
        }
    }
    false
}

/// The most dominant of the given blocker codes, if any is ranked.
pub fn dominant_profile_blocker(codes: &[&str]) -> (r: Option<String>)
    ensures
        match r {
            Some(s) => first_dominant(dominance_order(), texts(codes@)) == Some(s@),
            None => first_dominant(dominance_order(), texts(codes@)) is None,
        },
{
    let order = profile_blocker_dominance_order();
    let ghost codes_view = texts(codes@);
    let mut i: usize = 0;
    assert(texts(order@).skip(0) =~= dominance_order());
    while i < order.len()
        invariant
            i <= order@.len(),
            texts(order@) == dominance_order(),
            codes_view == texts(codes@),
            first_dominant(dominance_order(), codes_view) == first_dominant(texts(order@).skip(i as int), codes_view),
        decreases order@.len() - i,
    {
        assert(texts(order@).skip(i as int).drop_first() =~= texts(order@).skip(i + 1));
        assert(texts(order@).skip(i as int)[0] == order@[i as int]@);
        if contains_str(codes, order[i]) {
            return Some(owned(order[i]));
        }
        i = i + 1;
    }
    None
}

/// The dominant blocker is ranked, present among the codes, and no code
/// ranked above it is present; when there is none, no ranked code is present.
pub proof fn law_dominant_blocker_is_highest_ranked_present(codes: Seq<Seq<char>>)
    ensures
        match first_dominant(dominance_order(), codes) {
            Some(b) => exists|k: int| {
                &&& 0 <= k < dominance_order().len()
                &&& dominance_order()[k] == b
                &&& codes.contains(b)
                &&& forall|j: int| 0 <= j < k ==> !codes.contains(#[trigger] dominance_order()[j])
            },
            None => forall|j: int| 0 <= j < dominance_order().len() ==> !codes.contains(#[trigger] dominance_order()[j]),
        },
{
    lemma_first_dominant(dominance_order(), codes);
}

/// `first_dominant` picks the first present code of the order.
proof fn lemma_first_dominant(order: Seq<Seq<char>>, codes: Seq<Seq<char>>)
    ensures
        match first_dominant(order, codes) {
            Some(b) => exists|k: int| {
                &&& 0 <= k < order.len()
                &&& order[k] == b
                &&& codes.contains(b)
                &&& forall|j: int| 0 <= j < k ==> !codes.contains(#[trigger] order[j])
            },
            None => forall|j: int| 0 <= j < order.len() ==> !codes.contains(#[trigger] order[j]),
        },
    decreases order.len(),
{
    if order.len() > 0 {
        if codes.contains(order[0]) {
            assert(order[0] == order[0]);
        } else {
            let rest = order.drop_first();
            lemma_first_dominant(rest, codes);
            match first_dominant(rest, codes) {
                Some(b) => {
                    let k = choose|k: int| {
                        &&& 0 <= k < rest.len()
                        &&& rest[k] == b
                        &&& codes.contains(b)
                        &&& forall|j: int| 0 <= j < k ==> !codes.contains(#[trigger] rest[j])
                    };
                    assert forall|j: int| 0 <= j < k + 1 implies !codes.contains(#[trigger] order[j]) by {
                        if j > 0 {
                            assert(order[j] == rest[j - 1]);
                        }
                    }
                    assert(order[k + 1] == b);
                },
                None => {
                    assert forall|j: int| 0 <= j < order.len() implies !codes.contains(#[trigger] order[j]) by {
                        if j > 0 {
                            assert(order[j] == rest[j - 1]);
                        }
                    }
                },
            }
        }
    }
}

/// Live foreign principal authority dominates every recoverable defect.
pub proof fn law_live_foreign_authority_dominates(codes: Seq<Seq<char>>)
    requires
        codes.contains("live_foreign_principal_authority"@),
    ensures
        first_dominant(dominance_order(), codes) == Some("live_foreign_principal_authority"@),
{
}

/// Every ranked blocker below live foreign authority has at least one
/// registry action, and every registry action is scoped to the exact
/// profile graph with an executor, preconditions and compensation.
pub proof fn law_registry_covers_every_recoverable_blocker()
    ensures
        forall|i: int| 1 <= i < dominance_order().len() ==> exists|d: int|
            0 <= d < registry_spec().len() && (#[trigger] registry_spec()[d]).blocker_codes.contains(
                #[trigger] dominance_order()[i],
            ),
        forall|d: int| 0 <= d < registry_spec().len() ==> {
            &&& (#[trigger] registry_spec()[d]).effect_authority == RecoveryEffectAuthority::ExactProfileGraph
            &&& registry_spec()[d].executor_action.len() > 0
            &&& registry_spec()[d].preconditions.len() > 0
            &&& registry_spec()[d].compensation.len() > 0
        },
{
    let r = registry_spec();
    let o = dominance_order();
    assert(r[1].blocker_codes[1] == o[1]);
    assert(r[1].blocker_codes[0] == o[2]);
    assert(r[3].blocker_codes[0] == o[3]);
    assert(r[4].blocker_codes[0] == o[4]);
    assert(r[5].blocker_codes[0] == o[5]);
    assert(r[8].blocker_codes[0] == o[6]);
    assert(r[6].blocker_codes[0] == o[7]);
    assert(r[9].blocker_codes[0] == o[8]);
    assert(r[10].blocker_codes[0] == o[9]);
    assert forall|i: int| 1 <= i < o.len() implies exists|d: int|
        0 <= d < r.len() && (#[trigger] r[d]).blocker_codes.contains(#[trigger] o[i]) by {
        if i == 1 {
            assert(r[1].blocker_codes.contains(o[1]));
        } else if i == 2 {
            assert(r[1].blocker_codes.contains(o[2]));
        } else if i == 3 {
            assert(r[3].blocker_codes.contains(o[3]));
        } else if i == 4 {
            assert(r[4].blocker_codes.contains(o[4]));
        } else if i == 5 {
            assert(r[5].blocker_codes.contains(o[5]));
        } else if i == 6 {
            assert(r[8].blocker_codes.contains(o[6]));
        } else if i == 7 {
            assert(r[6].blocker_codes.contains(o[7]));
        } else if i == 8 {
            assert(r[9].blocker_codes.contains(o[8]));
        } else {
            assert(r[10].blocker_codes.contains(o[9]));
        }
    }
    reveal_strlit("supersede_terminal_owner");
    reveal_strlit("service_profile_acquire");
    reveal_strlit("service_profile_lease_reconcile_apply");
    reveal_strlit("service_profile_lease_rejoin");
    reveal_strlit("service_profile_lease_release");
    reveal_strlit("external_byop_adopt");
    reveal_strlit("service_profile_manual_seeding_acquire");
    reveal_strlit("install_transactions_close");
    reveal_strlit("service_browser_retirement_apply");
}

/// One piece of evidence.
pub open spec fn ev(code: Seq<char>, subject_id: Seq<char>) -> EvidenceView {
    EvidenceView { code, subject_id }
}

/// Builds one piece of evidence.
pub fn evidence(code: &str, subject_id: &str) -> (r: RecoveryEvidence)
    ensures
        r@ == ev(code@, subject_id@),
{
    RecoveryEvidence { code: owned(code), subject_id: owned(subject_id) }
}

/// Evidence with each of `codes` about one subject.
pub open spec fn evidence_about(codes: Seq<Seq<char>>, subject_id: Seq<char>) -> Seq<EvidenceView> {
    codes.map_values(|c: Seq<char>| ev(c, subject_id))
}

/// Builds evidence with each of `codes` about one subject.
fn evidence_for(codes: &Vec<String>, subject_id: &str) -> (r: Vec<RecoveryEvidence>)
    ensures
        evidence_views(r@) == evidence_about(strs(codes@), subject_id@),
{
    let mut out: Vec<RecoveryEvidence> = Vec::new();
    let mut i: usize = 0;
    while i < codes.len()
        invariant
            i <= codes@.len(),
            evidence_views(out@) == evidence_about(strs(codes@).take(i as int), subject_id@),
        decreases codes@.len() - i,
    {
        let e = evidence(codes[i].as_str(), subject_id);
        proof {
            lemma_map_push(out@, e, |e: RecoveryEvidence| e@);
            assert(strs(codes@).take(i + 1) =~= strs(codes@).take(i as int).push(codes@[i as int]@));
            lemma_map_push(strs(codes@).take(i as int), codes@[i as int]@, |c: Seq<char>| ev(c, subject_id@));
        }
        out.push(e);
        assert(evidence_views(out@) =~= evidence_about(strs(codes@).take(i + 1), subject_id@));
        i = i + 1;
    }
    assert(strs(codes@).take(codes@.len() as int) =~= strs(codes@));
    out
}

/// A blocked outcome with its recourse.
pub open spec fn blocked_with_recourse_spec(
    code: Seq<char>,
    recoverable: bool,
    detail: Seq<char>,
    next_action: Seq<char>,
    evidence: Seq<EvidenceView>,
) -> OutcomeView {
    OutcomeView {
        schema_version: PROFILE_ACQUISITION_OUTCOME_SCHEMA_V1@,
        state: ProfileAcquisitionState::Blocked,
        dominant_blocker: Some(BlockerView { code, recoverable, detail }),
        automatic: false,
        browser_id: None,
        daemon_session_route: None,
        recovery: None,
        next_action: Some(next_action),
        evidence,
    }
}

/// A blocked outcome with its recourse.
pub fn blocked_outcome_with_recourse(
    code: &str,
    recoverable: bool,
    detail: &str,
    next_action: &str,
    evidence: Vec<RecoveryEvidence>,
) -> (r: ProfileAcquisitionOutcome)
    ensures
        r@ == blocked_with_recourse_spec(code@, recoverable, detail@, next_action@, evidence_views(evidence@)),
{
    ProfileAcquisitionOutcome {
        schema_version: owned(PROFILE_ACQUISITION_OUTCOME_SCHEMA_V1),
        state: ProfileAcquisitionState::Blocked,
        dominant_blocker: Some(DominantBlocker {
            code: owned(code),
            recoverable,
            detail: owned(detail),
        }),
        automatic: false,
        browser_id: None,
        daemon_session_route: None,
        recovery: None,
        next_action: Some(owned(next_action)),
        evidence,
    }
}

/// The outcome for a retained owner without exact terminal proof.
pub open spec fn blocked_outcome_spec(browser_id: Seq<char>, lifecycle: RuntimeLifecycleRecord) -> OutcomeView {
    blocked_with_recourse_spec(
        "terminal_owner_evidence_incomplete"@,
        false,
        "The retained lifecycle owner lacks exact terminal cleanup and process-absence proof."@,
        "inspect_lifecycle_owner"@,
        evidence_about(strs(lifecycle.terminal_evidence@), browser_id),
    )
}

/// The outcome for a retained owner without exact terminal proof: blocked,
/// not recoverable, with the lifecycle's terminal evidence about the browser.
pub fn blocked_outcome(browser_id: &str, lifecycle: &RuntimeLifecycleRecord) -> (r: ProfileAcquisitionOutcome)
    ensures
        r@ == blocked_outcome_spec(browser_id@, *lifecycle),
{
    let evidence = evidence_for(&lifecycle.terminal_evidence, browser_id);
    blocked_outcome_with_recourse(
        "terminal_owner_evidence_incomplete",
        false,
        "The retained lifecycle owner lacks exact terminal cleanup and process-absence proof.",
        "inspect_lifecycle_owner",
        evidence,
    )
}

/// The canonical identity digest of a stored profile that names its user
/// data directory.
pub open spec fn recovery_digest_spec(profile: BrowserProfile) -> Result<Seq<char>, Seq<char>> {
    match (profile.user_data_dir, profile.identity_digest) {
        (Some(_), Some(d)) => Ok(d@),
        _ => Err("profile_recovery_identity_unavailable"@),
    }
}

/// The canonical identity digest of a stored profile that names its user
/// data directory.
pub fn recovery_profile_identity_digest(profile: &BrowserProfile) -> (r: Result<String, String>)
    ensures
        match r {
            Ok(d) => recovery_digest_spec(*profile) == Ok::<Seq<char>, Seq<char>>(d@),
            Err(e) => recovery_digest_spec(*profile) == Err::<Seq<char>, Seq<char>>(e@),
        },
{
    match (&profile.user_data_dir, &profile.identity_digest) {
        (Some(_), Some(d)) => Ok(d.clone()),
        _ => Err(owned("profile_recovery_identity_unavailable")),
    }
}

/// Whether a session holds its profile actively.
pub open spec fn holds_lease(s: BrowserSession, profile_id: Seq<char>) -> bool {
    opt_is(s.profile_id, profile_id) && (s.lease == LeaseState::Shared || s.lease == LeaseState::Exclusive
        || s.lease == LeaseState::HumanTakeover)
}

/// The ids of the sessions that hold a profile actively, in key order.
pub open spec fn active_lease_session_ids(sessions: Seq<BrowserSession>, profile_id: Seq<char>) -> Seq<Seq<char>> {
    sessions.filter(|s: BrowserSession| holds_lease(s, profile_id)).map_values(|s: BrowserSession| s.id@)
}

/// The ids of the sessions that hold a profile actively, in key order.
pub fn active_profile_lease_session_ids(state: &ServiceState, profile_id: &str) -> (r: Vec<String>)
    ensures
        strs(r@) == active_lease_session_ids(state.sessions@, profile_id@),
{
    let sessions = &state.sessions;
    let ghost pred = |s: BrowserSession| holds_lease(s, profile_id@);
    let mut out: Vec<String> = Vec::new();
    let mut i: usize = 0;
    while i < sessions.len()
        invariant
            i <= sessions@.len(),
            sessions == &state.sessions,
            pred == (|s: BrowserSession| holds_lease(s, profile_id@)),
            strs(out@) == sessions@.take(i as int).filter(pred).map_values(|s: BrowserSession| s.id@),
        decreases sessions@.len() - i,
    {
        proof {
            lemma_filter_take_step(sessions@, pred, i as int);
        }
        let s = &sessions[i];
        if opt_eq(&s.profile_id, profile_id) && (s.lease == LeaseState::Shared || s.lease
            == LeaseState::Exclusive || s.lease == LeaseState::HumanTakeover) {
            let id = s.id.clone();
            proof {
                lemma_strs_push(out@, id);
                lemma_map_push(sessions@.take(i as int).filter(pred), *s, |s: BrowserSession| s.id@);
            }
            out.push(id);
        }
        i = i + 1;
    }
    proof {
        lemma_take_full(sessions@);
    }
    out
}

/// The id of the first session (in key order) that lists a browser.
pub open spec fn first_session_with_browser(sessions: Seq<BrowserSession>, browser_id: Seq<char>) -> Option<Seq<char>>
    decreases sessions.len(),
{
    if sessions.len() == 0 {
        None
    } else if strs(sessions[0].browser_ids@).contains(browser_id) {
        Some(sessions[0].id@)
    } else {
        first_session_with_browser(sessions.drop_first(), browser_id)
    }
}

/// The id of the first session (in key order) that lists a browser.
fn session_with_browser(state: &ServiceState, browser_id: &str) -> (r: Option<String>)
    ensures
        ov(r) == first_session_with_browser(state.sessions@, browser_id@),
{
    let sessions = &state.sessions;
    let mut i: usize = 0;
    assert(sessions@.skip(0) =~= sessions@);
    while i < sessions.len()
        invariant
            i <= sessions@.len(),
            sessions == &state.sessions,
            first_session_with_browser(sessions@, browser_id@) == first_session_with_browser(
                sessions@.skip(i as int),
                browser_id@,
            ),
        decreases sessions@.len() - i,
    {
        assert(sessions@.skip(i as int).drop_first() =~= sessions@.skip(i + 1));
        if contains_text(&sessions[i].browser_ids, browser_id) {
            return Some(sessions[i].id.clone());
        }
        i = i + 1;
    }
    None
}

/// Whether a browser record carries a process id.
pub open spec fn process_proven(state: ServiceState, browser_id: Seq<char>) -> bool {
    lookup(state.browsers@, browser_id) matches Some(b) && b.pid is Some
}

/// Whether a browser record carries a process id.
fn browser_has_pid(state: &ServiceState, browser_id: &str) -> (r: bool)
    ensures
        r == process_proven(*state, browser_id@),
{
    match get_keyed(&state.browsers, browser_id) {
        Some(b) => b.pid.is_some(),
        None => false,
    }
}

/// The identities a plan joins for an owner of a profile identity.
pub open spec fn identities_spec(
    state: ServiceState,
    intent: IntentView,
    digest: Seq<char>,
    owner: ProfileOwner,
) -> IdentitiesView {
    IdentitiesView {
        principal_id: intent.principal_id,
        profile_id: intent.profile_id,
        profile_identity_digest: digest,
        lifecycle_owner_id: owner.owner_id@,
        lifecycle_owner_generation: owner.owner_generation,
        durable_browser_id: owner.browser_id@,
        daemon_session_route: owner.daemon_session_route@,
        service_session_id: first_session_with_browser(state.sessions@, owner.browser_id@),
        process_instance_digest: owner.process_instance_digest@,
        presentation_route_id: None,
    }
}

/// Builds the identities a plan joins for an owner of a profile identity.
fn identities_for(
    state: &ServiceState,
    intent: &ProfileAcquisitionIntent,
    digest: &str,
    owner: &ProfileOwner,
) -> (r: RecoveryIdentityJoins)
    ensures
        r@ == identities_spec(*state, intent@, digest@, *owner),
{
    RecoveryIdentityJoins {
        principal_id: intent.principal_id.clone(),
        profile_id: intent.profile_id.clone(),
        profile_identity_digest: owned(digest),
        lifecycle_owner_id: owner.owner_id.clone(),
        lifecycle_owner_generation: owner.owner_generation,
        durable_browser_id: owner.browser_id.clone(),
        daemon_session_route: owner.daemon_session_route.clone(),
        service_session_id: session_with_browser(state, owner.browser_id.as_str()),
        process_instance_digest: owner.process_instance_digest.clone(),
        presentation_route_id: None,
    }
}

/// A sealed plan: its identifiers digest its contents and its seal covers
/// the whole plan under the key.
#[verifier::opaque]
pub open spec fn plan_spec(
    revision: u64,
    identities: IdentitiesView,
    blocker: BlockerView,
    evidence: Seq<EvidenceView>,
    action: ActionView,
    intent: IntentView,
    created_at: Seq<char>,
    expires_at: Seq<char>,
    idempotency_key: Seq<char>,
    seal_key: Seq<u8>,
) -> PlanView {
    let key_digest = digest_text_spec(idempotency_key);
    let recovery_id = digest_text_spec(recovery_id_json(identities, key_digest));
    let plan_id = digest_text_spec(
        plan_id_json(recovery_id, revision, identities, blocker, action, intent, created_at, expires_at),
    );
    let unsealed = PlanView {
        schema_version: PROFILE_RECOVERY_PLAN_SCHEMA_V1@,
        plan_id,
        recovery_id,
        created_at,
        expires_at,
        idempotency_key_digest: key_digest,
        service_state_revision: revision,
        identities,
        dominant_blocker: blocker,
        evidence,
        actions: seq![action],
        original_intent: intent,
        integrity_seal: Seq::empty(),
    };
    PlanView { integrity_seal: seal_spec(unsealed, seal_key), ..unsealed }
}

/// An outcome that offers a recovery plan.
pub open spec fn recovery_available_spec(plan: PlanView, next_action: Seq<char>) -> OutcomeView {
    OutcomeView {
        schema_version: PROFILE_ACQUISITION_OUTCOME_SCHEMA_V1@,
        state: ProfileAcquisitionState::RecoveryAvailable,
        dominant_blocker: Some(plan.dominant_blocker),
        automatic: false,
        browser_id: None,
        daemon_session_route: None,
        recovery: Some(plan),
        next_action: Some(next_action),
        evidence: plan.evidence,
    }
}

/// Seals a plan for one action and wraps it in a recovery-available outcome.
#[verifier::rlimit(40)]
fn sealed_outcome(
    revision: u64,
    identities: RecoveryIdentityJoins,
    blocker: DominantBlocker,
    evidence: Vec<RecoveryEvidence>,
    action: MitigationAction,
    intent: ProfileAcquisitionIntent,
    created_at: &str,
    expires_at: &str,
    idempotency_key: &str,
    seal_key: &[u8],
    next_action: &str,
) -> (r: ProfileAcquisitionOutcome)
    requires
        seal_key@.len() >= 32,
    ensures
        r@ == recovery_available_spec(
            plan_spec(
                revision,
                identities@,
                blocker@,
                evidence_views(evidence@),
                action@,
                intent@,
                created_at@,
                expires_at@,
                idempotency_key@,
                seal_key@,
            ),
            next_action@,
        ),
        r.recovery matches Some(p) && p.integrity_seal@.len() == 71,
{
    reveal(plan_spec);
    let key_digest = digest_text(idempotency_key);
    let mut text = String::new();
    text.append("[\"profile-recovery\",");
    push_quoted(&mut text, identities.profile_identity_digest.as_str());
    text.append(",");
    push_decimal(&mut text, identities.lifecycle_owner_generation);
    text.append(",");
    push_quoted(&mut text, key_digest.as_str());
    text.append("]");
    assert(text@ =~= recovery_id_json(identities@, key_digest@));
    let recovery_id = digest_text(text.as_str());
    let mut text = String::new();
    text.append("[\"agent-browser.profile-recovery-plan.v1\",");
    push_quoted(&mut text, recovery_id.as_str());
    text.append(",");
    push_decimal(&mut text, revision);
    text.append(",");
    push_identities_json(&mut text, &identities);
    text.append(",");
    push_blocker_json(&mut text, &blocker);
    text.append(",");
    push_action_json(&mut text, &action);
    text.append(",");
    push_intent_json(&mut text, &intent);
    text.append(",");
    push_quoted(&mut text, created_at);
    text.append(",");
    push_quoted(&mut text, expires_at);
    text.append("]");
    assert(text@ =~= plan_id_json(
        recovery_id@,
        revision,
        identities@,
        blocker@,
        action@,
        intent@,
        created_at@,
        expires_at@,
    ));
    let plan_id = digest_text(text.as_str());
    let outcome_blocker = DominantBlocker {
        code: blocker.code.clone(),
        recoverable: blocker.recoverable,
        detail: blocker.detail.clone(),
    };
    let outcome_evidence = clone_evidence(&evidence);
    let mut actions: Vec<MitigationAction> = Vec::new();
    actions.push(action);
    let mut plan = RecoveryPlan {
        schema_version: owned(PROFILE_RECOVERY_PLAN_SCHEMA_V1),
        plan_id,
        recovery_id,
        created_at: owned(created_at),
        expires_at: owned(expires_at),
        idempotency_key_digest: key_digest,
        service_state_revision: revision,
        identities,
        dominant_blocker: blocker,
        evidence,
        actions,
        original_intent: intent,
        integrity_seal: String::new(),
    };
    let seal = match seal_recovery_plan(&plan, seal_key) {
        Ok(s) => s,
        Err(e) => e,
    };
    plan.integrity_seal = seal;
    assert(plan@.actions =~= seq![action@]);
    ProfileAcquisitionOutcome {
        schema_version: owned(PROFILE_ACQUISITION_OUTCOME_SCHEMA_V1),
        state: ProfileAcquisitionState::RecoveryAvailable,
        dominant_blocker: Some(outcome_blocker),
        automatic: false,
        browser_id: None,
        daemon_session_route: None,
        recovery: Some(plan),
        next_action: Some(owned(next_action)),
        evidence: outcome_evidence,
    }
}

/// Copies evidence.
fn clone_evidence(v: &Vec<RecoveryEvidence>) -> (r: Vec<RecoveryEvidence>)
    ensures
        evidence_views(r@) == evidence_views(v@),
{
    let mut out: Vec<RecoveryEvidence> = Vec::new();
    let mut i: usize = 0;
    while i < v.len()
        invariant
            i <= v@.len(),
            evidence_views(out@) == evidence_views(v@.take(i as int)),
        decreases v@.len() - i,
    {
        let e = evidence(v[i].code.as_str(), v[i].subject_id.as_str());
        proof {
            lemma_map_push(out@, e, |e: RecoveryEvidence| e@);
            assert(v@.take(i + 1) =~= v@.take(i as int).push(v@[i as int]));
            lemma_map_push(v@.take(i as int), v@[i as int], |e: RecoveryEvidence| e@);
        }
        out.push(e);
        assert(evidence_views(out@) =~= evidence_views(v@.take(i + 1)));
        i = i + 1;
    }
    assert(v@.take(v@.len() as int) =~= v@);
    out
}

/// A mitigation action whose identifier digests its kind, the registry
/// revision and the identities it joins.
pub open spec fn action_spec(
    kind: Seq<char>,
    action_type: MitigationActionType,
    revision: u64,
    identities: IdentitiesView,
    preconditions: Seq<Seq<char>>,
    expected_postconditions: Seq<Seq<char>>,
    compensation: Seq<Seq<char>>,
) -> ActionView {
    ActionView {
        schema_version: PROFILE_MITIGATION_ACTION_SCHEMA_V1@,
        action_id: digest_text_spec(action_id_json(kind, revision, identities)),
        action_type,
        effect_authority: RecoveryEffectAuthority::ExactProfileGraph,
        preconditions,
        expected_postconditions,
        compensation,
    }
}

/// Builds a mitigation action whose identifier digests its kind, the
/// registry revision and the identities it joins.
fn mitigation_action(
    kind: &str,
    action_type: MitigationActionType,
    revision: u64,
    identities: &RecoveryIdentityJoins,
    preconditions: &[&str],
    expected_postconditions: &[&str],
    compensation: &[&str],
) -> (r: MitigationAction)
    ensures
        r@ == action_spec(
            kind@,
            action_type,
            revision,
            identities@,
            texts(preconditions@),
            texts(expected_postconditions@),
            texts(compensation@),
        ),
{
    let mut text = String::new();
    text.append("[");
    push_quoted(&mut text, kind);
    text.append(",");
    push_decimal(&mut text, revision);
    text.append(",");
    push_identities_json(&mut text, identities);
    text.append("]");
    assert(text@ =~= action_id_json(kind@, revision, identities@));
    MitigationAction {
        schema_version: owned(PROFILE_MITIGATION_ACTION_SCHEMA_V1),
        action_id: digest_text(text.as_str()),
        action_type,
        effect_authority: RecoveryEffectAuthority::ExactProfileGraph,
        preconditions: strings_of(preconditions),
        expected_postconditions: strings_of(expected_postconditions),
        compensation: strings_of(compensation),
    }
}

/// The action that supersedes an exactly terminal owner.
pub open spec fn terminal_action_spec(revision: u64, identities: IdentitiesView) -> ActionView {
    action_spec(
        "supersede_terminal_owner"@,
        MitigationActionType::SupersedeTerminalOwner,
        revision,
        identities,
        seq![
            "service_state_revision_matches"@,
            "profile_identity_digest_matches"@,
            "owner_generation_matches"@,
            "terminal_cleanup_satisfied"@,
            "exact_process_absence_proven"@,
            "foreign_lease_absent"@,
        ],
        seq![
            "replacement_generation_is_unique"@,
            "durable_browser_history_preserved"@,
            "original_acquisition_retried"@,
        ],
        seq!["retain_exact_cleanup_obligation_on_uncertain_effect"@],
    )
}

/// The action that reconciles an exact principal with a live profile graph.
pub open spec fn reconcile_action_spec(revision: u64, identities: IdentitiesView) -> ActionView {
    action_spec(
        "reconcile_exact_principal_profile_identity"@,
        MitigationActionType::ReconcileExactPrincipalProfileIdentity,
        revision,
        identities,
        seq![
            "profile_capability_current"@,
            "profile_identity_digest_matches"@,
            "owner_generation_matches"@,
            "current_process_identity_matches"@,
            "foreign_principal_absent"@,
        ],
        seq![
            "principal_profile_binding_current"@,
            "existing_browser_preserved"@,
            "duplicate_launch_absent"@,
        ],
        seq!["retain_existing_binding_on_compare_and_swap_failure"@],
    )
}

/// The blocker of an exactly terminal owner.
pub open spec fn terminal_blocker_spec() -> BlockerView {
    BlockerView {
        code: "terminal_owner_cleanup_satisfied"@,
        recoverable: true,
        detail: "The exact retained owner is terminal, cleanup is satisfied, and process absence is proven."@,
    }
}

/// Whether a retained owner is exactly terminal: its lifecycle record joins
/// the same identity, browser and generation, is terminal with satisfied
/// cleanup and both exit proofs, no session holds the profile, no process
/// is recorded, and no transfer is pending.
pub open spec fn exact_terminal(
    state: ServiceState,
    profile_id: Seq<char>,
    digest: Seq<char>,
    owner: ProfileOwner,
    lifecycle: RuntimeLifecycleRecord,
) -> bool {
    &&& lifecycle.profile_identity_digest@ == digest
    &&& lifecycle.logical_browser_id@ == owner.browser_id@
    &&& lifecycle.owner_generation == owner.owner_generation
    &&& lifecycle.lifecycle_state == RuntimeLaneLifecycleState::Terminal
    &&& lifecycle.cleanup_obligation_state@ == "satisfied"@
    &&& strs(lifecycle.terminal_evidence@).contains("exact_process_exited"@)
    &&& strs(lifecycle.terminal_evidence@).contains("profile_lock_released"@)
    &&& active_lease_session_ids(state.sessions@, profile_id).len() == 0
    &&& !process_proven(state, owner.browser_id@)
    &&& !owner.pending_transfer
}

/// Whether planning inputs are unusable: a short seal key or a blank
/// idempotency key.
pub open spec fn plan_inputs_invalid(idempotency_key: Seq<char>, seal_key: Seq<u8>) -> bool {
    seal_key.len() < 32 || trim(idempotency_key).len() == 0
}

/// What planning the recovery of a terminal owner yields.
pub open spec fn terminal_recovery_spec(
    state: ServiceState,
    intent: IntentView,
    created_at: Seq<char>,
    expires_at: Seq<char>,
    idempotency_key: Seq<char>,
    seal_key: Seq<u8>,
) -> Result<OutcomeView, Seq<char>> {
    if plan_inputs_invalid(idempotency_key, seal_key) {
        Err("profile_recovery_plan_invalid"@)
    } else {
        match lookup(state.profiles@, intent.profile_id) {
            None => Err("profile_recovery_profile_missing"@),
            Some(profile) => match recovery_digest_spec(profile) {
                Err(e) => Err(e),
                Ok(digest) => match lookup(state.runtime_owner_registry.owners@, digest) {
                    None => Err("profile_recovery_owner_missing"@),
                    Some(owner) => match lookup(state.runtime_owner_registry.lifecycle_records@, owner.browser_id@) {
                        None => Err("profile_recovery_lifecycle_missing"@),
                        Some(lifecycle) => if !exact_terminal(state, intent.profile_id, digest, owner, lifecycle) {
                            Ok(blocked_outcome_spec(owner.browser_id@, lifecycle))
                        } else {
                            Ok(terminal_plan_spec(
                                state,
                                intent,
                                digest,
                                owner,
                                lifecycle,
                                created_at,
                                expires_at,
                                idempotency_key,
                                seal_key,
                            ))
                        },
                    },
                },
            },
        }
    }
}

/// Plans the supersession of an exactly terminal profile owner without any
/// effect. A retained owner that lacks exact terminal proof, has a recorded
/// process or is held by a session blocks the plan.
#[verifier::rlimit(40)]
pub fn plan_terminal_owner_recovery(
    state: &ServiceState,
    intent: ProfileAcquisitionIntent,
    created_at: &str,
    expires_at: &str,
    idempotency_key: &str,
    seal_key: &[u8],
) -> (r: Result<ProfileAcquisitionOutcome, String>)
    ensures
        match r {
            Ok(o) => terminal_recovery_spec(*state, intent@, created_at@, expires_at@, idempotency_key@, seal_key@)
                == Ok::<OutcomeView, Seq<char>>(o@) && (o.recovery is Some ==> o.recovery->0.integrity_seal@.len() == 71),
            Err(e) => terminal_recovery_spec(*state, intent@, created_at@, expires_at@, idempotency_key@, seal_key@)
                == Err::<OutcomeView, Seq<char>>(e@),
        },
{
    if seal_key.len() < 32 || is_blank(idempotency_key) {
        return Err(owned("profile_recovery_plan_invalid"));
    }
    let profile = match get_keyed(&state.profiles, intent.profile_id.as_str()) {
        Some(p) => p,
        None => return Err(owned("profile_recovery_profile_missing")),
    };
    let digest = match recovery_profile_identity_digest(profile) {
        Ok(d) => d,
        Err(e) => return Err(e),
    };
    let owner = match get_keyed(&state.runtime_owner_registry.owners, digest.as_str()) {
        Some(o) => o,
        None => return Err(owned("profile_recovery_owner_missing")),
    };
    let lifecycle = match get_keyed(&state.runtime_owner_registry.lifecycle_records, owner.browser_id.as_str()) {
        Some(l) => l,
        None => return Err(owned("profile_recovery_lifecycle_missing")),
    };
    let active = active_profile_lease_session_ids(state, intent.profile_id.as_str());
    let exact = str_equal(lifecycle.profile_identity_digest.as_str(), digest.as_str())
        && str_equal(lifecycle.logical_browser_id.as_str(), owner.browser_id.as_str())
        && lifecycle.owner_generation == owner.owner_generation
        && lifecycle.lifecycle_state == RuntimeLaneLifecycleState::Terminal
        && str_equal(lifecycle.cleanup_obligation_state.as_str(), "satisfied")
        && contains_text(&lifecycle.terminal_evidence, "exact_process_exited")
        && contains_text(&lifecycle.terminal_evidence, "profile_lock_released")
        && active.len() == 0
        && !browser_has_pid(state, owner.browser_id.as_str())
        && !owner.pending_transfer;
    if !exact {
        return Ok(blocked_outcome(owner.browser_id.as_str(), lifecycle));
    }
    Ok(terminal_plan_outcome(state, intent, digest.as_str(), owner, lifecycle, created_at, expires_at, idempotency_key, seal_key))
}

/// The recovery-available outcome that supersedes an exactly terminal owner.
pub open spec fn terminal_plan_spec(
    state: ServiceState,
    intent: IntentView,
    digest: Seq<char>,
    owner: ProfileOwner,
    lifecycle: RuntimeLifecycleRecord,
    created_at: Seq<char>,
    expires_at: Seq<char>,
    idempotency_key: Seq<char>,
    seal_key: Seq<u8>,
) -> OutcomeView {
    let revision = state.runtime_owner_registry.revision;
    let identities = identities_spec(state, intent, digest, owner);
    recovery_available_spec(
        plan_spec(
            revision,
            identities,
            terminal_blocker_spec(),
            evidence_about(strs(lifecycle.terminal_evidence@), owner.browser_id@),
            terminal_action_spec(revision, identities),
            intent,
            created_at,
            expires_at,
            idempotency_key,
            seal_key,
        ),
        "apply_recovery"@,
    )
}

/// Seals the plan that supersedes an exactly terminal owner.
#[verifier::spinoff_prover]
fn terminal_plan_outcome(
    state: &ServiceState,
    intent: ProfileAcquisitionIntent,
    digest: &str,
    owner: &ProfileOwner,
    lifecycle: &RuntimeLifecycleRecord,
    created_at: &str,
    expires_at: &str,
    idempotency_key: &str,
    seal_key: &[u8],
) -> (r: ProfileAcquisitionOutcome)
    requires
        seal_key@.len() >= 32,
    ensures
        r@ == terminal_plan_spec(
            *state,
            intent@,
            digest@,
            *owner,
            *lifecycle,
            created_at@,
            expires_at@,
            idempotency_key@,
            seal_key@,
        ),
        r.recovery is Some ==> r.recovery->0.integrity_seal@.len() == 71,
{
    let revision = state.runtime_owner_registry.revision;
    let identities = identities_for(state, &intent, digest, owner);
    let action = mitigation_action(
        "supersede_terminal_owner",
        MitigationActionType::SupersedeTerminalOwner,
        revision,
        &identities,
        &[
            "service_state_revision_matches",
            "profile_identity_digest_matches",
            "owner_generation_matches",
            "terminal_cleanup_satisfied",
            "exact_process_absence_proven",
            "foreign_lease_absent",
        ],
        &[
            "replacement_generation_is_unique",
            "durable_browser_history_preserved",
            "original_acquisition_retried",
        ],
        &["retain_exact_cleanup_obligation_on_uncertain_effect"],
    );
    assert(action@.preconditions =~= terminal_action_spec(revision, identities@).preconditions);
    assert(action@.expected_postconditions =~= terminal_action_spec(revision, identities@).expected_postconditions);
    assert(action@.compensation =~= terminal_action_spec(revision, identities@).compensation);
    let blocker = DominantBlocker {
        code: owned("terminal_owner_cleanup_satisfied"),
        recoverable: true,
        detail: owned("The exact retained owner is terminal, cleanup is satisfied, and process absence is proven."),
    };
    let evidence = evidence_for(&lifecycle.terminal_evidence, owner.browser_id.as_str());
    assert(evidence_views(evidence@) == evidence_about(strs(lifecycle.terminal_evidence@), owner.browser_id@));
    assert(blocker@ == terminal_blocker_spec());
    assert(action@ == terminal_action_spec(revision, identities@));
    sealed_outcome(
        revision,
        identities,
        blocker,
        evidence,
        action,
        intent,
        created_at,
        expires_at,
        idempotency_key,
        seal_key,
        "apply_recovery",
    )
}
/// The blocker code of a live owner whose principal binding needs review.
pub open spec fn reconcile_code(binding_present: bool) -> Seq<char> {
    if binding_present {
        "existing_session_profile_identity_inconsistent"@
    } else {
        "existing_session_profile_identity_unproven"@
    }
}

/// The blocker of a live owner whose principal binding needs review.
pub open spec fn reconcile_blocker_spec(binding_present: bool) -> BlockerView {
    BlockerView {
        code: reconcile_code(binding_present),
        recoverable: true,
        detail: "The process-backed browser exists, but its exact authenticated principal and profile binding requires reviewed reconciliation."@,
    }
}

/// What planning a reviewed principal reconciliation yields.
pub open spec fn principal_reconciliation_spec(
    state: ServiceState,
    intent: IntentView,
    digest: Seq<char>,
    owner: ProfileOwner,
    binding_present: bool,
    created_at: Seq<char>,
    expires_at: Seq<char>,
    idempotency_key: Seq<char>,
    seal_key: Seq<u8>,
) -> Result<OutcomeView, Seq<char>> {
    if plan_inputs_invalid(idempotency_key, seal_key) {
        Err("profile_recovery_plan_invalid"@)
    } else {
        let revision = state.runtime_owner_registry.revision;
        let identities = identities_spec(state, intent, digest, owner);
        Ok(recovery_available_spec(
            plan_spec(
                revision,
                identities,
                reconcile_blocker_spec(binding_present),
                seq![
                    ev("current_process_proven"@, owner.browser_id@),
                    ev(reconcile_code(binding_present), owner.browser_id@),
                ],
                reconcile_action_spec(revision, identities),
                intent,
                created_at,
                expires_at,
                idempotency_key,
                seal_key,
            ),
            "review_recovery_plan"@,
        ))
    }
}

/// Plans a reviewed reconciliation of the exact principal with a live,
/// process-backed owner, without any effect.
#[verifier::spinoff_prover]
pub fn plan_principal_reconciliation(
    state: &ServiceState,
    intent: ProfileAcquisitionIntent,
    profile_identity_digest: String,
    owner: &ProfileOwner,
    binding_present: bool,
    created_at: &str,
    expires_at: &str,
    idempotency_key: &str,
    seal_key: &[u8],
) -> (r: Result<ProfileAcquisitionOutcome, String>)
    ensures
        match r {
            Ok(o) => principal_reconciliation_spec(
                *state,
                intent@,
                profile_identity_digest@,
                *owner,
                binding_present,
                created_at@,
                expires_at@,
                idempotency_key@,
                seal_key@,
            ) == Ok::<OutcomeView, Seq<char>>(o@),
            Err(e) => principal_reconciliation_spec(
                *state,
                intent@,
                profile_identity_digest@,
                *owner,
                binding_present,
                created_at@,
                expires_at@,
                idempotency_key@,
                seal_key@,
            ) == Err::<OutcomeView, Seq<char>>(e@),
        },
{
    if seal_key.len() < 32 || is_blank(idempotency_key) {
        return Err(owned("profile_recovery_plan_invalid"));
    }
    let code = if binding_present {
        "existing_session_profile_identity_inconsistent"
    } else {
        "existing_session_profile_identity_unproven"
    };
    let revision = state.runtime_owner_registry.revision;
    let identities = identities_for(state, &intent, profile_identity_digest.as_str(), owner);
    let blocker = DominantBlocker {
        code: owned(code),
        recoverable: true,
        detail: owned(
            "The process-backed browser exists, but its exact authenticated principal and profile binding requires reviewed reconciliation.",
        ),
    };
    let mut evidence_items: Vec<RecoveryEvidence> = Vec::new();
    evidence_items.push(evidence("current_process_proven", owner.browser_id.as_str()));
    evidence_items.push(evidence(code, owner.browser_id.as_str()));
    let action = mitigation_action(
        "reconcile_exact_principal_profile_identity",
        MitigationActionType::ReconcileExactPrincipalProfileIdentity,
        revision,
        &identities,
        &[
            "profile_capability_current",
            "profile_identity_digest_matches",
            "owner_generation_matches",
            "current_process_identity_matches",
            "foreign_principal_absent",
        ],
        &[
            "principal_profile_binding_current",
            "existing_browser_preserved",
            "duplicate_launch_absent",
        ],
        &["retain_existing_binding_on_compare_and_swap_failure"],
    );
    assert(action@.preconditions =~= reconcile_action_spec(revision, identities@).preconditions);
    assert(action@.expected_postconditions =~= reconcile_action_spec(revision, identities@).expected_postconditions);
    assert(action@.compensation =~= reconcile_action_spec(revision, identities@).compensation);
    assert(action@ == reconcile_action_spec(revision, identities@));
    assert(blocker@ == reconcile_blocker_spec(binding_present));
    assert(evidence_views(evidence_items@) =~= seq![
        ev("current_process_proven"@, owner.browser_id@),
        ev(reconcile_code(binding_present), owner.browser_id@),
    ]);
    Ok(sealed_outcome(
        revision,
        identities,
        blocker,
        evidence_items,
        action,
        intent,
        created_at,
        expires_at,
        idempotency_key,
        seal_key,
        "review_recovery_plan",
    ))
}

/// An outcome that reuses a current, process-backed lane.
pub open spec fn acquired_spec(
    browser_id: Seq<char>,
    daemon_session_route: Seq<char>,
    automatic: bool,
    evidence: Seq<EvidenceView>,
) -> OutcomeView {
    OutcomeView {
        schema_version: PROFILE_ACQUISITION_OUTCOME_SCHEMA_V1@,
        state: ProfileAcquisitionState::Acquired,
        dominant_blocker: None,
        automatic,
        browser_id: Some(browser_id),
        daemon_session_route: Some(daemon_session_route),
        recovery: None,
        next_action: None,
        evidence,
    }
}

/// What classifying one acquisition intent yields.
pub open spec fn acquisition_spec(
    state: ServiceState,
    intent: IntentView,
    created_at: Seq<char>,
    expires_at: Seq<char>,
    idempotency_key: Seq<char>,
    seal_key: Seq<u8>,
) -> Result<OutcomeView, Seq<char>> {
    match lookup(state.profiles@, intent.profile_id) {
        None => Err("profile_recovery_profile_missing"@),
        Some(profile) => match recovery_digest_spec(profile) {
            Err(e) => Err(e),
            Ok(digest) => match lookup(state.runtime_owner_registry.owners@, digest) {
                None => Ok(blocked_with_recourse_spec(
                    "runtime_owner_missing"@,
                    true,
                    "No lifecycle owner is registered for the exact profile identity."@,
                    "register_exact_profile_owner"@,
                    Seq::empty(),
                )),
                Some(owner) => match lookup(state.runtime_owner_registry.lifecycle_records@, owner.browser_id@) {
                    None => Ok(blocked_with_recourse_spec(
                        "runtime_owner_lifecycle_missing"@,
                        true,
                        "The exact lifecycle owner has no matching lifecycle record."@,
                        "inspect_or_reconcile_exact_profile_graph"@,
                        seq![ev("lifecycle_record_missing"@, owner.browser_id@)],
                    )),
                    Some(lifecycle) => {
                        let binding = lookup(state.runtime_owner_registry.principal_bindings@, digest);
                        if process_proven(state, owner.browser_id@) && lifecycle.lifecycle_state
                            == RuntimeLaneLifecycleState::Ready {
                            match binding {
                                Some(b) => if b.principal_id@ != intent.principal_id {
                                    Ok(blocked_with_recourse_spec(
                                        "live_foreign_principal_authority"@,
                                        false,
                                        "A different authenticated principal has current process-backed authority for this profile."@,
                                        "wait_or_coordinate_with_current_principal"@,
                                        seq![
                                            ev("current_process_proven"@, owner.browser_id@),
                                            ev("foreign_principal_binding_current"@, b.principal_id@),
                                        ],
                                    ))
                                } else if b.profile_id@ == intent.profile_id && b.owner_generation
                                    == owner.owner_generation && lifecycle.profile_identity_digest@ == digest
                                    && lifecycle.owner_generation == owner.owner_generation {
                                    Ok(acquired_spec(
                                        owner.browser_id@,
                                        owner.daemon_session_route@,
                                        false,
                                        seq![
                                            ev("current_process_proven"@, owner.browser_id@),
                                            ev("principal_binding_current"@, b.principal_id@),
                                        ],
                                    ))
                                } else {
                                    principal_reconciliation_spec(
                                        state,
                                        intent,
                                        digest,
                                        owner,
                                        true,
                                        created_at,
                                        expires_at,
                                        idempotency_key,
                                        seal_key,
                                    )
                                },
                                None => principal_reconciliation_spec(
                                    state,
                                    intent,
                                    digest,
                                    owner,
                                    false,
                                    created_at,
                                    expires_at,
                                    idempotency_key,
                                    seal_key,
                                ),
                            }
                        } else {
                            terminal_recovery_spec(state, intent, created_at, expires_at, idempotency_key, seal_key)
                        }
                    },
                },
            },
        },
    }
}

/// Classifies one authenticated profile acquisition intent without browser,
/// route or repository effects: reuse of the current process-backed lane of
/// the same principal, a hard block by a foreign principal, a reviewed
/// reconciliation, or terminal-owner recovery.
#[verifier::rlimit(40)]
#[verifier::spinoff_prover]
pub fn plan_profile_acquisition(
    state: &ServiceState,
    intent: ProfileAcquisitionIntent,
    created_at: &str,
    expires_at: &str,
    idempotency_key: &str,
    seal_key: &[u8],
) -> (r: Result<ProfileAcquisitionOutcome, String>)
    ensures
        match r {
            Ok(o) => acquisition_spec(*state, intent@, created_at@, expires_at@, idempotency_key@, seal_key@)
                == Ok::<OutcomeView, Seq<char>>(o@),
            Err(e) => acquisition_spec(*state, intent@, created_at@, expires_at@, idempotency_key@, seal_key@)
                == Err::<OutcomeView, Seq<char>>(e@),
        },
{
    let profile = match get_keyed(&state.profiles, intent.profile_id.as_str()) {
        Some(p) => p,
        None => return Err(owned("profile_recovery_profile_missing")),
    };
    let digest = match recovery_profile_identity_digest(profile) {
        Ok(d) => d,
        Err(e) => return Err(e),
    };
    let owner = match get_keyed(&state.runtime_owner_registry.owners, digest.as_str()) {
        Some(o) => o,
        None => {
            let none: Vec<RecoveryEvidence> = Vec::new();
            assert(evidence_views(none@) =~= Seq::<EvidenceView>::empty());
            let r = blocked_outcome_with_recourse(
                "runtime_owner_missing",
                true,
                "No lifecycle owner is registered for the exact profile identity.",
                "register_exact_profile_owner",
                none,
            );
            return Ok(r);
        },
    };
    let lifecycle = match get_keyed(&state.runtime_owner_registry.lifecycle_records, owner.browser_id.as_str()) {
        Some(l) => l,
        None => {
            let mut items: Vec<RecoveryEvidence> = Vec::new();
            items.push(evidence("lifecycle_record_missing", owner.browser_id.as_str()));
            assert(evidence_views(items@) =~= seq![ev("lifecycle_record_missing"@, owner.browser_id@)]);
            return Ok(blocked_outcome_with_recourse(
                "runtime_owner_lifecycle_missing",
                true,
                "The exact lifecycle owner has no matching lifecycle record.",
                "inspect_or_reconcile_exact_profile_graph",
                items,
            ));
        },
    };
    let binding = get_keyed(&state.runtime_owner_registry.principal_bindings, digest.as_str());
    if browser_has_pid(state, owner.browser_id.as_str()) && lifecycle.lifecycle_state
        == RuntimeLaneLifecycleState::Ready {
        match binding {
            Some(b) => {
                if !str_equal(b.principal_id.as_str(), intent.principal_id.as_str()) {
                    let foreign: [&str; 1] = ["live_foreign_principal_authority"];
                    proof {
                        assert(texts(foreign@)[0] == dominance_order()[0]);
                        assert(texts(foreign@).contains(dominance_order()[0]));
                    }
                    let code = match dominant_profile_blocker(&foreign) {
                        Some(c) => c,
                        None => owned("live_foreign_principal_authority"),
                    };
                    let mut items: Vec<RecoveryEvidence> = Vec::new();
                    items.push(evidence("current_process_proven", owner.browser_id.as_str()));
                    items.push(evidence("foreign_principal_binding_current", b.principal_id.as_str()));
                    assert(evidence_views(items@) =~= seq![
                        ev("current_process_proven"@, owner.browser_id@),
                        ev("foreign_principal_binding_current"@, b.principal_id@),
                    ]);
                    return Ok(blocked_outcome_with_recourse(
                        code.as_str(),
                        false,
                        "A different authenticated principal has current process-backed authority for this profile.",
                        "wait_or_coordinate_with_current_principal",
                        items,
                    ));
                }
                if str_equal(b.profile_id.as_str(), intent.profile_id.as_str()) && b.owner_generation
                    == owner.owner_generation && str_equal(
                    lifecycle.profile_identity_digest.as_str(),
                    digest.as_str(),
                ) && lifecycle.owner_generation == owner.owner_generation {
                    let mut items: Vec<RecoveryEvidence> = Vec::new();
                    items.push(evidence("current_process_proven", owner.browser_id.as_str()));
                    items.push(evidence("principal_binding_current", b.principal_id.as_str()));
                    assert(evidence_views(items@) =~= seq![
                        ev("current_process_proven"@, owner.browser_id@),
                        ev("principal_binding_current"@, b.principal_id@),
                    ]);
                    return Ok(ProfileAcquisitionOutcome {
                        schema_version: owned(PROFILE_ACQUISITION_OUTCOME_SCHEMA_V1),
                        state: ProfileAcquisitionState::Acquired,
                        dominant_blocker: None,
                        automatic: false,
                        browser_id: Some(owner.browser_id.clone()),
                        daemon_session_route: Some(owner.daemon_session_route.clone()),
                        recovery: None,
                        next_action: None,
                        evidence: items,
                    });
                }
                return plan_principal_reconciliation(
                    state,
                    intent,
                    digest,
                    owner,
                    true,
                    created_at,
                    expires_at,
                    idempotency_key,
                    seal_key,
                );
            },
            None => {
                return plan_principal_reconciliation(
                    state,
                    intent,
                    digest,
                    owner,
                    false,
                    created_at,
                    expires_at,
                    idempotency_key,
                    seal_key,
                );
            },
        }
    }
    plan_terminal_owner_recovery(state, intent, created_at, expires_at, idempotency_key, seal_key)
}

/// Whether a plan still carries its own identifier and seal under a key.
pub open spec fn integrity_spec(p: PlanView, seal_key: Seq<u8>) -> Result<(), Seq<char>> {
    if p.actions.len() != 1 || seal_key.len() < 32 {
        Err("profile_recovery_plan_invalid"@)
    } else if p.schema_version != PROFILE_RECOVERY_PLAN_SCHEMA_V1@ || p.plan_id != digest_text_spec(
        plan_id_json(
            p.recovery_id,
            p.service_state_revision,
            p.identities,
            p.dominant_blocker,
            p.actions[0],
            p.original_intent,
            p.created_at,
            p.expires_at,
        ),
    ) || p.integrity_seal != seal_spec(p, seal_key) {
        Err("profile_recovery_plan_integrity_mismatch"@)
    } else {
        Ok(())
    }
}

/// Checks that a plan has exactly one action, that its identifier digests
/// its contents, and that its seal covers it under the key.
pub fn verify_plan_integrity(plan: &RecoveryPlan, seal_key: &[u8]) -> (r: Result<(), String>)
    ensures
        match r {
            Ok(()) => integrity_spec(plan@, seal_key@) == Ok::<(), Seq<char>>(()),
            Err(e) => integrity_spec(plan@, seal_key@) == Err::<(), Seq<char>>(e@),
        },
{
    if plan.actions.len() != 1 {
        return Err(owned("profile_recovery_plan_invalid"));
    }
    let mut text = String::new();
    text.append("[\"agent-browser.profile-recovery-plan.v1\",");
    push_quoted(&mut text, plan.recovery_id.as_str());
    text.append(",");
    push_decimal(&mut text, plan.service_state_revision);
    text.append(",");
    push_identities_json(&mut text, &plan.identities);
    text.append(",");
    push_blocker_json(&mut text, &plan.dominant_blocker);
    text.append(",");
    push_action_json(&mut text, &plan.actions[0]);
    text.append(",");
    push_intent_json(&mut text, &plan.original_intent);
    text.append(",");
    push_quoted(&mut text, plan.created_at.as_str());
    text.append(",");
    push_quoted(&mut text, plan.expires_at.as_str());
    text.append("]");
    assert(text@ =~= plan_id_json(
        plan@.recovery_id,
        plan@.service_state_revision,
        plan@.identities,
        plan@.dominant_blocker,
        plan@.actions[0],
        plan@.original_intent,
        plan@.created_at,
        plan@.expires_at,
    ));
    let expected_plan_id = digest_text(text.as_str());
    let expected_seal = match seal_recovery_plan(plan, seal_key) {
        Ok(s) => s,
        Err(e) => return Err(e),
    };
    if !str_equal(plan.schema_version.as_str(), PROFILE_RECOVERY_PLAN_SCHEMA_V1) || !str_equal(
        plan.plan_id.as_str(),
        expected_plan_id.as_str(),
    ) || !str_equal(plan.integrity_seal.as_str(), expected_seal.as_str()) {
        return Err(owned("profile_recovery_plan_integrity_mismatch"));
    }
    Ok(())
}

/// A plan verifies under the key that sealed it.
pub proof fn law_sealed_plan_verifies(
    revision: u64,
    identities: IdentitiesView,
    blocker: BlockerView,
    evidence: Seq<EvidenceView>,
    action: ActionView,
    intent: IntentView,
    created_at: Seq<char>,
    expires_at: Seq<char>,
    idempotency_key: Seq<char>,
    seal_key: Seq<u8>,
)
    requires
        seal_key.len() >= 32,
    ensures
        integrity_spec(
            plan_spec(
                revision,
                identities,
                blocker,
                evidence,
                action,
                intent,
                created_at,
                expires_at,
                idempotency_key,
                seal_key,
            ),
            seal_key,
        ) == Ok::<(), Seq<char>>(()),
{
    reveal(plan_spec);
    let p = plan_spec(
        revision,
        identities,
        blocker,
        evidence,
        action,
        intent,
        created_at,
        expires_at,
        idempotency_key,
        seal_key,
    );
    let unsealed = PlanView { integrity_seal: Seq::empty(), ..p };
    assert(plan_sorted_json(p) == plan_sorted_json(unsealed));
    assert(seal_bytes(p, seal_key) == seal_bytes(unsealed, seal_key));
    assert(p.actions[0] == action);
}

/// A plan whose seal was altered no longer verifies.
pub proof fn law_altered_seal_fails(p: PlanView, seal_key: Seq<u8>, seal: Seq<char>)
    requires
        p.actions.len() == 1,
        seal_key.len() >= 32,
        seal != seal_spec(p, seal_key),
    ensures
        integrity_spec(PlanView { integrity_seal: seal, ..p }, seal_key) is Err,
{
    let q = PlanView { integrity_seal: seal, ..p };
    assert(plan_sorted_json(q) == plan_sorted_json(p));
    assert(seal_bytes(q, seal_key) == seal_bytes(p, seal_key));
}

/// Whether a plan's recorded identities still describe an exactly terminal,
/// unoccupied owner in the current state.
pub open spec fn plan_still_exact(state: ServiceState, p: PlanView, profile_digest: Seq<char>, owner: ProfileOwner, lifecycle: RuntimeLifecycleRecord) -> bool {
    let d = p.identities;
    &&& profile_digest == d.profile_identity_digest
    &&& p.original_intent.principal_id == d.principal_id
    &&& p.original_intent.profile_id == d.profile_id
    &&& owner.owner_id@ == d.lifecycle_owner_id
    &&& owner.owner_generation == d.lifecycle_owner_generation
    &&& owner.browser_id@ == d.durable_browser_id
    &&& owner.daemon_session_route@ == d.daemon_session_route
    &&& owner.process_instance_digest@ == d.process_instance_digest
    &&& !owner.pending_transfer
    &&& lifecycle.profile_identity_digest@ == d.profile_identity_digest
    &&& lifecycle.owner_generation == d.lifecycle_owner_generation
    &&& lifecycle.lifecycle_state == RuntimeLaneLifecycleState::Terminal
    &&& lifecycle.cleanup_obligation_state@ == "satisfied"@
    &&& strs(lifecycle.terminal_evidence@).contains("exact_process_exited"@)
    &&& strs(lifecycle.terminal_evidence@).contains("profile_lock_released"@)
    &&& active_lease_session_ids(state.sessions@, d.profile_id).len() == 0
    &&& !process_proven(state, d.durable_browser_id)
}

/// Whether a plan may still be applied at `now` to the current state.
pub open spec fn preconditions_spec(state: ServiceState, p: PlanView, now: Seq<char>) -> Result<(), Seq<char>> {
    let stale = Err("profile_recovery_plan_stale"@);
    match rfc3339_instant(now) {
        None => Err("profile_recovery_now_invalid"@),
        Some(t) => match rfc3339_instant(p.expires_at) {
            None => Err("profile_recovery_expiry_invalid"@),
            Some(e) => if instant_at_or_after(t, e) {
                Err("profile_recovery_plan_expired"@)
            } else if state.runtime_owner_registry.revision != p.service_state_revision {
                stale
            } else {
                match lookup(state.profiles@, p.identities.profile_id) {
                    None => stale,
                    Some(profile) => match recovery_digest_spec(profile) {
                        Err(_) => stale,
                        Ok(digest) => match lookup(state.runtime_owner_registry.owners@, p.identities.profile_identity_digest) {
                            None => stale,
                            Some(owner) => match lookup(
                                state.runtime_owner_registry.lifecycle_records@,
                                p.identities.durable_browser_id,
                            ) {
                                None => stale,
                                Some(lifecycle) => if plan_still_exact(state, p, digest, owner, lifecycle) {
                                    Ok(())
                                } else {
                                    stale
                                },
                            },
                        },
                    },
                }
            },
        },
    }
}

/// Checks that a plan is unexpired at `now` and that every identity it
/// recorded still describes an exactly terminal, unoccupied owner at the
/// same registry revision.
#[verifier::rlimit(40)]
pub fn validate_plan_preconditions(state: &ServiceState, plan: &RecoveryPlan, now: &str) -> (r: Result<(), String>)
    ensures
        match r {
            Ok(()) => preconditions_spec(*state, plan@, now@) == Ok::<(), Seq<char>>(()),
            Err(e) => preconditions_spec(*state, plan@, now@) == Err::<(), Seq<char>>(e@),
        },
{
    let t = match parse_rfc3339(now) {
        Some(t) => t,
        None => return Err(owned("profile_recovery_now_invalid")),
    };
    let e = match parse_rfc3339(plan.expires_at.as_str()) {
        Some(e) => e,
        None => return Err(owned("profile_recovery_expiry_invalid")),
    };
    if t.0 > e.0 || (t.0 == e.0 && t.1 >= e.1) {
        return Err(owned("profile_recovery_plan_expired"));
    }
    if state.runtime_owner_registry.revision != plan.service_state_revision {
        return Err(owned("profile_recovery_plan_stale"));
    }
    let d = &plan.identities;
    let profile = match get_keyed(&state.profiles, d.profile_id.as_str()) {
        Some(p) => p,
        None => return Err(owned("profile_recovery_plan_stale")),
    };
    let digest = match recovery_profile_identity_digest(profile) {
        Ok(x) => x,
        Err(_) => return Err(owned("profile_recovery_plan_stale")),
    };
    let owner = match get_keyed(&state.runtime_owner_registry.owners, d.profile_identity_digest.as_str()) {
        Some(o) => o,
        None => return Err(owned("profile_recovery_plan_stale")),
    };
    let lifecycle = match get_keyed(&state.runtime_owner_registry.lifecycle_records, d.durable_browser_id.as_str()) {
        Some(l) => l,
        None => return Err(owned("profile_recovery_plan_stale")),
    };
    let active = active_profile_lease_session_ids(state, d.profile_id.as_str());
    let exact = str_equal(digest.as_str(), d.profile_identity_digest.as_str())
        && str_equal(plan.original_intent.principal_id.as_str(), d.principal_id.as_str())
        && str_equal(plan.original_intent.profile_id.as_str(), d.profile_id.as_str())
        && str_equal(owner.owner_id.as_str(), d.lifecycle_owner_id.as_str())
        && owner.owner_generation == d.lifecycle_owner_generation
        && str_equal(owner.browser_id.as_str(), d.durable_browser_id.as_str())
        && str_equal(owner.daemon_session_route.as_str(), d.daemon_session_route.as_str())
        && str_equal(owner.process_instance_digest.as_str(), d.process_instance_digest.as_str())
        && !owner.pending_transfer
        && str_equal(lifecycle.profile_identity_digest.as_str(), d.profile_identity_digest.as_str())
        && lifecycle.owner_generation == d.lifecycle_owner_generation
        && lifecycle.lifecycle_state == RuntimeLaneLifecycleState::Terminal
        && str_equal(lifecycle.cleanup_obligation_state.as_str(), "satisfied")
        && contains_text(&lifecycle.terminal_evidence, "exact_process_exited")
        && contains_text(&lifecycle.terminal_evidence, "profile_lock_released")
        && active.len() == 0
        && !browser_has_pid(state, d.durable_browser_id.as_str());
    if !exact {
        return Err(owned("profile_recovery_plan_stale"));
    }
    Ok(())
}

/// The generation of the owner of a profile's identity, when both resolve.
pub open spec fn claim_owner_generation(state: ServiceState, profile_id: Seq<char>) -> Option<u64> {
    match lookup(state.profiles@, profile_id) {
        Some(p) => match recovery_digest_spec(p) {
            Ok(d) => match lookup(state.runtime_owner_registry.owners@, d) {
                Some(o) => Some(o.owner_generation),
                None => None,
            },
            Err(_) => None,
        },
        None => None,
    }
}

/// The generation of the owner of a profile's identity, when both resolve.
fn owner_generation_for(state: &ServiceState, profile_id: &str) -> (r: Option<u64>)
    ensures
        r == claim_owner_generation(*state, profile_id@),
{
    match get_keyed(&state.profiles, profile_id) {
        Some(p) => match recovery_profile_identity_digest(p) {
            Ok(d) => match get_keyed(&state.runtime_owner_registry.owners, d.as_str()) {
                Some(o) => Some(o.owner_generation),
                None => None,
            },
            Err(_) => None,
        },
        None => None,
    }
}

/// Whether an acquisition preflight admits a new claim: the lane is already
/// acquired, or no owner is registered yet.
pub open spec fn preflight_admits(o: OutcomeView) -> bool {
    o.state == ProfileAcquisitionState::Acquired || (o.dominant_blocker matches Some(b) && b.code
        == "runtime_owner_missing"@)
}

/// What checking the principal of a claim yields: the failure code of the
/// authentication, or a principal other than the intent's.
pub open spec fn claim_principal_spec(
    authentication: Result<AuthenticatedServicePrincipal, String>,
    intent: IntentView,
) -> Result<(), Seq<char>> {
    match authentication {
        Err(code) => Err("profile_acquisition_principal_"@ + code@),
        Ok(a) => if a.principal_id@ != intent.principal_id {
            Err("profile_acquisition_principal_mismatch"@)
        } else {
            Ok(())
        },
    }
}

/// What an atomic profile claim for an intent does next.
pub enum ProfileClaimStep {
    /// Replay the claim already recorded for the same request.
    Replay,
    /// Acquire a new ephemeral claim that carries the owner generation.
    Acquire { owner_generation: Option<u64> },
}

/// What deciding an atomic profile claim yields.
pub open spec fn claim_spec(
    state: ServiceState,
    authentication: Result<AuthenticatedServicePrincipal, String>,
    intent: IntentView,
    replayed: bool,
    created_at: Seq<char>,
    recovery_expires_at: Seq<char>,
    idempotency_key: Seq<char>,
    seal_key: Seq<u8>,
) -> Result<ProfileClaimStep, Seq<char>> {
    match claim_principal_spec(authentication, intent) {
        Err(e) => Err(e),
        Ok(()) => if replayed {
            Ok(ProfileClaimStep::Replay)
        } else {
            match acquisition_spec(state, intent, created_at, recovery_expires_at, idempotency_key, seal_key) {
                Err(e) => Err(e),
                Ok(o) => if preflight_admits(o) {
                    Ok(ProfileClaimStep::Acquire {
                        owner_generation: claim_owner_generation(state, intent.profile_id),
                    })
                } else {
                    Err("profile_acquisition_preflight_"@ + match o.dominant_blocker {
                        Some(b) => b.code,
                        None => "not_admitted"@,
                    })
                },
            }
        },
    }
}

/// Checks the authenticated principal of a claim request and returns the
/// owner generation the request carries, for looking up a recorded claim.
pub fn replay_profile_claim_for_intent(
    state: &ServiceState,
    authentication: &Result<AuthenticatedServicePrincipal, String>,
    intent: &ProfileAcquisitionIntent,
) -> (r: Result<Option<u64>, String>)
    ensures
        match r {
            Ok(g) => claim_principal_spec(*authentication, intent@) == Ok::<(), Seq<char>>(())
                && g == claim_owner_generation(*state, intent@.profile_id),
            Err(e) => claim_principal_spec(*authentication, intent@) == Err::<(), Seq<char>>(e@),
        },
{
    match authentication {
        Err(code) => return Err(concat2("profile_acquisition_principal_", code.as_str())),
        Ok(a) => {
            if !str_equal(a.principal_id.as_str(), intent.principal_id.as_str()) {
                return Err(owned("profile_acquisition_principal_mismatch"));
            }
        },
    }
    Ok(owner_generation_for(state, intent.profile_id.as_str()))
}

/// Decides an atomic ephemeral profile claim for an authenticated intent. A
/// claim already recorded for the same request replays; otherwise the
/// acquisition preflight must find the lane acquired or without any owner,
/// and every other preflight refuses the claim with its dominant blocker.
#[verifier::spinoff_prover]
pub fn acquire_profile_claim_for_intent(
    state: &ServiceState,
    authentication: &Result<AuthenticatedServicePrincipal, String>,
    intent: &ProfileAcquisitionIntent,
    replayed: bool,
    created_at: &str,
    recovery_expires_at: &str,
    idempotency_key: &str,
    seal_key: &[u8],
) -> (r: Result<ProfileClaimStep, String>)
    ensures
        match r {
            Ok(step) => claim_spec(
                *state,
                *authentication,
                intent@,
                replayed,
                created_at@,
                recovery_expires_at@,
                idempotency_key@,
                seal_key@,
            ) == Ok::<ProfileClaimStep, Seq<char>>(step),
            Err(e) => claim_spec(
                *state,
                *authentication,
                intent@,
                replayed,
                created_at@,
                recovery_expires_at@,
                idempotency_key@,
                seal_key@,
            ) == Err::<ProfileClaimStep, Seq<char>>(e@),
        },
{
    let owner_generation = match replay_profile_claim_for_intent(state, authentication, intent) {
        Ok(g) => g,
        Err(e) => return Err(e),
    };
    if replayed {
        return Ok(ProfileClaimStep::Replay);
    }
    let preflight = match plan_profile_acquisition(
        state,
        clone_intent(intent),
        created_at,
        recovery_expires_at,
        idempotency_key,
        seal_key,
    ) {
        Ok(o) => o,
        Err(e) => return Err(e),
    };
    let admits = preflight.state == ProfileAcquisitionState::Acquired || match &preflight.dominant_blocker {
        Some(b) => str_equal(b.code.as_str(), "runtime_owner_missing"),
        None => false,
    };
    if !admits {
        let code = match &preflight.dominant_blocker {
            Some(b) => b.code.clone(),
            None => owned("not_admitted"),
        };
        return Err(concat2("profile_acquisition_preflight_", code.as_str()));
    }
    Ok(ProfileClaimStep::Acquire { owner_generation })
}

/// Copies an intent.
pub fn clone_intent(i: &ProfileAcquisitionIntent) -> (r: ProfileAcquisitionIntent)
    ensures
        r@ == i@,
{
    let mut ids: Vec<String> = Vec::new();
    let mut k: usize = 0;
    while k < i.target_service_ids.len()
        invariant
            k <= i.target_service_ids@.len(),
            strs(ids@) == strs(i.target_service_ids@).take(k as int),
        decreases i.target_service_ids@.len() - k,
    {
        let s = i.target_service_ids[k].clone();
        proof {
            lemma_strs_push(ids@, s);
        }
        ids.push(s);
        assert(strs(ids@) =~= strs(i.target_service_ids@).take(k + 1));
        k = k + 1;
    }
    assert(strs(i.target_service_ids@).take(i.target_service_ids@.len() as int) =~= strs(i.target_service_ids@));
    ProfileAcquisitionIntent {
        principal_id: i.principal_id.clone(),
        profile_id: i.profile_id.clone(),
        service_name: i.service_name.clone(),
        agent_name: i.agent_name.clone(),
        task_name: i.task_name.clone(),
        target_service_ids: ids,
    }
}


/// The route a profile acquisition is retried through: the exact current
/// owner's retained route, else the principal's authenticated cold route.
pub open spec fn retry_route_spec(state: ServiceState, authority: AuthenticatedServicePrincipal) -> Result<Seq<char>, Seq<char>> {
    match lookup(state.profiles@, authority.profile_id@) {
        None => Err("profile_recovery_profile_missing"@),
        Some(profile) => match recovery_digest_spec(profile) {
            Err(e) => Err(e),
            Ok(digest) => match lookup(state.runtime_owner_registry.owners@, digest) {
                Some(owner) => Ok(owner.daemon_session_route@),
                None => match cold_session_name_spec(authority.principal_id@, authority.profile_id@, profile.id@) {
                    Some(name) => Ok(name),
                    None => Err("profile_acquisition_daemon_route_unavailable"@),
                },
            },
        },
    }
}

/// The daemon route a profile acquisition is retried through.
pub fn profile_acquisition_retry_route(
    state: &ServiceState,
    authority: &AuthenticatedServicePrincipal,
) -> (r: Result<String, String>)
    ensures
        match r {
            Ok(route) => retry_route_spec(*state, *authority) == Ok::<Seq<char>, Seq<char>>(route@),
            Err(e) => retry_route_spec(*state, *authority) == Err::<Seq<char>, Seq<char>>(e@),
        },
{
    let profile = match get_keyed(&state.profiles, authority.profile_id.as_str()) {
        Some(p) => p,
        None => return Err(owned("profile_recovery_profile_missing")),
    };
    let digest = match recovery_profile_identity_digest(profile) {
        Ok(d) => d,
        Err(e) => return Err(e),
    };
    match get_keyed(&state.runtime_owner_registry.owners, digest.as_str()) {
        Some(owner) => Ok(owner.daemon_session_route.clone()),
        None => match authenticated_cold_session_name(authority, profile) {
            Some(name) => Ok(name),
            None => Err(owned("profile_acquisition_daemon_route_unavailable")),
        },
    }
}

/// The daemon route of a principal's protected profile authority.
pub open spec fn protected_route_spec(principal_id: Seq<char>, profile_id: Seq<char>) -> Seq<char> {
    "principal-profile-"@ + digest_prefix_spec(principal_id + seq!['\0'] + profile_id)
}

/// The daemon route of a principal's protected profile authority: a
/// digest of public principal and profile identity only.
pub fn protected_profile_daemon_route(principal_id: &str, profile_id: &str) -> (r: String)
    ensures
        r@ == protected_route_spec(principal_id@, profile_id@),
{
    let key = concat3(principal_id, "\0", profile_id);
    proof {
        reveal_strlit("\0");
        assert("\0"@ =~= seq!['\0']);
    }
    let suffix = digest_prefix(key.as_str());
    concat2("principal-profile-", suffix.as_str())
}

/// What a protected authority observation shows of one custody axis.
#[derive(PartialEq, Eq, Structural, Clone, Copy)]
pub enum ProtectedAuthorityObservationState {
    Absent,
    Current,
    Stale,
    Uncertain,
}

/// What acquisition may do with a profile that protected authority already records.
#[derive(PartialEq, Eq, Structural, Clone, Copy)]
pub enum ProtectedExistingOwnerDisposition {
    Adopt,
    ReconcileThenColdLaunch,
    ReconstructCurrentHolder,
    ExactCurrentConflict,
    EffectChannelCustodyUnproven,
    PhysicalOccupancyUncertain,
}

/// The disposition of an existing protected owner. Stale physical
/// occupancy is reconciled before a cold launch; uncertain occupancy is
/// never adopted; a stale holder is adopted only with current occupancy and
/// no effect channel; a current holder is reconstructed for itself and is a
/// conflict for anyone else.
pub open spec fn protected_disposition_spec(
    holder: ProtectedAuthorityObservationState,
    physical: ProtectedAuthorityObservationState,
    effect_channel: ProtectedAuthorityObservationState,
    requester_is_holder: bool,
) -> ProtectedExistingOwnerDisposition {
    if physical == ProtectedAuthorityObservationState::Stale {
        ProtectedExistingOwnerDisposition::ReconcileThenColdLaunch
    } else if physical == ProtectedAuthorityObservationState::Uncertain {
        ProtectedExistingOwnerDisposition::PhysicalOccupancyUncertain
    } else if holder == ProtectedAuthorityObservationState::Stale && physical
        == ProtectedAuthorityObservationState::Current && !requester_is_holder {
        if effect_channel == ProtectedAuthorityObservationState::Absent {
            ProtectedExistingOwnerDisposition::Adopt
        } else {
            ProtectedExistingOwnerDisposition::EffectChannelCustodyUnproven
        }
    } else if holder == ProtectedAuthorityObservationState::Current && physical
        == ProtectedAuthorityObservationState::Current {
        if requester_is_holder {
            ProtectedExistingOwnerDisposition::ReconstructCurrentHolder
        } else {
            ProtectedExistingOwnerDisposition::ExactCurrentConflict
        }
    } else {
        ProtectedExistingOwnerDisposition::PhysicalOccupancyUncertain
    }
}

/// The disposition of an existing protected owner.
pub fn protected_existing_owner_disposition(
    holder: ProtectedAuthorityObservationState,
    physical: ProtectedAuthorityObservationState,
    effect_channel: ProtectedAuthorityObservationState,
    requester_is_holder: bool,
) -> (r: ProtectedExistingOwnerDisposition)
    ensures
        r == protected_disposition_spec(holder, physical, effect_channel, requester_is_holder),
{
    match (holder, physical, effect_channel, requester_is_holder) {
        (_, ProtectedAuthorityObservationState::Stale, _, _) => ProtectedExistingOwnerDisposition::ReconcileThenColdLaunch,
        (_, ProtectedAuthorityObservationState::Uncertain, _, _) => {
            ProtectedExistingOwnerDisposition::PhysicalOccupancyUncertain
        },
        (
            ProtectedAuthorityObservationState::Stale,
            ProtectedAuthorityObservationState::Current,
            ProtectedAuthorityObservationState::Absent,
            false,
        ) => ProtectedExistingOwnerDisposition::Adopt,
        (ProtectedAuthorityObservationState::Stale, ProtectedAuthorityObservationState::Current, _, false) => {
            ProtectedExistingOwnerDisposition::EffectChannelCustodyUnproven
        },
        (ProtectedAuthorityObservationState::Current, ProtectedAuthorityObservationState::Current, _, true) => {
            ProtectedExistingOwnerDisposition::ReconstructCurrentHolder
        },
        (ProtectedAuthorityObservationState::Current, ProtectedAuthorityObservationState::Current, _, false) => {
            ProtectedExistingOwnerDisposition::ExactCurrentConflict
        },
        _ => ProtectedExistingOwnerDisposition::PhysicalOccupancyUncertain,
    }
}

/// Law: a protected owner whose physical occupancy is uncertain is never
/// adopted, whatever the holder and effect channel show.
pub proof fn law_uncertain_custody_is_never_adopted(
    holder: ProtectedAuthorityObservationState,
    effect_channel: ProtectedAuthorityObservationState,
    requester_is_holder: bool,
)
    ensures
        protected_disposition_spec(
            holder,
            ProtectedAuthorityObservationState::Uncertain,
            effect_channel,
            requester_is_holder,
        ) == ProtectedExistingOwnerDisposition::PhysicalOccupancyUncertain,
        protected_disposition_spec(
            holder,
            ProtectedAuthorityObservationState::Current,
            effect_channel,
            requester_is_holder,
        ) == ProtectedExistingOwnerDisposition::Adopt ==> holder == ProtectedAuthorityObservationState::Stale
            && effect_channel == ProtectedAuthorityObservationState::Absent && !requester_is_holder,
{
}

/// What acquisition does next about an existing protected owner.
pub enum ProtectedOwnerStep {
    /// Adopt the observed browser.
    Adopt,
    /// Reconcile the stale owner, then launch cold.
    ReconcileThenLaunch,
}

/// The step an owner disposition leads to, or the refusal it ends in.
pub open spec fn protected_owner_step_spec(
    d: ProtectedExistingOwnerDisposition,
    owner_id: Seq<char>,
    route: Seq<char>,
) -> Result<ProtectedOwnerStep, Seq<char>> {
    match d {
        ProtectedExistingOwnerDisposition::Adopt => Ok(ProtectedOwnerStep::Adopt),
        ProtectedExistingOwnerDisposition::ReconcileThenColdLaunch => Ok(ProtectedOwnerStep::ReconcileThenLaunch),
        ProtectedExistingOwnerDisposition::ReconstructCurrentHolder => Err(
            "profile_acquisition_protected_holder_reconstruction_required"@,
        ),
        ProtectedExistingOwnerDisposition::ExactCurrentConflict => Err(
            "profile_acquisition_exact_current_conflict:"@ + owner_id + ":"@ + route,
        ),
        ProtectedExistingOwnerDisposition::EffectChannelCustodyUnproven => Err(
            "profile_acquisition_effect_channel_custody_unproven"@,
        ),
        ProtectedExistingOwnerDisposition::PhysicalOccupancyUncertain => Err(
            "profile_acquisition_physical_occupancy_uncertain"@,
        ),
    }
}

/// The step an owner disposition leads to, or the refusal it ends in: only
/// adoption and reconciliation proceed; a current holder to reconstruct, an
/// exact current conflict (naming the owner and its route), unproven custody
/// and uncertain occupancy all refuse.
pub fn protected_owner_step(d: ProtectedExistingOwnerDisposition, owner_id: &str, route: &str) -> (r: Result<
    ProtectedOwnerStep,
    String,
>)
    ensures
        match r {
            Ok(s) => protected_owner_step_spec(d, owner_id@, route@) == Ok::<ProtectedOwnerStep, Seq<char>>(s),
            Err(e) => protected_owner_step_spec(d, owner_id@, route@) == Err::<ProtectedOwnerStep, Seq<char>>(e@),
        },
{
    match d {
        ProtectedExistingOwnerDisposition::Adopt => Ok(ProtectedOwnerStep::Adopt),
        ProtectedExistingOwnerDisposition::ReconcileThenColdLaunch => Ok(ProtectedOwnerStep::ReconcileThenLaunch),
        ProtectedExistingOwnerDisposition::ReconstructCurrentHolder => Err(
            owned("profile_acquisition_protected_holder_reconstruction_required"),
        ),
        ProtectedExistingOwnerDisposition::ExactCurrentConflict => {
            let head = concat3("profile_acquisition_exact_current_conflict:", owner_id, ":");
            Err(concat2(head.as_str(), route))
        },
        ProtectedExistingOwnerDisposition::EffectChannelCustodyUnproven => Err(
            owned("profile_acquisition_effect_channel_custody_unproven"),
        ),
        ProtectedExistingOwnerDisposition::PhysicalOccupancyUncertain => Err(
            owned("profile_acquisition_physical_occupancy_uncertain"),
        ),
    }
}

/// The trimmed, nonblank text of a command field.
pub open spec fn command_text(command: JsonValue, field: Seq<char>) -> Option<Seq<char>> {
    match field_str(command, field) {
        Some(s) => if trim(s).len() > 0 {
            Some(trim(s))
        } else {
            None
        },
        None => None,
    }
}

/// The trimmed, nonblank text of a command field.
pub fn optional_command_string(command: &JsonValue, field: &str) -> (r: Option<String>)
    ensures
        match r {
            Some(s) => command_text(*command, field@) == Some(s@),
            None => command_text(*command, field@) is None,
        },
{
    match command.field_str(field) {
        Some(s) => {
            let t = crate::text::trim_owned(s);
            if t.as_str().is_empty() {
                None
            } else {
                Some(t)
            }
        },
        None => None,
    }
}

/// The trimmed text of a required command field, or the recovery error that names it.
pub fn required_command_string(command: &JsonValue, field: &str) -> (r: Result<String, String>)
    ensures
        match r {
            Ok(s) => command_text(*command, field@) == Some(s@),
            Err(e) => command_text(*command, field@) is None && e@ == "profile_recovery_"@ + field@ + "_required"@,
        },
{
    match optional_command_string(command, field) {
        Some(s) => Ok(s),
        None => Err(concat3("profile_recovery_", field, "_required")),
    }
}

/// The trimmed texts of an optional string-array field: nothing when it is
/// absent; refused when it is not an array of nonblank strings.
pub open spec fn command_texts(command: JsonValue, field: Seq<char>) -> Result<Seq<Seq<char>>, Seq<char>> {
    match json_get(command, field) {
        None => Ok(Seq::empty()),
        Some(JsonValue::Array(items)) => if forall|i: int|
            0 <= i < items@.len() ==> #[trigger] nonblank_trimmed_text(items@[i]) is Some {
            Ok(items@.map_values(|v: JsonValue| nonblank_trimmed_text(v)->0))
        } else {
            Err("profile_recovery_"@ + field + "_invalid"@)
        },
        Some(_) => Err("profile_recovery_"@ + field + "_invalid"@),
    }
}

/// The trimmed text of a nonblank string value.
pub open spec fn nonblank_trimmed_text(v: JsonValue) -> Option<Seq<char>> {
    match json_str(v) {
        Some(s) => if trim(s).len() > 0 {
            Some(trim(s))
        } else {
            None
        },
        None => None,
    }
}

/// The trimmed texts of an optional string-array field.
pub fn optional_command_string_array(command: &JsonValue, field: &str) -> (r: Result<Vec<String>, String>)
    ensures
        match r {
            Ok(v) => command_texts(*command, field@) == Ok::<Seq<Seq<char>>, Seq<char>>(strs(v@)),
            Err(e) => command_texts(*command, field@) == Err::<Seq<Seq<char>>, Seq<char>>(e@),
        },
{
    let items = match command.get(field) {
        None => {
            let out: Vec<String> = Vec::new();
            assert(strs(out@) =~= Seq::<Seq<char>>::empty());
            return Ok(out);
        },
        Some(JsonValue::Array(items)) => items,
        Some(_) => return Err(concat3("profile_recovery_", field, "_invalid")),
    };
    let ghost f = |v: JsonValue| nonblank_trimmed_text(v)->0;
    let mut out: Vec<String> = Vec::new();
    let mut i: usize = 0;
    while i < items.len()
        invariant
            i <= items@.len(),
            json_get(*command, field@) == Some(JsonValue::Array(*items)),
            f == (|v: JsonValue| nonblank_trimmed_text(v)->0),
            forall|j: int| 0 <= j < i ==> #[trigger] nonblank_trimmed_text(items@[j]) is Some,
            strs(out@) == items@.take(i as int).map_values(f),
        decreases items@.len() - i,
    {
        let t = match items[i].as_str() {
            Some(s) => crate::text::trim_owned(s),
            None => {
                assert(nonblank_trimmed_text(items@[i as int]) is None);
                return Err(concat3("profile_recovery_", field, "_invalid"));
            },
        };
        if t.as_str().is_empty() {
            assert(nonblank_trimmed_text(items@[i as int]) is None);
            return Err(concat3("profile_recovery_", field, "_invalid"));
        }
        let ghost before = out@;
        out.push(t);
        assert(strs(out@) =~= strs(before).push(f(items@[i as int])));
        assert(items@.take(i + 1).map_values(f) =~= items@.take(i as int).map_values(f).push(f(items@[i as int])));
        i = i + 1;
    }
    assert(items@.take(items@.len() as int) =~= items@);
    Ok(out)
}

/// The intent an acquisition command states for a principal: its service,
/// agent and task labels (empty when absent) and its target services.
pub fn acquisition_intent_from_command(command: &JsonValue, principal_id: &str, profile_id: &str) -> (r: Result<
    ProfileAcquisitionIntent,
    String,
>)
    ensures
        match r {
            Ok(i) => {
                &&& i.principal_id@ == principal_id@
                &&& i.profile_id@ == profile_id@
                &&& i.service_name@ == unwrap_text(command_text(*command, "serviceName"@))
                &&& i.agent_name@ == unwrap_text(command_text(*command, "agentName"@))
                &&& i.task_name@ == unwrap_text(command_text(*command, "taskName"@))
                &&& command_texts(*command, "targetServiceIds"@) == Ok::<Seq<Seq<char>>, Seq<char>>(
                    strs(i.target_service_ids@),
                )
            },
            Err(e) => command_texts(*command, "targetServiceIds"@) == Err::<Seq<Seq<char>>, Seq<char>>(e@),
        },
{
    let service_name = match optional_command_string(command, "serviceName") {
        Some(s) => s,
        None => String::new(),
    };
    let agent_name = match optional_command_string(command, "agentName") {
        Some(s) => s,
        None => String::new(),
    };
    let task_name = match optional_command_string(command, "taskName") {
        Some(s) => s,
        None => String::new(),
    };
    let target_service_ids = match optional_command_string_array(command, "targetServiceIds") {
        Ok(v) => v,
        Err(e) => return Err(e),
    };
    Ok(
        ProfileAcquisitionIntent {
            principal_id: owned(principal_id),
            profile_id: owned(profile_id),
            service_name,
            agent_name,
            task_name,
            target_service_ids,
        },
    )
}

/// A text, or the empty text.
pub open spec fn unwrap_text(o: Option<Seq<char>>) -> Seq<char> {
    match o {
        Some(s) => s,
        None => Seq::empty(),
    }
}


/// Whether `items` are the string values of `texts`, one for one.
pub open spec fn string_values(items: Seq<JsonValue>, texts: Seq<Seq<char>>) -> bool {
    &&& items.len() == texts.len()
    &&& forall|i: int| 0 <= i < items.len() ==> json_str(#[trigger] items[i]) == Some(texts[i])
}

/// The string values of a list of texts.
fn string_array(texts: &Vec<String>) -> (r: Vec<JsonValue>)
    ensures
        string_values(r@, strs(texts@)),
{
    let mut out: Vec<JsonValue> = Vec::new();
    let mut i: usize = 0;
    while i < texts.len()
        invariant
            i <= texts@.len(),
            out@.len() == i,
            forall|j: int| 0 <= j < i ==> json_str(#[trigger] out@[j]) == Some(texts@[j]@),
        decreases texts@.len() - i,
    {
        out.push(JsonValue::Str(texts[i].clone()));
        i = i + 1;
    }
    out
}

/// The service name a retried acquisition states: the intent's own, or the
/// principal id when the intent's is blank.
pub open spec fn retry_service_name(intent: IntentView) -> Seq<char> {
    if trim(intent.service_name).len() == 0 {
        intent.principal_id
    } else {
        intent.service_name
    }
}

/// The members of an acquisition retry command, in order: a `tab_new` of the
/// intent's profile on the given daemon route, carrying the intent's labels
/// and target services, and bound to the authenticated principal as a
/// registered capability.
pub open spec fn retry_command_members(m: Seq<JsonMember>, intent: IntentView, route: Seq<char>) -> bool {
    &&& m.len() == 9
    &&& m[0].key@ == "action"@ && json_str(m[0].value) == Some("tab_new"@)
    &&& m[1].key@ == "profileId"@ && json_str(m[1].value) == Some(intent.profile_id)
    &&& m[2].key@ == "serviceName"@ && json_str(m[2].value) == Some(retry_service_name(intent))
    &&& m[3].key@ == "agentName"@ && json_str(m[3].value) == Some(intent.agent_name)
    &&& m[4].key@ == "taskName"@ && json_str(m[4].value) == Some(intent.task_name)
    &&& m[5].key@ == "targetServiceIds"@ && (m[5].value matches JsonValue::Array(items) && string_values(
        items@,
        intent.target_service_ids,
    ))
    &&& m[6].key@ == "sessionName"@ && json_str(m[6].value) == Some(route)
    &&& m[7].key@ == "servicePrincipalId"@ && json_str(m[7].value) == Some(intent.principal_id)
    &&& m[8].key@ == "servicePrincipalProvenance"@ && json_str(m[8].value) == Some("registered_capability"@)
}

/// The command that retries an acquisition on a daemon route: it names the
/// exact profile and the authenticated principal, and carries no lease
/// effect authorization.
pub fn profile_acquisition_retry_command(intent: &ProfileAcquisitionIntent, daemon_session_route: &str) -> (r:
    JsonValue)
    ensures
        r matches JsonValue::Object(m) && retry_command_members(m@, intent@, daemon_session_route@),
{
    let service_name = if is_blank(intent.service_name.as_str()) {
        intent.principal_id.clone()
    } else {
        intent.service_name.clone()
    };
    JsonValue::Object(
        vec![
            member("action", JsonValue::string("tab_new")),
            member("profileId", JsonValue::Str(intent.profile_id.clone())),
            member("serviceName", JsonValue::Str(service_name)),
            member("agentName", JsonValue::Str(intent.agent_name.clone())),
            member("taskName", JsonValue::Str(intent.task_name.clone())),
            member("targetServiceIds", JsonValue::Array(string_array(&intent.target_service_ids))),
            member("sessionName", JsonValue::string(daemon_session_route)),
            member("servicePrincipalId", JsonValue::Str(intent.principal_id.clone())),
            member("servicePrincipalProvenance", JsonValue::string("registered_capability")),
        ],
    )
}

/// The command that launches a protected acquisition: the retry command for
/// the route, with the profile directory it launches on.
pub fn protected_profile_acquisition_launch_command(
    intent: &ProfileAcquisitionIntent,
    daemon_session_route: &str,
    profile_path: &str,
) -> (r: JsonValue)
    ensures
        r matches JsonValue::Object(m) && m@.len() == 10 && retry_command_members(
            m@.take(9),
            intent@,
            daemon_session_route@,
        ) && m@[9].key@ == "profile"@ && json_str(m@[9].value) == Some(profile_path@),
{
    let command = profile_acquisition_retry_command(intent, daemon_session_route);
    let mut members = match command {
        JsonValue::Object(m) => m,
        _ => Vec::new(),
    };
    let ghost before = members@;
    members.push(member("profile", JsonValue::string(profile_path)));
    assert(members@.take(9) =~= before);
    JsonValue::Object(members)
}

} // verus!
