//! Applying a terminal-owner recovery plan: the decision made before the
//! acquisition is retried, and the receipt made after it.
//!
//! The retry itself is outside work. Before it, a plan is checked for
//! integrity, replayed when its receipt exists, and checked against the
//! current state; only a plan that passes all three is retried. After it,
//! the state must show the new owner the retry produced, and the receipt is
//! stored, so that the plan replays from then on.

use vstd::prelude::*;
use crate::model::{get_keyed, insert_keyed, keys_sorted, lookup, Keyed, ServicePrincipalProvenance, ServiceState};
use crate::model::{ProfileOwnerState, RuntimeLaneLifecycleState};
use crate::recovery::{
    ActionView, integrity_spec, preconditions_spec, validate_plan_preconditions, verify_plan_integrity, EvidenceView,
    OutcomeView, PlanView, ProfileAcquisitionOutcome, ProfileAcquisitionState, RecoveryEvidence, RecoveryPlan,
    PROFILE_ACQUISITION_OUTCOME_SCHEMA_V1, PROFILE_RECOVERY_RECEIPT_SCHEMA_V1,
};
use crate::text::{owned, str_equal, strs};

verus! {

/// The record of an applied recovery.
pub struct RecoveryReceipt {
    pub schema_version: String,
    pub recovery_id: String,
    pub plan_id: String,
    pub principal_id: String,
    pub profile_id: String,
    pub terminal_result: String,
    pub precondition_comparison: String,
    pub attempted_operation_ids: Vec<String>,
    pub compensation_result: String,
    pub final_state_revision: u64,
    pub acquisition_retry_state: ProfileAcquisitionState,
    pub browser_id: String,
    pub daemon_session_route: String,
}

impl Keyed for RecoveryReceipt {
    open spec fn key_view(&self) -> Seq<char> {
        self.recovery_id@
    }

    fn key(&self) -> (k: &str) {
        self.recovery_id.as_str()
    }
}

/// The content of a recovery receipt.
pub struct ReceiptView {
    pub schema_version: Seq<char>,
    pub recovery_id: Seq<char>,
    pub plan_id: Seq<char>,
    pub principal_id: Seq<char>,
    pub profile_id: Seq<char>,
    pub terminal_result: Seq<char>,
    pub precondition_comparison: Seq<char>,
    pub attempted_operation_ids: Seq<Seq<char>>,
    pub compensation_result: Seq<char>,
    pub final_state_revision: u64,
    pub acquisition_retry_state: ProfileAcquisitionState,
    pub browser_id: Seq<char>,
    pub daemon_session_route: Seq<char>,
}

impl View for RecoveryReceipt {
    type V = ReceiptView;

    open spec fn view(&self) -> ReceiptView {
        ReceiptView {
            schema_version: self.schema_version@,
            recovery_id: self.recovery_id@,
            plan_id: self.plan_id@,
            principal_id: self.principal_id@,
            profile_id: self.profile_id@,
            terminal_result: self.terminal_result@,
            precondition_comparison: self.precondition_comparison@,
            attempted_operation_ids: strs(self.attempted_operation_ids@),
            compensation_result: self.compensation_result@,
            final_state_revision: self.final_state_revision,
            acquisition_retry_state: self.acquisition_retry_state,
            browser_id: self.browser_id@,
            daemon_session_route: self.daemon_session_route@,
        }
    }
}

/// What the acquisition retry produced: the browser and its daemon route.
pub struct ProfileAcquisitionRetryResult {
    pub browser_id: String,
    pub daemon_session_route: String,
}

/// The outcome of applying a recovery: the acquisition it gives, its
/// receipt, and whether the receipt was replayed.
pub struct RecoveryApplyOutcome {
    pub receipt: RecoveryReceipt,
    pub acquisition: ProfileAcquisitionOutcome,
    pub replayed: bool,
}

/// The content of an apply outcome.
pub struct ApplyOutcomeView {
    pub receipt: ReceiptView,
    pub acquisition: OutcomeView,
    pub replayed: bool,
}

impl View for RecoveryApplyOutcome {
    type V = ApplyOutcomeView;

    open spec fn view(&self) -> ApplyOutcomeView {
        ApplyOutcomeView { receipt: self.receipt@, acquisition: self.acquisition@, replayed: self.replayed }
    }
}

/// The acquisition a receipt records: acquired automatically on the
/// receipt's browser and route, with the receipt as evidence.
pub open spec fn acquired_outcome_spec(x: ReceiptView) -> OutcomeView {
    OutcomeView {
        schema_version: PROFILE_ACQUISITION_OUTCOME_SCHEMA_V1@,
        state: ProfileAcquisitionState::Acquired,
        dominant_blocker: None,
        automatic: true,
        browser_id: Some(x.browser_id),
        daemon_session_route: Some(x.daemon_session_route),
        recovery: None,
        next_action: None,
        evidence: seq![EvidenceView { code: "recovery_receipt_persisted"@, subject_id: x.recovery_id }],
    }
}

/// The acquisition a receipt records.
fn acquired_outcome(receipt: &RecoveryReceipt) -> (r: ProfileAcquisitionOutcome)
    ensures
        r@ == acquired_outcome_spec(receipt@),
{
    let mut evidence: Vec<RecoveryEvidence> = Vec::new();
    evidence.push(RecoveryEvidence { code: owned("recovery_receipt_persisted"), subject_id: receipt.recovery_id.clone() });
    let r = ProfileAcquisitionOutcome {
        schema_version: owned(PROFILE_ACQUISITION_OUTCOME_SCHEMA_V1),
        state: ProfileAcquisitionState::Acquired,
        dominant_blocker: None,
        automatic: true,
        browser_id: Some(receipt.browser_id.clone()),
        daemon_session_route: Some(receipt.daemon_session_route.clone()),
        recovery: None,
        next_action: None,
        evidence,
    };
    assert(r@.evidence =~= acquired_outcome_spec(receipt@).evidence);
    r
}

/// A copy of a receipt.
fn copy_receipt(x: &RecoveryReceipt) -> (r: RecoveryReceipt)
    ensures
        r@ == x@,
{
    let mut ids: Vec<String> = Vec::new();
    let mut i: usize = 0;
    while i < x.attempted_operation_ids.len()
        invariant
            i <= x.attempted_operation_ids@.len(),
            strs(ids@) == strs(x.attempted_operation_ids@).take(i as int),
        decreases x.attempted_operation_ids@.len() - i,
    {
        let id = owned(x.attempted_operation_ids[i].as_str());
        proof {
            crate::lease::lemma_strs_push(ids@, id);
        }
        ids.push(id);
        assert(strs(x.attempted_operation_ids@).take(i + 1) =~= strs(x.attempted_operation_ids@).take(i as int).push(
            x.attempted_operation_ids@[i as int]@,
        ));
        i = i + 1;
    }
    assert(strs(x.attempted_operation_ids@).take(x.attempted_operation_ids@.len() as int) =~= strs(
        x.attempted_operation_ids@,
    ));
    RecoveryReceipt {
        schema_version: x.schema_version.clone(),
        recovery_id: x.recovery_id.clone(),
        plan_id: x.plan_id.clone(),
        principal_id: x.principal_id.clone(),
        profile_id: x.profile_id.clone(),
        terminal_result: x.terminal_result.clone(),
        precondition_comparison: x.precondition_comparison.clone(),
        attempted_operation_ids: ids,
        compensation_result: x.compensation_result.clone(),
        final_state_revision: x.final_state_revision,
        acquisition_retry_state: x.acquisition_retry_state,
        browser_id: x.browser_id.clone(),
        daemon_session_route: x.daemon_session_route.clone(),
    }
}

/// Whether a stored receipt belongs to another plan or did not apply.
pub open spec fn receipt_conflicts(p: PlanView, x: ReceiptView) -> bool {
    x.plan_id != p.plan_id || x.recovery_id != p.recovery_id || x.principal_id != p.identities.principal_id
        || x.profile_id != p.identities.profile_id || x.terminal_result != "applied"@
}

/// Replaying a stored receipt: its acquisition, marked replayed, unless the
/// receipt conflicts with the plan.
pub open spec fn replay_spec(p: PlanView, x: ReceiptView) -> Result<ApplyOutcomeView, Seq<char>> {
    if receipt_conflicts(p, x) {
        Err("profile_recovery_receipt_conflict"@)
    } else {
        Ok(ApplyOutcomeView { receipt: x, acquisition: acquired_outcome_spec(x), replayed: true })
    }
}

/// Replays a stored receipt.
fn replay_outcome(plan: &RecoveryPlan, receipt: &RecoveryReceipt) -> (r: Result<RecoveryApplyOutcome, String>)
    ensures
        match r {
            Ok(o) => replay_spec(plan@, receipt@) == Ok::<ApplyOutcomeView, Seq<char>>(o@),
            Err(e) => replay_spec(plan@, receipt@) == Err::<ApplyOutcomeView, Seq<char>>(e@),
        },
{
    if !str_equal(receipt.plan_id.as_str(), plan.plan_id.as_str()) || !str_equal(
        receipt.recovery_id.as_str(),
        plan.recovery_id.as_str(),
    ) || !str_equal(receipt.principal_id.as_str(), plan.identities.principal_id.as_str()) || !str_equal(
        receipt.profile_id.as_str(),
        plan.identities.profile_id.as_str(),
    ) || !str_equal(receipt.terminal_result.as_str(), "applied") {
        return Err(owned("profile_recovery_receipt_conflict"));
    }
    Ok(RecoveryApplyOutcome { acquisition: acquired_outcome(receipt), receipt: copy_receipt(receipt), replayed: true })
}

/// What applying a plan does before any effect.
pub enum RecoveryApplyAction {
    /// The plan was applied before: its replayed outcome.
    Replay(RecoveryApplyOutcome),
    /// Retry the acquisition of the plan's original intent.
    Retry,
}

/// The decision before any effect: a plan that fails its integrity check is
/// refused; a plan whose receipt is stored replays it; a plan whose
/// preconditions no longer hold is refused; any other plan is retried.
/// `None` stands for the retry.
pub open spec fn recovery_step_spec(s: ServiceState, p: PlanView, now: Seq<char>, key: Seq<u8>) -> Result<
    Option<ApplyOutcomeView>,
    Seq<char>,
> {
    match integrity_spec(p, key) {
        Err(e) => Err(e),
        Ok(()) => match lookup(s.profile_recovery_receipts@, p.recovery_id) {
            Some(x) => match replay_spec(p, x@) {
                Ok(o) => Ok(Some(o)),
                Err(e) => Err(e),
            },
            None => match preconditions_spec(s, p, now) {
                Err(e) => Err(e),
                Ok(()) => Ok(None),
            },
        },
    }
}

/// Decides what applying a terminal-owner recovery plan does before any
/// effect, as `recovery_step_spec` says: the acquisition is retried only
/// for a plan of intact integrity, without a receipt, whose preconditions
/// still hold.
pub fn terminal_recovery_step(state: &ServiceState, plan: &RecoveryPlan, now: &str, seal_key: &[u8]) -> (r: Result<
    RecoveryApplyAction,
    String,
>)
    ensures
        match r {
            Ok(RecoveryApplyAction::Retry) => recovery_step_spec(*state, plan@, now@, seal_key@) == Ok::<
                Option<ApplyOutcomeView>,
                Seq<char>,
            >(None),
            Ok(RecoveryApplyAction::Replay(o)) => recovery_step_spec(*state, plan@, now@, seal_key@) == Ok::<
                Option<ApplyOutcomeView>,
                Seq<char>,
            >(Some(o@)),
            Err(e) => recovery_step_spec(*state, plan@, now@, seal_key@) == Err::<Option<ApplyOutcomeView>, Seq<char>>(
                e@,
            ),
        },
{
    match verify_plan_integrity(plan, seal_key) {
        Ok(()) => {},
        Err(e) => return Err(e),
    }
    match get_keyed(&state.profile_recovery_receipts, plan.recovery_id.as_str()) {
        Some(x) => {
            return match replay_outcome(plan, x) {
                Ok(o) => Ok(RecoveryApplyAction::Replay(o)),
                Err(e) => Err(e),
            };
        },
        None => {},
    }
    match validate_plan_preconditions(state, plan, now) {
        Ok(()) => {},
        Err(e) => return Err(e),
    }
    Ok(RecoveryApplyAction::Retry)
}


/// Why the state after a retry does not show the recovered owner, if it
/// does not: the owner, its next generation or its lifecycle record is
/// missing, or the owner, lifecycle record and principal binding do not all
/// name the retried browser at the next generation.
pub open spec fn postcondition_refusal(s: ServiceState, p: PlanView, browser_id: Seq<char>, route: Seq<char>) -> Option<
    Seq<char>,
> {
    let digest = p.identities.profile_identity_digest;
    match lookup(s.runtime_owner_registry.owners@, digest) {
        None => Some("profile_recovery_postcondition_owner_missing"@),
        Some(owner) => if p.identities.lifecycle_owner_generation == u64::MAX {
            Some("profile_recovery_owner_generation_exhausted"@)
        } else {
            let g = (p.identities.lifecycle_owner_generation + 1) as u64;
            match lookup(s.runtime_owner_registry.lifecycle_records@, owner.browser_id@) {
                None => Some("profile_recovery_postcondition_lifecycle_missing"@),
                Some(l) => {
                    let binding_ok = match lookup(s.runtime_owner_registry.principal_bindings@, digest) {
                        Some(b) => b.principal_id@ == p.identities.principal_id && b.profile_id@ == p.identities.profile_id
                            && b.owner_generation == g && b.provenance == ServicePrincipalProvenance::RegisteredCapability,
                        None => false,
                    };
                    if owner.owner_generation != g || owner.browser_id@ != browser_id || owner.daemon_session_route@
                        != route || l.profile_identity_digest@ != digest || l.owner_generation != g || l.lifecycle_state
                        != RuntimeLaneLifecycleState::Ready || l.cleanup_obligation_state@ != "owned"@ || !binding_ok {
                        Some("profile_recovery_postcondition_mismatch"@)
                    } else {
                        None
                    }
                },
            }
        },
    }
}

/// The receipt of a plan applied on state `s` by a retry that produced
/// `browser_id` on `route`.
pub open spec fn applied_receipt(p: PlanView, s: ServiceState, browser_id: Seq<char>, route: Seq<char>) -> ReceiptView {
    ReceiptView {
        schema_version: PROFILE_RECOVERY_RECEIPT_SCHEMA_V1@,
        recovery_id: p.recovery_id,
        plan_id: p.plan_id,
        principal_id: p.identities.principal_id,
        profile_id: p.identities.profile_id,
        terminal_result: "applied"@,
        precondition_comparison: "matched"@,
        attempted_operation_ids: p.actions.map_values(|a: ActionView| a.action_id),
        compensation_result: "not_required"@,
        final_state_revision: s.runtime_owner_registry.revision,
        acquisition_retry_state: ProfileAcquisitionState::Acquired,
        browser_id,
        daemon_session_route: route,
    }
}

/// What a first application leaves behind: the receipt `o` stored under the
/// plan's recovery id, every other receipt and the rest of the state
/// unchanged, and the acquisition the receipt records.
pub open spec fn recovery_applied(
    s0: ServiceState,
    s1: ServiceState,
    p: PlanView,
    browser_id: Seq<char>,
    route: Seq<char>,
    o: ApplyOutcomeView,
) -> bool {
    &&& lookup(s0.profile_recovery_receipts@, p.recovery_id) is None
    &&& postcondition_refusal(s0, p, browser_id, route) is None
    &&& o.receipt == applied_receipt(p, s0, browser_id, route)
    &&& o.acquisition == acquired_outcome_spec(o.receipt)
    &&& !o.replayed
    &&& keys_sorted(s1.profile_recovery_receipts@)
    &&& lookup(s1.profile_recovery_receipts@, p.recovery_id) matches Some(x) && x@ == o.receipt
    &&& forall|k: Seq<char>|
        k != p.recovery_id ==> #[trigger] lookup(s1.profile_recovery_receipts@, k) == lookup(
            s0.profile_recovery_receipts@,
            k,
        )
    &&& s1 == (ServiceState { profile_recovery_receipts: s1.profile_recovery_receipts, ..s0 })
}

/// The action ids of a plan.
fn action_ids(plan: &RecoveryPlan) -> (r: Vec<String>)
    ensures
        strs(r@) == plan@.actions.map_values(|a: ActionView| a.action_id),
{
    let mut ids: Vec<String> = Vec::new();
    let mut i: usize = 0;
    while i < plan.actions.len()
        invariant
            i <= plan.actions@.len(),
            strs(ids@) == plan@.actions.take(i as int).map_values(|a: ActionView| a.action_id),
        decreases plan.actions@.len() - i,
    {
        let id = plan.actions[i].action_id.clone();
        proof {
            crate::lease::lemma_strs_push(ids@, id);
        }
        ids.push(id);
        assert(plan@.actions.take(i + 1).map_values(|a: ActionView| a.action_id) =~= plan@.actions.take(
            i as int,
        ).map_values(|a: ActionView| a.action_id).push(plan@.actions[i as int].action_id));
        i = i + 1;
    }
    assert(plan@.actions.take(plan.actions@.len() as int) =~= plan@.actions);
    ids
}

/// Finishes applying a plan once the acquisition was retried: replays a
/// receipt stored meanwhile; refuses a state that does not show the owner
/// the retry produced at the next generation, with its lifecycle record and
/// principal binding; otherwise stores the receipt, so that the plan
/// replays from then on.
pub fn finish_terminal_recovery(
    state: &mut ServiceState,
    plan: &RecoveryPlan,
    retry: &ProfileAcquisitionRetryResult,
) -> (r: Result<RecoveryApplyOutcome, String>)
    requires
        keys_sorted(old(state).profile_recovery_receipts@),
    ensures
        match lookup(old(state).profile_recovery_receipts@, plan.recovery_id@) {
            Some(x) => *final(state) == *old(state) && match r {
                Ok(o) => replay_spec(plan@, x@) == Ok::<ApplyOutcomeView, Seq<char>>(o@),
                Err(e) => replay_spec(plan@, x@) == Err::<ApplyOutcomeView, Seq<char>>(e@),
            },
            None => match postcondition_refusal(*old(state), plan@, retry.browser_id@, retry.daemon_session_route@) {
                Some(m) => *final(state) == *old(state) && (r matches Err(e) && e@ == m),
                None => r matches Ok(o) && recovery_applied(
                    *old(state),
                    *final(state),
                    plan@,
                    retry.browser_id@,
                    retry.daemon_session_route@,
                    o@,
                ),
            },
        },
{
    match get_keyed(&state.profile_recovery_receipts, plan.recovery_id.as_str()) {
        Some(x) => return replay_outcome(plan, x),
        None => {},
    }
    let digest = plan.identities.profile_identity_digest.as_str();
    let owner = match get_keyed(&state.runtime_owner_registry.owners, digest) {
        Some(o) => o,
        None => return Err(owned("profile_recovery_postcondition_owner_missing")),
    };
    if plan.identities.lifecycle_owner_generation == u64::MAX {
        return Err(owned("profile_recovery_owner_generation_exhausted"));
    }
    let g = plan.identities.lifecycle_owner_generation + 1;
    let lifecycle = match get_keyed(&state.runtime_owner_registry.lifecycle_records, owner.browser_id.as_str()) {
        Some(l) => l,
        None => return Err(owned("profile_recovery_postcondition_lifecycle_missing")),
    };
    let binding_ok = match get_keyed(&state.runtime_owner_registry.principal_bindings, digest) {
        Some(b) => str_equal(b.principal_id.as_str(), plan.identities.principal_id.as_str()) && str_equal(
            b.profile_id.as_str(),
            plan.identities.profile_id.as_str(),
        ) && b.owner_generation == g && b.provenance == ServicePrincipalProvenance::RegisteredCapability,
        None => false,
    };
    let ready = match lifecycle.lifecycle_state {
        RuntimeLaneLifecycleState::Ready => true,
        _ => false,
    };
    if owner.owner_generation != g || !str_equal(owner.browser_id.as_str(), retry.browser_id.as_str()) || !str_equal(
        owner.daemon_session_route.as_str(),
        retry.daemon_session_route.as_str(),
    ) || !str_equal(lifecycle.profile_identity_digest.as_str(), digest) || lifecycle.owner_generation != g || !ready
        || !str_equal(lifecycle.cleanup_obligation_state.as_str(), "owned") || !binding_ok {
        return Err(owned("profile_recovery_postcondition_mismatch"));
    }
    let receipt = RecoveryReceipt {
        schema_version: owned(PROFILE_RECOVERY_RECEIPT_SCHEMA_V1),
        recovery_id: plan.recovery_id.clone(),
        plan_id: plan.plan_id.clone(),
        principal_id: plan.identities.principal_id.clone(),
        profile_id: plan.identities.profile_id.clone(),
        terminal_result: owned("applied"),
        precondition_comparison: owned("matched"),
        attempted_operation_ids: action_ids(plan),
        compensation_result: owned("not_required"),
        final_state_revision: state.runtime_owner_registry.revision,
        acquisition_retry_state: ProfileAcquisitionState::Acquired,
        browser_id: retry.browser_id.clone(),
        daemon_session_route: retry.daemon_session_route.clone(),
    };
    let stored = copy_receipt(&receipt);
    insert_keyed(&mut state.profile_recovery_receipts, stored);
    Ok(RecoveryApplyOutcome { acquisition: acquired_outcome(&receipt), receipt, replayed: false })
}

/// Law: an applied recovery is never retried again. Once a first
/// application stored its receipt, deciding the same plan on the new state
/// never asks for a retry; with the plan intact, it replays the stored
/// receipt, marked replayed, with the acquisition it records.
pub proof fn law_applied_recovery_replays(
    s0: ServiceState,
    s1: ServiceState,
    p: PlanView,
    browser_id: Seq<char>,
    route: Seq<char>,
    o: ApplyOutcomeView,
    now: Seq<char>,
    key: Seq<u8>,
)
    requires
        recovery_applied(s0, s1, p, browser_id, route, o),
    ensures
        recovery_step_spec(s1, p, now, key) != Ok::<Option<ApplyOutcomeView>, Seq<char>>(None),
        integrity_spec(p, key) is Ok ==> recovery_step_spec(s1, p, now, key) == Ok::<
            Option<ApplyOutcomeView>,
            Seq<char>,
        >(Some(ApplyOutcomeView { replayed: true, ..o })),
{
    reveal_strlit("applied");
}

} // verus!
