//! The JSON texts that recovery plans are identified and sealed by.
//!
//! Identifiers are digests of compact JSON arrays whose objects keep their
//! fields in declaration order and omit absent optional fields. The integrity
//! seal covers the whole plan as a JSON document whose object keys are sorted
//! at every level and whose own seal field is blank.

use vstd::prelude::*;
use vstd::utf8::encode_utf8;
use crate::digest::{hex_text, sha256, sha256_digest, hex_lower};
use crate::json::{bool_text, decimal, push_decimal, push_quoted, push_quoted_list, quoted, quoted_list};
use crate::model::ov;
use crate::recovery::{
    ActionView, BlockerView, DominantBlocker, EvidenceView, IdentitiesView, IntentView,
    MitigationAction, MitigationActionType, PlanView, ProfileAcquisitionIntent, RecoveryEvidence,
    RecoveryIdentityJoins, RecoveryPlan, evidence_views,
};
use crate::text::{concat2, push_char, strs};

verus! {

/// The snake_case name of a mitigation action type.
pub open spec fn action_type_name(t: MitigationActionType) -> Seq<char> {
    match t {
        MitigationActionType::SupersedeTerminalOwner => "supersede_terminal_owner"@,
        MitigationActionType::ReconcileExactPrincipalProfileIdentity => "reconcile_exact_principal_profile_identity"@,
        MitigationActionType::ReconcileLegacyPrincipal => "reconcile_legacy_principal"@,
        MitigationActionType::BindOwnerPrincipalAuthority => "bind_owner_principal_authority"@,
        MitigationActionType::RepairOwnerGenerationBinding => "repair_owner_generation_binding"@,
        MitigationActionType::ReleaseExpiredOwnerlessLease => "release_expired_ownerless_lease"@,
        MitigationActionType::AdoptExactLiveBrowser => "adopt_exact_live_browser"@,
        MitigationActionType::RepairSubordinateProfileBinding => "repair_subordinate_profile_binding"@,
        MitigationActionType::RepairIndependentRouteIdentity => "repair_independent_route_identity"@,
        MitigationActionType::FinalizeTerminalInstallationBookkeeping => "finalize_terminal_installation_bookkeeping"@,
        MitigationActionType::RetireInertBrowserRecord => "retire_inert_browser_record"@,
    }
}

/// The snake_case name of a mitigation action type.
pub fn action_type_str(t: MitigationActionType) -> (r: &'static str)
    ensures
        r@ == action_type_name(t),
{
    match t {
        MitigationActionType::SupersedeTerminalOwner => "supersede_terminal_owner",
        MitigationActionType::ReconcileExactPrincipalProfileIdentity => "reconcile_exact_principal_profile_identity",
        MitigationActionType::ReconcileLegacyPrincipal => "reconcile_legacy_principal",
        MitigationActionType::BindOwnerPrincipalAuthority => "bind_owner_principal_authority",
        MitigationActionType::RepairOwnerGenerationBinding => "repair_owner_generation_binding",
        MitigationActionType::ReleaseExpiredOwnerlessLease => "release_expired_ownerless_lease",
        MitigationActionType::AdoptExactLiveBrowser => "adopt_exact_live_browser",
        MitigationActionType::RepairSubordinateProfileBinding => "repair_subordinate_profile_binding",
        MitigationActionType::RepairIndependentRouteIdentity => "repair_independent_route_identity",
        MitigationActionType::FinalizeTerminalInstallationBookkeeping => "finalize_terminal_installation_bookkeeping",
        MitigationActionType::RetireInertBrowserRecord => "retire_inert_browser_record",
    }
}

/// A `,"key":"value"` member when the value is present; nothing otherwise.
pub open spec fn opt_member(key: Seq<char>, value: Option<Seq<char>>) -> Seq<char> {
    match value {
        Some(v) => ",\""@ + key + "\":"@ + quoted(v),
        None => Seq::empty(),
    }
}

/// An intent, fields in declaration order.
pub open spec fn intent_json(i: IntentView) -> Seq<char> {
    "{\"principalId\":"@ + quoted(i.principal_id)
        + ",\"profileId\":"@ + quoted(i.profile_id)
        + ",\"serviceName\":"@ + quoted(i.service_name)
        + ",\"agentName\":"@ + quoted(i.agent_name)
        + ",\"taskName\":"@ + quoted(i.task_name)
        + ",\"targetServiceIds\":"@ + quoted_list(i.target_service_ids) + "}"@
}

/// An intent, keys sorted.
pub open spec fn intent_sorted_json(i: IntentView) -> Seq<char> {
    "{\"agentName\":"@ + quoted(i.agent_name)
        + ",\"principalId\":"@ + quoted(i.principal_id)
        + ",\"profileId\":"@ + quoted(i.profile_id)
        + ",\"serviceName\":"@ + quoted(i.service_name)
        + ",\"targetServiceIds\":"@ + quoted_list(i.target_service_ids)
        + ",\"taskName\":"@ + quoted(i.task_name) + "}"@
}

/// The leading members of identity joins in declaration order, up to the
/// daemon session route.
pub open spec fn identities_head(d: IdentitiesView) -> Seq<char> {
    "{\"principalId\":"@ + quoted(d.principal_id)
        + ",\"profileId\":"@ + quoted(d.profile_id)
        + ",\"profileIdentityDigest\":"@ + quoted(d.profile_identity_digest)
        + ",\"lifecycleOwnerId\":"@ + quoted(d.lifecycle_owner_id)
        + ",\"lifecycleOwnerGeneration\":"@ + decimal(d.lifecycle_owner_generation as nat)
        + ",\"durableBrowserId\":"@ + quoted(d.durable_browser_id)
        + ",\"daemonSessionRoute\":"@ + quoted(d.daemon_session_route)
}

/// Identity joins, fields in declaration order, absent options omitted.
pub open spec fn identities_json(d: IdentitiesView) -> Seq<char> {
    identities_head(d) + opt_member("serviceSessionId"@, d.service_session_id)
        + ",\"processInstanceDigest\":"@ + quoted(d.process_instance_digest)
        + opt_member("presentationRouteId"@, d.presentation_route_id) + "}"@
}

/// The sorted members of identity joins before the presentation route.
pub open spec fn identities_sorted_head(d: IdentitiesView) -> Seq<char> {
    "{\"daemonSessionRoute\":"@ + quoted(d.daemon_session_route)
        + ",\"durableBrowserId\":"@ + quoted(d.durable_browser_id)
        + ",\"lifecycleOwnerGeneration\":"@ + decimal(d.lifecycle_owner_generation as nat)
        + ",\"lifecycleOwnerId\":"@ + quoted(d.lifecycle_owner_id)
}

/// The sorted members of identity joins between the two optional members.
pub open spec fn identities_sorted_middle(d: IdentitiesView) -> Seq<char> {
    ",\"principalId\":"@ + quoted(d.principal_id)
        + ",\"processInstanceDigest\":"@ + quoted(d.process_instance_digest)
        + ",\"profileId\":"@ + quoted(d.profile_id)
        + ",\"profileIdentityDigest\":"@ + quoted(d.profile_identity_digest)
}

/// Identity joins, keys sorted, absent options omitted.
pub open spec fn identities_sorted_json(d: IdentitiesView) -> Seq<char> {
    identities_sorted_head(d) + opt_member("presentationRouteId"@, d.presentation_route_id)
        + identities_sorted_middle(d) + opt_member("serviceSessionId"@, d.service_session_id)
        + "}"@
}

/// A blocker, fields in declaration order.
pub open spec fn blocker_json(b: BlockerView) -> Seq<char> {
    "{\"code\":"@ + quoted(b.code) + ",\"recoverable\":"@ + bool_text(b.recoverable)
        + ",\"detail\":"@ + quoted(b.detail) + "}"@
}

/// A blocker, keys sorted.
pub open spec fn blocker_sorted_json(b: BlockerView) -> Seq<char> {
    "{\"code\":"@ + quoted(b.code) + ",\"detail\":"@ + quoted(b.detail)
        + ",\"recoverable\":"@ + bool_text(b.recoverable) + "}"@
}

/// A mitigation action, fields in declaration order.
pub open spec fn action_json(a: ActionView) -> Seq<char> {
    "{\"schemaVersion\":"@ + quoted(a.schema_version)
        + ",\"actionId\":"@ + quoted(a.action_id)
        + ",\"actionType\":"@ + quoted(action_type_name(a.action_type))
        + ",\"effectAuthority\":\"exact_profile_graph\""@
        + ",\"preconditions\":"@ + quoted_list(a.preconditions)
        + ",\"expectedPostconditions\":"@ + quoted_list(a.expected_postconditions)
        + ",\"compensation\":"@ + quoted_list(a.compensation) + "}"@
}

/// A mitigation action, keys sorted.
pub open spec fn action_sorted_json(a: ActionView) -> Seq<char> {
    "{\"actionId\":"@ + quoted(a.action_id)
        + ",\"actionType\":"@ + quoted(action_type_name(a.action_type))
        + ",\"compensation\":"@ + quoted_list(a.compensation)
        + ",\"effectAuthority\":\"exact_profile_graph\""@
        + ",\"expectedPostconditions\":"@ + quoted_list(a.expected_postconditions)
        + ",\"preconditions\":"@ + quoted_list(a.preconditions)
        + ",\"schemaVersion\":"@ + quoted(a.schema_version) + "}"@
}

/// One piece of evidence (its keys are already in sorted order).
pub open spec fn evidence_json(e: EvidenceView) -> Seq<char> {
    "{\"code\":"@ + quoted(e.code) + ",\"subjectId\":"@ + quoted(e.subject_id) + "}"@
}

/// The comma-separated texts of a list's items.
pub open spec fn joined(items: Seq<Seq<char>>) -> Seq<char>
    decreases items.len(),
{
    if items.len() == 0 {
        Seq::empty()
    } else if items.len() == 1 {
        items[0]
    } else {
        joined(items.drop_last()) + seq![','] + items.last()
    }
}

/// A JSON array of evidence.
pub open spec fn evidence_list_json(v: Seq<EvidenceView>) -> Seq<char> {
    seq!['['] + joined(v.map_values(|e: EvidenceView| evidence_json(e))) + seq![']']
}

/// A JSON array of sorted-key actions.
pub open spec fn action_list_sorted_json(v: Seq<ActionView>) -> Seq<char> {
    seq!['['] + joined(v.map_values(|a: ActionView| action_sorted_json(a))) + seq![']']
}

/// A whole plan with keys sorted at every level and a blank seal.
pub open spec fn plan_sorted_json(p: PlanView) -> Seq<char> {
    "{\"actions\":"@ + action_list_sorted_json(p.actions)
        + ",\"createdAt\":"@ + quoted(p.created_at)
        + ",\"dominantBlocker\":"@ + blocker_sorted_json(p.dominant_blocker)
        + ",\"evidence\":"@ + evidence_list_json(p.evidence)
        + ",\"expiresAt\":"@ + quoted(p.expires_at)
        + ",\"idempotencyKeyDigest\":"@ + quoted(p.idempotency_key_digest)
        + ",\"identities\":"@ + identities_sorted_json(p.identities)
        + ",\"integritySeal\":\"\""@
        + ",\"originalIntent\":"@ + intent_sorted_json(p.original_intent)
        + ",\"planId\":"@ + quoted(p.plan_id)
        + ",\"recoveryId\":"@ + quoted(p.recovery_id)
        + ",\"schemaVersion\":"@ + quoted(p.schema_version)
        + ",\"serviceStateRevision\":"@ + decimal(p.service_state_revision as nat) + "}"@
}

/// The text an action identifier digests: `[kind, revision, identities]`.
pub open spec fn action_id_json(kind: Seq<char>, revision: u64, d: IdentitiesView) -> Seq<char> {
    "["@ + quoted(kind) + ","@ + decimal(revision as nat) + ","@ + identities_json(d) + "]"@
}

/// The text a recovery identifier digests:
/// `["profile-recovery", identity digest, owner generation, key digest]`.
pub open spec fn recovery_id_json(d: IdentitiesView, idempotency_key_digest: Seq<char>) -> Seq<char> {
    "[\"profile-recovery\","@ + quoted(d.profile_identity_digest) + ","@
        + decimal(d.lifecycle_owner_generation as nat) + ","@ + quoted(idempotency_key_digest) + "]"@
}

/// The text a plan identifier digests: the schema, recovery id, revision,
/// identities, blocker, action, intent, creation and expiry.
pub open spec fn plan_id_json(
    recovery_id: Seq<char>,
    revision: u64,
    d: IdentitiesView,
    b: BlockerView,
    a: ActionView,
    i: IntentView,
    created_at: Seq<char>,
    expires_at: Seq<char>,
) -> Seq<char> {
    "[\"agent-browser.profile-recovery-plan.v1\","@ + quoted(recovery_id) + ","@
        + decimal(revision as nat) + ","@ + identities_json(d) + ","@ + blocker_json(b) + ","@
        + action_json(a) + ","@ + intent_json(i) + ","@ + quoted(created_at) + ","@
        + quoted(expires_at) + "]"@
}

/// The bytes an integrity seal digests.
pub open spec fn seal_bytes(p: PlanView, key: Seq<u8>) -> Seq<u8> {
    encode_utf8("agent-browser.profile-recovery-seal.v1"@) + seq![0u8] + key + seq![0u8]
        + encode_utf8(plan_sorted_json(p)) + seq![0u8] + key
}

/// The integrity seal of a plan under a key.
pub open spec fn seal_spec(p: PlanView, key: Seq<u8>) -> Seq<char> {
    "sha256:"@ + hex_text(sha256(seal_bytes(p, key)))
}

/// Appends an optional `,"key":"value"` member.
fn push_opt_member(out: &mut String, key: &str, value: &Option<String>)
    ensures
        final(out)@ == old(out)@ + opt_member(key@, ov(*value)),
{
    match value {
        Some(v) => {
            let ghost start = out@;
            out.append(",\"");
            out.append(key);
            out.append("\":");
            push_quoted(out, v.as_str());
            assert(out@ =~= start + opt_member(key@, ov(*value)));
        },
        None => {
            assert(out@ =~= old(out)@ + opt_member(key@, ov(*value)));
        },
    }
}

/// Appends an intent, fields in declaration order.
pub fn push_intent_json(out: &mut String, i: &ProfileAcquisitionIntent)
    ensures
        final(out)@ == old(out)@ + intent_json(i@),
{
    let ghost start = out@;
    out.append("{\"principalId\":");
    push_quoted(out, i.principal_id.as_str());
    out.append(",\"profileId\":");
    push_quoted(out, i.profile_id.as_str());
    out.append(",\"serviceName\":");
    push_quoted(out, i.service_name.as_str());
    out.append(",\"agentName\":");
    push_quoted(out, i.agent_name.as_str());
    out.append(",\"taskName\":");
    push_quoted(out, i.task_name.as_str());
    out.append(",\"targetServiceIds\":");
    push_quoted_list(out, &i.target_service_ids);
    out.append("}");
    assert(out@ =~= start + intent_json(i@));
}

/// Appends an intent, keys sorted.
pub fn push_intent_sorted_json(out: &mut String, i: &ProfileAcquisitionIntent)
    ensures
        final(out)@ == old(out)@ + intent_sorted_json(i@),
{
    let ghost start = out@;
    out.append("{\"agentName\":");
    push_quoted(out, i.agent_name.as_str());
    out.append(",\"principalId\":");
    push_quoted(out, i.principal_id.as_str());
    out.append(",\"profileId\":");
    push_quoted(out, i.profile_id.as_str());
    out.append(",\"serviceName\":");
    push_quoted(out, i.service_name.as_str());
    out.append(",\"targetServiceIds\":");
    push_quoted_list(out, &i.target_service_ids);
    out.append(",\"taskName\":");
    push_quoted(out, i.task_name.as_str());
    out.append("}");
    assert(out@ =~= start + intent_sorted_json(i@));
}

/// Appends the leading members of identity joins.
fn push_identities_head(out: &mut String, d: &RecoveryIdentityJoins)
    ensures
        final(out)@ == old(out)@ + identities_head(d@),
{
    let ghost start = out@;
    out.append("{\"principalId\":");
    push_quoted(out, d.principal_id.as_str());
    out.append(",\"profileId\":");
    push_quoted(out, d.profile_id.as_str());
    out.append(",\"profileIdentityDigest\":");
    push_quoted(out, d.profile_identity_digest.as_str());
    out.append(",\"lifecycleOwnerId\":");
    push_quoted(out, d.lifecycle_owner_id.as_str());
    out.append(",\"lifecycleOwnerGeneration\":");
    push_decimal(out, d.lifecycle_owner_generation);
    out.append(",\"durableBrowserId\":");
    push_quoted(out, d.durable_browser_id.as_str());
    out.append(",\"daemonSessionRoute\":");
    push_quoted(out, d.daemon_session_route.as_str());
    assert(out@ =~= start + identities_head(d@));
}

/// Appends identity joins, fields in declaration order.
pub fn push_identities_json(out: &mut String, d: &RecoveryIdentityJoins)
    ensures
        final(out)@ == old(out)@ + identities_json(d@),
{
    let ghost start = out@;
    push_identities_head(out, d);
    push_opt_member(out, "serviceSessionId", &d.service_session_id);
    out.append(",\"processInstanceDigest\":");
    push_quoted(out, d.process_instance_digest.as_str());
    push_opt_member(out, "presentationRouteId", &d.presentation_route_id);
    out.append("}");
    assert(out@ =~= start + identities_json(d@));
}

/// Appends the sorted members of identity joins before the presentation route.
fn push_identities_sorted_head(out: &mut String, d: &RecoveryIdentityJoins)
    ensures
        final(out)@ == old(out)@ + identities_sorted_head(d@),
{
    let ghost start = out@;
    out.append("{\"daemonSessionRoute\":");
    push_quoted(out, d.daemon_session_route.as_str());
    out.append(",\"durableBrowserId\":");
    push_quoted(out, d.durable_browser_id.as_str());
    out.append(",\"lifecycleOwnerGeneration\":");
    push_decimal(out, d.lifecycle_owner_generation);
    out.append(",\"lifecycleOwnerId\":");
    push_quoted(out, d.lifecycle_owner_id.as_str());
    assert(out@ =~= start + identities_sorted_head(d@));
}

/// Appends the sorted members of identity joins between the optional ones.
fn push_identities_sorted_middle(out: &mut String, d: &RecoveryIdentityJoins)
    ensures
        final(out)@ == old(out)@ + identities_sorted_middle(d@),
{
    let ghost start = out@;
    out.append(",\"principalId\":");
    push_quoted(out, d.principal_id.as_str());
    out.append(",\"processInstanceDigest\":");
    push_quoted(out, d.process_instance_digest.as_str());
    out.append(",\"profileId\":");
    push_quoted(out, d.profile_id.as_str());
    out.append(",\"profileIdentityDigest\":");
    push_quoted(out, d.profile_identity_digest.as_str());
    assert(out@ =~= start + identities_sorted_middle(d@));
}

/// Appends identity joins, keys sorted.
pub fn push_identities_sorted_json(out: &mut String, d: &RecoveryIdentityJoins)
    ensures
        final(out)@ == old(out)@ + identities_sorted_json(d@),
{
    let ghost start = out@;
    push_identities_sorted_head(out, d);
    push_opt_member(out, "presentationRouteId", &d.presentation_route_id);
    push_identities_sorted_middle(out, d);
    push_opt_member(out, "serviceSessionId", &d.service_session_id);
    out.append("}");
    assert(out@ =~= start + identities_sorted_json(d@));
}

/// Appends a JSON boolean.
fn push_bool(out: &mut String, b: bool)
    ensures
        final(out)@ == old(out)@ + bool_text(b),
{
    if b {
        out.append("true");
    } else {
        out.append("false");
    }
}

/// Appends a blocker, fields in declaration order.
pub fn push_blocker_json(out: &mut String, b: &DominantBlocker)
    ensures
        final(out)@ == old(out)@ + blocker_json(b@),
{
    let ghost start = out@;
    out.append("{\"code\":");
    push_quoted(out, b.code.as_str());
    out.append(",\"recoverable\":");
    push_bool(out, b.recoverable);
    out.append(",\"detail\":");
    push_quoted(out, b.detail.as_str());
    out.append("}");
    assert(out@ =~= start + blocker_json(b@));
}

/// Appends a blocker, keys sorted.
pub fn push_blocker_sorted_json(out: &mut String, b: &DominantBlocker)
    ensures
        final(out)@ == old(out)@ + blocker_sorted_json(b@),
{
    let ghost start = out@;
    out.append("{\"code\":");
    push_quoted(out, b.code.as_str());
    out.append(",\"detail\":");
    push_quoted(out, b.detail.as_str());
    out.append(",\"recoverable\":");
    push_bool(out, b.recoverable);
    out.append("}");
    assert(out@ =~= start + blocker_sorted_json(b@));
}

/// Appends a mitigation action, fields in declaration order.
pub fn push_action_json(out: &mut String, a: &MitigationAction)
    ensures
        final(out)@ == old(out)@ + action_json(a@),
{
    let ghost start = out@;
    out.append("{\"schemaVersion\":");
    push_quoted(out, a.schema_version.as_str());
    out.append(",\"actionId\":");
    push_quoted(out, a.action_id.as_str());
    out.append(",\"actionType\":");
    push_quoted(out, action_type_str(a.action_type));
    out.append(",\"effectAuthority\":\"exact_profile_graph\"");
    out.append(",\"preconditions\":");
    push_quoted_list(out, &a.preconditions);
    out.append(",\"expectedPostconditions\":");
    push_quoted_list(out, &a.expected_postconditions);
    out.append(",\"compensation\":");
    push_quoted_list(out, &a.compensation);
    out.append("}");
    assert(out@ =~= start + action_json(a@));
}

/// Appends a mitigation action, keys sorted.
pub fn push_action_sorted_json(out: &mut String, a: &MitigationAction)
    ensures
        final(out)@ == old(out)@ + action_sorted_json(a@),
{
    let ghost start = out@;
    out.append("{\"actionId\":");
    push_quoted(out, a.action_id.as_str());
    out.append(",\"actionType\":");
    push_quoted(out, action_type_str(a.action_type));
    out.append(",\"compensation\":");
    push_quoted_list(out, &a.compensation);
    out.append(",\"effectAuthority\":\"exact_profile_graph\"");
    out.append(",\"expectedPostconditions\":");
    push_quoted_list(out, &a.expected_postconditions);
    out.append(",\"preconditions\":");
    push_quoted_list(out, &a.preconditions);
    out.append(",\"schemaVersion\":");
    push_quoted(out, a.schema_version.as_str());
    out.append("}");
    assert(out@ =~= start + action_sorted_json(a@));
}

/// Appends a JSON array of evidence.
fn push_evidence_list_json(out: &mut String, v: &Vec<RecoveryEvidence>)
    ensures
        final(out)@ == old(out)@ + evidence_list_json(evidence_views(v@)),
{
    let ghost start = out@;
    let ghost items = evidence_views(v@).map_values(|e: EvidenceView| evidence_json(e));
    push_char(out, '[');
    assert(items.take(0) =~= Seq::<Seq<char>>::empty());
    let mut i: usize = 0;
    while i < v.len()
        invariant
            i <= v@.len(),
            items == evidence_views(v@).map_values(|e: EvidenceView| evidence_json(e)),
            out@ == start + seq!['['] + joined(items.take(i as int)),
        decreases v@.len() - i,
    {
        let ghost before = out@;
        if i > 0 {
            push_char(out, ',');
        }
        out.append("{\"code\":");
        push_quoted(out, v[i].code.as_str());
        out.append(",\"subjectId\":");
        push_quoted(out, v[i].subject_id.as_str());
        out.append("}");
        assert(items.take(i + 1).drop_last() =~= items.take(i as int));
        assert(items[i as int] == evidence_json(v@[i as int]@));
        assert(out@ =~= start + seq!['['] + joined(items.take(i + 1)));
        i = i + 1;
    }
    assert(items.take(v@.len() as int) =~= items);
    push_char(out, ']');
    assert(out@ =~= start + evidence_list_json(evidence_views(v@)));
}

/// Appends a JSON array of sorted-key actions.
fn push_action_list_sorted_json(out: &mut String, v: &Vec<MitigationAction>)
    ensures
        final(out)@ == old(out)@ + action_list_sorted_json(v@.map_values(|a: MitigationAction| a@)),
{
    let ghost start = out@;
    let ghost items = v@.map_values(|a: MitigationAction| a@).map_values(|a: ActionView| action_sorted_json(a));
    push_char(out, '[');
    assert(items.take(0) =~= Seq::<Seq<char>>::empty());
    let mut i: usize = 0;
    while i < v.len()
        invariant
            i <= v@.len(),
            items == v@.map_values(|a: MitigationAction| a@).map_values(|a: ActionView| action_sorted_json(a)),
            out@ == start + seq!['['] + joined(items.take(i as int)),
        decreases v@.len() - i,
    {
        if i > 0 {
            push_char(out, ',');
        }
        push_action_sorted_json(out, &v[i]);
        assert(items.take(i + 1).drop_last() =~= items.take(i as int));
        assert(items[i as int] == action_sorted_json(v@[i as int]@));
        assert(out@ =~= start + seq!['['] + joined(items.take(i + 1)));
        i = i + 1;
    }
    assert(items.take(v@.len() as int) =~= items);
    push_char(out, ']');
    assert(out@ =~= start + action_list_sorted_json(v@.map_values(|a: MitigationAction| a@)));
}

/// The whole plan with keys sorted at every level and a blank seal.
pub fn plan_sorted_text(p: &RecoveryPlan) -> (r: String)
    ensures
        r@ == plan_sorted_json(p@),
{
    let mut out = String::new();
    out.append("{\"actions\":");
    push_action_list_sorted_json(&mut out, &p.actions);
    out.append(",\"createdAt\":");
    push_quoted(&mut out, p.created_at.as_str());
    out.append(",\"dominantBlocker\":");
    push_blocker_sorted_json(&mut out, &p.dominant_blocker);
    out.append(",\"evidence\":");
    push_evidence_list_json(&mut out, &p.evidence);
    out.append(",\"expiresAt\":");
    push_quoted(&mut out, p.expires_at.as_str());
    out.append(",\"idempotencyKeyDigest\":");
    push_quoted(&mut out, p.idempotency_key_digest.as_str());
    out.append(",\"identities\":");
    push_identities_sorted_json(&mut out, &p.identities);
    out.append(",\"integritySeal\":\"\"");
    out.append(",\"originalIntent\":");
    push_intent_sorted_json(&mut out, &p.original_intent);
    out.append(",\"planId\":");
    push_quoted(&mut out, p.plan_id.as_str());
    out.append(",\"recoveryId\":");
    push_quoted(&mut out, p.recovery_id.as_str());
    out.append(",\"schemaVersion\":");
    push_quoted(&mut out, p.schema_version.as_str());
    out.append(",\"serviceStateRevision\":");
    push_decimal(&mut out, p.service_state_revision);
    out.append("}");
    assert(out@ =~= plan_sorted_json(p@));
    out
}

/// Appends bytes.
fn append_bytes(out: &mut Vec<u8>, bytes: &[u8])
    ensures
        final(out)@ == old(out)@ + bytes@,
{
    let ghost start = out@;
    let mut i: usize = 0;
    while i < bytes.len()
        invariant
            i <= bytes@.len(),
            out@ == start + bytes@.take(i as int),
        decreases bytes@.len() - i,
    {
        out.push(bytes[i]);
        assert(bytes@.take(i + 1) =~= bytes@.take(i as int).push(bytes@[i as int]));
        assert(out@ =~= start + bytes@.take(i + 1));
        i = i + 1;
    }
    assert(bytes@.take(bytes@.len() as int) =~= bytes@);
}

/// The integrity seal of a plan under a key of at least 32 bytes: a
/// SHA-256 digest over a domain tag, the key, the sorted-key plan text with
/// a blank seal, and the key again.
pub fn seal_recovery_plan(p: &RecoveryPlan, seal_key: &[u8]) -> (r: Result<String, String>)
    ensures
        match r {
            Ok(s) => seal_key@.len() >= 32 && s@ == seal_spec(p@, seal_key@) && s@.len() == 71,
            Err(e) => seal_key@.len() < 32 && e@ == "profile_recovery_plan_invalid"@,
        },
{
    if seal_key.len() < 32 {
        return Err(owned_text("profile_recovery_plan_invalid"));
    }
    let text = plan_sorted_text(p);
    let mut bytes: Vec<u8> = Vec::new();
    append_bytes(&mut bytes, "agent-browser.profile-recovery-seal.v1".as_bytes());
    bytes.push(0u8);
    append_bytes(&mut bytes, seal_key);
    bytes.push(0u8);
    append_bytes(&mut bytes, text.as_str().as_bytes());
    bytes.push(0u8);
    append_bytes(&mut bytes, seal_key);
    assert(bytes@ =~= seal_bytes(p@, seal_key@));
    let d = sha256_digest(bytes.as_slice());
    let hex = hex_lower(d.as_slice());
    proof {
        crate::digest::lemma_hex_text_len(d@);
        reveal_strlit("sha256:");
    }
    Ok(concat2("sha256:", hex.as_str()))
}

/// Copies a string.
fn owned_text(s: &str) -> (r: String)
    ensures
        r@ == s@,
{
    crate::text::owned(s)
}

} // verus!
