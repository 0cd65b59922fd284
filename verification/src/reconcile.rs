//! Sealed profile-lease reconciliation: a plan proposes only the
//! transitions that are safe on the current evidence, and applying it
//! re-checks that evidence before any effect.

use vstd::prelude::*;
use vstd::utf8::encode_utf8;
use crate::digest::{digest_prefix, digest_prefix_spec, hex_lower, hex_text, sha256, sha256_digest};
use crate::json::{
    bool_text, decimal, opt_text, opt_u64_text, push_decimal, push_opt_text, push_opt_u64, push_quoted, push_quoted_list,
    quoted, quoted_list,
};
use crate::lease::{
    failure_label, inactive_session, inactive_session_spec, lease_collection, lease_error, lease_state_name,
    lease_state_name_spec, LeaseView, ProfileLeaseError, ProfileLeaseFailureCode, ProfileLeaseRecord,
};
use crate::lease_ops::{authorized_lease, inspect_profile_lease, is_lease_error, lease_of_authority, require_action};
use crate::model::{
    authority_is_current_spec, keys_sorted, lookup, ov, opt_eq, opt_is, AuthenticatedServicePrincipal, BrowserSession,
    Keyed, ProfileOwner, ProfileOwnerState, RuntimeOwnerPrincipalBinding, RuntimeOwnerRegistry, ServiceState,
};
use crate::plan_json::joined;
use crate::text::{concat2, is_blank, owned, push_char, str_equal, strs, trim};
use crate::time::{rfc3339_at_or_after, rfc3339_at_or_after_spec};

verus! {

/// The version written into every reconciliation plan.
pub const PROFILE_LEASE_RECONCILE_PLAN_SCHEMA_VERSION: &'static str = "agent-browser.profile-lease-reconcile-plan.v1";

/// The version written into every reconciliation receipt.
pub const PROFILE_LEASE_RECONCILE_RECEIPT_SCHEMA_VERSION: &'static str =
    "agent-browser.profile-lease-reconcile-receipt.v1";

/// One transition a plan proposes.
pub struct ProfileLeaseTransition {
    pub action: String,
    pub session_id: String,
    pub from_state: String,
    pub to_state: String,
}

/// The content of a transition.
pub struct TransitionView {
    pub action: Seq<char>,
    pub session_id: Seq<char>,
    pub from_state: Seq<char>,
    pub to_state: Seq<char>,
}

impl View for ProfileLeaseTransition {
    type V = TransitionView;

    open spec fn view(&self) -> TransitionView {
        TransitionView {
            action: self.action@,
            session_id: self.session_id@,
            from_state: self.from_state@,
            to_state: self.to_state@,
        }
    }
}

/// The views of a list of transitions.
pub open spec fn transition_views(v: Seq<ProfileLeaseTransition>) -> Seq<TransitionView> {
    v.map_values(|t: ProfileLeaseTransition| t@)
}

/// A sealed reconciliation plan.
pub struct ProfileLeaseReconcilePlan {
    pub schema_version: String,
    pub plan_id: String,
    pub lease_id: String,
    pub lease_revision: String,
    pub owner_generation: Option<u64>,
    pub principal_id: String,
    pub profile_id: String,
    pub browser_id: Option<String>,
    pub process_instance_digest: Option<String>,
    pub route_ids: Vec<String>,
    pub boot_epoch: Option<String>,
    pub proposed_transitions: Vec<ProfileLeaseTransition>,
    pub idempotency_key: String,
    pub issued_at: String,
    pub expires_at: String,
    pub effect_capable: bool,
    pub blocked_reasons: Vec<String>,
    pub seal: String,
}

/// The content of a reconciliation plan.
pub struct ReconcilePlanView {
    pub schema_version: Seq<char>,
    pub plan_id: Seq<char>,
    pub lease_id: Seq<char>,
    pub lease_revision: Seq<char>,
    pub owner_generation: Option<u64>,
    pub principal_id: Seq<char>,
    pub profile_id: Seq<char>,
    pub browser_id: Option<Seq<char>>,
    pub process_instance_digest: Option<Seq<char>>,
    pub route_ids: Seq<Seq<char>>,
    pub boot_epoch: Option<Seq<char>>,
    pub proposed_transitions: Seq<TransitionView>,
    pub idempotency_key: Seq<char>,
    pub issued_at: Seq<char>,
    pub expires_at: Seq<char>,
    pub effect_capable: bool,
    pub blocked_reasons: Seq<Seq<char>>,
    pub seal: Seq<char>,
}

impl View for ProfileLeaseReconcilePlan {
    type V = ReconcilePlanView;

    open spec fn view(&self) -> ReconcilePlanView {
        ReconcilePlanView {
            schema_version: self.schema_version@,
            plan_id: self.plan_id@,
            lease_id: self.lease_id@,
            lease_revision: self.lease_revision@,
            owner_generation: self.owner_generation,
            principal_id: self.principal_id@,
            profile_id: self.profile_id@,
            browser_id: ov(self.browser_id),
            process_instance_digest: ov(self.process_instance_digest),
            route_ids: strs(self.route_ids@),
            boot_epoch: ov(self.boot_epoch),
            proposed_transitions: transition_views(self.proposed_transitions@),
            idempotency_key: self.idempotency_key@,
            issued_at: self.issued_at@,
            expires_at: self.expires_at@,
            effect_capable: self.effect_capable,
            blocked_reasons: strs(self.blocked_reasons@),
            seal: self.seal@,
        }
    }
}

/// The record of an applied reconciliation.
pub struct ProfileLeaseReconcileReceipt {
    pub schema_version: String,
    pub idempotency_key: String,
    pub plan_id: String,
    pub lease_id: String,
    pub principal_id: String,
    pub applied_at: String,
    pub replayed: bool,
    pub transition_count: usize,
    pub resulting_lease_revision: String,
}

impl Keyed for ProfileLeaseReconcileReceipt {
    open spec fn key_view(&self) -> Seq<char> {
        self.idempotency_key@
    }

    fn key(&self) -> (k: &str) {
        self.idempotency_key.as_str()
    }
}

/// A transition as sorted-key JSON.
pub open spec fn transition_json(t: TransitionView) -> Seq<char> {
    "{\"action\":"@ + quoted(t.action) + ",\"fromState\":"@ + quoted(t.from_state) + ",\"sessionId\":"@ + quoted(
        t.session_id,
    ) + ",\"toState\":"@ + quoted(t.to_state) + "}"@
}

/// A list of transitions as JSON.
pub open spec fn transitions_json(v: Seq<TransitionView>) -> Seq<char> {
    seq!['['] + joined(v.map_values(|t: TransitionView| transition_json(t))) + seq![']']
}

/// A plan as sorted-key JSON with a blank seal.
pub open spec fn plan_sorted_json(p: ReconcilePlanView) -> Seq<char> {
    "{\"blockedReasons\":"@ + quoted_list(p.blocked_reasons) + ",\"bootEpoch\":"@ + opt_text(p.boot_epoch)
        + ",\"browserId\":"@ + opt_text(p.browser_id) + ",\"effectCapable\":"@ + bool_text(p.effect_capable)
        + ",\"expiresAt\":"@ + quoted(p.expires_at) + ",\"idempotencyKey\":"@ + quoted(p.idempotency_key)
        + ",\"issuedAt\":"@ + quoted(p.issued_at) + ",\"leaseId\":"@ + quoted(p.lease_id) + ",\"leaseRevision\":"@
        + quoted(p.lease_revision) + ",\"ownerGeneration\":"@ + opt_u64_text(p.owner_generation) + ",\"planId\":"@
        + quoted(p.plan_id) + ",\"principalId\":"@ + quoted(p.principal_id) + ",\"processInstanceDigest\":"@ + opt_text(
        p.process_instance_digest,
    ) + ",\"profileId\":"@ + quoted(p.profile_id) + ",\"proposedTransitions\":"@ + transitions_json(
        p.proposed_transitions,
    ) + ",\"routeIds\":"@ + quoted_list(p.route_ids) + ",\"schemaVersion\":"@ + quoted(p.schema_version)
        + ",\"seal\":\"\"}"@
}

/// The bytes a plan seal digests.
pub open spec fn seal_bytes(p: ReconcilePlanView, key: Seq<u8>) -> Seq<u8> {
    encode_utf8("agent-browser.profile-lease-reconcile-seal.v1"@) + seq![0u8] + key + seq![0u8] + encode_utf8(
        plan_sorted_json(p),
    ) + seq![0u8] + key
}

/// The seal of a plan under a key.
pub open spec fn seal_spec(p: ReconcilePlanView, key: Seq<u8>) -> Seq<char> {
    "sha256:"@ + hex_text(sha256(seal_bytes(p, key)))
}

/// Appends a transition as sorted-key JSON.
fn push_transition_json(out: &mut String, t: &ProfileLeaseTransition)
    ensures
        final(out)@ == old(out)@ + transition_json(t@),
{
    let ghost start = out@;
    out.append("{\"action\":");
    push_quoted(out, t.action.as_str());
    out.append(",\"fromState\":");
    push_quoted(out, t.from_state.as_str());
    out.append(",\"sessionId\":");
    push_quoted(out, t.session_id.as_str());
    out.append(",\"toState\":");
    push_quoted(out, t.to_state.as_str());
    out.append("}");
    assert(out@ =~= start + transition_json(t@));
}

/// Appends a list of transitions as JSON.
fn push_transitions_json(out: &mut String, v: &Vec<ProfileLeaseTransition>)
    ensures
        final(out)@ == old(out)@ + transitions_json(transition_views(v@)),
{
    let ghost start = out@;
    let ghost items = transition_views(v@).map_values(|t: TransitionView| transition_json(t));
    push_char(out, '[');
    let mut i: usize = 0;
    while i < v.len()
        invariant
            i <= v@.len(),
            items == transition_views(v@).map_values(|t: TransitionView| transition_json(t)),
            out@ == start + seq!['['] + joined(items.take(i as int)),
        decreases v@.len() - i,
    {
        if i > 0 {
            push_char(out, ',');
        }
        push_transition_json(out, &v[i]);
        assert(items.take(i + 1).drop_last() =~= items.take(i as int));
        assert(items[i as int] == transition_json(v@[i as int]@));
        assert(out@ =~= start + seq!['['] + joined(items.take(i + 1)));
        i = i + 1;
    }
    assert(items.take(v@.len() as int) =~= items);
    push_char(out, ']');
}

/// A plan as sorted-key JSON with a blank seal.
fn plan_sorted_text(p: &ProfileLeaseReconcilePlan) -> (r: String)
    ensures
        r@ == plan_sorted_json(p@),
{
    let mut out = String::new();
    out.append("{\"blockedReasons\":");
    push_quoted_list(&mut out, &p.blocked_reasons);
    out.append(",\"bootEpoch\":");
    push_opt_text(&mut out, &p.boot_epoch);
    out.append(",\"browserId\":");
    push_opt_text(&mut out, &p.browser_id);
    out.append(",\"effectCapable\":");
    if p.effect_capable {
        out.append("true");
    } else {
        out.append("false");
    }
    out.append(",\"expiresAt\":");
    push_quoted(&mut out, p.expires_at.as_str());
    out.append(",\"idempotencyKey\":");
    push_quoted(&mut out, p.idempotency_key.as_str());
    out.append(",\"issuedAt\":");
    push_quoted(&mut out, p.issued_at.as_str());
    out.append(",\"leaseId\":");
    push_quoted(&mut out, p.lease_id.as_str());
    out.append(",\"leaseRevision\":");
    push_quoted(&mut out, p.lease_revision.as_str());
    out.append(",\"ownerGeneration\":");
    push_opt_u64(&mut out, p.owner_generation);
    out.append(",\"planId\":");
    push_quoted(&mut out, p.plan_id.as_str());
    out.append(",\"principalId\":");
    push_quoted(&mut out, p.principal_id.as_str());
    out.append(",\"processInstanceDigest\":");
    push_opt_text(&mut out, &p.process_instance_digest);
    out.append(",\"profileId\":");
    push_quoted(&mut out, p.profile_id.as_str());
    out.append(",\"proposedTransitions\":");
    push_transitions_json(&mut out, &p.proposed_transitions);
    out.append(",\"routeIds\":");
    push_quoted_list(&mut out, &p.route_ids);
    out.append(",\"schemaVersion\":");
    push_quoted(&mut out, p.schema_version.as_str());
    out.append(",\"seal\":\"\"}");
    assert(out@ =~= plan_sorted_json(p@));
    out
}

/// Appends bytes.
fn append_bytes(out: &mut Vec<u8>, bytes: &[u8])
    ensures
        final(out)@ == old(out)@ + bytes@,
{
    let ghost start = out@;
    let mut i: usize = 0;
    while i < bytes.len()
        invariant
            i <= bytes@.len(),
            out@ == start + bytes@.take(i as int),
        decreases bytes@.len() - i,
    {
        out.push(bytes[i]);
        assert(bytes@.take(i + 1) =~= bytes@.take(i as int).push(bytes@[i as int]));
        i = i + 1;
    }
    assert(bytes@.take(bytes@.len() as int) =~= bytes@);
}

/// The seal of a plan: a SHA-256 digest over a domain tag, the key, the
/// sorted-key plan with a blank seal, and the key again.
pub fn seal_reconcile_plan(p: &ProfileLeaseReconcilePlan, seal_key: &[u8]) -> (r: String)
    ensures
        r@ == seal_spec(p@, seal_key@),
        r@.len() == 71,
{
    let text = plan_sorted_text(p);
    let mut bytes: Vec<u8> = Vec::new();
    append_bytes(&mut bytes, "agent-browser.profile-lease-reconcile-seal.v1".as_bytes());
    bytes.push(0u8);
    append_bytes(&mut bytes, seal_key);
    bytes.push(0u8);
    append_bytes(&mut bytes, text.as_str().as_bytes());
    bytes.push(0u8);
    append_bytes(&mut bytes, seal_key);
    assert(bytes@ =~= seal_bytes(p@, seal_key@));
    let d = sha256_digest(bytes.as_slice());
    let hex = hex_lower(d.as_slice());
    proof {
        crate::digest::lemma_hex_text_len(d@);
        reveal_strlit("sha256:");
    }
    concat2("sha256:", hex.as_str())
}

/// Whether a session is stale work of an authority on its profile.
pub open spec fn stale_candidate(s: BrowserSession, a: AuthenticatedServicePrincipal) -> bool {
    opt_is(s.profile_id, a.profile_id@) && opt_is(s.principal_id, a.principal_id@) && inactive_session_spec(s.lease)
}

/// The transition that confirms a stale session released.
pub open spec fn stale_transition(s: BrowserSession) -> TransitionView {
    TransitionView {
        action: "confirm_stale_session_released"@,
        session_id: s.id@,
        from_state: lease_state_name_spec(s.lease),
        to_state: "released"@,
    }
}

/// The stale sessions of an authority, as transitions, in order.
pub open spec fn stale_transitions(sessions: Seq<BrowserSession>, a: AuthenticatedServicePrincipal) -> Seq<TransitionView> {
    sessions.filter(|s: BrowserSession| stale_candidate(s, a)).map_values(|s: BrowserSession| stale_transition(s))
}

/// Whether a binding belongs to an authority.
pub open spec fn binding_of(b: RuntimeOwnerPrincipalBinding, a: AuthenticatedServicePrincipal) -> bool {
    b.principal_id@ == a.principal_id@ && b.profile_id@ == a.profile_id@ && b.capability_id@ == a.capability_id@
        && b.provenance == a.provenance
}

/// The first binding of an authority for a lease's profile identity.
pub open spec fn first_binding_for_lease(
    bs: Seq<RuntimeOwnerPrincipalBinding>,
    a: AuthenticatedServicePrincipal,
    digest: Option<Seq<char>>,
) -> Option<RuntimeOwnerPrincipalBinding>
    decreases bs.len(),
{
    if bs.len() == 0 {
        None
    } else if binding_of(bs[0], a) && digest == Some(bs[0].profile_identity_digest@) {
        Some(bs[0])
    } else {
        first_binding_for_lease(bs.drop_first(), a, digest)
    }
}

/// The transition that refreshes a principal's stale owner binding, when
/// the lease is blocked only on that and the owner it names is ready, newer
/// and the one the lease observes.
pub open spec fn refresh_transition(state: ServiceState, a: AuthenticatedServicePrincipal, v: LeaseView) -> Seq<
    TransitionView,
> {
    if v.blocking_identity_axes == seq!["owner_generation_or_binding_mismatch"@] {
        match first_binding_for_lease(state.runtime_owner_registry.principal_bindings@, a, v.profile_identity_digest) {
            Some(b) => match lookup(state.runtime_owner_registry.owners@, b.profile_identity_digest@) {
                Some(o) => if o.state == ProfileOwnerState::Ready && o.owner_generation > b.owner_generation
                    && v.owner_generation == Some(o.owner_generation) && v.browser_id == Some(o.browser_id@)
                    && v.process_instance_digest == Some(o.process_instance_digest@) {
                    seq![
                        TransitionView {
                            action: "refresh_principal_owner_binding"@,
                            session_id: o.daemon_session_route@,
                            from_state: decimal(b.owner_generation as nat),
                            to_state: decimal(o.owner_generation as nat),
                        },
                    ]
                } else {
                    Seq::empty()
                },
                None => Seq::empty(),
            },
            None => Seq::empty(),
        }
    } else {
        Seq::empty()
    }
}

/// The transitions a plan proposes: the authority's stale sessions to
/// confirm released, then any binding refresh.
pub open spec fn planned_transitions(state: ServiceState, a: AuthenticatedServicePrincipal, v: LeaseView) -> Seq<
    TransitionView,
> {
    stale_transitions(state.sessions@, a) + refresh_transition(state, a, v)
}

/// A boot epoch unless it is blank.
pub open spec fn usable_epoch(e: Option<Seq<char>>) -> Option<Seq<char>> {
    match e {
        Some(x) => if trim(x).len() > 0 {
            Some(x)
        } else {
            None
        },
        None => None,
    }
}

/// Why a plan cannot take effect: no boot epoch to bind, no safe transition.
pub open spec fn blocked_reasons_spec(boot: Option<Seq<char>>, transitions: Seq<TransitionView>) -> Seq<Seq<char>> {
    (if boot is None {
        seq!["boot_epoch_unavailable"@]
    } else {
        Seq::empty()
    }) + (if transitions.len() == 0 {
        seq!["no_safe_reconciliation_transition"@]
    } else {
        Seq::empty()
    })
}

/// The text a plan id digests: the lease, its revision and the idempotency key, joined by NUL.
pub open spec fn plan_id_payload(lease_id: Seq<char>, revision: Seq<char>, idempotency_key: Seq<char>) -> Seq<char> {
    lease_id + seq!['\0'] + revision + seq!['\0'] + idempotency_key
}

/// The plan reconciliation proposes for a lease, before it is sealed.
pub open spec fn unsealed_plan(
    state: ServiceState,
    v: LeaseView,
    a: AuthenticatedServicePrincipal,
    lease_id: Seq<char>,
    expected_revision: Seq<char>,
    now: Seq<char>,
    expires_at: Seq<char>,
    boot_epoch: Option<Seq<char>>,
    idempotency_key: Seq<char>,
) -> ReconcilePlanView {
    let transitions = planned_transitions(state, a, v);
    let boot = usable_epoch(boot_epoch);
    let blocked = blocked_reasons_spec(boot, transitions);
    ReconcilePlanView {
        schema_version: PROFILE_LEASE_RECONCILE_PLAN_SCHEMA_VERSION@,
        plan_id: "profile-lease-reconcile-plan-v1:"@ + digest_prefix_spec(
            plan_id_payload(lease_id, expected_revision, idempotency_key),
        ),
        lease_id: v.id,
        lease_revision: v.lease_revision,
        owner_generation: v.owner_generation,
        principal_id: a.principal_id@,
        profile_id: a.profile_id@,
        browser_id: v.browser_id,
        process_instance_digest: v.process_instance_digest,
        route_ids: v.route_ids,
        boot_epoch: boot,
        proposed_transitions: transitions,
        idempotency_key,
        issued_at: now,
        expires_at,
        effect_capable: blocked.len() == 0,
        blocked_reasons: blocked,
        seal: Seq::empty(),
    }
}

/// A plan with its seal.
pub open spec fn sealed(p: ReconcilePlanView, key: Seq<u8>) -> ReconcilePlanView {
    ReconcilePlanView { seal: seal_spec(p, key), ..p }
}

/// Whether `v` is the lease an authority may reconcile at a revision.
pub open spec fn reconcilable_lease(
    state: ServiceState,
    v: LeaseView,
    lease_id: Seq<char>,
    expected_revision: Seq<char>,
    a: AuthenticatedServicePrincipal,
    now: Seq<char>,
) -> bool {
    &&& authority_is_current_spec(state.service_principals, a)
    &&& lease_collection(state, now).count(v) > 0
    &&& v.id == lease_id
    &&& v.lease_revision == expected_revision
    &&& lease_of_authority(v, a)
}

/// Why a current authority cannot reach a lease at a revision.
pub open spec fn lease_access_failure(
    state: ServiceState,
    lease_id: Seq<char>,
    expected_revision: Seq<char>,
    a: AuthenticatedServicePrincipal,
    now: Seq<char>,
    e: ProfileLeaseError,
) -> bool {
    ||| !authority_is_current_spec(state.service_principals, a) && is_lease_error(
        e,
        ProfileLeaseFailureCode::AuthorityMismatch,
        lease_id,
    )
    ||| authority_is_current_spec(state.service_principals, a) && (forall|v: LeaseView| #[trigger] lease_collection(state, now).count(v) > 0 ==> v.id != lease_id) && is_lease_error(
        e,
        ProfileLeaseFailureCode::LeaseNotFound,
        lease_id,
    )
    ||| authority_is_current_spec(state.service_principals, a) && exists|v: LeaseView|
        #[trigger] lease_collection(state, now).count(v) > 0 && v.id == lease_id && ((v.lease_revision
            != expected_revision && is_lease_error(e, ProfileLeaseFailureCode::RevisionMismatch, lease_id)) || (
        v.lease_revision == expected_revision && !lease_of_authority(v, a) && is_lease_error(
            e,
            ProfileLeaseFailureCode::AuthorityMismatch,
            lease_id,
        )))
}

/// Why a plan is refused once its lease is reachable: the lease must
/// authorize planning, the key and idempotency key must be usable, and the
/// plan must not already be expired.
pub open spec fn plan_refusal(
    v: LeaseView,
    lease_id: Seq<char>,
    now: Seq<char>,
    expires_at: Seq<char>,
    idempotency_key: Seq<char>,
    seal_key: Seq<u8>,
) -> Option<ProfileLeaseFailureCode> {
    if !v.authorized_actions.contains("reconcile_plan"@) {
        Some(ProfileLeaseFailureCode::ActionNotAuthorized)
    } else if seal_key.len() < 32 || trim(idempotency_key).len() == 0 {
        Some(ProfileLeaseFailureCode::PlanInvalid)
    } else {
        match rfc3339_at_or_after_spec(now, expires_at) {
            Some(true) => Some(ProfileLeaseFailureCode::PlanExpired),
            Some(false) => None,
            None => Some(ProfileLeaseFailureCode::PlanInvalid),
        }
    }
}

/// Whether an error is the refusal given, on a lease.
pub open spec fn refused_with(e: ProfileLeaseError, refusal: Option<ProfileLeaseFailureCode>, lease_id: Seq<char>) -> bool {
    match refusal {
        Some(code) => is_lease_error(e, code, lease_id),
        None => false,
    }
}

/// The stale sessions of an authority, as transitions.
fn stale_session_transitions(state: &ServiceState, a: &AuthenticatedServicePrincipal) -> (r: Vec<ProfileLeaseTransition>)
    ensures
        transition_views(r@) == stale_transitions(state.sessions@, *a),
{
    let sessions = &state.sessions;
    let ghost pred = |s: BrowserSession| stale_candidate(s, *a);
    let ghost f = |s: BrowserSession| stale_transition(s);
    let mut out: Vec<ProfileLeaseTransition> = Vec::new();
    let mut i: usize = 0;
    while i < sessions.len()
        invariant
            i <= sessions@.len(),
            sessions == &state.sessions,
            pred == (|s: BrowserSession| stale_candidate(s, *a)),
            f == (|s: BrowserSession| stale_transition(s)),
            transition_views(out@) == sessions@.take(i as int).filter(pred).map_values(f),
        decreases sessions@.len() - i,
    {
        proof {
            crate::seqs::lemma_filter_take_step(sessions@, pred, i as int);
        }
        let s = &sessions[i];
        if opt_eq(&s.profile_id, a.profile_id.as_str()) && opt_eq(&s.principal_id, a.principal_id.as_str())
            && inactive_session(s.lease) {
            let t = ProfileLeaseTransition {
                action: owned("confirm_stale_session_released"),
                session_id: s.id.clone(),
                from_state: owned(lease_state_name(s.lease)),
                to_state: owned("released"),
            };
            let ghost before = out@;
            out.push(t);
            assert(transition_views(out@) =~= transition_views(before).push(stale_transition(*s)));
        }
        assert(sessions@.take(i + 1).filter(pred).map_values(f) =~= transition_views(out@));
        i = i + 1;
    }
    assert(sessions@.take(sessions@.len() as int) =~= sessions@);
    out
}

/// The first binding of an authority for a lease's profile identity.
fn find_binding_for_lease<'a>(
    state: &'a ServiceState,
    a: &AuthenticatedServicePrincipal,
    digest: &Option<String>,
) -> (r: Option<&'a RuntimeOwnerPrincipalBinding>)
    ensures
        match r {
            Some(b) => first_binding_for_lease(state.runtime_owner_registry.principal_bindings@, *a, ov(*digest))
                == Some(*b),
            None => first_binding_for_lease(state.runtime_owner_registry.principal_bindings@, *a, ov(*digest)) is None,
        },
{
    let bs = &state.runtime_owner_registry.principal_bindings;
    let mut i: usize = 0;
    assert(bs@.skip(0) =~= bs@);
    while i < bs.len()
        invariant
            i <= bs@.len(),
            bs == &state.runtime_owner_registry.principal_bindings,
            first_binding_for_lease(bs@, *a, ov(*digest)) == first_binding_for_lease(bs@.skip(i as int), *a, ov(*digest)),
        decreases bs@.len() - i,
    {
        assert(bs@.skip(i as int)[0] == bs@[i as int]);
        assert(bs@.skip(i as int).drop_first() =~= bs@.skip(i + 1));
        let b = &bs[i];
        if str_equal(b.principal_id.as_str(), a.principal_id.as_str()) && str_equal(
            b.profile_id.as_str(),
            a.profile_id.as_str(),
        ) && str_equal(b.capability_id.as_str(), a.capability_id.as_str()) && b.provenance == a.provenance
            && opt_eq(digest, b.profile_identity_digest.as_str()) {
            return Some(b);
        }
        i = i + 1;
    }
    None
}

/// The decimal text of a number.
fn decimal_string(n: u64) -> (r: String)
    ensures
        r@ == decimal(n as nat),
{
    let mut s = String::new();
    push_decimal(&mut s, n);
    s
}

/// The refresh transition a lease's blocking evidence allows, if any.
fn refresh_transitions(state: &ServiceState, a: &AuthenticatedServicePrincipal, lease: &ProfileLeaseRecord) -> (r: Vec<
    ProfileLeaseTransition,
>)
    ensures
        transition_views(r@) == refresh_transition(*state, *a, lease@),
{
    let mut out: Vec<ProfileLeaseTransition> = Vec::new();
    let axes = &lease.blocking_identity_axes;
    if !(axes.len() == 1 && str_equal(axes[0].as_str(), "owner_generation_or_binding_mismatch")) {
        proof {
            if lease@.blocking_identity_axes == seq!["owner_generation_or_binding_mismatch"@] {
                assert(strs(axes@).len() == 1);
                assert(axes@.len() == 1);
                assert(strs(axes@)[0] == axes@[0]@);
            }
        }
        assert(transition_views(out@) =~= Seq::<TransitionView>::empty());
        return out;
    }
    assert(lease@.blocking_identity_axes =~= seq!["owner_generation_or_binding_mismatch"@]);
    let b = match find_binding_for_lease(state, a, &lease.profile_identity_digest) {
        Some(b) => b,
        None => {
            assert(transition_views(out@) =~= Seq::<TransitionView>::empty());
            return out;
        },
    };
    let o = match crate::model::get_keyed(&state.runtime_owner_registry.owners, b.profile_identity_digest.as_str()) {
        Some(o) => o,
        None => {
            assert(transition_views(out@) =~= Seq::<TransitionView>::empty());
            return out;
        },
    };
    let same_generation = match lease.owner_generation {
        Some(g) => g == o.owner_generation,
        None => false,
    };
    if o.state == ProfileOwnerState::Ready && o.owner_generation > b.owner_generation && same_generation && opt_eq(
        &lease.browser_id,
        o.browser_id.as_str(),
    ) && opt_eq(&lease.process_instance_digest, o.process_instance_digest.as_str()) {
        out.push(
            ProfileLeaseTransition {
                action: owned("refresh_principal_owner_binding"),
                session_id: o.daemon_session_route.clone(),
                from_state: decimal_string(b.owner_generation),
                to_state: decimal_string(o.owner_generation),
            },
        );
    }
    assert(transition_views(out@) =~= refresh_transition(*state, *a, lease@));
    out
}

/// Proposes a sealed reconciliation for a lease an authority holds at an
/// exact revision: stale sessions of the authority to confirm released and,
/// when the lease is blocked only on a stale owner binding, the binding to
/// refresh. The plan is effect-capable only with a boot epoch and at least
/// one transition.
#[verifier::rlimit(60)]
pub fn plan_profile_lease_reconciliation(
    state: &ServiceState,
    lease_id: &str,
    expected_revision: &str,
    authority: &AuthenticatedServicePrincipal,
    now: &str,
    expires_at: &str,
    boot_epoch: Option<String>,
    idempotency_key: String,
    seal_key: &[u8],
) -> (r: Result<ProfileLeaseReconcilePlan, ProfileLeaseError>)
    ensures
        match r {
            Ok(p) => exists|v: LeaseView|
                #[trigger] reconcilable_lease(*state, v, lease_id@, expected_revision@, *authority, now@) && plan_refusal(
                    v,
                    lease_id@,
                    now@,
                    expires_at@,
                    idempotency_key@,
                    seal_key@,
                ) is None && p@ == sealed(
                    unsealed_plan(
                        *state,
                        v,
                        *authority,
                        lease_id@,
                        expected_revision@,
                        now@,
                        expires_at@,
                        ov(boot_epoch),
                        idempotency_key@,
                    ),
                    seal_key@,
                ),
            Err(e) => lease_access_failure(*state, lease_id@, expected_revision@, *authority, now@, e) || exists|v: LeaseView|
                #[trigger] reconcilable_lease(*state, v, lease_id@, expected_revision@, *authority, now@) && refused_with(
                    e,
                    plan_refusal(v, lease_id@, now@, expires_at@, idempotency_key@, seal_key@),
                    lease_id@,
                ),
        },
{
    let lease = match authorized_lease(state, lease_id, expected_revision, authority, now) {
        Ok(l) => l,
        Err(e) => return Err(e),
    };
    let ghost v = lease@;
    assert(reconcilable_lease(*state, v, lease_id@, expected_revision@, *authority, now@));
    match require_action(&lease, "reconcile_plan") {
        Ok(()) => {},
        Err(e) => {
            assert(lease.id@ == lease_id@);
            return Err(e);
        },
    }
    if seal_key.len() < 32 || is_blank(idempotency_key.as_str()) {
        return Err(lease_error(ProfileLeaseFailureCode::PlanInvalid, lease_id));
    }
    match rfc3339_at_or_after(now, expires_at) {
        Some(true) => return Err(lease_error(ProfileLeaseFailureCode::PlanExpired, lease_id)),
        Some(false) => {},
        None => return Err(lease_error(ProfileLeaseFailureCode::PlanInvalid, lease_id)),
    }
    let boot = match boot_epoch {
        Some(e) => if is_blank(e.as_str()) {
            None
        } else {
            Some(e)
        },
        None => None,
    };
    let mut transitions = stale_session_transitions(state, authority);
    let mut refresh = refresh_transitions(state, authority, &lease);
    let ghost (t1, t2) = (transition_views(transitions@), transition_views(refresh@));
    let ghost (raw1, raw2) = (transitions@, refresh@);
    transitions.append(&mut refresh);
    assert(transitions@ =~= raw1 + raw2);
    assert(transition_views(transitions@) =~= t1 + t2);
    let mut blocked: Vec<String> = Vec::new();
    if boot.is_none() {
        blocked.push(owned("boot_epoch_unavailable"));
    }
    if transitions.len() == 0 {
        blocked.push(owned("no_safe_reconciliation_transition"));
    }
    assert(strs(blocked@) =~= blocked_reasons_spec(ov(boot), transition_views(transitions@)));
    let effect_capable = blocked.len() == 0;
    let mut payload = owned(lease_id);
    push_char(&mut payload, '\0');
    let payload = concat2(payload.as_str(), expected_revision);
    let mut payload = payload;
    push_char(&mut payload, '\0');
    let payload = concat2(payload.as_str(), idempotency_key.as_str());
    assert(payload@ =~= plan_id_payload(lease_id@, expected_revision@, idempotency_key@));
    let prefix = digest_prefix(payload.as_str());
    let mut plan = ProfileLeaseReconcilePlan {
        schema_version: owned(PROFILE_LEASE_RECONCILE_PLAN_SCHEMA_VERSION),
        plan_id: concat2("profile-lease-reconcile-plan-v1:", prefix.as_str()),
        lease_id: lease.id,
        lease_revision: lease.lease_revision,
        owner_generation: lease.owner_generation,
        principal_id: authority.principal_id.clone(),
        profile_id: authority.profile_id.clone(),
        browser_id: lease.browser_id,
        process_instance_digest: lease.process_instance_digest,
        route_ids: lease.route_ids,
        boot_epoch: boot,
        proposed_transitions: transitions,
        idempotency_key,
        issued_at: owned(now),
        expires_at: owned(expires_at),
        effect_capable,
        blocked_reasons: blocked,
        seal: String::new(),
    };
    assert(plan@ =~= unsealed_plan(
        *state,
        v,
        *authority,
        lease_id@,
        expected_revision@,
        now@,
        expires_at@,
        ov(boot_epoch),
        plan.idempotency_key@,
    ));
    let seal = seal_reconcile_plan(&plan, seal_key);
    plan.seal = seal;
    Ok(plan)
}

/// Whether a transition refreshes an owner binding (every other transition
/// confirms a session released).
pub open spec fn is_refresh(t: TransitionView) -> bool {
    t.action == "refresh_principal_owner_binding"@
}

/// How many refresh transitions a list holds.
pub open spec fn refresh_count(ts: Seq<TransitionView>) -> nat
    decreases ts.len(),
{
    if ts.len() == 0 {
        0
    } else {
        refresh_count(ts.drop_last()) + if is_refresh(ts.last()) {
            1nat
        } else {
            0nat
        }
    }
}

/// How many session transitions of a list name session `k`.
pub open spec fn session_count(ts: Seq<TransitionView>, k: Seq<char>) -> nat
    decreases ts.len(),
{
    if ts.len() == 0 {
        0
    } else {
        session_count(ts.drop_last(), k) + if !is_refresh(ts.last()) && ts.last().session_id == k {
            1nat
        } else {
            0nat
        }
    }
}

/// The first binding of an authority.
pub open spec fn first_binding_of(bs: Seq<RuntimeOwnerPrincipalBinding>, a: AuthenticatedServicePrincipal) -> Option<
    RuntimeOwnerPrincipalBinding,
>
    decreases bs.len(),
{
    if bs.len() == 0 {
        None
    } else if binding_of(bs[0], a) {
        Some(bs[0])
    } else {
        first_binding_of(bs.drop_first(), a)
    }
}

/// Whether a transition still holds on the state: a refresh names the
/// authority's binding, its owner's generations and route, and a ready
/// owner; a confirmation names a stale session of the authority.
pub open spec fn transition_valid(state: ServiceState, a: AuthenticatedServicePrincipal, t: TransitionView) -> bool {
    if is_refresh(t) {
        match first_binding_of(state.runtime_owner_registry.principal_bindings@, a) {
            Some(b) => match lookup(state.runtime_owner_registry.owners@, b.profile_identity_digest@) {
                Some(o) => decimal(b.owner_generation as nat) == t.from_state && decimal(o.owner_generation as nat)
                    == t.to_state && o.daemon_session_route@ == t.session_id && o.state == ProfileOwnerState::Ready,
                None => false,
            },
            None => false,
        }
    } else {
        match lookup(state.sessions@, t.session_id) {
            Some(s) => stale_candidate(s, a) && t.action == "confirm_stale_session_released"@,
            None => false,
        }
    }
}

/// The binding refresh a plan asks of the owner registry: the binding's
/// profile identity and the owner generation it moves to.
pub open spec fn refresh_request(
    state: ServiceState,
    a: AuthenticatedServicePrincipal,
    ts: Seq<TransitionView>,
) -> Option<(Seq<char>, u64)> {
    if refresh_count(ts) == 0 {
        None
    } else {
        match first_binding_of(state.runtime_owner_registry.principal_bindings@, a) {
            Some(b) => match lookup(state.runtime_owner_registry.owners@, b.profile_identity_digest@) {
                Some(o) => Some((b.profile_identity_digest@, o.owner_generation)),
                None => None,
            },
            None => None,
        }
    }
}

/// Why applying a plan is refused before its lease is read, if it is: a
/// stale authority, a replay for another principal, a short key, a broken
/// seal, a blocked plan, an expired or unreadable expiry, another boot.
pub open spec fn pre_lease_refusal(
    state: ServiceState,
    p: ReconcilePlanView,
    a: AuthenticatedServicePrincipal,
    now: Seq<char>,
    boot: Option<Seq<char>>,
    key: Seq<u8>,
) -> Option<ProfileLeaseFailureCode> {
    if !authority_is_current_spec(state.service_principals, a) {
        Some(ProfileLeaseFailureCode::AuthorityMismatch)
    } else if lookup(state.profile_lease_reconcile_receipts@, p.idempotency_key) is Some {
        if lookup(state.profile_lease_reconcile_receipts@, p.idempotency_key)->0.principal_id@ != a.principal_id@ {
            Some(ProfileLeaseFailureCode::AuthorityMismatch)
        } else {
            None
        }
    } else if key.len() < 32 || p.seal != seal_spec(p, key) || !p.effect_capable {
        Some(ProfileLeaseFailureCode::PlanInvalid)
    } else {
        match rfc3339_at_or_after_spec(now, p.expires_at) {
            Some(true) => Some(ProfileLeaseFailureCode::PlanExpired),
            None => Some(ProfileLeaseFailureCode::PlanInvalid),
            Some(false) => if p.boot_epoch != boot {
                Some(ProfileLeaseFailureCode::BootEpochMismatch)
            } else {
                None
            },
        }
    }
}

/// Why applying a plan is refused once its lease is read, if it is: the
/// plan must still describe the lease and authority, ask for at most one
/// binding refresh, and every transition must still hold.
pub open spec fn post_lease_refusal(
    state: ServiceState,
    p: ReconcilePlanView,
    v: LeaseView,
    a: AuthenticatedServicePrincipal,
) -> Option<ProfileLeaseFailureCode> {
    if p.owner_generation != v.owner_generation || p.principal_id != a.principal_id@ || p.profile_id != a.profile_id@
        || p.browser_id != v.browser_id || p.process_instance_digest != v.process_instance_digest || p.route_ids
        != v.route_ids {
        Some(ProfileLeaseFailureCode::PlanInvalid)
    } else if refresh_count(p.proposed_transitions) > 1 || exists|i: int|
        0 <= i < p.proposed_transitions.len() && !transition_valid(state, a, #[trigger] p.proposed_transitions[i]) {
        Some(ProfileLeaseFailureCode::PlanInvalid)
    } else {
        None
    }
}

/// Whether a plan still describes its lease and authority.
pub open spec fn plan_matches_lease(p: ReconcilePlanView, v: LeaseView, a: AuthenticatedServicePrincipal) -> bool {
    p.owner_generation == v.owner_generation && p.principal_id == a.principal_id@ && p.profile_id == a.profile_id@
        && p.browser_id == v.browser_id && p.process_instance_digest == v.process_instance_digest && p.route_ids
        == v.route_ids
}

/// A work-lease revision moved forward `n` times.
pub open spec fn bumped(r: u64, n: nat) -> u64
    decreases n,
{
    if n == 0 {
        r
    } else {
        crate::lease_ops::next_work_revision(bumped(r, (n - 1) as nat))
    }
}

/// A session confirmed released `n` times at `now` on boot `boot`.
pub open spec fn reconciled_session(x: BrowserSession, o: BrowserSession, n: nat, now: Seq<char>, boot: Option<Seq<char>>) -> bool {
    &&& x == BrowserSession {
        lease: crate::model::LeaseState::Released,
        expires_at: x.expires_at,
        last_lease_observed_at: x.last_lease_observed_at,
        boot_epoch: x.boot_epoch,
        work_lease_revision: bumped(o.work_lease_revision, n),
        ..o
    }
    &&& ov(x.expires_at) == Some(now)
    &&& ov(x.last_lease_observed_at) == Some(now)
    &&& ov(x.boot_epoch) == boot
}

/// What applying a plan does.
pub enum ReconcileApplication {
    /// The plan was applied before; its receipt, marked replayed.
    Replayed(ProfileLeaseReconcileReceipt),
    /// The sessions are confirmed released; the owner binding the registry
    /// must still refresh, by profile identity and owner generation, if any.
    Applied(Option<(String, u64)>),
}

/// A receipt marked replayed, otherwise the same.
pub open spec fn replay_copy(x: ProfileLeaseReconcileReceipt, r: ProfileLeaseReconcileReceipt) -> bool {
    &&& r.replayed
    &&& r.schema_version@ == x.schema_version@
    &&& r.idempotency_key@ == x.idempotency_key@
    &&& r.plan_id@ == x.plan_id@
    &&& r.lease_id@ == x.lease_id@
    &&& r.principal_id@ == x.principal_id@
    &&& r.applied_at@ == x.applied_at@
    &&& r.transition_count == x.transition_count
    &&& r.resulting_lease_revision@ == x.resulting_lease_revision@
}

/// A copy of a receipt marked replayed.
fn replayed_copy(x: &ProfileLeaseReconcileReceipt) -> (r: ProfileLeaseReconcileReceipt)
    ensures
        replay_copy(*x, r),
{
    ProfileLeaseReconcileReceipt {
        schema_version: x.schema_version.clone(),
        idempotency_key: x.idempotency_key.clone(),
        plan_id: x.plan_id.clone(),
        lease_id: x.lease_id.clone(),
        principal_id: x.principal_id.clone(),
        applied_at: x.applied_at.clone(),
        replayed: true,
        transition_count: x.transition_count,
        resulting_lease_revision: x.resulting_lease_revision.clone(),
    }
}

/// The first binding of an authority.
fn find_binding_of<'a>(state: &'a ServiceState, a: &AuthenticatedServicePrincipal) -> (r: Option<
    &'a RuntimeOwnerPrincipalBinding,
>)
    ensures
        match r {
            Some(b) => first_binding_of(state.runtime_owner_registry.principal_bindings@, *a) == Some(*b),
            None => first_binding_of(state.runtime_owner_registry.principal_bindings@, *a) is None,
        },
{
    let bs = &state.runtime_owner_registry.principal_bindings;
    let mut i: usize = 0;
    assert(bs@.skip(0) =~= bs@);
    while i < bs.len()
        invariant
            i <= bs@.len(),
            bs == &state.runtime_owner_registry.principal_bindings,
            first_binding_of(bs@, *a) == first_binding_of(bs@.skip(i as int), *a),
        decreases bs@.len() - i,
    {
        assert(bs@.skip(i as int)[0] == bs@[i as int]);
        assert(bs@.skip(i as int).drop_first() =~= bs@.skip(i + 1));
        let b = &bs[i];
        if str_equal(b.principal_id.as_str(), a.principal_id.as_str()) && str_equal(
            b.profile_id.as_str(),
            a.profile_id.as_str(),
        ) && str_equal(b.capability_id.as_str(), a.capability_id.as_str()) && b.provenance == a.provenance {
            return Some(b);
        }
        i = i + 1;
    }
    None
}

/// Whether a transition still holds on the state.
fn check_transition(state: &ServiceState, a: &AuthenticatedServicePrincipal, t: &ProfileLeaseTransition) -> (r: bool)
    ensures
        r == transition_valid(*state, *a, t@),
{
    if str_equal(t.action.as_str(), "refresh_principal_owner_binding") {
        let b = match find_binding_of(state, a) {
            Some(b) => b,
            None => return false,
        };
        let o = match crate::model::get_keyed(&state.runtime_owner_registry.owners, b.profile_identity_digest.as_str()) {
            Some(o) => o,
            None => return false,
        };
        let from = decimal_string(b.owner_generation);
        let to = decimal_string(o.owner_generation);
        str_equal(from.as_str(), t.from_state.as_str()) && str_equal(to.as_str(), t.to_state.as_str()) && str_equal(
            o.daemon_session_route.as_str(),
            t.session_id.as_str(),
        ) && o.state == ProfileOwnerState::Ready
    } else {
        match crate::model::get_keyed(&state.sessions, t.session_id.as_str()) {
            Some(s) => opt_eq(&s.profile_id, a.profile_id.as_str()) && opt_eq(&s.principal_id, a.principal_id.as_str())
                && inactive_session(s.lease) && str_equal(t.action.as_str(), "confirm_stale_session_released"),
            None => false,
        }
    }
}

/// Whether two lists hold the same texts in the same order.
fn same_texts(a: &Vec<String>, b: &Vec<String>) -> (r: bool)
    ensures
        r == (strs(a@) == strs(b@)),
{
    if a.len() != b.len() {
        assert(strs(a@).len() != strs(b@).len());
        return false;
    }
    let mut i: usize = 0;
    while i < a.len()
        invariant
            i <= a@.len(),
            a@.len() == b@.len(),
            forall|j: int| 0 <= j < i ==> (#[trigger] a@[j])@ == b@[j]@,
        decreases a@.len() - i,
    {
        if !str_equal(a[i].as_str(), b[i].as_str()) {
            assert(strs(a@)[i as int] != strs(b@)[i as int]);
            return false;
        }
        i = i + 1;
    }
    assert(strs(a@) =~= strs(b@));
    true
}

/// An optional text, by view.
pub open spec fn ostr(o: Option<&str>) -> Option<Seq<char>> {
    match o {
        Some(s) => Some(s@),
        None => None,
    }
}

/// Confirms one stale session released at `now` on boot `boot`, moving its
/// work-lease revision forward once.
fn confirm_session_released(
    sessions: &mut Vec<BrowserSession>,
    j: usize,
    now: &str,
    boot: &Option<String>,
)
    requires
        keys_sorted(old(sessions)@),
        j < old(sessions)@.len(),
    ensures
        keys_sorted(final(sessions)@),
        final(sessions)@.len() == old(sessions)@.len(),
        forall|k: Seq<char>|
            k != old(sessions)@[j as int].id@ ==> #[trigger] lookup(final(sessions)@, k) == lookup(old(sessions)@, k),
        lookup(final(sessions)@, old(sessions)@[j as int].id@) matches Some(x) && {
            let o = old(sessions)@[j as int];
            &&& x == BrowserSession {
                lease: crate::model::LeaseState::Released,
                expires_at: x.expires_at,
                last_lease_observed_at: x.last_lease_observed_at,
                boot_epoch: x.boot_epoch,
                work_lease_revision: crate::lease_ops::next_work_revision(o.work_lease_revision),
                ..o
            }
            &&& ov(x.expires_at) == Some(now@)
            &&& ov(x.last_lease_observed_at) == Some(now@)
            &&& ov(x.boot_epoch) == ov(*boot)
        },
{
    let ghost before = sessions@;
    let r = sessions[j].work_lease_revision;
    let next = if r == u64::MAX {
        r
    } else {
        r + 1
    };
    let expires = owned(now);
    let observed = owned(now);
    let epoch = crate::model::clone_opt(boot);
    let ghost x = BrowserSession {
        lease: crate::model::LeaseState::Released,
        expires_at: Some(expires),
        last_lease_observed_at: Some(observed),
        boot_epoch: epoch,
        work_lease_revision: next,
        ..before[j as int]
    };
    proof {
        crate::model::lemma_lookup_update(before, j as int, x);
    }
    sessions[j].lease = crate::model::LeaseState::Released;
    sessions[j].expires_at = Some(expires);
    sessions[j].last_lease_observed_at = Some(observed);
    sessions[j].boot_epoch = epoch;
    sessions[j].work_lease_revision = next;
    assert(sessions@ =~= before.update(j as int, x));
}

/// Checks every transition against the state; the number of binding
/// refreshes when all hold.
fn validate_transitions(
    state: &ServiceState,
    a: &AuthenticatedServicePrincipal,
    ts: &Vec<ProfileLeaseTransition>,
) -> (r: Option<usize>)
    ensures
        match r {
            Some(n) => n == refresh_count(transition_views(ts@)) && forall|j: int|
                0 <= j < ts@.len() ==> transition_valid(*state, *a, #[trigger] transition_views(ts@)[j]),
            None => exists|j: int|
                0 <= j < ts@.len() && !transition_valid(*state, *a, #[trigger] transition_views(ts@)[j]),
        },
{
    let ghost tv = transition_views(ts@);
    let mut refreshes: usize = 0;
    let mut i: usize = 0;
    while i < ts.len()
        invariant
            i <= ts@.len(),
            tv == transition_views(ts@),
            refreshes == refresh_count(tv.take(i as int)),
            refreshes <= i,
            forall|j: int| 0 <= j < i ==> transition_valid(*state, *a, #[trigger] tv[j]),
        decreases ts@.len() - i,
    {
        assert(tv.take(i + 1).drop_last() =~= tv.take(i as int));
        assert(tv[i as int] == ts@[i as int]@);
        if !check_transition(state, a, &ts[i]) {
            return None;
        }
        if str_equal(ts[i].action.as_str(), "refresh_principal_owner_binding") {
            refreshes = refreshes + 1;
        }
        i = i + 1;
    }
    assert(tv.take(ts@.len() as int) =~= tv);
    Some(refreshes)
}

/// Confirms released every session that a transition names, once per
/// transition.
fn confirm_stale_sessions(
    state: &mut ServiceState,
    a: &AuthenticatedServicePrincipal,
    ts: &Vec<ProfileLeaseTransition>,
    now: &str,
    boot: &Option<String>,
)
    requires
        keys_sorted(old(state).sessions@),
        forall|j: int|
            0 <= j < ts@.len() ==> transition_valid(*old(state), *a, #[trigger] transition_views(ts@)[j]),
    ensures
        keys_sorted(final(state).sessions@),
        *final(state) == (ServiceState { sessions: final(state).sessions, ..*old(state) }),
        forall|k: Seq<char>|
            if session_count(transition_views(ts@), k) > 0 {
                #[trigger] lookup(final(state).sessions@, k) matches Some(x) && reconciled_session(
                    x,
                    lookup(old(state).sessions@, k)->0,
                    session_count(transition_views(ts@), k),
                    now@,
                    ov(*boot),
                )
            } else {
                lookup(final(state).sessions@, k) == lookup(old(state).sessions@, k)
            },
{
    let ghost s0 = *state;
    let ghost tv = transition_views(ts@);
    let mut i: usize = 0;
    while i < ts.len()
        invariant
            i <= ts@.len(),
            tv == transition_views(ts@),
            keys_sorted(state.sessions@),
            *state == (ServiceState { sessions: state.sessions, ..s0 }),
            forall|j: int| 0 <= j < ts@.len() ==> transition_valid(s0, *a, #[trigger] tv[j]),
            forall|k: Seq<char>|
                if session_count(tv.take(i as int), k) > 0 {
                    #[trigger] lookup(state.sessions@, k) matches Some(x) && reconciled_session(
                        x,
                        lookup(s0.sessions@, k)->0,
                        session_count(tv.take(i as int), k),
                        now@,
                        ov(*boot),
                    )
                } else {
                    lookup(state.sessions@, k) == lookup(s0.sessions@, k)
                },
        decreases ts@.len() - i,
    {
        assert(tv.take(i + 1).drop_last() =~= tv.take(i as int));
        assert(tv.take(i + 1).last() == tv[i as int]);
        assert(tv[i as int] == ts@[i as int]@);
        assert(transition_valid(s0, *a, tv[i as int]));
        if !str_equal(ts[i].action.as_str(), "refresh_principal_owner_binding") {
            let ghost k0 = tv[i as int].session_id;
            proof {
                crate::model::lemma_lookup_index(state.sessions@, k0);
                if session_count(tv.take(i as int), k0) == 0 {
                    assert(lookup(state.sessions@, k0) == lookup(s0.sessions@, k0));
                }
            }
            let j = match crate::model::find_key(&state.sessions, ts[i].session_id.as_str()) {
                Some(j) => j,
                None => {
                    proof {
                        assert(lookup(state.sessions@, k0) is Some);
                    }
                    i = i + 1;
                    continue;
                },
            };
            let ghost before = state.sessions@;
            confirm_session_released(&mut state.sessions, j, now, boot);
            assert forall|k: Seq<char>|
                if session_count(tv.take(i + 1), k) > 0 {
                    #[trigger] lookup(state.sessions@, k) matches Some(x) && reconciled_session(
                        x,
                        lookup(s0.sessions@, k)->0,
                        session_count(tv.take(i + 1), k),
                        now@,
                        ov(*boot),
                    )
                } else {
                    lookup(state.sessions@, k) == lookup(s0.sessions@, k)
                } by {
                if k != k0 {
                    assert(lookup(state.sessions@, k) == lookup(before, k));
                    assert(session_count(tv.take(i + 1), k) == session_count(tv.take(i as int), k));
                } else {
                    reveal_with_fuel(bumped, 2);
                    assert(before[j as int].id@ == k0);
                    assert(!is_refresh(tv[i as int]));
                    assert(session_count(tv.take(i + 1), k) == session_count(tv.take(i as int), k) + 1);
                    assert(lookup(before, k) == Some(before[j as int]));
                }
            }
        } else {
            assert forall|k: Seq<char>|
                session_count(tv.take(i + 1), k) == session_count(tv.take(i as int), k) by {}
        }
        i = i + 1;
    }
    assert(tv.take(ts@.len() as int) =~= tv);
}

/// The first stage of applying a sealed reconciliation plan: replays a plan
/// applied before, and otherwise re-checks the authority, seal, expiry,
/// boot, lease and every transition before confirming the stale sessions
/// released. It names the binding refresh the plan asks for, which
/// `apply_profile_lease_reconciliation` then makes.
#[verifier::rlimit(80)]
fn stage_profile_lease_reconciliation(
    state: &mut ServiceState,
    plan: &ProfileLeaseReconcilePlan,
    authority: &AuthenticatedServicePrincipal,
    now: &str,
    current_boot_epoch: Option<&str>,
    seal_key: &[u8],
    session_boot_epoch: Option<String>,
) -> (r: Result<ReconcileApplication, ProfileLeaseError>)
    requires
        keys_sorted(old(state).sessions@),
        keys_sorted(old(state).profile_lease_reconcile_receipts@),
    ensures
        match r {
            Err(e) => {
                &&& *final(state) == *old(state)
                &&& {
                    let pre = pre_lease_refusal(*old(state), plan@, *authority, now@, ostr(current_boot_epoch), seal_key@);
                    ||| refused_with(e, pre, plan.lease_id@)
                    ||| pre is None && lookup(old(state).profile_lease_reconcile_receipts@, plan.idempotency_key@) is None
                        && lease_access_failure(*old(state), plan.lease_id@, plan.lease_revision@, *authority, now@, e)
                    ||| pre is None && lookup(old(state).profile_lease_reconcile_receipts@, plan.idempotency_key@) is None
                        && exists|v: LeaseView|
                        #[trigger] reconcilable_lease(*old(state), v, plan.lease_id@, plan.lease_revision@, *authority, now@)
                            && refused_with(e, post_lease_refusal(*old(state), plan@, v, *authority), plan.lease_id@)
                }
            },
            Ok(ReconcileApplication::Replayed(x)) => {
                &&& *final(state) == *old(state)
                &&& authority_is_current_spec(old(state).service_principals, *authority)
                &&& lookup(old(state).profile_lease_reconcile_receipts@, plan.idempotency_key@) matches Some(y)
                    && y.principal_id@ == authority.principal_id@ && replay_copy(y, x)
            },
            Ok(ReconcileApplication::Applied(refresh)) => {
                let ts = plan@.proposed_transitions;
                &&& pre_lease_refusal(*old(state), plan@, *authority, now@, ostr(current_boot_epoch), seal_key@) is None
                &&& lookup(old(state).profile_lease_reconcile_receipts@, plan.idempotency_key@) is None
                &&& exists|v: LeaseView|
                    #[trigger] reconcilable_lease(*old(state), v, plan.lease_id@, plan.lease_revision@, *authority, now@)
                        && post_lease_refusal(*old(state), plan@, v, *authority) is None
                &&& keys_sorted(final(state).sessions@)
                &&& forall|k: Seq<char>|
                    if session_count(ts, k) > 0 {
                        #[trigger] lookup(final(state).sessions@, k) matches Some(x) && reconciled_session(
                            x,
                            lookup(old(state).sessions@, k)->0,
                            session_count(ts, k),
                            now@,
                            ov(session_boot_epoch),
                        )
                    } else {
                        lookup(final(state).sessions@, k) == lookup(old(state).sessions@, k)
                    }
                &&& *final(state) == (ServiceState { sessions: final(state).sessions, ..*old(state) })
                &&& match refresh {
                    Some((d, g)) => refresh_request(*old(state), *authority, ts) == Some((d@, g)),
                    None => refresh_request(*old(state), *authority, ts) is None,
                }
            },
        },
{
    let ghost s0 = *state;
    if !crate::model::authenticated_authority_is_current(&state.service_principals, authority) {
        return Err(lease_error(ProfileLeaseFailureCode::AuthorityMismatch, plan.lease_id.as_str()));
    }
    match crate::model::get_keyed(&state.profile_lease_reconcile_receipts, plan.idempotency_key.as_str()) {
        Some(x) => {
            if !str_equal(x.principal_id.as_str(), authority.principal_id.as_str()) {
                return Err(lease_error(ProfileLeaseFailureCode::AuthorityMismatch, plan.lease_id.as_str()));
            }
            return Ok(ReconcileApplication::Replayed(replayed_copy(x)));
        },
        None => {},
    }
    if seal_key.len() < 32 {
        return Err(lease_error(ProfileLeaseFailureCode::PlanInvalid, plan.lease_id.as_str()));
    }
    let expected_seal = seal_reconcile_plan(plan, seal_key);
    if !str_equal(plan.seal.as_str(), expected_seal.as_str()) || !plan.effect_capable {
        return Err(lease_error(ProfileLeaseFailureCode::PlanInvalid, plan.lease_id.as_str()));
    }
    match rfc3339_at_or_after(now, plan.expires_at.as_str()) {
        Some(true) => return Err(lease_error(ProfileLeaseFailureCode::PlanExpired, plan.lease_id.as_str())),
        Some(false) => {},
        None => return Err(lease_error(ProfileLeaseFailureCode::PlanInvalid, plan.lease_id.as_str())),
    }
    let same_boot = match (&plan.boot_epoch, current_boot_epoch) {
        (Some(a), Some(b)) => str_equal(a.as_str(), b),
        (None, None) => true,
        _ => false,
    };
    if !same_boot {
        return Err(lease_error(ProfileLeaseFailureCode::BootEpochMismatch, plan.lease_id.as_str()));
    }
    let lease = match authorized_lease(state, plan.lease_id.as_str(), plan.lease_revision.as_str(), authority, now) {
        Ok(l) => l,
        Err(e) => return Err(e),
    };
    let ghost v = lease@;
    assert(reconcilable_lease(s0, v, plan.lease_id@, plan.lease_revision@, *authority, now@));
    let same_generation = match (plan.owner_generation, lease.owner_generation) {
        (Some(a), Some(b)) => a == b,
        (None, None) => true,
        _ => false,
    };
    let same_browser = match (&plan.browser_id, &lease.browser_id) {
        (Some(a), Some(b)) => str_equal(a.as_str(), b.as_str()),
        (None, None) => true,
        _ => false,
    };
    let same_process = match (&plan.process_instance_digest, &lease.process_instance_digest) {
        (Some(a), Some(b)) => str_equal(a.as_str(), b.as_str()),
        (None, None) => true,
        _ => false,
    };
    if !same_generation || !str_equal(plan.principal_id.as_str(), authority.principal_id.as_str()) || !str_equal(
        plan.profile_id.as_str(),
        authority.profile_id.as_str(),
    ) || !same_browser || !same_process || !same_texts(&plan.route_ids, &lease.route_ids) {
        return Err(lease_error(ProfileLeaseFailureCode::PlanInvalid, plan.lease_id.as_str()));
    }
    assert(plan_matches_lease(plan@, v, *authority));
    let ts = &plan.proposed_transitions;
    let ghost tv = transition_views(ts@);
    let refreshes = match validate_transitions(state, authority, ts) {
        Some(n) => n,
        None => return Err(lease_error(ProfileLeaseFailureCode::PlanInvalid, plan.lease_id.as_str())),
    };
    if refreshes > 1 {
        return Err(lease_error(ProfileLeaseFailureCode::PlanInvalid, plan.lease_id.as_str()));
    }
    assert(post_lease_refusal(s0, plan@, v, *authority) is None);
    let mut refresh: Option<(String, u64)> = None;
    if refreshes == 1 {
        match find_binding_of(state, authority) {
            Some(b) => match crate::model::get_keyed(&state.runtime_owner_registry.owners, b.profile_identity_digest.as_str()) {
                Some(o) => {
                    refresh = Some((b.profile_identity_digest.clone(), o.owner_generation));
                },
                None => {},
            },
            None => {},
        }
    }
    confirm_stale_sessions(state, authority, ts, now, &session_boot_epoch);
    Ok(ReconcileApplication::Applied(refresh))
}

/// Whether a receipt records an applied plan at `now` with the revision
/// the lease then had.
pub open spec fn receipt_of(x: ProfileLeaseReconcileReceipt, p: ReconcilePlanView, now: Seq<char>, revision: Seq<char>) -> bool {
    &&& x.schema_version@ == PROFILE_LEASE_RECONCILE_RECEIPT_SCHEMA_VERSION@
    &&& x.idempotency_key@ == p.idempotency_key
    &&& x.plan_id@ == p.plan_id
    &&& x.lease_id@ == p.lease_id
    &&& x.principal_id@ == p.principal_id
    &&& x.applied_at@ == now
    &&& !x.replayed
    &&& x.transition_count == p.proposed_transitions.len()
    &&& x.resulting_lease_revision@ == revision
}

/// A receipt for an applied plan.
fn make_receipt(plan: &ProfileLeaseReconcilePlan, now: &str, revision: &str) -> (r: ProfileLeaseReconcileReceipt)
    ensures
        receipt_of(r, plan@, now@, revision@),
{
    ProfileLeaseReconcileReceipt {
        schema_version: owned(PROFILE_LEASE_RECONCILE_RECEIPT_SCHEMA_VERSION),
        idempotency_key: plan.idempotency_key.clone(),
        plan_id: plan.plan_id.clone(),
        lease_id: plan.lease_id.clone(),
        principal_id: plan.principal_id.clone(),
        applied_at: owned(now),
        replayed: false,
        transition_count: plan.proposed_transitions.len(),
        resulting_lease_revision: owned(revision),
    }
}

/// Records an applied plan once every effect it asked for is done: the
/// receipt carries the lease's resulting revision and is stored under the
/// plan's idempotency key, so the plan replays.
pub fn finish_profile_lease_reconciliation(
    state: &mut ServiceState,
    plan: &ProfileLeaseReconcilePlan,
    now: &str,
) -> (r: Result<ProfileLeaseReconcileReceipt, ProfileLeaseError>)
    requires
        keys_sorted(old(state).profile_lease_reconcile_receipts@),
    ensures
        match r {
            Ok(x) => {
                &&& exists|v: LeaseView|
                    #[trigger] lease_collection(*old(state), now@).count(v) > 0 && v.id == plan.lease_id@ && receipt_of(
                        x,
                        plan@,
                        now@,
                        v.lease_revision,
                    )
                &&& keys_sorted(final(state).profile_lease_reconcile_receipts@)
                &&& lookup(final(state).profile_lease_reconcile_receipts@, plan.idempotency_key@) matches Some(y)
                    && receipt_of(y, plan@, now@, x.resulting_lease_revision@)
                &&& forall|k: Seq<char>|
                    k != plan.idempotency_key@ ==> #[trigger] lookup(final(state).profile_lease_reconcile_receipts@, k)
                        == lookup(old(state).profile_lease_reconcile_receipts@, k)
                &&& *final(state) == (ServiceState {
                    profile_lease_reconcile_receipts: final(state).profile_lease_reconcile_receipts,
                    ..*old(state)
                })
            },
            Err(e) => *final(state) == *old(state) && is_lease_error(
                e,
                ProfileLeaseFailureCode::LeaseNotFound,
                plan.lease_id@,
            ) && forall|v: LeaseView| #[trigger] lease_collection(*old(state), now@).count(v) > 0 ==> v.id != plan.lease_id@,
        },
{
    let lease = match inspect_profile_lease(state, plan.lease_id.as_str(), now) {
        Ok(l) => l,
        Err(e) => return Err(e),
    };
    let receipt = make_receipt(plan, now, lease.lease_revision.as_str());
    let stored = make_receipt(plan, now, lease.lease_revision.as_str());
    crate::model::upsert_keyed(&mut state.profile_lease_reconcile_receipts, stored);
    Ok(receipt)
}

/// Whether `i` is the index of the first binding of an authority.
pub open spec fn first_binding_at(bs: Seq<RuntimeOwnerPrincipalBinding>, a: AuthenticatedServicePrincipal, i: int) -> bool {
    &&& 0 <= i < bs.len()
    &&& binding_of(bs[i], a)
    &&& forall|j: int| 0 <= j < i ==> !binding_of(#[trigger] bs[j], a)
}

/// Whether `after` is the registry `before` with the first binding of an
/// authority moved to owner generation `g`, and nothing else changed.
pub open spec fn binding_refreshed(
    before: RuntimeOwnerRegistry,
    after: RuntimeOwnerRegistry,
    a: AuthenticatedServicePrincipal,
    g: u64,
) -> bool {
    exists|i: int|
        #[trigger] first_binding_at(before.principal_bindings@, a, i) && after == (RuntimeOwnerRegistry {
            principal_bindings: after.principal_bindings,
            ..before
        }) && after.principal_bindings@ == before.principal_bindings@.update(
            i,
            RuntimeOwnerPrincipalBinding { owner_generation: g, ..before.principal_bindings@[i] },
        )
}

/// The index of the first binding of an authority.
fn first_binding_index(bs: &Vec<RuntimeOwnerPrincipalBinding>, a: &AuthenticatedServicePrincipal) -> (r: Option<usize>)
    ensures
        match r {
            Some(i) => first_binding_at(bs@, *a, i as int),
            None => forall|j: int| 0 <= j < bs@.len() ==> !binding_of(#[trigger] bs@[j], *a),
        },
{
    let mut i: usize = 0;
    while i < bs.len()
        invariant
            i <= bs@.len(),
            forall|j: int| 0 <= j < i ==> !binding_of(#[trigger] bs@[j], *a),
        decreases bs@.len() - i,
    {
        let b = &bs[i];
        if str_equal(b.principal_id.as_str(), a.principal_id.as_str()) && str_equal(
            b.profile_id.as_str(),
            a.profile_id.as_str(),
        ) && str_equal(b.capability_id.as_str(), a.capability_id.as_str()) && b.provenance == a.provenance {
            return Some(i);
        }
        i = i + 1;
    }
    None
}

/// No binding of an authority means there is no first one.
proof fn lemma_no_binding(bs: Seq<RuntimeOwnerPrincipalBinding>, a: AuthenticatedServicePrincipal)
    requires
        forall|j: int| 0 <= j < bs.len() ==> !binding_of(#[trigger] bs[j], a),
    ensures
        first_binding_of(bs, a) is None,
    decreases bs.len(),
{
    if bs.len() > 0 {
        assert(!binding_of(bs[0], a));
        assert forall|j: int| 0 <= j < bs.len() - 1 implies !binding_of(#[trigger] bs.drop_first()[j], a) by {
            assert(bs.drop_first()[j] == bs[j + 1]);
        }
        lemma_no_binding(bs.drop_first(), a);
    }
}

/// Moves the first binding of an authority to its owner's current generation.
fn refresh_principal_binding_to_current_owner(state: &mut ServiceState, a: &AuthenticatedServicePrincipal, g: u64)
    requires
        first_binding_of(old(state).runtime_owner_registry.principal_bindings@, *a) is Some,
    ensures
        binding_refreshed(old(state).runtime_owner_registry, final(state).runtime_owner_registry, *a, g),
        *final(state) == (ServiceState { runtime_owner_registry: final(state).runtime_owner_registry, ..*old(state) }),
{
    let ghost bs = state.runtime_owner_registry.principal_bindings@;
    match first_binding_index(&state.runtime_owner_registry.principal_bindings, a) {
        Some(i) => {
            state.runtime_owner_registry.principal_bindings[i].owner_generation = g;
            assert(state.runtime_owner_registry.principal_bindings@ =~= bs.update(
                i as int,
                RuntimeOwnerPrincipalBinding { owner_generation: g, ..bs[i as int] },
            ));
            assert(first_binding_at(bs, *a, i as int));
        },
        None => {
            proof {
                lemma_no_binding(bs, *a);
            }
        },
    }
}

/// Whether a plan replays on a state: its authority is current and a
/// receipt of the same principal is stored under its idempotency key.
pub open spec fn plan_replays(s: ServiceState, p: ReconcilePlanView, a: AuthenticatedServicePrincipal) -> bool {
    &&& authority_is_current_spec(s.service_principals, a)
    &&& lookup(s.profile_lease_reconcile_receipts@, p.idempotency_key) matches Some(y) && y.principal_id@
        == a.principal_id@
}

/// Whether a plan passes every check of applying it on a state: nothing
/// refuses it before or after its lease is read, and it has no receipt yet.
pub open spec fn plan_applies(
    s: ServiceState,
    p: ReconcilePlanView,
    a: AuthenticatedServicePrincipal,
    now: Seq<char>,
    boot: Option<Seq<char>>,
    key: Seq<u8>,
) -> bool {
    &&& pre_lease_refusal(s, p, a, now, boot, key) is None
    &&& lookup(s.profile_lease_reconcile_receipts@, p.idempotency_key) is None
    &&& exists|v: LeaseView|
        #[trigger] reconcilable_lease(s, v, p.lease_id, p.lease_revision, a, now) && post_lease_refusal(s, p, v, a)
            is None
}

/// Why applying a plan is refused with the state untouched.
pub open spec fn reconcile_refusal(
    s: ServiceState,
    p: ReconcilePlanView,
    a: AuthenticatedServicePrincipal,
    now: Seq<char>,
    boot: Option<Seq<char>>,
    key: Seq<u8>,
    e: ProfileLeaseError,
) -> bool {
    let pre = pre_lease_refusal(s, p, a, now, boot, key);
    ||| refused_with(e, pre, p.lease_id)
    ||| pre is None && lookup(s.profile_lease_reconcile_receipts@, p.idempotency_key) is None && lease_access_failure(
        s,
        p.lease_id,
        p.lease_revision,
        a,
        now,
        e,
    )
    ||| pre is None && lookup(s.profile_lease_reconcile_receipts@, p.idempotency_key) is None && exists|v: LeaseView|
        #[trigger] reconcilable_lease(s, v, p.lease_id, p.lease_revision, a, now) && refused_with(
            e,
            post_lease_refusal(s, p, v, a),
            p.lease_id,
        )
}

/// Whether `after` is `before` with a plan's stale sessions confirmed
/// released at `now` and the binding refresh it asks for made; receipts and
/// every other part of the state unchanged.
pub open spec fn plan_effects(
    before: ServiceState,
    after: ServiceState,
    p: ReconcilePlanView,
    a: AuthenticatedServicePrincipal,
    now: Seq<char>,
    session_boot: Option<Seq<char>>,
) -> bool {
    let ts = p.proposed_transitions;
    &&& keys_sorted(after.sessions@)
    &&& forall|k: Seq<char>|
        if session_count(ts, k) > 0 {
            #[trigger] lookup(after.sessions@, k) matches Some(x) && reconciled_session(
                x,
                lookup(before.sessions@, k)->0,
                session_count(ts, k),
                now,
                session_boot,
            )
        } else {
            lookup(after.sessions@, k) == lookup(before.sessions@, k)
        }
    &&& match refresh_request(before, a, ts) {
        Some((_, g)) => binding_refreshed(before.runtime_owner_registry, after.runtime_owner_registry, a, g),
        None => after.runtime_owner_registry == before.runtime_owner_registry,
    }
    &&& after == (ServiceState {
        sessions: after.sessions,
        runtime_owner_registry: after.runtime_owner_registry,
        ..before
    })
}

/// What a first application of a plan leaves behind: its effects made and
/// its receipt `x` stored under the idempotency key, every other receipt
/// unchanged.
pub open spec fn reconciliation_applied(
    before: ServiceState,
    after: ServiceState,
    p: ReconcilePlanView,
    a: AuthenticatedServicePrincipal,
    now: Seq<char>,
    boot: Option<Seq<char>>,
    key: Seq<u8>,
    session_boot: Option<Seq<char>>,
    x: ProfileLeaseReconcileReceipt,
) -> bool {
    let mid = ServiceState { profile_lease_reconcile_receipts: before.profile_lease_reconcile_receipts, ..after };
    &&& plan_applies(before, p, a, now, boot, key)
    &&& plan_effects(before, mid, p, a, now, session_boot)
    &&& exists|v: LeaseView| #[trigger] lease_collection(mid, now).count(v) > 0 && v.id == p.lease_id && receipt_of(
        x,
        p,
        now,
        v.lease_revision,
    )
    &&& keys_sorted(after.profile_lease_reconcile_receipts@)
    &&& lookup(after.profile_lease_reconcile_receipts@, p.idempotency_key) matches Some(y) && receipt_of(
        y,
        p,
        now,
        x.resulting_lease_revision@,
    )
    &&& forall|k: Seq<char>|
        k != p.idempotency_key ==> #[trigger] lookup(after.profile_lease_reconcile_receipts@, k) == lookup(
            before.profile_lease_reconcile_receipts@,
            k,
        )
}

/// Applies a sealed reconciliation plan whose evidence is still current.
/// A plan applied before replays its receipt, marked replayed, and changes
/// nothing. Otherwise every check is made again; then the stale sessions
/// are confirmed released, the owner binding is refreshed when the plan asks
/// for it, and the receipt, carrying the lease's resulting revision, is
/// stored under the plan's idempotency key.
#[verifier::rlimit(60)]
pub fn apply_profile_lease_reconciliation(
    state: &mut ServiceState,
    plan: &ProfileLeaseReconcilePlan,
    authority: &AuthenticatedServicePrincipal,
    now: &str,
    current_boot_epoch: Option<&str>,
    seal_key: &[u8],
    session_boot_epoch: Option<String>,
) -> (r: Result<ProfileLeaseReconcileReceipt, ProfileLeaseError>)
    requires
        keys_sorted(old(state).sessions@),
        keys_sorted(old(state).profile_lease_reconcile_receipts@),
    ensures
        plan_replays(*old(state), plan@, *authority) ==> (r matches Ok(x) && *final(state) == *old(state) && replay_copy(
            lookup(old(state).profile_lease_reconcile_receipts@, plan.idempotency_key@)->0,
            x,
        )),
        match r {
            Ok(x) => if x.replayed {
                *final(state) == *old(state) && plan_replays(*old(state), plan@, *authority) && replay_copy(
                    lookup(old(state).profile_lease_reconcile_receipts@, plan.idempotency_key@)->0,
                    x,
                )
            } else {
                reconciliation_applied(
                    *old(state),
                    *final(state),
                    plan@,
                    *authority,
                    now@,
                    ostr(current_boot_epoch),
                    seal_key@,
                    ov(session_boot_epoch),
                    x,
                )
            },
            Err(e) => {
                ||| *final(state) == *old(state) && reconcile_refusal(
                    *old(state),
                    plan@,
                    *authority,
                    now@,
                    ostr(current_boot_epoch),
                    seal_key@,
                    e,
                )
                ||| plan_applies(*old(state), plan@, *authority, now@, ostr(current_boot_epoch), seal_key@)
                    && plan_effects(*old(state), *final(state), plan@, *authority, now@, ov(session_boot_epoch))
                    && is_lease_error(e, ProfileLeaseFailureCode::LeaseNotFound, plan.lease_id@) && forall|v: LeaseView|
                    #[trigger] lease_collection(*final(state), now@).count(v) > 0 ==> v.id != plan.lease_id@
            },
        },
{
    let ghost s0 = *state;
    let staged = stage_profile_lease_reconciliation(
        state,
        plan,
        authority,
        now,
        current_boot_epoch,
        seal_key,
        session_boot_epoch,
    );
    match staged {
        Err(e) => Err(e),
        Ok(ReconcileApplication::Replayed(x)) => Ok(x),
        Ok(ReconcileApplication::Applied(refresh)) => {
            let ghost s1 = *state;
            match refresh {
                Some((_, g)) => {
                    refresh_principal_binding_to_current_owner(state, authority, g);
                },
                None => {},
            }
            let ghost s2 = *state;
            assert(plan_effects(s0, s2, plan@, *authority, now@, ov(session_boot_epoch)));
            let r = finish_profile_lease_reconciliation(state, plan, now);
            proof {
                if r is Ok {
                    assert(s2 == (ServiceState {
                        profile_lease_reconcile_receipts: s0.profile_lease_reconcile_receipts,
                        ..*state
                    }));
                }
            }
            r
        },
    }
}

/// Law: a plan applied once replays. After a first application stores its
/// receipt, the same plan by the same authority replays on the new state,
/// and what it replays is the first receipt marked replayed.
pub proof fn law_applied_plan_replays(
    before: ServiceState,
    after: ServiceState,
    p: ReconcilePlanView,
    a: AuthenticatedServicePrincipal,
    now: Seq<char>,
    boot: Option<Seq<char>>,
    key: Seq<u8>,
    session_boot: Option<Seq<char>>,
    x: ProfileLeaseReconcileReceipt,
)
    requires
        reconciliation_applied(before, after, p, a, now, boot, key, session_boot, x),
    ensures
        plan_replays(after, p, a),
        forall|z: ProfileLeaseReconcileReceipt|
            #[trigger] replay_copy(lookup(after.profile_lease_reconcile_receipts@, p.idempotency_key)->0, z)
                ==> replay_copy(x, z),
{
    let v = choose|v: LeaseView|
        #[trigger] reconcilable_lease(before, v, p.lease_id, p.lease_revision, a, now) && post_lease_refusal(
            before,
            p,
            v,
            a,
        ) is None;
    assert(p.principal_id == a.principal_id@);
}

/// Refresh transitions of a concatenation add up.
proof fn lemma_refresh_count_concat(a: Seq<TransitionView>, b: Seq<TransitionView>)
    ensures
        refresh_count(a + b) == refresh_count(a) + refresh_count(b),
    decreases b.len(),
{
    if b.len() == 0 {
        assert(a + b =~= a);
    } else {
        assert((a + b).drop_last() =~= a + b.drop_last());
        lemma_refresh_count_concat(a, b.drop_last());
    }
}

/// Confirmations of stale sessions are never binding refreshes.
proof fn lemma_stale_transitions_refresh_nothing(s: Seq<BrowserSession>, a: AuthenticatedServicePrincipal)
    ensures
        refresh_count(stale_transitions(s, a)) == 0,
    decreases s.len(),
{
    let pred = |x: BrowserSession| stale_candidate(x, a);
    let f = |x: BrowserSession| stale_transition(x);
    if s.len() > 0 {
        lemma_stale_transitions_refresh_nothing(s.drop_last(), a);
        reveal(Seq::filter);
        assert(s.drop_last().filter(pred) =~= s.filter(pred) || s.filter(pred) =~= s.drop_last().filter(pred).push(
            s.last(),
        ));
        if pred(s.last()) {
            assert(s.filter(pred) =~= s.drop_last().filter(pred).push(s.last()));
            let t = s.filter(pred).map_values(f);
            assert(t.drop_last() =~= s.drop_last().filter(pred).map_values(f));
            reveal_strlit("confirm_stale_session_released");
            reveal_strlit("refresh_principal_owner_binding");
            assert("confirm_stale_session_released"@.len() != "refresh_principal_owner_binding"@.len());
        } else {
            assert(s.filter(pred) =~= s.drop_last().filter(pred));
        }
    }
}

/// Every plan asks for at most one binding refresh, the most that applying
/// a plan accepts.
pub proof fn law_planned_refreshes_fit_apply(state: ServiceState, a: AuthenticatedServicePrincipal, v: LeaseView)
    ensures
        refresh_count(planned_transitions(state, a, v)) <= 1,
{
    let st = stale_transitions(state.sessions@, a);
    let rt = refresh_transition(state, a, v);
    lemma_refresh_count_concat(st, rt);
    lemma_stale_transitions_refresh_nothing(state.sessions@, a);
    assert(rt.len() <= 1);
    if rt.len() > 0 {
        assert(rt.drop_last() =~= Seq::<TransitionView>::empty());
        assert(refresh_count(rt.drop_last()) == 0);
        assert(refresh_count(rt) <= 1);
    } else {
        assert(refresh_count(rt) == 0);
    }
}

} // verus!
