//! Profile lifecycle authorization joined with exact runtime evidence.
//!
//! Access policy authorizes intent. A lifecycle effect is permitted only
//! after the authorized logical target is joined to a fresh physical
//! observation made by the executing daemon. Nothing here evaluates access
//! policy or infers process ownership.

use vstd::prelude::*;
use crate::acquisition::clone_strings;
use crate::decision::{assurance_satisfies, first_of, ProfileIdentityAssurance};
use crate::digest::{digest_text, digest_text_spec};
use crate::json::{field_bool, field_str, JsonValue};
use crate::lease::contains_text;
use crate::model::{
    clone_opt, get_keyed, insert_keyed, keys_sorted, lookup, opt_eq, ov, BrowserSession, BrowserTab, Keyed, LeaseState,
    RemoteViewRoute, ServiceState, TabLifecycle, ViewerLease,
};
use crate::seqs::strictly_sorted;
use crate::text::{concat2, is_blank, owned, str_equal, str_lt, strs, trim};
use crate::time::{instant_at_or_after, parse_rfc3339, rfc3339_instant};

verus! {

/// The version written into every lifecycle authorization.
pub const PROFILE_LIFECYCLE_AUTHORIZATION_SCHEMA_V1: &'static str =
    "agent-browser.profile-lifecycle-authorization.v1";

/// The version written into every lifecycle proof.
pub const PROFILE_LIFECYCLE_PROOF_SCHEMA_V1: &'static str = "agent-browser.profile-lifecycle-proof.v1";

/// The version written into every lifecycle receipt.
pub const PROFILE_LIFECYCLE_RECEIPT_SCHEMA_V1: &'static str = "agent-browser.profile-lifecycle-receipt.v1";

/// Where a lifecycle authorization stands.
#[derive(PartialEq, Eq, Structural, Clone, Copy)]
pub enum ProfileLifecycleAuthorizationState {
    Authorized,
    Completed,
    Incomplete,
}

/// How forcefully an eviction may proceed.
#[derive(PartialEq, Eq, Structural, Clone, Copy)]
pub enum ProfileEvictionMode {
    GracefulOnly,
    ForceAfterGrace,
    ForceImmediate,
}

/// An eviction plan issued by the profile's access policy.
pub struct ProfileEvictionPlan {
    pub plan_id: String,
    pub profile_id: String,
    pub policy_revision: u64,
    pub requested_by: Option<String>,
    pub mode: ProfileEvictionMode,
    pub grace_deadline: Option<String>,
    pub target_resource_ids: Vec<String>,
}

/// A persisted authorization to evict exact profile targets.
pub struct ProfileLifecycleAuthorization {
    pub schema_version: String,
    pub authorization_id: String,
    pub profile_id: String,
    pub policy_revision: u64,
    pub subject_id: Option<String>,
    pub assurance: ProfileIdentityAssurance,
    /// The permission exercised, in its snake_case form.
    pub permission: String,
    pub eviction_mode: ProfileEvictionMode,
    pub grace_deadline: Option<String>,
    pub target_resource_ids: Vec<String>,
    pub issued_at: String,
    pub state: ProfileLifecycleAuthorizationState,
}

/// The content of a lifecycle authorization.
pub struct AuthorizationRecord {
    pub schema_version: Seq<char>,
    pub authorization_id: Seq<char>,
    pub profile_id: Seq<char>,
    pub policy_revision: u64,
    pub subject_id: Option<Seq<char>>,
    pub assurance: ProfileIdentityAssurance,
    pub permission: Seq<char>,
    pub eviction_mode: ProfileEvictionMode,
    pub grace_deadline: Option<Seq<char>>,
    pub target_resource_ids: Seq<Seq<char>>,
    pub issued_at: Seq<char>,
    pub state: ProfileLifecycleAuthorizationState,
}

impl View for ProfileLifecycleAuthorization {
    type V = AuthorizationRecord;

    open spec fn view(&self) -> AuthorizationRecord {
        AuthorizationRecord {
            schema_version: self.schema_version@,
            authorization_id: self.authorization_id@,
            profile_id: self.profile_id@,
            policy_revision: self.policy_revision,
            subject_id: ov(self.subject_id),
            assurance: self.assurance,
            permission: self.permission@,
            eviction_mode: self.eviction_mode,
            grace_deadline: ov(self.grace_deadline),
            target_resource_ids: strs(self.target_resource_ids@),
            issued_at: self.issued_at@,
            state: self.state,
        }
    }
}

impl Keyed for ProfileLifecycleAuthorization {
    open spec fn key_view(&self) -> Seq<char> {
        self.authorization_id@
    }

    fn key(&self) -> (k: &str) {
        self.authorization_id.as_str()
    }
}

/// The authorization a plan grants.
pub open spec fn planned_authorization(
    plan: ProfileEvictionPlan,
    assurance: ProfileIdentityAssurance,
    issued_at: Seq<char>,
) -> AuthorizationRecord {
    AuthorizationRecord {
        schema_version: PROFILE_LIFECYCLE_AUTHORIZATION_SCHEMA_V1@,
        authorization_id: plan.plan_id@,
        profile_id: plan.profile_id@,
        policy_revision: plan.policy_revision,
        subject_id: ov(plan.requested_by),
        assurance,
        permission: "evict"@,
        eviction_mode: plan.mode,
        grace_deadline: ov(plan.grace_deadline),
        target_resource_ids: strs(plan.target_resource_ids@),
        issued_at,
        state: ProfileLifecycleAuthorizationState::Authorized,
    }
}

/// Whether a plan may be registered: it names itself, its profile and at
/// least one target, and its requester holds registered-capability assurance.
pub open spec fn plan_admissible(plan: ProfileEvictionPlan, assurance: ProfileIdentityAssurance) -> bool {
    &&& trim(plan.plan_id@).len() > 0
    &&& trim(plan.profile_id@).len() > 0
    &&& plan.target_resource_ids@.len() > 0
    &&& assurance_satisfies(assurance, ProfileIdentityAssurance::RegisteredCapability)
}

/// What registering a plan does to the authorizations: an inadmissible
/// plan, targets out of canonical order, or a different authorization under
/// the same id are refused and change nothing; the same authorization is
/// returned unchanged; a new one is added under its id.
pub open spec fn registration(
    before: Seq<ProfileLifecycleAuthorization>,
    after: Seq<ProfileLifecycleAuthorization>,
    plan: ProfileEvictionPlan,
    assurance: ProfileIdentityAssurance,
    issued_at: Seq<char>,
    r: Result<AuthorizationRecord, Seq<char>>,
) -> bool {
    let planned = planned_authorization(plan, assurance, issued_at);
    if !plan_admissible(plan, assurance) {
        r == Err::<AuthorizationRecord, Seq<char>>("profile_lifecycle_authorization_invalid"@) && after == before
    } else if !strictly_sorted(strs(plan.target_resource_ids@)) {
        r == Err::<AuthorizationRecord, Seq<char>>("profile_lifecycle_authorization_targets_noncanonical"@)
            && after == before
    } else {
        match lookup(before, plan.plan_id@) {
            Some(existing) => if existing@ == planned {
                r == Ok::<AuthorizationRecord, Seq<char>>(planned) && after == before
            } else {
                r == Err::<AuthorizationRecord, Seq<char>>("profile_lifecycle_authorization_conflict"@) && after
                    == before
            },
            None => {
                &&& r == Ok::<AuthorizationRecord, Seq<char>>(planned)
                &&& keys_sorted(after)
                &&& lookup(after, plan.plan_id@) matches Some(added) && added@ == planned
                &&& forall|k: Seq<char>| k != plan.plan_id@ ==> #[trigger] lookup(after, k) == lookup(before, k)
            },
        }
    }
}

/// Whether two lists of texts are equal.
fn same_texts(a: &Vec<String>, b: &Vec<String>) -> (r: bool)
    ensures
        r == (strs(a@) == strs(b@)),
{
    if a.len() != b.len() {
        assert(strs(a@).len() != strs(b@).len());
        return false;
    }
    let mut i: usize = 0;
    while i < a.len()
        invariant
            i <= a@.len(),
            a@.len() == b@.len(),
            forall|j: int| 0 <= j < i ==> strs(a@)[j] == strs(b@)[j],
        decreases a@.len() - i,
    {
        if !str_equal(a[i].as_str(), b[i].as_str()) {
            assert(strs(a@)[i as int] != strs(b@)[i as int]);
            return false;
        }
        i = i + 1;
    }
    assert(strs(a@) =~= strs(b@));
    true
}

/// Whether two optional texts are equal.
fn same_opt(a: &Option<String>, b: &Option<String>) -> (r: bool)
    ensures
        r == (ov(*a) == ov(*b)),
{
    match (a, b) {
        (Some(x), Some(y)) => str_equal(x.as_str(), y.as_str()),
        (None, None) => true,
        _ => false,
    }
}

/// Whether two authorizations have the same content.
fn same_authorization(a: &ProfileLifecycleAuthorization, b: &ProfileLifecycleAuthorization) -> (r: bool)
    ensures
        r == (a@ == b@),
{
    str_equal(a.schema_version.as_str(), b.schema_version.as_str()) && str_equal(
        a.authorization_id.as_str(),
        b.authorization_id.as_str(),
    ) && str_equal(a.profile_id.as_str(), b.profile_id.as_str()) && a.policy_revision == b.policy_revision
        && same_opt(&a.subject_id, &b.subject_id) && a.assurance == b.assurance && str_equal(
        a.permission.as_str(),
        b.permission.as_str(),
    ) && a.eviction_mode == b.eviction_mode && same_opt(&a.grace_deadline, &b.grace_deadline) && same_texts(
        &a.target_resource_ids,
        &b.target_resource_ids,
    ) && str_equal(a.issued_at.as_str(), b.issued_at.as_str()) && a.state == b.state
}

/// A copy of an authorization.
fn copy_authorization(a: &ProfileLifecycleAuthorization) -> (r: ProfileLifecycleAuthorization)
    ensures
        r@ == a@,
{
    ProfileLifecycleAuthorization {
        schema_version: a.schema_version.clone(),
        authorization_id: a.authorization_id.clone(),
        profile_id: a.profile_id.clone(),
        policy_revision: a.policy_revision,
        subject_id: clone_opt(&a.subject_id),
        assurance: a.assurance,
        permission: a.permission.clone(),
        eviction_mode: a.eviction_mode,
        grace_deadline: clone_opt(&a.grace_deadline),
        target_resource_ids: clone_strings(&a.target_resource_ids),
        issued_at: a.issued_at.clone(),
        state: a.state,
    }
}

/// Whether the texts are in strictly ascending order.
fn texts_strictly_sorted(v: &Vec<String>) -> (r: bool)
    ensures
        r == strictly_sorted(strs(v@)),
{
    let ghost s = strs(v@);
    if v.len() < 2 {
        return true;
    }
    let mut i: usize = 1;
    while i < v.len()
        invariant
            1 <= i <= v@.len(),
            s == strs(v@),
            forall|a: int, b: int| 0 <= a < b < i ==> crate::text::seq_lt(#[trigger] s[a], #[trigger] s[b]),
        decreases v@.len() - i,
    {
        if !str_lt(v[i - 1].as_str(), v[i as usize].as_str()) {
            assert(!crate::text::seq_lt(s[i - 1], s[i as int]));
            return false;
        }
        assert forall|a: int, b: int| 0 <= a < b < i + 1 implies crate::text::seq_lt(
            #[trigger] s[a],
            #[trigger] s[b],
        ) by {
            if b == i && a < i - 1 {
                crate::seqs::lemma_seq_lt_transitive(s[a], s[i - 1], s[b]);
            }
        }
        i = i + 1;
    }
    true
}

/// Registers the authorization an eviction plan grants. Registering the
/// same plan again returns the same authorization and changes nothing.
pub fn register_profile_eviction_authorization(
    authorizations: &mut Vec<ProfileLifecycleAuthorization>,
    plan: &ProfileEvictionPlan,
    assurance: ProfileIdentityAssurance,
    issued_at: &str,
) -> (r: Result<ProfileLifecycleAuthorization, String>)
    requires
        keys_sorted(old(authorizations)@),
    ensures
        registration(
            old(authorizations)@,
            final(authorizations)@,
            *plan,
            assurance,
            issued_at@,
            match r {
                Ok(a) => Ok::<AuthorizationRecord, Seq<char>>(a@),
                Err(e) => Err::<AuthorizationRecord, Seq<char>>(e@),
            },
        ),
{
    if is_blank(plan.plan_id.as_str()) || is_blank(plan.profile_id.as_str()) || plan.target_resource_ids.len() == 0
        || !assurance.satisfies(ProfileIdentityAssurance::RegisteredCapability) {
        return Err(owned("profile_lifecycle_authorization_invalid"));
    }
    if !texts_strictly_sorted(&plan.target_resource_ids) {
        return Err(owned("profile_lifecycle_authorization_targets_noncanonical"));
    }
    let authorization = ProfileLifecycleAuthorization {
        schema_version: owned(PROFILE_LIFECYCLE_AUTHORIZATION_SCHEMA_V1),
        authorization_id: plan.plan_id.clone(),
        profile_id: plan.profile_id.clone(),
        policy_revision: plan.policy_revision,
        subject_id: clone_opt(&plan.requested_by),
        assurance,
        permission: owned("evict"),
        eviction_mode: plan.mode,
        grace_deadline: clone_opt(&plan.grace_deadline),
        target_resource_ids: clone_strings(&plan.target_resource_ids),
        issued_at: owned(issued_at),
        state: ProfileLifecycleAuthorizationState::Authorized,
    };
    match get_keyed(authorizations, plan.plan_id.as_str()) {
        Some(existing) => {
            if same_authorization(existing, &authorization) {
                return Ok(copy_authorization(existing));
            }
            return Err(owned("profile_lifecycle_authorization_conflict"));
        },
        None => {},
    }
    let stored = copy_authorization(&authorization);
    insert_keyed(authorizations, stored);
    Ok(authorization)
}

/// Law: registering an eviction plan is idempotent. Once a plan has been
/// registered, registering it again returns the same authorization and
/// leaves the authorizations unchanged.
pub proof fn law_registration_is_idempotent(
    s0: Seq<ProfileLifecycleAuthorization>,
    s1: Seq<ProfileLifecycleAuthorization>,
    s2: Seq<ProfileLifecycleAuthorization>,
    plan: ProfileEvictionPlan,
    assurance: ProfileIdentityAssurance,
    issued_at: Seq<char>,
    a: AuthorizationRecord,
    r2: Result<AuthorizationRecord, Seq<char>>,
)
    requires
        registration(s0, s1, plan, assurance, issued_at, Ok(a)),
        registration(s1, s2, plan, assurance, issued_at, r2),
    ensures
        r2 == Ok::<AuthorizationRecord, Seq<char>>(a),
        s2 == s1,
{
}

/// What the executing daemon observed of a tab it is about to close.
pub struct ProfileTabPhysicalObservation {
    pub daemon_session_id: String,
    pub browser_id: String,
    pub target_id: String,
    pub attached_target_ids: Vec<String>,
    pub observed_at: String,
}

/// A proof that an authorized tab is the exact attached target observed.
pub struct ProfileLifecycleProof {
    pub schema_version: String,
    pub proof_id: String,
    pub authorization_id: String,
    pub profile_id: String,
    pub policy_revision: u64,
    pub tab_id: String,
    pub browser_id: String,
    pub target_id: String,
    pub daemon_session_id: String,
    pub observed_at: String,
}

/// The content of a lifecycle proof.
pub struct ProofView {
    pub schema_version: Seq<char>,
    pub proof_id: Seq<char>,
    pub authorization_id: Seq<char>,
    pub profile_id: Seq<char>,
    pub policy_revision: u64,
    pub tab_id: Seq<char>,
    pub browser_id: Seq<char>,
    pub target_id: Seq<char>,
    pub daemon_session_id: Seq<char>,
    pub observed_at: Seq<char>,
}

impl View for ProfileLifecycleProof {
    type V = ProofView;

    open spec fn view(&self) -> ProofView {
        ProofView {
            schema_version: self.schema_version@,
            proof_id: self.proof_id@,
            authorization_id: self.authorization_id@,
            profile_id: self.profile_id@,
            policy_revision: self.policy_revision,
            tab_id: self.tab_id@,
            browser_id: self.browser_id@,
            target_id: self.target_id@,
            daemon_session_id: self.daemon_session_id@,
            observed_at: self.observed_at@,
        }
    }
}

/// The texts a proof id digests, joined by NUL.
pub open spec fn proof_payload(
    authorization_id: Seq<char>,
    profile_id: Seq<char>,
    tab_id: Seq<char>,
    browser_id: Seq<char>,
    target_id: Seq<char>,
    daemon_session_id: Seq<char>,
    observed_at: Seq<char>,
) -> Seq<char> {
    let nul = seq!['\0'];
    authorization_id + nul + profile_id + nul + tab_id + nul + browser_id + nul + target_id + nul
        + daemon_session_id + nul + observed_at
}

/// Why an authorization's eviction mode forbids the effect at `observed_at`:
/// graceful-only never forces; force after grace needs a readable deadline
/// that the observation has reached.
pub open spec fn force_refusal(a: ProfileLifecycleAuthorization, observed_at: Seq<char>) -> Option<Seq<char>> {
    match a.eviction_mode {
        ProfileEvictionMode::GracefulOnly => Some("profile_lifecycle_force_not_authorized"@),
        ProfileEvictionMode::ForceImmediate => None,
        ProfileEvictionMode::ForceAfterGrace => match ov(a.grace_deadline) {
            None => Some("profile_lifecycle_grace_deadline_missing"@),
            Some(d) => match rfc3339_instant(d) {
                None => Some("profile_lifecycle_grace_deadline_invalid"@),
                Some(deadline) => match rfc3339_instant(observed_at) {
                    None => Some("profile_lifecycle_observation_time_invalid"@),
                    Some(observed) => if instant_at_or_after(observed, deadline) {
                        None
                    } else {
                        Some("profile_lifecycle_grace_period_active"@)
                    },
                },
            },
        },
    }
}

/// The proof an eviction gets, or why it is refused: the authorization
/// must exist, be live, grant eviction of the tab and allow force now; the
/// profile's policy fence must still be the authorized, draining,
/// force-authorized revision; and the tab's recorded browser, target and
/// daemon route must be exactly what the daemon observed attached.
pub open spec fn eviction_proof_spec(
    state: ServiceState,
    authorization_id: Seq<char>,
    tab_id: Seq<char>,
    observation: ProfileTabPhysicalObservation,
) -> Result<ProofView, Seq<char>> {
    match lookup(state.profile_lifecycle_authorizations@, authorization_id) {
        None => Err("profile_lifecycle_authorization_missing"@),
        Some(a) => if a.schema_version@ != PROFILE_LIFECYCLE_AUTHORIZATION_SCHEMA_V1@ || !(a.state
            == ProfileLifecycleAuthorizationState::Authorized || a.state
            == ProfileLifecycleAuthorizationState::Incomplete) || a.permission@ != "evict"@ || !strs(
            a.target_resource_ids@,
        ).contains(tab_id) {
            Err("profile_lifecycle_authorization_mismatch"@)
        } else if force_refusal(a, observation.observed_at@) is Some {
            Err(force_refusal(a, observation.observed_at@)->0)
        } else {
            match lookup(state.profiles@, a.profile_id@) {
                None => Err("profile_lifecycle_profile_missing"@),
                Some(p) => match p.access_fence {
                    None => Err("profile_lifecycle_policy_missing"@),
                    Some(fence) => if fence.revision != a.policy_revision || !fence.draining
                        || !fence.force_authorized {
                        Err("profile_lifecycle_policy_fence_changed"@)
                    } else {
                        match lookup(state.tabs@, tab_id) {
                            None => Err("profile_lifecycle_tab_missing"@),
                            Some(t) => match ov(t.target_id) {
                                None => Err("profile_lifecycle_target_unproven"@),
                                Some(target) => match first_of(ov(t.owner_session_id), ov(t.session_id)) {
                                    None => Err("profile_lifecycle_daemon_route_unproven"@),
                                    Some(route) => if t.lifecycle == TabLifecycle::Closed || t.browser_id@
                                        != observation.browser_id@ || target != observation.target_id@ || route
                                        != observation.daemon_session_id@ || !strs(
                                        observation.attached_target_ids@,
                                    ).contains(target) {
                                        Err("profile_lifecycle_physical_target_mismatch"@)
                                    } else {
                                        Ok(
                                            ProofView {
                                                schema_version: PROFILE_LIFECYCLE_PROOF_SCHEMA_V1@,
                                                proof_id: "profile-lifecycle-proof:"@ + digest_text_spec(
                                                    proof_payload(
                                                        authorization_id,
                                                        a.profile_id@,
                                                        tab_id,
                                                        t.browser_id@,
                                                        target,
                                                        observation.daemon_session_id@,
                                                        observation.observed_at@,
                                                    ),
                                                ),
                                                authorization_id,
                                                profile_id: a.profile_id@,
                                                policy_revision: a.policy_revision,
                                                tab_id,
                                                browser_id: t.browser_id@,
                                                target_id: target,
                                                daemon_session_id: observation.daemon_session_id@,
                                                observed_at: observation.observed_at@,
                                            },
                                        )
                                    },
                                },
                            },
                        }
                    },
                },
            }
        },
    }
}

/// Why the authorization's eviction mode forbids the effect now.
fn force_refusal_of(a: &ProfileLifecycleAuthorization, observed_at: &str) -> (r: Option<&'static str>)
    ensures
        crate::decision::os(r) == force_refusal(*a, observed_at@),
{
    match a.eviction_mode {
        ProfileEvictionMode::GracefulOnly => Some("profile_lifecycle_force_not_authorized"),
        ProfileEvictionMode::ForceImmediate => None,
        ProfileEvictionMode::ForceAfterGrace => {
            let d = match &a.grace_deadline {
                Some(d) => d,
                None => return Some("profile_lifecycle_grace_deadline_missing"),
            };
            let deadline = match parse_rfc3339(d.as_str()) {
                Some(x) => x,
                None => return Some("profile_lifecycle_grace_deadline_invalid"),
            };
            let observed = match parse_rfc3339(observed_at) {
                Some(x) => x,
                None => return Some("profile_lifecycle_observation_time_invalid"),
            };
            if observed.0 > deadline.0 || (observed.0 == deadline.0 && observed.1 >= deadline.1) {
                None
            } else {
                Some("profile_lifecycle_grace_period_active")
            }
        },
    }
}

/// The NUL-joined texts a proof id digests.
fn payload_of(
    authorization_id: &str,
    profile_id: &str,
    tab_id: &str,
    browser_id: &str,
    target_id: &str,
    daemon_session_id: &str,
    observed_at: &str,
) -> (r: String)
    ensures
        r@ == proof_payload(
            authorization_id@,
            profile_id@,
            tab_id@,
            browser_id@,
            target_id@,
            daemon_session_id@,
            observed_at@,
        ),
{
    proof {
        reveal_strlit("\0");
        assert("\0"@ =~= seq!['\0']);
    }
    let s = owned(authorization_id).concat("\0").concat(profile_id).concat("\0").concat(tab_id).concat("\0").concat(
        browser_id,
    ).concat("\0").concat(target_id).concat("\0").concat(daemon_session_id).concat("\0").concat(observed_at);
    s
}

/// Proves that an authorized tab eviction targets exactly what the
/// executing daemon observed attached, or says why it does not.
#[verifier::rlimit(60)]
pub fn prove_profile_tab_eviction(
    state: &ServiceState,
    authorization_id: &str,
    tab_id: &str,
    observation: &ProfileTabPhysicalObservation,
) -> (r: Result<ProfileLifecycleProof, String>)
    ensures
        match r {
            Ok(p) => eviction_proof_spec(*state, authorization_id@, tab_id@, *observation) == Ok::<
                ProofView,
                Seq<char>,
            >(p@),
            Err(e) => eviction_proof_spec(*state, authorization_id@, tab_id@, *observation) == Err::<
                ProofView,
                Seq<char>,
            >(e@),
        },
{
    let a = match get_keyed(&state.profile_lifecycle_authorizations, authorization_id) {
        Some(a) => a,
        None => return Err(owned("profile_lifecycle_authorization_missing")),
    };
    if !str_equal(a.schema_version.as_str(), PROFILE_LIFECYCLE_AUTHORIZATION_SCHEMA_V1) || !(a.state
        == ProfileLifecycleAuthorizationState::Authorized || a.state == ProfileLifecycleAuthorizationState::Incomplete)
        || !str_equal(a.permission.as_str(), "evict") || !contains_text(&a.target_resource_ids, tab_id) {
        return Err(owned("profile_lifecycle_authorization_mismatch"));
    }
    match force_refusal_of(a, observation.observed_at.as_str()) {
        Some(reason) => return Err(owned(reason)),
        None => {},
    }
    let profile = match get_keyed(&state.profiles, a.profile_id.as_str()) {
        Some(p) => p,
        None => return Err(owned("profile_lifecycle_profile_missing")),
    };
    let fence = match &profile.access_fence {
        Some(f) => f,
        None => return Err(owned("profile_lifecycle_policy_missing")),
    };
    if fence.revision != a.policy_revision || !fence.draining || !fence.force_authorized {
        return Err(owned("profile_lifecycle_policy_fence_changed"));
    }
    let tab = match get_keyed(&state.tabs, tab_id) {
        Some(t) => t,
        None => return Err(owned("profile_lifecycle_tab_missing")),
    };
    let target = match &tab.target_id {
        Some(t) => t,
        None => return Err(owned("profile_lifecycle_target_unproven")),
    };
    let route = match &tab.owner_session_id {
        Some(s) => s,
        None => match &tab.session_id {
            Some(s) => s,
            None => return Err(owned("profile_lifecycle_daemon_route_unproven")),
        },
    };
    if tab.lifecycle == TabLifecycle::Closed || !str_equal(tab.browser_id.as_str(), observation.browser_id.as_str())
        || !str_equal(target.as_str(), observation.target_id.as_str()) || !str_equal(
        route.as_str(),
        observation.daemon_session_id.as_str(),
    ) || !contains_text(&observation.attached_target_ids, target.as_str()) {
        return Err(owned("profile_lifecycle_physical_target_mismatch"));
    }
    let payload = payload_of(
        authorization_id,
        a.profile_id.as_str(),
        tab_id,
        tab.browser_id.as_str(),
        target.as_str(),
        observation.daemon_session_id.as_str(),
        observation.observed_at.as_str(),
    );
    let digest = digest_text(payload.as_str());
    Ok(ProfileLifecycleProof {
        schema_version: owned(PROFILE_LIFECYCLE_PROOF_SCHEMA_V1),
        proof_id: concat2("profile-lifecycle-proof:", digest.as_str()),
        authorization_id: owned(authorization_id),
        profile_id: a.profile_id.clone(),
        policy_revision: a.policy_revision,
        tab_id: owned(tab_id),
        browser_id: tab.browser_id.clone(),
        target_id: target.clone(),
        daemon_session_id: observation.daemon_session_id.clone(),
        observed_at: observation.observed_at.clone(),
    })
}

/// The record a lifecycle effect leaves behind.
pub struct ProfileLifecycleEffectReceipt {
    pub schema_version: String,
    pub receipt_id: String,
    pub authorization_id: String,
    pub proof_id: String,
    pub profile_id: String,
    pub policy_revision: u64,
    pub tab_id: String,
    pub browser_id: String,
    pub target_id: String,
    pub cancelled_job_ids: Vec<String>,
    pub released_session_id: Option<String>,
    pub terminated_viewer_lease_ids: Vec<String>,
    pub outcome: String,
    pub completed_at: String,
}

impl Keyed for ProfileLifecycleEffectReceipt {
    open spec fn key_view(&self) -> Seq<char> {
        self.receipt_id@
    }

    fn key(&self) -> (k: &str) {
        self.receipt_id.as_str()
    }
}

/// The texts a receipt id digests, joined by NUL.
pub open spec fn receipt_payload(proof_id: Seq<char>, tab_id: Seq<char>, outcome: Seq<char>) -> Seq<char> {
    proof_id + seq!['\0'] + tab_id + seq!['\0'] + outcome
}

/// The id of the receipt for a proof and an outcome.
pub open spec fn receipt_id_spec(proof_id: Seq<char>, tab_id: Seq<char>, outcome: Seq<char>) -> Seq<char> {
    "profile-lifecycle-receipt:"@ + digest_text_spec(receipt_payload(proof_id, tab_id, outcome))
}

/// The id of the receipt for a proof and an outcome.
fn receipt_id(proof_id: &str, tab_id: &str, outcome: &str) -> (r: String)
    ensures
        r@ == receipt_id_spec(proof_id@, tab_id@, outcome@),
{
    let mut payload = owned(proof_id);
    crate::text::push_char(&mut payload, '\0');
    let payload = concat2(payload.as_str(), tab_id);
    let mut payload = payload;
    crate::text::push_char(&mut payload, '\0');
    let payload = concat2(payload.as_str(), outcome);
    assert(payload@ =~= receipt_payload(proof_id@, tab_id@, outcome@));
    let d = digest_text(payload.as_str());
    concat2("profile-lifecycle-receipt:", d.as_str())
}

/// Whether a receipt records a proof's effect with `outcome` at
/// `completed_at`, its id digesting the proof, the tab and the outcome.
pub open spec fn receipt_records(
    r: ProfileLifecycleEffectReceipt,
    proof: ProofView,
    outcome: Seq<char>,
    completed_at: Seq<char>,
) -> bool {
    &&& r.schema_version@ == PROFILE_LIFECYCLE_RECEIPT_SCHEMA_V1@
    &&& r.receipt_id@ == receipt_id_spec(proof.proof_id, proof.tab_id, outcome)
    &&& r.authorization_id@ == proof.authorization_id
    &&& r.proof_id@ == proof.proof_id
    &&& r.profile_id@ == proof.profile_id
    &&& r.policy_revision == proof.policy_revision
    &&& r.tab_id@ == proof.tab_id
    &&& r.browser_id@ == proof.browser_id
    &&& r.target_id@ == proof.target_id
    &&& r.outcome@ == outcome
    &&& r.completed_at@ == completed_at
}

/// Whether two receipts hold the same record.
pub open spec fn receipt_same(a: ProfileLifecycleEffectReceipt, b: ProfileLifecycleEffectReceipt) -> bool {
    &&& a.schema_version@ == b.schema_version@
    &&& a.receipt_id@ == b.receipt_id@
    &&& a.authorization_id@ == b.authorization_id@
    &&& a.proof_id@ == b.proof_id@
    &&& a.profile_id@ == b.profile_id@
    &&& a.policy_revision == b.policy_revision
    &&& a.tab_id@ == b.tab_id@
    &&& a.browser_id@ == b.browser_id@
    &&& a.target_id@ == b.target_id@
    &&& strs(a.cancelled_job_ids@) == strs(b.cancelled_job_ids@)
    &&& ov(a.released_session_id) == ov(b.released_session_id)
    &&& strs(a.terminated_viewer_lease_ids@) == strs(b.terminated_viewer_lease_ids@)
    &&& a.outcome@ == b.outcome@
    &&& a.completed_at@ == b.completed_at@
}

/// A receipt for a proof's effect, with what the effect touched.
fn make_receipt(
    proof: &ProfileLifecycleProof,
    outcome: &str,
    completed_at: &str,
    cancelled_job_ids: Vec<String>,
    released_session_id: Option<String>,
    terminated_viewer_lease_ids: Vec<String>,
) -> (r: ProfileLifecycleEffectReceipt)
    ensures
        receipt_records(r, proof@, outcome@, completed_at@),
        r.cancelled_job_ids == cancelled_job_ids,
        r.released_session_id == released_session_id,
        r.terminated_viewer_lease_ids == terminated_viewer_lease_ids,
{
    ProfileLifecycleEffectReceipt {
        schema_version: owned(PROFILE_LIFECYCLE_RECEIPT_SCHEMA_V1),
        receipt_id: receipt_id(proof.proof_id.as_str(), proof.tab_id.as_str(), outcome),
        authorization_id: proof.authorization_id.clone(),
        proof_id: proof.proof_id.clone(),
        profile_id: proof.profile_id.clone(),
        policy_revision: proof.policy_revision,
        tab_id: proof.tab_id.clone(),
        browser_id: proof.browser_id.clone(),
        target_id: proof.target_id.clone(),
        cancelled_job_ids,
        released_session_id,
        terminated_viewer_lease_ids,
        outcome: owned(outcome),
        completed_at: owned(completed_at),
    }
}

/// Sets the state of the authorization with a given id, keeping every
/// other authorization.
fn set_authorization_state(
    authorizations: &mut Vec<ProfileLifecycleAuthorization>,
    i: usize,
    state: ProfileLifecycleAuthorizationState,
)
    requires
        keys_sorted(old(authorizations)@),
        i < old(authorizations)@.len(),
    ensures
        keys_sorted(final(authorizations)@),
        forall|k: Seq<char>| #[trigger] lookup(final(authorizations)@, k) == if k == old(authorizations)@[i as int].authorization_id@ {
            Some(ProfileLifecycleAuthorization { state, ..old(authorizations)@[i as int] })
        } else {
            lookup(old(authorizations)@, k)
        },
{
    let ghost before = authorizations@;
    let ghost updated = ProfileLifecycleAuthorization { state, ..before[i as int] };
    proof {
        crate::model::lemma_lookup_update(before, i as int, updated);
    }
    authorizations[i].state = state;
    assert(authorizations@ =~= before.update(i as int, updated));
}

/// Records an eviction whose tab closed but whose settlement could not be
/// confirmed: the authorization is left incomplete and the receipt says so.
pub fn record_uncertain_profile_tab_eviction(
    state: &mut ServiceState,
    proof: &ProfileLifecycleProof,
    completed_at: &str,
) -> (r: Result<ProfileLifecycleEffectReceipt, String>)
    requires
        keys_sorted(old(state).profile_lifecycle_authorizations@),
        keys_sorted(old(state).profile_lifecycle_effect_receipts@),
    ensures
        match r {
            Err(e) => e@ == "profile_lifecycle_authorization_missing"@ && lookup(
                old(state).profile_lifecycle_authorizations@,
                proof.authorization_id@,
            ) is None && *final(state) == *old(state),
            Ok(receipt) => {
                &&& lookup(old(state).profile_lifecycle_authorizations@, proof.authorization_id@) matches Some(a)
                    && lookup(final(state).profile_lifecycle_authorizations@, proof.authorization_id@) == Some(
                    ProfileLifecycleAuthorization { state: ProfileLifecycleAuthorizationState::Incomplete, ..a },
                )
                &&& forall|k: Seq<char>|
                    k != proof.authorization_id@ ==> #[trigger] lookup(final(state).profile_lifecycle_authorizations@, k)
                        == lookup(old(state).profile_lifecycle_authorizations@, k)
                &&& receipt_records(
                    receipt,
                    proof@,
                    "physical_close_acknowledged_settlement_uncertain"@,
                    completed_at@,
                )
                &&& receipt.cancelled_job_ids@.len() == 0
                &&& receipt.released_session_id is None
                &&& receipt.terminated_viewer_lease_ids@.len() == 0
                &&& keys_sorted(final(state).profile_lifecycle_authorizations@)
                &&& keys_sorted(final(state).profile_lifecycle_effect_receipts@)
                &&& lookup(final(state).profile_lifecycle_effect_receipts@, receipt.receipt_id@) matches Some(x)
                    && receipt_same(x, receipt)
                &&& forall|k: Seq<char>|
                    k != receipt.receipt_id@ ==> #[trigger] lookup(final(state).profile_lifecycle_effect_receipts@, k)
                        == lookup(old(state).profile_lifecycle_effect_receipts@, k)
                &&& final(state).tabs == old(state).tabs
                &&& final(state).sessions == old(state).sessions
            },
        },
{
    proof {
        crate::model::lemma_lookup_index(state.profile_lifecycle_authorizations@, proof.authorization_id@);
    }
    let i = match crate::model::find_key(&state.profile_lifecycle_authorizations, proof.authorization_id.as_str()) {
        Some(i) => i,
        None => return Err(owned("profile_lifecycle_authorization_missing")),
    };
    set_authorization_state(&mut state.profile_lifecycle_authorizations, i, ProfileLifecycleAuthorizationState::Incomplete);
    let receipt = make_receipt(
        proof,
        "physical_close_acknowledged_settlement_uncertain",
        completed_at,
        Vec::new(),
        None,
        Vec::new(),
    );
    let stored = make_receipt(
        proof,
        "physical_close_acknowledged_settlement_uncertain",
        completed_at,
        Vec::new(),
        None,
        Vec::new(),
    );
    assert(stored.receipt_id@ == receipt.receipt_id@);
    crate::model::upsert_keyed(&mut state.profile_lifecycle_effect_receipts, stored);
    Ok(receipt)
}

/// Why settling a proven eviction is refused, if it is: the authorization
/// must exist and match the proof's schema, profile, revision and target,
/// and the tab must still be the proven browser target.
pub open spec fn settlement_refusal(state: ServiceState, proof: ProofView) -> Option<Seq<char>> {
    match lookup(state.profile_lifecycle_authorizations@, proof.authorization_id) {
        None => Some("profile_lifecycle_authorization_missing"@),
        Some(a) => if proof.schema_version != PROFILE_LIFECYCLE_PROOF_SCHEMA_V1@ || proof.profile_id != a.profile_id@
            || proof.policy_revision != a.policy_revision || !strs(a.target_resource_ids@).contains(proof.tab_id) {
            Some("profile_lifecycle_proof_mismatch"@)
        } else {
            match lookup(state.tabs@, proof.tab_id) {
                None => Some("profile_lifecycle_tab_missing"@),
                Some(t) => if t.browser_id@ != proof.browser_id || ov(t.target_id) != Some(proof.target_id) {
                    Some("profile_lifecycle_effect_target_changed"@)
                } else {
                    None
                },
            }
        },
    }
}

/// Checks, before any effect, that a proof still settles the authorized tab.
pub fn check_profile_tab_settlement(state: &ServiceState, proof: &ProfileLifecycleProof) -> (r: Result<(), String>)
    ensures
        match r {
            Ok(()) => settlement_refusal(*state, proof@) is None,
            Err(e) => settlement_refusal(*state, proof@) == Some(e@),
        },
{
    let a = match get_keyed(&state.profile_lifecycle_authorizations, proof.authorization_id.as_str()) {
        Some(a) => a,
        None => return Err(owned("profile_lifecycle_authorization_missing")),
    };
    if !str_equal(proof.schema_version.as_str(), PROFILE_LIFECYCLE_PROOF_SCHEMA_V1) || !str_equal(
        proof.profile_id.as_str(),
        a.profile_id.as_str(),
    ) || proof.policy_revision != a.policy_revision || !contains_text(&a.target_resource_ids, proof.tab_id.as_str()) {
        return Err(owned("profile_lifecycle_proof_mismatch"));
    }
    let tab = match get_keyed(&state.tabs, proof.tab_id.as_str()) {
        Some(t) => t,
        None => return Err(owned("profile_lifecycle_tab_missing")),
    };
    let same_target = match &tab.target_id {
        Some(t) => str_equal(t.as_str(), proof.target_id.as_str()),
        None => false,
    };
    if !str_equal(tab.browser_id.as_str(), proof.browser_id.as_str()) || !same_target {
        return Err(owned("profile_lifecycle_effect_target_changed"));
    }
    Ok(())
}

/// The session a tab works for: its owner session, else the session it was opened through.
pub open spec fn tab_session(t: BrowserTab) -> Option<Seq<char>> {
    first_of(ov(t.owner_session_id), ov(t.session_id))
}

/// Whether a tab works for session `s`.
pub open spec fn uses_session(t: BrowserTab, s: Seq<char>) -> bool {
    ov(t.owner_session_id) == Some(s) || ov(t.session_id) == Some(s)
}

/// Whether a tab other than `tab_id` still works for session `s`.
pub open spec fn live_sibling(tabs: Seq<BrowserTab>, tab_id: Seq<char>, s: Seq<char>) -> bool {
    exists|j: int|
        0 <= j < tabs.len() && (#[trigger] tabs[j]).id@ != tab_id && tabs[j].lifecycle != TabLifecycle::Closed
            && uses_session(tabs[j], s)
}

/// The session an evicted tab releases: its session, unless another live
/// tab still works for it.
pub open spec fn released_session(tabs: Seq<BrowserTab>, t: BrowserTab) -> Option<Seq<char>> {
    match tab_session(t) {
        Some(s) => if live_sibling(tabs, t.id@, s) {
            None
        } else {
            Some(s)
        },
        None => None,
    }
}

/// A session released at `at`: released lease, observed at `at`, otherwise unchanged.
pub open spec fn session_released(x: BrowserSession, old: BrowserSession, at: Seq<char>) -> bool {
    &&& x == BrowserSession { lease: LeaseState::Released, last_lease_observed_at: x.last_lease_observed_at, ..old }
    &&& ov(x.last_lease_observed_at) == Some(at)
}

/// A session record after release at `at`: absent if it was absent, else released.
pub open spec fn release_recorded(x: Option<BrowserSession>, o: Option<BrowserSession>, at: Seq<char>) -> bool {
    match o {
        None => x is None,
        Some(os) => match x {
            Some(xs) => session_released(xs, os, at),
            None => false,
        },
    }
}

/// Whether another live tab works for session `s`.
fn has_live_sibling(tabs: &Vec<BrowserTab>, tab_id: &str, s: &str) -> (r: bool)
    ensures
        r == live_sibling(tabs@, tab_id@, s@),
{
    let mut i: usize = 0;
    while i < tabs.len()
        invariant
            i <= tabs@.len(),
            forall|j: int|
                0 <= j < i ==> !((#[trigger] tabs@[j]).id@ != tab_id@ && tabs@[j].lifecycle != TabLifecycle::Closed
                    && uses_session(tabs@[j], s@)),
        decreases tabs@.len() - i,
    {
        let t = &tabs[i];
        if !str_equal(t.id.as_str(), tab_id) && t.lifecycle != TabLifecycle::Closed && (opt_eq(&t.owner_session_id, s)
            || opt_eq(&t.session_id, s)) {
            assert(tabs@[i as int] == *t);
            return true;
        }
        i = i + 1;
    }
    false
}

/// Closes an evicted tab, withdrawing its service tab handle, and releases
/// its session when no other live tab works for it; returns the released
/// session.
pub fn close_evicted_tab(state: &mut ServiceState, proof: &ProfileLifecycleProof, completed_at: &str) -> (r: Option<
    String,
>)
    requires
        settlement_refusal(*old(state), proof@) is None,
        keys_sorted(old(state).tabs@),
        keys_sorted(old(state).sessions@),
    ensures
        keys_sorted(final(state).tabs@),
        keys_sorted(final(state).sessions@),
        lookup(old(state).tabs@, proof.tab_id@) matches Some(t) && {
            &&& lookup(final(state).tabs@, proof.tab_id@) == Some(
                BrowserTab { lifecycle: TabLifecycle::Closed, service_tab_handle: None, ..t },
            )
            &&& ov(r) == released_session(old(state).tabs@, t)
        },
        forall|k: Seq<char>| k != proof.tab_id@ ==> #[trigger] lookup(final(state).tabs@, k) == lookup(old(state).tabs@, k),
        forall|k: Seq<char>|
            ov(r) != Some(k) ==> #[trigger] lookup(final(state).sessions@, k) == lookup(old(state).sessions@, k),
        forall|k: Seq<char>|
            ov(r) == Some(k) ==> release_recorded(
                #[trigger] lookup(final(state).sessions@, k),
                lookup(old(state).sessions@, k),
                completed_at@,
            ),
        *final(state) == (ServiceState { tabs: final(state).tabs, sessions: final(state).sessions, ..*old(state) }),
{
    proof {
        crate::model::lemma_lookup_index(state.tabs@, proof.tab_id@);
    }
    let i = match crate::model::find_key(&state.tabs, proof.tab_id.as_str()) {
        Some(i) => i,
        None => {
            return None;
        },
    };
    let owner = match &state.tabs[i].owner_session_id {
        Some(s) => Some(s.clone()),
        None => clone_opt(&state.tabs[i].session_id),
    };
    let released = match owner {
        Some(s) => if has_live_sibling(&state.tabs, proof.tab_id.as_str(), s.as_str()) {
            None
        } else {
            Some(s)
        },
        None => None,
    };
    let ghost tabs0 = state.tabs@;
    let ghost closed = BrowserTab { lifecycle: TabLifecycle::Closed, service_tab_handle: None, ..tabs0[i as int] };
    proof {
        crate::model::lemma_lookup_update(tabs0, i as int, closed);
    }
    state.tabs[i].lifecycle = TabLifecycle::Closed;
    state.tabs[i].service_tab_handle = None;
    assert(state.tabs@ =~= tabs0.update(i as int, closed));
    match &released {
        Some(s) => {
            let ghost sessions0 = state.sessions@;
            proof {
                crate::model::lemma_lookup_index(sessions0, s@);
            }
            match crate::model::find_key(&state.sessions, s.as_str()) {
                Some(j) => {
                    let ghost o = sessions0[j as int];
                    let at = owned(completed_at);
                    let ghost x = BrowserSession { lease: LeaseState::Released, last_lease_observed_at: Some(at), ..o };
                    proof {
                        crate::model::lemma_lookup_update(sessions0, j as int, x);
                    }
                    state.sessions[j].lease = LeaseState::Released;
                    state.sessions[j].last_lease_observed_at = Some(at);
                    assert(state.sessions@ =~= sessions0.update(j as int, x));
                },
                None => {},
            }
        },
        None => {},
    }
    released
}

/// Whether route `rid` exists and lists viewer lease `l`.
pub open spec fn route_lists(routes: Seq<RemoteViewRoute>, rid: Seq<char>, l: Seq<char>) -> bool {
    match lookup(routes, rid) {
        Some(rt) => strs(rt.viewer_lease_ids@).contains(l),
        None => false,
    }
}

/// Whether viewer lease `l` exists and one of the listed routes lists it.
pub open spec fn routed_viewer(
    routes: Seq<RemoteViewRoute>,
    route_ids: Seq<Seq<char>>,
    leases: Seq<ViewerLease>,
    l: Seq<char>,
) -> bool {
    lookup(leases, l) is Some && exists|j: int| 0 <= j < route_ids.len() && #[trigger] route_lists(routes, route_ids[j], l)
}

/// Whether `x` is viewer lease `o` disconnected by an eviction at `at`.
pub open spec fn disconnected_viewer(x: ViewerLease, o: ViewerLease, at: Seq<char>) -> bool {
    &&& x.id == o.id
    &&& x.state@ == "disconnected"@
    &&& ov(x.last_viewer_event) == Some("profile_evicted"@)
    &&& ov(x.updated_at) == Some(at)
}

/// Whether `x` is route `o` with its viewers cut off by an eviction.
pub open spec fn evicted_route(x: RemoteViewRoute, o: RemoteViewRoute) -> bool {
    &&& x.id == o.id
    &&& x.browser_id == o.browser_id
    &&& x.session_id == o.session_id
    &&& x.viewer_lease_ids@.len() == 0
    &&& ov(x.last_provider_event) == Some("profile_evicted"@)
}

/// Disconnects one viewer lease, when it exists; whether it did.
fn disconnect_viewer(leases: &mut Vec<ViewerLease>, id: &str, at: &str) -> (r: bool)
    requires
        keys_sorted(old(leases)@),
    ensures
        keys_sorted(final(leases)@),
        r == lookup(old(leases)@, id@) is Some,
        r ==> (lookup(final(leases)@, id@) matches Some(x) && x == ViewerLease {
            state: x.state,
            last_viewer_event: x.last_viewer_event,
            updated_at: x.updated_at,
            ..lookup(old(leases)@, id@)->0
        } && x.state@ == "disconnected"@ && ov(x.last_viewer_event) == Some("profile_evicted"@) && ov(x.updated_at)
            == Some(at@)),
        forall|k: Seq<char>| k != id@ ==> #[trigger] lookup(final(leases)@, k) == lookup(old(leases)@, k),
        !r ==> *final(leases) == *old(leases),
{
    proof {
        crate::model::lemma_lookup_index(leases@, id@);
    }
    match crate::model::find_key(leases, id) {
        Some(j) => {
            let ghost before = leases@;
            let state = owned("disconnected");
            let event = Some(owned("profile_evicted"));
            let updated = Some(owned(at));
            let ghost x = ViewerLease { state, last_viewer_event: event, updated_at: updated, ..before[j as int] };
            proof {
                crate::model::lemma_lookup_update(before, j as int, x);
            }
            leases[j].state = state;
            leases[j].last_viewer_event = event;
            leases[j].updated_at = updated;
            assert(leases@ =~= before.update(j as int, x));
            true
        },
        None => false,
    }
}

/// Takes the viewer leases off a route and records that the eviction ended
/// them; the lease ids the route listed, or none when it does not exist.
fn clear_route_viewers(routes: &mut Vec<RemoteViewRoute>, rid: &str) -> (r: Vec<String>)
    requires
        keys_sorted(old(routes)@),
    ensures
        keys_sorted(final(routes)@),
        match lookup(old(routes)@, rid@) {
            Some(o) => lookup(final(routes)@, rid@) matches Some(x) && evicted_route(x, o) && strs(r@) == strs(
                o.viewer_lease_ids@,
            ),
            None => *final(routes) == *old(routes) && r@.len() == 0,
        },
        forall|k: Seq<char>| k != rid@ ==> #[trigger] lookup(final(routes)@, k) == lookup(old(routes)@, k),
{
    proof {
        crate::model::lemma_lookup_index(routes@, rid@);
    }
    match crate::model::find_key(routes, rid) {
        Some(j) => {
            let ghost before = routes@;
            let mut ids: Vec<String> = Vec::new();
            std::mem::swap(&mut ids, &mut routes[j].viewer_lease_ids);
            let event = Some(owned("profile_evicted"));
            routes[j].last_provider_event = event;
            let ghost x = routes@[j as int];
            assert(routes@ =~= before.update(j as int, x));
            proof {
                crate::model::lemma_lookup_update(before, j as int, x);
            }
            ids
        },
        None => Vec::new(),
    }
}

/// Whether `l1` is `l0` with exactly the existing viewer leases in `hit`
/// disconnected at `at`.
pub open spec fn viewers_cut(l0: Seq<ViewerLease>, l1: Seq<ViewerLease>, hit: Set<Seq<char>>, at: Seq<char>) -> bool {
    forall|l: Seq<char>|
        if hit.contains(l) && lookup(l0, l) is Some {
            #[trigger] lookup(l1, l) matches Some(x) && disconnected_viewer(x, lookup(l0, l)->0, at)
        } else {
            lookup(l1, l) == lookup(l0, l)
        }
}

/// Whether `ids` names exactly the existing viewer leases in `hit`.
pub open spec fn ids_cover(ids: Seq<Seq<char>>, l0: Seq<ViewerLease>, hit: Set<Seq<char>>) -> bool {
    forall|l: Seq<char>| #[trigger] ids.contains(l) <==> (hit.contains(l) && lookup(l0, l) is Some)
}

/// Disconnects every existing viewer lease of a list.
fn disconnect_all(
    leases: &mut Vec<ViewerLease>,
    ids: &Vec<String>,
    at: &str,
    out: &mut Vec<String>,
    Ghost(l0): Ghost<Seq<ViewerLease>>,
    Ghost(hit): Ghost<Set<Seq<char>>>,
)
    requires
        keys_sorted(old(leases)@),
        viewers_cut(l0, old(leases)@, hit, at@),
        ids_cover(strs(old(out)@), l0, hit),
    ensures
        keys_sorted(final(leases)@),
        viewers_cut(l0, final(leases)@, Set::new(|l: Seq<char>| hit.contains(l) || strs(ids@).contains(l)), at@),
        ids_cover(strs(final(out)@), l0, Set::new(|l: Seq<char>| hit.contains(l) || strs(ids@).contains(l))),
{
    let mut j: usize = 0;
    while j < ids.len()
        invariant
            j <= ids@.len(),
            keys_sorted(leases@),
            viewers_cut(l0, leases@, Set::new(|l: Seq<char>| hit.contains(l) || strs(ids@).take(j as int).contains(l)), at@),
            ids_cover(strs(out@), l0, Set::new(|l: Seq<char>| hit.contains(l) || strs(ids@).take(j as int).contains(l))),
        decreases ids@.len() - j,
    {
        broadcast use vstd::seq_lib::lemma_seq_contains_after_push;
        let ghost h0 = Set::new(|l: Seq<char>| hit.contains(l) || strs(ids@).take(j as int).contains(l));
        let ghost h1 = Set::new(|l: Seq<char>| hit.contains(l) || strs(ids@).take(j + 1).contains(l));
        let ghost x = ids@[j as int]@;
        assert(strs(ids@).take(j + 1) =~= strs(ids@).take(j as int).push(x));
        assert(forall|l: Seq<char>| #[trigger] h1.contains(l) == (h0.contains(l) || l == x));
        let ghost cur = leases@;
        assert(lookup(cur, x) is Some == lookup(l0, x) is Some);
        let hit_one = disconnect_viewer(leases, ids[j].as_str(), at);
        if hit_one {
            let id = owned(ids[j].as_str());
            proof {
                crate::lease::lemma_strs_push(out@, id);
            }
            out.push(id);
        }
        assert forall|l: Seq<char>|
            if h1.contains(l) && lookup(l0, l) is Some {
                #[trigger] lookup(leases@, l) matches Some(y) && disconnected_viewer(y, lookup(l0, l)->0, at@)
            } else {
                lookup(leases@, l) == lookup(l0, l)
            } by {
            if l != x {
                assert(lookup(leases@, l) == lookup(cur, l));
            }
        }
        j = j + 1;
    }
    assert(strs(ids@).take(ids@.len() as int) =~= strs(ids@));
}

/// The viewer leases that listed routes name, as the routes stood.
pub open spec fn routed_ids(routes: Seq<RemoteViewRoute>, rids: Seq<Seq<char>>) -> Set<Seq<char>> {
    Set::new(|l: Seq<char>| exists|j: int| 0 <= j < rids.len() && #[trigger] route_lists(routes, rids[j], l))
}

/// Whether `r1` is `r0` with the existing routes among `rids` cut off.
pub open spec fn routes_cut(r0: Seq<RemoteViewRoute>, r1: Seq<RemoteViewRoute>, rids: Seq<Seq<char>>) -> bool {
    forall|k: Seq<char>|
        if rids.contains(k) && lookup(r0, k) is Some {
            #[trigger] lookup(r1, k) matches Some(x) && evicted_route(x, lookup(r0, k)->0)
        } else {
            lookup(r1, k) == lookup(r0, k)
        }
}

/// Ends the viewing through the routes of an evicted session: every viewer
/// lease a listed route names is disconnected at `completed_at`, and each
/// listed route loses its viewer leases and records the eviction. Returns
/// the viewer leases disconnected; nothing else changes.
pub fn terminate_route_viewer_leases(state: &mut ServiceState, route_ids: &Vec<String>, completed_at: &str) -> (r: Vec<
    String,
>)
    requires
        keys_sorted(old(state).viewer_leases@),
        keys_sorted(old(state).remote_view_routes@),
    ensures
        keys_sorted(final(state).viewer_leases@),
        keys_sorted(final(state).remote_view_routes@),
        viewers_cut(
            old(state).viewer_leases@,
            final(state).viewer_leases@,
            routed_ids(old(state).remote_view_routes@, strs(route_ids@)),
            completed_at@,
        ),
        ids_cover(strs(r@), old(state).viewer_leases@, routed_ids(old(state).remote_view_routes@, strs(route_ids@))),
        routes_cut(old(state).remote_view_routes@, final(state).remote_view_routes@, strs(route_ids@)),
        *final(state) == (ServiceState {
            viewer_leases: final(state).viewer_leases,
            remote_view_routes: final(state).remote_view_routes,
            ..*old(state)
        }),
{
    let ghost s0 = *state;
    let ghost r0 = state.remote_view_routes@;
    let ghost l0 = state.viewer_leases@;
    let ghost rids = strs(route_ids@);
    let mut out: Vec<String> = Vec::new();
    let mut i: usize = 0;
    assert(routed_ids(r0, rids.take(0)) =~= Set::<Seq<char>>::empty());
    while i < route_ids.len()
        invariant
            i <= route_ids@.len(),
            rids == strs(route_ids@),
            r0 == s0.remote_view_routes@,
            l0 == s0.viewer_leases@,
            keys_sorted(state.viewer_leases@),
            keys_sorted(state.remote_view_routes@),
            viewers_cut(l0, state.viewer_leases@, routed_ids(r0, rids.take(i as int)), completed_at@),
            ids_cover(strs(out@), l0, routed_ids(r0, rids.take(i as int))),
            routes_cut(r0, state.remote_view_routes@, rids.take(i as int)),
            *state == (ServiceState {
                viewer_leases: state.viewer_leases,
                remote_view_routes: state.remote_view_routes,
                ..s0
            }),
        decreases route_ids@.len() - i,
    {
        broadcast use vstd::seq_lib::lemma_seq_contains_after_push;
        let ghost rid = rids[i as int];
        let ghost prefix = rids.take(i as int);
        assert(rids.take(i + 1) =~= prefix.push(rid));
        let ghost cur_routes = state.remote_view_routes@;
        let ids = clear_route_viewers(&mut state.remote_view_routes, route_ids[i].as_str());
        let ghost h0 = routed_ids(r0, prefix);
        let ghost h1 = routed_ids(r0, rids.take(i + 1));
        assert forall|l: Seq<char>| #[trigger] h1.contains(l) == (h0.contains(l) || strs(ids@).contains(l)) by {
            if h1.contains(l) {
                let j = choose|j: int| 0 <= j < i + 1 && #[trigger] route_lists(r0, rids.take(i + 1)[j], l);
                if j < i {
                    assert(rids.take(i + 1)[j] == prefix[j]);
                    assert(route_lists(r0, prefix[j], l));
                } else {
                    assert(rids.take(i + 1)[j] == rid);
                    if prefix.contains(rid) {
                        let k = choose|k: int| 0 <= k < prefix.len() && prefix[k] == rid;
                        assert(route_lists(r0, prefix[k], l));
                    }
                }
            }
            if h0.contains(l) {
                let j = choose|j: int| 0 <= j < i && #[trigger] route_lists(r0, prefix[j], l);
                assert(rids.take(i + 1)[j] == prefix[j]);
                assert(route_lists(r0, rids.take(i + 1)[j], l));
            }
            if strs(ids@).contains(l) {
                assert(!prefix.contains(rid));
                assert(rids.take(i + 1)[i as int] == rid);
                assert(route_lists(r0, rids.take(i + 1)[i as int], l));
            }
        }
        disconnect_all(&mut state.viewer_leases, &ids, completed_at, &mut out, Ghost(l0), Ghost(h0));
        assert(Set::new(|l: Seq<char>| h0.contains(l) || strs(ids@).contains(l)) =~= h1);
        assert forall|k: Seq<char>|
            if rids.take(i + 1).contains(k) && lookup(r0, k) is Some {
                #[trigger] lookup(state.remote_view_routes@, k) matches Some(x) && evicted_route(x, lookup(r0, k)->0)
            } else {
                lookup(state.remote_view_routes@, k) == lookup(r0, k)
            } by {
            if k != rid {
                assert(lookup(state.remote_view_routes@, k) == lookup(cur_routes, k));
            }
        }
        i = i + 1;
    }
    assert(rids.take(route_ids@.len() as int) =~= rids);
    out
}

/// The routes that serve a session, by id, in order.
pub open spec fn session_routes(routes: Seq<RemoteViewRoute>, s: Seq<char>) -> Seq<Seq<char>> {
    routes.filter(|r: RemoteViewRoute| ov(r.session_id) == Some(s)).map_values(|r: RemoteViewRoute| r.id@)
}

/// The routes that serve a session, by id, in order.
pub fn routes_for_session(state: &ServiceState, s: &str) -> (r: Vec<String>)
    ensures
        strs(r@) == session_routes(state.remote_view_routes@, s@),
{
    let routes = &state.remote_view_routes;
    let ghost pred = |r: RemoteViewRoute| ov(r.session_id) == Some(s@);
    let ghost f = |r: RemoteViewRoute| r.id@;
    let mut out: Vec<String> = Vec::new();
    let mut i: usize = 0;
    while i < routes.len()
        invariant
            i <= routes@.len(),
            pred == (|r: RemoteViewRoute| ov(r.session_id) == Some(s@)),
            f == (|r: RemoteViewRoute| r.id@),
            strs(out@) == routes@.take(i as int).filter(pred).map_values(f),
        decreases routes@.len() - i,
    {
        proof {
            crate::seqs::lemma_filter_take_step(routes@, pred, i as int);
        }
        if opt_eq(&routes[i].session_id, s) {
            let id = routes[i].id.clone();
            proof {
                crate::lease::lemma_strs_push(out@, id);
            }
            out.push(id);
        }
        assert(routes@.take(i + 1).filter(pred).map_values(f) =~= strs(out@));
        i = i + 1;
    }
    assert(routes@.take(routes@.len() as int) =~= routes@);
    out
}

/// Whether every target of an authorization is closed or gone.
pub open spec fn all_targets_closed(tabs: Seq<BrowserTab>, targets: Seq<Seq<char>>) -> bool {
    forall|i: int|
        0 <= i < targets.len() ==> match lookup(tabs, #[trigger] targets[i]) {
            None => true,
            Some(t) => t.lifecycle == TabLifecycle::Closed,
        }
}

/// The outcome of a settled eviction: completed once every target is closed.
pub open spec fn settlement_outcome(tabs: Seq<BrowserTab>, targets: Seq<Seq<char>>) -> Seq<char> {
    if all_targets_closed(tabs, targets) {
        "forced_eviction_completed"@
    } else {
        "forced_eviction_incomplete"@
    }
}

/// Whether every target of an authorization is closed or gone.
fn targets_closed(tabs: &Vec<BrowserTab>, targets: &Vec<String>) -> (r: bool)
    ensures
        r == all_targets_closed(tabs@, strs(targets@)),
{
    let mut i: usize = 0;
    while i < targets.len()
        invariant
            i <= targets@.len(),
            forall|j: int|
                0 <= j < i ==> match lookup(tabs@, #[trigger] strs(targets@)[j]) {
                    None => true,
                    Some(t) => t.lifecycle == TabLifecycle::Closed,
                },
        decreases targets@.len() - i,
    {
        assert(strs(targets@)[i as int] == targets@[i as int]@);
        match get_keyed(tabs, targets[i].as_str()) {
            Some(t) => {
                if t.lifecycle != TabLifecycle::Closed {
                    return false;
                }
            },
            None => {},
        }
        i = i + 1;
    }
    true
}

/// The texts in strict order, each once.
fn sorted_unique(v: &Vec<String>) -> (r: Vec<String>)
    ensures
        strictly_sorted(strs(r@)),
        strs(r@).to_set() == strs(v@).to_set(),
{
    let mut out: Vec<String> = Vec::new();
    let mut i: usize = 0;
    assert(strs(out@).to_set() =~= strs(v@).take(0).to_set());
    while i < v.len()
        invariant
            i <= v@.len(),
            strictly_sorted(strs(out@)),
            strs(out@).to_set() == strs(v@).take(i as int).to_set(),
        decreases v@.len() - i,
    {
        let id = v[i].clone();
        proof {
            assert(strs(v@).take(i + 1) =~= strs(v@).take(i as int).push(id@));
            strs(v@).take(i as int).lemma_push_to_set_commute(id@);
        }
        crate::seqs::insert_sorted_unique(&mut out, id);
        proof {
            assert(strs(out@).to_set() =~= strs(v@).take(i + 1).to_set());
        }
        i = i + 1;
    }
    assert(strs(v@).take(v@.len() as int) =~= strs(v@));
    out
}

/// Finishes a settled eviction: marks the authorization completed once
/// every target is closed (incomplete otherwise) and stores the receipt,
/// which lists the cancelled jobs, the released session, and the
/// terminated viewer leases in order, each once.
pub fn finish_profile_tab_settlement(
    state: &mut ServiceState,
    proof: &ProfileLifecycleProof,
    completed_at: &str,
    cancelled_job_ids: Vec<String>,
    released_session_id: Option<String>,
    terminated_viewer_lease_ids: &Vec<String>,
) -> (r: ProfileLifecycleEffectReceipt)
    requires
        lookup(old(state).profile_lifecycle_authorizations@, proof.authorization_id@) is Some,
        keys_sorted(old(state).profile_lifecycle_authorizations@),
        keys_sorted(old(state).profile_lifecycle_effect_receipts@),
    ensures
        lookup(old(state).profile_lifecycle_authorizations@, proof.authorization_id@) matches Some(a) && {
            let targets = strs(a.target_resource_ids@);
            &&& lookup(final(state).profile_lifecycle_authorizations@, proof.authorization_id@) == Some(
                ProfileLifecycleAuthorization {
                    state: if all_targets_closed(old(state).tabs@, targets) {
                        ProfileLifecycleAuthorizationState::Completed
                    } else {
                        ProfileLifecycleAuthorizationState::Incomplete
                    },
                    ..a
                },
            )
            &&& receipt_records(r, proof@, settlement_outcome(old(state).tabs@, targets), completed_at@)
        },
        forall|k: Seq<char>|
            k != proof.authorization_id@ ==> #[trigger] lookup(final(state).profile_lifecycle_authorizations@, k)
                == lookup(old(state).profile_lifecycle_authorizations@, k),
        r.cancelled_job_ids == cancelled_job_ids,
        r.released_session_id == released_session_id,
        strictly_sorted(strs(r.terminated_viewer_lease_ids@)),
        strs(r.terminated_viewer_lease_ids@).to_set() == strs(terminated_viewer_lease_ids@).to_set(),
        keys_sorted(final(state).profile_lifecycle_authorizations@),
        keys_sorted(final(state).profile_lifecycle_effect_receipts@),
        lookup(final(state).profile_lifecycle_effect_receipts@, r.receipt_id@) matches Some(x) && receipt_same(x, r),
        forall|k: Seq<char>|
            k != r.receipt_id@ ==> #[trigger] lookup(final(state).profile_lifecycle_effect_receipts@, k) == lookup(
                old(state).profile_lifecycle_effect_receipts@,
                k,
            ),
        *final(state) == (ServiceState {
            profile_lifecycle_authorizations: final(state).profile_lifecycle_authorizations,
            profile_lifecycle_effect_receipts: final(state).profile_lifecycle_effect_receipts,
            ..*old(state)
        }),
{
    proof {
        crate::model::lemma_lookup_index(state.profile_lifecycle_authorizations@, proof.authorization_id@);
    }
    let i = match crate::model::find_key(&state.profile_lifecycle_authorizations, proof.authorization_id.as_str()) {
        Some(i) => i,
        None => {
            return make_receipt(proof, "", completed_at, cancelled_job_ids, released_session_id, Vec::new());
        },
    };
    let complete = targets_closed(&state.tabs, &state.profile_lifecycle_authorizations[i].target_resource_ids);
    let new_state = if complete {
        ProfileLifecycleAuthorizationState::Completed
    } else {
        ProfileLifecycleAuthorizationState::Incomplete
    };
    set_authorization_state(&mut state.profile_lifecycle_authorizations, i, new_state);
    let outcome = if complete {
        "forced_eviction_completed"
    } else {
        "forced_eviction_incomplete"
    };
    let leases = sorted_unique(terminated_viewer_lease_ids);
    let stored = make_receipt(
        proof,
        outcome,
        completed_at,
        clone_strings(&cancelled_job_ids),
        clone_opt(&released_session_id),
        clone_strings(&leases),
    );
    let receipt = make_receipt(proof, outcome, completed_at, cancelled_job_ids, released_session_id, leases);
    crate::model::upsert_keyed(&mut state.profile_lifecycle_effect_receipts, stored);
    receipt
}

/// The routes a settled eviction cuts: those serving the released session.
pub open spec fn evicted_routes(routes: Seq<RemoteViewRoute>, released: Option<Seq<char>>) -> Seq<Seq<char>> {
    match released {
        Some(s) => session_routes(routes, s),
        None => Seq::empty(),
    }
}

/// Whether `s1` is `s0` after settling a proven eviction with receipt `r`:
/// the tab is closed without its handle; its session, unless another live
/// tab works for it, is released; the viewer leases of that session's
/// routes are disconnected and the routes cut; the authorization is
/// completed once every target is closed (incomplete otherwise); and the
/// receipt, stored under its id, records the outcome, the released session
/// and the disconnected viewer leases in order. Nothing else changes.
pub open spec fn eviction_settled(
    s0: ServiceState,
    s1: ServiceState,
    proof: ProofView,
    at: Seq<char>,
    r: ProfileLifecycleEffectReceipt,
) -> bool {
    let released = ov(r.released_session_id);
    let rids = evicted_routes(s0.remote_view_routes@, released);
    let hit = routed_ids(s0.remote_view_routes@, rids);
    &&& lookup(s0.tabs@, proof.tab_id) matches Some(t) && lookup(s1.tabs@, proof.tab_id) == Some(
        BrowserTab { lifecycle: TabLifecycle::Closed, service_tab_handle: None, ..t },
    ) && released == released_session(s0.tabs@, t)
    &&& forall|k: Seq<char>| k != proof.tab_id ==> #[trigger] lookup(s1.tabs@, k) == lookup(s0.tabs@, k)
    &&& forall|k: Seq<char>| released != Some(k) ==> #[trigger] lookup(s1.sessions@, k) == lookup(s0.sessions@, k)
    &&& forall|k: Seq<char>|
        released == Some(k) ==> release_recorded(#[trigger] lookup(s1.sessions@, k), lookup(s0.sessions@, k), at)
    &&& viewers_cut(s0.viewer_leases@, s1.viewer_leases@, hit, at)
    &&& ids_cover(strs(r.terminated_viewer_lease_ids@), s0.viewer_leases@, hit)
    &&& strictly_sorted(strs(r.terminated_viewer_lease_ids@))
    &&& routes_cut(s0.remote_view_routes@, s1.remote_view_routes@, rids)
    &&& lookup(s0.profile_lifecycle_authorizations@, proof.authorization_id) matches Some(a) && {
        let targets = strs(a.target_resource_ids@);
        &&& lookup(s1.profile_lifecycle_authorizations@, proof.authorization_id) == Some(
            ProfileLifecycleAuthorization {
                state: if all_targets_closed(s1.tabs@, targets) {
                    ProfileLifecycleAuthorizationState::Completed
                } else {
                    ProfileLifecycleAuthorizationState::Incomplete
                },
                ..a
            },
        )
        &&& receipt_records(r, proof, settlement_outcome(s1.tabs@, targets), at)
    }
    &&& forall|k: Seq<char>|
        k != proof.authorization_id ==> #[trigger] lookup(s1.profile_lifecycle_authorizations@, k) == lookup(
            s0.profile_lifecycle_authorizations@,
            k,
        )
    &&& lookup(s1.profile_lifecycle_effect_receipts@, r.receipt_id@) matches Some(x) && receipt_same(x, r)
    &&& forall|k: Seq<char>|
        k != r.receipt_id@ ==> #[trigger] lookup(s1.profile_lifecycle_effect_receipts@, k) == lookup(
            s0.profile_lifecycle_effect_receipts@,
            k,
        )
    &&& s1 == (ServiceState {
        tabs: s1.tabs,
        sessions: s1.sessions,
        viewer_leases: s1.viewer_leases,
        remote_view_routes: s1.remote_view_routes,
        profile_lifecycle_authorizations: s1.profile_lifecycle_authorizations,
        profile_lifecycle_effect_receipts: s1.profile_lifecycle_effect_receipts,
        ..s0
    })
}

/// Settles a proven tab eviction once the tab has closed: checks that the
/// proof still names the authorized tab, then closes it, releases its
/// session, ends the viewing through that session's routes, and finishes
/// the authorization with a stored receipt. `cancelled_job_ids` are the
/// jobs the caller cancelled for the eviction. A refused settlement
/// changes nothing.
pub fn settle_profile_tab_eviction(
    state: &mut ServiceState,
    proof: &ProfileLifecycleProof,
    completed_at: &str,
    cancelled_job_ids: Vec<String>,
) -> (r: Result<ProfileLifecycleEffectReceipt, String>)
    requires
        keys_sorted(old(state).tabs@),
        keys_sorted(old(state).sessions@),
        keys_sorted(old(state).viewer_leases@),
        keys_sorted(old(state).remote_view_routes@),
        keys_sorted(old(state).profile_lifecycle_authorizations@),
        keys_sorted(old(state).profile_lifecycle_effect_receipts@),
    ensures
        keys_sorted(final(state).tabs@),
        keys_sorted(final(state).sessions@),
        keys_sorted(final(state).viewer_leases@),
        keys_sorted(final(state).remote_view_routes@),
        keys_sorted(final(state).profile_lifecycle_authorizations@),
        keys_sorted(final(state).profile_lifecycle_effect_receipts@),
        match r {
            Ok(x) => settlement_refusal(*old(state), proof@) is None && eviction_settled(
                *old(state),
                *final(state),
                proof@,
                completed_at@,
                x,
            ) && x.cancelled_job_ids@ == cancelled_job_ids@,
            Err(e) => settlement_refusal(*old(state), proof@) == Some(e@) && *final(state) == *old(state),
        },
{
    match check_profile_tab_settlement(state, proof) {
        Ok(()) => {},
        Err(e) => {
            return Err(e);
        },
    }
    let ghost s0 = *state;
    let released = close_evicted_tab(state, proof, completed_at);
    let ghost s1 = *state;
    let route_ids = match &released {
        Some(s) => routes_for_session(state, s.as_str()),
        None => Vec::new(),
    };
    assert(strs(route_ids@) == evicted_routes(s0.remote_view_routes@, ov(released)));
    let terminated = terminate_route_viewer_leases(state, &route_ids, completed_at);
    let ghost s2 = *state;
    let receipt = finish_profile_tab_settlement(state, proof, completed_at, cancelled_job_ids, released, &terminated);
    assert(ids_cover(
        strs(receipt.terminated_viewer_lease_ids@),
        s0.viewer_leases@,
        routed_ids(s0.remote_view_routes@, strs(route_ids@)),
    )) by {
        assert forall|l: Seq<char>| #[trigger] strs(receipt.terminated_viewer_lease_ids@).contains(l) == strs(
            terminated@,
        ).contains(l) by {
            assert(strs(receipt.terminated_viewer_lease_ids@).to_set().contains(l) == strs(terminated@).to_set().contains(l));
        }
    }
    Ok(receipt)
}

/// Law: once an eviction is settled, the state holds a receipt that settles
/// the proof's authorization and tab, so that repeating the eviction
/// command replays a receipt instead of acting again.
pub proof fn law_settled_eviction_replays(
    s0: ServiceState,
    s1: ServiceState,
    proof: ProofView,
    at: Seq<char>,
    r: ProfileLifecycleEffectReceipt,
)
    requires
        eviction_settled(s0, s1, proof, at, r),
    ensures
        exists|i: int|
            0 <= i < s1.profile_lifecycle_effect_receipts@.len() && settles(
                #[trigger] s1.profile_lifecycle_effect_receipts@[i],
                proof.authorization_id,
                proof.tab_id,
            ),
{
    crate::model::lemma_lookup_index(s1.profile_lifecycle_effect_receipts@, r.receipt_id@);
    let i = crate::model::lookup_index(s1.profile_lifecycle_effect_receipts@, r.receipt_id@)->0 as int;
    assert(settles(s1.profile_lifecycle_effect_receipts@[i], proof.authorization_id, proof.tab_id));
}

/// Whether a tab record is the proven target, still closing.
pub open spec fn restorable(t: Option<BrowserTab>, proof: ProofView) -> bool {
    match t {
        Some(x) => x.browser_id@ == proof.browser_id && ov(x.target_id) == Some(proof.target_id) && x.lifecycle
            == TabLifecycle::Closing,
        None => false,
    }
}

/// Puts back into service a tab whose eviction failed: the proven tab, if
/// it is still closing on the proven browser target, is ready again.
pub fn restore_profile_tab_after_failed_eviction(state: &mut ServiceState, proof: &ProfileLifecycleProof)
    requires
        keys_sorted(old(state).tabs@),
    ensures
        keys_sorted(final(state).tabs@),
        forall|k: Seq<char>|
            #[trigger] lookup(final(state).tabs@, k) == if k == proof.tab_id@ && restorable(
                lookup(old(state).tabs@, k),
                proof@,
            ) {
                Some(BrowserTab { lifecycle: TabLifecycle::Ready, ..lookup(old(state).tabs@, k)->0 })
            } else {
                lookup(old(state).tabs@, k)
            },
        final(state).sessions == old(state).sessions,
        final(state).profile_lifecycle_authorizations == old(state).profile_lifecycle_authorizations,
        final(state).profile_lifecycle_effect_receipts == old(state).profile_lifecycle_effect_receipts,
{
    proof {
        crate::model::lemma_lookup_index(state.tabs@, proof.tab_id@);
    }
    let i = match crate::model::find_key(&state.tabs, proof.tab_id.as_str()) {
        Some(i) => i,
        None => return ,
    };
    let t = &state.tabs[i];
    let same_target = match &t.target_id {
        Some(x) => str_equal(x.as_str(), proof.target_id.as_str()),
        None => false,
    };
    if str_equal(t.browser_id.as_str(), proof.browser_id.as_str()) && same_target && t.lifecycle
        == TabLifecycle::Closing {
        let ghost tabs0 = state.tabs@;
        let ghost ready = BrowserTab { lifecycle: TabLifecycle::Ready, ..tabs0[i as int] };
        proof {
            crate::model::lemma_lookup_update(tabs0, i as int, ready);
        }
        state.tabs[i].lifecycle = TabLifecycle::Ready;
        assert(state.tabs@ =~= tabs0.update(i as int, ready));
    }
}

/// The authorization and tab an eviction command names, or why it names none.
pub open spec fn evict_command_spec(cmd: JsonValue) -> Result<(Seq<char>, Seq<char>), Seq<char>> {
    match field_str(cmd, "authorizationId"@) {
        Some(a) if trim(a).len() > 0 => match field_str(cmd, "tabId"@) {
            Some(t) if trim(t).len() > 0 => Ok((a, t)),
            _ => Err("service_profile_tab_evict requires tabId"@),
        },
        _ => Err("service_profile_tab_evict requires authorizationId"@),
    }
}

/// Reads the authorization and tab an eviction command names.
pub fn evict_command_fields(cmd: &JsonValue) -> (r: Result<(String, String), String>)
    ensures
        match r {
            Ok((a, t)) => evict_command_spec(*cmd) == Ok::<(Seq<char>, Seq<char>), Seq<char>>((a@, t@)),
            Err(e) => evict_command_spec(*cmd) == Err::<(Seq<char>, Seq<char>), Seq<char>>(e@),
        },
{
    let a = match cmd.field_str("authorizationId") {
        Some(a) => {
            if is_blank(a) {
                return Err(owned("service_profile_tab_evict requires authorizationId"));
            }
            a
        },
        None => return Err(owned("service_profile_tab_evict requires authorizationId")),
    };
    let t = match cmd.field_str("tabId") {
        Some(t) => {
            if is_blank(t) {
                return Err(owned("service_profile_tab_evict requires tabId"));
            }
            t
        },
        None => return Err(owned("service_profile_tab_evict requires tabId")),
    };
    Ok((owned(a), owned(t)))
}

/// Whether a receipt already settles an authorization's eviction of a tab.
pub open spec fn settles(r: ProfileLifecycleEffectReceipt, authorization_id: Seq<char>, tab_id: Seq<char>) -> bool {
    r.authorization_id@ == authorization_id && r.tab_id@ == tab_id
}

/// The first stored receipt that already settles an authorization's
/// eviction of a tab, so a repeated command replays it.
pub fn replayed_eviction_receipt<'a>(state: &'a ServiceState, authorization_id: &str, tab_id: &str) -> (r: Option<
    &'a ProfileLifecycleEffectReceipt,
>)
    ensures
        match r {
            Some(x) => settles(*x, authorization_id@, tab_id@) && exists|i: int|
                0 <= i < state.profile_lifecycle_effect_receipts@.len()
                    && state.profile_lifecycle_effect_receipts@[i] == *x && forall|j: int|
                    0 <= j < i ==> !settles(
                        #[trigger] state.profile_lifecycle_effect_receipts@[j],
                        authorization_id@,
                        tab_id@,
                    ),
            None => forall|j: int|
                0 <= j < state.profile_lifecycle_effect_receipts@.len() ==> !settles(
                    #[trigger] state.profile_lifecycle_effect_receipts@[j],
                    authorization_id@,
                    tab_id@,
                ),
        },
{
    let receipts = &state.profile_lifecycle_effect_receipts;
    let mut i: usize = 0;
    while i < receipts.len()
        invariant
            i <= receipts@.len(),
            receipts == &state.profile_lifecycle_effect_receipts,
            forall|j: int| 0 <= j < i ==> !settles(#[trigger] receipts@[j], authorization_id@, tab_id@),
        decreases receipts@.len() - i,
    {
        let x = &receipts[i];
        if str_equal(x.authorization_id.as_str(), authorization_id) && str_equal(x.tab_id.as_str(), tab_id) {
            return Some(x);
        }
        i = i + 1;
    }
    None
}

/// The browser and target an eviction would close: the tab's, once proven.
pub open spec fn eviction_target_spec(state: ServiceState, tab_id: Seq<char>) -> Result<(Seq<char>, Seq<char>), Seq<char>> {
    match lookup(state.tabs@, tab_id) {
        None => Err("profile_lifecycle_tab_missing"@),
        Some(t) => match ov(t.target_id) {
            None => Err("profile_lifecycle_target_unproven"@),
            Some(target) => Ok((t.browser_id@, target)),
        },
    }
}

/// The browser and target an eviction would close.
pub fn eviction_target(state: &ServiceState, tab_id: &str) -> (r: Result<(String, String), String>)
    ensures
        match r {
            Ok((b, t)) => eviction_target_spec(*state, tab_id@) == Ok::<(Seq<char>, Seq<char>), Seq<char>>((b@, t@)),
            Err(e) => eviction_target_spec(*state, tab_id@) == Err::<(Seq<char>, Seq<char>), Seq<char>>(e@),
        },
{
    let tab = match get_keyed(&state.tabs, tab_id) {
        Some(t) => t,
        None => return Err(owned("profile_lifecycle_tab_missing")),
    };
    match &tab.target_id {
        Some(t) => Ok((tab.browser_id.clone(), t.clone())),
        None => Err(owned("profile_lifecycle_target_unproven")),
    }
}

/// Whether two proofs are the same.
fn same_proof(a: &ProfileLifecycleProof, b: &ProfileLifecycleProof) -> (r: bool)
    ensures
        r == (a@ == b@),
{
    str_equal(a.schema_version.as_str(), b.schema_version.as_str()) && str_equal(a.proof_id.as_str(), b.proof_id.as_str())
        && str_equal(a.authorization_id.as_str(), b.authorization_id.as_str()) && str_equal(
        a.profile_id.as_str(),
        b.profile_id.as_str(),
    ) && a.policy_revision == b.policy_revision && str_equal(a.tab_id.as_str(), b.tab_id.as_str()) && str_equal(
        a.browser_id.as_str(),
        b.browser_id.as_str(),
    ) && str_equal(a.target_id.as_str(), b.target_id.as_str()) && str_equal(
        a.daemon_session_id.as_str(),
        b.daemon_session_id.as_str(),
    ) && str_equal(a.observed_at.as_str(), b.observed_at.as_str())
}

/// Why an eviction cannot begin on the current state, if it cannot: the
/// proof made now must be the proof made before, and the tab must still be
/// that browser target and not already closing or closed.
pub open spec fn begin_refusal(
    state: ServiceState,
    authorization_id: Seq<char>,
    tab_id: Seq<char>,
    observation: ProfileTabPhysicalObservation,
    proven: ProofView,
) -> Option<Seq<char>> {
    match eviction_proof_spec(state, authorization_id, tab_id, observation) {
        Err(e) => Some(e),
        Ok(p) => if p != proven {
            Some("profile_lifecycle_proof_changed"@)
        } else {
            match lookup(state.tabs@, tab_id) {
                None => Some("profile_lifecycle_tab_missing"@),
                Some(t) => if t.browser_id@ != proven.browser_id || ov(t.target_id) != Some(proven.target_id)
                    || t.lifecycle == TabLifecycle::Closing || t.lifecycle == TabLifecycle::Closed {
                    Some("profile_lifecycle_effect_target_changed"@)
                } else {
                    None
                },
            }
        },
    }
}

/// Begins an eviction on the current state: re-proves it and marks the tab
/// closing; nothing changes when it is refused.
pub fn begin_profile_tab_eviction(
    state: &mut ServiceState,
    authorization_id: &str,
    tab_id: &str,
    observation: &ProfileTabPhysicalObservation,
    proof: &ProfileLifecycleProof,
) -> (r: Result<(), String>)
    requires
        keys_sorted(old(state).tabs@),
    ensures
        match r {
            Ok(()) => begin_refusal(*old(state), authorization_id@, tab_id@, *observation, proof@) is None && {
                &&& keys_sorted(final(state).tabs@)
                &&& forall|k: Seq<char>| #[trigger] lookup(final(state).tabs@, k) == if k == tab_id@ {
                    Some(BrowserTab { lifecycle: TabLifecycle::Closing, ..lookup(old(state).tabs@, k)->0 })
                } else {
                    lookup(old(state).tabs@, k)
                }
                &&& final(state).sessions == old(state).sessions
                &&& final(state).profile_lifecycle_authorizations == old(state).profile_lifecycle_authorizations
                &&& final(state).profile_lifecycle_effect_receipts == old(state).profile_lifecycle_effect_receipts
            },
            Err(e) => begin_refusal(*old(state), authorization_id@, tab_id@, *observation, proof@) == Some(e@)
                && *final(state) == *old(state),
        },
{
    let current = match prove_profile_tab_eviction(state, authorization_id, tab_id, observation) {
        Ok(p) => p,
        Err(e) => return Err(e),
    };
    if !same_proof(&current, proof) {
        return Err(owned("profile_lifecycle_proof_changed"));
    }
    proof {
        crate::model::lemma_lookup_index(state.tabs@, tab_id@);
    }
    let i = match crate::model::find_key(&state.tabs, tab_id) {
        Some(i) => i,
        None => return Err(owned("profile_lifecycle_tab_missing")),
    };
    let t = &state.tabs[i];
    let same_target = match &t.target_id {
        Some(x) => str_equal(x.as_str(), proof.target_id.as_str()),
        None => false,
    };
    if !str_equal(t.browser_id.as_str(), proof.browser_id.as_str()) || !same_target || t.lifecycle
        == TabLifecycle::Closing || t.lifecycle == TabLifecycle::Closed {
        return Err(owned("profile_lifecycle_effect_target_changed"));
    }
    let ghost tabs0 = state.tabs@;
    let ghost closing = BrowserTab { lifecycle: TabLifecycle::Closing, ..tabs0[i as int] };
    proof {
        crate::model::lemma_lookup_update(tabs0, i as int, closing);
    }
    state.tabs[i].lifecycle = TabLifecycle::Closing;
    assert(state.tabs@ =~= tabs0.update(i as int, closing));
    Ok(())
}

/// Whether a physical close was acknowledged, or why it is unproven.
pub open spec fn close_refusal(result: JsonValue) -> Option<Seq<char>> {
    if field_bool(result, "closeCommandAcknowledged"@) == Some(true) {
        None
    } else {
        Some(
            "profile_lifecycle_physical_close_unproven:"@ + match field_str(result, "closeCommandError"@) {
                Some(e) => e,
                None => "unknown"@,
            },
        )
    }
}

/// Reads a physical close result: acknowledged, or why it is unproven.
pub fn physical_close_outcome(result: &JsonValue) -> (r: Result<(), String>)
    ensures
        match r {
            Ok(()) => close_refusal(*result) is None,
            Err(e) => close_refusal(*result) == Some(e@),
        },
{
    if result.field_bool("closeCommandAcknowledged") == Some(true) {
        return Ok(());
    }
    let why = match result.field_str("closeCommandError") {
        Some(e) => e,
        None => "unknown",
    };
    Err(concat2("profile_lifecycle_physical_close_unproven:", why))
}

} // verus!
