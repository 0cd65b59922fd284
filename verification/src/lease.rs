//! First-class profile lease projection and guarded lifecycle operations.
//!
//! Profile leases are derived from authenticated principal capability, the
//! runtime owner registry, and subordinate session and tab work. Labels never
//! grant authority. Every mutation uses an exact lease revision and the
//! caller's authenticated profile capability.

use vstd::prelude::*;
use vstd::multiset::Multiset;
use crate::digest::{digest_prefix, digest_prefix_spec};
use crate::model::{
    authenticated_authority_is_current, authority_is_current_spec, binding_is_current_spec,
    clone_opt, find_binding_for, principal_binding_is_current, RegistrationState,
    first_binding_for, get_keyed, keys_sorted, lookup, Keyed, opt_eq, opt_is, ov, AuthenticatedServicePrincipal,
    BrowserSession, BrowserTab, LeaseState, ProfileOwnerState, PrincipalContinuityRecourse, ProfileOwner, RemoteViewRoute,
    RuntimeOwnerPrincipalBinding, ServicePrincipalProvenance, ServiceProfileCapability, ServiceState, TabLifecycle,
};
use crate::seqs::{
    insert_sorted_unique, lemma_filter_take_step, lemma_seq_lt_total, lemma_seq_lt_transitive,
    lemma_strictly_sorted_unique, lemma_take_full, strictly_sorted,
};
use crate::text::{concat2, concat3, owned, seq_le, seq_lt, str_equal, str_lt, strs};
use crate::time::{rfc3339_at_or_after, rfc3339_at_or_after_spec};
use crate::json::{
    bool_text, decimal, opt_text, opt_u64_text, push_decimal, push_opt_text, push_opt_u64, push_quoted,
    push_quoted_list, quoted, quoted_list,
};
use crate::text::push_char;

verus! {

/// The version written into every lease record.
pub const PROFILE_LEASE_SCHEMA_VERSION: &'static str = "agent-browser.profile-lease.v1";

/// The version written into every reconcile plan.
pub const PROFILE_LEASE_RECONCILE_PLAN_SCHEMA_VERSION: &'static str =
    "agent-browser.profile-lease-reconcile-plan.v1";

/// The version written into every reconcile receipt.
pub const PROFILE_LEASE_RECONCILE_RECEIPT_SCHEMA_VERSION: &'static str =
    "agent-browser.profile-lease-reconcile-receipt.v1";

/// Why a lease operation was refused.
#[derive(PartialEq, Eq, Structural, Clone, Copy)]
pub enum ProfileLeaseFailureCode {
    LeaseNotFound,
    AuthorityMismatch,
    RevisionMismatch,
    ActionNotAuthorized,
    ActiveSubordinateWork,
    PlanInvalid,
    PlanExpired,
    BootEpochMismatch,
}

/// A refused lease operation.
pub struct ProfileLeaseError {
    pub code: ProfileLeaseFailureCode,
    pub message: String,
}

/// The stable text of a failure code.
pub open spec fn failure_code_text(code: ProfileLeaseFailureCode) -> Seq<char> {
    match code {
        ProfileLeaseFailureCode::LeaseNotFound => "lease_not_found"@,
        ProfileLeaseFailureCode::AuthorityMismatch => "authority_mismatch"@,
        ProfileLeaseFailureCode::RevisionMismatch => "revision_mismatch"@,
        ProfileLeaseFailureCode::ActionNotAuthorized => "action_not_authorized"@,
        ProfileLeaseFailureCode::ActiveSubordinateWork => "active_subordinate_work"@,
        ProfileLeaseFailureCode::PlanInvalid => "plan_invalid"@,
        ProfileLeaseFailureCode::PlanExpired => "plan_expired"@,
        ProfileLeaseFailureCode::BootEpochMismatch => "boot_epoch_mismatch"@,
    }
}

/// The human label of a failure code.
pub open spec fn failure_label(code: ProfileLeaseFailureCode) -> Seq<char> {
    match code {
        ProfileLeaseFailureCode::LeaseNotFound => "profile lease was not found"@,
        ProfileLeaseFailureCode::AuthorityMismatch => "profile lease authority does not match"@,
        ProfileLeaseFailureCode::RevisionMismatch => "profile lease revision does not match"@,
        ProfileLeaseFailureCode::ActionNotAuthorized => "profile lease action is not authorized"@,
        ProfileLeaseFailureCode::ActiveSubordinateWork => "profile lease has active subordinate work"@,
        ProfileLeaseFailureCode::PlanInvalid => "profile lease reconcile plan is invalid"@,
        ProfileLeaseFailureCode::PlanExpired => "profile lease reconcile plan is expired"@,
        ProfileLeaseFailureCode::BootEpochMismatch => "profile lease reconcile boot epoch does not match"@,
    }
}

impl ProfileLeaseFailureCode {
    /// The stable text of the code.
    pub fn as_str(self) -> (r: &'static str)
        ensures
            r@ == failure_code_text(self),
    {
        match self {
            ProfileLeaseFailureCode::LeaseNotFound => "lease_not_found",
            ProfileLeaseFailureCode::AuthorityMismatch => "authority_mismatch",
            ProfileLeaseFailureCode::RevisionMismatch => "revision_mismatch",
            ProfileLeaseFailureCode::ActionNotAuthorized => "action_not_authorized",
            ProfileLeaseFailureCode::ActiveSubordinateWork => "active_subordinate_work",
            ProfileLeaseFailureCode::PlanInvalid => "plan_invalid",
            ProfileLeaseFailureCode::PlanExpired => "plan_expired",
            ProfileLeaseFailureCode::BootEpochMismatch => "boot_epoch_mismatch",
        }
    }
}

/// The error for `code` on lease `lease_id`: its label, `": "`, and the id.
pub fn lease_error(code: ProfileLeaseFailureCode, lease_id: &str) -> (e: ProfileLeaseError)
    ensures
        e.code == code,
        e.message@ == failure_label(code) + ": "@ + lease_id@,
{
    let label = match code {
        ProfileLeaseFailureCode::LeaseNotFound => "profile lease was not found",
        ProfileLeaseFailureCode::AuthorityMismatch => "profile lease authority does not match",
        ProfileLeaseFailureCode::RevisionMismatch => "profile lease revision does not match",
        ProfileLeaseFailureCode::ActionNotAuthorized => "profile lease action is not authorized",
        ProfileLeaseFailureCode::ActiveSubordinateWork => "profile lease has active subordinate work",
        ProfileLeaseFailureCode::PlanInvalid => "profile lease reconcile plan is invalid",
        ProfileLeaseFailureCode::PlanExpired => "profile lease reconcile plan is expired",
        ProfileLeaseFailureCode::BootEpochMismatch => "profile lease reconcile boot epoch does not match",
    };
    ProfileLeaseError { code, message: concat3(label, ": ", lease_id) }
}

/// The transport text of a lease error: `profile_lease_<code>:<message>`.
pub fn lease_error_string(error: &ProfileLeaseError) -> (r: String)
    ensures
        r@ == "profile_lease_"@ + failure_code_text(error.code) + ":"@ + error.message@,
{
    let s = concat3("profile_lease_", error.code.as_str(), ":");
    s.concat(error.message.as_str())
}

/// Whether a session lease no longer holds work.
pub open spec fn inactive_session_spec(lease: LeaseState) -> bool {
    lease == LeaseState::Released || lease == LeaseState::Expired
}

/// Whether a session lease no longer holds work.
pub fn inactive_session(lease: LeaseState) -> (r: bool)
    ensures
        r == inactive_session_spec(lease),
{
    lease == LeaseState::Released || lease == LeaseState::Expired
}

/// Whether a session is inactive, or its expiry is at or before `now`.
pub open spec fn inactive_or_expired_spec(
    lease: LeaseState,
    expires_at: Option<String>,
    now: Seq<char>,
) -> bool {
    inactive_session_spec(lease) || (expires_at matches Some(e) && rfc3339_at_or_after_spec(
        now,
        e@,
    ) == Some(true))
}

/// Whether a session is inactive, or its expiry is at or before `now`.
pub fn inactive_or_expired(lease: LeaseState, expires_at: &Option<String>, now: &str) -> (r: bool)
    ensures
        r == inactive_or_expired_spec(lease, *expires_at, now@),
{
    if inactive_session(lease) {
        return true;
    }
    match expires_at {
        Some(e) => match rfc3339_at_or_after(now, e.as_str()) {
            Some(b) => b,
            None => false,
        },
        None => false,
    }
}

/// The snake_case name of a lease state.
pub open spec fn lease_state_name_spec(lease: LeaseState) -> Seq<char> {
    match lease {
        LeaseState::Shared => "shared"@,
        LeaseState::Exclusive => "exclusive"@,
        LeaseState::HumanTakeover => "human_takeover"@,
        LeaseState::Released => "released"@,
        LeaseState::Expired => "expired"@,
    }
}

/// The snake_case name of a lease state.
pub fn lease_state_name(lease: LeaseState) -> (r: &'static str)
    ensures
        r@ == lease_state_name_spec(lease),
{
    match lease {
        LeaseState::Shared => "shared",
        LeaseState::Exclusive => "exclusive",
        LeaseState::HumanTakeover => "human_takeover",
        LeaseState::Released => "released",
        LeaseState::Expired => "expired",
    }
}

/// The mode of a profile's active sessions: human takeover dominates
/// exclusive, which dominates shared; no session is idle.
pub open spec fn lease_mode_spec(active: Seq<BrowserSession>) -> Seq<char> {
    if exists|i: int| 0 <= i < active.len() && active[i].lease == LeaseState::HumanTakeover {
        "human_takeover"@
    } else if exists|i: int| 0 <= i < active.len() && active[i].lease == LeaseState::Exclusive {
        "exclusive"@
    } else if active.len() == 0 {
        "idle"@
    } else {
        "shared"@
    }
}

/// Law: the mode of a profile's active sessions is human takeover when any
/// session is taken over by a human; otherwise exclusive when any session
/// holds an exclusive lease; it is idle exactly when no session is active,
/// and shared only when there are active sessions and none of them holds an
/// exclusive lease or a human takeover.
pub proof fn law_lease_mode_dominance(active: Seq<BrowserSession>)
    ensures
        (exists|i: int| 0 <= i < active.len() && active[i].lease == LeaseState::HumanTakeover) ==> lease_mode_spec(active)
            == "human_takeover"@,
        (exists|i: int| 0 <= i < active.len() && active[i].lease == LeaseState::Exclusive) && !(exists|i: int|
            0 <= i < active.len() && active[i].lease == LeaseState::HumanTakeover) ==> lease_mode_spec(active)
            == "exclusive"@,
        (lease_mode_spec(active) == "idle"@) == (active.len() == 0),
        lease_mode_spec(active) == "shared"@ ==> active.len() > 0 && forall|i: int|
            0 <= i < active.len() ==> active[i].lease != LeaseState::Exclusive && active[i].lease
                != LeaseState::HumanTakeover,
        (forall|i: int| 0 <= i < active.len() ==> active[i].lease == LeaseState::Shared) && active.len() > 0
            ==> lease_mode_spec(active) == "shared"@,
{
    reveal_strlit("human_takeover");
    reveal_strlit("exclusive");
    reveal_strlit("idle");
    reveal_strlit("shared");
    assert("human_takeover"@[0] != "idle"@[0]);
    assert("exclusive"@[0] != "idle"@[0]);
    assert("shared"@[0] != "idle"@[0]);
    assert("human_takeover"@[0] != "shared"@[0]);
    assert("exclusive"@[0] != "shared"@[0]);
    if active.len() > 0 && lease_mode_spec(active) == "shared"@ {
        assert forall|i: int| 0 <= i < active.len() implies active[i].lease != LeaseState::Exclusive && active[i].lease
            != LeaseState::HumanTakeover by {
            if active[i].lease == LeaseState::Exclusive || active[i].lease == LeaseState::HumanTakeover {
                assert(lease_mode_spec(active) != "shared"@);
            }
        }
    }
    if (forall|i: int| 0 <= i < active.len() ==> active[i].lease == LeaseState::Shared) && active.len() > 0 {
        assert(!(exists|i: int| 0 <= i < active.len() && active[i].lease == LeaseState::Exclusive));
        assert(!(exists|i: int| 0 <= i < active.len() && active[i].lease == LeaseState::HumanTakeover));
    }
}

/// Law: released and expired sessions never count as active, so they never
/// set a profile's lease mode; a session holding an exclusive lease without
/// an expiry is active, so among sessions that none took over by a human
/// such a session makes the mode exclusive.
pub proof fn law_active_sessions_set_the_mode(sessions: Seq<BrowserSession>, now: Seq<char>)
    ensures
        forall|i: int|
            0 <= i < active_sessions(sessions, now).len() ==> (#[trigger] active_sessions(sessions, now)[i]).lease
                != LeaseState::Released && active_sessions(sessions, now)[i].lease != LeaseState::Expired,
        (exists|i: int|
            0 <= i < sessions.len() && sessions[i].lease == LeaseState::Exclusive && sessions[i].expires_at is None)
            && (forall|i: int| 0 <= i < sessions.len() ==> sessions[i].lease != LeaseState::HumanTakeover)
            ==> lease_mode_spec(active_sessions(sessions, now)) == "exclusive"@,
{
    broadcast use vstd::seq_lib::group_filter_ensures;
    let pred = |s: BrowserSession| !inactive_or_expired_spec(s.lease, s.expires_at, now);
    let active = active_sessions(sessions, now);
    assert(active == sessions.filter(pred));
    assert forall|i: int| 0 <= i < active.len() implies (#[trigger] active[i]).lease != LeaseState::Released
        && active[i].lease != LeaseState::Expired by {
        sessions.lemma_filter_pred(pred, i);
    }
    if (exists|i: int|
        0 <= i < sessions.len() && sessions[i].lease == LeaseState::Exclusive && sessions[i].expires_at is None) && (
    forall|i: int| 0 <= i < sessions.len() ==> sessions[i].lease != LeaseState::HumanTakeover) {
        let i = choose|i: int|
            0 <= i < sessions.len() && sessions[i].lease == LeaseState::Exclusive && sessions[i].expires_at is None;
        sessions.lemma_filter_contains(pred, i);
        let j = choose|j: int| 0 <= j < active.len() && active[j] == sessions[i];
        assert(active[j].lease == LeaseState::Exclusive);
        assert forall|k: int| 0 <= k < active.len() implies (#[trigger] active[k]).lease != LeaseState::HumanTakeover by {
            assert(active.contains(active[k]));
            sessions.lemma_filter_contains_rev(pred, active[k]);
        }
        law_lease_mode_dominance(active);
    }
}

/// Whether some session holds lease `lease`.
fn any_lease(sessions: &Vec<&BrowserSession>, lease: LeaseState) -> (r: bool)
    ensures
        r == exists|i: int| 0 <= i < sessions@.len() && sessions@[i].lease == lease,
{
    let mut i: usize = 0;
    while i < sessions.len()
        invariant
            i <= sessions@.len(),
            forall|j: int| 0 <= j < i ==> sessions@[j].lease != lease,
        decreases sessions@.len() - i,
    {
        if sessions[i].lease == lease {
            return true;
        }
        i = i + 1;
    }
    false
}

/// A lease is held in the references exactly when it is held in the records.
proof fn lemma_any_lease_map(refs: Seq<&BrowserSession>, sv: Seq<BrowserSession>, l: LeaseState)
    requires
        sv == refs.map_values(|s: &BrowserSession| *s),
    ensures
        (exists|i: int| 0 <= i < refs.len() && (#[trigger] refs[i]).lease == l) == (exists|i: int|
            0 <= i < sv.len() && (#[trigger] sv[i]).lease == l),
{
    if exists|i: int| 0 <= i < refs.len() && (#[trigger] refs[i]).lease == l {
        let i = choose|i: int| 0 <= i < refs.len() && (#[trigger] refs[i]).lease == l;
        assert(sv[i].lease == l);
    }
    if exists|i: int| 0 <= i < sv.len() && (#[trigger] sv[i]).lease == l {
        let i = choose|i: int| 0 <= i < sv.len() && (#[trigger] sv[i]).lease == l;
        assert(refs[i].lease == l);
    }
}

/// The mode of a profile's active sessions.
pub fn lease_mode(active: &Vec<&BrowserSession>) -> (r: String)
    ensures
        r@ == lease_mode_spec(active@.map_values(|s: &BrowserSession| *s)),
{
    let ghost sv = active@.map_values(|s: &BrowserSession| *s);
    proof {
        lemma_any_lease_map(active@, sv, LeaseState::HumanTakeover);
        lemma_any_lease_map(active@, sv, LeaseState::Exclusive);
    }
    if any_lease(active, LeaseState::HumanTakeover) {
        owned("human_takeover")
    } else if any_lease(active, LeaseState::Exclusive) {
        owned("exclusive")
    } else if active.len() == 0 {
        owned("idle")
    } else {
        owned("shared")
    }
}

/// The later of two optional texts (lexicographically).
pub open spec fn max_text(a: Option<Seq<char>>, b: Option<Seq<char>>) -> Option<Seq<char>> {
    match (a, b) {
        (Some(x), Some(y)) => if seq_lt(y, x) { Some(x) } else { Some(y) },
        (Some(x), None) => Some(x),
        (None, y) => y,
    }
}

/// The earlier of two optional texts (lexicographically).
pub open spec fn min_text(a: Option<Seq<char>>, b: Option<Seq<char>>) -> Option<Seq<char>> {
    match (a, b) {
        (Some(x), Some(y)) => if seq_lt(y, x) { Some(y) } else { Some(x) },
        (Some(x), None) => Some(x),
        (None, y) => y,
    }
}

/// The latest of the present values.
pub open spec fn latest_spec(values: Seq<Option<Seq<char>>>) -> Option<Seq<char>>
    decreases values.len(),
{
    if values.len() == 0 {
        None
    } else {
        max_text(latest_spec(values.drop_last()), values.last())
    }
}

/// The earliest of the present values.
pub open spec fn earliest_spec(values: Seq<Option<Seq<char>>>) -> Option<Seq<char>>
    decreases values.len(),
{
    if values.len() == 0 {
        None
    } else {
        min_text(earliest_spec(values.drop_last()), values.last())
    }
}

/// The latest lease observation of the sessions.
pub open spec fn latest_observation(sessions: Seq<BrowserSession>) -> Option<Seq<char>> {
    latest_spec(sessions.map_values(|s: BrowserSession| ov(s.last_lease_observed_at)))
}

/// The earliest expiry of the sessions.
pub open spec fn earliest_expiry(sessions: Seq<BrowserSession>) -> Option<Seq<char>> {
    earliest_spec(sessions.map_values(|s: BrowserSession| ov(s.expires_at)))
}

/// The later of a current best and a candidate.
fn max_opt(best: Option<String>, candidate: &Option<String>) -> (r: Option<String>)
    ensures
        ov(r) == max_text(ov(best), ov(*candidate)),
{
    match (best, candidate) {
        (Some(x), Some(y)) => if str_lt(y.as_str(), x.as_str()) { Some(x) } else { Some(y.clone()) },
        (Some(x), None) => Some(x),
        (None, y) => clone_opt(y),
    }
}

/// The earlier of a current best and a candidate.
fn min_opt(best: Option<String>, candidate: &Option<String>) -> (r: Option<String>)
    ensures
        ov(r) == min_text(ov(best), ov(*candidate)),
{
    match (best, candidate) {
        (Some(x), Some(y)) => if str_lt(y.as_str(), x.as_str()) { Some(y.clone()) } else { Some(x) },
        (Some(x), None) => Some(x),
        (None, y) => clone_opt(y),
    }
}

/// `latest_value` over the sessions' last lease observations.
pub fn latest_value(sessions: &Vec<&BrowserSession>) -> (r: Option<String>)
    ensures
        ov(r) == latest_observation(sessions@.map_values(|s: &BrowserSession| *s)),
{
    let ghost sv = sessions@.map_values(|s: &BrowserSession| *s);
    let ghost vals = sv.map_values(|s: BrowserSession| ov(s.last_lease_observed_at));
    let mut best: Option<String> = None;
    let mut i: usize = 0;
    while i < sessions.len()
        invariant
            i <= sessions@.len(),
            sv == sessions@.map_values(|s: &BrowserSession| *s),
            vals == sv.map_values(|s: BrowserSession| ov(s.last_lease_observed_at)),
            ov(best) == latest_spec(vals.take(i as int)),
        decreases sessions@.len() - i,
    {
        assert(vals.take(i + 1).drop_last() =~= vals.take(i as int));
        best = max_opt(best, &sessions[i].last_lease_observed_at);
        i = i + 1;
    }
    assert(vals.take(sessions@.len() as int) =~= vals);
    best
}

/// `earliest_value` over the sessions' expiries.
pub fn earliest_value(sessions: &Vec<&BrowserSession>) -> (r: Option<String>)
    ensures
        ov(r) == earliest_expiry(sessions@.map_values(|s: &BrowserSession| *s)),
{
    let ghost sv = sessions@.map_values(|s: &BrowserSession| *s);
    let ghost vals = sv.map_values(|s: BrowserSession| ov(s.expires_at));
    let mut best: Option<String> = None;
    let mut i: usize = 0;
    while i < sessions.len()
        invariant
            i <= sessions@.len(),
            sv == sessions@.map_values(|s: &BrowserSession| *s),
            vals == sv.map_values(|s: BrowserSession| ov(s.expires_at)),
            ov(best) == earliest_spec(vals.take(i as int)),
        decreases sessions@.len() - i,
    {
        assert(vals.take(i + 1).drop_last() =~= vals.take(i as int));
        best = min_opt(best, &sessions[i].expires_at);
        i = i + 1;
    }
    assert(vals.take(sessions@.len() as int) =~= vals);
    best
}

/// The stable id of the lease of `principal_id` over `profile_identity`.
pub open spec fn profile_lease_id_spec(principal_id: Seq<char>, profile_identity: Seq<char>) -> Seq<char> {
    "profile-lease-v1:"@ + digest_prefix_spec(principal_id + seq!['\0'] + profile_identity)
}

/// The stable id of the lease of `principal_id` over `profile_identity`.
pub fn profile_lease_id(principal_id: &str, profile_identity: &str) -> (r: String)
    ensures
        r@ == profile_lease_id_spec(principal_id@, profile_identity@),
        r@.len() == 41,
{
    let joined = concat3(principal_id, "\0", profile_identity);
    proof {
        reveal_strlit("\0");
        assert("\0"@ =~= seq!['\0']);
    }
    let d = digest_prefix(joined.as_str());
    proof {
        reveal_strlit("profile-lease-v1:");
    }
    concat2("profile-lease-v1:", d.as_str())
}


/// Pushing a string pushes its view.
pub proof fn lemma_strs_push(s: Seq<String>, x: String)
    ensures
        strs(s.push(x)) == strs(s).push(x@),
{
    assert(strs(s.push(x)) =~= strs(s).push(x@));
}

/// Mapping after a push pushes the image.
pub proof fn lemma_map_push<A, B>(s: Seq<A>, x: A, f: spec_fn(A) -> B)
    ensures
        s.push(x).map_values(f) == s.map_values(f).push(f(x)),
{
    assert(s.push(x).map_values(f) =~= s.map_values(f).push(f(x)));
}

/// The records behind a sequence of references.
pub open spec fn deref<T>(s: Seq<&T>) -> Seq<T> {
    s.map_values(|r: &T| *r)
}

/// Pushing a reference pushes its record.
pub proof fn lemma_deref_push<T>(s: Seq<&T>, x: &T)
    ensures
        deref(s.push(x)) == deref(s).push(*x),
{
    assert(deref(s.push(x)) =~= deref(s).push(*x));
}

/// The sessions of a profile, in session-id order.
pub open spec fn profile_sessions(sessions: Seq<BrowserSession>, profile_id: Seq<char>) -> Seq<BrowserSession> {
    sessions.filter(|s: BrowserSession| opt_is(s.profile_id, profile_id))
}

/// The sessions of a profile, in session-id order.
pub fn sessions_for_profile<'a>(state: &'a ServiceState, profile_id: &str) -> (r: Vec<&'a BrowserSession>)
    ensures
        deref(r@) == profile_sessions(state.sessions@, profile_id@),
{
    let ghost pred = |s: BrowserSession| opt_is(s.profile_id, profile_id@);
    let mut out: Vec<&BrowserSession> = Vec::new();
    let mut i: usize = 0;
    while i < state.sessions.len()
        invariant
            i <= state.sessions@.len(),
            pred == (|s: BrowserSession| opt_is(s.profile_id, profile_id@)),
            deref(out@) == state.sessions@.take(i as int).filter(pred),
        decreases state.sessions@.len() - i,
    {
        proof {
            lemma_filter_take_step(state.sessions@, pred, i as int);
        }
        let session = &state.sessions[i];
        if opt_eq(&session.profile_id, profile_id) {
            proof {
                lemma_deref_push(out@, session);
            }
            out.push(session);
        }
        i = i + 1;
    }
    proof {
        lemma_take_full(state.sessions@);
    }
    out
}

/// The sessions that still hold work at `now`.
pub open spec fn active_sessions(sessions: Seq<BrowserSession>, now: Seq<char>) -> Seq<BrowserSession> {
    sessions.filter(|s: BrowserSession| !inactive_or_expired_spec(s.lease, s.expires_at, now))
}

/// The sessions that still hold work at `now`.
pub fn active_of<'a>(sessions: &Vec<&'a BrowserSession>, now: &str) -> (r: Vec<&'a BrowserSession>)
    ensures
        deref(r@) == active_sessions(deref(sessions@), now@),
{
    let ghost pred = |s: BrowserSession| !inactive_or_expired_spec(s.lease, s.expires_at, now@);
    let ghost all = deref(sessions@);
    let mut out: Vec<&BrowserSession> = Vec::new();
    let mut i: usize = 0;
    while i < sessions.len()
        invariant
            i <= sessions@.len(),
            all == deref(sessions@),
            pred == (|s: BrowserSession| !inactive_or_expired_spec(s.lease, s.expires_at, now@)),
            deref(out@) == all.take(i as int).filter(pred),
        decreases sessions@.len() - i,
    {
        proof {
            lemma_filter_take_step(all, pred, i as int);
        }
        let session = sessions[i];
        if !inactive_or_expired(session.lease, &session.expires_at, now) {
            proof {
                lemma_deref_push(out@, session);
            }
            out.push(session);
        }
        i = i + 1;
    }
    proof {
        lemma_take_full(all);
    }
    out
}

/// The sessions held by principal `principal_id`.
pub open spec fn same_principal(sessions: Seq<BrowserSession>, principal_id: Seq<char>) -> Seq<BrowserSession> {
    sessions.filter(|s: BrowserSession| opt_is(s.principal_id, principal_id))
}

/// The sessions held by a principal other than `principal_id`.
pub open spec fn foreign_principal(sessions: Seq<BrowserSession>, principal_id: Seq<char>) -> Seq<BrowserSession> {
    sessions.filter(|s: BrowserSession| s.principal_id matches Some(p) && p@ != principal_id)
}

/// The sessions without a registered-capability principal.
pub open spec fn unproven_sessions(sessions: Seq<BrowserSession>) -> Seq<BrowserSession> {
    sessions.filter(
        |s: BrowserSession| s.principal_id is None || s.principal_provenance != Some(
            ServicePrincipalProvenance::RegisteredCapability,
        ),
    )
}

/// Which sessions a principal filter keeps.
pub enum PrincipalFilter {
    Same,
    Foreign,
    Unproven,
}

/// Whether `filter` keeps session `s` for principal `principal_id`.
pub open spec fn principal_filter_keeps(
    filter: PrincipalFilter,
    s: BrowserSession,
    principal_id: Seq<char>,
) -> bool {
    match filter {
        PrincipalFilter::Same => opt_is(s.principal_id, principal_id),
        PrincipalFilter::Foreign => s.principal_id matches Some(p) && p@ != principal_id,
        PrincipalFilter::Unproven => s.principal_id is None || s.principal_provenance != Some(
            ServicePrincipalProvenance::RegisteredCapability,
        ),
    }
}

/// The sessions that `filter` keeps for principal `principal_id`.
pub fn filter_by_principal<'a>(
    sessions: &Vec<&'a BrowserSession>,
    filter: PrincipalFilter,
    principal_id: &str,
) -> (r: Vec<&'a BrowserSession>)
    ensures
        deref(r@) == deref(sessions@).filter(
            |s: BrowserSession| principal_filter_keeps(filter, s, principal_id@),
        ),
{
    let ghost pred = |s: BrowserSession| principal_filter_keeps(filter, s, principal_id@);
    let ghost all = deref(sessions@);
    let mut out: Vec<&BrowserSession> = Vec::new();
    let mut i: usize = 0;
    while i < sessions.len()
        invariant
            i <= sessions@.len(),
            all == deref(sessions@),
            pred == (|s: BrowserSession| principal_filter_keeps(filter, s, principal_id@)),
            deref(out@) == all.take(i as int).filter(pred),
        decreases sessions@.len() - i,
    {
        proof {
            lemma_filter_take_step(all, pred, i as int);
        }
        let session = sessions[i];
        let keep = match filter {
            PrincipalFilter::Same => opt_eq(&session.principal_id, principal_id),
            PrincipalFilter::Foreign => match &session.principal_id {
                Some(p) => !str_equal(p.as_str(), principal_id),
                None => false,
            },
            PrincipalFilter::Unproven => session.principal_id.is_none()
                || session.principal_provenance != Some(ServicePrincipalProvenance::RegisteredCapability),
        };
        if keep {
            proof {
                lemma_deref_push(out@, session);
            }
            out.push(session);
        }
        i = i + 1;
    }
    proof {
        lemma_take_full(all);
    }
    out
}

/// The ids of the sessions.
pub open spec fn session_ids_of(sessions: Seq<BrowserSession>) -> Seq<Seq<char>> {
    sessions.map_values(|s: BrowserSession| s.id@)
}

/// The ids of the sessions.
pub fn ids_of_sessions(sessions: &Vec<&BrowserSession>) -> (r: Vec<String>)
    ensures
        strs(r@) == session_ids_of(deref(sessions@)),
{
    let mut out: Vec<String> = Vec::new();
    let mut i: usize = 0;
    while i < sessions.len()
        invariant
            i <= sessions@.len(),
            strs(out@) == session_ids_of(deref(sessions@)).take(i as int),
        decreases sessions@.len() - i,
    {
        let id = sessions[i].id.clone();
        proof {
            lemma_strs_push(out@, id);
        }
        out.push(id);
        assert(strs(out@) =~= session_ids_of(deref(sessions@)).take(i + 1));
        i = i + 1;
    }
    assert(session_ids_of(deref(sessions@)).take(sessions@.len() as int) =~= session_ids_of(deref(sessions@)));
    out
}

/// Whether a tab belongs to one of the sessions.
pub open spec fn tab_in_sessions(t: BrowserTab, session_ids: Seq<Seq<char>>) -> bool {
    t.owner_session_id matches Some(o) && session_ids.contains(o@)
}

/// The ids of the tabs owned by the sessions, in tab-id order.
pub open spec fn tab_ids_for(tabs: Seq<BrowserTab>, session_ids: Seq<Seq<char>>) -> Seq<Seq<char>> {
    tabs.filter(|t: BrowserTab| tab_in_sessions(t, session_ids)).map_values(|t: BrowserTab| t.id@)
}

/// Whether `s` is one of the texts.
pub fn contains_text(v: &Vec<String>, s: &str) -> (r: bool)
    ensures
        r == strs(v@).contains(s@),
{
    let mut i: usize = 0;
    while i < v.len()
        invariant
            i <= v@.len(),
            forall|j: int| 0 <= j < i ==> v@[j]@ != s@,
        decreases v@.len() - i,
    {
        if str_equal(v[i].as_str(), s) {
            assert(strs(v@)[i as int] == s@);
            return true;
        }
        i = i + 1;
    }
    assert(!strs(v@).contains(s@)) by {
        if strs(v@).contains(s@) {
            let k = choose|k: int| 0 <= k < strs(v@).len() && strs(v@)[k] == s@;
            assert(v@[k]@ == s@);
        }
    }
    false
}

/// The ids of the tabs owned by the sessions, in tab-id order.
pub fn tabs_for_sessions(state: &ServiceState, session_ids: &Vec<String>) -> (r: Vec<String>)
    ensures
        strs(r@) == tab_ids_for(state.tabs@, strs(session_ids@)),
        keys_sorted(state.tabs@) ==> strictly_sorted(strs(r@)),
{
    let ghost pred = |t: BrowserTab| tab_in_sessions(t, strs(session_ids@));
    let mut out: Vec<String> = Vec::new();
    let mut i: usize = 0;
    while i < state.tabs.len()
        invariant
            i <= state.tabs@.len(),
            pred == (|t: BrowserTab| tab_in_sessions(t, strs(session_ids@))),
            strs(out@) == state.tabs@.take(i as int).filter(pred).map_values(|t: BrowserTab| t.id@),
            keys_sorted(state.tabs@) ==> strictly_sorted(strs(out@)),
            keys_sorted(state.tabs@) ==> forall|k: int, j: int|
                0 <= k < out@.len() && i <= j < state.tabs@.len() ==> seq_lt(
                    #[trigger] strs(out@)[k],
                    #[trigger] state.tabs@[j].key_view(),
                ),
        decreases state.tabs@.len() - i,
    {
        proof {
            lemma_filter_take_step(state.tabs@, pred, i as int);
        }
        let tab = &state.tabs[i];
        let keep = match &tab.owner_session_id {
            Some(o) => contains_text(session_ids, o.as_str()),
            None => false,
        };
        if keep {
            let id = tab.id.clone();
            proof {
                lemma_strs_push(out@, id);
                lemma_map_push(state.tabs@.take(i as int).filter(pred), *tab, |t: BrowserTab| t.id@);
            }
            let ghost out0 = out@;
            out.push(id);
            proof {
                if keys_sorted(state.tabs@) {
                    assert(state.tabs@[i as int] == *tab);
                    assert(strs(out@)[out0.len() as int] == tab.id@);
                    assert forall|k: int, j: int|
                        0 <= k < out@.len() && i + 1 <= j < state.tabs@.len() implies seq_lt(
                        #[trigger] strs(out@)[k],
                        #[trigger] state.tabs@[j].key_view(),
                    ) by {
                        if k < out0.len() {
                            assert(strs(out@)[k] == strs(out0)[k]);
                        } else {
                            assert(seq_lt(state.tabs@[i as int].key_view(), state.tabs@[j].key_view()));
                        }
                    }
                    assert forall|k: int, l: int| 0 <= k < l < out@.len() implies seq_lt(
                        #[trigger] strs(out@)[k],
                        #[trigger] strs(out@)[l],
                    ) by {
                        if l < out0.len() {
                            assert(strs(out@)[k] == strs(out0)[k]);
                            assert(strs(out@)[l] == strs(out0)[l]);
                        } else {
                            assert(strs(out@)[k] == strs(out0)[k]);
                            assert(seq_lt(strs(out0)[k], state.tabs@[i as int].key_view()));
                        }
                    }
                }
            }
        }
        i = i + 1;
    }
    proof {
        lemma_take_full(state.tabs@);
    }
    out
}

/// The ids of the remote view routes of a browser, in route-id order.
pub open spec fn route_ids_for(routes: Seq<RemoteViewRoute>, browser_id: Seq<char>) -> Seq<Seq<char>> {
    routes.filter(|r: RemoteViewRoute| opt_is(r.browser_id, browser_id)).map_values(
        |r: RemoteViewRoute| r.id@,
    )
}

/// The ids of the remote view routes of a browser, in route-id order.
pub fn routes_for_browser(state: &ServiceState, browser_id: &str) -> (r: Vec<String>)
    ensures
        strs(r@) == route_ids_for(state.remote_view_routes@, browser_id@),
{
    let ghost pred = |r: RemoteViewRoute| opt_is(r.browser_id, browser_id@);
    let mut out: Vec<String> = Vec::new();
    let mut i: usize = 0;
    while i < state.remote_view_routes.len()
        invariant
            i <= state.remote_view_routes@.len(),
            pred == (|r: RemoteViewRoute| opt_is(r.browser_id, browser_id@)),
            strs(out@) == state.remote_view_routes@.take(i as int).filter(pred).map_values(
                |r: RemoteViewRoute| r.id@,
            ),
        decreases state.remote_view_routes@.len() - i,
    {
        proof {
            lemma_filter_take_step(state.remote_view_routes@, pred, i as int);
        }
        let route = &state.remote_view_routes[i];
        if opt_eq(&route.browser_id, browser_id) {
            let id = route.id.clone();
            proof {
                lemma_strs_push(out@, id);
                lemma_map_push(
                    state.remote_view_routes@.take(i as int).filter(pred),
                    *route,
                    |r: RemoteViewRoute| r.id@,
                );
            }
            out.push(id);
        }
        i = i + 1;
    }
    proof {
        lemma_take_full(state.remote_view_routes@);
    }
    out
}

/// The cleanup obligation recorded for a browser's lifecycle.
pub open spec fn cleanup_obligation_spec(state: ServiceState, browser_id: Seq<char>) -> Option<Seq<char>> {
    match lookup(state.runtime_owner_registry.lifecycle_records@, browser_id) {
        Some(record) => Some(record.cleanup_obligation_state@),
        None => None,
    }
}

/// The cleanup obligation recorded for a browser's lifecycle.
pub fn cleanup_obligation_for_browser(state: &ServiceState, browser_id: &str) -> (r: Option<String>)
    ensures
        ov(r) == cleanup_obligation_spec(*state, browser_id@),
{
    match get_keyed(&state.runtime_owner_registry.lifecycle_records, browser_id) {
        Some(record) => Some(record.cleanup_obligation_state.clone()),
        None => None,
    }
}


/// Whether a tab can still do work.
pub open spec fn tab_is_live(t: BrowserTab) -> bool {
    t.lifecycle != TabLifecycle::Closed && t.lifecycle != TabLifecycle::Crashed
}

/// The sessions of the authority's profile that still hold work at `now`.
pub open spec fn rejoin_candidates(
    sessions: Seq<BrowserSession>,
    profile_id: Seq<char>,
    now: Seq<char>,
) -> Seq<BrowserSession> {
    sessions.filter(
        |s: BrowserSession| opt_is(s.profile_id, profile_id) && !inactive_or_expired_spec(
            s.lease,
            s.expires_at,
            now,
        ),
    )
}

/// The live tabs owned by a session, in tab-id order.
pub open spec fn session_live_tabs(tabs: Seq<BrowserTab>, session_id: Seq<char>) -> Seq<BrowserTab> {
    tabs.filter(|t: BrowserTab| opt_is(t.owner_session_id, session_id) && tab_is_live(t))
}

/// Whether a tab runs in another browser or works for another principal.
pub open spec fn tab_conflicts(t: BrowserTab, browser_id: Seq<char>, principal_id: Seq<char>) -> bool {
    t.browser_id@ != browser_id || (t.principal_id matches Some(p) && p@ != principal_id)
}

/// The exact session and tabs an authority may rejoin under the ready owner
/// of `digest`: the one session of its profile that still holds work, when
/// that session is the owner's route or runs the owner's browser, is not held
/// by another principal, and none of its live tabs runs in another browser or
/// works for another principal.
pub open spec fn exact_rejoin_target_for_owner_spec(
    state: ServiceState,
    authority: AuthenticatedServicePrincipal,
    digest: Seq<char>,
    now: Seq<char>,
) -> Option<(Seq<char>, Seq<Seq<char>>)> {
    if !authority_is_current_spec(state.service_principals, authority) {
        None
    } else {
        match lookup(state.runtime_owner_registry.owners@, digest) {
            None => None,
            Some(owner) => {
                let candidates = rejoin_candidates(state.sessions@, authority.profile_id@, now);
                if owner.state != ProfileOwnerState::Ready || candidates.len() != 1 {
                    None
                } else {
                    let session = candidates[0];
                    let exact = session.id@ == owner.daemon_session_route@ || strs(
                        session.browser_ids@,
                    ).contains(owner.browser_id@);
                    let uncontested = session.principal_id is None || opt_is(
                        session.principal_id,
                        authority.principal_id@,
                    );
                    let tabs = session_live_tabs(state.tabs@, session.id@);
                    if !exact || !uncontested {
                        None
                    } else if exists|i: int| 0 <= i < tabs.len() && tab_conflicts(
                        #[trigger] tabs[i],
                        owner.browser_id@,
                        authority.principal_id@,
                    ) {
                        None
                    } else {
                        Some((session.id@, tabs.map_values(|t: BrowserTab| t.id@)))
                    }
                }
            },
        }
    }
}

/// The view of an optional rejoin target.
pub open spec fn target_view(t: Option<(String, Vec<String>)>) -> Option<(Seq<char>, Seq<Seq<char>>)> {
    match t {
        Some((s, tabs)) => Some((s@, strs(tabs@))),
        None => None,
    }
}

/// The sessions of a profile that still hold work at `now`.
fn rejoin_candidate_sessions<'a>(state: &'a ServiceState, profile_id: &str, now: &str) -> (r: Vec<&'a BrowserSession>)
    ensures
        deref(r@) == rejoin_candidates(state.sessions@, profile_id@, now@),
{
    let ghost pred = |s: BrowserSession| opt_is(s.profile_id, profile_id@) && !inactive_or_expired_spec(
        s.lease,
        s.expires_at,
        now@,
    );
    let mut out: Vec<&BrowserSession> = Vec::new();
    let mut i: usize = 0;
    while i < state.sessions.len()
        invariant
            i <= state.sessions@.len(),
            pred == (|s: BrowserSession| opt_is(s.profile_id, profile_id@) && !inactive_or_expired_spec(
                s.lease,
                s.expires_at,
                now@,
            )),
            deref(out@) == state.sessions@.take(i as int).filter(pred),
        decreases state.sessions@.len() - i,
    {
        proof {
            lemma_filter_take_step(state.sessions@, pred, i as int);
        }
        let session = &state.sessions[i];
        if opt_eq(&session.profile_id, profile_id) && !inactive_or_expired(
            session.lease,
            &session.expires_at,
            now,
        ) {
            proof {
                lemma_deref_push(out@, session);
            }
            out.push(session);
        }
        i = i + 1;
    }
    proof {
        lemma_take_full(state.sessions@);
    }
    out
}

/// The live tabs owned by a session.
fn live_tabs_of_session<'a>(state: &'a ServiceState, session_id: &str) -> (r: Vec<&'a BrowserTab>)
    ensures
        deref(r@) == session_live_tabs(state.tabs@, session_id@),
{
    let ghost pred = |t: BrowserTab| opt_is(t.owner_session_id, session_id@) && tab_is_live(t);
    let mut out: Vec<&BrowserTab> = Vec::new();
    let mut i: usize = 0;
    while i < state.tabs.len()
        invariant
            i <= state.tabs@.len(),
            pred == (|t: BrowserTab| opt_is(t.owner_session_id, session_id@) && tab_is_live(t)),
            deref(out@) == state.tabs@.take(i as int).filter(pred),
        decreases state.tabs@.len() - i,
    {
        proof {
            lemma_filter_take_step(state.tabs@, pred, i as int);
        }
        let tab = &state.tabs[i];
        if opt_eq(&tab.owner_session_id, session_id) && tab.lifecycle != TabLifecycle::Closed
            && tab.lifecycle != TabLifecycle::Crashed {
            proof {
                lemma_deref_push(out@, tab);
            }
            out.push(tab);
        }
        i = i + 1;
    }
    proof {
        lemma_take_full(state.tabs@);
    }
    out
}

/// Whether some text equals `s`.
fn vec_contains(v: &Vec<String>, s: &str) -> (r: bool)
    ensures
        r == strs(v@).contains(s@),
{
    contains_text(v, s)
}

/// The exact session and tabs an authority may rejoin under the ready owner of `digest`.
#[verifier::loop_isolation(false)]
pub fn exact_rejoin_target_for_owner(
    state: &ServiceState,
    authority: &AuthenticatedServicePrincipal,
    profile_identity_digest: &str,
    now: &str,
) -> (r: Option<(String, Vec<String>)>)
    ensures
        target_view(r) == exact_rejoin_target_for_owner_spec(
            *state,
            *authority,
            profile_identity_digest@,
            now@,
        ),
{
    if !authenticated_authority_is_current(&state.service_principals, authority) {
        return None;
    }
    let owner = match get_keyed(&state.runtime_owner_registry.owners, profile_identity_digest) {
        Some(o) => o,
        None => return None,
    };
    let candidates = rejoin_candidate_sessions(state, authority.profile_id.as_str(), now);
    if owner.state != ProfileOwnerState::Ready || candidates.len() != 1 {
        return None;
    }
    let session = candidates[0];
    assert(deref(candidates@)[0] == *candidates@[0]);
    assert(*session == rejoin_candidates(state.sessions@, authority.profile_id@, now@)[0]);
    let exact = str_equal(session.id.as_str(), owner.daemon_session_route.as_str()) || vec_contains(
        &session.browser_ids,
        owner.browser_id.as_str(),
    );
    let uncontested = match &session.principal_id {
        None => true,
        Some(p) => str_equal(p.as_str(), authority.principal_id.as_str()),
    };
    if !exact || !uncontested {
        return None;
    }
    let tabs = live_tabs_of_session(state, session.id.as_str());
    let ghost tv = deref(tabs@);
    let mut i: usize = 0;
    while i < tabs.len()
        invariant
            i <= tabs@.len(),
            tv == deref(tabs@),
            forall|j: int| 0 <= j < i ==> !tab_conflicts(#[trigger] tv[j], owner.browser_id@, authority.principal_id@),
        decreases tabs@.len() - i,
    {
        let tab = tabs[i];
        let conflicts = !str_equal(tab.browser_id.as_str(), owner.browser_id.as_str()) || match &tab.principal_id {
            Some(p) => !str_equal(p.as_str(), authority.principal_id.as_str()),
            None => false,
        };
        if conflicts {
            assert(tab_conflicts(tv[i as int], owner.browser_id@, authority.principal_id@));
            return None;
        }
        i = i + 1;
    }
    let mut ids: Vec<String> = Vec::new();
    let mut k: usize = 0;
    while k < tabs.len()
        invariant
            k <= tabs@.len(),
            tv == deref(tabs@),
            strs(ids@) == tv.map_values(|t: BrowserTab| t.id@).take(k as int),
        decreases tabs@.len() - k,
    {
        let id = tabs[k].id.clone();
        proof {
            lemma_strs_push(ids@, id);
        }
        ids.push(id);
        assert(strs(ids@) =~= tv.map_values(|t: BrowserTab| t.id@).take(k + 1));
        k = k + 1;
    }
    assert(tv.map_values(|t: BrowserTab| t.id@).take(tabs@.len() as int) =~= tv.map_values(|t: BrowserTab| t.id@));
    Some((session.id.clone(), ids))
}

/// The exact target of an authority whose binding names a ready owner at or
/// past the bound generation.
pub open spec fn exact_rejoin_target_spec(
    state: ServiceState,
    authority: AuthenticatedServicePrincipal,
    now: Seq<char>,
) -> Option<(Seq<char>, Seq<Seq<char>>)> {
    if !authority_is_current_spec(state.service_principals, authority) {
        None
    } else {
        match first_binding_for(state.runtime_owner_registry.principal_bindings@, authority) {
            None => None,
            Some(binding) => match lookup(state.runtime_owner_registry.owners@, binding.profile_identity_digest@) {
                None => None,
                Some(owner) => if owner.state != ProfileOwnerState::Ready || owner.owner_generation
                    < binding.owner_generation {
                    None
                } else {
                    exact_rejoin_target_for_owner_spec(state, authority, binding.profile_identity_digest@, now)
                },
            },
        }
    }
}

/// The exact target of an authority through its binding.
pub fn exact_rejoin_target(
    state: &ServiceState,
    authority: &AuthenticatedServicePrincipal,
    now: &str,
) -> (r: Option<(String, Vec<String>)>)
    ensures
        target_view(r) == exact_rejoin_target_spec(*state, *authority, now@),
{
    if !authenticated_authority_is_current(&state.service_principals, authority) {
        return None;
    }
    let binding = match find_binding_for(&state.runtime_owner_registry.principal_bindings, authority) {
        Some(b) => b,
        None => return None,
    };
    let owner = match get_keyed(&state.runtime_owner_registry.owners, binding.profile_identity_digest.as_str()) {
        Some(o) => o,
        None => return None,
    };
    if owner.state != ProfileOwnerState::Ready || owner.owner_generation < binding.owner_generation {
        return None;
    }
    exact_rejoin_target_for_owner(state, authority, binding.profile_identity_digest.as_str(), now)
}

/// The current authority of a binding: its capability's revision under the
/// binding's principal, profile and provenance, when that is still current.
pub open spec fn authority_for_binding_spec(
    state: ServiceState,
    binding: RuntimeOwnerPrincipalBinding,
) -> Option<AuthenticatedServicePrincipal> {
    match lookup(state.service_principals.profile_capabilities@, binding.capability_id@) {
        None => None,
        Some(capability) => {
            let authority = AuthenticatedServicePrincipal {
                principal_id: binding.principal_id,
                profile_id: binding.profile_id,
                capability_id: binding.capability_id,
                capability_revision: capability.revision,
                provenance: binding.provenance,
            };
            if authority_is_current_spec(state.service_principals, authority) {
                Some(authority)
            } else {
                None
            }
        },
    }
}

/// The view of an authority.
pub open spec fn authority_view(a: AuthenticatedServicePrincipal) -> (Seq<char>, Seq<char>, Seq<char>, u64, ServicePrincipalProvenance) {
    (a.principal_id@, a.profile_id@, a.capability_id@, a.capability_revision, a.provenance)
}

/// The view of an optional authority.
pub open spec fn opt_authority_view(a: Option<AuthenticatedServicePrincipal>) -> Option<(Seq<char>, Seq<char>, Seq<char>, u64, ServicePrincipalProvenance)> {
    match a {
        Some(x) => Some(authority_view(x)),
        None => None,
    }
}

/// The current authority of a binding.
pub fn authority_for_binding(
    state: &ServiceState,
    binding: &RuntimeOwnerPrincipalBinding,
) -> (r: Option<AuthenticatedServicePrincipal>)
    ensures
        r == authority_for_binding_spec(*state, *binding),
{
    let capability = match get_keyed(&state.service_principals.profile_capabilities, binding.capability_id.as_str()) {
        Some(c) => c,
        None => return None,
    };
    let authority = AuthenticatedServicePrincipal {
        principal_id: binding.principal_id.clone(),
        profile_id: binding.profile_id.clone(),
        capability_id: binding.capability_id.clone(),
        capability_revision: capability.revision,
        provenance: binding.provenance,
    };
    if authenticated_authority_is_current(&state.service_principals, &authority) {
        Some(authority)
    } else {
        None
    }
}

/// Whether a tab is live subordinate work of an authority at `now`: it works
/// for the authority's principal with its provenance, its owner session
/// belongs to the same principal and profile, and its work lease has not
/// passed `now` (compared as text).
pub open spec fn subordinate_tab(
    state: ServiceState,
    authority: AuthenticatedServicePrincipal,
    now: Seq<char>,
    t: BrowserTab,
) -> bool {
    &&& opt_is(t.principal_id, authority.principal_id@)
    &&& t.principal_provenance == Some(authority.provenance)
    &&& t.owner_session_id matches Some(sid)
    &&& lookup(state.sessions@, sid@) matches Some(s)
    &&& opt_is(s.profile_id, authority.profile_id@)
    &&& opt_is(s.principal_id, authority.principal_id@)
    &&& tab_is_live(t)
    &&& match t.work_lease_expires_at {
        Some(e) => seq_lt(now, e@),
        None => true,
    }
}

/// Whether an authority has live subordinate tab work at `now`.
pub open spec fn has_active_subordinate_tabs(
    state: ServiceState,
    authority: AuthenticatedServicePrincipal,
    now: Seq<char>,
) -> bool {
    exists|i: int| 0 <= i < state.tabs@.len() && subordinate_tab(state, authority, now, #[trigger] state.tabs@[i])
}

/// Whether one tab is live subordinate work of an authority.
fn is_subordinate_tab(
    state: &ServiceState,
    authority: &AuthenticatedServicePrincipal,
    now: &str,
    tab: &BrowserTab,
) -> (r: bool)
    ensures
        r == subordinate_tab(*state, *authority, now@, *tab),
{
    if !opt_eq(&tab.principal_id, authority.principal_id.as_str()) || tab.principal_provenance
        != Some(authority.provenance) {
        return false;
    }
    let session_matches = match &tab.owner_session_id {
        Some(sid) => match get_keyed(&state.sessions, sid.as_str()) {
            Some(s) => opt_eq(&s.profile_id, authority.profile_id.as_str()) && opt_eq(
                &s.principal_id,
                authority.principal_id.as_str(),
            ),
            None => false,
        },
        None => false,
    };
    if !session_matches || tab.lifecycle == TabLifecycle::Closed || tab.lifecycle == TabLifecycle::Crashed {
        return false;
    }
    match &tab.work_lease_expires_at {
        Some(e) => str_lt(now, e.as_str()),
        None => true,
    }
}

/// Whether an authority has live subordinate tab work at `now`.
pub fn active_subordinate_tabs(
    state: &ServiceState,
    authority: &AuthenticatedServicePrincipal,
    now: &str,
) -> (r: bool)
    ensures
        r == has_active_subordinate_tabs(*state, *authority, now@),
{
    let mut i: usize = 0;
    while i < state.tabs.len()
        invariant
            i <= state.tabs@.len(),
            forall|j: int| 0 <= j < i ==> !subordinate_tab(*state, *authority, now@, #[trigger] state.tabs@[j]),
        decreases state.tabs@.len() - i,
    {
        if is_subordinate_tab(state, authority, now, &state.tabs[i]) {
            return true;
        }
        i = i + 1;
    }
    false
}


/// The projection of one principal's lease over one profile.
pub struct ProfileLeaseRecord {
    pub schema_version: String,
    pub id: String,
    pub lease_revision: String,
    pub principal_id: Option<String>,
    pub principal_provenance: Option<ServicePrincipalProvenance>,
    pub profile_id: String,
    pub profile_identity_digest: Option<String>,
    pub browser_id: Option<String>,
    pub session_ids: Vec<String>,
    pub tab_ids: Vec<String>,
    pub mode: String,
    pub state: String,
    pub owner_generation: Option<u64>,
    pub process_instance_digest: Option<String>,
    pub route_ids: Vec<String>,
    pub last_heartbeat_at: Option<String>,
    pub expires_at: Option<String>,
    pub cleanup_obligation: Option<String>,
    pub blocking_identity_axes: Vec<String>,
    pub authorized_actions: Vec<String>,
    pub recourse: PrincipalContinuityRecourse,
    pub observation_only: bool,
}

/// The mathematical content of a lease record.
pub struct LeaseView {
    pub schema_version: Seq<char>,
    pub id: Seq<char>,
    pub lease_revision: Seq<char>,
    pub principal_id: Option<Seq<char>>,
    pub principal_provenance: Option<ServicePrincipalProvenance>,
    pub profile_id: Seq<char>,
    pub profile_identity_digest: Option<Seq<char>>,
    pub browser_id: Option<Seq<char>>,
    pub session_ids: Seq<Seq<char>>,
    pub tab_ids: Seq<Seq<char>>,
    pub mode: Seq<char>,
    pub state: Seq<char>,
    pub owner_generation: Option<u64>,
    pub process_instance_digest: Option<Seq<char>>,
    pub route_ids: Seq<Seq<char>>,
    pub last_heartbeat_at: Option<Seq<char>>,
    pub expires_at: Option<Seq<char>>,
    pub cleanup_obligation: Option<Seq<char>>,
    pub blocking_identity_axes: Seq<Seq<char>>,
    pub authorized_actions: Seq<Seq<char>>,
    pub recourse: PrincipalContinuityRecourse,
    pub observation_only: bool,
}

impl View for ProfileLeaseRecord {
    type V = LeaseView;

    open spec fn view(&self) -> LeaseView {
        LeaseView {
            schema_version: self.schema_version@,
            id: self.id@,
            lease_revision: self.lease_revision@,
            principal_id: ov(self.principal_id),
            principal_provenance: self.principal_provenance,
            profile_id: self.profile_id@,
            profile_identity_digest: ov(self.profile_identity_digest),
            browser_id: ov(self.browser_id),
            session_ids: strs(self.session_ids@),
            tab_ids: strs(self.tab_ids@),
            mode: self.mode@,
            state: self.state@,
            owner_generation: self.owner_generation,
            process_instance_digest: ov(self.process_instance_digest),
            route_ids: strs(self.route_ids@),
            last_heartbeat_at: ov(self.last_heartbeat_at),
            expires_at: ov(self.expires_at),
            cleanup_obligation: ov(self.cleanup_obligation),
            blocking_identity_axes: strs(self.blocking_identity_axes@),
            authorized_actions: strs(self.authorized_actions@),
            recourse: self.recourse,
            observation_only: self.observation_only,
        }
    }
}

/// The snake_case name of a provenance.
pub open spec fn provenance_name(p: ServicePrincipalProvenance) -> Seq<char> {
    match p {
        ServicePrincipalProvenance::RegisteredCapability => "registered_capability"@,
        ServicePrincipalProvenance::UnprovenLegacy => "unproven_legacy"@,
    }
}

/// The snake_case name of a recourse.
pub open spec fn recourse_name(r: PrincipalContinuityRecourse) -> Seq<char> {
    match r {
        PrincipalContinuityRecourse::RejoinOwnedBrowser => "rejoin_owned_browser"@,
        PrincipalContinuityRecourse::WaitForForeignPrincipal => "wait_for_foreign_principal"@,
        PrincipalContinuityRecourse::ReconcilePrincipalIdentity => "reconcile_principal_identity"@,
        PrincipalContinuityRecourse::ReplaceStaleSamePrincipalSession => "replace_stale_same_principal_session"@,
    }
}

/// The JSON form of an optional provenance.
pub open spec fn provenance_text(p: Option<ServicePrincipalProvenance>) -> Seq<char> {
    match p {
        Some(v) => quoted(provenance_name(v)),
        None => "null"@,
    }
}

/// The JSON object of a lease record whose revision is blank, with its keys
/// in sorted order.
pub open spec fn lease_projection_text(v: LeaseView) -> Seq<char> {
    "{\"authorizedActions\":"@ + quoted_list(v.authorized_actions)
        + ",\"blockingIdentityAxes\":"@ + quoted_list(v.blocking_identity_axes)
        + ",\"browserId\":"@ + opt_text(v.browser_id)
        + ",\"cleanupObligation\":"@ + opt_text(v.cleanup_obligation)
        + ",\"expiresAt\":"@ + opt_text(v.expires_at)
        + ",\"id\":"@ + quoted(v.id)
        + ",\"lastHeartbeatAt\":"@ + opt_text(v.last_heartbeat_at)
        + ",\"leaseRevision\":\"\""@
        + ",\"mode\":"@ + quoted(v.mode)
        + ",\"observationOnly\":"@ + bool_text(v.observation_only)
        + ",\"ownerGeneration\":"@ + opt_u64_text(v.owner_generation)
        + ",\"principalId\":"@ + opt_text(v.principal_id)
        + ",\"principalProvenance\":"@ + provenance_text(v.principal_provenance)
        + ",\"processInstanceDigest\":"@ + opt_text(v.process_instance_digest)
        + ",\"profileId\":"@ + quoted(v.profile_id)
        + ",\"profileIdentityDigest\":"@ + opt_text(v.profile_identity_digest)
        + ",\"recourse\":"@ + quoted(recourse_name(v.recourse))
        + ",\"routeIds\":"@ + quoted_list(v.route_ids)
        + ",\"schemaVersion\":"@ + quoted(v.schema_version)
        + ",\"sessionIds\":"@ + quoted_list(v.session_ids)
        + ",\"state\":"@ + quoted(v.state)
        + ",\"tabIds\":"@ + quoted_list(v.tab_ids) + "}"@
}

/// The revision of a lease record: a digest of its projection with a blank revision.
pub open spec fn lease_revision_spec(v: LeaseView) -> Seq<char> {
    "profile-lease-revision-v1:"@ + digest_prefix_spec(lease_projection_text(v))
}

/// The snake_case name of a provenance.
pub fn provenance_str(p: ServicePrincipalProvenance) -> (r: &'static str)
    ensures
        r@ == provenance_name(p),
{
    match p {
        ServicePrincipalProvenance::RegisteredCapability => "registered_capability",
        ServicePrincipalProvenance::UnprovenLegacy => "unproven_legacy",
    }
}

/// The snake_case name of a recourse.
pub fn recourse_str(r: PrincipalContinuityRecourse) -> (s: &'static str)
    ensures
        s@ == recourse_name(r),
{
    match r {
        PrincipalContinuityRecourse::RejoinOwnedBrowser => "rejoin_owned_browser",
        PrincipalContinuityRecourse::WaitForForeignPrincipal => "wait_for_foreign_principal",
        PrincipalContinuityRecourse::ReconcilePrincipalIdentity => "reconcile_principal_identity",
        PrincipalContinuityRecourse::ReplaceStaleSamePrincipalSession => "replace_stale_same_principal_session",
    }
}

/// The JSON object of a lease record whose revision is blank.
pub fn lease_projection(record: &ProfileLeaseRecord) -> (r: String)
    ensures
        r@ == lease_projection_text(record@),
{
    let mut out = String::new();
    out.append("{\"authorizedActions\":");
    push_quoted_list(&mut out, &record.authorized_actions);
    out.append(",\"blockingIdentityAxes\":");
    push_quoted_list(&mut out, &record.blocking_identity_axes);
    out.append(",\"browserId\":");
    push_opt_text(&mut out, &record.browser_id);
    out.append(",\"cleanupObligation\":");
    push_opt_text(&mut out, &record.cleanup_obligation);
    out.append(",\"expiresAt\":");
    push_opt_text(&mut out, &record.expires_at);
    out.append(",\"id\":");
    push_quoted(&mut out, record.id.as_str());
    out.append(",\"lastHeartbeatAt\":");
    push_opt_text(&mut out, &record.last_heartbeat_at);
    out.append(",\"leaseRevision\":\"\"");
    out.append(",\"mode\":");
    push_quoted(&mut out, record.mode.as_str());
    out.append(",\"observationOnly\":");
    if record.observation_only {
        out.append("true");
    } else {
        out.append("false");
    }
    out.append(",\"ownerGeneration\":");
    push_opt_u64(&mut out, record.owner_generation);
    out.append(",\"principalId\":");
    push_opt_text(&mut out, &record.principal_id);
    out.append(",\"principalProvenance\":");
    match record.principal_provenance {
        Some(p) => push_quoted(&mut out, provenance_str(p)),
        None => out.append("null"),
    }
    out.append(",\"processInstanceDigest\":");
    push_opt_text(&mut out, &record.process_instance_digest);
    out.append(",\"profileId\":");
    push_quoted(&mut out, record.profile_id.as_str());
    out.append(",\"profileIdentityDigest\":");
    push_opt_text(&mut out, &record.profile_identity_digest);
    out.append(",\"recourse\":");
    push_quoted(&mut out, recourse_str(record.recourse));
    out.append(",\"routeIds\":");
    push_quoted_list(&mut out, &record.route_ids);
    out.append(",\"schemaVersion\":");
    push_quoted(&mut out, record.schema_version.as_str());
    out.append(",\"sessionIds\":");
    push_quoted_list(&mut out, &record.session_ids);
    out.append(",\"state\":");
    push_quoted(&mut out, record.state.as_str());
    out.append(",\"tabIds\":");
    push_quoted_list(&mut out, &record.tab_ids);
    out.append("}");
    assert(out@ =~= lease_projection_text(record@));
    out
}

/// The revision of a lease record.
pub fn lease_revision(record: &ProfileLeaseRecord) -> (r: String)
    ensures
        r@ == lease_revision_spec(record@),
{
    let projection = lease_projection(record);
    let d = digest_prefix(projection.as_str());
    concat2("profile-lease-revision-v1:", d.as_str())
}


/// The read-only actions every lease offers, in their declared order.
pub open spec fn read_actions() -> Seq<Seq<char>> {
    seq!["list"@, "inspect"@, "explain"@, "doctor"@, "watch"@]
}

/// The read-only actions every lease offers.
fn read_action_list() -> (r: Vec<String>)
    ensures
        strs(r@) == read_actions(),
{
    let mut v: Vec<String> = Vec::new();
    v.push(owned("list"));
    v.push(owned("inspect"));
    v.push(owned("explain"));
    v.push(owned("doctor"));
    v.push(owned("watch"));
    assert(strs(v@) =~= read_actions());
    v
}

/// A lease view whose revision is its digest.
pub open spec fn with_revision(v: LeaseView) -> LeaseView {
    LeaseView { lease_revision: lease_revision_spec(v), ..v }
}

/// Whether some owner that has not failed runs a browser of profile `profile_id`.
pub open spec fn has_nonterminal_owner(state: ServiceState, profile_id: Seq<char>) -> bool {
    exists|i: int| 0 <= i < state.runtime_owner_registry.owners@.len() && owner_runs_profile(
        state,
        #[trigger] state.runtime_owner_registry.owners@[i],
        profile_id,
    )
}

/// Whether an owner that has not failed runs a browser of the profile.
pub open spec fn owner_runs_profile(state: ServiceState, owner: ProfileOwner, profile_id: Seq<char>) -> bool {
    owner.state != ProfileOwnerState::Failed && (lookup(state.browsers@, owner.browser_id@) matches Some(
        b,
    ) && opt_is(b.profile_id, profile_id))
}

/// Whether some owner that has not failed runs a browser of the profile.
fn any_nonterminal_owner(state: &ServiceState, profile_id: &str) -> (r: bool)
    ensures
        r == has_nonterminal_owner(*state, profile_id@),
{
    let owners = &state.runtime_owner_registry.owners;
    let mut i: usize = 0;
    while i < owners.len()
        invariant
            i <= owners@.len(),
            owners == &state.runtime_owner_registry.owners,
            forall|j: int| 0 <= j < i ==> !owner_runs_profile(*state, #[trigger] owners@[j], profile_id@),
        decreases owners@.len() - i,
    {
        let owner = &owners[i];
        if owner.state != ProfileOwnerState::Failed {
            match get_keyed(&state.browsers, owner.browser_id.as_str()) {
                Some(b) => {
                    if opt_eq(&b.profile_id, profile_id) {
                        return true;
                    }
                },
                None => {},
            }
        }
        i = i + 1;
    }
    false
}

/// The observation-only projection of a profile whose sessions carry no
/// proven principal: historical when no session holds work and no live owner
/// runs the profile, else blocked by its unproven legacy principal.
pub open spec fn legacy_lease_base(state: ServiceState, profile_id: Seq<char>, now: Seq<char>) -> LeaseView {
    let sessions = profile_sessions(state.sessions@, profile_id);
    let active = active_sessions(sessions, now);
    let historical = active.len() == 0 && !has_nonterminal_owner(state, profile_id);
    let session_ids = session_ids_of(sessions);
    LeaseView {
        schema_version: PROFILE_LEASE_SCHEMA_VERSION@,
        id: profile_lease_id_spec("unproven-legacy"@, profile_id),
        lease_revision: Seq::empty(),
        principal_id: None,
        principal_provenance: Some(ServicePrincipalProvenance::UnprovenLegacy),
        profile_id: profile_id,
        profile_identity_digest: None,
        browser_id: None,
        session_ids: session_ids,
        tab_ids: tab_ids_for(state.tabs@, session_ids),
        mode: lease_mode_spec(active),
        state: if historical { "historical"@ } else { "identity_reconciliation_required"@ },
        owner_generation: None,
        process_instance_digest: None,
        route_ids: Seq::empty(),
        last_heartbeat_at: latest_observation(sessions),
        expires_at: earliest_expiry(active),
        cleanup_obligation: None,
        blocking_identity_axes: if historical { Seq::empty() } else { seq!["legacy_principal_unproven"@] },
        authorized_actions: if historical { read_actions() } else { read_actions().push("profile_acquire"@) },
        recourse: PrincipalContinuityRecourse::ReconcilePrincipalIdentity,
        observation_only: true,
    }
}

/// The observation-only projection of a profile whose sessions carry no proven principal.
#[verifier::rlimit(60)]
#[verifier::spinoff_prover]
pub fn legacy_profile_lease(state: &ServiceState, profile_id: &str, now: &str) -> (r: ProfileLeaseRecord)
    ensures
        r@ == with_revision(legacy_lease_base(*state, profile_id@, now@)),
{
    let sessions = sessions_for_profile(state, profile_id);
    let session_ids = ids_of_sessions(&sessions);
    let active = active_of(&sessions, now);
    let historical = active.len() == 0 && !any_nonterminal_owner(state, profile_id);
    let mut authorized_actions = read_action_list();
    if !historical {
        authorized_actions.push(owned("profile_acquire"));
    }
    let mut blocking: Vec<String> = Vec::new();
    if !historical {
        blocking.push(owned("legacy_principal_unproven"));
    }
    let tab_ids = tabs_for_sessions(state, &session_ids);
    let mut record = ProfileLeaseRecord {
        schema_version: owned(PROFILE_LEASE_SCHEMA_VERSION),
        id: profile_lease_id("unproven-legacy", profile_id),
        lease_revision: String::new(),
        principal_id: None,
        principal_provenance: Some(ServicePrincipalProvenance::UnprovenLegacy),
        profile_id: owned(profile_id),
        profile_identity_digest: None,
        browser_id: None,
        session_ids,
        tab_ids,
        mode: lease_mode(&active),
        state: if historical { owned("historical") } else { owned("identity_reconciliation_required") },
        owner_generation: None,
        process_instance_digest: None,
        route_ids: Vec::new(),
        last_heartbeat_at: latest_value(&sessions),
        expires_at: earliest_value(&active),
        cleanup_obligation: None,
        blocking_identity_axes: blocking,
        authorized_actions,
        recourse: PrincipalContinuityRecourse::ReconcilePrincipalIdentity,
        observation_only: true,
    };
    assert(record@.authorized_actions =~= legacy_lease_base(*state, profile_id@, now@).authorized_actions);
    assert(record@.blocking_identity_axes =~= legacy_lease_base(*state, profile_id@, now@).blocking_identity_axes);
    assert(record@.route_ids =~= Seq::<Seq<char>>::empty());
    assert(record@ =~= legacy_lease_base(*state, profile_id@, now@));
    record.lease_revision = lease_revision(&record);
    record
}


/// The identity digest of a stored profile with a user data directory.
pub open spec fn profile_digest_spec(state: ServiceState, profile_id: Seq<char>) -> Option<Seq<char>> {
    match lookup(state.profiles@, profile_id) {
        Some(p) => if p.user_data_dir is Some { ov(p.identity_digest) } else { None },
        None => None,
    }
}

/// The identity digest of a stored profile with a user data directory.
pub fn profile_digest(state: &ServiceState, profile_id: &str) -> (r: Option<String>)
    ensures
        ov(r) == profile_digest_spec(*state, profile_id@),
{
    match get_keyed(&state.profiles, profile_id) {
        Some(p) => if p.user_data_dir.is_some() { clone_opt(&p.identity_digest) } else { None },
        None => None,
    }
}

/// The owner registered for an optional digest.
pub open spec fn owner_for(state: ServiceState, digest: Option<Seq<char>>) -> Option<ProfileOwner> {
    match digest {
        Some(d) => lookup(state.runtime_owner_registry.owners@, d),
        None => None,
    }
}

/// The authority a registered capability confers.
pub open spec fn capability_authority(c: ServiceProfileCapability) -> AuthenticatedServicePrincipal {
    AuthenticatedServicePrincipal {
        principal_id: c.principal_id,
        profile_id: c.profile_id,
        capability_id: c.capability_id,
        capability_revision: c.revision,
        provenance: ServicePrincipalProvenance::RegisteredCapability,
    }
}

/// Whether a capability without an owner binding may rejoin the unique
/// uncontested work of its profile's ready owner.
pub open spec fn unbound_rejoin_repairable(
    state: ServiceState,
    c: ServiceProfileCapability,
    now: Seq<char>,
) -> bool {
    let authority = capability_authority(c);
    authority_is_current_spec(state.service_principals, authority) && (profile_digest_spec(
        state,
        c.profile_id@,
    ) matches Some(d) && lookup(state.runtime_owner_registry.principal_bindings@, d) is None
        && exact_rejoin_target_for_owner_spec(state, authority, d, now) is Some)
}

/// The actions of an unbound capability's lease, sorted.
pub open spec fn unbound_actions(rejoin: bool) -> Seq<Seq<char>> {
    seq!["doctor"@, "explain"@, "inspect"@, "list"@, "profile_acquire"@, "reconcile_plan"@]
        + (if rejoin { seq!["rejoin"@] } else { Seq::empty() }) + seq!["watch"@]
}

/// The observation-only projection of an active capability whose profile
/// owner carries no principal binding.
pub open spec fn unbound_lease_base(state: ServiceState, c: ServiceProfileCapability, now: Seq<char>) -> LeaseView {
    let digest = profile_digest_spec(state, c.profile_id@);
    let owner = owner_for(state, digest);
    let sessions = profile_sessions(state.sessions@, c.profile_id@);
    let active = active_sessions(sessions, now);
    let session_ids = session_ids_of(sessions);
    let rejoin = unbound_rejoin_repairable(state, c, now);
    LeaseView {
        schema_version: PROFILE_LEASE_SCHEMA_VERSION@,
        id: profile_lease_id_spec(c.principal_id@, match digest { Some(d) => d, None => c.profile_id@ }),
        lease_revision: Seq::empty(),
        principal_id: Some(c.principal_id@),
        principal_provenance: Some(ServicePrincipalProvenance::RegisteredCapability),
        profile_id: c.profile_id@,
        profile_identity_digest: digest,
        browser_id: match owner { Some(o) => Some(o.browser_id@), None => None },
        session_ids: session_ids,
        tab_ids: tab_ids_for(state.tabs@, session_ids),
        mode: lease_mode_spec(active),
        state: "identity_reconciliation_required"@,
        owner_generation: match owner { Some(o) => Some(o.owner_generation), None => None },
        process_instance_digest: match owner { Some(o) => Some(o.process_instance_digest@), None => None },
        route_ids: match owner { Some(o) => route_ids_for(state.remote_view_routes@, o.browser_id@), None => Seq::empty() },
        last_heartbeat_at: latest_observation(sessions),
        expires_at: earliest_expiry(active),
        cleanup_obligation: match owner { Some(o) => cleanup_obligation_spec(state, o.browser_id@), None => None },
        blocking_identity_axes: seq!["runtime_owner_principal_binding_missing"@],
        authorized_actions: unbound_actions(rejoin),
        recourse: if rejoin {
            PrincipalContinuityRecourse::RejoinOwnedBrowser
        } else {
            PrincipalContinuityRecourse::ReconcilePrincipalIdentity
        },
        observation_only: true,
    }
}

/// The observation-only projection of an active capability without an owner binding.
#[verifier::rlimit(60)]
#[verifier::spinoff_prover]
pub fn unbound_capability_profile_lease(
    state: &ServiceState,
    capability: &ServiceProfileCapability,
    now: &str,
) -> (r: ProfileLeaseRecord)
    ensures
        r@ == with_revision(unbound_lease_base(*state, *capability, now@)),
{
    let digest = profile_digest(state, capability.profile_id.as_str());
    let owner = match &digest {
        Some(d) => get_keyed(&state.runtime_owner_registry.owners, d.as_str()),
        None => None,
    };
    let sessions = sessions_for_profile(state, capability.profile_id.as_str());
    let session_ids = ids_of_sessions(&sessions);
    let active = active_of(&sessions, now);
    let authority = AuthenticatedServicePrincipal {
        principal_id: capability.principal_id.clone(),
        profile_id: capability.profile_id.clone(),
        capability_id: capability.capability_id.clone(),
        capability_revision: capability.revision,
        provenance: ServicePrincipalProvenance::RegisteredCapability,
    };
    assert(authority_view(authority) == authority_view(capability_authority(*capability)));
    let rejoin = authenticated_authority_is_current(&state.service_principals, &authority) && match &digest {
        Some(d) => get_keyed(&state.runtime_owner_registry.principal_bindings, d.as_str()).is_none()
            && exact_rejoin_target_for_owner(state, &authority, d.as_str(), now).is_some(),
        None => false,
    };
    assert(rejoin == unbound_rejoin_repairable(*state, *capability, now@)) by {
        assert(authority == capability_authority(*capability));
    }
    let mut actions: Vec<String> = Vec::new();
    actions.push(owned("doctor"));
    actions.push(owned("explain"));
    actions.push(owned("inspect"));
    actions.push(owned("list"));
    actions.push(owned("profile_acquire"));
    actions.push(owned("reconcile_plan"));
    if rejoin {
        actions.push(owned("rejoin"));
    }
    actions.push(owned("watch"));
    let mut blocking: Vec<String> = Vec::new();
    blocking.push(owned("runtime_owner_principal_binding_missing"));
    let id = match &digest {
        Some(d) => profile_lease_id(capability.principal_id.as_str(), d.as_str()),
        None => profile_lease_id(capability.principal_id.as_str(), capability.profile_id.as_str()),
    };
    let tab_ids = tabs_for_sessions(state, &session_ids);
    let (browser_id, owner_generation, process_instance_digest, route_ids, cleanup_obligation) = match owner {
        Some(o) => (
            Some(o.browser_id.clone()),
            Some(o.owner_generation),
            Some(o.process_instance_digest.clone()),
            routes_for_browser(state, o.browser_id.as_str()),
            cleanup_obligation_for_browser(state, o.browser_id.as_str()),
        ),
        None => (None, None, None, Vec::new(), None),
    };
    let mut record = ProfileLeaseRecord {
        schema_version: owned(PROFILE_LEASE_SCHEMA_VERSION),
        id,
        lease_revision: String::new(),
        principal_id: Some(capability.principal_id.clone()),
        principal_provenance: Some(ServicePrincipalProvenance::RegisteredCapability),
        profile_id: capability.profile_id.clone(),
        profile_identity_digest: digest,
        browser_id,
        session_ids,
        tab_ids,
        mode: lease_mode(&active),
        state: owned("identity_reconciliation_required"),
        owner_generation,
        process_instance_digest,
        route_ids,
        last_heartbeat_at: latest_value(&sessions),
        expires_at: earliest_value(&active),
        cleanup_obligation,
        blocking_identity_axes: blocking,
        authorized_actions: actions,
        recourse: if rejoin {
            PrincipalContinuityRecourse::RejoinOwnedBrowser
        } else {
            PrincipalContinuityRecourse::ReconcilePrincipalIdentity
        },
        observation_only: true,
    };
    let ghost base = unbound_lease_base(*state, *capability, now@);
    assert(record@.authorized_actions =~= base.authorized_actions);
    assert(record@.blocking_identity_axes =~= base.blocking_identity_axes);
    assert(record@.route_ids =~= base.route_ids);
    assert(record@ =~= base);
    record.lease_revision = lease_revision(&record);
    record
}


/// Whether a binding's capability and principal are still active registrations
/// of the bound principal and profile.
pub open spec fn bound_capability_current(state: ServiceState, binding: RuntimeOwnerPrincipalBinding) -> bool {
    &&& lookup(state.service_principals.profile_capabilities@, binding.capability_id@) matches Some(c)
    &&& c.state == RegistrationState::Active
    &&& c.principal_id@ == binding.principal_id@
    &&& c.profile_id@ == binding.profile_id@
    &&& lookup(state.service_principals.principals@, binding.principal_id@) matches Some(p)
    &&& p.state == RegistrationState::Active
}

/// Whether some session of the principal no longer holds work at `now`.
pub open spec fn has_stale_same(sessions: Seq<BrowserSession>, principal_id: Seq<char>, now: Seq<char>) -> bool {
    exists|i: int| 0 <= i < sessions.len() && stale_same_session(#[trigger] sessions[i], principal_id, now)
}

/// Whether a session of the principal no longer holds work at `now`.
pub open spec fn stale_same_session(s: BrowserSession, principal_id: Seq<char>, now: Seq<char>) -> bool {
    opt_is(s.principal_id, principal_id) && inactive_or_expired_spec(s.lease, s.expires_at, now)
}

/// The sessions kept by a principal filter.
pub open spec fn by_principal(
    sessions: Seq<BrowserSession>,
    filter: PrincipalFilter,
    principal_id: Seq<char>,
) -> Seq<BrowserSession> {
    sessions.filter(|s: BrowserSession| principal_filter_keeps(filter, s, principal_id))
}

/// The identity axes that block a bound lease, in their fixed order.
pub open spec fn bound_blocking_axes(
    owner_current: bool,
    capability_current: bool,
    has_foreign: bool,
    has_unproven: bool,
) -> Seq<Seq<char>> {
    (if !owner_current { seq!["owner_generation_or_binding_mismatch"@] } else { Seq::empty() })
        + (if !capability_current { seq!["principal_capability_not_current"@] } else { Seq::empty() })
        + (if has_foreign { seq!["foreign_principal_active_work"@] } else { Seq::empty() })
        + (if has_unproven { seq!["unproven_session_authority"@] } else { Seq::empty() })
}

/// The actions of a bound lease, sorted.
pub open spec fn bound_actions(plan: bool, rejoin: bool, release: bool, renew: bool) -> Seq<Seq<char>> {
    seq!["doctor"@, "explain"@, "inspect"@, "list"@]
        + (if plan { seq!["reconcile_plan"@] } else { Seq::empty() })
        + (if rejoin { seq!["rejoin"@] } else { Seq::empty() })
        + (if release { seq!["release"@] } else { Seq::empty() })
        + (if renew { seq!["renew"@] } else { Seq::empty() })
        + seq!["watch"@]
}

/// Facts that decide a bound lease.
pub struct BoundFacts {
    pub owner_current: bool,
    pub capability_current: bool,
    pub has_foreign: bool,
    pub has_unproven: bool,
    pub has_same: bool,
    pub stale_same: bool,
    pub rejoin_repairable: bool,
    pub has_active_tabs: bool,
}

/// The facts that decide the lease of a binding at `now`.
#[verifier::opaque]
pub open spec fn bound_facts(state: ServiceState, binding: RuntimeOwnerPrincipalBinding, now: Seq<char>) -> BoundFacts {
    let sessions = profile_sessions(state.sessions@, binding.profile_id@);
    let active = active_sessions(sessions, now);
    let owner_current = binding_is_current_spec(state.runtime_owner_registry, binding);
    let capability_current = bound_capability_current(state, binding);
    let has_foreign = by_principal(active, PrincipalFilter::Foreign, binding.principal_id@).len() > 0;
    let has_unproven = by_principal(active, PrincipalFilter::Unproven, binding.principal_id@).len() > 0;
    let authority = authority_for_binding_spec(state, binding);
    let any_blocking = !owner_current || !capability_current || has_foreign || has_unproven;
    BoundFacts {
        owner_current,
        capability_current,
        has_foreign,
        has_unproven,
        has_same: by_principal(active, PrincipalFilter::Same, binding.principal_id@).len() > 0,
        stale_same: has_stale_same(sessions, binding.principal_id@, now),
        rejoin_repairable: any_blocking && capability_current && !has_foreign && (authority matches Some(
            a,
        ) && exact_rejoin_target_spec(state, a, now) is Some),
        has_active_tabs: authority matches Some(a) && has_active_subordinate_tabs(state, a, now),
    }
}

/// The lease state and recourse of a binding: foreign work dominates, then a
/// rejoinable defect, then any other defect, then own live work, then own
/// stale work, else an idle owned lease.
pub open spec fn bound_state(f: BoundFacts) -> (Seq<char>, PrincipalContinuityRecourse) {
    let coherent = f.owner_current && f.capability_current && !f.has_foreign && !f.has_unproven;
    if f.has_foreign {
        ("foreign_held"@, PrincipalContinuityRecourse::WaitForForeignPrincipal)
    } else if f.rejoin_repairable {
        ("identity_reconciliation_required"@, PrincipalContinuityRecourse::RejoinOwnedBrowser)
    } else if !coherent {
        ("identity_reconciliation_required"@, PrincipalContinuityRecourse::ReconcilePrincipalIdentity)
    } else if f.has_same {
        ("active"@, PrincipalContinuityRecourse::RejoinOwnedBrowser)
    } else if f.stale_same {
        ("stale"@, PrincipalContinuityRecourse::ReplaceStaleSamePrincipalSession)
    } else {
        ("owned_idle"@, PrincipalContinuityRecourse::RejoinOwnedBrowser)
    }
}

/// The projection of a principal's binding to its profile owner.
pub open spec fn bound_lease_base(state: ServiceState, binding: RuntimeOwnerPrincipalBinding, now: Seq<char>) -> LeaseView {
    let f = bound_facts(state, binding, now);
    let coherent = f.owner_current && f.capability_current && !f.has_foreign && !f.has_unproven;
    let owner = lookup(state.runtime_owner_registry.owners@, binding.profile_identity_digest@);
    let sessions = profile_sessions(state.sessions@, binding.profile_id@);
    let active = active_sessions(sessions, now);
    let same = by_principal(active, PrincipalFilter::Same, binding.principal_id@);
    let session_ids = session_ids_of(sessions);
    LeaseView {
        schema_version: PROFILE_LEASE_SCHEMA_VERSION@,
        id: profile_lease_id_spec(binding.principal_id@, binding.profile_identity_digest@),
        lease_revision: Seq::empty(),
        principal_id: Some(binding.principal_id@),
        principal_provenance: Some(binding.provenance),
        profile_id: binding.profile_id@,
        profile_identity_digest: Some(binding.profile_identity_digest@),
        browser_id: match owner { Some(o) => Some(o.browser_id@), None => None },
        session_ids: session_ids,
        tab_ids: tab_ids_for(state.tabs@, session_ids),
        mode: lease_mode_spec(active),
        state: bound_state(f).0,
        owner_generation: match owner { Some(o) => Some(o.owner_generation), None => None },
        process_instance_digest: match owner { Some(o) => Some(o.process_instance_digest@), None => None },
        route_ids: match owner { Some(o) => route_ids_for(state.remote_view_routes@, o.browser_id@), None => Seq::empty() },
        last_heartbeat_at: latest_observation(sessions),
        expires_at: earliest_expiry(same),
        cleanup_obligation: match owner { Some(o) => cleanup_obligation_spec(state, o.browser_id@), None => None },
        blocking_identity_axes: bound_blocking_axes(f.owner_current, f.capability_current, f.has_foreign, f.has_unproven),
        authorized_actions: bound_actions(
            f.stale_same || !coherent,
            coherent || f.rejoin_repairable,
            coherent && f.has_same && !f.has_active_tabs,
            coherent && f.has_same,
        ),
        recourse: bound_state(f).1,
        observation_only: !coherent,
    }
}

/// Whether a binding's capability and principal are still active registrations.
fn capability_is_current_for_binding(state: &ServiceState, binding: &RuntimeOwnerPrincipalBinding) -> (r: bool)
    ensures
        r == bound_capability_current(*state, *binding),
{
    match get_keyed(&state.service_principals.profile_capabilities, binding.capability_id.as_str()) {
        Some(c) => {
            c.state == RegistrationState::Active && str_equal(c.principal_id.as_str(), binding.principal_id.as_str())
                && str_equal(c.profile_id.as_str(), binding.profile_id.as_str()) && match get_keyed(
                &state.service_principals.principals,
                binding.principal_id.as_str(),
            ) {
                Some(p) => p.state == RegistrationState::Active,
                None => false,
            }
        },
        None => false,
    }
}

/// Whether some session of the principal no longer holds work at `now`.
fn any_stale_same(sessions: &Vec<&BrowserSession>, principal_id: &str, now: &str) -> (r: bool)
    ensures
        r == has_stale_same(deref(sessions@), principal_id@, now@),
{
    let ghost sv = deref(sessions@);
    let mut i: usize = 0;
    while i < sessions.len()
        invariant
            i <= sessions@.len(),
            sv == deref(sessions@),
            forall|j: int| 0 <= j < i ==> !stale_same_session(#[trigger] sv[j], principal_id@, now@),
        decreases sessions@.len() - i,
    {
        let s = sessions[i];
        if opt_eq(&s.principal_id, principal_id) && inactive_or_expired(s.lease, &s.expires_at, now) {
            assert(stale_same_session(sv[i as int], principal_id@, now@));
            return true;
        }
        i = i + 1;
    }
    false
}

/// The facts that decide the lease of a binding, computed.
#[verifier::rlimit(60)]
#[verifier::spinoff_prover]
fn bound_facts_of(
    state: &ServiceState,
    binding: &RuntimeOwnerPrincipalBinding,
    now: &str,
    sessions: &Vec<&BrowserSession>,
    active: &Vec<&BrowserSession>,
    same: &Vec<&BrowserSession>,
) -> (r: BoundFacts)
    requires
        deref(sessions@) == profile_sessions(state.sessions@, binding.profile_id@),
        deref(active@) == active_sessions(deref(sessions@), now@),
        deref(same@) == by_principal(deref(active@), PrincipalFilter::Same, binding.principal_id@),
    ensures
        r == bound_facts(*state, *binding, now@),
{
    reveal(bound_facts);
    let ghost f = bound_facts(*state, *binding, now@);
    let owner_current = principal_binding_is_current(&state.runtime_owner_registry, binding);
    let capability_current = capability_is_current_for_binding(state, binding);
    let foreign = filter_by_principal(active, PrincipalFilter::Foreign, binding.principal_id.as_str());
    let unproven = filter_by_principal(active, PrincipalFilter::Unproven, binding.principal_id.as_str());
    let stale_same = any_stale_same(sessions, binding.principal_id.as_str(), now);
    let has_foreign = foreign.len() > 0;
    let has_unproven = unproven.len() > 0;
    let has_same = same.len() > 0;
    let coherent = owner_current && capability_current && !has_foreign && !has_unproven;
    let authority = authority_for_binding(state, binding);
    let rejoin_repairable = !coherent && capability_current && !has_foreign && match &authority {
        Some(a) => exact_rejoin_target(state, a, now).is_some(),
        None => false,
    };
    let has_active_tabs = match &authority {
        Some(a) => active_subordinate_tabs(state, a, now),
        None => false,
    };
    proof {
        let spec_authority = authority_for_binding_spec(*state, *binding);
        match authority {
            Some(a) => {
                let sa = spec_authority.unwrap();
                assert(a.principal_id == sa.principal_id);
                assert(a.profile_id == sa.profile_id);
                assert(a.capability_id == sa.capability_id);
                assert(a.capability_revision == sa.capability_revision);
                assert(a.provenance == sa.provenance);
                assert(a == sa);
            },
            None => {},
        }
    }
    BoundFacts {
        owner_current,
        capability_current,
        has_foreign,
        has_unproven,
        has_same,
        stale_same,
        rejoin_repairable,
        has_active_tabs,
    }
}

/// The projection of a principal's binding to its profile owner.
#[verifier::rlimit(60)]
#[verifier::spinoff_prover]
pub fn bound_profile_lease(
    state: &ServiceState,
    binding: &RuntimeOwnerPrincipalBinding,
    now: &str,
) -> (r: ProfileLeaseRecord)
    ensures
        r@ == with_revision(bound_lease_base(*state, *binding, now@)),
{
    let owner = get_keyed(&state.runtime_owner_registry.owners, binding.profile_identity_digest.as_str());
    let sessions = sessions_for_profile(state, binding.profile_id.as_str());
    let active = active_of(&sessions, now);
    let same = filter_by_principal(&active, PrincipalFilter::Same, binding.principal_id.as_str());
    let facts = bound_facts_of(state, binding, now, &sessions, &active, &same);
    let owner_current = facts.owner_current;
    let capability_current = facts.capability_current;
    let has_foreign = facts.has_foreign;
    let has_unproven = facts.has_unproven;
    let has_same = facts.has_same;
    let stale_same = facts.stale_same;
    let rejoin_repairable = facts.rejoin_repairable;
    let has_active_tabs = facts.has_active_tabs;
    let mut blocking: Vec<String> = Vec::new();
    if !owner_current {
        blocking.push(owned("owner_generation_or_binding_mismatch"));
    }
    if !capability_current {
        blocking.push(owned("principal_capability_not_current"));
    }
    if has_foreign {
        blocking.push(owned("foreign_principal_active_work"));
    }
    if has_unproven {
        blocking.push(owned("unproven_session_authority"));
    }
    assert(strs(blocking@) =~= bound_blocking_axes(owner_current, capability_current, has_foreign, has_unproven));
    let coherent = owner_current && capability_current && !has_foreign && !has_unproven;
    let (lease_state, recourse) = if has_foreign {
        ("foreign_held", PrincipalContinuityRecourse::WaitForForeignPrincipal)
    } else if rejoin_repairable {
        ("identity_reconciliation_required", PrincipalContinuityRecourse::RejoinOwnedBrowser)
    } else if !coherent {
        ("identity_reconciliation_required", PrincipalContinuityRecourse::ReconcilePrincipalIdentity)
    } else if has_same {
        ("active", PrincipalContinuityRecourse::RejoinOwnedBrowser)
    } else if stale_same {
        ("stale", PrincipalContinuityRecourse::ReplaceStaleSamePrincipalSession)
    } else {
        ("owned_idle", PrincipalContinuityRecourse::RejoinOwnedBrowser)
    };
    let mut actions: Vec<String> = Vec::new();
    actions.push(owned("doctor"));
    actions.push(owned("explain"));
    actions.push(owned("inspect"));
    actions.push(owned("list"));
    if stale_same || !coherent {
        actions.push(owned("reconcile_plan"));
    }
    if coherent || rejoin_repairable {
        actions.push(owned("rejoin"));
    }
    if coherent && has_same && !has_active_tabs {
        actions.push(owned("release"));
    }
    if coherent && has_same {
        actions.push(owned("renew"));
    }
    actions.push(owned("watch"));
    assert(strs(actions@) =~= bound_actions(
        stale_same || !coherent,
        coherent || rejoin_repairable,
        coherent && has_same && !has_active_tabs,
        coherent && has_same,
    ));
    let session_ids = ids_of_sessions(&sessions);
    let tab_ids = tabs_for_sessions(state, &session_ids);
    let (browser_id, owner_generation, process_instance_digest, route_ids, cleanup_obligation) = match owner {
        Some(o) => (
            Some(o.browser_id.clone()),
            Some(o.owner_generation),
            Some(o.process_instance_digest.clone()),
            routes_for_browser(state, o.browser_id.as_str()),
            cleanup_obligation_for_browser(state, o.browser_id.as_str()),
        ),
        None => (None, None, None, Vec::new(), None),
    };
    let mut record = ProfileLeaseRecord {
        schema_version: owned(PROFILE_LEASE_SCHEMA_VERSION),
        id: profile_lease_id(binding.principal_id.as_str(), binding.profile_identity_digest.as_str()),
        lease_revision: String::new(),
        principal_id: Some(binding.principal_id.clone()),
        principal_provenance: Some(binding.provenance),
        profile_id: binding.profile_id.clone(),
        profile_identity_digest: Some(binding.profile_identity_digest.clone()),
        browser_id,
        session_ids,
        tab_ids,
        mode: lease_mode(&active),
        state: owned(lease_state),
        owner_generation,
        process_instance_digest,
        route_ids,
        last_heartbeat_at: latest_value(&sessions),
        expires_at: earliest_value(&same),
        cleanup_obligation,
        blocking_identity_axes: blocking,
        authorized_actions: actions,
        recourse,
        observation_only: !coherent,
    };
    let ghost base = bound_lease_base(*state, *binding, now@);
    assert(record@.route_ids =~= base.route_ids);
    assert(record@ =~= base);
    record.lease_revision = lease_revision(&record);
    record
}


/// The capability ids held by the bindings.
pub open spec fn bound_capability_ids(bindings: Seq<RuntimeOwnerPrincipalBinding>) -> Seq<Seq<char>> {
    bindings.map_values(|b: RuntimeOwnerPrincipalBinding| b.capability_id@)
}

/// Active capabilities that no binding holds, in capability-id order.
pub open spec fn unbound_capabilities(state: ServiceState) -> Seq<ServiceProfileCapability> {
    state.service_principals.profile_capabilities@.filter(
        |c: ServiceProfileCapability| c.state == RegistrationState::Active && !bound_capability_ids(
            state.runtime_owner_registry.principal_bindings@,
        ).contains(c.capability_id@),
    )
}

/// Profiles that a binding or an unbound active capability accounts for.
pub open spec fn accounted_profiles(state: ServiceState) -> Set<Seq<char>> {
    state.runtime_owner_registry.principal_bindings@.map_values(
        |b: RuntimeOwnerPrincipalBinding| b.profile_id@,
    ).to_set() + unbound_capabilities(state).map_values(|c: ServiceProfileCapability| c.profile_id@).to_set()
}

/// The profile of a session when no binding or capability accounts for it.
pub open spec fn session_legacy_profile(s: BrowserSession, accounted: Set<Seq<char>>) -> Option<Seq<char>> {
    match s.profile_id {
        Some(p) => if accounted.contains(p@) { None } else { Some(p@) },
        None => None,
    }
}

/// The profile of an owner's browser when the owner carries no binding.
pub open spec fn owner_legacy_profile(state: ServiceState, o: ProfileOwner) -> Option<Seq<char>> {
    if lookup(state.runtime_owner_registry.principal_bindings@, o.profile_identity_digest@) is Some {
        None
    } else {
        match lookup(state.browsers@, o.browser_id@) {
            Some(b) => ov(b.profile_id),
            None => None,
        }
    }
}

/// The legacy profiles found among the first `n` sessions.
pub open spec fn legacy_from_sessions(sessions: Seq<BrowserSession>, accounted: Set<Seq<char>>) -> Set<Seq<char>> {
    Set::new(|p: Seq<char>| exists|i: int| 0 <= i < sessions.len() && session_legacy_profile(#[trigger] sessions[i], accounted) == Some(p))
}

/// The legacy profiles found among the owners.
pub open spec fn legacy_from_owners(state: ServiceState, owners: Seq<ProfileOwner>) -> Set<Seq<char>> {
    Set::new(|p: Seq<char>| exists|i: int| 0 <= i < owners.len() && owner_legacy_profile(state, #[trigger] owners[i]) == Some(p))
}

/// Every profile whose work no binding or unbound capability accounts for,
/// plus the profiles of owners without a binding.
pub open spec fn legacy_profiles(state: ServiceState) -> Set<Seq<char>> {
    legacy_from_sessions(state.sessions@, accounted_profiles(state)) + legacy_from_owners(
        state,
        state.runtime_owner_registry.owners@,
    )
}

/// The projections, before ordering: bound leases, then unbound capability
/// leases, then legacy leases in profile order.
pub open spec fn unordered_leases(state: ServiceState, now: Seq<char>, legacy: Seq<Seq<char>>) -> Seq<LeaseView> {
    state.runtime_owner_registry.principal_bindings@.map_values(
        |b: RuntimeOwnerPrincipalBinding| with_revision(bound_lease_base(state, b, now)),
    ) + unbound_capabilities(state).map_values(
        |c: ServiceProfileCapability| with_revision(unbound_lease_base(state, c, now)),
    ) + legacy.map_values(|p: Seq<char>| with_revision(legacy_lease_base(state, p, now)))
}

/// The legacy profiles in key order.
pub open spec fn legacy_order(state: ServiceState) -> Seq<Seq<char>> {
    choose|l: Seq<Seq<char>>| strictly_sorted(l) && l.to_set() == legacy_profiles(state)
}

/// The lease collection of a state at an instant, as a multiset of views.
pub open spec fn lease_collection(state: ServiceState, now: Seq<char>) -> Multiset<LeaseView> {
    unordered_leases(state, now, legacy_order(state)).to_multiset()
}

/// Whether the lease views are ordered by id.
pub open spec fn sorted_by_id(v: Seq<LeaseView>) -> bool {
    forall|i: int, j: int| 0 <= i < j < v.len() ==> seq_le(#[trigger] v[i].id, #[trigger] v[j].id)
}

/// The views of lease records.
pub open spec fn lease_views(v: Seq<ProfileLeaseRecord>) -> Seq<LeaseView> {
    v.map_values(|r: ProfileLeaseRecord| r@)
}

/// `seq_le` is transitive.
proof fn lemma_seq_le_transitive(a: Seq<char>, b: Seq<char>, c: Seq<char>)
    requires
        seq_le(a, b),
        seq_le(b, c),
    ensures
        seq_le(a, c),
{
    if a != b && b != c {
        lemma_seq_lt_transitive(a, b, c);
    }
}

/// Inserts a record after every record whose id is not greater.
fn insert_by_id(v: &mut Vec<ProfileLeaseRecord>, x: ProfileLeaseRecord)
    requires
        sorted_by_id(lease_views(old(v)@)),
    ensures
        sorted_by_id(lease_views(final(v)@)),
        lease_views(final(v)@).to_multiset() == lease_views(old(v)@).to_multiset().insert(x@),
{
    let ghost old_views = lease_views(v@);
    let mut i: usize = 0;
    while i < v.len() && !str_lt(x.id.as_str(), v[i].id.as_str())
        invariant
            i <= v@.len(),
            lease_views(v@) == old_views,
            sorted_by_id(old_views),
            forall|j: int| 0 <= j < i ==> seq_le(#[trigger] old_views[j].id, x@.id),
        decreases v@.len() - i,
    {
        proof {
            lemma_seq_lt_total(x@.id, old_views[i as int].id);
        }
        i = i + 1;
    }
    v.insert(i, x);
    let ghost nv = lease_views(v@);
    assert(nv =~= old_views.insert(i as int, x@));
    proof {
        broadcast use vstd::seq_lib::to_multiset_insert;
        assert(nv.to_multiset() =~= old_views.to_multiset().insert(x@));
        assert forall|a: int, b: int| 0 <= a < b < nv.len() implies seq_le(#[trigger] nv[a].id, #[trigger] nv[b].id) by {
            if b < i {
                assert(nv[a] == old_views[a] && nv[b] == old_views[b]);
            } else if b == i {
                assert(nv[a] == old_views[a]);
            } else if a == i {
                assert(nv[b] == old_views[b - 1]);
                assert(seq_lt(x@.id, old_views[i as int].id));
                if b - 1 > i {
                    lemma_seq_le_transitive(x@.id, old_views[i as int].id, old_views[b - 1].id);
                }
            } else if a < i {
                assert(nv[a] == old_views[a] && nv[b] == old_views[b - 1]);
                assert(seq_lt(x@.id, old_views[i as int].id));
                lemma_seq_le_transitive(old_views[a].id, x@.id, old_views[i as int].id);
                if b - 1 > i {
                    lemma_seq_le_transitive(old_views[a].id, old_views[i as int].id, old_views[b - 1].id);
                }
            } else {
                assert(nv[a] == old_views[a - 1] && nv[b] == old_views[b - 1]);
            }
        }
    }
}

/// Projects the canonical first-class profile lease collection from retained
/// authority and work, ordered by lease id. Released and expired legacy
/// sessions remain visible as nonblocking history; only current legacy
/// session or owner evidence requires identity reconciliation.
#[verifier::rlimit(60)]
#[verifier::spinoff_prover]
pub fn profile_leases_for_state(state: &ServiceState, now: &str) -> (r: Vec<ProfileLeaseRecord>)
    ensures
        sorted_by_id(lease_views(r@)),
        lease_views(r@).to_multiset() == lease_collection(*state, now@),
{
    let bindings = &state.runtime_owner_registry.principal_bindings;
    let capabilities = &state.service_principals.profile_capabilities;
    let ghost mut unordered: Seq<LeaseView> = Seq::empty();
    let mut records: Vec<ProfileLeaseRecord> = Vec::new();
    let mut bound_profiles: Vec<String> = Vec::new();
    let mut held_capability_ids: Vec<String> = Vec::new();
    let mut i: usize = 0;
    proof {
        assert(lease_views(records@) =~= unordered);
        assert(strs(bound_profiles@) =~= bindings@.take(0).map_values(|b: RuntimeOwnerPrincipalBinding| b.profile_id@));
        assert(strs(held_capability_ids@) =~= bound_capability_ids(bindings@.take(0)));
        assert(unordered =~= bindings@.take(0).map_values(
            |b: RuntimeOwnerPrincipalBinding| with_revision(bound_lease_base(*state, b, now@)),
        ));
    }
    while i < bindings.len()
        invariant
            i <= bindings@.len(),
            bindings == &state.runtime_owner_registry.principal_bindings,
            sorted_by_id(lease_views(records@)),
            lease_views(records@).to_multiset() == unordered.to_multiset(),
            unordered == bindings@.take(i as int).map_values(
                |b: RuntimeOwnerPrincipalBinding| with_revision(bound_lease_base(*state, b, now@)),
            ),
            strs(bound_profiles@) == bindings@.take(i as int).map_values(|b: RuntimeOwnerPrincipalBinding| b.profile_id@),
            strs(held_capability_ids@) == bound_capability_ids(bindings@.take(i as int)),
        decreases bindings@.len() - i,
    {
        let binding = &bindings[i];
        let record = bound_profile_lease(state, binding, now);
        proof {
            broadcast use vstd::seq_lib::to_multiset_build;
            unordered = unordered.push(record@);
        }
        insert_by_id(&mut records, record);
        let pid = binding.profile_id.clone();
        let cid = binding.capability_id.clone();
        proof {
            lemma_strs_push(bound_profiles@, pid);
            lemma_strs_push(held_capability_ids@, cid);
        }
        bound_profiles.push(pid);
        held_capability_ids.push(cid);
        assert(unordered =~= bindings@.take(i + 1).map_values(
            |b: RuntimeOwnerPrincipalBinding| with_revision(bound_lease_base(*state, b, now@)),
        ));
        assert(strs(bound_profiles@) =~= bindings@.take(i + 1).map_values(|b: RuntimeOwnerPrincipalBinding| b.profile_id@));
        assert(strs(held_capability_ids@) =~= bound_capability_ids(bindings@.take(i + 1)));
        i = i + 1;
    }
    proof {
        lemma_take_full(bindings@);
    }
    let ghost bound_part = unordered;
    let ghost binding_profiles = strs(bound_profiles@);
    let ghost pred = |c: ServiceProfileCapability| c.state == RegistrationState::Active && !bound_capability_ids(
        state.runtime_owner_registry.principal_bindings@,
    ).contains(c.capability_id@);
    let ghost mut unbound_views: Seq<LeaseView> = Seq::empty();
    let ghost mut unbound_profile_views: Seq<Seq<char>> = Seq::empty();
    let mut k: usize = 0;
    while k < capabilities.len()
        invariant
            k <= capabilities@.len(),
            bindings == &state.runtime_owner_registry.principal_bindings,
            capabilities == &state.service_principals.profile_capabilities,
            pred == (|c: ServiceProfileCapability| c.state == RegistrationState::Active && !bound_capability_ids(
                state.runtime_owner_registry.principal_bindings@,
            ).contains(c.capability_id@)),
            strs(held_capability_ids@) == bound_capability_ids(bindings@),
            binding_profiles == bindings@.map_values(|b: RuntimeOwnerPrincipalBinding| b.profile_id@),
            sorted_by_id(lease_views(records@)),
            lease_views(records@).to_multiset() == (bound_part + unbound_views).to_multiset(),
            bound_part == bindings@.map_values(
                |b: RuntimeOwnerPrincipalBinding| with_revision(bound_lease_base(*state, b, now@)),
            ),
            unbound_views == capabilities@.take(k as int).filter(pred).map_values(
                |c: ServiceProfileCapability| with_revision(unbound_lease_base(*state, c, now@)),
            ),
            unbound_profile_views == capabilities@.take(k as int).filter(pred).map_values(
                |c: ServiceProfileCapability| c.profile_id@,
            ),
            strs(bound_profiles@) == binding_profiles + unbound_profile_views,
        decreases capabilities@.len() - k,
    {
        proof {
            lemma_filter_take_step(capabilities@, pred, k as int);
        }
        let capability = &capabilities[k];
        if capability.state == RegistrationState::Active && !contains_text(
            &held_capability_ids,
            capability.capability_id.as_str(),
        ) {
            let record = unbound_capability_profile_lease(state, capability, now);
            proof {
                lemma_map_push(
                    capabilities@.take(k as int).filter(pred),
                    *capability,
                    |c: ServiceProfileCapability| with_revision(unbound_lease_base(*state, c, now@)),
                );
                lemma_map_push(
                    capabilities@.take(k as int).filter(pred),
                    *capability,
                    |c: ServiceProfileCapability| c.profile_id@,
                );
                assert((bound_part + unbound_views.push(record@)) =~= (bound_part + unbound_views).push(record@));
                broadcast use vstd::seq_lib::to_multiset_build;
                unbound_views = unbound_views.push(record@);
                unbound_profile_views = unbound_profile_views.push(capability.profile_id@);
            }
            insert_by_id(&mut records, record);
            let pid = capability.profile_id.clone();
            proof {
                lemma_strs_push(bound_profiles@, pid);
            }
            bound_profiles.push(pid);
        }
        k = k + 1;
    }
    proof {
        lemma_take_full(capabilities@);
        assert(capabilities@.filter(pred) == unbound_capabilities(*state));
        assert(strs(bound_profiles@).to_set() == accounted_profiles(*state)) by {
            assert(strs(bound_profiles@) == binding_profiles + unbound_profile_views);
            vstd::seq_lib::seq_to_set_distributes_over_add(binding_profiles, unbound_profile_views);
        }
    }
    let ghost accounted = accounted_profiles(*state);
    let mut legacy: Vec<String> = Vec::new();
    let mut s: usize = 0;
    while s < state.sessions.len()
        invariant
            s <= state.sessions@.len(),
            strs(bound_profiles@).to_set() == accounted,
            accounted == accounted_profiles(*state),
            strictly_sorted(strs(legacy@)),
            strs(legacy@).to_set() == legacy_from_sessions(state.sessions@.take(s as int), accounted),
        decreases state.sessions@.len() - s,
    {
        let session = &state.sessions[s];
        let ghost before = strs(legacy@).to_set();
        match &session.profile_id {
            Some(p) => {
                if !contains_text(&bound_profiles, p.as_str()) {
                    insert_sorted_unique(&mut legacy, p.clone());
                }
            },
            None => {},
        }
        proof {
            let prev = state.sessions@.take(s as int);
            let next = state.sessions@.take(s + 1);
            assert forall|q: Seq<char>| #[trigger] legacy_from_sessions(next, accounted).contains(q) <==> (legacy_from_sessions(prev, accounted).contains(q) || session_legacy_profile(*session, accounted) == Some(q)) by {
                if legacy_from_sessions(next, accounted).contains(q) {
                    let j = choose|j: int| 0 <= j < next.len() && session_legacy_profile(#[trigger] next[j], accounted) == Some(q);
                    if j < s {
                        assert(prev[j] == next[j]);
                    }
                }
                if legacy_from_sessions(prev, accounted).contains(q) {
                    let j = choose|j: int| 0 <= j < prev.len() && session_legacy_profile(#[trigger] prev[j], accounted) == Some(q);
                    assert(next[j] == prev[j]);
                }
                if session_legacy_profile(*session, accounted) == Some(q) {
                    assert(next[s as int] == *session);
                }
            }
            assert(strs(legacy@).to_set() =~= legacy_from_sessions(next, accounted));
        }
        s = s + 1;
    }
    proof {
        lemma_take_full(state.sessions@);
    }
    let owners = &state.runtime_owner_registry.owners;
    let mut o: usize = 0;
    while o < owners.len()
        invariant
            o <= owners@.len(),
            owners == &state.runtime_owner_registry.owners,
            bindings == &state.runtime_owner_registry.principal_bindings,
            accounted == accounted_profiles(*state),
            strictly_sorted(strs(legacy@)),
            strs(legacy@).to_set() == legacy_from_sessions(state.sessions@, accounted) + legacy_from_owners(*state, owners@.take(o as int)),
        decreases owners@.len() - o,
    {
        let owner = &owners[o];
        let ghost before = strs(legacy@).to_set();
        if get_keyed(bindings, owner.profile_identity_digest.as_str()).is_none() {
            match get_keyed(&state.browsers, owner.browser_id.as_str()) {
                Some(b) => match &b.profile_id {
                    Some(p) => insert_sorted_unique(&mut legacy, p.clone()),
                    None => {},
                },
                None => {},
            }
        }
        proof {
            let prev = owners@.take(o as int);
            let next = owners@.take(o + 1);
            assert forall|q: Seq<char>| #[trigger] legacy_from_owners(*state, next).contains(q) <==> (legacy_from_owners(*state, prev).contains(q) || owner_legacy_profile(*state, *owner) == Some(q)) by {
                if legacy_from_owners(*state, next).contains(q) {
                    let j = choose|j: int| 0 <= j < next.len() && owner_legacy_profile(*state, #[trigger] next[j]) == Some(q);
                    if j < o {
                        assert(prev[j] == next[j]);
                    }
                }
                if legacy_from_owners(*state, prev).contains(q) {
                    let j = choose|j: int| 0 <= j < prev.len() && owner_legacy_profile(*state, #[trigger] prev[j]) == Some(q);
                    assert(next[j] == prev[j]);
                }
                if owner_legacy_profile(*state, *owner) == Some(q) {
                    assert(next[o as int] == *owner);
                }
            }
            match owner_legacy_profile(*state, *owner) {
                Some(q) => assert(strs(legacy@).to_set() == before.insert(q)),
                None => assert(strs(legacy@).to_set() == before),
            }
            assert(strs(legacy@).to_set() =~= legacy_from_sessions(state.sessions@, accounted) + legacy_from_owners(*state, next));
        }
        o = o + 1;
    }
    proof {
        lemma_take_full(owners@);
    }
    let ghost head = bound_part + unbound_views;
    let ghost mut legacy_views: Seq<LeaseView> = Seq::empty();
    let mut l: usize = 0;
    while l < legacy.len()
        invariant
            l <= legacy@.len(),
            sorted_by_id(lease_views(records@)),
            lease_views(records@).to_multiset() == (head + legacy_views).to_multiset(),
            legacy_views == strs(legacy@).take(l as int).map_values(
                |p: Seq<char>| with_revision(legacy_lease_base(*state, p, now@)),
            ),
        decreases legacy@.len() - l,
    {
        let record = legacy_profile_lease(state, legacy[l].as_str(), now);
        proof {
            assert(strs(legacy@).take(l + 1).drop_last() =~= strs(legacy@).take(l as int));
            assert((head + legacy_views.push(record@)) =~= (head + legacy_views).push(record@));
            broadcast use vstd::seq_lib::to_multiset_build;
            legacy_views = legacy_views.push(record@);
            assert(legacy_views =~= strs(legacy@).take(l + 1).map_values(
                |p: Seq<char>| with_revision(legacy_lease_base(*state, p, now@)),
            ));
        }
        insert_by_id(&mut records, record);
        l = l + 1;
    }
    proof {
        lemma_take_full(strs(legacy@));
        assert(head + legacy_views =~= unordered_leases(*state, now@, strs(legacy@)));
        let chosen = legacy_order(*state);
        assert(strictly_sorted(strs(legacy@)) && strs(legacy@).to_set() == legacy_profiles(*state));
        lemma_strictly_sorted_unique(chosen, strs(legacy@));
    }
    records
}


/// The texts an action list can hold are told apart: `renew` and `release`
/// are none of the other actions.
proof fn lemma_mutating_actions_distinct(plan: bool, rejoin: bool)
    ensures
        !bound_actions(plan, rejoin, false, false).contains("renew"@),
        !bound_actions(plan, rejoin, false, false).contains("release"@),
{
    reveal_strlit("doctor");
    reveal_strlit("explain");
    reveal_strlit("inspect");
    reveal_strlit("list");
    reveal_strlit("reconcile_plan");
    reveal_strlit("rejoin");
    reveal_strlit("release");
    reveal_strlit("renew");
    reveal_strlit("watch");
    let a = bound_actions(plan, rejoin, false, false);
    assert forall|i: int| 0 <= i < a.len() implies a[i] != "renew"@ && a[i] != "release"@ by {
        assert(a[i] == "doctor"@ || a[i] == "explain"@ || a[i] == "inspect"@ || a[i] == "list"@
            || a[i] == "reconcile_plan"@ || a[i] == "rejoin"@ || a[i] == "watch"@);
        assert("watch"@[0] != "renew"@[0]);
        assert("rejoin"@[2] != "release"@[2]);
        assert("explain"@[0] != "release"@[0]);
        assert("inspect"@[0] != "release"@[0]);
    }
}

/// Every action list of a bound lease holds the read actions.
proof fn lemma_bound_actions_read(plan: bool, rejoin: bool, release: bool, renew: bool)
    ensures
        forall|a: Seq<char>| #[trigger] read_actions().contains(a) ==> bound_actions(plan, rejoin, release, renew).contains(a),
{
    let acts = bound_actions(plan, rejoin, release, renew);
    assert(acts[0] == "doctor"@ && acts[1] == "explain"@ && acts[2] == "inspect"@ && acts[3] == "list"@);
    assert(acts[acts.len() - 1] == "watch"@);
    assert forall|a: Seq<char>| #[trigger] read_actions().contains(a) implies acts.contains(a) by {
        let i = choose|i: int| 0 <= i < read_actions().len() && read_actions()[i] == a;
        if i == 0 {
            assert(acts[3] == a);
        } else if i == 1 {
            assert(acts[2] == a);
        } else if i == 2 {
            assert(acts[1] == a);
        } else if i == 3 {
            assert(acts[0] == a);
        } else {
            assert(acts[acts.len() - 1] == a);
        }
    }
}

/// The blocking axes are empty exactly when nothing blocks.
proof fn lemma_bound_axes_empty(owner_current: bool, capability_current: bool, has_foreign: bool, has_unproven: bool)
    ensures
        (bound_blocking_axes(owner_current, capability_current, has_foreign, has_unproven).len() > 0) == !(owner_current
            && capability_current && !has_foreign && !has_unproven),
{
}

/// A bound lease is foreign-held exactly when foreign work is present.
proof fn lemma_bound_state_foreign(f: BoundFacts)
    ensures
        (bound_state(f).0 == "foreign_held"@) == f.has_foreign,
{
    reveal_strlit("foreign_held");
    reveal_strlit("identity_reconciliation_required");
    reveal_strlit("active");
    reveal_strlit("stale");
    reveal_strlit("owned_idle");
    assert("identity_reconciliation_required"@[0] != "foreign_held"@[0]);
    assert("active"@[0] != "foreign_held"@[0]);
    assert("stale"@[0] != "foreign_held"@[0]);
    assert("owned_idle"@[0] != "foreign_held"@[0]);
}

/// The place of a blocking identity axis in the fixed order of axes; -1 for
/// any other text.
pub open spec fn axis_rank(a: Seq<char>) -> int {
    if a == "owner_generation_or_binding_mismatch"@ {
        0
    } else if a == "principal_capability_not_current"@ {
        1
    } else if a == "foreign_principal_active_work"@ {
        2
    } else if a == "unproven_session_authority"@ {
        3
    } else {
        -1
    }
}

/// The blocking axes are known axes, each once, in their fixed order, and
/// foreign work blocks exactly when it is present.
proof fn lemma_bound_axes_ordered(owner_current: bool, capability_current: bool, has_foreign: bool, has_unproven: bool)
    ensures
        ({
            let axes = bound_blocking_axes(owner_current, capability_current, has_foreign, has_unproven);
            &&& forall|i: int| 0 <= i < axes.len() ==> axis_rank(#[trigger] axes[i]) >= 0
            &&& forall|i: int, j: int| 0 <= i < j < axes.len() ==> axis_rank(#[trigger] axes[i]) < axis_rank(#[trigger] axes[j])
            &&& axes.contains("foreign_principal_active_work"@) == has_foreign
        }),
{
    reveal_strlit("owner_generation_or_binding_mismatch");
    reveal_strlit("principal_capability_not_current");
    reveal_strlit("foreign_principal_active_work");
    reveal_strlit("unproven_session_authority");
    let axes = bound_blocking_axes(owner_current, capability_current, has_foreign, has_unproven);
    let o: Seq<Seq<char>> = if !owner_current { seq!["owner_generation_or_binding_mismatch"@] } else { Seq::empty() };
    let c: Seq<Seq<char>> = if !capability_current { seq!["principal_capability_not_current"@] } else { Seq::empty() };
    let f: Seq<Seq<char>> = if has_foreign { seq!["foreign_principal_active_work"@] } else { Seq::empty() };
    let u: Seq<Seq<char>> = if has_unproven { seq!["unproven_session_authority"@] } else { Seq::empty() };
    assert(axes == o + c + f + u);
    assert(axis_rank("owner_generation_or_binding_mismatch"@) == 0);
    assert("principal_capability_not_current"@[0] != "owner_generation_or_binding_mismatch"@[0]);
    assert(axis_rank("principal_capability_not_current"@) == 1);
    assert("foreign_principal_active_work"@[0] != "owner_generation_or_binding_mismatch"@[0]);
    assert("foreign_principal_active_work"@[0] != "principal_capability_not_current"@[0]);
    assert(axis_rank("foreign_principal_active_work"@) == 2);
    assert("unproven_session_authority"@[0] != "owner_generation_or_binding_mismatch"@[0]);
    assert("unproven_session_authority"@[0] != "principal_capability_not_current"@[0]);
    assert("unproven_session_authority"@[0] != "foreign_principal_active_work"@[0]);
    assert(axis_rank("unproven_session_authority"@) == 3);
    assert forall|i: int| 0 <= i < axes.len() implies axis_rank(#[trigger] axes[i]) >= 0
        && axis_rank(axes[i]) >= (if i < o.len() { 0int } else if i < o.len() + c.len() { 1 } else if i < o.len() + c.len() + f.len() { 2 } else { 3 })
        && axis_rank(axes[i]) <= (if i < o.len() { 0int } else if i < o.len() + c.len() { 1 } else if i < o.len() + c.len() + f.len() { 2 } else { 3 }) by {
        if i < o.len() {
            assert(axes[i] == o[i]);
        } else if i < o.len() + c.len() {
            assert(axes[i] == c[i - o.len()]);
        } else if i < o.len() + c.len() + f.len() {
            assert(axes[i] == f[i - o.len() - c.len()]);
        } else {
            assert(axes[i] == u[i - o.len() - c.len() - f.len()]);
        }
    }
    if has_foreign {
        assert(axes[(o.len() + c.len()) as int] == "foreign_principal_active_work"@);
    }
    if axes.contains("foreign_principal_active_work"@) {
        let k = choose|k: int| 0 <= k < axes.len() && axes[k] == "foreign_principal_active_work"@;
        assert(axis_rank(axes[k]) == 2);
    }
}

/// Law: every bound lease offers the read actions; it offers renewal or
/// release only when it is not observation-only; it is observation-only
/// exactly when some identity axis blocks it; its blocking axes are known
/// axes, each once, in their fixed order; and it is foreign-held exactly
/// when foreign work is among them.
pub proof fn law_bound_lease_actions(state: ServiceState, binding: RuntimeOwnerPrincipalBinding, now: Seq<char>)
    ensures
        ({
            let v = with_revision(bound_lease_base(state, binding, now));
            &&& forall|a: Seq<char>| #[trigger] read_actions().contains(a) ==> v.authorized_actions.contains(a)
            &&& (v.authorized_actions.contains("renew"@) || v.authorized_actions.contains("release"@)) ==> !v.observation_only
            &&& v.observation_only == (v.blocking_identity_axes.len() > 0)
            &&& forall|i: int| 0 <= i < v.blocking_identity_axes.len() ==> axis_rank(#[trigger] v.blocking_identity_axes[i]) >= 0
            &&& forall|i: int, j: int|
                0 <= i < j < v.blocking_identity_axes.len() ==> axis_rank(#[trigger] v.blocking_identity_axes[i])
                    < axis_rank(#[trigger] v.blocking_identity_axes[j])
            &&& (v.state == "foreign_held"@) == v.blocking_identity_axes.contains("foreign_principal_active_work"@)
        }),
{
    lemma_bound_axes_ordered(bound_facts(state, binding, now).owner_current, bound_facts(state, binding, now).capability_current, bound_facts(state, binding, now).has_foreign, bound_facts(state, binding, now).has_unproven);
    lemma_bound_state_foreign(bound_facts(state, binding, now));
    let f = bound_facts(state, binding, now);
    let coherent = f.owner_current && f.capability_current && !f.has_foreign && !f.has_unproven;
    let plan = f.stale_same || !coherent;
    let rejoin = coherent || f.rejoin_repairable;
    let release = coherent && f.has_same && !f.has_active_tabs;
    let renew = coherent && f.has_same;
    assert(with_revision(bound_lease_base(state, binding, now)).authorized_actions == bound_actions(plan, rejoin, release, renew));
    assert(with_revision(bound_lease_base(state, binding, now)).observation_only == !coherent);
    assert(with_revision(bound_lease_base(state, binding, now)).blocking_identity_axes == bound_blocking_axes(
        f.owner_current,
        f.capability_current,
        f.has_foreign,
        f.has_unproven,
    ));
    lemma_bound_actions_read(plan, rejoin, release, renew);
    lemma_bound_axes_empty(f.owner_current, f.capability_current, f.has_foreign, f.has_unproven);
    if !coherent {
        lemma_mutating_actions_distinct(plan, rejoin);
    }
}


/// Law: the lease projection holds one record per source: one per principal
/// binding, one per unbound active capability, and one per legacy profile.
pub proof fn law_one_lease_per_source(state: ServiceState, now: Seq<char>)
    ensures
        lease_collection(state, now).len() == state.runtime_owner_registry.principal_bindings@.len()
            + unbound_capabilities(state).len() + legacy_order(state).len(),
{
    broadcast use vstd::seq_lib::group_to_multiset_ensures;
    let u = unordered_leases(state, now, legacy_order(state));
    assert(u.len() == state.runtime_owner_registry.principal_bindings@.len() + unbound_capabilities(state).len()
        + legacy_order(state).len());
    assert(u.to_multiset().len() == u.len());
}

} // verus!
