//! Lease lookup and the lease doctor report.

use vstd::prelude::*;
use vstd::multiset::Multiset;
use crate::lease::{
    lease_collection, lease_error, lease_views, profile_leases_for_state, sorted_by_id, failure_label,
    LeaseView, ProfileLeaseError, ProfileLeaseFailureCode, ProfileLeaseRecord,
    PROFILE_LEASE_SCHEMA_VERSION,
};
use crate::lease::{lemma_map_push, lemma_strs_push};
use crate::lease::{active_subordinate_tabs, contains_text, has_active_subordinate_tabs, inactive_session, inactive_session_spec};
use crate::model::{
    authenticated_authority_is_current, authority_is_current_spec, clone_opt, opt_eq, opt_is, ov,
    AuthenticatedServicePrincipal, BrowserSession, LeaseState, ServiceState,
};
use crate::seqs::{lemma_filter_take_step, lemma_take_full};
use crate::text::{concat3, owned, seq_lt, str_equal, str_lt, strs};

verus! {

/// One blocking identity axis of one lease, as the doctor reports it.
pub struct ProfileLeaseFinding {
    pub code: String,
    pub severity: String,
    pub lease_id: String,
    pub profile_id: String,
    pub message: String,
    pub safe_actions: Vec<String>,
}

/// The content of a finding.
pub struct FindingView {
    pub code: Seq<char>,
    pub severity: Seq<char>,
    pub lease_id: Seq<char>,
    pub profile_id: Seq<char>,
    pub message: Seq<char>,
    pub safe_actions: Seq<Seq<char>>,
}

impl View for ProfileLeaseFinding {
    type V = FindingView;

    open spec fn view(&self) -> FindingView {
        FindingView {
            code: self.code@,
            severity: self.severity@,
            lease_id: self.lease_id@,
            profile_id: self.profile_id@,
            message: self.message@,
            safe_actions: strs(self.safe_actions@),
        }
    }
}

/// The contents of findings.
pub open spec fn finding_views(v: Seq<ProfileLeaseFinding>) -> Seq<FindingView> {
    v.map_values(|f: ProfileLeaseFinding| f@)
}

/// The lease doctor report.
pub struct ProfileLeaseDoctorReport {
    pub schema_version: String,
    pub observed_at: String,
    pub healthy: bool,
    pub lease_count: usize,
    pub findings: Vec<ProfileLeaseFinding>,
}

/// Whether an action only reads or plans.
pub open spec fn is_safe_action(a: Seq<char>) -> bool {
    a == "inspect"@ || a == "explain"@ || a == "doctor"@ || a == "reconcile_plan"@
}

/// The finding for one blocking axis of a lease: an error for an
/// effect-capable lease, a warning for an observation-only one, with the
/// lease's read and plan actions.
pub open spec fn finding_spec(v: LeaseView, axis: Seq<char>) -> FindingView {
    FindingView {
        code: axis,
        severity: if v.observation_only { "warning"@ } else { "error"@ },
        lease_id: v.id,
        profile_id: v.profile_id,
        message: "Profile lease "@ + v.id + " is blocked by "@ + axis,
        safe_actions: v.authorized_actions.filter(|a: Seq<char>| is_safe_action(a)),
    }
}

/// The findings of one lease, one per blocking axis in order.
pub open spec fn lease_findings(v: LeaseView) -> Seq<FindingView> {
    v.blocking_identity_axes.map_values(|axis: Seq<char>| finding_spec(v, axis))
}

/// The findings of leases in order.
pub open spec fn doctor_findings(ls: Seq<LeaseView>) -> Seq<FindingView>
    decreases ls.len(),
{
    if ls.len() == 0 {
        Seq::empty()
    } else {
        doctor_findings(ls.drop_last()) + lease_findings(ls.last())
    }
}

/// Finds a lease by id among the leases projected from the state.
pub fn inspect_profile_lease(state: &ServiceState, lease_id: &str, now: &str) -> (r: Result<ProfileLeaseRecord, ProfileLeaseError>)
    ensures
        match r {
            Ok(lease) => lease@.id == lease_id@ && lease_collection(*state, now@).count(lease@) > 0,
            Err(e) => {
                &&& e.code == ProfileLeaseFailureCode::LeaseNotFound
                &&& e.message@ == failure_label(ProfileLeaseFailureCode::LeaseNotFound) + ": "@ + lease_id@
                &&& forall|v: LeaseView| #[trigger] lease_collection(*state, now@).count(v) > 0 ==> v.id != lease_id@
            },
        },
{
    let mut leases = profile_leases_for_state(state, now);
    let ghost views = lease_views(leases@);
    let mut i: usize = 0;
    while i < leases.len()
        invariant
            i <= leases@.len(),
            views == lease_views(leases@),
            views.to_multiset() == lease_collection(*state, now@),
            forall|j: int| 0 <= j < i ==> views[j].id != lease_id@,
        decreases leases@.len() - i,
    {
        if str_equal(leases[i].id.as_str(), lease_id) {
            let lease = leases.remove(i);
            proof {
                broadcast use vstd::seq_lib::to_multiset_contains;
                assert(views[i as int] == lease@);
                assert(views.contains(lease@));
            }
            return Ok(lease);
        }
        i = i + 1;
    }
    proof {
        broadcast use vstd::seq_lib::to_multiset_contains;
        assert forall|v: LeaseView| #[trigger] lease_collection(*state, now@).count(v) > 0 implies v.id != lease_id@ by {
            assert(views.contains(v));
            let j = choose|j: int| 0 <= j < views.len() && views[j] == v;
        }
    }
    Err(lease_error(ProfileLeaseFailureCode::LeaseNotFound, lease_id))
}

/// The read and plan actions among a lease's actions, in order.
fn safe_actions_of(actions: &Vec<String>) -> (r: Vec<String>)
    ensures
        strs(r@) == strs(actions@).filter(|a: Seq<char>| is_safe_action(a)),
{
    let ghost pred = |a: Seq<char>| is_safe_action(a);
    let mut out: Vec<String> = Vec::new();
    let mut i: usize = 0;
    while i < actions.len()
        invariant
            i <= actions@.len(),
            pred == (|a: Seq<char>| is_safe_action(a)),
            strs(out@) == strs(actions@).take(i as int).filter(pred),
        decreases actions@.len() - i,
    {
        proof {
            lemma_filter_take_step(strs(actions@), pred, i as int);
        }
        let a = actions[i].as_str();
        if str_equal(a, "inspect") || str_equal(a, "explain") || str_equal(a, "doctor") || str_equal(a, "reconcile_plan") {
            let s = owned(a);
            proof {
                lemma_strs_push(out@, s);
            }
            out.push(s);
        }
        i = i + 1;
    }
    proof {
        lemma_take_full(strs(actions@));
    }
    out
}

/// The finding for one blocking axis of a lease.
pub fn finding(lease: &ProfileLeaseRecord, axis: &str) -> (r: ProfileLeaseFinding)
    ensures
        r@ == finding_spec(lease@, axis@),
{
    let message = concat3("Profile lease ", lease.id.as_str(), " is blocked by ").concat(axis);
    ProfileLeaseFinding {
        code: owned(axis),
        severity: owned(if lease.observation_only { "warning" } else { "error" }),
        lease_id: lease.id.clone(),
        profile_id: lease.profile_id.clone(),
        message,
        safe_actions: safe_actions_of(&lease.authorized_actions),
    }
}

/// The findings of one lease, one per blocking axis in order.
fn findings_of(lease: &ProfileLeaseRecord) -> (r: Vec<ProfileLeaseFinding>)
    ensures
        finding_views(r@) == lease_findings(lease@),
{
    let axes = &lease.blocking_identity_axes;
    let mut out: Vec<ProfileLeaseFinding> = Vec::new();
    let mut j: usize = 0;
    while j < axes.len()
        invariant
            j <= axes@.len(),
            axes == &lease.blocking_identity_axes,
            finding_views(out@) == strs(axes@).take(j as int).map_values(|axis: Seq<char>| finding_spec(lease@, axis)),
        decreases axes@.len() - j,
    {
        let f = finding(lease, axes[j].as_str());
        proof {
            lemma_map_push(out@, f, |f: ProfileLeaseFinding| f@);
            assert(strs(axes@).take(j + 1) =~= strs(axes@).take(j as int).push(axes@[j as int]@));
            lemma_map_push(strs(axes@).take(j as int), axes@[j as int]@, |axis: Seq<char>| finding_spec(lease@, axis));
        }
        out.push(f);
        j = j + 1;
    }
    assert(strs(axes@).take(axes@.len() as int) =~= strs(axes@));
    out
}

/// There are no findings exactly when no lease has a blocking axis.
proof fn lemma_doctor_findings_empty(ls: Seq<LeaseView>)
    ensures
        doctor_findings(ls).len() == 0 <==> forall|i: int| 0 <= i < ls.len() ==> (#[trigger] ls[i]).blocking_identity_axes.len() == 0,
    decreases ls.len(),
{
    if ls.len() > 0 {
        lemma_doctor_findings_empty(ls.drop_last());
        if doctor_findings(ls).len() == 0 {
            assert forall|i: int| 0 <= i < ls.len() implies (#[trigger] ls[i]).blocking_identity_axes.len() == 0 by {
                if i < ls.len() - 1 {
                    assert(ls[i] == ls.drop_last()[i]);
                }
            }
        } else {
            if lease_findings(ls.last()).len() == 0 {
                let i = choose|i: int| 0 <= i < ls.len() - 1 && (#[trigger] ls.drop_last()[i]).blocking_identity_axes.len() != 0;
                assert(ls[i] == ls.drop_last()[i]);
            }
        }
    }
}

/// Reports every blocking identity axis of every lease, in lease id order.
/// The report is healthy exactly when no lease is blocked.
#[verifier::spinoff_prover]
pub fn doctor_profile_leases(state: &ServiceState, now: &str) -> (r: ProfileLeaseDoctorReport)
    ensures
        r.schema_version@ == PROFILE_LEASE_SCHEMA_VERSION@,
        r.observed_at@ == now@,
        exists|ls: Seq<LeaseView>| {
            &&& sorted_by_id(ls)
            &&& ls.to_multiset() == lease_collection(*state, now@)
            &&& finding_views(r.findings@) == doctor_findings(ls)
            &&& r.lease_count == ls.len()
        },
        r.healthy == (r.findings@.len() == 0),
        r.healthy <==> forall|v: LeaseView| #[trigger] lease_collection(*state, now@).count(v) > 0
            ==> v.blocking_identity_axes.len() == 0,
{
    let leases = profile_leases_for_state(state, now);
    let ghost views = lease_views(leases@);
    let mut findings: Vec<ProfileLeaseFinding> = Vec::new();
    let mut i: usize = 0;
    while i < leases.len()
        invariant
            i <= leases@.len(),
            views == lease_views(leases@),
            finding_views(findings@) == doctor_findings(views.take(i as int)),
        decreases leases@.len() - i,
    {
        let mut more = findings_of(&leases[i]);
        let ghost before = findings@;
        let ghost added = more@;
        findings.append(&mut more);
        proof {
            assert(views.take(i + 1).drop_last() =~= views.take(i as int));
            assert(views.take(i + 1).last() == leases@[i as int]@);
            assert(finding_views(before + added) =~= finding_views(before) + finding_views(added));
        }
        i = i + 1;
    }
    proof {
        assert(views.take(views.len() as int) =~= views);
        lemma_doctor_findings_empty(views);
        broadcast use vstd::seq_lib::to_multiset_contains;
        if findings@.len() == 0 {
            assert forall|v: LeaseView| #[trigger] lease_collection(*state, now@).count(v) > 0 implies v.blocking_identity_axes.len() == 0 by {
                assert(views.contains(v));
                let j = choose|j: int| 0 <= j < views.len() && views[j] == v;
            }
        } else {
            let j = choose|j: int| 0 <= j < views.len() && (#[trigger] views[j]).blocking_identity_axes.len() != 0;
            assert(views.contains(views[j]));
            assert(lease_collection(*state, now@).count(views[j]) > 0);
        }
    }
    let healthy = findings.len() == 0;
    ProfileLeaseDoctorReport {
        schema_version: owned(PROFILE_LEASE_SCHEMA_VERSION),
        observed_at: owned(now),
        healthy,
        lease_count: leases.len(),
        findings,
    }
}

/// Refuses an action a lease does not authorize.
pub fn require_action(lease: &ProfileLeaseRecord, action: &str) -> (r: Result<(), ProfileLeaseError>)
    ensures
        match r {
            Ok(()) => lease@.authorized_actions.contains(action@),
            Err(e) => !lease@.authorized_actions.contains(action@) && e.code == ProfileLeaseFailureCode::ActionNotAuthorized
                && e.message@ == failure_label(ProfileLeaseFailureCode::ActionNotAuthorized) + ": "@ + lease.id@,
        },
{
    if contains_text(&lease.authorized_actions, action) {
        Ok(())
    } else {
        Err(lease_error(ProfileLeaseFailureCode::ActionNotAuthorized, lease.id.as_str()))
    }
}

/// Whether a lease belongs to an authority: same principal, profile and provenance.
pub open spec fn lease_of_authority(v: LeaseView, a: AuthenticatedServicePrincipal) -> bool {
    v.principal_id == Some(a.principal_id@) && v.profile_id == a.profile_id@ && v.principal_provenance == Some(
        a.provenance,
    )
}

/// The error for `code` on lease `lease_id`, by view.
pub open spec fn is_lease_error(e: ProfileLeaseError, code: ProfileLeaseFailureCode, lease_id: Seq<char>) -> bool {
    e.code == code && e.message@ == failure_label(code) + ": "@ + lease_id
}

/// Finds a lease at an exact revision that belongs to a current authority.
/// A stale authority or a lease of another principal is an authority
/// mismatch; any other revision is a revision mismatch.
pub fn authorized_lease(
    state: &ServiceState,
    lease_id: &str,
    expected_revision: &str,
    authority: &AuthenticatedServicePrincipal,
    now: &str,
) -> (r: Result<ProfileLeaseRecord, ProfileLeaseError>)
    ensures
        match r {
            Ok(lease) => {
                &&& authority_is_current_spec(state.service_principals, *authority)
                &&& lease@.id == lease_id@
                &&& lease_collection(*state, now@).count(lease@) > 0
                &&& lease@.lease_revision == expected_revision@
                &&& lease_of_authority(lease@, *authority)
            },
            Err(e) => {
                ||| !authority_is_current_spec(state.service_principals, *authority) && is_lease_error(
                    e,
                    ProfileLeaseFailureCode::AuthorityMismatch,
                    lease_id@,
                )
                ||| authority_is_current_spec(state.service_principals, *authority) && (forall|v: LeaseView| #[trigger] lease_collection(*state, now@).count(v) > 0 ==> v.id != lease_id@)
                    && is_lease_error(e, ProfileLeaseFailureCode::LeaseNotFound, lease_id@)
                ||| authority_is_current_spec(state.service_principals, *authority) && exists|v: LeaseView| #[trigger] lease_collection(*state, now@).count(v) > 0 && v.id == lease_id@ && (
                    (v.lease_revision != expected_revision@ && is_lease_error(
                        e,
                        ProfileLeaseFailureCode::RevisionMismatch,
                        lease_id@,
                    )) || (v.lease_revision == expected_revision@ && !lease_of_authority(v, *authority)
                        && is_lease_error(e, ProfileLeaseFailureCode::AuthorityMismatch, lease_id@)))
            },
        },
{
    if !authenticated_authority_is_current(&state.service_principals, authority) {
        return Err(lease_error(ProfileLeaseFailureCode::AuthorityMismatch, lease_id));
    }
    let lease = match inspect_profile_lease(state, lease_id, now) {
        Ok(l) => l,
        Err(e) => return Err(e),
    };
    if !str_equal(lease.lease_revision.as_str(), expected_revision) {
        return Err(lease_error(ProfileLeaseFailureCode::RevisionMismatch, lease_id));
    }
    let provenance_matches = match lease.principal_provenance {
        Some(p) => p == authority.provenance,
        None => false,
    };
    if !opt_eq(&lease.principal_id, authority.principal_id.as_str()) || !str_equal(
        lease.profile_id.as_str(),
        authority.profile_id.as_str(),
    ) || !provenance_matches {
        return Err(lease_error(ProfileLeaseFailureCode::AuthorityMismatch, lease_id));
    }
    Ok(lease)
}

/// Whether a session is live work of an authority on its profile.
pub open spec fn held_by(s: BrowserSession, a: AuthenticatedServicePrincipal) -> bool {
    opt_is(s.profile_id, a.profile_id@) && opt_is(s.principal_id, a.principal_id@) && !inactive_session_spec(s.lease)
}

/// The next work-lease revision: one more, saturating, and at least one.
pub open spec fn next_work_revision(r: u64) -> u64 {
    if r == u64::MAX { u64::MAX } else { (r + 1) as u64 }
}

/// Whether `after` is `before` with its lease observed at `now`, expiring at
/// `expires_at`, stamped with the boot epoch, and its work revision advanced.
pub open spec fn observed_session(
    before: BrowserSession,
    after: BrowserSession,
    lease: LeaseState,
    now: Seq<char>,
    expires_at: Seq<char>,
    boot_epoch: Option<Seq<char>>,
) -> bool {
    &&& after.id@ == before.id@
    &&& ov(after.profile_id) == ov(before.profile_id)
    &&& after.lease == lease
    &&& ov(after.expires_at) == Some(expires_at)
    &&& ov(after.principal_id) == ov(before.principal_id)
    &&& after.principal_provenance == before.principal_provenance
    &&& strs(after.browser_ids@) == strs(before.browser_ids@)
    &&& strs(after.tab_ids@) == strs(before.tab_ids@)
    &&& ov(after.last_lease_observed_at) == Some(now)
    &&& ov(after.boot_epoch) == boot_epoch
    &&& after.work_lease_revision == next_work_revision(before.work_lease_revision)
}

/// Whether only the sessions held by an authority changed, each as `observed_session` says.
pub open spec fn sessions_observed(
    before: ServiceState,
    after: ServiceState,
    a: AuthenticatedServicePrincipal,
    lease: Option<LeaseState>,
    now: Seq<char>,
    expires_at: Seq<char>,
    boot_epoch: Option<Seq<char>>,
) -> bool {
    &&& after.sessions@.len() == before.sessions@.len()
    &&& forall|i: int| 0 <= i < before.sessions@.len() ==> if held_by(#[trigger] before.sessions@[i], a) {
        observed_session(
            before.sessions@[i],
            after.sessions@[i],
            match lease {
                Some(l) => l,
                None => before.sessions@[i].lease,
            },
            now,
            expires_at,
            boot_epoch,
        )
    } else {
        after.sessions@[i] == before.sessions@[i]
    }
    &&& after.profiles == before.profiles
    &&& after.browsers == before.browsers
    &&& after.tabs == before.tabs
    &&& after.remote_view_routes == before.remote_view_routes
    &&& after.runtime_owner_registry == before.runtime_owner_registry
    &&& after.service_principals == before.service_principals
}

/// Marks every session an authority holds on its profile as observed at
/// `now`, expiring at `expires_at`, and, when `lease` is given, in that lease state.
fn observe_held_sessions(
    state: &mut ServiceState,
    authority: &AuthenticatedServicePrincipal,
    lease: Option<LeaseState>,
    now: &str,
    expires_at: &str,
    boot_epoch: &Option<String>,
)
    ensures
        sessions_observed(*old(state), *final(state), *authority, lease, now@, expires_at@, ov(*boot_epoch)),
{
    let ghost before = *state;
    let mut i: usize = 0;
    while i < state.sessions.len()
        invariant
            i <= state.sessions@.len(),
            state.sessions@.len() == before.sessions@.len(),
            forall|j: int| 0 <= j < i ==> if held_by(#[trigger] before.sessions@[j], *authority) {
                observed_session(
                    before.sessions@[j],
                    state.sessions@[j],
                    match lease {
                        Some(l) => l,
                        None => before.sessions@[j].lease,
                    },
                    now@,
                    expires_at@,
                    ov(*boot_epoch),
                )
            } else {
                state.sessions@[j] == before.sessions@[j]
            },
            forall|j: int| i <= j < state.sessions@.len() ==> state.sessions@[j] == before.sessions@[j],
            state.profiles == before.profiles,
            state.browsers == before.browsers,
            state.tabs == before.tabs,
            state.remote_view_routes == before.remote_view_routes,
            state.runtime_owner_registry == before.runtime_owner_registry,
            state.service_principals == before.service_principals,
        decreases state.sessions@.len() - i,
    {
        let held = {
            let s = &state.sessions[i];
            opt_eq(&s.profile_id, authority.profile_id.as_str()) && opt_eq(
                &s.principal_id,
                authority.principal_id.as_str(),
            ) && !inactive_session(s.lease)
        };
        if held {
            let old_session = state.sessions.remove(i);
            let revision = if old_session.work_lease_revision == u64::MAX {
                u64::MAX
            } else {
                old_session.work_lease_revision + 1
            };
            let session = BrowserSession {
                id: old_session.id,
                profile_id: old_session.profile_id,
                lease: match lease {
                    Some(l) => l,
                    None => old_session.lease,
                },
                expires_at: Some(owned(expires_at)),
                principal_id: old_session.principal_id,
                principal_provenance: old_session.principal_provenance,
                browser_ids: old_session.browser_ids,
                tab_ids: old_session.tab_ids,
                last_lease_observed_at: Some(owned(now)),
                boot_epoch: clone_opt(boot_epoch),
                work_lease_revision: revision,
            };
            state.sessions.insert(i, session);
        }
        i = i + 1;
    }
}

/// Whether a current authority's lease `lease_id` exists and every lease of
/// that id is at the expected revision, belongs to the authority and
/// authorizes `action`.
pub open spec fn lease_grants(
    state: ServiceState,
    now: Seq<char>,
    lease_id: Seq<char>,
    expected_revision: Seq<char>,
    a: AuthenticatedServicePrincipal,
    action: Seq<char>,
) -> bool {
    &&& authority_is_current_spec(state.service_principals, a)
    &&& exists|v: LeaseView| #[trigger] lease_collection(state, now).count(v) > 0 && v.id == lease_id
    &&& forall|v: LeaseView| #[trigger] lease_collection(state, now).count(v) > 0 && v.id == lease_id
        ==> v.lease_revision == expected_revision && lease_of_authority(v, a) && v.authorized_actions.contains(action)
}

/// Whether `e` is a justified refusal of `action` on lease `lease_id`: a
/// stale authority, a missing lease, a lease at another revision, a lease of
/// another principal, or a lease that does not authorize the action.
pub open spec fn lease_refusal(
    state: ServiceState,
    now: Seq<char>,
    lease_id: Seq<char>,
    expected_revision: Seq<char>,
    a: AuthenticatedServicePrincipal,
    action: Seq<char>,
    e: ProfileLeaseError,
) -> bool {
    ||| !authority_is_current_spec(state.service_principals, a) && is_lease_error(
        e,
        ProfileLeaseFailureCode::AuthorityMismatch,
        lease_id,
    )
    ||| authority_is_current_spec(state.service_principals, a) && (forall|v: LeaseView| #[trigger] lease_collection(state, now).count(v) > 0 ==> v.id != lease_id)
        && is_lease_error(e, ProfileLeaseFailureCode::LeaseNotFound, lease_id)
    ||| authority_is_current_spec(state.service_principals, a) && exists|v: LeaseView| #[trigger] lease_collection(state, now).count(v) > 0 && v.id == lease_id && (
        (v.lease_revision != expected_revision && is_lease_error(e, ProfileLeaseFailureCode::RevisionMismatch, lease_id))
        || (v.lease_revision == expected_revision && !lease_of_authority(v, a) && is_lease_error(
            e,
            ProfileLeaseFailureCode::AuthorityMismatch,
            lease_id,
        )) || (v.lease_revision == expected_revision && lease_of_authority(v, a) && !v.authorized_actions.contains(
            action,
        ) && is_lease_error(e, ProfileLeaseFailureCode::ActionNotAuthorized, lease_id)))
}

/// Renews the sessions of a lease at its exact revision until `expires_at`,
/// which must follow `now`; returns the renewed lease.
pub fn renew_profile_lease(
    state: &mut ServiceState,
    lease_id: &str,
    expected_revision: &str,
    authority: &AuthenticatedServicePrincipal,
    now: &str,
    expires_at: &str,
    boot_epoch: &Option<String>,
) -> (r: Result<ProfileLeaseRecord, ProfileLeaseError>)
    ensures
        match r {
            Ok(lease) => {
                &&& authority_is_current_spec(old(state).service_principals, *authority)
                &&& exists|v: LeaseView| #[trigger] lease_collection(*old(state), now@).count(v) > 0 && v.id == lease_id@
                    && v.lease_revision == expected_revision@ && lease_of_authority(v, *authority)
                    && v.authorized_actions.contains("renew"@)
                &&& seq_lt(now@, expires_at@)
                &&& sessions_observed(*old(state), *final(state), *authority, None, now@, expires_at@, ov(*boot_epoch))
                &&& lease@.id == lease_id@ && lease_collection(*final(state), now@).count(lease@) > 0
            },
            Err(e) => {
                ||| *final(state) == *old(state) && (lease_refusal(
                    *old(state),
                    now@,
                    lease_id@,
                    expected_revision@,
                    *authority,
                    "renew"@,
                    e,
                ) || (!seq_lt(now@, expires_at@) && is_lease_error(
                    e,
                    ProfileLeaseFailureCode::ActionNotAuthorized,
                    lease_id@,
                )))
                ||| sessions_observed(*old(state), *final(state), *authority, None, now@, expires_at@, ov(*boot_epoch))
                    && is_lease_error(e, ProfileLeaseFailureCode::LeaseNotFound, lease_id@) && forall|v: LeaseView| #[trigger] lease_collection(*final(state), now@).count(v) > 0 ==> v.id != lease_id@
            },
        },
        lease_grants(*old(state), now@, lease_id@, expected_revision@, *authority, "renew"@) && seq_lt(now@, expires_at@)
            ==> sessions_observed(*old(state), *final(state), *authority, None, now@, expires_at@, ov(*boot_epoch)),
{
    let lease = match authorized_lease(state, lease_id, expected_revision, authority, now) {
        Ok(l) => l,
        Err(e) => return Err(e),
    };
    match require_action(&lease, "renew") {
        Ok(()) => {},
        Err(e) => return Err(e),
    }
    let ghost pre = *state;
    let ghost v = lease@;
    assert(lease_collection(pre, now@).count(v) > 0 && v.id == lease_id@ && v.lease_revision == expected_revision@
        && lease_of_authority(v, *authority) && v.authorized_actions.contains("renew"@));
    if !str_lt(now, expires_at) {
        return Err(lease_error(ProfileLeaseFailureCode::ActionNotAuthorized, lease_id));
    }
    observe_held_sessions(state, authority, None, now, expires_at, boot_epoch);
    inspect_profile_lease(state, lease_id, now)
}

/// Releases the sessions of a lease at its exact revision; refused while
/// the authority has live subordinate tab work.
pub fn release_profile_lease(
    state: &mut ServiceState,
    lease_id: &str,
    expected_revision: &str,
    authority: &AuthenticatedServicePrincipal,
    now: &str,
    boot_epoch: &Option<String>,
) -> (r: Result<ProfileLeaseRecord, ProfileLeaseError>)
    ensures
        match r {
            Ok(lease) => {
                &&& authority_is_current_spec(old(state).service_principals, *authority)
                &&& exists|v: LeaseView| #[trigger] lease_collection(*old(state), now@).count(v) > 0 && v.id == lease_id@
                    && v.lease_revision == expected_revision@ && lease_of_authority(v, *authority)
                    && v.authorized_actions.contains("release"@)
                &&& !has_active_subordinate_tabs(*old(state), *authority, now@)
                &&& sessions_observed(*old(state), *final(state), *authority, Some(LeaseState::Released), now@, now@, ov(*boot_epoch))
                &&& lease@.id == lease_id@ && lease_collection(*final(state), now@).count(lease@) > 0
            },
            Err(e) => {
                ||| *final(state) == *old(state) && (lease_refusal(
                    *old(state),
                    now@,
                    lease_id@,
                    expected_revision@,
                    *authority,
                    "release"@,
                    e,
                ) || (has_active_subordinate_tabs(*old(state), *authority, now@) && is_lease_error(
                    e,
                    ProfileLeaseFailureCode::ActiveSubordinateWork,
                    lease_id@,
                )))
                ||| sessions_observed(
                    *old(state),
                    *final(state),
                    *authority,
                    Some(LeaseState::Released),
                    now@,
                    now@,
                    ov(*boot_epoch),
                ) && is_lease_error(e, ProfileLeaseFailureCode::LeaseNotFound, lease_id@) && forall|v: LeaseView| #[trigger] lease_collection(*final(state), now@).count(v) > 0 ==> v.id != lease_id@
            },
        },
        lease_grants(*old(state), now@, lease_id@, expected_revision@, *authority, "release"@)
            && !has_active_subordinate_tabs(*old(state), *authority, now@) ==> sessions_observed(
            *old(state),
            *final(state),
            *authority,
            Some(LeaseState::Released),
            now@,
            now@,
            ov(*boot_epoch),
        ),
{
    let lease = match authorized_lease(state, lease_id, expected_revision, authority, now) {
        Ok(l) => l,
        Err(e) => return Err(e),
    };
    match require_action(&lease, "release") {
        Ok(()) => {},
        Err(e) => return Err(e),
    }
    let ghost pre = *state;
    let ghost v = lease@;
    assert(lease_collection(pre, now@).count(v) > 0 && v.id == lease_id@ && v.lease_revision == expected_revision@
        && lease_of_authority(v, *authority) && v.authorized_actions.contains("release"@));
    if active_subordinate_tabs(state, authority, now) {
        return Err(lease_error(ProfileLeaseFailureCode::ActiveSubordinateWork, lease_id));
    }
    observe_held_sessions(state, authority, Some(LeaseState::Released), now, now, boot_epoch);
    inspect_profile_lease(state, lease_id, now)
}

} // verus!
