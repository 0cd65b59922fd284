//! Rejoin: repairing one unproven live session of a capability-bound owner.
//!
//! Rejoin may repair one unproven live session only when it is the unique
//! exact session of the runtime owner. It may move the same capability
//! binding to a newer current owner generation, or bind the capability to
//! the ready owner when the profile has no binding, and then binds only that
//! session and its live tabs to the authority, with an explicit expiry.

use vstd::prelude::*;
use crate::lease::{
    exact_rejoin_target, exact_rejoin_target_for_owner, exact_rejoin_target_for_owner_spec,
    exact_rejoin_target_spec, lease_collection, lease_error, tab_is_live, target_view, LeaseView,
    ProfileLeaseError, ProfileLeaseFailureCode, ProfileLeaseRecord,
};
use crate::lease_ops::{
    authorized_lease, inspect_profile_lease, is_lease_error, lease_of_authority, lease_refusal, next_work_revision,
    require_action,
};
use crate::model::{
    authority_is_current_spec, binding_is_current_spec, binding_matches, binding_matches_authority,
    first_binding_for, get_keyed, insert_keyed, keys_sorted, lookup, opt_is, ov, principal_binding_is_current,
    AuthenticatedServicePrincipal, BrowserSession, BrowserTab, ProfileOwnerState, RuntimeOwnerPrincipalBinding,
    RuntimeOwnerRegistry, ServiceState,
};
use crate::reconcile::ostr;
use crate::text::{owned, seq_lt, str_equal, str_lt};

verus! {

/// Whether `i` is the index of the first binding of an authority.
pub open spec fn first_binding_index_is(bs: Seq<RuntimeOwnerPrincipalBinding>, a: AuthenticatedServicePrincipal, i: int) -> bool {
    &&& 0 <= i < bs.len()
    &&& binding_matches_authority(bs[i], a)
    &&& forall|j: int| 0 <= j < i ==> !binding_matches_authority(#[trigger] bs[j], a)
}

/// The first binding found by index is the first binding of the authority.
proof fn lemma_first_binding_index(bs: Seq<RuntimeOwnerPrincipalBinding>, a: AuthenticatedServicePrincipal, i: int)
    requires
        first_binding_index_is(bs, a, i),
    ensures
        first_binding_for(bs, a) == Some(bs[i]),
    decreases i,
{
    if i > 0 {
        assert(!binding_matches_authority(bs[0], a));
        assert forall|j: int| 0 <= j < i - 1 implies !binding_matches_authority(#[trigger] bs.drop_first()[j], a) by {
            assert(bs.drop_first()[j] == bs[j + 1]);
        }
        lemma_first_binding_index(bs.drop_first(), a, i - 1);
    }
}

/// No binding of an authority means there is no first one.
proof fn lemma_no_binding_for(bs: Seq<RuntimeOwnerPrincipalBinding>, a: AuthenticatedServicePrincipal)
    requires
        forall|j: int| 0 <= j < bs.len() ==> !binding_matches_authority(#[trigger] bs[j], a),
    ensures
        first_binding_for(bs, a) is None,
    decreases bs.len(),
{
    if bs.len() > 0 {
        assert(!binding_matches_authority(bs[0], a));
        assert forall|j: int| 0 <= j < bs.len() - 1 implies !binding_matches_authority(#[trigger] bs.drop_first()[j], a) by {
            assert(bs.drop_first()[j] == bs[j + 1]);
        }
        lemma_no_binding_for(bs.drop_first(), a);
    }
}

/// The index of the first binding of an authority.
fn first_binding_index(bs: &Vec<RuntimeOwnerPrincipalBinding>, a: &AuthenticatedServicePrincipal) -> (r: Option<usize>)
    ensures
        match r {
            Some(i) => first_binding_index_is(bs@, *a, i as int) && first_binding_for(bs@, *a) == Some(bs@[i as int]),
            None => first_binding_for(bs@, *a) is None,
        },
{
    let mut i: usize = 0;
    while i < bs.len()
        invariant
            i <= bs@.len(),
            forall|j: int| 0 <= j < i ==> !binding_matches_authority(#[trigger] bs@[j], *a),
        decreases bs@.len() - i,
    {
        if binding_matches(&bs[i], a) {
            proof {
                lemma_first_binding_index(bs@, *a, i as int);
            }
            return Some(i);
        }
        i = i + 1;
    }
    proof {
        lemma_no_binding_for(bs@, *a);
    }
    None
}

/// Whether `after` is `before` with the first binding of an authority moved
/// to owner generation `g`, and nothing else changed.
pub open spec fn binding_moved(
    before: RuntimeOwnerRegistry,
    after: RuntimeOwnerRegistry,
    a: AuthenticatedServicePrincipal,
    g: u64,
) -> bool {
    exists|i: int|
        #[trigger] first_binding_index_is(before.principal_bindings@, a, i) && after == (RuntimeOwnerRegistry {
            principal_bindings: after.principal_bindings,
            ..before
        }) && after.principal_bindings@ == before.principal_bindings@.update(
            i,
            RuntimeOwnerPrincipalBinding { owner_generation: g, ..before.principal_bindings@[i] },
        )
}

/// What refreshing an authority's binding to its owner does: a missing
/// binding or owner is refused; a binding that already names its owner's
/// current generation stays; otherwise the binding moves to the owner's
/// generation.
pub open spec fn binding_refresh_outcome(
    before: RuntimeOwnerRegistry,
    after: RuntimeOwnerRegistry,
    a: AuthenticatedServicePrincipal,
    r: Result<(), Seq<char>>,
) -> bool {
    match first_binding_for(before.principal_bindings@, a) {
        None => after == before && r == Err::<(), Seq<char>>("profile_owner_binding_missing"@),
        Some(b) => if binding_is_current_spec(before, b) {
            after == before && r is Ok
        } else {
            match lookup(before.owners@, b.profile_identity_digest@) {
                None => after == before && r == Err::<(), Seq<char>>("profile_owner_missing"@),
                Some(o) => r is Ok && binding_moved(before, after, a, o.owner_generation),
            }
        },
    }
}

/// Refreshes an authority's binding to its owner's current generation.
pub fn refresh_principal_binding_to_current_owner(
    registry: &mut RuntimeOwnerRegistry,
    authority: &AuthenticatedServicePrincipal,
) -> (r: Result<(), String>)
    ensures
        binding_refresh_outcome(
            *old(registry),
            *final(registry),
            *authority,
            match r {
                Ok(()) => Ok::<(), Seq<char>>(()),
                Err(e) => Err::<(), Seq<char>>(e@),
            },
        ),
{
    let ghost before = *registry;
    let i = match first_binding_index(&registry.principal_bindings, authority) {
        Some(i) => i,
        None => return Err(owned("profile_owner_binding_missing")),
    };
    if principal_binding_is_current(registry, &registry.principal_bindings[i]) {
        return Ok(());
    }
    let g = match get_keyed(&registry.owners, registry.principal_bindings[i].profile_identity_digest.as_str()) {
        Some(o) => o.owner_generation,
        None => return Err(owned("profile_owner_missing")),
    };
    let ghost bs = registry.principal_bindings@;
    registry.principal_bindings[i].owner_generation = g;
    assert(registry.principal_bindings@ =~= bs.update(
        i as int,
        RuntimeOwnerPrincipalBinding { owner_generation: g, ..bs[i as int] },
    ));
    assert(first_binding_index_is(bs, *authority, i as int));
    Ok(())
}


/// Whether `after` is `before` with a binding of an authority to the owner of
/// `digest` at generation `g` added under `digest`, and nothing else changed.
pub open spec fn binding_added(
    before: RuntimeOwnerRegistry,
    after: RuntimeOwnerRegistry,
    a: AuthenticatedServicePrincipal,
    digest: Seq<char>,
    g: u64,
) -> bool {
    &&& after == (RuntimeOwnerRegistry { principal_bindings: after.principal_bindings, ..before })
    &&& keys_sorted(after.principal_bindings@)
    &&& lookup(after.principal_bindings@, digest) matches Some(b) && binding_matches_authority(b, a)
        && b.profile_identity_digest@ == digest && b.owner_generation == g
    &&& forall|k: Seq<char>| k != digest ==> #[trigger] lookup(after.principal_bindings@, k) == lookup(
        before.principal_bindings@,
        k,
    )
}

/// Binds an authority to the ready owner of `digest`, which has no binding.
fn bind_principal_to_current_owner(
    registry: &mut RuntimeOwnerRegistry,
    authority: &AuthenticatedServicePrincipal,
    digest: &str,
)
    requires
        keys_sorted(old(registry).principal_bindings@),
        lookup(old(registry).principal_bindings@, digest@) is None,
        lookup(old(registry).owners@, digest@) matches Some(o) && o.state == ProfileOwnerState::Ready,
    ensures
        binding_added(
            *old(registry),
            *final(registry),
            *authority,
            digest@,
            lookup(old(registry).owners@, digest@)->0.owner_generation,
        ),
{
    let g = match get_keyed(&registry.owners, digest) {
        Some(o) => o.owner_generation,
        None => 0,
    };
    let binding = RuntimeOwnerPrincipalBinding {
        principal_id: authority.principal_id.clone(),
        profile_id: authority.profile_id.clone(),
        profile_identity_digest: owned(digest),
        capability_id: authority.capability_id.clone(),
        provenance: authority.provenance,
        owner_generation: g,
    };
    insert_keyed(&mut registry.principal_bindings, binding);
}

/// Whether `x` is session `o` bound to an authority's work until `expires`.
pub open spec fn bound_session(
    x: BrowserSession,
    o: BrowserSession,
    a: AuthenticatedServicePrincipal,
    expires: Seq<char>,
    boot: Option<Seq<char>>,
) -> bool {
    &&& x == BrowserSession {
        principal_id: x.principal_id,
        expires_at: x.expires_at,
        boot_epoch: x.boot_epoch,
        principal_provenance: Some(a.provenance),
        work_lease_revision: next_work_revision(o.work_lease_revision),
        ..o
    }
    &&& ov(x.principal_id) == Some(a.principal_id@)
    &&& ov(x.expires_at) == Some(expires)
    &&& ov(x.boot_epoch) == boot
}

/// Whether `s1` is `s0` with the session `sid` bound to an authority's work.
pub open spec fn sessions_bound(
    s0: Seq<BrowserSession>,
    s1: Seq<BrowserSession>,
    sid: Seq<char>,
    a: AuthenticatedServicePrincipal,
    expires: Seq<char>,
    boot: Option<Seq<char>>,
) -> bool {
    &&& s1.len() == s0.len()
    &&& forall|i: int|
        0 <= i < s0.len() ==> if s0[i].id@ == sid {
            bound_session(#[trigger] s1[i], s0[i], a, expires, boot)
        } else {
            s1[i] == s0[i]
        }
}

/// Binds a session to an authority's work.
fn bind_session_work_lease(
    sessions: &mut Vec<BrowserSession>,
    sid: &str,
    a: &AuthenticatedServicePrincipal,
    expires: &str,
    boot: Option<&str>,
)
    ensures
        sessions_bound(old(sessions)@, final(sessions)@, sid@, *a, expires@, ostr(boot)),
{
    let ghost s0 = sessions@;
    let mut i: usize = 0;
    while i < sessions.len()
        invariant
            i <= sessions@.len(),
            sessions@.len() == s0.len(),
            forall|j: int|
                0 <= j < i ==> if s0[j].id@ == sid@ {
                    bound_session(#[trigger] sessions@[j], s0[j], *a, expires@, ostr(boot))
                } else {
                    sessions@[j] == s0[j]
                },
            forall|j: int| i <= j < sessions@.len() ==> sessions@[j] == s0[j],
        decreases sessions@.len() - i,
    {
        if str_equal(sessions[i].id.as_str(), sid) {
            let r = sessions[i].work_lease_revision;
            let next = if r == u64::MAX {
                r
            } else {
                r + 1
            };
            let ghost before = sessions@;
            sessions[i].principal_id = Some(a.principal_id.clone());
            sessions[i].principal_provenance = Some(a.provenance);
            sessions[i].expires_at = Some(owned(expires));
            sessions[i].boot_epoch = match boot {
                Some(b) => Some(owned(b)),
                None => None,
            };
            sessions[i].work_lease_revision = next;
            assert(forall|j: int| 0 <= j < sessions@.len() && j != i ==> sessions@[j] == before[j]);
        }
        i = i + 1;
    }
}

/// Whether `x` is tab `o` bound to an authority's work until `expires`.
pub open spec fn bound_tab(x: BrowserTab, o: BrowserTab, a: AuthenticatedServicePrincipal, expires: Seq<char>) -> bool {
    &&& x == BrowserTab {
        principal_id: x.principal_id,
        work_lease_expires_at: x.work_lease_expires_at,
        principal_provenance: Some(a.provenance),
        ..o
    }
    &&& ov(x.principal_id) == Some(a.principal_id@)
    &&& ov(x.work_lease_expires_at) == Some(expires)
}

/// Whether `t1` is `t0` with the live tabs of session `sid` bound to an
/// authority's work.
pub open spec fn tabs_bound(
    t0: Seq<BrowserTab>,
    t1: Seq<BrowserTab>,
    sid: Seq<char>,
    a: AuthenticatedServicePrincipal,
    expires: Seq<char>,
) -> bool {
    &&& t1.len() == t0.len()
    &&& forall|i: int|
        0 <= i < t0.len() ==> if opt_is(t0[i].owner_session_id, sid) && tab_is_live(t0[i]) {
            bound_tab(#[trigger] t1[i], t0[i], a, expires)
        } else {
            t1[i] == t0[i]
        }
}

/// Binds the live tabs of a session to an authority's work.
fn bind_tab_work_leases(tabs: &mut Vec<BrowserTab>, sid: &str, a: &AuthenticatedServicePrincipal, expires: &str)
    ensures
        tabs_bound(old(tabs)@, final(tabs)@, sid@, *a, expires@),
{
    let ghost t0 = tabs@;
    let mut i: usize = 0;
    while i < tabs.len()
        invariant
            i <= tabs@.len(),
            tabs@.len() == t0.len(),
            forall|j: int|
                0 <= j < i ==> if opt_is(t0[j].owner_session_id, sid@) && tab_is_live(t0[j]) {
                    bound_tab(#[trigger] tabs@[j], t0[j], *a, expires@)
                } else {
                    tabs@[j] == t0[j]
                },
            forall|j: int| i <= j < tabs@.len() ==> tabs@[j] == t0[j],
        decreases tabs@.len() - i,
    {
        let owned_by = match &tabs[i].owner_session_id {
            Some(o) => str_equal(o.as_str(), sid),
            None => false,
        };
        let live = match tabs[i].lifecycle {
            crate::model::TabLifecycle::Closed => false,
            crate::model::TabLifecycle::Crashed => false,
            _ => true,
        };
        if owned_by && live {
            let ghost before = tabs@;
            tabs[i].principal_id = Some(a.principal_id.clone());
            tabs[i].principal_provenance = Some(a.provenance);
            tabs[i].work_lease_expires_at = Some(owned(expires));
            assert(forall|j: int| 0 <= j < tabs@.len() && j != i ==> tabs@[j] == before[j]);
        }
        i = i + 1;
    }
}


/// Whether `v` is a lease of id `lease_id` at the expected revision that a
/// current authority holds and may rejoin.
pub open spec fn rejoinable_lease(
    s: ServiceState,
    v: LeaseView,
    lease_id: Seq<char>,
    expected_revision: Seq<char>,
    a: AuthenticatedServicePrincipal,
    now: Seq<char>,
) -> bool {
    &&& authority_is_current_spec(s.service_principals, a)
    &&& lease_collection(s, now).count(v) > 0
    &&& v.id == lease_id
    &&& v.lease_revision == expected_revision
    &&& lease_of_authority(v, a)
    &&& v.authorized_actions.contains("rejoin"@)
}

/// The session and tabs a rejoin of lease `v` binds: through the authority's
/// binding when it has one, else under the ready owner of the lease's
/// profile identity when that identity has no binding.
pub open spec fn rejoin_target_spec(
    s: ServiceState,
    a: AuthenticatedServicePrincipal,
    v: LeaseView,
    now: Seq<char>,
) -> Option<(Seq<char>, Seq<Seq<char>>)> {
    match first_binding_for(s.runtime_owner_registry.principal_bindings@, a) {
        Some(_) => exact_rejoin_target_spec(s, a, now),
        None => match v.profile_identity_digest {
            Some(d) => if lookup(s.runtime_owner_registry.principal_bindings@, d) is None {
                exact_rejoin_target_for_owner_spec(s, a, d, now)
            } else {
                None
            },
            None => None,
        },
    }
}

/// Whether a rejoin of lease `v` may go ahead: an expiry after `now` and an
/// exact target.
pub open spec fn rejoin_allowed(
    s: ServiceState,
    a: AuthenticatedServicePrincipal,
    v: LeaseView,
    now: Seq<char>,
    expires: Option<Seq<char>>,
) -> bool {
    &&& expires matches Some(x) && seq_lt(now, x)
    &&& rejoin_target_spec(s, a, v, now) is Some
}

/// What a rejoin of lease `v` does to the state: the authority's binding is
/// refreshed to its owner's current generation, or the authority is bound to
/// the ready owner of the lease's profile identity; then the target session
/// and its live tabs are bound to the authority until `expires`. Nothing
/// else changes.
pub open spec fn rejoin_effects(
    s0: ServiceState,
    s1: ServiceState,
    a: AuthenticatedServicePrincipal,
    v: LeaseView,
    now: Seq<char>,
    expires: Seq<char>,
    boot: Option<Seq<char>>,
) -> bool {
    let sid = (rejoin_target_spec(s0, a, v, now)->0).0;
    let r0 = s0.runtime_owner_registry;
    let r1 = s1.runtime_owner_registry;
    &&& match first_binding_for(r0.principal_bindings@, a) {
        Some(_) => binding_refresh_outcome(r0, r1, a, Ok::<(), Seq<char>>(())),
        None => binding_added(
            r0,
            r1,
            a,
            v.profile_identity_digest->0,
            lookup(r0.owners@, v.profile_identity_digest->0)->0.owner_generation,
        ),
    }
    &&& sessions_bound(s0.sessions@, s1.sessions@, sid, a, expires, boot)
    &&& tabs_bound(s0.tabs@, s1.tabs@, sid, a, expires)
    &&& s1 == (ServiceState {
        sessions: s1.sessions,
        tabs: s1.tabs,
        runtime_owner_registry: s1.runtime_owner_registry,
        ..s0
    })
}

/// Rejoins an observation-only lease: repairs the one unproven live session
/// of the capability-bound owner, binding it and its live tabs to the
/// authority until `expires_at`, which must follow `now`. A lease that is
/// not observation-only is returned as it is. `current_boot_epoch` is the
/// host's boot epoch, stamped on the rejoined session.
pub fn rejoin_profile_lease(
    state: &mut ServiceState,
    lease_id: &str,
    expected_revision: &str,
    authority: &AuthenticatedServicePrincipal,
    now: &str,
    expires_at: Option<&str>,
    current_boot_epoch: Option<&str>,
) -> (r: Result<ProfileLeaseRecord, ProfileLeaseError>)
    requires
        keys_sorted(old(state).runtime_owner_registry.principal_bindings@),
    ensures
        match r {
            Ok(l) => {
                ||| *final(state) == *old(state) && rejoinable_lease(
                    *old(state),
                    l@,
                    lease_id@,
                    expected_revision@,
                    *authority,
                    now@,
                ) && !l@.observation_only
                ||| exists|v: LeaseView|
                    #[trigger] rejoinable_lease(*old(state), v, lease_id@, expected_revision@, *authority, now@)
                        && v.observation_only && rejoin_allowed(*old(state), *authority, v, now@, ostr(expires_at))
                        && rejoin_effects(
                        *old(state),
                        *final(state),
                        *authority,
                        v,
                        now@,
                        ostr(expires_at)->0,
                        ostr(current_boot_epoch),
                    ) && l@.id == lease_id@ && lease_collection(*final(state), now@).count(l@) > 0
            },
            Err(e) => {
                ||| *final(state) == *old(state) && (lease_refusal(
                    *old(state),
                    now@,
                    lease_id@,
                    expected_revision@,
                    *authority,
                    "rejoin"@,
                    e,
                ) || exists|v: LeaseView|
                    #[trigger] rejoinable_lease(*old(state), v, lease_id@, expected_revision@, *authority, now@)
                        && v.observation_only && !rejoin_allowed(*old(state), *authority, v, now@, ostr(expires_at))
                        && is_lease_error(e, ProfileLeaseFailureCode::ActionNotAuthorized, lease_id@))
                ||| exists|v: LeaseView|
                    #[trigger] rejoinable_lease(*old(state), v, lease_id@, expected_revision@, *authority, now@)
                        && v.observation_only && rejoin_allowed(*old(state), *authority, v, now@, ostr(expires_at))
                        && rejoin_effects(
                        *old(state),
                        *final(state),
                        *authority,
                        v,
                        now@,
                        ostr(expires_at)->0,
                        ostr(current_boot_epoch),
                    ) && is_lease_error(e, ProfileLeaseFailureCode::LeaseNotFound, lease_id@) && forall|w: LeaseView|
                        #[trigger] lease_collection(*final(state), now@).count(w) > 0 ==> w.id != lease_id@
            },
        },
{
    let ghost s0 = *state;
    let lease = match authorized_lease(state, lease_id, expected_revision, authority, now) {
        Ok(l) => l,
        Err(e) => return Err(e),
    };
    match require_action(&lease, "rejoin") {
        Ok(()) => {},
        Err(e) => return Err(e),
    }
    let ghost v = lease@;
    assert(rejoinable_lease(s0, v, lease_id@, expected_revision@, *authority, now@));
    if !lease.observation_only {
        return Ok(lease);
    }
    let expires: &str = match expires_at {
        Some(x) => if str_lt(now, x) {
            x
        } else {
            return Err(lease_error(ProfileLeaseFailureCode::ActionNotAuthorized, lease_id));
        },
        None => return Err(lease_error(ProfileLeaseFailureCode::ActionNotAuthorized, lease_id)),
    };
    let has_binding = first_binding_index(&state.runtime_owner_registry.principal_bindings, authority).is_some();
    let target = if has_binding {
        exact_rejoin_target(state, authority, now)
    } else {
        match &lease.profile_identity_digest {
            Some(d) => if get_keyed(&state.runtime_owner_registry.principal_bindings, d.as_str()).is_none() {
                exact_rejoin_target_for_owner(state, authority, d.as_str(), now)
            } else {
                None
            },
            None => None,
        }
    };
    assert(target_view(target) == rejoin_target_spec(s0, *authority, v, now@));
    let sid = match target {
        Some((sid, _)) => sid,
        None => return Err(lease_error(ProfileLeaseFailureCode::ActionNotAuthorized, lease_id)),
    };
    if has_binding {
        match refresh_principal_binding_to_current_owner(&mut state.runtime_owner_registry, authority) {
            Ok(()) => {},
            Err(_) => {
                assert(false);
                return Err(lease_error(ProfileLeaseFailureCode::ActionNotAuthorized, lease_id));
            },
        }
    } else {
        let d = match &lease.profile_identity_digest {
            Some(d) => d,
            None => {
                assert(false);
                return Err(lease_error(ProfileLeaseFailureCode::ActionNotAuthorized, lease_id));
            },
        };
        bind_principal_to_current_owner(&mut state.runtime_owner_registry, authority, d.as_str());
    }
    bind_session_work_lease(&mut state.sessions, sid.as_str(), authority, expires, current_boot_epoch);
    bind_tab_work_leases(&mut state.tabs, sid.as_str(), authority, expires);
    assert(rejoin_effects(s0, *state, *authority, v, now@, expires@, ostr(current_boot_epoch)));
    inspect_profile_lease(state, lease_id, now)
}

} // verus!
