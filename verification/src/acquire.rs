//! The decisions of a protected profile acquisition command.
//!
//! The command alternates outside work (enrollment with the lease
//! authority, claiming the profile, inspecting its authority, adopting or
//! launching a browser) with decisions. Each decision stands here, from the
//! values the outside work returned to the next step.

use vstd::prelude::*;
use crate::json::{json_get, JsonValue};
use crate::recovery::{
    protected_disposition_spec, protected_existing_owner_disposition, protected_owner_step, protected_owner_step_spec,
    protected_profile_daemon_route, protected_route_spec, ProtectedAuthorityObservationState, ProtectedOwnerStep,
};
use crate::text::{owned, str_equal};

verus! {

/// Refuses a command that names its own daemon route: the route of a
/// protected acquisition is derived, never chosen by the client.
pub fn reject_client_route(command: &JsonValue) -> (r: Result<(), String>)
    ensures
        match r {
            Ok(()) => json_get(*command, "sessionName"@) is None,
            Err(e) => json_get(*command, "sessionName"@) is Some && e@ == "profile_acquisition_client_route_forbidden"@,
        },
{
    match command.get("sessionName") {
        Some(_) => Err(owned("profile_acquisition_client_route_forbidden")),
        None => Ok(()),
    }
}

/// The daemon route an enrolled principal acquires a profile on, refused
/// when this daemon serves another route.
pub fn acquisition_daemon_route(principal_id: &str, profile_id: &str, daemon_session_id: &str) -> (r: Result<String, String>)
    ensures
        match r {
            Ok(route) => route@ == protected_route_spec(principal_id@, profile_id@) && route@ == daemon_session_id@,
            Err(e) => protected_route_spec(principal_id@, profile_id@) != daemon_session_id@
                && e@ == "profile_acquisition_daemon_route_mismatch"@,
        },
{
    let route = protected_profile_daemon_route(principal_id, profile_id);
    if !str_equal(route.as_str(), daemon_session_id) {
        return Err(owned("profile_acquisition_daemon_route_mismatch"));
    }
    Ok(route)
}

/// The identity an enrollment established.
pub struct EnrollmentView {
    pub principal_id: String,
    pub capability_id: String,
    pub capability_revision: u64,
}

/// A claim on a profile, as the lease authority granted it.
pub struct ClaimView {
    pub claim_id: String,
    pub principal_id: String,
    pub capability_id: String,
    pub capability_revision: u64,
    pub claim_revision: u64,
    pub fencing_token: u64,
}

/// A reservation the lease authority holds for a profile.
pub struct ReservationView {
    pub claim_id: String,
    pub claim_revision: u64,
    pub fencing_token: u64,
    pub principal_id: String,
    pub capability_id: String,
    pub capability_revision: u64,
}

/// Whether a claim was granted to the enrolled identity.
pub open spec fn claim_matches_enrollment(c: ClaimView, e: EnrollmentView) -> bool {
    c.principal_id@ == e.principal_id@ && c.capability_id@ == e.capability_id@ && c.capability_revision
        == e.capability_revision
}

/// Whether a reservation belongs to another claim than `c`.
pub open spec fn reservation_mismatch(r: ReservationView, c: ClaimView) -> bool {
    r.claim_id@ != c.claim_id@ || r.claim_revision != c.claim_revision || r.fencing_token != c.fencing_token
        || r.principal_id@ != c.principal_id@ || r.capability_id@ != c.capability_id@ || r.capability_revision
        != c.capability_revision
}

/// After the claim: a claim of another identity is refused; a browser this
/// daemon already owns for the same profile, route and capability is
/// replayed (`true`); otherwise the acquisition goes on (`false`).
pub fn claim_step(claim: &ClaimView, enrollment: &EnrollmentView, existing_owner_matches: bool) -> (r: Result<bool, String>)
    ensures
        match r {
            Ok(replay) => claim_matches_enrollment(*claim, *enrollment) && replay == existing_owner_matches,
            Err(e) => !claim_matches_enrollment(*claim, *enrollment)
                && e@ == "profile_acquisition_protected_identity_mismatch"@,
        },
{
    if !str_equal(claim.principal_id.as_str(), enrollment.principal_id.as_str()) || !str_equal(
        claim.capability_id.as_str(),
        enrollment.capability_id.as_str(),
    ) || claim.capability_revision != enrollment.capability_revision {
        return Err(owned("profile_acquisition_protected_identity_mismatch"));
    }
    Ok(existing_owner_matches)
}

/// What an inspection of the profile's authority observed of an existing
/// owner.
pub struct ObservedOwnerView {
    pub owner_id: String,
    pub daemon_session_route: String,
    pub holder: ProtectedAuthorityObservationState,
    pub physical: ProtectedAuthorityObservationState,
    pub effect_channel: ProtectedAuthorityObservationState,
    pub requester_is_holder: bool,
}

/// The next step of an acquisition once its authority was inspected.
pub enum AcquireLaunchStep {
    /// Adopt the observed browser.
    Adopt,
    /// Reconcile the stale owner, then launch.
    ReconcileThenLaunch,
    /// Launch a browser.
    Launch,
}

/// The next step after inspection, or the refusal: a reservation of another
/// claim is refused; with an observed owner, its disposition decides as
/// `protected_owner_step_spec` says; without one, a browser is launched.
pub open spec fn inspection_step_spec(
    claim: ClaimView,
    reservation: Option<ReservationView>,
    owner: Option<ObservedOwnerView>,
) -> Result<AcquireLaunchStep, Seq<char>> {
    if reservation matches Some(r) && reservation_mismatch(r, claim) {
        Err("profile_acquisition_protected_reservation_mismatch"@)
    } else {
        match owner {
            None => Ok(AcquireLaunchStep::Launch),
            Some(o) => match protected_owner_step_spec(
                protected_disposition_spec(o.holder, o.physical, o.effect_channel, o.requester_is_holder),
                o.owner_id@,
                o.daemon_session_route@,
            ) {
                Ok(ProtectedOwnerStep::Adopt) => Ok(AcquireLaunchStep::Adopt),
                Ok(ProtectedOwnerStep::ReconcileThenLaunch) => Ok(AcquireLaunchStep::ReconcileThenLaunch),
                Err(e) => Err(e),
            },
        }
    }
}

/// Decides the next step after the profile's authority was inspected.
pub fn inspection_step(
    claim: &ClaimView,
    reservation: Option<&ReservationView>,
    owner: Option<&ObservedOwnerView>,
) -> (r: Result<AcquireLaunchStep, String>)
    ensures
        ({
            let spec = inspection_step_spec(
                *claim,
                match reservation {
                    Some(x) => Some(*x),
                    None => None,
                },
                match owner {
                    Some(x) => Some(*x),
                    None => None,
                },
            );
            match r {
                Ok(s) => spec == Ok::<AcquireLaunchStep, Seq<char>>(s),
                Err(e) => spec == Err::<AcquireLaunchStep, Seq<char>>(e@),
            }
        }),
{
    match reservation {
        Some(x) => {
            if !str_equal(x.claim_id.as_str(), claim.claim_id.as_str()) || x.claim_revision != claim.claim_revision
                || x.fencing_token != claim.fencing_token || !str_equal(x.principal_id.as_str(), claim.principal_id.as_str())
                || !str_equal(x.capability_id.as_str(), claim.capability_id.as_str()) || x.capability_revision
                != claim.capability_revision {
                return Err(owned("profile_acquisition_protected_reservation_mismatch"));
            }
        },
        None => {},
    }
    match owner {
        None => Ok(AcquireLaunchStep::Launch),
        Some(o) => {
            let d = protected_existing_owner_disposition(o.holder, o.physical, o.effect_channel, o.requester_is_holder);
            match protected_owner_step(d, o.owner_id.as_str(), o.daemon_session_route.as_str()) {
                Ok(ProtectedOwnerStep::Adopt) => Ok(AcquireLaunchStep::Adopt),
                Ok(ProtectedOwnerStep::ReconcileThenLaunch) => Ok(AcquireLaunchStep::ReconcileThenLaunch),
                Err(e) => Err(e),
            }
        },
    }
}

/// What an acquisition command does next, once its decisions are made.
pub enum AcquireCommandAction {
    /// Answer with the browser this daemon already owns for the same
    /// profile, route and capability.
    Replay,
    /// Go on with the step that the inspection chose.
    Proceed(AcquireLaunchStep),
}

/// The decisions of an acquisition command, in the order it makes them: a
/// client-chosen route is refused; the enrolled principal's derived route
/// must be this daemon's; the claim must belong to the enrolled identity; a
/// matching browser this daemon already owns is replayed; otherwise the
/// inspection decides.
pub open spec fn acquire_command_spec(
    command: JsonValue,
    profile_id: Seq<char>,
    daemon_session_id: Seq<char>,
    enrollment: EnrollmentView,
    claim: ClaimView,
    existing_owner_matches: bool,
    reservation: Option<ReservationView>,
    owner: Option<ObservedOwnerView>,
) -> Result<AcquireCommandAction, Seq<char>> {
    if json_get(command, "sessionName"@) is Some {
        Err("profile_acquisition_client_route_forbidden"@)
    } else if protected_route_spec(enrollment.principal_id@, profile_id) != daemon_session_id {
        Err("profile_acquisition_daemon_route_mismatch"@)
    } else if !claim_matches_enrollment(claim, enrollment) {
        Err("profile_acquisition_protected_identity_mismatch"@)
    } else if existing_owner_matches {
        Ok(AcquireCommandAction::Replay)
    } else {
        match inspection_step_spec(claim, reservation, owner) {
            Ok(step) => Ok(AcquireCommandAction::Proceed(step)),
            Err(e) => Err(e),
        }
    }
}

/// Decides an acquisition command from what its outside steps returned:
/// the enrollment, the claim, whether this daemon already owns a matching
/// browser, and the inspection's reservation and observed owner.
pub fn acquire_command_decision(
    command: &JsonValue,
    profile_id: &str,
    daemon_session_id: &str,
    enrollment: &EnrollmentView,
    claim: &ClaimView,
    existing_owner_matches: bool,
    reservation: Option<&ReservationView>,
    owner: Option<&ObservedOwnerView>,
) -> (r: Result<AcquireCommandAction, String>)
    ensures
        ({
            let spec = acquire_command_spec(
                *command,
                profile_id@,
                daemon_session_id@,
                *enrollment,
                *claim,
                existing_owner_matches,
                match reservation {
                    Some(x) => Some(*x),
                    None => None,
                },
                match owner {
                    Some(x) => Some(*x),
                    None => None,
                },
            );
            match r {
                Ok(a) => spec == Ok::<AcquireCommandAction, Seq<char>>(a),
                Err(e) => spec == Err::<AcquireCommandAction, Seq<char>>(e@),
            }
        }),
{
    match reject_client_route(command) {
        Ok(()) => {},
        Err(e) => {
            return Err(e);
        },
    }
    match acquisition_daemon_route(enrollment.principal_id.as_str(), profile_id, daemon_session_id) {
        Ok(_) => {},
        Err(e) => {
            return Err(e);
        },
    }
    match claim_step(claim, enrollment, existing_owner_matches) {
        Ok(true) => {
            return Ok(AcquireCommandAction::Replay);
        },
        Ok(false) => {},
        Err(e) => {
            return Err(e);
        },
    }
    match inspection_step(claim, reservation, owner) {
        Ok(step) => Ok(AcquireCommandAction::Proceed(step)),
        Err(e) => Err(e),
    }
}

} // verus!
