use agent_browser_service::acquire::{
    acquire_command_decision, acquisition_daemon_route, claim_step, AcquireCommandAction, inspection_step, reject_client_route, AcquireLaunchStep, ClaimView,
    EnrollmentView, ObservedOwnerView, ReservationView,
};
use agent_browser_service::json::{JsonMember, JsonValue};
use agent_browser_service::recovery::{protected_profile_daemon_route, ProtectedAuthorityObservationState};

fn claim() -> ClaimView {
    ClaimView {
        claim_id: "claim:protected".to_string(),
        principal_id: "principal:protected".to_string(),
        capability_id: "capability:protected".to_string(),
        capability_revision: 3,
        claim_revision: 5,
        fencing_token: 7,
    }
}

fn enrollment() -> EnrollmentView {
    EnrollmentView {
        principal_id: "principal:protected".to_string(),
        capability_id: "capability:protected".to_string(),
        capability_revision: 3,
    }
}

fn reservation() -> ReservationView {
    ReservationView {
        claim_id: "claim:protected".to_string(),
        claim_revision: 5,
        fencing_token: 7,
        principal_id: "principal:protected".to_string(),
        capability_id: "capability:protected".to_string(),
        capability_revision: 3,
    }
}

fn owner(physical: ProtectedAuthorityObservationState) -> ObservedOwnerView {
    ObservedOwnerView {
        owner_id: "owner:1".to_string(),
        daemon_session_route: "route-1".to_string(),
        holder: ProtectedAuthorityObservationState::Stale,
        physical,
        effect_channel: ProtectedAuthorityObservationState::Absent,
        requester_is_holder: false,
    }
}

#[test]
fn client_chosen_route_is_forbidden() {
    let command = JsonValue::Object(vec![JsonMember {
        key: "sessionName".to_string(),
        value: JsonValue::Str("mine".to_string()),
    }]);
    assert_eq!(reject_client_route(&command).err(), Some("profile_acquisition_client_route_forbidden".to_string()));
    assert!(reject_client_route(&JsonValue::Object(Vec::new())).is_ok());
}

#[test]
fn daemon_route_must_be_the_derived_route() {
    let route = protected_profile_daemon_route("principal:protected", "profile-a");
    assert_eq!(acquisition_daemon_route("principal:protected", "profile-a", &route).ok(), Some(route.clone()));
    assert_eq!(
        acquisition_daemon_route("principal:protected", "profile-a", "other-route").err(),
        Some("profile_acquisition_daemon_route_mismatch".to_string())
    );
}

#[test]
fn claim_of_another_identity_is_refused_and_existing_owner_replays() {
    assert_eq!(claim_step(&claim(), &enrollment(), true).ok(), Some(true));
    assert_eq!(claim_step(&claim(), &enrollment(), false).ok(), Some(false));
    let mut other = enrollment();
    other.capability_revision = 4;
    assert_eq!(
        claim_step(&claim(), &other, false).err(),
        Some("profile_acquisition_protected_identity_mismatch".to_string())
    );
}

#[test]
fn inspection_decides_between_launch_adoption_and_refusal() {
    assert!(matches!(inspection_step(&claim(), None, None), Ok(AcquireLaunchStep::Launch)));
    assert!(matches!(inspection_step(&claim(), Some(&reservation()), None), Ok(AcquireLaunchStep::Launch)));
    let mut stale_reservation = reservation();
    stale_reservation.fencing_token = 6;
    assert_eq!(
        inspection_step(&claim(), Some(&stale_reservation), None).err(),
        Some("profile_acquisition_protected_reservation_mismatch".to_string())
    );
    let current = owner(ProtectedAuthorityObservationState::Current);
    assert!(matches!(inspection_step(&claim(), None, Some(&current)), Ok(AcquireLaunchStep::Adopt)));
    let stale = owner(ProtectedAuthorityObservationState::Stale);
    assert!(matches!(inspection_step(&claim(), None, Some(&stale)), Ok(AcquireLaunchStep::ReconcileThenLaunch)));
    let uncertain = owner(ProtectedAuthorityObservationState::Uncertain);
    assert_eq!(
        inspection_step(&claim(), None, Some(&uncertain)).err(),
        Some("profile_acquisition_physical_occupancy_uncertain".to_string())
    );
}

#[test]
fn acquisition_command_decisions_run_in_order() {
    let route = protected_profile_daemon_route("principal:protected", "profile-a");
    let plain = JsonValue::Object(Vec::new());
    let routed = JsonValue::Object(vec![JsonMember {
        key: "sessionName".to_string(),
        value: JsonValue::Str("mine".to_string()),
    }]);
    let mut other = enrollment();
    other.capability_revision = 4;
    assert_eq!(
        acquire_command_decision(&routed, "profile-a", "other-route", &other, &claim(), true, None, None).err(),
        Some("profile_acquisition_client_route_forbidden".to_string())
    );
    assert_eq!(
        acquire_command_decision(&plain, "profile-a", "other-route", &other, &claim(), true, None, None).err(),
        Some("profile_acquisition_daemon_route_mismatch".to_string())
    );
    assert_eq!(
        acquire_command_decision(&plain, "profile-a", &route, &other, &claim(), true, None, None).err(),
        Some("profile_acquisition_protected_identity_mismatch".to_string())
    );
    let mut stale_reservation = reservation();
    stale_reservation.claim_revision = 1;
    assert!(matches!(
        acquire_command_decision(&plain, "profile-a", &route, &enrollment(), &claim(), true, Some(&stale_reservation), None),
        Ok(AcquireCommandAction::Replay)
    ));
    assert_eq!(
        acquire_command_decision(&plain, "profile-a", &route, &enrollment(), &claim(), false, Some(&stale_reservation), None)
            .err(),
        Some("profile_acquisition_protected_reservation_mismatch".to_string())
    );
    let current = owner(ProtectedAuthorityObservationState::Current);
    assert!(matches!(
        acquire_command_decision(&plain, "profile-a", &route, &enrollment(), &claim(), false, None, Some(&current)),
        Ok(AcquireCommandAction::Proceed(AcquireLaunchStep::Adopt))
    ));
    assert!(matches!(
        acquire_command_decision(&plain, "profile-a", &route, &enrollment(), &claim(), false, None, None),
        Ok(AcquireCommandAction::Proceed(AcquireLaunchStep::Launch))
    ));
}
