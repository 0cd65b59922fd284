//! The profile-acquisition decision: the dominant blocker, the `tab_new`
//! service request that clients are handed, and the typed route that the
//! executor applies to a service command.

use vstd::prelude::*;
use crate::acquisition::{
    blocks_reuse, self_declared_subject, session_blocks_profile_reuse, authenticated_cold_session_name, clone_strings, cold_session_name_spec, lifecycle_replacement_decision,
    replacement_spec, terminal_launch_name_spec, terminal_replacement_launch_session_name,
    LifecycleReplacement, ServiceAccessPlanRequest,
};
use crate::json::{field_str, json_get, set_member, JsonValue};
use crate::model::{clone_opt, opt_eq, ov, AuthenticatedServicePrincipal, BrowserProfile, BrowserSession, ServiceState};
use crate::provenance::self_declared_subject_spec;
use crate::reuse::{profile_reuse_decision, reuse_decided, ActiveLeaseClaim, ProfileReuse};
use crate::text::{is_blank, nonempty, nonempty_spec, owned, str_equal, strs, trim};

verus! {

/// The launch posture fields the service request reads.
pub struct LaunchPosture {
    pub requires_cdp_free: Option<bool>,
    pub cdp_attachment_allowed: Option<bool>,
    pub browser_build: Option<String>,
    pub headed: Option<bool>,
    pub browser_host: Option<String>,
    pub view_stream_provider: Option<String>,
    pub control_input_provider: Option<String>,
    pub display_isolation: Option<String>,
}

/// The runtime profile and class a one-time profile recommendation names.
pub struct ProfileRecommendation {
    pub runtime_profile: Option<String>,
    pub profile_class: Option<String>,
}

/// What the profile access decision admitted, as plain values.
pub struct AccessAdmission {
    pub allowed: bool,
    pub policy_revision: u64,
    pub decision_id: String,
    pub subject_id: Option<String>,
    /// The subject's identity assurance, in its kebab-case form.
    pub identity_assurance: String,
    pub connection_instance_id: Option<String>,
}

/// The blocker that dominates an acquisition: a denied access decision,
/// then the reuse decision's own blocks, then an unauthenticated request to
/// supersede a terminal owner.
pub open spec fn acquisition_blocker_spec(
    allowed: bool,
    reuse_action: Seq<char>,
    authenticated: bool,
    replacement_eligible: bool,
    replacement_reason: Seq<char>,
) -> Option<Seq<char>> {
    if !allowed {
        Some("profile_access_denied"@)
    } else if reuse_action == "blocked_by_explicit_session_route"@ {
        Some("explicit_session_route_invalid"@)
    } else if reuse_action == "wait_for_foreign_principal"@ {
        Some("foreign_principal_profile_lease"@)
    } else if reuse_action == "authenticate_for_profile_reuse"@ {
        Some("profile_capability_required"@)
    } else if reuse_action == "lifecycle_profile_identity_inconsistent"@ {
        Some("lifecycle_profile_identity_inconsistent"@)
    } else if !authenticated && reuse_action == "launch_new_browser"@ && replacement_eligible && replacement_reason
        == "terminal_cleanup_satisfied"@ {
        Some("profile_capability_required"@)
    } else {
        None
    }
}

/// Law: an acquisition is blocked whenever access is denied, and whenever
/// access is allowed but the reuse decision recommends one of its blocking
/// actions: an invalid explicit session route, a foreign principal's live
/// lease, a missing capability, or an inconsistent lifecycle identity. Each
/// such action gives its own blocker, whatever the authentication and the
/// replacement decision; any other reuse action is never blocked by access.
pub proof fn law_blocking_reuse_blocks_acquisition(
    allowed: bool,
    reuse_action: Seq<char>,
    authenticated: bool,
    replacement_eligible: bool,
    replacement_reason: Seq<char>,
)
    ensures
        !allowed ==> acquisition_blocker_spec(allowed, reuse_action, authenticated, replacement_eligible, replacement_reason)
            == Some("profile_access_denied"@),
        allowed && reuse_action == "blocked_by_explicit_session_route"@ ==> acquisition_blocker_spec(
            allowed,
            reuse_action,
            authenticated,
            replacement_eligible,
            replacement_reason,
        ) == Some("explicit_session_route_invalid"@),
        allowed && reuse_action == "wait_for_foreign_principal"@ ==> acquisition_blocker_spec(
            allowed,
            reuse_action,
            authenticated,
            replacement_eligible,
            replacement_reason,
        ) == Some("foreign_principal_profile_lease"@),
        allowed && reuse_action == "authenticate_for_profile_reuse"@ ==> acquisition_blocker_spec(
            allowed,
            reuse_action,
            authenticated,
            replacement_eligible,
            replacement_reason,
        ) == Some("profile_capability_required"@),
        allowed && reuse_action == "lifecycle_profile_identity_inconsistent"@ ==> acquisition_blocker_spec(
            allowed,
            reuse_action,
            authenticated,
            replacement_eligible,
            replacement_reason,
        ) == Some("lifecycle_profile_identity_inconsistent"@),
        allowed ==> acquisition_blocker_spec(allowed, reuse_action, authenticated, replacement_eligible, replacement_reason)
            != Some("profile_access_denied"@),
        allowed && !authenticated && reuse_action == "launch_new_browser"@ && replacement_eligible && replacement_reason
            == "terminal_cleanup_satisfied"@ ==> acquisition_blocker_spec(
            allowed,
            reuse_action,
            authenticated,
            replacement_eligible,
            replacement_reason,
        ) == Some("profile_capability_required"@),
        allowed && reuse_action != "blocked_by_explicit_session_route"@ && reuse_action != "wait_for_foreign_principal"@
            && reuse_action != "authenticate_for_profile_reuse"@ && reuse_action
            != "lifecycle_profile_identity_inconsistent"@ && (authenticated || reuse_action != "launch_new_browser"@
            || !replacement_eligible || replacement_reason != "terminal_cleanup_satisfied"@) ==> acquisition_blocker_spec(
            allowed,
            reuse_action,
            authenticated,
            replacement_eligible,
            replacement_reason,
        ) is None,
{
    reveal_strlit("blocked_by_explicit_session_route");
    reveal_strlit("wait_for_foreign_principal");
    reveal_strlit("authenticate_for_profile_reuse");
    reveal_strlit("lifecycle_profile_identity_inconsistent");
    reveal_strlit("launch_new_browser");
    reveal_strlit("profile_access_denied");
    reveal_strlit("explicit_session_route_invalid");
    reveal_strlit("foreign_principal_profile_lease");
    reveal_strlit("profile_capability_required");
    assert("blocked_by_explicit_session_route"@[0] != "wait_for_foreign_principal"@[0]);
    assert("blocked_by_explicit_session_route"@[0] != "authenticate_for_profile_reuse"@[0]);
    assert("blocked_by_explicit_session_route"@[0] != "lifecycle_profile_identity_inconsistent"@[0]);
    assert("wait_for_foreign_principal"@[0] != "authenticate_for_profile_reuse"@[0]);
    assert("wait_for_foreign_principal"@[0] != "lifecycle_profile_identity_inconsistent"@[0]);
    assert("authenticate_for_profile_reuse"@[0] != "lifecycle_profile_identity_inconsistent"@[0]);
    assert("profile_access_denied"@.len() != "explicit_session_route_invalid"@.len());
    assert("profile_access_denied"@[0] != "foreign_principal_profile_lease"@[0]);
    assert("profile_access_denied"@[8] != "profile_capability_required"@[8]);
    assert("profile_access_denied"@[0] != "lifecycle_profile_identity_inconsistent"@[0]);
    reveal_strlit("terminal_cleanup_satisfied");
    assert("launch_new_browser"@[0] != "blocked_by_explicit_session_route"@[0]);
    assert("launch_new_browser"@[0] != "wait_for_foreign_principal"@[0]);
    assert("launch_new_browser"@[0] != "authenticate_for_profile_reuse"@[0]);
    assert("launch_new_browser"@.len() != "lifecycle_profile_identity_inconsistent"@.len());
}

/// The view of an optional static text.
pub open spec fn os(o: Option<&str>) -> Option<Seq<char>> {
    match o {
        Some(s) => Some(s@),
        None => None,
    }
}

/// The blocker that dominates an acquisition.
pub fn acquisition_blocker(
    admission: &AccessAdmission,
    reuse: &ProfileReuse,
    authenticated: bool,
    replacement: &LifecycleReplacement,
) -> (r: Option<&'static str>)
    ensures
        os(r) == acquisition_blocker_spec(
            admission.allowed,
            reuse.recommended_action@,
            authenticated,
            replacement.replacement_eligible,
            replacement.reason@,
        ),
{
    let action = reuse.recommended_action.as_str();
    if !admission.allowed {
        Some("profile_access_denied")
    } else if str_equal(action, "blocked_by_explicit_session_route") {
        Some("explicit_session_route_invalid")
    } else if str_equal(action, "wait_for_foreign_principal") {
        Some("foreign_principal_profile_lease")
    } else if str_equal(action, "authenticate_for_profile_reuse") {
        Some("profile_capability_required")
    } else if str_equal(action, "lifecycle_profile_identity_inconsistent") {
        Some("lifecycle_profile_identity_inconsistent")
    } else if !authenticated && str_equal(action, "launch_new_browser") && replacement.replacement_eligible
        && str_equal(replacement.reason.as_str(), "terminal_cleanup_satisfied") {
        Some("profile_capability_required")
    } else {
        None
    }
}

/// The `tab_new` service request handed to a client.
pub struct TabNewRequest {
    pub service_name: Option<String>,
    pub agent_name: Option<String>,
    pub task_name: Option<String>,
    pub client_subject_id: Option<String>,
    pub identity_assurance: String,
    pub policy_revision: u64,
    pub access_decision_id: String,
    pub session_name: Option<String>,
    /// Carried only when not empty.
    pub target_service_ids: Vec<String>,
    /// Carried only when not empty.
    pub account_ids: Vec<String>,
    pub url: Option<String>,
    pub browser_build: Option<String>,
    pub runtime_profile: Option<String>,
    pub profile_class: Option<String>,
    /// The selected profile's directory, trimmed.
    pub profile: Option<String>,
    pub browser_id: Option<String>,
    pub blocked_by_manual_action: bool,
    pub manual_seeding_required: bool,
    pub requires_cdp_free: bool,
    /// `Some(false)` for a headed launch.
    pub headless: Option<bool>,
    pub browser_host: Option<String>,
    pub view_stream_provider: Option<String>,
    pub control_input_provider: Option<String>,
    pub display_isolation: Option<String>,
    pub cdp_attachment_allowed: bool,
}

/// The handoff a client uses after planning: whether the request is
/// available, what blocks it, and the request itself when nothing blocks
/// acquisition.
pub struct ServiceRequestDecision {
    pub available: bool,
    pub recommended_after_manual_action: bool,
    pub blocked_by_manual_action: bool,
    pub blocked_by_cdp_free: bool,
    pub blocked_by_policy: bool,
    pub blocked_by_acquisition: bool,
    pub blocked_by_lifecycle_owner: bool,
    pub acquisition_blocker: Option<String>,
    pub requires_cdp_free: bool,
    pub cdp_attachment_allowed: bool,
    pub selected_profile_id: Option<String>,
    pub runtime_profile: Option<String>,
    pub profile_class: Option<String>,
    pub request: Option<TabNewRequest>,
}

/// The profile the request runs in: the selected profile, else the
/// requested one, else the recommended one.
pub open spec fn effective_runtime_profile(
    request: ServiceAccessPlanRequest,
    profile: Option<BrowserProfile>,
    recommendation: ProfileRecommendation,
) -> Option<Seq<char>> {
    match profile {
        Some(p) => Some(p.id@),
        None => match ov(request.runtime_profile) {
            Some(r) => Some(r),
            None => ov(recommendation.runtime_profile),
        },
    }
}

/// The profile class: the selected profile's, else the recommended one,
/// else `operator_supplied` for a requested profile.
pub open spec fn effective_profile_class(
    request: ServiceAccessPlanRequest,
    profile: Option<BrowserProfile>,
    recommendation: ProfileRecommendation,
) -> Option<Seq<char>> {
    match profile {
        Some(p) => Some(p.profile_class@),
        None => match ov(recommendation.profile_class) {
            Some(c) => Some(c),
            None => if request.runtime_profile is Some {
                Some("operator_supplied"@)
            } else {
                None
            },
        },
    }
}

/// Whether the posture requires a CDP-free launch.
pub open spec fn requires_cdp_free_spec(posture: LaunchPosture) -> bool {
    match posture.requires_cdp_free {
        Some(b) => b,
        None => false,
    }
}

/// Whether the posture allows CDP attachment; by default, unless it is CDP-free.
pub open spec fn cdp_attachment_allowed_spec(posture: LaunchPosture) -> bool {
    match posture.cdp_attachment_allowed {
        Some(b) => b,
        None => !requires_cdp_free_spec(posture),
    }
}

/// The fresh route for superseding a terminal owner, when one applies.
pub open spec fn terminal_launch_name_opt(profile_id: Seq<char>, replacement: LifecycleReplacement) -> Option<Seq<char>> {
    if replacement.replacement_eligible && replacement.logical_browser_id is Some
        && replacement.owner_generation is Some {
        Some(
            terminal_launch_name_spec(
                profile_id,
                replacement.logical_browser_id->0@,
                replacement.owner_generation->0,
            ),
        )
    } else {
        None
    }
}

/// The first present option.
pub open spec fn first_of(a: Option<Seq<char>>, b: Option<Seq<char>>) -> Option<Seq<char>> {
    match a {
        Some(v) => Some(v),
        None => b,
    }
}

/// A text unless it is blank.
pub open spec fn nonblank(o: Option<Seq<char>>) -> Option<Seq<char>> {
    match o {
        Some(v) => if trim(v).len() == 0 { None } else { Some(v) },
        None => None,
    }
}

/// The session a launch is routed through before any reuse route: the
/// requested session, else the terminal launch route, else the
/// authenticated cold route, else the terminal owner's retained route.
pub open spec fn launch_session_name(
    request: ServiceAccessPlanRequest,
    profile: Option<BrowserProfile>,
    reuse_action: Seq<char>,
    replacement: LifecycleReplacement,
    authority: Option<AuthenticatedServicePrincipal>,
    available: bool,
) -> Option<Seq<char>> {
    let launching = reuse_action == "launch_new_browser"@;
    let terminal = if available && launching && profile is Some {
        terminal_launch_name_opt(profile->0.id@, replacement)
    } else {
        None
    };
    let cold = if available && launching && profile is Some && authority is Some {
        cold_session_name_spec(authority->0.principal_id@, authority->0.profile_id@, profile->0.id@)
    } else {
        None
    };
    let retained = if launching && replacement.replacement_eligible {
        ov(replacement.replacement_session_name)
    } else {
        None
    };
    first_of(ov(request.session_name), first_of(terminal, first_of(cold, retained)))
}

/// The session of the service request: a reused browser's nonblank session
/// replaces the launch route.
pub open spec fn request_session_name(
    request: ServiceAccessPlanRequest,
    profile: Option<BrowserProfile>,
    reuse: ProfileReuse,
    replacement: LifecycleReplacement,
    authority: Option<AuthenticatedServicePrincipal>,
    available: bool,
) -> Option<Seq<char>> {
    let launch = launch_session_name(request, profile, reuse.recommended_action@, replacement, authority, available);
    if reuse.recommended_action@ == "reuse_existing_browser"@ {
        first_of(nonblank(ov(reuse.reusable_session_name)), launch)
    } else {
        launch
    }
}

/// The first present text.
fn or_text(a: Option<String>, b: Option<String>) -> (r: Option<String>)
    ensures
        ov(r) == first_of(ov(a), ov(b)),
{
    match a {
        Some(v) => Some(v),
        None => b,
    }
}

/// A copy of a text unless it is blank.
fn nonblank_text(o: &Option<String>) -> (r: Option<String>)
    ensures
        ov(r) == nonblank(ov(*o)),
{
    match o {
        Some(v) => if is_blank(v.as_str()) { None } else { Some(owned(v.as_str())) },
        None => None,
    }
}

/// The launch route of a request.
fn planned_launch_session(
    request: &ServiceAccessPlanRequest,
    selected_profile: Option<&BrowserProfile>,
    reuse: &ProfileReuse,
    replacement: &LifecycleReplacement,
    authority: Option<&AuthenticatedServicePrincipal>,
    available: bool,
) -> (r: Option<String>)
    ensures
        ov(r) == launch_session_name(
            *request,
            match selected_profile {
                Some(p) => Some(*p),
                None => None,
            },
            reuse.recommended_action@,
            *replacement,
            match authority {
                Some(a) => Some(*a),
                None => None,
            },
            available,
        ),
{
    let launching = str_equal(reuse.recommended_action.as_str(), "launch_new_browser");
    let terminal = if available && launching {
        match selected_profile {
            Some(p) => terminal_replacement_launch_session_name(p, replacement),
            None => None,
        }
    } else {
        None
    };
    let cold = if available && launching {
        match (authority, selected_profile) {
            (Some(a), Some(p)) => authenticated_cold_session_name(a, p),
            _ => None,
        }
    } else {
        None
    };
    let retained = if launching && replacement.replacement_eligible {
        clone_opt(&replacement.replacement_session_name)
    } else {
        None
    };
    or_text(clone_opt(&request.session_name), or_text(terminal, or_text(cold, retained)))
}

/// Whether `r` is the `tab_new` handoff for a request: available only with
/// a profile lane when policy, manual action, a CDP-free posture and
/// acquisition all allow it; the request is withheld whenever acquisition
/// is blocked.
pub open spec fn service_request_decided(
    r: ServiceRequestDecision,
    request: ServiceAccessPlanRequest,
    profile: Option<BrowserProfile>,
    denied: bool,
    manual_seeding_required: bool,
    manual_action_required: bool,
    posture: LaunchPosture,
    reuse: ProfileReuse,
    replacement: LifecycleReplacement,
    recommendation: ProfileRecommendation,
    blocker: Option<Seq<char>>,
    authority: Option<AuthenticatedServicePrincipal>,
    admission: AccessAdmission,
) -> bool {
    let lane = effective_runtime_profile(request, profile, recommendation);
    let cdp_free = requires_cdp_free_spec(posture);
    let attach = cdp_attachment_allowed_spec(posture);
    let blocked_cdp = cdp_free && !attach;
    let available = lane is Some && !denied && !manual_action_required && !blocked_cdp && blocker is None;
    &&& r.available == available
    &&& r.recommended_after_manual_action == (lane is Some && !denied && manual_action_required && !blocked_cdp)
    &&& r.blocked_by_manual_action == manual_action_required
    &&& r.blocked_by_cdp_free == blocked_cdp
    &&& r.blocked_by_policy == denied
    &&& r.blocked_by_acquisition == (blocker is Some)
    &&& r.blocked_by_lifecycle_owner == (blocker == Some("lifecycle_owner_blocks_replacement"@))
    &&& ov(r.acquisition_blocker) == blocker
    &&& r.requires_cdp_free == cdp_free
    &&& r.cdp_attachment_allowed == attach
    &&& ov(r.selected_profile_id) == (match profile {
        Some(p) => Some(p.id@),
        None => None,
    })
    &&& ov(r.runtime_profile) == lane
    &&& ov(r.profile_class) == effective_profile_class(request, profile, recommendation)
    &&& (blocker is Some <==> r.request is None)
    &&& (r.request matches Some(q) ==> {
        &&& ov(q.service_name) == ov(request.service_name)
        &&& ov(q.agent_name) == ov(request.agent_name)
        &&& ov(q.task_name) == ov(request.task_name)
        &&& ov(q.client_subject_id) == ov(admission.subject_id)
        &&& q.identity_assurance@ == admission.identity_assurance@
        &&& q.policy_revision == admission.policy_revision
        &&& q.access_decision_id@ == admission.decision_id@
        &&& ov(q.session_name) == request_session_name(request, profile, reuse, replacement, authority, available)
        &&& strs(q.target_service_ids@) == strs(request.target_service_ids@)
        &&& strs(q.account_ids@) == strs(request.account_ids@)
        &&& ov(q.url) == ov(request.target_url)
        &&& ov(q.browser_build) == ov(posture.browser_build)
        &&& ov(q.runtime_profile) == lane
        &&& ov(q.profile_class) == effective_profile_class(request, profile, recommendation)
        &&& ov(q.profile) == (match profile {
            Some(p) => match ov(p.user_data_dir) {
                Some(d) => nonempty_spec(d),
                None => None,
            },
            None => None,
        })
        &&& ov(q.browser_id) == (if reuse.recommended_action@ == "reuse_existing_browser"@ {
            nonblank(ov(reuse.reusable_browser_id))
        } else {
            None
        })
        &&& q.blocked_by_manual_action == manual_action_required
        &&& q.manual_seeding_required == manual_seeding_required
        &&& q.requires_cdp_free == cdp_free
        &&& q.headless == (if posture.headed == Some(true) { Some(false) } else { None })
        &&& ov(q.browser_host) == ov(posture.browser_host)
        &&& ov(q.view_stream_provider) == ov(posture.view_stream_provider)
        &&& ov(q.control_input_provider) == ov(posture.control_input_provider)
        &&& ov(q.display_isolation) == ov(posture.display_isolation)
        &&& q.cdp_attachment_allowed == attach
    })
}

/// Describes the queued `tab_new` handoff a client should use after
/// planning. It is available only with a profile lane, when policy, manual
/// action, a CDP-free posture and acquisition all allow it; the request is
/// withheld whenever acquisition is blocked.
#[verifier::rlimit(40)]
pub fn service_request_decision(
    request: &ServiceAccessPlanRequest,
    selected_profile: Option<&BrowserProfile>,
    denied: bool,
    manual_seeding_required: bool,
    manual_action_required: bool,
    posture: &LaunchPosture,
    reuse: &ProfileReuse,
    replacement: &LifecycleReplacement,
    recommendation: &ProfileRecommendation,
    blocker: Option<&str>,
    authority: Option<&AuthenticatedServicePrincipal>,
    admission: &AccessAdmission,
) -> (r: ServiceRequestDecision)
    ensures
        service_request_decided(
            r,
            *request,
            match selected_profile {
                Some(p) => Some(*p),
                None => None,
            },
            denied,
            manual_seeding_required,
            manual_action_required,
            *posture,
            *reuse,
            *replacement,
            *recommendation,
            os(blocker),
            match authority {
                Some(a) => Some(*a),
                None => None,
            },
            *admission,
        ),
{
    let ghost profile = match selected_profile {
        Some(p) => Some(*p),
        None => None,
    };
    let selected_profile_id = match selected_profile {
        Some(p) => Some(p.id.clone()),
        None => None,
    };
    let runtime_profile = match selected_profile {
        Some(p) => Some(p.id.clone()),
        None => or_text(clone_opt(&request.runtime_profile), clone_opt(&recommendation.runtime_profile)),
    };
    let profile_class = match selected_profile {
        Some(p) => Some(p.profile_class.clone()),
        None => match &recommendation.profile_class {
            Some(c) => Some(c.clone()),
            None => if request.runtime_profile.is_some() {
                Some(owned("operator_supplied"))
            } else {
                None
            },
        },
    };
    let requires_cdp_free = match posture.requires_cdp_free {
        Some(b) => b,
        None => false,
    };
    let cdp_attachment_allowed = match posture.cdp_attachment_allowed {
        Some(b) => b,
        None => !requires_cdp_free,
    };
    let blocked_by_cdp_free = requires_cdp_free && !cdp_attachment_allowed;
    let has_lane = runtime_profile.is_some();
    let available = has_lane && !denied && !manual_action_required && !blocked_by_cdp_free && blocker.is_none();
    let recommended_after_manual_action = has_lane && !denied && manual_action_required && !blocked_by_cdp_free;
    let acquisition_blocker = match blocker {
        Some(b) => Some(owned(b)),
        None => None,
    };
    let blocked_by_lifecycle_owner = match blocker {
        Some(b) => str_equal(b, "lifecycle_owner_blocks_replacement"),
        None => false,
    };
    let tab_request = if blocker.is_some() {
        None
    } else {
        let launch = planned_launch_session(request, selected_profile, reuse, replacement, authority, available);
        let reusing = str_equal(reuse.recommended_action.as_str(), "reuse_existing_browser");
        let session_name = if reusing {
            or_text(nonblank_text(&reuse.reusable_session_name), launch)
        } else {
            launch
        };
        let browser_id = if reusing {
            nonblank_text(&reuse.reusable_browser_id)
        } else {
            None
        };
        let profile_dir = match selected_profile {
            Some(p) => match &p.user_data_dir {
                Some(d) => nonempty(d.as_str()),
                None => None,
            },
            None => None,
        };
        let headless = match posture.headed {
            Some(true) => Some(false),
            _ => None,
        };
        Some(TabNewRequest {
            service_name: clone_opt(&request.service_name),
            agent_name: clone_opt(&request.agent_name),
            task_name: clone_opt(&request.task_name),
            client_subject_id: clone_opt(&admission.subject_id),
            identity_assurance: admission.identity_assurance.clone(),
            policy_revision: admission.policy_revision,
            access_decision_id: admission.decision_id.clone(),
            session_name,
            target_service_ids: clone_strings(&request.target_service_ids),
            account_ids: clone_strings(&request.account_ids),
            url: clone_opt(&request.target_url),
            browser_build: clone_opt(&posture.browser_build),
            runtime_profile: clone_opt(&runtime_profile),
            profile_class: clone_opt(&profile_class),
            profile: profile_dir,
            browser_id,
            blocked_by_manual_action: manual_action_required,
            manual_seeding_required,
            requires_cdp_free,
            headless,
            browser_host: clone_opt(&posture.browser_host),
            view_stream_provider: clone_opt(&posture.view_stream_provider),
            control_input_provider: clone_opt(&posture.control_input_provider),
            display_isolation: clone_opt(&posture.display_isolation),
            cdp_attachment_allowed,
        })
    };
    ServiceRequestDecision {
        available,
        recommended_after_manual_action,
        blocked_by_manual_action: manual_action_required,
        blocked_by_cdp_free,
        blocked_by_policy: denied,
        blocked_by_acquisition: blocker.is_some(),
        blocked_by_lifecycle_owner,
        acquisition_blocker,
        requires_cdp_free,
        cdp_attachment_allowed,
        selected_profile_id,
        runtime_profile,
        profile_class,
        request: tab_request,
    }
}


/// How an acquisition proceeds.
#[derive(PartialEq, Eq, Structural, Clone, Copy)]
pub enum ProfileAcquisitionDisposition {
    ReuseExistingBrowser,
    LaunchNewBrowser,
    Blocked,
}

/// The joined acquisition result that route application consumes.
pub struct ProfileAcquisitionDecision {
    disposition: ProfileAcquisitionDisposition,
    selected_profile_id: Option<String>,
    browser_id: Option<String>,
    session_name: Option<String>,
    acquisition_blocker: Option<String>,
    policy_revision: u64,
    access_decision_id: String,
    client_subject_id: Option<String>,
    identity_assurance: String,
    connection_instance_id: Option<String>,
    service_request_available: bool,
    profile_reuse_action: String,
    profile_reuse_reasons: Vec<String>,
    replacement_eligible: bool,
    replacement_session_name: Option<String>,
    runtime_owner_registry_revision: Option<u64>,
    owner_id: Option<String>,
    owner_generation: Option<u64>,
}

/// The content of an acquisition decision.
pub struct DecisionView {
    pub disposition: ProfileAcquisitionDisposition,
    pub selected_profile_id: Option<Seq<char>>,
    pub browser_id: Option<Seq<char>>,
    pub session_name: Option<Seq<char>>,
    pub acquisition_blocker: Option<Seq<char>>,
    pub policy_revision: u64,
    pub access_decision_id: Seq<char>,
    pub client_subject_id: Option<Seq<char>>,
    pub identity_assurance: Seq<char>,
    pub connection_instance_id: Option<Seq<char>>,
    pub service_request_available: bool,
    pub profile_reuse_action: Seq<char>,
    pub profile_reuse_reasons: Seq<Seq<char>>,
    pub replacement_eligible: bool,
    pub replacement_session_name: Option<Seq<char>>,
    pub runtime_owner_registry_revision: Option<u64>,
    pub owner_id: Option<Seq<char>>,
    pub owner_generation: Option<u64>,
}

impl View for ProfileAcquisitionDecision {
    type V = DecisionView;

    closed spec fn view(&self) -> DecisionView {
        DecisionView {
            disposition: self.disposition,
            selected_profile_id: ov(self.selected_profile_id),
            browser_id: ov(self.browser_id),
            session_name: ov(self.session_name),
            acquisition_blocker: ov(self.acquisition_blocker),
            policy_revision: self.policy_revision,
            access_decision_id: self.access_decision_id@,
            client_subject_id: ov(self.client_subject_id),
            identity_assurance: self.identity_assurance@,
            connection_instance_id: ov(self.connection_instance_id),
            service_request_available: self.service_request_available,
            profile_reuse_action: self.profile_reuse_action@,
            profile_reuse_reasons: strs(self.profile_reuse_reasons@),
            replacement_eligible: self.replacement_eligible,
            replacement_session_name: ov(self.replacement_session_name),
            runtime_owner_registry_revision: self.runtime_owner_registry_revision,
            owner_id: ov(self.owner_id),
            owner_generation: self.owner_generation,
        }
    }
}

/// The disposition a reuse action and request availability give.
pub open spec fn disposition_spec(action: Seq<char>, available: bool) -> ProfileAcquisitionDisposition {
    if action == "reuse_existing_browser"@ && available {
        ProfileAcquisitionDisposition::ReuseExistingBrowser
    } else if action == "launch_new_browser"@ && available {
        ProfileAcquisitionDisposition::LaunchNewBrowser
    } else {
        ProfileAcquisitionDisposition::Blocked
    }
}

/// The route session of a decision: the service request's nonblank
/// session, else the reused browser's nonblank session.
pub open spec fn decision_session(service: ServiceRequestDecision, reuse: ProfileReuse) -> Option<Seq<char>> {
    first_of(
        match service.request {
            Some(q) => nonblank(ov(q.session_name)),
            None => None,
        },
        nonblank(ov(reuse.reusable_session_name)),
    )
}

/// The decision that joining the acquisition's parts gives.
pub open spec fn joined_decision(
    profile: Option<BrowserProfile>,
    admission: AccessAdmission,
    reuse: ProfileReuse,
    replacement: LifecycleReplacement,
    service: ServiceRequestDecision,
) -> DecisionView {
    DecisionView {
        disposition: disposition_spec(reuse.recommended_action@, service.available),
        selected_profile_id: match profile {
            Some(p) => Some(p.id@),
            None => None,
        },
        browser_id: nonblank(ov(reuse.reusable_browser_id)),
        session_name: decision_session(service, reuse),
        acquisition_blocker: ov(service.acquisition_blocker),
        policy_revision: admission.policy_revision,
        access_decision_id: admission.decision_id@,
        client_subject_id: ov(admission.subject_id),
        identity_assurance: admission.identity_assurance@,
        connection_instance_id: ov(admission.connection_instance_id),
        service_request_available: service.available,
        profile_reuse_action: reuse.recommended_action@,
        profile_reuse_reasons: strs(reuse.reasons@),
        replacement_eligible: replacement.replacement_eligible,
        replacement_session_name: ov(replacement.replacement_session_name),
        runtime_owner_registry_revision: replacement.registry_revision,
        owner_id: ov(replacement.owner_id),
        owner_generation: replacement.owner_generation,
    }
}

/// The route that a decision executes through.
pub struct RouteAuthorization {
    /// `terminal_replacement` or `authenticated_cold`.
    pub kind: String,
    pub session_name: String,
    pub profile_id: Option<String>,
    pub principal_id: String,
    pub capability_id: String,
    pub capability_revision: u64,
    pub runtime_owner_registry_revision: Option<u64>,
    pub owner_id: Option<String>,
    pub owner_generation: Option<u64>,
}

/// What route application sets on a service command.
pub struct CommandRoute {
    pub browser_id: Option<String>,
    pub session_name: Option<String>,
    pub route_authorization: Option<RouteAuthorization>,
}

/// The content of a launch route authorization.
pub struct AuthorizationView {
    pub kind: Seq<char>,
    pub session_name: Seq<char>,
    pub profile_id: Option<Seq<char>>,
    pub principal_id: Seq<char>,
    pub capability_id: Seq<char>,
    pub capability_revision: u64,
    pub runtime_owner_registry_revision: Option<u64>,
    pub owner_id: Option<Seq<char>>,
    pub owner_generation: Option<u64>,
}

/// The content of a command route.
pub struct RouteView {
    pub browser_id: Option<Seq<char>>,
    pub session_name: Option<Seq<char>>,
    pub route_authorization: Option<AuthorizationView>,
}

impl View for RouteAuthorization {
    type V = AuthorizationView;

    open spec fn view(&self) -> AuthorizationView {
        AuthorizationView {
            kind: self.kind@,
            session_name: self.session_name@,
            profile_id: ov(self.profile_id),
            principal_id: self.principal_id@,
            capability_id: self.capability_id@,
            capability_revision: self.capability_revision,
            runtime_owner_registry_revision: self.runtime_owner_registry_revision,
            owner_id: ov(self.owner_id),
            owner_generation: self.owner_generation,
        }
    }
}

impl View for CommandRoute {
    type V = RouteView;

    open spec fn view(&self) -> RouteView {
        RouteView {
            browser_id: ov(self.browser_id),
            session_name: ov(self.session_name),
            route_authorization: match self.route_authorization {
                Some(a) => Some(a@),
                None => None,
            },
        }
    }
}

/// The launch route authorization a decision grants an authority for the
/// command's session: none without a session, or when the authority's
/// capability names another profile.
pub open spec fn authorization_spec(
    d: DecisionView,
    a: AuthenticatedServicePrincipal,
    session: Option<Seq<char>>,
    kind: Seq<char>,
) -> Option<AuthorizationView> {
    match session {
        None => None,
        Some(s) => if d.selected_profile_id != Some(a.profile_id@) {
            None
        } else {
            Some(
                AuthorizationView {
                    kind,
                    session_name: s,
                    profile_id: d.selected_profile_id,
                    principal_id: a.principal_id@,
                    capability_id: a.capability_id@,
                    capability_revision: a.capability_revision,
                    runtime_owner_registry_revision: d.runtime_owner_registry_revision,
                    owner_id: d.owner_id,
                    owner_generation: d.owner_generation,
                },
            )
        },
    }
}

/// The authorization for an optional authority.
pub open spec fn maybe_authorization(
    d: DecisionView,
    authority: Option<AuthenticatedServicePrincipal>,
    session: Option<Seq<char>>,
    kind: Seq<char>,
) -> Option<AuthorizationView> {
    match authority {
        Some(a) => authorization_spec(d, a, session, kind),
        None => None,
    }
}

/// The route a decision gives a command whose `browserId` and `sessionName`
/// string fields are `browser_hint` and `session_hint`. An unavailable
/// request fails with its blocker. A reused browser is routed exactly. A
/// launch with exactly one route hint must name the terminal replacement
/// route, the authenticated cold route or the terminal launch route the
/// decision selected; otherwise a launch is routed through the decision's
/// session unless the command names one.
pub open spec fn route_spec(
    d: DecisionView,
    browser_hint: Option<Seq<char>>,
    session_hint: Option<Seq<char>>,
    authority: Option<AuthenticatedServicePrincipal>,
) -> Result<RouteView, Seq<char>> {
    let has_browser = nonblank(browser_hint) is Some;
    let has_session = nonblank(session_hint) is Some;
    if !d.service_request_available {
        Err(
            "service_access_plan_request_unavailable:"@ + match d.acquisition_blocker {
                Some(b) => b,
                None => "service_request_unavailable"@,
            },
        )
    } else if d.disposition != ProfileAcquisitionDisposition::ReuseExistingBrowser {
        if has_browser != has_session {
            let exact_replacement = !has_browser && d.replacement_eligible && session_hint
                == d.replacement_session_name;
            let exact_cold = !has_browser && d.profile_reuse_action == "launch_new_browser"@
                && d.profile_reuse_reasons.contains("explicit_authenticated_cold_route_selected"@)
                && session_hint == d.session_name;
            let exact_launch = !has_browser && d.replacement_eligible && d.profile_reuse_reasons.contains(
                "explicit_session_terminal_launch_selected"@,
            ) && session_hint == d.session_name && session_hint != d.replacement_session_name;
            if !exact_replacement && !exact_cold && !exact_launch {
                Err("service_access_plan_incomplete_route_hints"@)
            } else {
                Ok(
                    RouteView {
                        browser_id: None,
                        session_name: None,
                        route_authorization: maybe_authorization(
                            d,
                            authority,
                            session_hint,
                            if exact_replacement { "terminal_replacement"@ } else { "authenticated_cold"@ },
                        ),
                    },
                )
            }
        } else {
            let set_session = if !has_session { d.session_name } else { None };
            let planned = if set_session is Some { set_session } else { session_hint };
            let terminal = d.replacement_eligible && planned == d.replacement_session_name
                && d.replacement_session_name is Some;
            Ok(
                RouteView {
                    browser_id: None,
                    session_name: set_session,
                    route_authorization: maybe_authorization(
                        d,
                        authority,
                        planned,
                        if terminal { "terminal_replacement"@ } else { "authenticated_cold"@ },
                    ),
                },
            )
        }
    } else if d.browser_id is None {
        Err("service_access_plan_reuse_missing_browser_id"@)
    } else if d.session_name is None {
        Err("service_access_plan_reuse_missing_session_name"@)
    } else {
        Ok(RouteView { browser_id: d.browser_id, session_name: d.session_name, route_authorization: None })
    }
}

/// Whether a list of texts holds `s`.
fn has_text(v: &Vec<String>, s: &str) -> (r: bool)
    ensures
        r == strs(v@).contains(s@),
{
    let mut i: usize = 0;
    while i < v.len()
        invariant
            i <= v@.len(),
            forall|j: int| 0 <= j < i ==> strs(v@)[j] != s@,
        decreases v@.len() - i,
    {
        if str_equal(v[i].as_str(), s) {
            assert(strs(v@)[i as int] == s@);
            return true;
        }
        i = i + 1;
    }
    false
}

/// Whether an optional borrowed text equals an optional owned one.
fn same_text(a: Option<&str>, b: &Option<String>) -> (r: bool)
    ensures
        r == (os(a) == ov(*b)),
{
    match (a, b) {
        (Some(x), Some(y)) => str_equal(x, y.as_str()),
        (None, None) => true,
        _ => false,
    }
}

/// Whether an optional text is present and not blank.
fn is_hint(o: Option<&str>) -> (r: bool)
    ensures
        r == (nonblank(os(o)) is Some),
{
    match o {
        Some(s) => !is_blank(s),
        None => false,
    }
}

impl ProfileAcquisitionDecision {
    /// Joins the acquisition's parts into its executable result. A reuse
    /// disposition without both a browser and a session is incoherent.
    pub fn from_components(
        selected_profile: Option<&BrowserProfile>,
        admission: &AccessAdmission,
        reuse: &ProfileReuse,
        replacement: &LifecycleReplacement,
        service: &ServiceRequestDecision,
    ) -> (r: Result<Self, String>)
        ensures
            ({
                let d = joined_decision(
                    match selected_profile {
                        Some(p) => Some(*p),
                        None => None,
                    },
                    *admission,
                    *reuse,
                    *replacement,
                    *service,
                );
                let incomplete = d.disposition == ProfileAcquisitionDisposition::ReuseExistingBrowser && (
                d.browser_id is None || d.session_name is None);
                match r {
                    Ok(decision) => !incomplete && decision@ == d,
                    Err(e) => incomplete && e@ == "profile_acquisition_reuse_route_incomplete"@,
                }
            }),
    {
        let action = reuse.recommended_action.as_str();
        let available = service.available;
        let disposition = if str_equal(action, "reuse_existing_browser") && available {
            ProfileAcquisitionDisposition::ReuseExistingBrowser
        } else if str_equal(action, "launch_new_browser") && available {
            ProfileAcquisitionDisposition::LaunchNewBrowser
        } else {
            ProfileAcquisitionDisposition::Blocked
        };
        let browser_id = nonblank_text(&reuse.reusable_browser_id);
        let from_request = match &service.request {
            Some(q) => nonblank_text(&q.session_name),
            None => None,
        };
        let session_name = or_text(from_request, nonblank_text(&reuse.reusable_session_name));
        if disposition == ProfileAcquisitionDisposition::ReuseExistingBrowser && (browser_id.is_none()
            || session_name.is_none()) {
            return Err(owned("profile_acquisition_reuse_route_incomplete"));
        }
        Ok(ProfileAcquisitionDecision {
            disposition,
            selected_profile_id: match selected_profile {
                Some(p) => Some(p.id.clone()),
                None => None,
            },
            browser_id,
            session_name,
            acquisition_blocker: clone_opt(&service.acquisition_blocker),
            policy_revision: admission.policy_revision,
            access_decision_id: admission.decision_id.clone(),
            client_subject_id: clone_opt(&admission.subject_id),
            identity_assurance: admission.identity_assurance.clone(),
            connection_instance_id: clone_opt(&admission.connection_instance_id),
            service_request_available: available,
            profile_reuse_action: reuse.recommended_action.clone(),
            profile_reuse_reasons: clone_strings(&reuse.reasons),
            replacement_eligible: replacement.replacement_eligible,
            replacement_session_name: clone_opt(&replacement.replacement_session_name),
            runtime_owner_registry_revision: replacement.registry_revision,
            owner_id: clone_opt(&replacement.owner_id),
            owner_generation: replacement.owner_generation,
        })
    }

    /// How the acquisition proceeds.
    pub fn disposition(&self) -> (r: ProfileAcquisitionDisposition)
        ensures
            r == self@.disposition,
    {
        self.disposition
    }

    /// The selected profile.
    pub fn selected_profile_id(&self) -> (r: Option<&str>)
        ensures
            os(r) == self@.selected_profile_id,
    {
        match &self.selected_profile_id {
            Some(s) => Some(s.as_str()),
            None => None,
        }
    }

    /// The browser a reuse is routed to.
    pub fn browser_id(&self) -> (r: Option<&str>)
        ensures
            os(r) == self@.browser_id,
    {
        match &self.browser_id {
            Some(s) => Some(s.as_str()),
            None => None,
        }
    }

    /// The daemon session the acquisition is routed through.
    pub fn session_name(&self) -> (r: Option<&str>)
        ensures
            os(r) == self@.session_name,
    {
        match &self.session_name {
            Some(s) => Some(s.as_str()),
            None => None,
        }
    }

    /// The blocker that dominates the acquisition.
    pub fn acquisition_blocker(&self) -> (r: Option<&str>)
        ensures
            os(r) == self@.acquisition_blocker,
    {
        match &self.acquisition_blocker {
            Some(s) => Some(s.as_str()),
            None => None,
        }
    }

    /// The launch route authorization for an authority and the command's session.
    fn launch_route_authorization(
        &self,
        authority: &AuthenticatedServicePrincipal,
        session: Option<&str>,
        kind: &str,
    ) -> (r: Option<RouteAuthorization>)
        ensures
            match r {
                Some(a) => authorization_spec(self@, *authority, os(session), kind@) == Some(a@),
                None => authorization_spec(self@, *authority, os(session), kind@) is None,
            },
    {
        let s = match session {
            Some(s) => s,
            None => return None,
        };
        if !same_text(Some(authority.profile_id.as_str()), &self.selected_profile_id) {
            return None;
        }
        Some(RouteAuthorization {
            kind: owned(kind),
            session_name: owned(s),
            profile_id: clone_opt(&self.selected_profile_id),
            principal_id: authority.principal_id.clone(),
            capability_id: authority.capability_id.clone(),
            capability_revision: authority.capability_revision,
            runtime_owner_registry_revision: self.runtime_owner_registry_revision,
            owner_id: clone_opt(&self.owner_id),
            owner_generation: self.owner_generation,
        })
    }

    /// The route the decision gives a command with the given `browserId`
    /// and `sessionName` string fields.
    pub fn route_command(
        &self,
        browser_hint: Option<&str>,
        session_hint: Option<&str>,
        authority: Option<&AuthenticatedServicePrincipal>,
    ) -> (r: Result<CommandRoute, String>)
        ensures
            ({
                let spec = route_spec(
                    self@,
                    os(browser_hint),
                    os(session_hint),
                    match authority {
                        Some(a) => Some(*a),
                        None => None,
                    },
                );
                match r {
                    Ok(route) => spec == Ok::<RouteView, Seq<char>>(route@),
                    Err(e) => spec == Err::<RouteView, Seq<char>>(e@),
                }
            }),
    {
        if !self.service_request_available {
            let blocker = match &self.acquisition_blocker {
                Some(b) => b.as_str(),
                None => "service_request_unavailable",
            };
            return Err(owned("service_access_plan_request_unavailable:").concat(blocker));
        }
        let has_browser = is_hint(browser_hint);
        let has_session = is_hint(session_hint);
        if self.disposition != ProfileAcquisitionDisposition::ReuseExistingBrowser {
            if has_browser != has_session {
                let exact_replacement = !has_browser && self.replacement_eligible && same_text(
                    session_hint,
                    &self.replacement_session_name,
                );
                let exact_cold = !has_browser && str_equal(self.profile_reuse_action.as_str(), "launch_new_browser")
                    && has_text(&self.profile_reuse_reasons, "explicit_authenticated_cold_route_selected")
                    && same_text(session_hint, &self.session_name);
                let exact_launch = !has_browser && self.replacement_eligible && has_text(
                    &self.profile_reuse_reasons,
                    "explicit_session_terminal_launch_selected",
                ) && same_text(session_hint, &self.session_name) && !same_text(
                    session_hint,
                    &self.replacement_session_name,
                );
                if !exact_replacement && !exact_cold && !exact_launch {
                    return Err(owned("service_access_plan_incomplete_route_hints"));
                }
                let kind = if exact_replacement { "terminal_replacement" } else { "authenticated_cold" };
                let route_authorization = match authority {
                    Some(a) => self.launch_route_authorization(a, session_hint, kind),
                    None => None,
                };
                return Ok(CommandRoute { browser_id: None, session_name: None, route_authorization });
            }
            let set_session = if !has_session { clone_opt(&self.session_name) } else { None };
            let planned: Option<&str> = match &set_session {
                Some(s) => Some(s.as_str()),
                None => session_hint,
            };
            let terminal = self.replacement_eligible && same_text(planned, &self.replacement_session_name)
                && self.replacement_session_name.is_some();
            let kind = if terminal { "terminal_replacement" } else { "authenticated_cold" };
            let route_authorization = match authority {
                Some(a) => self.launch_route_authorization(a, planned, kind),
                None => None,
            };
            return Ok(CommandRoute { browser_id: None, session_name: set_session, route_authorization });
        }
        let browser_id = match &self.browser_id {
            Some(b) => b.clone(),
            None => return Err(owned("service_access_plan_reuse_missing_browser_id")),
        };
        let session_name = match &self.session_name {
            Some(s) => s.clone(),
            None => return Err(owned("service_access_plan_reuse_missing_session_name")),
        };
        Ok(CommandRoute { browser_id: Some(browser_id), session_name: Some(session_name), route_authorization: None })
    }
}


/// The schema of a launch route authorization attached to a command.
pub const PROFILE_LAUNCH_ROUTE_AUTHORIZATION_SCHEMA_V1: &'static str =
    "agent-browser.profile-launch-route-authorization.v1";

/// Whether a member is the text `s`, or null without one.
pub open spec fn opt_text_json(v: Option<JsonValue>, s: Option<Seq<char>>) -> bool {
    match s {
        Some(t) => v matches Some(JsonValue::Str(x)) && x@ == t,
        None => v == Some(JsonValue::Null),
    }
}

/// Whether a member is the number `n`, or null without one.
pub open spec fn opt_u64_json(v: Option<JsonValue>, n: Option<u64>) -> bool {
    match n {
        Some(x) => v == Some(JsonValue::UInt(x)),
        None => v == Some(JsonValue::Null),
    }
}

/// Whether a member is the JSON object of a launch route authorization.
pub open spec fn authorization_json(v: Option<JsonValue>, a: AuthorizationView) -> bool {
    &&& v matches Some(o)
    &&& o is Object
    &&& field_str(o, "schemaVersion"@) == Some(PROFILE_LAUNCH_ROUTE_AUTHORIZATION_SCHEMA_V1@)
    &&& field_str(o, "kind"@) == Some(a.kind)
    &&& field_str(o, "sessionName"@) == Some(a.session_name)
    &&& opt_text_json(json_get(o, "profileId"@), a.profile_id)
    &&& field_str(o, "principalId"@) == Some(a.principal_id)
    &&& field_str(o, "capabilityId"@) == Some(a.capability_id)
    &&& json_get(o, "capabilityRevision"@) == Some(JsonValue::UInt(a.capability_revision))
    &&& opt_u64_json(json_get(o, "runtimeOwnerRegistryRevision"@), a.runtime_owner_registry_revision)
    &&& opt_text_json(json_get(o, "ownerId"@), a.owner_id)
    &&& opt_u64_json(json_get(o, "ownerGeneration"@), a.owner_generation)
}

/// A text member value, or null.
fn opt_text_value(o: &Option<String>) -> (r: JsonValue)
    ensures
        opt_text_json(Some(r), ov(*o)),
{
    match o {
        Some(s) => JsonValue::Str(s.clone()),
        None => JsonValue::Null,
    }
}

/// A number member value, or null.
fn opt_u64_value(o: Option<u64>) -> (r: JsonValue)
    ensures
        opt_u64_json(Some(r), o),
{
    match o {
        Some(n) => JsonValue::UInt(n),
        None => JsonValue::Null,
    }
}

/// The JSON object of a launch route authorization.
#[verifier::rlimit(40)]
pub fn authorization_object(a: &RouteAuthorization) -> (r: JsonValue)
    ensures
        authorization_json(Some(r), a@),
{
    proof {
        reveal_strlit("schemaVersion");
        reveal_strlit("kind");
        reveal_strlit("sessionName");
        reveal_strlit("profileId");
        reveal_strlit("principalId");
        reveal_strlit("capabilityId");
        reveal_strlit("capabilityRevision");
        reveal_strlit("runtimeOwnerRegistryRevision");
        reveal_strlit("ownerId");
        reveal_strlit("ownerGeneration");
        assert("schemaVersion"@.len() == 13);
        assert("kind"@.len() == 4);
        assert("sessionName"@.len() == 11 && "sessionName"@[0] == 's');
        assert("profileId"@.len() == 9);
        assert("principalId"@.len() == 11 && "principalId"@[0] == 'p');
        assert("capabilityId"@.len() == 12);
        assert("capabilityRevision"@.len() == 18);
        assert("runtimeOwnerRegistryRevision"@.len() == 28);
        assert("ownerId"@.len() == 7);
        assert("ownerGeneration"@.len() == 15);
    }
    let mut o = JsonValue::Object(Vec::new());
    set_member(&mut o, "schemaVersion", JsonValue::Str(owned(PROFILE_LAUNCH_ROUTE_AUTHORIZATION_SCHEMA_V1)));
    set_member(&mut o, "kind", JsonValue::Str(a.kind.clone()));
    set_member(&mut o, "sessionName", JsonValue::Str(a.session_name.clone()));
    set_member(&mut o, "profileId", opt_text_value(&a.profile_id));
    set_member(&mut o, "principalId", JsonValue::Str(a.principal_id.clone()));
    set_member(&mut o, "capabilityId", JsonValue::Str(a.capability_id.clone()));
    set_member(&mut o, "capabilityRevision", JsonValue::UInt(a.capability_revision));
    set_member(&mut o, "runtimeOwnerRegistryRevision", opt_u64_value(a.runtime_owner_registry_revision));
    set_member(&mut o, "ownerId", opt_text_value(&a.owner_id));
    set_member(&mut o, "ownerGeneration", opt_u64_value(a.owner_generation));
    o
}

/// The members route application may set on a service command.
pub open spec fn route_member(k: Seq<char>) -> bool {
    k == "policyRevision"@ || k == "accessDecisionId"@ || k == "identityAssurance"@ || k == "clientSubjectId"@
        || k == "connectionInstanceId"@ || k == "browserId"@ || k == "sessionName"@
        || k == "serviceProfileRouteAuthorization"@
}

/// Whether member `k` of `after` is the text `s` when there is one, and
/// unchanged from `before` otherwise.
pub open spec fn set_when_some(before: JsonValue, after: JsonValue, k: Seq<char>, s: Option<Seq<char>>) -> bool {
    match s {
        Some(t) => field_str(after, k) == Some(t),
        None => json_get(after, k) == json_get(before, k),
    }
}

/// An optional owned text as an optional borrowed one.
fn as_opt_str(o: &Option<String>) -> (r: Option<&str>)
    ensures
        os(r) == ov(*o),
{
    match o {
        Some(s) => Some(s.as_str()),
        None => None,
    }
}

/// An owned copy of a command's string member.
fn member_text(command: &JsonValue, key: &str) -> (r: Option<String>)
    ensures
        ov(r) == field_str(*command, key@),
{
    match command.field_str(key) {
        Some(s) => Some(owned(s)),
        None => None,
    }
}

impl ProfileAcquisitionDecision {
    /// Applies the joined decision to a service command: it always stamps
    /// the admission's policy revision, decision id, assurance, subject and
    /// connection, then sets the route that `route_command` gives for the
    /// command's own route hints, or fails as it does. No other member
    /// changes. The profile child-access projection is attached by the caller.
    #[verifier::rlimit(80)]
    pub fn apply_to_service_command(
        &self,
        command: &mut JsonValue,
        authority: Option<&AuthenticatedServicePrincipal>,
    ) -> (r: Result<(), String>)
        requires
            *old(command) is Object,
        ensures
            ({
                let before = *old(command);
                let after = *final(command);
                let route = route_spec(
                    self@,
                    field_str(before, "browserId"@),
                    field_str(before, "sessionName"@),
                    match authority {
                        Some(a) => Some(*a),
                        None => None,
                    },
                );
                &&& after is Object
                &&& json_get(after, "policyRevision"@) == Some(JsonValue::UInt(self@.policy_revision))
                &&& field_str(after, "accessDecisionId"@) == Some(self@.access_decision_id)
                &&& field_str(after, "identityAssurance"@) == Some(self@.identity_assurance)
                &&& set_when_some(before, after, "clientSubjectId"@, self@.client_subject_id)
                &&& set_when_some(before, after, "connectionInstanceId"@, self@.connection_instance_id)
                &&& match route {
                    Ok(rt) => {
                        &&& r is Ok
                        &&& set_when_some(before, after, "browserId"@, rt.browser_id)
                        &&& set_when_some(before, after, "sessionName"@, rt.session_name)
                        &&& match rt.route_authorization {
                            Some(a) => authorization_json(json_get(after, "serviceProfileRouteAuthorization"@), a),
                            None => json_get(after, "serviceProfileRouteAuthorization"@) == json_get(
                                before,
                                "serviceProfileRouteAuthorization"@,
                            ),
                        }
                    },
                    Err(e) => {
                        &&& r matches Err(x) && x@ == e
                        &&& json_get(after, "browserId"@) == json_get(before, "browserId"@)
                        &&& json_get(after, "sessionName"@) == json_get(before, "sessionName"@)
                        &&& json_get(after, "serviceProfileRouteAuthorization"@) == json_get(
                            before,
                            "serviceProfileRouteAuthorization"@,
                        )
                    },
                }
                &&& forall|k: Seq<char>| !route_member(k) ==> #[trigger] json_get(after, k) == json_get(before, k)
            }),
    {
        proof {
            reveal_strlit("policyRevision");
            reveal_strlit("accessDecisionId");
            reveal_strlit("identityAssurance");
            reveal_strlit("clientSubjectId");
            reveal_strlit("connectionInstanceId");
            reveal_strlit("browserId");
            reveal_strlit("sessionName");
            reveal_strlit("serviceProfileRouteAuthorization");
            assert("policyRevision"@.len() == 14);
            assert("accessDecisionId"@.len() == 16);
            assert("identityAssurance"@.len() == 17);
            assert("clientSubjectId"@.len() == 15);
            assert("connectionInstanceId"@.len() == 20);
            assert("browserId"@.len() == 9);
            assert("sessionName"@.len() == 11);
            assert("serviceProfileRouteAuthorization"@.len() == 32);
        }
        let ghost before = *command;
        let browser_hint = member_text(command, "browserId");
        let session_hint = member_text(command, "sessionName");
        set_member(command, "policyRevision", JsonValue::UInt(self.policy_revision));
        set_member(command, "accessDecisionId", JsonValue::Str(self.access_decision_id.clone()));
        set_member(command, "identityAssurance", JsonValue::Str(self.identity_assurance.clone()));
        if let Some(subject) = &self.client_subject_id {
            set_member(command, "clientSubjectId", JsonValue::Str(subject.clone()));
        }
        if let Some(connection) = &self.connection_instance_id {
            set_member(command, "connectionInstanceId", JsonValue::Str(connection.clone()));
        }
        let ghost stamped = *command;
        assert(forall|k: Seq<char>| !route_member(k) ==> #[trigger] json_get(stamped, k) == json_get(before, k));
        let route = match self.route_command(as_opt_str(&browser_hint), as_opt_str(&session_hint), authority) {
            Ok(route) => route,
            Err(e) => return Err(e),
        };
        if let Some(browser_id) = &route.browser_id {
            set_member(command, "browserId", JsonValue::Str(browser_id.clone()));
        }
        if let Some(session_name) = &route.session_name {
            set_member(command, "sessionName", JsonValue::Str(session_name.clone()));
        }
        if let Some(authorization) = &route.route_authorization {
            let object = authorization_object(authorization);
            set_member(command, "serviceProfileRouteAuthorization", object);
        }
        Ok(())
    }
}


/// An acquisition's parts and the decision joined from them.
pub struct ProfileAcquisitionPlan {
    pub profile_reuse: ProfileReuse,
    pub lifecycle_replacement: LifecycleReplacement,
    pub service_request: ServiceRequestDecision,
    /// The joined decision, or why the parts do not cohere.
    pub decision: Result<ProfileAcquisitionDecision, String>,
}

/// Selects the profile owner, the dominant blocker and the executable
/// daemon route once. The access admission and whether strict identity is
/// required come from the profile's access policy; the active claim and the
/// current boot epoch are observed by the caller.
#[verifier::rlimit(40)]
pub fn decide_profile_acquisition(
    request: &ServiceAccessPlanRequest,
    selected_profile: Option<&BrowserProfile>,
    state: &ServiceState,
    denied: bool,
    manual_seeding_required: bool,
    manual_action_required: bool,
    posture: &LaunchPosture,
    recommendation: &ProfileRecommendation,
    authority: Option<&AuthenticatedServicePrincipal>,
    admission: &AccessAdmission,
    strict_identity_required: bool,
    active_claim: &Option<ActiveLeaseClaim>,
    current_boot_epoch: &Option<String>,
) -> (r: ProfileAcquisitionPlan)
    ensures
        ({
            let profile = match selected_profile {
                Some(p) => Some(*p),
                None => None,
            };
            let auth = match authority {
                Some(a) => Some(*a),
                None => None,
            };
            let reuse = r.profile_reuse;
            let replacement = r.lifecycle_replacement;
            let joined = joined_decision(profile, *admission, reuse, replacement, r.service_request);
            &&& replacement@ == replacement_spec(profile, *state)
            &&& reuse_decided(
                reuse,
                *request,
                profile,
                *state,
                ov(posture.browser_host),
                manual_seeding_required,
                replacement,
                auth,
                strict_identity_required,
                *active_claim,
                ov(*current_boot_epoch),
            )
            &&& service_request_decided(
                r.service_request,
                *request,
                profile,
                denied,
                manual_seeding_required,
                manual_action_required,
                *posture,
                reuse,
                replacement,
                *recommendation,
                acquisition_blocker_spec(
                    admission.allowed,
                    reuse.recommended_action@,
                    auth is Some,
                    replacement.replacement_eligible,
                    replacement.reason@,
                ),
                auth,
                *admission,
            )
            &&& match r.decision {
                Ok(d) => d@ == joined,
                Err(e) => e@ == "profile_acquisition_reuse_route_incomplete"@ && joined.disposition
                    == ProfileAcquisitionDisposition::ReuseExistingBrowser && (joined.browser_id is None
                    || joined.session_name is None),
            }
        }),
{
    let lifecycle_replacement = lifecycle_replacement_decision(selected_profile, state);
    let profile_reuse = profile_reuse_decision(
        request,
        selected_profile,
        state,
        &posture.browser_host,
        manual_seeding_required,
        &lifecycle_replacement,
        authority,
        strict_identity_required,
        active_claim,
        current_boot_epoch,
    );
    let blocker = acquisition_blocker(admission, &profile_reuse, authority.is_some(), &lifecycle_replacement);
    let service_request = service_request_decision(
        request,
        selected_profile,
        denied,
        manual_seeding_required,
        manual_action_required,
        posture,
        &profile_reuse,
        &lifecycle_replacement,
        recommendation,
        blocker,
        authority,
        admission,
    );
    let decision = ProfileAcquisitionDecision::from_components(
        selected_profile,
        admission,
        &profile_reuse,
        &lifecycle_replacement,
        &service_request,
    );
    ProfileAcquisitionPlan { profile_reuse, lifecycle_replacement, service_request, decision }
}


/// How strongly a subject's identity is established, weakest first.
#[derive(PartialEq, Eq, Structural, Clone, Copy)]
pub enum ProfileIdentityAssurance {
    Unknown,
    SelfDeclared,
    AuthenticatedIngress,
    RegisteredCapability,
    Operator,
}

/// The strength of an identity assurance.
pub open spec fn assurance_rank(a: ProfileIdentityAssurance) -> int {
    match a {
        ProfileIdentityAssurance::Unknown => 0,
        ProfileIdentityAssurance::SelfDeclared => 1,
        ProfileIdentityAssurance::AuthenticatedIngress => 2,
        ProfileIdentityAssurance::RegisteredCapability => 3,
        ProfileIdentityAssurance::Operator => 4,
    }
}

/// Whether an assurance is at least as strong as a required one.
pub open spec fn assurance_satisfies(a: ProfileIdentityAssurance, required: ProfileIdentityAssurance) -> bool {
    assurance_rank(a) >= assurance_rank(required)
}

/// The strength of an identity assurance.
fn rank_of(a: ProfileIdentityAssurance) -> (n: u8)
    ensures
        n as int == assurance_rank(a),
{
    match a {
        ProfileIdentityAssurance::Unknown => 0,
        ProfileIdentityAssurance::SelfDeclared => 1,
        ProfileIdentityAssurance::AuthenticatedIngress => 2,
        ProfileIdentityAssurance::RegisteredCapability => 3,
        ProfileIdentityAssurance::Operator => 4,
    }
}

impl ProfileIdentityAssurance {
    /// Whether this assurance is at least as strong as `required`.
    pub fn satisfies(self, required: ProfileIdentityAssurance) -> (r: bool)
        ensures
            r == assurance_satisfies(self, required),
    {
        rank_of(self) >= rank_of(required)
    }
}

/// What a profile access evaluation is asked about a `tab_create`.
pub struct ProfileAccessQuery {
    pub profile_id: String,
    pub subject_id: Option<String>,
    pub assurance: ProfileIdentityAssurance,
    /// Sessions that hold the profile exclusively for another subject, in key order.
    pub incompatible_occupancy: Vec<String>,
}

/// The profile an access evaluation concerns: the selected profile, else
/// the requested one, else `unselected`.
pub open spec fn access_profile_id(request: ServiceAccessPlanRequest, profile: Option<BrowserProfile>) -> Seq<char> {
    match profile {
        Some(p) => p.id@,
        None => match ov(request.runtime_profile) {
            Some(r) => r,
            None => "unselected"@,
        },
    }
}

/// The subject of an access evaluation: the authenticated principal, else
/// the declared client subject, else the self-declared labels.
pub open spec fn access_subject(
    request: ServiceAccessPlanRequest,
    authority: Option<AuthenticatedServicePrincipal>,
) -> Option<Seq<char>> {
    match authority {
        Some(a) => Some(a.principal_id@),
        None => match ov(request.client_subject_id) {
            Some(c) => Some(c),
            None => self_declared_subject_spec(
                ov(request.service_name),
                ov(request.agent_name),
                ov(request.task_name),
            ),
        },
    }
}

/// Whether a session holds a profile exclusively for someone other than `subject`.
pub open spec fn incompatible_session(
    s: BrowserSession,
    profile_id: Seq<char>,
    subject: Option<Seq<char>>,
    boot: Option<Seq<char>>,
) -> bool {
    blocks_reuse(s, profile_id, boot) && ov(s.principal_id) != subject
}

/// The ids of the sessions that hold a profile exclusively for someone else.
pub open spec fn incompatible_ids(
    sessions: Seq<BrowserSession>,
    profile_id: Seq<char>,
    subject: Option<Seq<char>>,
    boot: Option<Seq<char>>,
) -> Seq<Seq<char>> {
    sessions.filter(|s: BrowserSession| incompatible_session(s, profile_id, subject, boot)).map_values(
        |s: BrowserSession| s.id@,
    )
}

/// Whether an optional owned text equals an optional borrowed one.
fn eq_opt(a: &Option<String>, b: &Option<String>) -> (r: bool)
    ensures
        r == (ov(*a) == ov(*b)),
{
    match (a, b) {
        (Some(x), Some(y)) => str_equal(x.as_str(), y.as_str()),
        (None, None) => true,
        _ => false,
    }
}

/// The query a profile access evaluation answers for an access plan: which
/// profile, which subject and how strongly it is known, and which sessions
/// occupy the profile for someone else. A caller's own assurance label is
/// never taken: assurance comes from authentication alone.
pub fn profile_access_query(
    request: &ServiceAccessPlanRequest,
    selected_profile: Option<&BrowserProfile>,
    state: &ServiceState,
    authority: Option<&AuthenticatedServicePrincipal>,
    current_boot_epoch: &Option<String>,
) -> (r: ProfileAccessQuery)
    ensures
        ({
            let profile = match selected_profile {
                Some(p) => Some(*p),
                None => None,
            };
            let auth = match authority {
                Some(a) => Some(*a),
                None => None,
            };
            let subject = access_subject(*request, auth);
            &&& r.profile_id@ == access_profile_id(*request, profile)
            &&& ov(r.subject_id) == subject
            &&& r.assurance == (if auth is Some {
                ProfileIdentityAssurance::RegisteredCapability
            } else if subject is Some {
                ProfileIdentityAssurance::SelfDeclared
            } else {
                ProfileIdentityAssurance::Unknown
            })
            &&& strs(r.incompatible_occupancy@) == incompatible_ids(
                state.sessions@,
                access_profile_id(*request, profile),
                subject,
                ov(*current_boot_epoch),
            )
        }),
{
    let profile_id: String = match selected_profile {
        Some(p) => p.id.clone(),
        None => match &request.runtime_profile {
            Some(r) => r.clone(),
            None => owned("unselected"),
        },
    };
    let subject_id = match authority {
        Some(a) => Some(a.principal_id.clone()),
        None => match &request.client_subject_id {
            Some(c) => Some(c.clone()),
            None => self_declared_subject(request),
        },
    };
    let assurance = if authority.is_some() {
        ProfileIdentityAssurance::RegisteredCapability
    } else if subject_id.is_some() {
        ProfileIdentityAssurance::SelfDeclared
    } else {
        ProfileIdentityAssurance::Unknown
    };
    let ghost subject = ov(subject_id);
    let ghost pred = |s: BrowserSession| incompatible_session(s, profile_id@, subject, ov(*current_boot_epoch));
    let sessions = &state.sessions;
    let mut occupancy: Vec<String> = Vec::new();
    let mut i: usize = 0;
    while i < sessions.len()
        invariant
            i <= sessions@.len(),
            sessions == &state.sessions,
            pred == (|s: BrowserSession| incompatible_session(s, profile_id@, subject, ov(*current_boot_epoch))),
            subject == ov(subject_id),
            strs(occupancy@) == sessions@.take(i as int).filter(pred).map_values(|s: BrowserSession| s.id@),
        decreases sessions@.len() - i,
    {
        proof {
            crate::seqs::lemma_filter_take_step(sessions@, pred, i as int);
        }
        let s = &sessions[i];
        if session_blocks_profile_reuse(s, profile_id.as_str(), current_boot_epoch) && !eq_opt(&s.principal_id, &subject_id) {
            let id = s.id.clone();
            proof {
                crate::lease::lemma_strs_push(occupancy@, id);
            }
            occupancy.push(id);
        }
        proof {
            let t = sessions@.take(i + 1).filter(pred);
            assert(t.map_values(|s: BrowserSession| s.id@) =~= strs(occupancy@));
        }
        i = i + 1;
    }
    proof {
        assert(sessions@.take(sessions@.len() as int) =~= sessions@);
    }
    ProfileAccessQuery { profile_id, subject_id, assurance, incompatible_occupancy: occupancy }
}

} // verus!
