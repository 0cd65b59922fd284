//! Which live browser an access request may reuse for a profile, and what
//! blocks reuse.

use vstd::prelude::*;
use crate::acquisition::{
    authenticated_cold_session_name, blocks_reuse, browser_has_live_health,
    browser_is_reusable_for_posture, cold_session_name_spec, live_health, posture_of, reusable_for_posture,
    reusable_session_name_for_browser, reusable_session_name_spec, session_blocks_profile_reuse,
    terminal_launch_name_spec, terminal_replacement_launch_session_name, LifecycleReplacement,
    ReuseConstraints, ServiceAccessPlanRequest,
};
use crate::lease::{contains_text, lemma_strs_push};
use crate::model::{
    get_keyed, lookup, opt_eq, opt_is, ov, AuthenticatedServicePrincipal, BrowserProcess,
    BrowserProfile, BrowserSession, ServiceState,
};
use crate::seqs::{insert_sorted_unique, lemma_filter_take_step, lemma_take_full, strictly_sorted};
use crate::text::{owned, str_equal, strs};

verus! {

/// The active canonical claim on a profile, as the lease authority reports it.
pub struct ActiveLeaseClaim {
    pub claim_id: String,
    pub revision: u64,
    pub fencing_token: u64,
    pub principal_id: String,
}

/// The ids of the live browsers of a profile, in key order.
pub open spec fn live_ids(state: ServiceState, profile_id: Seq<char>, boot: Option<Seq<char>>) -> Seq<Seq<char>> {
    state.browsers@.filter(|b: BrowserProcess| opt_is(b.profile_id, profile_id) && live_health(b, boot)).map_values(
        |b: BrowserProcess| b.id@,
    )
}

/// The ids of the browsers of a profile that meet the request's
/// constraints, in key order.
pub open spec fn candidate_ids(
    state: ServiceState,
    profile_id: Seq<char>,
    request: ServiceAccessPlanRequest,
    boot: Option<Seq<char>>,
) -> Seq<Seq<char>> {
    state.browsers@.filter(
        |b: BrowserProcess| opt_is(b.profile_id, profile_id) && reusable_for_posture(
            b,
            ov(request.browser_host),
            ov(request.view_stream_provider),
            ov(request.control_input_provider),
            ov(request.display_isolation),
            boot,
        ),
    ).map_values(|b: BrowserProcess| b.id@)
}

/// Whether a session blocks reuse and is bound to some principal.
pub open spec fn bound_session(s: BrowserSession, profile_id: Seq<char>, boot: Option<Seq<char>>) -> bool {
    blocks_reuse(s, profile_id, boot) && s.principal_id is Some
}

/// Whether a session blocks reuse and is bound to a principal other than `principal_id`.
pub open spec fn foreign_session(
    s: BrowserSession,
    profile_id: Seq<char>,
    principal_id: Seq<char>,
    boot: Option<Seq<char>>,
) -> bool {
    blocks_reuse(s, profile_id, boot) && (s.principal_id matches Some(p) && p@ != principal_id)
}

/// The ids of the principal-bound sessions that block reuse, in key order.
pub open spec fn bound_ids(state: ServiceState, profile_id: Seq<char>, boot: Option<Seq<char>>) -> Seq<Seq<char>> {
    state.sessions@.filter(|s: BrowserSession| bound_session(s, profile_id, boot)).map_values(
        |s: BrowserSession| s.id@,
    )
}

/// The ids of the foreign-principal sessions that block reuse, in key order.
pub open spec fn foreign_ids(
    state: ServiceState,
    profile_id: Seq<char>,
    principal_id: Seq<char>,
    boot: Option<Seq<char>>,
) -> Seq<Seq<char>> {
    state.sessions@.filter(|s: BrowserSession| foreign_session(s, profile_id, principal_id, boot)).map_values(
        |s: BrowserSession| s.id@,
    )
}

/// Whether browser `b`, listed by a same-principal session that blocks
/// reuse, is recorded for another profile.
pub open spec fn mismatched_browser(
    state: ServiceState,
    profile_id: Seq<char>,
    principal_id: Seq<char>,
    boot: Option<Seq<char>>,
    b: Seq<char>,
) -> bool {
    &&& exists|i: int| {
        &&& 0 <= i < state.sessions@.len()
        &&& blocks_reuse(#[trigger] state.sessions@[i], profile_id, boot)
        &&& opt_is(state.sessions@[i].principal_id, principal_id)
        &&& strs(state.sessions@[i].browser_ids@).contains(b)
    }
    &&& lookup(state.browsers@, b) matches Some(br)
    &&& !opt_is(br.profile_id, profile_id)
}

/// Whether a session that blocks reuse lists none of the reusable browsers.
pub open spec fn conflicting_session(
    s: BrowserSession,
    profile_id: Seq<char>,
    reusable: Seq<Seq<char>>,
    boot: Option<Seq<char>>,
) -> bool {
    blocks_reuse(s, profile_id, boot) && !(exists|k: int|
        0 <= k < s.browser_ids@.len() && reusable.contains(#[trigger] s.browser_ids@[k]@))
}

/// The ids of the sessions that block reuse and list no reusable browser.
pub open spec fn conflict_ids(
    state: ServiceState,
    profile_id: Seq<char>,
    reusable: Seq<Seq<char>>,
    boot: Option<Seq<char>>,
) -> Seq<Seq<char>> {
    state.sessions@.filter(|s: BrowserSession| conflicting_session(s, profile_id, reusable, boot)).map_values(
        |s: BrowserSession| s.id@,
    )
}

/// How a request's explicit daemon session is resolved.
#[derive(PartialEq, Eq, Structural, Clone, Copy)]
pub enum ExplicitRoute {
    Absent,
    Selected,
    TerminalReplacement,
    TerminalLaunch,
    AuthenticatedCold,
    NotFound,
    Ambiguous,
    Incompatible,
}

/// How a request's explicit daemon session `name` is resolved against the
/// reusable browsers.
pub open spec fn explicit_kind(
    state: ServiceState,
    name: Option<Seq<char>>,
    replacement_name: Option<Seq<char>>,
    launch_name: Option<Seq<char>>,
    cold_name: Option<Seq<char>>,
    reusable: Seq<Seq<char>>,
) -> ExplicitRoute {
    match name {
        None => ExplicitRoute::Absent,
        Some(n) => match lookup(state.sessions@, n) {
            None => if replacement_name == Some(n) {
                ExplicitRoute::TerminalReplacement
            } else if launch_name == Some(n) {
                ExplicitRoute::TerminalLaunch
            } else if cold_name == Some(n) {
                ExplicitRoute::AuthenticatedCold
            } else {
                ExplicitRoute::NotFound
            },
            Some(s) => if s.browser_ids@.len() != 1 {
                ExplicitRoute::Ambiguous
            } else if reusable.contains(s.browser_ids@[0]@) {
                ExplicitRoute::Selected
            } else {
                ExplicitRoute::Incompatible
            },
        },
    }
}

/// The browser an explicit session names.
pub open spec fn explicit_browser(state: ServiceState, name: Seq<char>) -> Seq<char> {
    lookup(state.sessions@, name)->0.browser_ids@[0]@
}

/// The refusal code of an explicit session route, if it is refused.
pub open spec fn explicit_error(kind: ExplicitRoute) -> Option<Seq<char>> {
    match kind {
        ExplicitRoute::NotFound => Some("explicit_session_not_found"@),
        ExplicitRoute::Ambiguous => Some("explicit_session_browser_mapping_ambiguous"@),
        ExplicitRoute::Incompatible => Some("explicit_session_browser_not_compatible"@),
        _ => None,
    }
}

/// The reason an explicit session route adds, when one is present.
pub open spec fn explicit_code(kind: ExplicitRoute) -> Seq<char> {
    match kind {
        ExplicitRoute::Absent => Seq::empty(),
        ExplicitRoute::Selected => "explicit_session_route_selected"@,
        ExplicitRoute::TerminalReplacement => "explicit_session_terminal_replacement_selected"@,
        ExplicitRoute::TerminalLaunch => "explicit_session_terminal_launch_selected"@,
        ExplicitRoute::AuthenticatedCold => "explicit_authenticated_cold_route_selected"@,
        _ => explicit_error(kind)->0,
    }
}

/// The reason an explicit session route adds, when one is present.
fn explicit_code_str(kind: ExplicitRoute) -> (r: &'static str)
    ensures
        kind != ExplicitRoute::Absent ==> r@ == explicit_code(kind),
{
    match kind {
        ExplicitRoute::Absent => "",
        ExplicitRoute::Selected => "explicit_session_route_selected",
        ExplicitRoute::TerminalReplacement => "explicit_session_terminal_replacement_selected",
        ExplicitRoute::TerminalLaunch => "explicit_session_terminal_launch_selected",
        ExplicitRoute::AuthenticatedCold => "explicit_authenticated_cold_route_selected",
        ExplicitRoute::NotFound => "explicit_session_not_found",
        ExplicitRoute::Ambiguous => "explicit_session_browser_mapping_ambiguous",
        ExplicitRoute::Incompatible => "explicit_session_browser_not_compatible",
    }
}

/// A reason when its condition holds.
pub open spec fn when(cond: bool, code: Seq<char>) -> Set<Seq<char>> {
    if cond { set![code] } else { Set::empty() }
}

/// The facts a reuse decision is made from.
pub struct ReuseFacts {
    pub claim_requires_authentication: bool,
    pub claim_is_foreign: bool,
    pub candidates: Seq<Seq<char>>,
    pub bound: Seq<Seq<char>>,
    pub foreign: Seq<Seq<char>>,
    pub mismatch: Set<Seq<char>>,
    pub capability_mismatch: bool,
    pub reusable_before_route: Seq<Seq<char>>,
    pub kind: ExplicitRoute,
    pub reusable: Seq<Seq<char>>,
    pub live: Seq<Seq<char>>,
    pub conflicts: Set<Seq<char>>,
    pub identity_inconsistent: bool,
}

/// The facts a reuse decision for a profile is made from.
pub open spec fn reuse_facts(
    request: ServiceAccessPlanRequest,
    profile: BrowserProfile,
    state: ServiceState,
    replacement: LifecycleReplacement,
    authority: Option<AuthenticatedServicePrincipal>,
    strict: bool,
    claim: Option<ActiveLeaseClaim>,
    boot: Option<Seq<char>>,
) -> ReuseFacts {
    let pid = profile.id@;
    let claim_requires_authentication = claim is Some && authority is None;
    let claim_is_foreign = claim matches Some(c) && authority matches Some(a) && c.principal_id@ != a.principal_id@;
    let candidates = candidate_ids(state, pid, request, boot);
    let all_bound = bound_ids(state, pid, boot);
    let foreign = if strict && authority is Some {
        foreign_ids(state, pid, authority->0.principal_id@, boot)
    } else {
        Seq::empty()
    };
    let mismatch = if strict && authority is Some {
        Set::new(|b: Seq<char>| mismatched_browser(state, pid, authority->0.principal_id@, boot, b))
    } else {
        Set::empty()
    };
    let capability_mismatch = strict && (authority matches Some(a) && a.profile_id@ != pid);
    let cleared = if strict {
        if authority is Some {
            foreign.len() > 0 || capability_mismatch || claim_is_foreign
        } else {
            all_bound.len() > 0 || claim_requires_authentication
        }
    } else {
        false
    };
    let reusable_before_route = if cleared { Seq::empty() } else { candidates };
    let launch_name = if replacement.replacement_eligible && replacement.logical_browser_id is Some
        && replacement.owner_generation is Some {
        Some(terminal_launch_name_spec(pid, replacement.logical_browser_id->0@, replacement.owner_generation->0))
    } else {
        None
    };
    let cold_name = match authority {
        Some(a) => cold_session_name_spec(a.principal_id@, a.profile_id@, pid),
        None => None,
    };
    let kind = explicit_kind(
        state,
        ov(request.session_name),
        ov(replacement.replacement_session_name),
        launch_name,
        cold_name,
        reusable_before_route,
    );
    let reusable = match kind {
        ExplicitRoute::Selected => reusable_before_route.filter(
            |id: Seq<char>| id == explicit_browser(state, request.session_name->0@),
        ),
        ExplicitRoute::Incompatible => Seq::empty(),
        _ => reusable_before_route,
    };
    ReuseFacts {
        claim_requires_authentication,
        claim_is_foreign,
        candidates,
        bound: if strict { all_bound } else { Seq::empty() },
        foreign,
        mismatch,
        capability_mismatch,
        reusable_before_route,
        kind,
        reusable,
        live: live_ids(state, pid, boot),
        conflicts: conflict_ids(state, pid, reusable, boot).to_set() + foreign.to_set(),
        identity_inconsistent: capability_mismatch || !mismatch.is_empty(),
    }
}

/// The action a reuse decision recommends.
pub open spec fn reuse_action(
    f: ReuseFacts,
    manual_seeding_required: bool,
    strict: bool,
    authenticated: bool,
    conflict_count: nat,
) -> Seq<char> {
    if manual_seeding_required {
        "seed_profile_before_reuse"@
    } else if explicit_error(f.kind) is Some {
        "blocked_by_explicit_session_route"@
    } else if strict && (f.foreign.len() > 0 || f.claim_is_foreign) {
        "wait_for_foreign_principal"@
    } else if strict && !authenticated && (f.bound.len() > 0 || f.claim_requires_authentication) {
        "authenticate_for_profile_reuse"@
    } else if f.identity_inconsistent {
        "lifecycle_profile_identity_inconsistent"@
    } else if f.reusable.len() > 0 {
        "reuse_existing_browser"@
    } else if conflict_count > 0 {
        "wait_for_profile_lease"@
    } else {
        "launch_new_browser"@
    }
}

/// The reasons a reuse decision gives, from the facts it weighs.
pub open spec fn reasons_from(
    manual_seeding_required: bool,
    reusable_count: nat,
    conflict_count: nat,
    foreign_count: nat,
    claim_present: bool,
    claim_is_foreign: bool,
    authentication_needed: bool,
    identity_inconsistent: bool,
    capability_mismatch: bool,
    live_count: nat,
    host_requested: bool,
    byop_host_unconstrained: bool,
    view_stream_requested: bool,
    control_input_requested: bool,
    display_isolation_requested: bool,
    kind: ExplicitRoute,
) -> Set<Seq<char>> {
    when(manual_seeding_required, "manual_seeding_required"@)
        + when(true, if reusable_count == 0 { "no_compatible_live_browser"@ } else { "compatible_live_browser_available"@ })
        + when(true, if conflict_count == 0 { "no_active_profile_lease_conflict"@ } else { "active_profile_lease_conflict"@ })
        + when(foreign_count > 0, "foreign_principal_profile_lease"@)
        + when(claim_present, "canonical_active_profile_claim"@)
        + when(claim_is_foreign, "foreign_principal_active_claim"@)
        + when(authentication_needed, "profile_capability_required"@)
        + when(identity_inconsistent, "lifecycle_profile_identity_inconsistent"@)
        + when(capability_mismatch, "profile_capability_profile_mismatch"@)
        + when(live_count > 1, "duplicate_live_browsers_for_profile"@)
        + when(conflict_count > 1, "duplicate_active_leases_for_profile"@)
        + when(host_requested, "browser_host_constrained_by_request"@)
        + when(!host_requested && byop_host_unconstrained, "external_byop_browser_host_unconstrained"@)
        + when(view_stream_requested, "view_stream_constrained_by_request"@)
        + when(control_input_requested, "control_input_constrained_by_request"@)
        + when(display_isolation_requested, "display_isolation_constrained_by_request"@)
        + when(kind != ExplicitRoute::Absent, explicit_code(kind))
}

/// The reasons a reuse decision gives.
pub open spec fn reuse_reasons(
    f: ReuseFacts,
    request: ServiceAccessPlanRequest,
    profile: BrowserProfile,
    launch_browser_host: Option<Seq<char>>,
    manual_seeding_required: bool,
    strict: bool,
    authenticated: bool,
    claim_present: bool,
    conflict_count: nat,
) -> Set<Seq<char>> {
    reasons_from(
        manual_seeding_required,
        f.reusable.len(),
        conflict_count,
        f.foreign.len(),
        claim_present,
        f.claim_is_foreign,
        strict && !authenticated && (f.bound.len() > 0 || f.claim_requires_authentication),
        f.identity_inconsistent,
        f.capability_mismatch,
        f.live.len(),
        request.browser_host is Some,
        profile.profile_origin@ == "external_byop"@ && launch_browser_host is Some,
        request.view_stream_provider is Some,
        request.control_input_provider is Some,
        request.display_isolation is Some,
        f.kind,
    )
}

/// The ids of the live browsers of a profile, in key order.
fn live_browser_ids(state: &ServiceState, profile_id: &str, boot: &Option<String>) -> (r: Vec<String>)
    ensures
        strs(r@) == live_ids(*state, profile_id@, ov(*boot)),
{
    let browsers = &state.browsers;
    let ghost pred = |b: BrowserProcess| opt_is(b.profile_id, profile_id@) && live_health(b, ov(*boot));
    let mut out: Vec<String> = Vec::new();
    let mut i: usize = 0;
    while i < browsers.len()
        invariant
            i <= browsers@.len(),
            browsers == &state.browsers,
            pred == (|b: BrowserProcess| opt_is(b.profile_id, profile_id@) && live_health(b, ov(*boot))),
            strs(out@) == browsers@.take(i as int).filter(pred).map_values(|b: BrowserProcess| b.id@),
        decreases browsers@.len() - i,
    {
        proof {
            lemma_filter_take_step(browsers@, pred, i as int);
        }
        let b = &browsers[i];
        if opt_eq(&b.profile_id, profile_id) && browser_has_live_health(b, boot) {
            let id = b.id.clone();
            proof {
                lemma_strs_push(out@, id);
                crate::lease::lemma_map_push(browsers@.take(i as int).filter(pred), *b, |b: BrowserProcess| b.id@);
            }
            out.push(id);
        }
        i = i + 1;
    }
    proof {
        lemma_take_full(browsers@);
    }
    out
}

/// The ids of the browsers of a profile that meet the constraints, in key order.
fn candidate_browser_ids(
    state: &ServiceState,
    profile_id: &str,
    request: &ServiceAccessPlanRequest,
    constraints: &ReuseConstraints,
    boot: &Option<String>,
) -> (r: Vec<String>)
    requires
        ov(constraints.browser_host) == ov(request.browser_host),
        ov(constraints.view_stream_provider) == ov(request.view_stream_provider),
        ov(constraints.control_input_provider) == ov(request.control_input_provider),
        ov(constraints.display_isolation) == ov(request.display_isolation),
    ensures
        strs(r@) == candidate_ids(*state, profile_id@, *request, ov(*boot)),
{
    let browsers = &state.browsers;
    let ghost pred = |b: BrowserProcess| opt_is(b.profile_id, profile_id@) && reusable_for_posture(
        b,
        ov(request.browser_host),
        ov(request.view_stream_provider),
        ov(request.control_input_provider),
        ov(request.display_isolation),
        ov(*boot),
    );
    let mut out: Vec<String> = Vec::new();
    let mut i: usize = 0;
    while i < browsers.len()
        invariant
            i <= browsers@.len(),
            browsers == &state.browsers,
            ov(constraints.browser_host) == ov(request.browser_host),
            ov(constraints.view_stream_provider) == ov(request.view_stream_provider),
            ov(constraints.control_input_provider) == ov(request.control_input_provider),
            ov(constraints.display_isolation) == ov(request.display_isolation),
            pred == (|b: BrowserProcess| opt_is(b.profile_id, profile_id@) && reusable_for_posture(
                b,
                ov(request.browser_host),
                ov(request.view_stream_provider),
                ov(request.control_input_provider),
                ov(request.display_isolation),
                ov(*boot),
            )),
            strs(out@) == browsers@.take(i as int).filter(pred).map_values(|b: BrowserProcess| b.id@),
        decreases browsers@.len() - i,
    {
        proof {
            lemma_filter_take_step(browsers@, pred, i as int);
        }
        let b = &browsers[i];
        if opt_eq(&b.profile_id, profile_id) && browser_is_reusable_for_posture(b, constraints, boot) {
            let id = b.id.clone();
            proof {
                lemma_strs_push(out@, id);
                crate::lease::lemma_map_push(browsers@.take(i as int).filter(pred), *b, |b: BrowserProcess| b.id@);
            }
            out.push(id);
        }
        i = i + 1;
    }
    proof {
        lemma_take_full(browsers@);
    }
    out
}

/// The ids of the principal-bound sessions that block reuse, in key order.
fn bound_session_ids(state: &ServiceState, profile_id: &str, boot: &Option<String>) -> (r: Vec<String>)
    ensures
        strs(r@) == bound_ids(*state, profile_id@, ov(*boot)),
{
    let sessions = &state.sessions;
    let ghost pred = |s: BrowserSession| bound_session(s, profile_id@, ov(*boot));
    let mut out: Vec<String> = Vec::new();
    let mut i: usize = 0;
    while i < sessions.len()
        invariant
            i <= sessions@.len(),
            sessions == &state.sessions,
            pred == (|s: BrowserSession| bound_session(s, profile_id@, ov(*boot))),
            strs(out@) == sessions@.take(i as int).filter(pred).map_values(|s: BrowserSession| s.id@),
        decreases sessions@.len() - i,
    {
        proof {
            lemma_filter_take_step(sessions@, pred, i as int);
        }
        let s = &sessions[i];
        if session_blocks_profile_reuse(s, profile_id, boot) && s.principal_id.is_some() {
            let id = s.id.clone();
            proof {
                lemma_strs_push(out@, id);
                crate::lease::lemma_map_push(sessions@.take(i as int).filter(pred), *s, |s: BrowserSession| s.id@);
            }
            out.push(id);
        }
        i = i + 1;
    }
    proof {
        lemma_take_full(sessions@);
    }
    out
}

/// The ids of the foreign-principal sessions that block reuse, in key order.
fn foreign_session_ids(state: &ServiceState, profile_id: &str, principal_id: &str, boot: &Option<String>) -> (r: Vec<String>)
    ensures
        strs(r@) == foreign_ids(*state, profile_id@, principal_id@, ov(*boot)),
{
    let sessions = &state.sessions;
    let ghost pred = |s: BrowserSession| foreign_session(s, profile_id@, principal_id@, ov(*boot));
    let mut out: Vec<String> = Vec::new();
    let mut i: usize = 0;
    while i < sessions.len()
        invariant
            i <= sessions@.len(),
            sessions == &state.sessions,
            pred == (|s: BrowserSession| foreign_session(s, profile_id@, principal_id@, ov(*boot))),
            strs(out@) == sessions@.take(i as int).filter(pred).map_values(|s: BrowserSession| s.id@),
        decreases sessions@.len() - i,
    {
        proof {
            lemma_filter_take_step(sessions@, pred, i as int);
        }
        let s = &sessions[i];
        let foreign = match &s.principal_id {
            Some(p) => !str_equal(p.as_str(), principal_id),
            None => false,
        };
        if session_blocks_profile_reuse(s, profile_id, boot) && foreign {
            let id = s.id.clone();
            proof {
                lemma_strs_push(out@, id);
                crate::lease::lemma_map_push(sessions@.take(i as int).filter(pred), *s, |s: BrowserSession| s.id@);
            }
            out.push(id);
        }
        i = i + 1;
    }
    proof {
        lemma_take_full(sessions@);
    }
    out
}

/// Whether any of a session's browsers is reusable.
fn lists_any(browser_ids: &Vec<String>, reusable: &Vec<String>) -> (r: bool)
    ensures
        r == exists|k: int| 0 <= k < browser_ids@.len() && strs(reusable@).contains(#[trigger] browser_ids@[k]@),
{
    let mut k: usize = 0;
    while k < browser_ids.len()
        invariant
            k <= browser_ids@.len(),
            forall|j: int| 0 <= j < k ==> !strs(reusable@).contains(#[trigger] browser_ids@[j]@),
        decreases browser_ids@.len() - k,
    {
        if contains_text(reusable, browser_ids[k].as_str()) {
            return true;
        }
        k = k + 1;
    }
    false
}

/// The sessions that block reuse and list no reusable browser, together with
/// the foreign sessions, sorted and without repeats.
fn conflict_session_ids(
    state: &ServiceState,
    profile_id: &str,
    reusable: &Vec<String>,
    foreign: &Vec<String>,
    boot: &Option<String>,
) -> (r: Vec<String>)
    ensures
        strictly_sorted(strs(r@)),
        strs(r@).to_set() == conflict_ids(*state, profile_id@, strs(reusable@), ov(*boot)).to_set() + strs(foreign@).to_set(),
{
    let sessions = &state.sessions;
    let ghost pred = |s: BrowserSession| conflicting_session(s, profile_id@, strs(reusable@), ov(*boot));
    let mut out: Vec<String> = Vec::new();
    let mut i: usize = 0;
    assert(strs(out@).to_set() =~= sessions@.take(0).filter(pred).map_values(|s: BrowserSession| s.id@).to_set());
    while i < sessions.len()
        invariant
            i <= sessions@.len(),
            sessions == &state.sessions,
            pred == (|s: BrowserSession| conflicting_session(s, profile_id@, strs(reusable@), ov(*boot))),
            strictly_sorted(strs(out@)),
            strs(out@).to_set() == sessions@.take(i as int).filter(pred).map_values(|s: BrowserSession| s.id@).to_set(),
        decreases sessions@.len() - i,
    {
        proof {
            lemma_filter_take_step(sessions@, pred, i as int);
        }
        let s = &sessions[i];
        if session_blocks_profile_reuse(s, profile_id, boot) && !lists_any(&s.browser_ids, reusable) {
            let id = s.id.clone();
            let ghost prev = sessions@.take(i as int).filter(pred).map_values(|s: BrowserSession| s.id@);
            proof {
                crate::lease::lemma_map_push(sessions@.take(i as int).filter(pred), *s, |s: BrowserSession| s.id@);
                prev.lemma_push_to_set_commute(id@);
            }
            insert_sorted_unique(&mut out, id);
            proof {
                assert(strs(out@).to_set() =~= prev.to_set().insert(id@));
            }
        }
        i = i + 1;
    }
    proof {
        lemma_take_full(sessions@);
    }
    let ghost first = strs(out@).to_set();
    let mut j: usize = 0;
    while j < foreign.len()
        invariant
            j <= foreign@.len(),
            strictly_sorted(strs(out@)),
            strs(out@).to_set() == first + strs(foreign@).take(j as int).to_set(),
        decreases foreign@.len() - j,
    {
        let id = foreign[j].clone();
        proof {
            assert(strs(foreign@).take(j + 1) =~= strs(foreign@).take(j as int).push(id@));
            strs(foreign@).take(j as int).lemma_push_to_set_commute(id@);
        }
        insert_sorted_unique(&mut out, id);
        proof {
            assert(strs(out@).to_set() =~= first + strs(foreign@).take(j + 1).to_set());
        }
        j = j + 1;
    }
    assert(strs(foreign@).take(foreign@.len() as int) =~= strs(foreign@));
    out
}

/// The browsers a session lists that are recorded for another profile.
pub open spec fn session_mismatch(state: ServiceState, s: BrowserSession, profile_id: Seq<char>) -> Set<Seq<char>> {
    Set::new(|b: Seq<char>| strs(s.browser_ids@).contains(b) && (lookup(state.browsers@, b) matches Some(br)
        && !opt_is(br.profile_id, profile_id)))
}

/// Whether a session blocks reuse for the given principal.
pub open spec fn same_principal_blocking(
    s: BrowserSession,
    profile_id: Seq<char>,
    principal_id: Seq<char>,
    boot: Option<Seq<char>>,
) -> bool {
    blocks_reuse(s, profile_id, boot) && opt_is(s.principal_id, principal_id)
}

/// The mismatched browsers of the first `n` sessions.
pub open spec fn mismatch_upto(
    state: ServiceState,
    profile_id: Seq<char>,
    principal_id: Seq<char>,
    boot: Option<Seq<char>>,
    n: int,
) -> Set<Seq<char>> {
    Set::new(|b: Seq<char>| exists|i: int| 0 <= i < n && same_principal_blocking(
        #[trigger] state.sessions@[i],
        profile_id,
        principal_id,
        boot,
    ) && session_mismatch(state, state.sessions@[i], profile_id).contains(b))
}

/// Adds the browsers a session lists that are recorded for another profile.
fn add_session_mismatches(state: &ServiceState, session: &BrowserSession, profile_id: &str, out: &mut Vec<String>)
    requires
        strictly_sorted(strs(old(out)@)),
    ensures
        strictly_sorted(strs(final(out)@)),
        strs(final(out)@).to_set() == strs(old(out)@).to_set() + session_mismatch(*state, *session, profile_id@),
{
    let ghost base = strs(out@).to_set();
    let ids = &session.browser_ids;
    let mut k: usize = 0;
    while k < ids.len()
        invariant
            k <= ids@.len(),
            ids == &session.browser_ids,
            strictly_sorted(strs(out@)),
            strs(out@).to_set() == base + Set::new(|b: Seq<char>| strs(ids@).take(k as int).contains(b) && (lookup(
                state.browsers@,
                b,
            ) matches Some(br) && !opt_is(br.profile_id, profile_id@))),
        decreases ids@.len() - k,
    {
        let b = ids[k].as_str();
        let mismatched = match get_keyed(&state.browsers, b) {
            Some(br) => !opt_eq(&br.profile_id, profile_id),
            None => false,
        };
        let ghost before = strs(out@).to_set();
        if mismatched {
            insert_sorted_unique(out, owned(b));
        }
        proof {
            assert(strs(ids@).take(k + 1) =~= strs(ids@).take(k as int).push(b@));
            let cond = |x: Seq<char>| (lookup(state.browsers@, x) matches Some(br) && !opt_is(br.profile_id, profile_id@));
            assert forall|x: Seq<char>| strs(ids@).take(k + 1).contains(x) <==> (strs(ids@).take(k as int).contains(x) || x == b@) by {
                if strs(ids@).take(k + 1).contains(x) {
                    let j = choose|j: int| 0 <= j < k + 1 && #[trigger] strs(ids@).take(k + 1)[j] == x;
                    if j < k {
                        assert(strs(ids@).take(k as int)[j] == x);
                    }
                }
                if strs(ids@).take(k as int).contains(x) {
                    let j = choose|j: int| 0 <= j < k && #[trigger] strs(ids@).take(k as int)[j] == x;
                    assert(strs(ids@).take(k + 1)[j] == x);
                }
                if x == b@ {
                    assert(strs(ids@).take(k + 1)[k as int] == x);
                }
            }
            assert(mismatched == cond(b@));
            if mismatched {
                assert(strs(out@).to_set() == before.insert(b@));
            } else {
                assert(strs(out@).to_set() == before);
            }
            let prev_set = Set::new(|x: Seq<char>| strs(ids@).take(k as int).contains(x) && cond(x));
            let next_set = Set::new(|x: Seq<char>| strs(ids@).take(k + 1).contains(x) && cond(x));
            assert(before == base + prev_set);
            assert forall|x: Seq<char>| #[trigger] next_set.contains(x) <==> (prev_set.contains(x) || (x == b@ && mismatched)) by {
                if next_set.contains(x) {
                    assert(strs(ids@).take(k + 1).contains(x) && cond(x));
                }
                if prev_set.contains(x) {
                    assert(strs(ids@).take(k as int).contains(x) && cond(x));
                    assert(strs(ids@).take(k + 1).contains(x));
                }
                if x == b@ && mismatched {
                    assert(strs(ids@).take(k + 1).contains(x));
                }
            }
            assert(strs(out@).to_set() =~= base + next_set);
            assert(next_set =~= Set::new(|x: Seq<char>| strs(ids@).take(k + 1).contains(x) && (lookup(
                state.browsers@,
                x,
            ) matches Some(br) && !opt_is(br.profile_id, profile_id@))));
        }
        k = k + 1;
    }
    assert(strs(ids@).take(ids@.len() as int) =~= strs(ids@));
    assert(strs(out@).to_set() =~= base + session_mismatch(*state, *session, profile_id@));
}

/// The browsers listed by same-principal sessions that block reuse and are
/// recorded for another profile, sorted and without repeats.
fn mismatch_browser_ids(state: &ServiceState, profile_id: &str, principal_id: &str, boot: &Option<String>) -> (r: Vec<String>)
    ensures
        strictly_sorted(strs(r@)),
        strs(r@).to_set() == Set::new(|b: Seq<char>| mismatched_browser(*state, profile_id@, principal_id@, ov(*boot), b)),
{
    let sessions = &state.sessions;
    let mut out: Vec<String> = Vec::new();
    let mut i: usize = 0;
    assert(strs(out@).to_set() =~= mismatch_upto(*state, profile_id@, principal_id@, ov(*boot), 0));
    while i < sessions.len()
        invariant
            i <= sessions@.len(),
            sessions == &state.sessions,
            strictly_sorted(strs(out@)),
            strs(out@).to_set() == mismatch_upto(*state, profile_id@, principal_id@, ov(*boot), i as int),
        decreases sessions@.len() - i,
    {
        let s = &sessions[i];
        let qualifies = session_blocks_profile_reuse(s, profile_id, boot) && opt_eq(&s.principal_id, principal_id);
        if qualifies {
            add_session_mismatches(state, s, profile_id, &mut out);
        }
        proof {
            let prev = mismatch_upto(*state, profile_id@, principal_id@, ov(*boot), i as int);
            let next = mismatch_upto(*state, profile_id@, principal_id@, ov(*boot), i + 1);
            assert forall|b: Seq<char>| next.contains(b) <==> (prev.contains(b) || (qualifies && session_mismatch(
                *state,
                *s,
                profile_id@,
            ).contains(b))) by {
                if next.contains(b) {
                    let j = choose|j: int| 0 <= j < i + 1 && same_principal_blocking(
                        #[trigger] state.sessions@[j],
                        profile_id@,
                        principal_id@,
                        ov(*boot),
                    ) && session_mismatch(*state, state.sessions@[j], profile_id@).contains(b);
                    if j < i {
                        assert(prev.contains(b));
                    }
                }
                if qualifies && session_mismatch(*state, *s, profile_id@).contains(b) {
                    assert(same_principal_blocking(state.sessions@[i as int], profile_id@, principal_id@, ov(*boot)));
                }
            }
            assert(strs(out@).to_set() =~= next);
        }
        i = i + 1;
    }
    assert(strs(out@).to_set() =~= Set::new(|b: Seq<char>| mismatched_browser(*state, profile_id@, principal_id@, ov(*boot), b))) by {
        assert forall|b: Seq<char>| strs(out@).to_set().contains(b) <==> mismatched_browser(*state, profile_id@, principal_id@, ov(*boot), b) by {
            if mismatched_browser(*state, profile_id@, principal_id@, ov(*boot), b) {
                let j = choose|j: int| {
                    &&& 0 <= j < state.sessions@.len()
                    &&& blocks_reuse(#[trigger] state.sessions@[j], profile_id@, ov(*boot))
                    &&& opt_is(state.sessions@[j].principal_id, principal_id@)
                    &&& strs(state.sessions@[j].browser_ids@).contains(b)
                };
                assert(same_principal_blocking(state.sessions@[j], profile_id@, principal_id@, ov(*boot)));
                assert(session_mismatch(*state, state.sessions@[j], profile_id@).contains(b));
            }
        }
    }
    out
}

/// Resolves a request's explicit daemon session against the reusable browsers.
fn resolve_explicit_route(
    state: &ServiceState,
    name: &Option<String>,
    replacement_name: &Option<String>,
    launch_name: &Option<String>,
    cold_name: &Option<String>,
    reusable: &Vec<String>,
) -> (r: ExplicitRoute)
    ensures
        r == explicit_kind(*state, ov(*name), ov(*replacement_name), ov(*launch_name), ov(*cold_name), strs(reusable@)),
{
    let n = match name {
        None => return ExplicitRoute::Absent,
        Some(n) => n,
    };
    match get_keyed(&state.sessions, n.as_str()) {
        None => {
            if opt_eq(replacement_name, n.as_str()) {
                ExplicitRoute::TerminalReplacement
            } else if opt_eq(launch_name, n.as_str()) {
                ExplicitRoute::TerminalLaunch
            } else if opt_eq(cold_name, n.as_str()) {
                ExplicitRoute::AuthenticatedCold
            } else {
                ExplicitRoute::NotFound
            }
        },
        Some(s) => {
            if s.browser_ids.len() != 1 {
                ExplicitRoute::Ambiguous
            } else if contains_text(reusable, s.browser_ids[0].as_str()) {
                ExplicitRoute::Selected
            } else {
                ExplicitRoute::Incompatible
            }
        },
    }
}

/// The ids equal to `id`, in order.
fn keep_equal(v: &Vec<String>, id: &str) -> (r: Vec<String>)
    ensures
        strs(r@) == strs(v@).filter(|x: Seq<char>| x == id@),
{
    let ghost pred = |x: Seq<char>| x == id@;
    let mut out: Vec<String> = Vec::new();
    let mut i: usize = 0;
    while i < v.len()
        invariant
            i <= v@.len(),
            pred == (|x: Seq<char>| x == id@),
            strs(out@) == strs(v@).take(i as int).filter(pred),
        decreases v@.len() - i,
    {
        proof {
            lemma_filter_take_step(strs(v@), pred, i as int);
        }
        if str_equal(v[i].as_str(), id) {
            let s = v[i].clone();
            proof {
                lemma_strs_push(out@, s);
            }
            out.push(s);
        }
        i = i + 1;
    }
    proof {
        lemma_take_full(strs(v@));
    }
    out
}

/// Which browser an access request may reuse for a profile, and why.
pub struct ProfileReuse {
    pub recommended_action: String,
    pub selected_profile_id: Option<String>,
    pub reusable_browser_id: Option<String>,
    pub reusable_session_name: Option<String>,
    pub reusable_browser_ids: Vec<String>,
    pub same_profile_live_browser_ids: Vec<String>,
    pub active_lease_session_ids: Vec<String>,
    pub active_lease_count: usize,
    pub active_claim: Option<ActiveLeaseClaim>,
    pub foreign_principal_session_ids: Vec<String>,
    pub principal_bound_session_ids: Vec<String>,
    pub profile_mismatch_browser_ids: Vec<String>,
    pub profile_identity_inconsistent: bool,
    pub duplicate_pressure: bool,
    pub reasons: Vec<String>,
    /// Whether the decision examined live browsers, sessions and claims;
    /// false for a missing or externally observed profile.
    pub detailed: bool,
}

/// Whether a reuse decision carries only the given action, live browsers and reason.
pub open spec fn summary_reuse(
    r: ProfileReuse,
    action: Seq<char>,
    profile_id: Option<Seq<char>>,
    live: Seq<Seq<char>>,
    reason: Seq<char>,
) -> bool {
    &&& !r.detailed
    &&& r.recommended_action@ == action
    &&& ov(r.selected_profile_id) == profile_id
    &&& r.reusable_browser_id is None
    &&& r.reusable_session_name is None
    &&& r.reusable_browser_ids@.len() == 0
    &&& strs(r.same_profile_live_browser_ids@) == live
    &&& r.active_lease_session_ids@.len() == 0
    &&& r.active_lease_count == 0
    &&& r.active_claim is None
    &&& r.foreign_principal_session_ids@.len() == 0
    &&& r.principal_bound_session_ids@.len() == 0
    &&& r.profile_mismatch_browser_ids@.len() == 0
    &&& !r.profile_identity_inconsistent
    &&& !r.duplicate_pressure
    &&& strs(r.reasons@) == seq![reason]
}

/// Whether a detailed reuse decision follows from its facts.
pub open spec fn detailed_reuse(
    r: ProfileReuse,
    request: ServiceAccessPlanRequest,
    profile: BrowserProfile,
    state: ServiceState,
    launch_browser_host: Option<Seq<char>>,
    manual_seeding_required: bool,
    replacement: LifecycleReplacement,
    authority: Option<AuthenticatedServicePrincipal>,
    strict: bool,
    claim: Option<ActiveLeaseClaim>,
    boot: Option<Seq<char>>,
) -> bool {
    let f = reuse_facts(request, profile, state, replacement, authority, strict, claim, boot);
    let conflicts = strs(r.active_lease_session_ids@);
    &&& r.detailed
    &&& ov(r.selected_profile_id) == Some(profile.id@)
    &&& strs(r.reusable_browser_ids@) == f.reusable
    &&& strs(r.same_profile_live_browser_ids@) == f.live
    &&& strictly_sorted(conflicts) && conflicts.to_set() == f.conflicts
    &&& strs(r.foreign_principal_session_ids@) == f.foreign
    &&& strs(r.principal_bound_session_ids@) == f.bound
    &&& strictly_sorted(strs(r.profile_mismatch_browser_ids@))
    &&& strs(r.profile_mismatch_browser_ids@).to_set() == f.mismatch
    &&& r.profile_identity_inconsistent == f.identity_inconsistent
    &&& r.recommended_action@ == reuse_action(f, manual_seeding_required, strict, authority is Some, conflicts.len())
    &&& strictly_sorted(strs(r.reasons@))
    &&& strs(r.reasons@).to_set() == reuse_reasons(
        f,
        request,
        profile,
        launch_browser_host,
        manual_seeding_required,
        strict,
        authority is Some,
        claim is Some,
        conflicts.len(),
    )
    &&& ov(r.reusable_browser_id) == (if f.reusable.len() > 0 { Some(f.reusable[0]) } else { None })
    &&& ov(r.reusable_session_name) == (if f.kind == ExplicitRoute::Selected {
        ov(request.session_name)
    } else if f.reusable.len() > 0 {
        reusable_session_name_spec(state, f.reusable[0])
    } else {
        None
    })
    &&& r.active_lease_count == (if claim is Some { 1 } else { conflicts.len() })
    &&& r.duplicate_pressure == (f.live.len() > 1 || conflicts.len() > 1)
    &&& (match (r.active_claim, claim) {
        (Some(a), Some(c)) => a.claim_id@ == c.claim_id@ && a.revision == c.revision && a.fencing_token
            == c.fencing_token && a.principal_id@ == c.principal_id@,
        (None, None) => true,
        _ => false,
    })
}

/// Adds a reason when its condition holds.
fn add_reason(reasons: &mut Vec<String>, cond: bool, code: &str)
    requires
        strictly_sorted(strs(old(reasons)@)),
    ensures
        strictly_sorted(strs(final(reasons)@)),
        strs(final(reasons)@).to_set() == strs(old(reasons)@).to_set() + when(cond, code@),
{
    if cond {
        insert_sorted_unique(reasons, owned(code));
        assert(strs(reasons@).to_set() =~= strs(old(reasons)@).to_set() + when(cond, code@));
    } else {
        assert(strs(reasons@).to_set() =~= strs(old(reasons)@).to_set() + when(cond, code@));
    }
}

/// Copies a claim.
fn clone_claim(c: &Option<ActiveLeaseClaim>) -> (r: Option<ActiveLeaseClaim>)
    ensures
        match (r, *c) {
            (Some(a), Some(b)) => a.claim_id@ == b.claim_id@ && a.revision == b.revision && a.fencing_token
                == b.fencing_token && a.principal_id@ == b.principal_id@,
            (None, None) => true,
            _ => false,
        },
{
    match c {
        Some(b) => Some(ActiveLeaseClaim {
            claim_id: b.claim_id.clone(),
            revision: b.revision,
            fencing_token: b.fencing_token,
            principal_id: b.principal_id.clone(),
        }),
        None => None,
    }
}

/// A decision that examines nothing beyond the profile.
fn summary(action: &str, profile_id: Option<String>, live: Vec<String>, reason: &str) -> (r: ProfileReuse)
    ensures
        summary_reuse(r, action@, ov(profile_id), strs(live@), reason@),
{
    let mut reasons: Vec<String> = Vec::new();
    reasons.push(owned(reason));
    let r = ProfileReuse {
        recommended_action: owned(action),
        selected_profile_id: profile_id,
        reusable_browser_id: None,
        reusable_session_name: None,
        reusable_browser_ids: Vec::new(),
        same_profile_live_browser_ids: live,
        active_lease_session_ids: Vec::new(),
        active_lease_count: 0,
        active_claim: None,
        foreign_principal_session_ids: Vec::new(),
        principal_bound_session_ids: Vec::new(),
        profile_mismatch_browser_ids: Vec::new(),
        profile_identity_inconsistent: false,
        duplicate_pressure: false,
        reasons,
        detailed: false,
    };
    assert(strs(r.reasons@) =~= seq![reason@]);
    r
}

/// The reasons a reuse decision gives, sorted and without repeats.
#[verifier::rlimit(100)]
#[verifier::spinoff_prover]
fn reason_list(
    manual_seeding_required: bool,
    reusable_count: usize,
    conflict_count: usize,
    foreign_count: usize,
    claim_present: bool,
    claim_is_foreign: bool,
    authentication_needed: bool,
    identity_inconsistent: bool,
    capability_mismatch: bool,
    live_count: usize,
    host_requested: bool,
    byop_host_unconstrained: bool,
    view_stream_requested: bool,
    control_input_requested: bool,
    display_isolation_requested: bool,
    kind: ExplicitRoute,
) -> (r: Vec<String>)
    ensures
        strictly_sorted(strs(r@)),
        strs(r@).to_set() == reasons_from(
            manual_seeding_required,
            reusable_count as nat,
            conflict_count as nat,
            foreign_count as nat,
            claim_present,
            claim_is_foreign,
            authentication_needed,
            identity_inconsistent,
            capability_mismatch,
            live_count as nat,
            host_requested,
            byop_host_unconstrained,
            view_stream_requested,
            control_input_requested,
            display_isolation_requested,
            kind,
        ),
{
    let mut reasons: Vec<String> = Vec::new();
    assert(strs(reasons@).to_set() =~= Set::<Seq<char>>::empty());
    add_reason(&mut reasons, manual_seeding_required, "manual_seeding_required");
    assert(strs(reasons@).to_set() =~= when(manual_seeding_required, "manual_seeding_required"@));
    add_reason(&mut reasons, true, if reusable_count == 0 { "no_compatible_live_browser" } else { "compatible_live_browser_available" });
    add_reason(&mut reasons, true, if conflict_count == 0 { "no_active_profile_lease_conflict" } else { "active_profile_lease_conflict" });
    add_reason(&mut reasons, foreign_count > 0, "foreign_principal_profile_lease");
    add_reason(&mut reasons, claim_present, "canonical_active_profile_claim");
    add_reason(&mut reasons, claim_is_foreign, "foreign_principal_active_claim");
    add_reason(&mut reasons, authentication_needed, "profile_capability_required");
    add_reason(&mut reasons, identity_inconsistent, "lifecycle_profile_identity_inconsistent");
    add_reason(&mut reasons, capability_mismatch, "profile_capability_profile_mismatch");
    add_reason(&mut reasons, live_count > 1, "duplicate_live_browsers_for_profile");
    add_reason(&mut reasons, conflict_count > 1, "duplicate_active_leases_for_profile");
    add_reason(&mut reasons, host_requested, "browser_host_constrained_by_request");
    add_reason(&mut reasons, !host_requested && byop_host_unconstrained, "external_byop_browser_host_unconstrained");
    add_reason(&mut reasons, view_stream_requested, "view_stream_constrained_by_request");
    add_reason(&mut reasons, control_input_requested, "control_input_constrained_by_request");
    add_reason(&mut reasons, display_isolation_requested, "display_isolation_constrained_by_request");
    add_reason(&mut reasons, kind != ExplicitRoute::Absent, explicit_code_str(kind));
    reasons
}

/// Whether `r` is the reuse decision for a request: a summary for a missing
/// or externally observed profile, else the detailed decision.
pub open spec fn reuse_decided(
    r: ProfileReuse,
    request: ServiceAccessPlanRequest,
    selected_profile: Option<BrowserProfile>,
    state: ServiceState,
    launch_browser_host: Option<Seq<char>>,
    manual_seeding_required: bool,
    replacement: LifecycleReplacement,
    authority: Option<AuthenticatedServicePrincipal>,
    strict_identity_required: bool,
    active_claim: Option<ActiveLeaseClaim>,
    boot: Option<Seq<char>>,
) -> bool {
    match selected_profile {
        None => summary_reuse(r, "register_or_select_profile"@, None, Seq::empty(), "no_selected_profile"@),
        Some(p) => if p.profile_origin@ == "external_observed"@ {
            summary_reuse(
                r,
                "launch_new_browser"@,
                Some(p.id@),
                live_ids(state, p.id@, boot),
                "external_observed_not_reusable"@,
            )
        } else {
            detailed_reuse(
                r,
                request,
                p,
                state,
                launch_browser_host,
                manual_seeding_required,
                replacement,
                authority,
                strict_identity_required,
                active_claim,
                boot,
            )
        },
    }
}

/// Decides which live browser an access request may reuse for the selected
/// profile. Under strict identity, sessions and claims of another principal,
/// an unauthenticated request against principal-bound work, and a capability
/// for another profile all withhold reuse; an explicit daemon session must
/// name exactly one reusable browser or a known fresh route.
#[verifier::rlimit(80)]
#[verifier::spinoff_prover]
pub fn profile_reuse_decision(
    request: &ServiceAccessPlanRequest,
    selected_profile: Option<&BrowserProfile>,
    state: &ServiceState,
    launch_browser_host: &Option<String>,
    manual_seeding_required: bool,
    replacement: &LifecycleReplacement,
    authority: Option<&AuthenticatedServicePrincipal>,
    strict_identity_required: bool,
    active_claim: &Option<ActiveLeaseClaim>,
    current_boot_epoch: &Option<String>,
) -> (r: ProfileReuse)
    ensures
        reuse_decided(
            r,
            *request,
            match selected_profile {
                Some(p) => Some(*p),
                None => None,
            },
            *state,
            ov(*launch_browser_host),
            manual_seeding_required,
            *replacement,
            match authority {
                Some(a) => Some(*a),
                None => None,
            },
            strict_identity_required,
            *active_claim,
            ov(*current_boot_epoch),
        ),
{
    let profile = match selected_profile {
        None => {
            let empty: Vec<String> = Vec::new();
            assert(strs(empty@) =~= Seq::<Seq<char>>::empty());
            return summary("register_or_select_profile", None, empty, "no_selected_profile");
        },
        Some(p) => p,
    };
    let boot = current_boot_epoch;
    if str_equal(profile.profile_origin.as_str(), "external_observed") {
        let live = live_browser_ids(state, profile.id.as_str(), boot);
        return summary("launch_new_browser", Some(profile.id.clone()), live, "external_observed_not_reusable");
    }
    let pid = profile.id.as_str();
    let ghost authority_v: Option<AuthenticatedServicePrincipal> = match authority {
        Some(a) => Some(*a),
        None => None,
    };
    let ghost f = reuse_facts(*request, *profile, *state, *replacement, authority_v, strict_identity_required, *active_claim, ov(*boot));
    let claim_requires_authentication = active_claim.is_some() && authority.is_none();
    let claim_is_foreign = match (active_claim, authority) {
        (Some(c), Some(a)) => !str_equal(c.principal_id.as_str(), a.principal_id.as_str()),
        _ => false,
    };
    let constraints = ReuseConstraints {
        browser_host: clone_opt_string(&request.browser_host),
        view_stream_provider: clone_opt_string(&request.view_stream_provider),
        control_input_provider: clone_opt_string(&request.control_input_provider),
        display_isolation: clone_opt_string(&request.display_isolation),
    };
    let candidates = candidate_browser_ids(state, pid, request, &constraints, boot);
    assert(strs(candidates@) == f.candidates);
    let all_bound = bound_session_ids(state, pid, boot);
    let (foreign, mismatch, capability_mismatch): (Vec<String>, Vec<String>, bool) = match authority {
        Some(a) => if strict_identity_required {
            (
                foreign_session_ids(state, pid, a.principal_id.as_str(), boot),
                mismatch_browser_ids(state, pid, a.principal_id.as_str(), boot),
                !str_equal(a.profile_id.as_str(), pid),
            )
        } else {
            (Vec::new(), Vec::new(), false)
        },
        None => (Vec::new(), Vec::new(), false),
    };
    assert(strs(foreign@) =~= f.foreign);
    assert(strs(mismatch@).to_set() =~= f.mismatch);
    let cleared = if strict_identity_required {
        if authority.is_some() {
            foreign.len() > 0 || capability_mismatch || claim_is_foreign
        } else {
            all_bound.len() > 0 || claim_requires_authentication
        }
    } else {
        false
    };
    let before_route: Vec<String> = if cleared { Vec::new() } else { candidates };
    assert(strs(before_route@) =~= f.reusable_before_route);
    let launch_name = terminal_replacement_launch_session_name(profile, replacement);
    let cold_name = match authority {
        Some(a) => authenticated_cold_session_name(a, profile),
        None => None,
    };
    let kind = resolve_explicit_route(
        state,
        &request.session_name,
        &replacement.replacement_session_name,
        &launch_name,
        &cold_name,
        &before_route,
    );
    assert(kind == f.kind);
    let reusable: Vec<String> = match kind {
        ExplicitRoute::Selected => {
            let n = request.session_name.as_ref().unwrap();
            let s = get_keyed(&state.sessions, n.as_str()).unwrap();
            let kept = keep_equal(&before_route, s.browser_ids[0].as_str());
            proof {
                assert(explicit_browser(*state, request.session_name->0@) == s.browser_ids@[0]@);
                assert((|x: Seq<char>| x == s.browser_ids@[0]@) =~= (|id: Seq<char>| id == explicit_browser(
                    *state,
                    request.session_name->0@,
                )));
            }
            kept
        },
        ExplicitRoute::Incompatible => Vec::new(),
        _ => before_route,
    };
    assert(strs(reusable@) =~= f.reusable);
    let live = live_browser_ids(state, pid, boot);
    proof {
        if !strict_identity_required || authority.is_none() {
            assert(strs(foreign@) =~= Seq::<Seq<char>>::empty());
        }
    }
    let conflicts = conflict_session_ids(state, pid, &reusable, &foreign, boot);
    assert(strs(conflicts@).to_set() =~= f.conflicts);
    let identity_inconsistent = capability_mismatch || mismatch.len() > 0;
    proof {
        if mismatch@.len() > 0 {
            assert(strs(mismatch@).to_set().contains(strs(mismatch@)[0]));
        } else {
            assert(strs(mismatch@).to_set() =~= Set::<Seq<char>>::empty());
        }
    }
    assert(identity_inconsistent == f.identity_inconsistent);
    let bound: Vec<String> = if strict_identity_required { all_bound } else { Vec::new() };
    assert(strs(bound@) =~= f.bound);
    let explicit_error = kind == ExplicitRoute::NotFound || kind == ExplicitRoute::Ambiguous || kind
        == ExplicitRoute::Incompatible;
    let authenticate_needed = strict_identity_required && authority.is_none() && (bound.len() > 0
        || claim_requires_authentication);
    let action: &str = if manual_seeding_required {
        "seed_profile_before_reuse"
    } else if explicit_error {
        "blocked_by_explicit_session_route"
    } else if strict_identity_required && (foreign.len() > 0 || claim_is_foreign) {
        "wait_for_foreign_principal"
    } else if authenticate_needed {
        "authenticate_for_profile_reuse"
    } else if identity_inconsistent {
        "lifecycle_profile_identity_inconsistent"
    } else if reusable.len() > 0 {
        "reuse_existing_browser"
    } else if conflicts.len() > 0 {
        "wait_for_profile_lease"
    } else {
        "launch_new_browser"
    };
    let byop_unconstrained = str_equal(profile.profile_origin.as_str(), "external_byop") && launch_browser_host.is_some();
    let reasons = reason_list(
        manual_seeding_required,
        reusable.len(),
        conflicts.len(),
        foreign.len(),
        active_claim.is_some(),
        claim_is_foreign,
        authenticate_needed,
        identity_inconsistent,
        capability_mismatch,
        live.len(),
        request.browser_host.is_some(),
        byop_unconstrained,
        request.view_stream_provider.is_some(),
        request.control_input_provider.is_some(),
        request.display_isolation.is_some(),
        kind,
    );
    let reusable_browser_id = if reusable.len() > 0 { Some(reusable[0].clone()) } else { None };
    let reusable_session_name = if kind == ExplicitRoute::Selected {
        clone_opt_string(&request.session_name)
    } else if reusable.len() > 0 {
        reusable_session_name_for_browser(state, reusable[0].as_str())
    } else {
        None
    };
    let active_lease_count = if active_claim.is_some() { 1 } else { conflicts.len() };
    let duplicate_pressure = live.len() > 1 || conflicts.len() > 1;
    ProfileReuse {
        recommended_action: owned(action),
        selected_profile_id: Some(profile.id.clone()),
        reusable_browser_id,
        reusable_session_name,
        reusable_browser_ids: reusable,
        same_profile_live_browser_ids: live,
        active_lease_session_ids: conflicts,
        active_lease_count,
        active_claim: clone_claim(active_claim),
        foreign_principal_session_ids: foreign,
        principal_bound_session_ids: bound,
        profile_mismatch_browser_ids: mismatch,
        profile_identity_inconsistent: identity_inconsistent,
        duplicate_pressure,
        reasons,
        detailed: true,
    }
}

/// A copy of an optional string.
fn clone_opt_string(o: &Option<String>) -> (r: Option<String>)
    ensures
        ov(r) == ov(*o),
{
    crate::model::clone_opt(o)
}

} // verus!
