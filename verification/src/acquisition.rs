//! The typed profile-acquisition decision shared by planning and execution:
//! which browser an access request may reuse, and whether a terminal
//! lifecycle owner may be superseded.

use vstd::prelude::*;
use vstd::utf8::encode_utf8;
use crate::digest::{digest_prefix, digest_prefix_spec, hex_lower, hex_text, sha256, sha256_digest};
use crate::lease::contains_text;
use crate::model::{
    get_keyed, lookup, opt_eq, opt_is, ov, AuthenticatedServicePrincipal, BrowserProcess,
    BrowserProfile, BrowserSession, LeaseState, ProfileOwner, ProfileOwnerState,
    RuntimeLaneLifecycleState, RuntimeLifecycleRecord, ServiceState,
};
use crate::provenance::{opt_str, opt_view_str, self_declared_subject_spec, stable_self_declared_subject};
use crate::recovery::{active_lease_session_ids, active_profile_lease_session_ids, process_proven};
use crate::text::{concat2, concat3, has_prefix, owned, starts_with, str_equal, strip_prefix, strs};

verus! {

/// The parts of an access-plan request that acquisition reads.
pub struct ServiceAccessPlanRequest {
    pub service_name: Option<String>,
    pub agent_name: Option<String>,
    pub task_name: Option<String>,
    pub client_subject_id: Option<String>,
    pub runtime_profile: Option<String>,
    pub session_name: Option<String>,
    /// Requested browser host, in its snake_case form.
    pub browser_host: Option<String>,
    /// Requested view stream provider, in its snake_case form.
    pub view_stream_provider: Option<String>,
    /// Requested control input provider, in its snake_case form.
    pub control_input_provider: Option<String>,
    pub display_isolation: Option<String>,
    pub target_service_ids: Vec<String>,
    pub account_ids: Vec<String>,
    pub target_url: Option<String>,
}

/// The self-declared subject of a request's service, agent and task labels.
pub fn self_declared_subject(request: &ServiceAccessPlanRequest) -> (r: Option<String>)
    ensures
        opt_view_str(r) == self_declared_subject_spec(
            ov(request.service_name),
            ov(request.agent_name),
            ov(request.task_name),
        ),
{
    let service = match &request.service_name {
        Some(s) => Some(s.as_str()),
        None => None,
    };
    let agent = match &request.agent_name {
        Some(s) => Some(s.as_str()),
        None => None,
    };
    let task = match &request.task_name {
        Some(s) => Some(s.as_str()),
        None => None,
    };
    stable_self_declared_subject(service, agent, task)
}

/// Whether a recorded boot epoch belongs to a boot before the current one:
/// both are known and they differ.
pub open spec fn boot_epoch_prior(recorded: Option<Seq<char>>, current: Option<Seq<char>>) -> bool {
    recorded matches Some(r) && current matches Some(c) && r != c
}

/// Whether a recorded boot epoch is not known to precede the current boot.
pub fn boot_epoch_is_not_prior(recorded: &Option<String>, current: &Option<String>) -> (r: bool)
    ensures
        r == !boot_epoch_prior(ov(*recorded), ov(*current)),
{
    match (recorded, current) {
        (Some(r), Some(c)) => str_equal(r.as_str(), c.as_str()),
        _ => true,
    }
}

/// Whether a browser is healthy and from the current boot.
pub open spec fn live_health(b: BrowserProcess, current_boot: Option<Seq<char>>) -> bool {
    (b.health@ == "ready"@ || b.health@ == "launching"@ || b.health@ == "reconnecting"@)
        && !boot_epoch_prior(ov(b.boot_epoch), current_boot)
}

/// Whether a browser is healthy and from the current boot.
pub fn browser_has_live_health(browser: &BrowserProcess, current_boot_epoch: &Option<String>) -> (r: bool)
    ensures
        r == live_health(*browser, ov(*current_boot_epoch)),
{
    (str_equal(browser.health.as_str(), "ready") || str_equal(browser.health.as_str(), "launching")
        || str_equal(browser.health.as_str(), "reconnecting")) && boot_epoch_is_not_prior(
        &browser.boot_epoch,
        current_boot_epoch,
    )
}

/// Whether a session holds a profile exclusively in the current boot.
pub open spec fn blocks_reuse(s: BrowserSession, profile_id: Seq<char>, current_boot: Option<Seq<char>>) -> bool {
    opt_is(s.profile_id, profile_id) && !boot_epoch_prior(ov(s.boot_epoch), current_boot) && (s.lease
        == LeaseState::Exclusive || s.lease == LeaseState::HumanTakeover)
}

/// Whether a session holds a profile exclusively in the current boot.
pub fn session_blocks_profile_reuse(
    session: &BrowserSession,
    profile_id: &str,
    current_boot_epoch: &Option<String>,
) -> (r: bool)
    ensures
        r == blocks_reuse(*session, profile_id@, ov(*current_boot_epoch)),
{
    opt_eq(&session.profile_id, profile_id) && boot_epoch_is_not_prior(&session.boot_epoch, current_boot_epoch)
        && (session.lease == LeaseState::Exclusive || session.lease == LeaseState::HumanTakeover)
}

/// The constraints a request places on a browser it may reuse.
pub struct ReuseConstraints {
    pub browser_host: Option<String>,
    pub view_stream_provider: Option<String>,
    pub control_input_provider: Option<String>,
    pub display_isolation: Option<String>,
}

/// Whether a browser is live and meets every stated constraint.
pub open spec fn reusable_for_posture(
    b: BrowserProcess,
    browser_host: Option<Seq<char>>,
    view_stream_provider: Option<Seq<char>>,
    control_input_provider: Option<Seq<char>>,
    display_isolation: Option<Seq<char>>,
    current_boot: Option<Seq<char>>,
) -> bool {
    &&& live_health(b, current_boot)
    &&& (browser_host matches Some(h) ==> b.host@ == h)
    &&& (display_isolation matches Some(d) ==> opt_is(b.display_isolation, d))
    &&& (view_stream_provider matches Some(p) ==> exists|i: int|
        0 <= i < b.view_streams@.len() && (#[trigger] b.view_streams@[i]).provider@ == p)
    &&& (control_input_provider matches Some(p) ==> exists|i: int|
        0 <= i < b.view_streams@.len() && opt_is((#[trigger] b.view_streams@[i]).control_input, p))
}

/// The constraints a request places on a browser, by view.
pub open spec fn posture_of(b: BrowserProcess, c: ReuseConstraints, current_boot: Option<Seq<char>>) -> bool {
    reusable_for_posture(
        b,
        ov(c.browser_host),
        ov(c.view_stream_provider),
        ov(c.control_input_provider),
        ov(c.display_isolation),
        current_boot,
    )
}

/// Whether a browser is live and meets every stated constraint.
pub fn browser_is_reusable_for_posture(
    browser: &BrowserProcess,
    constraints: &ReuseConstraints,
    current_boot_epoch: &Option<String>,
) -> (r: bool)
    ensures
        r == posture_of(*browser, *constraints, ov(*current_boot_epoch)),
{
    if !browser_has_live_health(browser, current_boot_epoch) {
        return false;
    }
    if let Some(h) = &constraints.browser_host {
        if !str_equal(browser.host.as_str(), h.as_str()) {
            return false;
        }
    }
    if let Some(d) = &constraints.display_isolation {
        if !opt_eq(&browser.display_isolation, d.as_str()) {
            return false;
        }
    }
    if let Some(p) = &constraints.view_stream_provider {
        let mut found = false;
        let mut i: usize = 0;
        while i < browser.view_streams.len()
            invariant
                i <= browser.view_streams@.len(),
                found <==> exists|j: int| 0 <= j < i && (#[trigger] browser.view_streams@[j]).provider@ == p@,
            decreases browser.view_streams@.len() - i,
        {
            if str_equal(browser.view_streams[i].provider.as_str(), p.as_str()) {
                found = true;
            }
            i = i + 1;
        }
        if !found {
            return false;
        }
    }
    if let Some(p) = &constraints.control_input_provider {
        let mut found = false;
        let mut i: usize = 0;
        while i < browser.view_streams.len()
            invariant
                i <= browser.view_streams@.len(),
                found <==> exists|j: int| 0 <= j < i && opt_is((#[trigger] browser.view_streams@[j]).control_input, p@),
            decreases browser.view_streams@.len() - i,
        {
            if opt_eq(&browser.view_streams[i].control_input, p.as_str()) {
                found = true;
            }
            i = i + 1;
        }
        if !found {
            return false;
        }
    }
    true
}

/// The first session (in key order) that lists a browser.
pub open spec fn first_session_listing(sessions: Seq<BrowserSession>, browser_id: Seq<char>) -> Option<Seq<char>>
    decreases sessions.len(),
{
    if sessions.len() == 0 {
        None
    } else if strs(sessions[0].browser_ids@).contains(browser_id) {
        Some(sessions[0].id@)
    } else {
        first_session_listing(sessions.drop_first(), browser_id)
    }
}

/// The daemon session to route a reused browser through: the browser's
/// first active session, else the first session that lists it, else the
/// browser id without its `session:` prefix.
pub open spec fn reusable_session_name_spec(state: ServiceState, browser_id: Seq<char>) -> Option<Seq<char>> {
    match lookup(state.browsers@, browser_id) {
        Some(b) if b.active_session_ids@.len() > 0 => Some(b.active_session_ids@[0]@),
        _ => match first_session_listing(state.sessions@, browser_id) {
            Some(s) => Some(s),
            None => if has_prefix(browser_id, "session:"@) {
                Some(browser_id.skip("session:"@.len() as int))
            } else {
                None
            },
        },
    }
}

/// The daemon session to route a reused browser through.
pub fn reusable_session_name_for_browser(state: &ServiceState, browser_id: &str) -> (r: Option<String>)
    ensures
        ov(r) == reusable_session_name_spec(*state, browser_id@),
{
    if let Some(b) = get_keyed(&state.browsers, browser_id) {
        if b.active_session_ids.len() > 0 {
            return Some(b.active_session_ids[0].clone());
        }
    }
    let sessions = &state.sessions;
    let mut i: usize = 0;
    assert(sessions@.skip(0) =~= sessions@);
    while i < sessions.len()
        invariant
            i <= sessions@.len(),
            sessions == &state.sessions,
            first_session_listing(sessions@, browser_id@) == first_session_listing(sessions@.skip(i as int), browser_id@),
            lookup(state.browsers@, browser_id@) matches Some(b) ==> b.active_session_ids@.len() == 0,
        decreases sessions@.len() - i,
    {
        assert(sessions@.skip(i as int).drop_first() =~= sessions@.skip(i + 1));
        if contains_text(&sessions[i].browser_ids, browser_id) {
            return Some(sessions[i].id.clone());
        }
        i = i + 1;
    }
    strip_prefix(browser_id, "session:")
}

/// The stable daemon route of a registered principal's first browser for a
/// profile: `principal-profile-` and 24 hexadecimal digits of the digest of
/// the principal and profile ids; none when the capability names another
/// profile.
pub open spec fn cold_session_name_spec(principal_id: Seq<char>, capability_profile_id: Seq<char>, profile_id: Seq<char>) -> Option<Seq<char>> {
    if capability_profile_id != profile_id {
        None
    } else {
        Some("principal-profile-"@ + digest_prefix_spec(principal_id + seq!['\0'] + profile_id))
    }
}

/// The stable daemon route of a registered principal's first browser. It
/// uses only public principal and profile identity, never capability
/// material, and never the transport's ambient default route.
pub fn authenticated_cold_session_name(
    authority: &AuthenticatedServicePrincipal,
    selected_profile: &BrowserProfile,
) -> (r: Option<String>)
    ensures
        ov(r) == cold_session_name_spec(authority.principal_id@, authority.profile_id@, selected_profile.id@),
{
    if !str_equal(authority.profile_id.as_str(), selected_profile.id.as_str()) {
        return None;
    }
    let key = concat3(authority.principal_id.as_str(), "\0", selected_profile.id.as_str());
    proof {
        reveal_strlit("\0");
        assert("\0"@ =~= seq!['\0']);
    }
    let suffix = digest_prefix(key.as_str());
    Some(concat2("principal-profile-", suffix.as_str()))
}

/// The little-endian bytes of `x`, `n` of them.
pub open spec fn le_bytes(x: nat, n: nat) -> Seq<u8>
    decreases n,
{
    if n == 0 {
        Seq::empty()
    } else {
        seq![(x % 256) as u8] + le_bytes(x / 256, (n - 1) as nat)
    }
}

/// Appends the eight little-endian bytes of a `u64`.
fn push_le_bytes(out: &mut Vec<u8>, x: u64)
    ensures
        final(out)@ == old(out)@ + le_bytes(x as nat, 8),
{
    let ghost start = out@;
    let mut y: u64 = x;
    let mut k: usize = 0;
    while k < 8
        invariant
            k <= 8,
            out@ + le_bytes(y as nat, (8 - k) as nat) == start + le_bytes(x as nat, 8),
        decreases 8 - k,
    {
        let ghost before = out@;
        out.push((y % 256) as u8);
        proof {
            assert(le_bytes(y as nat, (8 - k) as nat) == seq![(y % 256) as u8] + le_bytes((y / 256) as nat, (8 - k - 1) as nat));
            assert(out@ + le_bytes((y / 256) as nat, (8 - k - 1) as nat) =~= before + le_bytes(y as nat, (8 - k) as nat));
        }
        y = y / 256;
        k = k + 1;
    }
    assert(out@ =~= out@ + le_bytes(y as nat, 0));
}

/// Appends bytes.
fn append_bytes(out: &mut Vec<u8>, bytes: &[u8])
    ensures
        final(out)@ == old(out)@ + bytes@,
{
    let ghost start = out@;
    let mut i: usize = 0;
    while i < bytes.len()
        invariant
            i <= bytes@.len(),
            out@ == start + bytes@.take(i as int),
        decreases bytes@.len() - i,
    {
        out.push(bytes[i]);
        assert(bytes@.take(i + 1) =~= bytes@.take(i as int).push(bytes@[i as int]));
        assert(out@ =~= start + bytes@.take(i + 1));
        i = i + 1;
    }
    assert(bytes@.take(bytes@.len() as int) =~= bytes@);
}

/// A fresh daemon route for replacing one exact terminal owner:
/// `terminal-profile-` and 24 hexadecimal digits of the digest of the
/// profile id, the logical browser id and the owner generation's
/// little-endian bytes.
pub open spec fn terminal_launch_name_spec(profile_id: Seq<char>, logical_browser_id: Seq<char>, owner_generation: u64) -> Seq<char> {
    "terminal-profile-"@ + hex_text(
        sha256(
            encode_utf8(profile_id) + seq![0u8] + encode_utf8(logical_browser_id) + seq![0u8]
                + le_bytes(owner_generation as nat, 8),
        ).take(12),
    )
}

/// A fresh daemon route for replacing one exact terminal owner, when the
/// replacement is eligible and names the owner's browser and generation.
/// The retained route stays evidence for the owner being superseded.
pub fn terminal_replacement_launch_session_name(
    selected_profile: &BrowserProfile,
    replacement: &LifecycleReplacement,
) -> (r: Option<String>)
    ensures
        match r {
            Some(name) => {
                &&& replacement.replacement_eligible
                &&& replacement.logical_browser_id matches Some(b)
                &&& replacement.owner_generation matches Some(g)
                &&& name@ == terminal_launch_name_spec(selected_profile.id@, b@, g)
            },
            None => !replacement.replacement_eligible || replacement.logical_browser_id is None
                || replacement.owner_generation is None,
        },
{
    if !replacement.replacement_eligible {
        return None;
    }
    let browser = match &replacement.logical_browser_id {
        Some(b) => b,
        None => return None,
    };
    let generation = match replacement.owner_generation {
        Some(g) => g,
        None => return None,
    };
    let mut bytes: Vec<u8> = Vec::new();
    append_bytes(&mut bytes, selected_profile.id.as_str().as_bytes());
    bytes.push(0u8);
    append_bytes(&mut bytes, browser.as_str().as_bytes());
    bytes.push(0u8);
    push_le_bytes(&mut bytes, generation);
    let digest = sha256_digest(bytes.as_slice());
    let short = vstd::slice::slice_subrange(digest.as_slice(), 0, 12);
    let hex = hex_lower(short);
    proof {
        assert(bytes@ =~= encode_utf8(selected_profile.id@) + seq![0u8] + encode_utf8(browser@) + seq![0u8]
            + le_bytes(generation as nat, 8));
        assert(digest@.subrange(0, 12) =~= digest@.take(12));
    }
    Some(concat2("terminal-profile-", hex.as_str()))
}

/// Whether a lifecycle record carries proof that its process exited.
pub open spec fn exit_recorded(evidence: Seq<Seq<char>>) -> bool {
    exists|i: int| 0 <= i < evidence.len() && (#[trigger] evidence[i] == "exact_process_exited"@
        || has_prefix(evidence[i], "service_reconcile_process_group_absent:"@))
}

/// Whether a lifecycle record carries proof that the profile lock was released.
pub open spec fn lock_release_recorded(evidence: Seq<Seq<char>>) -> bool {
    exists|i: int| 0 <= i < evidence.len() && (#[trigger] evidence[i] == "profile_lock_released"@
        || evidence[i] == "service_reconcile_profile_lock_absent"@
        || has_prefix(evidence[i], "service_reconcile_profile_lock_stale_pid_absent:"@))
}

/// Whether a lifecycle record carries proof that its process exited.
fn has_exit_evidence(evidence: &Vec<String>) -> (r: bool)
    ensures
        r == exit_recorded(strs(evidence@)),
{
    let mut i: usize = 0;
    while i < evidence.len()
        invariant
            i <= evidence@.len(),
            forall|j: int| 0 <= j < i ==> !(strs(evidence@)[j] == "exact_process_exited"@ || has_prefix(
                strs(evidence@)[j],
                "service_reconcile_process_group_absent:"@,
            )),
        decreases evidence@.len() - i,
    {
        let e = evidence[i].as_str();
        if str_equal(e, "exact_process_exited") || starts_with(e, "service_reconcile_process_group_absent:") {
            assert(strs(evidence@)[i as int] == e@);
            return true;
        }
        i = i + 1;
    }
    false
}

/// Whether a lifecycle record carries proof that the profile lock was released.
fn has_lock_release_evidence(evidence: &Vec<String>) -> (r: bool)
    ensures
        r == lock_release_recorded(strs(evidence@)),
{
    let mut i: usize = 0;
    while i < evidence.len()
        invariant
            i <= evidence@.len(),
            forall|j: int| 0 <= j < i ==> !(strs(evidence@)[j] == "profile_lock_released"@ || strs(evidence@)[j]
                == "service_reconcile_profile_lock_absent"@ || has_prefix(
                strs(evidence@)[j],
                "service_reconcile_profile_lock_stale_pid_absent:"@,
            )),
        decreases evidence@.len() - i,
    {
        let e = evidence[i].as_str();
        if str_equal(e, "profile_lock_released") || str_equal(e, "service_reconcile_profile_lock_absent")
            || starts_with(e, "service_reconcile_profile_lock_stale_pid_absent:") {
            assert(strs(evidence@)[i as int] == e@);
            return true;
        }
        i = i + 1;
    }
    false
}

/// Whether and how a terminal lifecycle owner of a profile may be superseded.
pub struct LifecycleReplacement {
    pub available: bool,
    pub profile_id: Option<String>,
    pub registry_revision: Option<u64>,
    pub owner_id: Option<String>,
    pub owner_state: Option<ProfileOwnerState>,
    pub replacement_browser_id: Option<String>,
    pub replacement_session_name: Option<String>,
    pub logical_browser_id: Option<String>,
    pub owner_generation: Option<u64>,
    pub lifecycle_state: Option<RuntimeLaneLifecycleState>,
    pub cleanup_obligation_state: Option<String>,
    pub process_absence_proven: bool,
    pub active_profile_lease_session_ids: Vec<String>,
    pub terminal_evidence: Vec<String>,
    pub replacement_eligible: bool,
    pub reason: String,
    pub required_action: Option<String>,
}

/// The content of a lifecycle replacement decision.
pub struct ReplacementView {
    pub available: bool,
    pub profile_id: Option<Seq<char>>,
    pub registry_revision: Option<u64>,
    pub owner_id: Option<Seq<char>>,
    pub owner_state: Option<ProfileOwnerState>,
    pub replacement_browser_id: Option<Seq<char>>,
    pub replacement_session_name: Option<Seq<char>>,
    pub logical_browser_id: Option<Seq<char>>,
    pub owner_generation: Option<u64>,
    pub lifecycle_state: Option<RuntimeLaneLifecycleState>,
    pub cleanup_obligation_state: Option<Seq<char>>,
    pub process_absence_proven: bool,
    pub active_profile_lease_session_ids: Seq<Seq<char>>,
    pub terminal_evidence: Seq<Seq<char>>,
    pub replacement_eligible: bool,
    pub reason: Seq<char>,
    pub required_action: Option<Seq<char>>,
}

impl View for LifecycleReplacement {
    type V = ReplacementView;

    open spec fn view(&self) -> ReplacementView {
        ReplacementView {
            available: self.available,
            profile_id: ov(self.profile_id),
            registry_revision: self.registry_revision,
            owner_id: ov(self.owner_id),
            owner_state: self.owner_state,
            replacement_browser_id: ov(self.replacement_browser_id),
            replacement_session_name: ov(self.replacement_session_name),
            logical_browser_id: ov(self.logical_browser_id),
            owner_generation: self.owner_generation,
            lifecycle_state: self.lifecycle_state,
            cleanup_obligation_state: ov(self.cleanup_obligation_state),
            process_absence_proven: self.process_absence_proven,
            active_profile_lease_session_ids: strs(self.active_profile_lease_session_ids@),
            terminal_evidence: strs(self.terminal_evidence@),
            replacement_eligible: self.replacement_eligible,
            reason: self.reason@,
            required_action: ov(self.required_action),
        }
    }
}

/// An unavailable replacement decision.
pub open spec fn unavailable_replacement(profile_id: Option<Seq<char>>, reason: Seq<char>) -> ReplacementView {
    ReplacementView {
        available: false,
        profile_id,
        registry_revision: None,
        owner_id: None,
        owner_state: None,
        replacement_browser_id: None,
        replacement_session_name: None,
        logical_browser_id: None,
        owner_generation: None,
        lifecycle_state: None,
        cleanup_obligation_state: None,
        process_absence_proven: false,
        active_profile_lease_session_ids: Seq::empty(),
        terminal_evidence: Seq::empty(),
        replacement_eligible: false,
        reason,
        required_action: None,
    }
}

/// The lifecycle record joined to the exact current owner generation.
pub open spec fn owner_lifecycle(state: ServiceState, digest: Seq<char>, owner: Option<ProfileOwner>) -> Option<RuntimeLifecycleRecord> {
    match owner {
        Some(o) => match lookup(state.runtime_owner_registry.lifecycle_records@, o.browser_id@) {
            Some(rec) => if rec.profile_identity_digest@ == digest && rec.owner_generation == o.owner_generation {
                Some(rec)
            } else {
                None
            },
            None => None,
        },
        None => None,
    }
}

/// The reason a replacement decision gives.
pub open spec fn replacement_reason(
    owner: Option<ProfileOwner>,
    lifecycle: Option<RuntimeLifecycleRecord>,
    route: bool,
    current_process: bool,
    leases_active: bool,
    terminal_cleanup: bool,
) -> Seq<char> {
    match lifecycle {
        None => if owner is None { "no_lifecycle_owner"@ } else { "lifecycle_owner_record_missing"@ },
        Some(rec) => if route {
            "terminal_cleanup_satisfied"@
        } else if current_process {
            "terminal_process_still_live"@
        } else if leases_active {
            "terminal_profile_lease_active"@
        } else if terminal_cleanup {
            "terminal_replacement_route_inconsistent"@
        } else if rec.lifecycle_state == RuntimeLaneLifecycleState::Closing {
            "closing_lifecycle_requires_reconciliation"@
        } else {
            "lifecycle_observation_not_replacement_eligible"@
        },
    }
}

/// The action a replacement reason calls for.
pub open spec fn replacement_action(reason: Seq<char>) -> Seq<char> {
    if reason == "no_lifecycle_owner"@ {
        "launch_new_browser"@
    } else if reason == "terminal_cleanup_satisfied"@ {
        "supersede_terminal_owner"@
    } else if reason == "closing_lifecycle_requires_reconciliation"@ {
        "reconcile_lifecycle_owner"@
    } else {
        "inspect_lifecycle_owner"@
    }
}

/// The replacement decision for a profile whose identity resolves to `digest`.
pub open spec fn resolved_replacement(state: ServiceState, profile: BrowserProfile, digest: Seq<char>) -> ReplacementView {
    let owner = lookup(state.runtime_owner_registry.owners@, digest);
    let lifecycle = owner_lifecycle(state, digest, owner);
    let terminal_cleanup = lifecycle matches Some(rec) && rec.lifecycle_state == RuntimeLaneLifecycleState::Terminal
        && rec.cleanup_obligation_state@ == "satisfied"@;
    let exit = lifecycle matches Some(rec) && exit_recorded(strs(rec.terminal_evidence@));
    let lock = lifecycle matches Some(rec) && lock_release_recorded(strs(rec.terminal_evidence@));
    let current_process = owner matches Some(o) && process_proven(state, o.browser_id@);
    let absence = exit && lock && !current_process;
    let active = active_lease_session_ids(state.sessions@, profile.id@);
    let route = owner is Some && lifecycle is Some && terminal_cleanup && absence && active.len() == 0;
    let reason = replacement_reason(owner, lifecycle, route, current_process, active.len() > 0, terminal_cleanup);
    ReplacementView {
        available: true,
        profile_id: Some(profile.id@),
        registry_revision: Some(state.runtime_owner_registry.revision),
        owner_id: match owner { Some(o) => Some(o.owner_id@), None => None },
        owner_state: match owner { Some(o) => Some(o.state), None => None },
        replacement_browser_id: if route { Some(owner->0.browser_id@) } else { None },
        replacement_session_name: if route { Some(owner->0.daemon_session_route@) } else { None },
        logical_browser_id: match lifecycle { Some(rec) => Some(rec.logical_browser_id@), None => None },
        owner_generation: match lifecycle { Some(rec) => Some(rec.owner_generation), None => None },
        lifecycle_state: match lifecycle { Some(rec) => Some(rec.lifecycle_state), None => None },
        cleanup_obligation_state: match lifecycle { Some(rec) => Some(rec.cleanup_obligation_state@), None => None },
        process_absence_proven: absence,
        active_profile_lease_session_ids: active,
        terminal_evidence: match lifecycle { Some(rec) => strs(rec.terminal_evidence@), None => Seq::empty() },
        replacement_eligible: if owner is None { lifecycle is None } else { lifecycle is Some && route },
        reason,
        required_action: Some(replacement_action(reason)),
    }
}

/// The replacement decision for an optional selected profile.
pub open spec fn replacement_spec(profile: Option<BrowserProfile>, state: ServiceState) -> ReplacementView {
    match profile {
        None => unavailable_replacement(None, "no_selected_profile"@),
        Some(p) => match p.identity_digest {
            None => unavailable_replacement(Some(p.id@), "profile_identity_unavailable"@),
            Some(d) => resolved_replacement(state, p, d@),
        },
    }
}

/// Copies a list of strings.
pub fn clone_strings(v: &Vec<String>) -> (r: Vec<String>)
    ensures
        strs(r@) == strs(v@),
{
    let mut out: Vec<String> = Vec::new();
    let mut i: usize = 0;
    while i < v.len()
        invariant
            i <= v@.len(),
            strs(out@) == strs(v@).take(i as int),
        decreases v@.len() - i,
    {
        let s = v[i].clone();
        proof {
            crate::lease::lemma_strs_push(out@, s);
        }
        out.push(s);
        assert(strs(out@) =~= strs(v@).take(i + 1));
        i = i + 1;
    }
    assert(strs(v@).take(v@.len() as int) =~= strs(v@));
    out
}

/// A decision that no replacement is available.
fn unavailable(profile_id: Option<String>, reason: &str) -> (r: LifecycleReplacement)
    ensures
        r@ == unavailable_replacement(ov(profile_id), reason@),
{
    let r = LifecycleReplacement {
        available: false,
        profile_id,
        registry_revision: None,
        owner_id: None,
        owner_state: None,
        replacement_browser_id: None,
        replacement_session_name: None,
        logical_browser_id: None,
        owner_generation: None,
        lifecycle_state: None,
        cleanup_obligation_state: None,
        process_absence_proven: false,
        active_profile_lease_session_ids: Vec::new(),
        terminal_evidence: Vec::new(),
        replacement_eligible: false,
        reason: owned(reason),
        required_action: None,
    };
    assert(strs(r.active_profile_lease_session_ids@) =~= Seq::<Seq<char>>::empty());
    assert(strs(r.terminal_evidence@) =~= Seq::<Seq<char>>::empty());
    assert(r@ =~= unavailable_replacement(ov(profile_id), reason@));
    r
}

/// Projects replacement authority and the exact daemon route that can
/// supersede one cleanup-satisfied terminal owner. Only the lifecycle record
/// joined to the exact current owner generation takes part in the decision.
#[verifier::rlimit(40)]
#[verifier::spinoff_prover]
pub fn lifecycle_replacement_decision(selected_profile: Option<&BrowserProfile>, state: &ServiceState) -> (r: LifecycleReplacement)
    ensures
        r@ == replacement_spec(
            match selected_profile {
                Some(p) => Some(*p),
                None => None,
            },
            *state,
        ),
{
    let profile = match selected_profile {
        Some(p) => p,
        None => return unavailable(None, "no_selected_profile"),
    };
    let digest = match &profile.identity_digest {
        Some(d) => d,
        None => return unavailable(Some(profile.id.clone()), "profile_identity_unavailable"),
    };
    let owner = get_keyed(&state.runtime_owner_registry.owners, digest.as_str());
    let lifecycle: Option<&RuntimeLifecycleRecord> = match owner {
        Some(o) => match get_keyed(&state.runtime_owner_registry.lifecycle_records, o.browser_id.as_str()) {
            Some(rec) => if str_equal(rec.profile_identity_digest.as_str(), digest.as_str())
                && rec.owner_generation == o.owner_generation {
                Some(rec)
            } else {
                None
            },
            None => None,
        },
        None => None,
    };
    let ghost owner_v: Option<ProfileOwner> = match owner { Some(o) => Some(*o), None => None };
    let ghost lifecycle_v: Option<RuntimeLifecycleRecord> = match lifecycle { Some(l) => Some(*l), None => None };
    assert(lifecycle_v == owner_lifecycle(*state, digest@, owner_v));
    let terminal_cleanup = match lifecycle {
        Some(rec) => rec.lifecycle_state == RuntimeLaneLifecycleState::Terminal && str_equal(
            rec.cleanup_obligation_state.as_str(),
            "satisfied",
        ),
        None => false,
    };
    let exit = match lifecycle {
        Some(rec) => has_exit_evidence(&rec.terminal_evidence),
        None => false,
    };
    let lock = match lifecycle {
        Some(rec) => has_lock_release_evidence(&rec.terminal_evidence),
        None => false,
    };
    let current_process = match owner {
        Some(o) => match get_keyed(&state.browsers, o.browser_id.as_str()) {
            Some(b) => b.pid.is_some(),
            None => false,
        },
        None => false,
    };
    let absence = exit && lock && !current_process;
    let active = active_profile_lease_session_ids(state, profile.id.as_str());
    let route = owner.is_some() && lifecycle.is_some() && terminal_cleanup && absence && active.len() == 0;
    let reason: &str = match lifecycle {
        None => if owner.is_none() { "no_lifecycle_owner" } else { "lifecycle_owner_record_missing" },
        Some(rec) => if route {
            "terminal_cleanup_satisfied"
        } else if current_process {
            "terminal_process_still_live"
        } else if active.len() > 0 {
            "terminal_profile_lease_active"
        } else if terminal_cleanup {
            "terminal_replacement_route_inconsistent"
        } else if rec.lifecycle_state == RuntimeLaneLifecycleState::Closing {
            "closing_lifecycle_requires_reconciliation"
        } else {
            "lifecycle_observation_not_replacement_eligible"
        },
    };
    proof {
        reveal_strlit("no_lifecycle_owner");
        reveal_strlit("terminal_cleanup_satisfied");
        reveal_strlit("closing_lifecycle_requires_reconciliation");
        reveal_strlit("lifecycle_owner_record_missing");
        reveal_strlit("terminal_process_still_live");
        reveal_strlit("terminal_profile_lease_active");
        reveal_strlit("terminal_replacement_route_inconsistent");
        reveal_strlit("lifecycle_observation_not_replacement_eligible");
    }
    let required: &str = if str_equal(reason, "no_lifecycle_owner") {
        "launch_new_browser"
    } else if str_equal(reason, "terminal_cleanup_satisfied") {
        "supersede_terminal_owner"
    } else if str_equal(reason, "closing_lifecycle_requires_reconciliation") {
        "reconcile_lifecycle_owner"
    } else {
        "inspect_lifecycle_owner"
    };
    let eligible = match owner {
        None => lifecycle.is_none(),
        Some(_) => lifecycle.is_some() && route,
    };
    let r = LifecycleReplacement {
        available: true,
        profile_id: Some(profile.id.clone()),
        registry_revision: Some(state.runtime_owner_registry.revision),
        owner_id: match owner { Some(o) => Some(o.owner_id.clone()), None => None },
        owner_state: match owner { Some(o) => Some(o.state), None => None },
        replacement_browser_id: match owner { Some(o) => if route { Some(o.browser_id.clone()) } else { None }, None => None },
        replacement_session_name: match owner { Some(o) => if route { Some(o.daemon_session_route.clone()) } else { None }, None => None },
        logical_browser_id: match lifecycle { Some(rec) => Some(rec.logical_browser_id.clone()), None => None },
        owner_generation: match lifecycle { Some(rec) => Some(rec.owner_generation), None => None },
        lifecycle_state: match lifecycle { Some(rec) => Some(rec.lifecycle_state), None => None },
        cleanup_obligation_state: match lifecycle { Some(rec) => Some(rec.cleanup_obligation_state.clone()), None => None },
        process_absence_proven: absence,
        active_profile_lease_session_ids: active,
        terminal_evidence: match lifecycle { Some(rec) => clone_strings(&rec.terminal_evidence), None => Vec::new() },
        replacement_eligible: eligible,
        reason: owned(reason),
        required_action: Some(owned(required)),
    };
    let ghost spec = resolved_replacement(*state, *profile, digest@);
    assert(r@.process_absence_proven == spec.process_absence_proven);
    assert(r@.replacement_eligible == spec.replacement_eligible);
    assert(r@.reason == spec.reason);
    assert(r@.required_action == spec.required_action);
    assert(r@.replacement_browser_id == spec.replacement_browser_id);
    assert(r@.terminal_evidence == spec.terminal_evidence);
    assert(r@.active_profile_lease_session_ids == spec.active_profile_lease_session_ids);
    assert(r@ =~= resolved_replacement(*state, *profile, digest@));
    r
}

} // verus!
