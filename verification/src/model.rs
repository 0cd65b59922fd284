//! A snapshot of Service State: the profiles, browsers, sessions, tabs,
//! routes, lifecycle owners and registered principals that the lease,
//! recovery and acquisition projections read.
//!
//! Every keyed collection is held as a vector ordered strictly by key, which
//! is the iteration order of the keyed map it stands for.

use vstd::prelude::*;
use crate::lifecycle::{ProfileLifecycleAuthorization, ProfileLifecycleEffectReceipt};
use crate::reconcile::ProfileLeaseReconcileReceipt;
use crate::recovery_apply::RecoveryReceipt;
use crate::seqs::{lemma_seq_lt_irreflexive, lemma_seq_lt_total, lemma_seq_lt_transitive};
use crate::text::{seq_lt, str_equal, str_lt};

verus! {

/// How a browser session holds its profile.
#[derive(PartialEq, Eq, Structural, Clone, Copy)]
pub enum LeaseState {
    Shared,
    Exclusive,
    HumanTakeover,
    Released,
    Expired,
}

/// Whether a tab can still do work.
#[derive(PartialEq, Eq, Structural, Clone, Copy)]
pub enum TabLifecycle {
    Ready,
    Closing,
    Closed,
    Crashed,
}

/// Where a principal's authority over a profile comes from.
#[derive(PartialEq, Eq, Structural, Clone, Copy)]
pub enum ServicePrincipalProvenance {
    RegisteredCapability,
    UnprovenLegacy,
}

/// The state of a lifecycle owner of a profile identity.
#[derive(PartialEq, Eq, Structural, Clone, Copy)]
pub enum ProfileOwnerState {
    Ready,
    Transferring,
    Failed,
}

/// The state of a runtime lane's lifecycle record.
#[derive(PartialEq, Eq, Structural, Clone, Copy)]
pub enum RuntimeLaneLifecycleState {
    Launching,
    Ready,
    Closing,
    Terminal,
}

/// Whether a registered principal or capability is usable.
#[derive(PartialEq, Eq, Structural, Clone, Copy)]
pub enum RegistrationState {
    Active,
    Revoked,
}

/// The continuity recourse a lease projection offers its principal.
#[derive(PartialEq, Eq, Structural, Clone, Copy)]
pub enum PrincipalContinuityRecourse {
    RejoinOwnedBrowser,
    WaitForForeignPrincipal,
    ReconcilePrincipalIdentity,
    ReplaceStaleSamePrincipalSession,
}

/// A stored browser profile.
pub struct BrowserProfile {
    pub id: String,
    pub user_data_dir: Option<String>,
    /// Canonical identity digest of the profile directory, when it resolves.
    pub identity_digest: Option<String>,
    /// How the profile came to be known, in its snake_case form.
    pub profile_origin: String,
    /// The profile class, in its snake_case form.
    pub profile_class: String,
    /// The fence of the profile's access policy, when it has one.
    pub access_fence: Option<ProfileAccessFence>,
    /// The services the profile is meant for.
    pub target_service_ids: Vec<String>,
    /// The services the profile is signed in to.
    pub authenticated_service_ids: Vec<String>,
}

/// The part of a profile's access policy that fences lifecycle effects: its
/// revision, whether it is draining, and whether its drain authorizes force.
pub struct ProfileAccessFence {
    pub revision: u64,
    pub draining: bool,
    pub force_authorized: bool,
}

/// One view stream offered by a browser.
pub struct ViewStream {
    pub provider: String,
    pub control_input: Option<String>,
}

/// A browser process record.
pub struct BrowserProcess {
    pub id: String,
    pub profile_id: Option<String>,
    pub pid: Option<u64>,
    /// Health, in its snake_case form.
    pub health: String,
    pub boot_epoch: Option<String>,
    /// Browser host, in its snake_case form.
    pub host: String,
    pub display_isolation: Option<String>,
    pub view_streams: Vec<ViewStream>,
    pub active_session_ids: Vec<String>,
}

/// A browser session record.
pub struct BrowserSession {
    pub id: String,
    pub profile_id: Option<String>,
    pub lease: LeaseState,
    pub expires_at: Option<String>,
    pub principal_id: Option<String>,
    pub principal_provenance: Option<ServicePrincipalProvenance>,
    pub browser_ids: Vec<String>,
    pub tab_ids: Vec<String>,
    pub last_lease_observed_at: Option<String>,
    pub boot_epoch: Option<String>,
    pub work_lease_revision: u64,
}

/// A browser tab record.
pub struct BrowserTab {
    pub id: String,
    pub browser_id: String,
    pub owner_session_id: Option<String>,
    pub principal_id: Option<String>,
    pub principal_provenance: Option<ServicePrincipalProvenance>,
    pub lifecycle: TabLifecycle,
    pub work_lease_expires_at: Option<String>,
    pub target_id: Option<String>,
    /// The daemon session the tab was opened through, when recorded apart
    /// from its owner session.
    pub session_id: Option<String>,    /// The service tab handle issued for the tab, when there is one.
    pub service_tab_handle: Option<ServiceTabHandle>,
}

/// A service tab handle: the daemon session it names, whether it is still
/// valid, and why it went stale.
pub struct ServiceTabHandle {
    pub session_name: Option<String>,
    pub valid: bool,
    pub stale_reason: Option<String>,
}

/// The kind of a service event.
#[derive(PartialEq, Eq, Structural, Clone, Copy)]
pub enum ServiceEventKind {
    TabLifecycleChanged,
}

/// One event of the service's event log.
pub struct ServiceEvent {
    pub id: String,
    pub timestamp: String,
    pub kind: ServiceEventKind,
    pub message: String,
    pub browser_id: Option<String>,
    pub profile_id: Option<String>,
    pub session_id: Option<String>,
    pub service_name: Option<String>,
    pub agent_name: Option<String>,
    pub task_name: Option<String>,
    pub details: Option<crate::json::JsonValue>,
}

/// A remote view route.
pub struct RemoteViewRoute {
    pub id: String,
    pub browser_id: Option<String>,
    pub session_id: Option<String>,
    /// The viewer leases watching through the route.
    pub viewer_lease_ids: Vec<String>,
    /// The last event the route's provider reported, in its snake_case form.
    pub last_provider_event: Option<String>,
}

/// A lease of one remote viewer.
pub struct ViewerLease {
    pub id: String,
    /// The lease state, in its snake_case form.
    pub state: String,
    /// The last viewer event, in its snake_case form.
    pub last_viewer_event: Option<String>,
    pub updated_at: Option<String>,
}

/// The lifecycle owner of one profile identity.
pub struct ProfileOwner {
    pub owner_id: String,
    pub profile_identity_digest: String,
    pub state: ProfileOwnerState,
    pub owner_generation: u64,
    pub browser_id: String,
    pub daemon_session_route: String,
    pub process_instance_digest: String,
    pub pending_transfer: bool,
}

/// A principal's binding to the owner of a profile identity.
pub struct RuntimeOwnerPrincipalBinding {
    pub principal_id: String,
    pub profile_id: String,
    pub profile_identity_digest: String,
    pub capability_id: String,
    pub provenance: ServicePrincipalProvenance,
    pub owner_generation: u64,
}

/// The lifecycle record of one logical browser.
pub struct RuntimeLifecycleRecord {
    pub logical_browser_id: String,
    pub profile_identity_digest: String,
    pub owner_generation: u64,
    pub lifecycle_state: RuntimeLaneLifecycleState,
    /// Cleanup obligation, in its snake_case form.
    pub cleanup_obligation_state: String,
    pub terminal_evidence: Vec<String>,
}

/// Owners, principal bindings and lifecycle records.
pub struct RuntimeOwnerRegistry {
    pub revision: u64,
    /// Keyed by profile identity digest.
    pub owners: Vec<ProfileOwner>,
    /// Keyed by profile identity digest.
    pub principal_bindings: Vec<RuntimeOwnerPrincipalBinding>,
    /// Keyed by logical browser id.
    pub lifecycle_records: Vec<RuntimeLifecycleRecord>,
}

/// A registered service principal.
pub struct ServicePrincipal {
    pub principal_id: String,
    pub state: RegistrationState,
}

/// A registered profile capability (its digest stays outside this model).
pub struct ServiceProfileCapability {
    pub capability_id: String,
    pub principal_id: String,
    pub profile_id: String,
    pub revision: u64,
    pub state: RegistrationState,
}

/// The principal registry.
pub struct ServicePrincipals {
    pub principals: Vec<ServicePrincipal>,
    pub profile_capabilities: Vec<ServiceProfileCapability>,
}

/// An authenticated principal authority over one profile.
pub struct AuthenticatedServicePrincipal {
    pub principal_id: String,
    pub profile_id: String,
    pub capability_id: String,
    pub capability_revision: u64,
    pub provenance: ServicePrincipalProvenance,
}

/// Records with a key.
pub trait Keyed {
    spec fn key_view(&self) -> Seq<char>;

    fn key(&self) -> (k: &str)
        ensures
            k@ == self.key_view(),
    ;
}

impl Keyed for BrowserProfile {
    open spec fn key_view(&self) -> Seq<char> {
        self.id@
    }

    fn key(&self) -> (k: &str) {
        self.id.as_str()
    }
}

impl Keyed for BrowserProcess {
    open spec fn key_view(&self) -> Seq<char> {
        self.id@
    }

    fn key(&self) -> (k: &str) {
        self.id.as_str()
    }
}

impl Keyed for BrowserSession {
    open spec fn key_view(&self) -> Seq<char> {
        self.id@
    }

    fn key(&self) -> (k: &str) {
        self.id.as_str()
    }
}

impl Keyed for BrowserTab {
    open spec fn key_view(&self) -> Seq<char> {
        self.id@
    }

    fn key(&self) -> (k: &str) {
        self.id.as_str()
    }
}

impl Keyed for ViewerLease {
    open spec fn key_view(&self) -> Seq<char> {
        self.id@
    }

    fn key(&self) -> (k: &str) {
        self.id.as_str()
    }
}

impl Keyed for RemoteViewRoute {
    open spec fn key_view(&self) -> Seq<char> {
        self.id@
    }

    fn key(&self) -> (k: &str) {
        self.id.as_str()
    }
}

impl Keyed for ProfileOwner {
    open spec fn key_view(&self) -> Seq<char> {
        self.profile_identity_digest@
    }

    fn key(&self) -> (k: &str) {
        self.profile_identity_digest.as_str()
    }
}

impl Keyed for RuntimeOwnerPrincipalBinding {
    open spec fn key_view(&self) -> Seq<char> {
        self.profile_identity_digest@
    }

    fn key(&self) -> (k: &str) {
        self.profile_identity_digest.as_str()
    }
}

impl Keyed for RuntimeLifecycleRecord {
    open spec fn key_view(&self) -> Seq<char> {
        self.logical_browser_id@
    }

    fn key(&self) -> (k: &str) {
        self.logical_browser_id.as_str()
    }
}

impl Keyed for ServicePrincipal {
    open spec fn key_view(&self) -> Seq<char> {
        self.principal_id@
    }

    fn key(&self) -> (k: &str) {
        self.principal_id.as_str()
    }
}

impl Keyed for ServiceProfileCapability {
    open spec fn key_view(&self) -> Seq<char> {
        self.capability_id@
    }

    fn key(&self) -> (k: &str) {
        self.capability_id.as_str()
    }
}

/// Whether the records are ordered strictly by key.
pub open spec fn keys_sorted<T: Keyed>(s: Seq<T>) -> bool {
    forall|i: int, j: int| 0 <= i < j < s.len() ==> seq_lt(#[trigger] s[i].key_view(), #[trigger] s[j].key_view())
}

/// The first record with key `k`.
pub open spec fn lookup<T: Keyed>(s: Seq<T>, k: Seq<char>) -> Option<T>
    decreases s.len(),
{
    if s.len() == 0 {
        None
    } else if s[0].key_view() == k {
        Some(s[0])
    } else {
        lookup(s.drop_first(), k)
    }
}

/// The first index `i` with key `k`, as an option.
pub open spec fn lookup_index<T: Keyed>(s: Seq<T>, k: Seq<char>) -> Option<nat>
    decreases s.len(),
{
    if s.len() == 0 {
        None
    } else if s[0].key_view() == k {
        Some(0)
    } else {
        match lookup_index(s.drop_first(), k) {
            Some(i) => Some(i + 1),
            None => None,
        }
    }
}

/// `lookup` agrees with `lookup_index`.
pub proof fn lemma_lookup_index<T: Keyed>(s: Seq<T>, k: Seq<char>)
    ensures
        match lookup_index(s, k) {
            Some(i) => i < s.len() && lookup(s, k) == Some(s[i as int]) && s[i as int].key_view() == k,
            None => lookup(s, k) is None && forall|j: int| 0 <= j < s.len() ==> s[j].key_view() != k,
        },
    decreases s.len(),
{
    if s.len() > 0 && s[0].key_view() != k {
        lemma_lookup_index(s.drop_first(), k);
        if lookup_index(s.drop_first(), k) is None {
            assert forall|j: int| 0 <= j < s.len() implies s[j].key_view() != k by {
                if j > 0 {
                    assert(s[j] == s.drop_first()[j - 1]);
                }
            }
        }
    }
}

/// The index of the first record with key `k`.
pub fn find_key<T: Keyed>(v: &Vec<T>, k: &str) -> (r: Option<usize>)
    ensures
        match r {
            Some(i) => lookup_index(v@, k@) == Some(i as nat),
            None => lookup_index(v@, k@) is None,
        },
{
    let mut i: usize = 0;
    assert(v@.skip(0) =~= v@);
    while i < v.len()
        invariant
            i <= v@.len(),
            forall|j: int| 0 <= j < i ==> v@[j].key_view() != k@,
            lookup_index(v@.skip(i as int), k@) matches Some(t) ==> lookup_index(v@, k@) == Some((t + i) as nat),
            lookup_index(v@.skip(i as int), k@) is None ==> lookup_index(v@, k@) is None,
        decreases v@.len() - i,
    {
        assert(v@.skip(i as int).drop_first() =~= v@.skip(i + 1));
        if str_equal(v[i].key(), k) {
            return Some(i);
        }
        i = i + 1;
    }
    None
}

/// In a key-ordered sequence, `lookup` finds the record that holds a key.
pub proof fn lemma_lookup_sorted<T: Keyed>(s: Seq<T>, i: int)
    requires
        keys_sorted(s),
        0 <= i < s.len(),
    ensures
        lookup(s, s[i].key_view()) == Some(s[i]),
{
    let k = s[i].key_view();
    lemma_lookup_index(s, k);
    match lookup_index(s, k) {
        Some(j) => {
            if j < i {
                assert(seq_lt(s[j as int].key_view(), s[i].key_view()));
                lemma_seq_lt_irreflexive(k);
            } else if j > i {
                assert(seq_lt(s[i].key_view(), s[j as int].key_view()));
                lemma_seq_lt_irreflexive(k);
            }
        },
        None => {},
    }
}

/// `lookup` finds nothing for a key no record holds.
pub proof fn lemma_lookup_absent<T: Keyed>(s: Seq<T>, k: Seq<char>)
    requires
        forall|j: int| 0 <= j < s.len() ==> (#[trigger] s[j]).key_view() != k,
    ensures
        lookup(s, k) is None,
{
    lemma_lookup_index(s, k);
}

/// Inserts a record with a new key into a key-ordered vector, keeping it
/// ordered; every other key finds what it found before.
pub fn insert_keyed<T: Keyed>(v: &mut Vec<T>, x: T)
    requires
        keys_sorted(old(v)@),
        lookup(old(v)@, x.key_view()) is None,
    ensures
        keys_sorted(final(v)@),
        final(v)@.len() == old(v)@.len() + 1,
        forall|k: Seq<char>| #[trigger] lookup(final(v)@, k) == if k == x.key_view() {
            Some(x)
        } else {
            lookup(old(v)@, k)
        },
{
    let ghost before = v@;
    let ghost xk = x.key_view();
    proof {
        lemma_lookup_index(before, xk);
    }
    let mut i: usize = 0;
    while i < v.len() && str_lt(v[i].key(), x.key())
        invariant
            i <= v@.len(),
            v@ == before,
            keys_sorted(before),
            xk == x.key_view(),
            forall|j: int| 0 <= j < i ==> seq_lt(#[trigger] before[j].key_view(), xk),
        decreases v@.len() - i,
    {
        i = i + 1;
    }
    proof {
        if i < before.len() {
            lemma_seq_lt_total(before[i as int].key_view(), xk);
            assert(before[i as int].key_view() != xk);
        }
    }
    v.insert(i, x);
    let ghost after = v@;
    assert(after =~= before.insert(i as int, x));
    assert forall|a: int, b: int| 0 <= a < b < after.len() implies seq_lt(
        #[trigger] after[a].key_view(),
        #[trigger] after[b].key_view(),
    ) by {
        if b < i {
        } else if a < i && b == i {
        } else if a < i && b > i {
            if b - 1 > i {
                assert(seq_lt(before[i as int].key_view(), before[b - 1].key_view()));
                lemma_seq_lt_transitive(xk, before[i as int].key_view(), before[b - 1].key_view());
            }
            lemma_seq_lt_transitive(before[a].key_view(), xk, before[b - 1].key_view());
        } else if a == i {
            if b - 1 > i {
                lemma_seq_lt_transitive(xk, before[i as int].key_view(), before[b - 1].key_view());
            }
        } else {
        }
    }
    assert forall|k: Seq<char>| #[trigger] lookup(after, k) == if k == xk {
        Some(x)
    } else {
        lookup(before, k)
    } by {
        if k == xk {
            lemma_lookup_sorted(after, i as int);
        } else if exists|j: int| 0 <= j < after.len() && (#[trigger] after[j]).key_view() == k {
            let j = choose|j: int| 0 <= j < after.len() && (#[trigger] after[j]).key_view() == k;
            lemma_lookup_sorted(after, j);
            if j < i {
                lemma_lookup_sorted(before, j);
            } else {
                assert(after[j] == before[j - 1]);
                lemma_lookup_sorted(before, j - 1);
            }
        } else {
            lemma_lookup_absent(after, k);
            assert forall|j: int| 0 <= j < before.len() implies (#[trigger] before[j]).key_view() != k by {
                if j < i {
                    assert(after[j] == before[j]);
                } else {
                    assert(after[j + 1] == before[j]);
                }
            }
            lemma_lookup_absent(before, k);
        }
    }
}

/// Replacing a record by one with the same key keeps the order, and only
/// that key finds something new.
pub proof fn lemma_lookup_update<T: Keyed>(s: Seq<T>, i: int, x: T)
    requires
        keys_sorted(s),
        0 <= i < s.len(),
        x.key_view() == s[i].key_view(),
    ensures
        keys_sorted(s.update(i, x)),
        forall|k: Seq<char>| #[trigger] lookup(s.update(i, x), k) == if k == x.key_view() {
            Some(x)
        } else {
            lookup(s, k)
        },
{
    let t = s.update(i, x);
    assert forall|a: int, b: int| 0 <= a < b < t.len() implies seq_lt(
        #[trigger] t[a].key_view(),
        #[trigger] t[b].key_view(),
    ) by {
        assert(t[a].key_view() == s[a].key_view());
        assert(t[b].key_view() == s[b].key_view());
    }
    assert forall|k: Seq<char>| #[trigger] lookup(t, k) == if k == x.key_view() {
        Some(x)
    } else {
        lookup(s, k)
    } by {
        if k == x.key_view() {
            lemma_lookup_sorted(t, i);
        } else if exists|j: int| 0 <= j < t.len() && (#[trigger] t[j]).key_view() == k {
            let j = choose|j: int| 0 <= j < t.len() && (#[trigger] t[j]).key_view() == k;
            lemma_lookup_sorted(t, j);
            lemma_lookup_sorted(s, j);
        } else {
            lemma_lookup_absent(t, k);
            assert forall|j: int| 0 <= j < s.len() implies (#[trigger] s[j]).key_view() != k by {
                assert(t[j].key_view() == s[j].key_view());
            }
            lemma_lookup_absent(s, k);
        }
    }
}

/// Stores a record under its key: replaces the record with that key, or
/// inserts it in key order.
pub fn upsert_keyed<T: Keyed>(v: &mut Vec<T>, x: T)
    requires
        keys_sorted(old(v)@),
    ensures
        keys_sorted(final(v)@),
        forall|k: Seq<char>| #[trigger] lookup(final(v)@, k) == if k == x.key_view() {
            Some(x)
        } else {
            lookup(old(v)@, k)
        },
{
    proof {
        lemma_lookup_index(v@, x.key_view());
    }
    match find_key(v, x.key()) {
        Some(i) => {
            proof {
                lemma_lookup_update(v@, i as int, x);
            }
            v.set(i, x);
        },
        None => {
            insert_keyed(v, x);
        },
    }
}

/// The first record with key `k`.
pub fn get_keyed<'a, T: Keyed>(v: &'a Vec<T>, k: &str) -> (r: Option<&'a T>)
    ensures
        match r {
            Some(t) => lookup(v@, k@) == Some(*t),
            None => lookup(v@, k@) is None,
        },
{
    proof {
        lemma_lookup_index(v@, k@);
    }
    match find_key(v, k) {
        Some(i) => Some(&v[i]),
        None => None,
    }
}

/// The view of an optional string.
pub open spec fn ov(o: Option<String>) -> Option<Seq<char>> {
    match o {
        Some(s) => Some(s@),
        None => None,
    }
}

/// Whether an optional string holds exactly `s`.
pub open spec fn opt_is(o: Option<String>, s: Seq<char>) -> bool {
    o matches Some(v) && v@ == s
}

/// Whether an optional string holds exactly `s`.
pub fn opt_eq(o: &Option<String>, s: &str) -> (r: bool)
    ensures
        r == opt_is(*o, s@),
{
    match o {
        Some(v) => str_equal(v.as_str(), s),
        None => false,
    }
}

/// A copy of an optional string.
pub fn clone_opt(o: &Option<String>) -> (r: Option<String>)
    ensures
        ov(r) == ov(*o),
{
    match o {
        Some(v) => Some(v.clone()),
        None => None,
    }
}

impl ServiceState {
    /// Whether every keyed collection is ordered strictly by key.
    pub open spec fn wf(&self) -> bool {
        &&& keys_sorted(self.profiles@)
        &&& keys_sorted(self.browsers@)
        &&& keys_sorted(self.sessions@)
        &&& keys_sorted(self.tabs@)
        &&& keys_sorted(self.remote_view_routes@)
        &&& keys_sorted(self.runtime_owner_registry.owners@)
        &&& keys_sorted(self.runtime_owner_registry.principal_bindings@)
        &&& keys_sorted(self.runtime_owner_registry.lifecycle_records@)
        &&& keys_sorted(self.service_principals.principals@)
        &&& keys_sorted(self.service_principals.profile_capabilities@)
        &&& keys_sorted(self.profile_lifecycle_authorizations@)
    }
}

/// A snapshot of Service State.
pub struct ServiceState {
    /// The revision of the whole service state.
    pub state_revision: u64,
    /// Keyed by profile id.
    pub profiles: Vec<BrowserProfile>,
    /// Keyed by browser id.
    pub browsers: Vec<BrowserProcess>,
    /// Keyed by session id.
    pub sessions: Vec<BrowserSession>,
    /// Keyed by tab id.
    pub tabs: Vec<BrowserTab>,
    /// Keyed by route id.
    pub remote_view_routes: Vec<RemoteViewRoute>,
    pub runtime_owner_registry: RuntimeOwnerRegistry,
    pub service_principals: ServicePrincipals,
    /// Keyed by authorization id.
    pub profile_lifecycle_authorizations: Vec<ProfileLifecycleAuthorization>,
    /// Keyed by receipt id.
    pub profile_lifecycle_effect_receipts: Vec<ProfileLifecycleEffectReceipt>,
    /// Keyed by idempotency key.
    pub profile_lease_reconcile_receipts: Vec<ProfileLeaseReconcileReceipt>,
    /// Keyed by viewer lease id.
    pub viewer_leases: Vec<ViewerLease>,
    /// The service event log, oldest first.
    pub events: Vec<ServiceEvent>,
    /// Keyed by recovery id.
    pub profile_recovery_receipts: Vec<RecoveryReceipt>,
}

/// Whether an authenticated authority still matches an active registration:
/// its capability is active, registered to the same principal and profile at
/// the same revision, the principal is active, and the authority comes from a
/// registered capability.
pub open spec fn authority_is_current_spec(
    principals: ServicePrincipals,
    authority: AuthenticatedServicePrincipal,
) -> bool {
    &&& authority.provenance == ServicePrincipalProvenance::RegisteredCapability
    &&& lookup(principals.profile_capabilities@, authority.capability_id@) matches Some(c)
    &&& c.state == RegistrationState::Active
    &&& c.principal_id@ == authority.principal_id@
    &&& c.profile_id@ == authority.profile_id@
    &&& c.revision == authority.capability_revision
    &&& lookup(principals.principals@, authority.principal_id@) matches Some(p)
    &&& p.state == RegistrationState::Active
}

/// Whether an authenticated authority still matches an active registration.
pub fn authenticated_authority_is_current(
    principals: &ServicePrincipals,
    authority: &AuthenticatedServicePrincipal,
) -> (r: bool)
    ensures
        r == authority_is_current_spec(*principals, *authority),
{
    if authority.provenance != ServicePrincipalProvenance::RegisteredCapability {
        return false;
    }
    let capability = match get_keyed(&principals.profile_capabilities, authority.capability_id.as_str()) {
        Some(c) => c,
        None => return false,
    };
    if capability.state != RegistrationState::Active
        || !str_equal(capability.principal_id.as_str(), authority.principal_id.as_str())
        || !str_equal(capability.profile_id.as_str(), authority.profile_id.as_str())
        || capability.revision != authority.capability_revision
    {
        return false;
    }
    match get_keyed(&principals.principals, authority.principal_id.as_str()) {
        Some(p) => p.state == RegistrationState::Active,
        None => false,
    }
}

/// Whether a principal binding names the current generation of its owner.
pub open spec fn binding_is_current_spec(
    registry: RuntimeOwnerRegistry,
    binding: RuntimeOwnerPrincipalBinding,
) -> bool {
    &&& lookup(registry.owners@, binding.profile_identity_digest@) matches Some(owner)
    &&& owner.state == ProfileOwnerState::Ready
    &&& owner.owner_generation == binding.owner_generation
}

/// Whether a principal binding names the current generation of its owner.
pub fn principal_binding_is_current(
    registry: &RuntimeOwnerRegistry,
    binding: &RuntimeOwnerPrincipalBinding,
) -> (r: bool)
    ensures
        r == binding_is_current_spec(*registry, *binding),
{
    match get_keyed(&registry.owners, binding.profile_identity_digest.as_str()) {
        Some(owner) => owner.state == ProfileOwnerState::Ready && owner.owner_generation
            == binding.owner_generation,
        None => false,
    }
}

/// Whether a binding belongs to an authority: same principal, profile,
/// capability and provenance.
pub open spec fn binding_matches_authority(
    binding: RuntimeOwnerPrincipalBinding,
    authority: AuthenticatedServicePrincipal,
) -> bool {
    &&& binding.principal_id@ == authority.principal_id@
    &&& binding.profile_id@ == authority.profile_id@
    &&& binding.capability_id@ == authority.capability_id@
    &&& binding.provenance == authority.provenance
}

/// Whether a binding belongs to an authority.
pub fn binding_matches(
    binding: &RuntimeOwnerPrincipalBinding,
    authority: &AuthenticatedServicePrincipal,
) -> (r: bool)
    ensures
        r == binding_matches_authority(*binding, *authority),
{
    str_equal(binding.principal_id.as_str(), authority.principal_id.as_str())
        && str_equal(binding.profile_id.as_str(), authority.profile_id.as_str())
        && str_equal(binding.capability_id.as_str(), authority.capability_id.as_str())
        && binding.provenance == authority.provenance
}

/// The first binding (in key order) that belongs to an authority.
pub open spec fn first_binding_for(
    bindings: Seq<RuntimeOwnerPrincipalBinding>,
    authority: AuthenticatedServicePrincipal,
) -> Option<RuntimeOwnerPrincipalBinding>
    decreases bindings.len(),
{
    if bindings.len() == 0 {
        None
    } else if binding_matches_authority(bindings[0], authority) {
        Some(bindings[0])
    } else {
        first_binding_for(bindings.drop_first(), authority)
    }
}

/// The first binding that belongs to an authority.
pub fn find_binding_for<'a>(
    bindings: &'a Vec<RuntimeOwnerPrincipalBinding>,
    authority: &AuthenticatedServicePrincipal,
) -> (r: Option<&'a RuntimeOwnerPrincipalBinding>)
    ensures
        match r {
            Some(b) => first_binding_for(bindings@, *authority) == Some(*b),
            None => first_binding_for(bindings@, *authority) is None,
        },
{
    let mut i: usize = 0;
    assert(bindings@.skip(0) =~= bindings@);
    while i < bindings.len()
        invariant
            i <= bindings@.len(),
            first_binding_for(bindings@, *authority) == first_binding_for(
                bindings@.skip(i as int),
                *authority,
            ),
        decreases bindings@.len() - i,
    {
        assert(bindings@.skip(i as int).drop_first() =~= bindings@.skip(i + 1));
        if binding_matches(&bindings[i], authority) {
            return Some(&bindings[i]);
        }
        i = i + 1;
    }
    None
}

} // verus!
