//! Profile diagnosis: the findings that a profile's owner, browser record,
//! principal binding and Chrome singleton lock give, and the state they put
//! the profile in. Process and lock observations are made by the caller.

use vstd::prelude::*;
use crate::model::{get_keyed, lookup, ov, BrowserProcess, ProfileOwner, ProfileOwnerState, ServiceState};
use crate::lease::contains_text;
use crate::recovery::{recovery_digest_spec, recovery_profile_identity_digest};
use crate::seqs::{lemma_filter_take_step, lemma_take_full};
use crate::digest::{digest_text, digest_text_spec};
use crate::json::{decimal, push_decimal, push_quoted, quoted};
use crate::text::{owned, push_char, str_equal, strs};

verus! {

/// The state a diagnosis puts a profile in.
#[derive(PartialEq, Eq, Structural, Clone, Copy)]
pub enum ProfileDiagnosisState {
    Ready,
    Repairable,
    ManualAction,
    Blocked,
    ResetAvailable,
}

/// One diagnosis finding.
pub struct ProfileDiagnosisFinding {
    pub code: String,
    pub axis: String,
    pub severity: String,
    pub blocking: bool,
    pub message: String,
    pub evidence: Vec<String>,
    pub recourse: String,
}

/// The content of a diagnosis finding.
pub struct DiagnosisFindingView {
    pub code: Seq<char>,
    pub axis: Seq<char>,
    pub severity: Seq<char>,
    pub blocking: bool,
    pub message: Seq<char>,
    pub evidence: Seq<Seq<char>>,
    pub recourse: Seq<char>,
}

impl View for ProfileDiagnosisFinding {
    type V = DiagnosisFindingView;

    open spec fn view(&self) -> DiagnosisFindingView {
        DiagnosisFindingView {
            code: self.code@,
            axis: self.axis@,
            severity: self.severity@,
            blocking: self.blocking,
            message: self.message@,
            evidence: strs(self.evidence@),
            recourse: self.recourse@,
        }
    }
}

/// The contents of findings.
pub open spec fn diagnosis_views(v: Seq<ProfileDiagnosisFinding>) -> Seq<DiagnosisFindingView> {
    v.map_values(|f: ProfileDiagnosisFinding| f@)
}

/// A finding.
pub open spec fn fv(
    code: Seq<char>,
    axis: Seq<char>,
    severity: Seq<char>,
    blocking: bool,
    message: Seq<char>,
    evidence: Seq<Seq<char>>,
    recourse: Seq<char>,
) -> DiagnosisFindingView {
    DiagnosisFindingView { code, axis, severity, blocking, message, evidence, recourse }
}

/// Builds a finding.
pub fn finding(
    code: &str,
    axis: &str,
    severity: &str,
    blocking: bool,
    message: &str,
    evidence: Vec<String>,
    recourse: &str,
) -> (r: ProfileDiagnosisFinding)
    ensures
        r@ == fv(code@, axis@, severity@, blocking, message@, strs(evidence@), recourse@),
{
    ProfileDiagnosisFinding {
        code: owned(code),
        axis: owned(axis),
        severity: owned(severity),
        blocking,
        message: owned(message),
        evidence,
        recourse: owned(recourse),
    }
}

/// The decimal value of a digit sequence.
pub open spec fn digits_value(s: Seq<char>) -> int
    decreases s.len(),
{
    if s.len() == 0 {
        0
    } else {
        digits_value(s.drop_last()) * 10 + (s.last() as int - '0' as int)
    }
}

/// Whether every character is an ASCII digit.
pub open spec fn all_digits(s: Seq<char>) -> bool {
    forall|i: int| 0 <= i < s.len() ==> '0' <= #[trigger] s[i] <= '9'
}

/// How `u32::from_str` reads a text: an optional `+`, then one or more
/// decimal digits whose value fits in a `u32`.
pub open spec fn parse_u32_spec(s: Seq<char>) -> Option<u32> {
    let digits = if s.len() > 0 && s[0] == '+' { s.drop_first() } else { s };
    if digits.len() > 0 && all_digits(digits) && digits_value(digits) <= u32::MAX {
        Some(digits_value(digits) as u32)
    } else {
        None
    }
}

/// The text after the last `-`, when there is one.
pub open spec fn after_last_dash(s: Seq<char>) -> Option<Seq<char>>
    decreases s.len(),
{
    if s.len() == 0 {
        None
    } else if s.last() == '-' {
        Some(Seq::empty())
    } else {
        match after_last_dash(s.drop_last()) {
            Some(t) => Some(t.push(s.last())),
            None => None,
        }
    }
}

/// The process id a Chrome singleton lock's link target names: the positive
/// decimal number after the last `-` of its file name.
pub open spec fn lock_pid_spec(file_name: Seq<char>) -> Option<u32> {
    match after_last_dash(file_name) {
        Some(t) => match parse_u32_spec(t) {
            Some(pid) => if pid > 0 { Some(pid) } else { None },
            None => None,
        },
        None => None,
    }
}

/// The value of the digits, while it stays within `u32`.
proof fn lemma_digits_value_monotone(s: Seq<char>, n: int)
    requires
        0 <= n <= s.len(),
        all_digits(s),
    ensures
        digits_value(s.take(n)) <= digits_value(s),
    decreases s.len(),
{
    if n < s.len() {
        lemma_digits_value_monotone(s.drop_last(), n);
        assert(s.drop_last().take(n) =~= s.take(n));
        assert(all_digits(s.drop_last()));
        assert(digits_value(s.drop_last()) >= 0) by {
            lemma_digits_value_nonneg(s.drop_last());
        }
    } else {
        assert(s.take(n) =~= s);
    }
}

/// The value of digits is not negative.
proof fn lemma_digits_value_nonneg(s: Seq<char>)
    requires
        all_digits(s),
    ensures
        digits_value(s) >= 0,
    decreases s.len(),
{
    if s.len() > 0 {
        assert(all_digits(s.drop_last()));
        lemma_digits_value_nonneg(s.drop_last());
    }
}

/// Reads a text as `u32::from_str` does.
pub fn parse_u32(s: &Vec<char>) -> (r: Option<u32>)
    ensures
        r == parse_u32_spec(s@),
{
    let start: usize = if s.len() > 0 && s[0] == '+' { 1 } else { 0 };
    let ghost digits = if s@.len() > 0 && s@[0] == '+' { s@.drop_first() } else { s@ };
    assert(digits =~= s@.skip(start as int));
    if start >= s.len() {
        return None;
    }
    let mut value: u64 = 0;
    let mut i: usize = start;
    while i < s.len()
        invariant
            start <= i <= s@.len(),
            digits == (if s@.len() > 0 && s@[0] == '+' { s@.drop_first() } else { s@ }),
            digits =~= s@.skip(start as int),
            all_digits(s@.subrange(start as int, i as int)),
            value == digits_value(s@.subrange(start as int, i as int)),
            value <= u32::MAX,
        decreases s@.len() - i,
    {
        let c = s[i];
        if !('0' <= c && c <= '9') {
            proof {
                assert(digits[i - start] == c);
            }
            return None;
        }
        let d: u64 = (c as u32 - '0' as u32) as u64;
        assert(s@.subrange(start as int, i + 1).drop_last() =~= s@.subrange(start as int, i as int));
        let next = value * 10 + d;
        if next > 4294967295u64 {
            proof {
                assert(all_digits(s@.subrange(start as int, i + 1)));
                if all_digits(digits) {
                    assert(s@.subrange(start as int, i + 1) =~= digits.take(i + 1 - start));
                    lemma_digits_value_monotone(digits, i + 1 - start);
                }
            }
            return None;
        }
        value = next;
        i = i + 1;
    }
    assert(s@.subrange(start as int, s@.len() as int) =~= digits);
    Some(value as u32)
}

/// The process id a Chrome singleton lock's link target names.
pub fn parse_singleton_lock_pid(file_name: &str) -> (r: Option<u32>)
    ensures
        r == lock_pid_spec(file_name@),
{
    let chars = crate::text::chars_of(file_name);
    let mut i: usize = chars.len();
    proof {
        assert(file_name@.take(i as int) =~= file_name@);
        assert(file_name@.skip(i as int) =~= Seq::<char>::empty());
        match after_last_dash(file_name@) {
            Some(t) => assert(t + file_name@.skip(i as int) =~= t),
            None => {},
        }
    }
    while i > 0 && chars[i - 1] != '-'
        invariant
            i <= chars@.len(),
            chars@ == file_name@,
            forall|j: int| i <= j < chars@.len() ==> chars@[j] != '-',
            after_last_dash(file_name@) == match after_last_dash(file_name@.take(i as int)) {
                Some(t) => Some(t + file_name@.skip(i as int)),
                None => None,
            },
        decreases i,
    {
        assert(file_name@.take(i as int).drop_last() =~= file_name@.take(i - 1));
        assert(file_name@.skip(i - 1) =~= seq![file_name@[i - 1]] + file_name@.skip(i as int));
        proof {
            match after_last_dash(file_name@.take(i - 1)) {
                Some(t) => assert(t.push(file_name@[i - 1]) + file_name@.skip(i as int) =~= t + file_name@.skip(i - 1)),
                None => {},
            }
        }
        i = i - 1;
    }
    if i == 0 {
        assert(file_name@.take(0) =~= Seq::<char>::empty());
        return None;
    }
    let mut rest: Vec<char> = Vec::new();
    let mut k: usize = i;
    while k < chars.len()
        invariant
            i <= k <= chars@.len(),
            rest@ == chars@.subrange(i as int, k as int),
        decreases chars@.len() - k,
    {
        rest.push(chars[k]);
        assert(rest@ =~= chars@.subrange(i as int, k + 1));
        k = k + 1;
    }
    proof {
        assert(file_name@.take(i as int).last() == '-');
        assert(rest@ =~= file_name@.skip(i as int));
        assert(Seq::<char>::empty() + file_name@.skip(i as int) =~= file_name@.skip(i as int));
    }
    match parse_u32(&rest) {
        Some(pid) => if pid > 0 { Some(pid) } else { None },
        None => None,
    }
}

/// The record of the owner of the profile with identity `digest`.
pub open spec fn diagnosed_owner(state: ServiceState, digest: Seq<char>) -> Option<ProfileOwner> {
    lookup(state.runtime_owner_registry.owners@, digest)
}

/// The browser record of the owner of the profile with identity `digest`.
pub open spec fn diagnosed_browser(state: ServiceState, digest: Seq<char>) -> Option<BrowserProcess> {
    match diagnosed_owner(state, digest) {
        Some(o) => lookup(state.browsers@, o.browser_id@),
        None => None,
    }
}

/// The finding of a ready owner without a browser record.
pub open spec fn owner_record_findings(state: ServiceState, digest: Seq<char>) -> Seq<DiagnosisFindingView> {
    let owner = diagnosed_owner(state, digest);
    let browser = diagnosed_browser(state, digest);
    if owner matches Some(o) && o.state == ProfileOwnerState::Ready && browser is None {
        seq![fv(
            "runtime_browser_record_missing"@,
            "runtime"@,
            "error"@,
            true,
            "The current lifecycle owner has no matching Service browser record."@,
            seq![owner->0.browser_id@],
            "plan_preserving_profile_repair"@,
        )]
    } else {
        Seq::empty()
    }
}

/// The finding of a browser record that lacks or mistakes the profile join.
pub open spec fn browser_join_findings(
    state: ServiceState,
    profile_id: Seq<char>,
    digest: Seq<char>,
) -> Seq<DiagnosisFindingView> {
    let browser = diagnosed_browser(state, digest);
    match browser {
        Some(b) => match ov(b.profile_id) {
            None => seq![fv(
                "subordinate_browser_profile_missing"@,
                "ownership"@,
                "error"@,
                true,
                "The current browser record is missing its canonical profile join."@,
                seq![b.id@, profile_id],
                "plan_preserving_profile_repair"@,
            )],
            Some(current) => if current != profile_id {
                seq![fv(
                    "subordinate_browser_profile_mismatch"@,
                    "ownership"@,
                    "error"@,
                    true,
                    "The current browser record names a different profile."@,
                    seq![b.id@, current, profile_id],
                    "inspect_foreign_or_changed_owner"@,
                )]
            } else {
                Seq::empty()
            },
        },
        None => Seq::empty(),
    }
}

/// The finding of a ready owner whose process evidence is not current.
pub open spec fn process_findings(
    state: ServiceState,
    digest: Seq<char>,
    process_state: Seq<char>,
) -> Seq<DiagnosisFindingView> {
    let owner = diagnosed_owner(state, digest);
    let f3 = if owner matches Some(o) && (process_state == "missing_or_changed"@ || process_state
        == "observation_failed"@) && o.state == ProfileOwnerState::Ready {
        seq![fv(
            "owner_process_identity_unproven"@,
            "runtime"@,
            "error"@,
            true,
            "The ready owner does not have current matching process evidence."@,
            seq![owner->0.browser_id@, process_state],
            "inspect_exact_process_before_repair"@,
        )]
    } else {
        Seq::empty()
    };
    f3
}

/// The finding of a profile identity without a principal binding.
pub open spec fn binding_findings(
    state: ServiceState,
    profile_id: Seq<char>,
    digest: Seq<char>,
    shared_local: bool,
) -> Seq<DiagnosisFindingView> {
    let binding = lookup(state.runtime_owner_registry.principal_bindings@, digest);
    if binding is None {
        seq![fv(
            "runtime_owner_principal_binding_missing"@,
            "ownership"@,
            if shared_local { "advisory"@ } else { "error"@ },
            !shared_local,
            if shared_local {
                "No registered principal binding exists; shared-local self-identification remains available for ordinary permitted use."@
            } else {
                "The current owner lacks the principal binding required by this restricted profile."@
            },
            seq![profile_id, digest],
            if shared_local { "continue_with_self_declared_access"@ } else { "plan_preserving_principal_repair"@ },
        )]
    } else {
        Seq::empty()
    }
}

/// The finding of a singleton lock that is stale or unproven.
pub open spec fn lock_findings(lock_verdict: Seq<char>) -> Seq<DiagnosisFindingView> {
    if lock_verdict == "proven_stale"@ {
        seq![fv(
            "chrome_singleton_lock_proven_stale"@,
            "chrome_locks"@,
            "error"@,
            true,
            "The Chrome singleton lock names a process that is proven absent."@,
            Seq::empty(),
            "plan_preserving_stale_lock_repair"@,
        )]
    } else if lock_verdict == "occupied_unproven"@ || lock_verdict == "observation_failed"@ {
        seq![fv(
            "chrome_singleton_lock_ownership_unproven"@,
            "chrome_locks"@,
            "error"@,
            true,
            "Chrome singleton lock ownership is live or could not be proven."@,
            Seq::empty(),
            "inspect_exact_lock_process_without_removal"@,
        )]
    } else {
        Seq::empty()
    }
}

/// The findings a profile's owner, browser record, principal binding and
/// singleton lock give, in order.
pub open spec fn diagnosis_findings_spec(
    state: ServiceState,
    profile_id: Seq<char>,
    digest: Seq<char>,
    process_state: Seq<char>,
    shared_local: bool,
    lock_verdict: Seq<char>,
) -> Seq<DiagnosisFindingView> {
    owner_record_findings(state, digest) + browser_join_findings(state, profile_id, digest) + process_findings(
        state,
        digest,
        process_state,
    ) + binding_findings(state, profile_id, digest, shared_local) + lock_findings(lock_verdict)
}

/// Whether findings hold a blocking finding with code `code`.
pub open spec fn has_blocking(f: Seq<DiagnosisFindingView>, code: Seq<char>) -> bool {
    exists|i: int| 0 <= i < f.len() && (#[trigger] f[i]).code == code && f[i].blocking
}

/// Law: when the profile's owner is ready but the observation of its
/// process is `missing_or_changed` or `observation_failed`, the findings
/// hold a blocking `owner_process_identity_unproven` finding that no repair
/// lifts, so the profile is diagnosed blocked, with no eligible action,
/// whatever else is observed.
pub proof fn law_unproven_ready_owner_blocks(
    state: ServiceState,
    profile_id: Seq<char>,
    digest: Seq<char>,
    process_state: Seq<char>,
    shared_local: bool,
    lock_verdict: Seq<char>,
    missing_authentication: nat,
)
    requires
        lookup(state.runtime_owner_registry.owners@, digest) matches Some(o) && o.state == ProfileOwnerState::Ready,
        process_state == "missing_or_changed"@ || process_state == "observation_failed"@,
    ensures
        ({
            let f = diagnosis_findings_spec(state, profile_id, digest, process_state, shared_local, lock_verdict);
            &&& exists|i: int|
                0 <= i < f.len() && (#[trigger] f[i]).code == "owner_process_identity_unproven"@ && f[i].blocking
            &&& diagnosis_state_spec(f, missing_authentication) == ProfileDiagnosisState::Blocked
            &&& eligible_action_spec(diagnosis_state_spec(f, missing_authentication)) == "none"@
        }),
{
    reveal_strlit("owner_process_identity_unproven");
    reveal_strlit("runtime_browser_record_missing");
    reveal_strlit("subordinate_browser_profile_missing");
    reveal_strlit("subordinate_browser_profile_mismatch");
    reveal_strlit("chrome_singleton_lock_proven_stale");
    reveal_strlit("chrome_singleton_lock_ownership_unproven");
    reveal_strlit("runtime_owner_principal_binding_missing");
    reveal_strlit("missing_or_changed");
    reveal_strlit("observation_failed");
    reveal_strlit("proven_stale");
    reveal_strlit("occupied_unproven");
    let f = diagnosis_findings_spec(state, profile_id, digest, process_state, shared_local, lock_verdict);
    let k = (owner_record_findings(state, digest).len() + browser_join_findings(state, profile_id, digest).len()) as int;
    assert(f[k] == process_findings(state, digest, process_state)[0]);
    assert(f[k].code == "owner_process_identity_unproven"@ && f[k].blocking);
    assert("owner_process_identity_unproven"@[0] != "runtime_browser_record_missing"@[0]);
    assert("owner_process_identity_unproven"@[0] != "subordinate_browser_profile_missing"@[0]);
    assert("owner_process_identity_unproven"@[0] != "chrome_singleton_lock_proven_stale"@[0]);
    assert("owner_process_identity_unproven"@[0] != "runtime_owner_principal_binding_missing"@[0]);
    assert(!repairable_code(f[k].code));
}

/// Law: each defect the owner, browser record, binding and lock show gives
/// its finding: a ready owner without a browser record, a browser record
/// without the profile join or naming another profile, a stale or unproven
/// singleton lock each give a blocking finding; a missing principal binding
/// gives a finding that blocks exactly when the profile is not shared-local.
pub proof fn law_each_defect_gives_its_finding(
    state: ServiceState,
    profile_id: Seq<char>,
    digest: Seq<char>,
    process_state: Seq<char>,
    shared_local: bool,
    lock_verdict: Seq<char>,
)
    ensures
        ({
            let f = diagnosis_findings_spec(state, profile_id, digest, process_state, shared_local, lock_verdict);
            let owner = lookup(state.runtime_owner_registry.owners@, digest);
            let browser = match owner {
                Some(o) => lookup(state.browsers@, o.browser_id@),
                None => None,
            };
            &&& (owner matches Some(o) && o.state == ProfileOwnerState::Ready && browser is None) ==> has_blocking(
                f,
                "runtime_browser_record_missing"@,
            )
            &&& (browser matches Some(b) && b.profile_id is None) ==> has_blocking(f, "subordinate_browser_profile_missing"@)
            &&& (browser matches Some(b) && ov(b.profile_id) matches Some(c) && c != profile_id) ==> has_blocking(
                f,
                "subordinate_browser_profile_mismatch"@,
            )
            &&& lookup(state.runtime_owner_registry.principal_bindings@, digest) is None ==> exists|i: int|
                0 <= i < f.len() && (#[trigger] f[i]).code == "runtime_owner_principal_binding_missing"@
                    && f[i].blocking == !shared_local
            &&& lock_verdict == "proven_stale"@ ==> has_blocking(f, "chrome_singleton_lock_proven_stale"@)
            &&& (lock_verdict == "occupied_unproven"@ || lock_verdict == "observation_failed"@) ==> has_blocking(
                f,
                "chrome_singleton_lock_ownership_unproven"@,
            )
        }),
{
    reveal_strlit("owner_process_identity_unproven");
    reveal_strlit("runtime_browser_record_missing");
    reveal_strlit("subordinate_browser_profile_missing");
    reveal_strlit("subordinate_browser_profile_mismatch");
    reveal_strlit("chrome_singleton_lock_proven_stale");
    reveal_strlit("chrome_singleton_lock_ownership_unproven");
    reveal_strlit("runtime_owner_principal_binding_missing");
    reveal_strlit("missing_or_changed");
    reveal_strlit("observation_failed");
    reveal_strlit("proven_stale");
    reveal_strlit("occupied_unproven");
    let f = diagnosis_findings_spec(state, profile_id, digest, process_state, shared_local, lock_verdict);
    let g1 = owner_record_findings(state, digest);
    let g2 = browser_join_findings(state, profile_id, digest);
    let g3 = process_findings(state, digest, process_state);
    let g4 = binding_findings(state, profile_id, digest, shared_local);
    let g5 = lock_findings(lock_verdict);
    assert(f == g1 + g2 + g3 + g4 + g5);
    if g1.len() > 0 {
        assert(f[0] == g1[0]);
    }
    if g2.len() > 0 {
        assert(f[g1.len() as int] == g2[0]);
    }
    if g4.len() > 0 {
        assert(f[(g1.len() + g2.len() + g3.len()) as int] == g4[0]);
    }
    if g5.len() > 0 {
        assert(f[(g1.len() + g2.len() + g3.len() + g4.len()) as int] == g5[0]);
    }
    assert("proven_stale"@[0] != "occupied_unproven"@[0]);
    assert("proven_stale"@[0] != "observation_failed"@[0]);
}

/// Law: a profile whose ready owner has a browser record naming it, whose
/// process evidence is current, whose identity carries a principal binding
/// and whose singleton lock is neither stale nor unproven has no finding at
/// all, so it is ready unless a target service lacks authentication.
pub proof fn law_healthy_profile_has_no_finding(
    state: ServiceState,
    profile_id: Seq<char>,
    digest: Seq<char>,
    process_state: Seq<char>,
    shared_local: bool,
    lock_verdict: Seq<char>,
    missing_authentication: nat,
)
    requires
        lookup(state.runtime_owner_registry.owners@, digest) matches Some(o) && o.state == ProfileOwnerState::Ready
            && (lookup(state.browsers@, o.browser_id@) matches Some(b) && ov(b.profile_id) == Some(profile_id)),
        process_state != "missing_or_changed"@,
        process_state != "observation_failed"@,
        lookup(state.runtime_owner_registry.principal_bindings@, digest) is Some,
        lock_verdict != "proven_stale"@,
        lock_verdict != "occupied_unproven"@,
        lock_verdict != "observation_failed"@,
    ensures
        diagnosis_findings_spec(state, profile_id, digest, process_state, shared_local, lock_verdict).len() == 0,
        diagnosis_state_spec(
            diagnosis_findings_spec(state, profile_id, digest, process_state, shared_local, lock_verdict),
            missing_authentication,
        ) == if missing_authentication == 0 {
            ProfileDiagnosisState::Ready
        } else {
            ProfileDiagnosisState::ManualAction
        },
{
}

/// Law: a profile is diagnosed ready exactly when no finding blocks and no
/// target service lacks authentication; any blocking finding no repair
/// lifts makes it blocked; blocking findings that repairs all lift make it
/// repairable; with nothing blocking, missing authentication asks for
/// manual action. The dominant blocker is the code of the first blocking
/// finding, and there is none exactly when nothing blocks.
pub proof fn law_diagnosis_state_follows_findings(f: Seq<DiagnosisFindingView>, missing_authentication: nat)
    ensures
        (diagnosis_state_spec(f, missing_authentication) == ProfileDiagnosisState::Ready) == ((forall|i: int|
            0 <= i < f.len() ==> !(#[trigger] f[i]).blocking) && missing_authentication == 0),
        (exists|i: int| 0 <= i < f.len() && (#[trigger] f[i]).blocking && !repairable_code(f[i].code))
            ==> diagnosis_state_spec(f, missing_authentication) == ProfileDiagnosisState::Blocked,
        (exists|i: int| 0 <= i < f.len() && (#[trigger] f[i]).blocking) && (forall|i: int|
            0 <= i < f.len() && (#[trigger] f[i]).blocking ==> repairable_code(f[i].code)) ==> diagnosis_state_spec(
            f,
            missing_authentication,
        ) == ProfileDiagnosisState::Repairable,
        (forall|i: int| 0 <= i < f.len() ==> !(#[trigger] f[i]).blocking) && missing_authentication > 0
            ==> diagnosis_state_spec(f, missing_authentication) == ProfileDiagnosisState::ManualAction,
        (dominant_finding_spec(f) is None) == (forall|i: int| 0 <= i < f.len() ==> !(#[trigger] f[i]).blocking),
        dominant_finding_spec(f) matches Some(c) ==> exists|i: int|
            0 <= i < f.len() && (#[trigger] f[i]).blocking && f[i].code == c && forall|j: int|
                0 <= j < i ==> !(#[trigger] f[j]).blocking,
{
    lemma_dominant_first_blocking(f);
}

/// The dominant finding is the first blocking one.
proof fn lemma_dominant_first_blocking(f: Seq<DiagnosisFindingView>)
    ensures
        (dominant_finding_spec(f) is None) == (forall|i: int| 0 <= i < f.len() ==> !(#[trigger] f[i]).blocking),
        dominant_finding_spec(f) matches Some(c) ==> exists|i: int|
            0 <= i < f.len() && (#[trigger] f[i]).blocking && f[i].code == c && forall|j: int|
                0 <= j < i ==> !(#[trigger] f[j]).blocking,
    decreases f.len(),
{
    if f.len() > 0 {
        lemma_dominant_first_blocking(f.drop_first());
        if !f[0].blocking {
            assert forall|i: int| 0 <= i < f.len() - 1 implies #[trigger] f.drop_first()[i] == f[i + 1] by {}
            if dominant_finding_spec(f.drop_first()) is None {
                assert forall|i: int| 0 <= i < f.len() implies !(#[trigger] f[i]).blocking by {
                    if i > 0 {
                        assert(f.drop_first()[i - 1] == f[i]);
                    }
                }
            } else {
                let c = dominant_finding_spec(f.drop_first())->0;
                let i = choose|i: int|
                    0 <= i < f.drop_first().len() && (#[trigger] f.drop_first()[i]).blocking && f.drop_first()[i].code
                        == c && forall|j: int| 0 <= j < i ==> !(#[trigger] f.drop_first()[j]).blocking;
                assert(f[i + 1] == f.drop_first()[i]);
                assert forall|j: int| 0 <= j < i + 1 implies !(#[trigger] f[j]).blocking by {
                    if j > 0 {
                        assert(f.drop_first()[j - 1] == f[j]);
                    }
                }
                assert(!(forall|k: int| 0 <= k < f.len() ==> !(#[trigger] f[k]).blocking));
            }
        } else {
            assert(!(forall|k: int| 0 <= k < f.len() ==> !(#[trigger] f[k]).blocking));
        }
    }
}

/// A list of two texts.
fn pair(a: &str, b: &str) -> (r: Vec<String>)
    ensures
        strs(r@) == seq![a@, b@],
{
    let mut v: Vec<String> = Vec::new();
    v.push(owned(a));
    v.push(owned(b));
    assert(strs(v@) =~= seq![a@, b@]);
    v
}

/// No texts.
fn none_texts() -> (r: Vec<String>)
    ensures
        strs(r@) == Seq::<Seq<char>>::empty(),
{
    let v: Vec<String> = Vec::new();
    assert(strs(v@) =~= Seq::<Seq<char>>::empty());
    v
}

/// The findings a profile's owner, browser record, principal binding and
/// singleton lock give. `process_state` and `lock_verdict` are the caller's
/// observations of the owner's process and of the profile's singleton lock.
#[verifier::rlimit(40)]
pub fn diagnosis_findings(
    state: &ServiceState,
    profile_id: &str,
    digest: &str,
    process_state: &str,
    shared_local: bool,
    lock_verdict: &str,
) -> (r: Vec<ProfileDiagnosisFinding>)
    ensures
        diagnosis_views(r@) == diagnosis_findings_spec(*state, profile_id@, digest@, process_state@, shared_local, lock_verdict@),
{
    let ghost spec = diagnosis_findings_spec(*state, profile_id@, digest@, process_state@, shared_local, lock_verdict@);
    let owner = get_keyed(&state.runtime_owner_registry.owners, digest);
    let browser = match owner {
        Some(o) => get_keyed(&state.browsers, o.browser_id.as_str()),
        None => None,
    };
    let binding = get_keyed(&state.runtime_owner_registry.principal_bindings, digest);
    let mut out: Vec<ProfileDiagnosisFinding> = Vec::new();
    let ghost mut acc: Seq<DiagnosisFindingView> = Seq::empty();
    assert(diagnosis_views(out@) =~= acc);
    if let Some(o) = owner {
        if o.state == ProfileOwnerState::Ready && browser.is_none() {
            let mut ev: Vec<String> = Vec::new();
            ev.push(o.browser_id.clone());
            assert(strs(ev@) =~= seq![o.browser_id@]);
            out.push(finding(
                "runtime_browser_record_missing",
                "runtime",
                "error",
                true,
                "The current lifecycle owner has no matching Service browser record.",
                ev,
                "plan_preserving_profile_repair",
            ));
        }
    }
    proof {
        acc = if owner matches Some(o) && o.state == ProfileOwnerState::Ready && browser is None {
            seq![fv(
                "runtime_browser_record_missing"@,
                "runtime"@,
                "error"@,
                true,
                "The current lifecycle owner has no matching Service browser record."@,
                seq![owner->0.browser_id@],
                "plan_preserving_profile_repair"@,
            )]
        } else {
            Seq::empty()
        };
        assert(diagnosis_views(out@) =~= acc);
    }
    let ghost before2 = diagnosis_views(out@);
    if let Some(b) = browser {
        match &b.profile_id {
            None => {
                out.push(finding(
                    "subordinate_browser_profile_missing",
                    "ownership",
                    "error",
                    true,
                    "The current browser record is missing its canonical profile join.",
                    pair(b.id.as_str(), profile_id),
                    "plan_preserving_profile_repair",
                ));
            },
            Some(current) => {
                if !str_equal(current.as_str(), profile_id) {
                    let mut ev: Vec<String> = Vec::new();
                    ev.push(b.id.clone());
                    ev.push(current.clone());
                    ev.push(owned(profile_id));
                    assert(strs(ev@) =~= seq![b.id@, current@, profile_id@]);
                    out.push(finding(
                        "subordinate_browser_profile_mismatch",
                        "ownership",
                        "error",
                        true,
                        "The current browser record names a different profile.",
                        ev,
                        "inspect_foreign_or_changed_owner",
                    ));
                }
            },
        }
    }
    assert(diagnosis_views(out@) =~= before2 + match browser {
        Some(b) => match ov(b.profile_id) {
            None => seq![fv(
                "subordinate_browser_profile_missing"@,
                "ownership"@,
                "error"@,
                true,
                "The current browser record is missing its canonical profile join."@,
                seq![b.id@, profile_id@],
                "plan_preserving_profile_repair"@,
            )],
            Some(current) => if current != profile_id@ {
                seq![fv(
                    "subordinate_browser_profile_mismatch"@,
                    "ownership"@,
                    "error"@,
                    true,
                    "The current browser record names a different profile."@,
                    seq![b.id@, current, profile_id@],
                    "inspect_foreign_or_changed_owner"@,
                )]
            } else {
                Seq::empty()
            },
        },
        None => Seq::empty(),
    });
    let ghost before3 = diagnosis_views(out@);
    if let Some(o) = owner {
        if (str_equal(process_state, "missing_or_changed") || str_equal(process_state, "observation_failed"))
            && o.state == ProfileOwnerState::Ready {
            out.push(finding(
                "owner_process_identity_unproven",
                "runtime",
                "error",
                true,
                "The ready owner does not have current matching process evidence.",
                pair(o.browser_id.as_str(), process_state),
                "inspect_exact_process_before_repair",
            ));
        }
    }
    let ghost before4 = diagnosis_views(out@);
    if binding.is_none() {
        out.push(finding(
            "runtime_owner_principal_binding_missing",
            "ownership",
            if shared_local { "advisory" } else { "error" },
            !shared_local,
            if shared_local {
                "No registered principal binding exists; shared-local self-identification remains available for ordinary permitted use."
            } else {
                "The current owner lacks the principal binding required by this restricted profile."
            },
            pair(profile_id, digest),
            if shared_local { "continue_with_self_declared_access" } else { "plan_preserving_principal_repair" },
        ));
    }
    let ghost before5 = diagnosis_views(out@);
    if str_equal(lock_verdict, "proven_stale") {
        out.push(finding(
            "chrome_singleton_lock_proven_stale",
            "chrome_locks",
            "error",
            true,
            "The Chrome singleton lock names a process that is proven absent.",
            none_texts(),
            "plan_preserving_stale_lock_repair",
        ));
    } else if str_equal(lock_verdict, "occupied_unproven") || str_equal(lock_verdict, "observation_failed") {
        out.push(finding(
            "chrome_singleton_lock_ownership_unproven",
            "chrome_locks",
            "error",
            true,
            "Chrome singleton lock ownership is live or could not be proven.",
            none_texts(),
            "inspect_exact_lock_process_without_removal",
        ));
    }
    assert(diagnosis_views(out@) =~= spec);
    out
}

/// The findings whose blocking a preserving repair can lift.
pub open spec fn repairable_code(code: Seq<char>) -> bool {
    code == "runtime_browser_record_missing"@ || code == "subordinate_browser_profile_missing"@ || code
        == "chrome_singleton_lock_proven_stale"@ || code == "runtime_owner_principal_binding_missing"@
}

/// The state findings put a profile in: blocked by any blocking finding no
/// repair lifts; repairable when every blocking finding is repairable;
/// awaiting manual authentication when nothing blocks but a target service
/// lacks authentication; otherwise ready.
pub open spec fn diagnosis_state_spec(findings: Seq<DiagnosisFindingView>, missing_authentication: nat) -> ProfileDiagnosisState {
    let blocking = exists|i: int| 0 <= i < findings.len() && (#[trigger] findings[i]).blocking;
    let unrepairable = exists|i: int| 0 <= i < findings.len() && (#[trigger] findings[i]).blocking && !repairable_code(
        findings[i].code,
    );
    let repairable = exists|i: int| 0 <= i < findings.len() && (#[trigger] findings[i]).blocking && repairable_code(
        findings[i].code,
    );
    if unrepairable {
        ProfileDiagnosisState::Blocked
    } else if blocking && repairable {
        ProfileDiagnosisState::Repairable
    } else if blocking {
        ProfileDiagnosisState::Blocked
    } else if missing_authentication > 0 {
        ProfileDiagnosisState::ManualAction
    } else {
        ProfileDiagnosisState::Ready
    }
}

/// Whether a code is one a preserving repair can lift.
fn is_repairable_code(code: &str) -> (r: bool)
    ensures
        r == repairable_code(code@),
{
    str_equal(code, "runtime_browser_record_missing") || str_equal(code, "subordinate_browser_profile_missing")
        || str_equal(code, "chrome_singleton_lock_proven_stale") || str_equal(
        code,
        "runtime_owner_principal_binding_missing",
    )
}

/// The state findings put a profile in.
pub fn classify_profile_diagnosis(findings: &Vec<ProfileDiagnosisFinding>, missing_authentication: usize) -> (r: ProfileDiagnosisState)
    ensures
        r == diagnosis_state_spec(diagnosis_views(findings@), missing_authentication as nat),
{
    let ghost views = diagnosis_views(findings@);
    let mut blocking = false;
    let mut unrepairable = false;
    let mut repairable = false;
    let mut i: usize = 0;
    while i < findings.len()
        invariant
            i <= findings@.len(),
            views == diagnosis_views(findings@),
            blocking == exists|j: int| 0 <= j < i && (#[trigger] views[j]).blocking,
            unrepairable == exists|j: int| 0 <= j < i && (#[trigger] views[j]).blocking && !repairable_code(views[j].code),
            repairable == exists|j: int| 0 <= j < i && (#[trigger] views[j]).blocking && repairable_code(views[j].code),
        decreases findings@.len() - i,
    {
        let f = &findings[i];
        assert(views[i as int] == f@);
        if f.blocking {
            blocking = true;
            if is_repairable_code(f.code.as_str()) {
                repairable = true;
            } else {
                unrepairable = true;
            }
        }
        i = i + 1;
    }
    if unrepairable {
        ProfileDiagnosisState::Blocked
    } else if blocking && repairable {
        ProfileDiagnosisState::Repairable
    } else if blocking {
        ProfileDiagnosisState::Blocked
    } else if missing_authentication > 0 {
        ProfileDiagnosisState::ManualAction
    } else {
        ProfileDiagnosisState::Ready
    }
}

/// The action a diagnosis state makes eligible.
pub open spec fn eligible_action_spec(s: ProfileDiagnosisState) -> Seq<char> {
    match s {
        ProfileDiagnosisState::Ready => "normal_launch"@,
        ProfileDiagnosisState::Repairable => "service_profile_repair_plan"@,
        ProfileDiagnosisState::ManualAction => "service_profile_reset_plan_authentication"@,
        ProfileDiagnosisState::Blocked => "none"@,
        ProfileDiagnosisState::ResetAvailable => "service_profile_reset_plan"@,
    }
}

/// The action a diagnosis state makes eligible.
pub fn eligible_action(s: ProfileDiagnosisState) -> (r: &'static str)
    ensures
        r@ == eligible_action_spec(s),
{
    match s {
        ProfileDiagnosisState::Ready => "normal_launch",
        ProfileDiagnosisState::Repairable => "service_profile_repair_plan",
        ProfileDiagnosisState::ManualAction => "service_profile_reset_plan_authentication",
        ProfileDiagnosisState::Blocked => "none",
        ProfileDiagnosisState::ResetAvailable => "service_profile_reset_plan",
    }
}

/// The code of the first blocking finding.
pub open spec fn dominant_finding_spec(findings: Seq<DiagnosisFindingView>) -> Option<Seq<char>>
    decreases findings.len(),
{
    if findings.len() == 0 {
        None
    } else if findings[0].blocking {
        Some(findings[0].code)
    } else {
        dominant_finding_spec(findings.drop_first())
    }
}

/// The code of the first blocking finding.
pub fn dominant_finding(findings: &Vec<ProfileDiagnosisFinding>) -> (r: Option<String>)
    ensures
        ov(r) == dominant_finding_spec(diagnosis_views(findings@)),
{
    let ghost views = diagnosis_views(findings@);
    let mut i: usize = 0;
    assert(views.skip(0) =~= views);
    while i < findings.len()
        invariant
            i <= findings@.len(),
            views == diagnosis_views(findings@),
            dominant_finding_spec(views) == dominant_finding_spec(views.skip(i as int)),
        decreases findings@.len() - i,
    {
        assert(views.skip(i as int).drop_first() =~= views.skip(i + 1));
        assert(views.skip(i as int)[0] == findings@[i as int]@);
        if findings[i].blocking {
            return Some(findings[i].code.clone());
        }
        i = i + 1;
    }
    None
}


/// The version written into every diagnosis.
pub const PROFILE_DIAGNOSIS_SCHEMA_V1: &'static str = "agent-browser.profile-diagnosis.v1";

/// A profile's target services that it is not signed in to, in order.
pub open spec fn missing_authentication_spec(targets: Seq<Seq<char>>, authenticated: Seq<Seq<char>>) -> Seq<Seq<char>> {
    targets.filter(|t: Seq<char>| !authenticated.contains(t))
}

/// A profile's target services that it is not signed in to, in order.
pub fn missing_authentication_targets(targets: &Vec<String>, authenticated: &Vec<String>) -> (r: Vec<String>)
    ensures
        strs(r@) == missing_authentication_spec(strs(targets@), strs(authenticated@)),
{
    let ghost pred = |t: Seq<char>| !strs(authenticated@).contains(t);
    let mut out: Vec<String> = Vec::new();
    let mut i: usize = 0;
    while i < targets.len()
        invariant
            i <= targets@.len(),
            pred == (|t: Seq<char>| !strs(authenticated@).contains(t)),
            strs(out@) == strs(targets@).take(i as int).filter(pred),
        decreases targets@.len() - i,
    {
        proof {
            lemma_filter_take_step(strs(targets@), pred, i as int);
        }
        if !contains_text(authenticated, targets[i].as_str()) {
            let t = owned(targets[i].as_str());
            proof {
                crate::lease::lemma_strs_push(out@, t);
            }
            out.push(t);
        }
        i = i + 1;
    }
    proof {
        lemma_take_full(strs(targets@));
    }
    out
}

/// The JSON text a diagnosis id digests: the schema, the profile, the two
/// state revisions, the observation instant and the correlation id, as one
/// array.
pub open spec fn diagnosis_id_text(
    profile_id: Seq<char>,
    state_revision: u64,
    registry_revision: u64,
    observed_at: Seq<char>,
    correlation_id: Seq<char>,
) -> Seq<char> {
    seq!['['] + quoted(PROFILE_DIAGNOSIS_SCHEMA_V1@) + seq![','] + quoted(profile_id) + seq![','] + decimal(
        state_revision as nat,
    ) + seq![','] + decimal(registry_revision as nat) + seq![','] + quoted(observed_at) + seq![','] + quoted(
        correlation_id,
    ) + seq![']']
}

/// The id of a diagnosis: the digest of its identifying JSON text.
fn diagnosis_id(
    profile_id: &str,
    state_revision: u64,
    registry_revision: u64,
    observed_at: &str,
    correlation_id: &str,
) -> (r: String)
    ensures
        r@ == digest_text_spec(diagnosis_id_text(profile_id@, state_revision, registry_revision, observed_at@, correlation_id@)),
{
    let mut t = String::new();
    push_char(&mut t, '[');
    push_quoted(&mut t, PROFILE_DIAGNOSIS_SCHEMA_V1);
    push_char(&mut t, ',');
    push_quoted(&mut t, profile_id);
    push_char(&mut t, ',');
    push_decimal(&mut t, state_revision);
    push_char(&mut t, ',');
    push_decimal(&mut t, registry_revision);
    push_char(&mut t, ',');
    push_quoted(&mut t, observed_at);
    push_char(&mut t, ',');
    push_quoted(&mut t, correlation_id);
    push_char(&mut t, ']');
    assert(t@ =~= diagnosis_id_text(profile_id@, state_revision, registry_revision, observed_at@, correlation_id@));
    digest_text(t.as_str())
}

/// A profile's diagnosis.
pub struct ServiceProfileDiagnosis {
    pub schema_version: String,
    pub diagnosis_id: String,
    pub observed_at: String,
    pub correlation_id: String,
    pub state_revision: u64,
    pub runtime_owner_registry_revision: u64,
    /// The browser of the profile's current owner, and its daemon route.
    pub browser_id: Option<String>,
    pub daemon_session_route: Option<String>,
    pub profile_id: String,
    pub profile_identity_digest: String,
    pub state: ProfileDiagnosisState,
    pub eligible_action: String,
    pub dominant_blocker: Option<String>,
    pub findings: Vec<ProfileDiagnosisFinding>,
    pub missing_authentication_targets: Vec<String>,
}

/// Diagnoses a profile without changing anything: its findings, the target
/// services it is not signed in to, the state these put it in, the action
/// that state allows and the first blocking finding. A profile that is not
/// stored, or whose identity does not resolve, is refused. `process_state`,
/// `shared_local` and `lock_verdict` are the caller's observations of the
/// owner's process, of the profile's access mode and of its singleton lock.
/// The diagnosis is identified by the profile, the state's revisions, the
/// instant `observed_at` and the request's `correlation_id`.
pub fn diagnose_service_profile(
    state: &ServiceState,
    profile_id: &str,
    observed_at: &str,
    correlation_id: &str,
    process_state: &str,
    shared_local: bool,
    lock_verdict: &str,
) -> (r: Result<ServiceProfileDiagnosis, String>)
    ensures
        match r {
            Ok(d) => lookup(state.profiles@, profile_id@) matches Some(p) && {
                let findings = diagnosis_findings_spec(
                    *state,
                    profile_id@,
                    d.profile_identity_digest@,
                    process_state@,
                    shared_local,
                    lock_verdict@,
                );
                let missing = missing_authentication_spec(strs(p.target_service_ids@), strs(p.authenticated_service_ids@));
                &&& recovery_digest_spec(p) == Ok::<Seq<char>, Seq<char>>(d.profile_identity_digest@)
                &&& d.schema_version@ == PROFILE_DIAGNOSIS_SCHEMA_V1@
                &&& d.diagnosis_id@ == digest_text_spec(
                    diagnosis_id_text(
                        profile_id@,
                        state.state_revision,
                        state.runtime_owner_registry.revision,
                        observed_at@,
                        correlation_id@,
                    ),
                )
                &&& d.observed_at@ == observed_at@
                &&& d.correlation_id@ == correlation_id@
                &&& d.state_revision == state.state_revision
                &&& d.runtime_owner_registry_revision == state.runtime_owner_registry.revision
                &&& ov(d.browser_id) == match lookup(state.runtime_owner_registry.owners@, d.profile_identity_digest@) {
                    Some(o) => Some(o.browser_id@),
                    None => None,
                }
                &&& ov(d.daemon_session_route) == match lookup(
                    state.runtime_owner_registry.owners@,
                    d.profile_identity_digest@,
                ) {
                    Some(o) => Some(o.daemon_session_route@),
                    None => None,
                }
                &&& d.profile_id@ == profile_id@
                &&& diagnosis_views(d.findings@) == findings
                &&& strs(d.missing_authentication_targets@) == missing
                &&& d.state == diagnosis_state_spec(findings, missing.len())
                &&& d.eligible_action@ == eligible_action_spec(d.state)
                &&& ov(d.dominant_blocker) == dominant_finding_spec(findings)
            },
            Err(e) => match lookup(state.profiles@, profile_id@) {
                None => e@ == "service_profile_diagnosis_profile_missing"@,
                Some(p) => recovery_digest_spec(p) == Err::<Seq<char>, Seq<char>>(e@),
            },
        },
{
    let profile = match get_keyed(&state.profiles, profile_id) {
        Some(p) => p,
        None => return Err(owned("service_profile_diagnosis_profile_missing")),
    };
    let digest = match recovery_profile_identity_digest(profile) {
        Ok(d) => d,
        Err(e) => return Err(e),
    };
    let findings = diagnosis_findings(state, profile_id, digest.as_str(), process_state, shared_local, lock_verdict);
    let missing = missing_authentication_targets(&profile.target_service_ids, &profile.authenticated_service_ids);
    proof {
        assert(strs(missing@).len() == missing@.len());
    }
    let diagnosis_state = classify_profile_diagnosis(&findings, missing.len());
    let action = owned(eligible_action(diagnosis_state));
    let dominant = dominant_finding(&findings);
    let (browser_id, route) = match get_keyed(&state.runtime_owner_registry.owners, digest.as_str()) {
        Some(o) => (Some(o.browser_id.clone()), Some(o.daemon_session_route.clone())),
        None => (None, None),
    };
    let id = diagnosis_id(
        profile_id,
        state.state_revision,
        state.runtime_owner_registry.revision,
        observed_at,
        correlation_id,
    );
    Ok(
        ServiceProfileDiagnosis {
            schema_version: owned(PROFILE_DIAGNOSIS_SCHEMA_V1),
            diagnosis_id: id,
            observed_at: owned(observed_at),
            correlation_id: owned(correlation_id),
            state_revision: state.state_revision,
            runtime_owner_registry_revision: state.runtime_owner_registry.revision,
            browser_id,
            daemon_session_route: route,
            profile_id: owned(profile_id),
            profile_identity_digest: digest,
            state: diagnosis_state,
            eligible_action: action,
            dominant_blocker: dominant,
            findings,
            missing_authentication_targets: missing,
        },
    )
}

} // verus!
