//! Service probes: the bounded recipe a probe runs under, and the identity a
//! probe's detector results report.

use vstd::prelude::*;
use crate::capture::{copy_or_null, member, or_null};
use crate::json::{field_str, field_u64, json_get, json_same, json_str, json_u64, JsonMember, JsonValue};
use crate::request::first_value;
use crate::text::{concat2, owned, trim, trim_owned};

verus! {

/// The value at `a` then `b` inside `v`.
pub open spec fn pointer2(v: JsonValue, a: Seq<char>, b: Seq<char>) -> Option<JsonValue> {
    match json_get(v, a) {
        Some(x) => json_get(x, b),
        None => None,
    }
}

/// The value at `a` then `b` inside `v`.
fn pointer<'a>(v: &'a JsonValue, a: &str, b: &str) -> (r: Option<&'a JsonValue>)
    ensures
        match r {
            Some(x) => pointer2(*v, a@, b@) == Some(*x),
            None => pointer2(*v, a@, b@) is None,
        },
{
    match v.get(a) {
        Some(x) => x.get(b),
        None => None,
    }
}

/// The trimmed text of a nonblank string value.
pub open spec fn nonblank_text(v: Option<JsonValue>) -> Option<Seq<char>> {
    match v {
        Some(x) => match json_str(x) {
            Some(s) => if trim(s).len() > 0 {
                Some(trim(s))
            } else {
                None
            },
            None => None,
        },
        None => None,
    }
}

/// The trimmed text of a nonblank string value.
fn nonblank_trimmed(v: Option<&JsonValue>) -> (r: Option<String>)
    ensures
        match r {
            Some(s) => nonblank_text(
                match v {
                    Some(x) => Some(*x),
                    None => None,
                },
            ) == Some(s@),
            None => nonblank_text(
                match v {
                    Some(x) => Some(*x),
                    None => None,
                },
            ) is None,
        },
{
    match v {
        Some(x) => match x.as_str() {
            Some(s) => {
                let t = trim_owned(s);
                if t.as_str().is_empty() {
                    None
                } else {
                    Some(t)
                }
            },
            None => None,
        },
        None => None,
    }
}

/// Where a detector result may report an identity, in order of preference.
pub open spec fn identity_candidates(r: JsonValue) -> Seq<Option<JsonValue>> {
    seq![
        pointer2(r, "result"@, "detectedIdentity"@),
        pointer2(r, "result"@, "identity"@),
        pointer2(r, "result"@, "email"@),
        pointer2(r, "result"@, "accountId"@),
        pointer2(r, "evidence"@, "detectedIdentity"@),
        pointer2(r, "evidence"@, "accountId"@),
    ]
}

/// The first candidate that is a nonblank string, trimmed.
pub open spec fn first_nonblank(c: Seq<Option<JsonValue>>) -> Option<Seq<char>>
    decreases c.len(),
{
    if c.len() == 0 {
        None
    } else if nonblank_text(c[0]) is Some {
        nonblank_text(c[0])
    } else {
        first_nonblank(c.drop_first())
    }
}

/// The identity a detector result reports, if any.
pub open spec fn result_identity(r: JsonValue) -> Option<Seq<char>> {
    first_nonblank(identity_candidates(r))
}

/// The confidence a detector result reports, if any: its result's, else its
/// evidence's.
pub open spec fn result_confidence(r: JsonValue) -> Option<Seq<char>> {
    nonblank_text(first_value(pointer2(r, "result"@, "confidence"@), pointer2(r, "evidence"@, "confidence"@)))
}

/// The detector a result names, or `probe`.
pub open spec fn result_source(r: JsonValue) -> Seq<char> {
    match field_str(r, "id"@) {
        Some(s) => s,
        None => "probe"@,
    }
}

/// The first reported identity across results, with the detector that reported it.
pub open spec fn first_identity(results: Seq<JsonValue>) -> Option<(Seq<char>, Seq<char>)>
    decreases results.len(),
{
    if results.len() == 0 {
        None
    } else if result_identity(results[0]) is Some {
        Some((result_identity(results[0])->0, result_source(results[0])))
    } else {
        first_identity(results.drop_first())
    }
}

/// The first reported confidence across results.
pub open spec fn first_confidence(results: Seq<JsonValue>) -> Option<Seq<char>>
    decreases results.len(),
{
    if results.len() == 0 {
        None
    } else if result_confidence(results[0]) is Some {
        result_confidence(results[0])
    } else {
        first_confidence(results.drop_first())
    }
}

/// The identity a detector result reports.
fn detect_identity(r: &JsonValue) -> (o: Option<String>)
    ensures
        match o {
            Some(s) => result_identity(*r) == Some(s@),
            None => result_identity(*r) is None,
        },
{
    proof {
        reveal_with_fuel(first_nonblank, 7);
    }
    let c = nonblank_trimmed(pointer(r, "result", "detectedIdentity"));
    if c.is_some() {
        return c;
    }
    let c = nonblank_trimmed(pointer(r, "result", "identity"));
    if c.is_some() {
        return c;
    }
    let c = nonblank_trimmed(pointer(r, "result", "email"));
    if c.is_some() {
        return c;
    }
    let c = nonblank_trimmed(pointer(r, "result", "accountId"));
    if c.is_some() {
        return c;
    }
    let c = nonblank_trimmed(pointer(r, "evidence", "detectedIdentity"));
    if c.is_some() {
        return c;
    }
    nonblank_trimmed(pointer(r, "evidence", "accountId"))
}

/// A string value, or null.
pub open spec fn text_or_null(v: JsonValue, s: Option<Seq<char>>) -> bool {
    match s {
        Some(t) => json_str(v) == Some(t),
        None => v is Null,
    }
}

/// A string value, or null.
fn string_or_null(s: Option<String>) -> (r: JsonValue)
    ensures
        text_or_null(
            r,
            match s {
                Some(t) => Some(t@),
                None => None,
            },
        ),
{
    match s {
        Some(t) => JsonValue::Str(t),
        None => JsonValue::Null,
    }
}

/// The members of a probe identity, in order: the first reported identity
/// (also as the account id), the expected identity or null, the first
/// reported confidence or `unknown`, and the detector that reported the
/// identity or `probe`.
pub open spec fn probe_identity_members(m: Seq<JsonMember>, results: Seq<JsonValue>, expected: Option<JsonValue>) -> bool {
    let id = match first_identity(results) {
        Some((i, _)) => Some(i),
        None => None,
    };
    &&& m.len() == 5
    &&& m[0].key@ == "detectedIdentity"@ && text_or_null(m[0].value, id)
    &&& m[1].key@ == "detectedAccountId"@ && text_or_null(m[1].value, id)
    &&& m[2].key@ == "expectedIdentity"@ && json_same(m[2].value, or_null(expected))
    &&& m[3].key@ == "confidence"@ && json_str(m[3].value) == Some(
        match first_confidence(results) {
            Some(c) => c,
            None => "unknown"@,
        },
    )
    &&& m[4].key@ == "source"@ && json_str(m[4].value) == Some(
        match first_identity(results) {
            Some((_, s)) => s,
            None => "probe"@,
        },
    )
}

/// Summarizes the identity that a probe's detector results report.
pub fn normalize_probe_identity(results: &Vec<JsonValue>, expected_identity: Option<&JsonValue>) -> (r: JsonValue)
    ensures
        r matches JsonValue::Object(m) && probe_identity_members(
            m@,
            results@,
            match expected_identity {
                Some(x) => Some(*x),
                None => None,
            },
        ),
{
    let mut detected: Option<String> = None;
    let mut source: Option<String> = None;
    let mut confidence: Option<String> = None;
    let mut i: usize = 0;
    assert(results@.skip(0) =~= results@);
    while i < results.len()
        invariant
            i <= results@.len(),
            match detected {
                Some(d) => source is Some && first_identity(results@) == Some((d@, source->0@)),
                None => source is None && first_identity(results@) == first_identity(results@.skip(i as int)),
            },
            match confidence {
                Some(c) => first_confidence(results@) == Some(c@),
                None => first_confidence(results@) == first_confidence(results@.skip(i as int)),
            },
        decreases results@.len() - i,
    {
        let r = &results[i];
        assert(results@.skip(i as int)[0] == results@[i as int]);
        assert(results@.skip(i as int).drop_first() =~= results@.skip(i + 1));
        if detected.is_none() {
            let found = detect_identity(r);
            if let Some(d) = found {
                let s = match r.field_str("id") {
                    Some(x) => owned(x),
                    None => owned("probe"),
                };
                detected = Some(d);
                source = Some(s);
            }
        }
        if confidence.is_none() {
            let c = nonblank_trimmed(
                match pointer(r, "result", "confidence") {
                    Some(x) => Some(x),
                    None => pointer(r, "evidence", "confidence"),
                },
            );
            if c.is_some() {
                confidence = c;
            }
        }
        i = i + 1;
    }
    proof {
        assert(results@.skip(i as int).len() == 0);
    }
    let confidence_text = match confidence {
        Some(c) => c,
        None => owned("unknown"),
    };
    let source_text = match source {
        Some(s) => s,
        None => owned("probe"),
    };
    let account = match &detected {
        Some(d) => Some(d.clone()),
        None => None,
    };
    JsonValue::Object(
        vec![
            member("detectedIdentity", string_or_null(detected)),
            member("detectedAccountId", string_or_null(account)),
            member("expectedIdentity", copy_or_null(expected_identity)),
            member("confidence", JsonValue::Str(confidence_text)),
            member("source", JsonValue::Str(source_text)),
        ],
    )
}

/// The bounds a probe runs under.
pub struct ProbePlan {
    pub timeout_ms: u64,
    pub max_return_bytes: u64,
    pub detector_count: usize,
    pub max_detectors: u64,
}

/// The first present unsigned number of two.
pub open spec fn first_u64(a: Option<u64>, b: Option<u64>) -> Option<u64> {
    match a {
        Some(n) => Some(n),
        None => b,
    }
}

/// A probe's detector limit: `maxDetectors` or ten, kept within one to
/// twenty-five.
pub open spec fn detector_limit(probe: JsonValue) -> u64 {
    let n = match field_u64(probe, "maxDetectors"@) {
        Some(n) => n,
        None => 10,
    };
    if n < 1 {
        1
    } else if n > 25 {
        25
    } else {
        n
    }
}

/// The bounds a probe command runs under, or why it is refused: the tab
/// handle and probe objects, positive time and return limits (the command's,
/// else the probe's), and a nonempty detector list within the detector limit.
pub open spec fn probe_plan_spec(cmd: JsonValue) -> Result<(u64, u64, nat, u64), Seq<char>> {
    let probe = json_get(cmd, "probe"@);
    let timeout = match probe {
        Some(p) => first_u64(field_u64(cmd, "timeoutMs"@), field_u64(p, "timeoutMs"@)),
        None => None,
    };
    let max_return = match probe {
        Some(p) => first_u64(field_u64(cmd, "maxReturnBytes"@), field_u64(p, "maxReturnBytes"@)),
        None => None,
    };
    if !(json_get(cmd, "serviceTabHandle"@) matches Some(h) && h is Object) {
        Err("probe requires serviceTabHandle"@)
    } else if !(probe matches Some(p) && p is Object) {
        Err("probe requires probe object"@)
    } else if timeout is None {
        Err("probe requires positive timeoutMs"@)
    } else if max_return is None {
        Err("probe requires positive maxReturnBytes"@)
    } else if timeout->0 == 0 || max_return->0 == 0 {
        Err("probe requires positive timeoutMs and maxReturnBytes"@)
    } else if !(json_get(probe->0, "detectors"@) matches Some(JsonValue::Array(d)) && d@.len() > 0) {
        Err("probe requires at least one detector"@)
    } else {
        let count = match json_get(probe->0, "detectors"@) {
            Some(JsonValue::Array(d)) => d@.len(),
            _ => 0,
        };
        let limit = detector_limit(probe->0);
        if count > limit {
            Err(
                "probe detector count "@ + crate::json::decimal(count) + " exceeds maxDetectors "@
                    + crate::json::decimal(limit as nat),
            )
        } else {
            Ok((timeout->0, max_return->0, count, limit))
        }
    }
}

/// Checks a probe command's bounds before any browser work.
pub fn plan_service_probe(cmd: &JsonValue) -> (r: Result<ProbePlan, String>)
    ensures
        match r {
            Ok(p) => probe_plan_spec(*cmd) == Ok::<(u64, u64, nat, u64), Seq<char>>(
                (p.timeout_ms, p.max_return_bytes, p.detector_count as nat, p.max_detectors),
            ),
            Err(e) => probe_plan_spec(*cmd) == Err::<(u64, u64, nat, u64), Seq<char>>(e@),
        },
{
    match cmd.get("serviceTabHandle") {
        Some(JsonValue::Object(_)) => {},
        _ => return Err(owned("probe requires serviceTabHandle")),
    }
    let probe = match cmd.get("probe") {
        Some(p) => match p {
            JsonValue::Object(_) => p,
            _ => return Err(owned("probe requires probe object")),
        },
        None => return Err(owned("probe requires probe object")),
    };
    let timeout_ms = match cmd.field_u64("timeoutMs") {
        Some(n) => n,
        None => match probe.field_u64("timeoutMs") {
            Some(n) => n,
            None => return Err(owned("probe requires positive timeoutMs")),
        },
    };
    let max_return_bytes = match cmd.field_u64("maxReturnBytes") {
        Some(n) => n,
        None => match probe.field_u64("maxReturnBytes") {
            Some(n) => n,
            None => return Err(owned("probe requires positive maxReturnBytes")),
        },
    };
    if timeout_ms == 0 || max_return_bytes == 0 {
        return Err(owned("probe requires positive timeoutMs and maxReturnBytes"));
    }
    let count = match probe.get("detectors") {
        Some(JsonValue::Array(d)) => {
            if d.len() == 0 {
                return Err(owned("probe requires at least one detector"));
            }
            d.len()
        },
        _ => return Err(owned("probe requires at least one detector")),
    };
    let requested = match probe.field_u64("maxDetectors") {
        Some(n) => n,
        None => 10,
    };
    let limit: u64 = if requested < 1 {
        1
    } else if requested > 25 {
        25
    } else {
        requested
    };
    if count as u64 > limit {
        let mut m = owned("probe detector count ");
        crate::json::push_decimal(&mut m, count as u64);
        let tail = owned(" exceeds maxDetectors ");
        let mut m = concat2(m.as_str(), tail.as_str());
        crate::json::push_decimal(&mut m, limit);
        return Err(m);
    }
    Ok(ProbePlan { timeout_ms, max_return_bytes, detector_count: count, max_detectors: limit })
}

/// The target a probe runs against: the tab handle's `targetId`.
pub fn probe_target_id(cmd: &JsonValue) -> (r: Result<String, String>)
    ensures
        match r {
            Ok(t) => field_str(json_get(*cmd, "serviceTabHandle"@)->0, "targetId"@) == Some(t@) && json_get(
                *cmd,
                "serviceTabHandle"@,
            ) is Some,
            Err(e) => e@ == "probe requires serviceTabHandle.targetId"@ && !(json_get(*cmd, "serviceTabHandle"@) matches Some(
                h,
            ) && field_str(h, "targetId"@) is Some),
        },
{
    match cmd.get("serviceTabHandle") {
        Some(h) => match h.field_str("targetId") {
            Some(t) => Ok(owned(t)),
            None => Err(owned("probe requires serviceTabHandle.targetId")),
        },
        None => Err(owned("probe requires serviceTabHandle.targetId")),
    }
}

/// The short fingerprint of a probe recipe: the first sixteen hexadecimal
/// digits of the SHA-256 digest of its JSON text.
pub fn probe_recipe_fingerprint(recipe_json: &str) -> (r: String)
    ensures
        r@ == crate::digest::digest_text_spec(recipe_json@).take(16),
{
    let digest = crate::digest::sha256_digest(recipe_json.as_bytes());
    let short = vstd::slice::slice_subrange(digest.as_slice(), 0, 8);
    let r = crate::digest::hex_lower(short);
    proof {
        let full = crate::digest::sha256(vstd::utf8::encode_utf8(recipe_json@));
        crate::digest::lemma_hex_prefix(full, 8);
        assert(full.subrange(0, 8) =~= full.take(8));
    }
    r
}

/// A nonblank string's text, untrimmed.
pub open spec fn nonblank_raw(v: Option<JsonValue>) -> Option<Seq<char>> {
    match v {
        Some(x) => match json_str(x) {
            Some(s) => if trim(s).len() > 0 {
                Some(s)
            } else {
                None
            },
            None => None,
        },
        None => None,
    }
}

/// A nonblank string's text, untrimmed.
fn nonblank_string(v: Option<&JsonValue>) -> (r: Option<String>)
    ensures
        match r {
            Some(s) => nonblank_raw(
                match v {
                    Some(x) => Some(*x),
                    None => None,
                },
            ) == Some(s@),
            None => nonblank_raw(
                match v {
                    Some(x) => Some(*x),
                    None => None,
                },
            ) is None,
        },
{
    match v {
        Some(x) => match x.as_str() {
            Some(s) => if crate::text::is_blank(s) {
                None
            } else {
                Some(owned(s))
            },
            None => None,
        },
        None => None,
    }
}

/// What a probe asks to record as profile freshness.
pub struct ProbeFreshnessUpdate {
    pub profile_id: String,
    pub target_service_id: String,
    pub account_id: String,
    pub readiness_state: String,
    pub recommended_action: String,
    pub observed_at: String,
    pub freshness_expires_at: JsonValue,
    pub update_authenticated_service_ids: bool,
    /// The evidence the record cites, as members in key order.
    pub evidence: JsonValue,
}

/// The evidence members a freshness record cites, in key order.
pub open spec fn evidence_members(
    m: Seq<JsonMember>,
    account_id: Seq<char>,
    target_service_id: Seq<char>,
    observed_at: Seq<char>,
    identity: JsonValue,
    probe: JsonValue,
) -> bool {
    &&& m.len() == 9
    &&& m[0].key@ == "accountId"@ && json_str(m[0].value) == Some(account_id)
    &&& member_is_copy(m[1], "confidence"@, or_null(json_get(identity, "confidence"@)))
    &&& member_is_copy(m[2], "detectedAccountId"@, or_null(json_get(identity, "detectedAccountId"@)))
    &&& member_is_copy(m[3], "detectedIdentity"@, or_null(json_get(identity, "detectedIdentity"@)))
    &&& m[4].key@ == "kind"@ && json_str(m[4].value) == Some("service_probe"@)
    &&& m[5].key@ == "observedAt"@ && json_str(m[5].value) == Some(observed_at)
    &&& member_is_copy(m[6], "recipeId"@, or_null(json_get(probe, "recipeId"@)))
    &&& member_is_copy(m[7], "source"@, or_null(json_get(identity, "source"@)))
    &&& m[8].key@ == "targetServiceId"@ && json_str(m[8].value) == Some(target_service_id)
}

/// A member with key `key` holding the same JSON as `value`.
pub open spec fn member_is_copy(m: JsonMember, key: Seq<char>, value: JsonValue) -> bool {
    m.key@ == key && json_same(m.value, value)
}

/// What a probe records as freshness, if it asks to, or why it cannot: the
/// record must be an object naming a nonblank target service (the record's,
/// else the command's), account and profile (the record's, else the tab
/// handle's).
pub open spec fn freshness_refusal(cmd: JsonValue, probe: JsonValue, handle: JsonValue) -> Option<Seq<char>> {
    let record = json_get(probe, "recordFreshness"@);
    match record {
        None => None,
        Some(rec) => if !(rec is Object) {
            Some("probe recordFreshness must be an object"@)
        } else if nonblank_raw(first_value(json_get(rec, "targetServiceId"@), json_get(cmd, "targetServiceId"@))) is None {
            Some("probe recordFreshness requires targetServiceId"@)
        } else if nonblank_raw(json_get(rec, "accountId"@)) is None {
            Some("probe recordFreshness requires accountId"@)
        } else if nonblank_raw(first_value(json_get(rec, "profileId"@), json_get(handle, "profileId"@))) is None {
            Some("probe recordFreshness requires profileId"@)
        } else {
            None
        },
    }
}

/// The freshness update a probe asks for, its fields fixed by the record.
pub open spec fn freshness_update_ok(
    u: ProbeFreshnessUpdate,
    cmd: JsonValue,
    probe: JsonValue,
    handle: JsonValue,
    identity: JsonValue,
    observed_at: Seq<char>,
) -> bool {
    let rec = json_get(probe, "recordFreshness"@)->0;
    &&& Some(u.target_service_id@) == nonblank_raw(
        first_value(json_get(rec, "targetServiceId"@), json_get(cmd, "targetServiceId"@)),
    )
    &&& Some(u.account_id@) == nonblank_raw(json_get(rec, "accountId"@))
    &&& Some(u.profile_id@) == nonblank_raw(first_value(json_get(rec, "profileId"@), json_get(handle, "profileId"@)))
    &&& u.readiness_state@ == match field_str(rec, "readinessState"@) {
        Some(s) => s,
        None => "fresh"@,
    }
    &&& u.recommended_action@ == match field_str(rec, "readinessRecommendedAction"@) {
        Some(s) => s,
        None => "profile_freshness_verified_by_service_probe"@,
    }
    &&& u.observed_at@ == observed_at
    &&& json_same(u.freshness_expires_at, or_null(json_get(rec, "freshnessExpiresAt"@)))
    &&& u.update_authenticated_service_ids == match crate::json::field_bool(rec, "updateAuthenticatedServiceIds"@) {
        Some(b) => b,
        None => true,
    }
    &&& u.evidence matches JsonValue::Object(m) && evidence_members(
        m@,
        u.account_id@,
        u.target_service_id@,
        observed_at,
        identity,
        probe,
    )
}

/// Reads what a probe asks to record as profile freshness: nothing when it
/// asks for nothing, else the validated update and the evidence it cites.
pub fn probe_freshness_update(
    cmd: &JsonValue,
    probe: &JsonValue,
    handle: &JsonValue,
    identity: &JsonValue,
    observed_at: &str,
) -> (r: Result<Option<ProbeFreshnessUpdate>, String>)
    ensures
        match r {
            Ok(None) => json_get(*probe, "recordFreshness"@) is None,
            Ok(Some(u)) => freshness_refusal(*cmd, *probe, *handle) is None && json_get(*probe, "recordFreshness"@) is Some
                && freshness_update_ok(u, *cmd, *probe, *handle, *identity, observed_at@),
            Err(e) => freshness_refusal(*cmd, *probe, *handle) == Some(e@),
        },
{
    let rec = match probe.get("recordFreshness") {
        None => return Ok(None),
        Some(r) => r,
    };
    match rec {
        JsonValue::Object(_) => {},
        _ => return Err(owned("probe recordFreshness must be an object")),
    }
    let target_service_id = match nonblank_string(
        match rec.get("targetServiceId") {
            Some(v) => Some(v),
            None => cmd.get("targetServiceId"),
        },
    ) {
        Some(s) => s,
        None => return Err(owned("probe recordFreshness requires targetServiceId")),
    };
    let account_id = match nonblank_string(rec.get("accountId")) {
        Some(s) => s,
        None => return Err(owned("probe recordFreshness requires accountId")),
    };
    let profile_id = match nonblank_string(
        match rec.get("profileId") {
            Some(v) => Some(v),
            None => handle.get("profileId"),
        },
    ) {
        Some(s) => s,
        None => return Err(owned("probe recordFreshness requires profileId")),
    };
    let readiness_state = match rec.field_str("readinessState") {
        Some(s) => owned(s),
        None => owned("fresh"),
    };
    let recommended_action = match rec.field_str("readinessRecommendedAction") {
        Some(s) => owned(s),
        None => owned("profile_freshness_verified_by_service_probe"),
    };
    let update_ids = match rec.field_bool("updateAuthenticatedServiceIds") {
        Some(b) => b,
        None => true,
    };
    let evidence = JsonValue::Object(
        vec![
            member("accountId", JsonValue::Str(account_id.clone())),
            member("confidence", copy_or_null(identity.get("confidence"))),
            member("detectedAccountId", copy_or_null(identity.get("detectedAccountId"))),
            member("detectedIdentity", copy_or_null(identity.get("detectedIdentity"))),
            member("kind", JsonValue::Str(owned("service_probe"))),
            member("observedAt", JsonValue::Str(owned(observed_at))),
            member("recipeId", copy_or_null(probe.get("recipeId"))),
            member("source", copy_or_null(identity.get("source"))),
            member("targetServiceId", JsonValue::Str(target_service_id.clone())),
        ],
    );
    Ok(
        Some(
            ProbeFreshnessUpdate {
                profile_id,
                target_service_id,
                account_id,
                readiness_state,
                recommended_action,
                observed_at: owned(observed_at),
                freshness_expires_at: copy_or_null(rec.get("freshnessExpiresAt")),
                update_authenticated_service_ids: update_ids,
                evidence,
            },
        ),
    )
}

/// The members of a freshness write, in key order, citing the evidence as
/// the given JSON text.
pub open spec fn freshness_body_members(m: Seq<JsonMember>, u: ProbeFreshnessUpdate, evidence_text: Seq<char>) -> bool {
    &&& m.len() == 8
    &&& m[0].key@ == "accountId"@ && json_str(m[0].value) == Some(u.account_id@)
    &&& member_is_copy(m[1], "freshnessExpiresAt"@, u.freshness_expires_at)
    &&& m[2].key@ == "lastVerifiedAt"@ && json_str(m[2].value) == Some(u.observed_at@)
    &&& m[3].key@ == "readinessEvidence"@ && json_str(m[3].value) == Some(evidence_text)
    &&& m[4].key@ == "readinessRecommendedAction"@ && json_str(m[4].value) == Some(u.recommended_action@)
    &&& m[5].key@ == "readinessState"@ && json_str(m[5].value) == Some(u.readiness_state@)
    &&& m[6].key@ == "targetServiceId"@ && json_str(m[6].value) == Some(u.target_service_id@)
    &&& m[7].key@ == "updateAuthenticatedServiceIds"@ && m[7].value == JsonValue::Bool(
        u.update_authenticated_service_ids,
    )
}

/// The profile freshness write for an update, citing its evidence as JSON text.
pub fn probe_freshness_body(u: &ProbeFreshnessUpdate, evidence_text: &str) -> (r: JsonValue)
    ensures
        r matches JsonValue::Object(m) && freshness_body_members(m@, *u, evidence_text@),
{
    JsonValue::Object(
        vec![
            member("accountId", JsonValue::Str(u.account_id.clone())),
            member("freshnessExpiresAt", crate::json::copy_value(&u.freshness_expires_at)),
            member("lastVerifiedAt", JsonValue::Str(u.observed_at.clone())),
            member("readinessEvidence", JsonValue::Str(owned(evidence_text))),
            member("readinessRecommendedAction", JsonValue::Str(u.recommended_action.clone())),
            member("readinessState", JsonValue::Str(u.readiness_state.clone())),
            member("targetServiceId", JsonValue::Str(u.target_service_id.clone())),
            member("updateAuthenticatedServiceIds", JsonValue::Bool(u.update_authenticated_service_ids)),
        ],
    )
}

/// The members of a recorded freshness result, in key order.
pub open spec fn freshness_result_members(m: Seq<JsonMember>, u: ProbeFreshnessUpdate, profile: JsonValue) -> bool {
    &&& m.len() == 5
    &&& m[0].key@ == "accountId"@ && json_str(m[0].value) == Some(u.account_id@)
    &&& m[1].key@ == "profile"@ && m[1].value == profile
    &&& m[2].key@ == "profileId"@ && json_str(m[2].value) == Some(u.profile_id@)
    &&& m[3].key@ == "recorded"@ && m[3].value == JsonValue::Bool(true)
    &&& m[4].key@ == "targetServiceId"@ && json_str(m[4].value) == Some(u.target_service_id@)
}

/// What a probe reports once its freshness is recorded on `profile`.
pub fn probe_freshness_result(u: &ProbeFreshnessUpdate, profile: JsonValue) -> (r: JsonValue)
    ensures
        r matches JsonValue::Object(m) && freshness_result_members(m@, *u, profile),
{
    JsonValue::Object(
        vec![
            member("accountId", JsonValue::Str(u.account_id.clone())),
            member("profile", profile),
            member("profileId", JsonValue::Str(u.profile_id.clone())),
            member("recorded", JsonValue::Bool(true)),
            member("targetServiceId", JsonValue::Str(u.target_service_id.clone())),
        ],
    )
}

} // verus!
