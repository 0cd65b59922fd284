//! Ingress checks of bounded desktop requests: which fields each accepts,
//! how top-level and `params` values combine, and the bounds each value
//! must keep.

use vstd::prelude::*;
use crate::json::{field_str, json_get, json_same, json_str, json_u64, json_equal, JsonMember, JsonValue};
use crate::request::{issue, texts_of, ServiceRequestIssue, ServiceRequestIssueKind};
use crate::text::{concat2, concat3, is_blank, owned, str_equal, trim};

verus! {

/// The largest desktop capture, in bytes.
pub const DESKTOP_CAPTURE_HARD_MAX_BYTES: u64 = 16777216;

/// The first member key that `allowed` does not list.
pub open spec fn first_unlisted(members: Seq<JsonMember>, allowed: Seq<Seq<char>>) -> Option<Seq<char>>
    decreases members.len(),
{
    if members.len() == 0 {
        None
    } else if !allowed.contains(members[0].key@) {
        Some(members[0].key@)
    } else {
        first_unlisted(members.drop_first(), allowed)
    }
}

/// The first key of an object that `allowed` does not list.
pub open spec fn unlisted_key(v: JsonValue, allowed: Seq<Seq<char>>) -> Option<Seq<char>> {
    match v {
        JsonValue::Object(members) => first_unlisted(members@, allowed),
        _ => None,
    }
}

/// Whether a list of static texts holds `s`.
fn lists(allowed: &[&str], s: &str) -> (r: bool)
    ensures
        r == texts_of(allowed@).contains(s@),
{
    let mut i: usize = 0;
    while i < allowed.len()
        invariant
            i <= allowed@.len(),
            forall|j: int| 0 <= j < i ==> texts_of(allowed@)[j] != s@,
        decreases allowed@.len() - i,
    {
        if str_equal(allowed[i], s) {
            assert(texts_of(allowed@)[i as int] == s@);
            return true;
        }
        i = i + 1;
    }
    false
}

/// The first key of an object that `allowed` does not list.
pub fn find_unlisted_key(v: &JsonValue, allowed: &[&str]) -> (r: Option<String>)
    ensures
        match r {
            Some(k) => unlisted_key(*v, texts_of(allowed@)) == Some(k@),
            None => unlisted_key(*v, texts_of(allowed@)) is None,
        },
{
    let members = match v {
        JsonValue::Object(members) => members,
        _ => return None,
    };
    let ghost names = texts_of(allowed@);
    let mut i: usize = 0;
    assert(members@.skip(0) =~= members@);
    while i < members.len()
        invariant
            i <= members@.len(),
            *v == JsonValue::Object(*members),
            names == texts_of(allowed@),
            first_unlisted(members@, names) == first_unlisted(members@.skip(i as int), names),
        decreases members@.len() - i,
    {
        assert(members@.skip(i as int).drop_first() =~= members@.skip(i + 1));
        if !lists(allowed, members[i].key.as_str()) {
            return Some(members[i].key.clone());
        }
        i = i + 1;
    }
    None
}

/// The first field that the request and its params both give, with
/// values that differ.
pub open spec fn first_conflict(request: JsonValue, params: JsonValue, fields: Seq<Seq<char>>) -> Option<Seq<char>>
    decreases fields.len(),
{
    if fields.len() == 0 {
        None
    } else if json_get(request, fields[0]) matches Some(top) && json_get(params, fields[0]) matches Some(nested)
        && !json_same(top, nested) {
        Some(fields[0])
    } else {
        first_conflict(request, params, fields.drop_first())
    }
}

/// The first field that the request and its params both give differently.
pub fn find_conflict(request: &JsonValue, params: &JsonValue, fields: &[&str]) -> (r: Option<String>)
    ensures
        match r {
            Some(f) => first_conflict(*request, *params, texts_of(fields@)) == Some(f@),
            None => first_conflict(*request, *params, texts_of(fields@)) is None,
        },
{
    let ghost names = texts_of(fields@);
    let mut i: usize = 0;
    assert(names.skip(0) =~= names);
    while i < fields.len()
        invariant
            i <= fields@.len(),
            names == texts_of(fields@),
            first_conflict(*request, *params, names) == first_conflict(*request, *params, names.skip(i as int)),
        decreases fields@.len() - i,
    {
        assert(names.skip(i as int).drop_first() =~= names.skip(i + 1));
        assert(names.skip(i as int)[0] == fields@[i as int]@);
        let f = fields[i];
        match (request.get(f), params.get(f)) {
            (Some(top), Some(nested)) => {
                if !json_equal(top, nested) {
                    return Some(owned(f));
                }
            },
            _ => {},
        }
        i = i + 1;
    }
    None
}

/// The params object of a request, when it has one.
pub open spec fn params_of(request: JsonValue) -> Option<JsonValue> {
    match json_get(request, "params"@) {
        Some(p) => if p is Object { Some(p) } else { None },
        None => None,
    }
}

/// A field of the request, else of its params object.
pub open spec fn routed(request: JsonValue, key: Seq<char>) -> Option<JsonValue> {
    match json_get(request, key) {
        Some(v) => Some(v),
        None => match params_of(request) {
            Some(p) => json_get(p, key),
            None => None,
        },
    }
}

/// Whether a value is a string that is not blank.
pub open spec fn nonblank_string(v: JsonValue) -> bool {
    json_str(v) matches Some(s) && trim(s).len() > 0
}

/// The params object of a request.
fn params_object(request: &JsonValue) -> (r: Option<&JsonValue>)
    ensures
        match r {
            Some(p) => params_of(*request) == Some(*p),
            None => params_of(*request) is None,
        },
{
    match request.get("params") {
        Some(p) => match p {
            JsonValue::Object(_) => Some(p),
            _ => None,
        },
        None => None,
    }
}

/// A field of the request, else of its params object.
fn routed_field<'a>(request: &'a JsonValue, key: &str) -> (r: Option<&'a JsonValue>)
    ensures
        match r {
            Some(v) => routed(*request, key@) == Some(*v),
            None => routed(*request, key@) is None,
        },
{
    match request.get(key) {
        Some(v) => Some(v),
        None => match params_object(request) {
            Some(p) => p.get(key),
            None => None,
        },
    }
}

/// Whether a value is a string that is not blank.
fn is_nonblank_string(v: &JsonValue) -> (r: bool)
    ensures
        r == nonblank_string(*v),
{
    match v.as_str() {
        Some(s) => !is_blank(s),
        None => false,
    }
}

/// The fields a desktop capture accepts in its params.
pub open spec fn capture_fields() -> Seq<Seq<char>> {
    seq!["browserId"@, "sessionName"@, "format"@, "maxBytes"@]
}

/// Why a `desktop_capture` request is refused, if it is: its params may
/// only name the browser, session, format and size, none of them differing
/// from the top level; it needs a nonblank browser, a PNG format, a
/// nonblank session when one is given, and a positive size within the hard
/// bound.
pub open spec fn desktop_capture_refusal(action: Seq<char>, request: JsonValue) -> Option<Seq<char>> {
    if action != "desktop_capture"@ {
        None
    } else if params_of(request) matches Some(p) && unlisted_key(p, capture_fields()) is Some {
        Some("desktop_capture does not accept params."@ + unlisted_key(params_of(request)->0, capture_fields())->0)
    } else if params_of(request) matches Some(p) && first_conflict(request, p, capture_fields()) is Some {
        Some(
            "desktop_capture has conflicting "@ + first_conflict(request, params_of(request)->0, capture_fields())->0
                + " values"@,
        )
    } else if !(routed(request, "browserId"@) matches Some(b) && nonblank_string(b)) {
        Some("desktop_capture requires browserId"@)
    } else if routed(request, "format"@) matches Some(f) && json_str(f) != Some("png"@) {
        Some("desktop_capture format must be png"@)
    } else if routed(request, "sessionName"@) matches Some(s) && !nonblank_string(s) {
        Some("desktop_capture sessionName must be a nonempty string"@)
    } else if routed(request, "maxBytes"@) matches Some(m) && !(json_u64(m) matches Some(n) && n > 0) {
        Some("desktop_capture maxBytes must be a positive integer"@)
    } else if routed(request, "maxBytes"@) matches Some(m) && json_u64(m) matches Some(n) && n
        > DESKTOP_CAPTURE_HARD_MAX_BYTES {
        Some("desktop_capture maxBytes must not exceed 16777216"@)
    } else {
        None
    }
}

/// A refusal of a bounded recipe.
fn bounded(message: &str) -> (r: ServiceRequestIssue)
    ensures
        r.spec_kind() == ServiceRequestIssueKind::InvalidBoundedRecipe,
        r.message_view() == message@,
        !r.denied_by_access(),
{
    issue(ServiceRequestIssueKind::InvalidBoundedRecipe, message)
}

/// Refuses a `desktop_capture` request that is unbound or unsafe.
pub fn reject_desktop_capture_request(action: &str, request: &JsonValue) -> (r: Result<(), ServiceRequestIssue>)
    ensures
        match r {
            Ok(()) => desktop_capture_refusal(action@, *request) is None,
            Err(e) => !e.denied_by_access() && e.spec_kind() == ServiceRequestIssueKind::InvalidBoundedRecipe
                && desktop_capture_refusal(action@, *request) == Some(e.message_view()),
        },
{
    if !str_equal(action, "desktop_capture") {
        return Ok(());
    }
    let fields: [&str; 4] = ["browserId", "sessionName", "format", "maxBytes"];
    assert(texts_of(fields@) =~= capture_fields());
    if let Some(p) = params_object(request) {
        if let Some(field) = find_unlisted_key(p, &fields) {
            let m = concat2("desktop_capture does not accept params.", field.as_str());
            return Err(bounded(m.as_str()));
        }
        if let Some(field) = find_conflict(request, p, &fields) {
            let m = concat3("desktop_capture has conflicting ", field.as_str(), " values");
            return Err(bounded(m.as_str()));
        }
    }
    let browser_ok = match routed_field(request, "browserId") {
        Some(b) => is_nonblank_string(b),
        None => false,
    };
    if !browser_ok {
        return Err(bounded("desktop_capture requires browserId"));
    }
    if let Some(f) = routed_field(request, "format") {
        let png = match f.as_str() {
            Some(s) => str_equal(s, "png"),
            None => false,
        };
        if !png {
            return Err(bounded("desktop_capture format must be png"));
        }
    }
    if let Some(s) = routed_field(request, "sessionName") {
        if !is_nonblank_string(s) {
            return Err(bounded("desktop_capture sessionName must be a nonempty string"));
        }
    }
    if let Some(m) = routed_field(request, "maxBytes") {
        match m.as_u64() {
            Some(n) => {
                if n == 0 {
                    return Err(bounded("desktop_capture maxBytes must be a positive integer"));
                }
                if n > DESKTOP_CAPTURE_HARD_MAX_BYTES {
                    return Err(bounded("desktop_capture maxBytes must not exceed 16777216"));
                }
            },
            None => return Err(bounded("desktop_capture maxBytes must be a positive integer")),
        }
    }
    Ok(())
}

/// The top-level fields a desktop locate accepts.
pub open spec fn locate_top_fields() -> Seq<Seq<char>> {
    seq![
        "action"@,
        "browserId"@,
        "sessionName"@,
        "locator"@,
        "includeVisualization"@,
        "jobTimeoutMs"@,
        "serviceName"@,
        "agentName"@,
        "taskName"@,
        "params"@,
    ]
}

/// The fields a desktop locate accepts in its params.
pub open spec fn locate_param_fields() -> Seq<Seq<char>> {
    seq!["browserId"@, "sessionName"@, "locator"@, "includeVisualization"@]
}

/// The fields a locator accepts.
pub open spec fn locator_fields() -> Seq<Seq<char>> {
    seq!["locatorId"@, "maxCandidates"@]
}

/// Why a `desktop_locate` request is refused, if it is: it accepts only its
/// own fields, at the top level and in params, with no conflicts; it needs a
/// nonblank browser, a nonblank session when one is given, and a named
/// locator object with at most thirty-two candidates; visualization is a
/// boolean.
pub open spec fn desktop_locate_refusal(action: Seq<char>, request: JsonValue) -> Option<Seq<char>> {
    if action != "desktop_locate"@ {
        None
    } else if unlisted_key(request, locate_top_fields()) is Some {
        Some("desktop_locate does not accept "@ + unlisted_key(request, locate_top_fields())->0)
    } else if params_of(request) matches Some(p) && unlisted_key(p, locate_param_fields()) is Some {
        Some("desktop_locate does not accept params."@ + unlisted_key(params_of(request)->0, locate_param_fields())->0)
    } else if params_of(request) matches Some(p) && first_conflict(request, p, locate_param_fields()) is Some {
        Some(
            "desktop_locate has conflicting "@ + first_conflict(request, params_of(request)->0, locate_param_fields())->0
                + " values"@,
        )
    } else if !(routed(request, "browserId"@) matches Some(b) && nonblank_string(b)) {
        Some("desktop_locate requires browserId"@)
    } else if routed(request, "sessionName"@) matches Some(s) && !nonblank_string(s) {
        Some("desktop_locate sessionName must be a nonempty string"@)
    } else if !(routed(request, "locator"@) matches Some(l) && l is Object) {
        Some("desktop_locate requires locator"@)
    } else if unlisted_key(routed(request, "locator"@)->0, locator_fields()) is Some {
        Some("desktop_locate locator does not accept "@ + unlisted_key(routed(request, "locator"@)->0, locator_fields())->0)
    } else if !(json_get(routed(request, "locator"@)->0, "locatorId"@) matches Some(id) && nonblank_string(id)) {
        Some("desktop_locate locator requires locatorId"@)
    } else if json_get(routed(request, "locator"@)->0, "maxCandidates"@) matches Some(m) && !(json_u64(m) matches Some(
        n,
    ) && 1 <= n <= 32) {
        Some("desktop_locate locator.maxCandidates must be an integer between 1 and 32"@)
    } else if routed(request, "includeVisualization"@) matches Some(v) && !(v is Bool) {
        Some("desktop_locate includeVisualization must be a boolean"@)
    } else {
        None
    }
}

/// Refuses a `desktop_locate` request that is not a named, bounded locator request.
#[verifier::rlimit(40)]
pub fn reject_desktop_locate_request(action: &str, request: &JsonValue) -> (r: Result<(), ServiceRequestIssue>)
    ensures
        match r {
            Ok(()) => desktop_locate_refusal(action@, *request) is None,
            Err(e) => !e.denied_by_access() && e.spec_kind() == ServiceRequestIssueKind::InvalidBoundedRecipe
                && desktop_locate_refusal(action@, *request) == Some(e.message_view()),
        },
{
    if !str_equal(action, "desktop_locate") {
        return Ok(());
    }
    let top: [&str; 10] = [
        "action",
        "browserId",
        "sessionName",
        "locator",
        "includeVisualization",
        "jobTimeoutMs",
        "serviceName",
        "agentName",
        "taskName",
        "params",
    ];
    assert(texts_of(top@) =~= locate_top_fields());
    if let Some(field) = find_unlisted_key(request, &top) {
        let m = concat2("desktop_locate does not accept ", field.as_str());
        return Err(bounded(m.as_str()));
    }
    let fields: [&str; 4] = ["browserId", "sessionName", "locator", "includeVisualization"];
    assert(texts_of(fields@) =~= locate_param_fields());
    if let Some(p) = params_object(request) {
        if let Some(field) = find_unlisted_key(p, &fields) {
            let m = concat2("desktop_locate does not accept params.", field.as_str());
            return Err(bounded(m.as_str()));
        }
        if let Some(field) = find_conflict(request, p, &fields) {
            let m = concat3("desktop_locate has conflicting ", field.as_str(), " values");
            return Err(bounded(m.as_str()));
        }
    }
    let browser_ok = match routed_field(request, "browserId") {
        Some(b) => is_nonblank_string(b),
        None => false,
    };
    if !browser_ok {
        return Err(bounded("desktop_locate requires browserId"));
    }
    if let Some(s) = routed_field(request, "sessionName") {
        if !is_nonblank_string(s) {
            return Err(bounded("desktop_locate sessionName must be a nonempty string"));
        }
    }
    let locator = match routed_field(request, "locator") {
        Some(l) => match l {
            JsonValue::Object(_) => l,
            _ => return Err(bounded("desktop_locate requires locator")),
        },
        None => return Err(bounded("desktop_locate requires locator")),
    };
    let locator_keys: [&str; 2] = ["locatorId", "maxCandidates"];
    assert(texts_of(locator_keys@) =~= locator_fields());
    if let Some(field) = find_unlisted_key(locator, &locator_keys) {
        let m = concat2("desktop_locate locator does not accept ", field.as_str());
        return Err(bounded(m.as_str()));
    }
    let named = match locator.get("locatorId") {
        Some(id) => is_nonblank_string(id),
        None => false,
    };
    if !named {
        return Err(bounded("desktop_locate locator requires locatorId"));
    }
    if let Some(m) = locator.get("maxCandidates") {
        let bounded_count = match m.as_u64() {
            Some(n) => 1 <= n && n <= 32,
            None => false,
        };
        if !bounded_count {
            return Err(bounded("desktop_locate locator.maxCandidates must be an integer between 1 and 32"));
        }
    }
    if let Some(v) = routed_field(request, "includeVisualization") {
        if !matches!(v, JsonValue::Bool(_)) {
            return Err(bounded("desktop_locate includeVisualization must be a boolean"));
        }
    }
    Ok(())
}


/// The first of `fields` that the request does not give as a nonblank string.
pub open spec fn first_missing(request: JsonValue, fields: Seq<Seq<char>>) -> Option<Seq<char>>
    decreases fields.len(),
{
    if fields.len() == 0 {
        None
    } else if !(json_get(request, fields[0]) matches Some(v) && nonblank_string(v)) {
        Some(fields[0])
    } else {
        first_missing(request, fields.drop_first())
    }
}

/// The first of `fields` that the request does not give as a nonblank string.
pub fn find_missing(request: &JsonValue, fields: &[&str]) -> (r: Option<String>)
    ensures
        match r {
            Some(f) => first_missing(*request, texts_of(fields@)) == Some(f@),
            None => first_missing(*request, texts_of(fields@)) is None,
        },
{
    let ghost names = texts_of(fields@);
    let mut i: usize = 0;
    assert(names.skip(0) =~= names);
    while i < fields.len()
        invariant
            i <= fields@.len(),
            names == texts_of(fields@),
            first_missing(*request, names) == first_missing(*request, names.skip(i as int)),
        decreases fields@.len() - i,
    {
        assert(names.skip(i as int).drop_first() =~= names.skip(i + 1));
        assert(names.skip(i as int)[0] == fields@[i as int]@);
        let f = fields[i];
        let present = match request.get(f) {
            Some(v) => is_nonblank_string(v),
            None => false,
        };
        if !present {
            return Some(owned(f));
        }
        i = i + 1;
    }
    None
}

/// The top-level fields a desktop interaction accepts.
pub open spec fn interact_top_fields() -> Seq<Seq<char>> {
    seq![
        "action"@,
        "browserId"@,
        "sessionName"@,
        "controllerLeaseId"@,
        "operationId"@,
        "recipe"@,
        "serviceName"@,
        "agentName"@,
        "taskName"@,
        "jobTimeoutMs"@,
    ]
}

/// The fields a desktop interaction requires as nonblank strings.
pub open spec fn interact_required_fields() -> Seq<Seq<char>> {
    seq!["browserId"@, "controllerLeaseId"@, "operationId"@, "serviceName"@, "agentName"@, "taskName"@]
}

/// Whether a recipe id names a supported interaction recipe.
pub open spec fn supported_recipe(id: Option<Seq<char>>) -> bool {
    id == Some("p110-pointer-keyboard-v1"@) || id == Some("p110-foundation-stress-v1"@) || id == Some(
        "p131-controlled-x11-v1"@,
    )
}

/// Why a `desktop_interact` request is refused, if it is: it accepts only
/// its own top-level fields, is attributed to a browser, controller lease,
/// operation, service, agent and task, and names exactly one supported
/// recipe, without raw input.
pub open spec fn desktop_interact_refusal(action: Seq<char>, request: JsonValue) -> Option<Seq<char>> {
    if action != "desktop_interact"@ {
        None
    } else if unlisted_key(request, interact_top_fields()) is Some {
        Some("desktop_interact does not accept "@ + unlisted_key(request, interact_top_fields())->0)
    } else if first_missing(request, interact_required_fields()) is Some {
        Some("desktop_interact requires "@ + first_missing(request, interact_required_fields())->0)
    } else if json_get(request, "sessionName"@) matches Some(s) && !nonblank_string(s) {
        Some("desktop_interact sessionName must be a nonempty string"@)
    } else if !(json_get(request, "recipe"@) matches Some(r) && r is Object) {
        Some("desktop_interact requires recipe"@)
    } else if unlisted_key(json_get(request, "recipe"@)->0, seq!["recipeId"@]) is Some {
        Some(
            "desktop_interact recipe does not accept "@ + unlisted_key(json_get(request, "recipe"@)->0, seq!["recipeId"@])->0,
        )
    } else if !supported_recipe(field_str(json_get(request, "recipe"@)->0, "recipeId"@)) {
        Some("desktop_interact requires a supported recipeId"@)
    } else {
        None
    }
}

/// Refuses a `desktop_interact` request that is not one attributed, named recipe.
#[verifier::rlimit(40)]
pub fn reject_desktop_interact_request(action: &str, request: &JsonValue) -> (r: Result<(), ServiceRequestIssue>)
    ensures
        match r {
            Ok(()) => desktop_interact_refusal(action@, *request) is None,
            Err(e) => !e.denied_by_access() && e.spec_kind() == ServiceRequestIssueKind::InvalidBoundedRecipe
                && desktop_interact_refusal(action@, *request) == Some(e.message_view()),
        },
{
    if !str_equal(action, "desktop_interact") {
        return Ok(());
    }
    let top: [&str; 10] = [
        "action",
        "browserId",
        "sessionName",
        "controllerLeaseId",
        "operationId",
        "recipe",
        "serviceName",
        "agentName",
        "taskName",
        "jobTimeoutMs",
    ];
    assert(texts_of(top@) =~= interact_top_fields());
    if let Some(field) = find_unlisted_key(request, &top) {
        let m = concat2("desktop_interact does not accept ", field.as_str());
        return Err(bounded(m.as_str()));
    }
    let required: [&str; 6] = ["browserId", "controllerLeaseId", "operationId", "serviceName", "agentName", "taskName"];
    assert(texts_of(required@) =~= interact_required_fields());
    if let Some(field) = find_missing(request, &required) {
        let m = concat2("desktop_interact requires ", field.as_str());
        return Err(bounded(m.as_str()));
    }
    if let Some(s) = request.get("sessionName") {
        if !is_nonblank_string(s) {
            return Err(bounded("desktop_interact sessionName must be a nonempty string"));
        }
    }
    let recipe = match request.get("recipe") {
        Some(r) => match r {
            JsonValue::Object(_) => r,
            _ => return Err(bounded("desktop_interact requires recipe")),
        },
        None => return Err(bounded("desktop_interact requires recipe")),
    };
    let recipe_keys: [&str; 1] = ["recipeId"];
    assert(texts_of(recipe_keys@) =~= seq!["recipeId"@]);
    if let Some(field) = find_unlisted_key(recipe, &recipe_keys) {
        let m = concat2("desktop_interact recipe does not accept ", field.as_str());
        return Err(bounded(m.as_str()));
    }
    let supported = match recipe.field_str("recipeId") {
        Some(id) => str_equal(id, "p110-pointer-keyboard-v1") || str_equal(id, "p110-foundation-stress-v1")
            || str_equal(id, "p131-controlled-x11-v1"),
        None => false,
    };
    if !supported {
        return Err(bounded("desktop_interact requires a supported recipeId"));
    }
    Ok(())
}

/// The top-level fields a desktop prompt observation accepts.
pub open spec fn prompt_top_fields() -> Seq<Seq<char>> {
    seq![
        "action"@,
        "browserId"@,
        "sessionName"@,
        "promptProfileId"@,
        "includeVisualization"@,
        "serviceName"@,
        "agentName"@,
        "taskName"@,
        "jobTimeoutMs"@,
    ]
}

/// The fields a desktop prompt observation requires as nonblank strings.
pub open spec fn prompt_required_fields() -> Seq<Seq<char>> {
    seq!["browserId"@, "serviceName"@, "agentName"@, "taskName"@]
}

/// Why a `desktop_prompt_observe` request is refused, if it is: it accepts
/// only its own top-level fields, is attributed, names the one supported
/// prompt profile, and asks for visualization with a boolean.
pub open spec fn desktop_prompt_refusal(action: Seq<char>, request: JsonValue) -> Option<Seq<char>> {
    if action != "desktop_prompt_observe"@ {
        None
    } else if unlisted_key(request, prompt_top_fields()) is Some {
        Some("desktop_prompt_observe does not accept "@ + unlisted_key(request, prompt_top_fields())->0)
    } else if first_missing(request, prompt_required_fields()) is Some {
        Some("desktop_prompt_observe requires "@ + first_missing(request, prompt_required_fields())->0)
    } else if json_get(request, "sessionName"@) matches Some(s) && !nonblank_string(s) {
        Some("desktop_prompt_observe sessionName must be a nonempty string"@)
    } else if field_str(request, "promptProfileId"@) != Some("p110-external-prompt-v1"@) {
        Some("desktop_prompt_observe requires promptProfileId p110-external-prompt-v1"@)
    } else if json_get(request, "includeVisualization"@) matches Some(v) && !(v is Bool) {
        Some("desktop_prompt_observe includeVisualization must be a boolean"@)
    } else {
        None
    }
}

/// Refuses a `desktop_prompt_observe` request that is not an attributed
/// observation of the supported prompt profile.
#[verifier::rlimit(40)]
pub fn reject_desktop_prompt_observe_request(action: &str, request: &JsonValue) -> (r: Result<(), ServiceRequestIssue>)
    ensures
        match r {
            Ok(()) => desktop_prompt_refusal(action@, *request) is None,
            Err(e) => !e.denied_by_access() && e.spec_kind() == ServiceRequestIssueKind::InvalidBoundedRecipe
                && desktop_prompt_refusal(action@, *request) == Some(e.message_view()),
        },
{
    if !str_equal(action, "desktop_prompt_observe") {
        return Ok(());
    }
    let top: [&str; 9] = [
        "action",
        "browserId",
        "sessionName",
        "promptProfileId",
        "includeVisualization",
        "serviceName",
        "agentName",
        "taskName",
        "jobTimeoutMs",
    ];
    assert(texts_of(top@) =~= prompt_top_fields());
    if let Some(field) = find_unlisted_key(request, &top) {
        let m = concat2("desktop_prompt_observe does not accept ", field.as_str());
        return Err(bounded(m.as_str()));
    }
    let required: [&str; 4] = ["browserId", "serviceName", "agentName", "taskName"];
    assert(texts_of(required@) =~= prompt_required_fields());
    if let Some(field) = find_missing(request, &required) {
        let m = concat2("desktop_prompt_observe requires ", field.as_str());
        return Err(bounded(m.as_str()));
    }
    if let Some(s) = request.get("sessionName") {
        if !is_nonblank_string(s) {
            return Err(bounded("desktop_prompt_observe sessionName must be a nonempty string"));
        }
    }
    let profile_ok = match request.field_str("promptProfileId") {
        Some(id) => str_equal(id, "p110-external-prompt-v1"),
        None => false,
    };
    if !profile_ok {
        return Err(bounded("desktop_prompt_observe requires promptProfileId p110-external-prompt-v1"));
    }
    if let Some(v) = request.get("includeVisualization") {
        if !matches!(v, JsonValue::Bool(_)) {
            return Err(bounded("desktop_prompt_observe includeVisualization must be a boolean"));
        }
    }
    Ok(())
}

/// The top-level fields a desktop evidence observation accepts.
pub open spec fn evidence_top_fields() -> Seq<Seq<char>> {
    seq![
        "action"@,
        "browserId"@,
        "sessionName"@,
        "episodeId"@,
        "evidenceSurface"@,
        "includeFrame"@,
        "serviceTabHandle"@,
        "uiAction"@,
        "serviceName"@,
        "agentName"@,
        "taskName"@,
        "jobTimeoutMs"@,
    ]
}

/// The fields a desktop evidence observation requires as nonblank strings.
pub open spec fn evidence_required_fields() -> Seq<Seq<char>> {
    seq!["browserId"@, "episodeId"@, "serviceName"@, "agentName"@, "taskName"@]
}

/// Whether a step is one selector-based click.
pub open spec fn selector_click(step: JsonValue) -> bool {
    &&& step is Object
    &&& unlisted_key(step, seq!["type"@, "selector"@]) is None
    &&& field_str(step, "type"@) == Some("click"@)
    &&& field_str(step, "selector"@) matches Some(sel) && trim(sel).len() > 0
}

/// Whether a UI action is exactly one selector-based click.
pub open spec fn single_click_trigger(ui_action: Option<JsonValue>) -> bool {
    &&& ui_action matches Some(a)
    &&& a is Object
    &&& unlisted_key(a, seq!["steps"@, "maxActions"@]) is None
    &&& (json_get(a, "maxActions"@) matches Some(m) ==> json_u64(m) == Some(1u64))
    &&& json_get(a, "steps"@) matches Some(JsonValue::Array(steps))
    &&& steps@.len() == 1
    &&& selector_click(steps@[0])
}

/// Why a `desktop_evidence_observe` request is refused, if it is: it
/// accepts only its own fields and is attributed; a stacking observation
/// takes no tab handle or UI action, a passkey-chooser observation needs a
/// tab handle and exactly one selector-based click; any other surface is
/// refused; a frame is asked for with a boolean.
pub open spec fn desktop_evidence_refusal(action: Seq<char>, request: JsonValue) -> Option<Seq<char>> {
    let surface = field_str(request, "evidenceSurface"@);
    if action != "desktop_evidence_observe"@ {
        None
    } else if unlisted_key(request, evidence_top_fields()) is Some {
        Some("desktop_evidence_observe does not accept "@ + unlisted_key(request, evidence_top_fields())->0)
    } else if first_missing(request, evidence_required_fields()) is Some {
        Some("desktop_evidence_observe requires "@ + first_missing(request, evidence_required_fields())->0)
    } else if json_get(request, "sessionName"@) matches Some(s) && !nonblank_string(s) {
        Some("desktop_evidence_observe sessionName must be a nonempty string"@)
    } else if surface == Some("stacking_or_occlusion"@) && (json_get(request, "serviceTabHandle"@) is Some || json_get(
        request,
        "uiAction"@,
    ) is Some) {
        Some("desktop_evidence_observe stacking_or_occlusion does not accept serviceTabHandle or uiAction"@)
    } else if surface == Some("passkey_chooser"@) && !(json_get(request, "serviceTabHandle"@) matches Some(h)
        && h is Object) {
        Some("desktop_evidence_observe passkey_chooser requires serviceTabHandle"@)
    } else if surface == Some("passkey_chooser"@) && !single_click_trigger(json_get(request, "uiAction"@)) {
        Some("desktop_evidence_observe passkey_chooser requires exactly one selector-based uiAction click"@)
    } else if surface != Some("stacking_or_occlusion"@) && surface != Some("passkey_chooser"@) {
        Some("desktop_evidence_observe evidenceSurface must be stacking_or_occlusion or passkey_chooser"@)
    } else if json_get(request, "includeFrame"@) matches Some(v) && !(v is Bool) {
        Some("desktop_evidence_observe includeFrame must be a boolean"@)
    } else {
        None
    }
}

/// Whether a step is one selector-based click.
fn is_selector_click(step: &JsonValue) -> (r: bool)
    ensures
        r == selector_click(*step),
{
    if !matches!(step, JsonValue::Object(_)) {
        return false;
    }
    let keys: [&str; 2] = ["type", "selector"];
    assert(texts_of(keys@) =~= seq!["type"@, "selector"@]);
    if find_unlisted_key(step, &keys).is_some() {
        return false;
    }
    let click = match step.field_str("type") {
        Some(t) => str_equal(t, "click"),
        None => false,
    };
    if !click {
        return false;
    }
    match step.field_str("selector") {
        Some(sel) => !is_blank(sel),
        None => false,
    }
}

/// Whether a UI action is exactly one selector-based click.
fn is_single_click_trigger(ui_action: Option<&JsonValue>) -> (r: bool)
    ensures
        r == single_click_trigger(
            match ui_action {
                Some(a) => Some(*a),
                None => None,
            },
        ),
{
    let a = match ui_action {
        Some(a) => a,
        None => return false,
    };
    if !matches!(a, JsonValue::Object(_)) {
        return false;
    }
    let keys: [&str; 2] = ["steps", "maxActions"];
    assert(texts_of(keys@) =~= seq!["steps"@, "maxActions"@]);
    if find_unlisted_key(a, &keys).is_some() {
        return false;
    }
    if let Some(m) = a.get("maxActions") {
        if m.as_u64() != Some(1u64) {
            return false;
        }
    }
    match a.get("steps") {
        Some(JsonValue::Array(steps)) => steps.len() == 1 && is_selector_click(&steps[0]),
        _ => false,
    }
}

/// Refuses a `desktop_evidence_observe` request that is not an attributed,
/// named evidence need.
#[verifier::rlimit(60)]
pub fn reject_desktop_evidence_observe_request(action: &str, request: &JsonValue) -> (r: Result<
    (),
    ServiceRequestIssue,
>)
    ensures
        match r {
            Ok(()) => desktop_evidence_refusal(action@, *request) is None,
            Err(e) => !e.denied_by_access() && e.spec_kind() == ServiceRequestIssueKind::InvalidBoundedRecipe
                && desktop_evidence_refusal(action@, *request) == Some(e.message_view()),
        },
{
    if !str_equal(action, "desktop_evidence_observe") {
        return Ok(());
    }
    let top: [&str; 12] = [
        "action",
        "browserId",
        "sessionName",
        "episodeId",
        "evidenceSurface",
        "includeFrame",
        "serviceTabHandle",
        "uiAction",
        "serviceName",
        "agentName",
        "taskName",
        "jobTimeoutMs",
    ];
    assert(texts_of(top@) =~= evidence_top_fields());
    if let Some(field) = find_unlisted_key(request, &top) {
        let m = concat2("desktop_evidence_observe does not accept ", field.as_str());
        return Err(bounded(m.as_str()));
    }
    let required: [&str; 5] = ["browserId", "episodeId", "serviceName", "agentName", "taskName"];
    assert(texts_of(required@) =~= evidence_required_fields());
    if let Some(field) = find_missing(request, &required) {
        let m = concat2("desktop_evidence_observe requires ", field.as_str());
        return Err(bounded(m.as_str()));
    }
    if let Some(s) = request.get("sessionName") {
        if !is_nonblank_string(s) {
            return Err(bounded("desktop_evidence_observe sessionName must be a nonempty string"));
        }
    }
    let surface = request.field_str("evidenceSurface");
    let stacking = match surface {
        Some(s) => str_equal(s, "stacking_or_occlusion"),
        None => false,
    };
    let passkey = match surface {
        Some(s) => str_equal(s, "passkey_chooser"),
        None => false,
    };
    let ghost sv = field_str(*request, "evidenceSurface"@);
    assert(stacking == (sv == Some("stacking_or_occlusion"@)));
    assert(passkey == (sv == Some("passkey_chooser"@)));
    proof {
        reveal_strlit("stacking_or_occlusion");
        reveal_strlit("passkey_chooser");
        assert("stacking_or_occlusion"@.len() != "passkey_chooser"@.len());
    }
    if stacking {
        if request.get("serviceTabHandle").is_some() || request.get("uiAction").is_some() {
            return Err(
                bounded("desktop_evidence_observe stacking_or_occlusion does not accept serviceTabHandle or uiAction"),
            );
        }
    } else if passkey {
        let has_handle = match request.get("serviceTabHandle") {
            Some(h) => matches!(h, JsonValue::Object(_)),
            None => false,
        };
        if !has_handle {
            return Err(bounded("desktop_evidence_observe passkey_chooser requires serviceTabHandle"));
        }
        if !is_single_click_trigger(request.get("uiAction")) {
            return Err(
                bounded(
                    "desktop_evidence_observe passkey_chooser requires exactly one selector-based uiAction click",
                ),
            );
        }
    } else {
        return Err(
            bounded("desktop_evidence_observe evidenceSurface must be stacking_or_occlusion or passkey_chooser"),
        );
    }
    if let Some(v) = request.get("includeFrame") {
        if !matches!(v, JsonValue::Bool(_)) {
            return Err(bounded("desktop_evidence_observe includeFrame must be a boolean"));
        }
    }
    Ok(())
}

} // verus!
