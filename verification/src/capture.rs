//! Bounded network capture: the limits a capture request runs under, the
//! recipe it must follow, and the headers it may disclose.

use vstd::prelude::*;
use crate::json::{copy_value, field_bool, field_str, field_u64, json_get, json_same, json_str, members_same, JsonMember, JsonValue};
use crate::model::ov;
use crate::text::{is_blank, owned, str_equal, strs, trim};

verus! {

/// Whether a value is a nonempty array of nonempty strings.
pub open spec fn nonempty_string_array(v: JsonValue) -> bool {
    &&& v matches JsonValue::Array(items)
    &&& items@.len() > 0
    &&& forall|i: int| 0 <= i < items@.len() ==> (json_str(#[trigger] items@[i]) matches Some(s) && s.len() > 0)
}

/// Why a capture recipe is refused, if it is: every list filter present
/// must be a nonempty array of nonempty strings (a status filter may be one
/// nonblank string), and a trigger must be an object of type `reload`.
pub open spec fn recipe_refusal(capture: JsonValue) -> Option<Seq<char>> {
    if json_get(capture, "urlPatterns"@) matches Some(v) && !nonempty_string_array(v) {
        Some("network_capture urlPatterns must be a nonempty string array"@)
    } else if json_get(capture, "methods"@) matches Some(v) && !nonempty_string_array(v) {
        Some("network_capture methods must be a nonempty string array"@)
    } else if json_get(capture, "resourceTypes"@) matches Some(v) && !nonempty_string_array(v) {
        Some("network_capture resourceTypes must be a nonempty string array"@)
    } else if json_get(capture, "status"@) matches Some(v) && !(nonempty_string_array(v) || (json_str(
        v,
    ) matches Some(s) && trim(s).len() > 0)) {
        Some("network_capture status must be a string or string array"@)
    } else {
        match json_get(capture, "trigger"@) {
            Some(t) => if !(t is Object) {
                Some("network_capture trigger must be an object"@)
            } else {
                match field_str(t, "type"@) {
                    None => Some("network_capture trigger requires type"@),
                    Some(kind) => if kind != "reload"@ {
                        Some("network_capture trigger.type must be reload"@)
                    } else {
                        None
                    },
                }
            },
            None => None,
        }
    }
}

/// Whether a value is a nonempty array of nonempty strings.
fn is_nonempty_string_array(v: &JsonValue) -> (r: bool)
    ensures
        r == nonempty_string_array(*v),
{
    match v {
        JsonValue::Array(items) => {
            if items.len() == 0 {
                return false;
            }
            let mut i: usize = 0;
            while i < items.len()
                invariant
                    i <= items@.len(),
                    *v == JsonValue::Array(*items),
                    forall|j: int| 0 <= j < i ==> (json_str(#[trigger] items@[j]) matches Some(s) && s.len() > 0),
                decreases items@.len() - i,
            {
                match items[i].as_str() {
                    Some(s) => if s.is_empty() {
                        assert(!(json_str(items@[i as int]) matches Some(t) && t.len() > 0));
                        return false;
                    },
                    None => {
                        assert(!(json_str(items@[i as int]) matches Some(t) && t.len() > 0));
                        return false;
                    },
                }
                i = i + 1;
            }
            true
        },
        _ => false,
    }
}

/// Checks that a capture recipe's filters and trigger are well formed.
pub fn validate_service_network_capture_recipe(capture: &JsonValue) -> (r: Result<(), String>)
    ensures
        match r {
            Ok(()) => recipe_refusal(*capture) is None,
            Err(e) => recipe_refusal(*capture) == Some(e@),
        },
{
    if let Some(v) = capture.get("urlPatterns") {
        if !is_nonempty_string_array(v) {
            return Err(owned("network_capture urlPatterns must be a nonempty string array"));
        }
    }
    if let Some(v) = capture.get("methods") {
        if !is_nonempty_string_array(v) {
            return Err(owned("network_capture methods must be a nonempty string array"));
        }
    }
    if let Some(v) = capture.get("resourceTypes") {
        if !is_nonempty_string_array(v) {
            return Err(owned("network_capture resourceTypes must be a nonempty string array"));
        }
    }
    if let Some(v) = capture.get("status") {
        let single = match v.as_str() {
            Some(s) => !is_blank(s),
            None => false,
        };
        if !is_nonempty_string_array(v) && !single {
            return Err(owned("network_capture status must be a string or string array"));
        }
    }
    if let Some(t) = capture.get("trigger") {
        if !matches!(t, JsonValue::Object(_)) {
            return Err(owned("network_capture trigger must be an object"));
        }
        match t.field_str("type") {
            None => return Err(owned("network_capture trigger requires type")),
            Some(kind) => if !str_equal(kind, "reload") {
                return Err(owned("network_capture trigger.type must be reload"));
            },
        }
    }
    Ok(())
}

/// The most events one capture returns.
pub const MAX_CAPTURE_EVENTS: u64 = 100;

/// The most body bytes one capture returns per response.
pub const MAX_CAPTURE_BODY_BYTES: u64 = 1048576;

/// The limits a network capture runs under.
pub struct CaptureLimits {
    pub timeout_ms: u64,
    pub max_events: u64,
    pub capture_bodies: bool,
    /// Zero unless bodies are captured.
    pub max_body_bytes: u64,
}

/// The first present number.
pub open spec fn first_u64(a: Option<u64>, b: Option<u64>) -> Option<u64> {
    match a {
        Some(x) => Some(x),
        None => b,
    }
}

/// The limits a capture request asks for, or why it is refused: a positive
/// timeout from the command, else the recipe's timeout or maximum duration;
/// the recipe's event count, twenty by default, clamped to one through a
/// hundred; and, when bodies are captured, a positive body size from the
/// recipe, else the command, capped at one mebibyte. A well-formed recipe
/// is required last.
pub open spec fn capture_limits_spec(command: JsonValue, capture: JsonValue) -> Result<CaptureLimits, Seq<char>> {
    let timeout = first_u64(
        field_u64(command, "timeoutMs"@),
        first_u64(field_u64(capture, "timeoutMs"@), field_u64(capture, "maxDurationMs"@)),
    );
    let events = match field_u64(capture, "maxEvents"@) {
        Some(n) => if n < 1 { 1 } else if n > MAX_CAPTURE_EVENTS { MAX_CAPTURE_EVENTS } else { n },
        None => 20,
    };
    let bodies = field_bool(capture, "captureBodies"@) == Some(true);
    let body = first_u64(field_u64(capture, "maxBodyBytes"@), field_u64(command, "maxBodyBytes"@));
    if timeout is None || timeout == Some(0u64) {
        Err("network_capture requires positive timeoutMs"@)
    } else if bodies && (body is None || body == Some(0u64)) {
        Err("network_capture captureBodies requires positive maxBodyBytes"@)
    } else if recipe_refusal(capture) is Some {
        Err(recipe_refusal(capture)->0)
    } else {
        Ok(
            CaptureLimits {
                timeout_ms: timeout->0,
                max_events: events,
                capture_bodies: bodies,
                max_body_bytes: if bodies {
                    if body->0 > MAX_CAPTURE_BODY_BYTES { MAX_CAPTURE_BODY_BYTES } else { body->0 }
                } else {
                    0
                },
            },
        )
    }
}

/// The limits a capture request runs under, or why it is refused.
pub fn network_capture_limits(command: &JsonValue, capture: &JsonValue) -> (r: Result<CaptureLimits, String>)
    ensures
        match r {
            Ok(l) => capture_limits_spec(*command, *capture) == Ok::<CaptureLimits, Seq<char>>(l),
            Err(e) => capture_limits_spec(*command, *capture) == Err::<CaptureLimits, Seq<char>>(e@),
        },
{
    let timeout = match command.field_u64("timeoutMs") {
        Some(t) => Some(t),
        None => match capture.field_u64("timeoutMs") {
            Some(t) => Some(t),
            None => capture.field_u64("maxDurationMs"),
        },
    };
    let timeout_ms = match timeout {
        Some(t) => if t == 0 {
            return Err(owned("network_capture requires positive timeoutMs"));
        } else {
            t
        },
        None => return Err(owned("network_capture requires positive timeoutMs")),
    };
    let max_events = match capture.field_u64("maxEvents") {
        Some(n) => if n < 1 { 1 } else if n > MAX_CAPTURE_EVENTS { MAX_CAPTURE_EVENTS } else { n },
        None => 20,
    };
    let capture_bodies = match capture.field_bool("captureBodies") {
        Some(b) => b,
        None => false,
    };
    let max_body_bytes = if capture_bodies {
        let body = match capture.field_u64("maxBodyBytes") {
            Some(b) => Some(b),
            None => command.field_u64("maxBodyBytes"),
        };
        match body {
            Some(b) => if b == 0 {
                return Err(owned("network_capture captureBodies requires positive maxBodyBytes"));
            } else if b > MAX_CAPTURE_BODY_BYTES {
                MAX_CAPTURE_BODY_BYTES
            } else {
                b
            },
            None => return Err(owned("network_capture captureBodies requires positive maxBodyBytes")),
        }
    } else {
        0
    };
    match validate_service_network_capture_recipe(capture) {
        Ok(()) => {},
        Err(e) => return Err(e),
    }
    Ok(CaptureLimits { timeout_ms, max_events, capture_bodies, max_body_bytes })
}

/// The ASCII lowercase of a character.
pub open spec fn ascii_lower(c: char) -> char {
    if 'A' <= c <= 'Z' {
        ((c as u32) + 32) as char
    } else {
        c
    }
}

/// The ASCII lowercase of a text.
pub open spec fn ascii_lowercase(s: Seq<char>) -> Seq<char> {
    s.map_values(|c: char| ascii_lower(c))
}

/// The ASCII lowercase of a text.
pub fn to_ascii_lowercase(s: &str) -> (r: String)
    ensures
        r@ == ascii_lowercase(s@),
{
    let chars = crate::text::chars_of(s);
    let mut out = String::new();
    let mut i: usize = 0;
    while i < chars.len()
        invariant
            i <= chars@.len(),
            chars@ == s@,
            out@ == ascii_lowercase(s@.take(i as int)),
        decreases chars@.len() - i,
    {
        let c = chars[i];
        let lower = if 'A' <= c && c <= 'Z' {
            let code = c as u8;
            (code + 32) as char
        } else {
            c
        };
        assert(lower == ascii_lower(c)) by {
            if 'A' <= c && c <= 'Z' {
                assert((c as u8) as u32 == c as u32);
            }
        };
        crate::text::push_char(&mut out, lower);
        assert(ascii_lowercase(s@.take(i + 1)) =~= ascii_lowercase(s@.take(i as int)).push(lower));
        i = i + 1;
    }
    assert(s@.take(s@.len() as int) =~= s@);
    out
}

/// The header names a recipe allows to be disclosed, in ASCII lowercase:
/// the string items of its `allowedHeaderNames` array, in order.
pub open spec fn allowed_names_spec(capture: JsonValue) -> Seq<Seq<char>> {
    match json_get(capture, "allowedHeaderNames"@) {
        Some(JsonValue::Array(items)) => items@.filter(|v: JsonValue| v is Str).map_values(
            |v: JsonValue| ascii_lowercase(json_str(v)->0),
        ),
        _ => Seq::empty(),
    }
}

/// The header names a recipe allows to be disclosed, in ASCII lowercase.
pub fn service_network_allowed_header_names(capture: &JsonValue) -> (r: Vec<String>)
    ensures
        strs(r@) == allowed_names_spec(*capture),
{
    let mut out: Vec<String> = Vec::new();
    match capture.get("allowedHeaderNames") {
        Some(JsonValue::Array(items)) => {
            let ghost pred = |v: JsonValue| v is Str;
            let ghost f = |v: JsonValue| ascii_lowercase(json_str(v)->0);
            let mut i: usize = 0;
            while i < items.len()
                invariant
                    i <= items@.len(),
                    pred == (|v: JsonValue| v is Str),
                    f == (|v: JsonValue| ascii_lowercase(json_str(v)->0)),
                    strs(out@) == items@.take(i as int).filter(pred).map_values(f),
                decreases items@.len() - i,
            {
                proof {
                    crate::seqs::lemma_filter_take_step(items@, pred, i as int);
                }
                if let Some(name) = items[i].as_str() {
                    let lower = to_ascii_lowercase(name);
                    proof {
                        crate::lease::lemma_strs_push(out@, lower);
                    }
                    out.push(lower);
                }
                assert(items@.take(i + 1).filter(pred).map_values(f) =~= strs(out@));
                i = i + 1;
            }
            assert(items@.take(items@.len() as int) =~= items@);
            out
        },
        _ => {
            assert(strs(out@) =~= Seq::<Seq<char>>::empty());
            out
        },
    }
}


/// The header members a capture may disclose, in order: those whose
/// ASCII-lowercase name is allowed; none when the headers are not an object
/// or nothing is allowed.
pub open spec fn disclosed_members(headers: Option<JsonValue>, allowed: Seq<Seq<char>>) -> Seq<JsonMember> {
    match headers {
        Some(JsonValue::Object(members)) => if allowed.len() == 0 {
            Seq::empty()
        } else {
            members@.filter(|m: JsonMember| allowed.contains(ascii_lowercase(m.key@)))
        },
        _ => Seq::empty(),
    }
}

/// Whether a value is an object holding exactly the disclosed header members.
pub open spec fn headers_disclosed(v: JsonValue, headers: Option<JsonValue>, allowed: Seq<Seq<char>>) -> bool {
    v matches JsonValue::Object(m) && members_same(m@, disclosed_members(headers, allowed))
}

/// The header members a capture may disclose, as an object.
pub fn filter_headers(headers: Option<&JsonValue>, allowed: &Vec<String>) -> (r: JsonValue)
    ensures
        headers_disclosed(
            r,
            match headers {
                Some(h) => Some(*h),
                None => None,
            },
            strs(allowed@),
        ),
{
    let mut out: Vec<JsonMember> = Vec::new();
    let members = match headers {
        Some(JsonValue::Object(members)) => members,
        _ => {
            return JsonValue::Object(out);
        },
    };
    if allowed.len() == 0 {
        return JsonValue::Object(out);
    }
    let ghost names = strs(allowed@);
    let ghost pred = |m: JsonMember| names.contains(ascii_lowercase(m.key@));
    let mut i: usize = 0;
    while i < members.len()
        invariant
            i <= members@.len(),
            names == strs(allowed@),
            pred == (|m: JsonMember| names.contains(ascii_lowercase(m.key@))),
            members_same(out@, members@.take(i as int).filter(pred)),
        decreases members@.len() - i,
    {
        proof {
            crate::seqs::lemma_filter_take_step(members@, pred, i as int);
        }
        let lower = to_ascii_lowercase(members[i].key.as_str());
        let ghost before = out@;
        if crate::lease::contains_text(allowed, lower.as_str()) {
            let m = JsonMember { key: members[i].key.clone(), value: copy_value(&members[i].value) };
            out.push(m);
            assert(out@.drop_last() =~= before);
            assert(members@.take(i + 1).filter(pred).drop_last() =~= members@.take(i as int).filter(pred));
        } else {
            assert(members@.take(i + 1).filter(pred) =~= members@.take(i as int).filter(pred));
        }
        i = i + 1;
    }
    assert(members@.take(members@.len() as int) =~= members@);
    JsonValue::Object(out)
}

/// An optional value, or null.
pub open spec fn or_null(v: Option<JsonValue>) -> JsonValue {
    match v {
        Some(x) => x,
        None => JsonValue::Null,
    }
}

/// A copy of an optional value, or null.
pub(crate) fn copy_or_null(v: Option<&JsonValue>) -> (r: JsonValue)
    ensures
        json_same(
            r,
            or_null(
                match v {
                    Some(x) => Some(*x),
                    None => None,
                },
            ),
        ),
{
    match v {
        Some(x) => copy_value(x),
        None => JsonValue::Null,
    }
}

/// A member with key `key` and the same JSON as `value`.
pub open spec fn member_is(m: JsonMember, key: Seq<char>, value: JsonValue) -> bool {
    m.key@ == key && json_same(m.value, value)
}

/// The body placeholder of an event whose body was not read: whether it was
/// captured, and the body limit when there is one.
pub open spec fn body_placeholder(v: JsonValue, captured: bool, max_body_bytes: u64) -> bool {
    &&& v matches JsonValue::Object(m)
    &&& m@.len() == 2
    &&& m@[0].key@ == "captured"@
    &&& m@[0].value == JsonValue::Bool(captured)
    &&& m@[1].key@ == "maxBodyBytes"@
    &&& m@[1].value == if max_body_bytes > 0 {
        JsonValue::UInt(max_body_bytes)
    } else {
        JsonValue::Null
    }
}

/// Whether a capture recipe asks for the headers under `flag`.
pub open spec fn includes(capture: JsonValue, flag: Seq<char>) -> bool {
    field_bool(capture, flag) == Some(true)
}

/// The members of a captured network event, in order: the request id, the
/// response's (else the request's) URL, the request's method and resource
/// type, the response's status, status text, MIME type and encoded length
/// (each null when absent), that headers are redacted, the body or its
/// placeholder, then the disclosed request and response headers when the
/// recipe asks for them.
pub open spec fn capture_event_members(
    m: Seq<JsonMember>,
    capture: JsonValue,
    request_id: Seq<char>,
    metadata: JsonValue,
    response: JsonValue,
    body_captured: bool,
    body: Option<JsonValue>,
    max_body_bytes: u64,
) -> bool {
    let req = includes(capture, "includeRequestHeaders"@);
    let resp = includes(capture, "includeResponseHeaders"@);
    let allowed = allowed_names_spec(capture);
    &&& m.len() == 10 + (if req { 1int } else { 0int }) + (if resp { 1int } else { 0int })
    &&& m[0].key@ == "requestId"@ && json_str(m[0].value) == Some(request_id)
    &&& member_is(
        m[1],
        "url"@,
        or_null(crate::request::first_value(json_get(response, "url"@), json_get(metadata, "url"@))),
    )
    &&& member_is(m[2], "method"@, or_null(json_get(metadata, "method"@)))
    &&& member_is(m[3], "resourceType"@, or_null(json_get(metadata, "resourceType"@)))
    &&& member_is(m[4], "status"@, or_null(json_get(response, "status"@)))
    &&& member_is(m[5], "statusText"@, or_null(json_get(response, "statusText"@)))
    &&& member_is(m[6], "mimeType"@, or_null(json_get(response, "mimeType"@)))
    &&& member_is(m[7], "encodedDataLength"@, or_null(json_get(response, "encodedDataLength"@)))
    &&& m[8].key@ == "headersRedacted"@ && m[8].value == JsonValue::Bool(true)
    &&& m[9].key@ == "body"@ && match body {
        Some(b) => m[9].value == b,
        None => body_placeholder(m[9].value, body_captured, max_body_bytes),
    }
    &&& req ==> m[10].key@ == "requestHeaders"@ && headers_disclosed(
        m[10].value,
        json_get(metadata, "requestHeaders"@),
        allowed,
    )
    &&& resp ==> m[if req {
        11int
    } else {
        10int
    }].key@ == "responseHeaders"@ && headers_disclosed(
        m[if req {
            11int
        } else {
            10int
        }].value,
        json_get(response, "headers"@),
        allowed,
    )
}

/// A member with a fixed key.
pub(crate) fn member(key: &str, value: JsonValue) -> (r: JsonMember)
    ensures
        r.key@ == key@,
        r.value == value,
{
    JsonMember { key: owned(key), value }
}

/// The record of one captured network event: redacted by default, with only
/// the allowed headers disclosed when the recipe asks for them.
pub fn service_network_capture_event(
    capture: &JsonValue,
    request_id: &str,
    metadata: &JsonValue,
    response: &JsonValue,
    body_captured: bool,
    body: Option<JsonValue>,
    max_body_bytes: u64,
) -> (r: JsonValue)
    ensures
        r matches JsonValue::Object(m) && capture_event_members(
            m@,
            *capture,
            request_id@,
            *metadata,
            *response,
            body_captured,
            body,
            max_body_bytes,
        ),
{
    let allowed = service_network_allowed_header_names(capture);
    let include_request_headers = capture.field_bool("includeRequestHeaders") == Some(true);
    let include_response_headers = capture.field_bool("includeResponseHeaders") == Some(true);
    let url = match response.get("url") {
        Some(u) => Some(u),
        None => metadata.get("url"),
    };
    let body_value = match body {
        Some(b) => b,
        None => JsonValue::Object(
            vec![
                member("captured", JsonValue::Bool(body_captured)),
                member(
                    "maxBodyBytes",
                    if max_body_bytes > 0 {
                        JsonValue::UInt(max_body_bytes)
                    } else {
                        JsonValue::Null
                    },
                ),
            ],
        ),
    };
    let mut m: Vec<JsonMember> = vec![
        member("requestId", JsonValue::Str(owned(request_id))),
        member("url", copy_or_null(url)),
        member("method", copy_or_null(metadata.get("method"))),
        member("resourceType", copy_or_null(metadata.get("resourceType"))),
        member("status", copy_or_null(response.get("status"))),
        member("statusText", copy_or_null(response.get("statusText"))),
        member("mimeType", copy_or_null(response.get("mimeType"))),
        member("encodedDataLength", copy_or_null(response.get("encodedDataLength"))),
        member("headersRedacted", JsonValue::Bool(true)),
        member("body", body_value),
    ];
    if include_request_headers {
        m.push(member("requestHeaders", filter_headers(metadata.get("requestHeaders"), &allowed)));
    }
    if include_response_headers {
        m.push(member("responseHeaders", filter_headers(response.get("headers"), &allowed)));
    }
    JsonValue::Object(m)
}

} // verus!
