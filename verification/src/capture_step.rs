//! The decisions of a running network capture: which responses a recipe
//! matches, and how each browser network event moves the capture along
//! without ever holding more events than the recipe allows.

use vstd::prelude::*;
use crate::capture::{
    ascii_lowercase, capture_event_members, copy_or_null, member, or_null, service_network_capture_event,
    to_ascii_lowercase, CaptureLimits,
};
use crate::json::{copy_value, field_i64, field_str, json_get, json_same, json_str, set_member, JsonMember, JsonValue};
use crate::model::ov;
use crate::text::{chars_of, owned, str_equal};

verus! {

/// Whether `p` occurs in `s`.
pub open spec fn contains_seq(s: Seq<char>, p: Seq<char>) -> bool {
    exists|i: int| 0 <= i && i + p.len() <= s.len() && #[trigger] s.subrange(i, i + p.len()) == p
}

/// Whether `p` occurs in `s`.
pub fn text_contains(s: &str, p: &str) -> (r: bool)
    ensures
        r == contains_seq(s@, p@),
{
    let sv = chars_of(s);
    let pv = chars_of(p);
    if pv.len() > sv.len() {
        return false;
    }
    let last = sv.len() - pv.len();
    let mut i: usize = 0;
    while i <= last
        invariant
            sv@ == s@,
            pv@ == p@,
            pv@.len() <= sv@.len(),
            last == sv@.len() - pv@.len(),
            i <= last,
            forall|k: int| 0 <= k < i ==> #[trigger] s@.subrange(k, k + p@.len()) != p@,
        decreases last - i,
    {
        let mut j: usize = 0;
        let mut same = true;
        while j < pv.len()
            invariant
                sv@ == s@,
                pv@ == p@,
                i <= last,
                pv@.len() <= sv@.len(),
                last == sv@.len() - pv@.len(),
                j <= pv@.len(),
                same ==> forall|k: int| 0 <= k < j ==> sv@[i + k] == pv@[k],
                !same ==> s@.subrange(i as int, i + p@.len()) != p@,
            decreases pv@.len() - j,
        {
            assert(i + j < sv.len());
            if sv[i + j] != pv[j] {
                assert(s@.subrange(i as int, i + p@.len())[j as int] == sv@[i + j]);
                same = false;
            }
            j = j + 1;
        }
        if same {
            assert(s@.subrange(i as int, i + p@.len()) =~= p@);
            return true;
        }
        if i == last {
            return false;
        }
        i = i + 1;
    }
    false
}

/// Whether two texts are equal once ASCII letters are lowercased.
pub open spec fn same_ignoring_ascii_case(a: Seq<char>, b: Seq<char>) -> bool {
    ascii_lowercase(a) == ascii_lowercase(b)
}

/// Whether two texts are equal once ASCII letters are lowercased.
pub fn eq_ignore_ascii_case(a: &str, b: &str) -> (r: bool)
    ensures
        r == same_ignoring_ascii_case(a@, b@),
{
    let x = to_ascii_lowercase(a);
    let y = to_ascii_lowercase(b);
    str_equal(x.as_str(), y.as_str())
}

/// Whether one of the string items occurs in `url`.
pub open spec fn some_pattern_in(items: Seq<JsonValue>, url: Seq<char>) -> bool {
    exists|i: int| 0 <= i < items.len() && #[trigger] json_str(items[i]) is Some && contains_seq(url, json_str(items[i])->0)
}

/// Whether one of the string items names `name`, ignoring ASCII case.
pub open spec fn some_name_is(items: Seq<JsonValue>, name: Seq<char>) -> bool {
    exists|i: int|
        0 <= i < items.len() && #[trigger] json_str(items[i]) is Some && same_ignoring_ascii_case(name, json_str(items[i])->0)
}

/// Whether one of the string items occurs in `url`.
fn any_pattern_in(items: &Vec<JsonValue>, url: &str) -> (r: bool)
    ensures
        r == some_pattern_in(items@, url@),
{
    let mut i: usize = 0;
    while i < items.len()
        invariant
            i <= items@.len(),
            forall|k: int| 0 <= k < i ==> !(#[trigger] json_str(items@[k]) is Some && contains_seq(url@, json_str(items@[k])->0)),
        decreases items@.len() - i,
    {
        match items[i].as_str() {
            Some(p) => if text_contains(url, p) {
                return true;
            },
            None => {},
        }
        i = i + 1;
    }
    false
}

/// Whether one of the string items names `name`, ignoring ASCII case.
fn any_name_is(items: &Vec<JsonValue>, name: &str) -> (r: bool)
    ensures
        r == some_name_is(items@, name@),
{
    let mut i: usize = 0;
    while i < items.len()
        invariant
            i <= items@.len(),
            forall|k: int|
                0 <= k < i ==> !(#[trigger] json_str(items@[k]) is Some && same_ignoring_ascii_case(name@, json_str(items@[k])->0)),
        decreases items@.len() - i,
    {
        match items[i].as_str() {
            Some(x) => if eq_ignore_ascii_case(name, x) {
                return true;
            },
            None => {},
        }
        i = i + 1;
    }
    false
}

/// A text, or the empty text.
pub open spec fn text_or_empty(o: Option<Seq<char>>) -> Seq<char> {
    match o {
        Some(s) => s,
        None => Seq::empty(),
    }
}

/// The URL a response is matched on: the response's own when it has one
/// (empty when that is not a string), else the request's.
pub open spec fn capture_url(metadata: JsonValue, response: JsonValue) -> Seq<char> {
    text_or_empty(
        match json_get(response, "url"@) {
            Some(v) => json_str(v),
            None => field_str(metadata, "url"@),
        },
    )
}

/// Whether a recipe matches a response: its URL contains one of the URL
/// patterns; its method and resource type each equal, ignoring ASCII case,
/// one of those listed; and, under a status filter, the response has a
/// status, which the filter accepts when it is a text or a list of texts.
/// `status_accepted` is the answer of the status-filter check for the
/// response's status code. A list that is absent does not filter.
pub open spec fn capture_matches_spec(
    capture: JsonValue,
    metadata: JsonValue,
    response: JsonValue,
    status_accepted: bool,
) -> bool {
    let url = capture_url(metadata, response);
    let method = text_or_empty(field_str(metadata, "method"@));
    let resource_type = text_or_empty(field_str(metadata, "resourceType"@));
    &&& (json_get(capture, "urlPatterns"@) matches Some(JsonValue::Array(ps)) ==> some_pattern_in(ps@, url))
    &&& (json_get(capture, "methods"@) matches Some(JsonValue::Array(ms)) ==> some_name_is(ms@, method))
    &&& (json_get(capture, "resourceTypes"@) matches Some(JsonValue::Array(ts)) ==> some_name_is(ts@, resource_type))
    &&& (json_get(capture, "status"@) matches Some(f) ==> field_i64(response, "status"@) is Some && ((f is Str || f is Array)
        ==> status_accepted))
}

/// Law: a response a recipe matches passes each of the recipe's lists. Under
/// a list of resource types, the request's resource type equals one of them
/// once ASCII letters are lowercased; likewise for a list of methods; under
/// a list of URL patterns, the response's URL (else the request's) contains
/// one of them; and under a status filter the response carries a status,
/// which the filter accepted when it is a text or a list.
pub proof fn law_capture_match_passes_every_list(
    capture: JsonValue,
    metadata: JsonValue,
    response: JsonValue,
    status_accepted: bool,
)
    requires
        capture_matches_spec(capture, metadata, response, status_accepted),
    ensures
        json_get(capture, "resourceTypes"@) matches Some(JsonValue::Array(ts)) ==> exists|i: int|
            0 <= i < ts@.len() && #[trigger] json_str(ts@[i]) is Some && ascii_lowercase(json_str(ts@[i])->0) == ascii_lowercase(
                text_or_empty(field_str(metadata, "resourceType"@)),
            ),
        json_get(capture, "methods"@) matches Some(JsonValue::Array(ms)) ==> exists|i: int|
            0 <= i < ms@.len() && #[trigger] json_str(ms@[i]) is Some && ascii_lowercase(json_str(ms@[i])->0) == ascii_lowercase(
                text_or_empty(field_str(metadata, "method"@)),
            ),
        json_get(capture, "urlPatterns"@) matches Some(JsonValue::Array(ps)) ==> exists|i: int|
            0 <= i < ps@.len() && #[trigger] json_str(ps@[i]) is Some && contains_seq(
                capture_url(metadata, response),
                json_str(ps@[i])->0,
            ),
        json_get(capture, "status"@) is Some ==> field_i64(response, "status"@) is Some,
        json_get(capture, "status"@) matches Some(f) && (f is Str || f is Array) ==> status_accepted,
{
}

/// Law: a response that passes every list of a recipe is matched: its
/// request's resource type and method each equal, once lowercased, one item
/// of the list given (when one is given), its URL contains one listed
/// pattern (when patterns are given), and under a status filter it carries
/// a status the filter accepted.
pub proof fn law_capture_match_when_every_list_passes(
    capture: JsonValue,
    metadata: JsonValue,
    response: JsonValue,
    status_accepted: bool,
)
    requires
        json_get(capture, "resourceTypes"@) matches Some(JsonValue::Array(ts)) ==> exists|i: int|
            0 <= i < ts@.len() && #[trigger] json_str(ts@[i]) is Some && ascii_lowercase(json_str(ts@[i])->0)
                == ascii_lowercase(text_or_empty(field_str(metadata, "resourceType"@))),
        json_get(capture, "methods"@) matches Some(JsonValue::Array(ms)) ==> exists|i: int|
            0 <= i < ms@.len() && #[trigger] json_str(ms@[i]) is Some && ascii_lowercase(json_str(ms@[i])->0)
                == ascii_lowercase(text_or_empty(field_str(metadata, "method"@))),
        json_get(capture, "urlPatterns"@) matches Some(JsonValue::Array(ps)) ==> exists|i: int|
            0 <= i < ps@.len() && #[trigger] json_str(ps@[i]) is Some && contains_seq(
                capture_url(metadata, response),
                json_str(ps@[i])->0,
            ),
        json_get(capture, "status"@) is Some ==> field_i64(response, "status"@) is Some,
        json_get(capture, "status"@) matches Some(f) && (f is Str || f is Array) ==> status_accepted,
    ensures
        capture_matches_spec(capture, metadata, response, status_accepted),
{
}

/// Law: a response whose request's resource type, lowercased, differs from
/// every listed resource type is never captured, whatever else matches.
pub proof fn law_unlisted_resource_type_is_not_captured(
    capture: JsonValue,
    metadata: JsonValue,
    response: JsonValue,
    status_accepted: bool,
    ts: Vec<JsonValue>,
)
    requires
        json_get(capture, "resourceTypes"@) == Some(JsonValue::Array(ts)),
        forall|i: int|
            0 <= i < ts@.len() ==> !(#[trigger] json_str(ts@[i]) is Some && ascii_lowercase(json_str(ts@[i])->0) == ascii_lowercase(
                text_or_empty(field_str(metadata, "resourceType"@)),
            )),
    ensures
        !capture_matches_spec(capture, metadata, response, status_accepted),
{
    if capture_matches_spec(capture, metadata, response, status_accepted) {
        law_capture_match_passes_every_list(capture, metadata, response, status_accepted);
    }
}

/// Whether a capture recipe matches a response and the request behind it.
pub fn service_network_capture_matches(
    capture: &JsonValue,
    metadata: &JsonValue,
    response: &JsonValue,
    status_accepted: bool,
) -> (r: bool)
    ensures
        r == capture_matches_spec(*capture, *metadata, *response, status_accepted),
{
    proof {
        reveal_strlit("");
    }
    let url: &str = match response.get("url") {
        Some(v) => match v.as_str() {
            Some(s) => s,
            None => "",
        },
        None => match metadata.field_str("url") {
            Some(s) => s,
            None => "",
        },
    };
    let method: &str = match metadata.field_str("method") {
        Some(s) => s,
        None => "",
    };
    let resource_type: &str = match metadata.field_str("resourceType") {
        Some(s) => s,
        None => "",
    };
    assert(url@ == capture_url(*metadata, *response));
    assert(method@ == text_or_empty(field_str(*metadata, "method"@)));
    assert(resource_type@ == text_or_empty(field_str(*metadata, "resourceType"@)));
    match capture.get("urlPatterns") {
        Some(JsonValue::Array(ps)) => if !any_pattern_in(ps, url) {
            return false;
        },
        _ => {},
    }
    match capture.get("methods") {
        Some(JsonValue::Array(ms)) => if !any_name_is(ms, method) {
            return false;
        },
        _ => {},
    }
    match capture.get("resourceTypes") {
        Some(JsonValue::Array(ts)) => if !any_name_is(ts, resource_type) {
            return false;
        },
        _ => {},
    }
    match capture.get("status") {
        Some(f) => {
            if response.field_i64("status").is_none() {
                return false;
            }
            match f {
                JsonValue::Str(_) => if !status_accepted {
                    return false;
                },
                JsonValue::Array(_) => if !status_accepted {
                    return false;
                },
                _ => {},
            }
        },
        None => {},
    }
    true
}


/// Whether `i` is the first member with key `key`.
pub open spec fn first_key_at(ms: Seq<JsonMember>, key: Seq<char>, i: int) -> bool {
    &&& 0 <= i < ms.len()
    &&& ms[i].key@ == key
    &&& forall|j: int| 0 <= j < i ==> (#[trigger] ms[j]).key@ != key
}

/// Whether no member has key `key`.
pub open spec fn key_absent(ms: Seq<JsonMember>, key: Seq<char>) -> bool {
    forall|j: int| 0 <= j < ms.len() ==> (#[trigger] ms[j]).key@ != key
}

/// Whether `after` is `before` with `value` stored under `key`: in place of
/// the first member with that key, else appended.
pub open spec fn upserted(before: Seq<JsonMember>, after: Seq<JsonMember>, key: Seq<char>, value: JsonValue) -> bool {
    ||| exists|i: int|
        #[trigger] first_key_at(before, key, i) && after == before.update(i, JsonMember { value, ..before[i] })
    ||| key_absent(before, key) && after.len() == before.len() + 1 && after.drop_last() == before && after.last().key@
        == key && after.last().value == value
}

/// The index of the first member with key `key`.
fn find_key_index(ms: &Vec<JsonMember>, key: &str) -> (r: Option<usize>)
    ensures
        match r {
            Some(i) => first_key_at(ms@, key@, i as int),
            None => key_absent(ms@, key@),
        },
{
    let mut i: usize = 0;
    while i < ms.len()
        invariant
            i <= ms@.len(),
            forall|j: int| 0 <= j < i ==> (#[trigger] ms@[j]).key@ != key@,
        decreases ms@.len() - i,
    {
        if str_equal(ms[i].key.as_str(), key) {
            return Some(i);
        }
        i = i + 1;
    }
    None
}

/// Stores `value` under `key`.
fn upsert_member(ms: &mut Vec<JsonMember>, key: &str, value: JsonValue)
    ensures
        upserted(old(ms)@, final(ms)@, key@, value),
{
    match find_key_index(ms, key) {
        Some(i) => {
            let ghost before = ms@;
            ms[i].value = value;
            assert(ms@ =~= before.update(i as int, JsonMember { value, ..before[i as int] }));
            assert(first_key_at(before, key@, i as int));
        },
        None => {
            let ghost before = ms@;
            ms.push(member(key, value));
            assert(ms@.drop_last() =~= before);
        },
    }
}

/// Removes the first member with key `key` and gives its value.
fn take_member(ms: &mut Vec<JsonMember>, key: &str) -> (r: Option<JsonValue>)
    ensures
        match r {
            Some(v) => exists|i: int|
                #[trigger] first_key_at(old(ms)@, key@, i) && v == old(ms)@[i].value && final(ms)@ == old(ms)@.remove(i),
            None => key_absent(old(ms)@, key@) && *final(ms) == *old(ms),
        },
{
    match find_key_index(ms, key) {
        Some(i) => {
            let m = ms.remove(i);
            Some(m.value)
        },
        None => None,
    }
}

/// The progress of a running capture: what each request asked for, the
/// events waiting for their bodies, and the events captured.
pub struct CaptureProgress {
    /// Keyed by request id.
    pub request_metadata: Vec<JsonMember>,
    /// Keyed by request id.
    pub pending: Vec<JsonMember>,
    pub captured: Vec<JsonValue>,
}

/// One browser network event of the captured tab's session.
pub struct CaptureEvent {
    pub session_id: Option<String>,
    pub method: String,
    pub params: JsonValue,
}

/// What the capture needs done after an event.
pub enum CaptureAction {
    /// Nothing; wait for the next event.
    Continue,
    /// Read the body of a request, by id, for its waiting event.
    FetchBody(String, JsonValue),
}

/// A capture never holds more events, captured or waiting, than its limit,
/// and every waiting event is a record.
pub open spec fn capture_progress_wf(p: CaptureProgress, limits: CaptureLimits) -> bool {
    &&& p.captured@.len() + p.pending@.len() <= limits.max_events
    &&& forall|i: int| 0 <= i < p.pending@.len() ==> (#[trigger] p.pending@[i]).value is Object
}

/// A capture that has seen nothing.
pub fn new_capture_progress() -> (r: CaptureProgress)
    ensures
        r.request_metadata@.len() == 0,
        r.pending@.len() == 0,
        r.captured@.len() == 0,
{
    CaptureProgress { request_metadata: Vec::new(), pending: Vec::new(), captured: Vec::new() }
}

/// Whether a capture is done: it holds as many events as it may, and none
/// waits for a body.
pub open spec fn capture_finished(p: CaptureProgress, limits: CaptureLimits) -> bool {
    p.captured@.len() >= limits.max_events && (!limits.capture_bodies || p.pending@.len() == 0)
}

/// Whether a capture is done.
pub fn network_capture_finished(p: &CaptureProgress, limits: &CaptureLimits) -> (r: bool)
    ensures
        r == capture_finished(*p, *limits),
{
    (p.captured.len() as u64) >= limits.max_events && (!limits.capture_bodies || p.pending.len() == 0)
}

/// A field of the request an event describes.
pub open spec fn request_field(params: JsonValue, key: Seq<char>) -> Option<JsonValue> {
    match json_get(params, "request"@) {
        Some(r) => json_get(r, key),
        None => None,
    }
}

/// Whether `v` is the same JSON as `o`, or an empty object when there is none.
pub open spec fn same_or_empty_object(v: JsonValue, o: Option<JsonValue>) -> bool {
    match o {
        Some(x) => json_same(v, x),
        None => v matches JsonValue::Object(m) && m@.len() == 0,
    }
}

/// Whether `v` is `o`, or an empty object when there is none.
pub open spec fn value_or_empty_object(v: JsonValue, o: Option<JsonValue>) -> bool {
    match o {
        Some(x) => v == x,
        None => v matches JsonValue::Object(m) && m@.len() == 0,
    }
}

/// The record of what a request asked for, in order: its id, URL, method,
/// resource type and wall time (each null when absent), and its headers
/// (an empty object when absent).
pub open spec fn request_record(v: JsonValue, id: Seq<char>, params: JsonValue) -> bool {
    &&& v matches JsonValue::Object(m)
    &&& m@.len() == 6
    &&& m@[0].key@ == "requestId"@ && json_str(m@[0].value) == Some(id)
    &&& m@[1].key@ == "url"@ && json_same(m@[1].value, or_null(request_field(params, "url"@)))
    &&& m@[2].key@ == "method"@ && json_same(m@[2].value, or_null(request_field(params, "method"@)))
    &&& m@[3].key@ == "resourceType"@ && json_same(m@[3].value, or_null(json_get(params, "type"@)))
    &&& m@[4].key@ == "timestamp"@ && json_same(m@[4].value, or_null(json_get(params, "wallTime"@)))
    &&& m@[5].key@ == "requestHeaders"@ && same_or_empty_object(m@[5].value, request_field(params, "headers"@))
}

/// The request record a response is matched with: the one stored for its
/// request, else a record holding only the request id.
pub open spec fn metadata_for(v: JsonValue, rm: Seq<JsonMember>, id: Seq<char>) -> bool {
    ||| exists|i: int| #[trigger] first_key_at(rm, id, i) && v == rm[i].value
    ||| key_absent(rm, id) && (v matches JsonValue::Object(m) && m@.len() == 1 && m@[0].key@ == "requestId"@ && json_str(
        m@[0].value,
    ) == Some(id))
}

/// Whether `v` is the record `event` with its body set to `body`.
pub open spec fn body_attached(v: JsonValue, event: JsonValue, body: JsonValue) -> bool {
    &&& v is Object
    &&& json_get(v, "body"@) == Some(body)
    &&& forall|k: Seq<char>| k != "body"@ ==> #[trigger] json_get(v, k) == json_get(event, k)
}

/// The body of a request whose loading failed: not captured, with the
/// browser's error text, else `loading failed`.
pub open spec fn failed_body(b: JsonValue, params: JsonValue) -> bool {
    &&& b matches JsonValue::Object(m)
    &&& m@.len() == 2
    &&& m@[0].key@ == "captured"@ && m@[0].value == JsonValue::Bool(false)
    &&& m@[1].key@ == "error"@ && match json_get(params, "errorText"@) {
        Some(t) => json_same(m@[1].value, t),
        None => json_str(m@[1].value) == Some("loading failed"@),
    }
}

/// How a response moves the capture: when the capture has room and the
/// recipe matches, its event is recorded, waiting for its body when bodies
/// are captured; otherwise nothing changes.
pub open spec fn response_step(
    p0: CaptureProgress,
    p1: CaptureProgress,
    params: JsonValue,
    capture: JsonValue,
    limits: CaptureLimits,
    status_accepted: bool,
) -> bool {
    match field_str(params, "requestId"@) {
        None => p1 == p0,
        Some(id) => if p0.captured@.len() + p0.pending@.len() >= limits.max_events {
            p1 == p0
        } else {
            exists|meta: JsonValue, resp: JsonValue|
                #[trigger] metadata_for(meta, p0.request_metadata@, id) && #[trigger] value_or_empty_object(
                    resp,
                    json_get(params, "response"@),
                ) && if !capture_matches_spec(capture, meta, resp, status_accepted) {
                    p1 == p0
                } else {
                    exists|ev: JsonValue|
                        #[trigger] ev_recorded(ev, capture, id, meta, resp, limits) && if limits.capture_bodies {
                            p1.request_metadata == p0.request_metadata && p1.captured == p0.captured && upserted(
                                p0.pending@,
                                p1.pending@,
                                id,
                                ev,
                            )
                        } else {
                            p1.request_metadata == p0.request_metadata && p1.pending == p0.pending && p1.captured@
                                == p0.captured@.push(ev)
                        }
                }
        },
    }
}

/// Whether `ev` is the captured event of a response, its body not yet read.
pub open spec fn ev_recorded(
    ev: JsonValue,
    capture: JsonValue,
    id: Seq<char>,
    meta: JsonValue,
    resp: JsonValue,
    limits: CaptureLimits,
) -> bool {
    ev matches JsonValue::Object(m) && capture_event_members(m@, capture, id, meta, resp, false, None, limits.max_body_bytes)
}

/// How one network event moves a capture. Events of other sessions and
/// of other kinds change nothing. A request is recorded under its id. A
/// response is handled as `response_step` says. A finished load hands
/// its waiting event out for its body to be read. A failed load captures
/// its waiting event with a failed body.
pub open spec fn capture_step_spec(
    p0: CaptureProgress,
    p1: CaptureProgress,
    event: CaptureEvent,
    capture: JsonValue,
    limits: CaptureLimits,
    session_id: Seq<char>,
    status_accepted: bool,
    r: CaptureAction,
) -> bool {
    let params = event.params;
    let id = field_str(params, "requestId"@);
    if ov(event.session_id) != Some(session_id) {
        p1 == p0 && r is Continue
    } else if event.method@ == "Network.requestWillBeSent"@ {
        &&& r is Continue
        &&& p1.pending == p0.pending
        &&& p1.captured == p0.captured
        &&& request_step(p0.request_metadata, p1.request_metadata, params)
    } else if event.method@ == "Network.responseReceived"@ {
        r is Continue && response_step(p0, p1, params, capture, limits, status_accepted)
    } else if event.method@ == "Network.loadingFinished"@ {
        finished_step(p0, p1, params, r)
    } else if event.method@ == "Network.loadingFailed"@ {
        r is Continue && failed_step(p0, p1, params)
    } else {
        p1 == p0 && r is Continue
    }
}

/// The record of what a request asked for.
fn request_record_of(id: &str, params: &JsonValue) -> (r: JsonValue)
    ensures
        request_record(r, id@, *params),
{
    let request = params.get("request");
    let (url, method, headers) = match request {
        Some(rq) => (rq.get("url"), rq.get("method"), rq.get("headers")),
        None => (None, None, None),
    };
    let headers_value = match headers {
        Some(h) => copy_value(h),
        None => JsonValue::Object(Vec::new()),
    };
    JsonValue::Object(
        vec![
            member("requestId", JsonValue::string(id)),
            member("url", copy_or_null(url)),
            member("method", copy_or_null(method)),
            member("resourceType", copy_or_null(params.get("type"))),
            member("timestamp", copy_or_null(params.get("wallTime"))),
            member("requestHeaders", headers_value),
        ],
    )
}

/// How a request moves the stored request records: its record is stored
/// under its id; a request without an id changes nothing.
pub open spec fn request_step(before: Vec<JsonMember>, after: Vec<JsonMember>, params: JsonValue) -> bool {
    let id = field_str(params, "requestId"@);
    ||| id is None && after == before
    ||| id is Some && exists|v: JsonValue| #[trigger] request_record(v, id->0, params) && upserted(before@, after@, id->0, v)
}

/// Records what a request asks for under its id.
fn record_request(progress: &mut CaptureProgress, params: &JsonValue)
    ensures
        final(progress).pending == old(progress).pending,
        final(progress).captured == old(progress).captured,
        request_step(old(progress).request_metadata, final(progress).request_metadata, *params),
{
    match params.field_str("requestId") {
        Some(id) => {
            let record = request_record_of(id, params);
            let ghost v = record;
            let ghost before = progress.request_metadata@;
            upsert_member(&mut progress.request_metadata, id, record);
            assert(request_record(v, id@, *params));
            assert(request_step(old(progress).request_metadata, progress.request_metadata, *params)) by {
                let a = old(progress).request_metadata;
                let b = progress.request_metadata;
                let k = field_str(*params, "requestId"@);
                assert(k is Some);
                assert(k->0 == id@);
                assert(a@ == before);
                assert(request_record(v, k->0, *params));
                assert(upserted(a@, b@, k->0, v));
            }
        },
        None => {},
    }
}

/// Records the event of a matching response while the capture has room.
fn record_response(
    progress: &mut CaptureProgress,
    params: &JsonValue,
    capture: &JsonValue,
    limits: &CaptureLimits,
    status_accepted: bool,
)
    requires
        capture_progress_wf(*old(progress), *limits),
    ensures
        capture_progress_wf(*final(progress), *limits),
        response_step(*old(progress), *final(progress), *params, *capture, *limits, status_accepted),
{
    let ghost p0 = *progress;
    let id = match params.field_str("requestId") {
        Some(i) => i,
        None => return ,
    };
    assert(field_str(*params, "requestId"@) == Some(id@));
    if (progress.captured.len() as u64) + (progress.pending.len() as u64) >= limits.max_events {
        return ;
    }
    let empty = JsonValue::Object(Vec::new());
    let resp: &JsonValue = match params.get("response") {
        Some(r) => r,
        None => &empty,
    };
    let default_meta = JsonValue::Object(vec![member("requestId", JsonValue::string(id))]);
    let ghost mut gm = JsonValue::Null;
    let ghost mut gr = JsonValue::Null;
    let ev = {
        let meta: &JsonValue = match find_key_index(&progress.request_metadata, id) {
            Some(i) => &progress.request_metadata[i].value,
            None => &default_meta,
        };
        assert(metadata_for(*meta, p0.request_metadata@, id@));
        assert(value_or_empty_object(*resp, json_get(*params, "response"@)));
        proof {
            gm = *meta;
            gr = *resp;
        }
        if !service_network_capture_matches(capture, meta, resp, status_accepted) {
            assert(metadata_for(gm, p0.request_metadata@, id@) && value_or_empty_object(gr, json_get(*params, "response"@))
                && !capture_matches_spec(*capture, gm, gr, status_accepted));
            assert(response_step(p0, *progress, *params, *capture, *limits, status_accepted)) by {
                let k = field_str(*params, "requestId"@);
                assert(k is Some && k->0 == id@);
                assert(p0.captured@.len() + p0.pending@.len() < limits.max_events);
                assert(metadata_for(gm, p0.request_metadata@, k->0));
                assert(value_or_empty_object(gr, json_get(*params, "response"@)));
                assert(!capture_matches_spec(*capture, gm, gr, status_accepted));
                assert(*progress == p0);
            }
            return ;
        }
        let ev = service_network_capture_event(capture, id, meta, resp, false, None, limits.max_body_bytes);
        assert(ev_recorded(ev, *capture, id@, *meta, *resp, *limits));
        ev
    };
    let ghost gev = ev;
    if limits.capture_bodies {
        upsert_member(&mut progress.pending, id, ev);
        assert forall|i: int| 0 <= i < progress.pending@.len() implies (#[trigger] progress.pending@[i]).value is Object by {
            if i < p0.pending@.len() && progress.pending@[i] != p0.pending@[i] {
            }
        }
    } else {
        progress.captured.push(ev);
    }
    assert(metadata_for(gm, p0.request_metadata@, id@) && value_or_empty_object(gr, json_get(*params, "response"@))
        && capture_matches_spec(*capture, gm, gr, status_accepted) && ev_recorded(gev, *capture, id@, gm, gr, *limits));
    assert(response_step(p0, *progress, *params, *capture, *limits, status_accepted)) by {
        let k = field_str(*params, "requestId"@);
        assert(k is Some && k->0 == id@);
        assert(p0.captured@.len() + p0.pending@.len() < limits.max_events);
        assert(metadata_for(gm, p0.request_metadata@, k->0));
        assert(value_or_empty_object(gr, json_get(*params, "response"@)));
        assert(capture_matches_spec(*capture, gm, gr, status_accepted));
        assert(ev_recorded(gev, *capture, k->0, gm, gr, *limits));
    }
}

/// Removing a waiting event keeps every other waiting event a record.
proof fn lemma_remove_keeps_records(ms: Seq<JsonMember>, k: int)
    requires
        0 <= k < ms.len(),
        forall|i: int| 0 <= i < ms.len() ==> (#[trigger] ms[i]).value is Object,
    ensures
        forall|i: int| 0 <= i < ms.remove(k).len() ==> (#[trigger] ms.remove(k)[i]).value is Object,
{
    assert forall|i: int| 0 <= i < ms.remove(k).len() implies (#[trigger] ms.remove(k)[i]).value is Object by {
        if i < k {
            assert(ms.remove(k)[i] == ms[i]);
        } else {
            assert(ms.remove(k)[i] == ms[i + 1]);
        }
    }
}

/// How a finished load moves the capture: its waiting event is handed out
/// for its body to be read; a load with no waiting event changes nothing.
pub open spec fn finished_step(p0: CaptureProgress, p1: CaptureProgress, params: JsonValue, r: CaptureAction) -> bool {
    let id = field_str(params, "requestId"@);
    ||| (id is None || key_absent(p0.pending@, id->0)) && p1 == p0 && r is Continue
    ||| id is Some && exists|k: int|
        #[trigger] first_key_at(p0.pending@, id->0, k) && p1.pending@ == p0.pending@.remove(k) && p1.request_metadata
            == p0.request_metadata && p1.captured == p0.captured && (r matches CaptureAction::FetchBody(rid, ev) && rid@
            == id->0 && ev == p0.pending@[k].value)
}

/// Hands out the waiting event of a finished load.
fn take_finished(progress: &mut CaptureProgress, params: &JsonValue, limits: &CaptureLimits) -> (r: CaptureAction)
    requires
        capture_progress_wf(*old(progress), *limits),
    ensures
        capture_progress_wf(*final(progress), *limits),
        r matches CaptureAction::FetchBody(_, ev) ==> ev is Object && final(progress).captured@.len()
            + final(progress).pending@.len() < limits.max_events,
        finished_step(*old(progress), *final(progress), *params, r),
{
    let ghost p0 = *progress;
    let id = match params.field_str("requestId") {
        Some(i) => i,
        None => return CaptureAction::Continue,
    };
    assert(field_str(*params, "requestId"@) == Some(id@));
    match take_member(&mut progress.pending, id) {
        Some(ev) => {
            let ghost k = choose|k: int|
                #[trigger] first_key_at(p0.pending@, id@, k) && ev == p0.pending@[k].value && progress.pending@
                    == p0.pending@.remove(k);
            proof {
                lemma_remove_keeps_records(p0.pending@, k);
            }
            let r = CaptureAction::FetchBody(owned(id), ev);
            assert(finished_step(p0, *progress, *params, r)) by {
                let key = field_str(*params, "requestId"@);
                assert(key is Some && key->0 == id@);
                assert(first_key_at(p0.pending@, key->0, k));
            }
            r
        },
        None => {
            assert(finished_step(p0, *progress, *params, CaptureAction::Continue)) by {
                let key = field_str(*params, "requestId"@);
                assert(key is Some && key->0 == id@);
                assert(*progress == p0);
            }
            CaptureAction::Continue
        },
    }
}

/// The body of a request whose loading failed.
fn failed_body_of(params: &JsonValue) -> (r: JsonValue)
    ensures
        failed_body(r, *params),
{
    let error = match params.get("errorText") {
        Some(t) => copy_value(t),
        None => JsonValue::string("loading failed"),
    };
    JsonValue::Object(vec![member("captured", JsonValue::Bool(false)), member("error", error)])
}

/// How a failed load moves the capture: its waiting event is captured with
/// a failed body; a load with no waiting event changes nothing.
pub open spec fn failed_step(p0: CaptureProgress, p1: CaptureProgress, params: JsonValue) -> bool {
    let id = field_str(params, "requestId"@);
    ||| (id is None || key_absent(p0.pending@, id->0)) && p1 == p0
    ||| id is Some && exists|k: int, b: JsonValue|
        #[trigger] first_key_at(p0.pending@, id->0, k) && #[trigger] failed_body(b, params) && p1.pending@
            == p0.pending@.remove(k) && p1.request_metadata == p0.request_metadata && p1.captured@.len()
            == p0.captured@.len() + 1 && p1.captured@.drop_last() == p0.captured@ && body_attached(
            p1.captured@.last(),
            p0.pending@[k].value,
            b,
        )
}

/// Captures the waiting event of a failed load with a failed body.
fn record_failure(progress: &mut CaptureProgress, params: &JsonValue, limits: &CaptureLimits)
    requires
        capture_progress_wf(*old(progress), *limits),
    ensures
        capture_progress_wf(*final(progress), *limits),
        failed_step(*old(progress), *final(progress), *params),
{
    let ghost p0 = *progress;
    let id = match params.field_str("requestId") {
        Some(i) => i,
        None => return ,
    };
    assert(field_str(*params, "requestId"@) == Some(id@));
    match take_member(&mut progress.pending, id) {
        Some(ev) => {
            let ghost k = choose|k: int|
                #[trigger] first_key_at(p0.pending@, id@, k) && ev == p0.pending@[k].value && progress.pending@
                    == p0.pending@.remove(k);
            proof {
                lemma_remove_keeps_records(p0.pending@, k);
            }
            let mut event = ev;
            let body = failed_body_of(params);
            let ghost b = body;
            set_member(&mut event, "body", body);
            progress.captured.push(event);
            assert(failed_step(p0, *progress, *params)) by {
                let key = field_str(*params, "requestId"@);
                assert(key is Some && key->0 == id@);
                assert(first_key_at(p0.pending@, key->0, k));
                assert(failed_body(b, *params));
                assert(progress.captured@.drop_last() =~= p0.captured@);
            }
        },
        None => {
            assert(failed_step(p0, *progress, *params)) by {
                let key = field_str(*params, "requestId"@);
                assert(key is Some && key->0 == id@);
                assert(*progress == p0);
            }
        },
    }
}

/// Records a waiting event's body once it has been read, and captures it.
pub fn record_fetched_body(progress: &mut CaptureProgress, event: JsonValue, body: JsonValue, limits: &CaptureLimits)
    requires
        capture_progress_wf(*old(progress), *limits),
        event is Object,
        old(progress).captured@.len() + old(progress).pending@.len() < limits.max_events,
    ensures
        capture_progress_wf(*final(progress), *limits),
        final(progress).request_metadata == old(progress).request_metadata,
        final(progress).pending == old(progress).pending,
        final(progress).captured@.len() == old(progress).captured@.len() + 1,
        final(progress).captured@.drop_last() == old(progress).captured@,
        body_attached(final(progress).captured@.last(), event, body),
{
    let ghost p0 = *progress;
    let mut e = event;
    set_member(&mut e, "body", body);
    progress.captured.push(e);
    assert(progress.captured@.drop_last() =~= p0.captured@);
}

/// Moves a capture along by one network event of the captured tab, as
/// `capture_step_spec` says. The capture never holds more events, captured
/// or waiting, than its limit; an event handed out for its body leaves room
/// for it.
pub fn network_capture_step(
    progress: &mut CaptureProgress,
    event: &CaptureEvent,
    capture: &JsonValue,
    limits: &CaptureLimits,
    session_id: &str,
    status_accepted: bool,
) -> (r: CaptureAction)
    requires
        capture_progress_wf(*old(progress), *limits),
    ensures
        capture_progress_wf(*final(progress), *limits),
        r matches CaptureAction::FetchBody(_, ev) ==> ev is Object && final(progress).captured@.len()
            + final(progress).pending@.len() < limits.max_events,
        capture_step_spec(*old(progress), *final(progress), *event, *capture, *limits, session_id@, status_accepted, r),
{
    let same_session = match &event.session_id {
        Some(s) => str_equal(s.as_str(), session_id),
        None => false,
    };
    if !same_session {
        return CaptureAction::Continue;
    }
    let m = event.method.as_str();
    if str_equal(m, "Network.requestWillBeSent") {
        record_request(progress, &event.params);
        CaptureAction::Continue
    } else if str_equal(m, "Network.responseReceived") {
        record_response(progress, &event.params, capture, limits, status_accepted);
        CaptureAction::Continue
    } else if str_equal(m, "Network.loadingFinished") {
        take_finished(progress, &event.params, limits)
    } else if str_equal(m, "Network.loadingFailed") {
        record_failure(progress, &event.params, limits);
        CaptureAction::Continue
    } else {
        CaptureAction::Continue
    }
}

} // verus!
