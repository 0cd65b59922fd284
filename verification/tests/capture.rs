use agent_browser_service::capture::{
    filter_headers, network_capture_limits, service_network_capture_event, service_network_allowed_header_names,
    to_ascii_lowercase, validate_service_network_capture_recipe,
};
use agent_browser_service::capture::CaptureLimits;
use agent_browser_service::capture_step::{
    network_capture_finished, network_capture_step, new_capture_progress, record_fetched_body,
    service_network_capture_matches, text_contains, CaptureAction, CaptureEvent, CaptureProgress,
};
use agent_browser_service::json::{json_equal, JsonMember, JsonValue};
use agent_browser_service::request::{
    reject_service_network_capture_request, validate_service_tab_handle, ServiceRequestIssueKind,
};

fn convert(value: &serde_json::Value) -> JsonValue {
    match value {
        serde_json::Value::Null => JsonValue::Null,
        serde_json::Value::Bool(b) => JsonValue::Bool(*b),
        serde_json::Value::Number(n) => match (n.as_u64(), n.as_i64()) {
            (Some(u), _) => JsonValue::UInt(u),
            (None, Some(i)) => JsonValue::NegInt(i),
            _ => JsonValue::Float(n.to_string()),
        },
        serde_json::Value::String(s) => JsonValue::Str(s.clone()),
        serde_json::Value::Array(items) => JsonValue::Array(items.iter().map(convert).collect()),
        serde_json::Value::Object(members) => JsonValue::Object(
            members.iter().map(|(key, value)| JsonMember { key: key.clone(), value: convert(value) }).collect(),
        ),
    }
}

fn json(text: &str) -> JsonValue {
    convert(&serde_json::from_str::<serde_json::Value>(text).expect("fixture JSON"))
}

fn equivalent(a: &JsonValue, b: &JsonValue) -> bool {
    match (a, b) {
        (JsonValue::Object(x), JsonValue::Object(y)) => {
            x.len() == y.len()
                && x.iter().all(|m| match b.get(&m.key) {
                    Some(v) => equivalent(&m.value, v),
                    None => false,
                })
        }
        (JsonValue::Array(x), JsonValue::Array(y)) => {
            x.len() == y.len() && x.iter().zip(y.iter()).all(|(p, q)| equivalent(p, q))
        }
        _ => json_equal(a, b),
    }
}

#[test]
fn recipe_filters_must_be_nonempty_string_arrays() {
    assert!(validate_service_network_capture_recipe(&json(
        r#"{"urlPatterns": ["/api/"], "methods": ["GET"], "status": "2xx", "trigger": {"type": "reload"}}"#
    ))
    .is_ok());
    let fixtures = [
        (r#"{"urlPatterns": []}"#, "network_capture urlPatterns must be a nonempty string array"),
        (r#"{"methods": ["GET", ""]}"#, "network_capture methods must be a nonempty string array"),
        (r#"{"resourceTypes": "XHR"}"#, "network_capture resourceTypes must be a nonempty string array"),
        (r#"{"status": "  "}"#, "network_capture status must be a string or string array"),
        (r#"{"trigger": "reload"}"#, "network_capture trigger must be an object"),
        (r#"{"trigger": {}}"#, "network_capture trigger requires type"),
        (r#"{"trigger": {"type": "click"}}"#, "network_capture trigger.type must be reload"),
    ];
    for (recipe, expected) in fixtures {
        assert_eq!(validate_service_network_capture_recipe(&json(recipe)).err().as_deref(), Some(expected));
    }
    assert!(validate_service_network_capture_recipe(&json(r#"{"status": ["4xx", "5xx"]}"#)).is_ok());
}

#[test]
fn capture_limits_clamp_events_and_bodies() {
    let limits = network_capture_limits(
        &json(r#"{"timeoutMs": 5000}"#),
        &json(r#"{"maxEvents": 500, "captureBodies": true, "maxBodyBytes": 5000000}"#),
    )
    .ok()
    .unwrap();
    assert_eq!(limits.timeout_ms, 5000);
    assert_eq!(limits.max_events, 100);
    assert!(limits.capture_bodies);
    assert_eq!(limits.max_body_bytes, 1048576);

    let defaults = network_capture_limits(&json("{}"), &json(r#"{"maxDurationMs": 750}"#)).ok().unwrap();
    assert_eq!(defaults.timeout_ms, 750);
    assert_eq!(defaults.max_events, 20);
    assert!(!defaults.capture_bodies);
    assert_eq!(defaults.max_body_bytes, 0);

    let zero_events = network_capture_limits(&json(r#"{"timeoutMs": 1}"#), &json(r#"{"maxEvents": 0}"#)).ok().unwrap();
    assert_eq!(zero_events.max_events, 1);

    assert_eq!(
        network_capture_limits(&json("{}"), &json("{}")).err().as_deref(),
        Some("network_capture requires positive timeoutMs")
    );
    assert_eq!(
        network_capture_limits(&json(r#"{"timeoutMs": 10}"#), &json(r#"{"captureBodies": true}"#)).err().as_deref(),
        Some("network_capture captureBodies requires positive maxBodyBytes")
    );
    assert_eq!(
        network_capture_limits(&json(r#"{"timeoutMs": 10, "maxBodyBytes": 64}"#), &json(r#"{"captureBodies": true}"#))
            .ok()
            .unwrap()
            .max_body_bytes,
        64
    );
    assert_eq!(
        network_capture_limits(&json(r#"{"timeoutMs": 10}"#), &json(r#"{"trigger": {"type": "click"}}"#))
            .err()
            .as_deref(),
        Some("network_capture trigger.type must be reload")
    );
}

#[test]
fn only_allowed_headers_are_disclosed_case_insensitively() {
    let recipe = json(r#"{"allowedHeaderNames": ["Content-Type", 7, "X-Trace"]}"#);
    let allowed = service_network_allowed_header_names(&recipe);
    assert_eq!(allowed, vec!["content-type".to_string(), "x-trace".to_string()]);
    let headers = json(r#"{"Authorization": "secret", "content-type": "text/html", "X-TRACE": "abc"}"#);
    let disclosed = filter_headers(Some(&headers), &allowed);
    assert!(equivalent(&disclosed, &json(r#"{"content-type": "text/html", "X-TRACE": "abc"}"#)));
    assert!(disclosed.get("Authorization").is_none());
    assert!(json_equal(&filter_headers(Some(&headers), &Vec::new()), &json("{}")));
    assert!(json_equal(&filter_headers(None, &allowed), &json("{}")));
    assert_eq!(to_ascii_lowercase("MiXeD-Ä"), "mixed-Ä");
}

#[test]
fn network_capture_requests_need_a_targeted_handle_and_bounded_recipe() {
    let ok = json(
        r#"{"action": "network_capture", "serviceTabHandle": {"valid": true, "tabId": "tab-1", "targetId": "target-1"},
            "networkCapture": {"maxEvents": 5, "timeoutMs": 1000}}"#,
    );
    assert!(reject_service_network_capture_request("network_capture", &ok).is_ok());
    assert!(reject_service_network_capture_request("navigate", &json("{}")).is_ok());

    let fixtures = [
        (r#"{}"#, ServiceRequestIssueKind::InvalidServiceTabHandle, "network_capture requires serviceTabHandle"),
        (
            r#"{"serviceTabHandle": {"valid": false, "staleReason": "tab_closed"}}"#,
            ServiceRequestIssueKind::InvalidServiceTabHandle,
            "service tab handle is stale: tab_closed",
        ),
        (
            r#"{"serviceTabHandle": {"valid": true}}"#,
            ServiceRequestIssueKind::InvalidServiceTabHandle,
            "serviceTabHandle.tabId is required",
        ),
        (
            r#"{"serviceTabHandle": {"valid": true, "tabId": "tab-1"}}"#,
            ServiceRequestIssueKind::InvalidServiceTabHandle,
            "network_capture requires serviceTabHandle.targetId",
        ),
        (
            r#"{"serviceTabHandle": {"valid": true, "tabId": "t", "targetId": "g"}}"#,
            ServiceRequestIssueKind::InvalidBoundedRecipe,
            "network_capture requires networkCapture object",
        ),
        (
            r#"{"serviceTabHandle": {"valid": true, "tabId": "t", "targetId": "g"}, "networkCapture": {"maxEvents": 5}}"#,
            ServiceRequestIssueKind::InvalidBoundedRecipe,
            "network_capture requires positive timeoutMs",
        ),
        (
            r#"{"serviceTabHandle": {"valid": true, "tabId": "t", "targetId": "g"}, "timeoutMs": "soon", "networkCapture": {"maxEvents": 5, "timeoutMs": 10}}"#,
            ServiceRequestIssueKind::InvalidBoundedRecipe,
            "network_capture requires positive timeoutMs",
        ),
        (
            r#"{"serviceTabHandle": {"valid": true, "tabId": "t", "targetId": "g"}, "networkCapture": {"timeoutMs": 10}}"#,
            ServiceRequestIssueKind::InvalidBoundedRecipe,
            "network_capture requires positive networkCapture.maxEvents",
        ),
        (
            r#"{"serviceTabHandle": {"valid": true, "tabId": "t", "targetId": "g"}, "networkCapture": {"timeoutMs": 10, "maxEvents": 1, "captureBodies": true}}"#,
            ServiceRequestIssueKind::InvalidBoundedRecipe,
            "network_capture captureBodies requires positive maxBodyBytes",
        ),
    ];
    for (request, kind, expected) in fixtures {
        let error = reject_service_network_capture_request("network_capture", &json(request)).err().unwrap();
        assert!(error.kind == kind);
        assert_eq!(error.message(), expected);
    }

    let unstated = json(r#"{"serviceTabHandle": {"tabId": "tab-1"}}"#);
    assert_eq!(
        validate_service_tab_handle(&unstated, "tab_refresh", false).err().unwrap().message(),
        "service tab handle is stale: unknown"
    );
    let untargeted = json(r#"{"serviceTabHandle": {"valid": true, "tabId": "tab-1"}}"#);
    assert!(validate_service_tab_handle(&untargeted, "tab_refresh", false).is_ok());
}

#[test]
fn capture_event_is_redacted_unless_headers_are_requested() {
    let metadata = json(r#"{"url": "https://example.test/a", "method": "GET", "resourceType": "XHR", "requestHeaders": {"Cookie": "secret", "Accept": "text/html"}}"#);
    let response = json(r#"{"status": 200, "statusText": "OK", "headers": {"Set-Cookie": "secret", "Content-Type": "text/html"}}"#);
    let plain = service_network_capture_event(&json("{}"), "req-1", &metadata, &response, false, None, 0);
    assert!(equivalent(
        &plain,
        &json(r#"{"requestId": "req-1", "url": "https://example.test/a", "method": "GET", "resourceType": "XHR", "status": 200, "statusText": "OK", "mimeType": null, "encodedDataLength": null, "headersRedacted": true, "body": {"captured": false, "maxBodyBytes": null}}"#)
    ));
    let recipe = json(r#"{"includeRequestHeaders": true, "includeResponseHeaders": true, "allowedHeaderNames": ["accept", "content-type"]}"#);
    let body = json(r#"{"captured": true, "body": "ok"}"#);
    let disclosed = service_network_capture_event(&recipe, "req-2", &metadata, &response, true, Some(body), 4096);
    assert!(equivalent(disclosed.get("requestHeaders").unwrap(), &json(r#"{"Accept": "text/html"}"#)));
    assert!(equivalent(disclosed.get("responseHeaders").unwrap(), &json(r#"{"Content-Type": "text/html"}"#)));
    assert!(equivalent(disclosed.get("body").unwrap(), &json(r#"{"captured": true, "body": "ok"}"#)));
    let limited = service_network_capture_event(&json("{}"), "req-3", &metadata, &response, true, None, 1024);
    assert!(equivalent(limited.get("body").unwrap(), &json(r#"{"captured": true, "maxBodyBytes": 1024}"#)));
}

fn limits(max_events: u64, capture_bodies: bool) -> CaptureLimits {
    CaptureLimits {
        timeout_ms: 1000,
        max_events,
        capture_bodies,
        max_body_bytes: if capture_bodies { 4096 } else { 0 },
    }
}

fn cdp(session: &str, method: &str, params: &str) -> CaptureEvent {
    CaptureEvent { session_id: Some(session.to_string()), method: method.to_string(), params: json(params) }
}

fn step(progress: &mut CaptureProgress, event: &CaptureEvent, capture: &JsonValue, l: &CaptureLimits) -> CaptureAction {
    network_capture_step(progress, event, capture, l, "session-1", true)
}

#[test]
fn text_contains_finds_substrings() {
    assert!(text_contains("https://example.test/api/v1", "/api/"));
    assert!(text_contains("abc", ""));
    assert!(!text_contains("abc", "abcd"));
    assert!(!text_contains("https://example.test/home", "/api/"));
}

#[test]
fn capture_matches_url_method_type_and_status() {
    let capture = json(r#"{"urlPatterns": ["/api/"], "methods": ["get"], "resourceTypes": ["xhr"], "status": "2xx"}"#);
    let metadata = json(r#"{"url": "https://example.test/api/items", "method": "GET", "resourceType": "XHR"}"#);
    let response = json(r#"{"status": 200}"#);
    assert!(service_network_capture_matches(&capture, &metadata, &response, true));
    assert!(!service_network_capture_matches(&capture, &metadata, &response, false));
    assert!(!service_network_capture_matches(&capture, &metadata, &json(r#"{}"#), true));
    let other_url = json(r#"{"status": 200, "url": "https://example.test/home"}"#);
    assert!(!service_network_capture_matches(&capture, &metadata, &other_url, true));
    let post = json(r#"{"url": "https://example.test/api/items", "method": "POST", "resourceType": "XHR"}"#);
    assert!(!service_network_capture_matches(&capture, &post, &response, true));
    assert!(service_network_capture_matches(&json(r#"{}"#), &json(r#"{}"#), &json(r#"{}"#), false));
}

#[test]
fn metadata_only_capture_stops_at_its_event_limit() {
    let capture = json(r#"{"urlPatterns": ["/api/"]}"#);
    let l = limits(1, false);
    let mut progress = new_capture_progress();
    step(&mut progress, &cdp("session-1", "Network.requestWillBeSent", r#"{"requestId": "r1", "request": {"url": "https://x.test/api/1", "method": "GET"}, "type": "XHR"}"#), &capture, &l);
    assert_eq!(progress.request_metadata.len(), 1);
    step(&mut progress, &cdp("session-1", "Network.responseReceived", r#"{"requestId": "r1", "response": {"url": "https://x.test/api/1", "status": 200}}"#), &capture, &l);
    assert_eq!(progress.captured.len(), 1);
    assert_eq!(progress.captured[0].field_str("method"), Some("GET"));
    assert_eq!(progress.captured[0].field_bool("headersRedacted"), Some(true));
    step(&mut progress, &cdp("session-1", "Network.responseReceived", r#"{"requestId": "r2", "response": {"url": "https://x.test/api/2", "status": 200}}"#), &capture, &l);
    assert_eq!(progress.captured.len(), 1);
    assert!(network_capture_finished(&progress, &l));
}

#[test]
fn capture_ignores_other_sessions_and_unmatched_responses() {
    let capture = json(r#"{"urlPatterns": ["/api/"]}"#);
    let l = limits(5, false);
    let mut progress = new_capture_progress();
    step(&mut progress, &cdp("session-2", "Network.responseReceived", r#"{"requestId": "r1", "response": {"url": "https://x.test/api/1"}}"#), &capture, &l);
    step(&mut progress, &cdp("session-1", "Network.responseReceived", r#"{"requestId": "r2", "response": {"url": "https://x.test/home"}}"#), &capture, &l);
    step(&mut progress, &cdp("session-1", "Page.loadEventFired", r#"{}"#), &capture, &l);
    assert_eq!(progress.captured.len(), 0);
    assert!(!network_capture_finished(&progress, &l));
}

#[test]
fn body_capture_waits_for_the_body_then_records_it() {
    let capture = json(r#"{"captureBodies": true}"#);
    let l = limits(2, true);
    let mut progress = new_capture_progress();
    step(&mut progress, &cdp("session-1", "Network.responseReceived", r#"{"requestId": "r1", "response": {"url": "https://x.test/a"}}"#), &capture, &l);
    assert_eq!(progress.pending.len(), 1);
    assert_eq!(progress.captured.len(), 0);
    let action = step(&mut progress, &cdp("session-1", "Network.loadingFinished", r#"{"requestId": "r1"}"#), &capture, &l);
    let (request_id, event) = match action {
        CaptureAction::FetchBody(id, event) => (id, event),
        CaptureAction::Continue => panic!("the finished load should hand out its event"),
    };
    assert_eq!(request_id, "r1");
    assert_eq!(progress.pending.len(), 0);
    record_fetched_body(&mut progress, event, json(r#"{"captured": true, "text": "ok"}"#), &l);
    assert_eq!(progress.captured.len(), 1);
    assert_eq!(progress.captured[0].get("body").and_then(|b| b.field_str("text")), Some("ok"));

    step(&mut progress, &cdp("session-1", "Network.responseReceived", r#"{"requestId": "r2", "response": {"url": "https://x.test/b"}}"#), &capture, &l);
    step(&mut progress, &cdp("session-1", "Network.responseReceived", r#"{"requestId": "r3", "response": {"url": "https://x.test/c"}}"#), &capture, &l);
    assert_eq!(progress.captured.len() + progress.pending.len(), 2);
    assert!(!network_capture_finished(&progress, &l));
    step(&mut progress, &cdp("session-1", "Network.loadingFailed", r#"{"requestId": "r2", "errorText": "net::ERR_ABORTED"}"#), &capture, &l);
    assert_eq!(progress.captured.len(), 2);
    let body = progress.captured[1].get("body").unwrap();
    assert_eq!(body.field_bool("captured"), Some(false));
    assert_eq!(body.field_str("error"), Some("net::ERR_ABORTED"));
    assert_eq!(progress.pending.len(), 0);
    assert!(network_capture_finished(&progress, &l));
}
