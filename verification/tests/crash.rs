use agent_browser_service::crash::{
    correlate_renderer_crash, renderer_crash_targets_context, RendererCrashCommandContext,
    RendererCrashSignal,
};
use agent_browser_service::crash_projection::project_renderer_crash;
use agent_browser_service::json::{JsonMember, JsonValue};
use agent_browser_service::model::{
    BrowserTab, RuntimeOwnerRegistry, ServiceEventKind, ServicePrincipals, ServiceState, ServiceTabHandle,
    TabLifecycle,
};

fn params(target_id: &str) -> JsonValue {
    JsonValue::Object(vec![
        JsonMember { key: "targetId".to_string(), value: JsonValue::Str(target_id.to_string()) },
        JsonMember { key: "status".to_string(), value: JsonValue::Str("crashed".to_string()) },
        JsonMember { key: "errorCode".to_string(), value: JsonValue::UInt(139) },
        JsonMember {
            key: "reason".to_string(),
            value: JsonValue::Str("renderer process exited".to_string()),
        },
    ])
}

fn crash_event(method: &str) -> Option<RendererCrashSignal> {
    RendererCrashSignal::from_cdp_event(
        method,
        &params("target-a"),
        &Some("page-session-a".to_string()),
        "2026-08-27T12:00:00Z",
    )
}

fn context() -> RendererCrashCommandContext {
    RendererCrashCommandContext {
        action: "snapshot".to_string(),
        request_id: "request-1".to_string(),
        local_principal: Some("local:test".to_string()),
        service_name: Some("messages".to_string()),
        agent_name: Some("tester".to_string()),
        task_name: Some("capture".to_string()),
        daemon_session: "session-a".to_string(),
        requested_profile: Some("profile-a".to_string()),
        detected_profile: Some("profile-a".to_string()),
        browser_id: Some("session:session-a".to_string()),
        pid: Some(4242),
        endpoint: Some("http://127.0.0.1:9222".to_string()),
        browser_build: Some("chrome".to_string()),
        stderr_path: Some("/tmp/chrome.stderr.log".to_string()),
        target_id: Some("target-a".to_string()),
        page_session_id: Some("page-session-a".to_string()),
    }
}

fn copy(signal: &RendererCrashSignal) -> RendererCrashSignal {
    RendererCrashSignal {
        method: signal.method.clone(),
        reason: signal.reason.clone(),
        status: signal.status.clone(),
        error_code: signal.error_code,
        target_id: signal.target_id.clone(),
        page_session_id: signal.page_session_id.clone(),
        observed_at: signal.observed_at.clone(),
        source: signal.source.clone(),
    }
}

#[test]
fn inspector_target_crashed_is_the_only_crash_signal() {
    let signal = crash_event("Inspector.targetCrashed").expect("Inspector.targetCrashed should parse");
    assert_eq!(signal.target_id.as_deref(), Some("target-a"));
    assert_eq!(signal.page_session_id.as_deref(), Some("page-session-a"));
    assert_eq!(signal.error_code, Some(139));
    assert_eq!(signal.status.as_deref(), Some("crashed"));
    assert_eq!(signal.reason.as_deref(), Some("renderer process exited"));
    assert_eq!(signal.source, "cdp_event_stream");
    assert!(crash_event("Target.targetDestroyed").is_none());
    assert!(crash_event("Target.detachedFromTarget").is_none());
}

#[test]
fn correlation_is_target_stable_and_excludes_explicit_close() {
    let signal = crash_event("Inspector.targetCrashed").expect("crash signal");
    let observation =
        correlate_renderer_crash(copy(&signal), &context()).expect("matching active target should correlate");
    assert_eq!(observation.correlation_id, "session-a:request-1:target-a");

    let mut unrelated = context();
    unrelated.target_id = Some("target-b".to_string());
    unrelated.page_session_id = Some("page-session-b".to_string());
    assert!(correlate_renderer_crash(copy(&signal), &unrelated).is_none());

    let mut explicit_close = context();
    explicit_close.action = "tab_close".to_string();
    assert!(correlate_renderer_crash(signal, &explicit_close).is_none());
}

#[test]
fn blank_parameters_and_out_of_range_codes_are_absent() {
    let params = JsonValue::Object(vec![
        JsonMember { key: "targetId".to_string(), value: JsonValue::Str("   ".to_string()) },
        JsonMember { key: "errorCode".to_string(), value: JsonValue::UInt(u64::MAX) },
        JsonMember { key: "status".to_string(), value: JsonValue::UInt(3) },
    ]);
    let signal =
        RendererCrashSignal::from_cdp_event("Inspector.targetCrashed", &params, &None, "t0").unwrap();
    assert_eq!(signal.target_id, None);
    assert_eq!(signal.error_code, None);
    assert_eq!(signal.status, None);
    assert_eq!(signal.observed_at, "t0");

    let negative = JsonValue::Object(vec![JsonMember {
        key: "errorCode".to_string(),
        value: JsonValue::NegInt(-11),
    }]);
    let signal =
        RendererCrashSignal::from_cdp_event("Inspector.targetCrashed", &negative, &None, "t1").unwrap();
    assert_eq!(signal.error_code, Some(-11));
}

#[test]
fn page_session_targets_only_when_neither_side_names_a_target() {
    let signal = RendererCrashSignal::from_cdp_event(
        "Inspector.targetCrashed",
        &JsonValue::Object(Vec::new()),
        &Some("page-session-a".to_string()),
        "2026-08-27T12:00:00Z",
    )
    .unwrap();
    let mut by_page = context();
    by_page.target_id = None;
    assert!(renderer_crash_targets_context(&signal, &by_page));
    assert!(!renderer_crash_targets_context(&signal, &context()));

    let observation = correlate_renderer_crash(copy(&signal), &by_page).unwrap();
    assert_eq!(observation.correlation_id, "session-a:request-1:page-session-a");

    let mut without_request = by_page;
    without_request.request_id = String::new();
    let observation = correlate_renderer_crash(signal, &without_request).unwrap();
    assert_eq!(observation.correlation_id, "session-a:2026-08-27T12:00:00Z:page-session-a");
}

fn crash_tab(id: &str, target: &str, handle: bool) -> BrowserTab {
    BrowserTab {
        id: id.to_string(),
        browser_id: "session:session-a".to_string(),
        owner_session_id: None,
        principal_id: None,
        principal_provenance: None,
        lifecycle: TabLifecycle::Ready,
        work_lease_expires_at: None,
        target_id: Some(target.to_string()),
        session_id: Some("session-a".to_string()),
        service_tab_handle: if handle {
            Some(ServiceTabHandle { session_name: None, valid: true, stale_reason: None })
        } else {
            None
        },
    }
}

fn crash_state() -> ServiceState {
    ServiceState {
        state_revision: 0,
        profiles: Vec::new(),
        browsers: Vec::new(),
        sessions: Vec::new(),
        tabs: vec![crash_tab("target:target-a", "target-a", true), crash_tab("target:target-b", "target-b", false)],
        remote_view_routes: Vec::new(),
        runtime_owner_registry: RuntimeOwnerRegistry {
            revision: 0,
            owners: Vec::new(),
            principal_bindings: Vec::new(),
            lifecycle_records: Vec::new(),
        },
        service_principals: ServicePrincipals { principals: Vec::new(), profile_capabilities: Vec::new() },
        profile_lifecycle_authorizations: Vec::new(),
        profile_lifecycle_effect_receipts: Vec::new(),
        profile_lease_reconcile_receipts: Vec::new(),
        viewer_leases: Vec::new(),
        events: Vec::new(),
        profile_recovery_receipts: Vec::new(),
    }
}

fn evidence() -> JsonValue {
    JsonValue::Object(vec![JsonMember { key: "correlationId".to_string(), value: JsonValue::Str("c".to_string()) }])
}

#[test]
fn crash_projection_is_atomic_deduplicated_and_tab_scoped() {
    let mut state = crash_state();
    let signal = crash_event("Inspector.targetCrashed").expect("crash signal");
    let observation = correlate_renderer_crash(signal, &context()).expect("observation");
    let first = project_renderer_crash(&mut state, &observation, evidence()).ok().expect("first projection");
    let second = project_renderer_crash(&mut state, &observation, evidence()).ok().expect("deduplicated projection");
    assert!(!first.duplicate);
    assert!(second.duplicate);

    let crashed = &state.tabs[0];
    assert!(crashed.lifecycle == TabLifecycle::Crashed);
    assert_eq!(crashed.service_tab_handle.as_ref().map(|handle| handle.valid), Some(false));
    assert_eq!(
        crashed.service_tab_handle.as_ref().and_then(|handle| handle.stale_reason.as_deref()),
        Some("tab_crashed")
    );
    assert!(state.tabs[1].lifecycle == TabLifecycle::Ready);
    assert_eq!(state.events.len(), 1);
    assert_eq!(state.events[0].id, first.event_id);
}

#[test]
fn crash_event_records_incident_tab_and_result() {
    let mut state = crash_state();
    let signal = crash_event("Inspector.targetCrashed").expect("crash signal");
    let observation = correlate_renderer_crash(signal, &context()).expect("observation");
    let projected = project_renderer_crash(&mut state, &observation, evidence()).ok().unwrap();
    assert_eq!(projected.tab_id.as_deref(), Some("target:target-a"));
    assert_eq!(projected.incident_id, "renderer-crash:session:session-a:target:target-a");
    assert_eq!(projected.event_id, format!("renderer-crash:{}", observation.correlation_id));
    let event = &state.events[0];
    assert!(event.kind == ServiceEventKind::TabLifecycleChanged);
    assert_eq!(event.message, "Renderer crashed for target:target-a while running 'snapshot'.");
    assert_eq!(event.profile_id.as_deref(), Some("profile-a"));
    assert_eq!(event.session_id.as_deref(), Some("session-a"));
    let details = event.details.as_ref().unwrap();
    assert_eq!(details.field_str("incidentId"), Some("renderer-crash:session:session-a:target:target-a"));
    assert_eq!(details.field_str("tabId"), Some("target:target-a"));
    assert_eq!(details.field_str("result"), Some("target_crashed"));
    assert_eq!(details.field_str("correlationId"), Some("c"));
}

#[test]
fn crash_without_a_tab_is_reported_against_the_target_and_refuses_bad_evidence() {
    let mut state = crash_state();
    state.tabs.clear();
    let signal = crash_event("Inspector.targetCrashed").expect("crash signal");
    let observation = correlate_renderer_crash(signal, &context()).expect("observation");
    assert_eq!(
        project_renderer_crash(&mut state, &observation, JsonValue::Null).err(),
        Some("Renderer crash evidence did not serialize as an object".to_string())
    );
    assert!(state.events.is_empty());
    let projected = project_renderer_crash(&mut state, &observation, evidence()).ok().unwrap();
    assert_eq!(projected.tab_id, None);
    assert_eq!(projected.incident_id, "renderer-crash:session:session-a:target-a");
    assert!(matches!(state.events[0].details.as_ref().unwrap().get("tabId"), Some(JsonValue::Null)));
}
