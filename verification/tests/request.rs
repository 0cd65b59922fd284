use agent_browser_service::json::{JsonMember, JsonValue};
use agent_browser_service::request::{
    derive_service_request_attribution, reject_unexecutable_tab_new_route_intent, validate_field,
    FieldKind, ServiceRequestFallbackPrincipal, ServiceRequestFieldSpec, ServiceRequestIssue,
    ServiceRequestIssueKind, ServiceRequestPrincipalSource, ServiceRequestRejection,
};

fn member(key: &str, value: JsonValue) -> JsonMember {
    JsonMember { key: key.to_string(), value }
}

fn text(value: &str) -> JsonValue {
    JsonValue::Str(value.to_string())
}

#[test]
fn incomplete_labels_fall_back_to_a_trimmed_principal() {
    let request = JsonValue::Object(vec![
        member("action", text("navigate")),
        member("serviceName", text("JournalDownloader")),
        member("agentName", text("   ")),
    ]);
    let attribution = derive_service_request_attribution(
        "request-43",
        &request,
        &Some(ServiceRequestFallbackPrincipal {
            source: ServiceRequestPrincipalSource::AuthenticatedDashboard,
            principal: "  dashboard-admin ".to_string(),
        }),
    )
    .ok()
    .unwrap();
    assert!(attribution.source == ServiceRequestPrincipalSource::AuthenticatedDashboard);
    assert_eq!(attribution.principal, "dashboard-admin");

    let blank = derive_service_request_attribution(
        "request-44",
        &request,
        &Some(ServiceRequestFallbackPrincipal {
            source: ServiceRequestPrincipalSource::AuthenticatedDashboard,
            principal: " ".to_string(),
        }),
    );
    assert!(blank.is_err());
}

#[test]
fn labels_are_trimmed_and_desktop_interact_uses_the_attribution_tuple() {
    let request = JsonValue::Object(vec![
        member("action", text("desktop_interact")),
        member("serviceName", text(" Journal ")),
        member("agentName", text("codex")),
        member("taskName", text("task ")),
    ]);
    let attribution = derive_service_request_attribution("request-45", &request, &None).ok().unwrap();
    assert!(attribution.source == ServiceRequestPrincipalSource::AttributionTupleV1);
    assert_eq!(attribution.principal, "service:Journal/agent:codex/task:task");
}

#[test]
fn blank_request_id_is_refused_before_labels() {
    let request = JsonValue::Object(vec![
        member("serviceName", text("Journal")),
        member("agentName", text("codex")),
        member("taskName", text("task")),
    ]);
    let error = derive_service_request_attribution("  ", &request, &None).err().unwrap();
    assert_eq!(error.message(), "effect-capable service request requires a nonempty request ID");
}

#[test]
fn route_bearing_tab_new_is_rejected_before_job_creation() {
    let request = JsonValue::Object(vec![
        member("action", text("tab_new")),
        member(
            "params",
            JsonValue::Object(vec![
                member("url", text("https://example.test/")),
                member("routePoolEntryId", text("guacamole-rdp-b")),
            ]),
        ),
    ]);
    let error = reject_unexecutable_tab_new_route_intent("tab_new", &request).err().unwrap();
    assert!(error.kind == ServiceRequestIssueKind::InvalidBoundedRecipe);
    assert_eq!(
        error.message(),
        "tab_new cannot execute remote-view route intent; use authenticated remote_view_open to acquire the route and serviceTabHandle"
    );
    assert_eq!(error.code(), "invalid_bounded_recipe");
    let record = ServiceRequestRejection::record("mcp-service-request-tab-new-fixture", error);
    assert_eq!(record.request_id, "mcp-service-request-tab-new-fixture");
    assert_eq!(record.issue.code(), "invalid_bounded_recipe");

    let plain = JsonValue::Object(vec![
        member("action", text("tab_new")),
        member("params", JsonValue::Object(vec![member("url", text("https://example.test/"))])),
    ]);
    assert!(reject_unexecutable_tab_new_route_intent("tab_new", &plain).is_ok());
    assert!(reject_unexecutable_tab_new_route_intent("navigate", &request).is_ok());
    let top_level = JsonValue::Object(vec![member("displayName", text(":7"))]);
    assert!(reject_unexecutable_tab_new_route_intent("tab_new", &top_level).is_err());
}

#[test]
fn issue_codes_name_access_denial_and_route_conflicts() {
    let denied = ServiceRequestIssue::access_denied(ServiceRequestIssueKind::InvalidRequest, "denied");
    assert_eq!(denied.code(), "profile_access_denied");
    for code in ["service_access_plan_route_browser_conflict", "service_access_plan_route_session_conflict"] {
        let conflict = ServiceRequestIssue::new(ServiceRequestIssueKind::RouteHintFailure, code);
        assert_eq!(conflict.code(), code);
    }
    let other = ServiceRequestIssue::new(ServiceRequestIssueKind::RouteHintFailure, "no route");
    assert_eq!(other.code(), "route_hint_failure");
}

#[test]
fn canonical_types_nulls_and_enums_are_checked() {
    let timeout = ServiceRequestFieldSpec::field("timeoutMs", FieldKind::PositiveInteger, true, true, false);
    assert!(validate_field(&timeout, &JsonValue::UInt(5)).is_ok());
    let zero = validate_field(&timeout, &JsonValue::UInt(0)).err().unwrap();
    assert!(zero.kind == ServiceRequestIssueKind::InvalidFieldType);
    assert_eq!(zero.message(), "timeoutMs must be a positive integer");
    let null = validate_field(&timeout, &JsonValue::Null).err().unwrap();
    assert_eq!(null.message(), "timeoutMs must not be null");

    let mode = ServiceRequestFieldSpec::field("mode", FieldKind::Enum(&["read", "write"]), true, true, false);
    assert!(validate_field(&mode, &text("read")).is_ok());
    let bad = validate_field(&mode, &text("delete")).err().unwrap();
    assert!(bad.kind == ServiceRequestIssueKind::InvalidFieldValue);
    assert_eq!(bad.message(), "mode must be one of read, write");

    let targets = ServiceRequestFieldSpec::structural("targetServiceIds", FieldKind::StringArray, true);
    assert!(validate_field(&targets, &JsonValue::Array(vec![text("a"), text("b")])).is_ok());
    let mixed = validate_field(&targets, &JsonValue::Array(vec![text("a"), JsonValue::Bool(true)]))
        .err()
        .unwrap();
    assert_eq!(mixed.message(), "targetServiceIds must be an array of strings");
}
