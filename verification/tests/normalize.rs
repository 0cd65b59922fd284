use agent_browser_service::json::{json_equal, JsonMember, JsonValue};
use agent_browser_service::model::{AuthenticatedServicePrincipal, ServicePrincipalProvenance};
use agent_browser_service::normalize::{
    apply_service_request_attribution, normalize_service_request, operation_principal_id_from_json,
    service_request_fields, NormalizedServiceRequest, ServiceRequestNormalization,
};
use agent_browser_service::request::{
    FieldKind, ServiceRequestFallbackPrincipal, ServiceRequestFieldSpec, ServiceRequestIssue, ServiceRequestIssueKind,
    ServiceRequestPrincipalSource,
};
use sha2::Digest;

const ACTIONS: &[&str] = &[
    "navigate",
    "screenshot",
    "tab_new",
    "view_focus",
    "cdp_attach",
    "external_byop_adopt",
    "evaluate",
    "diagnostics",
    "desktop_capture",
    "desktop_locate",
    "desktop_evidence_observe",
    "desktop_interact",
    "desktop_prompt_observe",
    "probe",
    "tab_handle_refresh",
    "ui_action",
    "network_capture",
    "file_transfer",
    "service_route_pool_repair",
    "service_remote_view_handoff_resolve",
];

const ROUTING_FIELD: &str = "explicitProfileRouting";

const VALID_HANDLE: &str = r#"{"browserId":"session:default","sessionName":"default","tabId":"target:target-1","targetId":"target-1","valid":true,"staleReason":null}"#;
const STALE_HANDLE: &str = r#"{"browserId":"session:default","sessionName":"default","tabId":"target:target-1","targetId":"target-1","valid":false,"staleReason":"tab_closed"}"#;

fn convert(value: &serde_json::Value) -> JsonValue {
    match value {
        serde_json::Value::Null => JsonValue::Null,
        serde_json::Value::Bool(b) => JsonValue::Bool(*b),
        serde_json::Value::Number(n) => match (n.as_u64(), n.as_i64()) {
            (Some(u), _) => JsonValue::UInt(u),
            (None, Some(i)) => JsonValue::NegInt(i),
            _ => JsonValue::Float(n.to_string()),
        },
        serde_json::Value::String(s) => JsonValue::Str(s.clone()),
        serde_json::Value::Array(items) => JsonValue::Array(items.iter().map(convert).collect()),
        serde_json::Value::Object(members) => JsonValue::Object(
            members.iter().map(|(key, value)| JsonMember { key: key.clone(), value: convert(value) }).collect(),
        ),
    }
}

fn json(text: &str) -> JsonValue {
    let text = text.replace("$HANDLE", VALID_HANDLE).replace("$STALE", STALE_HANDLE);
    convert(&serde_json::from_str::<serde_json::Value>(&text).expect("fixture JSON"))
}

fn normalize_with(
    request: &JsonValue,
    authority: Option<&AuthenticatedServicePrincipal>,
    fallback: Option<ServiceRequestFallbackPrincipal>,
    request_id: &str,
) -> Result<NormalizedServiceRequest, ServiceRequestIssue> {
    normalize_service_request(ServiceRequestNormalization {
        request,
        authenticated_principal: authority,
        fallback_principal: fallback,
        request_id,
        effective_session: Some("test-normalizer"),
        supported_actions: ACTIONS,
        explicit_profile_routing_field: ROUTING_FIELD,
    })
}

fn local_fallback() -> Option<ServiceRequestFallbackPrincipal> {
    Some(ServiceRequestFallbackPrincipal {
        source: ServiceRequestPrincipalSource::LocalProcess,
        principal: "local:test-normalizer".to_string(),
    })
}

fn normalize(text: &str) -> Result<NormalizedServiceRequest, ServiceRequestIssue> {
    normalize_with(&json(text), None, local_fallback(), "test-normalizer-request")
}

fn field<'a>(value: &'a JsonValue, key: &str) -> Option<&'a JsonValue> {
    value.get(key)
}

fn same(value: Option<&JsonValue>, expected: &str) -> bool {
    match value {
        Some(v) => json_equal(v, &json(expected)),
        None => false,
    }
}

fn keys(value: &JsonValue) -> Vec<String> {
    let mut names: Vec<String> = match value {
        JsonValue::Object(members) => members.iter().map(|m| m.key.clone()).collect(),
        _ => Vec::new(),
    };
    names.sort();
    names
}

fn role_names(predicate: impl Fn(&ServiceRequestFieldSpec) -> bool) -> Vec<String> {
    let mut names: Vec<String> =
        service_request_fields().iter().filter(|spec| predicate(spec)).map(|spec| spec.name.to_string()).collect();
    names.sort();
    names
}

fn sample_value(spec: &ServiceRequestFieldSpec) -> serde_json::Value {
    match spec.kind {
        FieldKind::String => serde_json::Value::String(format!("{}-value", spec.name)),
        FieldKind::PositiveInteger => serde_json::Value::from(1u64),
        FieldKind::Boolean => serde_json::Value::Bool(false),
        FieldKind::StringArray => {
            serde_json::Value::Array(vec![serde_json::Value::String(format!("{}-value", spec.name))])
        }
        FieldKind::Object => serde_json::Value::Object(serde_json::Map::new()),
        FieldKind::Enum(values) => serde_json::Value::String(values[0].to_string()),
    }
}

#[test]
fn view_focus_records_whether_profile_routing_was_caller_authored() {
    let inherited = normalize(
        r#"{"action": "view_focus", "browserId": "session:retained", "sessionName": "retained", "params": {"targetId": "target-1", "index": 1, "maximize": true}}"#,
    )
    .ok()
    .unwrap();
    assert!(same(field(&inherited.command, ROUTING_FIELD), "false"));

    let explicit = normalize(
        r#"{"action": "view_focus", "browserId": "session:retained", "sessionName": "retained", "runtimeProfile": "caller-selected-profile", "params": {"targetId": "target-1", "index": 1, "maximize": true}}"#,
    )
    .ok()
    .unwrap();
    assert!(same(field(&explicit.command, ROUTING_FIELD), "true"));
}

#[test]
fn effectful_request_without_labels_or_fallback_principal_fails_closed() {
    let request = json(r#"{"action": "navigate", "params": {"url": "https://example.com"}}"#);
    let error = normalize_with(&request, None, None, "http-service-request-navigate-test").err().unwrap();
    assert!(error.kind == ServiceRequestIssueKind::MissingAccountablePrincipal);
    assert_eq!(
        error.message(),
        "effect-capable service request requires serviceName, agentName, and taskName, or an authenticated/local principal with request ID"
    );
}

#[test]
fn complete_explicit_labels_are_the_preferred_accountable_principal() {
    let request = json(
        r#"{"action": "navigate", "serviceName": "JournalDownloader", "agentName": "codex", "taskName": "probeACSwebsite"}"#,
    );
    let mut normalized = normalize_with(
        &request,
        None,
        Some(ServiceRequestFallbackPrincipal {
            source: ServiceRequestPrincipalSource::AuthenticatedDashboard,
            principal: "dashboard-admin".to_string(),
        }),
        "request-42",
    )
    .ok()
    .unwrap();
    assert!(normalized.attribution.source == ServiceRequestPrincipalSource::ExplicitLabels);
    assert_eq!(normalized.attribution.principal, "service:JournalDownloader/agent:codex/task:probeACSwebsite");
    assert_eq!(normalized.attribution.request_id, "request-42");
    apply_service_request_attribution(&mut normalized.command, &normalized.attribution);
    assert!(same(
        field(&normalized.command, "callerId"),
        "\"service:JournalDownloader/agent:codex/task:probeACSwebsite\""
    ));
    assert!(same(field(&normalized.command, "requestId"), "\"request-42\""));
    assert!(same(field(&normalized.command, "requestPrincipalSource"), "\"explicit_labels\""));
}

#[test]
fn authenticated_profile_authority_is_separate_from_caller_labels() {
    let request = json(
        r#"{"action": "navigate", "serviceName": "CallerSuppliedLabel", "agentName": "caller-agent", "taskName": "caller-task"}"#,
    );
    let authority = AuthenticatedServicePrincipal {
        principal_id: "principal:registered-service".to_string(),
        profile_id: "registered-profile".to_string(),
        capability_id: "profile-capability-v1:fixture".to_string(),
        capability_revision: 3,
        provenance: ServicePrincipalProvenance::RegisteredCapability,
    };
    let normalized = normalize_with(&request, Some(&authority), None, "request-with-registered-authority").ok().unwrap();
    assert_eq!(normalized.attribution.principal, "service:CallerSuppliedLabel/agent:caller-agent/task:caller-task");
    let carried = normalized.principal_authority.as_ref().unwrap();
    assert_eq!(carried.principal_id, authority.principal_id);
    assert_eq!(carried.profile_id, authority.profile_id);
    assert_eq!(carried.capability_id, authority.capability_id);
    assert_eq!(carried.capability_revision, authority.capability_revision);
    assert!(carried.provenance == authority.provenance);
    assert!(same(field(&normalized.command, "servicePrincipalId"), "\"principal:registered-service\""));
    assert!(same(field(&normalized.command, "servicePrincipalProvenance"), "\"registered_capability\""));
    assert!(same(field(&normalized.command, "serviceProfileCapabilityId"), "\"profile-capability-v1:fixture\""));
    assert!(same(field(&normalized.command, "serviceProfileCapabilityRevision"), "3"));
    assert!(field(&normalized.command, "profileCapability").is_none());

    let forged = normalize(
        r#"{"action": "navigate", "serviceName": "CallerSuppliedLabel", "agentName": "caller-agent", "taskName": "caller-task", "servicePrincipalId": "principal:registered-service"}"#,
    )
    .err()
    .unwrap();
    assert!(forged.kind == ServiceRequestIssueKind::UnknownField);
    assert_eq!(forged.message(), "unknown service request field: servicePrincipalId");

    let forged_route_authorization = normalize(
        r#"{"action": "tab_new", "serviceProfileRouteAuthorization": {"schemaVersion": "agent-browser.profile-launch-route-authorization.v1", "kind": "authenticated_cold"}}"#,
    )
    .err()
    .unwrap();
    assert!(forged_route_authorization.kind == ServiceRequestIssueKind::UnknownField);
    assert_eq!(
        forged_route_authorization.message(),
        "unknown service request field: serviceProfileRouteAuthorization"
    );
}

#[test]
fn params_are_flattened_with_reserved_fields_protected_and_top_level_precedence() {
    let normalized = normalize(
        r#"{"action": "navigate", "params": {"id": "caller-id", "action": "screenshot", "connectionInstanceId": "caller-connection", "profileChildAccess": {"subjectId": "caller-subject", "permissions": ["profile-admin"]}, "url": "https://params.example", "args": ["--from-params"]}, "url": "https://top.example"}"#,
    )
    .ok()
    .unwrap();
    assert!(field(&normalized.command, "id").is_none());
    assert!(field(&normalized.command, "connectionInstanceId").is_none());
    assert!(field(&normalized.command, "profileChildAccess").is_none());
    assert!(same(field(&normalized.command, "action"), "\"navigate\""));
    assert!(same(field(&normalized.command, "url"), "\"https://top.example\""));
    assert!(same(field(&normalized.command, "args"), r#"["--from-params"]"#));
}

#[test]
fn validation_only_safety_fields_do_not_leak_into_command_or_trace() {
    let normalized = normalize(
        r#"{"action": "navigate", "blockedByManualAction": true, "manualSeedingRequired": true, "allowManualAction": true, "monitorRunDueSummary": {"matched": 1}, "allowMonitorFreshnessRisk": true}"#,
    )
    .ok()
    .unwrap();
    for name in [
        "blockedByManualAction",
        "manualSeedingRequired",
        "allowManualAction",
        "monitorRunDueSummary",
        "allowMonitorFreshnessRisk",
    ] {
        assert!(field(&normalized.command, name).is_none(), "command leaked {name}");
        assert!(field(&normalized.trace, name).is_none(), "trace leaked {name}");
    }
}

#[test]
fn account_and_routing_fields_are_preserved_in_command_and_trace() {
    let normalized = normalize(
        r#"{"action": "navigate", "accountId": "acct", "accountIds": ["acct", "backup"], "browserHost": "remote_headed", "viewStreamProvider": "rdp_gateway", "controlInputProvider": "manual_attached_desktop"}"#,
    )
    .ok()
    .unwrap();
    for name in ["accountId", "accountIds", "browserHost", "viewStreamProvider", "controlInputProvider"] {
        let command = field(&normalized.command, name).unwrap();
        let trace = field(&normalized.trace, name).unwrap();
        assert!(json_equal(command, trace), "{name}");
    }
}

#[test]
fn route_pool_repair_params_project_exact_acquisition_lease_into_command() {
    let normalized = normalize(
        r#"{"action": "service_route_pool_repair", "params": {"acquisitionLeaseId": "lease-terminal", "apply": false, "staleCheckouts": false, "stalePendingAcquisitions": true}}"#,
    )
    .ok()
    .unwrap();
    assert!(same(field(&normalized.command, "acquisitionLeaseId"), "\"lease-terminal\""));
    assert!(same(field(&normalized.command, "apply"), "false"));
    assert!(same(field(&normalized.command, "staleCheckouts"), "false"));
    assert!(same(field(&normalized.command, "stalePendingAcquisitions"), "true"));
}

#[test]
fn service_state_lock_timeout_is_a_canonical_command_and_trace_field() {
    let normalized = normalize(
        r#"{"action": "service_remote_view_handoff_resolve", "serviceStateLockTimeoutMs": 30000, "params": {"handoffId": "handoff-a"}}"#,
    )
    .ok()
    .unwrap();
    assert!(same(field(&normalized.command, "serviceStateLockTimeoutMs"), "30000"));
    assert!(same(field(&normalized.trace, "serviceStateLockTimeoutMs"), "30000"));
}

#[test]
fn canonical_types_nulls_enums_and_unknown_fields_are_rejected() {
    let fixtures = [
        (
            r#"{"action": "navigate", "jobTimeoutMs": "10"}"#,
            ServiceRequestIssueKind::InvalidFieldType,
            "jobTimeoutMs must be a positive integer",
        ),
        (r#"{"action": "navigate", "serviceName": 3}"#, ServiceRequestIssueKind::InvalidFieldType, "serviceName must be a string"),
        (
            r#"{"action": "navigate", "allowDuplicateProfileLane": "true"}"#,
            ServiceRequestIssueKind::InvalidFieldType,
            "allowDuplicateProfileLane must be a boolean",
        ),
        (
            r#"{"action": "navigate", "accountIds": ["ok", 3]}"#,
            ServiceRequestIssueKind::InvalidFieldType,
            "accountIds must be an array of strings",
        ),
        (r#"{"action": "navigate", "params": []}"#, ServiceRequestIssueKind::InvalidFieldType, "params must be a JSON object"),
        (
            r#"{"action": "navigate", "browserHost": "moon"}"#,
            ServiceRequestIssueKind::InvalidFieldValue,
            "browserHost must be one of local_headless, local_headed, docker_headed, remote_headed, cloud_provider, attached_existing",
        ),
        (
            r#"{"action": "navigate", "serviceName": null}"#,
            ServiceRequestIssueKind::InvalidFieldType,
            "serviceName must not be null",
        ),
        (
            r#"{"action": "navigate", "surprise": true}"#,
            ServiceRequestIssueKind::UnknownField,
            "unknown service request field: surprise",
        ),
    ];
    for (text, kind, message) in fixtures {
        let error = normalize(text).err().unwrap();
        assert!(error.kind == kind, "{text}");
        assert_eq!(error.message(), message);
    }

    let invalid_body = normalize("[]").err().unwrap();
    assert!(invalid_body.kind == ServiceRequestIssueKind::InvalidRequest);
    assert_eq!(invalid_body.message(), "service request body must be a JSON object");
    let missing_action = normalize("{}").err().unwrap();
    assert!(missing_action.kind == ServiceRequestIssueKind::MissingAction);
    assert_eq!(missing_action.message(), "service request requires action");
    let unsupported = normalize(r#"{"action": "surprise"}"#).err().unwrap();
    assert!(unsupported.kind == ServiceRequestIssueKind::UnsupportedAction);
    assert_eq!(unsupported.message(), "service request action 'surprise' is not supported");
}

#[test]
fn command_and_trace_projection_exactly_match_the_role_ledger() {
    let mut request = serde_json::Map::new();
    for spec in service_request_fields() {
        if spec.name == "params" {
            continue;
        }
        request.insert(spec.name.to_string(), sample_value(&spec));
    }
    request.insert("action".to_string(), serde_json::Value::String("navigate".to_string()));
    let mut summary = serde_json::Map::new();
    summary.insert("matched".to_string(), serde_json::Value::from(1u64));
    request.insert("monitorRunDueSummary".to_string(), serde_json::Value::Object(summary));
    let request = convert(&serde_json::Value::Object(request));

    let normalized = normalize_with(&request, None, local_fallback(), "test-normalizer-request").ok().unwrap();
    assert_eq!(keys(&normalized.command), role_names(|spec| spec.command));
    assert_eq!(keys(&normalized.trace), role_names(|spec| spec.trace));
}

#[test]
fn ledger_roles_nest_routing_and_trace_inside_command() {
    let fields = service_request_fields();
    assert_eq!(fields.len(), 83);
    assert!(fields.iter().filter(|spec| spec.routing).all(|spec| spec.command));
    assert!(fields.iter().filter(|spec| spec.trace).all(|spec| spec.command));
    assert_eq!(role_names(|spec| spec.structural), vec!["action".to_string(), "params".to_string()]);
    assert_eq!(
        role_names(|spec| !spec.structural && !spec.command && !spec.trace),
        vec![
            "allowManualAction".to_string(),
            "allowMonitorFreshnessRisk".to_string(),
            "blockedByManualAction".to_string(),
            "manualSeedingRequired".to_string(),
            "monitorRunDueSummary".to_string(),
        ]
    );
}

#[test]
fn external_byop_adopt_has_one_endpoint_rule() {
    for text in [
        r#"{"action": "external_byop_adopt", "profileId": "p", "cdpUrl": "http://127.0.0.1:9222"}"#,
        r#"{"action": "external_byop_adopt", "runtimeProfile": "p", "cdpPort": 9222}"#,
    ] {
        assert!(normalize(text).is_ok(), "{text}");
    }
    assert!(normalize(
        r#"{"action": "external_byop_adopt", "profileId": "p", "cdpUrl": "http://127.0.0.1:9222", "cdpPort": 9222}"#
    )
    .is_err());
}

#[test]
fn every_supported_action_has_one_valid_normalizer_fixture() {
    let fixtures = [
        r##"{"action":"navigate"}"##,
        r##"{"action":"tab_new"}"##,
        r##"{"action":"external_byop_adopt","runtimeProfile":"external-work","cdpPort":9222}"##,
        r##"{"action":"cdp_attach","cdpAttachmentAllowed":true,"serviceTabHandle":$HANDLE}"##,
        r##"{"action":"evaluate","serviceTabHandle":$HANDLE,"script":"document.title","timeoutMs":1000,"maxReturnBytes":128}"##,
        r##"{"action":"diagnostics","serviceTabHandle":$HANDLE}"##,
        r##"{"action":"desktop_capture","browserId":"browser:desktop-fixture","format":"png","maxBytes":4194304}"##,
        r##"{"action":"desktop_locate","browserId":"browser:desktop-fixture","locator":{"locatorId":"p110-control-v1","maxCandidates":8}}"##,
        r##"{"action":"desktop_evidence_observe","browserId":"browser:desktop-fixture","episodeId":"episode-fixture","evidenceSurface":"stacking_or_occlusion","serviceName":"DesktopEvidence","agentName":"fixture-agent","taskName":"inspect-stacking"}"##,
        r##"{"action":"desktop_interact","browserId":"browser:desktop-fixture","controllerLeaseId":"controller-lease-fixture","operationId":"operation-fixture","recipe":{"recipeId":"p110-pointer-keyboard-v1"},"serviceName":"DesktopInteractor","agentName":"fixture-agent","taskName":"verify-synthetic-control"}"##,
        r##"{"action":"desktop_prompt_observe","browserId":"browser:desktop-fixture","promptProfileId":"p110-external-prompt-v1","serviceName":"DesktopPromptObserver","agentName":"fixture-agent","taskName":"observe-synthetic-prompt"}"##,
        r##"{"action":"probe","serviceTabHandle":$HANDLE,"probe":{"detectors":[{"type":"url_title"}]},"timeoutMs":1000,"maxReturnBytes":128}"##,
        r##"{"action":"tab_handle_refresh","serviceTabHandle":$HANDLE,"repairPolicy":"reject_only"}"##,
        r##"{"action":"ui_action","serviceTabHandle":$HANDLE,"uiAction":{"steps":[{"type":"find"}]},"timeoutMs":1000}"##,
        r##"{"action":"network_capture","serviceTabHandle":$HANDLE,"networkCapture":{"maxEvents":1},"timeoutMs":1000}"##,
        r##"{"action":"file_transfer","serviceTabHandle":$HANDLE,"fileTransfer":{"upload":{"selector":"#file","files":["/tmp/report.txt"],"allowedPaths":["/tmp"],"maxFiles":1}},"timeoutMs":1000}"##,
    ];
    for text in fixtures {
        let request = json(text);
        let action = request.get("action").and_then(|a| a.as_str()).unwrap().to_string();
        let normalized = match normalize_with(&request, None, local_fallback(), "test-normalizer-request") {
            Ok(n) => n,
            Err(e) => panic!("{action}: {}", e.message()),
        };
        assert!(same(field(&normalized.command, "action"), &format!("\"{action}\"")));
    }
}

#[test]
fn action_rejections_have_exact_issue_kind_and_message() {
    let fixtures = [
        (
            r##"{"action":"tab_new","blockedByManualAction":true,"manualSeedingRequired":true}"##,
            ServiceRequestIssueKind::BlockedManualAction,
            "service request is blocked by manual profile seeding; complete seeding or set allowManualAction=true to override",
        ),
        (
            r##"{"action":"tab_new","requiresCdpFree":true,"cdpAttachmentAllowed":false}"##,
            ServiceRequestIssueKind::ForbiddenCdpExecution,
            "service request requires CDP-free browser operation; non-CDP service request execution is not implemented yet",
        ),
        (
            r##"{"action":"cdp_attach","cdpAttachmentAllowed":false,"serviceTabHandle":$HANDLE}"##,
            ServiceRequestIssueKind::ForbiddenCdpExecution,
            "cdp_attach requires cdpAttachmentAllowed=true from the access-plan decision",
        ),
        (
            r##"{"action":"cdp_attach","cdpAttachmentAllowed":true,"serviceTabHandle":$STALE}"##,
            ServiceRequestIssueKind::InvalidServiceTabHandle,
            "service tab handle is stale: tab_closed",
        ),
        (
            r##"{"action":"external_byop_adopt","cdpPort":9222}"##,
            ServiceRequestIssueKind::InvalidBoundedRecipe,
            "external_byop_adopt requires runtimeProfile or profileId",
        ),
        (
            r##"{"action":"external_byop_adopt","profileId":"p","cdpUrl":"http://127.0.0.1:9222","cdpPort":9222}"##,
            ServiceRequestIssueKind::InvalidBoundedRecipe,
            "external_byop_adopt requires exactly one of cdpUrl or cdpPort",
        ),
        (
            r##"{"action":"evaluate","script":"document.title","timeoutMs":1000,"maxReturnBytes":128}"##,
            ServiceRequestIssueKind::InvalidServiceTabHandle,
            "evaluate requires serviceTabHandle",
        ),
        (
            r##"{"action":"evaluate","serviceTabHandle":$HANDLE,"timeoutMs":1000,"maxReturnBytes":128}"##,
            ServiceRequestIssueKind::InvalidBoundedRecipe,
            "evaluate requires script or expression",
        ),
        (
            r##"{"action":"evaluate","serviceTabHandle":$HANDLE,"script":"x","returnByValue":false,"timeoutMs":1000,"maxReturnBytes":128}"##,
            ServiceRequestIssueKind::InvalidBoundedRecipe,
            "evaluate requires returnByValue=true so results can be capped",
        ),
        (
            r##"{"action":"diagnostics"}"##,
            ServiceRequestIssueKind::InvalidServiceTabHandle,
            "diagnostics requires serviceTabHandle",
        ),
        (
            r##"{"action":"probe","serviceTabHandle":$HANDLE,"probe":{"detectors":[]},"timeoutMs":1000,"maxReturnBytes":128}"##,
            ServiceRequestIssueKind::InvalidBoundedRecipe,
            "probe requires at least one detector",
        ),
        (
            r##"{"action":"probe","serviceTabHandle":$HANDLE,"probe":{"detectors":[{}]},"timeoutMs":1000}"##,
            ServiceRequestIssueKind::InvalidBoundedRecipe,
            "probe requires positive maxReturnBytes",
        ),
        (
            r##"{"action":"tab_handle_refresh"}"##,
            ServiceRequestIssueKind::InvalidServiceTabHandle,
            "tab_handle_refresh requires serviceTabHandle",
        ),
        (
            r##"{"action":"ui_action","serviceTabHandle":$HANDLE,"uiAction":{"steps":[]},"timeoutMs":1000}"##,
            ServiceRequestIssueKind::InvalidBoundedRecipe,
            "ui_action requires at least one step",
        ),
        (
            r##"{"action":"ui_action","serviceTabHandle":$HANDLE,"uiAction":{"steps":[{}]}}"##,
            ServiceRequestIssueKind::InvalidBoundedRecipe,
            "ui_action requires positive timeoutMs",
        ),
        (
            r##"{"action":"network_capture","serviceTabHandle":$HANDLE,"networkCapture":{"maxEvents":1}}"##,
            ServiceRequestIssueKind::InvalidBoundedRecipe,
            "network_capture requires positive timeoutMs",
        ),
        (
            r##"{"action":"network_capture","serviceTabHandle":$HANDLE,"networkCapture":{},"timeoutMs":1000}"##,
            ServiceRequestIssueKind::InvalidBoundedRecipe,
            "network_capture requires positive networkCapture.maxEvents",
        ),
        (
            r##"{"action":"network_capture","serviceTabHandle":$HANDLE,"networkCapture":{"maxEvents":1,"captureBodies":true},"timeoutMs":1000}"##,
            ServiceRequestIssueKind::InvalidBoundedRecipe,
            "network_capture captureBodies requires positive maxBodyBytes",
        ),
        (
            r##"{"action":"file_transfer","serviceTabHandle":$HANDLE,"fileTransfer":{"upload":{}},"timeoutMs":1000}"##,
            ServiceRequestIssueKind::InvalidBoundedRecipe,
            "file_transfer upload requires selector or labelText",
        ),
        (
            r##"{"action":"file_transfer","serviceTabHandle":$HANDLE,"fileTransfer":{"upload":{"selector":"#file","files":["/tmp/a"],"maxFiles":1}},"timeoutMs":1000}"##,
            ServiceRequestIssueKind::InvalidBoundedRecipe,
            "file_transfer upload allowedPaths must be a nonempty string array",
        ),
        (
            r##"{"action":"tab_new","monitorRunDueSummary":{"matched":1,"expiredTargetServiceIds":["acs"]}}"##,
            ServiceRequestIssueKind::StaleMonitorEvidence,
            "service monitor run-due found expired profile freshness before service request: acs",
        ),
        (
            r##"{"action":"tab_new","monitorRunDueSummary":{"matched":1,"unverifiedTargetServiceIds":["acs"]}}"##,
            ServiceRequestIssueKind::StaleMonitorEvidence,
            "service monitor run-due could not verify profile freshness before service request: acs",
        ),
        (
            r##"{"action":"tab_new","monitorRunDueSummary":{"matched":0,"recommendedAction":"inspect_monitor_results"}}"##,
            ServiceRequestIssueKind::StaleMonitorEvidence,
            "service monitor run-due requires inspection before service request: inspect_monitor_results",
        ),
    ];
    for (text, kind, message) in fixtures {
        let error = normalize(text).err().unwrap_or_else(|| panic!("accepted: {text}"));
        assert!(error.kind == kind, "{text}");
        assert_eq!(error.message(), message);
    }
}

#[test]
fn common_safety_gate_order_is_stable() {
    let canonical_before_safety = normalize(
        r#"{"action": "tab_new", "jobTimeoutMs": "1000", "blockedByManualAction": true, "manualSeedingRequired": true}"#,
    )
    .err()
    .unwrap();
    assert!(canonical_before_safety.kind == ServiceRequestIssueKind::InvalidFieldType);

    let manual_before_cdp = normalize(
        r#"{"action": "tab_new", "blockedByManualAction": true, "manualSeedingRequired": true, "requiresCdpFree": true, "cdpAttachmentAllowed": false}"#,
    )
    .err()
    .unwrap();
    assert!(manual_before_cdp.kind == ServiceRequestIssueKind::BlockedManualAction);

    let manual_before_structural_params = normalize(
        r#"{"action": "tab_new", "params": [], "blockedByManualAction": true, "manualSeedingRequired": true}"#,
    )
    .err()
    .unwrap();
    assert!(manual_before_structural_params.kind == ServiceRequestIssueKind::BlockedManualAction);

    let cdp_before_action = normalize(
        r#"{"action": "cdp_attach", "requiresCdpFree": true, "cdpAttachmentAllowed": false, "serviceTabHandle": $STALE, "monitorRunDueSummary": {"matched": 0}}"#,
    )
    .err()
    .unwrap();
    assert!(cdp_before_action.kind == ServiceRequestIssueKind::ForbiddenCdpExecution);
    assert_eq!(
        cdp_before_action.message(),
        "service request requires CDP-free browser operation; non-CDP service request execution is not implemented yet"
    );
}

#[test]
fn desktop_interact_command_carries_a_stable_operation_principal() {
    let request = r#"{"action": "desktop_interact", "browserId": "browser-1", "sessionName": "rdp-1", "controllerLeaseId": "lease-1", "operationId": "operation-1", "recipe": {"recipeId": "p110-pointer-keyboard-v1"}, "serviceName": "DesktopInteractor", "agentName": "fixture-agent", "taskName": "verify-synthetic-control"}"#;
    let normalized = normalize(request).ok().unwrap();
    assert!(same(field(&normalized.command, "action"), "\"desktop_interact\""));
    assert!(same(field(&normalized.command, "controllerLeaseId"), "\"lease-1\""));
    assert!(same(field(&normalized.command, "operationId"), "\"operation-1\""));
    assert!(normalized.attribution.source == ServiceRequestPrincipalSource::AttributionTupleV1);

    let tuple = serde_json::to_string(&["DesktopInteractor", "fixture-agent", "verify-synthetic-control"]).unwrap();
    let digest: String =
        sha2::Sha256::digest(tuple.as_bytes()).iter().map(|b| format!("{b:02x}")).collect();
    let expected = format!("operation-principal-v1:{digest}");
    assert_eq!(operation_principal_id_from_json(&tuple), expected);
    let id = field(&normalized.command, "operationPrincipalId").and_then(|v| v.as_str()).unwrap();
    assert_eq!(id, expected);

    let same_scope = normalize(
        r#"{"action": "desktop_interact", "browserId": "browser-1", "sessionName": "rdp-1", "controllerLeaseId": "lease-1", "operationId": "another-operation", "recipe": {"recipeId": "p110-foundation-stress-v1"}, "serviceName": "DesktopInteractor", "agentName": "fixture-agent", "taskName": "verify-synthetic-control"}"#,
    )
    .ok()
    .unwrap();
    assert!(same(field(&same_scope.command, "operationPrincipalId"), &format!("\"{expected}\"")));
    let changed = normalize(
        r#"{"action": "desktop_interact", "browserId": "browser-1", "sessionName": "rdp-1", "controllerLeaseId": "lease-1", "operationId": "operation-1", "recipe": {"recipeId": "p110-pointer-keyboard-v1"}, "serviceName": "DesktopInteractor", "agentName": "fixture-agent", "taskName": "different-task"}"#,
    )
    .ok()
    .unwrap();
    assert!(!same(field(&changed.command, "operationPrincipalId"), &format!("\"{expected}\"")));
}

#[test]
fn desktop_interact_without_a_session_takes_the_effective_route() {
    let request = json(
        r#"{"action": "desktop_interact", "browserId": "browser-1", "controllerLeaseId": "lease-1", "operationId": "operation-1", "recipe": {"recipeId": "p110-pointer-keyboard-v1"}, "serviceName": "DesktopInteractor", "agentName": "fixture-agent", "taskName": "verify"}"#,
    );
    let normalized = normalize_with(&request, None, local_fallback(), "request-1").ok().unwrap();
    assert!(same(field(&normalized.command, "sessionName"), "\"test-normalizer\""));

    let without_route = normalize_service_request(ServiceRequestNormalization {
        request: &request,
        authenticated_principal: None,
        fallback_principal: local_fallback(),
        request_id: "request-1",
        effective_session: Some("   "),
        supported_actions: ACTIONS,
        explicit_profile_routing_field: ROUTING_FIELD,
    })
    .err()
    .unwrap();
    assert!(without_route.kind == ServiceRequestIssueKind::InvalidBoundedRecipe);
    assert_eq!(without_route.message(), "desktop_interact requires an effective session route");
}

#[test]
fn trace_names_the_labels_even_when_absent() {
    let normalized = normalize(r#"{"action": "navigate", "url": "https://example.test"}"#).ok().unwrap();
    assert!(same(field(&normalized.trace, "serviceName"), "null"));
    assert!(same(field(&normalized.trace, "agentName"), "null"));
    assert!(same(field(&normalized.trace, "taskName"), "null"));
    assert!(same(field(&normalized.trace, "url"), "\"https://example.test\""));
    assert!(field(&normalized.trace, "action").is_none());
    assert_eq!(keys(&normalized.command), vec!["action".to_string(), "url".to_string()]);
}
