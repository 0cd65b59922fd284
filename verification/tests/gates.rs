use agent_browser_service::gates::{
    reject_stale_monitor_service_request, summary_string_array, validate_safety_gates,
};
use agent_browser_service::json::{JsonMember, JsonValue};
use agent_browser_service::request::ServiceRequestIssueKind;

fn convert(value: &serde_json::Value) -> JsonValue {
    match value {
        serde_json::Value::Null => JsonValue::Null,
        serde_json::Value::Bool(b) => JsonValue::Bool(*b),
        serde_json::Value::Number(n) => match (n.as_u64(), n.as_i64()) {
            (Some(u), _) => JsonValue::UInt(u),
            (None, Some(i)) => JsonValue::NegInt(i),
            _ => JsonValue::Float(n.to_string()),
        },
        serde_json::Value::String(s) => JsonValue::Str(s.clone()),
        serde_json::Value::Array(items) => JsonValue::Array(items.iter().map(convert).collect()),
        serde_json::Value::Object(members) => JsonValue::Object(
            members.iter().map(|(key, value)| JsonMember { key: key.clone(), value: convert(value) }).collect(),
        ),
    }
}

const VALID_HANDLE: &str = r##"{"browserId":"session:default","sessionName":"default","tabId":"target:target-1","targetId":"target-1","valid":true,"staleReason":null}"##;
const STALE_HANDLE: &str = r##"{"browserId":"session:default","sessionName":"default","tabId":"target:target-1","targetId":"target-1","valid":false,"staleReason":"tab_closed"}"##;

fn request(text: &str) -> JsonValue {
    let text = text.replace("$HANDLE", VALID_HANDLE).replace("$STALE", STALE_HANDLE);
    convert(&serde_json::from_str::<serde_json::Value>(&text).expect("fixture JSON"))
}

fn action_of(value: &JsonValue) -> String {
    value.get("action").and_then(|a| a.as_str()).unwrap_or("").to_string()
}

fn gate(text: &str) -> Result<(), (ServiceRequestIssueKind, String)> {
    let value = request(text);
    let action = action_of(&value);
    validate_safety_gates(&action, &value).map_err(|e| (e.kind, e.message().to_string()))
}

#[test]
fn every_supported_action_passes_the_gates_with_a_valid_fixture() {
    let fixtures = [
        r##"{"action":"tab_new"}"##,
        r##"{"action":"navigate"}"##,
        r##"{"action":"external_byop_adopt","runtimeProfile":"external-work","cdpPort":9222}"##,
        r##"{"action":"cdp_attach","cdpAttachmentAllowed":true,"serviceTabHandle":$HANDLE}"##,
        r##"{"action":"evaluate","serviceTabHandle":$HANDLE,"script":"document.title","timeoutMs":1000,"maxReturnBytes":128}"##,
        r##"{"action":"diagnostics","serviceTabHandle":$HANDLE}"##,
        r##"{"action":"desktop_capture","browserId":"browser:desktop-fixture","format":"png","maxBytes":4194304}"##,
        r##"{"action":"desktop_locate","browserId":"browser:desktop-fixture","locator":{"locatorId":"p110-control-v1","maxCandidates":8}}"##,
        r##"{"action":"desktop_evidence_observe","browserId":"browser:desktop-fixture","episodeId":"episode-fixture","evidenceSurface":"stacking_or_occlusion","serviceName":"DesktopEvidence","agentName":"fixture-agent","taskName":"inspect-stacking"}"##,
        r##"{"action":"desktop_interact","browserId":"browser:desktop-fixture","controllerLeaseId":"controller-lease-fixture","operationId":"operation-fixture","recipe":{"recipeId":"p110-pointer-keyboard-v1"},"serviceName":"DesktopInteractor","agentName":"fixture-agent","taskName":"verify-synthetic-control"}"##,
        r##"{"action":"desktop_prompt_observe","browserId":"browser:desktop-fixture","promptProfileId":"p110-external-prompt-v1","serviceName":"DesktopPromptObserver","agentName":"fixture-agent","taskName":"observe-synthetic-prompt"}"##,
        r##"{"action":"probe","serviceTabHandle":$HANDLE,"probe":{"detectors":[{"type":"url_title"}]},"timeoutMs":1000,"maxReturnBytes":128}"##,
        r##"{"action":"tab_handle_refresh","serviceTabHandle":$HANDLE,"repairPolicy":"reject_only"}"##,
        r##"{"action":"ui_action","serviceTabHandle":$HANDLE,"uiAction":{"steps":[{"type":"find"}]},"timeoutMs":1000}"##,
        r##"{"action":"network_capture","serviceTabHandle":$HANDLE,"networkCapture":{"maxEvents":1},"timeoutMs":1000}"##,
        r##"{"action":"file_transfer","serviceTabHandle":$HANDLE,"fileTransfer":{"upload":{"selector":"#file","files":["/tmp/report.txt"],"allowedPaths":["/tmp"],"maxFiles":1}},"timeoutMs":1000}"##,
    ];
    for text in fixtures {
        assert!(gate(text).is_ok(), "{text}: {:?}", gate(text).err().map(|e| e.1));
    }
}

#[test]
fn monitor_freshness_risk_override_and_selected_profile_recommendation_pass() {
    assert!(gate(
        r##"{"action":"tab_new","allowMonitorFreshnessRisk":true,"monitorRunDueSummary":{"matched":0,"expiredTargetServiceIds":["acs"]}}"##
    )
    .is_ok());
    assert!(gate(
        r##"{"action":"tab_new","monitorRunDueSummary":{"matched":2,"failed":true,"recommendedAction":"use_selected_profile"}}"##
    )
    .is_ok());
    let (_, message) = gate(r##"{"action":"tab_new","monitorRunDueSummary":{"matched":2,"failed":true}}"##)
        .err()
        .unwrap();
    assert_eq!(message, "service monitor run-due requires inspection before service request: inspect_monitor_results");
    let value = request(r##"{"monitorRunDueSummary":{"matched":1,"expiredTargetServiceIds":["acs",7,"jstor"]}}"##);
    assert_eq!(
        reject_stale_monitor_service_request(&value).err().unwrap().message(),
        "service monitor run-due found expired profile freshness before service request: acs,jstor"
    );
}

#[test]
fn summary_string_array_keeps_only_string_items_in_order() {
    let value = request(r##"["b", 1, "a", null, "c"]"##);
    assert_eq!(summary_string_array(Some(&value)), vec!["b".to_string(), "a".to_string(), "c".to_string()]);
    assert!(summary_string_array(Some(&request(r##""not an array""##))).is_empty());
    assert!(summary_string_array(None).is_empty());
}
