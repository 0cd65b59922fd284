use agent_browser_service::desktop::{
    reject_desktop_capture_request, reject_desktop_evidence_observe_request,
    reject_desktop_interact_request, reject_desktop_locate_request,
    reject_desktop_prompt_observe_request,
};
use agent_browser_service::json::{JsonMember, JsonValue};
use agent_browser_service::request::ServiceRequestIssueKind;

fn convert(value: &serde_json::Value) -> JsonValue {
    match value {
        serde_json::Value::Null => JsonValue::Null,
        serde_json::Value::Bool(b) => JsonValue::Bool(*b),
        serde_json::Value::Number(n) => match (n.as_u64(), n.as_i64()) {
            (Some(u), _) => JsonValue::UInt(u),
            (None, Some(i)) => JsonValue::NegInt(i),
            _ => JsonValue::Float(n.to_string()),
        },
        serde_json::Value::String(s) => JsonValue::Str(s.clone()),
        serde_json::Value::Array(items) => JsonValue::Array(items.iter().map(convert).collect()),
        serde_json::Value::Object(members) => JsonValue::Object(
            members.iter().map(|(key, value)| JsonMember { key: key.clone(), value: convert(value) }).collect(),
        ),
    }
}

fn json(text: &str) -> JsonValue {
    convert(&serde_json::from_str::<serde_json::Value>(text).expect("fixture JSON"))
}

fn action_of(request: &JsonValue) -> String {
    match request {
        JsonValue::Object(members) => members
            .iter()
            .find(|m| m.key == "action")
            .and_then(|m| match &m.value {
                JsonValue::Str(s) => Some(s.clone()),
                _ => None,
            })
            .unwrap_or_default(),
        _ => String::new(),
    }
}

fn refusal(
    check: fn(&str, &JsonValue) -> Result<(), agent_browser_service::request::ServiceRequestIssue>,
    text: &str,
) -> Option<String> {
    let request = json(text);
    match check(&action_of(&request), &request) {
        Ok(()) => None,
        Err(issue) => {
            assert!(issue.kind == ServiceRequestIssueKind::InvalidBoundedRecipe);
            Some(issue.message().to_string())
        }
    }
}

#[test]
fn desktop_capture_rejects_unbound_or_unsafe_request_fields() {
    let fixtures = [
        (r#"{"action": "desktop_capture", "format": "png"}"#, "desktop_capture requires browserId"),
        (
            r#"{"action": "desktop_capture", "browserId": "browser-1", "format": "jpeg"}"#,
            "desktop_capture format must be png",
        ),
        (
            r#"{"action": "desktop_capture", "browserId": "browser-1", "maxBytes": 16777217}"#,
            "desktop_capture maxBytes must not exceed 16777216",
        ),
        (
            r#"{"action": "desktop_capture", "browserId": "browser-1", "params": {"displayName": ":99"}}"#,
            "desktop_capture does not accept params.displayName",
        ),
        (
            r#"{"action": "desktop_capture", "browserId": "browser-1", "maxBytes": 1024, "params": {"maxBytes": 2048}}"#,
            "desktop_capture has conflicting maxBytes values",
        ),
    ];
    for (request, expected) in fixtures {
        assert_eq!(refusal(reject_desktop_capture_request, request).as_deref(), Some(expected));
    }
    assert_eq!(
        refusal(
            reject_desktop_capture_request,
            r#"{"action": "desktop_capture", "params": {"browserId": "browser-1", "sessionName": "default", "format": "png", "maxBytes": 1024}}"#,
        ),
        None
    );
    assert_eq!(
        refusal(
            reject_desktop_capture_request,
            r#"{"action": "desktop_capture", "browserId": "browser-1", "maxBytes": 1024, "params": {"maxBytes": 1024}}"#,
        ),
        None
    );
    assert_eq!(
        refusal(reject_desktop_capture_request, r#"{"action": "desktop_capture", "browserId": "browser-1", "maxBytes": 0}"#)
            .as_deref(),
        Some("desktop_capture maxBytes must be a positive integer")
    );
    assert_eq!(refusal(reject_desktop_capture_request, r#"{"action": "navigate"}"#), None);
}

#[test]
fn desktop_locate_accepts_only_named_bounded_locator_requests() {
    assert_eq!(
        refusal(
            reject_desktop_locate_request,
            r#"{"action": "desktop_locate", "browserId": "browser-1", "sessionName": "rdp-1",
                "locator": {"locatorId": "p110-control-v1", "maxCandidates": 8}, "includeVisualization": true}"#,
        ),
        None
    );
    let fixtures = [
        (
            r#"{"action": "desktop_locate", "locator": {"locatorId": "p110-control-v1"}}"#,
            "desktop_locate requires browserId",
        ),
        (r#"{"action": "desktop_locate", "browserId": "browser-1"}"#, "desktop_locate requires locator"),
        (
            r#"{"action": "desktop_locate", "browserId": "browser-1", "locator": {"locatorId": ""}}"#,
            "desktop_locate locator requires locatorId",
        ),
        (
            r#"{"action": "desktop_locate", "browserId": "browser-1", "locator": {"locatorId": "p110-control-v1", "maxCandidates": 33}}"#,
            "desktop_locate locator.maxCandidates must be an integer between 1 and 32",
        ),
        (
            r#"{"action": "desktop_locate", "browserId": "browser-1", "locator": {"locatorId": "p110-control-v1", "threshold": 900}}"#,
            "desktop_locate locator does not accept threshold",
        ),
        (
            r#"{"action": "desktop_locate", "browserId": "browser-1", "locator": {"locatorId": "p110-control-v1"}, "params": {"imageBase64": "pixels"}}"#,
            "desktop_locate does not accept params.imageBase64",
        ),
        (
            r#"{"action": "desktop_locate", "browserId": "browser-1", "locator": {"locatorId": "p110-control-v1"}, "cdpUrl": "http://caller.invalid"}"#,
            "desktop_locate does not accept cdpUrl",
        ),
        (
            r#"{"action": "desktop_locate", "browserId": "browser-1", "locator": {"locatorId": "p110-control-v1"}, "uiAction": {"type": "click"}}"#,
            "desktop_locate does not accept uiAction",
        ),
    ];
    for (request, expected) in fixtures {
        assert_eq!(refusal(reject_desktop_locate_request, request).as_deref(), Some(expected));
    }
}

#[test]
fn desktop_interact_requires_one_attributed_named_recipe_without_raw_input() {
    for recipe in ["p110-pointer-keyboard-v1", "p131-controlled-x11-v1", "p110-foundation-stress-v1"] {
        let request = format!(
            r#"{{"action": "desktop_interact", "browserId": "browser-1", "sessionName": "rdp-1", "controllerLeaseId": "lease-1",
                "operationId": "operation-1", "recipe": {{"recipeId": "{recipe}"}}, "serviceName": "DesktopInteractor",
                "agentName": "fixture-agent", "taskName": "verify-synthetic-control"}}"#
        );
        assert_eq!(refusal(reject_desktop_interact_request, &request), None);
    }
    let fixtures = [
        (
            r#"{"action":"desktop_interact","browserId":"browser-1","controllerLeaseId":"lease-1","operationId":"operation-1","recipe":{"recipeId":"p110-pointer-keyboard-v1"},"serviceName":"DesktopInteractor","agentName":"fixture-agent"}"#,
            "desktop_interact requires taskName",
        ),
        (
            r#"{"action":"desktop_interact","browserId":"browser-1","controllerLeaseId":"lease-1","operationId":"operation-1","recipe":{"recipeId":"wrong"},"serviceName":"DesktopInteractor","agentName":"fixture-agent","taskName":"verify"}"#,
            "desktop_interact requires a supported recipeId",
        ),
        (
            r#"{"action":"desktop_interact","browserId":"browser-1","controllerLeaseId":"lease-1","operationId":"operation-1","recipe":{"recipeId":"p110-pointer-keyboard-v1"},"serviceName":"DesktopInteractor","agentName":"fixture-agent","taskName":"verify","params":{}}"#,
            "desktop_interact does not accept params",
        ),
        (
            r#"{"action":"desktop_interact","browserId":"browser-1","controllerLeaseId":"lease-1","operationId":"operation-1","recipe":{"recipeId":"p110-pointer-keyboard-v1","text":"secret"},"serviceName":"DesktopInteractor","agentName":"fixture-agent","taskName":"verify"}"#,
            "desktop_interact recipe does not accept text",
        ),
    ];
    for (request, expected) in fixtures {
        assert_eq!(refusal(reject_desktop_interact_request, request).as_deref(), Some(expected));
    }
}

#[test]
fn desktop_evidence_observe_requires_attributed_named_evidence_need() {
    assert_eq!(
        refusal(
            reject_desktop_evidence_observe_request,
            r#"{"action": "desktop_evidence_observe", "browserId": "browser-1", "episodeId": "episode-1",
                "evidenceSurface": "stacking_or_occlusion", "includeFrame": false, "serviceName": "DesktopEvidence",
                "agentName": "fixture-agent", "taskName": "inspect-stacking"}"#,
        ),
        None
    );
    assert_eq!(
        refusal(
            reject_desktop_evidence_observe_request,
            r##"{"action": "desktop_evidence_observe", "browserId": "browser-1", "episodeId": "episode-2",
                "evidenceSurface": "passkey_chooser",
                "serviceTabHandle": {"browserId":"browser-1","tabId":"tab-1","targetId":"target-1","valid":true},
                "uiAction": {"maxActions":1,"steps":[{"type":"click","selector":"#show-passkeys"}]},
                "serviceName": "DesktopEvidence", "agentName": "fixture-agent", "taskName": "inspect-passkey-chooser"}"##,
        ),
        None
    );
    let fixtures = [
        (
            r#"{"action":"desktop_evidence_observe","browserId":"browser-1","episodeId":"episode-1","evidenceSurface":"stacking_or_occlusion","serviceName":"DesktopEvidence","agentName":"fixture-agent"}"#,
            "desktop_evidence_observe requires taskName",
        ),
        (
            r#"{"action":"desktop_evidence_observe","browserId":"browser-1","episodeId":"episode-1","evidenceSurface":"browser_external_prompt","serviceName":"DesktopEvidence","agentName":"fixture-agent","taskName":"inspect"}"#,
            "desktop_evidence_observe evidenceSurface must be stacking_or_occlusion or passkey_chooser",
        ),
        (
            r#"{"action":"desktop_evidence_observe","browserId":"browser-1","episodeId":"episode-1","evidenceSurface":"stacking_or_occlusion","serviceName":"DesktopEvidence","agentName":"fixture-agent","taskName":"inspect","params":{}}"#,
            "desktop_evidence_observe does not accept params",
        ),
        (
            r#"{"action":"desktop_evidence_observe","browserId":"browser-1","episodeId":"episode-1","evidenceSurface":"stacking_or_occlusion","serviceName":"DesktopEvidence","agentName":"fixture-agent","taskName":"inspect","serviceJobId":"caller-job"}"#,
            "desktop_evidence_observe does not accept serviceJobId",
        ),
        (
            r##"{"action":"desktop_evidence_observe","browserId":"browser-1","episodeId":"episode-1","evidenceSurface":"stacking_or_occlusion","serviceName":"DesktopEvidence","agentName":"fixture-agent","taskName":"inspect","uiAction":{"steps":[]}}"##,
            "desktop_evidence_observe stacking_or_occlusion does not accept serviceTabHandle or uiAction",
        ),
        (
            r##"{"action":"desktop_evidence_observe","browserId":"browser-1","episodeId":"episode-1","evidenceSurface":"passkey_chooser","serviceName":"DesktopEvidence","agentName":"fixture-agent","taskName":"inspect","uiAction":{"steps":[{"type":"click","selector":"#a"}]}}"##,
            "desktop_evidence_observe passkey_chooser requires serviceTabHandle",
        ),
        (
            r##"{"action":"desktop_evidence_observe","browserId":"browser-1","episodeId":"episode-1","evidenceSurface":"passkey_chooser","serviceTabHandle":{"tabId":"tab-1"},"serviceName":"DesktopEvidence","agentName":"fixture-agent","taskName":"inspect","uiAction":{"maxActions":2,"steps":[{"type":"click","selector":"#a"}]}}"##,
            "desktop_evidence_observe passkey_chooser requires exactly one selector-based uiAction click",
        ),
        (
            r##"{"action":"desktop_evidence_observe","browserId":"browser-1","episodeId":"episode-1","evidenceSurface":"stacking_or_occlusion","serviceName":"DesktopEvidence","agentName":"fixture-agent","taskName":"inspect","includeFrame":"yes"}"##,
            "desktop_evidence_observe includeFrame must be a boolean",
        ),
    ];
    for (request, expected) in fixtures {
        assert_eq!(refusal(reject_desktop_evidence_observe_request, request).as_deref(), Some(expected));
    }
}

#[test]
fn desktop_prompt_observe_requires_attributed_top_level_named_profile() {
    assert_eq!(
        refusal(
            reject_desktop_prompt_observe_request,
            r#"{"action": "desktop_prompt_observe", "browserId": "browser-1", "sessionName": "rdp-1",
                "promptProfileId": "p110-external-prompt-v1", "includeVisualization": true,
                "serviceName": "DesktopPromptObserver", "agentName": "fixture-agent", "taskName": "observe-synthetic-prompt"}"#,
        ),
        None
    );
    let fixtures = [
        (
            r#"{"action":"desktop_prompt_observe","browserId":"browser-1","promptProfileId":"p110-external-prompt-v1","serviceName":"DesktopPromptObserver","agentName":"fixture-agent"}"#,
            "desktop_prompt_observe requires taskName",
        ),
        (
            r#"{"action":"desktop_prompt_observe","browserId":"browser-1","promptProfileId":"wrong","serviceName":"DesktopPromptObserver","agentName":"fixture-agent","taskName":"observe"}"#,
            "desktop_prompt_observe requires promptProfileId p110-external-prompt-v1",
        ),
        (
            r#"{"action":"desktop_prompt_observe","browserId":"browser-1","promptProfileId":"p110-external-prompt-v1","serviceName":"DesktopPromptObserver","agentName":"fixture-agent","taskName":"observe","params":{}}"#,
            "desktop_prompt_observe does not accept params",
        ),
        (
            r#"{"action":"desktop_prompt_observe","browserId":"browser-1","promptProfileId":"p110-external-prompt-v1","serviceName":"DesktopPromptObserver","agentName":"fixture-agent","taskName":"observe","promptText":"secret"}"#,
            "desktop_prompt_observe does not accept promptText",
        ),
    ];
    for (request, expected) in fixtures {
        assert_eq!(refusal(reject_desktop_prompt_observe_request, request).as_deref(), Some(expected));
    }
}
