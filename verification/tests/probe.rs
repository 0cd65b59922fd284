use agent_browser_service::json::{json_equal, JsonMember, JsonValue};
use agent_browser_service::probe::{
    normalize_probe_identity, plan_service_probe, probe_freshness_body, probe_freshness_result, probe_freshness_update,
    probe_recipe_fingerprint, probe_target_id,
};
use sha2::Digest;

fn convert(value: &serde_json::Value) -> JsonValue {
    match value {
        serde_json::Value::Null => JsonValue::Null,
        serde_json::Value::Bool(b) => JsonValue::Bool(*b),
        serde_json::Value::Number(n) => match (n.as_u64(), n.as_i64()) {
            (Some(u), _) => JsonValue::UInt(u),
            (None, Some(i)) => JsonValue::NegInt(i),
            _ => JsonValue::Float(n.to_string()),
        },
        serde_json::Value::String(s) => JsonValue::Str(s.clone()),
        serde_json::Value::Array(items) => JsonValue::Array(items.iter().map(convert).collect()),
        serde_json::Value::Object(members) => JsonValue::Object(
            members.iter().map(|(key, value)| JsonMember { key: key.clone(), value: convert(value) }).collect(),
        ),
    }
}

fn json(text: &str) -> JsonValue {
    convert(&serde_json::from_str::<serde_json::Value>(text).expect("fixture JSON"))
}

fn get<'a>(value: &'a JsonValue, key: &str) -> &'a JsonValue {
    value.get(key).unwrap_or_else(|| panic!("missing {key}"))
}

#[test]
fn identity_comes_from_the_first_detector_that_reports_one() {
    let results = vec![
        json(r#"{"id": "title", "ok": true, "result": {"detectedIdentity": "   ", "confidence": " "}}"#),
        json(r#"{"ok": false, "error": "timeout", "evidence": {"confidence": " high "}}"#),
        json(r#"{"id": "account-menu", "result": {"email": "  user@example.test  "}}"#),
        json(r#"{"id": "later", "result": {"detectedIdentity": "other@example.test", "confidence": "low"}}"#),
    ];
    let expected = json(r#""user@example.test""#);
    let identity = normalize_probe_identity(&results, Some(&expected));
    assert!(json_equal(get(&identity, "detectedIdentity"), &json(r#""user@example.test""#)));
    assert!(json_equal(get(&identity, "detectedAccountId"), &json(r#""user@example.test""#)));
    assert!(json_equal(get(&identity, "expectedIdentity"), &expected));
    assert!(json_equal(get(&identity, "confidence"), &json(r#""high""#)));
    assert!(json_equal(get(&identity, "source"), &json(r#""account-menu""#)));
}

#[test]
fn identity_defaults_when_no_detector_reports_one() {
    let results = vec![json(r#"{"ok": true, "result": {"identity": 7}}"#)];
    let identity = normalize_probe_identity(&results, None);
    assert!(json_equal(get(&identity, "detectedIdentity"), &JsonValue::Null));
    assert!(json_equal(get(&identity, "detectedAccountId"), &JsonValue::Null));
    assert!(json_equal(get(&identity, "expectedIdentity"), &JsonValue::Null));
    assert!(json_equal(get(&identity, "confidence"), &json(r#""unknown""#)));
    assert!(json_equal(get(&identity, "source"), &json(r#""probe""#)));

    let anonymous = normalize_probe_identity(&vec![json(r#"{"evidence": {"accountId": "acct-9"}}"#)], None);
    assert!(json_equal(get(&anonymous, "detectedAccountId"), &json(r#""acct-9""#)));
    assert!(json_equal(get(&anonymous, "source"), &json(r#""probe""#)));
}

#[test]
fn probe_plan_bounds_time_output_and_detectors() {
    let plan = plan_service_probe(&json(
        r#"{"serviceTabHandle": {"targetId": "t"}, "timeoutMs": 1000, "probe": {"maxReturnBytes": 64, "detectors": [{}, {}]}}"#,
    ))
    .ok()
    .unwrap();
    assert_eq!(plan.timeout_ms, 1000);
    assert_eq!(plan.max_return_bytes, 64);
    assert_eq!(plan.detector_count, 2);
    assert_eq!(plan.max_detectors, 10);

    let fixtures = [
        (r#"{"probe": {}}"#, "probe requires serviceTabHandle"),
        (r#"{"serviceTabHandle": {}, "probe": []}"#, "probe requires probe object"),
        (r#"{"serviceTabHandle": {}, "probe": {"maxReturnBytes": 1}}"#, "probe requires positive timeoutMs"),
        (r#"{"serviceTabHandle": {}, "timeoutMs": 5, "probe": {}}"#, "probe requires positive maxReturnBytes"),
        (
            r#"{"serviceTabHandle": {}, "timeoutMs": 0, "maxReturnBytes": 5, "probe": {}}"#,
            "probe requires positive timeoutMs and maxReturnBytes",
        ),
        (
            r#"{"serviceTabHandle": {}, "timeoutMs": 5, "maxReturnBytes": 5, "probe": {"detectors": []}}"#,
            "probe requires at least one detector",
        ),
        (
            r#"{"serviceTabHandle": {}, "timeoutMs": 5, "maxReturnBytes": 5, "probe": {"detectors": [{}, {}], "maxDetectors": 0}}"#,
            "probe detector count 2 exceeds maxDetectors 1",
        ),
    ];
    for (text, message) in fixtures {
        assert_eq!(plan_service_probe(&json(text)).err().as_deref(), Some(message), "{text}");
    }
    let many: Vec<String> = (0..30).map(|_| "{}".to_string()).collect();
    let text = format!(
        r#"{{"serviceTabHandle": {{}}, "timeoutMs": 5, "maxReturnBytes": 5, "probe": {{"maxDetectors": 99, "detectors": [{}]}}}}"#,
        many.join(",")
    );
    assert_eq!(plan_service_probe(&json(&text)).err().as_deref(), Some("probe detector count 30 exceeds maxDetectors 25"));

    assert_eq!(probe_target_id(&json(r#"{"serviceTabHandle": {"targetId": "target-1"}}"#)).ok().as_deref(), Some("target-1"));
    assert_eq!(
        probe_target_id(&json(r#"{"serviceTabHandle": {}}"#)).err().as_deref(),
        Some("probe requires serviceTabHandle.targetId")
    );
}

#[test]
fn recipe_fingerprint_is_a_short_digest_of_the_recipe_text() {
    let text = r#"{"detectors":[{"type":"url_title"}],"recipeId":"acs-login"}"#;
    let digest: String = sha2::Sha256::digest(text.as_bytes()).iter().map(|b| format!("{b:02x}")).collect();
    assert_eq!(probe_recipe_fingerprint(text), digest[..16].to_string());
    assert_ne!(probe_recipe_fingerprint(text), probe_recipe_fingerprint("{}"));
}

#[test]
fn freshness_record_needs_target_account_and_profile() {
    let cmd = json(r#"{"targetServiceId": "acs"}"#);
    let handle = json(r#"{"profileId": "work"}"#);
    let identity = json(r#"{"detectedIdentity": "me", "confidence": "high", "source": "menu"}"#);
    assert!(probe_freshness_update(&cmd, &json("{}"), &handle, &identity, "2026-01-01T00:00:00Z").ok().unwrap().is_none());

    let fixtures = [
        (r#"{"recordFreshness": true}"#, "probe recordFreshness must be an object"),
        (r#"{"recordFreshness": {"targetServiceId": " ", "accountId": "a"}}"#, "probe recordFreshness requires targetServiceId"),
        (r#"{"recordFreshness": {}}"#, "probe recordFreshness requires accountId"),
    ];
    for (text, message) in fixtures {
        let error = probe_freshness_update(&cmd, &json(text), &handle, &identity, "t").err();
        assert_eq!(error.as_deref(), Some(message), "{text}");
    }
    let missing_profile =
        probe_freshness_update(&cmd, &json(r#"{"recordFreshness": {"accountId": "a"}}"#), &json("{}"), &identity, "t").err();
    assert_eq!(missing_profile.as_deref(), Some("probe recordFreshness requires profileId"));

    let probe = json(r#"{"recipeId": "acs-login", "recordFreshness": {"accountId": " acct ", "freshnessExpiresAt": "2026-02-01T00:00:00Z"}}"#);
    let update = probe_freshness_update(&cmd, &probe, &handle, &identity, "2026-01-01T00:00:00Z").ok().unwrap().unwrap();
    assert_eq!(update.target_service_id, "acs");
    assert_eq!(update.account_id, " acct ");
    assert_eq!(update.profile_id, "work");
    assert_eq!(update.readiness_state, "fresh");
    assert_eq!(update.recommended_action, "profile_freshness_verified_by_service_probe");
    assert!(update.update_authenticated_service_ids);
    assert!(json_equal(get(&update.evidence, "kind"), &json(r#""service_probe""#)));
    assert!(json_equal(get(&update.evidence, "recipeId"), &json(r#""acs-login""#)));
    assert!(json_equal(get(&update.evidence, "detectedAccountId"), &JsonValue::Null));
    assert!(json_equal(get(&update.evidence, "source"), &json(r#""menu""#)));

    let body = probe_freshness_body(&update, "{\"kind\":\"service_probe\"}");
    assert!(json_equal(get(&body, "readinessEvidence"), &json(r#""{\"kind\":\"service_probe\"}""#)));
    assert!(json_equal(get(&body, "freshnessExpiresAt"), &json(r#""2026-02-01T00:00:00Z""#)));
    assert!(json_equal(get(&body, "lastVerifiedAt"), &json(r#""2026-01-01T00:00:00Z""#)));
    assert!(json_equal(get(&body, "updateAuthenticatedServiceIds"), &json("true")));

    let result = probe_freshness_result(&update, json(r#"{"id": "work"}"#));
    assert!(json_equal(get(&result, "recorded"), &json("true")));
    assert!(json_equal(get(&result, "profileId"), &json(r#""work""#)));
    assert!(json_equal(get(&result, "profile"), &json(r#"{"id": "work"}"#)));
}
