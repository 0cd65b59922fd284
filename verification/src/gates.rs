//! The common safety gates every service request passes before dispatch,
//! in their fixed order.

use vstd::prelude::*;
use crate::desktop::{
    desktop_capture_refusal, desktop_evidence_refusal, desktop_interact_refusal, desktop_locate_refusal,
    desktop_prompt_refusal, nonblank_string, reject_desktop_capture_request, reject_desktop_evidence_observe_request,
    reject_desktop_interact_request, reject_desktop_locate_request, reject_desktop_prompt_observe_request,
};
use crate::json::{field_bool, field_str, field_u64, json_get, json_str, json_u64, JsonValue};
use crate::provenance::{join, join_strings};
use crate::request::{
    carries_route_intent, first_value, issue, network_capture_refusal, reject_service_network_capture_request,
    reject_unexecutable_tab_new_route_intent, tab_handle_refusal, u64_or_zero, validate_service_tab_handle,
    ServiceRequestIssue, ServiceRequestIssueKind, TAB_NEW_ROUTE_INTENT_MESSAGE,
};
use crate::text::{concat2, is_blank, owned, str_equal, strs, trim};

verus! {

/// A refusal: its kind and message.
pub type Refusal = Option<(ServiceRequestIssueKind, Seq<char>)>;

/// Whether an issue is the given refusal, raised by no access decision.
pub open spec fn issue_is(e: ServiceRequestIssue, refusal: Refusal) -> bool {
    !e.denied_by_access() && refusal == Some((e.spec_kind(), e.message_view()))
}

/// A bounded-recipe refusal with `message`.
pub open spec fn bounded(message: Option<Seq<char>>) -> Refusal {
    match message {
        Some(m) => Some((ServiceRequestIssueKind::InvalidBoundedRecipe, m)),
        None => None,
    }
}

/// Why manual profile seeding blocks a request, if it does.
pub open spec fn blocked_manual_refusal(request: JsonValue) -> Refusal {
    if field_bool(request, "blockedByManualAction"@) == Some(true) && field_bool(request, "manualSeedingRequired"@)
        == Some(true) && field_bool(request, "allowManualAction"@) != Some(true) {
        Some(
            (
                ServiceRequestIssueKind::BlockedManualAction,
                "service request is blocked by manual profile seeding; complete seeding or set allowManualAction=true to override"@,
            ),
        )
    } else {
        None
    }
}

/// Refuses a request that manual profile seeding blocks, unless overridden.
pub fn reject_blocked_manual_service_request(request: &JsonValue) -> (r: Result<(), ServiceRequestIssue>)
    ensures
        match r {
            Ok(()) => blocked_manual_refusal(*request) is None,
            Err(e) => issue_is(e, blocked_manual_refusal(*request)),
        },
{
    if request.field_bool("blockedByManualAction") == Some(true) && request.field_bool("manualSeedingRequired") == Some(
        true,
    ) && request.field_bool("allowManualAction") != Some(true) {
        return Err(
            issue(
                ServiceRequestIssueKind::BlockedManualAction,
                "service request is blocked by manual profile seeding; complete seeding or set allowManualAction=true to override",
            ),
        );
    }
    Ok(())
}

/// Why a CDP-free requirement refuses a request, if it does.
pub open spec fn cdp_free_refusal(action: Seq<char>, request: JsonValue) -> Refusal {
    if action != "cdp_free_launch"@ && field_bool(request, "requiresCdpFree"@) == Some(true) && field_bool(
        request,
        "cdpAttachmentAllowed"@,
    ) != Some(true) {
        Some(
            (
                ServiceRequestIssueKind::ForbiddenCdpExecution,
                "service request requires CDP-free browser operation; non-CDP service request execution is not implemented yet"@,
            ),
        )
    } else {
        None
    }
}

/// Refuses CDP execution for a request that requires a CDP-free browser.
pub fn reject_cdp_free_service_request(action: &str, request: &JsonValue) -> (r: Result<(), ServiceRequestIssue>)
    ensures
        match r {
            Ok(()) => cdp_free_refusal(action@, *request) is None,
            Err(e) => issue_is(e, cdp_free_refusal(action@, *request)),
        },
{
    if !str_equal(action, "cdp_free_launch") && request.field_bool("requiresCdpFree") == Some(true)
        && request.field_bool("cdpAttachmentAllowed") != Some(true) {
        return Err(
            issue(
                ServiceRequestIssueKind::ForbiddenCdpExecution,
                "service request requires CDP-free browser operation; non-CDP service request execution is not implemented yet",
            ),
        );
    }
    Ok(())
}

/// Why a `cdp_attach` request is refused, if it is.
pub open spec fn cdp_attach_refusal(action: Seq<char>, request: JsonValue) -> Refusal {
    if action != "cdp_attach"@ {
        None
    } else if field_bool(request, "cdpAttachmentAllowed"@) != Some(true) {
        Some(
            (
                ServiceRequestIssueKind::ForbiddenCdpExecution,
                "cdp_attach requires cdpAttachmentAllowed=true from the access-plan decision"@,
            ),
        )
    } else {
        tab_handle_refusal(request, action, true)
    }
}

/// Refuses `cdp_attach` without the access plan's consent and a targeted tab handle.
pub fn reject_cdp_attach_service_request(action: &str, request: &JsonValue) -> (r: Result<(), ServiceRequestIssue>)
    ensures
        match r {
            Ok(()) => cdp_attach_refusal(action@, *request) is None,
            Err(e) => issue_is(e, cdp_attach_refusal(action@, *request)),
        },
{
    if !str_equal(action, "cdp_attach") {
        return Ok(());
    }
    if request.field_bool("cdpAttachmentAllowed") != Some(true) {
        return Err(
            issue(
                ServiceRequestIssueKind::ForbiddenCdpExecution,
                "cdp_attach requires cdpAttachmentAllowed=true from the access-plan decision",
            ),
        );
    }
    validate_service_tab_handle(request, action, true)
}

/// Why an `external_byop_adopt` request is refused, if it is: it names a
/// profile and exactly one of a CDP URL and a CDP port.
pub open spec fn byop_adopt_refusal(action: Seq<char>, request: JsonValue) -> Refusal {
    let profile = first_value(json_get(request, "runtimeProfile"@), json_get(request, "profileId"@));
    let has_url = field_str(request, "cdpUrl"@) matches Some(u) && trim(u).len() > 0;
    let has_port = field_u64(request, "cdpPort"@) is Some;
    if action != "external_byop_adopt"@ {
        None
    } else if !(profile matches Some(p) && nonblank_string(p)) {
        Some((ServiceRequestIssueKind::InvalidBoundedRecipe, "external_byop_adopt requires runtimeProfile or profileId"@))
    } else if has_url == has_port {
        Some((ServiceRequestIssueKind::InvalidBoundedRecipe, "external_byop_adopt requires exactly one of cdpUrl or cdpPort"@))
    } else {
        None
    }
}

/// Whether an optional value is a string that is not blank.
fn present_nonblank(v: Option<&JsonValue>) -> (r: bool)
    ensures
        r == (match v {
            Some(x) => nonblank_string(*x),
            None => false,
        }),
{
    match v {
        Some(x) => match x.as_str() {
            Some(s) => !is_blank(s),
            None => false,
        },
        None => false,
    }
}

/// Refuses an external browser adoption without one profile and one endpoint.
pub fn reject_external_byop_adopt_request(action: &str, request: &JsonValue) -> (r: Result<(), ServiceRequestIssue>)
    ensures
        match r {
            Ok(()) => byop_adopt_refusal(action@, *request) is None,
            Err(e) => issue_is(e, byop_adopt_refusal(action@, *request)),
        },
{
    if !str_equal(action, "external_byop_adopt") {
        return Ok(());
    }
    let profile = match request.get("runtimeProfile") {
        Some(p) => Some(p),
        None => request.get("profileId"),
    };
    if !present_nonblank(profile) {
        return Err(
            issue(ServiceRequestIssueKind::InvalidBoundedRecipe, "external_byop_adopt requires runtimeProfile or profileId"),
        );
    }
    let has_url = match request.field_str("cdpUrl") {
        Some(u) => !is_blank(u),
        None => false,
    };
    let has_port = request.field_u64("cdpPort").is_some();
    if has_url == has_port {
        return Err(
            issue(
                ServiceRequestIssueKind::InvalidBoundedRecipe,
                "external_byop_adopt requires exactly one of cdpUrl or cdpPort",
            ),
        );
    }
    Ok(())
}

/// Why the tab-creation route gate refuses a request, if it does.
pub open spec fn tab_new_refusal(action: Seq<char>, request: JsonValue) -> Refusal {
    if action == "tab_new"@ && carries_route_intent(request) {
        Some((ServiceRequestIssueKind::InvalidBoundedRecipe, TAB_NEW_ROUTE_INTENT_MESSAGE@))
    } else {
        None
    }
}

/// Why an `evaluate` request is refused, if it is: a targeted tab handle, a
/// nonempty script or expression, results returned by value, and a timeout
/// and return size given as numbers.
pub open spec fn evaluate_refusal(action: Seq<char>, request: JsonValue) -> Refusal {
    let script = first_value(json_get(request, "script"@), json_get(request, "expression"@));
    if action != "evaluate"@ {
        None
    } else if tab_handle_refusal(request, action, true) is Some {
        tab_handle_refusal(request, action, true)
    } else if !(script matches Some(s) && json_str(s) matches Some(t) && t.len() > 0) {
        Some((ServiceRequestIssueKind::InvalidBoundedRecipe, "evaluate requires script or expression"@))
    } else if field_bool(request, "returnByValue"@) == Some(false) {
        Some((ServiceRequestIssueKind::InvalidBoundedRecipe, "evaluate requires returnByValue=true so results can be capped"@))
    } else if field_u64(request, "timeoutMs"@) is None {
        Some((ServiceRequestIssueKind::InvalidBoundedRecipe, "evaluate requires positive timeoutMs"@))
    } else if field_u64(request, "maxReturnBytes"@) is None {
        Some((ServiceRequestIssueKind::InvalidBoundedRecipe, "evaluate requires positive maxReturnBytes"@))
    } else {
        None
    }
}

/// Refuses an `evaluate` request that is not bounded.
pub fn reject_bounded_evaluate_service_request(action: &str, request: &JsonValue) -> (r: Result<(), ServiceRequestIssue>)
    ensures
        match r {
            Ok(()) => evaluate_refusal(action@, *request) is None,
            Err(e) => issue_is(e, evaluate_refusal(action@, *request)),
        },
{
    if !str_equal(action, "evaluate") {
        return Ok(());
    }
    match validate_service_tab_handle(request, action, true) {
        Ok(()) => {},
        Err(e) => return Err(e),
    }
    let script = match request.get("script") {
        Some(s) => Some(s),
        None => request.get("expression"),
    };
    let has_script = match script {
        Some(s) => match s.as_str() {
            Some(t) => !t.is_empty(),
            None => false,
        },
        None => false,
    };
    if !has_script {
        return Err(issue(ServiceRequestIssueKind::InvalidBoundedRecipe, "evaluate requires script or expression"));
    }
    if request.field_bool("returnByValue") == Some(false) {
        return Err(
            issue(ServiceRequestIssueKind::InvalidBoundedRecipe, "evaluate requires returnByValue=true so results can be capped"),
        );
    }
    if request.field_u64("timeoutMs").is_none() {
        return Err(issue(ServiceRequestIssueKind::InvalidBoundedRecipe, "evaluate requires positive timeoutMs"));
    }
    if request.field_u64("maxReturnBytes").is_none() {
        return Err(issue(ServiceRequestIssueKind::InvalidBoundedRecipe, "evaluate requires positive maxReturnBytes"));
    }
    Ok(())
}

/// Why a `diagnostics` request is refused, if it is: a valid tab handle.
pub open spec fn diagnostics_refusal(action: Seq<char>, request: JsonValue) -> Refusal {
    if action == "diagnostics"@ {
        tab_handle_refusal(request, action, false)
    } else {
        None
    }
}

/// Refuses a `diagnostics` request without a valid tab handle.
pub fn reject_service_diagnostics_request(action: &str, request: &JsonValue) -> (r: Result<(), ServiceRequestIssue>)
    ensures
        match r {
            Ok(()) => diagnostics_refusal(action@, *request) is None,
            Err(e) => issue_is(e, diagnostics_refusal(action@, *request)),
        },
{
    if str_equal(action, "diagnostics") {
        return validate_service_tab_handle(request, action, false);
    }
    Ok(())
}

/// Why a `probe` request is refused, if it is: a targeted tab handle, a
/// recipe object with at least one detector, a positive timeout and return
/// size (from the request, else the recipe), and a freshness record that
/// names its target service and account.
pub open spec fn probe_refusal(action: Seq<char>, request: JsonValue) -> Refusal {
    if action != "probe"@ {
        None
    } else if tab_handle_refusal(request, action, true) is Some {
        tab_handle_refusal(request, action, true)
    } else {
        match json_get(request, "probe"@) {
            Some(recipe) => if !(recipe is Object) {
                Some((ServiceRequestIssueKind::InvalidBoundedRecipe, "probe requires probe recipe object"@))
            } else if !(json_get(recipe, "detectors"@) matches Some(JsonValue::Array(d)) && d@.len() > 0) {
                Some((ServiceRequestIssueKind::InvalidBoundedRecipe, "probe requires at least one detector"@))
            } else if u64_or_zero(first_value(json_get(request, "timeoutMs"@), json_get(recipe, "timeoutMs"@))) == 0 {
                Some((ServiceRequestIssueKind::InvalidBoundedRecipe, "probe requires positive timeoutMs"@))
            } else if u64_or_zero(first_value(json_get(request, "maxReturnBytes"@), json_get(recipe, "maxReturnBytes"@)))
                == 0 {
                Some((ServiceRequestIssueKind::InvalidBoundedRecipe, "probe requires positive maxReturnBytes"@))
            } else {
                match json_get(recipe, "recordFreshness"@) {
                    Some(record) => if !(record is Object) {
                        Some((ServiceRequestIssueKind::InvalidBoundedRecipe, "probe.recordFreshness must be an object"@))
                    } else if !(field_str(record, "targetServiceId"@) matches Some(t) && t.len() > 0) {
                        Some(
                            (
                                ServiceRequestIssueKind::InvalidBoundedRecipe,
                                "probe.recordFreshness requires targetServiceId"@,
                            ),
                        )
                    } else if !(field_str(record, "accountId"@) matches Some(a) && a.len() > 0) {
                        Some((ServiceRequestIssueKind::InvalidBoundedRecipe, "probe.recordFreshness requires accountId"@))
                    } else {
                        None
                    },
                    None => None,
                }
            },
            None => Some((ServiceRequestIssueKind::InvalidBoundedRecipe, "probe requires probe recipe object"@)),
        }
    }
}

/// The number of the first present value, zero unless it is an unsigned integer.
fn first_number(a: Option<&JsonValue>, b: Option<&JsonValue>) -> (r: u64)
    ensures
        r == u64_or_zero(
            first_value(
                match a {
                    Some(v) => Some(*v),
                    None => None,
                },
                match b {
                    Some(v) => Some(*v),
                    None => None,
                },
            ),
        ),
{
    let v = match a {
        Some(x) => Some(x),
        None => b,
    };
    match v {
        Some(x) => match x.as_u64() {
            Some(n) => n,
            None => 0,
        },
        None => 0,
    }
}

/// Whether a string field is present and not empty.
fn has_text(v: &JsonValue, key: &str) -> (r: bool)
    ensures
        r == (field_str(*v, key@) matches Some(t) && t.len() > 0),
{
    match v.field_str(key) {
        Some(t) => !t.is_empty(),
        None => false,
    }
}

/// Refuses a `probe` request that is not a bounded detector recipe.
#[verifier::rlimit(40)]
pub fn reject_service_probe_request(action: &str, request: &JsonValue) -> (r: Result<(), ServiceRequestIssue>)
    ensures
        match r {
            Ok(()) => probe_refusal(action@, *request) is None,
            Err(e) => issue_is(e, probe_refusal(action@, *request)),
        },
{
    if !str_equal(action, "probe") {
        return Ok(());
    }
    match validate_service_tab_handle(request, action, true) {
        Ok(()) => {},
        Err(e) => return Err(e),
    }
    let recipe = match request.get("probe") {
        Some(r) => match r {
            JsonValue::Object(_) => r,
            _ => return Err(issue(ServiceRequestIssueKind::InvalidBoundedRecipe, "probe requires probe recipe object")),
        },
        None => return Err(issue(ServiceRequestIssueKind::InvalidBoundedRecipe, "probe requires probe recipe object")),
    };
    let has_detectors = match recipe.get("detectors") {
        Some(JsonValue::Array(d)) => d.len() > 0,
        _ => false,
    };
    if !has_detectors {
        return Err(issue(ServiceRequestIssueKind::InvalidBoundedRecipe, "probe requires at least one detector"));
    }
    if first_number(request.get("timeoutMs"), recipe.get("timeoutMs")) == 0 {
        return Err(issue(ServiceRequestIssueKind::InvalidBoundedRecipe, "probe requires positive timeoutMs"));
    }
    if first_number(request.get("maxReturnBytes"), recipe.get("maxReturnBytes")) == 0 {
        return Err(issue(ServiceRequestIssueKind::InvalidBoundedRecipe, "probe requires positive maxReturnBytes"));
    }
    if let Some(record) = recipe.get("recordFreshness") {
        if !matches!(record, JsonValue::Object(_)) {
            return Err(issue(ServiceRequestIssueKind::InvalidBoundedRecipe, "probe.recordFreshness must be an object"));
        }
        if !has_text(record, "targetServiceId") {
            return Err(
                issue(ServiceRequestIssueKind::InvalidBoundedRecipe, "probe.recordFreshness requires targetServiceId"),
            );
        }
        if !has_text(record, "accountId") {
            return Err(issue(ServiceRequestIssueKind::InvalidBoundedRecipe, "probe.recordFreshness requires accountId"));
        }
    }
    Ok(())
}

/// Why a `tab_handle_refresh` request is refused, if it is.
pub open spec fn tab_refresh_refusal(action: Seq<char>, request: JsonValue) -> Refusal {
    if action != "tab_handle_refresh"@ {
        None
    } else {
        match json_get(request, "serviceTabHandle"@) {
            Some(handle) => if !(handle is Object) {
                Some((ServiceRequestIssueKind::InvalidServiceTabHandle, "tab_handle_refresh requires serviceTabHandle"@))
            } else if field_str(handle, "tabId"@) is None {
                Some((ServiceRequestIssueKind::InvalidServiceTabHandle, "serviceTabHandle.tabId is required"@))
            } else {
                None
            },
            None => Some((ServiceRequestIssueKind::InvalidServiceTabHandle, "tab_handle_refresh requires serviceTabHandle"@)),
        }
    }
}

/// Refuses a tab handle refresh that names no tab.
pub fn reject_tab_handle_refresh_request(action: &str, request: &JsonValue) -> (r: Result<(), ServiceRequestIssue>)
    ensures
        match r {
            Ok(()) => tab_refresh_refusal(action@, *request) is None,
            Err(e) => issue_is(e, tab_refresh_refusal(action@, *request)),
        },
{
    if !str_equal(action, "tab_handle_refresh") {
        return Ok(());
    }
    let handle = match request.get("serviceTabHandle") {
        Some(h) => match h {
            JsonValue::Object(_) => h,
            _ => {
                return Err(
                    issue(ServiceRequestIssueKind::InvalidServiceTabHandle, "tab_handle_refresh requires serviceTabHandle"),
                )
            },
        },
        None => {
            return Err(
                issue(ServiceRequestIssueKind::InvalidServiceTabHandle, "tab_handle_refresh requires serviceTabHandle"),
            )
        },
    };
    if handle.field_str("tabId").is_none() {
        return Err(issue(ServiceRequestIssueKind::InvalidServiceTabHandle, "serviceTabHandle.tabId is required"));
    }
    Ok(())
}

/// Why a `ui_action` request is refused, if it is: a targeted tab handle,
/// a recipe object with a nonempty steps array, and a positive timeout.
pub open spec fn ui_action_refusal(action: Seq<char>, request: JsonValue) -> Refusal {
    if action != "ui_action"@ {
        None
    } else if tab_handle_refusal(request, action, true) is Some {
        tab_handle_refusal(request, action, true)
    } else {
        match json_get(request, "uiAction"@) {
            Some(recipe) => if !(recipe is Object) {
                Some((ServiceRequestIssueKind::InvalidBoundedRecipe, "ui_action requires uiAction object"@))
            } else if !(json_get(recipe, "steps"@) matches Some(JsonValue::Array(_))) {
                Some((ServiceRequestIssueKind::InvalidBoundedRecipe, "ui_action requires uiAction.steps array"@))
            } else if json_get(recipe, "steps"@) matches Some(JsonValue::Array(steps)) && steps@.len() == 0 {
                Some((ServiceRequestIssueKind::InvalidBoundedRecipe, "ui_action requires at least one step"@))
            } else if u64_or_zero(first_value(json_get(request, "timeoutMs"@), json_get(recipe, "timeoutMs"@))) == 0 {
                Some((ServiceRequestIssueKind::InvalidBoundedRecipe, "ui_action requires positive timeoutMs"@))
            } else {
                None
            },
            None => Some((ServiceRequestIssueKind::InvalidBoundedRecipe, "ui_action requires uiAction object"@)),
        }
    }
}

/// Refuses a `ui_action` request that is not a bounded recipe.
pub fn reject_service_ui_action_request(action: &str, request: &JsonValue) -> (r: Result<(), ServiceRequestIssue>)
    ensures
        match r {
            Ok(()) => ui_action_refusal(action@, *request) is None,
            Err(e) => issue_is(e, ui_action_refusal(action@, *request)),
        },
{
    if !str_equal(action, "ui_action") {
        return Ok(());
    }
    match validate_service_tab_handle(request, action, true) {
        Ok(()) => {},
        Err(e) => return Err(e),
    }
    let recipe = match request.get("uiAction") {
        Some(r) => match r {
            JsonValue::Object(_) => r,
            _ => return Err(issue(ServiceRequestIssueKind::InvalidBoundedRecipe, "ui_action requires uiAction object")),
        },
        None => return Err(issue(ServiceRequestIssueKind::InvalidBoundedRecipe, "ui_action requires uiAction object")),
    };
    match recipe.get("steps") {
        Some(JsonValue::Array(steps)) => {
            if steps.len() == 0 {
                return Err(issue(ServiceRequestIssueKind::InvalidBoundedRecipe, "ui_action requires at least one step"));
            }
        },
        _ => return Err(issue(ServiceRequestIssueKind::InvalidBoundedRecipe, "ui_action requires uiAction.steps array")),
    }
    if first_number(request.get("timeoutMs"), recipe.get("timeoutMs")) == 0 {
        return Err(issue(ServiceRequestIssueKind::InvalidBoundedRecipe, "ui_action requires positive timeoutMs"));
    }
    Ok(())
}

/// Whether a value is a nonempty array of nonblank strings.
pub open spec fn nonblank_string_array(v: Option<JsonValue>) -> bool {
    &&& v matches Some(JsonValue::Array(items))
    &&& items@.len() > 0
    &&& forall|i: int| 0 <= i < items@.len() ==> nonblank_string(#[trigger] items@[i])
}

/// Whether a value is a nonempty array of nonblank strings.
fn is_nonblank_string_array(v: Option<&JsonValue>) -> (r: bool)
    ensures
        r == nonblank_string_array(
            match v {
                Some(x) => Some(*x),
                None => None,
            },
        ),
{
    match v {
        Some(JsonValue::Array(items)) => {
            if items.len() == 0 {
                return false;
            }
            let mut i: usize = 0;
            while i < items.len()
                invariant
                    i <= items@.len(),
                    items@.len() > 0,
                    match v {
                        Some(x) => *x == JsonValue::Array(*items),
                        None => false,
                    },
                    forall|j: int| 0 <= j < i ==> nonblank_string(#[trigger] items@[j]),
                decreases items@.len() - i,
            {
                let ok = match items[i].as_str() {
                    Some(s) => !is_blank(s),
                    None => false,
                };
                if !ok {
                    assert(!nonblank_string(items@[i as int]));
                    return false;
                }
                i = i + 1;
            }
            true
        },
        _ => false,
    }
}

/// The decimal text of a number.
fn decimal_text(n: u64) -> (r: String)
    ensures
        r@ == crate::json::decimal(n as nat),
{
    let mut out = String::new();
    crate::json::push_decimal(&mut out, n);
    out
}

/// The count of files an upload names, as a JSON array length.
pub open spec fn upload_files(upload: JsonValue) -> Option<Seq<JsonValue>> {
    match json_get(upload, "files"@) {
        Some(JsonValue::Array(files)) => Some(files@),
        _ => None,
    }
}

/// Why an upload recipe is refused, if it is: a nonblank selector or label,
/// a nonempty files array of nonblank strings, a positive bound on files
/// that the array keeps, and a nonempty list of allowed paths.
pub open spec fn upload_refusal(upload: JsonValue) -> Option<Seq<char>> {
    let selector = field_str(upload, "selector"@) matches Some(s) && trim(s).len() > 0;
    let label = first_value(json_get(upload, "labelText"@), json_get(upload, "label"@)) matches Some(l) && nonblank_string(
        l,
    );
    let max_files = u64_or_zero(json_get(upload, "maxFiles"@));
    if !selector && !label {
        Some("file_transfer upload requires selector or labelText"@)
    } else if upload_files(upload) is None {
        Some("file_transfer upload requires files array"@)
    } else if !nonblank_string_array(json_get(upload, "files"@)) {
        Some("file_transfer upload files must be nonempty strings"@)
    } else if max_files == 0 {
        Some("file_transfer upload requires positive maxFiles"@)
    } else if upload_files(upload)->0.len() > max_files {
        Some(
            "file_transfer upload file count "@ + crate::json::decimal(upload_files(upload)->0.len()) + " exceeds maxFiles "@
                + crate::json::decimal(max_files as nat),
        )
    } else if !nonblank_string_array(json_get(upload, "allowedPaths"@)) {
        Some("file_transfer upload allowedPaths must be a nonempty string array"@)
    } else {
        None
    }
}

/// Refuses an upload recipe that is not bounded.
fn reject_file_transfer_upload_recipe(upload: &JsonValue) -> (r: Result<(), ServiceRequestIssue>)
    ensures
        match r {
            Ok(()) => upload_refusal(*upload) is None,
            Err(e) => issue_is(e, bounded(upload_refusal(*upload))),
        },
{
    let selector = match upload.field_str("selector") {
        Some(s) => !is_blank(s),
        None => false,
    };
    let label_value = match upload.get("labelText") {
        Some(l) => Some(l),
        None => upload.get("label"),
    };
    let label = present_nonblank(label_value);
    if !selector && !label {
        return Err(issue(ServiceRequestIssueKind::InvalidBoundedRecipe, "file_transfer upload requires selector or labelText"));
    }
    let files = match upload.get("files") {
        Some(JsonValue::Array(files)) => files,
        _ => return Err(issue(ServiceRequestIssueKind::InvalidBoundedRecipe, "file_transfer upload requires files array")),
    };
    if !is_nonblank_string_array(upload.get("files")) {
        return Err(issue(ServiceRequestIssueKind::InvalidBoundedRecipe, "file_transfer upload files must be nonempty strings"));
    }
    let max_files = match upload.field_u64("maxFiles") {
        Some(n) => n,
        None => 0,
    };
    proof {
        assert(u64_or_zero(json_get(*upload, "maxFiles"@)) == max_files);
    }
    if max_files == 0 {
        return Err(issue(ServiceRequestIssueKind::InvalidBoundedRecipe, "file_transfer upload requires positive maxFiles"));
    }
    if files.len() as u64 > max_files {
        let count = decimal_text(files.len() as u64);
        let bound = decimal_text(max_files);
        let m = concat2("file_transfer upload file count ", count.as_str()).concat(" exceeds maxFiles ").concat(
            bound.as_str(),
        );
        return Err(issue(ServiceRequestIssueKind::InvalidBoundedRecipe, m.as_str()));
    }
    if !is_nonblank_string_array(upload.get("allowedPaths")) {
        return Err(
            issue(
                ServiceRequestIssueKind::InvalidBoundedRecipe,
                "file_transfer upload allowedPaths must be a nonempty string array",
            ),
        );
    }
    Ok(())
}

/// Why a download recipe is refused, if it is: a nonblank selector and
/// directory, a nonempty list of allowed directories, and no zero size bound.
pub open spec fn download_refusal(download: JsonValue) -> Option<Seq<char>> {
    if !(field_str(download, "selector"@) matches Some(s) && trim(s).len() > 0) {
        Some("file_transfer download requires selector"@)
    } else if !(field_str(download, "directory"@) matches Some(d) && trim(d).len() > 0) {
        Some("file_transfer download requires directory"@)
    } else if !nonblank_string_array(json_get(download, "allowedDirectories"@)) {
        Some("file_transfer download allowedDirectories must be a nonempty string array"@)
    } else if field_u64(download, "maxBytes"@) == Some(0u64) {
        Some("file_transfer download maxBytes must be positive"@)
    } else {
        None
    }
}

/// Refuses a download recipe that is not bounded.
fn reject_file_transfer_download_recipe(download: &JsonValue) -> (r: Result<(), ServiceRequestIssue>)
    ensures
        match r {
            Ok(()) => download_refusal(*download) is None,
            Err(e) => issue_is(e, bounded(download_refusal(*download))),
        },
{
    let selector = match download.field_str("selector") {
        Some(s) => !is_blank(s),
        None => false,
    };
    if !selector {
        return Err(issue(ServiceRequestIssueKind::InvalidBoundedRecipe, "file_transfer download requires selector"));
    }
    let directory = match download.field_str("directory") {
        Some(d) => !is_blank(d),
        None => false,
    };
    if !directory {
        return Err(issue(ServiceRequestIssueKind::InvalidBoundedRecipe, "file_transfer download requires directory"));
    }
    if !is_nonblank_string_array(download.get("allowedDirectories")) {
        return Err(
            issue(
                ServiceRequestIssueKind::InvalidBoundedRecipe,
                "file_transfer download allowedDirectories must be a nonempty string array",
            ),
        );
    }
    if download.field_u64("maxBytes") == Some(0u64) {
        return Err(issue(ServiceRequestIssueKind::InvalidBoundedRecipe, "file_transfer download maxBytes must be positive"));
    }
    Ok(())
}

/// Why a `file_transfer` request is refused, if it is: a targeted tab
/// handle, a recipe object, a positive timeout, and an upload or download
/// recipe, each an object that is itself bounded.
pub open spec fn file_transfer_refusal(action: Seq<char>, request: JsonValue) -> Refusal {
    if action != "file_transfer"@ {
        None
    } else if tab_handle_refusal(request, action, true) is Some {
        tab_handle_refusal(request, action, true)
    } else {
        match json_get(request, "fileTransfer"@) {
            Some(recipe) => if !(recipe is Object) {
                Some((ServiceRequestIssueKind::InvalidBoundedRecipe, "file_transfer requires fileTransfer object"@))
            } else if u64_or_zero(first_value(json_get(request, "timeoutMs"@), json_get(recipe, "timeoutMs"@))) == 0 {
                Some((ServiceRequestIssueKind::InvalidBoundedRecipe, "file_transfer requires positive timeoutMs"@))
            } else if json_get(recipe, "upload"@) is None && json_get(recipe, "download"@) is None {
                Some((ServiceRequestIssueKind::InvalidBoundedRecipe, "file_transfer requires upload or download recipe"@))
            } else if json_get(recipe, "upload"@) matches Some(u) && !(u is Object) {
                Some((ServiceRequestIssueKind::InvalidBoundedRecipe, "file_transfer upload must be an object"@))
            } else if json_get(recipe, "upload"@) matches Some(u) && upload_refusal(u) is Some {
                bounded(upload_refusal(json_get(recipe, "upload"@)->0))
            } else if json_get(recipe, "download"@) matches Some(d) && !(d is Object) {
                Some((ServiceRequestIssueKind::InvalidBoundedRecipe, "file_transfer download must be an object"@))
            } else if json_get(recipe, "download"@) matches Some(d) && download_refusal(d) is Some {
                bounded(download_refusal(json_get(recipe, "download"@)->0))
            } else {
                None
            },
            None => Some((ServiceRequestIssueKind::InvalidBoundedRecipe, "file_transfer requires fileTransfer object"@)),
        }
    }
}

/// Refuses a `file_transfer` request that is not a bounded recipe.
#[verifier::rlimit(40)]
pub fn reject_service_file_transfer_request(action: &str, request: &JsonValue) -> (r: Result<(), ServiceRequestIssue>)
    ensures
        match r {
            Ok(()) => file_transfer_refusal(action@, *request) is None,
            Err(e) => issue_is(e, file_transfer_refusal(action@, *request)),
        },
{
    if !str_equal(action, "file_transfer") {
        return Ok(());
    }
    match validate_service_tab_handle(request, action, true) {
        Ok(()) => {},
        Err(e) => return Err(e),
    }
    let recipe = match request.get("fileTransfer") {
        Some(r) => match r {
            JsonValue::Object(_) => r,
            _ => return Err(issue(ServiceRequestIssueKind::InvalidBoundedRecipe, "file_transfer requires fileTransfer object")),
        },
        None => return Err(issue(ServiceRequestIssueKind::InvalidBoundedRecipe, "file_transfer requires fileTransfer object")),
    };
    if first_number(request.get("timeoutMs"), recipe.get("timeoutMs")) == 0 {
        return Err(issue(ServiceRequestIssueKind::InvalidBoundedRecipe, "file_transfer requires positive timeoutMs"));
    }
    if recipe.get("upload").is_none() && recipe.get("download").is_none() {
        return Err(issue(ServiceRequestIssueKind::InvalidBoundedRecipe, "file_transfer requires upload or download recipe"));
    }
    if let Some(upload) = recipe.get("upload") {
        if !matches!(upload, JsonValue::Object(_)) {
            return Err(issue(ServiceRequestIssueKind::InvalidBoundedRecipe, "file_transfer upload must be an object"));
        }
        match reject_file_transfer_upload_recipe(upload) {
            Ok(()) => {},
            Err(e) => return Err(e),
        }
    }
    if let Some(download) = recipe.get("download") {
        if !matches!(download, JsonValue::Object(_)) {
            return Err(issue(ServiceRequestIssueKind::InvalidBoundedRecipe, "file_transfer download must be an object"));
        }
        match reject_file_transfer_download_recipe(download) {
            Ok(()) => {},
            Err(e) => return Err(e),
        }
    }
    Ok(())
}

/// The string items of an optional array, in order.
pub open spec fn summary_strings(v: Option<JsonValue>) -> Seq<Seq<char>> {
    match v {
        Some(JsonValue::Array(items)) => items@.filter(|x: JsonValue| x is Str).map_values(|x: JsonValue| json_str(x)->0),
        _ => Seq::empty(),
    }
}

/// The string items of an optional array, in order.
pub fn summary_string_array(v: Option<&JsonValue>) -> (r: Vec<String>)
    ensures
        strs(r@) == summary_strings(
            match v {
                Some(x) => Some(*x),
                None => None,
            },
        ),
{
    let mut out: Vec<String> = Vec::new();
    match v {
        Some(JsonValue::Array(items)) => {
            let ghost pred = |x: JsonValue| x is Str;
            let ghost f = |x: JsonValue| json_str(x)->0;
            let mut i: usize = 0;
            while i < items.len()
                invariant
                    i <= items@.len(),
                    pred == (|x: JsonValue| x is Str),
                    f == (|x: JsonValue| json_str(x)->0),
                    strs(out@) == items@.take(i as int).filter(pred).map_values(f),
                decreases items@.len() - i,
            {
                proof {
                    crate::seqs::lemma_filter_take_step(items@, pred, i as int);
                }
                if let Some(s) = items[i].as_str() {
                    let t = owned(s);
                    proof {
                        crate::lease::lemma_strs_push(out@, t);
                    }
                    out.push(t);
                }
                assert(items@.take(i + 1).filter(pred).map_values(f) =~= strs(out@));
                i = i + 1;
            }
            assert(items@.take(items@.len() as int) =~= items@);
            out
        },
        _ => {
            assert(strs(out@) =~= Seq::<Seq<char>>::empty());
            out
        },
    }
}

/// Whether a request carries a monitor summary that is read as an object:
/// present, without the freshness-risk override, and an object.
pub open spec fn monitor_summary_readable(request: JsonValue) -> bool {
    match json_get(request, "monitorRunDueSummary"@) {
        Some(s) => field_bool(request, "allowMonitorFreshnessRisk"@) != Some(true) ==> s is Object,
        None => true,
    }
}

/// Why stale monitor evidence refuses a request, if it does: unless the
/// caller accepts the freshness risk, expired or unverified target services,
/// no matched monitor, or a failed run that does not recommend the selected
/// profile all refuse it.
pub open spec fn stale_monitor_refusal(request: JsonValue) -> Refusal {
    match json_get(request, "monitorRunDueSummary"@) {
        None => None,
        Some(summary) => if field_bool(request, "allowMonitorFreshnessRisk"@) == Some(true) {
            None
        } else {
            let expired = summary_strings(json_get(summary, "expiredTargetServiceIds"@));
            let unverified = summary_strings(json_get(summary, "unverifiedTargetServiceIds"@));
            let matched = match field_u64(summary, "matched"@) {
                Some(n) => n,
                None => 0,
            };
            let failed = field_bool(summary, "failed"@) == Some(true);
            let recommended = match field_str(summary, "recommendedAction"@) {
                Some(a) => a,
                None => "inspect_monitor_results"@,
            };
            if expired.len() > 0 {
                Some(
                    (
                        ServiceRequestIssueKind::StaleMonitorEvidence,
                        "service monitor run-due found expired profile freshness before service request: "@ + join(
                            expired,
                            ","@,
                        ),
                    ),
                )
            } else if unverified.len() > 0 {
                Some(
                    (
                        ServiceRequestIssueKind::StaleMonitorEvidence,
                        "service monitor run-due could not verify profile freshness before service request: "@ + join(
                            unverified,
                            ","@,
                        ),
                    ),
                )
            } else if matched == 0 || (failed && recommended != "use_selected_profile"@) {
                Some(
                    (
                        ServiceRequestIssueKind::StaleMonitorEvidence,
                        "service monitor run-due requires inspection before service request: "@ + recommended,
                    ),
                )
            } else {
                None
            }
        },
    }
}

/// Refuses a request whose monitor run found stale or unverified profile freshness.
pub fn reject_stale_monitor_service_request(request: &JsonValue) -> (r: Result<(), ServiceRequestIssue>)
    requires
        monitor_summary_readable(*request),
    ensures
        match r {
            Ok(()) => stale_monitor_refusal(*request) is None,
            Err(e) => issue_is(e, stale_monitor_refusal(*request)),
        },
{
    let summary = match request.get("monitorRunDueSummary") {
        Some(s) => s,
        None => return Ok(()),
    };
    if request.field_bool("allowMonitorFreshnessRisk") == Some(true) {
        return Ok(());
    }
    let expired = summary_string_array(summary.get("expiredTargetServiceIds"));
    if expired.len() > 0 {
        let joined = join_strings(&expired, ",");
        let m = concat2("service monitor run-due found expired profile freshness before service request: ", joined.as_str());
        return Err(issue(ServiceRequestIssueKind::StaleMonitorEvidence, m.as_str()));
    }
    let unverified = summary_string_array(summary.get("unverifiedTargetServiceIds"));
    if unverified.len() > 0 {
        let joined = join_strings(&unverified, ",");
        let m = concat2(
            "service monitor run-due could not verify profile freshness before service request: ",
            joined.as_str(),
        );
        return Err(issue(ServiceRequestIssueKind::StaleMonitorEvidence, m.as_str()));
    }
    let matched = match summary.field_u64("matched") {
        Some(n) => n,
        None => 0,
    };
    let failed = summary.field_bool("failed") == Some(true);
    let recommended = match summary.field_str("recommendedAction") {
        Some(a) => a,
        None => "inspect_monitor_results",
    };
    if matched == 0 || (failed && !str_equal(recommended, "use_selected_profile")) {
        let m = concat2("service monitor run-due requires inspection before service request: ", recommended);
        return Err(issue(ServiceRequestIssueKind::StaleMonitorEvidence, m.as_str()));
    }
    Ok(())
}

/// The first refusal of the list.
pub open spec fn first_refusal(refusals: Seq<Refusal>) -> Refusal
    decreases refusals.len(),
{
    if refusals.len() == 0 {
        None
    } else if refusals[0] is Some {
        refusals[0]
    } else {
        first_refusal(refusals.drop_first())
    }
}

/// Every common safety gate's refusal, in the order the gates run.
pub open spec fn safety_gate_refusals(action: Seq<char>, request: JsonValue) -> Seq<Refusal> {
    seq![
        blocked_manual_refusal(request),
        cdp_free_refusal(action, request),
        cdp_attach_refusal(action, request),
        byop_adopt_refusal(action, request),
        tab_new_refusal(action, request),
        evaluate_refusal(action, request),
        diagnostics_refusal(action, request),
        bounded(desktop_capture_refusal(action, request)),
        bounded(desktop_locate_refusal(action, request)),
        bounded(desktop_evidence_refusal(action, request)),
        bounded(desktop_prompt_refusal(action, request)),
        bounded(desktop_interact_refusal(action, request)),
        probe_refusal(action, request),
        tab_refresh_refusal(action, request),
        ui_action_refusal(action, request),
        network_capture_refusal(action, request),
        file_transfer_refusal(action, request),
        stale_monitor_refusal(request),
    ]
}

/// Runs the common safety gates in their fixed order; the first that
/// refuses decides the issue. A monitor summary is read as an object only
/// when every earlier gate admits the request.
#[verifier::rlimit(60)]
pub fn validate_safety_gates(action: &str, request: &JsonValue) -> (r: Result<(), ServiceRequestIssue>)
    requires
        first_refusal(safety_gate_refusals(action@, *request).drop_last()) is Some || monitor_summary_readable(*request),
    ensures
        match r {
            Ok(()) => first_refusal(safety_gate_refusals(action@, *request)) is None,
            Err(e) => issue_is(e, first_refusal(safety_gate_refusals(action@, *request))),
        },
{
    let ghost gates = safety_gate_refusals(action@, *request);
    proof {
        reveal_with_fuel(first_refusal, 19);
        assert(gates.drop_last() =~= gates.take(17));
    }
    match reject_blocked_manual_service_request(request) {
        Ok(()) => {},
        Err(e) => return Err(e),
    }
    match reject_cdp_free_service_request(action, request) {
        Ok(()) => {},
        Err(e) => return Err(e),
    }
    match reject_cdp_attach_service_request(action, request) {
        Ok(()) => {},
        Err(e) => return Err(e),
    }
    match reject_external_byop_adopt_request(action, request) {
        Ok(()) => {},
        Err(e) => return Err(e),
    }
    match reject_unexecutable_tab_new_route_intent(action, request) {
        Ok(()) => {},
        Err(e) => return Err(e),
    }
    match reject_bounded_evaluate_service_request(action, request) {
        Ok(()) => {},
        Err(e) => return Err(e),
    }
    match reject_service_diagnostics_request(action, request) {
        Ok(()) => {},
        Err(e) => return Err(e),
    }
    match reject_desktop_capture_request(action, request) {
        Ok(()) => {},
        Err(e) => return Err(e),
    }
    match reject_desktop_locate_request(action, request) {
        Ok(()) => {},
        Err(e) => return Err(e),
    }
    match reject_desktop_evidence_observe_request(action, request) {
        Ok(()) => {},
        Err(e) => return Err(e),
    }
    match reject_desktop_prompt_observe_request(action, request) {
        Ok(()) => {},
        Err(e) => return Err(e),
    }
    match reject_desktop_interact_request(action, request) {
        Ok(()) => {},
        Err(e) => return Err(e),
    }
    match reject_service_probe_request(action, request) {
        Ok(()) => {},
        Err(e) => return Err(e),
    }
    match reject_tab_handle_refresh_request(action, request) {
        Ok(()) => {},
        Err(e) => return Err(e),
    }
    match reject_service_ui_action_request(action, request) {
        Ok(()) => {},
        Err(e) => return Err(e),
    }
    match reject_service_network_capture_request(action, request) {
        Ok(()) => {},
        Err(e) => return Err(e),
    }
    match reject_service_file_transfer_request(action, request) {
        Ok(()) => {},
        Err(e) => return Err(e),
    }
    reject_stale_monitor_service_request(request)
}

} // verus!
