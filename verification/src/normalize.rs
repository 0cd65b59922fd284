//! Canonical service-request normalization: the field ledger and its
//! validation, the common safety gates, attribution, and the projection of a
//! request into the command that runs and the trace that records it.

use vstd::prelude::*;
use crate::gates::{first_refusal, issue_is, monitor_summary_readable, safety_gate_refusals, validate_safety_gates, Refusal};
use crate::json::{
    copy_value, field_str, json_get, json_same, json_str, json_u64, members_get, quoted_list, set_member, JsonMember,
    JsonValue,
};
use crate::request::{
    issue, texts_of, validate_field, FieldKind, ServiceRequestFieldSpec, ServiceRequestIssue, ServiceRequestIssueKind,
};
use crate::desktop::nonblank_string;
use crate::digest::{digest_text, digest_text_spec};
use crate::lease::{provenance_name, provenance_str};
use crate::model::AuthenticatedServicePrincipal;
use crate::request::{
    attribution_spec, derive_service_request_attribution, ServiceRequestAttribution, ServiceRequestFallbackPrincipal,
    ServiceRequestPrincipalSource,
};
use crate::text::{concat2, concat3, is_blank, owned, str_equal, trim, trim_owned};

verus! {

/// The kind of a ledger field, with enumerated values as text.
pub enum KindView {
    String,
    PositiveInteger,
    Boolean,
    StringArray,
    Object,
    Enum(Seq<Seq<char>>),
}

/// A ledger field as the contracts read it.
pub struct FieldView {
    pub name: Seq<char>,
    pub kind: KindView,
    pub command: bool,
    pub trace: bool,
    pub routing: bool,
    pub structural: bool,
}

/// The view of a field kind.
pub open spec fn kind_view(k: FieldKind) -> KindView {
    match k {
        FieldKind::String => KindView::String,
        FieldKind::PositiveInteger => KindView::PositiveInteger,
        FieldKind::Boolean => KindView::Boolean,
        FieldKind::StringArray => KindView::StringArray,
        FieldKind::Object => KindView::Object,
        FieldKind::Enum(values) => KindView::Enum(texts_of(values@)),
    }
}

/// The view of a field spec.
pub open spec fn field_view(f: ServiceRequestFieldSpec) -> FieldView {
    FieldView {
        name: f.name@,
        kind: kind_view(f.kind),
        command: f.command,
        trace: f.trace,
        routing: f.routing,
        structural: f.structural,
    }
}

/// The views of a list of field specs.
pub open spec fn views(fields: Seq<ServiceRequestFieldSpec>) -> Seq<FieldView> {
    fields.map_values(|f: ServiceRequestFieldSpec| field_view(f))
}

/// A non-structural ledger field.
pub open spec fn field_view_of(name: Seq<char>, kind: KindView, command: bool, trace: bool, routing: bool) -> FieldView {
    FieldView { name, kind, command, trace, routing, structural: false }
}

/// A structural ledger field, neither traced nor routing.
pub open spec fn structural_view(name: Seq<char>, kind: KindView, command: bool) -> FieldView {
    FieldView { name, kind, command, trace: false, routing: false, structural: true }
}

/// The values of `profile_lease_policies`.
pub open spec fn profile_lease_policies_spec() -> Seq<Seq<char>> {
    seq!["reject"@, "wait"@]
}

/// The values of `profile_lease_policies`.
pub fn profile_lease_policies() -> (r: &'static [&'static str])
    ensures
        texts_of(r@) == profile_lease_policies_spec(),
{
    let r: &'static [&'static str] = &["reject", "wait"];
    assert(texts_of(r@) =~= profile_lease_policies_spec());
    r
}

/// The values of `repair_policies`.
pub open spec fn repair_policies_spec() -> Seq<Seq<char>> {
    seq!["reject_only"@, "reuse_compatible"@, "open_if_missing"@, "replace_duplicates"@]
}

/// The values of `repair_policies`.
pub fn repair_policies() -> (r: &'static [&'static str])
    ensures
        texts_of(r@) == repair_policies_spec(),
{
    let r: &'static [&'static str] = &["reject_only", "reuse_compatible", "open_if_missing", "replace_duplicates"];
    assert(texts_of(r@) =~= repair_policies_spec());
    r
}

/// The values of `browser_builds`.
pub open spec fn browser_builds_spec() -> Seq<Seq<char>> {
    seq!["stock_chrome"@, "stealthcdp_chromium"@, "cdp_free_headed"@]
}

/// The values of `browser_builds`.
pub fn browser_builds() -> (r: &'static [&'static str])
    ensures
        texts_of(r@) == browser_builds_spec(),
{
    let r: &'static [&'static str] = &["stock_chrome", "stealthcdp_chromium", "cdp_free_headed"];
    assert(texts_of(r@) =~= browser_builds_spec());
    r
}

/// The values of `browser_hosts`.
pub open spec fn browser_hosts_spec() -> Seq<Seq<char>> {
    seq!["local_headless"@, "local_headed"@, "docker_headed"@, "remote_headed"@, "cloud_provider"@, "attached_existing"@]
}

/// The values of `browser_hosts`.
pub fn browser_hosts() -> (r: &'static [&'static str])
    ensures
        texts_of(r@) == browser_hosts_spec(),
{
    let r: &'static [&'static str] = &["local_headless", "local_headed", "docker_headed", "remote_headed", "cloud_provider", "attached_existing"];
    assert(texts_of(r@) =~= browser_hosts_spec());
    r
}

/// The values of `view_stream_providers`.
pub open spec fn view_stream_providers_spec() -> Seq<Seq<char>> {
    seq!["cdp_screencast"@, "chrome_tab_webrtc"@, "virtual_display_webrtc"@, "novnc"@, "rdp_gateway"@, "external_url"@]
}

/// The values of `view_stream_providers`.
pub fn view_stream_providers() -> (r: &'static [&'static str])
    ensures
        texts_of(r@) == view_stream_providers_spec(),
{
    let r: &'static [&'static str] = &["cdp_screencast", "chrome_tab_webrtc", "virtual_display_webrtc", "novnc", "rdp_gateway", "external_url"];
    assert(texts_of(r@) =~= view_stream_providers_spec());
    r
}

/// The values of `control_input_providers`.
pub open spec fn control_input_providers_spec() -> Seq<Seq<char>> {
    seq!["cdp_input"@, "webrtc_input"@, "vnc_input"@, "manual_attached_desktop"@]
}

/// The values of `control_input_providers`.
pub fn control_input_providers() -> (r: &'static [&'static str])
    ensures
        texts_of(r@) == control_input_providers_spec(),
{
    let r: &'static [&'static str] = &["cdp_input", "webrtc_input", "vnc_input", "manual_attached_desktop"];
    assert(texts_of(r@) =~= control_input_providers_spec());
    r
}

/// The values of `display_isolations`.
pub open spec fn display_isolations_spec() -> Seq<Seq<char>> {
    seq!["private_virtual_display"@, "shared_display"@, "ambient_display"@]
}

/// The values of `display_isolations`.
pub fn display_isolations() -> (r: &'static [&'static str])
    ensures
        texts_of(r@) == display_isolations_spec(),
{
    let r: &'static [&'static str] = &["private_virtual_display", "shared_display", "ambient_display"];
    assert(texts_of(r@) =~= display_isolations_spec());
    r
}

/// The values of `profile_classes`.
pub open spec fn profile_classes_spec() -> Seq<Seq<char>> {
    seq!["default"@, "managed_one_time"@, "durable_named"@, "operator_supplied"@]
}

/// The values of `profile_classes`.
pub fn profile_classes() -> (r: &'static [&'static str])
    ensures
        texts_of(r@) == profile_classes_spec(),
{
    let r: &'static [&'static str] = &["default", "managed_one_time", "durable_named", "operator_supplied"];
    assert(texts_of(r@) =~= profile_classes_spec());
    r
}

/// The values of `identity_assurance_levels`.
pub open spec fn identity_assurance_levels_spec() -> Seq<Seq<char>> {
    seq!["self-declared"@, "authenticated-ingress"@, "registered-capability"@, "operator"@, "unknown"@]
}

/// The values of `identity_assurance_levels`.
pub fn identity_assurance_levels() -> (r: &'static [&'static str])
    ensures
        texts_of(r@) == identity_assurance_levels_spec(),
{
    let r: &'static [&'static str] = &["self-declared", "authenticated-ingress", "registered-capability", "operator", "unknown"];
    assert(texts_of(r@) =~= identity_assurance_levels_spec());
    r
}

/// Ledger entries: request shape, timeouts, safety and execution limits.
pub open spec fn ledger_core() -> Seq<FieldView> {
    seq![
        structural_view("action"@, KindView::String, true),
        structural_view("params"@, KindView::Object, false),
        field_view_of("jobTimeoutMs"@, KindView::PositiveInteger, true, true, false),
        field_view_of("serviceStateLockTimeoutMs"@, KindView::PositiveInteger, true, true, false),
        field_view_of("profileLeasePolicy"@, KindView::Enum(profile_lease_policies_spec()), true, true, false),
        field_view_of("profileLeaseWaitTimeoutMs"@, KindView::PositiveInteger, true, true, false),
        field_view_of("blockedByManualAction"@, KindView::Boolean, false, false, false),
        field_view_of("manualSeedingRequired"@, KindView::Boolean, false, false, false),
        field_view_of("allowManualAction"@, KindView::Boolean, false, false, false),
        field_view_of("monitorRunDueSummary"@, KindView::Object, false, false, false),
        field_view_of("allowMonitorFreshnessRisk"@, KindView::Boolean, false, false, false),
        field_view_of("requiresCdpFree"@, KindView::Boolean, true, true, false),
        field_view_of("cdpAttachmentAllowed"@, KindView::Boolean, true, true, false),
        field_view_of("serviceTabHandle"@, KindView::Object, true, true, true),
        field_view_of("targetId"@, KindView::String, true, true, true),
        field_view_of("script"@, KindView::String, true, true, false),
        field_view_of("expression"@, KindView::String, true, true, false),
        field_view_of("returnByValue"@, KindView::Boolean, true, true, false),
        field_view_of("timeoutMs"@, KindView::PositiveInteger, true, true, false),
        field_view_of("maxReturnBytes"@, KindView::PositiveInteger, true, true, false),
        field_view_of("maxTextBytes"@, KindView::PositiveInteger, true, true, false),
    ]
}

/// Ledger entries: evaluation, capture and routing providers.
pub open spec fn ledger_execution() -> Seq<FieldView> {
    seq![
        field_view_of("maxBodyBytes"@, KindView::PositiveInteger, true, true, false),
        field_view_of("includeScreenshot"@, KindView::Boolean, true, true, false),
        field_view_of("screenshotDir"@, KindView::String, true, true, false),
        field_view_of("maxConsoleEntries"@, KindView::PositiveInteger, true, true, false),
        field_view_of("maxErrorEntries"@, KindView::PositiveInteger, true, true, false),
        field_view_of("maxRequestEntries"@, KindView::PositiveInteger, true, true, false),
        field_view_of("captureEvidenceOnFailure"@, KindView::Boolean, true, true, false),
        field_view_of("probe"@, KindView::Object, true, true, false),
        field_view_of("uiAction"@, KindView::Object, true, true, false),
        field_view_of("networkCapture"@, KindView::Object, true, true, false),
        field_view_of("fileTransfer"@, KindView::Object, true, true, false),
        field_view_of("repairPolicy"@, KindView::Enum(repair_policies_spec()), true, true, false),
        field_view_of("browserBuild"@, KindView::Enum(browser_builds_spec()), true, true, true),
        field_view_of("browserHost"@, KindView::Enum(browser_hosts_spec()), true, true, true),
        field_view_of("viewStreamProvider"@, KindView::Enum(view_stream_providers_spec()), true, true, true),
        field_view_of("controlInputProvider"@, KindView::Enum(control_input_providers_spec()), true, true, true),
        field_view_of("displayIsolation"@, KindView::Enum(display_isolations_spec()), true, true, true),
        field_view_of("serviceName"@, KindView::String, true, true, true),
        field_view_of("agentName"@, KindView::String, true, true, true),
        field_view_of("taskName"@, KindView::String, true, true, true),
        field_view_of("clientSubjectId"@, KindView::String, true, true, true),
    ]
}

/// Ledger entries: accountability, targets and profiles.
pub open spec fn ledger_identity() -> Seq<FieldView> {
    seq![
        field_view_of("identityAssurance"@, KindView::Enum(identity_assurance_levels_spec()), true, true, true),
        field_view_of("policyRevision"@, KindView::PositiveInteger, true, true, false),
        field_view_of("accessDecisionId"@, KindView::String, true, true, false),
        field_view_of("targetServiceId"@, KindView::String, true, true, true),
        field_view_of("targetService"@, KindView::String, true, true, true),
        field_view_of("targetServiceIds"@, KindView::StringArray, true, true, true),
        field_view_of("targetServices"@, KindView::StringArray, true, true, true),
        field_view_of("siteId"@, KindView::String, true, true, true),
        field_view_of("siteIds"@, KindView::StringArray, true, true, true),
        field_view_of("loginId"@, KindView::String, true, true, true),
        field_view_of("loginIds"@, KindView::StringArray, true, true, true),
        field_view_of("accountId"@, KindView::String, true, true, true),
        field_view_of("accountIds"@, KindView::StringArray, true, true, true),
        field_view_of("url"@, KindView::String, true, true, true),
        field_view_of("desiredUrl"@, KindView::String, true, true, true),
        field_view_of("profile"@, KindView::String, true, true, true),
        field_view_of("profileId"@, KindView::String, true, true, true),
        field_view_of("runtimeProfile"@, KindView::String, true, true, true),
        field_view_of("profileClass"@, KindView::Enum(profile_classes_spec()), true, true, true),
        field_view_of("cdpUrl"@, KindView::String, true, false, false),
        field_view_of("cdpPort"@, KindView::PositiveInteger, true, false, false),
    ]
}

/// Ledger entries: endpoints, desktop recipes and handoffs.
pub open spec fn ledger_routing() -> Seq<FieldView> {
    seq![
        field_view_of("browserId"@, KindView::String, true, true, true),
        field_view_of("sessionName"@, KindView::String, true, true, true),
        field_view_of("format"@, KindView::String, true, true, false),
        field_view_of("maxBytes"@, KindView::PositiveInteger, true, true, false),
        field_view_of("locator"@, KindView::Object, true, true, false),
        field_view_of("evidenceSurface"@, KindView::String, true, true, false),
        field_view_of("episodeId"@, KindView::String, true, true, false),
        field_view_of("includeFrame"@, KindView::Boolean, true, true, false),
        field_view_of("includeVisualization"@, KindView::Boolean, true, true, false),
        field_view_of("promptProfileId"@, KindView::String, true, true, false),
        field_view_of("controllerLeaseId"@, KindView::String, true, true, false),
        field_view_of("operationId"@, KindView::String, true, true, false),
        field_view_of("recipe"@, KindView::Object, true, true, false),
        field_view_of("handoffId"@, KindView::String, true, true, false),
        field_view_of("remoteViewHandoffId"@, KindView::String, true, true, false),
        field_view_of("pid"@, KindView::PositiveInteger, true, true, false),
        field_view_of("expiresAt"@, KindView::String, true, true, false),
        field_view_of("plan"@, KindView::Object, true, true, false),
        field_view_of("allowDuplicateProfileLane"@, KindView::Boolean, true, true, true),
        field_view_of("manualLoginLaunch"@, KindView::Boolean, true, false, false),
    ]
}

/// The `ledger_core` entries.
fn ledger_core_fields() -> (r: Vec<ServiceRequestFieldSpec>)
    ensures
        views(r@) == ledger_core(),
{
    let r = vec![
        ServiceRequestFieldSpec::structural("action", FieldKind::String, true),
        ServiceRequestFieldSpec::structural("params", FieldKind::Object, false),
        ServiceRequestFieldSpec::field("jobTimeoutMs", FieldKind::PositiveInteger, true, true, false),
        ServiceRequestFieldSpec::field("serviceStateLockTimeoutMs", FieldKind::PositiveInteger, true, true, false),
        ServiceRequestFieldSpec::field("profileLeasePolicy", FieldKind::Enum(profile_lease_policies()), true, true, false),
        ServiceRequestFieldSpec::field("profileLeaseWaitTimeoutMs", FieldKind::PositiveInteger, true, true, false),
        ServiceRequestFieldSpec::field("blockedByManualAction", FieldKind::Boolean, false, false, false),
        ServiceRequestFieldSpec::field("manualSeedingRequired", FieldKind::Boolean, false, false, false),
        ServiceRequestFieldSpec::field("allowManualAction", FieldKind::Boolean, false, false, false),
        ServiceRequestFieldSpec::field("monitorRunDueSummary", FieldKind::Object, false, false, false),
        ServiceRequestFieldSpec::field("allowMonitorFreshnessRisk", FieldKind::Boolean, false, false, false),
        ServiceRequestFieldSpec::field("requiresCdpFree", FieldKind::Boolean, true, true, false),
        ServiceRequestFieldSpec::field("cdpAttachmentAllowed", FieldKind::Boolean, true, true, false),
        ServiceRequestFieldSpec::field("serviceTabHandle", FieldKind::Object, true, true, true),
        ServiceRequestFieldSpec::field("targetId", FieldKind::String, true, true, true),
        ServiceRequestFieldSpec::field("script", FieldKind::String, true, true, false),
        ServiceRequestFieldSpec::field("expression", FieldKind::String, true, true, false),
        ServiceRequestFieldSpec::field("returnByValue", FieldKind::Boolean, true, true, false),
        ServiceRequestFieldSpec::field("timeoutMs", FieldKind::PositiveInteger, true, true, false),
        ServiceRequestFieldSpec::field("maxReturnBytes", FieldKind::PositiveInteger, true, true, false),
        ServiceRequestFieldSpec::field("maxTextBytes", FieldKind::PositiveInteger, true, true, false),
    ];
    assert(views(r@) =~= ledger_core());
    r
}

/// The `ledger_execution` entries.
fn ledger_execution_fields() -> (r: Vec<ServiceRequestFieldSpec>)
    ensures
        views(r@) == ledger_execution(),
{
    let r = vec![
        ServiceRequestFieldSpec::field("maxBodyBytes", FieldKind::PositiveInteger, true, true, false),
        ServiceRequestFieldSpec::field("includeScreenshot", FieldKind::Boolean, true, true, false),
        ServiceRequestFieldSpec::field("screenshotDir", FieldKind::String, true, true, false),
        ServiceRequestFieldSpec::field("maxConsoleEntries", FieldKind::PositiveInteger, true, true, false),
        ServiceRequestFieldSpec::field("maxErrorEntries", FieldKind::PositiveInteger, true, true, false),
        ServiceRequestFieldSpec::field("maxRequestEntries", FieldKind::PositiveInteger, true, true, false),
        ServiceRequestFieldSpec::field("captureEvidenceOnFailure", FieldKind::Boolean, true, true, false),
        ServiceRequestFieldSpec::field("probe", FieldKind::Object, true, true, false),
        ServiceRequestFieldSpec::field("uiAction", FieldKind::Object, true, true, false),
        ServiceRequestFieldSpec::field("networkCapture", FieldKind::Object, true, true, false),
        ServiceRequestFieldSpec::field("fileTransfer", FieldKind::Object, true, true, false),
        ServiceRequestFieldSpec::field("repairPolicy", FieldKind::Enum(repair_policies()), true, true, false),
        ServiceRequestFieldSpec::field("browserBuild", FieldKind::Enum(browser_builds()), true, true, true),
        ServiceRequestFieldSpec::field("browserHost", FieldKind::Enum(browser_hosts()), true, true, true),
        ServiceRequestFieldSpec::field("viewStreamProvider", FieldKind::Enum(view_stream_providers()), true, true, true),
        ServiceRequestFieldSpec::field("controlInputProvider", FieldKind::Enum(control_input_providers()), true, true, true),
        ServiceRequestFieldSpec::field("displayIsolation", FieldKind::Enum(display_isolations()), true, true, true),
        ServiceRequestFieldSpec::field("serviceName", FieldKind::String, true, true, true),
        ServiceRequestFieldSpec::field("agentName", FieldKind::String, true, true, true),
        ServiceRequestFieldSpec::field("taskName", FieldKind::String, true, true, true),
        ServiceRequestFieldSpec::field("clientSubjectId", FieldKind::String, true, true, true),
    ];
    assert(views(r@) =~= ledger_execution());
    r
}

/// The `ledger_identity` entries.
fn ledger_identity_fields() -> (r: Vec<ServiceRequestFieldSpec>)
    ensures
        views(r@) == ledger_identity(),
{
    let r = vec![
        ServiceRequestFieldSpec::field("identityAssurance", FieldKind::Enum(identity_assurance_levels()), true, true, true),
        ServiceRequestFieldSpec::field("policyRevision", FieldKind::PositiveInteger, true, true, false),
        ServiceRequestFieldSpec::field("accessDecisionId", FieldKind::String, true, true, false),
        ServiceRequestFieldSpec::field("targetServiceId", FieldKind::String, true, true, true),
        ServiceRequestFieldSpec::field("targetService", FieldKind::String, true, true, true),
        ServiceRequestFieldSpec::field("targetServiceIds", FieldKind::StringArray, true, true, true),
        ServiceRequestFieldSpec::field("targetServices", FieldKind::StringArray, true, true, true),
        ServiceRequestFieldSpec::field("siteId", FieldKind::String, true, true, true),
        ServiceRequestFieldSpec::field("siteIds", FieldKind::StringArray, true, true, true),
        ServiceRequestFieldSpec::field("loginId", FieldKind::String, true, true, true),
        ServiceRequestFieldSpec::field("loginIds", FieldKind::StringArray, true, true, true),
        ServiceRequestFieldSpec::field("accountId", FieldKind::String, true, true, true),
        ServiceRequestFieldSpec::field("accountIds", FieldKind::StringArray, true, true, true),
        ServiceRequestFieldSpec::field("url", FieldKind::String, true, true, true),
        ServiceRequestFieldSpec::field("desiredUrl", FieldKind::String, true, true, true),
        ServiceRequestFieldSpec::field("profile", FieldKind::String, true, true, true),
        ServiceRequestFieldSpec::field("profileId", FieldKind::String, true, true, true),
        ServiceRequestFieldSpec::field("runtimeProfile", FieldKind::String, true, true, true),
        ServiceRequestFieldSpec::field("profileClass", FieldKind::Enum(profile_classes()), true, true, true),
        ServiceRequestFieldSpec::field("cdpUrl", FieldKind::String, true, false, false),
        ServiceRequestFieldSpec::field("cdpPort", FieldKind::PositiveInteger, true, false, false),
    ];
    assert(views(r@) =~= ledger_identity());
    r
}

/// The `ledger_routing` entries.
fn ledger_routing_fields() -> (r: Vec<ServiceRequestFieldSpec>)
    ensures
        views(r@) == ledger_routing(),
{
    let r = vec![
        ServiceRequestFieldSpec::field("browserId", FieldKind::String, true, true, true),
        ServiceRequestFieldSpec::field("sessionName", FieldKind::String, true, true, true),
        ServiceRequestFieldSpec::field("format", FieldKind::String, true, true, false),
        ServiceRequestFieldSpec::field("maxBytes", FieldKind::PositiveInteger, true, true, false),
        ServiceRequestFieldSpec::field("locator", FieldKind::Object, true, true, false),
        ServiceRequestFieldSpec::field("evidenceSurface", FieldKind::String, true, true, false),
        ServiceRequestFieldSpec::field("episodeId", FieldKind::String, true, true, false),
        ServiceRequestFieldSpec::field("includeFrame", FieldKind::Boolean, true, true, false),
        ServiceRequestFieldSpec::field("includeVisualization", FieldKind::Boolean, true, true, false),
        ServiceRequestFieldSpec::field("promptProfileId", FieldKind::String, true, true, false),
        ServiceRequestFieldSpec::field("controllerLeaseId", FieldKind::String, true, true, false),
        ServiceRequestFieldSpec::field("operationId", FieldKind::String, true, true, false),
        ServiceRequestFieldSpec::field("recipe", FieldKind::Object, true, true, false),
        ServiceRequestFieldSpec::field("handoffId", FieldKind::String, true, true, false),
        ServiceRequestFieldSpec::field("remoteViewHandoffId", FieldKind::String, true, true, false),
        ServiceRequestFieldSpec::field("pid", FieldKind::PositiveInteger, true, true, false),
        ServiceRequestFieldSpec::field("expiresAt", FieldKind::String, true, true, false),
        ServiceRequestFieldSpec::field("plan", FieldKind::Object, true, true, false),
        ServiceRequestFieldSpec::field("allowDuplicateProfileLane", FieldKind::Boolean, true, true, true),
        ServiceRequestFieldSpec::field("manualLoginLaunch", FieldKind::Boolean, true, false, false),
    ];
    assert(views(r@) =~= ledger_routing());
    r
}
/// Every canonical service-request field, in ledger order.
pub open spec fn field_ledger() -> Seq<FieldView> {
    ledger_core() + ledger_execution() + ledger_identity() + ledger_routing()
}

/// The canonical field ledger: every recognised top-level request field and
/// the roles it plays.
pub fn service_request_fields() -> (r: Vec<ServiceRequestFieldSpec>)
    ensures
        views(r@) == field_ledger(),
{
    let mut r = ledger_core_fields();
    let mut b = ledger_execution_fields();
    let mut c = ledger_identity_fields();
    let mut d = ledger_routing_fields();
    let ghost (ra, rb, rc, rd) = (r@, b@, c@, d@);
    r.append(&mut b);
    r.append(&mut c);
    r.append(&mut d);
    assert(r@ =~= ra + rb + rc + rd);
    assert(views(r@) =~= views(ra) + views(rb) + views(rc) + views(rd));
    r
}

/// The first ledger field named `name`.
pub open spec fn find_field(ledger: Seq<FieldView>, name: Seq<char>) -> Option<FieldView>
    decreases ledger.len(),
{
    if ledger.len() == 0 {
        None
    } else if ledger[0].name == name {
        Some(ledger[0])
    } else {
        find_field(ledger.drop_first(), name)
    }
}

/// The first of `fields` named `name`.
fn lookup_field(fields: &Vec<ServiceRequestFieldSpec>, name: &str) -> (r: Option<ServiceRequestFieldSpec>)
    ensures
        match r {
            Some(f) => find_field(views(fields@), name@) == Some(field_view(f)),
            None => find_field(views(fields@), name@) is None,
        },
{
    let mut i: usize = 0;
    assert(views(fields@).skip(0) =~= views(fields@));
    while i < fields.len()
        invariant
            i <= fields@.len(),
            find_field(views(fields@), name@) == find_field(views(fields@).skip(i as int), name@),
        decreases fields@.len() - i,
    {
        assert(views(fields@).skip(i as int)[0] == field_view(fields@[i as int]));
        assert(views(fields@).skip(i as int).drop_first() =~= views(fields@).skip(i + 1));
        if str_equal(fields[i].name, name) {
            return Some(fields[i]);
        }
        i = i + 1;
    }
    assert(views(fields@).skip(i as int).len() == 0);
    None
}

/// Whether a value has the kind a field view requires.
pub open spec fn kind_valid(kind: KindView, v: JsonValue) -> bool {
    match kind {
        KindView::String => v is Str,
        KindView::PositiveInteger => json_u64(v) matches Some(n) && n > 0,
        KindView::Boolean => v is Bool,
        KindView::StringArray => v matches JsonValue::Array(items) && forall|i: int|
            0 <= i < items@.len() ==> (#[trigger] items@[i]) is Str,
        KindView::Object => v is Object,
        KindView::Enum(values) => json_str(v) matches Some(s) && values.contains(s),
    }
}

/// The message that refuses a value of the wrong kind.
pub open spec fn kind_message(name: Seq<char>, kind: KindView) -> Seq<char> {
    match kind {
        KindView::String => name + " must be a string"@,
        KindView::PositiveInteger => name + " must be a positive integer"@,
        KindView::Boolean => name + " must be a boolean"@,
        KindView::StringArray => name + " must be an array of strings"@,
        KindView::Object => name + " must be a JSON object"@,
        KindView::Enum(values) => name + " must be one of "@ + crate::provenance::join(values, ", "@),
    }
}

/// Why a field's value is refused, if it is: a null, or a value of the
/// wrong kind (an invalid value for an enumerated field, else an invalid type).
pub open spec fn field_refusal(f: FieldView, v: JsonValue) -> Refusal {
    if v is Null {
        Some((ServiceRequestIssueKind::InvalidFieldType, f.name + " must not be null"@))
    } else if !kind_valid(f.kind, v) {
        Some(
            (
                if f.kind is Enum {
                    ServiceRequestIssueKind::InvalidFieldValue
                } else {
                    ServiceRequestIssueKind::InvalidFieldType
                },
                kind_message(f.name, f.kind),
            ),
        )
    } else {
        None
    }
}

/// Why the canonical fields of a request refuse it, if they do: the first
/// member, in order, that the ledger does not know or whose value it
/// refuses. `params` is recognised but not checked here.
pub open spec fn canonical_refusal(members: Seq<JsonMember>) -> Refusal
    decreases members.len(),
{
    if members.len() == 0 {
        None
    } else {
        match find_field(field_ledger(), members[0].key@) {
            None => Some((ServiceRequestIssueKind::UnknownField, "unknown service request field: "@ + members[0].key@)),
            Some(f) => if f.name != "params"@ && field_refusal(f, members[0].value) is Some {
                field_refusal(f, members[0].value)
            } else {
                canonical_refusal(members.drop_first())
            },
        }
    }
}

/// The members of an object; nothing for any other value.
pub open spec fn object_members(v: JsonValue) -> Seq<JsonMember> {
    match v {
        JsonValue::Object(m) => m@,
        _ => Seq::empty(),
    }
}

/// Checks every member of a request object against the canonical ledger.
pub fn validate_canonical_fields(request: &JsonValue) -> (r: Result<(), ServiceRequestIssue>)
    ensures
        match r {
            Ok(()) => canonical_refusal(object_members(*request)) is None,
            Err(e) => issue_is(e, canonical_refusal(object_members(*request))),
        },
{
    let members = match request {
        JsonValue::Object(m) => m,
        _ => return Ok(()),
    };
    let fields = service_request_fields();
    let mut i: usize = 0;
    assert(members@.skip(0) =~= members@);
    while i < members.len()
        invariant
            i <= members@.len(),
            object_members(*request) == members@,
            views(fields@) == field_ledger(),
            canonical_refusal(members@) == canonical_refusal(members@.skip(i as int)),
        decreases members@.len() - i,
    {
        assert(members@.skip(i as int)[0] == members@[i as int]);
        assert(members@.skip(i as int).drop_first() =~= members@.skip(i + 1));
        let name = members[i].key.as_str();
        match lookup_field(&fields, name) {
            None => {
                let m = concat2("unknown service request field: ", name);
                return Err(issue(ServiceRequestIssueKind::UnknownField, m.as_str()));
            },
            Some(spec) => {
                if !str_equal(spec.name, "params") {
                    match validate_field(&spec, &members[i].value) {
                        Ok(()) => {},
                        Err(e) => {
                            return Err(e);
                        },
                    }
                }
            },
        }
        i = i + 1;
    }
    Ok(())
}

/// The ledger field at `i` is the first one named `name`.
proof fn lemma_find_field_at(ledger: Seq<FieldView>, i: int, name: Seq<char>)
    requires
        0 <= i < ledger.len(),
        ledger[i].name == name,
        forall|j: int| 0 <= j < i ==> (#[trigger] ledger[j]).name != name,
    ensures
        find_field(ledger, name) == Some(ledger[i]),
    decreases i,
{
    if i > 0 {
        assert(ledger[0].name != name);
        assert forall|j: int| 0 <= j < i - 1 implies (#[trigger] ledger.drop_first()[j]).name != name by {
            assert(ledger.drop_first()[j] == ledger[j + 1]);
        }
        lemma_find_field_at(ledger.drop_first(), i - 1, name);
    }
}

/// A field the ledger finds carries the name it was found by.
proof fn lemma_find_field_name(ledger: Seq<FieldView>, name: Seq<char>)
    ensures
        find_field(ledger, name) matches Some(f) ==> f.name == name,
    decreases ledger.len(),
{
    if ledger.len() > 0 && ledger[0].name != name {
        lemma_find_field_name(ledger.drop_first(), name);
    }
}

/// Once the canonical fields pass, the first member under a known,
/// checked name holds a value its field accepts.
proof fn lemma_canonical_field_ok(members: Seq<JsonMember>, k: Seq<char>, f: FieldView)
    requires
        canonical_refusal(members) is None,
        find_field(field_ledger(), k) == Some(f),
        f.name != "params"@,
        members_get(members, k) is Some,
    ensures
        field_refusal(f, members_get(members, k)->0) is None,
    decreases members.len(),
{
    if members[0].key@ != k {
        lemma_canonical_field_ok(members.drop_first(), k, f);
    }
}

/// The ledger's monitor-summary field requires an object.
proof fn lemma_monitor_field()
    ensures
        find_field(field_ledger(), "monitorRunDueSummary"@) == Some(
            field_view_of("monitorRunDueSummary"@, KindView::Object, false, false, false),
        ),
{
    reveal_strlit("action");
    reveal_strlit("params");
    reveal_strlit("jobTimeoutMs");
    reveal_strlit("serviceStateLockTimeoutMs");
    reveal_strlit("profileLeasePolicy");
    reveal_strlit("profileLeaseWaitTimeoutMs");
    reveal_strlit("blockedByManualAction");
    reveal_strlit("manualSeedingRequired");
    reveal_strlit("allowManualAction");
    reveal_strlit("monitorRunDueSummary");
    let l = field_ledger();
    assert(ledger_core().len() == 21);
    assert forall|j: int| 0 <= j < 10 implies (#[trigger] l[j]) == ledger_core()[j] by {}
    assert("monitorRunDueSummary"@.len() == 20);
    assert forall|j: int| 0 <= j < 9 implies (#[trigger] l[j]).name != "monitorRunDueSummary"@ by {
        assert(l[j].name.len() != 20);
    }
    lemma_find_field_at(l, 9, "monitorRunDueSummary"@);
}

/// A request whose canonical fields pass carries any monitor summary as an object.
proof fn lemma_monitor_summary_readable(request: JsonValue)
    requires
        request is Object,
        canonical_refusal(object_members(request)) is None,
    ensures
        monitor_summary_readable(request),
{
    if json_get(request, "monitorRunDueSummary"@) is Some {
        lemma_monitor_field();
        reveal_strlit("params");
        reveal_strlit("monitorRunDueSummary");
        assert("params"@.len() == 6);
        lemma_canonical_field_ok(
            object_members(request),
            "monitorRunDueSummary"@,
            field_view_of("monitorRunDueSummary"@, KindView::Object, false, false, false),
        );
    }
}

/// When no gate refuses, none of them does.
proof fn lemma_first_refusal_none(s: Seq<Refusal>, i: int)
    requires
        first_refusal(s) is None,
        0 <= i < s.len(),
    ensures
        s[i] is None,
    decreases s.len(),
{
    if i > 0 {
        lemma_first_refusal_none(s.drop_first(), i - 1);
    }
}

/// Fields of the request that `params` cannot set.
pub open spec fn reserved_param(k: Seq<char>) -> bool {
    k == "id"@ || k == "action"@ || k == "connectionInstanceId"@ || k == "profileChildAccess"@
}

/// Whether a field is one `params` cannot set.
fn is_reserved_param(k: &str) -> (r: bool)
    ensures
        r == reserved_param(k@),
{
    str_equal(k, "id") || str_equal(k, "action") || str_equal(k, "connectionInstanceId") || str_equal(
        k,
        "profileChildAccess",
    )
}

/// Whether ledger entries before `n` give field `k` a non-structural
/// command role (or, with `command` false, a trace role).
pub open spec fn projects_within(ledger: Seq<FieldView>, n: nat, k: Seq<char>, command: bool) -> bool
    decreases n,
{
    if n == 0 {
        false
    } else {
        projects_within(ledger, (n - 1) as nat, k, command) || (ledger[n - 1].name == k
            && !ledger[n - 1].structural && if command {
            ledger[n - 1].command
        } else {
            ledger[n - 1].trace
        })
    }
}

/// Whether the ledger projects field `k` into the command (or the trace).
pub open spec fn ledger_projects(k: Seq<char>, command: bool) -> bool {
    projects_within(field_ledger(), field_ledger().len(), k, command)
}

/// Two optional values that are both absent or the same JSON.
pub open spec fn opt_same(a: Option<JsonValue>, b: Option<JsonValue>) -> bool {
    match a {
        Some(x) => match b {
            Some(y) => json_same(x, y),
            None => false,
        },
        None => b is None,
    }
}

/// An optional value that is the string `s`.
pub open spec fn text_value(v: Option<JsonValue>, s: Seq<char>) -> bool {
    v matches Some(x) && json_str(x) == Some(s)
}

/// Copies each present, non-structural ledger field of the request into the
/// command and the trace by its roles.
fn project_ledger(
    fields: &Vec<ServiceRequestFieldSpec>,
    request: &JsonValue,
    command: &mut JsonValue,
    trace: &mut JsonValue,
)
    requires
        views(fields@) == field_ledger(),
        *old(command) is Object,
        *old(trace) is Object,
    ensures
        *final(command) is Object,
        *final(trace) is Object,
        forall|k: Seq<char>|
            if ledger_projects(k, true) && json_get(*request, k) is Some {
                opt_same(#[trigger] json_get(*final(command), k), json_get(*request, k))
            } else {
                json_get(*final(command), k) == json_get(*old(command), k)
            },
        forall|k: Seq<char>|
            if ledger_projects(k, false) && json_get(*request, k) is Some {
                opt_same(#[trigger] json_get(*final(trace), k), json_get(*request, k))
            } else {
                json_get(*final(trace), k) == json_get(*old(trace), k)
            },
{
    let ghost c0 = *command;
    let ghost t0 = *trace;
    let ghost l = field_ledger();
    let mut j: usize = 0;
    while j < fields.len()
        invariant
            j <= fields@.len(),
            views(fields@) == l,
            l == field_ledger(),
            *command is Object,
            *trace is Object,
            forall|k: Seq<char>|
                if projects_within(l, j as nat, k, true) && json_get(*request, k) is Some {
                    opt_same(#[trigger] json_get(*command, k), json_get(*request, k))
                } else {
                    json_get(*command, k) == json_get(c0, k)
                },
            forall|k: Seq<char>|
                if projects_within(l, j as nat, k, false) && json_get(*request, k) is Some {
                    opt_same(#[trigger] json_get(*trace, k), json_get(*request, k))
                } else {
                    json_get(*trace, k) == json_get(t0, k)
                },
        decreases fields@.len() - j,
    {
        let f = fields[j];
        assert(l[j as int] == field_view(f));
        let ghost cj = *command;
        let ghost tj = *trace;
        if !f.structural {
            match request.get(f.name) {
                Some(v) => {
                    if f.command {
                        let c = copy_value(v);
                        set_member(command, f.name, c);
                    }
                    if f.trace {
                        let c = copy_value(v);
                        set_member(trace, f.name, c);
                    }
                },
                None => {},
            }
        }
        assert forall|k: Seq<char>|
            if projects_within(l, (j + 1) as nat, k, true) && json_get(*request, k) is Some {
                opt_same(#[trigger] json_get(*command, k), json_get(*request, k))
            } else {
                json_get(*command, k) == json_get(c0, k)
            } by {
            if k != f.name@ {
                assert(json_get(*command, k) == json_get(cj, k));
            }
        }
        assert forall|k: Seq<char>|
            if projects_within(l, (j + 1) as nat, k, false) && json_get(*request, k) is Some {
                opt_same(#[trigger] json_get(*trace, k), json_get(*request, k))
            } else {
                json_get(*trace, k) == json_get(t0, k)
            } by {
            if k != f.name@ {
                assert(json_get(*trace, k) == json_get(tj, k));
            }
        }
        j = j + 1;
    }
}

/// Copies each member of `params` that is not reserved into the command; the
/// first member under a key decides its value.
fn project_params(params: &Vec<JsonMember>, command: &mut JsonValue)
    requires
        *old(command) is Object,
    ensures
        *final(command) is Object,
        forall|k: Seq<char>|
            if !reserved_param(k) && members_get(params@, k) is Some {
                opt_same(#[trigger] json_get(*final(command), k), members_get(params@, k))
            } else {
                json_get(*final(command), k) == json_get(*old(command), k)
            },
{
    let ghost c0 = *command;
    let mut i: usize = params.len();
    assert(params@.skip(i as int) =~= Seq::<JsonMember>::empty());
    while i > 0
        invariant
            i <= params@.len(),
            *command is Object,
            forall|k: Seq<char>|
                if !reserved_param(k) && members_get(params@.skip(i as int), k) is Some {
                    opt_same(#[trigger] json_get(*command, k), members_get(params@.skip(i as int), k))
                } else {
                    json_get(*command, k) == json_get(c0, k)
                },
        decreases i,
    {
        let ghost ci = *command;
        let ghost after = params@.skip(i as int);
        i = i - 1;
        let m = &params[i];
        assert(params@.skip(i as int)[0] == params@[i as int]);
        assert(params@.skip(i as int).drop_first() =~= after);
        if !is_reserved_param(m.key.as_str()) {
            let c = copy_value(&m.value);
            set_member(command, m.key.as_str(), c);
        }
        assert forall|k: Seq<char>|
            if !reserved_param(k) && members_get(params@.skip(i as int), k) is Some {
                opt_same(#[trigger] json_get(*command, k), members_get(params@.skip(i as int), k))
            } else {
                json_get(*command, k) == json_get(c0, k)
            } by {
            if k != m.key@ {
                assert(json_get(*command, k) == json_get(ci, k));
            }
        }
    }
    assert(params@.skip(0) =~= params@);
}

/// The action a request names; empty when it names none.
pub open spec fn action_of(request: JsonValue) -> Seq<char> {
    match field_str(request, "action"@) {
        Some(a) => a,
        None => Seq::empty(),
    }
}

/// The value a profile-routing field takes: the top-level one, else the
/// one under `params`.
pub open spec fn routing_candidate(request: JsonValue, f: Seq<char>) -> Option<JsonValue> {
    match json_get(request, f) {
        Some(v) => Some(v),
        None => match json_get(request, "params"@) {
            Some(p) => json_get(p, f),
            None => None,
        },
    }
}

/// Whether the caller named a profile: `runtimeProfile`, `profileId` or
/// `profile` is a nonblank string at the top level or under `params`.
pub open spec fn explicit_profile_routing(request: JsonValue) -> bool {
    ||| routing_candidate(request, "runtimeProfile"@) matches Some(v) && nonblank_string(v)
    ||| routing_candidate(request, "profileId"@) matches Some(v) && nonblank_string(v)
    ||| routing_candidate(request, "profile"@) matches Some(v) && nonblank_string(v)
}

/// Whether a routing field names a profile.
fn names_profile(request: &JsonValue, f: &str) -> (r: bool)
    ensures
        r == (routing_candidate(*request, f@) matches Some(v) && nonblank_string(v)),
{
    let v = match request.get(f) {
        Some(v) => Some(v),
        None => match request.get("params") {
            Some(p) => p.get(f),
            None => None,
        },
    };
    match v {
        Some(v) => match v.as_str() {
            Some(s) => !is_blank(s),
            None => false,
        },
        None => false,
    }
}

/// Whether the caller named a profile.
fn names_explicit_profile(request: &JsonValue) -> (r: bool)
    ensures
        r == explicit_profile_routing(*request),
{
    names_profile(request, "runtimeProfile") || names_profile(request, "profileId") || names_profile(request, "profile")
}

/// What `params` contributes under `k`, when it is not reserved.
pub open spec fn params_value(request: JsonValue, k: Seq<char>) -> Option<JsonValue> {
    match json_get(request, "params"@) {
        Some(p) => if reserved_param(k) {
            None
        } else {
            json_get(p, k)
        },
        None => None,
    }
}

/// The inputs of normalization.
pub struct ServiceRequestNormalization<'a> {
    pub request: &'a JsonValue,
    /// Transport-authenticated profile authority; request fields cannot set it.
    pub authenticated_principal: Option<&'a AuthenticatedServicePrincipal>,
    pub fallback_principal: Option<ServiceRequestFallbackPrincipal>,
    pub request_id: &'a str,
    pub effective_session: Option<&'a str>,
    /// The actions the service supports.
    pub supported_actions: &'a [&'a str],
    /// The command field that records, for `view_focus`, whether the caller named a profile.
    pub explicit_profile_routing_field: &'a str,
}

/// A normalized request: the command that runs, the trace that records it,
/// who it is attributed to, and the authenticated authority it carries.
pub struct NormalizedServiceRequest {
    pub command: JsonValue,
    pub trace: JsonValue,
    pub attribution: ServiceRequestAttribution,
    pub principal_authority: Option<AuthenticatedServicePrincipal>,
}

/// The fallback principal as the attribution contract reads it.
pub open spec fn fallback_of<'a>(input: ServiceRequestNormalization<'a>) -> Option<(ServiceRequestPrincipalSource, Seq<char>)> {
    match input.fallback_principal {
        Some(f) => Some((f.source, f.principal@)),
        None => None,
    }
}

/// What the projection leaves under `k` before any desktop or authority field:
/// the ledger's copy of a request field, else a `params` member, else the
/// `view_focus` routing flag, else the action.
pub open spec fn core_entry<'a>(actual: Option<JsonValue>, input: ServiceRequestNormalization<'a>, k: Seq<char>) -> bool {
    let request = *input.request;
    if ledger_projects(k, true) && json_get(request, k) is Some {
        opt_same(actual, json_get(request, k))
    } else if params_value(request, k) is Some {
        opt_same(actual, params_value(request, k))
    } else if action_of(request) == "view_focus"@ && k == input.explicit_profile_routing_field@ {
        actual == Some(JsonValue::Bool(explicit_profile_routing(request)))
    } else if k == "action"@ {
        text_value(actual, action_of(request))
    } else {
        actual is None
    }
}

/// Whether the projection leaves nothing under `k`.
pub open spec fn core_absent<'a>(input: ServiceRequestNormalization<'a>, k: Seq<char>) -> bool {
    let request = *input.request;
    &&& !(ledger_projects(k, true) && json_get(request, k) is Some)
    &&& params_value(request, k) is None
    &&& !(action_of(request) == "view_focus"@ && k == input.explicit_profile_routing_field@)
    &&& k != "action"@
}

/// Wraps `serde_json::to_string` on three strings: their compact JSON array
/// text. Each string is quoted; a quote or a backslash is escaped by a
/// backslash; U+0008, U+0009, U+000A, U+000C and U+000D become a backslash
/// and `b`, `t`, `n`, `f`, `r`; the other characters below U+0020 become a
/// backslash, `u00` and two lowercase hexadecimal digits; every other
/// character stays as it is. Serializing strings cannot fail.
#[verifier::external_body]
fn strings_json_text(items: &[&str; 3]) -> (r: String)
    ensures
        r@ == quoted_list(texts_of(items@)),
{
    serde_json::to_string(items).expect("strings serialize")
}

/// The operation principal of a desktop interaction, from the JSON text of
/// its attribution tuple.
pub open spec fn operation_principal_from_json(text: Seq<char>) -> Seq<char> {
    "operation-principal-v1:"@ + digest_text_spec(text)
}

/// The operation principal of a desktop interaction, from the JSON text of
/// its attribution tuple: a version tag and the SHA-256 digest in hex.
pub fn operation_principal_id_from_json(text: &str) -> (r: String)
    ensures
        r@ == operation_principal_from_json(text@),
{
    let d = digest_text(text);
    concat2("operation-principal-v1:", d.as_str())
}

/// The operation principal of a desktop interaction request.
pub open spec fn operation_principal_text(request: JsonValue) -> Seq<char> {
    operation_principal_from_json(
        quoted_list(
            seq![
                field_str(request, "serviceName"@)->0,
                field_str(request, "agentName"@)->0,
                field_str(request, "taskName"@)->0,
            ],
        ),
    )
}

/// The operation principal of a desktop interaction request, derived from
/// its service, agent and task labels.
pub fn desktop_interact_operation_principal_id(request: &JsonValue) -> (r: String)
    requires
        field_str(*request, "serviceName"@) is Some,
        field_str(*request, "agentName"@) is Some,
        field_str(*request, "taskName"@) is Some,
    ensures
        r@ == operation_principal_text(*request),
{
    let s = match request.field_str("serviceName") {
        Some(s) => s,
        None => "",
    };
    let a = match request.field_str("agentName") {
        Some(a) => a,
        None => "",
    };
    let t = match request.field_str("taskName") {
        Some(t) => t,
        None => "",
    };
    let items: [&str; 3] = [s, a, t];
    assert(texts_of(items@) =~= seq![s@, a@, t@]);
    let text = strings_json_text(&items);
    operation_principal_id_from_json(text.as_str())
}

/// The command fields an authenticated principal contributes.
pub open spec fn authority_key(k: Seq<char>) -> bool {
    k == "servicePrincipalId"@ || k == "servicePrincipalProvenance"@ || k == "serviceProfileCapabilityId"@ || k
        == "serviceProfileCapabilityRevision"@
}

/// The value an authenticated principal gives an authority field.
pub open spec fn authority_entry(actual: Option<JsonValue>, a: AuthenticatedServicePrincipal, k: Seq<char>) -> bool {
    if k == "servicePrincipalId"@ {
        text_value(actual, a.principal_id@)
    } else if k == "servicePrincipalProvenance"@ {
        text_value(actual, provenance_name(a.provenance))
    } else if k == "serviceProfileCapabilityId"@ {
        text_value(actual, a.capability_id@)
    } else {
        actual == Some(JsonValue::UInt(a.capability_revision))
    }
}

/// The value the command holds under `k`: the authenticated principal's
/// fields last, then a desktop interaction's operation principal and its
/// effective session, then the projection.
pub open spec fn command_entry<'a>(actual: Option<JsonValue>, input: ServiceRequestNormalization<'a>, k: Seq<char>) -> bool {
    let request = *input.request;
    if input.authenticated_principal is Some && authority_key(k) {
        authority_entry(actual, *input.authenticated_principal->0, k)
    } else if action_of(request) == "desktop_interact"@ && k == "operationPrincipalId"@ {
        text_value(actual, operation_principal_text(request))
    } else if action_of(request) == "desktop_interact"@ && k == "sessionName"@ && core_absent(input, k) {
        text_value(actual, trim(input.effective_session->0@))
    } else {
        core_entry(actual, input, k)
    }
}

/// The value the trace holds under `k`: the ledger's copy of a traced
/// request field; the service, agent and task labels are null otherwise.
pub open spec fn trace_entry(actual: Option<JsonValue>, request: JsonValue, k: Seq<char>) -> bool {
    if ledger_projects(k, false) && json_get(request, k) is Some {
        opt_same(actual, json_get(request, k))
    } else if k == "serviceName"@ || k == "agentName"@ || k == "taskName"@ {
        actual == Some(JsonValue::Null)
    } else {
        actual is None
    }
}

/// Why normalization refuses a request, if it does, in the order the checks
/// run: the body, the action, the canonical fields, the safety gates, the
/// attribution, `params`, and a desktop interaction's session route.
pub open spec fn normalize_refusal<'a>(input: ServiceRequestNormalization<'a>) -> Refusal {
    let request = *input.request;
    let action = action_of(request);
    if !(request is Object) {
        Some((ServiceRequestIssueKind::InvalidRequest, "service request body must be a JSON object"@))
    } else if !(field_str(request, "action"@) matches Some(a) && trim(a).len() > 0) {
        Some((ServiceRequestIssueKind::MissingAction, "service request requires action"@))
    } else if !texts_of(input.supported_actions@).contains(action) {
        Some((ServiceRequestIssueKind::UnsupportedAction, "service request action '"@ + action + "' is not supported"@))
    } else if canonical_refusal(object_members(request)) is Some {
        canonical_refusal(object_members(request))
    } else if first_refusal(safety_gate_refusals(action, request)) is Some {
        first_refusal(safety_gate_refusals(action, request))
    } else if attribution_spec(input.request_id@, request, fallback_of(input)) is Err {
        Some(
            (
                ServiceRequestIssueKind::MissingAccountablePrincipal,
                attribution_spec(input.request_id@, request, fallback_of(input))->Err_0,
            ),
        )
    } else if json_get(request, "params"@) matches Some(p) && !(p is Object) {
        Some((ServiceRequestIssueKind::InvalidFieldType, "params must be a JSON object"@))
    } else if action == "desktop_interact"@ && core_absent(input, "sessionName"@) && !(input.effective_session matches Some(
        s,
    ) && trim(s@).len() > 0) {
        Some((ServiceRequestIssueKind::InvalidBoundedRecipe, "desktop_interact requires an effective session route"@))
    } else {
        None
    }
}

/// Whether a list of strings contains `s`.
fn contains_text(values: &[&str], s: &str) -> (r: bool)
    ensures
        r == texts_of(values@).contains(s@),
{
    let mut i: usize = 0;
    while i < values.len()
        invariant
            i <= values@.len(),
            forall|j: int| 0 <= j < i ==> (#[trigger] values@[j])@ != s@,
        decreases values@.len() - i,
    {
        if str_equal(values[i], s) {
            assert(texts_of(values@)[i as int] == s@);
            return true;
        }
        i = i + 1;
    }
    assert forall|j: int| 0 <= j < texts_of(values@).len() implies (#[trigger] texts_of(values@)[j]) != s@ by {
        assert(texts_of(values@)[j] == values@[j]@);
    }
    false
}

/// A copy of an authenticated principal.
fn copy_principal(a: &AuthenticatedServicePrincipal) -> (r: AuthenticatedServicePrincipal)
    ensures
        r == *a,
{
    AuthenticatedServicePrincipal {
        principal_id: a.principal_id.clone(),
        profile_id: a.profile_id.clone(),
        capability_id: a.capability_id.clone(),
        capability_revision: a.capability_revision,
        provenance: a.provenance,
    }
}

/// Normalizes one service request without transport or queue I/O: checks
/// it in a fixed order and projects it into the command that runs and the
/// trace that records it.
#[verifier::rlimit(80)]
pub fn normalize_service_request(input: ServiceRequestNormalization) -> (r: Result<
    NormalizedServiceRequest,
    ServiceRequestIssue,
>)
    ensures
        match r {
            Ok(n) => {
                &&& normalize_refusal(input) is None
                &&& n.command is Object
                &&& n.trace is Object
                &&& attribution_spec(input.request_id@, *input.request, fallback_of(input)) == Ok::<
                    (ServiceRequestPrincipalSource, Seq<char>),
                    Seq<char>,
                >((n.attribution.source, n.attribution.principal@))
                &&& n.attribution.request_id@ == input.request_id@
                &&& forall|k: Seq<char>| command_entry(#[trigger] json_get(n.command, k), input, k)
                &&& forall|k: Seq<char>| trace_entry(#[trigger] json_get(n.trace, k), *input.request, k)
                &&& n.principal_authority == match input.authenticated_principal {
                    Some(a) => Some(*a),
                    None => None,
                }
            },
            Err(e) => issue_is(e, normalize_refusal(input)),
        },
{
    let request = input.request;
    let is_object = match request {
        JsonValue::Object(_) => true,
        _ => false,
    };
    if !is_object {
        return Err(issue(ServiceRequestIssueKind::InvalidRequest, "service request body must be a JSON object"));
    }
    let action = match request.field_str("action") {
        Some(a) => {
            if is_blank(a) {
                return Err(issue(ServiceRequestIssueKind::MissingAction, "service request requires action"));
            }
            a
        },
        None => return Err(issue(ServiceRequestIssueKind::MissingAction, "service request requires action")),
    };
    assert(action@ == action_of(*request));
    let explicit = names_explicit_profile(request);
    if !contains_text(input.supported_actions, action) {
        let m = concat3("service request action '", action, "' is not supported");
        return Err(issue(ServiceRequestIssueKind::UnsupportedAction, m.as_str()));
    }
    match validate_canonical_fields(request) {
        Ok(()) => {},
        Err(e) => return Err(e),
    }
    proof {
        lemma_monitor_summary_readable(*request);
    }
    match validate_safety_gates(action, request) {
        Ok(()) => {},
        Err(e) => return Err(e),
    }
    let attribution = match derive_service_request_attribution(input.request_id, request, &input.fallback_principal) {
        Ok(a) => a,
        Err(e) => return Err(e),
    };
    let mut command = JsonValue::Object(Vec::new());
    set_member(&mut command, "action", JsonValue::Str(owned(action)));
    let is_view_focus = str_equal(action, "view_focus");
    if is_view_focus {
        set_member(&mut command, input.explicit_profile_routing_field, JsonValue::Bool(explicit));
    }
    assert forall|k: Seq<char>| base_entry(#[trigger] json_get(command, k), input, k) by {}
    let ghost c1 = command;
    match request.get("params") {
        Some(p) => match p {
            JsonValue::Object(pm) => {
                project_params(pm, &mut command);
            },
            _ => return Err(issue(ServiceRequestIssueKind::InvalidFieldType, "params must be a JSON object")),
        },
        None => {},
    }
    assert forall|k: Seq<char>| params_entry(#[trigger] json_get(command, k), input, k) by {
        assert(base_entry(json_get(c1, k), input, k));
    }
    let ghost c2 = command;
    let mut trace = JsonValue::Object(Vec::new());
    set_member(&mut trace, "serviceName", JsonValue::Null);
    set_member(&mut trace, "agentName", JsonValue::Null);
    set_member(&mut trace, "taskName", JsonValue::Null);
    let ghost t1 = trace;
    let fields = service_request_fields();
    project_ledger(&fields, request, &mut command, &mut trace);
    assert forall|k: Seq<char>| core_entry(#[trigger] json_get(command, k), input, k) by {
        assert(params_entry(json_get(c2, k), input, k));
    }
    assert forall|k: Seq<char>| trace_entry(#[trigger] json_get(trace, k), *request, k) by {
        if !(ledger_projects(k, false) && json_get(*request, k) is Some) {
            assert(json_get(trace, k) == json_get(t1, k));
        }
    }
    let ghost c3 = command;
    let is_desktop_interact = str_equal(action, "desktop_interact");
    if is_desktop_interact && command.get("sessionName").is_none() {
        assert(core_absent(input, "sessionName"@));
        let session = match input.effective_session {
            Some(s) => trim_owned(s),
            None => {
                return Err(
                    issue(ServiceRequestIssueKind::InvalidBoundedRecipe, "desktop_interact requires an effective session route"),
                );
            },
        };
        if session.as_str().is_empty() {
            return Err(
                issue(ServiceRequestIssueKind::InvalidBoundedRecipe, "desktop_interact requires an effective session route"),
            );
        }
        set_member(&mut command, "sessionName", JsonValue::Str(session));
    }
    proof {
        if is_desktop_interact && !(json_get(c3, "sessionName"@) is None) {
            assert(!core_absent(input, "sessionName"@));
        }
    }
    let ghost c4 = command;
    if is_desktop_interact {
        proof {
            let gates = safety_gate_refusals(action@, *request);
            lemma_first_refusal_none(gates, 11);
            assert(crate::desktop::desktop_interact_refusal(action@, *request) is None);
            reveal_with_fuel(crate::desktop::first_missing, 7);
        }
        let id = desktop_interact_operation_principal_id(request);
        set_member(&mut command, "operationPrincipalId", JsonValue::Str(id));
    }
    let ghost c5 = command;
    let principal_authority = match input.authenticated_principal {
        Some(a) => {
            proof {
                reveal_strlit("servicePrincipalId");
                reveal_strlit("servicePrincipalProvenance");
                reveal_strlit("serviceProfileCapabilityId");
                reveal_strlit("serviceProfileCapabilityRevision");
                assert("servicePrincipalProvenance"@[9] != "serviceProfileCapabilityId"@[9]);
                assert("servicePrincipalId"@.len() == 18);
                assert("servicePrincipalProvenance"@.len() == 26);
                assert("serviceProfileCapabilityId"@.len() == 26);
                assert("serviceProfileCapabilityRevision"@.len() == 32);
            }
            set_member(&mut command, "servicePrincipalId", JsonValue::Str(a.principal_id.clone()));
            let ghost d1 = command;
            set_member(&mut command, "servicePrincipalProvenance", JsonValue::Str(owned(provenance_str(a.provenance))));
            let ghost d2 = command;
            set_member(&mut command, "serviceProfileCapabilityId", JsonValue::Str(a.capability_id.clone()));
            let ghost d3 = command;
            set_member(&mut command, "serviceProfileCapabilityRevision", JsonValue::UInt(a.capability_revision));
            assert(json_get(command, "servicePrincipalId"@) == json_get(d3, "servicePrincipalId"@));
            assert(json_get(d3, "servicePrincipalId"@) == json_get(d2, "servicePrincipalId"@));
            assert(json_get(d2, "servicePrincipalId"@) == json_get(d1, "servicePrincipalId"@));
            assert(json_get(command, "servicePrincipalProvenance"@) == json_get(d3, "servicePrincipalProvenance"@));
            assert(json_get(d3, "servicePrincipalProvenance"@) == json_get(d2, "servicePrincipalProvenance"@));
            assert(json_get(command, "serviceProfileCapabilityId"@) == json_get(d3, "serviceProfileCapabilityId"@));
            assert forall|k: Seq<char>| authority_key(k) implies authority_entry(#[trigger] json_get(command, k), *a, k) by {}
            assert forall|k: Seq<char>| !authority_key(k) implies #[trigger] json_get(command, k) == json_get(c5, k) by {}
            Some(copy_principal(a))
        },
        None => None,
    };
    proof {
        reveal_strlit("servicePrincipalId");
        reveal_strlit("servicePrincipalProvenance");
        reveal_strlit("serviceProfileCapabilityId");
        reveal_strlit("serviceProfileCapabilityRevision");
        reveal_strlit("operationPrincipalId");
        reveal_strlit("sessionName");
        assert("servicePrincipalProvenance"@[9] != "serviceProfileCapabilityId"@[9]);
        assert("sessionName"@.len() == 11);
        assert("operationPrincipalId"@.len() == 20);
    }
    assert forall|k: Seq<char>| command_entry(#[trigger] json_get(command, k), input, k) by {
        if input.authenticated_principal is Some && authority_key(k) {
            assert(authority_entry(json_get(command, k), *input.authenticated_principal->0, k));
        } else if is_desktop_interact && k == "operationPrincipalId"@ {
            assert(text_value(json_get(command, k), operation_principal_text(*request)));
        } else if is_desktop_interact && k == "sessionName"@ && core_absent(input, k) {
            assert(json_get(command, k) == json_get(c4, k));
            assert(text_value(json_get(command, k), trim(input.effective_session->0@)));
        }
        if !(input.authenticated_principal is Some && authority_key(k)) {
            assert(json_get(command, k) == json_get(c5, k));
            if !(is_desktop_interact && k == "operationPrincipalId"@) {
                assert(json_get(c5, k) == json_get(c4, k));
                assert(core_entry(json_get(c3, k), input, k));
                if is_desktop_interact && k == "sessionName"@ {
                    if core_absent(input, k) {
                        assert(json_get(c3, k) is None);
                    } else {
                        assert(json_get(c3, k) is Some);
                        assert(json_get(c4, k) == json_get(c3, k));
                    }
                } else {
                    assert(json_get(c4, k) == json_get(c3, k));
                }
            }
        }
    }
    Ok(NormalizedServiceRequest { command, trace, attribution, principal_authority })
}

/// What the command holds under `k` before `params` and the ledger: the
/// `view_focus` routing flag, else the action.
pub open spec fn base_entry<'a>(actual: Option<JsonValue>, input: ServiceRequestNormalization<'a>, k: Seq<char>) -> bool {
    let request = *input.request;
    if action_of(request) == "view_focus"@ && k == input.explicit_profile_routing_field@ {
        actual == Some(JsonValue::Bool(explicit_profile_routing(request)))
    } else if k == "action"@ {
        text_value(actual, action_of(request))
    } else {
        actual is None
    }
}

/// What the command holds under `k` once `params` is projected.
pub open spec fn params_entry<'a>(actual: Option<JsonValue>, input: ServiceRequestNormalization<'a>, k: Seq<char>) -> bool {
    if params_value(*input.request, k) is Some {
        opt_same(actual, params_value(*input.request, k))
    } else {
        base_entry(actual, input, k)
    }
}

/// Attaches the transport-proven request identity to a command: the caller,
/// the request id and the source of the principal.
pub fn apply_service_request_attribution(command: &mut JsonValue, attribution: &ServiceRequestAttribution)
    requires
        *old(command) is Object,
    ensures
        *final(command) is Object,
        text_value(json_get(*final(command), "callerId"@), attribution.principal@),
        text_value(json_get(*final(command), "requestId"@), attribution.request_id@),
        text_value(
            json_get(*final(command), "requestPrincipalSource"@),
            crate::request::source_name(attribution.source),
        ),
        forall|k: Seq<char>|
            k != "callerId"@ && k != "requestId"@ && k != "requestPrincipalSource"@ ==> #[trigger] json_get(
                *final(command),
                k,
            ) == json_get(*old(command), k),
{
    proof {
        reveal_strlit("callerId");
        reveal_strlit("requestId");
        reveal_strlit("requestPrincipalSource");
        assert("callerId"@.len() == 8);
        assert("requestId"@.len() == 9);
        assert("requestPrincipalSource"@.len() == 22);
    }
    set_member(command, "callerId", JsonValue::Str(attribution.principal.clone()));
    let ghost c1 = *command;
    set_member(command, "requestId", JsonValue::Str(attribution.request_id.clone()));
    let ghost c2 = *command;
    set_member(command, "requestPrincipalSource", JsonValue::Str(owned(attribution.source.as_str())));
    assert(json_get(*command, "callerId"@) == json_get(c2, "callerId"@));
    assert(json_get(c2, "callerId"@) == json_get(c1, "callerId"@));
    assert(json_get(*command, "requestId"@) == json_get(c2, "requestId"@));
}

/// Whether every routing field and every traced field of a ledger is also
/// projected into the command.
pub open spec fn roles_nest(ledger: Seq<FieldView>) -> bool {
    forall|i: int|
        0 <= i < ledger.len() ==> ((#[trigger] ledger[i]).routing ==> ledger[i].command) && (ledger[i].trace
            ==> ledger[i].command)
}

/// In the canonical ledger, a routing or traced field is always a command
/// field too: nothing is routed or traced that the command does not carry.
pub proof fn law_ledger_roles_nest()
    ensures
        roles_nest(field_ledger()),
{
    let (a, b, c, d) = (ledger_core(), ledger_execution(), ledger_identity(), ledger_routing());
    assert(roles_nest(a));
    assert(roles_nest(b));
    assert(roles_nest(c));
    assert(roles_nest(d));
    let l = field_ledger();
    assert forall|i: int| 0 <= i < l.len() implies ((#[trigger] l[i]).routing ==> l[i].command) && (l[i].trace
        ==> l[i].command) by {
        if i < a.len() {
            assert(l[i] == a[i]);
        } else if i < a.len() + b.len() {
            assert(l[i] == b[i - a.len()]);
        } else if i < a.len() + b.len() + c.len() {
            assert(l[i] == c[i - a.len() - b.len()]);
        } else {
            assert(l[i] == d[i - a.len() - b.len() - c.len()]);
        }
    }
}

} // verus!
