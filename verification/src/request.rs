//! Schema-backed service request checks that run before any job exists:
//! typed request issues, canonical field kinds, route intent that a generic
//! tab job cannot execute, and the accountable principal of a request.

use vstd::prelude::*;
use crate::json::{field_bool, field_str, field_u64, json_get, json_str, json_u64, JsonValue};
use crate::provenance::join_strings;
use crate::text::{concat2, concat3, is_blank, owned, str_equal, strs, trim, trim_owned};

verus! {

/// Why `tab_new` refuses a request that carries remote-view route intent.
pub const TAB_NEW_ROUTE_INTENT_MESSAGE: &'static str =
    "tab_new cannot execute remote-view route intent; use authenticated remote_view_open to acquire the route and serviceTabHandle";

/// Why a service request was refused before dispatch.
#[derive(PartialEq, Eq, Structural, Clone, Copy)]
pub enum ServiceRequestIssueKind {
    InvalidRequest,
    MissingAction,
    UnsupportedAction,
    UnknownField,
    InvalidFieldType,
    InvalidFieldValue,
    BlockedManualAction,
    StaleMonitorEvidence,
    ForbiddenCdpExecution,
    InvalidServiceTabHandle,
    InvalidBoundedRecipe,
    RouteHintFailure,
    MissingAccountablePrincipal,
}

/// A refused service request.
pub struct ServiceRequestIssue {
    pub kind: ServiceRequestIssueKind,
    message: String,
    /// Whether a profile access decision denied the request.
    access_denied: bool,
}

/// The stable code of an issue kind.
pub open spec fn kind_code(kind: ServiceRequestIssueKind) -> Seq<char> {
    match kind {
        ServiceRequestIssueKind::InvalidRequest => "invalid_request"@,
        ServiceRequestIssueKind::MissingAction => "missing_action"@,
        ServiceRequestIssueKind::UnsupportedAction => "unsupported_action"@,
        ServiceRequestIssueKind::UnknownField => "unknown_field"@,
        ServiceRequestIssueKind::InvalidFieldType => "invalid_field_type"@,
        ServiceRequestIssueKind::InvalidFieldValue => "invalid_field_value"@,
        ServiceRequestIssueKind::BlockedManualAction => "blocked_manual_action"@,
        ServiceRequestIssueKind::StaleMonitorEvidence => "stale_monitor_evidence"@,
        ServiceRequestIssueKind::ForbiddenCdpExecution => "forbidden_cdp_execution"@,
        ServiceRequestIssueKind::InvalidServiceTabHandle => "invalid_service_tab_handle"@,
        ServiceRequestIssueKind::InvalidBoundedRecipe => "invalid_bounded_recipe"@,
        ServiceRequestIssueKind::RouteHintFailure => "route_hint_failure"@,
        ServiceRequestIssueKind::MissingAccountablePrincipal => "missing_accountable_principal"@,
    }
}

impl ServiceRequestIssue {
    /// The kind of the issue.
    pub closed spec fn spec_kind(&self) -> ServiceRequestIssueKind {
        self.kind
    }

    /// The message of the issue.
    pub closed spec fn message_view(&self) -> Seq<char> {
        self.message@
    }

    /// Whether a profile access decision denied the request.
    pub closed spec fn denied_by_access(&self) -> bool {
        self.access_denied
    }

    /// The stable code of the issue: `profile_access_denied` for an access
    /// denial; for a route hint failure, the message itself when it names a
    /// browser or session conflict; otherwise the code of its kind.
    pub open spec fn code_spec(&self) -> Seq<char> {
        if self.denied_by_access() {
            "profile_access_denied"@
        } else if self.spec_kind() == ServiceRequestIssueKind::RouteHintFailure && (self.message_view()
            == "service_access_plan_route_browser_conflict"@ || self.message_view()
            == "service_access_plan_route_session_conflict"@) {
            self.message_view()
        } else {
            kind_code(self.spec_kind())
        }
    }

    /// An issue of `kind` with `message`.
    pub fn new(kind: ServiceRequestIssueKind, message: &str) -> (r: Self)
        ensures
            r.spec_kind() == kind,
            r.message_view() == message@,
            !r.denied_by_access(),
    {
        ServiceRequestIssue { kind, message: owned(message), access_denied: false }
    }

    /// An issue that a profile access decision raised.
    pub fn access_denied(kind: ServiceRequestIssueKind, message: &str) -> (r: Self)
        ensures
            r.spec_kind() == kind,
            r.message_view() == message@,
            r.denied_by_access(),
    {
        ServiceRequestIssue { kind, message: owned(message), access_denied: true }
    }

    /// The message of the issue.
    pub fn message(&self) -> (r: &str)
        ensures
            r@ == self.message_view(),
    {
        self.message.as_str()
    }

    /// The stable code of the issue.
    pub fn code(&self) -> (r: &str)
        ensures
            r@ == self.code_spec(),
    {
        if self.access_denied {
            return "profile_access_denied";
        }
        match self.kind {
            ServiceRequestIssueKind::InvalidRequest => "invalid_request",
            ServiceRequestIssueKind::MissingAction => "missing_action",
            ServiceRequestIssueKind::UnsupportedAction => "unsupported_action",
            ServiceRequestIssueKind::UnknownField => "unknown_field",
            ServiceRequestIssueKind::InvalidFieldType => "invalid_field_type",
            ServiceRequestIssueKind::InvalidFieldValue => "invalid_field_value",
            ServiceRequestIssueKind::BlockedManualAction => "blocked_manual_action",
            ServiceRequestIssueKind::StaleMonitorEvidence => "stale_monitor_evidence",
            ServiceRequestIssueKind::ForbiddenCdpExecution => "forbidden_cdp_execution",
            ServiceRequestIssueKind::InvalidServiceTabHandle => "invalid_service_tab_handle",
            ServiceRequestIssueKind::InvalidBoundedRecipe => "invalid_bounded_recipe",
            ServiceRequestIssueKind::RouteHintFailure => {
                let m = self.message.as_str();
                if str_equal(m, "service_access_plan_route_browser_conflict") || str_equal(
                    m,
                    "service_access_plan_route_session_conflict",
                ) {
                    m
                } else {
                    "route_hint_failure"
                }
            },
            ServiceRequestIssueKind::MissingAccountablePrincipal => "missing_accountable_principal",
        }
    }
}

/// An issue of `kind` with `message`.
pub fn issue(kind: ServiceRequestIssueKind, message: &str) -> (r: ServiceRequestIssue)
    ensures
        r.spec_kind() == kind,
        r.message_view() == message@,
        !r.denied_by_access(),
{
    ServiceRequestIssue::new(kind, message)
}

/// A typed pre-dispatch refusal with its request id; no browser effect or
/// job exists at this boundary.
pub struct ServiceRequestRejection {
    pub issue: ServiceRequestIssue,
    pub request_id: String,
}

impl ServiceRequestRejection {
    /// Records a refusal of request `request_id`. The failure journal entry
    /// is written by the caller.
    pub fn record(request_id: &str, issue: ServiceRequestIssue) -> (r: Self)
        ensures
            r.request_id@ == request_id@,
            r.issue == issue,
    {
        ServiceRequestRejection { issue, request_id: owned(request_id) }
    }
}

/// Where the accountable principal of a request came from.
#[derive(PartialEq, Eq, Structural, Clone, Copy)]
pub enum ServiceRequestPrincipalSource {
    ExplicitLabels,
    AttributionTupleV1,
    AuthenticatedDashboard,
    LocalProcess,
}

/// The snake_case name of a principal source.
pub open spec fn source_name(s: ServiceRequestPrincipalSource) -> Seq<char> {
    match s {
        ServiceRequestPrincipalSource::ExplicitLabels => "explicit_labels"@,
        ServiceRequestPrincipalSource::AttributionTupleV1 => "attribution_tuple_v1"@,
        ServiceRequestPrincipalSource::AuthenticatedDashboard => "authenticated_dashboard"@,
        ServiceRequestPrincipalSource::LocalProcess => "local_process"@,
    }
}

impl ServiceRequestPrincipalSource {
    /// The snake_case name of the source.
    pub fn as_str(self) -> (r: &'static str)
        ensures
            r@ == source_name(self),
    {
        match self {
            ServiceRequestPrincipalSource::ExplicitLabels => "explicit_labels",
            ServiceRequestPrincipalSource::AttributionTupleV1 => "attribution_tuple_v1",
            ServiceRequestPrincipalSource::AuthenticatedDashboard => "authenticated_dashboard",
            ServiceRequestPrincipalSource::LocalProcess => "local_process",
        }
    }
}

/// The accountable principal of a request.
pub struct ServiceRequestAttribution {
    pub source: ServiceRequestPrincipalSource,
    pub principal: String,
    pub request_id: String,
}

/// A transport-supplied principal used when the request carries no complete
/// attribution labels.
pub struct ServiceRequestFallbackPrincipal {
    pub source: ServiceRequestPrincipalSource,
    pub principal: String,
}

/// The trimmed text of a string field, when present.
pub open spec fn trimmed_field(request: JsonValue, key: Seq<char>) -> Option<Seq<char>> {
    match field_str(request, key) {
        Some(s) => Some(trim(s)),
        None => None,
    }
}

/// Whether a trimmed field is present and not blank.
pub open spec fn label_present(request: JsonValue, key: Seq<char>) -> bool {
    trimmed_field(request, key) matches Some(s) && s.len() > 0
}

/// What attributing a request yields: the trimmed service, agent and task
/// labels when all are present, else a nonblank fallback principal.
pub open spec fn attribution_spec(
    request_id: Seq<char>,
    request: JsonValue,
    fallback: Option<(ServiceRequestPrincipalSource, Seq<char>)>,
) -> Result<(ServiceRequestPrincipalSource, Seq<char>), Seq<char>> {
    if trim(request_id).len() == 0 {
        Err("effect-capable service request requires a nonempty request ID"@)
    } else if label_present(request, "serviceName"@) && label_present(request, "agentName"@) && label_present(
        request,
        "taskName"@,
    ) {
        Ok((
            if field_str(request, "action"@) == Some("desktop_interact"@) {
                ServiceRequestPrincipalSource::AttributionTupleV1
            } else {
                ServiceRequestPrincipalSource::ExplicitLabels
            },
            "service:"@ + trimmed_field(request, "serviceName"@)->0 + "/agent:"@ + trimmed_field(
                request,
                "agentName"@,
            )->0 + "/task:"@ + trimmed_field(request, "taskName"@)->0,
        ))
    } else {
        match fallback {
            Some((source, principal)) => if trim(principal).len() > 0 {
                Ok((source, trim(principal)))
            } else {
                Err("effect-capable service request requires serviceName, agentName, and taskName, or an authenticated/local principal with request ID"@)
            },
            None => Err("effect-capable service request requires serviceName, agentName, and taskName, or an authenticated/local principal with request ID"@),
        }
    }
}

/// The trimmed text of a string field, when present.
fn trimmed(request: &JsonValue, key: &str) -> (r: Option<String>)
    ensures
        match r {
            Some(s) => trimmed_field(*request, key@) == Some(s@),
            None => trimmed_field(*request, key@) is None,
        },
{
    match request.field_str(key) {
        Some(s) => Some(trim_owned(s)),
        None => None,
    }
}

/// Attributes an effect-capable request to an accountable principal.
pub fn derive_service_request_attribution(
    request_id: &str,
    request: &JsonValue,
    fallback: &Option<ServiceRequestFallbackPrincipal>,
) -> (r: Result<ServiceRequestAttribution, ServiceRequestIssue>)
    ensures
        match r {
            Ok(a) => a.request_id@ == request_id@ && attribution_spec(
                request_id@,
                *request,
                match fallback {
                    Some(f) => Some((f.source, f.principal@)),
                    None => None,
                },
            ) == Ok::<(ServiceRequestPrincipalSource, Seq<char>), Seq<char>>((a.source, a.principal@)),
            Err(e) => e.spec_kind() == ServiceRequestIssueKind::MissingAccountablePrincipal && !e.denied_by_access()
                && attribution_spec(
                request_id@,
                *request,
                match fallback {
                    Some(f) => Some((f.source, f.principal@)),
                    None => None,
                },
            ) == Err::<(ServiceRequestPrincipalSource, Seq<char>), Seq<char>>(e.message_view()),
        },
{
    if is_blank(request_id) {
        return Err(ServiceRequestIssue::new(
            ServiceRequestIssueKind::MissingAccountablePrincipal,
            "effect-capable service request requires a nonempty request ID",
        ));
    }
    let service = trimmed(request, "serviceName");
    let agent = trimmed(request, "agentName");
    let task = trimmed(request, "taskName");
    match (&service, &agent, &task) {
        (Some(s), Some(a), Some(t)) => {
            if !s.as_str().is_empty() && !a.as_str().is_empty() && !t.as_str().is_empty() {
                let source = match request.field_str("action") {
                    Some(action) => if str_equal(action, "desktop_interact") {
                        ServiceRequestPrincipalSource::AttributionTupleV1
                    } else {
                        ServiceRequestPrincipalSource::ExplicitLabels
                    },
                    None => ServiceRequestPrincipalSource::ExplicitLabels,
                };
                let principal = concat3("service:", s.as_str(), "/agent:").concat(a.as_str()).concat("/task:").concat(
                    t.as_str(),
                );
                return Ok(ServiceRequestAttribution { source, principal, request_id: owned(request_id) });
            }
        },
        _ => {},
    }
    match fallback {
        Some(f) => {
            let principal = trim_owned(f.principal.as_str());
            if !principal.as_str().is_empty() {
                return Ok(ServiceRequestAttribution {
                    source: f.source,
                    principal,
                    request_id: owned(request_id),
                });
            }
        },
        None => {},
    }
    Err(ServiceRequestIssue::new(
        ServiceRequestIssueKind::MissingAccountablePrincipal,
        "effect-capable service request requires serviceName, agentName, and taskName, or an authenticated/local principal with request ID",
    ))
}

/// The fields that carry remote-view route intent.
pub open spec fn route_fields() -> Seq<Seq<char>> {
    seq![
        "routePoolEntryId"@,
        "remoteViewRouteId"@,
        "routeId"@,
        "viewStreamRouteId"@,
        "displayAllocationId"@,
        "displayName"@,
    ]
}

/// Whether a request, or its params object, names route intent.
pub open spec fn carries_route_intent(request: JsonValue) -> bool {
    exists|i: int| 0 <= i < route_fields().len() && (json_get(request, #[trigger] route_fields()[i]) is Some || (json_get(
        request,
        "params"@,
    ) matches Some(p) && p is Object && json_get(p, route_fields()[i]) is Some))
}

/// Refuses route-bound intent on `tab_new`, whose generic launch path has no
/// authority to reserve a presentation route.
pub fn reject_unexecutable_tab_new_route_intent(action: &str, request: &JsonValue) -> (r: Result<(), ServiceRequestIssue>)
    ensures
        match r {
            Ok(()) => action@ != "tab_new"@ || !carries_route_intent(*request),
            Err(e) => action@ == "tab_new"@ && carries_route_intent(*request) && e.spec_kind()
                == ServiceRequestIssueKind::InvalidBoundedRecipe && !e.denied_by_access()
                && e.message_view() == TAB_NEW_ROUTE_INTENT_MESSAGE@,
        },
{
    if !str_equal(action, "tab_new") {
        return Ok(());
    }
    let fields: [&str; 6] = [
        "routePoolEntryId",
        "remoteViewRouteId",
        "routeId",
        "viewStreamRouteId",
        "displayAllocationId",
        "displayName",
    ];
    assert(texts_of(fields@) =~= route_fields());
    let params = match request.get("params") {
        Some(p) => match p {
            JsonValue::Object(_) => Some(p),
            _ => None,
        },
        None => None,
    };
    let mut i: usize = 0;
    while i < 6
        invariant
            i <= 6,
            action@ == "tab_new"@,
            texts_of(fields@) == route_fields(),
            params matches Some(p) ==> json_get(*request, "params"@) == Some(*p) && p is Object,
            params is None ==> !(json_get(*request, "params"@) matches Some(p) && p is Object),
            forall|j: int| 0 <= j < i ==> !(json_get(*request, #[trigger] route_fields()[j]) is Some || (json_get(
                *request,
                "params"@,
            ) matches Some(p) && p is Object && json_get(p, route_fields()[j]) is Some)),
        decreases 6 - i,
    {
        let f = fields[i];
        assert(f@ == route_fields()[i as int]);
        let in_params = match params {
            Some(p) => p.get(f).is_some(),
            None => false,
        };
        if request.get(f).is_some() || in_params {
            assert(json_get(*request, route_fields()[i as int]) is Some || (json_get(*request, "params"@) matches Some(p)
                && p is Object && json_get(p, route_fields()[i as int]) is Some));
            return Err(issue(ServiceRequestIssueKind::InvalidBoundedRecipe, TAB_NEW_ROUTE_INTENT_MESSAGE));
        }
        i = i + 1;
    }
    Ok(())
}

/// The views of string slices.
pub open spec fn texts_of(v: Seq<&str>) -> Seq<Seq<char>> {
    v.map_values(|s: &str| s@)
}

/// The kind of value a canonical request field takes.
#[derive(Clone, Copy)]
pub enum FieldKind {
    String,
    PositiveInteger,
    Boolean,
    StringArray,
    Object,
    Enum(&'static [&'static str]),
}

/// One canonical request field and the roles it plays.
#[derive(Clone, Copy)]
pub struct ServiceRequestFieldSpec {
    pub name: &'static str,
    pub kind: FieldKind,
    pub command: bool,
    pub trace: bool,
    pub routing: bool,
    pub structural: bool,
}

impl ServiceRequestFieldSpec {
    /// A non-structural field.
    pub fn field(name: &'static str, kind: FieldKind, command: bool, trace: bool, routing: bool) -> (r: Self)
        ensures
            r.name == name,
            r.kind == kind,
            r.command == command,
            r.trace == trace,
            r.routing == routing,
            !r.structural,
    {
        ServiceRequestFieldSpec { name, kind, command, trace, routing, structural: false }
    }

    /// A structural field, which is neither traced nor routing.
    pub fn structural(name: &'static str, kind: FieldKind, command: bool) -> (r: Self)
        ensures
            r.name == name,
            r.kind == kind,
            r.command == command,
            !r.trace,
            !r.routing,
            r.structural,
    {
        ServiceRequestFieldSpec { name, kind, command, trace: false, routing: false, structural: true }
    }
}

/// Whether a value has the kind a field requires.
pub open spec fn field_valid(kind: FieldKind, v: JsonValue) -> bool {
    match kind {
        FieldKind::String => v is Str,
        FieldKind::PositiveInteger => json_u64(v) matches Some(n) && n > 0,
        FieldKind::Boolean => v is Bool,
        FieldKind::StringArray => v matches JsonValue::Array(items) && forall|i: int|
            0 <= i < items@.len() ==> (#[trigger] items@[i]) is Str,
        FieldKind::Object => v is Object,
        FieldKind::Enum(values) => json_str(v) matches Some(s) && texts_of(values@).contains(s),
    }
}

/// The message that refuses a value of the wrong kind.
pub open spec fn field_message(name: Seq<char>, kind: FieldKind) -> Seq<char> {
    match kind {
        FieldKind::String => name + " must be a string"@,
        FieldKind::PositiveInteger => name + " must be a positive integer"@,
        FieldKind::Boolean => name + " must be a boolean"@,
        FieldKind::StringArray => name + " must be an array of strings"@,
        FieldKind::Object => name + " must be a JSON object"@,
        FieldKind::Enum(values) => name + " must be one of "@ + crate::provenance::join(texts_of(values@), ", "@),
    }
}

/// Joins string slices with a separator.
fn join_slices(values: &[&str], sep: &str) -> (r: String)
    ensures
        r@ == crate::provenance::join(texts_of(values@), sep@),
{
    let mut parts: Vec<String> = Vec::new();
    let mut i: usize = 0;
    while i < values.len()
        invariant
            i <= values@.len(),
            parts@.map_values(|p: String| p@) == texts_of(values@).take(i as int),
        decreases values@.len() - i,
    {
        let s = owned(values[i]);
        proof {
            crate::lease::lemma_map_push(parts@, s, |p: String| p@);
            assert(texts_of(values@).take(i + 1) =~= texts_of(values@).take(i as int).push(values@[i as int]@));
        }
        parts.push(s);
        assert(parts@.map_values(|p: String| p@) =~= texts_of(values@).take(i + 1));
        i = i + 1;
    }
    assert(texts_of(values@).take(values@.len() as int) =~= texts_of(values@));
    join_strings(&parts, sep)
}

/// Checks one canonical field's value: never null, and of the field's kind;
/// an enumerated field outside its values is an invalid value, any other
/// mismatch an invalid type.
pub fn validate_field(spec: &ServiceRequestFieldSpec, value: &JsonValue) -> (r: Result<(), ServiceRequestIssue>)
    ensures
        match r {
            Ok(()) => !(value is Null) && field_valid(spec.kind, *value),
            Err(e) => !e.denied_by_access() && if value is Null {
                e.spec_kind() == ServiceRequestIssueKind::InvalidFieldType && e.message_view() == spec.name@
                    + " must not be null"@
            } else {
                !field_valid(spec.kind, *value) && e.message_view() == field_message(spec.name@, spec.kind)
                    && e.spec_kind() == (if spec.kind is Enum {
                    ServiceRequestIssueKind::InvalidFieldValue
                } else {
                    ServiceRequestIssueKind::InvalidFieldType
                })
            },
        },
{
    if let JsonValue::Null = value {
        let m = concat2(spec.name, " must not be null");
        return Err(ServiceRequestIssue::new(ServiceRequestIssueKind::InvalidFieldType, m.as_str()));
    }
    let valid = match spec.kind {
        FieldKind::String => matches!(value, JsonValue::Str(_)),
        FieldKind::PositiveInteger => match value.as_u64() {
            Some(n) => n > 0,
            None => false,
        },
        FieldKind::Boolean => matches!(value, JsonValue::Bool(_)),
        FieldKind::StringArray => match value {
            JsonValue::Array(items) => {
                let mut all = true;
                let mut i: usize = 0;
                while i < items.len()
                    invariant
                        i <= items@.len(),
                        all == forall|j: int| 0 <= j < i ==> (#[trigger] items@[j]) is Str,
                    decreases items@.len() - i,
                {
                    if !matches!(&items[i], JsonValue::Str(_)) {
                        all = false;
                    }
                    i = i + 1;
                }
                all
            },
            _ => false,
        },
        FieldKind::Object => matches!(value, JsonValue::Object(_)),
        FieldKind::Enum(values) => match value.as_str() {
            Some(s) => {
                let mut found = false;
                let mut i: usize = 0;
                while i < values.len()
                    invariant
                        i <= values@.len(),
                        found == exists|j: int| 0 <= j < i && (#[trigger] values@[j])@ == s@,
                    decreases values@.len() - i,
                {
                    if str_equal(values[i], s) {
                        found = true;
                    }
                    i = i + 1;
                }
                proof {
                    if found {
                        let j = choose|j: int| 0 <= j < values@.len() && (#[trigger] values@[j])@ == s@;
                        assert(texts_of(values@)[j] == s@);
                    }
                    if texts_of(values@).contains(s@) {
                        let j = choose|j: int| 0 <= j < texts_of(values@).len() && texts_of(values@)[j] == s@;
                        assert(values@[j]@ == s@);
                    }
                }
                found
            },
            None => false,
        },
    };
    if valid {
        return Ok(());
    }
    let message = match spec.kind {
        FieldKind::String => concat2(spec.name, " must be a string"),
        FieldKind::PositiveInteger => concat2(spec.name, " must be a positive integer"),
        FieldKind::Boolean => concat2(spec.name, " must be a boolean"),
        FieldKind::StringArray => concat2(spec.name, " must be an array of strings"),
        FieldKind::Object => concat2(spec.name, " must be a JSON object"),
        FieldKind::Enum(values) => {
            let joined = join_slices(values, ", ");
            concat2(spec.name, " must be one of ").concat(joined.as_str())
        },
    };
    let kind = match spec.kind {
        FieldKind::Enum(_) => ServiceRequestIssueKind::InvalidFieldValue,
        _ => ServiceRequestIssueKind::InvalidFieldType,
    };
    Err(ServiceRequestIssue::new(kind, message.as_str()))
}


/// Why a request's service tab handle is refused, if it is: it must be an
/// object marked valid that names its tab and, when required, its target.
pub open spec fn tab_handle_refusal(request: JsonValue, action: Seq<char>, require_target: bool) -> Option<(
    ServiceRequestIssueKind,
    Seq<char>,
)> {
    match json_get(request, "serviceTabHandle"@) {
        Some(handle) => if !(handle is Object) {
            Some((ServiceRequestIssueKind::InvalidServiceTabHandle, action + " requires serviceTabHandle"@))
        } else if field_bool(handle, "valid"@) != Some(true) {
            Some(
                (
                    ServiceRequestIssueKind::InvalidServiceTabHandle,
                    "service tab handle is stale: "@ + match field_str(handle, "staleReason"@) {
                        Some(r) => r,
                        None => "unknown"@,
                    },
                ),
            )
        } else if field_str(handle, "tabId"@) is None {
            Some((ServiceRequestIssueKind::InvalidServiceTabHandle, "serviceTabHandle.tabId is required"@))
        } else if require_target && field_str(handle, "targetId"@) is None {
            Some(
                (
                    ServiceRequestIssueKind::InvalidServiceTabHandle,
                    action + " requires serviceTabHandle.targetId"@,
                ),
            )
        } else {
            None
        },
        None => Some((ServiceRequestIssueKind::InvalidServiceTabHandle, action + " requires serviceTabHandle"@)),
    }
}

/// Checks a request's service tab handle.
pub fn validate_service_tab_handle(request: &JsonValue, action: &str, require_target: bool) -> (r: Result<
    (),
    ServiceRequestIssue,
>)
    ensures
        match r {
            Ok(()) => tab_handle_refusal(*request, action@, require_target) is None,
            Err(e) => !e.denied_by_access() && tab_handle_refusal(*request, action@, require_target) == Some(
                (e.spec_kind(), e.message_view()),
            ),
        },
{
    let handle = match request.get("serviceTabHandle") {
        Some(h) => h,
        None => {
            let m = concat2(action, " requires serviceTabHandle");
            return Err(issue(ServiceRequestIssueKind::InvalidServiceTabHandle, m.as_str()));
        },
    };
    if !matches!(handle, JsonValue::Object(_)) {
        let m = concat2(action, " requires serviceTabHandle");
        return Err(issue(ServiceRequestIssueKind::InvalidServiceTabHandle, m.as_str()));
    }
    if handle.field_bool("valid") != Some(true) {
        let reason = match handle.field_str("staleReason") {
            Some(r) => r,
            None => "unknown",
        };
        let m = concat2("service tab handle is stale: ", reason);
        return Err(issue(ServiceRequestIssueKind::InvalidServiceTabHandle, m.as_str()));
    }
    if handle.field_str("tabId").is_none() {
        return Err(issue(ServiceRequestIssueKind::InvalidServiceTabHandle, "serviceTabHandle.tabId is required"));
    }
    if require_target && handle.field_str("targetId").is_none() {
        let m = concat2(action, " requires serviceTabHandle.targetId");
        return Err(issue(ServiceRequestIssueKind::InvalidServiceTabHandle, m.as_str()));
    }
    Ok(())
}

/// The first present member value.
pub open spec fn first_value(a: Option<JsonValue>, b: Option<JsonValue>) -> Option<JsonValue> {
    match a {
        Some(v) => Some(v),
        None => b,
    }
}

/// The number of an optional value, zero unless it holds an unsigned integer.
pub open spec fn u64_or_zero(v: Option<JsonValue>) -> u64 {
    match v {
        Some(x) => match json_u64(x) {
            Some(n) => n,
            None => 0,
        },
        None => 0,
    }
}

/// Why a `network_capture` request is refused at ingress, if it is: a
/// valid, targeted tab handle, a recipe object, a positive timeout (the
/// first of the request's, the recipe's and its maximum duration that is
/// present), a positive event bound, and a positive body bound when bodies
/// are captured.
pub open spec fn network_capture_refusal(action: Seq<char>, request: JsonValue) -> Option<(
    ServiceRequestIssueKind,
    Seq<char>,
)> {
    if action != "network_capture"@ {
        None
    } else if tab_handle_refusal(request, action, true) is Some {
        tab_handle_refusal(request, action, true)
    } else {
        match json_get(request, "networkCapture"@) {
            Some(recipe) => if !(recipe is Object) {
                Some((ServiceRequestIssueKind::InvalidBoundedRecipe, "network_capture requires networkCapture object"@))
            } else if u64_or_zero(
                first_value(
                    json_get(request, "timeoutMs"@),
                    first_value(json_get(recipe, "timeoutMs"@), json_get(recipe, "maxDurationMs"@)),
                ),
            ) == 0 {
                Some((ServiceRequestIssueKind::InvalidBoundedRecipe, "network_capture requires positive timeoutMs"@))
            } else if !(field_u64(recipe, "maxEvents"@) matches Some(n) && n > 0) {
                Some(
                    (
                        ServiceRequestIssueKind::InvalidBoundedRecipe,
                        "network_capture requires positive networkCapture.maxEvents"@,
                    ),
                )
            } else if field_bool(recipe, "captureBodies"@) == Some(true) && u64_or_zero(
                first_value(json_get(recipe, "maxBodyBytes"@), json_get(request, "maxBodyBytes"@)),
            ) == 0 {
                Some(
                    (
                        ServiceRequestIssueKind::InvalidBoundedRecipe,
                        "network_capture captureBodies requires positive maxBodyBytes"@,
                    ),
                )
            } else {
                None
            },
            None => Some(
                (ServiceRequestIssueKind::InvalidBoundedRecipe, "network_capture requires networkCapture object"@),
            ),
        }
    }
}

/// The number of a value, zero unless it holds an unsigned integer.
fn number_or_zero(v: Option<&JsonValue>) -> (r: u64)
    ensures
        r == u64_or_zero(
            match v {
                Some(x) => Some(*x),
                None => None,
            },
        ),
{
    match v {
        Some(x) => match x.as_u64() {
            Some(n) => n,
            None => 0,
        },
        None => 0,
    }
}

/// The first present member value.
fn first_present<'a>(a: Option<&'a JsonValue>, b: Option<&'a JsonValue>) -> (r: Option<&'a JsonValue>)
    ensures
        match r {
            Some(x) => first_value(
                match a {
                    Some(v) => Some(*v),
                    None => None,
                },
                match b {
                    Some(v) => Some(*v),
                    None => None,
                },
            ) == Some(*x),
            None => a is None && b is None,
        },
{
    match a {
        Some(v) => Some(v),
        None => b,
    }
}

/// Refuses a `network_capture` request that lacks a bounded recipe.
pub fn reject_service_network_capture_request(action: &str, request: &JsonValue) -> (r: Result<(), ServiceRequestIssue>)
    ensures
        match r {
            Ok(()) => network_capture_refusal(action@, *request) is None,
            Err(e) => !e.denied_by_access() && network_capture_refusal(action@, *request) == Some(
                (e.spec_kind(), e.message_view()),
            ),
        },
{
    if !str_equal(action, "network_capture") {
        return Ok(());
    }
    match validate_service_tab_handle(request, action, true) {
        Ok(()) => {},
        Err(e) => return Err(e),
    }
    let recipe = match request.get("networkCapture") {
        Some(r) => r,
        None => {
            return Err(
                issue(ServiceRequestIssueKind::InvalidBoundedRecipe, "network_capture requires networkCapture object"),
            )
        },
    };
    if !matches!(recipe, JsonValue::Object(_)) {
        return Err(
            issue(ServiceRequestIssueKind::InvalidBoundedRecipe, "network_capture requires networkCapture object"),
        );
    }
    let timeout = number_or_zero(
        first_present(request.get("timeoutMs"), first_present(recipe.get("timeoutMs"), recipe.get("maxDurationMs"))),
    );
    if timeout == 0 {
        return Err(issue(ServiceRequestIssueKind::InvalidBoundedRecipe, "network_capture requires positive timeoutMs"));
    }
    match recipe.field_u64("maxEvents") {
        Some(n) => if n == 0 {
            return Err(
                issue(
                    ServiceRequestIssueKind::InvalidBoundedRecipe,
                    "network_capture requires positive networkCapture.maxEvents",
                ),
            );
        },
        None => {
            return Err(
                issue(
                    ServiceRequestIssueKind::InvalidBoundedRecipe,
                    "network_capture requires positive networkCapture.maxEvents",
                ),
            );
        },
    }
    if recipe.field_bool("captureBodies") == Some(true) && number_or_zero(
        first_present(recipe.get("maxBodyBytes"), request.get("maxBodyBytes")),
    ) == 0 {
        return Err(
            issue(
                ServiceRequestIssueKind::InvalidBoundedRecipe,
                "network_capture captureBodies requires positive maxBodyBytes",
            ),
        );
    }
    Ok(())
}

} // verus!
