//! Redacted causal identity captured when a request enters a runtime lane.

use vstd::prelude::*;
use crate::json::{field_str, field_u64, JsonValue};
use crate::text::{concat2, nonempty, nonempty_spec, owned, str_equal};

verus! {

/// The version written into every captured provenance record.
pub const SERVICE_REQUEST_PROVENANCE_SCHEMA_VERSION: &'static str =
    "agent-browser.service-request-provenance.v1";

/// The view of an optional string.
pub open spec fn opt_view(o: Option<String>) -> Option<Seq<char>> {
    match o {
        Some(s) => Some(s@),
        None => None,
    }
}

/// `sep`-joined text of the parts.
pub open spec fn join(parts: Seq<Seq<char>>, sep: Seq<char>) -> Seq<char>
    decreases parts.len(),
{
    if parts.len() == 0 {
        Seq::empty()
    } else if parts.len() == 1 {
        parts[0]
    } else {
        join(parts.drop_last(), sep) + sep + parts.last()
    }
}

/// One labelled part, present when the label is.
pub open spec fn labeled_part(tag: Seq<char>, value: Option<Seq<char>>) -> Seq<Seq<char>> {
    match value {
        Some(v) => seq![tag + v],
        None => Seq::empty(),
    }
}

/// The `service:`, `agent:` and `task:` parts that are present, in that order.
pub open spec fn subject_parts(
    service_name: Option<Seq<char>>,
    agent_name: Option<Seq<char>>,
    task_name: Option<Seq<char>>,
) -> Seq<Seq<char>> {
    labeled_part("service:"@, service_name) + labeled_part("agent:"@, agent_name)
        + labeled_part("task:"@, task_name)
}

/// The self-declared subject: the present parts joined by `/`, when any is.
pub open spec fn self_declared_subject_spec(
    service_name: Option<Seq<char>>,
    agent_name: Option<Seq<char>>,
    task_name: Option<Seq<char>>,
) -> Option<Seq<char>> {
    let parts = subject_parts(service_name, agent_name, task_name);
    if parts.len() == 0 {
        None
    } else {
        Some(join(parts, "/"@))
    }
}

/// Appends `tag + value` to the parts when the value is present.
fn push_labeled_part(parts: &mut Vec<String>, tag: &str, value: Option<&str>)
    ensures
        match value {
            Some(v) => final(parts)@.map_values(|p: String| p@) == old(parts)@.map_values(
                |p: String| p@,
            ).push(tag@ + v@),
            None => final(parts)@ == old(parts)@,
        },
{
    if let Some(v) = value {
        let part = concat2(tag, v);
        parts.push(part);
        assert(parts@.map_values(|p: String| p@) =~= old(parts)@.map_values(|p: String| p@).push(
            tag@ + v@,
        ));
    }
}

/// Joins the parts with `sep`.
pub fn join_strings(parts: &Vec<String>, sep: &str) -> (r: String)
    ensures
        r@ == join(parts@.map_values(|p: String| p@), sep@),
{
    let ghost views = parts@.map_values(|p: String| p@);
    let mut out = String::new();
    let mut i: usize = 0;
    while i < parts.len()
        invariant
            i <= parts@.len(),
            views == parts@.map_values(|p: String| p@),
            out@ == join(views.take(i as int), sep@),
        decreases parts@.len() - i,
    {
        assert(views.take(i + 1).drop_last() =~= views.take(i as int));
        if i > 0 {
            out.append(sep);
        }
        out.append(parts[i].as_str());
        assert(views.take(i + 1).last() == parts@[i as int]@);
        if i == 0 {
            assert(out@ =~= views.take(1)[0]);
        }
        i = i + 1;
    }
    assert(views.take(parts@.len() as int) =~= views);
    out
}

/// Derive the stable self-declared identity used by trusted local clients
/// that provide ordinary attribution labels instead of a registered
/// capability.
pub fn stable_self_declared_subject(
    service_name: Option<&str>,
    agent_name: Option<&str>,
    task_name: Option<&str>,
) -> (r: Option<String>)
    ensures
        opt_view_str(r) == self_declared_subject_spec(
            opt_str(service_name),
            opt_str(agent_name),
            opt_str(task_name),
        ),
{
    let mut parts: Vec<String> = Vec::new();
    push_labeled_part(&mut parts, "service:", service_name);
    push_labeled_part(&mut parts, "agent:", agent_name);
    push_labeled_part(&mut parts, "task:", task_name);
    proof {
        assert(parts@.map_values(|p: String| p@) =~= subject_parts(
            opt_str(service_name),
            opt_str(agent_name),
            opt_str(task_name),
        ));
    }
    if parts.len() == 0 {
        None
    } else {
        Some(join_strings(&parts, "/"))
    }
}

/// The view of an optional borrowed string.
pub open spec fn opt_str(o: Option<&str>) -> Option<Seq<char>> {
    match o {
        Some(s) => Some(s@),
        None => None,
    }
}

/// The view of an optional owned string.
pub open spec fn opt_view_str(o: Option<String>) -> Option<Seq<char>> {
    opt_view(o)
}

/// The trimmed, non-blank text of string field `field`.
pub open spec fn optional_string_spec(command: JsonValue, field: Seq<char>) -> Option<Seq<char>> {
    match field_str(command, field) {
        Some(s) => nonempty_spec(s),
        None => None,
    }
}

/// The identity assurance levels a request may declare.
pub open spec fn is_assurance_level(value: Seq<char>) -> bool {
    value == "self-declared"@ || value == "authenticated-ingress"@
        || value == "registered-capability"@ || value == "operator"@ || value == "unknown"@
}

/// The first present option.
pub open spec fn or_else(a: Option<Seq<char>>, b: Option<Seq<char>>) -> Option<Seq<char>> {
    match a {
        Some(v) => Some(v),
        None => b,
    }
}

/// The trimmed, non-blank text of string field `field`.
pub fn optional_string(value: &JsonValue, field: &str) -> (r: Option<String>)
    ensures
        opt_view(r) == optional_string_spec(*value, field@),
{
    match value.field_str(field) {
        Some(s) => nonempty(s),
        None => None,
    }
}

/// Immutable, redacted causal identity captured when a request enters a
/// runtime lane. Only contract-approved scalar identifiers are retained.
pub struct ServiceRequestProvenance {
    pub schema_version: String,
    pub request_id: String,
    pub job_id: String,
    pub trace_id: Option<String>,
    pub caused_by_request_id: Option<String>,
    pub client_subject_id: Option<String>,
    pub identity_assurance: String,
    pub connection_instance_id: Option<String>,
    pub runtime_environment_id: Option<String>,
    pub runtime_lane_id: Option<String>,
    pub profile_id: Option<String>,
    pub profile_resource_key: Option<String>,
    pub browser_id: Option<String>,
    pub session_id: Option<String>,
    pub tab_id: Option<String>,
    pub service_name: Option<String>,
    pub agent_name: Option<String>,
    pub task_name: Option<String>,
    pub action: String,
    pub policy_revision: Option<u64>,
    pub access_decision_id: Option<String>,
}

/// The profile captured from `profileId`, else `runtimeProfile`.
pub open spec fn captured_profile_id(command: JsonValue) -> Option<Seq<char>> {
    or_else(
        optional_string_spec(command, "profileId"@),
        optional_string_spec(command, "runtimeProfile"@),
    )
}

/// The resource key captured from `profileResourceKey`, else derived from the profile.
pub open spec fn captured_profile_resource_key(command: JsonValue) -> Option<Seq<char>> {
    or_else(
        optional_string_spec(command, "profileResourceKey"@),
        match captured_profile_id(command) {
            Some(id) => Some("profile:"@ + id),
            None => None,
        },
    )
}

/// The declared assurance when it is a known level, else `unknown`.
pub open spec fn captured_assurance(command: JsonValue) -> Seq<char> {
    match optional_string_spec(command, "identityAssurance"@) {
        Some(v) => if is_assurance_level(v) { v } else { "unknown"@ },
        None => "unknown"@,
    }
}

impl ServiceRequestProvenance {
    /// Captures the approved identifiers of `command`, falling back to the
    /// transport's request id and normalizing blank identifiers to absence.
    pub fn capture(
        command: &JsonValue,
        request_id: &str,
        job_id: &str,
        connection_instance_id: &str,
        runtime_lane_id: &str,
    ) -> (r: Self)
        ensures
            r.schema_version@ == SERVICE_REQUEST_PROVENANCE_SCHEMA_VERSION@,
            r.request_id@ == match optional_string_spec(*command, "requestId"@) {
                Some(v) => v,
                None => request_id@,
            },
            r.job_id@ == job_id@,
            opt_view(r.trace_id) == optional_string_spec(*command, "traceId"@),
            opt_view(r.caused_by_request_id) == optional_string_spec(*command, "causedByRequestId"@),
            opt_view(r.client_subject_id) == optional_string_spec(*command, "clientSubjectId"@),
            r.identity_assurance@ == captured_assurance(*command),
            opt_view(r.connection_instance_id) == nonempty_spec(connection_instance_id@),
            opt_view(r.runtime_environment_id) == optional_string_spec(
                *command,
                "runtimeEnvironmentId"@,
            ),
            opt_view(r.runtime_lane_id) == nonempty_spec(runtime_lane_id@),
            opt_view(r.profile_id) == captured_profile_id(*command),
            opt_view(r.profile_resource_key) == captured_profile_resource_key(*command),
            opt_view(r.browser_id) == optional_string_spec(*command, "browserId"@),
            opt_view(r.session_id) == or_else(
                optional_string_spec(*command, "sessionId"@),
                optional_string_spec(*command, "sessionName"@),
            ),
            opt_view(r.tab_id) == optional_string_spec(*command, "tabId"@),
            opt_view(r.service_name) == optional_string_spec(*command, "serviceName"@),
            opt_view(r.agent_name) == optional_string_spec(*command, "agentName"@),
            opt_view(r.task_name) == optional_string_spec(*command, "taskName"@),
            r.action@ == match optional_string_spec(*command, "action"@) {
                Some(v) => v,
                None => "unknown"@,
            },
            r.policy_revision == field_u64(*command, "policyRevision"@),
            opt_view(r.access_decision_id) == optional_string_spec(*command, "accessDecisionId"@),
    {
        let profile_id = match optional_string(command, "profileId") {
            Some(v) => Some(v),
            None => optional_string(command, "runtimeProfile"),
        };
        let profile_resource_key = match optional_string(command, "profileResourceKey") {
            Some(v) => Some(v),
            None => match &profile_id {
                Some(id) => Some(concat2("profile:", id.as_str())),
                None => None,
            },
        };
        let identity_assurance = match optional_string(command, "identityAssurance") {
            Some(v) => {
                let known = str_equal(v.as_str(), "self-declared") || str_equal(
                    v.as_str(),
                    "authenticated-ingress",
                ) || str_equal(v.as_str(), "registered-capability") || str_equal(
                    v.as_str(),
                    "operator",
                ) || str_equal(v.as_str(), "unknown");
                if known {
                    v
                } else {
                    owned("unknown")
                }
            },
            None => owned("unknown"),
        };
        let request = match optional_string(command, "requestId") {
            Some(v) => v,
            None => owned(request_id),
        };
        let session_id = match optional_string(command, "sessionId") {
            Some(v) => Some(v),
            None => optional_string(command, "sessionName"),
        };
        let action = match optional_string(command, "action") {
            Some(v) => v,
            None => owned("unknown"),
        };
        ServiceRequestProvenance {
            schema_version: owned(SERVICE_REQUEST_PROVENANCE_SCHEMA_VERSION),
            request_id: request,
            job_id: owned(job_id),
            trace_id: optional_string(command, "traceId"),
            caused_by_request_id: optional_string(command, "causedByRequestId"),
            client_subject_id: optional_string(command, "clientSubjectId"),
            identity_assurance,
            connection_instance_id: nonempty(connection_instance_id),
            runtime_environment_id: optional_string(command, "runtimeEnvironmentId"),
            runtime_lane_id: nonempty(runtime_lane_id),
            profile_id,
            profile_resource_key,
            browser_id: optional_string(command, "browserId"),
            session_id,
            tab_id: optional_string(command, "tabId"),
            service_name: optional_string(command, "serviceName"),
            agent_name: optional_string(command, "agentName"),
            task_name: optional_string(command, "taskName"),
            action,
            policy_revision: command.field_u64("policyRevision"),
            access_decision_id: optional_string(command, "accessDecisionId"),
        }
    }
}

impl Default for ServiceRequestProvenance {
    /// A record whose identifiers are all unknown.
    fn default() -> (r: Self)
        ensures
            r.schema_version@ == SERVICE_REQUEST_PROVENANCE_SCHEMA_VERSION@,
            r.request_id@ == "unknown"@,
            r.job_id@ == "unknown"@,
            r.identity_assurance@ == "unknown"@,
            r.action@ == "unknown"@,
            r.trace_id is None && r.caused_by_request_id is None && r.client_subject_id is None,
            r.connection_instance_id is None && r.runtime_environment_id is None,
            r.runtime_lane_id is None && r.profile_id is None && r.profile_resource_key is None,
            r.browser_id is None && r.session_id is None && r.tab_id is None,
            r.service_name is None && r.agent_name is None && r.task_name is None,
            r.policy_revision is None && r.access_decision_id is None,
    {
        ServiceRequestProvenance {
            schema_version: owned(SERVICE_REQUEST_PROVENANCE_SCHEMA_VERSION),
            request_id: owned("unknown"),
            job_id: owned("unknown"),
            trace_id: None,
            caused_by_request_id: None,
            client_subject_id: None,
            identity_assurance: owned("unknown"),
            connection_instance_id: None,
            runtime_environment_id: None,
            runtime_lane_id: None,
            profile_id: None,
            profile_resource_key: None,
            browser_id: None,
            session_id: None,
            tab_id: None,
            service_name: None,
            agent_name: None,
            task_name: None,
            action: owned("unknown"),
            policy_revision: None,
            access_decision_id: None,
        }
    }
}

} // verus!
