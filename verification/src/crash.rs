//! Correlation of renderer crashes with the command that owned the crashed
//! target.

use vstd::prelude::*;
use crate::json::{field_i64, field_str, JsonValue};
use crate::model::{clone_opt, ov};
use crate::text::{concat3, is_blank, owned, str_equal, trim};

verus! {

/// A renderer-crash event observed on the daemon's event stream.
pub struct RendererCrashSignal {
    pub method: String,
    pub reason: Option<String>,
    pub status: Option<String>,
    pub error_code: Option<i64>,
    pub target_id: Option<String>,
    pub page_session_id: Option<String>,
    pub observed_at: String,
    pub source: String,
}

/// The text of string parameter `name` unless it is blank.
pub open spec fn param_text(params: JsonValue, name: Seq<char>) -> Option<Seq<char>> {
    match field_str(params, name) {
        Some(v) => if trim(v).len() == 0 { None } else { Some(v) },
        None => None,
    }
}

/// The text of string parameter `name` unless it is blank.
fn optional_param_string(params: &JsonValue, name: &str) -> (r: Option<String>)
    ensures
        ov(r) == param_text(*params, name@),
{
    match params.field_str(name) {
        Some(v) => if is_blank(v) { None } else { Some(owned(v)) },
        None => None,
    }
}

impl RendererCrashSignal {
    /// Reads a crash signal from a browser protocol event: only
    /// `Inspector.targetCrashed` is a crash, whatever else a target reports.
    /// The page session is the event's session; `observed_at` is the time the
    /// event was observed.
    pub fn from_cdp_event(
        method: &str,
        params: &JsonValue,
        session_id: &Option<String>,
        observed_at: &str,
    ) -> (r: Option<Self>)
        ensures
            match r {
                Some(signal) => {
                    &&& method@ == "Inspector.targetCrashed"@
                    &&& signal.method@ == method@
                    &&& ov(signal.reason) == param_text(*params, "reason"@)
                    &&& ov(signal.status) == param_text(*params, "status"@)
                    &&& signal.error_code == field_i64(*params, "errorCode"@)
                    &&& ov(signal.target_id) == param_text(*params, "targetId"@)
                    &&& ov(signal.page_session_id) == ov(*session_id)
                    &&& signal.observed_at@ == observed_at@
                    &&& signal.source@ == "cdp_event_stream"@
                },
                None => method@ != "Inspector.targetCrashed"@,
            },
    {
        if !str_equal(method, "Inspector.targetCrashed") {
            return None;
        }
        Some(RendererCrashSignal {
            method: owned(method),
            reason: optional_param_string(params, "reason"),
            status: optional_param_string(params, "status"),
            error_code: params.field_i64("errorCode"),
            target_id: optional_param_string(params, "targetId"),
            page_session_id: clone_opt(session_id),
            observed_at: owned(observed_at),
            source: owned("cdp_event_stream"),
        })
    }
}

/// The command and retained browser subject that can own a crash.
pub struct RendererCrashCommandContext {
    pub action: String,
    pub request_id: String,
    pub local_principal: Option<String>,
    pub service_name: Option<String>,
    pub agent_name: Option<String>,
    pub task_name: Option<String>,
    pub daemon_session: String,
    pub requested_profile: Option<String>,
    pub detected_profile: Option<String>,
    pub browser_id: Option<String>,
    pub pid: Option<u32>,
    pub endpoint: Option<String>,
    pub browser_build: Option<String>,
    pub stderr_path: Option<String>,
    pub target_id: Option<String>,
    pub page_session_id: Option<String>,
}

/// The content of a command context.
pub struct ContextView {
    pub action: Seq<char>,
    pub request_id: Seq<char>,
    pub local_principal: Option<Seq<char>>,
    pub service_name: Option<Seq<char>>,
    pub agent_name: Option<Seq<char>>,
    pub task_name: Option<Seq<char>>,
    pub daemon_session: Seq<char>,
    pub requested_profile: Option<Seq<char>>,
    pub detected_profile: Option<Seq<char>>,
    pub browser_id: Option<Seq<char>>,
    pub pid: Option<u32>,
    pub endpoint: Option<Seq<char>>,
    pub browser_build: Option<Seq<char>>,
    pub stderr_path: Option<Seq<char>>,
    pub target_id: Option<Seq<char>>,
    pub page_session_id: Option<Seq<char>>,
}

impl View for RendererCrashCommandContext {
    type V = ContextView;

    open spec fn view(&self) -> ContextView {
        ContextView {
            action: self.action@,
            request_id: self.request_id@,
            local_principal: ov(self.local_principal),
            service_name: ov(self.service_name),
            agent_name: ov(self.agent_name),
            task_name: ov(self.task_name),
            daemon_session: self.daemon_session@,
            requested_profile: ov(self.requested_profile),
            detected_profile: ov(self.detected_profile),
            browser_id: ov(self.browser_id),
            pid: self.pid,
            endpoint: ov(self.endpoint),
            browser_build: ov(self.browser_build),
            stderr_path: ov(self.stderr_path),
            target_id: ov(self.target_id),
            page_session_id: ov(self.page_session_id),
        }
    }
}

/// One crash correlated to the command and service subject that owned it.
pub struct RendererCrashObservation {
    pub correlation_id: String,
    pub signal: RendererCrashSignal,
    pub command: RendererCrashCommandContext,
}

/// Whether a crash signal names the context's target: the same target id,
/// or, when neither has one, the same page session.
pub open spec fn targets_context(signal: RendererCrashSignal, context: RendererCrashCommandContext) -> bool {
    match (ov(signal.target_id), ov(context.target_id)) {
        (Some(observed), Some(active)) => observed == active,
        (None, None) => ov(signal.page_session_id) is Some && ov(signal.page_session_id) == ov(context.page_session_id),
        _ => false,
    }
}

/// Whether a crash signal names the context's target.
pub fn renderer_crash_targets_context(signal: &RendererCrashSignal, context: &RendererCrashCommandContext) -> (r: bool)
    ensures
        r == targets_context(*signal, *context),
{
    match (&signal.target_id, &context.target_id) {
        (Some(observed), Some(active)) => str_equal(observed.as_str(), active.as_str()),
        (None, None) => match (&signal.page_session_id, &context.page_session_id) {
            (Some(a), Some(b)) => str_equal(a.as_str(), b.as_str()),
            _ => false,
        },
        _ => false,
    }
}

/// Whether a command closes its target on purpose.
pub open spec fn closing_action(action: Seq<char>) -> bool {
    action == "close"@ || action == "tab_close"@ || action == "service_browser_close"@
}

/// Law: the commands that close their target on purpose, `close`,
/// `tab_close` and `service_browser_close`, are closing actions, so a crash
/// signal never correlates with them, whatever the signal.
pub proof fn law_intentional_close_owns_no_crash(action: Seq<char>)
    ensures
        action == "close"@ ==> closing_action(action),
        action == "tab_close"@ ==> closing_action(action),
        action == "service_browser_close"@ ==> closing_action(action),
{
}

/// Law: a crash signal names a command's target exactly when both carry
/// the same target id, or, when neither carries one, both carry the same
/// page session; a signal for another target, or one carrying a target id
/// the command lacks (or the reverse), never names it.
pub proof fn law_crash_names_only_the_command_target(signal: RendererCrashSignal, context: RendererCrashCommandContext)
    ensures
        ov(signal.target_id) is Some && ov(signal.target_id) == ov(context.target_id) ==> targets_context(signal, context),
        ov(signal.target_id) != ov(context.target_id) ==> !targets_context(signal, context),
        ov(signal.target_id) is None && ov(context.target_id) is None ==> (targets_context(signal, context) == (ov(
            signal.page_session_id,
        ) is Some && ov(signal.page_session_id) == ov(context.page_session_id))),
{
}

/// The correlation id of a crash: the daemon session, the request id (or
/// the observation time without one) and the crashed target (or page
/// session, or `unknown`), joined by `:`.
pub open spec fn correlation_id_spec(signal: RendererCrashSignal, context: ContextView) -> Seq<char> {
    let subject = match ov(signal.target_id) {
        Some(t) => t,
        None => match ov(signal.page_session_id) {
            Some(p) => p,
            None => "unknown"@,
        },
    };
    let request_subject = if context.request_id.len() == 0 { signal.observed_at@ } else { context.request_id };
    context.daemon_session + ":"@ + request_subject + ":"@ + subject
}

/// Copies a command context.
pub fn clone_context(c: &RendererCrashCommandContext) -> (r: RendererCrashCommandContext)
    ensures
        r@ == c@,
{
    RendererCrashCommandContext {
        action: c.action.clone(),
        request_id: c.request_id.clone(),
        local_principal: clone_opt(&c.local_principal),
        service_name: clone_opt(&c.service_name),
        agent_name: clone_opt(&c.agent_name),
        task_name: clone_opt(&c.task_name),
        daemon_session: c.daemon_session.clone(),
        requested_profile: clone_opt(&c.requested_profile),
        detected_profile: clone_opt(&c.detected_profile),
        browser_id: clone_opt(&c.browser_id),
        pid: c.pid,
        endpoint: clone_opt(&c.endpoint),
        browser_build: clone_opt(&c.browser_build),
        stderr_path: clone_opt(&c.stderr_path),
        target_id: clone_opt(&c.target_id),
        page_session_id: clone_opt(&c.page_session_id),
    }
}

/// Correlates a crash with the command running on its target. A command
/// that closes its target on purpose never owns a crash.
pub fn correlate_renderer_crash(
    signal: RendererCrashSignal,
    context: &RendererCrashCommandContext,
) -> (r: Option<RendererCrashObservation>)
    ensures
        match r {
            Some(o) => {
                &&& !closing_action(context.action@)
                &&& context.action@ != "close"@
                &&& context.action@ != "tab_close"@
                &&& context.action@ != "service_browser_close"@
                &&& targets_context(signal, *context)
                &&& o.correlation_id@ == correlation_id_spec(signal, context@)
                &&& o.signal == signal
                &&& o.command@ == context@
            },
            None => closing_action(context.action@) || !targets_context(signal, *context),
        },
{
    let action = context.action.as_str();
    if str_equal(action, "close") || str_equal(action, "tab_close") || str_equal(action, "service_browser_close") {
        return None;
    }
    if !renderer_crash_targets_context(&signal, context) {
        return None;
    }
    let subject: &str = match &signal.target_id {
        Some(t) => t.as_str(),
        None => match &signal.page_session_id {
            Some(p) => p.as_str(),
            None => "unknown",
        },
    };
    let request_subject: &str = if context.request_id.as_str().is_empty() {
        signal.observed_at.as_str()
    } else {
        context.request_id.as_str()
    };
    let correlation_id = concat3(context.daemon_session.as_str(), ":", request_subject).concat(":").concat(subject);
    Some(RendererCrashObservation { correlation_id, signal, command: clone_context(context) })
}

} // verus!
