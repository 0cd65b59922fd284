//! The durable projection of a correlated renderer crash: the crashed tab,
//! its withdrawn handle, and one event in the service's bounded event log.

use vstd::prelude::*;
use crate::crash::RendererCrashObservation;
use crate::json::{json_get, json_str, set_member, JsonValue};
use crate::model::{clone_opt, ov, BrowserTab, ServiceEvent, ServiceEventKind, ServiceState, ServiceTabHandle, TabLifecycle};
use crate::text::{concat2, concat3, owned, str_equal};

verus! {

/// The most events the service keeps.
pub const MAX_SERVICE_EVENTS: usize = 100;

/// The identifiers one crash projection produces.
pub struct RendererCrashPersistence {
    pub tab_id: Option<String>,
    pub event_id: String,
    pub incident_id: String,
    pub duplicate: bool,
}

/// Whether a tab is the one a crash hit: the tab of the crashed target when
/// the crash names one, else the tab opened through the command's daemon
/// session whose handle names that session.
pub open spec fn crash_hits_tab(t: BrowserTab, o: RendererCrashObservation) -> bool {
    match ov(o.signal.target_id) {
        Some(target) => ov(t.target_id) == Some(target),
        None => ov(t.session_id) == Some(o.command.daemon_session@) && (t.service_tab_handle matches Some(h) && ov(
            h.session_name,
        ) == Some(o.command.daemon_session@)),
    }
}

/// Whether `i` is the first tab a crash hit.
pub open spec fn first_crash_tab(tabs: Seq<BrowserTab>, o: RendererCrashObservation, i: int) -> bool {
    &&& 0 <= i < tabs.len()
    &&& crash_hits_tab(tabs[i], o)
    &&& forall|j: int| 0 <= j < i ==> !crash_hits_tab(#[trigger] tabs[j], o)
}

/// Whether the crash hit no tab.
pub open spec fn crash_hits_no_tab(tabs: Seq<BrowserTab>, o: RendererCrashObservation) -> bool {
    forall|j: int| 0 <= j < tabs.len() ==> !crash_hits_tab(#[trigger] tabs[j], o)
}

/// The browser of a crash: the hit tab's, else the command's, else the
/// command's daemon session named as a browser.
pub open spec fn crash_browser_id(tab: Option<BrowserTab>, o: RendererCrashObservation) -> Seq<char> {
    match tab {
        Some(t) => t.browser_id@,
        None => match ov(o.command.browser_id) {
            Some(b) => b,
            None => "session:"@ + o.command.daemon_session@,
        },
    }
}

/// What a crash is reported against: the hit tab, else the crashed target,
/// else the page session, else `unknown`.
pub open spec fn crash_subject(tab: Option<BrowserTab>, o: RendererCrashObservation) -> Seq<char> {
    match tab {
        Some(t) => t.id@,
        None => match ov(o.signal.target_id) {
            Some(x) => x,
            None => match ov(o.signal.page_session_id) {
                Some(p) => p,
                None => "unknown"@,
            },
        },
    }
}

/// The incident id of a crash.
pub open spec fn crash_incident_id(tab: Option<BrowserTab>, o: RendererCrashObservation) -> Seq<char> {
    "renderer-crash:"@ + crash_browser_id(tab, o) + ":"@ + crash_subject(tab, o)
}

/// The event id of a crash.
pub open spec fn crash_event_id(o: RendererCrashObservation) -> Seq<char> {
    "renderer-crash:"@ + o.correlation_id@
}

/// Whether `x` is tab `t` marked crashed, its handle invalid and stale
/// because the tab crashed.
pub open spec fn crashed_tab(x: BrowserTab, t: BrowserTab) -> bool {
    &&& x == BrowserTab { lifecycle: TabLifecycle::Crashed, service_tab_handle: x.service_tab_handle, ..t }
    &&& match t.service_tab_handle {
        None => x.service_tab_handle is None,
        Some(h) => x.service_tab_handle matches Some(hx) && hx.session_name == h.session_name && !hx.valid && ov(
            hx.stale_reason,
        ) == Some("tab_crashed"@),
    }
}

/// Whether `d` is the crash evidence `base` with the incident, the tab (or
/// null) and the `target_crashed` result set, every other member kept.
pub open spec fn crash_details(d: JsonValue, base: JsonValue, incident: Seq<char>, tab: Option<BrowserTab>) -> bool {
    &&& d is Object
    &&& json_get(d, "incidentId"@) matches Some(v) && json_str(v) == Some(incident)
    &&& json_get(d, "tabId"@) matches Some(v) && match tab {
        Some(t) => json_str(v) == Some(t.id@),
        None => v == JsonValue::Null,
    }
    &&& json_get(d, "result"@) matches Some(v) && json_str(v) == Some("target_crashed"@)
    &&& forall|k: Seq<char>|
        k != "incidentId"@ && k != "tabId"@ && k != "result"@ ==> #[trigger] json_get(d, k) == json_get(base, k)
}

/// Whether `e` is the event recording a crash.
pub open spec fn crash_event(e: ServiceEvent, o: RendererCrashObservation, tab: Option<BrowserTab>, base: JsonValue) -> bool {
    &&& e.id@ == crash_event_id(o)
    &&& e.timestamp@ == o.signal.observed_at@
    &&& e.kind == ServiceEventKind::TabLifecycleChanged
    &&& e.message@ == "Renderer crashed for "@ + crash_subject(tab, o) + " while running '"@ + o.command.action@ + "'."@
    &&& ov(e.browser_id) == Some(crash_browser_id(tab, o))
    &&& ov(e.profile_id) == match ov(o.command.detected_profile) {
        Some(p) => Some(p),
        None => ov(o.command.requested_profile),
    }
    &&& ov(e.session_id) == Some(o.command.daemon_session@)
    &&& ov(e.service_name) == ov(o.command.service_name)
    &&& ov(e.agent_name) == ov(o.command.agent_name)
    &&& ov(e.task_name) == ov(o.command.task_name)
    &&& e.details matches Some(d) && crash_details(d, base, crash_incident_id(tab, o), tab)
}

/// The newest `MAX_SERVICE_EVENTS` events of a log.
pub open spec fn bounded_events(events: Seq<ServiceEvent>) -> Seq<ServiceEvent> {
    if events.len() > MAX_SERVICE_EVENTS {
        events.subrange(events.len() - MAX_SERVICE_EVENTS, events.len() as int)
    } else {
        events
    }
}

/// Whether the log already holds the crash's event.
pub open spec fn crash_recorded(events: Seq<ServiceEvent>, o: RendererCrashObservation) -> bool {
    exists|j: int| 0 <= j < events.len() && (#[trigger] events[j]).id@ == crash_event_id(o)
}

/// The index of the first tab a crash hit.
fn crash_tab_index(tabs: &Vec<BrowserTab>, o: &RendererCrashObservation) -> (r: Option<usize>)
    ensures
        match r {
            Some(i) => first_crash_tab(tabs@, *o, i as int),
            None => crash_hits_no_tab(tabs@, *o),
        },
{
    let mut i: usize = 0;
    while i < tabs.len()
        invariant
            i <= tabs@.len(),
            forall|j: int| 0 <= j < i ==> !crash_hits_tab(#[trigger] tabs@[j], *o),
        decreases tabs@.len() - i,
    {
        let t = &tabs[i];
        let hit = match &o.signal.target_id {
            Some(target) => match &t.target_id {
                Some(x) => str_equal(x.as_str(), target.as_str()),
                None => false,
            },
            None => {
                let session = o.command.daemon_session.as_str();
                let through = match &t.session_id {
                    Some(x) => str_equal(x.as_str(), session),
                    None => false,
                };
                let named = match &t.service_tab_handle {
                    Some(h) => match &h.session_name {
                        Some(x) => str_equal(x.as_str(), session),
                        None => false,
                    },
                    None => false,
                };
                through && named
            },
        };
        if hit {
            return Some(i);
        }
        i = i + 1;
    }
    None
}

/// Whether the log holds an event with id `id`.
fn event_recorded(events: &Vec<ServiceEvent>, id: &str) -> (r: bool)
    ensures
        r == exists|j: int| 0 <= j < events@.len() && (#[trigger] events@[j]).id@ == id@,
{
    let mut i: usize = 0;
    while i < events.len()
        invariant
            i <= events@.len(),
            forall|j: int| 0 <= j < i ==> (#[trigger] events@[j]).id@ != id@,
        decreases events@.len() - i,
    {
        if str_equal(events[i].id.as_str(), id) {
            return true;
        }
        i = i + 1;
    }
    false
}

/// Drops the oldest events beyond `MAX_SERVICE_EVENTS`.
fn trim_events(events: &mut Vec<ServiceEvent>)
    ensures
        final(events)@ == bounded_events(old(events)@),
{
    let ghost all = events@;
    while events.len() > MAX_SERVICE_EVENTS
        invariant
            all.len() >= events@.len(),
            events@ == all.subrange(all.len() - events@.len(), all.len() as int),
            all.len() > MAX_SERVICE_EVENTS ==> events@.len() >= MAX_SERVICE_EVENTS,
            all.len() <= MAX_SERVICE_EVENTS ==> events@ == all,
        decreases events@.len(),
    {
        let ghost before = events@;
        events.remove(0);
        assert(events@ =~= all.subrange(all.len() - events@.len(), all.len() as int));
    }
    proof {
        if all.len() <= MAX_SERVICE_EVENTS {
            assert(all.subrange(0, all.len() as int) =~= all);
        }
    }
}


/// Whether `s1.events` is the log `s0.events` after a crash: unchanged when
/// the crash is already recorded, else with its event appended and only the
/// newest `MAX_SERVICE_EVENTS` kept.
pub open spec fn crash_logged(
    e0: Seq<ServiceEvent>,
    e1: Seq<ServiceEvent>,
    o: RendererCrashObservation,
    tab: Option<BrowserTab>,
    base: JsonValue,
) -> bool {
    if crash_recorded(e0, o) {
        e1 == e0
    } else {
        exists|e: ServiceEvent| #[trigger] crash_event(e, o, tab, base) && e1 == bounded_events(e0.push(e))
    }
}

/// What projecting a crash onto the state does when a tab was hit at `i`.
pub open spec fn crash_projected_on_tab(
    s0: ServiceState,
    s1: ServiceState,
    o: RendererCrashObservation,
    base: JsonValue,
    p: RendererCrashPersistence,
    i: int,
) -> bool {
    let t = s0.tabs@[i];
    &&& first_crash_tab(s0.tabs@, o, i)
    &&& ov(p.tab_id) == Some(t.id@)
    &&& p.incident_id@ == crash_incident_id(Some(t), o)
    &&& s1.tabs@.len() == s0.tabs@.len()
    &&& s1.tabs@ == s0.tabs@.update(i, s1.tabs@[i])
    &&& crashed_tab(s1.tabs@[i], t)
    &&& crash_logged(s0.events@, s1.events@, o, Some(t), base)
}

/// What projecting a crash onto the state does: the first tab the crash hit
/// is marked crashed and its handle withdrawn; the crash's event, carrying
/// the evidence `base` with the incident, the tab and the result, is logged
/// once; the log keeps its newest events; nothing else changes.
pub open spec fn crash_projected(
    s0: ServiceState,
    s1: ServiceState,
    o: RendererCrashObservation,
    base: JsonValue,
    p: RendererCrashPersistence,
) -> bool {
    &&& p.duplicate == crash_recorded(s0.events@, o)
    &&& p.event_id@ == crash_event_id(o)
    &&& ({
        ||| exists|i: int| #[trigger] first_crash_tab(s0.tabs@, o, i) && crash_projected_on_tab(s0, s1, o, base, p, i)
        ||| crash_hits_no_tab(s0.tabs@, o) && p.tab_id is None && p.incident_id@ == crash_incident_id(None, o)
            && s1.tabs == s0.tabs && crash_logged(s0.events@, s1.events@, o, None, base)
    })
    &&& s1 == (ServiceState { tabs: s1.tabs, events: s1.events, ..s0 })
}

/// The crash evidence with the incident, the tab and the result set.
fn crash_details_of(base: JsonValue, incident: &str, tab_id: &Option<String>) -> (r: JsonValue)
    requires
        base is Object,
    ensures
        forall|t: Option<BrowserTab>|
            (match t {
                Some(x) => ov(*tab_id) == Some(x.id@),
                None => tab_id is None,
            }) ==> #[trigger] crash_details(r, base, incident@, t),
{
    let mut d = base;
    let ghost d0 = d;
    set_member(&mut d, "incidentId", JsonValue::string(incident));
    let ghost d1 = d;
    let tab_value = match tab_id {
        Some(t) => JsonValue::string(t.as_str()),
        None => JsonValue::Null,
    };
    let ghost tv = tab_value;
    set_member(&mut d, "tabId", tab_value);
    let ghost d2 = d;
    set_member(&mut d, "result", JsonValue::string("target_crashed"));
    proof {
        reveal_strlit("incidentId");
        reveal_strlit("tabId");
        reveal_strlit("result");
        assert("incidentId"@.len() != "tabId"@.len() && "incidentId"@.len() != "result"@.len() && "tabId"@.len()
            != "result"@.len());
        assert(json_get(d, "incidentId"@) == json_get(d1, "incidentId"@));
        assert(json_get(d, "tabId"@) == Some(tv));
    }
    d
}

/// Projects a correlated renderer crash onto the service state, as
/// `crash_projected` says. `details` is the serialized observation; a crash
/// not yet recorded whose evidence is not an object is refused, with the
/// state unchanged.
pub fn project_renderer_crash(
    state: &mut ServiceState,
    observation: &RendererCrashObservation,
    details: JsonValue,
) -> (r: Result<RendererCrashPersistence, String>)
    ensures
        match r {
            Ok(p) => crash_projected(*old(state), *final(state), *observation, details, p),
            Err(e) => *final(state) == *old(state) && !crash_recorded(old(state).events@, *observation)
                && !(details is Object) && e@ == "Renderer crash evidence did not serialize as an object"@,
        },
{
    let ghost s0 = *state;
    let idx = crash_tab_index(&state.tabs, observation);
    let event_id = concat2("renderer-crash:", observation.correlation_id.as_str());
    let duplicate = event_recorded(&state.events, event_id.as_str());
    let is_object = match &details {
        JsonValue::Object(_) => true,
        _ => false,
    };
    if !duplicate && !is_object {
        return Err(owned("Renderer crash evidence did not serialize as an object"));
    }
    let command = &observation.command;
    let signal = &observation.signal;
    let (tab_id, browser_id, subject) = match idx {
        Some(i) => (Some(state.tabs[i].id.clone()), state.tabs[i].browser_id.clone(), state.tabs[i].id.clone()),
        None => {
            let b = match &command.browser_id {
                Some(b) => b.clone(),
                None => concat2("session:", command.daemon_session.as_str()),
            };
            let s = match &signal.target_id {
                Some(x) => x.clone(),
                None => match &signal.page_session_id {
                    Some(p) => p.clone(),
                    None => owned("unknown"),
                },
            };
            (None, b, s)
        },
    };
    let ghost tab: Option<BrowserTab> = match idx {
        Some(i) => Some(s0.tabs@[i as int]),
        None => None,
    };
    assert(browser_id@ == crash_browser_id(tab, *observation));
    assert(subject@ == crash_subject(tab, *observation));
    let head = concat3("renderer-crash:", browser_id.as_str(), ":");
    let incident_id = concat2(head.as_str(), subject.as_str());
    match idx {
        Some(i) => {
            let ghost before = state.tabs@;
            let mut h: Option<ServiceTabHandle> = None;
            std::mem::swap(&mut h, &mut state.tabs[i].service_tab_handle);
            let new_h = match h {
                Some(hh) => Some(
                    ServiceTabHandle {
                        session_name: hh.session_name,
                        valid: false,
                        stale_reason: Some(owned("tab_crashed")),
                    },
                ),
                None => None,
            };
            state.tabs[i].service_tab_handle = new_h;
            state.tabs[i].lifecycle = TabLifecycle::Crashed;
            assert(state.tabs@ =~= before.update(i as int, state.tabs@[i as int]));
            assert(crashed_tab(state.tabs@[i as int], before[i as int]));
        },
        None => {},
    }
    let ghost e0 = state.events@;
    if !duplicate {
        let d = crash_details_of(details, incident_id.as_str(), &tab_id);
        let m1 = concat3("Renderer crashed for ", subject.as_str(), " while running '");
        let message = concat3(m1.as_str(), command.action.as_str(), "'.");
        let profile_id = match &command.detected_profile {
            Some(p) => Some(p.clone()),
            None => clone_opt(&command.requested_profile),
        };
        let event = ServiceEvent {
            id: event_id.clone(),
            timestamp: signal.observed_at.clone(),
            kind: ServiceEventKind::TabLifecycleChanged,
            message,
            browser_id: Some(browser_id),
            profile_id,
            session_id: Some(command.daemon_session.clone()),
            service_name: clone_opt(&command.service_name),
            agent_name: clone_opt(&command.agent_name),
            task_name: clone_opt(&command.task_name),
            details: Some(d),
        };
        let ghost ge = event;
        assert(crash_event(ge, *observation, tab, details));
        state.events.push(event);
        trim_events(&mut state.events);
        assert(state.events@ == bounded_events(e0.push(ge)));
    }
    let r = RendererCrashPersistence { tab_id, event_id, incident_id, duplicate };
    proof {
        match idx {
            Some(i) => {
                assert(crash_projected_on_tab(s0, *state, *observation, details, r, i as int));
            },
            None => {},
        }
    }
    Ok(r)
}

} // verus!
