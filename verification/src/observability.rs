//! Root-cause analysis of an incident: which recorded events belong to it,
//! which of them and of the detected anomalies are candidate causes, and the
//! incident's timeline in time order; and the reconstruction of an
//! incident's span, events and phases.
//!
//! Events and anomalies are handed in as the plain values the analysis
//! reads; confidences, resources and the other payloads stay with the
//! caller, who finds them again by position.

use vstd::prelude::*;
use crate::text::{owned, concat2, concat3, str_eq, append, u64_to_string, decimal};

verus! {

/// How severe an event is.
#[derive(Debug, Clone, Copy, PartialEq, Eq, Structural)]
pub enum Severity {
    Debug,
    Info,
    Warning,
    Error,
    Critical,
}

/// The text an event carries, by kind; a metric's value comes as its
/// printed form.
#[derive(Debug, Clone)]
pub enum EventText {
    Log(String),
    Metric(String, String),
    Trace(String),
    Alert(String),
}

/// What the analysis reads of a recorded event. Its time is whole seconds
/// since the Unix epoch and the nanoseconds within that second.
#[derive(Debug, Clone)]
pub struct EventRecord {
    pub incident_id: Option<String>,
    pub secs: i64,
    pub nanos: u32,
    pub severity: Severity,
    pub text: EventText,
}

/// What the analysis reads of a detected anomaly: the incident of the event
/// it was detected on, and its explanation.
#[derive(Debug, Clone)]
pub struct AnomalyRecord {
    pub incident_id: Option<String>,
    pub explanation: String,
}

/// Where a candidate cause comes from: an anomaly or an error event, by
/// position in the input.
#[derive(Debug, Clone, Copy, PartialEq, Eq, Structural)]
pub enum CauseSource {
    Anomaly(usize),
    ErrorEvent(usize),
}

/// A candidate root cause and its description.
#[derive(Debug, Clone)]
pub struct CausePlan {
    pub source: CauseSource,
    pub description: String,
}

/// One timeline entry: the event, by position, and its description.
#[derive(Debug, Clone)]
pub struct TimelineEntry {
    pub event: usize,
    pub description: String,
}

/// The analysis of an incident.
#[derive(Debug, Clone)]
pub struct RootCausePlan {
    /// The positions of the incident's events, in input order.
    pub incident_events: Vec<usize>,
    /// The candidate causes: matching anomalies first, then error events.
    pub causes: Vec<CausePlan>,
    /// The incident's events, earliest first.
    pub timeline: Vec<TimelineEntry>,
}

/// The tag names incident `id`.
pub open spec fn tagged(tag: Option<String>, id: Seq<char>) -> bool {
    match tag {
        Some(t) => t@ == id,
        None => false,
    }
}

/// The positions of the events of incident `id`, in order.
pub open spec fn incident_of(es: Seq<EventRecord>, id: Seq<char>) -> Seq<int>
    decreases es.len(),
{
    if es.len() == 0 {
        Seq::empty()
    } else if tagged(es.last().incident_id, id) {
        incident_of(es.drop_last(), id).push(es.len() - 1)
    } else {
        incident_of(es.drop_last(), id)
    }
}

/// An error or critical event.
pub open spec fn is_error(s: Severity) -> bool {
    s == Severity::Error || s == Severity::Critical
}

/// The description of an error event as a cause: a log's message, else a
/// fixed text.
pub open spec fn error_description(e: EventRecord) -> Seq<char> {
    match e.text {
        EventText::Log(m) => m@,
        _ => "Error event detected"@,
    }
}

/// The description of an event on the timeline.
pub open spec fn timeline_description(e: EventRecord) -> Seq<char> {
    match e.text {
        EventText::Log(m) => m@,
        EventText::Metric(n, v) => n@ + " = "@ + v@,
        EventText::Trace(o) => o@,
        EventText::Alert(a) => a@,
    }
}

/// The causes taken from the anomalies of incident `id`, in order.
pub open spec fn anomaly_causes(an: Seq<AnomalyRecord>, id: Seq<char>) -> Seq<(CauseSource, Seq<char>)>
    decreases an.len(),
{
    if an.len() == 0 {
        Seq::empty()
    } else if tagged(an.last().incident_id, id) {
        anomaly_causes(an.drop_last(), id).push(
            (CauseSource::Anomaly((an.len() - 1) as usize), "Anomaly detected: "@ + an.last().explanation@))
    } else {
        anomaly_causes(an.drop_last(), id)
    }
}

/// The causes taken from the error events of incident `id`, in order.
pub open spec fn error_causes(es: Seq<EventRecord>, id: Seq<char>) -> Seq<(CauseSource, Seq<char>)>
    decreases es.len(),
{
    if es.len() == 0 {
        Seq::empty()
    } else if tagged(es.last().incident_id, id) && is_error(es.last().severity) {
        error_causes(es.drop_last(), id).push(
            (CauseSource::ErrorEvent((es.len() - 1) as usize), error_description(es.last())))
    } else {
        error_causes(es.drop_last(), id)
    }
}

/// A cause as its source and description.
pub open spec fn cause_view(c: CausePlan) -> (CauseSource, Seq<char>) {
    (c.source, c.description@)
}

/// Event `i` comes before event `j` on the timeline: it is earlier, or at the
/// same time and earlier in the input (the sort is stable).
pub open spec fn before(es: Seq<EventRecord>, i: int, j: int) -> bool {
    es[i].secs < es[j].secs
        || (es[i].secs == es[j].secs && es[i].nanos < es[j].nanos)
        || (es[i].secs == es[j].secs && es[i].nanos == es[j].nanos && i < j)
}

/// `t` is the timeline of incident `id`: each of its events exactly once,
/// in timeline order, each with its description.
pub open spec fn is_timeline(t: Seq<TimelineEntry>, es: Seq<EventRecord>, id: Seq<char>) -> bool {
    &&& forall|k: int| 0 <= k < t.len() ==> (#[trigger] t[k]).event < es.len()
        && tagged(es[t[k].event as int].incident_id, id)
        && t[k].description@ == timeline_description(es[t[k].event as int])
    &&& forall|k: int, l: int| 0 <= k < l < t.len() ==> before(es, #[trigger] t[k].event as int, #[trigger] t[l].event as int)
    &&& forall|i: int| 0 <= i < es.len() && tagged(es[i].incident_id, id)
        ==> exists|k: int| 0 <= k < t.len() && (#[trigger] t[k]).event == i
}

fn tag_is(tag: &Option<String>, id: &str) -> (r: bool)
    ensures
        r == tagged(*tag, id@),
{
    match tag {
        Some(t) => str_eq(t.as_str(), id),
        None => false,
    }
}

fn event_before(es: &[EventRecord], i: usize, j: usize) -> (r: bool)
    requires
        i < es.len(),
        j < es.len(),
    ensures
        r == before(es@, i as int, j as int),
{
    let a = &es[i];
    let b = &es[j];
    a.secs < b.secs || (a.secs == b.secs && a.nanos < b.nanos) || (a.secs == b.secs && a.nanos == b.nanos && i < j)
}

fn error_text(e: &EventRecord) -> (r: String)
    ensures
        r@ == error_description(*e),
{
    match &e.text {
        EventText::Log(m) => owned(m.as_str()),
        _ => owned("Error event detected"),
    }
}

fn timeline_text(e: &EventRecord) -> (r: String)
    ensures
        r@ == timeline_description(*e),
{
    match &e.text {
        EventText::Log(m) => owned(m.as_str()),
        EventText::Metric(n, v) => concat3(n.as_str(), " = ", v.as_str()),
        EventText::Trace(o) => owned(o.as_str()),
        EventText::Alert(a) => owned(a.as_str()),
    }
}

/// Puts event `i` into `order`, a timeline of earlier events, at its place.
fn insert_in_order(es: &[EventRecord], order: &mut Vec<usize>, i: usize)
    requires
        i < es.len(),
        forall|k: int| 0 <= k < old(order).len() ==> #[trigger] old(order)@[k] < i,
        forall|k: int, l: int| 0 <= k < l < old(order).len()
            ==> before(es@, #[trigger] old(order)@[k] as int, #[trigger] old(order)@[l] as int),
    ensures
        final(order)@.to_set() == old(order)@.to_set().insert(i),
        final(order)@.len() == old(order)@.len() + 1,
        forall|k: int, l: int| 0 <= k < l < final(order).len()
            ==> before(es@, #[trigger] final(order)@[k] as int, #[trigger] final(order)@[l] as int),
{
    let ghost o = order@;
    let mut p: usize = 0;
    while p < order.len() && event_before(es, order[p], i)
        invariant
            p <= order.len(),
            order@ == o,
            i < es.len(),
            forall|k: int| 0 <= k < o.len() ==> #[trigger] o[k] < i,
            forall|k: int| 0 <= k < p ==> before(es@, #[trigger] o[k] as int, i as int),
        decreases order.len() - p,
    {
        p += 1;
    }
    proof {
        if p < o.len() {
            assert(before(es@, i as int, o[p as int] as int));
            assert forall|l: int| p <= l < o.len() implies before(es@, i as int, #[trigger] o[l] as int) by {
                if l > p {
                    assert(before(es@, o[p as int] as int, o[l] as int));
                }
            }
        }
    }
    order.insert(p, i);
    proof {
        let n = order@;
        o.insert_ensures(p as int, i);
        assert forall|k: int, l: int| 0 <= k < l < n.len() implies before(es@, #[trigger] n[k] as int, #[trigger] n[l] as int) by {
            if l < p {
                assert(n[k] == o[k] && n[l] == o[l]);
            } else if l == p {
                assert(n[k] == o[k]);
            } else if k < p {
                assert(n[k] == o[k] && n[l] == o[l - 1]);
                assert(before(es@, o[k] as int, i as int));
                assert(before(es@, i as int, o[l - 1] as int));
            } else if k == p {
                assert(n[l] == o[l - 1]);
            } else {
                assert(n[k] == o[k - 1] && n[l] == o[l - 1]);
            }
        }
        assert forall|x: usize| #[trigger] n.to_set().contains(x) <==> o.to_set().insert(i).contains(x) by {
            if n.to_set().contains(x) {
                let k = choose|k: int| 0 <= k < n.len() && n[k] == x;
                if k < p {
                    assert(o[k] == x);
                } else if k > p {
                    assert(o[k - 1] == x);
                }
            }
            if o.to_set().contains(x) {
                let k = choose|k: int| 0 <= k < o.len() && o[k] == x;
                if k < p {
                    assert(n[k] == x);
                } else {
                    assert(n[k + 1] == x);
                }
            }
            if x == i {
                assert(n[p as int] == i);
            }
        }
        assert(n.to_set() =~= o.to_set().insert(i));
    }
}

/// Analyses incident `incident_id`: fails when no event belongs to it;
/// otherwise gives its events in input order, the candidate causes (each
/// anomaly of the incident, then each of its error or critical events, in
/// input order) and its timeline, earliest first.
pub fn root_cause_plan(incident_id: &str, events: &[EventRecord], anomalies: &[AnomalyRecord])
    -> (r: Result<RootCausePlan, String>)
    ensures
        (r is Err) <==> (forall|i: int| 0 <= i < events.len() ==> !tagged(#[trigger] events@[i].incident_id, incident_id@)),
        match r {
            Err(e) => e@ == "No events found for incident"@,
            Ok(p) => {
                &&& p.incident_events@.map_values(|i: usize| i as int) == incident_of(events@, incident_id@)
                &&& p.causes@.map_values(|c: CausePlan| cause_view(c))
                    == anomaly_causes(anomalies@, incident_id@) + error_causes(events@, incident_id@)
                &&& is_timeline(p.timeline@, events@, incident_id@)
            },
        },
{
    let ghost id = incident_id@;
    let mut causes: Vec<CausePlan> = Vec::new();
    let mut j: usize = 0;
    assert(anomalies@.take(0) =~= Seq::<AnomalyRecord>::empty());
    assert(causes@.map_values(|c: CausePlan| cause_view(c)) =~= Seq::<(CauseSource, Seq<char>)>::empty());
    while j < anomalies.len()
        invariant
            j <= anomalies.len(),
            id == incident_id@,
            causes@.map_values(|c: CausePlan| cause_view(c)) == anomaly_causes(anomalies@.take(j as int), id),
        decreases anomalies.len() - j,
    {
        let ghost before_causes = causes@.map_values(|c: CausePlan| cause_view(c));
        proof {
            assert(anomalies@.take(j + 1).drop_last() =~= anomalies@.take(j as int));
            assert(anomalies@.take(j + 1).last() == anomalies@[j as int]);
        }
        if tag_is(&anomalies[j].incident_id, incident_id) {
            let c = CausePlan {
                source: CauseSource::Anomaly(j),
                description: concat2("Anomaly detected: ", anomalies[j].explanation.as_str()),
            };
            causes.push(c);
            assert(causes@.map_values(|c: CausePlan| cause_view(c)) =~= before_causes.push(cause_view(c)));
        }
        j += 1;
    }
    assert(anomalies@.take(anomalies.len() as int) =~= anomalies@);
    let ghost ac = anomaly_causes(anomalies@, id);

    let mut inc: Vec<usize> = Vec::new();
    let mut order: Vec<usize> = Vec::new();
    let mut i: usize = 0;
    assert(events@.take(0) =~= Seq::<EventRecord>::empty());
    assert(inc@.map_values(|x: usize| x as int) =~= Seq::<int>::empty());
    assert(ac + error_causes(events@.take(0), id) =~= ac);
    while i < events.len()
        invariant
            i <= events.len(),
            id == incident_id@,
            ac == anomaly_causes(anomalies@, id),
            inc@.map_values(|x: usize| x as int) == incident_of(events@.take(i as int), id),
            causes@.map_values(|c: CausePlan| cause_view(c)) == ac + error_causes(events@.take(i as int), id),
            order.len() == inc.len(),
            forall|k: int| 0 <= k < order.len() ==> #[trigger] order@[k] < i
                && tagged(events@[order@[k] as int].incident_id, id),
            forall|k: int, l: int| 0 <= k < l < order.len()
                ==> before(events@, #[trigger] order@[k] as int, #[trigger] order@[l] as int),
            forall|q: int| 0 <= q < i && tagged(#[trigger] events@[q].incident_id, id) ==> order@.to_set().contains(q as usize),
        decreases events.len() - i,
    {
        let ghost before_inc = inc@.map_values(|x: usize| x as int);
        let ghost before_causes = causes@.map_values(|c: CausePlan| cause_view(c));
        let ghost o = order@;
        proof {
            assert(events@.take(i + 1).drop_last() =~= events@.take(i as int));
            assert(events@.take(i + 1).last() == events@[i as int]);
        }
        if tag_is(&events[i].incident_id, incident_id) {
            inc.push(i);
            assert(inc@.map_values(|x: usize| x as int) =~= before_inc.push(i as int));
            let sev = events[i].severity;
            if sev == Severity::Error || sev == Severity::Critical {
                let c = CausePlan { source: CauseSource::ErrorEvent(i), description: error_text(&events[i]) };
                causes.push(c);
                assert(causes@.map_values(|c: CausePlan| cause_view(c)) =~= before_causes.push(cause_view(c)));
            }
            insert_in_order(events, &mut order, i);
            proof {
                assert forall|k: int| 0 <= k < order.len() implies #[trigger] order@[k] < i + 1
                    && tagged(events@[order@[k] as int].incident_id, id) by {
                    assert(order@.to_set().contains(order@[k]));
                    if order@[k] != i {
                        assert(o.to_set().contains(order@[k]));
                        let m = choose|m: int| 0 <= m < o.len() && o[m] == order@[k];
                    }
                }
                assert forall|q: int| 0 <= q < i + 1 && tagged(#[trigger] events@[q].incident_id, id)
                    implies order@.to_set().contains(q as usize) by {
                    if q < i {
                        assert(o.to_set().contains(q as usize));
                    }
                }
            }
        } else {
            assert(causes@.map_values(|c: CausePlan| cause_view(c)) =~= ac + error_causes(events@.take(i + 1), id));
        }
        i += 1;
    }
    assert(events@.take(events.len() as int) =~= events@);
    if inc.len() == 0 {
        return Err(owned("No events found for incident"));
    }
    proof {
        assert(tagged(events@[order@[0] as int].incident_id, id));
    }
    let mut timeline: Vec<TimelineEntry> = Vec::new();
    let mut k: usize = 0;
    while k < order.len()
        invariant
            k <= order.len(),
            timeline.len() == k,
            forall|k2: int| 0 <= k2 < order.len() ==> #[trigger] order@[k2] < events.len(),
            forall|m: int| 0 <= m < k ==> (#[trigger] timeline@[m]).event == order@[m]
                && timeline@[m].description@ == timeline_description(events@[order@[m] as int]),
        decreases order.len() - k,
    {
        let e = order[k];
        timeline.push(TimelineEntry { event: e, description: timeline_text(&events[e]) });
        k += 1;
    }
    proof {
        let t = timeline@;
        assert forall|a: int, b: int| 0 <= a < b < t.len() implies before(events@, #[trigger] t[a].event as int, #[trigger] t[b].event as int) by {
            assert(t[a].event == order@[a] && t[b].event == order@[b]);
        }
        assert forall|q: int| 0 <= q < events.len() && tagged(events@[q].incident_id, id)
            implies exists|m: int| 0 <= m < t.len() && (#[trigger] t[m]).event == q by {
            assert(order@.to_set().contains(q as usize));
            let m = choose|m: int| 0 <= m < order@.len() && order@[m] == q as usize;
            assert(t[m].event == q);
        }
    }
    Ok(RootCausePlan { incident_events: inc, causes, timeline })
}

/// A point in time: whole seconds since the Unix epoch and nanoseconds
/// within that second.
#[derive(Debug, Clone, Copy, PartialEq, Eq, Structural)]
pub struct EventTime {
    pub secs: i64,
    pub nanos: u32,
}

/// When an event happened.
pub open spec fn event_time(e: EventRecord) -> EventTime {
    EventTime { secs: e.secs, nanos: e.nanos }
}

/// `a` is no later than `b`.
pub open spec fn time_le(a: EventTime, b: EventTime) -> bool {
    a.secs < b.secs || (a.secs == b.secs && a.nanos <= b.nanos)
}

/// The whole milliseconds from `a` to `b`.
pub open spec fn millis_between(a: EventTime, b: EventTime) -> int {
    ((b.secs - a.secs) * 1_000_000_000 + b.nanos - a.nanos) / 1_000_000
}

/// A time that spans are measured on: within the range of a UTC date-time
/// (under 10^13 seconds either side of the epoch) and not inside a leap
/// second (fewer than 10^9 nanoseconds).
pub open spec fn representable(e: EventRecord) -> bool {
    -10_000_000_000_000 <= e.secs <= 10_000_000_000_000 && e.nanos < 1_000_000_000
}

/// One phase of an incident.
#[derive(Debug, Clone)]
pub struct PhaseSpan {
    pub name: String,
    pub description: String,
    pub start: EventTime,
    pub end: EventTime,
    pub duration_ms: u64,
}

/// The reconstructed span of an incident.
#[derive(Debug, Clone)]
pub struct IncidentSpan {
    /// The earliest time of the incident's events.
    pub start: EventTime,
    /// The latest time of the incident's events.
    pub end: EventTime,
    /// Whole milliseconds from start to end.
    pub duration_ms: u64,
    /// The incident's events in input order, with their descriptions.
    pub entries: Vec<TimelineEntry>,
    /// Detection, then resolution.
    pub phases: Vec<PhaseSpan>,
    pub impact_summary: String,
}

/// `t` shifted by `secs` seconds.
pub open spec fn shifted(t: EventTime, secs: int) -> EventTime {
    EventTime { secs: (t.secs + secs) as i64, nanos: t.nanos }
}

/// The reconstruction of incident `id` from `es`.
pub open spec fn incident_span_spec(s: IncidentSpan, es: Seq<EventRecord>, id: Seq<char>) -> bool {
    let inc = incident_of(es, id);
    let n = s.entries@.len();
    &&& n == inc.len()
    &&& forall|k: int| 0 <= k < n ==> (#[trigger] s.entries@[k]).event == inc[k]
        && s.entries@[k].description@ == timeline_description(es[inc[k]])
    &&& forall|k: int| 0 <= k < n ==> time_le(s.start, #[trigger] event_time(es[inc[k]]))
        && time_le(event_time(es[inc[k]]), s.end)
    &&& exists|k: int| 0 <= k < n && event_time(es[#[trigger] inc[k]]) == s.start
    &&& exists|k: int| 0 <= k < n && event_time(es[#[trigger] inc[k]]) == s.end
    &&& s.duration_ms == millis_between(s.start, s.end)
    &&& s.phases@.len() == 2
    &&& s.phases@[0].name@ == "Detection"@
    &&& s.phases@[0].description@ == "Initial detection of the incident"@
    &&& s.phases@[0].start == s.start && s.phases@[0].end == shifted(s.start, 300)
    &&& s.phases@[0].duration_ms == 300_000
    &&& s.phases@[1].name@ == "Resolution"@
    &&& s.phases@[1].description@ == "Incident resolution phase"@
    &&& s.phases@[1].start == shifted(s.end, -300) && s.phases@[1].end == s.end
    &&& s.phases@[1].duration_ms == 300_000
    &&& s.impact_summary@ == "Incident affected "@ + decimal(n) + " resources with "@ + decimal(n) + " events"@
}

fn earlier(a: EventTime, b: EventTime) -> (r: bool)
    ensures
        r == !time_le(b, a),
{
    a.secs < b.secs || (a.secs == b.secs && a.nanos < b.nanos)
}

/// Reconstructs incident `incident_id`: fails when no event belongs to it;
/// otherwise gives its span from the earliest to the latest of its events,
/// the events in input order with their descriptions, a five-minute
/// detection phase from the start and a five-minute resolution phase up to
/// the end.
pub fn incident_timeline(incident_id: &str, events: &[EventRecord]) -> (r: Result<IncidentSpan, String>)
    requires
        forall|i: int| 0 <= i < events.len() && tagged(events@[i].incident_id, incident_id@)
            ==> representable(#[trigger] events@[i]),
    ensures
        (r is Err) <==> incident_of(events@, incident_id@).len() == 0,
        match r {
            Err(e) => e@ == "No events found for incident"@,
            Ok(s) => incident_span_spec(s, events@, incident_id@),
        },
{
    let ghost id = incident_id@;
    let mut entries: Vec<TimelineEntry> = Vec::new();
    let mut start = EventTime { secs: 0, nanos: 0 };
    let mut end = EventTime { secs: 0, nanos: 0 };
    let mut i: usize = 0;
    assert(events@.take(0) =~= Seq::<EventRecord>::empty());
    while i < events.len()
        invariant
            i <= events.len(),
            id == incident_id@,
            forall|q: int| 0 <= q < events.len() && tagged(events@[q].incident_id, id)
                ==> representable(#[trigger] events@[q]),
            entries@.map_values(|t: TimelineEntry| t.event as int) == incident_of(events@.take(i as int), id),
            forall|k: int| 0 <= k < entries.len() ==> (#[trigger] entries@[k]).event < i
                && entries@[k].description@ == timeline_description(events@[entries@[k].event as int])
                && time_le(start, event_time(events@[entries@[k].event as int]))
                && time_le(event_time(events@[entries@[k].event as int]), end),
            entries.len() > 0 ==> exists|k: int| 0 <= k < entries.len()
                && event_time(events@[(#[trigger] entries@[k]).event as int]) == start,
            entries.len() > 0 ==> exists|k: int| 0 <= k < entries.len()
                && event_time(events@[(#[trigger] entries@[k]).event as int]) == end,
            entries.len() > 0 ==> -10_000_000_000_000 <= start.secs <= 10_000_000_000_000 && start.nanos < 1_000_000_000,
            entries.len() > 0 ==> -10_000_000_000_000 <= end.secs <= 10_000_000_000_000 && end.nanos < 1_000_000_000,
        decreases events.len() - i,
    {
        let ghost before = entries@;
        let ghost old_start = start;
        let ghost old_end = end;
        proof {
            assert(events@.take(i + 1).drop_last() =~= events@.take(i as int));
            assert(events@.take(i + 1).last() == events@[i as int]);
        }
        if tag_is(&events[i].incident_id, incident_id) {
            let t = EventTime { secs: events[i].secs, nanos: events[i].nanos };
            let first = entries.len() == 0;
            if first || earlier(t, start) {
                start = t;
            }
            if first || earlier(end, t) {
                end = t;
            }
            let entry = TimelineEntry { event: i, description: timeline_text(&events[i]) };
            entries.push(entry);
            proof {
                let ev = |x: TimelineEntry| x.event as int;
                assert(entries@.map_values(ev) =~= before.map_values(ev).push(i as int));
                let last = (entries.len() - 1) as int;
                assert(entries@[last].event == i);
                assert forall|k: int| 0 <= k < entries.len() implies (#[trigger] entries@[k]).event < i + 1
                    && entries@[k].description@ == timeline_description(events@[entries@[k].event as int])
                    && time_le(start, event_time(events@[entries@[k].event as int]))
                    && time_le(event_time(events@[entries@[k].event as int]), end) by {
                    if k < last {
                        assert(entries@[k] == before[k]);
                    }
                }
                if start == t {
                    assert(event_time(events@[(entries@[last]).event as int]) == start);
                } else {
                    let k = choose|k: int| 0 <= k < before.len() && event_time(events@[(#[trigger] before[k]).event as int]) == old_start;
                    assert(entries@[k] == before[k]);
                }
                if end == t {
                    assert(event_time(events@[(entries@[last]).event as int]) == end);
                } else {
                    let k = choose|k: int| 0 <= k < before.len() && event_time(events@[(#[trigger] before[k]).event as int]) == old_end;
                    assert(entries@[k] == before[k]);
                }
                assert(representable(events@[i as int]));
            }
        } else {
            assert(entries@.map_values(|t: TimelineEntry| t.event as int) == incident_of(events@.take(i + 1), id));
        }
        i += 1;
    }
    assert(events@.take(events.len() as int) =~= events@);
    let ghost inc = incident_of(events@, id);
    proof {
        assert(entries@.map_values(|t: TimelineEntry| t.event as int).len() == entries.len());
    }
    if entries.len() == 0 {
        return Err(owned("No events found for incident"));
    }
    proof {
        assert forall|k: int| 0 <= k < entries.len() implies (#[trigger] entries@[k]).event == inc[k] by {
            assert(entries@.map_values(|t: TimelineEntry| t.event as int)[k] == entries@[k].event as int);
        }
    }
    proof {
        let k = choose|k: int| 0 <= k < entries.len() && event_time(events@[(#[trigger] entries@[k]).event as int]) == end;
        assert(time_le(start, end));
    }
    let span_nanos: i128 = ((end.secs as i128) - (start.secs as i128)) * 1_000_000_000i128
        + (end.nanos as i128) - (start.nanos as i128);
    assert(span_nanos >= 0) by (nonlinear_arith)
        requires
            span_nanos == (end.secs - start.secs) * 1_000_000_000 + end.nanos - start.nanos,
            start.secs < end.secs || (start.secs == end.secs && start.nanos <= end.nanos),
            start.nanos < 1_000_000_000,
    ;
    assert(span_nanos / 1_000_000 <= u64::MAX) by (nonlinear_arith)
        requires
            span_nanos == (end.secs - start.secs) * 1_000_000_000 + end.nanos - start.nanos,
            -10_000_000_000_000 <= start.secs <= 10_000_000_000_000,
            -10_000_000_000_000 <= end.secs <= 10_000_000_000_000,
            end.nanos < 1_000_000_000,
            span_nanos >= 0,
    ;
    let duration_ms: u64 = (span_nanos / 1_000_000i128) as u64;
    let detection = PhaseSpan {
        name: owned("Detection"),
        description: owned("Initial detection of the incident"),
        start,
        end: EventTime { secs: start.secs + 300, nanos: start.nanos },
        duration_ms: 300_000,
    };
    let resolution = PhaseSpan {
        name: owned("Resolution"),
        description: owned("Incident resolution phase"),
        start: EventTime { secs: end.secs - 300, nanos: end.nanos },
        end,
        duration_ms: 300_000,
    };
    let n = u64_to_string(entries.len() as u64);
    let mut summary = owned("Incident affected ");
    append(&mut summary, n.as_str());
    append(&mut summary, " resources with ");
    append(&mut summary, n.as_str());
    append(&mut summary, " events");
    let phases = vec![detection, resolution];
    let r = IncidentSpan { start, end, duration_ms, entries, phases, impact_summary: summary };
    proof {
        assert(r.entries@.len() == inc.len());
        let kk = choose|k: int| 0 <= k < r.entries@.len() && event_time(events@[(#[trigger] r.entries@[k]).event as int]) == start;
        assert(r.entries@[kk].event == inc[kk]);
        let kk2 = choose|k: int| 0 <= k < r.entries@.len() && event_time(events@[(#[trigger] r.entries@[k]).event as int]) == end;
        assert(r.entries@[kk2].event == inc[kk2]);
        assert forall|k: int| 0 <= k < r.entries@.len() implies time_le(start, #[trigger] event_time(events@[inc[k]]))
            && time_le(event_time(events@[inc[k]]), end) by {
            assert(r.entries@[k].event == inc[k]);
        }
    }
    Ok(r)
}

} // verus!
