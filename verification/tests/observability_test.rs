use stellar_k8s::observability::{
    incident_timeline, root_cause_plan, AnomalyRecord, CauseSource, EventRecord, EventText, EventTime, Severity,
};

fn event(incident: Option<&str>, secs: i64, nanos: u32, severity: Severity, text: EventText) -> EventRecord {
    EventRecord { incident_id: incident.map(|s| s.to_string()), secs, nanos, severity, text }
}

#[test]
fn no_events_for_incident_is_an_error() {
    let events = vec![event(Some("other"), 1, 0, Severity::Error, EventText::Log("x".to_string()))];
    let r = root_cause_plan("inc-1", &events, &[]);
    assert_eq!(r.err().as_deref(), Some("No events found for incident"));
}

#[test]
fn causes_and_timeline_of_an_incident() {
    let events = vec![
        event(Some("inc-1"), 20, 0, Severity::Info, EventText::Metric("cpu".to_string(), "0.9".to_string())),
        event(Some("other"), 5, 0, Severity::Critical, EventText::Log("unrelated".to_string())),
        event(Some("inc-1"), 10, 500, Severity::Error, EventText::Log("disk full".to_string())),
        event(Some("inc-1"), 10, 500, Severity::Critical, EventText::Trace("write".to_string())),
        event(None, 1, 0, Severity::Error, EventText::Alert("a".to_string())),
    ];
    let anomalies = vec![
        AnomalyRecord { incident_id: Some("other".to_string()), explanation: "no".to_string() },
        AnomalyRecord { incident_id: Some("inc-1".to_string()), explanation: "latency spike".to_string() },
    ];
    let plan = root_cause_plan("inc-1", &events, &anomalies).unwrap();
    assert_eq!(plan.incident_events, vec![0, 2, 3]);
    let causes: Vec<(CauseSource, &str)> = plan.causes.iter().map(|c| (c.source, c.description.as_str())).collect();
    assert_eq!(
        causes,
        vec![
            (CauseSource::Anomaly(1), "Anomaly detected: latency spike"),
            (CauseSource::ErrorEvent(2), "disk full"),
            (CauseSource::ErrorEvent(3), "Error event detected"),
        ]
    );
    let timeline: Vec<(usize, &str)> = plan.timeline.iter().map(|t| (t.event, t.description.as_str())).collect();
    assert_eq!(timeline, vec![(2, "disk full"), (3, "write"), (0, "cpu = 0.9")]);
}

#[test]
fn incident_timeline_without_events_is_an_error() {
    let events = vec![event(Some("other"), 1, 0, Severity::Info, EventText::Log("x".to_string()))];
    assert_eq!(incident_timeline("inc-1", &events).err().as_deref(), Some("No events found for incident"));
}

#[test]
fn incident_timeline_span_and_phases() {
    let events = vec![
        event(Some("inc-1"), 1_000, 250_000_000, Severity::Info, EventText::Metric("cpu".to_string(), "0.9".to_string())),
        event(Some("other"), 10, 0, Severity::Info, EventText::Log("unrelated".to_string())),
        event(Some("inc-1"), 400, 500_000_000, Severity::Error, EventText::Log("disk full".to_string())),
        event(Some("inc-1"), 700, 0, Severity::Info, EventText::Alert("page".to_string())),
    ];
    let span = incident_timeline("inc-1", &events).unwrap();
    assert_eq!(span.start, EventTime { secs: 400, nanos: 500_000_000 });
    assert_eq!(span.end, EventTime { secs: 1_000, nanos: 250_000_000 });
    assert_eq!(span.duration_ms, 599_750);
    let entries: Vec<(usize, &str)> = span.entries.iter().map(|t| (t.event, t.description.as_str())).collect();
    assert_eq!(entries, vec![(0, "cpu = 0.9"), (2, "disk full"), (3, "page")]);
    assert_eq!(span.phases.len(), 2);
    assert_eq!(span.phases[0].name, "Detection");
    assert_eq!(span.phases[0].start, span.start);
    assert_eq!(span.phases[0].end, EventTime { secs: 700, nanos: 500_000_000 });
    assert_eq!(span.phases[0].duration_ms, 300_000);
    assert_eq!(span.phases[1].name, "Resolution");
    assert_eq!(span.phases[1].start, EventTime { secs: 700, nanos: 250_000_000 });
    assert_eq!(span.phases[1].end, span.end);
    assert_eq!(span.impact_summary, "Incident affected 3 resources with 3 events");
}
