use layermind::knowledge::{KnowledgeKind, MetaField, MetaValue, ObservationState, TimelineEventType};
use layermind::knowledge_timeline::TimelineBuilder;
use layermind::observation::{AnomalyCategory, Observation, ObservationKind, Severity};
use layermind::profiler::PrinterProfiler;
use layermind::tracker::{KnowledgeScorer, ObservationTracker};

fn now_ms() -> i64 {
    chrono::Utc::now().timestamp_millis()
}

fn obs(kind: ObservationKind) -> Observation {
    Observation {
        id: uuid::Uuid::now_v7().to_string(),
        printer_id: "test".into(),
        timestamp: now_ms(),
        kind,
    }
}

fn anomaly(category: AnomalyCategory, severity: Severity, message: &str, evidence: Vec<String>) -> ObservationKind {
    ObservationKind::AnomalyDetected { category, severity, message: message.into(), evidence }
}

fn health(stability_milli: i64, success_milli: Option<i64>) -> ObservationKind {
    ObservationKind::HealthSnapshot {
        temperature_stability_milli: stability_milli,
        success_rate_milli: success_milli,
        recent_error_count: 0,
        recent_warning_count: 0,
        seconds_since_calibration: None,
        uptime_ms: 3_600_000,
    }
}

// ── Profiler ───────────────────────────────────────────────────────

#[test]
fn successful_prints_update_counts() {
    let mut profiler = PrinterProfiler::new("p1".into());
    profiler.process(&obs(ObservationKind::PrintCompleted {
        filename: "ok.gcode".into(),
        duration_ms: 1_000_000,
        success: true,
    }));
    assert_eq!(profiler.profile().behavior.successful_prints, 1);
    assert_eq!(profiler.profile().behavior.failed_prints, 0);
    assert!(profiler.profile().behavior.avg_print_duration_ms.is_some());
}

#[test]
fn anomaly_adds_known_issue() {
    let mut profiler = PrinterProfiler::new("p1".into());
    profiler.process(&obs(anomaly(AnomalyCategory::TemperatureInstability, Severity::Warning, "unstable temps", vec![])));
    assert_eq!(profiler.profile().behavior.known_issues.len(), 1);
    assert_eq!(profiler.profile().behavior.known_issues[0].occurrence_count, 1);
}

#[test]
fn repeated_anomaly_bumps_count() {
    let mut profiler = PrinterProfiler::new("p1".into());
    profiler.process(&obs(anomaly(AnomalyCategory::RepeatedFailures, Severity::Warning, "failures", vec![])));
    profiler.process(&obs(anomaly(AnomalyCategory::RepeatedFailures, Severity::Warning, "failures", vec![])));
    assert_eq!(profiler.profile().behavior.known_issues[0].occurrence_count, 2);
    assert_eq!(profiler.profile().behavior.known_issues.len(), 1);
}

#[test]
fn resolve_issue_marks_resolved() {
    let mut profiler = PrinterProfiler::new("p1".into());
    profiler.process(&obs(anomaly(AnomalyCategory::CalibrationOverdue, Severity::Warning, "stale cal", vec![])));
    assert!(profiler.resolve_issue(AnomalyCategory::CalibrationOverdue));
    assert!(profiler.profile().behavior.known_issues[0].resolved);
    assert!(!profiler.resolve_issue(AnomalyCategory::CalibrationOverdue));
}

#[test]
fn reliability_score_penalizes_open_issues() {
    let mut profiler = PrinterProfiler::new("p1".into());
    profiler.process(&obs(health(1000, Some(1000))));
    let perfect = profiler.profile().behavior.reliability_milli.unwrap();
    assert!((perfect - 1000).abs() < 10);

    profiler.process(&obs(anomaly(AnomalyCategory::ExcessiveErrors, Severity::Critical, "many errors", vec![])));
    let degraded = profiler.profile().behavior.reliability_milli.unwrap();
    assert!(degraded < perfect);
    assert_eq!(degraded, 950);
}

#[test]
fn reliability_weights_stability_and_success() {
    let mut profiler = PrinterProfiler::new("p1".into());
    profiler.process(&obs(health(500, Some(800))));
    // 0.4 * 0.5 + 0.6 * 0.8 = 0.68
    assert_eq!(profiler.profile().behavior.reliability_milli, Some(680));
}

#[test]
fn print_failures_are_counted() {
    let mut profiler = PrinterProfiler::new("p1".into());
    let updated = profiler.process(&obs(ObservationKind::PrintFailed {
        filename: "x.gcode".into(),
        duration_ms: 10,
        reason: None,
    }));
    assert!(updated);
    assert_eq!(profiler.profile().behavior.failed_prints, 1);
    let ignored = profiler.process(&obs(ObservationKind::PrintStarted { filename: "y.gcode".into() }));
    assert!(!ignored);
}

// ── Scorer ─────────────────────────────────────────────────────────

#[test]
fn health_snapshot_high_confidence() {
    let scorer = KnowledgeScorer::new();
    let kind = ObservationKind::HealthSnapshot {
        temperature_stability_milli: 900,
        success_rate_milli: Some(800),
        recent_error_count: 0,
        recent_warning_count: 0,
        seconds_since_calibration: None,
        uptime_ms: 3_600_000,
    };
    assert!(scorer.confidence(&kind) > 850);
}

#[test]
fn anomaly_confidence_scales_with_evidence() {
    let scorer = KnowledgeScorer::new();
    let one = anomaly(AnomalyCategory::ExcessiveErrors, Severity::Warning, "test", vec!["e1".into()]);
    let many = anomaly(
        AnomalyCategory::ExcessiveErrors,
        Severity::Warning,
        "test",
        vec!["e1".into(), "e2".into(), "e3".into(), "e4".into()],
    );
    assert!(scorer.confidence(&many) > scorer.confidence(&one));
    assert_eq!(scorer.confidence(&one), 700);
    assert_eq!(scorer.confidence(&many), 850);
}

#[test]
fn confidence_is_capped_at_one() {
    let scorer = KnowledgeScorer::new();
    let evidence: Vec<String> = (0..20).map(|i| format!("e{}", i)).collect();
    let kind = anomaly(AnomalyCategory::ExcessiveErrors, Severity::Warning, "t", evidence);
    assert_eq!(scorer.confidence(&kind), 1000);
    let started = ObservationKind::PrintStarted { filename: "a".into() };
    assert_eq!(scorer.confidence(&started), 950);
}

// ── Timeline ───────────────────────────────────────────────────────

#[test]
fn print_failure_adds_timeline_entry() {
    let mut builder = TimelineBuilder::new();
    let results = builder.process(&obs(ObservationKind::PrintFailed {
        filename: "test.gcode".into(),
        duration_ms: 100_000,
        reason: Some("thermal runaway".into()),
    }));
    assert_eq!(results.len(), 1);
    assert_eq!(builder.len(), 1);
    assert!(builder.entries()[0].event_type == TimelineEventType::FailureDetected);
    assert_eq!(builder.entries()[0].description, "Print failed: thermal runaway");
}

#[test]
fn first_print_milestone() {
    let mut builder = TimelineBuilder::new();
    let results = builder.process(&obs(ObservationKind::PrintCompleted {
        filename: "first.gcode".into(),
        duration_ms: 100_000,
        success: true,
    }));
    assert_eq!(results.len(), 1);
    assert!(builder.entries()[0].event_type == TimelineEventType::PrintMilestone);
    assert_eq!(builder.entries()[0].description, "First successful print");
}

#[test]
fn anomaly_adds_timeline_entry() {
    let mut builder = TimelineBuilder::new();
    let results = builder.process(&obs(anomaly(
        AnomalyCategory::TemperatureInstability,
        Severity::Critical,
        "temp unstable",
        vec![],
    )));
    assert_eq!(results.len(), 1);
    match &results[0] {
        KnowledgeKind::TimelineEventAdded { entry } => {
            assert_eq!(entry.description, "temp unstable");
            assert!(entry.severity == Some(Severity::Critical));
        }
        _ => panic!("expected a timeline entry"),
    }
}

#[test]
fn health_snapshot_does_not_add_entry() {
    let mut builder = TimelineBuilder::new();
    let results = builder.process(&obs(ObservationKind::HealthSnapshot {
        temperature_stability_milli: 1000,
        success_rate_milli: None,
        recent_error_count: 0,
        recent_warning_count: 0,
        seconds_since_calibration: None,
        uptime_ms: 0,
    }));
    assert!(results.is_empty());
}

#[test]
fn manual_entry_added() {
    let mut builder = TimelineBuilder::new();
    builder.record_manual(
        TimelineEventType::NozzleChanged,
        "Replaced 0.4mm with 0.6mm".into(),
        Some(Severity::Info),
        vec![
            MetaField { key: "old".into(), value: MetaValue::Text("0.4mm".into()) },
            MetaField { key: "new".into(), value: MetaValue::Text("0.6mm".into()) },
        ],
        now_ms(),
    );
    assert_eq!(builder.len(), 1);
}

#[test]
fn tenth_print_is_a_milestone_but_not_the_second() {
    let mut builder = TimelineBuilder::new();
    let done = || {
        obs(ObservationKind::PrintCompleted { filename: "p.gcode".into(), duration_ms: 1, success: true })
    };
    assert_eq!(builder.process(&done()).len(), 1);
    assert_eq!(builder.process(&done()).len(), 0);
    for _ in 3..10 {
        builder.process(&done());
    }
    let tenth = builder.process(&done());
    assert_eq!(tenth.len(), 1);
    assert_eq!(builder.entries()[1].description, "10 prints completed");
}

// ── Observation tracker ────────────────────────────────────────────

fn anomaly_obs(severity: Severity) -> Observation {
    obs(anomaly(AnomalyCategory::TemperatureInstability, severity, "test", vec!["e1".into()]))
}

#[test]
fn record_adds_entry() {
    let mut tracker = ObservationTracker::new();
    let o = anomaly_obs(Severity::Warning);
    let recorded = tracker.record(&o, 500);
    assert!(recorded.is_some());
    assert_eq!(tracker.entries().len(), 1);
    assert_eq!(tracker.active_count(), 1);
    assert_eq!(tracker.entries()[0].category, "anomaly_temperatureinstability");
    assert_eq!(tracker.entries()[0].severity, "warning");
    assert!(tracker.has_active_anomaly("anomaly_temperatureinstability"));
}

#[test]
fn resolve_transitions_state() {
    let mut tracker = ObservationTracker::new();
    let o = anomaly_obs(Severity::Critical);
    tracker.record(&o, 900);
    let result = tracker.resolve(o.id.clone(), "fixed".into());
    assert!(result.is_some());
    assert_eq!(tracker.active_count(), 0);
    assert_eq!(tracker.resolved_count(), 1);
    assert!(tracker.resolve("unknown".into(), "x".into()).is_none());
}

#[test]
fn acknowledge_transitions_state() {
    let mut tracker = ObservationTracker::new();
    let o = anomaly_obs(Severity::Info);
    tracker.record(&o, 100);
    assert!(tracker.acknowledge(&o.id));
    let entry = &tracker.entries()[0];
    assert!(entry.state == ObservationState::Acknowledged);
}

#[test]
fn repeat_count_increases_for_same_category() {
    let mut tracker = ObservationTracker::new();
    let obs1 = anomaly_obs(Severity::Warning);
    assert_eq!(tracker.next_repeat_count(&obs1.kind), 1);
    tracker.record(&obs1, 500);
    assert_eq!(tracker.entries()[0].repeat_count, 1);
    let obs2 = anomaly_obs(Severity::Warning);
    tracker.record(&obs2, 500);
    assert_eq!(tracker.entries()[1].repeat_count, 2);
}

// ── Knowledge engine ───────────────────────────────────────────────

use layermind::knowledge_engine::KnowledgeEngine;

#[test]
fn knowledge_engine_tracks_profiles_and_timeline() {
    let mut engine = KnowledgeEngine::new();
    let failed = obs(ObservationKind::PrintFailed {
        filename: "a.gcode".into(),
        duration_ms: 10,
        reason: Some("clog".into()),
    });
    assert_eq!(engine.next_repeat_count(&failed.printer_id, &failed.kind), 1);
    let records = engine.process(&failed, 700);
    assert!(records.len() >= 3);
    match &records[0] {
        KnowledgeKind::ObservationTracked { observation_id, importance_milli, confidence_milli } => {
            assert_eq!(observation_id, &failed.id);
            assert_eq!(*importance_milli, 700);
            assert_eq!(*confidence_milli, 950);
        }
        _ => panic!("expected the tracked observation first"),
    }
    match &records[1] {
        KnowledgeKind::ProfileUpdated { profile } => assert_eq!(profile.behavior.failed_prints, 1),
        _ => panic!("expected the profile next"),
    }
    match &records[2] {
        KnowledgeKind::TimelineEventAdded { entry } => assert_eq!(entry.description, "Print failed: clog"),
        _ => panic!("expected a timeline entry"),
    }
    let again = obs(ObservationKind::PrintFailed { filename: "b.gcode".into(), duration_ms: 10, reason: None });
    assert_eq!(engine.next_repeat_count(&again.printer_id, &again.kind), 2);
}

#[test]
fn knowledge_engine_snapshots_every_fifty_observations() {
    let mut engine = KnowledgeEngine::new();
    for i in 1..=50u64 {
        let records = engine.process(&obs(ObservationKind::PrintStarted { filename: "s".into() }), 200);
        let snapshots = records.iter().filter(|r| matches!(r, KnowledgeKind::KnowledgeSnapshot { .. })).count();
        assert_eq!(snapshots, if i == 50 { 1 } else { 0 });
    }
}

#[test]
fn first_success_after_a_failure_is_a_milestone() {
    let mut builder = TimelineBuilder::new();
    builder.process(&obs(ObservationKind::PrintFailed {
        filename: "a.gcode".into(),
        duration_ms: 100_000,
        reason: Some("x".into()),
    }));
    let results = builder.process(&obs(ObservationKind::PrintCompleted {
        filename: "b.gcode".into(),
        duration_ms: 100_000,
        success: true,
    }));
    assert_eq!(results.len(), 1);
    let last = builder.entries().last().unwrap();
    assert!(last.event_type == TimelineEventType::PrintMilestone);
    assert_eq!(last.description, "First successful print");
}

#[test]
fn acknowledging_a_resolved_observation_changes_nothing() {
    let mut tracker = ObservationTracker::new();
    let o = anomaly_obs(Severity::Warning);
    tracker.record(&o, 500);
    tracker.resolve(o.id.clone(), "fixed".into());
    assert_eq!(tracker.resolved_count(), 1);
    tracker.acknowledge(&o.id);
    assert!(tracker.entries()[0].state == ObservationState::Resolved);
    assert_eq!(tracker.resolved_count(), 1);
}

#[test]
fn snapshots_name_the_printer_they_describe() {
    let mut engine = KnowledgeEngine::new();
    let mut other = obs(ObservationKind::PrintStarted { filename: "s".into() });
    other.printer_id = "other".into();
    engine.process(&other, 200);
    let mut last = Vec::new();
    for _ in 2..=50u64 {
        last = engine.process(&obs(ObservationKind::PrintStarted { filename: "s".into() }), 200);
    }
    let ids: Vec<String> = last
        .iter()
        .filter_map(|r| match r {
            KnowledgeKind::KnowledgeSnapshot { printer_id, .. } => Some(printer_id.clone()),
            _ => None,
        })
        .collect();
    assert_eq!(ids, vec!["other".to_string(), "test".to_string()]);
}
