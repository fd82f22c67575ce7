use layermind::analyzer::AnalyzerEngine;
use layermind::event::{Envelope, Event, Temperature};
use layermind::metrics::HealthMetrics;
use layermind::observation::{AnomalyCategory, ObservationKind, Severity};
use layermind::print_tracker::PrintTracker;
use layermind::rules::{
    CalibrationStalenessRule, DetectionEngine, ErrorFrequencyRule, FailurePatternRule,
    TemperatureStabilityRule, STALE_CRITICAL_SECS, STALE_WARNING_SECS,
};

fn now_ms() -> i64 {
    chrono::Utc::now().timestamp_millis()
}

fn envelope(event: Event) -> Envelope {
    Envelope {
        event_id: uuid::Uuid::now_v7().to_string(),
        printer_id: "test".into(),
        timestamp: now_ms(),
        payload: event,
    }
}

fn reading(current_milli: i64, target_milli: i64, power_milli: i64) -> Temperature {
    Temperature { sensor: "e0".into(), current_milli, target_milli, power_milli: Some(power_milli) }
}

// ── Health metrics ─────────────────────────────────────────────────

/// The stability score that the application derives from the counters.
fn stability(m: &HealthMetrics) -> f64 {
    let (updates, deviation_milli) = m.temperature_totals();
    if updates == 0 {
        return 1.0;
    }
    let avg = deviation_milli as f64 / 1000.0 / updates as f64;
    (-avg / 3.0).exp().clamp(0.0, 1.0)
}

#[test]
fn perfect_temperature_stability() {
    let mut m = HealthMetrics::new();
    let e = envelope(Event::TemperatureUpdate { temperatures: vec![reading(210_000, 210_000, 500)] });
    m.process(&e);
    assert_eq!(m.temperature_totals(), (1, 0));
    assert!(stability(&m) > 0.95);
}

#[test]
fn poor_temperature_stability() {
    let mut m = HealthMetrics::new();
    let e = envelope(Event::TemperatureUpdate { temperatures: vec![reading(220_000, 210_000, 900)] });
    m.process(&e);
    assert_eq!(m.temperature_totals(), (1, 10_000));
    assert!(stability(&m) < 0.1);
}

#[test]
fn success_rate_with_mixed_results() {
    let mut m = HealthMetrics::new();
    m.process(&envelope(Event::PrintCompleted { total_time_ms: 100_000, filament_used_milli: None }));
    m.process(&envelope(Event::PrintCompleted { total_time_ms: 200_000, filament_used_milli: None }));
    m.process(&envelope(Event::PrintFailed { reason: None }));
    let (completed, failed) = m.print_outcomes();
    assert_eq!((completed, failed), (2, 1));
    let rate = completed as f64 / (completed + failed) as f64;
    assert!((rate - 2.0 / 3.0).abs() < 0.01);
    assert_eq!(m.duration_totals(), (2, 300_000));
}

#[test]
fn errors_warnings_and_connections_are_counted() {
    let mut m = HealthMetrics::new();
    m.process(&envelope(Event::Error { code: None, message: "x".into() }));
    m.process(&envelope(Event::Warning { message: "y".into() }));
    m.process(&envelope(Event::Error { code: Some("E1".into()), message: "z".into() }));
    m.record_connect();
    assert_eq!(m.error_count(), 2);
    assert_eq!(m.warning_count(), 1);
}

// ── Print tracker ──────────────────────────────────────────────────

#[test]
fn full_print_lifecycle() {
    let mut tracker = PrintTracker::new();
    let start = tracker.process(&envelope(Event::PrintStarted {
        filename: "test.gcode".into(),
        estimated_time_ms: Some(3_600_000),
    }));
    assert!(matches!(start, Some(ObservationKind::PrintStarted { .. })));

    let progress = tracker.process(&envelope(Event::PrintProgress {
        progress_milli: 500,
        elapsed_ms: 1_800_000,
        remaining_ms: Some(1_800_000),
        current_layer: Some(50),
        total_layers: Some(100),
    }));
    assert!(progress.is_none());

    let complete = tracker.process(&envelope(Event::PrintCompleted {
        total_time_ms: 3_600_000,
        filament_used_milli: Some(5_000_000),
    }));
    assert!(matches!(complete, Some(ObservationKind::PrintSummary { success: true, .. })));
    match complete {
        Some(ObservationKind::PrintSummary { filename, duration_ms, total_layers, filament_used_milli, .. }) => {
            assert_eq!(filename, "test.gcode");
            assert_eq!(duration_ms, 3_600_000);
            assert_eq!(total_layers, Some(100));
            assert_eq!(filament_used_milli, Some(5_000_000));
        }
        _ => panic!("expected a summary"),
    }
    assert!(!tracker.is_printing());
}

#[test]
fn tracks_consecutive_failures() {
    let mut tracker = PrintTracker::new();
    tracker.process(&envelope(Event::PrintStarted { filename: "fail1.gcode".into(), estimated_time_ms: None }));
    tracker.process(&envelope(Event::PrintFailed { reason: Some("error".into()) }));
    assert_eq!(tracker.consecutive_failures(), 1);

    tracker.process(&envelope(Event::PrintStarted { filename: "fail2.gcode".into(), estimated_time_ms: None }));
    let second = tracker.process(&envelope(Event::PrintFailed { reason: Some("error".into()) }));
    assert_eq!(tracker.consecutive_failures(), 2);
    match second {
        Some(ObservationKind::PrintSummary { success, failure_reason, highlights, .. }) => {
            assert!(!success);
            assert_eq!(failure_reason.as_deref(), Some("error"));
            assert_eq!(highlights, vec!["2 consecutive failure(s)".to_string()]);
        }
        _ => panic!("expected a summary"),
    }

    tracker.process(&envelope(Event::PrintStarted { filename: "success.gcode".into(), estimated_time_ms: None }));
    tracker.process(&envelope(Event::PrintCompleted { total_time_ms: 100_000, filament_used_milli: None }));
    assert_eq!(tracker.consecutive_failures(), 0);
}

#[test]
fn pauses_are_highlighted_and_cancel_is_a_failure() {
    let mut tracker = PrintTracker::new();
    tracker.process(&envelope(Event::PrintStarted { filename: "a.gcode".into(), estimated_time_ms: None }));
    assert!(tracker.is_printing());
    tracker.process(&envelope(Event::PrintPaused { reason: None }));
    tracker.process(&envelope(Event::PrintResumed));
    let end = tracker.process(&envelope(Event::PrintCancelled));
    match end {
        Some(ObservationKind::PrintSummary { success, failure_reason, highlights, duration_ms, .. }) => {
            assert!(!success);
            assert_eq!(failure_reason.as_deref(), Some("cancelled"));
            assert_eq!(highlights, vec!["paused 1 time(s)".to_string()]);
            assert_eq!(duration_ms, 0);
        }
        _ => panic!("expected a summary"),
    }
}

// ── Calibration staleness ──────────────────────────────────────────

fn calibration_event(age_secs: i64) -> Envelope {
    Envelope {
        event_id: uuid::Uuid::now_v7().to_string(),
        printer_id: "test".into(),
        timestamp: now_ms() - age_secs * 1000,
        payload: Event::Raw {
            namespace: "moonraker".into(),
            key: Some("notify_gcode_response".into()),
            value: "{}".into(),
        },
    }
}

#[test]
fn recent_calibration_no_detection() {
    let rule = CalibrationStalenessRule::new();
    let window = vec![calibration_event(3600)];
    assert!(rule.analyze(&window).is_empty());
}

#[test]
fn stale_calibration_triggers_warning() {
    let rule = CalibrationStalenessRule::new();
    let window = vec![calibration_event(STALE_WARNING_SECS + 3600)];
    let detections = rule.analyze(&window);
    assert_eq!(detections.len(), 1);
    assert!(detections[0].severity == Severity::Warning);
}

#[test]
fn very_stale_calibration_triggers_critical() {
    let rule = CalibrationStalenessRule::new();
    let window = vec![calibration_event(STALE_CRITICAL_SECS + 3600)];
    let detections = rule.analyze(&window);
    assert_eq!(detections.len(), 1);
    assert!(detections[0].severity == Severity::Critical);
}

#[test]
fn calibration_age_is_judged_against_the_given_time() {
    let rule = CalibrationStalenessRule::new();
    let mut e = calibration_event(0);
    e.timestamp = 0;
    let window = vec![e];
    assert!(rule.analyze_at(&window, STALE_WARNING_SECS * 1000).is_empty());
    let d = rule.analyze_at(&window, STALE_WARNING_SECS * 1000 + 1000);
    assert_eq!(d.len(), 1);
    assert!(d[0].category == AnomalyCategory::CalibrationOverdue);
}

// ── Error frequency ────────────────────────────────────────────────

fn error_envelope() -> Envelope {
    envelope(Event::Error { code: None, message: "test error".into() })
}

fn temp_envelope() -> Envelope {
    envelope(Event::TemperatureUpdate { temperatures: vec![] })
}

#[test]
fn low_error_count_no_detection() {
    let rule = ErrorFrequencyRule::new();
    let mut window: Vec<_> = (0..95).map(|_| temp_envelope()).collect();
    window.extend((0..3).map(|_| error_envelope()));
    assert!(rule.analyze(&window).is_empty());
}

#[test]
fn moderate_errors_triggers_warning() {
    let rule = ErrorFrequencyRule::new();
    let mut window: Vec<_> = (0..90).map(|_| temp_envelope()).collect();
    window.extend((0..8).map(|_| error_envelope()));
    let detections = rule.analyze(&window);
    assert_eq!(detections.len(), 1);
    assert!(detections[0].severity == Severity::Warning);
}

#[test]
fn many_errors_triggers_critical() {
    let rule = ErrorFrequencyRule::new();
    let mut window: Vec<_> = (0..80).map(|_| temp_envelope()).collect();
    window.extend((0..20).map(|_| error_envelope()));
    let detections = rule.analyze(&window);
    assert_eq!(detections.len(), 1);
    assert!(detections[0].severity == Severity::Critical);
}

// ── Failure pattern ────────────────────────────────────────────────

fn failed_envelope(reason: &str) -> Envelope {
    envelope(Event::PrintFailed { reason: Some(reason.into()) })
}

fn completed_envelope() -> Envelope {
    envelope(Event::PrintCompleted { total_time_ms: 100_000, filament_used_milli: None })
}

#[test]
fn single_failure_no_detection() {
    let rule = FailurePatternRule::new();
    let window = vec![failed_envelope("error")];
    assert!(rule.analyze(&window).is_empty());
}

#[test]
fn three_consecutive_failures_triggers_warning() {
    let rule = FailurePatternRule::new();
    let window = vec![failed_envelope("e1"), failed_envelope("e2"), failed_envelope("e3")];
    let detections = rule.analyze(&window);
    assert_eq!(detections.len(), 1);
    assert!(detections[0].severity == Severity::Warning);
}

#[test]
fn success_resets_count() {
    let rule = FailurePatternRule::new();
    let window = vec![failed_envelope("e1"), failed_envelope("e2"), completed_envelope(), failed_envelope("e3")];
    assert!(rule.analyze(&window).is_empty());
}

// ── Temperature stability ──────────────────────────────────────────

fn temp_reading_envelope(current_milli: i64, target_milli: i64) -> Envelope {
    envelope(Event::TemperatureUpdate { temperatures: vec![reading(current_milli, target_milli, 500)] })
}

#[test]
fn stable_temps_no_detection() {
    let rule = TemperatureStabilityRule::new();
    let window: Vec<_> = (0..20).map(|_| temp_reading_envelope(210_000, 210_000)).collect();
    assert!(rule.analyze(&window).is_empty());
}

#[test]
fn unstable_temps_triggers_detection() {
    let rule = TemperatureStabilityRule::new();
    let window: Vec<_> = (0..20).map(|_| temp_reading_envelope(215_000, 210_000)).collect();
    let detections = rule.analyze(&window);
    assert_eq!(detections.len(), 1);
    assert!(detections[0].category == AnomalyCategory::TemperatureInstability);
}

#[test]
fn too_few_samples_no_detection() {
    let rule = TemperatureStabilityRule::new();
    let window: Vec<_> = (0..5).map(|_| temp_reading_envelope(220_000, 210_000)).collect();
    assert!(rule.analyze(&window).is_empty());
}

#[test]
fn detection_engine_runs_every_rule_in_order() {
    let mut engine = DetectionEngine::new();
    let mut window: Vec<_> = (0..20).map(|_| temp_reading_envelope(220_000, 210_000)).collect();
    window.extend((0..3).map(|_| failed_envelope("jam")));
    let detections = engine.analyze_at(&window, now_ms());
    assert_eq!(detections.len(), 2);
    assert!(detections[0].category == AnomalyCategory::TemperatureInstability);
    assert!(detections[0].severity == Severity::Critical);
    assert!(detections[1].category == AnomalyCategory::RepeatedFailures);
}

// ── Analyzer engine ────────────────────────────────────────────────

fn envelope_for(printer: &str, timestamp: i64, event: Event) -> Envelope {
    Envelope { event_id: uuid::Uuid::now_v7().to_string(), printer_id: printer.into(), timestamp, payload: event }
}

#[test]
fn engine_reports_print_start_and_keeps_printers_apart() {
    let mut engine = AnalyzerEngine::new();
    let now = now_ms();
    let out = engine.process_at(
        envelope_for("a", now, Event::PrintStarted { filename: "x.gcode".into(), estimated_time_ms: None }),
        now,
    );
    assert_eq!(out.emissions.len(), 1);
    assert!(matches!(out.emissions[0], ObservationKind::PrintStarted { .. }));
    assert!(!out.snapshot_due);
    engine.process_at(envelope_for("b", now, Event::Connected), now);
    assert_eq!(engine.printer_count(), 2);
    assert_eq!(engine.event_count(), 2);
}

#[test]
fn engine_reports_detections_as_anomalies() {
    let mut engine = AnalyzerEngine::new();
    let now = now_ms();
    let mut last = Vec::new();
    for _ in 0..3 {
        let out = engine.process_at(envelope_for("a", now, Event::PrintFailed { reason: Some("jam".into()) }), now);
        last = out.emissions;
    }
    // The print summary, then the repeated-failure anomaly.
    assert_eq!(last.len(), 2);
    assert!(matches!(last[0], ObservationKind::PrintSummary { success: false, .. }));
    match &last[1] {
        ObservationKind::AnomalyDetected { category, severity, .. } => {
            assert!(*category == AnomalyCategory::RepeatedFailures);
            assert!(*severity == Severity::Warning);
        }
        _ => panic!("expected an anomaly"),
    }
}

#[test]
fn engine_asks_for_snapshots_every_hundred_events() {
    let mut engine = AnalyzerEngine::new();
    let now = now_ms();
    for i in 1..=200u64 {
        let out = engine.process_at(envelope_for("a", now, Event::PrinterReady), now);
        assert_eq!(out.snapshot_due, i % 100 == 0);
    }
}

#[test]
fn health_snapshots_summarize_each_printer() {
    let mut engine = AnalyzerEngine::new();
    engine.process_at(envelope_for("a", 1_000, Event::Connected), 1_000);
    engine.process_at(envelope_for("a", 2_000, Event::PrintCompleted { total_time_ms: 5, filament_used_milli: None }), 2_000);
    engine.process_at(envelope_for("a", 3_000, Event::PrintCompleted { total_time_ms: 5, filament_used_milli: None }), 3_000);
    engine.process_at(envelope_for("a", 4_000, Event::PrintFailed { reason: None }), 4_000);
    engine.process_at(envelope_for("b", 4_000, Event::Error { code: None, message: "x".into() }), 4_000);
    assert_eq!(engine.temperature_totals(), vec![(0, 0), (0, 0)]);
    let snaps = engine.health_snapshots(&[1000, 900], 61_000);
    assert_eq!(snaps.len(), 2);
    assert_eq!(snaps[0].0, "a");
    match &snaps[0].1 {
        ObservationKind::HealthSnapshot { temperature_stability_milli, success_rate_milli, uptime_ms, .. } => {
            assert_eq!(*temperature_stability_milli, 1000);
            assert_eq!(*success_rate_milli, Some(667));
            assert_eq!(*uptime_ms, 60_000);
        }
        _ => panic!("expected a snapshot"),
    }
    match &snaps[1].1 {
        ObservationKind::HealthSnapshot { success_rate_milli, recent_error_count, uptime_ms, .. } => {
            assert_eq!(*success_rate_milli, None);
            assert_eq!(*recent_error_count, 1);
            assert_eq!(*uptime_ms, 0);
        }
        _ => panic!("expected a snapshot"),
    }
}

#[test]
fn failure_evidence_quotes_the_last_reason() {
    let rule = FailurePatternRule::new();
    let window = vec![failed_envelope("e1"), failed_envelope("e2"), failed_envelope("e3")];
    let d = rule.analyze(&window);
    assert_eq!(d[0].message, "3 consecutive print failures detected");
    assert_eq!(d[0].evidence, vec!["consecutive_failures=3, last_reason=Some(\"e3\")".to_string()]);
    let critical: Vec<_> = (0..5).map(|_| envelope(Event::PrintFailed { reason: None })).collect();
    let d = rule.analyze(&critical);
    assert!(d[0].severity == Severity::Critical);
    assert_eq!(d[0].message, "5 consecutive print failures detected. Last reason: unknown");
    assert_eq!(d[0].evidence, vec!["consecutive_failures=5, last_reason=None".to_string()]);
}

#[test]
fn a_failed_print_without_a_reason_is_still_a_failure() {
    let mut tracker = PrintTracker::new();
    tracker.process(&envelope(Event::PrintStarted { filename: "a.gcode".into(), estimated_time_ms: None }));
    tracker.process(&envelope(Event::PrintFailed { reason: Some("clog".into()) }));
    tracker.process(&envelope(Event::PrintStarted { filename: "b.gcode".into(), estimated_time_ms: None }));
    let summary = tracker.process(&envelope(Event::PrintFailed { reason: None }));
    assert_eq!(tracker.consecutive_failures(), 2);
    match summary {
        Some(ObservationKind::PrintSummary { success, failure_reason, .. }) => {
            assert!(!success);
            assert_eq!(failure_reason, None);
        }
        _ => panic!("expected a print summary"),
    }
}

#[test]
fn the_sample_minimum_counts_temperature_updates_not_readings() {
    let rule = TemperatureStabilityRule::new();
    let two = |c: i64, t: i64| {
        envelope(Event::TemperatureUpdate { temperatures: vec![reading(c, t, 500), reading(c, t, 500)] })
    };
    let five: Vec<_> = (0..5).map(|_| two(220_000, 210_000)).collect();
    assert!(rule.analyze(&five).is_empty());
    let ten: Vec<_> = (0..10).map(|_| two(220_000, 210_000)).collect();
    let detections = rule.analyze(&ten);
    assert_eq!(detections.len(), 1);
    assert!(detections[0].severity == Severity::Critical);
}
