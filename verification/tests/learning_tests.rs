use layermind::behavior::LearningEngine;
use layermind::calibration::CalibrationTracker;
use layermind::learning::{
    AgingReport, BehaviorSummary, CalibrationSummary, ComponentHealth, ComponentWarning, LearnedPattern,
    PatternKind, TrendDirection, TrendReport, WarningSeverity,
};
use layermind::machine::{CapabilitySet, MachineHardware, MachineIdentity, MachineProfile, MachineType};
use layermind::optimization::{OptimizationEngine, PlanUrgency, RiskLevel, TuningCategory};
use layermind::patterns::PatternDetector;
use layermind::prediction::{CRITICAL_HEALTH_MILLI, DECAY_PER_CHANGE_MILLI, FailurePredictor};
use layermind::prints::PrintAnalyzer;
use layermind::timeline::{
    AnomalyEvent, AnomalySeverity, ConfigAction, ConfigurationEvent, HardwareAction, HardwareEvent,
    MaintenanceAction, MaintenanceEvent, PrintAction, PrintHistoryEvent, TimelineEvent, TimelineEventKind,
    TimelineEventSource,
};
use layermind::trends::TrendAnalyzer;

const MINUTE_MS: i64 = 60_000;
const HOUR_MS: i64 = 3_600_000;
const DAY_MS: i64 = 86_400_000;

fn now_ms() -> i64 {
    chrono::Utc::now().timestamp_millis()
}

fn timeline_event(id: String, ts: i64, kind: TimelineEventKind, confidence_milli: i64) -> TimelineEvent {
    TimelineEvent {
        id,
        printer_id: "p1".into(),
        timestamp: ts,
        kind,
        source: TimelineEventSource::Automatic,
        confidence_milli,
        metadata: "{}".into(),
    }
}

fn fresh_id() -> String {
    uuid::Uuid::new_v4().to_string()
}

fn anomaly_kind(anomaly_type: &str, desc: &str, severity: AnomalySeverity) -> TimelineEventKind {
    TimelineEventKind::Anomaly(AnomalyEvent {
        severity,
        anomaly_type: anomaly_type.into(),
        description: desc.into(),
        print_job_id: None,
    })
}

// ── Calibration ────────────────────────────────────────────────────

fn cal_event(ts: i64, action: ConfigAction) -> TimelineEvent {
    timeline_event(
        fresh_id(),
        ts,
        TimelineEventKind::Configuration(ConfigurationEvent {
            action,
            config_key: "test".into(),
            previous_value: None,
            new_value: None,
        }),
        1000,
    )
}

#[test]
fn no_calibrations_returns_none() {
    assert!(CalibrationTracker::summarize(&[]).is_none());
}

#[test]
fn summarizes_multiple_calibrations() {
    let now = now_ms();
    let events = vec![
        cal_event(now - 30 * DAY_MS, ConfigAction::PidTuned),
        cal_event(now - 20 * DAY_MS, ConfigAction::BedMeshGenerated),
        cal_event(now - 10 * DAY_MS, ConfigAction::PidTuned),
        cal_event(now - 5 * DAY_MS, ConfigAction::InputShaperCalibrated),
    ];
    let summary = CalibrationTracker::summarize(&events);
    assert!(summary.is_some());
    let s = summary.unwrap();
    assert_eq!(s.total_calibrations, 4);
    assert!(s.by_type.len() > 1);
    assert!(s.most_frequent.is_some());
}

#[test]
fn calibration_summary_at_a_fixed_time() {
    let events = vec![
        cal_event(0, ConfigAction::PidTuned),
        cal_event(10 * DAY_MS, ConfigAction::PidTuned),
        cal_event(20 * DAY_MS, ConfigAction::BedMeshGenerated),
    ];
    let s = CalibrationTracker::summarize_at(&events, 21 * DAY_MS).unwrap();
    assert_eq!(s.total_calibrations, 3);
    assert_eq!(s.most_frequent.as_deref(), Some("PidTuned"));
    assert_eq!(s.last_calibration, Some(20 * DAY_MS));
    // Two intervals of ten days each.
    assert_eq!(s.avg_interval_days_milli, Some(10_000));
}

#[test]
fn last_of_type_finds_most_recent() {
    let now = now_ms();
    let events = vec![
        cal_event(now - 10 * DAY_MS, ConfigAction::PidTuned),
        cal_event(now - 2 * DAY_MS, ConfigAction::PidTuned),
    ];
    let last = CalibrationTracker::last_of_type(&events, ConfigAction::PidTuned);
    assert!(last.is_some());
    assert!(last.unwrap().timestamp > now - 5 * DAY_MS);
    assert!(CalibrationTracker::last_of_type(&events, ConfigAction::BedMeshGenerated).is_none());
}

// ── Patterns ───────────────────────────────────────────────────────

fn hw_event(ts: i64, comp: &str) -> TimelineEvent {
    timeline_event(
        fresh_id(),
        ts,
        TimelineEventKind::Hardware(HardwareEvent {
            action: HardwareAction::Replaced,
            component_id: comp.into(),
            component_type: "test".into(),
            previous_value: None,
            new_value: None,
        }),
        1000,
    )
}

fn anomaly_event(ts: i64, desc: &str) -> TimelineEvent {
    timeline_event(fresh_id(), ts, anomaly_kind("thermal", desc, AnomalySeverity::Warning), 900)
}

#[test]
fn detects_recurring_failure_patterns() {
    let now = now_ms();
    let events: Vec<_> = (0..4).map(|i| anomaly_event(now + i * HOUR_MS, "overheat")).collect();
    let patterns = PatternDetector::detect(&events);
    assert!(patterns.iter().any(|p| matches!(p.kind, PatternKind::RecurringFailure)));
    let p = patterns.iter().find(|p| matches!(p.kind, PatternKind::RecurringFailure)).unwrap();
    assert_eq!(p.description, "Recurring failure: overheat");
    assert_eq!(p.occurrences, 4);
    assert_eq!(p.confidence_milli, 400);
    assert_eq!(p.first_seen, now);
    assert_eq!(p.last_seen, now + 3 * HOUR_MS);
}

#[test]
fn ignores_rare_failures() {
    let now = now_ms();
    let events = vec![anomaly_event(now, "once")];
    let patterns = PatternDetector::detect(&events);
    assert!(patterns.is_empty());
}

#[test]
fn detects_event_clusters() {
    let now = now_ms();
    let events: Vec<_> = (0..4).map(|i| hw_event(now + i * 2 * MINUTE_MS, &format!("comp_{i}"))).collect();
    let patterns = PatternDetector::detect(&events);
    assert!(patterns.iter().any(|p| matches!(p.kind, PatternKind::EventCluster)));
}

#[test]
fn config_change_followed_by_failures_is_a_regression() {
    let events = vec![
        cal_event(0, ConfigAction::Reloaded),
        anomaly_event(DAY_MS, "a"),
        anomaly_event(2 * DAY_MS, "b"),
    ];
    let patterns = PatternDetector::detect(&events);
    let r = patterns.iter().find(|p| matches!(p.kind, PatternKind::ConfigRegression)).unwrap();
    assert_eq!(r.description, "Config change followed by failures");
    assert_eq!(r.confidence_milli, 700);
}

#[test]
fn repeated_calibration_within_a_day_is_a_loop() {
    let events = vec![
        cal_event(0, ConfigAction::PidTuned),
        cal_event(HOUR_MS, ConfigAction::PidTuned),
        cal_event(2 * HOUR_MS, ConfigAction::PidTuned),
    ];
    let patterns = PatternDetector::detect(&events);
    let l = patterns.iter().find(|p| matches!(p.kind, PatternKind::CalibrationLoop)).unwrap();
    assert_eq!(l.description, "Calibration loop: PidTuned");
    assert_eq!(l.occurrences, 3);
}

#[test]
fn calibrations_spread_over_thirty_hours_are_no_loop() {
    let events = vec![
        cal_event(0, ConfigAction::PidTuned),
        cal_event(15 * HOUR_MS, ConfigAction::PidTuned),
        cal_event(30 * HOUR_MS, ConfigAction::PidTuned),
    ];
    let patterns = PatternDetector::detect(&events);
    assert!(!patterns.iter().any(|p| matches!(p.kind, PatternKind::CalibrationLoop)));
}

#[test]
fn three_events_two_minutes_apart_form_one_cluster() {
    let t = 1_000_000_000;
    let events: Vec<_> = (0..3).map(|i| hw_event(t + i * 2 * MINUTE_MS, &format!("c{i}"))).collect();
    let patterns = PatternDetector::detect(&events);
    let clusters: Vec<_> = patterns.iter().filter(|p| matches!(p.kind, PatternKind::EventCluster)).collect();
    assert_eq!(clusters.len(), 1);
    assert_eq!(clusters[0].occurrences, 3);
    assert_eq!(clusters[0].first_seen, t);
    assert_eq!(clusters[0].last_seen, t + 4 * MINUTE_MS);
    assert_eq!(clusters[0].related_events, vec![events[0].id.clone(), events[1].id.clone(), events[2].id.clone()]);
}

#[test]
fn regression_window_is_the_five_events_after_the_change() {
    let t = 1_000_000_000;
    let events = vec![
        cal_event(t, ConfigAction::Reloaded),
        hw_event(t + HOUR_MS, "h1"),
        hw_event(t + 2 * HOUR_MS, "h2"),
        hw_event(t + 3 * HOUR_MS, "h3"),
        anomaly_event(t + 4 * HOUR_MS, "a1"),
        anomaly_event(t + 5 * HOUR_MS, "a2"),
    ];
    let patterns = PatternDetector::detect(&events);
    let r: Vec<_> = patterns.iter().filter(|p| matches!(p.kind, PatternKind::ConfigRegression)).collect();
    assert_eq!(r.len(), 1);
    assert_eq!(r[0].related_events, vec![events[0].id.clone()]);
}

// ── Learning engine ────────────────────────────────────────────────

#[test]
fn empty_events_produces_empty_summary() {
    let summary = LearningEngine::analyze(&[]);
    assert_eq!(summary.events_analyzed, 0);
    assert!(summary.patterns.is_empty());
    assert!(summary.trends.is_empty());
}

#[test]
fn detects_recurring_anomalies() {
    let events: Vec<_> = (0..5)
        .map(|_| timeline_event(fresh_id(), now_ms(), anomaly_kind("test", "thermal warning", AnomalySeverity::Warning), 900))
        .collect();
    let summary = LearningEngine::analyze(&events);
    assert!(summary.patterns_found > 0);
    assert_eq!(summary.events_analyzed, 5);
}

// ── Prints ─────────────────────────────────────────────────────────

fn print_event(ts: i64, success: bool) -> TimelineEvent {
    timeline_event(
        fresh_id(),
        ts,
        TimelineEventKind::PrintHistory(PrintHistoryEvent {
            action: if success { PrintAction::Completed } else { PrintAction::Failed },
            print_job_id: None,
            filename: None,
            duration_ms: None,
            failure_reason: None,
        }),
        1000,
    )
}

#[test]
fn compare_recent_requires_enough_data() {
    assert!(PrintAnalyzer::compare_recent(&[]).is_none());
    let now = now_ms();
    let few: Vec<_> = (0..3).map(|i| print_event(now - i * HOUR_MS, i % 2 == 0)).collect();
    assert!(PrintAnalyzer::compare_recent(&few).is_none());
}

#[test]
fn compare_recent_detects_success_change() {
    let now = now_ms();
    let mut events: Vec<_> = (0..5).map(|i| print_event(now - i * HOUR_MS, false)).collect();
    events.extend((5..10).map(|i| print_event(now - i * HOUR_MS, true)));
    let comp = PrintAnalyzer::compare_recent(&events);
    assert!(comp.is_some());
}

#[test]
fn success_windows_partitions_by_time() {
    let now = now_ms();
    let events: Vec<_> = (0..20).map(|i| print_event(now - i * DAY_MS, i % 3 != 0)).collect();
    let windows = PrintAnalyzer::success_windows(&events, 7);
    assert!(!windows.is_empty());
    assert!(windows.iter().all(|w| w.window_days == 7));
}

// ── Trends ─────────────────────────────────────────────────────────

#[test]
fn empty_events_no_trends() {
    let trends = TrendAnalyzer::analyze(&[]);
    assert!(trends.is_empty());
}

#[test]
fn failure_trend_with_enough_data() {
    let now = now_ms();
    let events: Vec<_> = (0..10)
        .map(|i| timeline_event(fresh_id(), now - i * HOUR_MS, anomaly_kind("test", "test", AnomalySeverity::Warning), 900))
        .collect();
    let trends = TrendAnalyzer::analyze(&events);
    assert!(!trends.is_empty());
    assert_eq!(trends[0].metric, "failure_rate");
    assert_eq!(trends[0].sample_count, 10);
}

// ── Prediction ─────────────────────────────────────────────────────

fn predicted_anomaly(id: String, ts: i64, desc: &str, atype: &str, severity: AnomalySeverity) -> TimelineEvent {
    timeline_event(id, ts, anomaly_kind(atype, desc, severity), 900)
}

fn trend(metric: &str, days: i64, samples: u64, avg: i64, min: i64, max: i64, dir: TrendDirection, change: i64) -> TrendReport {
    let now = now_ms();
    TrendReport {
        metric: metric.into(),
        window_start: now - days * DAY_MS,
        window_end: now,
        sample_count: samples,
        average_milli: avg,
        min_milli: min,
        max_milli: max,
        direction: dir,
        change_rate_milli: change,
    }
}

#[test]
fn empty_events_no_predictions() {
    let summary = BehaviorSummary::new(0);
    assert!(FailurePredictor::predict(&[], &summary).is_empty());
}

#[test]
fn thermal_above_threshold_emits_prediction() {
    let events: Vec<_> = (0..20)
        .map(|_| predicted_anomaly(fresh_id(), now_ms(), "thermal runaway", "thermal", AnomalySeverity::Warning))
        .collect();
    let mut summary = BehaviorSummary::new(events.len() as u64);
    summary.trends = vec![trend("anomaly_frequency", 5, 20, 4000, 0, 5000, TrendDirection::Stable, 0)];
    let predictions = FailurePredictor::predict(&events, &summary);
    let thermal = predictions.iter().find(|r| r.component_type == "thermal");
    assert!(thermal.is_some());
    let t = thermal.unwrap();
    assert_eq!(t.estimation_basis, "anomaly_frequency_analysis");
    assert!(!t.wear_indicators.is_empty());
}

#[test]
fn mechanical_worsening_emits_prediction() {
    let now = now_ms();
    let events: Vec<_> = (0..15)
        .map(|i| predicted_anomaly(fresh_id(), now - i * HOUR_MS, "belt slip", "mechanical", AnomalySeverity::Warning))
        .collect();
    let mut summary = BehaviorSummary::new(events.len() as u64);
    summary.trends = vec![trend("failure_rate", 10, 15, 1500, 500, 3000, TrendDirection::Worsening, 2000)];
    let predictions = FailurePredictor::predict(&events, &summary);
    assert!(predictions.iter().any(|r| r.component_type == "mechanical"));
}

#[test]
fn comms_cluster_emits_prediction() {
    let now = now_ms();
    let mut events: Vec<_> = (0..5)
        .map(|i| predicted_anomaly(format!("comms_{}", i), now - i * HOUR_MS, "comms failure", "communication", AnomalySeverity::Error))
        .collect();
    for i in 0..10 {
        events.push(predicted_anomaly(fresh_id(), now_ms(), &format!("filler_{}", i), "test", AnomalySeverity::Warning));
    }
    let predictions = FailurePredictor::predict(&events, &BehaviorSummary::new(0));
    assert!(predictions.iter().any(|r| r.component_type == "communication"));
}

#[test]
fn component_health_starts_at_one() {
    let summary = BehaviorSummary::new(0);
    let hw_events = vec![timeline_event(
        "e1".into(),
        now_ms(),
        TimelineEventKind::Hardware(HardwareEvent {
            action: HardwareAction::Installed,
            component_id: "probe_0".into(),
            component_type: "probe".into(),
            previous_value: None,
            new_value: Some("BLTouch".into()),
        }),
        1000,
    )];
    let healths = FailurePredictor::component_health(&hw_events, &summary);
    assert!(!healths.is_empty());
    let probe = healths.iter().find(|h| h.component_id == "probe_0");
    assert!(probe.is_some());
    assert_eq!(probe.unwrap().health_score_milli, 1000 - DECAY_PER_CHANGE_MILLI);
}

#[test]
fn health_below_critical_generates_warning() {
    let now = now_ms();
    let events: Vec<_> = (0..6)
        .map(|i| {
            timeline_event(
                format!("e{}", i),
                now - i * HOUR_MS,
                TimelineEventKind::Maintenance(MaintenanceEvent {
                    action: MaintenanceAction::Inspected,
                    component: "probe_0".into(),
                    notes: None,
                    scheduled: false,
                }),
                1000,
            )
        })
        .collect();
    let healths = FailurePredictor::component_health(&events, &BehaviorSummary::new(0));
    let probe = healths.iter().find(|h| h.component_id == "probe_0").unwrap();
    assert!(probe.health_score_milli < CRITICAL_HEALTH_MILLI);
    assert!(probe.warnings.iter().any(|w| w.severity == WarningSeverity::Critical));
}

// ── Optimization ───────────────────────────────────────────────────

fn test_machine() -> MachineProfile {
    let now = now_ms();
    MachineProfile {
        identity: MachineIdentity {
            printer_id: "p1".into(),
            nickname: None,
            manufacturer: None,
            model: None,
            custom_build: false,
            machine_type: MachineType::Cartesian,
            serial_number: None,
            firmware: None,
            discovered_at: now,
            updated_at: now,
        },
        hardware: MachineHardware { extruders: vec![], hotends: vec![], probes: vec![], accelerometers: vec![] },
        capabilities: CapabilitySet::empty(),
        generated_at: now,
    }
}

fn pa_capable_machine() -> MachineProfile {
    let mut m = test_machine();
    m.capabilities.supports_pressure_advance = true;
    m.capabilities.supports_input_shaping = true;
    m.capabilities.maximum_temperature_milli = 300_000;
    m
}

fn warning_for(score_milli: i64) -> WarningSeverity {
    if score_milli < 300 {
        WarningSeverity::Critical
    } else if score_milli < 600 {
        WarningSeverity::Moderate
    } else {
        WarningSeverity::Early
    }
}

fn unhealthy_summary(component_type: &str, score_milli: i64) -> BehaviorSummary {
    let mut s = BehaviorSummary::new(50);
    s.component_health = vec![ComponentHealth {
        component_id: format!("{}_0", component_type),
        component_type: component_type.into(),
        health_score_milli: score_milli,
        warnings: vec![ComponentWarning {
            severity: warning_for(score_milli),
            message: format!("{} degraded", component_type),
            detected_at: now_ms(),
            evidence: "test".into(),
        }],
        degradation_rate_milli: 100,
        anomaly_count: 5,
        assessed_at: now_ms(),
    }];
    s
}

fn calibration(total: u64, avg_days: i64, last_days_ago: i64, overdue: Vec<String>) -> CalibrationSummary {
    CalibrationSummary {
        total_calibrations: total,
        by_type: vec![],
        avg_interval_days_milli: Some(avg_days * 1000),
        most_frequent: None,
        last_calibration: Some(now_ms() - last_days_ago * DAY_MS),
        overdue,
    }
}

#[test]
fn empty_summary_produces_empty_report() {
    let report = OptimizationEngine::analyze(&BehaviorSummary::new(0), None);
    assert_eq!(report.total_suggestions, 0);
    assert!(report.suggestions.is_empty());
    assert!(report.maintenance_actions.is_empty());
    assert!(report.calibration_plan.is_none());
}

#[test]
fn no_machine_only_maintenance_and_calibration() {
    let summary = unhealthy_summary("probe", 500);
    let report = OptimizationEngine::analyze(&summary, None);
    assert!(!report.maintenance_actions.is_empty());
    assert!(report.suggestions.iter().any(|s| matches!(s.category, TuningCategory::BedMesh)));
}

#[test]
fn bed_mesh_suggestion_from_overdue() {
    let mut summary = unhealthy_summary("probe", 500);
    summary.calibration = Some(calibration(10, 7, 30, vec!["BedMeshGenerated".into()]));
    let report = OptimizationEngine::analyze(&summary, None);
    assert!(report.suggestions.iter().any(|s| matches!(s.category, TuningCategory::BedMesh)));
}

#[test]
fn pa_capable_with_degradation_suggests_retune() {
    let machine = pa_capable_machine();
    let mut summary = unhealthy_summary("probe", 500);
    summary.patterns = vec![LearnedPattern {
        description: "CalibrationLoop: PressureAdvanceTuned".into(),
        kind: PatternKind::CalibrationLoop,
        occurrences: 4,
        first_seen: now_ms() - 2 * DAY_MS,
        last_seen: now_ms(),
        confidence_milli: 800,
        related_events: vec![],
    }];
    let report = OptimizationEngine::analyze(&summary, Some(&machine));
    let pa = report.suggestions.iter().find(|s| matches!(s.category, TuningCategory::PressureAdvance));
    assert!(pa.is_some());
    assert!(pa.unwrap().risk == RiskLevel::Low);
}

#[test]
fn input_shaping_recalibrate_when_old() {
    let machine = pa_capable_machine();
    let mut summary = unhealthy_summary("accelerometer", 500);
    summary.calibration = Some(calibration(5, 30, 60, vec![]));
    let report = OptimizationEngine::analyze(&summary, Some(&machine));
    assert!(report.suggestions.iter().any(|s| matches!(s.category, TuningCategory::InputShaping)));
}

#[test]
fn pid_tune_with_thermal_degradation() {
    let machine = pa_capable_machine();
    let mut summary = unhealthy_summary("hotend", 400);
    summary.aging = vec![AgingReport {
        component_id: "thermal_pred".into(),
        component_type: "thermal".into(),
        installed: None,
        age_days: None,
        estimated_remaining_days: None,
        estimation_basis: "anomaly_frequency_analysis".into(),
        wear_indicators: vec!["thermal frequency exceeds 2.0/day".into()],
    }];
    let report = OptimizationEngine::analyze(&summary, Some(&machine));
    let pid = report.suggestions.iter().find(|s| matches!(s.category, TuningCategory::PidTune));
    assert!(pid.is_some());
    assert!(pid.unwrap().risk == RiskLevel::Medium);
}

#[test]
fn full_calibration_when_many_unhealthy() {
    let mut summary = BehaviorSummary::new(100);
    summary.trends = vec![trend("print_success_rate", 14, 50, 700, 600, 800, TrendDirection::Worsening, -150)];
    summary.component_health = (0..4)
        .map(|i| {
            let score = if i == 0 { 200 } else { 400 };
            ComponentHealth {
                component_id: format!("comp_{}", i),
                component_type: format!("comp_{}", i),
                health_score_milli: score,
                warnings: vec![ComponentWarning {
                    severity: warning_for(score),
                    message: "degraded".into(),
                    detected_at: now_ms(),
                    evidence: "test".into(),
                }],
                degradation_rate_milli: 100,
                anomaly_count: 5,
                assessed_at: now_ms(),
            }
        })
        .collect();
    summary.calibration = Some(calibration(5, 14, 30, vec![]));
    let report = OptimizationEngine::analyze(&summary, None);
    assert!(report.calibration_plan.is_some());
    let plan = report.calibration_plan.as_ref().unwrap();
    assert!(matches!(plan.urgency, PlanUrgency::Urgent));
    assert!(plan.steps.len() >= 2);
}

#[test]
fn maintenance_actions_from_warnings() {
    let summary = unhealthy_summary("probe", 500);
    let report = OptimizationEngine::analyze(&summary, None);
    assert!(!report.maintenance_actions.is_empty());
    assert!(report.maintenance_actions[0].category == TuningCategory::Maintenance);
}

#[test]
fn risk_scales_with_health() {
    assert!(OptimizationEngine::risk_for_health(100) == RiskLevel::High);
    assert!(OptimizationEngine::risk_for_health(400) == RiskLevel::Medium);
    assert!(OptimizationEngine::risk_for_health(800) == RiskLevel::Low);
}

#[test]
fn a_zero_day_window_over_no_prints_is_empty() {
    assert!(PrintAnalyzer::success_windows(&[], 0).is_empty());
}

#[test]
fn equally_frequent_calibrations_keep_the_kind_order() {
    let events = vec![
        cal_event(1_000, ConfigAction::BedMeshGenerated),
        cal_event(2_000, ConfigAction::PidTuned),
    ];
    let s = CalibrationTracker::summarize(&events).unwrap();
    let names: Vec<&str> = s.by_type.iter().map(|(n, _)| n.as_str()).collect();
    assert_eq!(names, vec!["PidTuned", "BedMeshGenerated"]);
    assert_eq!(s.most_frequent.as_deref(), Some("PidTuned"));
}

#[test]
fn success_windows_count_every_print_once() {
    let base = 1_000_000_000_000i64;
    let events: Vec<_> = (0..20).map(|i| print_event(base + i * DAY_MS + i * 3_600_000, i % 3 != 0)).collect();
    for w in [1i64, 3, 7, 30] {
        let windows = PrintAnalyzer::success_windows(&events, w);
        let total: u64 = windows.iter().map(|x| x.total_prints).sum();
        assert_eq!(total, 20);
    }
}

#[test]
fn summaries_of_the_same_history_at_the_same_time_agree() {
    let t = 100 * DAY_MS;
    let events = vec![
        cal_event(t - 10 * DAY_MS, ConfigAction::PidTuned),
        cal_event(t - 5 * DAY_MS, ConfigAction::BedMeshGenerated),
    ];
    let a = CalibrationTracker::summarize_at(&events, t).unwrap();
    let b = CalibrationTracker::summarize_at(&events, t).unwrap();
    assert_eq!(a.by_type, b.by_type);
    assert_eq!(a.most_frequent, b.most_frequent);
    assert_eq!(a.overdue, b.overdue);
    assert_eq!(a.by_type, vec![("PidTuned".to_string(), 1), ("BedMeshGenerated".to_string(), 1)]);
}

#[test]
fn success_window_rates_stay_within_a_thousand() {
    let base = 1_000_000_000_000i64;
    let events: Vec<_> = (0..9).map(|i| print_event(base + i * DAY_MS, i % 3 == 0)).collect();
    for w in PrintAnalyzer::success_windows(&events, 3) {
        assert!(w.total_prints >= 1);
        assert_eq!(w.window_days, 3);
        assert!((0..=1000).contains(&w.success_rate_milli));
        assert!((999..=1001).contains(&(w.success_rate_milli + w.failure_rate_milli)));
    }
}
