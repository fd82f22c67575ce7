//! What the learning layer finds in a printer's history: patterns,
//! trends, print comparisons, calibration summaries and component
//! health. Rates, scores and confidences are in thousandths, times in
//! milliseconds since the Unix epoch.

use vstd::prelude::*;
use vstd::string::*;

use crate::timeline::{ConfigAction, PrintAction, TimelineEvent, TimelineEventKind};

verus! {

/// Milliseconds in an hour.
pub const MS_PER_HOUR: i64 = 3_600_000;

/// Milliseconds in a day.
pub const MS_PER_DAY: i64 = 86_400_000;

/// What kind of pattern was found.
#[derive(PartialEq, Eq, Structural, Clone, Copy)]
pub enum PatternKind {
    RecurringFailure,
    ConfigRegression,
    CalibrationLoop,
    EventCluster,
}

/// A pattern found in the history.
pub struct LearnedPattern {
    pub description: String,
    pub kind: PatternKind,
    pub occurrences: u64,
    pub first_seen: i64,
    pub last_seen: i64,
    pub confidence_milli: i64,
    pub related_events: Vec<String>,
}

/// The mathematical content of a learned pattern.
pub struct LearnedPatternView {
    pub description: Seq<char>,
    pub kind: PatternKind,
    pub occurrences: u64,
    pub first_seen: i64,
    pub last_seen: i64,
    pub confidence_milli: i64,
    pub related_events: Seq<Seq<char>>,
}

impl View for LearnedPattern {
    type V = LearnedPatternView;

    open spec fn view(&self) -> LearnedPatternView {
        LearnedPatternView {
            description: self.description@,
            kind: self.kind,
            occurrences: self.occurrences,
            first_seen: self.first_seen,
            last_seen: self.last_seen,
            confidence_milli: self.confidence_milli,
            related_events: crate::observation::texts(self.related_events@),
        }
    }
}

/// The views of a sequence of patterns.
pub open spec fn learned_views(v: Seq<LearnedPattern>) -> Seq<LearnedPatternView> {
    v.map_values(|p: LearnedPattern| p@)
}

/// Which way a metric is moving.
#[derive(PartialEq, Eq, Structural, Clone, Copy)]
pub enum TrendDirection {
    Improving,
    Stable,
    Worsening,
}

/// A trend of one metric over a window.
pub struct TrendReport {
    pub metric: String,
    pub window_start: i64,
    pub window_end: i64,
    pub sample_count: u64,
    pub average_milli: i64,
    pub min_milli: i64,
    pub max_milli: i64,
    pub direction: TrendDirection,
    pub change_rate_milli: i64,
}

/// Print counts over a period.
#[derive(Clone, Copy)]
pub struct TimeWindow {
    pub start: i64,
    pub end: i64,
    pub total_prints: u64,
    pub successful_prints: u64,
    pub failed_prints: u64,
}

/// Earlier prints compared with later ones.
pub struct PrintComparison {
    pub before_period: TimeWindow,
    pub after_period: TimeWindow,
    pub success_rate_change_milli: i64,
    pub avg_duration_change_ms: i64,
    pub failure_count_before: u64,
    pub failure_count_after: u64,
    pub significant_changes: Vec<String>,
}

/// Success over one window of days.
pub struct SuccessWindow {
    pub window_days: i64,
    pub total_prints: u64,
    pub success_rate_milli: i64,
    pub failure_rate_milli: i64,
    pub most_common_failure: Option<String>,
}

/// The calibration history of a printer.
pub struct CalibrationSummary {
    pub total_calibrations: u64,
    pub by_type: Vec<(String, u64)>,
    pub avg_interval_days_milli: Option<i64>,
    pub most_frequent: Option<String>,
    pub last_calibration: Option<i64>,
    pub overdue: Vec<String>,
}

/// An estimate of a component's wear.
pub struct AgingReport {
    pub component_id: String,
    pub component_type: String,
    pub installed: Option<i64>,
    pub age_days: Option<i64>,
    pub estimated_remaining_days: Option<i64>,
    pub estimation_basis: String,
    pub wear_indicators: Vec<String>,
}

/// Everything learned from a history.
pub struct BehaviorSummary {
    pub patterns: Vec<LearnedPattern>,
    pub trends: Vec<TrendReport>,
    pub print_comparison: Option<PrintComparison>,
    pub calibration: Option<CalibrationSummary>,
    pub aging: Vec<AgingReport>,
    pub component_health: Vec<ComponentHealth>,
    pub generated_at: i64,
    pub events_analyzed: u64,
    pub patterns_found: u64,
}

impl BehaviorSummary {
    /// An empty summary of `events_analyzed` events, stamped now.
    pub fn new(events_analyzed: u64) -> (s: Self)
        ensures
            s.patterns@.len() == 0,
            s.trends@.len() == 0,
            s.print_comparison is None,
            s.calibration is None,
            s.aging@.len() == 0,
            s.component_health@.len() == 0,
            s.events_analyzed == events_analyzed,
            s.patterns_found == 0,
    {
        BehaviorSummary {
            patterns: Vec::new(),
            trends: Vec::new(),
            print_comparison: None,
            calibration: None,
            aging: Vec::new(),
            component_health: Vec::new(),
            generated_at: crate::clock::now_millis(),
            events_analyzed,
            patterns_found: 0,
        }
    }
}

/// How serious a component warning is.
#[derive(PartialEq, Eq, Structural, Clone, Copy)]
pub enum WarningSeverity {
    Early,
    Moderate,
    Critical,
}

/// A warning about one component.
pub struct ComponentWarning {
    pub severity: WarningSeverity,
    pub message: String,
    pub detected_at: i64,
    pub evidence: String,
}

/// How healthy one component is.
pub struct ComponentHealth {
    pub component_id: String,
    pub component_type: String,
    pub health_score_milli: i64,
    pub warnings: Vec<ComponentWarning>,
    pub degradation_rate_milli: i64,
    pub anomaly_count: u64,
    pub assessed_at: i64,
}

// ---------------------------------------------------------------------
// Classifications of timeline events shared by the analyzers.

/// Whether an event is a print-history record.
pub open spec fn is_print(e: TimelineEvent) -> bool {
    e.kind is PrintHistory
}

/// Whether a print-history record is a success.
pub open spec fn is_success(e: TimelineEvent) -> bool {
    e.kind matches TimelineEventKind::PrintHistory(p) && (p.action == PrintAction::Completed || p.action
        == PrintAction::FirstSuccessful)
}

/// Whether a configuration action is a calibration.
pub open spec fn is_calibration_action(a: ConfigAction) -> bool {
    a == ConfigAction::PidTuned || a == ConfigAction::InputShaperCalibrated || a == ConfigAction::BedMeshGenerated
        || a == ConfigAction::ProbeCalibrated || a == ConfigAction::PressureAdvanceTuned
}

/// Whether an event is a calibration.
pub open spec fn is_calibration(e: TimelineEvent) -> bool {
    e.kind matches TimelineEventKind::Configuration(c) && is_calibration_action(c.action)
}

/// The name that `{:?}` gives a configuration action.
pub open spec fn action_name(a: ConfigAction) -> Seq<char> {
    match a {
        ConfigAction::Changed => "Changed"@,
        ConfigAction::Reloaded => "Reloaded"@,
        ConfigAction::PidTuned => "PidTuned"@,
        ConfigAction::InputShaperCalibrated => "InputShaperCalibrated"@,
        ConfigAction::BedMeshGenerated => "BedMeshGenerated"@,
        ConfigAction::ProbeCalibrated => "ProbeCalibrated"@,
        ConfigAction::PressureAdvanceTuned => "PressureAdvanceTuned"@,
    }
}

/// Renders a configuration action's name.
pub fn action_name_text(a: ConfigAction) -> (s: String)
    ensures
        s@ == action_name(a),
{
    let t = match a {
        ConfigAction::Changed => "Changed",
        ConfigAction::Reloaded => "Reloaded",
        ConfigAction::PidTuned => "PidTuned",
        ConfigAction::InputShaperCalibrated => "InputShaperCalibrated",
        ConfigAction::BedMeshGenerated => "BedMeshGenerated",
        ConfigAction::ProbeCalibrated => "ProbeCalibrated",
        ConfigAction::PressureAdvanceTuned => "PressureAdvanceTuned",
    };
    String::from_str(t)
}

/// Whether an event is a print success (exec).
pub fn event_is_success(e: &TimelineEvent) -> (b: bool)
    ensures
        b == is_success(*e),
{
    match &e.kind {
        TimelineEventKind::PrintHistory(p) => match p.action {
            PrintAction::Completed | PrintAction::FirstSuccessful => true,
            _ => false,
        },
        _ => false,
    }
}

/// Whether an event is a calibration (exec).
pub fn event_is_calibration(e: &TimelineEvent) -> (b: bool)
    ensures
        b == is_calibration(*e),
{
    match &e.kind {
        TimelineEventKind::Configuration(c) => match c.action {
            ConfigAction::PidTuned | ConfigAction::InputShaperCalibrated | ConfigAction::BedMeshGenerated
            | ConfigAction::ProbeCalibrated | ConfigAction::PressureAdvanceTuned => true,
            _ => false,
        },
        _ => false,
    }
}

} // verus!
