//! Observations: the analyzer's structured findings about a printer.

use vstd::prelude::*;

verus! {

/// How serious a finding is.
#[derive(PartialEq, Eq, Structural, Clone, Copy)]
pub enum Severity {
    Info,
    Warning,
    Critical,
}

/// The kind of anomaly that a detection rule found.
#[derive(PartialEq, Eq, Structural, Clone, Copy)]
pub enum AnomalyCategory {
    TemperatureInstability,
    ExcessiveErrors,
    RepeatedFailures,
    CalibrationOverdue,
}

/// A finding of a detection rule.
pub struct Detection {
    pub category: AnomalyCategory,
    pub severity: Severity,
    pub message: String,
    pub evidence: Vec<String>,
}

/// The mathematical content of a [`Detection`].
pub struct DetectionView {
    pub category: AnomalyCategory,
    pub severity: Severity,
    pub message: Seq<char>,
    pub evidence: Seq<Seq<char>>,
}

/// The views of a sequence of strings.
pub open spec fn texts(v: Seq<String>) -> Seq<Seq<char>> {
    v.map_values(|s: String| s@)
}

impl View for Detection {
    type V = DetectionView;

    open spec fn view(&self) -> DetectionView {
        DetectionView {
            category: self.category,
            severity: self.severity,
            message: self.message@,
            evidence: texts(self.evidence@),
        }
    }
}

/// The views of a sequence of detections.
pub open spec fn detection_views(v: Seq<Detection>) -> Seq<DetectionView> {
    v.map_values(|d: Detection| d@)
}


/// A structured finding about a printer.
///
/// Durations are in milliseconds, filament in thousandths of a
/// millimetre, scores and rates in thousandths.
pub enum ObservationKind {
    PrintStarted { filename: String },
    PrintCompleted { filename: String, duration_ms: i64, success: bool },
    PrintFailed { filename: String, duration_ms: i64, reason: Option<String> },
    PrintSummary {
        filename: String,
        success: bool,
        duration_ms: i64,
        filament_used_milli: Option<i64>,
        total_layers: Option<u32>,
        failure_reason: Option<String>,
        highlights: Vec<String>,
    },
    AnomalyDetected {
        category: AnomalyCategory,
        severity: Severity,
        message: String,
        evidence: Vec<String>,
    },
    HealthSnapshot {
        temperature_stability_milli: i64,
        success_rate_milli: Option<i64>,
        recent_error_count: u64,
        recent_warning_count: u64,
        seconds_since_calibration: Option<i64>,
        uptime_ms: i64,
    },
}

/// The mathematical content of an [`ObservationKind`].
pub enum ObservationKindView {
    PrintStarted { filename: Seq<char> },
    PrintCompleted { filename: Seq<char>, duration_ms: i64, success: bool },
    PrintFailed { filename: Seq<char>, duration_ms: i64, reason: Option<Seq<char>> },
    PrintSummary {
        filename: Seq<char>,
        success: bool,
        duration_ms: i64,
        filament_used_milli: Option<i64>,
        total_layers: Option<u32>,
        failure_reason: Option<Seq<char>>,
        highlights: Seq<Seq<char>>,
    },
    AnomalyDetected {
        category: AnomalyCategory,
        severity: Severity,
        message: Seq<char>,
        evidence: Seq<Seq<char>>,
    },
    HealthSnapshot {
        temperature_stability_milli: i64,
        success_rate_milli: Option<i64>,
        recent_error_count: u64,
        recent_warning_count: u64,
        seconds_since_calibration: Option<i64>,
        uptime_ms: i64,
    },
}

impl View for ObservationKind {
    type V = ObservationKindView;

    open spec fn view(&self) -> ObservationKindView {
        match self {
            ObservationKind::PrintStarted { filename } => ObservationKindView::PrintStarted {
                filename: filename@,
            },
            ObservationKind::PrintCompleted { filename, duration_ms, success } =>
                ObservationKindView::PrintCompleted {
                filename: filename@,
                duration_ms: *duration_ms,
                success: *success,
            },
            ObservationKind::PrintFailed { filename, duration_ms, reason } =>
                ObservationKindView::PrintFailed {
                filename: filename@,
                duration_ms: *duration_ms,
                reason: crate::text::opt_text(*reason),
            },
            ObservationKind::PrintSummary {
                filename,
                success,
                duration_ms,
                filament_used_milli,
                total_layers,
                failure_reason,
                highlights,
            } => ObservationKindView::PrintSummary {
                filename: filename@,
                success: *success,
                duration_ms: *duration_ms,
                filament_used_milli: *filament_used_milli,
                total_layers: *total_layers,
                failure_reason: crate::text::opt_text(*failure_reason),
                highlights: texts(highlights@),
            },
            ObservationKind::AnomalyDetected { category, severity, message, evidence } =>
                ObservationKindView::AnomalyDetected {
                category: *category,
                severity: *severity,
                message: message@,
                evidence: texts(evidence@),
            },
            ObservationKind::HealthSnapshot {
                temperature_stability_milli,
                success_rate_milli,
                recent_error_count,
                recent_warning_count,
                seconds_since_calibration,
                uptime_ms,
            } => ObservationKindView::HealthSnapshot {
                temperature_stability_milli: *temperature_stability_milli,
                success_rate_milli: *success_rate_milli,
                recent_error_count: *recent_error_count,
                recent_warning_count: *recent_warning_count,
                seconds_since_calibration: *seconds_since_calibration,
                uptime_ms: *uptime_ms,
            },
        }
    }
}

/// An observation about one printer at one moment.
pub struct Observation {
    pub id: String,
    pub printer_id: String,
    /// Milliseconds since the Unix epoch.
    pub timestamp: i64,
    pub kind: ObservationKind,
}

} // verus!
