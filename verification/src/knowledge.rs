//! Knowledge: what the system has learned about a printer.

use vstd::prelude::*;
use vstd::string::*;

use crate::observation::{AnomalyCategory, Severity};

verus! {

/// The lifecycle of a tracked observation: Active → Acknowledged → Resolved.
#[derive(PartialEq, Eq, Structural, Clone, Copy)]
pub enum ObservationState {
    Active,
    Acknowledged,
    Resolved,
}

/// What kind of moment a timeline entry marks.
#[derive(PartialEq, Eq, Structural, Clone, Copy)]
pub enum TimelineEventType {
    FailureDetected,
    PrintMilestone,
    CalibrationRun,
    NozzleChanged,
    MaintenancePerformed,
    FirmwareUpdated,
    IssueResolved,
}

/// A metadata value: text, a count, or nothing.
pub enum MetaValue {
    Text(String),
    Count(u64),
    Null,
}

/// One metadata field of a timeline entry.
pub struct MetaField {
    pub key: String,
    pub value: MetaValue,
}

/// A human-meaningful moment in a printer's life.
pub struct TimelineEntry {
    pub id: String,
    pub event_type: TimelineEventType,
    pub description: String,
    pub severity: Option<Severity>,
    pub metadata: Vec<MetaField>,
    /// Milliseconds since the Unix epoch.
    pub occurred_at: i64,
}

/// A recurring anomaly in a printer's profile.
pub struct KnownIssue {
    pub category: AnomalyCategory,
    pub description: String,
    pub first_seen: i64,
    pub last_seen: i64,
    pub occurrence_count: u64,
    pub resolved: bool,
}

/// The hardware a profile knows about.
pub struct PrinterHardware {
    pub model: Option<String>,
    pub firmware: Option<String>,
}

/// How a printer behaves. Durations are in milliseconds, the
/// reliability score in thousandths (1000 is perfect).
pub struct PrinterBehavior {
    pub successful_prints: u64,
    pub failed_prints: u64,
    pub avg_print_duration_ms: Option<i64>,
    pub reliability_milli: Option<i64>,
    pub known_issues: Vec<KnownIssue>,
}

/// Persistent knowledge about one printer.
pub struct PrinterProfile {
    pub printer_id: String,
    pub hardware: PrinterHardware,
    pub behavior: PrinterBehavior,
    pub updated_at: i64,
}

/// A record produced by the knowledge layer. Scores are in thousandths.
pub enum KnowledgeKind {
    ObservationTracked { observation_id: String, importance_milli: i64, confidence_milli: i64 },
    ObservationResolved { observation_id: String, resolution: String },
    ProfileUpdated { profile: PrinterProfile },
    TimelineEventAdded { entry: TimelineEntry },
    /// The state of one printer's knowledge, named by `printer_id`.
    KnowledgeSnapshot {
        printer_id: String,
        active_observation_count: usize,
        resolved_observation_count: usize,
        profile_age_ms: i64,
        timeline_event_count: usize,
    },
}

/// A knowledge record about one printer.
pub struct Knowledge {
    pub id: String,
    pub printer_id: String,
    pub timestamp: i64,
    pub kind: KnowledgeKind,
}

} // verus!
