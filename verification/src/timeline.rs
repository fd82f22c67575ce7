//! The historical timeline model: immutable, typed records of what
//! happened to a printer.

use vstd::prelude::*;

verus! {

/// What happened in a print's lifecycle.
#[derive(PartialEq, Eq, Structural, Clone, Copy)]
pub enum PrintAction {
    Started,
    Paused,
    Resumed,
    Completed,
    Failed,
    Cancelled,
    FirstSuccessful,
}

/// How serious a recorded anomaly was.
#[derive(PartialEq, Eq, Structural, Clone, Copy)]
pub enum AnomalySeverity {
    Info,
    Warning,
    Error,
    Critical,
}

/// What changed in the configuration.
#[derive(PartialEq, Eq, Structural, Clone, Copy)]
pub enum ConfigAction {
    Changed,
    Reloaded,
    PidTuned,
    InputShaperCalibrated,
    BedMeshGenerated,
    ProbeCalibrated,
    PressureAdvanceTuned,
}

/// What happened to a hardware component.
#[derive(PartialEq, Eq, Structural, Clone, Copy)]
pub enum HardwareAction {
    Installed,
    Replaced,
    Removed,
}

/// What happened to firmware.
/// What was done to a component during maintenance.
#[derive(PartialEq, Eq, Structural, Clone, Copy)]
pub enum MaintenanceAction {
    Inspected,
    Cleaned,
    Lubricated,
    Adjusted,
    Replaced,
}

#[derive(PartialEq, Eq, Structural, Clone, Copy)]
pub enum FirmwareAction {
    Installed,
    Updated,
    RolledBack,
}

/// What kind of snapshot was taken.
#[derive(PartialEq, Eq, Structural, Clone, Copy)]
pub enum SnapshotKind {
    Printer,
    Machine,
    Capability,
}

/// Where a timeline record came from.
#[derive(PartialEq, Eq, Structural, Clone, Copy)]
pub enum TimelineEventSource {
    Automatic,
    User,
    Moonraker,
}

/// The coarse category of a timeline record.
#[derive(PartialEq, Eq, Structural, Clone, Copy)]
pub enum TimelineCategory {
    PrintHistory,
    Anomaly,
    Configuration,
    Hardware,
    Maintenance,
    Firmware,
    Capability,
    Snapshot,
}

pub struct PrintHistoryEvent {
    pub action: PrintAction,
    pub print_job_id: Option<String>,
    pub filename: Option<String>,
    pub duration_ms: Option<i64>,
    pub failure_reason: Option<String>,
}

pub struct AnomalyEvent {
    pub severity: AnomalySeverity,
    pub anomaly_type: String,
    pub description: String,
    pub print_job_id: Option<String>,
}

pub struct ConfigurationEvent {
    pub action: ConfigAction,
    pub config_key: String,
    pub previous_value: Option<String>,
    pub new_value: Option<String>,
}

pub struct HardwareEvent {
    pub action: HardwareAction,
    pub component_id: String,
    pub component_type: String,
    pub previous_value: Option<String>,
    pub new_value: Option<String>,
}

pub struct MaintenanceEvent {
    pub action: MaintenanceAction,
    pub component: String,
    pub notes: Option<String>,
    pub scheduled: bool,
}

pub struct FirmwareEvent {
    pub action: FirmwareAction,
    pub component: String,
    pub previous_version: Option<String>,
    pub new_version: Option<String>,
}

/// What a timeline record says happened.
pub enum TimelineEventKind {
    PrintHistory(PrintHistoryEvent),
    Anomaly(AnomalyEvent),
    Configuration(ConfigurationEvent),
    Hardware(HardwareEvent),
    Maintenance(MaintenanceEvent),
    Firmware(FirmwareEvent),
    CapabilityChanged { capability: String, supported: bool },
    SnapshotCreated(SnapshotKind),
}

/// One immutable timeline record.
pub struct TimelineEvent {
    pub id: String,
    pub printer_id: String,
    /// Milliseconds since the Unix epoch.
    pub timestamp: i64,
    pub kind: TimelineEventKind,
    pub source: TimelineEventSource,
    /// Confidence in thousandths (1000 is certain).
    pub confidence_milli: i64,
    /// Free-form metadata as JSON text.
    pub metadata: String,
}

/// The category of a record's kind.
pub open spec fn category_spec(kind: TimelineEventKind) -> TimelineCategory {
    match kind {
        TimelineEventKind::PrintHistory(_) => TimelineCategory::PrintHistory,
        TimelineEventKind::Anomaly(_) => TimelineCategory::Anomaly,
        TimelineEventKind::Configuration(_) => TimelineCategory::Configuration,
        TimelineEventKind::Hardware(_) => TimelineCategory::Hardware,
        TimelineEventKind::Maintenance(_) => TimelineCategory::Maintenance,
        TimelineEventKind::Firmware(_) => TimelineCategory::Firmware,
        TimelineEventKind::CapabilityChanged { .. } => TimelineCategory::Capability,
        TimelineEventKind::SnapshotCreated(_) => TimelineCategory::Snapshot,
    }
}

impl TimelineCategory {
    /// The category of a record's kind.
    pub fn from_kind(kind: &TimelineEventKind) -> (c: TimelineCategory)
        ensures
            c == category_spec(*kind),
    {
        match kind {
            TimelineEventKind::PrintHistory(_) => TimelineCategory::PrintHistory,
            TimelineEventKind::Anomaly(_) => TimelineCategory::Anomaly,
            TimelineEventKind::Configuration(_) => TimelineCategory::Configuration,
            TimelineEventKind::Hardware(_) => TimelineCategory::Hardware,
            TimelineEventKind::Maintenance(_) => TimelineCategory::Maintenance,
            TimelineEventKind::Firmware(_) => TimelineCategory::Firmware,
            TimelineEventKind::CapabilityChanged { .. } => TimelineCategory::Capability,
            TimelineEventKind::SnapshotCreated(_) => TimelineCategory::Snapshot,
        }
    }
}

/// A filter over timeline records. Every criterion that is set must hold.
pub struct TimelineQuery {
    pub printer_id: Option<String>,
    pub categories: Option<Vec<TimelineCategory>>,
    pub component_id: Option<String>,
    /// Earliest timestamp, inclusive.
    pub from: Option<i64>,
    /// Latest timestamp, inclusive.
    pub to: Option<i64>,
    pub limit: Option<usize>,
    pub offset: Option<usize>,
}

impl Default for TimelineQuery {
    /// The query with no criteria, which every record matches.
    fn default() -> (q: Self)
        ensures
            q.printer_id is None,
            q.categories is None,
            q.component_id is None,
            q.from is None,
            q.to is None,
            q.limit is None,
            q.offset is None,
    {
        TimelineQuery {
            printer_id: None,
            categories: None,
            component_id: None,
            from: None,
            to: None,
            limit: None,
            offset: None,
        }
    }
}

} // verus!
