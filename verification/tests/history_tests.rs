use layermind::bridge::{envelope_to_timeline, format_timeline_summary};
use layermind::diff::SnapshotDiffEngine;
use layermind::event::{Envelope, Event, PrinterState};
use layermind::machine::{CapabilitySet, MachineHardware, MachineIdentity, MachineProfile, MachineType};
use layermind::query::TimelineQueryEngine;
use layermind::snapshot::{PrinterSnapshot, SnapshotBuilder, SnapshotTrigger};
use layermind::store::TimelineStore;
use layermind::timeline::{
    AnomalyEvent, AnomalySeverity, ConfigAction, ConfigurationEvent, FirmwareAction, FirmwareEvent,
    HardwareAction, HardwareEvent, PrintAction, PrintHistoryEvent, SnapshotKind, TimelineCategory,
    TimelineEvent, TimelineEventKind, TimelineEventSource, TimelineQuery,
};

const HOUR_MS: i64 = 3_600_000;
const DAY_MS: i64 = 86_400_000;

fn now_ms() -> i64 {
    chrono::Utc::now().timestamp_millis()
}

fn envelope(event: Event) -> Envelope {
    Envelope {
        event_id: uuid::Uuid::now_v7().to_string(),
        printer_id: "p1".into(),
        timestamp: now_ms(),
        payload: event,
    }
}

// ── Envelope bridge ────────────────────────────────────────────────

#[test]
fn print_started_maps_to_print_history() {
    let events = envelope_to_timeline(&envelope(Event::PrintStarted {
        filename: "benchy.gcode".into(),
        estimated_time_ms: Some(3_600_000),
    }));
    assert_eq!(events.len(), 1);
    match &events[0].kind {
        TimelineEventKind::PrintHistory(pe) => {
            assert!(pe.action == PrintAction::Started);
            assert_eq!(pe.filename.as_deref(), Some("benchy.gcode"));
        }
        _ => panic!("expected PrintHistory event"),
    }
    assert_eq!(events[0].printer_id, "p1");
}

#[test]
fn print_completed_maps_with_duration() {
    let events = envelope_to_timeline(&envelope(Event::PrintCompleted {
        total_time_ms: 3_540_000,
        filament_used_milli: Some(5_200),
    }));
    assert_eq!(events.len(), 1);
    match &events[0].kind {
        TimelineEventKind::PrintHistory(pe) => {
            assert!(pe.action == PrintAction::Completed);
            assert_eq!(pe.duration_ms, Some(3_540_000));
        }
        _ => panic!("expected PrintHistory event"),
    }
}

#[test]
fn print_failed_maps_with_reason() {
    let events = envelope_to_timeline(&envelope(Event::PrintFailed { reason: Some("thermal runaway".into()) }));
    assert_eq!(events.len(), 1);
    match &events[0].kind {
        TimelineEventKind::PrintHistory(pe) => {
            assert!(pe.action == PrintAction::Failed);
            assert_eq!(pe.failure_reason.as_deref(), Some("thermal runaway"));
        }
        _ => panic!("expected PrintHistory event"),
    }
}

#[test]
fn heater_fault_maps_to_anomaly() {
    let events = envelope_to_timeline(&envelope(Event::HeaterFault {
        heater: "extruder".into(),
        message: "temperature deviation".into(),
    }));
    assert_eq!(events.len(), 1);
    match &events[0].kind {
        TimelineEventKind::Anomaly(ae) => {
            assert!(ae.severity == AnomalySeverity::Error);
            assert_eq!(ae.anomaly_type, "heater_fault");
        }
        _ => panic!("expected Anomaly event"),
    }
    assert!(events[0].source == TimelineEventSource::Automatic);
    assert_eq!(events[0].confidence_milli, 800);
}

#[test]
fn temperature_update_is_skipped() {
    let events = envelope_to_timeline(&envelope(Event::TemperatureUpdate { temperatures: vec![] }));
    assert!(events.is_empty());
}

#[test]
fn position_update_is_skipped() {
    let events = envelope_to_timeline(&envelope(Event::PositionUpdate {
        x_milli: 100_000,
        y_milli: 100_000,
        z_milli: 10_000,
    }));
    assert!(events.is_empty());
}

#[test]
fn fan_update_is_skipped() {
    let events = envelope_to_timeline(&envelope(Event::FanUpdate {
        name: "fan".into(),
        speed_milli: 500,
        rpm_milli: None,
    }));
    assert!(events.is_empty());
}

#[test]
fn print_progress_is_skipped() {
    let events = envelope_to_timeline(&envelope(Event::PrintProgress {
        progress_milli: 500,
        elapsed_ms: 1_800_000,
        remaining_ms: Some(1_800_000),
        current_layer: None,
        total_layers: None,
    }));
    assert!(events.is_empty());
}

#[test]
fn error_maps_to_anomaly() {
    let events = envelope_to_timeline(&envelope(Event::Error {
        code: Some("MINTEMP".into()),
        message: "Extruder temp below minimum".into(),
    }));
    assert_eq!(events.len(), 1);
    match &events[0].kind {
        TimelineEventKind::Anomaly(ae) => {
            assert!(ae.severity == AnomalySeverity::Error);
            assert_eq!(ae.anomaly_type, "MINTEMP");
        }
        _ => panic!("expected Anomaly event"),
    }
}

#[test]
fn warning_maps_to_anomaly() {
    let events = envelope_to_timeline(&envelope(Event::Warning { message: "PID deviation detected".into() }));
    assert_eq!(events.len(), 1);
    match &events[0].kind {
        TimelineEventKind::Anomaly(ae) => {
            assert!(ae.severity == AnomalySeverity::Warning);
            assert_eq!(ae.anomaly_type, "warning");
        }
        _ => panic!("expected Anomaly event"),
    }
}

#[test]
fn connected_maps_to_configuration() {
    let events = envelope_to_timeline(&envelope(Event::Connected));
    assert_eq!(events.len(), 1);
    match &events[0].kind {
        TimelineEventKind::Configuration(ce) => {
            assert_eq!(ce.new_value.as_deref(), Some("connected"));
        }
        _ => panic!("expected Configuration event"),
    }
}

#[test]
fn state_changed_maps_to_configuration() {
    let events = envelope_to_timeline(&envelope(Event::StateChanged { state: PrinterState::Printing }));
    assert_eq!(events.len(), 1);
    match &events[0].kind {
        TimelineEventKind::Configuration(ce) => {
            assert_eq!(ce.new_value.as_deref(), Some("Printing"));
        }
        _ => panic!("expected Configuration event"),
    }
}

#[test]
fn disconnected_maps_to_anomaly() {
    let events = envelope_to_timeline(&envelope(Event::Disconnected { reason: "WebSocket closed".into() }));
    assert_eq!(events.len(), 1);
    match &events[0].kind {
        TimelineEventKind::Anomaly(ae) => {
            assert!(ae.severity == AnomalySeverity::Warning);
            assert_eq!(ae.anomaly_type, "disconnected");
        }
        _ => panic!("expected Anomaly event"),
    }
}

#[test]
fn format_summary_print_started() {
    let kind = TimelineEventKind::PrintHistory(PrintHistoryEvent {
        action: PrintAction::Started,
        print_job_id: None,
        filename: Some("benchy.gcode".into()),
        duration_ms: None,
        failure_reason: None,
    });
    assert_eq!(format_timeline_summary(&kind), "Print started: benchy.gcode");
}

#[test]
fn format_summary_print_completed() {
    let kind = TimelineEventKind::PrintHistory(PrintHistoryEvent {
        action: PrintAction::Completed,
        print_job_id: None,
        filename: None,
        duration_ms: Some(3_540_000),
        failure_reason: None,
    });
    assert_eq!(format_timeline_summary(&kind), "Print completed");
}

#[test]
fn format_summary_print_failed() {
    let kind = TimelineEventKind::PrintHistory(PrintHistoryEvent {
        action: PrintAction::Failed,
        print_job_id: None,
        filename: None,
        duration_ms: None,
        failure_reason: Some("thermal runaway".into()),
    });
    assert_eq!(format_timeline_summary(&kind), "Print failed: thermal runaway");
}

#[test]
fn format_summary_anomaly() {
    let kind = TimelineEventKind::Anomaly(AnomalyEvent {
        severity: AnomalySeverity::Warning,
        anomaly_type: "thermal".into(),
        description: "PID oscillation".into(),
        print_job_id: None,
    });
    assert_eq!(format_timeline_summary(&kind), "[thermal] PID oscillation");
}

#[test]
fn format_summary_configuration() {
    let kind = TimelineEventKind::Configuration(ConfigurationEvent {
        action: ConfigAction::Reloaded,
        config_key: "printer.state".into(),
        previous_value: None,
        new_value: Some("ready".into()),
    });
    assert_eq!(format_timeline_summary(&kind), "Config changed: printer.state");
}

// ── Queries ────────────────────────────────────────────────────────

fn event(printer: &str, ts: i64, cat: TimelineCategory) -> TimelineEvent {
    let kind = match cat {
        TimelineCategory::Hardware => TimelineEventKind::Hardware(HardwareEvent {
            action: HardwareAction::Installed,
            component_id: "probe_0".into(),
            component_type: "probe".into(),
            previous_value: None,
            new_value: None,
        }),
        TimelineCategory::Anomaly => TimelineEventKind::Anomaly(AnomalyEvent {
            severity: AnomalySeverity::Warning,
            anomaly_type: "test".into(),
            description: "test".into(),
            print_job_id: None,
        }),
        TimelineCategory::Firmware => TimelineEventKind::Firmware(FirmwareEvent {
            action: FirmwareAction::Updated,
            component: "klipper".into(),
            previous_version: None,
            new_version: Some("v1.0".into()),
        }),
        _ => TimelineEventKind::SnapshotCreated(SnapshotKind::Machine),
    };
    TimelineEvent {
        id: uuid::Uuid::new_v4().to_string(),
        printer_id: printer.into(),
        timestamp: ts,
        kind,
        source: TimelineEventSource::Automatic,
        confidence_milli: 1000,
        metadata: "{}".into(),
    }
}

#[test]
fn filters_by_printer() {
    let now = now_ms();
    let events = vec![
        event("p1", now - 2 * HOUR_MS, TimelineCategory::Hardware),
        event("p1", now - HOUR_MS, TimelineCategory::Anomaly),
        event("p2", now, TimelineCategory::Hardware),
    ];
    let q = TimelineQuery { printer_id: Some("p1".into()), ..Default::default() };
    let results = TimelineQueryEngine::query(&events, &q);
    assert_eq!(results.len(), 2);
}

#[test]
fn filters_by_category() {
    let now = now_ms();
    let events = vec![
        event("p1", now - 2 * HOUR_MS, TimelineCategory::Hardware),
        event("p1", now - HOUR_MS, TimelineCategory::Anomaly),
        event("p1", now, TimelineCategory::Hardware),
    ];
    let q = TimelineQuery {
        printer_id: Some("p1".into()),
        categories: Some(vec![TimelineCategory::Anomaly]),
        ..Default::default()
    };
    let results = TimelineQueryEngine::query(&events, &q);
    assert_eq!(results.len(), 1);
    assert!(matches!(results[0].kind, TimelineEventKind::Anomaly(_)));
}

#[test]
fn filters_by_time_range() {
    let base = now_ms();
    let events = vec![
        event("p1", base - 30 * DAY_MS, TimelineCategory::Hardware),
        event("p1", base - 10 * DAY_MS, TimelineCategory::Anomaly),
        event("p1", base - DAY_MS, TimelineCategory::Hardware),
    ];
    let results = TimelineQueryEngine::in_time_range(&events, "p1", base - 7 * DAY_MS, base);
    assert_eq!(results.len(), 1);
}

#[test]
fn pagination() {
    let base = now_ms();
    let events: Vec<_> = (0..10).map(|i| event("p1", base - i * HOUR_MS, TimelineCategory::Anomaly)).collect();
    let q = TimelineQuery {
        printer_id: Some("p1".into()),
        limit: Some(3),
        offset: Some(2),
        ..Default::default()
    };
    let results = TimelineQueryEngine::query(&events, &q);
    assert_eq!(results.len(), 3);
    // Newest first, skipping the two newest.
    assert_eq!(results[0].timestamp, base - 2 * HOUR_MS);
    assert_eq!(results[2].timestamp, base - 4 * HOUR_MS);
}

#[test]
fn last_event_by_category_finds_most_recent() {
    let base = now_ms();
    let events = vec![
        event("p1", base - 10 * DAY_MS, TimelineCategory::Firmware),
        event("p1", base - 5 * DAY_MS, TimelineCategory::Firmware),
        event("p1", base, TimelineCategory::Anomaly),
    ];
    let last_fw = TimelineQueryEngine::last_event_by_category(&events, "p1", TimelineCategory::Firmware);
    assert!(last_fw.is_some());
    let ts = last_fw.unwrap().timestamp;
    assert!(ts > base - 6 * DAY_MS);
}

// ── Store ──────────────────────────────────────────────────────────

fn make_anomaly(desc: &str) -> TimelineEventKind {
    TimelineEventKind::Anomaly(AnomalyEvent {
        severity: AnomalySeverity::Warning,
        anomaly_type: "test".into(),
        description: desc.into(),
        print_job_id: None,
    })
}

fn make_hw(component: &str, action: HardwareAction) -> TimelineEventKind {
    TimelineEventKind::Hardware(HardwareEvent {
        action,
        component_id: component.into(),
        component_type: "probe".into(),
        previous_value: None,
        new_value: Some("installed".into()),
    })
}

/// Waits until the millisecond clock has moved on.
fn next_millisecond() {
    let start = now_ms();
    while now_ms() == start {}
}

#[test]
fn records_and_retrieves_events() {
    let mut store = TimelineStore::new();
    store.record("p1", make_anomaly("thermal warning"), TimelineEventSource::Automatic, 900, "{}".into());
    next_millisecond();
    store.record(
        "p1",
        make_hw("probe_0", HardwareAction::Installed),
        TimelineEventSource::User,
        1000,
        "{\"user\":\"curtis\"}".into(),
    );
    store.record("p2", make_anomaly("comms failure"), TimelineEventSource::Automatic, 800, "{}".into());

    assert_eq!(store.len(), 3);
    let p1_events = store.for_printer("p1");
    assert_eq!(p1_events.len(), 2);
    assert!(matches!(p1_events[0].kind, TimelineEventKind::Hardware(_)));
}

#[test]
fn load_rebuilds_indices() {
    let events = vec![TimelineEvent {
        id: "e1".into(),
        printer_id: "p1".into(),
        timestamp: now_ms(),
        kind: make_anomaly("test"),
        source: TimelineEventSource::Automatic,
        confidence_milli: 900,
        metadata: "{}".into(),
    }];
    let mut store = TimelineStore::new();
    store.load(events);
    assert_eq!(store.for_printer("p1").len(), 1);
}

#[test]
fn empty_store_returns_empty() {
    let store = TimelineStore::new();
    assert!(store.for_printer("nonexistent").is_empty());
    assert!(store.is_empty());
}

#[test]
fn events_indexed_by_category() {
    let mut store = TimelineStore::new();
    store.record("p1", make_hw("bed", HardwareAction::Replaced), TimelineEventSource::User, 1000, "{}".into());
    store.record("p1", make_anomaly("error"), TimelineEventSource::Automatic, 900, "{}".into());
    assert_eq!(store.category_len(TimelineCategory::Hardware), 1);
    assert_eq!(store.category_len(TimelineCategory::Anomaly), 1);
    assert_eq!(store.category_len(TimelineCategory::Firmware), 0);
}

#[test]
fn record_returns_the_stored_event() {
    let mut store = TimelineStore::new();
    let e = store.record("p9", make_anomaly("x"), TimelineEventSource::User, 750, "{}".into());
    assert_eq!(e.printer_id, "p9");
    assert_eq!(e.confidence_milli, 750);
    assert!(e.source == TimelineEventSource::User);
    assert_eq!(store.all().len(), 1);
}

// ── Snapshots and diffs ────────────────────────────────────────────

fn test_profile(printer_id: &str, manufacturer: &str, model: &str) -> MachineProfile {
    let now = now_ms();
    MachineProfile {
        identity: MachineIdentity {
            printer_id: printer_id.into(),
            nickname: None,
            manufacturer: Some(manufacturer.into()),
            model: Some(model.into()),
            custom_build: false,
            machine_type: MachineType::Cartesian,
            serial_number: None,
            firmware: None,
            discovered_at: now,
            updated_at: now,
        },
        hardware: MachineHardware { extruders: vec![], hotends: vec![], probes: vec![], accelerometers: vec![] },
        capabilities: CapabilitySet::empty(),
        generated_at: now,
    }
}

#[test]
fn detects_identity_changes() {
    let from = test_profile("p1", "A", "B");
    let mut to = test_profile("p1", "A", "B");
    to.identity.machine_type = MachineType::CoreXY;
    let diff = SnapshotDiffEngine::diff_profiles(&from, &to);
    assert!(diff.total_changes > 0);
    assert!(diff.changes.iter().any(|c| c.path == "identity.machine_type"));
}

#[test]
fn detects_capability_changes() {
    let from = test_profile("p1", "A", "B");
    let mut to = test_profile("p1", "A", "B");
    to.capabilities.supports_input_shaping = true;
    let diff = SnapshotDiffEngine::diff_profiles(&from, &to);
    assert!(diff.changes.iter().any(|c| c.path == "capabilities.input_shaping"));
}

#[test]
fn identical_profiles_produce_empty_diff() {
    let p = test_profile("p1", "A", "B");
    let diff = SnapshotDiffEngine::diff_profiles(&p, &p);
    assert_eq!(diff.total_changes, 0);
}

#[test]
fn diff_snapshots_requires_machine() {
    let make = || PrinterSnapshot {
        printer_id: "p1".into(),
        snapshot_id: "s1".into(),
        timestamp: now_ms(),
        machine: None,
        capabilities: None,
        config_hash: None,
        trigger: SnapshotTrigger::Manual,
        metadata: "{}".into(),
    };
    let s1 = make();
    let s2 = make();
    let diff = SnapshotDiffEngine::diff_snapshots(&s1, &s2);
    assert!(diff.is_none());
}

#[test]
fn builds_printer_snapshot() {
    let profile = test_profile("p1", "Test", "T1");
    let snap = SnapshotBuilder::printer_snapshot("p1", Some(&profile), SnapshotTrigger::Manual);
    assert_eq!(snap.printer_id, "p1");
    assert!(snap.machine.is_some());
    assert!(snap.capabilities.is_some());
    assert!(snap.trigger == SnapshotTrigger::Manual);
}

#[test]
fn builds_machine_snapshot() {
    let profile = test_profile("p2", "Test", "T1");
    let snap = SnapshotBuilder::machine_snapshot("p2", &profile);
    assert!(snap.identity.is_some());
}

#[test]
fn builds_capability_snapshot() {
    let profile = test_profile("p3", "Test", "T1");
    let snap = SnapshotBuilder::capability_snapshot("p3", &profile);
    assert!(!snap.capabilities.supports_input_shaping);
}

#[test]
fn snapshot_ids_are_unique() {
    let profile = test_profile("p4", "Test", "T1");
    let s1 = SnapshotBuilder::printer_snapshot("p4", Some(&profile), SnapshotTrigger::Scheduled);
    let s2 = SnapshotBuilder::printer_snapshot("p4", Some(&profile), SnapshotTrigger::Scheduled);
    assert_ne!(s1.snapshot_id, s2.snapshot_id);
}

#[test]
fn diff_between_snapshots_names_both_ids() {
    let a = test_profile("p1", "A", "B");
    let b = test_profile("p1", "C", "B");
    let s1 = SnapshotBuilder::printer_snapshot("p1", Some(&a), SnapshotTrigger::Manual);
    let s2 = SnapshotBuilder::printer_snapshot("p1", Some(&b), SnapshotTrigger::Manual);
    let diff = SnapshotDiffEngine::diff_snapshots(&s1, &s2).unwrap();
    assert_eq!(diff.from_snapshot_id, s1.snapshot_id);
    assert_eq!(diff.to_snapshot_id, s2.snapshot_id);
    let c = diff.changes.iter().find(|c| c.path == "identity.manufacturer").unwrap();
    assert_eq!(c.previous_value.as_deref(), Some("A"));
    assert_eq!(c.new_value.as_deref(), Some("C"));
}

#[test]
fn a_changed_model_is_reported() {
    let from = test_profile("p1", "A", "B");
    let to = test_profile("p1", "A", "C");
    let diff = SnapshotDiffEngine::diff_profiles(&from, &to);
    assert_eq!(diff.total_changes, diff.changes.len());
    let c = diff.changes.iter().find(|c| c.path == "identity.model").unwrap();
    assert_eq!(c.previous_value.as_deref(), Some("B"));
    assert_eq!(c.new_value.as_deref(), Some("C"));
}

#[test]
fn the_default_query_returns_every_record_newest_first() {
    let now = now_ms();
    let events = vec![
        event("p1", now - 2 * HOUR_MS, TimelineCategory::Hardware),
        event("p2", now, TimelineCategory::Anomaly),
        event("p1", now - HOUR_MS, TimelineCategory::Hardware),
    ];
    let results = TimelineQueryEngine::query(&events, &TimelineQuery::default());
    assert_eq!(results.len(), 3);
    assert_eq!(results[0].timestamp, now);
    assert_eq!(results[1].timestamp, now - HOUR_MS);
    assert_eq!(results[2].timestamp, now - 2 * HOUR_MS);
}
