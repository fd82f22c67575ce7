//! From printer events to timeline records.
//!
//! Lifecycle-significant events become timeline records; high-frequency
//! telemetry (temperatures, position, speed, fans, progress, G-code
//! responses, raw events) is left out so that it does not flood the
//! timeline.

use vstd::prelude::*;
use vstd::string::*;

use crate::event::{Envelope, Event, state_name};
use crate::text::{clone_opt_string, opt_text};
use crate::timeline::{
    AnomalyEvent, AnomalySeverity, ConfigAction, ConfigurationEvent, PrintAction, PrintHistoryEvent,
    TimelineEvent, TimelineEventKind, TimelineEventSource,
};

verus! {

/// A print-history record with the given fields and no job id.
pub open spec fn is_print_record(
    k: TimelineEventKind,
    action: PrintAction,
    filename: Option<Seq<char>>,
    duration_ms: Option<i64>,
    failure_reason: Option<Seq<char>>,
) -> bool {
    match k {
        TimelineEventKind::PrintHistory(p) => p.action == action && p.print_job_id is None
            && opt_text(p.filename) == filename && p.duration_ms == duration_ms && opt_text(
            p.failure_reason,
        ) == failure_reason,
        _ => false,
    }
}

/// An anomaly record with the given fields and no job id.
pub open spec fn is_anomaly_record(
    k: TimelineEventKind,
    severity: AnomalySeverity,
    anomaly_type: Seq<char>,
    description: Seq<char>,
) -> bool {
    match k {
        TimelineEventKind::Anomaly(a) => a.severity == severity && a.anomaly_type@ == anomaly_type
            && a.description@ == description && a.print_job_id is None,
        _ => false,
    }
}

/// A reload of `printer.state` to the given value.
pub open spec fn is_state_record(k: TimelineEventKind, value: Seq<char>) -> bool {
    match k {
        TimelineEventKind::Configuration(c) => c.action == ConfigAction::Reloaded
            && c.config_key@ == "printer.state"@ && c.previous_value is None && opt_text(
            c.new_value,
        ) == Some(value),
        _ => false,
    }
}

/// Whether an event is left out of the timeline.
pub open spec fn is_high_frequency(e: Event) -> bool {
    match e {
        Event::TemperatureUpdate { .. } | Event::PositionUpdate { .. } | Event::SpeedUpdate { .. }
        | Event::FanUpdate { .. } | Event::PrintProgress { .. } | Event::GcodeResponse { .. }
        | Event::Raw { .. } => true,
        _ => false,
    }
}

/// The kind of the record that an event becomes.
pub open spec fn bridged_kind(e: Event, k: TimelineEventKind) -> bool {
    match e {
        Event::PrintStarted { filename, .. } => is_print_record(
            k,
            PrintAction::Started,
            Some(filename@),
            None,
            None,
        ),
        Event::PrintPaused { reason } => is_print_record(
            k,
            PrintAction::Paused,
            None,
            None,
            opt_text(reason),
        ),
        Event::PrintResumed => is_print_record(k, PrintAction::Resumed, None, None, None),
        Event::PrintCompleted { total_time_ms, .. } => is_print_record(
            k,
            PrintAction::Completed,
            None,
            Some(total_time_ms),
            None,
        ),
        Event::PrintFailed { reason } => is_print_record(
            k,
            PrintAction::Failed,
            None,
            None,
            opt_text(reason),
        ),
        Event::PrintCancelled => is_print_record(k, PrintAction::Cancelled, None, None, None),
        Event::HeaterFault { heater, message } => is_anomaly_record(
            k,
            AnomalySeverity::Error,
            "heater_fault"@,
            "Heater fault on "@ + heater@ + ": "@ + message@,
        ),
        Event::Error { code, message } => is_anomaly_record(
            k,
            AnomalySeverity::Error,
            match code {
                Some(c) => c@,
                None => "error"@,
            },
            message@,
        ),
        Event::Warning { message } => is_anomaly_record(
            k,
            AnomalySeverity::Warning,
            "warning"@,
            message@,
        ),
        Event::PrinterReady => is_state_record(k, "ready"@),
        Event::Connected => is_state_record(k, "connected"@),
        Event::StateChanged { state } => is_state_record(k, state_name(state)),
        Event::Disconnected { reason } => is_anomaly_record(
            k,
            AnomalySeverity::Warning,
            "disconnected"@,
            "Printer disconnected: "@ + reason@,
        ),
        _ => false,
    }
}

/// Whether an event was raised as a fault (errors, warnings, heater
/// faults): those are recorded as automatic, with confidence 0.8.
pub open spec fn is_fault(e: Event) -> bool {
    e is Error || e is Warning || e is HeaterFault
}

/// The timeline record that an envelope becomes.
pub open spec fn bridged(env: Envelope, t: TimelineEvent) -> bool {
    &&& t.id@ == env.event_id@
    &&& t.printer_id@ == env.printer_id@
    &&& t.timestamp == env.timestamp
    &&& bridged_kind(env.payload, t.kind)
    &&& t.source == if is_fault(env.payload) {
        TimelineEventSource::Automatic
    } else {
        TimelineEventSource::Moonraker
    }
    &&& t.confidence_milli == if is_fault(env.payload) { 800i64 } else { 1000i64 }
    &&& t.metadata@ == "{}"@
}

fn print_record(
    action: PrintAction,
    filename: Option<String>,
    duration_ms: Option<i64>,
    failure_reason: Option<String>,
) -> (k: TimelineEventKind)
    ensures
        is_print_record(k, action, opt_text(filename), duration_ms, opt_text(failure_reason)),
{
    TimelineEventKind::PrintHistory(
        PrintHistoryEvent { action, print_job_id: None, filename, duration_ms, failure_reason },
    )
}

fn anomaly_record(severity: AnomalySeverity, anomaly_type: String, description: String) -> (k:
    TimelineEventKind)
    ensures
        is_anomaly_record(k, severity, anomaly_type@, description@),
{
    TimelineEventKind::Anomaly(
        AnomalyEvent { severity, anomaly_type, description, print_job_id: None },
    )
}

fn state_record(value: &str) -> (k: TimelineEventKind)
    ensures
        is_state_record(k, value@),
{
    TimelineEventKind::Configuration(
        ConfigurationEvent {
            action: ConfigAction::Reloaded,
            config_key: String::from_str("printer.state"),
            previous_value: None,
            new_value: Some(String::from_str(value)),
        },
    )
}

/// Maps an envelope to zero or one timeline record: none for
/// high-frequency telemetry, one for every other event.
pub fn envelope_to_timeline(envelope: &Envelope) -> (res: Vec<TimelineEvent>)
    ensures
        is_high_frequency(envelope.payload) ==> res@.len() == 0,
        !is_high_frequency(envelope.payload) ==> res@.len() == 1 && bridged(*envelope, res@[0]),
{
    let kind = match &envelope.payload {
        Event::PrintStarted { filename, .. } => print_record(
            PrintAction::Started,
            Some(filename.clone()),
            None,
            None,
        ),
        Event::PrintPaused { reason } => print_record(
            PrintAction::Paused,
            None,
            None,
            clone_opt_string(reason),
        ),
        Event::PrintResumed => print_record(PrintAction::Resumed, None, None, None),
        Event::PrintCompleted { total_time_ms, .. } => print_record(
            PrintAction::Completed,
            None,
            Some(*total_time_ms),
            None,
        ),
        Event::PrintFailed { reason } => print_record(
            PrintAction::Failed,
            None,
            None,
            clone_opt_string(reason),
        ),
        Event::PrintCancelled => print_record(PrintAction::Cancelled, None, None, None),
        Event::HeaterFault { heater, message } => anomaly_record(
            AnomalySeverity::Error,
            String::from_str("heater_fault"),
            String::from_str("Heater fault on ").concat(heater.as_str()).concat(": ").concat(
                message.as_str(),
            ),
        ),
        Event::Error { code, message } => anomaly_record(
            AnomalySeverity::Error,
            match code {
                Some(c) => c.clone(),
                None => String::from_str("error"),
            },
            message.clone(),
        ),
        Event::Warning { message } => anomaly_record(
            AnomalySeverity::Warning,
            String::from_str("warning"),
            message.clone(),
        ),
        Event::PrinterReady => state_record("ready"),
        Event::Connected => state_record("connected"),
        Event::StateChanged { state } => state_record(state.name()),
        Event::Disconnected { reason } => anomaly_record(
            AnomalySeverity::Warning,
            String::from_str("disconnected"),
            String::from_str("Printer disconnected: ").concat(reason.as_str()),
        ),
        Event::TemperatureUpdate { .. } | Event::PositionUpdate { .. } | Event::SpeedUpdate { .. }
        | Event::FanUpdate { .. } | Event::PrintProgress { .. } | Event::GcodeResponse { .. }
        | Event::Raw { .. } => {
            return Vec::new();
        },
    };
    let fault = match &envelope.payload {
        Event::Error { .. } | Event::Warning { .. } | Event::HeaterFault { .. } => true,
        _ => false,
    };
    let source = if fault {
        TimelineEventSource::Automatic
    } else {
        TimelineEventSource::Moonraker
    };
    let confidence_milli: i64 = if fault { 800 } else { 1000 };
    let mut res = Vec::new();
    res.push(
        TimelineEvent {
            id: envelope.event_id.clone(),
            printer_id: envelope.printer_id.clone(),
            timestamp: envelope.timestamp,
            kind,
            source,
            confidence_milli,
            metadata: String::from_str("{}"),
        },
    );
    res
}

/// The human-readable summary of a record kind.
pub open spec fn summary_text(kind: TimelineEventKind) -> Seq<char> {
    match kind {
        TimelineEventKind::PrintHistory(p) => match p.action {
            PrintAction::Started => "Print started: "@ + match p.filename {
                Some(f) => f@,
                None => "unknown"@,
            },
            PrintAction::Completed => "Print completed"@,
            PrintAction::Failed => "Print failed: "@ + match p.failure_reason {
                Some(r) => r@,
                None => "unknown"@,
            },
            PrintAction::Cancelled => "Print cancelled"@,
            PrintAction::Paused => "Print paused"@,
            PrintAction::Resumed => "Print resumed"@,
            _ => "Print event"@,
        },
        TimelineEventKind::Anomaly(a) => "["@ + a.anomaly_type@ + "] "@ + a.description@,
        TimelineEventKind::Configuration(c) => "Config changed: "@ + c.config_key@,
        _ => "Event recorded"@,
    }
}

/// Formats a human-readable summary of a record kind.
pub fn format_timeline_summary(kind: &TimelineEventKind) -> (s: String)
    ensures
        s@ == summary_text(*kind),
{
    match kind {
        TimelineEventKind::PrintHistory(p) => match p.action {
            PrintAction::Started => String::from_str("Print started: ").concat(
                match &p.filename {
                    Some(f) => f.as_str(),
                    None => "unknown",
                },
            ),
            PrintAction::Completed => String::from_str("Print completed"),
            PrintAction::Failed => String::from_str("Print failed: ").concat(
                match &p.failure_reason {
                    Some(r) => r.as_str(),
                    None => "unknown",
                },
            ),
            PrintAction::Cancelled => String::from_str("Print cancelled"),
            PrintAction::Paused => String::from_str("Print paused"),
            PrintAction::Resumed => String::from_str("Print resumed"),
            _ => String::from_str("Print event"),
        },
        TimelineEventKind::Anomaly(a) => String::from_str("[").concat(a.anomaly_type.as_str()).concat(
            "] ",
        ).concat(a.description.as_str()),
        TimelineEventKind::Configuration(c) => String::from_str("Config changed: ").concat(
            c.config_key.as_str(),
        ),
        _ => String::from_str("Event recorded"),
    }
}

} // verus!
