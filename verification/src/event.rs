//! The canonical printer event model.
//!
//! Quantities that a printer reports as fractional numbers are held as
//! integer thousandths ("milli" units): a temperature of 210.5 °C is
//! `210500`, a duration of 12.25 s is `12250` (milliseconds), a progress
//! of 0.5 is `500`. Timestamps are milliseconds since the Unix epoch.

use vstd::prelude::*;

verus! {

/// The state a printer reports.
#[derive(PartialEq, Eq, Structural)]
pub enum PrinterState {
    Disconnected,
    Startup,
    Ready,
    Idle,
    Printing,
    Paused,
    Complete,
    Cancelled,
    Error,
    Shutdown,
}

impl Clone for PrinterState {
    fn clone(&self) -> (res: Self)
        ensures
            res == *self,
    {
        match self {
            PrinterState::Disconnected => PrinterState::Disconnected,
            PrinterState::Startup => PrinterState::Startup,
            PrinterState::Ready => PrinterState::Ready,
            PrinterState::Idle => PrinterState::Idle,
            PrinterState::Printing => PrinterState::Printing,
            PrinterState::Paused => PrinterState::Paused,
            PrinterState::Complete => PrinterState::Complete,
            PrinterState::Cancelled => PrinterState::Cancelled,
            PrinterState::Error => PrinterState::Error,
            PrinterState::Shutdown => PrinterState::Shutdown,
        }
    }
}

/// The name of a printer state, as `{:?}` prints it.
pub open spec fn state_name(s: PrinterState) -> Seq<char> {
    match s {
        PrinterState::Disconnected => "Disconnected"@,
        PrinterState::Startup => "Startup"@,
        PrinterState::Ready => "Ready"@,
        PrinterState::Idle => "Idle"@,
        PrinterState::Printing => "Printing"@,
        PrinterState::Paused => "Paused"@,
        PrinterState::Complete => "Complete"@,
        PrinterState::Cancelled => "Cancelled"@,
        PrinterState::Error => "Error"@,
        PrinterState::Shutdown => "Shutdown"@,
    }
}

impl PrinterState {
    /// The name of the state, as `{:?}` prints it.
    pub fn name(&self) -> (s: &'static str)
        ensures
            s@ == state_name(*self),
    {
        match self {
            PrinterState::Disconnected => "Disconnected",
            PrinterState::Startup => "Startup",
            PrinterState::Ready => "Ready",
            PrinterState::Idle => "Idle",
            PrinterState::Printing => "Printing",
            PrinterState::Paused => "Paused",
            PrinterState::Complete => "Complete",
            PrinterState::Cancelled => "Cancelled",
            PrinterState::Error => "Error",
            PrinterState::Shutdown => "Shutdown",
        }
    }
}

/// One heater reading, in thousandths of a degree Celsius.
pub struct Temperature {
    pub sensor: String,
    pub current_milli: i64,
    pub target_milli: i64,
    /// Heater power in thousandths of the reported value.
    pub power_milli: Option<i64>,
}

/// A canonical printer event.
#[allow(inconsistent_fields)]
pub enum Event {
    Connected,
    Disconnected { reason: String },
    PrinterReady,
    StateChanged { state: PrinterState },
    TemperatureUpdate { temperatures: Vec<Temperature> },
    HeaterFault { heater: String, message: String },
    /// Toolhead position in micrometres.
    PositionUpdate { x_milli: i64, y_milli: i64, z_milli: i64 },
    SpeedUpdate { speed_milli: i64 },
    FanUpdate { name: String, speed_milli: i64, rpm_milli: Option<i64> },
    PrintStarted { filename: String, estimated_time_ms: Option<i64> },
    PrintProgress {
        progress_milli: i64,
        elapsed_ms: i64,
        remaining_ms: Option<i64>,
        current_layer: Option<u32>,
        total_layers: Option<u32>,
    },
    PrintPaused { reason: Option<String> },
    PrintResumed,
    PrintCompleted { total_time_ms: i64, filament_used_milli: Option<i64> },
    PrintFailed { reason: Option<String> },
    PrintCancelled,
    GcodeResponse { command: String, response: String },
    Error { code: Option<String>, message: String },
    Warning { message: String },
    /// An event the normalizer did not map; `value` is its JSON text.
    Raw { namespace: String, key: Option<String>, value: String },
}

/// An event together with where and when it happened.
pub struct Envelope {
    pub event_id: String,
    pub printer_id: String,
    /// Milliseconds since the Unix epoch.
    pub timestamp: i64,
    pub payload: Event,
}

} // verus!
