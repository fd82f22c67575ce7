//! Print lifecycle tracking for one printer.
//!
//! Follows a print from start to completion or failure and summarizes it.

use vstd::prelude::*;
use vstd::string::*;

use crate::event::{Envelope, Event};
use crate::observation::{ObservationKind, ObservationKindView, texts};
use crate::text::{clone_opt_string, decimal, opt_text, u64_to_decimal};

verus! {

/// The print in progress.
struct ActivePrint {
    filename: String,
    started_at: i64,
    last_progress_milli: i64,
    last_layer: Option<u32>,
    total_layers: Option<u32>,
    paused: bool,
    pause_count: u32,
}

/// The mathematical content of the print in progress.
pub struct ActivePrintView {
    pub filename: Seq<char>,
    pub started_at: i64,
    pub last_progress_milli: i64,
    pub last_layer: Option<u32>,
    pub total_layers: Option<u32>,
    pub paused: bool,
    pub pause_count: u32,
}

/// The mathematical content of a [`PrintTracker`].
pub struct PrintTrackerView {
    pub current: Option<ActivePrintView>,
    pub consecutive_failures: u32,
    pub successful_prints: u32,
}

/// Tracks the lifecycle of prints on one printer.
pub struct PrintTracker {
    current_print: Option<ActivePrint>,
    consecutive_failures: u32,
    successful_prints: u32,
}

impl View for PrintTracker {
    type V = PrintTrackerView;

    closed spec fn view(&self) -> PrintTrackerView {
        PrintTrackerView {
            current: match self.current_print {
                Some(p) => Some(
                    ActivePrintView {
                        filename: p.filename@,
                        started_at: p.started_at,
                        last_progress_milli: p.last_progress_milli,
                        last_layer: p.last_layer,
                        total_layers: p.total_layers,
                        paused: p.paused,
                        pause_count: p.pause_count,
                    },
                ),
                None => None,
            },
            consecutive_failures: self.consecutive_failures,
            successful_prints: self.successful_prints,
        }
    }
}

/// `x + 1`, held at the type's maximum.
pub open spec fn bump(x: u32) -> u32 {
    if x == u32::MAX { x } else { (x + 1) as u32 }
}

/// `x` held within the range of `i64`.
pub open spec fn clamp_i64(x: int) -> i64 {
    if x > i64::MAX { i64::MAX } else if x < i64::MIN { i64::MIN } else { x as i64 }
}

pub open spec fn pause_highlight(n: u32) -> Seq<char> {
    "paused "@ + decimal(n as nat) + " time(s)"@
}

pub open spec fn failure_highlight(n: u32) -> Seq<char> {
    decimal(n as nat) + " consecutive failure(s)"@
}

/// The highlights of a finished print: its pauses, and the failure
/// streak (when longer than one) after it.
pub open spec fn highlights_of(print: Option<ActivePrintView>, streak: u32) -> Seq<Seq<char>> {
    match print {
        None => seq![],
        Some(p) => (if p.pause_count > 0 { seq![pause_highlight(p.pause_count)] } else { seq![] })
            + (if streak > 1 { seq![failure_highlight(streak)] } else { seq![] }),
    }
}

/// The tracker and the summary after the current print ends, in
/// success or not.
pub open spec fn finish_spec(
    t: PrintTrackerView,
    success: bool,
    duration_ms: Option<i64>,
    filament_used_milli: Option<i64>,
    failure_reason: Option<Seq<char>>,
) -> (PrintTrackerView, ObservationKindView) {
    let streak = if success { 0u32 } else { bump(t.consecutive_failures) };
    let next = PrintTrackerView {
        current: None,
        consecutive_failures: streak,
        successful_prints: if success { bump(t.successful_prints) } else { t.successful_prints },
    };
    let summary = ObservationKindView::PrintSummary {
        filename: match t.current {
            Some(p) => p.filename,
            None => Seq::empty(),
        },
        success,
        duration_ms: match duration_ms {
            Some(d) => d,
            None => 0,
        },
        filament_used_milli,
        total_layers: match t.current {
            Some(p) => p.total_layers,
            None => None,
        },
        failure_reason,
        highlights: highlights_of(t.current, streak),
    };
    (next, summary)
}

/// How the tracker moves on an envelope, and what it reports.
pub open spec fn tracker_step(t: PrintTrackerView, e: Envelope) -> (
    PrintTrackerView,
    Option<ObservationKindView>,
) {
    match e.payload {
        Event::PrintStarted { filename, .. } => (
            PrintTrackerView {
                current: Some(
                    ActivePrintView {
                        filename: filename@,
                        started_at: e.timestamp,
                        last_progress_milli: 0,
                        last_layer: None,
                        total_layers: None,
                        paused: false,
                        pause_count: 0,
                    },
                ),
                ..t
            },
            Some(ObservationKindView::PrintStarted { filename: filename@ }),
        ),
        Event::PrintProgress { progress_milli, current_layer, total_layers, .. } => (
            PrintTrackerView {
                current: match t.current {
                    Some(p) => Some(
                        ActivePrintView {
                            last_progress_milli: progress_milli,
                            last_layer: current_layer,
                            total_layers,
                            ..p
                        },
                    ),
                    None => None,
                },
                ..t
            },
            None,
        ),
        Event::PrintPaused { .. } => (
            PrintTrackerView {
                current: match t.current {
                    Some(p) => Some(
                        ActivePrintView { paused: true, pause_count: bump(p.pause_count), ..p },
                    ),
                    None => None,
                },
                ..t
            },
            None,
        ),
        Event::PrintResumed => (
            PrintTrackerView {
                current: match t.current {
                    Some(p) => Some(ActivePrintView { paused: false, ..p }),
                    None => None,
                },
                ..t
            },
            None,
        ),
        Event::PrintCompleted { total_time_ms, filament_used_milli } => {
            let (n, s) = finish_spec(t, true, Some(total_time_ms), filament_used_milli, None);
            (n, Some(s))
        },
        Event::PrintFailed { reason } => {
            let duration = match t.current {
                Some(p) => clamp_i64(e.timestamp - p.started_at),
                None => 0,
            };
            let (n, s) = finish_spec(t, false, Some(duration), None, opt_text(reason));
            (n, Some(s))
        },
        Event::PrintCancelled => {
            let (n, s) = finish_spec(t, false, None, None, Some("cancelled"@));
            (n, Some(s))
        },
        _ => (t, None),
    }
}

fn bump_exec(x: u32) -> (y: u32)
    ensures
        y == bump(x),
{
    if x == u32::MAX { x } else { x + 1 }
}

impl PrintTracker {
    pub fn new() -> (t: Self)
        ensures
            t@ == (PrintTrackerView { current: None, consecutive_failures: 0, successful_prints: 0 }),
    {
        PrintTracker { current_print: None, consecutive_failures: 0, successful_prints: 0 }
    }

    /// Processes an envelope; returns an observation when a print starts
    /// or ends.
    pub fn process(&mut self, envelope: &Envelope) -> (res: Option<ObservationKind>)
        ensures
            (final(self)@, match res { Some(k) => Some(k@), None => None }) == tracker_step(
                old(self)@,
                *envelope,
            ),
    {
        match &envelope.payload {
            Event::PrintStarted { filename, .. } => {
                self.current_print = Some(
                    ActivePrint {
                        filename: filename.clone(),
                        started_at: envelope.timestamp,
                        last_progress_milli: 0,
                        last_layer: None,
                        total_layers: None,
                        paused: false,
                        pause_count: 0,
                    },
                );
                Some(ObservationKind::PrintStarted { filename: filename.clone() })
            },
            Event::PrintProgress { progress_milli, current_layer, total_layers, .. } => {
                match &mut self.current_print {
                    Some(p) => {
                        p.last_progress_milli = *progress_milli;
                        p.last_layer = *current_layer;
                        p.total_layers = *total_layers;
                    },
                    None => {},
                }
                None
            },
            Event::PrintPaused { .. } => {
                match &mut self.current_print {
                    Some(p) => {
                        p.paused = true;
                        p.pause_count = bump_exec(p.pause_count);
                    },
                    None => {},
                }
                None
            },
            Event::PrintResumed => {
                match &mut self.current_print {
                    Some(p) => {
                        p.paused = false;
                    },
                    None => {},
                }
                None
            },
            Event::PrintCompleted { total_time_ms, filament_used_milli } => {
                Some(self.finish_print(true, Some(*total_time_ms), *filament_used_milli, None))
            },
            Event::PrintFailed { reason } => {
                let duration: i64 = match &self.current_print {
                    Some(p) => {
                        let d: i128 = (envelope.timestamp as i128) - (p.started_at as i128);
                        if d > i64::MAX as i128 {
                            i64::MAX
                        } else if d < i64::MIN as i128 {
                            i64::MIN
                        } else {
                            d as i64
                        }
                    },
                    None => 0,
                };
                Some(self.finish_print(false, Some(duration), None, clone_opt_string(reason)))
            },
            Event::PrintCancelled => {
                proof {
                    reveal_strlit("cancelled");
                }
                Some(self.finish_print(false, None, None, Some(String::from_str("cancelled"))))
            },
            _ => None,
        }
    }

    fn finish_print(
        &mut self,
        success: bool,
        duration_ms: Option<i64>,
        filament_used_milli: Option<i64>,
        failure_reason: Option<String>,
    ) -> (summary: ObservationKind)
        ensures
            (final(self)@, summary@) == finish_spec(
                old(self)@,
                success,
                duration_ms,
                filament_used_milli,
                opt_text(failure_reason),
            ),
    {
        let ghost before = self@;
        let print = self.current_print.take();
        let filename = match &print {
            Some(p) => p.filename.clone(),
            None => String::new(),
        };
        let duration = match duration_ms {
            Some(d) => d,
            None => 0,
        };
        let total_layers = match &print {
            Some(p) => p.total_layers,
            None => None,
        };
        if success {
            self.successful_prints = bump_exec(self.successful_prints);
            self.consecutive_failures = 0;
        } else {
            self.consecutive_failures = bump_exec(self.consecutive_failures);
        }
        let mut highlights: Vec<String> = Vec::new();
        match &print {
            Some(p) => {
                if p.pause_count > 0 {
                    highlights.push(
                        String::from_str("paused ").concat(
                            u64_to_decimal(p.pause_count as u64).as_str(),
                        ).concat(" time(s)"),
                    );
                }
                if self.consecutive_failures > 1 {
                    highlights.push(
                        u64_to_decimal(self.consecutive_failures as u64).concat(
                            " consecutive failure(s)",
                        ),
                    );
                }
            },
            None => {},
        }
        let summary = ObservationKind::PrintSummary {
            filename,
            success,
            duration_ms: duration,
            filament_used_milli,
            total_layers,
            failure_reason,
            highlights,
        };
        proof {
            assert(texts(highlights@) =~= highlights_of(before.current, self.consecutive_failures));
        }
        summary
    }

    /// Prints that failed in a row since the last success.
    pub fn consecutive_failures(&self) -> (n: u32)
        ensures
            n == self@.consecutive_failures,
    {
        self.consecutive_failures
    }

    /// Whether a print is in progress.
    pub fn is_printing(&self) -> (b: bool)
        ensures
            b == (self@.current is Some),
    {
        self.current_print.is_some()
    }
}

} // verus!
