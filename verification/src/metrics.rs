//! Rolling health counters for one printer.
//!
//! The counters are exact integers; the fractional health scores derived
//! from them (temperature stability, success rate, average duration) are
//! computed by the application layer from these counters.

use vstd::prelude::*;

use crate::event::{Envelope, Event};
use crate::rules::deviation_total;

verus! {

/// The mathematical content of [`HealthMetrics`]. Every count saturates
/// at its type's maximum.
pub struct HealthMetricsView {
    pub event_count: u64,
    pub temp_update_count: u64,
    pub temp_deviation_milli: u128,
    pub error_count: u64,
    pub warning_count: u64,
    pub completed_count: u64,
    pub failed_count: u64,
    pub connect_count: u64,
    pub print_duration_ms_total: i128,
    pub print_duration_count: u64,
}

/// Rolling health counters for a single printer.
pub struct HealthMetrics {
    event_count: u64,
    temp_update_count: u64,
    temp_deviation_milli: u128,
    error_count: u64,
    warning_count: u64,
    completed_count: u64,
    failed_count: u64,
    connect_count: u64,
    print_duration_ms_total: i128,
    print_duration_count: u64,
}

impl View for HealthMetrics {
    type V = HealthMetricsView;

    closed spec fn view(&self) -> HealthMetricsView {
        HealthMetricsView {
            event_count: self.event_count,
            temp_update_count: self.temp_update_count,
            temp_deviation_milli: self.temp_deviation_milli,
            error_count: self.error_count,
            warning_count: self.warning_count,
            completed_count: self.completed_count,
            failed_count: self.failed_count,
            connect_count: self.connect_count,
            print_duration_ms_total: self.print_duration_ms_total,
            print_duration_count: self.print_duration_count,
        }
    }
}

/// `x + 1`, held at `u64::MAX`.
pub open spec fn inc(x: u64) -> u64 {
    if x == u64::MAX { x } else { (x + 1) as u64 }
}

/// `a + b`, held at `u128::MAX`.
pub open spec fn add_capped(a: u128, b: nat) -> u128 {
    if a + b > u128::MAX { u128::MAX } else { (a + b) as u128 }
}

/// `a + b`, held within the range of `i128`.
pub open spec fn add_clamped(a: i128, b: i64) -> i128 {
    if a + b > i128::MAX { i128::MAX } else if a + b < i128::MIN { i128::MIN } else { (a + b) as i128 }
}

/// How the counters move on one envelope.
pub open spec fn metrics_step(m: HealthMetricsView, e: Envelope) -> HealthMetricsView {
    let m = HealthMetricsView { event_count: inc(m.event_count), ..m };
    match e.payload {
        Event::TemperatureUpdate { temperatures } => HealthMetricsView {
            temp_update_count: inc(m.temp_update_count),
            temp_deviation_milli: add_capped(m.temp_deviation_milli, deviation_total(temperatures@)),
            ..m
        },
        Event::Error { .. } => HealthMetricsView { error_count: inc(m.error_count), ..m },
        Event::Warning { .. } => HealthMetricsView { warning_count: inc(m.warning_count), ..m },
        Event::PrintCompleted { total_time_ms, .. } => HealthMetricsView {
            completed_count: inc(m.completed_count),
            print_duration_ms_total: add_clamped(m.print_duration_ms_total, total_time_ms),
            print_duration_count: inc(m.print_duration_count),
            ..m
        },
        Event::PrintFailed { .. } => HealthMetricsView { failed_count: inc(m.failed_count), ..m },
        _ => m,
    }
}

fn inc_exec(x: u64) -> (y: u64)
    ensures
        y == inc(x),
{
    if x == u64::MAX { x } else { x + 1 }
}

impl HealthMetrics {
    pub fn new() -> (m: Self)
        ensures
            m@ == (HealthMetricsView {
                event_count: 0,
                temp_update_count: 0,
                temp_deviation_milli: 0,
                error_count: 0,
                warning_count: 0,
                completed_count: 0,
                failed_count: 0,
                connect_count: 0,
                print_duration_ms_total: 0,
                print_duration_count: 0,
            }),
    {
        HealthMetrics {
            event_count: 0,
            temp_update_count: 0,
            temp_deviation_milli: 0,
            error_count: 0,
            warning_count: 0,
            completed_count: 0,
            failed_count: 0,
            connect_count: 0,
            print_duration_ms_total: 0,
            print_duration_count: 0,
        }
    }

    /// Feeds one event into the counters.
    pub fn process(&mut self, envelope: &Envelope)
        ensures
            final(self)@ == metrics_step(old(self)@, *envelope),
    {
        self.event_count = inc_exec(self.event_count);
        match &envelope.payload {
            Event::TemperatureUpdate { temperatures } => {
                self.temp_update_count = inc_exec(self.temp_update_count);
                let mut sum: u128 = self.temp_deviation_milli;
                let ghost start = self.temp_deviation_milli;
                let mut j: usize = 0;
                while j < temperatures.len()
                    invariant
                        j <= temperatures@.len(),
                        sum == add_capped(start, deviation_total(temperatures@.subrange(0, j as int))),
                    decreases temperatures@.len() - j,
                {
                    assert(temperatures@.subrange(0, j + 1).drop_last() =~= temperatures@.subrange(0, j as int));
                    let t = &temperatures[j];
                    let diff: i128 = (t.current_milli as i128) - (t.target_milli as i128);
                    let d: u128 = if diff >= 0 { diff as u128 } else { (-diff) as u128 };
                    sum = sum.saturating_add(d);
                    j = j + 1;
                }
                assert(temperatures@.subrange(0, j as int) =~= temperatures@);
                self.temp_deviation_milli = sum;
            },
            Event::Error { .. } => {
                self.error_count = inc_exec(self.error_count);
            },
            Event::Warning { .. } => {
                self.warning_count = inc_exec(self.warning_count);
            },
            Event::PrintCompleted { total_time_ms, .. } => {
                self.completed_count = inc_exec(self.completed_count);
                self.print_duration_ms_total = match self.print_duration_ms_total.checked_add(
                    *total_time_ms as i128,
                ) {
                    Some(v) => v,
                    None => if *total_time_ms > 0 { i128::MAX } else { i128::MIN },
                };
                self.print_duration_count = inc_exec(self.print_duration_count);
            },
            Event::PrintFailed { .. } => {
                self.failed_count = inc_exec(self.failed_count);
            },
            _ => {},
        }
    }

    /// Records a printer connection.
    pub fn record_connect(&mut self)
        ensures
            final(self)@ == (HealthMetricsView {
                connect_count: inc(old(self)@.connect_count),
                ..old(self)@
            }),
    {
        self.connect_count = inc_exec(self.connect_count);
    }

    pub fn error_count(&self) -> (n: u64)
        ensures
            n == self@.error_count,
    {
        self.error_count
    }

    pub fn warning_count(&self) -> (n: u64)
        ensures
            n == self@.warning_count,
    {
        self.warning_count
    }

    /// Completed and failed prints, the inputs of the success rate.
    pub fn print_outcomes(&self) -> (r: (u64, u64))
        ensures
            r == (self@.completed_count, self@.failed_count),
    {
        (self.completed_count, self.failed_count)
    }

    /// Temperature updates and their summed deviation in thousandths of
    /// a degree, the inputs of the temperature stability score.
    pub fn temperature_totals(&self) -> (r: (u64, u128))
        ensures
            r == (self@.temp_update_count, self@.temp_deviation_milli),
    {
        (self.temp_update_count, self.temp_deviation_milli)
    }

    /// Completed prints with a duration and their summed duration in
    /// milliseconds, the inputs of the average print duration.
    pub fn duration_totals(&self) -> (r: (u64, i128))
        ensures
            r == (self@.print_duration_count, self@.print_duration_ms_total),
    {
        (self.print_duration_count, self.print_duration_ms_total)
    }
}

} // verus!
