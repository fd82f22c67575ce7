//! The analyzer's per-printer state machine.
//!
//! Each envelope updates its printer's print tracker, health counters
//! and event window, runs the detection rules over the window, and
//! yields the observations to emit. Every hundredth envelope the caller
//! also emits a health snapshot of every printer.

use vstd::prelude::*;

use crate::event::{Envelope, Event};
use crate::metrics::{HealthMetrics, HealthMetricsView, inc, metrics_step};
use crate::observation::{
    Detection,
    DetectionView,
    ObservationKind,
    ObservationKindView,
    detection_views,
};
use crate::print_tracker::{PrintTracker, PrintTrackerView, tracker_step};
use crate::rules::{DetectionEngine, all_findings, reading_count};
use crate::text::round_div;

verus! {

/// Envelopes between two rounds of health snapshots.
pub const HEALTH_SNAPSHOT_INTERVAL: u64 = 100;

/// The most envelopes kept in a printer's detection window.
pub const MAX_EVENT_WINDOW: usize = 1000;

/// The most temperature readings one envelope may carry: 2^52. Each
/// reading holds a `String` and two `i64`s, at least 40 bytes, so a list
/// that long would take more than 2^57 bytes, beyond the virtual address
/// space of today's largest 64-bit machines (2^57 bytes with five-level
/// paging); every envelope that can exist meets it. The bound keeps the
/// exact deviation totals of a full window within 128 bits.
pub const MAX_READINGS: u64 = 4503599627370496;

/// The number of temperature readings an envelope carries.
pub open spec fn readings_in(e: Envelope) -> nat {
    match e.payload {
        Event::TemperatureUpdate { temperatures } => temperatures@.len(),
        _ => 0,
    }
}

/// The mathematical content of one printer's analysis state.
pub struct AnalysisView {
    pub printer_id: Seq<char>,
    pub tracker: PrintTrackerView,
    pub health: HealthMetricsView,
    pub window: Seq<Envelope>,
    pub connected_since: Option<i64>,
}

/// The mathematical content of an [`AnalyzerEngine`].
pub struct AnalyzerView {
    pub printers: Seq<AnalysisView>,
    pub event_count: u64,
}

/// Health counters with nothing recorded.
pub open spec fn zero_metrics() -> HealthMetricsView {
    HealthMetricsView {
        event_count: 0,
        temp_update_count: 0,
        temp_deviation_milli: 0,
        error_count: 0,
        warning_count: 0,
        completed_count: 0,
        failed_count: 0,
        connect_count: 0,
        print_duration_ms_total: 0,
        print_duration_count: 0,
    }
}

/// The state of a printer not seen before.
pub open spec fn fresh_analysis(id: Seq<char>) -> AnalysisView {
    AnalysisView {
        printer_id: id,
        tracker: PrintTrackerView { current: None, consecutive_failures: 0, successful_prints: 0 },
        health: zero_metrics(),
        window: Seq::empty(),
        connected_since: None,
    }
}

/// The window after an envelope: appended, and the oldest dropped when
/// the window is over its limit.
pub open spec fn windowed(w: Seq<Envelope>, e: Envelope) -> Seq<Envelope> {
    let pushed = w.push(e);
    if pushed.len() > MAX_EVENT_WINDOW {
        pushed.subrange(1, pushed.len() as int)
    } else {
        pushed
    }
}

/// A connection sets the connection time and counts a connection; a
/// disconnection clears the time.
pub open spec fn connection_step(p: AnalysisView, e: Envelope) -> (Option<i64>, HealthMetricsView) {
    match e.payload {
        Event::Connected => (
            Some(e.timestamp),
            HealthMetricsView { connect_count: inc(p.health.connect_count), ..p.health },
        ),
        Event::Disconnected { .. } => (None, p.health),
        _ => (p.connected_since, p.health),
    }
}

/// A printer's state after an envelope.
pub open spec fn analysis_step(p: AnalysisView, e: Envelope) -> AnalysisView {
    let (since, health) = connection_step(p, e);
    AnalysisView {
        printer_id: p.printer_id,
        tracker: tracker_step(p.tracker, e).0,
        health: metrics_step(health, e),
        window: windowed(p.window, e),
        connected_since: since,
    }
}

/// The observation that reports a detection.
pub open spec fn anomaly_kind(d: DetectionView) -> ObservationKindView {
    ObservationKindView::AnomalyDetected {
        category: d.category,
        severity: d.severity,
        message: d.message,
        evidence: d.evidence,
    }
}

pub open spec fn kind_views(s: Seq<ObservationKind>) -> Seq<ObservationKindView> {
    s.map_values(|k: ObservationKind| k@)
}

/// What an envelope makes the analyzer emit: the print tracker's
/// observation, if any, then one anomaly per detection over the updated
/// window, judged at time `now`.
pub open spec fn emissions_of(p: AnalysisView, e: Envelope, now: i64) -> Seq<ObservationKindView> {
    (match tracker_step(p.tracker, e).1 {
        Some(o) => seq![o],
        None => Seq::empty(),
    }) + all_findings(windowed(p.window, e), now).map_values(|d: DetectionView| anomaly_kind(d))
}

/// Where a printer's state is kept.
pub open spec fn analysis_index(s: Seq<AnalysisView>, id: Seq<char>) -> Option<int> {
    if exists|i: int| 0 <= i < s.len() && (#[trigger] s[i]).printer_id == id {
        Some(choose|i: int| 0 <= i < s.len() && (#[trigger] s[i]).printer_id == id)
    } else {
        None
    }
}

/// A printer's state before an envelope: its kept state, or a fresh one.
pub open spec fn prior_analysis(s: Seq<AnalysisView>, id: Seq<char>) -> AnalysisView {
    match analysis_index(s, id) {
        Some(i) => s[i],
        None => fresh_analysis(id),
    }
}

/// The success rate in thousandths, rounded; `None` before any print
/// ended.
pub open spec fn success_rate_spec(h: HealthMetricsView) -> Option<i64> {
    let total = h.completed_count + h.failed_count;
    if total == 0 {
        None
    } else {
        Some(round_div(1000 * h.completed_count, total) as i64)
    }
}

/// How long a printer has been connected, in milliseconds (0 when not
/// connected or when the clock is behind).
pub open spec fn uptime_spec(since: Option<i64>, now: i64) -> i64 {
    match since {
        Some(s) => if now <= s {
            0
        } else if now - s > i64::MAX {
            i64::MAX
        } else {
            (now - s) as i64
        },
        None => 0,
    }
}

/// A printer's health snapshot, with its temperature stability as
/// computed by the caller.
pub open spec fn snapshot_of(p: AnalysisView, stability_milli: i64, now: i64) -> ObservationKindView {
    ObservationKindView::HealthSnapshot {
        temperature_stability_milli: stability_milli,
        success_rate_milli: success_rate_spec(p.health),
        recent_error_count: p.health.error_count,
        recent_warning_count: p.health.warning_count,
        seconds_since_calibration: None,
        uptime_ms: uptime_spec(p.connected_since, now),
    }
}

/// The analysis state of one printer.
struct PrinterAnalyzer {
    printer_id: String,
    print_tracker: PrintTracker,
    health: HealthMetrics,
    detection: DetectionEngine,
    event_window: Vec<Envelope>,
    connected_since: Option<i64>,
}

impl PrinterAnalyzer {
    spec fn view_of(&self) -> AnalysisView {
        AnalysisView {
            printer_id: self.printer_id@,
            tracker: self.print_tracker@,
            health: self.health@,
            window: self.event_window@,
            connected_since: self.connected_since,
        }
    }

    /// The window is within its limit, and no envelope in it carries
    /// more readings than allowed.
    spec fn inv(&self) -> bool {
        &&& self.event_window@.len() <= MAX_EVENT_WINDOW
        &&& forall|i: int|
            0 <= i < self.event_window@.len() ==> readings_in(#[trigger] self.event_window@[i]) <= MAX_READINGS
    }

    fn new(printer_id: String) -> (p: Self)
        ensures
            p.view_of() == fresh_analysis(printer_id@),
            p.inv(),
    {
        PrinterAnalyzer {
            printer_id,
            print_tracker: PrintTracker::new(),
            health: HealthMetrics::new(),
            detection: DetectionEngine::new(),
            event_window: Vec::new(),
            connected_since: None,
        }
    }

    fn step(&mut self, envelope: Envelope, now: i64) -> (ems: Vec<ObservationKind>)
        requires
            old(self).inv(),
            readings_in(envelope) <= MAX_READINGS,
        ensures
            final(self).inv(),
            final(self).view_of() == analysis_step(old(self).view_of(), envelope),
            kind_views(ems@) == emissions_of(old(self).view_of(), envelope, now),
    {
        let ghost p0 = self.view_of();
        match &envelope.payload {
            Event::Connected => {
                self.connected_since = Some(envelope.timestamp);
                self.health.record_connect();
            },
            Event::Disconnected { .. } => {
                self.connected_since = None;
            },
            _ => {},
        }
        let print_obs = self.print_tracker.process(&envelope);
        self.health.process(&envelope);
        let ghost w0 = self.event_window@;
        self.event_window.push(envelope);
        if self.event_window.len() > MAX_EVENT_WINDOW {
            self.event_window.remove(0);
            assert(self.event_window@ =~= w0.push(envelope).subrange(1, w0.len() as int + 1));
        }
        assert(self.event_window@ == windowed(w0, envelope));
        assert forall|i: int| 0 <= i < self.event_window@.len() implies readings_in(
            #[trigger] self.event_window@[i],
        ) <= MAX_READINGS by {
            if w0.len() + 1 > MAX_EVENT_WINDOW {
                assert(self.event_window@[i] == w0.push(envelope)[i + 1]);
            } else {
                assert(self.event_window@[i] == w0.push(envelope)[i]);
            }
        }
        proof {
            lemma_reading_bound(self.event_window@);
        }
        let detections = self.detection.analyze_at(self.event_window.as_slice(), now);
        let ghost ds = detections@;
        let mut ems: Vec<ObservationKind> = Vec::new();
        match print_obs {
            Some(o) => ems.push(o),
            None => {},
        }
        let ghost head = kind_views(ems@);
        assert(head == match tracker_step(p0.tracker, envelope).1 {
            Some(o) => seq![o],
            None => Seq::<ObservationKindView>::empty(),
        }) by {
            assert(kind_views(ems@) =~= match tracker_step(p0.tracker, envelope).1 {
                Some(o) => seq![o],
                None => Seq::<ObservationKindView>::empty(),
            });
        }
        let mut dets = detections;
        let ghost mut k: int = 0;
        while dets.len() > 0
            invariant
                0 <= k <= ds.len(),
                dets@ == ds.subrange(k, ds.len() as int),
                kind_views(ems@) == head + detection_views(ds.subrange(0, k)).map_values(
                    |d: DetectionView| anomaly_kind(d),
                ),
            decreases dets@.len(),
        {
            let ghost before = ems@;
            let d = dets.remove(0);
            proof {
                assert(d == ds[k]);
            }
            ems.push(
                ObservationKind::AnomalyDetected {
                    category: d.category,
                    severity: d.severity,
                    message: d.message,
                    evidence: d.evidence,
                },
            );
            proof {
                assert(detection_views(ds.subrange(0, k + 1)).map_values(|d: DetectionView| anomaly_kind(d))
                    =~= detection_views(ds.subrange(0, k)).map_values(|d: DetectionView| anomaly_kind(d)).push(
                    anomaly_kind(ds[k]@),
                ));
                assert(kind_views(ems@) =~= kind_views(before).push(ems@.last()@));
                k = k + 1;
                assert(dets@ =~= ds.subrange(k, ds.len() as int));
            }
        }
        proof {
            assert(ds.subrange(0, k) =~= ds);
        }
        ems
    }
}

/// `reading_count` of a window is at most its length times the
/// per-envelope limit.
proof fn lemma_reading_bound(s: Seq<Envelope>)
    requires
        forall|i: int| 0 <= i < s.len() ==> readings_in(#[trigger] s[i]) <= MAX_READINGS,
    ensures
        reading_count(s) <= s.len() * MAX_READINGS,
    decreases s.len(),
{
    if s.len() > 0 {
        assert forall|i: int| 0 <= i < s.drop_last().len() implies readings_in(
            #[trigger] s.drop_last()[i],
        ) <= MAX_READINGS by {
            assert(s.drop_last()[i] == s[i]);
        }
        lemma_reading_bound(s.drop_last());
        assert(readings_in(s[s.len() - 1]) <= MAX_READINGS);
    }
}

/// A rounded rate in thousandths is at most 1000.
proof fn lemma_rate_bound(c: int, t: int)
    requires
        0 <= c <= t,
        t > 0,
    ensures
        (1000 * c + t / 2) / t <= 1000,
{
    assert((1000 * c + t / 2) / t <= 1000) by (nonlinear_arith)
        requires
            0 <= c <= t,
            t > 0,
    {
        assert(1000 * c + t / 2 < 1001 * t);
    }
}

/// Every printer appears once.
pub open spec fn distinct_analyses(s: Seq<AnalysisView>) -> bool {
    forall|i: int, j: int| 0 <= i < j < s.len() ==> (#[trigger] s[i]).printer_id != (#[trigger] s[j]).printer_id
}

/// The printers' states after an envelope: its printer's state steps, or
/// a fresh state for a new printer steps and is appended.
pub open spec fn printers_after(s: Seq<AnalysisView>, e: Envelope) -> Seq<AnalysisView> {
    match analysis_index(s, e.printer_id@) {
        Some(i) => s.update(i, analysis_step(s[i], e)),
        None => s.push(analysis_step(fresh_analysis(e.printer_id@), e)),
    }
}

/// Each printer is analysed in one place: an envelope changes only its
/// own printer's state, every printer keeps its position, a new printer
/// is added at the end, and no printer appears twice.
pub proof fn lemma_printers_after(s: Seq<AnalysisView>, e: Envelope)
    requires
        distinct_analyses(s),
    ensures
        distinct_analyses(printers_after(s, e)),
        analysis_index(printers_after(s, e), e.printer_id@) is Some,
        printers_after(s, e).len() == s.len() + if analysis_index(s, e.printer_id@) is Some { 0int } else { 1int },
        forall|j: int| 0 <= j < s.len() ==> (#[trigger] printers_after(s, e)[j]).printer_id == s[j].printer_id,
        forall|j: int|
            0 <= j < s.len() && s[j].printer_id != e.printer_id@ ==> #[trigger] printers_after(s, e)[j] == s[j],
{
    let n = printers_after(s, e);
    match analysis_index(s, e.printer_id@) {
        Some(i) => {
            assert(n[i].printer_id == e.printer_id@);
        },
        None => {
            assert(n[s.len() as int].printer_id == e.printer_id@);
            assert forall|i: int, j: int| 0 <= i < j < n.len() implies (#[trigger] n[i]).printer_id != (#[trigger] n[j]).printer_id by {
                if j == s.len() {
                    assert(s[i].printer_id != e.printer_id@);
                }
            }
        },
    }
}

/// What one envelope produced.
pub struct AnalyzerOutput {
    /// The observations to emit for the envelope's printer, in order.
    pub emissions: Vec<ObservationKind>,
    /// Whether a round of health snapshots is due now.
    pub snapshot_due: bool,
}

/// Keeps the analysis state of every printer seen and decides what to
/// emit for each envelope.
pub struct AnalyzerEngine {
    printers: Vec<PrinterAnalyzer>,
    event_count: u64,
}

impl View for AnalyzerEngine {
    type V = AnalyzerView;

    closed spec fn view(&self) -> AnalyzerView {
        AnalyzerView {
            printers: self.printers@.map_values(|p: PrinterAnalyzer| p.view_of()),
            event_count: self.event_count,
        }
    }
}

impl AnalyzerEngine {
    #[verifier::type_invariant]
    closed spec fn well_formed(self) -> bool {
        &&& forall|i: int, j: int|
            0 <= i < self.printers@.len() && 0 <= j < self.printers@.len() && i != j
                ==> (#[trigger] self.printers@[i]).printer_id@ != (#[trigger] self.printers@[j]).printer_id@
        &&& forall|i: int| 0 <= i < self.printers@.len() ==> (#[trigger] self.printers@[i]).inv()
    }

    pub fn new() -> (e: Self)
        ensures
            e@.printers.len() == 0,
            e@.event_count == 0,
    {
        let e = AnalyzerEngine { printers: Vec::new(), event_count: 0 };
        assert(e@.printers =~= Seq::<AnalysisView>::empty());
        e
    }

    /// The number of envelopes processed.
    pub fn event_count(&self) -> (n: u64)
        ensures
            n == self@.event_count,
    {
        self.event_count
    }

    /// The number of printers seen.
    pub fn printer_count(&self) -> (n: usize)
        ensures
            n == self@.printers.len(),
    {
        self.printers.len()
    }

    /// Processes one envelope, judging calibration age as of `now`
    /// (milliseconds since the Unix epoch).
    pub fn process_at(&mut self, envelope: Envelope, now: i64) -> (out: AnalyzerOutput)
        requires
            old(self)@.event_count < u64::MAX,
            readings_in(envelope) <= MAX_READINGS,
        ensures
            distinct_analyses(old(self)@.printers),
            final(self)@.event_count == old(self)@.event_count + 1,
            out.snapshot_due == (final(self)@.event_count % HEALTH_SNAPSHOT_INTERVAL == 0),
            forall|i: int|
                0 <= i < final(self)@.printers.len() ==> (#[trigger] final(self)@.printers[i]).window.len()
                    <= MAX_EVENT_WINDOW,
            kind_views(out.emissions@) == emissions_of(
                prior_analysis(old(self)@.printers, envelope.printer_id@),
                envelope,
                now,
            ),
            final(self)@.printers == match analysis_index(old(self)@.printers, envelope.printer_id@) {
                Some(i) => old(self)@.printers.update(
                    i,
                    analysis_step(old(self)@.printers[i], envelope),
                ),
                None => old(self)@.printers.push(
                    analysis_step(fresh_analysis(envelope.printer_id@), envelope),
                ),
            },
    {
        proof {
            use_type_invariant(&*self);
        }
        let ghost old_views = self@.printers;
        let ghost before0 = self.printers@;
        let ghost id = envelope.printer_id@;
        self.event_count = self.event_count + 1;
        let mut printers: Vec<PrinterAnalyzer> = Vec::new();
        std::mem::swap(&mut printers, &mut self.printers);
        let ghost before = printers@;
        assert(before == before0);
        let found = Self::find_in(&printers, envelope.printer_id.as_str());
        let emissions = match found {
            Some(i) => {
                proof {
                    assert(old_views[i as int].printer_id == id);
                    assert(analysis_index(old_views, id) == Some(i as int)) by {
                        let k = choose|k: int| 0 <= k < old_views.len() && (#[trigger] old_views[k]).printer_id == id;
                        assert(old_views[k].printer_id == id);
                        assert(before[k].printer_id@ == id);
                        assert(before[i as int].printer_id@ == id);
                    }
                }
                let mut pa = printers.remove(i);
                let ghost p0 = pa;
                let ems = pa.step(envelope, now);
                let ghost p1 = pa;
                printers.insert(i, pa);
                proof {
                    crate::tracker::lemma_remove_insert(before, i as int, p1);
                    assert(printers@.map_values(|p: PrinterAnalyzer| p.view_of()) =~= old_views.update(
                        i as int,
                        p1.view_of(),
                    ));
                    assert forall|a: int, b: int|
                        0 <= a < printers@.len() && 0 <= b < printers@.len() && a != b implies (
                    #[trigger] printers@[a]).printer_id@ != (#[trigger] printers@[b]).printer_id@ by {
                        assert(before[a].printer_id@ != before[b].printer_id@);
                    }
                    assert forall|a: int| 0 <= a < printers@.len() implies (#[trigger] printers@[a]).inv() by {
                        if a != i {
                            assert(printers@[a] == before[a]);
                        }
                    }
                }
                ems
            },
            None => {
                proof {
                    assert(analysis_index(old_views, id) is None) by {
                        if exists|k: int| 0 <= k < old_views.len() && (#[trigger] old_views[k]).printer_id == id {
                            let k = choose|k: int| 0 <= k < old_views.len() && (#[trigger] old_views[k]).printer_id == id;
                            assert(before[k].printer_id@ == id);
                        }
                    }
                }
                let mut pa = PrinterAnalyzer::new(envelope.printer_id.clone());
                let ems = pa.step(envelope, now);
                let ghost p1 = pa;
                printers.push(pa);
                proof {
                    assert(printers@.map_values(|p: PrinterAnalyzer| p.view_of()) =~= old_views.push(
                        p1.view_of(),
                    ));
                    assert forall|a: int, b: int|
                        0 <= a < printers@.len() && 0 <= b < printers@.len() && a != b implies (
                    #[trigger] printers@[a]).printer_id@ != (#[trigger] printers@[b]).printer_id@ by {
                        if a < before.len() && b < before.len() {
                            assert(before[a].printer_id@ != before[b].printer_id@);
                        }
                    }
                    assert forall|a: int| 0 <= a < printers@.len() implies (#[trigger] printers@[a]).inv() by {
                        if a < before.len() {
                            assert(printers@[a] == before[a]);
                        }
                    }
                }
                ems
            },
        };
        self.printers = printers;
        proof {
            assert forall|i: int| 0 <= i < self@.printers.len() implies (#[trigger] self@.printers[i]).window.len()
                <= MAX_EVENT_WINDOW by {
                assert(self.printers@[i].inv());
            }
        }
        let snapshot_due = self.event_count % HEALTH_SNAPSHOT_INTERVAL == 0;
        AnalyzerOutput { emissions, snapshot_due }
    }

    fn find_in(printers: &Vec<PrinterAnalyzer>, printer_id: &str) -> (res: Option<usize>)
        ensures
            match res {
                Some(i) => i < printers@.len() && printers@[i as int].printer_id@ == printer_id@,
                None => forall|j: int|
                    0 <= j < printers@.len() ==> (#[trigger] printers@[j]).printer_id@ != printer_id@,
            },
    {
        let key = String::from_str(printer_id);
        let mut i: usize = 0;
        while i < printers.len()
            invariant
                i <= printers@.len(),
                key@ == printer_id@,
                forall|j: int| 0 <= j < i ==> (#[trigger] printers@[j]).printer_id@ != printer_id@,
            decreases printers@.len() - i,
        {
            if printers[i].printer_id == key {
                return Some(i);
            }
            i = i + 1;
        }
        None
    }

    /// Processes one envelope, judging calibration age by this machine's
    /// clock.
    pub fn process(&mut self, envelope: Envelope) -> (out: AnalyzerOutput)
        requires
            old(self)@.event_count < u64::MAX,
            readings_in(envelope) <= MAX_READINGS,
        ensures
            final(self)@.event_count == old(self)@.event_count + 1,
            out.snapshot_due == (final(self)@.event_count % HEALTH_SNAPSHOT_INTERVAL == 0),
            forall|i: int|
                0 <= i < final(self)@.printers.len() ==> (#[trigger] final(self)@.printers[i]).window.len()
                    <= MAX_EVENT_WINDOW,
            exists|now: i64|
                kind_views(out.emissions@) == #[trigger] emissions_of(
                    prior_analysis(old(self)@.printers, envelope.printer_id@),
                    envelope,
                    now,
                ),
            final(self)@.printers == match analysis_index(old(self)@.printers, envelope.printer_id@) {
                Some(i) => old(self)@.printers.update(
                    i,
                    analysis_step(old(self)@.printers[i], envelope),
                ),
                None => old(self)@.printers.push(
                    analysis_step(fresh_analysis(envelope.printer_id@), envelope),
                ),
            },
    {
        proof {
            use_type_invariant(&*self);
            let v = self@.printers;
            assert forall|i: int, j: int| 0 <= i < j < v.len() implies (#[trigger] v[i]).printer_id != (#[trigger] v[j]).printer_id by {
                assert(v[i] == self.printers@[i].view_of());
                assert(v[j] == self.printers@[j].view_of());
            }
        }
        let now = crate::clock::now_millis();
        self.process_at(envelope, now)
    }

    /// Each printer's temperature counters (readings, summed deviation in
    /// thousandths of a degree), in the order of [`Self::health_snapshots`].
    pub fn temperature_totals(&self) -> (r: Vec<(u64, u128)>)
        ensures
            r@.len() == self@.printers.len(),
            forall|i: int|
                0 <= i < r@.len() ==> #[trigger] r@[i] == (
                    self@.printers[i].health.temp_update_count,
                    self@.printers[i].health.temp_deviation_milli,
                ),
    {
        let mut r: Vec<(u64, u128)> = Vec::new();
        let mut i: usize = 0;
        while i < self.printers.len()
            invariant
                i <= self.printers@.len(),
                r@.len() == i,
                forall|j: int|
                    0 <= j < i ==> #[trigger] r@[j] == (
                        self@.printers[j].health.temp_update_count,
                        self@.printers[j].health.temp_deviation_milli,
                    ),
            decreases self.printers@.len() - i,
        {
            r.push(self.printers[i].health.temperature_totals());
            i = i + 1;
        }
        r
    }

    /// A health snapshot of every printer, given each printer's
    /// temperature stability (thousandths) in the same order.
    pub fn health_snapshots(&self, stability_milli: &[i64], now: i64) -> (r: Vec<(String, ObservationKind)>)
        requires
            stability_milli@.len() == self@.printers.len(),
        ensures
            r@.len() == self@.printers.len(),
            forall|i: int|
                0 <= i < r@.len() ==> (#[trigger] r@[i]).0@ == self@.printers[i].printer_id && r@[i].1@
                    == snapshot_of(self@.printers[i], stability_milli@[i], now),
    {
        let mut r: Vec<(String, ObservationKind)> = Vec::new();
        let mut i: usize = 0;
        while i < self.printers.len()
            invariant
                i <= self.printers@.len(),
                stability_milli@.len() == self@.printers.len(),
                r@.len() == i,
                forall|j: int|
                    0 <= j < i ==> (#[trigger] r@[j]).0@ == self@.printers[j].printer_id && r@[j].1@
                        == snapshot_of(self@.printers[j], stability_milli@[j], now),
            decreases self.printers@.len() - i,
        {
            let pa = &self.printers[i];
            let (completed, failed) = pa.health.print_outcomes();
            let total: u128 = completed as u128 + failed as u128;
            let success_rate_milli: Option<i64> = if total == 0 {
                None
            } else {
                let x: u128 = 1000 * (completed as u128);
                let q: u128 = (x + total / 2) / total;
                proof {
                    lemma_rate_bound(completed as int, total as int);
                }
                Some(q as i64)
            };
            let uptime_ms: i64 = match pa.connected_since {
                Some(s) => if now <= s {
                    0
                } else {
                    let d: i128 = (now as i128) - (s as i128);
                    if d > i64::MAX as i128 {
                        i64::MAX
                    } else {
                        d as i64
                    }
                },
                None => 0,
            };
            let kind = ObservationKind::HealthSnapshot {
                temperature_stability_milli: stability_milli[i],
                success_rate_milli,
                recent_error_count: pa.health.error_count(),
                recent_warning_count: pa.health.warning_count(),
                seconds_since_calibration: None,
                uptime_ms,
            };
            r.push((pa.printer_id.clone(), kind));
            i = i + 1;
        }
        r
    }
}

} // verus!
