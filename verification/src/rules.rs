//! Detection rules: deterministic analysis of a window of recent events.
//!
//! Each rule examines the window and returns at most one detection. The
//! [`DetectionEngine`] runs all of them in a fixed order.

use vstd::prelude::*;
use vstd::string::*;

use crate::event::{Envelope, Event, Temperature};
use crate::observation::{AnomalyCategory, Detection, DetectionView, Severity, detection_views, texts};
use crate::text::{clone_opt_string, debug_option_text, debug_text, decimal, hundredths_text, hundredths_to_text, opt_text, str_eq, tenths_text, tenths_to_text, u64_to_decimal, u128_to_decimal};

verus! {

/// Error and warning events, counted together, that trigger a warning.
pub const ERROR_WARNING_THRESHOLD: u64 = 5;

/// Error and warning events, counted together, that trigger a critical alert.
pub const ERROR_CRITICAL_THRESHOLD: u64 = 15;

/// How many of the most recent events the error rule looks at.
pub const ERROR_WINDOW_SIZE: usize = 100;

/// Consecutive failures that trigger a warning.
pub const CONSECUTIVE_WARNING: u64 = 2;

/// Consecutive failures that trigger a critical alert.
pub const CONSECUTIVE_CRITICAL: u64 = 5;

/// Seconds since the last calibration that trigger a warning (7 days).
pub const STALE_WARNING_SECS: i64 = 604800;

/// Seconds since the last calibration that trigger a critical alert (30 days).
pub const STALE_CRITICAL_SECS: i64 = 2592000;

/// Average deviation from target, in thousandths of a degree, above which
/// temperatures are unstable (3.0 °C).
pub const MAX_DEVIATION_MILLI: u128 = 3000;

/// Average deviation above which instability is critical (6.0 °C).
pub const CRITICAL_DEVIATION_MILLI: u128 = 6000;

/// Temperature updates needed before the temperature rule judges.
pub const MIN_SAMPLES: u64 = 10;

// ── Error frequency ────────────────────────────────────────────────

/// The number of `Error` events in `s`.
pub open spec fn error_events(s: Seq<Envelope>) -> nat
    decreases s.len(),
{
    if s.len() == 0 {
        0
    } else {
        error_events(s.drop_last()) + if s.last().payload is Error { 1nat } else { 0nat }
    }
}

/// The number of `Warning` events in `s`.
pub open spec fn warning_events(s: Seq<Envelope>) -> nat
    decreases s.len(),
{
    if s.len() == 0 {
        0
    } else {
        warning_events(s.drop_last()) + if s.last().payload is Warning { 1nat } else { 0nat }
    }
}

/// The last (at most) 100 events of a window.
pub open spec fn recent_events(s: Seq<Envelope>) -> Seq<Envelope> {
    if s.len() > 100 {
        s.subrange(s.len() - 100, s.len() as int)
    } else {
        s
    }
}

pub open spec fn error_rate_message(critical: bool, errors: nat, warnings: nat) -> Seq<char> {
    (if critical { "Excessive errors: "@ } else { "Elevated error rate: "@ }) + decimal(errors)
        + " errors and "@ + decimal(warnings) + " warnings in last 100 events"@
}

pub open spec fn error_rate_evidence(errors: nat, warnings: nat) -> Seq<char> {
    "error_count="@ + decimal(errors) + ", warning_count="@ + decimal(warnings)
        + ", window_size=100"@
}

/// What the error frequency rule finds in a window.
pub open spec fn error_frequency_findings(window: Seq<Envelope>) -> Seq<DetectionView> {
    let recent = recent_events(window);
    let e = error_events(recent);
    let w = warning_events(recent);
    if e + w >= 15 {
        seq![DetectionView {
            category: AnomalyCategory::ExcessiveErrors,
            severity: Severity::Critical,
            message: error_rate_message(true, e, w),
            evidence: seq![error_rate_evidence(e, w)],
        }]
    } else if e + w >= 5 {
        seq![DetectionView {
            category: AnomalyCategory::ExcessiveErrors,
            severity: Severity::Warning,
            message: error_rate_message(false, e, w),
            evidence: seq![error_rate_evidence(e, w)],
        }]
    } else {
        seq![]
    }
}

/// The error frequency rule: only the last 100 events count; it
/// reports at most one finding, of excessive errors, from 5 errors and
/// warnings together, and that finding is critical from 15.
pub proof fn lemma_error_frequency_rule(window: Seq<Envelope>)
    ensures
        error_frequency_findings(window) == error_frequency_findings(recent_events(window)),
        ({
            let r = recent_events(window);
            let n = error_events(r) + warning_events(r);
            let found = error_frequency_findings(window);
            &&& found.len() == if n >= ERROR_WARNING_THRESHOLD { 1int } else { 0int }
            &&& n >= ERROR_WARNING_THRESHOLD ==> found[0].category == AnomalyCategory::ExcessiveErrors && (found[0].severity
                == Severity::Critical <==> n >= ERROR_CRITICAL_THRESHOLD)
        }),
{
    assert(recent_events(recent_events(window)) =~= recent_events(window));
}

/// Flags error or warning events above their normal rate.
pub struct ErrorFrequencyRule;

impl ErrorFrequencyRule {
    pub fn new() -> (rule: Self) {
        ErrorFrequencyRule
    }

    /// Counts errors and warnings among the last 100 events.
    pub fn analyze(&self, window: &[Envelope]) -> (res: Vec<Detection>)
        ensures
            detection_views(res@) == error_frequency_findings(window@),
    {
        let len = window.len();
        let start: usize = if len > ERROR_WINDOW_SIZE { len - ERROR_WINDOW_SIZE } else { 0 };
        let mut errors: u64 = 0;
        let mut warnings: u64 = 0;
        let mut i = start;
        while i < len
            invariant
                start <= i <= len,
                len == window@.len(),
                len - start <= 100,
                errors == error_events(window@.subrange(start as int, i as int)),
                warnings == warning_events(window@.subrange(start as int, i as int)),
                errors <= i - start,
                warnings <= i - start,
            decreases len - i,
        {
            assert(window@.subrange(start as int, i + 1).drop_last() =~= window@.subrange(
                start as int,
                i as int,
            ));
            match &window[i].payload {
                Event::Error { .. } => {
                    errors = errors + 1;
                },
                Event::Warning { .. } => {
                    warnings = warnings + 1;
                },
                _ => {},
            }
            i = i + 1;
        }
        assert(window@.subrange(start as int, len as int) =~= recent_events(window@));
        let total = errors + warnings;
        if total >= ERROR_CRITICAL_THRESHOLD {
            let d = error_rate_detection(Severity::Critical, errors, warnings);
            let mut res = Vec::new();
            res.push(d);
            proof {
                assert(detection_views(res@) =~= error_frequency_findings(window@));
            }
            res
        } else if total >= ERROR_WARNING_THRESHOLD {
            let d = error_rate_detection(Severity::Warning, errors, warnings);
            let mut res = Vec::new();
            res.push(d);
            proof {
                assert(detection_views(res@) =~= error_frequency_findings(window@));
            }
            res
        } else {
            let res = Vec::new();
            proof {
                assert(detection_views(res@) =~= error_frequency_findings(window@));
            }
            res
        }
    }
}

fn error_rate_detection(severity: Severity, errors: u64, warnings: u64) -> (d: Detection)
    ensures
        d@ == (DetectionView {
            category: AnomalyCategory::ExcessiveErrors,
            severity,
            message: error_rate_message(severity == Severity::Critical, errors as nat, warnings as nat),
            evidence: seq![error_rate_evidence(errors as nat, warnings as nat)],
        }),
{
    let head = if severity == Severity::Critical {
        String::from_str("Excessive errors: ")
    } else {
        String::from_str("Elevated error rate: ")
    };
    let e = u64_to_decimal(errors);
    let w = u64_to_decimal(warnings);
    let message = head.concat(e.as_str()).concat(" errors and ").concat(w.as_str()).concat(
        " warnings in last 100 events",
    );
    let ev = String::from_str("error_count=").concat(e.as_str()).concat(", warning_count=").concat(
        w.as_str(),
    ).concat(", window_size=100");
    let mut evidence = Vec::new();
    evidence.push(ev);
    let d = Detection { category: AnomalyCategory::ExcessiveErrors, severity, message, evidence };
    proof {
        assert(texts(d.evidence@) =~= seq![error_rate_evidence(errors as nat, warnings as nat)]);
    }
    d
}


// ── Failure pattern ────────────────────────────────────────────────

/// Print failures at the end of `s`, counted back to the last print
/// start or completion; other events in between are skipped.
pub open spec fn trailing_failures(s: Seq<Envelope>) -> nat
    decreases s.len(),
{
    if s.len() == 0 {
        0
    } else {
        match s.last().payload {
            Event::PrintFailed { .. } => trailing_failures(s.drop_last()) + 1,
            Event::PrintCompleted { .. } | Event::PrintStarted { .. } => 0,
            _ => trailing_failures(s.drop_last()),
        }
    }
}

/// The reason of the most recent failure in that trailing run that has
/// one.
pub open spec fn trailing_failure_reason(s: Seq<Envelope>) -> Option<Seq<char>>
    decreases s.len(),
{
    if s.len() == 0 {
        None
    } else {
        match s.last().payload {
            Event::PrintFailed { reason } => match reason {
                Some(r) => Some(r@),
                None => trailing_failure_reason(s.drop_last()),
            },
            Event::PrintCompleted { .. } | Event::PrintStarted { .. } => None,
            _ => trailing_failure_reason(s.drop_last()),
        }
    }
}

pub open spec fn failure_message(critical: bool, n: nat, reason: Option<Seq<char>>) -> Seq<char> {
    if critical {
        decimal(n) + " consecutive print failures detected. Last reason: "@ + match reason {
            Some(r) => r,
            None => "unknown"@,
        }
    } else {
        decimal(n) + " consecutive print failures detected"@
    }
}

pub open spec fn failure_evidence(n: nat, reason: Option<Seq<char>>) -> Seq<char> {
    "consecutive_failures="@ + decimal(n) + ", last_reason="@ + debug_text(reason)
}

/// What the failure pattern rule finds in a window.
pub open spec fn failure_pattern_findings(window: Seq<Envelope>) -> Seq<DetectionView> {
    let n = trailing_failures(window);
    let r = trailing_failure_reason(window);
    if n >= 5 {
        seq![DetectionView {
            category: AnomalyCategory::RepeatedFailures,
            severity: Severity::Critical,
            message: failure_message(true, n, r),
            evidence: seq![failure_evidence(n, r)],
        }]
    } else if n >= 2 {
        seq![DetectionView {
            category: AnomalyCategory::RepeatedFailures,
            severity: Severity::Warning,
            message: failure_message(false, n, r),
            evidence: seq![failure_evidence(n, r)],
        }]
    } else {
        seq![]
    }
}

/// The failure pattern rule: it reports at most one finding, of
/// repeated failures, from 2 failures in a row and critical from 5; a
/// failure lengthens the run by one, and a print start or completion
/// ends it, so right after one there is no finding.
pub proof fn lemma_failure_pattern_rule(window: Seq<Envelope>, e: Envelope)
    ensures
        ({
            let n = trailing_failures(window);
            let found = failure_pattern_findings(window);
            &&& found.len() == if n >= CONSECUTIVE_WARNING { 1int } else { 0int }
            &&& n >= CONSECUTIVE_WARNING ==> found[0].category == AnomalyCategory::RepeatedFailures && (found[0].severity
                == Severity::Critical <==> n >= CONSECUTIVE_CRITICAL)
        }),
        e.payload is PrintFailed ==> trailing_failures(window.push(e)) == trailing_failures(window) + 1,
        e.payload is PrintStarted || e.payload is PrintCompleted ==> failure_pattern_findings(window.push(e)).len() == 0,
{
    assert(window.push(e).drop_last() =~= window);
}

/// Flags prints that fail again and again.
pub struct FailurePatternRule;

impl FailurePatternRule {
    pub fn new() -> (rule: Self) {
        FailurePatternRule
    }

    /// Counts consecutive failures from the end of the window backwards.
    pub fn analyze(&self, window: &[Envelope]) -> (res: Vec<Detection>)
        ensures
            detection_views(res@) == failure_pattern_findings(window@),
    {
        let mut consecutive: u64 = 0;
        let mut last_reason: Option<String> = None;
        let mut i = window.len();
        assert(window@.subrange(0, i as int) =~= window@);
        while i > 0
            invariant_except_break
                i <= window@.len(),
                consecutive <= window@.len() - i,
                trailing_failures(window@) == consecutive + trailing_failures(
                    window@.subrange(0, i as int),
                ),
                trailing_failure_reason(window@) == match opt_text(last_reason) {
                    Some(r) => Some(r),
                    None => trailing_failure_reason(window@.subrange(0, i as int)),
                },
            ensures
                trailing_failures(window@) == consecutive,
                trailing_failure_reason(window@) == opt_text(last_reason),
                consecutive <= window@.len(),
            decreases i,
        {
            let ghost prefix = window@.subrange(0, i as int);
            assert(prefix.drop_last() =~= window@.subrange(0, i - 1));
            assert(prefix.last() == window@[i - 1]);
            match &window[i - 1].payload {
                Event::PrintFailed { reason } => {
                    consecutive = consecutive + 1;
                    if last_reason.is_none() {
                        last_reason = clone_opt_string(reason);
                    }
                },
                Event::PrintCompleted { .. } | Event::PrintStarted { .. } => {
                    break;
                },
                _ => {},
            }
            i = i - 1;
        }
        if i == 0 {
            assert(window@.subrange(0, 0) =~= Seq::<Envelope>::empty());
        }
        if consecutive >= CONSECUTIVE_CRITICAL {
            let d = failure_detection(Severity::Critical, consecutive, &last_reason);
            let mut res = Vec::new();
            res.push(d);
            proof {
                assert(detection_views(res@) =~= failure_pattern_findings(window@));
            }
            res
        } else if consecutive >= CONSECUTIVE_WARNING {
            let d = failure_detection(Severity::Warning, consecutive, &last_reason);
            let mut res = Vec::new();
            res.push(d);
            proof {
                assert(detection_views(res@) =~= failure_pattern_findings(window@));
            }
            res
        } else {
            let res = Vec::new();
            proof {
                assert(detection_views(res@) =~= failure_pattern_findings(window@));
            }
            res
        }
    }
}

fn failure_detection(severity: Severity, n: u64, reason: &Option<String>) -> (d: Detection)
    ensures
        d@ == (DetectionView {
            category: AnomalyCategory::RepeatedFailures,
            severity,
            message: failure_message(severity == Severity::Critical, n as nat, opt_text(*reason)),
            evidence: seq![failure_evidence(n as nat, opt_text(*reason))],
        }),
{
    let count = u64_to_decimal(n);
    let message = if severity == Severity::Critical {
        let why = match reason {
            Some(r) => r.clone(),
            None => String::from_str("unknown"),
        };
        count.clone().concat(" consecutive print failures detected. Last reason: ").concat(
            why.as_str(),
        )
    } else {
        count.clone().concat(" consecutive print failures detected")
    };
    let dbg = debug_option_text(reason);
    let ev = String::from_str("consecutive_failures=").concat(count.as_str()).concat(
        ", last_reason=",
    ).concat(dbg.as_str());
    let mut evidence = Vec::new();
    evidence.push(ev);
    let d = Detection { category: AnomalyCategory::RepeatedFailures, severity, message, evidence };
    proof {
        assert(texts(d.evidence@) =~= seq![failure_evidence(n as nat, opt_text(*reason))]);
    }
    d
}

// ── Calibration staleness ──────────────────────────────────────────

/// Whether an event reports a calibration: a raw Moonraker
/// `notify_gcode_response`.
pub open spec fn is_calibration_event(e: Event) -> bool {
    match e {
        Event::Raw { namespace, key, .. } => namespace@ == "moonraker"@ && match key {
            Some(k) => k@ == "notify_gcode_response"@,
            None => false,
        },
        _ => false,
    }
}

/// The timestamp of the last calibration event in `s`.
pub open spec fn last_calibration(s: Seq<Envelope>) -> Option<i64>
    decreases s.len(),
{
    if s.len() == 0 {
        None
    } else if is_calibration_event(s.last().payload) {
        Some(s.last().timestamp)
    } else {
        last_calibration(s.drop_last())
    }
}

/// Whole seconds from `from` to `to` (milliseconds), rounded toward zero.
pub open spec fn whole_seconds_between(from: i64, to: i64) -> int {
    if to >= from {
        (to - from) / 1000
    } else {
        -((from - to) / 1000)
    }
}

pub open spec fn stale_message(critical: bool, elapsed: int) -> Seq<char> {
    let days = elapsed / 86400;
    if critical {
        "Calibration is "@ + decimal((days - 30) as nat) + " days overdue. Last calibration was "@
            + decimal(days as nat) + " days ago."@
    } else {
        "Printer hasn't been calibrated in "@ + decimal(days as nat)
            + " days. Consider running calibration."@
    }
}

pub open spec fn stale_evidence(elapsed: int) -> Seq<char> {
    "seconds_since_calibration="@ + decimal(elapsed as nat)
}

/// What the calibration staleness rule finds in a window at time `now`.
pub open spec fn calibration_findings(window: Seq<Envelope>, now: i64) -> Seq<DetectionView> {
    match last_calibration(window) {
        None => seq![],
        Some(ts) => {
            let elapsed = whole_seconds_between(ts, now);
            if elapsed > 2592000 {
                seq![DetectionView {
                    category: AnomalyCategory::CalibrationOverdue,
                    severity: Severity::Critical,
                    message: stale_message(true, elapsed),
                    evidence: seq![stale_evidence(elapsed)],
                }]
            } else if elapsed > 604800 {
                seq![DetectionView {
                    category: AnomalyCategory::CalibrationOverdue,
                    severity: Severity::Warning,
                    message: stale_message(false, elapsed),
                    evidence: seq![stale_evidence(elapsed)],
                }]
            } else {
                seq![]
            }
        },
    }
}

/// Later is never less stale: whole seconds since a time grow with the
/// time they are measured at.
proof fn lemma_whole_seconds_monotone(from: i64, to1: i64, to2: i64)
    requires
        to1 <= to2,
    ensures
        whole_seconds_between(from, to1) <= whole_seconds_between(from, to2),
{
    if to1 >= from {
        assert((to1 - from) / 1000 <= (to2 - from) / 1000) by (nonlinear_arith)
            requires
                0 <= to1 - from <= to2 - from,
        ;
    } else if to2 >= from {
    } else {
        assert((from - to2) / 1000 <= (from - to1) / 1000) by (nonlinear_arith)
            requires
                0 < from - to2 <= from - to1,
        ;
    }
}

/// The calibration staleness rule: without a calibration in the window
/// there is no finding; otherwise at most one, a warning once more than
/// 7 days have passed and critical after 30; and staleness only grows:
/// a finding at one time stays at any later time, critical if it was.
pub proof fn lemma_calibration_staleness_rule(window: Seq<Envelope>, now1: i64, now2: i64)
    requires
        now1 <= now2,
    ensures
        last_calibration(window) is None ==> calibration_findings(window, now1).len() == 0,
        calibration_findings(window, now1).len() <= 1,
        last_calibration(window) matches Some(ts) ==> {
            let elapsed = whole_seconds_between(ts, now1);
            &&& calibration_findings(window, now1).len() == if elapsed > STALE_WARNING_SECS { 1int } else { 0int }
            &&& elapsed > STALE_WARNING_SECS ==> calibration_findings(window, now1)[0].category
                == AnomalyCategory::CalibrationOverdue && (calibration_findings(window, now1)[0].severity
                == Severity::Critical <==> elapsed > STALE_CRITICAL_SECS)
        },
        calibration_findings(window, now1).len() == 1 ==> calibration_findings(window, now2).len() == 1,
        calibration_findings(window, now1).len() == 1 && calibration_findings(window, now1)[0].severity
            == Severity::Critical ==> calibration_findings(window, now2)[0].severity == Severity::Critical,
{
    if let Some(ts) = last_calibration(window) {
        lemma_whole_seconds_monotone(ts, now1, now2);
    }
}

fn is_calibration(e: &Event) -> (b: bool)
    ensures
        b == is_calibration_event(*e),
{
    match e {
        Event::Raw { namespace, key, .. } => {
            if !str_eq(namespace, "moonraker") {
                return false;
            }
            match key {
                Some(k) => str_eq(k, "notify_gcode_response"),
                None => false,
            }
        },
        _ => false,
    }
}

/// Flags a printer that has not been calibrated recently.
pub struct CalibrationStalenessRule;

impl CalibrationStalenessRule {
    pub fn new() -> (rule: Self) {
        CalibrationStalenessRule
    }

    /// Judges the time since the last calibration event, as of the
    /// current time on this machine's clock.
    pub fn analyze(&self, window: &[Envelope]) -> (res: Vec<Detection>)
        ensures
            exists|now: i64| detection_views(res@) == #[trigger] calibration_findings(window@, now),
    {
        let now = crate::clock::now_millis();
        self.analyze_at(window, now)
    }

    /// Judges the time from the last calibration event to `now`
    /// (milliseconds since the Unix epoch).
    pub fn analyze_at(&self, window: &[Envelope], now: i64) -> (res: Vec<Detection>)
        ensures
            detection_views(res@) == calibration_findings(window@, now),
    {
        let mut i = window.len();
        let mut found: Option<i64> = None;
        assert(window@.subrange(0, i as int) =~= window@);
        while i > 0
            invariant_except_break
                i <= window@.len(),
                found is None,
                last_calibration(window@) == last_calibration(window@.subrange(0, i as int)),
            ensures
                last_calibration(window@) == found,
            decreases i,
        {
            let ghost prefix = window@.subrange(0, i as int);
            assert(prefix.drop_last() =~= window@.subrange(0, i - 1));
            if is_calibration(&window[i - 1].payload) {
                found = Some(window[i - 1].timestamp);
                break;
            }
            i = i - 1;
        }
        if i == 0 && found.is_none() {
            assert(window@.subrange(0, 0) =~= Seq::<Envelope>::empty());
        }
        match found {
            None => {
                let res = Vec::new();
                proof {
                    assert(detection_views(res@) =~= calibration_findings(window@, now));
                }
                res
            },
            Some(ts) => {
                let diff: i128 = (now as i128) - (ts as i128);
                let elapsed: i128 = if diff >= 0 { diff / 1000 } else { -((-diff) / 1000) };
                assert(elapsed == whole_seconds_between(ts, now));
                if elapsed > STALE_CRITICAL_SECS as i128 {
                    let d = stale_detection(Severity::Critical, elapsed as u64);
                    let mut res = Vec::new();
                    res.push(d);
                    proof {
                        assert(detection_views(res@) =~= calibration_findings(window@, now));
                    }
                    res
                } else if elapsed > STALE_WARNING_SECS as i128 {
                    let d = stale_detection(Severity::Warning, elapsed as u64);
                    let mut res = Vec::new();
                    res.push(d);
                    proof {
                        assert(detection_views(res@) =~= calibration_findings(window@, now));
                    }
                    res
                } else {
                    let res = Vec::new();
                    proof {
                        assert(detection_views(res@) =~= calibration_findings(window@, now));
                    }
                    res
                }
            },
        }
    }
}

fn stale_detection(severity: Severity, elapsed: u64) -> (d: Detection)
    requires
        elapsed > 604800,
        severity == Severity::Critical ==> elapsed > 2592000,
    ensures
        d@ == (DetectionView {
            category: AnomalyCategory::CalibrationOverdue,
            severity,
            message: stale_message(severity == Severity::Critical, elapsed as int),
            evidence: seq![stale_evidence(elapsed as int)],
        }),
{
    let days = elapsed / 86400;
    let message = if severity == Severity::Critical {
        String::from_str("Calibration is ").concat(u64_to_decimal(days - 30).as_str()).concat(
            " days overdue. Last calibration was ",
        ).concat(u64_to_decimal(days).as_str()).concat(" days ago.")
    } else {
        String::from_str("Printer hasn't been calibrated in ").concat(
            u64_to_decimal(days).as_str(),
        ).concat(" days. Consider running calibration.")
    };
    let ev = String::from_str("seconds_since_calibration=").concat(
        u64_to_decimal(elapsed).as_str(),
    );
    let mut evidence = Vec::new();
    evidence.push(ev);
    let d = Detection { category: AnomalyCategory::CalibrationOverdue, severity, message, evidence };
    proof {
        assert(texts(d.evidence@) =~= seq![stale_evidence(elapsed as int)]);
    }
    d
}


// ── Temperature stability ──────────────────────────────────────────

/// How far a reading is from its target, in thousandths of a degree.
pub open spec fn deviation(t: Temperature) -> nat {
    if t.current_milli >= t.target_milli {
        (t.current_milli - t.target_milli) as nat
    } else {
        (t.target_milli - t.current_milli) as nat
    }
}

/// The summed deviation of a list of readings.
pub open spec fn deviation_total(ts: Seq<Temperature>) -> nat
    decreases ts.len(),
{
    if ts.len() == 0 {
        0
    } else {
        deviation_total(ts.drop_last()) + deviation(ts.last())
    }
}

/// The number of temperature readings in a window.
pub open spec fn reading_count(s: Seq<Envelope>) -> nat
    decreases s.len(),
{
    if s.len() == 0 {
        0
    } else {
        reading_count(s.drop_last()) + match s.last().payload {
            Event::TemperatureUpdate { temperatures } => temperatures@.len(),
            _ => 0,
        }
    }
}

/// The summed deviation of all temperature readings in a window.
pub open spec fn reading_deviation(s: Seq<Envelope>) -> nat
    decreases s.len(),
{
    if s.len() == 0 {
        0
    } else {
        reading_deviation(s.drop_last()) + match s.last().payload {
            Event::TemperatureUpdate { temperatures } => deviation_total(temperatures@),
            _ => 0,
        }
    }
}

/// `total / count / unit`, rounded half up.
pub open spec fn rounded_mean(total: nat, count: nat, unit: nat) -> nat {
    total / (count * unit) + if total % (count * unit) >= (count * unit) / 2 { 1nat } else { 0nat }
}

pub open spec fn temperature_message(total: nat, count: nat) -> Seq<char> {
    "Temperature instability detected: average deviation "@ + tenths_text(
        rounded_mean(total, count, 100),
    ) + "°C from target over "@ + decimal(count) + " readings"@
}

pub open spec fn temperature_evidence(total: nat, count: nat) -> Seq<char> {
    "avg_deviation="@ + hundredths_text(rounded_mean(total, count, 10))
        + "°C, threshold=3.0°C, sample_count="@ + decimal(count)
}

/// The number of temperature updates in a window.
pub open spec fn update_count(s: Seq<Envelope>) -> nat
    decreases s.len(),
{
    if s.len() == 0 {
        0
    } else {
        update_count(s.drop_last()) + if s.last().payload is TemperatureUpdate { 1nat } else { 0nat }
    }
}

/// What the temperature stability rule finds in a window: at least ten
/// temperature updates, whose readings deviate from target by more than
/// 3 °C on average (critical above 6 °C). The average is printed rounded
/// half up.
pub open spec fn temperature_findings(window: Seq<Envelope>) -> Seq<DetectionView> {
    let n = reading_count(window);
    let total = reading_deviation(window);
    if update_count(window) < 10 || total <= 3000 * n {
        seq![]
    } else {
        seq![DetectionView {
            category: AnomalyCategory::TemperatureInstability,
            severity: if total > 6000 * n { Severity::Critical } else { Severity::Warning },
            message: temperature_message(total, n),
            evidence: seq![temperature_evidence(total, n)],
        }]
    }
}

/// The temperature stability rule: with fewer than 10 temperature
/// updates, or a mean deviation (over every reading) of at most 3 °C,
/// there is no finding; otherwise one finding of temperature
/// instability, critical when the mean deviation exceeds 6 °C. The
/// means are compared exactly: `total > 3000 * n` is `total / n > 3000`.
pub proof fn lemma_temperature_rule(window: Seq<Envelope>)
    ensures
        ({
            let n = reading_count(window);
            let total = reading_deviation(window);
            let found = temperature_findings(window);
            &&& found.len() == 0 <==> (update_count(window) < MIN_SAMPLES || total <= MAX_DEVIATION_MILLI * n)
            &&& found.len() <= 1
            &&& found.len() == 1 ==> found[0].category == AnomalyCategory::TemperatureInstability && (found[0].severity
                == Severity::Critical <==> total > CRITICAL_DEVIATION_MILLI * n)
        }),
{
}

/// Flags temperatures that oscillate around their target.
pub struct TemperatureStabilityRule;

impl TemperatureStabilityRule {
    pub fn new() -> (rule: Self) {
        TemperatureStabilityRule
    }

    /// Averages the deviation of every reading in the window.
    pub fn analyze(&self, window: &[Envelope]) -> (res: Vec<Detection>)
        requires
            reading_count(window@) <= u64::MAX,
        ensures
            detection_views(res@) == temperature_findings(window@),
    {
        let mut count: u64 = 0;
        let mut updates: usize = 0;
        let mut total: u128 = 0;
        let mut i: usize = 0;
        proof {
            lemma_reading_count_prefix(window@, 0);
        }
        while i < window.len()
            invariant
                i <= window@.len(),
                reading_count(window@) <= u64::MAX,
                updates == update_count(window@.subrange(0, i as int)),
                updates <= i,
                count == reading_count(window@.subrange(0, i as int)),
                total == reading_deviation(window@.subrange(0, i as int)),
                total <= count * 0xffff_ffff_ffff_ffffnat,
            decreases window@.len() - i,
        {
            let ghost before = window@.subrange(0, i as int);
            assert(window@.subrange(0, i + 1).drop_last() =~= before);
            proof {
                lemma_reading_count_prefix(window@, i + 1);
            }
            match &window[i].payload {
                Event::TemperatureUpdate { temperatures } => {
                    let mut j: usize = 0;
                    while j < temperatures.len()
                        invariant
                            j <= temperatures@.len(),
                            count == reading_count(before) + j,
                            reading_count(before) + temperatures@.len() <= u64::MAX,
                            total == reading_deviation(before) + deviation_total(
                                temperatures@.subrange(0, j as int),
                            ),
                            total <= count * 0xffff_ffff_ffff_ffffnat,
                        decreases temperatures@.len() - j,
                    {
                        assert(temperatures@.subrange(0, j + 1).drop_last() =~= temperatures@.subrange(0, j as int));
                        let t = &temperatures[j];
                        let diff: i128 = (t.current_milli as i128) - (t.target_milli as i128);
                        let d: u128 = if diff >= 0 { diff as u128 } else { (-diff) as u128 };
                        assert(d == deviation(*t));
                        assert(d <= 0xffff_ffff_ffff_ffff);
                        proof {
                            assert((count + 1) * 0xffff_ffff_ffff_ffffnat == count * 0xffff_ffff_ffff_ffffnat + 0xffff_ffff_ffff_ffffnat) by (nonlinear_arith);
                            assert((count + 1) * 0xffff_ffff_ffff_ffffnat <= 0xffff_ffff_ffff_ffffnat * 0xffff_ffff_ffff_ffffnat) by (nonlinear_arith)
                                requires count + 1 <= 0xffff_ffff_ffff_ffffnat;
                        }
                        total = total + d;
                        count = count + 1;
                        j = j + 1;
                    }
                    assert(temperatures@.subrange(0, j as int) =~= temperatures@);
                    updates = updates + 1;
                },
                _ => {},
            }
            i = i + 1;
        }
        assert(window@.subrange(0, i as int) =~= window@);
        if (updates as u64) < MIN_SAMPLES || total <= MAX_DEVIATION_MILLI * (count as u128) {
            let res = Vec::new();
            proof {
                assert(detection_views(res@) =~= temperature_findings(window@));
            }
            return res;
        }
        let severity = if total > CRITICAL_DEVIATION_MILLI * (count as u128) {
            Severity::Critical
        } else {
            Severity::Warning
        };
        let n = count as u128;
        let tenths = total / (n * 100) + if total % (n * 100) >= (n * 100) / 2 { 1 } else { 0 };
        let hundredths = total / (n * 10) + if total % (n * 10) >= (n * 10) / 2 { 1 } else { 0 };
        let message = String::from_str("Temperature instability detected: average deviation ").concat(
            tenths_to_text(tenths).as_str(),
        ).concat("°C from target over ").concat(u64_to_decimal(count).as_str()).concat(" readings");
        let ev = String::from_str("avg_deviation=").concat(hundredths_to_text(hundredths).as_str()).concat(
            "°C, threshold=3.0°C, sample_count=",
        ).concat(u64_to_decimal(count).as_str());
        let mut evidence = Vec::new();
        evidence.push(ev);
        let d = Detection {
            category: AnomalyCategory::TemperatureInstability,
            severity,
            message,
            evidence,
        };
        let mut res = Vec::new();
        res.push(d);
        proof {
            assert(texts(d.evidence@) =~= seq![temperature_evidence(total as nat, count as nat)]);
            assert(detection_views(res@) =~= temperature_findings(window@));
        }
        res
    }
}

/// Reading counts only grow along a window.
pub proof fn lemma_reading_count_prefix(s: Seq<Envelope>, k: int)
    requires
        0 <= k <= s.len(),
    ensures
        reading_count(s.subrange(0, k)) <= reading_count(s),
    decreases s.len() - k,
{
    if k < s.len() {
        lemma_reading_count_prefix(s, k + 1);
        assert(s.subrange(0, k + 1).drop_last() =~= s.subrange(0, k));
    } else {
        assert(s.subrange(0, k) =~= s);
    }
}


// ── Engine ─────────────────────────────────────────────────────────

/// Everything the rules find in a window at time `now`, in rule order:
/// temperature, errors, failures, calibration.
pub open spec fn all_findings(window: Seq<Envelope>, now: i64) -> Seq<DetectionView> {
    temperature_findings(window) + error_frequency_findings(window) + failure_pattern_findings(
        window,
    ) + calibration_findings(window, now)
}

/// Runs all detection rules over an event window.
pub struct DetectionEngine {
    temp_rule: TemperatureStabilityRule,
    error_rule: ErrorFrequencyRule,
    failure_rule: FailurePatternRule,
    cal_rule: CalibrationStalenessRule,
}

impl DetectionEngine {
    pub fn new() -> (engine: Self) {
        DetectionEngine {
            temp_rule: TemperatureStabilityRule::new(),
            error_rule: ErrorFrequencyRule::new(),
            failure_rule: FailurePatternRule::new(),
            cal_rule: CalibrationStalenessRule::new(),
        }
    }

    /// Runs all rules against the window, judging calibration age as of
    /// the current time on this machine's clock.
    pub fn analyze(&mut self, window: &[Envelope]) -> (res: Vec<Detection>)
        requires
            reading_count(window@) <= u64::MAX,
        ensures
            exists|now: i64| detection_views(res@) == #[trigger] all_findings(window@, now),
    {
        let now = crate::clock::now_millis();
        self.analyze_at(window, now)
    }

    /// Runs all rules against the window, judging calibration age as of
    /// `now` (milliseconds since the Unix epoch).
    pub fn analyze_at(&mut self, window: &[Envelope], now: i64) -> (res: Vec<Detection>)
        requires
            reading_count(window@) <= u64::MAX,
        ensures
            detection_views(res@) == all_findings(window@, now),
    {
        let mut res = self.temp_rule.analyze(window);
        let mut e = self.error_rule.analyze(window);
        let mut f = self.failure_rule.analyze(window);
        let mut c = self.cal_rule.analyze_at(window, now);
        let ghost r0 = res@;
        let ghost e0 = e@;
        let ghost f0 = f@;
        let ghost c0 = c@;
        res.append(&mut e);
        let ghost r1 = res@;
        res.append(&mut f);
        let ghost r2 = res@;
        res.append(&mut c);
        proof {
            assert(r1 =~= r0 + e0);
            assert(r2 =~= r1 + f0);
            assert(res@ =~= r2 + c0);
            assert(detection_views(r0 + e0) =~= detection_views(r0) + detection_views(e0));
            assert(detection_views(r1 + f0) =~= detection_views(r1) + detection_views(f0));
            assert(detection_views(r2 + c0) =~= detection_views(r2) + detection_views(c0));
        }
        res
    }
}

} // verus!
