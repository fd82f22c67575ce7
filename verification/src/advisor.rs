//! Telemetry detections that may warrant advice, and the advice given
//! for each kind of detection.

use vstd::prelude::*;
use vstd::string::*;

use crate::event::{Envelope, Event, Temperature};
use crate::observation::texts;
use crate::text::{decimal, digit_char};

verus! {

/// What kind of condition was detected.
#[derive(PartialEq, Eq, Structural, Clone, Copy)]
pub enum DetectionCategory {
    TemperatureInstability,
    RingingGhosting,
    FirstLayerFailure,
    LayerShift,
    ExtrusionIssue,
    BedAdhesion,
    MechanicalAnomaly,
    CalibrationNeeded,
}

/// How serious a detection is.
#[derive(PartialEq, Eq, Structural, Clone, Copy)]
pub enum Severity {
    Info,
    Warning,
    Critical,
}

/// A condition detected in telemetry.
pub struct Detection {
    pub printer_id: String,
    pub category: DetectionCategory,
    pub severity: Severity,
    pub evidence: Vec<String>,
}

/// How far a temperature may stray from its target: 5 degrees, in
/// thousandths.
pub const MAX_DELTA_MILLI: i64 = 5000;

/// The heater power above which straying counts: 90, in thousandths.
pub const MIN_POWER_MILLI: i64 = 90_000;

/// `n` (below 1000) as `width` digits with leading zeros.
pub open spec fn padded(n: nat, width: nat) -> Seq<char> {
    if width == 3 {
        seq![digit_char(n / 100), digit_char((n / 10) % 10), digit_char(n % 10)]
    } else if width == 2 {
        seq![digit_char(n / 10), digit_char(n % 10)]
    } else {
        seq![digit_char(n)]
    }
}

/// A value in thousandths written as a plain decimal number, without
/// trailing zeros in its fraction: `210000` as `210`, `205500` as
/// `205.5`.
pub open spec fn milli_number(v: int) -> Seq<char> {
    let a: nat = if v < 0 { (-v) as nat } else { v as nat };
    let whole = decimal(a / 1000);
    let f = a % 1000;
    let frac: Seq<char> = if f == 0 {
        Seq::empty()
    } else if f % 100 == 0 {
        seq!['.'] + padded(f / 100, 1)
    } else if f % 10 == 0 {
        seq!['.'] + padded(f / 10, 2)
    } else {
        seq!['.'] + padded(f, 3)
    };
    (if v < 0 { seq!['-'] } else { Seq::empty() }) + whole + frac
}

fn digit_text(d: u64) -> (s: String)
    requires
        d < 10,
    ensures
        s@ == seq![digit_char(d as nat)],
{
    crate::text::u64_to_decimal(d)
}

fn padded_text(n: u64, width: u64) -> (s: String)
    requires
        n < 1000,
        1 <= width <= 3,
        width == 1 ==> n < 10,
        width == 2 ==> n < 100,
    ensures
        s@ == padded(n as nat, width as nat),
{
    if width == 3 {
        let s = digit_text(n / 100).concat(digit_text((n / 10) % 10).as_str()).concat(digit_text(n % 10).as_str());
        s
    } else if width == 2 {
        digit_text(n / 10).concat(digit_text(n % 10).as_str())
    } else {
        digit_text(n)
    }
}

/// Writes a value in thousandths as a plain decimal number.
pub fn milli_number_text(v: i128) -> (s: String)
    requires
        -0x1_0000_0000_0000_0000_0000 < v < 0x1_0000_0000_0000_0000_0000,
    ensures
        s@ == milli_number(v as int),
{
    proof {
        reveal_strlit("-");
        reveal_strlit(".");
        reveal_strlit("");
    }
    let a: u128 = if v < 0 {
        (-v) as u128
    } else {
        v as u128
    };
    let whole = crate::text::u128_to_decimal(a / 1000);
    let f = (a % 1000) as u64;
    let frac = if f == 0 {
        String::new()
    } else if f % 100 == 0 {
        String::from_str(".").concat(padded_text(f / 100, 1).as_str())
    } else if f % 10 == 0 {
        String::from_str(".").concat(padded_text(f / 10, 2).as_str())
    } else {
        String::from_str(".").concat(padded_text(f, 3).as_str())
    };
    let sign = if v < 0 {
        String::from_str("-")
    } else {
        String::new()
    };
    sign.concat(whole.as_str()).concat(frac.as_str())
}

/// How far a reading strays from its target.
pub open spec fn delta_of(t: Temperature) -> int {
    let d = t.current_milli - t.target_milli;
    if d < 0 { -d } else { d }
}

/// Whether a reading is oscillating: more than 5 degrees off target
/// while the heater runs above 90 (power counts as 0 when unknown).
pub open spec fn oscillating(t: Temperature) -> bool {
    delta_of(t) > MAX_DELTA_MILLI && match t.power_milli {
        Some(p) => p > MIN_POWER_MILLI,
        None => false,
    }
}

/// The evidence of an oscillating reading.
pub open spec fn oscillation_evidence(t: Temperature) -> Seq<char> {
    t.sensor@ + " oscillating: target="@ + milli_number(t.target_milli as int) + " actual="@ + milli_number(
        t.current_milli as int,
    ) + " delta="@ + milli_number(delta_of(t))
}

/// The detections of the first `n` readings.
pub open spec fn temperature_detections(printer_id: Seq<char>, temps: Seq<Temperature>, n: int) -> Seq<DetectionView>
    decreases n,
{
    if n <= 0 {
        Seq::empty()
    } else if oscillating(temps[n - 1]) {
        temperature_detections(printer_id, temps, n - 1).push(
            DetectionView {
                printer_id,
                category: DetectionCategory::TemperatureInstability,
                severity: Severity::Warning,
                evidence: seq![oscillation_evidence(temps[n - 1])],
            },
        )
    } else {
        temperature_detections(printer_id, temps, n - 1)
    }
}

/// The mathematical content of a detection.
pub struct DetectionView {
    pub printer_id: Seq<char>,
    pub category: DetectionCategory,
    pub severity: Severity,
    pub evidence: Seq<Seq<char>>,
}

impl View for Detection {
    type V = DetectionView;

    open spec fn view(&self) -> DetectionView {
        DetectionView {
            printer_id: self.printer_id@,
            category: self.category,
            severity: self.severity,
            evidence: texts(self.evidence@),
        }
    }
}

/// The views of a sequence of detections.
pub open spec fn detection_views(v: Seq<Detection>) -> Seq<DetectionView> {
    v.map_values(|d: Detection| d@)
}

/// What an envelope reveals: an oscillation detection per oscillating
/// temperature reading; nothing for other events.
pub open spec fn detections_of(e: Envelope) -> Seq<DetectionView> {
    match e.payload {
        Event::TemperatureUpdate { temperatures } => temperature_detections(
            e.printer_id@,
            temperatures@,
            temperatures@.len() as int,
        ),
        _ => Seq::empty(),
    }
}

/// Detects conditions in one envelope.
pub fn detect(envelope: &Envelope) -> (res: Vec<Detection>)
    ensures
        detection_views(res@) == detections_of(*envelope),
{
    let mut res: Vec<Detection> = Vec::new();
    match &envelope.payload {
        Event::TemperatureUpdate { temperatures } => {
            let mut i: usize = 0;
            while i < temperatures.len()
                invariant
                    i <= temperatures@.len(),
                    detection_views(res@) == temperature_detections(
                        envelope.printer_id@,
                        temperatures@,
                        i as int,
                    ),
                decreases temperatures@.len() - i,
            {
                let t = &temperatures[i];
                let d: i128 = (t.current_milli as i128) - (t.target_milli as i128);
                let delta: i128 = if d < 0 {
                    -d
                } else {
                    d
                };
                let hot = match t.power_milli {
                    Some(p) => p > MIN_POWER_MILLI,
                    None => false,
                };
                if delta > MAX_DELTA_MILLI as i128 && hot {
                    proof {
                        reveal_strlit(" oscillating: target=");
                        reveal_strlit(" actual=");
                        reveal_strlit(" delta=");
                    }
                    let delta_text = milli_number_text(delta);
                    let text = t.sensor.clone().concat(" oscillating: target=").concat(
                        milli_number_text(t.target_milli as i128).as_str(),
                    ).concat(" actual=").concat(milli_number_text(t.current_milli as i128).as_str()).concat(" delta=").concat(
                        delta_text.as_str(),
                    );
                    let mut evidence: Vec<String> = Vec::new();
                    evidence.push(text);
                    let det = Detection {
                        printer_id: envelope.printer_id.clone(),
                        category: DetectionCategory::TemperatureInstability,
                        severity: Severity::Warning,
                        evidence,
                    };
                    let ghost before = detection_views(res@);
                    res.push(det);
                    assert(texts(det.evidence@) =~= seq![text@]);
                    assert(detection_views(res@) =~= before.push(det@));
                }
                i = i + 1;
            }
        },
        _ => {},
    }
    assert(detection_views(res@) =~= detections_of(*envelope));
    res
}

/// Advice for a detected condition. The confidence is in thousandths.
pub struct Recommendation {
    pub printer_id: String,
    pub category: String,
    pub message: String,
    pub confidence_milli: i64,
    pub action_items: Vec<String>,
}

/// The mathematical content of a recommendation.
pub struct RecommendationView {
    pub printer_id: Seq<char>,
    pub category: Seq<char>,
    pub message: Seq<char>,
    pub confidence_milli: i64,
    pub action_items: Seq<Seq<char>>,
}

impl View for Recommendation {
    type V = RecommendationView;

    open spec fn view(&self) -> RecommendationView {
        RecommendationView {
            printer_id: self.printer_id@,
            category: self.category@,
            message: self.message@,
            confidence_milli: self.confidence_milli,
            action_items: texts(self.action_items@),
        }
    }
}

/// The advice for a kind of condition, for a printer.
pub open spec fn advice_for(c: DetectionCategory, printer_id: Seq<char>) -> RecommendationView {
    match c {
        DetectionCategory::TemperatureInstability => RecommendationView {
            printer_id,
            category: "thermal"@,
            message: "Your heater PID may need tuning. Temperature is oscillating significantly."@,
            confidence_milli: 750,
            action_items: seq![
                "Run PID_CALIBRATE HEATER=extruder TARGET=220"@,
                "Run PID_CALIBRATE HEATER=heater_bed TARGET=60"@,
                "Save with SAVE_CONFIG"@,
            ],
        },
        DetectionCategory::RingingGhosting => RecommendationView {
            printer_id,
            category: "mechanical"@,
            message: "Your acceleration appears too aggressive for this machine."@,
            confidence_milli: 700,
            action_items: seq![
                "Reduce max acceleration by 20%"@,
                "Check belt tension"@,
                "Consider input shaping calibration"@,
            ],
        },
        DetectionCategory::FirstLayerFailure => RecommendationView {
            printer_id,
            category: "calibration"@,
            message: "Your Z offset may be incorrect. Repeated first layer failures detected."@,
            confidence_milli: 650,
            action_items: seq![
                "Run PROBE_CALIBRATE"@,
                "Adjust Z offset in smaller increments"@,
                "Clean and re-level bed"@,
            ],
        },
        _ => RecommendationView {
            printer_id,
            category: "general"@,
            message: "An issue was detected. Review the printer logs for more detail."@,
            confidence_milli: 500,
            action_items: seq!["Review recent print history"@],
        },
    }
}

fn texts_vec3(a: &str, b: &str, c: &str) -> (v: Vec<String>)
    ensures
        texts(v@) == seq![a@, b@, c@],
{
    let mut v: Vec<String> = Vec::new();
    v.push(String::from_str(a));
    v.push(String::from_str(b));
    v.push(String::from_str(c));
    assert(texts(v@) =~= seq![a@, b@, c@]);
    v
}

fn advice(d: &Detection) -> (r: Recommendation)
    ensures
        r@ == advice_for(d.category, d.printer_id@),
{
    match d.category {
        DetectionCategory::TemperatureInstability => Recommendation {
            printer_id: d.printer_id.clone(),
            category: String::from_str("thermal"),
            message: String::from_str("Your heater PID may need tuning. Temperature is oscillating significantly."),
            confidence_milli: 750,
            action_items: texts_vec3(
                "Run PID_CALIBRATE HEATER=extruder TARGET=220",
                "Run PID_CALIBRATE HEATER=heater_bed TARGET=60",
                "Save with SAVE_CONFIG",
            ),
        },
        DetectionCategory::RingingGhosting => Recommendation {
            printer_id: d.printer_id.clone(),
            category: String::from_str("mechanical"),
            message: String::from_str("Your acceleration appears too aggressive for this machine."),
            confidence_milli: 700,
            action_items: texts_vec3(
                "Reduce max acceleration by 20%",
                "Check belt tension",
                "Consider input shaping calibration",
            ),
        },
        DetectionCategory::FirstLayerFailure => Recommendation {
            printer_id: d.printer_id.clone(),
            category: String::from_str("calibration"),
            message: String::from_str("Your Z offset may be incorrect. Repeated first layer failures detected."),
            confidence_milli: 650,
            action_items: texts_vec3(
                "Run PROBE_CALIBRATE",
                "Adjust Z offset in smaller increments",
                "Clean and re-level bed",
            ),
        },
        _ => {
            let mut items: Vec<String> = Vec::new();
            items.push(String::from_str("Review recent print history"));
            assert(texts(items@) =~= seq!["Review recent print history"@]);
            Recommendation {
                printer_id: d.printer_id.clone(),
                category: String::from_str("general"),
                message: String::from_str("An issue was detected. Review the printer logs for more detail."),
                confidence_milli: 500,
                action_items: items,
            }
        },
    }
}

/// The advice for each kind of condition, spelled out: temperature
/// instability asks for PID tuning of both heaters (thermal, 750), ringing
/// for gentler acceleration (mechanical, 700), first-layer failures for a
/// new Z offset (calibration, 650), and every other condition for a
/// general review of the print history (general, 500); the advice is
/// always for the detection's printer.
pub proof fn lemma_advice_by_category(c: DetectionCategory, printer_id: Seq<char>)
    ensures
        advice_for(c, printer_id).printer_id == printer_id,
        c == DetectionCategory::TemperatureInstability ==> advice_for(c, printer_id) == (RecommendationView {
            printer_id,
            category: "thermal"@,
            message: "Your heater PID may need tuning. Temperature is oscillating significantly."@,
            confidence_milli: 750,
            action_items: seq![
                "Run PID_CALIBRATE HEATER=extruder TARGET=220"@,
                "Run PID_CALIBRATE HEATER=heater_bed TARGET=60"@,
                "Save with SAVE_CONFIG"@,
            ],
        }),
        c == DetectionCategory::RingingGhosting ==> advice_for(c, printer_id) == (RecommendationView {
            printer_id,
            category: "mechanical"@,
            message: "Your acceleration appears too aggressive for this machine."@,
            confidence_milli: 700,
            action_items: seq![
                "Reduce max acceleration by 20%"@,
                "Check belt tension"@,
                "Consider input shaping calibration"@,
            ],
        }),
        c == DetectionCategory::FirstLayerFailure ==> advice_for(c, printer_id) == (RecommendationView {
            printer_id,
            category: "calibration"@,
            message: "Your Z offset may be incorrect. Repeated first layer failures detected."@,
            confidence_milli: 650,
            action_items: seq![
                "Run PROBE_CALIBRATE"@,
                "Adjust Z offset in smaller increments"@,
                "Clean and re-level bed"@,
            ],
        }),
        c != DetectionCategory::TemperatureInstability && c != DetectionCategory::RingingGhosting && c
            != DetectionCategory::FirstLayerFailure ==> advice_for(c, printer_id) == (RecommendationView {
            printer_id,
            category: "general"@,
            message: "An issue was detected. Review the printer logs for more detail."@,
            confidence_milli: 500,
            action_items: seq!["Review recent print history"@],
        }),
{
}

/// One recommendation per detection, in order: PID tuning for
/// temperature instability, acceleration for ringing, Z offset for
/// first-layer failures, a general review otherwise.
pub fn recommend(detections: &[Detection]) -> (res: Vec<Recommendation>)
    ensures
        res@.len() == detections@.len(),
        forall|i: int|
            0 <= i < detections@.len() ==> (#[trigger] res@[i])@ == advice_for(
                detections@[i].category,
                detections@[i].printer_id@,
            ),
        forall|i: int|
            0 <= i < detections@.len() && detections@[i].category == DetectionCategory::TemperatureInstability
                ==> (#[trigger] res@[i])@.category == "thermal"@ && res@[i]@.confidence_milli == 750
                && res@[i]@.action_items == seq![
                "Run PID_CALIBRATE HEATER=extruder TARGET=220"@,
                "Run PID_CALIBRATE HEATER=heater_bed TARGET=60"@,
                "Save with SAVE_CONFIG"@,
            ],
        forall|i: int|
            0 <= i < detections@.len() && detections@[i].category != DetectionCategory::TemperatureInstability
                && detections@[i].category != DetectionCategory::RingingGhosting && detections@[i].category
                != DetectionCategory::FirstLayerFailure ==> (#[trigger] res@[i])@.category == "general"@
                && res@[i]@.confidence_milli == 500 && res@[i]@.action_items == seq!["Review recent print history"@],
{
    let mut res: Vec<Recommendation> = Vec::new();
    let mut i: usize = 0;
    while i < detections.len()
        invariant
            i <= detections@.len(),
            res@.len() == i,
            forall|j: int|
                0 <= j < i ==> (#[trigger] res@[j])@ == advice_for(detections@[j].category, detections@[j].printer_id@),
        decreases detections@.len() - i,
    {
        res.push(advice(&detections[i]));
        i = i + 1;
    }
    proof {
        assert forall|j: int| 0 <= j < detections@.len() implies #[trigger] res@[j]@ == advice_for(
            detections@[j].category,
            detections@[j].printer_id@,
        ) && (detections@[j].category == DetectionCategory::TemperatureInstability ==> res@[j]@.category
            == "thermal"@) by {
            lemma_advice_by_category(detections@[j].category, detections@[j].printer_id@);
        }
    }
    res
}

} // verus!
