//! Recommendations derived from what was learned: tuning suggestions,
//! a full calibration plan, and maintenance actions. Every suggestion
//! carries its evidence and awaits human approval.

use vstd::prelude::*;
use vstd::string::*;

use crate::learning::{AgingReport, BehaviorSummary, ComponentHealth, PatternKind, TrendDirection};
use crate::machine::MachineProfile;
use crate::observation::texts;
use crate::text::{contains_text, lowercase, milli_hundredths_text, decimal};

verus! {

/// Input shaping is recalibrated after this many days.
pub const IS_RECALIBRATION_DAYS: i64 = 30;

/// A full calibration is due after this many days.
pub const FULL_CALIBRATION_DAYS: i64 = 14;

/// How many unhealthy components call for a full calibration.
pub const FULL_CALIBRATION_UNHEALTHY: usize = 3;

/// PID tuning applies above this maximum temperature (thousandths).
pub const PID_TUNE_TEMP_MILLI: i64 = 250_000;

/// Below this health a component needs attention (thousandths).
pub const HEALTH_WARNING_MILLI: i64 = 700;

/// Below this health a component is unhealthy (thousandths).
pub const HEALTH_MODERATE_MILLI: i64 = 600;

/// Below this health a component is critical (thousandths).
pub const HEALTH_CRITICAL_MILLI: i64 = 300;

/// What a suggestion tunes.
#[derive(PartialEq, Eq, Structural, Clone, Copy)]
pub enum TuningCategory {
    PressureAdvance,
    InputShaping,
    PidTune,
    BedMesh,
    Maintenance,
}

/// How risky acting on a suggestion is.
#[derive(PartialEq, Eq, Structural, Clone, Copy)]
pub enum RiskLevel {
    Low,
    Medium,
    High,
}

/// How urgent a calibration plan is.
#[derive(PartialEq, Eq, Structural, Clone, Copy)]
pub enum PlanUrgency {
    Recommended,
    Urgent,
}

/// Why a suggestion is made.
pub struct SuggestionEvidence {
    pub trigger: String,
    pub supporting_facts: Vec<String>,
    pub pattern_references: Vec<String>,
}

/// A suggested change.
pub struct TuningSuggestion {
    pub category: TuningCategory,
    pub parameter: String,
    pub current_value: Option<String>,
    pub suggested_value: String,
    pub evidence: SuggestionEvidence,
    pub expected_benefit: String,
    pub risk: RiskLevel,
}

/// A sequence of calibrations.
pub struct CalibrationPlan {
    pub steps: Vec<TuningSuggestion>,
    pub estimated_duration_minutes: u32,
    pub urgency: PlanUrgency,
    pub generated_at: i64,
}

/// Everything suggested.
pub struct OptimizationReport {
    pub suggestions: Vec<TuningSuggestion>,
    pub calibration_plan: Option<CalibrationPlan>,
    pub maintenance_actions: Vec<TuningSuggestion>,
    pub generated_at: i64,
    pub total_suggestions: u64,
}

/// The mathematical content of a suggestion.
pub struct SuggestionView {
    pub category: TuningCategory,
    pub parameter: Seq<char>,
    pub current_value: Option<Seq<char>>,
    pub suggested_value: Seq<char>,
    pub trigger: Seq<char>,
    pub supporting_facts: Seq<Seq<char>>,
    pub pattern_references: Seq<Seq<char>>,
    pub expected_benefit: Seq<char>,
    pub risk: RiskLevel,
}

impl View for TuningSuggestion {
    type V = SuggestionView;

    open spec fn view(&self) -> SuggestionView {
        SuggestionView {
            category: self.category,
            parameter: self.parameter@,
            current_value: crate::text::opt_text(self.current_value),
            suggested_value: self.suggested_value@,
            trigger: self.evidence.trigger@,
            supporting_facts: texts(self.evidence.supporting_facts@),
            pattern_references: texts(self.evidence.pattern_references@),
            expected_benefit: self.expected_benefit@,
            risk: self.risk,
        }
    }
}

/// The views of a sequence of suggestions.
pub open spec fn suggestion_views(v: Seq<TuningSuggestion>) -> Seq<SuggestionView> {
    v.map_values(|t: TuningSuggestion| t@)
}

/// A suggestion with no current value and no pattern references.
pub open spec fn suggestion(
    category: TuningCategory,
    parameter: Seq<char>,
    suggested: Seq<char>,
    trigger: Seq<char>,
    facts: Seq<Seq<char>>,
    benefit: Seq<char>,
    risk: RiskLevel,
) -> SuggestionView {
    SuggestionView {
        category,
        parameter,
        current_value: None,
        suggested_value: suggested,
        trigger,
        supporting_facts: facts,
        pattern_references: Seq::empty(),
        expected_benefit: benefit,
        risk,
    }
}

/// Days since the last calibration at `now`, if one is known.
pub open spec fn days_since_calibration(s: BehaviorSummary, now: i64) -> Option<int> {
    match s.calibration {
        Some(c) => match c.last_calibration {
            Some(ts) => Some(crate::calibration::whole_days(ts as int, now as int)),
            None => None,
        },
        None => None,
    }
}

/// A component whose health is below `bound`, of a type containing
/// `word` (any type when `word` is empty).
pub open spec fn weak(ch: ComponentHealth, word: Seq<char>, bound: i64) -> bool {
    ch.health_score_milli < bound && (word.len() == 0 || contains_text(lowercase(ch.component_type@), word))
}

/// The position of the first element satisfying `f`.
pub open spec fn first_index<T>(s: Seq<T>, f: spec_fn(T) -> bool) -> Option<int>
    decreases s.len(),
{
    if s.len() == 0 {
        None
    } else if f(s[0]) {
        Some(0)
    } else {
        match first_index(s.drop_first(), f) {
            Some(i) => Some(i + 1),
            None => None,
        }
    }
}

/// The position of the first weak component.
pub open spec fn first_weak(s: Seq<ComponentHealth>, word: Seq<char>, bound: i64) -> Option<int> {
    first_index(s, |c: ComponentHealth| weak(c, word, bound))
}

/// `first_index` finds the first satisfying element, and nothing when
/// there is none.
pub proof fn lemma_first_index<T>(s: Seq<T>, f: spec_fn(T) -> bool, k: int)
    requires
        0 <= k <= s.len(),
        forall|j: int| 0 <= j < k ==> !f(#[trigger] s[j]),
        k < s.len() ==> f(s[k]),
    ensures
        first_index(s, f) == if k < s.len() { Some(k) } else { None::<int> },
    decreases k,
{
    if k > 0 {
        assert forall|j: int| 0 <= j < k - 1 implies !f(#[trigger] s.drop_first()[j]) by {
            assert(s.drop_first()[j] == s[j + 1]);
        }
        if k < s.len() {
            assert(s.drop_first()[k - 1] == s[k]);
        }
        lemma_first_index(s.drop_first(), f, k - 1);
        assert(!f(s[0]));
    }
}

/// The facts about the components below 700 among the first `n`.
pub open spec fn weak_facts(s: Seq<ComponentHealth>, n: int) -> Seq<Seq<char>>
    decreases n,
{
    if n <= 0 {
        Seq::empty()
    } else if s[n - 1].health_score_milli < HEALTH_WARNING_MILLI {
        weak_facts(s, n - 1).push(s[n - 1].component_type@ + ": health="@ + milli_hundredths_text(s[n - 1].health_score_milli as int))
    } else {
        weak_facts(s, n - 1)
    }
}

/// Rule 1: retune pressure advance when the machine supports it, some
/// component is below 700, and a pressure-advance calibration loop was
/// seen or the last calibration is under 14 days old.
pub open spec fn pa_rule(m: MachineProfile, s: BehaviorSummary, now: i64) -> Option<SuggestionView> {
    let chs = s.component_health@;
    let pa_loop = exists|i: int|
        0 <= i < s.patterns@.len() && (#[trigger] s.patterns@[i]).kind == PatternKind::CalibrationLoop
            && contains_text(lowercase(s.patterns@[i].description@), "pressureadvance"@);
    let pa_recent = match days_since_calibration(s, now) {
        Some(d) => d < 14,
        None => false,
    };
    if !m.capabilities.supports_pressure_advance || first_weak(chs, ""@, HEALTH_WARNING_MILLI) is None
        || (!pa_loop && !pa_recent) {
        None
    } else {
        Some(
            suggestion(
                TuningCategory::PressureAdvance,
                "pressure_advance"@,
                "retune"@,
                "pressure_advance_degradation"@,
                weak_facts(chs, chs.len() as int),
                "Improved extrusion consistency and reduced artifacts"@,
                RiskLevel::Low,
            ),
        )
    }
}

/// Rule 2: recalibrate input shaping when the machine supports it and
/// an accelerometer is below 700, the last calibration is over 30 days
/// old (or unknown), or an accelerometer is aging.
pub open spec fn is_rule(m: MachineProfile, s: BehaviorSummary, now: i64) -> Option<SuggestionView> {
    let unhealthy = first_weak(s.component_health@, "accelerometer"@, HEALTH_WARNING_MILLI) is Some;
    let old = match days_since_calibration(s, now) {
        Some(d) => d > IS_RECALIBRATION_DAYS,
        None => true,
    };
    let aging = exists|i: int|
        0 <= i < s.aging@.len() && contains_text(lowercase((#[trigger] s.aging@[i]).component_type@), "accel"@);
    if !m.capabilities.supports_input_shaping || (!unhealthy && !old && !aging) {
        None
    } else {
        Some(
            suggestion(
                TuningCategory::InputShaping,
                "input_shaper"@,
                "recalibrate"@,
                "input_shaping_recalibration"@,
                (if unhealthy { seq!["accelerometer health declining"@] } else { Seq::empty() }) + (if old {
                    seq!["last input shaper calibration >30 days ago"@]
                } else {
                    Seq::empty()
                }) + (if aging { seq!["accelerometer aging detected"@] } else { Seq::empty() }),
                "Better input shaping resonance compensation"@,
                RiskLevel::Low,
            ),
        )
    }
}

/// The position of the first thermal aging report.
pub open spec fn first_thermal(a: Seq<AgingReport>) -> Option<int> {
    first_index(a, |r: AgingReport| r.component_type@ == "thermal"@)
}

/// Rule 3: tune the PID when a hotend is below 600 or thermal aging was
/// reported, on a machine that heats above 250 degrees.
pub open spec fn pid_rule(m: MachineProfile, s: BehaviorSummary) -> Option<SuggestionView> {
    let chs = s.component_health@;
    let hot = first_weak(chs, "hotend"@, HEALTH_MODERATE_MILLI);
    let thermal = first_thermal(s.aging@);
    if (hot is None && thermal is None) || m.capabilities.maximum_temperature_milli <= PID_TUNE_TEMP_MILLI {
        None
    } else {
        Some(
            suggestion(
                TuningCategory::PidTune,
                "pid_tune"@,
                "pid_tune"@,
                "thermal_instability"@,
                (match hot {
                    Some(i) => seq![
                        "hotend health="@ + milli_hundredths_text(chs[i].health_score_milli as int) + ", "@ + decimal(
                            chs[i].anomaly_count as nat,
                        ) + " anomalies"@,
                    ],
                    None => Seq::empty(),
                }) + match thermal {
                    Some(j) => texts(s.aging@[j].wear_indicators@),
                    None => Seq::empty(),
                },
                "Stabilized hotend temperature and reduced thermal oscillation"@,
                RiskLevel::Medium,
            ),
        )
    }
}

/// Rule 4: recalibrate the bed mesh when it is overdue or a probe is
/// below 700.
pub open spec fn mesh_rule(s: BehaviorSummary) -> Option<SuggestionView> {
    let overdue = match s.calibration {
        Some(c) => texts(c.overdue@).contains("BedMeshGenerated"@),
        None => false,
    };
    let chs = s.component_health@;
    let probe = first_weak(chs, "probe"@, HEALTH_WARNING_MILLI);
    if !overdue && probe is None {
        None
    } else {
        Some(
            suggestion(
                TuningCategory::BedMesh,
                "bed_mesh"@,
                "recalibrate"@,
                if overdue { "bed_mesh_overdue"@ } else { "probe_health_declining"@ },
                (if overdue { seq!["bed mesh calibration overdue (>2x avg interval)"@] } else { Seq::empty() })
                    + match probe {
                    Some(i) => seq!["probe health="@ + milli_hundredths_text(chs[i].health_score_milli as int)],
                    None => Seq::empty(),
                },
                "Improved first-layer adhesion and Z accuracy"@,
                RiskLevel::Low,
            ),
        )
    }
}

/// The number of components below 600 among the first `n`.
pub open spec fn unhealthy_count(s: Seq<ComponentHealth>, n: int) -> nat
    decreases n,
{
    if n <= 0 {
        0
    } else {
        unhealthy_count(s, n - 1) + if s[n - 1].health_score_milli < HEALTH_MODERATE_MILLI { 1nat } else { 0nat }
    }
}

/// Whether a full calibration plan is due: the print success rate is
/// worsening, there was no calibration in the last 14 days, and at
/// least 3 components are below 600.
pub open spec fn plan_due(s: BehaviorSummary, now: i64) -> bool {
    &&& exists|i: int|
        0 <= i < s.trends@.len() && (#[trigger] s.trends@[i]).metric@ == "print_success_rate"@
            && s.trends@[i].direction == TrendDirection::Worsening
    &&& match days_since_calibration(s, now) {
        Some(d) => d > FULL_CALIBRATION_DAYS,
        None => true,
    }
    &&& unhealthy_count(s.component_health@, s.component_health@.len() as int) >= FULL_CALIBRATION_UNHEALTHY
}

/// The steps of a full calibration.
pub open spec fn plan_steps() -> Seq<SuggestionView> {
    seq![
        suggestion(
            TuningCategory::PidTune,
            "pid_tune"@,
            "retune"@,
            "full_calibration_sequence"@,
            Seq::empty(),
            "Thermal stability baseline"@,
            RiskLevel::Low,
        ),
        suggestion(
            TuningCategory::BedMesh,
            "bed_mesh"@,
            "recalibrate"@,
            "full_calibration_sequence"@,
            Seq::empty(),
            "Flat first layer baseline"@,
            RiskLevel::Low,
        ),
    ]
}

/// The risk of servicing a component of this health.
pub open spec fn risk_spec(health_milli: i64) -> RiskLevel {
    if health_milli < HEALTH_CRITICAL_MILLI {
        RiskLevel::High
    } else if health_milli < HEALTH_MODERATE_MILLI {
        RiskLevel::Medium
    } else {
        RiskLevel::Low
    }
}

/// The maintenance action for a component with warnings.
pub open spec fn maintenance_for(ch: ComponentHealth) -> SuggestionView {
    SuggestionView {
        category: TuningCategory::Maintenance,
        parameter: ch.component_id@,
        current_value: Some("health="@ + milli_hundredths_text(ch.health_score_milli as int)),
        suggested_value: "inspect and service"@,
        trigger: ch.warnings@[0].message@,
        supporting_facts: ch.warnings@.map_values(|w: crate::learning::ComponentWarning| w.evidence@),
        pattern_references: Seq::empty(),
        expected_benefit: "Restore component health and prevent failure"@,
        risk: risk_spec(ch.health_score_milli),
    }
}

/// The maintenance actions of the first `n` components: one per
/// component with warnings.
pub open spec fn maintenance_upto(s: Seq<ComponentHealth>, n: int) -> Seq<SuggestionView>
    decreases n,
{
    if n <= 0 {
        Seq::empty()
    } else if s[n - 1].warnings@.len() > 0 {
        maintenance_upto(s, n - 1).push(maintenance_for(s[n - 1]))
    } else {
        maintenance_upto(s, n - 1)
    }
}

fn is_weak(ch: &ComponentHealth, word: &str, bound: i64) -> (b: bool)
    ensures
        b == weak(*ch, word@, bound),
{
    if ch.health_score_milli >= bound {
        return false;
    }
    if word.unicode_len() == 0 {
        return true;
    }
    let t = crate::text::to_lowercase(ch.component_type.as_str());
    crate::text::text_contains(t.as_str(), word)
}

fn find_weak(chs: &Vec<ComponentHealth>, word: &str, bound: i64) -> (r: Option<usize>)
    ensures
        match r {
            Some(i) => i < chs@.len() && first_weak(chs@, word@, bound) == Some(i as int),
            None => first_weak(chs@, word@, bound) is None,
        },
{
    let ghost f = |c: ComponentHealth| weak(c, word@, bound);
    let mut i: usize = 0;
    while i < chs.len()
        invariant
            i <= chs@.len(),
            f == |c: ComponentHealth| weak(c, word@, bound),
            forall|j: int| 0 <= j < i ==> !f(#[trigger] chs@[j]),
        decreases chs@.len() - i,
    {
        if is_weak(&chs[i], word, bound) {
            proof {
                lemma_first_index(chs@, f, i as int);
            }
            return Some(i);
        }
        i = i + 1;
    }
    proof {
        lemma_first_index(chs@, f, i as int);
    }
    None
}

fn find_thermal(a: &Vec<AgingReport>) -> (r: Option<usize>)
    ensures
        match r {
            Some(i) => i < a@.len() && first_thermal(a@) == Some(i as int),
            None => first_thermal(a@) is None,
        },
{
    let ghost f = |r: AgingReport| r.component_type@ == "thermal"@;
    let mut i: usize = 0;
    while i < a.len()
        invariant
            i <= a@.len(),
            f == |r: AgingReport| r.component_type@ == "thermal"@,
            forall|j: int| 0 <= j < i ==> !f(#[trigger] a@[j]),
        decreases a@.len() - i,
    {
        if crate::text::str_eq(&a[i].component_type, "thermal") {
            proof {
                lemma_first_index(a@, f, i as int);
            }
            return Some(i);
        }
        i = i + 1;
    }
    proof {
        lemma_first_index(a@, f, i as int);
    }
    None
}

fn days_since(s: &BehaviorSummary, now: i64) -> (d: Option<i128>)
    ensures
        match d {
            Some(x) => days_since_calibration(*s, now) == Some(x as int),
            None => days_since_calibration(*s, now) is None,
        },
{
    match &s.calibration {
        Some(c) => match c.last_calibration {
            Some(ts) => {
                let x: i128 = (now as i128) - (ts as i128);
                Some(x / (crate::learning::MS_PER_DAY as i128))
            },
            None => None,
        },
        None => None,
    }
}

fn make(
    category: TuningCategory,
    parameter: &str,
    suggested: &str,
    trigger: String,
    facts: Vec<String>,
    benefit: &str,
    risk: RiskLevel,
) -> (t: TuningSuggestion)
    ensures
        t@ == suggestion(category, parameter@, suggested@, trigger@, texts(facts@), benefit@, risk),
{
    let refs: Vec<String> = Vec::new();
    assert(texts(refs@) =~= Seq::<Seq<char>>::empty());
    TuningSuggestion {
        category,
        parameter: String::from_str(parameter),
        current_value: None,
        suggested_value: String::from_str(suggested),
        evidence: SuggestionEvidence { trigger, supporting_facts: facts, pattern_references: refs },
        expected_benefit: String::from_str(benefit),
        risk,
    }
}

fn push_text(v: &mut Vec<String>, t: String)
    ensures
        texts(final(v)@) == texts(old(v)@).push(t@),
{
    v.push(t);
    assert(texts(final(v)@) =~= texts(old(v)@).push(t@));
}

fn pressure_advance_retune(m: &MachineProfile, s: &BehaviorSummary, now: i64) -> (r: Option<TuningSuggestion>)
    ensures
        match r {
            Some(t) => pa_rule(*m, *s, now) == Some(t@),
            None => pa_rule(*m, *s, now) is None,
        },
{
    if !m.capabilities.supports_pressure_advance {
        return None;
    }
    let chs = &s.component_health;
    proof {
        reveal_strlit("");
    }
    if find_weak(chs, "", HEALTH_WARNING_MILLI).is_none() {
        return None;
    }
    let mut pa_loop = false;
    let mut i: usize = 0;
    while i < s.patterns.len()
        invariant
            i <= s.patterns@.len(),
            pa_loop == exists|j: int|
                0 <= j < i && (#[trigger] s.patterns@[j]).kind == PatternKind::CalibrationLoop && contains_text(
                    lowercase(s.patterns@[j].description@),
                    "pressureadvance"@,
                ),
        decreases s.patterns@.len() - i,
    {
        let p = &s.patterns[i];
        if p.kind == PatternKind::CalibrationLoop {
            let d = crate::text::to_lowercase(p.description.as_str());
            if crate::text::text_contains(d.as_str(), "pressureadvance") {
                pa_loop = true;
            }
        }
        i = i + 1;
    }
    let pa_recent = match days_since(s, now) {
        Some(d) => d < 14,
        None => false,
    };
    if !pa_loop && !pa_recent {
        return None;
    }
    let mut facts: Vec<String> = Vec::new();
    assert(texts(facts@) =~= weak_facts(chs@, 0));
    let mut k: usize = 0;
    while k < chs.len()
        invariant
            k <= chs@.len(),
            texts(facts@) == weak_facts(chs@, k as int),
        decreases chs@.len() - k,
    {
        let ch = &chs[k];
        if ch.health_score_milli < HEALTH_WARNING_MILLI {
            proof {
                reveal_strlit(": health=");
            }
            let f = ch.component_type.clone().concat(": health=").concat(
                crate::text::milli_to_hundredths(ch.health_score_milli).as_str(),
            );
            push_text(&mut facts, f);
        }
        k = k + 1;
    }
    Some(
        make(
            TuningCategory::PressureAdvance,
            "pressure_advance",
            "retune",
            String::from_str("pressure_advance_degradation"),
            facts,
            "Improved extrusion consistency and reduced artifacts",
            RiskLevel::Low,
        ),
    )
}

fn input_shaping_recalibrate(m: &MachineProfile, s: &BehaviorSummary, now: i64) -> (r: Option<TuningSuggestion>)
    ensures
        match r {
            Some(t) => is_rule(*m, *s, now) == Some(t@),
            None => is_rule(*m, *s, now) is None,
        },
{
    if !m.capabilities.supports_input_shaping {
        return None;
    }
    let unhealthy = find_weak(&s.component_health, "accelerometer", HEALTH_WARNING_MILLI).is_some();
    let old = match days_since(s, now) {
        Some(d) => d > IS_RECALIBRATION_DAYS as i128,
        None => true,
    };
    let mut aging = false;
    let mut i: usize = 0;
    while i < s.aging.len()
        invariant
            i <= s.aging@.len(),
            aging == exists|j: int|
                0 <= j < i && contains_text(lowercase((#[trigger] s.aging@[j]).component_type@), "accel"@),
        decreases s.aging@.len() - i,
    {
        let t = crate::text::to_lowercase(s.aging[i].component_type.as_str());
        if crate::text::text_contains(t.as_str(), "accel") {
            aging = true;
        }
        i = i + 1;
    }
    if !unhealthy && !old && !aging {
        return None;
    }
    let mut facts: Vec<String> = Vec::new();
    assert(texts(facts@) =~= Seq::<Seq<char>>::empty());
    if unhealthy {
        push_text(&mut facts, String::from_str("accelerometer health declining"));
    }
    if old {
        push_text(&mut facts, String::from_str("last input shaper calibration >30 days ago"));
    }
    if aging {
        push_text(&mut facts, String::from_str("accelerometer aging detected"));
    }
    assert(texts(facts@) =~= (if unhealthy { seq!["accelerometer health declining"@] } else { Seq::<Seq<char>>::empty() }) + (if old {
        seq!["last input shaper calibration >30 days ago"@]
    } else {
        Seq::<Seq<char>>::empty()
    }) + (if aging { seq!["accelerometer aging detected"@] } else { Seq::<Seq<char>>::empty() }));
    Some(
        make(
            TuningCategory::InputShaping,
            "input_shaper",
            "recalibrate",
            String::from_str("input_shaping_recalibration"),
            facts,
            "Better input shaping resonance compensation",
            RiskLevel::Low,
        ),
    )
}

fn pid_tune_needed(m: &MachineProfile, s: &BehaviorSummary) -> (r: Option<TuningSuggestion>)
    ensures
        match r {
            Some(t) => pid_rule(*m, *s) == Some(t@),
            None => pid_rule(*m, *s) is None,
        },
{
    let chs = &s.component_health;
    let hot = find_weak(chs, "hotend", HEALTH_MODERATE_MILLI);
    let thermal = find_thermal(&s.aging);
    if (hot.is_none() && thermal.is_none()) || m.capabilities.maximum_temperature_milli <= PID_TUNE_TEMP_MILLI {
        return None;
    }
    let mut facts: Vec<String> = Vec::new();
    assert(texts(facts@) =~= Seq::<Seq<char>>::empty());
    match hot {
        Some(i) => {
            proof {
                reveal_strlit("hotend health=");
                reveal_strlit(", ");
                reveal_strlit(" anomalies");
            }
            let h = &chs[i];
            let f = String::from_str("hotend health=").concat(crate::text::milli_to_hundredths(h.health_score_milli).as_str()).concat(
                ", ",
            ).concat(crate::text::u64_to_decimal(h.anomaly_count).as_str()).concat(" anomalies");
            push_text(&mut facts, f);
        },
        None => {},
    }
    let ghost head = texts(facts@);
    match thermal {
        Some(j) => {
            let w = &s.aging[j].wear_indicators;
            let mut k: usize = 0;
            while k < w.len()
                invariant
                    k <= w@.len(),
                    texts(facts@) == head + texts(w@.subrange(0, k as int)),
                decreases w@.len() - k,
            {
                push_text(&mut facts, w[k].clone());
                assert(texts(w@.subrange(0, k + 1)) =~= texts(w@.subrange(0, k as int)).push(w@[k as int]@));
                k = k + 1;
            }
            assert(w@.subrange(0, k as int) =~= w@);
        },
        None => {
            assert(head + Seq::<Seq<char>>::empty() =~= head);
        },
    }
    Some(
        make(
            TuningCategory::PidTune,
            "pid_tune",
            "pid_tune",
            String::from_str("thermal_instability"),
            facts,
            "Stabilized hotend temperature and reduced thermal oscillation",
            RiskLevel::Medium,
        ),
    )
}

fn bed_mesh_needed(s: &BehaviorSummary) -> (r: Option<TuningSuggestion>)
    ensures
        match r {
            Some(t) => mesh_rule(*s) == Some(t@),
            None => mesh_rule(*s) is None,
        },
{
    let overdue = match &s.calibration {
        Some(c) => {
            let mut found = false;
            let mut i: usize = 0;
            while i < c.overdue.len()
                invariant
                    i <= c.overdue@.len(),
                    found == exists|j: int| 0 <= j < i && (#[trigger] c.overdue@[j])@ == "BedMeshGenerated"@,
                decreases c.overdue@.len() - i,
            {
                if crate::text::str_eq(&c.overdue[i], "BedMeshGenerated") {
                    found = true;
                }
                i = i + 1;
            }
            proof {
                if found {
                    let j = choose|j: int| 0 <= j < c.overdue@.len() && (#[trigger] c.overdue@[j])@ == "BedMeshGenerated"@;
                    assert(texts(c.overdue@)[j] == "BedMeshGenerated"@);
                } else {
                    assert forall|j: int| 0 <= j < texts(c.overdue@).len() implies texts(c.overdue@)[j] != "BedMeshGenerated"@ by {
                        assert(texts(c.overdue@)[j] == c.overdue@[j]@);
                    }
                }
            }
            found
        },
        None => false,
    };
    let chs = &s.component_health;
    let probe = find_weak(chs, "probe", HEALTH_WARNING_MILLI);
    if !overdue && probe.is_none() {
        return None;
    }
    let trigger = if overdue {
        String::from_str("bed_mesh_overdue")
    } else {
        String::from_str("probe_health_declining")
    };
    let mut facts: Vec<String> = Vec::new();
    assert(texts(facts@) =~= Seq::<Seq<char>>::empty());
    if overdue {
        push_text(&mut facts, String::from_str("bed mesh calibration overdue (>2x avg interval)"));
    }
    match probe {
        Some(i) => {
            proof {
                reveal_strlit("probe health=");
            }
            let f = String::from_str("probe health=").concat(
                crate::text::milli_to_hundredths(chs[i].health_score_milli).as_str(),
            );
            push_text(&mut facts, f);
        },
        None => {},
    }
    assert(texts(facts@) =~= (if overdue { seq!["bed mesh calibration overdue (>2x avg interval)"@] } else { Seq::<Seq<char>>::empty() })
        + match first_weak(chs@, "probe"@, HEALTH_WARNING_MILLI) {
        Some(i) => seq!["probe health="@ + milli_hundredths_text(chs@[i].health_score_milli as int)],
        None => Seq::<Seq<char>>::empty(),
    });
    Some(
        make(
            TuningCategory::BedMesh,
            "bed_mesh",
            "recalibrate",
            trigger,
            facts,
            "Improved first-layer adhesion and Z accuracy",
            RiskLevel::Low,
        ),
    )
}

/// The mathematical content of a calibration plan.
pub struct PlanView {
    pub steps: Seq<SuggestionView>,
    pub estimated_duration_minutes: u32,
    pub urgency: PlanUrgency,
    pub generated_at: i64,
}

/// Rule 5: the full calibration plan, when due: PID tuning then the bed
/// mesh, urgent when a component is below 300; an hour when the
/// machine's capabilities are known, 45 minutes otherwise.
pub open spec fn plan_rule(s: BehaviorSummary, caps_known: bool, now: i64) -> Option<PlanView> {
    if !plan_due(s, now) {
        None
    } else {
        Some(
            PlanView {
                steps: plan_steps(),
                estimated_duration_minutes: if caps_known { 60 } else { 45 },
                urgency: if first_weak(s.component_health@, ""@, HEALTH_CRITICAL_MILLI) is Some {
                    PlanUrgency::Urgent
                } else {
                    PlanUrgency::Recommended
                },
                generated_at: now,
            },
        )
    }
}

fn full_calibration_plan(s: &BehaviorSummary, caps_known: bool, now: i64) -> (r: Option<CalibrationPlan>)
    ensures
        match r {
            Some(p) => plan_rule(*s, caps_known, now) == Some(
                PlanView {
                    steps: suggestion_views(p.steps@),
                    estimated_duration_minutes: p.estimated_duration_minutes,
                    urgency: p.urgency,
                    generated_at: p.generated_at,
                },
            ),
            None => plan_rule(*s, caps_known, now) is None,
        },
{
    let mut worsening = false;
    let mut i: usize = 0;
    while i < s.trends.len()
        invariant
            i <= s.trends@.len(),
            worsening == exists|j: int|
                0 <= j < i && (#[trigger] s.trends@[j]).metric@ == "print_success_rate"@ && s.trends@[j].direction
                    == TrendDirection::Worsening,
        decreases s.trends@.len() - i,
    {
        if crate::text::str_eq(&s.trends[i].metric, "print_success_rate") && s.trends[i].direction
            == TrendDirection::Worsening {
            worsening = true;
        }
        i = i + 1;
    }
    let no_recent = match days_since(s, now) {
        Some(d) => d > FULL_CALIBRATION_DAYS as i128,
        None => true,
    };
    let chs = &s.component_health;
    let mut unhealthy: usize = 0;
    let mut k: usize = 0;
    while k < chs.len()
        invariant
            k <= chs@.len(),
            unhealthy == unhealthy_count(chs@, k as int),
            unhealthy <= k,
        decreases chs@.len() - k,
    {
        if chs[k].health_score_milli < HEALTH_MODERATE_MILLI {
            unhealthy = unhealthy + 1;
        }
        k = k + 1;
    }
    if !worsening || !no_recent || unhealthy < FULL_CALIBRATION_UNHEALTHY {
        return None;
    }
    proof {
        reveal_strlit("");
    }
    let critical = find_weak(chs, "", HEALTH_CRITICAL_MILLI).is_some();
    let mut steps: Vec<TuningSuggestion> = Vec::new();
    steps.push(
        make(
            TuningCategory::PidTune,
            "pid_tune",
            "retune",
            String::from_str("full_calibration_sequence"),
            Vec::new(),
            "Thermal stability baseline",
            RiskLevel::Low,
        ),
    );
    steps.push(
        make(
            TuningCategory::BedMesh,
            "bed_mesh",
            "recalibrate",
            String::from_str("full_calibration_sequence"),
            Vec::new(),
            "Flat first layer baseline",
            RiskLevel::Low,
        ),
    );
    proof {
        assert(texts(Seq::<String>::empty()) =~= Seq::<Seq<char>>::empty());
    }
    assert(suggestion_views(steps@) =~= plan_steps());
    Some(
        CalibrationPlan {
            steps,
            estimated_duration_minutes: if caps_known {
                60
            } else {
                45
            },
            urgency: if critical {
                PlanUrgency::Urgent
            } else {
                PlanUrgency::Recommended
            },
            generated_at: now,
        },
    )
}


fn maintenance_from_health(s: &BehaviorSummary) -> (r: Vec<TuningSuggestion>)
    ensures
        suggestion_views(r@) == maintenance_upto(s.component_health@, s.component_health@.len() as int),
{
    let chs = &s.component_health;
    let mut res: Vec<TuningSuggestion> = Vec::new();
    let mut i: usize = 0;
    while i < chs.len()
        invariant
            i <= chs@.len(),
            suggestion_views(res@) == maintenance_upto(chs@, i as int),
        decreases chs@.len() - i,
    {
        let ch = &chs[i];
        if ch.warnings.len() > 0 {
            let mut facts: Vec<String> = Vec::new();
            let mut k: usize = 0;
            while k < ch.warnings.len()
                invariant
                    k <= ch.warnings@.len(),
                    facts@.len() == k,
                    forall|j: int| 0 <= j < k ==> (#[trigger] facts@[j])@ == ch.warnings@[j].evidence@,
                decreases ch.warnings@.len() - k,
            {
                facts.push(ch.warnings[k].evidence.clone());
                k = k + 1;
            }
            assert(texts(facts@) =~= ch.warnings@.map_values(|w: crate::learning::ComponentWarning| w.evidence@));
            proof {
                reveal_strlit("health=");
            }
            let refs: Vec<String> = Vec::new();
            assert(texts(refs@) =~= Seq::<Seq<char>>::empty());
            let t = TuningSuggestion {
                category: TuningCategory::Maintenance,
                parameter: ch.component_id.clone(),
                current_value: Some(
                    String::from_str("health=").concat(crate::text::milli_to_hundredths(ch.health_score_milli).as_str()),
                ),
                suggested_value: String::from_str("inspect and service"),
                evidence: SuggestionEvidence {
                    trigger: ch.warnings[0].message.clone(),
                    supporting_facts: facts,
                    pattern_references: refs,
                },
                expected_benefit: String::from_str("Restore component health and prevent failure"),
                risk: OptimizationEngine::risk_for_health(ch.health_score_milli),
            };
            let ghost before = suggestion_views(res@);
            res.push(t);
            assert(suggestion_views(res@) =~= before.push(t@));
        }
        i = i + 1;
    }
    res
}

proof fn lemma_maintenance_len(s: Seq<ComponentHealth>, n: int)
    requires
        0 <= n,
    ensures
        maintenance_upto(s, n).len() <= n,
    decreases n,
{
    if n > 0 {
        lemma_maintenance_len(s, n - 1);
    }
}

/// An optional suggestion as a sequence.
pub open spec fn opt_suggestion(o: Option<SuggestionView>) -> Seq<SuggestionView> {
    match o {
        Some(x) => seq![x],
        None => Seq::empty(),
    }
}

/// The tuning suggestions: with a machine profile, pressure advance,
/// input shaping and PID tuning (each when it applies); then the bed
/// mesh.
pub open spec fn tuning_suggestions(s: BehaviorSummary, machine: Option<MachineProfile>, now: i64) -> Seq<SuggestionView> {
    (match machine {
        Some(m) => opt_suggestion(pa_rule(m, s, now)) + opt_suggestion(is_rule(m, s, now)) + opt_suggestion(
            pid_rule(m, s),
        ),
        None => Seq::empty(),
    }) + opt_suggestion(mesh_rule(s))
}

/// What an optimization report made at `now` says.
pub open spec fn reports(s: BehaviorSummary, machine: Option<MachineProfile>, now: i64, r: OptimizationReport) -> bool {
    let maintenance = maintenance_upto(s.component_health@, s.component_health@.len() as int);
    let plan = plan_rule(s, machine is Some, now);
    &&& suggestion_views(r.suggestions@) == tuning_suggestions(s, machine, now)
    &&& suggestion_views(r.maintenance_actions@) == maintenance
    &&& match r.calibration_plan {
        Some(p) => plan == Some(
            PlanView {
                steps: suggestion_views(p.steps@),
                estimated_duration_minutes: p.estimated_duration_minutes,
                urgency: p.urgency,
                generated_at: p.generated_at,
            },
        ),
        None => plan is None,
    }
    &&& r.generated_at == now
    &&& r.total_suggestions == r.suggestions@.len() + maintenance.len() + if plan is Some { 1int } else { 0int }
}

/// The position of a category in report order.
pub open spec fn category_rank(c: TuningCategory) -> int {
    match c {
        TuningCategory::PressureAdvance => 0,
        TuningCategory::InputShaping => 1,
        TuningCategory::PidTune => 2,
        TuningCategory::BedMesh => 3,
        TuningCategory::Maintenance => 4,
    }
}

/// Categories strictly rise along `t`.
pub open spec fn ranks_rise(t: Seq<SuggestionView>) -> bool {
    forall|i: int, j: int| 0 <= i < j < t.len() ==> category_rank((#[trigger] t[i]).category) < category_rank((#[trigger] t[j]).category)
}

proof fn lemma_append_ranked(x: Seq<SuggestionView>, o: Option<SuggestionView>, r: int)
    requires
        ranks_rise(x),
        forall|k: int| 0 <= k < x.len() ==> category_rank((#[trigger] x[k]).category) < r,
        o matches Some(v) ==> category_rank(v.category) == r,
    ensures
        ranks_rise(x + opt_suggestion(o)),
        forall|k: int| 0 <= k < (x + opt_suggestion(o)).len() ==> category_rank((#[trigger] (x + opt_suggestion(o))[k]).category) <= r,
{
    let y = x + opt_suggestion(o);
    assert forall|i: int, j: int| 0 <= i < j < y.len() implies category_rank((#[trigger] y[i]).category) < category_rank((#[trigger] y[j]).category) by {
        assert(y[i] == x[i]);
        if j < x.len() {
            assert(y[j] == x[j]);
        }
    }
    assert forall|k: int| 0 <= k < y.len() implies category_rank((#[trigger] y[k]).category) <= r by {
        if k < x.len() {
            assert(y[k] == x[k]);
        }
    }
}

proof fn lemma_maintenance_only(s: Seq<ComponentHealth>, n: int)
    ensures
        maintenance_upto(s, n).len() <= if n < 0 { 0 } else { n },
        forall|k: int| 0 <= k < maintenance_upto(s, n).len() ==> (#[trigger] maintenance_upto(s, n)[k]).category == TuningCategory::Maintenance,
    decreases n,
{
    if n > 0 {
        lemma_maintenance_only(s, n - 1);
    }
}

/// The optimization report: its total counts every tuning suggestion,
/// maintenance action and calibration plan; the tuning suggestions come
/// in the order pressure advance, input shaping, PID tuning, bed mesh,
/// at most one of each; every maintenance action is a maintenance
/// suggestion, at most one per component.
pub proof fn lemma_report_counts_and_order(s: BehaviorSummary, machine: Option<MachineProfile>, now: i64, r: OptimizationReport)
    requires
        reports(s, machine, now, r),
    ensures
        r.total_suggestions == r.suggestions@.len() + r.maintenance_actions@.len() + if r.calibration_plan is Some { 1int } else { 0int },
        r.suggestions@.len() <= 4,
        forall|i: int, j: int|
            0 <= i < j < r.suggestions@.len() ==> category_rank((#[trigger] r.suggestions@[i]).category) < category_rank(
                (#[trigger] r.suggestions@[j]).category,
            ),
        forall|k: int| 0 <= k < r.maintenance_actions@.len() ==> (#[trigger] r.maintenance_actions@[k]).category == TuningCategory::Maintenance,
        r.maintenance_actions@.len() <= s.component_health@.len(),
{
    let chs = s.component_health@;
    lemma_maintenance_only(chs, chs.len() as int);
    let e = Seq::<SuggestionView>::empty();
    let t = tuning_suggestions(s, machine, now);
    match machine {
        Some(m) => {
            lemma_append_ranked(e, pa_rule(m, s, now), 0);
            let t1 = e + opt_suggestion(pa_rule(m, s, now));
            lemma_append_ranked(t1, is_rule(m, s, now), 1);
            let t2 = t1 + opt_suggestion(is_rule(m, s, now));
            lemma_append_ranked(t2, pid_rule(m, s), 2);
            let t3 = t2 + opt_suggestion(pid_rule(m, s));
            lemma_append_ranked(t3, mesh_rule(s), 3);
            assert(t1 =~= opt_suggestion(pa_rule(m, s, now)));
            assert(t =~= t3 + opt_suggestion(mesh_rule(s)));
        },
        None => {
            lemma_append_ranked(e, mesh_rule(s), 3);
            assert(t =~= e + opt_suggestion(mesh_rule(s)));
        },
    }
    let v = suggestion_views(r.suggestions@);
    assert forall|i: int, j: int|
        0 <= i < j < r.suggestions@.len() implies category_rank((#[trigger] r.suggestions@[i]).category) < category_rank(
            (#[trigger] r.suggestions@[j]).category,
        ) by {
        assert(v[i].category == r.suggestions@[i].category);
        assert(v[j].category == r.suggestions@[j].category);
    }
    assert forall|k: int| 0 <= k < r.maintenance_actions@.len() implies (#[trigger] r.maintenance_actions@[k]).category
        == TuningCategory::Maintenance by {
        assert(suggestion_views(r.maintenance_actions@)[k].category == r.maintenance_actions@[k].category);
    }
}

/// The components that carry warnings.
pub open spec fn has_warnings() -> spec_fn(ComponentHealth) -> bool {
    |c: ComponentHealth| c.warnings@.len() > 0
}

proof fn lemma_maintenance_is_filter(s: Seq<ComponentHealth>, n: int)
    requires
        0 <= n <= s.len(),
    ensures
        maintenance_upto(s, n) == s.take(n).filter(has_warnings()).map_values(|c: ComponentHealth| maintenance_for(c)),
    decreases n,
{
    reveal(Seq::filter);
    if n > 0 {
        lemma_maintenance_is_filter(s, n - 1);
        let t = s.take(n);
        assert(t.drop_last() =~= s.take(n - 1));
        assert(t.last() == s[n - 1]);
        let f = s.take(n - 1).filter(has_warnings());
        if s[n - 1].warnings@.len() > 0 {
            assert(f.push(s[n - 1]).map_values(|c: ComponentHealth| maintenance_for(c)) =~= f.map_values(
                |c: ComponentHealth| maintenance_for(c),
            ).push(maintenance_for(s[n - 1])));
        }
    } else {
        assert(s.take(0).filter(has_warnings()) =~= Seq::<ComponentHealth>::empty());
        assert(s.take(0).filter(has_warnings()).map_values(|c: ComponentHealth| maintenance_for(c)) =~= Seq::<
            SuggestionView,
        >::empty());
    }
}

/// The maintenance actions of a report: one per component with
/// warnings, in the components' order, each a maintenance suggestion
/// naming that component; and without a machine profile the only tuning
/// suggestion there can be is the bed mesh.
pub proof fn lemma_report_maintenance(s: BehaviorSummary, machine: Option<MachineProfile>, now: i64, r: OptimizationReport)
    requires
        reports(s, machine, now, r),
    ensures
        ({
            let warned = s.component_health@.filter(has_warnings());
            &&& r.maintenance_actions@.len() == warned.len()
            &&& forall|k: int|
                0 <= k < warned.len() ==> (#[trigger] r.maintenance_actions@[k]).category == TuningCategory::Maintenance
                    && r.maintenance_actions@[k].parameter@ == warned[k].component_id@
        }),
        machine is None ==> forall|k: int|
            0 <= k < r.suggestions@.len() ==> (#[trigger] r.suggestions@[k]).category == TuningCategory::BedMesh,
{
    let chs = s.component_health@;
    lemma_maintenance_is_filter(chs, chs.len() as int);
    assert(chs.take(chs.len() as int) =~= chs);
    let warned = chs.filter(has_warnings());
    let v = suggestion_views(r.maintenance_actions@);
    assert forall|k: int| 0 <= k < warned.len() implies (#[trigger] r.maintenance_actions@[k]).category
        == TuningCategory::Maintenance && r.maintenance_actions@[k].parameter@ == warned[k].component_id@ by {
        assert(v[k] == maintenance_for(warned[k]));
        assert(v[k] == r.maintenance_actions@[k]@);
    }
    if machine is None {
        let t = tuning_suggestions(s, machine, now);
        assert(t =~= opt_suggestion(mesh_rule(s)));
        let sv = suggestion_views(r.suggestions@);
        assert forall|k: int| 0 <= k < r.suggestions@.len() implies (#[trigger] r.suggestions@[k]).category
            == TuningCategory::BedMesh by {
            assert(sv[k] == r.suggestions@[k]@);
        }
    }
}

fn push_suggestion(v: &mut Vec<TuningSuggestion>, t: Option<TuningSuggestion>, Ghost(expected): Ghost<Option<SuggestionView>>)
    requires
        match t {
            Some(x) => expected == Some(x@),
            None => expected is None,
        },
    ensures
        suggestion_views(final(v)@) == suggestion_views(old(v)@) + opt_suggestion(expected),
{
    match t {
        Some(x) => {
            v.push(x);
            assert(suggestion_views(final(v)@) =~= suggestion_views(old(v)@) + opt_suggestion(expected));
        },
        None => {
            assert(suggestion_views(old(v)@) + opt_suggestion(expected) =~= suggestion_views(old(v)@));
        },
    }
}

/// Derives suggestions from what was learned.
pub struct OptimizationEngine;

impl OptimizationEngine {
    /// The risk of servicing a component of this health (thousandths).
    pub fn risk_for_health(health_milli: i64) -> (r: RiskLevel)
        ensures
            r == risk_spec(health_milli),
    {
        if health_milli < HEALTH_CRITICAL_MILLI {
            RiskLevel::High
        } else if health_milli < HEALTH_MODERATE_MILLI {
            RiskLevel::Medium
        } else {
            RiskLevel::Low
        }
    }

    /// The suggestions, maintenance actions and calibration plan for a
    /// behavior summary (and the machine's profile, when known), as of
    /// `now`.
    pub fn analyze_at(summary: &BehaviorSummary, machine: Option<&MachineProfile>, now: i64) -> (r: OptimizationReport)
        requires
            summary.component_health@.len() <= u64::MAX - 5,
        ensures
            reports(*summary, match machine {
                Some(m) => Some(*m),
                None => None,
            }, now, r),
    {
        let mut suggestions: Vec<TuningSuggestion> = Vec::new();
        assert(suggestion_views(suggestions@) =~= Seq::<SuggestionView>::empty());
        match machine {
            Some(profile) => {
                push_suggestion(&mut suggestions, pressure_advance_retune(profile, summary, now), Ghost(pa_rule(*profile, *summary, now)));
                push_suggestion(&mut suggestions, input_shaping_recalibrate(profile, summary, now), Ghost(is_rule(*profile, *summary, now)));
                push_suggestion(&mut suggestions, pid_tune_needed(profile, summary), Ghost(pid_rule(*profile, *summary)));
            },
            None => {},
        }
        push_suggestion(&mut suggestions, bed_mesh_needed(summary), Ghost(mesh_rule(*summary)));
        let maintenance = maintenance_from_health(summary);
        proof {
            lemma_maintenance_len(summary.component_health@, summary.component_health@.len() as int);
        }
        let plan = full_calibration_plan(summary, machine.is_some(), now);
        let total = (suggestions.len() as u64) + (maintenance.len() as u64) + if plan.is_some() {
            1
        } else {
            0
        };
        let r = OptimizationReport {
            suggestions,
            calibration_plan: plan,
            maintenance_actions: maintenance,
            generated_at: now,
            total_suggestions: total,
        };
        assert(suggestion_views(r.suggestions@) =~= tuning_suggestions(*summary, match machine {
            Some(m) => Some(*m),
            None => None,
        }, now));
        r
    }

    /// The same, as of now (the clock is read once).
    pub fn analyze(summary: &BehaviorSummary, machine: Option<&MachineProfile>) -> (r: OptimizationReport)
        requires
            summary.component_health@.len() <= u64::MAX - 5,
        ensures
            reports(*summary, match machine {
                Some(m) => Some(*m),
                None => None,
            }, r.generated_at, r),
    {
        let now = crate::clock::now_millis();
        Self::analyze_at(summary, machine, now)
    }
}

} // verus!
