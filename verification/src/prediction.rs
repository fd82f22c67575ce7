//! Failure prediction: per-component health and wear reports, each
//! derived from explicit thresholds over the timeline and what was
//! learned from it.

use vstd::prelude::*;
use vstd::string::*;

use crate::learning::{
    AgingReport, BehaviorSummary, ComponentHealth, ComponentWarning, LearnedPattern, PatternKind,
    TrendDirection, TrendReport, WarningSeverity,
};
use crate::text::{decimal, lemma_lex_irreflexive, lemma_lex_total, lemma_lex_transitive, lex_lt, milli_hundredths_text, str_eq, text_less};
use crate::timeline::{TimelineEvent, TimelineEventKind};

verus! {

/// Health lost per hardware or maintenance record of a component.
pub const DECAY_PER_CHANGE_MILLI: i64 = 150;

/// Health lost when the failure rate is worsening.
pub const DECAY_WORSENING_MILLI: i64 = 300;

/// Below this health a component is critical.
pub const CRITICAL_HEALTH_MILLI: i64 = 300;

/// Below this health a component is significantly degraded.
pub const WARNING_HEALTH_MILLI: i64 = 600;

/// How many records a prediction needs.
pub const MIN_EVENTS_FOR_PREDICTION: usize = 10;

// ---------------------------------------------------------------------
// Components.

/// The component a record names, with its type: hardware records name
/// their component, maintenance records theirs (type "maintenance"),
/// configuration records their key (type "config").
pub open spec fn component_of(e: TimelineEvent) -> Option<(Seq<char>, Seq<char>)> {
    match e.kind {
        TimelineEventKind::Hardware(h) => Some((h.component_id@, h.component_type@)),
        TimelineEventKind::Maintenance(m) => Some((m.component@, "maintenance"@)),
        TimelineEventKind::Configuration(c) => Some((c.config_key@, "config"@)),
        _ => None,
    }
}

/// The id of the component a record names.
pub open spec fn component_id_of(e: TimelineEvent) -> Option<Seq<char>> {
    match component_of(e) {
        Some(c) => Some(c.0),
        None => None,
    }
}

/// Whether record `k` is the first to name its component.
pub open spec fn first_naming(ev: Seq<TimelineEvent>, k: int) -> bool {
    match component_id_of(ev[k]) {
        Some(id) => forall|m: int| 0 <= m < k ==> #[trigger] component_id_of(ev[m]) != Some(id),
        None => false,
    }
}

/// Whether a component entry comes from the first record, before
/// position `k`, that names it.
pub open spec fn from_first_naming(ev: Seq<TimelineEvent>, k: int, x: (String, String)) -> bool {
    exists|q: int| 0 <= q < k && first_naming(ev, q) && component_of(ev[q]) == Some((x.0@, x.1@))
}

/// Whether the component of record `q` has an entry.
pub open spec fn has_entry(r: Seq<(String, String)>, ev: Seq<TimelineEvent>, q: int) -> bool {
    match component_id_of(ev[q]) {
        Some(id) => exists|i: int| 0 <= i < r.len() && (#[trigger] r[i]).0@ == id,
        None => true,
    }
}

/// The components named by the records: each once, with the type of
/// its first record, in the order of their ids.
pub open spec fn components_ok(ev: Seq<TimelineEvent>, r: Seq<(String, String)>) -> bool {
    components_upto(ev, ev.len() as int, r)
}

fn component_for(e: &TimelineEvent) -> (r: Option<(String, String)>)
    ensures
        match r {
            Some(p) => component_of(*e) == Some((p.0@, p.1@)),
            None => component_of(*e) is None,
        },
{
    match &e.kind {
        TimelineEventKind::Hardware(h) => Some((h.component_id.clone(), h.component_type.clone())),
        TimelineEventKind::Maintenance(m) => Some((m.component.clone(), String::from_str("maintenance"))),
        TimelineEventKind::Configuration(c) => Some((c.config_key.clone(), String::from_str("config"))),
        _ => None,
    }
}

/// The components named by the first `k` records are right.
pub open spec fn components_upto(ev: Seq<TimelineEvent>, k: int, r: Seq<(String, String)>) -> bool {
    &&& forall|i: int, j: int| 0 <= i < j < r.len() ==> lex_lt((#[trigger] r[i]).0@, (#[trigger] r[j]).0@)
    &&& forall|i: int| 0 <= i < r.len() ==> from_first_naming(ev, k, #[trigger] r[i])
    &&& forall|q: int| 0 <= q < k ==> #[trigger] has_entry(r, ev, q)
}

#[verifier::spinoff_prover]
proof fn lemma_component_new(
    ev: Seq<TimelineEvent>,
    k: int,
    before: Seq<(String, String)>,
    p: int,
    id: String,
    ty: String,
)
    requires
        0 <= k < ev.len(),
        components_upto(ev, k, before),
        component_of(ev[k]) == Some((id@, ty@)),
        0 <= p <= before.len(),
        forall|i: int| 0 <= i < p ==> lex_lt((#[trigger] before[i]).0@, id@),
        p < before.len() ==> !lex_lt(before[p].0@, id@),
        !(p < before.len() && before[p].0@ == id@),
    ensures
        components_upto(ev, k + 1, before.insert(p, (id, ty))),
{
    let r = before.insert(p, (id, ty));
    assert(component_id_of(ev[k]) == Some(id@));
    if p < before.len() {
        lemma_lex_total(before[p].0@, id@);
    }
    assert forall|q: int| 0 <= q < k implies #[trigger] component_id_of(ev[q]) != Some(id@) by {
        if component_id_of(ev[q]) == Some(id@) {
            assert(has_entry(before, ev, q));
            let i = choose|i: int| 0 <= i < before.len() && (#[trigger] before[i]).0@ == id@;
            if i < p {
                lemma_lex_irreflexive(id@);
            } else if i > p {
                assert(lex_lt(before[p].0@, before[i].0@));
                lemma_lex_transitive(id@, before[p].0@, before[i].0@);
                lemma_lex_irreflexive(id@);
            }
        }
    }
    assert(first_naming(ev, k));
    assert forall|i: int, j: int| 0 <= i < j < r.len() implies lex_lt((#[trigger] r[i]).0@, (#[trigger] r[j]).0@) by {
        if i < p && j < p {
            assert(lex_lt(before[i].0@, before[j].0@));
        } else if i < p && j == p {
        } else if i < p && j > p {
            assert(r[j] == before[j - 1]);
            if j - 1 == p {
                lemma_lex_transitive(before[i].0@, id@, before[j - 1].0@);
            } else {
                assert(lex_lt(before[p].0@, before[j - 1].0@));
                lemma_lex_transitive(id@, before[p].0@, before[j - 1].0@);
                lemma_lex_transitive(before[i].0@, id@, before[j - 1].0@);
            }
        } else if i == p {
            assert(r[j] == before[j - 1]);
            if j - 1 > p {
                assert(lex_lt(before[p].0@, before[j - 1].0@));
                lemma_lex_transitive(id@, before[p].0@, before[j - 1].0@);
            }
        } else {
            assert(r[i] == before[i - 1]);
            assert(r[j] == before[j - 1]);
            assert(lex_lt(before[i - 1].0@, before[j - 1].0@));
        }
    }
    assert forall|i: int| 0 <= i < r.len() implies from_first_naming(ev, k + 1, #[trigger] r[i]) by {
        if i < p {
            assert(r[i] == before[i]);
            assert(from_first_naming(ev, k, before[i]));
        } else if i > p {
            assert(r[i] == before[i - 1]);
            assert(from_first_naming(ev, k, before[i - 1]));
        } else {
            assert(component_of(ev[k]) == Some((r[i].0@, r[i].1@)));
        }
    }
    assert forall|q: int| 0 <= q < k + 1 implies #[trigger] has_entry(r, ev, q) by {
        if q == k {
            assert(r[p].0@ == id@);
        } else {
            assert(has_entry(before, ev, q));
            if let Some(x) = component_id_of(ev[q]) {
                let i = choose|i: int| 0 <= i < before.len() && (#[trigger] before[i]).0@ == x;
                if i < p {
                    assert(r[i] == before[i]);
                } else {
                    assert(r[i + 1] == before[i]);
                }
            }
        }
    }
}

proof fn lemma_component_known(ev: Seq<TimelineEvent>, k: int, r: Seq<(String, String)>, p: int)
    requires
        0 <= k < ev.len(),
        components_upto(ev, k, r),
        0 <= p < r.len(),
        component_id_of(ev[k]) == Some(r[p].0@),
    ensures
        components_upto(ev, k + 1, r),
{
    assert forall|q: int| 0 <= q < k + 1 implies #[trigger] has_entry(r, ev, q) by {
        if q == k {
            assert(r[p].0@ == component_id_of(ev[q])->0);
        }
    }
    assert forall|i: int| 0 <= i < r.len() implies from_first_naming(ev, k + 1, #[trigger] r[i]) by {
        assert(from_first_naming(ev, k, r[i]));
    }
}

proof fn lemma_component_none(ev: Seq<TimelineEvent>, k: int, r: Seq<(String, String)>)
    requires
        0 <= k < ev.len(),
        components_upto(ev, k, r),
        component_of(ev[k]) is None,
    ensures
        components_upto(ev, k + 1, r),
{
    assert forall|i: int| 0 <= i < r.len() implies from_first_naming(ev, k + 1, #[trigger] r[i]) by {
        assert(from_first_naming(ev, k, r[i]));
    }
    assert forall|q: int| 0 <= q < k + 1 implies #[trigger] has_entry(r, ev, q) by {}
}

/// The components named in the records, sorted by id.
fn collect_component_ids(events: &[TimelineEvent]) -> (r: Vec<(String, String)>)
    ensures
        components_ok(events@, r@),
{
    let ghost ev = events@;
    let mut r: Vec<(String, String)> = Vec::new();
    let mut k: usize = 0;
    while k < events.len()
        invariant
            k <= ev.len(),
            ev == events@,
            components_upto(ev, k as int, r@),
        decreases ev.len() - k,
    {
        match component_for(&events[k]) {
            Some((id, ty)) => {
                let mut p: usize = 0;
                while p < r.len() && text_less(r[p].0.as_str(), id.as_str())
                    invariant
                        p <= r@.len(),
                        forall|i: int| 0 <= i < p ==> lex_lt((#[trigger] r@[i]).0@, id@),
                    decreases r@.len() - p,
                {
                    p = p + 1;
                }
                let present = p < r.len() && r[p].0 == id;
                if !present {
                    let ghost before = r@;
                    r.insert(p, (id, ty));
                    proof {
                        lemma_component_new(ev, k as int, before, p as int, id, ty);
                    }
                } else {
                    proof {
                        lemma_component_known(ev, k as int, r@, p as int);
                    }
                }
            },
            None => {
                proof {
                    lemma_component_none(ev, k as int, r@);
                }
            },
        }
        k = k + 1;
    }
    r
}

// ---------------------------------------------------------------------
// Component health.

/// The mathematical content of a component warning.
pub struct WarningView {
    pub severity: WarningSeverity,
    pub message: Seq<char>,
    pub detected_at: i64,
    pub evidence: Seq<char>,
}

impl View for ComponentWarning {
    type V = WarningView;

    open spec fn view(&self) -> WarningView {
        WarningView {
            severity: self.severity,
            message: self.message@,
            detected_at: self.detected_at,
            evidence: self.evidence@,
        }
    }
}

/// The mathematical content of a component's health.
pub struct HealthView {
    pub component_id: Seq<char>,
    pub component_type: Seq<char>,
    pub health_score_milli: i64,
    pub warnings: Seq<WarningView>,
    pub degradation_rate_milli: i64,
    pub anomaly_count: u64,
    pub assessed_at: i64,
}

impl View for ComponentHealth {
    type V = HealthView;

    open spec fn view(&self) -> HealthView {
        HealthView {
            component_id: self.component_id@,
            component_type: self.component_type@,
            health_score_milli: self.health_score_milli,
            warnings: self.warnings@.map_values(|w: ComponentWarning| w@),
            degradation_rate_milli: self.degradation_rate_milli,
            anomaly_count: self.anomaly_count,
            assessed_at: self.assessed_at,
        }
    }
}

/// The views of a sequence of component healths.
pub open spec fn health_views(v: Seq<ComponentHealth>) -> Seq<HealthView> {
    v.map_values(|h: ComponentHealth| h@)
}

/// Whether a record is a hardware or maintenance record of component
/// `id`.
pub open spec fn changes_component(e: TimelineEvent, id: Seq<char>) -> bool {
    match e.kind {
        TimelineEventKind::Hardware(h) => h.component_id@ == id,
        TimelineEventKind::Maintenance(m) => m.component@ == id,
        _ => false,
    }
}

/// The hardware and maintenance records of component `id` among the
/// first `n` records.
pub open spec fn change_count(ev: Seq<TimelineEvent>, id: Seq<char>, n: int) -> nat
    decreases n,
{
    if n <= 0 {
        0
    } else {
        change_count(ev, id, n - 1) + if changes_component(ev[n - 1], id) { 1nat } else { 0nat }
    }
}

/// Whether the failure rate is worsening.
pub open spec fn failure_worsening(trends: Seq<TrendReport>) -> bool {
    exists|i: int|
        0 <= i < trends.len() && (#[trigger] trends[i]).metric@ == "failure_rate"@ && trends[i].direction
            == TrendDirection::Worsening
}

/// The change rate of the first failure-rate trend (0 without one).
pub open spec fn failure_rate_change(trends: Seq<TrendReport>) -> i64
    decreases trends.len(),
{
    if trends.len() == 0 {
        0
    } else if trends[0].metric@ == "failure_rate"@ {
        trends[0].change_rate_milli
    } else {
        failure_rate_change(trends.drop_first())
    }
}

/// A component's health in thousandths: 1000, less 150 per record of
/// it, less 300 when the failure rate is worsening, never below zero.
pub open spec fn health_score(count: nat, worsening: bool) -> int {
    let s = 1000 - 150 * count - if worsening { 300int } else { 0int };
    if s < 0 { 0 } else { s }
}

/// The evidence of a health warning.
pub open spec fn score_evidence(score: int, count: nat) -> Seq<char> {
    "health_score="@ + milli_hundredths_text(score) + ", "@ + decimal(count) + " anomalies detected"@
}

/// The warnings about a component: critical below 300, significant
/// degradation below 600, minor degradation when it has records.
pub open spec fn warnings_for(ty: Seq<char>, score: int, count: nat, now: i64) -> Seq<WarningView> {
    if score < CRITICAL_HEALTH_MILLI {
        seq![
            WarningView {
                severity: WarningSeverity::Critical,
                message: ty + " is in critical condition"@,
                detected_at: now,
                evidence: score_evidence(score, count),
            },
        ]
    } else if score < WARNING_HEALTH_MILLI {
        seq![
            WarningView {
                severity: WarningSeverity::Moderate,
                message: ty + " shows significant degradation"@,
                detected_at: now,
                evidence: score_evidence(score, count),
            },
        ]
    } else if count > 0 {
        seq![
            WarningView {
                severity: WarningSeverity::Early,
                message: ty + " has minor degradation"@,
                detected_at: now,
                evidence: decimal(count) + " anomalies detected"@,
            },
        ]
    } else {
        Seq::empty()
    }
}

/// The health of one component at `now`.
pub open spec fn health_of(ev: Seq<TimelineEvent>, trends: Seq<TrendReport>, id: Seq<char>, ty: Seq<char>, now: i64) -> HealthView {
    let count = change_count(ev, id, ev.len() as int);
    let score = health_score(count, failure_worsening(trends));
    HealthView {
        component_id: id,
        component_type: ty,
        health_score_milli: score as i64,
        warnings: warnings_for(ty, score, count, now),
        degradation_rate_milli: failure_rate_change(trends),
        anomaly_count: count as u64,
        assessed_at: now,
    }
}

fn count_changes(events: &[TimelineEvent], id: &String) -> (n: u64)
    ensures
        n == change_count(events@, id@, events@.len() as int),
{
    let mut n: u64 = 0;
    let mut i: usize = 0;
    while i < events.len()
        invariant
            i <= events@.len(),
            n == change_count(events@, id@, i as int),
            n <= i,
        decreases events@.len() - i,
    {
        let hit = match &events[i].kind {
            TimelineEventKind::Hardware(h) => h.component_id == *id,
            TimelineEventKind::Maintenance(m) => m.component == *id,
            _ => false,
        };
        if hit {
            n = n + 1;
        }
        i = i + 1;
    }
    n
}

fn is_failure_worsening(trends: &Vec<TrendReport>) -> (b: bool)
    ensures
        b == failure_worsening(trends@),
{
    let mut i: usize = 0;
    while i < trends.len()
        invariant
            i <= trends@.len(),
            forall|j: int|
                0 <= j < i ==> !((#[trigger] trends@[j]).metric@ == "failure_rate"@ && trends@[j].direction
                    == TrendDirection::Worsening),
        decreases trends@.len() - i,
    {
        if str_eq(&trends[i].metric, "failure_rate") && trends[i].direction == TrendDirection::Worsening {
            return true;
        }
        i = i + 1;
    }
    false
}

fn failure_rate_change_of(trends: &Vec<TrendReport>) -> (c: i64)
    ensures
        c == failure_rate_change(trends@),
{
    let mut i: usize = 0;
    assert(trends@.skip(0) =~= trends@);
    while i < trends.len()
        invariant
            i <= trends@.len(),
            failure_rate_change(trends@) == failure_rate_change(trends@.skip(i as int)),
        decreases trends@.len() - i,
    {
        assert(trends@.skip(i as int).drop_first() =~= trends@.skip(i + 1));
        if str_eq(&trends[i].metric, "failure_rate") {
            return trends[i].change_rate_milli;
        }
        i = i + 1;
    }
    proof {
        assert(trends@.skip(i as int).len() == 0);
    }
    0
}

fn warnings_list(ty: &String, score: i64, count: u64, now: i64) -> (w: Vec<ComponentWarning>)
    requires
        0 <= score <= 1000,
    ensures
        w@.map_values(|x: ComponentWarning| x@) == warnings_for(ty@, score as int, count as nat, now),
{
    proof {
        reveal_strlit(" is in critical condition");
        reveal_strlit(" shows significant degradation");
        reveal_strlit(" has minor degradation");
        reveal_strlit("health_score=");
        reveal_strlit(", ");
        reveal_strlit(" anomalies detected");
    }
    let mut w: Vec<ComponentWarning> = Vec::new();
    if score < CRITICAL_HEALTH_MILLI || score < WARNING_HEALTH_MILLI {
        let evidence = String::from_str("health_score=").concat(crate::text::milli_to_hundredths(score).as_str()).concat(
            ", ",
        ).concat(crate::text::u64_to_decimal(count).as_str()).concat(" anomalies detected");
        if score < CRITICAL_HEALTH_MILLI {
            w.push(
                ComponentWarning {
                    severity: WarningSeverity::Critical,
                    message: ty.clone().concat(" is in critical condition"),
                    detected_at: now,
                    evidence,
                },
            );
        } else {
            w.push(
                ComponentWarning {
                    severity: WarningSeverity::Moderate,
                    message: ty.clone().concat(" shows significant degradation"),
                    detected_at: now,
                    evidence,
                },
            );
        }
    } else if count > 0 {
        w.push(
            ComponentWarning {
                severity: WarningSeverity::Early,
                message: ty.clone().concat(" has minor degradation"),
                detected_at: now,
                evidence: crate::text::u64_to_decimal(count).concat(" anomalies detected"),
            },
        );
    }
    assert(w@.map_values(|x: ComponentWarning| x@) =~= warnings_for(ty@, score as int, count as nat, now));
    w
}

/// The healths of a list of components.
pub open spec fn healths(ev: Seq<TimelineEvent>, trends: Seq<TrendReport>, comps: Seq<(String, String)>, now: i64) -> Seq<HealthView> {
    Seq::new(comps.len(), |i: int| health_of(ev, trends, comps[i].0@, comps[i].1@, now))
}

// ---------------------------------------------------------------------
// Wear reports.

/// The mathematical content of an aging report.
pub struct AgingView {
    pub component_id: Seq<char>,
    pub component_type: Seq<char>,
    pub installed: Option<i64>,
    pub age_days: Option<i64>,
    pub estimated_remaining_days: Option<i64>,
    pub estimation_basis: Seq<char>,
    pub wear_indicators: Seq<Seq<char>>,
}

impl View for AgingReport {
    type V = AgingView;

    open spec fn view(&self) -> AgingView {
        AgingView {
            component_id: self.component_id@,
            component_type: self.component_type@,
            installed: self.installed,
            age_days: self.age_days,
            estimated_remaining_days: self.estimated_remaining_days,
            estimation_basis: self.estimation_basis@,
            wear_indicators: crate::observation::texts(self.wear_indicators@),
        }
    }
}

/// The views of a sequence of aging reports.
pub open spec fn aging_views(v: Seq<AgingReport>) -> Seq<AgingView> {
    v.map_values(|r: AgingReport| r@)
}

/// A prediction with no installation data.
pub open spec fn predicted(id: Seq<char>, ty: Seq<char>, basis: Seq<char>, indicators: Seq<Seq<char>>) -> AgingView {
    AgingView {
        component_id: id,
        component_type: ty,
        installed: None,
        age_days: None,
        estimated_remaining_days: None,
        estimation_basis: basis,
        wear_indicators: indicators,
    }
}

/// Whether a pattern is a calibration loop that points at the probe:
/// of the bed mesh or the probe, or at least 3 runs last seen within
/// 14 days.
pub open spec fn is_probe_loop(p: LearnedPattern, now: i64) -> bool {
    &&& p.kind == PatternKind::CalibrationLoop
    &&& (crate::text::contains_text(p.description@, "BedMesh"@) || crate::text::contains_text(
        p.description@,
        "Probe"@,
    ) || (p.occurrences >= 3 && crate::calibration::whole_days(p.last_seen as int, now as int) <= 14))
}

/// The probe prediction: a probe calibration loop while the failure
/// rate worsens.
pub open spec fn probe_prediction(patterns: Seq<LearnedPattern>, trends: Seq<TrendReport>, now: i64) -> Seq<AgingView> {
    if (exists|i: int| 0 <= i < patterns.len() && is_probe_loop(#[trigger] patterns[i], now)) && failure_worsening(
        trends,
    ) {
        seq![
            predicted(
                "predicted_probe_failure"@,
                "probe"@,
                "calibration_loop_plus_failure_trend"@,
                seq!["repeated calibration within short window"@, "failure rate deteriorating"@],
            ),
        ]
    } else {
        Seq::empty()
    }
}

/// Whether a record is a thermal anomaly.
pub open spec fn is_thermal(e: TimelineEvent) -> bool {
    match e.kind {
        TimelineEventKind::Anomaly(a) => a.anomaly_type@ == "thermal"@ || crate::text::contains_text(
            crate::text::lowercase(a.description@),
            "temperature"@,
        ) || crate::text::contains_text(crate::text::lowercase(a.description@), "overheat"@),
        _ => false,
    }
}

/// Thermal anomalies among the first `n` records.
pub open spec fn thermal_count(ev: Seq<TimelineEvent>, n: int) -> nat
    decreases n,
{
    if n <= 0 {
        0
    } else {
        thermal_count(ev, n - 1) + if is_thermal(ev[n - 1]) { 1nat } else { 0nat }
    }
}

/// The days the anomaly frequency is measured over: those of the first
/// anomaly-frequency trend (at least 1), 30 without one.
pub open spec fn frequency_days(trends: Seq<TrendReport>) -> int
    decreases trends.len(),
{
    if trends.len() == 0 {
        30
    } else if trends[0].metric@ == "anomaly_frequency"@ {
        let d = crate::calibration::whole_days(trends[0].window_start as int, trends[0].window_end as int);
        if d < 1 { 1 } else { d }
    } else {
        frequency_days(trends.drop_first())
    }
}

/// The thermal prediction: at least 2 thermal anomalies a day.
pub open spec fn thermal_prediction(ev: Seq<TimelineEvent>, trends: Seq<TrendReport>) -> Seq<AgingView> {
    let n = thermal_count(ev, ev.len() as int);
    let days = frequency_days(trends);
    if n == 0 || n < 2 * days {
        Seq::empty()
    } else {
        seq![
            predicted(
                "predicted_thermal_degradation"@,
                "thermal"@,
                "anomaly_frequency_analysis"@,
                seq![
                    "thermal anomaly frequency "@ + crate::text::tenths_text(round_div_nat(10 * n, days))
                        + "/day exceeds threshold 2.0"@,
                    decimal(n) + " thermal anomalies detected"@,
                ],
            ),
        ]
    }
}

/// `x / d` rounded, halves up, as a natural number.
pub open spec fn round_div_nat(x: nat, d: int) -> nat {
    crate::text::round_div(x as int, d) as nat
}

/// The mechanical prediction: a worsening failure rate that changes by
/// more than 1.5.
pub open spec fn mechanical_prediction(trends: Seq<TrendReport>) -> Seq<AgingView> {
    if exists|i: int|
        0 <= i < trends.len() && (#[trigger] trends[i]).metric@ == "failure_rate"@ && trends[i].direction
            == TrendDirection::Worsening && trends[i].change_rate_milli > 1500 {
        seq![
            predicted(
                "predicted_mechanical_wear"@,
                "mechanical"@,
                "failure_rate_trend_analysis"@,
                seq!["failure rate increasing faster than baseline"@, "worsening rate exceeds 1.5x threshold"@],
            ),
        ]
    } else {
        Seq::empty()
    }
}

/// Whether a record is a communication anomaly.
pub open spec fn is_comms(e: TimelineEvent) -> bool {
    match e.kind {
        TimelineEventKind::Anomaly(a) => {
            let t = crate::text::lowercase(a.anomaly_type@);
            let d = crate::text::lowercase(a.description@);
            crate::text::contains_text(t, "comm"@) || crate::text::contains_text(t, "connection"@)
                || crate::text::contains_text(d, "communication"@) || crate::text::contains_text(d, "comms"@)
                || crate::text::contains_text(d, "connection"@)
        },
        _ => false,
    }
}

/// Communication anomalies among the first `n` records, with their
/// earliest and latest time.
pub open spec fn comms_stats(ev: Seq<TimelineEvent>, n: int) -> (nat, i64, i64)
    decreases n,
{
    if n <= 0 {
        (0, 0, 0)
    } else {
        let (c, lo, hi) = comms_stats(ev, n - 1);
        if is_comms(ev[n - 1]) {
            let t = ev[n - 1].timestamp;
            if c == 0 {
                (1, t, t)
            } else {
                (c + 1, if t < lo { t } else { lo }, if t > hi { t } else { hi })
            }
        } else {
            (c, lo, hi)
        }
    }
}

/// The communication prediction: at least 3 communication anomalies
/// within 24 hours.
pub open spec fn comms_prediction(ev: Seq<TimelineEvent>) -> Seq<AgingView> {
    let (n, lo, hi) = comms_stats(ev, ev.len() as int);
    let span_hours = (hi - lo) / 3_600_000;
    if n >= 3 && span_hours <= 24 {
        seq![
            predicted(
                "predicted_comms_issues"@,
                "communication"@,
                "anomaly_cluster_analysis"@,
                seq![decimal(n) + " communication anomalies within "@ + decimal(span_hours as nat) + "h window"@],
            ),
        ]
    } else {
        Seq::empty()
    }
}

/// All predictions at `now`: none with fewer than 10 records, otherwise
/// probe, thermal, mechanical and communication, in that order.
pub open spec fn predictions(ev: Seq<TimelineEvent>, summary: BehaviorSummary, now: i64) -> Seq<AgingView> {
    if ev.len() < MIN_EVENTS_FOR_PREDICTION {
        Seq::empty()
    } else {
        probe_prediction(summary.patterns@, summary.trends@, now) + thermal_prediction(ev, summary.trends@)
            + mechanical_prediction(summary.trends@) + comms_prediction(ev)
    }
}

fn aging(id: &str, ty: &str, basis: &str, indicators: Vec<String>) -> (r: AgingReport)
    ensures
        r@ == predicted(id@, ty@, basis@, crate::observation::texts(indicators@)),
{
    AgingReport {
        component_id: String::from_str(id),
        component_type: String::from_str(ty),
        installed: None,
        age_days: None,
        estimated_remaining_days: None,
        estimation_basis: String::from_str(basis),
        wear_indicators: indicators,
    }
}

fn two_texts(a: String, b: String) -> (v: Vec<String>)
    ensures
        crate::observation::texts(v@) == seq![a@, b@],
{
    let mut v: Vec<String> = Vec::new();
    v.push(a);
    v.push(b);
    assert(crate::observation::texts(v@) =~= seq![a@, b@]);
    v
}

fn days_between(a: i64, b: i64) -> (d: i128)
    ensures
        d == crate::calibration::whole_days(a as int, b as int),
        -0x100_0000_0000 < d < 0x100_0000_0000,
{
    let x: i128 = (b as i128) - (a as i128);
    x / (crate::learning::MS_PER_DAY as i128)
}

fn probe_report(summary: &BehaviorSummary, now: i64) -> (r: Option<AgingReport>)
    ensures
        match r {
            Some(x) => probe_prediction(summary.patterns@, summary.trends@, now) == seq![x@],
            None => probe_prediction(summary.patterns@, summary.trends@, now) == Seq::<AgingView>::empty(),
        },
{
    let mut found = false;
    let mut i: usize = 0;
    while i < summary.patterns.len()
        invariant
            i <= summary.patterns@.len(),
            found == exists|j: int| 0 <= j < i && is_probe_loop(#[trigger] summary.patterns@[j], now),
        decreases summary.patterns@.len() - i,
    {
        let p = &summary.patterns[i];
        if p.kind == PatternKind::CalibrationLoop {
            let hit = crate::text::text_contains(p.description.as_str(), "BedMesh") || crate::text::text_contains(
                p.description.as_str(),
                "Probe",
            ) || (p.occurrences >= 3 && days_between(p.last_seen, now) <= 14);
            if hit {
                found = true;
            }
        }
        assert(is_probe_loop(summary.patterns@[i as int], now) ==> found);
        i = i + 1;
    }
    if found && is_failure_worsening(&summary.trends) {
        let ind = two_texts(
            String::from_str("repeated calibration within short window"),
            String::from_str("failure rate deteriorating"),
        );
        let r = aging("predicted_probe_failure", "probe", "calibration_loop_plus_failure_trend", ind);
        Some(r)
    } else {
        None
    }
}

fn thermal_event(e: &TimelineEvent) -> (b: bool)
    ensures
        b == is_thermal(*e),
{
    match &e.kind {
        TimelineEventKind::Anomaly(a) => {
            if str_eq(&a.anomaly_type, "thermal") {
                return true;
            }
            let d = crate::text::to_lowercase(a.description.as_str());
            crate::text::text_contains(d.as_str(), "temperature") || crate::text::text_contains(
                d.as_str(),
                "overheat",
            )
        },
        _ => false,
    }
}

fn frequency_days_of(trends: &Vec<TrendReport>) -> (d: i128)
    ensures
        d == frequency_days(trends@),
        1 <= d < 0x100_0000_0000,
{
    let mut i: usize = 0;
    assert(trends@.skip(0) =~= trends@);
    while i < trends.len()
        invariant
            i <= trends@.len(),
            frequency_days(trends@) == frequency_days(trends@.skip(i as int)),
        decreases trends@.len() - i,
    {
        assert(trends@.skip(i as int).drop_first() =~= trends@.skip(i + 1));
        if str_eq(&trends[i].metric, "anomaly_frequency") {
            let d = days_between(trends[i].window_start, trends[i].window_end);
            return if d < 1 {
                1
            } else {
                d
            };
        }
        i = i + 1;
    }
    proof {
        assert(trends@.skip(i as int).len() == 0);
    }
    30
}

fn thermal_report(events: &[TimelineEvent], summary: &BehaviorSummary) -> (r: Option<AgingReport>)
    ensures
        match r {
            Some(x) => thermal_prediction(events@, summary.trends@) == seq![x@],
            None => thermal_prediction(events@, summary.trends@) == Seq::<AgingView>::empty(),
        },
{
    let mut n: u64 = 0;
    let mut i: usize = 0;
    while i < events.len()
        invariant
            i <= events@.len(),
            n == thermal_count(events@, i as int),
            n <= i,
        decreases events@.len() - i,
    {
        if thermal_event(&events[i]) {
            n = n + 1;
        }
        i = i + 1;
    }
    let days = frequency_days_of(&summary.trends);
    if n == 0 || (n as i128) < 2 * days {
        return None;
    }
    proof {
        reveal_strlit("thermal anomaly frequency ");
        reveal_strlit("/day exceeds threshold 2.0");
        reveal_strlit(" thermal anomalies detected");
    }
    let tenths = crate::text::round_div_i128(10 * (n as i128), days);
    proof {
        assert(tenths >= 0) by (nonlinear_arith)
            requires
                tenths == crate::text::round_div(10 * (n as int), days as int),
                n >= 0,
                days >= 1,
        ;
    }
    let a = String::from_str("thermal anomaly frequency ").concat(crate::text::tenths_to_text(tenths as u128).as_str()).concat(
        "/day exceeds threshold 2.0",
    );
    let b = crate::text::u64_to_decimal(n).concat(" thermal anomalies detected");
    let ind = two_texts(a, b);
    Some(aging("predicted_thermal_degradation", "thermal", "anomaly_frequency_analysis", ind))
}

fn mechanical_report(summary: &BehaviorSummary) -> (r: Option<AgingReport>)
    ensures
        match r {
            Some(x) => mechanical_prediction(summary.trends@) == seq![x@],
            None => mechanical_prediction(summary.trends@) == Seq::<AgingView>::empty(),
        },
{
    let trends = &summary.trends;
    let mut found = false;
    let mut i: usize = 0;
    while i < trends.len()
        invariant
            i <= trends@.len(),
            found == exists|j: int|
                0 <= j < i && (#[trigger] trends@[j]).metric@ == "failure_rate"@ && trends@[j].direction
                    == TrendDirection::Worsening && trends@[j].change_rate_milli > 1500,
        decreases trends@.len() - i,
    {
        if str_eq(&trends[i].metric, "failure_rate") && trends[i].direction == TrendDirection::Worsening
            && trends[i].change_rate_milli > 1500 {
            found = true;
        }
        i = i + 1;
    }
    if found {
        let ind = two_texts(
            String::from_str("failure rate increasing faster than baseline"),
            String::from_str("worsening rate exceeds 1.5x threshold"),
        );
        Some(aging("predicted_mechanical_wear", "mechanical", "failure_rate_trend_analysis", ind))
    } else {
        None
    }
}

fn comms_event(e: &TimelineEvent) -> (b: bool)
    ensures
        b == is_comms(*e),
{
    match &e.kind {
        TimelineEventKind::Anomaly(a) => {
            let t = crate::text::to_lowercase(a.anomaly_type.as_str());
            let d = crate::text::to_lowercase(a.description.as_str());
            crate::text::text_contains(t.as_str(), "comm") || crate::text::text_contains(t.as_str(), "connection")
                || crate::text::text_contains(d.as_str(), "communication") || crate::text::text_contains(
                d.as_str(),
                "comms",
            ) || crate::text::text_contains(d.as_str(), "connection")
        },
        _ => false,
    }
}

fn comms_report(events: &[TimelineEvent]) -> (r: Option<AgingReport>)
    ensures
        match r {
            Some(x) => comms_prediction(events@) == seq![x@],
            None => comms_prediction(events@) == Seq::<AgingView>::empty(),
        },
{
    let mut n: u64 = 0;
    let mut lo: i64 = 0;
    let mut hi: i64 = 0;
    let mut i: usize = 0;
    while i < events.len()
        invariant
            i <= events@.len(),
            (n as nat, lo, hi) == comms_stats(events@, i as int),
            n <= i,
            n > 0 ==> lo <= hi,
        decreases events@.len() - i,
    {
        if comms_event(&events[i]) {
            let t = events[i].timestamp;
            if n == 0 {
                lo = t;
                hi = t;
            } else {
                if t < lo {
                    lo = t;
                }
                if t > hi {
                    hi = t;
                }
            }
            n = n + 1;
        }
        i = i + 1;
    }
    if n < 3 {
        return None;
    }
    let span: i128 = ((hi as i128) - (lo as i128)) / 3_600_000;
    if span > 24 {
        return None;
    }
    proof {
        reveal_strlit(" communication anomalies within ");
        reveal_strlit("h window");
    }
    let text = crate::text::u64_to_decimal(n).concat(" communication anomalies within ").concat(
        crate::text::u64_to_decimal(span as u64).as_str(),
    ).concat("h window");
    let mut ind: Vec<String> = Vec::new();
    ind.push(text);
    assert(crate::observation::texts(ind@) =~= seq![text@]);
    Some(aging("predicted_comms_issues", "communication", "anomaly_cluster_analysis", ind))
}

fn push_report(v: &mut Vec<AgingReport>, r: Option<AgingReport>, Ghost(expected): Ghost<Seq<AgingView>>)
    requires
        match r {
            Some(x) => expected == seq![x@],
            None => expected == Seq::<AgingView>::empty(),
        },
    ensures
        aging_views(final(v)@) == aging_views(old(v)@) + expected,
{
    match r {
        Some(x) => {
            v.push(x);
            assert(aging_views(final(v)@) =~= aging_views(old(v)@) + expected);
        },
        None => {
            assert(aging_views(old(v)@) + expected =~= aging_views(old(v)@));
        },
    }
}

/// A probe failure is predicted only when it is borne out: the report
/// named "predicted_probe_failure" appears in the predictions only when
/// some trend of the failure rate is worsening and some learned pattern
/// is a calibration loop, and then it is the probe report built from
/// those two signals.
pub proof fn lemma_probe_needs_worsening_failures(ev: Seq<TimelineEvent>, summary: BehaviorSummary, now: i64, k: int)
    requires
        0 <= k < predictions(ev, summary, now).len(),
        predictions(ev, summary, now)[k].component_id == "predicted_probe_failure"@,
    ensures
        exists|i: int|
            0 <= i < summary.trends@.len() && (#[trigger] summary.trends@[i]).metric@ == "failure_rate"@
                && summary.trends@[i].direction == TrendDirection::Worsening,
        exists|j: int| 0 <= j < summary.patterns@.len() && (#[trigger] summary.patterns@[j]).kind == PatternKind::CalibrationLoop,
        predictions(ev, summary, now)[k].component_type == "probe"@,
        predictions(ev, summary, now)[k].estimation_basis == "calibration_loop_plus_failure_trend"@,
        predictions(ev, summary, now)[k].wear_indicators == seq![
            "repeated calibration within short window"@,
            "failure rate deteriorating"@,
        ],
        k == 0,
        ev.len() >= 10,
{
    reveal_strlit("predicted_probe_failure");
    reveal_strlit("predicted_thermal_degradation");
    reveal_strlit("predicted_mechanical_wear");
    reveal_strlit("predicted_comms_issues");
    let p = probe_prediction(summary.patterns@, summary.trends@, now);
    let t = thermal_prediction(ev, summary.trends@);
    let m = mechanical_prediction(summary.trends@);
    let c = comms_prediction(ev);
    let all = predictions(ev, summary, now);
    assert(ev.len() >= 10);
    assert(all == p + t + m + c);
    assert(p.len() <= 1 && t.len() <= 1 && m.len() <= 1 && c.len() <= 1);
    if k >= p.len() {
        let r = all[k];
        if k < p.len() + t.len() {
            assert(r == t[k - p.len()]);
            assert(r.component_id == "predicted_thermal_degradation"@);
            assert(r.component_id[10] != "predicted_probe_failure"@[10]);
        } else if k < p.len() + t.len() + m.len() {
            assert(r == m[k - p.len() - t.len()]);
            assert(r.component_id[10] != "predicted_probe_failure"@[10]);
        } else {
            assert(r == c[k - p.len() - t.len() - m.len()]);
            assert(r.component_id[10] != "predicted_probe_failure"@[10]);
        }
    }
    assert(p.len() == 1);
    assert(all[k] == p[0]);
}

/// A bed-mesh or probe calibration loop while the failure rate worsens
/// predicts a probe failure: with at least 10 records, the first
/// prediction is then the probe report.
pub proof fn lemma_probe_loop_with_worsening_failures(ev: Seq<TimelineEvent>, summary: BehaviorSummary, now: i64, i: int, j: int)
    requires
        ev.len() >= 10,
        0 <= i < summary.trends@.len(),
        summary.trends@[i].metric@ == "failure_rate"@,
        summary.trends@[i].direction == TrendDirection::Worsening,
        0 <= j < summary.patterns@.len(),
        summary.patterns@[j].kind == PatternKind::CalibrationLoop,
        crate::text::contains_text(summary.patterns@[j].description@, "BedMesh"@) || crate::text::contains_text(
            summary.patterns@[j].description@,
            "Probe"@,
        ),
    ensures
        predictions(ev, summary, now).len() >= 1,
        predictions(ev, summary, now)[0].component_id == "predicted_probe_failure"@,
        predictions(ev, summary, now)[0].component_type == "probe"@,
{
    assert(is_probe_loop(summary.patterns@[j], now));
    assert(failure_worsening(summary.trends@));
    let p = probe_prediction(summary.patterns@, summary.trends@, now);
    assert(p.len() == 1);
    let all = predictions(ev, summary, now);
    assert(all == p + thermal_prediction(ev, summary.trends@) + mechanical_prediction(summary.trends@) + comms_prediction(ev));
    assert(all[0] == p[0]);
}

/// Predicts component failures from thresholds.
pub struct FailurePredictor;

impl FailurePredictor {
    /// The wear reports at `now`: none with fewer than 10 records;
    /// otherwise a probe report (a probe calibration loop while the
    /// failure rate worsens), a thermal report (at least 2 thermal
    /// anomalies a day), a mechanical report (the failure rate worsening
    /// by more than 1.5) and a communication report (at least 3
    /// communication anomalies within 24 hours), each when it applies.
    pub fn predict_at(events: &[TimelineEvent], summary: &BehaviorSummary, now: i64) -> (res: Vec<AgingReport>)
        ensures
            aging_views(res@) == predictions(events@, *summary, now),
    {
        let mut res: Vec<AgingReport> = Vec::new();
        if events.len() < MIN_EVENTS_FOR_PREDICTION {
            assert(aging_views(res@) =~= Seq::<AgingView>::empty());
            return res;
        }
        assert(aging_views(res@) =~= Seq::<AgingView>::empty());
        push_report(&mut res, probe_report(summary, now), Ghost(probe_prediction(summary.patterns@, summary.trends@, now)));
        push_report(&mut res, thermal_report(events, summary), Ghost(thermal_prediction(events@, summary.trends@)));
        push_report(&mut res, mechanical_report(summary), Ghost(mechanical_prediction(summary.trends@)));
        push_report(&mut res, comms_report(events), Ghost(comms_prediction(events@)));
        assert(aging_views(res@) =~= predictions(events@, *summary, now));
        res
    }

    /// The wear reports as of now (the clock is read once).
    pub fn predict(events: &[TimelineEvent], summary: &BehaviorSummary) -> (res: Vec<AgingReport>)
        ensures
            exists|now: i64| aging_views(res@) == predictions(events@, *summary, now),
    {
        let now = crate::clock::now_millis();
        Self::predict_at(events, summary, now)
    }

    /// The health of each component named in the records (by hardware,
    /// maintenance or configuration records), in the order of their ids,
    /// assessed at `now`: 1000, less 150 per hardware or maintenance
    /// record of it, less 300 when the failure rate worsens.
    pub fn component_health_at(events: &[TimelineEvent], summary: &BehaviorSummary, now: i64) -> (res: Vec<
        ComponentHealth,
    >)
        ensures
            exists|comps: Seq<(String, String)>|
                components_ok(events@, comps) && health_views(res@) == healths(events@, summary.trends@, comps, now),
    {
        let comps = collect_component_ids(events);
        let worsening = is_failure_worsening(&summary.trends);
        let rate = failure_rate_change_of(&summary.trends);
        let mut res: Vec<ComponentHealth> = Vec::new();
        let mut i: usize = 0;
        while i < comps.len()
            invariant
                i <= comps@.len(),
                worsening == failure_worsening(summary.trends@),
                rate == failure_rate_change(summary.trends@),
                res@.len() == i,
                forall|j: int|
                    0 <= j < i ==> (#[trigger] res@[j])@ == health_of(
                        events@,
                        summary.trends@,
                        comps@[j].0@,
                        comps@[j].1@,
                        now,
                    ),
            decreases comps@.len() - i,
        {
            let (id, ty) = (&comps[i].0, &comps[i].1);
            let count = count_changes(events, id);
            let penalty: i128 = 150 * (count as i128) + if worsening { 300 } else { 0 };
            let score: i64 = if 1000 - penalty < 0 {
                0
            } else {
                (1000 - penalty) as i64
            };
            let warnings = warnings_list(ty, score, count, now);
            let h = ComponentHealth {
                component_id: id.clone(),
                component_type: ty.clone(),
                health_score_milli: score,
                warnings,
                degradation_rate_milli: rate,
                anomaly_count: count,
                assessed_at: now,
            };
            res.push(h);
            i = i + 1;
        }
        assert(health_views(res@) =~= healths(events@, summary.trends@, comps@, now));
        res
    }

    /// The health of each component as of now (the clock is read once).
    pub fn component_health(events: &[TimelineEvent], summary: &BehaviorSummary) -> (res: Vec<ComponentHealth>)
        ensures
            exists|now: i64, comps: Seq<(String, String)>|
                components_ok(events@, comps) && health_views(res@) == healths(events@, summary.trends@, comps, now),
    {
        let now = crate::clock::now_millis();
        Self::component_health_at(events, summary, now)
    }
}

} // verus!
