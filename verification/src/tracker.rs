//! Observation lifecycle tracking and scoring.

use vstd::prelude::*;
use vstd::string::*;

use crate::knowledge::{KnowledgeKind, ObservationState};
use crate::observation::{AnomalyCategory, Observation, ObservationKind, Severity};

verus! {

/// The evidence count that confidence is based on.
pub open spec fn evidence_count(kind: ObservationKind) -> nat {
    match kind {
        ObservationKind::AnomalyDetected { evidence, .. } => evidence@.len(),
        _ => 1,
    }
}

/// Confidence in thousandths: rules are heuristics (700), health
/// snapshots are calculations (900), print lifecycle records are direct
/// state transitions (950); every piece of evidence beyond the first adds
/// 50, up to 1000.
pub open spec fn confidence_spec(kind: ObservationKind) -> int {
    let base: int = match kind {
        ObservationKind::AnomalyDetected { .. } => 700,
        ObservationKind::HealthSnapshot { .. } => 900,
        _ => 950,
    };
    let n = evidence_count(kind);
    let bonus: int = if n >= 1 { 50 * (n - 1) } else { 0 };
    if base + bonus > 1000 { 1000 } else { base + bonus }
}

/// Scores observations.
pub struct KnowledgeScorer;

impl KnowledgeScorer {
    pub fn new() -> (s: Self) {
        KnowledgeScorer
    }

    /// How certain it is that the observation is meaningful, in
    /// thousandths.
    pub fn confidence(&self, kind: &ObservationKind) -> (c: i64)
        ensures
            c == confidence_spec(*kind),
    {
        let (base, n): (i64, usize) = match kind {
            ObservationKind::AnomalyDetected { evidence, .. } => (700, evidence.len()),
            ObservationKind::HealthSnapshot { .. } => (900, 1),
            _ => (950, 1),
        };
        if n == 0 {
            return base;
        }
        let extra = n - 1;
        if extra >= 7 {
            1000
        } else {
            let v = base + 50 * (extra as i64);
            if v > 1000 { 1000 } else { v }
        }
    }
}

/// The category name of an observation kind.
pub open spec fn category_name(kind: ObservationKind) -> Seq<char> {
    match kind {
        ObservationKind::AnomalyDetected { category, .. } => match category {
            AnomalyCategory::TemperatureInstability => "anomaly_temperatureinstability"@,
            AnomalyCategory::ExcessiveErrors => "anomaly_excessiveerrors"@,
            AnomalyCategory::RepeatedFailures => "anomaly_repeatedfailures"@,
            AnomalyCategory::CalibrationOverdue => "anomaly_calibrationoverdue"@,
        },
        ObservationKind::PrintFailed { .. } => "print_failed"@,
        ObservationKind::PrintCompleted { .. } => "print_completed"@,
        ObservationKind::PrintStarted { .. } => "print_started"@,
        ObservationKind::PrintSummary { .. } => "print_summary"@,
        ObservationKind::HealthSnapshot { .. } => "health_snapshot"@,
    }
}

/// The severity name of an observation kind.
pub open spec fn severity_name(kind: ObservationKind) -> Seq<char> {
    match kind {
        ObservationKind::AnomalyDetected { severity, .. } => match severity {
            Severity::Info => "info"@,
            Severity::Warning => "warning"@,
            Severity::Critical => "critical"@,
        },
        ObservationKind::PrintFailed { .. } => "warning"@,
        _ => "info"@,
    }
}

fn category_of(kind: &ObservationKind) -> (s: String)
    ensures
        s@ == category_name(*kind),
{
    let s = match kind {
        ObservationKind::AnomalyDetected { category, .. } => match category {
            AnomalyCategory::TemperatureInstability => "anomaly_temperatureinstability",
            AnomalyCategory::ExcessiveErrors => "anomaly_excessiveerrors",
            AnomalyCategory::RepeatedFailures => "anomaly_repeatedfailures",
            AnomalyCategory::CalibrationOverdue => "anomaly_calibrationoverdue",
        },
        ObservationKind::PrintFailed { .. } => "print_failed",
        ObservationKind::PrintCompleted { .. } => "print_completed",
        ObservationKind::PrintStarted { .. } => "print_started",
        ObservationKind::PrintSummary { .. } => "print_summary",
        ObservationKind::HealthSnapshot { .. } => "health_snapshot",
    };
    String::from_str(s)
}

fn severity_of(kind: &ObservationKind) -> (s: String)
    ensures
        s@ == severity_name(*kind),
{
    let s = match kind {
        ObservationKind::AnomalyDetected { severity, .. } => match severity {
            Severity::Info => "info",
            Severity::Warning => "warning",
            Severity::Critical => "critical",
        },
        ObservationKind::PrintFailed { .. } => "warning",
        _ => "info",
    };
    String::from_str(s)
}

/// One observation being tracked. Scores are in thousandths.
pub struct TrackedObservation {
    pub id: String,
    pub observation_id: String,
    pub category: String,
    pub severity: String,
    pub importance_milli: i64,
    pub confidence_milli: i64,
    pub state: ObservationState,
    pub resolution: Option<String>,
    pub created_at: i64,
    pub resolved_at: Option<i64>,
    /// How many observations of this category have been recorded,
    /// this one included.
    pub repeat_count: u64,
}

/// The number of tracked observations of a category.
pub open spec fn count_category(s: Seq<TrackedObservation>, c: Seq<char>) -> nat
    decreases s.len(),
{
    if s.len() == 0 {
        0
    } else {
        count_category(s.drop_last(), c) + if s.last().category@ == c { 1nat } else { 0nat }
    }
}

/// The repeat count of the next observation of category `c`: those
/// already tracked, plus one (held at `u64::MAX`).
pub open spec fn repeat_count_spec(s: Seq<TrackedObservation>, c: Seq<char>) -> int {
    let n: int = count_category(s, c) as int + 1;
    if n > u64::MAX { u64::MAX as int } else { n }
}

/// The number of tracked observations in a state.
pub open spec fn count_state(s: Seq<TrackedObservation>, st: ObservationState) -> nat
    decreases s.len(),
{
    if s.len() == 0 {
        0
    } else {
        count_state(s.drop_last(), st) + if s.last().state == st { 1nat } else { 0nat }
    }
}

/// The position of the first entry for an observation id.
pub open spec fn first_entry(s: Seq<TrackedObservation>, id: Seq<char>) -> Option<int> {
    if exists|i: int| 0 <= i < s.len() && (#[trigger] s[i]).observation_id@ == id {
        let i = choose|i: int|
            0 <= i < s.len() && (#[trigger] s[i]).observation_id@ == id && forall|j: int|
                0 <= j < i ==> (#[trigger] s[j]).observation_id@ != id;
        Some(i)
    } else {
        None
    }
}

/// The entries after recording an observation: one more, at the end,
/// Active, carrying the observation's id, category, severity, time,
/// confidence, the given importance and its repeat count.
pub open spec fn recorded(
    old: Seq<TrackedObservation>,
    new: Seq<TrackedObservation>,
    observation: Observation,
    importance_milli: i64,
) -> bool {
    &&& new.len() == old.len() + 1
    &&& new.drop_last() == old
    &&& ({
        let e = new.last();
        &&& e.observation_id@ == observation.id@
        &&& e.category@ == category_name(observation.kind)
        &&& e.severity@ == severity_name(observation.kind)
        &&& e.importance_milli == importance_milli
        &&& e.confidence_milli == confidence_spec(observation.kind)
        &&& e.state == ObservationState::Active
        &&& e.resolution is None
        &&& e.created_at == observation.timestamp
        &&& e.resolved_at is None
        &&& e.repeat_count == repeat_count_spec(old, category_name(observation.kind))
    })
}

/// Tracks the observations of one printer.
pub struct ObservationTracker {
    entries: Vec<TrackedObservation>,
    scorer: KnowledgeScorer,
}

impl View for ObservationTracker {
    type V = Seq<TrackedObservation>;

    closed spec fn view(&self) -> Seq<TrackedObservation> {
        self.entries@
    }
}

/// Finds the first index satisfying `s[i].observation_id@ == id`.
proof fn lemma_first_entry(s: Seq<TrackedObservation>, id: Seq<char>, k: int)
    requires
        0 <= k < s.len(),
        s[k].observation_id@ == id,
        forall|j: int| 0 <= j < k ==> (#[trigger] s[j]).observation_id@ != id,
    ensures
        first_entry(s, id) == Some(k),
{
    assert(s[k].observation_id@ == id);
    let i = choose|i: int|
        0 <= i < s.len() && (#[trigger] s[i]).observation_id@ == id && forall|j: int|
            0 <= j < i ==> (#[trigger] s[j]).observation_id@ != id;
    if i < k {
        assert(s[i].observation_id@ != id);
    } else if i > k {
        assert(s[k].observation_id@ != id);
    }
}

/// Taking out the element at `i` and putting `x` in its place replaces it.
pub(crate) proof fn lemma_remove_insert<T>(s: Seq<T>, i: int, x: T)
    requires
        0 <= i < s.len(),
    ensures
        s.remove(i).insert(i, x) == s.update(i, x),
{
    assert(s.remove(i).insert(i, x) =~= s.update(i, x));
}

impl ObservationTracker {
    pub fn new() -> (t: Self)
        ensures
            t@ == Seq::<TrackedObservation>::empty(),
    {
        ObservationTracker { entries: Vec::new(), scorer: KnowledgeScorer::new() }
    }

    /// The repeat count the next observation of this kind would get:
    /// the tracked observations of its category, plus one.
    pub fn next_repeat_count(&self, kind: &ObservationKind) -> (n: u64)
        ensures
            n == repeat_count_spec(self@, category_name(*kind)),
    {
        let category = category_of(kind);
        let mut n: u64 = 0;
        let mut i: usize = 0;
        while i < self.entries.len()
            invariant
                i <= self.entries@.len(),
                category@ == category_name(*kind),
                n == count_category(self.entries@.subrange(0, i as int), category@),
                n <= i,
            decreases self.entries@.len() - i,
        {
            assert(self.entries@.subrange(0, i + 1).drop_last() =~= self.entries@.subrange(0, i as int));
            if self.entries[i].category == category {
                n = n + 1;
            }
            i = i + 1;
        }
        assert(self.entries@.subrange(0, i as int) =~= self.entries@);
        if n == u64::MAX { n } else { n + 1 }
    }

    /// Records a new observation, with its importance (thousandths) as
    /// scored by the caller; it starts Active.
    pub fn record(&mut self, observation: &Observation, importance_milli: i64) -> (res: Option<
        KnowledgeKind,
    >)
        ensures
            recorded(old(self)@, final(self)@, *observation, importance_milli),
            res matches Some(KnowledgeKind::ObservationTracked { observation_id, importance_milli: i, confidence_milli: c })
                && observation_id@ == observation.id@ && i == importance_milli && c == confidence_spec(observation.kind),
    {
        let repeat_count = self.next_repeat_count(&observation.kind);
        let confidence = self.scorer.confidence(&observation.kind);
        let entry = TrackedObservation {
            id: crate::ids::time_ordered_id(),
            observation_id: observation.id.clone(),
            category: category_of(&observation.kind),
            severity: severity_of(&observation.kind),
            importance_milli,
            confidence_milli: confidence,
            state: ObservationState::Active,
            resolution: None,
            created_at: observation.timestamp,
            resolved_at: None,
            repeat_count,
        };
        self.entries.push(entry);
        assert(self.entries@.drop_last() =~= old(self).entries@);
        Some(
            KnowledgeKind::ObservationTracked {
                observation_id: observation.id.clone(),
                importance_milli,
                confidence_milli: confidence,
            },
        )
    }

    fn find(&self, observation_id: &String) -> (res: Option<usize>)
        ensures
            match res {
                Some(i) => i < self@.len() && first_entry(self@, observation_id@) == Some(i as int),
                None => first_entry(self@, observation_id@) is None,
            },
    {
        let mut i: usize = 0;
        while i < self.entries.len()
            invariant
                i <= self.entries@.len(),
                forall|j: int| 0 <= j < i ==> (#[trigger] self.entries@[j]).observation_id@ != observation_id@,
            decreases self.entries@.len() - i,
        {
            if self.entries[i].observation_id == *observation_id {
                proof {
                    lemma_first_entry(self.entries@, observation_id@, i as int);
                }
                return Some(i);
            }
            i = i + 1;
        }
        None
    }

    /// Resolves the first observation with this id, stamping the current
    /// time; `None` when no observation has it.
    pub fn resolve(&mut self, observation_id: String, resolution: String) -> (res: Option<
        KnowledgeKind,
    >)
        ensures
            match first_entry(old(self)@, observation_id@) {
                None => final(self)@ == old(self)@ && res is None,
                Some(i) => {
                    &&& final(self)@.len() == old(self)@.len()
                    &&& forall|j: int| 0 <= j < old(self)@.len() && j != i ==> #[trigger] final(self)@[j] == old(self)@[j]
                    &&& final(self)@[i].state == ObservationState::Resolved
                    &&& crate::text::opt_text(final(self)@[i].resolution) == Some(resolution@)
                    &&& final(self)@[i].resolved_at is Some
                    &&& final(self)@[i].observation_id == old(self)@[i].observation_id
                    &&& final(self)@[i].category == old(self)@[i].category
                    &&& final(self)@[i].repeat_count == old(self)@[i].repeat_count
                    &&& res matches Some(KnowledgeKind::ObservationResolved { observation_id: o, resolution: r })
                        && o@ == observation_id@ && r@ == resolution@
                },
            },
    {
        match self.find(&observation_id) {
            None => None,
            Some(i) => {
                let now = crate::clock::now_millis();
                let mut entry = self.entries.remove(i);
                entry.state = ObservationState::Resolved;
                entry.resolution = Some(resolution.clone());
                entry.resolved_at = Some(now);
                self.entries.insert(i, entry);
                Some(KnowledgeKind::ObservationResolved { observation_id, resolution })
            },
        }
    }

    /// Acknowledges the first observation with this id when it is active
    /// (an acknowledged or resolved one stays as it is); false when no
    /// observation has it.
    pub fn acknowledge(&mut self, observation_id: &String) -> (found: bool)
        ensures
            match first_entry(old(self)@, observation_id@) {
                None => final(self)@ == old(self)@ && !found,
                Some(i) => {
                    &&& found
                    &&& final(self)@ == if old(self)@[i].state == ObservationState::Active {
                        old(self)@.update(
                            i,
                            TrackedObservation { state: ObservationState::Acknowledged, ..old(self)@[i] },
                        )
                    } else {
                        old(self)@
                    }
                },
            },
    {
        match self.find(observation_id) {
            None => false,
            Some(i) => {
                if self.entries[i].state != ObservationState::Active {
                    return true;
                }
                let ghost before = self.entries@;
                let entry = self.entries.remove(i);
                let updated = TrackedObservation { state: ObservationState::Acknowledged, ..entry };
                self.entries.insert(i, updated);
                proof {
                    lemma_remove_insert(before, i as int, updated);
                }
                true
            },
        }
    }

    fn count(&self, st: ObservationState) -> (n: usize)
        ensures
            n == count_state(self@, st),
    {
        let mut n: usize = 0;
        let mut i: usize = 0;
        while i < self.entries.len()
            invariant
                i <= self.entries@.len(),
                n == count_state(self.entries@.subrange(0, i as int), st),
                n <= i,
            decreases self.entries@.len() - i,
        {
            assert(self.entries@.subrange(0, i + 1).drop_last() =~= self.entries@.subrange(0, i as int));
            if self.entries[i].state == st {
                n = n + 1;
            }
            i = i + 1;
        }
        assert(self.entries@.subrange(0, i as int) =~= self.entries@);
        n
    }

    /// Observations still Active.
    pub fn active_count(&self) -> (n: usize)
        ensures
            n == count_state(self@, ObservationState::Active),
    {
        self.count(ObservationState::Active)
    }

    /// Observations Resolved.
    pub fn resolved_count(&self) -> (n: usize)
        ensures
            n == count_state(self@, ObservationState::Resolved),
    {
        self.count(ObservationState::Resolved)
    }

    /// All tracked observations, in recording order.
    pub fn entries(&self) -> (s: &[TrackedObservation])
        ensures
            s@ == self@,
    {
        self.entries.as_slice()
    }

    /// Whether an observation of this category is still Active.
    pub fn has_active_anomaly(&self, category: &str) -> (b: bool)
        ensures
            b == exists|i: int|
                0 <= i < self@.len() && (#[trigger] self@[i]).category@ == category@ && self@[i].state
                    == ObservationState::Active,
    {
        let key = String::from_str(category);
        let mut i: usize = 0;
        while i < self.entries.len()
            invariant
                i <= self.entries@.len(),
                key@ == category@,
                forall|j: int|
                    0 <= j < i ==> !((#[trigger] self.entries@[j]).category@ == category@
                        && self.entries@[j].state == ObservationState::Active),
            decreases self.entries@.len() - i,
        {
            if self.entries[i].category == key && self.entries[i].state == ObservationState::Active {
                return true;
            }
            i = i + 1;
        }
        false
    }
}

/// Every tracked observation is Active, Acknowledged or Resolved.
pub proof fn lemma_states_partition(s: Seq<TrackedObservation>)
    ensures
        count_state(s, ObservationState::Active) + count_state(s, ObservationState::Acknowledged)
            + count_state(s, ObservationState::Resolved) == s.len(),
    decreases s.len(),
{
    if s.len() > 0 {
        lemma_states_partition(s.drop_last());
    }
}

/// Confidence always lies between 700 and 1000 (thousandths).
pub proof fn lemma_confidence_bounded(k: ObservationKind)
    ensures
        700 <= confidence_spec(k) <= 1000,
{
}

/// More evidence never lowers an anomaly's confidence.
pub proof fn lemma_confidence_grows_with_evidence(a: ObservationKind, b: ObservationKind)
    requires
        a is AnomalyDetected,
        b is AnomalyDetected,
        evidence_count(a) <= evidence_count(b),
    ensures
        confidence_spec(a) <= confidence_spec(b),
{
}

} // verus!
