//! The knowledge engine's decisions: per printer, an observation is
//! observations, fed to the profile and to the timeline, and the knowledge
//! records that result are emitted; every fiftieth observation also
//! emits a snapshot of every printer.

use vstd::prelude::*;
use vstd::string::*;

use crate::knowledge::KnowledgeKind;
use crate::knowledge_timeline::{
    bumped, entry_for, next_print_count, TimelineBuilder, TimelineBuilderView,
};
use crate::observation::{Observation, ObservationKind};
use crate::profiler::{profile_step, updates_profile, PrinterProfiler, ProfileView};
use crate::tracker::{
    confidence_spec, count_state, recorded, ObservationTracker, TrackedObservation,
};
use crate::knowledge::ObservationState;

verus! {

/// Every how many observations a snapshot of every printer is emitted.
pub const SNAPSHOT_INTERVAL: u64 = 50;

/// What the engine knows about one printer.
pub struct PrinterKnowledge {
    pub printer_id: String,
    tracker: ObservationTracker,
    profiler: PrinterProfiler,
    timeline: TimelineBuilder,
}

/// The mathematical content of a printer's knowledge.
pub struct PrinterKnowledgeView {
    pub printer_id: Seq<char>,
    pub observations: Seq<TrackedObservation>,
    pub profile: ProfileView,
    pub timeline: TimelineBuilderView,
}

impl View for PrinterKnowledge {
    type V = PrinterKnowledgeView;

    closed spec fn view(&self) -> PrinterKnowledgeView {
        PrinterKnowledgeView {
            printer_id: self.printer_id@,
            observations: self.tracker@,
            profile: self.profiler@,
            timeline: self.timeline@,
        }
    }
}

/// The views of the printers' knowledge.
pub open spec fn knowledge_views(v: Seq<PrinterKnowledge>) -> Seq<PrinterKnowledgeView> {
    v.map_values(|p: PrinterKnowledge| p@)
}

/// The abstract state of the engine.
pub struct KnowledgeEngineView {
    pub printers: Seq<PrinterKnowledgeView>,
    pub observation_count: u64,
}

/// Knowledge about a printer that has seen nothing yet.
pub open spec fn is_new_printer(p: PrinterKnowledgeView, printer_id: Seq<char>) -> bool {
    &&& p.printer_id == printer_id
    &&& p.observations.len() == 0
    &&& p.profile.printer_id == printer_id
    &&& p.profile.model is None && p.profile.firmware is None
    &&& p.profile.successful_prints == 0 && p.profile.failed_prints == 0
    &&& p.profile.avg_print_duration_ms is None && p.profile.reliability_milli is None
    &&& p.profile.known_issues.len() == 0
    &&& p.timeline.entries.len() == 0 && p.timeline.print_count == 0
}

/// One observation (with its importance) applied to a printer's
/// knowledge.
pub open spec fn knowledge_step(
    before: PrinterKnowledgeView,
    after: PrinterKnowledgeView,
    obs: Observation,
    importance_milli: i64,
) -> bool {
    &&& after.printer_id == before.printer_id
    &&& recorded(before.observations, after.observations, obs, importance_milli)
    &&& if updates_profile(obs.kind) {
        after.profile == ProfileView { updated_at: after.profile.updated_at, ..profile_step(before.profile, obs) }
    } else {
        after.profile == before.profile
    }
    &&& after.timeline.print_count == next_print_count(before.timeline.print_count, obs.kind)
    &&& match entry_for(after.timeline.print_count, obs) {
        Some(c) => after.timeline.entries == before.timeline.entries.push(c),
        None => after.timeline.entries == before.timeline.entries,
    }
}

/// The records emitted for one observation of printer `p` (after it is
/// applied), before any snapshot: the tracked observation, the updated
/// profile when it changed, then the timeline entry when one was added.
pub open spec fn emitted(res: Seq<KnowledgeKind>, p: PrinterKnowledgeView, obs: Observation, importance_milli: i64) -> bool {
    let profile_n: int = if updates_profile(obs.kind) { 1 } else { 0 };
    let entry = entry_for(p.timeline.print_count, obs);
    let timeline_n: int = if entry is Some { 1 } else { 0 };
    &&& res.len() >= 1 + profile_n + timeline_n
    &&& res[0] matches KnowledgeKind::ObservationTracked { observation_id, importance_milli: i, confidence_milli: c }
        && observation_id@ == obs.id@ && i == importance_milli && c == confidence_spec(obs.kind)
    &&& updates_profile(obs.kind) ==> (res[1] matches KnowledgeKind::ProfileUpdated { profile } && profile@ == p.profile)
    &&& entry matches Some(c) ==> (res[1 + profile_n] matches KnowledgeKind::TimelineEventAdded { entry: e } && e@ == c)
}

/// A snapshot of a printer's knowledge: the printer it describes, its
/// open and resolved observation counts, its timeline length, and the
/// (never negative) age of its profile.
pub open spec fn is_snapshot_of(k: KnowledgeKind, p: PrinterKnowledgeView) -> bool {
    match k {
        KnowledgeKind::KnowledgeSnapshot {
            printer_id,
            active_observation_count,
            resolved_observation_count,
            profile_age_ms,
            timeline_event_count,
        } => printer_id@ == p.printer_id
            && active_observation_count == count_state(p.observations, ObservationState::Active)
            && resolved_observation_count == count_state(p.observations, ObservationState::Resolved)
            && profile_age_ms >= 0 && timeline_event_count == p.timeline.entries.len(),
        _ => false,
    }
}

/// The snapshot records, one per printer in order, that follow the
/// records of an observation when the observation count is a multiple
/// of the interval.
pub open spec fn snapshots(res: Seq<KnowledgeKind>, start: int, printers: Seq<PrinterKnowledgeView>) -> bool {
    &&& res.len() == start + printers.len()
    &&& forall|j: int| 0 <= j < printers.len() ==> is_snapshot_of(#[trigger] res[start + j], printers[j])
}

/// The position of a printer's knowledge.
pub open spec fn printer_index(s: Seq<PrinterKnowledgeView>, printer_id: Seq<char>) -> Option<int> {
    if exists|i: int| 0 <= i < s.len() && (#[trigger] s[i]).printer_id == printer_id {
        Some(choose|i: int| 0 <= i < s.len() && (#[trigger] s[i]).printer_id == printer_id)
    } else {
        None
    }
}

/// Consumes observations and produces knowledge, per printer.
pub struct KnowledgeEngine {
    printers: Vec<PrinterKnowledge>,
    observation_count: u64,
}

impl View for KnowledgeEngine {
    type V = KnowledgeEngineView;

    closed spec fn view(&self) -> KnowledgeEngineView {
        KnowledgeEngineView { printers: knowledge_views(self.printers@), observation_count: self.observation_count }
    }
}

impl PrinterKnowledge {
    fn new(printer_id: String) -> (p: Self)
        ensures
            is_new_printer(p@, printer_id@),
    {
        PrinterKnowledge {
            printer_id: printer_id.clone(),
            tracker: ObservationTracker::new(),
            profiler: PrinterProfiler::new(printer_id),
            timeline: TimelineBuilder::new(),
        }
    }

    /// Applies an observation and returns the records it produced.
    fn apply(&mut self, observation: &Observation, importance_milli: i64) -> (res: Vec<KnowledgeKind>)
        ensures
            knowledge_step(old(self)@, final(self)@, *observation, importance_milli),
            emitted(res@, final(self)@, *observation, importance_milli),
            res@.len() == 1 + (if updates_profile(observation.kind) { 1int } else { 0int }) + (if entry_for(
                final(self)@.timeline.print_count,
                *observation,
            ) is Some {
                1int
            } else {
                0int
            }),
    {
        let tracked_kind = self.tracker.record(observation, importance_milli);
        let profile_updated = self.profiler.process(observation);
        let timeline_kinds = self.timeline.process(observation);
        let mut emissions: Vec<KnowledgeKind> = Vec::new();
        match tracked_kind {
            Some(kind) => emissions.push(kind),
            None => {},
        }
        if profile_updated {
            emissions.push(KnowledgeKind::ProfileUpdated { profile: self.profiler.profile().duplicate() });
        }
        let mut timeline_kinds = timeline_kinds;
        let ghost before = emissions@;
        emissions.append(&mut timeline_kinds);
        emissions
    }
}

/// No printer appears twice.
pub open spec fn distinct_ids(s: Seq<PrinterKnowledgeView>) -> bool {
    forall|i: int, j: int|
        0 <= i < s.len() && 0 <= j < s.len() && i != j ==> (#[trigger] s[i]).printer_id != (#[trigger] s[j]).printer_id
}

/// How many records an observation emits before any snapshot.
pub open spec fn emitted_len(p: PrinterKnowledgeView, obs: Observation) -> int {
    1 + (if updates_profile(obs.kind) { 1int } else { 0int }) + (if entry_for(p.timeline.print_count, obs) is Some {
        1int
    } else {
        0int
    })
}

proof fn lemma_index_of_distinct(s: Seq<PrinterKnowledgeView>, id: Seq<char>, i: int)
    requires
        distinct_ids(s),
        0 <= i < s.len(),
        s[i].printer_id == id,
    ensures
        printer_index(s, id) == Some(i),
{
    let k = choose|k: int| 0 <= k < s.len() && (#[trigger] s[k]).printer_id == id;
    assert(s[k].printer_id == id);
}

impl KnowledgeEngine {
    #[verifier::type_invariant]
    closed spec fn well_formed(self) -> bool {
        distinct_ids(knowledge_views(self.printers@))
    }

    pub fn new() -> (s: Self)
        ensures
            s@.printers.len() == 0,
            s@.observation_count == 0,
    {
        let s = KnowledgeEngine { printers: Vec::new(), observation_count: 0 };
        assert(knowledge_views(s.printers@) =~= Seq::<PrinterKnowledgeView>::empty());
        s
    }

    /// The repeat count that the next observation of this kind for this
    /// printer would get (1 for a printer not seen yet).
    pub fn next_repeat_count(&self, printer_id: &String, kind: &ObservationKind) -> (n: u64)
        ensures
            match printer_index(self@.printers, printer_id@) {
                Some(i) => n == crate::tracker::repeat_count_spec(
                    self@.printers[i].observations,
                    crate::tracker::category_name(*kind),
                ),
                None => n == 1,
            },
    {
        proof {
            use_type_invariant(self);
        }
        match find_printer(&self.printers, printer_id) {
            Some(i) => self.printers[i].tracker.next_repeat_count(kind),
            None => 1,
        }
    }

    /// Applies an observation, with its importance in thousandths, to its
    /// printer (created on its first observation) and returns the
    /// records to emit: those of the observation, then, when the
    /// observation count reaches a multiple of the interval, a snapshot
    /// of every printer.
    pub fn process(&mut self, observation: &Observation, importance_milli: i64) -> (res: Vec<KnowledgeKind>)
        ensures
            final(self)@.observation_count == bumped(old(self)@.observation_count),
            match printer_index(old(self)@.printers, observation.printer_id@) {
                Some(i) => {
                    &&& final(self)@.printers.len() == old(self)@.printers.len()
                    &&& forall|j: int|
                        0 <= j < old(self)@.printers.len() && j != i ==> #[trigger] final(self)@.printers[j]
                            == old(self)@.printers[j]
                    &&& knowledge_step(old(self)@.printers[i], final(self)@.printers[i], *observation, importance_milli)
                    &&& emitted(res@, final(self)@.printers[i], *observation, importance_milli)
                    &&& if final(self)@.observation_count % SNAPSHOT_INTERVAL == 0 {
                        snapshots(res@, emitted_len(final(self)@.printers[i], *observation), final(self)@.printers)
                    } else {
                        res@.len() == emitted_len(final(self)@.printers[i], *observation)
                    }
                },
                None => {
                    &&& final(self)@.printers.len() == old(self)@.printers.len() + 1
                    &&& final(self)@.printers.drop_last() == old(self)@.printers
                    &&& exists|p: PrinterKnowledgeView|
                        is_new_printer(p, observation.printer_id@) && knowledge_step(
                            p,
                            final(self)@.printers.last(),
                            *observation,
                            importance_milli,
                        )
                    &&& emitted(res@, final(self)@.printers.last(), *observation, importance_milli)
                    &&& if final(self)@.observation_count % SNAPSHOT_INTERVAL == 0 {
                        snapshots(res@, emitted_len(final(self)@.printers.last(), *observation), final(self)@.printers)
                    } else {
                        res@.len() == emitted_len(final(self)@.printers.last(), *observation)
                    }
                },
            },
    {
        proof {
            use_type_invariant(&*self);
        }
        if self.observation_count < u64::MAX {
            self.observation_count = self.observation_count + 1;
        }
        let mut printers: Vec<PrinterKnowledge> = Vec::new();
        std::mem::swap(&mut printers, &mut self.printers);
        let ghost before = printers@;
        let ghost vb = knowledge_views(before);
        let mut res: Vec<KnowledgeKind>;
        let idx: usize;
        match find_printer(&printers, &observation.printer_id) {
            Some(i) => {
                proof {
                    lemma_index_of_distinct(vb, observation.printer_id@, i as int);
                }
                let mut pk = printers.remove(i);
                let ghost p0 = pk@;
                res = pk.apply(observation, importance_milli);
                let ghost p1 = pk;
                printers.insert(i, pk);
                proof {
                    crate::tracker::lemma_remove_insert(before, i as int, p1);
                    assert(knowledge_views(printers@) =~= vb.update(i as int, p1@));
                }
                idx = i;
            },
            None => {
                let mut pk = PrinterKnowledge::new(observation.printer_id.clone());
                let ghost p0 = pk@;
                res = pk.apply(observation, importance_milli);
                let ghost p1 = pk;
                printers.push(pk);
                proof {
                    assert(knowledge_views(printers@) =~= vb.push(p1@));
                    assert(knowledge_views(printers@).drop_last() =~= vb);
                }
                idx = printers.len() - 1;
            },
        }
        proof {
            let v = knowledge_views(printers@);
            assert forall|a: int, b: int|
                0 <= a < v.len() && 0 <= b < v.len() && a != b implies (#[trigger] v[a]).printer_id
                    != (#[trigger] v[b]).printer_id by {
                if a != idx && b != idx {
                    assert(vb[a].printer_id != vb[b].printer_id);
                } else if a == idx && b < vb.len() {
                    assert(vb[b].printer_id != observation.printer_id@);
                } else if b == idx && a < vb.len() {
                    assert(vb[a].printer_id != observation.printer_id@);
                }
            }
        }
        if self.observation_count % SNAPSHOT_INTERVAL == 0 {
            let ghost start = res@.len();
            let ghost prefix = res@;
            let now = crate::clock::now_millis();
            let mut j: usize = 0;
            while j < printers.len()
                invariant
                    j <= printers@.len(),
                    res@.len() == start + j,
                    res@.subrange(0, start as int) == prefix,
                    forall|k: int| 0 <= k < j ==> is_snapshot_of(#[trigger] res@[start + k], printers@[k]@),
                decreases printers@.len() - j,
            {
                let pk = &printers[j];
                let updated_at = pk.profiler.profile().updated_at;
                let diff: i128 = now as i128 - updated_at as i128;
                let age: i64 = if diff < 0 {
                    0
                } else if diff > i64::MAX as i128 {
                    i64::MAX
                } else {
                    diff as i64
                };
                res.push(
                    KnowledgeKind::KnowledgeSnapshot {
                        printer_id: pk.printer_id.clone(),
                        active_observation_count: pk.tracker.active_count(),
                        resolved_observation_count: pk.tracker.resolved_count(),
                        profile_age_ms: age,
                        timeline_event_count: pk.timeline.len(),
                    },
                );
                assert(res@.subrange(0, start as int) =~= prefix);
                j = j + 1;
            }
            proof {
                let v = knowledge_views(printers@);
                assert forall|k: int| 0 <= k < v.len() implies (#[trigger] v[k]) == printers@[k]@ by {}
                assert(res@.subrange(0, start as int) == prefix);
                assert forall|k: int| 0 <= k < start implies #[trigger] res@[k] == prefix[k] by {
                    assert(res@.subrange(0, start as int)[k] == res@[k]);
                }
            }
        }
        self.printers = printers;
        res
    }
}

/// Finds a printer's knowledge.
fn find_printer(printers: &Vec<PrinterKnowledge>, printer_id: &String) -> (res: Option<usize>)
    requires
        distinct_ids(knowledge_views(printers@)),
    ensures
        match res {
            Some(i) => i < printers@.len() && printers@[i as int].printer_id@ == printer_id@
                && printer_index(knowledge_views(printers@), printer_id@) == Some(i as int),
            None => printer_index(knowledge_views(printers@), printer_id@) is None
                && forall|j: int| 0 <= j < printers@.len() ==> (#[trigger] printers@[j]).printer_id@ != printer_id@,
        },
{
    let ghost s = knowledge_views(printers@);
    let mut i: usize = 0;
    while i < printers.len()
        invariant
            i <= printers@.len(),
            s == knowledge_views(printers@),
            distinct_ids(s),
            forall|j: int| 0 <= j < i ==> (#[trigger] printers@[j]).printer_id@ != printer_id@,
        decreases printers@.len() - i,
    {
        if printers[i].printer_id == *printer_id {
            proof {
                assert(s[i as int] == printers@[i as int]@);
                lemma_index_of_distinct(s, printer_id@, i as int);
            }
            return Some(i);
        }
        i = i + 1;
    }
    proof {
        if exists|k: int| 0 <= k < s.len() && (#[trigger] s[k]).printer_id == printer_id@ {
            let k = choose|k: int| 0 <= k < s.len() && (#[trigger] s[k]).printer_id == printer_id@;
            assert(s[k] == printers@[k]@);
        }
    }
    None
}

} // verus!
