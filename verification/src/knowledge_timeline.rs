//! The knowledge timeline: a chronological history of the moments that
//! matter in a printer's life (failures, milestones, manual events).

use vstd::prelude::*;
use vstd::string::*;

use crate::knowledge::{KnowledgeKind, MetaField, MetaValue, TimelineEntry, TimelineEventType};
use crate::observation::{AnomalyCategory, Observation, ObservationKind, Severity};
use crate::text::opt_text;

verus! {

/// The mathematical content of a metadata value.
pub enum MetaValueView {
    Text(Seq<char>),
    Count(u64),
    Null,
}

impl View for MetaValue {
    type V = MetaValueView;

    open spec fn view(&self) -> MetaValueView {
        match self {
            MetaValue::Text(s) => MetaValueView::Text(s@),
            MetaValue::Count(n) => MetaValueView::Count(*n),
            MetaValue::Null => MetaValueView::Null,
        }
    }
}

/// The views of metadata fields, as (key, value) pairs.
pub open spec fn meta_views(v: Seq<MetaField>) -> Seq<(Seq<char>, MetaValueView)> {
    v.map_values(|f: MetaField| (f.key@, f.value@))
}

/// What a timeline entry says, its identifier aside.
pub struct EntryContent {
    pub event_type: TimelineEventType,
    pub description: Seq<char>,
    pub severity: Option<Severity>,
    pub metadata: Seq<(Seq<char>, MetaValueView)>,
    pub occurred_at: i64,
}

impl View for TimelineEntry {
    type V = EntryContent;

    open spec fn view(&self) -> EntryContent {
        EntryContent {
            event_type: self.event_type,
            description: self.description@,
            severity: self.severity,
            metadata: meta_views(self.metadata@),
            occurred_at: self.occurred_at,
        }
    }
}

/// The views of a sequence of entries.
pub open spec fn entry_views(v: Seq<TimelineEntry>) -> Seq<EntryContent> {
    v.map_values(|e: TimelineEntry| e@)
}

/// The name that `{:?}` gives an anomaly category.
pub open spec fn category_debug_name(c: AnomalyCategory) -> Seq<char> {
    match c {
        AnomalyCategory::TemperatureInstability => "TemperatureInstability"@,
        AnomalyCategory::ExcessiveErrors => "ExcessiveErrors"@,
        AnomalyCategory::RepeatedFailures => "RepeatedFailures"@,
        AnomalyCategory::CalibrationOverdue => "CalibrationOverdue"@,
    }
}

/// The milestone text for a completed-print count, if it is one.
pub open spec fn milestone_text(count: u64) -> Option<Seq<char>> {
    if count == 1 {
        Some("First successful print"@)
    } else if count == 10 {
        Some("10 prints completed"@)
    } else if count == 50 {
        Some("50 prints completed"@)
    } else if count == 100 {
        Some("100 prints completed — milestone!"@)
    } else if count == 500 {
        Some("500 prints completed"@)
    } else if count == 1000 {
        Some("1,000 prints completed — workhorse"@)
    } else {
        None
    }
}

/// A counter that stops at `u64::MAX`.
pub open spec fn bumped(n: u64) -> u64 {
    if n == u64::MAX { n } else { (n + 1) as u64 }
}

/// The print count after an observation: only completed prints count.
pub open spec fn next_print_count(count: u64, kind: ObservationKind) -> u64 {
    match kind {
        ObservationKind::PrintCompleted { .. } => bumped(count),
        _ => count,
    }
}

/// The entry an observation adds, given the print count after it.
pub open spec fn entry_for(count: u64, obs: Observation) -> Option<EntryContent> {
    match obs.kind {
        ObservationKind::PrintCompleted { .. } => match milestone_text(count) {
            Some(d) => Some(
                EntryContent {
                    event_type: TimelineEventType::PrintMilestone,
                    description: d,
                    severity: Some(Severity::Info),
                    metadata: seq![("print_number"@, MetaValueView::Count(count))],
                    occurred_at: obs.timestamp,
                },
            ),
            None => None,
        },
        ObservationKind::PrintFailed { reason, .. } => Some(
            EntryContent {
                event_type: TimelineEventType::FailureDetected,
                description: "Print failed: "@ + match reason {
                    Some(r) => r@,
                    None => "unknown reason"@,
                },
                severity: Some(Severity::Warning),
                metadata: seq![
                    ("reason"@, match reason {
                        Some(r) => MetaValueView::Text(r@),
                        None => MetaValueView::Null,
                    }),
                ],
                occurred_at: obs.timestamp,
            },
        ),
        ObservationKind::AnomalyDetected { category, severity, message, .. } => Some(
            EntryContent {
                event_type: TimelineEventType::FailureDetected,
                description: message@,
                severity: Some(severity),
                metadata: seq![("category"@, MetaValueView::Text(category_debug_name(category)))],
                occurred_at: obs.timestamp,
            },
        ),
        _ => None,
    }
}

/// The abstract state of a timeline builder.
pub struct TimelineBuilderView {
    pub entries: Seq<EntryContent>,
    pub print_count: u64,
}

/// The milestone entry of the `count`th completed print with this text.
pub open spec fn milestone_entry(count: u64, text: Seq<char>, obs: Observation) -> Option<EntryContent> {
    Some(
        EntryContent {
            event_type: TimelineEventType::PrintMilestone,
            description: text,
            severity: Some(Severity::Info),
            metadata: seq![("print_number"@, MetaValueView::Count(count))],
            occurred_at: obs.timestamp,
        },
    )
}

/// Completed-print milestones: a completed print raises the count by one
/// (until it saturates), and the print that brings it to exactly 1, 10,
/// 50, 100, 500 or 1000 adds the matching milestone entry, numbered with
/// the count; any other completed print adds no entry.
pub proof fn lemma_completed_print_milestones(prev: u64, obs: Observation)
    requires
        obs.kind is PrintCompleted,
    ensures
        ({
            let c = next_print_count(prev, obs.kind);
            &&& prev < u64::MAX ==> c == prev + 1
            &&& c == 1 ==> entry_for(c, obs) == milestone_entry(c, "First successful print"@, obs)
            &&& c == 10 ==> entry_for(c, obs) == milestone_entry(c, "10 prints completed"@, obs)
            &&& c == 50 ==> entry_for(c, obs) == milestone_entry(c, "50 prints completed"@, obs)
            &&& c == 100 ==> entry_for(c, obs) == milestone_entry(c, "100 prints completed — milestone!"@, obs)
            &&& c == 500 ==> entry_for(c, obs) == milestone_entry(c, "500 prints completed"@, obs)
            &&& c == 1000 ==> entry_for(c, obs) == milestone_entry(c, "1,000 prints completed — workhorse"@, obs)
            &&& (c != 1 && c != 10 && c != 50 && c != 100 && c != 500 && c != 1000) ==> entry_for(c, obs) is None
        }),
{
}

/// Builds the chronological timeline of one printer.
pub struct TimelineBuilder {
    entries: Vec<TimelineEntry>,
    print_count: u64,
}

impl View for TimelineBuilder {
    type V = TimelineBuilderView;

    closed spec fn view(&self) -> TimelineBuilderView {
        TimelineBuilderView { entries: entry_views(self.entries@), print_count: self.print_count }
    }
}

fn debug_name(c: AnomalyCategory) -> (s: String)
    ensures
        s@ == category_debug_name(c),
{
    let t = match c {
        AnomalyCategory::TemperatureInstability => "TemperatureInstability",
        AnomalyCategory::ExcessiveErrors => "ExcessiveErrors",
        AnomalyCategory::RepeatedFailures => "RepeatedFailures",
        AnomalyCategory::CalibrationOverdue => "CalibrationOverdue",
    };
    String::from_str(t)
}

fn milestone(count: u64) -> (d: Option<&'static str>)
    ensures
        match d {
            Some(s) => milestone_text(count) == Some(s@),
            None => milestone_text(count) is None,
        },
{
    if count == 1 {
        Some("First successful print")
    } else if count == 10 {
        Some("10 prints completed")
    } else if count == 50 {
        Some("50 prints completed")
    } else if count == 100 {
        Some("100 prints completed — milestone!")
    } else if count == 500 {
        Some("500 prints completed")
    } else if count == 1000 {
        Some("1,000 prints completed — workhorse")
    } else {
        None
    }
}

impl MetaValue {
    pub fn duplicate(&self) -> (r: Self)
        ensures
            r@ == self@,
    {
        match self {
            MetaValue::Text(s) => MetaValue::Text(s.clone()),
            MetaValue::Count(n) => MetaValue::Count(*n),
            MetaValue::Null => MetaValue::Null,
        }
    }
}

impl TimelineEntry {
    /// A timeline entry with a fresh time-ordered identifier.
    pub fn new(
        event_type: TimelineEventType,
        description: String,
        severity: Option<Severity>,
        metadata: Vec<MetaField>,
        occurred_at: i64,
    ) -> (e: Self)
        ensures
            e@ == (EntryContent {
                event_type,
                description: description@,
                severity,
                metadata: meta_views(metadata@),
                occurred_at,
            }),
    {
        TimelineEntry {
            id: crate::ids::time_ordered_id(),
            event_type,
            description,
            severity,
            metadata,
            occurred_at,
        }
    }

    /// A copy of the entry, identifier included.
    pub fn duplicate(&self) -> (r: Self)
        ensures
            r@ == self@,
            r.id@ == self.id@,
    {
        let mut metadata: Vec<MetaField> = Vec::new();
        let mut i: usize = 0;
        while i < self.metadata.len()
            invariant
                i <= self.metadata@.len(),
                metadata@.len() == i,
                forall|j: int|
                    0 <= j < i ==> (#[trigger] metadata@[j]).key@ == self.metadata@[j].key@
                        && metadata@[j].value@ == self.metadata@[j].value@,
            decreases self.metadata@.len() - i,
        {
            let f = &self.metadata[i];
            metadata.push(MetaField { key: f.key.clone(), value: f.value.duplicate() });
            i = i + 1;
        }
        assert(meta_views(metadata@) =~= meta_views(self.metadata@));
        TimelineEntry {
            id: self.id.clone(),
            event_type: self.event_type,
            description: self.description.clone(),
            severity: self.severity,
            metadata,
            occurred_at: self.occurred_at,
        }
    }
}

fn one_field(key: &str, value: MetaValue) -> (v: Vec<MetaField>)
    ensures
        meta_views(v@) == seq![(key@, value@)],
{
    let mut v: Vec<MetaField> = Vec::new();
    v.push(MetaField { key: String::from_str(key), value });
    assert(meta_views(v@) =~= seq![(key@, value@)]);
    v
}

impl TimelineBuilder {
    pub fn new() -> (b: Self)
        ensures
            b@.entries == Seq::<EntryContent>::empty(),
            b@.print_count == 0,
    {
        let b = TimelineBuilder { entries: Vec::new(), print_count: 0 };
        assert(entry_views(b.entries@) =~= Seq::<EntryContent>::empty());
        b
    }

    fn entry_for_observation(&self, observation: &Observation) -> (e: Option<TimelineEntry>)
        ensures
            match e {
                Some(x) => entry_for(self.print_count, *observation) == Some(x@),
                None => entry_for(self.print_count, *observation) is None,
            },
    {
        proof {
            reveal_strlit("Print failed: ");
            reveal_strlit("unknown reason");
        }
        match &observation.kind {
            ObservationKind::PrintCompleted { .. } => match milestone(self.print_count) {
                Some(d) => Some(
                    TimelineEntry::new(
                        TimelineEventType::PrintMilestone,
                        String::from_str(d),
                        Some(Severity::Info),
                        one_field("print_number", MetaValue::Count(self.print_count)),
                        observation.timestamp,
                    ),
                ),
                None => None,
            },
            ObservationKind::PrintFailed { reason, .. } => {
                let (desc, value) = match reason {
                    Some(r) => (
                        String::from_str("Print failed: ").concat(r.as_str()),
                        MetaValue::Text(r.clone()),
                    ),
                    None => (
                        String::from_str("Print failed: ").concat("unknown reason"),
                        MetaValue::Null,
                    ),
                };
                Some(
                    TimelineEntry::new(
                        TimelineEventType::FailureDetected,
                        desc,
                        Some(Severity::Warning),
                        one_field("reason", value),
                        observation.timestamp,
                    ),
                )
            },
            ObservationKind::AnomalyDetected { category, severity, message, .. } => Some(
                TimelineEntry::new(
                    TimelineEventType::FailureDetected,
                    message.clone(),
                    Some(*severity),
                    one_field("category", MetaValue::Text(debug_name(*category))),
                    observation.timestamp,
                ),
            ),
            _ => None,
        }
    }

    /// Processes an observation: completed prints advance the print
    /// count; failures, anomalies and completed-print milestones
    /// (1, 10, 50, 100, 500, 1000) add an entry, which is also returned
    /// as a knowledge record.
    pub fn process(&mut self, observation: &Observation) -> (res: Vec<KnowledgeKind>)
        ensures
            final(self)@.print_count == next_print_count(old(self)@.print_count, observation.kind),
            match entry_for(final(self)@.print_count, *observation) {
                Some(c) => {
                    &&& final(self)@.entries == old(self)@.entries.push(c)
                    &&& res@.len() == 1
                    &&& res@[0] matches KnowledgeKind::TimelineEventAdded { entry } && entry@ == c
                },
                None => final(self)@.entries == old(self)@.entries && res@.len() == 0,
            },
    {
        match &observation.kind {
            ObservationKind::PrintCompleted { .. } => {
                if self.print_count < u64::MAX {
                    self.print_count = self.print_count + 1;
                }
            },
            _ => {},
        }
        let mut res: Vec<KnowledgeKind> = Vec::new();
        match self.entry_for_observation(observation) {
            Some(entry) => {
                let copy = entry.duplicate();
                self.entries.push(entry);
                assert(entry_views(self.entries@) =~= entry_views(old(self).entries@).push(copy@));
                res.push(KnowledgeKind::TimelineEventAdded { entry: copy });
            },
            None => {},
        }
        res
    }

    /// Adds a manually recorded event (a user action) and returns it.
    pub fn record_manual(
        &mut self,
        event_type: TimelineEventType,
        description: String,
        severity: Option<Severity>,
        metadata: Vec<MetaField>,
        occurred_at: i64,
    ) -> (e: TimelineEntry)
        ensures
            e@ == (EntryContent {
                event_type,
                description: description@,
                severity,
                metadata: meta_views(metadata@),
                occurred_at,
            }),
            final(self)@.entries == old(self)@.entries.push(e@),
            final(self)@.print_count == old(self)@.print_count,
    {
        let entry = TimelineEntry::new(event_type, description, severity, metadata, occurred_at);
        let copy = entry.duplicate();
        self.entries.push(entry);
        assert(entry_views(self.entries@) =~= entry_views(old(self).entries@).push(copy@));
        copy
    }

    /// The entries, oldest first.
    pub fn entries(&self) -> (s: &[TimelineEntry])
        ensures
            entry_views(s@) == self@.entries,
    {
        self.entries.as_slice()
    }

    pub fn len(&self) -> (n: usize)
        ensures
            n == self@.entries.len(),
    {
        self.entries.len()
    }
}

} // verus!
