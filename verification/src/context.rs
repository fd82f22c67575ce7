//! Printer context: knowledge condensed into a briefing.
//!
//! The context engine caches, per printer, what the knowledge records
//! say (profile, failures, evidence) and produces on demand a
//! structured briefing of it. Scores and rates are in thousandths,
//! durations in milliseconds, times in milliseconds since the Unix epoch.

use vstd::prelude::*;
use vstd::string::*;

use crate::knowledge::{Knowledge, KnowledgeKind, KnownIssue, TimelineEventType};
use crate::knowledge_timeline::{bumped, category_debug_name};
use crate::profiler::{issue_views, IssueView};
use crate::text::{clone_opt_string, milli_hundredths_text, opt_text, round_div};

verus! {

/// How many pieces of evidence a context keeps; the oldest go first.
pub const MAX_EVIDENCE: usize = 20;

/// How many recent events the current state lists.
pub const MAX_RECENT_EVENTS: usize = 10;

/// How many recent failures the print history keeps.
pub const MAX_RECENT_FAILURES: usize = 5;

/// How a piece of evidence was obtained.
#[derive(PartialEq, Eq, Structural, Clone, Copy)]
pub enum EvidenceQuality {
    Observed,
    Inferred,
    Confirmed,
}

/// A fact behind the context.
pub struct Evidence {
    pub fact_type: String,
    pub statement: String,
    pub quality: EvidenceQuality,
    pub confidence_milli: i64,
    pub timestamp: i64,
    pub source_id: Option<String>,
}

/// The mathematical content of a piece of evidence.
pub struct EvidenceView {
    pub fact_type: Seq<char>,
    pub statement: Seq<char>,
    pub quality: EvidenceQuality,
    pub confidence_milli: i64,
    pub timestamp: i64,
    pub source_id: Option<Seq<char>>,
}

impl View for Evidence {
    type V = EvidenceView;

    open spec fn view(&self) -> EvidenceView {
        EvidenceView {
            fact_type: self.fact_type@,
            statement: self.statement@,
            quality: self.quality,
            confidence_milli: self.confidence_milli,
            timestamp: self.timestamp,
            source_id: opt_text(self.source_id),
        }
    }
}

/// A recent print failure.
pub struct RecentFailure {
    pub timestamp: i64,
    pub reason: Option<String>,
    pub failure_count_in_window: u64,
}

/// The mathematical content of a recent failure.
pub struct RecentFailureView {
    pub timestamp: i64,
    pub reason: Option<Seq<char>>,
    pub failure_count_in_window: u64,
}

impl View for RecentFailure {
    type V = RecentFailureView;

    open spec fn view(&self) -> RecentFailureView {
        RecentFailureView {
            timestamp: self.timestamp,
            reason: opt_text(self.reason),
            failure_count_in_window: self.failure_count_in_window,
        }
    }
}

/// A known issue as the context reports it.
pub struct IssueSummary {
    pub category: String,
    pub description: String,
    pub first_seen: i64,
    pub last_seen: i64,
    pub occurrence_count: u64,
    pub resolved: bool,
    pub importance_milli: i64,
}

/// The mathematical content of an issue summary.
pub struct IssueSummaryView {
    pub category: Seq<char>,
    pub description: Seq<char>,
    pub first_seen: i64,
    pub last_seen: i64,
    pub occurrence_count: u64,
    pub resolved: bool,
    pub importance_milli: i64,
}

impl View for IssueSummary {
    type V = IssueSummaryView;

    open spec fn view(&self) -> IssueSummaryView {
        IssueSummaryView {
            category: self.category@,
            description: self.description@,
            first_seen: self.first_seen,
            last_seen: self.last_seen,
            occurrence_count: self.occurrence_count,
            resolved: self.resolved,
            importance_milli: self.importance_milli,
        }
    }
}

/// An issue that keeps coming back.
pub struct HistoricalPattern {
    pub pattern_type: String,
    pub description: String,
    pub occurrence_count: u64,
    pub first_seen: i64,
    pub last_seen: i64,
    pub typical_severity: String,
    pub resolved_count: u64,
}

/// The mathematical content of a historical pattern.
pub struct PatternView {
    pub pattern_type: Seq<char>,
    pub description: Seq<char>,
    pub occurrence_count: u64,
    pub first_seen: i64,
    pub last_seen: i64,
    pub typical_severity: Seq<char>,
    pub resolved_count: u64,
}

impl View for HistoricalPattern {
    type V = PatternView;

    open spec fn view(&self) -> PatternView {
        PatternView {
            pattern_type: self.pattern_type@,
            description: self.description@,
            occurrence_count: self.occurrence_count,
            first_seen: self.first_seen,
            last_seen: self.last_seen,
            typical_severity: self.typical_severity@,
            resolved_count: self.resolved_count,
        }
    }
}

/// An observation that is still open.
pub struct ObservationSummary {
    pub category: String,
    pub severity: String,
    pub message: String,
    pub importance_milli: i64,
    pub confidence_milli: i64,
    pub quality: EvidenceQuality,
    pub timestamp: i64,
}

/// The mathematical content of an observation summary.
pub struct ObservationSummaryView {
    pub category: Seq<char>,
    pub severity: Seq<char>,
    pub message: Seq<char>,
    pub importance_milli: i64,
    pub confidence_milli: i64,
    pub quality: EvidenceQuality,
    pub timestamp: i64,
}

impl View for ObservationSummary {
    type V = ObservationSummaryView;

    open spec fn view(&self) -> ObservationSummaryView {
        ObservationSummaryView {
            category: self.category@,
            severity: self.severity@,
            message: self.message@,
            importance_milli: self.importance_milli,
            confidence_milli: self.confidence_milli,
            quality: self.quality,
            timestamp: self.timestamp,
        }
    }
}

/// Who the printer is.
pub struct PrinterSummary {
    pub name: String,
    pub model: Option<String>,
    pub firmware: Option<String>,
    pub first_seen: Option<i64>,
    pub last_seen: Option<i64>,
    pub reliability_milli: Option<i64>,
    pub total_observations: u64,
    pub total_prints: u64,
}

/// How its prints went.
pub struct PrintHistorySummary {
    pub total_prints: u64,
    pub successful_prints: u64,
    pub failed_prints: u64,
    pub success_rate_milli: Option<i64>,
    pub avg_duration_ms: Option<i64>,
    pub recent_failures: Vec<RecentFailure>,
    pub common_failure_pattern: Option<String>,
}

/// How healthy it is.
pub struct HealthSummary {
    pub temperature_stability_milli: Option<i64>,
    pub success_rate_milli: Option<i64>,
    pub uptime_ms: i64,
    pub recent_error_count: u64,
    pub recent_warning_count: u64,
    pub reliability_milli: Option<i64>,
}

/// What it is doing now.
pub struct CurrentState {
    pub is_printing: bool,
    pub active_print_filename: Option<String>,
    pub active_observations: Vec<ObservationSummary>,
    pub pending_warnings: Vec<String>,
    pub recent_events: Vec<Evidence>,
}

/// The briefing about one printer.
pub struct PrinterContext {
    pub printer_id: String,
    pub generated_at: i64,
    pub summary: PrinterSummary,
    pub print_history: PrintHistorySummary,
    pub health: HealthSummary,
    pub current_state: CurrentState,
    pub known_issues: Vec<IssueSummary>,
    pub historical_patterns: Vec<HistoricalPattern>,
    pub recent_evidence: Vec<Evidence>,
}

/// What the engine has cached about one printer.
pub struct CachedContext {
    pub printer_id: String,
    pub name: String,
    pub model: Option<String>,
    pub firmware: Option<String>,
    pub first_seen: Option<i64>,
    pub last_seen: Option<i64>,
    pub reliability_milli: Option<i64>,
    pub total_observations: u64,
    pub total_prints: u64,
    pub successful_prints: u64,
    pub failed_prints: u64,
    pub avg_duration_ms: Option<i64>,
    pub recent_failures: Vec<RecentFailure>,
    pub temperature_stability_milli: Option<i64>,
    pub success_rate_milli: Option<i64>,
    pub uptime_ms: i64,
    pub recent_error_count: u64,
    pub recent_warning_count: u64,
    pub is_printing: bool,
    pub active_print_filename: Option<String>,
    pub active_observations: Vec<ObservationSummary>,
    pub pending_warnings: Vec<String>,
    pub known_issues: Vec<IssueSummary>,
    pub patterns: Vec<HistoricalPattern>,
    pub evidence: Vec<Evidence>,
}

// ---------------------------------------------------------------------
// What a knowledge record does to the cache.

/// The views of a sequence of evidence.
pub open spec fn evidence_views(v: Seq<Evidence>) -> Seq<EvidenceView> {
    v.map_values(|e: Evidence| e@)
}

/// The views of a sequence of recent failures.
pub open spec fn failure_views(v: Seq<RecentFailure>) -> Seq<RecentFailureView> {
    v.map_values(|f: RecentFailure| f@)
}

/// The views of a sequence of issue summaries.
pub open spec fn issue_summary_views(v: Seq<IssueSummary>) -> Seq<IssueSummaryView> {
    v.map_values(|i: IssueSummary| i@)
}

/// The views of a sequence of patterns.
pub open spec fn pattern_views(v: Seq<HistoricalPattern>) -> Seq<PatternView> {
    v.map_values(|p: HistoricalPattern| p@)
}

/// The views of a sequence of observation summaries.
pub open spec fn summary_views(v: Seq<ObservationSummary>) -> Seq<ObservationSummaryView> {
    v.map_values(|o: ObservationSummary| o@)
}

/// A sequence with its oldest element dropped once it is longer than
/// `cap`.
pub open spec fn capped<T>(s: Seq<T>, cap: nat) -> Seq<T> {
    if s.len() > cap { s.drop_first() } else { s }
}

/// The statement recorded for a tracked observation.
pub open spec fn tracked_statement(importance_milli: i64, confidence_milli: i64) -> Seq<char> {
    "Observation recorded (importance="@ + milli_hundredths_text(importance_milli as int)
        + ", confidence="@ + milli_hundredths_text(confidence_milli as int) + ")"@
}

/// The summary of a known issue, with its importance.
pub open spec fn issue_summary(i: IssueView, importance_milli: i64) -> IssueSummaryView {
    IssueSummaryView {
        category: category_debug_name(i.category),
        description: i.description,
        first_seen: i.first_seen,
        last_seen: i.last_seen,
        occurrence_count: i.occurrence_count,
        resolved: i.resolved,
        importance_milli,
    }
}

/// The summaries of the first `n` known issues.
pub open spec fn issue_summaries(s: Seq<IssueView>, imp: Seq<i64>, n: int) -> Seq<IssueSummaryView>
    decreases n,
{
    if n <= 0 {
        Seq::empty()
    } else {
        issue_summaries(s, imp, n - 1).push(issue_summary(s[n - 1], imp[n - 1]))
    }
}

/// The pattern of a recurring issue.
pub open spec fn pattern_of(i: IssueView) -> PatternView {
    PatternView {
        pattern_type: category_debug_name(i.category),
        description: i.description,
        occurrence_count: i.occurrence_count,
        first_seen: i.first_seen,
        last_seen: i.last_seen,
        typical_severity: "warning"@,
        resolved_count: if i.resolved { 1 } else { 0 },
    }
}

/// The patterns of the first `n` issues: those seen more than once.
pub open spec fn patterns_upto(s: Seq<IssueView>, n: int) -> Seq<PatternView>
    decreases n,
{
    if n <= 0 {
        Seq::empty()
    } else if s[n - 1].occurrence_count > 1 {
        patterns_upto(s, n - 1).push(pattern_of(s[n - 1]))
    } else {
        patterns_upto(s, n - 1)
    }
}

/// The open observation that an unresolved issue stands for.
pub open spec fn active_summary(i: IssueView, importance_milli: i64) -> ObservationSummaryView {
    ObservationSummaryView {
        category: category_debug_name(i.category),
        severity: "warning"@,
        message: i.description,
        importance_milli,
        confidence_milli: 700,
        quality: EvidenceQuality::Inferred,
        timestamp: i.last_seen,
    }
}

/// The open observations of the first `n` issues: the unresolved ones.
pub open spec fn actives_upto(s: Seq<IssueView>, imp: Seq<i64>, n: int) -> Seq<ObservationSummaryView>
    decreases n,
{
    if n <= 0 {
        Seq::empty()
    } else if !s[n - 1].resolved {
        actives_upto(s, imp, n - 1).push(active_summary(s[n - 1], imp[n - 1]))
    } else {
        actives_upto(s, imp, n - 1)
    }
}

/// The pending warnings of the first `n` issues: the descriptions of the
/// unresolved ones.
pub open spec fn warnings_upto(s: Seq<IssueView>, n: int) -> Seq<Seq<char>>
    decreases n,
{
    if n <= 0 {
        Seq::empty()
    } else if !s[n - 1].resolved {
        warnings_upto(s, n - 1).push(s[n - 1].description)
    } else {
        warnings_upto(s, n - 1)
    }
}

/// The success rate of `s` successes among `total` prints, in
/// thousandths (rounded), when there were prints.
pub open spec fn success_rate(s: u64, total: int) -> Option<i64> {
    if total > 0 {
        Some(round_div(1000 * s, total) as i64)
    } else {
        None
    }
}

// ---------------------------------------------------------------------
// Most common failure reason.

/// How many failures give this reason.
pub open spec fn reason_count(f: Seq<RecentFailureView>, r: Seq<char>) -> nat
    decreases f.len(),
{
    if f.len() == 0 {
        0
    } else {
        reason_count(f.drop_last(), r) + if f.last().reason == Some(r) { 1nat } else { 0nat }
    }
}

/// Whether some failure gives this reason.
pub open spec fn has_reason(f: Seq<RecentFailureView>, r: Seq<char>) -> bool {
    exists|i: int| 0 <= i < f.len() && (#[trigger] f[i]).reason == Some(r)
}

/// The most common failure reason: `None` when no failure gives a
/// reason, otherwise a reason that no other is given more often than.
pub open spec fn is_most_common(f: Seq<RecentFailureView>, res: Option<Seq<char>>) -> bool {
    match res {
        None => forall|i: int| 0 <= i < f.len() ==> (#[trigger] f[i]).reason is None,
        Some(r) => has_reason(f, r) && forall|i: int|
            0 <= i < f.len() && (#[trigger] f[i]).reason is Some ==> reason_count(f, f[i].reason->0)
                <= reason_count(f, r),
    }
}

proof fn lemma_reason_count_positive(f: Seq<RecentFailureView>, i: int)
    requires
        0 <= i < f.len(),
        f[i].reason is Some,
    ensures
        reason_count(f, f[i].reason->0) >= 1,
    decreases f.len(),
{
    if i < f.len() - 1 {
        lemma_reason_count_positive(f.drop_last(), i);
    }
}

/// Counts the failures giving reason `r`.
fn count_reason(failures: &Vec<RecentFailure>, r: &String) -> (n: usize)
    ensures
        n == reason_count(failure_views(failures@), r@),
{
    let ghost f = failure_views(failures@);
    let mut n: usize = 0;
    let mut i: usize = 0;
    while i < failures.len()
        invariant
            i <= failures@.len(),
            f == failure_views(failures@),
            n == reason_count(f.subrange(0, i as int), r@),
            n <= i,
        decreases failures@.len() - i,
    {
        assert(f.subrange(0, i + 1).drop_last() =~= f.subrange(0, i as int));
        assert(f[i as int] == failures@[i as int]@);
        match &failures[i].reason {
            Some(x) => {
                if *x == *r {
                    n = n + 1;
                }
            },
            None => {},
        }
        i = i + 1;
    }
    assert(f.subrange(0, i as int) =~= f);
    n
}

/// The reason given most often among the failures (the first one seen
/// when several are given equally often); `None` when no failure gives
/// a reason.
pub fn most_common_failure_pattern(failures: &Vec<RecentFailure>) -> (res: Option<String>)
    ensures
        is_most_common(failure_views(failures@), opt_text(res)),
{
    let ghost f = failure_views(failures@);
    let mut best: Option<String> = None;
    let mut best_count: usize = 0;
    let mut i: usize = 0;
    while i < failures.len()
        invariant
            i <= failures@.len(),
            f == failure_views(failures@),
            match best {
                None => forall|j: int| 0 <= j < i ==> (#[trigger] f[j]).reason is None,
                Some(b) => has_reason(f, b@) && best_count == reason_count(f, b@) && forall|j: int|
                    0 <= j < i && (#[trigger] f[j]).reason is Some ==> reason_count(f, f[j].reason->0)
                        <= best_count,
            },
        decreases failures@.len() - i,
    {
        assert(f[i as int] == failures@[i as int]@);
        match &failures[i].reason {
            Some(r) => {
                let c = count_reason(failures, r);
                let better = match &best {
                    None => true,
                    Some(_) => c > best_count,
                };
                if better {
                    best = Some(r.clone());
                    best_count = c;
                }
            },
            None => {},
        }
        i = i + 1;
    }
    best
}

// ---------------------------------------------------------------------
// The engine.

/// Every cached printer appears once.
pub open spec fn distinct_printers(s: Seq<CachedContext>) -> bool {
    forall|i: int, j: int|
        0 <= i < s.len() && 0 <= j < s.len() && i != j ==> (#[trigger] s[i]).printer_id@
            != (#[trigger] s[j]).printer_id@
}

/// The position of a printer's cache.
pub open spec fn cache_index(s: Seq<CachedContext>, printer_id: Seq<char>) -> Option<int> {
    if exists|i: int| 0 <= i < s.len() && (#[trigger] s[i]).printer_id@ == printer_id {
        Some(choose|i: int| 0 <= i < s.len() && (#[trigger] s[i]).printer_id@ == printer_id)
    } else {
        None
    }
}

/// What a knowledge record does to a printer's cache; `imp` holds the
/// importance of each known issue of an updated profile.
pub open spec fn ingested(old: CachedContext, new: CachedContext, k: Knowledge, imp: Seq<i64>) -> bool {
    let ts = k.timestamp;
    match k.kind {
        KnowledgeKind::ObservationTracked { importance_milli, confidence_milli, .. } => {
            let pushed = evidence_views(old.evidence@).push(
                EvidenceView {
                    fact_type: "observation_tracked"@,
                    statement: tracked_statement(importance_milli, confidence_milli),
                    quality: EvidenceQuality::Inferred,
                    confidence_milli,
                    timestamp: ts,
                    source_id: None,
                },
            );
            &&& evidence_views(new.evidence@) == capped(pushed, MAX_EVIDENCE as nat)
            &&& new.total_observations == bumped(old.total_observations)
            &&& new == CachedContext { evidence: new.evidence, total_observations: new.total_observations, ..old }
        },
        KnowledgeKind::ObservationResolved { observation_id, resolution } => {
            let pushed = evidence_views(old.evidence@).push(
                EvidenceView {
                    fact_type: "observation_resolved"@,
                    statement: "Observation resolved: "@ + resolution@,
                    quality: EvidenceQuality::Confirmed,
                    confidence_milli: 1000,
                    timestamp: ts,
                    source_id: Some(observation_id@),
                },
            );
            &&& evidence_views(new.evidence@) == capped(pushed, MAX_EVIDENCE as nat)
            &&& new == CachedContext { evidence: new.evidence, ..old }
        },
        KnowledgeKind::ProfileUpdated { profile } => {
            let issues = issue_views(profile.behavior.known_issues@);
            let n = issues.len() as int;
            let total = profile.behavior.successful_prints + profile.behavior.failed_prints;
            &&& new.name@ == profile.printer_id@
            &&& opt_text(new.model) == opt_text(profile.hardware.model)
            &&& opt_text(new.firmware) == opt_text(profile.hardware.firmware)
            &&& new.successful_prints == profile.behavior.successful_prints
            &&& new.failed_prints == profile.behavior.failed_prints
            &&& new.avg_duration_ms == profile.behavior.avg_print_duration_ms
            &&& new.total_prints == total
            &&& new.success_rate_milli == success_rate(profile.behavior.successful_prints, total)
            &&& new.reliability_milli == profile.behavior.reliability_milli
            &&& issue_summary_views(new.known_issues@) == issue_summaries(issues, imp, n)
            &&& pattern_views(new.patterns@) == patterns_upto(issues, n)
            &&& summary_views(new.active_observations@) == actives_upto(issues, imp, n)
            &&& crate::observation::texts(new.pending_warnings@) == warnings_upto(issues, n)
            &&& new.last_seen == Some(profile.updated_at)
            &&& new.first_seen == if old.first_seen is None { Some(profile.updated_at) } else { old.first_seen }
            &&& new == CachedContext {
                name: new.name,
                model: new.model,
                firmware: new.firmware,
                successful_prints: new.successful_prints,
                failed_prints: new.failed_prints,
                avg_duration_ms: new.avg_duration_ms,
                total_prints: new.total_prints,
                success_rate_milli: new.success_rate_milli,
                reliability_milli: new.reliability_milli,
                known_issues: new.known_issues,
                patterns: new.patterns,
                active_observations: new.active_observations,
                pending_warnings: new.pending_warnings,
                last_seen: new.last_seen,
                first_seen: new.first_seen,
                ..old
            }
        },
        KnowledgeKind::TimelineEventAdded { entry } => match entry.event_type {
            TimelineEventType::FailureDetected => {
                &&& failure_views(new.recent_failures@) == capped(
                    failure_views(old.recent_failures@).push(
                        RecentFailureView {
                            timestamp: entry.occurred_at,
                            reason: Some(entry.description@),
                            failure_count_in_window: 1,
                        },
                    ),
                    MAX_RECENT_FAILURES as nat,
                )
                &&& evidence_views(new.evidence@) == capped(
                    evidence_views(old.evidence@).push(
                        EvidenceView {
                            fact_type: "print_failure"@,
                            statement: entry.description@,
                            quality: EvidenceQuality::Observed,
                            confidence_milli: 950,
                            timestamp: entry.occurred_at,
                            source_id: None,
                        },
                    ),
                    MAX_EVIDENCE as nat,
                )
                &&& new == CachedContext { recent_failures: new.recent_failures, evidence: new.evidence, ..old }
            },
            TimelineEventType::IssueResolved => {
                &&& evidence_views(new.evidence@) == capped(
                    evidence_views(old.evidence@).push(
                        EvidenceView {
                            fact_type: "issue_resolved"@,
                            statement: entry.description@,
                            quality: EvidenceQuality::Confirmed,
                            confidence_milli: 900,
                            timestamp: entry.occurred_at,
                            source_id: None,
                        },
                    ),
                    MAX_EVIDENCE as nat,
                )
                &&& new == CachedContext { evidence: new.evidence, ..old }
            },
            _ => new == old,
        },
        KnowledgeKind::KnowledgeSnapshot { .. } => new == old,
    }
}

/// A printer keeps at most `MAX_EVIDENCE` pieces of evidence: no record
/// takes a cache within the bound beyond it.
pub proof fn lemma_evidence_stays_bounded(old: CachedContext, new: CachedContext, k: Knowledge, imp: Seq<i64>)
    requires
        ingested(old, new, k, imp),
        old.evidence@.len() <= MAX_EVIDENCE,
    ensures
        new.evidence@.len() <= MAX_EVIDENCE,
{
    assert(evidence_views(new.evidence@).len() == new.evidence@.len());
    assert(evidence_views(old.evidence@).len() == old.evidence@.len());
}

/// The caches after a record for its printer: the printer's cache, or a
/// fresh one appended for a new printer, ingests the record; every other
/// cache stays, and every cache keeps its printer.
pub open spec fn processed(old: Seq<CachedContext>, new: Seq<CachedContext>, knowledge: Knowledge, imp: Seq<i64>) -> bool {
    &&& match cache_index(old, knowledge.printer_id@) {
        Some(i) => {
            &&& new.len() == old.len()
            &&& forall|j: int| 0 <= j < old.len() && j != i ==> #[trigger] new[j] == old[j]
            &&& ingested(old[i], new[i], knowledge, imp)
        },
        None => {
            &&& new.len() == old.len() + 1
            &&& new.drop_last() == old
            &&& exists|fresh: CachedContext| is_fresh(fresh, knowledge.printer_id@)
                && ingested(fresh, new.last(), knowledge, imp)
        },
    }
    &&& forall|j: int|
        0 <= j < new.len() ==> (#[trigger] new[j]).printer_id@ == if j < old.len() {
            old[j].printer_id@
        } else {
            knowledge.printer_id@
        }
}

/// Processing a record for one printer touches only that printer: every
/// other printer keeps its position and its cache, the record's printer
/// is cached afterwards, and the number of printers grows by one exactly
/// when the record's printer was new.
pub proof fn lemma_process_touches_one_printer(
    old: Seq<CachedContext>,
    new: Seq<CachedContext>,
    knowledge: Knowledge,
    imp: Seq<i64>,
    q: Seq<char>,
)
    requires
        distinct_printers(old),
        distinct_printers(new),
        processed(old, new, knowledge, imp),
        q != knowledge.printer_id@,
    ensures
        cache_index(new, q) == cache_index(old, q),
        cache_index(old, q) matches Some(i) ==> new[i] == old[i],
        cache_index(new, knowledge.printer_id@) is Some,
        new.len() == old.len() + if cache_index(old, knowledge.printer_id@) is Some { 0int } else { 1int },
{
    let p = knowledge.printer_id@;
    assert forall|j: int| 0 <= j < new.len() implies ((#[trigger] new[j]).printer_id@ == q <==> (j < old.len()
        && old[j].printer_id@ == q)) by {}
    if exists|i: int| 0 <= i < old.len() && (#[trigger] old[i]).printer_id@ == q {
        let i = choose|i: int| 0 <= i < old.len() && (#[trigger] old[i]).printer_id@ == q;
        assert(new[i].printer_id@ == q);
        let k = choose|k: int| 0 <= k < new.len() && (#[trigger] new[k]).printer_id@ == q;
        assert(k == i);
        if let Some(m) = cache_index(old, p) {
            assert(old[m].printer_id@ == p);
            assert(m != i);
        } else {
            assert(new.drop_last()[i] == new[i]);
        }
    } else {
        assert(!exists|k: int| 0 <= k < new.len() && (#[trigger] new[k]).printer_id@ == q);
    }
    if cache_index(old, p) is None {
        assert(new[old.len() as int].printer_id@ == p);
    }
}

/// A fresh cache for a printer: nothing known yet.
pub open spec fn is_fresh(c: CachedContext, printer_id: Seq<char>) -> bool {
    &&& c.printer_id@ == printer_id
    &&& c.name@ == Seq::<char>::empty()
    &&& c.model is None && c.firmware is None
    &&& c.first_seen is None && c.last_seen is None
    &&& c.reliability_milli is None
    &&& c.total_observations == 0 && c.total_prints == 0
    &&& c.successful_prints == 0 && c.failed_prints == 0
    &&& c.avg_duration_ms is None
    &&& c.recent_failures@.len() == 0
    &&& c.temperature_stability_milli is None && c.success_rate_milli is None
    &&& c.uptime_ms == 0 && c.recent_error_count == 0 && c.recent_warning_count == 0
    &&& !c.is_printing && c.active_print_filename is None
    &&& c.active_observations@.len() == 0 && c.pending_warnings@.len() == 0
    &&& c.known_issues@.len() == 0 && c.patterns@.len() == 0 && c.evidence@.len() == 0
}

/// Which inputs a record can be processed with: an updated profile
/// comes with the importance of each of its known issues, and its print
/// counts add up within `u64`.
pub open spec fn processable(k: Knowledge, imp: Seq<i64>) -> bool {
    k.kind matches KnowledgeKind::ProfileUpdated { profile } ==> imp.len()
        == profile.behavior.known_issues@.len() && profile.behavior.successful_prints
        + profile.behavior.failed_prints <= u64::MAX
}

impl CachedContext {
    fn new(printer_id: String) -> (c: Self)
        ensures
            is_fresh(c, printer_id@),
    {
        let c = CachedContext {
            printer_id,
            name: String::new(),
            model: None,
            firmware: None,
            first_seen: None,
            last_seen: None,
            reliability_milli: None,
            total_observations: 0,
            total_prints: 0,
            successful_prints: 0,
            failed_prints: 0,
            avg_duration_ms: None,
            recent_failures: Vec::new(),
            temperature_stability_milli: None,
            success_rate_milli: None,
            uptime_ms: 0,
            recent_error_count: 0,
            recent_warning_count: 0,
            is_printing: false,
            active_print_filename: None,
            active_observations: Vec::new(),
            pending_warnings: Vec::new(),
            known_issues: Vec::new(),
            patterns: Vec::new(),
            evidence: Vec::new(),
        };
        proof {
            reveal_strlit("");
        }
        c
    }
}

impl Evidence {
    /// Evidence inferred by a rule.
    pub fn inferred(fact_type: &str, statement: String, confidence_milli: i64, timestamp: i64) -> (e: Self)
        ensures
            e@ == (EvidenceView {
                fact_type: fact_type@,
                statement: statement@,
                quality: EvidenceQuality::Inferred,
                confidence_milli,
                timestamp,
                source_id: None,
            }),
    {
        Evidence {
            fact_type: String::from_str(fact_type),
            statement,
            quality: EvidenceQuality::Inferred,
            confidence_milli,
            timestamp,
            source_id: None,
        }
    }

    /// Evidence observed directly.
    pub fn observed(fact_type: &str, statement: String, confidence_milli: i64, timestamp: i64) -> (e: Self)
        ensures
            e@ == (EvidenceView {
                fact_type: fact_type@,
                statement: statement@,
                quality: EvidenceQuality::Observed,
                confidence_milli,
                timestamp,
                source_id: None,
            }),
    {
        Evidence {
            fact_type: String::from_str(fact_type),
            statement,
            quality: EvidenceQuality::Observed,
            confidence_milli,
            timestamp,
            source_id: None,
        }
    }

    pub fn duplicate(&self) -> (r: Self)
        ensures
            r@ == self@,
    {
        Evidence {
            fact_type: self.fact_type.clone(),
            statement: self.statement.clone(),
            quality: self.quality,
            confidence_milli: self.confidence_milli,
            timestamp: self.timestamp,
            source_id: clone_opt_string(&self.source_id),
        }
    }
}

fn category_name_text(c: crate::observation::AnomalyCategory) -> (s: String)
    ensures
        s@ == category_debug_name(c),
{
    let t = match c {
        crate::observation::AnomalyCategory::TemperatureInstability => "TemperatureInstability",
        crate::observation::AnomalyCategory::ExcessiveErrors => "ExcessiveErrors",
        crate::observation::AnomalyCategory::RepeatedFailures => "RepeatedFailures",
        crate::observation::AnomalyCategory::CalibrationOverdue => "CalibrationOverdue",
    };
    String::from_str(t)
}

/// Appends to a list and drops its oldest element once it is longer
/// than `cap`.
fn push_capped<T>(v: &mut Vec<T>, x: T, cap: usize)
    ensures
        final(v)@ == capped(old(v)@.push(x), cap as nat),
{
    v.push(x);
    if v.len() > cap {
        v.remove(0);
        assert(final(v)@ =~= old(v)@.push(x).drop_first());
    }
}

proof fn lemma_capped_views_evidence(s: Seq<Evidence>, cap: nat)
    ensures
        evidence_views(capped(s, cap)) == capped(evidence_views(s), cap),
{
    if s.len() > cap {
        assert(evidence_views(s.drop_first()) =~= evidence_views(s).drop_first());
    }
}

proof fn lemma_capped_views_failures(s: Seq<RecentFailure>, cap: nat)
    ensures
        failure_views(capped(s, cap)) == capped(failure_views(s), cap),
{
    if s.len() > cap {
        assert(failure_views(s.drop_first()) =~= failure_views(s).drop_first());
    }
}

/// The known issues of a profile as summaries.
fn summarize_issues(issues: &Vec<KnownIssue>, imp: &[i64]) -> (r: (
    Vec<IssueSummary>,
    Vec<HistoricalPattern>,
    Vec<ObservationSummary>,
    Vec<String>,
))
    requires
        imp@.len() == issues@.len(),
    ensures
        issue_summary_views(r.0@) == issue_summaries(issue_views(issues@), imp@, issues@.len() as int),
        pattern_views(r.1@) == patterns_upto(issue_views(issues@), issues@.len() as int),
        summary_views(r.2@) == actives_upto(issue_views(issues@), imp@, issues@.len() as int),
        crate::observation::texts(r.3@) == warnings_upto(issue_views(issues@), issues@.len() as int),
{
    let ghost s = issue_views(issues@);
    let mut summaries: Vec<IssueSummary> = Vec::new();
    let mut patterns: Vec<HistoricalPattern> = Vec::new();
    let mut actives: Vec<ObservationSummary> = Vec::new();
    let mut warnings: Vec<String> = Vec::new();
    let mut i: usize = 0;
    while i < issues.len()
        invariant
            i <= issues@.len(),
            imp@.len() == issues@.len(),
            s == issue_views(issues@),
            issue_summary_views(summaries@) == issue_summaries(s, imp@, i as int),
            pattern_views(patterns@) == patterns_upto(s, i as int),
            summary_views(actives@) == actives_upto(s, imp@, i as int),
            crate::observation::texts(warnings@) == warnings_upto(s, i as int),
        decreases issues@.len() - i,
    {
        let issue = &issues[i];
        assert(s[i as int] == issue@);
        let summary = IssueSummary {
            category: category_name_text(issue.category),
            description: issue.description.clone(),
            first_seen: issue.first_seen,
            last_seen: issue.last_seen,
            occurrence_count: issue.occurrence_count,
            resolved: issue.resolved,
            importance_milli: imp[i],
        };
        summaries.push(summary);
        assert(issue_summary_views(summaries@) =~= issue_summaries(s, imp@, i as int).push(
            issue_summary(s[i as int], imp@[i as int]),
        ));
        if issue.occurrence_count > 1 {
            proof {
                reveal_strlit("warning");
            }
            let pattern = HistoricalPattern {
                pattern_type: category_name_text(issue.category),
                description: issue.description.clone(),
                occurrence_count: issue.occurrence_count,
                first_seen: issue.first_seen,
                last_seen: issue.last_seen,
                typical_severity: String::from_str("warning"),
                resolved_count: if issue.resolved { 1 } else { 0 },
            };
            patterns.push(pattern);
            assert(pattern_views(patterns@) =~= patterns_upto(s, i as int).push(pattern_of(s[i as int])));
        }
        if !issue.resolved {
            let active = ObservationSummary {
                category: category_name_text(issue.category),
                severity: String::from_str("warning"),
                message: issue.description.clone(),
                importance_milli: imp[i],
                confidence_milli: 700,
                quality: EvidenceQuality::Inferred,
                timestamp: issue.last_seen,
            };
            actives.push(active);
            assert(summary_views(actives@) =~= actives_upto(s, imp@, i as int).push(
                active_summary(s[i as int], imp@[i as int]),
            ));
            warnings.push(issue.description.clone());
            assert(crate::observation::texts(warnings@) =~= warnings_upto(s, i as int).push(
                s[i as int].description,
            ));
        }
        i = i + 1;
    }
    (summaries, patterns, actives, warnings)
}

/// The success rate of `s` successes among `total` prints.
fn rate(s: u64, total: u64) -> (r: Option<i64>)
    requires
        s <= total,
    ensures
        r == success_rate(s, total as int),
{
    if total > 0 {
        let x = round_div_u128(1000 * (s as u128), total as u128);
        Some(x as i64)
    } else {
        None
    }
}

fn round_div_u128(x: u128, d: u128) -> (r: u128)
    requires
        0 < d,
        x <= 1000 * d,
        d <= u64::MAX,
    ensures
        r == round_div(x as int, d as int),
        r <= 1000,
{
    let q = x + d / 2;
    let r = q / d;
    assert(r <= 1000) by (nonlinear_arith)
        requires
            r as int == q as int / d as int,
            q <= 1000 * d + d,
            q < 1001 * d,
            d > 0,
    ;
    r
}

/// Applies one knowledge record to a printer's cache.
fn ingest(cached: &mut CachedContext, knowledge: Knowledge, imp: &[i64])
    requires
        processable(knowledge, imp@),
    ensures
        ingested(*old(cached), *final(cached), knowledge, imp@),
{
    let ts = knowledge.timestamp;
    match knowledge.kind {
        KnowledgeKind::ObservationTracked { observation_id, importance_milli, confidence_milli } => {
            proof {
                reveal_strlit("Observation recorded (importance=");
                reveal_strlit(", confidence=");
                reveal_strlit(")");
            }
            if cached.total_observations < u64::MAX {
                cached.total_observations = cached.total_observations + 1;
            }
            let statement = String::from_str("Observation recorded (importance=").concat(
                crate::text::milli_to_hundredths(importance_milli).as_str(),
            ).concat(", confidence=").concat(crate::text::milli_to_hundredths(confidence_milli).as_str()).concat(
                ")",
            );
            let e = Evidence::inferred("observation_tracked", statement, confidence_milli, ts);
            let ghost before = cached.evidence@;
            push_capped(&mut cached.evidence, e, MAX_EVIDENCE);
            proof {
                lemma_capped_views_evidence(before.push(e), MAX_EVIDENCE as nat);
                assert(evidence_views(before.push(e)) =~= evidence_views(before).push(e@));
            }
        },
        KnowledgeKind::ObservationResolved { observation_id, resolution } => {
            proof {
                reveal_strlit("Observation resolved: ");
            }
            let e = Evidence {
                fact_type: String::from_str("observation_resolved"),
                statement: String::from_str("Observation resolved: ").concat(resolution.as_str()),
                quality: EvidenceQuality::Confirmed,
                confidence_milli: 1000,
                timestamp: ts,
                source_id: Some(observation_id),
            };
            let ghost before = cached.evidence@;
            push_capped(&mut cached.evidence, e, MAX_EVIDENCE);
            proof {
                lemma_capped_views_evidence(before.push(e), MAX_EVIDENCE as nat);
                assert(evidence_views(before.push(e)) =~= evidence_views(before).push(e@));
            }
        },
        KnowledgeKind::ProfileUpdated { profile } => {
            cached.name = profile.printer_id.clone();
            cached.model = clone_opt_string(&profile.hardware.model);
            cached.firmware = clone_opt_string(&profile.hardware.firmware);
            cached.successful_prints = profile.behavior.successful_prints;
            cached.failed_prints = profile.behavior.failed_prints;
            cached.avg_duration_ms = profile.behavior.avg_print_duration_ms;
            let total = cached.successful_prints + cached.failed_prints;
            cached.total_prints = total;
            cached.success_rate_milli = rate(cached.successful_prints, total);
            cached.reliability_milli = profile.behavior.reliability_milli;
            let (summaries, patterns, actives, warnings) = summarize_issues(
                &profile.behavior.known_issues,
                imp,
            );
            cached.known_issues = summaries;
            cached.patterns = patterns;
            cached.active_observations = actives;
            cached.pending_warnings = warnings;
            cached.last_seen = Some(profile.updated_at);
            if cached.first_seen.is_none() {
                cached.first_seen = Some(profile.updated_at);
            }
        },
        KnowledgeKind::TimelineEventAdded { entry } => {
            match entry.event_type {
                TimelineEventType::FailureDetected => {
                    let failure = RecentFailure {
                        timestamp: entry.occurred_at,
                        reason: Some(entry.description.clone()),
                        failure_count_in_window: 1,
                    };
                    let ghost before_f = cached.recent_failures@;
                    push_capped(&mut cached.recent_failures, failure, MAX_RECENT_FAILURES);
                    proof {
                        lemma_capped_views_failures(before_f.push(failure), MAX_RECENT_FAILURES as nat);
                        assert(failure_views(before_f.push(failure)) =~= failure_views(before_f).push(failure@));
                    }
                    let e = Evidence::observed("print_failure", entry.description, 950, entry.occurred_at);
                    let ghost before = cached.evidence@;
                    push_capped(&mut cached.evidence, e, MAX_EVIDENCE);
                    proof {
                        lemma_capped_views_evidence(before.push(e), MAX_EVIDENCE as nat);
                        assert(evidence_views(before.push(e)) =~= evidence_views(before).push(e@));
                    }
                },
                TimelineEventType::IssueResolved => {
                    let e = Evidence {
                        fact_type: String::from_str("issue_resolved"),
                        statement: entry.description,
                        quality: EvidenceQuality::Confirmed,
                        confidence_milli: 900,
                        timestamp: entry.occurred_at,
                        source_id: None,
                    };
                    let ghost before = cached.evidence@;
                    push_capped(&mut cached.evidence, e, MAX_EVIDENCE);
                    proof {
                        lemma_capped_views_evidence(before.push(e), MAX_EVIDENCE as nat);
                        assert(evidence_views(before.push(e)) =~= evidence_views(before).push(e@));
                    }
                },
                _ => {},
            }
        },
        KnowledgeKind::KnowledgeSnapshot { .. } => {},
    }
}

/// Caches knowledge per printer and produces printer context on demand.
pub struct ContextEngine {
    printers: Vec<CachedContext>,
}

impl View for ContextEngine {
    type V = Seq<CachedContext>;

    closed spec fn view(&self) -> Seq<CachedContext> {
        self.printers@
    }
}

impl ContextEngine {
    #[verifier::type_invariant]
    closed spec fn well_formed(self) -> bool {
        &&& distinct_printers(self.printers@)
        &&& forall|i: int| 0 <= i < self.printers@.len() ==> (#[trigger] self.printers@[i]).evidence@.len() <= MAX_EVIDENCE
    }

    pub fn new() -> (e: Self)
        ensures
            e@.len() == 0,
    {
        ContextEngine { printers: Vec::new() }
    }

    /// The number of printers with cached context.
    pub fn printer_count(&self) -> (n: usize)
        ensures
            n == self@.len(),
    {
        self.printers.len()
    }

    fn find(&self, printer_id: &str) -> (res: Option<usize>)
        ensures
            match res {
                Some(i) => i < self@.len() && self@[i as int].printer_id@ == printer_id@,
                None => forall|j: int| 0 <= j < self@.len() ==> (#[trigger] self@[j]).printer_id@ != printer_id@,
            },
    {
        let key = String::from_str(printer_id);
        let mut i: usize = 0;
        while i < self.printers.len()
            invariant
                i <= self.printers@.len(),
                key@ == printer_id@,
                forall|j: int| 0 <= j < i ==> (#[trigger] self.printers@[j]).printer_id@ != printer_id@,
            decreases self.printers@.len() - i,
        {
            if self.printers[i].printer_id == key {
                return Some(i);
            }
            i = i + 1;
        }
        None
    }

    /// Applies a knowledge record to its printer's cache, which is
    /// created, empty, on the printer's first record. `issue_importance`
    /// holds the importance (thousandths) of each known issue of an
    /// updated profile, in order.
    pub fn process(&mut self, knowledge: Knowledge, issue_importance: &[i64])
        requires
            processable(knowledge, issue_importance@),
        ensures
            processed(old(self)@, final(self)@, knowledge, issue_importance@),
            distinct_printers(old(self)@),
            distinct_printers(final(self)@),
            cache_index(final(self)@, knowledge.printer_id@) is Some,
            forall|j: int| 0 <= j < final(self)@.len() ==> (#[trigger] final(self)@[j]).evidence@.len() <= MAX_EVIDENCE,
    {
        proof {
            use_type_invariant(&*self);
        }
        let printer_id = knowledge.printer_id.clone();
        match self.find(printer_id.as_str()) {
            Some(i) => {
                proof {
                    assert(self.printers@[i as int].printer_id@ == knowledge.printer_id@);
                    assert(cache_index(self.printers@, knowledge.printer_id@) == Some(i as int)) by {
                        let k = choose|k: int|
                            0 <= k < self.printers@.len() && (#[trigger] self.printers@[k]).printer_id@
                                == knowledge.printer_id@;
                        assert(self.printers@[k].printer_id@ == knowledge.printer_id@);
                    }
                }
                let mut printers = Vec::new();
                std::mem::swap(&mut printers, &mut self.printers);
                let ghost before = printers@;
                let mut cached = printers.remove(i);
                let ghost c0 = cached;
                ingest(&mut cached, knowledge, issue_importance);
                let ghost c1 = cached;
                printers.insert(i, cached);
                proof {
                    crate::tracker::lemma_remove_insert(before, i as int, c1);
                    assert(c1.printer_id == c0.printer_id);
                    assert(c0.evidence@.len() <= MAX_EVIDENCE);
                    lemma_evidence_stays_bounded(c0, c1, knowledge, issue_importance@);
                    assert forall|j: int| 0 <= j < printers@.len() implies (#[trigger] printers@[j]).evidence@.len()
                        <= MAX_EVIDENCE by {
                        if j != i {
                            assert(printers@[j] == before[j]);
                        }
                    }
                    assert(printers@[i as int].printer_id@ == knowledge.printer_id@);
                    assert forall|a: int, b: int|
                        0 <= a < printers@.len() && 0 <= b < printers@.len() && a != b implies (
                    #[trigger] printers@[a]).printer_id@ != (#[trigger] printers@[b]).printer_id@ by {
                        assert(before[a].printer_id@ != before[b].printer_id@);
                    }
                }
                self.printers = printers;
            },
            None => {
                let mut cached = CachedContext::new(printer_id);
                let ghost c0 = cached;
                ingest(&mut cached, knowledge, issue_importance);
                proof {
                    assert(cached.printer_id == c0.printer_id);
                    lemma_evidence_stays_bounded(c0, cached, knowledge, issue_importance@);
                }
                let mut printers = Vec::new();
                std::mem::swap(&mut printers, &mut self.printers);
                let ghost before = printers@;
                printers.push(cached);
                proof {
                    assert forall|a: int, b: int|
                        0 <= a < printers@.len() && 0 <= b < printers@.len() && a != b implies (
                    #[trigger] printers@[a]).printer_id@ != (#[trigger] printers@[b]).printer_id@ by {
                        if a < before.len() && b < before.len() {
                            assert(before[a].printer_id@ != before[b].printer_id@);
                        }
                    }
                    assert(printers@.drop_last() =~= before);
                    assert(printers@[printers@.len() - 1].printer_id@ == knowledge.printer_id@);
                    assert forall|j: int| 0 <= j < printers@.len() implies (#[trigger] printers@[j]).evidence@.len()
                        <= MAX_EVIDENCE by {
                        if j < before.len() {
                            assert(printers@[j] == before[j]);
                        }
                    }
                }
                self.printers = printers;
            },
        }
    }

    /// The current context of a printer; `None` when nothing has been
    /// recorded about it.
    pub fn context(&self, printer_id: &str) -> (res: Option<PrinterContext>)
        ensures
            match cache_index(self@, printer_id@) {
                None => res is None,
                Some(i) => res matches Some(ctx) && briefs(self@[i], ctx),
            },
    {
        proof {
            use_type_invariant(self);
        }
        match self.find(printer_id) {
            None => {
                proof {
                    if cache_index(self@, printer_id@) is Some {
                        let k = choose|k: int|
                            0 <= k < self@.len() && (#[trigger] self@[k]).printer_id@ == printer_id@;
                        assert(self@[k].printer_id@ != printer_id@);
                    }
                }
                None
            },
            Some(i) => {
                proof {
                    assert(cache_index(self@, printer_id@) == Some(i as int)) by {
                        let k = choose|k: int|
                            0 <= k < self@.len() && (#[trigger] self@[k]).printer_id@ == printer_id@;
                        assert(self@[k].printer_id@ == printer_id@);
                    }
                }
                Some(brief(&self.printers[i]))
            },
        }
    }
}

/// The newest `n` items of a sequence, newest first.
pub open spec fn newest<T>(s: Seq<T>, n: nat) -> Seq<T> {
    let m: nat = if s.len() < n { s.len() } else { n };
    Seq::new(m, |k: int| s[s.len() - 1 - k])
}

/// What the context of a cache says.
pub open spec fn briefs(c: CachedContext, ctx: PrinterContext) -> bool {
    &&& ctx.printer_id@ == c.printer_id@
    &&& ctx.summary.name@ == c.name@
    &&& opt_text(ctx.summary.model) == opt_text(c.model)
    &&& opt_text(ctx.summary.firmware) == opt_text(c.firmware)
    &&& ctx.summary.first_seen == c.first_seen
    &&& ctx.summary.last_seen == c.last_seen
    &&& ctx.summary.reliability_milli == c.reliability_milli
    &&& ctx.summary.total_observations == c.total_observations
    &&& ctx.summary.total_prints == c.total_prints
    &&& ctx.print_history.total_prints == c.total_prints
    &&& ctx.print_history.successful_prints == c.successful_prints
    &&& ctx.print_history.failed_prints == c.failed_prints
    &&& ctx.print_history.success_rate_milli == c.success_rate_milli
    &&& ctx.print_history.avg_duration_ms == c.avg_duration_ms
    &&& failure_views(ctx.print_history.recent_failures@) == failure_views(c.recent_failures@)
    &&& is_most_common(failure_views(c.recent_failures@), opt_text(ctx.print_history.common_failure_pattern))
    &&& ctx.health.temperature_stability_milli == c.temperature_stability_milli
    &&& ctx.health.success_rate_milli == c.success_rate_milli
    &&& ctx.health.uptime_ms == c.uptime_ms
    &&& ctx.health.recent_error_count == c.recent_error_count
    &&& ctx.health.recent_warning_count == c.recent_warning_count
    &&& ctx.health.reliability_milli == c.reliability_milli
    &&& ctx.current_state.is_printing == c.is_printing
    &&& opt_text(ctx.current_state.active_print_filename) == opt_text(c.active_print_filename)
    &&& summary_views(ctx.current_state.active_observations@) == summary_views(c.active_observations@)
    &&& crate::observation::texts(ctx.current_state.pending_warnings@) == crate::observation::texts(
        c.pending_warnings@,
    )
    &&& evidence_views(ctx.current_state.recent_events@) == newest(
        evidence_views(c.evidence@),
        MAX_RECENT_EVENTS as nat,
    )
    &&& issue_summary_views(ctx.known_issues@) == issue_summary_views(c.known_issues@)
    &&& pattern_views(ctx.historical_patterns@) == pattern_views(c.patterns@)
    &&& evidence_views(ctx.recent_evidence@) == newest(evidence_views(c.evidence@), MAX_EVIDENCE as nat)
}

fn newest_evidence(v: &Vec<Evidence>, n: usize) -> (r: Vec<Evidence>)
    ensures
        evidence_views(r@) == newest(evidence_views(v@), n as nat),
{
    let ghost s = evidence_views(v@);
    let m: usize = if v.len() < n { v.len() } else { n };
    let mut r: Vec<Evidence> = Vec::new();
    let mut k: usize = 0;
    while k < m
        invariant
            k <= m,
            m <= v@.len(),
            m == (if v@.len() < n { v@.len() } else { n as nat }),
            s == evidence_views(v@),
            r@.len() == k,
            forall|j: int| 0 <= j < k ==> (#[trigger] r@[j])@ == s[v@.len() - 1 - j],
        decreases m - k,
    {
        let idx = v.len() - 1 - k;
        r.push(v[idx].duplicate());
        k = k + 1;
    }
    assert(evidence_views(r@) =~= newest(s, n as nat));
    r
}

impl RecentFailure {
    pub fn duplicate(&self) -> (r: Self)
        ensures
            r@ == self@,
    {
        RecentFailure {
            timestamp: self.timestamp,
            reason: clone_opt_string(&self.reason),
            failure_count_in_window: self.failure_count_in_window,
        }
    }
}

impl IssueSummary {
    pub fn duplicate(&self) -> (r: Self)
        ensures
            r@ == self@,
    {
        IssueSummary {
            category: self.category.clone(),
            description: self.description.clone(),
            first_seen: self.first_seen,
            last_seen: self.last_seen,
            occurrence_count: self.occurrence_count,
            resolved: self.resolved,
            importance_milli: self.importance_milli,
        }
    }
}

impl HistoricalPattern {
    pub fn duplicate(&self) -> (r: Self)
        ensures
            r@ == self@,
    {
        HistoricalPattern {
            pattern_type: self.pattern_type.clone(),
            description: self.description.clone(),
            occurrence_count: self.occurrence_count,
            first_seen: self.first_seen,
            last_seen: self.last_seen,
            typical_severity: self.typical_severity.clone(),
            resolved_count: self.resolved_count,
        }
    }
}

impl ObservationSummary {
    pub fn duplicate(&self) -> (r: Self)
        ensures
            r@ == self@,
    {
        ObservationSummary {
            category: self.category.clone(),
            severity: self.severity.clone(),
            message: self.message.clone(),
            importance_milli: self.importance_milli,
            confidence_milli: self.confidence_milli,
            quality: self.quality,
            timestamp: self.timestamp,
        }
    }
}

fn copy_failures(v: &Vec<RecentFailure>) -> (r: Vec<RecentFailure>)
    ensures
        failure_views(r@) == failure_views(v@),
{
    let mut r: Vec<RecentFailure> = Vec::new();
    let mut i: usize = 0;
    while i < v.len()
        invariant
            i <= v@.len(),
            r@.len() == i,
            forall|j: int| 0 <= j < i ==> (#[trigger] r@[j])@ == v@[j]@,
        decreases v@.len() - i,
    {
        r.push(v[i].duplicate());
        i = i + 1;
    }
    assert(failure_views(r@) =~= failure_views(v@));
    r
}

fn copy_issues(v: &Vec<IssueSummary>) -> (r: Vec<IssueSummary>)
    ensures
        issue_summary_views(r@) == issue_summary_views(v@),
{
    let mut r: Vec<IssueSummary> = Vec::new();
    let mut i: usize = 0;
    while i < v.len()
        invariant
            i <= v@.len(),
            r@.len() == i,
            forall|j: int| 0 <= j < i ==> (#[trigger] r@[j])@ == v@[j]@,
        decreases v@.len() - i,
    {
        r.push(v[i].duplicate());
        i = i + 1;
    }
    assert(issue_summary_views(r@) =~= issue_summary_views(v@));
    r
}

fn copy_patterns(v: &Vec<HistoricalPattern>) -> (r: Vec<HistoricalPattern>)
    ensures
        pattern_views(r@) == pattern_views(v@),
{
    let mut r: Vec<HistoricalPattern> = Vec::new();
    let mut i: usize = 0;
    while i < v.len()
        invariant
            i <= v@.len(),
            r@.len() == i,
            forall|j: int| 0 <= j < i ==> (#[trigger] r@[j])@ == v@[j]@,
        decreases v@.len() - i,
    {
        r.push(v[i].duplicate());
        i = i + 1;
    }
    assert(pattern_views(r@) =~= pattern_views(v@));
    r
}

fn copy_summaries(v: &Vec<ObservationSummary>) -> (r: Vec<ObservationSummary>)
    ensures
        summary_views(r@) == summary_views(v@),
{
    let mut r: Vec<ObservationSummary> = Vec::new();
    let mut i: usize = 0;
    while i < v.len()
        invariant
            i <= v@.len(),
            r@.len() == i,
            forall|j: int| 0 <= j < i ==> (#[trigger] r@[j])@ == v@[j]@,
        decreases v@.len() - i,
    {
        r.push(v[i].duplicate());
        i = i + 1;
    }
    assert(summary_views(r@) =~= summary_views(v@));
    r
}

fn copy_texts(v: &Vec<String>) -> (r: Vec<String>)
    ensures
        crate::observation::texts(r@) == crate::observation::texts(v@),
{
    let r = v.clone();
    assert(r@ =~= v@);
    r
}

/// The briefing of one cache, stamped with the current time.
fn brief(c: &CachedContext) -> (ctx: PrinterContext)
    ensures
        briefs(*c, ctx),
{
    PrinterContext {
        printer_id: c.printer_id.clone(),
        generated_at: crate::clock::now_millis(),
        summary: PrinterSummary {
            name: c.name.clone(),
            model: clone_opt_string(&c.model),
            firmware: clone_opt_string(&c.firmware),
            first_seen: c.first_seen,
            last_seen: c.last_seen,
            reliability_milli: c.reliability_milli,
            total_observations: c.total_observations,
            total_prints: c.total_prints,
        },
        print_history: PrintHistorySummary {
            total_prints: c.total_prints,
            successful_prints: c.successful_prints,
            failed_prints: c.failed_prints,
            success_rate_milli: c.success_rate_milli,
            avg_duration_ms: c.avg_duration_ms,
            recent_failures: copy_failures(&c.recent_failures),
            common_failure_pattern: most_common_failure_pattern(&c.recent_failures),
        },
        health: HealthSummary {
            temperature_stability_milli: c.temperature_stability_milli,
            success_rate_milli: c.success_rate_milli,
            uptime_ms: c.uptime_ms,
            recent_error_count: c.recent_error_count,
            recent_warning_count: c.recent_warning_count,
            reliability_milli: c.reliability_milli,
        },
        current_state: CurrentState {
            is_printing: c.is_printing,
            active_print_filename: clone_opt_string(&c.active_print_filename),
            active_observations: copy_summaries(&c.active_observations),
            pending_warnings: copy_texts(&c.pending_warnings),
            recent_events: newest_evidence(&c.evidence, MAX_RECENT_EVENTS),
        },
        known_issues: copy_issues(&c.known_issues),
        historical_patterns: copy_patterns(&c.patterns),
        recent_evidence: newest_evidence(&c.evidence, MAX_EVIDENCE),
    }
}

proof fn lemma_open_prefix(s: Seq<IssueView>, imp: Seq<i64>, n: int)
    requires
        0 <= n <= s.len(),
    ensures
        actives_upto(s, imp, n).len() == crate::profiler::open_issue_count(s.subrange(0, n)),
        warnings_upto(s, n).len() == crate::profiler::open_issue_count(s.subrange(0, n)),
    decreases n,
{
    if n > 0 {
        lemma_open_prefix(s, imp, n - 1);
        assert(s.subrange(0, n).drop_last() =~= s.subrange(0, n - 1));
    }
}

/// A context lists one open observation and one pending warning per
/// unresolved known issue of the profile, and none once all are
/// resolved.
pub proof fn lemma_open_issues_are_pending(s: Seq<IssueView>, imp: Seq<i64>)
    ensures
        actives_upto(s, imp, s.len() as int).len() == crate::profiler::open_issue_count(s),
        warnings_upto(s, s.len() as int).len() == crate::profiler::open_issue_count(s),
{
    lemma_open_prefix(s, imp, s.len() as int);
    assert(s.subrange(0, s.len() as int) =~= s);
}

} // verus!
