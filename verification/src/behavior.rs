//! The learning engine: every analyzer run over one history.

use vstd::prelude::*;

use crate::calibration::{calibration_count, summarizes, CalibrationTracker};
use crate::learning::{learned_views, BehaviorSummary};
use crate::patterns::{all_patterns, PatternDetector};
use crate::prints::{compares, print_indices, PrintAnalyzer, MIN_PRINTS_FOR_COMPARISON};
use crate::timeline::TimelineEvent;
use crate::trends::{all_trends, trend_views, TrendAnalyzer};

verus! {

/// What a behavior summary of a history, made at `now`, says.
pub open spec fn summarizes_behavior(ev: Seq<TimelineEvent>, now: i64, s: BehaviorSummary) -> bool {
    &&& learned_views(s.patterns@) == all_patterns(ev)
    &&& trend_views(s.trends@) == all_trends(ev)
    &&& (s.print_comparison is None <==> print_indices(ev).len() < MIN_PRINTS_FOR_COMPARISON)
    &&& (s.print_comparison matches Some(c) ==> compares(ev, c))
    &&& (s.calibration is None <==> calibration_count(ev, ev.len() as int) == 0)
    &&& (s.calibration matches Some(c) ==> summarizes(ev, now, c))
    &&& s.aging@.len() == 0
    &&& s.component_health@.len() == 0
    &&& s.generated_at == now
    &&& s.events_analyzed == ev.len()
    &&& s.patterns_found == s.patterns@.len()
}

/// Runs every analyzer.
pub struct LearningEngine;

impl LearningEngine {
    /// Patterns, trends, the print comparison and the calibration
    /// summary of a history, as of `now`.
    pub fn analyze_at(events: &[TimelineEvent], now: i64) -> (s: BehaviorSummary)
        ensures
            summarizes_behavior(events@, now, s),
    {
        let patterns = PatternDetector::detect(events);
        let trends = TrendAnalyzer::analyze(events);
        let print_comparison = PrintAnalyzer::compare_recent(events);
        let calibration = CalibrationTracker::summarize_at(events, now);
        let found = patterns.len() as u64;
        BehaviorSummary {
            patterns,
            trends,
            print_comparison,
            calibration,
            aging: Vec::new(),
            component_health: Vec::new(),
            generated_at: now,
            events_analyzed: events.len() as u64,
            patterns_found: found,
        }
    }

    /// The same, as of now (the clock is read once).
    pub fn analyze(events: &[TimelineEvent]) -> (s: BehaviorSummary)
        ensures
            summarizes_behavior(events@, s.generated_at, s),
    {
        let now = crate::clock::now_millis();
        Self::analyze_at(events, now)
    }
}

} // verus!
