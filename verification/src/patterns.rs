//! Pattern detection over a printer's timeline: recurring failures,
//! configuration regressions, calibration loops and event clusters.
//! Every detection is a count against a threshold.

use vstd::prelude::*;
use vstd::string::*;

use crate::learning::{
    action_name, action_name_text, is_calibration_action, learned_views, LearnedPattern,
    LearnedPatternView, PatternKind,
};
use crate::observation::texts;
use crate::text::decimal;
use crate::timeline::{ConfigAction, TimelineEvent, TimelineEventKind};

verus! {

/// How many anomalies with one description make a recurring failure.
pub const RECURRING_MIN: usize = 3;

/// How many events after a configuration change are looked at.
pub const REGRESSION_WINDOW: usize = 5;

/// How many anomalies among them make a regression.
pub const REGRESSION_MIN: usize = 2;

/// How many calibrations of one kind make a loop.
pub const LOOP_MIN: usize = 3;

/// The span within which they must fall: 24 hours, in milliseconds.
pub const LOOP_SPAN_MS: i64 = 86_400_000;

/// The largest gap within a cluster: 10 minutes, in milliseconds.
pub const CLUSTER_GAP_MS: i64 = 600_000;

/// How many events make a cluster.
pub const CLUSTER_MIN: usize = 3;

/// What groups events together.
pub enum GroupKey {
    /// Anomalies with this description.
    Description(String),
    /// Calibrations of this kind.
    Calibration(ConfigAction),
}

/// Whether an event belongs to a group.
pub open spec fn in_group(k: GroupKey, e: TimelineEvent) -> bool {
    match k {
        GroupKey::Description(d) => e.kind matches TimelineEventKind::Anomaly(a) && a.description@ == d@,
        GroupKey::Calibration(c) => e.kind matches TimelineEventKind::Configuration(x) && is_calibration_action(
            x.action,
        ) && x.action == c,
    }
}

/// The ids of the group's events among the first `n`, in order.
pub open spec fn group_ids(ev: Seq<TimelineEvent>, k: GroupKey, n: int) -> Seq<Seq<char>>
    decreases n,
{
    if n <= 0 {
        Seq::empty()
    } else if in_group(k, ev[n - 1]) {
        group_ids(ev, k, n - 1).push(ev[n - 1].id@)
    } else {
        group_ids(ev, k, n - 1)
    }
}

/// The earliest time of the group's events among the first `n`.
pub open spec fn group_min(ev: Seq<TimelineEvent>, k: GroupKey, n: int) -> Option<i64>
    decreases n,
{
    if n <= 0 {
        None
    } else if in_group(k, ev[n - 1]) {
        let t = ev[n - 1].timestamp;
        match group_min(ev, k, n - 1) {
            Some(m) => Some(if t < m { t } else { m }),
            None => Some(t),
        }
    } else {
        group_min(ev, k, n - 1)
    }
}

/// The latest time of the group's events among the first `n`.
pub open spec fn group_max(ev: Seq<TimelineEvent>, k: GroupKey, n: int) -> Option<i64>
    decreases n,
{
    if n <= 0 {
        None
    } else if in_group(k, ev[n - 1]) {
        let t = ev[n - 1].timestamp;
        match group_max(ev, k, n - 1) {
            Some(m) => Some(if t > m { t } else { m }),
            None => Some(t),
        }
    } else {
        group_max(ev, k, n - 1)
    }
}

/// Whether event `i` is the first of its group.
pub open spec fn first_of_group(ev: Seq<TimelineEvent>, k: GroupKey, i: int) -> bool {
    in_group(k, ev[i]) && forall|j: int| 0 <= j < i ==> !in_group(k, #[trigger] ev[j])
}

/// The group an event opens, if any: anomalies by description for
/// `by_description`, calibrations by kind otherwise.
pub open spec fn key_of(e: TimelineEvent, by_description: bool) -> Option<GroupKey> {
    match e.kind {
        TimelineEventKind::Anomaly(a) => if by_description {
            Some(GroupKey::Description(a.description))
        } else {
            None
        },
        TimelineEventKind::Configuration(c) => if !by_description && is_calibration_action(c.action) {
            Some(GroupKey::Calibration(c.action))
        } else {
            None
        },
        _ => None,
    }
}

/// The pattern of a recurring failure.
pub open spec fn recurring_pattern(ev: Seq<TimelineEvent>, k: GroupKey, d: Seq<char>) -> LearnedPatternView {
    let ids = group_ids(ev, k, ev.len() as int);
    LearnedPatternView {
        description: "Recurring failure: "@ + d,
        kind: PatternKind::RecurringFailure,
        occurrences: ids.len() as u64,
        first_seen: group_min(ev, k, ev.len() as int)->0,
        last_seen: group_max(ev, k, ev.len() as int)->0,
        confidence_milli: if ids.len() >= 10 { 1000 } else { (100 * ids.len()) as i64 },
        related_events: ids,
    }
}

/// The pattern of a calibration loop.
pub open spec fn loop_pattern(ev: Seq<TimelineEvent>, k: GroupKey, a: ConfigAction) -> LearnedPatternView {
    let ids = group_ids(ev, k, ev.len() as int);
    LearnedPatternView {
        description: "Calibration loop: "@ + action_name(a),
        kind: PatternKind::CalibrationLoop,
        occurrences: ids.len() as u64,
        first_seen: group_min(ev, k, ev.len() as int)->0,
        last_seen: group_max(ev, k, ev.len() as int)->0,
        confidence_milli: 800,
        related_events: ids,
    }
}

/// The pattern a group yields, if it qualifies: anomaly descriptions
/// seen at least 3 times; calibrations of a kind run at least 3 times
/// within 24 hours.
pub open spec fn group_pattern(ev: Seq<TimelineEvent>, k: GroupKey) -> Option<LearnedPatternView> {
    let n = group_ids(ev, k, ev.len() as int).len();
    match k {
        GroupKey::Description(d) => if n >= RECURRING_MIN {
            Some(recurring_pattern(ev, k, d@))
        } else {
            None
        },
        GroupKey::Calibration(a) => if n >= LOOP_MIN && group_max(ev, k, ev.len() as int)->0 - group_min(
            ev,
            k,
            ev.len() as int,
        )->0 < LOOP_SPAN_MS {
            Some(loop_pattern(ev, k, a))
        } else {
            None
        },
    }
}

/// The group patterns opened among the first `n` events, in order of
/// each group's first event.
pub open spec fn grouped_upto(ev: Seq<TimelineEvent>, by_description: bool, n: int) -> Seq<LearnedPatternView>
    decreases n,
{
    if n <= 0 {
        Seq::empty()
    } else {
        let rest = grouped_upto(ev, by_description, n - 1);
        match key_of(ev[n - 1], by_description) {
            Some(k) => if first_of_group(ev, k, n - 1) {
                match group_pattern(ev, k) {
                    Some(p) => rest.push(p),
                    None => rest,
                }
            } else {
                rest
            },
            None => rest,
        }
    }
}

/// The number of anomalies among events `lo..hi`.
pub open spec fn anomalies_in(ev: Seq<TimelineEvent>, lo: int, hi: int) -> nat
    decreases hi - lo,
{
    if hi <= lo {
        0
    } else {
        anomalies_in(ev, lo, hi - 1) + if ev[hi - 1].kind is Anomaly { 1nat } else { 0nat }
    }
}

/// The pattern of a configuration change followed by failures.
pub open spec fn regression_pattern(e: TimelineEvent) -> LearnedPatternView {
    LearnedPatternView {
        description: "Config change followed by failures"@,
        kind: PatternKind::ConfigRegression,
        occurrences: 1,
        first_seen: e.timestamp,
        last_seen: e.timestamp,
        confidence_milli: 700,
        related_events: seq![e.id@],
    }
}

/// The regressions among the first `n` events: configuration changes
/// with at least 2 anomalies among the 5 events that follow them.
pub open spec fn regressions_upto(ev: Seq<TimelineEvent>, n: int) -> Seq<LearnedPatternView>
    decreases n,
{
    if n <= 0 {
        Seq::empty()
    } else {
        let i = n - 1;
        let hi = if i + 1 + REGRESSION_WINDOW < ev.len() { i + 1 + REGRESSION_WINDOW } else { ev.len() as int };
        if ev[i].kind is Configuration && anomalies_in(ev, i + 1, hi) >= REGRESSION_MIN {
            regressions_upto(ev, n - 1).push(regression_pattern(ev[i]))
        } else {
            regressions_upto(ev, n - 1)
        }
    }
}

/// The pattern of a cluster made of events `start..end`.
pub open spec fn cluster_pattern(ev: Seq<TimelineEvent>, start: int, end: int) -> LearnedPatternView {
    LearnedPatternView {
        description: "Event cluster: "@ + decimal((end - start) as nat) + " events in short window"@,
        kind: PatternKind::EventCluster,
        occurrences: (end - start) as u64,
        first_seen: ev[start].timestamp,
        last_seen: ev[end - 1].timestamp,
        confidence_milli: 600,
        related_events: Seq::new((end - start) as nat, |j: int| ev[start + j].id@),
    }
}

/// Whether a cluster closes before event `i`: the gap to it exceeds 10
/// minutes.
pub open spec fn closes_at(ev: Seq<TimelineEvent>, i: int) -> bool {
    ev[i].timestamp - ev[i - 1].timestamp > CLUSTER_GAP_MS
}

/// The cluster made of events `start..end`, when it is big enough.
pub open spec fn cluster_if_big(ev: Seq<TimelineEvent>, start: int, end: int) -> Seq<LearnedPatternView> {
    if end - start >= CLUSTER_MIN {
        seq![cluster_pattern(ev, start, end)]
    } else {
        Seq::empty()
    }
}

/// The clusters found scanning from event `i`, the current one having
/// started at `start`; the run still open when the events end is a
/// cluster too.
pub open spec fn clusters_from(ev: Seq<TimelineEvent>, i: int, start: int) -> Seq<LearnedPatternView>
    decreases ev.len() - i,
{
    if i >= ev.len() {
        cluster_if_big(ev, start, ev.len() as int)
    } else if i < 1 {
        Seq::empty()
    } else if closes_at(ev, i) {
        cluster_if_big(ev, start, i) + clusters_from(ev, i + 1, i)
    } else {
        clusters_from(ev, i + 1, start)
    }
}

/// The event clusters: runs of at least 3 events each within 10
/// minutes of the one before.
pub open spec fn clusters(ev: Seq<TimelineEvent>) -> Seq<LearnedPatternView> {
    if ev.len() < 3 {
        Seq::empty()
    } else {
        clusters_from(ev, 1, 0)
    }
}

/// All patterns: recurring failures, regressions, calibration loops,
/// clusters, in that order.
pub open spec fn all_patterns(ev: Seq<TimelineEvent>) -> Seq<LearnedPatternView> {
    grouped_upto(ev, true, ev.len() as int) + regressions_upto(ev, ev.len() as int) + grouped_upto(
        ev,
        false,
        ev.len() as int,
    ) + clusters(ev)
}

fn key_contains(k: &GroupKey, e: &TimelineEvent) -> (b: bool)
    ensures
        b == in_group(*k, *e),
{
    match (k, &e.kind) {
        (GroupKey::Description(d), TimelineEventKind::Anomaly(a)) => a.description == *d,
        (GroupKey::Calibration(c), TimelineEventKind::Configuration(x)) => crate::learning::event_is_calibration(e)
            && x.action == *c,
        _ => false,
    }
}

/// The ids, earliest and latest time of a group's events.
fn collect_group(events: &[TimelineEvent], k: &GroupKey) -> (r: (Vec<String>, i64, i64))
    ensures
        texts(r.0@) == group_ids(events@, *k, events@.len() as int),
        r.0@.len() > 0 ==> group_min(events@, *k, events@.len() as int) == Some(r.1) && group_max(
            events@,
            *k,
            events@.len() as int,
        ) == Some(r.2),
        r.0@.len() == 0 ==> group_min(events@, *k, events@.len() as int) is None,
{
    let mut ids: Vec<String> = Vec::new();
    let mut lo: i64 = 0;
    let mut hi: i64 = 0;
    let mut i: usize = 0;
    while i < events.len()
        invariant
            i <= events@.len(),
            texts(ids@) == group_ids(events@, *k, i as int),
            ids@.len() > 0 ==> group_min(events@, *k, i as int) == Some(lo) && group_max(events@, *k, i as int)
                == Some(hi),
            ids@.len() == 0 ==> group_min(events@, *k, i as int) is None && group_max(events@, *k, i as int) is None,
        decreases events@.len() - i,
    {
        if key_contains(k, &events[i]) {
            let t = events[i].timestamp;
            if ids.len() == 0 {
                lo = t;
                hi = t;
            } else {
                if t < lo {
                    lo = t;
                }
                if t > hi {
                    hi = t;
                }
            }
            ids.push(events[i].id.clone());
            assert(texts(ids@) =~= group_ids(events@, *k, i as int).push(events@[i as int].id@));
        }
        i = i + 1;
    }
    (ids, lo, hi)
}

/// Whether some event before `i` is in the group.
fn seen_before(events: &[TimelineEvent], k: &GroupKey, i: usize) -> (b: bool)
    requires
        i <= events@.len(),
    ensures
        b == exists|j: int| 0 <= j < i && in_group(*k, #[trigger] events@[j]),
{
    let mut j: usize = 0;
    while j < i
        invariant
            j <= i,
            i <= events@.len(),
            forall|m: int| 0 <= m < j ==> !in_group(*k, #[trigger] events@[m]),
        decreases i - j,
    {
        if key_contains(k, &events[j]) {
            return true;
        }
        j = j + 1;
    }
    false
}

fn key_for(e: &TimelineEvent, by_description: bool) -> (k: Option<GroupKey>)
    ensures
        k == key_of(*e, by_description),
{
    match &e.kind {
        TimelineEventKind::Anomaly(a) => if by_description {
            Some(GroupKey::Description(a.description.clone()))
        } else {
            None
        },
        TimelineEventKind::Configuration(c) => if !by_description && crate::learning::event_is_calibration(e) {
            Some(GroupKey::Calibration(c.action))
        } else {
            None
        },
        _ => None,
    }
}

/// The patterns of groups: recurring failures when `by_description`,
/// calibration loops otherwise.
fn detect_groups(events: &[TimelineEvent], by_description: bool) -> (r: Vec<LearnedPattern>)
    ensures
        learned_views(r@) == grouped_upto(events@, by_description, events@.len() as int),
{
    let mut res: Vec<LearnedPattern> = Vec::new();
    let mut i: usize = 0;
    while i < events.len()
        invariant
            i <= events@.len(),
            learned_views(res@) == grouped_upto(events@, by_description, i as int),
        decreases events@.len() - i,
    {
        match key_for(&events[i], by_description) {
            Some(k) => {
                if !seen_before(events, &k, i) {
                    let (ids, lo, hi) = collect_group(events, &k);
                    let n = ids.len();
                    proof {
                        assert(in_group(k, events@[i as int]));
                        assert(first_of_group(events@, k, i as int));
                    }
                    let p: Option<LearnedPattern> = match &k {
                        GroupKey::Description(d) => {
                            if n >= RECURRING_MIN {
                                proof {
                                    reveal_strlit("Recurring failure: ");
                                }
                                Some(
                                    LearnedPattern {
                                        description: String::from_str("Recurring failure: ").concat(d.as_str()),
                                        kind: PatternKind::RecurringFailure,
                                        occurrences: n as u64,
                                        first_seen: lo,
                                        last_seen: hi,
                                        confidence_milli: if n >= 10 { 1000 } else { 100 * (n as i64) },
                                        related_events: ids,
                                    },
                                )
                            } else {
                                None
                            }
                        },
                        GroupKey::Calibration(a) => {
                            if n >= LOOP_MIN && (hi as i128) - (lo as i128) < LOOP_SPAN_MS as i128 {
                                proof {
                                    reveal_strlit("Calibration loop: ");
                                }
                                Some(
                                    LearnedPattern {
                                        description: String::from_str("Calibration loop: ").concat(
                                            action_name_text(*a).as_str(),
                                        ),
                                        kind: PatternKind::CalibrationLoop,
                                        occurrences: n as u64,
                                        first_seen: lo,
                                        last_seen: hi,
                                        confidence_milli: 800,
                                        related_events: ids,
                                    },
                                )
                            } else {
                                None
                            }
                        },
                    };
                    match p {
                        Some(p) => {
                            res.push(p);
                            assert(learned_views(res@) =~= grouped_upto(events@, by_description, i as int).push(
                                p@,
                            ));
                        },
                        None => {},
                    }
                } else {
                    proof {
                        assert(!first_of_group(events@, k, i as int));
                    }
                }
            },
            None => {},
        }
        i = i + 1;
    }
    res
}

/// Anomalies among events `lo..hi`.
fn count_anomalies(events: &[TimelineEvent], lo: usize, hi: usize) -> (n: usize)
    requires
        lo <= hi <= events@.len(),
    ensures
        n == anomalies_in(events@, lo as int, hi as int),
{
    let mut n: usize = 0;
    let mut j: usize = lo;
    while j < hi
        invariant
            lo <= j <= hi,
            hi <= events@.len(),
            n == anomalies_in(events@, lo as int, j as int),
            n <= j - lo,
        decreases hi - j,
    {
        match &events[j].kind {
            TimelineEventKind::Anomaly(_) => {
                n = n + 1;
            },
            _ => {},
        }
        j = j + 1;
    }
    n
}

fn detect_config_regressions(events: &[TimelineEvent]) -> (r: Vec<LearnedPattern>)
    ensures
        learned_views(r@) == regressions_upto(events@, events@.len() as int),
{
    let mut res: Vec<LearnedPattern> = Vec::new();
    let mut i: usize = 0;
    while i < events.len()
        invariant
            i <= events@.len(),
            learned_views(res@) == regressions_upto(events@, i as int),
        decreases events@.len() - i,
    {
        match &events[i].kind {
            TimelineEventKind::Configuration(_) => {
                let hi = if events.len() - (i + 1) > REGRESSION_WINDOW {
                    i + 1 + REGRESSION_WINDOW
                } else {
                    events.len()
                };
                let failures = count_anomalies(events, i + 1, hi);
                if failures >= REGRESSION_MIN {
                    let mut ids: Vec<String> = Vec::new();
                    ids.push(events[i].id.clone());
                    let p = LearnedPattern {
                        description: String::from_str("Config change followed by failures"),
                        kind: PatternKind::ConfigRegression,
                        occurrences: 1,
                        first_seen: events[i].timestamp,
                        last_seen: events[i].timestamp,
                        confidence_milli: 700,
                        related_events: ids,
                    };
                    res.push(p);
                    assert(texts(p.related_events@) =~= seq![events@[i as int].id@]);
                    assert(learned_views(res@) =~= regressions_upto(events@, i as int).push(
                        regression_pattern(events@[i as int]),
                    ));
                }
            },
            _ => {},
        }
        i = i + 1;
    }
    res
}

fn cluster_of(events: &[TimelineEvent], start: usize, end: usize) -> (p: LearnedPattern)
    requires
        start < end <= events@.len(),
    ensures
        p@ == cluster_pattern(events@, start as int, end as int),
{
    proof {
        reveal_strlit("Event cluster: ");
        reveal_strlit(" events in short window");
    }
    let mut ids: Vec<String> = Vec::new();
    let mut j: usize = start;
    while j < end
        invariant
            start <= j <= end,
            end <= events@.len(),
            ids@.len() == j - start,
            forall|m: int| 0 <= m < j - start ==> (#[trigger] ids@[m])@ == events@[start + m].id@,
        decreases end - j,
    {
        ids.push(events[j].id.clone());
        j = j + 1;
    }
    let size = end - start;
    assert(texts(ids@) =~= Seq::new((end - start) as nat, |m: int| events@[start + m].id@));
    LearnedPattern {
        description: String::from_str("Event cluster: ").concat(crate::text::u64_to_decimal(size as u64).as_str()).concat(
            " events in short window",
        ),
        kind: PatternKind::EventCluster,
        occurrences: size as u64,
        first_seen: events[start].timestamp,
        last_seen: events[end - 1].timestamp,
        confidence_milli: 600,
        related_events: ids,
    }
}

fn detect_event_clusters(events: &[TimelineEvent]) -> (r: Vec<LearnedPattern>)
    ensures
        learned_views(r@) == clusters(events@),
{
    let mut res: Vec<LearnedPattern> = Vec::new();
    if events.len() < 3 {
        assert(learned_views(res@) =~= Seq::<LearnedPatternView>::empty());
        return res;
    }
    let mut start: usize = 0;
    let mut i: usize = 1;
    assert(learned_views(res@) =~= Seq::<LearnedPatternView>::empty());
    while i < events.len()
        invariant
            1 <= i <= events@.len(),
            start < i,
            events@.len() >= 3,
            learned_views(res@) + clusters_from(events@, i as int, start as int) == clusters_from(events@, 1, 0),
        decreases events@.len() - i,
    {
        let gap: i128 = events[i].timestamp as i128 - events[i - 1].timestamp as i128;
        if gap > CLUSTER_GAP_MS as i128 {
            if i - start >= CLUSTER_MIN {
                let p = cluster_of(events, start, i);
                let ghost before = learned_views(res@);
                res.push(p);
                assert(learned_views(res@) =~= before.push(p@));
                assert(before + clusters_from(events@, i as int, start as int) =~= learned_views(res@)
                    + clusters_from(events@, i + 1, i as int));
            } else {
                assert(clusters_from(events@, i as int, start as int) =~= clusters_from(events@, i + 1, i as int));
            }
            start = i;
        }
        i = i + 1;
    }
    let n = events.len();
    if n - start >= CLUSTER_MIN {
        let p = cluster_of(events, start, n);
        let ghost before = learned_views(res@);
        res.push(p);
        assert(learned_views(res@) =~= before + clusters_from(events@, i as int, start as int));
    } else {
        assert(learned_views(res@) =~= learned_views(res@) + clusters_from(events@, i as int, start as int));
    }
    res
}

/// Detects every pattern in a timeline.
pub struct PatternDetector;

impl PatternDetector {
    /// All patterns in the events: recurring failures (an anomaly
    /// description seen at least 3 times), configuration regressions
    /// (a configuration change with at least 2 anomalies among the 5
    /// events after it), calibration loops (one kind of calibration at
    /// least 3 times within 24 hours) and event clusters
    /// (at least 3 events each within 10 minutes of the one before).
    pub fn detect(events: &[TimelineEvent]) -> (r: Vec<LearnedPattern>)
        ensures
            learned_views(r@) == all_patterns(events@),
    {
        let mut res = detect_groups(events, true);
        let mut b = detect_config_regressions(events);
        let mut c = detect_groups(events, false);
        let mut d = detect_event_clusters(events);
        let ghost va = learned_views(res@);
        let ghost vb = learned_views(b@);
        let ghost vc = learned_views(c@);
        let ghost vd = learned_views(d@);
        let ghost ra = res@;
        let ghost rb = b@;
        let ghost rc = c@;
        let ghost rd = d@;
        res.append(&mut b);
        res.append(&mut c);
        res.append(&mut d);
        assert(res@ == ra + rb + rc + rd);
        assert(learned_views(ra + rb + rc + rd) =~= va + vb + vc + vd);
        res
    }
}

// ── Laws ───────────────────────────────────────────────────────────

proof fn lemma_group_ids_len(ev: Seq<TimelineEvent>, k: GroupKey, n: int)
    ensures
        group_ids(ev, k, n).len() <= if n < 0 { 0 } else { n },
    decreases n,
{
    if n > 0 {
        lemma_group_ids_len(ev, k, n - 1);
    }
}

/// Whether a pattern counts at least three events.
pub open spec fn three_or_more(p: LearnedPatternView) -> bool {
    p.occurrences >= 3
}

proof fn lemma_grouped_three(ev: Seq<TimelineEvent>, by_description: bool, n: int)
    requires
        ev.len() <= u64::MAX,
        n <= ev.len(),
    ensures
        forall|i: int|
            0 <= i < grouped_upto(ev, by_description, n).len() ==> three_or_more(
                #[trigger] grouped_upto(ev, by_description, n)[i],
            ),
    decreases n,
{
    if n > 0 {
        lemma_grouped_three(ev, by_description, n - 1);
        let rest = grouped_upto(ev, by_description, n - 1);
        match key_of(ev[n - 1], by_description) {
            Some(k) => {
                lemma_group_ids_len(ev, k, ev.len() as int);
                if first_of_group(ev, k, n - 1) {
                    match group_pattern(ev, k) {
                        Some(p) => {
                            assert(three_or_more(p));
                            assert forall|i: int| 0 <= i < rest.push(p).len() implies three_or_more(
                                #[trigger] rest.push(p)[i],
                            ) by {
                                if i < rest.len() {
                                    assert(rest.push(p)[i] == rest[i]);
                                }
                            }
                        },
                        None => {},
                    }
                }
            },
            None => {},
        }
    }
}

proof fn lemma_regressions_kind(ev: Seq<TimelineEvent>, n: int)
    ensures
        forall|i: int|
            0 <= i < regressions_upto(ev, n).len() ==> (#[trigger] regressions_upto(ev, n)[i]).kind
                == PatternKind::ConfigRegression,
    decreases n,
{
    if n > 0 {
        lemma_regressions_kind(ev, n - 1);
        let rest = regressions_upto(ev, n - 1);
        assert forall|i: int| 0 <= i < rest.push(regression_pattern(ev[n - 1])).len() implies (#[trigger] rest.push(
            regression_pattern(ev[n - 1]),
        )[i]).kind == PatternKind::ConfigRegression by {
            if i < rest.len() {
                assert(rest.push(regression_pattern(ev[n - 1]))[i] == rest[i]);
            }
        }
    }
}

proof fn lemma_cluster_if_big_three(ev: Seq<TimelineEvent>, start: int, end: int)
    requires
        ev.len() <= u64::MAX,
        0 <= start,
        end <= ev.len(),
    ensures
        forall|j: int| 0 <= j < cluster_if_big(ev, start, end).len() ==> three_or_more(
            #[trigger] cluster_if_big(ev, start, end)[j],
        ),
{
    if end - start >= CLUSTER_MIN {
        assert(cluster_pattern(ev, start, end).occurrences == (end - start) as u64);
        assert(three_or_more(cluster_if_big(ev, start, end)[0]));
    }
}

proof fn lemma_clusters_three(ev: Seq<TimelineEvent>, i: int, start: int)
    requires
        ev.len() <= u64::MAX,
        0 <= start,
    ensures
        forall|j: int|
            0 <= j < clusters_from(ev, i, start).len() ==> three_or_more(#[trigger] clusters_from(ev, i, start)[j]),
    decreases ev.len() - i,
{
    if i >= ev.len() {
        lemma_cluster_if_big_three(ev, start, ev.len() as int);
    } else if i < 1 {
        assert(clusters_from(ev, i, start).len() == 0);
    } else if closes_at(ev, i) {
        lemma_clusters_three(ev, i + 1, i);
        lemma_cluster_if_big_three(ev, start, i);
        let here = cluster_if_big(ev, start, i);
        let rest = clusters_from(ev, i + 1, i);
        assert(clusters_from(ev, i, start) == here + rest);
        assert forall|j: int| 0 <= j < (here + rest).len() implies three_or_more(#[trigger] (here + rest)[j]) by {
            if j < here.len() {
                assert((here + rest)[j] == here[j]);
            } else {
                assert((here + rest)[j] == rest[j - here.len()]);
            }
        }
    } else {
        lemma_clusters_three(ev, i + 1, start);
        assert(clusters_from(ev, i, start) == clusters_from(ev, i + 1, start));
    }
}

/// Every recurring failure, calibration loop and event cluster found is
/// made of at least three events; only configuration regressions stand
/// on fewer.
pub proof fn lemma_patterns_have_three_events(ev: Seq<TimelineEvent>)
    requires
        ev.len() <= u64::MAX,
    ensures
        forall|i: int|
            0 <= i < all_patterns(ev).len() && (#[trigger] all_patterns(ev)[i]).kind != PatternKind::ConfigRegression
                ==> all_patterns(ev)[i].occurrences >= 3,
{
    let n = ev.len() as int;
    let a = grouped_upto(ev, true, n);
    let b = regressions_upto(ev, n);
    let c = grouped_upto(ev, false, n);
    let d = clusters(ev);
    lemma_grouped_three(ev, true, n);
    lemma_regressions_kind(ev, n);
    lemma_grouped_three(ev, false, n);
    if ev.len() >= 3 {
        lemma_clusters_three(ev, 1, 0);
    }
    assert forall|i: int|
        0 <= i < all_patterns(ev).len() && (#[trigger] all_patterns(ev)[i]).kind != PatternKind::ConfigRegression
            implies all_patterns(ev)[i].occurrences >= 3 by {
        let all = a + b + c + d;
        assert(all_patterns(ev) == all);
        if i < a.len() {
            assert(all[i] == a[i]);
            assert(three_or_more(a[i]));
        } else if i < a.len() + b.len() {
            assert(all[i] == b[i - a.len()]);
        } else if i < a.len() + b.len() + c.len() {
            assert(all[i] == c[i - a.len() - b.len()]);
            assert(three_or_more(c[i - a.len() - b.len()]));
        } else {
            assert(all[i] == d[i - a.len() - b.len() - c.len()]);
            assert(three_or_more(d[i - a.len() - b.len() - c.len()]));
        }
    }
}

proof fn lemma_anomalies_bound(ev: Seq<TimelineEvent>, lo: int, hi: int)
    ensures
        anomalies_in(ev, lo, hi) <= if hi <= lo { 0 } else { hi - lo },
    decreases hi - lo,
{
    if hi > lo {
        lemma_anomalies_bound(ev, lo, hi - 1);
    }
}

proof fn lemma_grouped_empty(ev: Seq<TimelineEvent>, by_description: bool, n: int)
    requires
        ev.len() < 3,
    ensures
        grouped_upto(ev, by_description, n).len() == 0,
    decreases n,
{
    if n > 0 {
        lemma_grouped_empty(ev, by_description, n - 1);
        match key_of(ev[n - 1], by_description) {
            Some(k) => {
                lemma_group_ids_len(ev, k, ev.len() as int);
                assert(group_pattern(ev, k) is None);
            },
            None => {},
        }
    }
}

proof fn lemma_regressions_empty(ev: Seq<TimelineEvent>, n: int)
    requires
        ev.len() < 3,
        n <= ev.len(),
    ensures
        regressions_upto(ev, n).len() == 0,
    decreases n,
{
    if n > 0 {
        lemma_regressions_empty(ev, n - 1);
        let i = n - 1;
        let hi = if i + 1 + REGRESSION_WINDOW < ev.len() { i + 1 + REGRESSION_WINDOW } else { ev.len() as int };
        lemma_anomalies_bound(ev, i + 1, hi);
    }
}

/// Fewer than three events show no pattern.
pub proof fn lemma_few_events_no_patterns(ev: Seq<TimelineEvent>)
    requires
        ev.len() < 3,
    ensures
        all_patterns(ev).len() == 0,
{
    lemma_grouped_empty(ev, true, ev.len() as int);
    lemma_regressions_empty(ev, ev.len() as int);
    lemma_grouped_empty(ev, false, ev.len() as int);
}

} // verus!
