//! Calibration history: how often each calibration ran, the average
//! interval between calibrations, and which are overdue.

use vstd::prelude::*;
use vstd::string::*;

use crate::learning::{
    action_name, action_name_text, event_is_calibration, is_calibration, is_calibration_action,
    CalibrationSummary, MS_PER_DAY,
};
use crate::patterns::{group_ids, group_max, in_group, GroupKey};
use crate::text::round_div;
use crate::timeline::{ConfigAction, TimelineEvent, TimelineEventKind};

verus! {

/// The calibration kinds, in the order they are considered.
pub open spec fn kind_at(k: int) -> ConfigAction {
    if k == 0 {
        ConfigAction::PidTuned
    } else if k == 1 {
        ConfigAction::InputShaperCalibrated
    } else if k == 2 {
        ConfigAction::BedMeshGenerated
    } else if k == 3 {
        ConfigAction::ProbeCalibrated
    } else {
        ConfigAction::PressureAdvanceTuned
    }
}

/// The position of a calibration kind in that order (5 for other
/// actions).
pub open spec fn kind_rank(a: ConfigAction) -> int {
    match a {
        ConfigAction::PidTuned => 0,
        ConfigAction::InputShaperCalibrated => 1,
        ConfigAction::BedMeshGenerated => 2,
        ConfigAction::ProbeCalibrated => 3,
        ConfigAction::PressureAdvanceTuned => 4,
        _ => 5,
    }
}

/// The position of a calibration kind's name in the kind order (5 for
/// any other name).
pub open spec fn name_rank(n: Seq<char>) -> int {
    if n == "PidTuned"@ {
        0
    } else if n == "InputShaperCalibrated"@ {
        1
    } else if n == "BedMeshGenerated"@ {
        2
    } else if n == "ProbeCalibrated"@ {
        3
    } else if n == "PressureAdvanceTuned"@ {
        4
    } else {
        5
    }
}

/// How often calibration `a` ran.
#[verifier::opaque]
pub open spec fn kind_count(ev: Seq<TimelineEvent>, a: ConfigAction) -> nat {
    group_ids(ev, GroupKey::Calibration(a), ev.len() as int).len()
}

/// When calibration `a` last ran.
#[verifier::opaque]
pub open spec fn kind_latest(ev: Seq<TimelineEvent>, a: ConfigAction) -> i64 {
    group_max(ev, GroupKey::Calibration(a), ev.len() as int)->0
}

/// The number of calibrations among the first `n` events.
pub open spec fn calibration_count(ev: Seq<TimelineEvent>, n: int) -> nat
    decreases n,
{
    if n <= 0 {
        0
    } else {
        calibration_count(ev, n - 1) + if is_calibration(ev[n - 1]) { 1nat } else { 0nat }
    }
}

/// The earliest calibration time among the first `n` events.
pub open spec fn calibration_min(ev: Seq<TimelineEvent>, n: int) -> Option<i64>
    decreases n,
{
    if n <= 0 {
        None
    } else if is_calibration(ev[n - 1]) {
        let t = ev[n - 1].timestamp;
        match calibration_min(ev, n - 1) {
            Some(m) => Some(if t < m { t } else { m }),
            None => Some(t),
        }
    } else {
        calibration_min(ev, n - 1)
    }
}

/// The latest calibration time among the first `n` events.
pub open spec fn calibration_max(ev: Seq<TimelineEvent>, n: int) -> Option<i64>
    decreases n,
{
    if n <= 0 {
        None
    } else if is_calibration(ev[n - 1]) {
        let t = ev[n - 1].timestamp;
        match calibration_max(ev, n - 1) {
            Some(m) => Some(if t > m { t } else { m }),
            None => Some(t),
        }
    } else {
        calibration_max(ev, n - 1)
    }
}

/// Whole days from `a` to `b`, truncated toward zero.
pub open spec fn whole_days(a: int, b: int) -> int {
    let d = b - a;
    if d >= 0 { d / (MS_PER_DAY as int) } else { -((-d) / (MS_PER_DAY as int)) }
}

/// Whether calibration `a` is overdue at `now`: more than twice the
/// average interval (`span_days / (total - 1)`) has passed since it
/// last ran.
pub open spec fn is_overdue(ev: Seq<TimelineEvent>, a: ConfigAction, now: i64, span_days: int, total: nat) -> bool {
    &&& kind_count(ev, a) >= 1
    &&& total > 1
    &&& whole_days(kind_latest(ev, a) as int, now as int) * (total - 1) > 2 * span_days
}

/// The overdue calibration kinds among the first `k` kinds.
pub open spec fn overdue_upto(ev: Seq<TimelineEvent>, now: i64, span_days: int, total: nat, k: int) -> Seq<Seq<char>>
    decreases k,
{
    if k <= 0 {
        Seq::empty()
    } else {
        let a = kind_at(k - 1);
        let rest = overdue_upto(ev, now, span_days, total, k - 1);
        if is_overdue(ev, a, now, span_days, total) {
            rest.push(action_name(a))
        } else {
            rest
        }
    }
}

/// An entry naming a calibration kind that ran, with its count.
pub open spec fn counts_a_kind(ev: Seq<TimelineEvent>, x: (String, u64)) -> bool {
    exists|a: ConfigAction|
        is_calibration_action(a) && x.0@ == action_name(a) && x.1 == kind_count(ev, a) && kind_count(ev, a) >= 1
}

/// Whether a record is a configuration change with this action.
pub open spec fn has_action(e: TimelineEvent, a: ConfigAction) -> bool {
    e.kind matches TimelineEventKind::Configuration(c) && c.action == a
}

/// Whether record `i` is the latest with this action (and the last of
/// equally late ones).
pub open spec fn latest_of(ev: Seq<TimelineEvent>, a: ConfigAction, i: int) -> bool {
    forall|j: int|
        0 <= j < ev.len() && has_action(#[trigger] ev[j], a) ==> ev[j].timestamp < ev[i].timestamp || (
        ev[j].timestamp == ev[i].timestamp && j <= i)
}

/// What a calibration summary at `now` says.
pub open spec fn summarizes(ev: Seq<TimelineEvent>, now: i64, s: CalibrationSummary) -> bool {
    let total = calibration_count(ev, ev.len() as int);
    let first = calibration_min(ev, ev.len() as int)->0;
    let last = calibration_max(ev, ev.len() as int)->0;
    let span_days = (last - first) / (MS_PER_DAY as int);
    let by_type = s.by_type@;
    &&& s.total_calibrations == total
    &&& s.avg_interval_days_milli == if total > 1 {
        Some(round_div(1000 * span_days, total - 1) as i64)
    } else {
        None
    }
    &&& s.last_calibration == Some(last)
    // each kind that ran appears once, with its count, most frequent first
    &&& forall|i: int, j: int| 0 <= i < j < by_type.len() ==> #[trigger] by_type[i].1 >= #[trigger] by_type[j].1
    &&& forall|i: int| 0 <= i < by_type.len() ==> counts_a_kind(ev, #[trigger] by_type[i])
    &&& forall|a: ConfigAction|
        is_calibration_action(a) && kind_count(ev, a) >= 1 ==> exists|i: int|
            0 <= i < by_type.len() && (#[trigger] by_type[i]).0@ == action_name(a)
    &&& forall|i: int, j: int| 0 <= i < j < by_type.len() ==> (#[trigger] by_type[i]).0@ != (#[trigger] by_type[j]).0@
    // kinds that ran equally often keep the kind order
    &&& forall|i: int, j: int|
        0 <= i < j < by_type.len() && (#[trigger] by_type[i]).1 == (#[trigger] by_type[j]).1 ==> name_rank(by_type[i].0@)
            < name_rank(by_type[j].0@)
    &&& match s.most_frequent {
        Some(m) => by_type.len() > 0 && m@ == by_type[0].0@,
        None => by_type.len() == 0,
    }
    &&& crate::observation::texts(s.overdue@) == overdue_upto(ev, now, span_days, total, 5)
}

/// A calibration kind's name sits at the kind's own position.
proof fn lemma_name_rank(a: ConfigAction)
    requires
        is_calibration_action(a),
    ensures
        name_rank(action_name(a)) == kind_rank(a),
{
    reveal_strlit("PidTuned");
    reveal_strlit("InputShaperCalibrated");
    reveal_strlit("BedMeshGenerated");
    reveal_strlit("ProbeCalibrated");
    reveal_strlit("PressureAdvanceTuned");
    if a != ConfigAction::PidTuned {
        lemma_names_differ(a, ConfigAction::PidTuned);
    }
    if a != ConfigAction::InputShaperCalibrated {
        lemma_names_differ(a, ConfigAction::InputShaperCalibrated);
    }
    if a != ConfigAction::BedMeshGenerated {
        lemma_names_differ(a, ConfigAction::BedMeshGenerated);
    }
    if a != ConfigAction::ProbeCalibrated {
        lemma_names_differ(a, ConfigAction::ProbeCalibrated);
    }
}

/// Different calibration kinds have different names.
proof fn lemma_names_differ(a: ConfigAction, b: ConfigAction)
    requires
        a != b,
    ensures
        action_name(a) != action_name(b),
{
    reveal_strlit("Changed");
    reveal_strlit("Reloaded");
    reveal_strlit("PidTuned");
    reveal_strlit("InputShaperCalibrated");
    reveal_strlit("BedMeshGenerated");
    reveal_strlit("ProbeCalibrated");
    reveal_strlit("PressureAdvanceTuned");
    if action_name(a) == action_name(b) {
        assert(action_name(a).len() == action_name(b).len());
        assert(action_name(a)[0] == action_name(b)[0]);
        assert(action_name(a)[1] == action_name(b)[1]);
    }
}

fn kinds() -> (v: Vec<ConfigAction>)
    ensures
        v@.len() == 5,
        forall|k: int| 0 <= k < 5 ==> #[trigger] v@[k] == kind_at(k),
{
    let mut v: Vec<ConfigAction> = Vec::new();
    v.push(ConfigAction::PidTuned);
    v.push(ConfigAction::InputShaperCalibrated);
    v.push(ConfigAction::BedMeshGenerated);
    v.push(ConfigAction::ProbeCalibrated);
    v.push(ConfigAction::PressureAdvanceTuned);
    v
}

/// Counts of the calibrations, with the earliest and latest time.
fn calibration_stats(events: &[TimelineEvent]) -> (r: (u64, i64, i64))
    ensures
        r.0 == calibration_count(events@, events@.len() as int),
        r.0 > 0 ==> calibration_min(events@, events@.len() as int) == Some(r.1) && calibration_max(
            events@,
            events@.len() as int,
        ) == Some(r.2),
{
    let mut n: u64 = 0;
    let mut lo: i64 = 0;
    let mut hi: i64 = 0;
    let mut i: usize = 0;
    while i < events.len()
        invariant
            i <= events@.len(),
            n == calibration_count(events@, i as int),
            n <= i,
            n > 0 ==> calibration_min(events@, i as int) == Some(lo) && calibration_max(events@, i as int) == Some(hi),
            n == 0 ==> calibration_min(events@, i as int) is None && calibration_max(events@, i as int) is None,
        decreases events@.len() - i,
    {
        if event_is_calibration(&events[i]) {
            let t = events[i].timestamp;
            if n == 0 {
                lo = t;
                hi = t;
            } else {
                if t < lo {
                    lo = t;
                }
                if t > hi {
                    hi = t;
                }
            }
            n = n + 1;
        }
        i = i + 1;
    }
    (n, lo, hi)
}

/// How often calibration `a` ran and when it last did.
fn kind_stats(events: &[TimelineEvent], a: ConfigAction) -> (r: (u64, i64))
    ensures
        r.0 == kind_count(events@, a),
        r.0 > 0 ==> r.1 == kind_latest(events@, a),
{
    proof {
        reveal(kind_count);
        reveal(kind_latest);
    }
    let k = GroupKey::Calibration(a);
    let mut n: u64 = 0;
    let mut hi: i64 = 0;
    let mut i: usize = 0;
    while i < events.len()
        invariant
            i <= events@.len(),
            k == GroupKey::Calibration(a),
            n == group_ids(events@, k, i as int).len(),
            n <= i,
            n > 0 ==> group_max(events@, k, i as int) == Some(hi),
            n == 0 ==> group_max(events@, k, i as int) is None,
        decreases events@.len() - i,
    {
        let is_kind = match &events[i].kind {
            TimelineEventKind::Configuration(c) => event_is_calibration(&events[i]) && c.action == a,
            _ => false,
        };
        assert(is_kind == in_group(k, events@[i as int]));
        if is_kind {
            let t = events[i].timestamp;
            if n == 0 || t > hi {
                hi = t;
            }
            n = n + 1;
        }
        i = i + 1;
    }
    (n, hi)
}

/// Inserts `(a, c)` after every entry with a count of at least `c`.
fn insert_by_count(v: &mut Vec<(ConfigAction, u64)>, a: ConfigAction, c: u64)
    requires
        forall|i: int, j: int| 0 <= i < j < old(v)@.len() ==> #[trigger] old(v)@[i].1 >= #[trigger] old(v)@[j].1,
    ensures
        forall|i: int, j: int| 0 <= i < j < final(v)@.len() ==> #[trigger] final(v)@[i].1 >= #[trigger] final(v)@[j].1,
        exists|p: int|
            0 <= p <= old(v)@.len() && final(v)@ == old(v)@.insert(p, (a, c)) && (forall|i: int|
                0 <= i < p ==> (#[trigger] old(v)@[i]).1 >= c) && (forall|i: int|
                p <= i < old(v)@.len() ==> (#[trigger] old(v)@[i]).1 < c),
{
    let mut p: usize = 0;
    while p < v.len() && v[p].1 >= c
        invariant
            p <= v@.len(),
            v@ == old(v)@,
            forall|i: int| 0 <= i < p ==> (#[trigger] v@[i]).1 >= c,
        decreases v@.len() - p,
    {
        p = p + 1;
    }
    let ghost before = v@;
    assert forall|i: int| p <= i < before.len() implies (#[trigger] before[i]).1 < c by {
        if p < before.len() {
            assert(before[p as int].1 < c);
            if i > p {
                assert(before[p as int].1 >= before[i].1);
            }
        }
    }
    v.insert(p, (a, c));
    assert(v@ == before.insert(p as int, (a, c)));
    assert forall|i: int, j: int| 0 <= i < j < v@.len() implies #[trigger] v@[i].1 >= #[trigger] v@[j].1 by {
        if i < p && j < p {
            assert(before[i].1 >= before[j].1);
        } else if i < p && j > p {
            assert(before[i].1 >= before[j - 1].1);
        } else if i > p {
            assert(before[i - 1].1 >= before[j - 1].1);
        } else if i == p && j > p && (j - 1) < before.len() {
            assert(before[j - 1].1 < c || j - 1 >= p);
            if p < before.len() {
                assert(before[p as int].1 < c);
                assert(before[p as int].1 >= before[j - 1].1);
            }
        }
    }
}

/// The ranking of the kinds before position `k` is right: most
/// frequent first, each kind that ran once, with its count.
pub open spec fn rank_ok(ev: Seq<TimelineEvent>, k: int, r: Seq<(ConfigAction, u64)>) -> bool {
    &&& forall|i: int, j: int| 0 <= i < j < r.len() ==> #[trigger] r[i].1 >= #[trigger] r[j].1
    &&& forall|i: int|
        0 <= i < r.len() ==> kind_rank((#[trigger] r[i]).0) < k && r[i].1 == kind_count(ev, r[i].0) && kind_count(
            ev,
            r[i].0,
        ) >= 1
    &&& forall|a: ConfigAction|
        kind_rank(a) < k && #[trigger] kind_count(ev, a) >= 1 ==> exists|i: int| 0 <= i < r.len() && r[i].0 == a
    &&& forall|i: int, j: int| 0 <= i < j < r.len() ==> (#[trigger] r[i]).0 != (#[trigger] r[j]).0
    &&& forall|i: int, j: int|
        0 <= i < j < r.len() && (#[trigger] r[i]).1 == (#[trigger] r[j]).1 ==> kind_rank(r[i].0) < kind_rank(r[j].0)
}

proof fn lemma_rank_skip(ev: Seq<TimelineEvent>, k: int, r: Seq<(ConfigAction, u64)>)
    requires
        0 <= k < 5,
        rank_ok(ev, k, r),
        kind_count(ev, kind_at(k)) == 0,
    ensures
        rank_ok(ev, k + 1, r),
{
    assert forall|a: ConfigAction| kind_rank(a) < k + 1 && #[trigger] kind_count(ev, a) >= 1 implies exists|i: int|
        0 <= i < r.len() && r[i].0 == a by {
        if kind_rank(a) == k {
            assert(a == kind_at(k));
        }
    }
}

#[verifier::spinoff_prover]
proof fn lemma_rank_insert(ev: Seq<TimelineEvent>, k: int, before: Seq<(ConfigAction, u64)>, after: Seq<(ConfigAction, u64)>, p: int)
    requires
        0 <= k < 5,
        rank_ok(ev, k, before),
        kind_count(ev, kind_at(k)) >= 1,
        kind_count(ev, kind_at(k)) <= u64::MAX,
        0 <= p <= before.len(),
        after == before.insert(p, (kind_at(k), kind_count(ev, kind_at(k)) as u64)),
        forall|i: int, j: int| 0 <= i < j < after.len() ==> #[trigger] after[i].1 >= #[trigger] after[j].1,
        forall|i: int| 0 <= i < p ==> (#[trigger] before[i]).1 >= kind_count(ev, kind_at(k)),
        forall|i: int| p <= i < before.len() ==> (#[trigger] before[i]).1 < kind_count(ev, kind_at(k)),
    ensures
        rank_ok(ev, k + 1, after),
{
    let a = kind_at(k);
    assert(kind_rank(a) == k);
    assert forall|i: int, j: int|
        0 <= i < j < after.len() && (#[trigger] after[i]).1 == (#[trigger] after[j]).1 implies kind_rank(after[i].0)
            < kind_rank(after[j].0) by {
        if i < p && j < p {
            assert(after[i] == before[i] && after[j] == before[j]);
        } else if i < p && j == p {
            assert(after[i] == before[i]);
            assert(kind_rank(before[i].0) < k);
        } else if i < p && j > p {
            assert(after[i] == before[i] && after[j] == before[j - 1]);
            assert(before[j - 1].1 < kind_count(ev, kind_at(k)));
            assert(before[i].1 >= kind_count(ev, kind_at(k)));
        } else if i == p {
            assert(after[j] == before[j - 1]);
            assert(before[j - 1].1 < kind_count(ev, kind_at(k)));
        } else {
            assert(after[i] == before[i - 1] && after[j] == before[j - 1]);
        }
    }
    assert forall|i: int| 0 <= i < after.len() implies kind_rank((#[trigger] after[i]).0) < k + 1 && after[i].1
        == kind_count(ev, after[i].0) && kind_count(ev, after[i].0) >= 1 by {
        if i < p {
            assert(after[i] == before[i]);
        } else if i > p {
            assert(after[i] == before[i - 1]);
        } else {
            assert(after[i] == (kind_at(k), kind_count(ev, kind_at(k)) as u64));
        }
    }
    assert forall|b: ConfigAction| kind_rank(b) < k + 1 && #[trigger] kind_count(ev, b) >= 1 implies exists|i: int|
        0 <= i < after.len() && after[i].0 == b by {
        if kind_rank(b) == k {
            assert(b == a);
            assert(after[p].0 == b);
        } else {
            let i0 = choose|i: int| 0 <= i < before.len() && before[i].0 == b;
            if i0 < p {
                assert(after[i0] == before[i0]);
            } else {
                assert(after[i0 + 1] == before[i0]);
            }
        }
    }
    assert forall|m: int| 0 <= m < before.len() implies (#[trigger] before[m]).0 != a by {
        assert(kind_rank(before[m].0) < k);
    }
    assert forall|i: int, j: int| 0 <= i < j < after.len() implies (#[trigger] after[i]).0 != (#[trigger] after[j]).0 by {
        if i < p && j < p {
            assert(before[i].0 != before[j].0);
        } else if i < p && j > p {
            assert(after[j] == before[j - 1]);
            assert(before[i].0 != before[j - 1].0);
        } else if i > p {
            assert(before[i - 1].0 != before[j - 1].0);
        } else if i == p {
            assert(after[j] == before[j - 1]);
        } else {
            assert(after[i] == before[i]);
        }
    }
}

/// The kinds that ran, most frequent first, with each kind's count and
/// latest time.
fn rank_kinds(events: &[TimelineEvent]) -> (r: (Vec<(ConfigAction, u64)>, Vec<u64>, Vec<i64>))
    ensures
        rank_ok(events@, 5, r.0@),
        r.1@.len() == 5,
        r.2@.len() == 5,
        forall|j: int| 0 <= j < 5 ==> #[trigger] r.1@[j] == kind_count(events@, kind_at(j)),
        forall|j: int|
            0 <= j < 5 && kind_count(events@, kind_at(j)) >= 1 ==> #[trigger] r.2@[j] == kind_latest(events@, kind_at(j)),
{
    let all_kinds = kinds();
    let mut ranked: Vec<(ConfigAction, u64)> = Vec::new();
    let mut latest: Vec<i64> = Vec::new();
    let mut counts: Vec<u64> = Vec::new();
    let mut k: usize = 0;
    while k < all_kinds.len()
        invariant
            k <= all_kinds@.len(),
            all_kinds@.len() == 5,
            forall|j: int| 0 <= j < 5 ==> #[trigger] all_kinds@[j] == kind_at(j),
            latest@.len() == k,
            counts@.len() == k,
            forall|j: int| 0 <= j < k ==> #[trigger] counts@[j] == kind_count(events@, all_kinds@[j]),
            forall|j: int|
                0 <= j < k && kind_count(events@, all_kinds@[j]) >= 1 ==> #[trigger] latest@[j] == kind_latest(
                    events@,
                    all_kinds@[j],
                ),
            rank_ok(events@, k as int, ranked@),
        decreases all_kinds@.len() - k,
    {
        let a = all_kinds[k];
        let (n, hi) = kind_stats(events, a);
        latest.push(hi);
        counts.push(n);
        if n > 0 {
            let ghost before = ranked@;
            insert_by_count(&mut ranked, a, n);
            proof {
                assert(a == kind_at(k as int));
                let p = choose|p: int|
                    0 <= p <= before.len() && ranked@ == before.insert(p, (a, n)) && (forall|i: int|
                        0 <= i < p ==> (#[trigger] before[i]).1 >= n) && (forall|i: int|
                        p <= i < before.len() ==> (#[trigger] before[i]).1 < n);
                lemma_rank_insert(events@, k as int, before, ranked@, p);
            }
        } else {
            proof {
                assert(all_kinds@[k as int] == kind_at(k as int));
                lemma_rank_skip(events@, k as int, ranked@);
            }
        }
        k = k + 1;
    }
    (ranked, counts, latest)
}

/// The names of the ranked kinds, with their counts.
fn ranked_names(ranked: &Vec<(ConfigAction, u64)>) -> (by_type: Vec<(String, u64)>)
    ensures
        by_type@.len() == ranked@.len(),
        forall|m: int|
            0 <= m < ranked@.len() ==> (#[trigger] by_type@[m]).0@ == action_name(ranked@[m].0) && by_type@[m].1
                == ranked@[m].1,
{
    let mut by_type: Vec<(String, u64)> = Vec::new();
    let mut i: usize = 0;
    while i < ranked.len()
        invariant
            i <= ranked@.len(),
            by_type@.len() == i,
            forall|m: int| 0 <= m < i ==> (#[trigger] by_type@[m]).0@ == action_name(ranked@[m].0) && by_type@[m].1 == ranked@[m].1,
        decreases ranked@.len() - i,
    {
        let (a, c) = ranked[i];
        by_type.push((action_name_text(a), c));
        i = i + 1;
    }
    by_type
}

/// The overdue kinds, in the order of the kinds.
fn overdue_kinds(events: &[TimelineEvent], now: i64, span_days: i128, total: u64, counts: &Vec<u64>, latest: &Vec<i64>) -> (overdue: Vec<String>)
    requires
        0 <= span_days < 0x1_0000_0000_0000_0000,
        1 <= total,
        counts@.len() == 5,
        latest@.len() == 5,
        forall|j: int| 0 <= j < 5 ==> #[trigger] counts@[j] == kind_count(events@, kind_at(j)),
        forall|j: int|
            0 <= j < 5 && kind_count(events@, kind_at(j)) >= 1 ==> #[trigger] latest@[j] == kind_latest(events@, kind_at(j)),
    ensures
        crate::observation::texts(overdue@) == overdue_upto(events@, now, span_days as int, total as nat, 5),
{
    let all_kinds = kinds();
    let mut overdue: Vec<String> = Vec::new();
    let mut k: usize = 0;
    while k < all_kinds.len()
        invariant
            k <= all_kinds@.len(),
            all_kinds@.len() == 5,
            forall|j: int| 0 <= j < 5 ==> #[trigger] all_kinds@[j] == kind_at(j),
            counts@.len() == 5,
            latest@.len() == 5,
            forall|j: int| 0 <= j < 5 ==> #[trigger] counts@[j] == kind_count(events@, kind_at(j)),
            forall|j: int|
                0 <= j < 5 && kind_count(events@, kind_at(j)) >= 1 ==> #[trigger] latest@[j] == kind_latest(events@, kind_at(j)),
            0 <= span_days < 0x1_0000_0000_0000_0000,
            1 <= total,
            crate::observation::texts(overdue@) == overdue_upto(events@, now, span_days as int, total as nat, k as int),
        decreases all_kinds@.len() - k,
    {
        let a = all_kinds[k];
        let d: i128 = (now as i128) - (latest[k] as i128);
        let days: i128 = d / (MS_PER_DAY as i128);
        proof {
            assert(-0x100_0000_0000 < days < 0x100_0000_0000);
            assert(-0x1_0000_0000_0000_0000_0000_0000_0000 < days * (total as int - 1) < 0x1_0000_0000_0000_0000_0000_0000_0000) by (nonlinear_arith)
                requires
                    -0x100_0000_0000 < days < 0x100_0000_0000,
                    1 <= total <= 0xffff_ffff_ffff_ffff,
            ;
        }
        let due = counts[k] >= 1 && total > 1 && days * ((total - 1) as i128) > 2 * span_days;
        if due {
            let ghost before = crate::observation::texts(overdue@);
            overdue.push(action_name_text(a));
            assert(crate::observation::texts(overdue@) =~= before.push(action_name(a)));
        }
        k = k + 1;
    }
    overdue
}

/// A right ranking gives the right named counts.
proof fn lemma_by_type(ev: Seq<TimelineEvent>, ranked: Seq<(ConfigAction, u64)>, by_type: Seq<(String, u64)>)
    requires
        rank_ok(ev, 5, ranked),
        by_type.len() == ranked.len(),
        forall|m: int|
            0 <= m < ranked.len() ==> (#[trigger] by_type[m]).0@ == action_name(ranked[m].0) && by_type[m].1
                == ranked[m].1,
    ensures
        forall|i: int, j: int| 0 <= i < j < by_type.len() ==> #[trigger] by_type[i].1 >= #[trigger] by_type[j].1,
        forall|i: int| 0 <= i < by_type.len() ==> counts_a_kind(ev, #[trigger] by_type[i]),
        forall|a: ConfigAction|
            is_calibration_action(a) && kind_count(ev, a) >= 1 ==> exists|i: int|
                0 <= i < by_type.len() && (#[trigger] by_type[i]).0@ == action_name(a),
        forall|i: int, j: int| 0 <= i < j < by_type.len() ==> (#[trigger] by_type[i]).0@ != (#[trigger] by_type[j]).0@,
        forall|i: int, j: int|
            0 <= i < j < by_type.len() && (#[trigger] by_type[i]).1 == (#[trigger] by_type[j]).1 ==> name_rank(
                by_type[i].0@,
            ) < name_rank(by_type[j].0@),
{
    assert forall|i: int, j: int|
        0 <= i < j < by_type.len() && (#[trigger] by_type[i]).1 == (#[trigger] by_type[j]).1 implies name_rank(
            by_type[i].0@,
        ) < name_rank(by_type[j].0@) by {
        assert(ranked[i].1 == ranked[j].1);
        assert(kind_rank(ranked[i].0) < 5 && kind_rank(ranked[j].0) < 5);
        lemma_name_rank(ranked[i].0);
        lemma_name_rank(ranked[j].0);
    }
    assert forall|i: int, j: int| 0 <= i < j < by_type.len() implies #[trigger] by_type[i].1 >= #[trigger] by_type[j].1 by {
        assert(ranked[i].1 >= ranked[j].1);
    }
    assert forall|i: int| 0 <= i < by_type.len() implies counts_a_kind(ev, #[trigger] by_type[i]) by {
        let a = ranked[i].0;
        assert(kind_rank(a) < 5);
        assert(is_calibration_action(a));
        assert(is_calibration_action(a) && by_type[i].0@ == action_name(a) && by_type[i].1 == kind_count(ev, a)
            && kind_count(ev, a) >= 1);
    }
    assert forall|a: ConfigAction| is_calibration_action(a) && kind_count(ev, a) >= 1 implies exists|i: int|
        0 <= i < by_type.len() && (#[trigger] by_type[i]).0@ == action_name(a) by {
        assert(kind_rank(a) < 5);
        let i = choose|i: int| 0 <= i < ranked.len() && ranked[i].0 == a;
        assert(by_type[i].0@ == action_name(a));
    }
    assert forall|i: int, j: int| 0 <= i < j < by_type.len() implies (#[trigger] by_type[i]).0@ != (#[trigger] by_type[j]).0@ by {
        assert(ranked[i].0 != ranked[j].0);
        lemma_names_differ(ranked[i].0, ranked[j].0);
    }
}

/// The per-kind counts of a summary as names and counts.
pub open spec fn by_type_view(v: Seq<(String, u64)>) -> Seq<(Seq<char>, u64)> {
    v.map_values(|x: (String, u64)| (x.0@, x.1))
}

/// Report order: more runs first, then the kind order.
pub open spec fn before_in_report(x: (Seq<char>, u64), y: (Seq<char>, u64)) -> bool {
    x.1 > y.1 || (x.1 == y.1 && name_rank(x.0) < name_rank(y.0))
}

/// Strictly in report order.
pub open spec fn in_report_order(v: Seq<(Seq<char>, u64)>) -> bool {
    forall|i: int, j: int| 0 <= i < j < v.len() ==> before_in_report(#[trigger] v[i], #[trigger] v[j])
}

/// Two sequences strictly in report order with the same elements are
/// equal.
proof fn lemma_report_order_unique(a: Seq<(Seq<char>, u64)>, b: Seq<(Seq<char>, u64)>)
    requires
        in_report_order(a),
        in_report_order(b),
        forall|x: (Seq<char>, u64)| a.contains(x) <==> b.contains(x),
    ensures
        a == b,
    decreases a.len(),
{
    if a.len() == 0 {
        if b.len() > 0 {
            assert(b.contains(b[0]));
        }
        assert(a =~= b);
    } else {
        assert(a.contains(a[0]));
        assert(b.len() > 0);
        assert(b.contains(b[0]));
        if a[0] != b[0] {
            let j = choose|j: int| 0 <= j < b.len() && b[j] == a[0];
            let i = choose|i: int| 0 <= i < a.len() && a[i] == b[0];
            assert(j > 0 && i > 0);
            assert(before_in_report(b[0], b[j]));
            assert(before_in_report(a[0], a[i]));
        }
        let ta = a.drop_first();
        let tb = b.drop_first();
        assert forall|x: (Seq<char>, u64)| ta.contains(x) <==> tb.contains(x) by {
            if ta.contains(x) {
                let k = choose|k: int| 0 <= k < ta.len() && ta[k] == x;
                assert(a[k + 1] == x);
                assert(before_in_report(a[0], a[k + 1]));
                assert(a.contains(x));
                let m = choose|m: int| 0 <= m < b.len() && b[m] == x;
                assert(m != 0);
                assert(tb[m - 1] == x);
            }
            if tb.contains(x) {
                let k = choose|k: int| 0 <= k < tb.len() && tb[k] == x;
                assert(b[k + 1] == x);
                assert(before_in_report(b[0], b[k + 1]));
                assert(b.contains(x));
                let m = choose|m: int| 0 <= m < a.len() && a[m] == x;
                assert(m != 0);
                assert(ta[m - 1] == x);
            }
        }
        assert forall|i: int, j: int| 0 <= i < j < ta.len() implies before_in_report(#[trigger] ta[i], #[trigger] ta[j]) by {
            assert(ta[i] == a[i + 1] && ta[j] == a[j + 1]);
        }
        assert forall|i: int, j: int| 0 <= i < j < tb.len() implies before_in_report(#[trigger] tb[i], #[trigger] tb[j]) by {
            assert(tb[i] == b[i + 1] && tb[j] == b[j + 1]);
        }
        lemma_report_order_unique(ta, tb);
        assert(a =~= seq![a[0]] + ta);
        assert(b =~= seq![b[0]] + tb);
    }
}

/// A name and count of a calibration kind that ran.
pub open spec fn ran_with(ev: Seq<TimelineEvent>, x: (Seq<char>, u64)) -> bool {
    exists|a: ConfigAction|
        is_calibration_action(a) && kind_count(ev, a) >= 1 && x.0 == action_name(a) && #[trigger] kind_count(ev, a) == x.1
}

proof fn lemma_by_type_member_to(ev: Seq<TimelineEvent>, bt: Seq<(String, u64)>, i: int)
    requires
        0 <= i < bt.len(),
        counts_a_kind(ev, bt[i]),
    ensures
        ran_with(ev, by_type_view(bt)[i]),
{
    let a = choose|a: ConfigAction|
        is_calibration_action(a) && bt[i].0@ == action_name(a) && bt[i].1 == kind_count(ev, a) && kind_count(ev, a) >= 1;
    let x = by_type_view(bt)[i];
    assert(x.0 == action_name(a) && kind_count(ev, a) == x.1);
}

proof fn lemma_by_type_member_from(ev: Seq<TimelineEvent>, bt: Seq<(String, u64)>, x: (Seq<char>, u64), a: ConfigAction, i: int)
    requires
        0 <= i < bt.len(),
        counts_a_kind(ev, bt[i]),
        is_calibration_action(a),
        x.0 == action_name(a),
        kind_count(ev, a) == x.1,
        bt[i].0@ == action_name(a),
    ensures
        by_type_view(bt)[i] == x,
{
    let b = choose|b: ConfigAction|
        is_calibration_action(b) && bt[i].0@ == action_name(b) && bt[i].1 == kind_count(ev, b) && kind_count(ev, b) >= 1;
    if a != b {
        lemma_names_differ(a, b);
    }
}

proof fn lemma_by_type_member(ev: Seq<TimelineEvent>, bt: Seq<(String, u64)>, x: (Seq<char>, u64))
    requires
        forall|i: int| 0 <= i < bt.len() ==> counts_a_kind(ev, #[trigger] bt[i]),
        forall|a: ConfigAction|
            is_calibration_action(a) && kind_count(ev, a) >= 1 ==> exists|i: int|
                0 <= i < bt.len() && (#[trigger] bt[i]).0@ == action_name(a),
    ensures
        by_type_view(bt).contains(x) <==> ran_with(ev, x),
{
    let v = by_type_view(bt);
    if v.contains(x) {
        let i = choose|i: int| 0 <= i < v.len() && v[i] == x;
        lemma_by_type_member_to(ev, bt, i);
    }
    if ran_with(ev, x) {
        let a = choose|a: ConfigAction|
            is_calibration_action(a) && kind_count(ev, a) >= 1 && x.0 == action_name(a) && #[trigger] kind_count(ev, a) == x.1;
        let i = choose|i: int| 0 <= i < bt.len() && (#[trigger] bt[i]).0@ == action_name(a);
        lemma_by_type_member_from(ev, bt, x, a, i);
        assert(v[i] == x);
    }
}

proof fn lemma_by_type_order(bt: Seq<(String, u64)>)
    requires
        forall|i: int, j: int| 0 <= i < j < bt.len() ==> #[trigger] bt[i].1 >= #[trigger] bt[j].1,
        forall|i: int, j: int|
            0 <= i < j < bt.len() && (#[trigger] bt[i]).1 == (#[trigger] bt[j]).1 ==> name_rank(bt[i].0@)
                < name_rank(bt[j].0@),
    ensures
        in_report_order(by_type_view(bt)),
{
    let v = by_type_view(bt);
    assert forall|i: int, j: int| 0 <= i < j < v.len() implies before_in_report(#[trigger] v[i], #[trigger] v[j]) by {
        assert(bt[i].1 >= bt[j].1);
    }
}

proof fn lemma_by_type_same(ev: Seq<TimelineEvent>, b1: Seq<(String, u64)>, b2: Seq<(String, u64)>)
    requires
        forall|i: int, j: int| 0 <= i < j < b1.len() ==> #[trigger] b1[i].1 >= #[trigger] b1[j].1,
        forall|i: int| 0 <= i < b1.len() ==> counts_a_kind(ev, #[trigger] b1[i]),
        forall|a: ConfigAction|
            is_calibration_action(a) && kind_count(ev, a) >= 1 ==> exists|i: int|
                0 <= i < b1.len() && (#[trigger] b1[i]).0@ == action_name(a),
        forall|i: int, j: int|
            0 <= i < j < b1.len() && (#[trigger] b1[i]).1 == (#[trigger] b1[j]).1 ==> name_rank(b1[i].0@)
                < name_rank(b1[j].0@),
        forall|i: int, j: int| 0 <= i < j < b2.len() ==> #[trigger] b2[i].1 >= #[trigger] b2[j].1,
        forall|i: int| 0 <= i < b2.len() ==> counts_a_kind(ev, #[trigger] b2[i]),
        forall|a: ConfigAction|
            is_calibration_action(a) && kind_count(ev, a) >= 1 ==> exists|i: int|
                0 <= i < b2.len() && (#[trigger] b2[i]).0@ == action_name(a),
        forall|i: int, j: int|
            0 <= i < j < b2.len() && (#[trigger] b2[i]).1 == (#[trigger] b2[j]).1 ==> name_rank(b2[i].0@)
                < name_rank(b2[j].0@),
    ensures
        by_type_view(b1) == by_type_view(b2),
{
    let v1 = by_type_view(b1);
    let v2 = by_type_view(b2);
    lemma_by_type_order(b1);
    lemma_by_type_order(b2);
    assert forall|x: (Seq<char>, u64)| v1.contains(x) <==> v2.contains(x) by {
        lemma_by_type_member(ev, b1, x);
        lemma_by_type_member(ev, b2, x);
    }
    lemma_report_order_unique(v1, v2);
}

/// A calibration summary is determined by the history and the clock:
/// two summaries of the same events at the same time agree on the total,
/// the average interval, the last calibration, the kinds in order (ties
/// included) with their counts, the most frequent kind and the overdue
/// list.
pub proof fn lemma_summary_unique(ev: Seq<TimelineEvent>, now: i64, s1: CalibrationSummary, s2: CalibrationSummary)
    requires
        summarizes(ev, now, s1),
        summarizes(ev, now, s2),
    ensures
        s1.total_calibrations == s2.total_calibrations,
        s1.avg_interval_days_milli == s2.avg_interval_days_milli,
        s1.last_calibration == s2.last_calibration,
        by_type_view(s1.by_type@) == by_type_view(s2.by_type@),
        crate::text::opt_text(s1.most_frequent) == crate::text::opt_text(s2.most_frequent),
        crate::observation::texts(s1.overdue@) == crate::observation::texts(s2.overdue@),
{
    let v1 = by_type_view(s1.by_type@);
    let v2 = by_type_view(s2.by_type@);
    lemma_by_type_same(ev, s1.by_type@, s2.by_type@);
    assert(v1.len() == s1.by_type@.len() && v2.len() == s2.by_type@.len());
    if s1.by_type@.len() > 0 {
        assert(v1[0].0 == s1.by_type@[0].0@);
        assert(v2[0].0 == s2.by_type@[0].0@);
    }
}

/// Summarizes calibration history.
pub struct CalibrationTracker;

impl CalibrationTracker {
    /// The calibration summary as of `now`; `None` when no calibration
    /// (PID tuning, input shaping, bed mesh, probe calibration, pressure
    /// advance) was recorded.
    pub fn summarize_at(events: &[TimelineEvent], now: i64) -> (res: Option<CalibrationSummary>)
        ensures
            res is None <==> calibration_count(events@, events@.len() as int) == 0,
            res matches Some(s) ==> summarizes(events@, now, s),
    {
        let (total, first, last) = calibration_stats(events);
        if total == 0 {
            return None;
        }
        let ghost ev = events@;
        let (ranked, counts, latest) = rank_kinds(events);
        // the summary
        let span_days: i128 = ((last as i128) - (first as i128)) / (MS_PER_DAY as i128);
        proof {
            lemma_calibration_min_le_max(ev, ev.len() as int);
        }
        let avg: Option<i64> = if total > 1 {
            let x = crate::text::round_div_i128(1000 * span_days, (total - 1) as i128);
            proof {
                lemma_round_div_bound(1000 * span_days as int, (total - 1) as int);
            }
            Some(x as i64)
        } else {
            None
        };
        let by_type = ranked_names(&ranked);
        let most_frequent = if by_type.len() > 0 {
            Some(by_type[0].0.clone())
        } else {
            None
        };
        let overdue = overdue_kinds(events, now, span_days, total, &counts, &latest);
        proof {
            lemma_by_type(ev, ranked@, by_type@);
        }
        Some(
            CalibrationSummary {
                total_calibrations: total,
                by_type,
                avg_interval_days_milli: avg,
                most_frequent,
                last_calibration: Some(last),
                overdue,
            },
        )
    }

    /// The latest record of configuration action `action` (the last
    /// one of equally late records); `None` when there is none.
    pub fn last_of_type(events: &[TimelineEvent], action: ConfigAction) -> (res: Option<&TimelineEvent>)
        ensures
            match res {
                None => forall|j: int| 0 <= j < events@.len() ==> !has_action(#[trigger] events@[j], action),
                Some(e) => exists|i: int|
                    0 <= i < events@.len() && *e == events@[i] && has_action(events@[i], action) && latest_of(
                        events@,
                        action,
                        i,
                    ),
            },
    {
        let mut best: Option<usize> = None;
        let mut i: usize = 0;
        while i < events.len()
            invariant
                i <= events@.len(),
                match best {
                    None => forall|j: int| 0 <= j < i ==> !has_action(#[trigger] events@[j], action),
                    Some(b) => b < i && has_action(events@[b as int], action) && forall|j: int|
                        0 <= j < i && has_action(#[trigger] events@[j], action) ==> events@[j].timestamp
                            < events@[b as int].timestamp || (events@[j].timestamp == events@[b as int].timestamp
                            && j <= b),
                },
            decreases events@.len() - i,
        {
            let matches = match &events[i].kind {
                TimelineEventKind::Configuration(c) => c.action == action,
                _ => false,
            };
            if matches {
                let better = match best {
                    None => true,
                    Some(b) => events[i].timestamp >= events[b].timestamp,
                };
                if better {
                    best = Some(i);
                }
            }
            i = i + 1;
        }
        match best {
            None => None,
            Some(b) => Some(&events[b]),
        }
    }

    /// The calibration summary as of now (the clock is read once).
    pub fn summarize(events: &[TimelineEvent]) -> (res: Option<CalibrationSummary>)
        ensures
            res is None <==> calibration_count(events@, events@.len() as int) == 0,
            res matches Some(s) ==> exists|now: i64| summarizes(events@, now, s),
    {
        let now = crate::clock::now_millis();
        Self::summarize_at(events, now)
    }
}

proof fn lemma_calibration_min_le_max(ev: Seq<TimelineEvent>, n: int)
    ensures
        calibration_min(ev, n) is Some <==> calibration_max(ev, n) is Some,
        calibration_min(ev, n) is Some ==> calibration_min(ev, n)->0 <= calibration_max(ev, n)->0,
    decreases n,
{
    if n > 0 {
        lemma_calibration_min_le_max(ev, n - 1);
    }
}

proof fn lemma_round_div_bound(x: int, d: int)
    requires
        0 <= x,
        1 <= d,
    ensures
        0 <= round_div(x, d) <= x,
{
    assert((x + d / 2) / d <= x) by (nonlinear_arith)
        requires
            0 <= x,
            1 <= d,
    ;
    assert((x + d / 2) / d >= 0) by (nonlinear_arith)
        requires
            0 <= x,
            1 <= d,
    ;
}

} // verus!
