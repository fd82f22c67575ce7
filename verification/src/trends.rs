//! Trends over a printer's history: failure rate, print success rate,
//! anomaly frequency and configuration changes. Directions are decided
//! by exact comparisons of the rates; the reported values are rounded
//! to thousandths.

use vstd::prelude::*;
use vstd::string::*;

use crate::learning::{is_success, TrendDirection, TrendReport, MS_PER_DAY, MS_PER_HOUR};
use crate::prints::{earliest_in, latest_in, lemma_earliest_le_latest, print_indices, successes_in};
use crate::query::{indices_where, lemma_indices_where_len};
use crate::text::round_div;
use crate::timeline::{TimelineEvent, TimelineEventKind};

verus! {

/// Anomaly records.
pub open spec fn anomaly_fn() -> spec_fn(TimelineEvent) -> bool {
    |e: TimelineEvent| e.kind is Anomaly
}

/// Configuration records.
pub open spec fn config_fn() -> spec_fn(TimelineEvent) -> bool {
    |e: TimelineEvent| e.kind is Configuration
}

/// Every record.
pub open spec fn any_fn() -> spec_fn(TimelineEvent) -> bool {
    |e: TimelineEvent| true
}

/// A rate of `n` per `unit_ms` over a span of `span_ms`, in thousandths
/// (0 over an empty span).
pub open spec fn rate_per(n: int, span_ms: int, unit_ms: int) -> int {
    if span_ms > 0 { round_div(1000 * n * unit_ms, span_ms) } else { 0 }
}

/// The span, in milliseconds, of the records at `idx[a..b]`.
pub open spec fn span_of(ev: Seq<TimelineEvent>, idx: Seq<usize>, a: int, b: int) -> int {
    latest_in(ev, idx, a, b) - earliest_in(ev, idx, a, b)
}

/// Whether rate `n2` per `s2` exceeds rate `n1` per `s1` times
/// `num / 10` (a rate over an empty span is 0).
pub open spec fn rate_above(n2: int, s2: int, n1: int, s1: int, num: int) -> bool {
    if s2 <= 0 {
        false
    } else if s1 <= 0 {
        n2 > 0
    } else {
        10 * (n2 * s1) > num * (n1 * s2)
    }
}

/// Whether rate `n2` per `s2` is below rate `n1` per `s1` times
/// `num / 10`.
pub open spec fn rate_below(n2: int, s2: int, n1: int, s1: int, num: int) -> bool {
    if s1 <= 0 {
        false
    } else if s2 <= 0 {
        n1 > 0
    } else {
        10 * (n2 * s1) < num * (n1 * s2)
    }
}

/// A report built from two rates in thousandths.
pub open spec fn two_rate_report(metric: Seq<char>, start: i64, end: i64, count: nat, r1: int, r2: int, direction: TrendDirection) -> TrendView {
    TrendView {
        metric,
        window_start: start,
        window_end: end,
        sample_count: count as u64,
        average_milli: round_div(r1 + r2, 2) as i64,
        min_milli: (if r1 < r2 { r1 } else { r2 }) as i64,
        max_milli: (if r1 > r2 { r1 } else { r2 }) as i64,
        direction,
        change_rate_milli: (r2 - r1) as i64,
    }
}

/// The failure-rate trend: anomalies per hour in the later half against
/// the earlier half; worsening above 1.2 times, improving below 0.8
/// times. None with fewer than 5 anomalies.
pub open spec fn failure_rate_trend(ev: Seq<TimelineEvent>) -> Option<TrendView> {
    let idx = indices_where(ev, anomaly_fn(), ev.len());
    let n = idx.len() as int;
    if n < 5 {
        None
    } else {
        let mid = n / 2;
        let s1 = span_of(ev, idx, 0, mid);
        let s2 = span_of(ev, idx, mid, n);
        let direction = if rate_above(n - mid, s2, mid, s1, 12) {
            TrendDirection::Worsening
        } else if rate_below(n - mid, s2, mid, s1, 8) {
            TrendDirection::Improving
        } else {
            TrendDirection::Stable
        };
        Some(
            two_rate_report(
                "failure_rate"@,
                ev[idx[0] as int].timestamp,
                ev[idx[n - 1] as int].timestamp,
                n as nat,
                rate_per(mid, s1, MS_PER_HOUR as int),
                rate_per(n - mid, s2, MS_PER_HOUR as int),
                direction,
            ),
        )
    }
}

/// The print-success trend: the later half's success rate against the
/// earlier half's; improving when higher by more than 0.05, worsening
/// when lower by more than 0.05. None with fewer than 10 prints.
pub open spec fn success_trend(ev: Seq<TimelineEvent>) -> Option<TrendView> {
    let idx = print_indices(ev);
    let n = idx.len() as int;
    if n < 10 {
        None
    } else {
        let mid = n / 2;
        let k1 = successes_in(ev, idx, 0, mid) as int;
        let k2 = successes_in(ev, idx, mid, n) as int;
        let t1 = mid;
        let t2 = n - mid;
        let direction = if 20 * (k2 * t1 - k1 * t2) > t1 * t2 {
            TrendDirection::Improving
        } else if 20 * (k1 * t2 - k2 * t1) > t1 * t2 {
            TrendDirection::Worsening
        } else {
            TrendDirection::Stable
        };
        Some(
            two_rate_report(
                "print_success_rate"@,
                ev[idx[0] as int].timestamp,
                ev[idx[n - 1] as int].timestamp,
                n as nat,
                round_div(1000 * k1, t1),
                round_div(1000 * k2, t2),
                direction,
            ),
        )
    }
}

/// The earliest and latest time of all records.
pub open spec fn all_indices(ev: Seq<TimelineEvent>) -> Seq<usize> {
    indices_where(ev, any_fn(), ev.len())
}

/// The anomaly-frequency trend: anomalies per day over the whole
/// history. None over less than a day or without anomalies.
pub open spec fn frequency_trend(ev: Seq<TimelineEvent>) -> Option<TrendView> {
    let all = all_indices(ev);
    let first = earliest_in(ev, all, 0, all.len() as int);
    let last = latest_in(ev, all, 0, all.len() as int);
    let span = last - first;
    let n = indices_where(ev, anomaly_fn(), ev.len()).len() as int;
    if span < MS_PER_DAY || n == 0 {
        None
    } else {
        let f = rate_per(n, span, MS_PER_DAY as int);
        Some(
            TrendView {
                metric: "anomaly_frequency"@,
                window_start: first,
                window_end: last,
                sample_count: n as u64,
                average_milli: f as i64,
                min_milli: 0,
                max_milli: f as i64,
                direction: TrendDirection::Stable,
                change_rate_milli: 0,
            },
        )
    }
}

/// The configuration-change trend: the count, and changes per day over
/// the whole history. None with fewer than 2 changes.
pub open spec fn config_trend(ev: Seq<TimelineEvent>) -> Option<TrendView> {
    let all = all_indices(ev);
    let first = earliest_in(ev, all, 0, all.len() as int);
    let last = latest_in(ev, all, 0, all.len() as int);
    let n = indices_where(ev, config_fn(), ev.len()).len() as int;
    if n < 2 {
        None
    } else {
        Some(
            TrendView {
                metric: "config_change_count"@,
                window_start: first,
                window_end: last,
                sample_count: n as u64,
                average_milli: (1000 * n) as i64,
                min_milli: 0,
                max_milli: (1000 * n) as i64,
                direction: TrendDirection::Stable,
                change_rate_milli: rate_per(n, last - first, MS_PER_DAY as int) as i64,
            },
        )
    }
}

/// An optional report as a sequence.
pub open spec fn opt_seq(t: Option<TrendView>) -> Seq<TrendView> {
    match t {
        Some(x) => seq![x],
        None => Seq::empty(),
    }
}

/// All trends: none without records; otherwise failure rate, print
/// success, anomaly frequency and configuration changes, each when it
/// applies.
pub open spec fn all_trends(ev: Seq<TimelineEvent>) -> Seq<TrendView> {
    if ev.len() == 0 {
        Seq::empty()
    } else {
        opt_seq(failure_rate_trend(ev)) + opt_seq(success_trend(ev)) + opt_seq(frequency_trend(ev)) + opt_seq(
            config_trend(ev),
        )
    }
}

/// The mathematical content of a trend report.
pub struct TrendView {
    pub metric: Seq<char>,
    pub window_start: i64,
    pub window_end: i64,
    pub sample_count: u64,
    pub average_milli: i64,
    pub min_milli: i64,
    pub max_milli: i64,
    pub direction: TrendDirection,
    pub change_rate_milli: i64,
}

impl View for TrendReport {
    type V = TrendView;

    open spec fn view(&self) -> TrendView {
        TrendView {
            metric: self.metric@,
            window_start: self.window_start,
            window_end: self.window_end,
            sample_count: self.sample_count,
            average_milli: self.average_milli,
            min_milli: self.min_milli,
            max_milli: self.max_milli,
            direction: self.direction,
            change_rate_milli: self.change_rate_milli,
        }
    }
}

/// The views of a sequence of trend reports.
pub open spec fn trend_views(v: Seq<TrendReport>) -> Seq<TrendView> {
    v.map_values(|t: TrendReport| t@)
}

/// Which records to pick.
pub enum Selector {
    Anomalies,
    Configurations,
    All,
}

/// The predicate a selector stands for.
pub open spec fn selected(s: Selector) -> spec_fn(TimelineEvent) -> bool {
    match s {
        Selector::Anomalies => anomaly_fn(),
        Selector::Configurations => config_fn(),
        Selector::All => any_fn(),
    }
}

fn positions(events: &[TimelineEvent], sel: Selector) -> (idx: Vec<usize>)
    ensures
        idx@ == indices_where(events@, selected(sel), events@.len()),
        forall|k: int| 0 <= k < idx@.len() ==> #[trigger] idx@[k] < events@.len(),
{
    let mut idx: Vec<usize> = Vec::new();
    let mut i: usize = 0;
    while i < events.len()
        invariant
            i <= events@.len(),
            idx@ == indices_where(events@, selected(sel), i as nat),
        decreases events@.len() - i,
    {
        let pick = match sel {
            Selector::Anomalies => match &events[i].kind {
                TimelineEventKind::Anomaly(_) => true,
                _ => false,
            },
            Selector::Configurations => match &events[i].kind {
                TimelineEventKind::Configuration(_) => true,
                _ => false,
            },
            Selector::All => true,
        };
        assert(pick == (selected(sel))(events@[i as int]));
        if pick {
            idx.push(i);
        }
        i = i + 1;
    }
    proof {
        lemma_indices_where_len(events@, selected(sel), events@.len());
    }
    idx
}

/// `a * b` for 64-bit factors.
fn wide_mul(a: u64, b: u64) -> (r: u128)
    ensures
        r == a * b,
{
    assert((a as int) * (b as int) <= 0xffff_ffff_ffff_ffff_ffff_ffff_ffff_ffff) by (nonlinear_arith)
        requires
            a <= 0xffff_ffff_ffff_ffff,
            b <= 0xffff_ffff_ffff_ffff,
    ;
    (a as u128) * (b as u128)
}

/// Whether `10 * p > 12 * q`.
fn above_twelve_tenths(p: u128, q: u128) -> (b: bool)
    ensures
        b == (10 * p > 12 * q),
{
    if p <= q {
        false
    } else {
        let d = p - q;
        proof {
            assert((10 * p > 12 * q) == (d > q / 5)) by (nonlinear_arith)
                requires
                    d == p - q,
                    p > q,
                    q >= 0,
            ;
        }
        d > q / 5
    }
}

/// Whether `10 * p < 8 * q`.
fn below_eight_tenths(p: u128, q: u128) -> (b: bool)
    ensures
        b == (10 * p < 8 * q),
{
    if q <= p {
        false
    } else {
        let d = q - p;
        proof {
            assert((10 * p < 8 * q) == (d > p / 4)) by (nonlinear_arith)
                requires
                    d == q - p,
                    q > p,
                    p >= 0,
            ;
        }
        d > p / 4
    }
}

/// Whether `20 * (a - b) > t`.
fn above_by_a_twentieth(a: u128, b: u128, t: u128) -> (r: bool)
    ensures
        r == (20 * (a - b) > t),
{
    if a <= b {
        false
    } else {
        let d = a - b;
        proof {
            assert((20 * (a - b) > t) == (d > t / 20)) by (nonlinear_arith)
                requires
                    d == a - b,
                    t >= 0,
            ;
        }
        d > t / 20
    }
}

fn rate_of_span(n: u64, span: i128, unit: i128) -> (r: i128)
    requires
        0 <= span <= 0xffff_ffff_ffff_ffff,
        unit == MS_PER_HOUR || unit == MS_PER_DAY,
    ensures
        r == rate_per(n as int, span as int, unit as int),
        0 <= r <= 1000 * n * unit,
{
    if span > 0 {
        proof {
            assert(1000 * n * unit <= 1000 * 0xffff_ffff_ffff_ffff * 86_400_000) by (nonlinear_arith)
                requires
                    n <= 0xffff_ffff_ffff_ffff,
                    0 < unit <= 86_400_000,
            ;
        }
        let x: i128 = 1000 * (n as i128) * unit;
        let r = crate::text::round_div_i128(x, span);
        proof {
            assert(0 <= r <= x) by (nonlinear_arith)
                requires
                    r as int == (x as int + span as int / 2) / (span as int),
                    x >= 0,
                    span >= 1,
            ;
        }
        r
    } else {
        0
    }
}

fn report(metric: &str, start: i64, end: i64, count: u64, average: i128, min: i128, max: i128, direction: TrendDirection, change: i128) -> (t: TrendReport)
    ensures
        t@ == (TrendView {
            metric: metric@,
            window_start: start,
            window_end: end,
            sample_count: count,
            average_milli: average as i64,
            min_milli: min as i64,
            max_milli: max as i64,
            direction,
            change_rate_milli: change as i64,
        }),
{
    TrendReport {
        metric: String::from_str(metric),
        window_start: start,
        window_end: end,
        sample_count: count,
        average_milli: average as i64,
        min_milli: min as i64,
        max_milli: max as i64,
        direction,
        change_rate_milli: change as i64,
    }
}

fn two_rates(metric: &str, start: i64, end: i64, count: u64, r1: i128, r2: i128, direction: TrendDirection) -> (t: TrendReport)
    requires
        0 <= r1 < 0x10_0000_0000_0000_0000_0000_0000_0000,
        0 <= r2 < 0x10_0000_0000_0000_0000_0000_0000_0000,
    ensures
        t@ == two_rate_report(metric@, start, end, count as nat, r1 as int, r2 as int, direction),
{
    let avg = crate::text::round_div_i128(r1 + r2, 2);
    let lo = if r1 < r2 {
        r1
    } else {
        r2
    };
    let hi = if r1 > r2 {
        r1
    } else {
        r2
    };
    report(metric, start, end, count, avg, lo, hi, direction, r2 - r1)
}

fn failure_trend_of(events: &[TimelineEvent]) -> (r: Option<TrendReport>)
    ensures
        match r {
            Some(t) => failure_rate_trend(events@) == Some(t@),
            None => failure_rate_trend(events@) is None,
        },
{
    let idx = positions(events, Selector::Anomalies);
    let n = idx.len();
    if n < 5 {
        return None;
    }
    let mid = n / 2;
    let w1 = crate::prints::window_from(events, &idx, 0, mid);
    let w2 = crate::prints::window_from(events, &idx, mid, n);
    proof {
        lemma_earliest_le_latest(events@, idx@, 0, mid as int);
        lemma_earliest_le_latest(events@, idx@, mid as int, n as int);
    }
    let s1: i128 = (w1.end as i128) - (w1.start as i128);
    let s2: i128 = (w2.end as i128) - (w2.start as i128);
    let n1 = mid as u64;
    let n2 = (n - mid) as u64;
    let above = if s2 <= 0 {
        false
    } else if s1 <= 0 {
        n2 > 0
    } else {
        above_twelve_tenths(wide_mul(n2, s1 as u64), wide_mul(n1, s2 as u64))
    };
    let below = if s1 <= 0 {
        false
    } else if s2 <= 0 {
        n1 > 0
    } else {
        below_eight_tenths(wide_mul(n2, s1 as u64), wide_mul(n1, s2 as u64))
    };
    let direction = if above {
        TrendDirection::Worsening
    } else if below {
        TrendDirection::Improving
    } else {
        TrendDirection::Stable
    };
    let r1 = rate_of_span(n1, s1, MS_PER_HOUR as i128);
    let r2 = rate_of_span(n2, s2, MS_PER_HOUR as i128);
    proof {
        assert(1000 * n1 * MS_PER_HOUR < 0x10_0000_0000_0000_0000_0000_0000_0000) by (nonlinear_arith)
            requires n1 <= 0xffff_ffff_ffff_ffff;
        assert(1000 * n2 * MS_PER_HOUR < 0x10_0000_0000_0000_0000_0000_0000_0000) by (nonlinear_arith)
            requires n2 <= 0xffff_ffff_ffff_ffff;
    }
    Some(
        two_rates(
            "failure_rate",
            events[idx[0]].timestamp,
            events[idx[n - 1]].timestamp,
            n as u64,
            r1,
            r2,
            direction,
        ),
    )
}

fn success_trend_of(events: &[TimelineEvent]) -> (r: Option<TrendReport>)
    ensures
        match r {
            Some(t) => success_trend(events@) == Some(t@),
            None => success_trend(events@) is None,
        },
{
    let idx = crate::prints::print_positions(events);
    let n = idx.len();
    if n < 10 {
        return None;
    }
    let mid = n / 2;
    let w1 = crate::prints::window_from(events, &idx, 0, mid);
    let w2 = crate::prints::window_from(events, &idx, mid, n);
    let k1 = w1.successful_prints;
    let k2 = w2.successful_prints;
    proof {
        crate::prints::lemma_successes_bound(events@, idx@, 0, mid as int);
        crate::prints::lemma_successes_bound(events@, idx@, mid as int, n as int);
    }
    let t1 = mid as u64;
    let t2 = (n - mid) as u64;
    let a = wide_mul(k2, t1);
    let b = wide_mul(k1, t2);
    let t = wide_mul(t1, t2);
    let direction = if above_by_a_twentieth(a, b, t) {
        TrendDirection::Improving
    } else if above_by_a_twentieth(b, a, t) {
        TrendDirection::Worsening
    } else {
        TrendDirection::Stable
    };
    proof {
        assert(1000 * k1 < 0x100_0000_0000_0000_0000_0000_0000_0000) by (nonlinear_arith)
            requires k1 <= 0xffff_ffff_ffff_ffff;
        assert(1000 * k2 < 0x100_0000_0000_0000_0000_0000_0000_0000) by (nonlinear_arith)
            requires k2 <= 0xffff_ffff_ffff_ffff;
    }
    let r1 = crate::text::round_div_i128(1000 * (k1 as i128), t1 as i128);
    let r2 = crate::text::round_div_i128(1000 * (k2 as i128), t2 as i128);
    proof {
        assert(0 <= r1 <= 1000 * k1) by (nonlinear_arith)
            requires
                r1 as int == (1000 * (k1 as int) + (t1 as int) / 2) / (t1 as int),
                t1 >= 1,
                k1 >= 0,
        ;
        assert(0 <= r2 <= 1000 * k2) by (nonlinear_arith)
            requires
                r2 as int == (1000 * (k2 as int) + (t2 as int) / 2) / (t2 as int),
                t2 >= 1,
                k2 >= 0,
        ;
    }
    Some(
        two_rates(
            "print_success_rate",
            events[idx[0]].timestamp,
            events[idx[n - 1]].timestamp,
            n as u64,
            r1,
            r2,
            direction,
        ),
    )
}

/// The earliest and latest time of all records.
fn time_bounds(events: &[TimelineEvent]) -> (r: (i64, i64))
    ensures
        r.0 == earliest_in(events@, all_indices(events@), 0, all_indices(events@).len() as int),
        r.1 == latest_in(events@, all_indices(events@), 0, all_indices(events@).len() as int),
        r.0 <= r.1,
{
    let all = positions(events, Selector::All);
    let w = crate::prints::window_from(events, &all, 0, all.len());
    proof {
        lemma_earliest_le_latest(events@, all@, 0, all@.len() as int);
    }
    (w.start, w.end)
}

fn frequency_trend_of(events: &[TimelineEvent]) -> (r: Option<TrendReport>)
    ensures
        match r {
            Some(t) => frequency_trend(events@) == Some(t@),
            None => frequency_trend(events@) is None,
        },
{
    let (first, last) = time_bounds(events);
    let span: i128 = (last as i128) - (first as i128);
    let n = positions(events, Selector::Anomalies).len() as u64;
    if span < MS_PER_DAY as i128 || n == 0 {
        return None;
    }
    let f = rate_of_span(n, span, MS_PER_DAY as i128);
    proof {
        reveal_strlit("anomaly_frequency");
    }
    Some(report("anomaly_frequency", first, last, n, f, 0, f, TrendDirection::Stable, 0))
}

fn config_trend_of(events: &[TimelineEvent]) -> (r: Option<TrendReport>)
    ensures
        match r {
            Some(t) => config_trend(events@) == Some(t@),
            None => config_trend(events@) is None,
        },
{
    let (first, last) = time_bounds(events);
    let n = positions(events, Selector::Configurations).len() as u64;
    if n < 2 {
        return None;
    }
    let span: i128 = (last as i128) - (first as i128);
    let change = rate_of_span(n, span, MS_PER_DAY as i128);
    Some(
        report(
            "config_change_count",
            first,
            last,
            n,
            1000 * (n as i128),
            0,
            1000 * (n as i128),
            TrendDirection::Stable,
            change,
        ),
    )
}

fn push_trend(v: &mut Vec<TrendReport>, t: Option<TrendReport>, Ghost(expected): Ghost<Option<TrendView>>)
    requires
        match t {
            Some(x) => expected == Some(x@),
            None => expected is None,
        },
    ensures
        trend_views(final(v)@) == trend_views(old(v)@) + opt_seq(expected),
{
    match t {
        Some(x) => {
            v.push(x);
            assert(trend_views(final(v)@) =~= trend_views(old(v)@) + opt_seq(expected));
        },
        None => {
            assert(trend_views(old(v)@) + opt_seq(expected) =~= trend_views(old(v)@));
        },
    }
}

/// A rounded share in thousandths lies within half a unit of the exact
/// one: `(2q - 1) d <= 2x <= (2q + 1) d` for `q = round_div(x, d)`.
proof fn lemma_round_div_bounds(x: int, d: int)
    requires
        x >= 0,
        d > 0,
    ensures
        (2 * round_div(x, d) - 1) * d <= 2 * x,
        2 * x <= (2 * round_div(x, d) + 1) * d,
        round_div(x, d) >= 0,
{
    let h = d / 2;
    let q = (x + h) / d;
    let r = (x + h) % d;
    vstd::arithmetic::div_mod::lemma_fundamental_div_mod(x + h, d);
    assert(x + h == q * d + r && 0 <= r < d) by (nonlinear_arith)
        requires
            x + h == d * ((x + h) / d) + (x + h) % d,
            q == (x + h) / d,
            r == (x + h) % d,
            d > 0,
    ;
    assert(2 * h <= d && d <= 2 * h + 1);
    assert((2 * q - 1) * d <= 2 * x) by (nonlinear_arith)
        requires
            x + h == q * d + r,
            0 <= r,
            2 * h <= d,
    ;
    assert(2 * x <= (2 * q + 1) * d) by (nonlinear_arith)
        requires
            x + h == q * d + r,
            r < d,
            d <= 2 * h + 1,
    ;
    assert(q >= 0) by (nonlinear_arith)
        requires
            x + h == q * d + r,
            r < d,
            x >= 0,
            h >= 0,
            d > 0,
    ;
}

/// Success rates in thousandths of `k1` of `t1` and `k2` of `t2`: each
/// within 0..1000, and when the later share beats the earlier by more
/// than a twentieth the rounded later rate is the higher one (and the
/// other way round).
proof fn lemma_success_rates(k1: int, t1: int, k2: int, t2: int)
    requires
        0 <= k1 <= t1,
        0 <= k2 <= t2,
        t1 > 0,
        t2 > 0,
    ensures
        0 <= round_div(1000 * k1, t1) <= 1000,
        0 <= round_div(1000 * k2, t2) <= 1000,
        20 * (k2 * t1 - k1 * t2) > t1 * t2 ==> round_div(1000 * k2, t2) > round_div(1000 * k1, t1),
        20 * (k1 * t2 - k2 * t1) > t1 * t2 ==> round_div(1000 * k2, t2) < round_div(1000 * k1, t1),
        20 * (k2 * t1 - k1 * t2) <= t1 * t2 ==> round_div(1000 * k2, t2) - round_div(1000 * k1, t1) <= 51,
        20 * (k1 * t2 - k2 * t1) <= t1 * t2 ==> round_div(1000 * k1, t1) - round_div(1000 * k2, t2) <= 51,
{
    lemma_round_div_bounds(1000 * k1, t1);
    lemma_round_div_bounds(1000 * k2, t2);
    let q1 = round_div(1000 * k1, t1);
    let q2 = round_div(1000 * k2, t2);
    assert(q1 <= 1000) by (nonlinear_arith)
        requires
            (2 * q1 - 1) * t1 <= 2 * (1000 * k1),
            k1 <= t1,
            t1 > 0,
    ;
    assert(q2 <= 1000) by (nonlinear_arith)
        requires
            (2 * q2 - 1) * t2 <= 2 * (1000 * k2),
            k2 <= t2,
            t2 > 0,
    ;
    if 20 * (k2 * t1 - k1 * t2) > t1 * t2 {
        assert(q2 > q1) by (nonlinear_arith)
            requires
                20 * (k2 * t1 - k1 * t2) > t1 * t2,
                (2 * q1 - 1) * t1 <= 2 * (1000 * k1),
                2 * (1000 * k2) <= (2 * q2 + 1) * t2,
                t1 > 0,
                t2 > 0,
        {
            assert(2000 * k2 * t1 <= (2 * q2 + 1) * t2 * t1);
            assert((2 * q1 - 1) * t1 * t2 <= 2000 * k1 * t2);
            assert(100 * (t1 * t2) < 2000 * (k2 * t1 - k1 * t2));
            assert((2 * q2 - 2 * q1 + 2) * (t1 * t2) > 100 * (t1 * t2));
        }
    }
    if 20 * (k1 * t2 - k2 * t1) > t1 * t2 {
        assert(q2 < q1) by (nonlinear_arith)
            requires
                20 * (k1 * t2 - k2 * t1) > t1 * t2,
                2 * (1000 * k1) <= (2 * q1 + 1) * t1,
                (2 * q2 - 1) * t2 <= 2 * (1000 * k2),
                t1 > 0,
                t2 > 0,
        {
            assert(2000 * k1 * t2 <= (2 * q1 + 1) * t1 * t2);
            assert((2 * q2 - 1) * t2 * t1 <= 2000 * k2 * t1);
            assert(100 * (t1 * t2) < 2000 * (k1 * t2 - k2 * t1));
            assert((2 * q1 - 2 * q2 + 2) * (t1 * t2) > 100 * (t1 * t2));
        }
    }
    if 20 * (k2 * t1 - k1 * t2) <= t1 * t2 {
        assert(q2 - q1 <= 51) by (nonlinear_arith)
            requires
                20 * (k2 * t1 - k1 * t2) <= t1 * t2,
                2 * (1000 * k1) <= (2 * q1 + 1) * t1,
                (2 * q2 - 1) * t2 <= 2 * (1000 * k2),
                t1 > 0,
                t2 > 0,
        {
            assert((2 * q2 - 1) * t2 * t1 <= 2000 * k2 * t1);
            assert(2000 * k1 * t2 <= (2 * q1 + 1) * t1 * t2);
            assert(2000 * (k2 * t1 - k1 * t2) <= 100 * (t1 * t2));
            assert((2 * q2 - 2 * q1 - 2) * (t1 * t2) <= 100 * (t1 * t2));
        }
    }
    if 20 * (k1 * t2 - k2 * t1) <= t1 * t2 {
        assert(q1 - q2 <= 51) by (nonlinear_arith)
            requires
                20 * (k1 * t2 - k2 * t1) <= t1 * t2,
                2 * (1000 * k2) <= (2 * q2 + 1) * t2,
                (2 * q1 - 1) * t1 <= 2 * (1000 * k1),
                t1 > 0,
                t2 > 0,
        {
            assert((2 * q1 - 1) * t1 * t2 <= 2000 * k1 * t2);
            assert(2000 * k2 * t1 <= (2 * q2 + 1) * t2 * t1);
            assert(2000 * (k1 * t2 - k2 * t1) <= 100 * (t1 * t2));
            assert((2 * q1 - 2 * q2 - 2) * (t1 * t2) <= 100 * (t1 * t2));
        }
    }
}

/// The print-success trend agrees with its own rates: it is improving
/// only when the later half's success rate is the higher one (a
/// positive change), worsening only when it is the lower one (a
/// negative change), and a change of more than 51 thousandths either way
/// is never called stable or the other direction; the rates are
/// thousandths between 0 and 1000, the
/// minimum and maximum are the two rates, and the change is the later
/// rate less the earlier.
pub proof fn lemma_success_trend_direction(ev: Seq<TimelineEvent>, k: int)
    requires
        0 <= k < all_trends(ev).len(),
        all_trends(ev)[k].metric == "print_success_rate"@,
    ensures
        ({
            let t = all_trends(ev)[k];
            &&& t.direction == TrendDirection::Improving ==> t.change_rate_milli > 0 && t.max_milli
                == t.min_milli + t.change_rate_milli
            &&& t.direction == TrendDirection::Worsening ==> t.change_rate_milli < 0 && t.min_milli
                == t.max_milli + t.change_rate_milli
            &&& t.change_rate_milli > 51 ==> t.direction == TrendDirection::Improving
            &&& t.change_rate_milli < -51 ==> t.direction == TrendDirection::Worsening
            &&& 0 <= t.min_milli <= t.max_milli <= 1000
        }),
{
    reveal_strlit("failure_rate");
    reveal_strlit("print_success_rate");
    reveal_strlit("anomaly_frequency");
    reveal_strlit("config_change_count");
    let f = opt_seq(failure_rate_trend(ev));
    let st = opt_seq(success_trend(ev));
    let fr = opt_seq(frequency_trend(ev));
    let cf = opt_seq(config_trend(ev));
    let all = all_trends(ev);
    assert(all == f + st + fr + cf);
    let x = all[k];
    if k < f.len() {
        assert(x == f[k]);
        assert(x.metric.len() != "print_success_rate"@.len());
    } else if k < f.len() + st.len() {
        assert(x == st[k - f.len()]);
        let idx = print_indices(ev);
        let n = idx.len() as int;
        let mid = n / 2;
        crate::prints::lemma_successes_bound(ev, idx, 0, mid);
        crate::prints::lemma_successes_bound(ev, idx, mid, n);
        lemma_success_rates(
            successes_in(ev, idx, 0, mid) as int,
            mid,
            successes_in(ev, idx, mid, n) as int,
            n - mid,
        );
    } else if k < f.len() + st.len() + fr.len() {
        assert(x == fr[k - f.len() - st.len()]);
        assert(x.metric[0] != "print_success_rate"@[0]);
    } else {
        assert(x == cf[k - f.len() - st.len() - fr.len()]);
        assert(x.metric[0] != "print_success_rate"@[0]);
    }
}

/// Computes trends.
pub struct TrendAnalyzer;

impl TrendAnalyzer {
    /// The trends of a history: the failure rate (with at least 5
    /// anomalies), the print success rate (with at least 10 prints),
    /// the anomaly frequency (over at least a day) and the
    /// configuration changes (at least 2), each when it applies.
    pub fn analyze(events: &[TimelineEvent]) -> (res: Vec<TrendReport>)
        ensures
            trend_views(res@) == all_trends(events@),
    {
        let mut res: Vec<TrendReport> = Vec::new();
        if events.len() == 0 {
            assert(trend_views(res@) =~= Seq::<TrendView>::empty());
            return res;
        }
        assert(trend_views(res@) =~= Seq::<TrendView>::empty());
        push_trend(&mut res, failure_trend_of(events), Ghost(failure_rate_trend(events@)));
        push_trend(&mut res, success_trend_of(events), Ghost(success_trend(events@)));
        push_trend(&mut res, frequency_trend_of(events), Ghost(frequency_trend(events@)));
        push_trend(&mut res, config_trend_of(events), Ghost(config_trend(events@)));
        assert(trend_views(res@) =~= all_trends(events@));
        res
    }
}

} // verus!
