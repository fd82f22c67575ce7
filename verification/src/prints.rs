//! Print performance over time: earlier prints against later ones, and
//! success over consecutive windows of days.

use vstd::prelude::*;
use vstd::string::*;

use crate::learning::{
    event_is_success, is_print, is_success, PrintComparison, SuccessWindow, TimeWindow, MS_PER_DAY,
};
use crate::query::{indices_where, lemma_indices_where_contains, lemma_indices_where_len};
use crate::text::{decimal, opt_text, round_div};
use crate::timeline::{PrintAction, TimelineEvent, TimelineEventKind};

verus! {

/// How many prints a comparison needs.
pub const MIN_PRINTS_FOR_COMPARISON: usize = 10;

/// Print-history records.
pub open spec fn print_fn() -> spec_fn(TimelineEvent) -> bool {
    |e: TimelineEvent| is_print(e)
}

/// The positions of the print-history records, in order.
pub open spec fn print_indices(ev: Seq<TimelineEvent>) -> Seq<usize> {
    indices_where(ev, print_fn(), ev.len())
}

/// Successes among the prints at positions `idx[a..b]`.
pub open spec fn successes_in(ev: Seq<TimelineEvent>, idx: Seq<usize>, a: int, b: int) -> nat
    decreases b - a,
{
    if b <= a {
        0
    } else {
        successes_in(ev, idx, a, b - 1) + if is_success(ev[idx[b - 1] as int]) { 1nat } else { 0nat }
    }
}

/// The earliest time among the prints at positions `idx[a..b]` (0 when
/// there are none).
pub open spec fn earliest_in(ev: Seq<TimelineEvent>, idx: Seq<usize>, a: int, b: int) -> i64
    decreases b - a,
{
    if b <= a {
        0
    } else if b - 1 == a {
        ev[idx[a] as int].timestamp
    } else {
        let t = ev[idx[b - 1] as int].timestamp;
        let m = earliest_in(ev, idx, a, b - 1);
        if t < m { t } else { m }
    }
}

/// The latest time among the prints at positions `idx[a..b]` (0 when
/// there are none).
pub open spec fn latest_in(ev: Seq<TimelineEvent>, idx: Seq<usize>, a: int, b: int) -> i64
    decreases b - a,
{
    if b <= a {
        0
    } else if b - 1 == a {
        ev[idx[a] as int].timestamp
    } else {
        let t = ev[idx[b - 1] as int].timestamp;
        let m = latest_in(ev, idx, a, b - 1);
        if t > m { t } else { m }
    }
}

/// The counts of the prints at positions `idx[a..b]`.
pub open spec fn window_of(ev: Seq<TimelineEvent>, idx: Seq<usize>, a: int, b: int) -> TimeWindow {
    let s = successes_in(ev, idx, a, b);
    TimeWindow {
        start: earliest_in(ev, idx, a, b),
        end: latest_in(ev, idx, a, b),
        total_prints: (b - a) as u64,
        successful_prints: s as u64,
        failed_prints: (b - a - s) as u64,
    }
}

/// A success rate in thousandths (0 without prints).
pub open spec fn rate_milli(s: u64, t: u64) -> int {
    if t > 0 { round_div(1000 * s, t as int) } else { 0 }
}

/// A success rate in whole percent (0 without prints).
pub open spec fn percent(s: u64, t: u64) -> int {
    if t > 0 { round_div(100 * s, t as int) } else { 0 }
}

/// Whether two success rates differ by more than a tenth.
pub open spec fn significant_change(before: TimeWindow, after: TimeWindow) -> bool {
    let d = 10 * (after.successful_prints * before.total_prints - before.successful_prints
        * after.total_prints);
    let bound = before.total_prints * after.total_prints;
    d > bound || -d > bound
}

/// The message for a changed success rate.
pub open spec fn change_message(before: TimeWindow, after: TimeWindow) -> Seq<char> {
    "Success rate changed from "@ + decimal(percent(before.successful_prints, before.total_prints) as nat)
        + "% to "@ + decimal(percent(after.successful_prints, after.total_prints) as nat) + "%"@
}

/// What a comparison of the earlier half of the prints with the later
/// half says.
pub open spec fn compares(ev: Seq<TimelineEvent>, c: PrintComparison) -> bool {
    let idx = print_indices(ev);
    let mid = idx.len() / 2;
    let before = window_of(ev, idx, 0, mid as int);
    let after = window_of(ev, idx, mid as int, idx.len() as int);
    &&& c.before_period == before
    &&& c.after_period == after
    &&& c.success_rate_change_milli == rate_milli(after.successful_prints, after.total_prints) - rate_milli(
        before.successful_prints,
        before.total_prints,
    )
    &&& c.avg_duration_change_ms == 0
    &&& c.failure_count_before == before.failed_prints
    &&& c.failure_count_after == after.failed_prints
    &&& crate::observation::texts(c.significant_changes@) == if significant_change(before, after) {
        seq![change_message(before, after)]
    } else {
        Seq::empty()
    }
}

// ---------------------------------------------------------------------
// Success windows.

/// Whether an event is a print in `[start, end)`.
pub open spec fn in_window(e: TimelineEvent, start: int, end: int) -> bool {
    is_print(e) && start <= e.timestamp && e.timestamp < end
}

/// Prints in the window among the first `n` events.
pub open spec fn window_count(ev: Seq<TimelineEvent>, start: int, end: int, n: int) -> nat
    decreases n,
{
    if n <= 0 {
        0
    } else {
        window_count(ev, start, end, n - 1) + if in_window(ev[n - 1], start, end) { 1nat } else { 0nat }
    }
}

/// Successful prints in the window among the first `n` events.
pub open spec fn window_successes(ev: Seq<TimelineEvent>, start: int, end: int, n: int) -> nat
    decreases n,
{
    if n <= 0 {
        0
    } else {
        window_successes(ev, start, end, n - 1) + if in_window(ev[n - 1], start, end) && is_success(ev[n - 1]) {
            1nat
        } else {
            0nat
        }
    }
}

/// The failure reason of a failed print in the window.
pub open spec fn failure_reason_in(e: TimelineEvent, start: int, end: int) -> Option<Seq<char>> {
    if in_window(e, start, end) {
        match e.kind {
            TimelineEventKind::PrintHistory(p) => if p.action == PrintAction::Failed {
                opt_text(p.failure_reason)
            } else {
                None
            },
            _ => None,
        }
    } else {
        None
    }
}

/// How many failed prints in the window give reason `r`.
pub open spec fn reason_count_in(ev: Seq<TimelineEvent>, start: int, end: int, r: Seq<char>, n: int) -> nat
    decreases n,
{
    if n <= 0 {
        0
    } else {
        reason_count_in(ev, start, end, r, n - 1) + if failure_reason_in(ev[n - 1], start, end) == Some(r) {
            1nat
        } else {
            0nat
        }
    }
}

/// The most common failure reason in the window among the first `n`
/// events: scanning in order, a reason replaces the current one only
/// when it is given strictly more often.
pub open spec fn best_reason(ev: Seq<TimelineEvent>, start: int, end: int, n: int) -> Option<Seq<char>>
    decreases n,
{
    if n <= 0 {
        None
    } else {
        let b = best_reason(ev, start, end, n - 1);
        match failure_reason_in(ev[n - 1], start, end) {
            Some(r) => match b {
                None => Some(r),
                Some(x) => if reason_count_in(ev, start, end, r, ev.len() as int) > reason_count_in(
                    ev,
                    start,
                    end,
                    x,
                    ev.len() as int,
                ) {
                    Some(r)
                } else {
                    b
                },
            },
            None => b,
        }
    }
}

/// The mathematical content of a success window.
pub struct SuccessWindowView {
    pub window_days: i64,
    pub total_prints: u64,
    pub success_rate_milli: i64,
    pub failure_rate_milli: i64,
    pub most_common_failure: Option<Seq<char>>,
}

impl View for SuccessWindow {
    type V = SuccessWindowView;

    open spec fn view(&self) -> SuccessWindowView {
        SuccessWindowView {
            window_days: self.window_days,
            total_prints: self.total_prints,
            success_rate_milli: self.success_rate_milli,
            failure_rate_milli: self.failure_rate_milli,
            most_common_failure: opt_text(self.most_common_failure),
        }
    }
}

/// The window starting `offset` days after `first`, if it holds prints.
pub open spec fn window_at(ev: Seq<TimelineEvent>, first: int, w: i64, offset: int) -> Seq<SuccessWindowView> {
    let start = first + offset * MS_PER_DAY;
    let end = start + w * MS_PER_DAY;
    let total = window_count(ev, start, end, ev.len() as int);
    let s = window_successes(ev, start, end, ev.len() as int);
    if total == 0 {
        Seq::empty()
    } else {
        seq![
            SuccessWindowView {
                window_days: w,
                total_prints: total as u64,
                success_rate_milli: round_div(1000 * (s as int), total as int) as i64,
                failure_rate_milli: round_div(1000 * (total - s), total as int) as i64,
                most_common_failure: best_reason(ev, start, end, ev.len() as int),
            },
        ]
    }
}

/// The windows at offsets `0, w, 2w, ...`, the first `k` of them.
pub open spec fn windows_upto(ev: Seq<TimelineEvent>, first: int, w: i64, k: int) -> Seq<SuccessWindowView>
    decreases k,
{
    if k <= 0 {
        Seq::empty()
    } else {
        windows_upto(ev, first, w, k - 1) + window_at(ev, first, w, (k - 1) * w)
    }
}

/// The views of a sequence of success windows.
pub open spec fn success_views(v: Seq<SuccessWindow>) -> Seq<SuccessWindowView> {
    v.map_values(|s: SuccessWindow| s@)
}

/// The success windows: from the first print on, one window of `w`
/// days every `w` days up to the last print, those holding prints.
pub open spec fn success_windows_spec(ev: Seq<TimelineEvent>, w: i64) -> Seq<SuccessWindowView> {
    let idx = print_indices(ev);
    if idx.len() == 0 || w < 0 {
        Seq::empty()
    } else {
        let first = earliest_in(ev, idx, 0, idx.len() as int);
        let last = latest_in(ev, idx, 0, idx.len() as int);
        let span_days = (last - first) / (MS_PER_DAY as int);
        windows_upto(ev, first as int, w, span_days / (w as int) + 1)
    }
}

/// The prints counted over a sequence of windows.
pub open spec fn window_totals(ws: Seq<SuccessWindowView>) -> int
    decreases ws.len(),
{
    if ws.len() == 0 {
        0
    } else {
        window_totals(ws.drop_last()) + ws.last().total_prints
    }
}

proof fn lemma_window_count_split(ev: Seq<TimelineEvent>, a: int, b: int, c: int, n: int)
    requires
        a <= b <= c,
    ensures
        window_count(ev, a, b, n) + window_count(ev, b, c, n) == window_count(ev, a, c, n),
    decreases n,
{
    if n > 0 {
        lemma_window_count_split(ev, a, b, c, n - 1);
    }
}

proof fn lemma_window_count_le(ev: Seq<TimelineEvent>, a: int, b: int, n: int)
    ensures
        window_count(ev, a, b, n) <= if n < 0 { 0 } else { n },
    decreases n,
{
    if n > 0 {
        lemma_window_count_le(ev, a, b, n - 1);
    }
}

proof fn lemma_windows_upto_totals(ev: Seq<TimelineEvent>, first: int, w: i64, k: int)
    requires
        w > 0,
        k >= 0,
        ev.len() <= usize::MAX,
    ensures
        window_totals(windows_upto(ev, first, w, k)) == window_count(ev, first, first + k * w * MS_PER_DAY, ev.len() as int),
    decreases k,
{
    if k == 0 {
        assert(window_count(ev, first, first, ev.len() as int) == 0) by {
            lemma_window_count_split(ev, first, first, first, ev.len() as int);
        }
        assert(k * w * MS_PER_DAY == 0) by (nonlinear_arith)
            requires
                k == 0,
        ;
        assert(windows_upto(ev, first, w, k) =~= Seq::<SuccessWindowView>::empty());
    } else {
        lemma_windows_upto_totals(ev, first, w, k - 1);
        let start = first + (k - 1) * w * MS_PER_DAY;
        let end = start + w * MS_PER_DAY;
        assert((k - 1) * w * MS_PER_DAY >= 0 && k * w * MS_PER_DAY == (k - 1) * w * MS_PER_DAY + w * MS_PER_DAY)
            by (nonlinear_arith)
            requires
                k >= 1,
                w > 0,
        ;
        lemma_window_count_split(ev, first, start, end, ev.len() as int);
        lemma_window_count_le(ev, start, end, ev.len() as int);
        let prev = windows_upto(ev, first, w, k - 1);
        let cur = window_at(ev, first, w, (k - 1) * w);
        assert(windows_upto(ev, first, w, k) == prev + cur);
        let c = window_count(ev, start, end, ev.len() as int);
        assert(c <= usize::MAX);
        if cur.len() == 0 {
            assert(c == 0);
            assert(prev + cur =~= prev);
        } else {
            assert((prev + cur).drop_last() =~= prev);
            assert((prev + cur).last() == cur[0]);
            assert(cur[0].total_prints == c);
        }
        assert(window_totals(prev + cur) == window_totals(prev) + c);
    }
}

proof fn lemma_window_count_all(ev: Seq<TimelineEvent>, lo: int, hi: int, n: int)
    requires
        0 <= n <= ev.len(),
        forall|i: int| 0 <= i < n && is_print(#[trigger] ev[i]) ==> lo <= ev[i].timestamp < hi,
    ensures
        window_count(ev, lo, hi, n) == indices_where(ev, print_fn(), n as nat).len(),
    decreases n,
{
    if n > 0 {
        lemma_window_count_all(ev, lo, hi, n - 1);
        assert(print_fn()(ev[n - 1]) == is_print(ev[n - 1]));
    }
}

proof fn lemma_between_extremes(ev: Seq<TimelineEvent>, idx: Seq<usize>, a: int, b: int, k: int)
    requires
        a <= k < b,
    ensures
        earliest_in(ev, idx, a, b) <= ev[idx[k] as int].timestamp <= latest_in(ev, idx, a, b),
    decreases b - a,
{
    if b - 1 > a && k < b - 1 {
        lemma_between_extremes(ev, idx, a, b - 1, k);
    } else if b - 1 > a {
        lemma_earliest_le_latest(ev, idx, a, b - 1);
    }
}

/// The success windows partition the prints: with a positive window
/// length, the windows' print counts add up to the number of prints, as
/// the windows are disjoint and together cover every print.
pub proof fn lemma_success_windows_partition(ev: Seq<TimelineEvent>, w: i64)
    requires
        w > 0,
        ev.len() <= usize::MAX,
    ensures
        window_totals(success_windows_spec(ev, w)) == print_indices(ev).len(),
{
    let idx = print_indices(ev);
    if idx.len() > 0 {
        let first = earliest_in(ev, idx, 0, idx.len() as int);
        let last = latest_in(ev, idx, 0, idx.len() as int);
        lemma_earliest_le_latest(ev, idx, 0, idx.len() as int);
        let span_days = (last - first) / (MS_PER_DAY as int);
        let k = span_days / (w as int) + 1;
        assert(last < first + k * w * MS_PER_DAY) by (nonlinear_arith)
            requires
                first <= last,
                span_days == (last - first) / 86_400_000int,
                k == span_days / (w as int) + 1,
                w > 0,
                MS_PER_DAY == 86_400_000,
        {
            assert(last - first < (span_days + 1) * 86_400_000);
            assert(k * w >= span_days + 1);
        }
        assert forall|i: int| 0 <= i < ev.len() && is_print(#[trigger] ev[i]) implies first <= ev[i].timestamp < first + k
            * w * MS_PER_DAY by {
            lemma_indices_where_contains(ev, print_fn(), ev.len(), i as usize);
            assert(print_fn()(ev[i]));
            let j = choose|j: int| 0 <= j < idx.len() && idx[j] == i as usize;
            lemma_between_extremes(ev, idx, 0, idx.len() as int, j);
        }
        lemma_window_count_all(ev, first as int, first + k * w * MS_PER_DAY, ev.len() as int);
        assert(k >= 0) by (nonlinear_arith)
            requires
                first <= last,
                span_days == (last - first) / 86_400_000int,
                k == span_days / (w as int) + 1,
                w > 0,
        ;
        lemma_windows_upto_totals(ev, first as int, w, k);
    }
}

proof fn lemma_successes_le_count(ev: Seq<TimelineEvent>, a: int, b: int, n: int)
    ensures
        window_successes(ev, a, b, n) <= window_count(ev, a, b, n),
    decreases n,
{
    if n > 0 {
        lemma_successes_le_count(ev, a, b, n - 1);
    }
}

/// Rounded shares in thousandths of `s` and `t - s` out of `t`.
proof fn lemma_rounded_shares(s: int, t: int)
    requires
        0 <= s <= t,
        t > 0,
    ensures
        0 <= round_div(1000 * s, t) <= 1000,
        0 <= round_div(1000 * (t - s), t) <= 1000,
        999 <= round_div(1000 * s, t) + round_div(1000 * (t - s), t) <= 1001,
{
    let h = t / 2;
    assert(0 <= h && 2 * h <= t && t <= 2 * h + 1);
    let q1 = (1000 * s + h) / t;
    let q2 = (1000 * (t - s) + h) / t;
    assert(0 <= q1 <= 1000) by (nonlinear_arith)
        requires
            0 <= s <= t,
            t > 0,
            0 <= h,
            2 * h <= t,
            q1 == (1000 * s + h) / t,
    ;
    assert(0 <= q2 <= 1000) by (nonlinear_arith)
        requires
            0 <= s <= t,
            t > 0,
            0 <= h,
            2 * h <= t,
            q2 == (1000 * (t - s) + h) / t,
    ;
    assert(999 <= q1 + q2 <= 1001) by (nonlinear_arith)
        requires
            0 <= s <= t,
            t > 0,
            0 <= h,
            2 * h <= t,
            t <= 2 * h + 1,
            q1 == (1000 * s + h) / t,
            q2 == (1000 * (t - s) + h) / t,
    {
        let r1 = (1000 * s + h) % t;
        let r2 = (1000 * (t - s) + h) % t;
        assert(1000 * s + h == q1 * t + r1 && 0 <= r1 < t);
        assert(1000 * (t - s) + h == q2 * t + r2 && 0 <= r2 < t);
        assert((q1 + q2) * t == 1000 * t + 2 * h - r1 - r2);
        assert((q1 + q2) * t > 998 * t);
        assert((q1 + q2) * t < 1002 * t);
    }
}

/// What every window of the first `k` satisfies.
pub open spec fn window_ok(x: SuccessWindowView, w: i64) -> bool {
    &&& x.total_prints >= 1
    &&& x.window_days == w
    &&& 0 <= x.success_rate_milli <= 1000
    &&& 0 <= x.failure_rate_milli <= 1000
    &&& 999 <= x.success_rate_milli + x.failure_rate_milli <= 1001
}

proof fn lemma_windows_upto_ok(ev: Seq<TimelineEvent>, first: int, w: i64, k: int)
    requires
        ev.len() <= usize::MAX,
    ensures
        forall|i: int| 0 <= i < windows_upto(ev, first, w, k).len() ==> window_ok(#[trigger] windows_upto(ev, first, w, k)[i], w),
    decreases k,
{
    if k > 0 {
        lemma_windows_upto_ok(ev, first, w, k - 1);
        let prev = windows_upto(ev, first, w, k - 1);
        let cur = window_at(ev, first, w, (k - 1) * w);
        let start = first + (k - 1) * w * MS_PER_DAY;
        let end = start + w * MS_PER_DAY;
        let t = window_count(ev, start, end, ev.len() as int);
        let sc = window_successes(ev, start, end, ev.len() as int);
        lemma_window_count_le(ev, start, end, ev.len() as int);
        lemma_successes_le_count(ev, start, end, ev.len() as int);
        if t > 0 {
            lemma_rounded_shares(sc as int, t as int);
            assert(window_ok(cur[0], w));
        }
        let all = prev + cur;
        assert(windows_upto(ev, first, w, k) == all);
        assert forall|i: int| 0 <= i < all.len() implies window_ok(#[trigger] all[i], w) by {
            if i < prev.len() {
                assert(all[i] == prev[i]);
            } else {
                assert(all[i] == cur[i - prev.len()]);
            }
        }
    }
}

/// Every success window holds at least one print, has the asked length
/// and rates in thousandths between 0 and 1000 that add up to 1000 up
/// to rounding; with a positive length there are windows exactly when
/// there are prints.
pub proof fn lemma_success_windows_shape(ev: Seq<TimelineEvent>, w: i64)
    requires
        ev.len() <= usize::MAX,
    ensures
        forall|i: int| 0 <= i < success_windows_spec(ev, w).len() ==> window_ok(#[trigger] success_windows_spec(ev, w)[i], w),
        w > 0 ==> (success_windows_spec(ev, w).len() == 0 <==> print_indices(ev).len() == 0),
{
    let idx = print_indices(ev);
    if idx.len() > 0 && w >= 0 {
        let first = earliest_in(ev, idx, 0, idx.len() as int);
        let last = latest_in(ev, idx, 0, idx.len() as int);
        let span_days = (last - first) / (MS_PER_DAY as int);
        lemma_windows_upto_ok(ev, first as int, w, span_days / (w as int) + 1);
    }
    if w > 0 {
        lemma_success_windows_partition(ev, w);
        if success_windows_spec(ev, w).len() == 0 {
            assert(window_totals(success_windows_spec(ev, w)) == 0);
        }
    }
}

// ---------------------------------------------------------------------

pub(crate) fn print_positions(events: &[TimelineEvent]) -> (idx: Vec<usize>)
    ensures
        idx@ == print_indices(events@),
        forall|k: int| 0 <= k < idx@.len() ==> #[trigger] idx@[k] < events@.len(),
{
    let mut idx: Vec<usize> = Vec::new();
    let mut i: usize = 0;
    while i < events.len()
        invariant
            i <= events@.len(),
            idx@ == indices_where(events@, print_fn(), i as nat),
        decreases events@.len() - i,
    {
        match &events[i].kind {
            TimelineEventKind::PrintHistory(_) => {
                idx.push(i);
            },
            _ => {},
        }
        i = i + 1;
    }
    proof {
        lemma_indices_where_len(events@, print_fn(), events@.len());
    }
    idx
}

pub(crate) fn window_from(events: &[TimelineEvent], idx: &Vec<usize>, a: usize, b: usize) -> (w: TimeWindow)
    requires
        a <= b <= idx@.len(),
        forall|k: int| 0 <= k < idx@.len() ==> #[trigger] idx@[k] < events@.len(),
    ensures
        w == window_of(events@, idx@, a as int, b as int),
        w.successful_prints <= w.total_prints,
        w.total_prints == b - a,
{
    let mut s: u64 = 0;
    let mut lo: i64 = 0;
    let mut hi: i64 = 0;
    let mut k: usize = a;
    while k < b
        invariant
            a <= k <= b,
            b <= idx@.len(),
            forall|j: int| 0 <= j < idx@.len() ==> #[trigger] idx@[j] < events@.len(),
            s == successes_in(events@, idx@, a as int, k as int),
            s <= k - a,
            lo == earliest_in(events@, idx@, a as int, k as int),
            hi == latest_in(events@, idx@, a as int, k as int),
        decreases b - k,
    {
        let e = &events[idx[k]];
        if event_is_success(e) {
            s = s + 1;
        }
        if k == a {
            lo = e.timestamp;
            hi = e.timestamp;
        } else {
            if e.timestamp < lo {
                lo = e.timestamp;
            }
            if e.timestamp > hi {
                hi = e.timestamp;
            }
        }
        k = k + 1;
    }
    TimeWindow {
        start: lo,
        end: hi,
        total_prints: (b - a) as u64,
        successful_prints: s,
        failed_prints: (b - a) as u64 - s,
    }
}

fn rate_of(s: u64, t: u64) -> (r: i64)
    requires
        s <= t,
    ensures
        r == rate_milli(s, t),
        0 <= r <= 1000,
{
    if t > 0 {
        let q = 1000 * (s as u128) + (t as u128) / 2;
        let r = q / (t as u128);
        assert(r <= 1000) by (nonlinear_arith)
            requires
                r as int == q as int / t as int,
                q < 1001 * (t as int),
                t > 0,
        ;
        r as i64
    } else {
        0
    }
}

fn percent_of(s: u64, t: u64) -> (r: u64)
    requires
        s <= t,
    ensures
        r == percent(s, t),
        r <= 100,
{
    if t > 0 {
        let q = 100 * (s as u128) + (t as u128) / 2;
        let r = q / (t as u128);
        assert(r <= 100) by (nonlinear_arith)
            requires
                r as int == q as int / t as int,
                q < 101 * (t as int),
                t > 0,
        ;
        r as u64
    } else {
        0
    }
}

fn mul_u64(a: u64, b: u64) -> (r: u128)
    ensures
        r == a * b,
{
    assert((a as int) * (b as int) <= 0xffff_ffff_ffff_ffff_ffff_ffff_ffff_ffff) by (nonlinear_arith)
        requires
            a <= 0xffff_ffff_ffff_ffff,
            b <= 0xffff_ffff_ffff_ffff,
    ;
    (a as u128) * (b as u128)
}

fn differ_by_a_tenth(before: TimeWindow, after: TimeWindow) -> (b: bool)
    ensures
        b == significant_change(before, after),
{
    let x = mul_u64(after.successful_prints, before.total_prints);
    let y = mul_u64(before.successful_prints, after.total_prints);
    let bound = mul_u64(before.total_prints, after.total_prints);
    let diff: u128 = if x >= y { x - y } else { y - x };
    let tenth = bound / 10;
    proof {
        assert((10 * (diff as int) > bound as int) == (diff as int > tenth as int)) by (nonlinear_arith)
            requires
                tenth as int == bound as int / 10,
                diff >= 0,
                bound >= 0,
        ;
    }
    diff > tenth
}

/// Compares print performance over time.
pub struct PrintAnalyzer;

impl PrintAnalyzer {
    /// Compares the earlier half of the prints with the later half;
    /// `None` with fewer than 10 prints. A change of the success rate by
    /// more than a tenth is reported as significant.
    pub fn compare_recent(events: &[TimelineEvent]) -> (res: Option<PrintComparison>)
        ensures
            res is None <==> print_indices(events@).len() < MIN_PRINTS_FOR_COMPARISON,
            res matches Some(c) ==> compares(events@, c),
    {
        let idx = print_positions(events);
        if idx.len() < MIN_PRINTS_FOR_COMPARISON {
            return None;
        }
        let mid = idx.len() / 2;
        let before = window_from(events, &idx, 0, mid);
        let after = window_from(events, &idx, mid, idx.len());
        let before_rate = rate_of(before.successful_prints, before.total_prints);
        let after_rate = rate_of(after.successful_prints, after.total_prints);
        let significant = differ_by_a_tenth(before, after);
        let mut changes: Vec<String> = Vec::new();
        if significant {
            proof {
                reveal_strlit("Success rate changed from ");
                reveal_strlit("% to ");
                reveal_strlit("%");
            }
            let msg = String::from_str("Success rate changed from ").concat(
                crate::text::u64_to_decimal(percent_of(before.successful_prints, before.total_prints)).as_str(),
            ).concat("% to ").concat(
                crate::text::u64_to_decimal(percent_of(after.successful_prints, after.total_prints)).as_str(),
            ).concat("%");
            changes.push(msg);
            assert(crate::observation::texts(changes@) =~= seq![msg@]);
        } else {
            assert(crate::observation::texts(changes@) =~= Seq::<Seq<char>>::empty());
        }
        Some(
            PrintComparison {
                success_rate_change_milli: after_rate - before_rate,
                avg_duration_change_ms: 0,
                failure_count_before: before.failed_prints,
                failure_count_after: after.failed_prints,
                before_period: before,
                after_period: after,
                significant_changes: changes,
            },
        )
    }

    /// The success windows: starting at the first print, one window of
    /// `window_days` days every `window_days` days up to the last print,
    /// each reported when it holds prints (none for a negative window, and
    /// none at all when there are no prints, whatever the window).
    pub fn success_windows(events: &[TimelineEvent], window_days: i64) -> (res: Vec<SuccessWindow>)
        requires
            window_days != 0 || print_indices(events@).len() == 0,
        ensures
            success_views(res@) == success_windows_spec(events@, window_days),
    {
        let idx = print_positions(events);
        let mut res: Vec<SuccessWindow> = Vec::new();
        if idx.len() == 0 || window_days < 0 {
            assert(success_views(res@) =~= Seq::<SuccessWindowView>::empty());
            return res;
        }
        let all = window_from(events, &idx, 0, idx.len());
        let first = all.start;
        let last = all.end;
        proof {
            lemma_earliest_le_latest(events@, idx@, 0, idx@.len() as int);
        }
        let span_days: i128 = ((last as i128) - (first as i128)) / (MS_PER_DAY as i128);
        let count: i128 = span_days / (window_days as i128) + 1;
        let ghost w = window_days;
        let mut k: i128 = 0;
        assert(success_views(res@) =~= windows_upto(events@, first as int, w, 0));
        while k < count
            invariant
                0 <= k <= count,
                w == window_days,
                window_days > 0,
                0 <= span_days,
                span_days * MS_PER_DAY <= last - first,
                count == (span_days as int) / (window_days as int) + 1,
                success_views(res@) == windows_upto(events@, first as int, w, k as int),
            decreases count - k,
        {
            proof {
                assert(k * window_days <= span_days) by (nonlinear_arith)
                    requires
                        0 <= k < count,
                        count == (span_days as int) / (window_days as int) + 1,
                        window_days > 0,
                        span_days >= 0,
                ;
                assert(k * window_days * MS_PER_DAY <= span_days * MS_PER_DAY) by (nonlinear_arith)
                    requires
                        k * window_days <= span_days,
                        k >= 0,
                        window_days > 0,
                ;
                assert(window_days * MS_PER_DAY <= 0x7fff_ffff_ffff_ffff * 86_400_000) by (nonlinear_arith)
                    requires
                        0 < window_days <= 0x7fff_ffff_ffff_ffff,
                ;
            }
            let offset: i128 = k * (window_days as i128);
            let start: i128 = (first as i128) + offset * (MS_PER_DAY as i128);
            let end: i128 = start + (window_days as i128) * (MS_PER_DAY as i128);
            let (total, successes) = count_window(events, start, end);
            let ghost before = success_views(res@);
            if total > 0 {
                let reason = best_failure_reason(events, start, end);
                let sw = SuccessWindow {
                    window_days,
                    total_prints: total as u64,
                    success_rate_milli: rate_of(successes as u64, total as u64),
                    failure_rate_milli: rate_of((total - successes) as u64, total as u64),
                    most_common_failure: reason,
                };
                res.push(sw);
                assert(success_views(res@) =~= before + window_at(events@, first as int, w, offset as int));
            } else {
                assert(window_at(events@, first as int, w, offset as int) =~= Seq::<SuccessWindowView>::empty());
                assert(before + window_at(events@, first as int, w, offset as int) =~= before);
            }
            k = k + 1;
        }
        res
    }
}

/// At most every print in a range succeeded.
pub proof fn lemma_successes_bound(ev: Seq<TimelineEvent>, idx: Seq<usize>, a: int, b: int)
    ensures
        a <= b ==> successes_in(ev, idx, a, b) <= b - a,
    decreases b - a,
{
    if b > a {
        lemma_successes_bound(ev, idx, a, b - 1);
    }
}

pub proof fn lemma_earliest_le_latest(ev: Seq<TimelineEvent>, idx: Seq<usize>, a: int, b: int)
    ensures
        earliest_in(ev, idx, a, b) <= latest_in(ev, idx, a, b),
    decreases b - a,
{
    if b - 1 > a {
        lemma_earliest_le_latest(ev, idx, a, b - 1);
    }
}

fn event_in_window(e: &TimelineEvent, start: i128, end: i128) -> (b: bool)
    ensures
        b == in_window(*e, start as int, end as int),
{
    match &e.kind {
        TimelineEventKind::PrintHistory(_) => start <= e.timestamp as i128 && (e.timestamp as i128) < end,
        _ => false,
    }
}

/// The prints and the successful prints in `[start, end)`.
fn count_window(events: &[TimelineEvent], start: i128, end: i128) -> (r: (usize, usize))
    ensures
        r.0 == window_count(events@, start as int, end as int, events@.len() as int),
        r.1 == window_successes(events@, start as int, end as int, events@.len() as int),
        r.1 <= r.0,
{
    let mut total: usize = 0;
    let mut successes: usize = 0;
    let mut i: usize = 0;
    while i < events.len()
        invariant
            i <= events@.len(),
            total == window_count(events@, start as int, end as int, i as int),
            successes == window_successes(events@, start as int, end as int, i as int),
            successes <= total <= i,
        decreases events@.len() - i,
    {
        if event_in_window(&events[i], start, end) {
            total = total + 1;
            if event_is_success(&events[i]) {
                successes = successes + 1;
            }
        }
        i = i + 1;
    }
    (total, successes)
}

fn reason_of(e: &TimelineEvent, start: i128, end: i128) -> (r: Option<&String>)
    ensures
        match r {
            Some(s) => failure_reason_in(*e, start as int, end as int) == Some(s@),
            None => failure_reason_in(*e, start as int, end as int) is None,
        },
{
    if !event_in_window(e, start, end) {
        return None;
    }
    match &e.kind {
        TimelineEventKind::PrintHistory(p) => match p.action {
            PrintAction::Failed => match &p.failure_reason {
                Some(s) => Some(s),
                None => None,
            },
            _ => None,
        },
        _ => None,
    }
}

fn count_reason_in(events: &[TimelineEvent], start: i128, end: i128, r: &String) -> (n: usize)
    ensures
        n == reason_count_in(events@, start as int, end as int, r@, events@.len() as int),
{
    let mut n: usize = 0;
    let mut i: usize = 0;
    while i < events.len()
        invariant
            i <= events@.len(),
            n == reason_count_in(events@, start as int, end as int, r@, i as int),
            n <= i,
        decreases events@.len() - i,
    {
        match reason_of(&events[i], start, end) {
            Some(x) => {
                if *x == *r {
                    n = n + 1;
                }
            },
            None => {},
        }
        i = i + 1;
    }
    n
}

fn best_failure_reason(events: &[TimelineEvent], start: i128, end: i128) -> (res: Option<String>)
    ensures
        opt_text(res) == best_reason(events@, start as int, end as int, events@.len() as int),
{
    let mut best: Option<String> = None;
    let mut best_count: usize = 0;
    let mut i: usize = 0;
    while i < events.len()
        invariant
            i <= events@.len(),
            opt_text(best) == best_reason(events@, start as int, end as int, i as int),
            best matches Some(b) ==> best_count == reason_count_in(
                events@,
                start as int,
                end as int,
                b@,
                events@.len() as int,
            ),
        decreases events@.len() - i,
    {
        match reason_of(&events[i], start, end) {
            Some(r) => {
                let c = count_reason_in(events, start, end, r);
                let replace = match &best {
                    None => true,
                    Some(_) => c > best_count,
                };
                if replace {
                    best = Some(r.clone());
                    best_count = c;
                }
            },
            None => {},
        }
        i = i + 1;
    }
    best
}

} // verus!
