//! Strongly-typed filtering of timeline records, newest first.

use vstd::prelude::*;
use vstd::string::*;

use crate::timeline::{TimelineCategory, TimelineEvent, TimelineEventKind, TimelineQuery, category_spec};

verus! {

// ── Newest-first ordering ──────────────────────────────────────────

/// Record `a` comes before record `b` in newest-first order: it is
/// newer, or equally new and recorded earlier.
pub open spec fn newer(ev: Seq<TimelineEvent>, a: usize, b: usize) -> bool {
    ev[a as int].timestamp > ev[b as int].timestamp || (ev[a as int].timestamp
        == ev[b as int].timestamp && a < b)
}

/// `s` with `x` placed before the first element that it precedes.
pub open spec fn insert_newest(ev: Seq<TimelineEvent>, x: usize, s: Seq<usize>) -> Seq<usize>
    decreases s.len(),
{
    if s.len() == 0 {
        seq![x]
    } else if newer(ev, x, s[0]) {
        seq![x] + s
    } else {
        seq![s[0]] + insert_newest(ev, x, s.drop_first())
    }
}

/// The record indices `s` in newest-first order (a stable sort by
/// timestamp, newest first).
pub open spec fn newest_first(ev: Seq<TimelineEvent>, s: Seq<usize>) -> Seq<usize>
    decreases s.len(),
{
    if s.len() == 0 {
        seq![]
    } else {
        insert_newest(ev, s.last(), newest_first(ev, s.drop_last()))
    }
}

/// The first position in `s` whose element `x` precedes.
pub open spec fn insert_position(ev: Seq<TimelineEvent>, x: usize, s: Seq<usize>) -> nat
    decreases s.len(),
{
    if s.len() == 0 {
        0
    } else if newer(ev, x, s[0]) {
        0
    } else {
        insert_position(ev, x, s.drop_first()) + 1
    }
}

proof fn lemma_insert_position(ev: Seq<TimelineEvent>, x: usize, s: Seq<usize>)
    ensures
        insert_position(ev, x, s) <= s.len(),
        insert_newest(ev, x, s) == s.insert(insert_position(ev, x, s) as int, x),
        forall|j: int| 0 <= j < insert_position(ev, x, s) ==> !newer(ev, x, #[trigger] s[j]),
        insert_position(ev, x, s) < s.len() ==> newer(ev, x, s[insert_position(ev, x, s) as int]),
    decreases s.len(),
{
    if s.len() == 0 {
        assert(s.insert(0, x) =~= seq![x]);
    } else if newer(ev, x, s[0]) {
        assert(s.insert(0, x) =~= seq![x] + s);
    } else {
        lemma_insert_position(ev, x, s.drop_first());
        let p = insert_position(ev, x, s.drop_first());
        assert(s.insert((p + 1) as int, x) =~= seq![s[0]] + s.drop_first().insert(p as int, x));
        assert forall|j: int| 0 <= j < p + 1 implies !newer(ev, x, #[trigger] s[j]) by {
            if j > 0 {
                assert(s[j] == s.drop_first()[j - 1]);
            }
        }
    }
}

/// Sorts record indices newest first.
pub fn sort_newest_first(events: &[TimelineEvent], idxs: &Vec<usize>) -> (res: Vec<usize>)
    requires
        forall|k: int| 0 <= k < idxs@.len() ==> #[trigger] idxs@[k] < events@.len(),
    ensures
        res@ == newest_first(events@, idxs@),
{
    let mut res: Vec<usize> = Vec::new();
    let mut k: usize = 0;
    while k < idxs.len()
        invariant
            k <= idxs@.len(),
            forall|m: int| 0 <= m < idxs@.len() ==> #[trigger] idxs@[m] < events@.len(),
            res@ == newest_first(events@, idxs@.take(k as int)),
            forall|m: int| 0 <= m < res@.len() ==> #[trigger] res@[m] < events@.len(),
        decreases idxs@.len() - k,
    {
        let x = idxs[k];
        assert(idxs@.take(k + 1).drop_last() =~= idxs@.take(k as int));
        assert(idxs@.take(k + 1).last() == x);
        proof {
            lemma_insert_position(events@, x, res@);
        }
        let mut p: usize = 0;
        while p < res.len()
            invariant_except_break
                p <= res@.len(),
                x < events@.len(),
                forall|m: int| 0 <= m < res@.len() ==> #[trigger] res@[m] < events@.len(),
                forall|j: int| 0 <= j < p ==> !newer(events@, x, #[trigger] res@[j]),
            ensures
                p <= res@.len(),
                forall|j: int| 0 <= j < p ==> !newer(events@, x, #[trigger] res@[j]),
                p < res@.len() ==> newer(events@, x, res@[p as int]),
            decreases res@.len() - p,
        {
            let y = res[p];
            let tx = events[x].timestamp;
            let ty = events[y].timestamp;
            if tx > ty || (tx == ty && x < y) {
                break;
            }
            p = p + 1;
        }
        assert(p == insert_position(events@, x, res@)) by {
            if p < insert_position(events@, x, res@) {
                assert(!newer(events@, x, res@[p as int]));
            } else if p > insert_position(events@, x, res@) {
                let q = insert_position(events@, x, res@) as int;
                assert(!newer(events@, x, res@[q]));
            }
        }
        res.insert(p, x);
        k = k + 1;
    }
    assert(idxs@.take(k as int) =~= idxs@);
    res
}

// ── Matching ───────────────────────────────────────────────────────

/// Whether a record satisfies every criterion a query sets.
pub open spec fn query_matches(e: TimelineEvent, q: TimelineQuery) -> bool {
    &&& match q.printer_id {
        Some(p) => e.printer_id@ == p@,
        None => true,
    }
    &&& match q.categories {
        Some(cs) => cs@.contains(category_spec(e.kind)),
        None => true,
    }
    &&& match q.component_id {
        Some(c) => match e.kind {
            TimelineEventKind::Hardware(hw) => hw.component_id@ == c@,
            TimelineEventKind::Maintenance(m) => m.component@ == c@,
            _ => false,
        },
        None => true,
    }
    &&& match q.from {
        Some(f) => e.timestamp >= f,
        None => true,
    }
    &&& match q.to {
        Some(t) => e.timestamp <= t,
        None => true,
    }
}

/// The indices below `n` of records that satisfy `f`, in recording order.
pub open spec fn indices_where(
    ev: Seq<TimelineEvent>,
    f: spec_fn(TimelineEvent) -> bool,
    n: nat,
) -> Seq<usize>
    decreases n,
{
    if n == 0 {
        seq![]
    } else if f(ev[n - 1]) {
        indices_where(ev, f, (n - 1) as nat).push((n - 1) as usize)
    } else {
        indices_where(ev, f, (n - 1) as nat)
    }
}

/// The indices below `n` of records that match a query, in recording order.
pub open spec fn matching_indices(ev: Seq<TimelineEvent>, q: TimelineQuery, n: nat) -> Seq<usize> {
    indices_where(ev, |e: TimelineEvent| query_matches(e, q), n)
}

/// Records of printer `p` in category `c`.
pub open spec fn printer_category(p: Seq<char>, c: TimelineCategory) -> spec_fn(TimelineEvent) -> bool {
    |e: TimelineEvent| e.printer_id@ == p && category_spec(e.kind) == c
}

/// Records of printer `p` from `from` to `to`, inclusive.
pub open spec fn printer_between(p: Seq<char>, from: i64, to: i64) -> spec_fn(TimelineEvent) -> bool {
    |e: TimelineEvent| e.printer_id@ == p && from <= e.timestamp <= to
}

/// The indices of a query's answer: the matching records newest first,
/// after skipping `offset` and keeping at most `limit`.
pub open spec fn query_indices(ev: Seq<TimelineEvent>, q: TimelineQuery) -> Seq<usize> {
    let sorted = newest_first(ev, matching_indices(ev, q, ev.len()));
    let offset = match q.offset {
        Some(o) => o as int,
        None => 0,
    };
    let limit = match q.limit {
        Some(l) => l as int,
        None => usize::MAX as int,
    };
    let start = if offset < sorted.len() { offset } else { sorted.len() as int };
    let end = if start + limit < sorted.len() { start + limit } else { sorted.len() as int };
    sorted.subrange(start, end)
}

fn category_listed(cats: &Vec<TimelineCategory>, c: TimelineCategory) -> (b: bool)
    ensures
        b == cats@.contains(c),
{
    let mut i: usize = 0;
    while i < cats.len()
        invariant
            i <= cats@.len(),
            forall|j: int| 0 <= j < i ==> cats@[j] != c,
        decreases cats@.len() - i,
    {
        if cats[i] == c {
            return true;
        }
        i = i + 1;
    }
    false
}

/// Filters timeline records against a [`TimelineQuery`].
pub struct TimelineQueryEngine;

impl TimelineQueryEngine {
    /// Whether a single record matches the query.
    pub fn matches(event: &TimelineEvent, query: &TimelineQuery) -> (b: bool)
        ensures
            b == query_matches(*event, *query),
    {
        match &query.printer_id {
            Some(p) => {
                if event.printer_id != *p {
                    return false;
                }
            },
            None => {},
        }
        match &query.categories {
            Some(cats) => {
                if !category_listed(cats, TimelineCategory::from_kind(&event.kind)) {
                    return false;
                }
            },
            None => {},
        }
        match &query.component_id {
            Some(c) => {
                let ok = match &event.kind {
                    TimelineEventKind::Hardware(hw) => hw.component_id == *c,
                    TimelineEventKind::Maintenance(m) => m.component == *c,
                    _ => false,
                };
                if !ok {
                    return false;
                }
            },
            None => {},
        }
        match query.from {
            Some(f) => {
                if event.timestamp < f {
                    return false;
                }
            },
            None => {},
        }
        match query.to {
            Some(t) => {
                if event.timestamp > t {
                    return false;
                }
            },
            None => {},
        }
        true
    }

    /// The records that match, newest first, after `offset` and `limit`.
    pub fn query<'a>(events: &'a [TimelineEvent], query: &TimelineQuery) -> (res: Vec<
        &'a TimelineEvent,
    >)
        ensures
            res@.len() == query_indices(events@, *query).len(),
            forall|k: int|
                0 <= k < res@.len() ==> *#[trigger] res@[k] == events@[query_indices(
                    events@,
                    *query,
                )[k] as int],
            forall|a: int, b: int|
                0 <= a < b < res@.len() ==> (#[trigger] res@[a]).timestamp >= (#[trigger] res@[b]).timestamp,
            query.limit matches Some(l) ==> res@.len() <= l,
    {
        let mut idxs: Vec<usize> = Vec::new();
        let mut i: usize = 0;
        while i < events.len()
            invariant
                i <= events@.len(),
                idxs@ == matching_indices(events@, *query, i as nat),
                forall|m: int| 0 <= m < idxs@.len() ==> #[trigger] idxs@[m] < i,
            decreases events@.len() - i,
        {
            if Self::matches(&events[i], query) {
                idxs.push(i);
            }
            i = i + 1;
        }
        let sorted = sort_newest_first(events, &idxs);
        proof {
            lemma_newest_first_elements(events@, idxs@);
            assert forall|m: int| 0 <= m < sorted@.len() implies #[trigger] sorted@[m] < events@.len() by {
                assert(sorted@.contains(sorted@[m]));
                let j = choose|j: int| 0 <= j < idxs@.len() && idxs@[j] == sorted@[m];
            }
        }
        let offset: usize = match query.offset {
            Some(o) => o,
            None => 0,
        };
        let limit: usize = match query.limit {
            Some(l) => l,
            None => usize::MAX,
        };
        let n = sorted.len();
        let start: usize = if offset < n { offset } else { n };
        let end: usize = if limit < n - start { start + limit } else { n };
        let mut res: Vec<&'a TimelineEvent> = Vec::new();
        let mut k: usize = start;
        while k < end
            invariant
                start <= k <= end <= n,
                n == sorted@.len(),
                sorted@ == newest_first(events@, matching_indices(events@, *query, events@.len())),
                forall|m: int| 0 <= m < n ==> #[trigger] sorted@[m] < events@.len(),
                res@.len() == k - start,
                forall|m: int|
                    0 <= m < res@.len() ==> *#[trigger] res@[m] == events@[sorted@[start + m] as int],
            decreases end - k,
        {
            res.push(&events[sorted[k]]);
            k = k + 1;
        }
        proof {
            let q = query_indices(events@, *query);
            assert(q =~= sorted@.subrange(start as int, end as int));
            lemma_newest_first_sorted(events@, matching_indices(events@, *query, events@.len()));
            assert forall|a: int, b: int| 0 <= a < b < res@.len() implies (#[trigger] res@[a]).timestamp >= (
            #[trigger] res@[b]).timestamp by {
                assert(res@[a] == events@[sorted@[start + a] as int]);
                assert(res@[b] == events@[sorted@[start + b] as int]);
            }
        }
        res
    }

    /// The newest record of a category for a printer.
    pub fn last_event_by_category<'a>(
        events: &'a [TimelineEvent],
        printer_id: &str,
        category: TimelineCategory,
    ) -> (res: Option<&'a TimelineEvent>)
        ensures
            ({
                let s = newest_first(
                    events@,
                    indices_where(events@, printer_category(printer_id@, category), events@.len()),
                );
                match res {
                    Some(e) => s.len() > 0 && *e == events@[s[0] as int],
                    None => s.len() == 0,
                }
            }),
    {
        let mut cats = Vec::new();
        cats.push(category);
        let q = TimelineQuery {
            printer_id: Some(String::from_str(printer_id)),
            categories: Some(cats),
            component_id: None,
            from: None,
            to: None,
            limit: Some(1),
            offset: None,
        };
        proof {
            assert((|e: TimelineEvent| query_matches(e, q)) =~= printer_category(printer_id@, category)) by {
                assert forall|e: TimelineEvent| #[trigger] query_matches(e, q) == printer_category(printer_id@, category)(e) by {
                    if q.categories.unwrap()@.contains(category_spec(e.kind)) {
                        let j = choose|j: int| 0 <= j < q.categories.unwrap()@.len() && q.categories.unwrap()@[j] == category_spec(e.kind);
                        assert(j == 0);
                    }
                    if category_spec(e.kind) == category {
                        assert(q.categories.unwrap()@[0] == category);
                    }
                }
            }
            lemma_newest_first_elements(events@, matching_indices(events@, q, events@.len()));
        }
        let found = Self::query(events, &q);
        if found.len() > 0 {
            Some(found[0])
        } else {
            None
        }
    }

    /// The records of a printer from `from` to `to` (inclusive), newest
    /// first.
    pub fn in_time_range<'a>(
        events: &'a [TimelineEvent],
        printer_id: &str,
        from: i64,
        to: i64,
    ) -> (res: Vec<&'a TimelineEvent>)
        ensures
            ({
                let s = newest_first(
                    events@,
                    indices_where(events@, printer_between(printer_id@, from, to), events@.len()),
                );
                res@.len() == s.len() && forall|k: int|
                    0 <= k < res@.len() ==> *#[trigger] res@[k] == events@[s[k] as int]
            }),
    {
        let q = TimelineQuery {
            printer_id: Some(String::from_str(printer_id)),
            categories: None,
            component_id: None,
            from: Some(from),
            to: Some(to),
            limit: None,
            offset: None,
        };
        let total = events.len();
        proof {
            assert((|e: TimelineEvent| query_matches(e, q)) =~= printer_between(printer_id@, from, to));
            lemma_newest_first_elements(events@, matching_indices(events@, q, events@.len()));
            lemma_indices_where_len(events@, printer_between(printer_id@, from, to), events@.len());
            let s = newest_first(
                events@,
                indices_where(events@, printer_between(printer_id@, from, to), events@.len()),
            );
            assert(matching_indices(events@, q, events@.len()) == indices_where(events@, printer_between(printer_id@, from, to), events@.len()));
            lemma_newest_first_elements(events@, indices_where(events@, printer_between(printer_id@, from, to), events@.len()));
            assert(s.len() <= events@.len());
            assert(total == events@.len());
            assert(query_indices(events@, q) =~= s);
        }
        Self::query(events, &q)
    }
}

/// There are at most `n` indices below `n`.
pub proof fn lemma_indices_where_len(ev: Seq<TimelineEvent>, f: spec_fn(TimelineEvent) -> bool, n: nat)
    ensures
        indices_where(ev, f, n).len() <= n,
        forall|k: int| 0 <= k < indices_where(ev, f, n).len() ==> #[trigger] indices_where(ev, f, n)[k] < n,
    decreases n,
{
    if n > 0 {
        lemma_indices_where_len(ev, f, (n - 1) as nat);
    }
}

/// Indices below `n` do not depend on records at or after `n`.
pub proof fn lemma_indices_where_prefix(
    ev1: Seq<TimelineEvent>,
    ev2: Seq<TimelineEvent>,
    f: spec_fn(TimelineEvent) -> bool,
    n: nat,
)
    requires
        n <= ev1.len(),
        n <= ev2.len(),
        forall|i: int| 0 <= i < n ==> ev1[i] == ev2[i],
    ensures
        indices_where(ev1, f, n) == indices_where(ev2, f, n),
    decreases n,
{
    if n > 0 {
        lemma_indices_where_prefix(ev1, ev2, f, (n - 1) as nat);
    }
}

/// Without a satisfying record below `n` there is no index.
pub proof fn lemma_indices_where_none(ev: Seq<TimelineEvent>, f: spec_fn(TimelineEvent) -> bool, n: nat)
    requires
        n <= ev.len(),
        forall|i: int| 0 <= i < n ==> !f(#[trigger] ev[i]),
    ensures
        indices_where(ev, f, n) == Seq::<usize>::empty(),
    decreases n,
{
    if n > 0 {
        lemma_indices_where_none(ev, f, (n - 1) as nat);
    }
}

/// Appending a record extends exactly the lists it satisfies.
pub proof fn lemma_indices_where_push(ev: Seq<TimelineEvent>, e: TimelineEvent, f: spec_fn(TimelineEvent) -> bool)
    ensures
        indices_where(ev.push(e), f, ev.len() + 1) == if f(e) {
            indices_where(ev, f, ev.len()).push(ev.len() as usize)
        } else {
            indices_where(ev, f, ev.len())
        },
{
    lemma_indices_where_prefix(ev.push(e), ev, f, ev.len());
    assert(ev.push(e)[ev.len() as int] == e);
}

// ── Laws of the ordering ───────────────────────────────────────────

/// Inserting keeps every element and adds `x`.
pub proof fn lemma_insert_newest_elements(ev: Seq<TimelineEvent>, x: usize, s: Seq<usize>)
    ensures
        insert_newest(ev, x, s).len() == s.len() + 1,
        forall|y: usize| #[trigger] insert_newest(ev, x, s).contains(y) <==> (y == x || s.contains(y)),
{
    lemma_insert_position(ev, x, s);
    let p = insert_position(ev, x, s) as int;
    assert forall|y: usize| #[trigger] insert_newest(ev, x, s).contains(y) <==> (y == x || s.contains(y)) by {
        let r = s.insert(p, x);
        if r.contains(y) {
            let j = choose|j: int| 0 <= j < r.len() && r[j] == y;
            if j < p {
                assert(s[j] == y);
            } else if j > p {
                assert(s[j - 1] == y);
            }
        }
        if s.contains(y) {
            let j = choose|j: int| 0 <= j < s.len() && s[j] == y;
            if j < p {
                assert(r[j] == y);
            } else {
                assert(r[j + 1] == y);
            }
        }
        if y == x {
            assert(r[p] == x);
        }
    }
}

/// Newest-first order holds exactly the given indices.
pub proof fn lemma_newest_first_elements(ev: Seq<TimelineEvent>, s: Seq<usize>)
    ensures
        newest_first(ev, s).len() == s.len(),
        forall|y: usize| #[trigger] newest_first(ev, s).contains(y) <==> s.contains(y),
    decreases s.len(),
{
    if s.len() > 0 {
        lemma_newest_first_elements(ev, s.drop_last());
        lemma_insert_newest_elements(ev, s.last(), newest_first(ev, s.drop_last()));
        assert forall|y: usize| #[trigger] newest_first(ev, s).contains(y) <==> s.contains(y) by {
            if s.contains(y) && y != s.last() {
                let j = choose|j: int| 0 <= j < s.len() && s[j] == y;
                assert(s.drop_last()[j] == y);
            }
            if s.drop_last().contains(y) {
                let j = choose|j: int| 0 <= j < s.drop_last().len() && s.drop_last()[j] == y;
                assert(s[j] == y);
            }
            if y == s.last() {
                assert(s[s.len() - 1] == y);
            }
        }
    }
}

/// An index is listed exactly when it is below `n` and its record
/// satisfies `f`.
pub proof fn lemma_indices_where_contains(ev: Seq<TimelineEvent>, f: spec_fn(TimelineEvent) -> bool, n: nat, y: usize)
    requires
        n <= ev.len(),
        ev.len() <= usize::MAX,
    ensures
        indices_where(ev, f, n).contains(y) <==> (y < n && f(ev[y as int])),
    decreases n,
{
    if n > 0 {
        lemma_indices_where_contains(ev, f, (n - 1) as nat, y);
        let prev = indices_where(ev, f, (n - 1) as nat);
        if f(ev[n - 1]) {
            let cur = prev.push((n - 1) as usize);
            if prev.contains(y) {
                let j = choose|j: int| 0 <= j < prev.len() && prev[j] == y;
                assert(cur[j] == y);
            }
            if y == n - 1 {
                assert(cur[prev.len() as int] == y);
            }
            if cur.contains(y) && y != n - 1 {
                let j = choose|j: int| 0 <= j < cur.len() && cur[j] == y;
                assert(j < prev.len());
                assert(prev[j] == y);
            }
        }
    }
}

/// The query filter: every record a query returns satisfies every
/// criterion of the query, and without an offset or a limit every
/// record that satisfies them is returned.
pub proof fn lemma_query_filter(ev: Seq<TimelineEvent>, q: TimelineQuery)
    requires
        ev.len() <= usize::MAX,
    ensures
        forall|k: int|
            0 <= k < query_indices(ev, q).len() ==> (#[trigger] query_indices(ev, q)[k]) < ev.len()
                && query_matches(ev[query_indices(ev, q)[k] as int], q),
        q.offset is None && q.limit is None ==> forall|i: int|
            0 <= i < ev.len() && #[trigger] query_matches(ev[i], q) ==> query_indices(ev, q).contains(i as usize),
{
    let f = |e: TimelineEvent| query_matches(e, q);
    let m = matching_indices(ev, q, ev.len());
    let sorted = newest_first(ev, m);
    lemma_newest_first_elements(ev, m);
    let r = query_indices(ev, q);
    assert forall|k: int| 0 <= k < r.len() implies (#[trigger] r[k]) < ev.len() && query_matches(ev[r[k] as int], q) by {
        let offset = match q.offset {
            Some(o) => o as int,
            None => 0,
        };
        let start = if offset < sorted.len() { offset } else { sorted.len() as int };
        assert(r[k] == sorted[start + k]);
        assert(sorted.contains(r[k]));
        assert(m.contains(r[k]));
        lemma_indices_where_contains(ev, f, ev.len(), r[k]);
    }
    if q.offset is None && q.limit is None {
        assert forall|i: int| 0 <= i < ev.len() && #[trigger] query_matches(ev[i], q) implies r.contains(i as usize) by {
            lemma_indices_where_contains(ev, f, ev.len(), i as usize);
            assert(m.contains(i as usize));
            assert(sorted.contains(i as usize));
            let j = choose|j: int| 0 <= j < sorted.len() && sorted[j] == i as usize;
            assert(sorted.len() <= usize::MAX) by {
                lemma_indices_where_len(ev, f, ev.len());
            }
            assert(r =~= sorted);
            assert(r[j] == i as usize);
        }
    }
}

proof fn lemma_indices_where_all(ev: Seq<TimelineEvent>, f: spec_fn(TimelineEvent) -> bool, n: nat)
    requires
        n <= ev.len(),
        forall|i: int| 0 <= i < n ==> f(#[trigger] ev[i]),
    ensures
        indices_where(ev, f, n).len() == n,
    decreases n,
{
    if n > 0 {
        lemma_indices_where_all(ev, f, (n - 1) as nat);
    }
}

/// A query that sets no criterion, offset or limit (the default query)
/// returns every record, newest first.
pub proof fn lemma_query_everything(ev: Seq<TimelineEvent>, q: TimelineQuery)
    requires
        ev.len() <= usize::MAX,
        q.printer_id is None,
        q.categories is None,
        q.component_id is None,
        q.from is None,
        q.to is None,
        q.offset is None,
        q.limit is None,
    ensures
        query_indices(ev, q).len() == ev.len(),
        forall|i: usize| i < ev.len() ==> #[trigger] query_indices(ev, q).contains(i),
        ordered_newest_first(ev, query_indices(ev, q)),
{
    let f = |e: TimelineEvent| query_matches(e, q);
    lemma_indices_where_all(ev, f, ev.len());
    let m = matching_indices(ev, q, ev.len());
    lemma_newest_first_elements(ev, m);
    lemma_newest_first_sorted(ev, m);
    let sorted = newest_first(ev, m);
    assert(query_indices(ev, q) =~= sorted);
    lemma_query_filter(ev, q);
    assert forall|i: usize| i < ev.len() implies #[trigger] query_indices(ev, q).contains(i) by {
        assert(query_matches(ev[i as int], q));
    }
}

/// Timestamps never increase along `r`: newest first.
pub open spec fn ordered_newest_first(ev: Seq<TimelineEvent>, r: Seq<usize>) -> bool {
    forall|i: int, j: int|
        0 <= i < j < r.len() ==> ev[#[trigger] r[i] as int].timestamp >= ev[#[trigger] r[j] as int].timestamp
}

proof fn lemma_insert_keeps_order(ev: Seq<TimelineEvent>, x: usize, s: Seq<usize>)
    requires
        ordered_newest_first(ev, s),
    ensures
        ordered_newest_first(ev, insert_newest(ev, x, s)),
{
    lemma_insert_position(ev, x, s);
    let p = insert_position(ev, x, s) as int;
    let r = s.insert(p, x);
    assert forall|i: int, j: int| 0 <= i < j < r.len() implies ev[#[trigger] r[i] as int].timestamp >= ev[
        #[trigger] r[j] as int].timestamp by {
        if j < p {
            assert(r[i] == s[i] && r[j] == s[j]);
        } else if j == p {
            assert(r[i] == s[i] && r[j] == x);
            assert(!newer(ev, x, s[i]));
        } else if i < p {
            assert(r[i] == s[i] && r[j] == s[j - 1]);
        } else if i == p {
            assert(r[i] == x && r[j] == s[j - 1]);
            assert(newer(ev, x, s[p]));
            if j - 1 > p {
                assert(ev[s[p] as int].timestamp >= ev[s[j - 1] as int].timestamp);
            }
        } else {
            assert(r[i] == s[i - 1] && r[j] == s[j - 1]);
        }
    }
}

/// Newest-first order is sorted by timestamp, newest first.
pub proof fn lemma_newest_first_sorted(ev: Seq<TimelineEvent>, s: Seq<usize>)
    ensures
        ordered_newest_first(ev, newest_first(ev, s)),
    decreases s.len(),
{
    if s.len() > 0 {
        lemma_newest_first_sorted(ev, s.drop_last());
        lemma_insert_keeps_order(ev, s.last(), newest_first(ev, s.drop_last()));
    }
}

} // verus!
