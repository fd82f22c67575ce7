//! The append-only timeline store, indexed by printer and by category.

use vstd::prelude::*;
use vstd::string::*;

use crate::query::{indices_where, newest_first, sort_newest_first, lemma_indices_where_len, lemma_indices_where_none, lemma_indices_where_push, lemma_newest_first_elements, lemma_newest_first_sorted};
use crate::timeline::{TimelineCategory, TimelineEvent, TimelineEventKind, TimelineEventSource, category_spec};

verus! {

/// Records of printer `p`.
pub open spec fn of_printer(p: Seq<char>) -> spec_fn(TimelineEvent) -> bool {
    |e: TimelineEvent| e.printer_id@ == p
}

/// Records in category `c`.
pub open spec fn of_category(c: TimelineCategory) -> spec_fn(TimelineEvent) -> bool {
    |e: TimelineEvent| category_spec(e.kind) == c
}

spec fn has_printer_entry(bp: Seq<PrinterIndex>, p: Seq<char>) -> bool {
    exists|k: int| 0 <= k < bp.len() && (#[trigger] bp[k]).printer_id@ == p
}

spec fn has_category_entry(bc: Seq<CategoryIndex>, c: TimelineCategory) -> bool {
    exists|k: int| 0 <= k < bc.len() && (#[trigger] bc[k]).category == c
}

struct PrinterIndex {
    printer_id: String,
    positions: Vec<usize>,
}

struct CategoryIndex {
    category: TimelineCategory,
    positions: Vec<usize>,
}

/// The append-only event log of the timeline.
///
/// Records are appended and never changed. The store keeps, for every
/// printer and every category, the positions of its records.
pub struct TimelineStore {
    events: Vec<TimelineEvent>,
    index_by_printer: Vec<PrinterIndex>,
    index_by_category: Vec<CategoryIndex>,
}

impl View for TimelineStore {
    type V = Seq<TimelineEvent>;

    closed spec fn view(&self) -> Seq<TimelineEvent> {
        self.events@
    }
}

impl TimelineStore {
    /// Every index entry lists exactly the positions of its records, no
    /// key occurs twice, and every record has its entries.
    #[verifier::type_invariant]
    closed spec fn well_formed(self) -> bool {
        let ev = self.events@;
        let bp = self.index_by_printer@;
        let bc = self.index_by_category@;
        &&& forall|k: int| 0 <= k < bp.len() ==> (#[trigger] bp[k]).positions@ == indices_where(
            ev,
            of_printer(bp[k].printer_id@),
            ev.len(),
        )
        &&& forall|k1: int, k2: int|
            0 <= k1 < bp.len() && 0 <= k2 < bp.len() && k1 != k2 ==> (#[trigger] bp[k1]).printer_id@
                != (#[trigger] bp[k2]).printer_id@
        &&& forall|i: int| 0 <= i < ev.len() ==> has_printer_entry(bp, (#[trigger] ev[i]).printer_id@)
        &&& forall|k: int| 0 <= k < bc.len() ==> (#[trigger] bc[k]).positions@ == indices_where(
            ev,
            of_category(bc[k].category),
            ev.len(),
        )
        &&& forall|k1: int, k2: int|
            0 <= k1 < bc.len() && 0 <= k2 < bc.len() && k1 != k2 ==> (#[trigger] bc[k1]).category
                != (#[trigger] bc[k2]).category
        &&& forall|i: int| 0 <= i < ev.len() ==> has_category_entry(bc, category_spec((#[trigger] ev[i]).kind))
    }

    pub fn new() -> (s: Self)
        ensures
            s@ == Seq::<TimelineEvent>::empty(),
    {
        TimelineStore { events: Vec::new(), index_by_printer: Vec::new(), index_by_category: Vec::new() }
    }

    /// Appends one record and indexes it.
    #[verifier::spinoff_prover]
    #[verifier::rlimit(60)]
    fn append(&mut self, event: TimelineEvent)
        ensures
            final(self)@ == old(self)@.push(event),
    {
        let mut tmp = TimelineStore::new();
        std::mem::swap(self, &mut tmp);
        proof {
            use_type_invariant(&tmp);
        }
        let TimelineStore { mut events, mut index_by_printer, mut index_by_category } = tmp;
        let ghost ev = events@;
        let ghost bp = index_by_printer@;
        let ghost bc = index_by_category@;
        let n = events.len();
        let ghost evp = ev.push(event);

        // Printer index.
        let mut k: usize = 0;
        while k < index_by_printer.len()
            invariant_except_break
                k <= bp.len(),
                index_by_printer@ == bp,
                forall|j: int| 0 <= j < k ==> (#[trigger] bp[j]).printer_id@ != event.printer_id@,
            ensures
                k <= bp.len(),
                index_by_printer@ == bp,
                forall|j: int| 0 <= j < k ==> (#[trigger] bp[j]).printer_id@ != event.printer_id@,
                k < bp.len() ==> bp[k as int].printer_id@ == event.printer_id@,
            decreases bp.len() - k,
        {
            if index_by_printer[k].printer_id == event.printer_id {
                break;
            }
            k = k + 1;
        }
        if k < index_by_printer.len() {
            let mut entry = index_by_printer.remove(k);
            entry.positions.push(n);
            index_by_printer.insert(k, entry);
        } else {
            let mut positions = Vec::new();
            positions.push(n);
            index_by_printer.push(PrinterIndex { printer_id: event.printer_id.clone(), positions });
        }
        proof {
            let nbp = index_by_printer@;
            assert forall|j: int| 0 <= j < nbp.len() implies (#[trigger] nbp[j]).positions@ == indices_where(
                evp,
                of_printer(nbp[j].printer_id@),
                evp.len(),
            ) by {
                lemma_indices_where_push(ev, event, of_printer(nbp[j].printer_id@));
                if j == bp.len() {
                    assert forall|i: int| 0 <= i < ev.len() implies !of_printer(event.printer_id@)(#[trigger] ev[i]) by {
                        assert(has_printer_entry(bp, ev[i].printer_id@));
                        let kk = choose|kk: int| 0 <= kk < bp.len() && (#[trigger] bp[kk]).printer_id@ == ev[i].printer_id@;
                    }
                    lemma_indices_where_none(ev, of_printer(event.printer_id@), ev.len());
                    assert(nbp[j].positions@ =~= seq![n]);
                } else if j != k {
                    assert(nbp[j] == bp[j]);
                    if k < bp.len() {
                        assert(bp[j].printer_id@ != bp[k as int].printer_id@);
                    }
                }
            }
            assert forall|k1: int, k2: int|
                0 <= k1 < nbp.len() && 0 <= k2 < nbp.len() && k1 != k2 implies (#[trigger] nbp[k1]).printer_id@
                    != (#[trigger] nbp[k2]).printer_id@ by {
                if k1 < bp.len() && k2 < bp.len() {
                    assert(nbp[k1].printer_id@ == bp[k1].printer_id@);
                    assert(nbp[k2].printer_id@ == bp[k2].printer_id@);
                } else if k1 < bp.len() {
                    assert(nbp[k1] == bp[k1]);
                } else {
                    assert(nbp[k2] == bp[k2]);
                }
            }
            assert forall|i: int| 0 <= i < evp.len() implies has_printer_entry(nbp, (#[trigger] evp[i]).printer_id@) by {
                if i < ev.len() {
                    assert(has_printer_entry(bp, ev[i].printer_id@));
                    let kk = choose|kk: int| 0 <= kk < bp.len() && (#[trigger] bp[kk]).printer_id@ == ev[i].printer_id@;
                    assert(nbp[kk].printer_id@ == bp[kk].printer_id@);
                } else if k < bp.len() {
                    assert(nbp[k as int].printer_id@ == evp[i].printer_id@);
                } else {
                    assert(nbp[bp.len() as int].printer_id@ == evp[i].printer_id@);
                }
            }
        }

        // Category index.
        let cat = TimelineCategory::from_kind(&event.kind);
        let mut c: usize = 0;
        while c < index_by_category.len()
            invariant_except_break
                c <= bc.len(),
                index_by_category@ == bc,
                forall|j: int| 0 <= j < c ==> (#[trigger] bc[j]).category != cat,
            ensures
                c <= bc.len(),
                index_by_category@ == bc,
                forall|j: int| 0 <= j < c ==> (#[trigger] bc[j]).category != cat,
                c < bc.len() ==> bc[c as int].category == cat,
            decreases bc.len() - c,
        {
            if index_by_category[c].category == cat {
                break;
            }
            c = c + 1;
        }
        if c < index_by_category.len() {
            let mut entry = index_by_category.remove(c);
            entry.positions.push(n);
            index_by_category.insert(c, entry);
        } else {
            let mut positions = Vec::new();
            positions.push(n);
            index_by_category.push(CategoryIndex { category: cat, positions });
        }
        proof {
            let nbc = index_by_category@;
            assert forall|j: int| 0 <= j < nbc.len() implies (#[trigger] nbc[j]).positions@ == indices_where(
                evp,
                of_category(nbc[j].category),
                evp.len(),
            ) by {
                lemma_indices_where_push(ev, event, of_category(nbc[j].category));
                if j == bc.len() {
                    assert forall|i: int| 0 <= i < ev.len() implies !of_category(cat)(#[trigger] ev[i]) by {
                        assert(has_category_entry(bc, category_spec(ev[i].kind)));
                        let kk = choose|kk: int| 0 <= kk < bc.len() && (#[trigger] bc[kk]).category == category_spec(ev[i].kind);
                    }
                    lemma_indices_where_none(ev, of_category(cat), ev.len());
                    assert(nbc[j].positions@ =~= seq![n]);
                } else if j != c {
                    assert(nbc[j] == bc[j]);
                    if c < bc.len() {
                        assert(bc[j].category != bc[c as int].category);
                    }
                }
            }
            assert forall|k1: int, k2: int|
                0 <= k1 < nbc.len() && 0 <= k2 < nbc.len() && k1 != k2 implies (#[trigger] nbc[k1]).category
                    != (#[trigger] nbc[k2]).category by {
                if k1 < bc.len() && k2 < bc.len() {
                    assert(nbc[k1].category == bc[k1].category);
                    assert(nbc[k2].category == bc[k2].category);
                } else if k1 < bc.len() {
                    assert(nbc[k1] == bc[k1]);
                } else {
                    assert(nbc[k2] == bc[k2]);
                }
            }
            assert forall|i: int| 0 <= i < evp.len() implies has_category_entry(nbc, category_spec((#[trigger] evp[i]).kind)) by {
                if i < ev.len() {
                    assert(has_category_entry(bc, category_spec(ev[i].kind)));
                    let kk = choose|kk: int| 0 <= kk < bc.len() && (#[trigger] bc[kk]).category == category_spec(ev[i].kind);
                    assert(nbc[kk].category == bc[kk].category);
                } else if c < bc.len() {
                    assert(nbc[c as int].category == category_spec(evp[i].kind));
                } else {
                    assert(nbc[bc.len() as int].category == category_spec(evp[i].kind));
                }
            }
        }
        events.push(event);
        assert(events@ == evp);
        *self = TimelineStore { events, index_by_printer, index_by_category };
    }

    /// Records a new event for a printer, stamped with a fresh random id
    /// and the current time; returns the stored record.
    pub fn record(
        &mut self,
        printer_id: &str,
        kind: TimelineEventKind,
        source: TimelineEventSource,
        confidence_milli: i64,
        metadata: String,
    ) -> (res: &TimelineEvent)
        ensures
            final(self)@.len() == old(self)@.len() + 1,
            final(self)@.drop_last() == old(self)@,
            *res == final(self)@.last(),
            res.printer_id@ == printer_id@,
            res.kind == kind,
            res.source == source,
            res.confidence_milli == confidence_milli,
            res.metadata == metadata,
    {
        let event = TimelineEvent {
            id: crate::ids::random_id(),
            printer_id: String::from_str(printer_id),
            timestamp: crate::clock::now_millis(),
            kind,
            source,
            confidence_milli,
            metadata,
        };
        self.append(event);
        let n = self.len();
        assert(self@.drop_last() =~= old(self)@);
        &self.events[n - 1]
    }

    /// Appends pre-built records (for example reloaded from a database),
    /// in order.
    pub fn load(&mut self, events: Vec<TimelineEvent>)
        ensures
            final(self)@ == old(self)@ + events@,
    {
        let mut events = events;
        let ghost all = events@;
        let mut rest: Vec<TimelineEvent> = Vec::new();
        // Move the records out in reverse so that they can be popped in order.
        while events.len() > 0
            invariant
                all == events@ + rest@.reverse(),
            decreases events@.len(),
        {
            let e = events.pop().unwrap();
            proof {
                assert(rest@.push(e).reverse() =~= seq![e] + rest@.reverse());
            }
            rest.push(e);
        }
        assert(all == rest@.reverse()) by {
            assert(events@ + rest@.reverse() =~= rest@.reverse());
        }
        assert(self@ + rest@.reverse() == old(self)@ + all);
        while rest.len() > 0
            invariant
                self@ + rest@.reverse() == old(self)@ + all,
            decreases rest@.len(),
        {
            let ghost before = self@;
            let e = rest.pop().unwrap();
            proof {
                assert(rest@.push(e).reverse() =~= seq![e] + rest@.reverse());
            }
            self.append(e);
            proof {
                assert(self@ + rest@.reverse() =~= before + (seq![e] + rest@.reverse()));
            }
        }
        assert(self@ + rest@.reverse() =~= self@);
    }

    /// The records of a printer, newest first (records with equal
    /// timestamps in the order they were recorded).
    pub fn for_printer(&self, printer_id: &str) -> (res: Vec<&TimelineEvent>)
        ensures
            ({
                let s = newest_first(self@, indices_where(self@, of_printer(printer_id@), self@.len()));
                res@.len() == s.len() && forall|k: int|
                    0 <= k < res@.len() ==> *#[trigger] res@[k] == self@[s[k] as int]
            }),
            forall|a: int, b: int|
                0 <= a < b < res@.len() ==> (#[trigger] res@[a]).timestamp >= (#[trigger] res@[b]).timestamp,
    {
        proof {
            use_type_invariant(self);
            lemma_indices_where_len(self@, of_printer(printer_id@), self@.len());
        }
        let key = String::from_str(printer_id);
        let mut k: usize = 0;
        while k < self.index_by_printer.len()
            invariant_except_break
                k <= self.index_by_printer@.len(),
                key@ == printer_id@,
                forall|j: int| 0 <= j < k ==> (#[trigger] self.index_by_printer@[j]).printer_id@ != printer_id@,
            ensures
                k <= self.index_by_printer@.len(),
                forall|j: int| 0 <= j < k ==> (#[trigger] self.index_by_printer@[j]).printer_id@ != printer_id@,
                k < self.index_by_printer@.len() ==> self.index_by_printer@[k as int].printer_id@ == printer_id@,
            decreases self.index_by_printer@.len() - k,
        {
            if self.index_by_printer[k].printer_id == key {
                break;
            }
            k = k + 1;
        }
        let mut res: Vec<&TimelineEvent> = Vec::new();
        if k == self.index_by_printer.len() {
            proof {
                assert forall|i: int| 0 <= i < self@.len() implies !of_printer(printer_id@)(#[trigger] self@[i]) by {
                    assert(has_printer_entry(self.index_by_printer@, self.events@[i].printer_id@));
                    let kk = choose|kk: int| 0 <= kk < self.index_by_printer@.len() && (#[trigger] self.index_by_printer@[kk]).printer_id@ == self.events@[i].printer_id@;
                }
                lemma_indices_where_none(self@, of_printer(printer_id@), self@.len());
            }
            return res;
        }
        let sorted = sort_newest_first(self.events.as_slice(), &self.index_by_printer[k].positions);
        proof {
            lemma_newest_first_elements(self@, self.index_by_printer@[k as int].positions@);
            assert forall|m: int| 0 <= m < sorted@.len() implies #[trigger] sorted@[m] < self@.len() by {
                assert(sorted@.contains(sorted@[m]));
            }
        }
        let mut j: usize = 0;
        while j < sorted.len()
            invariant
                j <= sorted@.len(),
                forall|m: int| 0 <= m < sorted@.len() ==> #[trigger] sorted@[m] < self.events@.len(),
                res@.len() == j,
                forall|m: int| 0 <= m < j ==> *#[trigger] res@[m] == self.events@[sorted@[m] as int],
            decreases sorted@.len() - j,
        {
            res.push(&self.events[sorted[j]]);
            j = j + 1;
        }
        proof {
            lemma_newest_first_sorted(self@, self.index_by_printer@[k as int].positions@);
            assert forall|a: int, b: int| 0 <= a < b < res@.len() implies (#[trigger] res@[a]).timestamp >= (
            #[trigger] res@[b]).timestamp by {
                assert(res@[a] == self.events@[sorted@[a] as int]);
                assert(res@[b] == self.events@[sorted@[b] as int]);
            }
        }
        res
    }

    /// The number of records in a category.
    pub fn category_len(&self, category: TimelineCategory) -> (n: usize)
        ensures
            n == indices_where(self@, of_category(category), self@.len()).len(),
    {
        proof {
            use_type_invariant(self);
        }
        let mut k: usize = 0;
        while k < self.index_by_category.len()
            invariant
                k <= self.index_by_category@.len(),
                self.well_formed(),
                forall|j: int| 0 <= j < k ==> (#[trigger] self.index_by_category@[j]).category != category,
            decreases self.index_by_category@.len() - k,
        {
            if self.index_by_category[k].category == category {
                return self.index_by_category[k].positions.len();
            }
            k = k + 1;
        }
        proof {
            assert forall|i: int| 0 <= i < self@.len() implies !of_category(category)(#[trigger] self@[i]) by {
                assert(has_category_entry(self.index_by_category@, category_spec(self.events@[i].kind)));
                let kk = choose|kk: int| 0 <= kk < self.index_by_category@.len() && (#[trigger] self.index_by_category@[kk]).category == category_spec(self.events@[i].kind);
            }
            lemma_indices_where_none(self@, of_category(category), self@.len());
        }
        0
    }

    /// The number of records.
    pub fn len(&self) -> (n: usize)
        ensures
            n == self@.len(),
    {
        self.events.len()
    }

    /// Whether the store holds no record.
    pub fn is_empty(&self) -> (b: bool)
        ensures
            b == (self@.len() == 0),
    {
        self.events.len() == 0
    }

    /// All records, in the order they were recorded.
    pub fn all(&self) -> (s: &[TimelineEvent])
        ensures
            s@ == self@,
    {
        self.events.as_slice()
    }
}

/// A record is read back: after it is appended, its printer's records
/// (as `for_printer` lists them) hold it and exactly one more record
/// than before.
pub proof fn lemma_record_then_read(s: Seq<TimelineEvent>, e: TimelineEvent)
    requires
        s.len() < usize::MAX,
    ensures
        ({
            let after = s.push(e);
            let listed = newest_first(after, indices_where(after, of_printer(e.printer_id@), after.len()));
            &&& listed.contains(s.len() as usize)
            &&& listed.len() == newest_first(s, indices_where(s, of_printer(e.printer_id@), s.len())).len() + 1
        }),
{
    let f = of_printer(e.printer_id@);
    let after = s.push(e);
    lemma_indices_where_push(s, e, f);
    let before_idx = indices_where(s, f, s.len());
    let after_idx = indices_where(after, f, after.len());
    assert(f(e));
    assert(after_idx == before_idx.push(s.len() as usize));
    lemma_newest_first_elements(after, after_idx);
    lemma_newest_first_elements(s, before_idx);
    assert(after_idx[after_idx.len() - 1] == s.len() as usize);
    assert(after_idx.contains(s.len() as usize));
}

} // verus!
