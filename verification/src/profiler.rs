//! The printer profile: what observations teach about one printer.
//!
//! Successful prints raise the print counts and shape the average
//! duration, repeated anomalies become known issues, and health
//! snapshots set the reliability score, which open issues lower.

use vstd::prelude::*;
use vstd::string::*;

use crate::knowledge::{KnownIssue, PrinterBehavior, PrinterHardware, PrinterProfile};
use crate::knowledge_timeline::bumped;
use crate::observation::{AnomalyCategory, Observation, ObservationKind};
use crate::text::{clone_opt_string, opt_text, round_div};

verus! {

/// The mathematical content of a known issue.
pub struct IssueView {
    pub category: AnomalyCategory,
    pub description: Seq<char>,
    pub first_seen: i64,
    pub last_seen: i64,
    pub occurrence_count: u64,
    pub resolved: bool,
}

impl View for KnownIssue {
    type V = IssueView;

    open spec fn view(&self) -> IssueView {
        IssueView {
            category: self.category,
            description: self.description@,
            first_seen: self.first_seen,
            last_seen: self.last_seen,
            occurrence_count: self.occurrence_count,
            resolved: self.resolved,
        }
    }
}

/// The views of a sequence of known issues.
pub open spec fn issue_views(v: Seq<KnownIssue>) -> Seq<IssueView> {
    v.map_values(|i: KnownIssue| i@)
}

/// The mathematical content of a printer profile. Durations are in
/// milliseconds, the reliability score in thousandths.
pub struct ProfileView {
    pub printer_id: Seq<char>,
    pub model: Option<Seq<char>>,
    pub firmware: Option<Seq<char>>,
    pub successful_prints: u64,
    pub failed_prints: u64,
    pub avg_print_duration_ms: Option<i64>,
    pub reliability_milli: Option<i64>,
    pub known_issues: Seq<IssueView>,
    pub updated_at: i64,
}

impl View for PrinterProfile {
    type V = ProfileView;

    open spec fn view(&self) -> ProfileView {
        ProfileView {
            printer_id: self.printer_id@,
            model: opt_text(self.hardware.model),
            firmware: opt_text(self.hardware.firmware),
            successful_prints: self.behavior.successful_prints,
            failed_prints: self.behavior.failed_prints,
            avg_print_duration_ms: self.behavior.avg_print_duration_ms,
            reliability_milli: self.behavior.reliability_milli,
            known_issues: issue_views(self.behavior.known_issues@),
            updated_at: self.updated_at,
        }
    }
}

/// The moving average of print durations after one of `d` ms: 30% the
/// new duration, 70% the average so far (the first duration when there
/// is none yet).
pub open spec fn ema(d: i64, current: Option<i64>) -> int {
    let c: int = match current {
        Some(c) => c as int,
        None => d as int,
    };
    round_div(3 * d + 7 * c, 10)
}

/// The number of issues still open.
pub open spec fn open_issue_count(s: Seq<IssueView>) -> nat
    decreases s.len(),
{
    if s.len() == 0 {
        0
    } else {
        open_issue_count(s.drop_last()) + if s.last().resolved { 0nat } else { 1nat }
    }
}

/// The reliability penalty for open issues, in thousandths: 50 each, at
/// most 500.
pub open spec fn issue_penalty(open: nat) -> int {
    if open >= 10 { 500 } else { 50 * (open as int) }
}

/// The reliability score from a health snapshot, in thousandths: 40%
/// temperature stability, 60% success rate (1000 when unknown), less
/// the open-issue penalty, never below zero.
pub open spec fn reliability_from(temperature_stability: i64, success_rate: Option<i64>, open: nat) -> int {
    let s: int = match success_rate {
        Some(r) => r as int,
        None => 1000,
    };
    let score = round_div(4 * temperature_stability + 6 * s, 10);
    let v = score - issue_penalty(open);
    if v < 0 { 0 } else { v }
}

/// The reliability score re-derived after the open issues changed: the
/// current score (1000 when none) with the penalty taken back (up to
/// 1000) and the new penalty applied, never below zero.
pub open spec fn recomputed_reliability(current: Option<i64>, open: nat) -> int {
    let c: int = match current {
        Some(r) => r as int,
        None => 1000,
    };
    let p = issue_penalty(open);
    let base = if c + p > 1000 { 1000 } else { c + p };
    if base - p < 0 { 0 } else { base - p }
}

/// The position of the first open issue of a category.
pub open spec fn first_open(s: Seq<IssueView>, c: AnomalyCategory) -> Option<int> {
    if exists|i: int| 0 <= i < s.len() && (#[trigger] s[i]).category == c && !s[i].resolved {
        Some(
            choose|i: int|
                0 <= i < s.len() && (#[trigger] s[i]).category == c && !s[i].resolved && forall|j: int|
                    0 <= j < i ==> !((#[trigger] s[j]).category == c && !s[j].resolved),
        )
    } else {
        None
    }
}

/// The known issues after an anomaly: the first open issue of its
/// category is bumped (one more occurrence, last seen now, the new
/// description); when there is none, a new issue is appended.
pub open spec fn upserted(s: Seq<IssueView>, c: AnomalyCategory, description: Seq<char>, ts: i64) -> Seq<IssueView> {
    match first_open(s, c) {
        Some(i) => s.update(
            i,
            IssueView {
                occurrence_count: bumped(s[i].occurrence_count),
                last_seen: ts,
                description,
                ..s[i]
            },
        ),
        None => s.push(
            IssueView {
                category: c,
                description,
                first_seen: ts,
                last_seen: ts,
                occurrence_count: 1,
                resolved: false,
            },
        ),
    }
}

/// The average duration after a finished print of `d` ms, given the
/// print counts after it.
pub open spec fn averaged(p: ProfileView, d: i64) -> ProfileView {
    if p.successful_prints + p.failed_prints == 0 {
        p
    } else {
        ProfileView { avg_print_duration_ms: Some(ema(d, p.avg_print_duration_ms) as i64), ..p }
    }
}

/// Whether an observation changes the profile.
pub open spec fn updates_profile(kind: ObservationKind) -> bool {
    !(kind is PrintStarted)
}

/// The profile after an observation, its time stamp aside.
pub open spec fn profile_step(p: ProfileView, obs: Observation) -> ProfileView {
    match obs.kind {
        ObservationKind::PrintSummary { success, duration_ms, .. } => averaged(
            if success {
                ProfileView { successful_prints: bumped(p.successful_prints), ..p }
            } else {
                ProfileView { failed_prints: bumped(p.failed_prints), ..p }
            },
            duration_ms,
        ),
        ObservationKind::PrintCompleted { duration_ms, .. } => averaged(
            ProfileView { successful_prints: bumped(p.successful_prints), ..p },
            duration_ms,
        ),
        ObservationKind::PrintFailed { duration_ms, .. } => averaged(
            ProfileView { failed_prints: bumped(p.failed_prints), ..p },
            duration_ms,
        ),
        ObservationKind::AnomalyDetected { category, message, .. } => {
            let issues = upserted(p.known_issues, category, message@, obs.timestamp);
            ProfileView {
                known_issues: issues,
                reliability_milli: Some(
                    recomputed_reliability(p.reliability_milli, open_issue_count(issues)) as i64,
                ),
                ..p
            }
        },
        ObservationKind::HealthSnapshot { temperature_stability_milli, success_rate_milli, .. } => {
            ProfileView {
                reliability_milli: Some(
                    reliability_from(
                        temperature_stability_milli,
                        success_rate_milli,
                        open_issue_count(p.known_issues),
                    ) as i64,
                ),
                ..p
            }
        },
        ObservationKind::PrintStarted { .. } => p,
    }
}

proof fn lemma_open_count_bound(s: Seq<IssueView>)
    ensures
        open_issue_count(s) <= s.len(),
    decreases s.len(),
{
    if s.len() > 0 {
        lemma_open_count_bound(s.drop_last());
    }
}

proof fn lemma_first_open(s: Seq<IssueView>, c: AnomalyCategory, k: int)
    requires
        0 <= k < s.len(),
        s[k].category == c && !s[k].resolved,
        forall|j: int| 0 <= j < k ==> !((#[trigger] s[j]).category == c && !s[j].resolved),
    ensures
        first_open(s, c) == Some(k),
{
    let i = choose|i: int|
        0 <= i < s.len() && (#[trigger] s[i]).category == c && !s[i].resolved && forall|j: int|
            0 <= j < i ==> !((#[trigger] s[j]).category == c && !s[j].resolved);
    if i < k {
        assert(!(s[i].category == c && !s[i].resolved));
    } else if i > k {
        assert(!(s[k].category == c && !s[k].resolved));
    }
}

impl KnownIssue {
    /// A new open issue, seen once at `ts`.
    pub fn new(category: AnomalyCategory, description: String, ts: i64) -> (i: Self)
        ensures
            i@ == (IssueView {
                category,
                description: description@,
                first_seen: ts,
                last_seen: ts,
                occurrence_count: 1,
                resolved: false,
            }),
    {
        KnownIssue { category, description, first_seen: ts, last_seen: ts, occurrence_count: 1, resolved: false }
    }

    /// One more occurrence, seen at `ts` (the count stops at `u64::MAX`).
    pub fn bump(&mut self, ts: i64)
        ensures
            final(self)@ == (IssueView {
                occurrence_count: bumped(old(self)@.occurrence_count),
                last_seen: ts,
                ..old(self)@
            }),
    {
        if self.occurrence_count < u64::MAX {
            self.occurrence_count = self.occurrence_count + 1;
        }
        self.last_seen = ts;
    }

    pub fn duplicate(&self) -> (r: Self)
        ensures
            r@ == self@,
    {
        KnownIssue {
            category: self.category,
            description: self.description.clone(),
            first_seen: self.first_seen,
            last_seen: self.last_seen,
            occurrence_count: self.occurrence_count,
            resolved: self.resolved,
        }
    }
}

impl PrinterProfile {
    /// An empty profile for a printer, stamped with the current time.
    pub fn new(printer_id: String) -> (p: Self)
        ensures
            p@.printer_id == printer_id@,
            p@.model is None,
            p@.firmware is None,
            p@.successful_prints == 0,
            p@.failed_prints == 0,
            p@.avg_print_duration_ms is None,
            p@.reliability_milli is None,
            p@.known_issues == Seq::<IssueView>::empty(),
    {
        let p = PrinterProfile {
            printer_id,
            hardware: PrinterHardware { model: None, firmware: None },
            behavior: PrinterBehavior {
                successful_prints: 0,
                failed_prints: 0,
                avg_print_duration_ms: None,
                reliability_milli: None,
                known_issues: Vec::new(),
            },
            updated_at: crate::clock::now_millis(),
        };
        assert(issue_views(p.behavior.known_issues@) =~= Seq::<IssueView>::empty());
        p
    }

    /// A copy of the profile.
    pub fn duplicate(&self) -> (r: Self)
        ensures
            r@ == self@,
    {
        let mut issues: Vec<KnownIssue> = Vec::new();
        let mut i: usize = 0;
        while i < self.behavior.known_issues.len()
            invariant
                i <= self.behavior.known_issues@.len(),
                issues@.len() == i,
                forall|j: int| 0 <= j < i ==> (#[trigger] issues@[j])@ == self.behavior.known_issues@[j]@,
            decreases self.behavior.known_issues@.len() - i,
        {
            issues.push(self.behavior.known_issues[i].duplicate());
            i = i + 1;
        }
        assert(issue_views(issues@) =~= issue_views(self.behavior.known_issues@));
        PrinterProfile {
            printer_id: self.printer_id.clone(),
            hardware: PrinterHardware {
                model: clone_opt_string(&self.hardware.model),
                firmware: clone_opt_string(&self.hardware.firmware),
            },
            behavior: PrinterBehavior {
                successful_prints: self.behavior.successful_prints,
                failed_prints: self.behavior.failed_prints,
                avg_print_duration_ms: self.behavior.avg_print_duration_ms,
                reliability_milli: self.behavior.reliability_milli,
                known_issues: issues,
            },
            updated_at: self.updated_at,
        }
    }
}

/// Builds and maintains the profile of one printer.
pub struct PrinterProfiler {
    profile: PrinterProfile,
}

impl View for PrinterProfiler {
    type V = ProfileView;

    closed spec fn view(&self) -> ProfileView {
        self.profile@
    }
}

impl PrinterProfiler {
    pub fn new(printer_id: String) -> (p: Self)
        ensures
            p@.printer_id == printer_id@,
            p@.model is None,
            p@.firmware is None,
            p@.successful_prints == 0,
            p@.failed_prints == 0,
            p@.avg_print_duration_ms is None,
            p@.reliability_milli is None,
            p@.known_issues == Seq::<IssueView>::empty(),
    {
        PrinterProfiler { profile: PrinterProfile::new(printer_id) }
    }

    /// Feeds an observation into the profile; true when the profile
    /// changed, and then its time stamp is the current time.
    pub fn process(&mut self, observation: &Observation) -> (updated: bool)
        ensures
            updated == updates_profile(observation.kind),
            updated ==> final(self)@ == (ProfileView {
                updated_at: final(self)@.updated_at,
                ..profile_step(old(self)@, *observation)
            }),
            !updated ==> final(self)@ == old(self)@,
    {
        let updated = match &observation.kind {
            ObservationKind::PrintSummary { success, duration_ms, .. } => {
                if *success {
                    self.bump_successful();
                } else {
                    self.bump_failed();
                }
                self.update_avg_duration(*duration_ms);
                true
            },
            ObservationKind::PrintCompleted { duration_ms, .. } => {
                self.bump_successful();
                self.update_avg_duration(*duration_ms);
                true
            },
            ObservationKind::PrintFailed { duration_ms, .. } => {
                self.bump_failed();
                self.update_avg_duration(*duration_ms);
                true
            },
            ObservationKind::AnomalyDetected { category, message, .. } => {
                self.upsert_known_issue(*category, message.clone(), observation.timestamp);
                self.recompute_reliability();
                true
            },
            ObservationKind::HealthSnapshot {
                temperature_stability_milli,
                success_rate_milli,
                ..
            } => {
                let r = self.compute_reliability(*temperature_stability_milli, *success_rate_milli);
                self.profile.behavior.reliability_milli = Some(r);
                true
            },
            ObservationKind::PrintStarted { .. } => false,
        };
        if updated {
            self.profile.updated_at = crate::clock::now_millis();
        }
        updated
    }

    /// The current profile.
    pub fn profile(&self) -> (p: &PrinterProfile)
        ensures
            p@ == self@,
    {
        &self.profile
    }

    /// Sets the hardware information, stamping the current time.
    pub fn set_hardware(&mut self, model: Option<String>, firmware: Option<String>)
        ensures
            final(self)@ == (ProfileView {
                model: opt_text(model),
                firmware: opt_text(firmware),
                updated_at: final(self)@.updated_at,
                ..old(self)@
            }),
    {
        self.profile.hardware.model = model;
        self.profile.hardware.firmware = firmware;
        self.profile.updated_at = crate::clock::now_millis();
    }

    /// Marks the first open issue of a category resolved and re-derives
    /// the reliability score; false when there is no such issue.
    pub fn resolve_issue(&mut self, category: AnomalyCategory) -> (found: bool)
        ensures
            found == (first_open(old(self)@.known_issues, category) is Some),
            found ==> ({
                let i = first_open(old(self)@.known_issues, category)->0;
                let issues = old(self)@.known_issues.update(
                    i,
                    IssueView { resolved: true, ..old(self)@.known_issues[i] },
                );
                final(self)@ == (ProfileView {
                    known_issues: issues,
                    reliability_milli: Some(
                        recomputed_reliability(old(self)@.reliability_milli, open_issue_count(issues)) as i64,
                    ),
                    updated_at: final(self)@.updated_at,
                    ..old(self)@
                })
            }),
            !found ==> final(self)@ == old(self)@,
    {
        match self.find_open(category) {
            Some(i) => {
                let ghost before = self.profile.behavior.known_issues@;
                let issue = self.profile.behavior.known_issues.remove(i);
                let resolved = KnownIssue { resolved: true, ..issue };
                self.profile.behavior.known_issues.insert(i, resolved);
                proof {
                    crate::tracker::lemma_remove_insert(before, i as int, resolved);
                    assert(issue_views(self.profile.behavior.known_issues@) =~= issue_views(before).update(
                        i as int,
                        resolved@,
                    ));
                }
                self.recompute_reliability();
                self.profile.updated_at = crate::clock::now_millis();
                true
            },
            None => false,
        }
    }

    fn bump_successful(&mut self)
        ensures
            final(self)@ == (ProfileView { successful_prints: bumped(old(self)@.successful_prints), ..old(self)@ }),
    {
        if self.profile.behavior.successful_prints < u64::MAX {
            self.profile.behavior.successful_prints = self.profile.behavior.successful_prints + 1;
        }
    }

    fn bump_failed(&mut self)
        ensures
            final(self)@ == (ProfileView { failed_prints: bumped(old(self)@.failed_prints), ..old(self)@ }),
    {
        if self.profile.behavior.failed_prints < u64::MAX {
            self.profile.behavior.failed_prints = self.profile.behavior.failed_prints + 1;
        }
    }

    fn update_avg_duration(&mut self, duration_ms: i64)
        ensures
            final(self)@ == averaged(old(self)@, duration_ms),
    {
        let total: u128 = self.profile.behavior.successful_prints as u128
            + self.profile.behavior.failed_prints as u128;
        if total == 0 {
            return;
        }
        let current: i64 = match self.profile.behavior.avg_print_duration_ms {
            Some(c) => c,
            None => duration_ms,
        };
        let x: i128 = 3 * (duration_ms as i128) + 7 * (current as i128);
        let avg = crate::text::round_div_i128(x, 10);
        assert(i64::MIN <= avg <= i64::MAX);
        self.profile.behavior.avg_print_duration_ms = Some(avg as i64);
    }

    fn find_open(&self, category: AnomalyCategory) -> (res: Option<usize>)
        ensures
            match res {
                Some(i) => i < self@.known_issues.len() && first_open(self@.known_issues, category) == Some(
                    i as int,
                ),
                None => first_open(self@.known_issues, category) is None,
            },
    {
        let issues = &self.profile.behavior.known_issues;
        let ghost s = issue_views(issues@);
        let mut i: usize = 0;
        while i < issues.len()
            invariant
                i <= issues@.len(),
                s == issue_views(issues@),
                s == self@.known_issues,
                forall|j: int| 0 <= j < i ==> !((#[trigger] s[j]).category == category && !s[j].resolved),
            decreases issues@.len() - i,
        {
            if issues[i].category == category && !issues[i].resolved {
                proof {
                    assert(s[i as int] == issues@[i as int]@);
                    lemma_first_open(s, category, i as int);
                }
                return Some(i);
            }
            i = i + 1;
        }
        None
    }

    fn upsert_known_issue(&mut self, category: AnomalyCategory, description: String, ts: i64)
        ensures
            final(self)@ == (ProfileView {
                known_issues: upserted(old(self)@.known_issues, category, description@, ts),
                ..old(self)@
            }),
    {
        match self.find_open(category) {
            Some(i) => {
                let ghost before = self.profile.behavior.known_issues@;
                let mut issue = self.profile.behavior.known_issues.remove(i);
                issue.bump(ts);
                issue.description = description;
                let ghost updated = issue;
                self.profile.behavior.known_issues.insert(i, issue);
                proof {
                    crate::tracker::lemma_remove_insert(before, i as int, updated);
                    assert(issue_views(self.profile.behavior.known_issues@) =~= issue_views(before).update(
                        i as int,
                        updated@,
                    ));
                }
            },
            None => {
                let issue = KnownIssue::new(category, description, ts);
                self.profile.behavior.known_issues.push(issue);
                assert(issue_views(self.profile.behavior.known_issues@) =~= issue_views(
                    old(self).profile.behavior.known_issues@,
                ).push(issue@));
            },
        }
    }

    fn open_issues(&self) -> (n: usize)
        ensures
            n == open_issue_count(self@.known_issues),
    {
        let issues = &self.profile.behavior.known_issues;
        let ghost s = issue_views(issues@);
        let mut n: usize = 0;
        let mut i: usize = 0;
        while i < issues.len()
            invariant
                i <= issues@.len(),
                s == issue_views(issues@),
                s == self@.known_issues,
                n == open_issue_count(s.subrange(0, i as int)),
                n <= i,
            decreases issues@.len() - i,
        {
            assert(s.subrange(0, i + 1).drop_last() =~= s.subrange(0, i as int));
            if !issues[i].resolved {
                n = n + 1;
            }
            i = i + 1;
        }
        assert(s.subrange(0, i as int) =~= s);
        n
    }

    fn penalty(&self) -> (p: i128)
        ensures
            p == issue_penalty(open_issue_count(self@.known_issues)),
    {
        let open = self.open_issues();
        if open >= 10 {
            500
        } else {
            50 * (open as i128)
        }
    }

    fn compute_reliability(&self, temperature_stability: i64, success_rate: Option<i64>) -> (r: i64)
        ensures
            r == reliability_from(temperature_stability, success_rate, open_issue_count(self@.known_issues)),
    {
        let s: i64 = match success_rate {
            Some(v) => v,
            None => 1000,
        };
        let score = crate::text::round_div_i128(4 * (temperature_stability as i128) + 6 * (s as i128), 10);
        let v = score - self.penalty();
        if v < 0 {
            0
        } else {
            v as i64
        }
    }

    fn recompute_reliability(&mut self)
        ensures
            final(self)@ == (ProfileView {
                reliability_milli: Some(
                    recomputed_reliability(old(self)@.reliability_milli, open_issue_count(old(self)@.known_issues))
                        as i64,
                ),
                ..old(self)@
            }),
    {
        let current: i64 = match self.profile.behavior.reliability_milli {
            Some(r) => r,
            None => 1000,
        };
        let p = self.penalty();
        let c = current as i128;
        let base = if c + p > 1000 {
            1000
        } else {
            c + p
        };
        let r: i128 = if base - p < 0 {
            0
        } else {
            base - p
        };
        self.profile.behavior.reliability_milli = Some(r as i64);
    }
}

/// An anomaly never raises the reliability score: afterwards it lies
/// between 0 and 1000 and is at most what it was.
pub proof fn lemma_anomaly_never_raises_reliability(p: ProfileView, obs: Observation)
    requires
        obs.kind is AnomalyDetected,
    ensures
        profile_step(p, obs).reliability_milli is Some,
        0 <= profile_step(p, obs).reliability_milli->0 <= 1000,
        p.reliability_milli is Some && p.reliability_milli->0 >= 0 ==> profile_step(p, obs).reliability_milli->0
            <= p.reliability_milli->0,
{
}

/// The first open issue of a category, found below a given one.
proof fn lemma_least_open(s: Seq<IssueView>, c: AnomalyCategory, k: int) -> (m: int)
    requires
        0 <= k < s.len(),
        s[k].category == c && !s[k].resolved,
    ensures
        0 <= m <= k,
        s[m].category == c && !s[m].resolved,
        forall|j: int| 0 <= j < m ==> !((#[trigger] s[j]).category == c && !s[j].resolved),
    decreases k,
{
    if exists|j: int| 0 <= j < k && (#[trigger] s[j]).category == c && !s[j].resolved {
        let j = choose|j: int| 0 <= j < k && (#[trigger] s[j]).category == c && !s[j].resolved;
        lemma_least_open(s, c, j)
    } else {
        k
    }
}

/// What `first_open` finds is an open issue of the category, with none
/// before it; when it finds none, there is none.
pub proof fn lemma_first_open_props(s: Seq<IssueView>, c: AnomalyCategory)
    ensures
        match first_open(s, c) {
            Some(i) => 0 <= i < s.len() && s[i].category == c && !s[i].resolved && forall|j: int|
                0 <= j < i ==> !((#[trigger] s[j]).category == c && !s[j].resolved),
            None => forall|j: int| 0 <= j < s.len() ==> !((#[trigger] s[j]).category == c && !s[j].resolved),
        },
{
    if exists|i: int| 0 <= i < s.len() && (#[trigger] s[i]).category == c && !s[i].resolved {
        let k = choose|i: int| 0 <= i < s.len() && (#[trigger] s[i]).category == c && !s[i].resolved;
        let m = lemma_least_open(s, c, k);
        lemma_first_open(s, c, m);
    }
}

proof fn lemma_upserted_has_open(s: Seq<IssueView>, c: AnomalyCategory, d: Seq<char>, ts: i64)
    ensures
        first_open(upserted(s, c, d, ts), c) is Some,
{
    let t = upserted(s, c, d, ts);
    lemma_first_open_props(s, c);
    match first_open(s, c) {
        Some(i) => {
            assert(t[i].category == c && !t[i].resolved);
        },
        None => {
            assert(t[s.len() as int].category == c && !t[s.len() as int].resolved);
        },
    }
}

/// After an anomaly the profile holds an open known issue of its
/// category.
pub proof fn lemma_anomaly_opens_issue(p: ProfileView, obs: Observation)
    requires
        obs.kind is AnomalyDetected,
    ensures
        first_open(profile_step(p, obs).known_issues, obs.kind->category) is Some,
{
    match obs.kind {
        ObservationKind::AnomalyDetected { category, message, .. } => {
            assert(profile_step(p, obs).known_issues == upserted(p.known_issues, category, message@, obs.timestamp));
            lemma_upserted_has_open(p.known_issues, category, message@, obs.timestamp);
        },
        _ => {},
    }
}

/// A repeated anomaly of a category that already has an open issue adds
/// no issue: it bumps that issue's count.
pub proof fn lemma_repeated_anomaly_bumps_issue(p: ProfileView, obs: Observation)
    requires
        obs.kind is AnomalyDetected,
        first_open(p.known_issues, obs.kind->category) is Some,
    ensures
        ({
            let i = first_open(p.known_issues, obs.kind->category)->0;
            let after = profile_step(p, obs).known_issues;
            &&& after.len() == p.known_issues.len()
            &&& after[i].occurrence_count == bumped(p.known_issues[i].occurrence_count)
            &&& after[i].category == obs.kind->category
            &&& !after[i].resolved
        }),
{
    lemma_first_open_props(p.known_issues, obs.kind->category);
}

} // verus!
