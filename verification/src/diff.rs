//! Deterministic, field-by-field diffs between machine profiles.

use vstd::prelude::*;
use vstd::string::*;

use crate::machine::{
    AccelerometerChip, CapabilitySet, MachineHardware, MachineIdentity, MachineProfile, ProbeType,
    chip_name, machine_type_name, probe_type_name,
};
use crate::snapshot::PrinterSnapshot;
use crate::text::{clone_opt_string, decimal, opt_text, u64_to_decimal};
use crate::timeline::TimelineCategory;

verus! {

/// One atomic change between two snapshots.
pub struct SnapshotChange {
    pub path: String,
    pub category: TimelineCategory,
    pub previous_value: Option<String>,
    pub new_value: Option<String>,
}

/// The mathematical content of a [`SnapshotChange`].
pub struct ChangeView {
    pub path: Seq<char>,
    pub category: TimelineCategory,
    pub previous_value: Option<Seq<char>>,
    pub new_value: Option<Seq<char>>,
}

impl View for SnapshotChange {
    type V = ChangeView;

    open spec fn view(&self) -> ChangeView {
        ChangeView {
            path: self.path@,
            category: self.category,
            previous_value: crate::text::opt_text(self.previous_value),
            new_value: crate::text::opt_text(self.new_value),
        }
    }
}

/// Every change between two snapshots.
pub struct SnapshotDiff {
    pub from_snapshot_id: String,
    pub to_snapshot_id: String,
    pub from_timestamp: i64,
    pub to_timestamp: i64,
    pub total_changes: usize,
    pub changes: Vec<SnapshotChange>,
}

pub open spec fn change_views(v: Seq<SnapshotChange>) -> Seq<ChangeView> {
    v.map_values(|c: SnapshotChange| c@)
}

pub open spec fn change(path: Seq<char>, category: TimelineCategory, a: Seq<char>, b: Seq<char>) -> ChangeView {
    ChangeView { path, category, previous_value: Some(a), new_value: Some(b) }
}

/// `items` joined with `sep` between them.
pub open spec fn join(items: Seq<Seq<char>>, sep: Seq<char>) -> Seq<char>
    decreases items.len(),
{
    if items.len() == 0 {
        Seq::empty()
    } else if items.len() == 1 {
        items[0]
    } else {
        join(items.drop_last(), sep) + sep + items.last()
    }
}

pub open spec fn bool_text(b: bool) -> Seq<char> {
    if b { "true"@ } else { "false"@ }
}

pub open spec fn identity_changes(from: MachineIdentity, to: MachineIdentity) -> Seq<ChangeView> {
    (match (from.manufacturer, to.manufacturer) {
        (Some(a), Some(b)) => if a@ != b@ {
            seq![change("identity.manufacturer"@, TimelineCategory::Hardware, a@, b@)]
        } else {
            seq![]
        },
        _ => seq![],
    }) + (if opt_text(from.model) != opt_text(to.model) {
        seq![
            ChangeView {
                path: "identity.model"@,
                category: TimelineCategory::Hardware,
                previous_value: opt_text(from.model),
                new_value: opt_text(to.model),
            },
        ]
    } else {
        seq![]
    }) + if from.machine_type != to.machine_type {
        seq![
            change(
                "identity.machine_type"@,
                TimelineCategory::Hardware,
                machine_type_name(from.machine_type),
                machine_type_name(to.machine_type),
            ),
        ]
    } else {
        seq![]
    }
}

pub open spec fn count_change(path: Seq<char>, a: nat, b: nat) -> Seq<ChangeView> {
    if a != b {
        seq![change(path, TimelineCategory::Hardware, decimal(a), decimal(b))]
    } else {
        seq![]
    }
}

pub open spec fn probe_names(p: Seq<ProbeType>) -> Seq<Seq<char>> {
    p.map_values(|t: ProbeType| probe_type_name(t))
}

pub open spec fn chip_names(p: Seq<AccelerometerChip>) -> Seq<Seq<char>> {
    p.map_values(|c: AccelerometerChip| chip_name(c))
}

pub open spec fn hardware_changes(from: MachineHardware, to: MachineHardware) -> Seq<ChangeView> {
    count_change("hardware.extruders"@, from.extruders@.len(), to.extruders@.len())
        + count_change("hardware.hotends"@, from.hotends@.len(), to.hotends@.len())
        + (if from.probes@ != to.probes@ {
        seq![
            change(
                "hardware.probes"@,
                TimelineCategory::Hardware,
                join(probe_names(from.probes@), ", "@),
                join(probe_names(to.probes@), ", "@),
            ),
        ]
    } else {
        seq![]
    }) + if from.accelerometers@ != to.accelerometers@ {
        seq![
            change(
                "hardware.accelerometers"@,
                TimelineCategory::Hardware,
                join(chip_names(from.accelerometers@), ", "@),
                join(chip_names(to.accelerometers@), ", "@),
            ),
        ]
    } else {
        seq![]
    }
}

#[verifier::opaque]
pub open spec fn cap_change(name: Seq<char>, a: bool, b: bool) -> Seq<ChangeView> {
    if a != b {
        seq![change("capabilities."@ + name, TimelineCategory::Capability, bool_text(a), bool_text(b))]
    } else {
        seq![]
    }
}

pub open spec fn capability_changes(from: CapabilitySet, to: CapabilitySet) -> Seq<ChangeView> {
    cap_change("input_shaping"@, from.supports_input_shaping, to.supports_input_shaping)
        + cap_change("pressure_advance"@, from.supports_pressure_advance, to.supports_pressure_advance)
        + cap_change("sensorless_homing"@, from.supports_sensorless_homing, to.supports_sensorless_homing)
        + cap_change("canbus"@, from.supports_canbus, to.supports_canbus)
        + cap_change("bltouch"@, from.supports_bltouch, to.supports_bltouch)
        + cap_change("toolchanger"@, from.supports_toolchanger, to.supports_toolchanger)
        + cap_change("high_temperature"@, from.supports_high_temperature, to.supports_high_temperature)
}

/// Every change from one profile to another, in the order identity,
/// hardware, capabilities.
pub open spec fn profile_changes(from: MachineProfile, to: MachineProfile) -> Seq<ChangeView> {
    identity_changes(from.identity, to.identity) + hardware_changes(from.hardware, to.hardware)
        + capability_changes(from.capabilities, to.capabilities)
}

fn push_change(
    changes: &mut Vec<SnapshotChange>,
    path: String,
    category: TimelineCategory,
    a: String,
    b: String,
)
    ensures
        change_views(final(changes)@) == change_views(old(changes)@).push(
            change(path@, category, a@, b@),
        ),
{
    changes.push(SnapshotChange { path, category, previous_value: Some(a), new_value: Some(b) });
    proof {
        assert(change_views(changes@) =~= change_views(old(changes)@).push(
            change(path@, category, a@, b@),
        ));
    }
}

fn join_probes(p: &Vec<ProbeType>) -> (s: String)
    ensures
        s@ == join(probe_names(p@), ", "@),
{
    let mut s = String::new();
    let mut i: usize = 0;
    while i < p.len()
        invariant
            i <= p@.len(),
            s@ == join(probe_names(p@.take(i as int)), ", "@),
        decreases p@.len() - i,
    {
        let ghost before = p@.take(i as int);
        assert(probe_names(p@.take(i + 1)).drop_last() =~= probe_names(before));
        if i > 0 {
            s = s.concat(", ");
        } else {
            assert(probe_names(before).len() == 0);
        }
        s = s.concat(p[i].name());
        i = i + 1;
    }
    assert(p@.take(i as int) =~= p@);
    s
}

fn join_chips(p: &Vec<AccelerometerChip>) -> (s: String)
    ensures
        s@ == join(chip_names(p@), ", "@),
{
    let mut s = String::new();
    let mut i: usize = 0;
    while i < p.len()
        invariant
            i <= p@.len(),
            s@ == join(chip_names(p@.take(i as int)), ", "@),
        decreases p@.len() - i,
    {
        let ghost before = p@.take(i as int);
        assert(chip_names(p@.take(i + 1)).drop_last() =~= chip_names(before));
        if i > 0 {
            s = s.concat(", ");
        } else {
            assert(chip_names(before).len() == 0);
        }
        s = s.concat(p[i].name());
        i = i + 1;
    }
    assert(p@.take(i as int) =~= p@);
    s
}

fn same_probes(a: &Vec<ProbeType>, b: &Vec<ProbeType>) -> (r: bool)
    ensures
        r == (a@ == b@),
{
    if a.len() != b.len() {
        return false;
    }
    let mut i: usize = 0;
    while i < a.len()
        invariant
            i <= a@.len(),
            a@.len() == b@.len(),
            forall|j: int| 0 <= j < i ==> a@[j] == b@[j],
        decreases a@.len() - i,
    {
        if a[i] != b[i] {
            return false;
        }
        i = i + 1;
    }
    assert(a@ =~= b@);
    true
}

fn same_chips(a: &Vec<AccelerometerChip>, b: &Vec<AccelerometerChip>) -> (r: bool)
    ensures
        r == (a@ == b@),
{
    if a.len() != b.len() {
        return false;
    }
    let mut i: usize = 0;
    while i < a.len()
        invariant
            i <= a@.len(),
            a@.len() == b@.len(),
            forall|j: int| 0 <= j < i ==> a@[j] == b@[j],
        decreases a@.len() - i,
    {
        if a[i] != b[i] {
            return false;
        }
        i = i + 1;
    }
    assert(a@ =~= b@);
    true
}

fn cap_bool(changes: &mut Vec<SnapshotChange>, name: &str, a: bool, b: bool)
    ensures
        change_views(final(changes)@) == change_views(old(changes)@) + cap_change(name@, a, b),
{
    proof {
        reveal(cap_change);
    }
    if a != b {
        proof {
            reveal_strlit("true");
            reveal_strlit("false");
        }
        let av = if a { String::from_str("true") } else { String::from_str("false") };
        let bv = if b { String::from_str("true") } else { String::from_str("false") };
        push_change(
            changes,
            String::from_str("capabilities.").concat(name),
            TimelineCategory::Capability,
            av,
            bv,
        );
        assert(change_views(changes@) =~= change_views(old(changes)@) + cap_change(name@, a, b));
    } else {
        assert(change_views(changes@) =~= change_views(old(changes)@) + cap_change(name@, a, b));
    }
}

fn diff_identity(changes: &mut Vec<SnapshotChange>, from: &MachineIdentity, to: &MachineIdentity)
    ensures
        change_views(final(changes)@) == change_views(old(changes)@) + identity_changes(*from, *to),
{
    let ghost start = change_views(changes@);
    match (&from.manufacturer, &to.manufacturer) {
        (Some(a), Some(b)) => {
            if !(*a == *b) {
                push_change(
                    changes,
                    String::from_str("identity.manufacturer"),
                    TimelineCategory::Hardware,
                    a.clone(),
                    b.clone(),
                );
            }
        },
        _ => {},
    }
    let same_model = match (&from.model, &to.model) {
        (Some(a), Some(b)) => *a == *b,
        (None, None) => true,
        _ => false,
    };
    if !same_model {
        let ghost before = change_views(changes@);
        let c = SnapshotChange {
            path: String::from_str("identity.model"),
            category: TimelineCategory::Hardware,
            previous_value: clone_opt_string(&from.model),
            new_value: clone_opt_string(&to.model),
        };
        changes.push(c);
        assert(change_views(changes@) =~= before.push(c@));
    }
    let ghost mid = change_views(changes@);
    if from.machine_type != to.machine_type {
        push_change(
            changes,
            String::from_str("identity.machine_type"),
            TimelineCategory::Hardware,
            String::from_str(from.machine_type.name()),
            String::from_str(to.machine_type.name()),
        );
    }
    assert(change_views(changes@) =~= start + identity_changes(*from, *to));
}

fn count_diff(changes: &mut Vec<SnapshotChange>, path: &str, a: usize, b: usize)
    ensures
        change_views(final(changes)@) == change_views(old(changes)@) + count_change(path@, a as nat, b as nat),
{
    if a != b {
        push_change(
            changes,
            String::from_str(path),
            TimelineCategory::Hardware,
            u64_to_decimal(a as u64),
            u64_to_decimal(b as u64),
        );
    }
    assert(change_views(changes@) =~= change_views(old(changes)@) + count_change(path@, a as nat, b as nat));
}

fn diff_hardware(changes: &mut Vec<SnapshotChange>, from: &MachineHardware, to: &MachineHardware)
    ensures
        change_views(final(changes)@) == change_views(old(changes)@) + hardware_changes(*from, *to),
{
    let ghost start = change_views(changes@);
    count_diff(changes, "hardware.extruders", from.extruders.len(), to.extruders.len());
    count_diff(changes, "hardware.hotends", from.hotends.len(), to.hotends.len());
    let ghost mid = change_views(changes@);
    if !same_probes(&from.probes, &to.probes) {
        push_change(
            changes,
            String::from_str("hardware.probes"),
            TimelineCategory::Hardware,
            join_probes(&from.probes),
            join_probes(&to.probes),
        );
    }
    let ghost mid2 = change_views(changes@);
    if !same_chips(&from.accelerometers, &to.accelerometers) {
        push_change(
            changes,
            String::from_str("hardware.accelerometers"),
            TimelineCategory::Hardware,
            join_chips(&from.accelerometers),
            join_chips(&to.accelerometers),
        );
    }
    assert(change_views(changes@) =~= start + hardware_changes(*from, *to));
}

fn diff_capabilities(changes: &mut Vec<SnapshotChange>, from: &CapabilitySet, to: &CapabilitySet)
    ensures
        change_views(final(changes)@) == change_views(old(changes)@) + capability_changes(*from, *to),
{
    let ghost s0 = change_views(changes@);
    let ghost c1 = cap_change("input_shaping"@, from.supports_input_shaping, to.supports_input_shaping);
    let ghost c2 = cap_change("pressure_advance"@, from.supports_pressure_advance, to.supports_pressure_advance);
    let ghost c3 = cap_change("sensorless_homing"@, from.supports_sensorless_homing, to.supports_sensorless_homing);
    let ghost c4 = cap_change("canbus"@, from.supports_canbus, to.supports_canbus);
    let ghost c5 = cap_change("bltouch"@, from.supports_bltouch, to.supports_bltouch);
    let ghost c6 = cap_change("toolchanger"@, from.supports_toolchanger, to.supports_toolchanger);
    let ghost c7 = cap_change("high_temperature"@, from.supports_high_temperature, to.supports_high_temperature);
    cap_bool(changes, "input_shaping", from.supports_input_shaping, to.supports_input_shaping);
    cap_bool(changes, "pressure_advance", from.supports_pressure_advance, to.supports_pressure_advance);
    assert(change_views(changes@) == s0 + (c1 + c2)) by {
        assert(s0 + c1 + c2 =~= s0 + (c1 + c2));
    }
    cap_bool(changes, "sensorless_homing", from.supports_sensorless_homing, to.supports_sensorless_homing);
    assert(change_views(changes@) == s0 + (c1 + c2 + c3)) by {
        assert(s0 + (c1 + c2) + c3 =~= s0 + (c1 + c2 + c3));
    }
    cap_bool(changes, "canbus", from.supports_canbus, to.supports_canbus);
    assert(change_views(changes@) == s0 + (c1 + c2 + c3 + c4)) by {
        assert(s0 + (c1 + c2 + c3) + c4 =~= s0 + (c1 + c2 + c3 + c4));
    }
    cap_bool(changes, "bltouch", from.supports_bltouch, to.supports_bltouch);
    assert(change_views(changes@) == s0 + (c1 + c2 + c3 + c4 + c5)) by {
        assert(s0 + (c1 + c2 + c3 + c4) + c5 =~= s0 + (c1 + c2 + c3 + c4 + c5));
    }
    cap_bool(changes, "toolchanger", from.supports_toolchanger, to.supports_toolchanger);
    assert(change_views(changes@) == s0 + (c1 + c2 + c3 + c4 + c5 + c6)) by {
        assert(s0 + (c1 + c2 + c3 + c4 + c5) + c6 =~= s0 + (c1 + c2 + c3 + c4 + c5 + c6));
    }
    cap_bool(changes, "high_temperature", from.supports_high_temperature, to.supports_high_temperature);
    assert(change_views(changes@) == s0 + (c1 + c2 + c3 + c4 + c5 + c6 + c7)) by {
        assert(s0 + (c1 + c2 + c3 + c4 + c5 + c6) + c7 =~= s0 + (c1 + c2 + c3 + c4 + c5 + c6 + c7));
    }
}

/// Computes diffs between snapshots or profiles.
pub struct SnapshotDiffEngine;

impl SnapshotDiffEngine {
    /// Diffs two machine profiles: every identity, hardware and capability
    /// field that changed.
    pub fn diff_profiles(from: &MachineProfile, to: &MachineProfile) -> (d: SnapshotDiff)
        ensures
            change_views(d.changes@) == profile_changes(*from, *to),
            d.total_changes == d.changes@.len(),
            d.from_snapshot_id@ == "profile_a"@,
            d.to_snapshot_id@ == "profile_b"@,
            d.from_timestamp == from.generated_at,
            d.to_timestamp == to.generated_at,
    {
        let mut changes: Vec<SnapshotChange> = Vec::new();
        assert(change_views(changes@) =~= Seq::<ChangeView>::empty());
        diff_identity(&mut changes, &from.identity, &to.identity);
        diff_hardware(&mut changes, &from.hardware, &to.hardware);
        diff_capabilities(&mut changes, &from.capabilities, &to.capabilities);
        assert(change_views(changes@) =~= profile_changes(*from, *to));
        SnapshotDiff {
            from_snapshot_id: String::from_str("profile_a"),
            to_snapshot_id: String::from_str("profile_b"),
            from_timestamp: from.generated_at,
            to_timestamp: to.generated_at,
            total_changes: changes.len(),
            changes,
        }
    }

    /// Diffs two printer snapshots; `None` when either lacks a machine
    /// profile.
    pub fn diff_snapshots(from: &PrinterSnapshot, to: &PrinterSnapshot) -> (res: Option<SnapshotDiff>)
        ensures
            (from.machine is None || to.machine is None) ==> res is None,
            (from.machine is Some && to.machine is Some) ==> (res matches Some(d) && change_views(d.changes@)
                == profile_changes(from.machine->0, to.machine->0) && d.total_changes == d.changes@.len()
                && d.from_snapshot_id@ == from.snapshot_id@ && d.to_snapshot_id@ == to.snapshot_id@
                && d.from_timestamp == from.timestamp && d.to_timestamp == to.timestamp),
    {
        let a = match &from.machine {
            Some(m) => m,
            None => return None,
        };
        let b = match &to.machine {
            Some(m) => m,
            None => return None,
        };
        let mut diff = Self::diff_profiles(a, b);
        diff.from_snapshot_id = from.snapshot_id.clone();
        diff.to_snapshot_id = to.snapshot_id.clone();
        diff.from_timestamp = from.timestamp;
        diff.to_timestamp = to.timestamp;
        Some(diff)
    }
}

/// A profile compared with itself has no change.
pub proof fn lemma_identical_profiles_have_no_changes(p: MachineProfile)
    ensures
        profile_changes(p, p) == Seq::<ChangeView>::empty(),
{
    reveal(cap_change);
    assert(profile_changes(p, p) =~= Seq::<ChangeView>::empty());
}

} // verus!
