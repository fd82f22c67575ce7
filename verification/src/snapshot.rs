//! Snapshots: immutable captures of a printer's state.

use vstd::prelude::*;
use vstd::string::*;

use crate::machine::{CapabilitySet, MachineHardware, MachineIdentity, MachineProfile, same_hardware, same_identity, same_profile};

verus! {

/// Why a snapshot was taken.
#[derive(PartialEq, Eq, Structural, Clone, Copy)]
pub enum SnapshotTrigger {
    Manual,
    Scheduled,
    PrintStarted,
    ConfigChanged,
    HardwareChanged,
}

/// A full capture of a printer's state.
pub struct PrinterSnapshot {
    pub printer_id: String,
    pub snapshot_id: String,
    /// Milliseconds since the Unix epoch.
    pub timestamp: i64,
    pub machine: Option<MachineProfile>,
    pub capabilities: Option<CapabilitySet>,
    pub config_hash: Option<String>,
    pub trigger: SnapshotTrigger,
    /// Free-form metadata as JSON text.
    pub metadata: String,
}

/// A capture of a machine's identity and hardware.
pub struct MachineSnapshot {
    pub printer_id: String,
    pub timestamp: i64,
    pub identity: Option<MachineIdentity>,
    pub hardware: MachineHardware,
}

/// A capture of a machine's capabilities.
pub struct CapabilitySnapshot {
    pub printer_id: String,
    pub timestamp: i64,
    pub capabilities: CapabilitySet,
}


/// Builds snapshots from the current state.
pub struct SnapshotBuilder;

impl SnapshotBuilder {
    /// A full printer snapshot with a fresh random id, stamped with the
    /// current time.
    pub fn printer_snapshot(
        printer_id: &str,
        machine: Option<&MachineProfile>,
        trigger: SnapshotTrigger,
    ) -> (snap: PrinterSnapshot)
        ensures
            snap.printer_id@ == printer_id@,
            snap.trigger == trigger,
            snap.metadata@ == "{}"@,
            match machine {
                Some(m) => {
                    &&& snap.machine matches Some(sm) && same_profile(sm, *m)
                    &&& snap.capabilities == Some(m.capabilities)
                    &&& crate::text::opt_text(snap.config_hash) == match m.identity.firmware {
                        Some(f) => crate::text::opt_text(f.config_hash),
                        None => None,
                    }
                },
                None => snap.machine is None && snap.capabilities is None && snap.config_hash is None,
            },
    {
        let (machine_copy, capabilities, config_hash) = match machine {
            Some(m) => {
                let hash = match &m.identity.firmware {
                    Some(f) => crate::text::clone_opt_string(&f.config_hash),
                    None => None,
                };
                (Some(m.duplicate()), Some(m.capabilities.duplicate()), hash)
            },
            None => (None, None, None),
        };
        PrinterSnapshot {
            printer_id: String::from_str(printer_id),
            snapshot_id: crate::ids::random_id(),
            timestamp: crate::clock::now_millis(),
            machine: machine_copy,
            capabilities,
            config_hash,
            trigger,
            metadata: String::from_str("{}"),
        }
    }

    /// A machine-only snapshot, stamped with the current time.
    pub fn machine_snapshot(printer_id: &str, profile: &MachineProfile) -> (snap: MachineSnapshot)
        ensures
            snap.printer_id@ == printer_id@,
            snap.identity matches Some(i) && same_identity(i, profile.identity),
            same_hardware(snap.hardware, profile.hardware),
    {
        MachineSnapshot {
            printer_id: String::from_str(printer_id),
            timestamp: crate::clock::now_millis(),
            identity: Some(profile.identity.duplicate()),
            hardware: profile.hardware.duplicate(),
        }
    }

    /// A capability-only snapshot, stamped with the current time.
    pub fn capability_snapshot(printer_id: &str, profile: &MachineProfile) -> (snap: CapabilitySnapshot)
        ensures
            snap.printer_id@ == printer_id@,
            snap.capabilities == profile.capabilities,
    {
        CapabilitySnapshot {
            printer_id: String::from_str(printer_id),
            timestamp: crate::clock::now_millis(),
            capabilities: profile.capabilities.duplicate(),
        }
    }
}

} // verus!
