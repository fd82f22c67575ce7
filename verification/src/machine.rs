//! What is known about a printer's hardware and capabilities.

use vstd::prelude::*;

verus! {

/// The motion system of a machine.
#[derive(PartialEq, Eq, Structural, Clone, Copy)]
pub enum MachineType {
    Cartesian,
    CoreXY,
    CoreXZ,
    Delta,
    Polar,
    Scara,
    Unknown,
}

/// The kind of bed probe.
#[derive(PartialEq, Eq, Structural, Clone, Copy)]
pub enum ProbeType {
    BLTouch,
    CRTouch,
    Inductive,
    Beacon,
    Cartographer,
    Klicky,
    Eddy,
    Unknown,
}

/// The chip of an accelerometer.
#[derive(PartialEq, Eq, Structural, Clone, Copy)]
pub enum AccelerometerChip {
    ADXL345,
    LIS2DW,
    MPU9250,
    Unknown,
}

pub open spec fn machine_type_name(t: MachineType) -> Seq<char> {
    match t {
        MachineType::Cartesian => "Cartesian"@,
        MachineType::CoreXY => "CoreXY"@,
        MachineType::CoreXZ => "CoreXZ"@,
        MachineType::Delta => "Delta"@,
        MachineType::Polar => "Polar"@,
        MachineType::Scara => "Scara"@,
        MachineType::Unknown => "Unknown"@,
    }
}

pub open spec fn probe_type_name(t: ProbeType) -> Seq<char> {
    match t {
        ProbeType::BLTouch => "BLTouch"@,
        ProbeType::CRTouch => "CRTouch"@,
        ProbeType::Inductive => "Inductive"@,
        ProbeType::Beacon => "Beacon"@,
        ProbeType::Cartographer => "Cartographer"@,
        ProbeType::Klicky => "Klicky"@,
        ProbeType::Eddy => "Eddy"@,
        ProbeType::Unknown => "Unknown"@,
    }
}

pub open spec fn chip_name(c: AccelerometerChip) -> Seq<char> {
    match c {
        AccelerometerChip::ADXL345 => "ADXL345"@,
        AccelerometerChip::LIS2DW => "LIS2DW"@,
        AccelerometerChip::MPU9250 => "MPU9250"@,
        AccelerometerChip::Unknown => "Unknown"@,
    }
}

impl MachineType {
    /// The name of the motion system, as `{:?}` prints it.
    pub fn name(&self) -> (s: &'static str)
        ensures
            s@ == machine_type_name(*self),
    {
        match self {
            MachineType::Cartesian => "Cartesian",
            MachineType::CoreXY => "CoreXY",
            MachineType::CoreXZ => "CoreXZ",
            MachineType::Delta => "Delta",
            MachineType::Polar => "Polar",
            MachineType::Scara => "Scara",
            MachineType::Unknown => "Unknown",
        }
    }
}

impl ProbeType {
    /// The name of the probe type, as `{:?}` prints it.
    pub fn name(&self) -> (s: &'static str)
        ensures
            s@ == probe_type_name(*self),
    {
        match self {
            ProbeType::BLTouch => "BLTouch",
            ProbeType::CRTouch => "CRTouch",
            ProbeType::Inductive => "Inductive",
            ProbeType::Beacon => "Beacon",
            ProbeType::Cartographer => "Cartographer",
            ProbeType::Klicky => "Klicky",
            ProbeType::Eddy => "Eddy",
            ProbeType::Unknown => "Unknown",
        }
    }
}

impl AccelerometerChip {
    /// The name of the chip, as `{:?}` prints it.
    pub fn name(&self) -> (s: &'static str)
        ensures
            s@ == chip_name(*self),
    {
        match self {
            AccelerometerChip::ADXL345 => "ADXL345",
            AccelerometerChip::LIS2DW => "LIS2DW",
            AccelerometerChip::MPU9250 => "MPU9250",
            AccelerometerChip::Unknown => "Unknown",
        }
    }
}

/// Firmware versions and configuration of a machine.
pub struct FirmwareInfo {
    pub klipper_version: Option<String>,
    pub moonraker_version: Option<String>,
    pub config_hash: Option<String>,
    pub mcu_count: u32,
}

/// Who a machine is.
pub struct MachineIdentity {
    pub printer_id: String,
    pub nickname: Option<String>,
    pub manufacturer: Option<String>,
    pub model: Option<String>,
    pub custom_build: bool,
    pub machine_type: MachineType,
    pub serial_number: Option<String>,
    pub firmware: Option<FirmwareInfo>,
    pub discovered_at: i64,
    pub updated_at: i64,
}

/// The components of a machine: extruder and hotend names, probe types
/// and accelerometer chips.
pub struct MachineHardware {
    pub extruders: Vec<String>,
    pub hotends: Vec<String>,
    pub probes: Vec<ProbeType>,
    pub accelerometers: Vec<AccelerometerChip>,
}

/// What a machine can do. Temperatures are in thousandths of a degree.
pub struct CapabilitySet {
    pub supports_input_shaping: bool,
    pub supports_pressure_advance: bool,
    pub supports_sensorless_homing: bool,
    pub supports_canbus: bool,
    pub supports_bltouch: bool,
    pub supports_beacon: bool,
    pub supports_toolchanger: bool,
    pub supports_high_temperature: bool,
    pub maximum_temperature_milli: i64,
}

impl CapabilitySet {
    /// The capability set with nothing detected.
    pub fn empty() -> (c: Self)
        ensures
            !c.supports_input_shaping && !c.supports_pressure_advance
                && !c.supports_sensorless_homing && !c.supports_canbus && !c.supports_bltouch
                && !c.supports_beacon && !c.supports_toolchanger && !c.supports_high_temperature
                && c.maximum_temperature_milli == 0,
    {
        CapabilitySet {
            supports_input_shaping: false,
            supports_pressure_advance: false,
            supports_sensorless_homing: false,
            supports_canbus: false,
            supports_bltouch: false,
            supports_beacon: false,
            supports_toolchanger: false,
            supports_high_temperature: false,
            maximum_temperature_milli: 0,
        }
    }
}

/// Everything known about a machine at one moment.
pub struct MachineProfile {
    pub identity: MachineIdentity,
    pub hardware: MachineHardware,
    pub capabilities: CapabilitySet,
    pub generated_at: i64,
}


/// Two firmware records hold the same information.
pub open spec fn same_firmware(a: FirmwareInfo, b: FirmwareInfo) -> bool {
    &&& crate::text::opt_text(a.klipper_version) == crate::text::opt_text(b.klipper_version)
    &&& crate::text::opt_text(a.moonraker_version) == crate::text::opt_text(b.moonraker_version)
    &&& crate::text::opt_text(a.config_hash) == crate::text::opt_text(b.config_hash)
    &&& a.mcu_count == b.mcu_count
}

/// Two identities hold the same information.
pub open spec fn same_identity(a: MachineIdentity, b: MachineIdentity) -> bool {
    &&& a.printer_id@ == b.printer_id@
    &&& crate::text::opt_text(a.nickname) == crate::text::opt_text(b.nickname)
    &&& crate::text::opt_text(a.manufacturer) == crate::text::opt_text(b.manufacturer)
    &&& crate::text::opt_text(a.model) == crate::text::opt_text(b.model)
    &&& a.custom_build == b.custom_build
    &&& a.machine_type == b.machine_type
    &&& crate::text::opt_text(a.serial_number) == crate::text::opt_text(b.serial_number)
    &&& match (a.firmware, b.firmware) {
        (Some(x), Some(y)) => same_firmware(x, y),
        (None, None) => true,
        _ => false,
    }
    &&& a.discovered_at == b.discovered_at
    &&& a.updated_at == b.updated_at
}

/// Two hardware lists hold the same information.
pub open spec fn same_hardware(a: MachineHardware, b: MachineHardware) -> bool {
    &&& crate::observation::texts(a.extruders@) == crate::observation::texts(b.extruders@)
    &&& crate::observation::texts(a.hotends@) == crate::observation::texts(b.hotends@)
    &&& a.probes@ == b.probes@
    &&& a.accelerometers@ == b.accelerometers@
}

/// Two profiles hold the same information.
pub open spec fn same_profile(a: MachineProfile, b: MachineProfile) -> bool {
    &&& same_identity(a.identity, b.identity)
    &&& same_hardware(a.hardware, b.hardware)
    &&& a.capabilities == b.capabilities
    &&& a.generated_at == b.generated_at
}

fn clone_opt(s: &Option<String>) -> (r: Option<String>)
    ensures
        r == *s,
{
    crate::text::clone_opt_string(s)
}

fn clone_strings(v: &Vec<String>) -> (r: Vec<String>)
    ensures
        r@ == v@,
{
    let r = v.clone();
    assert(r@ =~= v@);
    r
}

impl FirmwareInfo {
    pub fn duplicate(&self) -> (r: Self)
        ensures
            r == *self,
    {
        FirmwareInfo {
            klipper_version: clone_opt(&self.klipper_version),
            moonraker_version: clone_opt(&self.moonraker_version),
            config_hash: clone_opt(&self.config_hash),
            mcu_count: self.mcu_count,
        }
    }
}

impl MachineIdentity {
    pub fn duplicate(&self) -> (r: Self)
        ensures
            same_identity(r, *self),
    {
        MachineIdentity {
            printer_id: self.printer_id.clone(),
            nickname: clone_opt(&self.nickname),
            manufacturer: clone_opt(&self.manufacturer),
            model: clone_opt(&self.model),
            custom_build: self.custom_build,
            machine_type: self.machine_type,
            serial_number: clone_opt(&self.serial_number),
            firmware: match &self.firmware {
                Some(f) => Some(f.duplicate()),
                None => None,
            },
            discovered_at: self.discovered_at,
            updated_at: self.updated_at,
        }
    }
}

impl MachineHardware {
    pub fn duplicate(&self) -> (r: Self)
        ensures
            same_hardware(r, *self),
    {
        let probes = self.probes.clone();
        let accelerometers = self.accelerometers.clone();
        assert(probes@ =~= self.probes@);
        assert(accelerometers@ =~= self.accelerometers@);
        MachineHardware {
            extruders: clone_strings(&self.extruders),
            hotends: clone_strings(&self.hotends),
            probes,
            accelerometers,
        }
    }
}

impl CapabilitySet {
    pub fn duplicate(&self) -> (r: Self)
        ensures
            r == *self,
    {
        CapabilitySet { ..*self }
    }
}

impl MachineProfile {
    pub fn duplicate(&self) -> (r: Self)
        ensures
            same_profile(r, *self),
    {
        MachineProfile {
            identity: self.identity.duplicate(),
            hardware: self.hardware.duplicate(),
            capabilities: self.capabilities.duplicate(),
            generated_at: self.generated_at,
        }
    }
}

} // verus!
