//! Hardware detection: device categories and drivers, resource conflicts
//! between devices, and lookups among the devices found.

use vstd::prelude::*;
use crate::pci::{PciClass, PciDevice, same_device};
use crate::pci::config::{BarInfo, BarType, PciConfigManager, bars_from};
use crate::package::text::{chars_of, parse_unsigned, parse_unsigned_chars};

verus! {

/// Kinds of resource conflicts.
#[derive(Debug, Clone, Copy, PartialEq, Eq, Structural)]
pub enum ConflictType {
    MemoryOverlap,
    IoOverlap,
    InterruptConflict,
}

impl ConflictType {
    /// How the kind is shown.
    pub fn label(&self) -> (r: &'static str)
        ensures
            r@ == match *self {
                ConflictType::MemoryOverlap => "Memory Overlap"@,
                ConflictType::IoOverlap => "I/O Overlap"@,
                ConflictType::InterruptConflict => "Interrupt Conflict"@,
            },
    {
        match self {
            ConflictType::MemoryOverlap => "Memory Overlap",
            ConflictType::IoOverlap => "I/O Overlap",
            ConflictType::InterruptConflict => "Interrupt Conflict",
        }
    }
}

/// How serious a conflict is, from low to critical.
#[derive(Debug, Clone, Copy, PartialEq, Eq, PartialOrd, Ord, Structural)]
pub enum ConflictSeverity {
    Low,
    Medium,
    High,
    Critical,
}

impl ConflictSeverity {
    /// How the severity is shown.
    pub fn label(&self) -> (r: &'static str)
        ensures
            r@ == match *self {
                ConflictSeverity::Low => "Low"@,
                ConflictSeverity::Medium => "Medium"@,
                ConflictSeverity::High => "High"@,
                ConflictSeverity::Critical => "Critical"@,
            },
    {
        match self {
            ConflictSeverity::Low => "Low",
            ConflictSeverity::Medium => "Medium",
            ConflictSeverity::High => "High",
            ConflictSeverity::Critical => "Critical",
        }
    }
}

/// A conflict between two devices.
#[derive(Debug)]
pub struct ResourceConflict {
    pub device1: PciDevice,
    pub device2: PciDevice,
    pub conflict_type: ConflictType,
    pub address_range: (u64, u64),
    pub severity: ConflictSeverity,
}

/// Device categories for driver matching.
#[derive(Debug, Clone, Copy, PartialEq, Eq, Structural)]
pub enum DeviceCategory {
    NetworkCard,
    StorageController,
    GraphicsCard,
    AudioDevice,
    UsbController,
    BridgeDevice,
    InputDevice,
    WirelessCard,
    SerialBusController,
    SystemDevice,
    UnknownDevice,
}

/// The category of a class and subclass.
pub open spec fn category_of(class: PciClass, subclass: u8) -> DeviceCategory {
    match class {
        PciClass::Network => DeviceCategory::NetworkCard,
        PciClass::MassStorage => DeviceCategory::StorageController,
        PciClass::Display => DeviceCategory::GraphicsCard,
        PciClass::Multimedia => DeviceCategory::AudioDevice,
        PciClass::Bridge => DeviceCategory::BridgeDevice,
        PciClass::InputDevice => DeviceCategory::InputDevice,
        PciClass::Wireless => DeviceCategory::WirelessCard,
        PciClass::SerialBus => if subclass == 0x03 {
            DeviceCategory::UsbController
        } else {
            DeviceCategory::SerialBusController
        },
        PciClass::SystemPeripheral => DeviceCategory::SystemDevice,
        _ => DeviceCategory::UnknownDevice,
    }
}

impl DeviceCategory {
    /// The category of a class and subclass (`category_of`).
    pub fn from_pci_class(class: PciClass, subclass: u8) -> (r: Self)
        ensures
            r == category_of(class, subclass),
    {
        match class {
            PciClass::Network => DeviceCategory::NetworkCard,
            PciClass::MassStorage => DeviceCategory::StorageController,
            PciClass::Display => DeviceCategory::GraphicsCard,
            PciClass::Multimedia => DeviceCategory::AudioDevice,
            PciClass::Bridge => DeviceCategory::BridgeDevice,
            PciClass::InputDevice => DeviceCategory::InputDevice,
            PciClass::Wireless => DeviceCategory::WirelessCard,
            PciClass::SerialBus => {
                if subclass == 0x03 {
                    DeviceCategory::UsbController
                } else {
                    DeviceCategory::SerialBusController
                }
            },
            PciClass::SystemPeripheral => DeviceCategory::SystemDevice,
            _ => DeviceCategory::UnknownDevice,
        }
    }

    /// How the category is shown.
    pub fn label(&self) -> (r: &'static str)
        ensures
            r@ == match *self {
                DeviceCategory::NetworkCard => "Network Card"@,
                DeviceCategory::StorageController => "Storage Controller"@,
                DeviceCategory::GraphicsCard => "Graphics Card"@,
                DeviceCategory::AudioDevice => "Audio Device"@,
                DeviceCategory::UsbController => "USB Controller"@,
                DeviceCategory::BridgeDevice => "Bridge Device"@,
                DeviceCategory::InputDevice => "Input Device"@,
                DeviceCategory::WirelessCard => "Wireless Card"@,
                DeviceCategory::SerialBusController => "Serial Bus Controller"@,
                DeviceCategory::SystemDevice => "System Device"@,
                DeviceCategory::UnknownDevice => "Unknown Device"@,
            },
    {
        match self {
            DeviceCategory::NetworkCard => "Network Card",
            DeviceCategory::StorageController => "Storage Controller",
            DeviceCategory::GraphicsCard => "Graphics Card",
            DeviceCategory::AudioDevice => "Audio Device",
            DeviceCategory::UsbController => "USB Controller",
            DeviceCategory::BridgeDevice => "Bridge Device",
            DeviceCategory::InputDevice => "Input Device",
            DeviceCategory::WirelessCard => "Wireless Card",
            DeviceCategory::SerialBusController => "Serial Bus Controller",
            DeviceCategory::SystemDevice => "System Device",
            DeviceCategory::UnknownDevice => "Unknown Device",
        }
    }
}

/// Whether a device is critical to the system: bridges, system
/// peripherals, and IDE or SATA storage controllers.
pub open spec fn is_critical(d: PciDevice) -> bool {
    d.class_code == PciClass::Bridge || d.class_code == PciClass::SystemPeripheral || (d.class_code
        == PciClass::MassStorage && (d.subclass == 0x01 || d.subclass == 0x06))
}

/// Whether a class is storage or network.
pub open spec fn storage_or_network(c: PciClass) -> bool {
    c == PciClass::MassStorage || c == PciClass::Network
}

/// The severity of a conflict between two devices: critical when either
/// is critical, high when either is storage or network, medium when either
/// is multimedia or display, low otherwise.
pub open spec fn severity_of(a: PciDevice, b: PciDevice) -> ConflictSeverity {
    if is_critical(a) || is_critical(b) {
        ConflictSeverity::Critical
    } else if storage_or_network(a.class_code) || storage_or_network(b.class_code) {
        ConflictSeverity::High
    } else if a.class_code == PciClass::Multimedia || a.class_code == PciClass::Display || b.class_code
        == PciClass::Multimedia || b.class_code == PciClass::Display {
        ConflictSeverity::Medium
    } else {
        ConflictSeverity::Low
    }
}

/// The driver recommended for a device.
pub open spec fn driver_for(d: PciDevice) -> Seq<char> {
    match category_of(d.class_code, d.subclass) {
        DeviceCategory::NetworkCard => if d.vendor_id == 0x8086 {
            "e1000"@
        } else if d.vendor_id == 0x10EC {
            "r8169"@
        } else if d.vendor_id == 0x14E4 {
            "tg3"@
        } else {
            "generic_net"@
        },
        DeviceCategory::StorageController => if d.subclass == 0x01 {
            "ide"@
        } else if d.subclass == 0x06 {
            "ahci"@
        } else if d.subclass == 0x07 {
            "nvme"@
        } else {
            "generic_storage"@
        },
        DeviceCategory::GraphicsCard => if d.vendor_id == 0x8086 {
            "i915"@
        } else if d.vendor_id == 0x1002 {
            "amdgpu"@
        } else if d.vendor_id == 0x10DE {
            "nouveau"@
        } else {
            "generic_gpu"@
        },
        DeviceCategory::AudioDevice => "hda"@,
        DeviceCategory::UsbController => if d.subclass == 0x00 {
            "uhci"@
        } else if d.subclass == 0x10 {
            "ohci"@
        } else if d.subclass == 0x20 {
            "ehci"@
        } else if d.subclass == 0x30 {
            "xhci"@
        } else {
            "generic_usb"@
        },
        DeviceCategory::WirelessCard => if d.vendor_id == 0x8086 {
            "iwlwifi"@
        } else if d.vendor_id == 0x168C {
            "ath9k"@
        } else if d.vendor_id == 0x14E4 {
            "brcm80211"@
        } else {
            "generic_wifi"@
        },
        _ => "generic"@,
    }
}

/// A resource of a device: its index among the devices and the first and
/// last address.
pub type Resource = (usize, u64, u64);

/// The active, sized BARs of `bars` of the wanted kind, as resources of
/// device `dev`; the last address wraps like the machine's addition.
pub open spec fn bar_resources(bars: Seq<BarInfo>, dev: usize, memory: bool) -> Seq<Resource>
    decreases bars.len(),
{
    if bars.len() == 0 {
        Seq::empty()
    } else {
        let rest = bar_resources(bars.drop_last(), dev, memory);
        let b = bars.last();
        let active = b.bar_type != BarType::Unused && b.base_address != 0 && b.size > 0;
        let kind_ok = if memory {
            b.bar_type == BarType::Memory32 || b.bar_type == BarType::Memory64
        } else {
            b.bar_type == BarType::Io
        };
        if active && kind_ok {
            rest.push(
                (
                    dev,
                    b.base_address,
                    vstd::wrapping::u64_specs::wrapping_sub(
                        vstd::wrapping::u64_specs::wrapping_add(b.base_address, b.size),
                        1,
                    ),
                ),
            )
        } else {
            rest
        }
    }
}

/// The resources of the first `n` devices.
pub open spec fn resources_of(devs: Seq<PciDevice>, n: int, memory: bool) -> Seq<Resource>
    decreases n,
{
    if n <= 0 {
        Seq::empty()
    } else {
        resources_of(devs, n - 1, memory) + bar_resources(bars_from(devs[n - 1].config, 0), (n - 1) as usize, memory)
    }
}

/// A conflict as values: the indices of the two devices, kind, range and
/// severity.
pub type ConflictSpec = (usize, usize, ConflictType, (u64, u64), ConflictSeverity);

/// The overlapping pairs `(i, j)` for `i` fixed and `j` from `j0` on, in
/// order.
pub open spec fn pairs_with(rs: Seq<Resource>, i: int, j: int, t: ConflictType, devs: Seq<PciDevice>) -> Seq<
    ConflictSpec,
>
    decreases rs.len() - j,
{
    if j >= rs.len() {
        Seq::empty()
    } else {
        let (d1, s1, e1) = rs[i];
        let (d2, s2, e2) = rs[j];
        let here = if s1 <= e2 && s2 <= e1 {
            seq![
                (
                    d1,
                    d2,
                    t,
                    (if s1 > s2 {
                        s1
                    } else {
                        s2
                    }, if e1 < e2 {
                        e1
                    } else {
                        e2
                    }),
                    severity_of(devs[d1 as int], devs[d2 as int]),
                ),
            ]
        } else {
            Seq::empty()
        };
        here + pairs_with(rs, i, j + 1, t, devs)
    }
}

/// The overlapping pairs of resources from `i` on.
pub open spec fn overlaps_from(rs: Seq<Resource>, i: int, t: ConflictType, devs: Seq<PciDevice>) -> Seq<
    ConflictSpec,
>
    decreases rs.len() - i,
{
    if i >= rs.len() {
        Seq::empty()
    } else {
        pairs_with(rs, i, i + 1, t, devs) + overlaps_from(rs, i + 1, t, devs)
    }
}

/// The indices of the devices whose interrupt line is `irq`.
pub open spec fn on_irq(devs: Seq<PciDevice>, irq: u8, n: int) -> Seq<usize>
    decreases n,
{
    if n <= 0 {
        Seq::empty()
    } else {
        let rest = on_irq(devs, irq, n - 1);
        if devs[n - 1].config.byte_at(0x3C) == irq {
            rest.push((n - 1) as usize)
        } else {
            rest
        }
    }
}

/// The interrupt conflicts among the devices `g` sharing line `irq`:
/// every pair, high when both are storage or network, else low.
pub open spec fn irq_pairs(g: Seq<usize>, irq: u8, i: int, j: int, devs: Seq<PciDevice>) -> Seq<ConflictSpec>
    decreases g.len() - i, g.len() - j,
{
    if i >= g.len() {
        Seq::empty()
    } else if j >= g.len() {
        irq_pairs(g, irq, i + 1, i + 2, devs)
    } else {
        let a = devs[g[i] as int];
        let b = devs[g[j] as int];
        let sev = if storage_or_network(a.class_code) && storage_or_network(b.class_code) {
            ConflictSeverity::High
        } else {
            ConflictSeverity::Low
        };
        seq![(g[i], g[j], ConflictType::InterruptConflict, (irq as u64, irq as u64), sev)] + irq_pairs(
            g,
            irq,
            i,
            j + 1,
            devs,
        )
    }
}

/// The interrupt conflicts on lines 1 to `k - 1`, line by line.
pub open spec fn irq_conflicts(devs: Seq<PciDevice>, k: int) -> Seq<ConflictSpec>
    decreases k,
{
    if k <= 1 {
        Seq::empty()
    } else {
        let irq = (k - 1) as u8;
        irq_conflicts(devs, k - 1) + irq_pairs(on_irq(devs, irq, devs.len() as int), irq, 0, 1, devs)
    }
}

/// All conflicts: memory overlaps, then I/O overlaps, then shared
/// interrupt lines (lines 1 to 254, in order).
pub open spec fn conflicts_of(devs: Seq<PciDevice>) -> Seq<ConflictSpec> {
    overlaps_from(resources_of(devs, devs.len() as int, true), 0, ConflictType::MemoryOverlap, devs)
        + overlaps_from(resources_of(devs, devs.len() as int, false), 0, ConflictType::IoOverlap, devs)
        + irq_conflicts(devs, 255)
}

/// A conflict value describes the conflict `c` among `devs`.
pub open spec fn conflict_matches(c: ResourceConflict, s: ConflictSpec, devs: Seq<PciDevice>) -> bool {
    &&& same_device(c.device1, devs[s.0 as int])
    &&& same_device(c.device2, devs[s.1 as int])
    &&& c.conflict_type == s.2
    &&& c.address_range == s.3
    &&& c.severity == s.4
}

/// The results of a hardware scan.
#[derive(Debug)]
pub struct HardwareDetectionResults {
    pub total_devices: usize,
    pub devices_by_class: Vec<(PciClass, Vec<PciDevice>)>,
    pub resource_conflicts: Vec<ResourceConflict>,
    pub hot_plug_capable: Vec<PciDevice>,
    pub power_managed: Vec<PciDevice>,
    pub msi_capable: Vec<PciDevice>,
    pub msi_x_capable: Vec<PciDevice>,
    pub critical_devices: Vec<PciDevice>,
}

/// Hardware detection.
#[derive(Debug, Clone, Copy)]
pub struct HardwareDetector;

impl HardwareDetector {
    /// A detector.
    pub fn new() -> (r: Self) {
        HardwareDetector
    }

    /// Whether two inclusive ranges overlap.
    pub fn ranges_overlap(&self, start1: u64, end1: u64, start2: u64, end2: u64) -> (r: bool)
        ensures
            r == (start1 <= end2 && start2 <= end1),
    {
        start1 <= end2 && start2 <= end1
    }

    /// Whether a device is critical (`is_critical`).
    pub fn is_critical_device(&self, device: &PciDevice) -> (r: bool)
        ensures
            r == is_critical(*device),
    {
        match device.class_code {
            PciClass::Bridge => true,
            PciClass::SystemPeripheral => true,
            PciClass::MassStorage => device.subclass == 0x01 || device.subclass == 0x06,
            _ => false,
        }
    }

    /// The severity of a conflict between two devices (`severity_of`).
    pub fn determine_conflict_severity(&self, dev1: &PciDevice, dev2: &PciDevice) -> (r: ConflictSeverity)
        ensures
            r == severity_of(*dev1, *dev2),
    {
        if self.is_critical_device(dev1) || self.is_critical_device(dev2) {
            return ConflictSeverity::Critical;
        }
        if matches!(dev1.class_code, PciClass::MassStorage | PciClass::Network) || matches!(
            dev2.class_code,
            PciClass::MassStorage | PciClass::Network
        ) {
            return ConflictSeverity::High;
        }
        if matches!(dev1.class_code, PciClass::Multimedia | PciClass::Display) || matches!(
            dev2.class_code,
            PciClass::Multimedia | PciClass::Display
        ) {
            return ConflictSeverity::Medium;
        }
        ConflictSeverity::Low
    }

    /// Whether sharing an interrupt line is a problem: both devices are
    /// storage or network.
    pub fn is_interrupt_sharing_problematic(&self, dev1: &PciDevice, dev2: &PciDevice) -> (r: bool)
        ensures
            r == (storage_or_network(dev1.class_code) && storage_or_network(dev2.class_code)),
    {
        matches!(dev1.class_code, PciClass::MassStorage | PciClass::Network) && matches!(
            dev2.class_code,
            PciClass::MassStorage | PciClass::Network
        )
    }

    /// The category of a device.
    pub fn get_device_category(&self, device: &PciDevice) -> (r: DeviceCategory)
        ensures
            r == category_of(device.class_code, device.subclass),
    {
        DeviceCategory::from_pci_class(device.class_code, device.subclass)
    }

    /// The driver recommended for a device (`driver_for`).
    pub fn get_recommended_driver(&self, device: &PciDevice) -> (r: &'static str)
        ensures
            r@ == driver_for(*device),
    {
        match self.get_device_category(device) {
            DeviceCategory::NetworkCard => {
                if device.vendor_id == 0x8086 {
                    "e1000"
                } else if device.vendor_id == 0x10EC {
                    "r8169"
                } else if device.vendor_id == 0x14E4 {
                    "tg3"
                } else {
                    "generic_net"
                }
            },
            DeviceCategory::StorageController => {
                if device.subclass == 0x01 {
                    "ide"
                } else if device.subclass == 0x06 {
                    "ahci"
                } else if device.subclass == 0x07 {
                    "nvme"
                } else {
                    "generic_storage"
                }
            },
            DeviceCategory::GraphicsCard => {
                if device.vendor_id == 0x8086 {
                    "i915"
                } else if device.vendor_id == 0x1002 {
                    "amdgpu"
                } else if device.vendor_id == 0x10DE {
                    "nouveau"
                } else {
                    "generic_gpu"
                }
            },
            DeviceCategory::AudioDevice => "hda",
            DeviceCategory::UsbController => {
                if device.subclass == 0x00 {
                    "uhci"
                } else if device.subclass == 0x10 {
                    "ohci"
                } else if device.subclass == 0x20 {
                    "ehci"
                } else if device.subclass == 0x30 {
                    "xhci"
                } else {
                    "generic_usb"
                }
            },
            DeviceCategory::WirelessCard => {
                if device.vendor_id == 0x8086 {
                    "iwlwifi"
                } else if device.vendor_id == 0x168C {
                    "ath9k"
                } else if device.vendor_id == 0x14E4 {
                    "brcm80211"
                } else {
                    "generic_wifi"
                }
            },
            _ => "generic",
        }
    }

    /// Whether the device supports hot plugging.
    pub fn supports_hot_plug(&self, device: &PciDevice) -> (r: bool)
        ensures
            r == device.capabilities.hot_plug,
    {
        device.capabilities.hot_plug
    }

    /// The power-related capabilities of a device, in the order power
    /// management, MSI, MSI-X, PCI Express.
    pub fn get_power_capabilities(&self, device: &PciDevice) -> (r: Vec<&'static str>)
        ensures
            r@.map_values(|s: &'static str| s@) == power_caps(device.capabilities),
    {
        let mut caps: Vec<&'static str> = Vec::new();
        if device.capabilities.power_management {
            caps.push("Power Management");
        }
        if device.capabilities.msi {
            caps.push("MSI");
        }
        if device.capabilities.msi_x {
            caps.push("MSI-X");
        }
        if device.capabilities.pci_express {
            caps.push("PCI Express");
        }
        assert(caps@.map_values(|s: &'static str| s@) =~= power_caps(device.capabilities));
        caps
    }
}

/// The names of the power-related capabilities present.
pub open spec fn power_caps(c: crate::pci::PciCapabilities) -> Seq<Seq<char>> {
    let a = if c.power_management {
        seq!["Power Management"@]
    } else {
        Seq::empty()
    };
    let b = if c.msi {
        a.push("MSI"@)
    } else {
        a
    };
    let d = if c.msi_x {
        b.push("MSI-X"@)
    } else {
        b
    };
    if c.pci_express {
        d.push("PCI Express"@)
    } else {
        d
    }
}


/// `out` holds the conflicts `specs` among `devs`, one for one.
pub open spec fn holds(out: Seq<ResourceConflict>, specs: Seq<ConflictSpec>, devs: Seq<PciDevice>) -> bool {
    &&& out.len() == specs.len()
    &&& forall|k: int| 0 <= k < out.len() ==> #[trigger] conflict_matches(out[k], specs[k], devs)
}

/// The conflict `s` as a value.
fn make_conflict(devices: &Vec<PciDevice>, s: (usize, usize, ConflictType, (u64, u64), ConflictSeverity)) -> (r: ResourceConflict)
    requires
        s.0 < devices@.len(),
        s.1 < devices@.len(),
    ensures
        conflict_matches(r, s, devices@),
{
    ResourceConflict {
        device1: devices[s.0].duplicate(),
        device2: devices[s.1].duplicate(),
        conflict_type: s.2,
        address_range: s.3,
        severity: s.4,
    }
}

/// The resources of the wanted kind of every device.
fn collect_resources(devices: &Vec<PciDevice>, memory: bool) -> (r: Vec<(usize, u64, u64)>)
    requires
        forall|i: int| 0 <= i < devices@.len() ==> (#[trigger] devices@[i]).wf(),
    ensures
        r@ == resources_of(devices@, devices@.len() as int, memory),
        forall|k: int| 0 <= k < r@.len() ==> (#[trigger] r@[k]).0 < devices@.len(),
{
    let cm = PciConfigManager::new();
    let mut out: Vec<(usize, u64, u64)> = Vec::new();
    let mut d: usize = 0;
    while d < devices.len()
        invariant
            d <= devices@.len(),
            forall|i: int| 0 <= i < devices@.len() ==> (#[trigger] devices@[i]).wf(),
            out@ == resources_of(devices@, d as int, memory),
            forall|k: int| 0 <= k < out@.len() ==> (#[trigger] out@[k]).0 < d,
        decreases devices@.len() - d,
    {
        let bars = cm.read_bars(&devices[d]);
        let ghost base = out@;
        let mut k: usize = 0;
        while k < bars.len()
            invariant
                k <= bars@.len(),
                d < devices@.len(),
                out@ == base + bar_resources(bars@.take(k as int), d, memory),
                forall|m: int| 0 <= m < out@.len() ==> (#[trigger] out@[m]).0 <= d,
            decreases bars@.len() - k,
        {
            let b = bars[k];
            assert(bars@.take(k + 1).drop_last() =~= bars@.take(k as int));
            if b.is_active() && b.size > 0 {
                let end = b.base_address.wrapping_add(b.size).wrapping_sub(1);
                if memory {
                    if b.is_memory() {
                        out.push((d, b.base_address, end));
                    }
                } else {
                    if b.is_io() {
                        out.push((d, b.base_address, end));
                    }
                }
            }
            assert(out@ =~= base + bar_resources(bars@.take(k + 1), d, memory));
            k = k + 1;
        }
        assert(bars@.take(bars@.len() as int) =~= bars@);
        d = d + 1;
    }
    out
}

/// Appends the overlapping pairs among `rs` (`overlaps_from`).
fn push_overlaps(
    out: &mut Vec<ResourceConflict>,
    Ghost(specs): Ghost<Seq<ConflictSpec>>,
    rs: &Vec<(usize, u64, u64)>,
    t: ConflictType,
    devices: &Vec<PciDevice>,
    det: &HardwareDetector,
) -> (new_specs: Ghost<Seq<ConflictSpec>>)
    requires
        holds(old(out)@, specs, devices@),
        forall|k: int| 0 <= k < rs@.len() ==> (#[trigger] rs@[k]).0 < devices@.len(),
    ensures
        new_specs@ == specs + overlaps_from(rs@, 0, t, devices@),
        holds(final(out)@, new_specs@, devices@),
{
    let ghost mut cur = specs;
    let n = rs.len();
    let mut i: usize = 0;
    while i < n
        invariant
            n == rs@.len(),
            i <= n,
            forall|k: int| 0 <= k < rs@.len() ==> (#[trigger] rs@[k]).0 < devices@.len(),
            holds(out@, cur, devices@),
            specs + overlaps_from(rs@, 0, t, devices@) == cur + overlaps_from(rs@, i as int, t, devices@),
        decreases n - i,
    {
        let mut j = i + 1;
        proof {
            assert(overlaps_from(rs@, i as int, t, devices@) == pairs_with(rs@, i as int, i + 1, t, devices@)
                + overlaps_from(rs@, i + 1, t, devices@));
            assert(cur + overlaps_from(rs@, i as int, t, devices@) =~= cur + pairs_with(rs@, i as int, j as int, t, devices@)
                + overlaps_from(rs@, i + 1, t, devices@));
        }
        while j < n
            invariant
                n == rs@.len(),
                i < n,
                i < j <= n,
                forall|k: int| 0 <= k < rs@.len() ==> (#[trigger] rs@[k]).0 < devices@.len(),
                holds(out@, cur, devices@),
                specs + overlaps_from(rs@, 0, t, devices@) == cur + pairs_with(rs@, i as int, j as int, t, devices@)
                    + overlaps_from(rs@, i + 1, t, devices@),
            decreases n - j,
        {
            let (d1, s1, e1) = rs[i];
            let (d2, s2, e2) = rs[j];
            let ghost rest = pairs_with(rs@, i as int, j + 1, t, devices@);
            if det.ranges_overlap(s1, e1, s2, e2) {
                let lo = if s1 > s2 {
                    s1
                } else {
                    s2
                };
                let hi = if e1 < e2 {
                    e1
                } else {
                    e2
                };
                let sev = det.determine_conflict_severity(&devices[d1], &devices[d2]);
                let c = make_conflict(devices, (d1, d2, t, (lo, hi), sev));
                let ghost sp = (d1, d2, t, (lo, hi), sev);
                out.push(c);
                proof {
                    assert(pairs_with(rs@, i as int, j as int, t, devices@) == seq![sp] + rest);
                    let old_cur = cur;
                    cur = cur.push(sp);
                    assert(old_cur + (seq![sp] + rest) + overlaps_from(rs@, i + 1, t, devices@) =~= cur + rest
                        + overlaps_from(rs@, i + 1, t, devices@));
                    assert forall|k: int| 0 <= k < out@.len() implies #[trigger] conflict_matches(out@[k], cur[k], devices@) by {
                        if k < out@.len() - 1 {
                        }
                    }
                }
            } else {
                proof {
                    assert(pairs_with(rs@, i as int, j as int, t, devices@) == Seq::<ConflictSpec>::empty() + rest);
                    assert(Seq::<ConflictSpec>::empty() + rest =~= rest);
                }
            }
            j = j + 1;
        }
        proof {
            assert(pairs_with(rs@, i as int, j as int, t, devices@) =~= Seq::<ConflictSpec>::empty());
            assert(cur + Seq::<ConflictSpec>::empty() + overlaps_from(rs@, i + 1, t, devices@) =~= cur + overlaps_from(
                rs@,
                i + 1,
                t,
                devices@,
            ));
        }
        i = i + 1;
    }
    proof {
        assert(overlaps_from(rs@, n as int, t, devices@) =~= Seq::<ConflictSpec>::empty());
        assert(cur + Seq::<ConflictSpec>::empty() =~= cur);
    }
    Ghost(cur)
}


/// The indices of the devices whose interrupt line is `irq` (`on_irq`).
fn devices_on_irq(devices: &Vec<PciDevice>, irq: u8) -> (r: Vec<usize>)
    requires
        forall|i: int| 0 <= i < devices@.len() ==> (#[trigger] devices@[i]).wf(),
    ensures
        r@ == on_irq(devices@, irq, devices@.len() as int),
        forall|k: int| 0 <= k < r@.len() ==> (#[trigger] r@[k]) < devices@.len(),
{
    let cm = PciConfigManager::new();
    let mut out: Vec<usize> = Vec::new();
    let mut d: usize = 0;
    while d < devices.len()
        invariant
            d <= devices@.len(),
            forall|i: int| 0 <= i < devices@.len() ==> (#[trigger] devices@[i]).wf(),
            out@ == on_irq(devices@, irq, d as int),
            forall|k: int| 0 <= k < out@.len() ==> (#[trigger] out@[k]) < d,
        decreases devices@.len() - d,
    {
        if cm.get_interrupt_line(&devices[d]) == irq {
            out.push(d);
        }
        d = d + 1;
    }
    out
}

/// Appends the conflicts among the devices `g` that share line `irq`
/// (`irq_pairs`).
fn push_irq_pairs(
    out: &mut Vec<ResourceConflict>,
    Ghost(specs): Ghost<Seq<ConflictSpec>>,
    g: &Vec<usize>,
    irq: u8,
    devices: &Vec<PciDevice>,
    det: &HardwareDetector,
) -> (new_specs: Ghost<Seq<ConflictSpec>>)
    requires
        holds(old(out)@, specs, devices@),
        forall|k: int| 0 <= k < g@.len() ==> (#[trigger] g@[k]) < devices@.len(),
    ensures
        new_specs@ == specs + irq_pairs(g@, irq, 0, 1, devices@),
        holds(final(out)@, new_specs@, devices@),
{
    let ghost mut cur = specs;
    let n = g.len();
    let mut i: usize = 0;
    proof {
        assert(specs + irq_pairs(g@, irq, 0, 1, devices@) == cur + irq_pairs(g@, irq, i as int, i + 1, devices@));
    }
    while i < n
        invariant
            n == g@.len(),
            i <= n,
            forall|k: int| 0 <= k < g@.len() ==> (#[trigger] g@[k]) < devices@.len(),
            holds(out@, cur, devices@),
            specs + irq_pairs(g@, irq, 0, 1, devices@) == cur + irq_pairs(g@, irq, i as int, i + 1, devices@),
        decreases n - i,
    {
        let mut j = i + 1;
        while j < n
            invariant
                n == g@.len(),
                i < n,
                i < j <= n,
                forall|k: int| 0 <= k < g@.len() ==> (#[trigger] g@[k]) < devices@.len(),
                holds(out@, cur, devices@),
                specs + irq_pairs(g@, irq, 0, 1, devices@) == cur + irq_pairs(g@, irq, i as int, j as int, devices@),
            decreases n - j,
        {
            let d1 = g[i];
            let d2 = g[j];
            let sev = if det.is_interrupt_sharing_problematic(&devices[d1], &devices[d2]) {
                ConflictSeverity::High
            } else {
                ConflictSeverity::Low
            };
            let c = make_conflict(devices, (d1, d2, ConflictType::InterruptConflict, (irq as u64, irq as u64), sev));
            let ghost sp = (d1, d2, ConflictType::InterruptConflict, (irq as u64, irq as u64), sev);
            let ghost rest = irq_pairs(g@, irq, i as int, j + 1, devices@);
            out.push(c);
            proof {
                assert(irq_pairs(g@, irq, i as int, j as int, devices@) == seq![sp] + rest);
                let old_cur = cur;
                cur = cur.push(sp);
                assert(old_cur + (seq![sp] + rest) =~= cur + rest);
                assert forall|k: int| 0 <= k < out@.len() implies #[trigger] conflict_matches(out@[k], cur[k], devices@) by {
                    if k < out@.len() - 1 {
                    }
                }
            }
            j = j + 1;
        }
        proof {
            assert(irq_pairs(g@, irq, i as int, j as int, devices@) == irq_pairs(g@, irq, i + 1, i + 2, devices@));
        }
        i = i + 1;
    }
    proof {
        assert(irq_pairs(g@, irq, n as int, n + 1, devices@) =~= Seq::<ConflictSpec>::empty());
        assert(cur + Seq::<ConflictSpec>::empty() =~= cur);
    }
    Ghost(cur)
}

impl HardwareDetector {
    /// The resource conflicts among `devices` (`conflicts_of`): overlapping
    /// memory ranges, then overlapping I/O ranges, then devices sharing an
    /// interrupt line, line by line.
    pub fn detect_resource_conflicts(&self, devices: &Vec<PciDevice>) -> (r: Result<Vec<ResourceConflict>, &'static str>)
        requires
            forall|i: int| 0 <= i < devices@.len() ==> (#[trigger] devices@[i]).wf(),
        ensures
            r is Ok,
            r matches Ok(v) ==> holds(v@, conflicts_of(devices@), devices@),
    {
        let mut out: Vec<ResourceConflict> = Vec::new();
        let mem = collect_resources(devices, true);
        let io = collect_resources(devices, false);
        let ghost s0: Seq<ConflictSpec> = Seq::empty();
        let Ghost(s1) = push_overlaps(&mut out, Ghost(s0), &mem, ConflictType::MemoryOverlap, devices, self);
        let Ghost(s2) = push_overlaps(&mut out, Ghost(s1), &io, ConflictType::IoOverlap, devices, self);
        let ghost mut cur = s2;
        proof {
            assert(s0 + overlaps_from(mem@, 0, ConflictType::MemoryOverlap, devices@) =~= overlaps_from(
                mem@,
                0,
                ConflictType::MemoryOverlap,
                devices@,
            ));
            assert(irq_conflicts(devices@, 1) =~= Seq::<ConflictSpec>::empty());
            assert(cur =~= s2 + irq_conflicts(devices@, 1));
        }
        let mut irq: u8 = 1;
        while irq < 255
            invariant
                1 <= irq <= 255,
                forall|i: int| 0 <= i < devices@.len() ==> (#[trigger] devices@[i]).wf(),
                holds(out@, cur, devices@),
                cur == s2 + irq_conflicts(devices@, irq as int),
            decreases 255 - irq,
        {
            let g = devices_on_irq(devices, irq);
            let Ghost(next) = push_irq_pairs(&mut out, Ghost(cur), &g, irq, devices, self);
            proof {
                assert(irq_conflicts(devices@, irq + 1) == irq_conflicts(devices@, irq as int) + irq_pairs(
                    on_irq(devices@, irq, devices@.len() as int),
                    irq,
                    0,
                    1,
                    devices@,
                ));
                assert(next =~= s2 + irq_conflicts(devices@, irq + 1));
                cur = next;
            }
            irq = irq + 1;
        }
        Ok(out)
    }

}


/// A property by which a scan lists devices.
#[derive(Debug, Clone, Copy, PartialEq, Eq, Structural)]
pub enum Selector {
    HotPlug,
    PowerManaged,
    Msi,
    MsiX,
    Critical,
    Category(DeviceCategory),
    ClassCode(u8),
}

/// Whether device `d` has the property `which`.
pub open spec fn selected(which: Selector, d: PciDevice) -> bool {
    match which {
        Selector::HotPlug => d.capabilities.hot_plug,
        Selector::PowerManaged => d.capabilities.power_management,
        Selector::Msi => d.capabilities.msi,
        Selector::MsiX => d.capabilities.msi_x,
        Selector::Critical => is_critical(d),
        Selector::Category(c) => category_of(d.class_code, d.subclass) == c,
        Selector::ClassCode(code) => crate::pci::class_code_of(d.class_code) == code,
    }
}

/// The indices, in order, of the devices among the first `n` that have the
/// property `which`.
pub open spec fn indices_where(devs: Seq<PciDevice>, which: Selector, n: int) -> Seq<int>
    decreases n,
{
    if n <= 0 {
        Seq::empty()
    } else {
        let r = indices_where(devs, which, n - 1);
        if selected(which, devs[n - 1]) {
            r.push(n - 1)
        } else {
            r
        }
    }
}

/// `out` lists the devices of `devs` at the indices `idx`, in that order.
pub open spec fn lists(out: Seq<PciDevice>, idx: Seq<int>, devs: Seq<PciDevice>) -> bool {
    &&& out.len() == idx.len()
    &&& forall|k: int| 0 <= k < out.len() ==> same_device(#[trigger] out[k], devs[idx[k]])
}

/// The devices grouped by class, for the class codes below `c` in
/// ascending order; a class with no device has no group.
pub open spec fn class_groups(devs: Seq<PciDevice>, c: int) -> Seq<(PciClass, Seq<int>)>
    decreases c,
{
    if c <= 0 {
        Seq::empty()
    } else {
        let g = indices_where(devs, Selector::ClassCode((c - 1) as u8), devs.len() as int);
        let r = class_groups(devs, c - 1);
        if g.len() > 0 {
            r.push((devs[g[0]].class_code, g))
        } else {
            r
        }
    }
}

/// What a scan of `devs` reports: the number of devices, the devices by
/// class in ascending class code, the resource conflicts, and the devices
/// with each capability and the critical ones, each in scan order.
pub open spec fn describes(r: HardwareDetectionResults, devs: Seq<PciDevice>) -> bool {
    let n = devs.len() as int;
    let groups = class_groups(devs, 256);
    &&& r.total_devices == devs.len()
    &&& r.devices_by_class@.len() == groups.len()
    &&& forall|k: int|
        0 <= k < groups.len() ==> (#[trigger] r.devices_by_class@[k]).0 == groups[k].0 && lists(
            r.devices_by_class@[k].1@,
            groups[k].1,
            devs,
        )
    &&& holds(r.resource_conflicts@, conflicts_of(devs), devs)
    &&& lists(r.hot_plug_capable@, indices_where(devs, Selector::HotPlug, n), devs)
    &&& lists(r.power_managed@, indices_where(devs, Selector::PowerManaged, n), devs)
    &&& lists(r.msi_capable@, indices_where(devs, Selector::Msi, n), devs)
    &&& lists(r.msi_x_capable@, indices_where(devs, Selector::MsiX, n), devs)
    &&& lists(r.critical_devices@, indices_where(devs, Selector::Critical, n), devs)
}

impl HardwareDetector {
    /// Whether a device has the property `which` (`selected`).
    pub fn has(&self, device: &PciDevice, which: Selector) -> (r: bool)
        ensures
            r == selected(which, *device),
    {
        match which {
            Selector::HotPlug => device.capabilities.hot_plug,
            Selector::PowerManaged => device.capabilities.power_management,
            Selector::Msi => device.capabilities.msi,
            Selector::MsiX => device.capabilities.msi_x,
            Selector::Critical => self.is_critical_device(device),
            Selector::Category(c) => self.get_device_category(device) == c,
            Selector::ClassCode(code) => device.class_code.code() == code,
        }
    }

    /// Copies of the devices with the property `which`, in order.
    pub fn select(&self, devices: &Vec<PciDevice>, which: Selector) -> (r: Vec<PciDevice>)
        ensures
            lists(r@, indices_where(devices@, which, devices@.len() as int), devices@),
    {
        let mut out: Vec<PciDevice> = Vec::new();
        let mut i: usize = 0;
        while i < devices.len()
            invariant
                i <= devices@.len(),
                lists(out@, indices_where(devices@, which, i as int), devices@),
            decreases devices@.len() - i,
        {
            let ghost before = out@;
            if self.has(&devices[i], which) {
                out.push(devices[i].duplicate());
                assert(forall|k: int| 0 <= k < before.len() ==> out@[k] == before[k]);
            }
            i = i + 1;
        }
        out
    }

    /// A scan of `devices`; an error where the bus scanner has not been
    /// initialised (`initialized` false).
    pub fn detect_hardware(&self, devices: &Vec<PciDevice>, initialized: bool) -> (r: Result<
        HardwareDetectionResults,
        &'static str,
    >)
        requires
            forall|i: int| 0 <= i < devices@.len() ==> (#[trigger] devices@[i]).wf(),
        ensures
            !initialized ==> r == Err::<HardwareDetectionResults, &'static str>("PCI scanner not initialized"),
            initialized ==> (r matches Ok(res) && describes(res, devices@)),
    {
        if !initialized {
            return Err("PCI scanner not initialized");
        }
        let mut by_class: Vec<(PciClass, Vec<PciDevice>)> = Vec::new();
        let mut code: u32 = 0;
        while code < 256
            invariant
                code <= 256,
                by_class@.len() == class_groups(devices@, code as int).len(),
                forall|k: int|
                    0 <= k < by_class@.len() ==> (#[trigger] by_class@[k]).0 == class_groups(devices@, code as int)[k].0
                        && lists(by_class@[k].1@, class_groups(devices@, code as int)[k].1, devices@),
            decreases 256 - code,
        {
            let group = self.select(devices, Selector::ClassCode(code as u8));
            if group.len() > 0 {
                let class = group[0].class_code;
                by_class.push((class, group));
            }
            code = code + 1;
        }
        let conflicts = self.detect_resource_conflicts(devices);
        let resource_conflicts = match conflicts {
            Ok(v) => v,
            Err(e) => {
                return Err(e);
            },
        };
        let res = HardwareDetectionResults {
            total_devices: devices.len(),
            devices_by_class: by_class,
            resource_conflicts,
            hot_plug_capable: self.select(devices, Selector::HotPlug),
            power_managed: self.select(devices, Selector::PowerManaged),
            msi_capable: self.select(devices, Selector::Msi),
            msi_x_capable: self.select(devices, Selector::MsiX),
            critical_devices: self.select(devices, Selector::Critical),
        };
        Ok(res)
    }
}

/// The devices of `devices` in `category`, in order.
pub fn get_devices_by_category(category: DeviceCategory, devices: &Vec<PciDevice>) -> (r: Vec<PciDevice>)
    ensures
        lists(r@, indices_where(devices@, Selector::Category(category), devices@.len() as int), devices@),
{
    let detector = HardwareDetector::new();
    detector.select(devices, Selector::Category(category))
}


/// `i` is the only position of `sep` in `s`.
pub open spec fn sole_index(s: Seq<char>, sep: char, i: int) -> bool {
    &&& 0 <= i < s.len()
    &&& s[i] == sep
    &&& forall|j: int| 0 <= j < s.len() && j != i ==> s[j] != sep
}

/// The two pieces of `s` around `sep`, where `sep` occurs exactly once
/// (splitting at `sep` gives two pieces).
pub open spec fn two_parts(s: Seq<char>, sep: char) -> Option<(Seq<char>, Seq<char>)> {
    if exists|i: int| sole_index(s, sep, i) {
        let i = choose|i: int| sole_index(s, sep, i);
        Some((s.take(i), s.skip(i + 1)))
    } else {
        None
    }
}

/// What `u8::from_str_radix` gives for `s`.
pub open spec fn parse_u8(s: Seq<char>, radix: nat) -> Option<u8> {
    match parse_unsigned(s, radix) {
        Some(v) => if v <= 255 {
            Some(v as u8)
        } else {
            None
        },
        None => None,
    }
}

/// The bus, device and function of a location `bb:dd.f` (bus and device in
/// hexadecimal, function in decimal).
pub open spec fn location_of(s: Seq<char>) -> Option<(u8, u8, u8)> {
    match two_parts(s, ':') {
        None => None,
        Some((a, rest)) => match two_parts(rest, '.') {
            None => None,
            Some((d, f)) => match (parse_u8(a, 16), parse_u8(d, 16), parse_u8(f, 10)) {
                (Some(bus), Some(dev), Some(func)) => Some((bus, dev, func)),
                _ => None,
            },
        },
    }
}

/// The index of the first device from `i` on at bus `b`, device `d` and
/// function `f`; the number of devices where there is none.
pub open spec fn first_at(devs: Seq<PciDevice>, b: u8, d: u8, f: u8, i: int) -> int
    decreases devs.len() - i,
{
    if i >= devs.len() {
        devs.len() as int
    } else if devs[i].bus == b && devs[i].device == d && devs[i].function == f {
        i
    } else {
        first_at(devs, b, d, f, i + 1)
    }
}

proof fn lemma_sole_unique(s: Seq<char>, sep: char, i: int, j: int)
    requires
        sole_index(s, sep, i),
        sole_index(s, sep, j),
    ensures
        i == j,
{
}

/// The position of `sep` in `v`, where it occurs exactly once.
fn sole_position(v: &Vec<char>, sep: char) -> (r: Option<usize>)
    ensures
        match r {
            Some(i) => sole_index(v@, sep, i as int),
            None => !exists|i: int| sole_index(v@, sep, i),
        },
{
    let mut first: Option<usize> = None;
    let mut twice = false;
    let ghost mut second: int = 0;
    let mut i: usize = 0;
    while i < v.len()
        invariant
            i <= v@.len(),
            first matches Some(p) ==> p < i && v@[p as int] == sep && forall|j: int| 0 <= j < p ==> v@[j] != sep,
            first is None ==> forall|j: int| 0 <= j < i ==> v@[j] != sep,
            twice ==> (first matches Some(p) && p < second < i && v@[second] == sep),
            !twice ==> (first matches Some(p) ==> forall|j: int| 0 <= j < i && j != p ==> v@[j] != sep),
        decreases v@.len() - i,
    {
        if v[i] == sep {
            if first.is_none() {
                first = Some(i);
            } else if !twice {
                twice = true;
                proof {
                    second = i as int;
                }
            }
        }
        i = i + 1;
    }
    if twice {
        proof {
            let p = first.unwrap() as int;
            assert forall|k: int| !sole_index(v@, sep, k) by {
                if sole_index(v@, sep, k) {
                    if k == p {
                        assert(v@[second] != sep);
                    } else {
                        assert(v@[p] != sep);
                    }
                }
            }
        }
        None
    } else {
        first
    }
}

/// The characters of `v[from..to]`.
fn chars_between(v: &Vec<char>, from: usize, to: usize) -> (r: Vec<char>)
    requires
        from <= to <= v@.len(),
    ensures
        r@ == v@.subrange(from as int, to as int),
{
    let mut out: Vec<char> = Vec::new();
    let mut i = from;
    while i < to
        invariant
            from <= i <= to <= v@.len(),
            out@ == v@.subrange(from as int, i as int),
        decreases to - i,
    {
        out.push(v[i]);
        i = i + 1;
        assert(out@ =~= v@.subrange(from as int, i as int));
    }
    out
}

/// The number written in `v` in `radix`, where it fits in a byte.
fn parse_u8_chars(v: &Vec<char>, radix: u32) -> (r: Option<u8>)
    requires
        2 <= radix <= 16,
    ensures
        r == parse_u8(v@, radix as nat),
{
    assert(v@.subrange(0, v@.len() as int) =~= v@);
    match parse_unsigned_chars(v, 0, v.len(), radix) {
        Some(x) => if x <= 255 {
            Some(x as u8)
        } else {
            None
        },
        None => None,
    }
}

/// The bus, device and function that `location` names (`location_of`).
pub fn parse_location(location: &str) -> (r: Option<(u8, u8, u8)>)
    ensures
        r == location_of(location@),
{
    let v = chars_of(location);
    let cpos = sole_position(&v, ':');
    if cpos.is_none() {
        return None;
    }
    let colon = cpos.unwrap();
    proof {
        assert forall|k: int| sole_index(v@, ':', k) implies k == colon by {
            lemma_sole_unique(v@, ':', k, colon as int);
        }
    }
    let a = chars_between(&v, 0, colon);
    let rest = chars_between(&v, colon + 1, v.len());
    assert(a@ =~= v@.take(colon as int));
    assert(rest@ =~= v@.skip(colon + 1));
    let dpos = sole_position(&rest, '.');
    if dpos.is_none() {
        return None;
    }
    let dot = dpos.unwrap();
    proof {
        assert forall|k: int| sole_index(rest@, '.', k) implies k == dot by {
            lemma_sole_unique(rest@, '.', k, dot as int);
        }
    }
    let d = chars_between(&rest, 0, dot);
    let f = chars_between(&rest, dot + 1, rest.len());
    assert(d@ =~= rest@.take(dot as int));
    assert(f@ =~= rest@.skip(dot + 1));
    let bus = parse_u8_chars(&a, 16);
    let dev = parse_u8_chars(&d, 16);
    let func = parse_u8_chars(&f, 10);
    match (bus, dev, func) {
        (Some(b), Some(dv), Some(fu)) => Some((b, dv, fu)),
        _ => None,
    }
}

/// A copy of the first device of `devices` at `location` (such as
/// `00:1f.2`); `None` where the location does not parse or no device is
/// there.
pub fn find_device_by_location(location: &str, devices: &Vec<PciDevice>) -> (r: Option<PciDevice>)
    ensures
        match location_of(location@) {
            None => r is None,
            Some((b, d, f)) => {
                let k = first_at(devices@, b, d, f, 0);
                &&& (r is Some <==> k < devices@.len())
                &&& (r matches Some(dev) ==> same_device(dev, devices@[k]))
            },
        },
{
    let loc = parse_location(location);
    if loc.is_none() {
        return None;
    }
    let (b, d, f) = loc.unwrap();
    let mut i: usize = 0;
    while i < devices.len()
        invariant
            i <= devices@.len(),
            location_of(location@) == Some((b, d, f)),
            first_at(devices@, b, d, f, 0) == first_at(devices@, b, d, f, i as int),
        decreases devices@.len() - i,
    {
        if devices[i].bus == b && devices[i].device == d && devices[i].function == f {
            assert(first_at(devices@, b, d, f, i as int) == i as int);
            return Some(devices[i].duplicate());
        }
        i = i + 1;
    }
    None
}

/// The severity of a conflict does not depend on the order of the two
/// devices, is critical whenever one of them is critical (a bridge, a
/// system peripheral, or an IDE or SATA controller), and is at least high
/// whenever one of them is a storage or network controller.
pub proof fn lemma_severity_symmetric(a: PciDevice, b: PciDevice)
    ensures
        severity_of(a, b) == severity_of(b, a),
        (a.class_code == PciClass::Bridge || a.class_code == PciClass::SystemPeripheral) ==> severity_of(a, b)
            == ConflictSeverity::Critical,
        (a.class_code == PciClass::MassStorage && (a.subclass == 0x01 || a.subclass == 0x06)) ==> severity_of(a, b)
            == ConflictSeverity::Critical,
        (a.class_code == PciClass::MassStorage || a.class_code == PciClass::Network) ==> (severity_of(a, b)
            == ConflictSeverity::Critical || severity_of(a, b) == ConflictSeverity::High),
{
}

/// A serial bus controller is a USB controller exactly when its subclass
/// is 3; a device of any other class is never a USB controller.
pub proof fn lemma_usb_category(class: PciClass, subclass: u8)
    ensures
        (category_of(class, subclass) == DeviceCategory::UsbController) <==> (class == PciClass::SerialBus
            && subclass == 0x03),
{
}

} // verus!
