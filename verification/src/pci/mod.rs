//! PCI devices: their class, capabilities and configuration space, the
//! decoding of that space (BARs, MSI, power states), hardware detection
//! (categories, drivers, resource conflicts) and the vendor and device
//! database.

use vstd::prelude::*;

pub mod config;
pub mod detection;
pub mod database;

verus! {

/// PCI base classes.
#[derive(Debug, Clone, Copy, PartialEq, Eq, PartialOrd, Ord, Hash, Structural)]
pub enum PciClass {
    Unclassified,
    MassStorage,
    Network,
    Display,
    Multimedia,
    Memory,
    Bridge,
    SimpleCommunication,
    SystemPeripheral,
    InputDevice,
    DockingStation,
    Processor,
    SerialBus,
    Wireless,
    IntelligentController,
    SatelliteCommunication,
    Encryption,
    SignalProcessing,
    ProcessingAccelerator,
    NonEssentialInstrumentation,
    Coprocessor,
    Unknown,
}

/// The class code of a class (0xFF for an unknown one).
pub open spec fn class_code_of(c: PciClass) -> u8 {
    match c {
        PciClass::Unclassified => 0x00,
        PciClass::MassStorage => 0x01,
        PciClass::Network => 0x02,
        PciClass::Display => 0x03,
        PciClass::Multimedia => 0x04,
        PciClass::Memory => 0x05,
        PciClass::Bridge => 0x06,
        PciClass::SimpleCommunication => 0x07,
        PciClass::SystemPeripheral => 0x08,
        PciClass::InputDevice => 0x09,
        PciClass::DockingStation => 0x0A,
        PciClass::Processor => 0x0B,
        PciClass::SerialBus => 0x0C,
        PciClass::Wireless => 0x0D,
        PciClass::IntelligentController => 0x0E,
        PciClass::SatelliteCommunication => 0x0F,
        PciClass::Encryption => 0x10,
        PciClass::SignalProcessing => 0x11,
        PciClass::ProcessingAccelerator => 0x12,
        PciClass::NonEssentialInstrumentation => 0x13,
        PciClass::Coprocessor => 0x40,
        PciClass::Unknown => 0xFF,
    }
}

impl PciClass {
    /// The class with class code `code`; codes without a class are
    /// `Unknown`.
    pub fn from_code(code: u8) -> (r: Self)
        ensures
            r == Self::Unknown || class_code_of(r) == code,
            (code <= 0x13 || code == 0x40) ==> class_code_of(r) == code,
    {
        match code {
            0x00 => PciClass::Unclassified,
            0x01 => PciClass::MassStorage,
            0x02 => PciClass::Network,
            0x03 => PciClass::Display,
            0x04 => PciClass::Multimedia,
            0x05 => PciClass::Memory,
            0x06 => PciClass::Bridge,
            0x07 => PciClass::SimpleCommunication,
            0x08 => PciClass::SystemPeripheral,
            0x09 => PciClass::InputDevice,
            0x0A => PciClass::DockingStation,
            0x0B => PciClass::Processor,
            0x0C => PciClass::SerialBus,
            0x0D => PciClass::Wireless,
            0x0E => PciClass::IntelligentController,
            0x0F => PciClass::SatelliteCommunication,
            0x10 => PciClass::Encryption,
            0x11 => PciClass::SignalProcessing,
            0x12 => PciClass::ProcessingAccelerator,
            0x13 => PciClass::NonEssentialInstrumentation,
            0x40 => PciClass::Coprocessor,
            _ => PciClass::Unknown,
        }
    }

    /// The class code.
    pub fn code(&self) -> (r: u8)
        ensures
            r == class_code_of(*self),
    {
        match self {
            PciClass::Unclassified => 0x00,
            PciClass::MassStorage => 0x01,
            PciClass::Network => 0x02,
            PciClass::Display => 0x03,
            PciClass::Multimedia => 0x04,
            PciClass::Memory => 0x05,
            PciClass::Bridge => 0x06,
            PciClass::SimpleCommunication => 0x07,
            PciClass::SystemPeripheral => 0x08,
            PciClass::InputDevice => 0x09,
            PciClass::DockingStation => 0x0A,
            PciClass::Processor => 0x0B,
            PciClass::SerialBus => 0x0C,
            PciClass::Wireless => 0x0D,
            PciClass::IntelligentController => 0x0E,
            PciClass::SatelliteCommunication => 0x0F,
            PciClass::Encryption => 0x10,
            PciClass::SignalProcessing => 0x11,
            PciClass::ProcessingAccelerator => 0x12,
            PciClass::NonEssentialInstrumentation => 0x13,
            PciClass::Coprocessor => 0x40,
            PciClass::Unknown => 0xFF,
        }
    }
}

/// Capabilities found on a device.
#[derive(Debug, Clone, Copy, PartialEq, Eq, Structural)]
pub struct PciCapabilities {
    pub msi: bool,
    pub msi_x: bool,
    pub power_management: bool,
    pub pci_express: bool,
    pub hot_plug: bool,
}

/// The configuration space of a device as it was read: its 64 dwords, and
/// for each of the six BARs the value read back after writing all ones.
#[derive(Debug, Clone)]
pub struct ConfigSpace {
    pub dwords: Vec<u32>,
    pub bar_masks: Vec<u32>,
}

/// A PCI function found on the bus.
#[derive(Debug, Clone)]
pub struct PciDevice {
    pub bus: u8,
    pub device: u8,
    pub function: u8,
    pub vendor_id: u16,
    pub device_id: u16,
    pub class_code: PciClass,
    pub subclass: u8,
    pub prog_if: u8,
    pub revision: u8,
    pub capabilities: PciCapabilities,
    pub config: ConfigSpace,
}

impl ConfigSpace {
    /// 64 dwords and six BAR masks.
    pub open spec fn wf(&self) -> bool {
        self.dwords@.len() == 64 && self.bar_masks@.len() == 6
    }

    /// The dword at `offset` (rounded down to a dword).
    pub open spec fn dword_at(&self, offset: u8) -> u32 {
        self.dwords@[(offset / 4) as int]
    }

    /// The word at `offset` (rounded down to a word).
    pub open spec fn word_at(&self, offset: u8) -> u16 {
        word_in(self.dwords@, offset)
    }

    /// The byte at `offset`.
    pub open spec fn byte_at(&self, offset: u8) -> u8 {
        ((self.dword_at(offset) >> ((offset % 4) * 8) as u32) & 0xFF) as u8
    }

    /// A space with every dword and mask zero.
    pub fn zeroed() -> (r: Self)
        ensures
            r.wf(),
            r.dwords@ == Seq::new(64, |i: int| 0u32),
            r.bar_masks@ == Seq::new(6, |i: int| 0u32),
    {
        let d: Vec<u32> = vec![0u32; 64];
        let m: Vec<u32> = vec![0u32; 6];
        assert(d@ =~= Seq::new(64, |i: int| 0u32));
        assert(m@ =~= Seq::new(6, |i: int| 0u32));
        ConfigSpace { dwords: d, bar_masks: m }
    }

    /// Reads the dword at `offset`.
    pub fn read_dword(&self, offset: u8) -> (r: u32)
        requires
            self.wf(),
        ensures
            r == self.dword_at(offset),
    {
        self.dwords[(offset / 4) as usize]
    }

    /// Reads the word at `offset`.
    pub fn read_word(&self, offset: u8) -> (r: u16)
        requires
            self.wf(),
        ensures
            r == self.word_at(offset),
    {
        let d = self.dwords[(offset / 4) as usize];
        ((d >> ((((offset % 4) / 2) * 16) as u32)) & 0xFFFF) as u16
    }

    /// Reads the byte at `offset`.
    pub fn read_byte(&self, offset: u8) -> (r: u8)
        requires
            self.wf(),
        ensures
            r == self.byte_at(offset),
    {
        let d = self.dwords[(offset / 4) as usize];
        ((d >> (((offset % 4) * 8) as u32)) & 0xFF) as u8
    }

    /// Writes the dword at `offset`.
    pub fn write_dword(&mut self, offset: u8, value: u32)
        requires
            old(self).wf(),
        ensures
            final(self).wf(),
            final(self).dwords@ == old(self).dwords@.update((offset / 4) as int, value),
            final(self).bar_masks@ == old(self).bar_masks@,
    {
        self.dwords.set((offset / 4) as usize, value);
    }

    /// Writes the word at `offset`, keeping the other half of its dword.
    pub fn write_word(&mut self, offset: u8, value: u16)
        requires
            old(self).wf(),
        ensures
            final(self).wf(),
            final(self).dwords@ == old(self).dwords@.update(
                (offset / 4) as int,
                with_word(old(self).dword_at(offset), ((offset % 4) / 2) as u32, value),
            ),
            final(self).bar_masks@ == old(self).bar_masks@,
    {
        let i = (offset / 4) as usize;
        let d = self.dwords[i];
        self.dwords.set(i, with_word_exec(d, ((offset % 4) / 2) as u32, value));
    }

    /// Writes the byte at `offset`, keeping the rest of its dword.
    pub fn write_byte(&mut self, offset: u8, value: u8)
        requires
            old(self).wf(),
        ensures
            final(self).wf(),
            final(self).dwords@ == old(self).dwords@.update(
                (offset / 4) as int,
                with_byte(old(self).dword_at(offset), (offset % 4) as u32, value),
            ),
            final(self).bar_masks@ == old(self).bar_masks@,
    {
        let i = (offset / 4) as usize;
        let d = self.dwords[i];
        self.dwords.set(i, with_byte_exec(d, (offset % 4) as u32, value));
    }
}

/// The word at `offset` of the dwords `d`.
pub open spec fn word_in(d: Seq<u32>, offset: u8) -> u16 {
    ((d[(offset / 4) as int] >> (((offset % 4) / 2) * 16) as u32) & 0xFFFF) as u16
}

/// Dword `d` with word `half` (0 low, 1 high) replaced by `v`.
pub open spec fn with_word(d: u32, half: u32, v: u16) -> u32 {
    if half == 0 {
        (d & 0xFFFF_0000) | (v as u32)
    } else {
        (d & 0x0000_FFFF) | ((v as u32) << 16u32)
    }
}

/// Dword `d` with byte `k` replaced by `v`.
pub open spec fn with_byte(d: u32, k: u32, v: u8) -> u32 {
    if k == 0 {
        (d & 0xFFFF_FF00) | (v as u32)
    } else if k == 1 {
        (d & 0xFFFF_00FF) | ((v as u32) << 8u32)
    } else if k == 2 {
        (d & 0xFF00_FFFF) | ((v as u32) << 16u32)
    } else {
        (d & 0x00FF_FFFF) | ((v as u32) << 24u32)
    }
}

fn with_word_exec(d: u32, half: u32, v: u16) -> (r: u32)
    ensures
        r == with_word(d, half, v),
{
    if half == 0 {
        (d & 0xFFFF_0000) | (v as u32)
    } else {
        (d & 0x0000_FFFF) | ((v as u32) << 16u32)
    }
}

fn with_byte_exec(d: u32, k: u32, v: u8) -> (r: u32)
    ensures
        r == with_byte(d, k, v),
{
    if k == 0 {
        (d & 0xFFFF_FF00) | (v as u32)
    } else if k == 1 {
        (d & 0xFFFF_00FF) | ((v as u32) << 8u32)
    } else if k == 2 {
        (d & 0xFF00_FFFF) | ((v as u32) << 16u32)
    } else {
        (d & 0x00FF_FFFF) | ((v as u32) << 24u32)
    }
}

/// What a write of word `v` at `offset` gives back when read there: the
/// word itself.
pub proof fn lemma_word_roundtrip(d: u32, offset: u8, v: u16)
    ensures
        ((with_word(d, ((offset % 4) / 2) as u32, v) >> (((offset % 4) / 2) * 16) as u32) & 0xFFFF) as u16 == v,
{
    let half = ((offset % 4) / 2) as u32;
    if half == 0 {
        assert((((d & 0xFFFF_0000) | (v as u32)) >> 0u32) & 0xFFFF == v as u32) by (bit_vector);
    } else {
        assert((((d & 0x0000_FFFF) | ((v as u32) << 16u32)) >> 16u32) & 0xFFFF == v as u32) by (bit_vector);
    }
}

impl ConfigSpace {
    /// A copy of the space.
    pub fn duplicate(&self) -> (r: Self)
        ensures
            r.dwords@ == self.dwords@,
            r.bar_masks@ == self.bar_masks@,
    {
        let mut d: Vec<u32> = Vec::new();
        let mut i: usize = 0;
        while i < self.dwords.len()
            invariant
                i <= self.dwords@.len(),
                d@ == self.dwords@.subrange(0, i as int),
            decreases self.dwords@.len() - i,
        {
            d.push(self.dwords[i]);
            i = i + 1;
            assert(d@ =~= self.dwords@.subrange(0, i as int));
        }
        let mut m: Vec<u32> = Vec::new();
        let mut j: usize = 0;
        while j < self.bar_masks.len()
            invariant
                j <= self.bar_masks@.len(),
                m@ == self.bar_masks@.subrange(0, j as int),
            decreases self.bar_masks@.len() - j,
        {
            m.push(self.bar_masks[j]);
            j = j + 1;
            assert(m@ =~= self.bar_masks@.subrange(0, j as int));
        }
        assert(d@ =~= self.dwords@);
        assert(m@ =~= self.bar_masks@);
        ConfigSpace { dwords: d, bar_masks: m }
    }
}

/// Two devices are the same: same fields and the same configuration space.
pub open spec fn same_device(a: PciDevice, b: PciDevice) -> bool {
    &&& a.bus == b.bus
    &&& a.device == b.device
    &&& a.function == b.function
    &&& a.vendor_id == b.vendor_id
    &&& a.device_id == b.device_id
    &&& a.class_code == b.class_code
    &&& a.subclass == b.subclass
    &&& a.prog_if == b.prog_if
    &&& a.revision == b.revision
    &&& a.capabilities == b.capabilities
    &&& a.config.dwords@ == b.config.dwords@
    &&& a.config.bar_masks@ == b.config.bar_masks@
}

impl PciDevice {
    /// The device's configuration space is complete.
    pub open spec fn wf(&self) -> bool {
        self.config.wf()
    }

    /// A copy of the device.
    pub fn duplicate(&self) -> (r: Self)
        ensures
            same_device(r, *self),
    {
        PciDevice {
            bus: self.bus,
            device: self.device,
            function: self.function,
            vendor_id: self.vendor_id,
            device_id: self.device_id,
            class_code: self.class_code,
            subclass: self.subclass,
            prog_if: self.prog_if,
            revision: self.revision,
            capabilities: self.capabilities,
            config: self.config.duplicate(),
        }
    }
}

} // verus!
