//! Decoding and changing a device's configuration space: base address
//! registers, the command and status registers, interrupts, the
//! capability list, MSI and MSI-X, and power management.

use vstd::prelude::*;
use crate::pci::{ConfigSpace, PciDevice, with_word, with_byte};

verus! {

/// Register offsets of the configuration header.
pub const PCI_VENDOR_ID: u8 = 0x00;
pub const PCI_DEVICE_ID: u8 = 0x02;
pub const PCI_COMMAND: u8 = 0x04;
pub const PCI_STATUS: u8 = 0x06;
pub const PCI_REVISION_ID: u8 = 0x08;
pub const PCI_PROG_IF: u8 = 0x09;
pub const PCI_SUBCLASS: u8 = 0x0A;
pub const PCI_CLASS: u8 = 0x0B;
pub const PCI_CACHE_LINE_SIZE: u8 = 0x0C;
pub const PCI_LATENCY_TIMER: u8 = 0x0D;
pub const PCI_HEADER_TYPE: u8 = 0x0E;
pub const PCI_BIST: u8 = 0x0F;
pub const PCI_BAR0: u8 = 0x10;
pub const PCI_BAR1: u8 = 0x14;
pub const PCI_BAR2: u8 = 0x18;
pub const PCI_BAR3: u8 = 0x1C;
pub const PCI_BAR4: u8 = 0x20;
pub const PCI_BAR5: u8 = 0x24;
pub const PCI_CARDBUS_CIS: u8 = 0x28;
pub const PCI_SUBSYSTEM_VENDOR_ID: u8 = 0x2C;
pub const PCI_SUBSYSTEM_ID: u8 = 0x2E;
pub const PCI_EXPANSION_ROM: u8 = 0x30;
pub const PCI_CAPABILITIES_PTR: u8 = 0x34;
pub const PCI_INTERRUPT_LINE: u8 = 0x3C;
pub const PCI_INTERRUPT_PIN: u8 = 0x3D;
pub const PCI_MIN_GNT: u8 = 0x3E;
pub const PCI_MAX_LAT: u8 = 0x3F;

/// Bits of the command register.
pub const PCI_COMMAND_IO: u16 = 0x0001;
pub const PCI_COMMAND_MEMORY: u16 = 0x0002;
pub const PCI_COMMAND_MASTER: u16 = 0x0004;
pub const PCI_COMMAND_SPECIAL: u16 = 0x0008;
pub const PCI_COMMAND_INVALIDATE: u16 = 0x0010;
pub const PCI_COMMAND_VGA_PALETTE: u16 = 0x0020;
pub const PCI_COMMAND_PARITY: u16 = 0x0040;
pub const PCI_COMMAND_WAIT: u16 = 0x0080;
pub const PCI_COMMAND_SERR: u16 = 0x0100;
pub const PCI_COMMAND_FAST_BACK: u16 = 0x0200;
pub const PCI_COMMAND_INTX_DISABLE: u16 = 0x0400;

/// Bits of the status register.
pub const PCI_STATUS_INTERRUPT: u16 = 0x0008;
pub const PCI_STATUS_CAP_LIST: u16 = 0x0010;
pub const PCI_STATUS_66MHZ: u16 = 0x0020;
pub const PCI_STATUS_UDF: u16 = 0x0040;
pub const PCI_STATUS_FAST_BACK: u16 = 0x0080;
pub const PCI_STATUS_PARITY: u16 = 0x0100;

/// Kinds of base address registers.
#[derive(Debug, Clone, Copy, PartialEq, Eq, Structural)]
pub enum BarType {
    Memory32,
    Memory64,
    Io,
    Unused,
}

/// A decoded base address register.
#[derive(Debug, Clone, Copy, PartialEq, Eq, Structural)]
pub struct BarInfo {
    pub bar_type: BarType,
    pub base_address: u64,
    pub size: u64,
    pub prefetchable: bool,
    pub raw_value: u32,
}

/// The register decoded without its size: zero is unused; bit 0 marks I/O
/// (address in bits 2 and up); otherwise bits 1-2 give a 32-bit (0) or
/// 64-bit (2) memory BAR (address in bits 4 and up, bit 3 prefetchable),
/// and other types are unused.
pub open spec fn bar_from_raw(raw: u32) -> BarInfo {
    if raw == 0 {
        BarInfo { bar_type: BarType::Unused, base_address: 0, size: 0, prefetchable: false, raw_value: raw }
    } else if raw & 1 == 1 {
        BarInfo {
            bar_type: BarType::Io,
            base_address: (raw & 0xFFFF_FFFC) as u64,
            size: 0,
            prefetchable: false,
            raw_value: raw,
        }
    } else {
        let mem_type = (raw >> 1u32) & 0x3;
        let prefetchable = raw & 0x8 != 0;
        let base = (raw & 0xFFFF_FFF0) as u64;
        if mem_type == 0 {
            BarInfo { bar_type: BarType::Memory32, base_address: base, size: 0, prefetchable, raw_value: raw }
        } else if mem_type == 2 {
            BarInfo { bar_type: BarType::Memory64, base_address: base, size: 0, prefetchable, raw_value: raw }
        } else {
            BarInfo { bar_type: BarType::Unused, base_address: 0, size: 0, prefetchable: false, raw_value: raw }
        }
    }
}

impl BarInfo {
    /// Decodes a register value (`bar_from_raw`); the size is left 0.
    pub fn from_raw(raw_value: u32) -> (r: Self)
        ensures
            r == bar_from_raw(raw_value),
    {
        if raw_value == 0 {
            return BarInfo { bar_type: BarType::Unused, base_address: 0, size: 0, prefetchable: false, raw_value };
        }
        if (raw_value & 1) == 1 {
            BarInfo {
                bar_type: BarType::Io,
                base_address: (raw_value & 0xFFFF_FFFC) as u64,
                size: 0,
                prefetchable: false,
                raw_value,
            }
        } else {
            let mem_type = (raw_value >> 1u32) & 0x3;
            let prefetchable = (raw_value & 0x8) != 0;
            let base_address = (raw_value & 0xFFFF_FFF0) as u64;
            if mem_type == 0 {
                BarInfo { bar_type: BarType::Memory32, base_address, size: 0, prefetchable, raw_value }
            } else if mem_type == 2 {
                BarInfo { bar_type: BarType::Memory64, base_address, size: 0, prefetchable, raw_value }
            } else {
                BarInfo { bar_type: BarType::Unused, base_address: 0, size: 0, prefetchable: false, raw_value }
            }
        }
    }

    /// Whether the BAR is in use and has an address.
    pub fn is_active(&self) -> (r: bool)
        ensures
            r == (self.bar_type != BarType::Unused && self.base_address != 0),
    {
        !matches!(self.bar_type, BarType::Unused) && self.base_address != 0
    }

    /// Whether the BAR maps memory.
    pub fn is_memory(&self) -> (r: bool)
        ensures
            r == (self.bar_type == BarType::Memory32 || self.bar_type == BarType::Memory64),
    {
        matches!(self.bar_type, BarType::Memory32 | BarType::Memory64)
    }

    /// Whether the BAR maps I/O ports.
    pub fn is_io(&self) -> (r: bool)
        ensures
            r == (self.bar_type == BarType::Io),
    {
        matches!(self.bar_type, BarType::Io)
    }
}

/// Power states of a device.
#[derive(Debug, Clone, Copy, PartialEq, Eq, Structural)]
pub enum PowerState {
    D0,
    D1,
    D2,
    D3Hot,
    D3Cold,
}

/// The number of a power state.
pub open spec fn power_code(s: PowerState) -> u16 {
    match s {
        PowerState::D0 => 0,
        PowerState::D1 => 1,
        PowerState::D2 => 2,
        PowerState::D3Hot => 3,
        PowerState::D3Cold => 4,
    }
}

/// The two power-state bits of the PMCSR register for a state: D3Cold is
/// entered through D3 (`11`), after which the platform removes power.
pub open spec fn pmcsr_bits(s: PowerState) -> u16 {
    match s {
        PowerState::D0 => 0,
        PowerState::D1 => 1,
        PowerState::D2 => 2,
        PowerState::D3Hot => 3,
        PowerState::D3Cold => 3,
    }
}

impl PowerState {
    /// The PMCSR power-state bits of the state (`pmcsr_bits`).
    pub fn pmcsr_bits(&self) -> (r: u16)
        ensures
            r == pmcsr_bits(*self),
    {
        match self {
            PowerState::D0 => 0,
            PowerState::D1 => 1,
            PowerState::D2 => 2,
            PowerState::D3Hot => 3,
            PowerState::D3Cold => 3,
        }
    }

    /// The number of the state.
    pub fn code(&self) -> (r: u16)
        ensures
            r == power_code(*self),
    {
        match self {
            PowerState::D0 => 0,
            PowerState::D1 => 1,
            PowerState::D2 => 2,
            PowerState::D3Hot => 3,
            PowerState::D3Cold => 4,
        }
    }

    /// How the state is shown.
    pub fn label(&self) -> (r: &'static str)
        ensures
            r@ == match *self {
                PowerState::D0 => "D0 (Fully On)"@,
                PowerState::D1 => "D1 (Low Power)"@,
                PowerState::D2 => "D2 (Lower Power)"@,
                PowerState::D3Hot => "D3Hot (Off, Config Accessible)"@,
                PowerState::D3Cold => "D3Cold (Off, Config Not Accessible)"@,
            },
    {
        match self {
            PowerState::D0 => "D0 (Fully On)",
            PowerState::D1 => "D1 (Low Power)",
            PowerState::D2 => "D2 (Lower Power)",
            PowerState::D3Hot => "D3Hot (Off, Config Accessible)",
            PowerState::D3Cold => "D3Cold (Off, Config Not Accessible)",
        }
    }
}

/// The MSI capability of a device.
#[derive(Debug, Clone, Copy, PartialEq, Eq, Structural)]
pub struct MsiConfig {
    pub enabled: bool,
    pub multiple_message_capable: u8,
    pub multiple_message_enable: u8,
    pub address: u64,
    pub data: u16,
    pub mask_bits: u32,
    pub pending_bits: u32,
}

impl Default for MsiConfig {
    fn default() -> (r: Self)
        ensures
            r == (MsiConfig {
                enabled: false,
                multiple_message_capable: 0,
                multiple_message_enable: 0,
                address: 0,
                data: 0,
                mask_bits: 0,
                pending_bits: 0,
            }),
    {
        MsiConfig {
            enabled: false,
            multiple_message_capable: 0,
            multiple_message_enable: 0,
            address: 0,
            data: 0,
            mask_bits: 0,
            pending_bits: 0,
        }
    }
}

/// The MSI-X capability of a device.
#[derive(Debug, Clone, Copy, PartialEq, Eq, Structural)]
pub struct MsiXConfig {
    pub enabled: bool,
    pub function_mask: bool,
    pub table_size: u16,
    pub table_offset: u32,
    pub table_bar: u8,
    pub pending_offset: u32,
    pub pending_bar: u8,
}

impl Default for MsiXConfig {
    fn default() -> (r: Self)
        ensures
            r == (MsiXConfig {
                enabled: false,
                function_mask: false,
                table_size: 0,
                table_offset: 0,
                table_bar: 0,
                pending_offset: 0,
                pending_bar: 0,
            }),
    {
        MsiXConfig {
            enabled: false,
            function_mask: false,
            table_size: 0,
            table_offset: 0,
            table_bar: 0,
            pending_offset: 0,
            pending_bar: 0,
        }
    }
}

/// The size of a BAR from the value read back after writing all ones: the
/// two's complement of the address bits, or 0 when none are set.
pub open spec fn bar_size_of(bits: u32) -> u64 {
    if bits != 0 {
        vstd::wrapping::u32_specs::wrapping_add(!bits, 1) as u64
    } else {
        0
    }
}

/// The BARs of a configuration space from BAR `i` on, each decoded with
/// its size; a 64-bit BAR below the last takes the next register as its
/// high half (listed after it as unused with that raw value).
pub open spec fn bars_from(c: ConfigSpace, i: nat) -> Seq<BarInfo>
    decreases 6 - i,
{
    if i >= 6 {
        Seq::empty()
    } else {
        let raw = c.dwords@[4 + i as int];
        let info = bar_from_raw(raw);
        if info.bar_type == BarType::Unused {
            seq![info] + bars_from(c, i + 1)
        } else {
            let mask = c.bar_masks@[i as int];
            let bits = if info.bar_type == BarType::Io {
                mask & 0xFFFF_FFFC
            } else {
                mask & 0xFFFF_FFF0
            };
            let sized = BarInfo { size: bar_size_of(bits), ..info };
            if info.bar_type == BarType::Memory64 && i < 5 {
                let upper = c.dwords@[5 + i as int];
                let upper_mask = c.bar_masks@[i as int + 1];
                let full = ((upper_mask as u64) << 32u64) | (bits as u64);
                let wide = BarInfo {
                    base_address: sized.base_address | ((upper as u64) << 32u64),
                    size: if upper_mask != 0 {
                        vstd::wrapping::u64_specs::wrapping_add(!full, 1)
                    } else {
                        sized.size
                    },
                    ..sized
                };
                let placeholder = BarInfo {
                    bar_type: BarType::Unused,
                    base_address: 0,
                    size: 0,
                    prefetchable: false,
                    raw_value: upper,
                };
                seq![wide, placeholder] + bars_from(c, i + 2)
            } else {
                seq![sized] + bars_from(c, i + 1)
            }
        }
    }
}

/// The capability list walked from `ptr`, at most `fuel` entries: the
/// first entry with id `id`.
pub open spec fn cap_walk(c: ConfigSpace, ptr: u8, id: u8, fuel: nat) -> Option<u8>
    decreases fuel,
{
    if fuel == 0 || ptr == 0 || ptr == 0xFF {
        None
    } else if c.byte_at(ptr) == id {
        Some(ptr)
    } else {
        cap_walk(c, c.byte_at(((ptr + 1) % 256) as u8) & 0xFC, id, (fuel - 1) as nat)
    }
}

/// The capability with id `id`: none unless the status register lists
/// capabilities; else the list from the capabilities pointer, followed for
/// at most 64 entries.
pub open spec fn capability(c: ConfigSpace, id: u8) -> Option<u8> {
    if c.word_at(0x06) & 0x10 == 0 {
        None
    } else {
        cap_walk(c, c.byte_at(0x34) & 0xFC, id, 64)
    }
}

/// `p + k` in a byte, wrapping.
pub open spec fn at(p: u8, k: u8) -> u8 {
    vstd::wrapping::u8_specs::wrapping_add(p, k)
}

/// The MSI capability at `p`: control at `p + 2`, address at `p + 4`
/// (and `p + 8` for 64-bit addresses), data after it, then the mask and
/// pending bits where per-vector masking is offered.
pub open spec fn msi_at(c: ConfigSpace, p: u8) -> MsiConfig {
    let control = c.word_at(at(p, 2));
    let low = c.dword_at(at(p, 4));
    let wide = control & 0x80 != 0;
    let masking = control & 0x100 != 0;
    MsiConfig {
        enabled: control & 1 != 0,
        multiple_message_capable: ((control >> 1u16) & 7) as u8,
        multiple_message_enable: ((control >> 4u16) & 7) as u8,
        address: if wide {
            ((c.dword_at(at(p, 8)) as u64) << 32u64) | (low as u64)
        } else {
            low as u64
        },
        data: if wide {
            c.word_at(at(p, 12))
        } else {
            c.word_at(at(p, 8))
        },
        mask_bits: if masking {
            if wide {
                c.dword_at(at(p, 16))
            } else {
                c.dword_at(at(p, 12))
            }
        } else {
            0
        },
        pending_bits: if masking {
            if wide {
                c.dword_at(at(p, 20))
            } else {
                c.dword_at(at(p, 16))
            }
        } else {
            0
        },
    }
}

/// The MSI-X capability at `p`.
pub open spec fn msix_at(c: ConfigSpace, p: u8) -> MsiXConfig {
    let control = c.word_at(at(p, 2));
    let table = c.dword_at(at(p, 4));
    let pending = c.dword_at(at(p, 8));
    MsiXConfig {
        enabled: control & 0x8000 != 0,
        function_mask: control & 0x4000 != 0,
        table_size: vstd::wrapping::u16_specs::wrapping_add(control & 0x07FF, 1),
        table_offset: table & 0xFFFF_FFF8,
        table_bar: (table & 7) as u8,
        pending_offset: pending & 0xFFFF_FFF8,
        pending_bar: (pending & 7) as u8,
    }
}

/// Reads the MSI capability at `p`.
fn read_msi_at(c: &ConfigSpace, p: u8) -> (r: MsiConfig)
    requires
        c.wf(),
    ensures
        r == msi_at(*c, p),
{
    let control = c.read_word(p.wrapping_add(2));
    let low = c.read_dword(p.wrapping_add(4));
    let wide = (control & 0x80) != 0;
    let masking = (control & 0x100) != 0;
    let address = if wide {
        ((c.read_dword(p.wrapping_add(8)) as u64) << 32u64) | (low as u64)
    } else {
        low as u64
    };
    let data = if wide {
        c.read_word(p.wrapping_add(12))
    } else {
        c.read_word(p.wrapping_add(8))
    };
    let mask_bits = if masking {
        if wide {
            c.read_dword(p.wrapping_add(16))
        } else {
            c.read_dword(p.wrapping_add(12))
        }
    } else {
        0
    };
    let pending_bits = if masking {
        if wide {
            c.read_dword(p.wrapping_add(20))
        } else {
            c.read_dword(p.wrapping_add(16))
        }
    } else {
        0
    };
    MsiConfig {
        enabled: (control & 1) != 0,
        multiple_message_capable: ((control >> 1u16) & 7) as u8,
        multiple_message_enable: ((control >> 4u16) & 7) as u8,
        address,
        data,
        mask_bits,
        pending_bits,
    }
}

/// Reads the MSI-X capability at `p`.
fn read_msix_at(c: &ConfigSpace, p: u8) -> (r: MsiXConfig)
    requires
        c.wf(),
    ensures
        r == msix_at(*c, p),
{
    let control = c.read_word(p.wrapping_add(2));
    let table = c.read_dword(p.wrapping_add(4));
    let pending = c.read_dword(p.wrapping_add(8));
    MsiXConfig {
        enabled: (control & 0x8000) != 0,
        function_mask: (control & 0x4000) != 0,
        table_size: (control & 0x07FF).wrapping_add(1),
        table_offset: table & 0xFFFF_FFF8,
        table_bar: (table & 7) as u8,
        pending_offset: pending & 0xFFFF_FFF8,
        pending_bar: (pending & 7) as u8,
    }
}

/// The dwords `d` with the word at `offset` replaced.
pub open spec fn put_word(d: Seq<u32>, offset: u8, v: u16) -> Seq<u32> {
    d.update((offset / 4) as int, with_word(d[(offset / 4) as int], ((offset % 4) / 2) as u32, v))
}

/// The dwords `d` with the byte at `offset` replaced.
pub open spec fn put_byte(d: Seq<u32>, offset: u8, v: u8) -> Seq<u32> {
    d.update((offset / 4) as int, with_byte(d[(offset / 4) as int], (offset % 4) as u32, v))
}

/// The dwords `d` with the dword at `offset` replaced.
pub open spec fn put_dword(d: Seq<u32>, offset: u8, v: u32) -> Seq<u32> {
    d.update((offset / 4) as int, v)
}

/// The command register with `bit` set or cleared.
pub open spec fn command_with(command: u16, bit: u16, enable: bool) -> u16 {
    if enable {
        command | bit
    } else {
        command & !bit
    }
}

/// Reads and changes device configuration spaces.
#[derive(Debug, Clone, Copy)]
pub struct PciConfigManager;

impl PciConfigManager {
    /// A configuration manager.
    pub fn new() -> (r: Self) {
        PciConfigManager
    }

    /// The six BARs, decoded and sized (`bars_from`).
    pub fn read_bars(&self, device: &PciDevice) -> (r: Vec<BarInfo>)
        requires
            device.wf(),
        ensures
            r@ == bars_from(device.config, 0),
    {
        let c = &device.config;
        let mut bars: Vec<BarInfo> = Vec::new();
        let mut i: usize = 0;
        while i < 6
            invariant
                c.wf(),
                i <= 7,
                bars@ + bars_from(*c, i as nat) == bars_from(*c, 0),
            decreases 7 - i,
        {
            let raw = c.dwords[4 + i];
            let mut info = BarInfo::from_raw(raw);
            if info.bar_type == BarType::Unused {
                bars.push(info);
                i = i + 1;
            } else {
                let mask = c.bar_masks[i];
                let bits = if info.is_io() {
                    mask & 0xFFFF_FFFC
                } else {
                    mask & 0xFFFF_FFF0
                };
                info.size = if bits != 0 {
                    (!bits).wrapping_add(1) as u64
                } else {
                    0
                };
                if info.bar_type == BarType::Memory64 && i < 5 {
                    let upper = c.dwords[5 + i];
                    info.base_address = info.base_address | ((upper as u64) << 32u64);
                    let upper_mask = c.bar_masks[i + 1];
                    if upper_mask != 0 {
                        let full = ((upper_mask as u64) << 32u64) | (bits as u64);
                        info.size = (!full).wrapping_add(1);
                    }
                    bars.push(info);
                    bars.push(
                        BarInfo {
                            bar_type: BarType::Unused,
                            base_address: 0,
                            size: 0,
                            prefetchable: false,
                            raw_value: upper,
                        },
                    );
                    i = i + 2;
                } else {
                    bars.push(info);
                    i = i + 1;
                }
            }
        }
        assert(bars@ + bars_from(*c, i as nat) =~= bars@);
        bars
    }

    fn set_command_bit(&self, device: &mut PciDevice, bit: u16, enable: bool)
        requires
            old(device).wf(),
        ensures
            final(device).wf(),
            final(device).config.dwords@ == put_word(
                old(device).config.dwords@,
                PCI_COMMAND,
                command_with(old(device).config.word_at(PCI_COMMAND), bit, enable),
            ),
            final(device).config.bar_masks@ == old(device).config.bar_masks@,
            final(device).capabilities == old(device).capabilities,
    {
        let command = device.config.read_word(PCI_COMMAND);
        let new_command = if enable {
            command | bit
        } else {
            command & !bit
        };
        device.config.write_word(PCI_COMMAND, new_command);
    }

    /// Turns I/O space decoding on or off in the command register.
    pub fn set_io_enable(&self, device: &mut PciDevice, enable: bool) -> (r: Result<(), &'static str>)
        requires
            old(device).wf(),
        ensures
            r is Ok,
            final(device).wf(),
            final(device).config.dwords@ == put_word(
                old(device).config.dwords@,
                PCI_COMMAND,
                command_with(old(device).config.word_at(PCI_COMMAND), PCI_COMMAND_IO, enable),
            ),
            final(device).config.bar_masks@ == old(device).config.bar_masks@,
            final(device).capabilities == old(device).capabilities,
    {
        self.set_command_bit(device, PCI_COMMAND_IO, enable);
        Ok(())
    }

    /// Turns memory space decoding on or off in the command register.
    pub fn set_memory_enable(&self, device: &mut PciDevice, enable: bool) -> (r: Result<(), &'static str>)
        requires
            old(device).wf(),
        ensures
            r is Ok,
            final(device).wf(),
            final(device).config.dwords@ == put_word(
                old(device).config.dwords@,
                PCI_COMMAND,
                command_with(old(device).config.word_at(PCI_COMMAND), PCI_COMMAND_MEMORY, enable),
            ),
            final(device).config.bar_masks@ == old(device).config.bar_masks@,
            final(device).capabilities == old(device).capabilities,
    {
        self.set_command_bit(device, PCI_COMMAND_MEMORY, enable);
        Ok(())
    }

    /// Turns bus mastering on or off in the command register.
    pub fn set_bus_master_enable(&self, device: &mut PciDevice, enable: bool) -> (r: Result<(), &'static str>)
        requires
            old(device).wf(),
        ensures
            r is Ok,
            final(device).wf(),
            final(device).config.dwords@ == put_word(
                old(device).config.dwords@,
                PCI_COMMAND,
                command_with(old(device).config.word_at(PCI_COMMAND), PCI_COMMAND_MASTER, enable),
            ),
            final(device).config.bar_masks@ == old(device).config.bar_masks@,
            final(device).capabilities == old(device).capabilities,
    {
        self.set_command_bit(device, PCI_COMMAND_MASTER, enable);
        Ok(())
    }

    /// The command register.
    pub fn get_command(&self, device: &PciDevice) -> (r: u16)
        requires
            device.wf(),
        ensures
            r == device.config.word_at(PCI_COMMAND),
    {
        device.config.read_word(PCI_COMMAND)
    }

    /// The status register.
    pub fn get_status(&self, device: &PciDevice) -> (r: u16)
        requires
            device.wf(),
        ensures
            r == device.config.word_at(PCI_STATUS),
    {
        device.config.read_word(PCI_STATUS)
    }

    /// Sets the interrupt line register.
    pub fn set_interrupt_line(&self, device: &mut PciDevice, irq: u8) -> (r: Result<(), &'static str>)
        requires
            old(device).wf(),
        ensures
            r is Ok,
            final(device).wf(),
            final(device).config.dwords@ == put_byte(old(device).config.dwords@, PCI_INTERRUPT_LINE, irq),
            final(device).config.bar_masks@ == old(device).config.bar_masks@,
            final(device).capabilities == old(device).capabilities,
    {
        device.config.write_byte(PCI_INTERRUPT_LINE, irq);
        Ok(())
    }

    /// The interrupt line register.
    pub fn get_interrupt_line(&self, device: &PciDevice) -> (r: u8)
        requires
            device.wf(),
        ensures
            r == device.config.byte_at(PCI_INTERRUPT_LINE),
    {
        device.config.read_byte(PCI_INTERRUPT_LINE)
    }

    /// The interrupt pin register.
    pub fn get_interrupt_pin(&self, device: &PciDevice) -> (r: u8)
        requires
            device.wf(),
        ensures
            r == device.config.byte_at(PCI_INTERRUPT_PIN),
    {
        device.config.read_byte(PCI_INTERRUPT_PIN)
    }

    /// The offset of capability `cap_id` (`capability`).
    #[verifier::rlimit(40)]
    pub fn find_capability(&self, device: &PciDevice, cap_id: u8) -> (r: Option<u8>)
        requires
            device.wf(),
        ensures
            r == capability(device.config, cap_id),
    {
        let status = device.config.read_word(PCI_STATUS);
        if (status & PCI_STATUS_CAP_LIST) == 0 {
            return None;
        }
        let mut ptr = device.config.read_byte(PCI_CAPABILITIES_PTR) & 0xFC;
        let mut fuel: u32 = 64;
        while fuel > 0 && ptr != 0 && ptr != 0xFF
            invariant
                device.wf(),
                fuel <= 64,
                device.config.word_at(0x06) & 0x10 != 0,
                cap_walk(device.config, device.config.byte_at(0x34) & 0xFC, cap_id, 64) == cap_walk(
                    device.config,
                    ptr,
                    cap_id,
                    fuel as nat,
                ),
            decreases fuel,
        {
            if device.config.read_byte(ptr) == cap_id {
                return Some(ptr);
            }
            ptr = device.config.read_byte(ptr.wrapping_add(1)) & 0xFC;
            fuel = fuel - 1;
        }
        None
    }

    /// The MSI capability (id 5): none when the device has no MSI or the
    /// list has no such entry; else `msi_at` its offset.
    #[verifier::rlimit(60)]
    pub fn read_msi_capability(&self, device: &PciDevice) -> (r: Option<MsiConfig>)
        requires
            device.wf(),
        ensures
            !device.capabilities.msi ==> r is None,
            device.capabilities.msi ==> r == match capability(device.config, 5) {
                Some(p) => Some(msi_at(device.config, p)),
                None => None::<MsiConfig>,
            },
    {
        if !device.capabilities.msi {
            return None;
        }
        let p = match self.find_capability(device, 0x05) {
            Some(p) => p,
            None => {
                return None;
            },
        };
        Some(read_msi_at(&device.config, p))
    }

    /// The MSI-X capability (id 0x11): none when the device has no MSI-X
    /// or the list has no such entry; else `msix_at` its offset.
    pub fn read_msi_x_capability(&self, device: &PciDevice) -> (r: Option<MsiXConfig>)
        requires
            device.wf(),
        ensures
            !device.capabilities.msi_x ==> r is None,
            device.capabilities.msi_x ==> r == match capability(device.config, 0x11) {
                Some(p) => Some(msix_at(device.config, p)),
                None => None::<MsiXConfig>,
            },
    {
        if !device.capabilities.msi_x {
            return None;
        }
        let p = match self.find_capability(device, 0x11) {
            Some(p) => p,
            None => {
                return None;
            },
        };
        Some(read_msix_at(&device.config, p))
    }

    /// The power state from the power management capability (id 1): the
    /// low two bits of its control register (`p + 4`) give D0 to D3hot.
    pub fn get_power_state(&self, device: &PciDevice) -> (r: Option<PowerState>)
        requires
            device.wf(),
        ensures
            !device.capabilities.power_management ==> r is None,
            device.capabilities.power_management ==> r == match capability(device.config, 1) {
                None => None::<PowerState>,
                Some(p) => {
                    let s = device.config.word_at(at(p, 4)) & 3;
                    if s == 0 {
                        Some(PowerState::D0)
                    } else if s == 1 {
                        Some(PowerState::D1)
                    } else if s == 2 {
                        Some(PowerState::D2)
                    } else {
                        Some(PowerState::D3Hot)
                    }
                },
            },
    {
        if !device.capabilities.power_management {
            return None;
        }
        let p = match self.find_capability(device, 0x01) {
            Some(p) => p,
            None => {
                return None;
            },
        };
        let pmcsr = device.config.read_word(p.wrapping_add(4));
        let state = pmcsr & 0x03;
        if state == 0 {
            Some(PowerState::D0)
        } else if state == 1 {
            Some(PowerState::D1)
        } else if state == 2 {
            Some(PowerState::D2)
        } else {
            Some(PowerState::D3Hot)
        }
    }

    /// Sets the power state: the low two bits of the power control
    /// register are cleared and the state's PMCSR bits (`pmcsr_bits`; D3
    /// for both D3 states) are or-ed in. Errors when
    /// the device has no power management or its capability is missing.
    pub fn set_power_state(&self, device: &mut PciDevice, state: PowerState) -> (r: Result<(), &'static str>)
        requires
            old(device).wf(),
        ensures
            final(device).wf(),
            final(device).capabilities == old(device).capabilities,
            final(device).config.bar_masks@ == old(device).config.bar_masks@,
            !old(device).capabilities.power_management ==> (r matches Err(m) && m@
                == "Device does not support power management"@) && final(device).config.dwords@ == old(device).config.dwords@,
            old(device).capabilities.power_management ==> match capability(old(device).config, 1) {
                None => (r matches Err(m) && m@ == "Power management capability not found"@) && final(device).config.dwords@
                    == old(device).config.dwords@,
                Some(p) => r is Ok && final(device).config.dwords@ == put_word(
                    old(device).config.dwords@,
                    at(p, 4),
                    (old(device).config.word_at(at(p, 4)) & !3u16) | pmcsr_bits(state),
                ),
            },
    {
        if !device.capabilities.power_management {
            return Err("Device does not support power management");
        }
        let p = match self.find_capability(device, 0x01) {
            Some(p) => p,
            None => {
                return Err("Power management capability not found");
            },
        };
        let mut pmcsr = device.config.read_word(p.wrapping_add(4));
        pmcsr = pmcsr & !3u16;
        pmcsr = pmcsr | state.pmcsr_bits();
        device.config.write_word(p.wrapping_add(4), pmcsr);
        Ok(())
    }

    /// Turns MSI on with the given message address and data: the address
    /// goes to `p + 4` (high half to `p + 8` for 64-bit capabilities), the
    /// data after it, and the enable bit is set in the control register.
    #[verifier::rlimit(60)]
    pub fn enable_msi(&self, device: &mut PciDevice, address: u64, data: u16) -> (r: Result<(), &'static str>)
        requires
            old(device).wf(),
        ensures
            final(device).wf(),
            final(device).capabilities == old(device).capabilities,
            final(device).config.bar_masks@ == old(device).config.bar_masks@,
            !old(device).capabilities.msi ==> (r matches Err(m) && m@ == "Device does not support MSI"@)
                && final(device).config.dwords@ == old(device).config.dwords@,
            old(device).capabilities.msi ==> match capability(old(device).config, 5) {
                None => (r matches Err(m) && m@ == "MSI capability not found"@) && final(device).config.dwords@
                    == old(device).config.dwords@,
                Some(p) => {
                    let d0 = old(device).config.dwords@;
                    let control = old(device).config.word_at(at(p, 2));
                    let d1 = put_dword(d0, at(p, 4), address as u32);
                    let d2 = if control & 0x80 != 0 {
                        put_word(put_dword(d1, at(p, 8), (address >> 32u64) as u32), at(p, 12), data)
                    } else {
                        put_word(d1, at(p, 8), data)
                    };
                    r is Ok && final(device).config.dwords@ == put_word(d2, at(p, 2), control | 1)
                },
            },
    {
        if !device.capabilities.msi {
            return Err("Device does not support MSI");
        }
        let p = match self.find_capability(device, 0x05) {
            Some(p) => p,
            None => {
                return Err("MSI capability not found");
            },
        };
        let control = device.config.read_word(p.wrapping_add(2));
        device.config.write_dword(p.wrapping_add(4), address as u32);
        if (control & 0x80) != 0 {
            device.config.write_dword(p.wrapping_add(8), (address >> 32u64) as u32);
            device.config.write_word(p.wrapping_add(12), data);
        } else {
            device.config.write_word(p.wrapping_add(8), data);
        }
        device.config.write_word(p.wrapping_add(2), control | 1);
        Ok(())
    }

    /// Turns MSI off: the enable bit of its control register is cleared.
    pub fn disable_msi(&self, device: &mut PciDevice) -> (r: Result<(), &'static str>)
        requires
            old(device).wf(),
        ensures
            final(device).wf(),
            final(device).capabilities == old(device).capabilities,
            final(device).config.bar_masks@ == old(device).config.bar_masks@,
            !old(device).capabilities.msi ==> (r matches Err(m) && m@ == "Device does not support MSI"@)
                && final(device).config.dwords@ == old(device).config.dwords@,
            old(device).capabilities.msi ==> match capability(old(device).config, 5) {
                None => (r matches Err(m) && m@ == "MSI capability not found"@) && final(device).config.dwords@
                    == old(device).config.dwords@,
                Some(p) => r is Ok && final(device).config.dwords@ == put_word(
                    old(device).config.dwords@,
                    at(p, 2),
                    old(device).config.word_at(at(p, 2)) & !1u16,
                ),
            },
    {
        if !device.capabilities.msi {
            return Err("Device does not support MSI");
        }
        let p = match self.find_capability(device, 0x05) {
            Some(p) => p,
            None => {
                return Err("MSI capability not found");
            },
        };
        let control = device.config.read_word(p.wrapping_add(2));
        device.config.write_word(p.wrapping_add(2), control & !1u16);
        Ok(())
    }

    /// The problems worth reporting about a device: error bits in its
    /// status register (`0xF900`), and a display or network device with
    /// neither I/O nor memory decoding enabled.
    pub fn config_problems(&self, device: &PciDevice) -> (r: (bool, bool))
        requires
            device.wf(),
        ensures
            r.0 == (device.config.word_at(PCI_STATUS) & 0xF900 != 0),
            r.1 == ((device.class_code == crate::pci::PciClass::Display || device.class_code
                == crate::pci::PciClass::Network) && device.config.word_at(PCI_COMMAND) & (PCI_COMMAND_IO
                | PCI_COMMAND_MEMORY) == 0),
    {
        let command = self.get_command(device);
        let status = self.get_status(device);
        let critical = matches!(device.class_code, crate::pci::PciClass::Display | crate::pci::PciClass::Network);
        ((status & 0xF900) != 0, critical && (command & (PCI_COMMAND_IO | PCI_COMMAND_MEMORY)) == 0)
    }
}

/// A word written at `offset` reads back as written there.
pub proof fn lemma_put_word_reads_back(d: Seq<u32>, offset: u8, v: u16)
    requires
        (offset / 4) < d.len(),
    ensures
        crate::pci::word_in(put_word(d, offset, v), offset) == v,
        forall|k: int| 0 <= k < d.len() && k != (offset / 4) as int ==> put_word(d, offset, v)[k] == d[k],
{
    crate::pci::lemma_word_roundtrip(d[(offset / 4) as int], offset, v);
}

/// The bit fields of a BAR register, in arithmetic terms.
proof fn lemma_bar_fields(raw: u32, upper: u32)
    by (bit_vector)
    ensures
        (raw & 1 == 1) == (raw % 2 == 1),
        (raw >> 1u32) & 0x3 == (raw / 2) % 4,
        (raw & 0x8 != 0) == ((raw / 8) % 2 == 1),
        (raw & 0xFFFF_FFF0) == raw - raw % 16,
        (raw & 0xFFFF_FFFC) == raw - raw % 4,
        ((raw & 0xFFFF_FFF0) as u64) | ((upper as u64) << 32u64) == ((raw & 0xFFFF_FFF0) as u64) + (upper as u64)
            * 0x1_0000_0000,
        !upper == 0xFFFF_FFFF - upper,
{
}

/// The size of a BAR is the two's complement of the address bits read
/// back after writing all ones: it and those bits add up to 2^32, and it is
/// 0 when no bit is set.
pub proof fn lemma_bar_size(bits: u32)
    ensures
        bits != 0 ==> bar_size_of(bits) + bits == 0x1_0000_0000,
        bits == 0 ==> bar_size_of(bits) == 0,
{
    lemma_bar_fields(0, bits);
}

/// How a BAR register decodes. Bit 0 set: an I/O BAR whose address is the
/// register without its two low bits. Bit 0 clear: bits 1-2 give the memory
/// type, 0 for a 32-bit and 2 for a 64-bit memory BAR (1 and 3 are unused),
/// whose address is the register without its four low bits and which is
/// prefetchable when bit 3 is set. A zero register is unused. The size is
/// left 0 and the register value is kept.
pub proof fn lemma_bar_decoding(raw: u32)
    ensures
        ({
            let b = bar_from_raw(raw);
            &&& b.raw_value == raw && b.size == 0
            &&& raw == 0 ==> b.bar_type == BarType::Unused
            &&& raw % 2 == 1 ==> b.bar_type == BarType::Io && b.base_address == raw - raw % 4 && !b.prefetchable
            &&& raw != 0 && raw % 2 == 0 && (raw / 2) % 4 == 0 ==> b.bar_type == BarType::Memory32 && b.base_address
                == raw - raw % 16 && b.prefetchable == ((raw / 8) % 2 == 1)
            &&& raw % 2 == 0 && (raw / 2) % 4 == 2 ==> b.bar_type == BarType::Memory64 && b.base_address == raw
                - raw % 16 && b.prefetchable == ((raw / 8) % 2 == 1)
            &&& raw % 2 == 0 && ((raw / 2) % 4 == 1 || (raw / 2) % 4 == 3) ==> b.bar_type == BarType::Unused
        }),
{
    lemma_bar_fields(raw, 0);
}

/// A 64-bit memory BAR takes the next register as the high half of its
/// address: where BAR `i` (below 5) is a 64-bit memory BAR, the decoded BAR
/// there is 64-bit with address low part plus the next register times
/// 2^32, and the next entry is an unused placeholder holding that register;
/// a 32-bit memory BAR keeps its 32-bit address and the next register is
/// decoded on its own.
pub proof fn lemma_bars_wide(c: ConfigSpace, i: nat)
    requires
        c.wf(),
        i < 6,
    ensures
        ({
            let raw = c.dwords@[4 + i as int];
            let bars = bars_from(c, i);
            &&& raw % 2 == 0 && (raw / 2) % 4 == 2 && i < 5 ==> {
                let upper = c.dwords@[5 + i as int];
                &&& bars.len() >= 2
                &&& bars[0].bar_type == BarType::Memory64
                &&& bars[0].base_address == (raw - raw % 16) + upper * 0x1_0000_0000
                &&& bars[1].bar_type == BarType::Unused
                &&& bars[1].raw_value == upper
                &&& bars.subrange(2, bars.len() as int) == bars_from(c, i + 2)
            }
            &&& raw != 0 && raw % 2 == 0 && (raw / 2) % 4 == 0 ==> {
                let mask = c.bar_masks@[i as int];
                &&& bars.len() >= 1
                &&& bars[0].bar_type == BarType::Memory32
                &&& bars[0].base_address == raw - raw % 16
                &&& (mask - mask % 16 != 0 ==> bars[0].size + (mask - mask % 16) == 0x1_0000_0000)
                &&& (mask - mask % 16 == 0 ==> bars[0].size == 0)
                &&& bars.subrange(1, bars.len() as int) == bars_from(c, i + 1)
            }
        }),
{
    let raw = c.dwords@[4 + i as int];
    if i < 5 {
        lemma_bar_fields(raw, c.dwords@[5 + i as int]);
    } else {
        lemma_bar_fields(raw, 0);
    }
    let mask = c.bar_masks@[i as int];
    lemma_bar_fields(mask, 0);
    lemma_bar_size(mask & 0xFFFF_FFF0);
    let bars = bars_from(c, i);
    if raw % 2 == 0 && (raw / 2) % 4 == 2 && i < 5 {
        assert(bars.subrange(2, bars.len() as int) =~= bars_from(c, i + 2));
    }
    if raw != 0 && raw % 2 == 0 && (raw / 2) % 4 == 0 {
        assert(bars.subrange(1, bars.len() as int) =~= bars_from(c, i + 1));
    }
}

/// Setting or clearing a bit of a 16-bit register and replacing its low
/// two bits, in terms of the bits kept and set.
proof fn lemma_register_bits(w: u16, b: u16, v: u16)
    by (bit_vector)
    requires
        v < 4,
    ensures
        (w | b) & b == b,
        (w | b) & !b == w & !b,
        (w & !b) & b == 0,
        (w & !b) & !b == w & !b,
        ((w & !3u16) | v) & 3 == v,
        ((w & !3u16) | v) & !3u16 == w & !3u16,
{
}

/// Turning a command bit on or off changes that bit alone: where `bit` is
/// the I/O space, memory space or bus master bit, the command register
/// written reads back with that bit set when enabling and clear when
/// disabling, and with every other bit as it was.
pub proof fn lemma_command_bit(c: ConfigSpace, bit: u16, enable: bool)
    requires
        c.wf(),
        bit == PCI_COMMAND_IO || bit == PCI_COMMAND_MEMORY || bit == PCI_COMMAND_MASTER,
    ensures
        ({
            let old_word = c.word_at(PCI_COMMAND);
            let new_word = crate::pci::word_in(
                put_word(c.dwords@, PCI_COMMAND, command_with(old_word, bit, enable)),
                PCI_COMMAND,
            );
            &&& new_word & bit == (if enable { bit } else { 0u16 })
            &&& new_word & !bit == old_word & !bit
        }),
{
    lemma_put_word_reads_back(c.dwords@, PCI_COMMAND, command_with(c.word_at(PCI_COMMAND), bit, enable));
    lemma_register_bits(c.word_at(PCI_COMMAND), bit, 0);
}

/// A power state written to the PMCSR register reads back as that state:
/// the word written keeps every bit of the old word but the two low ones,
/// which hold the state's number (0 to 3 for D0 to D3hot; D3cold is entered
/// through D3, so it writes 3), and decoding those bits as
/// `get_power_state` does gives the state back (D3hot for D3cold).
pub proof fn lemma_power_state_written(w: u16, s: PowerState)
    ensures
        ({
            let n = (w & !3u16) | pmcsr_bits(s);
            let bits = n & 3;
            &&& n & !3u16 == w & !3u16
            &&& bits == (if s == PowerState::D3Cold { 3 } else { power_code(s) })
            &&& (if bits == 0 {
                PowerState::D0
            } else if bits == 1 {
                PowerState::D1
            } else if bits == 2 {
                PowerState::D2
            } else {
                PowerState::D3Hot
            }) == (if s == PowerState::D3Cold { PowerState::D3Hot } else { s })
        }),
{
    lemma_register_bits(w, 0, pmcsr_bits(s));
}

} // verus!
