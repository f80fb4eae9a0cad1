//! Kernel memory: layout constants, alignment, zones, protection, the
//! buddy decomposition of usable memory, swap slots and heap sizing, and
//! checks on user-space accesses.
//!
//! Physical and virtual addresses are held as plain integers.
pub mod user_space;
pub mod swap;
pub mod frames;
pub mod faults;
pub mod regions;

use vstd::prelude::*;

verus! {

/// Size of a page.
pub const PAGE_SIZE: usize = 4096;

/// log2 of the page size.
pub const PAGE_SHIFT: usize = 12;

/// Start of the kernel heap.
pub const KERNEL_HEAP_START: u64 = 0x4444_4444_0000;

/// Size of the kernel heap (100 MiB).
pub const KERNEL_HEAP_SIZE: usize = 0x640_0000;

/// First address of user space.
pub const USER_SPACE_START: usize = 0x0000_1000_0000;

/// End of user space.
pub const USER_SPACE_END: usize = 0x0000_8000_0000;

/// First address of kernel space.
pub const KERNEL_SPACE_START: u64 = 0xFFFF_8000_0000_0000;

/// End of the DMA zone (16 MiB).
pub const DMA_ZONE_END: u64 = 0x100_0000;

/// End of the normal zone (896 MiB).
pub const NORMAL_ZONE_END: u64 = 0x3800_0000;

/// Largest buddy block order (2^10 pages, 4 MiB).
pub const MAX_ORDER: usize = 10;

/// Number of buddy block orders.
pub const NUM_ORDERS: usize = 11;

/// Physical memory zones.
#[derive(Debug, Clone, Copy, PartialEq, Eq, Structural)]
pub enum MemoryZone {
    /// Below 16 MiB.
    Dma,
    /// 16 MiB to 896 MiB.
    Normal,
    /// Above 896 MiB.
    HighMem,
}

/// The zone of a physical address.
pub open spec fn zone_of(addr: u64) -> MemoryZone {
    if addr < DMA_ZONE_END {
        MemoryZone::Dma
    } else if addr < NORMAL_ZONE_END {
        MemoryZone::Normal
    } else {
        MemoryZone::HighMem
    }
}

impl MemoryZone {
    /// The zone of physical address `addr`.
    pub fn from_address(addr: u64) -> (r: Self)
        ensures
            r == zone_of(addr),
    {
        if addr < DMA_ZONE_END {
            MemoryZone::Dma
        } else if addr < NORMAL_ZONE_END {
            MemoryZone::Normal
        } else {
            MemoryZone::HighMem
        }
    }

    /// The zone's index: 0, 1, 2.
    pub fn index(&self) -> (r: usize)
        ensures
            r == match *self {
                MemoryZone::Dma => 0usize,
                MemoryZone::Normal => 1usize,
                MemoryZone::HighMem => 2usize,
            },
    {
        match self {
            MemoryZone::Dma => 0,
            MemoryZone::Normal => 1,
            MemoryZone::HighMem => 2,
        }
    }
}

/// Kinds of virtual memory regions.
#[derive(Debug, Clone, Copy, PartialEq, Eq, Structural)]
pub enum MemoryRegionType {
    Kernel,
    KernelStack,
    UserCode,
    UserData,
    UserStack,
    UserHeap,
    DeviceMemory,
    SharedMemory,
    VideoMemory,
    CopyOnWrite,
    GuardPage,
}

/// Access rights and caching of memory.
#[derive(Debug, Clone, Copy, PartialEq, Eq, Structural)]
pub struct MemoryProtection {
    pub readable: bool,
    pub writable: bool,
    pub executable: bool,
    pub user_accessible: bool,
    pub cache_disabled: bool,
    pub write_through: bool,
    pub copy_on_write: bool,
    pub guard_page: bool,
}

/// No right at all.
pub open spec fn no_protection() -> MemoryProtection {
    MemoryProtection {
        readable: false,
        writable: false,
        executable: false,
        user_accessible: false,
        cache_disabled: false,
        write_through: false,
        copy_on_write: false,
        guard_page: false,
    }
}

/// Hardware page table bits.
pub const PT_PRESENT: u64 = 0x1;
pub const PT_WRITABLE: u64 = 0x2;
pub const PT_USER_ACCESSIBLE: u64 = 0x4;
pub const PT_WRITE_THROUGH: u64 = 0x8;
pub const PT_NO_CACHE: u64 = 0x10;
pub const PT_NO_EXECUTE: u64 = 0x8000_0000_0000_0000;

/// The page table bits of a protection.
pub open spec fn protection_bits(p: MemoryProtection) -> u64 {
    PT_PRESENT | (if p.writable && !p.copy_on_write {
        PT_WRITABLE
    } else {
        0
    }) | (if p.user_accessible {
        PT_USER_ACCESSIBLE
    } else {
        0
    }) | (if !p.executable {
        PT_NO_EXECUTE
    } else {
        0
    }) | (if p.cache_disabled {
        PT_NO_CACHE
    } else {
        0
    }) | (if p.write_through {
        PT_WRITE_THROUGH
    } else {
        0
    })
}

fn bit_if(on: bool, mask: u64) -> (r: u64)
    ensures
        r == (if on {
            mask
        } else {
            0
        }),
{
    if on {
        mask
    } else {
        0
    }
}

#[allow(non_snake_case)]
impl core::ops::BitOrAssign for MemoryProtection {
    /// Adds the rights and attributes of `rhs`: each flag becomes set when
    /// it is set in either.
    fn bitor_assign(&mut self, rhs: Self)
        ensures
            *final(self) == (MemoryProtection {
                readable: old(self).readable || rhs.readable,
                writable: old(self).writable || rhs.writable,
                executable: old(self).executable || rhs.executable,
                user_accessible: old(self).user_accessible || rhs.user_accessible,
                cache_disabled: old(self).cache_disabled || rhs.cache_disabled,
                write_through: old(self).write_through || rhs.write_through,
                copy_on_write: old(self).copy_on_write || rhs.copy_on_write,
                guard_page: old(self).guard_page || rhs.guard_page,
            }),
    {
        self.readable = self.readable || rhs.readable;
        self.writable = self.writable || rhs.writable;
        self.executable = self.executable || rhs.executable;
        self.user_accessible = self.user_accessible || rhs.user_accessible;
        self.cache_disabled = self.cache_disabled || rhs.cache_disabled;
        self.write_through = self.write_through || rhs.write_through;
        self.copy_on_write = self.copy_on_write || rhs.copy_on_write;
        self.guard_page = self.guard_page || rhs.guard_page;
    }
}

impl MemoryProtection {
    /// Kernel code: read and execute.
    pub fn KERNEL_CODE() -> (r: Self)
        ensures
            r == (MemoryProtection { readable: true, executable: true, ..no_protection() }),
    {
        MemoryProtection { readable: true, executable: true, ..Self::empty() }
    }

    /// Kernel data: read and write.
    pub fn KERNEL_DATA() -> (r: Self)
        ensures
            r == (MemoryProtection { readable: true, writable: true, ..no_protection() }),
    {
        MemoryProtection { readable: true, writable: true, ..Self::empty() }
    }

    /// User code: read and execute from user mode.
    pub fn USER_CODE() -> (r: Self)
        ensures
            r == (MemoryProtection { readable: true, executable: true, user_accessible: true, ..no_protection() }),
    {
        MemoryProtection { readable: true, executable: true, user_accessible: true, ..Self::empty() }
    }

    /// User data: read and write from user mode.
    pub fn USER_DATA() -> (r: Self)
        ensures
            r == (MemoryProtection { readable: true, writable: true, user_accessible: true, ..no_protection() }),
    {
        MemoryProtection { readable: true, writable: true, user_accessible: true, ..Self::empty() }
    }

    /// Device memory: read and write, uncached, write-through.
    pub fn DEVICE_MEMORY() -> (r: Self)
        ensures
            r == (MemoryProtection {
                readable: true,
                writable: true,
                cache_disabled: true,
                write_through: true,
                ..no_protection()
            }),
    {
        MemoryProtection { readable: true, writable: true, cache_disabled: true, write_through: true, ..Self::empty() }
    }

    /// A guard page: no access.
    pub fn GUARD_PAGE() -> (r: Self)
        ensures
            r == (MemoryProtection { guard_page: true, ..no_protection() }),
    {
        MemoryProtection { guard_page: true, ..Self::empty() }
    }

    /// Copy-on-write user data: read from user mode.
    pub fn COPY_ON_WRITE() -> (r: Self)
        ensures
            r == (MemoryProtection { readable: true, user_accessible: true, copy_on_write: true, ..no_protection() }),
    {
        MemoryProtection { readable: true, user_accessible: true, copy_on_write: true, ..Self::empty() }
    }

    /// Read access.
    pub fn READ() -> (r: Self)
        ensures
            r == (MemoryProtection { readable: true, ..no_protection() }),
    {
        MemoryProtection { readable: true, ..Self::empty() }
    }

    /// Read and write access.
    pub fn WRITE() -> (r: Self)
        ensures
            r == (MemoryProtection { readable: true, writable: true, ..no_protection() }),
    {
        MemoryProtection { readable: true, writable: true, ..Self::empty() }
    }

    /// Read and execute access.
    pub fn EXECUTE() -> (r: Self)
        ensures
            r == (MemoryProtection { readable: true, executable: true, ..no_protection() }),
    {
        MemoryProtection { readable: true, executable: true, ..Self::empty() }
    }

    /// No access.
    pub fn empty() -> (r: Self)
        ensures
            r == no_protection(),
    {
        MemoryProtection {
            readable: false,
            writable: false,
            executable: false,
            user_accessible: false,
            cache_disabled: false,
            write_through: false,
            copy_on_write: false,
            guard_page: false,
        }
    }

    /// The hardware page table bits: present; writable unless
    /// copy-on-write; user; no-execute unless executable; no cache;
    /// write-through.
    pub fn to_page_table_flags(self) -> (r: u64)
        ensures
            r == protection_bits(self),
    {
        PT_PRESENT | bit_if(self.writable && !self.copy_on_write, PT_WRITABLE) | bit_if(
            self.user_accessible,
            PT_USER_ACCESSIBLE,
        ) | bit_if(!self.executable, PT_NO_EXECUTE) | bit_if(self.cache_disabled, PT_NO_CACHE) | bit_if(
            self.write_through,
            PT_WRITE_THROUGH,
        )
    }

    /// Adds the rights of `rhs`.
    pub fn combine(&mut self, rhs: Self)
        ensures
            *final(self) == (MemoryProtection {
                readable: old(self).readable || rhs.readable,
                writable: old(self).writable || rhs.writable,
                executable: old(self).executable || rhs.executable,
                user_accessible: old(self).user_accessible || rhs.user_accessible,
                cache_disabled: old(self).cache_disabled || rhs.cache_disabled,
                write_through: old(self).write_through || rhs.write_through,
                copy_on_write: old(self).copy_on_write || rhs.copy_on_write,
                guard_page: old(self).guard_page || rhs.guard_page,
            }),
    {
        self.readable = self.readable || rhs.readable;
        self.writable = self.writable || rhs.writable;
        self.executable = self.executable || rhs.executable;
        self.user_accessible = self.user_accessible || rhs.user_accessible;
        self.cache_disabled = self.cache_disabled || rhs.cache_disabled;
        self.write_through = self.write_through || rhs.write_through;
        self.copy_on_write = self.copy_on_write || rhs.copy_on_write;
        self.guard_page = self.guard_page || rhs.guard_page;
    }
}

/// Buddy allocator statistics.
#[derive(Debug, Clone, Copy, PartialEq, Eq)]
pub struct BuddyAllocatorStats {
    pub total_free_blocks: usize,
    pub free_blocks_by_order: [usize; 11],
    pub max_order: usize,
    pub min_order: usize,
}

/// What a defragmentation did.
#[derive(Debug, Clone, Copy, PartialEq, Eq, Structural)]
pub struct DefragmentationResult {
    pub coalesced_blocks: usize,
    pub freed_bytes: usize,
}

/// Errors of memory management.
#[derive(Debug, Clone, Copy, PartialEq, Eq, Structural)]
pub enum MemoryError {
    OutOfMemory,
    MappingFailed,
    RegionOverlap,
    RegionNotFound,
    NoVirtualSpace,
    HeapInitFailed,
    InvalidAddress,
    WriteViolation,
    PrivilegeViolation,
    ExecuteViolation,
    GuardPageViolation,
    LazyAllocationNotImplemented,
    ProtectionFailed,
    InvalidOrder,
    BuddyAllocationFailed,
    FragmentationLimitExceeded,
    PermissionDenied,
}

impl MemoryError {
    /// The text of the error.
    pub fn message(&self) -> (r: &'static str)
        ensures
            r@ == memory_error_message(*self)@,
    {
        match self {
            MemoryError::OutOfMemory => "Out of physical memory",
            MemoryError::MappingFailed => "Failed to map virtual memory",
            MemoryError::RegionOverlap => "Memory region overlap detected",
            MemoryError::RegionNotFound => "Memory region not found",
            MemoryError::NoVirtualSpace => "No available virtual address space",
            MemoryError::HeapInitFailed => "Heap initialization failed",
            MemoryError::InvalidAddress => "Invalid memory address",
            MemoryError::WriteViolation => "Write access violation",
            MemoryError::PrivilegeViolation => "Privilege violation",
            MemoryError::ExecuteViolation => "Execute access violation",
            MemoryError::GuardPageViolation => "Guard page access violation",
            MemoryError::LazyAllocationNotImplemented => "Lazy allocation not implemented",
            MemoryError::ProtectionFailed => "Failed to change memory protection",
            MemoryError::InvalidOrder => "Invalid buddy allocator order",
            MemoryError::BuddyAllocationFailed => "Buddy allocation failed",
            MemoryError::FragmentationLimitExceeded => "Memory fragmentation limit exceeded",
            MemoryError::PermissionDenied => "Permission denied",
        }
    }
}

/// The text of an error.
pub open spec fn memory_error_message(e: MemoryError) -> &'static str {
    match e {
        MemoryError::OutOfMemory => "Out of physical memory",
        MemoryError::MappingFailed => "Failed to map virtual memory",
        MemoryError::RegionOverlap => "Memory region overlap detected",
        MemoryError::RegionNotFound => "Memory region not found",
        MemoryError::NoVirtualSpace => "No available virtual address space",
        MemoryError::HeapInitFailed => "Heap initialization failed",
        MemoryError::InvalidAddress => "Invalid memory address",
        MemoryError::WriteViolation => "Write access violation",
        MemoryError::PrivilegeViolation => "Privilege violation",
        MemoryError::ExecuteViolation => "Execute access violation",
        MemoryError::GuardPageViolation => "Guard page access violation",
        MemoryError::LazyAllocationNotImplemented => "Lazy allocation not implemented",
        MemoryError::ProtectionFailed => "Failed to change memory protection",
        MemoryError::InvalidOrder => "Invalid buddy allocator order",
        MemoryError::BuddyAllocationFailed => "Buddy allocation failed",
        MemoryError::FragmentationLimitExceeded => "Memory fragmentation limit exceeded",
        MemoryError::PermissionDenied => "Permission denied",
    }
}

/// `addr` rounded up by the mask of `align`.
pub open spec fn align_up_spec(addr: usize, align: usize) -> usize {
    ((addr + align - 1) as usize) & !((align - 1) as usize)
}

/// `addr` rounded down by the mask of `align`.
pub open spec fn align_down_spec(addr: usize, align: usize) -> usize {
    addr & !((align - 1) as usize)
}

/// Rounds `addr` up to a multiple of `align`, a power of two.
pub fn align_up(addr: usize, align: usize) -> (r: usize)
    requires
        align > 0,
        addr + align - 1 <= usize::MAX,
    ensures
        r == align_up_spec(addr, align),
{
    (addr + (align - 1)) & !(align - 1)
}

/// Rounds `addr` down to a multiple of `align`, a power of two.
pub fn align_down(addr: usize, align: usize) -> (r: usize)
    requires
        align > 0,
    ensures
        r == align_down_spec(addr, align),
{
    addr & !(align - 1)
}

/// With a mask `m` of low bits (an alignment minus one), rounding down
/// clears the low bits and loses less than the alignment; rounding up gives
/// a value with the low bits clear, at or above the address and less than
/// an alignment past it.
pub proof fn lemma_align(addr: u64, m: u64)
    requires
        m & ((m + 1) as u64) == 0,
        m < u64::MAX,
        addr + m <= u64::MAX,
    ensures
        (addr & !m) & m == 0,
        addr - (addr & !m) == addr & m,
        addr & m <= m,
        (((addr + m) as u64) & !m) & m == 0,
        (((addr + m) as u64) & !m) >= addr,
        (((addr + m) as u64) & !m) - addr <= m,
{
    assert((addr & !m) & m == 0) by (bit_vector);
    assert(addr - (addr & !m) == addr & m) by (bit_vector);
    assert(addr & m <= m) by (bit_vector);
    let s: u64 = (addr + m) as u64;
    assert((s & !m) & m == 0) by (bit_vector);
    assert((s & !m) >= addr && (s & !m) - addr <= m) by (bit_vector)
        requires
            s == addr + m,
            m & ((m + 1) as u64) == 0,
            m < u64::MAX,
    ;
}

/// Smallest kernel heap (512 KiB).
pub const MIN_HEAP_SIZE: usize = 0x8_0000;

/// Largest kernel heap (256 MiB).
pub const MAX_HEAP_SIZE: usize = 0x1000_0000;

/// What a heap resize to `new_size` answers, given the free and allocated
/// memory of the memory report (`None` without a memory manager).
pub open spec fn adjust_heap_spec(new_size: usize, report: Option<(usize, usize)>) -> Result<usize, &'static str> {
    if new_size < MIN_HEAP_SIZE {
        Err("Heap size too small (minimum 512KB required)")
    } else if new_size > MAX_HEAP_SIZE {
        Err("Heap size too large (maximum 256MB allowed)")
    } else {
        let aligned = align_up_spec(new_size, PAGE_SIZE);
        match report {
            None => Err("Memory manager not initialized"),
            Some((free, allocated)) => if aligned > KERNEL_HEAP_SIZE {
                if free < aligned - KERNEL_HEAP_SIZE {
                    Err("Insufficient free memory for heap expansion")
                } else {
                    Ok(aligned)
                }
            } else if aligned < KERNEL_HEAP_SIZE {
                if allocated > aligned {
                    Err("Cannot shrink heap below current allocation level")
                } else {
                    Ok(aligned)
                }
            } else {
                Ok(KERNEL_HEAP_SIZE)
            },
        }
    }
}

/// Decides a kernel heap resize to `new_size` (512 KiB to 256 MiB, rounded
/// up to whole pages) against the current heap of `KERNEL_HEAP_SIZE`:
/// growing needs that much free memory, shrinking must stay above the
/// allocated memory. `report` holds the free and allocated memory, `None`
/// without a memory manager.
pub fn adjust_heap(new_size: usize, report: Option<(usize, usize)>) -> (r: Result<usize, &'static str>)
    ensures
        r == adjust_heap_spec(new_size, report),
{
    if new_size < MIN_HEAP_SIZE {
        return Err("Heap size too small (minimum 512KB required)");
    }
    if new_size > MAX_HEAP_SIZE {
        return Err("Heap size too large (maximum 256MB allowed)");
    }
    let aligned_size = align_up(new_size, PAGE_SIZE);
    match report {
        None => Err("Memory manager not initialized"),
        Some((free_memory, allocated_memory)) => {
            let current_heap_size = KERNEL_HEAP_SIZE;
            if aligned_size > current_heap_size {
                let expansion_size = aligned_size - current_heap_size;
                if free_memory < expansion_size {
                    return Err("Insufficient free memory for heap expansion");
                }
                Ok(aligned_size)
            } else if aligned_size < current_heap_size {
                if allocated_memory > aligned_size {
                    return Err("Cannot shrink heap below current allocation level");
                }
                Ok(aligned_size)
            } else {
                Ok(current_heap_size)
            }
        },
    }
}

} // verus!
