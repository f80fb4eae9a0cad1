//! Early memory set-up: what the boot memory map holds, alignment, and
//! where the kernel heap goes.
use vstd::prelude::*;

verus! {

/// Size of a page.
pub const PAGE_SIZE: usize = 4096;

/// Start of the early kernel heap (8 MiB).
pub const KERNEL_HEAP_START: usize = 0x80_0000;

/// Size of the early kernel heap (16 MiB).
pub const KERNEL_HEAP_SIZE: usize = 0x100_0000;

/// A region of the boot memory map: `[start, end)` and whether it is usable
/// RAM.
#[derive(Debug, Clone, Copy, PartialEq, Eq, Structural)]
pub struct BootMemoryRegion {
    pub start: u64,
    pub end: u64,
    pub usable: bool,
}

/// Totals of the boot memory map.
#[derive(Debug, Clone, Copy, PartialEq, Eq, Structural)]
pub struct MemoryStats {
    pub total_memory: usize,
    pub usable_memory: usize,
    pub memory_regions: usize,
}

/// The size of every region added up.
pub open spec fn total_of(rs: Seq<BootMemoryRegion>) -> int
    decreases rs.len(),
{
    if rs.len() == 0 {
        0
    } else {
        total_of(rs.drop_last()) + (rs.last().end - rs.last().start)
    }
}

/// The size of the usable regions added up.
pub open spec fn usable_of(rs: Seq<BootMemoryRegion>) -> int
    decreases rs.len(),
{
    if rs.len() == 0 {
        0
    } else {
        usable_of(rs.drop_last()) + if rs.last().usable {
            rs.last().end - rs.last().start
        } else {
            0
        }
    }
}

proof fn lemma_sums_bound(rs: Seq<BootMemoryRegion>)
    requires
        forall|i: int| 0 <= i < rs.len() ==> (#[trigger] rs[i]).start <= rs[i].end,
    ensures
        0 <= usable_of(rs) <= total_of(rs),
    decreases rs.len(),
{
    if rs.len() > 0 {
        lemma_sums_bound(rs.drop_last());
    }
}

proof fn lemma_sums_prefix(rs: Seq<BootMemoryRegion>, k: int)
    requires
        0 <= k <= rs.len(),
        forall|i: int| 0 <= i < rs.len() ==> (#[trigger] rs[i]).start <= rs[i].end,
    ensures
        0 <= usable_of(rs.subrange(0, k)) <= total_of(rs.subrange(0, k)) <= total_of(rs),
    decreases rs.len() - k,
{
    lemma_sums_bound(rs.subrange(0, k));
    if k < rs.len() {
        lemma_sums_prefix(rs, k + 1);
        assert(rs.subrange(0, k + 1).drop_last() =~= rs.subrange(0, k));
    } else {
        assert(rs.subrange(0, k) =~= rs);
    }
}

/// Adds up the sizes of all regions and of the usable ones.
pub fn analyze_memory_map(memory_regions: &[BootMemoryRegion]) -> (r: MemoryStats)
    requires
        forall|i: int| 0 <= i < memory_regions@.len() ==> (#[trigger] memory_regions@[i]).start <= memory_regions@[i].end,
        total_of(memory_regions@) <= usize::MAX,
    ensures
        r == (MemoryStats {
            total_memory: total_of(memory_regions@) as usize,
            usable_memory: usable_of(memory_regions@) as usize,
            memory_regions: memory_regions@.len() as usize,
        }),
{
    let mut total: usize = 0;
    let mut usable: usize = 0;
    let mut i: usize = 0;
    while i < memory_regions.len()
        invariant
            i <= memory_regions@.len(),
            forall|k: int| 0 <= k < memory_regions@.len() ==> (#[trigger] memory_regions@[k]).start <= memory_regions@[k].end,
            total_of(memory_regions@) <= usize::MAX,
            total == total_of(memory_regions@.subrange(0, i as int)),
            usable == usable_of(memory_regions@.subrange(0, i as int)),
        decreases memory_regions@.len() - i,
    {
        proof {
            lemma_sums_prefix(memory_regions@, i + 1);
            assert(memory_regions@.subrange(0, i + 1).drop_last() =~= memory_regions@.subrange(0, i as int));
        }
        let region = memory_regions[i];
        let size = region.end - region.start;
        total = total + size as usize;
        if region.usable {
            usable = usable + size as usize;
        }
        i = i + 1;
    }
    assert(memory_regions@.subrange(0, memory_regions@.len() as int) =~= memory_regions@);
    MemoryStats { total_memory: total, usable_memory: usable, memory_regions: memory_regions.len() }
}

/// Sets up early memory management: the totals of the memory map.
pub fn init_memory(memory_regions: &[BootMemoryRegion], physical_memory_offset: u64) -> (r: Result<MemoryStats, &'static str>)
    requires
        forall|i: int| 0 <= i < memory_regions@.len() ==> (#[trigger] memory_regions@[i]).start <= memory_regions@[i].end,
        total_of(memory_regions@) <= usize::MAX,
    ensures
        r == Ok::<MemoryStats, &'static str>(
            MemoryStats {
                total_memory: total_of(memory_regions@) as usize,
                usable_memory: usable_of(memory_regions@) as usize,
                memory_regions: memory_regions@.len() as usize,
            },
        ),
{
    Ok(analyze_memory_map(memory_regions))
}

/// Rounds `addr` up to a multiple of `align`, a power of two.
pub fn align_up(addr: usize, align: usize) -> (r: usize)
    requires
        align > 0,
        addr + align - 1 <= usize::MAX,
    ensures
        r == ((addr + align - 1) as usize) & !((align - 1) as usize),
{
    (addr + (align - 1)) & !(align - 1)
}

/// Rounds `addr` down to a multiple of `align`, a power of two.
pub fn align_down(addr: usize, align: usize) -> (r: usize)
    requires
        align > 0,
    ensures
        r == addr & !((align - 1) as usize),
{
    addr & !(align - 1)
}

/// Lowest address for the heap (1 MiB).
pub const MIN_HEAP_ADDR: u64 = 0x10_0000;

/// Size of the heap placed from the memory map (16 MiB).
pub const DESIRED_HEAP_SIZE: usize = 0x100_0000;

/// Whether region `r` can hold the heap: usable, from 1 MiB up, 16 MiB
/// or more.
pub open spec fn heap_fits(r: BootMemoryRegion) -> bool {
    r.usable && r.start >= MIN_HEAP_ADDR && (r.end - r.start) as u64 as usize >= DESIRED_HEAP_SIZE
}

/// Where to put the heap: the virtual start (physical start plus the
/// offset) and size of the first region that can hold it.
pub fn init_heap_from_memory_map(memory_regions: &[BootMemoryRegion], physical_memory_offset: u64) -> (r: Result<
    (u64, usize),
    &'static str,
>)
    requires
        forall|i: int| 0 <= i < memory_regions@.len() ==> (#[trigger] memory_regions@[i]).start <= memory_regions@[i].end,
        forall|i: int|
            0 <= i < memory_regions@.len() && heap_fits(#[trigger] memory_regions@[i]) ==> memory_regions@[i].start
                + physical_memory_offset <= u64::MAX,
    ensures
        match r {
            Ok((start, size)) => exists|i: int|
                0 <= i < memory_regions@.len() && heap_fits(#[trigger] memory_regions@[i]) && (forall|j: int|
                    0 <= j < i ==> !heap_fits(memory_regions@[j])) && start == memory_regions@[i].start
                    + physical_memory_offset && size == DESIRED_HEAP_SIZE,
            Err(e) => e == "No suitable memory region found for heap" && forall|i: int|
                0 <= i < memory_regions@.len() ==> !heap_fits(#[trigger] memory_regions@[i]),
        },
{
    let mut i: usize = 0;
    while i < memory_regions.len()
        invariant
            i <= memory_regions@.len(),
            forall|k: int| 0 <= k < memory_regions@.len() ==> (#[trigger] memory_regions@[k]).start <= memory_regions@[k].end,
            forall|k: int|
                0 <= k < memory_regions@.len() && heap_fits(#[trigger] memory_regions@[k]) ==> memory_regions@[k].start
                    + physical_memory_offset <= u64::MAX,
            forall|j: int| 0 <= j < i ==> !heap_fits(#[trigger] memory_regions@[j]),
        decreases memory_regions@.len() - i,
    {
        let region = memory_regions[i];
        if region.usable && region.start >= MIN_HEAP_ADDR {
            let size = (region.end - region.start) as usize;
            if size >= DESIRED_HEAP_SIZE {
                assert(heap_fits(memory_regions@[i as int]));
                let virt_start = region.start + physical_memory_offset;
                let heap_size = if DESIRED_HEAP_SIZE < size {
                    DESIRED_HEAP_SIZE
                } else {
                    size
                };
                return Ok((virt_start, heap_size));
            }
        }
        i = i + 1;
    }
    Err("No suitable memory region found for heap")
}

} // verus!
