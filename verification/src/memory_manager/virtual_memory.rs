//! The virtual memory manager: the checks and address choices of mmap,
//! munmap, mprotect, brk and sbrk, regions by start address, statistics and
//! page fault decisions.
//!
//! Mapping pages and flushing the TLB are the caller's work.
use vstd::prelude::*;
use crate::memory_manager::memory_region::{MemoryRegion, MemoryType, ProtectionFlags, region_size};

verus! {

/// Virtual memory errors.
#[derive(Debug, Clone, Copy, PartialEq, Eq, Structural)]
pub enum VmError {
    InvalidAddress,
    InvalidSize,
    OutOfMemory,
    PermissionDenied,
    RegionNotFound,
    AlreadyMapped,
    InvalidFlags,
    NotAligned,
    NotInitialized,
    AlreadyInitialized,
    InvalidOperation,
}

/// Result of virtual memory operations.
pub type VmResult<T> = Result<T, VmError>;

/// Flags of an mmap call.
#[derive(Debug, Clone, Copy, PartialEq, Eq, Structural)]
pub struct MmapFlags {
    /// MAP_FIXED.
    pub fixed: bool,
    /// MAP_SHARED.
    pub shared: bool,
    /// MAP_PRIVATE.
    pub private: bool,
    /// MAP_ANONYMOUS.
    pub anonymous: bool,
}

impl MmapFlags {
    /// An anonymous private mapping.
    pub fn anonymous_private() -> (r: Self)
        ensures
            r == (MmapFlags { fixed: false, shared: false, private: true, anonymous: true }),
    {
        MmapFlags { fixed: false, shared: false, private: true, anonymous: true }
    }

    /// A shared mapping.
    pub fn shared() -> (r: Self)
        ensures
            r == (MmapFlags { fixed: false, shared: true, private: false, anonymous: false }),
    {
        MmapFlags { fixed: false, shared: true, private: false, anonymous: false }
    }

    /// A fixed, anonymous, private mapping.
    pub fn fixed() -> (r: Self)
        ensures
            r == (MmapFlags { fixed: true, shared: false, private: true, anonymous: true }),
    {
        MmapFlags { fixed: true, shared: false, private: true, anonymous: true }
    }
}

/// Memory statistics.
#[derive(Debug, Clone, Copy, PartialEq, Eq, Structural)]
pub struct MemoryStats {
    /// Bytes in regions.
    pub total_allocated: usize,
    /// Number of regions.
    pub region_count: usize,
    /// The program break.
    pub current_brk: usize,
    /// Pages in regions.
    pub mapped_pages: usize,
}

impl Default for MemoryStats {
    fn default() -> (r: Self)
        ensures
            r == (MemoryStats { total_allocated: 0, region_count: 0, current_brk: 0, mapped_pages: 0 }),
    {
        MemoryStats { total_allocated: 0, region_count: 0, current_brk: 0, mapped_pages: 0 }
    }
}

/// Start of the user heap.
pub const USER_HEAP_START: u64 = 0x0000_1000_0000;

/// End of the user heap.
pub const USER_HEAP_END: u64 = 0x0000_4000_0000;

/// Start of the mmap area.
pub const MMAP_START: u64 = 0x0000_4000_0000;

/// End of the mmap area.
pub const MMAP_END: u64 = 0x0000_8000_0000;

/// Top of the user stack.
pub const STACK_TOP: u64 = 0x0000_8000_0000;

/// Whether `a` is a canonical 48-bit virtual address: bits 48 to 63 copy
/// bit 47.
pub open spec fn canonical(a: u64) -> bool {
    a < 0x0000_8000_0000_0000 || a >= 0xFFFF_8000_0000_0000
}

/// `len` rounded up to a multiple of 4096.
pub open spec fn page_align(len: int) -> int {
    ((len + 4095) / 4096) * 4096
}

/// Rounds `len` up to a multiple of 4096.
pub fn align_length(len: usize) -> (r: usize)
    requires
        len + 4095 <= usize::MAX,
    ensures
        r == page_align(len as int),
{
    let s = len + 4095;
    let r = s & !4095usize;
    assert(r == (s / 4096) * 4096) by (bit_vector)
        requires
            r == s & !4095usize,
    ;
    r
}

/// The regions are in strictly increasing order of start address.
pub open spec fn regions_sorted(s: Seq<MemoryRegion>) -> bool {
    forall|i: int, j: int| 0 <= i < j < s.len() ==> (#[trigger] s[i]).start < (#[trigger] s[j]).start
}

/// The first region, in order, that contains `addr`.
pub open spec fn region_at(s: Seq<MemoryRegion>, addr: u64) -> Option<MemoryRegion>
    decreases s.len(),
{
    if s.len() == 0 {
        None
    } else if s[0].start <= addr && addr < s[0].end {
        Some(s[0])
    } else {
        region_at(s.drop_first(), addr)
    }
}

/// The sum of the region sizes.
pub open spec fn total_size(s: Seq<MemoryRegion>) -> int
    decreases s.len(),
{
    if s.len() == 0 {
        0
    } else {
        total_size(s.drop_last()) + region_size(s.last().start, s.last().end)
    }
}

/// The sum of the region sizes in pages.
pub open spec fn total_pages(s: Seq<MemoryRegion>) -> int
    decreases s.len(),
{
    if s.len() == 0 {
        0
    } else {
        total_pages(s.drop_last()) + (region_size(s.last().start, s.last().end) + 4095) / 4096
    }
}

/// Where an mmap call puts a mapping: at `addr` when fixed or given, at the
/// next mmap address otherwise.
pub open spec fn mmap_start(next: u64, addr: usize, flags: MmapFlags) -> u64 {
    if flags.fixed || addr != 0 {
        addr as u64
    } else {
        next
    }
}

/// What an mmap call answers; `None` where it fails before the region
/// check.
pub open spec fn mmap_result(regions: Seq<MemoryRegion>, next: u64, addr: usize, length: usize, flags: MmapFlags) -> VmResult<u64> {
    if length == 0 {
        Err(VmError::InvalidSize)
    } else if flags.fixed && addr == 0 {
        Err(VmError::InvalidAddress)
    } else if flags.fixed && addr % 4096 != 0 {
        Err(VmError::NotAligned)
    } else if flags.fixed && region_at(regions, addr as u64) is Some {
        Err(VmError::AlreadyMapped)
    } else {
        Ok(mmap_start(next, addr, flags))
    }
}

/// The kind of memory an mmap call maps.
pub open spec fn mmap_type(flags: MmapFlags) -> MemoryType {
    if flags.anonymous {
        MemoryType::Anonymous
    } else if flags.shared {
        MemoryType::Shared
    } else {
        MemoryType::FileBacked
    }
}

/// The region a successful mmap call records: from `start` over the length
/// rounded up to whole pages.
pub open spec fn mmap_region(start: u64, length: usize, prot: ProtectionFlags, flags: MmapFlags) -> MemoryRegion {
    MemoryRegion {
        start,
        end: (start + page_align(length as int)) as u64,
        protection: prot,
        memory_type: mmap_type(flags),
        shared: flags.shared,
        copy_on_write: false,
        file_descriptor: None,
        file_offset: 0,
        name: None,
    }
}

/// Where the next mmap without an address goes after a mapping at `start`:
/// past the mapping when it ends beyond `next`, so that a later mapping
/// without an address lands above every recorded one.
pub open spec fn mmap_next(next: u64, start: u64, length: usize, flags: MmapFlags) -> u64 {
    let end = start + page_align(length as int);
    if end > next {
        end as u64
    } else {
        next
    }
}

/// The regions of `s`, in order, that do not lie wholly within `[lo, hi)`.
pub open spec fn uncovered(s: Seq<MemoryRegion>, lo: int, hi: int) -> Seq<MemoryRegion>
    decreases s.len(),
{
    if s.len() == 0 {
        s
    } else {
        let t = uncovered(s.drop_last(), lo, hi);
        if lo <= s.last().start && s.last().end <= hi {
            t
        } else {
            t.push(s.last())
        }
    }
}

/// `i` is where a region starting at `a` goes among the sorted `s`: every
/// region before it starts below `a`, every region from it on at or above.
pub open spec fn insertion_point(s: Seq<MemoryRegion>, a: u64, i: int) -> bool {
    &&& 0 <= i <= s.len()
    &&& forall|j: int| 0 <= j < i ==> (#[trigger] s[j]).start < a
    &&& forall|j: int| i <= j < s.len() ==> (#[trigger] s[j]).start >= a
}

/// Among sorted regions, every address has its insertion point.
pub proof fn lemma_insertion_point_exists(s: Seq<MemoryRegion>, a: u64)
    requires
        regions_sorted(s),
    ensures
        exists|i: int| insertion_point(s, a, i),
    decreases s.len(),
{
    if s.len() == 0 {
        assert(insertion_point(s, a, 0));
    } else {
        let t = s.drop_last();
        assert(regions_sorted(t)) by {
            assert forall|i: int, j: int| 0 <= i < j < t.len() implies (#[trigger] t[i]).start < (#[trigger] t[j]).start by {
                assert(s[i].start < s[j].start);
            }
        }
        lemma_insertion_point_exists(t, a);
        let k = choose|k: int| insertion_point(t, a, k);
        if s.last().start < a {
            assert forall|j: int| 0 <= j < s.len() implies (#[trigger] s[j]).start < a by {
                if j < s.len() - 1 {
                    assert(s[j].start < s[s.len() - 1].start);
                }
            }
            assert(insertion_point(s, a, s.len() as int));
        } else {
            assert forall|j: int| 0 <= j < k implies (#[trigger] s[j]).start < a by {
                assert(t[j] == s[j]);
            }
            assert forall|j: int| k <= j < s.len() implies (#[trigger] s[j]).start >= a by {
                if j < s.len() - 1 {
                    assert(t[j] == s[j]);
                }
            }
            assert(insertion_point(s, a, k));
        }
    }
}

/// `s` with `r` placed in order of start address; a region that starts
/// where `r` does is replaced.
pub open spec fn with_region(s: Seq<MemoryRegion>, r: MemoryRegion) -> Seq<MemoryRegion> {
    let i = choose|i: int| insertion_point(s, r.start, i);
    if i < s.len() && s[i].start == r.start {
        s.update(i, r)
    } else {
        s.insert(i, r)
    }
}

/// Places `region` among the sorted `v` (`with_region`).
fn insert_region(v: &mut Vec<MemoryRegion>, region: MemoryRegion)
    requires
        regions_sorted(old(v)@),
    ensures
        regions_sorted(final(v)@),
        final(v)@ == with_region(old(v)@, region),
{
    let mut i: usize = 0;
    while i < v.len() && v[i].start < region.start
        invariant
            i <= v@.len(),
            v@ == old(v)@,
            regions_sorted(v@),
            forall|j: int| 0 <= j < i ==> (#[trigger] v@[j]).start < region.start,
        decreases v@.len() - i,
    {
        i = i + 1;
    }
    let ghost s = v@;
    let ghost a = region.start;
    proof {
        assert forall|j: int| i <= j < s.len() implies (#[trigger] s[j]).start >= a by {
            if j > i {
                assert(s[i as int].start < s[j].start);
            }
        }
        assert(insertion_point(s, a, i as int));
        let c = choose|c: int| insertion_point(s, a, c);
        if c < i {
            assert(s[c].start >= a);
            assert(s[c].start < a);
        }
        if c > i {
            assert(s[i as int].start < a);
        }
        assert(c == i);
    }
    if i < v.len() && v[i].start == region.start {
        v.set(i, region);
    } else {
        v.insert(i, region);
    }
    proof {
        assert forall|x: int, y: int| 0 <= x < y < v@.len() implies (#[trigger] v@[x]).start < (#[trigger] v@[y]).start by {
            if i < s.len() && s[i as int].start == a {
                assert(v@ == s.update(i as int, region));
                if x != i && y != i {
                    assert(s[x].start < s[y].start);
                } else if x == i {
                    assert(s[x].start < s[y].start);
                } else {
                    assert(s[x].start < s[y].start);
                }
            } else {
                assert(v@ == s.insert(i as int, region));
                if y < i {
                    assert(s[x].start < s[y].start);
                } else if x > i {
                    assert(s[x - 1].start < s[y - 1].start);
                } else if x == i {
                    assert(s[i as int].start >= a);
                    if y - 1 > i {
                        assert(s[i as int].start < s[y - 1].start);
                    }
                } else if y == i {
                    assert(s[x].start < a);
                } else {
                    assert(s[x].start < a);
                    assert(s[y - 1].start >= a);
                }
            }
        }
    }
}

/// The addresses an mmap call computes are canonical and fit.
pub open spec fn mmap_fits(next: u64, addr: usize, length: usize, flags: MmapFlags) -> bool {
    let start = mmap_start(next, addr, flags);
    &&& length > 0 ==> length + 4095 <= usize::MAX
    &&& length > 0 && !(flags.fixed && (addr == 0 || addr % 4096 != 0)) ==> {
        &&& page_align(length as int) + 4095 <= usize::MAX
        &&& canonical(start)
        &&& start + page_align(length as int) <= u64::MAX
        &&& canonical((start + page_align(length as int)) as u64)
    }
}

/// The addresses an munmap or mprotect call computes are canonical and fit.
pub open spec fn range_fits(addr: usize, length: usize) -> bool {
    length > 0 && addr % 4096 == 0 ==> {
        &&& length + 4095 <= usize::MAX
        &&& canonical(addr as u64)
        &&& addr + page_align(length as int) <= u64::MAX
        &&& canonical((addr + page_align(length as int)) as u64)
    }
}

/// What a brk call answers: the current break for 0; `InvalidAddress`
/// below the initial break; `OutOfMemory` past the end of the heap; the
/// new break otherwise.
pub open spec fn brk_result(program_break: u64, initial_break: u64, addr: usize) -> VmResult<usize> {
    if addr == 0 {
        Ok(program_break as usize)
    } else if (addr as u64) < initial_break {
        Err(VmError::InvalidAddress)
    } else if addr as u64 > USER_HEAP_END {
        Err(VmError::OutOfMemory)
    } else {
        Ok(addr as u64 as usize)
    }
}

/// The virtual memory manager of one address space.
pub struct VirtualMemoryManager {
    regions: Vec<MemoryRegion>,
    program_break: u64,
    initial_break: u64,
    next_mmap_addr: u64,
    physical_memory_offset: u64,
    stats: MemoryStats,
}

impl VirtualMemoryManager {
    /// The regions, in order of start address.
    pub closed spec fn regions_spec(&self) -> Seq<MemoryRegion> {
        self.regions@
    }

    /// The program break.
    pub closed spec fn break_spec(&self) -> u64 {
        self.program_break
    }

    /// The initial program break.
    pub closed spec fn initial_break_spec(&self) -> u64 {
        self.initial_break
    }

    /// Where the next mmap without an address goes.
    pub closed spec fn next_mmap_spec(&self) -> u64 {
        self.next_mmap_addr
    }

    /// The offset at which physical memory is mapped.
    pub closed spec fn offset_spec(&self) -> u64 {
        self.physical_memory_offset
    }

    /// The regions are in order of start address.
    pub closed spec fn wf(&self) -> bool {
        regions_sorted(self.regions@)
    }

    /// The regions of a well-formed manager are sorted by start, and there
    /// are no more of them than a `usize` counts.
    pub proof fn lemma_wf_sorted(m: VirtualMemoryManager)
        requires
            m.wf(),
        ensures
            regions_sorted(m.regions_spec()),
            m.regions_spec().len() <= usize::MAX,
    {
        assert(m.regions@.len() == m.regions.len());
    }

    /// An empty address space whose heap starts at `USER_HEAP_START` and
    /// whose mappings start at `MMAP_START`.
    pub fn new(physical_memory_offset: u64) -> (r: Self)
        ensures
            r.wf(),
            r.regions_spec().len() == 0,
            r.break_spec() == USER_HEAP_START,
            r.initial_break_spec() == USER_HEAP_START,
            r.next_mmap_spec() == MMAP_START,
            r.offset_spec() == physical_memory_offset,
    {
        VirtualMemoryManager {
            regions: Vec::new(),
            program_break: USER_HEAP_START,
            initial_break: USER_HEAP_START,
            next_mmap_addr: MMAP_START,
            physical_memory_offset,
            stats: MemoryStats::default(),
        }
    }

    fn find_region_at(&self, addr: u64) -> (r: Option<&MemoryRegion>)
        ensures
            match r {
                Some(x) => region_at(self.regions@, addr) == Some(*x),
                None => region_at(self.regions@, addr) is None,
            },
    {
        let mut i: usize = 0;
        assert(self.regions@.subrange(0, self.regions@.len() as int) =~= self.regions@);
        while i < self.regions.len()
            invariant
                i <= self.regions@.len(),
                region_at(self.regions@, addr) == region_at(self.regions@.subrange(i as int, self.regions@.len() as int), addr),
            decreases self.regions@.len() - i,
        {
            let ghost rest = self.regions@.subrange(i as int, self.regions@.len() as int);
            assert(rest.drop_first() =~= self.regions@.subrange(i + 1, self.regions@.len() as int));
            if self.regions[i].contains(addr) {
                return Some(&self.regions[i]);
            }
            i = i + 1;
        }
        None
    }

    /// Maps memory: `InvalidSize` for an empty length; a fixed mapping
    /// needs a non-zero (`InvalidAddress`), page-aligned (`NotAligned`)
    /// address that no region holds (`AlreadyMapped`); otherwise the mapping
    /// goes to the given address or to the next mmap address, its length
    /// rounded up to whole pages, and is recorded among the regions. The
    /// next mmap address moves past the mapping when it ends beyond it.
    pub fn mmap(&mut self, addr: usize, length: usize, prot: ProtectionFlags, flags: MmapFlags) -> (r: VmResult<u64>)
        requires
            old(self).wf(),
            mmap_fits(old(self).next_mmap_spec(), addr, length, flags),
        ensures
            final(self).wf(),
            r == mmap_result(old(self).regions_spec(), old(self).next_mmap_spec(), addr, length, flags),
            final(self).break_spec() == old(self).break_spec(),
            final(self).initial_break_spec() == old(self).initial_break_spec(),
            final(self).offset_spec() == old(self).offset_spec(),
            r is Err ==> final(self).regions_spec() == old(self).regions_spec() && final(self).next_mmap_spec()
                == old(self).next_mmap_spec(),
            r matches Ok(start) ==> final(self).regions_spec() == with_region(
                old(self).regions_spec(),
                mmap_region(start, length, prot, flags),
            ) && final(self).next_mmap_spec() == mmap_next(old(self).next_mmap_spec(), start, length, flags),
    {
        if length == 0 {
            return Err(VmError::InvalidSize);
        }
        let aligned_length = align_length(length);
        let start_addr: u64 = if flags.fixed {
            if addr == 0 {
                return Err(VmError::InvalidAddress);
            }
            if addr % 4096 != 0 {
                return Err(VmError::NotAligned);
            }
            addr as u64
        } else if addr != 0 {
            addr as u64
        } else {
            self.next_mmap_addr
        };
        let end_addr = start_addr + aligned_length as u64;
        if flags.fixed {
            if self.find_region_at(start_addr).is_some() {
                return Err(VmError::AlreadyMapped);
            }
        }
        let memory_type = if flags.anonymous {
            MemoryType::Anonymous
        } else if flags.shared {
            MemoryType::Shared
        } else {
            MemoryType::FileBacked
        };
        let mut region = MemoryRegion::new(start_addr, end_addr, prot, memory_type);
        region.shared = flags.shared;
        insert_region(&mut self.regions, region);
        if end_addr > self.next_mmap_addr {
            self.next_mmap_addr = end_addr;
        }
        Ok(start_addr)
    }

    /// Unmaps memory: `InvalidSize` for an empty length, `NotAligned` for
    /// an address off a page boundary; otherwise every region that lies
    /// wholly within the range (its length rounded up to whole pages) is
    /// dropped.
    pub fn munmap(&mut self, addr: usize, length: usize) -> (r: VmResult<()>)
        requires
            old(self).wf(),
            range_fits(addr, length),
        ensures
            final(self).wf(),
            length == 0 ==> r == Err::<(), VmError>(VmError::InvalidSize),
            length != 0 && addr % 4096 != 0 ==> r == Err::<(), VmError>(VmError::NotAligned),
            length != 0 && addr % 4096 == 0 ==> r is Ok,
            final(self).regions_spec() == (if r is Ok {
                uncovered(old(self).regions_spec(), addr as int, addr + page_align(length as int))
            } else {
                old(self).regions_spec()
            }),
            final(self).break_spec() == old(self).break_spec(),
            final(self).initial_break_spec() == old(self).initial_break_spec(),
            final(self).next_mmap_spec() == old(self).next_mmap_spec(),
            final(self).offset_spec() == old(self).offset_spec(),
    {
        if length == 0 {
            return Err(VmError::InvalidSize);
        }
        if addr % 4096 != 0 {
            return Err(VmError::NotAligned);
        }
        let start_addr = addr as u64;
        let aligned_length = align_length(length);
        let end_addr = start_addr + aligned_length as u64;
        let ghost lo = addr as int;
        let ghost hi = addr + page_align(length as int);
        let ghost orig = self.regions@;
        let mut src: Vec<MemoryRegion> = Vec::new();
        core::mem::swap(&mut src, &mut self.regions);
        let mut out: Vec<MemoryRegion> = Vec::new();
        let ghost mut k: int = 0;
        while src.len() > 0
            invariant
                regions_sorted(orig),
                0 <= k <= orig.len(),
                src@ == orig.subrange(k, orig.len() as int),
                out@ == uncovered(orig.subrange(0, k), lo, hi),
                regions_sorted(out@),
                forall|x: int, j: int| 0 <= x < out@.len() && k <= j < orig.len() ==> (#[trigger] out@[x]).start < (#[trigger] orig[j]).start,
                start_addr == lo,
                end_addr == hi,
            decreases src@.len(),
        {
            let region = src.remove(0);
            proof {
                assert(region == orig[k]);
                assert(orig.subrange(0, k + 1).drop_last() =~= orig.subrange(0, k));
                assert(orig.subrange(0, k + 1).last() == orig[k]);
                assert(src@ =~= orig.subrange(k + 1, orig.len() as int));
            }
            if !(start_addr <= region.start && region.end <= end_addr) {
                out.push(region);
                proof {
                    assert forall|x: int, y: int| 0 <= x < y < out@.len() implies (#[trigger] out@[x]).start < (#[trigger] out@[y]).start by {
                        if y == out@.len() - 1 {
                            assert(out@[y] == orig[k]);
                        }
                    }
                    assert forall|x: int, j: int| 0 <= x < out@.len() && k + 1 <= j < orig.len() implies (#[trigger] out@[x]).start < (#[trigger] orig[j]).start by {
                        if x == out@.len() - 1 {
                            assert(orig[k].start < orig[j].start);
                        }
                    }
                }
            } else {
                proof {
                    assert forall|x: int, j: int| 0 <= x < out@.len() && k + 1 <= j < orig.len() implies (#[trigger] out@[x]).start < (#[trigger] orig[j]).start by {
                        assert(out@[x].start < orig[j].start);
                    }
                }
            }
            proof {
                k = k + 1;
            }
        }
        proof {
            assert(orig.subrange(0, k) =~= orig);
        }
        self.regions = out;
        Ok(())
    }

    /// Checks an mprotect call as munmap does: `InvalidSize` for an empty
    /// length, `NotAligned` for an address off a page boundary; the caller
    /// then updates the page entries and flushes the TLB for `addr`.
    pub fn mprotect(&self, addr: usize, length: usize, prot: ProtectionFlags) -> (r: VmResult<()>)
        requires
            range_fits(addr, length),
        ensures
            length == 0 ==> r == Err::<(), VmError>(VmError::InvalidSize),
            length != 0 && addr % 4096 != 0 ==> r == Err::<(), VmError>(VmError::NotAligned),
            length != 0 && addr % 4096 == 0 ==> r is Ok,
    {
        if length == 0 {
            return Err(VmError::InvalidSize);
        }
        if addr % 4096 != 0 {
            return Err(VmError::NotAligned);
        }
        Ok(())
    }

    /// Sets the program break: 0 asks for the current break; a break below
    /// the initial one is `InvalidAddress`, one past the heap
    /// `OutOfMemory`; otherwise the break moves to `addr`, which is
    /// answered.
    pub fn brk(&mut self, addr: usize) -> (r: VmResult<usize>)
        requires
            addr != 0 ==> canonical(addr as u64),
        ensures
            r == brk_result(old(self).break_spec(), old(self).initial_break_spec(), addr),
            final(self).break_spec() == (if addr != 0 && r is Ok {
                addr as u64
            } else {
                old(self).break_spec()
            }),
            final(self).regions_spec() == old(self).regions_spec(),
            final(self).initial_break_spec() == old(self).initial_break_spec(),
            final(self).next_mmap_spec() == old(self).next_mmap_spec(),
            final(self).offset_spec() == old(self).offset_spec(),
            final(self).wf() == old(self).wf(),
    {
        if addr == 0 {
            return Ok(self.program_break as usize);
        }
        let new_break = addr as u64;
        if new_break < self.initial_break {
            return Err(VmError::InvalidAddress);
        }
        if new_break > USER_HEAP_END {
            return Err(VmError::OutOfMemory);
        }
        self.program_break = new_break;
        Ok(new_break as usize)
    }

    /// Moves the break by `increment` as brk would: 0 answers the current
    /// break; a sum past `usize::MAX` is `OutOfMemory`, a difference below
    /// zero `InvalidAddress`; otherwise brk's error, or the break moves and
    /// the previous break is answered.
    pub fn sbrk(&mut self, increment: isize) -> (r: VmResult<usize>)
        requires
            increment != isize::MIN,
            ({
                let cur = old(self).break_spec() as usize;
                let new = cur + increment;
                increment != 0 && 0 < new <= usize::MAX ==> canonical(new as usize as u64)
            }),
        ensures
            ({
                let cur = old(self).break_spec() as usize;
                let new = cur + increment;
                &&& increment == 0 ==> r == Ok::<usize, VmError>(cur)
                &&& increment > 0 && new > usize::MAX ==> r == Err::<usize, VmError>(VmError::OutOfMemory)
                &&& increment < 0 && new < 0 ==> r == Err::<usize, VmError>(VmError::InvalidAddress)
                &&& increment != 0 && 0 <= new <= usize::MAX ==> match brk_result(
                    old(self).break_spec(),
                    old(self).initial_break_spec(),
                    new as usize,
                ) {
                    Ok(_) => r == Ok::<usize, VmError>(cur),
                    Err(e) => r == Err::<usize, VmError>(e),
                }
                &&& final(self).break_spec() == (if increment != 0 && new != 0 && r is Ok {
                    new as usize as u64
                } else {
                    old(self).break_spec()
                })
            }),
            final(self).regions_spec() == old(self).regions_spec(),
            final(self).initial_break_spec() == old(self).initial_break_spec(),
            final(self).next_mmap_spec() == old(self).next_mmap_spec(),
            final(self).offset_spec() == old(self).offset_spec(),
            final(self).wf() == old(self).wf(),
    {
        let current_break = self.program_break as usize;
        if increment == 0 {
            return Ok(current_break);
        }
        let new_break = if increment > 0 {
            match current_break.checked_add(increment as usize) {
                Some(v) => v,
                None => {
                    return Err(VmError::OutOfMemory);
                },
            }
        } else {
            match current_break.checked_sub((-increment) as usize) {
                Some(v) => v,
                None => {
                    return Err(VmError::InvalidAddress);
                },
            }
        };
        match self.brk(new_break) {
            Ok(_) => Ok(current_break),
            Err(e) => Err(e),
        }
    }

    /// The statistics: bytes and pages in regions, number of regions, the
    /// break.
    pub fn stats(&self) -> (r: MemoryStats)
        requires
            forall|i: int| 0 <= i < self.regions_spec().len() ==> (#[trigger] self.regions_spec()[i]).start <= self.regions_spec()[i].end,
            total_size(self.regions_spec()) <= usize::MAX,
            total_pages(self.regions_spec()) <= usize::MAX,
            forall|i: int| 0 <= i < self.regions_spec().len() ==> region_size((#[trigger] self.regions_spec()[i]).start, self.regions_spec()[i].end) + 4095 <= usize::MAX,
        ensures
            r == (MemoryStats {
                total_allocated: total_size(self.regions_spec()) as usize,
                region_count: self.regions_spec().len() as usize,
                current_brk: self.break_spec() as usize,
                mapped_pages: total_pages(self.regions_spec()) as usize,
            }),
    {
        let mut total: usize = 0;
        let mut pages: usize = 0;
        let mut i: usize = 0;
        while i < self.regions.len()
            invariant
                i <= self.regions@.len(),
                forall|k: int| 0 <= k < self.regions@.len() ==> (#[trigger] self.regions@[k]).start <= self.regions@[k].end,
                forall|k: int| 0 <= k < self.regions@.len() ==> region_size((#[trigger] self.regions@[k]).start, self.regions@[k].end) + 4095 <= usize::MAX,
                total == total_size(self.regions@.subrange(0, i as int)),
                pages == total_pages(self.regions@.subrange(0, i as int)),
                total_size(self.regions@) <= usize::MAX,
                total_pages(self.regions@) <= usize::MAX,
            decreases self.regions@.len() - i,
        {
            let ghost sub = self.regions@.subrange(0, i + 1);
            assert(sub.drop_last() =~= self.regions@.subrange(0, i as int));
            proof {
                lemma_totals_prefix(self.regions@, i as int + 1);
            }
            assert(self.regions@[i as int].start <= self.regions@[i as int].end);
            total = total + self.regions[i].size();
            pages = pages + self.regions[i].size_in_pages();
            i = i + 1;
        }
        assert(self.regions@.subrange(0, self.regions@.len() as int) =~= self.regions@);
        MemoryStats {
            total_allocated: total,
            region_count: self.regions.len(),
            current_brk: self.program_break as usize,
            mapped_pages: pages,
        }
    }

    /// A stack of `size` bytes rounded up to whole pages, placed as an
    /// anonymous private read-write mapping.
    pub fn allocate_stack(&mut self, size: usize) -> (r: VmResult<u64>)
        requires
            old(self).wf(),
            size + 4095 <= usize::MAX,
            mmap_fits(old(self).next_mmap_spec(), 0, page_align(size as int) as usize, MmapFlags { fixed: false, shared: false, private: true, anonymous: true }),
        ensures
            final(self).wf(),
            r == mmap_result(
                old(self).regions_spec(),
                old(self).next_mmap_spec(),
                0,
                page_align(size as int) as usize,
                MmapFlags { fixed: false, shared: false, private: true, anonymous: true },
            ),
            r matches Ok(start) ==> (exists|p: ProtectionFlags| p.bits_spec() == 3 && final(self).regions_spec() == with_region(
                old(self).regions_spec(),
                #[trigger] mmap_region(start, page_align(size as int) as usize, p, MmapFlags { fixed: false, shared: false, private: true, anonymous: true }),
            )) && final(self).next_mmap_spec() == mmap_next(old(self).next_mmap_spec(), start, page_align(size as int) as usize, MmapFlags { fixed: false, shared: false, private: true, anonymous: true }),
    {
        let aligned_size = align_length(size);
        let flags = MmapFlags::anonymous_private();
        let prot = ProtectionFlags::READ_WRITE();
        self.mmap(0, aligned_size, prot, flags)
    }

    /// A new address space with copies of the regions and the same breaks.
    pub fn clone_address_space(&self) -> (r: VmResult<Self>)
        requires
            self.wf(),
        ensures
            r matches Ok(vm) && vm.wf() && vm.regions_spec() == self.regions_spec() && vm.break_spec()
                == self.break_spec() && vm.initial_break_spec() == self.initial_break_spec()
                && vm.next_mmap_spec() == MMAP_START && vm.offset_spec() == self.offset_spec(),
    {
        let mut new_vm = Self::new(self.physical_memory_offset);
        let mut i: usize = 0;
        while i < self.regions.len()
            invariant
                i <= self.regions@.len(),
                new_vm.regions@ == self.regions@.subrange(0, i as int),
                new_vm.next_mmap_addr == MMAP_START,
                new_vm.physical_memory_offset == self.physical_memory_offset,
            decreases self.regions@.len() - i,
        {
            new_vm.regions.push(self.regions[i].copy());
            assert(new_vm.regions@ =~= self.regions@.subrange(0, i + 1));
            i = i + 1;
        }
        assert(self.regions@.subrange(0, self.regions@.len() as int) =~= self.regions@);
        new_vm.program_break = self.program_break;
        new_vm.initial_break = self.initial_break;
        Ok(new_vm)
    }

    /// Decides a page fault at `addr` with hardware error code
    /// `error_code`: `InvalidAddress` outside every region; a write (bit 1)
    /// to a copy-on-write region is taken; a write to a region that is not
    /// writable or an instruction fetch (bit 4) from one that is not
    /// executable is `PermissionDenied`.
    pub fn handle_page_fault(&self, addr: u64, error_code: u64) -> (r: VmResult<()>)
        ensures
            match region_at(self.regions_spec(), addr) {
                None => r == Err::<(), VmError>(VmError::InvalidAddress),
                Some(region) => {
                    let write = error_code & 2 != 0;
                    let exec = error_code & 0x10 != 0;
                    if region.copy_on_write && write {
                        r is Ok
                    } else if write && region.protection.bits_spec() & 2 != 2 {
                        r == Err::<(), VmError>(VmError::PermissionDenied)
                    } else if exec && region.protection.bits_spec() & 4 != 4 {
                        r == Err::<(), VmError>(VmError::PermissionDenied)
                    } else {
                        r is Ok
                    }
                },
            },
    {
        let region = match self.find_region_at(addr) {
            Some(r) => r,
            None => {
                return Err(VmError::InvalidAddress);
            },
        };
        if region.copy_on_write && (error_code & 0x2) != 0 {
            return Ok(());
        }
        let needs_write = (error_code & 0x2) != 0;
        let needs_exec = (error_code & 0x10) != 0;
        if needs_write && !region.protection.is_writable() {
            return Err(VmError::PermissionDenied);
        }
        if needs_exec && !region.protection.is_executable() {
            return Err(VmError::PermissionDenied);
        }
        Ok(())
    }

    /// Start, end, protection and type of each region, in order.
    pub fn dump_memory_map(&self) -> (r: Vec<(u64, u64, ProtectionFlags, MemoryType)>)
        ensures
            r@ == self.regions_spec().map_values(
                |x: MemoryRegion| (x.start, x.end, x.protection, x.memory_type),
            ),
    {
        let mut out: Vec<(u64, u64, ProtectionFlags, MemoryType)> = Vec::new();
        let mut i: usize = 0;
        while i < self.regions.len()
            invariant
                i <= self.regions@.len(),
                out@ == self.regions@.subrange(0, i as int).map_values(
                    |x: MemoryRegion| (x.start, x.end, x.protection, x.memory_type),
                ),
            decreases self.regions@.len() - i,
        {
            let x = &self.regions[i];
            out.push((x.start, x.end, x.protection, x.memory_type));
            assert(out@ =~= self.regions@.subrange(0, i + 1).map_values(
                |x: MemoryRegion| (x.start, x.end, x.protection, x.memory_type),
            ));
            i = i + 1;
        }
        assert(self.regions@.subrange(0, self.regions@.len() as int) =~= self.regions@);
        out
    }
}

proof fn lemma_totals_prefix(s: Seq<MemoryRegion>, k: int)
    requires
        0 <= k <= s.len(),
        forall|i: int| 0 <= i < s.len() ==> (#[trigger] s[i]).start <= s[i].end,
    ensures
        total_size(s.subrange(0, k)) <= total_size(s),
        total_pages(s.subrange(0, k)) <= total_pages(s),
    decreases s.len() - k,
{
    if k < s.len() {
        lemma_totals_prefix(s, k + 1);
        assert(s.subrange(0, k + 1).drop_last() =~= s.subrange(0, k));
    } else {
        assert(s.subrange(0, k) =~= s);
    }
}

/// Two anonymous mappings of `length` bytes made one after the other in a
/// fresh address space both succeed, at page-aligned addresses, the second
/// right after the first (so they do not overlap), and leave two regions.
pub proof fn lemma_two_anonymous_mappings(length: usize, prot: ProtectionFlags)
    requires
        length > 0,
        mmap_fits(MMAP_START, 0, length, MmapFlags { fixed: false, shared: false, private: true, anonymous: true }),
        mmap_fits(
            mmap_next(MMAP_START, MMAP_START, length, MmapFlags { fixed: false, shared: false, private: true, anonymous: true }),
            0,
            length,
            MmapFlags { fixed: false, shared: false, private: true, anonymous: true },
        ),
    ensures
        ({
            let f = MmapFlags { fixed: false, shared: false, private: true, anonymous: true };
            let s0 = Seq::<MemoryRegion>::empty();
            let p1 = MMAP_START;
            let s1 = with_region(s0, mmap_region(p1, length, prot, f));
            let p2 = mmap_next(MMAP_START, p1, length, f);
            let s2 = with_region(s1, mmap_region(p2, length, prot, f));
            &&& mmap_result(s0, MMAP_START, 0, length, f) == Ok::<u64, VmError>(p1)
            &&& mmap_result(s1, p2, 0, length, f) == Ok::<u64, VmError>(p2)
            &&& p1 % 4096 == 0 && p2 % 4096 == 0
            &&& p1 + page_align(length as int) <= p2
            &&& s2.len() == 2
        }),
{
    let f = MmapFlags { fixed: false, shared: false, private: true, anonymous: true };
    let s0 = Seq::<MemoryRegion>::empty();
    let p1 = MMAP_START;
    let r1 = mmap_region(p1, length, prot, f);
    assert(page_align(length as int) >= 4096) by (nonlinear_arith)
        requires
            length > 0,
    ;
    assert(page_align(length as int) % 4096 == 0) by (nonlinear_arith);
    assert(insertion_point(s0, r1.start, 0));
    let c0 = choose|i: int| insertion_point(s0, r1.start, i);
    assert(c0 == 0);
    let s1 = with_region(s0, r1);
    assert(s1 =~= seq![r1]);
    let p2 = mmap_next(MMAP_START, p1, length, f);
    assert(p2 == p1 + page_align(length as int));
    let r2 = mmap_region(p2, length, prot, f);
    assert(insertion_point(s1, r2.start, 1));
    let c1 = choose|i: int| insertion_point(s1, r2.start, i);
    if c1 == 0 {
        assert(s1[0].start >= r2.start);
    }
    assert(c1 == 1);
    assert(with_region(s1, r2) =~= seq![r1, r2]);
    assert((p1 + page_align(length as int)) % 4096 == 0) by (nonlinear_arith)
        requires
            p1 % 4096 == 0,
            page_align(length as int) % 4096 == 0,
    ;
}

} // verus!
