//! Worked uses of the virtual memory calls: a fixed mapping, and the
//! statistics after a mapping.
use vstd::prelude::*;
use crate::memory_manager::api::{get_memory_stats, vm_mmap, vm_munmap};
use crate::memory_manager::memory_region::{region_size, MemoryRegion, ProtectionFlags};
use crate::memory_manager::virtual_memory::{
    mmap_region, region_at, total_pages, total_size, with_region, insertion_point, uncovered, MmapFlags, VirtualMemoryManager,
    VmError, VmResult,
};

verus! {

/// Every region adds a size and a page count of at least zero, so the
/// totals are at least those of any one region.
proof fn lemma_totals_cover(s: Seq<MemoryRegion>, j: int)
    requires
        0 <= j < s.len(),
    ensures
        total_size(s) >= region_size(s[j].start, s[j].end),
        total_pages(s) >= (region_size(s[j].start, s[j].end) + 4095) / 4096,
    decreases s.len(),
{
    lemma_totals_nonneg(s.drop_last());
    if j < s.len() - 1 {
        lemma_totals_cover(s.drop_last(), j);
        assert(s.drop_last()[j] == s[j]);
    }
}

proof fn lemma_totals_nonneg(s: Seq<MemoryRegion>)
    ensures
        total_size(s) >= 0,
        total_pages(s) >= 0,
    decreases s.len(),
{
    if s.len() > 0 {
        lemma_totals_nonneg(s.drop_last());
    }
}

/// `with_region` holds the region it places.
proof fn lemma_with_region_holds(s: Seq<MemoryRegion>, r: MemoryRegion) -> (i: int)
    requires
        exists|i: int| insertion_point(s, r.start, i),
    ensures
        0 <= i < with_region(s, r).len(),
        with_region(s, r)[i] == r,
{
    let i = choose|i: int| insertion_point(s, r.start, i);
    i
}

/// Maps 8 KiB read-write at the fixed address 0x4000_0000, checks that the
/// mapping landed there and unmaps it again. `AlreadyMapped` when a region holds
/// that address; `NotInitialized` without a manager.
pub fn example_fixed_mapping(manager: &mut Option<VirtualMemoryManager>) -> (r: VmResult<()>)
    requires
        *old(manager) matches Some(m) ==> m.wf(),
    ensures
        *old(manager) is None ==> r == Err::<(), VmError>(VmError::NotInitialized) && *final(manager) is None,
        *old(manager) matches Some(m) ==> (*final(manager) matches Some(n) && n.wf() && (if region_at(
            m.regions_spec(),
            0x4000_0000,
        ) is Some {
            r == Err::<(), VmError>(VmError::AlreadyMapped) && n.regions_spec() == m.regions_spec()
        } else {
            r is Ok && exists|p: ProtectionFlags| p.bits_spec() == 3 && n.regions_spec() == uncovered(
                with_region(
                    m.regions_spec(),
                    #[trigger] mmap_region(0x4000_0000, 8192, p, MmapFlags { fixed: true, shared: false, private: true, anonymous: true }),
                ),
                0x4000_0000,
                0x4000_2000,
            )
        })),
{
    let addr: usize = 0x4000_0000;
    let size: usize = 8192;
    let prot = ProtectionFlags::READ_WRITE();
    let flags = MmapFlags::fixed();
    let ptr = match vm_mmap(manager, addr, size, prot, flags) {
        Ok(p) => p,
        Err(e) => {
            return Err(e);
        },
    };
    assert(ptr == addr as u64);
    match vm_munmap(manager, addr, size) {
        Ok(()) => {},
        Err(e) => {
            return Err(e);
        },
    }
    Ok(())
}

/// Maps 8 KiB read-write anywhere, reads the statistics, which count the
/// new mapping (at least 8 KiB in at least one region over at least two
/// pages), and unmaps it: `NotAligned` when the mapping did not start on a
/// page boundary, `NotInitialized` without a manager. The statistics'
/// totals must fit in a `usize`.
pub fn example_memory_stats(manager: &mut Option<VirtualMemoryManager>) -> (r: VmResult<()>)
    requires
        *old(manager) matches Some(m) ==> ({
            let after = with_region(
                m.regions_spec(),
                mmap_region(m.next_mmap_spec(), 8192, ProtectionFlags::from_bits_spec(3), MmapFlags { fixed: false, shared: false, private: true, anonymous: true }),
            );
            &&& m.wf()
            &&& m.next_mmap_spec() < 0x0000_8000_0000_0000 - 8192
            &&& m.next_mmap_spec() + 8192 <= usize::MAX
            &&& forall|i: int| 0 <= i < after.len() ==> (#[trigger] after[i]).start <= after[i].end
            &&& total_size(after) <= usize::MAX
            &&& total_pages(after) <= usize::MAX
            &&& forall|i: int| 0 <= i < after.len() ==> region_size((#[trigger] after[i]).start, after[i].end) + 4095 <= usize::MAX
        }),
    ensures
        *old(manager) is None ==> r == Err::<(), VmError>(VmError::NotInitialized),
        *old(manager) matches Some(m) ==> *final(manager) is Some && (if m.next_mmap_spec() % 4096 == 0 {
            r is Ok
        } else {
            r == Err::<(), VmError>(VmError::NotAligned)
        }),
{
    let prot = ProtectionFlags::READ_WRITE();
    let flags = MmapFlags::anonymous_private();
    let ptr = match vm_mmap(manager, 0, 8192, prot, flags) {
        Ok(p) => p,
        Err(e) => {
            return Err(e);
        },
    };
    proof {
        let m = old(manager)->0;
        let n = manager->0;
        ProtectionFlags::lemma_bits_eq(prot, ProtectionFlags::from_bits_spec(3));
        let reg = mmap_region(ptr, 8192, prot, flags);
        crate::memory_manager::virtual_memory::VirtualMemoryManager::lemma_wf_sorted(m);
        crate::memory_manager::virtual_memory::lemma_insertion_point_exists(m.regions_spec(), reg.start);
        let i = lemma_with_region_holds(m.regions_spec(), reg);
        assert(n.regions_spec() == with_region(m.regions_spec(), reg));
        assert(prot == ProtectionFlags::from_bits_spec(3));
        lemma_totals_cover(n.regions_spec(), i);
        crate::memory_manager::virtual_memory::VirtualMemoryManager::lemma_wf_sorted(n);
    }
    let stats = match get_memory_stats(manager.as_ref()) {
        Ok(s) => s,
        Err(e) => {
            return Err(e);
        },
    };
    assert(stats.total_allocated >= 8192);
    assert(stats.region_count > 0);
    assert(stats.mapped_pages >= 2);
    match vm_munmap(manager, ptr as usize, 8192) {
        Ok(()) => {},
        Err(e) => {
            return Err(e);
        },
    }
    Ok(())
}

} // verus!
