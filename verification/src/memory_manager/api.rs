//! The system call surface of virtual memory: each call works on the
//! address space's manager, `NotInitialized` when there is none.
use vstd::prelude::*;
use crate::memory_manager::memory_region::ProtectionFlags;
use crate::memory_manager::virtual_memory::{
    VirtualMemoryManager, VmError, VmResult, MmapFlags, MemoryStats, mmap_fits, mmap_result, range_fits,
    brk_result, canonical, total_size, total_pages, USER_HEAP_START, MMAP_START, with_region, mmap_region, mmap_next, uncovered, page_align,
};
use crate::memory_manager::memory_region::region_size;

verus! {

/// Sets up the manager in `slot` with physical memory mapped at
/// `physical_memory_offset`; `AlreadyInitialized` when there is one.
pub fn init_virtual_memory(slot: &mut Option<VirtualMemoryManager>, physical_memory_offset: u64) -> (r: VmResult<()>)
    ensures
        *old(slot) is Some ==> r == Err::<(), VmError>(VmError::AlreadyInitialized) && *final(slot) == *old(slot),
        *old(slot) is None ==> r is Ok && (*final(slot) matches Some(m) && m.wf() && m.regions_spec().len() == 0
            && m.break_spec() == USER_HEAP_START && m.initial_break_spec() == USER_HEAP_START
            && m.next_mmap_spec() == MMAP_START && m.offset_spec() == physical_memory_offset),
{
    if slot.is_some() {
        return Err(VmError::AlreadyInitialized);
    }
    *slot = Some(VirtualMemoryManager::new(physical_memory_offset));
    Ok(())
}

/// mmap: see `VirtualMemoryManager::mmap`.
pub fn vm_mmap(
    manager: &mut Option<VirtualMemoryManager>,
    addr: usize,
    length: usize,
    prot: ProtectionFlags,
    flags: MmapFlags,
) -> (r: VmResult<u64>)
    requires
        *old(manager) matches Some(m) ==> m.wf() && mmap_fits(m.next_mmap_spec(), addr, length, flags),
    ensures
        *old(manager) is None ==> r == Err::<u64, VmError>(VmError::NotInitialized) && *final(manager) is None,
        *old(manager) matches Some(m) ==> (*final(manager) matches Some(n) && n.wf()
            && r == mmap_result(m.regions_spec(), m.next_mmap_spec(), addr, length, flags)
            && n.break_spec() == m.break_spec() && n.initial_break_spec() == m.initial_break_spec()
            && n.offset_spec() == m.offset_spec()
            && (r is Err ==> n.regions_spec() == m.regions_spec() && n.next_mmap_spec() == m.next_mmap_spec())
            && (r matches Ok(start) ==> n.regions_spec() == with_region(m.regions_spec(), mmap_region(start, length, prot, flags))
                && n.next_mmap_spec() == mmap_next(m.next_mmap_spec(), start, length, flags))),
{
    match manager {
        None => Err(VmError::NotInitialized),
        Some(m) => m.mmap(addr, length, prot, flags),
    }
}

/// munmap: see `VirtualMemoryManager::munmap`.
pub fn vm_munmap(manager: &mut Option<VirtualMemoryManager>, addr: usize, length: usize) -> (r: VmResult<()>)
    requires
        *old(manager) matches Some(m) ==> m.wf(),
        range_fits(addr, length),
    ensures
        *old(manager) is None ==> r == Err::<(), VmError>(VmError::NotInitialized) && *final(manager) is None,
        *old(manager) matches Some(m) ==> (*final(manager) matches Some(n) && n.wf()
            && (length == 0 ==> r == Err::<(), VmError>(VmError::InvalidSize))
            && (length != 0 && addr % 4096 != 0 ==> r == Err::<(), VmError>(VmError::NotAligned))
            && (length != 0 && addr % 4096 == 0 ==> r is Ok)
            && n.regions_spec() == (if r is Ok {
                uncovered(m.regions_spec(), addr as int, addr + page_align(length as int))
            } else {
                m.regions_spec()
            })
            && n.break_spec() == m.break_spec() && n.initial_break_spec() == m.initial_break_spec()
            && n.next_mmap_spec() == m.next_mmap_spec() && n.offset_spec() == m.offset_spec()),
{
    match manager {
        None => Err(VmError::NotInitialized),
        Some(m) => m.munmap(addr, length),
    }
}

/// mprotect: see `VirtualMemoryManager::mprotect`.
pub fn vm_mprotect(manager: Option<&VirtualMemoryManager>, addr: usize, length: usize, prot: ProtectionFlags) -> (r:
    VmResult<()>)
    requires
        range_fits(addr, length),
    ensures
        manager is None ==> r == Err::<(), VmError>(VmError::NotInitialized),
        manager is Some && length == 0 ==> r == Err::<(), VmError>(VmError::InvalidSize),
        manager is Some && length != 0 && addr % 4096 != 0 ==> r == Err::<(), VmError>(VmError::NotAligned),
        manager is Some && length != 0 && addr % 4096 == 0 ==> r is Ok,
{
    match manager {
        None => Err(VmError::NotInitialized),
        Some(m) => m.mprotect(addr, length, prot),
    }
}

/// brk: see `VirtualMemoryManager::brk`.
pub fn vm_brk(manager: &mut Option<VirtualMemoryManager>, addr: usize) -> (r: VmResult<usize>)
    requires
        addr != 0 ==> canonical(addr as u64),
    ensures
        *old(manager) is None ==> r == Err::<usize, VmError>(VmError::NotInitialized) && *final(manager) is None,
        *old(manager) matches Some(m) ==> (*final(manager) matches Some(n)
            && r == brk_result(m.break_spec(), m.initial_break_spec(), addr)
            && n.break_spec() == (if addr != 0 && r is Ok { addr as u64 } else { m.break_spec() })
            && n.regions_spec() == m.regions_spec() && n.initial_break_spec() == m.initial_break_spec()
            && n.next_mmap_spec() == m.next_mmap_spec() && n.offset_spec() == m.offset_spec() && n.wf() == m.wf()),
{
    match manager {
        None => Err(VmError::NotInitialized),
        Some(m) => m.brk(addr),
    }
}

/// sbrk: see `VirtualMemoryManager::sbrk`.
pub fn vm_sbrk(manager: &mut Option<VirtualMemoryManager>, increment: isize) -> (r: VmResult<usize>)
    requires
        increment != isize::MIN,
        *old(manager) matches Some(m) ==> ({
            let cur = m.break_spec() as usize;
            let new = cur + increment;
            increment != 0 && 0 < new <= usize::MAX ==> canonical(new as usize as u64)
        }),
    ensures
        *old(manager) is None ==> r == Err::<usize, VmError>(VmError::NotInitialized) && *final(manager) is None,
        *old(manager) matches Some(m) ==> (*final(manager) matches Some(n) && ({
            let cur = m.break_spec() as usize;
            let new = cur + increment;
            &&& increment == 0 ==> r == Ok::<usize, VmError>(cur)
            &&& increment > 0 && new > usize::MAX ==> r == Err::<usize, VmError>(VmError::OutOfMemory)
            &&& increment < 0 && new < 0 ==> r == Err::<usize, VmError>(VmError::InvalidAddress)
            &&& increment != 0 && 0 <= new <= usize::MAX ==> match brk_result(
                m.break_spec(),
                m.initial_break_spec(),
                new as usize,
            ) {
                Ok(_) => r == Ok::<usize, VmError>(cur),
                Err(e) => r == Err::<usize, VmError>(e),
            }
            &&& n.break_spec() == (if increment != 0 && new != 0 && r is Ok { new as usize as u64 } else { m.break_spec() })
            &&& n.regions_spec() == m.regions_spec()
            &&& n.initial_break_spec() == m.initial_break_spec()
            &&& n.next_mmap_spec() == m.next_mmap_spec()
            &&& n.offset_spec() == m.offset_spec()
            &&& n.wf() == m.wf()
        })),
{
    match manager {
        None => Err(VmError::NotInitialized),
        Some(m) => m.sbrk(increment),
    }
}

/// The manager's statistics.
pub fn get_memory_stats(manager: Option<&VirtualMemoryManager>) -> (r: VmResult<MemoryStats>)
    requires
        manager matches Some(m) ==> {
            &&& forall|i: int| 0 <= i < m.regions_spec().len() ==> (#[trigger] m.regions_spec()[i]).start <= m.regions_spec()[i].end
            &&& total_size(m.regions_spec()) <= usize::MAX
            &&& total_pages(m.regions_spec()) <= usize::MAX
            &&& forall|i: int| 0 <= i < m.regions_spec().len() ==> region_size((#[trigger] m.regions_spec()[i]).start, m.regions_spec()[i].end) + 4095 <= usize::MAX
        },
    ensures
        match manager {
            None => r == Err::<MemoryStats, VmError>(VmError::NotInitialized),
            Some(m) => r == Ok::<MemoryStats, VmError>(
                MemoryStats {
                    total_allocated: total_size(m.regions_spec()) as usize,
                    region_count: m.regions_spec().len() as usize,
                    current_brk: m.break_spec() as usize,
                    mapped_pages: total_pages(m.regions_spec()) as usize,
                },
            ),
        },
{
    match manager {
        None => Err(VmError::NotInitialized),
        Some(m) => Ok(m.stats()),
    }
}

} // verus!
