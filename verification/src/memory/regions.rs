//! Virtual memory regions and the memory manager's bookkeeping: the
//! regions it manages, keyed by their start, and the reference counts of
//! shared physical frames.
//!
//! The page tables, the frame allocator and the random source for address
//! space layout randomisation stay with the caller.
use vstd::prelude::*;
use std::collections::BTreeMap;
use vstd::std_specs::iter::IteratorSpec;
use crate::memory::{MemoryError, MemoryProtection, MemoryRegionType, PAGE_SIZE, USER_SPACE_START, USER_SPACE_END};

verus! {

broadcast use {vstd::std_specs::btree::group_btree_axioms, vstd::laws_cmp::group_laws_cmp};

/// Bits of randomness in a layout offset.
pub const ASLR_ENTROPY_BITS: u32 = 16;

/// The layout offset that the random value `random` gives: its low 16 bits
/// in pages.
pub open spec fn aslr_offset_of(random: u64) -> u64 {
    ((random & 0xFFFF) * 4096) as u64
}

/// The layout offset for `random` (`aslr_offset_of`).
pub fn generate_aslr_offset(random: u64) -> (r: u64)
    ensures
        r == aslr_offset_of(random),
        r < 0x1000_0000,
{
    let span: u64 = 1u64 << ASLR_ENTROPY_BITS;
    assert(span == 0x10000) by (bit_vector)
        requires
            span == 1u64 << 16u32,
    ;
    let low = random & (span - 1);
    assert(low <= 0xFFFF) by (bit_vector)
        requires
            low == random & 0xFFFFu64,
    ;
    let page: u64 = PAGE_SIZE as u64;
    low * page
}

/// A region of virtual memory.
#[derive(Debug, Clone, Copy, PartialEq, Eq, Structural)]
pub struct VirtualMemoryRegion {
    pub start: u64,
    pub size: usize,
    pub region_type: MemoryRegionType,
    pub protection: MemoryProtection,
    pub mapped: bool,
    pub physical_start: Option<u64>,
    pub reference_count: usize,
    pub aslr_offset: u64,
}

impl VirtualMemoryRegion {
    /// An unmapped region with one reference and no layout offset.
    pub fn new(start: u64, size: usize, region_type: MemoryRegionType, protection: MemoryProtection) -> (r: Self)
        ensures
            r == (VirtualMemoryRegion {
                start,
                size,
                region_type,
                protection,
                mapped: false,
                physical_start: None,
                reference_count: 1,
                aslr_offset: 0,
            }),
    {
        VirtualMemoryRegion {
            start,
            size,
            region_type,
            protection,
            mapped: false,
            physical_start: None,
            reference_count: 1,
            aslr_offset: 0,
        }
    }

    /// Like `new`, moved up by the layout offset of `random` where
    /// `enable_aslr`.
    pub fn new_with_aslr(
        start: u64,
        size: usize,
        region_type: MemoryRegionType,
        protection: MemoryProtection,
        enable_aslr: bool,
        random: u64,
    ) -> (r: Self)
        requires
            start + 0x1000_0000 <= u64::MAX,
        ensures
            ({
                let off = if enable_aslr {
                    aslr_offset_of(random)
                } else {
                    0
                };
                r == (VirtualMemoryRegion {
                    start: (start + off) as u64,
                    size,
                    region_type,
                    protection,
                    mapped: false,
                    physical_start: None,
                    reference_count: 1,
                    aslr_offset: off,
                })
            }),
    {
        let aslr_offset = if enable_aslr {
            generate_aslr_offset(random)
        } else {
            0
        };
        VirtualMemoryRegion {
            start: start + aslr_offset,
            size,
            region_type,
            protection,
            mapped: false,
            physical_start: None,
            reference_count: 1,
            aslr_offset,
        }
    }

    /// The address after the region.
    pub fn end(&self) -> (r: u64)
        requires
            self.start + self.size <= u64::MAX,
        ensures
            r == self.start + self.size,
    {
        self.start + self.size as u64
    }

    /// Whether `addr` lies in the region.
    pub fn contains(&self, addr: u64) -> (r: bool)
        requires
            self.start + self.size <= u64::MAX,
        ensures
            r == (self.start <= addr && addr < self.start + self.size),
    {
        addr >= self.start && addr < self.end()
    }

    /// The number of pages the region covers (rounded up).
    pub fn page_count(&self) -> (r: usize)
        requires
            self.size + PAGE_SIZE <= usize::MAX,
        ensures
            r == (self.size + PAGE_SIZE - 1) / (PAGE_SIZE as int),
    {
        (self.size + PAGE_SIZE - 1) / PAGE_SIZE
    }

    /// One more reference.
    pub fn increment_ref_count(&mut self)
        requires
            old(self).reference_count < usize::MAX,
        ensures
            *final(self) == (VirtualMemoryRegion { reference_count: (old(self).reference_count + 1) as usize, ..*old(self) }),
    {
        self.reference_count = self.reference_count + 1;
    }

    /// One reference less (not below zero); the references left.
    pub fn decrement_ref_count(&mut self) -> (r: usize)
        ensures
            r == if old(self).reference_count > 0 {
                (old(self).reference_count - 1) as usize
            } else {
                0
            },
            *final(self) == (VirtualMemoryRegion { reference_count: r, ..*old(self) }),
    {
        self.reference_count = self.reference_count.saturating_sub(1);
        self.reference_count
    }
}

/// Two regions share an address.
pub open spec fn regions_overlap(a: VirtualMemoryRegion, b: VirtualMemoryRegion) -> bool {
    !(a.start + a.size <= b.start || a.start >= b.start + b.size)
}

/// `addr` lies in region `r`.
pub open spec fn region_holds(r: VirtualMemoryRegion, addr: u64) -> bool {
    r.start <= addr && addr < r.start + r.size
}

/// No managed region meets the span of `size` bytes from `a`.
pub open spec fn span_free(m: Map<u64, VirtualMemoryRegion>, a: int, size: int) -> bool {
    forall|k: u64| #[trigger] m.contains_key(k) ==> (a + size <= m[k].start || a >= m[k].start + m[k].size)
}

/// A page-aligned user-space start from which `size` bytes stay in user
/// space.
pub open spec fn user_slot(a: int, size: int) -> bool {
    &&& USER_SPACE_START <= a
    &&& a + size <= USER_SPACE_END
    &&& a % (PAGE_SIZE as int) == 0
}

/// Every region ends within the address space.
pub open spec fn fits(r: VirtualMemoryRegion) -> bool {
    r.start + r.size <= u64::MAX
}

/// The memory manager's bookkeeping: its regions by start address and the
/// reference counts of shared frames.
#[derive(Debug)]
pub struct MemoryManager {
    regions: BTreeMap<u64, VirtualMemoryRegion>,
    frame_refcounts: BTreeMap<u64, usize>,
}

impl MemoryManager {
    /// The regions by start address.
    pub closed spec fn regions_spec(&self) -> Map<u64, VirtualMemoryRegion> {
        self.regions@
    }

    /// The tracked reference counts by frame address.
    pub closed spec fn refcounts(&self) -> Map<u64, usize> {
        self.frame_refcounts@
    }

    /// Each region is stored under its start and fits in the address
    /// space, and no two managed regions overlap.
    pub open spec fn wf(&self) -> bool {
        &&& forall|k: u64| #[trigger] self.regions_spec().contains_key(k) ==> self.regions_spec()[k].start == k && fits(self.regions_spec()[k])
        &&& forall|k1: u64, k2: u64|
            #[trigger] self.regions_spec().contains_key(k1) && #[trigger] self.regions_spec().contains_key(k2) && k1 != k2
                ==> !regions_overlap(self.regions_spec()[k1], self.regions_spec()[k2])
    }

    /// No regions, no shared frames.
    pub fn new() -> (r: Self)
        ensures
            r.wf(),
            r.regions_spec() == Map::<u64, VirtualMemoryRegion>::empty(),
            r.refcounts() == Map::<u64, usize>::empty(),
    {
        MemoryManager { regions: BTreeMap::new(), frame_refcounts: BTreeMap::new() }
    }

    /// Adds `region`: `RegionOverlap` where it overlaps a managed region;
    /// otherwise it is stored under its start (replacing a region there).
    pub fn add_region(&mut self, region: VirtualMemoryRegion) -> (r: Result<(), MemoryError>)
        requires
            old(self).wf(),
            fits(region),
        ensures
            final(self).wf(),
            final(self).refcounts() == old(self).refcounts(),
            (exists|k: u64| #[trigger] old(self).regions_spec().contains_key(k) && regions_overlap(region, old(self).regions_spec()[k]))
                ==> r == Err::<(), MemoryError>(MemoryError::RegionOverlap) && final(self).regions_spec() == old(self).regions_spec(),
            !(exists|k: u64| #[trigger] old(self).regions_spec().contains_key(k) && regions_overlap(region, old(self).regions_spec()[k]))
                ==> r is Ok && final(self).regions_spec() == old(self).regions_spec().insert(region.start, region),
    {
        let mut overlap = false;
        for pair in it: self.regions.iter()
            invariant
                self.regions@ == old(self).regions@,
                old(self).wf(),
                fits(region),
                it.seq() == vstd::std_specs::btree::spec_btree_map_iter(&self.regions).remaining(),
                !overlap ==> forall|j: int| 0 <= j < it.index() ==> !regions_overlap(region, *(#[trigger] it.seq()[j]).1),
                overlap ==> exists|k: u64| #[trigger] old(self).regions_spec().contains_key(k) && regions_overlap(region, old(self).regions_spec()[k]),
        {
            let (k, existing) = pair;
            assert(self.regions@.contains_key(*k) && self.regions@[*k] == *existing);
            if !(region.start + region.size as u64 <= existing.start || region.start >= existing.start + existing.size as u64) {
                overlap = true;
            }
        }
        if overlap {
            return Err(MemoryError::RegionOverlap);
        }
        self.regions.insert(region.start, region);
        assert(self.refcounts() == old(self).refcounts());
        assert forall|k: u64| #[trigger] self.regions@.contains_key(k) implies self.regions@[k].start == k && fits(self.regions@[k]) by {
            if k != region.start {
                assert(old(self).regions_spec().contains_key(k));
            }
        }
        assert forall|k1: u64, k2: u64|
            #[trigger] self.regions_spec().contains_key(k1) && #[trigger] self.regions_spec().contains_key(k2) && k1 != k2
            implies !regions_overlap(self.regions_spec()[k1], self.regions_spec()[k2]) by {
            if k1 != region.start {
                assert(old(self).regions_spec().contains_key(k1));
            }
            if k2 != region.start {
                assert(old(self).regions_spec().contains_key(k2));
            }
        }
        Ok(())
    }

    /// Removes the region that starts at `start` and hands it back:
    /// `RegionNotFound` where none starts there.
    pub fn remove_region(&mut self, start: u64) -> (r: Result<VirtualMemoryRegion, MemoryError>)
        requires
            old(self).wf(),
        ensures
            final(self).wf(),
            final(self).refcounts() == old(self).refcounts(),
            final(self).regions_spec() == old(self).regions_spec().remove(start),
            old(self).regions_spec().contains_key(start) ==> r == Ok::<VirtualMemoryRegion, MemoryError>(old(self).regions_spec()[start]),
            !old(self).regions_spec().contains_key(start) ==> r == Err::<VirtualMemoryRegion, MemoryError>(MemoryError::RegionNotFound),
    {
        let removed = self.regions.remove(&start);
        assert(self.refcounts() == old(self).refcounts());
        assert forall|k: u64| #[trigger] self.regions_spec().contains_key(k) implies self.regions_spec()[k].start == k && fits(self.regions_spec()[k]) by {
            assert(old(self).regions_spec().contains_key(k));
        }
        assert forall|k1: u64, k2: u64|
            #[trigger] self.regions_spec().contains_key(k1) && #[trigger] self.regions_spec().contains_key(k2) && k1 != k2
            implies !regions_overlap(self.regions_spec()[k1], self.regions_spec()[k2]) by {
            assert(old(self).regions_spec().contains_key(k1));
            assert(old(self).regions_spec().contains_key(k2));
        }
        match removed {
            Some(region) => Ok(region),
            None => Err(MemoryError::RegionNotFound),
        }
    }

    /// The managed region that contains `addr`, if any (there is at most
    /// one, since managed regions do not overlap).
    pub fn find_region(&self, addr: u64) -> (r: Option<VirtualMemoryRegion>)
        requires
            self.wf(),
        ensures
            r is None <==> !exists|k: u64| #[trigger] self.regions_spec().contains_key(k) && region_holds(self.regions_spec()[k], addr),
            r matches Some(x) ==> self.regions_spec().contains_key(x.start) && self.regions_spec()[x.start] == x && region_holds(x, addr),
    {
        let mut found: Option<VirtualMemoryRegion> = None;
        for pair in it: self.regions.iter()
            invariant
                self.wf(),
                it.seq() == vstd::std_specs::btree::spec_btree_map_iter(&self.regions).remaining(),
                found is None ==> forall|j: int| 0 <= j < it.index() ==> !region_holds(*(#[trigger] it.seq()[j]).1, addr),
                found matches Some(x) ==> self.regions_spec().contains_key(x.start) && self.regions_spec()[x.start] == x && region_holds(x, addr),
        {
            let (k, existing) = pair;
            assert(self.regions@.contains_key(*k) && self.regions@[*k] == *existing);
            if found.is_none() && existing.contains(addr) {
                found = Some(*existing);
            }
        }
        proof {
            if found is None {
                let rem = vstd::std_specs::btree::spec_btree_map_iter(&self.regions).remaining();
                assert forall|k: u64| #[trigger] self.regions_spec().contains_key(k) implies !region_holds(self.regions_spec()[k], addr) by {
                    assert(rem.contains((&k, &self.regions@[k])));
                    let j = choose|j: int| 0 <= j < rem.len() && rem[j] == (&k, &self.regions@[k]);
                    assert(!region_holds(*rem[j].1, addr));
                }
            }
        }
        found
    }

    /// The lowest page-aligned user-space address from which `size` bytes
    /// meet no managed region, if there is one.
    pub fn find_free_virtual_space(&self, size: usize) -> (r: Option<u64>)
        requires
            self.wf(),
            size + USER_SPACE_START <= u64::MAX,
        ensures
            r matches Some(a) ==> user_slot(a as int, size as int) && span_free(self.regions_spec(), a as int, size as int),
            r matches Some(a) ==> forall|b: int| #![trigger user_slot(b, size as int)] user_slot(b, size as int) && b < a ==> !span_free(self.regions_spec(), b, size as int),
            r is None ==> forall|b: int| #![trigger user_slot(b, size as int)] user_slot(b, size as int) ==> !span_free(self.regions_spec(), b, size as int),
    {
        let mut current: u64 = USER_SPACE_START as u64;
        while current + size as u64 <= USER_SPACE_END as u64
            invariant
                self.wf(),
                size + USER_SPACE_START <= u64::MAX,
                USER_SPACE_START <= current,
                current == USER_SPACE_START || current + size <= USER_SPACE_END + PAGE_SIZE,
                current % 4096 == 0,
                forall|b: int| #![trigger user_slot(b, size as int)] user_slot(b, size as int) && b < current ==> !span_free(self.regions_spec(), b, size as int),
            decreases USER_SPACE_END + PAGE_SIZE - current - size,
        {
            let end_addr: u64 = current + size as u64;
            let mut overlaps = false;
            for pair in it: self.regions.iter()
                invariant
                    self.wf(),
                    end_addr == current + size,
                    it.seq() == vstd::std_specs::btree::spec_btree_map_iter(&self.regions).remaining(),
                    !overlaps ==> forall|j: int| 0 <= j < it.index() ==> ({
                        let e = *(#[trigger] it.seq()[j]).1;
                        end_addr <= e.start || current >= e.start + e.size
                    }),
                    overlaps ==> !span_free(self.regions_spec(), current as int, size as int),
            {
                let (k, existing) = pair;
                assert(self.regions@.contains_key(*k) && self.regions@[*k] == *existing);
                if !(end_addr <= existing.start || current >= existing.end()) {
                    overlaps = true;
                }
            }
            if !overlaps {
                proof {
                    let rem = vstd::std_specs::btree::spec_btree_map_iter(&self.regions).remaining();
                    assert forall|k: u64| #[trigger] self.regions_spec().contains_key(k) implies
                        (current + size <= self.regions_spec()[k].start || current >= self.regions_spec()[k].start + self.regions_spec()[k].size) by {
                        assert(rem.contains((&k, &self.regions@[k])));
                        let j = choose|j: int| 0 <= j < rem.len() && rem[j] == (&k, &self.regions@[k]);
                        assert(rem[j] == (&k, &self.regions@[k]));
                    }
                }
                return Some(current);
            }
            proof {
                assert forall|b: int| #![trigger user_slot(b, size as int)] user_slot(b, size as int) && b < current + PAGE_SIZE implies !span_free(self.regions_spec(), b, size as int) by {
                    if b >= current {
                        let c = current as int;
                        assert(b == c) by (nonlinear_arith)
                            requires
                                b % 4096 == 0,
                                c % 4096 == 0,
                                c <= b < c + 4096,
                        ;
                    }
                }
            }
            assert((current + 4096) % 4096 == 0) by (nonlinear_arith)
                requires
                    current % 4096 == 0,
            ;
            current = current + PAGE_SIZE as u64;
        }
        proof {
            assert forall|b: int| #![trigger user_slot(b, size as int)] user_slot(b, size as int) implies !span_free(self.regions_spec(), b, size as int) by {
                assert(b < current);
            }
        }
        None
    }

    /// Counts one more reference to the frame at `frame_addr`: a tracked
    /// count goes up by one (wrapping), an untracked frame starts at two.
    pub fn increment_frame_refcount(&mut self, frame_addr: u64)
        requires
            old(self).wf(),
        ensures
            final(self).wf(),
            final(self).regions_spec() == old(self).regions_spec(),
            final(self).refcounts() == old(self).refcounts().insert(
                frame_addr,
                if old(self).refcounts().contains_key(frame_addr) {
                    old(self).refcounts()[frame_addr].wrapping_add(1)
                } else {
                    2
                },
            ),
    {
        let current = self.frame_refcounts.get(&frame_addr);
        let next: usize = match current {
            Some(c) => c.wrapping_add(1),
            None => 2,
        };
        self.frame_refcounts.insert(frame_addr, next);
        assert(self.regions_spec() == old(self).regions_spec());
    }

    /// Counts one reference less to the frame at `frame_addr` and returns
    /// the count left; a count that reaches zero stops being tracked. An
    /// untracked frame gives zero and nothing changes.
    pub fn decrement_frame_refcount(&mut self, frame_addr: u64) -> (r: usize)
        requires
            old(self).wf(),
        ensures
            final(self).wf(),
            final(self).regions_spec() == old(self).regions_spec(),
            !old(self).refcounts().contains_key(frame_addr) ==> r == 0 && final(self).refcounts() == old(self).refcounts(),
            old(self).refcounts().contains_key(frame_addr) ==> {
                let c = old(self).refcounts()[frame_addr];
                &&& r == if c > 0 { (c - 1) as usize } else { 0 }
                &&& r == 0 ==> final(self).refcounts() == old(self).refcounts().remove(frame_addr)
                &&& r != 0 ==> final(self).refcounts() == old(self).refcounts().insert(frame_addr, c.wrapping_sub(1))
            },
    {
        let current = self.frame_refcounts.get(&frame_addr);
        match current {
            Some(c) => {
                let c: usize = *c;
                let new_count = c.saturating_sub(1);
                if new_count == 0 {
                    self.frame_refcounts.remove(&frame_addr);
                } else {
                    self.frame_refcounts.insert(frame_addr, c.wrapping_sub(1));
                }
                assert(self.regions_spec() == old(self).regions_spec());
                new_count
            },
            None => 0,
        }
    }

    /// The reference count of the frame at `frame_addr`; one where it is
    /// not tracked.
    pub fn get_frame_refcount(&self, frame_addr: u64) -> (r: usize)
        ensures
            r == if self.refcounts().contains_key(frame_addr) {
                self.refcounts()[frame_addr]
            } else {
                1
            },
    {
        match self.frame_refcounts.get(&frame_addr) {
            Some(c) => *c,
            None => 1,
        }
    }

    /// Whether the frame at `frame_addr` has more than one reference.
    pub fn is_frame_shared(&self, frame_addr: u64) -> (r: bool)
        ensures
            r == (self.refcounts().contains_key(frame_addr) && self.refcounts()[frame_addr] > 1),
    {
        self.get_frame_refcount(frame_addr) > 1
    }

    /// The protection of a page once its copy-on-write fault is handled:
    /// the page becomes writable and stops being copy-on-write.
    pub fn cow_protection(protection: MemoryProtection) -> (r: MemoryProtection)
        ensures
            r == cow_protection_spec(protection),
    {
        let mut p = protection;
        p.writable = true;
        p.copy_on_write = false;
        p
    }

    /// After a copy-on-write fault took the page's old frame out of the
    /// page table (`None` when no frame was mapped there): drops one
    /// reference to that frame and says whether none is left, so that the
    /// frame goes back to the frame allocator.
    pub fn cow_release_frame(&mut self, old_frame: Option<u64>) -> (r: bool)
        requires
            old(self).wf(),
        ensures
            final(self).wf(),
            final(self).regions_spec() == old(self).regions_spec(),
            match old_frame {
                None => !r && final(self).refcounts() == old(self).refcounts(),
                Some(f) => {
                    let counts = old(self).refcounts();
                    &&& r == (!counts.contains_key(f) || counts[f] <= 1)
                    &&& final(self).refcounts() == if !counts.contains_key(f) {
                        counts
                    } else if counts[f] <= 1 {
                        counts.remove(f)
                    } else {
                        counts.insert(f, (counts[f] - 1) as usize)
                    }
                },
            },
    {
        match old_frame {
            None => false,
            Some(f) => self.decrement_frame_refcount(f) == 0,
        }
    }
}

/// The protection of a page once its copy-on-write fault is handled.
pub open spec fn cow_protection_spec(p: MemoryProtection) -> MemoryProtection {
    MemoryProtection { writable: true, copy_on_write: false, ..p }
}

} // verus!
