//! Virtual memory regions: their range, protection, type and backing, with
//! splitting, merging and a search tree by start address.
//!
//! Addresses are 64-bit virtual addresses held as `u64`.
use vstd::prelude::*;

verus! {

/// What backs a memory region.
#[derive(Debug, Clone, Copy, PartialEq, Eq, Structural)]
pub enum MemoryType {
    /// Not backed by a file.
    Anonymous,
    /// Backed by a file.
    FileBacked,
    /// Shared memory.
    Shared,
    /// A stack.
    Stack,
    /// The heap.
    Heap,
    /// Code (text).
    Code,
    /// Data.
    Data,
    /// Device memory (MMIO).
    Device,
}

/// POSIX-style protection: read (bit 0), write (bit 1), execute (bit 2).
#[derive(Debug, Clone, Copy, PartialEq, Eq, Structural)]
pub struct ProtectionFlags {
    bits: u8,
}

#[allow(non_snake_case)]
impl ProtectionFlags {
    /// The bits of the flags.
    pub closed spec fn bits_spec(self) -> u8 {
        self.bits
    }

    /// The flags with the given bits.
    pub closed spec fn from_bits_spec(bits: u8) -> ProtectionFlags {
        ProtectionFlags { bits }
    }

    /// Flags are equal when their bits are.
    pub proof fn lemma_bits_eq(a: ProtectionFlags, b: ProtectionFlags)
        ensures
            (a == b) == (a.bits_spec() == b.bits_spec()),
            ProtectionFlags::from_bits_spec(a.bits_spec()) == a,
            ProtectionFlags::from_bits_spec(a.bits_spec() as u8).bits_spec() == a.bits_spec(),
    {
    }

    /// No access.
    pub fn NONE() -> (r: Self)
        ensures
            r.bits_spec() == 0,
    {
        ProtectionFlags { bits: 0 }
    }

    /// Read access.
    pub fn READ() -> (r: Self)
        ensures
            r.bits_spec() == 1,
    {
        ProtectionFlags { bits: 1 }
    }

    /// Write access.
    pub fn WRITE() -> (r: Self)
        ensures
            r.bits_spec() == 2,
    {
        ProtectionFlags { bits: 2 }
    }

    /// Execute access.
    pub fn EXECUTE() -> (r: Self)
        ensures
            r.bits_spec() == 4,
    {
        ProtectionFlags { bits: 4 }
    }

    /// Read and write.
    pub fn READ_WRITE() -> (r: Self)
        ensures
            r.bits_spec() == 3,
    {
        ProtectionFlags { bits: 3 }
    }

    /// Read and execute.
    pub fn READ_EXEC() -> (r: Self)
        ensures
            r.bits_spec() == 5,
    {
        ProtectionFlags { bits: 5 }
    }

    /// Read, write and execute.
    pub fn READ_WRITE_EXEC() -> (r: Self)
        ensures
            r.bits_spec() == 7,
    {
        ProtectionFlags { bits: 7 }
    }

    /// No access.
    pub fn empty() -> (r: Self)
        ensures
            r.bits_spec() == 0,
    {
        ProtectionFlags { bits: 0 }
    }

    /// Whether every flag of `other` is set.
    pub open spec fn contains_spec(self, other: Self) -> bool {
        self.bits_spec() & other.bits_spec() == other.bits_spec()
    }

    /// Whether every flag of `other` is set.
    pub fn contains(&self, other: Self) -> (r: bool)
        ensures
            r == self.contains_spec(other),
    {
        (self.bits & other.bits) == other.bits
    }

    /// Whether reading is allowed.
    pub fn is_readable(&self) -> (r: bool)
        ensures
            r == (self.bits_spec() & 1 == 1),
    {
        (self.bits & 1) == 1
    }

    /// Whether writing is allowed.
    pub fn is_writable(&self) -> (r: bool)
        ensures
            r == (self.bits_spec() & 2 == 2),
    {
        (self.bits & 2) == 2
    }

    /// Whether executing is allowed.
    pub fn is_executable(&self) -> (r: bool)
        ensures
            r == (self.bits_spec() & 4 == 4),
    {
        (self.bits & 4) == 4
    }

    /// The flags of both.
    pub fn union(self, other: Self) -> (r: Self)
        ensures
            r.bits_spec() == self.bits_spec() | other.bits_spec(),
    {
        ProtectionFlags { bits: self.bits | other.bits }
    }

    /// The flags of `self` without those of `other`.
    pub fn difference(self, other: Self) -> (r: Self)
        ensures
            r.bits_spec() == self.bits_spec() & !other.bits_spec(),
    {
        ProtectionFlags { bits: self.bits & !other.bits }
    }
}

impl core::ops::BitOr for ProtectionFlags {
    type Output = Self;

    fn bitor(self, rhs: Self) -> (r: Self)
        ensures
            r.bits_spec() == self.bits_spec() | rhs.bits_spec(),
    {
        self.union(rhs)
    }
}

impl vstd::std_specs::ops::BitOrSpecImpl for ProtectionFlags {
    open spec fn obeys_bitor_spec() -> bool {
        true
    }

    open spec fn bitor_req(self, rhs: Self) -> bool {
        true
    }

    open spec fn bitor_spec(self, rhs: Self) -> Self {
        ProtectionFlags::from_bits_spec(self.bits_spec() | rhs.bits_spec())
    }
}

impl core::ops::BitAnd for ProtectionFlags {
    type Output = Self;

    fn bitand(self, rhs: Self) -> (r: Self)
        ensures
            r.bits_spec() == self.bits_spec() & rhs.bits_spec(),
    {
        ProtectionFlags { bits: self.bits & rhs.bits }
    }
}

impl vstd::std_specs::ops::BitAndSpecImpl for ProtectionFlags {
    open spec fn obeys_bitand_spec() -> bool {
        true
    }

    open spec fn bitand_req(self, rhs: Self) -> bool {
        true
    }

    open spec fn bitand_spec(self, rhs: Self) -> Self {
        ProtectionFlags::from_bits_spec(self.bits_spec() & rhs.bits_spec())
    }
}

/// The union of flags contains each of them; removing flags drops exactly
/// them.
pub proof fn lemma_protection_laws(a: u8, b: u8)
    ensures
        (a | b) & a == a,
        (a | b) & b == b,
        (a & !b) & b == 0,
        (a & !b) | (a & b) == a,
{
    assert((a | b) & a == a) by (bit_vector);
    assert((a | b) & b == b) by (bit_vector);
    assert((a & !b) & b == 0) by (bit_vector);
    assert((a & !b) | (a & b) == a) by (bit_vector);
}

/// A virtual memory region.
#[derive(Debug)]
pub struct MemoryRegion {
    /// First address.
    pub start: u64,
    /// Address one past the end.
    pub end: u64,
    pub protection: ProtectionFlags,
    pub memory_type: MemoryType,
    /// Whether the mapping is shared.
    pub shared: bool,
    /// Whether writes copy the page first.
    pub copy_on_write: bool,
    /// File descriptor of a file-backed region.
    pub file_descriptor: Option<usize>,
    /// Offset in the file of a file-backed region.
    pub file_offset: usize,
    /// A name, for debugging.
    pub name: Option<String>,
}

/// The size in bytes of a region from `start` to `end` (truncated to the
/// width of `usize`).
pub open spec fn region_size(start: u64, end: u64) -> usize {
    (end - start) as u64 as usize
}

impl MemoryRegion {
    /// A private, not copy-on-write, unnamed region without file backing.
    pub fn new(start: u64, end: u64, protection: ProtectionFlags, memory_type: MemoryType) -> (r: Self)
        ensures
            r == (MemoryRegion {
                start,
                end,
                protection,
                memory_type,
                shared: false,
                copy_on_write: false,
                file_descriptor: None,
                file_offset: 0,
                name: None,
            }),
    {
        MemoryRegion {
            start,
            end,
            protection,
            memory_type,
            shared: false,
            copy_on_write: false,
            file_descriptor: None,
            file_offset: 0,
            name: None,
        }
    }

    /// An anonymous region.
    pub fn anonymous(start: u64, end: u64, protection: ProtectionFlags) -> (r: Self)
        ensures
            r == (MemoryRegion {
                start,
                end,
                protection,
                memory_type: MemoryType::Anonymous,
                shared: false,
                copy_on_write: false,
                file_descriptor: None,
                file_offset: 0,
                name: None,
            }),
    {
        Self::new(start, end, protection, MemoryType::Anonymous)
    }

    /// A region backed by file `fd` from `offset` on.
    pub fn file_backed(start: u64, end: u64, protection: ProtectionFlags, fd: usize, offset: usize) -> (r: Self)
        ensures
            r == (MemoryRegion {
                start,
                end,
                protection,
                memory_type: MemoryType::FileBacked,
                shared: false,
                copy_on_write: false,
                file_descriptor: Some(fd),
                file_offset: offset,
                name: None,
            }),
    {
        let mut region = Self::new(start, end, protection, MemoryType::FileBacked);
        region.file_descriptor = Some(fd);
        region.file_offset = offset;
        region
    }

    /// A shared region.
    pub fn shared(start: u64, end: u64, protection: ProtectionFlags) -> (r: Self)
        ensures
            r == (MemoryRegion {
                start,
                end,
                protection,
                memory_type: MemoryType::Shared,
                shared: true,
                copy_on_write: false,
                file_descriptor: None,
                file_offset: 0,
                name: None,
            }),
    {
        let mut region = Self::new(start, end, protection, MemoryType::Shared);
        region.shared = true;
        region
    }

    /// A copy of the region.
    pub fn copy(&self) -> (r: Self)
        ensures
            r == *self,
    {
        MemoryRegion {
            start: self.start,
            end: self.end,
            protection: self.protection,
            memory_type: self.memory_type,
            shared: self.shared,
            copy_on_write: self.copy_on_write,
            file_descriptor: self.file_descriptor,
            file_offset: self.file_offset,
            name: match &self.name {
                Some(n) => Some(n.clone()),
                None => None,
            },
        }
    }

    /// The size in bytes.
    pub fn size(&self) -> (r: usize)
        requires
            self.start <= self.end,
        ensures
            r == region_size(self.start, self.end),
    {
        (self.end - self.start) as usize
    }

    /// The size in 4 KiB pages, rounded up.
    pub fn size_in_pages(&self) -> (r: usize)
        requires
            self.start <= self.end,
            region_size(self.start, self.end) + 4095 <= usize::MAX,
        ensures
            r == (region_size(self.start, self.end) + 4095) / 4096,
    {
        (self.size() + 4095) / 4096
    }

    /// Whether `addr` is in the region.
    pub fn contains(&self, addr: u64) -> (r: bool)
        ensures
            r == (self.start <= addr && addr < self.end),
    {
        addr >= self.start && addr < self.end
    }

    /// Whether the two regions share an address.
    pub fn overlaps(&self, other: &MemoryRegion) -> (r: bool)
        ensures
            r == (self.start < other.end && other.start < self.end),
    {
        self.start < other.end && other.start < self.end
    }

    /// Whether the region shares an address with `[start, end)`.
    pub fn overlaps_range(&self, start: u64, end: u64) -> (r: bool)
        ensures
            r == (self.start < end && start < self.end),
    {
        self.start < end && start < self.end
    }

    /// Splits the region at `addr`, strictly inside it: the first part ends
    /// there, the second starts there with its file offset moved on by the
    /// first part's size. `None` when `addr` is the start or outside.
    pub fn split_at(&self, addr: u64) -> (r: Option<(MemoryRegion, MemoryRegion)>)
        requires
            self.file_descriptor is Some && self.start < addr < self.end ==> self.file_offset + region_size(
                self.start,
                addr,
            ) <= usize::MAX,
        ensures
            !(self.start < addr && addr < self.end) ==> r is None,
            self.start < addr && addr < self.end ==> r == Some((
                MemoryRegion { end: addr, ..*self },
                MemoryRegion {
                    start: addr,
                    file_offset: if self.file_descriptor is Some {
                        (self.file_offset + region_size(self.start, addr)) as usize
                    } else {
                        self.file_offset
                    },
                    ..*self
                },
            )),
    {
        if !self.contains(addr) || addr == self.start {
            return None;
        }
        let mut first = self.copy();
        let mut second = self.copy();
        first.end = addr;
        second.start = addr;
        if self.file_descriptor.is_some() {
            let offset_increase = (addr - self.start) as usize;
            second.file_offset = second.file_offset + offset_increase;
        }
        Some((first, second))
    }

    /// Merges with a region that starts where this one ends or ends where
    /// this one starts, when protection, type, sharing, copy-on-write and
    /// file descriptor agree and, for a file-backed pair, the file offsets
    /// run on. The merged region takes the other properties of `self`.
    pub fn try_merge(&self, other: &MemoryRegion) -> (r: Option<MemoryRegion>)
        requires
            merge_fits(*self, *other),
        ensures
            r == merge_spec(*self, *other),
    {
        if self.end != other.start && other.end != self.start {
            return None;
        }
        if self.protection != other.protection || self.memory_type != other.memory_type || self.shared
            != other.shared || self.copy_on_write != other.copy_on_write {
            return None;
        }
        if self.file_descriptor != other.file_descriptor {
            return None;
        }
        if self.file_descriptor.is_some() {
            let expected_offset = if self.end == other.start {
                self.file_offset + self.size()
            } else {
                other.file_offset + other.size()
            };
            let actual_offset = if self.end == other.start {
                other.file_offset
            } else {
                self.file_offset
            };
            if expected_offset != actual_offset {
                return None;
            }
        }
        let (start, end) = if self.start < other.start {
            (self.start, other.end)
        } else {
            (other.start, self.end)
        };
        let mut merged = self.copy();
        merged.start = start;
        merged.end = end;
        Some(merged)
    }

    /// Sets the protection.
    pub fn set_protection(&mut self, protection: ProtectionFlags)
        ensures
            *final(self) == (MemoryRegion { protection, ..*old(self) }),
    {
        self.protection = protection;
    }

    /// Sets the copy-on-write mark.
    pub fn set_copy_on_write(&mut self, cow: bool)
        ensures
            *final(self) == (MemoryRegion { copy_on_write: cow, ..*old(self) }),
    {
        self.copy_on_write = cow;
    }

    /// Names the region.
    pub fn set_name(&mut self, name: String)
        ensures
            *final(self) == (MemoryRegion { name: Some(name), ..*old(self) }),
    {
        self.name = Some(name);
    }

    /// The address range.
    pub fn range(&self) -> (r: core::ops::Range<u64>)
        ensures
            r.start == self.start,
            r.end == self.end,
    {
        core::ops::Range { start: self.start, end: self.end }
    }

    /// Whether the region is not empty and starts on a page boundary.
    pub fn is_valid(&self) -> (r: bool)
        ensures
            r == (self.start < self.end && self.start % 4096 == 0),
    {
        self.start < self.end && self.start % 4096 == 0
    }
}

/// Whether `a` and `b` touch: one ends where the other starts.
pub open spec fn contiguous(a: MemoryRegion, b: MemoryRegion) -> bool {
    a.end == b.start || b.end == a.start
}

/// Whether `a` and `b` have the same properties.
pub open spec fn compatible(a: MemoryRegion, b: MemoryRegion) -> bool {
    &&& a.protection == b.protection
    &&& a.memory_type == b.memory_type
    &&& a.shared == b.shared
    &&& a.copy_on_write == b.copy_on_write
    &&& a.file_descriptor == b.file_descriptor
}

/// For file-backed regions, the file offsets run on from the first region
/// to the second.
pub open spec fn offsets_run_on(a: MemoryRegion, b: MemoryRegion) -> bool {
    a.file_descriptor is Some ==> if a.end == b.start {
        a.file_offset + region_size(a.start, a.end) == b.file_offset
    } else {
        b.file_offset + region_size(b.start, b.end) == a.file_offset
    }
}

/// The sizes that a merge computes fit.
pub open spec fn merge_fits(a: MemoryRegion, b: MemoryRegion) -> bool {
    (contiguous(a, b) && compatible(a, b) && a.file_descriptor is Some) ==> if a.end == b.start {
        a.start <= a.end && a.file_offset + region_size(a.start, a.end) <= usize::MAX
    } else {
        b.start <= b.end && b.file_offset + region_size(b.start, b.end) <= usize::MAX
    }
}

/// The merge of `a` and `b`: `a` over the two ranges, when they touch,
/// agree and their file offsets run on.
pub open spec fn merge_spec(a: MemoryRegion, b: MemoryRegion) -> Option<MemoryRegion> {
    if contiguous(a, b) && compatible(a, b) && offsets_run_on(a, b) {
        Some(
            if a.start < b.start {
                MemoryRegion { start: a.start, end: b.end, ..a }
            } else {
                MemoryRegion { start: b.start, end: a.end, ..a }
            },
        )
    } else {
        None
    }
}

/// Splitting a region inside it and merging the parts back gives the
/// region again.
pub proof fn lemma_split_merge(r: MemoryRegion, addr: u64)
    requires
        r.start < addr < r.end,
        r.file_descriptor is Some ==> r.file_offset + region_size(r.start, addr) <= usize::MAX,
    ensures
        ({
            let first = MemoryRegion { end: addr, ..r };
            let second = MemoryRegion {
                start: addr,
                file_offset: if r.file_descriptor is Some {
                    (r.file_offset + region_size(r.start, addr)) as usize
                } else {
                    r.file_offset
                },
                ..r
            };
            merge_fits(first, second) && merge_spec(first, second) == Some(r)
        }),
{
}

/// A node of the search tree of regions, ordered by start address.
#[derive(Debug)]
pub struct MemoryRegionNode {
    pub region: MemoryRegion,
    pub left: Option<Box<MemoryRegionNode>>,
    pub right: Option<Box<MemoryRegionNode>>,
}

/// The regions of an optional subtree, in order.
pub open spec fn subtree_regions(n: Option<Box<MemoryRegionNode>>) -> Seq<MemoryRegion>
    decreases n,
{
    match n {
        None => Seq::empty(),
        Some(b) => b.regions(),
    }
}

impl MemoryRegionNode {
    /// The regions of the tree, in order: left subtree, this node, right
    /// subtree.
    pub open spec fn regions(self) -> Seq<MemoryRegion>
        decreases self,
    {
        subtree_regions(self.left) + seq![self.region] + subtree_regions(self.right)
    }

    /// Where `insert` puts a region and whether it is refused: refused when
    /// it overlaps a node on its search path; otherwise it goes left of a
    /// node it starts before, right of any other.
    pub open spec fn insert_ok(self, r: MemoryRegion) -> bool
        decreases self,
    {
        if r.start < self.region.end && self.region.start < r.end {
            false
        } else if r.start < self.region.start {
            match self.left {
                Some(l) => l.insert_ok(r),
                None => true,
            }
        } else {
            match self.right {
                Some(rt) => rt.insert_ok(r),
                None => true,
            }
        }
    }

    /// What `find` answers for `addr`: the region on its search path that
    /// contains it.
    pub open spec fn find_spec(self, addr: u64) -> Option<MemoryRegion>
        decreases self,
    {
        if self.region.start <= addr && addr < self.region.end {
            Some(self.region)
        } else if addr < self.region.start {
            match self.left {
                Some(l) => l.find_spec(addr),
                None => None,
            }
        } else {
            match self.right {
                Some(rt) => rt.find_spec(addr),
                None => None,
            }
        }
    }

    /// The tree after `insert` of a region it takes.
    pub open spec fn inserted(self, r: MemoryRegion) -> MemoryRegionNode
        decreases self,
    {
        if r.start < self.region.start {
            MemoryRegionNode {
                left: Some(
                    Box::new(
                        match self.left {
                            Some(l) => l.inserted(r),
                            None => MemoryRegionNode { region: r, left: None, right: None },
                        },
                    ),
                ),
                ..self
            }
        } else {
            MemoryRegionNode {
                right: Some(
                    Box::new(
                        match self.right {
                            Some(rt) => rt.inserted(r),
                            None => MemoryRegionNode { region: r, left: None, right: None },
                        },
                    ),
                ),
                ..self
            }
        }
    }

    /// A leaf holding `region`.
    pub fn new(region: MemoryRegion) -> (r: Self)
        ensures
            r == (MemoryRegionNode { region, left: None, right: None }),
    {
        MemoryRegionNode { region, left: None, right: None }
    }

    /// Inserts a region by start address; refused when it overlaps a
    /// region on its search path.
    pub fn insert(&mut self, region: MemoryRegion) -> (r: Result<(), &'static str>)
        ensures
            r is Ok == old(self).insert_ok(region),
            r is Ok ==> *final(self) == old(self).inserted(region),
            r is Err ==> *final(self) == *old(self),
        decreases *old(self),
    {
        if region.overlaps(&self.region) {
            return Err("Region overlaps with existing region");
        }
        if region.start < self.region.start {
            match self.left.take() {
                Some(mut left) => {
                    let res = left.insert(region);
                    self.left = Some(left);
                    res
                },
                None => {
                    self.left = Some(Box::new(MemoryRegionNode::new(region)));
                    Ok(())
                },
            }
        } else {
            match self.right.take() {
                Some(mut right) => {
                    let res = right.insert(region);
                    self.right = Some(right);
                    res
                },
                None => {
                    self.right = Some(Box::new(MemoryRegionNode::new(region)));
                    Ok(())
                },
            }
        }
    }

    /// The region on the search path for `addr` that contains it.
    pub fn find(&self, addr: u64) -> (r: Option<&MemoryRegion>)
        ensures
            match r {
                Some(x) => self.find_spec(addr) == Some(*x),
                None => self.find_spec(addr) is None,
            },
        decreases self,
    {
        if self.region.contains(addr) {
            Some(&self.region)
        } else if addr < self.region.start {
            match &self.left {
                Some(left) => left.find(addr),
                None => None,
            }
        } else {
            match &self.right {
                Some(right) => right.find(addr),
                None => None,
            }
        }
    }
}

} // verus!
