//! Page table entry flags and their hardware bit layout.
use vstd::prelude::*;

verus! {

/// Page table entry flags: present (bit 0), writable (1), user (2),
/// write-through (3), no cache (4), accessed (5), dirty (6), huge page (7),
/// global (8), no execute (63).
#[derive(Debug, Clone, Copy, PartialEq, Eq, Structural)]
pub struct PageTableFlags {
    bits: u64,
}

/// The flags that the hardware conversion carries over: present, writable,
/// user, write-through, no cache, global and no execute.
pub open spec fn hardware_mask() -> u64 {
    0x8000_0000_0000_011F
}

#[allow(non_snake_case)]
impl PageTableFlags {
    /// The bits of the flags.
    pub closed spec fn bits_spec(self) -> u64 {
        self.bits
    }

    /// The flags with the given bits.
    pub closed spec fn from_bits_spec(bits: u64) -> PageTableFlags {
        PageTableFlags { bits }
    }

    /// Flags are equal when their bits are.
    pub proof fn lemma_bits_eq(a: PageTableFlags, b: PageTableFlags)
        ensures
            (a == b) == (a.bits_spec() == b.bits_spec()),
            PageTableFlags::from_bits_spec(a.bits_spec()) == a,
    {
    }

    /// The page is present.
    pub fn PRESENT() -> (r: Self)
        ensures
            r.bits_spec() == 1,
    {
        PageTableFlags { bits: 1 }
    }

    /// The page is writable.
    pub fn WRITABLE() -> (r: Self)
        ensures
            r.bits_spec() == 2,
    {
        PageTableFlags { bits: 2 }
    }

    /// The page is accessible from user mode.
    pub fn USER_ACCESSIBLE() -> (r: Self)
        ensures
            r.bits_spec() == 4,
    {
        PageTableFlags { bits: 4 }
    }

    /// Write-through caching.
    pub fn WRITE_THROUGH() -> (r: Self)
        ensures
            r.bits_spec() == 8,
    {
        PageTableFlags { bits: 8 }
    }

    /// Caching disabled.
    pub fn NO_CACHE() -> (r: Self)
        ensures
            r.bits_spec() == 16,
    {
        PageTableFlags { bits: 16 }
    }

    /// The page was accessed.
    pub fn ACCESSED() -> (r: Self)
        ensures
            r.bits_spec() == 32,
    {
        PageTableFlags { bits: 32 }
    }

    /// The page was written.
    pub fn DIRTY() -> (r: Self)
        ensures
            r.bits_spec() == 64,
    {
        PageTableFlags { bits: 64 }
    }

    /// A 2 MiB or 1 GiB page.
    pub fn HUGE_PAGE() -> (r: Self)
        ensures
            r.bits_spec() == 128,
    {
        PageTableFlags { bits: 128 }
    }

    /// Not flushed from the TLB on a switch of address space.
    pub fn GLOBAL() -> (r: Self)
        ensures
            r.bits_spec() == 256,
    {
        PageTableFlags { bits: 256 }
    }

    /// Execution disabled.
    pub fn NO_EXECUTE() -> (r: Self)
        ensures
            r.bits_spec() == 0x8000_0000_0000_0000,
    {
        PageTableFlags { bits: 0x8000_0000_0000_0000 }
    }

    /// No flag.
    pub fn empty() -> (r: Self)
        ensures
            r.bits_spec() == 0,
    {
        PageTableFlags { bits: 0 }
    }

    /// Whether every flag of `other` is set.
    pub fn contains(&self, other: Self) -> (r: bool)
        ensures
            r == (self.bits_spec() & other.bits_spec() == other.bits_spec()),
    {
        (self.bits & other.bits) == other.bits
    }

    /// The flags of both.
    pub fn union(self, other: Self) -> (r: Self)
        ensures
            r.bits_spec() == self.bits_spec() | other.bits_spec(),
    {
        PageTableFlags { bits: self.bits | other.bits }
    }

    /// The hardware entry bits of the flags that the conversion carries
    /// over (present, writable, user, write-through, no cache, global, no
    /// execute); the hardware uses the same bit positions.
    pub fn to_x64_bits(&self) -> (r: u64)
        ensures
            r == self.bits_spec() & hardware_mask(),
    {
        self.bits & 0x8000_0000_0000_011F
    }

    /// The flags of hardware entry bits, keeping those the conversion
    /// carries over.
    pub fn from_x64_bits(bits: u64) -> (r: Self)
        ensures
            r.bits_spec() == bits & hardware_mask(),
    {
        PageTableFlags { bits: bits & 0x8000_0000_0000_011F }
    }
}

/// Converting to hardware bits and back keeps the flags the conversion
/// carries over.
pub proof fn lemma_x64_roundtrip(bits: u64)
    ensures
        (bits & hardware_mask()) & hardware_mask() == bits & hardware_mask(),
{
    assert((bits & 0x8000_0000_0000_011Fu64) & 0x8000_0000_0000_011Fu64 == bits & 0x8000_0000_0000_011Fu64) by (bit_vector);
}

impl core::ops::BitOr for PageTableFlags {
    type Output = Self;

    fn bitor(self, rhs: Self) -> (r: Self)
        ensures
            r.bits_spec() == self.bits_spec() | rhs.bits_spec(),
    {
        self.union(rhs)
    }
}

impl vstd::std_specs::ops::BitOrSpecImpl for PageTableFlags {
    open spec fn obeys_bitor_spec() -> bool {
        true
    }

    open spec fn bitor_req(self, rhs: Self) -> bool {
        true
    }

    open spec fn bitor_spec(self, rhs: Self) -> Self {
        PageTableFlags::from_bits_spec(self.bits_spec() | rhs.bits_spec())
    }
}

} // verus!
