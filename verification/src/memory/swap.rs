//! Swap slots and the statistics of swapping.
use vstd::prelude::*;
use crate::memory::MemoryError;

verus! {

/// A slot of the swap area.
#[derive(Debug, Clone, Copy, PartialEq, Eq, PartialOrd, Ord, Structural)]
pub struct SwapSlot(pub u32);

/// How a page is chosen for replacement.
#[derive(Debug, Clone, Copy, PartialEq, Eq, Structural)]
pub enum PageReplacementAlgorithm {
    /// Least recently used.
    LRU,
    /// Clock, an approximation of LRU.
    Clock,
    /// First in, first out.
    FIFO,
}

/// Swap statistics.
#[derive(Debug, Clone, Copy, PartialEq, Eq, Structural)]
pub struct SwapStats {
    pub total_slots: u32,
    pub used_slots: u32,
    pub free_slots: u32,
    pub algorithm: PageReplacementAlgorithm,
    pub total_swapped_pages: u32,
}

/// A page held in a swap slot.
#[derive(Debug, Clone, Copy, PartialEq, Eq, Structural)]
pub struct SwapEntry {
    pub slot: SwapSlot,
    pub page_addr: u64,
    pub access_time: u64,
    pub dirty: bool,
}


broadcast use vstd::laws_cmp::group_laws_cmp;

/// Whether slot `i` is free in bitmap `w`.
pub open spec fn slot_free(w: Seq<u64>, i: nat) -> bool {
    i / 64 < w.len() && (w[(i / 64) as int] >> ((i % 64) as u64)) & 1 == 1
}

/// The lowest free slot of bitmap `w` from `i` on, or `64 * w.len()`.
pub open spec fn first_free(w: Seq<u64>, i: nat) -> nat
    decreases 64 * w.len() - i,
{
    if i >= 64 * w.len() {
        (64 * w.len()) as nat
    } else if slot_free(w, i) {
        i
    } else {
        first_free(w, i + 1)
    }
}

/// Bitmap `w` with slot `i` marked used.
pub open spec fn take_slot(w: Seq<u64>, i: nat) -> Seq<u64> {
    w.update((i / 64) as int, w[(i / 64) as int] & !(1u64 << ((i % 64) as u64)))
}

/// Bitmap `w` with slot `i` marked free (nothing outside the bitmap).
pub open spec fn give_slot(w: Seq<u64>, i: nat) -> Seq<u64> {
    if i / 64 < w.len() {
        w.update((i / 64) as int, w[(i / 64) as int] | (1u64 << ((i % 64) as u64)))
    } else {
        w
    }
}

/// Pages written to and read from swap slots, and the choice of pages to
/// evict.
#[derive(Debug)]
pub struct SwapManager {
    free_slots: Vec<u64>,
    total_slots: u32,
    used_slots: u32,
    swap_entries: std::collections::BTreeMap<u32, SwapEntry>,
    replacement_algorithm: PageReplacementAlgorithm,
    lru_list: Vec<u64>,
    clock_hand: usize,
    access_times: std::collections::BTreeMap<u64, u64>,
    access_counter: u64,
    swap_device_id: Option<u32>,
}

impl SwapManager {
    /// The slot bitmap, a set bit per free slot.
    pub closed spec fn bitmap_spec(&self) -> Seq<u64> {
        self.free_slots@
    }

    /// The bitmap has a bit for each slot, rounded up to whole words, and
    /// no more slots are in use than there are.
    pub closed spec fn wf(&self) -> bool {
        &&& self.free_slots@.len() == (self.total_slots as nat + 63) / 64
        &&& self.used_slots <= self.total_slots
        &&& forall|k: u32| #[trigger] self.swap_entries@.contains_key(k) ==> k < self.total_slots
    }

    /// The number of slots.
    pub closed spec fn total_spec(&self) -> u32 {
        self.total_slots
    }

    /// The number of slots in use.
    pub closed spec fn used_spec(&self) -> u32 {
        self.used_slots
    }

    /// The pages held, by slot.
    pub closed spec fn entries_spec(&self) -> Map<u32, SwapEntry> {
        self.swap_entries@
    }

    /// The last access time of each page.
    pub closed spec fn access_spec(&self) -> Map<u64, u64> {
        self.access_times@
    }

    /// The pages in order of last access, oldest first.
    pub closed spec fn lru_spec(&self) -> Seq<u64> {
        self.lru_list@
    }

    /// The access counter.
    pub closed spec fn counter_spec(&self) -> u64 {
        self.access_counter
    }

    /// The clock hand.
    pub closed spec fn hand_spec(&self) -> usize {
        self.clock_hand
    }

    /// The replacement algorithm.
    pub closed spec fn algorithm_spec(&self) -> PageReplacementAlgorithm {
        self.replacement_algorithm
    }

    /// The swap device.
    pub closed spec fn device_spec(&self) -> Option<u32> {
        self.swap_device_id
    }

    /// A manager of `total_slots` slots, all free, with no device.
    pub fn new(total_slots: u32, algorithm: PageReplacementAlgorithm) -> (r: Self)
        ensures
            r.wf(),
            r.bitmap_spec() == Seq::new(((total_slots as nat + 63) / 64) as nat, |i: int| u64::MAX),
            r.total_spec() == total_slots,
            r.used_spec() == 0,
            r.entries_spec() == Map::<u32, SwapEntry>::empty(),
            r.access_spec() == Map::<u64, u64>::empty(),
            r.lru_spec() == Seq::<u64>::empty(),
            r.counter_spec() == 0,
            r.hand_spec() == 0,
            r.algorithm_spec() == algorithm,
            r.device_spec() is None,
    {
        let words = ((total_slots as u64 + 63) / 64) as usize;
        let v: Vec<u64> = vec![u64::MAX; words];
        assert(v@ =~= Seq::new(words as nat, |i: int| u64::MAX));
        SwapManager {
            free_slots: v,
            total_slots,
            used_slots: 0,
            swap_entries: std::collections::BTreeMap::new(),
            replacement_algorithm: algorithm,
            lru_list: Vec::new(),
            clock_hand: 0,
            access_times: std::collections::BTreeMap::new(),
            access_counter: 0,
            swap_device_id: None,
        }
    }

    /// Sets the swap device.
    pub fn set_swap_device(&mut self, device_id: u32)
        requires
            old(self).wf(),
        ensures
            final(self).wf(),
            final(self).device_spec() == Some(device_id),
            final(self).bitmap_spec() == old(self).bitmap_spec(),
            final(self).used_spec() == old(self).used_spec(),
            final(self).total_spec() == old(self).total_spec(),
            final(self).entries_spec() == old(self).entries_spec(),
    {
        self.swap_device_id = Some(device_id);
    }

    /// The swap device.
    pub fn get_swap_device(&self) -> (r: Option<u32>)
        ensures
            r == self.device_spec(),
    {
        self.swap_device_id
    }

    /// Takes the lowest free slot below `total_slots`; `None` when all
    /// slots are used or no free slot lies below the total.
    pub fn allocate_slot(&mut self) -> (r: Option<SwapSlot>)
        requires
            old(self).wf(),
        ensures
            final(self).wf(),
            final(self).lru_spec() == old(self).lru_spec(),
            final(self).hand_spec() == old(self).hand_spec(),
            final(self).algorithm_spec() == old(self).algorithm_spec(),
            final(self).total_spec() == old(self).total_spec(),
            final(self).entries_spec() == old(self).entries_spec(),
            final(self).device_spec() == old(self).device_spec(),
            final(self).access_spec() == old(self).access_spec(),
            final(self).counter_spec() == old(self).counter_spec(),
            ({
                let s = first_free(old(self).bitmap_spec(), 0);
                if old(self).used_spec() >= old(self).total_spec() || s >= old(self).total_spec() {
                    r is None && *final(self) == *old(self)
                } else {
                    &&& r == Some(SwapSlot(s as u32))
                    &&& final(self).bitmap_spec() == take_slot(old(self).bitmap_spec(), s)
                    &&& final(self).used_spec() == old(self).used_spec() + 1
                }
            }),
    {
        if self.used_slots >= self.total_slots {
            return None;
        }
        let n = self.free_slots.len();
        let mut i: u64 = 0;
        let limit = (n as u64) * 64;
        while i < limit
            invariant
                *self == *old(self),
                self.wf(),
                self.used_slots < self.total_slots,
                n == self.free_slots@.len(),
                limit == 64 * n,
                limit <= 0x1_0000_0040,
                i <= limit,
                first_free(self.free_slots@, 0) == first_free(self.free_slots@, i as nat),
            decreases limit - i,
        {
            let w = self.free_slots[(i / 64) as usize];
            if (w >> (i % 64)) & 1 == 1 {
                assert(slot_free(self.free_slots@, i as nat));
                if i < self.total_slots as u64 {
                    let ghost before = self.free_slots@;
                    self.free_slots.set((i / 64) as usize, w & !(1u64 << (i % 64)));
                    assert(self.free_slots@ =~= take_slot(before, i as nat));
                    self.used_slots = self.used_slots + 1;
                    return Some(SwapSlot(i as u32));
                }
                return None;
            }
            i = i + 1;
        }
        None
    }
}


/// Sectors of 512 bytes in a page.
pub const SECTORS_PER_PAGE: u64 = 8;

/// How a storage transfer of a page ended: `None` when no device is set,
/// else the number of bytes moved or a failure.
pub type TransferOutcome = Option<Result<usize, ()>>;

impl SwapManager {
    /// Gives back slot `slot`: a slot inside the bitmap becomes free, one
    /// fewer slot is counted as used (not below zero), and its page is
    /// forgotten; a slot outside the bitmap changes nothing.
    pub fn deallocate_slot(&mut self, slot: SwapSlot)
        requires
            old(self).wf(),
        ensures
            final(self).wf(),
            final(self).total_spec() == old(self).total_spec(),
            final(self).device_spec() == old(self).device_spec(),
            final(self).access_spec() == old(self).access_spec(),
            final(self).counter_spec() == old(self).counter_spec(),
            final(self).lru_spec() == old(self).lru_spec(),
            final(self).hand_spec() == old(self).hand_spec(),
            final(self).algorithm_spec() == old(self).algorithm_spec(),
            (slot.0 as nat) / 64 < old(self).bitmap_spec().len() ==> {
                &&& final(self).bitmap_spec() == give_slot(old(self).bitmap_spec(), slot.0 as nat)
                &&& final(self).used_spec() == if old(self).used_spec() > 0 {
                    (old(self).used_spec() - 1) as u32
                } else {
                    0
                }
                &&& final(self).entries_spec() == old(self).entries_spec().remove(slot.0)
            },
            (slot.0 as nat) / 64 >= old(self).bitmap_spec().len() ==> final(self).bitmap_spec() == old(self).bitmap_spec()
                && final(self).used_spec() == old(self).used_spec() && final(self).entries_spec()
                == old(self).entries_spec(),
    {
        let idx = slot.0 as usize;
        let word = idx / 64;
        let bit = (idx % 64) as u64;
        if word < self.free_slots.len() {
            let ghost before = self.free_slots@;
            let w = self.free_slots[word];
            self.free_slots.set(word, w | (1u64 << bit));
            assert(self.free_slots@ =~= give_slot(before, slot.0 as nat));
            self.used_slots = self.used_slots.saturating_sub(1);
            self.swap_entries.remove(&slot.0);
        }
    }

    /// The first step of swapping out: a slot for the page (`allocate_slot`),
    /// and where it starts on the device (`slot * 8` sectors); "No swap
    /// slots available" when there is none.
    pub fn swap_out_prepare(&mut self) -> (r: Result<(SwapSlot, u64), &'static str>)
        requires
            old(self).wf(),
        ensures
            final(self).wf(),
            final(self).entries_spec() == old(self).entries_spec(),
            final(self).device_spec() == old(self).device_spec(),
            final(self).counter_spec() == old(self).counter_spec(),
            final(self).access_spec() == old(self).access_spec(),
            ({
                let s = first_free(old(self).bitmap_spec(), 0);
                if old(self).used_spec() >= old(self).total_spec() || s >= old(self).total_spec() {
                    r matches Err(m) && m@ == "No swap slots available"@ && *final(self) == *old(self)
                } else {
                    &&& r == Ok::<(SwapSlot, u64), &'static str>((SwapSlot(s as u32), (s * 8) as u64))
                    &&& final(self).bitmap_spec() == take_slot(old(self).bitmap_spec(), s)
                    &&& final(self).used_spec() == old(self).used_spec() + 1
                }
            }),
    {
        match self.allocate_slot() {
            Some(slot) => Ok((slot, slot.0 as u64 * SECTORS_PER_PAGE)),
            None => Err("No swap slots available"),
        }
    }

    /// The last step of swapping out the page at `page_addr` into `slot`,
    /// given how writing it went: with no device, or a write of a whole
    /// page, the page is recorded in the slot (dirty, stamped with the
    /// access counter); a short write or a failed one gives the slot back
    /// and reports it.
    pub fn swap_out_complete(&mut self, slot: SwapSlot, page_addr: u64, write: TransferOutcome) -> (r: Result<
        SwapSlot,
        &'static str,
    >)
        requires
            old(self).wf(),
            slot.0 < old(self).total_spec(),
        ensures
            final(self).wf(),
            final(self).counter_spec() == old(self).counter_spec(),
            match write {
                Some(Ok(n)) if n != 4096 => r matches Err(m) && m@ == "Incomplete swap write operation"@,
                Some(Err(_)) => r matches Err(m) && m@ == "Storage write failed during swap out"@,
                _ => r == Ok::<SwapSlot, &'static str>(slot) && final(self).entries_spec() == old(self).entries_spec().insert(
                    slot.0,
                    SwapEntry { slot, page_addr, access_time: old(self).counter_spec(), dirty: true },
                ) && final(self).bitmap_spec() == old(self).bitmap_spec() && final(self).used_spec()
                    == old(self).used_spec(),
            },
    {
        match write {
            Some(Ok(n)) => {
                if n != 4096 {
                    self.deallocate_slot(slot);
                    return Err("Incomplete swap write operation");
                }
            },
            Some(Err(_)) => {
                self.deallocate_slot(slot);
                return Err("Storage write failed during swap out");
            },
            None => {},
        }
        let entry = SwapEntry { slot, page_addr, access_time: self.access_counter, dirty: true };
        self.swap_entries.insert(slot.0, entry);
        Ok(slot)
    }

    /// The page held in `slot`; "Invalid swap slot" for a slot that holds
    /// none.
    pub fn swap_in_lookup(&self, slot: SwapSlot) -> (r: Result<u64, &'static str>)
        ensures
            self.entries_spec().contains_key(slot.0) ==> r == Ok::<u64, &'static str>(
                self.entries_spec()[slot.0].page_addr,
            ),
            !self.entries_spec().contains_key(slot.0) ==> (r matches Err(m) && m@ == "Invalid swap slot"@),
    {
        match self.swap_entries.get(&slot.0) {
            Some(e) => Ok(e.page_addr),
            None => Err("Invalid swap slot"),
        }
    }

    /// The last step of swapping in `slot`, given how reading it went: a
    /// short or failed read is reported and the slot kept; otherwise the
    /// slot is given back and the page's address returned. (With no
    /// device the page is zero-filled by the caller.)
    pub fn swap_in_complete(&mut self, slot: SwapSlot, read: TransferOutcome) -> (r: Result<u64, &'static str>)
        requires
            old(self).wf(),
        ensures
            final(self).wf(),
            !old(self).entries_spec().contains_key(slot.0) ==> (r matches Err(m) && m@ == "Invalid swap slot"@)
                && *final(self) == *old(self),
            old(self).entries_spec().contains_key(slot.0) ==> match read {
                Some(Ok(n)) if n != 4096 => (r matches Err(m) && m@ == "Incomplete swap read operation"@)
                    && *final(self) == *old(self),
                Some(Err(_)) => (r matches Err(m) && m@ == "Storage read failed during swap in"@) && *final(self)
                    == *old(self),
                _ => {
                    &&& r == Ok::<u64, &'static str>(old(self).entries_spec()[slot.0].page_addr)
                    &&& final(self).entries_spec() == old(self).entries_spec().remove(slot.0)
                    &&& final(self).bitmap_spec() == give_slot(old(self).bitmap_spec(), slot.0 as nat)
                    &&& final(self).used_spec() == if old(self).used_spec() > 0 {
                        (old(self).used_spec() - 1) as u32
                    } else {
                        0
                    }
                    &&& final(self).counter_spec() == old(self).counter_spec()
                    &&& final(self).access_spec() == old(self).access_spec()
                    &&& final(self).lru_spec() == old(self).lru_spec()
                },
            },
    {
        let page_addr = match self.swap_in_lookup(slot) {
            Ok(a) => a,
            Err(e) => {
                return Err(e);
            },
        };
        match read {
            Some(Ok(n)) => {
                if n != 4096 {
                    return Err("Incomplete swap read operation");
                }
            },
            Some(Err(_)) => {
                return Err("Storage read failed during swap in");
            },
            None => {},
        }
        proof {
            assert(old(self).entries_spec().contains_key(slot.0));
            lemma_slot_in_bitmap(slot.0, self.total_spec());
        }
        self.deallocate_slot(slot);
        Ok(page_addr)
    }

    /// Chooses a page to evict among `candidates`: the least recently
    /// accessed (LRU; the first of equals, unknown pages at time 0), the
    /// one under the clock hand (Clock; the hand moves on), or the first
    /// (FIFO). `None` for no candidates.
    pub fn select_victim_page(&mut self, candidates: &[u64]) -> (r: Option<u64>)
        requires
            old(self).wf(),
        ensures
            final(self).wf(),
            candidates@.len() == 0 ==> r is None && *final(self) == *old(self),
            candidates@.len() > 0 ==> match old(self).algorithm_spec() {
                PageReplacementAlgorithm::LRU => r == Some(candidates@[lru_index(candidates@, old(self).access_spec())])
                    && *final(self) == *old(self),
                PageReplacementAlgorithm::Clock => r == Some(candidates@[(old(self).hand_spec() as int) % (candidates@.len() as int)])
                    && final(self).hand_spec() == ((old(self).hand_spec() + 1) % candidates@.len() as int) as usize,
                PageReplacementAlgorithm::FIFO => r == Some(candidates@[0]) && *final(self) == *old(self),
            },
    {
        if candidates.len() == 0 {
            return None;
        }
        match self.replacement_algorithm {
            PageReplacementAlgorithm::LRU => {
                let mut best: usize = 0;
                let mut best_time: u64 = match self.access_times.get(&candidates[0]) {
                    Some(t) => *t,
                    None => 0,
                };
                let mut i: usize = 1;
                while i < candidates.len()
                    invariant
                        1 <= i <= candidates@.len(),
                        best < i,
                        best == lru_from(candidates@, self.access_spec(), i as int),
                        best_time == time_of(self.access_spec(), candidates@[best as int]),
                    decreases candidates@.len() - i,
                {
                    let t = match self.access_times.get(&candidates[i]) {
                        Some(t) => *t,
                        None => 0,
                    };
                    if t < best_time {
                        best = i;
                        best_time = t;
                    }
                    i = i + 1;
                }
                Some(candidates[best])
            },
            PageReplacementAlgorithm::Clock => {
                let idx = self.clock_hand % candidates.len();
                self.clock_hand = ((self.clock_hand as u128 + 1) % candidates.len() as u128) as usize;
                Some(candidates[idx])
            },
            PageReplacementAlgorithm::FIFO => Some(candidates[0]),
        }
    }

    /// Records an access to the page at `page_addr`: it gets the counter's
    /// value as its time (the counter goes up by one, wrapping) and moves
    /// to the end of the LRU list, which keeps its last 1000 pages.
    pub fn record_access(&mut self, page_addr: u64)
        requires
            old(self).wf(),
        ensures
            final(self).wf(),
            final(self).counter_spec() == vstd::wrapping::u64_specs::wrapping_add(old(self).counter_spec(), 1),
            final(self).access_spec() == old(self).access_spec().insert(page_addr, old(self).counter_spec()),
            final(self).lru_spec() == lru_after(old(self).lru_spec(), page_addr),
            final(self).entries_spec() == old(self).entries_spec(),
            final(self).bitmap_spec() == old(self).bitmap_spec(),
            final(self).used_spec() == old(self).used_spec(),
    {
        let t = self.access_counter;
        self.access_counter = self.access_counter.wrapping_add(1);
        self.access_times.insert(page_addr, t);
        let mut i: usize = 0;
        while i < self.lru_list.len() && self.lru_list[i] != page_addr
            invariant
                i <= self.lru_list@.len(),
                forall|k: int| 0 <= k < i ==> self.lru_list@[k] != page_addr,
            decreases self.lru_list@.len() - i,
        {
            i = i + 1;
        }
        let ghost before = self.lru_list@;
        if i < self.lru_list.len() {
            self.lru_list.remove(i);
        }
        self.lru_list.push(page_addr);
        if self.lru_list.len() > 1000 {
            self.lru_list.remove(0);
        }
        proof {
            lemma_first_u64(before, page_addr, i as int);
        }
    }

    /// The slot counts, the algorithm and the number of pages held.
    pub fn get_stats(&self) -> (r: SwapStats)
        requires
            self.wf(),
            self.entries_spec().len() <= u32::MAX,
        ensures
            r.total_slots == self.total_spec(),
            r.used_slots == self.used_spec(),
            r.free_slots == self.total_spec() - self.used_spec(),
            r.algorithm == self.algorithm_spec(),
            r.total_swapped_pages == self.entries_spec().len(),
    {
        SwapStats {
            total_slots: self.total_slots,
            used_slots: self.used_slots,
            free_slots: self.total_slots - self.used_slots,
            algorithm: self.replacement_algorithm,
            total_swapped_pages: self.swap_entries.len() as u32,
        }
    }
}

/// The access time of page `a` (0 when it has none).
pub open spec fn time_of(times: Map<u64, u64>, a: u64) -> u64 {
    if times.contains_key(a) {
        times[a]
    } else {
        0
    }
}

/// Among the first `n` candidates, the index of the first with the least
/// access time.
pub open spec fn lru_from(c: Seq<u64>, times: Map<u64, u64>, n: int) -> int
    decreases n,
{
    if n <= 1 {
        0
    } else {
        let b = lru_from(c, times, n - 1);
        if time_of(times, c[n - 1]) < time_of(times, c[b]) {
            n - 1
        } else {
            b
        }
    }
}

/// The index of the first candidate with the least access time.
pub open spec fn lru_index(c: Seq<u64>, times: Map<u64, u64>) -> int {
    lru_from(c, times, c.len() as int)
}

/// The index of the first `x` in `s`, or its length.
pub open spec fn first_u64(s: Seq<u64>, x: u64) -> int {
    if exists|i: int| 0 <= i < s.len() && s[i] == x {
        choose|i: int| 0 <= i < s.len() && s[i] == x && forall|k: int| 0 <= k < i ==> s[k] != x
    } else {
        s.len() as int
    }
}

proof fn lemma_first_u64(s: Seq<u64>, x: u64, i: int)
    requires
        0 <= i <= s.len(),
        forall|k: int| 0 <= k < i ==> s[k] != x,
        i == s.len() || s[i] == x,
    ensures
        first_u64(s, x) == i,
{
    if i < s.len() {
        let j = choose|j: int| 0 <= j < s.len() && s[j] == x && forall|k: int| 0 <= k < j ==> s[k] != x;
        assert(0 <= i < s.len() && s[i] == x && forall|k: int| 0 <= k < i ==> s[k] != x);
        if j < i {
            assert(s[j] != x);
        }
        if i < j {
            assert(s[i] != x);
        }
    } else {
        assert forall|j: int| 0 <= j < s.len() implies s[j] != x by {}
    }
}

/// The LRU list after an access to `a`: `a` leaves its place and goes to
/// the end; a list longer than 1000 drops its first page.
pub open spec fn lru_after(l: Seq<u64>, a: u64) -> Seq<u64> {
    let i = first_u64(l, a);
    let l2 = if i < l.len() {
        l.remove(i)
    } else {
        l
    };
    let l3 = l2.push(a);
    if l3.len() > 1000 {
        l3.remove(0)
    } else {
        l3
    }
}


/// The slot that `allocate_slot` picks was free, and every slot below it
/// was taken.
pub proof fn lemma_first_free_is_free(w: Seq<u64>, i: nat)
    requires
        i <= 64 * w.len(),
    ensures
        first_free(w, i) >= i,
        first_free(w, i) < 64 * w.len() ==> slot_free(w, first_free(w, i)),
        forall|j: nat| i <= j < first_free(w, i) ==> !slot_free(w, j),
    decreases 64 * w.len() - i,
{
    if i < 64 * w.len() && !slot_free(w, i) {
        lemma_first_free_is_free(w, i + 1);
    }
}

proof fn lemma_bit_roundtrip(x: u64, b: u64)
    by (bit_vector)
    requires
        b < 64,
        (x >> b) & 1 == 1,
    ensures
        (x & !(1u64 << b)) | (1u64 << b) == x,
        ((x & !(1u64 << b)) >> b) & 1 == 0,
{
}

/// Taking a free slot and giving it back leaves the bitmap as it was; a
/// taken slot is no longer free.
pub proof fn lemma_swap_slot_roundtrip(w: Seq<u64>, i: nat)
    requires
        slot_free(w, i),
    ensures
        give_slot(take_slot(w, i), i) == w,
        !slot_free(take_slot(w, i), i),
{
    let k = (i / 64) as int;
    let b = (i % 64) as u64;
    lemma_bit_roundtrip(w[k], b);
    assert(give_slot(take_slot(w, i), i) =~= w);
}


impl SwapManager {
    /// The lowest slot that holds the page at `page_addr`.
    pub fn find_slot_of(&self, page_addr: u64) -> (r: Option<SwapSlot>)
        requires
            self.wf(),
        ensures
            match r {
                Some(s) => self.entries_spec().contains_key(s.0) && self.entries_spec()[s.0].page_addr == page_addr
                    && forall|k: u32| k < s.0 && #[trigger] self.entries_spec().contains_key(k) ==> self.entries_spec()[k].page_addr
                    != page_addr,
                None => forall|k: u32| #[trigger] self.entries_spec().contains_key(k) ==> self.entries_spec()[k].page_addr
                    != page_addr,
            },
    {
        let mut s: u32 = 0;
        while s < self.total_slots
            invariant
                self.wf(),
                s <= self.total_slots,
                forall|k: u32| k < s && #[trigger] self.entries_spec().contains_key(k) ==> self.entries_spec()[k].page_addr
                    != page_addr,
            decreases self.total_slots - s,
        {
            match self.swap_entries.get(&s) {
                Some(e) => {
                    if e.page_addr == page_addr {
                        return Some(SwapSlot(s));
                    }
                },
                None => {},
            }
            s = s + 1;
        }
        None
    }

    /// Whether the page at `page_addr` is held in some slot.
    pub fn is_page_swapped(&self, page_addr: u64) -> (r: bool)
        requires
            self.wf(),
        ensures
            r == exists|k: u32| #[trigger] self.entries_spec().contains_key(k) && self.entries_spec()[k].page_addr
                == page_addr,
    {
        self.find_slot_of(page_addr).is_some()
    }
}


/// A slot below `total` has its bit in a bitmap of `total` bits rounded up
/// to whole words.
proof fn lemma_slot_in_bitmap(k: u32, total: u32)
    requires
        k < total,
    ensures
        (k as nat) / 64 < (total as nat + 63) / 64,
{
    assert((k as nat) / 64 < (total as nat + 63) / 64) by (nonlinear_arith)
        requires
            k < total,
    ;
}

/// Whether slot `k` is the lowest slot that holds the page at `addr`.
pub open spec fn lowest_holder(entries: Map<u32, SwapEntry>, addr: u64, k: u32) -> bool {
    &&& entries.contains_key(k)
    &&& entries[k].page_addr == addr
    &&& forall|j: u32| j < k && #[trigger] entries.contains_key(j) ==> entries[j].page_addr != addr
}

/// The lowest slot that holds the page at `addr`, if one does.
pub open spec fn lowest_slot_of(entries: Map<u32, SwapEntry>, addr: u64) -> Option<u32> {
    if exists|k: u32| #[trigger] lowest_holder(entries, addr, k) {
        Some(choose|k: u32| #[trigger] lowest_holder(entries, addr, k))
    } else {
        None
    }
}

/// Whether reading a page from the swap device failed: a short read or an
/// error (no device is no failure).
pub open spec fn read_failed(o: TransferOutcome) -> bool {
    match o {
        Some(Ok(n)) => n != 4096,
        Some(Err(_)) => true,
        None => false,
    }
}

/// What the swap-in of a page asks for next.
#[derive(Debug, Clone, Copy, PartialEq, Eq, Structural)]
pub enum SwapInAction {
    /// No frame was free: swap out a victim page, then allocate again.
    SwapOutVictim,
    /// Read the page held in `slot` from the swap device.
    ReadSlot { slot: SwapSlot, frame: u64 },
    /// Fill `frame` with zeros, or with the page read when `zero_fill` is
    /// false, then map it at the page and finish.
    MapFrame { frame: u64, zero_fill: bool },
    /// The swap-in fails.
    Fail(MemoryError),
}

impl SwapManager {
    /// One step of bringing the page at `addr` back in. `frame` is the
    /// frame that allocation gave, `victim_swapped` whether a victim page
    /// was already swapped out to free one, and `read` how reading the
    /// page's slot went (`None` before it was read; `Some(None)` with no
    /// swap device).
    ///
    /// Without a frame a victim is swapped out first, and after that the
    /// swap-in fails with `OutOfMemory`. With a frame, a page held in no
    /// slot is zero-filled; one held in a slot (the lowest such) is read
    /// from it, and a completed read frees the slot and fills the frame
    /// with the page (with zeros when there is no device); a failed read
    /// keeps the slot and zero-fills the frame.
    pub fn swap_in_step(&mut self, addr: u64, frame: Option<u64>, victim_swapped: bool, read: Option<TransferOutcome>) -> (r:
        SwapInAction)
        requires
            old(self).wf(),
        ensures
            final(self).wf(),
            match frame {
                None => *final(self) == *old(self) && r == (if victim_swapped {
                    SwapInAction::Fail(MemoryError::OutOfMemory)
                } else {
                    SwapInAction::SwapOutVictim
                }),
                Some(f) => match lowest_slot_of(old(self).entries_spec(), addr) {
                    None => *final(self) == *old(self) && r == (SwapInAction::MapFrame { frame: f, zero_fill: true }),
                    Some(s) => match read {
                        None => *final(self) == *old(self) && r == (SwapInAction::ReadSlot { slot: SwapSlot(s), frame: f }),
                        Some(o) => if read_failed(o) {
                            *final(self) == *old(self) && r == (SwapInAction::MapFrame { frame: f, zero_fill: true })
                        } else {
                            &&& r == (SwapInAction::MapFrame { frame: f, zero_fill: o is None })
                            &&& final(self).entries_spec() == old(self).entries_spec().remove(s)
                            &&& final(self).bitmap_spec() == give_slot(old(self).bitmap_spec(), s as nat)
                            &&& final(self).used_spec() == if old(self).used_spec() > 0 {
                                (old(self).used_spec() - 1) as u32
                            } else {
                                0
                            }
                            &&& final(self).access_spec() == old(self).access_spec()
                            &&& final(self).lru_spec() == old(self).lru_spec()
                        },
                    },
                },
            },
    {
        let f = match frame {
            None => {
                if victim_swapped {
                    return SwapInAction::Fail(MemoryError::OutOfMemory);
                }
                return SwapInAction::SwapOutVictim;
            },
            Some(f) => f,
        };
        let slot = match self.find_slot_of(addr) {
            None => {
                proof {
                    assert(!exists|k: u32| #[trigger] lowest_holder(self.entries_spec(), addr, k));
                }
                return SwapInAction::MapFrame { frame: f, zero_fill: true };
            },
            Some(s) => s,
        };
        proof {
            let e = self.entries_spec();
            assert(lowest_holder(e, addr, slot.0));
            let c = choose|k: u32| #[trigger] lowest_holder(e, addr, k);
            assert(lowest_holder(e, addr, c));
            if c < slot.0 {
                assert(e.contains_key(c));
            } else if slot.0 < c {
                assert(e.contains_key(slot.0));
            }
            assert(c == slot.0);
        }
        let outcome = match read {
            None => {
                return SwapInAction::ReadSlot { slot, frame: f };
            },
            Some(o) => o,
        };
        let no_device = outcome.is_none();
        match self.swap_in_complete(slot, outcome) {
            Ok(_) => SwapInAction::MapFrame { frame: f, zero_fill: no_device },
            Err(_) => SwapInAction::MapFrame { frame: f, zero_fill: true },
        }
    }

    /// The end of a swap-in of the page at `addr`, given whether mapping the
    /// frame went through: the access is recorded, or the swap-in fails
    /// with `MappingFailed` and nothing is recorded.
    pub fn swap_in_finish(&mut self, addr: u64, mapped: bool) -> (r: Result<(), MemoryError>)
        requires
            old(self).wf(),
        ensures
            final(self).wf(),
            !mapped ==> r == Err::<(), MemoryError>(MemoryError::MappingFailed) && *final(self) == *old(self),
            mapped ==> {
                &&& r is Ok
                &&& final(self).counter_spec() == vstd::wrapping::u64_specs::wrapping_add(old(self).counter_spec(), 1)
                &&& final(self).access_spec() == old(self).access_spec().insert(addr, old(self).counter_spec())
                &&& final(self).lru_spec() == lru_after(old(self).lru_spec(), addr)
                &&& final(self).entries_spec() == old(self).entries_spec()
                &&& final(self).bitmap_spec() == old(self).bitmap_spec()
                &&& final(self).used_spec() == old(self).used_spec()
            },
    {
        if !mapped {
            return Err(MemoryError::MappingFailed);
        }
        self.record_access(addr);
        Ok(())
    }
}

} // verus!
