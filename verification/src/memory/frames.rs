//! The physical frame allocator: a buddy system per memory zone, with free
//! lists for block orders 0 to `MAX_ORDER` kept sorted by address, and an
//! allocation bitmap with one bit per page.

use vstd::prelude::*;
use crate::memory::{MemoryZone, zone_of, MAX_ORDER, NUM_ORDERS};
use crate::memory_basic::BootMemoryRegion;

verus! {

broadcast use vstd::seq_lib::group_to_multiset_ensures;

/// Bytes in a block of order `o`: 4096 times 2 to the `o`.
pub open spec fn block_bytes(o: nat) -> nat
    decreases o,
{
    if o == 0 {
        4096
    } else {
        2 * block_bytes((o - 1) as nat)
    }
}

/// Pages in a block of order `o`.
pub open spec fn block_pages(o: nat) -> nat
    decreases o,
{
    if o == 0 {
        1
    } else {
        2 * block_pages((o - 1) as nat)
    }
}

/// The index of the zone of `a`.
pub open spec fn zone_index(a: u64) -> int {
    match zone_of(a) {
        MemoryZone::Dma => 0,
        MemoryZone::Normal => 1,
        MemoryZone::HighMem => 2,
    }
}

/// The largest order, at most `o`, of a block that starts at `cur`
/// (aligned to its size) and ends by `end`; order 0 when none larger fits.
pub open spec fn best_order(cur: nat, end: nat, o: nat) -> nat
    decreases o,
{
    if o == 0 {
        0
    } else if cur % block_bytes(o) == 0 && cur + block_bytes(o) <= end {
        o
    } else {
        best_order(cur, end, (o - 1) as nat)
    }
}

/// A block holds at least one page, and 4096 bytes per page.
pub proof fn lemma_block_bytes_pos(o: nat)
    ensures
        block_bytes(o) >= 4096,
        block_bytes(o) == 4096 * block_pages(o),
        block_pages(o) >= 1,
    decreases o,
{
    if o > 0 {
        lemma_block_bytes_pos((o - 1) as nat);
    }
}

proof fn lemma_block_mono(o: nat, p: nat)
    requires
        o <= p,
    ensures
        block_bytes(o) <= block_bytes(p),
        block_pages(o) <= block_pages(p),
    decreases p - o,
{
    if o < p {
        lemma_block_mono(o, (p - 1) as nat);
    }
}

proof fn lemma_block_bytes_max(o: nat)
    requires
        o <= 10,
    ensures
        block_bytes(o) <= 0x40_0000,
        block_pages(o) <= 1024,
{
    reveal_with_fuel(block_bytes, 11);
    reveal_with_fuel(block_pages, 11);
    lemma_block_mono(o, 10);
}

/// The order chosen is at most `o`, and a block above order 0 is aligned
/// and fits.
pub proof fn lemma_best_order(cur: nat, end: nat, o: nat)
    ensures
        best_order(cur, end, o) <= o,
        best_order(cur, end, o) > 0 ==> cur + block_bytes(best_order(cur, end, o)) <= end && cur % block_bytes(
            best_order(cur, end, o),
        ) == 0,
    decreases o,
{
    if o > 0 {
        lemma_best_order(cur, end, (o - 1) as nat);
    }
}

/// The buddy blocks, as `(address, order)`, that the range from `cur` to
/// `end` is cut into: at each address the largest aligned block that fits.
pub open spec fn decompose(cur: nat, end: nat) -> Seq<(u64, nat)>
    decreases end + 4096 - cur,
{
    if cur >= end {
        Seq::empty()
    } else {
        let o = best_order(cur, end, 10);
        proof {
            lemma_block_bytes_pos(o);
            lemma_best_order(cur, end, 10);
        }
        seq![(cur as u64, o)] + decompose(cur + block_bytes(o), end)
    }
}

/// `x` rounded up to a page.
pub open spec fn page_up(x: nat) -> nat {
    ((x + 4095) / 4096 * 4096) as nat
}

/// `x` rounded down to a page.
pub open spec fn page_down(x: nat) -> nat {
    (x / 4096 * 4096) as nat
}

/// The blocks of one boot region: its usable pages, cut into blocks.
pub open spec fn region_blocks(r: BootMemoryRegion) -> Seq<(u64, nat)> {
    let s = page_up(r.start as nat);
    let e = page_down(r.end as nat);
    if r.usable && s < e {
        decompose(s, e)
    } else {
        Seq::empty()
    }
}

/// The blocks of all boot regions, region by region.
pub open spec fn all_blocks(rs: Seq<BootMemoryRegion>) -> Seq<(u64, nat)>
    decreases rs.len(),
{
    if rs.len() == 0 {
        Seq::empty()
    } else {
        all_blocks(rs.drop_last()) + region_blocks(rs.last())
    }
}

/// The addresses of the blocks of `bs` in zone `z` of order `o`.
pub open spec fn blocks_for(bs: Seq<(u64, nat)>, z: int, o: nat) -> Seq<u64>
    decreases bs.len(),
{
    if bs.len() == 0 {
        Seq::empty()
    } else {
        let rest = blocks_for(bs.drop_last(), z, o);
        let b = bs.last();
        if zone_index(b.0) == z && b.1 == o {
            rest.push(b.0)
        } else {
            rest
        }
    }
}

/// The pages of the blocks of `bs` in zone `z`.
pub open spec fn pages_for(bs: Seq<(u64, nat)>, z: int) -> nat
    decreases bs.len(),
{
    if bs.len() == 0 {
        0
    } else {
        pages_for(bs.drop_last(), z) + if zone_index(bs.last().0) == z {
            block_pages(bs.last().1)
        } else {
            0
        }
    }
}

/// Whether `s` is in increasing order (equal neighbours allowed).
pub open spec fn sorted(s: Seq<u64>) -> bool {
    forall|i: int, j: int| 0 <= i < j < s.len() ==> s[i] <= s[j]
}

/// The index of the first element of `s` from `i` on that is greater than
/// `x`, or the length of `s`.
pub open spec fn insert_pos_from(s: Seq<u64>, x: u64, i: int) -> int
    decreases s.len() - i,
{
    if i >= s.len() {
        s.len() as int
    } else if s[i] > x {
        i
    } else {
        insert_pos_from(s, x, i + 1)
    }
}

/// Where `x` goes in `s`: before the first element greater than it.
pub open spec fn sorted_insert_pos(s: Seq<u64>, x: u64) -> int {
    insert_pos_from(s, x, 0)
}

proof fn lemma_insert_pos_from(s: Seq<u64>, x: u64, i: int)
    requires
        0 <= i <= s.len(),
    ensures
        i <= insert_pos_from(s, x, i) <= s.len(),
        forall|k: int| i <= k < insert_pos_from(s, x, i) ==> s[k] <= x,
        insert_pos_from(s, x, i) < s.len() ==> s[insert_pos_from(s, x, i)] > x,
    decreases s.len() - i,
{
    if i < s.len() && s[i] <= x {
        lemma_insert_pos_from(s, x, i + 1);
    }
}

/// Puts `x` into the sorted list `v` before the first element greater
/// than it.
#[verifier::rlimit(40)]
pub fn insert_sorted(v: &mut Vec<u64>, x: u64)
    requires
        sorted(old(v)@),
    ensures
        sorted(final(v)@),
        final(v)@ == old(v)@.insert(sorted_insert_pos(old(v)@, x), x),
        final(v)@.to_multiset() == old(v)@.to_multiset().insert(x),
{
    let mut i: usize = 0;
    while i < v.len() && v[i] <= x
        invariant
            i <= v@.len(),
            forall|k: int| 0 <= k < i ==> v@[k] <= x,
            insert_pos_from(v@, x, 0) == insert_pos_from(v@, x, i as int),
        decreases v@.len() - i,
    {
        i = i + 1;
    }
    proof {
        lemma_insert_pos_from(v@, x, 0);
        assert(sorted_insert_pos(v@, x) == i);
    }
    let ghost old_v = v@;
    v.insert(i, x);
    proof {
        assert forall|a: int, b: int| 0 <= a < b < v@.len() implies v@[a] <= v@[b] by {
            if b < i {
            } else if b == i {
                assert(v@[a] == old_v[a]);
            } else if a < i {
                assert(old_v[a] <= x);
                if i < old_v.len() {
                    assert(old_v[i as int] > x);
                    assert(old_v[a] <= old_v[b - 1]);
                }
            } else if a == i {
                assert(old_v[i as int] > x || i as int == b - 1);
                assert(old_v[i as int] <= old_v[b - 1]);
            } else {
                assert(old_v[a - 1] <= old_v[b - 1]);
            }
        }
    }
}

/// The largest order, at most `MAX_ORDER`, of a block at `cur` that ends
/// by `end`, and its size in bytes.
fn largest_block(cur: u64, end: u64) -> (r: (usize, u64))
    requires
        end <= 0x10_0000_0000_0000,
    ensures
        r.0 == best_order(cur as nat, end as nat, 10),
        r.1 == block_bytes(r.0 as nat),
        r.0 <= 10,
{
    let mut order: usize = MAX_ORDER;
    let mut size: u64 = 0x40_0000;
    proof {
        reveal_with_fuel(block_bytes, 11);
    }
    while order > 0
        invariant
            order <= 10,
            size == block_bytes(order as nat),
            best_order(cur as nat, end as nat, 10) == best_order(cur as nat, end as nat, order as nat),
            end <= 0x10_0000_0000_0000,
        ensures
            order <= 10,
            size == block_bytes(order as nat),
            best_order(cur as nat, end as nat, 10) == order,
        decreases order,
    {
        proof {
            lemma_block_bytes_max(order as nat);
            lemma_block_bytes_pos(order as nat);
        }
        if cur % size == 0 && cur as u128 + size as u128 <= end as u128 {
            break;
        }
        order = order - 1;
        size = size / 2;
    }
    (order, size)
}


proof fn lemma_blocks_for_add(a: Seq<(u64, nat)>, b: Seq<(u64, nat)>, z: int, o: nat)
    ensures
        blocks_for(a + b, z, o) == blocks_for(a, z, o) + blocks_for(b, z, o),
        pages_for(a + b, z) == pages_for(a, z) + pages_for(b, z),
    decreases b.len(),
{
    if b.len() == 0 {
        assert(a + b =~= a);
        assert(blocks_for(a, z, o) + Seq::<u64>::empty() =~= blocks_for(a, z, o));
    } else {
        lemma_blocks_for_add(a, b.drop_last(), z, o);
        assert((a + b).drop_last() =~= a + b.drop_last());
        assert((a + b).last() == b.last());
        let x = blocks_for(a, z, o);
        let y = blocks_for(b.drop_last(), z, o);
        if zone_index(b.last().0) == z && b.last().1 == o {
            assert((x + y).push(b.last().0) =~= x + y.push(b.last().0));
        }
    }
}

proof fn lemma_step(done: Seq<(u64, nat)>, cur: u64, o: nat)
    ensures
        forall|z: int| #[trigger] pages_for(done.push((cur, o)), z) == pages_for(done, z) + if zone_index(cur) == z {
            block_pages(o)
        } else {
            0
        },
        forall|z: int, oo: nat| #[trigger] blocks_for(done.push((cur, o)), z, oo) == if zone_index(cur) == z && oo == o {
            blocks_for(done, z, oo).push(cur)
        } else {
            blocks_for(done, z, oo)
        },
{
    assert(done.push((cur, o)).drop_last() =~= done);
}

/// The free lists of one zone and order, in the shape the allocator keeps.
pub open spec fn shape_ok(lists: Seq<Vec<Vec<u64>>>) -> bool {
    &&& lists.len() == 3
    &&& forall|z: int| 0 <= z < 3 ==> (#[trigger] lists[z])@.len() == 11
}

/// Every free list is sorted.
pub open spec fn lists_sorted(lists: Seq<Vec<Vec<u64>>>) -> bool {
    forall|z: int, o: int| 0 <= z < 3 && 0 <= o < 11 ==> sorted(#[trigger] lists[z]@[o]@)
}

/// The first address of zone `z`.
pub open spec fn zone_base(z: int) -> u64 {
    if z == 0 {
        0
    } else if z == 1 {
        crate::memory::DMA_ZONE_END
    } else {
        crate::memory::NORMAL_ZONE_END
    }
}

/// Highest end of a block that the allocator handles (4 PiB, the reach of a physical address).
pub open spec fn block_limit() -> nat {
    0x10_0000_0000_0000
}

/// Every free block lies at or above its zone's base and ends by
/// `block_limit`.
pub open spec fn lists_bounded(lists: Seq<Vec<Vec<u64>>>) -> bool {
    forall|z: int, o: int, k: int|
        0 <= z < 3 && 0 <= o < 11 && 0 <= k < lists[z]@[o]@.len() ==> zone_base(z) <= #[trigger] lists[z]@[o]@[k]
            && lists[z]@[o]@[k] + block_bytes(o as nat) <= block_limit()
}

/// The free list of zone `z` and order `o`.
pub open spec fn list_of(lists: Seq<Vec<Vec<u64>>>, z: int, o: int) -> Seq<u64> {
    lists[z]@[o]@
}

proof fn lemma_insert_pos_bounds(s: Seq<u64>, x: u64)
    ensures
        0 <= sorted_insert_pos(s, x) <= s.len(),
{
    lemma_insert_pos_from(s, x, 0);
}

proof fn lemma_lists_after_insert(old_l: Seq<Vec<Vec<u64>>>, new_l: Seq<Vec<Vec<u64>>>, z: int, o: int, x: u64)
    requires
        shape_ok(old_l),
        shape_ok(new_l),
        0 <= z < 3,
        0 <= o < 11,
        forall|zz: int, oo: int| 0 <= zz < 3 && 0 <= oo < 11 && !(zz == z && oo == o) ==> #[trigger] new_l[zz]@[oo]@
            == old_l[zz]@[oo]@,
        new_l[z]@[o]@ == old_l[z]@[o]@.insert(sorted_insert_pos(old_l[z]@[o]@, x), x),
        new_l[z]@[o]@.to_multiset() == old_l[z]@[o]@.to_multiset().insert(x),
        sorted(new_l[z]@[o]@),
        lists_sorted(old_l),
        lists_bounded(old_l),
        zone_base(z) <= x,
        x + block_bytes(o as nat) <= block_limit(),
    ensures
        lists_sorted(new_l),
        lists_bounded(new_l),
        forall|zz: int, oo: int| 0 <= zz < 3 && 0 <= oo < 11 ==> (#[trigger] list_of(new_l, zz, oo)).to_multiset() == if zz
            == z && oo == o {
            list_of(old_l, zz, oo).to_multiset().insert(x)
        } else {
            list_of(old_l, zz, oo).to_multiset()
        },
{
    assert forall|zz: int, oo: int| 0 <= zz < 3 && 0 <= oo < 11 implies sorted(#[trigger] new_l[zz]@[oo]@) by {
        if !(zz == z && oo == o) {
            assert(new_l[zz]@[oo]@ == old_l[zz]@[oo]@);
        }
    }
    assert forall|zz: int, oo: int, k: int|
        0 <= zz < 3 && 0 <= oo < 11 && 0 <= k < new_l[zz]@[oo]@.len() implies zone_base(zz) <= #[trigger] new_l[zz]@[oo]@[k]
            && new_l[zz]@[oo]@[k] + block_bytes(oo as nat) <= block_limit() by {
        if zz == z && oo == o {
            let pos = sorted_insert_pos(old_l[zz]@[oo]@, x);
            lemma_insert_pos_bounds(old_l[zz]@[oo]@, x);
            if k < pos {
                assert(new_l[zz]@[oo]@[k] == old_l[zz]@[oo]@[k]);
            } else if k > pos {
                assert(new_l[zz]@[oo]@[k] == old_l[zz]@[oo]@[k - 1]);
            }
        } else {
            assert(new_l[zz]@[oo]@ == old_l[zz]@[oo]@);
        }
    }
}

/// Cuts the range from `start` to `end` into blocks and adds them to the
/// free lists and page counts of their zones.
#[verifier::rlimit(100)]
fn add_range(lists: &mut Vec<Vec<Vec<u64>>>, totals: &mut Vec<u64>, start: u64, end: u64)
    requires
        shape_ok(old(lists)@),
        lists_sorted(old(lists)@),
        lists_bounded(old(lists)@),
        old(totals)@.len() == 3,
        end <= 0x10_0000_0000_0000,
        forall|z: int| 0 <= z < 3 ==> old(totals)@[z] + pages_for(decompose(start as nat, end as nat), z) <= u64::MAX,
        start % 4096 == 0,
        end % 4096 == 0,
    ensures
        shape_ok(final(lists)@),
        lists_sorted(final(lists)@),
        lists_bounded(final(lists)@),
        final(totals)@.len() == 3,
        forall|z: int, o: int| 0 <= z < 3 && 0 <= o < 11 ==> (#[trigger] list_of(final(lists)@, z, o)).to_multiset()
            == list_of(old(lists)@, z, o).to_multiset().add(blocks_for(decompose(start as nat, end as nat), z, o as nat).to_multiset()),
        forall|z: int| 0 <= z < 3 ==> #[trigger] final(totals)@[z] == old(totals)@[z] + pages_for(
            decompose(start as nat, end as nat),
            z,
        ),
{
    let mut cur = start;
    let ghost mut done: Seq<(u64, nat)> = Seq::empty();
    let ghost lists0 = lists@;
    let ghost totals0 = totals@;
    while cur < end
        invariant
            shape_ok(lists@),
            lists_sorted(lists@),
            lists_bounded(lists@),
            totals@.len() == 3,
            end <= 0x10_0000_0000_0000,
            cur % 4096 == 0,
            end % 4096 == 0,
            start <= cur,
            cur <= end || start >= end,
            decompose(start as nat, end as nat) == done + decompose(cur as nat, end as nat),
            forall|z: int, o: int| 0 <= z < 3 && 0 <= o < 11 ==> (#[trigger] list_of(lists@, z, o)).to_multiset()
                == list_of(lists0, z, o).to_multiset().add(blocks_for(done, z, o as nat).to_multiset()),
            forall|z: int| 0 <= z < 3 ==> #[trigger] totals@[z] == totals0[z] + pages_for(done, z),
            forall|z: int| 0 <= z < 3 ==> totals0[z] + pages_for(decompose(start as nat, end as nat), z) <= u64::MAX,
        decreases end - cur,
    {
        let (order, size) = largest_block(cur, end);
        proof {
            lemma_block_bytes_pos(order as nat);
            lemma_block_bytes_max(order as nat);
            lemma_best_order(cur as nat, end as nat, 10);
        }
        let zone = MemoryZone::from_address(cur);
        let z = zone.index();
        let ghost old_lists = lists@;
        let ghost old_done = done;
        insert_sorted(&mut lists[z][order], cur);
        let pages: u64 = size / 4096;
        proof {
            assert(cur + block_bytes(order as nat) <= end) by {
                if order == 0 {
                    assert(block_bytes(0) == 4096);
                }
            }
            assert(zone_index(cur) == z as int);
            lemma_lists_after_insert(old_lists, lists@, z as int, order as int, cur);
            lemma_step(old_done, cur, order as nat);
            done = done.push((cur, order as nat));
            assert(old_done + decompose(cur as nat, end as nat) =~= done + decompose(
                cur as nat + block_bytes(order as nat),
                end as nat,
            ));
            lemma_blocks_for_add(done, decompose(cur as nat + block_bytes(order as nat), end as nat), z as int, 0);
            lemma_blocks_for_add(old_done, decompose(cur as nat, end as nat), z as int, 0);
        }
        totals.set(z, totals[z] + pages);
        proof {
            assert forall|zz: int, oo: int| 0 <= zz < 3 && 0 <= oo < 11 implies (#[trigger] list_of(lists@, zz, oo)).to_multiset()
                == list_of(lists0, zz, oo).to_multiset().add(blocks_for(done, zz, oo as nat).to_multiset()) by {
                let l0 = list_of(lists0, zz, oo).to_multiset();
                let b0 = blocks_for(old_done, zz, oo as nat).to_multiset();
                assert(list_of(old_lists, zz, oo).to_multiset() == l0.add(b0));
                if zz == z && oo == order {
                    assert(blocks_for(old_done.push((cur, order as nat)), zz, oo as nat) == blocks_for(old_done, zz, oo as nat).push(cur));
                    assert(blocks_for(done, zz, oo as nat).to_multiset() =~= b0.insert(cur));
                    assert(l0.add(b0).insert(cur) =~= l0.add(b0.insert(cur)));
                } else {
                    assert(blocks_for(old_done.push((cur, order as nat)), zz, oo as nat) == blocks_for(old_done, zz, oo as nat));
                }
            }
        }
        cur = cur + size;
    }
    proof {
        if start < end {
            assert(decompose(cur as nat, end as nat) =~= Seq::<(u64, nat)>::empty());
            assert(done + Seq::<(u64, nat)>::empty() =~= done);
        } else {
            assert(decompose(start as nat, end as nat) =~= Seq::<(u64, nat)>::empty());
            assert(done =~= Seq::<(u64, nat)>::empty());
        }
    }
}


proof fn lemma_pages_prefix(rs: Seq<BootMemoryRegion>, k: int, z: int)
    requires
        0 <= k <= rs.len(),
    ensures
        pages_for(all_blocks(rs.take(k)), z) <= pages_for(all_blocks(rs), z),
    decreases rs.len() - k,
{
    if k < rs.len() {
        lemma_pages_prefix(rs.drop_last(), k, z);
        assert(rs.drop_last().take(k) =~= rs.take(k));
        lemma_blocks_for_add(all_blocks(rs.drop_last()), region_blocks(rs.last()), z, 0);
    } else {
        assert(rs.take(k) =~= rs);
    }
}

/// The allocator's state is well formed: three zones of eleven sorted free
/// lists, a bitmap and two counters per zone.
pub open spec fn allocator_shape(a: &PhysicalFrameAllocator) -> bool {
    &&& shape_ok(a.lists_spec())
    &&& lists_sorted(a.lists_spec())
    &&& lists_bounded(a.lists_spec())
    &&& a.bitmap_spec().len() == 3
    &&& a.allocated_spec().len() == 3
    &&& a.total_spec().len() == 3
}

/// The buddy allocator of physical frames.
#[derive(Debug)]
pub struct PhysicalFrameAllocator {
    buddy_lists: Vec<Vec<Vec<u64>>>,
    allocation_bitmap: Vec<Vec<u64>>,
    allocated_frames: Vec<u64>,
    total_frames: Vec<u64>,
}

impl PhysicalFrameAllocator {
    /// The free lists: zone, then order, then block addresses.
    pub closed spec fn lists_spec(&self) -> Seq<Vec<Vec<u64>>> {
        self.buddy_lists@
    }

    /// The free list of zone `z` and order `o`.
    pub open spec fn free_list(&self, z: int, o: int) -> Seq<u64> {
        list_of(self.lists_spec(), z, o)
    }

    /// The allocation bitmap of each zone, as words.
    pub closed spec fn bitmap_spec(&self) -> Seq<Seq<u64>> {
        self.allocation_bitmap@.map_values(|v: Vec<u64>| v@)
    }

    /// The frames handed out, per zone.
    pub closed spec fn allocated_spec(&self) -> Seq<u64> {
        self.allocated_frames@
    }

    /// The frames each zone was given at start, per zone.
    pub closed spec fn total_spec(&self) -> Seq<u64> {
        self.total_frames@
    }

    /// The allocator is well formed.
    pub open spec fn wf(&self) -> bool {
        allocator_shape(self)
    }

    /// Builds the allocator from the boot memory map: the usable part of
    /// each region, rounded inwards to pages, is cut into the largest
    /// aligned blocks (at most `MAX_ORDER`) and each block goes to the free
    /// list of its zone and order, sorted by address; each zone counts its
    /// pages and gets a cleared bitmap with a bit per page.
    pub fn init(memory_regions: &[BootMemoryRegion]) -> (r: Self)
        requires
            forall|i: int| 0 <= i < memory_regions@.len() && (#[trigger] memory_regions@[i]).usable ==> memory_regions@[i].start
                <= 0x10_0000_0000_0000 && memory_regions@[i].end <= 0x10_0000_0000_0000,
            forall|z: int| 0 <= z < 3 ==> pages_for(all_blocks(memory_regions@), z) + 63 <= usize::MAX,
        ensures
            r.wf(),
            forall|z: int, o: int| 0 <= z < 3 && 0 <= o < 11 ==> (#[trigger] r.free_list(z, o)).to_multiset()
                == blocks_for(all_blocks(memory_regions@), z, o as nat).to_multiset(),
            forall|z: int| 0 <= z < 3 ==> #[trigger] r.total_spec()[z] == pages_for(all_blocks(memory_regions@), z),
            forall|z: int| 0 <= z < 3 ==> #[trigger] r.allocated_spec()[z] == 0,
            forall|z: int| 0 <= z < 3 ==> #[trigger] r.bitmap_spec()[z] == Seq::new(
                ((pages_for(all_blocks(memory_regions@), z) + 63) / 64) as nat,
                |i: int| 0u64,
            ),
    {
        let mut lists: Vec<Vec<Vec<u64>>> = Vec::new();
        let mut zi: usize = 0;
        while zi < 3
            invariant
                zi <= 3,
                lists@.len() == zi,
                forall|z: int| 0 <= z < zi ==> (#[trigger] lists@[z])@.len() == 11,
                forall|z: int, o: int| 0 <= z < zi && 0 <= o < 11 ==> (#[trigger] lists@[z]@[o]@) == Seq::<u64>::empty(),
            decreases 3 - zi,
        {
            let mut orders: Vec<Vec<u64>> = Vec::new();
            let mut oi: usize = 0;
            while oi < NUM_ORDERS
                invariant
                    oi <= 11,
                    orders@.len() == oi,
                    forall|o: int| 0 <= o < oi ==> (#[trigger] orders@[o]@) == Seq::<u64>::empty(),
                decreases 11 - oi,
            {
                orders.push(Vec::new());
                oi = oi + 1;
            }
            lists.push(orders);
            zi = zi + 1;
        }
        let mut totals: Vec<u64> = vec![0u64, 0u64, 0u64];
        let mut i: usize = 0;
        let ghost rs = memory_regions@;
        assert(all_blocks(rs.take(0)) =~= Seq::<(u64, nat)>::empty());
        while i < memory_regions.len()
            invariant
                rs == memory_regions@,
                i <= rs.len(),
                shape_ok(lists@),
                lists_sorted(lists@),
                lists_bounded(lists@),
                totals@.len() == 3,
                forall|j: int| 0 <= j < rs.len() && (#[trigger] rs[j]).usable ==> rs[j].start <= 0x10_0000_0000_0000
                    && rs[j].end <= 0x10_0000_0000_0000,
                forall|z: int| 0 <= z < 3 ==> pages_for(all_blocks(rs), z) + 63 <= usize::MAX,
                forall|z: int, o: int| 0 <= z < 3 && 0 <= o < 11 ==> (#[trigger] list_of(lists@, z, o)).to_multiset()
                    == blocks_for(all_blocks(rs.take(i as int)), z, o as nat).to_multiset(),
                forall|z: int| 0 <= z < 3 ==> #[trigger] totals@[z] == pages_for(all_blocks(rs.take(i as int)), z),
            decreases rs.len() - i,
        {
            let region = memory_regions[i];
            let ghost before = all_blocks(rs.take(i as int));
            proof {
                assert(rs.take(i + 1).drop_last() =~= rs.take(i as int));
                assert(all_blocks(rs.take(i + 1)) == before + region_blocks(region));
                assert forall|z: int| 0 <= z < 3 implies pages_for(before, z) + pages_for(region_blocks(region), z)
                    <= usize::MAX by {
                    lemma_blocks_for_add(before, region_blocks(region), z, 0);
                    lemma_pages_prefix(rs, i + 1, z);
                }
            }
            if region.usable {
                let s = (region.start + 4095) / 4096 * 4096;
                let e = region.end / 4096 * 4096;
                if s < e {
                    let ghost lists_before = lists@;
                    assert(region_blocks(region) == decompose(s as nat, e as nat));
                    add_range(&mut lists, &mut totals, s, e);
                    proof {
                        assert forall|z: int, o: int| 0 <= z < 3 && 0 <= o < 11 implies (#[trigger] list_of(lists@, z, o)).to_multiset()
                            == blocks_for(all_blocks(rs.take(i + 1)), z, o as nat).to_multiset() by {
                            lemma_blocks_for_add(before, region_blocks(region), z, o as nat);
                            vstd::seq_lib::lemma_multiset_commutative(
                                blocks_for(before, z, o as nat),
                                blocks_for(region_blocks(region), z, o as nat),
                            );
                            assert(list_of(lists_before, z, o).to_multiset() == blocks_for(before, z, o as nat).to_multiset());
                        }
                        assert forall|z: int| 0 <= z < 3 implies #[trigger] totals@[z] == pages_for(all_blocks(rs.take(i + 1)), z) by {
                            lemma_blocks_for_add(before, region_blocks(region), z, 0);
                        }
                    }
                } else {
                    proof {
                        assert(region_blocks(region) =~= Seq::<(u64, nat)>::empty());
                        assert(before + region_blocks(region) =~= before);
                    }
                }
            } else {
                proof {
                    assert(before + region_blocks(region) =~= before);
                }
            }
            i = i + 1;
        }
        assert(rs.take(rs.len() as int) =~= rs);
        let mut bitmaps: Vec<Vec<u64>> = Vec::new();
        let mut z: usize = 0;
        while z < 3
            invariant
                z <= 3,
                totals@.len() == 3,
                bitmaps@.len() == z,
                forall|k: int| 0 <= k < z ==> (#[trigger] bitmaps@[k])@ == Seq::new(((totals@[k] + 63) / 64) as nat, |i: int| 0u64),
                forall|k: int| 0 <= k < 3 ==> totals@[k] + 63 <= usize::MAX,
            decreases 3 - z,
        {
            let words = ((totals[z] + 63) / 64) as usize;
            let v: Vec<u64> = vec![0u64; words];
            assert(v@ =~= Seq::new(words as nat, |i: int| 0u64));
            bitmaps.push(v);
            z = z + 1;
        }
        let r = PhysicalFrameAllocator {
            buddy_lists: lists,
            allocation_bitmap: bitmaps,
            allocated_frames: vec![0u64, 0u64, 0u64],
            total_frames: totals,
        };
        proof {
            assert forall|k: int| 0 <= k < 3 implies #[trigger] r.bitmap_spec()[k] == Seq::new(
                ((pages_for(all_blocks(memory_regions@), k) + 63) / 64) as nat,
                |i: int| 0u64,
            ) by {
                assert(r.bitmap_spec()[k] == r.allocation_bitmap@[k]@);
            }
        }
        r
    }
}


/// The lowest order from `o` up whose free list in zone `z` has a block.
pub open spec fn first_nonempty(lists: Seq<Vec<Vec<u64>>>, z: int, o: int) -> Option<int>
    decreases 11 - o,
{
    if o > 10 || o < 0 {
        None
    } else if list_of(lists, z, o).len() > 0 {
        Some(o)
    } else {
        first_nonempty(lists, z, o + 1)
    }
}

/// Page `p` of bitmap `w` set (`on`) or cleared; out of range, nothing.
pub open spec fn set_bit(w: Seq<u64>, p: nat, on: bool) -> Seq<u64> {
    if p / 64 < w.len() {
        w.update(
            (p / 64) as int,
            if on {
                w[(p / 64) as int] | (1u64 << ((p % 64) as u64))
            } else {
                w[(p / 64) as int] & !(1u64 << ((p % 64) as u64))
            },
        )
    } else {
        w
    }
}

/// Pages `from` to `from + n` of bitmap `w` set (`on`) or cleared.
pub open spec fn set_bits(w: Seq<u64>, from: nat, n: nat, on: bool) -> Seq<u64>
    decreases n,
{
    if n == 0 {
        w
    } else {
        set_bit(set_bits(w, from, (n - 1) as nat, on), (from + n - 1) as nat, on)
    }
}

/// Whether page `p` is marked allocated in bitmap `w`.
pub open spec fn bit_set(w: Seq<u64>, p: nat) -> bool {
    p / 64 < w.len() && w[(p / 64) as int] & (1u64 << ((p % 64) as u64)) != 0
}

/// The page index of address `a` in zone `z`.
pub open spec fn page_index(z: int, a: u64) -> nat {
    ((a - zone_base(z)) / 4096) as nat
}

/// How the free lists change when a block of order `order` is taken from
/// zone `z`: the last block `a` of the lowest non-empty list of order
/// `h >= order` leaves it, and its upper halves `a + block_bytes(o)` for
/// each order `o` from `order` up to `h` join their lists.
pub open spec fn lists_after_take(
    old_l: Seq<Vec<Vec<u64>>>,
    new_l: Seq<Vec<Vec<u64>>>,
    z: int,
    order: int,
    h: int,
    a: u64,
) -> bool {
    &&& shape_ok(new_l)
    &&& list_of(new_l, z, h) == list_of(old_l, z, h).drop_last()
    &&& forall|o: int| order <= o < h ==> (#[trigger] list_of(new_l, z, o)).to_multiset() == list_of(old_l, z, o).to_multiset().insert(
        (a + block_bytes(o as nat)) as u64,
    )
    &&& forall|zz: int, o: int|
        0 <= zz < 3 && 0 <= o < 11 && !(zz == z && order <= o <= h) ==> #[trigger] list_of(new_l, zz, o) == list_of(
            old_l,
            zz,
            o,
        )
}

impl PhysicalFrameAllocator {
    /// Takes a free block of `order` pages out of zone `zone`, splitting a
    /// larger block when no block of that order is free (`lists_after_take`);
    /// its pages are marked in the bitmap and counted as allocated. `None`
    /// when `order` is above `MAX_ORDER` or the zone has no block large
    /// enough.
    pub fn allocate_frames_in_zone(&mut self, zone: MemoryZone, order: usize) -> (r: Option<u64>)
        requires
            old(self).wf(),
        ensures
            final(self).wf(),
            ({
                let z = zone_index_of(zone);
                match (if order > 10 {
                    None
                } else {
                    first_nonempty(old(self).lists_spec(), z, order as int)
                }) {
                    None => r is None && *final(self) == *old(self),
                    Some(h) => {
                        let a = list_of(old(self).lists_spec(), z, h).last();
                        &&& r == Some(a)
                        &&& lists_after_take(old(self).lists_spec(), final(self).lists_spec(), z, order as int, h, a)
                        &&& final(self).bitmap_spec() == old(self).bitmap_spec().update(
                            z,
                            set_bits(old(self).bitmap_spec()[z], page_index(z, a), block_pages(order as nat), true),
                        )
                        &&& final(self).allocated_spec() == old(self).allocated_spec().update(
                            z,
                            vstd::wrapping::u64_specs::wrapping_add(
                                old(self).allocated_spec()[z],
                                block_pages(order as nat) as u64,
                            ),
                        )
                        &&& final(self).total_spec() == old(self).total_spec()
                    },
                }
            }),
    {
        if order > MAX_ORDER {
            return None;
        }
        let z = zone.index();
        let ghost zi = z as int;
        let mut h = order;
        while h <= MAX_ORDER && self.buddy_lists[z][h].len() == 0
            invariant
                order <= h <= 11,
                z < 3,
                zi == z as int,
                allocator_shape(self),
                first_nonempty(self.lists_spec(), zi, order as int) == first_nonempty(self.lists_spec(), zi, h as int),
            decreases 11 - h,
        {
            h = h + 1;
        }
        if h > MAX_ORDER {
            return None;
        }
        let ghost old_lists = self.lists_spec();
        let a = match self.buddy_lists[z][h].pop() {
            Some(a) => a,
            None => {
                return None;
            },
        };
        proof {
            assert(list_of(self.lists_spec(), zi, h as int) == list_of(old_lists, zi, h as int).drop_last());
            assert(zone_base(zi) <= a && a + block_bytes(h as nat) <= block_limit()) by {
                assert(a == list_of(old_lists, zi, h as int)[list_of(old_lists, zi, h as int).len() - 1]);
            }
            assert(lists_sorted(self.lists_spec())) by {
                assert forall|zz: int, oo: int| 0 <= zz < 3 && 0 <= oo < 11 implies sorted(#[trigger] self.lists_spec()[zz]@[oo]@) by {
                    if !(zz == zi && oo == h) {
                        assert(self.lists_spec()[zz]@[oo]@ == old_lists[zz]@[oo]@);
                    }
                }
            }
            assert(lists_bounded(self.lists_spec())) by {
                assert forall|zz: int, oo: int, k: int|
                    0 <= zz < 3 && 0 <= oo < 11 && 0 <= k < self.lists_spec()[zz]@[oo]@.len() implies zone_base(zz)
                        <= #[trigger] self.lists_spec()[zz]@[oo]@[k] && self.lists_spec()[zz]@[oo]@[k] + block_bytes(
                        oo as nat,
                    ) <= block_limit() by {
                    if zz == zi && oo == h {
                        assert(self.lists_spec()[zz]@[oo]@[k] == old_lists[zz]@[oo]@[k]);
                    } else {
                        assert(self.lists_spec()[zz]@[oo]@ == old_lists[zz]@[oo]@);
                    }
                }
            }
        }
        let mut o = h;
        while o > order
            invariant
                order <= o <= h <= 10,
                z < 3,
                zi == z as int,
                allocator_shape(self),
                zone_base(zi) <= a,
                a + block_bytes(h as nat) <= block_limit(),
                list_of(self.lists_spec(), zi, h as int) == list_of(old_lists, zi, h as int).drop_last(),
                forall|k: int| o <= k < h ==> (#[trigger] list_of(self.lists_spec(), zi, k)).to_multiset() == list_of(
                    old_lists,
                    zi,
                    k,
                ).to_multiset().insert((a + block_bytes(k as nat)) as u64),
                forall|zz: int, k: int|
                    0 <= zz < 3 && 0 <= k < 11 && !(zz == zi && o <= k <= h) ==> #[trigger] list_of(self.lists_spec(), zz, k)
                        == list_of(old_lists, zz, k),
                self.allocation_bitmap == old(self).allocation_bitmap,
                self.allocated_frames == old(self).allocated_frames,
                self.total_frames == old(self).total_frames,
            decreases o,
        {
            o = o - 1;
            proof {
                lemma_block_bytes_pos(o as nat);
                lemma_block_mono((o + 1) as nat, h as nat);
                assert(block_bytes((o + 1) as nat) == 2 * block_bytes(o as nat));
                lemma_block_bytes_max(o as nat);
            }
            let size: u64 = block_size_of(o);
            let buddy = a + size;
            let ghost before = self.lists_spec();
            insert_sorted(&mut self.buddy_lists[z][o], buddy);
            proof {
                lemma_lists_after_insert(before, self.lists_spec(), zi, o as int, buddy);
                assert forall|k: int| o <= k < h implies (#[trigger] list_of(self.lists_spec(), zi, k)).to_multiset()
                    == list_of(old_lists, zi, k).to_multiset().insert((a + block_bytes(k as nat)) as u64) by {
                    if k == o {
                        assert(list_of(before, zi, k) == list_of(old_lists, zi, k));
                    }
                }
            }
        }
        let pages = self.mark_allocated(z, a, order);
        self.allocated_frames.set(z, self.allocated_frames[z].wrapping_add(pages));
        Some(a)
    }
}

/// The index of a zone: 0, 1, 2.
pub open spec fn zone_index_of(zone: MemoryZone) -> int {
    match zone {
        MemoryZone::Dma => 0,
        MemoryZone::Normal => 1,
        MemoryZone::HighMem => 2,
    }
}

/// Bytes in a block of order `o`.
pub fn block_size_of(o: usize) -> (r: u64)
    requires
        o <= 10,
    ensures
        r == block_bytes(o as nat),
{
    let mut s: u64 = 4096;
    let mut i: usize = 0;
    while i < o
        invariant
            i <= o <= 10,
            s == block_bytes(i as nat),
        decreases o - i,
    {
        proof {
            lemma_block_bytes_max((i + 1) as nat);
        }
        s = s * 2;
        i = i + 1;
    }
    s
}

/// Pages in a block of order `o`.
pub fn block_pages_of(o: usize) -> (r: u64)
    requires
        o <= 10,
    ensures
        r == block_pages(o as nat),
{
    let mut s: u64 = 1;
    let mut i: usize = 0;
    while i < o
        invariant
            i <= o <= 10,
            s == block_pages(i as nat),
        decreases o - i,
    {
        proof {
            lemma_block_bytes_max((i + 1) as nat);
        }
        s = s * 2;
        i = i + 1;
    }
    s
}

impl PhysicalFrameAllocator {
    /// Sets (`on`) or clears the bits of the `order` block at `addr` in the
    /// bitmap of zone `z`; the number of pages of the block.
    fn mark_pages(&mut self, z: usize, addr: u64, order: usize, on: bool) -> (pages: u64)
        requires
            old(self).wf(),
            z < 3,
            order <= 10,
            zone_base(z as int) <= addr <= block_limit(),
        ensures
            final(self).wf(),
            pages == block_pages(order as nat),
            final(self).lists_spec() == old(self).lists_spec(),
            final(self).allocated_spec() == old(self).allocated_spec(),
            final(self).total_spec() == old(self).total_spec(),
            final(self).bitmap_spec() == old(self).bitmap_spec().update(
                z as int,
                set_bits(old(self).bitmap_spec()[z as int], page_index(z as int, addr), block_pages(order as nat), on),
            ),
    {
        let base: u64 = if z == 0 {
            0
        } else if z == 1 {
            crate::memory::DMA_ZONE_END
        } else {
            crate::memory::NORMAL_ZONE_END
        };
        let first = (addr - base) / 4096;
        let n = block_pages_of(order);
        proof {
            lemma_block_bytes_max(order as nat);
        }
        let ghost w0 = self.bitmap_spec()[z as int];
        let mut i: u64 = 0;
        while i < n
            invariant
                z < 3,
                i <= n,
                n == block_pages(order as nat),
                n <= 1024,
                first == page_index(z as int, addr),
                first <= block_limit() / 4096,
                allocator_shape(self),
                self.buddy_lists == old(self).buddy_lists,
                self.allocated_frames == old(self).allocated_frames,
                self.total_frames == old(self).total_frames,
                self.allocation_bitmap@.len() == 3,
                forall|k: int| 0 <= k < 3 && k != z ==> #[trigger] self.allocation_bitmap@[k]@ == old(self).allocation_bitmap@[k]@,
                self.allocation_bitmap@[z as int]@ == set_bits(w0, first as nat, i as nat, on),
                w0 == old(self).allocation_bitmap@[z as int]@,
            decreases n - i,
        {
            let bit = first + i;
            let word = bit / 64;
            let shift = bit % 64;
            if word < self.allocation_bitmap[z].len() as u64 {
                let w = self.allocation_bitmap[z][word as usize];
                let nw = if on {
                    w | (1u64 << shift)
                } else {
                    w & !(1u64 << shift)
                };
                self.allocation_bitmap[z][word as usize] = nw;
            }
            i = i + 1;
        }
        proof {
            assert(self.bitmap_spec() =~= old(self).bitmap_spec().update(
                z as int,
                set_bits(old(self).bitmap_spec()[z as int], page_index(z as int, addr), block_pages(order as nat), on),
            ));
        }
        n
    }

    fn mark_allocated(&mut self, z: usize, addr: u64, order: usize) -> (pages: u64)
        requires
            old(self).wf(),
            z < 3,
            order <= 10,
            zone_base(z as int) <= addr <= block_limit(),
        ensures
            final(self).wf(),
            pages == block_pages(order as nat),
            final(self).lists_spec() == old(self).lists_spec(),
            final(self).allocated_spec() == old(self).allocated_spec(),
            final(self).total_spec() == old(self).total_spec(),
            final(self).bitmap_spec() == old(self).bitmap_spec().update(
                z as int,
                set_bits(old(self).bitmap_spec()[z as int], page_index(z as int, addr), block_pages(order as nat), true),
            ),
    {
        self.mark_pages(z, addr, order, true)
    }
}


/// The free lists as values: zone, order, addresses.
pub open spec fn views(l: Seq<Vec<Vec<u64>>>) -> Seq<Seq<Seq<u64>>> {
    Seq::new(3, |z: int| Seq::new(11, |o: int| l[z]@[o]@))
}

/// The index of the first `x` in `s`, or the length of `s`.
pub open spec fn first_index(s: Seq<u64>, x: u64, i: int) -> int
    decreases s.len() - i,
{
    if i >= s.len() {
        s.len() as int
    } else if s[i] == x {
        i
    } else {
        first_index(s, x, i + 1)
    }
}

/// Whether page `p` is inside bitmap `w` and clear.
pub open spec fn page_clear(w: Seq<u64>, p: nat) -> bool {
    p / 64 < w.len() && w[(p / 64) as int] & (1u64 << ((p % 64) as u64)) == 0
}

/// Whether the `n` pages from `from` are all inside bitmap `w` and clear.
pub open spec fn pages_clear(w: Seq<u64>, from: nat, n: nat) -> bool {
    forall|i: nat| i < n ==> #[trigger] page_clear(w, from + i)
}

/// The buddy of the block of order `o` at `a`: the other half of the
/// block of order `o + 1` that holds it.
pub open spec fn buddy_of(a: u64, o: nat) -> int {
    if (a as nat / block_bytes(o)) % 2 == 0 {
        a + block_bytes(o)
    } else {
        a - block_bytes(o)
    }
}

/// Merges the freed block of order `o` at `a` in zone `z` with its buddy
/// while the buddy lies in the zone, its pages are clear in bitmap `w` and
/// it is on its free list (whence it is taken); the merged block, at the
/// lower address, is merged again, up to `MAX_ORDER`. The free lists after,
/// and the block that results.
pub open spec fn coalesce_spec(v: Seq<Seq<Seq<u64>>>, w: Seq<u64>, z: int, a: u64, o: nat) -> (
    Seq<Seq<Seq<u64>>>,
    u64,
    nat,
)
    decreases 10 - o,
{
    if o >= 10 {
        (v, a, o)
    } else {
        let b = buddy_of(a, o);
        if b < zone_base(z) || !pages_clear(w, page_index(z, b as u64), block_pages(o)) {
            (v, a, o)
        } else {
            let l = v[z][o as int];
            let i = first_index(l, b as u64, 0);
            if i >= l.len() {
                (v, a, o)
            } else {
                let v2 = v.update(z, v[z].update(o as int, l.remove(i)));
                let lower = if a < b as u64 {
                    a
                } else {
                    b as u64
                };
                coalesce_spec(v2, w, z, lower, o + 1)
            }
        }
    }
}

impl PhysicalFrameAllocator {
    /// Whether the block of order `order` at `buddy` lies in zone `z` and
    /// all its pages are clear in the bitmap.
    fn is_buddy_free(&self, z: usize, buddy: u64, order: usize) -> (r: bool)
        requires
            self.wf(),
            z < 3,
            order <= 10,
            buddy <= block_limit(),
        ensures
            r == (zone_base(z as int) <= buddy && pages_clear(
                self.bitmap_spec()[z as int],
                page_index(z as int, buddy),
                block_pages(order as nat),
            )),
    {
        let base: u64 = if z == 0 {
            0
        } else if z == 1 {
            crate::memory::DMA_ZONE_END
        } else {
            crate::memory::NORMAL_ZONE_END
        };
        if buddy < base {
            return false;
        }
        let first = (buddy - base) / 4096;
        let n = block_pages_of(order);
        proof {
            lemma_block_bytes_max(order as nat);
        }
        let ghost w = self.bitmap_spec()[z as int];
        assert(w == self.allocation_bitmap@[z as int]@);
        let mut i: u64 = 0;
        while i < n
            invariant
                z < 3,
                i <= n,
                n <= 1024,
                n == block_pages(order as nat),
                first == page_index(z as int, buddy),
                first <= block_limit() / 4096,
                w == self.allocation_bitmap@[z as int]@,
                self.allocation_bitmap@.len() == 3,
                pages_clear(w, first as nat, i as nat),
            decreases n - i,
        {
            let bit = first + i;
            let word = bit / 64;
            let shift = bit % 64;
            let ghost p: nat = first as nat + i as nat;
            assert(word == p / 64 && shift == p % 64);
            if word >= self.allocation_bitmap[z].len() as u64 {
                assert(!page_clear(w, p));
                assert(!pages_clear(w, first as nat, n as nat)) by {
                    let ii: nat = i as nat;
                    assert(ii < n);
                    assert(!page_clear(w, first as nat + ii));
                }
                return false;
            }
            if self.allocation_bitmap[z][word as usize] & (1u64 << shift) != 0 {
                assert(!page_clear(w, p));
                assert(!pages_clear(w, first as nat, n as nat)) by {
                    let ii: nat = i as nat;
                    assert(ii < n);
                    assert(!page_clear(w, first as nat + ii));
                }
                return false;
            }
            assert(page_clear(w, p));
            assert(pages_clear(w, first as nat, (i + 1) as nat)) by {
                assert forall|k: nat| k < i + 1 implies #[trigger] page_clear(w, first as nat + k) by {
                    if k == i {
                        assert(first as nat + k == p);
                    }
                }
            }
            i = i + 1;
        }
        true
    }
}


proof fn lemma_remove_keeps(old_l: Seq<Vec<Vec<u64>>>, new_l: Seq<Vec<Vec<u64>>>, z: int, o: int, i: int)
    requires
        shape_ok(old_l),
        shape_ok(new_l),
        0 <= z < 3,
        0 <= o < 11,
        0 <= i < old_l[z]@[o]@.len(),
        forall|zz: int, oo: int| 0 <= zz < 3 && 0 <= oo < 11 && !(zz == z && oo == o) ==> #[trigger] new_l[zz]@[oo]@
            == old_l[zz]@[oo]@,
        new_l[z]@[o]@ == old_l[z]@[o]@.remove(i),
        lists_sorted(old_l),
        lists_bounded(old_l),
    ensures
        lists_sorted(new_l),
        lists_bounded(new_l),
        views(new_l) == views(old_l).update(z, views(old_l)[z].update(o, old_l[z]@[o]@.remove(i))),
{
    assert forall|zz: int, oo: int| 0 <= zz < 3 && 0 <= oo < 11 implies sorted(#[trigger] new_l[zz]@[oo]@) by {
        if zz == z && oo == o {
            assert forall|a: int, b: int| 0 <= a < b < new_l[zz]@[oo]@.len() implies new_l[zz]@[oo]@[a]
                <= new_l[zz]@[oo]@[b] by {
                let s = old_l[zz]@[oo]@;
                let aa = if a < i { a } else { a + 1 };
                let bb = if b < i { b } else { b + 1 };
                assert(s[aa] <= s[bb]);
            }
        } else {
            assert(new_l[zz]@[oo]@ == old_l[zz]@[oo]@);
        }
    }
    assert forall|zz: int, oo: int, k: int|
        0 <= zz < 3 && 0 <= oo < 11 && 0 <= k < new_l[zz]@[oo]@.len() implies zone_base(zz) <= #[trigger] new_l[zz]@[oo]@[k]
            && new_l[zz]@[oo]@[k] + block_bytes(oo as nat) <= block_limit() by {
        if zz == z && oo == o {
            let kk = if k < i { k } else { k + 1 };
            assert(new_l[zz]@[oo]@[k] == old_l[zz]@[oo]@[kk]);
        } else {
            assert(new_l[zz]@[oo]@ == old_l[zz]@[oo]@);
        }
    }
    assert(views(new_l) =~~= views(old_l).update(z, views(old_l)[z].update(o, old_l[z]@[o]@.remove(i))));
}

impl PhysicalFrameAllocator {
    /// The position of `x` in the free list of zone `z` and order `o`.
    fn find_in_list(&self, z: usize, o: usize, x: u64) -> (r: usize)
        requires
            self.wf(),
            z < 3,
            o < 11,
        ensures
            r == first_index(list_of(self.lists_spec(), z as int, o as int), x, 0),
    {
        let n = self.buddy_lists[z][o].len();
        let mut i: usize = 0;
        while i < n && self.buddy_lists[z][o][i] != x
            invariant
                z < 3,
                o < 11,
                allocator_shape(self),
                n == list_of(self.lists_spec(), z as int, o as int).len(),
                i <= n,
                first_index(list_of(self.lists_spec(), z as int, o as int), x, 0) == first_index(
                    list_of(self.lists_spec(), z as int, o as int),
                    x,
                    i as int,
                ),
            decreases n - i,
        {
            i = i + 1;
        }
        i
    }

    /// Merges the freed block of order `order` at `addr` with its buddies
    /// (`coalesce_spec`); the merged block.
    fn coalesce_block(&mut self, z: usize, addr: u64, order: usize) -> (r: (u64, usize))
        requires
            old(self).wf(),
            z < 3,
            order <= 10,
            zone_base(z as int) <= addr,
            addr + block_bytes(order as nat) <= block_limit(),
        ensures
            final(self).wf(),
            (views(final(self).lists_spec()), r.0, r.1 as nat) == coalesce_spec(
                views(old(self).lists_spec()),
                old(self).bitmap_spec()[z as int],
                z as int,
                addr,
                order as nat,
            ),
            final(self).bitmap_spec() == old(self).bitmap_spec(),
            final(self).allocated_spec() == old(self).allocated_spec(),
            final(self).total_spec() == old(self).total_spec(),
            r.1 <= 10,
            zone_base(z as int) <= r.0,
            r.0 + block_bytes(r.1 as nat) <= block_limit(),
        decreases 10 - order,
    {
        if order >= MAX_ORDER {
            return (addr, order);
        }
        let size = block_size_of(order);
        proof {
            lemma_block_bytes_pos(order as nat);
            lemma_block_bytes_pos((order + 1) as nat);
        }
        assert((addr / size) % 2 != 0 ==> addr >= size) by (nonlinear_arith)
            requires
                size > 0,
        ;
        let buddy: u64 = if (addr / size) % 2 == 0 {
            addr + size
        } else {
            addr - size
        };
        assert(buddy as int == buddy_of(addr, order as nat));
        if !self.is_buddy_free(z, buddy, order) {
            return (addr, order);
        }
        let pos = self.find_in_list(z, order, buddy);
        if pos >= self.buddy_lists[z][order].len() {
            return (addr, order);
        }
        let ghost before = self.lists_spec();
        proof {
            assert(list_of(before, z as int, order as int)[pos as int] == buddy) by {
                lemma_first_index(list_of(before, z as int, order as int), buddy, 0);
            }
            assert(buddy + block_bytes(order as nat) <= block_limit());
        }
        self.buddy_lists[z][order].remove(pos);
        proof {
            lemma_remove_keeps(before, self.lists_spec(), z as int, order as int, pos as int);
        }
        let lower = if addr < buddy {
            addr
        } else {
            buddy
        };
        self.coalesce_block(z, lower, order + 1)
    }
}

proof fn lemma_first_index(s: Seq<u64>, x: u64, i: int)
    requires
        0 <= i <= s.len(),
    ensures
        i <= first_index(s, x, i) <= s.len(),
        first_index(s, x, i) < s.len() ==> s[first_index(s, x, i)] == x,
    decreases s.len() - i,
{
    if i < s.len() && s[i] != x {
        lemma_first_index(s, x, i + 1);
    }
}


/// The free lists `v` with block `a` put into the list of zone `z` and
/// order `o`, before the first greater address.
pub open spec fn with_block(v: Seq<Seq<Seq<u64>>>, z: int, o: int, a: u64) -> Seq<Seq<Seq<u64>>> {
    v.update(z, v[z].update(o, v[z][o].insert(sorted_insert_pos(v[z][o], a), a)))
}

/// Counts of a buddy allocator: free blocks in all zones, per order and in
/// total, and the order range.
#[derive(Debug, Clone)]
pub struct BuddyCounts {
    pub total_free_blocks: usize,
    pub free_blocks_by_order: Vec<usize>,
    pub max_order: usize,
    pub min_order: usize,
}

impl PhysicalFrameAllocator {
    /// Gives back the block of order `order` at `frame` in zone `zone`: its
    /// pages are cleared in the bitmap and no longer counted, and it is
    /// merged with free buddies (`coalesce_spec`) and put on the free list
    /// of the merged order.
    pub fn deallocate_frames(&mut self, frame: u64, zone: MemoryZone, order: usize)
        requires
            old(self).wf(),
            order <= 10,
            zone_base(zone_index_of(zone)) <= frame,
            frame + block_bytes(order as nat) <= block_limit(),
        ensures
            final(self).wf(),
            ({
                let z = zone_index_of(zone);
                let w = set_bits(old(self).bitmap_spec()[z], page_index(z, frame), block_pages(order as nat), false);
                let (v, a, o) = coalesce_spec(views(old(self).lists_spec()), w, z, frame, order as nat);
                &&& final(self).bitmap_spec() == old(self).bitmap_spec().update(z, w)
                &&& final(self).allocated_spec() == old(self).allocated_spec().update(
                    z,
                    vstd::wrapping::u64_specs::wrapping_sub(old(self).allocated_spec()[z], block_pages(order as nat) as u64),
                )
                &&& final(self).total_spec() == old(self).total_spec()
                &&& views(final(self).lists_spec()) == with_block(v, z, o as int, a)
            }),
    {
        let z = zone.index();
        let pages = self.mark_pages(z, frame, order, false);
        self.allocated_frames.set(z, self.allocated_frames[z].wrapping_sub(pages));
        let (a, o) = self.coalesce_block(z, frame, order);
        let ghost before = self.lists_spec();
        insert_sorted(&mut self.buddy_lists[z][o], a);
        proof {
            lemma_lists_after_insert(before, self.lists_spec(), z as int, o as int, a);
            assert(views(self.lists_spec()) =~~= with_block(views(before), z as int, o as int, a));
        }
    }

    /// Gives back one page at `frame` in zone `zone` (`deallocate_frames`
    /// with order 0).
    pub fn deallocate_frame(&mut self, frame: u64, zone: MemoryZone)
        requires
            old(self).wf(),
            zone_base(zone_index_of(zone)) <= frame,
            frame + 4096 <= block_limit(),
        ensures
            final(self).wf(),
            ({
                let z = zone_index_of(zone);
                let w = set_bits(old(self).bitmap_spec()[z], page_index(z, frame), 1, false);
                let (v, a, o) = coalesce_spec(views(old(self).lists_spec()), w, z, frame, 0);
                &&& final(self).bitmap_spec() == old(self).bitmap_spec().update(z, w)
                &&& final(self).allocated_spec() == old(self).allocated_spec().update(
                    z,
                    vstd::wrapping::u64_specs::wrapping_sub(old(self).allocated_spec()[z], 1),
                )
                &&& final(self).total_spec() == old(self).total_spec()
                &&& views(final(self).lists_spec()) == with_block(v, z, o as int, a)
            }),
    {
        self.deallocate_frames(frame, zone, 0);
    }

    /// Takes one page from zone `zone` (`allocate_frames_in_zone` with
    /// order 0).
    pub fn allocate_frame_in_zone(&mut self, zone: MemoryZone) -> (r: Option<u64>)
        requires
            old(self).wf(),
        ensures
            final(self).wf(),
            ({
                let z = zone_index_of(zone);
                match first_nonempty(old(self).lists_spec(), z, 0) {
                    None => r is None && *final(self) == *old(self),
                    Some(h) => {
                        let a = list_of(old(self).lists_spec(), z, h).last();
                        &&& r == Some(a)
                        &&& lists_after_take(old(self).lists_spec(), final(self).lists_spec(), z, 0, h, a)
                        &&& final(self).bitmap_spec() == old(self).bitmap_spec().update(
                            z,
                            set_bits(old(self).bitmap_spec()[z], page_index(z, a), 1, true),
                        )
                        &&& final(self).allocated_spec() == old(self).allocated_spec().update(
                            z,
                            vstd::wrapping::u64_specs::wrapping_add(old(self).allocated_spec()[z], 1),
                        )
                        &&& final(self).total_spec() == old(self).total_spec()
                    },
                }
            }),
    {
        self.allocate_frames_in_zone(zone, 0)
    }

    /// Takes one page: from the normal zone, else high memory, else the
    /// DMA zone; `None` when none has a free block.
    pub fn allocate_frame(&mut self) -> (r: Option<u64>)
        requires
            old(self).wf(),
        ensures
            final(self).wf(),
            r is None <==> (first_nonempty(old(self).lists_spec(), 1, 0) is None && first_nonempty(
                old(self).lists_spec(),
                2,
                0,
            ) is None && first_nonempty(old(self).lists_spec(), 0, 0) is None),
            r is None ==> *final(self) == *old(self),
            first_nonempty(old(self).lists_spec(), 1, 0) is Some ==> r == Some(
                list_of(old(self).lists_spec(), 1, first_nonempty(old(self).lists_spec(), 1, 0)->0).last(),
            ),
    {
        match self.allocate_frame_in_zone(MemoryZone::Normal) {
            Some(f) => Some(f),
            None => match self.allocate_frame_in_zone(MemoryZone::HighMem) {
                Some(f) => Some(f),
                None => self.allocate_frame_in_zone(MemoryZone::Dma),
            },
        }
    }

    /// Takes a block of at least `num_pages` pages from zone `zone`: the
    /// smallest order that holds them. `None` for no pages, for more than
    /// a block of `MAX_ORDER` holds, or when the zone has no such block.
    pub fn allocate_contiguous_pages(&mut self, num_pages: usize, zone: MemoryZone) -> (r: Option<u64>)
        requires
            old(self).wf(),
        ensures
            final(self).wf(),
            num_pages == 0 || num_pages > 1024 ==> r is None && *final(self) == *old(self),
            0 < num_pages <= 1024 ==> {
                let o = order_for(num_pages as nat, 0);
                let z = zone_index_of(zone);
                match first_nonempty(old(self).lists_spec(), z, o as int) {
                    None => r is None && *final(self) == *old(self),
                    Some(h) => r == Some(list_of(old(self).lists_spec(), z, h).last()) && lists_after_take(
                        old(self).lists_spec(),
                        final(self).lists_spec(),
                        z,
                        o as int,
                        h,
                        list_of(old(self).lists_spec(), z, h).last(),
                    ),
                }
            },
    {
        if num_pages == 0 {
            return None;
        }
        let mut order: usize = 0;
        let mut pages: u64 = 1;
        while pages < num_pages as u64 && order <= MAX_ORDER
            invariant
                order <= 11,
                pages == block_pages(order as nat),
                order_for(num_pages as nat, 0) == order_for(num_pages as nat, order as nat),
                num_pages > 0,
            decreases 11 - order,
        {
            proof {
                lemma_block_bytes_max(order as nat);
            }
            order = order + 1;
            pages = pages * 2;
        }
        if order > MAX_ORDER {
            proof {
                lemma_order_for(num_pages as nat, 0);
            }
            return None;
        }
        proof {
            lemma_order_for(num_pages as nat, 0);
        }
        self.allocate_frames_in_zone(zone, order)
    }

    /// Free blocks per order over all zones, their total, and the order
    /// range.
    pub fn get_buddy_stats(&self) -> (r: BuddyCounts)
        requires
            self.wf(),
            free_total(self.lists_spec(), 11) <= usize::MAX,
        ensures
            r.free_blocks_by_order@.len() == 11,
            forall|o: int| 0 <= o < 11 ==> #[trigger] r.free_blocks_by_order@[o] == self.free_list(0, o).len()
                + self.free_list(1, o).len() + self.free_list(2, o).len(),
            r.total_free_blocks == free_total(self.lists_spec(), 11),
            r.max_order == 10,
            r.min_order == 0,
    {
        let mut by_order: Vec<usize> = Vec::new();
        let mut total: usize = 0;
        let mut o: usize = 0;
        while o < NUM_ORDERS
            invariant
                o <= 11,
                allocator_shape(self),
                free_total(self.lists_spec(), 11) <= usize::MAX,
                by_order@.len() == o,
                forall|k: int| 0 <= k < o ==> #[trigger] by_order@[k] == self.free_list(0, k).len() + self.free_list(1, k).len()
                    + self.free_list(2, k).len(),
                total == free_total(self.lists_spec(), o as int),
            decreases 11 - o,
        {
            proof {
                lemma_free_total_grows(self.lists_spec(), o as int + 1, 11);
            }
            let c = self.buddy_lists[0][o].len() + self.buddy_lists[1][o].len() + self.buddy_lists[2][o].len();
            by_order.push(c);
            total = total + c;
            o = o + 1;
        }
        BuddyCounts { total_free_blocks: total, free_blocks_by_order: by_order, max_order: MAX_ORDER, min_order: 0 }
    }
}

/// The frame counts of one memory zone.
#[derive(Debug, Clone, Copy, PartialEq, Eq, Structural)]
pub struct ZoneStats {
    pub zone: MemoryZone,
    pub total_frames: usize,
    pub allocated_frames: usize,
}

impl ZoneStats {
    /// Frames not handed out (zero when more were handed out than counted).
    pub fn free_frames(&self) -> (r: usize)
        ensures
            r == if self.allocated_frames <= self.total_frames {
                self.total_frames - self.allocated_frames
            } else {
                0
            },
    {
        self.total_frames.saturating_sub(self.allocated_frames)
    }

    /// The zone's size in bytes.
    pub fn total_bytes(&self) -> (r: usize)
        requires
            self.total_frames * 4096 <= usize::MAX,
        ensures
            r == self.total_frames * 4096,
    {
        self.total_frames * 4096
    }

    /// The bytes handed out.
    pub fn allocated_bytes(&self) -> (r: usize)
        requires
            self.allocated_frames * 4096 <= usize::MAX,
        ensures
            r == self.allocated_frames * 4096,
    {
        self.allocated_frames * 4096
    }

    /// The bytes not handed out.
    pub fn free_bytes(&self) -> (r: usize)
        requires
            (if self.allocated_frames <= self.total_frames {
                self.total_frames - self.allocated_frames
            } else {
                0
            }) * 4096 <= usize::MAX,
        ensures
            r == (if self.allocated_frames <= self.total_frames {
                self.total_frames - self.allocated_frames
            } else {
                0
            }) * 4096,
    {
        self.free_frames() * 4096
    }
}

impl PhysicalFrameAllocator {
    /// The frame counts of the three zones, in the order DMA, Normal,
    /// HighMem.
    pub fn get_zone_stats(&self) -> (r: [ZoneStats; 3])
        requires
            self.wf(),
        ensures
            r@[0] == (ZoneStats { zone: MemoryZone::Dma, total_frames: self.total_spec()[0] as usize, allocated_frames: self.allocated_spec()[0] as usize }),
            r@[1] == (ZoneStats { zone: MemoryZone::Normal, total_frames: self.total_spec()[1] as usize, allocated_frames: self.allocated_spec()[1] as usize }),
            r@[2] == (ZoneStats { zone: MemoryZone::HighMem, total_frames: self.total_spec()[2] as usize, allocated_frames: self.allocated_spec()[2] as usize }),
    {
        [
            ZoneStats { zone: MemoryZone::Dma, total_frames: self.total_frames[0] as usize, allocated_frames: self.allocated_frames[0] as usize },
            ZoneStats { zone: MemoryZone::Normal, total_frames: self.total_frames[1] as usize, allocated_frames: self.allocated_frames[1] as usize },
            ZoneStats { zone: MemoryZone::HighMem, total_frames: self.total_frames[2] as usize, allocated_frames: self.allocated_frames[2] as usize },
        ]
    }
}

/// The free-block count over fewer orders is no larger.
proof fn lemma_free_total_grows(l: Seq<Vec<Vec<u64>>>, a: int, b: int)
    requires
        0 <= a <= b,
    ensures
        free_total(l, a) <= free_total(l, b),
    decreases b - a,
{
    if a < b {
        lemma_free_total_grows(l, a, b - 1);
    }
}

/// Free blocks in all zones over the orders below `n`.
pub open spec fn free_total(l: Seq<Vec<Vec<u64>>>, n: int) -> int
    decreases n,
{
    if n <= 0 {
        0
    } else {
        free_total(l, n - 1) + list_of(l, 0, n - 1).len() + list_of(l, 1, n - 1).len() + list_of(l, 2, n - 1).len()
    }
}

/// The smallest order from `o` up whose block holds `n` pages (11 when
/// none up to `MAX_ORDER` does).
pub open spec fn order_for(n: nat, o: nat) -> nat
    decreases 11 - o,
{
    if o >= 11 || block_pages(o) >= n {
        o
    } else {
        order_for(n, o + 1)
    }
}

proof fn lemma_order_for(n: nat, o: nat)
    requires
        o <= 11,
    ensures
        o <= order_for(n, o) <= 11,
        order_for(n, o) <= 10 ==> block_pages(order_for(n, o)) >= n,
        order_for(n, 0) == 11 ==> n > 1024,
        n > 1024 ==> order_for(n, o) == 11,
    decreases 11 - o,
{
    reveal_with_fuel(block_pages, 11);
    if o < 11 {
        lemma_block_bytes_max(o as nat);
        lemma_order_for(n, o + 1);
    }
    if order_for(n, 0) == 11 {
        lemma_order_for_top(n, 0);
        assert(block_pages(10) == 1024);
        assert(block_pages(10) < n);
    }
}

proof fn lemma_order_for_top(n: nat, o: nat)
    requires
        o <= 11,
        order_for(n, o) == 11,
    ensures
        forall|k: nat| o <= k <= 10 ==> block_pages(k) < n,
    decreases 11 - o,
{
    if o < 11 {
        lemma_order_for_top(n, o + 1);
    }
}

} // verus!
