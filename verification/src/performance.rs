//! Performance helpers: branch hints, a cache-line wrapper, a stack for
//! free lists, per-CPU page caches, loop unrolling and block copy by size
//! class, and allocation statistics.
//!
//! Sharing between CPUs stays with the caller, which holds these values
//! behind its locks; the hardware hints (prefetch, cache flush, pause,
//! time stamp counter) are the caller's too.
use vstd::prelude::*;

verus! {

/// Size of a cache line on x86_64.
pub const CACHE_LINE_SIZE: usize = 64;

/// Number of CPUs that have their own caches.
pub const MAX_CPUS: usize = 64;

/// A branch that is expected to be taken; the value itself.
pub fn likely(b: bool) -> (r: bool)
    ensures
        r == b,
{
    b
}

/// A branch that is expected not to be taken; the value itself.
pub fn unlikely(b: bool) -> (r: bool)
    ensures
        r == b,
{
    b
}

/// A value meant to sit on its own cache line.
#[derive(Debug, Clone, Copy)]
pub struct CacheAligned<T> {
    pub inner: T,
}

impl<T> CacheAligned<T> {
    /// Wraps `inner`.
    pub fn new(inner: T) -> (r: Self)
        ensures
            r.inner == inner,
    {
        CacheAligned { inner }
    }
}

/// A last-in, first-out stack (the free lists of the per-CPU caches).
#[derive(Debug)]
pub struct LockFreeStack<T> {
    items: Vec<T>,
}

impl<T> View for LockFreeStack<T> {
    type V = Seq<T>;

    /// The items from the bottom to the top.
    closed spec fn view(&self) -> Seq<T> {
        self.items@
    }
}

impl<T> LockFreeStack<T> {
    /// An empty stack.
    pub fn new() -> (r: Self)
        ensures
            r@ == Seq::<T>::empty(),
    {
        LockFreeStack { items: Vec::new() }
    }

    /// Puts `data` on top.
    pub fn push(&mut self, data: T)
        ensures
            final(self)@ == old(self)@.push(data),
    {
        self.items.push(data);
    }

    /// Takes the top item, if any.
    pub fn pop(&mut self) -> (r: Option<T>)
        ensures
            old(self)@.len() == 0 ==> r is None && final(self)@ == old(self)@,
            old(self)@.len() > 0 ==> r == Some(old(self)@.last()) && final(self)@ == old(self)@.drop_last(),
    {
        self.items.pop()
    }

    /// Whether the stack is empty.
    pub fn is_empty(&self) -> (r: bool)
        ensures
            r == (self@.len() == 0),
    {
        self.items.len() == 0
    }
}

/// The unrolling factor for a loop over `data_size` bytes: 2 up to 64, 4
/// up to 256, 8 up to 1024, else 16.
pub open spec fn unroll_factor(data_size: usize) -> usize {
    if data_size <= 64 {
        2
    } else if data_size <= 256 {
        4
    } else if data_size <= 1024 {
        8
    } else {
        16
    }
}

/// CPU cache helpers.
#[derive(Debug, Clone, Copy)]
pub struct CacheOptimizer;

impl CacheOptimizer {
    /// The unrolling factor for a loop over `data_size` bytes
    /// (`unroll_factor`).
    pub fn optimal_unroll_factor(data_size: usize) -> (r: usize)
        ensures
            r == unroll_factor(data_size),
    {
        if data_size <= 64 {
            2
        } else if data_size <= 256 {
            4
        } else if data_size <= 1024 {
            8
        } else {
            16
        }
    }
}

/// Block copy by size class.
#[derive(Debug, Clone, Copy)]
pub struct FastMemCopy;

impl FastMemCopy {
    /// Copies the first `len` bytes of `src` to `dst`: byte by byte under
    /// 16 bytes, in 8-byte blocks under 64, in cache lines above.
    pub fn copy_fast(dst: &mut [u8], src: &[u8], len: usize)
        requires
            len <= old(dst)@.len(),
            len <= src@.len(),
        ensures
            final(dst)@.len() == old(dst)@.len(),
            final(dst)@.subrange(0, len as int) == src@.subrange(0, len as int),
            final(dst)@.subrange(len as int, old(dst)@.len() as int) == old(dst)@.subrange(len as int, old(dst)@.len() as int),
    {
        if likely(len >= 64) {
            Self::copy_blocks(dst, src, 0, len, CACHE_LINE_SIZE);
        } else if len >= 16 {
            Self::copy_blocks(dst, src, 0, len, 8);
        } else {
            Self::copy_blocks(dst, src, 0, len, 1);
        }
    }

    /// Copies `src[from..len]` to `dst[from..len]` in blocks of `block`
    /// bytes, the rest byte by byte.
    fn copy_blocks(dst: &mut [u8], src: &[u8], from: usize, len: usize, block: usize)
        requires
            from <= len <= old(dst)@.len(),
            len <= src@.len(),
            1 <= block <= 64,
        ensures
            final(dst)@.len() == old(dst)@.len(),
            forall|k: int| from <= k < len ==> final(dst)@[k] == src@[k],
            forall|k: int| 0 <= k < old(dst)@.len() && !(from <= k < len) ==> final(dst)@[k] == old(dst)@[k],
    {
        let mut i = from;
        while len - i >= block
            invariant
                from <= i <= len,
                len <= dst@.len(),
                len <= src@.len(),
                1 <= block <= 64,
                dst@.len() == old(dst)@.len(),
                forall|k: int| from <= k < i ==> dst@[k] == src@[k],
                forall|k: int| 0 <= k < old(dst)@.len() && !(from <= k < i) ==> dst@[k] == old(dst)@[k],
            decreases len - i,
        {
            let mut j: usize = 0;
            while j < block
                invariant
                    from <= i,
                    i + block <= len,
                    len <= dst@.len(),
                    len <= src@.len(),
                    j <= block,
                    dst@.len() == old(dst)@.len(),
                    forall|k: int| from <= k < i + j ==> dst@[k] == src@[k],
                    forall|k: int| 0 <= k < old(dst)@.len() && !(from <= k < i + j) ==> dst@[k] == old(dst)@[k],
                decreases block - j,
            {
                dst[i + j] = src[i + j];
                j = j + 1;
            }
            i = i + block;
        }
        while i < len
            invariant
                from <= i <= len,
                len <= dst@.len(),
                len <= src@.len(),
                dst@.len() == old(dst)@.len(),
                forall|k: int| from <= k < i ==> dst@[k] == src@[k],
                forall|k: int| 0 <= k < old(dst)@.len() && !(from <= k < i) ==> dst@[k] == old(dst)@[k],
            decreases len - i,
        {
            dst[i] = src[i];
            i = i + 1;
        }
    }
}


/// The fallback pool behind the per-CPU caches.
#[derive(Debug)]
struct GlobalAllocator {
    free_lists: Vec<Vec<usize>>,
    total_allocated: usize,
    total_freed: usize,
}

/// Per-CPU caches of free pages in front of a global pool.
#[derive(Debug)]
pub struct PerCpuAllocator {
    cpu_freelists: Vec<CacheAligned<LockFreeStack<usize>>>,
    cpu_stats: Vec<CacheAligned<u64>>,
    global_allocator: GlobalAllocator,
}

/// The pages that refill a CPU's cache from a global list `rest` (after
/// the page handed out): up to eight from its top, top first.
pub open spec fn refill(rest: Seq<usize>) -> Seq<usize> {
    let b = if rest.len() < 8 {
        rest.len() as int
    } else {
        8
    };
    rest.subrange(rest.len() - b, rest.len() as int).reverse()
}

impl PerCpuAllocator {
    /// The cache of each CPU, bottom to top.
    pub closed spec fn caches(&self) -> Seq<Seq<usize>> {
        Seq::new(self.cpu_freelists@.len(), |i: int| self.cpu_freelists@[i].inner@)
    }

    /// The fast-path allocations counted for each CPU.
    pub closed spec fn stats(&self) -> Seq<u64> {
        Seq::new(self.cpu_stats@.len(), |i: int| self.cpu_stats@[i].inner)
    }

    /// The global free lists by order.
    pub closed spec fn global_lists(&self) -> Seq<Seq<usize>> {
        Seq::new(self.global_allocator.free_lists@.len(), |i: int| self.global_allocator.free_lists@[i]@)
    }

    /// Pages handed out from the global pool.
    pub closed spec fn total_allocated(&self) -> usize {
        self.global_allocator.total_allocated
    }

    /// Pages freed by CPUs without a cache.
    pub closed spec fn total_freed(&self) -> usize {
        self.global_allocator.total_freed
    }

    /// A cache and a counter for each of the `MAX_CPUS` CPUs.
    pub open spec fn wf(&self) -> bool {
        self.caches().len() == MAX_CPUS && self.stats().len() == MAX_CPUS
    }

    /// Empty caches, zero counters, an empty global pool.
    pub fn new() -> (r: Self)
        ensures
            r.wf(),
            forall|i: int| 0 <= i < MAX_CPUS ==> r.caches()[i].len() == 0 && r.stats()[i] == 0,
            r.global_lists().len() == 0,
            r.total_allocated() == 0,
            r.total_freed() == 0,
    {
        let mut lists: Vec<CacheAligned<LockFreeStack<usize>>> = Vec::new();
        let mut stats: Vec<CacheAligned<u64>> = Vec::new();
        let mut i: usize = 0;
        while i < MAX_CPUS
            invariant
                i <= MAX_CPUS,
                lists@.len() == i,
                stats@.len() == i,
                forall|k: int| 0 <= k < i ==> (#[trigger] lists@[k]).inner@.len() == 0,
                forall|k: int| 0 <= k < i ==> (#[trigger] stats@[k]).inner == 0,
            decreases MAX_CPUS - i,
        {
            let st: LockFreeStack<usize> = LockFreeStack::new();
            let c = CacheAligned::new(st);
            assert(c.inner@.len() == 0);
            lists.push(c);
            let z = CacheAligned::new(0u64);
            stats.push(z);
            assert(lists@[i as int].inner@.len() == 0);
            assert(stats@[i as int].inner == 0);
            i = i + 1;
        }
        let r = PerCpuAllocator {
            cpu_freelists: lists,
            cpu_stats: stats,
            global_allocator: GlobalAllocator { free_lists: Vec::new(), total_allocated: 0, total_freed: 0 },
        };
        assert forall|i: int| 0 <= i < MAX_CPUS implies r.caches()[i].len() == 0 && r.stats()[i] == 0 by {
            assert(r.cpu_freelists@[i].inner@.len() == 0);
            assert(r.cpu_stats@[i].inner == 0);
        }
        r
    }

    /// A page from the cache of CPU `cpu_id` (the top one), counted for that
    /// CPU; `None` for an empty cache or a CPU without one.
    pub fn allocate_fast(&mut self, cpu_id: usize) -> (r: Option<usize>)
        requires
            old(self).wf(),
        ensures
            final(self).wf(),
            final(self).global_lists() == old(self).global_lists(),
            final(self).total_allocated() == old(self).total_allocated(),
            final(self).total_freed() == old(self).total_freed(),
            (cpu_id >= MAX_CPUS || old(self).caches()[cpu_id as int].len() == 0) ==> r is None && final(self).caches()
                == old(self).caches() && final(self).stats() == old(self).stats(),
            (cpu_id < MAX_CPUS && old(self).caches()[cpu_id as int].len() > 0) ==> r == Some(
                old(self).caches()[cpu_id as int].last(),
            ) && final(self).caches() == old(self).caches().update(
                cpu_id as int,
                old(self).caches()[cpu_id as int].drop_last(),
            ) && final(self).stats() == old(self).stats().update(
                cpu_id as int,
                vstd::wrapping::u64_specs::wrapping_add(old(self).stats()[cpu_id as int], 1),
            ),
    {
        if likely(cpu_id < MAX_CPUS) {
            let mut cache = self.cpu_freelists.remove(cpu_id);
            let got = cache.inner.pop();
            self.cpu_freelists.insert(cpu_id, cache);
            match got {
                Some(addr) => {
                    let c = self.cpu_stats[cpu_id].inner.wrapping_add(1);
                    self.cpu_stats.set(cpu_id, CacheAligned::new(c));
                    assert(self.caches() =~= old(self).caches().update(
                        cpu_id as int,
                        old(self).caches()[cpu_id as int].drop_last(),
                    ));
                    assert(self.stats() =~= old(self).stats().update(
                        cpu_id as int,
                        vstd::wrapping::u64_specs::wrapping_add(old(self).stats()[cpu_id as int], 1),
                    ));
                    return Some(addr);
                },
                None => {
                    assert(self.caches() =~= old(self).caches());
                    return None;
                },
            }
        }
        None
    }

    /// A page of `order` from the global pool (its top one); for a CPU with
    /// a cache, up to eight more pages of that list go to its cache.
    /// `None` where the list is missing or empty.
    pub fn allocate_slow(&mut self, cpu_id: usize, order: usize) -> (r: Option<usize>)
        requires
            old(self).wf(),
        ensures
            final(self).wf(),
            final(self).stats() == old(self).stats(),
            final(self).total_freed() == old(self).total_freed(),
            ({
                let g = old(self).global_lists();
                if order >= g.len() || g[order as int].len() == 0 {
                    r is None && *final(self) == *old(self)
                } else {
                    let rest = g[order as int].drop_last();
                    let moved = if cpu_id < MAX_CPUS {
                        refill(rest)
                    } else {
                        Seq::empty()
                    };
                    &&& r == Some(g[order as int].last())
                    &&& final(self).total_allocated() == vstd::wrapping::usize_specs::wrapping_add(old(self).total_allocated(), 1)
                    &&& final(self).global_lists() == g.update(order as int, rest.take(rest.len() - moved.len()))
                    &&& cpu_id < MAX_CPUS ==> final(self).caches() == old(self).caches().update(
                        cpu_id as int,
                        old(self).caches()[cpu_id as int] + moved,
                    )
                    &&& cpu_id >= MAX_CPUS ==> final(self).caches() == old(self).caches()
                }
            }),
    {
        if order >= self.global_allocator.free_lists.len() {
            return None;
        }
        if self.global_allocator.free_lists[order].len() == 0 {
            return None;
        }
        let mut list = self.global_allocator.free_lists.remove(order);
        let addr = list.pop().unwrap();
        let ghost rest = list@;
        let mut cache_addrs: Vec<usize> = Vec::new();
        if cpu_id < MAX_CPUS {
            let batch_size = if list.len() < 8 {
                list.len()
            } else {
                8
            };
            let mut k: usize = 0;
            while k < batch_size
                invariant
                    k <= batch_size <= rest.len(),
                    batch_size == if rest.len() < 8 {
                        rest.len()
                    } else {
                        8
                    },
                    list@ == rest.take(rest.len() - k),
                    cache_addrs@ == rest.subrange(rest.len() - k, rest.len() as int).reverse(),
                decreases batch_size - k,
            {
                let x = list.pop().unwrap();
                cache_addrs.push(x);
                k = k + 1;
                assert(list@ =~= rest.take(rest.len() - k));
                assert(cache_addrs@ =~= rest.subrange(rest.len() - k, rest.len() as int).reverse());
            }
        }
        self.global_allocator.free_lists.insert(order, list);
        self.global_allocator.total_allocated = self.global_allocator.total_allocated.wrapping_add(1);
        if cpu_id < MAX_CPUS {
            let mut cache = self.cpu_freelists.remove(cpu_id);
            let ghost c0 = cache.inner@;
            let mut k: usize = 0;
            while k < cache_addrs.len()
                invariant
                    k <= cache_addrs@.len(),
                    cache.inner@ == c0 + cache_addrs@.take(k as int),
                decreases cache_addrs@.len() - k,
            {
                cache.inner.push(cache_addrs[k]);
                k = k + 1;
                assert(cache.inner@ =~= c0 + cache_addrs@.take(k as int));
            }
            assert(cache_addrs@.take(cache_addrs@.len() as int) =~= cache_addrs@);
            self.cpu_freelists.insert(cpu_id, cache);
            assert(self.caches() =~= old(self).caches().update(cpu_id as int, old(self).caches()[cpu_id as int] + refill(rest)));
        } else {
            assert(self.caches() =~= old(self).caches());
            assert(rest.take(rest.len() - 0) =~= rest);
        }
        assert(self.global_lists() =~= old(self).global_lists().update(order as int, list@));
        Some(addr)
    }

    /// Frees the page at `addr`: onto the cache of CPU `cpu_id`, or, for a
    /// CPU without a cache, counted as freed to the global pool.
    pub fn deallocate(&mut self, addr: usize, cpu_id: usize)
        requires
            old(self).wf(),
        ensures
            final(self).wf(),
            final(self).stats() == old(self).stats(),
            final(self).global_lists() == old(self).global_lists(),
            final(self).total_allocated() == old(self).total_allocated(),
            cpu_id < MAX_CPUS ==> final(self).caches() == old(self).caches().update(
                cpu_id as int,
                old(self).caches()[cpu_id as int].push(addr),
            ) && final(self).total_freed() == old(self).total_freed(),
            cpu_id >= MAX_CPUS ==> final(self).caches() == old(self).caches() && final(self).total_freed()
                == vstd::wrapping::usize_specs::wrapping_add(old(self).total_freed(), 1),
    {
        if likely(cpu_id < MAX_CPUS) {
            let mut cache = self.cpu_freelists.remove(cpu_id);
            cache.inner.push(addr);
            self.cpu_freelists.insert(cpu_id, cache);
            assert(self.caches() =~= old(self).caches().update(cpu_id as int, old(self).caches()[cpu_id as int].push(addr)));
        } else {
            self.global_allocator.total_freed = self.global_allocator.total_freed.wrapping_add(1);
            assert(self.caches() =~= old(self).caches());
        }
    }

    /// The fast-path allocations of CPU `cpu_id` (zero for a CPU without a
    /// cache).
    pub fn get_cpu_stats(&self, cpu_id: usize) -> (r: u64)
        requires
            self.wf(),
        ensures
            cpu_id < MAX_CPUS ==> r == self.stats()[cpu_id as int],
            cpu_id >= MAX_CPUS ==> r == 0,
    {
        if cpu_id < MAX_CPUS {
            self.cpu_stats[cpu_id].inner
        } else {
            0
        }
    }
}


/// Allocation counters.
#[derive(Debug, Clone, Copy)]
pub struct AllocationStats {
    pub total_allocations: u64,
    pub total_deallocations: u64,
    pub total_bytes_allocated: u64,
    pub total_bytes_freed: u64,
    pub peak_memory_usage: u64,
    pub allocation_failures: u64,
}

/// Timing counters (nanoseconds).
#[derive(Debug, Clone, Copy)]
pub struct TimingStats {
    pub total_allocation_time: u64,
    pub total_deallocation_time: u64,
    pub max_allocation_time: u64,
    pub context_switch_time: u64,
}

/// Cache miss counters.
#[derive(Debug, Clone, Copy)]
pub struct CacheStats {
    pub l1_cache_misses: u64,
    pub l2_cache_misses: u64,
    pub l3_cache_misses: u64,
    pub tlb_misses: u64,
}

/// Allocation and timing statistics; the counters wrap around like the
/// machine's atomic additions.
#[derive(Debug, Clone, Copy)]
pub struct PerformanceMonitor {
    pub allocation_stats: CacheAligned<AllocationStats>,
    pub timing_stats: CacheAligned<TimingStats>,
    pub cache_stats: CacheAligned<CacheStats>,
}

/// A snapshot of the statistics.
#[derive(Debug, Clone, Copy)]
pub struct PerformanceStats {
    pub total_allocations: u64,
    pub total_deallocations: u64,
    pub total_bytes_allocated: u64,
    pub total_bytes_freed: u64,
    pub allocation_failures: u64,
    pub average_allocation_time: u64,
    pub max_allocation_time: u64,
}

impl PerformanceMonitor {
    /// All counters zero.
    pub fn new() -> (r: Self)
        ensures
            r.allocation_stats.inner == (AllocationStats {
                total_allocations: 0,
                total_deallocations: 0,
                total_bytes_allocated: 0,
                total_bytes_freed: 0,
                peak_memory_usage: 0,
                allocation_failures: 0,
            }),
            r.timing_stats.inner == (TimingStats {
                total_allocation_time: 0,
                total_deallocation_time: 0,
                max_allocation_time: 0,
                context_switch_time: 0,
            }),
            r.cache_stats.inner == (CacheStats { l1_cache_misses: 0, l2_cache_misses: 0, l3_cache_misses: 0, tlb_misses: 0 }),
    {
        PerformanceMonitor {
            allocation_stats: CacheAligned::new(
                AllocationStats {
                    total_allocations: 0,
                    total_deallocations: 0,
                    total_bytes_allocated: 0,
                    total_bytes_freed: 0,
                    peak_memory_usage: 0,
                    allocation_failures: 0,
                },
            ),
            timing_stats: CacheAligned::new(
                TimingStats {
                    total_allocation_time: 0,
                    total_deallocation_time: 0,
                    max_allocation_time: 0,
                    context_switch_time: 0,
                },
            ),
            cache_stats: CacheAligned::new(
                CacheStats { l1_cache_misses: 0, l2_cache_misses: 0, l3_cache_misses: 0, tlb_misses: 0 },
            ),
        }
    }

    /// Counts an allocation of `size` bytes that took `time_ns`, keeping
    /// the longest time.
    pub fn record_allocation(&mut self, size: u64, time_ns: u64)
        ensures
            final(self).allocation_stats.inner == (AllocationStats {
                total_allocations: vstd::wrapping::u64_specs::wrapping_add(old(self).allocation_stats.inner.total_allocations, 1),
                total_bytes_allocated: vstd::wrapping::u64_specs::wrapping_add(
                    old(self).allocation_stats.inner.total_bytes_allocated,
                    size,
                ),
                ..old(self).allocation_stats.inner
            }),
            final(self).timing_stats.inner == (TimingStats {
                total_allocation_time: vstd::wrapping::u64_specs::wrapping_add(
                    old(self).timing_stats.inner.total_allocation_time,
                    time_ns,
                ),
                max_allocation_time: if time_ns > old(self).timing_stats.inner.max_allocation_time {
                    time_ns
                } else {
                    old(self).timing_stats.inner.max_allocation_time
                },
                ..old(self).timing_stats.inner
            }),
            final(self).cache_stats == old(self).cache_stats,
    {
        let mut a = self.allocation_stats.inner;
        a.total_allocations = a.total_allocations.wrapping_add(1);
        a.total_bytes_allocated = a.total_bytes_allocated.wrapping_add(size);
        self.allocation_stats = CacheAligned::new(a);
        let mut t = self.timing_stats.inner;
        t.total_allocation_time = t.total_allocation_time.wrapping_add(time_ns);
        if time_ns > t.max_allocation_time {
            t.max_allocation_time = time_ns;
        }
        self.timing_stats = CacheAligned::new(t);
    }

    /// Counts a deallocation of `size` bytes that took `time_ns`.
    pub fn record_deallocation(&mut self, size: u64, time_ns: u64)
        ensures
            final(self).allocation_stats.inner == (AllocationStats {
                total_deallocations: vstd::wrapping::u64_specs::wrapping_add(
                    old(self).allocation_stats.inner.total_deallocations,
                    1,
                ),
                total_bytes_freed: vstd::wrapping::u64_specs::wrapping_add(old(self).allocation_stats.inner.total_bytes_freed, size),
                ..old(self).allocation_stats.inner
            }),
            final(self).timing_stats.inner == (TimingStats {
                total_deallocation_time: vstd::wrapping::u64_specs::wrapping_add(
                    old(self).timing_stats.inner.total_deallocation_time,
                    time_ns,
                ),
                ..old(self).timing_stats.inner
            }),
            final(self).cache_stats == old(self).cache_stats,
    {
        let mut a = self.allocation_stats.inner;
        a.total_deallocations = a.total_deallocations.wrapping_add(1);
        a.total_bytes_freed = a.total_bytes_freed.wrapping_add(size);
        self.allocation_stats = CacheAligned::new(a);
        let mut t = self.timing_stats.inner;
        t.total_deallocation_time = t.total_deallocation_time.wrapping_add(time_ns);
        self.timing_stats = CacheAligned::new(t);
    }

    /// Counts a failed allocation.
    pub fn record_allocation_failure(&mut self)
        ensures
            final(self).allocation_stats.inner == (AllocationStats {
                allocation_failures: vstd::wrapping::u64_specs::wrapping_add(
                    old(self).allocation_stats.inner.allocation_failures,
                    1,
                ),
                ..old(self).allocation_stats.inner
            }),
            final(self).timing_stats == old(self).timing_stats,
            final(self).cache_stats == old(self).cache_stats,
    {
        let mut a = self.allocation_stats.inner;
        a.allocation_failures = a.allocation_failures.wrapping_add(1);
        self.allocation_stats = CacheAligned::new(a);
    }

    /// The statistics, with the average allocation time (zero before the
    /// first allocation).
    pub fn get_stats(&self) -> (r: PerformanceStats)
        ensures
            r == (PerformanceStats {
                total_allocations: self.allocation_stats.inner.total_allocations,
                total_deallocations: self.allocation_stats.inner.total_deallocations,
                total_bytes_allocated: self.allocation_stats.inner.total_bytes_allocated,
                total_bytes_freed: self.allocation_stats.inner.total_bytes_freed,
                allocation_failures: self.allocation_stats.inner.allocation_failures,
                average_allocation_time: if self.allocation_stats.inner.total_allocations > 0 {
                    self.timing_stats.inner.total_allocation_time / self.allocation_stats.inner.total_allocations
                } else {
                    0
                },
                max_allocation_time: self.timing_stats.inner.max_allocation_time,
            }),
    {
        let a = self.allocation_stats.inner;
        let t = self.timing_stats.inner;
        PerformanceStats {
            total_allocations: a.total_allocations,
            total_deallocations: a.total_deallocations,
            total_bytes_allocated: a.total_bytes_allocated,
            total_bytes_freed: a.total_bytes_freed,
            allocation_failures: a.allocation_failures,
            average_allocation_time: if a.total_allocations > 0 {
                t.total_allocation_time / a.total_allocations
            } else {
                0
            },
            max_allocation_time: t.max_allocation_time,
        }
    }
}

/// Readies the performance helpers; nothing can fail.
pub fn init() -> (r: Result<(), &'static str>)
    ensures
        r is Ok,
{
    Ok(())
}

} // verus!
