use rustos::performance::{
    likely, unlikely, CacheOptimizer, FastMemCopy, LockFreeStack, PerCpuAllocator, PerformanceMonitor, MAX_CPUS,
};

#[test]
fn hints_return_their_argument() {
    assert!(likely(true));
    assert!(!unlikely(false));
}

#[test]
fn unroll_factors_by_size() {
    assert_eq!(CacheOptimizer::optimal_unroll_factor(64), 2);
    assert_eq!(CacheOptimizer::optimal_unroll_factor(65), 4);
    assert_eq!(CacheOptimizer::optimal_unroll_factor(1024), 8);
    assert_eq!(CacheOptimizer::optimal_unroll_factor(4096), 16);
}

#[test]
fn copies_of_every_size_class() {
    for len in [0usize, 5, 16, 40, 64, 200] {
        let src: Vec<u8> = (0..len as u32).map(|i| (i * 7 % 251) as u8).collect();
        let mut dst = vec![0xAAu8; len + 3];
        FastMemCopy::copy_fast(&mut dst, &src, len);
        assert_eq!(&dst[..len], &src[..]);
        assert_eq!(&dst[len..], &[0xAA, 0xAA, 0xAA]);
    }
}

#[test]
fn stack_is_last_in_first_out() {
    let mut s = LockFreeStack::new();
    assert!(s.is_empty());
    s.push(1u32);
    s.push(2);
    assert_eq!(s.pop(), Some(2));
    assert_eq!(s.pop(), Some(1));
    assert_eq!(s.pop(), None);
}

#[test]
fn per_cpu_cache_counts_fast_allocations() {
    let mut a = PerCpuAllocator::new();
    assert_eq!(a.allocate_fast(0), None);
    a.deallocate(0x1000, 0);
    a.deallocate(0x2000, 0);
    assert_eq!(a.allocate_fast(0), Some(0x2000));
    assert_eq!(a.get_cpu_stats(0), 1);
    assert_eq!(a.get_cpu_stats(MAX_CPUS), 0);
    a.deallocate(0x3000, MAX_CPUS);
    assert_eq!(a.allocate_fast(MAX_CPUS), None);
    assert_eq!(a.allocate_slow(0, 0), None);
}

#[test]
fn monitor_averages_allocation_times() {
    let mut m = PerformanceMonitor::new();
    m.record_allocation(100, 10);
    m.record_allocation(300, 30);
    m.record_deallocation(100, 5);
    m.record_allocation_failure();
    let s = m.get_stats();
    assert_eq!(s.total_allocations, 2);
    assert_eq!(s.total_bytes_allocated, 400);
    assert_eq!(s.total_deallocations, 1);
    assert_eq!(s.total_bytes_freed, 100);
    assert_eq!(s.allocation_failures, 1);
    assert_eq!(s.average_allocation_time, 20);
    assert_eq!(s.max_allocation_time, 30);
    assert_eq!(PerformanceMonitor::new().get_stats().average_allocation_time, 0);
}
