use rustos::memory::frames::{PhysicalFrameAllocator, ZoneStats};
use rustos::memory::swap::{PageReplacementAlgorithm, SwapInAction, SwapManager, SwapSlot};
use rustos::memory::MemoryError;
use rustos::memory::MemoryZone;
use rustos::memory_basic::BootMemoryRegion;

#[test]
fn buddy_allocator_gives_back_what_it_takes() {
    let regions = [BootMemoryRegion { start: 0, end: 0x10_0000, usable: true }];
    let mut alloc = PhysicalFrameAllocator::init(&regions);
    let before = alloc.get_buddy_stats();
    let frame = alloc.allocate_frame().unwrap();
    assert_eq!(frame % 4096, 0);
    assert!(frame < 0x10_0000);
    alloc.deallocate_frame(frame, MemoryZone::Dma);
    let after = alloc.get_buddy_stats();
    assert_eq!(before.total_free_blocks, after.total_free_blocks);
    assert_eq!(before.free_blocks_by_order, after.free_blocks_by_order);
}

#[test]
fn buddy_bitmap_covers_usable_pages_from_zone_start() {
    // The bitmap has a bit per usable page counted from the zone's start,
    // so a region that starts above as many pages never merges back.
    let regions = [BootMemoryRegion { start: 0x10_0000, end: 0x20_0000, usable: true }];
    let mut alloc = PhysicalFrameAllocator::init(&regions);
    let before = alloc.get_buddy_stats();
    let frame = alloc.allocate_frame().unwrap();
    alloc.deallocate_frame(frame, MemoryZone::Dma);
    let after = alloc.get_buddy_stats();
    assert_eq!(before.total_free_blocks, 1);
    assert_eq!(after.total_free_blocks, 9);
}

#[test]
fn buddy_allocator_without_memory_has_no_frames() {
    let regions = [BootMemoryRegion { start: 0x10_0000, end: 0x20_0000, usable: false }];
    let mut alloc = PhysicalFrameAllocator::init(&regions);
    assert!(alloc.allocate_frame().is_none());
}

#[test]
fn contiguous_pages_come_from_one_block() {
    let regions = [BootMemoryRegion { start: 0x10_0000, end: 0x20_0000, usable: true }];
    let mut alloc = PhysicalFrameAllocator::init(&regions);
    let base = alloc.allocate_contiguous_pages(4, MemoryZone::Dma).unwrap();
    assert_eq!(base % (4 * 4096), 0);
}

#[test]
fn swap_slot_round_trip() {
    let mut swap = SwapManager::new(8, PageReplacementAlgorithm::LRU);
    let (slot, sector) = swap.swap_out_prepare().unwrap();
    assert_eq!(slot, SwapSlot(0));
    assert_eq!(sector, 0);
    assert_eq!(swap.swap_out_complete(slot, 0x5000, Some(Ok(4096))), Ok(slot));
    assert!(swap.is_page_swapped(0x5000));
    assert_eq!(swap.find_slot_of(0x5000), Some(slot));
    assert_eq!(swap.swap_in_lookup(slot), Ok(0x5000));
    assert_eq!(swap.swap_in_complete(slot, Some(Ok(4096))), Ok(0x5000));
    assert!(!swap.is_page_swapped(0x5000));
    assert_eq!(swap.get_stats().used_slots, 0);
}

#[test]
fn short_swap_write_gives_the_slot_back() {
    let mut swap = SwapManager::new(8, PageReplacementAlgorithm::Clock);
    let (slot, _) = swap.swap_out_prepare().unwrap();
    assert!(swap.swap_out_complete(slot, 0x6000, Some(Ok(100))).is_err());
    assert_eq!(swap.get_stats().used_slots, 0);
    assert!(swap.swap_in_lookup(slot).is_err());
}

#[test]
fn swap_runs_out_of_slots() {
    let mut swap = SwapManager::new(2, PageReplacementAlgorithm::FIFO);
    assert!(swap.allocate_slot().is_some());
    assert!(swap.allocate_slot().is_some());
    assert!(swap.allocate_slot().is_none());
    assert_eq!(swap.swap_out_prepare(), Err("No swap slots available"));
}

#[test]
fn swap_in_steps_through_frame_slot_and_read() {
    let mut swap = SwapManager::new(8, PageReplacementAlgorithm::LRU);
    assert_eq!(swap.swap_in_step(0x5000, None, false, None), SwapInAction::SwapOutVictim);
    assert_eq!(swap.swap_in_step(0x5000, None, true, None), SwapInAction::Fail(MemoryError::OutOfMemory));
    assert_eq!(swap.swap_in_step(0x5000, Some(0x20_0000), false, None), SwapInAction::MapFrame { frame: 0x20_0000, zero_fill: true });
    let (slot, _) = swap.swap_out_prepare().unwrap();
    assert_eq!(swap.swap_out_complete(slot, 0x5000, Some(Ok(4096))), Ok(slot));
    assert_eq!(swap.swap_in_step(0x5000, Some(0x20_0000), false, None), SwapInAction::ReadSlot { slot, frame: 0x20_0000 });
    assert_eq!(swap.swap_in_step(0x5000, Some(0x20_0000), false, Some(Some(Err(())))), SwapInAction::MapFrame { frame: 0x20_0000, zero_fill: true });
    assert!(swap.is_page_swapped(0x5000));
    assert_eq!(swap.swap_in_step(0x5000, Some(0x20_0000), false, Some(Some(Ok(4096)))), SwapInAction::MapFrame { frame: 0x20_0000, zero_fill: false });
    assert!(!swap.is_page_swapped(0x5000));
    assert_eq!(swap.get_stats().used_slots, 0);
    assert_eq!(swap.swap_in_finish(0x5000, false), Err(MemoryError::MappingFailed));
    assert_eq!(swap.swap_in_finish(0x5000, true), Ok(()));
}

#[test]
fn swap_in_without_a_device_zero_fills_and_frees_the_slot() {
    let mut swap = SwapManager::new(8, PageReplacementAlgorithm::FIFO);
    let (slot, _) = swap.swap_out_prepare().unwrap();
    assert_eq!(swap.swap_out_complete(slot, 0x7000, None), Ok(slot));
    assert_eq!(swap.swap_in_step(0x7000, Some(0x30_0000), true, Some(None)), SwapInAction::MapFrame { frame: 0x30_0000, zero_fill: true });
    assert!(!swap.is_page_swapped(0x7000));
}

#[test]
fn zone_stats_count_frames_per_zone() {
    let regions = [BootMemoryRegion { start: 0, end: 0x10_0000, usable: true }];
    let mut alloc = PhysicalFrameAllocator::init(&regions);
    let stats = alloc.get_zone_stats();
    assert_eq!(stats[0], ZoneStats { zone: MemoryZone::Dma, total_frames: 256, allocated_frames: 0 });
    assert_eq!(stats[1].zone, MemoryZone::Normal);
    assert_eq!(stats[1].total_frames, 0);
    assert_eq!(stats[2].zone, MemoryZone::HighMem);
    alloc.allocate_frame().unwrap();
    let dma = alloc.get_zone_stats()[0];
    assert_eq!(dma.allocated_frames, 1);
    assert_eq!(dma.free_frames(), 255);
    assert_eq!(dma.total_bytes(), 0x10_0000);
    assert_eq!(dma.allocated_bytes(), 4096);
    assert_eq!(dma.free_bytes(), 255 * 4096);
    let odd = ZoneStats { zone: MemoryZone::Normal, total_frames: 1, allocated_frames: 2 };
    assert_eq!(odd.free_frames(), 0);
    assert_eq!(odd.free_bytes(), 0);
}
