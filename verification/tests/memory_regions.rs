use rustos::memory::regions::{generate_aslr_offset, MemoryManager, VirtualMemoryRegion};
use rustos::memory::{MemoryError, MemoryProtection, MemoryRegionType};
use rustos::net::buffer::{BufferChain, PacketBuffer};
use rustos::net::dma::DmaRing;

fn region(start: u64, size: usize) -> VirtualMemoryRegion {
    VirtualMemoryRegion::new(start, size, MemoryRegionType::UserData, MemoryProtection::USER_DATA())
}

#[test]
fn aslr_offset_takes_sixteen_bits_in_pages() {
    assert_eq!(generate_aslr_offset(0), 0);
    assert_eq!(generate_aslr_offset(1), 4096);
    assert_eq!(generate_aslr_offset(0x1_0003), 3 * 4096);
    assert_eq!(generate_aslr_offset(u64::MAX), 0xFFFF * 4096);
}

#[test]
fn region_with_aslr_moves_its_start() {
    let r = VirtualMemoryRegion::new_with_aslr(0x1000_0000, 8192, MemoryRegionType::UserStack, MemoryProtection::USER_DATA(), true, 2);
    assert_eq!(r.start, 0x1000_0000 + 2 * 4096);
    assert_eq!(r.aslr_offset, 2 * 4096);
    let q = VirtualMemoryRegion::new_with_aslr(0x1000_0000, 8192, MemoryRegionType::UserStack, MemoryProtection::USER_DATA(), false, 2);
    assert_eq!(q.start, 0x1000_0000);
    assert_eq!(q.aslr_offset, 0);
}

#[test]
fn region_geometry() {
    let mut r = region(0x2000, 4097);
    assert_eq!(r.end(), 0x2000 + 4097);
    assert!(r.contains(0x2000));
    assert!(r.contains(0x3000));
    assert!(!r.contains(0x3001));
    assert!(!r.contains(0x1fff));
    assert_eq!(r.page_count(), 2);
    r.increment_ref_count();
    assert_eq!(r.reference_count, 2);
    assert_eq!(r.decrement_ref_count(), 1);
    assert_eq!(r.decrement_ref_count(), 0);
    assert_eq!(r.decrement_ref_count(), 0);
}

#[test]
fn overlapping_regions_are_refused() {
    let mut m = MemoryManager::new();
    assert_eq!(m.add_region(region(0x1000, 0x1000)), Ok(()));
    assert_eq!(m.add_region(region(0x1800, 0x1000)), Err(MemoryError::RegionOverlap));
    assert_eq!(m.add_region(region(0x2000, 0x1000)), Ok(()));
    assert_eq!(m.find_region(0x1234), Some(region(0x1000, 0x1000)));
    assert_eq!(m.find_region(0x2fff), Some(region(0x2000, 0x1000)));
    assert_eq!(m.find_region(0x3000), None);
}

#[test]
fn removed_region_is_handed_back() {
    let mut m = MemoryManager::new();
    assert_eq!(m.add_region(region(0x5000, 0x2000)), Ok(()));
    assert_eq!(m.remove_region(0x5000), Ok(region(0x5000, 0x2000)));
    assert_eq!(m.remove_region(0x5000), Err(MemoryError::RegionNotFound));
    assert_eq!(m.find_region(0x5000), None);
}

#[test]
fn free_space_is_the_lowest_free_page() {
    let mut m = MemoryManager::new();
    assert_eq!(m.find_free_virtual_space(0x2000), Some(0x1000_0000));
    assert_eq!(m.add_region(region(0x1000_0000, 0x3000)), Ok(()));
    assert_eq!(m.find_free_virtual_space(0x2000), Some(0x1000_3000));
    assert_eq!(m.find_free_virtual_space(0x8000_0000), None);
}

#[test]
fn frame_reference_counts() {
    let mut m = MemoryManager::new();
    assert_eq!(m.get_frame_refcount(0x9000), 1);
    assert!(!m.is_frame_shared(0x9000));
    m.increment_frame_refcount(0x9000);
    assert_eq!(m.get_frame_refcount(0x9000), 2);
    assert!(m.is_frame_shared(0x9000));
    m.increment_frame_refcount(0x9000);
    assert_eq!(m.get_frame_refcount(0x9000), 3);
    assert_eq!(m.decrement_frame_refcount(0x9000), 2);
    assert_eq!(m.decrement_frame_refcount(0x9000), 1);
    assert_eq!(m.decrement_frame_refcount(0x9000), 0);
    assert_eq!(m.get_frame_refcount(0x9000), 1);
    assert_eq!(m.decrement_frame_refcount(0x9000), 0);
}

#[test]
fn buffer_views_change_in_place() {
    let mut b = PacketBuffer::new(64, 7, 0).unwrap();
    assert_eq!(b.write(&[1, 2, 3]), Ok(3));
    b.data_mut()[0] = 9;
    assert_eq!(b.data(), &[9, 2, 3]);
    let space = b.writable_space();
    assert_eq!(space.len(), 61);
    space[0] = 4;
    assert_eq!(b.data(), &[9, 2, 3]);
    b.metadata_mut().ref_count = 5;
    assert_eq!(b.metadata().ref_count, 5);
    assert_eq!(b.metadata().id, 7);
}

#[test]
fn chain_buffer_changes_in_place() {
    let mut chain = BufferChain::new();
    chain.add_buffer(PacketBuffer::from_data(vec![1, 2]));
    assert!(chain.get_buffer_mut(1).is_none());
    chain.get_buffer_mut(0).unwrap().metadata_mut().ref_count = 3;
    assert_eq!(chain.get_buffer(0).unwrap().metadata().ref_count, 3);
}

#[test]
fn descriptor_ring_holds_the_descriptors() {
    let addrs = vec![Some(0x10_0000u64), Some(0x10_1000u64)];
    let ring = DmaRing::new(2, 2048, &addrs).unwrap();
    let d = ring.descriptor_ring_addr();
    assert_eq!(d.len(), 2);
    assert_eq!(d[1].buffer_addr, 0x10_1000);
}

#[test]
fn copy_on_write_fault_releases_the_old_frame() {
    let cow = MemoryProtection::COPY_ON_WRITE();
    let after = MemoryManager::cow_protection(cow);
    assert!(after.writable);
    assert!(!after.copy_on_write);
    assert_eq!(after.readable, cow.readable);
    assert_eq!(after.user_accessible, cow.user_accessible);
    let mut m = MemoryManager::new();
    assert!(!m.cow_release_frame(None));
    m.increment_frame_refcount(0xA000);
    assert!(!m.cow_release_frame(Some(0xA000)));
    assert_eq!(m.get_frame_refcount(0xA000), 1);
    assert!(m.cow_release_frame(Some(0xA000)));
    assert!(m.cow_release_frame(Some(0xB000)));
}
