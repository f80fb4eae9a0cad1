use rustos::memory::{PAGE_SHIFT, PAGE_SIZE};
use rustos::memory_manager::{
    MemoryRegion, MemoryStats, MemoryType, MmapFlags, PageTableFlags, ProtectionFlags, VirtualMemoryManager, VmError,
};

#[test]
fn test_all_examples() {}

#[test]
fn memory_region_test_protection_flags() {
    let rw = ProtectionFlags::READ() | ProtectionFlags::WRITE();
    assert!(rw.is_readable());
    assert!(rw.is_writable());
    assert!(!rw.is_executable());
    let rwx = rw | ProtectionFlags::EXECUTE();
    assert!(rwx.is_executable());
}

#[test]
fn test_memory_region() {
    let region = MemoryRegion::anonymous(0x1000, 0x2000, ProtectionFlags::READ_WRITE());
    assert_eq!(region.size(), 0x1000);
    assert!(region.contains(0x1500));
    assert!(!region.contains(0x2500));
}

#[test]
fn test_region_split() {
    let region = MemoryRegion::anonymous(0x1000, 0x3000, ProtectionFlags::READ_WRITE());
    let (first, second) = region.split_at(0x2000).unwrap();
    assert_eq!(first.end, 0x2000);
    assert_eq!(second.start, 0x2000);
    assert_eq!(first.size() + second.size(), region.size());
}

#[test]
fn test_region_merge() {
    let region1 = MemoryRegion::anonymous(0x1000, 0x2000, ProtectionFlags::READ_WRITE());
    let region2 = MemoryRegion::anonymous(0x2000, 0x3000, ProtectionFlags::READ_WRITE());
    let merged = region1.try_merge(&region2).unwrap();
    assert_eq!(merged.start, 0x1000);
    assert_eq!(merged.end, 0x3000);
}

#[test]
fn mod_test_mmap_flags() {
    let flags = MmapFlags::anonymous_private();
    assert!(flags.anonymous);
    assert!(flags.private);
    assert!(!flags.shared);
    assert!(!flags.fixed);
}

#[test]
fn mod_test_protection_flags() {
    let prot = ProtectionFlags::READ() | ProtectionFlags::WRITE();
    assert!(prot.contains(ProtectionFlags::READ()));
    assert!(prot.contains(ProtectionFlags::WRITE()));
    assert!(!prot.contains(ProtectionFlags::EXECUTE()));
}

#[test]
fn page_table_test_page_table_flags() {
    let flags = PageTableFlags::PRESENT() | PageTableFlags::WRITABLE();
    assert!(flags.contains(PageTableFlags::PRESENT()));
    assert!(flags.contains(PageTableFlags::WRITABLE()));
    assert!(!flags.contains(PageTableFlags::USER_ACCESSIBLE()));
}

#[test]
fn test_flags_conversion() {
    let flags = PageTableFlags::PRESENT() | PageTableFlags::WRITABLE();
    let x64_flags = flags.to_x64_bits();
    let converted_back = PageTableFlags::from_x64_bits(x64_flags);
    assert!(converted_back.contains(PageTableFlags::PRESENT()));
    assert!(converted_back.contains(PageTableFlags::WRITABLE()));
}

#[test]
fn test_protection_flags_operations() {
    let read = ProtectionFlags::READ();
    let write = ProtectionFlags::WRITE();
    let exec = ProtectionFlags::EXECUTE();
    assert!(read.is_readable());
    assert!(!read.is_writable());
    assert!(!read.is_executable());
    let rw = read | write;
    assert!(rw.is_readable());
    assert!(rw.is_writable());
    assert!(!rw.is_executable());
    let rwx = rw | exec;
    assert!(rwx.is_readable());
    assert!(rwx.is_writable());
    assert!(rwx.is_executable());
    assert!(ProtectionFlags::READ_WRITE().is_readable());
    assert!(ProtectionFlags::READ_WRITE().is_writable());
}

#[test]
fn tests_test_page_table_flags() {
    let flags = PageTableFlags::PRESENT() | PageTableFlags::WRITABLE();
    assert!(flags.contains(PageTableFlags::PRESENT()));
    assert!(flags.contains(PageTableFlags::WRITABLE()));
    assert!(!flags.contains(PageTableFlags::USER_ACCESSIBLE()));
    assert!(!flags.contains(PageTableFlags::NO_EXECUTE()));
}

#[test]
fn test_page_table_flags_conversion() {
    let flags = PageTableFlags::PRESENT() | PageTableFlags::WRITABLE() | PageTableFlags::USER_ACCESSIBLE();
    let x64_flags = flags.to_x64_bits();
    let converted = PageTableFlags::from_x64_bits(x64_flags);
    assert!(converted.contains(PageTableFlags::PRESENT()));
    assert!(converted.contains(PageTableFlags::WRITABLE()));
    assert!(converted.contains(PageTableFlags::USER_ACCESSIBLE()));
}

#[test]
fn test_memory_region_creation() {
    let region = MemoryRegion::anonymous(0x1000, 0x3000, ProtectionFlags::READ_WRITE());
    assert_eq!(region.start, 0x1000);
    assert_eq!(region.end, 0x3000);
    assert_eq!(region.size(), 0x2000);
    assert_eq!(region.size_in_pages(), 2);
    assert_eq!(region.memory_type, MemoryType::Anonymous);
}

#[test]
fn test_memory_region_contains() {
    let region = MemoryRegion::anonymous(0x1000, 0x3000, ProtectionFlags::READ_WRITE());
    assert!(region.contains(0x1000));
    assert!(region.contains(0x2000));
    assert!(!region.contains(0x3000));
    assert!(!region.contains(0x4000));
}

#[test]
fn test_memory_region_overlap() {
    let region1 = MemoryRegion::anonymous(0x1000, 0x3000, ProtectionFlags::READ_WRITE());
    let region2 = MemoryRegion::anonymous(0x2000, 0x4000, ProtectionFlags::READ_WRITE());
    let region3 = MemoryRegion::anonymous(0x4000, 0x5000, ProtectionFlags::READ_WRITE());
    assert!(region1.overlaps(&region2));
    assert!(region2.overlaps(&region1));
    assert!(!region1.overlaps(&region3));
}

#[test]
fn test_memory_region_split() {
    let region = MemoryRegion::anonymous(0x1000, 0x5000, ProtectionFlags::READ_WRITE());
    let (first, second) = region.split_at(0x3000).unwrap();
    assert_eq!(first.start, 0x1000);
    assert_eq!(first.end, 0x3000);
    assert_eq!(second.start, 0x3000);
    assert_eq!(second.end, 0x5000);
    assert_eq!(first.size() + second.size(), region.size());
}

#[test]
fn test_memory_region_merge() {
    let region1 = MemoryRegion::anonymous(0x1000, 0x3000, ProtectionFlags::READ_WRITE());
    let region2 = MemoryRegion::anonymous(0x3000, 0x5000, ProtectionFlags::READ_WRITE());
    let merged = region1.try_merge(&region2).unwrap();
    assert_eq!(merged.start, 0x1000);
    assert_eq!(merged.end, 0x5000);
    assert_eq!(merged.size(), 0x4000);
}

#[test]
fn test_memory_region_merge_incompatible() {
    let region1 = MemoryRegion::anonymous(0x1000, 0x3000, ProtectionFlags::READ_WRITE());
    let region2 = MemoryRegion::anonymous(0x3000, 0x5000, ProtectionFlags::READ_EXEC());
    assert!(region1.try_merge(&region2).is_none());
}

#[test]
fn test_memory_region_protection_update() {
    let mut region = MemoryRegion::anonymous(0x1000, 0x2000, ProtectionFlags::READ_WRITE());
    assert!(region.protection.is_writable());
    region.set_protection(ProtectionFlags::READ());
    assert!(!region.protection.is_writable());
    assert!(region.protection.is_readable());
}

#[test]
fn tests_test_mmap_flags() {
    let anon_private = MmapFlags::anonymous_private();
    assert!(anon_private.anonymous);
    assert!(anon_private.private);
    assert!(!anon_private.shared);
    assert!(!anon_private.fixed);
    let shared = MmapFlags::shared();
    assert!(shared.shared);
    assert!(!shared.private);
    assert!(!shared.anonymous);
    let fixed = MmapFlags::fixed();
    assert!(fixed.fixed);
}

#[test]
fn test_memory_region_validation() {
    let valid = MemoryRegion::anonymous(0x1000, 0x2000, ProtectionFlags::READ_WRITE());
    assert!(valid.is_valid());
    let invalid = MemoryRegion::anonymous(0x2000, 0x1000, ProtectionFlags::READ_WRITE());
    assert!(!invalid.is_valid());
}

#[test]
fn test_memory_types() {
    assert_eq!(core::mem::size_of::<MemoryType>(), core::mem::size_of::<u8>());
    let types = [
        MemoryType::Anonymous,
        MemoryType::FileBacked,
        MemoryType::Shared,
        MemoryType::Stack,
        MemoryType::Heap,
        MemoryType::Code,
        MemoryType::Data,
        MemoryType::Device,
    ];
    for (i, t1) in types.iter().enumerate() {
        for (j, t2) in types.iter().enumerate() {
            if i != j {
                assert_ne!(t1, t2);
            }
        }
    }
}

#[test]
fn test_protection_flag_combinations() {
    let none = ProtectionFlags::NONE();
    let r = ProtectionFlags::READ();
    let w = ProtectionFlags::WRITE();
    let x = ProtectionFlags::EXECUTE();
    let rw = r | w;
    let rx = r | x;
    let wx = w | x;
    let rwx = r | w | x;
    let _ = wx;
    assert!(!none.is_readable());
    assert!(r.is_readable());
    assert!(rw.is_readable() && rw.is_writable());
    assert!(rx.is_readable() && rx.is_executable());
    assert!(rwx.is_readable() && rwx.is_writable() && rwx.is_executable());
}

#[test]
fn test_vm_error_types() {
    let errors = [
        VmError::InvalidAddress,
        VmError::InvalidSize,
        VmError::OutOfMemory,
        VmError::PermissionDenied,
        VmError::RegionNotFound,
        VmError::AlreadyMapped,
        VmError::InvalidFlags,
        VmError::NotAligned,
        VmError::NotInitialized,
        VmError::AlreadyInitialized,
        VmError::InvalidOperation,
    ];
    for e in &errors {
        let copied = *e;
        assert_eq!(copied, *e);
    }
}

#[test]
fn test_memory_stats_default() {
    let stats = MemoryStats::default();
    assert_eq!(stats.total_allocated, 0);
    assert_eq!(stats.region_count, 0);
    assert_eq!(stats.current_brk, 0);
    assert_eq!(stats.mapped_pages, 0);
}

#[test]
fn test_file_backed_region() {
    let region = MemoryRegion::file_backed(0x1000, 0x3000, ProtectionFlags::READ_WRITE(), 5, 1024);
    assert_eq!(region.memory_type, MemoryType::FileBacked);
    assert_eq!(region.file_descriptor, Some(5));
    assert_eq!(region.file_offset, 1024);
}

#[test]
fn test_shared_region() {
    let region = MemoryRegion::shared(0x1000, 0x2000, ProtectionFlags::READ_WRITE());
    assert_eq!(region.memory_type, MemoryType::Shared);
    assert!(region.shared);
}

#[test]
fn test_region_copy_on_write() {
    let mut region = MemoryRegion::anonymous(0x1000, 0x2000, ProtectionFlags::READ_WRITE());
    assert!(!region.copy_on_write);
    region.set_copy_on_write(true);
    assert!(region.copy_on_write);
    region.set_copy_on_write(false);
    assert!(!region.copy_on_write);
}

#[test]
fn test_region_naming() {
    let mut region = MemoryRegion::anonymous(0x1000, 0x2000, ProtectionFlags::READ_WRITE());
    assert!(region.name.is_none());
    region.set_name("test_heap".to_string());
    assert_eq!(region.name.as_ref().unwrap(), "test_heap");
}

#[test]
fn test_region_range() {
    let region = MemoryRegion::anonymous(0x1000, 0x3000, ProtectionFlags::READ_WRITE());
    let range = region.range();
    assert_eq!(range.start, 0x1000);
    assert_eq!(range.end, 0x3000);
}

#[test]
fn test_page_size_constants() {
    assert_eq!(PAGE_SIZE, 4096);
    assert_eq!(1 << PAGE_SHIFT, PAGE_SIZE);
}

#[test]
fn test_vm_creation() {
    let vm = VirtualMemoryManager::new(0xFFFF_8000_0000_0000);
    let stats = vm.stats();
    assert_eq!(stats.region_count, 0);
    assert_eq!(stats.total_allocated, 0);
}

#[test]
fn test_protection_flags_conversion() {
    let prot = ProtectionFlags::READ_WRITE();
    assert!(prot.is_readable());
    assert!(prot.is_writable());
    assert!(!prot.is_executable());
}
