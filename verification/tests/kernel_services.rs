use rustos::memory::user_space::SyscallError;
use rustos::memory::MemoryProtection;
use rustos::net::dns::{DnsClass, DnsMessage, DnsRecordType, DnsResourceRecord};
use rustos::net::ip::arp_request_due;
use rustos::net::types::NetworkAddress;
use rustos::memory::user_space::UserSpaceMemory;
use rustos::memory_manager::examples::{example_fixed_mapping, example_memory_stats};
use rustos::net::dns::eq_ignore_ascii_case;
use rustos::memory_manager::api::{get_memory_stats, init_virtual_memory, vm_brk, vm_mmap, vm_munmap, vm_sbrk};
use rustos::memory_manager::{MmapFlags, ProtectionFlags, VirtualMemoryManager, VmError};
use rustos::package::syscalls::{handle_package_call, SYS_PKG_INFO, SYS_PKG_LIST, SYS_PKG_REMOVE, SYS_PKG_UPDATE};
use rustos::package::{PackageDatabase, PackageInfo, PackageManager, PackageManagerType, PackageMetadata, PackageStatus};
use rustos::pci::config::{PciConfigManager, PowerState};
use rustos::pci::database::{get_device_count, DEVICES};
use rustos::pci::{ConfigSpace, PciCapabilities, PciClass, PciDevice};

fn installed(name: &str) -> PackageInfo {
    PackageInfo {
        metadata: PackageMetadata::new(name.to_string(), "1.0.0".to_string(), "amd64".to_string()),
        install_time: 1,
        installed_files: Vec::new(),
        status: PackageStatus::Installed,
    }
}

#[test]
fn two_mappings_are_recorded_and_disjoint() {
    let mut slot: Option<VirtualMemoryManager> = None;
    assert_eq!(vm_mmap(&mut slot, 0, 4096, ProtectionFlags::READ_WRITE(), MmapFlags::anonymous_private()), Err(VmError::NotInitialized));
    assert_eq!(init_virtual_memory(&mut slot, 0xFFFF_8000_0000_0000), Ok(()));
    let p1 = vm_mmap(&mut slot, 0, 4096, ProtectionFlags::READ_WRITE(), MmapFlags::anonymous_private()).unwrap();
    let p2 = vm_mmap(&mut slot, 0, 4096, ProtectionFlags::READ_WRITE(), MmapFlags::anonymous_private()).unwrap();
    assert_eq!(p1 % 4096, 0);
    assert_eq!(p2 % 4096, 0);
    assert!(p1 + 4096 <= p2 || p2 + 4096 <= p1);
    assert_eq!(get_memory_stats(slot.as_ref()).unwrap().region_count, 2);
    assert_eq!(vm_mmap(&mut slot, 0, 0, ProtectionFlags::READ_WRITE(), MmapFlags::anonymous_private()), Err(VmError::InvalidSize));
}

#[test]
fn fixed_mapping_over_a_mapped_page_is_refused() {
    let mut slot: Option<VirtualMemoryManager> = None;
    assert_eq!(init_virtual_memory(&mut slot, 0), Ok(()));
    assert_eq!(vm_mmap(&mut slot, 0x5000_0000, 8192, ProtectionFlags::READ_WRITE(), MmapFlags::fixed()), Ok(0x5000_0000));
    assert_eq!(vm_mmap(&mut slot, 0x5000_1000, 4096, ProtectionFlags::READ_WRITE(), MmapFlags::fixed()), Err(VmError::AlreadyMapped));
}

#[test]
fn sbrk_moves_the_break() {
    let mut slot: Option<VirtualMemoryManager> = None;
    assert_eq!(vm_sbrk(&mut slot, 4096), Err(VmError::NotInitialized));
    assert_eq!(init_virtual_memory(&mut slot, 0), Ok(()));
    assert_eq!(vm_sbrk(&mut slot, 4096), Ok(0x1000_0000));
    assert_eq!(vm_sbrk(&mut slot, 4096), Ok(0x1000_1000));
    assert_eq!(vm_brk(&mut slot, 0), Ok(0x1000_2000));
    assert_eq!(vm_sbrk(&mut slot, 0), Ok(0x1000_2000));
    assert_eq!(vm_brk(&mut slot, 0x1000_0800), Ok(0x1000_0800));
    assert_eq!(vm_brk(&mut slot, 0), Ok(0x1000_0800));
    assert_eq!(vm_brk(&mut slot, 0x0FFF_0000), Err(VmError::InvalidAddress));
}

#[test]
fn device_table_holds_over_two_hundred_devices() {
    assert!(get_device_count() >= 200);
    assert_eq!(get_device_count(), DEVICES().len());
    let all = DEVICES();
    for i in 0..all.len() {
        for j in (i + 1)..all.len() {
            assert!(all[i].vendor_id != all[j].vendor_id || all[i].device_id != all[j].device_id);
        }
    }
}

fn pm_device() -> PciDevice {
    let mut config = ConfigSpace::zeroed();
    config.write_word(0x06, 0x10);
    config.write_byte(0x34, 0x40);
    config.write_byte(0x40, 0x01);
    config.write_byte(0x41, 0x00);
    config.write_word(0x44, 0x0100);
    PciDevice {
        bus: 0,
        device: 1,
        function: 0,
        vendor_id: 0x8086,
        device_id: 0x100E,
        class_code: PciClass::Network,
        subclass: 0,
        prog_if: 0,
        revision: 0,
        capabilities: PciCapabilities { msi: false, msi_x: false, power_management: true, pci_express: false, hot_plug: false },
        config,
    }
}

#[test]
fn d3cold_turns_the_device_off() {
    let mgr = PciConfigManager::new();
    let mut dev = pm_device();
    assert!(mgr.set_power_state(&mut dev, PowerState::D3Cold).is_ok());
    assert_eq!(dev.config.read_word(0x44) & 3, 3);
    assert_eq!(dev.config.read_word(0x44) & 0x0100, 0x0100);
    assert!(matches!(mgr.get_power_state(&dev), Some(PowerState::D3Hot)));
    assert!(mgr.set_power_state(&mut dev, PowerState::D0).is_ok());
    assert!(matches!(mgr.get_power_state(&dev), Some(PowerState::D0)));
    let mut plain = pm_device();
    plain.capabilities.power_management = false;
    assert_eq!(mgr.set_power_state(&mut plain, PowerState::D1), Err("Device does not support power management"));
}

#[test]
fn packages_are_listed_in_name_order() {
    let mut db = PackageDatabase::new();
    assert!(db.add_package(installed("zlib")).is_ok());
    assert!(db.add_package(installed("bash")).is_ok());
    assert!(db.add_package(installed("curl")).is_ok());
    let names: Vec<String> = db.list_packages().iter().map(|p| p.metadata.name.clone()).collect();
    assert_eq!(names, vec!["bash".to_string(), "curl".to_string(), "zlib".to_string()]);
    let found: Vec<String> = db.search("l").iter().map(|p| p.metadata.name.clone()).collect();
    assert_eq!(found, vec!["curl".to_string(), "zlib".to_string()]);
    assert_eq!(db.package_count(), 3);
    assert!(db.remove_package("curl").is_ok());
    assert_eq!(db.package_count(), 2);
}

#[test]
fn package_calls_dispatch() {
    let mut none: Option<PackageManager> = None;
    assert_eq!(handle_package_call(&mut none, SYS_PKG_LIST, String::new()), Err("Package manager not initialized"));
    let mut slot = Some(PackageManager::new(PackageManagerType::Native));
    assert_eq!(handle_package_call(&mut slot, 999, String::new()), Err("Unknown package management syscall"));
    let listed = handle_package_call(&mut slot, SYS_PKG_LIST, "ignored".to_string()).unwrap();
    assert_eq!(listed, ("No packages installed".len() as isize, Some("No packages installed".to_string())));
    assert_eq!(handle_package_call(&mut slot, SYS_PKG_UPDATE, String::new()), Err("Package update failed"));
    assert_eq!(handle_package_call(&mut slot, SYS_PKG_INFO, "nothing".to_string()), Err("Package info failed"));
    assert_eq!(handle_package_call(&mut slot, SYS_PKG_REMOVE, "nothing".to_string()), Err("Package removal failed"));
}

#[test]
fn vm_examples_run() {
    let mut none: Option<VirtualMemoryManager> = None;
    assert_eq!(example_fixed_mapping(&mut none), Err(VmError::NotInitialized));
    let mut slot: Option<VirtualMemoryManager> = None;
    assert_eq!(init_virtual_memory(&mut slot, 0), Ok(()));
    assert_eq!(example_fixed_mapping(&mut slot), Ok(()));
    assert_eq!(get_memory_stats(slot.as_ref()).unwrap().region_count, 0);
    assert_eq!(example_fixed_mapping(&mut slot), Ok(()));
    assert_eq!(example_memory_stats(&mut slot), Ok(()));
    assert_eq!(get_memory_stats(slot.as_ref()).unwrap().region_count, 0);
    assert_eq!(vm_mmap(&mut slot, 0x4000_0000, 4096, ProtectionFlags::READ_WRITE(), MmapFlags::fixed()), Ok(0x4000_0000));
    assert_eq!(example_fixed_mapping(&mut slot), Err(VmError::AlreadyMapped));
    let mut other: Option<VirtualMemoryManager> = None;
    assert_eq!(init_virtual_memory(&mut other, 0), Ok(()));
    assert_eq!(example_memory_stats(&mut other), Ok(()));
    assert_eq!(get_memory_stats(other.as_ref()).unwrap().region_count, 0);
}

#[test]
fn unmapped_range_can_be_mapped_again() {
    let mut slot: Option<VirtualMemoryManager> = None;
    assert_eq!(vm_munmap(&mut slot, 0x5000_0000, 4096), Err(VmError::NotInitialized));
    assert_eq!(init_virtual_memory(&mut slot, 0), Ok(()));
    assert_eq!(vm_mmap(&mut slot, 0x5000_0000, 8192, ProtectionFlags::READ_WRITE(), MmapFlags::fixed()), Ok(0x5000_0000));
    assert_eq!(vm_munmap(&mut slot, 0x5000_0001, 4096), Err(VmError::NotAligned));
    assert_eq!(vm_munmap(&mut slot, 0x5000_0000, 8192), Ok(()));
    assert_eq!(get_memory_stats(slot.as_ref()).unwrap().region_count, 0);
    assert_eq!(vm_mmap(&mut slot, 0x5000_0000, 4096, ProtectionFlags::READ_WRITE(), MmapFlags::fixed()), Ok(0x5000_0000));
    assert_eq!(get_memory_stats(slot.as_ref()).unwrap().region_count, 1);
}

#[test]
fn only_ring_zero_reaches_user_memory() {
    assert!(UserSpaceMemory::can_access_user_memory(0));
    assert!(!UserSpaceMemory::can_access_user_memory(3));
}

#[test]
fn dns_names_compare_ignoring_ascii_case() {
    assert!(eq_ignore_ascii_case("Example.COM", "example.com"));
    assert!(!eq_ignore_ascii_case("example.org", "example.com"));
    assert!(eq_ignore_ascii_case("ÄB", "Äb"));
}

#[test]
fn strings_from_user_stop_at_the_terminator() {
    let mem = b"hello\0world";
    assert_eq!(UserSpaceMemory::copy_string_from_user(0, 16, mem, SyscallError::InvalidAddress), Err(SyscallError::InvalidAddress));
    assert_eq!(UserSpaceMemory::copy_string_from_user(0x1000, 16, mem, SyscallError::InvalidAddress), Ok("hello".to_string()));
    assert_eq!(UserSpaceMemory::copy_string_from_user(0x1000, 3, mem, SyscallError::InvalidAddress), Ok("hel".to_string()));
    assert_eq!(UserSpaceMemory::copy_string_from_user(0x1000, 0, mem, SyscallError::InvalidAddress), Ok(String::new()));
    assert_eq!(UserSpaceMemory::copy_string_from_user(0x1000, 16, b"abc", SyscallError::PermissionDenied), Err(SyscallError::PermissionDenied));
    assert_eq!(UserSpaceMemory::copy_string_from_user(0x1000, 16, &[0xFF, 0x41, 0], SyscallError::PermissionDenied), Err(SyscallError::InvalidArgument));
}

#[test]
fn arp_request_due_on_a_cache_miss() {
    let src = NetworkAddress::IPv4([10, 0, 0, 1]);
    let dst = NetworkAddress::IPv4([10, 0, 0, 2]);
    let mac = Some(NetworkAddress::Mac([2, 0, 0, 0, 0, 1]));
    assert!(arp_request_due(&src, &dst, &mac, &None));
    assert!(!arp_request_due(&src, &dst, &mac, &Some(NetworkAddress::Mac([2, 0, 0, 0, 0, 2]))));
    assert!(!arp_request_due(&src, &NetworkAddress::IPv4([255, 255, 255, 255]), &mac, &None));
    assert!(!arp_request_due(&src, &dst, &None, &None));
}

#[test]
fn protection_union_in_place() {
    let mut p = MemoryProtection::KERNEL_DATA();
    let mut q = MemoryProtection::KERNEL_DATA();
    q.executable = true;
    q.user_accessible = true;
    p |= q;
    assert!(p.readable && p.writable && p.executable && p.user_accessible);
}

#[test]
fn dns_message_reads_back() {
    let mut m = DnsMessage::new_query(0x1234, "www.example.com".to_string(), DnsRecordType::A);
    m.answers.push(DnsResourceRecord::new("www.example.com".to_string(), DnsRecordType::A, DnsClass::In, 300, vec![93, 184, 216, 34]));
    m.header.ancount = 1;
    let bytes = m.to_bytes().unwrap();
    let back = DnsMessage::from_bytes(&bytes).unwrap();
    assert_eq!(back.header.id, 0x1234);
    assert_eq!(back.header.qdcount, 1);
    assert_eq!(back.header.ancount, 1);
    assert_eq!(back.questions.len(), 1);
    assert_eq!(back.questions[0].name, "www.example.com");
    assert_eq!(back.answers[0].name, "www.example.com");
    assert_eq!(back.answers[0].ttl, 300);
    assert_eq!(back.answers[0].rdata, vec![93, 184, 216, 34]);
}
