use rustos::pci::config::{BarType, PciConfigManager};
use rustos::pci::database::{
    get_device_count, get_device_description, get_device_info, get_device_name, get_vendor_count, get_vendor_devices,
    get_vendor_info, get_vendor_name, is_known_device, is_known_vendor, DEVICES, VENDORS,
};
use rustos::pci::detection::{
    find_device_by_location, get_devices_by_category, parse_location, ConflictSeverity, ConflictType, DeviceCategory,
    HardwareDetector,
};
use rustos::pci::{ConfigSpace, PciCapabilities, PciClass, PciDevice};

fn caps() -> PciCapabilities {
    PciCapabilities { msi: false, msi_x: false, power_management: false, pci_express: false, hot_plug: false }
}

fn device(bus: u8, dev: u8, func: u8, class: PciClass, subclass: u8, vendor: u16) -> PciDevice {
    PciDevice {
        bus,
        device: dev,
        function: func,
        vendor_id: vendor,
        device_id: 0x1234,
        class_code: class,
        subclass,
        prog_if: 0,
        revision: 0,
        capabilities: caps(),
        config: ConfigSpace::zeroed(),
    }
}

#[test]
fn vendor_and_device_lookups() {
    assert_eq!(get_vendor_name(0x8086), "Intel");
    assert_eq!(get_vendor_name(0xFFFF), "Unknown");
    assert_eq!(get_vendor_info(0x10DE).unwrap().name, "NVIDIA Corporation");
    assert!(get_vendor_info(0x0001).is_none());
    assert_eq!(get_device_name(0x8086, 0x100E), "82540EM");
    assert_eq!(get_device_description(0x8086, 0x100E), "82540EM Gigabit Ethernet Controller");
    assert_eq!(get_device_name(0x8086, 0xFFFF), "Unknown Device");
    assert!(get_device_info(0x1217, 0x8221).is_some());
    assert!(is_known_vendor(0x1AF4));
    assert!(!is_known_vendor(0xABCD));
    assert!(is_known_device(0x104C, 0x803B));
    assert!(!is_known_device(0x104C, 0x0000));
    assert_eq!(get_vendor_count(), VENDORS().len());
    assert_eq!(get_device_count(), DEVICES().len());
    assert_eq!(get_vendor_count(), 30);
    let intel = get_vendor_devices(0x8086);
    assert!(intel.iter().all(|d| d.vendor_id == 0x8086));
    assert_eq!(intel.len(), DEVICES().iter().filter(|d| d.vendor_id == 0x8086).count());
}

#[test]
fn locations_parse_as_hex_and_decimal() {
    assert_eq!(parse_location("00:1f.2"), Some((0, 0x1f, 2)));
    assert_eq!(parse_location("0A:02.7"), Some((0x0a, 2, 7)));
    assert_eq!(parse_location("00:1f"), None);
    assert_eq!(parse_location("00:1f.2:3"), None);
    assert_eq!(parse_location("100:00.0"), None);
    assert_eq!(parse_location("00:00.a"), None);
    assert_eq!(parse_location(""), None);
}

#[test]
fn devices_found_by_location_and_category() {
    let devices = vec![
        device(0, 0x1f, 2, PciClass::MassStorage, 0x06, 0x8086),
        device(0, 0x03, 0, PciClass::Network, 0x00, 0x10EC),
    ];
    let d = find_device_by_location("00:1f.2", &devices).unwrap();
    assert_eq!(d.subclass, 0x06);
    assert!(find_device_by_location("00:1f.3", &devices).is_none());
    let nets = get_devices_by_category(DeviceCategory::NetworkCard, &devices);
    assert_eq!(nets.len(), 1);
    assert_eq!(nets[0].vendor_id, 0x10EC);
}

#[test]
fn drivers_and_severities() {
    let det = HardwareDetector::new();
    let ahci = device(0, 1, 0, PciClass::MassStorage, 0x06, 0x8086);
    let nic = device(0, 2, 0, PciClass::Network, 0x00, 0x8086);
    let gpu = device(0, 3, 0, PciClass::Display, 0x00, 0x1002);
    let usb = device(0, 4, 0, PciClass::SerialBus, 0x03, 0x8086);
    assert_eq!(det.get_recommended_driver(&ahci), "ahci");
    assert_eq!(det.get_recommended_driver(&nic), "e1000");
    assert_eq!(det.get_recommended_driver(&gpu), "amdgpu");
    assert_eq!(det.get_device_category(&usb), DeviceCategory::UsbController);
    assert_eq!(det.determine_conflict_severity(&ahci, &gpu), ConflictSeverity::Critical);
    assert_eq!(det.determine_conflict_severity(&nic, &gpu), ConflictSeverity::High);
    assert_eq!(det.determine_conflict_severity(&gpu, &usb), ConflictSeverity::Medium);
    assert!(det.is_interrupt_sharing_problematic(&ahci, &nic));
    assert!(!det.is_interrupt_sharing_problematic(&nic, &gpu));
}

#[test]
fn shared_interrupt_lines_are_conflicts() {
    let det = HardwareDetector::new();
    let mgr = PciConfigManager::new();
    let mut a = device(0, 1, 0, PciClass::Network, 0, 0x8086);
    let mut b = device(0, 2, 0, PciClass::MassStorage, 0x08, 0x8086);
    mgr.set_interrupt_line(&mut a, 11).unwrap();
    mgr.set_interrupt_line(&mut b, 11).unwrap();
    let conflicts = det.detect_resource_conflicts(&vec![a, b]).unwrap();
    assert_eq!(conflicts.len(), 1);
    assert_eq!(conflicts[0].conflict_type, ConflictType::InterruptConflict);
    assert_eq!(conflicts[0].address_range, (11, 11));
    assert_eq!(conflicts[0].severity, ConflictSeverity::High);
}

#[test]
fn overlapping_memory_bars_are_conflicts() {
    let det = HardwareDetector::new();
    let mut a = device(0, 1, 0, PciClass::Display, 0, 0x10DE);
    let mut b = device(0, 2, 0, PciClass::Multimedia, 0, 0x8086);
    for d in [&mut a, &mut b] {
        d.config.write_dword(0x10, 0xE000_0000);
        d.config.bar_masks[0] = 0xFFFF_0000;
    }
    let bars = PciConfigManager::new().read_bars(&a);
    assert_eq!(bars[0].bar_type, BarType::Memory32);
    assert_eq!(bars[0].size, 0x1_0000);
    let conflicts = det.detect_resource_conflicts(&vec![a, b]).unwrap();
    assert_eq!(conflicts.len(), 1);
    assert_eq!(conflicts[0].conflict_type, ConflictType::MemoryOverlap);
    assert_eq!(conflicts[0].address_range, (0xE000_0000, 0xE000_FFFF));
    assert_eq!(conflicts[0].severity, ConflictSeverity::Medium);
}

#[test]
fn detection_groups_by_class() {
    let det = HardwareDetector::new();
    let devices = vec![
        device(0, 2, 0, PciClass::Network, 0, 0x8086),
        device(0, 1, 0, PciClass::MassStorage, 0x01, 0x8086),
        device(0, 3, 0, PciClass::Network, 0, 0x10EC),
    ];
    assert_eq!(det.detect_hardware(&devices, false).unwrap_err(), "PCI scanner not initialized");
    let res = det.detect_hardware(&devices, true).unwrap();
    assert_eq!(res.total_devices, 3);
    assert_eq!(res.devices_by_class.len(), 2);
    assert_eq!(res.devices_by_class[0].0, PciClass::MassStorage);
    assert_eq!(res.devices_by_class[1].0, PciClass::Network);
    assert_eq!(res.devices_by_class[1].1.len(), 2);
    assert_eq!(res.critical_devices.len(), 1);
}
