//! The PCI vendor and device database: the known vendors and devices with
//! their names, and lookups by vendor and device identifier.

use vstd::prelude::*;

verus! {

/// A known vendor.
#[derive(Debug, Clone, Copy)]
pub struct VendorInfo {
    pub id: u16,
    pub name: &'static str,
    pub short_name: &'static str,
}

/// A known device.
#[derive(Debug, Clone, Copy)]
pub struct DeviceInfo {
    pub vendor_id: u16,
    pub device_id: u16,
    pub name: &'static str,
    pub description: &'static str,
}

/// The number of known vendors.
pub const VENDOR_COUNT: usize = 30;

/// The number of known devices (all distinct: `lemma_devices_distinct`).
pub const DEVICE_COUNT: usize = 217;

/// Entry `i` of the vendor table (the last one past its end).
pub open spec fn vendor_entry(i: usize) -> VendorInfo {
    match i {
        0 => VendorInfo { id: 0x8086, name: "Intel Corporation", short_name: "Intel" },
        1 => VendorInfo { id: 0x1022, name: "Advanced Micro Devices, Inc. [AMD]", short_name: "AMD" },
        2 => VendorInfo { id: 0x10DE, name: "NVIDIA Corporation", short_name: "NVIDIA" },
        3 => VendorInfo { id: 0x1002, name: "Advanced Micro Devices, Inc. [AMD/ATI]", short_name: "AMD/ATI" },
        4 => VendorInfo { id: 0x14E4, name: "Broadcom Inc. and subsidiaries", short_name: "Broadcom" },
        5 => VendorInfo { id: 0x8087, name: "Intel Corporation", short_name: "Intel" },
        6 => VendorInfo { id: 0x1106, name: "VIA Technologies, Inc.", short_name: "VIA" },
        7 => VendorInfo { id: 0x10EC, name: "Realtek Semiconductor Co., Ltd.", short_name: "Realtek" },
        8 => VendorInfo { id: 0x1969, name: "Qualcomm Atheros", short_name: "Atheros" },
        9 => VendorInfo { id: 0x168C, name: "Qualcomm Atheros", short_name: "Atheros" },
        10 => VendorInfo { id: 0x1B21, name: "ASMedia Technology Inc.", short_name: "ASMedia" },
        11 => VendorInfo { id: 0x197B, name: "JMicron Technology Corp.", short_name: "JMicron" },
        12 => VendorInfo { id: 0x1033, name: "NEC Corporation", short_name: "NEC" },
        13 => VendorInfo { id: 0x1912, name: "Renesas Technology Corp.", short_name: "Renesas" },
        14 => VendorInfo { id: 0x1180, name: "Ricoh Co Ltd", short_name: "Ricoh" },
        15 => VendorInfo { id: 0x104C, name: "Texas Instruments", short_name: "TI" },
        16 => VendorInfo { id: 0x1217, name: "O2 Micro, Inc.", short_name: "O2Micro" },
        17 => VendorInfo { id: 0x1524, name: "ENE Technology Inc", short_name: "ENE" },
        18 => VendorInfo { id: 0x11AB, name: "Marvell Technology Group Ltd.", short_name: "Marvell" },
        19 => VendorInfo { id: 0x15B3, name: "Mellanox Technologies", short_name: "Mellanox" },
        20 => VendorInfo { id: 0x1912, name: "Renesas Technology Corp.", short_name: "Renesas" },
        21 => VendorInfo { id: 0x1B4B, name: "Marvell Technology Group Ltd.", short_name: "Marvell" },
        22 => VendorInfo { id: 0x1D6B, name: "Linux Foundation", short_name: "Linux" },
        23 => VendorInfo { id: 0x15AD, name: "VMware", short_name: "VMware" },
        24 => VendorInfo { id: 0x1AF4, name: "Red Hat, Inc.", short_name: "RedHat" },
        25 => VendorInfo { id: 0x1234, name: "Technical Corp.", short_name: "Technical" },
        26 => VendorInfo { id: 0x80EE, name: "InnoTek Systemberatung GmbH", short_name: "VirtualBox" },
        27 => VendorInfo { id: 0x5853, name: "XenSource, Inc.", short_name: "Xen" },
        28 => VendorInfo { id: 0x1414, name: "Microsoft Corporation", short_name: "Microsoft" },
        _ => VendorInfo { id: 0x106B, name: "Apple Inc.", short_name: "Apple" },
    }
}

/// Entry `i` of the device table (the last one past its end).
pub open spec fn device_entry(i: usize) -> DeviceInfo {
    match i {
        0 => DeviceInfo { vendor_id: 0x8086, device_id: 0x1237, name: "440FX", description: "82441FX Pentium(R) Pro Processor to PCI Bridge" },
        1 => DeviceInfo { vendor_id: 0x8086, device_id: 0x7000, name: "PIIX3", description: "82371SB PIIX3 ISA [Natoma/Triton II]" },
        2 => DeviceInfo { vendor_id: 0x8086, device_id: 0x7010, name: "PIIX3_IDE", description: "82371SB PIIX3 IDE [Natoma/Triton II]" },
        3 => DeviceInfo { vendor_id: 0x8086, device_id: 0x7113, name: "PIIX4_PM", description: "82371AB/EB/MB PIIX4 ACPI" },
        4 => DeviceInfo { vendor_id: 0x8086, device_id: 0x100E, name: "82540EM", description: "82540EM Gigabit Ethernet Controller" },
        5 => DeviceInfo { vendor_id: 0x8086, device_id: 0x100F, name: "82545EM", description: "82545EM Gigabit Ethernet Controller (Copper)" },
        6 => DeviceInfo { vendor_id: 0x8086, device_id: 0x1502, name: "82579LM", description: "82579LM Gigabit Network Connection" },
        7 => DeviceInfo { vendor_id: 0x8086, device_id: 0x1503, name: "82579V", description: "82579V Gigabit Network Connection" },
        8 => DeviceInfo { vendor_id: 0x8086, device_id: 0x153A, name: "I217-LM", description: "Ethernet Connection I217-LM" },
        9 => DeviceInfo { vendor_id: 0x8086, device_id: 0x153B, name: "I217-V", description: "Ethernet Connection I217-V" },
        10 => DeviceInfo { vendor_id: 0x8086, device_id: 0x15A1, name: "I218-LM", description: "Ethernet Connection I218-LM" },
        11 => DeviceInfo { vendor_id: 0x8086, device_id: 0x15A2, name: "I218-V", description: "Ethernet Connection I218-V" },
        12 => DeviceInfo { vendor_id: 0x8086, device_id: 0x2922, name: "ICH9_AHCI", description: "82801IB (ICH9) 6 ports SATA Controller [AHCI mode]" },
        13 => DeviceInfo { vendor_id: 0x8086, device_id: 0x2829, name: "ICH8M_AHCI", description: "82801HBM/HEM (ICH8M/ICH8M-E) SATA Controller [AHCI mode]" },
        14 => DeviceInfo { vendor_id: 0x8086, device_id: 0x3A22, name: "ICH10_AHCI", description: "82801JI (ICH10 Family) SATA AHCI Controller" },
        15 => DeviceInfo { vendor_id: 0x8086, device_id: 0x1E03, name: "7_Series_AHCI", description: "7 Series Chipset Family 6-port SATA Controller [AHCI mode]" },
        16 => DeviceInfo { vendor_id: 0x8086, device_id: 0x8C02, name: "8_Series_AHCI", description: "8 Series/C220 Series Chipset Family 6-port SATA Controller 1 [AHCI mode]" },
        17 => DeviceInfo { vendor_id: 0x8086, device_id: 0x9C03, name: "8_Series_LP_AHCI", description: "8 Series Chipset Family 4-port SATA Controller 1 [IDE mode]" },
        18 => DeviceInfo { vendor_id: 0x8086, device_id: 0x0F23, name: "ValleyView_AHCI", description: "Atom Processor E3800 Series SATA AHCI Controller" },
        19 => DeviceInfo { vendor_id: 0x8086, device_id: 0x22A3, name: "Braswell_AHCI", description: "Atom/Celeron/Pentium Processor x5-E8000/J3xxx/N3xxx Series SATA Controller" },
        20 => DeviceInfo { vendor_id: 0x8086, device_id: 0x2668, name: "ICH6_AC97", description: "82801FB/FBM/FR/FW/FRW (ICH6 Family) AC'97 Audio Controller" },
        21 => DeviceInfo { vendor_id: 0x8086, device_id: 0x27D8, name: "ICH7_HDA", description: "82801G (ICH7 Family) High Definition Audio Controller" },
        22 => DeviceInfo { vendor_id: 0x8086, device_id: 0x284B, name: "ICH8_HDA", description: "82801H (ICH8 Family) HD Audio Controller" },
        23 => DeviceInfo { vendor_id: 0x8086, device_id: 0x293E, name: "ICH9_HDA", description: "82801I (ICH9 Family) HD Audio Controller" },
        24 => DeviceInfo { vendor_id: 0x8086, device_id: 0x3A3E, name: "ICH10_HDA", description: "82801JI (ICH10 Family) HD Audio Controller" },
        25 => DeviceInfo { vendor_id: 0x8086, device_id: 0x1C20, name: "6_Series_HDA", description: "6 Series/C200 Series Chipset Family High Definition Audio Controller" },
        26 => DeviceInfo { vendor_id: 0x8086, device_id: 0x1E20, name: "7_Series_HDA", description: "7 Series/C216 Chipset Family High Definition Audio Controller" },
        27 => DeviceInfo { vendor_id: 0x8086, device_id: 0x8C20, name: "8_Series_HDA", description: "8 Series/C220 Series Chipset High Definition Audio Controller" },
        28 => DeviceInfo { vendor_id: 0x8086, device_id: 0x9C20, name: "8_Series_LP_HDA", description: "8 Series HD Audio Controller" },
        29 => DeviceInfo { vendor_id: 0x8086, device_id: 0x0166, name: "IvyBridge_GT2", description: "3rd Gen Core processor Graphics Controller" },
        30 => DeviceInfo { vendor_id: 0x8086, device_id: 0x0416, name: "Haswell_GT2", description: "4th Gen Core Processor Integrated Graphics Controller" },
        31 => DeviceInfo { vendor_id: 0x8086, device_id: 0x1616, name: "Broadwell_GT2", description: "HD Graphics 5500" },
        32 => DeviceInfo { vendor_id: 0x8086, device_id: 0x1916, name: "Skylake_GT2", description: "Skylake GT2 [HD Graphics 520]" },
        33 => DeviceInfo { vendor_id: 0x8086, device_id: 0x5916, name: "KabyLake_GT2", description: "HD Graphics 620" },
        34 => DeviceInfo { vendor_id: 0x8086, device_id: 0x5A85, name: "Apollolake_HD", description: "HD Graphics 500" },
        35 => DeviceInfo { vendor_id: 0x8086, device_id: 0x3E9B, name: "CoffeeLake_GT2", description: "CoffeeLake-H GT2 [UHD Graphics 630]" },
        36 => DeviceInfo { vendor_id: 0x1022, device_id: 0x7901, name: "FCH_SATA", description: "FCH SATA Controller [AHCI mode]" },
        37 => DeviceInfo { vendor_id: 0x1022, device_id: 0x7904, name: "FCH_SATA", description: "FCH SATA Controller [AHCI mode]" },
        38 => DeviceInfo { vendor_id: 0x1022, device_id: 0x1436, name: "Liverpool_HDMI", description: "Liverpool HDMI/DP Audio Controller" },
        39 => DeviceInfo { vendor_id: 0x1022, device_id: 0x157A, name: "FCH_HDA", description: "FCH Azalia Controller" },
        40 => DeviceInfo { vendor_id: 0x1022, device_id: 0x1457, name: "Carrizo_HDA", description: "Carrizo Audio Processor" },
        41 => DeviceInfo { vendor_id: 0x1022, device_id: 0x15E3, name: "Raven_HDA", description: "Raven/Raven2/Fenghuang HDMI/DP Audio Controller" },
        42 => DeviceInfo { vendor_id: 0x1002, device_id: 0x4391, name: "SB7x0_HDA", description: "SBx00 Azalia (Intel HDA)" },
        43 => DeviceInfo { vendor_id: 0x1002, device_id: 0x4383, name: "SBx00_AHCI", description: "SBx00 AHCI Controller" },
        44 => DeviceInfo { vendor_id: 0x1002, device_id: 0x439C, name: "SB7x0_IDE", description: "SB7x0/SB8x0/SB9x0 IDE Controller" },
        45 => DeviceInfo { vendor_id: 0x1002, device_id: 0x67DF, name: "Ellesmere", description: "Ellesmere [Radeon RX 470/480/570/570X/580/580X/590]" },
        46 => DeviceInfo { vendor_id: 0x1002, device_id: 0x6FDF, name: "Polaris20", description: "Polaris 20 XL [Radeon RX 580 2048SP]" },
        47 => DeviceInfo { vendor_id: 0x1002, device_id: 0x731F, name: "Navi10", description: "Navi 10 [Radeon RX 5600 OEM/5600 XT / 5700/5700 XT]" },
        48 => DeviceInfo { vendor_id: 0x1002, device_id: 0x73BF, name: "Navi21", description: "Navi 21 [Radeon RX 6800/6800 XT / 6900 XT]" },
        49 => DeviceInfo { vendor_id: 0x10DE, device_id: 0x0640, name: "G96", description: "G96C [GeForce 9500 GT]" },
        50 => DeviceInfo { vendor_id: 0x10DE, device_id: 0x06C4, name: "G84", description: "G84 [GeForce 8400 GS]" },
        51 => DeviceInfo { vendor_id: 0x10DE, device_id: 0x0E22, name: "GF104", description: "GF104 [GeForce GTX 460]" },
        52 => DeviceInfo { vendor_id: 0x10DE, device_id: 0x1180, name: "GK104", description: "GK104 [GeForce GTX 680]" },
        53 => DeviceInfo { vendor_id: 0x10DE, device_id: 0x1287, name: "GK208B", description: "GK208B [GeForce GT 730]" },
        54 => DeviceInfo { vendor_id: 0x10DE, device_id: 0x13C2, name: "GM204", description: "GM204 [GeForce GTX 970]" },
        55 => DeviceInfo { vendor_id: 0x10DE, device_id: 0x1B81, name: "GP104", description: "GP104 [GeForce GTX 1070]" },
        56 => DeviceInfo { vendor_id: 0x10DE, device_id: 0x1E04, name: "TU102", description: "TU102 [GeForce RTX 2080 Ti]" },
        57 => DeviceInfo { vendor_id: 0x10DE, device_id: 0x2204, name: "GA102", description: "GA102 [GeForce RTX 3090]" },
        58 => DeviceInfo { vendor_id: 0x10DE, device_id: 0x2484, name: "GA104", description: "GA104 [GeForce RTX 3070]" },
        59 => DeviceInfo { vendor_id: 0x10DE, device_id: 0x2782, name: "AD102", description: "AD102 [GeForce RTX 4090]" },
        60 => DeviceInfo { vendor_id: 0x14E4, device_id: 0x1677, name: "NetXtreme", description: "NetXtreme BCM5751 Gigabit Ethernet PCI Express" },
        61 => DeviceInfo { vendor_id: 0x14E4, device_id: 0x165F, name: "NetXtreme", description: "NetXtreme BCM5720 Gigabit Ethernet PCIe" },
        62 => DeviceInfo { vendor_id: 0x14E4, device_id: 0x4727, name: "BCM4313", description: "BCM4313 802.11bgn Wireless Network Adapter" },
        63 => DeviceInfo { vendor_id: 0x14E4, device_id: 0x4331, name: "BCM4331", description: "BCM4331 802.11a/b/g/n" },
        64 => DeviceInfo { vendor_id: 0x14E4, device_id: 0x43A0, name: "BCM4360", description: "BCM4360 802.11ac Wireless Network Adapter" },
        65 => DeviceInfo { vendor_id: 0x10EC, device_id: 0x8139, name: "RTL8139", description: "RTL-8100/8101L/8139 PCI Fast Ethernet Adapter" },
        66 => DeviceInfo { vendor_id: 0x10EC, device_id: 0x8168, name: "RTL8168", description: "RTL8111/8168/8411 PCI Express Gigabit Ethernet Controller" },
        67 => DeviceInfo { vendor_id: 0x10EC, device_id: 0x8169, name: "RTL8169", description: "RTL8169 PCI Gigabit Ethernet Controller" },
        68 => DeviceInfo { vendor_id: 0x10EC, device_id: 0x0129, name: "RTS5129", description: "RTS5129 PCI Express Card Reader" },
        69 => DeviceInfo { vendor_id: 0x10EC, device_id: 0x525A, name: "RTS525A", description: "RTS525A PCI Express Card Reader" },
        70 => DeviceInfo { vendor_id: 0x10EC, device_id: 0x0887, name: "RTL8887", description: "RTL8887 PCIe 802.11ac Wireless Network Adapter" },
        71 => DeviceInfo { vendor_id: 0x168C, device_id: 0x002A, name: "AR928X", description: "AR928X Wireless Network Adapter (PCI-Express)" },
        72 => DeviceInfo { vendor_id: 0x168C, device_id: 0x002B, name: "AR9285", description: "AR9285 Wireless Network Adapter (PCI-Express)" },
        73 => DeviceInfo { vendor_id: 0x168C, device_id: 0x0030, name: "AR93xx", description: "AR93xx Wireless Network Adapter" },
        74 => DeviceInfo { vendor_id: 0x168C, device_id: 0x0032, name: "AR9485", description: "AR9485 Wireless Network Adapter" },
        75 => DeviceInfo { vendor_id: 0x168C, device_id: 0x0034, name: "AR9462", description: "AR9462 Wireless Network Adapter" },
        76 => DeviceInfo { vendor_id: 0x1969, device_id: 0x1062, name: "AR8132", description: "AR8132 Fast Ethernet" },
        77 => DeviceInfo { vendor_id: 0x1969, device_id: 0x1063, name: "AR8131", description: "AR8131 Gigabit Ethernet" },
        78 => DeviceInfo { vendor_id: 0x1969, device_id: 0x1083, name: "AR8151", description: "AR8151 v2.0 Gigabit Ethernet" },
        79 => DeviceInfo { vendor_id: 0x8086, device_id: 0x7020, name: "PIIX3_USB", description: "82371SB PIIX3 USB [Natoma/Triton II]" },
        80 => DeviceInfo { vendor_id: 0x8086, device_id: 0x2658, name: "ICH6_USB", description: "82801FB/FBM/FR/FW/FRW (ICH6 Family) USB UHCI Controller" },
        81 => DeviceInfo { vendor_id: 0x8086, device_id: 0x27C8, name: "ICH7_USB", description: "NM10/ICH7 Family USB UHCI Controller #1" },
        82 => DeviceInfo { vendor_id: 0x8086, device_id: 0x2830, name: "ICH8_USB", description: "82801H (ICH8 Family) USB UHCI Controller #1" },
        83 => DeviceInfo { vendor_id: 0x8086, device_id: 0x293A, name: "ICH9_USB", description: "82801I (ICH9 Family) USB UHCI Controller #5" },
        84 => DeviceInfo { vendor_id: 0x8086, device_id: 0x3A37, name: "ICH10_USB", description: "82801JI (ICH10 Family) USB UHCI Controller #1" },
        85 => DeviceInfo { vendor_id: 0x8086, device_id: 0x1C26, name: "6_Series_USB", description: "6 Series/C200 Series Chipset Family USB Enhanced Host Controller #1" },
        86 => DeviceInfo { vendor_id: 0x8086, device_id: 0x1E26, name: "7_Series_USB", description: "7 Series/C216 Chipset Family USB Enhanced Host Controller #1" },
        87 => DeviceInfo { vendor_id: 0x8086, device_id: 0x8C26, name: "8_Series_USB", description: "8 Series/C220 Series Chipset Family USB EHCI #1" },
        88 => DeviceInfo { vendor_id: 0x8086, device_id: 0x9C26, name: "8_Series_LP_USB", description: "8 Series USB EHCI #1" },
        89 => DeviceInfo { vendor_id: 0x8086, device_id: 0x8C31, name: "8_Series_xHCI", description: "8 Series/C220 Series Chipset Family USB xHCI" },
        90 => DeviceInfo { vendor_id: 0x8086, device_id: 0x9C31, name: "8_Series_LP_xHCI", description: "8 Series USB xHCI HC" },
        91 => DeviceInfo { vendor_id: 0x1AF4, device_id: 0x1000, name: "VirtIO_Network", description: "Virtio network device" },
        92 => DeviceInfo { vendor_id: 0x1AF4, device_id: 0x1001, name: "VirtIO_Block", description: "Virtio block device" },
        93 => DeviceInfo { vendor_id: 0x1AF4, device_id: 0x1002, name: "VirtIO_Balloon", description: "Virtio memory balloon" },
        94 => DeviceInfo { vendor_id: 0x1AF4, device_id: 0x1003, name: "VirtIO_Console", description: "Virtio console" },
        95 => DeviceInfo { vendor_id: 0x1AF4, device_id: 0x1004, name: "VirtIO_SCSI", description: "Virtio SCSI" },
        96 => DeviceInfo { vendor_id: 0x1AF4, device_id: 0x1005, name: "VirtIO_RNG", description: "Virtio RNG" },
        97 => DeviceInfo { vendor_id: 0x1AF4, device_id: 0x1009, name: "VirtIO_9P", description: "Virtio filesystem" },
        98 => DeviceInfo { vendor_id: 0x15AD, device_id: 0x0405, name: "VMXNET3", description: "VMXNET3 Ethernet Controller" },
        99 => DeviceInfo { vendor_id: 0x15AD, device_id: 0x0770, name: "SVGA_II", description: "SVGA II Adapter" },
        100 => DeviceInfo { vendor_id: 0x15AD, device_id: 0x0790, name: "PCI_Bridge", description: "PCI bridge" },
        101 => DeviceInfo { vendor_id: 0x15AD, device_id: 0x07A0, name: "PCI_Express", description: "PCI Express Root Port" },
        102 => DeviceInfo { vendor_id: 0x80EE, device_id: 0xBEEF, name: "VBox_Graphics", description: "VirtualBox Graphics Adapter" },
        103 => DeviceInfo { vendor_id: 0x80EE, device_id: 0xCAFE, name: "VBox_Guest", description: "VirtualBox Guest Service" },
        104 => DeviceInfo { vendor_id: 0x1414, device_id: 0x5353, name: "HyperV_Storage", description: "Hyper-V virtual storage" },
        105 => DeviceInfo { vendor_id: 0x1414, device_id: 0x5363, name: "HyperV_SCSI", description: "Hyper-V virtual SCSI controller" },
        106 => DeviceInfo { vendor_id: 0x106B, device_id: 0x003F, name: "KeyLargo", description: "KeyLargo Mac I/O" },
        107 => DeviceInfo { vendor_id: 0x106B, device_id: 0x0041, name: "K2_KeyLargo", description: "K2 KeyLargo Mac/IO" },
        108 => DeviceInfo { vendor_id: 0x8086, device_id: 0x244E, name: "ICH_LPC", description: "82801 LPC Interface Controller" },
        109 => DeviceInfo { vendor_id: 0x8086, device_id: 0x2448, name: "ICH_P2P", description: "82801 Mobile PCI Bridge" },
        110 => DeviceInfo { vendor_id: 0x1106, device_id: 0x3038, name: "VT82xx_USB", description: "VT82xx USB UHCI Controller" },
        111 => DeviceInfo { vendor_id: 0x1106, device_id: 0x3104, name: "VT8204", description: "VT8204 [K8T800 Pro] Host Bridge" },
        112 => DeviceInfo { vendor_id: 0x1B21, device_id: 0x0612, name: "ASM1062", description: "ASM1062 Serial ATA Controller" },
        113 => DeviceInfo { vendor_id: 0x197B, device_id: 0x2363, name: "JMB363", description: "JMB363 SATA/IDE Controller" },
        114 => DeviceInfo { vendor_id: 0x1033, device_id: 0x0194, name: "uPD720200", description: "uPD720200 USB 3.0 Host Controller" },
        115 => DeviceInfo { vendor_id: 0x8086, device_id: 0x4222, name: "PRO_Wireless", description: "PRO/Wireless 3945ABG [Golan] Network Connection" },
        116 => DeviceInfo { vendor_id: 0x8086, device_id: 0x4229, name: "PRO_Wireless", description: "PRO/Wireless 4965 AG or AGN [Kedron] Network Connection" },
        117 => DeviceInfo { vendor_id: 0x8086, device_id: 0x4232, name: "WiFi_Link", description: "WiFi Link 5100" },
        118 => DeviceInfo { vendor_id: 0x8086, device_id: 0x4237, name: "WiFi_Link", description: "WiFi Link 5100" },
        119 => DeviceInfo { vendor_id: 0x8086, device_id: 0x08B1, name: "Wireless_7260", description: "Wireless 7260" },
        120 => DeviceInfo { vendor_id: 0x8086, device_id: 0x08B2, name: "Wireless_7260", description: "Wireless 7260" },
        121 => DeviceInfo { vendor_id: 0x8086, device_id: 0x095A, name: "Wireless_7265", description: "Wireless 7265" },
        122 => DeviceInfo { vendor_id: 0x8086, device_id: 0x095B, name: "Wireless_7265", description: "Wireless 7265" },
        123 => DeviceInfo { vendor_id: 0x8086, device_id: 0x2E20, name: "4_Series_HDA", description: "4 Series Chipset High Definition Audio Controller" },
        124 => DeviceInfo { vendor_id: 0x8086, device_id: 0x1C22, name: "6_Series_MEI", description: "6 Series/C200 Series Chipset Family MEI Controller #1" },
        125 => DeviceInfo { vendor_id: 0x1180, device_id: 0x0822, name: "R5C822", description: "R5C822 SD/SDIO/MMC/MS/MSPro Host Adapter" },
        126 => DeviceInfo { vendor_id: 0x104C, device_id: 0x803B, name: "PCIxx12", description: "PCIxx12 Cardbus Controller" },
        127 => DeviceInfo { vendor_id: 0x1217, device_id: 0x8221, name: "OZ600FJ0", description: "OZ600FJ0/OZ900FJ0/OZ600FJS SD/MMC Cardreader Controller" },
        128 => DeviceInfo { vendor_id: 0x8086, device_id: 0x10D3, name: "82574L", description: "82574L Gigabit Network Connection" },
        129 => DeviceInfo { vendor_id: 0x8086, device_id: 0x10EA, name: "82577LM", description: "82577LM Gigabit Network Connection" },
        130 => DeviceInfo { vendor_id: 0x8086, device_id: 0x10EB, name: "82577LC", description: "82577LC Gigabit Network Connection" },
        131 => DeviceInfo { vendor_id: 0x8086, device_id: 0x10EF, name: "82578DM", description: "82578DM Gigabit Network Connection" },
        132 => DeviceInfo { vendor_id: 0x8086, device_id: 0x10F0, name: "82578DC", description: "82578DC Gigabit Network Connection" },
        133 => DeviceInfo { vendor_id: 0x8086, device_id: 0x1533, name: "I210", description: "I210 Gigabit Network Connection" },
        134 => DeviceInfo { vendor_id: 0x8086, device_id: 0x1539, name: "I211", description: "I211 Gigabit Network Connection" },
        135 => DeviceInfo { vendor_id: 0x8086, device_id: 0x1521, name: "I350", description: "I350 Gigabit Network Connection" },
        136 => DeviceInfo { vendor_id: 0x8086, device_id: 0x10FB, name: "82599ES", description: "82599ES 10-Gigabit SFI/SFP+ Network Connection" },
        137 => DeviceInfo { vendor_id: 0x8086, device_id: 0x1572, name: "X710", description: "Ethernet Controller X710 for 10GbE SFP+" },
        138 => DeviceInfo { vendor_id: 0x8086, device_id: 0x15B7, name: "I219-LM_2", description: "Ethernet Connection (2) I219-LM" },
        139 => DeviceInfo { vendor_id: 0x8086, device_id: 0x15B8, name: "I219-V_2", description: "Ethernet Connection (2) I219-V" },
        140 => DeviceInfo { vendor_id: 0x8086, device_id: 0x2918, name: "ICH9_LPC", description: "82801IB (ICH9) LPC Interface Controller" },
        141 => DeviceInfo { vendor_id: 0x8086, device_id: 0x2930, name: "ICH9_SMBus", description: "82801I (ICH9 Family) SMBus Controller" },
        142 => DeviceInfo { vendor_id: 0x8086, device_id: 0x2934, name: "ICH9_UHCI", description: "82801I (ICH9 Family) USB UHCI Controller #1" },
        143 => DeviceInfo { vendor_id: 0x8086, device_id: 0x29C0, name: "G33_DRAM", description: "82G33/G31/P35/P31 Express DRAM Controller" },
        144 => DeviceInfo { vendor_id: 0x8086, device_id: 0x3B34, name: "5_Series_EHCI", description: "5 Series/3400 Series Chipset USB2 Enhanced Host Controller" },
        145 => DeviceInfo { vendor_id: 0x8086, device_id: 0x3B56, name: "5_Series_HDA", description: "5 Series/3400 Series Chipset High Definition Audio" },
        146 => DeviceInfo { vendor_id: 0x8086, device_id: 0x1C02, name: "6_Series_AHCI", description: "6 Series/C200 Series Chipset Family 6 port Desktop SATA AHCI Controller" },
        147 => DeviceInfo { vendor_id: 0x8086, device_id: 0x1E31, name: "7_Series_xHCI", description: "7 Series/C210 Series Chipset Family USB xHCI Host Controller" },
        148 => DeviceInfo { vendor_id: 0x8086, device_id: 0xA12F, name: "100_Series_xHCI", description: "100 Series/C230 Series Chipset Family USB 3.0 xHCI Controller" },
        149 => DeviceInfo { vendor_id: 0x8086, device_id: 0xA102, name: "100_Series_AHCI", description: "Q170/Q150/B150/H170/H110/Z170/CM236 Chipset SATA Controller [AHCI Mode]" },
        150 => DeviceInfo { vendor_id: 0x8086, device_id: 0xA170, name: "100_Series_HDA", description: "100 Series/C230 Series Chipset Family HD Audio Controller" },
        151 => DeviceInfo { vendor_id: 0x8086, device_id: 0xA2AF, name: "200_Series_xHCI", description: "200 Series/Z370 Chipset Family USB 3.0 xHCI Controller" },
        152 => DeviceInfo { vendor_id: 0x8086, device_id: 0xA36D, name: "CannonLake_xHCI", description: "Cannon Lake PCH USB 3.1 xHCI Host Controller" },
        153 => DeviceInfo { vendor_id: 0x8086, device_id: 0x0152, name: "IvyBridge_GT1", description: "Xeon E3-1200 v2/3rd Gen Core processor Graphics Controller" },
        154 => DeviceInfo { vendor_id: 0x8086, device_id: 0x0162, name: "IvyBridge_GT2", description: "Xeon E3-1200 v2/3rd Gen Core processor Graphics Controller" },
        155 => DeviceInfo { vendor_id: 0x8086, device_id: 0x0102, name: "SandyBridge_GT1", description: "2nd Generation Core Processor Family Integrated Graphics Controller" },
        156 => DeviceInfo { vendor_id: 0x8086, device_id: 0x1912, name: "Skylake_GT2", description: "HD Graphics 530" },
        157 => DeviceInfo { vendor_id: 0x8086, device_id: 0x5912, name: "KabyLake_GT2", description: "HD Graphics 630" },
        158 => DeviceInfo { vendor_id: 0x8086, device_id: 0x3E92, name: "CoffeeLake_GT2", description: "CoffeeLake-S GT2 [UHD Graphics 630]" },
        159 => DeviceInfo { vendor_id: 0x8086, device_id: 0x24FD, name: "Wireless_8265", description: "Wireless 8265 / 8275" },
        160 => DeviceInfo { vendor_id: 0x8086, device_id: 0x2723, name: "WiFi6_AX200", description: "Wi-Fi 6 AX200" },
        161 => DeviceInfo { vendor_id: 0x8086, device_id: 0x2526, name: "Wireless_9260", description: "Wireless-AC 9260" },
        162 => DeviceInfo { vendor_id: 0x8086, device_id: 0x0085, name: "Centrino_6205", description: "Centrino Advanced-N 6205 [Taylor Peak]" },
        163 => DeviceInfo { vendor_id: 0x8086, device_id: 0x0953, name: "DC_P3700", description: "PCIe Data Center SSD" },
        164 => DeviceInfo { vendor_id: 0x8086, device_id: 0xF1A5, name: "SSD_600P", description: "SSD 600P Series" },
        165 => DeviceInfo { vendor_id: 0x1022, device_id: 0x1480, name: "Starship_RC", description: "Starship/Matisse Root Complex" },
        166 => DeviceInfo { vendor_id: 0x1022, device_id: 0x149C, name: "Matisse_USB", description: "Matisse USB 3.0 Host Controller" },
        167 => DeviceInfo { vendor_id: 0x1022, device_id: 0x790B, name: "FCH_SMBus", description: "FCH SMBus Controller" },
        168 => DeviceInfo { vendor_id: 0x1022, device_id: 0x43EE, name: "500_Series_xHCI", description: "500 Series Chipset USB 3.1 XHCI Controller" },
        169 => DeviceInfo { vendor_id: 0x1022, device_id: 0x2000, name: "PCnet32", description: "79c970 [PCnet32 LANCE]" },
        170 => DeviceInfo { vendor_id: 0x1002, device_id: 0x15D8, name: "Picasso", description: "Picasso/Raven 2 [Radeon Vega Series / Radeon Vega Mobile Series]" },
        171 => DeviceInfo { vendor_id: 0x1002, device_id: 0x1638, name: "Cezanne", description: "Cezanne [Radeon Vega Series / Radeon Vega Mobile Series]" },
        172 => DeviceInfo { vendor_id: 0x1002, device_id: 0xAAF0, name: "Ellesmere_HDMI", description: "Ellesmere HDMI Audio [Radeon RX 470/480 / 570/580/590]" },
        173 => DeviceInfo { vendor_id: 0x10DE, device_id: 0x1B80, name: "GP104", description: "GP104 [GeForce GTX 1080]" },
        174 => DeviceInfo { vendor_id: 0x10DE, device_id: 0x1C82, name: "GP107", description: "GP107 [GeForce GTX 1050 Ti]" },
        175 => DeviceInfo { vendor_id: 0x10DE, device_id: 0x1E87, name: "TU104", description: "TU104 [GeForce RTX 2080 Rev. A]" },
        176 => DeviceInfo { vendor_id: 0x10DE, device_id: 0x2206, name: "GA102_3080", description: "GA102 [GeForce RTX 3080]" },
        177 => DeviceInfo { vendor_id: 0x10DE, device_id: 0x10F0, name: "GP104_HDA", description: "GP104 High Definition Audio Controller" },
        178 => DeviceInfo { vendor_id: 0x10DE, device_id: 0x0FB9, name: "GP107_HDA", description: "GP107GL High Definition Audio Controller" },
        179 => DeviceInfo { vendor_id: 0x10EC, device_id: 0x8125, name: "RTL8125", description: "RTL8125 2.5GbE Controller" },
        180 => DeviceInfo { vendor_id: 0x10EC, device_id: 0xC821, name: "RTL8821CE", description: "RTL8821CE 802.11ac PCIe Wireless Network Adapter" },
        181 => DeviceInfo { vendor_id: 0x10EC, device_id: 0x5229, name: "RTS5229", description: "RTS5229 PCI Express Card Reader" },
        182 => DeviceInfo { vendor_id: 0x168C, device_id: 0x003E, name: "QCA6174", description: "QCA6174 802.11ac Wireless Network Adapter" },
        183 => DeviceInfo { vendor_id: 0x168C, device_id: 0x0042, name: "QCA9377", description: "QCA9377 802.11ac Wireless Network Adapter" },
        184 => DeviceInfo { vendor_id: 0x1106, device_id: 0x3065, name: "VT6102", description: "VT6102/VT6103 [Rhine-II]" },
        185 => DeviceInfo { vendor_id: 0x1106, device_id: 0x0571, name: "VT82C586_IDE", description: "VT82C586A/B/VT82C686/A/B/VT823x/A/C PIPC Bus Master IDE" },
        186 => DeviceInfo { vendor_id: 0x1B21, device_id: 0x1242, name: "ASM1142", description: "ASM1142 USB 3.1 Host Controller" },
        187 => DeviceInfo { vendor_id: 0x15AD, device_id: 0x0740, name: "VMCI", description: "Virtual Machine Communication Interface" },
        188 => DeviceInfo { vendor_id: 0x15AD, device_id: 0x07C0, name: "PVSCSI", description: "PVSCSI SCSI Controller" },
        189 => DeviceInfo { vendor_id: 0x1AF4, device_id: 0x1041, name: "VirtIO_Net_1.0", description: "Virtio 1.0 network device" },
        190 => DeviceInfo { vendor_id: 0x1AF4, device_id: 0x1042, name: "VirtIO_Block_1.0", description: "Virtio 1.0 block device" },
        191 => DeviceInfo { vendor_id: 0x1AF4, device_id: 0x1050, name: "VirtIO_GPU", description: "Virtio 1.0 GPU" },
        192 => DeviceInfo { vendor_id: 0x1B4B, device_id: 0x9230, name: "88SE9230", description: "88SE9230 PCIe SATA 6Gb/s Controller" },
        193 => DeviceInfo { vendor_id: 0x15B3, device_id: 0x1013, name: "ConnectX-4", description: "MT27700 Family [ConnectX-4]" },
        194 => DeviceInfo { vendor_id: 0x15B3, device_id: 0x1015, name: "ConnectX-4_Lx", description: "MT27710 Family [ConnectX-4 Lx]" },
        195 => DeviceInfo { vendor_id: 0x8086, device_id: 0x27CC, name: "ICH7_EHCI", description: "NM10/ICH7 Family USB2 EHCI Controller" },
        196 => DeviceInfo { vendor_id: 0x8086, device_id: 0x27C1, name: "ICH7_AHCI", description: "NM10/ICH7 Family SATA Controller [AHCI mode]" },
        197 => DeviceInfo { vendor_id: 0x8086, device_id: 0x24CD, name: "ICH4_EHCI", description: "82801DB/DBM (ICH4/ICH4-M) USB2 EHCI Controller" },
        198 => DeviceInfo { vendor_id: 0x8086, device_id: 0x3B64, name: "5_Series_HECI", description: "5 Series/3400 Series Chipset HECI Controller" },
        199 => DeviceInfo { vendor_id: 0x8086, device_id: 0x1E3A, name: "7_Series_MEI", description: "7 Series/C216 Chipset Family MEI Controller #1" },
        200 => DeviceInfo { vendor_id: 0x8086, device_id: 0x9D2F, name: "Sunrise_Point_xHCI", description: "Sunrise Point-LP USB 3.0 xHCI Controller" },
        201 => DeviceInfo { vendor_id: 0x8086, device_id: 0x9D71, name: "Sunrise_Point_HDA", description: "Sunrise Point-LP HD Audio" },
        202 => DeviceInfo { vendor_id: 0x8086, device_id: 0x06ED, name: "CometLake_xHCI", description: "Comet Lake USB 3.1 xHCI Host Controller" },
        203 => DeviceInfo { vendor_id: 0x8086, device_id: 0x43ED, name: "TigerLake_H_xHCI", description: "Tiger Lake-H USB 3.2 Gen 2x1 xHCI Host Controller" },
        204 => DeviceInfo { vendor_id: 0x8086, device_id: 0x9A49, name: "TigerLake_GT2", description: "TigerLake-LP GT2 [Iris Xe Graphics]" },
        205 => DeviceInfo { vendor_id: 0x8086, device_id: 0x46A6, name: "AlderLake_GT2", description: "Alder Lake-P GT2 [Iris Xe Graphics]" },
        206 => DeviceInfo { vendor_id: 0x8086, device_id: 0x15F3, name: "I225-V", description: "Ethernet Controller I225-V" },
        207 => DeviceInfo { vendor_id: 0x8086, device_id: 0x125C, name: "I226-V", description: "Ethernet Controller I226-V" },
        208 => DeviceInfo { vendor_id: 0x10DE, device_id: 0x2786, name: "AD104", description: "AD104 [GeForce RTX 4070]" },
        209 => DeviceInfo { vendor_id: 0x10DE, device_id: 0x2684, name: "AD102", description: "AD102 [GeForce RTX 4090]" },
        210 => DeviceInfo { vendor_id: 0x10DE, device_id: 0x1F08, name: "TU106", description: "TU106 [GeForce RTX 2060 Rev. A]" },
        211 => DeviceInfo { vendor_id: 0x1002, device_id: 0x744C, name: "Navi31", description: "Navi 31 [Radeon RX 7900 XT/7900 XTX]" },
        212 => DeviceInfo { vendor_id: 0x1002, device_id: 0x164E, name: "Raphael", description: "Raphael" },
        213 => DeviceInfo { vendor_id: 0x1022, device_id: 0x14DA, name: "Raphael_RC", description: "Raphael/Granite Ridge Root Complex" },
        214 => DeviceInfo { vendor_id: 0x1AF4, device_id: 0x1043, name: "VirtIO_Console_1.0", description: "Virtio 1.0 console" },
        215 => DeviceInfo { vendor_id: 0x1AF4, device_id: 0x1044, name: "VirtIO_RNG_1.0", description: "Virtio 1.0 RNG" },
        _ => DeviceInfo { vendor_id: 0x1AF4, device_id: 0x1048, name: "VirtIO_SCSI_1.0", description: "Virtio 1.0 SCSI" },
    }
}

/// The vendor table, in order.
pub open spec fn vendors() -> Seq<VendorInfo> {
    Seq::new(VENDOR_COUNT as nat, |i: int| vendor_entry(i as usize))
}

/// The device table, in order.
pub open spec fn devices() -> Seq<DeviceInfo> {
    Seq::new(DEVICE_COUNT as nat, |i: int| device_entry(i as usize))
}

/// Entry `i` of the vendor table.
pub fn vendor_at(i: usize) -> (r: VendorInfo)
    requires
        i < VENDOR_COUNT,
    ensures
        r == vendors()[i as int],
{
    match i {
        0 => VendorInfo { id: 0x8086, name: "Intel Corporation", short_name: "Intel" },
        1 => VendorInfo { id: 0x1022, name: "Advanced Micro Devices, Inc. [AMD]", short_name: "AMD" },
        2 => VendorInfo { id: 0x10DE, name: "NVIDIA Corporation", short_name: "NVIDIA" },
        3 => VendorInfo { id: 0x1002, name: "Advanced Micro Devices, Inc. [AMD/ATI]", short_name: "AMD/ATI" },
        4 => VendorInfo { id: 0x14E4, name: "Broadcom Inc. and subsidiaries", short_name: "Broadcom" },
        5 => VendorInfo { id: 0x8087, name: "Intel Corporation", short_name: "Intel" },
        6 => VendorInfo { id: 0x1106, name: "VIA Technologies, Inc.", short_name: "VIA" },
        7 => VendorInfo { id: 0x10EC, name: "Realtek Semiconductor Co., Ltd.", short_name: "Realtek" },
        8 => VendorInfo { id: 0x1969, name: "Qualcomm Atheros", short_name: "Atheros" },
        9 => VendorInfo { id: 0x168C, name: "Qualcomm Atheros", short_name: "Atheros" },
        10 => VendorInfo { id: 0x1B21, name: "ASMedia Technology Inc.", short_name: "ASMedia" },
        11 => VendorInfo { id: 0x197B, name: "JMicron Technology Corp.", short_name: "JMicron" },
        12 => VendorInfo { id: 0x1033, name: "NEC Corporation", short_name: "NEC" },
        13 => VendorInfo { id: 0x1912, name: "Renesas Technology Corp.", short_name: "Renesas" },
        14 => VendorInfo { id: 0x1180, name: "Ricoh Co Ltd", short_name: "Ricoh" },
        15 => VendorInfo { id: 0x104C, name: "Texas Instruments", short_name: "TI" },
        16 => VendorInfo { id: 0x1217, name: "O2 Micro, Inc.", short_name: "O2Micro" },
        17 => VendorInfo { id: 0x1524, name: "ENE Technology Inc", short_name: "ENE" },
        18 => VendorInfo { id: 0x11AB, name: "Marvell Technology Group Ltd.", short_name: "Marvell" },
        19 => VendorInfo { id: 0x15B3, name: "Mellanox Technologies", short_name: "Mellanox" },
        20 => VendorInfo { id: 0x1912, name: "Renesas Technology Corp.", short_name: "Renesas" },
        21 => VendorInfo { id: 0x1B4B, name: "Marvell Technology Group Ltd.", short_name: "Marvell" },
        22 => VendorInfo { id: 0x1D6B, name: "Linux Foundation", short_name: "Linux" },
        23 => VendorInfo { id: 0x15AD, name: "VMware", short_name: "VMware" },
        24 => VendorInfo { id: 0x1AF4, name: "Red Hat, Inc.", short_name: "RedHat" },
        25 => VendorInfo { id: 0x1234, name: "Technical Corp.", short_name: "Technical" },
        26 => VendorInfo { id: 0x80EE, name: "InnoTek Systemberatung GmbH", short_name: "VirtualBox" },
        27 => VendorInfo { id: 0x5853, name: "XenSource, Inc.", short_name: "Xen" },
        28 => VendorInfo { id: 0x1414, name: "Microsoft Corporation", short_name: "Microsoft" },
        _ => VendorInfo { id: 0x106B, name: "Apple Inc.", short_name: "Apple" },
    }
}

/// Entry `i` of the device table.
pub fn device_at(i: usize) -> (r: DeviceInfo)
    requires
        i < DEVICE_COUNT,
    ensures
        r == devices()[i as int],
{
    match i {
        0 => DeviceInfo { vendor_id: 0x8086, device_id: 0x1237, name: "440FX", description: "82441FX Pentium(R) Pro Processor to PCI Bridge" },
        1 => DeviceInfo { vendor_id: 0x8086, device_id: 0x7000, name: "PIIX3", description: "82371SB PIIX3 ISA [Natoma/Triton II]" },
        2 => DeviceInfo { vendor_id: 0x8086, device_id: 0x7010, name: "PIIX3_IDE", description: "82371SB PIIX3 IDE [Natoma/Triton II]" },
        3 => DeviceInfo { vendor_id: 0x8086, device_id: 0x7113, name: "PIIX4_PM", description: "82371AB/EB/MB PIIX4 ACPI" },
        4 => DeviceInfo { vendor_id: 0x8086, device_id: 0x100E, name: "82540EM", description: "82540EM Gigabit Ethernet Controller" },
        5 => DeviceInfo { vendor_id: 0x8086, device_id: 0x100F, name: "82545EM", description: "82545EM Gigabit Ethernet Controller (Copper)" },
        6 => DeviceInfo { vendor_id: 0x8086, device_id: 0x1502, name: "82579LM", description: "82579LM Gigabit Network Connection" },
        7 => DeviceInfo { vendor_id: 0x8086, device_id: 0x1503, name: "82579V", description: "82579V Gigabit Network Connection" },
        8 => DeviceInfo { vendor_id: 0x8086, device_id: 0x153A, name: "I217-LM", description: "Ethernet Connection I217-LM" },
        9 => DeviceInfo { vendor_id: 0x8086, device_id: 0x153B, name: "I217-V", description: "Ethernet Connection I217-V" },
        10 => DeviceInfo { vendor_id: 0x8086, device_id: 0x15A1, name: "I218-LM", description: "Ethernet Connection I218-LM" },
        11 => DeviceInfo { vendor_id: 0x8086, device_id: 0x15A2, name: "I218-V", description: "Ethernet Connection I218-V" },
        12 => DeviceInfo { vendor_id: 0x8086, device_id: 0x2922, name: "ICH9_AHCI", description: "82801IB (ICH9) 6 ports SATA Controller [AHCI mode]" },
        13 => DeviceInfo { vendor_id: 0x8086, device_id: 0x2829, name: "ICH8M_AHCI", description: "82801HBM/HEM (ICH8M/ICH8M-E) SATA Controller [AHCI mode]" },
        14 => DeviceInfo { vendor_id: 0x8086, device_id: 0x3A22, name: "ICH10_AHCI", description: "82801JI (ICH10 Family) SATA AHCI Controller" },
        15 => DeviceInfo { vendor_id: 0x8086, device_id: 0x1E03, name: "7_Series_AHCI", description: "7 Series Chipset Family 6-port SATA Controller [AHCI mode]" },
        16 => DeviceInfo { vendor_id: 0x8086, device_id: 0x8C02, name: "8_Series_AHCI", description: "8 Series/C220 Series Chipset Family 6-port SATA Controller 1 [AHCI mode]" },
        17 => DeviceInfo { vendor_id: 0x8086, device_id: 0x9C03, name: "8_Series_LP_AHCI", description: "8 Series Chipset Family 4-port SATA Controller 1 [IDE mode]" },
        18 => DeviceInfo { vendor_id: 0x8086, device_id: 0x0F23, name: "ValleyView_AHCI", description: "Atom Processor E3800 Series SATA AHCI Controller" },
        19 => DeviceInfo { vendor_id: 0x8086, device_id: 0x22A3, name: "Braswell_AHCI", description: "Atom/Celeron/Pentium Processor x5-E8000/J3xxx/N3xxx Series SATA Controller" },
        20 => DeviceInfo { vendor_id: 0x8086, device_id: 0x2668, name: "ICH6_AC97", description: "82801FB/FBM/FR/FW/FRW (ICH6 Family) AC'97 Audio Controller" },
        21 => DeviceInfo { vendor_id: 0x8086, device_id: 0x27D8, name: "ICH7_HDA", description: "82801G (ICH7 Family) High Definition Audio Controller" },
        22 => DeviceInfo { vendor_id: 0x8086, device_id: 0x284B, name: "ICH8_HDA", description: "82801H (ICH8 Family) HD Audio Controller" },
        23 => DeviceInfo { vendor_id: 0x8086, device_id: 0x293E, name: "ICH9_HDA", description: "82801I (ICH9 Family) HD Audio Controller" },
        24 => DeviceInfo { vendor_id: 0x8086, device_id: 0x3A3E, name: "ICH10_HDA", description: "82801JI (ICH10 Family) HD Audio Controller" },
        25 => DeviceInfo { vendor_id: 0x8086, device_id: 0x1C20, name: "6_Series_HDA", description: "6 Series/C200 Series Chipset Family High Definition Audio Controller" },
        26 => DeviceInfo { vendor_id: 0x8086, device_id: 0x1E20, name: "7_Series_HDA", description: "7 Series/C216 Chipset Family High Definition Audio Controller" },
        27 => DeviceInfo { vendor_id: 0x8086, device_id: 0x8C20, name: "8_Series_HDA", description: "8 Series/C220 Series Chipset High Definition Audio Controller" },
        28 => DeviceInfo { vendor_id: 0x8086, device_id: 0x9C20, name: "8_Series_LP_HDA", description: "8 Series HD Audio Controller" },
        29 => DeviceInfo { vendor_id: 0x8086, device_id: 0x0166, name: "IvyBridge_GT2", description: "3rd Gen Core processor Graphics Controller" },
        30 => DeviceInfo { vendor_id: 0x8086, device_id: 0x0416, name: "Haswell_GT2", description: "4th Gen Core Processor Integrated Graphics Controller" },
        31 => DeviceInfo { vendor_id: 0x8086, device_id: 0x1616, name: "Broadwell_GT2", description: "HD Graphics 5500" },
        32 => DeviceInfo { vendor_id: 0x8086, device_id: 0x1916, name: "Skylake_GT2", description: "Skylake GT2 [HD Graphics 520]" },
        33 => DeviceInfo { vendor_id: 0x8086, device_id: 0x5916, name: "KabyLake_GT2", description: "HD Graphics 620" },
        34 => DeviceInfo { vendor_id: 0x8086, device_id: 0x5A85, name: "Apollolake_HD", description: "HD Graphics 500" },
        35 => DeviceInfo { vendor_id: 0x8086, device_id: 0x3E9B, name: "CoffeeLake_GT2", description: "CoffeeLake-H GT2 [UHD Graphics 630]" },
        36 => DeviceInfo { vendor_id: 0x1022, device_id: 0x7901, name: "FCH_SATA", description: "FCH SATA Controller [AHCI mode]" },
        37 => DeviceInfo { vendor_id: 0x1022, device_id: 0x7904, name: "FCH_SATA", description: "FCH SATA Controller [AHCI mode]" },
        38 => DeviceInfo { vendor_id: 0x1022, device_id: 0x1436, name: "Liverpool_HDMI", description: "Liverpool HDMI/DP Audio Controller" },
        39 => DeviceInfo { vendor_id: 0x1022, device_id: 0x157A, name: "FCH_HDA", description: "FCH Azalia Controller" },
        40 => DeviceInfo { vendor_id: 0x1022, device_id: 0x1457, name: "Carrizo_HDA", description: "Carrizo Audio Processor" },
        41 => DeviceInfo { vendor_id: 0x1022, device_id: 0x15E3, name: "Raven_HDA", description: "Raven/Raven2/Fenghuang HDMI/DP Audio Controller" },
        42 => DeviceInfo { vendor_id: 0x1002, device_id: 0x4391, name: "SB7x0_HDA", description: "SBx00 Azalia (Intel HDA)" },
        43 => DeviceInfo { vendor_id: 0x1002, device_id: 0x4383, name: "SBx00_AHCI", description: "SBx00 AHCI Controller" },
        44 => DeviceInfo { vendor_id: 0x1002, device_id: 0x439C, name: "SB7x0_IDE", description: "SB7x0/SB8x0/SB9x0 IDE Controller" },
        45 => DeviceInfo { vendor_id: 0x1002, device_id: 0x67DF, name: "Ellesmere", description: "Ellesmere [Radeon RX 470/480/570/570X/580/580X/590]" },
        46 => DeviceInfo { vendor_id: 0x1002, device_id: 0x6FDF, name: "Polaris20", description: "Polaris 20 XL [Radeon RX 580 2048SP]" },
        47 => DeviceInfo { vendor_id: 0x1002, device_id: 0x731F, name: "Navi10", description: "Navi 10 [Radeon RX 5600 OEM/5600 XT / 5700/5700 XT]" },
        48 => DeviceInfo { vendor_id: 0x1002, device_id: 0x73BF, name: "Navi21", description: "Navi 21 [Radeon RX 6800/6800 XT / 6900 XT]" },
        49 => DeviceInfo { vendor_id: 0x10DE, device_id: 0x0640, name: "G96", description: "G96C [GeForce 9500 GT]" },
        50 => DeviceInfo { vendor_id: 0x10DE, device_id: 0x06C4, name: "G84", description: "G84 [GeForce 8400 GS]" },
        51 => DeviceInfo { vendor_id: 0x10DE, device_id: 0x0E22, name: "GF104", description: "GF104 [GeForce GTX 460]" },
        52 => DeviceInfo { vendor_id: 0x10DE, device_id: 0x1180, name: "GK104", description: "GK104 [GeForce GTX 680]" },
        53 => DeviceInfo { vendor_id: 0x10DE, device_id: 0x1287, name: "GK208B", description: "GK208B [GeForce GT 730]" },
        54 => DeviceInfo { vendor_id: 0x10DE, device_id: 0x13C2, name: "GM204", description: "GM204 [GeForce GTX 970]" },
        55 => DeviceInfo { vendor_id: 0x10DE, device_id: 0x1B81, name: "GP104", description: "GP104 [GeForce GTX 1070]" },
        56 => DeviceInfo { vendor_id: 0x10DE, device_id: 0x1E04, name: "TU102", description: "TU102 [GeForce RTX 2080 Ti]" },
        57 => DeviceInfo { vendor_id: 0x10DE, device_id: 0x2204, name: "GA102", description: "GA102 [GeForce RTX 3090]" },
        58 => DeviceInfo { vendor_id: 0x10DE, device_id: 0x2484, name: "GA104", description: "GA104 [GeForce RTX 3070]" },
        59 => DeviceInfo { vendor_id: 0x10DE, device_id: 0x2782, name: "AD102", description: "AD102 [GeForce RTX 4090]" },
        60 => DeviceInfo { vendor_id: 0x14E4, device_id: 0x1677, name: "NetXtreme", description: "NetXtreme BCM5751 Gigabit Ethernet PCI Express" },
        61 => DeviceInfo { vendor_id: 0x14E4, device_id: 0x165F, name: "NetXtreme", description: "NetXtreme BCM5720 Gigabit Ethernet PCIe" },
        62 => DeviceInfo { vendor_id: 0x14E4, device_id: 0x4727, name: "BCM4313", description: "BCM4313 802.11bgn Wireless Network Adapter" },
        63 => DeviceInfo { vendor_id: 0x14E4, device_id: 0x4331, name: "BCM4331", description: "BCM4331 802.11a/b/g/n" },
        64 => DeviceInfo { vendor_id: 0x14E4, device_id: 0x43A0, name: "BCM4360", description: "BCM4360 802.11ac Wireless Network Adapter" },
        65 => DeviceInfo { vendor_id: 0x10EC, device_id: 0x8139, name: "RTL8139", description: "RTL-8100/8101L/8139 PCI Fast Ethernet Adapter" },
        66 => DeviceInfo { vendor_id: 0x10EC, device_id: 0x8168, name: "RTL8168", description: "RTL8111/8168/8411 PCI Express Gigabit Ethernet Controller" },
        67 => DeviceInfo { vendor_id: 0x10EC, device_id: 0x8169, name: "RTL8169", description: "RTL8169 PCI Gigabit Ethernet Controller" },
        68 => DeviceInfo { vendor_id: 0x10EC, device_id: 0x0129, name: "RTS5129", description: "RTS5129 PCI Express Card Reader" },
        69 => DeviceInfo { vendor_id: 0x10EC, device_id: 0x525A, name: "RTS525A", description: "RTS525A PCI Express Card Reader" },
        70 => DeviceInfo { vendor_id: 0x10EC, device_id: 0x0887, name: "RTL8887", description: "RTL8887 PCIe 802.11ac Wireless Network Adapter" },
        71 => DeviceInfo { vendor_id: 0x168C, device_id: 0x002A, name: "AR928X", description: "AR928X Wireless Network Adapter (PCI-Express)" },
        72 => DeviceInfo { vendor_id: 0x168C, device_id: 0x002B, name: "AR9285", description: "AR9285 Wireless Network Adapter (PCI-Express)" },
        73 => DeviceInfo { vendor_id: 0x168C, device_id: 0x0030, name: "AR93xx", description: "AR93xx Wireless Network Adapter" },
        74 => DeviceInfo { vendor_id: 0x168C, device_id: 0x0032, name: "AR9485", description: "AR9485 Wireless Network Adapter" },
        75 => DeviceInfo { vendor_id: 0x168C, device_id: 0x0034, name: "AR9462", description: "AR9462 Wireless Network Adapter" },
        76 => DeviceInfo { vendor_id: 0x1969, device_id: 0x1062, name: "AR8132", description: "AR8132 Fast Ethernet" },
        77 => DeviceInfo { vendor_id: 0x1969, device_id: 0x1063, name: "AR8131", description: "AR8131 Gigabit Ethernet" },
        78 => DeviceInfo { vendor_id: 0x1969, device_id: 0x1083, name: "AR8151", description: "AR8151 v2.0 Gigabit Ethernet" },
        79 => DeviceInfo { vendor_id: 0x8086, device_id: 0x7020, name: "PIIX3_USB", description: "82371SB PIIX3 USB [Natoma/Triton II]" },
        80 => DeviceInfo { vendor_id: 0x8086, device_id: 0x2658, name: "ICH6_USB", description: "82801FB/FBM/FR/FW/FRW (ICH6 Family) USB UHCI Controller" },
        81 => DeviceInfo { vendor_id: 0x8086, device_id: 0x27C8, name: "ICH7_USB", description: "NM10/ICH7 Family USB UHCI Controller #1" },
        82 => DeviceInfo { vendor_id: 0x8086, device_id: 0x2830, name: "ICH8_USB", description: "82801H (ICH8 Family) USB UHCI Controller #1" },
        83 => DeviceInfo { vendor_id: 0x8086, device_id: 0x293A, name: "ICH9_USB", description: "82801I (ICH9 Family) USB UHCI Controller #5" },
        84 => DeviceInfo { vendor_id: 0x8086, device_id: 0x3A37, name: "ICH10_USB", description: "82801JI (ICH10 Family) USB UHCI Controller #1" },
        85 => DeviceInfo { vendor_id: 0x8086, device_id: 0x1C26, name: "6_Series_USB", description: "6 Series/C200 Series Chipset Family USB Enhanced Host Controller #1" },
        86 => DeviceInfo { vendor_id: 0x8086, device_id: 0x1E26, name: "7_Series_USB", description: "7 Series/C216 Chipset Family USB Enhanced Host Controller #1" },
        87 => DeviceInfo { vendor_id: 0x8086, device_id: 0x8C26, name: "8_Series_USB", description: "8 Series/C220 Series Chipset Family USB EHCI #1" },
        88 => DeviceInfo { vendor_id: 0x8086, device_id: 0x9C26, name: "8_Series_LP_USB", description: "8 Series USB EHCI #1" },
        89 => DeviceInfo { vendor_id: 0x8086, device_id: 0x8C31, name: "8_Series_xHCI", description: "8 Series/C220 Series Chipset Family USB xHCI" },
        90 => DeviceInfo { vendor_id: 0x8086, device_id: 0x9C31, name: "8_Series_LP_xHCI", description: "8 Series USB xHCI HC" },
        91 => DeviceInfo { vendor_id: 0x1AF4, device_id: 0x1000, name: "VirtIO_Network", description: "Virtio network device" },
        92 => DeviceInfo { vendor_id: 0x1AF4, device_id: 0x1001, name: "VirtIO_Block", description: "Virtio block device" },
        93 => DeviceInfo { vendor_id: 0x1AF4, device_id: 0x1002, name: "VirtIO_Balloon", description: "Virtio memory balloon" },
        94 => DeviceInfo { vendor_id: 0x1AF4, device_id: 0x1003, name: "VirtIO_Console", description: "Virtio console" },
        95 => DeviceInfo { vendor_id: 0x1AF4, device_id: 0x1004, name: "VirtIO_SCSI", description: "Virtio SCSI" },
        96 => DeviceInfo { vendor_id: 0x1AF4, device_id: 0x1005, name: "VirtIO_RNG", description: "Virtio RNG" },
        97 => DeviceInfo { vendor_id: 0x1AF4, device_id: 0x1009, name: "VirtIO_9P", description: "Virtio filesystem" },
        98 => DeviceInfo { vendor_id: 0x15AD, device_id: 0x0405, name: "VMXNET3", description: "VMXNET3 Ethernet Controller" },
        99 => DeviceInfo { vendor_id: 0x15AD, device_id: 0x0770, name: "SVGA_II", description: "SVGA II Adapter" },
        100 => DeviceInfo { vendor_id: 0x15AD, device_id: 0x0790, name: "PCI_Bridge", description: "PCI bridge" },
        101 => DeviceInfo { vendor_id: 0x15AD, device_id: 0x07A0, name: "PCI_Express", description: "PCI Express Root Port" },
        102 => DeviceInfo { vendor_id: 0x80EE, device_id: 0xBEEF, name: "VBox_Graphics", description: "VirtualBox Graphics Adapter" },
        103 => DeviceInfo { vendor_id: 0x80EE, device_id: 0xCAFE, name: "VBox_Guest", description: "VirtualBox Guest Service" },
        104 => DeviceInfo { vendor_id: 0x1414, device_id: 0x5353, name: "HyperV_Storage", description: "Hyper-V virtual storage" },
        105 => DeviceInfo { vendor_id: 0x1414, device_id: 0x5363, name: "HyperV_SCSI", description: "Hyper-V virtual SCSI controller" },
        106 => DeviceInfo { vendor_id: 0x106B, device_id: 0x003F, name: "KeyLargo", description: "KeyLargo Mac I/O" },
        107 => DeviceInfo { vendor_id: 0x106B, device_id: 0x0041, name: "K2_KeyLargo", description: "K2 KeyLargo Mac/IO" },
        108 => DeviceInfo { vendor_id: 0x8086, device_id: 0x244E, name: "ICH_LPC", description: "82801 LPC Interface Controller" },
        109 => DeviceInfo { vendor_id: 0x8086, device_id: 0x2448, name: "ICH_P2P", description: "82801 Mobile PCI Bridge" },
        110 => DeviceInfo { vendor_id: 0x1106, device_id: 0x3038, name: "VT82xx_USB", description: "VT82xx USB UHCI Controller" },
        111 => DeviceInfo { vendor_id: 0x1106, device_id: 0x3104, name: "VT8204", description: "VT8204 [K8T800 Pro] Host Bridge" },
        112 => DeviceInfo { vendor_id: 0x1B21, device_id: 0x0612, name: "ASM1062", description: "ASM1062 Serial ATA Controller" },
        113 => DeviceInfo { vendor_id: 0x197B, device_id: 0x2363, name: "JMB363", description: "JMB363 SATA/IDE Controller" },
        114 => DeviceInfo { vendor_id: 0x1033, device_id: 0x0194, name: "uPD720200", description: "uPD720200 USB 3.0 Host Controller" },
        115 => DeviceInfo { vendor_id: 0x8086, device_id: 0x4222, name: "PRO_Wireless", description: "PRO/Wireless 3945ABG [Golan] Network Connection" },
        116 => DeviceInfo { vendor_id: 0x8086, device_id: 0x4229, name: "PRO_Wireless", description: "PRO/Wireless 4965 AG or AGN [Kedron] Network Connection" },
        117 => DeviceInfo { vendor_id: 0x8086, device_id: 0x4232, name: "WiFi_Link", description: "WiFi Link 5100" },
        118 => DeviceInfo { vendor_id: 0x8086, device_id: 0x4237, name: "WiFi_Link", description: "WiFi Link 5100" },
        119 => DeviceInfo { vendor_id: 0x8086, device_id: 0x08B1, name: "Wireless_7260", description: "Wireless 7260" },
        120 => DeviceInfo { vendor_id: 0x8086, device_id: 0x08B2, name: "Wireless_7260", description: "Wireless 7260" },
        121 => DeviceInfo { vendor_id: 0x8086, device_id: 0x095A, name: "Wireless_7265", description: "Wireless 7265" },
        122 => DeviceInfo { vendor_id: 0x8086, device_id: 0x095B, name: "Wireless_7265", description: "Wireless 7265" },
        123 => DeviceInfo { vendor_id: 0x8086, device_id: 0x2E20, name: "4_Series_HDA", description: "4 Series Chipset High Definition Audio Controller" },
        124 => DeviceInfo { vendor_id: 0x8086, device_id: 0x1C22, name: "6_Series_MEI", description: "6 Series/C200 Series Chipset Family MEI Controller #1" },
        125 => DeviceInfo { vendor_id: 0x1180, device_id: 0x0822, name: "R5C822", description: "R5C822 SD/SDIO/MMC/MS/MSPro Host Adapter" },
        126 => DeviceInfo { vendor_id: 0x104C, device_id: 0x803B, name: "PCIxx12", description: "PCIxx12 Cardbus Controller" },
        127 => DeviceInfo { vendor_id: 0x1217, device_id: 0x8221, name: "OZ600FJ0", description: "OZ600FJ0/OZ900FJ0/OZ600FJS SD/MMC Cardreader Controller" },
        128 => DeviceInfo { vendor_id: 0x8086, device_id: 0x10D3, name: "82574L", description: "82574L Gigabit Network Connection" },
        129 => DeviceInfo { vendor_id: 0x8086, device_id: 0x10EA, name: "82577LM", description: "82577LM Gigabit Network Connection" },
        130 => DeviceInfo { vendor_id: 0x8086, device_id: 0x10EB, name: "82577LC", description: "82577LC Gigabit Network Connection" },
        131 => DeviceInfo { vendor_id: 0x8086, device_id: 0x10EF, name: "82578DM", description: "82578DM Gigabit Network Connection" },
        132 => DeviceInfo { vendor_id: 0x8086, device_id: 0x10F0, name: "82578DC", description: "82578DC Gigabit Network Connection" },
        133 => DeviceInfo { vendor_id: 0x8086, device_id: 0x1533, name: "I210", description: "I210 Gigabit Network Connection" },
        134 => DeviceInfo { vendor_id: 0x8086, device_id: 0x1539, name: "I211", description: "I211 Gigabit Network Connection" },
        135 => DeviceInfo { vendor_id: 0x8086, device_id: 0x1521, name: "I350", description: "I350 Gigabit Network Connection" },
        136 => DeviceInfo { vendor_id: 0x8086, device_id: 0x10FB, name: "82599ES", description: "82599ES 10-Gigabit SFI/SFP+ Network Connection" },
        137 => DeviceInfo { vendor_id: 0x8086, device_id: 0x1572, name: "X710", description: "Ethernet Controller X710 for 10GbE SFP+" },
        138 => DeviceInfo { vendor_id: 0x8086, device_id: 0x15B7, name: "I219-LM_2", description: "Ethernet Connection (2) I219-LM" },
        139 => DeviceInfo { vendor_id: 0x8086, device_id: 0x15B8, name: "I219-V_2", description: "Ethernet Connection (2) I219-V" },
        140 => DeviceInfo { vendor_id: 0x8086, device_id: 0x2918, name: "ICH9_LPC", description: "82801IB (ICH9) LPC Interface Controller" },
        141 => DeviceInfo { vendor_id: 0x8086, device_id: 0x2930, name: "ICH9_SMBus", description: "82801I (ICH9 Family) SMBus Controller" },
        142 => DeviceInfo { vendor_id: 0x8086, device_id: 0x2934, name: "ICH9_UHCI", description: "82801I (ICH9 Family) USB UHCI Controller #1" },
        143 => DeviceInfo { vendor_id: 0x8086, device_id: 0x29C0, name: "G33_DRAM", description: "82G33/G31/P35/P31 Express DRAM Controller" },
        144 => DeviceInfo { vendor_id: 0x8086, device_id: 0x3B34, name: "5_Series_EHCI", description: "5 Series/3400 Series Chipset USB2 Enhanced Host Controller" },
        145 => DeviceInfo { vendor_id: 0x8086, device_id: 0x3B56, name: "5_Series_HDA", description: "5 Series/3400 Series Chipset High Definition Audio" },
        146 => DeviceInfo { vendor_id: 0x8086, device_id: 0x1C02, name: "6_Series_AHCI", description: "6 Series/C200 Series Chipset Family 6 port Desktop SATA AHCI Controller" },
        147 => DeviceInfo { vendor_id: 0x8086, device_id: 0x1E31, name: "7_Series_xHCI", description: "7 Series/C210 Series Chipset Family USB xHCI Host Controller" },
        148 => DeviceInfo { vendor_id: 0x8086, device_id: 0xA12F, name: "100_Series_xHCI", description: "100 Series/C230 Series Chipset Family USB 3.0 xHCI Controller" },
        149 => DeviceInfo { vendor_id: 0x8086, device_id: 0xA102, name: "100_Series_AHCI", description: "Q170/Q150/B150/H170/H110/Z170/CM236 Chipset SATA Controller [AHCI Mode]" },
        150 => DeviceInfo { vendor_id: 0x8086, device_id: 0xA170, name: "100_Series_HDA", description: "100 Series/C230 Series Chipset Family HD Audio Controller" },
        151 => DeviceInfo { vendor_id: 0x8086, device_id: 0xA2AF, name: "200_Series_xHCI", description: "200 Series/Z370 Chipset Family USB 3.0 xHCI Controller" },
        152 => DeviceInfo { vendor_id: 0x8086, device_id: 0xA36D, name: "CannonLake_xHCI", description: "Cannon Lake PCH USB 3.1 xHCI Host Controller" },
        153 => DeviceInfo { vendor_id: 0x8086, device_id: 0x0152, name: "IvyBridge_GT1", description: "Xeon E3-1200 v2/3rd Gen Core processor Graphics Controller" },
        154 => DeviceInfo { vendor_id: 0x8086, device_id: 0x0162, name: "IvyBridge_GT2", description: "Xeon E3-1200 v2/3rd Gen Core processor Graphics Controller" },
        155 => DeviceInfo { vendor_id: 0x8086, device_id: 0x0102, name: "SandyBridge_GT1", description: "2nd Generation Core Processor Family Integrated Graphics Controller" },
        156 => DeviceInfo { vendor_id: 0x8086, device_id: 0x1912, name: "Skylake_GT2", description: "HD Graphics 530" },
        157 => DeviceInfo { vendor_id: 0x8086, device_id: 0x5912, name: "KabyLake_GT2", description: "HD Graphics 630" },
        158 => DeviceInfo { vendor_id: 0x8086, device_id: 0x3E92, name: "CoffeeLake_GT2", description: "CoffeeLake-S GT2 [UHD Graphics 630]" },
        159 => DeviceInfo { vendor_id: 0x8086, device_id: 0x24FD, name: "Wireless_8265", description: "Wireless 8265 / 8275" },
        160 => DeviceInfo { vendor_id: 0x8086, device_id: 0x2723, name: "WiFi6_AX200", description: "Wi-Fi 6 AX200" },
        161 => DeviceInfo { vendor_id: 0x8086, device_id: 0x2526, name: "Wireless_9260", description: "Wireless-AC 9260" },
        162 => DeviceInfo { vendor_id: 0x8086, device_id: 0x0085, name: "Centrino_6205", description: "Centrino Advanced-N 6205 [Taylor Peak]" },
        163 => DeviceInfo { vendor_id: 0x8086, device_id: 0x0953, name: "DC_P3700", description: "PCIe Data Center SSD" },
        164 => DeviceInfo { vendor_id: 0x8086, device_id: 0xF1A5, name: "SSD_600P", description: "SSD 600P Series" },
        165 => DeviceInfo { vendor_id: 0x1022, device_id: 0x1480, name: "Starship_RC", description: "Starship/Matisse Root Complex" },
        166 => DeviceInfo { vendor_id: 0x1022, device_id: 0x149C, name: "Matisse_USB", description: "Matisse USB 3.0 Host Controller" },
        167 => DeviceInfo { vendor_id: 0x1022, device_id: 0x790B, name: "FCH_SMBus", description: "FCH SMBus Controller" },
        168 => DeviceInfo { vendor_id: 0x1022, device_id: 0x43EE, name: "500_Series_xHCI", description: "500 Series Chipset USB 3.1 XHCI Controller" },
        169 => DeviceInfo { vendor_id: 0x1022, device_id: 0x2000, name: "PCnet32", description: "79c970 [PCnet32 LANCE]" },
        170 => DeviceInfo { vendor_id: 0x1002, device_id: 0x15D8, name: "Picasso", description: "Picasso/Raven 2 [Radeon Vega Series / Radeon Vega Mobile Series]" },
        171 => DeviceInfo { vendor_id: 0x1002, device_id: 0x1638, name: "Cezanne", description: "Cezanne [Radeon Vega Series / Radeon Vega Mobile Series]" },
        172 => DeviceInfo { vendor_id: 0x1002, device_id: 0xAAF0, name: "Ellesmere_HDMI", description: "Ellesmere HDMI Audio [Radeon RX 470/480 / 570/580/590]" },
        173 => DeviceInfo { vendor_id: 0x10DE, device_id: 0x1B80, name: "GP104", description: "GP104 [GeForce GTX 1080]" },
        174 => DeviceInfo { vendor_id: 0x10DE, device_id: 0x1C82, name: "GP107", description: "GP107 [GeForce GTX 1050 Ti]" },
        175 => DeviceInfo { vendor_id: 0x10DE, device_id: 0x1E87, name: "TU104", description: "TU104 [GeForce RTX 2080 Rev. A]" },
        176 => DeviceInfo { vendor_id: 0x10DE, device_id: 0x2206, name: "GA102_3080", description: "GA102 [GeForce RTX 3080]" },
        177 => DeviceInfo { vendor_id: 0x10DE, device_id: 0x10F0, name: "GP104_HDA", description: "GP104 High Definition Audio Controller" },
        178 => DeviceInfo { vendor_id: 0x10DE, device_id: 0x0FB9, name: "GP107_HDA", description: "GP107GL High Definition Audio Controller" },
        179 => DeviceInfo { vendor_id: 0x10EC, device_id: 0x8125, name: "RTL8125", description: "RTL8125 2.5GbE Controller" },
        180 => DeviceInfo { vendor_id: 0x10EC, device_id: 0xC821, name: "RTL8821CE", description: "RTL8821CE 802.11ac PCIe Wireless Network Adapter" },
        181 => DeviceInfo { vendor_id: 0x10EC, device_id: 0x5229, name: "RTS5229", description: "RTS5229 PCI Express Card Reader" },
        182 => DeviceInfo { vendor_id: 0x168C, device_id: 0x003E, name: "QCA6174", description: "QCA6174 802.11ac Wireless Network Adapter" },
        183 => DeviceInfo { vendor_id: 0x168C, device_id: 0x0042, name: "QCA9377", description: "QCA9377 802.11ac Wireless Network Adapter" },
        184 => DeviceInfo { vendor_id: 0x1106, device_id: 0x3065, name: "VT6102", description: "VT6102/VT6103 [Rhine-II]" },
        185 => DeviceInfo { vendor_id: 0x1106, device_id: 0x0571, name: "VT82C586_IDE", description: "VT82C586A/B/VT82C686/A/B/VT823x/A/C PIPC Bus Master IDE" },
        186 => DeviceInfo { vendor_id: 0x1B21, device_id: 0x1242, name: "ASM1142", description: "ASM1142 USB 3.1 Host Controller" },
        187 => DeviceInfo { vendor_id: 0x15AD, device_id: 0x0740, name: "VMCI", description: "Virtual Machine Communication Interface" },
        188 => DeviceInfo { vendor_id: 0x15AD, device_id: 0x07C0, name: "PVSCSI", description: "PVSCSI SCSI Controller" },
        189 => DeviceInfo { vendor_id: 0x1AF4, device_id: 0x1041, name: "VirtIO_Net_1.0", description: "Virtio 1.0 network device" },
        190 => DeviceInfo { vendor_id: 0x1AF4, device_id: 0x1042, name: "VirtIO_Block_1.0", description: "Virtio 1.0 block device" },
        191 => DeviceInfo { vendor_id: 0x1AF4, device_id: 0x1050, name: "VirtIO_GPU", description: "Virtio 1.0 GPU" },
        192 => DeviceInfo { vendor_id: 0x1B4B, device_id: 0x9230, name: "88SE9230", description: "88SE9230 PCIe SATA 6Gb/s Controller" },
        193 => DeviceInfo { vendor_id: 0x15B3, device_id: 0x1013, name: "ConnectX-4", description: "MT27700 Family [ConnectX-4]" },
        194 => DeviceInfo { vendor_id: 0x15B3, device_id: 0x1015, name: "ConnectX-4_Lx", description: "MT27710 Family [ConnectX-4 Lx]" },
        195 => DeviceInfo { vendor_id: 0x8086, device_id: 0x27CC, name: "ICH7_EHCI", description: "NM10/ICH7 Family USB2 EHCI Controller" },
        196 => DeviceInfo { vendor_id: 0x8086, device_id: 0x27C1, name: "ICH7_AHCI", description: "NM10/ICH7 Family SATA Controller [AHCI mode]" },
        197 => DeviceInfo { vendor_id: 0x8086, device_id: 0x24CD, name: "ICH4_EHCI", description: "82801DB/DBM (ICH4/ICH4-M) USB2 EHCI Controller" },
        198 => DeviceInfo { vendor_id: 0x8086, device_id: 0x3B64, name: "5_Series_HECI", description: "5 Series/3400 Series Chipset HECI Controller" },
        199 => DeviceInfo { vendor_id: 0x8086, device_id: 0x1E3A, name: "7_Series_MEI", description: "7 Series/C216 Chipset Family MEI Controller #1" },
        200 => DeviceInfo { vendor_id: 0x8086, device_id: 0x9D2F, name: "Sunrise_Point_xHCI", description: "Sunrise Point-LP USB 3.0 xHCI Controller" },
        201 => DeviceInfo { vendor_id: 0x8086, device_id: 0x9D71, name: "Sunrise_Point_HDA", description: "Sunrise Point-LP HD Audio" },
        202 => DeviceInfo { vendor_id: 0x8086, device_id: 0x06ED, name: "CometLake_xHCI", description: "Comet Lake USB 3.1 xHCI Host Controller" },
        203 => DeviceInfo { vendor_id: 0x8086, device_id: 0x43ED, name: "TigerLake_H_xHCI", description: "Tiger Lake-H USB 3.2 Gen 2x1 xHCI Host Controller" },
        204 => DeviceInfo { vendor_id: 0x8086, device_id: 0x9A49, name: "TigerLake_GT2", description: "TigerLake-LP GT2 [Iris Xe Graphics]" },
        205 => DeviceInfo { vendor_id: 0x8086, device_id: 0x46A6, name: "AlderLake_GT2", description: "Alder Lake-P GT2 [Iris Xe Graphics]" },
        206 => DeviceInfo { vendor_id: 0x8086, device_id: 0x15F3, name: "I225-V", description: "Ethernet Controller I225-V" },
        207 => DeviceInfo { vendor_id: 0x8086, device_id: 0x125C, name: "I226-V", description: "Ethernet Controller I226-V" },
        208 => DeviceInfo { vendor_id: 0x10DE, device_id: 0x2786, name: "AD104", description: "AD104 [GeForce RTX 4070]" },
        209 => DeviceInfo { vendor_id: 0x10DE, device_id: 0x2684, name: "AD102", description: "AD102 [GeForce RTX 4090]" },
        210 => DeviceInfo { vendor_id: 0x10DE, device_id: 0x1F08, name: "TU106", description: "TU106 [GeForce RTX 2060 Rev. A]" },
        211 => DeviceInfo { vendor_id: 0x1002, device_id: 0x744C, name: "Navi31", description: "Navi 31 [Radeon RX 7900 XT/7900 XTX]" },
        212 => DeviceInfo { vendor_id: 0x1002, device_id: 0x164E, name: "Raphael", description: "Raphael" },
        213 => DeviceInfo { vendor_id: 0x1022, device_id: 0x14DA, name: "Raphael_RC", description: "Raphael/Granite Ridge Root Complex" },
        214 => DeviceInfo { vendor_id: 0x1AF4, device_id: 0x1043, name: "VirtIO_Console_1.0", description: "Virtio 1.0 console" },
        215 => DeviceInfo { vendor_id: 0x1AF4, device_id: 0x1044, name: "VirtIO_RNG_1.0", description: "Virtio 1.0 RNG" },
        _ => DeviceInfo { vendor_id: 0x1AF4, device_id: 0x1048, name: "VirtIO_SCSI_1.0", description: "Virtio 1.0 SCSI" },
    }
}


/// The index of the first vendor from `i` on with identifier `id`; the
/// number of vendors where there is none.
pub open spec fn vendor_index(id: u16, i: int) -> int
    decreases VENDOR_COUNT - i,
{
    if i >= VENDOR_COUNT {
        VENDOR_COUNT as int
    } else if vendors()[i].id == id {
        i
    } else {
        vendor_index(id, i + 1)
    }
}

/// The index of the first device from `i` on with vendor `v` and device
/// `d`; the number of devices where there is none.
pub open spec fn device_index(v: u16, d: u16, i: int) -> int
    decreases DEVICE_COUNT - i,
{
    if i >= DEVICE_COUNT {
        DEVICE_COUNT as int
    } else if devices()[i].vendor_id == v && devices()[i].device_id == d {
        i
    } else {
        device_index(v, d, i + 1)
    }
}

/// The devices of vendor `id` among the first `n` devices, in order.
pub open spec fn devices_of_vendor(id: u16, n: int) -> Seq<DeviceInfo>
    decreases n,
{
    if n <= 0 {
        Seq::empty()
    } else {
        let r = devices_of_vendor(id, n - 1);
        if devices()[n - 1].vendor_id == id {
            r.push(devices()[n - 1])
        } else {
            r
        }
    }
}

proof fn lemma_vendor_index_bounds(id: u16, i: int)
    requires
        0 <= i <= VENDOR_COUNT,
    ensures
        i <= vendor_index(id, i) <= VENDOR_COUNT,
        vendor_index(id, i) < VENDOR_COUNT ==> vendors()[vendor_index(id, i)].id == id,
    decreases VENDOR_COUNT - i,
{
    if i < VENDOR_COUNT && vendors()[i].id != id {
        lemma_vendor_index_bounds(id, i + 1);
    }
}

proof fn lemma_device_index_bounds(v: u16, d: u16, i: int)
    requires
        0 <= i <= DEVICE_COUNT,
    ensures
        i <= device_index(v, d, i) <= DEVICE_COUNT,
        device_index(v, d, i) < DEVICE_COUNT ==> devices()[device_index(v, d, i)].vendor_id == v
            && devices()[device_index(v, d, i)].device_id == d,
    decreases DEVICE_COUNT - i,
{
    if i < DEVICE_COUNT && !(devices()[i].vendor_id == v && devices()[i].device_id == d) {
        lemma_device_index_bounds(v, d, i + 1);
    }
}

/// The vendor table.
#[allow(non_snake_case)]
pub fn VENDORS() -> (r: Vec<VendorInfo>)
    ensures
        r@ == vendors(),
{
    let mut out: Vec<VendorInfo> = Vec::new();
    let mut i: usize = 0;
    while i < VENDOR_COUNT
        invariant
            i <= VENDOR_COUNT,
            out@ == vendors().take(i as int),
        decreases VENDOR_COUNT - i,
    {
        out.push(vendor_at(i));
        i = i + 1;
        assert(out@ =~= vendors().take(i as int));
    }
    assert(vendors().take(VENDOR_COUNT as int) =~= vendors());
    out
}

/// The device table.
#[allow(non_snake_case)]
pub fn DEVICES() -> (r: Vec<DeviceInfo>)
    ensures
        r@ == devices(),
{
    let mut out: Vec<DeviceInfo> = Vec::new();
    let mut i: usize = 0;
    while i < DEVICE_COUNT
        invariant
            i <= DEVICE_COUNT,
            out@ == devices().take(i as int),
        decreases DEVICE_COUNT - i,
    {
        out.push(device_at(i));
        i = i + 1;
        assert(out@ =~= devices().take(i as int));
    }
    assert(devices().take(DEVICE_COUNT as int) =~= devices());
    out
}

/// The index of the first vendor with identifier `id`, if any.
fn find_vendor(id: u16) -> (r: Option<usize>)
    ensures
        match r {
            Some(k) => k == vendor_index(id, 0) && k < VENDOR_COUNT,
            None => vendor_index(id, 0) == VENDOR_COUNT,
        },
{
    let mut i: usize = 0;
    while i < VENDOR_COUNT
        invariant
            i <= VENDOR_COUNT,
            vendor_index(id, 0) == vendor_index(id, i as int),
        decreases VENDOR_COUNT - i,
    {
        if vendor_at(i).id == id {
            return Some(i);
        }
        i = i + 1;
    }
    None
}

/// The index of the first device with vendor `vendor_id` and device
/// `device_id`, if any.
fn find_device(vendor_id: u16, device_id: u16) -> (r: Option<usize>)
    ensures
        match r {
            Some(k) => k == device_index(vendor_id, device_id, 0) && k < DEVICE_COUNT,
            None => device_index(vendor_id, device_id, 0) == DEVICE_COUNT,
        },
{
    let mut i: usize = 0;
    while i < DEVICE_COUNT
        invariant
            i <= DEVICE_COUNT,
            device_index(vendor_id, device_id, 0) == device_index(vendor_id, device_id, i as int),
        decreases DEVICE_COUNT - i,
    {
        let e = device_at(i);
        if e.vendor_id == vendor_id && e.device_id == device_id {
            return Some(i);
        }
        i = i + 1;
    }
    None
}

/// The short name of the first vendor with identifier `vendor_id`, or
/// `Unknown`.
pub fn get_vendor_name(vendor_id: u16) -> (r: &'static str)
    ensures
        vendor_index(vendor_id, 0) < VENDOR_COUNT ==> r == vendors()[vendor_index(vendor_id, 0)].short_name,
        vendor_index(vendor_id, 0) >= VENDOR_COUNT ==> r@ == "Unknown"@,
{
    match find_vendor(vendor_id) {
        Some(k) => vendor_at(k).short_name,
        None => "Unknown",
    }
}

/// The first vendor with identifier `vendor_id`, if any.
pub fn get_vendor_info(vendor_id: u16) -> (r: Option<VendorInfo>)
    ensures
        vendor_index(vendor_id, 0) < VENDOR_COUNT ==> r == Some(vendors()[vendor_index(vendor_id, 0)]),
        vendor_index(vendor_id, 0) >= VENDOR_COUNT ==> r is None,
{
    match find_vendor(vendor_id) {
        Some(k) => Some(vendor_at(k)),
        None => None,
    }
}

/// The name of the first device with these identifiers, or
/// `Unknown Device`.
pub fn get_device_name(vendor_id: u16, device_id: u16) -> (r: &'static str)
    ensures
        device_index(vendor_id, device_id, 0) < DEVICE_COUNT ==> r == devices()[device_index(
            vendor_id,
            device_id,
            0,
        )].name,
        device_index(vendor_id, device_id, 0) >= DEVICE_COUNT ==> r@ == "Unknown Device"@,
{
    match find_device(vendor_id, device_id) {
        Some(k) => device_at(k).name,
        None => "Unknown Device",
    }
}

/// The first device with these identifiers, if any.
pub fn get_device_info(vendor_id: u16, device_id: u16) -> (r: Option<DeviceInfo>)
    ensures
        device_index(vendor_id, device_id, 0) < DEVICE_COUNT ==> r == Some(
            devices()[device_index(vendor_id, device_id, 0)],
        ),
        device_index(vendor_id, device_id, 0) >= DEVICE_COUNT ==> r is None,
{
    match find_device(vendor_id, device_id) {
        Some(k) => Some(device_at(k)),
        None => None,
    }
}

/// The description of the first device with these identifiers, or
/// `Unknown Device`.
pub fn get_device_description(vendor_id: u16, device_id: u16) -> (r: &'static str)
    ensures
        device_index(vendor_id, device_id, 0) < DEVICE_COUNT ==> r == devices()[device_index(
            vendor_id,
            device_id,
            0,
        )].description,
        device_index(vendor_id, device_id, 0) >= DEVICE_COUNT ==> r@ == "Unknown Device"@,
{
    match find_device(vendor_id, device_id) {
        Some(k) => device_at(k).description,
        None => "Unknown Device",
    }
}

/// The devices of vendor `vendor_id`, in table order.
pub fn get_vendor_devices(vendor_id: u16) -> (r: Vec<DeviceInfo>)
    ensures
        r@ == devices_of_vendor(vendor_id, DEVICE_COUNT as int),
{
    let mut out: Vec<DeviceInfo> = Vec::new();
    let mut i: usize = 0;
    while i < DEVICE_COUNT
        invariant
            i <= DEVICE_COUNT,
            out@ == devices_of_vendor(vendor_id, i as int),
        decreases DEVICE_COUNT - i,
    {
        let e = device_at(i);
        if e.vendor_id == vendor_id {
            out.push(e);
        }
        i = i + 1;
    }
    out
}

/// Whether some vendor has identifier `vendor_id`.
pub fn is_known_vendor(vendor_id: u16) -> (r: bool)
    ensures
        r == (exists|k: int| 0 <= k < VENDOR_COUNT && vendors()[k].id == vendor_id),
{
    proof {
        lemma_vendor_index_bounds(vendor_id, 0);
        if exists|k: int| 0 <= k < VENDOR_COUNT && vendors()[k].id == vendor_id {
            let k = choose|k: int| 0 <= k < VENDOR_COUNT && vendors()[k].id == vendor_id;
            lemma_vendor_first(vendor_id, 0, k);
        }
    }
    find_vendor(vendor_id).is_some()
}

/// Whether some device has these identifiers.
pub fn is_known_device(vendor_id: u16, device_id: u16) -> (r: bool)
    ensures
        r == (exists|k: int|
            0 <= k < DEVICE_COUNT && devices()[k].vendor_id == vendor_id && devices()[k].device_id == device_id),
{
    proof {
        lemma_device_index_bounds(vendor_id, device_id, 0);
        if exists|k: int|
            0 <= k < DEVICE_COUNT && devices()[k].vendor_id == vendor_id && devices()[k].device_id == device_id {
            let k = choose|k: int|
                0 <= k < DEVICE_COUNT && devices()[k].vendor_id == vendor_id && devices()[k].device_id == device_id;
            lemma_device_first(vendor_id, device_id, 0, k);
        }
    }
    find_device(vendor_id, device_id).is_some()
}

proof fn lemma_vendor_first(id: u16, i: int, k: int)
    requires
        0 <= i <= k < VENDOR_COUNT,
        vendors()[k].id == id,
    ensures
        vendor_index(id, i) <= k,
    decreases k - i,
{
    if vendors()[i].id != id {
        lemma_vendor_first(id, i + 1, k);
    }
}

proof fn lemma_device_first(v: u16, d: u16, i: int, k: int)
    requires
        0 <= i <= k < DEVICE_COUNT,
        devices()[k].vendor_id == v && devices()[k].device_id == d,
    ensures
        device_index(v, d, i) <= k,
    decreases k - i,
{
    if !(devices()[i].vendor_id == v && devices()[i].device_id == d) {
        lemma_device_first(v, d, i + 1, k);
    }
}

/// The number of known vendors.
pub fn get_vendor_count() -> (r: usize)
    ensures
        r == vendors().len(),
{
    VENDOR_COUNT
}

/// The key of device entry `i`: its vendor and device identifiers.
pub open spec fn device_key(i: int) -> int {
    device_entry(i as usize).vendor_id as int * 0x10000 + device_entry(i as usize).device_id as int
}

/// The position in the device table of key `k` (-1 for none).
pub open spec fn key_position(k: int) -> int {
    if k == 0x80861237 {
        0
    } else if k == 0x80867000 {
        1
    } else if k == 0x80867010 {
        2
    } else if k == 0x80867113 {
        3
    } else if k == 0x8086100E {
        4
    } else if k == 0x8086100F {
        5
    } else if k == 0x80861502 {
        6
    } else if k == 0x80861503 {
        7
    } else if k == 0x8086153A {
        8
    } else if k == 0x8086153B {
        9
    } else if k == 0x808615A1 {
        10
    } else if k == 0x808615A2 {
        11
    } else if k == 0x80862922 {
        12
    } else if k == 0x80862829 {
        13
    } else if k == 0x80863A22 {
        14
    } else if k == 0x80861E03 {
        15
    } else if k == 0x80868C02 {
        16
    } else if k == 0x80869C03 {
        17
    } else if k == 0x80860F23 {
        18
    } else if k == 0x808622A3 {
        19
    } else if k == 0x80862668 {
        20
    } else if k == 0x808627D8 {
        21
    } else if k == 0x8086284B {
        22
    } else if k == 0x8086293E {
        23
    } else if k == 0x80863A3E {
        24
    } else if k == 0x80861C20 {
        25
    } else if k == 0x80861E20 {
        26
    } else if k == 0x80868C20 {
        27
    } else if k == 0x80869C20 {
        28
    } else if k == 0x80860166 {
        29
    } else if k == 0x80860416 {
        30
    } else if k == 0x80861616 {
        31
    } else if k == 0x80861916 {
        32
    } else if k == 0x80865916 {
        33
    } else if k == 0x80865A85 {
        34
    } else if k == 0x80863E9B {
        35
    } else if k == 0x10227901 {
        36
    } else if k == 0x10227904 {
        37
    } else if k == 0x10221436 {
        38
    } else if k == 0x1022157A {
        39
    } else if k == 0x10221457 {
        40
    } else if k == 0x102215E3 {
        41
    } else if k == 0x10024391 {
        42
    } else if k == 0x10024383 {
        43
    } else if k == 0x1002439C {
        44
    } else if k == 0x100267DF {
        45
    } else if k == 0x10026FDF {
        46
    } else if k == 0x1002731F {
        47
    } else if k == 0x100273BF {
        48
    } else if k == 0x10DE0640 {
        49
    } else if k == 0x10DE06C4 {
        50
    } else if k == 0x10DE0E22 {
        51
    } else if k == 0x10DE1180 {
        52
    } else if k == 0x10DE1287 {
        53
    } else if k == 0x10DE13C2 {
        54
    } else if k == 0x10DE1B81 {
        55
    } else if k == 0x10DE1E04 {
        56
    } else if k == 0x10DE2204 {
        57
    } else if k == 0x10DE2484 {
        58
    } else if k == 0x10DE2782 {
        59
    } else if k == 0x14E41677 {
        60
    } else if k == 0x14E4165F {
        61
    } else if k == 0x14E44727 {
        62
    } else if k == 0x14E44331 {
        63
    } else if k == 0x14E443A0 {
        64
    } else if k == 0x10EC8139 {
        65
    } else if k == 0x10EC8168 {
        66
    } else if k == 0x10EC8169 {
        67
    } else if k == 0x10EC0129 {
        68
    } else if k == 0x10EC525A {
        69
    } else if k == 0x10EC0887 {
        70
    } else if k == 0x168C002A {
        71
    } else if k == 0x168C002B {
        72
    } else if k == 0x168C0030 {
        73
    } else if k == 0x168C0032 {
        74
    } else if k == 0x168C0034 {
        75
    } else if k == 0x19691062 {
        76
    } else if k == 0x19691063 {
        77
    } else if k == 0x19691083 {
        78
    } else if k == 0x80867020 {
        79
    } else if k == 0x80862658 {
        80
    } else if k == 0x808627C8 {
        81
    } else if k == 0x80862830 {
        82
    } else if k == 0x8086293A {
        83
    } else if k == 0x80863A37 {
        84
    } else if k == 0x80861C26 {
        85
    } else if k == 0x80861E26 {
        86
    } else if k == 0x80868C26 {
        87
    } else if k == 0x80869C26 {
        88
    } else if k == 0x80868C31 {
        89
    } else if k == 0x80869C31 {
        90
    } else if k == 0x1AF41000 {
        91
    } else if k == 0x1AF41001 {
        92
    } else if k == 0x1AF41002 {
        93
    } else if k == 0x1AF41003 {
        94
    } else if k == 0x1AF41004 {
        95
    } else if k == 0x1AF41005 {
        96
    } else if k == 0x1AF41009 {
        97
    } else if k == 0x15AD0405 {
        98
    } else if k == 0x15AD0770 {
        99
    } else if k == 0x15AD0790 {
        100
    } else if k == 0x15AD07A0 {
        101
    } else if k == 0x80EEBEEF {
        102
    } else if k == 0x80EECAFE {
        103
    } else if k == 0x14145353 {
        104
    } else if k == 0x14145363 {
        105
    } else if k == 0x106B003F {
        106
    } else if k == 0x106B0041 {
        107
    } else if k == 0x8086244E {
        108
    } else if k == 0x80862448 {
        109
    } else if k == 0x11063038 {
        110
    } else if k == 0x11063104 {
        111
    } else if k == 0x1B210612 {
        112
    } else if k == 0x197B2363 {
        113
    } else if k == 0x10330194 {
        114
    } else if k == 0x80864222 {
        115
    } else if k == 0x80864229 {
        116
    } else if k == 0x80864232 {
        117
    } else if k == 0x80864237 {
        118
    } else if k == 0x808608B1 {
        119
    } else if k == 0x808608B2 {
        120
    } else if k == 0x8086095A {
        121
    } else if k == 0x8086095B {
        122
    } else if k == 0x80862E20 {
        123
    } else if k == 0x80861C22 {
        124
    } else if k == 0x11800822 {
        125
    } else if k == 0x104C803B {
        126
    } else if k == 0x12178221 {
        127
    } else if k == 0x808610D3 {
        128
    } else if k == 0x808610EA {
        129
    } else if k == 0x808610EB {
        130
    } else if k == 0x808610EF {
        131
    } else if k == 0x808610F0 {
        132
    } else if k == 0x80861533 {
        133
    } else if k == 0x80861539 {
        134
    } else if k == 0x80861521 {
        135
    } else if k == 0x808610FB {
        136
    } else if k == 0x80861572 {
        137
    } else if k == 0x808615B7 {
        138
    } else if k == 0x808615B8 {
        139
    } else if k == 0x80862918 {
        140
    } else if k == 0x80862930 {
        141
    } else if k == 0x80862934 {
        142
    } else if k == 0x808629C0 {
        143
    } else if k == 0x80863B34 {
        144
    } else if k == 0x80863B56 {
        145
    } else if k == 0x80861C02 {
        146
    } else if k == 0x80861E31 {
        147
    } else if k == 0x8086A12F {
        148
    } else if k == 0x8086A102 {
        149
    } else if k == 0x8086A170 {
        150
    } else if k == 0x8086A2AF {
        151
    } else if k == 0x8086A36D {
        152
    } else if k == 0x80860152 {
        153
    } else if k == 0x80860162 {
        154
    } else if k == 0x80860102 {
        155
    } else if k == 0x80861912 {
        156
    } else if k == 0x80865912 {
        157
    } else if k == 0x80863E92 {
        158
    } else if k == 0x808624FD {
        159
    } else if k == 0x80862723 {
        160
    } else if k == 0x80862526 {
        161
    } else if k == 0x80860085 {
        162
    } else if k == 0x80860953 {
        163
    } else if k == 0x8086F1A5 {
        164
    } else if k == 0x10221480 {
        165
    } else if k == 0x1022149C {
        166
    } else if k == 0x1022790B {
        167
    } else if k == 0x102243EE {
        168
    } else if k == 0x10222000 {
        169
    } else if k == 0x100215D8 {
        170
    } else if k == 0x10021638 {
        171
    } else if k == 0x1002AAF0 {
        172
    } else if k == 0x10DE1B80 {
        173
    } else if k == 0x10DE1C82 {
        174
    } else if k == 0x10DE1E87 {
        175
    } else if k == 0x10DE2206 {
        176
    } else if k == 0x10DE10F0 {
        177
    } else if k == 0x10DE0FB9 {
        178
    } else if k == 0x10EC8125 {
        179
    } else if k == 0x10ECC821 {
        180
    } else if k == 0x10EC5229 {
        181
    } else if k == 0x168C003E {
        182
    } else if k == 0x168C0042 {
        183
    } else if k == 0x11063065 {
        184
    } else if k == 0x11060571 {
        185
    } else if k == 0x1B211242 {
        186
    } else if k == 0x15AD0740 {
        187
    } else if k == 0x15AD07C0 {
        188
    } else if k == 0x1AF41041 {
        189
    } else if k == 0x1AF41042 {
        190
    } else if k == 0x1AF41050 {
        191
    } else if k == 0x1B4B9230 {
        192
    } else if k == 0x15B31013 {
        193
    } else if k == 0x15B31015 {
        194
    } else if k == 0x808627CC {
        195
    } else if k == 0x808627C1 {
        196
    } else if k == 0x808624CD {
        197
    } else if k == 0x80863B64 {
        198
    } else if k == 0x80861E3A {
        199
    } else if k == 0x80869D2F {
        200
    } else if k == 0x80869D71 {
        201
    } else if k == 0x808606ED {
        202
    } else if k == 0x808643ED {
        203
    } else if k == 0x80869A49 {
        204
    } else if k == 0x808646A6 {
        205
    } else if k == 0x808615F3 {
        206
    } else if k == 0x8086125C {
        207
    } else if k == 0x10DE2786 {
        208
    } else if k == 0x10DE2684 {
        209
    } else if k == 0x10DE1F08 {
        210
    } else if k == 0x1002744C {
        211
    } else if k == 0x1002164E {
        212
    } else if k == 0x102214DA {
        213
    } else if k == 0x1AF41043 {
        214
    } else if k == 0x1AF41044 {
        215
    } else if k == 0x1AF41048 {
        216
    } else {
        -1
    }
}

/// Each entry of the device table is found again by its key.
proof fn lemma_key_positions()
    ensures
        forall|i: int| 0 <= i < DEVICE_COUNT ==> key_position(#[trigger] device_key(i)) == i,
{
    assert forall|i: int| 0 <= i < DEVICE_COUNT implies key_position(#[trigger] device_key(i)) == i by {
        if i == 0 {
        } else if i == 1 {
        } else if i == 2 {
        } else if i == 3 {
        } else if i == 4 {
        } else if i == 5 {
        } else if i == 6 {
        } else if i == 7 {
        } else if i == 8 {
        } else if i == 9 {
        } else if i == 10 {
        } else if i == 11 {
        } else if i == 12 {
        } else if i == 13 {
        } else if i == 14 {
        } else if i == 15 {
        } else if i == 16 {
        } else if i == 17 {
        } else if i == 18 {
        } else if i == 19 {
        } else if i == 20 {
        } else if i == 21 {
        } else if i == 22 {
        } else if i == 23 {
        } else if i == 24 {
        } else if i == 25 {
        } else if i == 26 {
        } else if i == 27 {
        } else if i == 28 {
        } else if i == 29 {
        } else if i == 30 {
        } else if i == 31 {
        } else if i == 32 {
        } else if i == 33 {
        } else if i == 34 {
        } else if i == 35 {
        } else if i == 36 {
        } else if i == 37 {
        } else if i == 38 {
        } else if i == 39 {
        } else if i == 40 {
        } else if i == 41 {
        } else if i == 42 {
        } else if i == 43 {
        } else if i == 44 {
        } else if i == 45 {
        } else if i == 46 {
        } else if i == 47 {
        } else if i == 48 {
        } else if i == 49 {
        } else if i == 50 {
        } else if i == 51 {
        } else if i == 52 {
        } else if i == 53 {
        } else if i == 54 {
        } else if i == 55 {
        } else if i == 56 {
        } else if i == 57 {
        } else if i == 58 {
        } else if i == 59 {
        } else if i == 60 {
        } else if i == 61 {
        } else if i == 62 {
        } else if i == 63 {
        } else if i == 64 {
        } else if i == 65 {
        } else if i == 66 {
        } else if i == 67 {
        } else if i == 68 {
        } else if i == 69 {
        } else if i == 70 {
        } else if i == 71 {
        } else if i == 72 {
        } else if i == 73 {
        } else if i == 74 {
        } else if i == 75 {
        } else if i == 76 {
        } else if i == 77 {
        } else if i == 78 {
        } else if i == 79 {
        } else if i == 80 {
        } else if i == 81 {
        } else if i == 82 {
        } else if i == 83 {
        } else if i == 84 {
        } else if i == 85 {
        } else if i == 86 {
        } else if i == 87 {
        } else if i == 88 {
        } else if i == 89 {
        } else if i == 90 {
        } else if i == 91 {
        } else if i == 92 {
        } else if i == 93 {
        } else if i == 94 {
        } else if i == 95 {
        } else if i == 96 {
        } else if i == 97 {
        } else if i == 98 {
        } else if i == 99 {
        } else if i == 100 {
        } else if i == 101 {
        } else if i == 102 {
        } else if i == 103 {
        } else if i == 104 {
        } else if i == 105 {
        } else if i == 106 {
        } else if i == 107 {
        } else if i == 108 {
        } else if i == 109 {
        } else if i == 110 {
        } else if i == 111 {
        } else if i == 112 {
        } else if i == 113 {
        } else if i == 114 {
        } else if i == 115 {
        } else if i == 116 {
        } else if i == 117 {
        } else if i == 118 {
        } else if i == 119 {
        } else if i == 120 {
        } else if i == 121 {
        } else if i == 122 {
        } else if i == 123 {
        } else if i == 124 {
        } else if i == 125 {
        } else if i == 126 {
        } else if i == 127 {
        } else if i == 128 {
        } else if i == 129 {
        } else if i == 130 {
        } else if i == 131 {
        } else if i == 132 {
        } else if i == 133 {
        } else if i == 134 {
        } else if i == 135 {
        } else if i == 136 {
        } else if i == 137 {
        } else if i == 138 {
        } else if i == 139 {
        } else if i == 140 {
        } else if i == 141 {
        } else if i == 142 {
        } else if i == 143 {
        } else if i == 144 {
        } else if i == 145 {
        } else if i == 146 {
        } else if i == 147 {
        } else if i == 148 {
        } else if i == 149 {
        } else if i == 150 {
        } else if i == 151 {
        } else if i == 152 {
        } else if i == 153 {
        } else if i == 154 {
        } else if i == 155 {
        } else if i == 156 {
        } else if i == 157 {
        } else if i == 158 {
        } else if i == 159 {
        } else if i == 160 {
        } else if i == 161 {
        } else if i == 162 {
        } else if i == 163 {
        } else if i == 164 {
        } else if i == 165 {
        } else if i == 166 {
        } else if i == 167 {
        } else if i == 168 {
        } else if i == 169 {
        } else if i == 170 {
        } else if i == 171 {
        } else if i == 172 {
        } else if i == 173 {
        } else if i == 174 {
        } else if i == 175 {
        } else if i == 176 {
        } else if i == 177 {
        } else if i == 178 {
        } else if i == 179 {
        } else if i == 180 {
        } else if i == 181 {
        } else if i == 182 {
        } else if i == 183 {
        } else if i == 184 {
        } else if i == 185 {
        } else if i == 186 {
        } else if i == 187 {
        } else if i == 188 {
        } else if i == 189 {
        } else if i == 190 {
        } else if i == 191 {
        } else if i == 192 {
        } else if i == 193 {
        } else if i == 194 {
        } else if i == 195 {
        } else if i == 196 {
        } else if i == 197 {
        } else if i == 198 {
        } else if i == 199 {
        } else if i == 200 {
        } else if i == 201 {
        } else if i == 202 {
        } else if i == 203 {
        } else if i == 204 {
        } else if i == 205 {
        } else if i == 206 {
        } else if i == 207 {
        } else if i == 208 {
        } else if i == 209 {
        } else if i == 210 {
        } else if i == 211 {
        } else if i == 212 {
        } else if i == 213 {
        } else if i == 214 {
        } else if i == 215 {
        } else if i == 216 {
        }
    }
}

/// No two entries of the device table name the same vendor and device.
pub proof fn lemma_devices_distinct()
    ensures
        forall|i: int, j: int|
            0 <= i < j < DEVICE_COUNT ==> (#[trigger] devices()[i]).vendor_id != (#[trigger] devices()[j]).vendor_id
                || devices()[i].device_id != devices()[j].device_id,
{
    lemma_key_positions();
    assert forall|i: int, j: int|
        0 <= i < j < DEVICE_COUNT implies (#[trigger] devices()[i]).vendor_id != (#[trigger] devices()[j]).vendor_id
            || devices()[i].device_id != devices()[j].device_id by {
        assert(devices()[i] == device_entry(i as usize));
        assert(devices()[j] == device_entry(j as usize));
        assert(key_position(device_key(i)) == i);
        assert(key_position(device_key(j)) == j);
    }
}

/// The number of known devices.
pub fn get_device_count() -> (r: usize)
    ensures
        r == devices().len(),
        r >= 200,
{
    DEVICE_COUNT
}

} // verus!
