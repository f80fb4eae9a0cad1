use rustos::package::archive::ar::ArArchive;
use rustos::package::compression::{CompressionFormat, TarArchive};
use rustos::package::{
    DebAdapter, PackageAdapter, PackageDatabase, PackageInfo, PackageManager, PackageManagerType, PackageMetadata,
    PackageOperation, PackageStatus,
};

fn installed(name: &str) -> PackageInfo {
    PackageInfo {
        metadata: PackageMetadata::new(name.to_string(), "1.0.0".to_string(), "amd64".to_string()),
        install_time: 1234567890,
        installed_files: Vec::new(),
        status: PackageStatus::Installed,
    }
}

#[test]
fn package_database_add_search_remove() {
    let mut db = PackageDatabase::new();
    assert!(db.add_package(installed("test-package")).is_ok());
    assert_eq!(db.package_count(), 1);
    assert!(db.is_installed("test-package"));
    assert!(!db.is_installed("nonexistent-package"));
    let results = db.search("test");
    assert_eq!(results.len(), 1);
    assert!(db.remove_package("test-package").is_ok());
    assert_eq!(db.package_count(), 0);
    assert!(db.remove_package("test-package").is_err());
}

#[test]
fn deb_validation_checks_ar_magic() {
    let adapter = DebAdapter::new();
    assert!(adapter.validate(b"!<arch>\n").unwrap_or(false));
    assert!(!adapter.validate(b"INVALID!").unwrap_or(true));
}

#[test]
fn ar_archive_with_one_member() {
    let mut ar_data = Vec::new();
    ar_data.extend_from_slice(b"!<arch>\n");
    let mut header = [b' '; 60];
    header[0..8].copy_from_slice(b"test.txt");
    header[16..28].copy_from_slice(b"1234567890  ");
    header[28..34].copy_from_slice(b"0     ");
    header[34..40].copy_from_slice(b"0     ");
    header[40..48].copy_from_slice(b"100644  ");
    header[48..58].copy_from_slice(b"11        ");
    header[58..60].copy_from_slice(b"`\n");
    ar_data.extend_from_slice(&header);
    ar_data.extend_from_slice(b"hello world");
    ar_data.push(b'\n');
    let archive = ArArchive::parse(&ar_data).unwrap();
    assert_eq!(archive.members().len(), 1);
    let member = &archive.members()[0];
    assert_eq!(member.name.trim(), "test.txt");
    assert_eq!(member.size, 11);
    assert_eq!(archive.find_member("test.txt").unwrap().as_slice(), b"hello world");
}

#[test]
fn tar_archive_with_one_file() {
    let mut tar_data = Vec::new();
    let mut header = [0u8; 512];
    header[0..9].copy_from_slice(b"test.txt\0");
    header[100..107].copy_from_slice(b"0000644");
    header[124..135].copy_from_slice(b"00000000013");
    header[257..262].copy_from_slice(b"ustar");
    header[156] = b'0';
    let checksum = header.iter().map(|&b| b as u32).sum::<u32>();
    let checksum_str = format!("{:06o}\0 ", checksum);
    header[148..156].copy_from_slice(checksum_str.as_bytes());
    tar_data.extend_from_slice(&header);
    tar_data.extend_from_slice(b"hello world");
    tar_data.extend_from_slice(&[0u8; 501]);
    tar_data.extend_from_slice(&[0u8; 1024]);
    let archive = TarArchive::parse(&tar_data).unwrap();
    assert!(archive.entries().len() >= 1);
    let entry = archive.find_entry("test.txt").unwrap();
    assert_eq!(entry.size, 11);
    assert_eq!(entry.data.as_slice(), b"hello world");
}

#[test]
fn compression_detection() {
    assert_eq!(CompressionFormat::detect(&[0x1f, 0x8b, 0x08, 0x00]), CompressionFormat::Gzip);
    assert_eq!(CompressionFormat::detect(&[0x00, 0x01, 0x02, 0x03]), CompressionFormat::Plain);
}

#[test]
fn package_manager_list_and_search() {
    let mut pm = PackageManager::new(PackageManagerType::Native);
    let listed = pm.execute_operation(PackageOperation::List, "").unwrap();
    assert!(listed.contains("No packages installed") || listed.contains("Installed packages"));
    if let Ok(result) = pm.execute_operation(PackageOperation::Search, "test") {
        assert!(result.contains("No packages found") || result.contains("Found"));
    }
}
