use rustos::package::archive::ar::ArArchive;
use rustos::package::compression::gzip::GzipDecoder;
use rustos::package::compression::tar::TarEntryType;

#[test]
fn test_ar_magic_validation() {
    let valid_header = b"!<arch>\n";
    let invalid_header = b"!<invalid";
    assert!(ArArchive::parse(valid_header).is_ok());
    assert!(ArArchive::parse(invalid_header).is_err());
}

#[test]
fn test_gzip_validation() {
    let valid_gzip = [0x1f, 0x8b, 0x08, 0x00, 0x00, 0x00, 0x00, 0x00];
    assert!(GzipDecoder::validate(&valid_gzip));
    let invalid = [0x00, 0x00, 0x00, 0x00];
    assert!(!GzipDecoder::validate(&invalid));
}

#[test]
fn test_tar_entry_type() {
    assert_eq!(TarEntryType::from_byte(b'0'), TarEntryType::File);
    assert_eq!(TarEntryType::from_byte(b'5'), TarEntryType::Directory);
    assert_eq!(TarEntryType::from_byte(b'2'), TarEntryType::SymLink);
}
