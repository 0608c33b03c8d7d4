use bms_downloader::archive::{is_valid_archive, sniff_archive, ArchiveFormat, ArchiveVerdict};

#[test]
fn zip_prefix_is_recognized() {
    assert_eq!(
        sniff_archive(&[0x50, 0x4B, 0x03, 0x04]),
        ArchiveVerdict::Recognized(ArchiveFormat::Zip)
    );
    assert!(is_valid_archive(&[0x50, 0x4B, 0x03, 0x04]));
}

#[test]
fn zip_is_known_by_two_bytes() {
    assert_eq!(
        sniff_archive(&[0x50, 0x4B, 0x05, 0x06]),
        ArchiveVerdict::Recognized(ArchiveFormat::Zip)
    );
}

#[test]
fn rar_prefix_is_recognized() {
    assert_eq!(
        sniff_archive(&[0x52, 0x61, 0x72, 0x21]),
        ArchiveVerdict::Recognized(ArchiveFormat::Rar)
    );
    assert!(is_valid_archive(b"Rar!\x1a\x07"));
}

#[test]
fn seven_zip_prefix_is_recognized() {
    assert_eq!(
        sniff_archive(&[0x37, 0x7A, 0xBC, 0xAF]),
        ArchiveVerdict::Recognized(ArchiveFormat::SevenZip)
    );
}

#[test]
fn tar_marker_at_the_start_is_recognized() {
    assert_eq!(sniff_archive(b"ustar"), ArchiveVerdict::Recognized(ArchiveFormat::Tar));
    assert_eq!(sniff_archive(b"usta"), ArchiveVerdict::Recognized(ArchiveFormat::Tar));
}

#[test]
fn other_bytes_are_not_recognized() {
    assert_eq!(sniff_archive(&[0x00, 0x01, 0x02, 0x03]), ArchiveVerdict::Unrecognized);
    assert_eq!(sniff_archive(&[0x52, 0x61, 0x72, 0x20]), ArchiveVerdict::Unrecognized);
    assert_eq!(sniff_archive(&[0x37, 0x7A, 0xBC, 0xAE]), ArchiveVerdict::Unrecognized);
    assert_eq!(sniff_archive(b"<!DOCTYPE html>"), ArchiveVerdict::Unrecognized);
    assert!(!is_valid_archive(b"<!DOCTYPE html>"));
}

#[test]
fn short_files_are_not_recognized() {
    assert_eq!(sniff_archive(&[0x50, 0x4B]), ArchiveVerdict::Unrecognized);
    assert_eq!(sniff_archive(&[0x50, 0x4B, 0x03]), ArchiveVerdict::Unrecognized);
    assert_eq!(sniff_archive(&[]), ArchiveVerdict::Unrecognized);
    assert!(!is_valid_archive(&[0x50, 0x4B]));
}

#[test]
fn only_the_first_four_bytes_count() {
    let mut bytes = vec![0x50, 0x4B, 0x03, 0x04];
    bytes.extend_from_slice(&[0xFF; 300]);
    assert_eq!(sniff_archive(&bytes), ArchiveVerdict::Recognized(ArchiveFormat::Zip));
    let mut tar = vec![0u8; 257];
    tar.extend_from_slice(b"ustar");
    assert_eq!(sniff_archive(&tar), ArchiveVerdict::Unrecognized);
}
