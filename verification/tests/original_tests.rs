use ghostzip::archive::{detect_archive_format, safe_output_path, ArchiveEntry, ArchiveFormat, EntryKind};
use ghostzip::commands::archive_output_stem;
use ghostzip::engine::should_use_space_saver;
use ghostzip::scheduler::schedule_entries;
use ghostzip::sevenzip::parse_list_output;

#[test]
fn default_output_folder_handles_common_archive_suffixes() {
    assert_eq!(archive_output_stem("photos.zip"), "photos");
    assert_eq!(archive_output_stem("backup.tar.gz"), "backup");
    assert_eq!(archive_output_stem("linux.tar.xz"), "linux");
    assert_eq!(archive_output_stem("game.7z"), "game");
    assert_eq!(archive_output_stem("movie.rar"), "movie");
}

#[test]
fn rejects_path_traversal() {
    let dir = tempfile::tempdir().expect("tempdir");
    let base = dir.path().to_str().expect("utf-8 temp path");
    let result = safe_output_path(base, "../../../../etc/passwd");
    assert!(result.is_err());
}

#[test]
fn detects_magic_bytes_without_extension() {
    let zip: &[u8] = b"PK\x03\x04rest";
    let rar: &[u8] = b"Rar!\x1A\x07\x00rest";
    let sevenz: &[u8] = &[0x37, 0x7A, 0xBC, 0xAF, 0x27, 0x1C];
    let targz: &[u8] = &[0x1F, 0x8B, 0x08];
    assert_eq!(detect_archive_format("archive.bin", zip).unwrap(), ArchiveFormat::Zip);
    assert_eq!(detect_archive_format("rar.bin", rar).unwrap(), ArchiveFormat::Rar);
    assert_eq!(detect_archive_format("seven.bin", sevenz).unwrap(), ArchiveFormat::SevenZip);
    assert_eq!(detect_archive_format("gzip.bin", targz).unwrap(), ArchiveFormat::TarGz);
}

#[test]
fn triggers_space_saver_when_free_space_is_below_total_uncompressed_size() {
    let five_hundred_mb = 500 * 1024 * 1024;
    let two_gb = 2 * 1024 * 1024 * 1024;
    assert!(should_use_space_saver(five_hundred_mb, two_gb));
}

#[test]
fn sorts_smallest_first_in_space_saver_mode() {
    let entries = vec![
        ArchiveEntry {
            path: "large.bin".to_string(),
            compressed_size: 1,
            uncompressed_size: 2_000,
            kind: EntryKind::File,
        },
        ArchiveEntry {
            path: "small.bin".to_string(),
            compressed_size: 1,
            uncompressed_size: 10,
            kind: EntryKind::File,
        },
    ];

    let ordered = schedule_entries(&entries, true);
    assert_eq!(ordered[0].path, "small.bin");
}

#[test]
fn parses_7zip_technical_listing() {
    let output = r#"
Path = folder
Size = 0
Packed Size = 0
Attributes = D

Path = folder/file.txt
Size = 12
Packed Size = 8
Attributes = A
"#;

    let entries = parse_list_output(output).expect("parse");
    assert_eq!(entries.len(), 2);
    assert_eq!(entries[0].kind, EntryKind::Directory);
    assert_eq!(entries[1].path, "folder/file.txt");
    assert_eq!(entries[1].uncompressed_size, 12);
}

