use ghostzip::archive::{
    detect_archive_format, validate_entry_path, ArchiveEntry, ArchiveFormat, EntryKind,
};
use ghostzip::commands::{
    archive_output_stem, default_output_dir_for_archive, default_output_folder,
    default_output_for_action, get_launch_context,
};
use ghostzip::constants::{DISK_CHECK_INTERVAL_BYTES, LOW_SPACE_FLOOR_BYTES};
use ghostzip::engine::{
    build_manifest, resolve_space_saver, retain_extractable, route_for, ExtractionRoute,
    ExtractorEngine,
};
use ghostzip::errors::EngineError;
use ghostzip::extract::{
    control_decision, partial_output_path, tar_entry_action, ControlDecision, DiskThrottle, ExtractionTally,
    TarEntryAction,
};
use ghostzip::purge::{
    file_entries, finish_extraction, low_space_wait, purge_entry_step, verify_extracted_entry, EntryChecksum,
    FinishAction, LowSpaceWait, PurgeAction,
};
use ghostzip::scheduler::schedule_entries;
use ghostzip::session::{ExtractionMode, ExtractionSession, UserExtractionMode};
use ghostzip::sevenzip::{
    bundled_helper_from_workspace, extract_arguments, extraction_result, helper_error,
    helper_message, list_arguments, listing_result, parse_list_output,
};
use ghostzip::storage::{select_disk, DiskSpaceInfo};
use ghostzip::text::{decimal_string, hex8_string, parse_u64_chars};

fn entry(path: &str, size: u64, kind: EntryKind) -> ArchiveEntry {
    ArchiveEntry { path: path.to_string(), compressed_size: size / 2, uncompressed_size: size, kind }
}

fn disk(mount: &str, available: u64) -> DiskSpaceInfo {
    DiskSpaceInfo { mount_point: mount.to_string(), total_bytes: 1 << 40, available_bytes: available }
}

#[test]
fn space_saver_schedule_puts_directories_first_then_smallest_files() {
    let entries = vec![
        entry("b.bin", 50, EntryKind::File),
        entry("dir/", 0, EntryKind::Directory),
        entry("a.bin", 50, EntryKind::File),
        entry("tiny.bin", 1, EntryKind::File),
    ];
    let ordered = schedule_entries(&entries, true);
    let paths: Vec<&str> = ordered.iter().map(|e| e.path.as_str()).collect();
    assert_eq!(paths, vec!["dir/", "tiny.bin", "a.bin", "b.bin"]);
}

#[test]
fn schedule_keeps_archive_order_without_space_saver() {
    let entries = vec![entry("z", 9, EntryKind::File), entry("a", 1, EntryKind::File)];
    let ordered = schedule_entries(&entries, false);
    assert_eq!(ordered[0].path, "z");
    assert_eq!(ordered[1].path, "a");
}

#[test]
fn schedule_is_stable_for_equal_entries() {
    let mut first = entry("same", 5, EntryKind::File);
    first.compressed_size = 1;
    let mut second = entry("same", 5, EntryKind::File);
    second.compressed_size = 2;
    let entries = vec![entry("big", 9, EntryKind::File), first, second];
    let ordered = schedule_entries(&entries, true);
    assert_eq!(ordered[0].compressed_size, 1);
    assert_eq!(ordered[1].compressed_size, 2);
    assert_eq!(ordered[2].path, "big");
}

#[test]
fn session_mode_reads_back_what_was_set() {
    let mut engine = ExtractorEngine::new();
    let manifest = build_manifest(
        "s1".to_string(),
        "/a/x.zip".to_string(),
        "/a/x".to_string(),
        ArchiveFormat::Zip,
        vec![entry("f", 10, EntryKind::File)],
        5,
        disk("/", 1000),
    );
    engine.register_session("s1".to_string(), ExtractionSession::new(manifest, false));
    assert_eq!(engine.mode_for("s1").unwrap(), ExtractionMode::Running);
    engine.set_mode("s1", ExtractionMode::PausedByUser).unwrap();
    assert_eq!(engine.mode_for("s1").unwrap(), ExtractionMode::PausedByUser);
    match engine.set_mode("missing", ExtractionMode::Cancelled) {
        Err(EngineError::SessionNotFound(id)) => assert_eq!(id, "missing"),
        other => panic!("unexpected {:?}", other),
    }
    match engine.mode_for("missing") {
        Err(EngineError::SessionNotFound(id)) => assert_eq!(id, "missing"),
        other => panic!("unexpected {:?}", other),
    }
}

#[test]
fn inspection_opens_a_running_session_with_the_manifest() {
    let mut engine = ExtractorEngine::new();
    let entries = vec![
        entry("big.bin", 700, EntryKind::File),
        entry("d/", 0, EntryKind::Directory),
        entry("small.bin", 300, EntryKind::File),
    ];
    let manifest = engine.inspect_archive(
        "/data/a.zip".to_string(),
        "/data/a".to_string(),
        ArchiveFormat::Zip,
        entries,
        400,
        disk("/data", 1000),
    );
    assert_eq!(manifest.session_id.len(), 36);
    for (i, c) in manifest.session_id.chars().enumerate() {
        if i == 8 || i == 13 || i == 18 || i == 23 {
            assert_eq!(c, '-');
        } else {
            assert!(c.is_ascii_digit() || ('a'..='f').contains(&c));
        }
    }
    assert_eq!(manifest.session_id.chars().nth(14), Some('4'));
    assert!("89ab".contains(manifest.session_id.chars().nth(19).unwrap()));
    assert_eq!(manifest.total_uncompressed_size, 1000);
    assert!(manifest.recommended_space_saver);
    assert!(!manifest.tight_space);
    assert_eq!(manifest.file_count, 2);
    assert_eq!(manifest.directory_count, 1);
    assert_eq!(manifest.entries[0].path, "d/");
    assert_eq!(manifest.entries[1].path, "small.bin");
    let session = engine.session_for(&manifest.session_id).unwrap();
    assert_eq!(session.mode, ExtractionMode::Running);
    assert!(session.space_saver);
    assert_eq!(session.manifest.entries.len(), 3);
}

#[test]
fn tight_space_is_reported_below_twice_the_total() {
    let manifest = build_manifest(
        "s".to_string(),
        "a.tar".to_string(),
        "out".to_string(),
        ArchiveFormat::Tar,
        vec![entry("z.bin", 600, EntryKind::File), entry("a.bin", 400, EntryKind::File)],
        0,
        disk("/", 1500),
    );
    assert!(!manifest.recommended_space_saver);
    assert!(manifest.tight_space);
    assert_eq!(manifest.entries[0].path, "z.bin");
}

#[test]
fn empty_archives_are_refused() {
    let only_links = vec![entry("l", 0, EntryKind::Symlink), entry("o", 0, EntryKind::Other)];
    assert!(matches!(retain_extractable(only_links), Err(EngineError::EmptyArchive)));
    let mixed = vec![entry("l", 0, EntryKind::Symlink), entry("f", 3, EntryKind::File)];
    let kept = retain_extractable(mixed).unwrap();
    assert_eq!(kept.len(), 1);
    assert_eq!(kept[0].path, "f");
}

#[test]
fn start_extraction_plans_by_mode_and_format() {
    let mut engine = ExtractorEngine::new();
    let manifest = engine.inspect_archive(
        "/a/x.7z".to_string(),
        "/a/x".to_string(),
        ArchiveFormat::SevenZip,
        vec![entry("f", 10, EntryKind::File)],
        5,
        disk("/", 1 << 30),
    );
    let id = manifest.session_id.clone();
    engine.set_mode(&id, ExtractionMode::PausedByUser).unwrap();
    let plan = engine.start_extraction(&id, UserExtractionMode::ExtractAndPurge).unwrap();
    assert_eq!(plan.route, ExtractionRoute::ExtractThenDelete);
    assert!(plan.session.space_saver);
    assert_eq!(engine.mode_for(&id).unwrap(), ExtractionMode::Running);
    let plan = engine.start_extraction(&id, UserExtractionMode::Normal).unwrap();
    assert_eq!(plan.route, ExtractionRoute::Standard);
    assert!(!plan.session.space_saver);
    assert!(engine.start_extraction("nope", UserExtractionMode::Auto).is_err());
    assert_eq!(route_for(UserExtractionMode::ExtractAndPurge, ArchiveFormat::Zip), ExtractionRoute::SparseZipPurge);
    assert!(resolve_space_saver(UserExtractionMode::Auto, true));
    assert!(!resolve_space_saver(UserExtractionMode::Normal, true));
}

#[test]
fn user_messages_match_each_error() {
    assert_eq!(
        EngineError::UnsupportedFormat("cab".to_string()).user_message(),
        "cab archives are detected but are not yet extractable in this build."
    );
    assert_eq!(
        EngineError::Io { context: "open a".to_string(), source: "denied".to_string() }.user_message(),
        "open a: denied"
    );
    assert_eq!(
        EngineError::CorruptEntry { path: "p".to_string(), detail: "d".to_string() }.user_message(),
        "Corrupt entry p: d"
    );
    assert_eq!(EngineError::DiskFull.user_message(), "The target drive is full.");
    assert_eq!(
        EngineError::SessionNotFound("x".to_string()).user_message(),
        "This extraction session expired. Analyze the archive again."
    );
    assert_eq!(EngineError::Archive("boom".to_string()).user_message(), "boom");
}

#[test]
fn format_detection_falls_back_to_the_tar_extension() {
    assert_eq!(detect_archive_format("backup.TAR", b"nothing").unwrap(), ArchiveFormat::Tar);
    match detect_archive_format("file.CAB", b"nothing") {
        Err(EngineError::UnsupportedFormat(ext)) => assert_eq!(ext, "cab"),
        other => panic!("unexpected {:?}", other),
    }
    let mut header = vec![0u8; 300];
    header[257..262].copy_from_slice(b"ustar");
    assert_eq!(detect_archive_format("noext", &header).unwrap(), ArchiveFormat::Tar);
    assert_eq!(detect_archive_format("x.tar", b"BZh91").unwrap(), ArchiveFormat::TarBz2);
    assert_eq!(
        detect_archive_format("x", &[0xFD, b'7', b'z', b'X', b'Z', 0x00, 1]).unwrap(),
        ArchiveFormat::TarXz
    );
    assert_eq!(detect_archive_format("x", b"PK\x05\x06").unwrap(), ArchiveFormat::Zip);
    assert_eq!(ArchiveFormat::TarGz.label(), "TAR.GZ");
}

#[test]
fn entry_paths_that_escape_are_refused() {
    assert!(validate_entry_path("/etc/passwd").is_err());
    assert!(validate_entry_path("a/../../b").is_err());
    assert!(validate_entry_path("a/./b.txt").is_ok());
    assert!(validate_entry_path("folder/file.txt").is_ok());
}

#[test]
fn default_output_folders() {
    assert_eq!(default_output_folder("/home/u/Photos.zip").unwrap(), "/home/u/Photos");
    assert_eq!(default_output_folder("/home/u/data.TAR.GZ").unwrap(), "/home/u/data");
    assert_eq!(default_output_folder("/home/u/notes.v2.cab").unwrap(), "/home/u/notes.v2");
    assert_eq!(default_output_folder("/home/u/README").unwrap(), "/home/u/Extracted");
    assert!(default_output_folder("/").is_none());
    assert_eq!(default_output_for_action("/home/u/a.zip", "extract-here").unwrap(), "/home/u");
    assert_eq!(default_output_dir_for_archive("/x/y.7z".to_string()).unwrap(), "/x/y");
    assert_eq!(
        default_output_dir_for_archive("/".to_string()).unwrap_err(),
        "Archive path does not have a parent directory."
    );
    assert_eq!(archive_output_stem(".zip"), "");
    assert_eq!(archive_output_stem("x.TGZ"), "x");
}

#[test]
fn launch_arguments_are_read() {
    let args: Vec<String> = vec!["--action", "extract-here", "/d/a.zip"].into_iter().map(String::from).collect();
    let ctx = get_launch_context(&args);
    assert_eq!(ctx.archive_path.as_deref(), Some("/d/a.zip"));
    assert_eq!(ctx.output_dir.as_deref(), Some("/d"));
    assert_eq!(ctx.requested_action, "extract-here");

    let args: Vec<String> = vec!["/d/b.tar.gz", "--output", "/out", "--unknown"].into_iter().map(String::from).collect();
    let ctx = get_launch_context(&args);
    assert_eq!(ctx.archive_path.as_deref(), Some("/d/b.tar.gz"));
    assert_eq!(ctx.output_dir.as_deref(), Some("/out"));
    assert_eq!(ctx.requested_action, "open");

    let args: Vec<String> = vec!["--archive", "/d/c.rar"].into_iter().map(String::from).collect();
    let ctx = get_launch_context(&args);
    assert_eq!(ctx.output_dir.as_deref(), Some("/d/c"));

    let ctx = get_launch_context(&["--archive".to_string()]);
    assert_eq!(ctx.archive_path, None);
    assert_eq!(ctx.output_dir, None);
}

#[test]
fn listing_parser_handles_windows_lines_and_bad_sizes() {
    let output = "Path = a\r\nSize = +15\r\nPacked Size = x\r\n\r\nPath = \r\nSize = 3\r\n\r\nPath = b\nAttributes = DA";
    let entries = parse_list_output(output).unwrap();
    assert_eq!(entries.len(), 2);
    assert_eq!(entries[0].path, "a");
    assert_eq!(entries[0].uncompressed_size, 15);
    assert_eq!(entries[0].compressed_size, 0);
    assert_eq!(entries[1].path, "b");
    assert_eq!(entries[1].kind, EntryKind::Directory);
    match parse_list_output("nothing here") {
        Err(EngineError::Archive(m)) => assert_eq!(m, "RAR inspection did not return any extractable entries."),
        other => panic!("unexpected {:?}", other),
    }
}

#[test]
fn helper_failures_are_explained() {
    assert_eq!(helper_error("RAR inspection", b"  \n"), "RAR inspection: 7-Zip helper exited with an error");
    assert_eq!(
        helper_error("X", b"ERROR: Wrong password : a.rar\n"),
        "X: password required or password is incorrect"
    );
    assert_eq!(helper_error("X", b"  disk error \n"), "X: disk error");
    assert_eq!(helper_error("X", b"bad \xff byte"), "X: bad \u{FFFD} byte");
    match listing_result(false, b"", b"Data Error: encrypted archive") {
        Err(EngineError::Archive(m)) => assert_eq!(m, "RAR inspection: password required or password is incorrect"),
        other => panic!("unexpected {:?}", other),
    }
    let listed = listing_result(true, b"Path = x\nSize = 4\n", b"").unwrap();
    assert_eq!(listed[0].uncompressed_size, 4);
    assert!(extraction_result(true, "a", b"").is_ok());
    match extraction_result(false, "a/b", b"") {
        Err(EngineError::Archive(m)) => assert_eq!(m, "RAR extraction failed for a/b: 7-Zip helper exited with an error"),
        other => panic!("unexpected {:?}", other),
    }
}

#[test]
fn helper_arguments_and_location() {
    assert_eq!(list_arguments("a.rar"), vec!["l", "-slt", "-ba", "-sccUTF-8", "a.rar"]);
    assert_eq!(
        extract_arguments("/out", "a.rar", "d/f.txt"),
        vec!["x", "-y", "-bd", "-bb0", "-aoa", "-sccUTF-8", "-spd", "-o/out", "a.rar", "--", "d/f.txt"]
    );
    assert_eq!(
        bundled_helper_from_workspace("/w/src-tauri"),
        "/w/src-tauri/../node_modules/7zip-bin/win/x64/7za.exe"
    );
}

#[test]
fn disk_with_the_longest_mount_point_is_chosen() {
    let disks = vec![disk("/", 1), disk("/data", 2), disk("/data/media", 3), disk("/other", 4)];
    let chosen = select_disk("/data/media/x.zip", "/data/media", &disks).unwrap();
    assert_eq!(chosen.available_bytes, 3);
    let chosen = select_disk("/data/y", "/data", &disks).unwrap();
    assert_eq!(chosen.available_bytes, 2);
    let twins = vec![disk("/", 1), disk("/", 7)];
    assert_eq!(select_disk("/q", "/q", &twins).unwrap().available_bytes, 7);
    match select_disk("rel/p", "rel", &[disk("/", 1)]) {
        Err(EngineError::Archive(m)) => assert_eq!(m, "No mounted drive found for rel/p"),
        other => panic!("unexpected {:?}", other),
    }
}

#[test]
fn throttle_measures_and_pauses_on_low_space() {
    let mut t = DiskThrottle::new();
    assert!(t.begin_attempt(100));
    t.record_free_space(LOW_SPACE_FLOOR_BYTES + 150);
    assert!(t.try_reserve(100));
    assert_eq!(t.last_known_free(), LOW_SPACE_FLOOR_BYTES + 50);
    assert_eq!(t.files_since_last_check(), 0);
    assert!(!t.begin_attempt(100));
    assert!(!t.try_reserve(100));
    assert_eq!(t.bytes_since_last_check(), DISK_CHECK_INTERVAL_BYTES);
    assert_eq!(t.last_known_free(), LOW_SPACE_FLOOR_BYTES + 50);
    assert!(t.begin_attempt(0));
    for _ in 0..49 {
        assert!(!t.begin_attempt(0));
    }
    assert!(t.begin_attempt(0));
}

#[test]
fn control_decisions_follow_the_mode() {
    assert!(matches!(control_decision(ExtractionMode::Running), ControlDecision::Proceed));
    assert!(matches!(control_decision(ExtractionMode::Complete), ControlDecision::Proceed));
    assert!(matches!(control_decision(ExtractionMode::PausedByUser), ControlDecision::Wait { user_paused: true }));
    assert!(matches!(control_decision(ExtractionMode::PausedByLowSpace), ControlDecision::Wait { user_paused: false }));
    match control_decision(ExtractionMode::Cancelled) {
        ControlDecision::Stop(e) => assert_eq!(e.user_message(), "Extraction cancelled."),
        other => panic!("unexpected {:?}", other),
    }
    assert!(matches!(low_space_wait(ExtractionMode::Running), LowSpaceWait::Resume));
    assert!(matches!(low_space_wait(ExtractionMode::PausedByUser), LowSpaceWait::KeepWaiting));
    assert!(matches!(low_space_wait(ExtractionMode::Cancelled), LowSpaceWait::Stop(_)));
}

#[test]
fn tally_counts_files_and_saturates_bytes() {
    let mut tally = ExtractionTally::new();
    tally.record_file(u64::MAX - 1);
    tally.record_file(5);
    assert_eq!(tally.extracted_bytes, u64::MAX);
    assert_eq!(tally.extracted_files, 2);
}

#[test]
fn partial_files_use_the_ghostzip_extension() {
    assert_eq!(partial_output_path("/out/file.bin"), "/out/file.ghostzip-partial");
    assert_eq!(partial_output_path("/out/noext"), "/out/noext.ghostzip-partial");
}

#[test]
fn checksum_over_chunks_is_the_crc32_of_the_whole() {
    let mut c = EntryChecksum::new();
    c.update(b"1234");
    c.update(b"56789");
    assert_eq!(c.finalize(), 0xCBF4_3926);
    assert_eq!(EntryChecksum::new().finalize(), 0);
}

#[test]
fn extracted_entries_are_verified_before_purging() {
    let e = entry("f.bin", 10, EntryKind::File);
    assert!(verify_extracted_entry(&e, 10, 0xABCD, 0xABCD).is_ok());
    assert!(verify_extracted_entry(&e, 10, 0, 0x1234).is_ok());
    match verify_extracted_entry(&e, 7, 1, 2) {
        Err(EngineError::CorruptEntry { path, detail }) => {
            assert_eq!(path, "f.bin");
            assert_eq!(detail, "Size mismatch: expected 10 bytes, got 7");
        }
        other => panic!("unexpected {:?}", other),
    }
    match verify_extracted_entry(&e, 10, 0xABCD, 0xDEADBEEF) {
        Err(EngineError::CorruptEntry { detail, .. }) => {
            assert_eq!(detail, "CRC32 mismatch: expected 0000ABCD, got DEADBEEF")
        }
        other => panic!("unexpected {:?}", other),
    }
    let unsized_entry = entry("g", 0, EntryKind::File);
    assert!(verify_extracted_entry(&unsized_entry, 99, 0, 5).is_ok());
    let files = file_entries(&[entry("d", 0, EntryKind::Directory), e.clone()]);
    assert_eq!(files.len(), 1);
}

#[test]
fn numbers_are_read_and_written_like_std() {
    let c = |s: &str| s.chars().collect::<Vec<char>>();
    assert_eq!(parse_u64_chars(&c("18446744073709551615")), Some(u64::MAX));
    assert_eq!(parse_u64_chars(&c("18446744073709551616")), None);
    assert_eq!(parse_u64_chars(&c("+")), None);
    assert_eq!(parse_u64_chars(&c("")), None);
    assert_eq!(parse_u64_chars(&c("-1")), None);
    assert_eq!(parse_u64_chars(&c("007")), Some(7));
    assert_eq!(decimal_string(0), "0");
    assert_eq!(decimal_string(1234567890), "1234567890");
    assert_eq!(decimal_string(u64::MAX), u64::MAX.to_string());
    assert_eq!(hex8_string(0x1F), "0000001F");
}

#[test]
fn helper_messages_are_built_from_text() {
    assert_eq!(helper_message("X", "  \t\n"), "X: 7-Zip helper exited with an error");
    assert_eq!(helper_message("X", "\n File is ENCRYPTED \n"), "X: password required or password is incorrect");
    assert_eq!(helper_message("X", "Can not open file"), "X: Can not open file");
    assert_eq!(helper_error("X", "  Can not open ü \n".as_bytes()), helper_message("X", "  Can not open ü \n"));
}

#[test]
fn purge_releases_only_verified_entries() {
    let e = ArchiveEntry { path: "f.bin".to_string(), compressed_size: 6, uncompressed_size: 10, kind: EntryKind::File };
    match purge_entry_step(&e, 10, 0xABCD, 0xABCD, 4096, 7) {
        PurgeAction::Release { offset, length } => {
            assert_eq!(offset, 4096);
            assert_eq!(length, 7);
        }
        other => panic!("unexpected {:?}", other),
    }
    match purge_entry_step(&e, 9, 0xABCD, 0xABCD, 4096, 7) {
        PurgeAction::Discard(EngineError::CorruptEntry { path, detail }) => {
            assert_eq!(path, "f.bin");
            assert_eq!(detail, "Size mismatch: expected 10 bytes, got 9");
        }
        other => panic!("unexpected {:?}", other),
    }
    match purge_entry_step(&e, 10, 0xABCD, 0x1, 4096, 7) {
        PurgeAction::Discard(EngineError::CorruptEntry { detail, .. }) => {
            assert_eq!(detail, "CRC32 mismatch: expected 0000ABCD, got 00000001")
        }
        other => panic!("unexpected {:?}", other),
    }
    let stored_empty = ArchiveEntry { path: "e".to_string(), compressed_size: 0, uncompressed_size: 0, kind: EntryKind::File };
    assert!(matches!(purge_entry_step(&stored_empty, 0, 0, 0, 30, 0), PurgeAction::AlreadyReleased));
}

#[test]
fn tar_entries_are_skipped_created_or_copied() {
    assert!(matches!(tar_entry_action(EntryKind::Symlink, "/out", "link"), TarEntryAction::Skip));
    assert!(matches!(tar_entry_action(EntryKind::File, "/out", "../evil"), TarEntryAction::Skip));
    assert!(matches!(tar_entry_action(EntryKind::Directory, "/out", "/abs"), TarEntryAction::Skip));
    match tar_entry_action(EntryKind::Directory, "/out", "d/e") {
        TarEntryAction::CreateDirectory(t) => assert_eq!(t, "/out/d/e"),
        other => panic!("unexpected {:?}", other),
    }
    match tar_entry_action(EntryKind::File, "/out", "d/f.txt") {
        TarEntryAction::ExtractFile(t) => assert_eq!(t, "/out/d/f.txt"),
        other => panic!("unexpected {:?}", other),
    }
    match tar_entry_action(EntryKind::Other, "/out", "hard") {
        TarEntryAction::ExtractFile(t) => assert_eq!(t, "/out/hard"),
        other => panic!("unexpected {:?}", other),
    }
}

#[test]
fn archives_are_deleted_only_after_successful_purges() {
    assert!(matches!(finish_extraction(ExtractionRoute::Standard, Ok(())), FinishAction::KeepArchive));
    assert!(matches!(finish_extraction(ExtractionRoute::SparseZipPurge, Ok(())), FinishAction::DeleteArchive));
    assert!(matches!(finish_extraction(ExtractionRoute::ExtractThenDelete, Ok(())), FinishAction::DeleteArchive));
    match finish_extraction(ExtractionRoute::ExtractThenDelete, Err(EngineError::DiskFull)) {
        FinishAction::Fail(EngineError::DiskFull) => {}
        other => panic!("unexpected {:?}", other),
    }
}
