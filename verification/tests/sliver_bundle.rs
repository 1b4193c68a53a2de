use nano_core::sliver::auto_cache::JsHandlerSource;
use nano_core::sliver::error::SliverError;
use nano_core::sliver::extractor::SliverExtractor;
use nano_core::sliver::format::{
    SliverFormat, BYTECODE_FILENAME, MANIFEST_FILENAME, METADATA_FILENAME, SLIVER_EXTENSION,
    VFS_PREFIX,
};
use nano_core::sliver::manifest::build_manifest;
use nano_core::sliver::restore::{
    restore_entries, verification_report_of, verify_vfs_restoration, VerificationReport,
};
use nano_core::vfs::isolate::{IsolateVfs, VfsNamespace};
use nano_core::vfs::memory::MemoryBackend;
use nano_core::vfs::types::{ResourceLimits, VfsError, VfsFile, VfsPath};
use nano_core::sliver::validation::{
    archive_problems, check_archive_entries, check_sliver_extension, find_similar_internal,
    levenshtein_distance, ArchiveEntry, CorruptionType,
};
use nano_core::sliver::vfs_capture::VfsCapture;

#[test]
fn error_test_error_display() {
    let err = SliverError::MissingMetadata { filename: "meta.json".to_string() };
    assert_eq!(err.to_string(), "Missing metadata file: meta.json");

    let err = SliverError::InvalidFormat { version: "0.5".to_string() };
    assert_eq!(err.to_string(), "Invalid format version: 0.5");
}

#[test]
fn other_error_messages() {
    assert_eq!(
        SliverError::VfsRestore { path: "a".to_string(), reason: "b".to_string() }.to_string(),
        "Failed to restore VFS entry at a: b"
    );
    assert_eq!(SliverError::IoError("gone".to_string()).to_string(), "IO error: gone");
}

#[test]
fn test_detect_entrypoint_index() {
    let entries = vec![(VfsPath::new("/index.js").unwrap(), VfsFile::new(b"const x=1".to_vec()))];
    assert_eq!(SliverExtractor::detect_entrypoint(&entries), "/index.js");
}

#[test]
fn extractor_test_detect_entrypoint_fallback() {
    let entries: Vec<(VfsPath, VfsFile)> = vec![];
    assert_eq!(SliverExtractor::detect_entrypoint(&entries), "/index.js");
}

#[test]
fn entrypoint_follows_candidate_order() {
    let entries = vec![
        (VfsPath::new("server.js").unwrap(), VfsFile::new(vec![])),
        (VfsPath::new("main.js").unwrap(), VfsFile::new(vec![])),
    ];
    assert_eq!(SliverExtractor::detect_entrypoint(&entries), "/main.js");
    let entries = vec![(VfsPath::new("lib/app.js").unwrap(), VfsFile::new(vec![]))];
    assert_eq!(SliverExtractor::detect_entrypoint(&entries), "/index.js");
}

#[test]
fn test_format_version() {
    assert_eq!(SliverFormat::version(), "2.0");
    assert!(SliverFormat::is_supported_version("1.0"));
    assert!(SliverFormat::is_supported_version("2.0"));
    assert!(!SliverFormat::is_supported_version("0.9"));
    assert!(!SliverFormat::is_supported_version("3.0"));
}

#[test]
fn test_required_files() {
    let required = SliverFormat::required_files();
    assert!(required.contains(&"meta.json"));
}

#[test]
fn test_constants() {
    assert_eq!(BYTECODE_FILENAME, "bytecode.v8bc");
    assert_eq!(METADATA_FILENAME, "meta.json");
    assert_eq!(MANIFEST_FILENAME, "manifest.txt");
    assert_eq!(VFS_PREFIX, "vfs/");
    assert_eq!(SLIVER_EXTENSION, ".sliver");
}

#[test]
fn test_nano_version() {
    assert!(!SliverFormat::nano_version().is_empty());
    assert!(SliverFormat::structure_documentation().starts_with("Sliver Archive Structure"));
    assert!(!SliverFormat::is_supported_version_any("2.00"));
    assert!(!SliverFormat::is_supported_version_any(""));
}

#[test]
fn test_verification_report_is_complete() {
    let complete = VerificationReport { total: 3, verified: 3, missing: vec![], mismatched: vec![] };
    assert!(complete.is_complete());

    let incomplete = VerificationReport {
        total: 3,
        verified: 2,
        missing: vec!["file.txt".to_string()],
        mismatched: vec![],
    };
    assert!(!incomplete.is_complete());
}

#[test]
fn report_classifies_reads() {
    let entries = vec![
        (VfsPath::new("a.txt").unwrap(), VfsFile::new(b"A".to_vec())),
        (VfsPath::new("b.txt").unwrap(), VfsFile::new(b"B".to_vec())),
        (VfsPath::new("c.txt").unwrap(), VfsFile::new(b"C".to_vec())),
    ];
    let reads = vec![Some(b"A".to_vec()), None, Some(b"x".to_vec())];
    let r = verification_report_of(&entries, &reads);
    assert_eq!(r.total, 3);
    assert_eq!(r.verified, 1);
    assert_eq!(r.missing, vec!["b.txt".to_string()]);
    assert_eq!(r.mismatched, vec!["c.txt".to_string()]);
    assert!(!r.is_complete());
    let good = vec![Some(b"A".to_vec()), Some(b"B".to_vec()), Some(b"C".to_vec())];
    assert!(verification_report_of(&entries, &good).is_complete());
}

#[test]
fn test_vfs_capture_new() {
    let capture = VfsCapture::new();
    assert_eq!(capture.file_count(), 0);
    assert_eq!(capture.total_bytes(), 0);
    assert!(capture.files().is_empty());
}

#[test]
fn test_vfs_capture_add_file() {
    let mut capture = VfsCapture::new();
    let path = VfsPath::new("test.txt").unwrap();
    let file = VfsFile::new(b"Hello, World!".to_vec());

    capture.add_file(path.clone(), file);

    assert_eq!(capture.file_count(), 1);
    assert_eq!(capture.total_bytes(), 13);
    assert!(capture.has_path(path.as_str()));
}

#[test]
fn test_vfs_capture_into_vec() {
    let mut capture = VfsCapture::new();
    capture.add_file(VfsPath::new("/file1.txt").unwrap(), VfsFile::new(b"content1".to_vec()));
    capture.add_file(VfsPath::new("/file2.txt").unwrap(), VfsFile::new(b"content2".to_vec()));
    let vec = capture.into_vec();
    assert_eq!(vec.len(), 2);
}

#[test]
fn capture_replaces_same_path_but_counts_both() {
    let mut capture = VfsCapture::default();
    capture.add_file(VfsPath::new("x").unwrap(), VfsFile::new(vec![1, 2]));
    capture.add_file(VfsPath::new("/x").unwrap(), VfsFile::new(vec![3]));
    assert_eq!(capture.files().len(), 1);
    assert_eq!(capture.files()[0].1.content, vec![3]);
    assert_eq!(capture.file_count(), 2);
    assert_eq!(capture.total_bytes(), 3);
    assert!(!capture.has_path("y"));
}

#[test]
fn test_build_manifest() {
    let entries = vec!["meta.json".to_string(), "bytecode.v8bc".to_string()];
    let manifest = build_manifest(&entries);
    assert!(manifest.contains("meta.json"));
    assert_eq!(
        manifest,
        "# Sliver Archive Manifest\n# =========================\n\nmeta.json\nbytecode.v8bc\n"
    );
}

#[test]
fn handler_source_accessors() {
    let s = JsHandlerSource::Source { entrypoint: "/a.js".to_string() };
    assert!(!s.is_sliver());
    assert_eq!(s.entrypoint(), "/a.js");
    let s = JsHandlerSource::Sliver { entrypoint: "/b.js".to_string(), hostname: "h".to_string() };
    assert!(s.is_sliver());
    assert_eq!(s.entrypoint(), "/b.js");
}

#[test]
fn corruption_descriptions() {
    assert_eq!(CorruptionType::MissingMetadata.to_string(), "Missing meta.json (required)");
    assert_eq!(
        CorruptionType::TruncatedFile { expected: 10, found: 4, entry: "vfs/a".to_string() }
            .to_string(),
        "Truncated file vfs/a: expected 10 bytes, found 4"
    );
    assert_eq!(
        CorruptionType::InvalidExtension { found: "tar".to_string() }.to_string(),
        "Invalid file extension: tar (expected .sliver)"
    );
}

#[test]
fn edit_distances() {
    assert_eq!(levenshtein_distance("kitten", "sitting"), 3);
    assert_eq!(levenshtein_distance("", "abc"), 3);
    assert_eq!(levenshtein_distance("abc", ""), 3);
    assert_eq!(levenshtein_distance("flaw", "lawn"), 2);
    assert_eq!(levenshtein_distance("same", "same"), 0);
}

#[test]
fn test_find_similar_slivers() {
    let candidates = vec!["api-prod".to_string(), "api-staging".to_string()];
    assert_eq!(find_similar_internal("api-prd", &candidates, 3), Some("api-prod".to_string()));
    assert_eq!(find_similar_internal("zzzzzzzzzz", &candidates, 3), None);
    // A tie keeps the first candidate.
    let tie = vec!["ab".to_string(), "ba".to_string(), "a".to_string()];
    assert_eq!(find_similar_internal("aa", &tie, 3), Some("ab".to_string()));
    // The distance must stay below the target's length.
    assert_eq!(find_similar_internal("a", &["b".to_string()], 3), None);
}

fn file(path: &str, size: u64) -> ArchiveEntry {
    ArchiveEntry::File { path: path.to_string(), size, content_error: None }
}

fn corrupted_reason(r: Result<(), SliverError>) -> String {
    match r {
        Err(SliverError::CorruptedArchive { reason }) => reason,
        other => panic!("expected a corrupted archive, got {other:?}"),
    }
}

#[test]
fn archive_with_metadata_and_vfs_is_intact() {
    let entries = vec![file("meta.json", 120), file("vfs/index.js", 30), file("manifest.txt", 5)];
    assert!(check_archive_entries(&entries).is_ok());
    assert!(archive_problems(&entries).is_empty());
}

#[test]
fn archive_without_metadata_names_meta_json() {
    let entries = vec![file("heap.bin", 1024)];
    let reason = corrupted_reason(check_archive_entries(&entries));
    assert!(reason.contains("meta.json"), "Error should mention meta.json, got: {reason}");
    assert_eq!(reason, "Missing meta.json (required)");
}

#[test]
fn archive_problems_in_order() {
    let entries = vec![
        ArchiveEntry::Unreadable { error: "bad header".to_string() },
        file("bytecode.v8bc", 0),
        ArchiveEntry::BadPath { error: "not utf-8".to_string() },
        ArchiveEntry::File {
            path: "meta.json".to_string(),
            size: 10,
            content_error: Some("expected value at line 1".to_string()),
        },
    ];
    let texts: Vec<String> = archive_problems(&entries).iter().map(|c| c.to_string()).collect();
    assert_eq!(
        texts,
        vec![
            "Invalid tar archive: bad header".to_string(),
            "Empty required file: bytecode.v8bc".to_string(),
            "Invalid tar archive: Invalid entry path: not utf-8".to_string(),
            "Corrupted meta.json: expected value at line 1".to_string(),
        ]
    );
    assert_eq!(corrupted_reason(check_archive_entries(&entries)), "Invalid tar archive: bad header");
}

#[test]
fn empty_archive_misses_metadata_then_payload() {
    let problems = archive_problems(&[]);
    assert_eq!(problems, vec![CorruptionType::MissingMetadata, CorruptionType::MissingPayload]);
    let only_meta = vec![file("meta.json", 3)];
    assert_eq!(
        corrupted_reason(check_archive_entries(&only_meta)),
        "Sliver has no payload (no bytecode, VFS entries, or heap blob)"
    );
    let empty_meta = vec![file("meta.json", 0), file("heap.bin", 8)];
    assert_eq!(corrupted_reason(check_archive_entries(&empty_meta)), "Empty required file: meta.json");
}

#[test]
fn sliver_extension_is_required() {
    assert!(check_sliver_extension("/tmp/app.sliver").is_ok());
    assert_eq!(
        corrupted_reason(check_sliver_extension("/tmp/app.tar")),
        "Invalid extension: tar (expected .sliver)"
    );
    assert_eq!(
        corrupted_reason(check_sliver_extension("/tmp/app")),
        "Invalid extension: none (expected .sliver)"
    );
    assert!(check_sliver_extension("/tmp/app.SLIVER").is_err());
}

#[test]
fn restore_entries_populates_vfs() {
    let entries = vec![(VfsPath::new("/index.js").unwrap(), VfsFile::new(b"const x = 1".to_vec()))];
    let mut vfs = IsolateVfs::new(VfsNamespace::from_hostname("test.example.com"), MemoryBackend::default());
    restore_entries(&mut vfs, &entries).expect("restore should succeed");
    let content = vfs.read("/index.js").expect("read should succeed");
    assert_eq!(content, b"const x = 1");
    let report = verify_vfs_restoration(&entries, &vfs);
    assert!(report.is_complete());
    assert_eq!((report.total, report.verified), (1, 1));
}

#[test]
fn verify_restoration_reports_missing_and_mismatched() {
    let entries = vec![
        (VfsPath::new("a.js").unwrap(), VfsFile::new(b"a".to_vec())),
        (VfsPath::new("b.js").unwrap(), VfsFile::new(b"b".to_vec())),
        (VfsPath::new("c.js").unwrap(), VfsFile::new(b"c".to_vec())),
    ];
    let mut vfs = IsolateVfs::new(VfsNamespace::from_hostname("x.test"), MemoryBackend::default());
    vfs.write("a.js", b"a").unwrap();
    vfs.write("b.js", b"changed").unwrap();
    let report = verify_vfs_restoration(&entries, &vfs);
    assert!(!report.is_complete());
    assert_eq!(report.verified, 1);
    assert_eq!(report.mismatched, vec!["b.js".to_string()]);
    assert_eq!(report.missing, vec!["c.js".to_string()]);
}

#[test]
fn restore_stops_at_first_failed_write() {
    let entries = vec![
        (VfsPath::new("small.txt").unwrap(), VfsFile::new(vec![1; 4])),
        (VfsPath::new("big.bin").unwrap(), VfsFile::new(vec![2; 64])),
        (VfsPath::new("after.txt").unwrap(), VfsFile::new(vec![3; 4])),
    ];
    let limits = ResourceLimits::new(16, 1024, 10);
    let mut vfs = IsolateVfs::new(VfsNamespace::from_hostname("q.test"), MemoryBackend::with_limits(limits));
    match restore_entries(&mut vfs, &entries) {
        Err(SliverError::VfsRestore { path, reason }) => {
            assert_eq!(path, "big.bin");
            assert!(reason.starts_with("EQUOTA: quota exceeded for file_size"), "got {reason}");
        },
        other => panic!("expected a restore error, got {other:?}"),
    }
    assert_eq!(vfs.read("small.txt").unwrap(), vec![1; 4]);
    assert!(matches!(vfs.read("after.txt"), Err(VfsError::NotFound { .. })));
}

#[test]
fn test_entrypoint_from_metadata() {
    assert_eq!(SliverExtractor::metadata_entrypoint_or_default(Some("index.js")), "/index.js");
    assert_eq!(SliverExtractor::resolve_entrypoint(Some("index.js"), &[]), "/index.js");
}
