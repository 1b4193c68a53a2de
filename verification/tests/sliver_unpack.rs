use nano_core::sliver::error::SliverError;
use nano_core::sliver::unpacker::{SliverEntry, SliverUnpacker};

fn archive(files: &[(&str, &[u8])]) -> Vec<u8> {
    let mut builder = tar::Builder::new(Vec::new());
    for (path, content) in files {
        let mut header = tar::Header::new_gnu();
        header.set_size(content.len() as u64);
        header.set_mode(0o644);
        header.set_cksum();
        builder.append_data(&mut header, path, *content).unwrap();
    }
    builder.into_inner().unwrap()
}

fn entries_with_version(raw: Vec<(String, Vec<u8>)>, version: &str) -> Vec<SliverEntry> {
    raw.into_iter()
        .map(|(path, content)| SliverEntry { path, content, metadata: Ok(version.to_string()) })
        .collect()
}

#[test]
fn read_entries_gives_paths_and_contents_in_order() {
    let data = archive(&[("meta.json", b"{}"), ("vfs/index.js", b"export default {}")]);
    let (entries, failure) = SliverUnpacker::read_entries(&data);
    assert!(failure.is_none());
    assert_eq!(
        entries,
        vec![
            ("meta.json".to_string(), b"{}".to_vec()),
            ("vfs/index.js".to_string(), b"export default {}".to_vec()),
        ]
    );
}

#[test]
fn assemble_collects_bytecode_and_vfs_files() {
    let data = archive(&[
        ("meta.json", b"{}"),
        ("bytecode.v8bc", b"\x01\x02\x03"),
        ("heap.bin", b"legacy"),
        ("vfs/index.js", b"export default {}"),
        ("vfs/lib/util.js", b"x"),
        ("manifest.txt", b"m"),
    ]);
    let (raw, failure) = SliverUnpacker::read_entries(&data);
    let parts = SliverUnpacker::assemble(&entries_with_version(raw, "2.0"), failure).unwrap();
    assert_eq!(parts.metadata_index, 0);
    assert_eq!(parts.bytecode, Some(vec![1, 2, 3]));
    let files: Vec<(&str, &[u8], usize)> =
        parts.vfs_entries.iter().map(|(p, f)| (p.as_str(), f.content.as_slice(), f.size)).collect();
    assert_eq!(files, vec![("index.js", &b"export default {}"[..], 17), ("lib/util.js", &b"x"[..], 1)]);
}

#[test]
fn assemble_requires_metadata() {
    let data = archive(&[("heap.bin", b"legacy"), ("vfs/a.js", b"a")]);
    let (raw, failure) = SliverUnpacker::read_entries(&data);
    match SliverUnpacker::assemble(&entries_with_version(raw, "2.0"), failure) {
        Err(SliverError::MissingMetadata { filename }) => assert_eq!(filename, "meta.json"),
        other => panic!("expected missing metadata, got {other:?}"),
    }
}

#[test]
fn assemble_reports_unsupported_version_and_bad_json() {
    let data = archive(&[("meta.json", b"{}"), ("vfs/a.js", b"a")]);
    let (raw, failure) = SliverUnpacker::read_entries(&data);
    match SliverUnpacker::assemble(&entries_with_version(raw.clone(), "3.0"), failure.clone()) {
        Err(SliverError::InvalidFormat { version }) => assert_eq!(version, "3.0"),
        other => panic!("expected an invalid format, got {other:?}"),
    }
    let bad: Vec<SliverEntry> = raw
        .into_iter()
        .map(|(path, content)| SliverEntry { path, content, metadata: Err("expected value".to_string()) })
        .collect();
    match SliverUnpacker::assemble(&bad, failure) {
        Err(SliverError::SerializationError(m)) => assert_eq!(m, "expected value"),
        other => panic!("expected a serialization error, got {other:?}"),
    }
}

#[test]
fn assemble_rejects_invalid_vfs_path() {
    let entries = vec![
        SliverEntry { path: "meta.json".to_string(), content: b"{}".to_vec(), metadata: Ok("2.0".to_string()) },
        SliverEntry { path: "vfs/a/../b.js".to_string(), content: vec![], metadata: Ok(String::new()) },
    ];
    match SliverUnpacker::assemble(&entries, None) {
        Err(SliverError::InvalidVfsPath { path }) => assert_eq!(path, "a/../b.js"),
        other => panic!("expected an invalid VFS path, got {other:?}"),
    }
}

#[test]
fn read_failure_comes_after_earlier_entries() {
    let entries = vec![SliverEntry {
        path: "meta.json".to_string(),
        content: b"{}".to_vec(),
        metadata: Ok("2.0".to_string()),
    }];
    match SliverUnpacker::assemble(&entries, Some("unexpected end of file".to_string())) {
        Err(SliverError::IoError(m)) => assert_eq!(m, "unexpected end of file"),
        other => panic!("expected an I/O error, got {other:?}"),
    }
    let garbage = vec![0xffu8; 700];
    let (raw, failure) = SliverUnpacker::read_entries(&garbage);
    assert!(raw.is_empty());
    assert!(failure.is_some());
}

#[test]
fn quick_validation_looks_at_metadata_only() {
    let ok = vec![
        SliverEntry { path: "meta.json".to_string(), content: vec![], metadata: Ok("1.0".to_string()) },
        SliverEntry { path: "vfs/a/../b".to_string(), content: vec![], metadata: Err("ignored".to_string()) },
    ];
    assert!(SliverUnpacker::validate_entries(&ok, None).is_ok());
    let old = vec![SliverEntry { path: "meta.json".to_string(), content: vec![], metadata: Ok("0.9".to_string()) }];
    assert!(matches!(
        SliverUnpacker::validate_entries(&old, None),
        Err(SliverError::InvalidFormat { version }) if version == "0.9"
    ));
    assert!(matches!(
        SliverUnpacker::validate_entries(&vec![], None),
        Err(SliverError::MissingMetadata { filename }) if filename == "meta.json"
    ));
    assert!(matches!(
        SliverUnpacker::validate_entries(&ok, Some("truncated".to_string())),
        Err(SliverError::IoError(m)) if m == "truncated"
    ));
}

#[test]
fn sliver_without_files_or_bytecode_is_rejected() {
    let data = archive(&[("meta.json", b"{}"), ("heap.bin", b"legacy")]);
    let (raw, failure) = SliverUnpacker::read_entries(&data);
    let parts = SliverUnpacker::assemble(&entries_with_version(raw, "2.0"), failure).unwrap();
    match SliverUnpacker::check_has_payload(&parts) {
        Err(SliverError::CorruptedArchive { reason }) => {
            assert_eq!(reason, "Sliver has no VFS entries and no bytecode")
        }
        other => panic!("unexpected: {:?}", other),
    }
    let data = archive(&[("meta.json", b"{}"), ("vfs/a.js", b"a")]);
    let (raw, failure) = SliverUnpacker::read_entries(&data);
    let parts = SliverUnpacker::assemble(&entries_with_version(raw, "2.0"), failure).unwrap();
    assert!(SliverUnpacker::check_has_payload(&parts).is_ok());
}

#[test]
fn integrity_listing_gives_each_entry_path_and_content() {
    let data = archive(&[("meta.json", b"{}"), ("vfs/a.js", b"a")]);
    let (listing, failure) = nano_core::sliver::validation::list_archive(&data);
    assert!(failure.is_none());
    assert_eq!(
        listing,
        vec![(Ok("meta.json".to_string()), b"{}".to_vec()), (Ok("vfs/a.js".to_string()), b"a".to_vec())]
    );
}

#[test]
fn test_unpack_missing_metadata() {
    let data = archive(&[("other.txt", b"data")]);
    let (raw, failure) = SliverUnpacker::read_entries(&data);
    assert!(matches!(
        SliverUnpacker::assemble(&entries_with_version(raw, "2.0"), failure),
        Err(SliverError::MissingMetadata { .. })
    ));
}

#[test]
fn test_unpack_ignores_heap_bin() {
    let data = archive(&[
        ("meta.json", b"{\"hostname\":\"app.example.com\",\"format_version\":\"1.0\"}"),
        ("heap.bin", b"NANO-DIR-v1\0index.js"),
    ]);
    let (raw, failure) = SliverUnpacker::read_entries(&data);
    let parts = SliverUnpacker::assemble(&entries_with_version(raw, "1.0"), failure);
    assert!(parts.is_ok());
}
