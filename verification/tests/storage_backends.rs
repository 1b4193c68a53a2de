use nano_core::vfs::disk::{join_path, DiskBackend};
use nano_core::vfs::factory::{BackendChoice, BackendFactory, VfsBackendType};
use nano_core::vfs::isolate::{IsolateVfs, VfsNamespace};
use nano_core::vfs::memory::MemoryBackend;
use nano_core::vfs::quota::{check_quota, update_after_write};
use nano_core::vfs::s3::{S3Backend, S3Config};
use nano_core::vfs::types::{ResourceLimits, VfsError, VfsFile, VfsPath};

fn quota_parts(e: VfsError) -> (String, u32, u32) {
    match e {
        VfsError::QuotaExceeded { resource, limit, current } => (resource, limit, current),
        other => panic!("unexpected {other:?}"),
    }
}

#[test]
fn memory_read_gives_back_write() {
    let mut m = MemoryBackend::new();
    let p = VfsPath::new("dir/a.txt").unwrap();
    assert!(matches!(m.read(&p), Err(VfsError::NotFound { .. })));
    m.write(&p, b"hello").unwrap();
    assert_eq!(m.read(&p).unwrap(), b"hello");
    assert!(m.file_exists(&p));
    assert_eq!(m.current_usage(), (1, 5));
    m.write(&p, b"hi").unwrap();
    assert_eq!(m.read(&p).unwrap(), b"hi");
    assert_eq!(m.current_usage(), (1, 2));
    assert_eq!(m.len(), 1);
    assert_eq!(m.metadata(&p).unwrap().size, 2);
    m.delete(&p).unwrap();
    assert!(!m.file_exists(&p));
    assert!(m.is_empty());
    assert_eq!(m.current_usage(), (0, 0));
    assert!(matches!(m.delete(&p), Err(VfsError::NotFound { .. })));
}

#[test]
fn memory_quota_refusals_change_nothing() {
    let mut m = MemoryBackend::with_limits(ResourceLimits::test_limits());
    let p = VfsPath::new("big").unwrap();
    let e = m.write(&p, &[0u8; 101]).unwrap_err();
    assert_eq!(quota_parts(e), ("file_size".to_string(), 100, 101));
    assert!(!m.file_exists(&p));
    for i in 0..5 {
        m.write(&VfsPath::new(&format!("f{i}")).unwrap(), &[1u8; 100]).unwrap();
    }
    assert_eq!(m.current_usage(), (5, 500));
    let e = m.write(&VfsPath::new("f5").unwrap(), b"x").unwrap_err();
    assert_eq!(quota_parts(e), ("file_count".to_string(), 5, 5));
    // Replacing a file with a smaller one is fine; growing past the total is not.
    m.write(&VfsPath::new("f0").unwrap(), &[1u8; 50]).unwrap();
    assert_eq!(m.current_usage(), (5, 450));
    let e = m.write(&VfsPath::new("f0").unwrap(), &[1u8; 100]).unwrap();
    assert_eq!(e, ());
    let e = m.write(&VfsPath::new("f1").unwrap(), &[1u8; 100]);
    assert!(e.is_ok());
    assert_eq!(*m.limits(), ResourceLimits::test_limits());
    m.clear();
    assert_eq!(m.current_usage(), (0, 0));
    assert!(m.is_empty());
}

#[test]
fn memory_total_storage_limit() {
    let mut m = MemoryBackend::with_limits(ResourceLimits::new(100, 150, 10));
    m.write(&VfsPath::new("a").unwrap(), &[0u8; 100]).unwrap();
    let e = m.write(&VfsPath::new("b").unwrap(), &[0u8; 60]).unwrap_err();
    assert_eq!(quota_parts(e), ("total_storage".to_string(), 150, 100));
    assert_eq!(m.current_usage(), (1, 100));
}

#[test]
fn memory_snapshot_round_trip() {
    let mut m = MemoryBackend::new();
    m.write(&VfsPath::new("x/1").unwrap(), b"one").unwrap();
    m.write(&VfsPath::new("x/2").unwrap(), b"two").unwrap();
    let mut entries = m.snapshot_entries();
    entries.sort_by(|a, b| a.0.as_str().cmp(b.0.as_str()));
    assert_eq!(entries.len(), 2);
    assert_eq!(entries[0].0.as_str(), "x/1");
    assert_eq!(entries[1].1.content, b"two");
    let mut n = MemoryBackend::default();
    n.restore_from_snapshot(&entries);
    assert_eq!(n.read(&VfsPath::new("x/2").unwrap()).unwrap(), b"two");
    assert_eq!(n.current_usage(), (2, 6));
}

#[test]
fn isolate_vfs_prefixes_namespace() {
    let ns = VfsNamespace::from_hostname("App.Example.com");
    let mut vfs = IsolateVfs::new(ns, MemoryBackend::new());
    assert_eq!(vfs.namespace().as_str(), "app.example.com");
    let key = vfs.prefix_namespace("/data/cfg.json").unwrap();
    assert_eq!(key.as_str(), "app.example.com::data/cfg.json");
    vfs.write("/data/cfg.json", b"{}").unwrap();
    assert_eq!(vfs.read("data/cfg.json").unwrap(), b"{}");
    assert_eq!(vfs.file_exists("data//cfg.json").unwrap(), true);
    assert!(vfs.backend().file_exists(&key));
    assert_eq!(vfs.metadata("data/cfg.json").unwrap().content, b"{}");
    assert!(matches!(vfs.read("../etc/passwd"), Err(VfsError::InvalidPath { .. })));
    vfs.delete("data/cfg.json").unwrap();
    assert!(matches!(vfs.read("data/cfg.json"), Err(VfsError::NotFound { .. })));
}

#[test]
fn tenants_do_not_see_each_other() {
    let a = IsolateVfs::new(VfsNamespace::from_hostname("a.com"), MemoryBackend::new());
    let b = IsolateVfs::new(VfsNamespace::from_hostname("a-com"), MemoryBackend::new());
    assert_ne!(a.prefix_namespace("x").unwrap(), b.prefix_namespace("x").unwrap());
}

#[test]
fn test_s3_key_formatting() {
    assert_eq!(S3Backend::sanitize_namespace("api::example::com"), "api__example__com");
    assert_eq!(S3Backend::sanitize_namespace("api.example.com"), "api.example.com");
    assert_eq!(S3Backend::sanitize_namespace("a\tb\nc"), "a_b_c");
}

#[test]
fn test_s3_config_creation() {
    let config = S3Config {
        endpoint: "http://localhost:9000".to_string(),
        bucket: "test-bucket".to_string(),
        region: "us-east-1".to_string(),
        access_key: "minioadmin".to_string(),
        secret_key: "minioadmin".to_string(),
        prefix: Some("nano".to_string()),
        path_style: true,
    };

    assert_eq!(config.bucket, "test-bucket");
    assert!(config.path_style);
}

#[test]
fn s3_keys_and_counters() {
    let with_prefix = S3Backend::with_bucket("b".to_string(), Some("nano".to_string()), ResourceLimits::default());
    assert_eq!(with_prefix.bucket_name(), "b");
    assert_eq!(with_prefix.prefix(), Some("nano"));
    let p = VfsPath::new("app::x/y.txt").unwrap();
    assert_eq!(with_prefix.to_s3_key(&p), "nano/app/x/y.txt");
    let plain = S3Backend::with_bucket("b".to_string(), None, ResourceLimits::default());
    assert_eq!(plain.to_s3_key(&VfsPath::new("x/y.txt").unwrap()), "default/x/y.txt");
    let mut s = plain;
    assert!(s.check_write_bounds(10, true, 0).is_ok());
    s.record_write(true, 0, 10);
    s.record_write(false, 10, 4);
    assert_eq!(s.current_usage(), (1, 4));
    s.record_delete(4);
    assert_eq!(s.current_usage(), (0, 0));
    assert_eq!(*s.limits(), ResourceLimits::default());
    assert!(matches!(S3Backend::map_s3_error("k", "HTTP 404 NoSuchKey"), VfsError::NotFound { .. }));
    assert!(matches!(S3Backend::map_s3_error("k", "AccessDenied"), VfsError::PermissionDenied { .. }));
    match S3Backend::map_s3_error("k", "timeout") {
        VfsError::IoError(m) => assert_eq!(m, "S3 error: timeout"),
        other => panic!("unexpected {other:?}"),
    }
}

#[test]
fn disk_backend_bookkeeping() {
    let mut d = DiskBackend::from_scan("/var/nano".to_string(), ResourceLimits::test_limits(), 2, 30);
    assert_eq!(d.base_path(), "/var/nano");
    assert_eq!(d.current_usage(), (2, 30));
    assert_eq!(DiskBackend::sanitize_namespace("a::b/c\\d"), "a__b_c_d");
    let e = d.check_write_bounds(500, true, 0).unwrap_err();
    assert_eq!(quota_parts(e).0, "file_size");
    d.record_write(false, 10, 25);
    assert_eq!(d.current_usage(), (2, 45));
    d.record_delete(45);
    assert_eq!(d.current_usage(), (1, 0));
    assert_eq!(*d.limits(), ResourceLimits::test_limits());
}

#[test]
fn quota_helpers() {
    let l = ResourceLimits::new(10, 20, 2);
    assert!(check_quota(&l, 1, 15, 5, true, 0).is_ok());
    assert!(check_quota(&l, 1, 15, 6, true, 0).is_err());
    assert!(check_quota(&l, 2, 0, 1, true, 0).is_err());
    assert!(check_quota(&l, 2, 20, 3, false, 10).is_ok());
    assert_eq!(update_after_write(0, 0, true, 0, 7), (1, 7));
    assert_eq!(update_after_write(1, 7, false, 7, 3), (1, 3));
    let f = VfsFile::new(b"abc".to_vec());
    assert_eq!(f.size, 3);
}

fn listed(r: Result<Vec<VfsPath>, VfsError>) -> Vec<String> {
    let mut v: Vec<String> = r.unwrap().iter().map(|p| p.as_str().to_string()).collect();
    v.sort();
    v
}

#[test]
fn memory_list_dir_gives_direct_children_once() {
    let mut m = MemoryBackend::new();
    for p in ["app/index.js", "app/lib/a.js", "app/lib/b.js", "app/readme.md", "other/x.js", "apple.js"] {
        m.write(&VfsPath::new(p).unwrap(), b"x").unwrap();
    }
    assert_eq!(
        listed(m.list_dir(&VfsPath::new("app").unwrap())),
        vec!["app/index.js".to_string(), "app/lib".to_string(), "app/readme.md".to_string()]
    );
    assert_eq!(
        listed(m.list_dir(&VfsPath::new("app/lib").unwrap())),
        vec!["app/lib/a.js".to_string(), "app/lib/b.js".to_string()]
    );
    assert!(listed(m.list_dir(&VfsPath::new("missing").unwrap())).is_empty());
    assert!(listed(m.list_dir(&VfsPath::new("app/index.js").unwrap())).is_empty());
}

#[test]
fn isolate_list_dir_lists_namespaced_paths() {
    let mut vfs = IsolateVfs::new(VfsNamespace::from_hostname("site.test"), MemoryBackend::new());
    vfs.write("/static/a.css", b"a").unwrap();
    vfs.write("/static/img/logo.png", b"b").unwrap();
    assert_eq!(
        listed(vfs.list_dir("/static")),
        vec!["site.test::static/a.css".to_string(), "site.test::static/img".to_string()]
    );
    assert!(matches!(vfs.list_dir("/a/../b"), Err(VfsError::InvalidPath { .. })));
}

#[test]
fn join_path_follows_unix_rules() {
    assert_eq!(join_path("/tmp", "a"), "/tmp/a");
    assert_eq!(join_path("/tmp/", "a"), "/tmp/a");
    assert_eq!(join_path("/tmp", "/etc"), "/etc");
    assert_eq!(join_path("", "a"), "a");
    assert_eq!(join_path("/tmp", ""), "/tmp/");
}

#[test]
fn disk_filesystem_paths() {
    let d = DiskBackend::from_scan("/data".to_string(), ResourceLimits::default(), 0, 0);
    let p = VfsPath::new("example.com::app/index.js").unwrap();
    assert_eq!(d.to_filesystem_path(&p).unwrap(), "/data/example.com/app/index.js");
    let q = VfsPath::new("plain/file.txt").unwrap();
    assert_eq!(d.to_filesystem_path(&q).unwrap(), "/data/plain/file.txt");
    let r = VfsPath::new("a\\b::x").unwrap();
    assert_eq!(d.to_filesystem_path(&r).unwrap(), "/data/a_b/x");
}

#[test]
fn disk_list_dir_from_names_skips_hidden_entries() {
    let dir = VfsPath::new("app").unwrap();
    let names = vec!["a.js".to_string(), ".hidden".to_string(), "lib".to_string()];
    let paths = DiskBackend::list_dir_from_names(&dir, &names).unwrap();
    let texts: Vec<&str> = paths.iter().map(|p| p.as_str()).collect();
    assert_eq!(texts, vec!["app/a.js", "app/lib"]);

    let bad = vec!["ok".to_string(), "a\0b".to_string()];
    match DiskBackend::list_dir_from_names(&dir, &bad) {
        Err(VfsError::InvalidPath { path, reason }) => {
            assert_eq!(path, "app/a\0b");
            assert_eq!(reason, "Invalid path generated: EINVAL: Path contains null bytes: app/a\0b");
        },
        other => panic!("expected an invalid path, got {other:?}"),
    }
}

#[test]
fn s3_listing_is_sorted_and_deduplicated() {
    let s3 = S3Backend::with_bucket("bucket".to_string(), Some("tenant".to_string()), ResourceLimits::default());
    let dir = VfsPath::new("site::docs").unwrap();
    assert_eq!(s3.list_prefix(&dir), "tenant/site/docs/");
    let prefixes = vec![
        "tenant/site/docs/img/".to_string(),
        "tenant/site/docs/css//".to_string(),
        "other/x/".to_string(),
    ];
    let keys = vec![
        "tenant/site/docs/b.txt".to_string(),
        "tenant/site/docs/a.txt".to_string(),
        "tenant/site/docs/".to_string(),
        "tenant/site/docs/a.txt".to_string(),
    ];
    let listed = s3.list_dir_from_listing(&dir, &prefixes, &keys);
    let texts: Vec<&str> = listed.iter().map(|p| p.as_str()).collect();
    assert_eq!(texts, vec!["site::docs/a.txt", "site::docs/b.txt", "site::docs/css", "site::docs/img"]);
}

#[test]
fn factory_plans_backends() {
    let factory = BackendFactory::new();
    match factory.plan_backend(VfsBackendType::Memory, None) {
        Ok(BackendChoice::Memory(m)) => assert!(m.is_empty()),
        other => panic!("expected a memory backend, got {other:?}"),
    }
    let limits = ResourceLimits::new(1, 2, 3);
    match factory.plan_backend_with_limits(VfsBackendType::Disk, Some("/srv/vfs"), limits) {
        Ok(BackendChoice::Disk { base_path, limits: l }) => {
            assert_eq!(base_path, "/srv/vfs");
            assert_eq!(l, limits);
        },
        other => panic!("expected a disk backend, got {other:?}"),
    }
    match factory.plan_backend(VfsBackendType::Disk, None) {
        Err(VfsError::InvalidPath { path, reason }) => {
            assert_eq!(path, "vfs_disk");
            assert_eq!(reason, "Disk backend requires vfs_disk configuration");
        },
        other => panic!("expected an invalid path, got {other:?}"),
    }
    match factory.plan_backend(VfsBackendType::S3, None) {
        Err(VfsError::IoError(m)) => assert_eq!(m, "S3 backend requires vfs-s3 feature"),
        other => panic!("expected an I/O error, got {other:?}"),
    }
}

#[test]
fn disk_paths_never_leave_the_base_directory() {
    let d = DiskBackend::from_scan("/data".to_string(), ResourceLimits::default(), 0, 0);
    for key in ["..::x", "a::/etc/passwd", "::../x", "a::..", ".::x", "a::../b"] {
        let p = VfsPath::new(key).unwrap();
        match d.to_filesystem_path(&p) {
            Err(VfsError::InvalidPath { path, reason }) => {
                assert_eq!(path, key);
                assert_eq!(reason, "Path escapes the storage directory");
            }
            other => panic!("{} gave {:?}", key, other),
        }
    }
    let ok = VfsPath::new("a..b::c/..d/e..").unwrap();
    assert_eq!(d.to_filesystem_path(&ok).unwrap(), "/data/a..b/c/..d/e..");
}

#[test]
fn invalid_paths_keep_their_own_error() {
    let vfs = IsolateVfs::new(VfsNamespace::from_hostname("app.com"), MemoryBackend::new());
    match vfs.prefix_namespace("../data/file.txt") {
        Err(e) => {
            assert_eq!(e.code(), "EINVAL");
            assert_eq!(e.path(), Some("../data/file.txt"));
        }
        Ok(p) => panic!("accepted {:?}", p),
    }
}

#[test]
fn disk_backed_vfs_keeps_paths_without_namespace() {
    let ns = VfsNamespace::from_hostname("app.com");
    let p = nano_core::vfs::isolate::storage_path(&ns, true, "/data/x.js").unwrap();
    assert_eq!(p.as_str(), "data/x.js");
    let q = nano_core::vfs::isolate::storage_path(&ns, false, "/data/x.js").unwrap();
    assert_eq!(q.as_str(), "app.com::data/x.js");
    assert!(matches!(
        nano_core::vfs::isolate::storage_path(&ns, true, "../x"),
        Err(VfsError::InvalidPath { .. })
    ));
}
