use nano_core::vfs::isolate::VfsNamespace;
use nano_core::vfs::types::{ResourceLimits, VfsError, VfsFile, VfsPath, MAX_PATH_LENGTH};

#[test]
fn test_vfs_path_normalization() {
    assert_eq!(VfsPath::new("/foo/bar").unwrap().as_str(), "foo/bar");
    assert_eq!(VfsPath::new("foo/bar/").unwrap().as_str(), "foo/bar");
    assert_eq!(VfsPath::new("//foo//bar//").unwrap().as_str(), "foo/bar");
    assert_eq!(VfsPath::new("foo//bar").unwrap().as_str(), "foo/bar");
}

#[test]
fn test_vfs_path_traversal_rejected() {
    assert!(VfsPath::new("../etc/passwd").is_err());
    assert!(VfsPath::new("foo/../../etc/passwd").is_err());
    assert!(VfsPath::new("..").is_err());
    assert!(VfsPath::new("foo/..").is_err());
}

#[test]
fn test_vfs_path_special_characters_allowed() {
    assert!(VfsPath::new("blog/[...slug].astro").is_ok());
    assert!(VfsPath::new("routes/[[...optional]].ts").is_ok());
    assert!(VfsPath::new("[...path].js").is_ok());
    assert!(VfsPath::new("file..name.txt").is_ok());
    assert!(VfsPath::new("foo..bar.js").is_ok());
    assert!(VfsPath::new("test...file.md").is_ok());
    assert!(VfsPath::new("file.name.txt").is_ok());
}

#[test]
fn test_vfs_path_null_bytes_rejected() {
    assert!(VfsPath::new("file\0.txt").is_err());
}

#[test]
fn test_vfs_path_empty_rejected() {
    assert!(VfsPath::new("").is_err());
    assert!(VfsPath::new("/").is_err());
}

#[test]
fn test_vfs_path_join() {
    let base = VfsPath::new("foo").unwrap();
    assert_eq!(base.join("bar").unwrap().as_str(), "foo/bar");
    assert_eq!(base.join("bar/baz").unwrap().as_str(), "foo/bar/baz");
}

#[test]
fn test_vfs_path_parent() {
    let path = VfsPath::new("foo/bar/baz").unwrap();
    assert_eq!(path.parent().unwrap().as_str(), "foo/bar");

    let path = VfsPath::new("foo").unwrap();
    assert!(path.parent().is_none());
}

#[test]
fn test_vfs_path_file_name() {
    let path = VfsPath::new("foo/bar.txt").unwrap();
    assert_eq!(path.file_name(), Some("bar.txt"));

    let path = VfsPath::new("foo").unwrap();
    assert_eq!(path.file_name(), Some("foo"));
}

#[test]
fn test_vfs_error_codes() {
    assert_eq!(VfsError::NotFound { path: "/x".to_string() }.code(), "ENOENT");
    assert_eq!(VfsError::PermissionDenied { path: "/x".to_string() }.code(), "EACCES");
    assert_eq!(VfsError::AlreadyExists { path: "/x".to_string() }.code(), "EEXIST");
    assert_eq!(
        VfsError::InvalidPath { path: "/x".to_string(), reason: "x".to_string() }.code(),
        "EINVAL"
    );
    assert_eq!(
        VfsError::QuotaExceeded { resource: "x".to_string(), limit: 1, current: 2 }.code(),
        "EQUOTA"
    );
    assert_eq!(VfsError::IoError("x".to_string()).code(), "EIO");
}

#[test]
fn test_resource_limits_default() {
    let limits = ResourceLimits::default();
    assert_eq!(limits.file_size_bytes_max, 10 * 1024 * 1024);
    assert_eq!(limits.total_storage_bytes_max, 100 * 1024 * 1024);
    assert_eq!(limits.files_count_max, 1000);
}

#[test]
fn namespace_from_hostname_is_injective_for_dot_dash() {
    assert_ne!(
        VfsNamespace::from_hostname("a.com"),
        VfsNamespace::from_hostname("a-com"),
    );
    assert_ne!(
        VfsNamespace::from_hostname("tenant-a.example"),
        VfsNamespace::from_hostname("tenant.a.example"),
    );
    assert_eq!(VfsNamespace::from_hostname("A.com").as_str(), "a.com");
}

#[test]
fn namespace_never_traverses_or_separates() {
    for h in ["..", ".", "", "/", "../..", "a/b", "a::b", "a\\b"] {
        let ns = VfsNamespace::from_hostname(h);
        let s = ns.as_str();
        assert!(s != "." && s != ".." && !s.is_empty(), "unsafe ns for {h:?}: {s:?}");
        assert!(!s.contains('/'), "path separator leaked for {h:?}: {s:?}");
        assert!(!s.contains('\\'), "backslash leaked for {h:?}: {s:?}");
        assert!(!s.contains("::"), "ns separator leaked for {h:?}: {s:?}");
    }
}

#[test]
fn path_error_variants_carry_their_path() {
    let e = VfsPath::new("a\0b").unwrap_err();
    assert_eq!(e.code(), "EINVAL");
    assert_eq!(e.path(), Some("a\0b"));
    let e = VfsPath::new("../x").unwrap_err();
    assert_eq!(e.code(), "EINVAL");
    assert_eq!(VfsError::IoError("disk".to_string()).path(), None);
    assert_eq!(VfsError::NotSupported { feature: "mmap".to_string() }.code(), "ENOTSUP");
}

#[test]
fn path_length_limit() {
    let long = "a".repeat(MAX_PATH_LENGTH + 1);
    assert!(VfsPath::new(&long).is_err());
    let ok = "a".repeat(MAX_PATH_LENGTH);
    assert!(VfsPath::new(&ok).is_ok());
}

#[test]
fn dot_segments_are_kept() {
    assert_eq!(VfsPath::new("./a/./b").unwrap().as_str(), "./a/./b");
    assert_eq!(VfsPath::new("a/b").unwrap().to_string(), "a/b");
    let p = VfsPath::new("x").unwrap();
    assert!(p.join("../y").is_err());
}

#[test]
fn error_display_strings() {
    assert_eq!(
        VfsError::NotFound { path: "a".to_string() }.to_string(),
        "ENOENT: no such file or directory: a"
    );
    assert_eq!(
        VfsError::QuotaExceeded { resource: "file_size".to_string(), limit: 10, current: 20 }
            .to_string(),
        "EQUOTA: quota exceeded for file_size: limit=10, current=20"
    );
}

#[test]
fn vfs_file_update_sets_size() {
    let mut f = VfsFile::new(vec![1, 2, 3]);
    assert_eq!(f.size, 3);
    f.update_content(vec![9; 7]);
    assert_eq!(f.size, 7);
    assert_eq!(f.content, vec![9; 7]);
}

#[test]
fn resource_limits_constructors() {
    let l = ResourceLimits::new(1, 2, 3);
    assert_eq!((l.file_size_bytes_max, l.total_storage_bytes_max, l.files_count_max), (1, 2, 3));
    let t = ResourceLimits::test_limits();
    assert_eq!((t.file_size_bytes_max, t.total_storage_bytes_max, t.files_count_max), (100, 500, 5));
}

#[test]
fn namespace_from_hostname_escapes_traversal_and_separators() {
    for h in ["..", ".", "", "/", "../..", "a/b", "a::b", "a\\b"] {
        let ns = VfsNamespace::from_hostname(h);
        let ns = ns.as_str();
        assert!(ns != "." && ns != ".." && !ns.is_empty(), "unsafe ns for {h:?}: {ns:?}");
        assert!(!ns.contains('/'), "path separator leaked for {h:?}: {ns:?}");
        assert!(!ns.contains('\\'), "backslash leaked for {h:?}: {ns:?}");
        assert!(!ns.contains("::"), "ns separator leaked for {h:?}: {ns:?}");
    }
    assert_ne!(VfsNamespace::from_hostname("a/b"), VfsNamespace::from_hostname("a\\b"),);
    assert_ne!(VfsNamespace::from_hostname("a_2e_b"), VfsNamespace::from_hostname("a.b"),);
}
