use nano_core::v8::module::{ImportStart, ModuleLoader};
use nano_core::vfs::{IsolateVfs, MemoryBackend, VfsError, VfsNamespace};

fn test_vfs() -> IsolateVfs {
    IsolateVfs::new(VfsNamespace::from_hostname("test.example.com"), MemoryBackend::default())
}

#[test]
fn test_module_loader_creation() {
    let loader = ModuleLoader::new(test_vfs());
    assert!(loader.module_cache().is_empty());
    assert!(loader.loading_stack().is_empty());
}

#[test]
fn test_resolve_import_path() {
    let loader = ModuleLoader::new(test_vfs());

    assert_eq!(loader.resolve_import_path("/app/handler.js", "./utils", false).unwrap(), "/app/utils");
    assert_eq!(loader.resolve_import_path("/app/handler.js", "../helpers", false).unwrap(), "/helpers");
    assert_eq!(
        loader.resolve_import_path("/app/handler.js", "./lib/helper", false).unwrap(),
        "/app/lib/helper"
    );
    assert_eq!(loader.resolve_import_path("/handler.js", "./utils.js", false).unwrap(), "/utils.js");

    assert_eq!(loader.resolve_import_path("/app/handler.js", "/absolute", false).unwrap(), "/absolute");
}

#[test]
fn test_circular_import_detection() {
    let mut loader = ModuleLoader::new(test_vfs());

    assert!(!loader.is_circular_import("/a.js"));

    loader.push_loading("/a.js");
    loader.push_loading("/b.js");

    assert!(loader.is_circular_import("/a.js"));
    assert!(!loader.is_circular_import("/c.js"));

    loader.pop_loading();
    loader.pop_loading();
    assert!(!loader.is_circular_import("/a.js"));
}

#[test]
fn load_module_from_vfs_reads_and_errors() {
    let mut vfs = test_vfs();
    vfs.write("/mod.js", b"export const x = 1;").unwrap();
    let loader = ModuleLoader::new(vfs);

    let content = loader.load_module_from_vfs("/mod.js").unwrap();
    assert!(content.contains("export const x"), "got: {content}");

    assert!(loader.load_module_from_vfs("/does-not-exist-xyz.js").is_err());
}

#[test]
fn resolve_import_path_appends_js_when_file_exists() {
    let mut vfs = test_vfs();
    vfs.write("/app/utils.js", b"export const y = 2;").unwrap();
    let loader = ModuleLoader::new(vfs);

    assert_eq!(loader.resolve_import_path("/app/handler.js", "./utils", false).unwrap(), "/app/utils.js");
    assert!(loader.resolve_import_path("/handler.js", "../../etc/passwd", false).is_err());
}

#[test]
fn resolve_traversal_error_message() {
    let loader = ModuleLoader::new(test_vfs());
    assert_eq!(
        loader.resolve_import_path("/handler.js", "../../etc/passwd", false).unwrap_err(),
        "Path traversal out of bounds: ../../etc/passwd from /handler.js"
    );
}

#[test]
fn resolve_falls_back_to_mjs() {
    let mut vfs = test_vfs();
    vfs.write("/lib/esm.mjs", b"export {}").unwrap();
    let loader = ModuleLoader::new(vfs);
    assert_eq!(loader.resolve_import_path("/lib/main.js", "./esm", false).unwrap(), "/lib/esm.mjs");
}

#[test]
fn resolve_keeps_dotted_paths_unchanged() {
    let mut vfs = test_vfs();
    vfs.write("/v1.2/x.js", b"").unwrap();
    let loader = ModuleLoader::new(vfs);
    assert_eq!(loader.resolve_import_path("/v1.2/main.js", "./x", false).unwrap(), "/v1.2/x");
}

#[test]
fn resolve_base_without_slash_uses_current_directory() {
    let loader = ModuleLoader::new(test_vfs());
    assert_eq!(loader.resolve_import_path("handler.js", "./a/./b//c", false).unwrap(), "/a/b/c");
    assert_eq!(loader.resolve_import_path("handler.js", "./a/..", false).unwrap(), "/");
}

#[test]
fn resolve_nano_builtin_and_bare_specifiers() {
    let mut vfs = test_vfs();
    vfs.write("/node_modules/lodash/index.js", b"module.exports = {}").unwrap();
    let loader = ModuleLoader::new(vfs);
    assert_eq!(loader.resolve_import_path("/handler.js", "nano:kv", false).unwrap(), "nano:kv");
    assert_eq!(
        loader.resolve_import_path("/handler.js", "lodash", false).unwrap(),
        "/node_modules/lodash/index.js"
    );
    assert_eq!(
        loader.resolve_import_path("/handler.js", "left-pad", true).unwrap(),
        "/node_modules/left-pad/index.js"
    );
    assert_eq!(
        loader.resolve_import_path("/handler.js", "left-pad", false).unwrap_err(),
        "Cannot resolve bare specifier 'left-pad': not found in VFS /node_modules/ or disk node_modules/"
    );
}

#[test]
fn load_module_from_vfs_invalid_path_is_error() {
    let loader = ModuleLoader::new(test_vfs());
    assert!(matches!(loader.load_module_from_vfs("/a/../b.js"), Err(VfsError::InvalidPath { .. })));
}

#[test]
fn import_bookkeeping_follows_callback_order() {
    let mut loader = ModuleLoader::new(test_vfs());
    assert_eq!(loader.begin_import("/m.js"), ImportStart::Load);
    assert_eq!(loader.begin_import("nano:kv"), ImportStart::Builtin);

    loader.push_loading("/m.js");
    assert_eq!(loader.begin_import("/m.js"), ImportStart::Circular);
    loader.finish_import("/m.js", Some(7));
    assert!(loader.loading_stack().is_empty());
    assert_eq!(loader.get_cached("/m.js"), Some(7));
    assert_eq!(loader.begin_import("/m.js"), ImportStart::Cached(7));

    loader.push_loading("/bad.js");
    loader.finish_import("/bad.js", None);
    assert_eq!(loader.get_cached("/bad.js"), None);
    assert_eq!(loader.module_cache().len(), 1);
}

#[test]
fn cache_module_replaces_handle() {
    let mut loader = ModuleLoader::new(test_vfs());
    loader.cache_module("/a.js", 1);
    loader.cache_module("/b.js", 2);
    loader.cache_module("/a.js", 3);
    assert_eq!(loader.get_cached("/a.js"), Some(3));
    assert_eq!(loader.get_cached("/b.js"), Some(2));
    assert_eq!(loader.module_cache().len(), 2);
}
