use nano_core::sliver::extractor::SliverExtractor;
use nano_core::sliver::packager::{is_packable_name, pick_entrypoint, plan_sliver, vfs_path_for};
use nano_core::sliver::validation::{nano_version_mismatch, parse_u32_text, sliver_search_paths};
use nano_core::vfs::loader::vfs_entry_path;
use nano_core::vfs::types::{VfsFile, VfsPath};

#[test]
fn entrypoint_picks_index_js() {
    assert_eq!(pick_entrypoint(&[true, false, false, false]), "index.js");
}

#[test]
fn entrypoint_falls_back_to_index_js() {
    assert_eq!(pick_entrypoint(&[false, false, false, false]), "index.js");
    assert_eq!(pick_entrypoint(&[]), "index.js");
}

#[test]
fn entrypoint_preference_order() {
    assert_eq!(pick_entrypoint(&[false, true, true, true]), "index.mjs");
    assert_eq!(pick_entrypoint(&[false, false, true, true]), "main.js");
    assert_eq!(pick_entrypoint(&[false, false, false, true]), "worker.js");
}

#[test]
fn packable_names_skip_hidden_and_slivers() {
    assert!(is_packable_name("index.js"));
    assert!(!is_packable_name(".env"));
    assert!(!is_packable_name("old.sliver"));
    assert!(is_packable_name("sliver"));
    assert!(is_packable_name("a.sliverx"));
    assert_eq!(vfs_path_for("lib/util.js"), "/lib/util.js");
}

#[test]
fn sliver_plan_defaults_and_overrides() {
    let plan = plan_sliver("./app", "shop", None, None, None, "index.js");
    assert_eq!(plan.output_path, "shop.sliver");
    assert_eq!(plan.hostname, "shop");
    assert_eq!(plan.tag, "latest");
    assert_eq!(plan.description, "Created from directory: ./app | Entrypoint: index.js | Tag: latest");
    let given = plan_sliver(
        "/src",
        "shop",
        Some("v2".to_string()),
        Some("/out/s.sliver".to_string()),
        Some("shop.example.com".to_string()),
        "main.js",
    );
    assert_eq!(given.output_path, "/out/s.sliver");
    assert_eq!(given.hostname, "shop.example.com");
    assert_eq!(given.tag, "v2");
    assert_eq!(given.description, "Created from directory: /src | Entrypoint: main.js | Tag: v2");
}

#[test]
fn directory_entries_land_under_the_mount_point() {
    assert_eq!(vfs_entry_path("/", "index.js"), "/index.js");
    assert_eq!(vfs_entry_path("/app", "index.js"), "/app/index.js");
    assert_eq!(vfs_entry_path("/app/", "lib"), "/app/lib");
}

#[test]
fn search_paths_for_a_sliver_name() {
    assert_eq!(
        sliver_search_paths("my-sliver", "/home/u"),
        vec![
            "my-sliver".to_string(),
            "./my-sliver.sliver".to_string(),
            "./slivers/my-sliver.sliver".to_string(),
            "/home/u/.nano/slivers/my-sliver.sliver".to_string(),
        ]
    );
}

#[test]
fn u32_parsing_follows_str_parse() {
    for s in ["0", "42", "+7", "4294967295", "007", "", "+", "-1", "4294967296", "12a", " 1"] {
        assert_eq!(parse_u32_text(s), s.parse::<u32>().ok(), "input {s:?}");
    }
}

#[test]
fn version_mismatch_needs_two_known_majors() {
    assert!(!nano_version_mismatch("0.1.0", "0.2.0"));
    assert!(nano_version_mismatch("1.0.0", "2.3.1"));
    assert!(!nano_version_mismatch("x.1", "2.0"));
    assert!(!nano_version_mismatch("1.0", "1.9"));
}

#[test]
fn test_resolve_from_metadata() {
    let entries: Vec<(VfsPath, VfsFile)> = vec![];
    assert_eq!(SliverExtractor::resolve_entrypoint(Some("app.js"), &entries), "/app.js");
}

#[test]
fn entrypoint_from_metadata_or_files() {
    let entries = vec![(VfsPath::new("/app.js").unwrap(), VfsFile::new(b"x".to_vec()))];
    assert_eq!(SliverExtractor::resolve_entrypoint(Some("src/main.js"), &entries), "/src/main.js");
    assert_eq!(SliverExtractor::resolve_entrypoint(Some("/worker.js"), &entries), "/worker.js");
    assert_eq!(SliverExtractor::resolve_entrypoint(None, &entries), "/app.js");
    assert_eq!(SliverExtractor::metadata_entrypoint_or_default(None), "/index.js");
    assert_eq!(SliverExtractor::metadata_entrypoint_or_default(Some("main.js")), "/main.js");
}
