use nano_core::sliver::auto_cache::{
    next_handler_step, HandlerStep, JsHandlerSource, SliverCache, SliverCacheStats,
    GENERATION_WAIT_ATTEMPTS,
};
use std::hash::{Hash, Hasher};

fn expected_key(hostname: &str, entrypoint: &str, secs: Option<u64>) -> String {
    let mut hasher = std::collections::hash_map::DefaultHasher::new();
    hostname.hash(&mut hasher);
    entrypoint.hash(&mut hasher);
    if let Some(s) = secs {
        s.hash(&mut hasher);
    }
    format!("{:x}", hasher.finish())
}

#[test]
fn cache_key_is_hex_of_default_hash() {
    assert_eq!(SliverCache::cache_key("app.test", "./index.js", None), expected_key("app.test", "./index.js", None));
    assert_eq!(
        SliverCache::cache_key("app.test", "./index.js", Some(1_700_000_000)),
        expected_key("app.test", "./index.js", Some(1_700_000_000))
    );
    assert_ne!(
        SliverCache::cache_key("app.test", "./index.js", None),
        SliverCache::cache_key("app.test", "./index.js", Some(1))
    );
}

#[test]
fn cache_and_lock_paths() {
    let cache = SliverCache::at("/var/cache/slivers".to_string());
    let key = expected_key("app.test", "main.js", Some(5));
    assert_eq!(cache.cache_dir(), "/var/cache/slivers");
    assert_eq!(
        cache.cache_path("app.test", "main.js", Some(5)),
        format!("/var/cache/slivers/app.test/{key}.sliver")
    );
    assert_eq!(
        cache.generation_lock_path("app.test", "main.js", Some(5)),
        format!("/var/cache/slivers/app.test/{key}.sliver.lock")
    );
}

#[test]
fn version_compatibility_compares_major_parts() {
    assert!(SliverCache::versions_compatible("0.1.0", "0.9.3"));
    assert!(!SliverCache::versions_compatible("1.0.0", "2.0.0"));
    assert!(SliverCache::versions_compatible("12", "12.4"));
    assert!(!SliverCache::versions_compatible("", "1.0"));
}

fn run(steps: &[bool], prefer: bool) -> (HandlerStep, usize) {
    let mut step = HandlerStep::OpenCache;
    let mut taken = 0;
    for ok in steps {
        if let HandlerStep::Run(_) = step {
            break;
        }
        step = next_handler_step(step, *ok, prefer, "app.test", "/index.js");
        taken += 1;
    }
    (step, taken)
}

#[test]
fn cached_sliver_is_used() {
    let (step, _) = run(&[true, true], false);
    assert_eq!(
        step,
        HandlerStep::Run(JsHandlerSource::Sliver {
            entrypoint: "/index.js".to_string(),
            hostname: "app.test".to_string()
        })
    );
}

#[test]
fn no_cache_or_no_sliver_uses_source() {
    let source = HandlerStep::Run(JsHandlerSource::Source { entrypoint: "/index.js".to_string() });
    assert_eq!(run(&[false], true).0, source);
    assert_eq!(run(&[true, false, false], true).0, source);
    assert_eq!(run(&[true, false, true], false).0, source);
}

#[test]
fn generation_wait_is_bounded() {
    let mut outcomes = vec![true, false, true];
    outcomes.extend(std::iter::repeat(false).take(20));
    let (step, taken) = run(&outcomes, true);
    assert_eq!(step, HandlerStep::Run(JsHandlerSource::Source { entrypoint: "/index.js".to_string() }));
    assert_eq!(taken, 3 + GENERATION_WAIT_ATTEMPTS as usize);
    let (late, _) = run(&[true, false, true, false, false, true], true);
    assert!(matches!(late, HandlerStep::Run(JsHandlerSource::Sliver { .. })));
}

#[test]
fn stats_count_regular_sliver_files_only() {
    let cache = SliverCache::at("/tmp/cache".to_string());
    let listing = vec![
        ("a.sliver".to_string(), true, 100u64),
        ("b.sliver".to_string(), true, 23u64),
        ("c.sliver.lock".to_string(), true, 5u64),
        ("d.sliver".to_string(), false, 4096u64),
        ("notes.txt".to_string(), true, 7u64),
    ];
    assert_eq!(
        cache.stats_from(&listing),
        SliverCacheStats { total_size_bytes: 123, sliver_count: 2, cache_dir: "/tmp/cache".to_string() }
    );
    assert_eq!(cache.stats_from(&[]).sliver_count, 0);
}

#[test]
fn only_old_sliver_files_are_stale() {
    assert!(SliverCache::is_stale("abc.sliver", Some(2_000), 1_000));
    assert!(!SliverCache::is_stale("abc.sliver", Some(1_000), 1_000));
    assert!(!SliverCache::is_stale("abc.sliver", None, 0));
    assert!(!SliverCache::is_stale("abc.sliver.lock", Some(5_000), 1_000));
    assert!(!SliverCache::is_stale(".sliver", Some(5_000), 1_000));
}
