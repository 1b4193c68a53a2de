use nano_core::worker::memory_monitor::MemoryPressureLevel;
use nano_core::worker::queue::{
    hash_hostname, next_pool_step, plan_pool, AppVfsConfig, PoolStep, QueueError, QueueStats,
};

#[test]
fn test_pressure_level_thresholds() {
    assert!(!MemoryPressureLevel::Normal.requires_eviction());
    assert!(!MemoryPressureLevel::Warning.requires_eviction());
    assert!(MemoryPressureLevel::Critical.requires_eviction());
    assert!(MemoryPressureLevel::Emergency.requires_eviction());

    assert!(!MemoryPressureLevel::Normal.requires_hard_eviction());
    assert!(!MemoryPressureLevel::Warning.requires_hard_eviction());
    assert!(!MemoryPressureLevel::Critical.requires_hard_eviction());
    assert!(MemoryPressureLevel::Emergency.requires_hard_eviction());
}

#[test]
fn pressure_descriptions_and_default() {
    assert_eq!(MemoryPressureLevel::default(), MemoryPressureLevel::Normal);
    assert!(MemoryPressureLevel::Critical.description().contains("soft eviction"));
    assert!(MemoryPressureLevel::Emergency.description().contains("hard eviction"));
}

#[test]
fn test_hostname_hash_case_insensitive() {
    let hash1 = hash_hostname("Example.COM");
    let hash2 = hash_hostname("example.com");
    let hash3 = hash_hostname("EXAMPLE.COM");

    assert_eq!(hash1, hash2, "Hostname hashing should be case-insensitive");
    assert_eq!(hash2, hash3, "Hostname hashing should be case-insensitive");
}

#[test]
fn distinct_hostnames_hash_apart() {
    assert_ne!(hash_hostname("app.example.com"), hash_hostname("other.example.com"));
}

#[test]
fn test_queue_error_display() {
    assert_eq!(QueueError::ChannelFull.to_string(), "WorkQueue channel is full");
    assert_eq!(QueueError::WorkerNotFound.to_string(), "Worker thread not found");
    assert_eq!(QueueError::PoolNotFound.to_string(), "Pool not found for hostname");
    assert_eq!(QueueError::SendError("test".to_string()).to_string(), "Send error: test");
    assert_eq!(QueueError::Other("x".to_string()).to_string(), "Queue error: x");
}

#[test]
fn stats_snapshot_copies_counters() {
    let mut stats = QueueStats::new();
    stats.tasks_submitted = 3;
    stats.active_workers = 2;
    let snap = stats.snapshot();
    assert_eq!(snap.tasks_submitted, 3);
    assert_eq!(snap.active_workers, 2);
    assert_eq!(snap.tasks_dropped, 0);
}

#[test]
fn test_pressure_level_descriptions() {
    assert!(MemoryPressureLevel::Normal.description().contains("Normal"));
    assert!(MemoryPressureLevel::Warning.description().contains("Elevated"));
    assert!(MemoryPressureLevel::Critical.description().contains("Critical"));
    assert!(MemoryPressureLevel::Emergency.description().contains("Emergency"));
}

#[test]
fn pools_are_reused_or_planned_from_the_app_configuration() {
    let disk = AppVfsConfig::Disk { base_path: Some("/srv/app".to_string()) };
    assert_eq!(plan_pool(true, &disk, None), PoolStep::Reuse);
    assert_eq!(plan_pool(false, &disk, None), PoolStep::OpenDisk("/srv/app".to_string()));
    assert_eq!(plan_pool(false, &AppVfsConfig::Disk { base_path: None }, None), PoolStep::UseMemory);
    assert_eq!(plan_pool(false, &AppVfsConfig::S3, Some("/g")), PoolStep::UseMemory);
    assert_eq!(plan_pool(false, &AppVfsConfig::Unregistered, Some("/g")), PoolStep::OpenDisk("/g".to_string()));
    assert_eq!(plan_pool(false, &AppVfsConfig::Unregistered, None), PoolStep::UseMemory);
    assert_eq!(
        plan_pool(false, &AppVfsConfig::Memory { entrypoint: String::new() }, None),
        PoolStep::UseMemory
    );
    let probe = plan_pool(false, &AppVfsConfig::Memory { entrypoint: "apps/app.js".to_string() }, None);
    assert_eq!(
        probe,
        PoolStep::ProbeDir { candidate: "apps/app".to_string(), fallback: "apps".to_string() }
    );
    assert_eq!(next_pool_step(probe.clone(), true), PoolStep::OpenDisk("apps/app".to_string()));
    let open = next_pool_step(probe, false);
    assert_eq!(open, PoolStep::OpenDisk("apps".to_string()));
    assert_eq!(next_pool_step(open.clone(), true), PoolStep::UseDisk("apps".to_string()));
    assert_eq!(next_pool_step(open, false), PoolStep::UseMemory);
    assert_eq!(next_pool_step(PoolStep::Reuse, false), PoolStep::Reuse);
}
