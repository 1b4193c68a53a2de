use nano_core::worker::eviction::{
    EvictionAction, EvictionConfig, EvictionManager, EvictionPolicy, IsolateEvictionState,
    IsolateId, IsolateMetadata,
};
use nano_core::worker::memory_monitor::MemoryPressureLevel;

#[test]
fn test_isolate_id_creation() {
    let id = IsolateId::from_string("iso_a3f7b2d8_00000005");
    assert_eq!(id.as_str(), "iso_a3f7b2d8_00000005");
    assert_eq!(id.to_string(), "iso_a3f7b2d8_00000005");
}

#[test]
fn test_isolate_id_generate_unique() {
    let id1 = IsolateId::generate_with_counter(1);
    let id2 = IsolateId::generate_with_counter(2);
    assert_ne!(id1.as_str(), id2.as_str());
    assert!(id1.as_str().starts_with("iso_"));
    assert!(id2.as_str().starts_with("iso_"));
    assert!(id1.as_str().ends_with("_00000001"));
    assert_eq!(id1.as_str().len(), "iso_".len() + 8 + 1 + 8);
    assert!(IsolateId::generate_with_counter(0x1_0000_0000).as_str().ends_with("_100000000"));
}

#[test]
fn test_eviction_policy_default() {
    assert_eq!(EvictionPolicy::default(), EvictionPolicy::Lru);
}

#[test]
fn test_eviction_policy_descriptions() {
    assert!(EvictionPolicy::Lru.description().contains("Recently"));
    assert!(EvictionPolicy::Lfu.description().contains("Frequently"));
    assert!(EvictionPolicy::Random.description().contains("Random"));
    assert!(EvictionPolicy::LargestFirst.description().contains("Largest"));
}

#[test]
fn test_isolate_metadata_creation() {
    let meta = IsolateMetadata::new("test.example.com", 1);
    assert_eq!(meta.hostname, "test.example.com");
    assert_eq!(meta.worker_id, 1);
    assert!(meta.is_stateless);
    assert_eq!(meta.active_requests, 0);
    assert_eq!(meta.use_count, 0);
}

#[test]
fn test_isolate_metadata_usage_tracking() {
    let mut meta = IsolateMetadata::new("test.example.com", 1);

    meta.record_usage();
    assert_eq!(meta.use_count, 1);

    meta.update_memory(1024 * 1024);
    assert_eq!(meta.memory_footprint, 1024 * 1024);

    meta.mark_stateful();
    assert!(!meta.is_stateless);

    meta.mark_stateless();
    assert!(meta.is_stateless);
}

#[test]
fn test_isolate_metadata_active_requests() {
    let mut meta = IsolateMetadata::new("test.example.com", 1);

    assert!(meta.is_idle());

    meta.increment_active();
    assert_eq!(meta.active_requests, 1);
    assert!(!meta.is_idle());

    meta.decrement_active();
    assert_eq!(meta.active_requests, 0);
    assert!(meta.is_idle());
}

#[test]
fn test_eviction_action_types() {
    let allow = EvictionAction::Allow;
    assert!(!allow.is_eviction());
    assert!(!allow.is_hard());
    assert_eq!(allow.eviction_count(), 0);

    let soft = EvictionAction::SoftEvict(vec![IsolateId::from_string("iso_soft_1")]);
    assert!(soft.is_eviction());
    assert!(!soft.is_hard());
    assert_eq!(soft.eviction_count(), 1);

    let hard = EvictionAction::HardEvict(vec![
        IsolateId::from_string("iso_hard_1"),
        IsolateId::from_string("iso_hard_2"),
    ]);
    assert!(hard.is_eviction());
    assert!(hard.is_hard());
    assert_eq!(hard.eviction_count(), 2);
}

#[test]
fn test_eviction_manager_creation() {
    let manager = EvictionManager::new();
    assert_eq!(manager.isolate_count(), 0);
    assert_eq!(manager.eviction_count(), 0);
    assert_eq!(manager.total_memory_bytes(), 0);
}

#[test]
fn test_eviction_manager_registration() {
    let mut manager = EvictionManager::new();
    let id = IsolateId::from_string("iso_test_0");
    let meta = IsolateMetadata::new("test.example.com", 0);

    manager.register_isolate(id.clone(), meta);
    assert_eq!(manager.isolate_count(), 1);
    assert!(manager.can_accept_requests(&id));

    manager.unregister_isolate(&id);
    assert_eq!(manager.isolate_count(), 0);
}

#[test]
fn test_eviction_manager_usage_tracking() {
    let mut manager = EvictionManager::new();
    let id = IsolateId::from_string("iso_test_0");
    let meta = IsolateMetadata::new("test.example.com", 0);

    manager.register_isolate(id.clone(), meta);
    manager.record_usage(&id, 1024 * 1024);

    let meta = manager.get_metadata(&id).unwrap();
    assert_eq!(meta.use_count, 1);
    assert_eq!(meta.memory_footprint, 1024 * 1024);
}

#[test]
fn test_soft_eviction_lifecycle() {
    let mut manager = EvictionManager::new();
    let id = IsolateId::from_string("iso_test_0");
    let meta = IsolateMetadata::new("test.example.com", 0);

    manager.register_isolate(id.clone(), meta);

    assert!(manager.initiate_soft_eviction(&id));
    assert!(manager.is_draining(&id));
    assert!(!manager.can_accept_requests(&id));

    assert!(manager.complete_soft_eviction(&id));
    assert!(manager.is_evicted(&id));
    assert_eq!(manager.eviction_count(), 1);
}

#[test]
fn test_hard_eviction() {
    let mut manager = EvictionManager::new();
    let id = IsolateId::from_string("iso_test_0");
    let meta = IsolateMetadata::new("test.example.com", 0);

    manager.register_isolate(id.clone(), meta);
    manager.mark_active(&id);

    manager.hard_evict(&id);
    assert!(manager.is_evicted(&id));
    assert_eq!(manager.eviction_count(), 1);
}

#[test]
fn test_evaluate_pressure_levels() {
    let mut manager = EvictionManager::new();

    let action = manager.evaluate_pressure(MemoryPressureLevel::Normal);
    assert_eq!(action, EvictionAction::Allow);

    let action = manager.evaluate_pressure(MemoryPressureLevel::Warning);
    assert_eq!(action, EvictionAction::Throttle);

    let action = manager.evaluate_pressure(MemoryPressureLevel::Critical);
    assert_eq!(action, EvictionAction::Throttle);

    let action = manager.evaluate_pressure(MemoryPressureLevel::Emergency);
    assert!(matches!(action, EvictionAction::SoftEvict(_)));
}

#[test]
fn test_eviction_cooldown() {
    let config = EvictionConfig { cooldown_secs: 60, ..Default::default() };
    let mut manager = EvictionManager::with_config(config);

    let id = IsolateId::from_string("iso_test_0");
    let meta = IsolateMetadata::new("test.example.com", 0);
    manager.register_isolate(id.clone(), meta);
    manager.initiate_soft_eviction(&id);

    let action = manager.evaluate_pressure(MemoryPressureLevel::Critical);
    assert_eq!(action, EvictionAction::Throttle);
}

#[test]
fn test_state_counts() {
    let mut manager = EvictionManager::new();

    let id1 = IsolateId::from_string("iso_test_0");
    let id2 = IsolateId::from_string("iso_test_1");
    let id3 = IsolateId::from_string("iso_test_2");

    manager.register_isolate(id1.clone(), IsolateMetadata::new("app1", 0));
    manager.register_isolate(id2.clone(), IsolateMetadata::new("app2", 1));
    manager.register_isolate(id3.clone(), IsolateMetadata::new("app3", 2));

    let (active, draining, evicted) = manager.state_counts();
    assert_eq!(active, 3);
    assert_eq!(draining, 0);
    assert_eq!(evicted, 0);

    manager.initiate_soft_eviction(&id1);
    let (active, draining, evicted) = manager.state_counts();
    assert_eq!(active, 2);
    assert_eq!(draining, 1);
    assert_eq!(evicted, 0);

    manager.complete_soft_eviction(&id1);
    let (active, draining, evicted) = manager.state_counts();
    assert_eq!(active, 2);
    assert_eq!(draining, 0);
    assert_eq!(evicted, 1);
}

#[test]
fn test_reactivate_isolate() {
    let mut manager = EvictionManager::new();
    let id = IsolateId::from_string("iso_test_0");

    manager.register_isolate(id.clone(), IsolateMetadata::new("test", 0));
    manager.initiate_soft_eviction(&id);
    manager.complete_soft_eviction(&id);

    assert!(manager.is_evicted(&id));

    manager.reactivate_isolate(id.clone(), IsolateMetadata::new("test", 0));
    assert!(manager.can_accept_requests(&id));
    assert!(!manager.is_evicted(&id));
}

#[test]
fn test_eviction_config_default() {
    let config = EvictionConfig::default();
    assert_eq!(config.policy, EvictionPolicy::Lru);
    assert_eq!(config.target_eviction_count, 1);
    assert_eq!(config.cooldown_secs, 5);
    assert!(config.prefer_stateless);
    assert_eq!(config.min_idle_secs, 0);
}

#[test]
fn test_eviction_lru_selection() {
    let config = EvictionConfig { policy: EvictionPolicy::Lru, ..Default::default() };
    let mut manager = EvictionManager::with_config(config);

    let id1 = IsolateId::from_string("iso_test_0");
    let id2 = IsolateId::from_string("iso_test_1");

    let mut meta1 = IsolateMetadata::new_at("app1", 0, 1_000);
    let mut meta2 = IsolateMetadata::new_at("app2", 1, 1_000);
    meta1.last_used = 1_000;
    meta2.last_used = 101_000;

    manager.register_isolate(id1.clone(), meta1);
    manager.register_isolate(id2.clone(), meta2);

    let action = manager.evaluate_pressure_at(MemoryPressureLevel::Critical, 200_000);
    match action {
        EvictionAction::SoftEvict(victims) => {
            assert_eq!(victims, vec![id1.clone()]);
        }
        other => panic!("unexpected {other:?}"),
    }
    // Choosing victims leaves their state unchanged.
    assert!(manager.can_accept_requests(&id1));
    assert!(manager.can_accept_requests(&id2));
}

#[test]
fn test_eviction_with_active_requests() {
    let mut manager = EvictionManager::new();

    let id = IsolateId::from_string("iso_test_0");
    let mut meta = IsolateMetadata::new("test", 0);
    meta.active_requests = 1;

    manager.register_isolate(id.clone(), meta);

    let action = manager.evaluate_pressure(MemoryPressureLevel::Critical);
    assert_eq!(action, EvictionAction::Throttle);
}

#[test]
fn soft_eviction_waits_for_active_requests() {
    let mut manager = EvictionManager::new();
    let id = IsolateId::from_string("iso_busy");
    manager.register_isolate(id.clone(), IsolateMetadata::new("busy", 0));
    manager.mark_active(&id);
    manager.mark_active(&id);
    assert!(manager.initiate_soft_eviction(&id));
    // Already draining: a second initiation is refused.
    assert!(!manager.initiate_soft_eviction(&id));
    manager.mark_complete(&id);
    assert!(manager.is_draining(&id));
    manager.mark_complete(&id);
    // The last request finishing completes the eviction.
    assert!(manager.is_evicted(&id));
    assert_eq!(manager.eviction_count(), 1);
    // Completing a soft eviction needs a draining isolate.
    assert!(!manager.complete_soft_eviction(&id));
}

#[test]
fn memory_total_follows_usage_and_unregistration() {
    let mut manager = EvictionManager::new();
    let a = IsolateId::from_string("a");
    let b = IsolateId::from_string("b");
    manager.register_isolate(a.clone(), IsolateMetadata::new("a", 0));
    manager.register_isolate(b.clone(), IsolateMetadata::new("b", 0));
    manager.record_usage(&a, 100);
    manager.record_usage(&b, 50);
    assert_eq!(manager.total_memory_bytes(), 150);
    manager.record_usage(&a, 10);
    assert_eq!(manager.total_memory_bytes(), 60);
    // The total is recomputed on usage only; unregistering leaves it as is.
    manager.unregister_isolate(&b);
    assert_eq!(manager.total_memory_bytes(), 60);
    manager.clear();
    assert_eq!(manager.isolate_count(), 0);
    assert_eq!(manager.total_memory_bytes(), 0);
}

#[test]
fn ages_are_measured_from_creation() {
    let meta = IsolateMetadata::new_at("h", 0, 5_000);
    assert_eq!(meta.age_at(65_000), 60_000);
    assert_eq!(meta.idle_duration_at(6_000), 1_000);
    assert_eq!(meta.age_formatted_at(5_000 + 90_061_000), "25h 1m");
    assert_eq!(meta.age_formatted_at(5_000 + 61_000), "1m 1s");
    assert_eq!(meta.age_formatted_at(5_000 + 3_000), "3s");
    let mut manager = EvictionManager::new();
    let id = IsolateId::from_string("x");
    manager.register_isolate(id.clone(), meta);
    assert_eq!(manager.get_isolate_age_at(&id, 7_000), Some(2_000));
    assert_eq!(manager.get_isolate_age_at(&IsolateId::from_string("y"), 7_000), None);
}

#[test]
fn unknown_isolates_are_not_draining_or_evicted() {
    let manager = EvictionManager::new();
    let id = IsolateId::from_string("ghost");
    assert!(!manager.is_draining(&id));
    assert!(!manager.is_evicted(&id));
    assert!(!manager.can_accept_requests(&id));
    assert!(manager.time_since_last_eviction().is_none());
    assert_eq!(IsolateEvictionState::default(), IsolateEvictionState::Active);
}

#[test]
fn generated_ids_have_the_documented_shape() {
    let id = IsolateId::generate_with_counter(0x42);
    let s = id.as_str();
    assert_eq!(s.len(), 4 + 8 + 1 + 8);
    assert!(s.starts_with("iso_"));
    assert!(s[4..12].chars().all(|c| c.is_ascii_hexdigit() && !c.is_ascii_uppercase()));
    assert_eq!(&s[12..], "_00000042");
}

#[test]
fn time_of_last_use_never_goes_back() {
    let mut meta = IsolateMetadata::new_at("app.example.com", 1, u64::MAX - 1);
    meta.record_usage();
    assert_eq!(meta.last_used, u64::MAX - 1);
    assert_eq!(meta.use_count, 1);
    let mut manager = EvictionManager::new();
    let id = IsolateId::from_string("iso_future");
    manager.register_isolate(id.duplicate(), IsolateMetadata::new_at("h", 1, u64::MAX - 1));
    manager.record_usage(&id, 10);
    assert_eq!(manager.get_metadata(&id).unwrap().last_used, u64::MAX - 1);
}
