use nano_core::worker::timeout::{ExecutionTimer, TimeoutConfig, TimeoutError, WatchEvent, WatchOutcome};
use nano_core::worker::cpu_tracker::CpuTimeSnapshot;
use std::time::Duration;

#[test]
fn test_timeout_config_default() {
    let config = TimeoutConfig::default();
    assert_eq!(config.cpu_time_limit_ms, 50);
    assert_eq!(config.wall_clock_limit_ms, 30_000);
    assert_eq!(config.termination_grace_us, 100);
}

#[test]
fn test_timeout_config_with_cpu_limit() {
    let config = TimeoutConfig::with_cpu_limit(100);
    assert_eq!(config.cpu_time_limit_ms, 100);
    assert_eq!(config.wall_clock_limit_ms, 30_000);
}

#[test]
fn test_timeout_config_durations() {
    let config = TimeoutConfig::default();
    assert_eq!(config.cpu_duration(), Duration::from_millis(50));
    assert_eq!(config.wall_clock_duration(), Duration::from_millis(30_000));
    assert_eq!(config.grace_duration(), Duration::from_micros(100));
}

#[test]
fn test_timeout_config_validation_valid() {
    let config = TimeoutConfig::default();
    assert!(config.validate().is_ok());
}

#[test]
fn test_timeout_config_validation_invalid_cpu_low() {
    let config = TimeoutConfig { cpu_time_limit_ms: 0, wall_clock_limit_ms: 1000, termination_grace_us: 100 };
    assert!(config.validate().is_err());
}

#[test]
fn test_timeout_config_validation_invalid_cpu_high() {
    let config = TimeoutConfig { cpu_time_limit_ms: 2000, wall_clock_limit_ms: 3000, termination_grace_us: 100 };
    assert!(config.validate().is_err());
}

#[test]
fn test_timeout_config_validation_invalid_wall_low() {
    let config = TimeoutConfig { cpu_time_limit_ms: 100, wall_clock_limit_ms: 50, termination_grace_us: 100 };
    assert!(config.validate().is_err());
}

#[test]
fn test_timeout_config_validation_invalid_wall_high() {
    let config = TimeoutConfig { cpu_time_limit_ms: 50, wall_clock_limit_ms: 400_000, termination_grace_us: 100 };
    assert!(config.validate().is_err());
}

#[test]
fn test_execution_timer_creation() {
    let timer = ExecutionTimer::new();
    assert_eq!(timer.config().cpu_time_limit_ms, 50);
    assert!(!timer.is_active());
}

#[test]
fn test_execution_timer_with_config() {
    let config = TimeoutConfig::with_cpu_limit(100);
    let timer = ExecutionTimer::with_config(config);
    assert_eq!(timer.config().cpu_time_limit_ms, 100);
}

#[test]
fn test_execution_timer_with_cpu_limit() {
    let timer = ExecutionTimer::with_cpu_limit(75);
    assert_eq!(timer.config().cpu_time_limit_ms, 75);
}

#[test]
fn test_execution_timer_default() {
    let timer: ExecutionTimer = Default::default();
    assert_eq!(timer.config().cpu_time_limit_ms, 50);
}

#[test]
fn test_timeout_error_cpu_exceeded() {
    let err = TimeoutError::CpuTimeExceeded { used_ms: 60, limit_ms: 50 };
    assert!(err.is_cpu_timeout());
    assert!(!err.is_wall_clock_timeout());
    assert_eq!(err.limit_ms(), Some(50));
}

#[test]
fn test_timeout_error_wall_clock_exceeded() {
    let err = TimeoutError::WallClockExceeded { limit_ms: 1000 };
    assert!(!err.is_cpu_timeout());
    assert!(err.is_wall_clock_timeout());
    assert_eq!(err.limit_ms(), Some(1000));
}

#[test]
fn test_timeout_error_execution_terminated() {
    let err = TimeoutError::ExecutionTerminated;
    assert!(!err.is_cpu_timeout());
    assert!(!err.is_wall_clock_timeout());
    assert_eq!(err.limit_ms(), None);
}

#[test]
fn test_timeout_error_display_cpu() {
    let msg = TimeoutError::CpuTimeExceeded { used_ms: 75, limit_ms: 50 }.to_string();
    assert!(msg.contains("CPU time limit exceeded"));
    assert!(msg.contains("75ms"));
    assert!(msg.contains("50ms"));
}

#[test]
fn test_timeout_error_display_wall_clock() {
    let msg = TimeoutError::WallClockExceeded { limit_ms: 30_000 }.to_string();
    assert!(msg.contains("Wall clock time limit exceeded"));
    assert!(msg.contains("30000ms"));
}

#[test]
fn test_timeout_error_display_terminated() {
    let msg = TimeoutError::ExecutionTerminated.to_string();
    assert!(msg.contains("Execution terminated"));
}

#[test]
fn test_timeout_error_display_config() {
    let msg = TimeoutError::ConfigError { message: "Invalid config".to_string() }.to_string();
    assert!(msg.contains("Timeout configuration error"));
    assert!(msg.contains("Invalid config"));
}

#[test]
fn test_timeout_error_display_timer() {
    let msg = TimeoutError::TimerError { message: "Timer failed".to_string() }.to_string();
    assert!(msg.contains("Timer error"));
    assert!(msg.contains("Timer failed"));
}

#[test]
fn invalid_config_falls_back_to_default() {
    let timer = ExecutionTimer::with_config(TimeoutConfig {
        cpu_time_limit_ms: 0,
        wall_clock_limit_ms: 30_000,
        termination_grace_us: 100,
    });
    assert_eq!(timer.config().cpu_time_limit_ms, 50);
    assert_eq!(timer.cpu_tracker().limit_us(), 50_000);
    assert_eq!(ExecutionTimer::with_cpu_limit(5000).config().cpu_time_limit_ms, 50);
}

#[test]
fn validation_messages() {
    let c = TimeoutConfig { cpu_time_limit_ms: 100, wall_clock_limit_ms: 50, termination_grace_us: 1 };
    assert_eq!(c.validate().unwrap_err(), "Wall clock limit must be >= CPU time limit");
    let c = TimeoutConfig { cpu_time_limit_ms: 1000, wall_clock_limit_ms: 300_000, termination_grace_us: 1 };
    assert!(c.validate().is_ok());
    let c = TimeoutConfig { cpu_time_limit_ms: 1001, wall_clock_limit_ms: 300_000, termination_grace_us: 1 };
    assert_eq!(c.validate().unwrap_err(), "CPU time limit must not exceed 1000ms (1s)");
}

#[test]
fn test_execute_and_check_success() {
    let mut timer = ExecutionTimer::with_cpu_limit(5000);
    let start = timer.begin_execution(Some(1_000), Some(10_000)).expect("tracking starts");
    assert!(timer.is_active());
    let value = "success";
    let result = timer.finish_execution(&start, Some(2_000), Some(12_000)).map(|_| value);
    assert!(result.is_ok());
    assert_eq!(result.unwrap(), "success");
    assert!(!timer.is_active());
}

#[test]
fn test_execute_and_check_disabled() {
    let mut timer = ExecutionTimer::with_config(TimeoutConfig {
        cpu_time_limit_ms: 0,
        wall_clock_limit_ms: 30_000,
        termination_grace_us: 100,
    });
    assert_eq!(timer.config().cpu_time_limit_ms, 50);
    let start = timer.begin_execution(Some(0), Some(0)).expect("tracking starts");
    let result = timer.finish_execution(&start, Some(100), Some(100)).map(|_| 42);
    assert!(result.is_ok());
    assert_eq!(result.unwrap(), 42);
}

#[test]
fn execution_over_the_cpu_limit_is_reported_in_milliseconds() {
    let mut timer = ExecutionTimer::with_cpu_limit(10);
    let start = CpuTimeSnapshot::new(1_000, 0);
    let result = timer.finish_execution(&start, Some(26_500), Some(40_000));
    assert!(matches!(result, Err(TimeoutError::CpuTimeExceeded { used_ms: 25, limit_ms: 10 })));
    assert!(timer.cpu_tracker().is_limit_exceeded());
    assert!(!timer.is_active());
}

#[test]
fn execution_without_clock_readings_cannot_start() {
    let mut timer = ExecutionTimer::new();
    let err = timer.begin_execution(Some(5), None).unwrap_err();
    assert!(matches!(err, TimeoutError::ConfigError { .. }));
    assert!(!timer.is_active());
    let start = CpuTimeSnapshot::new(0, 0);
    assert!(timer.finish_execution(&start, None, None).is_ok());
}

#[test]
fn watching_stops_at_the_wall_clock_limit() {
    let mut timer = ExecutionTimer::with_cpu_limit(10);
    let start = timer.begin_execution(Some(0), Some(0)).unwrap();
    match timer.watch_step(&start, WatchEvent::WallClockElapsed, 1, Some(0), Some(0)) {
        WatchOutcome::Done { terminate: false, result: Err(TimeoutError::WallClockExceeded { limit_ms: 30_000 }) } => {}
        other => panic!("unexpected {:?}", other),
    }
    assert!(!timer.is_active());
}

#[test]
fn watching_stops_when_the_timeout_flag_is_raised() {
    let mut timer = ExecutionTimer::with_cpu_limit(10);
    let start = timer.begin_execution(Some(0), Some(0)).unwrap();
    assert!(matches!(
        timer.watch_step(&start, WatchEvent::Tick { signaled: false }, 10, Some(5), Some(5)),
        WatchOutcome::Continue
    ));
    assert!(timer.is_active());
    assert!(matches!(
        timer.watch_step(&start, WatchEvent::Tick { signaled: true }, 10, Some(5), Some(5)),
        WatchOutcome::Done { terminate: true, result: Err(TimeoutError::ExecutionTerminated) }
    ));
    assert!(!timer.is_active());
}

#[test]
fn watching_checks_cpu_only_after_the_grace_period() {
    let mut timer = ExecutionTimer::with_cpu_limit(10);
    let start = timer.begin_execution(Some(0), Some(0)).unwrap();
    // 20 ms of CPU, but still within the 100 us grace period: keep watching.
    assert!(matches!(
        timer.watch_step(&start, WatchEvent::Polled { ready: false }, 100_000, Some(20_000), Some(20_000)),
        WatchOutcome::Continue
    ));
    assert!(matches!(
        timer.watch_step(&start, WatchEvent::Polled { ready: false }, 100_001, Some(20_000), Some(20_000)),
        WatchOutcome::Done { terminate: true, result: Err(TimeoutError::CpuTimeExceeded { used_ms: 20, limit_ms: 10 }) }
    ));
    assert!(timer.cpu_tracker().is_limit_exceeded());
}

#[test]
fn a_finished_execution_within_its_limit_stands() {
    let mut timer = ExecutionTimer::with_cpu_limit(10);
    let start = timer.begin_execution(Some(0), Some(0)).unwrap();
    assert!(matches!(
        timer.watch_step(&start, WatchEvent::Polled { ready: true }, 5_000_000, Some(9_000), Some(9_000)),
        WatchOutcome::Done { terminate: false, result: Ok(()) }
    ));
    assert!(!timer.is_active());
}
