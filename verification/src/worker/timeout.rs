//! Execution limits: CPU time (primary) and wall clock (backup).
//!
//! `TimeoutConfig` validates the limits, `TimeoutError` classifies limit
//! violations, and `ExecutionTimer` holds a validated configuration with its
//! CPU tracker.
use vstd::prelude::*;
use crate::text::{push_decimal, push_str};
use crate::worker::cpu_tracker::{cpu_checked, sat_sub, snapshot_of, CpuTimeError, CpuTimeSnapshot, CpuTracker};

verus! {

/// `std::time::Duration::from_millis` of a count of milliseconds.
pub uninterp spec fn duration_from_ms(ms: u64) -> core::time::Duration;

/// `std::time::Duration::from_micros` of a count of microseconds.
pub uninterp spec fn duration_from_us(us: u64) -> core::time::Duration;

/// Builds a duration of `ms` milliseconds (`Duration::from_millis`).
#[verifier::external_body]
fn millis(ms: u64) -> (r: core::time::Duration)
    ensures
        r == duration_from_ms(ms),
{
    core::time::Duration::from_millis(ms)
}

/// Builds a duration of `us` microseconds (`Duration::from_micros`).
#[verifier::external_body]
fn micros(us: u64) -> (r: core::time::Duration)
    ensures
        r == duration_from_us(us),
{
    core::time::Duration::from_micros(us)
}

/// Configuration for timeout behavior.
#[derive(Debug, Clone, Copy, PartialEq, Eq, Structural)]
pub struct TimeoutConfig {
    /// CPU time limit in milliseconds (default: 50ms)
    pub cpu_time_limit_ms: u32,
    /// Wall clock limit in milliseconds (default: 30s)
    pub wall_clock_limit_ms: u32,
    /// Grace period in microseconds before termination (default: 100us)
    pub termination_grace_us: u32,
}

impl Default for TimeoutConfig {
    fn default() -> (r: Self)
        ensures
            r == (TimeoutConfig {
                cpu_time_limit_ms: 50,
                wall_clock_limit_ms: 30_000,
                termination_grace_us: 100,
            }),
    {
        TimeoutConfig { cpu_time_limit_ms: 50, wall_clock_limit_ms: 30_000, termination_grace_us: 100 }
    }
}

/// The reason a configuration is refused, if any: CPU limit outside
/// 1..=1000 ms, wall clock limit below the CPU limit or above 300 s.
pub open spec fn config_problem(c: TimeoutConfig) -> Option<Seq<char>> {
    if c.cpu_time_limit_ms < 1 {
        Some("CPU time limit must be at least 1ms"@)
    } else if c.cpu_time_limit_ms > 1000 {
        Some("CPU time limit must not exceed 1000ms (1s)"@)
    } else if c.wall_clock_limit_ms < c.cpu_time_limit_ms {
        Some("Wall clock limit must be >= CPU time limit"@)
    } else if c.wall_clock_limit_ms > 300_000 {
        Some("Wall clock limit must not exceed 300s (5min)"@)
    } else {
        None
    }
}

impl TimeoutConfig {
    /// The default configuration with the given CPU time limit.
    pub fn with_cpu_limit(cpu_time_limit_ms: u32) -> (r: Self)
        ensures
            r == (TimeoutConfig { cpu_time_limit_ms, wall_clock_limit_ms: 30_000, termination_grace_us: 100 }),
    {
        TimeoutConfig { cpu_time_limit_ms, ..Default::default() }
    }

    /// The CPU time limit as a duration.
    pub fn cpu_duration(&self) -> (r: core::time::Duration)
        ensures
            r == duration_from_ms(self.cpu_time_limit_ms as u64),
    {
        millis(self.cpu_time_limit_ms as u64)
    }

    /// The wall clock limit as a duration.
    pub fn wall_clock_duration(&self) -> (r: core::time::Duration)
        ensures
            r == duration_from_ms(self.wall_clock_limit_ms as u64),
    {
        millis(self.wall_clock_limit_ms as u64)
    }

    /// The termination grace period as a duration.
    pub fn grace_duration(&self) -> (r: core::time::Duration)
        ensures
            r == duration_from_us(self.termination_grace_us as u64),
    {
        micros(self.termination_grace_us as u64)
    }

    /// Check that the limits are reasonable (see `config_problem`).
    pub fn validate(&self) -> (r: Result<(), String>)
        ensures
            match config_problem(*self) {
                None => r is Ok,
                Some(msg) => r is Err && r->Err_0@ == msg,
            },
    {
        if self.cpu_time_limit_ms < 1 {
            return Err("CPU time limit must be at least 1ms".to_owned());
        }
        if self.cpu_time_limit_ms > 1000 {
            return Err("CPU time limit must not exceed 1000ms (1s)".to_owned());
        }
        if self.wall_clock_limit_ms < self.cpu_time_limit_ms {
            return Err("Wall clock limit must be >= CPU time limit".to_owned());
        }
        if self.wall_clock_limit_ms > 300_000 {
            return Err("Wall clock limit must not exceed 300s (5min)".to_owned());
        }
        Ok(())
    }
}

/// Error types for timeout conditions.
#[derive(Debug, Clone)]
pub enum TimeoutError {
    /// CPU time limit exceeded
    CpuTimeExceeded {
        /// CPU time used in milliseconds
        used_ms: u64,
        /// Configured CPU limit in milliseconds
        limit_ms: u64,
    },
    /// Wall clock time limit exceeded
    WallClockExceeded {
        /// Configured wall clock limit in milliseconds
        limit_ms: u64,
    },
    /// Execution was terminated by the runtime
    ExecutionTerminated,
    /// Timeout configuration error
    ConfigError {
        /// Error message
        message: String,
    },
    /// Internal timer error
    TimerError {
        /// Error message
        message: String,
    },
}

impl TimeoutError {
    /// Whether this is a CPU time error.
    pub fn is_cpu_timeout(&self) -> (r: bool)
        ensures
            r == (self is CpuTimeExceeded),
    {
        match self {
            TimeoutError::CpuTimeExceeded { .. } => true,
            _ => false,
        }
    }

    /// Whether this is a wall clock error.
    pub fn is_wall_clock_timeout(&self) -> (r: bool)
        ensures
            r == (self is WallClockExceeded),
    {
        match self {
            TimeoutError::WallClockExceeded { .. } => true,
            _ => false,
        }
    }

    /// The limit that was exceeded, if any.
    pub fn limit_ms(&self) -> (r: Option<u64>)
        ensures
            r == match self {
                TimeoutError::CpuTimeExceeded { limit_ms, .. } => Some(*limit_ms),
                TimeoutError::WallClockExceeded { limit_ms } => Some(*limit_ms),
                _ => None::<u64>,
            },
    {
        match self {
            TimeoutError::CpuTimeExceeded { limit_ms, .. } => Some(*limit_ms),
            TimeoutError::WallClockExceeded { limit_ms } => Some(*limit_ms),
            _ => None,
        }
    }

    /// The error message.
    pub fn to_string(&self) -> (r: String)
        ensures
            r@ == match self {
                TimeoutError::CpuTimeExceeded { used_ms, limit_ms } => "CPU time limit exceeded: used "@
                    + crate::text::decimal(*used_ms as nat) + "ms, limit "@
                    + crate::text::decimal(*limit_ms as nat) + "ms"@,
                TimeoutError::WallClockExceeded { limit_ms } => "Wall clock time limit exceeded: limit "@
                    + crate::text::decimal(*limit_ms as nat) + "ms"@,
                TimeoutError::ExecutionTerminated => "Execution terminated by runtime"@,
                TimeoutError::ConfigError { message } => "Timeout configuration error: "@ + message@,
                TimeoutError::TimerError { message } => "Timer error: "@ + message@,
            },
    {
        let mut s = String::new();
        match self {
            TimeoutError::CpuTimeExceeded { used_ms, limit_ms } => {
                push_str(&mut s, "CPU time limit exceeded: used ");
                push_decimal(&mut s, *used_ms);
                push_str(&mut s, "ms, limit ");
                push_decimal(&mut s, *limit_ms);
                push_str(&mut s, "ms");
            },
            TimeoutError::WallClockExceeded { limit_ms } => {
                push_str(&mut s, "Wall clock time limit exceeded: limit ");
                push_decimal(&mut s, *limit_ms);
                push_str(&mut s, "ms");
            },
            TimeoutError::ExecutionTerminated => {
                push_str(&mut s, "Execution terminated by runtime");
            },
            TimeoutError::ConfigError { message } => {
                push_str(&mut s, "Timeout configuration error: ");
                push_str(&mut s, message.as_str());
            },
            TimeoutError::TimerError { message } => {
                push_str(&mut s, "Timer error: ");
                push_str(&mut s, message.as_str());
            },
        }
        s
    }
}

/// What happened while a watched execution runs: the wall clock limit ran
/// out; a short wait ended (and whether the timeout flag was raised
/// meanwhile); or the execution was polled (and whether it had finished).
#[derive(Debug, Clone, Copy, PartialEq, Eq, Structural)]
pub enum WatchEvent {
    WallClockElapsed,
    Tick { signaled: bool },
    Polled { ready: bool },
}

/// What the watcher does next: keep watching, or stop with the result of
/// the execution (terminating the isolate first where `terminate` says so).
#[derive(Debug)]
pub enum WatchOutcome {
    Continue,
    Done { terminate: bool, result: Result<(), TimeoutError> },
}

/// The CPU overrun, in whole milliseconds used and allowed, that these
/// readings show against the tracker's limit since `start`, if any.
pub open spec fn cpu_overrun(t: CpuTracker, start: CpuTimeSnapshot, thread_cpu: Option<u64>, wall: Option<u64>) -> Option<(u64, u64)> {
    match snapshot_of(t.enabled(), thread_cpu, wall) {
        Some((c, _)) => if sat_sub(c, start.cpu()) > t.limit() {
            Some(((sat_sub(c, start.cpu()) / 1000) as u64, (t.limit() / 1000) as u64))
        } else {
            None
        },
        None => None,
    }
}

/// The outcome of a watched execution's step: the wall clock limit ends it
/// with that limit; a raised timeout flag ends it, terminating the isolate;
/// a finished execution stands unless it used more CPU time than the limit,
/// which terminates the isolate; otherwise, once the grace period has
/// passed, an execution over its CPU limit is stopped the same way, and the
/// watch goes on.
pub open spec fn watch_outcome(
    config: TimeoutConfig,
    overrun: Option<(u64, u64)>,
    event: WatchEvent,
    elapsed_nanos: u128,
) -> Option<(bool, Result<(), TimeoutError>)> {
    let cpu_stop = match overrun {
        Some((used, limit)) => Some(
            (true, Err::<(), TimeoutError>(TimeoutError::CpuTimeExceeded { used_ms: used, limit_ms: limit })),
        ),
        None => None,
    };
    match event {
        WatchEvent::WallClockElapsed => Some(
            (false, Err(TimeoutError::WallClockExceeded { limit_ms: config.wall_clock_limit_ms as u64 })),
        ),
        WatchEvent::Tick { signaled: true } => Some((true, Err(TimeoutError::ExecutionTerminated))),
        WatchEvent::Polled { ready: true } => match cpu_stop {
            Some(x) => Some(x),
            None => Some((false, Ok(()))),
        },
        _ => if elapsed_nanos > config.termination_grace_us as u128 * 1000 {
            cpu_stop
        } else {
            None
        },
    }
}

/// The plain values of a watch outcome.
pub open spec fn outcome_view(o: WatchOutcome) -> Option<(bool, Result<(), TimeoutError>)> {
    match o {
        WatchOutcome::Continue => None,
        WatchOutcome::Done { terminate, result } => Some((terminate, result)),
    }
}

/// A watched execution that finished having used more CPU time than its
/// tracker allows (tracking on, both clocks read) is stopped: the isolate is
/// terminated and the overrun is reported in whole milliseconds. One that
/// is still running is stopped the same way once the grace period has
/// passed. An execution accepted on finishing used no more than the limit.
pub proof fn law_cpu_overrun_is_stopped(
    config: TimeoutConfig,
    t: CpuTracker,
    start: CpuTimeSnapshot,
    cpu: u64,
    wall: u64,
    elapsed_nanos: u128,
)
    requires
        t.enabled(),
        cpu >= start.cpu(),
    ensures
        cpu - start.cpu() > t.limit() ==> watch_outcome(
            config,
            cpu_overrun(t, start, Some(cpu), Some(wall)),
            WatchEvent::Polled { ready: true },
            elapsed_nanos,
        ) == Some((
            true,
            Err::<(), TimeoutError>(TimeoutError::CpuTimeExceeded {
                used_ms: ((cpu - start.cpu()) / 1000) as u64,
                limit_ms: (t.limit() / 1000) as u64,
            }),
        )),
        cpu - start.cpu() > t.limit() && elapsed_nanos > config.termination_grace_us as u128 * 1000
            ==> watch_outcome(
            config,
            cpu_overrun(t, start, Some(cpu), Some(wall)),
            WatchEvent::Polled { ready: false },
            elapsed_nanos,
        ) == Some((
            true,
            Err::<(), TimeoutError>(TimeoutError::CpuTimeExceeded {
                used_ms: ((cpu - start.cpu()) / 1000) as u64,
                limit_ms: (t.limit() / 1000) as u64,
            }),
        )),
        (watch_outcome(
            config,
            cpu_overrun(t, start, Some(cpu), Some(wall)),
            WatchEvent::Polled { ready: true },
            elapsed_nanos,
        ) matches Some((_, Ok(_)))) ==> cpu - start.cpu() <= t.limit(),
{
}

/// Execution timer: a validated timeout configuration with its CPU tracker.
#[derive(Debug)]
pub struct ExecutionTimer {
    config: TimeoutConfig,
    cpu_tracker: CpuTracker,
    active: bool,
}

impl ExecutionTimer {
    /// The configuration in force.
    pub closed spec fn spec_config(&self) -> TimeoutConfig {
        self.config
    }

    /// Whether a measured execution is in progress.
    pub closed spec fn spec_active(&self) -> bool {
        self.active
    }

    /// The CPU tracker.
    pub closed spec fn spec_tracker(&self) -> CpuTracker {
        self.cpu_tracker
    }

    /// A timer with the default configuration.
    pub fn new() -> (r: Self)
        ensures
            r.spec_config() == (TimeoutConfig {
                cpu_time_limit_ms: 50,
                wall_clock_limit_ms: 30_000,
                termination_grace_us: 100,
            }),
            r.spec_tracker().limit() == 50_000,
            r.spec_tracker().enabled(),
            !r.spec_active(),
    {
        Self::with_config(TimeoutConfig::default())
    }

    /// A timer with the given configuration, or the default one when the
    /// given one does not validate. Its CPU tracker is enabled with the CPU
    /// limit in force.
    pub fn with_config(config: TimeoutConfig) -> (r: Self)
        ensures
            r.spec_config() == if config_problem(config) is None {
                config
            } else {
                TimeoutConfig { cpu_time_limit_ms: 50, wall_clock_limit_ms: 30_000, termination_grace_us: 100 }
            },
            r.spec_tracker().limit() == r.spec_config().cpu_time_limit_ms as u64 * 1000,
            r.spec_tracker().enabled(),
            !r.spec_tracker().exceeded(),
            !r.spec_active(),
    {
        let config = match config.validate() {
            Ok(_) => config,
            Err(_) => TimeoutConfig::default(),
        };
        ExecutionTimer { cpu_tracker: CpuTracker::new(config.cpu_time_limit_ms), config, active: false }
    }

    /// A timer with the default configuration and the given CPU limit
    /// (falling back to the default when that does not validate).
    pub fn with_cpu_limit(cpu_limit_ms: u32) -> (r: Self)
        ensures
            r.spec_config().cpu_time_limit_ms == if 1 <= cpu_limit_ms <= 1000 {
                cpu_limit_ms
            } else {
                50
            },
            r.spec_config().wall_clock_limit_ms == 30_000,
            !r.spec_active(),
    {
        Self::with_config(TimeoutConfig::with_cpu_limit(cpu_limit_ms))
    }

    /// Whether a measured execution is in progress.
    pub fn is_active(&self) -> (r: bool)
        ensures
            r == self.spec_active(),
    {
        self.active
    }

    /// The configuration in force.
    pub fn config(&self) -> (r: &TimeoutConfig)
        ensures
            *r == self.spec_config(),
    {
        &self.config
    }

    /// The CPU tracker.
    pub fn cpu_tracker(&self) -> (r: &CpuTracker)
        ensures
            *r == self.spec_tracker(),
    {
        &self.cpu_tracker
    }

    /// Start a measured execution, given the thread CPU and wall clock
    /// readings: the starting snapshot, the timer becoming active; or, where
    /// CPU tracking cannot start, a configuration error saying so (the timer
    /// as it was).
    pub fn begin_execution(&mut self, thread_cpu_us: Option<u64>, wall_us: Option<u64>) -> (r: Result<
        CpuTimeSnapshot,
        TimeoutError,
    >)
        ensures
            final(self).spec_config() == old(self).spec_config(),
            final(self).spec_tracker() == old(self).spec_tracker(),
            match snapshot_of(old(self).spec_tracker().enabled(), thread_cpu_us, wall_us) {
                Some((c, w)) => r is Ok && r->Ok_0.cpu() == c && r->Ok_0.wall() == w && final(self).spec_active(),
                None => (r matches Err(TimeoutError::ConfigError { message }) && message@
                    == "Failed to start CPU tracking: "@ + ("CPU time tracking failed: "@
                    + "Failed to start CPU tracking - platform not supported"@)) && final(self).spec_active()
                    == old(self).spec_active(),
            },
    {
        let start = match self.cpu_tracker.start_from(thread_cpu_us, wall_us) {
            Ok(s) => s,
            Err(e) => {
                let mut message = String::new();
                push_str(&mut message, "Failed to start CPU tracking: ");
                push_str(&mut message, e.to_string().as_str());
                return Err(TimeoutError::ConfigError { message });
            },
        };
        self.active = true;
        Ok(start)
    }

    /// Finish a measured execution that started at `start`, given the
    /// readings after it: the timer becomes inactive; the execution stands
    /// unless it used more CPU time than the limit, which is reported in
    /// whole milliseconds (the caller then terminates the isolate); a
    /// failure to read the CPU time is ignored.
    pub fn finish_execution(&mut self, start: &CpuTimeSnapshot, thread_cpu_us: Option<u64>, wall_us: Option<u64>) -> (r:
        Result<(), TimeoutError>)
        ensures
            final(self).spec_config() == old(self).spec_config(),
            final(self).spec_tracker().limit() == old(self).spec_tracker().limit(),
            final(self).spec_tracker().enabled() == old(self).spec_tracker().enabled(),
            !final(self).spec_active(),
            match snapshot_of(old(self).spec_tracker().enabled(), thread_cpu_us, wall_us) {
                Some((c, _)) => if old(self).spec_tracker().enabled() && sat_sub(c, start.cpu()) > old(
                    self,
                ).spec_tracker().limit() {
                    r == Err::<(), TimeoutError>(
                        TimeoutError::CpuTimeExceeded {
                            used_ms: sat_sub(c, start.cpu()) / 1000,
                            limit_ms: old(self).spec_tracker().limit() / 1000,
                        },
                    ) && final(self).spec_tracker().exceeded()
                } else {
                    r is Ok
                },
                None => r is Ok,
            },
    {
        let verdict = self.cpu_tracker.check_cpu_from(start, thread_cpu_us, wall_us);
        self.active = false;
        match verdict {
            Ok(_) => Ok(()),
            Err(CpuTimeError::LimitExceeded { used_us, limit_us }) => Err(
                TimeoutError::CpuTimeExceeded { used_ms: used_us / 1000, limit_ms: limit_us / 1000 },
            ),
            Err(_) => Ok(()),
        }
    }
}

impl ExecutionTimer {
    /// Decide one step of watching an execution that started at `start`
    /// (see `watch_outcome`), given the event, the time elapsed since the
    /// start in nanoseconds, and the thread CPU and wall clock readings. A
    /// step that ends the watch makes the timer inactive, and a CPU overrun
    /// is recorded by its tracker; a step that goes on changes nothing.
    pub fn watch_step(
        &mut self,
        start: &CpuTimeSnapshot,
        event: WatchEvent,
        elapsed_nanos: u128,
        thread_cpu_us: Option<u64>,
        wall_us: Option<u64>,
    ) -> (r: WatchOutcome)
        ensures
            outcome_view(r) == watch_outcome(
                old(self).spec_config(),
                cpu_overrun(old(self).spec_tracker(), *start, thread_cpu_us, wall_us),
                event,
                elapsed_nanos,
            ),
            final(self).spec_config() == old(self).spec_config(),
            final(self).spec_tracker().limit() == old(self).spec_tracker().limit(),
            final(self).spec_tracker().enabled() == old(self).spec_tracker().enabled(),
            r is Continue ==> final(self).spec_active() == old(self).spec_active()
                && final(self).spec_tracker().exceeded() == old(self).spec_tracker().exceeded(),
            r is Done ==> !final(self).spec_active(),
            (r matches WatchOutcome::Done { result: Err(TimeoutError::CpuTimeExceeded { .. }), .. })
                ==> final(self).spec_tracker().exceeded(),
    {
        match event {
            WatchEvent::WallClockElapsed => {
                self.active = false;
                WatchOutcome::Done {
                    terminate: false,
                    result: Err(TimeoutError::WallClockExceeded { limit_ms: self.config.wall_clock_limit_ms as u64 }),
                }
            },
            WatchEvent::Tick { signaled: true } => {
                self.active = false;
                WatchOutcome::Done { terminate: true, result: Err(TimeoutError::ExecutionTerminated) }
            },
            WatchEvent::Polled { ready: true } => {
                let result = match self.finish_execution(start, thread_cpu_us, wall_us) {
                    Ok(_) => Ok(()),
                    Err(e) => Err(e),
                };
                let terminate = match &result {
                    Err(TimeoutError::CpuTimeExceeded { .. }) => true,
                    _ => false,
                };
                WatchOutcome::Done { terminate, result }
            },
            _ => {
                if elapsed_nanos > self.config.termination_grace_us as u128 * 1000 {
                    let verdict = self.cpu_tracker.check_cpu_from(start, thread_cpu_us, wall_us);
                    match verdict {
                        Err(CpuTimeError::LimitExceeded { used_us, limit_us }) => {
                            self.active = false;
                            WatchOutcome::Done {
                                terminate: true,
                                result: Err(TimeoutError::CpuTimeExceeded { used_ms: used_us / 1000, limit_ms: limit_us / 1000 }),
                            }
                        },
                        _ => WatchOutcome::Continue,
                    }
                } else {
                    WatchOutcome::Continue
                }
            },
        }
    }
}

impl Default for ExecutionTimer {
    fn default() -> (r: Self)
        ensures
            r.spec_config().cpu_time_limit_ms == 50,
            !r.spec_active(),
    {
        Self::new()
    }
}

} // verus!
