//! Per-request CPU time tracking with microsecond precision.
//!
//! A `CpuTracker` holds a CPU time limit and compares the CPU time elapsed
//! between two snapshots against it. The thread CPU clock is read by the
//! caller (it needs a platform call); the wall clock is read here. Each
//! operation that reads a clock has a `_from` variant that takes the
//! readings as arguments.
use vstd::prelude::*;
use crate::text::{push_decimal, push_str};
use crate::worker::clock::now_micros;

verus! {

/// Error type for CPU time limit violations.
#[derive(Debug, Clone)]
pub enum CpuTimeError {
    /// CPU time limit exceeded during execution
    LimitExceeded {
        /// Microseconds of CPU time used
        used_us: u64,
        /// Configured limit in microseconds
        limit_us: u64,
    },
    /// CPU time tracking failed (platform error)
    TrackingFailed {
        /// Error message
        message: String,
    },
}

impl CpuTimeError {
    /// The CPU time used, in whole milliseconds (zero for a tracking failure).
    pub fn used_ms(&self) -> (r: u64)
        ensures
            r == match self {
                CpuTimeError::LimitExceeded { used_us, .. } => *used_us / 1000,
                CpuTimeError::TrackingFailed { .. } => 0,
            },
    {
        match self {
            CpuTimeError::LimitExceeded { used_us, .. } => *used_us / 1000,
            CpuTimeError::TrackingFailed { .. } => 0,
        }
    }

    /// The limit, in whole milliseconds (zero for a tracking failure).
    pub fn limit_ms(&self) -> (r: u64)
        ensures
            r == match self {
                CpuTimeError::LimitExceeded { limit_us, .. } => *limit_us / 1000,
                CpuTimeError::TrackingFailed { .. } => 0,
            },
    {
        match self {
            CpuTimeError::LimitExceeded { limit_us, .. } => *limit_us / 1000,
            CpuTimeError::TrackingFailed { .. } => 0,
        }
    }

    /// The CPU time used, in microseconds (zero for a tracking failure).
    pub fn used_us(&self) -> (r: u64)
        ensures
            r == match self {
                CpuTimeError::LimitExceeded { used_us, .. } => *used_us,
                CpuTimeError::TrackingFailed { .. } => 0,
            },
    {
        match self {
            CpuTimeError::LimitExceeded { used_us, .. } => *used_us,
            CpuTimeError::TrackingFailed { .. } => 0,
        }
    }

    /// The limit, in microseconds (zero for a tracking failure).
    pub fn limit_us(&self) -> (r: u64)
        ensures
            r == match self {
                CpuTimeError::LimitExceeded { limit_us, .. } => *limit_us,
                CpuTimeError::TrackingFailed { .. } => 0,
            },
    {
        match self {
            CpuTimeError::LimitExceeded { limit_us, .. } => *limit_us,
            CpuTimeError::TrackingFailed { .. } => 0,
        }
    }

    /// The error message.
    pub fn to_string(&self) -> (r: String)
        ensures
            r@ == match self {
                CpuTimeError::LimitExceeded { used_us, limit_us } => "CPU time limit exceeded: used "@
                    + crate::text::decimal(*used_us as nat) + "us, limit "@
                    + crate::text::decimal(*limit_us as nat) + "us"@,
                CpuTimeError::TrackingFailed { message } => "CPU time tracking failed: "@
                    + message@,
            },
    {
        let mut s = String::new();
        match self {
            CpuTimeError::LimitExceeded { used_us, limit_us } => {
                push_str(&mut s, "CPU time limit exceeded: used ");
                push_decimal(&mut s, *used_us);
                push_str(&mut s, "us, limit ");
                push_decimal(&mut s, *limit_us);
                push_str(&mut s, "us");
            },
            CpuTimeError::TrackingFailed { message } => {
                push_str(&mut s, "CPU time tracking failed: ");
                push_str(&mut s, message.as_str());
            },
        }
        s
    }
}

/// A snapshot of CPU time and wall clock time, in microseconds.
#[derive(Debug, Clone, Copy, PartialEq, Eq, Structural)]
pub struct CpuTimeSnapshot {
    cpu_micros: u64,
    wall_micros: u64,
}

/// `to - from`, or zero when `to` is smaller.
pub open spec fn sat_sub(to: u64, from: u64) -> u64 {
    if to >= from {
        (to - from) as u64
    } else {
        0
    }
}

impl CpuTimeSnapshot {
    /// The CPU time at the snapshot point (µs).
    pub closed spec fn cpu(&self) -> u64 {
        self.cpu_micros
    }

    /// The wall clock time at the snapshot point (µs).
    pub closed spec fn wall(&self) -> u64 {
        self.wall_micros
    }

    /// A snapshot from raw microsecond values.
    pub fn new(cpu_micros: u64, wall_micros: u64) -> (r: Self)
        ensures
            r.cpu() == cpu_micros,
            r.wall() == wall_micros,
    {
        CpuTimeSnapshot { cpu_micros, wall_micros }
    }

    /// The CPU time in microseconds.
    pub fn cpu_micros(&self) -> (r: u64)
        ensures
            r == self.cpu(),
    {
        self.cpu_micros
    }

    /// The wall clock time in microseconds.
    pub fn wall_micros(&self) -> (r: u64)
        ensures
            r == self.wall(),
    {
        self.wall_micros
    }

    /// CPU microseconds elapsed from this snapshot to `now`, zero if `now`
    /// is earlier.
    pub fn elapsed_cpu_us(&self, now: &CpuTimeSnapshot) -> (r: u64)
        ensures
            r == sat_sub(now.cpu(), self.cpu()),
    {
        now.cpu_micros.saturating_sub(self.cpu_micros)
    }

    /// Wall clock microseconds elapsed from this snapshot to `now`, zero if
    /// `now` is earlier.
    pub fn elapsed_wall_us(&self, now: &CpuTimeSnapshot) -> (r: u64)
        ensures
            r == sat_sub(now.wall(), self.wall()),
    {
        now.wall_micros.saturating_sub(self.wall_micros)
    }
}

/// CPU time tracker for per-request limits.
#[derive(Debug)]
pub struct CpuTracker {
    limit_us: u64,
    enabled: bool,
    limit_exceeded: bool,
}

/// The snapshot taken from a thread CPU reading and a wall clock reading:
/// none when tracking is off or the wall clock could not be read; the wall
/// clock stands in for CPU time when there is no thread CPU reading.
pub open spec fn snapshot_of(enabled: bool, thread_cpu: Option<u64>, wall: Option<u64>) -> Option<
    (u64, u64),
> {
    if !enabled {
        None
    } else {
        match wall {
            None => None,
            Some(w) => match thread_cpu {
                Some(c) => Some((c, w)),
                None => Some((w, w)),
            },
        }
    }
}

/// `r` is the snapshot taken from these readings (see `snapshot_of`).
pub open spec fn snapshot_taken(enabled: bool, thread_cpu: Option<u64>, wall: Option<u64>, r: Option<CpuTimeSnapshot>) -> bool {
    match snapshot_of(enabled, thread_cpu, wall) {
        Some((c, w)) => r is Some && r->0.cpu() == c && r->0.wall() == w,
        None => r is None,
    }
}

/// A CPU check from `start` by the tracker `before`, given these readings,
/// answered `r` and left the tracker `after`: when disabled, it succeeds
/// with the wall clock reading (zero if none) as both times; when enabled
/// and no snapshot can be taken, it fails with a tracking error; when the
/// elapsed CPU time exceeds the limit, the tracker records that and it
/// fails with the elapsed time and the limit; otherwise it returns the new
/// snapshot. The limit and the switch stay.
pub open spec fn cpu_checked(
    before: CpuTracker,
    after: CpuTracker,
    start: CpuTimeSnapshot,
    thread_cpu: Option<u64>,
    wall: Option<u64>,
    r: Result<CpuTimeSnapshot, CpuTimeError>,
) -> bool {
    &&& after.limit() == before.limit()
    &&& after.enabled() == before.enabled()
    &&& !before.enabled() ==> {
        let w = match wall {
            Some(w) => w,
            None => 0,
        };
        &&& r is Ok
        &&& r->Ok_0.cpu() == w
        &&& r->Ok_0.wall() == w
        &&& after.exceeded() == before.exceeded()
    }
    &&& before.enabled() ==> match snapshot_of(true, thread_cpu, wall) {
        None => r is Err && r->Err_0 is TrackingFailed && r->Err_0->message@
            == "Failed to capture CPU time snapshot"@ && after.exceeded() == before.exceeded(),
        Some((c, w)) => {
            let used = sat_sub(c, start.cpu());
            if used > before.limit() {
                &&& r == Err::<CpuTimeSnapshot, CpuTimeError>(
                    CpuTimeError::LimitExceeded { used_us: used, limit_us: before.limit() },
                )
                &&& after.exceeded()
            } else {
                &&& r is Ok
                &&& r->Ok_0.cpu() == c
                &&& r->Ok_0.wall() == w
                &&& after.exceeded() == before.exceeded()
            }
        },
    }
}

/// A peek from `start` given these readings answered `r`: the snapshot and
/// the CPU microseconds elapsed; without a snapshot, the wall clock reading
/// (zero if none) stands for both times and the elapsed time is zero.
pub open spec fn cpu_peeked(
    enabled: bool,
    start: CpuTimeSnapshot,
    thread_cpu: Option<u64>,
    wall: Option<u64>,
    r: (CpuTimeSnapshot, u64),
) -> bool {
    match snapshot_of(enabled, thread_cpu, wall) {
        Some((c, w)) => r.0.cpu() == c && r.0.wall() == w && r.1 == sat_sub(c, start.cpu()),
        None => {
            let w = match wall {
                Some(w) => w,
                None => 0,
            };
            r.0.cpu() == w && r.0.wall() == w && r.1 == 0
        },
    }
}

/// A measurement started from these readings answered `r`: the starting
/// snapshot, or a tracking error when none can be taken.
pub open spec fn cpu_started(
    enabled: bool,
    thread_cpu: Option<u64>,
    wall: Option<u64>,
    r: Result<CpuTimeSnapshot, CpuTimeError>,
) -> bool {
    match snapshot_of(enabled, thread_cpu, wall) {
        Some((c, w)) => r is Ok && r->Ok_0.cpu() == c && r->Ok_0.wall() == w,
        None => r is Err && r->Err_0 is TrackingFailed && r->Err_0->message@
            == "Failed to start CPU tracking - platform not supported"@,
    }
}

impl CpuTracker {
    /// The limit in microseconds.
    pub closed spec fn limit(&self) -> u64 {
        self.limit_us
    }

    /// Whether tracking is enabled.
    pub closed spec fn enabled(&self) -> bool {
        self.enabled
    }

    /// Whether the limit has been exceeded since the last reset.
    pub closed spec fn exceeded(&self) -> bool {
        self.limit_exceeded
    }

    /// A tracker with a limit in milliseconds, enabled.
    pub fn new(limit_ms: u32) -> (r: Self)
        ensures
            r.limit() == limit_ms as u64 * 1000,
            r.enabled(),
            !r.exceeded(),
    {
        Self::with_limit_us((limit_ms as u64) * 1000)
    }

    /// A tracker with a limit in microseconds, enabled.
    pub fn with_limit_us(limit_us: u64) -> (r: Self)
        ensures
            r.limit() == limit_us,
            r.enabled(),
            !r.exceeded(),
    {
        CpuTracker { limit_us, enabled: true, limit_exceeded: false }
    }

    /// A disabled tracker with no limit.
    pub fn disabled() -> (r: Self)
        ensures
            r.limit() == u64::MAX,
            !r.enabled(),
            !r.exceeded(),
    {
        CpuTracker { limit_us: u64::MAX, enabled: false, limit_exceeded: false }
    }

    /// The limit in whole milliseconds.
    pub fn limit_ms(&self) -> (r: u64)
        ensures
            r == self.limit() / 1000,
    {
        self.limit_us / 1000
    }

    /// The limit in microseconds.
    pub fn limit_us(&self) -> (r: u64)
        ensures
            r == self.limit(),
    {
        self.limit_us
    }

    /// Whether tracking is enabled.
    pub fn is_enabled(&self) -> (r: bool)
        ensures
            r == self.enabled(),
    {
        self.enabled
    }

    /// Whether the limit has been exceeded.
    pub fn is_limit_exceeded(&self) -> (r: bool)
        ensures
            r == self.exceeded(),
    {
        self.limit_exceeded
    }

    /// Enable or disable tracking.
    pub fn set_enabled(&mut self, enabled: bool)
        ensures
            final(self).enabled() == enabled,
            final(self).limit() == old(self).limit(),
            final(self).exceeded() == old(self).exceeded(),
    {
        self.enabled = enabled;
    }

    /// Set the limit in milliseconds.
    pub fn set_limit_ms(&mut self, limit_ms: u32)
        ensures
            final(self).limit() == limit_ms as u64 * 1000,
            final(self).enabled() == old(self).enabled(),
            final(self).exceeded() == old(self).exceeded(),
    {
        self.limit_us = (limit_ms as u64) * 1000;
    }

    /// Set the limit in microseconds.
    pub fn set_limit_us(&mut self, limit_us: u64)
        ensures
            final(self).limit() == limit_us,
            final(self).enabled() == old(self).enabled(),
            final(self).exceeded() == old(self).exceeded(),
    {
        self.limit_us = limit_us;
    }

    /// Clear the limit-exceeded flag.
    pub fn reset(&mut self)
        ensures
            !final(self).exceeded(),
            final(self).limit() == old(self).limit(),
            final(self).enabled() == old(self).enabled(),
    {
        self.limit_exceeded = false;
    }

    /// A snapshot from the given thread CPU and wall clock readings (see
    /// `snapshot_of`).
    pub fn snapshot_from(&self, thread_cpu_us: Option<u64>, wall_us: Option<u64>) -> (r: Option<
        CpuTimeSnapshot,
    >)
        ensures
            match snapshot_of(self.enabled(), thread_cpu_us, wall_us) {
                Some((c, w)) => r is Some && r->0.cpu() == c && r->0.wall() == w,
                None => r is None,
            },
    {
        if !self.enabled {
            return None;
        }
        match wall_us {
            None => None,
            Some(w) => match thread_cpu_us {
                Some(c) => Some(CpuTimeSnapshot::new(c, w)),
                None => Some(CpuTimeSnapshot::new(w, w)),
            },
        }
    }

    /// A snapshot from the given thread CPU reading and the wall clock now.
    pub fn snapshot(&self, thread_cpu_us: Option<u64>) -> (r: Option<CpuTimeSnapshot>)
        ensures
            exists|wall: Option<u64>| #[trigger] snapshot_taken(self.enabled(), thread_cpu_us, wall, r),
    {
        let wall = now_micros();
        let r = self.snapshot_from(thread_cpu_us, wall);
        assert(snapshot_taken(self.enabled(), thread_cpu_us, wall, r));
        r
    }

    /// Check the CPU time elapsed since `start` against the limit, given
    /// the thread CPU and wall clock readings. When disabled, succeeds with
    /// the wall clock reading (zero if none) as both times. When enabled
    /// and no snapshot can be taken, fails with a tracking error. When the
    /// elapsed CPU time exceeds the limit, records that the limit was
    /// exceeded and fails with the elapsed time and the limit; otherwise
    /// returns the new snapshot.
    pub fn check_cpu_from(
        &mut self,
        start: &CpuTimeSnapshot,
        thread_cpu_us: Option<u64>,
        wall_us: Option<u64>,
    ) -> (r: Result<CpuTimeSnapshot, CpuTimeError>)
        ensures
            cpu_checked(*old(self), *final(self), *start, thread_cpu_us, wall_us, r),
    {
        if !self.enabled {
            let w = match wall_us {
                Some(w) => w,
                None => 0,
            };
            return Ok(CpuTimeSnapshot::new(w, w));
        }
        let now = match self.snapshot_from(thread_cpu_us, wall_us) {
            Some(n) => n,
            None => {
                return Err(
                    CpuTimeError::TrackingFailed {
                        message: "Failed to capture CPU time snapshot".to_owned(),
                    },
                );
            },
        };
        let elapsed_us = start.elapsed_cpu_us(&now);
        let limit_us = self.limit_us;
        if elapsed_us > limit_us {
            self.limit_exceeded = true;
            return Err(CpuTimeError::LimitExceeded { used_us: elapsed_us, limit_us });
        }
        Ok(now)
    }

    /// Check the CPU time elapsed since `start` against the limit, given
    /// the thread CPU reading and the wall clock now (see `check_cpu_from`).
    pub fn check_cpu(&mut self, start: &CpuTimeSnapshot, thread_cpu_us: Option<u64>) -> (r: Result<
        CpuTimeSnapshot,
        CpuTimeError,
    >)
        ensures
            exists|wall: Option<u64>| #[trigger] cpu_checked(*old(self), *final(self), *start, thread_cpu_us, wall, r),
    {
        self.check_cpu_from(start, thread_cpu_us, now_micros())
    }

    /// The current snapshot and the CPU microseconds elapsed since `start`,
    /// given the thread CPU and wall clock readings, without checking the
    /// limit. Without a snapshot, the wall clock reading (zero if none)
    /// stands for both times and the elapsed time is zero.
    pub fn peek_cpu_from(
        &self,
        start: &CpuTimeSnapshot,
        thread_cpu_us: Option<u64>,
        wall_us: Option<u64>,
    ) -> (r: (CpuTimeSnapshot, u64))
        ensures
            cpu_peeked(self.enabled(), *start, thread_cpu_us, wall_us, r),
    {
        match self.snapshot_from(thread_cpu_us, wall_us) {
            Some(now) => {
                let elapsed_us = start.elapsed_cpu_us(&now);
                (now, elapsed_us)
            },
            None => {
                let w = match wall_us {
                    Some(w) => w,
                    None => 0,
                };
                (CpuTimeSnapshot::new(w, w), 0)
            },
        }
    }

    /// Peek at the CPU time elapsed since `start`, given the thread CPU
    /// reading and the wall clock now (see `peek_cpu_from`).
    pub fn peek_cpu(&self, start: &CpuTimeSnapshot, thread_cpu_us: Option<u64>) -> (r: (
        CpuTimeSnapshot,
        u64,
    ))
        ensures
            exists|wall: Option<u64>| #[trigger] cpu_peeked(self.enabled(), *start, thread_cpu_us, wall, r),
    {
        self.peek_cpu_from(start, thread_cpu_us, now_micros())
    }

    /// The starting snapshot for a measurement, given the thread CPU and
    /// wall clock readings; fails when no snapshot can be taken.
    pub fn start_from(&self, thread_cpu_us: Option<u64>, wall_us: Option<u64>) -> (r: Result<
        CpuTimeSnapshot,
        CpuTimeError,
    >)
        ensures
            cpu_started(self.enabled(), thread_cpu_us, wall_us, r),
    {
        match self.snapshot_from(thread_cpu_us, wall_us) {
            Some(s) => Ok(s),
            None => Err(
                CpuTimeError::TrackingFailed {
                    message: "Failed to start CPU tracking - platform not supported".to_owned(),
                },
            ),
        }
    }

    /// The starting snapshot for a measurement, given the thread CPU reading
    /// and the wall clock now (see `start_from`).
    pub fn start(&self, thread_cpu_us: Option<u64>) -> (r: Result<CpuTimeSnapshot, CpuTimeError>)
        ensures
            exists|wall: Option<u64>| #[trigger] cpu_started(self.enabled(), thread_cpu_us, wall, r),
    {
        self.start_from(thread_cpu_us, now_micros())
    }
}

} // verus!
