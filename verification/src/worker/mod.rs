//! Worker-side policy: memory pressure, isolate eviction, CPU accounting,
//! execution timeouts, queue bookkeeping and live isolate telemetry.
pub mod memory_monitor;
pub mod eviction;
pub mod cpu_tracker;
pub mod timeout;
pub mod queue;
pub mod telemetry;
mod clock;
