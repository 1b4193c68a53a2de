//! Memory pressure classification.
//!
//! Four tiers relative to an isolate's memory limit: Normal (<70%),
//! Warning (70-85%), Critical (85-95%, soft eviction) and Emergency
//! (>=95%, hard eviction).
use vstd::prelude::*;

verus! {

/// Memory pressure classification levels.
#[derive(Debug, Clone, Copy, PartialEq, Eq, Structural, PartialOrd, Ord, Hash)]
pub enum MemoryPressureLevel {
    /// <70% of limit - normal operation
    Normal,
    /// 70-85% of limit - elevated usage, monitor closely
    Warning,
    /// 85-95% of limit - critical pressure, trigger soft eviction
    Critical,
    /// >95% of limit - emergency, hard eviction required
    Emergency,
}

impl MemoryPressureLevel {
    /// Whether this level calls for eviction (Critical or Emergency).
    pub fn requires_eviction(&self) -> (r: bool)
        ensures
            r == (*self == MemoryPressureLevel::Critical || *self == MemoryPressureLevel::Emergency),
    {
        match self {
            MemoryPressureLevel::Critical | MemoryPressureLevel::Emergency => true,
            _ => false,
        }
    }

    /// Whether this level calls for immediate eviction (Emergency only).
    pub fn requires_hard_eviction(&self) -> (r: bool)
        ensures
            r == (*self == MemoryPressureLevel::Emergency),
    {
        match self {
            MemoryPressureLevel::Emergency => true,
            _ => false,
        }
    }

    /// A human-readable description of the level.
    pub fn description(&self) -> (r: &'static str)
        ensures
            *self == MemoryPressureLevel::Normal ==> r@ == "Normal memory usage"@,
            *self == MemoryPressureLevel::Warning ==> r@ == "Elevated memory usage - monitoring"@,
            *self == MemoryPressureLevel::Critical ==> r@
                == "Critical memory pressure - soft eviction"@,
            *self == MemoryPressureLevel::Emergency ==> r@
                == "Emergency memory pressure - hard eviction"@,
    {
        match self {
            MemoryPressureLevel::Normal => "Normal memory usage",
            MemoryPressureLevel::Warning => "Elevated memory usage - monitoring",
            MemoryPressureLevel::Critical => "Critical memory pressure - soft eviction",
            MemoryPressureLevel::Emergency => "Emergency memory pressure - hard eviction",
        }
    }
}

impl Default for MemoryPressureLevel {
    fn default() -> (r: Self)
        ensures
            r == MemoryPressureLevel::Normal,
    {
        MemoryPressureLevel::Normal
    }
}

} // verus!
