pub mod isolate;
pub mod module;
pub mod snapshot;

pub use isolate::{HeapLimits, IsolateState};
