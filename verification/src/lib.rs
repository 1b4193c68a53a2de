//! Verified core of a multi-tenant JavaScript/WASM edge runtime: isolate
//! eviction, CPU and timeout accounting, VFS paths and namespaces, module
//! detection, WASM header checks and sliver bundle bookkeeping.
mod text;
pub mod worker;
pub mod vfs;
pub mod v8;
pub mod wasm;
pub mod sliver;
