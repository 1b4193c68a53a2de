//! Virtual file system: normalized paths, per-tenant namespaces, quotas and
//! the storage backends.
pub mod disk;
pub mod factory;
pub mod isolate;
pub mod loader;
pub mod memory;
pub mod quota;
pub mod s3;
pub mod types;

pub use disk::DiskBackend;
pub use isolate::{IsolateVfs, VfsNamespace};
pub use memory::MemoryBackend;
pub use s3::{S3Backend, S3Config};
pub use types::{ResourceLimits, VfsError, VfsFile, VfsPath};
