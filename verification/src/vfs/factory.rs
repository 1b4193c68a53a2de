//! Choosing a VFS backend from configuration. Building a disk backend
//! scans its directory, which the caller does with the base path chosen
//! here; the object-store backend is not built into this crate.
use vstd::prelude::*;
use crate::vfs::memory::MemoryBackend;
use crate::vfs::types::{ResourceLimits, VfsError};

verus! {

/// The kinds of VFS backend an app can be configured with.
#[derive(Debug, Clone, Copy, PartialEq, Eq)]
pub enum VfsBackendType {
    Memory,
    Disk,
    S3,
}

/// A chosen backend: an in-memory one, ready, or a disk one to be built
/// over the given base directory with the given limits.
#[derive(Debug)]
pub enum BackendChoice {
    Memory(MemoryBackend),
    Disk { base_path: String, limits: ResourceLimits },
}

/// Chooses VFS backends from configuration.
#[derive(Debug, Clone)]
pub struct BackendFactory;

impl BackendFactory {
    /// A factory.
    pub fn new() -> (r: Self) {
        BackendFactory
    }

    /// The backend for a configuration, with the given limits: memory needs
    /// nothing; disk needs its base directory (else an invalid-path error
    /// naming `vfs_disk`); the object store is not available in this build
    /// (an I/O error).
    pub fn plan_backend_with_limits(
        &self,
        backend_type: VfsBackendType,
        disk_base_path: Option<&str>,
        limits: ResourceLimits,
    ) -> (r: Result<BackendChoice, VfsError>)
        ensures
            backend_type == VfsBackendType::Memory ==> (r matches Ok(BackendChoice::Memory(m)) && m@
                == Map::<Seq<char>, (Seq<u8>, usize)>::empty() && m.spec_limits() == limits
                && m.spec_count() == 0 && m.spec_total() == 0),
            backend_type == VfsBackendType::Disk ==> match disk_base_path {
                Some(p) => r matches Ok(BackendChoice::Disk { base_path, limits: l }) && base_path@ == p@
                    && l == limits,
                None => r matches Err(VfsError::InvalidPath { path, reason }) && path@ == "vfs_disk"@
                    && reason@ == "Disk backend requires vfs_disk configuration"@,
            },
            backend_type == VfsBackendType::S3 ==> (r matches Err(VfsError::IoError(m)) && m@
                == "S3 backend requires vfs-s3 feature"@),
    {
        match backend_type {
            VfsBackendType::Memory => Ok(BackendChoice::Memory(MemoryBackend::with_limits(limits))),
            VfsBackendType::Disk => match disk_base_path {
                Some(p) => Ok(BackendChoice::Disk { base_path: p.to_owned(), limits }),
                None => Err(
                    VfsError::InvalidPath {
                        path: "vfs_disk".to_owned(),
                        reason: "Disk backend requires vfs_disk configuration".to_owned(),
                    },
                ),
            },
            VfsBackendType::S3 => Err(VfsError::IoError("S3 backend requires vfs-s3 feature".to_owned())),
        }
    }

    /// The backend for a configuration with the default limits (see
    /// `plan_backend_with_limits`).
    pub fn plan_backend(&self, backend_type: VfsBackendType, disk_base_path: Option<&str>) -> (r: Result<
        BackendChoice,
        VfsError,
    >)
        ensures
            backend_type == VfsBackendType::Memory ==> (r matches Ok(BackendChoice::Memory(m)) && m@
                == Map::<Seq<char>, (Seq<u8>, usize)>::empty() && m.spec_limits() == ResourceLimits {
                file_size_bytes_max: 10485760u32,
                total_storage_bytes_max: 104857600u32,
                files_count_max: 1000,
            }),
            backend_type == VfsBackendType::Disk ==> match disk_base_path {
                Some(p) => r matches Ok(BackendChoice::Disk { base_path, limits: l }) && base_path@ == p@
                    && l == (ResourceLimits {
                    file_size_bytes_max: 10485760u32,
                    total_storage_bytes_max: 104857600u32,
                    files_count_max: 1000,
                }),
                None => r matches Err(VfsError::InvalidPath { path, reason }) && path@ == "vfs_disk"@
                    && reason@ == "Disk backend requires vfs_disk configuration"@,
            },
            backend_type == VfsBackendType::S3 ==> (r matches Err(VfsError::IoError(m)) && m@
                == "S3 backend requires vfs-s3 feature"@),
    {
        self.plan_backend_with_limits(backend_type, disk_base_path, ResourceLimits::default())
    }
}

} // verus!
