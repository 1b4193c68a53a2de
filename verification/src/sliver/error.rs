//! Sliver error types.
use vstd::prelude::*;
use crate::text::push_str;

verus! {

/// Errors that can occur during sliver operations. An I/O error is held as
/// its message.
#[derive(Debug, Clone, PartialEq, Eq)]
pub enum SliverError {
    /// IO error during read/write operations
    IoError(String),
    /// JSON serialization/deserialization error
    SerializationError(String),
    /// Invalid sliver format version
    InvalidFormat { version: String },
    /// Missing metadata file in archive
    MissingMetadata { filename: String },
    /// Sliver archive has no payload (no bytecode, VFS entries, or legacy heap blob)
    MissingPayload { filename: String },
    /// Corrupted or invalid tar archive structure
    CorruptedArchive { reason: String },
    /// VFS entry path is invalid
    InvalidVfsPath { path: String },
    /// VFS entry type is unsupported
    UnsupportedEntryType { entry_type: String },
    /// VFS restoration failed
    VfsRestore { path: String, reason: String },
}

impl SliverError {
    /// The error message.
    pub fn to_string(&self) -> (r: String)
        ensures
            r@ == match self {
                SliverError::IoError(e) => "IO error: "@ + e@,
                SliverError::SerializationError(e) => "Serialization error: "@ + e@,
                SliverError::InvalidFormat { version } => "Invalid format version: "@ + version@,
                SliverError::MissingMetadata { filename } => "Missing metadata file: "@ + filename@,
                SliverError::MissingPayload { filename } => "Missing payload in sliver: "@
                    + filename@,
                SliverError::CorruptedArchive { reason } => "Corrupted archive: "@ + reason@,
                SliverError::InvalidVfsPath { path } => "Invalid VFS path: "@ + path@,
                SliverError::UnsupportedEntryType { entry_type } => "Unsupported VFS entry type: "@
                    + entry_type@,
                SliverError::VfsRestore { path, reason } => "Failed to restore VFS entry at "@
                    + path@ + ": "@ + reason@,
            },
    {
        let mut s = String::new();
        match self {
            SliverError::IoError(e) => {
                push_str(&mut s, "IO error: ");
                push_str(&mut s, e.as_str());
            },
            SliverError::SerializationError(e) => {
                push_str(&mut s, "Serialization error: ");
                push_str(&mut s, e.as_str());
            },
            SliverError::InvalidFormat { version } => {
                push_str(&mut s, "Invalid format version: ");
                push_str(&mut s, version.as_str());
            },
            SliverError::MissingMetadata { filename } => {
                push_str(&mut s, "Missing metadata file: ");
                push_str(&mut s, filename.as_str());
            },
            SliverError::MissingPayload { filename } => {
                push_str(&mut s, "Missing payload in sliver: ");
                push_str(&mut s, filename.as_str());
            },
            SliverError::CorruptedArchive { reason } => {
                push_str(&mut s, "Corrupted archive: ");
                push_str(&mut s, reason.as_str());
            },
            SliverError::InvalidVfsPath { path } => {
                push_str(&mut s, "Invalid VFS path: ");
                push_str(&mut s, path.as_str());
            },
            SliverError::UnsupportedEntryType { entry_type } => {
                push_str(&mut s, "Unsupported VFS entry type: ");
                push_str(&mut s, entry_type.as_str());
            },
            SliverError::VfsRestore { path, reason } => {
                push_str(&mut s, "Failed to restore VFS entry at ");
                push_str(&mut s, path.as_str());
                push_str(&mut s, ": ");
                push_str(&mut s, reason.as_str());
            },
        }
        s
    }
}

} // verus!
