//! Sliver bundles: format constants, errors, entrypoint detection, VFS
//! capture, restoration reports, corruption kinds, manifests and archive
//! unpacking.
pub mod auto_cache;
pub mod error;
pub mod extractor;
pub mod format;
pub mod manifest;
pub mod packager;
pub mod restore;
pub mod unpacker;
pub mod validation;
pub mod vfs_capture;

pub use error::SliverError;
pub use extractor::SliverExtractor;
pub use format::{
    SliverFormat, BYTECODE_FILENAME, FORMAT_VERSION, MANIFEST_FILENAME, METADATA_FILENAME,
    SLIVER_EXTENSION, VFS_PREFIX,
};
pub use manifest::build_manifest;
pub use validation::CorruptionType;
