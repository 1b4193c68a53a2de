//! Sliver archive format constants.
use vstd::prelude::*;
use crate::text::chars_of;

verus! {

/// Current sliver format version (v2.0: bytecode replaces the heap blob;
/// the source lives in the VFS).
pub const FORMAT_VERSION: &'static str = "2.0";

/// The runtime version recorded in sliver metadata (this crate's version).
pub const NANO_VERSION: &'static str = "0.1.0";

/// File name for V8 bytecode (optional, tied to the V8 version).
pub const BYTECODE_FILENAME: &'static str = "bytecode.v8bc";

/// File name for the JSON metadata.
pub const METADATA_FILENAME: &'static str = "meta.json";

/// File name for the human-readable manifest.
pub const MANIFEST_FILENAME: &'static str = "manifest.txt";

/// Prefix of VFS entries in the archive.
pub const VFS_PREFIX: &'static str = "vfs/";

/// The sliver file extension.
pub const SLIVER_EXTENSION: &'static str = ".sliver";

/// Format specification and capabilities.
#[derive(Debug, Clone)]
pub struct SliverFormat;

/// The archive layout description.
pub open spec fn structure_text() -> Seq<char> {
    "Sliver Archive Structure\n========================\n\napp.sliver (tar archive)\n├── meta.json          # Metadata: hostname, created_at, version\n├── bytecode.v8bc      # Optional: pre-compiled V8 UnboundScript bytes\n└── vfs/               # App files (JS source, assets, modules, WASM)\n    ├── index.js\n    └── assets/\n        └── logo.png\n\nRequired Files:\n- meta.json: JSON metadata with hostname, timestamps, version info\n- vfs/*: the app's files (the app runs from these)\n\nOptional Files:\n- bytecode.v8bc: pre-compiled bytecode generated at pack time (skips\n  parse+compile at load); omitted with --source-only\n\nFormat Notes:\n- Archive is a standard tar file (ustar or GNU format)\n- There is no heap snapshot: the app runs from its VFS source\n- VFS entries preserve directory structure under vfs/ prefix\n- All paths use forward slashes (even on Windows)\n- Binary files stored as-is without encoding\n"@
}

impl SliverFormat {
    /// The current format version.
    pub fn version() -> (r: &'static str)
        ensures
            r@ == "2.0"@,
    {
        FORMAT_VERSION
    }

    /// The runtime version.
    pub fn nano_version() -> (r: &'static str)
        ensures
            r@ == NANO_VERSION@,
    {
        NANO_VERSION
    }

    /// Whether a format version can be read (see `is_supported_version_any`).
    pub fn is_supported_version(version: &str) -> (r: bool)
        ensures
            r == (version@ == "1.0"@ || version@ == "2.0"@),
    {
        Self::is_supported_version_any(version)
    }

    /// The files every valid sliver archive holds.
    pub fn required_files() -> (r: Vec<&'static str>)
        ensures
            r@.len() == 1,
            r@[0]@ == METADATA_FILENAME@,
    {
        let mut v: Vec<&'static str> = Vec::new();
        v.push(METADATA_FILENAME);
        v
    }

    /// Whether a format version is supported: 1.0 (readable, for migration)
    /// or 2.0.
    pub fn is_supported_version_any(version: &str) -> (r: bool)
        ensures
            r == (version@ == "1.0"@ || version@ == "2.0"@),
    {
        let v = chars_of(version);
        proof {
            reveal_strlit("1.0");
            reveal_strlit("2.0");
        }
        if v.len() != 3 || v[1] != '.' || v[2] != '0' {
            proof {
                if version@ == "1.0"@ || version@ == "2.0"@ {
                    assert(v@[1] == '.' && v@[2] == '0');
                }
            }
            return false;
        }
        let r = v[0] == '1' || v[0] == '2';
        proof {
            if r {
                if v@[0] == '1' {
                    assert(version@ =~= "1.0"@);
                } else {
                    assert(version@ =~= "2.0"@);
                }
            }
        }
        r
    }

    /// The archive structure, for documentation and manifests.
    pub fn structure_documentation() -> (r: &'static str)
        ensures
            r@ == structure_text(),
    {
        "Sliver Archive Structure\n========================\n\napp.sliver (tar archive)\n├── meta.json          # Metadata: hostname, created_at, version\n├── bytecode.v8bc      # Optional: pre-compiled V8 UnboundScript bytes\n└── vfs/               # App files (JS source, assets, modules, WASM)\n    ├── index.js\n    └── assets/\n        └── logo.png\n\nRequired Files:\n- meta.json: JSON metadata with hostname, timestamps, version info\n- vfs/*: the app's files (the app runs from these)\n\nOptional Files:\n- bytecode.v8bc: pre-compiled bytecode generated at pack time (skips\n  parse+compile at load); omitted with --source-only\n\nFormat Notes:\n- Archive is a standard tar file (ustar or GNU format)\n- There is no heap snapshot: the app runs from its VFS source\n- VFS entries preserve directory structure under vfs/ prefix\n- All paths use forward slashes (even on Windows)\n- Binary files stored as-is without encoding\n"
    }
}

} // verus!
