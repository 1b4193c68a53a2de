//! Reading sliver archives: the entries of the tar archive, and their
//! assembly into metadata, bytecode and VFS files.
use vstd::prelude::*;
use std::io::Read;
use crate::sliver::error::SliverError;
use crate::sliver::format::{SliverFormat, BYTECODE_FILENAME, METADATA_FILENAME, VFS_PREFIX};
use crate::text::{chars_from, chars_of, str_eq, string_of};
use crate::v8::module::{occurs, starts_with};
use crate::vfs::memory::str_path_outcome;
use crate::vfs::types::{VfsFile, VfsPath};
use crate::wasm::sliver::copy_range;

verus! {

/// What the `tar` crate reads from an archive held in memory: the path
/// (decoded lossily) and content of each entry in order, up to the first
/// failure, and that failure's message.
pub uninterp spec fn tar_scan(bytes: Seq<u8>) -> (Seq<(Seq<char>, Seq<u8>)>, Option<Seq<char>>);

/// The characters and bytes of each entry.
pub open spec fn raw_views(es: Seq<(String, Vec<u8>)>) -> Seq<(Seq<char>, Seq<u8>)> {
    es.map_values(|e: (String, Vec<u8>)| (e.0@, e.1@))
}

/// The characters of an optional message.
pub open spec fn message_view(m: Option<String>) -> Option<Seq<char>> {
    match m {
        Some(s) => Some(s@),
        None => None,
    }
}

/// `tar::Archive::entries` over the bytes, with each entry's `path`
/// (`to_string_lossy`) and content (`read_to_end`), stopping at the first
/// `io::Error` (its message).
#[verifier::external_body]
fn read_tar_entries(bytes: &[u8]) -> (r: (Vec<(String, Vec<u8>)>, Option<String>))
    ensures
        (raw_views(r.0@), message_view(r.1)) == tar_scan(bytes@),
{
    let mut out = Vec::new();
    let mut take = |en: std::io::Result<tar::Entry<&[u8]>>| -> std::io::Result<()> {
        let mut en = en?;
        let path = en.path()?.to_string_lossy().into_owned();
        let mut content = Vec::new();
        en.read_to_end(&mut content)?;
        out.push((path, content));
        Ok(())
    };
    let failure: std::io::Result<()> = tar::Archive::new(bytes).entries().and_then(|es| es.map(&mut take).collect());
    (out, failure.err().map(|e| e.to_string()))
}

/// One entry of a sliver archive: its path and content, and what its
/// content parses to as sliver metadata JSON (the format version, or the
/// parse error's message), which only the metadata entry is read for.
#[derive(Debug)]
pub struct SliverEntry {
    pub path: String,
    pub content: Vec<u8>,
    pub metadata: Result<String, String>,
}

/// Why an archive does not unpack.
pub enum UnpackIssue {
    /// Reading the archive failed: the message.
    Io(Seq<char>),
    /// The metadata JSON did not parse: the message.
    Serialization(Seq<char>),
    /// A `vfs/` entry names no valid path: what follows the prefix.
    InvalidVfsPath(Seq<char>),
    /// There is no metadata entry.
    MissingMetadata,
    /// The metadata's format version is not supported.
    InvalidFormat(Seq<char>),
}

/// What the entries assemble to: the index and format version of the
/// metadata entry, the bytecode, and the VFS files (path and content).
pub struct UnpackState {
    pub meta: Option<(int, Seq<char>)>,
    pub bytecode: Option<Seq<u8>>,
    pub vfs: Seq<(Seq<char>, Seq<u8>)>,
}

/// One entry, at index `i`, taken into the assembly: a metadata entry
/// (later ones win) must parse; the bytecode entry's content is the
/// bytecode (later ones win); a `vfs/` entry must name a valid path and is
/// added; every other entry is ignored.
pub open spec fn unpack_step(st: UnpackState, e: SliverEntry, i: int) -> Result<UnpackState, UnpackIssue> {
    if e.path@ == METADATA_FILENAME@ {
        match e.metadata {
            Ok(v) => Ok(UnpackState { meta: Some((i, v@)), ..st }),
            Err(m) => Err(UnpackIssue::Serialization(m@)),
        }
    } else if e.path@ == BYTECODE_FILENAME@ {
        Ok(UnpackState { bytecode: Some(e.content@), ..st })
    } else if starts_with(e.path@, VFS_PREFIX@) {
        let rel = e.path@.skip(VFS_PREFIX@.len() as int);
        match str_path_outcome(rel) {
            Ok(p) => Ok(UnpackState { vfs: st.vfs.push((p, e.content@)), ..st }),
            Err(_) => Err(UnpackIssue::InvalidVfsPath(rel)),
        }
    } else {
        Ok(st)
    }
}

/// The entries taken in order, stopping at the first issue.
pub open spec fn unpack_fold(es: Seq<SliverEntry>) -> Result<UnpackState, UnpackIssue>
    decreases es.len(),
{
    if es.len() == 0 {
        Ok(UnpackState { meta: None, bytecode: None, vfs: Seq::empty() })
    } else {
        match unpack_fold(es.drop_last()) {
            Err(x) => Err(x),
            Ok(st) => unpack_step(st, es.last(), es.len() - 1),
        }
    }
}

/// The outcome of unpacking: the entries read before a read failure are
/// taken first, then the failure counts; then the metadata must be present
/// and its format version supported.
pub open spec fn unpack_outcome(es: Seq<SliverEntry>, failure: Option<Seq<char>>) -> Result<UnpackState, UnpackIssue> {
    match unpack_fold(es) {
        Err(x) => Err(x),
        Ok(st) => match failure {
            Some(f) => Err(UnpackIssue::Io(f)),
            None => match st.meta {
                None => Err(UnpackIssue::MissingMetadata),
                Some((_, v)) => if v == "1.0"@ || v == "2.0"@ {
                    Ok(st)
                } else {
                    Err(UnpackIssue::InvalidFormat(v))
                },
            },
        },
    }
}

/// Whether an error is the one an issue is reported as.
pub open spec fn reports(e: SliverError, x: UnpackIssue) -> bool {
    match x {
        UnpackIssue::Io(m) => e matches SliverError::IoError(s) && s@ == m,
        UnpackIssue::Serialization(m) => e matches SliverError::SerializationError(s) && s@ == m,
        UnpackIssue::InvalidVfsPath(p) => e matches SliverError::InvalidVfsPath { path } && path@ == p,
        UnpackIssue::MissingMetadata => e matches SliverError::MissingMetadata { filename }
            && filename@ == METADATA_FILENAME@,
        UnpackIssue::InvalidFormat(v) => e matches SliverError::InvalidFormat { version } && version@ == v,
    }
}

/// The parts of an unpacked sliver: which entry holds its metadata, its
/// bytecode, and its VFS files (each sized by its content).
#[derive(Debug)]
pub struct UnpackedParts {
    pub metadata_index: usize,
    pub bytecode: Option<Vec<u8>>,
    pub vfs_entries: Vec<(VfsPath, VfsFile)>,
}

/// The path and content of each VFS file.
pub open spec fn file_views(v: Seq<(VfsPath, VfsFile)>) -> Seq<(Seq<char>, Seq<u8>)> {
    v.map_values(|e: (VfsPath, VfsFile)| (e.0@, e.1.content@))
}

/// The bytes of an optional byte vector.
pub open spec fn bytes_view(b: Option<Vec<u8>>) -> Option<Seq<u8>> {
    match b {
        Some(v) => Some(v@),
        None => None,
    }
}

/// Whether the parts are the assembly `st`, every file sized by its
/// content.
pub open spec fn parts_match(p: UnpackedParts, st: UnpackState) -> bool {
    &&& st.meta matches Some((i, _)) && p.metadata_index == i
    &&& bytes_view(p.bytecode) == st.bytecode
    &&& file_views(p.vfs_entries@) == st.vfs
    &&& forall|k: int| 0 <= k < p.vfs_entries@.len() ==> #[trigger] p.vfs_entries@[k].1.size
        == p.vfs_entries@[k].1.content@.len()
}

/// Reads sliver archives.
pub struct SliverUnpacker;

impl SliverUnpacker {
    /// The entries of a sliver archive held in memory (see `tar_scan`).
    pub fn read_entries(archive_data: &[u8]) -> (r: (Vec<(String, Vec<u8>)>, Option<String>))
        ensures
            (raw_views(r.0@), message_view(r.1)) == tar_scan(archive_data@),
    {
        read_tar_entries(archive_data)
    }

    /// Assemble read entries, and the read failure if any, into the parts of
    /// a sliver (see `unpack_outcome`).
    pub fn assemble(entries: &Vec<SliverEntry>, failure: Option<String>) -> (r: Result<UnpackedParts, SliverError>)
        ensures
            match unpack_outcome(entries@, message_view(failure)) {
                Ok(st) => r is Ok && parts_match(r->Ok_0, st),
                Err(x) => r is Err && reports(r->Err_0, x),
            },
    {
        let mut meta: Option<(usize, String)> = None;
        let mut bytecode: Option<Vec<u8>> = None;
        let mut vfs: Vec<(VfsPath, VfsFile)> = Vec::new();
        let prefix = chars_of(VFS_PREFIX);
        let mut i: usize = 0;
        proof {
            assert(entries@.take(0) =~= Seq::<SliverEntry>::empty());
            assert(file_views(vfs@) =~= Seq::<(Seq<char>, Seq<u8>)>::empty());
        }
        while i < entries.len()
            invariant
                i <= entries@.len(),
                prefix@ == VFS_PREFIX@,
                unpack_fold(entries@.take(i as int)) == Ok::<UnpackState, UnpackIssue>(
                    UnpackState {
                        meta: match meta {
                            Some((k, v)) => Some((k as int, v@)),
                            None => None,
                        },
                        bytecode: bytes_view(bytecode),
                        vfs: file_views(vfs@),
                    },
                ),
                forall|k: int| 0 <= k < vfs@.len() ==> #[trigger] vfs@[k].1.size == vfs@[k].1.content@.len(),
            decreases entries@.len() - i,
        {
            proof {
                assert(entries@.take(i + 1).drop_last() =~= entries@.take(i as int));
            }
            let e = &entries[i];
            let path = e.path.as_str();
            if str_eq(path, METADATA_FILENAME) {
                match &e.metadata {
                    Ok(v) => {
                        meta = Some((i, v.clone()));
                    },
                    Err(m) => {
                        proof {
                            lemma_fold_err_extends(entries@, i + 1);
                        }
                        return Err(SliverError::SerializationError(m.clone()));
                    },
                }
            } else if str_eq(path, BYTECODE_FILENAME) {
                bytecode = Some(copy_range(e.content.as_slice(), 0, e.content.len()));
                assert(e.content@.subrange(0, e.content@.len() as int) =~= e.content@);
            } else {
                let pv = chars_of(path);
                if occurs(&pv, &prefix, 0) {
                    let rel = string_of(&chars_from(&pv, prefix.len()));
                    match VfsPath::new(rel.as_str()) {
                        Ok(p) => {
                            let content = copy_range(e.content.as_slice(), 0, e.content.len());
                            assert(e.content@.subrange(0, e.content@.len() as int) =~= e.content@);
                            let ghost before = file_views(vfs@);
                            vfs.push((p, VfsFile::new(content)));
                            assert(file_views(vfs@) =~= before.push((p@, e.content@)));
                        },
                        Err(_) => {
                            proof {
                                lemma_fold_err_extends(entries@, i + 1);
                            }
                            return Err(SliverError::InvalidVfsPath { path: rel });
                        },
                    }
                }
            }
            i = i + 1;
        }
        proof {
            assert(entries@.take(entries@.len() as int) =~= entries@);
        }
        if let Some(f) = failure {
            return Err(SliverError::IoError(f));
        }
        match meta {
            None => Err(SliverError::MissingMetadata { filename: METADATA_FILENAME.to_owned() }),
            Some((k, v)) => {
                if !SliverFormat::is_supported_version(v.as_str()) {
                    return Err(SliverError::InvalidFormat { version: v });
                }
                Ok(UnpackedParts { metadata_index: k, bytecode, vfs_entries: vfs })
            },
        }
    }
}

/// The format version a run of entries reports: that of the last metadata
/// entry, or the message of the first metadata entry that does not parse,
/// or none without a metadata entry.
pub open spec fn metadata_version(es: Seq<SliverEntry>) -> Result<Option<Seq<char>>, Seq<char>>
    decreases es.len(),
{
    if es.len() == 0 {
        Ok(None)
    } else {
        match metadata_version(es.drop_last()) {
            Err(m) => Err(m),
            Ok(v) => {
                let e = es.last();
                if e.path@ == METADATA_FILENAME@ {
                    match e.metadata {
                        Ok(x) => Ok(Some(x@)),
                        Err(m) => Err(m@),
                    }
                } else {
                    Ok(v)
                }
            },
        }
    }
}

/// The quick check of an archive: the metadata parses (else a
/// serialization error), reading did not fail (else an I/O error), the
/// metadata is present (else a missing-metadata error) and its format
/// version is supported (else an invalid-format error).
pub open spec fn quick_check(es: Seq<SliverEntry>, failure: Option<Seq<char>>) -> Option<UnpackIssue> {
    match metadata_version(es) {
        Err(m) => Some(UnpackIssue::Serialization(m)),
        Ok(v) => match failure {
            Some(f) => Some(UnpackIssue::Io(f)),
            None => match v {
                None => Some(UnpackIssue::MissingMetadata),
                Some(x) => if x == "1.0"@ || x == "2.0"@ {
                    None
                } else {
                    Some(UnpackIssue::InvalidFormat(x))
                },
            },
        },
    }
}

proof fn lemma_version_err_extends(es: Seq<SliverEntry>, n: int)
    requires
        0 <= n <= es.len(),
        metadata_version(es.take(n)) is Err,
    ensures
        metadata_version(es) == metadata_version(es.take(n)),
    decreases es.len() - n,
{
    if n == es.len() {
        assert(es.take(n) =~= es);
    } else {
        assert(es.take(n + 1).drop_last() =~= es.take(n));
        lemma_version_err_extends(es, n + 1);
    }
}

impl SliverUnpacker {
    /// Whether unpacked parts carry something to run: a sliver with neither
    /// VFS files nor bytecode is reported as a corrupted archive.
    pub fn check_has_payload(parts: &UnpackedParts) -> (r: Result<(), SliverError>)
        ensures
            (parts.vfs_entries@.len() == 0 && parts.bytecode is None) ==> (r matches Err(
                SliverError::CorruptedArchive { reason },
            ) && reason@ == "Sliver has no VFS entries and no bytecode"@),
            !(parts.vfs_entries@.len() == 0 && parts.bytecode is None) ==> r is Ok,
    {
        if parts.vfs_entries.len() == 0 && parts.bytecode.is_none() {
            Err(SliverError::CorruptedArchive { reason: "Sliver has no VFS entries and no bytecode".to_owned() })
        } else {
            Ok(())
        }
    }
}

impl SliverUnpacker {
    /// Quickly validate read entries (see `quick_check`): only the metadata
    /// entries are looked at.
    pub fn validate_entries(entries: &Vec<SliverEntry>, failure: Option<String>) -> (r: Result<(), SliverError>)
        ensures
            match quick_check(entries@, message_view(failure)) {
                None => r is Ok,
                Some(x) => r is Err && reports(r->Err_0, x),
            },
    {
        let mut version: Option<String> = None;
        let mut i: usize = 0;
        proof {
            assert(entries@.take(0) =~= Seq::<SliverEntry>::empty());
        }
        while i < entries.len()
            invariant
                i <= entries@.len(),
                metadata_version(entries@.take(i as int)) == Ok::<Option<Seq<char>>, Seq<char>>(
                    match version {
                        Some(v) => Some(v@),
                        None => None,
                    },
                ),
            decreases entries@.len() - i,
        {
            proof {
                assert(entries@.take(i + 1).drop_last() =~= entries@.take(i as int));
            }
            let e = &entries[i];
            if str_eq(e.path.as_str(), METADATA_FILENAME) {
                match &e.metadata {
                    Ok(v) => {
                        version = Some(v.clone());
                    },
                    Err(m) => {
                        proof {
                            lemma_version_err_extends(entries@, i + 1);
                        }
                        return Err(SliverError::SerializationError(m.clone()));
                    },
                }
            }
            i = i + 1;
        }
        proof {
            assert(entries@.take(entries@.len() as int) =~= entries@);
        }
        if let Some(f) = failure {
            return Err(SliverError::IoError(f));
        }
        match version {
            None => Err(SliverError::MissingMetadata { filename: METADATA_FILENAME.to_owned() }),
            Some(v) => if SliverFormat::is_supported_version(v.as_str()) {
                Ok(())
            } else {
                Err(SliverError::InvalidFormat { version: v })
            },
        }
    }
}

proof fn lemma_fold_err_extends(es: Seq<SliverEntry>, n: int)
    requires
        0 <= n <= es.len(),
        unpack_fold(es.take(n)) is Err,
    ensures
        unpack_fold(es) == unpack_fold(es.take(n)),
    decreases es.len() - n,
{
    if n == es.len() {
        assert(es.take(n) =~= es);
    } else {
        assert(es.take(n + 1).drop_last() =~= es.take(n));
        lemma_fold_err_extends(es, n + 1);
    }
}

} // verus!
