//! Corruption kinds for sliver archives, and typo suggestions for sliver
//! names by edit distance.
use vstd::prelude::*;
use std::io::Read;
use crate::sliver::error::SliverError;
use crate::sliver::format::{BYTECODE_FILENAME, METADATA_FILENAME, VFS_PREFIX};
use crate::text::{chars_of, push_decimal, push_str, str_eq};
use crate::v8::module::{occurs, starts_with};
use crate::wasm::loader::{extension_of, path_extension};

verus! {

/// Types of corruption that can be detected in a sliver archive.
#[derive(Debug, Clone, PartialEq, Eq)]
pub enum CorruptionType {
    /// Invalid tar archive structure
    InvalidTar { reason: String },
    /// Missing metadata file
    MissingMetadata,
    /// Sliver has no payload (no bytecode, VFS entries, or legacy heap blob)
    MissingPayload,
    /// Invalid metadata JSON
    InvalidMetadata { error: String },
    /// Truncated file
    TruncatedFile { expected: u64, found: u64, entry: String },
    /// Empty required file
    EmptyFile { entry: String },
    /// Wrong file extension
    InvalidExtension { found: String },
}

/// The description of a corruption.
pub open spec fn corruption_text(c: CorruptionType) -> Seq<char> {
    match c {
        CorruptionType::InvalidTar { reason } => "Invalid tar archive: "@ + reason@,
        CorruptionType::MissingMetadata => "Missing meta.json (required)"@,
        CorruptionType::MissingPayload => "Sliver has no payload (no bytecode, VFS entries, or heap blob)"@,
        CorruptionType::InvalidMetadata { error } => "Corrupted meta.json: "@ + error@,
        CorruptionType::TruncatedFile { expected, found, entry } => "Truncated file "@
            + entry@ + ": expected "@ + crate::text::decimal(expected as nat)
            + " bytes, found "@ + crate::text::decimal(found as nat),
        CorruptionType::EmptyFile { entry } => "Empty required file: "@ + entry@,
        CorruptionType::InvalidExtension { found } => "Invalid file extension: "@ + found@
            + " (expected .sliver)"@,
    }
}

impl CorruptionType {
    /// The description of the corruption.
    pub fn to_string(&self) -> (r: String)
        ensures
            r@ == corruption_text(*self),
    {
        let mut s = String::new();
        match self {
            CorruptionType::InvalidTar { reason } => {
                push_str(&mut s, "Invalid tar archive: ");
                push_str(&mut s, reason.as_str());
            },
            CorruptionType::MissingMetadata => {
                push_str(&mut s, "Missing meta.json (required)");
            },
            CorruptionType::MissingPayload => {
                push_str(&mut s, "Sliver has no payload (no bytecode, VFS entries, or heap blob)");
            },
            CorruptionType::InvalidMetadata { error } => {
                push_str(&mut s, "Corrupted meta.json: ");
                push_str(&mut s, error.as_str());
            },
            CorruptionType::TruncatedFile { expected, found, entry } => {
                push_str(&mut s, "Truncated file ");
                push_str(&mut s, entry.as_str());
                push_str(&mut s, ": expected ");
                push_decimal(&mut s, *expected);
                push_str(&mut s, " bytes, found ");
                push_decimal(&mut s, *found);
            },
            CorruptionType::EmptyFile { entry } => {
                push_str(&mut s, "Empty required file: ");
                push_str(&mut s, entry.as_str());
            },
            CorruptionType::InvalidExtension { found } => {
                push_str(&mut s, "Invalid file extension: ");
                push_str(&mut s, found.as_str());
                push_str(&mut s, " (expected .sliver)");
            },
        }
        s
    }
}

/// The smallest of three numbers.
pub open spec fn min3(x: nat, y: nat, z: nat) -> nat {
    if x <= y && x <= z {
        x
    } else if y <= z {
        y
    } else {
        z
    }
}

/// The Levenshtein distance between two character strings: the fewest
/// single-character insertions, deletions and substitutions that turn one
/// into the other.
pub open spec fn edit_distance(a: Seq<char>, b: Seq<char>) -> nat
    decreases a.len() + b.len(),
{
    if a.len() == 0 {
        b.len()
    } else if b.len() == 0 {
        a.len()
    } else {
        min3(
            edit_distance(a.drop_last(), b) + 1,
            edit_distance(a, b.drop_last()) + 1,
            edit_distance(a.drop_last(), b.drop_last()) + if a.last() == b.last() {
                0nat
            } else {
                1nat
            },
        )
    }
}

/// The distance is at most the longer length.
pub proof fn lemma_edit_distance_bound(a: Seq<char>, b: Seq<char>)
    ensures
        edit_distance(a, b) <= if a.len() >= b.len() {
            a.len()
        } else {
            b.len()
        },
    decreases a.len() + b.len(),
{
    if a.len() > 0 && b.len() > 0 {
        lemma_edit_distance_bound(a.drop_last(), b.drop_last());
    }
}

/// `x + 1`, or `x` at the top of the range.
fn inc_sat(x: usize) -> (r: usize)
    ensures
        r == if x < usize::MAX {
            x + 1
        } else {
            x as int
        },
{
    if x < usize::MAX {
        x + 1
    } else {
        x
    }
}

/// The Levenshtein distance between `a` and `b`, counted in characters.
pub fn levenshtein_distance(a: &str, b: &str) -> (r: usize)
    ensures
        r == edit_distance(a@, b@),
{
    let x = chars_of(a);
    let y = chars_of(b);
    let n = y.len();
    let mut prev: Vec<usize> = Vec::new();
    prev.push(0);
    let mut j: usize = 0;
    while j < n
        invariant
            j <= n,
            n == y@.len(),
            prev@.len() == j + 1,
            forall|k: int| 0 <= k <= j ==> prev@[k] == k,
        decreases n - j,
    {
        j = j + 1;
        prev.push(j);
    }
    proof {
        assert forall|k: int| 0 <= k <= n implies prev@[k] == edit_distance(
            x@.take(0),
            y@.take(k),
        ) by {
            assert(x@.take(0).len() == 0);
            assert(y@.take(k).len() == k);
        }
    }
    let mut i: usize = 0;
    while i < x.len()
        invariant
            i <= x@.len(),
            n == y@.len(),
            prev@.len() == n + 1,
            forall|k: int| 0 <= k <= n ==> prev@[k] == edit_distance(x@.take(i as int), y@.take(k)),
        decreases x@.len() - i,
    {
        let ghost ai = x@.take(i + 1);
        proof {
            assert(ai.drop_last() =~= x@.take(i as int));
            assert(ai.last() == x@[i as int]);
        }
        let mut cur: Vec<usize> = Vec::new();
        cur.push(i + 1);
        assert(x@.len() == x.len());
        proof {
            assert(y@.take(0).len() == 0);
        }
        let mut k: usize = 0;
        while k < n
            invariant
                i < x@.len(),
                x@.len() <= usize::MAX,
                n == y@.len(),
                prev@.len() == n + 1,
                forall|q: int| 0 <= q <= n ==> prev@[q] == edit_distance(x@.take(i as int), y@.take(q)),
                ai == x@.take(i + 1),
                ai.drop_last() == x@.take(i as int),
                ai.last() == x@[i as int],
                k <= n,
                cur@.len() == k + 1,
                forall|q: int| 0 <= q <= k ==> cur@[q] == edit_distance(ai, y@.take(q)),
            decreases n - k,
        {
            let ghost bj = y@.take(k + 1);
            proof {
                assert(bj.drop_last() =~= y@.take(k as int));
                assert(bj.last() == y@[k as int]);
                lemma_edit_distance_bound(ai, bj);
                lemma_edit_distance_bound(x@.take(i as int), y@.take(k as int));
                assert(x@.take(i as int).len() == i);
                assert(y@.take(k as int).len() == k);
                assert(prev@[k as int] == edit_distance(x@.take(i as int), y@.take(k as int)));
                assert(prev@[k as int] < usize::MAX);
                assert(edit_distance(ai, bj) == min3(
                    edit_distance(x@.take(i as int), bj) + 1,
                    edit_distance(ai, y@.take(k as int)) + 1,
                    edit_distance(x@.take(i as int), y@.take(k as int)) + if x@[i as int] == y@[k as int] {
                        0nat
                    } else {
                        1nat
                    },
                ));
            }
            let cost: usize = if x[i] == y[k] {
                0
            } else {
                1
            };
            let del = inc_sat(prev[k + 1]);
            let ins = inc_sat(cur[k]);
            let sub = prev[k] + cost;
            let mut m = del;
            if ins < m {
                m = ins;
            }
            if sub < m {
                m = sub;
            }
            cur.push(m);
            k = k + 1;
        }
        prev = cur;
        i = i + 1;
    }
    proof {
        assert(x@.take(x@.len() as int) =~= x@);
        assert(y@.take(n as int) =~= y@);
    }
    prev[n]
}

/// Whether a candidate is close enough to suggest: within `threshold`
/// edits, and fewer edits than the target has bytes.
pub open spec fn is_close(target: &str, c: Seq<char>, threshold: usize) -> bool {
    edit_distance(target@, c) <= threshold && edit_distance(target@, c) < target.len()
}

/// The closest candidate to `target` among those that are close enough
/// (see `is_close`); the first of them on a tie; none when no candidate is
/// close enough.
pub fn find_similar_internal(target: &str, candidates: &[String], threshold: usize) -> (r: Option<
    String,
>)
    ensures
        r is None <==> forall|i: int|
            0 <= i < candidates@.len() ==> !is_close(target, #[trigger] candidates@[i]@, threshold),
        r is Some ==> exists|k: int|
            0 <= k < candidates@.len() && r->0@ == #[trigger] candidates@[k]@ && is_close(
                target,
                candidates@[k]@,
                threshold,
            ) && (forall|j: int|
                0 <= j < candidates@.len() && is_close(target, #[trigger] candidates@[j]@, threshold)
                    ==> edit_distance(target@, candidates@[k]@) <= edit_distance(
                    target@,
                    candidates@[j]@,
                )) && (forall|j: int|
                0 <= j < k && is_close(target, #[trigger] candidates@[j]@, threshold)
                    ==> edit_distance(target@, candidates@[k]@) < edit_distance(
                    target@,
                    candidates@[j]@,
                )),
{
    let mut best: Option<(usize, usize)> = None;
    let tlen = target.len();
    let mut i: usize = 0;
    while i < candidates.len()
        invariant
            i <= candidates@.len(),
            tlen == target.len(),
            best is None ==> forall|j: int|
                0 <= j < i ==> !is_close(target, #[trigger] candidates@[j]@, threshold),
            best matches Some((k, d)) ==> {
                &&& k < i
                &&& d == edit_distance(target@, candidates@[k as int]@)
                &&& is_close(target, candidates@[k as int]@, threshold)
                &&& forall|j: int|
                    0 <= j < i && is_close(target, #[trigger] candidates@[j]@, threshold) ==> d
                        <= edit_distance(target@, candidates@[j]@)
                &&& forall|j: int|
                    0 <= j < k && is_close(target, #[trigger] candidates@[j]@, threshold) ==> d
                        < edit_distance(target@, candidates@[j]@)
            },
        decreases candidates@.len() - i,
    {
        let distance = levenshtein_distance(target, candidates[i].as_str());
        if distance <= threshold && distance < tlen {
            let better = match best {
                None => true,
                Some((_, d)) => distance < d,
            };
            if better {
                best = Some((i, distance));
            }
        }
        i = i + 1;
    }
    match best {
        None => None,
        Some((k, _)) => Some(candidates[k].clone()),
    }
}

/// What the `tar` crate lists of an archive held in memory: for each entry
/// in order, its path (decoded lossily) or the message of the error met
/// reading the path, and its content; up to the first failure reading an
/// entry, and that failure's message.
pub uninterp spec fn tar_listing(bytes: Seq<u8>) -> (Seq<(Result<Seq<char>, Seq<char>>, Seq<u8>)>, Option<Seq<char>>);

/// The characters of a path outcome.
pub open spec fn path_result_view(p: Result<String, String>) -> Result<Seq<char>, Seq<char>> {
    match p {
        Ok(t) => Ok(t@),
        Err(m) => Err(m@),
    }
}

/// The path outcome and content of each listed entry.
pub open spec fn listing_views(es: Seq<(Result<String, String>, Vec<u8>)>) -> Seq<(Result<Seq<char>, Seq<char>>, Seq<u8>)> {
    es.map_values(|e: (Result<String, String>, Vec<u8>)| (path_result_view(e.0), e.1@))
}

/// The characters of an optional message.
pub open spec fn failure_view(m: Option<String>) -> Option<Seq<char>> {
    match m {
        Some(s) => Some(s@),
        None => None,
    }
}

/// `tar::Archive::entries` over the bytes: each entry's `path`
/// (`to_string_lossy`, or the `io::Error` message) and content
/// (`read_to_end`), stopping at the first `io::Error` reading an entry (its
/// message); the iterator yields nothing after an error.
#[verifier::external_body]
fn read_tar_listing(bytes: &[u8]) -> (r: (Vec<(Result<String, String>, Vec<u8>)>, Option<String>))
    ensures
        (listing_views(r.0@), failure_view(r.1)) == tar_listing(bytes@),
{
    let mut out = Vec::new();
    let mut take = |en: std::io::Result<tar::Entry<&[u8]>>| -> std::io::Result<()> {
        let mut en = en?;
        let path = en.path().map(|p| p.to_string_lossy().into_owned()).map_err(|e| e.to_string());
        let mut content = Vec::new();
        en.read_to_end(&mut content)?;
        out.push((path, content));
        Ok(())
    };
    let failure: std::io::Result<()> = tar::Archive::new(bytes).entries().and_then(|es| es.map(&mut take).collect());
    (out, failure.err().map(|e| e.to_string()))
}

/// The entries of a sliver archive held in memory for an integrity check
/// (see `tar_listing`): an entry whose path cannot be read is listed with
/// that error, and the entries after it are listed too.
pub fn list_archive(bytes: &[u8]) -> (r: (Vec<(Result<String, String>, Vec<u8>)>, Option<String>))
    ensures
        (listing_views(r.0@), failure_view(r.1)) == tar_listing(bytes@),
{
    read_tar_listing(bytes)
}

/// One entry of a sliver archive, as the archive reader gives it.
#[derive(Debug, Clone, PartialEq, Eq)]
pub enum ArchiveEntry {
    /// The reader failed on the entry: its error message.
    Unreadable { error: String },
    /// The entry's path could not be read: the error message.
    BadPath { error: String },
    /// A readable entry: its path and size, and, for the metadata entry,
    /// the message of the error met reading or parsing its JSON content.
    File { path: String, size: u64, content_error: Option<String> },
}

/// Whether an entry is the metadata file.
pub open spec fn is_metadata_entry(e: ArchiveEntry) -> bool {
    e matches ArchiveEntry::File { path, .. } && path@ == METADATA_FILENAME@
}

/// Whether an entry is payload: a heap blob, bytecode, or a VFS file.
pub open spec fn is_payload_entry(e: ArchiveEntry) -> bool {
    e matches ArchiveEntry::File { path, .. } && (path@ == "heap.bin"@ || path@ == BYTECODE_FILENAME@
        || starts_with(path@, VFS_PREFIX@))
}

/// The corruption found in one entry, as its description: an unreadable
/// entry or path; an empty metadata file, or metadata that could not be
/// read or parsed; an empty heap blob or bytecode file.
pub open spec fn entry_problem(e: ArchiveEntry) -> Option<Seq<char>> {
    match e {
        ArchiveEntry::Unreadable { error } => Some("Invalid tar archive: "@ + error@),
        ArchiveEntry::BadPath { error } => Some("Invalid tar archive: "@ + ("Invalid entry path: "@
            + error@)),
        ArchiveEntry::File { path, size, content_error } => if path@ == METADATA_FILENAME@ {
            if size == 0 {
                Some("Empty required file: "@ + METADATA_FILENAME@)
            } else {
                match content_error {
                    Some(m) => Some("Corrupted meta.json: "@ + m@),
                    None => None,
                }
            }
        } else if path@ == "heap.bin"@ || path@ == BYTECODE_FILENAME@ {
            if size == 0 {
                Some("Empty required file: "@ + path@)
            } else {
                None
            }
        } else {
            None
        },
    }
}

/// The corruptions found in the entries, in order.
pub open spec fn entry_problems(es: Seq<ArchiveEntry>) -> Seq<Seq<char>>
    decreases es.len(),
{
    if es.len() == 0 {
        Seq::empty()
    } else {
        entry_problems(es.drop_last()) + match entry_problem(es.last()) {
            Some(t) => seq![t],
            None => Seq::empty(),
        }
    }
}

/// Every corruption of an archive with these entries, in the order found:
/// those of the entries, then a missing metadata file, then missing payload.
pub open spec fn integrity_problems(es: Seq<ArchiveEntry>) -> Seq<Seq<char>> {
    entry_problems(es) + (if exists|i: int| 0 <= i < es.len() && #[trigger] is_metadata_entry(es[i]) {
        Seq::empty()
    } else {
        seq![corruption_text(CorruptionType::MissingMetadata)]
    }) + (if exists|i: int| 0 <= i < es.len() && #[trigger] is_payload_entry(es[i]) {
        Seq::empty()
    } else {
        seq![corruption_text(CorruptionType::MissingPayload)]
    })
}

/// The corruption of one entry, if any.
fn problem_of(e: &ArchiveEntry) -> (r: Option<CorruptionType>)
    ensures
        match entry_problem(*e) {
            Some(t) => r is Some && corruption_text(r->0) == t,
            None => r is None,
        },
{
    match e {
        ArchiveEntry::Unreadable { error } => Some(CorruptionType::InvalidTar { reason: error.clone() }),
        ArchiveEntry::BadPath { error } => {
            let mut reason = String::new();
            push_str(&mut reason, "Invalid entry path: ");
            push_str(&mut reason, error.as_str());
            Some(CorruptionType::InvalidTar { reason })
        },
        ArchiveEntry::File { path, size, content_error } => {
            if str_eq(path.as_str(), METADATA_FILENAME) {
                if *size == 0 {
                    Some(CorruptionType::EmptyFile { entry: METADATA_FILENAME.to_owned() })
                } else {
                    match content_error {
                        Some(m) => Some(CorruptionType::InvalidMetadata { error: m.clone() }),
                        None => None,
                    }
                }
            } else if str_eq(path.as_str(), "heap.bin") || str_eq(path.as_str(), BYTECODE_FILENAME) {
                if *size == 0 {
                    Some(CorruptionType::EmptyFile { entry: path.clone() })
                } else {
                    None
                }
            } else {
                None
            }
        },
    }
}

/// Whether `e` is the metadata file; whether it is payload.
fn entry_kind(e: &ArchiveEntry) -> (r: (bool, bool))
    ensures
        r.0 == is_metadata_entry(*e),
        r.1 == is_payload_entry(*e),
{
    match e {
        ArchiveEntry::File { path, .. } => {
            let p = chars_of(path.as_str());
            let prefix = chars_of(VFS_PREFIX);
            (
                str_eq(path.as_str(), METADATA_FILENAME),
                str_eq(path.as_str(), "heap.bin") || str_eq(path.as_str(), BYTECODE_FILENAME)
                    || occurs(&p, &prefix, 0),
            )
        },
        _ => (false, false),
    }
}

/// Every corruption of an archive with these entries (see
/// `integrity_problems`), in the order found.
pub fn archive_problems(entries: &[ArchiveEntry]) -> (r: Vec<CorruptionType>)
    ensures
        r@.map_values(|c: CorruptionType| corruption_text(c)) == integrity_problems(entries@),
{
    let mut errors: Vec<CorruptionType> = Vec::new();
    let mut found_metadata = false;
    let mut found_payload = false;
    let mut i: usize = 0;
    while i < entries.len()
        invariant
            i <= entries@.len(),
            errors@.map_values(|c: CorruptionType| corruption_text(c)) == entry_problems(
                entries@.take(i as int),
            ),
            found_metadata == exists|j: int| 0 <= j < i && #[trigger] is_metadata_entry(entries@[j]),
            found_payload == exists|j: int| 0 <= j < i && #[trigger] is_payload_entry(entries@[j]),
        decreases entries@.len() - i,
    {
        proof {
            assert(entries@.take(i + 1).drop_last() =~= entries@.take(i as int));
        }
        let ghost before = errors@.map_values(|c: CorruptionType| corruption_text(c));
        match problem_of(&entries[i]) {
            Some(c) => {
                errors.push(c);
                assert(errors@.map_values(|c: CorruptionType| corruption_text(c)) =~= before
                    + seq![entry_problem(entries@[i as int])->0]);
            },
            None => {
                assert(before + Seq::<Seq<char>>::empty() =~= before);
            },
        }
        let (is_meta, is_payload) = entry_kind(&entries[i]);
        found_metadata = found_metadata || is_meta;
        found_payload = found_payload || is_payload;
        i = i + 1;
    }
    proof {
        assert(entries@.take(entries@.len() as int) =~= entries@);
    }
    let ghost found = errors@.map_values(|c: CorruptionType| corruption_text(c));
    if !found_metadata {
        errors.push(CorruptionType::MissingMetadata);
    }
    let ghost with_meta = errors@.map_values(|c: CorruptionType| corruption_text(c));
    assert(with_meta =~= found + (if found_metadata {
        Seq::<Seq<char>>::empty()
    } else {
        seq![corruption_text(CorruptionType::MissingMetadata)]
    }));
    if !found_payload {
        errors.push(CorruptionType::MissingPayload);
    }
    assert(errors@.map_values(|c: CorruptionType| corruption_text(c)) =~= with_meta + (if found_payload {
        Seq::<Seq<char>>::empty()
    } else {
        seq![corruption_text(CorruptionType::MissingPayload)]
    }));
    errors
}

/// The verdict on an archive with these entries: `Ok` when there is no
/// corruption, else a corrupted-archive error naming the first one.
pub fn check_archive_entries(entries: &[ArchiveEntry]) -> (r: Result<(), SliverError>)
    ensures
        integrity_problems(entries@).len() == 0 ==> r is Ok,
        integrity_problems(entries@).len() > 0 ==> (r matches Err(SliverError::CorruptedArchive { reason })
            && reason@ == integrity_problems(entries@)[0]),
{
    let problems = archive_problems(entries);
    if problems.len() == 0 {
        Ok(())
    } else {
        let reason = problems[0].to_string();
        assert(problems@.map_values(|c: CorruptionType| corruption_text(c))[0] == corruption_text(
            problems@[0],
        ));
        Err(SliverError::CorruptedArchive { reason })
    }
}

/// The extension text that a sliver path is reported with.
pub open spec fn extension_text(path: Seq<char>) -> Seq<char> {
    match path_extension(path) {
        Some(e) => e,
        None => "none"@,
    }
}

/// A sliver file must have the `.sliver` extension (case-sensitive): else
/// a corrupted-archive error naming the extension found (or `none`).
pub fn check_sliver_extension(path: &str) -> (r: Result<(), SliverError>)
    ensures
        path_extension(path@) == Some("sliver"@) ==> r is Ok,
        path_extension(path@) != Some("sliver"@) ==> (r matches Err(SliverError::CorruptedArchive { reason })
            && reason@ == "Invalid extension: "@ + extension_text(path@) + " (expected .sliver)"@),
{
    let ext = extension_of(path);
    let ok = match &ext {
        Some(e) => str_eq(e.as_str(), "sliver"),
        None => false,
    };
    if ok {
        return Ok(());
    }
    let mut reason = String::new();
    push_str(&mut reason, "Invalid extension: ");
    match &ext {
        Some(e) => push_str(&mut reason, e.as_str()),
        None => push_str(&mut reason, "none"),
    }
    push_str(&mut reason, " (expected .sliver)");
    Err(SliverError::CorruptedArchive { reason })
}

/// Where a sliver given by name or path is looked for, in order: the path
/// itself, then `./<name>.sliver`, `./slivers/<name>.sliver` and
/// `<home>/.nano/slivers/<name>.sliver`.
pub fn sliver_search_paths(name_or_path: &str, home_dir: &str) -> (r: Vec<String>)
    ensures
        r@.len() == 4,
        r@[0]@ == name_or_path@,
        r@[1]@ == "./"@ + name_or_path@ + ".sliver"@,
        r@[2]@ == "./slivers/"@ + name_or_path@ + ".sliver"@,
        r@[3]@ == home_dir@ + "/.nano/slivers/"@ + name_or_path@ + ".sliver"@,
{
    let mut r: Vec<String> = Vec::new();
    r.push(name_or_path.to_owned());
    let mut a = String::new();
    push_str(&mut a, "./");
    push_str(&mut a, name_or_path);
    push_str(&mut a, ".sliver");
    r.push(a);
    let mut b = String::new();
    push_str(&mut b, "./slivers/");
    push_str(&mut b, name_or_path);
    push_str(&mut b, ".sliver");
    r.push(b);
    let mut c = String::new();
    push_str(&mut c, home_dir);
    push_str(&mut c, "/.nano/slivers/");
    push_str(&mut c, name_or_path);
    push_str(&mut c, ".sliver");
    r.push(c);
    proof {
        assert(r@[1]@ =~= "./"@ + name_or_path@ + ".sliver"@);
        assert(r@[2]@ =~= "./slivers/"@ + name_or_path@ + ".sliver"@);
        assert(r@[3]@ =~= home_dir@ + "/.nano/slivers/"@ + name_or_path@ + ".sliver"@);
    }
    r
}

/// Whether every character is an ASCII digit.
pub open spec fn all_digits(s: Seq<char>) -> bool {
    forall|i: int| 0 <= i < s.len() ==> '0' <= #[trigger] s[i] <= '9'
}

/// The value of a string of ASCII digits.
pub open spec fn digits_value(s: Seq<char>) -> nat
    decreases s.len(),
{
    if s.len() == 0 {
        0
    } else {
        digits_value(s.drop_last()) * 10 + (s.last() as nat - 48) as nat
    }
}

/// What `str::parse::<u32>` gives: an optional `+` followed by one or more
/// ASCII digits whose value fits, else nothing.
pub open spec fn parse_u32(s: Seq<char>) -> Option<u32> {
    let d = if s.len() > 0 && s[0] == '+' {
        s.drop_first()
    } else {
        s
    };
    if d.len() > 0 && all_digits(d) && digits_value(d) <= u32::MAX {
        Some(digits_value(d) as u32)
    } else {
        None
    }
}

proof fn lemma_digits_value_grows(s: Seq<char>, n: int)
    requires
        0 <= n <= s.len(),
        all_digits(s),
    ensures
        digits_value(s.take(n)) <= digits_value(s),
    decreases s.len() - n,
{
    if n < s.len() {
        let t = s.take(n + 1);
        assert(t.drop_last() =~= s.take(n));
        assert(all_digits(s.take(n + 1))) by {
            assert forall|i: int| 0 <= i < t.len() implies '0' <= #[trigger] t[i] <= '9' by {
                assert(t[i] == s[i]);
            }
        }
        lemma_digits_value_grows(s, n + 1);
    } else {
        assert(s.take(n) =~= s);
    }
}

/// `str::parse::<u32>` (see `parse_u32`).
pub fn parse_u32_text(text: &str) -> (r: Option<u32>)
    ensures
        r == parse_u32(text@),
{
    let v = chars_of(text);
    let start: usize = if v.len() > 0 && v[0] == '+' {
        1
    } else {
        0
    };
    let ghost d = if text@.len() > 0 && text@[0] == '+' {
        text@.drop_first()
    } else {
        text@
    };
    assert(d =~= v@.skip(start as int));
    if start >= v.len() {
        return None;
    }
    let mut acc: u64 = 0;
    let mut i: usize = start;
    while i < v.len()
        invariant
            start <= i <= v@.len(),
            v@ == text@,
            d == v@.skip(start as int),
            d == (if text@.len() > 0 && text@[0] == '+' {
                text@.drop_first()
            } else {
                text@
            }),
            d.len() > 0,
            acc == digits_value(d.take(i - start)),
            acc <= u32::MAX,
            all_digits(d.take(i - start)),
        decreases v@.len() - i,
    {
        let c = v[i];
        assert(d.take(i + 1 - start).drop_last() =~= d.take(i - start));
        assert(d[i - start] == c);
        if !('0' <= c && c <= '9') {
            assert(!all_digits(d)) by {
                assert(d[i - start] == c);
            }
            return None;
        }
        let digit = (c as u64) - 48;
        let next = acc * 10 + digit;
        assert(all_digits(d.take(i + 1 - start))) by {
            let t = d.take(i + 1 - start);
            assert forall|k: int| 0 <= k < t.len() implies '0' <= #[trigger] t[k] <= '9' by {
                if k < i - start {
                    assert(t[k] == d.take(i - start)[k]);
                }
            }
        }
        if next > 0xffff_ffff {
            proof {
                if all_digits(d) {
                    lemma_digits_value_grows(d, i + 1 - start);
                }
            }
            return None;
        }
        acc = next;
        i = i + 1;
    }
    assert(d.take(v@.len() - start) =~= d);
    Some(acc as u32)
}

/// A version's major number: its part before the first `.` parsed as a
/// `u32`, or 0 where that does not parse.
pub open spec fn major_number(v: Seq<char>) -> u32 {
    match parse_u32(crate::sliver::auto_cache::major_part(v)) {
        Some(n) => n,
        None => 0,
    }
}

/// Whether a sliver made by runtime version `sliver_version` is worth a
/// warning under runtime `runtime_version`: both major numbers are known
/// (not 0) and differ.
pub fn nano_version_mismatch(sliver_version: &str, runtime_version: &str) -> (r: bool)
    ensures
        r == (major_number(runtime_version@) != major_number(sliver_version@) && major_number(
            runtime_version@,
        ) > 0 && major_number(sliver_version@) > 0),
{
    let s = major_number_of(sliver_version);
    let rt = major_number_of(runtime_version);
    rt != s && rt > 0 && s > 0
}

fn major_number_of(v: &str) -> (r: u32)
    ensures
        r == major_number(v@),
{
    let major = crate::sliver::auto_cache::major_text(v);
    match parse_u32_text(major.as_str()) {
        Some(n) => n,
        None => 0,
    }
}

} // verus!
