//! In-memory VFS storage with resource limits.
//!
//! Files live in a `dashmap::DashMap` keyed by normalized path; the file
//! and byte counters follow every write and delete, and every write is
//! checked against the backend's limits first.
use vstd::prelude::*;
use dashmap::DashMap;
use vstd::utf8::encode_utf8;
use crate::text::{chars_eq, chars_of, push_all, push_str, str_eq};
use crate::v8::module::{find, find_in, occurs, part_views, starts_with};
use crate::vfs::quota::{check_quota, quota_problem};
use crate::vfs::types::{path_outcome, ResourceLimits, VfsError, VfsFile, VfsPath, system_now};

verus! {

#[verifier::external_type_specification]
#[verifier::external_body]
#[verifier::reject_recursive_types(K)]
#[verifier::reject_recursive_types(V)]
#[verifier::reject_recursive_types(S)]
pub struct ExDashMap<K, V, S>(dashmap::DashMap<K, V, S>);

/// What a `DashMap` of files holds: for each path, the file's content and
/// recorded size.
pub uninterp spec fn stored_files(m: DashMap<String, VfsFile>) -> Map<Seq<char>, (Seq<u8>, usize)>;

/// The content and recorded size of a file.
pub open spec fn file_record(f: VfsFile) -> (Seq<u8>, usize) {
    (f.content@, f.size)
}

/// `DashMap::new`: an empty map.
#[verifier::external_body]
fn files_new() -> (r: DashMap<String, VfsFile>)
    ensures
        stored_files(r).dom() == Set::<Seq<char>>::empty(),
{
    DashMap::new()
}

/// `DashMap::get`, cloning the entry: the file at `key`, if any. A derived
/// `Clone` of a file keeps its content and size.
#[verifier::external_body]
fn files_get(m: &DashMap<String, VfsFile>, key: &str) -> (r: Option<VfsFile>)
    ensures
        r is Some <==> stored_files(*m).contains_key(key@),
        r is Some ==> file_record(r->0) == stored_files(*m)[key@],
{
    m.get(key).map(|e| e.value().clone())
}

/// `DashMap::contains_key`.
#[verifier::external_body]
fn files_contains(m: &DashMap<String, VfsFile>, key: &str) -> (r: bool)
    ensures
        r == stored_files(*m).contains_key(key@),
{
    m.contains_key(key)
}

/// `DashMap::insert`: the file is stored at `key`, replacing any other.
#[verifier::external_body]
fn files_insert(m: &mut DashMap<String, VfsFile>, key: String, file: VfsFile)
    ensures
        stored_files(*final(m)) == stored_files(*old(m)).insert(key@, file_record(file)),
{
    m.insert(key, file);
}

/// `DashMap::remove`: the entry at `key` is taken out and its file returned.
#[verifier::external_body]
fn files_remove(m: &mut DashMap<String, VfsFile>, key: &str) -> (r: Option<VfsFile>)
    ensures
        r is Some <==> stored_files(*old(m)).contains_key(key@),
        r is Some ==> file_record(r->0) == stored_files(*old(m))[key@],
        stored_files(*final(m)) == stored_files(*old(m)).remove(key@),
{
    m.remove(key).map(|(_, f)| f)
}

/// `DashMap::clear`: no entry is left.
#[verifier::external_body]
fn files_clear(m: &mut DashMap<String, VfsFile>)
    ensures
        stored_files(*final(m)).dom() == Set::<Seq<char>>::empty(),
{
    m.clear();
}

/// `DashMap::len`: the number of entries.
#[verifier::external_body]
fn files_len(m: &DashMap<String, VfsFile>) -> (r: usize)
    ensures
        r == stored_files(*m).len(),
{
    m.len()
}

/// `DashMap::iter`, cloning each entry. The entries come in the map's
/// internal (hash) order: each key once, each with its file.
#[verifier::external_body]
fn files_entries(m: &DashMap<String, VfsFile>) -> (r: Vec<(String, VfsFile)>)
    ensures
        stored_files(*m).dom() == r@.map_values(|e: (String, VfsFile)| e.0@).to_set(),
        forall|i: int|
            0 <= i < r@.len() ==> stored_files(*m).contains_key(#[trigger] r@[i].0@)
                && file_record(r@[i].1) == stored_files(*m)[r@[i].0@],
        forall|i: int, j: int|
            0 <= i < r@.len() && 0 <= j < r@.len() && i != j ==> #[trigger] r@[i].0@
                != #[trigger] r@[j].0@,
{
    m.iter().map(|e| (e.key().clone(), e.value().clone())).collect()
}

/// The prefix that the paths under directory `d` start with: `d` itself
/// where it ends with `/`, else `d/`.
pub open spec fn dir_prefix(d: Seq<char>) -> Seq<char> {
    if d.len() > 0 && d.last() == '/' {
        d
    } else {
        d.push('/')
    }
}

/// The name that a stored path gives under a directory prefix: what follows
/// the prefix, up to the next `/` (or to the end, where something follows).
pub open spec fn child_name(k: Seq<char>, pfx: Seq<char>) -> Option<Seq<char>> {
    if starts_with(k, pfx) {
        let rest = k.skip(pfx.len() as int);
        match find(rest, seq!['/']) {
            Some(i) => Some(rest.take(i)),
            None => if rest.len() > 0 {
                Some(rest)
            } else {
                None
            },
        }
    } else {
        None
    }
}

/// The names of the entries directly under a directory prefix, among
/// stored paths.
pub open spec fn dir_children(keys: Set<Seq<char>>, pfx: Seq<char>) -> Set<Seq<char>> {
    Set::new(|c: Seq<char>| exists|k: Seq<char>| keys.contains(k) && child_name(k, pfx) == Some(c))
}

/// What `VfsPath::new` makes of a string with these characters.
pub open spec fn str_path_outcome(s: Seq<char>) -> Result<Seq<char>, Seq<char>> {
    path_outcome(s, (encode_utf8(s).len() as usize) as nat)
}

/// Whether `ns` holds each of `names` once.
pub open spec fn lists_names(ns: Seq<Seq<char>>, names: Set<Seq<char>>) -> bool {
    ns.no_duplicates() && ns.to_set() == names
}

/// Whether `r` is the listing of directory `d` among stored paths `keys`:
/// the paths prefix + name of its children, each once, in some order; or,
/// where one of those is not a valid path, an invalid-path error.
pub open spec fn is_dir_listing(keys: Set<Seq<char>>, d: Seq<char>, r: Result<Vec<VfsPath>, VfsError>) -> bool {
    let pfx = dir_prefix(d);
    let names = dir_children(keys, pfx);
    &&& (r is Ok <==> forall|c: Seq<char>| #[trigger] names.contains(c) ==> str_path_outcome(pfx + c) is Ok)
    &&& r is Err ==> (r matches Err(VfsError::InvalidPath { .. }))
    &&& r is Ok ==> exists|ns: Seq<Seq<char>>|
        #[trigger] lists_names(ns, names) && r->Ok_0@.len() == ns.len() && forall|i: int|
            0 <= i < ns.len() ==> str_path_outcome(pfx + ns[i]) == Ok::<Seq<char>, Seq<char>>(
                r->Ok_0@[i]@,
            )
}

proof fn lemma_children_insert(keys: Set<Seq<char>>, k: Seq<char>, pfx: Seq<char>)
    ensures
        dir_children(keys.insert(k), pfx) == match child_name(k, pfx) {
            Some(c) => dir_children(keys, pfx).insert(c),
            None => dir_children(keys, pfx),
        },
{
    let l = dir_children(keys.insert(k), pfx);
    let r = match child_name(k, pfx) {
        Some(c) => dir_children(keys, pfx).insert(c),
        None => dir_children(keys, pfx),
    };
    assert forall|c: Seq<char>| l.contains(c) implies r.contains(c) by {
        let w = choose|w: Seq<char>| keys.insert(k).contains(w) && child_name(w, pfx) == Some(c);
        if w != k {
            assert(keys.contains(w) && child_name(w, pfx) == Some(c));
        }
    }
    assert forall|c: Seq<char>| r.contains(c) implies l.contains(c) by {
        if child_name(k, pfx) == Some(c) {
            assert(keys.insert(k).contains(k) && child_name(k, pfx) == Some(c));
        } else {
            let w = choose|w: Seq<char>| keys.contains(w) && child_name(w, pfx) == Some(c);
            assert(keys.insert(k).contains(w) && child_name(w, pfx) == Some(c));
        }
    }
    assert(l =~= r);
}

/// The child name of a stored path under a prefix.
fn child_of(k: &Vec<char>, pfx: &Vec<char>) -> (r: Option<Vec<char>>)
    ensures
        r matches Some(c) ==> child_name(k@, pfx@) == Some(c@),
        r is None ==> child_name(k@, pfx@) is None,
{
    if !occurs(k, pfx, 0) {
        return None;
    }
    let mut rest: Vec<char> = Vec::new();
    let mut i: usize = pfx.len();
    while i < k.len()
        invariant
            pfx@.len() <= i <= k@.len(),
            rest@ == k@.subrange(pfx@.len() as int, i as int),
        decreases k@.len() - i,
    {
        rest.push(k[i]);
        assert(rest@ =~= k@.subrange(pfx@.len() as int, i + 1));
        i = i + 1;
    }
    assert(rest@ =~= k@.skip(pfx@.len() as int));
    let mut slash: Vec<char> = Vec::new();
    slash.push('/');
    assert(slash@ =~= seq!['/']);
    let found = find_in(&rest, &slash);
    proof {
        if found is Some {
            crate::v8::module::lemma_find_from_occurs(rest@, slash@, 0);
        }
    }
    match found {
        Some(j) => {
            let mut c: Vec<char> = Vec::new();
            let mut q: usize = 0;
            while q < j
                invariant
                    q <= j,
                    j <= rest@.len(),
                    c@ == rest@.take(q as int),
                decreases j - q,
            {
                c.push(rest[q]);
                assert(c@ =~= rest@.take(q + 1));
                q = q + 1;
            }
            Some(c)
        },
        None => if rest.len() > 0 {
            Some(rest)
        } else {
            None
        },
    }
}

/// Whether `c` is among `names`.
fn has_name(names: &Vec<Vec<char>>, c: &Vec<char>) -> (r: bool)
    ensures
        r == part_views(names@).contains(c@),
{
    let mut i: usize = 0;
    while i < names.len()
        invariant
            i <= names@.len(),
            forall|j: int| 0 <= j < i ==> names@[j]@ != c@,
        decreases names@.len() - i,
    {
        if chars_eq(&names[i], c) {
            assert(part_views(names@)[i as int] == c@);
            return true;
        }
        i = i + 1;
    }
    assert forall|j: int| 0 <= j < part_views(names@).len() implies part_views(names@)[j] != c@ by {
        assert(part_views(names@)[j] == names@[j]@);
    }
    false
}

/// The files and counters of a backend.
pub type BackendState = (Map<Seq<char>, (Seq<u8>, usize)>, usize, usize);

/// A write of `content` at `key` under `limits`: the files and counters
/// after it, or the quota it exceeds (resource, limit, current use).
pub open spec fn write_step(limits: ResourceLimits, st: BackendState, key: Seq<char>, content: Seq<u8>) -> Result<
    BackendState,
    (Seq<char>, u32, u32),
> {
    let (files, count, total) = st;
    let is_new = !files.contains_key(key);
    let old_size: usize = if is_new {
        0
    } else {
        files[key].1
    };
    match quota_problem(limits, count, total, is_new, old_size, content.len()) {
        None => Ok(
            (
                files.insert(key, (content, content.len() as usize)),
                (count + if is_new {
                    1int
                } else {
                    0int
                }) as usize,
                (total + content.len() - old_size) as usize,
            ),
        ),
        Some(q) => Err(q),
    }
}

/// In-memory storage backend with limits and usage counters.
#[derive(Debug)]
pub struct MemoryBackend {
    storage: DashMap<String, VfsFile>,
    limits: ResourceLimits,
    total_bytes: usize,
    file_count: usize,
}

impl View for MemoryBackend {
    type V = Map<Seq<char>, (Seq<u8>, usize)>;

    closed spec fn view(&self) -> Map<Seq<char>, (Seq<u8>, usize)> {
        stored_files(self.storage)
    }
}

/// The sum of the content lengths of a list of files.
pub open spec fn content_total(entries: Seq<(VfsPath, VfsFile)>) -> nat
    decreases entries.len(),
{
    if entries.len() == 0 {
        0
    } else {
        content_total(entries.drop_last()) + entries.last().1.content@.len()
    }
}

/// The files of a list, later entries replacing earlier ones at the same
/// path.
pub open spec fn entries_files(entries: Seq<(VfsPath, VfsFile)>) -> Map<Seq<char>, (Seq<u8>, usize)>
    decreases entries.len(),
{
    if entries.len() == 0 {
        Map::empty()
    } else {
        entries_files(entries.drop_last()).insert(entries.last().0@, file_record(entries.last().1))
    }
}

impl MemoryBackend {
    /// The limits.
    pub closed spec fn spec_limits(&self) -> ResourceLimits {
        self.limits
    }

    /// The file counter.
    pub closed spec fn spec_count(&self) -> usize {
        self.file_count
    }

    /// The byte counter.
    pub closed spec fn spec_total(&self) -> usize {
        self.total_bytes
    }

    /// An empty backend with the default limits.
    pub fn new() -> (r: Self)
        ensures
            r@ == Map::<Seq<char>, (Seq<u8>, usize)>::empty(),
            r.spec_limits() == (ResourceLimits {
                file_size_bytes_max: 10485760u32,
                total_storage_bytes_max: 104857600u32,
                files_count_max: 1000,
            }),
            r.spec_count() == 0,
            r.spec_total() == 0,
    {
        Self::with_limits(ResourceLimits::default())
    }

    /// An empty backend with the given limits.
    pub fn with_limits(limits: ResourceLimits) -> (r: Self)
        ensures
            r@ == Map::<Seq<char>, (Seq<u8>, usize)>::empty(),
            r.spec_limits() == limits,
            r.spec_count() == 0,
            r.spec_total() == 0,
    {
        let r = MemoryBackend { storage: files_new(), limits, total_bytes: 0, file_count: 0 };
        assert(r@ =~= Map::<Seq<char>, (Seq<u8>, usize)>::empty());
        r
    }

    /// Remove every file and reset the counters.
    pub fn clear(&mut self)
        ensures
            final(self)@ == Map::<Seq<char>, (Seq<u8>, usize)>::empty(),
            final(self).spec_limits() == old(self).spec_limits(),
            final(self).spec_count() == 0,
            final(self).spec_total() == 0,
    {
        files_clear(&mut self.storage);
        assert(self@ =~= Map::<Seq<char>, (Seq<u8>, usize)>::empty());
        self.total_bytes = 0;
        self.file_count = 0;
    }

    /// The number of files stored.
    pub fn len(&self) -> (r: usize)
        ensures
            r == self@.len(),
    {
        files_len(&self.storage)
    }

    /// Whether no file is stored.
    pub fn is_empty(&self) -> (r: bool)
        ensures
            r == (self@.len() == 0),
    {
        files_len(&self.storage) == 0
    }

    /// The usage counters: (file count, total bytes).
    pub fn current_usage(&self) -> (r: (usize, usize))
        ensures
            r == (self.spec_count(), self.spec_total()),
    {
        (self.file_count, self.total_bytes)
    }

    /// The limits.
    pub fn limits(&self) -> (r: &ResourceLimits)
        ensures
            *r == self.spec_limits(),
    {
        &self.limits
    }

    /// Check a write of `content_len` bytes against the limits (see
    /// `quota_problem`).
    fn check_write_bounds(&self, content_len: usize, is_new: bool, old_size: usize) -> (r: Result<
        (),
        VfsError,
    >)
        ensures
            match quota_problem(
                self.limits,
                self.file_count,
                self.total_bytes,
                is_new,
                old_size,
                content_len as nat,
            ) {
                None => r is Ok,
                Some((res, limit, current)) => r matches Err(
                    VfsError::QuotaExceeded { resource, limit: l, current: c },
                ) && resource@ == res && l == limit && c == current,
            },
    {
        check_quota(&self.limits, self.file_count, self.total_bytes, content_len, is_new, old_size)
    }

    /// The content of the file at `path`, or `NotFound`.
    pub fn read(&self, path: &VfsPath) -> (r: Result<Vec<u8>, VfsError>)
        ensures
            self@.contains_key(path@) ==> r is Ok && r->Ok_0@ == self@[path@].0,
            !self@.contains_key(path@) ==> (r matches Err(VfsError::NotFound { path: p }) && p@
                == path@),
    {
        match files_get(&self.storage, path.as_str()) {
            Some(file) => Ok(file.content),
            None => Err(VfsError::NotFound { path: path.to_string() }),
        }
    }

    /// Store `content` at `path`, unless that would exceed a limit (see
    /// `quota_problem`); a refused write changes nothing. The counters
    /// follow the change: one more file when the path was new, and the
    /// total moved by the size difference.
    pub fn write(&mut self, path: &VfsPath, content: &[u8]) -> (r: Result<(), VfsError>)
        ensures
            final(self).spec_limits() == old(self).spec_limits(),
            match write_step(
                old(self).spec_limits(),
                (old(self)@, old(self).spec_count(), old(self).spec_total()),
                path@,
                content@,
            ) {
                Ok(st) => r is Ok && (final(self)@, final(self).spec_count(), final(self).spec_total()) == st,
                Err((res, limit, current)) => (r matches Err(
                    VfsError::QuotaExceeded { resource, limit: l, current: c },
                ) && resource@ == res && l == limit && c == current) && final(self)@ == old(self)@
                    && final(self).spec_count() == old(self).spec_count() && final(self).spec_total()
                    == old(self).spec_total(),
            },
    {
        let content_len = content.len();
        let existing = files_get(&self.storage, path.as_str());
        let is_new = existing.is_none();
        let old_size: usize = match &existing {
            Some(f) => f.size,
            None => 0,
        };
        self.check_write_bounds(content_len, is_new, old_size)?;
        let now = system_now();
        let file = match existing {
            None => VfsFile {
                content: vstd::slice::slice_to_vec(content),
                created_at: now,
                modified_at: now,
                size: content_len,
            },
            Some(prev) => VfsFile {
                content: vstd::slice::slice_to_vec(content),
                created_at: prev.created_at,
                modified_at: now,
                size: content_len,
            },
        };
        files_insert(&mut self.storage, path.to_string(), file);
        if is_new {
            self.file_count = self.file_count + 1;
        }
        if content_len >= old_size {
            self.total_bytes = self.total_bytes + (content_len - old_size);
        } else {
            self.total_bytes = self.total_bytes - (old_size - content_len);
        }
        Ok(())
    }

    /// The entries directly under `path`: for each distinct name that
    /// follows the directory's prefix in a stored path (up to the next `/`),
    /// the path prefix + name, in the map's order (see `is_dir_listing`).
    pub fn list_dir(&self, path: &VfsPath) -> (r: Result<Vec<VfsPath>, VfsError>)
        ensures
            is_dir_listing(self@.dom(), path@, r),
    {
        let mut pfx = chars_of(path.as_str());
        if !(pfx.len() > 0 && pfx[pfx.len() - 1] == '/') {
            pfx.push('/');
        }
        assert(pfx@ == dir_prefix(path@));
        let entries = files_entries(&self.storage);
        let ghost keys = entries@.map_values(|e: (String, VfsFile)| e.0@);
        let mut names: Vec<Vec<char>> = Vec::new();
        let mut i: usize = 0;
        proof {
            assert(keys.take(0).to_set() =~= Set::<Seq<char>>::empty());
            assert(part_views(names@).to_set() =~= Set::<Seq<char>>::empty());
            assert(dir_children(Set::<Seq<char>>::empty(), pfx@) =~= Set::<Seq<char>>::empty());
        }
        while i < entries.len()
            invariant
                i <= entries@.len(),
                keys == entries@.map_values(|e: (String, VfsFile)| e.0@),
                part_views(names@).no_duplicates(),
                part_views(names@).to_set() == dir_children(keys.take(i as int).to_set(), pfx@),
            decreases entries@.len() - i,
        {
            let k = chars_of(entries[i].0.as_str());
            proof {
                assert(keys.take(i + 1).to_set() =~= keys.take(i as int).to_set().insert(k@)) by {
                    assert(keys.take(i + 1) =~= keys.take(i as int).push(k@));
                    keys.take(i as int).lemma_push_to_set_commute(k@);
                }
                lemma_children_insert(keys.take(i as int).to_set(), k@, pfx@);
            }
            match child_of(&k, &pfx) {
                Some(c) => {
                    if !has_name(&names, &c) {
                        let ghost before = part_views(names@);
                        names.push(c);
                        proof {
                            assert(part_views(names@) =~= before.push(c@));
                            before.lemma_push_to_set_commute(c@);
                            assert forall|a: int, b: int|
                                0 <= a < part_views(names@).len() && 0 <= b < part_views(names@).len()
                                    && a != b implies part_views(names@)[a] != part_views(names@)[b] by {
                                if a < before.len() && b < before.len() {
                                    assert(before[a] != before[b]);
                                } else if a == before.len() {
                                    assert(before.contains(before[b]));
                                } else {
                                    assert(before.contains(before[a]));
                                }
                            }
                        }
                    } else {
                        assert(part_views(names@).to_set().insert(c@) =~= part_views(names@).to_set());
                    }
                },
                None => {},
            }
            i = i + 1;
        }
        proof {
            assert(keys.take(entries@.len() as int) =~= keys);
            assert(keys.to_set() =~= self@.dom());
        }
        let ghost ns = part_views(names@);
        let mut out: Vec<VfsPath> = Vec::new();
        let mut j: usize = 0;
        while j < names.len()
            invariant
                j <= names@.len(),
                ns == part_views(names@),
                out@.len() == j,
                pfx@ == dir_prefix(path@),
                ns.to_set() == dir_children(self@.dom(), pfx@),
                forall|q: int|
                    0 <= q < j ==> str_path_outcome(pfx@ + #[trigger] ns[q]) == Ok::<
                        Seq<char>,
                        Seq<char>,
                    >(out@[q]@),
            decreases names@.len() - j,
        {
            let mut full = String::new();
            push_all(&mut full, &pfx);
            push_all(&mut full, &names[j]);
            assert(full@ =~= pfx@ + ns[j as int]);
            let p = match VfsPath::new(full.as_str()) {
                Ok(p) => p,
                Err(e) => {
                    proof {
                        assert(ns.to_set().contains(ns[j as int]));
                    }
                    return Err(e);
                },
            };
            out.push(p);
            j = j + 1;
        }
        proof {
            assert forall|c: Seq<char>|
                #[trigger] dir_children(self@.dom(), pfx@).contains(c) implies str_path_outcome(pfx@ + c) is Ok by {
                assert(ns.to_set().contains(c));
                let q = choose|q: int| 0 <= q < ns.len() && ns[q] == c;
                assert(str_path_outcome(pfx@ + ns[q]) is Ok);
            }
            assert(lists_names(ns, dir_children(self@.dom(), pfx@)));
        }
        Ok(out)
    }

    /// Whether a file is stored at `path`.
    pub fn file_exists(&self, path: &VfsPath) -> (r: bool)
        ensures
            r == self@.contains_key(path@),
    {
        files_contains(&self.storage, path.as_str())
    }

    /// Remove the file at `path`, or fail with `NotFound`. The file counter
    /// drops by one and the byte counter by the file's recorded size
    /// (both wrapping, as atomic counters do).
    pub fn delete(&mut self, path: &VfsPath) -> (r: Result<(), VfsError>)
        ensures
            final(self).spec_limits() == old(self).spec_limits(),
            final(self)@ == old(self)@.remove(path@),
            old(self)@.contains_key(path@) ==> {
                &&& r is Ok
                &&& final(self).spec_count() == old(self).spec_count().wrapping_sub(1)
                &&& final(self).spec_total() == old(self).spec_total().wrapping_sub(
                    old(self)@[path@].1,
                )
            },
            !old(self)@.contains_key(path@) ==> {
                &&& r matches Err(VfsError::NotFound { path: p }) && p@ == path@
                &&& final(self).spec_count() == old(self).spec_count()
                &&& final(self).spec_total() == old(self).spec_total()
            },
    {
        match files_remove(&mut self.storage, path.as_str()) {
            Some(file) => {
                self.file_count = self.file_count.wrapping_sub(1);
                self.total_bytes = self.total_bytes.wrapping_sub(file.size);
                Ok(())
            },
            None => {
                proof {
                    assert(old(self)@.remove(path@) =~= old(self)@);
                }
                Err(VfsError::NotFound { path: path.to_string() })
            },
        }
    }

    /// The file at `path` (content, size and times), or `NotFound`.
    pub fn metadata(&self, path: &VfsPath) -> (r: Result<VfsFile, VfsError>)
        ensures
            self@.contains_key(path@) ==> r is Ok && file_record(r->Ok_0) == self@[path@],
            !self@.contains_key(path@) ==> (r matches Err(VfsError::NotFound { path: p }) && p@
                == path@),
    {
        match files_get(&self.storage, path.as_str()) {
            Some(file) => Ok(file),
            None => Err(VfsError::NotFound { path: path.to_string() }),
        }
    }

    /// Every stored file whose key is a valid path, as (normalized path,
    /// file) pairs in the map's internal order: each comes from a stored
    /// key, and every stored key that `VfsPath::new` accepts gives one.
    pub fn snapshot_entries(&self) -> (r: Vec<(VfsPath, VfsFile)>)
        ensures
            every_entry_listed(self@, r@),
            forall|k: Seq<char>|
                #![trigger self@[k]]
                self@.contains_key(k) && key_outcome(k) is Ok ==> exists|i: int|
                    0 <= i < r@.len() && #[trigger] listed_from(self@, k, r@[i]),
    {
        let mut all = files_entries(&self.storage);
        let ghost whole = all@;
        let mut out: Vec<(VfsPath, VfsFile)> = Vec::new();
        while all.len() > 0
            invariant
                self@.dom() == whole.map_values(|e: (String, VfsFile)| e.0@).to_set(),
                all@ == whole.take(all@.len() as int),
                all@.len() <= whole.len(),
                forall|k: int|
                    0 <= k < whole.len() ==> self@.contains_key(#[trigger] whole[k].0@) && file_record(
                        whole[k].1,
                    ) == self@[whole[k].0@],
                every_entry_listed(self@, out@),
                forall|j: int|
                    all@.len() <= j < whole.len() && key_outcome(#[trigger] whole[j].0@) is Ok
                        ==> exists|i: int|
                        0 <= i < out@.len() && file_record(#[trigger] out@[i].1) == self@[whole[j].0@]
                            && key_outcome(whole[j].0@) == Ok::<Seq<char>, Seq<char>>(out@[i].0@),
            decreases all@.len(),
        {
            let ghost n = all@.len() - 1;
            let ghost before = out@;
            let (key, file) = all.pop().unwrap();
            proof {
                assert(whole[n] == (key, file));
                assert(all@ =~= whole.take(n));
                assert(self@.contains_key(key@));
            }
            let ks = key.as_str();
            match VfsPath::new(ks) {
                Ok(p) => {
                    out.push((p, file));
                    proof {
                        assert(key_outcome(key@) == Ok::<Seq<char>, Seq<char>>(p@));
                        assert forall|i: int| 0 <= i < before.len() implies out@[i] == before[i] by {}
                        let last = before.len() as int;
                        assert(out@[last].0@ == p@);
                        assert(file_record(out@[last].1) == self@[key@]);
                        assert(listed_from(self@, key@, out@[last]));
                        assert(out@ =~= before.push(out@[last]));
                        lemma_listed_push(self@, before, out@[last], key@);
                        assert forall|j: int|
                            all@.len() <= j < whole.len() && key_outcome(#[trigger] whole[j].0@) is Ok
                                implies exists|i: int|
                                0 <= i < out@.len() && file_record(#[trigger] out@[i].1)
                                    == self@[whole[j].0@] && key_outcome(whole[j].0@) == Ok::<
                                    Seq<char>,
                                    Seq<char>,
                                >(out@[i].0@) by {
                            if j == n {
                                assert(file_record(out@[last].1) == self@[whole[j].0@]);
                            } else {
                                let i = choose|i: int|
                                    0 <= i < before.len() && file_record(#[trigger] before[i].1)
                                        == self@[whole[j].0@] && key_outcome(whole[j].0@) == Ok::<
                                        Seq<char>,
                                        Seq<char>,
                                    >(before[i].0@);
                                assert(out@[i] == before[i]);
                            }
                        }
                    }
                },
                Err(_) => {
                    proof {
                        assert(key_outcome(key@) is Err);

                    }
                },
            }
        }
        proof {
            assert forall|k: Seq<char>|
                #![trigger self@[k]]
                self@.contains_key(k) && key_outcome(k) is Ok implies exists|i: int|
                    0 <= i < out@.len() && #[trigger] listed_from(self@, k, out@[i]) by {
                let keys = whole.map_values(|e: (String, VfsFile)| e.0@);
                assert(keys.to_set().contains(k));
                let j = choose|j: int| 0 <= j < keys.len() && keys[j] == k;
                assert(whole[j].0@ == k);
                let i = choose|i: int|
                    0 <= i < out@.len() && file_record(#[trigger] out@[i].1) == self@[whole[j].0@]
                        && key_outcome(whole[j].0@) == Ok::<Seq<char>, Seq<char>>(out@[i].0@);
                assert(listed_from(self@, k, out@[i]));
            }
        }
        let r = out;
        r
    }

    /// Replace every stored file by the given entries (a later entry wins
    /// at a repeated path); the counters become the number of entries and
    /// the sum of their content lengths.
    pub fn restore_from_snapshot(&mut self, entries: &[(VfsPath, VfsFile)])
        requires
            content_total(entries@) <= usize::MAX,
        ensures
            final(self)@ == entries_files(entries@),
            final(self).spec_count() == entries@.len(),
            final(self).spec_total() == content_total(entries@),
            final(self).spec_limits() == old(self).spec_limits(),
    {
        self.clear();
        let mut total_bytes: usize = 0;
        let mut i: usize = 0;
        while i < entries.len()
            invariant
                i <= entries@.len(),
                content_total(entries@) <= usize::MAX,
                total_bytes == content_total(entries@.take(i as int)),
                self@ == entries_files(entries@.take(i as int)),
                self.spec_limits() == old(self).spec_limits(),
                self.spec_count() == 0,
                self.spec_total() == 0,
            decreases entries@.len() - i,
        {
            proof {
                assert(entries@.take(i + 1).drop_last() =~= entries@.take(i as int));
                lemma_content_total_prefix(entries@, i + 1);
            }
            let (path, file) = &entries[i];
            total_bytes = total_bytes + file.content.len();
            files_insert(&mut self.storage, path.to_string(), file.duplicate());
            i = i + 1;
        }
        proof {
            assert(entries@.take(entries@.len() as int) =~= entries@);
        }
        self.file_count = entries.len();
        self.total_bytes = total_bytes;
    }
}

/// The content total of a prefix is at most that of the whole list.
proof fn lemma_content_total_prefix(entries: Seq<(VfsPath, VfsFile)>, n: int)
    requires
        0 <= n <= entries.len(),
    ensures
        content_total(entries.take(n)) <= content_total(entries),
    decreases entries.len(),
{
    if n < entries.len() {
        assert(entries.drop_last().take(n) =~= entries.take(n));
        lemma_content_total_prefix(entries.drop_last(), n);
    } else {
        assert(entries.take(n) =~= entries);
    }
}

impl Default for MemoryBackend {
    fn default() -> (r: Self)
        ensures
            r@ == Map::<Seq<char>, (Seq<u8>, usize)>::empty(),
            r.spec_count() == 0,
            r.spec_total() == 0,
    {
        Self::new()
    }
}

/// Whether `e` is the stored file at key `k` under the path that
/// `VfsPath::new` makes of `k`.
pub open spec fn listed_from(m: Map<Seq<char>, (Seq<u8>, usize)>, k: Seq<char>, e: (VfsPath, VfsFile)) -> bool {
    &&& m.contains_key(k)
    &&& key_outcome(k) == Ok::<Seq<char>, Seq<char>>(e.0@)
    &&& file_record(e.1) == m[k]
}

/// Whether every entry of `s` is the stored file at some key of `m`, under
/// the path that `VfsPath::new` makes of that key.
pub open spec fn every_entry_listed(m: Map<Seq<char>, (Seq<u8>, usize)>, s: Seq<(VfsPath, VfsFile)>) -> bool {
    forall|i: int| 0 <= i < s.len() ==> #[trigger] is_listed(m, s[i])
}

/// Whether `e` is the stored file at some key of `m` (see `listed_from`).
pub open spec fn is_listed(m: Map<Seq<char>, (Seq<u8>, usize)>, e: (VfsPath, VfsFile)) -> bool {
    exists|k: Seq<char>| #[trigger] listed_from(m, k, e)
}

proof fn lemma_listed_push(
    m: Map<Seq<char>, (Seq<u8>, usize)>,
    s: Seq<(VfsPath, VfsFile)>,
    e: (VfsPath, VfsFile),
    k: Seq<char>,
)
    requires
        every_entry_listed(m, s),
        listed_from(m, k, e),
    ensures
        every_entry_listed(m, s.push(e)),
{
    let t = s.push(e);
    assert forall|i: int| 0 <= i < t.len() implies #[trigger] is_listed(m, t[i]) by {
        if i < s.len() {
            assert(t[i] == s[i]);
            assert(is_listed(m, s[i]));
        } else {
            assert(t[i] == e);
        }
    }
}

/// What `VfsPath::new` makes of a stored key.
pub open spec fn key_outcome(k: Seq<char>) -> Result<Seq<char>, Seq<char>> {
    crate::vfs::types::path_outcome(k, (vstd::utf8::encode_utf8(k).len() as usize) as nat)
}

} // verus!
