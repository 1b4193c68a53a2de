//! Local-disk VFS backend: its base directory, namespace directory names
//! and quota bookkeeping. The file system calls are made by the caller, who
//! hands their outcomes to these functions.
use vstd::prelude::*;
use crate::text::{chars_from, chars_of, chars_to, push_all, push_str, string_of};
use crate::v8::module::{find, find_in, lemma_find_from_occurs, push_all_vec, replace_all, replace_all_vec};
use crate::vfs::memory::str_path_outcome;
use crate::vfs::quota::{check_quota, counters_after_write, quota_problem, update_after_write};
use crate::vfs::types::{ResourceLimits, VfsError, VfsPath};

verus! {

/// A path joined onto a base as on Unix (`Path::join`): an absolute part
/// replaces the base; otherwise the part follows the base, with a `/`
/// between them unless the base is empty or already ends with one.
pub open spec fn path_joined(base: Seq<char>, part: Seq<char>) -> Seq<char> {
    if part.len() > 0 && part[0] == '/' {
        part
    } else if base.len() == 0 {
        part
    } else if base.last() == '/' {
        base + part
    } else {
        base + seq!['/'] + part
    }
}

/// The namespace and sub-path of a storage key, split at its first `::`
/// (no namespace without one).
pub open spec fn key_parts(key: Seq<char>) -> (Seq<char>, Seq<char>) {
    match find(key, seq![':', ':']) {
        Some(i) => (key.take(i), key.skip(i + 2)),
        None => (Seq::<char>::empty(), key),
    }
}

/// The part of a storage key's file-system path below the base directory:
/// the namespace's sanitized directory name, then the sub-path.
pub open spec fn relative_fs_path(key: Seq<char>) -> Seq<char> {
    let (ns, sub) = key_parts(key);
    if ns.len() == 0 {
        sub
    } else if sub.len() == 0 {
        dir_sanitized(ns)
    } else {
        dir_sanitized(ns) + seq!['/'] + sub
    }
}

/// Whether `s` has a `..` component starting at `i`.
pub open spec fn dotdot_at(s: Seq<char>, i: int) -> bool {
    &&& 0 <= i && i + 2 <= s.len()
    &&& s[i] == '.' && s[i + 1] == '.'
    &&& i == 0 || s[i - 1] == '/'
    &&& i + 2 == s.len() || s[i + 2] == '/'
}

/// Whether `s` has a `..` component.
pub open spec fn has_dotdot(s: Seq<char>) -> bool {
    exists|i: int| dotdot_at(s, i)
}

/// Whether a relative path stays below the directory it is taken from: it
/// is not absolute and has no `..` component.
pub open spec fn stays_below(rel: Seq<char>) -> bool {
    !(rel.len() > 0 && rel[0] == '/') && !has_dotdot(rel)
}

/// The base directory with the separator that the paths below it follow.
pub open spec fn base_dir(base: Seq<char>) -> Seq<char> {
    if base.len() == 0 || base.last() == '/' {
        base
    } else {
        base.push('/')
    }
}

/// Whether a storage key names a file below the base directory, apart
/// from the files of other namespaces: its sub-path is not absolute, its
/// namespace's directory is not `.` (the base itself), and its relative
/// file-system path is not absolute and has no `..` component (so a
/// namespace of `..` is refused too).
pub open spec fn key_stays_below(key: Seq<char>) -> bool {
    let (ns, sub) = key_parts(key);
    &&& !(sub.len() > 0 && sub[0] == '/')
    &&& (ns.len() == 0 || dir_sanitized(ns) != seq!['.'])
    &&& stays_below(relative_fs_path(key))
}

/// The file-system path of a storage key under base directory `base`: a
/// `namespace::path` key lives in the namespace's sanitized directory under
/// the base, a key without `::` directly under the base; none for a key
/// that would name a file outside the base.
pub open spec fn fs_path_of(base: Seq<char>, key: Seq<char>) -> Option<Seq<char>> {
    let rel = relative_fs_path(key);
    if !key_stays_below(key) {
        None
    } else if rel.len() == 0 {
        Some(base)
    } else {
        Some(base_dir(base) + rel)
    }
}

/// Whether `v` has a `..` component (see `has_dotdot`).
pub(crate) fn has_dotdot_vec(v: &Vec<char>) -> (r: bool)
    ensures
        r == has_dotdot(v@),
{
    let mut i: usize = 0;
    while v.len() >= 2 && i <= v.len() - 2
        invariant
            i <= v@.len(),
            v@.len() == v.len(),
            forall|j: int| 0 <= j < i ==> !dotdot_at(v@, j),
        decreases v@.len() - i,
    {
        let starts = i == 0 || v[i - 1] == '/';
        let ends = i + 2 == v.len() || v[i + 2] == '/';
        if v[i] == '.' && v[i + 1] == '.' && starts && ends {
            assert(dotdot_at(v@, i as int));
            return true;
        }
        i = i + 1;
    }
    assert forall|j: int| !dotdot_at(v@, j) by {
        if 0 <= j < i {
        }
    }
    false
}

/// The characters of each string.
pub open spec fn string_views(v: Seq<String>) -> Seq<Seq<char>> {
    v.map_values(|s: String| s@)
}

/// The path of a directory entry named `name` in directory `d`.
pub open spec fn child_text(d: Seq<char>, name: Seq<char>) -> Seq<char> {
    if d.len() > 0 && d.last() == '/' {
        d + name
    } else {
        d + seq!['/'] + name
    }
}

/// The paths of a directory's entries, in the order of `names`, hidden
/// names (starting with `.`) left out; or the first entry path that is not
/// a valid path, with the reason.
pub open spec fn listing_from(d: Seq<char>, names: Seq<Seq<char>>) -> Result<Seq<Seq<char>>, (Seq<char>, Seq<char>)>
    decreases names.len(),
{
    if names.len() == 0 {
        Ok(Seq::empty())
    } else {
        match listing_from(d, names.drop_last()) {
            Err(e) => Err(e),
            Ok(ps) => {
                let n = names.last();
                if n.len() > 0 && n[0] == '.' {
                    Ok(ps)
                } else {
                    match str_path_outcome(child_text(d, n)) {
                        Ok(p) => Ok(ps.push(p)),
                        Err(reason) => Err((child_text(d, n), reason)),
                    }
                }
            },
        }
    }
}

proof fn lemma_listing_err_extends(d: Seq<char>, names: Seq<Seq<char>>, n: int)
    requires
        0 <= n <= names.len(),
        listing_from(d, names.take(n)) is Err,
    ensures
        listing_from(d, names) == listing_from(d, names.take(n)),
    decreases names.len() - n,
{
    if n == names.len() {
        assert(names.take(n) =~= names);
    } else {
        assert(names.take(n + 1).drop_last() =~= names.take(n));
        lemma_listing_err_extends(d, names, n + 1);
    }
}

/// `Path::join` on Unix paths (see `path_joined`).
pub fn join_path(base: &str, part: &str) -> (r: String)
    ensures
        r@ == path_joined(base@, part@),
{
    let pv = chars_of(part);
    if pv.len() > 0 && pv[0] == '/' {
        return part.to_owned();
    }
    let bv = chars_of(base);
    if bv.len() == 0 {
        return part.to_owned();
    }
    let mut r = String::new();
    push_str(&mut r, base);
    if bv[bv.len() - 1] != '/' {
        push_str(&mut r, "/");
        proof {
            reveal_strlit("/");
        }
    }
    push_str(&mut r, part);
    proof {
        assert(r@ =~= path_joined(base@, part@));
    }
    r
}

/// A disk backend: its base directory, limits and usage counters.
#[derive(Debug)]
pub struct DiskBackend {
    base_path: String,
    limits: ResourceLimits,
    total_bytes: usize,
    file_count: usize,
}

/// A namespace made safe as a directory name: `::` becomes `__`, `/` and
/// `\` become `_`.
pub open spec fn dir_sanitized(ns: Seq<char>) -> Seq<char> {
    replace_all(replace_all(replace_all(ns, "::"@, "__"@), seq!['/'], seq!['_']), seq!['\\'], seq!['_'])
}

impl DiskBackend {
    /// A backend rooted at `base_path` with the given limits, its counters
    /// set from a scan of what is already stored there.
    pub fn from_scan(base_path: String, limits: ResourceLimits, file_count: usize, total_bytes: usize) -> (r:
        Self)
        ensures
            r.spec_base() == base_path@,
            r.spec_limits() == limits,
            r.spec_count() == file_count,
            r.spec_total() == total_bytes,
    {
        DiskBackend { base_path, limits, total_bytes, file_count }
    }

    /// The base directory.
    pub closed spec fn spec_base(&self) -> Seq<char> {
        self.base_path@
    }

    /// The limits.
    pub closed spec fn spec_limits(&self) -> ResourceLimits {
        self.limits
    }

    /// The file counter.
    pub closed spec fn spec_count(&self) -> usize {
        self.file_count
    }

    /// The byte counter.
    pub closed spec fn spec_total(&self) -> usize {
        self.total_bytes
    }

    /// The base directory.
    pub fn base_path(&self) -> (r: &str)
        ensures
            r@ == self.spec_base(),
    {
        self.base_path.as_str()
    }

    /// The usage counters: (file count, total bytes).
    pub fn current_usage(&self) -> (r: (usize, usize))
        ensures
            r == (self.spec_count(), self.spec_total()),
    {
        (self.file_count, self.total_bytes)
    }

    /// The limits.
    pub fn limits(&self) -> (r: &ResourceLimits)
        ensures
            *r == self.spec_limits(),
    {
        &self.limits
    }

    /// A namespace made safe as a directory name (see `dir_sanitized`).
    pub fn sanitize_namespace(namespace: &str) -> (r: String)
        ensures
            r@ == dir_sanitized(namespace@),
    {
        let v = chars_of(namespace);
        let colons = chars_of("::");
        let unders = chars_of("__");
        let mut slash: Vec<char> = Vec::new();
        slash.push('/');
        let mut backslash: Vec<char> = Vec::new();
        backslash.push('\\');
        let mut us: Vec<char> = Vec::new();
        us.push('_');
        proof {
            reveal_strlit("::");
            reveal_strlit("__");
            assert(slash@ =~= seq!['/']);
            assert(backslash@ =~= seq!['\\']);
            assert(us@ =~= seq!['_']);
        }
        let a = replace_all_vec(&v, &colons, &unders);
        let b = replace_all_vec(&a, &slash, &us);
        let c = replace_all_vec(&b, &backslash, &us);
        string_of(&c)
    }

    /// Check a write of `content_len` bytes against the limits (see
    /// `quota_problem`); `is_new` and `old_size` come from the file system.
    pub fn check_write_bounds(&self, content_len: usize, is_new: bool, old_size: usize) -> (r:
        Result<(), VfsError>)
        ensures
            match quota_problem(
                self.spec_limits(),
                self.spec_count(),
                self.spec_total(),
                is_new,
                old_size,
                content_len as nat,
            ) {
                None => r is Ok,
                Some((res, limit, current)) => r matches Err(
                    VfsError::QuotaExceeded { resource, limit: l, current: c },
                ) && resource@ == res && l == limit && c == current,
            },
    {
        check_quota(&self.limits, self.file_count, self.total_bytes, content_len, is_new, old_size)
    }

    /// Update the counters after a stored write (see `counters_after_write`).
    pub fn record_write(&mut self, is_new: bool, old_size: usize, content_len: usize)
        ensures
            (final(self).spec_count(), final(self).spec_total()) == counters_after_write(
                old(self).spec_count(),
                old(self).spec_total(),
                is_new,
                old_size,
                content_len,
            ),
            final(self).spec_limits() == old(self).spec_limits(),
            final(self).spec_base() == old(self).spec_base(),
    {
        let (c, t) = update_after_write(self.file_count, self.total_bytes, is_new, old_size, content_len);
        self.file_count = c;
        self.total_bytes = t;
    }

    /// The file-system path of a storage path (see `fs_path_of`): it is the
    /// base itself, or the base and a separator followed by a relative path
    /// that is not absolute and has no `..` component. A key that would name
    /// a file outside the base is refused as an invalid path.
    pub fn to_filesystem_path(&self, path: &VfsPath) -> (r: Result<String, VfsError>)
        ensures
            match fs_path_of(self.spec_base(), path@) {
                Some(p) => r is Ok && r->Ok_0@ == p,
                None => r matches Err(VfsError::InvalidPath { path: p, reason }) && p@ == path@
                    && reason@ == "Path escapes the storage directory"@,
            },
            r matches Ok(p) ==> p@ == self.spec_base() || ({
                let b = base_dir(self.spec_base());
                &&& p@.len() > b.len()
                &&& p@.take(b.len() as int) == b
                &&& stays_below(p@.skip(b.len() as int))
            }),
    {
        let key = chars_of(path.as_str());
        let mut sep: Vec<char> = Vec::new();
        sep.push(':');
        sep.push(':');
        assert(sep@ =~= seq![':', ':']);
        let found = find_in(&key, &sep);
        let (ns, sub): (Vec<char>, Vec<char>) = match found {
            Some(i) => {
                proof {
                    lemma_find_from_occurs(key@, sep@, 0);
                    assert(crate::v8::module::occurs_at(key@, sep@, i as int));
                }
                assert(i + 2 <= key@.len() && key@.len() == key.len());
                (chars_to(&key, i), chars_from(&key, i + 2))
            },
            None => (Vec::new(), key),
        };
        proof {
            if found is None {
                assert(ns@ =~= Seq::<char>::empty());
            }
        }
        assert(key_parts(path@) == (ns@, sub@));
        let mut rel: Vec<char> = Vec::new();
        let mut ns_is_dot = false;
        if ns.len() == 0 {
            push_all_vec(&mut rel, &sub);
        } else {
            let ns_text = string_of(&ns);
            let sanitized = chars_of(Self::sanitize_namespace(ns_text.as_str()).as_str());
            ns_is_dot = sanitized.len() == 1 && sanitized[0] == '.';
            assert(ns_is_dot == (sanitized@ == seq!['.']));
            push_all_vec(&mut rel, &sanitized);
            if sub.len() > 0 {
                rel.push('/');
                push_all_vec(&mut rel, &sub);
            }
        }
        assert(rel@ =~= relative_fs_path(path@));
        let sub_absolute = sub.len() > 0 && sub[0] == '/';
        let rel_absolute = rel.len() > 0 && rel[0] == '/';
        if sub_absolute || ns_is_dot || rel_absolute || has_dotdot_vec(&rel) {
            return Err(
                VfsError::InvalidPath {
                    path: path.as_str().to_owned(),
                    reason: "Path escapes the storage directory".to_owned(),
                },
            );
        }
        proof {
            reveal_strlit("Path escapes the storage directory");
        }
        if rel.len() == 0 {
            Ok(self.base_path.clone())
        } else {
            let r = join_path(self.base_path.as_str(), string_of(&rel).as_str());
            proof {
                let b = base_dir(self.base_path@);
                assert(r@ =~= b + rel@);
                assert((b + rel@).take(b.len() as int) =~= b);
                assert((b + rel@).skip(b.len() as int) =~= rel@);
            }
            Ok(r)
        }
    }

    /// The paths of a directory's entries, from the names the file system
    /// listed for it, in that order (see `listing_from`): hidden names are
    /// skipped; an entry path that is not a valid path is reported as an
    /// invalid path naming it.
    #[verifier::spinoff_prover]
    #[verifier::rlimit(40)]
    pub fn list_dir_from_names(path: &VfsPath, names: &[String]) -> (r: Result<Vec<VfsPath>, VfsError>)
        ensures
            match listing_from(path@, string_views(names@)) {
                Ok(ps) => r is Ok && r->Ok_0@.map_values(|p: VfsPath| p@) == ps,
                Err((c, reason)) => r matches Err(VfsError::InvalidPath { path: p, reason: why })
                    && p@ == c && why@ == "Invalid path generated: "@ + ("EINVAL: "@ + reason + ": "@
                    + c),
            },
    {
        let d = chars_of(path.as_str());
        let ends_with_slash = d.len() > 0 && d[d.len() - 1] == '/';
        let mut out: Vec<VfsPath> = Vec::new();
        let mut i: usize = 0;
        proof {
            assert(string_views(names@).take(0) =~= Seq::<Seq<char>>::empty());
            assert(out@.map_values(|p: VfsPath| p@) =~= Seq::<Seq<char>>::empty());
        }
        while i < names.len()
            invariant
                i <= names@.len(),
                d@ == path@,
                ends_with_slash == (d@.len() > 0 && d@.last() == '/'),
                listing_from(path@, string_views(names@).take(i as int)) == Ok::<
                    Seq<Seq<char>>,
                    (Seq<char>, Seq<char>),
                >(out@.map_values(|p: VfsPath| p@)),
            decreases names@.len() - i,
        {
            proof {
                assert(string_views(names@).take(i + 1).drop_last() =~= string_views(names@).take(
                    i as int,
                ));
            }
            let n = chars_of(names[i].as_str());
            if n.len() > 0 && n[0] == '.' {
            } else {
                let mut child = String::new();
                push_all(&mut child, &d);
                if !ends_with_slash {
                    push_str(&mut child, "/");
                    proof {
                        reveal_strlit("/");
                    }
                }
                push_all(&mut child, &n);
                assert(child@ =~= child_text(path@, names@[i as int]@));
                match VfsPath::new(child.as_str()) {
                    Ok(p) => {
                        let ghost before = out@.map_values(|p: VfsPath| p@);
                        out.push(p);
                        assert(out@.map_values(|p: VfsPath| p@) =~= before.push(p@));
                    },
                    Err(e) => {
                        let mut reason = String::new();
                        push_str(&mut reason, "Invalid path generated: ");
                        push_str(&mut reason, e.to_string().as_str());
                        proof {
                            lemma_listing_err_extends(path@, string_views(names@), i + 1);
                        }
                        return Err(VfsError::InvalidPath { path: child, reason });
                    },
                }
            }
            i = i + 1;
        }
        proof {
            assert(string_views(names@).take(names@.len() as int) =~= string_views(names@));
        }
        Ok(out)
    }

    /// Update the counters after deleting a `size`-byte file: one file and
    /// `size` bytes fewer (wrapping).
    pub fn record_delete(&mut self, size: usize)
        ensures
            final(self).spec_count() == old(self).spec_count().wrapping_sub(1),
            final(self).spec_total() == old(self).spec_total().wrapping_sub(size),
            final(self).spec_limits() == old(self).spec_limits(),
            final(self).spec_base() == old(self).spec_base(),
    {
        self.file_count = self.file_count.wrapping_sub(1);
        self.total_bytes = self.total_bytes.wrapping_sub(size);
    }
}

} // verus!
