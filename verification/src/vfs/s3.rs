//! Object-store VFS backend: configuration, key layout, quota bookkeeping
//! and error classification. The network calls are made by the caller, who
//! hands their outcomes to these functions.
use vstd::prelude::*;
use crate::text::{
    chars_before, chars_eq, chars_from, chars_of, lemma_text_before_total,
    lemma_text_before_transitive, push_all, push_char, push_str, string_of, text_before,
};
use crate::v8::module::{find, find_in, occurs, part_views, replace_all, replace_all_vec, starts_with};
use crate::vfs::disk::string_views;
use crate::vfs::memory::{dir_prefix, str_path_outcome};
use crate::vfs::quota::{check_quota, counters_after_write, quota_problem, update_after_write};
use crate::vfs::types::{ResourceLimits, VfsError, VfsPath};

verus! {

/// Configuration for an S3-compatible store.
#[derive(Debug, Clone)]
pub struct S3Config {
    /// Endpoint URL (e.g. "https://s3.amazonaws.com" or "http://localhost:9000")
    pub endpoint: String,
    /// Bucket name
    pub bucket: String,
    /// Region (e.g. "us-east-1")
    pub region: String,
    /// Access key ID
    pub access_key: String,
    /// Secret access key
    pub secret_key: String,
    /// Optional key prefix for all objects
    pub prefix: Option<String>,
    /// Use path-style URLs (true for MinIO, false for AWS)
    pub path_style: bool,
}

/// `s` without its trailing `/` characters.
pub open spec fn trim_end_slashes(s: Seq<char>) -> Seq<char>
    decreases s.len(),
{
    if s.len() > 0 && s.last() == '/' {
        trim_end_slashes(s.drop_last())
    } else {
        s
    }
}

/// The entry that a listed common prefix gives in directory `parent`
/// (listed under `pfx`): `parent/name`, the name being what follows `pfx`
/// without trailing slashes; none where the prefix does not start with
/// `pfx`, the name is empty or the path is not valid.
pub open spec fn prefix_entry(parent: Seq<char>, pfx: Seq<char>, cp: Seq<char>) -> Option<Seq<char>> {
    if starts_with(cp, pfx) {
        let name = trim_end_slashes(cp.skip(pfx.len() as int));
        if name.len() > 0 {
            match str_path_outcome(parent + seq!['/'] + name) {
                Ok(p) => Some(p),
                Err(_) => None,
            }
        } else {
            None
        }
    } else {
        None
    }
}

/// The entry that a listed object key gives in directory `parent`:
/// `parent/rest`, the rest being what follows `pfx`; none where the key
/// does not start with `pfx`, nothing follows or the path is not valid.
pub open spec fn object_entry(parent: Seq<char>, pfx: Seq<char>, key: Seq<char>) -> Option<Seq<char>> {
    if starts_with(key, pfx) {
        let rest = key.skip(pfx.len() as int);
        if rest.len() > 0 {
            match str_path_outcome(parent + seq!['/'] + rest) {
                Ok(p) => Some(p),
                Err(_) => None,
            }
        } else {
            None
        }
    } else {
        None
    }
}

/// The entries that listed items give, by `entry`.
pub open spec fn listed_entries(
    parent: Seq<char>,
    pfx: Seq<char>,
    items: Seq<Seq<char>>,
    from_prefixes: bool,
) -> Set<Seq<char>>
    decreases items.len(),
{
    if items.len() == 0 {
        Set::empty()
    } else {
        let e = if from_prefixes {
            prefix_entry(parent, pfx, items.last())
        } else {
            object_entry(parent, pfx, items.last())
        };
        let rest = listed_entries(parent, pfx, items.drop_last(), from_prefixes);
        match e {
            Some(p) => rest.insert(p),
            None => rest,
        }
    }
}

/// The characters of each path.
pub open spec fn path_views(v: Seq<VfsPath>) -> Seq<Seq<char>> {
    v.map_values(|p: VfsPath| p@)
}

/// Whether the texts are in strictly increasing order.
pub open spec fn strictly_sorted(s: Seq<Seq<char>>) -> bool {
    forall|i: int, j: int| 0 <= i < j < s.len() ==> text_before(#[trigger] s[i], #[trigger] s[j])
}

proof fn lemma_insert_sorted(s: Seq<Seq<char>>, i: int, t: Seq<char>)
    requires
        strictly_sorted(s),
        0 <= i <= s.len(),
        forall|j: int| 0 <= j < i ==> text_before(#[trigger] s[j], t),
        i < s.len() ==> text_before(t, s[i]),
    ensures
        strictly_sorted(s.insert(i, t)),
{
    let n = s.insert(i, t);
    assert forall|a: int, b: int| 0 <= a < b < n.len() implies text_before(#[trigger] n[a], #[trigger] n[b]) by {
        if b < i {
            assert(n[a] == s[a] && n[b] == s[b]);
        } else if b == i {
            assert(n[a] == s[a]);
        } else if a < i {
            assert(n[a] == s[a] && n[b] == s[b - 1]);
        } else if a == i {
            assert(n[b] == s[b - 1]);
            if b - 1 > i {
                lemma_text_before_transitive(t, s[i], s[b - 1]);
            }
        } else {
            assert(n[a] == s[a - 1] && n[b] == s[b - 1]);
        }
    }
}

/// Add a path to a sorted listing (with its characters alongside) unless
/// it is there already.
fn insert_sorted(out: &mut Vec<VfsPath>, texts: &mut Vec<Vec<char>>, p: VfsPath, t: Vec<char>)
    requires
        path_views(old(out)@) == part_views(old(texts)@),
        strictly_sorted(part_views(old(texts)@)),
        t@ == p@,
    ensures
        path_views(final(out)@) == part_views(final(texts)@),
        strictly_sorted(part_views(final(texts)@)),
        part_views(final(texts)@).to_set() == part_views(old(texts)@).to_set().insert(t@),
{
    let ghost s = part_views(texts@);
    let mut i: usize = 0;
    while i < texts.len()
        invariant
            i <= texts@.len(),
            s == part_views(texts@),
            path_views(out@) == part_views(texts@),
            strictly_sorted(s),
            forall|j: int| 0 <= j < i ==> text_before(#[trigger] s[j], t@),
        ensures
            i <= texts@.len(),
            forall|j: int| 0 <= j < i ==> text_before(#[trigger] s[j], t@),
            i < texts@.len() ==> text_before(t@, s[i as int]),
        decreases texts@.len() - i,
    {
        if chars_eq(&texts[i], &t) {
            proof {
                assert(s.to_set().insert(t@) =~= s.to_set()) by {
                    assert(s.contains(s[i as int]));
                }
            }
            return;
        }
        if chars_before(&t, &texts[i]) {
            break;
        }
        proof {
            lemma_text_before_total(s[i as int], t@);
        }
        i = i + 1;
    }
    proof {
        lemma_insert_sorted(s, i as int, t@);
    }
    let ghost op = path_views(out@);
    texts.insert(i, t);
    out.insert(i, p);
    proof {
        assert(part_views(texts@) =~= s.insert(i as int, t@));
        assert(path_views(out@) =~= op.insert(i as int, p@));
        assert(s.insert(i as int, t@).to_set() =~= s.to_set().insert(t@)) by {
            assert forall|x: Seq<char>| s.insert(i as int, t@).to_set().contains(x) implies s.to_set().insert(t@).contains(x) by {
                let q = choose|q: int| 0 <= q < s.insert(i as int, t@).len() && s.insert(i as int, t@)[q] == x;
                if q < i {
                    assert(s.contains(s[q]));
                } else if q > i {
                    assert(s.contains(s[q - 1]));
                }
            }
            assert forall|x: Seq<char>| s.to_set().insert(t@).contains(x) implies s.insert(i as int, t@).to_set().contains(x) by {
                if x == t@ {
                    assert(s.insert(i as int, t@)[i as int] == t@);
                } else {
                    let q = choose|q: int| 0 <= q < s.len() && s[q] == x;
                    if q < i {
                        assert(s.insert(i as int, t@)[q] == x);
                    } else {
                        assert(s.insert(i as int, t@)[q + 1] == x);
                    }
                }
            }
        }
    }
}

/// The path `parent/name`, if valid, with its characters.
fn entry_path(parent: &Vec<char>, name: &Vec<char>) -> (r: Option<(VfsPath, Vec<char>)>)
    ensures
        match str_path_outcome(parent@ + seq!['/'] + name@) {
            Ok(p) => r is Some && (r->0).0@ == p && (r->0).1@ == p,
            Err(_) => r is None,
        },
{
    let mut full = String::new();
    push_all(&mut full, parent);
    push_char(&mut full, '/');
    push_all(&mut full, name);
    assert(full@ =~= parent@ + seq!['/'] + name@);
    match VfsPath::new(full.as_str()) {
        Ok(p) => {
            let t = chars_of(p.as_str());
            Some((p, t))
        },
        Err(_) => None,
    }
}

/// The entry of one listed item (see `prefix_entry`, `object_entry`).
fn listed_entry(parent: &Vec<char>, pfx: &Vec<char>, item: &Vec<char>, from_prefixes: bool) -> (r: Option<
    (VfsPath, Vec<char>),
>)
    ensures
        match (if from_prefixes {
            prefix_entry(parent@, pfx@, item@)
        } else {
            object_entry(parent@, pfx@, item@)
        }) {
            Some(p) => r is Some && (r->0).0@ == p && (r->0).1@ == p,
            None => r is None,
        },
{
    if !occurs(item, pfx, 0) {
        return None;
    }
    let mut rest = chars_from(item, pfx.len());
    if from_prefixes {
        let ghost whole = rest@;
        while rest.len() > 0 && rest[rest.len() - 1] == '/'
            invariant
                trim_end_slashes(rest@) == trim_end_slashes(whole),
            decreases rest@.len(),
        {
            let ghost before = rest@;
            rest.pop();
            assert(rest@ =~= before.drop_last());
        }
    }
    if rest.len() == 0 {
        return None;
    }
    entry_path(parent, &rest)
}

/// An object-store backend: its bucket, key prefix, limits and usage
/// counters.
#[derive(Debug)]
pub struct S3Backend {
    bucket_name: String,
    limits: ResourceLimits,
    prefix: Option<String>,
    total_bytes: usize,
    file_count: usize,
}

/// A namespace made safe for object keys: `::` becomes `__`, tabs and line
/// feeds become `_`.
pub open spec fn s3_sanitized(ns: Seq<char>) -> Seq<char> {
    replace_all(replace_all(replace_all(ns, "::"@, "__"@), seq!['\t'], seq!['_']), seq!['\n'], seq!['_'])
}

/// The object key of a VFS path `namespace::path` (namespace `default`
/// when there is no `::`): `{prefix}/{namespace}/{path}`, or
/// `{namespace}/{path}` without a prefix, the namespace sanitized.
pub open spec fn s3_key(prefix: Option<Seq<char>>, path: Seq<char>) -> Seq<char> {
    let (ns, sub) = match find(path, "::"@) {
        Some(i) => (path.subrange(0, i), path.skip(i + 2)),
        None => ("default"@, path),
    };
    match prefix {
        Some(p) => p + seq!['/'] + s3_sanitized(ns) + seq!['/'] + sub,
        None => s3_sanitized(ns) + seq!['/'] + sub,
    }
}

/// The text of an optional string.
pub open spec fn opt_text(o: Option<String>) -> Option<Seq<char>> {
    match o {
        Some(s) => Some(s@),
        None => None,
    }
}

/// The text of an optional string slice.
pub open spec fn opt_str_text(o: Option<&str>) -> Option<Seq<char>> {
    match o {
        Some(s) => Some(s@),
        None => None,
    }
}

/// Whether `t` occurs in `s`.
pub open spec fn mentions(s: Seq<char>, t: Seq<char>) -> bool {
    find(s, t) is Some
}

fn text_mentions(s: &Vec<char>, t: &str) -> (r: bool)
    ensures
        r == mentions(s@, t@),
{
    let tv = chars_of(t);
    find_in(s, &tv).is_some()
}

impl S3Backend {
    /// A backend for the named bucket, with the given key prefix and limits,
    /// its counters at zero.
    pub fn with_bucket(bucket_name: String, prefix: Option<String>, limits: ResourceLimits) -> (r:
        Self)
        ensures
            r.spec_bucket() == bucket_name@,
            r.spec_prefix() == opt_text(prefix),
            r.spec_limits() == limits,
            r.spec_count() == 0,
            r.spec_total() == 0,
    {
        S3Backend { bucket_name, limits, prefix, total_bytes: 0, file_count: 0 }
    }

    /// The bucket name.
    pub closed spec fn spec_bucket(&self) -> Seq<char> {
        self.bucket_name@
    }

    /// The key prefix.
    pub closed spec fn spec_prefix(&self) -> Option<Seq<char>> {
        opt_text(self.prefix)
    }

    /// The limits.
    pub closed spec fn spec_limits(&self) -> ResourceLimits {
        self.limits
    }

    /// The file counter.
    pub closed spec fn spec_count(&self) -> usize {
        self.file_count
    }

    /// The byte counter.
    pub closed spec fn spec_total(&self) -> usize {
        self.total_bytes
    }

    /// The bucket name.
    pub fn bucket_name(&self) -> (r: String)
        ensures
            r@ == self.spec_bucket(),
    {
        self.bucket_name.clone()
    }

    /// The key prefix, if any.
    pub fn prefix(&self) -> (r: Option<&str>)
        ensures
            opt_str_text(r) == self.spec_prefix(),
    {
        match &self.prefix {
            Some(p) => Some(p.as_str()),
            None => None,
        }
    }

    /// The usage counters: (file count, total bytes). They count what was
    /// written through this backend, not what the bucket holds.
    pub fn current_usage(&self) -> (r: (usize, usize))
        ensures
            r == (self.spec_count(), self.spec_total()),
    {
        (self.file_count, self.total_bytes)
    }

    /// The limits.
    pub fn limits(&self) -> (r: &ResourceLimits)
        ensures
            *r == self.spec_limits(),
    {
        &self.limits
    }

    /// A namespace made safe for object keys (see `s3_sanitized`).
    pub fn sanitize_namespace(namespace: &str) -> (r: String)
        ensures
            r@ == s3_sanitized(namespace@),
    {
        let v = chars_of(namespace);
        let colons = chars_of("::");
        let unders = chars_of("__");
        let mut tab: Vec<char> = Vec::new();
        tab.push('\t');
        let mut lf: Vec<char> = Vec::new();
        lf.push('\n');
        let mut us: Vec<char> = Vec::new();
        us.push('_');
        proof {
            reveal_strlit("::");
            reveal_strlit("__");
        }
        let a = replace_all_vec(&v, &colons, &unders);
        let b = replace_all_vec(&a, &tab, &us);
        proof {
            assert(tab@ =~= seq!['\t']);
            assert(us@ =~= seq!['_']);
            assert(lf@ =~= seq!['\n']);
        }
        let c = replace_all_vec(&b, &lf, &us);
        string_of(&c)
    }

    /// The key prefix listed for directory `path`: its object key with a
    /// trailing `/` (added unless there is one).
    pub fn list_prefix(&self, path: &VfsPath) -> (r: String)
        ensures
            r@ == dir_prefix(s3_key(self.spec_prefix(), path@)),
    {
        let key = self.to_s3_key(path);
        let kv = chars_of(key.as_str());
        if kv.len() > 0 && kv[kv.len() - 1] == '/' {
            key
        } else {
            let mut r = key;
            push_char(&mut r, '/');
            r
        }
    }

    /// The entries of directory `path` from what the store listed under
    /// `list_prefix(path)` with delimiter `/`: its common prefixes (the
    /// subdirectories) and object keys (the files), over all pages. Each
    /// entry is `path/name`; invalid paths are left out; the result holds
    /// each entry once, in increasing order.
    pub fn list_dir_from_listing(&self, path: &VfsPath, common_prefixes: &[String], object_keys: &[String]) -> (r:
        Vec<VfsPath>)
        ensures
            strictly_sorted(path_views(r@)),
            path_views(r@).to_set() == listed_entries(
                path@,
                dir_prefix(s3_key(self.spec_prefix(), path@)),
                string_views(common_prefixes@),
                true,
            ) + listed_entries(
                path@,
                dir_prefix(s3_key(self.spec_prefix(), path@)),
                string_views(object_keys@),
                false,
            ),
    {
        let pfx_text = self.list_prefix(path);
        let pfx = chars_of(pfx_text.as_str());
        let parent = chars_of(path.as_str());
        let ghost pf = pfx@;
        let mut out: Vec<VfsPath> = Vec::new();
        let mut texts: Vec<Vec<char>> = Vec::new();
        proof {
            assert(path_views(out@) =~= part_views(texts@));
            assert(part_views(texts@).to_set() =~= Set::<Seq<char>>::empty());
        }
        let mut k: usize = 0;
        while k < common_prefixes.len()
            invariant
                k <= common_prefixes@.len(),
                parent@ == path@,
                pfx@ == pf,
                path_views(out@) == part_views(texts@),
                strictly_sorted(part_views(texts@)),
                part_views(texts@).to_set() == listed_entries(
                    parent@,
                    pf,
                    string_views(common_prefixes@).take(k as int),
                    true,
                ),
            decreases common_prefixes@.len() - k,
        {
            proof {
                assert(string_views(common_prefixes@).take(k + 1).drop_last() =~= string_views(
                    common_prefixes@,
                ).take(k as int));
            }
            let item = chars_of(common_prefixes[k].as_str());
            match listed_entry(&parent, &pfx, &item, true) {
                Some((p, t)) => insert_sorted(&mut out, &mut texts, p, t),
                None => {},
            }
            k = k + 1;
        }
        proof {
            assert(string_views(common_prefixes@).take(common_prefixes@.len() as int) =~= string_views(
                common_prefixes@,
            ));
        }
        let ghost dirs = part_views(texts@).to_set();
        let mut m: usize = 0;
        proof {
            assert(string_views(object_keys@).take(0) =~= Seq::<Seq<char>>::empty());
            assert(dirs + Set::<Seq<char>>::empty() =~= dirs);
        }
        while m < object_keys.len()
            invariant
                m <= object_keys@.len(),
                parent@ == path@,
                pfx@ == pf,
                path_views(out@) == part_views(texts@),
                strictly_sorted(part_views(texts@)),
                part_views(texts@).to_set() == dirs + listed_entries(
                    parent@,
                    pf,
                    string_views(object_keys@).take(m as int),
                    false,
                ),
            decreases object_keys@.len() - m,
        {
            proof {
                assert(string_views(object_keys@).take(m + 1).drop_last() =~= string_views(
                    object_keys@,
                ).take(m as int));
            }
            let item = chars_of(object_keys[m].as_str());
            let ghost before = part_views(texts@).to_set();
            match listed_entry(&parent, &pfx, &item, false) {
                Some((p, t)) => {
                    insert_sorted(&mut out, &mut texts, p, t);
                    proof {
                        let rest = listed_entries(parent@, pf, string_views(object_keys@).take(m as int), false);
                        assert(dirs + rest.insert(t@) =~= (dirs + rest).insert(t@));
                    }
                },
                None => {},
            }
            m = m + 1;
        }
        proof {
            assert(string_views(object_keys@).take(object_keys@.len() as int) =~= string_views(
                object_keys@,
            ));
        }
        out
    }

    /// The object key of a VFS path (see `s3_key`).
    pub fn to_s3_key(&self, path: &VfsPath) -> (r: String)
        ensures
            r@ == s3_key(self.spec_prefix(), path@),
    {
        let v = chars_of(path.as_str());
        let colons = chars_of("::");
        proof {
            reveal_strlit("::");
        }
        let (ns, sub): (String, Vec<char>) = match find_in(&v, &colons) {
            Some(i) => {
                proof {
                    crate::v8::module::lemma_find_from_occurs(v@, colons@, 0);
                    assert(colons@.len() == 2);
                }
                let mut ns_chars: Vec<char> = Vec::new();
                let mut k: usize = 0;
                while k < i
                    invariant
                        k <= i,
                        i + 2 <= v@.len(),
                        ns_chars@ == v@.subrange(0, k as int),
                    decreases i - k,
                {
                    ns_chars.push(v[k]);
                    assert(ns_chars@ =~= v@.subrange(0, k + 1));
                    k = k + 1;
                }
                let mut rest: Vec<char> = Vec::new();
                assert(v@.len() == v.len());
                let mut j: usize = i + 2;
                while j < v.len()
                    invariant
                        i + 2 <= j <= v@.len(),
                        rest@ == v@.subrange(i + 2, j as int),
                    decreases v.len() - j,
                {
                    rest.push(v[j]);
                    assert(rest@ =~= v@.subrange(i + 2, j + 1));
                    j = j + 1;
                }
                assert(rest@ =~= v@.skip(i + 2));
                (string_of(&ns_chars), rest)
            },
            None => ("default".to_owned(), v),
        };
        let sanitized = Self::sanitize_namespace(ns.as_str());
        let mut key = String::new();
        match &self.prefix {
            Some(p) => {
                push_str(&mut key, p.as_str());
                push_char(&mut key, '/');
            },
            None => {},
        }
        push_str(&mut key, sanitized.as_str());
        push_char(&mut key, '/');
        push_all(&mut key, &sub);
        key
    }

    /// Check a write of `content_len` bytes against the limits (see
    /// `quota_problem`); `is_new` and `old_size` come from the store.
    pub fn check_write_bounds(&self, content_len: usize, is_new: bool, old_size: usize) -> (r:
        Result<(), VfsError>)
        ensures
            match quota_problem(
                self.spec_limits(),
                self.spec_count(),
                self.spec_total(),
                is_new,
                old_size,
                content_len as nat,
            ) {
                None => r is Ok,
                Some((res, limit, current)) => r matches Err(
                    VfsError::QuotaExceeded { resource, limit: l, current: c },
                ) && resource@ == res && l == limit && c == current,
            },
    {
        check_quota(&self.limits, self.file_count, self.total_bytes, content_len, is_new, old_size)
    }

    /// The error for a failed store call on `path`, from the call's error
    /// message: not found for a message mentioning `404` or `NoSuchKey`,
    /// permission denied for `403` or `AccessDenied`, an I/O error with the
    /// message otherwise.
    pub fn map_s3_error(path: &str, message: &str) -> (r: VfsError)
        ensures
            (mentions(message@, "404"@) || mentions(message@, "NoSuchKey"@)) ==> (r matches VfsError::NotFound {
                path: p,
            } && p@ == path@),
            !(mentions(message@, "404"@) || mentions(message@, "NoSuchKey"@)) && (mentions(
                message@,
                "403"@,
            ) || mentions(message@, "AccessDenied"@)) ==> (r matches VfsError::PermissionDenied {
                path: p,
            } && p@ == path@),
            !(mentions(message@, "404"@) || mentions(message@, "NoSuchKey"@)) && !(mentions(
                message@,
                "403"@,
            ) || mentions(message@, "AccessDenied"@)) ==> (r matches VfsError::IoError(e) && e@
                == "S3 error: "@ + message@),
    {
        let m = chars_of(message);
        if text_mentions(&m, "404") || text_mentions(&m, "NoSuchKey") {
            VfsError::NotFound { path: path.to_owned() }
        } else if text_mentions(&m, "403") || text_mentions(&m, "AccessDenied") {
            VfsError::PermissionDenied { path: path.to_owned() }
        } else {
            let mut e = String::new();
            push_str(&mut e, "S3 error: ");
            push_str(&mut e, message);
            VfsError::IoError(e)
        }
    }

    /// Update the counters after a stored write (see `counters_after_write`).
    pub fn record_write(&mut self, is_new: bool, old_size: usize, content_len: usize)
        ensures
            (final(self).spec_count(), final(self).spec_total()) == counters_after_write(
                old(self).spec_count(),
                old(self).spec_total(),
                is_new,
                old_size,
                content_len,
            ),
            final(self).spec_limits() == old(self).spec_limits(),
            final(self).spec_prefix() == old(self).spec_prefix(),
            final(self).spec_bucket() == old(self).spec_bucket(),
    {
        let (c, t) = update_after_write(self.file_count, self.total_bytes, is_new, old_size, content_len);
        self.file_count = c;
        self.total_bytes = t;
    }

    /// Update the counters after a stored delete of a `size`-byte object:
    /// one file and `size` bytes fewer (wrapping).
    pub fn record_delete(&mut self, size: usize)
        ensures
            final(self).spec_count() == old(self).spec_count().wrapping_sub(1),
            final(self).spec_total() == old(self).spec_total().wrapping_sub(size),
            final(self).spec_limits() == old(self).spec_limits(),
            final(self).spec_prefix() == old(self).spec_prefix(),
            final(self).spec_bucket() == old(self).spec_bucket(),
    {
        self.file_count = self.file_count.wrapping_sub(1);
        self.total_bytes = self.total_bytes.wrapping_sub(size);
    }
}

} // verus!
