//! VFS core types: normalized paths, files, errors and resource limits.
use vstd::prelude::*;
use vstd::utf8::encode_utf8;
use vstd::string::StrSliceExecFns;
use crate::text::{chars_of, push_char, push_decimal, push_str, string_of};

verus! {

/// Maximum allowed path length (4096 bytes).
pub const MAX_PATH_LENGTH: usize = 4096;

/// The pieces of `s` between `'/'` characters, empty pieces included (the
/// pieces of `str::split('/')`).
pub open spec fn split_slash(s: Seq<char>) -> Seq<Seq<char>>
    decreases s.len(),
{
    if s.len() == 0 {
        seq![Seq::<char>::empty()]
    } else {
        let t = split_slash(s.drop_last());
        if s.last() == '/' {
            t.push(Seq::<char>::empty())
        } else {
            t.update(t.len() - 1, t.last().push(s.last()))
        }
    }
}

/// The non-empty pieces of `s` between `'/'` characters.
pub open spec fn path_segments(s: Seq<char>) -> Seq<Seq<char>> {
    split_slash(s).filter(nonempty_seg())
}

/// Whether a segment is not empty.
pub open spec fn nonempty_seg() -> spec_fn(Seq<char>) -> bool {
    |seg: Seq<char>| seg.len() > 0
}

/// The pieces joined with `'/'` between them.
pub open spec fn join_slash(segs: Seq<Seq<char>>) -> Seq<char>
    decreases segs.len(),
{
    if segs.len() == 0 {
        Seq::empty()
    } else if segs.len() == 1 {
        segs[0]
    } else {
        join_slash(segs.drop_last()) + seq!['/'] + segs.last()
    }
}

/// A path without leading, trailing or repeated slashes.
pub open spec fn normalized(s: Seq<char>) -> Seq<char> {
    join_slash(path_segments(s))
}

/// The two dots of a parent-directory segment.
pub open spec fn dot_dot() -> Seq<char> {
    seq!['.', '.']
}

/// The outcome of `VfsPath::new` on a path with characters `s` and UTF-8
/// length `byte_len`: the normalized path, or the reason it is refused
/// (too long, a null character, a `..` segment, or nothing left).
pub open spec fn path_outcome(s: Seq<char>, byte_len: nat) -> Result<Seq<char>, Seq<char>> {
    if byte_len > MAX_PATH_LENGTH {
        Err("Path exceeds maximum length of "@ + crate::text::decimal(MAX_PATH_LENGTH as nat)
            + " bytes"@)
    } else if s.contains('\0') {
        Err("Path contains null bytes"@)
    } else if path_segments(s).contains(dot_dot()) {
        Err("Path contains '..' segment which is not allowed"@)
    } else if normalized(s).len() == 0 {
        Err("Path is empty after normalization"@)
    } else {
        Ok(normalized(s))
    }
}

/// The index of the last `'/'` in `s`, if any.
pub open spec fn last_slash(s: Seq<char>) -> Option<int>
    decreases s.len(),
{
    if s.len() == 0 {
        None
    } else if s.last() == '/' {
        Some(s.len() - 1)
    } else {
        last_slash(s.drop_last())
    }
}

proof fn lemma_last_slash(s: Seq<char>)
    ensures
        match last_slash(s) {
            Some(i) => 0 <= i < s.len() && s[i] == '/' && forall|j: int| i < j < s.len() ==> s[j] != '/',
            None => forall|j: int| 0 <= j < s.len() ==> s[j] != '/',
        },
    decreases s.len(),
{
    if s.len() > 0 {
        let t = s.drop_last();
        lemma_last_slash(t);
        assert forall|j: int| 0 <= j < t.len() implies s[j] == t[j] by {}
        assert(s.last() == s[s.len() - 1]);
    }
}

/// A normalized path for the VFS: no leading, trailing or repeated slashes,
/// no `..` segment, no null character, not empty.
#[derive(Debug, PartialEq, Eq, Hash)]
pub struct VfsPath(String);

impl Clone for VfsPath {
    fn clone(&self) -> (r: Self)
        ensures
            r@ == self@,
    {
        proof {
            use_type_invariant(self);
        }
        VfsPath(self.0.clone())
    }
}

impl View for VfsPath {
    type V = Seq<char>;

    closed spec fn view(&self) -> Seq<char> {
        self.0@
    }
}

/// What holds of every path's text: it is not empty and does not start
/// with `/`.
pub open spec fn path_form(s: Seq<char>) -> bool {
    s.len() > 0 && s[0] != '/'
}

impl VfsPath {
    #[verifier::type_invariant]
    spec fn inv(self) -> bool {
        path_form(self.0@)
    }
}

/// Error types for VFS operations, with Node.js-style codes.
#[derive(Debug, Clone)]
pub enum VfsError {
    /// File or directory not found (ENOENT)
    NotFound { path: String },
    /// Permission denied (EACCES)
    PermissionDenied { path: String },
    /// File already exists (EEXIST)
    AlreadyExists { path: String },
    /// Invalid path or argument (EINVAL)
    InvalidPath { path: String, reason: String },
    /// Resource quota exceeded (EQUOTA)
    QuotaExceeded { resource: String, limit: u32, current: u32 },
    /// Generic I/O error (EIO)
    IoError(String),
    /// Operation not supported (ENOTSUP)
    NotSupported { feature: String },
}

/// The pieces-with-current state after scanning a prefix: the completed
/// non-empty segments and the segment being read.
proof fn lemma_split_step(s: Seq<char>, i: int)
    requires
        0 <= i < s.len(),
    ensures
        split_slash(s.take(i + 1)) == if s[i] == '/' {
            split_slash(s.take(i)).push(Seq::<char>::empty())
        } else {
            let t = split_slash(s.take(i));
            t.update(t.len() - 1, t.last().push(s[i]))
        },
{
    assert(s.take(i + 1).drop_last() =~= s.take(i));
}

proof fn lemma_split_nonempty(s: Seq<char>)
    ensures
        split_slash(s).len() >= 1,
    decreases s.len(),
{
    if s.len() > 0 {
        lemma_split_nonempty(s.drop_last());
    }
}

/// Collects the non-empty slash-separated segments of `v`.
fn segments_of(v: &Vec<char>) -> (r: Vec<Vec<char>>)
    ensures
        r@.map_values(|x: Vec<char>| x@) == path_segments(v@),
{
    let ghost pred = nonempty_seg();
    let mut segs: Vec<Vec<char>> = Vec::new();
    let mut cur: Vec<char> = Vec::new();
    let mut i: usize = 0;
    proof {
        lemma_split_nonempty(v@.take(0));
        assert(v@.take(0) =~= Seq::<char>::empty());
    }
    while i < v.len()
        invariant
            i <= v.len(),
            pred == nonempty_seg(),
            split_slash(v@.take(i as int)).len() >= 1,
            cur@ == split_slash(v@.take(i as int)).last(),
            segs@.map_values(|x: Vec<char>| x@) == split_slash(v@.take(i as int)).drop_last().filter(
                pred,
            ),
        decreases v.len() - i,
    {
        let c = v[i];
        let ghost t = split_slash(v@.take(i as int));
        proof {
            lemma_split_step(v@, i as int);
            lemma_split_nonempty(v@.take(i + 1));
            reveal_with_fuel(Seq::filter, 1);
        }
        if c == '/' {
            let ghost before = segs@.map_values(|x: Vec<char>| x@);
            proof {
                assert(t.len() > 0);
                assert(t.filter(pred) == if pred(t.last()) {
                    t.drop_last().filter(pred).push(t.last())
                } else {
                    t.drop_last().filter(pred)
                });
                assert(t.push(Seq::<char>::empty()).drop_last() =~= t);
            }
            if cur.len() > 0 {
                let mut done: Vec<char> = Vec::new();
                std::mem::swap(&mut done, &mut cur);
                segs.push(done);
                proof {
                    assert(segs@.map_values(|x: Vec<char>| x@) =~= before.push(t.last()));
                    assert(pred(t.last()));
                }
            } else {
                proof {
                    assert(!pred(t.last()));
                }
            }
        } else {
            cur.push(c);
            proof {
                let u = t.update(t.len() - 1, t.last().push(c));
                assert(u.drop_last() =~= t.drop_last());
            }
        }
        i = i + 1;
    }
    proof {
        assert(v@.take(v.len() as int) =~= v@);
        let t = split_slash(v@);
        assert(t.drop_last().push(t.last()) =~= t);
        reveal_with_fuel(Seq::filter, 1);
    }
    if cur.len() > 0 {
        let ghost before = segs@.map_values(|x: Vec<char>| x@);
        segs.push(cur);
        proof {
            assert(segs@.map_values(|x: Vec<char>| x@) =~= before.push(
                split_slash(v@).last(),
            ));
        }
    }
    segs
}

/// Joins segments with `'/'`.
fn join_segments(segs: &Vec<Vec<char>>) -> (r: Vec<char>)
    ensures
        r@ == join_slash(segs@.map_values(|x: Vec<char>| x@)),
{
    let ghost all = segs@.map_values(|x: Vec<char>| x@);
    let mut out: Vec<char> = Vec::new();
    let mut i: usize = 0;
    while i < segs.len()
        invariant
            i <= segs.len(),
            all == segs@.map_values(|x: Vec<char>| x@),
            out@ == join_slash(all.take(i as int)),
        decreases segs.len() - i,
    {
        let ghost before = out@;
        if i > 0 {
            out.push('/');
        }
        let seg = &segs[i];
        let mut j: usize = 0;
        while j < seg.len()
            invariant
                j <= seg.len(),
                out@ == before + (if i > 0 {
                    seq!['/']
                } else {
                    Seq::<char>::empty()
                }) + seg@.take(j as int),
            decreases seg.len() - j,
        {
            out.push(seg[j]);
            proof {
                assert(seg@.take(j as int).push(seg@[j as int]) =~= seg@.take(j + 1));
            }
            j = j + 1;
        }
        proof {
            assert(seg@.take(seg.len() as int) =~= seg@);
            assert(all.take(i + 1).drop_last() =~= all.take(i as int));
            assert(all[i as int] == seg@);
            if i == 0 {
                assert(out@ =~= seg@);
            } else {
                assert(out@ =~= before + seq!['/'] + seg@);
            }
        }
        i = i + 1;
    }
    proof {
        assert(all.take(segs.len() as int) =~= all);
    }
    out
}

impl VfsPath {
    /// Validate and normalize a path (see `path_outcome`).
    pub fn new(path: &str) -> (r: Result<Self, VfsError>)
        ensures
            match path_outcome(path@, path.len() as nat) {
                Ok(p) => r is Ok && r->Ok_0@ == p,
                Err(reason) => r matches Err(VfsError::InvalidPath { path: p, reason: why })
                    && p@ == path@ && why@ == reason,
            },
    {
        let chars = chars_of(path);
        if path.len() > MAX_PATH_LENGTH {
            let mut reason = String::new();
            push_str(&mut reason, "Path exceeds maximum length of ");
            push_decimal(&mut reason, MAX_PATH_LENGTH as u64);
            push_str(&mut reason, " bytes");
            return Err(VfsError::InvalidPath { path: path.to_owned(), reason });
        }
        let mut k: usize = 0;
        while k < chars.len()
            invariant
                k <= chars.len(),
                chars@ == path@,
                path.len() <= MAX_PATH_LENGTH,
                forall|j: int| 0 <= j < k ==> chars@[j] != '\0',
            decreases chars.len() - k,
        {
            if chars[k] == '\0' {
                proof {
                    assert(chars@.contains('\0')) by {
                        assert(chars@[k as int] == '\0');
                    }
                    assert(path@.contains('\0'));
                    assert(!(path.len() as nat > MAX_PATH_LENGTH));
                    assert(path_outcome(path@, path.len() as nat) == Err::<Seq<char>, Seq<char>>("Path contains null bytes"@));
                }
                let p = path.to_owned();
                let why = "Path contains null bytes".to_owned();
                assert(why@ == "Path contains null bytes"@);
                return Err(VfsError::InvalidPath { path: p, reason: why });
            }
            k = k + 1;
        }
        let segs = segments_of(&chars);
        let ghost sv = segs@.map_values(|x: Vec<char>| x@);
        let mut q: usize = 0;
        while q < segs.len()
            invariant
                q <= segs.len(),
                chars@ == path@,
                path.len() <= MAX_PATH_LENGTH,
                !path@.contains('\0'),
                sv == path_segments(path@),
                sv == segs@.map_values(|x: Vec<char>| x@),
                forall|j: int| 0 <= j < q ==> sv[j] != dot_dot(),
            decreases segs.len() - q,
        {
            let seg = &segs[q];
            if seg.len() == 2 && seg[0] == '.' && seg[1] == '.' {
                proof {
                    assert(sv[q as int] =~= dot_dot());
                    assert(sv.contains(dot_dot()));
                }
                return Err(
                    VfsError::InvalidPath {
                        path: path.to_owned(),
                        reason: "Path contains '..' segment which is not allowed".to_owned(),
                    },
                );
            }
            proof {
                if sv[q as int] == dot_dot() {
                    assert(seg@.len() == 2 && seg@[0] == '.' && seg@[1] == '.');
                }
            }
            q = q + 1;
        }
        let joined = join_segments(&segs);
        if joined.len() == 0 {
            return Err(
                VfsError::InvalidPath {
                    path: path.to_owned(),
                    reason: "Path is empty after normalization".to_owned(),
                },
            );
        }
        let text = string_of(&joined);
        proof {
            lemma_accepted_path_form(path@, path.len() as nat);
        }
        Ok(VfsPath(text))
    }

    /// The path text (never empty, never starting with `/`).
    pub fn as_str(&self) -> (r: &str)
        ensures
            r@ == self@,
            path_form(self@),
    {
        proof {
            use_type_invariant(self);
        }
        self.0.as_str()
    }

    /// The path up to its last `'/'`, if it has one.
    pub fn parent(&self) -> (r: Option<Self>)
        ensures
            match last_slash(self@) {
                Some(i) => r is Some && r->0@ == self@.take(i),
                None => r is None,
            },
    {
        proof {
            use_type_invariant(self);
        }
        let chars = chars_of(self.0.as_str());
        match rfind_slash(&chars) {
            Some(i) => {
                let st = self.0.as_str();
                assert(st@ == self@);
                assert(i > 0);
                let sub = st.substring_char(0, i);
                assert(sub@ == self@.subrange(0, i as int));
                let r = VfsPath(sub.to_owned());
                assert(r@ == sub@);
                Some(r)
            },
            None => None,
        }
    }

    /// The text after the last `'/'`, or the whole path when it has none.
    pub fn file_name(&self) -> (r: Option<&str>)
        ensures
            r is Some,
            r->0@ == match last_slash(self@) {
                Some(i) => self@.subrange(i + 1, self@.len() as int),
                None => self@,
            },
    {
        let chars = chars_of(self.0.as_str());
        match rfind_slash(&chars) {
            Some(i) => {
                let n = chars.len();
                assert(i < n);
                let st = self.0.as_str();
                Some(st.substring_char(i + 1, n))
            },
            None => Some(self.0.as_str()),
        }
    }

    /// Join with another path component and validate the result: what
    /// `VfsPath::new` gives for the path, a `/` and the component (see
    /// `law_join_is_new_of_joined`).
    pub fn join(&self, other: &str) -> (r: Result<Self, VfsError>)
        ensures
            path_form(self@),
            ({
                let combined = self@ + seq!['/'] + other@;
                match path_outcome(combined, (encode_utf8(combined).len() as usize) as nat) {
                    Ok(p) => r is Ok && r->Ok_0@ == p,
                    Err(reason) => r matches Err(VfsError::InvalidPath { path: p, reason: why })
                        && p@ == combined && why@ == reason,
                }
            }),
    {
        proof {
            use_type_invariant(self);
        }
        let mut combined = String::new();
        push_str(&mut combined, self.0.as_str());
        push_char(&mut combined, '/');
        push_str(&mut combined, other);
        let ghost expect = self@ + seq!['/'] + other@;
        assert(combined@ =~= expect);
        let cs = combined.as_str();
        assert(cs@ == expect);
        Self::new(cs)
    }

    /// The path as an owned string.
    pub fn to_string(&self) -> (r: String)
        ensures
            r@ == self@,
    {
        self.0.clone()
    }
}

/// The text `VfsPath::join` validates: the other part alone after an empty
/// path, else the path, a `/` and the other part.
pub open spec fn join_text(q: Seq<char>, other: Seq<char>) -> Seq<char> {
    if q.len() == 0 {
        other
    } else {
        q + seq!['/'] + other
    }
}

/// `q.join(other)` is held to exactly the outcome `VfsPath::new` is held to
/// for the text `q/other`: for every string `t` with those characters, the
/// outcome of `VfsPath::new(t)` is the outcome of `q.join(other)`.
pub proof fn law_join_is_new_of_joined(q: Seq<char>, other: &str, t: &str)
    requires
        t@ == join_text(q, other@),
    ensures
        path_outcome(t@, t.len() as nat) == path_outcome(
            join_text(q, other@),
            (encode_utf8(join_text(q, other@)).len() as usize) as nat,
        ),
{
    assert(t.len() == (encode_utf8(t@).len() as usize));
}

/// The index of the last `'/'` in `v`, if any.
pub(crate) fn rfind_slash(v: &Vec<char>) -> (r: Option<usize>)
    ensures
        r matches Some(i) ==> i < v@.len() && v@[i as int] == '/' && last_slash(v@) == Some(
            i as int,
        ),
        r is None ==> last_slash(v@) is None,
{
    proof {
        lemma_last_slash(v@);
    }
    let mut i: usize = v.len();
    while i > 0
        invariant
            i <= v.len(),
            forall|j: int| i <= j < v.len() ==> v@[j] != '/',
        decreases i,
    {
        if v[i - 1] == '/' {
            proof {
                lemma_last_slash(v@);
                if last_slash(v@) is None {
                    assert(v@[i - 1] != '/');
                }
                let k = last_slash(v@)->0;
                if k > i - 1 {
                    assert(v@[k] != '/');
                }
                if k < i - 1 {
                    assert(v@[i - 1] != '/');
                }
            }
            return Some(i - 1);
        }
        i = i - 1;
    }
    proof {
        if let Some(k) = last_slash(v@) {
            assert(v@[k] == '/');
        }
    }
    None
}

/// The message of an error, led by its code.
pub open spec fn error_text(e: VfsError) -> Seq<char> {
    match e {
        VfsError::NotFound { path } => "ENOENT: no such file or directory: "@ + path@,
        VfsError::PermissionDenied { path } => "EACCES: permission denied: "@ + path@,
        VfsError::AlreadyExists { path } => "EEXIST: file already exists: "@ + path@,
        VfsError::InvalidPath { path, reason } => "EINVAL: "@ + reason@ + ": "@ + path@,
        VfsError::QuotaExceeded { resource, limit, current } => "EQUOTA: quota exceeded for "@
            + resource@ + ": limit="@ + crate::text::decimal(limit as nat) + ", current="@
            + crate::text::decimal(current as nat),
        VfsError::IoError(e) => "EIO: I/O error: "@ + e@,
        VfsError::NotSupported { feature } => "ENOTSUP: operation not supported: "@
            + feature@,
    }
}

impl VfsError {
    /// The Node.js-style error code.
    pub fn code(&self) -> (r: &'static str)
        ensures
            r@ == match self {
                VfsError::NotFound { .. } => "ENOENT"@,
                VfsError::PermissionDenied { .. } => "EACCES"@,
                VfsError::AlreadyExists { .. } => "EEXIST"@,
                VfsError::InvalidPath { .. } => "EINVAL"@,
                VfsError::QuotaExceeded { .. } => "EQUOTA"@,
                VfsError::IoError(..) => "EIO"@,
                VfsError::NotSupported { .. } => "ENOTSUP"@,
            },
    {
        match self {
            VfsError::NotFound { .. } => "ENOENT",
            VfsError::PermissionDenied { .. } => "EACCES",
            VfsError::AlreadyExists { .. } => "EEXIST",
            VfsError::InvalidPath { .. } => "EINVAL",
            VfsError::QuotaExceeded { .. } => "EQUOTA",
            VfsError::IoError(..) => "EIO",
            VfsError::NotSupported { .. } => "ENOTSUP",
        }
    }

    /// The path the error is about, if any.
    pub fn path(&self) -> (r: Option<&str>)
        ensures
            match self {
                VfsError::NotFound { path } => r is Some && r->0@ == path@,
                VfsError::PermissionDenied { path } => r is Some && r->0@ == path@,
                VfsError::AlreadyExists { path } => r is Some && r->0@ == path@,
                VfsError::InvalidPath { path, .. } => r is Some && r->0@ == path@,
                _ => r is None,
            },
    {
        match self {
            VfsError::NotFound { path } => Some(path.as_str()),
            VfsError::PermissionDenied { path } => Some(path.as_str()),
            VfsError::AlreadyExists { path } => Some(path.as_str()),
            VfsError::InvalidPath { path, .. } => Some(path.as_str()),
            _ => None,
        }
    }

    /// The error message, led by its code.
    pub fn to_string(&self) -> (r: String)
        ensures
            r@ == error_text(*self),
    {
        let mut s = String::new();
        match self {
            VfsError::NotFound { path } => {
                push_str(&mut s, "ENOENT: no such file or directory: ");
                push_str(&mut s, path.as_str());
            },
            VfsError::PermissionDenied { path } => {
                push_str(&mut s, "EACCES: permission denied: ");
                push_str(&mut s, path.as_str());
            },
            VfsError::AlreadyExists { path } => {
                push_str(&mut s, "EEXIST: file already exists: ");
                push_str(&mut s, path.as_str());
            },
            VfsError::InvalidPath { path, reason } => {
                push_str(&mut s, "EINVAL: ");
                push_str(&mut s, reason.as_str());
                push_str(&mut s, ": ");
                push_str(&mut s, path.as_str());
            },
            VfsError::QuotaExceeded { resource, limit, current } => {
                push_str(&mut s, "EQUOTA: quota exceeded for ");
                push_str(&mut s, resource.as_str());
                push_str(&mut s, ": limit=");
                push_decimal(&mut s, *limit as u64);
                push_str(&mut s, ", current=");
                push_decimal(&mut s, *current as u64);
            },
            VfsError::IoError(e) => {
                push_str(&mut s, "EIO: I/O error: ");
                push_str(&mut s, e.as_str());
            },
            VfsError::NotSupported { feature } => {
                push_str(&mut s, "ENOTSUP: operation not supported: ");
                push_str(&mut s, feature.as_str());
            },
        }
        s
    }
}

#[verifier::external_type_specification]
#[verifier::external_body]
pub struct ExSystemTime(std::time::SystemTime);

/// Copying a `SystemTime` (a `Copy` type) gives the same instant.
pub assume_specification[<std::time::SystemTime as Clone>::clone](t: &std::time::SystemTime) -> (r: std::time::SystemTime)
    ensures
        r == *t,
;

/// The current time (`std::time::SystemTime::now`); nothing is promised of it.
#[verifier::external_body]
pub(crate) fn system_now() -> std::time::SystemTime {
    std::time::SystemTime::now()
}

/// File metadata and content.
#[derive(Debug, Clone)]
pub struct VfsFile {
    /// File content as raw bytes
    pub content: Vec<u8>,
    /// File creation time
    pub created_at: std::time::SystemTime,
    /// Last modification time
    pub modified_at: std::time::SystemTime,
    /// File size in bytes (equal to the content length)
    pub size: usize,
}

impl VfsFile {
    /// A copy of this file: the same content, size and times.
    pub(crate) fn duplicate(&self) -> (r: Self)
        ensures
            r.content@ == self.content@,
            r.size == self.size,
    {
        VfsFile {
            content: vstd::slice::slice_to_vec(self.content.as_slice()),
            created_at: self.created_at,
            modified_at: self.modified_at,
            size: self.size,
        }
    }

    /// A file with the given content, created and modified now.
    pub fn new(content: Vec<u8>) -> (r: Self)
        ensures
            r.content@ == content@,
            r.size == content@.len(),
            r.created_at == r.modified_at,
    {
        let now = system_now();
        let size = content.len();
        VfsFile { content, created_at: now, modified_at: now, size }
    }

    /// Replace the content and update the size and modification time.
    pub fn update_content(&mut self, content: Vec<u8>)
        ensures
            final(self).content@ == content@,
            final(self).size == content@.len(),
            final(self).created_at == old(self).created_at,
    {
        self.size = content.len();
        self.content = content;
        self.modified_at = system_now();
    }
}

/// Resource limits for VFS operations.
#[derive(Debug, Clone, Copy, PartialEq, Eq, Structural)]
pub struct ResourceLimits {
    /// Maximum size of a single file in bytes (default: 10MB)
    pub file_size_bytes_max: u32,
    /// Maximum total storage per namespace in bytes (default: 100MB)
    pub total_storage_bytes_max: u32,
    /// Maximum number of files per namespace (default: 1000)
    pub files_count_max: u32,
}

impl Default for ResourceLimits {
    fn default() -> (r: Self)
        ensures
            r == (ResourceLimits {
                file_size_bytes_max: 10485760u32,
                total_storage_bytes_max: 104857600u32,
                files_count_max: 1000,
            }),
    {
        ResourceLimits {
            file_size_bytes_max: 10 * 1024 * 1024,
            total_storage_bytes_max: 100 * 1024 * 1024,
            files_count_max: 1000,
        }
    }
}

impl ResourceLimits {
    /// Limits with the given values.
    pub fn new(file_size_bytes_max: u32, total_storage_bytes_max: u32, files_count_max: u32) -> (r:
        Self)
        ensures
            r == (ResourceLimits { file_size_bytes_max, total_storage_bytes_max, files_count_max }),
    {
        ResourceLimits { file_size_bytes_max, total_storage_bytes_max, files_count_max }
    }

    /// Very small limits for testing.
    pub fn test_limits() -> (r: Self)
        ensures
            r == (ResourceLimits {
                file_size_bytes_max: 100,
                total_storage_bytes_max: 500,
                files_count_max: 5,
            }),
    {
        ResourceLimits { file_size_bytes_max: 100, total_storage_bytes_max: 500, files_count_max: 5 }
    }
}

// ---------------------------------------------------------------------------
// The normal form of paths
// ---------------------------------------------------------------------------

/// Whether a piece holds no `'/'`.
pub open spec fn slash_free(x: Seq<char>) -> bool {
    forall|j: int| 0 <= j < x.len() ==> #[trigger] x[j] != '/'
}

/// Whether every piece is non-empty and holds no `'/'`.
pub open spec fn proper_segments(t: Seq<Seq<char>>) -> bool {
    forall|i: int| 0 <= i < t.len() ==> #[trigger] t[i].len() > 0 && slash_free(t[i])
}

proof fn lemma_split_slash_free(b: Seq<char>)
    requires
        slash_free(b),
    ensures
        split_slash(b) == seq![b],
    decreases b.len(),
{
    if b.len() == 0 {
        assert(b =~= Seq::<char>::empty());
    } else {
        let c = b.last();
        assert(b[b.len() - 1] == c);
        lemma_split_slash_free(b.drop_last());
        assert(b.drop_last().push(c) =~= b);
        assert(split_slash(b) =~= seq![b]);
    }
}

proof fn lemma_split_after_slash(a: Seq<char>, b: Seq<char>)
    requires
        slash_free(b),
    ensures
        split_slash(a + seq!['/'] + b) == split_slash(a).push(b),
    decreases b.len(),
{
    if b.len() == 0 {
        assert(a + seq!['/'] + b =~= a.push('/'));
        assert((a.push('/')).drop_last() =~= a);
        assert(b =~= Seq::<char>::empty());
    } else {
        let c = b.last();
        assert(b[b.len() - 1] == c);
        let s = a + seq!['/'] + b;
        assert(s.drop_last() =~= a + seq!['/'] + b.drop_last());
        assert(s.last() == c);
        lemma_split_after_slash(a, b.drop_last());
        assert(b.drop_last().push(c) =~= b);
        assert(split_slash(s) =~= split_slash(a).push(b));
    }
}

proof fn lemma_split_join(t: Seq<Seq<char>>)
    requires
        t.len() >= 1,
        forall|i: int| 0 <= i < t.len() ==> slash_free(#[trigger] t[i]),
    ensures
        split_slash(join_slash(t)) == t,
    decreases t.len(),
{
    if t.len() == 1 {
        lemma_split_slash_free(t[0]);
        assert(t =~= seq![t[0]]);
    } else {
        let u = t.drop_last();
        assert(slash_free(t[t.len() - 1]));
        lemma_split_join(u);
        lemma_split_after_slash(join_slash(u), t.last());
        assert(u.push(t.last()) =~= t);
    }
}

proof fn lemma_filter_all_nonempty(t: Seq<Seq<char>>)
    requires
        forall|i: int| 0 <= i < t.len() ==> #[trigger] t[i].len() > 0,
    ensures
        t.filter(nonempty_seg()) == t,
    decreases t.len(),
{
    reveal_with_fuel(Seq::filter, 1);
    if t.len() > 0 {
        lemma_filter_all_nonempty(t.drop_last());
        assert(t[t.len() - 1].len() > 0);
        assert(t.drop_last().push(t.last()) =~= t);
    }
}

proof fn lemma_split_pieces_slash_free(s: Seq<char>)
    ensures
        forall|i: int| 0 <= i < split_slash(s).len() ==> slash_free(#[trigger] split_slash(s)[i]),
    decreases s.len(),
{
    if s.len() > 0 {
        let t = split_slash(s.drop_last());
        lemma_split_pieces_slash_free(s.drop_last());
        lemma_split_nonempty(s.drop_last());
        if s.last() != '/' {
            let x = t.last().push(s.last());
            assert(slash_free(t[t.len() - 1]));
            assert(slash_free(x));
        } else {
            assert(slash_free(Seq::<char>::empty()));
        }
    }
}

proof fn lemma_filter_proper(t: Seq<Seq<char>>)
    requires
        forall|i: int| 0 <= i < t.len() ==> slash_free(#[trigger] t[i]),
    ensures
        proper_segments(t.filter(nonempty_seg())),
    decreases t.len(),
{
    reveal_with_fuel(Seq::filter, 1);
    if t.len() > 0 {
        lemma_filter_proper(t.drop_last());
        assert(slash_free(t[t.len() - 1]));
    }
}

/// The segments of any path are non-empty and slash-free.
pub proof fn lemma_segments_proper(s: Seq<char>)
    ensures
        proper_segments(path_segments(s)),
{
    lemma_split_pieces_slash_free(s);
    lemma_filter_proper(split_slash(s));
}

/// Joining proper segments and splitting again gives them back.
pub proof fn lemma_segments_of_join(t: Seq<Seq<char>>)
    requires
        proper_segments(t),
    ensures
        path_segments(join_slash(t)) == t,
{
    if t.len() == 0 {
        assert(split_slash(Seq::<char>::empty()) == seq![Seq::<char>::empty()]);
        reveal_with_fuel(Seq::filter, 2);
        assert(seq![Seq::<char>::empty()].drop_last() =~= Seq::<Seq<char>>::empty());
    } else {
        assert forall|i: int| 0 <= i < t.len() implies slash_free(#[trigger] t[i]) by {
            assert(t[i].len() > 0);
        }
        lemma_split_join(t);
        assert forall|i: int| 0 <= i < t.len() implies #[trigger] t[i].len() > 0 by {
            assert(slash_free(t[i]));
        }
        lemma_filter_all_nonempty(t);
    }
}

/// Normalizing is idempotent, and keeps the segments.
pub proof fn law_normalized_idempotent(s: Seq<char>)
    ensures
        path_segments(normalized(s)) == path_segments(s),
        normalized(normalized(s)) == normalized(s),
{
    lemma_segments_proper(s);
    lemma_segments_of_join(path_segments(s));
}

/// What `VfsPath::new` accepts is in normal form: it is the path with its
/// empty segments removed, holds no null character and no `..` segment,
/// is not empty, and normalizing it again changes nothing.
pub proof fn law_path_normal_form(s: Seq<char>, byte_len: nat)
    requires
        path_outcome(s, byte_len) is Ok,
    ensures
        ({
            let p = path_outcome(s, byte_len)->Ok_0;
            &&& p == normalized(s)
            &&& p.len() > 0
            &&& path_segments(p) == path_segments(s)
            &&& normalized(p) == p
            &&& !path_segments(p).contains(dot_dot())
            &&& proper_segments(path_segments(p))
        }),
{
    law_normalized_idempotent(s);
    lemma_segments_proper(s);
}

proof fn lemma_split_pieces_null_free(s: Seq<char>)
    requires
        !s.contains('\0'),
    ensures
        forall|i: int| 0 <= i < split_slash(s).len() ==> !(#[trigger] split_slash(s)[i]).contains('\0'),
    decreases s.len(),
{
    if s.len() > 0 {
        let t = split_slash(s.drop_last());
        assert forall|k: int| 0 <= k < s.drop_last().len() implies s.drop_last()[k] != '\0' by {
            assert(s.drop_last()[k] == s[k]);
        }
        lemma_split_pieces_null_free(s.drop_last());
        lemma_split_nonempty(s.drop_last());
        assert(s.last() == s[s.len() - 1]);
        if s.last() != '/' {
            let x = t.last().push(s.last());
            assert(!t[t.len() - 1].contains('\0'));
            assert forall|k: int| 0 <= k < x.len() implies x[k] != '\0' by {
                if k < x.len() - 1 {
                    assert(x[k] == t[t.len() - 1][k]);
                }
            }
        } else {
            assert(!Seq::<char>::empty().contains('\0'));
        }
    }
}

proof fn lemma_join_null_free(t: Seq<Seq<char>>)
    requires
        forall|i: int| 0 <= i < t.len() ==> !(#[trigger] t[i]).contains('\0'),
    ensures
        !join_slash(t).contains('\0'),
    decreases t.len(),
{
    if t.len() > 1 {
        lemma_join_null_free(t.drop_last());
        let a = join_slash(t.drop_last());
        let b = t.last();
        assert(!t[t.len() - 1].contains('\0'));
        let j = a + seq!['/'] + b;
        assert forall|k: int| 0 <= k < j.len() implies j[k] != '\0' by {
            if k < a.len() {
                assert(j[k] == a[k]);
            } else if k > a.len() {
                assert(j[k] == b[k - a.len() - 1]);
            }
        }
    } else if t.len() == 1 {
        assert(!t[0].contains('\0'));
    }
}

proof fn lemma_join_first(t: Seq<Seq<char>>)
    requires
        t.len() > 0,
        proper_segments(t),
    ensures
        join_slash(t).len() > 0,
        join_slash(t)[0] == t[0][0],
    decreases t.len(),
{
    if t.len() > 1 {
        lemma_join_first(t.drop_last());
        assert(t.drop_last()[0] == t[0]);
    }
}

/// What `VfsPath::new` accepts has the form of every path: not empty and
/// not starting with `/`.
pub proof fn lemma_accepted_path_form(s: Seq<char>, byte_len: nat)
    requires
        path_outcome(s, byte_len) is Ok,
    ensures
        path_form(path_outcome(s, byte_len)->Ok_0),
{
    law_path_normal_form(s, byte_len);
    let t = path_segments(s);
    if t.len() == 0 {
        assert(join_slash(t).len() == 0);
    } else {
        lemma_join_first(t);
        assert(t[0].len() > 0 && slash_free(t[0]));
        assert(t[0][0] != '/');
    }
}

/// Whether `s` has two slashes in a row.
pub open spec fn has_double_slash(s: Seq<char>) -> bool {
    exists|i: int| 0 <= i < s.len() - 1 && s[i] == '/' && #[trigger] s[i + 1] == '/'
}

proof fn lemma_join_chars(t: Seq<Seq<char>>)
    requires
        t.len() > 0,
        proper_segments(t),
    ensures
        join_slash(t).len() > 0,
        join_slash(t)[0] != '/',
        join_slash(t).last() != '/',
        !has_double_slash(join_slash(t)),
    decreases t.len(),
{
    lemma_join_first(t);
    assert(t[0].len() > 0 && slash_free(t[0]));
    assert(t[0][0] != '/');
    if t.len() == 1 {
        assert(slash_free(t[0]));
        assert(t[0].last() == t[0][t[0].len() - 1]);
        if has_double_slash(t[0]) {
            let i = choose|i: int| 0 <= i < t[0].len() - 1 && t[0][i] == '/' && #[trigger] t[0][i + 1] == '/';
            assert(t[0][i] != '/');
        }
    } else {
        let u = t.drop_last();
        assert forall|i: int| 0 <= i < u.len() implies #[trigger] u[i].len() > 0 && slash_free(u[i]) by {
            assert(u[i] == t[i]);
        }
        lemma_join_chars(u);
        let a = join_slash(u);
        let b = t.last();
        assert(b == t[t.len() - 1]);
        assert(b.len() > 0 && slash_free(b));
        let j = a + seq!['/'] + b;
        assert(join_slash(t) == j);
        assert(j.last() == b[b.len() - 1]);
        assert(j[0] == a[0]);
        if has_double_slash(j) {
            let i = choose|i: int| 0 <= i < j.len() - 1 && j[i] == '/' && #[trigger] j[i + 1] == '/';
            if i + 1 < a.len() {
                assert(j[i] == a[i] && j[i + 1] == a[i + 1]);
                assert(has_double_slash(a));
            } else if i + 1 == a.len() {
                assert(j[i] == a.last());
            } else if i == a.len() {
                assert(j[i + 1] == b[0]);
            } else {
                assert(j[i] == b[i - a.len() - 1]);
            }
        }
    }
}

/// What `VfsPath::new` accepts, character by character: not empty, no
/// leading or trailing `/`, no two slashes in a row, no null character,
/// no `..` segment, and within the length limit.
pub proof fn law_accepted_path_characters(s: Seq<char>, byte_len: nat)
    requires
        path_outcome(s, byte_len) is Ok,
    ensures
        ({
            let q = path_outcome(s, byte_len)->Ok_0;
            &&& q.len() > 0
            &&& q[0] != '/'
            &&& q.last() != '/'
            &&& !has_double_slash(q)
            &&& !q.contains('\0')
            &&& !path_segments(q).contains(dot_dot())
            &&& byte_len <= MAX_PATH_LENGTH
        }),
{
    let q = path_outcome(s, byte_len)->Ok_0;
    law_path_normal_form(s, byte_len);
    let t = path_segments(s);
    if t.len() == 0 {
        assert(join_slash(t).len() == 0);
    }
    lemma_join_chars(t);
    law_new_idempotent(s, byte_len, 0);
}

/// Validating a path that `VfsPath::new` accepted gives it back unchanged
/// (for any byte length within the limit; a normalized path is never longer
/// than the path it came from).
pub proof fn law_new_idempotent(s: Seq<char>, byte_len: nat, byte_len2: nat)
    requires
        path_outcome(s, byte_len) is Ok,
        byte_len2 <= MAX_PATH_LENGTH,
    ensures
        path_outcome(path_outcome(s, byte_len)->Ok_0, byte_len2) == path_outcome(s, byte_len),
{
    let q = path_outcome(s, byte_len)->Ok_0;
    law_path_normal_form(s, byte_len);
    lemma_split_pieces_null_free(s);
    let t = split_slash(s);
    let f = path_segments(s);
    assert forall|i: int| 0 <= i < f.len() implies !(#[trigger] f[i]).contains('\0') by {
        t.lemma_filter_contains_rev(nonempty_seg(), f[i]);
        assert(f.contains(f[i]));
        let k = choose|k: int| 0 <= k < t.len() && t[k] == f[i];
        assert(!t[k].contains('\0'));
    }
    lemma_join_null_free(f);
}

proof fn lemma_join_prefix_first(t: Seq<Seq<char>>, x: Seq<char>)
    requires
        t.len() >= 1,
    ensures
        join_slash(t.update(0, x + t[0])) == x + join_slash(t),
    decreases t.len(),
{
    let u = t.update(0, x + t[0]);
    if t.len() == 1 {
        assert(u[0] == x + t[0]);
    } else {
        lemma_join_prefix_first(t.drop_last(), x);
        assert(u.drop_last() =~= t.drop_last().update(0, x + t[0]));
        assert(u.last() == t.last());
        assert(join_slash(u) =~= x + join_slash(t));
    }
}

/// A key `prefix + path`, for a non-empty slash-free `prefix` and a
/// normalized non-empty `path`, is itself normalized: its segments are the
/// path's, the first one led by the prefix.
pub proof fn lemma_prefixed_normalized(prefix: Seq<char>, p: Seq<char>)
    requires
        prefix.len() > 0,
        slash_free(prefix),
        p == normalized(p),
        p.len() > 0,
    ensures
        normalized(prefix + p) == prefix + p,
        path_segments(prefix + p) == path_segments(p).update(0, prefix + path_segments(p)[0]),
{
    let t = path_segments(p);
    lemma_segments_proper(p);
    assert(t.len() > 0) by {
        if t.len() == 0 {
            assert(join_slash(t).len() == 0);
        }
    }
    let u = t.update(0, prefix + t[0]);
    lemma_join_prefix_first(t, prefix);
    assert(slash_free(t[0]));
    assert(proper_segments(u)) by {
        assert forall|i: int| 0 <= i < u.len() implies #[trigger] u[i].len() > 0 && slash_free(u[i]) by {
            if i == 0 {
                assert forall|j: int| 0 <= j < u[0].len() implies #[trigger] u[0][j] != '/' by {
                    if j < prefix.len() {
                        assert(u[0][j] == prefix[j]);
                    } else {
                        assert(u[0][j] == t[0][j - prefix.len()]);
                    }
                }
            } else {
                assert(u[i] == t[i]);
            }
        }
    }
    lemma_segments_of_join(u);
}

} // verus!
