//! Per-tenant VFS namespaces.
//!
//! A namespace is derived from the application hostname and becomes a
//! directory name or key prefix, so distinct hostnames must never share
//! one: the mapping is injective on lowercased hostnames. The DNS charset
//! `[a-z0-9.-]` is kept verbatim and every other byte is escaped as `_XX_`
//! (lowercase hex); results that would be empty, `.` or `..` are escaped in
//! full (`_empty_` for the empty hostname).
use vstd::prelude::*;
use vstd::utf8::encode_utf8;
use crate::text::{hex_char, lowercase_of, push_str, string_of, to_lowercase};
use crate::vfs::memory::{is_dir_listing, write_step, BackendState, MemoryBackend};
use crate::vfs::types::{
    lemma_prefixed_normalized, normalized, path_outcome, slash_free, ResourceLimits, VfsError, VfsFile, VfsPath,
};

verus! {

/// Whether a byte is kept verbatim: `a`-`z`, `0`-`9`, `.` or `-`.
pub open spec fn kept_byte(b: u8) -> bool {
    (97 <= b <= 122) || (48 <= b <= 57) || b == 46 || b == 45
}

/// The escape of a byte: `_`, its two lowercase hex digits, `_`.
pub open spec fn escape_byte(b: u8) -> Seq<char> {
    seq!['_', hex_char((b / 16) as nat), hex_char((b % 16) as nat), '_']
}

/// The encoding of one byte: itself when kept, its escape otherwise.
pub open spec fn encode_byte(b: u8) -> Seq<char> {
    if kept_byte(b) {
        seq![b as char]
    } else {
        escape_byte(b)
    }
}

/// The byte-by-byte encoding of a byte string.
pub open spec fn encode_bytes(bs: Seq<u8>) -> Seq<char>
    decreases bs.len(),
{
    if bs.len() == 0 {
        Seq::empty()
    } else {
        encode_bytes(bs.drop_last()) + encode_byte(bs.last())
    }
}

/// Every byte escaped.
pub open spec fn escape_all(bs: Seq<u8>) -> Seq<char>
    decreases bs.len(),
{
    if bs.len() == 0 {
        Seq::empty()
    } else {
        escape_all(bs.drop_last()) + escape_byte(bs.last())
    }
}

/// The text used when nothing else is left.
pub open spec fn empty_marker() -> Seq<char> {
    seq!['_', 'e', 'm', 'p', 't', 'y', '_']
}

/// The namespace of a (lowercased) hostname's bytes.
pub open spec fn namespace_of_bytes(bs: Seq<u8>) -> Seq<char> {
    let o = encode_bytes(bs);
    if o.len() == 0 || o == seq!['.'] || o == seq!['.', '.'] {
        let f = escape_all(bs);
        if f.len() == 0 {
            empty_marker()
        } else {
            f
        }
    } else {
        o
    }
}

/// The namespace of a hostname: that of the UTF-8 bytes of its lowercase
/// form.
pub open spec fn namespace_of(hostname: Seq<char>) -> Seq<char> {
    namespace_of_bytes(encode_utf8(lowercase_of(hostname)))
}

/// A namespace for VFS isolation, derived from an application hostname.
#[derive(Debug, Clone, PartialEq, Eq, Hash)]
pub struct VfsNamespace(String);

impl View for VfsNamespace {
    type V = Seq<char>;

    closed spec fn view(&self) -> Seq<char> {
        self.0@
    }
}

fn push_escape(out: &mut Vec<char>, b: u8)
    ensures
        final(out)@ == old(out)@ + escape_byte(b),
{
    out.push('_');
    out.push(crate::text::hex_of(b / 16));
    out.push(crate::text::hex_of(b % 16));
    out.push('_');
    assert(final(out)@ =~= old(out)@ + escape_byte(b));
}

fn kept(b: u8) -> (r: bool)
    ensures
        r == kept_byte(b),
{
    (97 <= b && b <= 122) || (48 <= b && b <= 57) || b == 46 || b == 45
}

impl VfsNamespace {
    /// The namespace of a hostname (see `namespace_of`).
    pub fn from_hostname(hostname: &str) -> (r: Self)
        ensures
            r@ == namespace_of(hostname@),
    {
        let lower = to_lowercase(hostname);
        let bytes = lower.as_str().as_bytes();
        let ghost bs = bytes@;
        let mut out: Vec<char> = Vec::new();
        let mut i: usize = 0;
        while i < bytes.len()
            invariant
                i <= bytes.len(),
                bs == bytes@,
                out@ == encode_bytes(bs.take(i as int)),
            decreases bytes.len() - i,
        {
            let b = bytes[i];
            proof {
                assert(bs.take(i + 1).drop_last() =~= bs.take(i as int));
            }
            if kept(b) {
                out.push(b as char);
                assert(out@ =~= encode_bytes(bs.take(i as int)) + seq![b as char]);
            } else {
                push_escape(&mut out, b);
            }
            i = i + 1;
        }
        assert(bs.take(bytes.len() as int) =~= bs);
        let special = out.len() == 0 || (out.len() == 1 && out[0] == '.') || (out.len() == 2
            && out[0] == '.' && out[1] == '.');
        proof {
            if out@ == seq!['.'] || out@ == seq!['.', '.'] {
                assert(special);
            }
            if special {
                if out@.len() == 1 {
                    assert(out@ =~= seq!['.']);
                }
                if out@.len() == 2 {
                    assert(out@ =~= seq!['.', '.']);
                }
            }
        }
        if special {
            let mut f: Vec<char> = Vec::new();
            let mut j: usize = 0;
            while j < bytes.len()
                invariant
                    j <= bytes.len(),
                    bs == bytes@,
                    f@ == escape_all(bs.take(j as int)),
                decreases bytes.len() - j,
            {
                proof {
                    assert(bs.take(j + 1).drop_last() =~= bs.take(j as int));
                }
                push_escape(&mut f, bytes[j]);
                j = j + 1;
            }
            assert(bs.take(bytes.len() as int) =~= bs);
            if f.len() == 0 {
                let mut e: Vec<char> = Vec::new();
                e.push('_');
                e.push('e');
                e.push('m');
                e.push('p');
                e.push('t');
                e.push('y');
                e.push('_');
                assert(e@ =~= empty_marker());
                return VfsNamespace(string_of(&e));
            }
            return VfsNamespace(string_of(&f));
        }
        VfsNamespace(string_of(&out))
    }

    /// The namespace text.
    pub fn as_str(&self) -> (r: &str)
        ensures
            r@ == self@,
    {
        self.0.as_str()
    }

    /// The namespace text as an owned string.
    pub fn to_string(&self) -> (r: String)
        ensures
            r@ == self@,
    {
        self.0.clone()
    }
}

// ---------------------------------------------------------------------------
// Injectivity
// ---------------------------------------------------------------------------

proof fn lemma_hex_char_injective(x: nat, y: nat)
    requires
        x < 16,
        y < 16,
        hex_char(x) == hex_char(y),
    ensures
        x == y,
{
}

proof fn lemma_escape_byte_injective(a: u8, b: u8)
    requires
        escape_byte(a) == escape_byte(b),
    ensures
        a == b,
{
    assert(escape_byte(a)[1] == escape_byte(b)[1]);
    assert(escape_byte(a)[2] == escape_byte(b)[2]);
    lemma_hex_char_injective((a / 16) as nat, (b / 16) as nat);
    lemma_hex_char_injective((a % 16) as nat, (b % 16) as nat);
}

proof fn lemma_encode_byte_shape(b: u8)
    ensures
        kept_byte(b) ==> encode_byte(b).len() == 1 && encode_byte(b).last() != '_',
        !kept_byte(b) ==> encode_byte(b).len() == 4 && encode_byte(b).last() == '_',
{
}

proof fn lemma_encode_len(bs: Seq<u8>)
    ensures
        encode_bytes(bs).len() >= bs.len(),
        escape_all(bs).len() == 4 * bs.len(),
    decreases bs.len(),
{
    if bs.len() > 0 {
        lemma_encode_len(bs.drop_last());
        lemma_encode_byte_shape(bs.last());
    }
}

/// The byte-by-byte encoding is injective.
proof fn lemma_encode_bytes_injective(a: Seq<u8>, b: Seq<u8>)
    requires
        encode_bytes(a) == encode_bytes(b),
    ensures
        a == b,
    decreases a.len() + b.len(),
{
    lemma_encode_len(a);
    lemma_encode_len(b);
    if a.len() == 0 || b.len() == 0 {
        if a.len() > 0 {
            lemma_encode_byte_shape(a.last());
        }
        if b.len() > 0 {
            lemma_encode_byte_shape(b.last());
        }
        assert(a =~= b);
    } else {
        let (x, y) = (a.last(), b.last());
        let (ea, eb) = (encode_bytes(a), encode_bytes(b));
        let (pa, pb) = (encode_bytes(a.drop_last()), encode_bytes(b.drop_last()));
        lemma_encode_byte_shape(x);
        lemma_encode_byte_shape(y);
        assert(ea == pa + encode_byte(x));
        assert(eb == pb + encode_byte(y));
        assert(ea.last() == encode_byte(x).last());
        assert(eb.last() == encode_byte(y).last());
        assert(kept_byte(x) == kept_byte(y));
        let k = encode_byte(x).len();
        assert(ea.subrange(ea.len() - k, ea.len() as int) =~= encode_byte(x));
        assert(eb.subrange(eb.len() - k, eb.len() as int) =~= encode_byte(y));
        assert(ea.subrange(0, ea.len() - k) =~= pa);
        assert(eb.subrange(0, eb.len() - k) =~= pb);
        if kept_byte(x) {
            assert(encode_byte(x)[0] == encode_byte(y)[0]);
            assert((x as char) == (y as char));
            assert(x == y);
        } else {
            lemma_escape_byte_injective(x, y);
        }
        lemma_encode_bytes_injective(a.drop_last(), b.drop_last());
        assert(a =~= a.drop_last().push(x));
        assert(b =~= b.drop_last().push(y));
    }
}

/// Escaping every byte is injective.
proof fn lemma_escape_all_injective(a: Seq<u8>, b: Seq<u8>)
    requires
        escape_all(a) == escape_all(b),
    ensures
        a == b,
    decreases a.len(),
{
    lemma_encode_len(a);
    lemma_encode_len(b);
    if a.len() == 0 {
        assert(a =~= b);
    } else {
        let (ea, eb) = (escape_all(a), escape_all(b));
        assert(ea.subrange(ea.len() - 4, ea.len() as int) =~= escape_byte(a.last()));
        assert(eb.subrange(eb.len() - 4, eb.len() as int) =~= escape_byte(b.last()));
        assert(ea.subrange(0, ea.len() - 4) =~= escape_all(a.drop_last()));
        assert(eb.subrange(0, eb.len() - 4) =~= escape_all(b.drop_last()));
        lemma_escape_byte_injective(a.last(), b.last());
        lemma_escape_all_injective(a.drop_last(), b.drop_last());
        assert(a =~= a.drop_last().push(a.last()));
        assert(b =~= b.drop_last().push(b.last()));
    }
}

/// The bytes whose plain encoding is empty, `.` or `..`.
proof fn lemma_special_bytes(bs: Seq<u8>)
    requires
        encode_bytes(bs).len() == 0 || encode_bytes(bs) == seq!['.'] || encode_bytes(bs) == seq![
            '.',
            '.',
        ],
    ensures
        bs.len() <= 2,
        forall|i: int| 0 <= i < bs.len() ==> bs[i] == 46,
    decreases bs.len(),
{
    lemma_encode_len(bs);
    if bs.len() > 0 {
        let e = encode_bytes(bs);
        let x = bs.last();
        lemma_encode_byte_shape(x);
        assert(e == encode_bytes(bs.drop_last()) + encode_byte(x));
        assert(e.last() == encode_byte(x).last());
        assert(kept_byte(x));
        assert((x as char) == '.');
        assert(x == 46);
        let p = encode_bytes(bs.drop_last());
        assert(p =~= e.subrange(0, e.len() - 1));
        if e.len() == 2 {
            assert(p =~= seq!['.']);
        }
        lemma_special_bytes(bs.drop_last());
        assert forall|i: int| 0 <= i < bs.len() implies bs[i] == 46 by {
            if i < bs.len() - 1 {
                assert(bs[i] == bs.drop_last()[i]);
            }
        }
    }
}

/// A plain encoding never ends in `_XX_` with `XX` naming a kept byte, and
/// never ends in `pty_`.
proof fn lemma_plain_not_escaped_tail(a: Seq<u8>, t: Seq<char>)
    requires
        a.len() > 0,
        t.len() >= 4,
        encode_bytes(a) == t,
        t[t.len() - 1] == '_',
    ensures
        t[t.len() - 4] == '_',
        !kept_byte(a.last()),
        t.subrange(t.len() - 4, t.len() as int) == escape_byte(a.last()),
{
    let x = a.last();
    lemma_encode_byte_shape(x);
    assert(t == encode_bytes(a.drop_last()) + encode_byte(x));
    assert(t.last() == encode_byte(x).last());
    assert(t.subrange(t.len() - 4, t.len() as int) =~= escape_byte(x));
}

/// Distinct byte strings have distinct namespaces.
pub proof fn law_namespace_of_bytes_injective(a: Seq<u8>, b: Seq<u8>)
    requires
        namespace_of_bytes(a) == namespace_of_bytes(b),
    ensures
        a == b,
{
    let (oa, ob) = (encode_bytes(a), encode_bytes(b));
    let sa = oa.len() == 0 || oa == seq!['.'] || oa == seq!['.', '.'];
    let sb = ob.len() == 0 || ob == seq!['.'] || ob == seq!['.', '.'];
    lemma_encode_len(a);
    lemma_encode_len(b);
    if !sa && !sb {
        lemma_encode_bytes_injective(a, b);
    } else if sa && sb {
        let (fa, fb) = (escape_all(a), escape_all(b));
        if fa.len() == 0 && fb.len() == 0 {
            assert(a =~= b);
        } else if fa.len() != 0 && fb.len() != 0 {
            lemma_escape_all_injective(a, b);
        } else {
            assert(empty_marker().len() == 7);
        }
    } else {
        // One side is plain, the other fully escaped.
        let (p, q, op) = if sa {
            (b, a, ob)
        } else {
            (a, b, oa)
        };
        lemma_special_bytes(q);
        lemma_encode_len(q);
        let f = escape_all(q);
        if q.len() == 0 {
            assert(f.len() == 0);
            assert(op == empty_marker());
            assert(p.len() > 0);
            lemma_plain_not_escaped_tail(p, op);
            assert(op[op.len() - 4] == 'p');
        } else {
            assert(f == op);
            assert(escape_all(q) == escape_all(q.drop_last()) + escape_byte(q.last()));
            assert(f.subrange(f.len() - 4, f.len() as int) =~= escape_byte(q.last()));
            assert(q.last() == 46);
            assert(p.len() > 0);
            lemma_plain_not_escaped_tail(p, op);
            lemma_escape_byte_injective(p.last(), q.last());
            assert(kept_byte(46u8));
        }
    }
}

/// A character a namespace may hold: `a`-`z`, `0`-`9`, `.`, `-` or `_`.
pub open spec fn ns_char(c: char) -> bool {
    ('a' <= c && c <= 'z') || ('0' <= c && c <= '9') || c == '.' || c == '-' || c == '_'
}

/// Whether every character is a namespace character.
pub open spec fn all_ns_chars(s: Seq<char>) -> bool {
    forall|i: int| 0 <= i < s.len() ==> ns_char(#[trigger] s[i])
}

proof fn lemma_ns_chars_concat(a: Seq<char>, b: Seq<char>)
    requires
        all_ns_chars(a),
        all_ns_chars(b),
    ensures
        all_ns_chars(a + b),
{
    assert forall|i: int| 0 <= i < (a + b).len() implies ns_char(#[trigger] (a + b)[i]) by {
        if i < a.len() {
            assert((a + b)[i] == a[i]);
        } else {
            assert((a + b)[i] == b[i - a.len()]);
        }
    }
}

proof fn lemma_encode_byte_chars(b: u8)
    ensures
        all_ns_chars(encode_byte(b)),
        all_ns_chars(escape_byte(b)),
{
    assert(ns_char(hex_char((b / 16) as nat)));
    assert(ns_char(hex_char((b % 16) as nat)));
    if kept_byte(b) {
        assert(ns_char(b as char));
    }
}

proof fn lemma_encode_bytes_chars(bs: Seq<u8>)
    ensures
        all_ns_chars(encode_bytes(bs)),
        all_ns_chars(escape_all(bs)),
    decreases bs.len(),
{
    if bs.len() > 0 {
        lemma_encode_bytes_chars(bs.drop_last());
        lemma_encode_byte_chars(bs.last());
        lemma_ns_chars_concat(encode_bytes(bs.drop_last()), encode_byte(bs.last()));
        lemma_ns_chars_concat(escape_all(bs.drop_last()), escape_byte(bs.last()));
    }
}

/// A namespace is a single safe path segment: not empty, not `.` or `..`,
/// and made only of `a`-`z`, `0`-`9`, `.`, `-` and `_` (so it holds no
/// `/`, `\` or `:`).
pub proof fn law_namespace_is_safe_segment(h: Seq<char>)
    ensures
        namespace_of(h).len() > 0,
        namespace_of(h) != seq!['.'],
        namespace_of(h) != seq!['.', '.'],
        all_ns_chars(namespace_of(h)),
{
    let bs = encode_utf8(lowercase_of(h));
    lemma_encode_bytes_chars(bs);
    lemma_encode_len(bs);
    let o = encode_bytes(bs);
    if o.len() == 0 || o == seq!['.'] || o == seq!['.', '.'] {
        let f = escape_all(bs);
        if f.len() == 0 {
            assert(all_ns_chars(empty_marker()));
            assert(empty_marker()[0] == '_');
        } else {
            assert(bs.len() > 0);
            assert(f == escape_all(bs.drop_last()) + escape_byte(bs.last()));
            assert(f[f.len() - 1] == '_');
        }
    }
}

/// The storage key of a path in a namespace: `namespace::path`.
pub open spec fn ns_key(ns: Seq<char>, p: Seq<char>) -> Seq<char> {
    ns + "::"@ + p
}

/// Tenant isolation: the storage key of a normalized path in a hostname's
/// namespace is itself normalized, and two such keys coincide only for the
/// same namespace and the same path. With `law_namespace_injective`,
/// hostnames that differ beyond letter case never share a stored file.
pub proof fn law_tenant_isolation(h1: Seq<char>, h2: Seq<char>, p1: Seq<char>, p2: Seq<char>)
    requires
        p1 == normalized(p1),
        p2 == normalized(p2),
        p1.len() > 0,
        p2.len() > 0,
    ensures
        normalized(ns_key(namespace_of(h1), p1)) == ns_key(namespace_of(h1), p1),
        ns_key(namespace_of(h1), p1) == ns_key(namespace_of(h2), p2) ==> namespace_of(h1)
            == namespace_of(h2) && p1 == p2,
{
    reveal_strlit("::");
    let (n1, n2) = (namespace_of(h1), namespace_of(h2));
    law_namespace_is_safe_segment(h1);
    law_namespace_is_safe_segment(h2);
    let pre = n1 + "::"@;
    assert(slash_free(pre)) by {
        assert forall|j: int| 0 <= j < pre.len() implies #[trigger] pre[j] != '/' by {
            if j < n1.len() {
                assert(pre[j] == n1[j]);
                assert(ns_char(n1[j]));
            }
        }
    }
    assert(ns_key(n1, p1) =~= pre + p1);
    lemma_prefixed_normalized(pre, p1);
    let k = ns_key(n1, p1);
    if k == ns_key(n2, p2) {
        assert(k =~= n2 + "::"@ + p2);
        if n1.len() < n2.len() {
            assert(k[n1.len() as int] == ':');
            assert(k[n1.len() as int] == n2[n1.len() as int]);
            assert(ns_char(n2[n1.len() as int]));
        } else if n2.len() < n1.len() {
            assert(k[n2.len() as int] == ':');
            assert(k[n2.len() as int] == n1[n2.len() as int]);
            assert(ns_char(n1[n2.len() as int]));
        }
        assert(n1 =~= k.subrange(0, n1.len() as int));
        assert(n2 =~= k.subrange(0, n2.len() as int));
        assert(p1 =~= k.skip(n1.len() as int + 2));
        assert(p2 =~= k.skip(n2.len() as int + 2));
    }
}

/// Hostnames whose lowercase forms differ get different namespaces.
pub proof fn law_namespace_injective(h1: Seq<char>, h2: Seq<char>)
    requires
        lowercase_of(h1) != lowercase_of(h2),
    ensures
        namespace_of(h1) != namespace_of(h2),
{
    if namespace_of(h1) == namespace_of(h2) {
        law_namespace_of_bytes_injective(
            encode_utf8(lowercase_of(h1)),
            encode_utf8(lowercase_of(h2)),
        );
        vstd::utf8::encode_utf8_decode_utf8(lowercase_of(h1));
        vstd::utf8::encode_utf8_decode_utf8(lowercase_of(h2));
    }
}

/// What `IsolateVfs::prefix_namespace` makes of a path in namespace `ns`:
/// the path's validation failure, or the path itself in an empty
/// namespace, or the validation outcome of `ns::path`.
pub open spec fn namespaced_outcome(ns: Seq<char>, path: Seq<char>, byte_len: nat) -> Result<
    Seq<char>,
    Seq<char>,
> {
    match path_outcome(path, byte_len) {
        Err(e) => Err(e),
        Ok(p) => if ns.len() == 0 {
            Ok(p)
        } else {
            path_outcome(
                ns_key(ns, p),
                (encode_utf8(ns_key(ns, p)).len() as usize) as nat,
            )
        },
    }
}

/// The storage path of `path` for a VFS with namespace `namespace`: the
/// path validated by `VfsPath::new` (with its error when refused); then,
/// unless the backend is a disk backend (whose directory already separates
/// tenants) or the namespace is empty, `namespace::path` validated again
/// (with the error naming that key when refused).
pub fn storage_path(namespace: &VfsNamespace, disk_backend: bool, path: &str) -> (r: Result<VfsPath, VfsError>)
    ensures
        match path_outcome(path@, path.len() as nat) {
            Err(reason) => r matches Err(VfsError::InvalidPath { path: p, reason: why }) && p@ == path@
                && why@ == reason,
            Ok(q) => if disk_backend || namespace@.len() == 0 {
                r is Ok && r->Ok_0@ == q
            } else {
                match path_outcome(ns_key(namespace@, q), (encode_utf8(ns_key(namespace@, q)).len() as usize) as nat) {
                    Ok(k) => r is Ok && r->Ok_0@ == k,
                    Err(reason) => r matches Err(VfsError::InvalidPath { path: p, reason: why }) && p@
                        == ns_key(namespace@, q) && why@ == reason,
                }
            },
        },
        !disk_backend ==> match namespaced_outcome(namespace@, path@, path.len() as nat) {
            Ok(k) => r is Ok && r->Ok_0@ == k,
            Err(reason) => r matches Err(VfsError::InvalidPath { reason: why, .. }) && why@ == reason,
        },
{
    let p = VfsPath::new(path)?;
    let ns = namespace.as_str();
    if disk_backend || ns.is_empty() {
        return Ok(p);
    }
    let mut key = String::new();
    push_str(&mut key, ns);
    push_str(&mut key, "::");
    push_str(&mut key, p.as_str());
    proof {
        assert(key@ == ns_key(namespace@, p@));
    }
    VfsPath::new(key.as_str())
}

/// Where a path is stored in a VFS with namespace `ns`, or why it cannot
/// be.
pub open spec fn stored_key(ns: Seq<char>, p: Seq<char>) -> Result<Seq<char>, Seq<char>> {
    namespaced_outcome(ns, p, (encode_utf8(p).len() as usize) as nat)
}

/// What a read gives back of a write: after a successful write of
/// `content` at `path`, the VFS holds `path` with exactly that content,
/// and every path stored elsewhere is as it was.
pub proof fn law_read_after_write(
    before: IsolateVfs,
    after: IsolateVfs,
    path: Seq<char>,
    content: Seq<u8>,
    other: Seq<char>,
)
    requires
        after.spec_namespace() == before.spec_namespace(),
        stored_key(before.spec_namespace(), path) matches Ok(k) && write_step(
            before.spec_limits(),
            before.spec_state(),
            k,
            content,
        ) matches Ok(st) && after.spec_state() == st,
    ensures
        after.has_file(path),
        after.file_content(path) == content,
        stored_key(before.spec_namespace(), other) != stored_key(before.spec_namespace(), path) ==> after.has_file(
            other,
        ) == before.has_file(other) && after.file_content(other) == before.file_content(other),
{
    before.lemma_state_files();
    after.lemma_state_files();
}

/// A per-isolate VFS: a namespace over an in-memory backend. Every path is
/// stored under `namespace::path`.
#[derive(Debug)]
pub struct IsolateVfs {
    namespace: VfsNamespace,
    backend: MemoryBackend,
}

impl IsolateVfs {
    /// The namespace.
    pub closed spec fn spec_namespace(&self) -> Seq<char> {
        self.namespace@
    }

    /// The backend's files.
    pub closed spec fn spec_files(&self) -> Map<Seq<char>, (Seq<u8>, usize)> {
        self.backend@
    }

    /// The backend's files and counters.
    pub closed spec fn spec_state(&self) -> BackendState {
        (self.backend@, self.backend.spec_count(), self.backend.spec_total())
    }

    /// The backend's limits.
    pub closed spec fn spec_limits(&self) -> ResourceLimits {
        self.backend.spec_limits()
    }

    /// The state is made of the files.
    pub proof fn lemma_state_files(&self)
        ensures
            self.spec_state().0 == self.spec_files(),
    {
    }

    /// Whether `path` names a stored file (an invalid path names none).
    pub open spec fn has_file(&self, path: Seq<char>) -> bool {
        match namespaced_outcome(
            self.spec_namespace(),
            path,
            (encode_utf8(path).len() as usize) as nat,
        ) {
            Ok(k) => self.spec_files().contains_key(k),
            Err(_) => false,
        }
    }

    /// The content stored at `path` (empty where `has_file` is false).
    pub open spec fn file_content(&self, path: Seq<char>) -> Seq<u8> {
        match namespaced_outcome(
            self.spec_namespace(),
            path,
            (encode_utf8(path).len() as usize) as nat,
        ) {
            Ok(k) => if self.spec_files().contains_key(k) {
                self.spec_files()[k].0
            } else {
                Seq::empty()
            },
            Err(_) => Seq::empty(),
        }
    }

    /// A VFS with the given namespace and backend.
    pub fn new(namespace: VfsNamespace, backend: MemoryBackend) -> (r: Self)
        ensures
            r.spec_namespace() == namespace@,
            r.spec_files() == backend@,
    {
        IsolateVfs { namespace, backend }
    }

    /// The namespace.
    pub fn namespace(&self) -> (r: &VfsNamespace)
        ensures
            r@ == self.spec_namespace(),
    {
        &self.namespace
    }

    /// The backend.
    pub fn backend(&self) -> (r: &MemoryBackend)
        ensures
            r@ == self.spec_files(),
    {
        &self.backend
    }

    /// The storage path of `path` in this VFS's namespace (see
    /// `storage_path`, over the memory backend this VFS holds).
    pub fn prefix_namespace(&self, path: &str) -> (r: Result<VfsPath, VfsError>)
        ensures
            match namespaced_outcome(self.spec_namespace(), path@, path.len() as nat) {
                Ok(k) => r is Ok && r->Ok_0@ == k,
                Err(reason) => r matches Err(VfsError::InvalidPath { reason: why, .. }) && why@
                    == reason,
            },
            match path_outcome(path@, path.len() as nat) {
                Err(_) => r matches Err(VfsError::InvalidPath { path: p, .. }) && p@ == path@,
                Ok(q) => (self.spec_namespace().len() > 0 && namespaced_outcome(
                    self.spec_namespace(),
                    path@,
                    path.len() as nat,
                ) is Err) ==> (r matches Err(VfsError::InvalidPath { path: p, .. }) && p@ == ns_key(
                    self.spec_namespace(),
                    q,
                )),
            },
    {
        storage_path(&self.namespace, false, path)
    }

    /// Read a file of this namespace.
    pub fn read(&self, path: &str) -> (r: Result<Vec<u8>, VfsError>)
        ensures
            match namespaced_outcome(self.spec_namespace(), path@, path.len() as nat) {
                Ok(k) => if self.spec_files().contains_key(k) {
                    r is Ok && r->Ok_0@ == self.spec_files()[k].0
                } else {
                    r matches Err(VfsError::NotFound { .. })
                },
                Err(_) => r matches Err(VfsError::InvalidPath { .. }),
            },
    {
        let storage_path = self.prefix_namespace(path)?;
        self.backend.read(&storage_path)
    }

    /// Write a file of this namespace (see `MemoryBackend::write`).
    pub fn write(&mut self, path: &str, content: &[u8]) -> (r: Result<(), VfsError>)
        ensures
            final(self).spec_namespace() == old(self).spec_namespace(),
            final(self).spec_limits() == old(self).spec_limits(),
            match namespaced_outcome(old(self).spec_namespace(), path@, path.len() as nat) {
                Ok(k) => match write_step(old(self).spec_limits(), old(self).spec_state(), k, content@) {
                    Ok(st) => r is Ok && final(self).spec_state() == st,
                    Err((res, limit, current)) => (r matches Err(
                        VfsError::QuotaExceeded { resource, limit: l, current: c },
                    ) && resource@ == res && l == limit && c == current) && final(self).spec_state()
                        == old(self).spec_state(),
                },
                Err(_) => r matches Err(VfsError::InvalidPath { .. }) && final(self).spec_state()
                    == old(self).spec_state(),
            },
    {
        let storage_path = self.prefix_namespace(path)?;
        self.backend.write(&storage_path, content)
    }

    /// Whether a file of this namespace exists.
    pub fn file_exists(&self, path: &str) -> (r: Result<bool, VfsError>)
        ensures
            match namespaced_outcome(self.spec_namespace(), path@, path.len() as nat) {
                Ok(k) => r == Ok::<bool, VfsError>(self.spec_files().contains_key(k)),
                Err(_) => r matches Err(VfsError::InvalidPath { .. }),
            },
    {
        let storage_path = self.prefix_namespace(path)?;
        Ok(self.backend.file_exists(&storage_path))
    }

    /// Delete a file of this namespace (see `MemoryBackend::delete`).
    pub fn delete(&mut self, path: &str) -> (r: Result<(), VfsError>)
        ensures
            final(self).spec_namespace() == old(self).spec_namespace(),
            match namespaced_outcome(old(self).spec_namespace(), path@, path.len() as nat) {
                Ok(k) => final(self).spec_files() == old(self).spec_files().remove(k) && (r is Ok
                    <==> old(self).spec_files().contains_key(k)),
                Err(_) => r matches Err(VfsError::InvalidPath { .. }) && final(self).spec_files()
                    == old(self).spec_files(),
            },
    {
        let storage_path = self.prefix_namespace(path)?;
        self.backend.delete(&storage_path)
    }

    /// The entries directly under `path` (see `MemoryBackend::list_dir`),
    /// as storage paths.
    pub fn list_dir(&self, path: &str) -> (r: Result<Vec<VfsPath>, VfsError>)
        ensures
            match namespaced_outcome(self.spec_namespace(), path@, path.len() as nat) {
                Ok(k) => is_dir_listing(self.spec_files().dom(), k, r),
                Err(_) => r matches Err(VfsError::InvalidPath { .. }),
            },
    {
        let storage_path = self.prefix_namespace(path)?;
        self.backend.list_dir(&storage_path)
    }

    /// The metadata of a file of this namespace.
    pub fn metadata(&self, path: &str) -> (r: Result<VfsFile, VfsError>)
        ensures
            match namespaced_outcome(self.spec_namespace(), path@, path.len() as nat) {
                Ok(k) => if self.spec_files().contains_key(k) {
                    r is Ok && r->Ok_0.content@ == self.spec_files()[k].0
                } else {
                    r matches Err(VfsError::NotFound { .. })
                },
                Err(_) => r matches Err(VfsError::InvalidPath { .. }),
            },
    {
        let storage_path = self.prefix_namespace(path)?;
        self.backend.metadata(&storage_path)
    }
}

} // verus!
