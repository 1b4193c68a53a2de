//! Compiled WASM modules carried in a sliver, and their binary encoding.
//!
//! Encoding: a little-endian `u32` module count, then for each module a
//! little-endian `u32` path length, the path's UTF-8 bytes, the 32-byte
//! source hash, a little-endian `u32` module length and the module bytes.
use vstd::prelude::*;
use vstd::utf8::{decode_utf8, encode_utf8, valid_utf8};
use dashmap::DashMap;
use crate::wasm::engine::{sha256_digest, sha256_of};
use crate::wasm::error::WasmError;
use crate::text::{lossy_text, text_from_utf8_lossy};

verus! {

/// A WASM module stored in a sliver.
#[derive(Clone, Debug)]
pub struct CompiledWasmModule {
    /// SHA-256 hash of the original WASM bytes
    pub source_hash: [u8; 32],
    /// WASM module bytes (source or pre-compiled)
    pub module_bytes: Vec<u8>,
    /// Module size in bytes
    pub size: usize,
    /// Module path
    pub path: String,
}

/// The plain values of a module: hash, bytes, size and path.
pub type ModuleView = (Seq<u8>, Seq<u8>, usize, Seq<char>);

/// The plain values of a module.
pub open spec fn module_view(m: CompiledWasmModule) -> ModuleView {
    (m.source_hash@, m.module_bytes@, m.size, m.path@)
}

/// What a module map holds: each module by path.
pub uninterp spec fn cached_modules(m: DashMap<String, CompiledWasmModule>) -> Map<Seq<char>, ModuleView>;

/// `DashMap::new`: an empty map.
#[verifier::external_body]
fn modules_new() -> (r: DashMap<String, CompiledWasmModule>)
    ensures
        cached_modules(r).dom() == Set::<Seq<char>>::empty(),
{
    DashMap::new()
}

/// `DashMap::get`, cloning the entry (a derived `Clone` keeps every field).
#[verifier::external_body]
fn modules_get(m: &DashMap<String, CompiledWasmModule>, key: &str) -> (r: Option<CompiledWasmModule>)
    ensures
        r is Some <==> cached_modules(*m).contains_key(key@),
        r is Some ==> module_view(r->0) == cached_modules(*m)[key@],
{
    m.get(key).map(|e| e.value().clone())
}

/// `DashMap::insert`: the module is stored under `key`, replacing any.
#[verifier::external_body]
fn modules_insert(m: &mut DashMap<String, CompiledWasmModule>, key: String, module: CompiledWasmModule)
    ensures
        cached_modules(*final(m)) == cached_modules(*old(m)).insert(key@, module_view(module)),
{
    m.insert(key, module);
}

/// `DashMap::len`: the number of entries.
#[verifier::external_body]
fn modules_len(m: &DashMap<String, CompiledWasmModule>) -> (r: usize)
    ensures
        r == cached_modules(*m).len(),
{
    m.len()
}

/// `DashMap::iter`, cloning each entry, in the map's internal (hash) order:
/// each key once, each with its module.
#[verifier::external_body]
fn modules_entries(m: &DashMap<String, CompiledWasmModule>) -> (r: Vec<(String, CompiledWasmModule)>)
    ensures
        is_listing(cached_modules(*m), r@),
{
    m.iter().map(|e| (e.key().clone(), e.value().clone())).collect()
}

/// Whether `es` lists the map: each key once, each with its module, and
/// every key of the map present.
pub open spec fn is_listing(m: Map<Seq<char>, ModuleView>, es: Seq<(String, CompiledWasmModule)>) -> bool {
    &&& m.dom() == es.map_values(|e: (String, CompiledWasmModule)| e.0@).to_set()
    &&& forall|i: int| 0 <= i < es.len() ==> module_view(#[trigger] es[i].1) == m[es[i].0@]
    &&& forall|i: int, j: int|
        0 <= i < es.len() && 0 <= j < es.len() && i != j ==> #[trigger] es[i].0@ != #[trigger] es[j].0@
}


/// The four little-endian bytes of `n`.
pub open spec fn le32(n: u32) -> Seq<u8> {
    seq![(n % 256) as u8, ((n / 256) % 256) as u8, ((n / 65536) % 256) as u8, (n / 16777216) as u8]
}

/// The little-endian `u32` in the four bytes at `off`.
pub open spec fn read_le32(b: Seq<u8>, off: int) -> nat {
    (b[off] + 256 * b[off + 1] + 65536 * b[off + 2] + 16777216 * b[off + 3]) as nat
}

/// The encoding of one entry: path length, path bytes, hash, module
/// length, module bytes (lengths truncated to 32 bits).
pub open spec fn entry_bytes(e: (String, CompiledWasmModule)) -> Seq<u8> {
    let pb = encode_utf8(e.0@);
    le32(pb.len() as u32) + pb + e.1.source_hash@ + le32(e.1.module_bytes@.len() as u32)
        + e.1.module_bytes@
}

/// The encodings of the entries, in order.
pub open spec fn entries_bytes(es: Seq<(String, CompiledWasmModule)>) -> Seq<u8>
    decreases es.len(),
{
    if es.len() == 0 {
        Seq::empty()
    } else {
        entries_bytes(es.drop_last()) + entry_bytes(es.last())
    }
}

/// One decoded entry: path bytes, hash and module bytes.
pub type RawEntry = (Seq<u8>, Seq<u8>, Seq<u8>);

/// Decode `count` entries starting at `off`, or the message of the first
/// field that runs past the end.
pub open spec fn parse_entries(b: Seq<u8>, off: int, count: nat) -> Result<Seq<RawEntry>, Seq<char>>
    decreases count,
{
    if count == 0 {
        Ok(Seq::empty())
    } else if b.len() < off + 4 {
        Err("Invalid WASM cache: truncated"@)
    } else {
        let pl = read_le32(b, off);
        let o1 = off + 4;
        if b.len() < o1 + pl {
            Err("Invalid WASM cache: truncated path"@)
        } else {
            let o2 = o1 + pl;
            if b.len() < o2 + 32 {
                Err("Invalid WASM cache: truncated hash"@)
            } else if b.len() < o2 + 32 + 4 {
                Err("Invalid WASM cache: truncated length"@)
            } else {
                let ml = read_le32(b, o2 + 32);
                let o4 = o2 + 36;
                if b.len() < o4 + ml {
                    Err("Invalid WASM cache: truncated data"@)
                } else {
                    match parse_entries(b, o4 + ml, (count - 1) as nat) {
                        Err(e) => Err(e),
                        Ok(rest) => Ok(
                            seq![(b.subrange(o1, o2), b.subrange(o2, o2 + 32), b.subrange(o4, o4 + ml))]
                                + rest,
                        ),
                    }
                }
            }
        }
    }
}

/// The text `String::from_utf8_lossy` gives for path bytes: the decoded
/// characters of valid UTF-8, and otherwise what it names.
pub open spec fn path_text(b: Seq<u8>) -> Seq<char> {
    if valid_utf8(b) {
        decode_utf8(b)
    } else {
        lossy_text(b)
    }
}

/// The map made by storing decoded entries in order (a later entry wins at
/// a repeated path), each keyed and named by its decoded path.
pub open spec fn raw_entries_map(es: Seq<RawEntry>) -> Map<Seq<char>, ModuleView>
    decreases es.len(),
{
    if es.len() == 0 {
        Map::empty()
    } else {
        let e = es.last();
        let p = path_text(e.0);
        raw_entries_map(es.drop_last()).insert(p, (e.1, e.2, e.2.len() as usize, p))
    }
}



fn push_le32(out: &mut Vec<u8>, n: u32)
    ensures
        final(out)@ == old(out)@ + le32(n),
{
    out.push((n % 256) as u8);
    out.push(((n / 256) % 256) as u8);
    out.push(((n / 65536) % 256) as u8);
    out.push((n / 16777216) as u8);
    assert(final(out)@ =~= old(out)@ + le32(n));
}

fn push_slice(out: &mut Vec<u8>, b: &[u8])
    ensures
        final(out)@ == old(out)@ + b@,
{
    let ghost start = out@;
    let mut i: usize = 0;
    while i < b.len()
        invariant
            i <= b@.len(),
            out@ == start + b@.take(i as int),
        decreases b@.len() - i,
    {
        out.push(b[i]);
        assert(start + b@.take(i as int) + seq![b@[i as int]] =~= start + b@.take(i + 1));
        i = i + 1;
    }
    assert(b@.take(b@.len() as int) =~= b@);
}

fn read_le32_at(b: &[u8], off: usize) -> (r: u32)
    requires
        off + 4 <= b@.len(),
    ensures
        r == read_le32(b@, off as int),
{
    let b0 = b[off] as u32;
    let b1 = b[off + 1] as u32;
    let b2 = b[off + 2] as u32;
    let b3 = b[off + 3] as u32;
    b0 + 256 * b1 + 65536 * b2 + 16777216 * b3
}

pub(crate) fn copy_range(b: &[u8], from: usize, len: usize) -> (r: Vec<u8>)
    requires
        from + len <= b@.len(),
    ensures
        r@ == b@.subrange(from as int, from + len),
{
    let mut out: Vec<u8> = Vec::new();
    let mut i: usize = 0;
    while i < len
        invariant
            i <= len,
            from + len <= b.len(),
            b@.len() == b.len(),
            out@ == b@.subrange(from as int, from + i),
        decreases len - i,
    {
        out.push(b[from + i]);
        assert(out@ =~= b@.subrange(from as int, from + i + 1));
        i = i + 1;
    }
    out
}

proof fn lemma_le32_read(n: u32)
    ensures
        read_le32(le32(n), 0) == n,
        le32(n).len() == 4,
{
    assert(le32(n)[0] == (n % 256) as u8);
    assert(le32(n)[1] == ((n / 256) % 256) as u8);
    assert(le32(n)[2] == ((n / 65536) % 256) as u8);
    assert(le32(n)[3] == (n / 16777216) as u8);
    assert(read_le32(le32(n), 0) == n) by (nonlinear_arith)
        requires
            le32(n)[0] == (n % 256) as u8,
            le32(n)[1] == ((n / 256) % 256) as u8,
            le32(n)[2] == ((n / 65536) % 256) as u8,
            le32(n)[3] == (n / 16777216) as u8,
            read_le32(le32(n), 0) == le32(n)[0] + 256 * le32(n)[1] + 65536 * le32(n)[2] + 16777216
                * le32(n)[3],
    {
    }
}


/// A module as decoding gives it back under key `k`: its hash and bytes,
/// its size recomputed from the bytes, its path the key.
pub open spec fn restored_view(k: Seq<char>, v: ModuleView) -> ModuleView {
    (v.0, v.1, v.1.len() as usize, k)
}

/// The decoded form of an entry: its path's UTF-8 bytes, hash and module
/// bytes.
pub open spec fn raw_of(e: (String, CompiledWasmModule)) -> RawEntry {
    (encode_utf8(e.0@), e.1.source_hash@, e.1.module_bytes@)
}

/// The decoded forms of the entries, in order.
pub open spec fn raw_list(es: Seq<(String, CompiledWasmModule)>) -> Seq<RawEntry> {
    es.map_values(|e: (String, CompiledWasmModule)| raw_of(e))
}

/// Whether every entry's lengths fit the encoding's 32-bit fields.
pub open spec fn fits_encoding(es: Seq<(String, CompiledWasmModule)>) -> bool {
    forall|i: int|
        0 <= i < es.len() ==> encode_utf8(#[trigger] es[i].0@).len() <= u32::MAX
            && es[i].1.module_bytes@.len() <= u32::MAX
}

proof fn lemma_entries_bytes_front(es: Seq<(String, CompiledWasmModule)>)
    requires
        es.len() >= 1,
    ensures
        entries_bytes(es) == entry_bytes(es[0]) + entries_bytes(es.drop_first()),
    decreases es.len(),
{
    if es.len() == 1 {
        assert(es.drop_last() =~= Seq::<(String, CompiledWasmModule)>::empty());
        assert(es.drop_first() =~= Seq::<(String, CompiledWasmModule)>::empty());
        assert(entries_bytes(es.drop_last()) =~= Seq::<u8>::empty());
        assert(entries_bytes(es.drop_first()) =~= Seq::<u8>::empty());
        assert(es.last() == es[0]);
        assert(entries_bytes(es) =~= entry_bytes(es[0]));
    } else {
        lemma_entries_bytes_front(es.drop_last());
        assert(es.drop_last().drop_first() =~= es.drop_first().drop_last());
        assert(es.drop_first().last() == es.last());
        assert(entries_bytes(es) =~= entry_bytes(es[0]) + entries_bytes(es.drop_first()));
    }
}

proof fn lemma_read_le32_at(b: Seq<u8>, off: int, n: u32)
    requires
        0 <= off,
        off + 4 <= b.len(),
        b.subrange(off, off + 4) == le32(n),
    ensures
        read_le32(b, off) == n,
{
    lemma_le32_read(n);
    assert(b[off] == le32(n)[0]);
    assert(b[off + 1] == le32(n)[1]);
    assert(b[off + 2] == le32(n)[2]);
    assert(b[off + 3] == le32(n)[3]);
}

/// Decoding the encodings of entries, wherever they sit, gives their
/// decoded forms back.
#[verifier::rlimit(80)]
proof fn lemma_parse_entries_bytes(b: Seq<u8>, off: int, es: Seq<(String, CompiledWasmModule)>)
    requires
        0 <= off,
        off + entries_bytes(es).len() <= b.len(),
        b.subrange(off, off + entries_bytes(es).len()) == entries_bytes(es),
        fits_encoding(es),
    ensures
        parse_entries(b, off, es.len()) == Ok::<Seq<RawEntry>, Seq<char>>(raw_list(es)),
    decreases es.len(),
{
    if es.len() == 0 {
        assert(raw_list(es) =~= Seq::<RawEntry>::empty());
    } else {
        let e = es[0];
        lemma_entries_bytes_front(es);
        let eb = entry_bytes(e);
        let pb = encode_utf8(e.0@);
        let mb = e.1.module_bytes@;
        assert(encode_utf8(es[0].0@).len() <= u32::MAX && es[0].1.module_bytes@.len() <= u32::MAX);
        let plen = pb.len() as u32;
        let mlen = mb.len() as u32;
        lemma_le32_read(plen);
        lemma_le32_read(mlen);
        let all = entries_bytes(es);
        assert(b.subrange(off, off + eb.len()) =~= eb) by {
            assert(all.subrange(0, eb.len() as int) =~= eb);
            assert(b.subrange(off, off + eb.len()) =~= all.subrange(0, eb.len() as int));
        }
        let o1 = off + 4;
        let o2 = o1 + pb.len();
        let o4 = o2 + 36;
        assert(e.1.source_hash@.len() == 32);
        assert(b.subrange(off, off + 4) =~= le32(plen)) by {
            assert(b.subrange(off, off + 4) =~= eb.subrange(0, 4));
        }
        lemma_read_le32_at(b, off, plen);
        assert(b.subrange(o1, o2) =~= pb) by {
            assert(b.subrange(o1, o2) =~= eb.subrange(4, 4 + pb.len() as int));
        }
        assert(b.subrange(o2, o2 + 32) =~= e.1.source_hash@) by {
            assert(b.subrange(o2, o2 + 32) =~= eb.subrange(4 + pb.len() as int, 36 + pb.len() as int));
        }
        assert(b.subrange(o2 + 32, o2 + 36) =~= le32(mlen)) by {
            assert(b.subrange(o2 + 32, o2 + 36) =~= eb.subrange(36 + pb.len() as int, 40 + pb.len() as int));
        }
        lemma_read_le32_at(b, o2 + 32, mlen);
        assert(b.subrange(o4, o4 + mb.len()) =~= mb) by {
            assert(b.subrange(o4, o4 + mb.len()) =~= eb.subrange(40 + pb.len() as int, eb.len() as int));
        }
        let rest = es.drop_first();
        assert(fits_encoding(rest)) by {
            assert forall|i: int| 0 <= i < rest.len() implies encode_utf8(#[trigger] rest[i].0@).len()
                <= u32::MAX && rest[i].1.module_bytes@.len() <= u32::MAX by {
                assert(rest[i] == es[i + 1]);
            }
        }
        assert(b.subrange(off + eb.len(), off + eb.len() + entries_bytes(rest).len()) =~= entries_bytes(
            rest,
        )) by {
            assert(b.subrange(off + eb.len(), off + eb.len() + entries_bytes(rest).len()) =~= all.subrange(
                eb.len() as int,
                all.len() as int,
            ));
        }
        lemma_parse_entries_bytes(b, off + eb.len(), rest);
        assert(raw_list(es) =~= seq![raw_of(e)] + raw_list(rest));
    }
}

/// Building the map from the decoded forms of a listing's entries gives
/// each listed key its module, when every module's size is its byte count
/// and its path is its key.
proof fn lemma_raw_map_of_entries(es: Seq<(String, CompiledWasmModule)>)
    ensures
        forall|k: Seq<char>|
            raw_entries_map(raw_list(es)).contains_key(k) <==> exists|i: int|
                0 <= i < es.len() && #[trigger] es[i].0@ == k,
        forall|i: int|
            0 <= i < es.len() ==> #[trigger] raw_entries_map(raw_list(es))[es[i].0@] == restored_view(
                es[i].0@,
                module_view(es[i].1),
            ) || exists|j: int| i < j < es.len() && es[j].0@ == es[i].0@,
    decreases es.len(),
{
    if es.len() > 0 {
        let u = es.drop_last();
        assert(raw_list(es).drop_last() =~= raw_list(u));
        lemma_raw_map_of_entries(u);
        let e = es.last();
        assert(es[es.len() - 1] == e);
        vstd::utf8::encode_utf8_valid_utf8(e.0@);
        vstd::utf8::encode_utf8_decode_utf8(e.0@);
        assert(path_text(encode_utf8(e.0@)) == e.0@);
        assert(raw_list(es).last() == raw_of(e));
        let mu = raw_entries_map(raw_list(u));
        let m = raw_entries_map(raw_list(es));
        assert(m == mu.insert(e.0@, (e.1.source_hash@, e.1.module_bytes@, e.1.module_bytes@.len() as usize, e.0@)));
        assert(restored_view(e.0@, module_view(e.1)) == (e.1.source_hash@, e.1.module_bytes@, e.1.module_bytes@.len() as usize, e.0@));
        assert forall|k: Seq<char>|
            m.contains_key(k) <==> exists|i: int| 0 <= i < es.len() && #[trigger] es[i].0@ == k by {
            if m.contains_key(k) {
                if k == e.0@ {
                    assert(es[es.len() - 1].0@ == k);
                } else {
                    assert(mu.contains_key(k));
                    let i = choose|i: int| 0 <= i < u.len() && #[trigger] u[i].0@ == k;
                    assert(es[i] == u[i]);
                }
            }
            if exists|i: int| 0 <= i < es.len() && #[trigger] es[i].0@ == k {
                let i = choose|i: int| 0 <= i < es.len() && #[trigger] es[i].0@ == k;
                if i < u.len() {
                    assert(u[i] == es[i]);
                    assert(u[i].0@ == k);
                    assert(mu.contains_key(k));
                }
            }
        }
        assert forall|i: int| 0 <= i < es.len() implies #[trigger] m[es[i].0@] == restored_view(
            es[i].0@,
            module_view(es[i].1),
        ) || exists|j: int| i < j < es.len() && es[j].0@ == es[i].0@ by {
            if i < es.len() - 1 && es[i].0@ != e.0@ {
                assert(u[i] == es[i]);
                assert(mu[u[i].0@] == restored_view(u[i].0@, module_view(u[i].1)) || exists|j: int|
                    i < j < u.len() && u[j].0@ == u[i].0@);
                if exists|j: int| i < j < u.len() && u[j].0@ == u[i].0@ {
                    let j = choose|j: int| i < j < u.len() && u[j].0@ == u[i].0@;
                    assert(es[j] == u[j]);
                }
            } else if i < es.len() - 1 {
                assert(es[es.len() - 1].0@ == es[i].0@);
            }
        }
    }
}

/// Decoding an encoded cache gives the cache back: for a listing of a
/// cache's modules whose lengths fit the 32-bit fields, the encoding that
/// `serialize` produces decodes (see `deserialize`) to a cache with the
/// same paths, each module with the same hash and bytes, its size its byte
/// count and its path its key.
pub proof fn law_round_trip(m: Map<Seq<char>, ModuleView>, es: Seq<(String, CompiledWasmModule)>)
    requires
        is_listing(m, es),
        es.len() <= u32::MAX,
        fits_encoding(es),
    ensures
        ({
            let b = le32(es.len() as u32) + entries_bytes(es);
            &&& b.len() >= 4
            &&& parse_entries(b, 4, read_le32(b, 0)) == Ok::<Seq<RawEntry>, Seq<char>>(raw_list(es))
            &&& raw_entries_map(raw_list(es)).dom() == m.dom()
            &&& forall|k: Seq<char>| #[trigger] m.contains_key(k) ==> raw_entries_map(raw_list(es))[k]
                == restored_view(k, m[k])
        }),
{
    let b = le32(es.len() as u32) + entries_bytes(es);
    lemma_le32_read(es.len() as u32);
    assert(b.subrange(0, 4) =~= le32(es.len() as u32));
    lemma_read_le32_at(b, 0, es.len() as u32);
    assert(b.subrange(4, 4 + entries_bytes(es).len() as int) =~= entries_bytes(es));
    lemma_parse_entries_bytes(b, 4, es);
    lemma_raw_map_of_entries(es);
    let r = raw_entries_map(raw_list(es));
    assert forall|k: Seq<char>| r.contains_key(k) <==> m.contains_key(k) by {
        let keys = es.map_values(|e: (String, CompiledWasmModule)| e.0@);
        if m.contains_key(k) {
            assert(keys.to_set().contains(k));
            let i = choose|i: int| 0 <= i < keys.len() && keys[i] == k;
            assert(es[i].0@ == k);
        }
        if r.contains_key(k) {
            let i = choose|i: int| 0 <= i < es.len() && #[trigger] es[i].0@ == k;
            assert(keys[i] == k);
            assert(keys.to_set().contains(k));
        }
    }
    assert forall|k: Seq<char>| #[trigger] m.contains_key(k) implies r[k] == restored_view(k, m[k]) by {
        assert(r.contains_key(k));
        let i = choose|i: int| 0 <= i < es.len() && #[trigger] es[i].0@ == k;
        assert(module_view(es[i].1) == m[es[i].0@]);
        if exists|j: int| i < j < es.len() && es[j].0@ == es[i].0@ {
            let j = choose|j: int| i < j < es.len() && es[j].0@ == es[i].0@;
            assert(es[i].0@ != es[j].0@);
        }
    }
    assert(r.dom() =~= m.dom());
}

/// Cache of compiled WASM modules for sliver storage, keyed by path.
pub struct SliverWasmCache {
    modules: DashMap<String, CompiledWasmModule>,
}

impl View for SliverWasmCache {
    type V = Map<Seq<char>, ModuleView>;

    closed spec fn view(&self) -> Map<Seq<char>, ModuleView> {
        cached_modules(self.modules)
    }
}

/// The module made from raw bytes at `path`: their SHA-256 hash, the
/// bytes, their length and the path.
pub open spec fn module_from_bytes(path: Seq<char>, bytes: Seq<u8>) -> ModuleView {
    (sha256_of(bytes), bytes, bytes.len() as usize, path)
}

impl SliverWasmCache {
    /// An empty cache.
    pub fn new() -> (r: Self)
        ensures
            r@ == Map::<Seq<char>, ModuleView>::empty(),
    {
        let r = SliverWasmCache { modules: modules_new() };
        assert(r@ =~= Map::<Seq<char>, ModuleView>::empty());
        r
    }

    /// The module stored at `path`, if any.
    pub fn get(&self, path: &str) -> (r: Option<CompiledWasmModule>)
        ensures
            r is Some <==> self@.contains_key(path@),
            r is Some ==> module_view(r->0) == self@[path@],
    {
        modules_get(&self.modules, path)
    }

    /// Store a module at `path`, replacing any.
    pub fn insert(&mut self, path: String, module: CompiledWasmModule)
        ensures
            final(self)@ == old(self)@.insert(path@, module_view(module)),
    {
        modules_insert(&mut self.modules, path, module);
    }

    /// Store a module made from raw bytes (see `module_from_bytes`).
    pub fn add_module(&mut self, path: &str, bytes: Vec<u8>)
        ensures
            final(self)@ == old(self)@.insert(path@, module_from_bytes(path@, bytes@)),
    {
        let path = path.to_owned();
        let digest = sha256_digest(bytes.as_slice());
        let mut source_hash = [0u8; 32];
        let mut k: usize = 0;
        while k < 32
            invariant
                k <= 32,
                digest@.len() == 32,
                forall|j: int| 0 <= j < k ==> source_hash@[j] == digest@[j],
            decreases 32 - k,
        {
            source_hash[k] = digest[k];
            k = k + 1;
        }
        assert(source_hash@ =~= digest@);
        let size = bytes.len();
        let module = CompiledWasmModule { source_hash, module_bytes: bytes, size, path: path.clone() };
        modules_insert(&mut self.modules, path, module);
    }

    /// The paths of all cached modules, each once, in the map's order.
    pub fn module_paths(&self) -> (r: Vec<String>)
        ensures
            self@.dom() == r@.map_values(|s: String| s@).to_set(),
            r@.len() == self@.len(),
    {
        let es = modules_entries(&self.modules);
        let mut out: Vec<String> = Vec::new();
        let mut i: usize = 0;
        while i < es.len()
            invariant
                i <= es@.len(),
                out@.len() == i,
                forall|k: int| 0 <= k < i ==> #[trigger] out@[k]@ == es@[k].0@,
            decreases es@.len() - i,
        {
            out.push(es[i].0.clone());
            i = i + 1;
        }
        proof {
            assert(out@.map_values(|s: String| s@) =~= es@.map_values(
                |e: (String, CompiledWasmModule)| e.0@,
            ));
            lemma_listing_len(self@, es@);
        }
        out
    }

    /// The encoding of the cache (see the module documentation), the
    /// modules in the map's internal order.
    pub fn serialize(&self) -> (r: Vec<u8>)
        ensures
            exists|es: Seq<(String, CompiledWasmModule)>|
                #[trigger] is_listing(self@, es) && r@ == le32(es.len() as u32) + entries_bytes(es),
    {
        let es = modules_entries(&self.modules);
        let mut out: Vec<u8> = Vec::new();
        push_le32(&mut out, #[verifier::truncate] (es.len() as u32));
        let ghost head = out@;
        let mut i: usize = 0;
        while i < es.len()
            invariant
                i <= es@.len(),
                out@ == head + entries_bytes(es@.take(i as int)),
            decreases es@.len() - i,
        {
            let (path, module) = (&es[i].0, &es[i].1);
            let pb = path.as_str().as_bytes();
            let ghost before = out@;
            push_le32(&mut out, #[verifier::truncate] (pb.len() as u32));
            push_slice(&mut out, pb);
            push_slice(&mut out, module.source_hash.as_slice());
            push_le32(&mut out, #[verifier::truncate] (module.module_bytes.len() as u32));
            push_slice(&mut out, module.module_bytes.as_slice());
            proof {
                assert(es@.take(i + 1).drop_last() =~= es@.take(i as int));
                assert(pb@ == encode_utf8(path@));
                assert(out@ =~= before + entry_bytes(es@[i as int]));
            }
            i = i + 1;
        }
        proof {
            assert(es@.take(es@.len() as int) =~= es@);
            assert(is_listing(self@, es@) && out@ == le32(es@.len() as u32) + entries_bytes(es@));
        }
        out
    }

    /// Decode a cache from its encoding: fewer than four bytes, or a field
    /// that runs past the end, fails with a compile error naming it (see
    /// `parse_entries`); otherwise the decoded entries are stored in order.
    pub fn deserialize(bytes: &[u8]) -> (r: Result<Self, WasmError>)
        ensures
            bytes@.len() < 4 ==> (r matches Err(WasmError::CompileError(m)) && m@
                == "Invalid WASM cache: too small"@),
            bytes@.len() >= 4 ==> match parse_entries(bytes@, 4, read_le32(bytes@, 0)) {
                Ok(es) => r is Ok && r->Ok_0@ == raw_entries_map(es),
                Err(msg) => r matches Err(WasmError::CompileError(m)) && m@ == msg,
            },
    {
        if bytes.len() < 4 {
            return Err(WasmError::CompileError("Invalid WASM cache: too small".to_owned()));
        }
        let mut cache = Self::new();
        let count = read_le32_at(bytes, 0);
        let mut offset: usize = 4;
        let mut k: u32 = 0;
        let ghost mut done: Seq<RawEntry> = Seq::empty();
        proof {
            assert(done + parse_entries(bytes@, 4, count as nat)->Ok_0 =~= parse_entries(bytes@, 4, count as nat)->Ok_0);
        }
        while k < count
            invariant
                4 <= offset <= bytes@.len(),
                k <= count,
                count == read_le32(bytes@, 0),
                cache@ == raw_entries_map(done),
                match parse_entries(bytes@, offset as int, (count - k) as nat) {
                    Ok(rest) => parse_entries(bytes@, 4, count as nat) == Ok::<Seq<RawEntry>, Seq<char>>(done + rest),
                    Err(e) => parse_entries(bytes@, 4, count as nat) == Err::<Seq<RawEntry>, Seq<char>>(e),
                },
            decreases count - k,
        {
            let ghost n = (count - k) as nat;
            let ghost off0 = offset as int;
            if bytes.len() - offset < 4 {
                return Err(WasmError::CompileError("Invalid WASM cache: truncated".to_owned()));
            }
            let path_len = read_le32_at(bytes, offset) as usize;
            offset = offset + 4;
            if bytes.len() - offset < path_len {
                return Err(WasmError::CompileError("Invalid WASM cache: truncated path".to_owned()));
            }
            let path_bytes = copy_range(bytes, offset, path_len);
            let path = text_from_utf8_lossy(path_bytes.as_slice());
            offset = offset + path_len;
            if bytes.len() - offset < 32 {
                return Err(WasmError::CompileError("Invalid WASM cache: truncated hash".to_owned()));
            }
            let mut source_hash = [0u8; 32];
            let mut j: usize = 0;
            while j < 32
                invariant
                    j <= 32,
                    offset + 32 <= bytes.len(),
                    bytes@.len() == bytes.len(),
                    forall|q: int| 0 <= q < j ==> source_hash@[q] == bytes@[offset + q],
                decreases 32 - j,
            {
                source_hash[j] = bytes[offset + j];
                j = j + 1;
            }
            assert(source_hash@ =~= bytes@.subrange(offset as int, offset + 32));
            let ghost hash_at = offset as int;
            offset = offset + 32;
            if bytes.len() - offset < 4 {
                return Err(WasmError::CompileError("Invalid WASM cache: truncated length".to_owned()));
            }
            let module_len = read_le32_at(bytes, offset) as usize;
            offset = offset + 4;
            if bytes.len() - offset < module_len {
                return Err(WasmError::CompileError("Invalid WASM cache: truncated data".to_owned()));
            }
            let module_bytes = copy_range(bytes, offset, module_len);
            offset = offset + module_len;
            let size = module_bytes.len();
            let ghost entry: RawEntry = (path_bytes@, source_hash@, module_bytes@);
            let module = CompiledWasmModule { source_hash, module_bytes, size, path: path.clone() };
            proof {
                assert(parse_entries(bytes@, off0, n) == match parse_entries(bytes@, offset as int, (n - 1) as nat) {
                    Err(e) => Err::<Seq<RawEntry>, Seq<char>>(e),
                    Ok(rest) => Ok::<Seq<RawEntry>, Seq<char>>(seq![entry] + rest),
                });
                match parse_entries(bytes@, offset as int, (n - 1) as nat) {
                    Ok(rest) => {
                        assert(done + (seq![entry] + rest) =~= done.push(entry) + rest);
                    },
                    Err(_) => {},
                }
                assert(done.push(entry).drop_last() =~= done);
            }
            modules_insert(&mut cache.modules, path, module);
            proof {
                done = done.push(entry);
            }
            k = k + 1;
        }
        proof {
            assert(parse_entries(bytes@, offset as int, 0) == Ok::<Seq<RawEntry>, Seq<char>>(Seq::empty()));
            assert(done + Seq::<RawEntry>::empty() =~= done);
        }
        Ok(cache)
    }

    /// The sum of the cached modules' `size` fields.
    pub fn total_size(&self) -> (r: usize)
        requires
            forall|es: Seq<(String, CompiledWasmModule)>|
                #[trigger] is_listing(self@, es) ==> size_sum(es) <= usize::MAX,
        ensures
            exists|es: Seq<(String, CompiledWasmModule)>| #[trigger] is_listing(self@, es) && r == size_sum(es),
    {
        let es = modules_entries(&self.modules);
        assert(is_listing(self@, es@));
        let mut total: usize = 0;
        let mut i: usize = 0;
        while i < es.len()
            invariant
                i <= es@.len(),
                total == size_sum(es@.take(i as int)),
                size_sum(es@) <= usize::MAX,
            decreases es@.len() - i,
        {
            proof {
                assert(es@.take(i + 1).drop_last() =~= es@.take(i as int));
                lemma_size_sum_prefix(es@, i + 1);
            }
            total = total + es[i].1.size;
            i = i + 1;
        }
        proof {
            assert(es@.take(es@.len() as int) =~= es@);
        }
        total
    }

    /// The number of cached modules.
    pub fn module_count(&self) -> (r: usize)
        ensures
            r == self@.len(),
    {
        modules_len(&self.modules)
    }
}

/// The sum of the `size` fields of the listed modules.
pub open spec fn size_sum(es: Seq<(String, CompiledWasmModule)>) -> nat
    decreases es.len(),
{
    if es.len() == 0 {
        0
    } else {
        size_sum(es.drop_last()) + es.last().1.size as nat
    }
}

/// A prefix of a listing sums to no more than the whole.
proof fn lemma_size_sum_prefix(es: Seq<(String, CompiledWasmModule)>, n: int)
    requires
        0 <= n <= es.len(),
    ensures
        size_sum(es.take(n)) <= size_sum(es),
    decreases es.len(),
{
    if n < es.len() {
        assert(es.drop_last().take(n) =~= es.take(n));
        lemma_size_sum_prefix(es.drop_last(), n);
    } else {
        assert(es.take(n) =~= es);
    }
}

/// A listing has as many entries as the map has keys.
proof fn lemma_listing_len(m: Map<Seq<char>, ModuleView>, es: Seq<(String, CompiledWasmModule)>)
    requires
        is_listing(m, es),
    ensures
        m.dom().finite(),
        m.dom().len() == es.len(),
{
    let keys = es.map_values(|e: (String, CompiledWasmModule)| e.0@);
    assert(keys.no_duplicates()) by {
        assert forall|a: int, b: int| 0 <= a < keys.len() && 0 <= b < keys.len() && a != b implies keys[a]
            != keys[b] by {
            assert(es[a].0@ != es[b].0@);
        }
    }
    keys.unique_seq_to_set();
}

impl Default for SliverWasmCache {
    fn default() -> (r: Self)
        ensures
            r@ == Map::<Seq<char>, ModuleView>::empty(),
    {
        Self::new()
    }
}

} // verus!
