//! Entrypoint detection over a sliver's VFS entries.
use vstd::prelude::*;
use crate::text::{chars_of, push_char, push_str, str_eq};
use crate::vfs::types::{VfsFile, VfsPath};

verus! {

/// Utilities for inspecting sliver VFS entries.
pub struct SliverExtractor;

/// The entrypoint file names tried, in order.
pub open spec fn entry_candidates() -> Seq<Seq<char>> {
    seq![
        "/index.js"@,
        "/app.js"@,
        "/main.js"@,
        "/server.js"@,
        "index.js"@,
        "app.js"@,
        "main.js"@,
        "server.js"@,
    ]
}

/// A path made absolute: kept where it starts with `/`, else given a
/// leading `/`.
pub open spec fn rooted_text(ep: Seq<char>) -> Seq<char> {
    if ep.len() > 0 && ep[0] == '/' {
        ep
    } else {
        seq!['/'] + ep
    }
}

/// `s` without its leading slashes.
pub open spec fn trim_leading_slashes(s: Seq<char>) -> Seq<char>
    decreases s.len(),
{
    if s.len() > 0 && s[0] == '/' {
        trim_leading_slashes(s.drop_first())
    } else {
        s
    }
}

/// Whether some entry has the path `p`.
pub open spec fn has_entry(entries: Seq<(VfsPath, VfsFile)>, p: Seq<char>) -> bool {
    exists|i: int| 0 <= i < entries.len() && #[trigger] entries[i].0@ == p
}

/// The entrypoint chosen from candidate `k` on: the first candidate that is
/// an entry's path, with a single leading slash; `/index.js` when none is.
pub open spec fn entrypoint_from(entries: Seq<(VfsPath, VfsFile)>, k: nat) -> Seq<char>
    decreases 8 - k,
{
    if k >= 8 {
        "/index.js"@
    } else if has_entry(entries, entry_candidates()[k as int]) {
        seq!['/'] + trim_leading_slashes(entry_candidates()[k as int])
    } else {
        entrypoint_from(entries, k + 1)
    }
}

fn candidate(k: usize) -> (r: &'static str)
    requires
        k < 8,
    ensures
        r@ == entry_candidates()[k as int],
{
    if k == 0 {
        "/index.js"
    } else if k == 1 {
        "/app.js"
    } else if k == 2 {
        "/main.js"
    } else if k == 3 {
        "/server.js"
    } else if k == 4 {
        "index.js"
    } else if k == 5 {
        "app.js"
    } else if k == 6 {
        "main.js"
    } else {
        "server.js"
    }
}

fn any_entry_is(entries: &[(VfsPath, VfsFile)], p: &str) -> (r: bool)
    ensures
        r == has_entry(entries@, p@),
{
    let mut i: usize = 0;
    while i < entries.len()
        invariant
            i <= entries.len(),
            forall|j: int| 0 <= j < i ==> entries@[j].0@ != p@,
        decreases entries.len() - i,
    {
        if str_eq(entries[i].0.as_str(), p) {
            assert(entries@[i as int].0@ == p@);
            return true;
        }
        i = i + 1;
    }
    false
}

/// `s` without its leading slashes.
fn trimmed_slashes(s: &str) -> (r: Vec<char>)
    ensures
        r@ == trim_leading_slashes(s@),
{
    let v = chars_of(s);
    let mut i: usize = 0;
    assert(v@.skip(0) =~= v@);
    while i < v.len() && v[i] == '/'
        invariant
            i <= v.len(),
            v@ == s@,
            trim_leading_slashes(s@) == trim_leading_slashes(v@.skip(i as int)),
        decreases v.len() - i,
    {
        assert(v@.skip(i as int).drop_first() =~= v@.skip(i + 1));
        i = i + 1;
    }
    let mut out: Vec<char> = Vec::new();
    let mut k: usize = i;
    while k < v.len()
        invariant
            i <= k <= v.len(),
            out@ == v@.subrange(i as int, k as int),
        decreases v.len() - k,
    {
        out.push(v[k]);
        assert(out@ =~= v@.subrange(i as int, k + 1));
        k = k + 1;
    }
    assert(out@ =~= v@.skip(i as int));
    out
}

impl SliverExtractor {
    /// Detect the JS entrypoint from VFS entries (see `entrypoint_from`).
    pub fn detect_entrypoint(vfs_entries: &[(VfsPath, VfsFile)]) -> (r: String)
        ensures
            r@ == entrypoint_from(vfs_entries@, 0),
    {
        let mut k: usize = 0;
        while k < 8
            invariant
                k <= 8,
                entrypoint_from(vfs_entries@, 0) == entrypoint_from(vfs_entries@, k as nat),
            decreases 8 - k,
        {
            let c = candidate(k);
            if any_entry_is(vfs_entries, c) {
                let rest = trimmed_slashes(c);
                let mut s = String::new();
                push_char(&mut s, '/');
                crate::text::push_all(&mut s, &rest);
                return s;
            }
            k = k + 1;
        }
        let mut s = String::new();
        push_str(&mut s, "/index.js");
        s
    }
    /// An entrypoint named in metadata, made absolute: kept where it starts
    /// with `/`, else given a leading `/`.
    pub fn rooted_entrypoint(ep: &str) -> (r: String)
        ensures
            r@ == rooted_text(ep@),
    {
        let v = chars_of(ep);
        let mut s = String::new();
        if !(v.len() > 0 && v[0] == '/') {
            push_char(&mut s, '/');
        }
        push_str(&mut s, ep);
        proof {
            assert(s@ =~= rooted_text(ep@));
        }
        s
    }

    /// The entrypoint of an unpacked sliver: the one its metadata names
    /// (made absolute), else the one detected among its VFS files.
    pub fn resolve_entrypoint(metadata_entrypoint: Option<&str>, vfs_entries: &[(VfsPath, VfsFile)]) -> (r: String)
        ensures
            r@ == match metadata_entrypoint {
                Some(ep) => rooted_text(ep@),
                None => entrypoint_from(vfs_entries@, 0),
            },
    {
        match metadata_entrypoint {
            Some(ep) => Self::rooted_entrypoint(ep),
            None => Self::detect_entrypoint(vfs_entries),
        }
    }

    /// The entrypoint VFS path of a sliver from its metadata: the one named
    /// (made absolute), else `/index.js`.
    pub fn metadata_entrypoint_or_default(metadata_entrypoint: Option<&str>) -> (r: String)
        ensures
            r@ == match metadata_entrypoint {
                Some(ep) => rooted_text(ep@),
                None => "/index.js"@,
            },
    {
        match metadata_entrypoint {
            Some(ep) => Self::rooted_entrypoint(ep),
            None => "/index.js".to_owned(),
        }
    }
}

/// The script names a sliver's entrypoint is looked for under.
pub open spec fn script_names() -> Seq<Seq<char>> {
    seq!["index.js"@, "app.js"@, "main.js"@, "server.js"@]
}

/// Whether entry `i` is the script named `n`, with or without a leading `/`.
pub open spec fn is_script_entry(entries: Seq<(VfsPath, VfsFile)>, i: int, n: int) -> bool {
    &&& 0 <= i < entries.len()
    &&& 0 <= n < 4
    &&& (entries[i].0@ == script_names()[n] || entries[i].0@ == seq!['/'] + script_names()[n])
}

proof fn lemma_candidate_names(k: int)
    requires
        0 <= k < 8,
    ensures
        k < 4 ==> entry_candidates()[k] == seq!['/'] + script_names()[k],
        k >= 4 ==> entry_candidates()[k] == script_names()[k - 4],
        seq!['/'] + trim_leading_slashes(entry_candidates()[k]) == seq!['/'] + script_names()[k % 4],
{
    reveal_strlit("/index.js");
    reveal_strlit("/app.js");
    reveal_strlit("/main.js");
    reveal_strlit("/server.js");
    reveal_strlit("index.js");
    reveal_strlit("app.js");
    reveal_strlit("main.js");
    reveal_strlit("server.js");
    let c = entry_candidates()[k];
    let n = script_names()[k % 4];
    if k < 4 {
        assert(c =~= seq!['/'] + n);
        assert(c.drop_first() =~= n);
        assert(n[0] != '/');
        assert(trim_leading_slashes(c) == trim_leading_slashes(c.drop_first()));
    } else {
        assert(c =~= n);
        assert(n[0] != '/');
    }
    assert(trim_leading_slashes(n) == n);
}

proof fn lemma_entrypoint_from_present(entries: Seq<(VfsPath, VfsFile)>, k: nat)
    requires
        k <= 8,
        exists|j: int| k <= j < 8 && has_entry(entries, #[trigger] entry_candidates()[j]),
    ensures
        exists|j: int|
            k <= j < 8 && has_entry(entries, #[trigger] entry_candidates()[j]) && entrypoint_from(entries, k)
                == seq!['/'] + trim_leading_slashes(entry_candidates()[j]),
    decreases 8 - k,
{
    let j0 = choose|j: int| k <= j < 8 && has_entry(entries, #[trigger] entry_candidates()[j]);
    if has_entry(entries, entry_candidates()[k as int]) {
        assert(k <= k < 8);
    } else {
        assert(j0 > k);
        lemma_entrypoint_from_present(entries, k + 1);
    }
}

/// A sliver holding one of the scripts `index.js`, `app.js`, `main.js` or
/// `server.js` (with or without a leading `/`) gets as its entrypoint `/`
/// followed by the name of a script it holds: never a script it lacks.
pub proof fn law_detected_entrypoint_is_present(entries: Seq<(VfsPath, VfsFile)>)
    requires
        exists|i: int, n: int| is_script_entry(entries, i, n),
    ensures
        exists|i: int, n: int|
            is_script_entry(entries, i, n) && entrypoint_from(entries, 0) == seq!['/'] + script_names()[n],
{
    let (i, n) = choose|i: int, n: int| is_script_entry(entries, i, n);
    lemma_candidate_names(n);
    lemma_candidate_names(n + 4);
    let j = if entries[i].0@ == script_names()[n] { n + 4 } else { n };
    assert(entries[i].0@ == entry_candidates()[j]);
    assert(has_entry(entries, entry_candidates()[j]));
    lemma_entrypoint_from_present(entries, 0);
    let j2 = choose|j2: int|
        0 <= j2 < 8 && has_entry(entries, #[trigger] entry_candidates()[j2]) && entrypoint_from(entries, 0)
            == seq!['/'] + trim_leading_slashes(entry_candidates()[j2]);
    lemma_candidate_names(j2);
    let i2 = choose|i2: int| 0 <= i2 < entries.len() && #[trigger] entries[i2].0@ == entry_candidates()[j2];
    assert(is_script_entry(entries, i2, j2 % 4));
}

} // verus!
