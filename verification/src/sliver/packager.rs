//! Decisions of sliver creation from a directory: which file is the
//! entrypoint, which files are packed and under which VFS path, and the
//! names and description the sliver gets. The directory walk, the
//! compilation and the archive writing are made by the caller.
use vstd::prelude::*;
use crate::text::{chars_of, push_str};

verus! {

/// The entrypoint candidates, in order of preference.
pub open spec fn packer_candidates() -> Seq<Seq<char>> {
    seq!["index.js"@, "index.mjs"@, "main.js"@, "worker.js"@]
}

/// The first candidate that exists (`exists[i]` tells of candidate `i`),
/// else `index.js`.
pub open spec fn picked_entrypoint(exists: Seq<bool>, k: nat) -> Seq<char>
    decreases 4 - k,
{
    if k >= 4 {
        "index.js"@
    } else if k < exists.len() && exists[k as int] {
        packer_candidates()[k as int]
    } else {
        picked_entrypoint(exists, k + 1)
    }
}

fn packer_candidate(k: usize) -> (r: &'static str)
    requires
        k < 4,
    ensures
        r@ == packer_candidates()[k as int],
{
    if k == 0 {
        "index.js"
    } else if k == 1 {
        "index.mjs"
    } else if k == 2 {
        "main.js"
    } else {
        "worker.js"
    }
}

/// The entrypoint of a directory, given which of `index.js`, `index.mjs`,
/// `main.js` and `worker.js` exist in it (see `picked_entrypoint`).
pub fn pick_entrypoint(exists: &[bool]) -> (r: &'static str)
    ensures
        r@ == picked_entrypoint(exists@, 0),
{
    let mut k: usize = 0;
    while k < 4
        invariant
            k <= 4,
            picked_entrypoint(exists@, 0) == picked_entrypoint(exists@, k as nat),
        decreases 4 - k,
    {
        if k < exists.len() && exists[k] {
            return packer_candidate(k);
        }
        k = k + 1;
    }
    "index.js"
}

/// Whether a file is packed into a sliver: not hidden (a name starting
/// with `.`) and not itself a sliver (a name ending with `.sliver`).
pub open spec fn packable(name: Seq<char>) -> bool {
    !(name.len() > 0 && name[0] == '.') && !(name.len() >= 7 && name.skip(name.len() - 7) == ".sliver"@)
}

/// Whether a file with this name is packed (see `packable`).
pub fn is_packable_name(file_name: &str) -> (r: bool)
    ensures
        r == packable(file_name@),
{
    let v = chars_of(file_name);
    if v.len() > 0 && v[0] == '.' {
        return false;
    }
    let suffix = chars_of(".sliver");
    proof {
        reveal_strlit(".sliver");
    }
    if v.len() < 7 {
        return true;
    }
    let base = v.len() - 7;
    let mut k: usize = 0;
    while k < 7
        invariant
            k <= 7,
            base + 7 == v@.len(),
            v@.len() == v.len(),
            v@ == file_name@,
            !(v@.len() > 0 && v@[0] == '.'),
            suffix@ == ".sliver"@,
            suffix@.len() == 7,
            forall|j: int| 0 <= j < k ==> v@[base + j] == suffix@[j],
        decreases 7 - k,
    {
        if v[base + k] != suffix[k] {
            assert(v@.skip(base as int)[k as int] != suffix@[k as int]);
            return true;
        }
        k = k + 1;
    }
    assert(v@.skip(base as int) =~= suffix@);
    false
}

/// The VFS path of a packed file from its path relative to the directory.
pub fn vfs_path_for(relative: &str) -> (r: String)
    ensures
        r@ == seq!['/'] + relative@,
{
    let mut r = String::new();
    crate::text::push_char(&mut r, '/');
    push_str(&mut r, relative);
    r
}

/// What a sliver made from a directory is called and described as.
#[derive(Debug, Clone, PartialEq, Eq)]
pub struct SliverPlan {
    /// Where the sliver is written: the output given, else `<name>.sliver`.
    pub output_path: String,
    /// The hostname: the one given, else the name.
    pub hostname: String,
    /// The tag: the one given, else `latest`.
    pub tag: String,
    /// `Created from directory: <dir> | Entrypoint: <entrypoint> | Tag: <tag>`.
    pub description: String,
}

/// The text of an optional string, or a default.
pub open spec fn or_text(s: Option<String>, default: Seq<char>) -> Seq<char> {
    match s {
        Some(t) => t@,
        None => default,
    }
}

/// The names and description of a sliver made from `source_dir` under
/// `name` (see `SliverPlan`).
pub fn plan_sliver(
    source_dir: &str,
    name: &str,
    tag: Option<String>,
    output: Option<String>,
    hostname: Option<String>,
    entrypoint: &str,
) -> (r: SliverPlan)
    ensures
        r.output_path@ == or_text(output, name@ + ".sliver"@),
        r.hostname@ == or_text(hostname, name@),
        r.tag@ == or_text(tag, "latest"@),
        r.description@ == "Created from directory: "@ + source_dir@ + " | Entrypoint: "@ + entrypoint@
            + " | Tag: "@ + r.tag@,
{
    let output_path = match output {
        Some(o) => o,
        None => {
            let mut o = String::new();
            push_str(&mut o, name);
            push_str(&mut o, ".sliver");
            o
        },
    };
    let hostname = match hostname {
        Some(h) => h,
        None => name.to_owned(),
    };
    let tag = match tag {
        Some(t) => t,
        None => "latest".to_owned(),
    };
    let mut description = String::new();
    push_str(&mut description, "Created from directory: ");
    push_str(&mut description, source_dir);
    push_str(&mut description, " | Entrypoint: ");
    push_str(&mut description, entrypoint);
    push_str(&mut description, " | Tag: ");
    push_str(&mut description, tag.as_str());
    proof {
        assert(description@ =~= "Created from directory: "@ + source_dir@ + " | Entrypoint: "@ + entrypoint@
            + " | Tag: "@ + tag@);
    }
    SliverPlan { output_path, hostname, tag, description }
}

} // verus!
