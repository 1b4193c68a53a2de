//! The human-readable archive manifest.
use vstd::prelude::*;
use crate::text::{push_char, push_str};

verus! {

/// The manifest header.
pub open spec fn manifest_header() -> Seq<char> {
    "# Sliver Archive Manifest\n# =========================\n\n"@
}

/// Each entry on a line of its own.
pub open spec fn manifest_lines(entries: Seq<String>) -> Seq<char>
    decreases entries.len(),
{
    if entries.len() == 0 {
        Seq::empty()
    } else {
        manifest_lines(entries.drop_last()) + entries.last()@.push('\n')
    }
}

/// The manifest listing the archive entries: a two-line header and a blank
/// line, then one entry per line.
pub fn build_manifest(entries: &[String]) -> (r: String)
    ensures
        r@ == manifest_header() + manifest_lines(entries@),
{
    let mut manifest = String::new();
    push_str(&mut manifest, "# Sliver Archive Manifest\n# =========================\n\n");
    assert(entries@.take(0) =~= Seq::<String>::empty());
    let mut i: usize = 0;
    while i < entries.len()
        invariant
            i <= entries.len(),
            manifest@ == manifest_header() + manifest_lines(entries@.take(i as int)),
        decreases entries.len() - i,
    {
        push_str(&mut manifest, entries[i].as_str());
        push_char(&mut manifest, '\n');
        proof {
            assert(entries@.take(i + 1).drop_last() =~= entries@.take(i as int));
        }
        i = i + 1;
    }
    proof {
        assert(entries@.take(entries.len() as int) =~= entries@);
    }
    manifest
}

} // verus!
