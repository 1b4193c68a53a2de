//! Captured VFS state, ready for a sliver.
use vstd::prelude::*;
use crate::text::str_eq;
use crate::vfs::types::{VfsFile, VfsPath};

verus! {

/// Files captured from a VFS, keyed by path, with running counts of files
/// added and bytes added.
#[derive(Debug)]
pub struct VfsCapture {
    files: Vec<(String, VfsFile)>,
    file_count: usize,
    total_bytes: usize,
}

/// No path occurs twice.
pub open spec fn keys_distinct(s: Seq<(String, VfsFile)>) -> bool {
    forall|i: int, j: int|
        #![trigger s[i], s[j]]
        0 <= i < s.len() && 0 <= j < s.len() && i != j ==> s[i].0@ != s[j].0@
}

/// The path-to-file map held by a list with distinct paths.
pub open spec fn entries_map(s: Seq<(String, VfsFile)>) -> Map<Seq<char>, VfsFile>
    decreases s.len(),
{
    if s.len() == 0 {
        Map::empty()
    } else {
        entries_map(s.drop_last()).insert(s.last().0@, s.last().1)
    }
}

proof fn lemma_entries_map_dom(s: Seq<(String, VfsFile)>, k: Seq<char>)
    ensures
        entries_map(s).contains_key(k) <==> exists|i: int| 0 <= i < s.len() && #[trigger] s[i].0@ == k,
    decreases s.len(),
{
    if s.len() > 0 {
        lemma_entries_map_dom(s.drop_last(), k);
        if entries_map(s.drop_last()).contains_key(k) {
            let i = choose|i: int| 0 <= i < s.drop_last().len() && #[trigger] s.drop_last()[i].0@ == k;
            assert(s[i].0@ == k);
        }
        if exists|i: int| 0 <= i < s.len() && #[trigger] s[i].0@ == k {
            let i = choose|i: int| 0 <= i < s.len() && #[trigger] s[i].0@ == k;
            if i < s.len() - 1 {
                assert(s.drop_last()[i].0@ == k);
            }
        }
    }
}

proof fn lemma_entries_map_update(s: Seq<(String, VfsFile)>, i: int, e: (String, VfsFile))
    requires
        keys_distinct(s),
        0 <= i < s.len(),
        s[i].0@ == e.0@,
    ensures
        keys_distinct(s.update(i, e)),
        entries_map(s.update(i, e)) == entries_map(s).insert(e.0@, e.1),
    decreases s.len(),
{
    let t = s.update(i, e);
    assert(keys_distinct(t)) by {
        assert forall|a: int, b: int|
            #![trigger t[a], t[b]]
            0 <= a < t.len() && 0 <= b < t.len() && a != b implies t[a].0@ != t[b].0@ by {
            assert(s[a] == s[a] && s[b] == s[b]);
        }
    }
    if i == s.len() - 1 {
        assert(t.drop_last() =~= s.drop_last());
        assert(entries_map(t) =~= entries_map(s).insert(e.0@, e.1));
    } else {
        assert(t.drop_last() =~= s.drop_last().update(i, e));
        lemma_entries_map_update(s.drop_last(), i, e);
        assert(s.last().0@ != e.0@) by {
            assert(s[s.len() - 1] == s.last());
            assert(s[i] == s[i]);
        }
        assert(entries_map(t) =~= entries_map(s).insert(e.0@, e.1));
    }
}

/// The index of the entry with the given path, if any.
fn find_key(files: &Vec<(String, VfsFile)>, path: &str) -> (r: Option<usize>)
    ensures
        match r {
            Some(i) => i < files@.len() && files@[i as int].0@ == path@,
            None => forall|j: int| 0 <= j < files@.len() ==> files@[j].0@ != path@,
        },
{
    let mut i: usize = 0;
    while i < files.len()
        invariant
            i <= files@.len(),
            forall|j: int| 0 <= j < i ==> files@[j].0@ != path@,
        decreases files@.len() - i,
    {
        if str_eq(files[i].0.as_str(), path) {
            return Some(i);
        }
        i = i + 1;
    }
    None
}

impl View for VfsCapture {
    type V = Map<Seq<char>, VfsFile>;

    closed spec fn view(&self) -> Map<Seq<char>, VfsFile> {
        entries_map(self.files@)
    }
}

impl VfsCapture {
    #[verifier::type_invariant]
    spec fn wf(self) -> bool {
        keys_distinct(self.files@)
    }

    /// The number of files added so far (a path added twice counts twice).
    pub closed spec fn added_files(&self) -> usize {
        self.file_count
    }

    /// The number of content bytes added so far.
    pub closed spec fn added_bytes(&self) -> usize {
        self.total_bytes
    }

    /// An empty capture.
    pub fn new() -> (r: Self)
        ensures
            r@ == Map::<Seq<char>, VfsFile>::empty(),
            r.added_files() == 0,
            r.added_bytes() == 0,
    {
        VfsCapture { files: Vec::new(), file_count: 0, total_bytes: 0 }
    }

    /// Add a file; a file already held at the same path is replaced. The
    /// counts grow by one file and by the content length.
    pub fn add_file(&mut self, path: VfsPath, file: VfsFile)
        requires
            old(self).added_files() < usize::MAX,
            old(self).added_bytes() + file.content@.len() <= usize::MAX,
        ensures
            final(self)@ == old(self)@.insert(path@, file),
            final(self).added_files() == old(self).added_files() + 1,
            final(self).added_bytes() == old(self).added_bytes() + file.content@.len(),
    {
        proof {
            use_type_invariant(&*self);
        }
        let len = file.content.len();
        let key = path.to_string();
        let mut files: Vec<(String, VfsFile)> = Vec::new();
        std::mem::swap(&mut files, &mut self.files);
        let ghost before = files@;
        match find_key(&files, key.as_str()) {
            Some(i) => {
                files.set(i, (key, file));
                proof {
                    lemma_entries_map_update(before, i as int, files@[i as int]);
                }
            },
            None => {
                files.push((key, file));
                proof {
                    assert(files@.drop_last() =~= before);
                    assert(keys_distinct(files@)) by {
                        assert forall|a: int, b: int|
                            #![trigger files@[a], files@[b]]
                            0 <= a < files@.len() && 0 <= b < files@.len() && a != b implies files@[a].0@
                            != files@[b].0@ by {
                            if a < before.len() && b < before.len() {
                                assert(before[a] == files@[a] && before[b] == files@[b]);
                            }
                        }
                    }
                }
            },
        }
        self.files = files;
        self.total_bytes = self.total_bytes + len;
        self.file_count = self.file_count + 1;
    }

    /// All captured files, each path once.
    pub fn files(&self) -> (r: &[(String, VfsFile)])
        ensures
            entries_map(r@) == self@,
            keys_distinct(r@),
    {
        proof {
            use_type_invariant(self);
        }
        self.files.as_slice()
    }

    /// The number of files added.
    pub fn file_count(&self) -> (r: usize)
        ensures
            r == self.added_files(),
    {
        self.file_count
    }

    /// The number of content bytes added.
    pub fn total_bytes(&self) -> (r: usize)
        ensures
            r == self.added_bytes(),
    {
        self.total_bytes
    }

    /// The captured files as (path, file) pairs, each path once.
    pub fn into_vec(self) -> (r: Vec<(String, VfsFile)>)
        ensures
            entries_map(r@) == self@,
            keys_distinct(r@),
    {
        proof {
            use_type_invariant(&self);
        }
        self.files
    }

    /// Whether a file is held at `path`.
    pub fn has_path(&self, path: &str) -> (r: bool)
        ensures
            r == self@.contains_key(path@),
    {
        proof {
            lemma_entries_map_dom(self.files@, path@);
        }
        find_key(&self.files, path).is_some()
    }
}

impl Default for VfsCapture {
    fn default() -> (r: Self)
        ensures
            r@ == Map::<Seq<char>, VfsFile>::empty(),
            r.added_files() == 0,
            r.added_bytes() == 0,
    {
        Self::new()
    }
}

} // verus!
