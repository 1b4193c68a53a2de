//! Reports on how faithfully a VFS was restored from a sliver.
use vstd::prelude::*;
use crate::sliver::error::SliverError;
use crate::text::push_str;
use crate::vfs::isolate::{stored_key, IsolateVfs};
use crate::vfs::memory::{write_step, BackendState};
use crate::vfs::types::{ResourceLimits, VfsFile, VfsPath};

verus! {

/// Verification report for VFS restoration.
#[derive(Debug, Clone)]
pub struct VerificationReport {
    pub total: usize,
    pub verified: usize,
    pub missing: Vec<String>,
    pub mismatched: Vec<String>,
}

impl VerificationReport {
    /// Whether every file was restored correctly: all verified, none
    /// missing or mismatched.
    pub fn is_complete(&self) -> (r: bool)
        ensures
            r == (self.verified == self.total && self.missing@.len() == 0
                && self.mismatched@.len() == 0),
    {
        self.verified == self.total && self.missing.len() == 0 && self.mismatched.len() == 0
    }
}

/// The paths, in order, of the entries whose read result satisfies `keep`.
pub open spec fn paths_where(
    entries: Seq<(VfsPath, VfsFile)>,
    reads: Seq<Option<Seq<u8>>>,
    keep: spec_fn(Option<Seq<u8>>, Seq<u8>) -> bool,
) -> Seq<Seq<char>>
    decreases entries.len(),
{
    if entries.len() == 0 {
        Seq::empty()
    } else {
        let n = entries.len() - 1;
        let rest = paths_where(entries.drop_last(), reads.take(n), keep);
        if keep(reads[n], entries[n].1.content@) {
            rest.push(entries[n].0@)
        } else {
            rest
        }
    }
}

/// The bytes of each read.
pub open spec fn read_views(v: Seq<Option<Vec<u8>>>) -> Seq<Option<Seq<u8>>> {
    v.map_values(|o: Option<Vec<u8>>| match o {
        Some(b) => Some(b@),
        None => None,
    })
}

/// A read that failed.
pub open spec fn is_missing() -> spec_fn(Option<Seq<u8>>, Seq<u8>) -> bool {
    |r: Option<Seq<u8>>, expected: Seq<u8>| r is None
}

/// A read that returned other content than expected.
pub open spec fn is_mismatched() -> spec_fn(Option<Seq<u8>>, Seq<u8>) -> bool {
    |r: Option<Seq<u8>>, expected: Seq<u8>| r is Some && r->0 != expected
}

/// A read that returned the expected content.
pub open spec fn is_verified() -> spec_fn(Option<Seq<u8>>, Seq<u8>) -> bool {
    |r: Option<Seq<u8>>, expected: Seq<u8>| r is Some && r->0 == expected
}

fn bytes_eq(a: &Vec<u8>, b: &Vec<u8>) -> (r: bool)
    ensures
        r == (a@ == b@),
{
    if a.len() != b.len() {
        return false;
    }
    let mut i: usize = 0;
    while i < a.len()
        invariant
            i <= a.len(),
            a.len() == b.len(),
            forall|k: int| 0 <= k < i ==> a@[k] == b@[k],
        decreases a.len() - i,
    {
        if a[i] != b[i] {
            return false;
        }
        i = i + 1;
    }
    assert(a@ =~= b@);
    true
}

/// The report for restored entries, given what reading each entry's path
/// back gave (`None` for a failed read): entries read back with their
/// content are verified, failed reads are missing, other content is
/// mismatched; paths are listed in entry order.
pub fn verification_report_of(entries: &[(VfsPath, VfsFile)], reads: &[Option<Vec<u8>>]) -> (r:
    VerificationReport)
    requires
        reads@.len() == entries@.len(),
    ensures
        r.total == entries@.len(),
        r.verified == paths_where(entries@, read_views(reads@), is_verified()).len(),
        r.missing@.map_values(|s: String| s@) == paths_where(entries@, read_views(reads@), is_missing()),
        r.mismatched@.map_values(|s: String| s@) == paths_where(entries@, read_views(reads@), is_mismatched()),
{
    let mut missing: Vec<String> = Vec::new();
    let mut mismatched: Vec<String> = Vec::new();
    let mut verified: usize = 0;
    let mut i: usize = 0;
    while i < entries.len()
        invariant
            i <= entries.len(),
            reads@.len() == entries@.len(),
            verified == paths_where(entries@.take(i as int), read_views(reads@).take(i as int), is_verified()).len(),
            verified <= i,
            missing@.map_values(|s: String| s@) == paths_where(
                entries@.take(i as int),
                read_views(reads@).take(i as int),
                is_missing(),
            ),
            mismatched@.map_values(|s: String| s@) == paths_where(
                entries@.take(i as int),
                read_views(reads@).take(i as int),
                is_mismatched(),
            ),
        decreases entries.len() - i,
    {
        proof {
            assert(entries@.take(i + 1).drop_last() =~= entries@.take(i as int));
            assert(read_views(reads@).take(i + 1).take(i as int) =~= read_views(reads@).take(i as int));
            lemma_paths_len(entries@.take(i as int), read_views(reads@).take(i as int), is_verified());
        }
        let ghost m0 = missing@;
        let ghost x0 = mismatched@;
        match &reads[i] {
            Some(content) => {
                if bytes_eq(content, &entries[i].1.content) {
                    verified = verified + 1;
                } else {
                    mismatched.push(entries[i].0.to_string());
                    proof {
                        assert(mismatched@.map_values(|s: String| s@) =~= x0.map_values(
                            |s: String| s@,
                        ).push(entries@[i as int].0@));
                    }
                }
            },
            None => {
                missing.push(entries[i].0.to_string());
                proof {
                    assert(missing@.map_values(|s: String| s@) =~= m0.map_values(|s: String| s@).push(
                        entries@[i as int].0@,
                    ));
                }
            },
        }
        i = i + 1;
    }
    proof {
        assert(entries@.take(entries.len() as int) =~= entries@);
        assert(read_views(reads@).take(entries.len() as int) =~= read_views(reads@));
    }
    VerificationReport { total: entries.len(), verified, missing, mismatched }
}

/// A filtered path list is no longer than the entries.
proof fn lemma_paths_len(
    entries: Seq<(VfsPath, VfsFile)>,
    reads: Seq<Option<Seq<u8>>>,
    keep: spec_fn(Option<Seq<u8>>, Seq<u8>) -> bool,
)
    ensures
        paths_where(entries, reads, keep).len() <= entries.len(),
    decreases entries.len(),
{
    if entries.len() > 0 {
        lemma_paths_len(entries.drop_last(), reads.take(entries.len() - 1), keep);
    }
}

/// Restoring entries in order into a VFS with namespace `ns`, limits
/// `limits` and state `st`: the state after all of them, or the index of
/// the first entry whose write fails with the state before it.
pub open spec fn restore_run(ns: Seq<char>, limits: ResourceLimits, st: BackendState, es: Seq<(VfsPath, VfsFile)>) -> Result<
    BackendState,
    (int, BackendState),
>
    decreases es.len(),
{
    if es.len() == 0 {
        Ok(st)
    } else {
        match restore_run(ns, limits, st, es.drop_last()) {
            Err(x) => Err(x),
            Ok(s) => {
                let e = es.last();
                match stored_key(ns, e.0@) {
                    Err(_) => Err((es.len() - 1, s)),
                    Ok(k) => match write_step(limits, s, k, e.1.content@) {
                        Ok(s2) => Ok(s2),
                        Err(_) => Err((es.len() - 1, s)),
                    },
                }
            },
        }
    }
}

proof fn lemma_restore_err_extends(ns: Seq<char>, limits: ResourceLimits, st: BackendState, es: Seq<(VfsPath, VfsFile)>, n: int)
    requires
        0 <= n <= es.len(),
        restore_run(ns, limits, st, es.take(n)) is Err,
    ensures
        restore_run(ns, limits, st, es) == restore_run(ns, limits, st, es.take(n)),
    decreases es.len() - n,
{
    if n == es.len() {
        assert(es.take(n) =~= es);
    } else {
        assert(es.take(n + 1).drop_last() =~= es.take(n));
        lemma_restore_err_extends(ns, limits, st, es, n + 1);
    }
}

/// Write each entry's content at its path, in order; the first write that
/// fails stops the restoration with an error naming the entry's path and
/// giving the write's error message (see `restore_run`).
pub fn restore_entries(vfs: &mut IsolateVfs, entries: &[(VfsPath, VfsFile)]) -> (r: Result<(), SliverError>)
    ensures
        final(vfs).spec_namespace() == old(vfs).spec_namespace(),
        final(vfs).spec_limits() == old(vfs).spec_limits(),
        match restore_run(old(vfs).spec_namespace(), old(vfs).spec_limits(), old(vfs).spec_state(), entries@) {
            Ok(st) => r is Ok && final(vfs).spec_state() == st,
            Err((i, st)) => r matches Err(SliverError::VfsRestore { path, .. }) && path@ == entries@[i].0@
                && final(vfs).spec_state() == st,
        },
{
    let ghost ns = vfs.spec_namespace();
    let ghost limits = vfs.spec_limits();
    let ghost st0 = vfs.spec_state();
    let mut failure: Option<SliverError> = None;
    let mut i: usize = 0;
    proof {
        assert(entries@.take(0) =~= Seq::<(VfsPath, VfsFile)>::empty());
    }
    while i < entries.len() && failure.is_none()
        invariant
            i <= entries@.len(),
            vfs.spec_namespace() == ns,
            vfs.spec_limits() == limits,
            failure is None ==> restore_run(ns, limits, st0, entries@.take(i as int)) == Ok::<
                BackendState,
                (int, BackendState),
            >(vfs.spec_state()),
            failure is Some ==> i < entries@.len() && restore_run(ns, limits, st0, entries@) == Err::<
                BackendState,
                (int, BackendState),
            >((i as int, vfs.spec_state())) && (failure matches Some(SliverError::VfsRestore { path, .. })
                && path@ == entries@[i as int].0@),
        decreases (entries@.len() - i) * 2 + if failure is None {
            1int
        } else {
            0int
        },
    {
        proof {
            assert(entries@.take(i + 1).drop_last() =~= entries@.take(i as int));
        }
        let (path, file) = (&entries[i].0, &entries[i].1);
        match vfs.write(path.as_str(), file.content.as_slice()) {
            Ok(()) => {
                i = i + 1;
            },
            Err(e) => {
                proof {
                    lemma_restore_err_extends(ns, limits, st0, entries@, i + 1);
                }
                failure = Some(SliverError::VfsRestore { path: path.to_string(), reason: e.to_string() });
            },
        }
    }
    match failure {
        Some(f) => Err(f),
        None => {
            proof {
                assert(entries@.take(entries@.len() as int) =~= entries@);
            }
            Ok(())
        },
    }
}

/// What reading each entry's path back from the VFS gives: its content
/// where the VFS holds the path, else nothing.
pub open spec fn read_back(vfs: IsolateVfs, es: Seq<(VfsPath, VfsFile)>) -> Seq<Option<Seq<u8>>> {
    Seq::new(
        es.len(),
        |i: int|
            if vfs.has_file(es[i].0@) {
                Some(vfs.file_content(es[i].0@))
            } else {
                None
            },
    )
}

/// The report on restored entries: each entry's path read back from the
/// VFS and compared with its content (see `verification_report_of`).
pub fn verify_vfs_restoration(entries: &[(VfsPath, VfsFile)], vfs: &IsolateVfs) -> (r: VerificationReport)
    ensures
        r.total == entries@.len(),
        r.verified == paths_where(entries@, read_back(*vfs, entries@), is_verified()).len(),
        r.missing@.map_values(|s: String| s@) == paths_where(entries@, read_back(*vfs, entries@), is_missing()),
        r.mismatched@.map_values(|s: String| s@) == paths_where(
            entries@,
            read_back(*vfs, entries@),
            is_mismatched(),
        ),
{
    let mut reads: Vec<Option<Vec<u8>>> = Vec::new();
    let mut i: usize = 0;
    while i < entries.len()
        invariant
            i <= entries@.len(),
            read_views(reads@) == read_back(*vfs, entries@).take(i as int),
        decreases entries@.len() - i,
    {
        let ghost before = read_views(reads@);
        let p = entries[i].0.as_str();
        let got = match vfs.read(p) {
            Ok(c) => Some(c),
            Err(_) => None,
        };
        let ghost g = read_views(seq![got])[0];
        assert(g == read_back(*vfs, entries@)[i as int]);
        reads.push(got);
        proof {
            assert(read_views(reads@) =~= before.push(g));
            assert(read_views(reads@) =~= read_back(*vfs, entries@).take(i + 1));
        }
        i = i + 1;
    }
    proof {
        assert(read_back(*vfs, entries@).take(entries@.len() as int) =~= read_back(*vfs, entries@));
    }
    verification_report_of(entries, reads.as_slice())
}

/// The files after a run of successful restoring writes hold, at each
/// entry's stored path, that entry's content, when no two entries are
/// stored at the same path.
proof fn lemma_restored_files(ns: Seq<char>, limits: ResourceLimits, st: BackendState, es: Seq<(VfsPath, VfsFile)>)
    requires
        restore_run(ns, limits, st, es) is Ok,
        forall|a: int, b: int|
            0 <= a < es.len() && 0 <= b < es.len() && a != b ==> stored_key(ns, #[trigger] es[a].0@)
                != stored_key(ns, #[trigger] es[b].0@),
    ensures
        forall|i: int|
            0 <= i < es.len() ==> (stored_key(ns, #[trigger] es[i].0@) matches Ok(k) && restore_run(
                ns,
                limits,
                st,
                es,
            )->Ok_0.0.contains_key(k) && restore_run(ns, limits, st, es)->Ok_0.0[k].0 == es[i].1.content@),
    decreases es.len(),
{
    if es.len() > 0 {
        let d = es.drop_last();
        assert(restore_run(ns, limits, st, d) is Ok);
        assert forall|a: int, b: int|
            0 <= a < d.len() && 0 <= b < d.len() && a != b implies stored_key(ns, #[trigger] d[a].0@) != stored_key(
            ns,
            #[trigger] d[b].0@,
        ) by {
            assert(d[a] == es[a] && d[b] == es[b]);
        }
        lemma_restored_files(ns, limits, st, d);
        let n = es.len() - 1;
        assert forall|i: int| 0 <= i < es.len() implies (stored_key(ns, #[trigger] es[i].0@) matches Ok(k)
            && restore_run(ns, limits, st, es)->Ok_0.0.contains_key(k) && restore_run(ns, limits, st, es)->Ok_0.0[k].0
            == es[i].1.content@) by {
            if i < n {
                assert(d[i] == es[i]);
                assert(stored_key(ns, es[i].0@) != stored_key(ns, es[n].0@));
            }
        }
    }
}

proof fn lemma_all_verified(es: Seq<(VfsPath, VfsFile)>, reads: Seq<Option<Seq<u8>>>)
    requires
        reads.len() == es.len(),
        forall|i: int| 0 <= i < es.len() ==> #[trigger] reads[i] == Some(es[i].1.content@),
    ensures
        paths_where(es, reads, is_verified()).len() == es.len(),
        paths_where(es, reads, is_missing()).len() == 0,
        paths_where(es, reads, is_mismatched()).len() == 0,
    decreases es.len(),
{
    if es.len() > 0 {
        let n = es.len() - 1;
        assert forall|i: int| 0 <= i < n implies #[trigger] reads.take(n)[i] == Some(es.drop_last()[i].1.content@) by {
            assert(reads.take(n)[i] == reads[i]);
        }
        lemma_all_verified(es.drop_last(), reads.take(n));
        assert(reads[n] == Some(es[n].1.content@));
    }
}

/// Reading back what was restored gives a complete report: after a
/// successful restoration of entries no two of which are stored at the
/// same path, every entry reads back its content, so all are verified and
/// none is missing or mismatched.
pub proof fn law_restore_then_verify(before: IsolateVfs, after: IsolateVfs, es: Seq<(VfsPath, VfsFile)>)
    requires
        restore_run(before.spec_namespace(), before.spec_limits(), before.spec_state(), es) is Ok,
        after.spec_namespace() == before.spec_namespace(),
        after.spec_state() == restore_run(before.spec_namespace(), before.spec_limits(), before.spec_state(), es)->Ok_0,
        forall|a: int, b: int|
            0 <= a < es.len() && 0 <= b < es.len() && a != b ==> stored_key(before.spec_namespace(), #[trigger] es[a].0@)
                != stored_key(before.spec_namespace(), #[trigger] es[b].0@),
    ensures
        paths_where(es, read_back(after, es), is_verified()).len() == es.len(),
        paths_where(es, read_back(after, es), is_missing()).len() == 0,
        paths_where(es, read_back(after, es), is_mismatched()).len() == 0,
{
    let ns = before.spec_namespace();
    lemma_restored_files(ns, before.spec_limits(), before.spec_state(), es);
    after.lemma_state_files();
    let reads = read_back(after, es);
    assert forall|i: int| 0 <= i < es.len() implies #[trigger] reads[i] == Some(es[i].1.content@) by {
        assert(stored_key(ns, es[i].0@) is Ok);
    }
    lemma_all_verified(es, reads);
}

} // verus!
