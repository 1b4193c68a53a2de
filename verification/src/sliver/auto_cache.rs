//! Where a JavaScript handler is executed from, and the sliver cache's
//! keys, paths and decisions. The cache's file operations are made by the
//! caller.
use vstd::prelude::*;
use std::hash::{Hash, Hasher};
use crate::text::{chars_of, ends_with, has_suffix, hex, hex_chars, push_all, push_str, str_eq};
use crate::wasm::loader::{extension_of, path_extension};
use crate::v8::module::{find, find_in, lemma_find_from_occurs};
use crate::vfs::disk::{join_path, path_joined};

verus! {

/// Source of JavaScript handler execution: source files or a sliver.
#[derive(Debug, Clone, PartialEq, Eq)]
pub enum JsHandlerSource {
    /// Execute from JavaScript source files
    Source {
        /// Path to the JavaScript entrypoint
        entrypoint: String,
    },
    /// Execute from sliver (VFS-first, no heap snapshot)
    Sliver {
        /// Path to the JavaScript entrypoint
        entrypoint: String,
        /// Hostname for the app
        hostname: String,
    },
}

impl JsHandlerSource {
    /// Whether this source is a sliver.
    pub fn is_sliver(&self) -> (r: bool)
        ensures
            r == (self is Sliver),
    {
        match self {
            JsHandlerSource::Sliver { .. } => true,
            _ => false,
        }
    }

    /// The entrypoint path.
    pub fn entrypoint(&self) -> (r: &str)
        ensures
            r@ == match self {
                JsHandlerSource::Source { entrypoint } => entrypoint@,
                JsHandlerSource::Sliver { entrypoint, .. } => entrypoint@,
            },
    {
        match self {
            JsHandlerSource::Source { entrypoint } => entrypoint.as_str(),
            JsHandlerSource::Sliver { entrypoint, .. } => entrypoint.as_str(),
        }
    }
}

/// What std's `DefaultHasher` (from `DefaultHasher::new`) finishes with
/// after hashing a hostname and an entrypoint.
pub uninterp spec fn key_hash_of(hostname: Seq<char>, entrypoint: Seq<char>) -> u64;

/// What std's `DefaultHasher` (from `DefaultHasher::new`) finishes with
/// after hashing a hostname, an entrypoint and a time in whole seconds.
pub uninterp spec fn timed_key_hash_of(hostname: Seq<char>, entrypoint: Seq<char>, secs: u64) -> u64;

/// `DefaultHasher::new()`, fed the hostname and the entrypoint (their
/// `Hash` impls for `str`), then `finish()`.
#[verifier::external_body]
fn key_hash(hostname: &str, entrypoint: &str) -> (r: u64)
    ensures
        r == key_hash_of(hostname@, entrypoint@),
{
    let mut hasher = std::collections::hash_map::DefaultHasher::new();
    hostname.hash(&mut hasher);
    entrypoint.hash(&mut hasher);
    hasher.finish()
}

/// `DefaultHasher::new()`, fed the hostname, the entrypoint and the
/// seconds (their `Hash` impls for `str` and `u64`), then `finish()`.
#[verifier::external_body]
fn timed_key_hash(hostname: &str, entrypoint: &str, secs: u64) -> (r: u64)
    ensures
        r == timed_key_hash_of(hostname@, entrypoint@, secs),
{
    let mut hasher = std::collections::hash_map::DefaultHasher::new();
    hostname.hash(&mut hasher);
    entrypoint.hash(&mut hasher);
    secs.hash(&mut hasher);
    hasher.finish()
}

/// The cache key of an app's entrypoint: the hex hash of its hostname and
/// entrypoint path, and of the entrypoint's modification time (whole
/// seconds since the epoch) where that could be read.
pub open spec fn cache_key_of(hostname: Seq<char>, entrypoint: Seq<char>, modified_secs: Option<u64>) -> Seq<char> {
    match modified_secs {
        Some(s) => hex(timed_key_hash_of(hostname, entrypoint, s) as nat),
        None => hex(key_hash_of(hostname, entrypoint) as nat),
    }
}

/// The part of a version before its first `.` (all of it without one).
pub open spec fn major_part(v: Seq<char>) -> Seq<char> {
    match find(v, seq!['.']) {
        Some(i) => v.take(i),
        None => v,
    }
}

/// The sliver cache: a directory holding, per hostname, the cached slivers
/// of its entrypoints and their generation locks.
#[derive(Debug, Clone)]
pub struct SliverCache {
    cache_dir: String,
}

impl SliverCache {
    /// The cache directory.
    pub closed spec fn spec_dir(&self) -> Seq<char> {
        self.cache_dir@
    }

    /// A cache rooted at `cache_dir` (which the caller has created).
    pub fn at(cache_dir: String) -> (r: Self)
        ensures
            r.spec_dir() == cache_dir@,
    {
        SliverCache { cache_dir }
    }

    /// The cache directory.
    pub fn cache_dir(&self) -> (r: &str)
        ensures
            r@ == self.spec_dir(),
    {
        self.cache_dir.as_str()
    }

    /// The cache key of an entrypoint (see `cache_key_of`).
    pub fn cache_key(hostname: &str, entrypoint: &str, modified_secs: Option<u64>) -> (r: String)
        ensures
            r@ == cache_key_of(hostname@, entrypoint@, modified_secs),
    {
        let h = match modified_secs {
            Some(s) => timed_key_hash(hostname, entrypoint, s),
            None => key_hash(hostname, entrypoint),
        };
        let mut r = String::new();
        push_all(&mut r, &hex_chars(h));
        r
    }

    fn file_in_host_dir(&self, hostname: &str, key: &str, suffix: &str) -> (r: String)
        ensures
            r@ == path_joined(path_joined(self.spec_dir(), hostname@), key@ + suffix@),
    {
        let dir = join_path(self.cache_dir.as_str(), hostname);
        let mut name = String::new();
        push_str(&mut name, key);
        push_str(&mut name, suffix);
        join_path(dir.as_str(), name.as_str())
    }

    /// The path of an entrypoint's cached sliver: `<dir>/<hostname>/<key>.sliver`
    /// (joined as paths are).
    pub fn cache_path(&self, hostname: &str, entrypoint: &str, modified_secs: Option<u64>) -> (r: String)
        ensures
            r@ == path_joined(
                path_joined(self.spec_dir(), hostname@),
                cache_key_of(hostname@, entrypoint@, modified_secs) + ".sliver"@,
            ),
    {
        let key = Self::cache_key(hostname, entrypoint, modified_secs);
        self.file_in_host_dir(hostname, key.as_str(), ".sliver")
    }

    /// The path of the lock that marks an entrypoint's sliver as being
    /// generated: `<dir>/<hostname>/<key>.sliver.lock`.
    pub fn generation_lock_path(&self, hostname: &str, entrypoint: &str, modified_secs: Option<u64>) -> (r:
        String)
        ensures
            r@ == path_joined(
                path_joined(self.spec_dir(), hostname@),
                cache_key_of(hostname@, entrypoint@, modified_secs) + ".sliver.lock"@,
            ),
    {
        let key = Self::cache_key(hostname, entrypoint, modified_secs);
        self.file_in_host_dir(hostname, key.as_str(), ".sliver.lock")
    }

    /// Whether a cached sliver made by one runtime version can be used by
    /// another: their major versions (before the first `.`) agree.
    pub fn versions_compatible(sliver_version: &str, runtime_version: &str) -> (r: bool)
        ensures
            r == (major_part(sliver_version@) == major_part(runtime_version@)),
    {
        let a = major_of(&chars_of(sliver_version));
        let b = major_of(&chars_of(runtime_version));
        crate::text::chars_eq(&a, &b)
    }
}

/// The part of a version before its first `.` (all of it without one).
pub(crate) fn major_text(v: &str) -> (r: String)
    ensures
        r@ == major_part(v@),
{
    let m = major_of(&chars_of(v));
    crate::text::string_of(&m)
}

fn major_of(v: &Vec<char>) -> (r: Vec<char>)
    ensures
        r@ == major_part(v@),
{
    let mut dot: Vec<char> = Vec::new();
    dot.push('.');
    assert(dot@ =~= seq!['.']);
    match find_in(v, &dot) {
        Some(i) => {
            proof {
                lemma_find_from_occurs(v@, dot@, 0);
            }
            crate::text::chars_to(v, i)
        },
        None => crate::text::chars_from(v, 0),
    }
}

/// Statistics of the sliver cache directory.
#[derive(Debug, Clone, PartialEq, Eq)]
pub struct SliverCacheStats {
    /// Total size of the cached slivers in bytes.
    pub total_size_bytes: u64,
    /// Number of cached slivers.
    pub sliver_count: usize,
    /// The cache directory.
    pub cache_dir: String,
}

/// Whether a listed directory entry (its file name, whether it is a
/// regular file, its size) counts as a cached sliver: a regular file whose
/// name ends with `.sliver`.
pub open spec fn counted_entry(e: (String, bool, u64)) -> bool {
    e.1 && has_suffix(e.0@, ".sliver"@)
}

/// The total size of the entries that count as cached slivers.
pub open spec fn counted_size(es: Seq<(String, bool, u64)>) -> int
    decreases es.len(),
{
    if es.len() == 0 {
        0
    } else {
        counted_size(es.drop_last()) + if counted_entry(es.last()) {
            es.last().2 as int
        } else {
            0
        }
    }
}

/// The number of entries that count as cached slivers.
pub open spec fn counted_number(es: Seq<(String, bool, u64)>) -> int
    decreases es.len(),
{
    if es.len() == 0 {
        0
    } else {
        counted_number(es.drop_last()) + if counted_entry(es.last()) {
            1int
        } else {
            0
        }
    }
}

proof fn lemma_counted_prefix(es: Seq<(String, bool, u64)>, i: int)
    requires
        0 <= i <= es.len(),
    ensures
        0 <= counted_size(es.take(i)) <= counted_size(es),
        0 <= counted_number(es.take(i)) <= i,
    decreases es.len() - i,
{
    lemma_counted_nonneg(es.take(i));
    if i < es.len() {
        lemma_counted_prefix(es, i + 1);
        assert(es.take(i + 1).drop_last() =~= es.take(i));
    } else {
        assert(es.take(i) =~= es);
    }
}

proof fn lemma_counted_nonneg(es: Seq<(String, bool, u64)>)
    ensures
        0 <= counted_size(es),
        0 <= counted_number(es) <= es.len(),
    decreases es.len(),
{
    if es.len() > 0 {
        lemma_counted_nonneg(es.drop_last());
    }
}

/// Whether a cache file of this name and age (in nanoseconds, when its
/// age is known) is older than the maximum age and to be cleaned up: only
/// files whose extension is `sliver` are.
pub open spec fn stale(file_name: Seq<char>, age_nanos: Option<u128>, max_age_nanos: u128) -> bool {
    &&& path_extension(file_name) == Some("sliver"@)
    &&& age_nanos matches Some(a) && a > max_age_nanos
}

impl SliverCache {
    /// The statistics of the cache from a listing of its directory: each
    /// entry's file name, whether it is a regular file, and its size. The
    /// regular files named `*.sliver` are counted and their sizes summed.
    pub fn stats_from(&self, entries: &[(String, bool, u64)]) -> (r: SliverCacheStats)
        requires
            counted_size(entries@) <= u64::MAX,
        ensures
            r.total_size_bytes == counted_size(entries@),
            r.sliver_count == counted_number(entries@),
            r.cache_dir@ == self.spec_dir(),
    {
        let mut total: u64 = 0;
        let mut count: usize = 0;
        let mut i: usize = 0;
        proof {
            assert(entries@.take(0) =~= Seq::<(String, bool, u64)>::empty());
        }
        while i < entries.len()
            invariant
                i <= entries@.len(),
                counted_size(entries@) <= u64::MAX,
                total == counted_size(entries@.take(i as int)),
                count == counted_number(entries@.take(i as int)),
            decreases entries@.len() - i,
        {
            proof {
                assert(entries@.take(i + 1).drop_last() =~= entries@.take(i as int));
                lemma_counted_prefix(entries@, i + 1);
            }
            let e = &entries[i];
            if e.1 && ends_with(e.0.as_str(), ".sliver") {
                proof {
                    reveal_strlit(".sliver");
                }
                total = total + e.2;
                count = count + 1;
            } else {
                proof {
                    reveal_strlit(".sliver");
                }
            }
            i = i + 1;
        }
        proof {
            assert(entries@.take(entries@.len() as int) =~= entries@);
        }
        SliverCacheStats { total_size_bytes: total, sliver_count: count, cache_dir: self.cache_dir.clone() }
    }

    /// Whether a cache file is to be cleaned up (see `stale`).
    pub fn is_stale(file_name: &str, age_nanos: Option<u128>, max_age_nanos: u128) -> (r: bool)
        ensures
            r == stale(file_name@, age_nanos, max_age_nanos),
    {
        proof {
            reveal_strlit("sliver");
        }
        match extension_of(file_name) {
            Some(ext) => if str_eq(ext.as_str(), "sliver") {
                match age_nanos {
                    Some(a) => a > max_age_nanos,
                    None => false,
                }
            } else {
                false
            },
            None => false,
        }
    }
}

/// How many times a process waits for another's sliver generation.
pub const GENERATION_WAIT_ATTEMPTS: u32 = 10;

/// How long each wait for another's sliver generation lasts.
pub const GENERATION_WAIT_MILLIS: u64 = 10;

/// A step in choosing where a handler runs from. Each step but `Run` is an
/// action for the caller, whose outcome (a yes or no) decides the next.
#[derive(Debug, Clone, PartialEq, Eq)]
pub enum HandlerStep {
    /// Open the sliver cache (did it open?).
    OpenCache,
    /// Load and unpack the cached sliver (did it unpack?).
    Load,
    /// Check the generation lock (is another process generating it?).
    CheckGeneration,
    /// Wait, then load and unpack again (did it unpack?); the wait's number
    /// from zero.
    WaitAndLoad(u32),
    /// Run the handler from this source.
    Run(JsHandlerSource),
}

/// The plain values of a step.
pub enum StepView {
    OpenCache,
    Load,
    CheckGeneration,
    WaitAndLoad(u32),
    RunSource(Seq<char>),
    RunSliver(Seq<char>, Seq<char>),
}

/// The plain values of a step.
pub open spec fn step_view(s: HandlerStep) -> StepView {
    match s {
        HandlerStep::OpenCache => StepView::OpenCache,
        HandlerStep::Load => StepView::Load,
        HandlerStep::CheckGeneration => StepView::CheckGeneration,
        HandlerStep::WaitAndLoad(k) => StepView::WaitAndLoad(k),
        HandlerStep::Run(JsHandlerSource::Source { entrypoint }) => StepView::RunSource(entrypoint@),
        HandlerStep::Run(JsHandlerSource::Sliver { entrypoint, hostname }) => StepView::RunSliver(
            entrypoint@,
            hostname@,
        ),
    }
}

/// The step after `s` whose outcome was `ok`: a cached sliver that unpacks
/// is used; without a usable cache the source is used; when another process
/// is generating the sliver and a sliver is preferred, the caller waits and
/// loads again, at most `GENERATION_WAIT_ATTEMPTS` times, before using the
/// source. A `Run` step is final.
pub open spec fn handler_next(s: StepView, ok: bool, prefer_sliver: bool, hostname: Seq<char>, entrypoint: Seq<char>) -> StepView {
    match s {
        StepView::OpenCache => if ok {
            StepView::Load
        } else {
            StepView::RunSource(entrypoint)
        },
        StepView::Load => if ok {
            StepView::RunSliver(entrypoint, hostname)
        } else {
            StepView::CheckGeneration
        },
        StepView::CheckGeneration => if ok && prefer_sliver {
            StepView::WaitAndLoad(0)
        } else {
            StepView::RunSource(entrypoint)
        },
        StepView::WaitAndLoad(k) => if ok {
            StepView::RunSliver(entrypoint, hostname)
        } else if k + 1 < GENERATION_WAIT_ATTEMPTS {
            StepView::WaitAndLoad((k + 1) as u32)
        } else {
            StepView::RunSource(entrypoint)
        },
        StepView::RunSource(e) => StepView::RunSource(e),
        StepView::RunSliver(e, h) => StepView::RunSliver(e, h),
    }
}

/// The next step of choosing where a handler runs from (see
/// `handler_next`).
pub fn next_handler_step(step: HandlerStep, ok: bool, prefer_sliver: bool, hostname: &str, entrypoint: &str) -> (r:
    HandlerStep)
    ensures
        step_view(r) == handler_next(step_view(step), ok, prefer_sliver, hostname@, entrypoint@),
{
    let source = JsHandlerSource::Source { entrypoint: entrypoint.to_owned() };
    let sliver = JsHandlerSource::Sliver { entrypoint: entrypoint.to_owned(), hostname: hostname.to_owned() };
    match step {
        HandlerStep::OpenCache => if ok {
            HandlerStep::Load
        } else {
            HandlerStep::Run(source)
        },
        HandlerStep::Load => if ok {
            HandlerStep::Run(sliver)
        } else {
            HandlerStep::CheckGeneration
        },
        HandlerStep::CheckGeneration => if ok && prefer_sliver {
            HandlerStep::WaitAndLoad(0)
        } else {
            HandlerStep::Run(source)
        },
        HandlerStep::WaitAndLoad(k) => if ok {
            HandlerStep::Run(sliver)
        } else if k < GENERATION_WAIT_ATTEMPTS - 1 {
            HandlerStep::WaitAndLoad(k + 1)
        } else {
            HandlerStep::Run(source)
        },
        HandlerStep::Run(s) => HandlerStep::Run(s),
    }
}

/// The number of steps left, at most, before a `Run` step.
pub open spec fn steps_left(s: StepView) -> nat {
    match s {
        StepView::OpenCache => GENERATION_WAIT_ATTEMPTS as nat + 3,
        StepView::Load => GENERATION_WAIT_ATTEMPTS as nat + 2,
        StepView::CheckGeneration => GENERATION_WAIT_ATTEMPTS as nat + 1,
        StepView::WaitAndLoad(k) => if k < GENERATION_WAIT_ATTEMPTS {
            (GENERATION_WAIT_ATTEMPTS - k) as nat
        } else {
            1
        },
        _ => 0,
    }
}

/// Choosing where a handler runs from ends: a `Run` step stays as it is,
/// every other step is followed by a `Run` step or by one with fewer steps
/// left, so no choice waits more than `GENERATION_WAIT_ATTEMPTS` times.
pub proof fn law_handler_choice_ends(s: StepView, ok: bool, prefer_sliver: bool, hostname: Seq<char>, entrypoint: Seq<char>)
    ensures
        (s is RunSource || s is RunSliver) ==> handler_next(s, ok, prefer_sliver, hostname, entrypoint) == s,
        !(s is RunSource || s is RunSliver) ==> ({
            let n = handler_next(s, ok, prefer_sliver, hostname, entrypoint);
            n is RunSource || n is RunSliver || steps_left(n) < steps_left(s)
        }),
{
}

} // verus!
