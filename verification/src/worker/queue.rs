//! Queue bookkeeping: errors, statistics and hostname hashing for affine
//! dispatch (the same hostname, in any letter case, always maps to the same
//! pool).
use std::hash::Hash;
use std::hash::Hasher;
use vstd::prelude::*;
use crate::text::{all_ascii, ascii_lower, lowercase_of, push_str, to_lowercase};
use crate::vfs::disk::{join_path, path_joined};

verus! {

/// Error types for queue operations.
#[derive(Debug, Clone, PartialEq)]
pub enum QueueError {
    /// Channel is at capacity (bounded channel full)
    ChannelFull,
    /// Worker thread not found (invalid index)
    WorkerNotFound,
    /// Pool not found for hostname
    PoolNotFound,
    /// Send error (channel disconnected)
    SendError(String),
    /// Other errors
    Other(String),
}

impl QueueError {
    /// The error message.
    pub fn to_string(&self) -> (r: String)
        ensures
            r@ == match self {
                QueueError::ChannelFull => "WorkQueue channel is full"@,
                QueueError::WorkerNotFound => "Worker thread not found"@,
                QueueError::PoolNotFound => "Pool not found for hostname"@,
                QueueError::SendError(e) => "Send error: "@ + e@,
                QueueError::Other(e) => "Queue error: "@ + e@,
            },
    {
        let mut s = String::new();
        match self {
            QueueError::ChannelFull => push_str(&mut s, "WorkQueue channel is full"),
            QueueError::WorkerNotFound => push_str(&mut s, "Worker thread not found"),
            QueueError::PoolNotFound => push_str(&mut s, "Pool not found for hostname"),
            QueueError::SendError(e) => {
                push_str(&mut s, "Send error: ");
                push_str(&mut s, e.as_str());
            },
            QueueError::Other(e) => {
                push_str(&mut s, "Queue error: ");
                push_str(&mut s, e.as_str());
            },
        }
        s
    }
}

/// Statistics for monitoring queue performance.
#[derive(Debug)]
pub struct QueueStats {
    /// Total tasks submitted
    pub tasks_submitted: u64,
    /// Total tasks completed
    pub tasks_completed: u64,
    /// Tasks dropped due to channel full
    pub tasks_dropped: u64,
    /// Number of active pools
    pub active_pools: u32,
    /// Number of active workers
    pub active_workers: u32,
}

impl Default for QueueStats {
    fn default() -> (r: Self)
        ensures
            r.tasks_submitted == 0 && r.tasks_completed == 0 && r.tasks_dropped == 0
                && r.active_pools == 0 && r.active_workers == 0,
    {
        QueueStats { tasks_submitted: 0, tasks_completed: 0, tasks_dropped: 0, active_pools: 0, active_workers: 0 }
    }
}

/// Immutable snapshot of queue statistics.
#[derive(Debug, Clone, Copy, PartialEq, Eq, Structural)]
pub struct StatsSnapshot {
    pub tasks_submitted: u64,
    pub tasks_completed: u64,
    pub tasks_dropped: u64,
    pub active_pools: u32,
    pub active_workers: u32,
}

impl QueueStats {
    /// Statistics with all counters at zero.
    pub fn new() -> (r: Self)
        ensures
            r.tasks_submitted == 0 && r.tasks_completed == 0 && r.tasks_dropped == 0
                && r.active_pools == 0 && r.active_workers == 0,
    {
        Self::default()
    }

    /// A copy of the current counters.
    pub fn snapshot(&self) -> (r: StatsSnapshot)
        ensures
            r == (StatsSnapshot {
                tasks_submitted: self.tasks_submitted,
                tasks_completed: self.tasks_completed,
                tasks_dropped: self.tasks_dropped,
                active_pools: self.active_pools,
                active_workers: self.active_workers,
            }),
    {
        StatsSnapshot {
            tasks_submitted: self.tasks_submitted,
            tasks_completed: self.tasks_completed,
            tasks_dropped: self.tasks_dropped,
            active_pools: self.active_pools,
            active_workers: self.active_workers,
        }
    }
}

/// What std's `DefaultHasher` (built with `DefaultHasher::new`) finishes
/// with after hashing a string.
pub uninterp spec fn default_hash_of(s: Seq<char>) -> u64;

/// Hashes a string with a fresh `DefaultHasher::new()` (its `Hash` impl for
/// `str`) and returns `finish()`.
#[verifier::external_body]
pub(crate) fn default_hash(s: &str) -> (r: u64)
    ensures
        r == default_hash_of(s@),
{
    let mut hasher = std::collections::hash_map::DefaultHasher::new();
    s.hash(&mut hasher);
    hasher.finish()
}

/// Hash a hostname case-insensitively: the default hash of its lowercase
/// form.
pub fn hash_hostname(hostname: &str) -> (r: u64)
    ensures
        r == default_hash_of(lowercase_of(hostname@)),
        all_ascii(hostname@) ==> r == default_hash_of(ascii_lower(hostname@)),
{
    let lower = to_lowercase(hostname);
    default_hash(lower.as_str())
}

/// Hostnames that differ only in ASCII letter case hash alike.
pub proof fn law_hash_hostname_case_insensitive(a: Seq<char>, b: Seq<char>)
    requires
        all_ascii(a),
        all_ascii(b),
        ascii_lower(a) == ascii_lower(b),
    ensures
        default_hash_of(ascii_lower(a)) == default_hash_of(ascii_lower(b)),
{
}

/// What `std::path::Path::parent` gives for a path, as text.
pub uninterp spec fn path_parent_of(path: Seq<char>) -> Option<Seq<char>>;

/// What `std::path::Path::file_stem` gives for a path, as text.
pub uninterp spec fn path_stem_of(path: Seq<char>) -> Option<Seq<char>>;

/// The characters of an optional string.
pub open spec fn opt_chars(s: Option<String>) -> Option<Seq<char>> {
    match s {
        Some(t) => Some(t@),
        None => None,
    }
}

/// `Path::new(path).parent()`: the path without its final component, none
/// when it ends in a root or is empty.
#[verifier::external_body]
fn path_parent(path: &str) -> (r: Option<String>)
    ensures
        opt_chars(r) == path_parent_of(path@),
{
    std::path::Path::new(path).parent().map(|p| p.to_string_lossy().into_owned())
}

/// `Path::new(path).file_stem()`: the final component's name without its
/// extension, if it has one.
#[verifier::external_body]
fn path_stem(path: &str) -> (r: Option<String>)
    ensures
        opt_chars(r) == path_stem_of(path@),
{
    std::path::Path::new(path).file_stem().map(|p| p.to_string_lossy().into_owned())
}

/// How an app's VFS is configured, as the work queue sees it when it first
/// needs a pool for the app.
#[derive(Debug, Clone, PartialEq, Eq)]
pub enum AppVfsConfig {
    /// The app is not in the registry, or there is no registry.
    Unregistered,
    /// A disk backend, with its base directory if configured.
    Disk { base_path: Option<String> },
    /// The memory backend, for an app with this entrypoint (possibly empty).
    Memory { entrypoint: String },
    /// The object store.
    S3,
}

/// A step in giving a hostname its worker pool. `ProbeDir` and `OpenDisk`
/// are actions for the caller, whose outcome (yes or no) decides the next
/// step; the others are final.
#[derive(Debug, Clone, PartialEq, Eq)]
pub enum PoolStep {
    /// The hostname has a pool: use it.
    Reuse,
    /// Check whether `candidate` is a directory.
    ProbeDir { candidate: String, fallback: String },
    /// Open a disk backend over this base directory (did it open?).
    OpenDisk(String),
    /// Create the pool over a memory backend.
    UseMemory,
    /// Create the pool over the disk backend opened at this directory.
    UseDisk(String),
}

/// The plain values of a pool step.
pub enum PoolStepView {
    Reuse,
    ProbeDir(Seq<char>, Seq<char>),
    OpenDisk(Seq<char>),
    UseMemory,
    UseDisk(Seq<char>),
}

pub open spec fn pool_step_view(s: PoolStep) -> PoolStepView {
    match s {
        PoolStep::Reuse => PoolStepView::Reuse,
        PoolStep::ProbeDir { candidate, fallback } => PoolStepView::ProbeDir(candidate@, fallback@),
        PoolStep::OpenDisk(b) => PoolStepView::OpenDisk(b@),
        PoolStep::UseMemory => PoolStepView::UseMemory,
        PoolStep::UseDisk(b) => PoolStepView::UseDisk(b@),
    }
}

/// The first step for a hostname: an existing pool is reused; a registered
/// app with a configured disk gets that disk, one whose disk is not
/// configured or that uses the object store gets memory; a memory app with
/// an entrypoint gets a disk rooted at the entrypoint's directory, or at the
/// subdirectory named after the entrypoint's stem where that is a
/// directory; an unregistered app gets the global disk directory if there
/// is one, else memory.
pub open spec fn pool_plan(exists: bool, app: AppVfsConfig, global_disk: Option<Seq<char>>) -> PoolStepView {
    if exists {
        PoolStepView::Reuse
    } else {
        match app {
            AppVfsConfig::Unregistered => match global_disk {
                Some(b) => PoolStepView::OpenDisk(b),
                None => PoolStepView::UseMemory,
            },
            AppVfsConfig::Disk { base_path } => match base_path {
                Some(b) => PoolStepView::OpenDisk(b@),
                None => PoolStepView::UseMemory,
            },
            AppVfsConfig::Memory { entrypoint } => if entrypoint@.len() == 0 {
                PoolStepView::UseMemory
            } else {
                match path_parent_of(entrypoint@) {
                    Some(parent) => {
                        let stem = match path_stem_of(entrypoint@) {
                            Some(st) => st,
                            None => Seq::<char>::empty(),
                        };
                        PoolStepView::ProbeDir(path_joined(parent, stem), parent)
                    },
                    None => PoolStepView::UseMemory,
                }
            },
            AppVfsConfig::S3 => PoolStepView::UseMemory,
        }
    }
}

/// The step after `s` whose outcome was `ok`: a probed directory that
/// exists becomes the disk root, else the fallback does; a disk backend
/// that fails to open leaves the pool on memory. Final steps stay.
pub open spec fn pool_next(s: PoolStepView, ok: bool) -> PoolStepView {
    match s {
        PoolStepView::ProbeDir(c, f) => PoolStepView::OpenDisk(if ok { c } else { f }),
        PoolStepView::OpenDisk(b) => if ok {
            PoolStepView::UseDisk(b)
        } else {
            PoolStepView::UseMemory
        },
        other => other,
    }
}

/// The first step in giving a hostname its pool (see `pool_plan`).
pub fn plan_pool(exists: bool, app: &AppVfsConfig, global_disk: Option<&str>) -> (r: PoolStep)
    ensures
        pool_step_view(r) == pool_plan(exists, *app, opt_str_chars(global_disk)),
{
    if exists {
        return PoolStep::Reuse;
    }
    match app {
        AppVfsConfig::Unregistered => match global_disk {
            Some(b) => PoolStep::OpenDisk(b.to_owned()),
            None => PoolStep::UseMemory,
        },
        AppVfsConfig::Disk { base_path } => match base_path {
            Some(b) => PoolStep::OpenDisk(b.clone()),
            None => PoolStep::UseMemory,
        },
        AppVfsConfig::Memory { entrypoint } => {
            if entrypoint.as_str().is_empty() {
                return PoolStep::UseMemory;
            }
            match path_parent(entrypoint.as_str()) {
                Some(parent) => {
                    let stem = match path_stem(entrypoint.as_str()) {
                        Some(st) => st,
                        None => String::new(),
                    };
                    let candidate = join_path(parent.as_str(), stem.as_str());
                    PoolStep::ProbeDir { candidate, fallback: parent }
                },
                None => PoolStep::UseMemory,
            }
        },
        AppVfsConfig::S3 => PoolStep::UseMemory,
    }
}

/// The characters of an optional string slice.
pub open spec fn opt_str_chars(s: Option<&str>) -> Option<Seq<char>> {
    match s {
        Some(t) => Some(t@),
        None => None,
    }
}

/// The next step in giving a hostname its pool (see `pool_next`).
pub fn next_pool_step(step: PoolStep, ok: bool) -> (r: PoolStep)
    ensures
        pool_step_view(r) == pool_next(pool_step_view(step), ok),
{
    match step {
        PoolStep::ProbeDir { candidate, fallback } => PoolStep::OpenDisk(if ok { candidate } else { fallback }),
        PoolStep::OpenDisk(b) => if ok {
            PoolStep::UseDisk(b)
        } else {
            PoolStep::UseMemory
        },
        other => other,
    }
}

} // verus!
