//! Live per-isolate telemetry.
//!
//! Workers register each isolate they create, update its stats as requests
//! run, and deregister it when the isolate goes away; a snapshot lists the
//! live isolates. Times are wall-clock milliseconds.
use vstd::prelude::*;
use dashmap::DashMap;
use crate::worker::clock::now_millis;

verus! {

/// Live stats for one isolate.
#[derive(Debug, Clone)]
pub struct IsolateStats {
    hostname: String,
    worker_id: u32,
    created_at: u64,
    request_count: u64,
    busy: bool,
    memory_bytes: usize,
    env_keys: Vec<String>,
}

/// The text of each string in a list.
pub open spec fn key_strings(v: Seq<String>) -> Seq<Seq<char>> {
    v.map_values(|k: String| k@)
}

/// The plain values of an isolate's stats: hostname, worker, creation
/// time, request count, busy flag, last memory reading, environment keys.
pub type StatsView = (Seq<char>, u32, u64, u64, bool, usize, Seq<Seq<char>>);

/// The plain values of an isolate's stats.
pub closed spec fn stats_view(s: IsolateStats) -> StatsView {
    (
        s.hostname@,
        s.worker_id,
        s.created_at,
        s.request_count,
        s.busy,
        s.memory_bytes,
        key_strings(s.env_keys@),
    )
}

/// What a registry map holds: each isolate's stats by isolate id.
pub uninterp spec fn registry_entries(m: DashMap<String, IsolateStats>) -> Map<Seq<char>, StatsView>;

/// `DashMap::new`: an empty registry.
#[verifier::external_body]
fn stats_new() -> (r: DashMap<String, IsolateStats>)
    ensures
        registry_entries(r).dom() == Set::<Seq<char>>::empty(),
{
    DashMap::new()
}

/// `DashMap::get`, cloning the entry (a derived `Clone` keeps every field).
#[verifier::external_body]
fn stats_get(m: &DashMap<String, IsolateStats>, key: &str) -> (r: Option<IsolateStats>)
    ensures
        r is Some <==> registry_entries(*m).contains_key(key@),
        r is Some ==> stats_view(r->0) == registry_entries(*m)[key@],
{
    m.get(key).map(|e| e.value().clone())
}

/// `DashMap::insert`: the stats are stored under `key`, replacing any.
#[verifier::external_body]
fn stats_insert(m: &mut DashMap<String, IsolateStats>, key: String, stats: IsolateStats)
    ensures
        registry_entries(*final(m)) == registry_entries(*old(m)).insert(key@, stats_view(stats)),
{
    m.insert(key, stats);
}

/// `DashMap::remove`: the entry under `key` is taken out.
#[verifier::external_body]
fn stats_remove(m: &mut DashMap<String, IsolateStats>, key: &str)
    ensures
        registry_entries(*final(m)) == registry_entries(*old(m)).remove(key@),
{
    m.remove(key);
}

/// `DashMap::iter`, cloning each entry, in the map's internal (hash) order:
/// each key once, each with its stats.
#[verifier::external_body]
fn stats_entries(m: &DashMap<String, IsolateStats>) -> (r: Vec<(String, IsolateStats)>)
    ensures
        registry_entries(*m).dom() == r@.map_values(|e: (String, IsolateStats)| e.0@).to_set(),
        forall|i: int|
            0 <= i < r@.len() ==> stats_view(#[trigger] r@[i].1) == registry_entries(*m)[r@[i].0@],
        forall|i: int, j: int|
            0 <= i < r@.len() && 0 <= j < r@.len() && i != j ==> #[trigger] r@[i].0@
                != #[trigger] r@[j].0@,
{
    m.iter().map(|e| (e.key().clone(), e.value().clone())).collect()
}

/// The registry of live isolates.
#[derive(Debug)]
pub struct TelemetryRegistry {
    entries: DashMap<String, IsolateStats>,
}

impl View for TelemetryRegistry {
    type V = Map<Seq<char>, StatsView>;

    closed spec fn view(&self) -> Map<Seq<char>, StatsView> {
        registry_entries(self.entries)
    }
}

impl TelemetryRegistry {
    /// An empty registry.
    pub fn new() -> (r: Self)
        ensures
            r@ == Map::<Seq<char>, StatsView>::empty(),
    {
        let r = TelemetryRegistry { entries: stats_new() };
        assert(r@ =~= Map::<Seq<char>, StatsView>::empty());
        r
    }
}

/// Ties a telemetry entry to an isolate's lifetime: handing it back with
/// `deregister` removes the entry.
#[derive(Debug)]
pub struct IsolateTelemetryGuard {
    isolate_id: String,
}

impl View for IsolateTelemetryGuard {
    type V = Seq<char>;

    closed spec fn view(&self) -> Seq<char> {
        self.isolate_id@
    }
}

impl IsolateTelemetryGuard {
    /// The id of the isolate this guard stands for.
    pub fn isolate_id(&self) -> (r: &str)
        ensures
            r@ == self@,
    {
        self.isolate_id.as_str()
    }
}

/// The stats of a freshly registered isolate.
pub open spec fn fresh_stats(hostname: Seq<char>, worker_id: u32, now: u64, env_keys: Seq<Seq<char>>) -> StatsView {
    (hostname, worker_id, now, 0, false, 0, env_keys)
}

/// Register a freshly created isolate at time `now`: its stats start with
/// no requests, idle and unmeasured, replacing any entry under the same id.
pub fn register_isolate_at(
    reg: &mut TelemetryRegistry,
    isolate_id: String,
    hostname: String,
    worker_id: u32,
    env_keys: Vec<String>,
    now: u64,
) -> (r: IsolateTelemetryGuard)
    ensures
        final(reg)@ == old(reg)@.insert(
            isolate_id@,
            fresh_stats(hostname@, worker_id, now, key_strings(env_keys@)),
        ),
        r@ == isolate_id@,
{
    let stats = IsolateStats {
        hostname,
        worker_id,
        created_at: now,
        request_count: 0,
        busy: false,
        memory_bytes: 0,
        env_keys,
    };
    let key = isolate_id.clone();
    stats_insert(&mut reg.entries, key, stats);
    IsolateTelemetryGuard { isolate_id }
}

/// Register a freshly created isolate now (see `register_isolate_at`).
pub fn register_isolate(
    reg: &mut TelemetryRegistry,
    isolate_id: String,
    hostname: String,
    worker_id: u32,
    env_keys: Vec<String>,
) -> (r: IsolateTelemetryGuard)
    ensures
        exists|now: u64|
            final(reg)@ == old(reg)@.insert(
                isolate_id@,
                #[trigger] fresh_stats(hostname@, worker_id, now, key_strings(env_keys@)),
            ),
        r@ == isolate_id@,
{
    let now = now_millis();
    register_isolate_at(reg, isolate_id, hostname, worker_id, env_keys, now)
}

/// Remove the isolate's entry.
pub fn deregister(reg: &mut TelemetryRegistry, guard: IsolateTelemetryGuard)
    ensures
        final(reg)@ == old(reg)@.remove(guard@),
{
    stats_remove(&mut reg.entries, guard.isolate_id.as_str());
}

/// Mark an isolate busy or idle; nothing happens for an unknown id.
pub fn mark_busy(reg: &mut TelemetryRegistry, isolate_id: &str, busy: bool)
    ensures
        old(reg)@.contains_key(isolate_id@) ==> {
            let s = old(reg)@[isolate_id@];
            final(reg)@ == old(reg)@.insert(isolate_id@, (s.0, s.1, s.2, s.3, busy, s.5, s.6))
        },
        !old(reg)@.contains_key(isolate_id@) ==> final(reg)@ == old(reg)@,
{
    match stats_get(&reg.entries, isolate_id) {
        Some(mut stats) => {
            stats.busy = busy;
            stats_insert(&mut reg.entries, isolate_id.to_owned(), stats);
        },
        None => {},
    }
}

/// Record a completed request: one more request (wrapping, as an atomic
/// counter does), the latest memory reading, and idle again; nothing
/// happens for an unknown id.
pub fn record_request(reg: &mut TelemetryRegistry, isolate_id: &str, memory_bytes: usize)
    ensures
        old(reg)@.contains_key(isolate_id@) ==> {
            let s = old(reg)@[isolate_id@];
            final(reg)@ == old(reg)@.insert(
                isolate_id@,
                (s.0, s.1, s.2, s.3.wrapping_add(1), false, memory_bytes, s.6),
            )
        },
        !old(reg)@.contains_key(isolate_id@) ==> final(reg)@ == old(reg)@,
{
    match stats_get(&reg.entries, isolate_id) {
        Some(mut stats) => {
            stats.request_count = stats.request_count.wrapping_add(1);
            stats.memory_bytes = memory_bytes;
            stats.busy = false;
            stats_insert(&mut reg.entries, isolate_id.to_owned(), stats);
        },
        None => {},
    }
}

/// An immutable point-in-time view of one isolate's live stats.
#[derive(Debug, Clone)]
pub struct IsolateSnapshot {
    pub isolate_id: String,
    pub hostname: String,
    pub worker_id: u32,
    pub created_at: u64,
    pub request_count: u64,
    pub busy: bool,
    /// `None` if no memory reading was taken yet.
    pub memory_bytes: Option<usize>,
    pub env_keys: Vec<String>,
}

/// Whether a snapshot shows the given stats of the given isolate (a zero
/// memory reading shows as none).
pub open spec fn shows(snap: IsolateSnapshot, id: Seq<char>, s: StatsView) -> bool {
    &&& snap.isolate_id@ == id
    &&& snap.hostname@ == s.0
    &&& snap.worker_id == s.1
    &&& snap.created_at == s.2
    &&& snap.request_count == s.3
    &&& snap.busy == s.4
    &&& snap.memory_bytes == if s.5 == 0 {
        None::<usize>
    } else {
        Some(s.5)
    }
    &&& key_strings(snap.env_keys@) == s.6
}

/// A snapshot of every live isolate, in the registry's internal order:
/// each isolate once, showing its current stats.
pub fn snapshot(reg: &TelemetryRegistry) -> (r: Vec<IsolateSnapshot>)
    ensures
        reg@.dom() == r@.map_values(|s: IsolateSnapshot| s.isolate_id@).to_set(),
        forall|i: int|
            0 <= i < r@.len() ==> shows(#[trigger] r@[i], r@[i].isolate_id@, reg@[r@[i].isolate_id@]),
        forall|i: int, j: int|
            0 <= i < r@.len() && 0 <= j < r@.len() && i != j ==> #[trigger] r@[i].isolate_id@
                != #[trigger] r@[j].isolate_id@,
{
    let all = stats_entries(&reg.entries);
    let mut out: Vec<IsolateSnapshot> = Vec::new();
    let mut i: usize = 0;
    while i < all.len()
        invariant
            i <= all@.len(),
            out@.len() == i,
            forall|k: int|
                0 <= k < all@.len() ==> stats_view(#[trigger] all@[k].1) == reg@[all@[k].0@],
            forall|k: int|
                0 <= k < i ==> #[trigger] out@[k].isolate_id@ == all@[k].0@ && shows(
                    out@[k],
                    all@[k].0@,
                    reg@[all@[k].0@],
                ),
        decreases all@.len() - i,
    {
        let (id, stats) = (&all[i].0, &all[i].1);
        let mem = if stats.memory_bytes == 0 {
            None
        } else {
            Some(stats.memory_bytes)
        };
        let snap = IsolateSnapshot {
            isolate_id: id.clone(),
            hostname: stats.hostname.clone(),
            worker_id: stats.worker_id,
            created_at: stats.created_at,
            request_count: stats.request_count,
            busy: stats.busy,
            memory_bytes: mem,
            env_keys: clone_strings(&stats.env_keys),
        };
        proof {
            assert(stats_view(all@[i as int].1) == reg@[all@[i as int].0@]);
        }
        out.push(snap);
        i = i + 1;
    }
    proof {
        assert(out@.map_values(|s: IsolateSnapshot| s.isolate_id@) =~= all@.map_values(
            |e: (String, IsolateStats)| e.0@,
        ));
    }
    out
}

/// A copy of a list of strings.
fn clone_strings(v: &Vec<String>) -> (r: Vec<String>)
    ensures
        key_strings(r@) == key_strings(v@),
{
    let mut out: Vec<String> = Vec::new();
    let mut i: usize = 0;
    while i < v.len()
        invariant
            i <= v@.len(),
            out@.len() == i,
            forall|k: int| 0 <= k < i ==> #[trigger] out@[k]@ == v@[k]@,
        decreases v@.len() - i,
    {
        out.push(v[i].clone());
        i = i + 1;
    }
    assert(key_strings(out@) =~= key_strings(v@));
    out
}

} // verus!
