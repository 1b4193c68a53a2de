//! Cross-isolate LRU eviction with soft and hard eviction policies.
//!
//! The manager tracks every registered isolate with its usage metadata and
//! its eviction state (Active, Draining, Evicted). Under memory pressure it
//! picks victims among idle, active isolates according to the configured
//! policy:
//!
//! - **LRU** (default): least recently used first
//! - **LFU**: least frequently used first
//! - **Random**: an arbitrary order
//! - **LargestFirst**: largest memory footprint first
//!
//! Soft eviction marks an isolate as draining (it finishes its current
//! requests and accepts no new ones); hard eviction evicts it at once.
//!
//! Timestamps are milliseconds on the wall clock; every operation that reads
//! the clock has a variant taking the reading as an argument.
use std::hash::Hash;
use std::hash::Hasher;
use vstd::prelude::*;
use crate::text::{decimal, push_char, push_decimal};
use crate::worker::clock::now_millis;
use crate::worker::memory_monitor::MemoryPressureLevel;
use crate::worker::queue::{default_hash, default_hash_of};

verus! {

// ---------------------------------------------------------------------------
// Isolate identifiers
// ---------------------------------------------------------------------------

/// The later of two times.
pub open spec fn later_of(a: u64, b: u64) -> u64 {
    if b < a {
        a
    } else {
        b
    }
}

/// Unique identifier for an isolate within the eviction manager, such as
/// `iso_a3f7b2d8_00000042`.
#[derive(Debug, Clone, PartialEq, Eq, Hash)]
pub struct IsolateId(pub String);

impl View for IsolateId {
    type V = Seq<char>;

    open spec fn view(&self) -> Seq<char> {
        self.0@
    }
}

/// Whether a character is a lowercase hexadecimal digit.
pub open spec fn is_lower_hex(c: char) -> bool {
    ('0' <= c && c <= '9') || ('a' <= c && c <= 'f')
}

/// A freshly generated random (version 4) UUID in its hyphenated lowercase
/// text form (`uuid::Uuid::new_v4().to_string()`): 36 characters, of which
/// the first eight are lowercase hex digits followed by a `-`. The value is
/// random: nothing more is promised of it.
#[verifier::external_body]
fn fresh_uuid_text() -> (r: String)
    ensures
        r@.len() == 36,
        forall|i: int| 0 <= i < 8 ==> is_lower_hex(#[trigger] r@[i]),
        r@[8] == '-',
{
    uuid::Uuid::new_v4().to_string()
}

/// The identifier made from UUID characters `u` and a counter:
/// `iso_{u}_{counter in hex}`.
pub open spec fn isolate_id_text(u: Seq<char>, counter: nat) -> Seq<char> {
    seq!['i', 's', 'o', '_'] + u + seq!['_'] + hex_counter(counter)
}

impl IsolateId {
    /// A new identifier `iso_{first 8 chars of a random UUID}_{counter}`,
    /// the counter in eight or more lowercase hex digits.
    pub fn generate_with_counter(counter: u64) -> (r: Self)
        ensures
            exists|u: Seq<char>|
                u.len() == 8 && (forall|i: int| 0 <= i < 8 ==> is_lower_hex(#[trigger] u[i])) && r@
                    == #[trigger] isolate_id_text(u, counter as nat),
    {
        let uuid = fresh_uuid_text();
        let uchars = crate::text::chars_of(uuid.as_str());
        let mut s = String::new();
        push_char(&mut s, 'i');
        push_char(&mut s, 's');
        push_char(&mut s, 'o');
        push_char(&mut s, '_');
        let mut i: usize = 0;
        while i < 8
            invariant
                i <= 8,
                uchars@ == uuid@,
                uuid@.len() == 36,
                s@ == seq!['i', 's', 'o', '_'] + uchars@.take(i as int),
            decreases 8 - i,
        {
            push_char(&mut s, uchars[i]);
            assert(uchars@.take(i + 1) =~= uchars@.take(i as int).push(uchars@[i as int]));
            i = i + 1;
        }
        push_char(&mut s, '_');
        let hex = hex_counter_chars(counter);
        crate::text::push_all(&mut s, &hex);
        let ghost u = uuid@.take(8);
        assert(forall|i: int| 0 <= i < 8 ==> u[i] == uuid@[i]);
        assert(s@ =~= isolate_id_text(u, counter as nat));
        IsolateId(s)
    }

    /// Wrap an existing string as an identifier.
    pub fn from_string(s: &str) -> (r: Self)
        ensures
            r@ == s@,
    {
        IsolateId(s.to_owned())
    }

    /// The identifier text.
    pub fn as_str(&self) -> (r: &str)
        ensures
            r@ == self@,
    {
        self.0.as_str()
    }

    /// The identifier text as an owned string.
    pub fn to_string(&self) -> (r: String)
        ensures
            r@ == self@,
    {
        self.0.clone()
    }

    /// A copy of this identifier.
    pub fn duplicate(&self) -> (r: Self)
        ensures
            r@ == self@,
    {
        IsolateId(self.0.clone())
    }

    /// Whether two identifiers name the same isolate.
    pub fn same_as(&self, other: &IsolateId) -> (r: bool)
        ensures
            r == (self@ == other@),
    {
        self.0 == other.0
    }
}

/// The counter rendered in lowercase hex, padded with zeros to at least
/// eight digits.
pub open spec fn hex_counter(n: nat) -> Seq<char>
    decreases n,
{
    hex_pad(hex_digits(n))
}

/// Lowercase hex digits of `n`, most significant first, without leading zeros.
pub open spec fn hex_digits(n: nat) -> Seq<char>
    decreases n,
{
    if n < 16 {
        seq![crate::text::hex_char(n)]
    } else {
        hex_digits(n / 16).push(crate::text::hex_char(n % 16))
    }
}

/// Left-pads a digit string with `'0'` to eight characters.
pub open spec fn hex_pad(d: Seq<char>) -> Seq<char> {
    if d.len() >= 8 {
        d
    } else {
        Seq::new((8 - d.len()) as nat, |i: int| '0') + d
    }
}

fn hex_digit_chars(n: u64) -> (v: Vec<char>)
    ensures
        v@ == hex_digits(n as nat),
    decreases n,
{
    if n < 16 {
        let mut v: Vec<char> = Vec::new();
        v.push(crate::text::hex_of(n as u8));
        assert(v@ =~= seq![crate::text::hex_char(n as nat)]);
        v
    } else {
        let mut v = hex_digit_chars(n / 16);
        v.push(crate::text::hex_of((n % 16) as u8));
        v
    }
}

fn hex_counter_chars(n: u64) -> (v: Vec<char>)
    ensures
        v@ == hex_counter(n as nat),
{
    let d = hex_digit_chars(n);
    if d.len() >= 8 {
        d
    } else {
        let mut v: Vec<char> = Vec::new();
        let pad = 8 - d.len();
        let mut i: usize = 0;
        while i < pad
            invariant
                i <= pad,
                pad == 8 - d@.len(),
                v@ =~= Seq::new(i as nat, |k: int| '0'),
            decreases pad - i,
        {
            v.push('0');
            i = i + 1;
        }
        let ghost zeros = v@;
        let mut j: usize = 0;
        while j < d.len()
            invariant
                j <= d.len(),
                v@ =~= zeros + d@.take(j as int),
            decreases d.len() - j,
        {
            v.push(d[j]);
            j = j + 1;
        }
        assert(d@.take(d@.len() as int) =~= d@);
        v
    }
}

// ---------------------------------------------------------------------------
// Policies and per-isolate metadata
// ---------------------------------------------------------------------------

/// Eviction policy for selecting which isolates to evict.
#[derive(Debug, Clone, Copy, PartialEq, Eq, Structural)]
pub enum EvictionPolicy {
    /// Least Recently Used - evict isolates that haven't been used longest
    Lru,
    /// Least Frequently Used - evict least accessed isolates
    Lfu,
    /// Random selection - no ordering guarantee
    Random,
    /// Largest memory footprint first
    LargestFirst,
}

impl Default for EvictionPolicy {
    fn default() -> (r: Self)
        ensures
            r == EvictionPolicy::Lru,
    {
        EvictionPolicy::Lru
    }
}

impl EvictionPolicy {
    /// A human-readable description of the policy.
    pub fn description(&self) -> (r: &'static str)
        ensures
            *self == EvictionPolicy::Lru ==> r@ == "Least Recently Used"@,
            *self == EvictionPolicy::Lfu ==> r@ == "Least Frequently Used"@,
            *self == EvictionPolicy::Random ==> r@ == "Random Selection"@,
            *self == EvictionPolicy::LargestFirst ==> r@ == "Largest Memory First"@,
    {
        match self {
            EvictionPolicy::Lru => "Least Recently Used",
            EvictionPolicy::Lfu => "Least Frequently Used",
            EvictionPolicy::Random => "Random Selection",
            EvictionPolicy::LargestFirst => "Largest Memory First",
        }
    }
}

/// Metadata tracked for each isolate. Times are wall-clock milliseconds.
#[derive(Debug, Clone)]
pub struct IsolateMetadata {
    /// Hostname this isolate serves
    pub hostname: String,
    /// Worker ID (index in the pool)
    pub worker_id: u32,
    /// When this isolate was last used (ms)
    pub last_used: u64,
    /// How many times this isolate has been used
    pub use_count: u64,
    /// Memory footprint in bytes (last known)
    pub memory_footprint: usize,
    /// Whether this isolate can be safely evicted (stateless)
    pub is_stateless: bool,
    /// Number of currently active requests
    pub active_requests: usize,
    /// When this isolate was created (ms)
    pub created_at: u64,
}

/// Rendering of an age in whole seconds: `45s`, `3m 12s` or `2h 5m`.
pub open spec fn age_text(secs: nat) -> Seq<char> {
    if secs < 60 {
        decimal(secs).push('s')
    } else if secs < 3600 {
        decimal(secs / 60) + seq!['m', ' '] + decimal(secs % 60).push('s')
    } else {
        decimal(secs / 3600) + seq!['h', ' '] + decimal((secs % 3600) / 60).push('m')
    }
}

/// Milliseconds from `from` to `to`, zero when `to` is earlier.
pub open spec fn elapsed_ms(from: u64, to: u64) -> nat {
    if to >= from {
        (to - from) as nat
    } else {
        0
    }
}

impl IsolateMetadata {
    /// Metadata for a new isolate created at time `now`: unused, stateless,
    /// idle, with no known footprint.
    pub fn new_at(hostname: &str, worker_id: u32, now: u64) -> (r: Self)
        ensures
            r.hostname@ == hostname@,
            r.worker_id == worker_id,
            r.last_used == now,
            r.created_at == now,
            r.use_count == 0,
            r.memory_footprint == 0,
            r.is_stateless,
            r.active_requests == 0,
    {
        IsolateMetadata {
            hostname: hostname.to_owned(),
            worker_id,
            last_used: now,
            use_count: 0,
            memory_footprint: 0,
            is_stateless: true,
            active_requests: 0,
            created_at: now,
        }
    }

    /// Metadata for a new isolate created now (see `new_at`).
    pub fn new(hostname: &str, worker_id: u32) -> (r: Self)
        ensures
            r.hostname@ == hostname@,
            r.worker_id == worker_id,
            r.last_used == r.created_at,
            r.use_count == 0,
            r.memory_footprint == 0,
            r.is_stateless,
            r.active_requests == 0,
    {
        Self::new_at(hostname, worker_id, now_millis())
    }

    /// Record a use at time `now`.
    pub fn record_usage_at(&mut self, now: u64)
        requires
            old(self).use_count < u64::MAX,
        ensures
            *final(self) == (IsolateMetadata {
                last_used: now,
                use_count: (old(self).use_count + 1) as u64,
                ..*old(self)
            }),
    {
        self.last_used = now;
        self.use_count = self.use_count + 1;
    }

    /// Record a use now (see `record_usage_at`). The time of last use never
    /// goes back: a clock reading before it leaves it as it was.
    pub fn record_usage(&mut self)
        requires
            old(self).use_count < u64::MAX,
        ensures
            *final(self) == (IsolateMetadata {
                last_used: final(self).last_used,
                use_count: (old(self).use_count + 1) as u64,
                ..*old(self)
            }),
            final(self).last_used >= old(self).last_used,
            exists|now: u64| final(self).last_used == #[trigger] later_of(old(self).last_used, now),
    {
        let reading = now_millis();
        let now = if reading < self.last_used { self.last_used } else { reading };
        assert(now == later_of(self.last_used, reading));
        self.record_usage_at(now);
    }

    /// Update the memory footprint.
    pub fn update_memory(&mut self, bytes: usize)
        ensures
            *final(self) == (IsolateMetadata { memory_footprint: bytes, ..*old(self) }),
    {
        self.memory_footprint = bytes;
    }

    /// Mark this isolate as holding state (not safely evictable).
    pub fn mark_stateful(&mut self)
        ensures
            *final(self) == (IsolateMetadata { is_stateless: false, ..*old(self) }),
    {
        self.is_stateless = false;
    }

    /// Mark this isolate as stateless (safely evictable).
    pub fn mark_stateless(&mut self)
        ensures
            *final(self) == (IsolateMetadata { is_stateless: true, ..*old(self) }),
    {
        self.is_stateless = true;
    }

    /// Increment the active request count.
    pub fn increment_active(&mut self)
        requires
            old(self).active_requests < usize::MAX,
        ensures
            *final(self) == (IsolateMetadata {
                active_requests: (old(self).active_requests + 1) as usize,
                ..*old(self)
            }),
    {
        self.active_requests = self.active_requests + 1;
    }

    /// Decrement the active request count, never below zero.
    pub fn decrement_active(&mut self)
        ensures
            *final(self) == (IsolateMetadata {
                active_requests: if old(self).active_requests > 0 {
                    (old(self).active_requests - 1) as usize
                } else {
                    0
                },
                ..*old(self)
            }),
    {
        if self.active_requests > 0 {
            self.active_requests = self.active_requests - 1;
        }
    }

    /// Whether no request is active.
    pub fn is_idle(&self) -> (r: bool)
        ensures
            r == (self.active_requests == 0),
    {
        self.active_requests == 0
    }

    /// Milliseconds since the last use, as of `now`.
    pub fn idle_duration_at(&self, now: u64) -> (r: u64)
        ensures
            r == elapsed_ms(self.last_used, now),
    {
        now.saturating_sub(self.last_used)
    }

    /// Milliseconds since the last use, as of now.
    pub fn idle_duration(&self) -> (r: u64)
        ensures
            exists|now: u64| r == #[trigger] elapsed_ms(self.last_used, now),
    {
        self.idle_duration_at(now_millis())
    }

    /// Milliseconds since creation, as of `now`.
    pub fn age_at(&self, now: u64) -> (r: u64)
        ensures
            r == elapsed_ms(self.created_at, now),
    {
        now.saturating_sub(self.created_at)
    }

    /// Milliseconds since creation, as of now.
    pub fn age(&self) -> (r: u64)
        ensures
            exists|now: u64| r == #[trigger] elapsed_ms(self.created_at, now),
    {
        self.age_at(now_millis())
    }

    /// The age as of `now` in whole seconds, formatted as `45s`, `3m 12s`
    /// or `2h 5m`.
    pub fn age_formatted_at(&self, now: u64) -> (r: String)
        ensures
            r@ == age_text(elapsed_ms(self.created_at, now) / 1000),
    {
        let secs = self.age_at(now) / 1000;
        let mut s = String::new();
        if secs < 60 {
            push_decimal(&mut s, secs);
            push_char(&mut s, 's');
        } else if secs < 3600 {
            push_decimal(&mut s, secs / 60);
            push_char(&mut s, 'm');
            push_char(&mut s, ' ');
            push_decimal(&mut s, secs % 60);
            push_char(&mut s, 's');
            assert(s@ =~= decimal((secs / 60) as nat) + seq!['m', ' '] + decimal(
                (secs % 60) as nat,
            ).push('s'));
        } else {
            push_decimal(&mut s, secs / 3600);
            push_char(&mut s, 'h');
            push_char(&mut s, ' ');
            push_decimal(&mut s, (secs % 3600) / 60);
            push_char(&mut s, 'm');
            assert(s@ =~= decimal((secs / 3600) as nat) + seq!['h', ' '] + decimal(
                ((secs % 3600) / 60) as nat,
            ).push('m'));
        }
        s
    }

    /// The age as of now, formatted (see `age_formatted_at`).
    pub fn age_formatted(&self) -> (r: String)
        ensures
            exists|now: u64| r@ == age_text(#[trigger] elapsed_ms(self.created_at, now) / 1000),
    {
        self.age_formatted_at(now_millis())
    }
}

// ---------------------------------------------------------------------------
// Actions and states
// ---------------------------------------------------------------------------

/// Action to take based on memory pressure evaluation.
#[derive(Debug, Clone, PartialEq)]
pub enum EvictionAction {
    /// Continue normal operation
    Allow,
    /// Reduce concurrent request processing
    Throttle,
    /// Soft eviction - evict after current requests complete
    SoftEvict(Vec<IsolateId>),
    /// Hard eviction - immediate termination
    HardEvict(Vec<IsolateId>),
}

impl EvictionAction {
    /// Whether this action evicts (soft or hard).
    pub fn is_eviction(&self) -> (r: bool)
        ensures
            r == (self is SoftEvict || self is HardEvict),
    {
        match self {
            EvictionAction::SoftEvict(_) | EvictionAction::HardEvict(_) => true,
            _ => false,
        }
    }

    /// Whether this is a hard eviction.
    pub fn is_hard(&self) -> (r: bool)
        ensures
            r == (self is HardEvict),
    {
        match self {
            EvictionAction::HardEvict(_) => true,
            _ => false,
        }
    }

    /// The number of isolates to evict.
    pub fn eviction_count(&self) -> (r: usize)
        ensures
            r == match self {
                EvictionAction::SoftEvict(ids) => ids.len(),
                EvictionAction::HardEvict(ids) => ids.len(),
                _ => 0,
            },
    {
        match self {
            EvictionAction::SoftEvict(ids) => ids.len(),
            EvictionAction::HardEvict(ids) => ids.len(),
            _ => 0,
        }
    }

    /// The identifiers of the isolates to evict, if any.
    pub fn eviction_ids(&self) -> (r: Option<&[IsolateId]>)
        ensures
            match self {
                EvictionAction::SoftEvict(ids) => r is Some && r->0@ == ids@,
                EvictionAction::HardEvict(ids) => r is Some && r->0@ == ids@,
                _ => r is None,
            },
    {
        match self {
            EvictionAction::SoftEvict(ids) => Some(ids.as_slice()),
            EvictionAction::HardEvict(ids) => Some(ids.as_slice()),
            _ => None,
        }
    }
}

/// State of an isolate from the eviction perspective.
#[derive(Debug, Clone, Copy, PartialEq, Eq, Structural)]
pub enum IsolateEvictionState {
    /// Normal operation - accepting new requests
    Active,
    /// Soft eviction in progress - completing current requests, rejecting new ones
    Draining { remaining_requests: usize },
    /// Evicted - no longer accepting requests, pending disposal
    Evicted,
}

impl Default for IsolateEvictionState {
    fn default() -> (r: Self)
        ensures
            r == IsolateEvictionState::Active,
    {
        IsolateEvictionState::Active
    }
}

/// Configuration for eviction behavior.
#[derive(Debug, Clone, Copy)]
pub struct EvictionConfig {
    /// Eviction policy to use
    pub policy: EvictionPolicy,
    /// Target number of isolates to evict per critical event
    pub target_eviction_count: usize,
    /// Cooldown between evictions (seconds)
    pub cooldown_secs: u64,
    /// Whether to prefer stateless isolates
    pub prefer_stateless: bool,
    /// Minimum idle time before considering for eviction (seconds)
    pub min_idle_secs: u64,
}

impl Default for EvictionConfig {
    fn default() -> (r: Self)
        ensures
            r.policy == EvictionPolicy::Lru,
            r.target_eviction_count == 1,
            r.cooldown_secs == 5,
            r.prefer_stateless,
            r.min_idle_secs == 0,
    {
        EvictionConfig {
            policy: EvictionPolicy::Lru,
            target_eviction_count: 1,
            cooldown_secs: 5,
            prefer_stateless: true,
            min_idle_secs: 0,
        }
    }
}


// ---------------------------------------------------------------------------
// The manager
// ---------------------------------------------------------------------------

/// Per-isolate record held by the manager: its metadata and eviction state.
pub type IsolateRecord = (IsolateMetadata, IsolateEvictionState);

struct Slot {
    id: IsolateId,
    metadata: IsolateMetadata,
    state: IsolateEvictionState,
}

spec fn ids_distinct(s: Seq<Slot>) -> bool {
    forall|i: int, j: int|
        #![trigger s[i], s[j]]
        0 <= i < s.len() && 0 <= j < s.len() && i != j ==> s[i].id@ != s[j].id@
}

spec fn slots_map(s: Seq<Slot>) -> Map<Seq<char>, IsolateRecord>
    decreases s.len(),
{
    if s.len() == 0 {
        Map::empty()
    } else {
        slots_map(s.drop_last()).insert(s.last().id@, (s.last().metadata, s.last().state))
    }
}

spec fn footprint_sum(s: Seq<Slot>) -> int
    decreases s.len(),
{
    if s.len() == 0 {
        0
    } else {
        footprint_sum(s.drop_last()) + s.last().metadata.memory_footprint
    }
}

proof fn lemma_slots_map(s: Seq<Slot>)
    requires
        ids_distinct(s),
    ensures
        forall|i: int|
            #![trigger s[i]]
            0 <= i < s.len() ==> slots_map(s).contains_key(s[i].id@) && slots_map(s)[s[i].id@] == (
            s[i].metadata,
            s[i].state,
        ),
        forall|k: Seq<char>|
            #[trigger] slots_map(s).contains_key(k) ==> exists|i: int|
                0 <= i < s.len() && s[i].id@ == k,
        slots_map(s).dom().finite(),
        slots_map(s).dom().len() == s.len(),
    decreases s.len(),
{
    if s.len() > 0 {
        let t = s.drop_last();
        assert(ids_distinct(t));
        lemma_slots_map(t);
        assert forall|k: Seq<char>| #[trigger] slots_map(s).contains_key(k) implies exists|i: int|
            0 <= i < s.len() && s[i].id@ == k by {
            if k != s.last().id@ {
                assert(slots_map(t).contains_key(k));
                let i = choose|i: int| 0 <= i < t.len() && t[i].id@ == k;
                assert(s[i] == t[i]);
            } else {
                assert(s[s.len() - 1].id@ == k);
            }
        }
        if slots_map(t).contains_key(s.last().id@) {
            let i = choose|i: int| 0 <= i < t.len() && t[i].id@ == s.last().id@;
            assert(s[i] == t[i]);
            assert(false);
        }
        assert forall|i: int| #![trigger s[i]] 0 <= i < s.len() implies slots_map(s).contains_key(
            s[i].id@,
        ) && slots_map(s)[s[i].id@] == (s[i].metadata, s[i].state) by {
            if i < s.len() - 1 {
                assert(s[i] == t[i]);
                assert(s[i].id@ != s[s.len() - 1].id@);
            }
        }
    }
}

proof fn lemma_slots_update(s: Seq<Slot>, i: int, x: Slot)
    requires
        ids_distinct(s),
        0 <= i < s.len(),
        x.id@ == s[i].id@,
    ensures
        ids_distinct(s.update(i, x)),
        slots_map(s.update(i, x)) == slots_map(s).insert(x.id@, (x.metadata, x.state)),
{
    let t = s.update(i, x);
    assert(ids_distinct(t)) by {
        assert forall|a: int, b: int|
            #![trigger t[a], t[b]]
            0 <= a < t.len() && 0 <= b < t.len() && a != b implies t[a].id@ != t[b].id@ by {
            assert(s[a].id@ != s[b].id@);
        }
    }
    lemma_slots_map(s);
    lemma_slots_map(t);
    let m = slots_map(s).insert(x.id@, (x.metadata, x.state));
    assert forall|k: Seq<char>| slots_map(t).contains_key(k) <==> m.contains_key(k) by {
        if slots_map(t).contains_key(k) {
            let j = choose|j: int| 0 <= j < t.len() && t[j].id@ == k;
            if j != i {
                assert(t[j] == s[j]);
            }
        }
        if m.contains_key(k) && k != x.id@ {
            let j = choose|j: int| 0 <= j < s.len() && s[j].id@ == k;
            assert(t[j] == s[j]);
        }
        if k == x.id@ {
            assert(t[i] == x);
        }
    }
    assert forall|k: Seq<char>| #[trigger] slots_map(t).contains_key(k) implies slots_map(t)[k]
        == m[k] by {
        let j = choose|j: int| 0 <= j < t.len() && t[j].id@ == k;
        if j != i {
            assert(t[j] == s[j]);
        } else {
            assert(t[i] == x);
        }
    }
    assert(slots_map(t) =~= m);
}

proof fn lemma_slots_remove(s: Seq<Slot>, i: int)
    requires
        ids_distinct(s),
        0 <= i < s.len(),
    ensures
        ids_distinct(s.remove(i)),
        slots_map(s.remove(i)) == slots_map(s).remove(s[i].id@),
{
    let t = s.remove(i);
    assert(ids_distinct(t)) by {
        assert forall|a: int, b: int|
            #![trigger t[a], t[b]]
            0 <= a < t.len() && 0 <= b < t.len() && a != b implies t[a].id@ != t[b].id@ by {
            let a2 = if a < i { a } else { a + 1 };
            let b2 = if b < i { b } else { b + 1 };
            assert(t[a] == s[a2]);
            assert(t[b] == s[b2]);
            assert(s[a2].id@ != s[b2].id@);
        }
    }
    lemma_slots_map(s);
    lemma_slots_map(t);
    let m = slots_map(s).remove(s[i].id@);
    assert forall|k: Seq<char>| slots_map(t).contains_key(k) <==> m.contains_key(k) by {
        if slots_map(t).contains_key(k) {
            let j = choose|j: int| 0 <= j < t.len() && t[j].id@ == k;
            let j2 = if j < i { j } else { j + 1 };
            assert(t[j] == s[j2]);
            assert(s[j2].id@ != s[i].id@);
        }
        if m.contains_key(k) {
            let j = choose|j: int| 0 <= j < s.len() && s[j].id@ == k;
            assert(j != i);
            let j2 = if j < i { j } else { j - 1 };
            assert(t[j2] == s[j]);
        }
    }
    assert forall|k: Seq<char>| #[trigger] slots_map(t).contains_key(k) implies slots_map(t)[k]
        == m[k] by {
        let j = choose|j: int| 0 <= j < t.len() && t[j].id@ == k;
        let j2 = if j < i { j } else { j + 1 };
        assert(t[j] == s[j2]);
        assert(s[j2].id@ != s[i].id@);
    }
    assert(slots_map(t) =~= m);
}

proof fn lemma_slots_push(s: Seq<Slot>, x: Slot)
    requires
        ids_distinct(s),
        !slots_map(s).contains_key(x.id@),
    ensures
        ids_distinct(s.push(x)),
        slots_map(s.push(x)) == slots_map(s).insert(x.id@, (x.metadata, x.state)),
{
    lemma_slots_map(s);
    let t = s.push(x);
    assert(t.drop_last() =~= s);
    assert forall|a: int, b: int|
        #![trigger t[a], t[b]]
        0 <= a < t.len() && 0 <= b < t.len() && a != b implies t[a].id@ != t[b].id@ by {
        if a < s.len() && b < s.len() {
            assert(t[a] == s[a] && t[b] == s[b]);
        } else if a < s.len() {
            assert(t[a] == s[a]);
        } else if b < s.len() {
            assert(t[b] == s[b]);
        }
    }
}

proof fn lemma_footprint_prefix(s: Seq<Slot>, i: int)
    requires
        0 <= i <= s.len(),
    ensures
        0 <= footprint_sum(s.take(i)) <= footprint_sum(s),
    decreases s.len(),
{
    if s.len() > 0 {
        if i == s.len() {
            assert(s.take(i) =~= s);
            lemma_footprint_prefix(s.drop_last(), i - 1);
            assert(s.drop_last().take(i - 1) =~= s.drop_last());
        } else {
            lemma_footprint_prefix(s.drop_last(), i);
            assert(s.drop_last().take(i) =~= s.take(i));
        }
    }
}

proof fn lemma_footprint_update(s: Seq<Slot>, i: int, x: Slot)
    requires
        0 <= i < s.len(),
    ensures
        footprint_sum(s.update(i, x)) == footprint_sum(s) - s[i].metadata.memory_footprint
            + x.metadata.memory_footprint,
    decreases s.len(),
{
    let t = s.update(i, x);
    if i == s.len() - 1 {
        assert(t.drop_last() =~= s.drop_last());
    } else {
        lemma_footprint_update(s.drop_last(), i, x);
        assert(t.drop_last() =~= s.drop_last().update(i, x));
    }
}

/// Whether `k` may be chosen as an eviction victim at time `now`: it is
/// registered, active (neither draining nor evicted), idle, idle for at
/// least the configured minimum, and, when only stateless isolates may be
/// chosen and the configuration prefers them, stateless.
pub open spec fn eligible(
    m: Map<Seq<char>, IsolateRecord>,
    cfg: EvictionConfig,
    k: Seq<char>,
    stateless_only: bool,
    now: u64,
) -> bool {
    &&& m.contains_key(k)
    &&& m[k].1 == IsolateEvictionState::Active
    &&& m[k].0.active_requests == 0
    &&& elapsed_ms(m[k].0.last_used, now) / 1000 >= cfg.min_idle_secs
    &&& !(stateless_only && cfg.prefer_stateless && !m[k].0.is_stateless)
}

/// The order in which a policy evicts: smaller keys first. Random imposes
/// no order.
pub open spec fn victim_key(policy: EvictionPolicy, md: IsolateMetadata) -> int {
    match policy {
        EvictionPolicy::Lru => md.last_used as int,
        EvictionPolicy::Lfu => md.use_count as int,
        EvictionPolicy::LargestFirst => u64::MAX - md.memory_footprint,
        EvictionPolicy::Random => 0,
    }
}

/// `ids` is a valid choice of at most `count` victims: distinct eligible
/// isolates, as many as `count` allows (all eligible ones when fewer), in
/// the policy's order, and none ranked after an eligible isolate left out.
pub open spec fn is_victim_choice(
    m: Map<Seq<char>, IsolateRecord>,
    cfg: EvictionConfig,
    ids: Seq<Seq<char>>,
    count: nat,
    stateless_only: bool,
    now: u64,
) -> bool {
    &&& ids.len() <= count
    &&& ids.no_duplicates()
    &&& forall|i: int| 0 <= i < ids.len() ==> eligible(m, cfg, #[trigger] ids[i], stateless_only, now)
    &&& ids.len() < count ==> forall|k: Seq<char>|
        eligible(m, cfg, k, stateless_only, now) ==> #[trigger] ids.contains(k)
    &&& cfg.policy != EvictionPolicy::Random ==> {
        &&& forall|i: int, j: int|
            #![trigger ids[i], ids[j]]
            0 <= i < j < ids.len() ==> victim_key(cfg.policy, m[ids[i]].0) <= victim_key(
                cfg.policy,
                m[ids[j]].0,
            )
        &&& forall|i: int, k: Seq<char>|
            #![trigger ids[i], eligible(m, cfg, k, stateless_only, now)]
            0 <= i < ids.len() && eligible(m, cfg, k, stateless_only, now) && !ids.contains(k)
                ==> victim_key(cfg.policy, m[ids[i]].0) <= victim_key(cfg.policy, m[k].0)
    }
}

proof fn lemma_slots_map_finite(s: Seq<Slot>)
    ensures
        slots_map(s).dom().finite(),
    decreases s.len(),
{
    if s.len() > 0 {
        lemma_slots_map_finite(s.drop_last());
    }
}

/// The isolates eligible for eviction.
pub open spec fn eligible_set(
    m: Map<Seq<char>, IsolateRecord>,
    cfg: EvictionConfig,
    stateless_only: bool,
    now: u64,
) -> Set<Seq<char>> {
    Set::new(|k: Seq<char>| eligible(m, cfg, k, stateless_only, now))
}

/// A choice of victims takes as many isolates as allowed: exactly
/// `count`, or every eligible isolate when fewer are eligible.
pub proof fn law_victim_choice_size(
    m: Map<Seq<char>, IsolateRecord>,
    cfg: EvictionConfig,
    ids: Seq<Seq<char>>,
    count: nat,
    stateless_only: bool,
    now: u64,
)
    requires
        m.dom().finite(),
        is_victim_choice(m, cfg, ids, count, stateless_only, now),
    ensures
        eligible_set(m, cfg, stateless_only, now).finite(),
        ids.len() == if count < eligible_set(m, cfg, stateless_only, now).len() {
            count
        } else {
            eligible_set(m, cfg, stateless_only, now).len()
        },
{
    let e = eligible_set(m, cfg, stateless_only, now);
    vstd::set_lib::lemma_len_subset(e, m.dom());
    ids.unique_seq_to_set();
    assert(ids.to_set().subset_of(e)) by {
        assert forall|k: Seq<char>| ids.to_set().contains(k) implies e.contains(k) by {
            let i = choose|i: int| 0 <= i < ids.len() && ids[i] == k;
            assert(eligible(m, cfg, ids[i], stateless_only, now));
        }
    }
    vstd::set_lib::lemma_len_subset(ids.to_set(), e);
    if ids.len() < count {
        assert(e.subset_of(ids.to_set())) by {
            assert forall|k: Seq<char>| e.contains(k) implies ids.to_set().contains(k) by {
                assert(eligible(m, cfg, k, stateless_only, now));
                assert(ids.contains(k));
            }
        }
        vstd::set_lib::lemma_len_subset(e, ids.to_set());
    }
}

/// Whether an eviction at `last` still holds the manager in cooldown at `now`.
pub open spec fn in_cooldown(last: Option<u64>, cooldown_secs: u64, now: u64) -> bool {
    match last {
        Some(t) => elapsed_ms(t, now) / 1000 < cooldown_secs,
        None => false,
    }
}

/// The view of the identifiers in an eviction action.
pub open spec fn action_ids(a: EvictionAction) -> Seq<Seq<char>> {
    match a {
        EvictionAction::SoftEvict(v) => v@.map_values(|x: IsolateId| x@),
        EvictionAction::HardEvict(v) => v@.map_values(|x: IsolateId| x@),
        _ => Seq::empty(),
    }
}

/// The action taken for a pressure level at `now` on a manager with view
/// `m`, configuration `cfg`, last eviction `last`, given the victim choice
/// `ids` that the level calls for.
pub open spec fn pressure_action_ok(
    m: Map<Seq<char>, IsolateRecord>,
    cfg: EvictionConfig,
    last: Option<u64>,
    level: MemoryPressureLevel,
    now: u64,
    a: EvictionAction,
) -> bool {
    if in_cooldown(last, cfg.cooldown_secs, now) {
        a == if level == MemoryPressureLevel::Critical || level == MemoryPressureLevel::Emergency {
            EvictionAction::Throttle
        } else {
            EvictionAction::Allow
        }
    } else {
        match level {
            MemoryPressureLevel::Normal => a == EvictionAction::Allow,
            MemoryPressureLevel::Warning => a == EvictionAction::Throttle,
            MemoryPressureLevel::Critical => {
                ||| (a == EvictionAction::Throttle && is_victim_choice(
                    m,
                    cfg,
                    Seq::empty(),
                    cfg.target_eviction_count as nat,
                    true,
                    now,
                ))
                ||| (a is SoftEvict && action_ids(a).len() > 0 && is_victim_choice(
                    m,
                    cfg,
                    action_ids(a),
                    cfg.target_eviction_count as nat,
                    true,
                    now,
                ))
            },
            MemoryPressureLevel::Emergency => {
                ||| (a is SoftEvict && action_ids(a).len() == 0 && is_victim_choice(
                    m,
                    cfg,
                    Seq::empty(),
                    2 * cfg.target_eviction_count as nat,
                    false,
                    now,
                ))
                ||| (a is HardEvict && action_ids(a).len() > 0 && is_victim_choice(
                    m,
                    cfg,
                    action_ids(a),
                    2 * cfg.target_eviction_count as nat,
                    false,
                    now,
                ))
            },
        }
    }
}

/// Under the LargestFirst policy the isolates evicted under memory pressure
/// go largest first: a victim's memory footprint is at least that of every
/// later victim and of every eligible isolate left out. (Eligibility is
/// judged with the stateless preference at critical pressure, without it in
/// an emergency.)
pub proof fn law_largest_first_evicts_largest(
    m: Map<Seq<char>, IsolateRecord>,
    cfg: EvictionConfig,
    last: Option<u64>,
    level: MemoryPressureLevel,
    now: u64,
    a: EvictionAction,
)
    requires
        cfg.policy == EvictionPolicy::LargestFirst,
        pressure_action_ok(m, cfg, last, level, now, a),
    ensures
        ({
            let ids = action_ids(a);
            let so = level != MemoryPressureLevel::Emergency;
            &&& forall|i: int, j: int|
                0 <= i < j < ids.len() ==> m[#[trigger] ids[i]].0.memory_footprint >= m[#[trigger] ids[j]].0.memory_footprint
            &&& forall|i: int, k: Seq<char>|
                0 <= i < ids.len() && #[trigger] eligible(m, cfg, k, so, now) && !ids.contains(k)
                    ==> m[#[trigger] ids[i]].0.memory_footprint >= m[k].0.memory_footprint
        }),
{
    let ids = action_ids(a);
    let so = level != MemoryPressureLevel::Emergency;
    if ids.len() > 0 {
        let count = if level == MemoryPressureLevel::Emergency {
            2 * cfg.target_eviction_count as nat
        } else {
            cfg.target_eviction_count as nat
        };
        assert(is_victim_choice(m, cfg, ids, count, so, now));
        assert forall|i: int, j: int|
            0 <= i < j < ids.len() implies m[#[trigger] ids[i]].0.memory_footprint >= m[#[trigger] ids[j]].0.memory_footprint by {
            assert(victim_key(cfg.policy, m[ids[i]].0) <= victim_key(cfg.policy, m[ids[j]].0));
        }
        assert forall|i: int, k: Seq<char>|
            0 <= i < ids.len() && #[trigger] eligible(m, cfg, k, so, now) && !ids.contains(k)
                implies m[#[trigger] ids[i]].0.memory_footprint >= m[k].0.memory_footprint by {
            assert(victim_key(cfg.policy, m[ids[i]].0) <= victim_key(cfg.policy, m[k].0));
        }
    }
}

/// Under the LRU policy the isolates evicted under memory pressure go least
/// recently used first: a victim was last used no later than every later
/// victim and every eligible isolate left out.
pub proof fn law_lru_evicts_least_recent(
    m: Map<Seq<char>, IsolateRecord>,
    cfg: EvictionConfig,
    last: Option<u64>,
    level: MemoryPressureLevel,
    now: u64,
    a: EvictionAction,
)
    requires
        cfg.policy == EvictionPolicy::Lru,
        pressure_action_ok(m, cfg, last, level, now, a),
    ensures
        ({
            let ids = action_ids(a);
            let so = level != MemoryPressureLevel::Emergency;
            &&& forall|i: int, j: int|
                0 <= i < j < ids.len() ==> m[#[trigger] ids[i]].0.last_used <= m[#[trigger] ids[j]].0.last_used
            &&& forall|i: int, k: Seq<char>|
                0 <= i < ids.len() && #[trigger] eligible(m, cfg, k, so, now) && !ids.contains(k)
                    ==> m[#[trigger] ids[i]].0.last_used <= m[k].0.last_used
        }),
{
    let ids = action_ids(a);
    let so = level != MemoryPressureLevel::Emergency;
    if ids.len() > 0 {
        let count = if level == MemoryPressureLevel::Emergency {
            2 * cfg.target_eviction_count as nat
        } else {
            cfg.target_eviction_count as nat
        };
        assert(is_victim_choice(m, cfg, ids, count, so, now));
        assert forall|i: int, j: int|
            0 <= i < j < ids.len() implies m[#[trigger] ids[i]].0.last_used <= m[#[trigger] ids[j]].0.last_used by {
            assert(victim_key(cfg.policy, m[ids[i]].0) <= victim_key(cfg.policy, m[ids[j]].0));
        }
        assert forall|i: int, k: Seq<char>|
            0 <= i < ids.len() && #[trigger] eligible(m, cfg, k, so, now) && !ids.contains(k)
                implies m[#[trigger] ids[i]].0.last_used <= m[k].0.last_used by {
            assert(victim_key(cfg.policy, m[ids[i]].0) <= victim_key(cfg.policy, m[k].0));
        }
    }
}

/// Under the LFU policy the isolates evicted under memory pressure go least
/// used first: a victim was used no more often than every later victim and
/// every eligible isolate left out.
pub proof fn law_lfu_evicts_least_used(
    m: Map<Seq<char>, IsolateRecord>,
    cfg: EvictionConfig,
    last: Option<u64>,
    level: MemoryPressureLevel,
    now: u64,
    a: EvictionAction,
)
    requires
        cfg.policy == EvictionPolicy::Lfu,
        pressure_action_ok(m, cfg, last, level, now, a),
    ensures
        ({
            let ids = action_ids(a);
            let so = level != MemoryPressureLevel::Emergency;
            &&& forall|i: int, j: int|
                0 <= i < j < ids.len() ==> m[#[trigger] ids[i]].0.use_count <= m[#[trigger] ids[j]].0.use_count
            &&& forall|i: int, k: Seq<char>|
                0 <= i < ids.len() && #[trigger] eligible(m, cfg, k, so, now) && !ids.contains(k)
                    ==> m[#[trigger] ids[i]].0.use_count <= m[k].0.use_count
        }),
{
    let ids = action_ids(a);
    let so = level != MemoryPressureLevel::Emergency;
    if ids.len() > 0 {
        let count = if level == MemoryPressureLevel::Emergency {
            2 * cfg.target_eviction_count as nat
        } else {
            cfg.target_eviction_count as nat
        };
        assert(is_victim_choice(m, cfg, ids, count, so, now));
        assert forall|i: int, j: int|
            0 <= i < j < ids.len() implies m[#[trigger] ids[i]].0.use_count <= m[#[trigger] ids[j]].0.use_count by {
            assert(victim_key(cfg.policy, m[ids[i]].0) <= victim_key(cfg.policy, m[ids[j]].0));
        }
        assert forall|i: int, k: Seq<char>|
            0 <= i < ids.len() && #[trigger] eligible(m, cfg, k, so, now) && !ids.contains(k)
                implies m[#[trigger] ids[i]].0.use_count <= m[k].0.use_count by {
            assert(victim_key(cfg.policy, m[ids[i]].0) <= victim_key(cfg.policy, m[k].0));
        }
    }
}

/// Manages isolate eviction based on memory pressure.
pub struct EvictionManager {
    config: EvictionConfig,
    slots: Vec<Slot>,
    total_memory: usize,
    evictions_total: usize,
    last_eviction: Option<u64>,
}

impl View for EvictionManager {
    type V = Map<Seq<char>, IsolateRecord>;

    /// The registered isolates, by identifier, with their metadata and state.
    closed spec fn view(&self) -> Map<Seq<char>, IsolateRecord> {
        slots_map(self.slots@)
    }
}

/// The rank of an isolate under the Random policy: the seed plus the
/// default hash of its identifier, wrapping.
fn random_rank(seed: u64, id: &IsolateId) -> (r: u64)
    ensures
        r == seed.wrapping_add(default_hash_of(id@)),
{
    seed.wrapping_add(default_hash(id.0.as_str()))
}

/// A seed for the Random policy, hashed from the current instant
/// (`std::time::Instant::now` through std's `DefaultHasher`). Nothing is
/// promised of the value.
#[verifier::external_body]
fn random_seed() -> u64 {
    let mut h = std::collections::hash_map::DefaultHasher::new();
    std::time::Instant::now().hash(&mut h);
    h.finish()
}

impl EvictionManager {
    #[verifier::type_invariant]
    spec fn inv(self) -> bool {
        ids_distinct(self.slots@)
    }

    /// Finitely many isolates are registered.
    pub proof fn lemma_finitely_many(&self)
        ensures
            self@.dom().finite(),
    {
        lemma_slots_map_finite(self.slots@);
    }

    /// The configuration.
    pub closed spec fn spec_config(&self) -> EvictionConfig {
        self.config
    }

    /// The value reported by `total_memory_bytes`: the sum of the
    /// footprints as of the last recorded usage (or zero after `clear`).
    pub closed spec fn spec_total_memory(&self) -> usize {
        self.total_memory
    }

    /// The number of completed evictions (wrapping at `usize::MAX`).
    pub closed spec fn spec_evictions(&self) -> usize {
        self.evictions_total
    }

    /// When the last eviction was started, if ever.
    pub closed spec fn spec_last_eviction(&self) -> Option<u64> {
        self.last_eviction
    }

    /// The sum of the memory footprints of the registered isolates.
    pub closed spec fn footprint_total(&self) -> int {
        footprint_sum(self.slots@)
    }

    /// A new manager with the default configuration.
    pub fn new() -> (r: Self)
        ensures
            r@ == Map::<Seq<char>, IsolateRecord>::empty(),
            r.spec_config() == (EvictionConfig {
                policy: EvictionPolicy::Lru,
                target_eviction_count: 1,
                cooldown_secs: 5,
                prefer_stateless: true,
                min_idle_secs: 0,
            }),
            r.spec_total_memory() == 0,
            r.spec_evictions() == 0,
            r.spec_last_eviction() is None,
    {
        Self::with_config(EvictionConfig::default())
    }

    /// A new manager with the given configuration.
    pub fn with_config(config: EvictionConfig) -> (r: Self)
        ensures
            r@ == Map::<Seq<char>, IsolateRecord>::empty(),
            r.spec_config() == config,
            r.spec_total_memory() == 0,
            r.spec_evictions() == 0,
            r.spec_last_eviction() is None,
    {
        let r = EvictionManager {
            config,
            slots: Vec::new(),
            total_memory: 0,
            evictions_total: 0,
            last_eviction: None,
        };
        assert(r.slots@ =~= Seq::<Slot>::empty());
        r
    }

    /// Moves the slots out, leaving an empty list behind.
    fn take_slots(&mut self) -> (r: Vec<Slot>)
        ensures
            r@ == old(self).slots@,
            ids_distinct(r@),
            final(self).slots@.len() == 0,
            final(self).config == old(self).config,
            final(self).total_memory == old(self).total_memory,
            final(self).evictions_total == old(self).evictions_total,
            final(self).last_eviction == old(self).last_eviction,
    {
        proof {
            use_type_invariant(&*self);
        }
        let mut r: Vec<Slot> = Vec::new();
        std::mem::swap(&mut r, &mut self.slots);
        r
    }

    fn find(&self, id: &IsolateId) -> (r: Option<usize>)
        ensures
            match r {
                Some(i) => i < self.slots.len() && self.slots@[i as int].id@ == id@,
                None => !self@.contains_key(id@),
            },
    {
        proof {
            use_type_invariant(self);
            lemma_slots_map(self.slots@);
        }
        let mut i: usize = 0;
        while i < self.slots.len()
            invariant
                i <= self.slots.len(),
                forall|j: int| 0 <= j < i ==> self.slots@[j].id@ != id@,
            decreases self.slots.len() - i,
        {
            if self.slots[i].id.0 == id.0 {
                return Some(i);
            }
            i = i + 1;
        }
        None
    }

    /// Register an isolate (replacing any record under the same identifier)
    /// as active with the given metadata.
    pub fn register_isolate(&mut self, id: IsolateId, metadata: IsolateMetadata)
        ensures
            final(self)@ == old(self)@.insert(id@, (metadata, IsolateEvictionState::Active)),
            final(self).spec_config() == old(self).spec_config(),
            final(self).spec_total_memory() == old(self).spec_total_memory(),
            final(self).spec_evictions() == old(self).spec_evictions(),
            final(self).spec_last_eviction() == old(self).spec_last_eviction(),
    {
        proof {
            use_type_invariant(&*self);
        }
        let slot = Slot { id, metadata, state: IsolateEvictionState::Active };
        let found = self.find(&slot.id);
        let mut slots = self.take_slots();
        match found {
            Some(i) => {
                proof {
                    lemma_slots_update(slots@, i as int, slot);
                }
                slots.set(i, slot);
            },
            None => {
                proof {
                    lemma_slots_push(slots@, slot);
                }
                slots.push(slot);
            },
        }
        self.slots = slots;
    }

    /// Unregister an isolate (e.g., after disposal).
    pub fn unregister_isolate(&mut self, id: &IsolateId)
        ensures
            final(self)@ == old(self)@.remove(id@),
            final(self).spec_config() == old(self).spec_config(),
            final(self).spec_total_memory() == old(self).spec_total_memory(),
            final(self).spec_evictions() == old(self).spec_evictions(),
            final(self).spec_last_eviction() == old(self).spec_last_eviction(),
    {
        proof {
            use_type_invariant(&*self);
        }
        match self.find(id) {
            Some(i) => {
                let mut slots = self.take_slots();
                proof {
                    lemma_slots_remove(slots@, i as int);
                }
                slots.remove(i);
                self.slots = slots;
            },
            None => {
                assert(old(self)@.remove(id@) =~= old(self)@);
            },
        }
    }

    /// Reset an evicted (or any) isolate to active with fresh metadata.
    pub fn reactivate_isolate(&mut self, id: IsolateId, new_metadata: IsolateMetadata)
        ensures
            final(self)@ == old(self)@.insert(id@, (new_metadata, IsolateEvictionState::Active)),
            final(self).spec_config() == old(self).spec_config(),
            final(self).spec_total_memory() == old(self).spec_total_memory(),
            final(self).spec_evictions() == old(self).spec_evictions(),
            final(self).spec_last_eviction() == old(self).spec_last_eviction(),
    {
        self.register_isolate(id, new_metadata);
    }

    fn set_slot(&mut self, i: usize, slot: Slot)
        requires
            i < old(self).slots.len(),
            slot.id@ == old(self).slots@[i as int].id@,
        ensures
            final(self)@ == old(self)@.insert(slot.id@, (slot.metadata, slot.state)),
            final(self).slots@ == old(self).slots@.update(i as int, slot),
            final(self).config == old(self).config,
            final(self).total_memory == old(self).total_memory,
            final(self).evictions_total == old(self).evictions_total,
            final(self).last_eviction == old(self).last_eviction,
    {
        let mut slots = self.take_slots();
        proof {
            lemma_slots_update(slots@, i as int, slot);
        }
        slots.set(i, slot);
        self.slots = slots;
    }

    fn copy_slot(&self, i: usize) -> (r: Slot)
        requires
            i < self.slots.len(),
        ensures
            r == self.slots@[i as int],
    {
        let s = &self.slots[i];
        Slot {
            id: IsolateId(s.id.0.clone()),
            metadata: IsolateMetadata {
                hostname: s.metadata.hostname.clone(),
                worker_id: s.metadata.worker_id,
                last_used: s.metadata.last_used,
                use_count: s.metadata.use_count,
                memory_footprint: s.metadata.memory_footprint,
                is_stateless: s.metadata.is_stateless,
                active_requests: s.metadata.active_requests,
                created_at: s.metadata.created_at,
            },
            state: s.state,
        }
    }

    proof fn lemma_record_at(&self, i: int)
        requires
            0 <= i < self.slots.len(),
            ids_distinct(self.slots@),
        ensures
            self@.contains_key(self.slots@[i].id@),
            self@[self.slots@[i].id@] == (self.slots@[i].metadata, self.slots@[i].state),
    {
        lemma_slots_map(self.slots@);
        assert(self.slots@[i] == self.slots@[i]);
    }

    /// Record a completed request on an isolate at time `now`: it was used
    /// now and its footprint is `memory_bytes`. The reported total memory
    /// becomes the sum of all registered footprints. Unknown identifiers
    /// change nothing.
    pub fn record_usage_at(&mut self, id: &IsolateId, memory_bytes: usize, now: u64)
        requires
            old(self)@.contains_key(id@) ==> old(self)@[id@].0.use_count < u64::MAX,
            old(self)@.contains_key(id@) ==> old(self).footprint_total() - old(self)@[id@].0.memory_footprint + memory_bytes <= usize::MAX,
        ensures
            old(self)@.contains_key(id@) ==> {
                &&& final(self)@ == old(self)@.insert(
                    id@,
                    (
                        IsolateMetadata {
                            last_used: now,
                            use_count: (old(self)@[id@].0.use_count + 1) as u64,
                            memory_footprint: memory_bytes,
                            ..old(self)@[id@].0
                        },
                        old(self)@[id@].1,
                    ),
                )
                &&& final(self).spec_total_memory() == final(self).footprint_total()
            },
            !old(self)@.contains_key(id@) ==> final(self)@ == old(self)@
                && final(self).spec_total_memory() == old(self).spec_total_memory(),
            final(self).spec_config() == old(self).spec_config(),
            final(self).spec_evictions() == old(self).spec_evictions(),
            final(self).spec_last_eviction() == old(self).spec_last_eviction(),
    {
        if let Some(i) = self.find(id) {
            proof {
                use_type_invariant(&*self);
                self.lemma_record_at(i as int);
            }
            let mut slot = self.copy_slot(i);
            slot.metadata.last_used = now;
            slot.metadata.use_count = slot.metadata.use_count + 1;
            slot.metadata.memory_footprint = memory_bytes;
            proof {
                lemma_footprint_update(self.slots@, i as int, slot);
            }
            self.set_slot(i, slot);
            let mut sum: usize = 0;
            let mut j: usize = 0;
            while j < self.slots.len()
                invariant
                    j <= self.slots.len(),
                    sum == footprint_sum(self.slots@.take(j as int)),
                    footprint_sum(self.slots@) <= usize::MAX,
                decreases self.slots.len() - j,
            {
                proof {
                    lemma_footprint_prefix(self.slots@, j + 1);
                    assert(self.slots@.take(j + 1).drop_last() =~= self.slots@.take(j as int));
                }
                sum = sum + self.slots[j].metadata.memory_footprint;
                j = j + 1;
            }
            assert(self.slots@.take(self.slots.len() as int) =~= self.slots@);
            self.total_memory = sum;
        }
    }

    /// Record a completed request now (see `record_usage_at`). The time of
    /// last use never goes back: a clock reading before it leaves it as it
    /// was.
    pub fn record_usage(&mut self, id: &IsolateId, memory_bytes: usize)
        requires
            old(self)@.contains_key(id@) ==> old(self)@[id@].0.use_count < u64::MAX,
            old(self)@.contains_key(id@) ==> old(self).footprint_total() - old(self)@[id@].0.memory_footprint + memory_bytes <= usize::MAX,
        ensures
            old(self)@.contains_key(id@) ==> {
                &&& final(self)@ == old(self)@.insert(
                    id@,
                    (
                        IsolateMetadata {
                            last_used: final(self)@[id@].0.last_used,
                            use_count: (old(self)@[id@].0.use_count + 1) as u64,
                            memory_footprint: memory_bytes,
                            ..old(self)@[id@].0
                        },
                        old(self)@[id@].1,
                    ),
                )
                &&& final(self).spec_total_memory() == final(self).footprint_total()
            },
            !old(self)@.contains_key(id@) ==> final(self)@ == old(self)@
                && final(self).spec_total_memory() == old(self).spec_total_memory(),
            final(self).spec_config() == old(self).spec_config(),
            final(self).spec_evictions() == old(self).spec_evictions(),
            final(self).spec_last_eviction() == old(self).spec_last_eviction(),
            old(self)@.contains_key(id@) ==> final(self)@[id@].0.last_used >= old(self)@[id@].0.last_used,
    {
        let now = now_millis();
        let now = match self.get_metadata(id) {
            Some(m) => if now < m.last_used {
                m.last_used
            } else {
                now
            },
            None => now,
        };
        self.record_usage_at(id, memory_bytes, now);
    }

    /// Count one more active request on an isolate (unknown ids: no change).
    pub fn mark_active(&mut self, id: &IsolateId)
        requires
            old(self)@.contains_key(id@) ==> old(self)@[id@].0.active_requests < usize::MAX,
        ensures
            old(self)@.contains_key(id@) ==> final(self)@ == old(self)@.insert(
                id@,
                (
                    IsolateMetadata {
                        active_requests: (old(self)@[id@].0.active_requests + 1) as usize,
                        ..old(self)@[id@].0
                    },
                    old(self)@[id@].1,
                ),
            ),
            !old(self)@.contains_key(id@) ==> final(self)@ == old(self)@,
            final(self).spec_config() == old(self).spec_config(),
            final(self).spec_total_memory() == old(self).spec_total_memory(),
            final(self).spec_evictions() == old(self).spec_evictions(),
            final(self).spec_last_eviction() == old(self).spec_last_eviction(),
    {
        if let Some(i) = self.find(id) {
            proof {
                use_type_invariant(&*self);
                self.lemma_record_at(i as int);
            }
            let mut slot = self.copy_slot(i);
            slot.metadata.active_requests = slot.metadata.active_requests + 1;
            self.set_slot(i, slot);
        }
    }

    /// Count one active request on an isolate as complete (never below
    /// zero); a draining isolate left with no active request becomes
    /// evicted, which counts as one more eviction.
    pub fn mark_complete(&mut self, id: &IsolateId)
        ensures
            old(self)@.contains_key(id@) ==> {
                let md = old(self)@[id@].0;
                let active = if md.active_requests > 0 {
                    (md.active_requests - 1) as usize
                } else {
                    0usize
                };
                let done = active == 0 && old(self)@[id@].1 is Draining;
                &&& final(self)@ == old(self)@.insert(
                    id@,
                    (
                        IsolateMetadata { active_requests: active, ..md },
                        if done {
                            IsolateEvictionState::Evicted
                        } else {
                            old(self)@[id@].1
                        },
                    ),
                )
                &&& final(self).spec_evictions() == if done {
                    wrap_inc(old(self).spec_evictions())
                } else {
                    old(self).spec_evictions()
                }
            },
            !old(self)@.contains_key(id@) ==> final(self)@ == old(self)@
                && final(self).spec_evictions() == old(self).spec_evictions(),
            final(self).spec_config() == old(self).spec_config(),
            final(self).spec_total_memory() == old(self).spec_total_memory(),
            final(self).spec_last_eviction() == old(self).spec_last_eviction(),
    {
        if let Some(i) = self.find(id) {
            proof {
                use_type_invariant(&*self);
                self.lemma_record_at(i as int);
            }
            let mut slot = self.copy_slot(i);
            if slot.metadata.active_requests > 0 {
                slot.metadata.active_requests = slot.metadata.active_requests - 1;
            }
            let done = slot.metadata.active_requests == 0 && match slot.state {
                IsolateEvictionState::Draining { .. } => true,
                _ => false,
            };
            if done {
                slot.state = IsolateEvictionState::Evicted;
            }
            self.set_slot(i, slot);
            if done {
                self.evictions_total = bump(self.evictions_total);
            }
        }
    }

    /// Whether the isolate is draining.
    pub fn is_draining(&self, id: &IsolateId) -> (r: bool)
        ensures
            r == (self@.contains_key(id@) && self@[id@].1 is Draining),
    {
        match self.find(id) {
            Some(i) => {
                proof {
                    use_type_invariant(&*self);
                    self.lemma_record_at(i as int);
                }
                match self.slots[i].state {
                    IsolateEvictionState::Draining { .. } => true,
                    _ => false,
                }
            },
            None => false,
        }
    }

    /// Whether the isolate has been evicted.
    pub fn is_evicted(&self, id: &IsolateId) -> (r: bool)
        ensures
            r == (self@.contains_key(id@) && self@[id@].1 is Evicted),
    {
        match self.find(id) {
            Some(i) => {
                proof {
                    use_type_invariant(&*self);
                    self.lemma_record_at(i as int);
                }
                match self.slots[i].state {
                    IsolateEvictionState::Evicted => true,
                    _ => false,
                }
            },
            None => false,
        }
    }

    /// Whether the isolate can accept new requests (it is registered and active).
    pub fn can_accept_requests(&self, id: &IsolateId) -> (r: bool)
        ensures
            r == (self@.contains_key(id@) && self@[id@].1 is Active),
    {
        match self.find(id) {
            Some(i) => {
                proof {
                    use_type_invariant(&*self);
                    self.lemma_record_at(i as int);
                }
                match self.slots[i].state {
                    IsolateEvictionState::Active => true,
                    _ => false,
                }
            },
            None => false,
        }
    }

    /// Start soft eviction of an active isolate at time `now`: it becomes
    /// draining with its current active requests remaining, and `now` is the
    /// last eviction time. Returns false, changing nothing, for an unknown
    /// isolate or one that is not active.
    pub fn initiate_soft_eviction_at(&mut self, id: &IsolateId, now: u64) -> (r: bool)
        ensures
            r == (old(self)@.contains_key(id@) && old(self)@[id@].1 is Active),
            r ==> final(self)@ == old(self)@.insert(
                id@,
                (
                    old(self)@[id@].0,
                    IsolateEvictionState::Draining {
                        remaining_requests: old(self)@[id@].0.active_requests,
                    },
                ),
            ) && final(self).spec_last_eviction() == Some(now),
            !r ==> final(self)@ == old(self)@ && final(self).spec_last_eviction() == old(self).spec_last_eviction(),
            final(self).spec_config() == old(self).spec_config(),
            final(self).spec_total_memory() == old(self).spec_total_memory(),
            final(self).spec_evictions() == old(self).spec_evictions(),
    {
        if let Some(i) = self.find(id) {
            proof {
                use_type_invariant(&*self);
                self.lemma_record_at(i as int);
            }
            let active = match self.slots[i].state {
                IsolateEvictionState::Active => true,
                _ => false,
            };
            if active {
                let mut slot = self.copy_slot(i);
                slot.state = IsolateEvictionState::Draining {
                    remaining_requests: slot.metadata.active_requests,
                };
                self.set_slot(i, slot);
                self.last_eviction = Some(now);
                return true;
            }
        }
        false
    }

    /// Start soft eviction now (see `initiate_soft_eviction_at`).
    pub fn initiate_soft_eviction(&mut self, id: &IsolateId) -> (r: bool)
        ensures
            r == (old(self)@.contains_key(id@) && old(self)@[id@].1 is Active),
            r ==> final(self)@ == old(self)@.insert(
                id@,
                (
                    old(self)@[id@].0,
                    IsolateEvictionState::Draining {
                        remaining_requests: old(self)@[id@].0.active_requests,
                    },
                ),
            ) && final(self).spec_last_eviction() is Some,
            !r ==> final(self)@ == old(self)@ && final(self).spec_last_eviction() == old(self).spec_last_eviction(),
            final(self).spec_config() == old(self).spec_config(),
            final(self).spec_total_memory() == old(self).spec_total_memory(),
            final(self).spec_evictions() == old(self).spec_evictions(),
    {
        let now = now_millis();
        self.initiate_soft_eviction_at(id, now)
    }

    /// Finish soft eviction: a draining isolate becomes evicted, counting
    /// one more eviction. Returns false, changing nothing, otherwise.
    pub fn complete_soft_eviction(&mut self, id: &IsolateId) -> (r: bool)
        ensures
            r == (old(self)@.contains_key(id@) && old(self)@[id@].1 is Draining),
            r ==> final(self)@ == old(self)@.insert(
                id@,
                (old(self)@[id@].0, IsolateEvictionState::Evicted),
            ) && final(self).spec_evictions() == wrap_inc(old(self).spec_evictions()),
            !r ==> final(self)@ == old(self)@ && final(self).spec_evictions() == old(self).spec_evictions(),
            final(self).spec_config() == old(self).spec_config(),
            final(self).spec_total_memory() == old(self).spec_total_memory(),
            final(self).spec_last_eviction() == old(self).spec_last_eviction(),
    {
        if let Some(i) = self.find(id) {
            proof {
                use_type_invariant(&*self);
                self.lemma_record_at(i as int);
            }
            let draining = match self.slots[i].state {
                IsolateEvictionState::Draining { .. } => true,
                _ => false,
            };
            if draining {
                let mut slot = self.copy_slot(i);
                slot.state = IsolateEvictionState::Evicted;
                self.set_slot(i, slot);
                self.evictions_total = bump(self.evictions_total);
                return true;
            }
        }
        false
    }

    /// Evict an isolate at once, whatever its active requests, at time
    /// `now`: it becomes evicted, counting one more eviction, and `now` is
    /// the last eviction time. Unknown identifiers change nothing.
    pub fn hard_evict_at(&mut self, id: &IsolateId, now: u64)
        ensures
            old(self)@.contains_key(id@) ==> final(self)@ == old(self)@.insert(
                id@,
                (old(self)@[id@].0, IsolateEvictionState::Evicted),
            ) && final(self).spec_evictions() == wrap_inc(old(self).spec_evictions())
                && final(self).spec_last_eviction() == Some(now),
            !old(self)@.contains_key(id@) ==> final(self)@ == old(self)@ && final(self).spec_evictions() == old(self).spec_evictions() && final(self).spec_last_eviction()
                == old(self).spec_last_eviction(),
            final(self).spec_config() == old(self).spec_config(),
            final(self).spec_total_memory() == old(self).spec_total_memory(),
    {
        if let Some(i) = self.find(id) {
            proof {
                use_type_invariant(&*self);
                self.lemma_record_at(i as int);
            }
            let mut slot = self.copy_slot(i);
            slot.state = IsolateEvictionState::Evicted;
            self.set_slot(i, slot);
            self.evictions_total = bump(self.evictions_total);
            self.last_eviction = Some(now);
        }
    }

    /// Evict an isolate at once, now (see `hard_evict_at`).
    pub fn hard_evict(&mut self, id: &IsolateId)
        ensures
            old(self)@.contains_key(id@) ==> final(self)@ == old(self)@.insert(
                id@,
                (old(self)@[id@].0, IsolateEvictionState::Evicted),
            ) && final(self).spec_evictions() == wrap_inc(old(self).spec_evictions())
                && final(self).spec_last_eviction() is Some,
            !old(self)@.contains_key(id@) ==> final(self)@ == old(self)@ && final(self).spec_evictions() == old(self).spec_evictions() && final(self).spec_last_eviction()
                == old(self).spec_last_eviction(),
            final(self).spec_config() == old(self).spec_config(),
            final(self).spec_total_memory() == old(self).spec_total_memory(),
    {
        let now = now_millis();
        self.hard_evict_at(id, now);
    }

    /// The metadata of an isolate, if registered.
    pub fn get_metadata(&self, id: &IsolateId) -> (r: Option<&IsolateMetadata>)
        ensures
            match r {
                Some(m) => self@.contains_key(id@) && *m == self@[id@].0,
                None => !self@.contains_key(id@),
            },
    {
        match self.find(id) {
            Some(i) => {
                proof {
                    use_type_invariant(&*self);
                    self.lemma_record_at(i as int);
                }
                Some(&self.slots[i].metadata)
            },
            None => None,
        }
    }

    /// The age in milliseconds of an isolate as of `now`, if registered.
    pub fn get_isolate_age_at(&self, id: &IsolateId, now: u64) -> (r: Option<u64>)
        ensures
            r == if self@.contains_key(id@) {
                Some(elapsed_ms(self@[id@].0.created_at, now) as u64)
            } else {
                None::<u64>
            },
    {
        match self.get_metadata(id) {
            Some(m) => Some(m.age_at(now)),
            None => None,
        }
    }

    /// The age in milliseconds of an isolate as of now, if registered.
    pub fn get_isolate_age(&self, id: &IsolateId) -> (r: Option<u64>)
        ensures
            !self@.contains_key(id@) ==> r is None,
            self@.contains_key(id@) ==> exists|now: u64|
                r == Some(#[trigger] elapsed_ms(self@[id@].0.created_at, now) as u64),
    {
        self.get_isolate_age_at(id, now_millis())
    }

    /// The formatted age of an isolate as of `now`, if registered.
    pub fn get_isolate_age_formatted_at(&self, id: &IsolateId, now: u64) -> (r: Option<String>)
        ensures
            match r {
                Some(s) => self@.contains_key(id@) && s@ == age_text(
                    elapsed_ms(self@[id@].0.created_at, now) / 1000,
                ),
                None => !self@.contains_key(id@),
            },
    {
        match self.get_metadata(id) {
            Some(m) => Some(m.age_formatted_at(now)),
            None => None,
        }
    }

    /// The formatted age of an isolate as of now, if registered.
    pub fn get_isolate_age_formatted(&self, id: &IsolateId) -> (r: Option<String>)
        ensures
            !self@.contains_key(id@) ==> r is None,
            self@.contains_key(id@) ==> r is Some && exists|now: u64|
                r->0@ == age_text(#[trigger] elapsed_ms(self@[id@].0.created_at, now) / 1000),
    {
        self.get_isolate_age_formatted_at(id, now_millis())
    }

    /// The total memory as of the last recorded usage.
    pub fn total_memory_bytes(&self) -> (r: usize)
        ensures
            r == self.spec_total_memory(),
    {
        self.total_memory
    }

    /// The number of evictions completed.
    pub fn eviction_count(&self) -> (r: usize)
        ensures
            r == self.spec_evictions(),
    {
        self.evictions_total
    }

    /// The number of registered isolates.
    pub fn isolate_count(&self) -> (r: usize)
        ensures
            r == self@.dom().len(),
    {
        proof {
            use_type_invariant(self);
            lemma_slots_map(self.slots@);
        }
        self.slots.len()
    }

    /// Milliseconds since the last eviction as of `now`, if any.
    pub fn time_since_last_eviction_at(&self, now: u64) -> (r: Option<u64>)
        ensures
            r == match self.spec_last_eviction() {
                Some(t) => Some(elapsed_ms(t, now) as u64),
                None => None::<u64>,
            },
    {
        match self.last_eviction {
            Some(t) => Some(now.saturating_sub(t)),
            None => None,
        }
    }

    /// Milliseconds since the last eviction as of now, if any.
    pub fn time_since_last_eviction(&self) -> (r: Option<u64>)
        ensures
            match self.spec_last_eviction() {
                Some(t) => exists|now: u64| r == Some(#[trigger] elapsed_ms(t, now) as u64),
                None => r is None,
            },
    {
        self.time_since_last_eviction_at(now_millis())
    }

    fn slot_eligible(&self, j: usize, stateless_only: bool, now: u64) -> (r: bool)
        requires
            j < self.slots.len(),
        ensures
            r == eligible(self@, self.config, self.slots@[j as int].id@, stateless_only, now),
    {
        proof {
            use_type_invariant(self);
            self.lemma_record_at(j as int);
        }
        let s = &self.slots[j];
        let active = match s.state {
            IsolateEvictionState::Active => true,
            _ => false,
        };
        active && s.metadata.active_requests == 0 && s.metadata.idle_duration_at(now) / 1000
            >= self.config.min_idle_secs && !(stateless_only && self.config.prefer_stateless
            && !s.metadata.is_stateless)
    }

    fn slot_key(&self, j: usize, seed: u64) -> (r: u64)
        requires
            j < self.slots.len(),
        ensures
            self.config.policy != EvictionPolicy::Random ==> r as int == victim_key(
                self.config.policy,
                self.slots@[j as int].metadata,
            ),
            self.config.policy == EvictionPolicy::Random ==> r == seed.wrapping_add(
                default_hash_of(self.slots@[j as int].id@),
            ),
    {
        let md = &self.slots[j].metadata;
        match self.config.policy {
            EvictionPolicy::Lru => md.last_used,
            EvictionPolicy::Lfu => md.use_count,
            EvictionPolicy::LargestFirst => u64::MAX - (md.memory_footprint as u64),
            EvictionPolicy::Random => random_rank(seed, &self.slots[j].id),
        }
    }

    /// Choose up to `count` victims among the eligible isolates, in the
    /// policy's order.
    fn select_victims(&self, count: usize, stateless_only: bool, now: u64) -> (r: Vec<IsolateId>)
        ensures
            is_victim_choice(
                self@,
                self.config,
                r@.map_values(|x: IsolateId| x@),
                count as nat,
                stateless_only,
                now,
            ),
    {
        proof {
            use_type_invariant(self);
            lemma_slots_map(self.slots@);
        }
        let n = self.slots.len();
        let seed = match self.config.policy {
            EvictionPolicy::Random => random_seed(),
            _ => 0,
        };
        let mut elig: Vec<bool> = Vec::new();
        let mut keys: Vec<u64> = Vec::new();
        let mut j: usize = 0;
        while j < n
            invariant
                n == self.slots.len(),
                j <= n,
                elig.len() == j,
                keys.len() == j,
                forall|q: int|
                    0 <= q < j ==> #[trigger] elig@[q] == eligible(
                        self@,
                        self.config,
                        self.slots@[q].id@,
                        stateless_only,
                        now,
                    ),
                self.config.policy != EvictionPolicy::Random ==> forall|q: int|
                    0 <= q < j ==> #[trigger] keys@[q] as int == victim_key(
                        self.config.policy,
                        self.slots@[q].metadata,
                    ),
            decreases n - j,
        {
            elig.push(self.slot_eligible(j, stateless_only, now));
            keys.push(self.slot_key(j, seed));
            j = j + 1;
        }
        let mut chosen: Vec<bool> = Vec::new();
        let mut q: usize = 0;
        while q < n
            invariant
                q <= n,
                chosen.len() == q,
                forall|a: int| 0 <= a < q ==> !#[trigger] chosen@[a],
            decreases n - q,
        {
            chosen.push(false);
            q = q + 1;
        }
        let mut n_elig: usize = 0;
        let mut q: usize = 0;
        while q < n
            invariant
                q <= n,
                elig.len() == n,
                n_elig <= q,
                n_elig == elig@.take(q as int).filter(|b: bool| b).len(),
            decreases n - q,
        {
            proof {
                assert(elig@.take(q + 1).drop_last() =~= elig@.take(q as int));
                elig@.take(q + 1).lemma_filter_len_push(|b: bool| b, elig@.take(q + 1).last());
                reveal_with_fuel(Seq::filter, 1);
            }
            if elig[q] {
                n_elig = n_elig + 1;
            }
            q = q + 1;
        }
        assert(elig@.take(n as int) =~= elig@);
        let mut sel: Vec<usize> = Vec::new();
        while sel.len() < count && sel.len() < n_elig
            invariant
                n == self.slots.len(),
                elig.len() == n,
                keys.len() == n,
                chosen.len() == n,
                sel.len() <= count,
                sel.len() <= n_elig,
                n_elig == elig@.filter(|b: bool| b).len(),
                forall|a: int| 0 <= a < sel.len() ==> #[trigger] sel@[a] < n,
                forall|a: int| 0 <= a < sel.len() ==> elig@[#[trigger] sel@[a] as int],
                forall|a: int| 0 <= a < sel.len() ==> chosen@[#[trigger] sel@[a] as int],
                forall|a: int, b: int|
                    #![trigger sel@[a], sel@[b]]
                    0 <= a < b < sel.len() ==> sel@[a] != sel@[b],
                forall|p: int|
                    0 <= p < n && #[trigger] chosen@[p] ==> exists|a: int|
                        0 <= a < sel.len() && sel@[a] == p,
                forall|a: int, b: int|
                    #![trigger sel@[a], sel@[b]]
                    0 <= a < b < sel.len() ==> keys@[sel@[a] as int] <= keys@[sel@[b] as int],
                forall|a: int, p: int|
                    #![trigger sel@[a], elig@[p]]
                    0 <= a < sel.len() && 0 <= p < n && elig@[p] && !chosen@[p]
                        ==> keys@[sel@[a] as int] <= keys@[p],
            ensures
                sel.len() >= count || sel.len() >= n_elig,
            decreases n_elig - sel.len(),
        {
            let mut best: usize = n;
            let mut p: usize = 0;
            while p < n
                invariant
                    n == self.slots.len(),
                    elig.len() == n,
                    keys.len() == n,
                    chosen.len() == n,
                    p <= n,
                    best == n || (best < p && elig@[best as int] && !chosen@[best as int]),
                    best < n ==> forall|x: int|
                        0 <= x < p && elig@[x] && !chosen@[x] ==> keys@[best as int] <= keys@[x],
                    best == n ==> forall|x: int| 0 <= x < p ==> !(elig@[x] && !chosen@[x]),
                decreases n - p,
            {
                if elig[p] && !chosen[p] {
                    if best == n || keys[p] < keys[best] {
                        best = p;
                    }
                }
                p = p + 1;
            }
            if best == n {
                proof {
                    lemma_all_chosen(elig@, chosen@, sel@, n_elig as int);
                }
                break;
            }
            let ghost old_sel = sel@;
            let ghost old_chosen = chosen@;
            chosen.set(best, true);
            sel.push(best);
            proof {
                assert forall|a: int, b: int|
                    #![trigger sel@[a], sel@[b]]
                    0 <= a < b < sel.len() implies sel@[a] != sel@[b] by {
                    if b == sel.len() - 1 {
                        assert(old_chosen[old_sel[a] as int]);
                    }
                }
                assert forall|p: int|
                    0 <= p < n && #[trigger] chosen@[p] implies exists|a: int|
                        0 <= a < sel.len() && sel@[a] == p by {
                    if p == best {
                        assert(sel@[sel.len() - 1] == p);
                    } else {
                        assert(old_chosen[p]);
                        let a = choose|a: int| 0 <= a < old_sel.len() && old_sel[a] == p;
                        assert(sel@[a] == p);
                    }
                }
                assert forall|a: int, b: int|
                    #![trigger sel@[a], sel@[b]]
                    0 <= a < b < sel.len() implies keys@[sel@[a] as int] <= keys@[sel@[b] as int] by {
                    if b == sel.len() - 1 {
                        assert(old_sel[a] == sel@[a]);
                    }
                }
                assert forall|a: int, p: int|
                    #![trigger sel@[a], elig@[p]]
                    0 <= a < sel.len() && 0 <= p < n && elig@[p] && !chosen@[p] implies keys@[sel@[a] as int] <= keys@[p] by {
                    assert(p != best);
                    assert(!old_chosen[p]);
                    if a < sel.len() - 1 {
                        assert(old_sel[a] == sel@[a]);
                    }
                }
                lemma_sel_bound(elig@, chosen@, sel@);
            }
        }
        let mut out: Vec<IsolateId> = Vec::new();
        let mut a: usize = 0;
        while a < sel.len()
            invariant
                n == self.slots.len(),
                a <= sel.len(),
                out.len() == a,
                forall|b: int| 0 <= b < sel.len() ==> #[trigger] sel@[b] < n,
                forall|b: int| 0 <= b < a ==> #[trigger] out@[b]@ == self.slots@[sel@[b] as int].id@,
            decreases sel.len() - a,
        {
            out.push(self.slots[sel[a]].id.duplicate());
            a = a + 1;
        }
        proof {
            let m = self@;
            let cfg = self.config;
            let ids = out@.map_values(|x: IsolateId| x@);
            assert forall|b: int| 0 <= b < ids.len() implies #[trigger] ids[b] == self.slots@[sel@[b] as int].id@ by {}
            assert forall|b: int| 0 <= b < ids.len() implies eligible(m, cfg, #[trigger] ids[b], stateless_only, now) by {
                assert(elig@[sel@[b] as int]);
            }
            assert(ids.no_duplicates()) by {
                assert forall|x: int, y: int| 0 <= x < ids.len() && 0 <= y < ids.len() && x != y implies ids[x] != ids[y] by {
                    let (lo, hi) = if x < y { (x, y) } else { (y, x) };
                    assert(sel@[lo] != sel@[hi]);
                    let sx = sel@[x] as int;
                    let sy = sel@[y] as int;
                    assert(self.slots@[sx].id@ != self.slots@[sy].id@);
                }
            }
            assert forall|k: Seq<char>| eligible(m, cfg, k, stateless_only, now) && !ids.contains(k) implies exists|p: int| 0 <= p < n && elig@[p] && !chosen@[p] && self.slots@[p].id@ == k by {
                let p = choose|p: int| 0 <= p < self.slots.len() && self.slots@[p].id@ == k;
                assert(self.slots@[p] == self.slots@[p]);
                assert(elig@[p]);
                if chosen@[p] {
                    let a = choose|a: int| 0 <= a < sel.len() && sel@[a] == p;
                    assert(ids[a] == k);
                    assert(false);
                }
            }
            if ids.len() < count {
                lemma_all_chosen(elig@, chosen@, sel@, n_elig as int);
                assert forall|k: Seq<char>| eligible(m, cfg, k, stateless_only, now) implies #[trigger] ids.contains(k) by {
                    if !ids.contains(k) {
                        let p = choose|p: int| 0 <= p < n && elig@[p] && !chosen@[p] && self.slots@[p].id@ == k;
                    }
                }
            }
            if cfg.policy != EvictionPolicy::Random {
                assert forall|x: int, y: int|
                    #![trigger ids[x], ids[y]]
                    0 <= x < y < ids.len() implies victim_key(cfg.policy, m[ids[x]].0) <= victim_key(cfg.policy, m[ids[y]].0) by {
                    let sx = sel@[x] as int;
                    let sy = sel@[y] as int;
                    assert(self.slots@[sx] == self.slots@[sx]);
                    assert(self.slots@[sy] == self.slots@[sy]);
                    assert(keys@[sx] <= keys@[sy]);
                }
                assert forall|x: int, k: Seq<char>|
                    #![trigger ids[x], eligible(m, cfg, k, stateless_only, now)]
                    0 <= x < ids.len() && eligible(m, cfg, k, stateless_only, now) && !ids.contains(k) implies victim_key(cfg.policy, m[ids[x]].0) <= victim_key(cfg.policy, m[k].0) by {
                    let p = choose|p: int| 0 <= p < n && elig@[p] && !chosen@[p] && self.slots@[p].id@ == k;
                    let sx = sel@[x] as int;
                    assert(self.slots@[sx] == self.slots@[sx]);
                    assert(self.slots@[p] == self.slots@[p]);
                    assert(keys@[sx] <= keys@[p]);
                }
            }
        }
        out
    }

    /// Decide the action for a memory pressure level at time `now`. During
    /// the cooldown after an eviction it only throttles (Critical and
    /// Emergency) or allows. Otherwise Normal allows, Warning throttles,
    /// Critical soft-evicts up to the target number of idle stateless
    /// victims (throttling when there are none), and Emergency hard-evicts up
    /// to twice that number of idle victims (an empty soft eviction when
    /// there are none). The manager itself is left unchanged.
    pub fn evaluate_pressure_at(&mut self, level: MemoryPressureLevel, now: u64) -> (r:
        EvictionAction)
        requires
            level == MemoryPressureLevel::Emergency ==> old(self).spec_config().target_eviction_count
                <= usize::MAX / 2,
        ensures
            pressure_action_ok(
                old(self)@,
                old(self).spec_config(),
                old(self).spec_last_eviction(),
                level,
                now,
                r,
            ),
            *final(self) == *old(self),
    {
        if let Some(last) = self.last_eviction {
            if now.saturating_sub(last) / 1000 < self.config.cooldown_secs {
                if level.requires_eviction() {
                    return EvictionAction::Throttle;
                }
                return EvictionAction::Allow;
            }
        }
        match level {
            MemoryPressureLevel::Normal => EvictionAction::Allow,
            MemoryPressureLevel::Warning => EvictionAction::Throttle,
            MemoryPressureLevel::Critical => {
                let victims = self.select_victims(self.config.target_eviction_count, true, now);
                if victims.len() == 0 {
                    proof {
                        assert(victims@.map_values(|x: IsolateId| x@) =~= Seq::<Seq<char>>::empty());
                    }
                    EvictionAction::Throttle
                } else {
                    EvictionAction::SoftEvict(victims)
                }
            },
            MemoryPressureLevel::Emergency => {
                let victims = self.select_victims(
                    self.config.target_eviction_count * 2,
                    false,
                    now,
                );
                if victims.len() == 0 {
                    let r = EvictionAction::SoftEvict(Vec::new());
                    proof {
                        assert(victims@.map_values(|x: IsolateId| x@) =~= Seq::<Seq<char>>::empty());
                        assert(action_ids(r) =~= Seq::<Seq<char>>::empty());
                    }
                    r
                } else {
                    EvictionAction::HardEvict(victims)
                }
            },
        }
    }

    /// Decide the action for a memory pressure level now (see
    /// `evaluate_pressure_at`).
    pub fn evaluate_pressure(&mut self, level: MemoryPressureLevel) -> (r: EvictionAction)
        requires
            level == MemoryPressureLevel::Emergency ==> old(self).spec_config().target_eviction_count
                <= usize::MAX / 2,
        ensures
            *final(self) == *old(self),
            level == MemoryPressureLevel::Normal ==> r == EvictionAction::Allow,
            exists|now: u64|
                pressure_action_ok(
                    old(self)@,
                    old(self).spec_config(),
                    old(self).spec_last_eviction(),
                    level,
                    now,
                    r,
                ),
    {
        let now = now_millis();
        self.evaluate_pressure_at(level, now)
    }

    /// The number of isolates in each state: (active, draining, evicted).
    pub fn state_counts(&self) -> (r: (usize, usize, usize))
        ensures
            r.0 == count_where(self@, active_state()),
            r.1 == count_where(self@, draining_state()),
            r.2 == count_where(self@, evicted_state()),
    {
        proof {
            use_type_invariant(self);
            lemma_count_where(self.slots@, active_state());
            lemma_count_where(self.slots@, draining_state());
            lemma_count_where(self.slots@, evicted_state());
        }
        let mut active: usize = 0;
        let mut draining: usize = 0;
        let mut evicted: usize = 0;
        let mut i: usize = 0;
        while i < self.slots.len()
            invariant
                i <= self.slots.len(),
                active == seq_count(self.slots@.take(i as int), active_state()),
                draining == seq_count(self.slots@.take(i as int), draining_state()),
                evicted == seq_count(self.slots@.take(i as int), evicted_state()),
                active + draining + evicted == i,
            decreases self.slots.len() - i,
        {
            proof {
                assert(self.slots@.take(i + 1).drop_last() =~= self.slots@.take(i as int));
            }
            match self.slots[i].state {
                IsolateEvictionState::Active => active = active + 1,
                IsolateEvictionState::Draining { .. } => draining = draining + 1,
                IsolateEvictionState::Evicted => evicted = evicted + 1,
            }
            i = i + 1;
        }
        proof {
            assert(self.slots@.take(self.slots.len() as int) =~= self.slots@);
        }
        (active, draining, evicted)
    }

    /// Forget every isolate and reset the reported total memory.
    pub fn clear(&mut self)
        ensures
            final(self)@ == Map::<Seq<char>, IsolateRecord>::empty(),
            final(self).spec_total_memory() == 0,
            final(self).spec_config() == old(self).spec_config(),
            final(self).spec_evictions() == old(self).spec_evictions(),
            final(self).spec_last_eviction() == old(self).spec_last_eviction(),
    {
        let _ = self.take_slots();
        self.total_memory = 0;
        assert(self.slots@ =~= Seq::<Slot>::empty());
    }
}


/// Every selected position is a chosen eligible one, so there are no more
/// of them than eligible positions.
proof fn lemma_sel_bound(elig: Seq<bool>, chosen: Seq<bool>, sel: Seq<usize>)
    requires
        elig.len() == chosen.len(),
        forall|a: int| 0 <= a < sel.len() ==> #[trigger] sel[a] < elig.len(),
        forall|a: int| 0 <= a < sel.len() ==> elig[#[trigger] sel[a] as int],
        forall|a: int, b: int|
            #![trigger sel[a], sel[b]]
            0 <= a < b < sel.len() ==> sel[a] != sel[b],
    ensures
        sel.len() <= elig.filter(|b: bool| b).len(),
{
    let idx = Set::new(|p: int| 0 <= p < elig.len() && elig[p]);
    let s = sel.to_set().map(|x: usize| x as int);
    lemma_true_count(elig);
    assert(s.subset_of(idx));
    sel.unique_seq_to_set();
    lemma_map_injective_len(sel.to_set());
    vstd::set_lib::lemma_len_subset(s, idx);
}

proof fn lemma_map_injective_len(s: Set<usize>)
    requires
        s.finite(),
    ensures
        s.map(|x: usize| x as int).finite(),
        s.map(|x: usize| x as int).len() == s.len(),
    decreases s.len(),
{
    if s.len() == 0 {
        assert(s.map(|x: usize| x as int) =~= Set::<int>::empty());
    } else {
        let x = s.choose();
        lemma_map_injective_len(s.remove(x));
        assert(s.map(|x: usize| x as int) =~= s.remove(x).map(|x: usize| x as int).insert(x as int));
    }
}

/// The number of true entries is the size of the set of their positions.
proof fn lemma_true_count(elig: Seq<bool>)
    ensures
        Set::new(|p: int| 0 <= p < elig.len() && elig[p]).finite(),
        Set::new(|p: int| 0 <= p < elig.len() && elig[p]).len() == elig.filter(|b: bool| b).len(),
    decreases elig.len(),
{
    let idx = Set::new(|p: int| 0 <= p < elig.len() && elig[p]);
    reveal_with_fuel(Seq::filter, 1);
    if elig.len() == 0 {
        assert(idx =~= Set::<int>::empty());
    } else {
        let t = elig.drop_last();
        lemma_true_count(t);
        let tidx = Set::new(|p: int| 0 <= p < t.len() && t[p]);
        elig.lemma_filter_len_push(|b: bool| b, elig.last());
        assert(t.push(elig.last()) =~= elig);
        if elig.last() {
            assert(idx =~= tidx.insert(elig.len() - 1));
        } else {
            assert(idx =~= tidx);
        }
    }
}

/// When the selection is as large as the number of eligible positions,
/// every eligible position has been chosen.
proof fn lemma_all_chosen(elig: Seq<bool>, chosen: Seq<bool>, sel: Seq<usize>, n_elig: int)
    requires
        elig.len() == chosen.len(),
        n_elig == elig.filter(|b: bool| b).len(),
        forall|a: int| 0 <= a < sel.len() ==> #[trigger] sel[a] < elig.len(),
        forall|a: int| 0 <= a < sel.len() ==> elig[#[trigger] sel[a] as int],
        forall|a: int| 0 <= a < sel.len() ==> chosen[#[trigger] sel[a] as int],
        forall|a: int, b: int|
            #![trigger sel[a], sel[b]]
            0 <= a < b < sel.len() ==> sel[a] != sel[b],
        forall|p: int|
            0 <= p < elig.len() && #[trigger] chosen[p] ==> exists|a: int|
                0 <= a < sel.len() && sel[a] == p,
        sel.len() == n_elig || forall|x: int| 0 <= x < elig.len() ==> !(elig[x] && !chosen[x]),
    ensures
        forall|x: int| 0 <= x < elig.len() && elig[x] ==> chosen[x],
        sel.len() == n_elig,
{
    let idx = Set::new(|p: int| 0 <= p < elig.len() && elig[p]);
    let s = sel.to_set().map(|x: usize| x as int);
    lemma_true_count(elig);
    sel.unique_seq_to_set();
    lemma_map_injective_len(sel.to_set());
    assert(s.subset_of(idx));
    if sel.len() == n_elig {
        vstd::set_lib::lemma_subset_equality(s, idx);
        assert forall|x: int| 0 <= x < elig.len() && elig[x] implies chosen[x] by {
            assert(idx.contains(x));
            assert(s.contains(x));
            let u = choose|u: usize| sel.to_set().contains(u) && u as int == x;
            let a = choose|a: int| 0 <= a < sel.len() && sel[a] == u;
        }
    } else {
        assert(idx.subset_of(s)) by {
            assert forall|x: int| idx.contains(x) implies s.contains(x) by {
                assert(chosen[x]);
                let a = choose|a: int| 0 <= a < sel.len() && sel[a] == x;
                assert(sel.to_set().contains(sel[a]));
            }
        }
        vstd::set_lib::lemma_len_subset(idx, s);
        vstd::set_lib::lemma_len_subset(s, idx);
    }
}


/// The state test of active isolates.
pub open spec fn active_state() -> spec_fn(IsolateEvictionState) -> bool {
    |st: IsolateEvictionState| st is Active
}

/// The state test of draining isolates.
pub open spec fn draining_state() -> spec_fn(IsolateEvictionState) -> bool {
    |st: IsolateEvictionState| st is Draining
}

/// The state test of evicted isolates.
pub open spec fn evicted_state() -> spec_fn(IsolateEvictionState) -> bool {
    |st: IsolateEvictionState| st is Evicted
}

/// The number of registered isolates whose state satisfies `p`.
pub open spec fn count_where(
    m: Map<Seq<char>, IsolateRecord>,
    p: spec_fn(IsolateEvictionState) -> bool,
) -> nat {
    m.dom().filter(|k: Seq<char>| p(m[k].1)).len()
}

spec fn seq_count(s: Seq<Slot>, p: spec_fn(IsolateEvictionState) -> bool) -> nat
    decreases s.len(),
{
    if s.len() == 0 {
        0
    } else {
        seq_count(s.drop_last(), p) + if p(s.last().state) {
            1nat
        } else {
            0nat
        }
    }
}

proof fn lemma_count_where(s: Seq<Slot>, p: spec_fn(IsolateEvictionState) -> bool)
    requires
        ids_distinct(s),
    ensures
        slots_map(s).dom().filter(|k: Seq<char>| p(slots_map(s)[k].1)).finite(),
        count_where(slots_map(s), p) == seq_count(s, p),
    decreases s.len(),
{
    lemma_slots_map(s);
    let ms = slots_map(s);
    let fs = ms.dom().filter(|k: Seq<char>| p(ms[k].1));
    if s.len() == 0 {
        assert(fs =~= Set::<Seq<char>>::empty());
    } else {
        let t = s.drop_last();
        assert(ids_distinct(t));
        lemma_count_where(t, p);
        lemma_slots_map(t);
        let mt = slots_map(t);
        let ft = mt.dom().filter(|k: Seq<char>| p(mt[k].1));
        let l = s.last();
        if mt.contains_key(l.id@) {
            let i = choose|i: int| 0 <= i < t.len() && t[i].id@ == l.id@;
            assert(s[i] == t[i]);
            assert(s[s.len() - 1] == l);
            assert(false);
        }
        if p(l.state) {
            assert(fs =~= ft.insert(l.id@));
        } else {
            assert(fs =~= ft);
        }
    }
}

/// One more, wrapping to zero after `usize::MAX`.
pub open spec fn wrap_inc(n: usize) -> usize {
    if n == usize::MAX {
        0
    } else {
        (n + 1) as usize
    }
}

fn bump(n: usize) -> (r: usize)
    ensures
        r == wrap_inc(n),
{
    if n == usize::MAX {
        0
    } else {
        n + 1
    }
}

proof fn lemma_count_after_set(
    m: Map<Seq<char>, IsolateRecord>,
    k: Seq<char>,
    r: IsolateRecord,
    p: spec_fn(IsolateEvictionState) -> bool,
)
    requires
        m.dom().finite(),
        m.contains_key(k),
    ensures
        count_where(m.insert(k, r), p) + (if p(m[k].1) {
            1int
        } else {
            0int
        }) == count_where(m, p) + (if p(r.1) {
            1int
        } else {
            0int
        }),
{
    let n = m.insert(k, r);
    let f = m.dom().filter(|x: Seq<char>| p(m[x].1));
    let g = n.dom().filter(|x: Seq<char>| p(n[x].1));
    assert(n.dom() =~= m.dom());
    assert(f.finite() && g.finite()) by {
        vstd::set_lib::lemma_len_subset(f, m.dom());
        vstd::set_lib::lemma_len_subset(g, m.dom());
    }
    assert(g.remove(k) =~= f.remove(k));
    if p(m[k].1) {
        assert(f.contains(k));
    } else {
        assert(!f.contains(k));
        assert(f.remove(k) =~= f);
    }
    if p(r.1) {
        assert(g.contains(k));
    } else {
        assert(!g.contains(k));
        assert(g.remove(k) =~= g);
    }
}

/// Soft eviction moves one isolate from active to draining: the draining
/// isolate accepts no new requests, there is one active isolate fewer and
/// one draining isolate more, and as many evicted ones.
pub proof fn law_soft_eviction_counts(m: Map<Seq<char>, IsolateRecord>, id: Seq<char>)
    requires
        m.dom().finite(),
        m.contains_key(id),
        m[id].1 is Active,
    ensures
        ({
            let n = m.insert(
                id,
                (m[id].0, IsolateEvictionState::Draining { remaining_requests: m[id].0.active_requests }),
            );
            &&& !(n[id].1 is Active)
            &&& count_where(n, active_state()) + 1 == count_where(m, active_state())
            &&& count_where(n, draining_state()) == count_where(m, draining_state()) + 1
            &&& count_where(n, evicted_state()) == count_where(m, evicted_state())
        }),
{
    let r = (m[id].0, IsolateEvictionState::Draining { remaining_requests: m[id].0.active_requests });
    lemma_count_after_set(m, id, r, active_state());
    lemma_count_after_set(m, id, r, draining_state());
    lemma_count_after_set(m, id, r, evicted_state());
}

/// Completing a soft eviction moves one isolate from draining to evicted:
/// one draining isolate fewer, one evicted more, and as many active ones.
pub proof fn law_complete_eviction_counts(m: Map<Seq<char>, IsolateRecord>, id: Seq<char>)
    requires
        m.dom().finite(),
        m.contains_key(id),
        m[id].1 is Draining,
    ensures
        ({
            let n = m.insert(id, (m[id].0, IsolateEvictionState::Evicted));
            &&& count_where(n, active_state()) == count_where(m, active_state())
            &&& count_where(n, draining_state()) + 1 == count_where(m, draining_state())
            &&& count_where(n, evicted_state()) == count_where(m, evicted_state()) + 1
        }),
{
    let r = (m[id].0, IsolateEvictionState::Evicted);
    lemma_count_after_set(m, id, r, active_state());
    lemma_count_after_set(m, id, r, draining_state());
    lemma_count_after_set(m, id, r, evicted_state());
}

} // verus!
