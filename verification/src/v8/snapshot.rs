//! Pre-generated V8 startup snapshot data.
use vstd::prelude::*;

verus! {

/// Cache for a pre-generated runtime snapshot, loaded at server startup.
pub struct SnapshotCache {
    data: Vec<u8>,
}

impl View for SnapshotCache {
    type V = Seq<u8>;

    closed spec fn view(&self) -> Seq<u8> {
        self.data@
    }
}

impl SnapshotCache {
    /// A cache holding the given snapshot bytes.
    pub fn from_data(data: Vec<u8>) -> (r: Self)
        ensures
            r@ == data@,
    {
        SnapshotCache { data }
    }

    /// The snapshot bytes.
    pub fn data(&self) -> (r: &[u8])
        ensures
            r@ == self@,
    {
        self.data.as_slice()
    }

    /// Whether the snapshot holds any data.
    pub fn is_valid(&self) -> (r: bool)
        ensures
            r == (self@.len() > 0),
    {
        self.data.len() > 0
    }
}

/// The marker that early slivers held in place of a heap snapshot: the
/// ASCII bytes of `NANO_SNAPSHOT_PLACEHOLDER_V1`.
pub open spec fn legacy_marker() -> Seq<u8> {
    seq![78u8, 65u8, 78u8, 79u8, 95u8, 83u8, 78u8, 65u8, 80u8, 83u8, 72u8, 79u8, 84u8, 95u8, 80u8, 76u8, 65u8, 67u8, 69u8, 72u8, 79u8, 76u8, 68u8, 69u8, 82u8, 95u8, 86u8, 49u8]
}

/// The first four bytes of a V8 startup snapshot.
pub open spec fn snapshot_magic() -> Seq<u8> {
    seq![0xD7u8, 0x3Cu8, 0xD7u8, 0x3Cu8]
}

/// The smallest snapshot worth handing to V8, in bytes.
pub const MIN_SNAPSHOT_SIZE: usize = 8;

/// How an isolate is started from snapshot bytes: fresh for the legacy
/// marker, for too little data or for data without V8's magic number;
/// otherwise from the snapshot (which V8 then checks further).
#[derive(Debug, Clone, Copy, PartialEq, Eq, Structural)]
pub enum SnapshotStart {
    LegacyMarker,
    TooSmall,
    MissingMagic,
    Restore,
}

/// The way an isolate starts from these snapshot bytes (see `SnapshotStart`),
/// the checks made in that order.
pub open spec fn snapshot_start(data: Seq<u8>) -> SnapshotStart {
    if data == legacy_marker() {
        SnapshotStart::LegacyMarker
    } else if data.len() < MIN_SNAPSHOT_SIZE {
        SnapshotStart::TooSmall
    } else if data.subrange(0, 4) != snapshot_magic() {
        SnapshotStart::MissingMagic
    } else {
        SnapshotStart::Restore
    }
}

/// Classify snapshot bytes before creating an isolate from them (see
/// `snapshot_start`).
pub fn classify_snapshot(data: &[u8]) -> (r: SnapshotStart)
    ensures
        r == snapshot_start(data@),
{
    let marker: [u8; 28] = [78u8, 65u8, 78u8, 79u8, 95u8, 83u8, 78u8, 65u8, 80u8, 83u8, 72u8, 79u8, 84u8, 95u8, 80u8, 76u8, 65u8, 67u8, 69u8, 72u8, 79u8, 76u8, 68u8, 69u8, 82u8, 95u8, 86u8, 49u8];
    assert(marker@ =~= legacy_marker());
    let mut same = data.len() == marker.len();
    if same {
        let mut i: usize = 0;
        while i < data.len()
            invariant
                i <= data@.len(),
                data@.len() == marker@.len(),
                same == (forall|j: int| 0 <= j < i ==> data@[j] == marker@[j]),
            decreases data@.len() - i,
        {
            if data[i] != marker[i] {
                same = false;
            }
            i = i + 1;
        }
        assert(same ==> data@ =~= marker@);
    }
    if same {
        return SnapshotStart::LegacyMarker;
    }
    if data.len() < MIN_SNAPSHOT_SIZE {
        return SnapshotStart::TooSmall;
    }
    if data[0] == 0xD7 && data[1] == 0x3C && data[2] == 0xD7 && data[3] == 0x3C {
        assert(data@.subrange(0, 4) =~= snapshot_magic());
        SnapshotStart::Restore
    } else {
        assert(data@.subrange(0, 4)[0] == data@[0]);
        assert(data@.subrange(0, 4)[1] == data@[1]);
        assert(data@.subrange(0, 4)[2] == data@[2]);
        assert(data@.subrange(0, 4)[3] == data@[3]);
        SnapshotStart::MissingMagic
    }
}

} // verus!
