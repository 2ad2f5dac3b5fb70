//! The layer cache: one logical store over three tiers.
//!
//! The memory tier holds values of the caller's type and lives here. The disk
//! tier of the instance and the durable store of the fleet hold serialized
//! values and live with the caller, who reads and writes them and reports
//! what they answered. The cache decides which tier is asked next and which
//! tiers are filled.
//!
//! A read asks memory first, then disk, then the durable store, and stops at
//! the first tier that holds the key. A value found below memory is promoted
//! into every tier above the one that held it. A tier that fails ends the
//! read with an error: the next tier is asked only after a clean miss.
//!
//! A write goes to the durable store first. Only when that store holds the
//! value is the value put into memory and handed on to disk; a disk that
//! fails is reported and does not fail the write.
//!
//! `Tiers` is the whole store as plain values, and `Tiers::get` and
//! `Tiers::insert` are a read and a write carried out step by step against
//! it. The laws at the end of this file are stated over them.

use vstd::prelude::*;

use crate::cache_value::CacheValue;
use crate::error::{LayerDbError, LayerDbResult, Tier};
use crate::memory_cache::MemoryCache;
use crate::wire::WireError;

verus! {

/// What a tier below memory answered to a read.
#[derive(Clone, Debug, PartialEq, Eq)]
pub enum TierRead {
    /// The tier holds these bytes for the key.
    Found(Vec<u8>),
    /// The tier holds nothing for the key.
    Missing,
    /// The tier could not be read.
    Failed,
}

/// A `TierRead` as plain values.
pub enum TierReadView {
    Found(Seq<u8>),
    Missing,
    Failed,
}

impl View for TierRead {
    type V = TierReadView;

    open spec fn view(&self) -> TierReadView {
        match self {
            TierRead::Found(bytes) => TierReadView::Found(bytes@),
            TierRead::Missing => TierReadView::Missing,
            TierRead::Failed => TierReadView::Failed,
        }
    }
}

/// What a tier below memory answered to a write.
#[derive(Clone, Copy, Debug, PartialEq, Eq, Structural)]
pub enum TierWrite {
    /// The tier holds the bytes.
    Written,
    /// The tier could not be written.
    Failed,
}

/// What the answer of a tier means for a read.
pub enum Promotion<T> {
    /// The tier held the value: it goes into the tiers above.
    Promoted(T),
    /// The tier held nothing.
    Missing,
    /// The read ends with this error.
    Failed(LayerDbError),
}

/// What the answer `read` of `tier` means: bytes are a value if they
/// deserialize and an error if they do not, and a tier that failed is an
/// error, not a miss.
pub open spec fn promotion<V: CacheValue>(tier: Tier, read: TierReadView) -> Promotion<V::V> {
    match read {
        TierReadView::Found(bytes) => match V::deserialized(bytes) {
            Ok(v) => Promotion::Promoted(v),
            Err(e) => Promotion::Failed(LayerDbError::Decode(e)),
        },
        TierReadView::Missing => Promotion::Missing,
        TierReadView::Failed => Promotion::Failed(LayerDbError::TierRead(tier)),
    }
}

/// What to do after the disk tier answered a read.
#[derive(Clone, Copy, Debug, PartialEq, Eq, Structural)]
pub enum DiskStep {
    /// The value is in memory now: read it there.
    Promoted,
    /// Disk holds nothing for the key: ask the durable store.
    ReadDurable,
    /// The read ends with this error.
    Failed(LayerDbError),
}

/// What to do after the durable store answered a read.
#[derive(Clone, Debug, PartialEq, Eq)]
pub enum DurableStep {
    /// The value is in memory now: write these bytes to disk, then read the
    /// value in memory.
    Promoted { fill_disk: Vec<u8> },
    /// No tier holds the key.
    Missing,
    /// The read ends with this error.
    Failed(LayerDbError),
}

/// What to do after the durable store answered a write.
#[derive(Clone, Debug, PartialEq, Eq)]
pub enum InsertStep {
    /// The value is durable and in memory: write these bytes to disk.
    WriteDisk(Vec<u8>),
    /// The write ends with this error, and no tier was changed.
    Failed(LayerDbError),
}

/// How a write that succeeded left the disk tier.
#[derive(Clone, Copy, Debug, PartialEq, Eq, Structural)]
pub enum InsertReport {
    /// Every tier holds the value.
    Complete,
    /// Disk could not be written. A key that disk did not hold is read
    /// from the durable store once memory has evicted it; bytes that disk
    /// held for the key before are still there.
    DiskDegraded,
}

/// The cache of one instance.
pub struct LayerCache<V: CacheValue> {
    memory: MemoryCache<V>,
}

impl<V: CacheValue> LayerCache<V> {
    /// The memory tier is well formed.
    pub closed spec fn wf(&self) -> bool {
        self.memory.wf()
    }

    /// The memory tier, by key, as plain values.
    pub closed spec fn memory(&self) -> Map<Seq<u8>, V::V> {
        self.memory@.map_values(|v: V| v@)
    }

    /// A cache with an empty memory tier.
    pub fn new() -> (cache: LayerCache<V>)
        ensures
            cache.wf(),
            cache.memory() == Map::<Seq<u8>, V::V>::empty(),
    {
        let cache = LayerCache { memory: MemoryCache::new() };
        assert(cache.memory() =~= Map::<Seq<u8>, V::V>::empty());
        cache
    }

    /// The memory tier, for inspection.
    pub fn memory_cache(&self) -> (memory: &MemoryCache<V>)
        ensures
            memory.wf() == self.wf(),
            memory@.map_values(|v: V| v@) == self.memory(),
    {
        &self.memory
    }

    /// The first step of a read: the value of `key` in memory. A read that
    /// finds it is done, and touches no other tier. One that does not asks
    /// the disk tier and reports its answer to `disk_read`.
    pub fn get(&self, key: &[u8]) -> (value: Option<&V>)
        requires
            self.wf(),
        ensures
            match value {
                Some(v) => self.memory().contains_key(key@) && v@ == self.memory()[key@],
                None => !self.memory().contains_key(key@),
            },
    {
        self.memory.get(key)
    }

    /// Puts `value` into memory under `key`.
    fn fill_memory(&mut self, key: &[u8], value: V)
        requires
            old(self).wf(),
        ensures
            final(self).wf(),
            final(self).memory() == old(self).memory().insert(key@, value@),
    {
        let owned = vstd::slice::slice_to_vec(key);
        self.memory.insert(owned, value);
        assert(final(self).memory() =~= old(self).memory().insert(key@, value@));
    }

    /// The second step of a read, after memory held nothing: takes the
    /// answer of the disk tier. Bytes are deserialized and the value goes
    /// into memory; a miss sends the read on to the durable store; a disk
    /// that failed, and bytes that hold no value, end the read.
    pub fn disk_read(&mut self, key: &[u8], read: TierRead) -> (step: DiskStep)
        requires
            old(self).wf(),
        ensures
            final(self).wf(),
            match promotion::<V>(Tier::Disk, read@) {
                Promotion::Promoted(v) => step == DiskStep::Promoted && final(self).memory() == old(
                    self,
                ).memory().insert(key@, v),
                Promotion::Missing => step == DiskStep::ReadDurable && final(self).memory() == old(
                    self,
                ).memory(),
                Promotion::Failed(e) => step == DiskStep::Failed(e) && final(self).memory() == old(
                    self,
                ).memory(),
            },
    {
        match read {
            TierRead::Found(bytes) => match V::deserialize(bytes.as_slice()) {
                Ok(value) => {
                    self.fill_memory(key, value);
                    DiskStep::Promoted
                },
                Err(e) => DiskStep::Failed(LayerDbError::Decode(e)),
            },
            TierRead::Missing => DiskStep::ReadDurable,
            TierRead::Failed => DiskStep::Failed(LayerDbError::TierRead(Tier::Disk)),
        }
    }

    /// The third step of a read, after disk held nothing: takes the answer
    /// of the durable store. Bytes are deserialized, the value goes into
    /// memory and the bytes are handed back for the disk tier; a miss means
    /// that no tier holds the key; a store that failed, and bytes that hold
    /// no value, end the read.
    pub fn durable_read(&mut self, key: &[u8], read: TierRead) -> (step: DurableStep)
        requires
            old(self).wf(),
        ensures
            final(self).wf(),
            match promotion::<V>(Tier::Durable, read@) {
                Promotion::Promoted(v) => step matches DurableStep::Promoted { fill_disk }
                    && TierReadView::Found(fill_disk@) == read@ && final(self).memory() == old(
                    self,
                ).memory().insert(key@, v),
                Promotion::Missing => step == DurableStep::Missing && final(self).memory() == old(
                    self,
                ).memory(),
                Promotion::Failed(e) => step == DurableStep::Failed(e) && final(self).memory()
                    == old(self).memory(),
            },
    {
        match read {
            TierRead::Found(bytes) => match V::deserialize(bytes.as_slice()) {
                Ok(value) => {
                    self.fill_memory(key, value);
                    DurableStep::Promoted { fill_disk: bytes }
                },
                Err(e) => DurableStep::Failed(LayerDbError::Decode(e)),
            },
            TierRead::Missing => DurableStep::Missing,
            TierRead::Failed => DurableStep::Failed(LayerDbError::TierRead(Tier::Durable)),
        }
    }

    /// The first step of a write: the bytes of `value`, for the durable
    /// store. The answer of the store is reported to `insert`.
    pub fn serialize(value: &V) -> (bytes: Vec<u8>)
        ensures
            V::fits(value@),
            bytes@ == V::serialized(value@),
    {
        value.serialize()
    }

    /// The second step of a write: takes the answer of the durable store.
    /// If the store holds the value, the value goes into memory and its bytes
    /// are handed back for the disk tier. If the store failed, the write has
    /// failed and memory is left alone.
    pub fn insert(&mut self, key: Vec<u8>, value: V, durable: TierWrite) -> (step: InsertStep)
        requires
            old(self).wf(),
        ensures
            final(self).wf(),
            match durable {
                TierWrite::Written => step matches InsertStep::WriteDisk(bytes) && bytes@
                    == V::serialized(value@) && V::fits(value@) && final(self).memory() == old(
                    self,
                ).memory().insert(key@, value@),
                TierWrite::Failed => step == InsertStep::Failed(
                    LayerDbError::TierWrite(Tier::Durable),
                ) && final(self).memory() == old(self).memory(),
            },
    {
        match durable {
            TierWrite::Written => {
                let bytes = value.serialize();
                self.memory.insert(key, value);
                assert(final(self).memory() =~= old(self).memory().insert(key@, value@));
                InsertStep::WriteDisk(bytes)
            },
            TierWrite::Failed => InsertStep::Failed(LayerDbError::TierWrite(Tier::Durable)),
        }
    }

    /// The last step of a write: takes the answer of the disk tier. The
    /// write has succeeded either way; a disk that failed is reported.
    pub fn disk_written(disk: TierWrite) -> (report: InsertReport)
        ensures
            report == match disk {
                TierWrite::Written => InsertReport::Complete,
                TierWrite::Failed => InsertReport::DiskDegraded,
            },
    {
        match disk {
            TierWrite::Written => InsertReport::Complete,
            TierWrite::Failed => InsertReport::DiskDegraded,
        }
    }

    /// Evicts `key` from memory. The tiers below keep it.
    pub fn evict(&mut self, key: &[u8])
        requires
            old(self).wf(),
        ensures
            final(self).wf(),
            final(self).memory() == old(self).memory().remove(key@),
    {
        let _ = self.memory.remove(key);
        assert(final(self).memory() =~= old(self).memory().remove(key@));
    }
}

/// A tier below memory, as plain values: what it holds, and whether it can
/// be reached.
pub struct Store {
    pub entries: Map<Seq<u8>, Seq<u8>>,
    pub up: bool,
}

impl Store {
    /// What the tier answers to a read of `key`.
    pub open spec fn read(self, key: Seq<u8>) -> TierReadView {
        if !self.up {
            TierReadView::Failed
        } else if self.entries.contains_key(key) {
            TierReadView::Found(self.entries[key])
        } else {
            TierReadView::Missing
        }
    }

    /// What the tier answers to a write.
    pub open spec fn write(self) -> TierWrite {
        if self.up {
            TierWrite::Written
        } else {
            TierWrite::Failed
        }
    }

    /// The tier after a write of `bytes` under `key`: a tier that cannot be
    /// reached keeps what it held.
    pub open spec fn written(self, key: Seq<u8>, bytes: Seq<u8>) -> Store {
        if self.up {
            Store { entries: self.entries.insert(key, bytes), up: self.up }
        } else {
            self
        }
    }

    /// The tier without its entry for `key`.
    pub open spec fn without(self, key: Seq<u8>) -> Store {
        Store { entries: self.entries.remove(key), up: self.up }
    }

    /// The tier, out of reach.
    pub open spec fn down(self) -> Store {
        Store { entries: self.entries, up: false }
    }
}

/// The three tiers, as plain values.
pub struct Tiers<T> {
    pub memory: Map<Seq<u8>, T>,
    pub disk: Store,
    pub durable: Store,
}

/// A read of `key` carried out against `tiers`: what the caller obtains, and
/// the tiers afterwards. Each step is the step of the same name of
/// `LayerCache`, with the answer that the tier gives.
pub open spec fn tiers_get<V: CacheValue>(tiers: Tiers<V::V>, key: Seq<u8>) -> (
    LayerDbResult<Option<V::V>>,
    Tiers<V::V>,
) {
    if tiers.memory.contains_key(key) {
        (Ok(Some(tiers.memory[key])), tiers)
    } else {
        match promotion::<V>(Tier::Disk, tiers.disk.read(key)) {
            Promotion::Promoted(v) => (
                Ok(Some(v)),
                Tiers { memory: tiers.memory.insert(key, v), disk: tiers.disk, durable: tiers.durable },
            ),
            Promotion::Failed(e) => (Err(e), tiers),
            Promotion::Missing => match promotion::<V>(Tier::Durable, tiers.durable.read(key)) {
                Promotion::Promoted(v) => (
                    Ok(Some(v)),
                    Tiers {
                        memory: tiers.memory.insert(key, v),
                        disk: tiers.disk.written(key, tiers.durable.entries[key]),
                        durable: tiers.durable,
                    },
                ),
                Promotion::Failed(e) => (Err(e), tiers),
                Promotion::Missing => (Ok(None), tiers),
            },
        }
    }
}

/// A write of `value` under `key` carried out against `tiers`: what the
/// caller obtains, and the tiers afterwards.
pub open spec fn tiers_insert<V: CacheValue>(tiers: Tiers<V::V>, key: Seq<u8>, value: V::V) -> (
    LayerDbResult<InsertReport>,
    Tiers<V::V>,
) {
    match tiers.durable.write() {
        TierWrite::Failed => (Err(LayerDbError::TierWrite(Tier::Durable)), tiers),
        TierWrite::Written => (
            Ok(
                match tiers.disk.write() {
                    TierWrite::Written => InsertReport::Complete,
                    TierWrite::Failed => InsertReport::DiskDegraded,
                },
            ),
            Tiers {
                memory: tiers.memory.insert(key, value),
                disk: tiers.disk.written(key, V::serialized(value)),
                durable: tiers.durable.written(key, V::serialized(value)),
            },
        ),
    }
}

/// `tiers` with `key` evicted from memory.
pub open spec fn evicted<T>(tiers: Tiers<T>, key: Seq<u8>) -> Tiers<T> {
    Tiers { memory: tiers.memory.remove(key), disk: tiers.disk, durable: tiers.durable }
}

/// A value that was inserted is read back: from memory right after the
/// write, from disk once memory has evicted it, and from the durable store
/// once disk has lost it too. Each tier that was written holds the value by
/// itself.
pub proof fn lemma_get_after_insert<V: CacheValue>(tiers: Tiers<V::V>, key: Seq<u8>, value: V::V)
    requires
        V::fits(value),
        tiers.durable.up,
    ensures
        ({
            let (report, after) = tiers_insert::<V>(tiers, key, value);
            let from_disk = evicted(after, key);
            let from_durable = Tiers {
                memory: after.memory.remove(key),
                disk: after.disk.without(key),
                durable: after.durable,
            };
            &&& report is Ok
            &&& after.memory.contains_key(key) && after.memory[key] == value
            &&& after.durable.entries.contains_key(key) && after.durable.entries[key]
                == V::serialized(value)
            &&& tiers.disk.up ==> after.disk.entries.contains_key(key) && after.disk.entries[key]
                == V::serialized(value)
            &&& tiers_get::<V>(after, key) == (Ok::<Option<V::V>, LayerDbError>(Some(value)), after)
            &&& tiers.disk.up ==> tiers_get::<V>(from_disk, key).0 == Ok::<
                Option<V::V>,
                LayerDbError,
            >(Some(value))
            &&& tiers.disk.up ==> tiers_get::<V>(from_durable, key).0 == Ok::<
                Option<V::V>,
                LayerDbError,
            >(Some(value))
        }),
{
    V::lemma_deserialized_inverts_serialized(value);
}

/// A key that no tier holds is not found, and that is no error: the read
/// gives nothing and leaves every tier as it was.
pub proof fn lemma_get_of_absent_key<V: CacheValue>(tiers: Tiers<V::V>, key: Seq<u8>)
    requires
        !tiers.memory.contains_key(key),
        !tiers.disk.entries.contains_key(key),
        !tiers.durable.entries.contains_key(key),
        tiers.disk.up,
        tiers.durable.up,
    ensures
        tiers_get::<V>(tiers, key) == (Ok::<Option<V::V>, LayerDbError>(None), tiers),
{
}

/// A write under one key leaves every other key as it was, in every tier.
pub proof fn lemma_insert_leaves_other_keys<V: CacheValue>(
    tiers: Tiers<V::V>,
    key: Seq<u8>,
    value: V::V,
    other: Seq<u8>,
)
    requires
        other != key,
    ensures
        ({
            let after = tiers_insert::<V>(tiers, key, value).1;
            &&& after.memory.contains_key(other) == tiers.memory.contains_key(other)
            &&& after.disk.entries.contains_key(other) == tiers.disk.entries.contains_key(other)
            &&& after.durable.entries.contains_key(other) == tiers.durable.entries.contains_key(
                other,
            )
        }),
{
}

/// Promotion: a value that only the durable store holds is read from there
/// and put into disk and memory. The next read of the key is answered from
/// memory alone: it succeeds even with both lower tiers out of reach, and
/// changes nothing.
pub proof fn lemma_get_promotes<V: CacheValue>(tiers: Tiers<V::V>, key: Seq<u8>, value: V::V)
    requires
        !tiers.memory.contains_key(key),
        !tiers.disk.entries.contains_key(key),
        tiers.disk.up,
        tiers.durable.up,
        tiers.durable.entries.contains_key(key),
        V::deserialized(tiers.durable.entries[key]) == Ok::<V::V, WireError>(value),
    ensures
        ({
            let (found, after) = tiers_get::<V>(tiers, key);
            let cut_off = Tiers {
                memory: after.memory,
                disk: after.disk.down(),
                durable: after.durable.down(),
            };
            &&& found == Ok::<Option<V::V>, LayerDbError>(Some(value))
            &&& after.memory.contains_key(key) && after.memory[key] == value
            &&& after.disk.entries.contains_key(key) && after.disk.entries[key]
                == tiers.durable.entries[key]
            &&& after.durable == tiers.durable
            &&& tiers_get::<V>(cut_off, key) == (
                Ok::<Option<V::V>, LayerDbError>(Some(value)),
                cut_off,
            )
        }),
{
}

/// A value that disk holds is promoted into memory, and read from there
/// afterwards.
pub proof fn lemma_get_promotes_from_disk<V: CacheValue>(
    tiers: Tiers<V::V>,
    key: Seq<u8>,
    value: V::V,
)
    requires
        !tiers.memory.contains_key(key),
        tiers.disk.up,
        tiers.disk.entries.contains_key(key),
        V::deserialized(tiers.disk.entries[key]) == Ok::<V::V, WireError>(value),
    ensures
        ({
            let (found, after) = tiers_get::<V>(tiers, key);
            &&& found == Ok::<Option<V::V>, LayerDbError>(Some(value))
            &&& after.memory.contains_key(key) && after.memory[key] == value
            &&& after.disk == tiers.disk && after.durable == tiers.durable
        }),
{
}

/// A tier that fails is no miss: the read ends with the error of the first
/// tier that could not be read, and asks no tier below it, whatever that
/// tier holds. A write that the durable store refuses changes no tier.
pub proof fn lemma_failure_is_not_a_miss<V: CacheValue>(
    tiers: Tiers<V::V>,
    key: Seq<u8>,
    value: V::V,
)
    requires
        !tiers.memory.contains_key(key),
    ensures
        !tiers.disk.up ==> tiers_get::<V>(tiers, key) == (
            Err::<Option<V::V>, LayerDbError>(LayerDbError::TierRead(Tier::Disk)),
            tiers,
        ),
        tiers.disk.up && !tiers.disk.entries.contains_key(key) && !tiers.durable.up ==> tiers_get::<
            V,
        >(tiers, key) == (
            Err::<Option<V::V>, LayerDbError>(LayerDbError::TierRead(Tier::Durable)),
            tiers,
        ),
        !tiers.durable.up ==> tiers_insert::<V>(tiers, key, value) == (
            Err::<InsertReport, LayerDbError>(LayerDbError::TierWrite(Tier::Durable)),
            tiers,
        ),
{
}

/// Whether the upper tiers agree with the durable store: every value in
/// memory is what the bytes of its key in the durable store deserialize to,
/// and every entry on disk holds the very bytes of the durable store. The
/// durable store is the source of truth; the tiers above it are caches.
pub open spec fn coherent<V: CacheValue>(tiers: Tiers<V::V>) -> bool {
    &&& forall|key: Seq<u8>| #[trigger]
        tiers.memory.contains_key(key) ==> tiers.durable.entries.contains_key(key)
            && V::deserialized(tiers.durable.entries[key]) == Ok::<V::V, WireError>(
            tiers.memory[key],
        )
    &&& forall|key: Seq<u8>| #[trigger]
        tiers.disk.entries.contains_key(key) ==> tiers.durable.entries.contains_key(key)
            && tiers.disk.entries[key] == tiers.durable.entries[key]
}

/// Reads keep the tiers coherent: whatever a read finds and whichever tier
/// fails, it puts nothing into memory or onto disk that the durable store
/// does not hold.
pub proof fn lemma_get_keeps_coherence<V: CacheValue>(tiers: Tiers<V::V>, key: Seq<u8>)
    requires
        coherent::<V>(tiers),
    ensures
        coherent::<V>(tiers_get::<V>(tiers, key).1),
{
    let after = tiers_get::<V>(tiers, key).1;
    assert forall|k: Seq<u8>| #[trigger] after.memory.contains_key(k) implies after.durable.entries.contains_key(
        k,
    ) && V::deserialized(after.durable.entries[k]) == Ok::<V::V, WireError>(after.memory[k]) by {
        if k != key {
            assert(tiers.memory.contains_key(k));
        } else if tiers.memory.contains_key(k) {
        } else if tiers.disk.up && tiers.disk.entries.contains_key(k) {
            assert(tiers.disk.entries[k] == tiers.durable.entries[k]);
        }
    }
    assert forall|k: Seq<u8>| #[trigger] after.disk.entries.contains_key(k) implies after.durable.entries.contains_key(
        k,
    ) && after.disk.entries[k] == after.durable.entries[k] by {
        if k != key || tiers.memory.contains_key(key) {
            assert(tiers.disk.entries.contains_key(k));
        } else {
            match promotion::<V>(Tier::Disk, tiers.disk.read(key)) {
                Promotion::Missing => {
                    match promotion::<V>(Tier::Durable, tiers.durable.read(key)) {
                        Promotion::Promoted(_) => {
                            assert(tiers.durable.read(key) is Found);
                        },
                        _ => {
                            assert(after.disk == tiers.disk);
                        },
                    }
                },
                _ => {
                    assert(after.disk == tiers.disk);
                },
            }
        }
    }
}

/// Writes keep the tiers coherent, whether they succeed or fail, with one
/// exception that the requirement leaves out: a write whose disk step fails
/// while disk holds other bytes for the key leaves those bytes there. Such a
/// write reports `DiskDegraded`.
pub proof fn lemma_insert_keeps_coherence<V: CacheValue>(
    tiers: Tiers<V::V>,
    key: Seq<u8>,
    value: V::V,
)
    requires
        coherent::<V>(tiers),
        V::fits(value),
        tiers.disk.up || !tiers.disk.entries.contains_key(key) || tiers.disk.entries[key]
            == V::serialized(value),
    ensures
        coherent::<V>(tiers_insert::<V>(tiers, key, value).1),
{
    V::lemma_deserialized_inverts_serialized(value);
    let after = tiers_insert::<V>(tiers, key, value).1;
    assert forall|k: Seq<u8>| #[trigger] after.memory.contains_key(k) implies after.durable.entries.contains_key(
        k,
    ) && V::deserialized(after.durable.entries[k]) == Ok::<V::V, WireError>(after.memory[k]) by {
        if k != key {
            assert(tiers.memory.contains_key(k));
        }
    }
    assert forall|k: Seq<u8>| #[trigger] after.disk.entries.contains_key(k) implies after.durable.entries.contains_key(
        k,
    ) && after.disk.entries[k] == after.durable.entries[k] by {
        if k != key {
            assert(tiers.disk.entries.contains_key(k));
        }
    }
}

/// A read that found a value can be repeated: the second read gives the same
/// value and changes nothing. Two readers that miss the same key and both
/// promote it leave the tiers as one of them would.
pub proof fn lemma_get_twice<V: CacheValue>(tiers: Tiers<V::V>, key: Seq<u8>)
    requires
        tiers_get::<V>(tiers, key).0 matches Ok(Some(_)),
    ensures
        ({
            let (found, after) = tiers_get::<V>(tiers, key);
            tiers_get::<V>(after, key) == (found, after)
        }),
{
}

} // verus!
