use std::collections::HashMap;

use si_layer_cache::cache_value::CacheValue;
use si_layer_cache::error::{LayerDbError, Tier};
use si_layer_cache::layer_cache::{
    DiskStep, DurableStep, InsertReport, InsertStep, LayerCache, TierRead, TierWrite,
};
use si_layer_cache::memory_cache::{same_bytes, MemoryCache};
use si_layer_cache::wire::WireError;

/// A tier below memory, with a switch to make it fail.
struct Store {
    entries: HashMap<Vec<u8>, Vec<u8>>,
    up: bool,
    reads: usize,
    writes: usize,
}

impl Store {
    fn new() -> Store {
        Store { entries: HashMap::new(), up: true, reads: 0, writes: 0 }
    }

    fn read(&mut self, key: &[u8]) -> TierRead {
        self.reads += 1;
        if !self.up {
            TierRead::Failed
        } else {
            match self.entries.get(key) {
                Some(bytes) => TierRead::Found(bytes.clone()),
                None => TierRead::Missing,
            }
        }
    }

    fn insert(&mut self, key: &[u8], bytes: &[u8]) -> TierWrite {
        self.writes += 1;
        if self.up {
            self.entries.insert(key.to_vec(), bytes.to_vec());
            TierWrite::Written
        } else {
            TierWrite::Failed
        }
    }
}

/// The three tiers of one instance.
struct Layers {
    cache: LayerCache<String>,
    disk: Store,
    durable: Store,
}

impl Layers {
    fn new() -> Layers {
        Layers { cache: LayerCache::new(), disk: Store::new(), durable: Store::new() }
    }

    fn get(&mut self, key: &str) -> Result<Option<String>, LayerDbError> {
        let key = key.as_bytes();
        if let Some(value) = self.cache.get(key) {
            return Ok(Some(value.clone()));
        }
        let answer = self.disk.read(key);
        match self.cache.disk_read(key, answer) {
            DiskStep::Promoted => return Ok(self.cache.get(key).cloned()),
            DiskStep::Failed(e) => return Err(e),
            DiskStep::ReadDurable => {}
        }
        let answer = self.durable.read(key);
        match self.cache.durable_read(key, answer) {
            DurableStep::Promoted { fill_disk } => {
                let _ = self.disk.insert(key, &fill_disk);
                Ok(self.cache.get(key).cloned())
            }
            DurableStep::Missing => Ok(None),
            DurableStep::Failed(e) => Err(e),
        }
    }

    fn insert(&mut self, key: &str, value: String) -> Result<InsertReport, LayerDbError> {
        let key = key.as_bytes();
        let bytes = LayerCache::<String>::serialize(&value);
        let durable = self.durable.insert(key, &bytes);
        match self.cache.insert(key.to_vec(), value, durable) {
            InsertStep::WriteDisk(bytes) => {
                Ok(LayerCache::<String>::disk_written(self.disk.insert(key, &bytes)))
            }
            InsertStep::Failed(e) => Err(e),
        }
    }
}

#[test]
fn empty_insert_and_get() {
    let mut layer_cache = Layers::new();

    layer_cache.insert("skid row", "slave to the grind".into()).expect("insert failed");

    let skid_row = "skid row";

    // Confirm the insert went into the memory cache
    let memory_result = layer_cache
        .cache
        .memory_cache()
        .get(skid_row.as_bytes())
        .expect("cannot find value in memory cache");
    assert_eq!("slave to the grind", &memory_result[..]);

    // Confirm we can get directly from the layer cache
    let result = layer_cache
        .get(skid_row)
        .expect("error finding object")
        .expect("cannot find object in cache");

    assert_eq!("slave to the grind", &result[..]);
}

#[test]
fn not_in_memory_but_on_disk_insert() {
    let mut layer_cache = Layers::new();

    let skid_row = "skid row";

    // Insert the object directly to disk cache
    assert_eq!(
        layer_cache.disk.insert("skid row".as_bytes(), "slave to the grind".as_bytes()),
        TierWrite::Written
    );

    // There should not be anything for the key in memory cache
    assert!(!layer_cache.cache.memory_cache().contains(skid_row.as_bytes()));

    // Insert through the layer cache
    layer_cache.insert("skid row", "slave to the grind".into()).expect("insert failed");

    // There should be an entry in memory now
    assert!(layer_cache.cache.memory_cache().contains(skid_row.as_bytes()));
}

#[test]
fn get_inserts_to_memory() {
    let mut layer_cache = Layers::new();

    let skid_row = "skid row";

    let postcard_serialized = postcard::to_stdvec("slave to the grind").expect("should serialize");

    assert_eq!(
        layer_cache.disk.insert("skid row".as_bytes(), &postcard_serialized),
        TierWrite::Written
    );

    assert!(!layer_cache.cache.memory_cache().contains(skid_row.as_bytes()));

    layer_cache
        .get(skid_row)
        .expect("error getting object from cache")
        .expect("object not in cachche");

    assert!(layer_cache.cache.memory_cache().contains(skid_row.as_bytes()));
}

#[test]
fn insert_then_get_and_promotion_from_disk() {
    let mut layers = Layers::new();

    assert_eq!(
        layers.insert("skid-row", "slave-to-the-grind".to_string()),
        Ok(InsertReport::Complete)
    );
    assert_eq!(
        layers.cache.memory_cache().get(b"skid-row"),
        Some(&"slave-to-the-grind".to_string())
    );
    assert_eq!(layers.get("skid-row"), Ok(Some("slave-to-the-grind".to_string())));

    // A second instance: the value is on its disk only.
    let mut other = Layers::new();
    let serialized = postcard::to_stdvec("slave-to-the-grind").unwrap();
    other.disk.insert(b"skid-row", &serialized);
    assert!(!other.cache.memory_cache().contains(b"skid-row"));
    assert_eq!(other.get("skid-row"), Ok(Some("slave-to-the-grind".to_string())));
    assert!(other.cache.memory_cache().contains(b"skid-row"));
    assert_eq!(other.durable.reads, 0);
}

#[test]
fn insert_writes_every_tier() {
    let mut layers = Layers::new();
    assert_eq!(layers.insert("k", "v".to_string()), Ok(InsertReport::Complete));
    assert_eq!(layers.disk.entries.get(&b"k"[..]), Some(&vec![1, b'v']));
    assert_eq!(layers.durable.entries.get(&b"k"[..]), Some(&vec![1, b'v']));
    assert_eq!(layers.cache.get(b"k"), Some(&"v".to_string()));
}

#[test]
fn inserted_value_is_read_from_each_tier_by_itself() {
    let mut layers = Layers::new();
    layers.insert("k", "value".to_string()).unwrap();

    // From memory: no tier below is touched.
    assert_eq!(layers.get("k"), Ok(Some("value".to_string())));
    assert_eq!((layers.disk.reads, layers.durable.reads), (0, 0));

    // From disk, once memory has evicted it.
    layers.cache.evict(b"k");
    assert!(!layers.cache.memory_cache().contains(b"k"));
    assert_eq!(layers.get("k"), Ok(Some("value".to_string())));
    assert_eq!((layers.disk.reads, layers.durable.reads), (1, 0));

    // From the durable store, once disk has lost it too.
    layers.cache.evict(b"k");
    layers.disk.entries.clear();
    assert_eq!(layers.get("k"), Ok(Some("value".to_string())));
    assert_eq!((layers.disk.reads, layers.durable.reads), (2, 1));
}

#[test]
fn get_of_a_key_never_inserted_finds_nothing() {
    let mut layers = Layers::new();
    assert_eq!(layers.get("nobody"), Ok(None));
    layers.insert("somebody", "else".to_string()).unwrap();
    assert_eq!(layers.get("nobody"), Ok(None));
    assert!(!layers.cache.memory_cache().contains(b"nobody"));
    assert!(layers.disk.entries.get(&b"nobody"[..]).is_none());
    assert_eq!(layers.get(""), Ok(None));
}

#[test]
fn get_promotes_from_the_durable_store() {
    let mut layers = Layers::new();
    let serialized = postcard::to_stdvec("deep").unwrap();
    layers.durable.insert(b"k", &serialized);

    assert_eq!(layers.get("k"), Ok(Some("deep".to_string())));
    assert_eq!(layers.disk.entries.get(&b"k"[..]), Some(&serialized));
    assert_eq!(layers.cache.memory_cache().get(b"k"), Some(&"deep".to_string()));

    // Both lower tiers fail from now on; the next read needs neither.
    layers.disk.up = false;
    layers.durable.up = false;
    let (disk_reads, durable_reads) = (layers.disk.reads, layers.durable.reads);
    assert_eq!(layers.get("k"), Ok(Some("deep".to_string())));
    assert_eq!((layers.disk.reads, layers.durable.reads), (disk_reads, durable_reads));
}

#[test]
fn a_failing_tier_is_an_error_and_no_miss() {
    let mut layers = Layers::new();
    layers.durable.insert(b"k", &postcard::to_stdvec("v").unwrap());

    layers.disk.up = false;
    assert_eq!(layers.get("k"), Err(LayerDbError::TierRead(Tier::Disk)));
    assert_eq!(layers.durable.reads, 0);
    assert!(!layers.cache.memory_cache().contains(b"k"));

    layers.disk.up = true;
    layers.durable.up = false;
    assert_eq!(layers.get("k"), Err(LayerDbError::TierRead(Tier::Durable)));
    assert!(!layers.cache.memory_cache().contains(b"k"));

    layers.durable.up = true;
    assert_eq!(layers.get("k"), Ok(Some("v".to_string())));
}

#[test]
fn bytes_that_hold_no_value_are_an_error() {
    let mut layers = Layers::new();
    layers.disk.insert(b"raw", b"slave to the grind");
    assert_eq!(layers.get("raw"), Err(LayerDbError::Decode(WireError::UnexpectedEnd)));

    layers.disk.insert(b"bad", &[2, 0xff, 0xff]);
    assert_eq!(layers.get("bad"), Err(LayerDbError::Decode(WireError::BadUtf8)));
    assert!(!layers.cache.memory_cache().contains(b"bad"));

    layers.durable.insert(b"worse", &[]);
    assert_eq!(layers.get("worse"), Err(LayerDbError::Decode(WireError::UnexpectedEnd)));
}

#[test]
fn insert_fails_when_the_durable_store_fails() {
    let mut layers = Layers::new();
    layers.durable.up = false;
    assert_eq!(
        layers.insert("k", "v".to_string()),
        Err(LayerDbError::TierWrite(Tier::Durable))
    );
    assert!(!layers.cache.memory_cache().contains(b"k"));
    assert_eq!(layers.disk.writes, 0);
    layers.durable.up = true;
    assert_eq!(layers.get("k"), Ok(None));
}

#[test]
fn insert_succeeds_when_only_disk_fails() {
    let mut layers = Layers::new();
    layers.disk.up = false;
    assert_eq!(layers.insert("k", "v".to_string()), Ok(InsertReport::DiskDegraded));
    assert_eq!(layers.get("k"), Ok(Some("v".to_string())));
    layers.disk.up = true;
    layers.cache.evict(b"k");
    assert_eq!(layers.get("k"), Ok(Some("v".to_string())));
    assert_eq!(layers.disk.entries.get(&b"k"[..]), Some(&vec![1, b'v']));
}

#[test]
fn a_failed_disk_write_leaves_older_bytes_on_disk() {
    let mut layers = Layers::new();
    layers.insert("k", "old".to_string()).unwrap();
    layers.disk.up = false;
    assert_eq!(layers.insert("k", "new".to_string()), Ok(InsertReport::DiskDegraded));
    assert_eq!(layers.get("k"), Ok(Some("new".to_string())));
    assert_eq!(layers.durable.entries.get(&b"k"[..]), Some(&vec![3, b'n', b'e', b'w']));
    assert_eq!(layers.disk.entries.get(&b"k"[..]), Some(&vec![3, b'o', b'l', b'd']));
}

#[test]
fn insert_overwrites() {
    let mut layers = Layers::new();
    layers.insert("k", "one".to_string()).unwrap();
    layers.insert("k", "two".to_string()).unwrap();
    assert_eq!(layers.get("k"), Ok(Some("two".to_string())));
    layers.cache.evict(b"k");
    assert_eq!(layers.get("k"), Ok(Some("two".to_string())));
}

#[test]
fn steps_of_a_read_by_hand() {
    let mut cache: LayerCache<Vec<u8>> = LayerCache::new();
    assert_eq!(cache.get(b"k"), None);
    assert_eq!(cache.disk_read(b"k", TierRead::Missing), DiskStep::ReadDurable);
    assert_eq!(
        cache.disk_read(b"k", TierRead::Failed),
        DiskStep::Failed(LayerDbError::TierRead(Tier::Disk))
    );
    assert_eq!(cache.durable_read(b"k", TierRead::Missing), DurableStep::Missing);
    assert_eq!(
        cache.durable_read(b"k", TierRead::Failed),
        DurableStep::Failed(LayerDbError::TierRead(Tier::Durable))
    );
    assert_eq!(
        cache.durable_read(b"k", TierRead::Found(vec![9])),
        DurableStep::Failed(LayerDbError::Decode(WireError::UnexpectedEnd))
    );
    assert_eq!(cache.get(b"k"), None);
    assert_eq!(
        cache.durable_read(b"k", TierRead::Found(vec![2, 7, 8])),
        DurableStep::Promoted { fill_disk: vec![2, 7, 8] }
    );
    assert_eq!(cache.get(b"k"), Some(&vec![7, 8]));
    assert_eq!(cache.disk_read(b"j", TierRead::Found(vec![0])), DiskStep::Promoted);
    assert_eq!(cache.get(b"j"), Some(&vec![]));
}

#[test]
fn steps_of_a_write_by_hand() {
    let mut cache: LayerCache<Vec<u8>> = LayerCache::new();
    assert_eq!(LayerCache::<Vec<u8>>::serialize(&vec![5, 6]), vec![2, 5, 6]);
    assert_eq!(
        cache.insert(b"k".to_vec(), vec![5, 6], TierWrite::Failed),
        InsertStep::Failed(LayerDbError::TierWrite(Tier::Durable))
    );
    assert_eq!(cache.get(b"k"), None);
    assert_eq!(
        cache.insert(b"k".to_vec(), vec![5, 6], TierWrite::Written),
        InsertStep::WriteDisk(vec![2, 5, 6])
    );
    assert_eq!(cache.get(b"k"), Some(&vec![5, 6]));
    assert_eq!(LayerCache::<Vec<u8>>::disk_written(TierWrite::Written), InsertReport::Complete);
    assert_eq!(LayerCache::<Vec<u8>>::disk_written(TierWrite::Failed), InsertReport::DiskDegraded);
}

#[test]
fn cache_values_round_trip() {
    for text in ["", "a", "slave to the grind", "h\u{e9}llo"] {
        let bytes = text.to_string().serialize();
        assert_eq!(bytes, postcard::to_stdvec(text).unwrap());
        assert_eq!(String::deserialize(&bytes), Ok(text.to_string()));
    }
    for body in [vec![], vec![0u8], vec![255u8; 300]] {
        let bytes = body.serialize();
        assert_eq!(bytes, postcard::to_stdvec(&body).unwrap());
        assert_eq!(Vec::<u8>::deserialize(&bytes), Ok(body));
    }
    assert_eq!(String::deserialize(&[1]), Err(WireError::UnexpectedEnd));
    assert_eq!(Vec::<u8>::deserialize(&[]), Err(WireError::UnexpectedEnd));
}

#[test]
fn memory_cache_insert_get_remove() {
    let mut memory: MemoryCache<u32> = MemoryCache::new();
    assert!(!memory.contains(b"a"));
    assert_eq!(memory.get(b"a"), None);
    memory.insert(b"a".to_vec(), 1);
    memory.insert(b"b".to_vec(), 2);
    memory.insert(b"".to_vec(), 0);
    assert_eq!(memory.get(b"a"), Some(&1));
    assert_eq!(memory.get(b"b"), Some(&2));
    assert_eq!(memory.get(b""), Some(&0));
    assert_eq!(memory.get(b"ab"), None);
    memory.insert(b"a".to_vec(), 10);
    assert_eq!(memory.get(b"a"), Some(&10));
    assert_eq!(memory.remove(b"a"), Some(10));
    assert_eq!(memory.remove(b"a"), None);
    assert!(!memory.contains(b"a"));
    assert_eq!(memory.get(b"b"), Some(&2));
    assert_eq!(memory.get(b""), Some(&0));
    assert_eq!(memory.remove(b""), Some(0));
    assert_eq!(memory.get(b"b"), Some(&2));
}

#[test]
fn same_bytes_compares_contents() {
    assert!(same_bytes(b"", b""));
    assert!(same_bytes(b"abc", b"abc"));
    assert!(!same_bytes(b"abc", b"abd"));
    assert!(!same_bytes(b"abc", b"ab"));
    assert!(!same_bytes(b"", b"a"));
}
