//! The memory tier: the values of one instance, by key, as the caller's own
//! type. It is not durable, and an entry may be evicted at any time.

use vstd::prelude::*;

verus! {

/// Whether `a` and `b` hold the same bytes.
pub fn same_bytes(a: &[u8], b: &[u8]) -> (same: bool)
    ensures
        same == (a@ == b@),
{
    if a.len() != b.len() {
        return false;
    }
    let mut i: usize = 0;
    while i < a.len()
        invariant
            a.len() == b.len(),
            i <= a.len(),
            forall|j: int| 0 <= j < i ==> a@[j] == b@[j],
        decreases a.len() - i,
    {
        if a[i] != b[i] {
            return false;
        }
        i += 1;
    }
    assert(a@ =~= b@);
    true
}

/// One entry.
struct Slot<V> {
    key: Vec<u8>,
    value: V,
}

/// The memory tier of a cache of values of type `V`.
pub struct MemoryCache<V> {
    slots: Vec<Slot<V>>,
}

impl<V> View for MemoryCache<V> {
    type V = Map<Seq<u8>, V>;

    /// The entries, by key.
    closed spec fn view(&self) -> Map<Seq<u8>, V> {
        Map::new(
            |key: Seq<u8>| exists|i: int| 0 <= i < self.slots@.len() && self.slots@[i].key@ == key,
            |key: Seq<u8>| self.slots@[self.position(key)].value,
        )
    }
}

impl<V> MemoryCache<V> {
    /// No key has two entries.
    pub closed spec fn wf(&self) -> bool {
        forall|i: int, j: int|
            0 <= i < self.slots@.len() && 0 <= j < self.slots@.len() && i != j
                ==> self.slots@[i].key@ != self.slots@[j].key@
    }

    spec fn position(&self, key: Seq<u8>) -> int {
        choose|i: int| 0 <= i < self.slots@.len() && self.slots@[i].key@ == key
    }

    /// The entry of `key` is at `at`, and nowhere else.
    proof fn lemma_position(&self, key: Seq<u8>, at: int)
        requires
            self.wf(),
            0 <= at < self.slots@.len(),
            self.slots@[at].key@ == key,
        ensures
            self.position(key) == at,
            self@.contains_key(key),
            self@[key] == self.slots@[at].value,
    {
        let chosen = self.position(key);
        assert(0 <= chosen < self.slots@.len() && self.slots@[chosen].key@ == key);
    }

    /// An empty memory tier.
    pub fn new() -> (cache: MemoryCache<V>)
        ensures
            cache.wf(),
            cache@ == Map::<Seq<u8>, V>::empty(),
    {
        let cache = MemoryCache { slots: Vec::new() };
        assert(cache@ =~= Map::<Seq<u8>, V>::empty());
        cache
    }

    /// The place of the entry of `key`.
    fn find(&self, key: &[u8]) -> (found: Option<usize>)
        requires
            self.wf(),
        ensures
            match found {
                Some(i) => i < self.slots@.len() && self.slots@[i as int].key@ == key@
                    && self@.contains_key(key@) && self@[key@] == self.slots@[i as int].value,
                None => !self@.contains_key(key@),
            },
    {
        let mut i: usize = 0;
        while i < self.slots.len()
            invariant
                self.wf(),
                i <= self.slots@.len(),
                forall|j: int| 0 <= j < i ==> self.slots@[j].key@ != key@,
            decreases self.slots@.len() - i,
        {
            if same_bytes(self.slots[i].key.as_slice(), key) {
                proof {
                    self.lemma_position(key@, i as int);
                }
                return Some(i);
            }
            i += 1;
        }
        None
    }

    /// Whether there is an entry for `key`.
    pub fn contains(&self, key: &[u8]) -> (found: bool)
        requires
            self.wf(),
        ensures
            found == self@.contains_key(key@),
    {
        self.find(key).is_some()
    }

    /// The value of `key`, if there is an entry for it.
    pub fn get(&self, key: &[u8]) -> (value: Option<&V>)
        requires
            self.wf(),
        ensures
            match value {
                Some(v) => self@.contains_key(key@) && *v == self@[key@],
                None => !self@.contains_key(key@),
            },
    {
        match self.find(key) {
            Some(i) => Some(&self.slots[i].value),
            None => None,
        }
    }

    /// Sets the value of `key`, whether or not it had one.
    pub fn insert(&mut self, key: Vec<u8>, value: V)
        requires
            old(self).wf(),
        ensures
            final(self).wf(),
            final(self)@ == old(self)@.insert(key@, value),
    {
        let ghost before = *self;
        let ghost key_view = key@;
        match self.find(key.as_slice()) {
            Some(i) => {
                self.slots.set(i, Slot { key, value });
                proof {
                    let after = *self;
                    assert forall|k: Seq<u8>| #[trigger]
                        after@.contains_key(k) == before@.contains_key(k) by {
                        if before@.contains_key(k) {
                            let at = before.position(k);
                            assert(after.slots@[at].key@ == k);
                        }
                        if after@.contains_key(k) {
                            let at = after.position(k);
                            assert(before.slots@[at].key@ == k);
                        }
                    }
                    assert forall|k: Seq<u8>| #[trigger] after@.contains_key(k) implies after@[k]
                        == before@.insert(key_view, value)[k] by {
                        let at = after.position(k);
                        assert(before.slots@[at].key@ == k);
                        before.lemma_position(k, at);
                    }
                    assert(after@ =~= before@.insert(key_view, value));
                }
            },
            None => {
                self.slots.push(Slot { key, value });
                proof {
                    let after = *self;
                    let n = before.slots@.len() as int;
                    assert forall|k: Seq<u8>| #[trigger]
                        after@.contains_key(k) == (before@.contains_key(k) || k == key_view) by {
                        if before@.contains_key(k) {
                            let at = before.position(k);
                            assert(after.slots@[at].key@ == k);
                        }
                        if k == key_view {
                            assert(after.slots@[n].key@ == k);
                        }
                    }
                    assert forall|k: Seq<u8>| #[trigger] after@.contains_key(k) implies after@[k]
                        == before@.insert(key_view, value)[k] by {
                        let at = after.position(k);
                        if k != key_view {
                            assert(at < n);
                            before.lemma_position(k, at);
                        }
                    }
                    assert(after@ =~= before@.insert(key_view, value));
                }
            },
        }
    }

    /// Evicts the entry of `key`, if there is one, and gives its value.
    pub fn remove(&mut self, key: &[u8]) -> (evicted: Option<V>)
        requires
            old(self).wf(),
        ensures
            final(self).wf(),
            final(self)@ == old(self)@.remove(key@),
            evicted == if old(self)@.contains_key(key@) {
                Some(old(self)@[key@])
            } else {
                None
            },
    {
        let ghost before = *self;
        match self.find(key) {
            Some(i) => {
                let slot = self.slots.swap_remove(i);
                proof {
                    let after = *self;
                    let last = before.slots@.len() - 1;
                    assert forall|a: int| 0 <= a < after.slots@.len() implies #[trigger]
                        after.slots@[a] == before.slots@[if a == i {
                            last
                        } else {
                            a
                        }] by {}
                    assert forall|k: Seq<u8>| #[trigger]
                        after@.contains_key(k) == (before@.contains_key(k) && k != key@) by {
                        if before@.contains_key(k) && k != key@ {
                            let at = before.position(k);
                            if at == last {
                                assert(after.slots@[i as int].key@ == k);
                            } else {
                                assert(after.slots@[at].key@ == k);
                            }
                        }
                        if after@.contains_key(k) {
                            let at = after.position(k);
                            let from = if at == i {
                                last
                            } else {
                                at
                            };
                            assert(before.slots@[from].key@ == k);
                        }
                    }
                    assert forall|k: Seq<u8>| #[trigger] after@.contains_key(k) implies after@[k]
                        == before@[k] by {
                        let at = after.position(k);
                        let from = if at == i {
                            last
                        } else {
                            at
                        };
                        before.lemma_position(k, from);
                    }
                    assert(after@ =~= before@.remove(key@));
                }
                Some(slot.value)
            },
            None => {
                assert(self@ =~= before@.remove(key@));
                None
            },
        }
    }
}

} // verus!
