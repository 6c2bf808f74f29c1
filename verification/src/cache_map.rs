//! A map from caches to what is kept of them.
use vstd::prelude::*;

verus! {

/// The key of a cache: where its storage is, and where in it the cache begins.
#[derive(Clone, Copy, Debug, PartialEq, Eq, Structural)]
pub struct CacheKey {
    pub storage: usize,
    pub start_offset: usize,
}

impl CacheKey {
    /// Tests whether two keys are one.
    fn same(&self, other: &CacheKey) -> (same: bool)
        ensures
            same == (*self == *other),
    {
        self.storage == other.storage && self.start_offset == other.start_offset
    }
}

/// Values filed under the keys of caches.
pub struct CacheMap<V> {
    entries: Vec<(CacheKey, V)>,
}

/// Whether no key has two entries.
spec fn unique<K, V>(entries: Seq<(K, V)>) -> bool {
    forall|i: int, j: int|
        0 <= i < j < entries.len() ==> (#[trigger] entries[i]).0 != (#[trigger] entries[j]).0
}

spec fn is_entry<K, V>(entries: Seq<(K, V)>, key: K, i: int) -> bool {
    0 <= i < entries.len() && entries[i].0 == key
}

spec fn has_key<K, V>(entries: Seq<(K, V)>, key: K) -> bool {
    exists|i: int| is_entry(entries, key, i)
}

spec fn value_at<K, V>(entries: Seq<(K, V)>, key: K) -> V {
    entries[choose|i: int| is_entry(entries, key, i)].1
}

spec fn entries_map<K, V>(entries: Seq<(K, V)>) -> Map<K, V> {
    Map::new(|key: K| has_key(entries, key), |key: K| value_at(entries, key))
}

proof fn lemma_entry<K, V>(entries: Seq<(K, V)>, i: int)
    requires
        unique(entries),
        0 <= i < entries.len(),
    ensures
        entries_map(entries).contains_key(entries[i].0),
        entries_map(entries)[entries[i].0] == entries[i].1,
{
    let key = entries[i].0;
    assert(is_entry(entries, key, i));
    let found = choose|k: int| is_entry(entries, key, k);
    assert(is_entry(entries, key, found));
    if found < i {
        assert(entries[found].0 != entries[i].0);
    } else if i < found {
        assert(entries[i].0 != entries[found].0);
    }
}

proof fn lemma_same_map<K, V>(a: Map<K, V>, b: Map<K, V>)
    requires
        forall|key: K| agrees(a, b, key),
    ensures
        a == b,
{
    assert forall|key: K| #[trigger] a.dom().contains(key) == b.dom().contains(key) by {
        assert(agrees(a, b, key));
    }
    assert(a.dom() =~= b.dom());
    assert forall|key: K| #[trigger] a.dom().contains(key) implies a[key] == b[key] by {
        assert(agrees(a, b, key));
    }
    assert(a =~= b);
}

/// Whether two maps agree on a key.
spec fn agrees<K, V>(a: Map<K, V>, b: Map<K, V>, key: K) -> bool {
    &&& a.contains_key(key) == b.contains_key(key)
    &&& a.contains_key(key) ==> a[key] == b[key]
}

proof fn lemma_push<K, V>(entries: Seq<(K, V)>, entry: (K, V))
    requires
        unique(entries),
        !has_key(entries, entry.0),
    ensures
        unique(entries.push(entry)),
        entries_map(entries.push(entry)) =~= entries_map(entries).insert(entry.0, entry.1),
{
    let more = entries.push(entry);
    assert forall|i: int, j: int| 0 <= i < j < more.len() implies (#[trigger] more[i]).0 != (
    #[trigger] more[j]).0 by {
        if j == entries.len() {
            if more[i].0 == entry.0 {
                assert(is_entry(entries, entry.0, i));
            }
        }
    }
    lemma_entry(more, entries.len() as int);
    let want = entries_map(entries).insert(entry.0, entry.1);
    assert forall|key: K| agrees(entries_map(more), want, key) by {
        if key != entry.0 {
            if has_key(more, key) {
                let i = choose|i: int| is_entry(more, key, i);
                assert(is_entry(entries, key, i));
                lemma_entry(entries, i);
                lemma_entry(more, i);
            }
            if has_key(entries, key) {
                let i = choose|i: int| is_entry(entries, key, i);
                assert(is_entry(more, key, i));
            }
        }
    }
    lemma_same_map(entries_map(more), want);
}

proof fn lemma_update<K, V>(entries: Seq<(K, V)>, i: int, value: V)
    requires
        unique(entries),
        0 <= i < entries.len(),
    ensures
        unique(entries.update(i, (entries[i].0, value))),
        entries_map(entries.update(i, (entries[i].0, value))) =~= entries_map(entries).insert(
            entries[i].0,
            value,
        ),
{
    let key = entries[i].0;
    let more = entries.update(i, (key, value));
    assert forall|a: int, b: int| 0 <= a < b < more.len() implies (#[trigger] more[a]).0 != (
    #[trigger] more[b]).0 by {
        assert(entries[a].0 != entries[b].0);
    }
    lemma_entry(more, i);
    let want = entries_map(entries).insert(key, value);
    assert forall|other: K| agrees(entries_map(more), want, other) by {
        if other != key {
            if has_key(more, other) {
                let k = choose|k: int| is_entry(more, other, k);
                assert(is_entry(entries, other, k));
                lemma_entry(entries, k);
                lemma_entry(more, k);
            }
            if has_key(entries, other) {
                let k = choose|k: int| is_entry(entries, other, k);
                assert(is_entry(more, other, k));
            }
        }
    }
    lemma_same_map(entries_map(more), want);
}

proof fn lemma_remove<K, V>(entries: Seq<(K, V)>, i: int)
    requires
        unique(entries),
        0 <= i < entries.len(),
    ensures
        unique(entries.remove(i)),
        entries_map(entries.remove(i)) =~= entries_map(entries).remove(entries[i].0),
{
    let key = entries[i].0;
    let less = entries.remove(i);
    assert forall|a: int, b: int| 0 <= a < b < less.len() implies (#[trigger] less[a]).0 != (
    #[trigger] less[b]).0 by {
        let x = if a < i { a } else { a + 1 };
        let y = if b < i { b } else { b + 1 };
        assert(less[a] == entries[x]);
        assert(less[b] == entries[y]);
        assert(entries[x].0 != entries[y].0);
    }
    let want = entries_map(entries).remove(key);
    assert forall|other: K| agrees(entries_map(less), want, other) by {
        if has_key(less, other) {
            let k = choose|k: int| is_entry(less, other, k);
            let x = if k < i { k } else { k + 1 };
            assert(less[k] == entries[x]);
            assert(is_entry(entries, other, x));
            if x < i {
                assert(entries[x].0 != entries[i].0);
            } else {
                assert(entries[i].0 != entries[x].0);
            }
            lemma_entry(entries, x);
            lemma_entry(less, k);
        }
        if has_key(entries, other) && other != key {
            let x = choose|x: int| is_entry(entries, other, x);
            let k = if x < i { x } else { x - 1 };
            assert(less[k] == entries[x]);
            assert(is_entry(less, other, k));
        }
    }
    lemma_same_map(entries_map(less), want);
}

impl<V> View for CacheMap<V> {
    type V = Map<CacheKey, V>;

    closed spec fn view(&self) -> Map<CacheKey, V> {
        entries_map(self.entries@)
    }
}

impl<V> CacheMap<V> {
    #[verifier::type_invariant]
    spec fn inv(&self) -> bool {
        unique(self.entries@)
    }

    pub fn new() -> (map: CacheMap<V>)
        ensures
            map@ == Map::<CacheKey, V>::empty(),
    {
        let map: CacheMap<V> = CacheMap { entries: Vec::new() };
        assert(map@ =~= Map::<CacheKey, V>::empty()) by {
            assert forall|key: CacheKey| !has_key(map.entries@, key) by {}
        }
        map
    }

    fn find(&self, key: CacheKey) -> (place: Option<usize>)
        ensures
            match place {
                Some(i) => is_entry(self.entries@, key, i as int),
                None => !has_key(self.entries@, key),
            },
    {
        let mut i: usize = 0;
        while i < self.entries.len()
            invariant
                i <= self.entries@.len(),
                forall|k: int| 0 <= k < i ==> (#[trigger] self.entries@[k]).0 != key,
            decreases self.entries@.len() - i,
        {
            if self.entries[i].0.same(&key) {
                return Some(i);
            }
            i = i + 1;
        }
        None
    }

    /// The value under a key.
    pub fn get(&self, key: CacheKey) -> (value: Option<&V>)
        ensures
            match value {
                Some(value) => self@.contains_key(key) && *value == self@[key],
                None => !self@.contains_key(key),
            },
    {
        proof {
            use_type_invariant(self);
        }
        match self.find(key) {
            Some(i) => {
                proof {
                    lemma_entry(self.entries@, i as int);
                }
                Some(&self.entries[i].1)
            },
            None => None,
        }
    }

    /// Files a value under a key, in place of the one that was there.
    pub fn insert(&mut self, key: CacheKey, value: V)
        ensures
            final(self)@ == old(self)@.insert(key, value),
    {
        proof {
            use_type_invariant(&*self);
        }
        let place: Option<usize> = self.find(key);
        let mut entries: Vec<(CacheKey, V)> = Vec::new();
        std::mem::swap(&mut entries, &mut self.entries);
        let ghost before = entries@;
        match place {
            Some(i) => {
                proof {
                    lemma_update(before, i as int, value);
                }
                entries.set(i, (key, value));
            },
            None => {
                proof {
                    lemma_push(before, (key, value));
                }
                entries.push((key, value));
            },
        }
        self.entries = entries;
    }

    /// Takes out the value under a key.
    pub fn remove(&mut self, key: CacheKey) -> (value: Option<V>)
        ensures
            final(self)@ == old(self)@.remove(key),
            value == if old(self)@.contains_key(key) {
                Some(old(self)@[key])
            } else {
                None
            },
    {
        proof {
            use_type_invariant(&*self);
        }
        let place: Option<usize> = self.find(key);
        match place {
            Some(i) => {
                let mut entries: Vec<(CacheKey, V)> = Vec::new();
                std::mem::swap(&mut entries, &mut self.entries);
                proof {
                    lemma_remove(entries@, i as int);
                    lemma_entry(entries@, i as int);
                }
                let (_, value): (CacheKey, V) = entries.remove(i);
                self.entries = entries;
                Some(value)
            },
            None => {
                assert(self@.remove(key) =~= self@);
                None
            },
        }
    }
}

} // verus!
