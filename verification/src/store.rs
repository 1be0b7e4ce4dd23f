//! The sharded in-memory key-value store.
//!
//! A [`KvMap`] is the mapping held by one shard, modelled by a
//! `Map<Seq<char>, Seq<u8>>`.  A [`ShardedDatabase`] owns a fixed number of
//! independently locked shards and routes every key to exactly one of them
//! with a deterministic hash, so that operations on keys of different shards
//! never contend.

use vstd::prelude::*;
use vstd::rwlock::RwLock;
use vstd::rwlock::RwLockPredicate;
use std::sync::Arc;

verus! {

/// One key-value entry: an owned key and an opaque byte-sequence value.
type Entry = (String, Vec<u8>);

/// Whether some entry of `s` has key `k`.
spec fn has_key(s: Seq<Entry>, k: Seq<char>) -> bool {
    exists|i: int| 0 <= i < s.len() && (#[trigger] s[i]).0@ == k
}

/// The position of the entry with key `k` (meaningful when `has_key(s, k)`).
spec fn index_of_key(s: Seq<Entry>, k: Seq<char>) -> int {
    choose|i: int| 0 <= i < s.len() && (#[trigger] s[i]).0@ == k
}

/// No two entries of `s` share a key.
spec fn keys_distinct(s: Seq<Entry>) -> bool {
    forall|i: int, j: int|
        0 <= i < j < s.len() ==> (#[trigger] s[i]).0@ != (#[trigger] s[j]).0@
}

/// The mapping that the entry sequence `s` represents.
spec fn map_of(s: Seq<Entry>) -> Map<Seq<char>, Seq<u8>> {
    Map::new(|k: Seq<char>| has_key(s, k), |k: Seq<char>| s[index_of_key(s, k)].1@)
}

/// With distinct keys, any entry whose key is `k` is the entry that
/// `map_of` reads.
proof fn lemma_key_at(s: Seq<Entry>, k: Seq<char>, i: int)
    requires
        keys_distinct(s),
        0 <= i < s.len(),
        s[i].0@ == k,
    ensures
        has_key(s, k),
        index_of_key(s, k) == i,
        map_of(s)[k] == s[i].1@,
{
    assert(has_key(s, k));
    let j = index_of_key(s, k);
    assert(0 <= j < s.len() && s[j].0@ == k);
    if i != j {
        if i < j {
            assert(s[i].0@ != s[j].0@);
        } else {
            assert(s[j].0@ != s[i].0@);
        }
    }
}

/// Appending an entry with a fresh key inserts it into the mapping.
proof fn lemma_map_of_push(s: Seq<Entry>, e: Entry)
    requires
        keys_distinct(s),
        !has_key(s, e.0@),
    ensures
        keys_distinct(s.push(e)),
        map_of(s.push(e)) == map_of(s).insert(e.0@, e.1@),
{
    let t = s.push(e);
    assert forall|i: int, j: int| 0 <= i < j < t.len() implies (#[trigger] t[i]).0@ != (
    #[trigger] t[j]).0@ by {
        if j < s.len() {
            assert(t[i] == s[i] && t[j] == s[j]);
        } else {
            assert(t[j] == e);
            assert(t[i] == s[i]);
            assert(has_key(s, s[i].0@));
        }
    }
    assert forall|k: Seq<char>| true implies #[trigger] map_of(t).contains_key(k) == map_of(
        s,
    ).insert(e.0@, e.1@).contains_key(k) by {
        if k == e.0@ {
            assert(t[s.len() as int] == e);
            assert(has_key(t, k));
        } else {
            if has_key(t, k) {
                let i = choose|i: int| 0 <= i < t.len() && (#[trigger] t[i]).0@ == k;
                assert(i < s.len() && s[i] == t[i]);
                assert(has_key(s, k));
            }
            if has_key(s, k) {
                let i = choose|i: int| 0 <= i < s.len() && (#[trigger] s[i]).0@ == k;
                assert(t[i] == s[i]);
                assert(has_key(t, k));
            }
        }
    }
    assert forall|k: Seq<char>| map_of(t).contains_key(k) implies #[trigger] map_of(t)[k] == map_of(
        s,
    ).insert(e.0@, e.1@)[k] by {
        if k == e.0@ {
            lemma_key_at(t, k, s.len() as int);
        } else {
            let i = choose|i: int| 0 <= i < t.len() && (#[trigger] t[i]).0@ == k;
            assert(i < s.len() && s[i] == t[i]);
            lemma_key_at(t, k, i);
            lemma_key_at(s, k, i);
        }
    }
    assert(map_of(t) =~= map_of(s).insert(e.0@, e.1@));
}

/// Removing the entry at `i` removes exactly its key from the mapping.
proof fn lemma_map_of_remove(s: Seq<Entry>, i: int)
    requires
        keys_distinct(s),
        0 <= i < s.len(),
    ensures
        keys_distinct(s.remove(i)),
        map_of(s.remove(i)) == map_of(s).remove(s[i].0@),
{
    let t = s.remove(i);
    assert forall|j: int| 0 <= j < t.len() implies #[trigger] t[j] == (if j < i {
        s[j]
    } else {
        s[j + 1]
    }) by {}
    assert forall|p: int, q: int| 0 <= p < q < t.len() implies (#[trigger] t[p]).0@ != (
    #[trigger] t[q]).0@ by {}
    assert forall|k: Seq<char>| true implies #[trigger] map_of(t).contains_key(k) == map_of(
        s,
    ).remove(s[i].0@).contains_key(k) by {
        if has_key(t, k) {
            let p = choose|p: int| 0 <= p < t.len() && (#[trigger] t[p]).0@ == k;
            let q: int = if p < i {
                p
            } else {
                p + 1
            };
            assert(s[q] == t[p]);
            assert(has_key(s, k));
            lemma_key_at(s, k, q);
            lemma_key_at(s, s[i].0@, i);
            assert(k != s[i].0@);
        }
        if has_key(s, k) && k != s[i].0@ {
            let q = choose|q: int| 0 <= q < s.len() && (#[trigger] s[q]).0@ == k;
            assert(q != i);
            let p: int = if q < i {
                q
            } else {
                q - 1
            };
            assert(t[p] == s[q]);
            assert(has_key(t, k));
        }
    }
    assert forall|k: Seq<char>| map_of(t).contains_key(k) implies #[trigger] map_of(t)[k] == map_of(
        s,
    ).remove(s[i].0@)[k] by {
        let p = choose|p: int| 0 <= p < t.len() && (#[trigger] t[p]).0@ == k;
        let q: int = if p < i {
            p
        } else {
            p + 1
        };
        assert(s[q] == t[p]);
        lemma_key_at(t, k, p);
        lemma_key_at(s, k, q);
    }
    assert(map_of(t) =~= map_of(s).remove(s[i].0@));
}

/// The mapping of one shard: an association list with pairwise-distinct keys,
/// viewed as a `Map` from key characters to value bytes.
pub struct KvMap {
    entries: Vec<Entry>,
}

impl View for KvMap {
    type V = Map<Seq<char>, Seq<u8>>;

    closed spec fn view(&self) -> Map<Seq<char>, Seq<u8>> {
        map_of(self.entries@)
    }
}

impl KvMap {
    /// The entries hold pairwise-distinct keys, so each key denotes one value.
    pub closed spec fn wf(&self) -> bool {
        keys_distinct(self.entries@)
    }

    /// Creates an empty mapping.
    pub fn new() -> (m: KvMap)
        ensures
            m.wf(),
            m@ == Map::<Seq<char>, Seq<u8>>::empty(),
    {
        let m = KvMap { entries: Vec::new() };
        proof {
            assert forall|k: Seq<char>| !(#[trigger] map_of(m.entries@).contains_key(k)) by {}
            assert(m@ =~= Map::<Seq<char>, Seq<u8>>::empty());
        }
        m
    }

    /// The position of `key` among the entries, if it is present.
    fn find(&self, key: &str) -> (r: Option<usize>)
        requires
            self.wf(),
        ensures
            match r {
                Some(i) => i < self.entries@.len() && self.entries@[i as int].0@ == key@,
                None => !self@.dom().contains(key@),
            },
    {
        let n = self.entries.len();
        let mut i: usize = 0;
        while i < n
            invariant
                n == self.entries@.len(),
                i <= n,
                forall|j: int| 0 <= j < i ==> (#[trigger] self.entries@[j]).0@ != key@,
            decreases n - i,
        {
            if str_eq(self.entries[i].0.as_str(), key) {
                return Some(i);
            }
            i = i + 1;
        }
        proof {
            assert(!has_key(self.entries@, key@));
        }
        None
    }

    /// Returns the value stored under `key`, or `None` when `key` is absent.
    pub fn get<'a>(&'a self, key: &str) -> (r: Option<&'a Vec<u8>>)
        requires
            self.wf(),
        ensures
            match r {
                Some(v) => self@.dom().contains(key@) && v@ == self@[key@],
                None => !self@.dom().contains(key@),
            },
    {
        match self.find(key) {
            Some(i) => {
                proof {
                    lemma_key_at(self.entries@, key@, i as int);
                }
                Some(&self.entries[i].1)
            },
            None => None,
        }
    }

    /// Stores `value` under `key`, overwriting any entry that `key` had.
    pub fn insert(&mut self, key: &str, value: Vec<u8>)
        requires
            old(self).wf(),
        ensures
            final(self).wf(),
            final(self)@ == old(self)@.insert(key@, value@),
    {
        let ghost s0 = self.entries@;
        match self.find(key) {
            Some(i) => {
                proof {
                    lemma_key_at(s0, key@, i as int);
                }
                self.entries.remove(i);
                proof {
                    lemma_map_of_remove(s0, i as int);
                }
                let ghost s1 = self.entries@;
                let owned = key_to_string(key);
                self.entries.push((owned, value));
                proof {
                    lemma_map_of_push(s1, (owned, value));
                    assert(map_of(self.entries@) =~= map_of(s0).insert(key@, value@));
                }
            },
            None => {
                let owned = key_to_string(key);
                self.entries.push((owned, value));
                proof {
                    lemma_map_of_push(s0, (owned, value));
                }
            },
        }
    }
}

/// Compares two string slices character by character.
pub fn str_eq(a: &str, b: &str) -> (r: bool)
    ensures
        r == (a@ == b@),
{
    let an = a.unicode_len();
    let bn = b.unicode_len();
    if an != bn {
        assert(a@.len() != b@.len());
        return false;
    }
    let mut i: usize = 0;
    while i < an
        invariant
            an == a@.len(),
            an == b@.len(),
            i <= an,
            forall|j: int| 0 <= j < i ==> a@[j] == b@[j],
        decreases an - i,
    {
        if a.get_char(i) != b.get_char(i) {
            return false;
        }
        i = i + 1;
    }
    proof {
        assert(a@ =~= b@);
    }
    true
}

/// Copies a borrowed key into an owned `String`.
fn key_to_string(key: &str) -> (s: String)
    ensures
        s@ == key@,
{
    String::from_str(key)
}

/// A stable hash of the key characters (the FNV-1a recurrence), so that a
/// key resolves to the same shard for the lifetime of a store.
pub closed spec fn key_hash(s: Seq<char>) -> u64
    decreases s.len(),
{
    if s.len() == 0 {
        0xcbf29ce484222325u64
    } else {
        vstd::wrapping::u64_specs::wrapping_mul(
            key_hash(s.drop_last()) ^ (s.last() as u64),
            0x100000001b3u64,
        )
    }
}

/// The shard that the key `k` resolves to in a store of `n` shards.
pub open spec fn shard_of(k: Seq<char>, n: int) -> int {
    key_hash(k) as int % n
}

/// Computes `key_hash` over the characters of `key`.
fn str_hash(key: &str) -> (h: u64)
    ensures
        h == key_hash(key@),
{
    let n = key.unicode_len();
    let mut h: u64 = 0xcbf29ce484222325;
    let mut i: usize = 0;
    proof {
        assert(key@.subrange(0, 0) =~= Seq::<char>::empty());
    }
    while i < n
        invariant
            n == key@.len(),
            i <= n,
            h == key_hash(key@.subrange(0, i as int)),
        decreases n - i,
    {
        let c = key.get_char(i);
        h = (h ^ (c as u64)).wrapping_mul(0x100000001b3);
        proof {
            let sub = key@.subrange(0, i + 1);
            assert(sub.drop_last() =~= key@.subrange(0, i as int));
            assert(sub.last() == key@[i as int]);
        }
        i = i + 1;
    }
    proof {
        assert(key@.subrange(0, n as int) =~= key@);
    }
    h
}

/// Computes which shard a key belongs to: a deterministic function of the
/// key and the shard count alone, shared by the read and the write path.
pub fn get_shard_index(key: &str, num_shards: usize) -> (i: usize)
    requires
        1 <= num_shards,
    ensures
        i == shard_of(key@, num_shards as int),
        i < num_shards,
{
    let h = str_hash(key);
    (h % (num_shards as u64)) as usize
}

/// The lock invariant of one shard: a well-formed mapping all of whose keys
/// resolve to this shard.
pub struct ShardPred {
    pub idx: int,
    pub count: int,
}

impl RwLockPredicate<KvMap> for ShardPred {
    open spec fn inv(self, m: KvMap) -> bool {
        &&& m.wf()
        &&& forall|k: Seq<char>| #[trigger] m@.dom().contains(k) ==> shard_of(k, self.count)
            == self.idx
    }
}

/// A sharded key-value store.  The fixed set of shards is owned through a
/// reference-counted handle, so cloning yields a new handle to the same
/// shards; every shard serializes its readers and writers through its own
/// lock, and keys of different shards never contend.
///
/// The shard count is fixed at construction and can never change: the
/// routing of every key depends on it, and changing it would move keys
/// between shards and orphan existing entries.  This is a hard constraint
/// of the design, carried by each shard lock's invariant.
pub struct ShardedDatabase {
    shards: Arc<Vec<RwLock<KvMap, ShardPred>>>,
}

impl ShardedDatabase {
    /// How many shards the store was created with.
    pub closed spec fn num_shards(&self) -> int {
        self.shards@.len() as int
    }

    /// There is at least one shard, and shard `i` is locked under the
    /// invariant that ties its contents to shard index `i`.
    pub closed spec fn wf(&self) -> bool {
        &&& self.num_shards() >= 1
        &&& forall|i: int|
            0 <= i < self.shards@.len() ==> (#[trigger] self.shards@[i].pred()) == (ShardPred {
                idx: i,
                count: self.shards@.len() as int,
            })
    }

    /// Creates a store with `num_shards` empty shards.
    pub fn new(num_shards: usize) -> (db: ShardedDatabase)
        requires
            1 <= num_shards,
        ensures
            db.wf(),
            db.num_shards() == num_shards,
    {
        let mut shards: Vec<RwLock<KvMap, ShardPred>> = Vec::new();
        let mut i: usize = 0;
        while i < num_shards
            invariant
                i <= num_shards,
                shards@.len() == i,
                forall|j: int|
                    0 <= j < i ==> (#[trigger] shards@[j].pred()) == (ShardPred {
                        idx: j,
                        count: num_shards as int,
                    }),
            decreases num_shards - i,
        {
            let m = KvMap::new();
            let ghost pred = ShardPred { idx: i as int, count: num_shards as int };
            shards.push(RwLock::new(m, Ghost(pred)));
            i = i + 1;
        }
        ShardedDatabase { shards: Arc::new(shards) }
    }

    /// Stores `value` under `key` in the shard that `key` resolves to,
    /// holding that shard's lock for the duration of the update.  The write
    /// is visible to every handle of this store as soon as the lock is
    /// released.  It cannot fail: the lock has no poisoned state, as no
    /// verified operation under it panics.
    pub fn insert(&self, key: &str, value: Vec<u8>)
        requires
            self.wf(),
    {
        let n = self.shards.len();
        let i = get_shard_index(key, n);
        let (mut m, handle) = self.shards[i].acquire_write();
        m.insert(key, value);
        handle.release_write(m);
    }

    /// Returns a copy of the value stored under `key` at the moment the
    /// shard lock is held, or `None` when `key` is absent at that moment.
    pub fn get(&self, key: &str) -> (r: Option<Vec<u8>>)
        requires
            self.wf(),
    {
        let n = self.shards.len();
        let i = get_shard_index(key, n);
        let read = self.shards[i].acquire_read();
        let m = read.borrow();
        let r = match m.get(key) {
            Some(v) => Some(copy_bytes(v)),
            None => None,
        };
        read.release_read();
        r
    }
}

impl Clone for ShardedDatabase {
    /// A new owning handle to the same shards: not a copy of the data.
    fn clone(&self) -> (db: ShardedDatabase)
        ensures
            db == *self,
    {
        ShardedDatabase { shards: self.shards.clone() }
    }
}

/// Copies a borrowed value into an owned byte vector.
pub fn copy_bytes(v: &Vec<u8>) -> (r: Vec<u8>)
    ensures
        r@ == v@,
{
    vstd::slice::slice_to_vec(v.as_slice())
}

/// Routing determinism: any two calls of [`get_shard_index`] on the same
/// key and shard count return the same index, so the read path and the
/// write path always reach the same shard.
pub proof fn lemma_routing_deterministic(key: &str, n: usize, i1: usize, i2: usize)
    requires
        call_ensures(get_shard_index, (key, n), i1),
        call_ensures(get_shard_index, (key, n), i2),
    ensures
        i1 == i2,
{
}

/// Read after write: once `insert(k, v)` has completed on a mapping, a `get`
/// of `k` reads `v` — [`KvMap::get`] returns exactly the view's value — and
/// keeps doing so until `k` is overwritten, since inserting any other key
/// leaves the value under `k` unchanged.
pub proof fn lemma_read_after_write(
    m: Map<Seq<char>, Seq<u8>>,
    k: Seq<char>,
    v: Seq<u8>,
    k2: Seq<char>,
    v2: Seq<u8>,
)
    requires
        k2 != k,
    ensures
        m.insert(k, v).dom().contains(k),
        m.insert(k, v)[k] == v,
        m.insert(k, v).insert(k2, v2)[k] == v,
{
}

/// Absence: a key that was never inserted is absent — it is absent from the
/// empty mapping a store starts with, and inserting any other key keeps it
/// absent, so [`KvMap::get`] keeps returning `None` for it.
pub proof fn lemma_never_inserted_absent(
    m: Map<Seq<char>, Seq<u8>>,
    k: Seq<char>,
    k2: Seq<char>,
    v2: Seq<u8>,
)
    requires
        k2 != k,
    ensures
        !Map::<Seq<char>, Seq<u8>>::empty().dom().contains(k),
        !m.dom().contains(k) ==> !m.insert(k2, v2).dom().contains(k),
{
}

/// Overwrite: `insert(k, v1)` followed by `insert(k, v2)` leaves the mapping
/// exactly as a single `insert(k, v2)` would, so a `get` of `k` reads `v2`.
pub proof fn lemma_overwrite(m: Map<Seq<char>, Seq<u8>>, k: Seq<char>, v1: Seq<u8>, v2: Seq<u8>)
    ensures
        m.insert(k, v1).insert(k, v2) == m.insert(k, v2),
        m.insert(k, v1).insert(k, v2)[k] == v2,
{
    assert(m.insert(k, v1).insert(k, v2) =~= m.insert(k, v2));
}

} // verus!
