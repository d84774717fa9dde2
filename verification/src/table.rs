//! A table of values by key, which keeps its entries in insertion order and never holds a key
//! twice. It takes the place of the hash maps of peers and fragments.
use vstd::prelude::*;

use crate::packets::ConnectionId;
use crate::sequence::Sequence;
use crate::socket_addr::SocketAddr;

verus! {

/// A key that can be compared in executable code.
pub trait TableKey: Sized {
    /// Whether two keys are the same.
    fn same(&self, other: &Self) -> (r: bool)
        ensures
            r == (*self == *other),
    ;
}

impl TableKey for ConnectionId {
    fn same(&self, other: &Self) -> (r: bool) {
        ConnectionId::same(self, other)
    }
}

impl TableKey for Sequence {
    fn same(&self, other: &Self) -> (r: bool) {
        Sequence::same(self, other)
    }
}

impl TableKey for SocketAddr {
    fn same(&self, other: &Self) -> (r: bool) {
        *self == *other
    }
}

/// Whether no key occurs twice in `s`.
pub open spec fn keys_unique<K, V>(s: Seq<(K, V)>) -> bool {
    forall|i: int, j: int| 0 <= i < j < s.len() ==> s[i].0 != s[j].0
}

/// Whether `k` is a key of `s`.
pub open spec fn has_key<K, V>(s: Seq<(K, V)>, k: K) -> bool {
    exists|i: int| 0 <= i < s.len() && s[i].0 == k
}

/// The position of the key `k` in `s`.
pub open spec fn index_of<K, V>(s: Seq<(K, V)>, k: K) -> int {
    choose|i: int| 0 <= i < s.len() && s[i].0 == k
}

/// The value stored under the key `k` in `s`.
pub open spec fn value_of<K, V>(s: Seq<(K, V)>, k: K) -> V {
    s[index_of(s, k)].1
}

/// Whether `new` is `old` with the key `k` stored under a value that satisfies `f`: the entry of
/// `k` keeps its place when there is one, otherwise it is added at the end; no other entry
/// changes.
pub open spec fn upserted<K, V>(
    old: Seq<(K, V)>,
    new: Seq<(K, V)>,
    k: K,
    f: spec_fn(V) -> bool,
) -> bool {
    if has_key(old, k) {
        let i = index_of(old, k);
        &&& new.len() == old.len()
        &&& forall|j: int| 0 <= j < old.len() && j != i ==> new[j] == old[j]
        &&& new[i].0 == k
        &&& f(new[i].1)
    } else {
        &&& new.len() == old.len() + 1
        &&& new.drop_last() == old
        &&& new.last().0 == k
        &&& f(new.last().1)
    }
}

/// Storing a value that satisfies `f` under `k` gives a table where `k` is upserted with `f`.
pub proof fn lemma_upserted<K, V>(old: Seq<(K, V)>, new: Seq<(K, V)>, k: K, v: V, f: spec_fn(V) -> bool)
    requires
        f(v),
        has_key(old, k) ==> new == old.update(index_of(old, k), (k, v)),
        !has_key(old, k) ==> new == old.push((k, v)),
    ensures
        upserted(old, new, k, f),
{
    if has_key(old, k) {
        let i = index_of(old, k);
        assert(new[i] == (k, v));
    } else {
        assert(new.drop_last() =~= old);
    }
}

/// An upsert keeps the keys unique.
pub proof fn lemma_upserted_unique<K, V>(old: Seq<(K, V)>, new: Seq<(K, V)>, k: K, f: spec_fn(V) -> bool)
    requires
        keys_unique(old),
        upserted(old, new, k, f),
    ensures
        keys_unique(new),
{
    if has_key(old, k) {
        let i = index_of(old, k);
        assert forall|a: int, b: int| 0 <= a < b < new.len() implies new[a].0 != new[b].0 by {
            if a != i && b != i {
                assert(new[a] == old[a] && new[b] == old[b]);
            } else if a == i {
                assert(new[b] == old[b]);
            } else {
                assert(new[a] == old[a]);
            }
        }
    } else {
        assert forall|a: int, b: int| 0 <= a < b < new.len() implies new[a].0 != new[b].0 by {
            assert(new[a] == new.drop_last()[a]);
            if b < new.len() - 1 {
                assert(new[b] == new.drop_last()[b]);
            } else {
                assert(new[b] == new.last());
            }
        }
    }
}

/// An upsert under `k` into a table with unique keys leaves `k` in it, under a value that
/// satisfies `f`.
pub proof fn lemma_upserted_get<K, V>(old: Seq<(K, V)>, new: Seq<(K, V)>, k: K, f: spec_fn(V) -> bool)
    requires
        keys_unique(old),
        upserted(old, new, k, f),
    ensures
        keys_unique(new),
        has_key(new, k),
        f(value_of(new, k)),
        has_key(old, k) ==> index_of(new, k) == index_of(old, k),
{
    lemma_upserted_unique(old, new, k, f);
    if has_key(old, k) {
        let i: int = index_of(old, k);
        lemma_index_of(new, k, i);
    } else {
        lemma_index_of(new, k, new.len() - 1);
    }
}

/// An upsert with `f` is an upsert with any `g` that every value satisfying `f` satisfies.
pub proof fn lemma_upserted_weaken<K, V>(
    old: Seq<(K, V)>,
    new: Seq<(K, V)>,
    k: K,
    f: spec_fn(V) -> bool,
    g: spec_fn(V) -> bool,
)
    requires
        upserted(old, new, k, f),
        forall|v: V| #[trigger] f(v) ==> g(v),
    ensures
        upserted(old, new, k, g),
{
    if has_key(old, k) {
        assert(f(new[index_of(old, k)].1));
    } else {
        assert(f(new.last().1));
    }
}

/// Whether `new` is `old` without the entry of `k`, if there was one.
pub open spec fn removed<K, V>(old: Seq<(K, V)>, new: Seq<(K, V)>, k: K) -> bool {
    if has_key(old, k) {
        new == old.remove(index_of(old, k))
    } else {
        new == old
    }
}

/// In a table whose keys are unique, a key is found at exactly one position.
pub proof fn lemma_index_of<K, V>(s: Seq<(K, V)>, k: K, i: int)
    requires
        keys_unique(s),
        0 <= i < s.len(),
        s[i].0 == k,
    ensures
        has_key(s, k),
        index_of(s, k) == i,
        value_of(s, k) == s[i].1,
{
}

/// A value stored under a key is what is read back under that key, and every other key keeps
/// its value: for a table `old` and the table `new` that storing `v` under `k` gives (the
/// entry of `k` replaced in place, or added at the end).
pub proof fn law_insert_then_get<K, V>(old: Seq<(K, V)>, new: Seq<(K, V)>, k: K, v: V)
    requires
        keys_unique(old),
        has_key(old, k) ==> new == old.update(index_of(old, k), (k, v)),
        !has_key(old, k) ==> new == old.push((k, v)),
    ensures
        keys_unique(new),
        has_key(new, k),
        value_of(new, k) == v,
        forall|other: K|
            other != k ==> (has_key(new, other) == has_key(old, other) && (has_key(old, other)
                ==> value_of(new, other) == value_of(old, other))),
{
    if has_key(old, k) {
        let i = index_of(old, k);
        lemma_index_of(new, k, i);
        assert forall|other: K| other != k implies (has_key(new, other) == has_key(old, other) && (
        has_key(old, other) ==> value_of(new, other) == value_of(old, other))) by {
            if has_key(old, other) {
                let j = index_of(old, other);
                lemma_index_of(new, other, j);
            }
            if has_key(new, other) {
                let j = index_of(new, other);
                assert(old[j].0 == other);
            }
        }
    } else {
        lemma_index_of(new, k, old.len() as int);
        assert forall|other: K| other != k implies (has_key(new, other) == has_key(old, other) && (
        has_key(old, other) ==> value_of(new, other) == value_of(old, other))) by {
            if has_key(old, other) {
                let j = index_of(old, other);
                lemma_index_of(new, other, j);
            }
            if has_key(new, other) {
                let j = index_of(new, other);
                assert(old[j].0 == other);
            }
        }
    }
}

/// Removing a key leaves no value under it, and every other key keeps its value.
pub proof fn law_remove_then_get<K, V>(old: Seq<(K, V)>, new: Seq<(K, V)>, k: K)
    requires
        keys_unique(old),
        removed(old, new, k),
    ensures
        keys_unique(new),
        !has_key(new, k),
        forall|other: K|
            other != k ==> (has_key(new, other) == has_key(old, other) && (has_key(old, other)
                ==> value_of(new, other) == value_of(old, other))),
{
    if has_key(old, k) {
        let i = index_of(old, k);
        assert forall|other: K| other != k implies (has_key(new, other) == has_key(old, other) && (
        has_key(old, other) ==> value_of(new, other) == value_of(old, other))) by {
            if has_key(old, other) {
                let j = index_of(old, other);
                if j < i {
                    lemma_index_of(new, other, j);
                } else {
                    lemma_index_of(new, other, j - 1);
                }
            }
            if has_key(new, other) {
                let j = index_of(new, other);
                if j < i {
                    assert(old[j].0 == other);
                } else {
                    assert(old[j + 1].0 == other);
                }
            }
        }
        if has_key(new, k) {
            let j = index_of(new, k);
            if j < i {
                assert(old[j].0 == k);
            } else {
                assert(old[j + 1].0 == k);
            }
        }
    }
}

/// Entries of `(key, value)`, in the order they were added.
#[derive(Debug)]
pub struct Table<K: TableKey, V> {
    entries: Vec<(K, V)>,
}

impl<K: TableKey, V> View for Table<K, V> {
    type V = Seq<(K, V)>;

    closed spec fn view(&self) -> Seq<(K, V)> {
        self.entries@
    }
}

impl<K: TableKey, V> Table<K, V> {
    #[verifier::type_invariant]
    closed spec fn inv(self) -> bool {
        keys_unique(self.entries@)
    }

    /// An empty table with room for `capacity` entries.
    pub fn with_capacity(capacity: usize) -> (r: Self)
        ensures
            r@ == Seq::<(K, V)>::empty(),
    {
        Table { entries: Vec::with_capacity(capacity) }
    }

    /// Facts about the entries: no key occurs twice.
    pub fn unique(&self)
        ensures
            keys_unique(self@),
    {
        proof {
            use_type_invariant(self);
        }
    }

    /// The number of entries.
    pub fn len(&self) -> (r: usize)
        ensures
            r == self@.len(),
            keys_unique(self@),
    {
        proof {
            use_type_invariant(self);
        }
        self.entries.len()
    }

    /// Whether the table has no entry.
    pub fn is_empty(&self) -> (r: bool)
        ensures
            r == (self@.len() == 0),
            keys_unique(self@),
    {
        proof {
            use_type_invariant(self);
        }
        self.entries.len() == 0
    }

    /// The entry at `index`.
    pub fn entry(&self, index: usize) -> (r: &(K, V))
        requires
            index < self@.len(),
        ensures
            *r == self@[index as int],
            keys_unique(self@),
    {
        proof {
            use_type_invariant(self);
        }
        &self.entries[index]
    }

    /// The position of the key `key`, if it is in the table.
    pub fn find(&self, key: &K) -> (r: Option<usize>)
        ensures
            keys_unique(self@),
            r is None <==> !has_key(self@, *key),
            r matches Some(i) ==> i < self@.len() && self@[i as int].0 == *key && index_of(
                self@,
                *key,
            ) == i,
    {
        proof {
            use_type_invariant(self);
        }
        let mut i: usize = 0;
        while i < self.entries.len()
            invariant
                i <= self.entries@.len(),
                keys_unique(self.entries@),
                forall|j: int| 0 <= j < i ==> self.entries@[j].0 != *key,
            decreases self.entries@.len() - i,
        {
            if self.entries[i].0.same(key) {
                proof {
                    lemma_index_of(self@, *key, i as int);
                }
                return Some(i);
            }
            i = i + 1;
        }
        None
    }

    /// Whether `key` is in the table.
    pub fn contains_key(&self, key: &K) -> (r: bool)
        ensures
            r == has_key(self@, *key),
            keys_unique(self@),
    {
        self.find(key).is_some()
    }

    /// The value stored under `key`, if any.
    pub fn get(&self, key: &K) -> (r: Option<&V>)
        ensures
            keys_unique(self@),
            r is None <==> !has_key(self@, *key),
            r matches Some(v) ==> *v == value_of(self@, *key),
    {
        match self.find(key) {
            Some(i) => Some(&self.entries[i].1),
            None => None,
        }
    }

    /// Stores `value` under `key`: the entry of `key` keeps its place when there is one, and the
    /// value it held is returned; otherwise the entry is added at the end.
    pub fn insert(&mut self, key: K, value: V) -> (r: Option<V>)
        ensures
            keys_unique(final(self)@),
            has_key(old(self)@, key) ==> final(self)@ == old(self)@.update(
                index_of(old(self)@, key),
                (key, value),
            ) && r == Some(value_of(old(self)@, key)),
            !has_key(old(self)@, key) ==> final(self)@ == old(self)@.push((key, value)) && r is None,
    {
        proof {
            use_type_invariant(&*self);
        }
        let found = self.find(&key);
        let mut entries: Vec<(K, V)> = Vec::new();
        std::mem::swap(&mut entries, &mut self.entries);
        match found {
            Some(i) => {
                let (_, v) = entries.remove(i);
                entries.insert(i, (key, value));
                proof {
                    assert(entries@ =~= old(self)@.update(i as int, (key, value)));
                    assert(keys_unique(entries@));
                }
                self.entries = entries;
                Some(v)
            },
            None => {
                entries.push((key, value));
                proof {
                    assert(keys_unique(entries@));
                }
                self.entries = entries;
                None
            },
        }
    }

    /// Removes the entry of `key` and returns its value, if there is one; the other entries keep
    /// their order.
    pub fn remove(&mut self, key: &K) -> (r: Option<V>)
        ensures
            keys_unique(final(self)@),
            has_key(old(self)@, *key) ==> final(self)@ == old(self)@.remove(
                index_of(old(self)@, *key),
            ) && r == Some(value_of(old(self)@, *key)),
            !has_key(old(self)@, *key) ==> final(self)@ == old(self)@ && r is None,
    {
        proof {
            use_type_invariant(&*self);
        }
        match self.find(key) {
            Some(i) => {
                let mut entries: Vec<(K, V)> = Vec::new();
                std::mem::swap(&mut entries, &mut self.entries);
                let (_, v) = entries.remove(i);
                proof {
                    assert(keys_unique(entries@));
                }
                self.entries = entries;
                Some(v)
            },
            None => None,
        }
    }

    /// Removes the entry at `index` and returns it; the other entries keep their order.
    pub fn take_at(&mut self, index: usize) -> (r: (K, V))
        requires
            index < old(self)@.len(),
        ensures
            keys_unique(old(self)@),
            keys_unique(final(self)@),
            r == old(self)@[index as int],
            final(self)@ == old(self)@.remove(index as int),
    {
        proof {
            use_type_invariant(&*self);
        }
        let mut entries: Vec<(K, V)> = Vec::new();
        std::mem::swap(&mut entries, &mut self.entries);
        let r = entries.remove(index);
        proof {
            assert(keys_unique(entries@));
        }
        self.entries = entries;
        r
    }

    /// Puts the entry `(key, value)` back at `index`; `key` must not be in the table.
    pub fn put_at(&mut self, index: usize, key: K, value: V)
        requires
            index <= old(self)@.len(),
            !has_key(old(self)@, key),
        ensures
            keys_unique(final(self)@),
            final(self)@ == old(self)@.insert(index as int, (key, value)),
    {
        proof {
            use_type_invariant(&*self);
        }
        let mut entries: Vec<(K, V)> = Vec::new();
        std::mem::swap(&mut entries, &mut self.entries);
        entries.insert(index, (key, value));
        proof {
            assert(keys_unique(entries@)) by {
                let s = entries@;
                assert forall|a: int, b: int| 0 <= a < b < s.len() implies s[a].0 != s[b].0 by {
                    if a == index as int {
                        assert(s[b] == old(self)@[b - 1]);
                    } else if b == index as int {
                        assert(s[a] == old(self)@[a]);
                    }
                }
            }
        }
        self.entries = entries;
    }
}

} // verus!
