//! Keyed storage for pallet state.
//!
//! A [`StorageMap`] holds at most one value per key. Keys are told apart by
//! their view alone, so two keys with the same view name the same entry.

use vstd::prelude::*;

verus! {

/// A value that can serve as the key of a [`StorageMap`].
///
/// The view of a key is its identity: `same` decides whether two keys share
/// it, and `duplicate` makes a second key with the same identity.
pub trait Key: View + Sized {
    /// Whether `self` and `other` have the same identity.
    fn same(&self, other: &Self) -> (r: bool)
        ensures
            r == (self@ == other@),
    ;

    /// A fresh key with the identity of `self`.
    fn duplicate(&self) -> (r: Self)
        ensures
            r@ == self@,
    ;
}

impl Key for String {
    fn same(&self, other: &Self) -> (r: bool) {
        *self == *other
    }

    fn duplicate(&self) -> (r: Self) {
        self.clone()
    }
}

impl<'a> Key for &'a str {
    fn same(&self, other: &Self) -> (r: bool) {
        same_text(*self, *other)
    }

    fn duplicate(&self) -> (r: Self) {
        *self
    }
}

/// Whether two string slices hold the same characters, decided on their
/// UTF-8 bytes.
pub fn same_text(a: &str, b: &str) -> (r: bool)
    ensures
        r == (a@ == b@),
{
    let x = a.as_bytes();
    let y = b.as_bytes();
    if x.len() != y.len() {
        return false;
    }
    let mut i: usize = 0;
    while i < x.len()
        invariant
            i <= x.len(),
            x.len() == y.len(),
            x@ == vstd::utf8::encode_utf8(a@),
            y@ == vstd::utf8::encode_utf8(b@),
            forall|j: int| 0 <= j < i ==> x@[j] == y@[j],
        decreases x.len() - i,
    {
        if x[i] != y[i] {
            return false;
        }
        i += 1;
    }
    proof {
        assert(x@ =~= y@);
        vstd::utf8::encode_utf8_decode_utf8(a@);
        vstd::utf8::encode_utf8_decode_utf8(b@);
    }
    true
}

/// The map that a sequence of entries stands for: entries are written in
/// order, a later one replacing an earlier one with the same key.
spec fn contents<K: Key, V>(entries: Seq<(K, V)>) -> Map<K::V, V>
    decreases entries.len(),
{
    if entries.len() == 0 {
        Map::empty()
    } else {
        contents(entries.drop_last()).insert(entries.last().0@, entries.last().1)
    }
}

/// No two entries share a key.
spec fn distinct_keys<K: Key, V>(entries: Seq<(K, V)>) -> bool {
    forall|i: int, j: int|
        0 <= i < j < entries.len() ==> (#[trigger] entries[i]).0@ != (#[trigger] entries[j]).0@
}

/// The keys of `contents(entries)` are exactly the keys of the entries, and
/// there are finitely many of them.
proof fn lemma_contents_keys<K: Key, V>(entries: Seq<(K, V)>)
    ensures
        contents(entries).dom().finite(),
        forall|k: K::V|
            contents(entries).contains_key(k) <==> exists|i: int|
                0 <= i < entries.len() && (#[trigger] entries[i]).0@ == k,
    decreases entries.len(),
{
    if entries.len() > 0 {
        let front = entries.drop_last();
        lemma_contents_keys(front);
        assert forall|k: K::V|
            contents(entries).contains_key(k) <==> exists|i: int|
                0 <= i < entries.len() && (#[trigger] entries[i]).0@ == k by {
            if contents(entries).contains_key(k) {
                if k == entries.last().0@ {
                    assert(entries[entries.len() - 1].0@ == k);
                } else {
                    assert(contents(front).contains_key(k));
                    let i = choose|i: int| 0 <= i < front.len() && (#[trigger] front[i]).0@ == k;
                    assert(entries[i].0@ == k);
                }
            }
            if exists|i: int| 0 <= i < entries.len() && (#[trigger] entries[i]).0@ == k {
                let i = choose|i: int| 0 <= i < entries.len() && (#[trigger] entries[i]).0@ == k;
                if i < entries.len() - 1 {
                    assert(front[i].0@ == k);
                }
            }
        }
    }
}

/// Where no two entries share a key, each entry's value is the one that
/// `contents(entries)` holds under its key.
proof fn lemma_contents_value<K: Key, V>(entries: Seq<(K, V)>, i: int)
    requires
        distinct_keys(entries),
        0 <= i < entries.len(),
    ensures
        contents(entries).contains_key(entries[i].0@),
        contents(entries)[entries[i].0@] == entries[i].1,
    decreases entries.len(),
{
    let front = entries.drop_last();
    if i < entries.len() - 1 {
        assert(distinct_keys(front)) by {
            assert forall|a: int, b: int| 0 <= a < b < front.len() implies (#[trigger] front[a]).0@
                != (#[trigger] front[b]).0@ by {
                assert(entries[a].0@ != entries[b].0@);
            }
        }
        lemma_contents_value(front, i);
        assert(front[i] == entries[i]);
        assert(entries[i].0@ != entries[entries.len() - 1].0@);
    }
}

/// A finite map from keys to values, with at most one value under each key.
#[derive(Debug)]
pub struct StorageMap<K: Key, V> {
    entries: Vec<(K, V)>,
}

impl<K: Key, V> View for StorageMap<K, V> {
    type V = Map<K::V, V>;

    closed spec fn view(&self) -> Map<K::V, V> {
        contents(self.entries@)
    }
}

impl<K: Key, V> StorageMap<K, V> {
    #[verifier::type_invariant]
    spec fn keys_are_distinct(&self) -> bool {
        distinct_keys(self.entries@)
    }

    /// Every map has finitely many keys.
    pub proof fn lemma_finite(&self)
        ensures
            self@.dom().finite(),
    {
        lemma_contents_keys(self.entries@);
    }

    /// The empty map.
    pub fn new() -> (r: Self)
        ensures
            r@ == Map::<K::V, V>::empty(),
    {
        StorageMap { entries: Vec::new() }
    }

    /// The index of the entry under `key`, if there is one.
    fn position(&self, key: &K) -> (r: Option<usize>)
        ensures
            match r {
                Some(i) => i < self.entries@.len() && self.entries@[i as int].0@ == key@,
                None => forall|j: int|
                    0 <= j < self.entries@.len() ==> (#[trigger] self.entries@[j]).0@ != key@,
            },
    {
        let mut i: usize = 0;
        while i < self.entries.len()
            invariant
                i <= self.entries@.len(),
                forall|j: int| 0 <= j < i ==> (#[trigger] self.entries@[j]).0@ != key@,
            decreases self.entries@.len() - i,
        {
            if self.entries[i].0.same(key) {
                return Some(i);
            }
            i += 1;
        }
        None
    }

    /// Whether a value is stored under `key`.
    pub fn contains_key(&self, key: &K) -> (r: bool)
        ensures
            r == self@.contains_key(key@),
    {
        proof {
            lemma_contents_keys(self.entries@);
        }
        self.position(key).is_some()
    }

    /// The value stored under `key`, if there is one.
    pub fn get(&self, key: &K) -> (r: Option<&V>)
        ensures
            r == (if self@.contains_key(key@) {
                Some(&self@[key@])
            } else {
                None
            }),
    {
        proof {
            use_type_invariant(self);
            lemma_contents_keys(self.entries@);
        }
        match self.position(key) {
            Some(i) => {
                proof {
                    lemma_contents_value(self.entries@, i as int);
                }
                Some(&self.entries[i].1)
            },
            None => None,
        }
    }

    /// Stores `value` under `key`, replacing what was stored there.
    pub fn insert(&mut self, key: K, value: V)
        ensures
            final(self)@ == old(self)@.insert(key@, value),
    {
        proof {
            use_type_invariant(&*self);
        }
        let found = self.position(&key);
        let ghost before = self.entries@;
        let ghost id = key@;
        let mut entries: Vec<(K, V)> = Vec::new();
        core::mem::swap(&mut self.entries, &mut entries);
        match found {
            Some(i) => {
                entries[i] = (key, value);
                proof {
                    lemma_entry_replaced(before, entries@, i as int);
                }
            },
            None => {
                entries.push((key, value));
                proof {
                    let after = entries@;
                    assert(after.drop_last() =~= before);
                    assert(distinct_keys(after)) by {
                        assert forall|a: int, b: int| 0 <= a < b < after.len() implies (
                        #[trigger] after[a]).0@ != (#[trigger] after[b]).0@ by {
                            if b < before.len() {
                                assert(before[a].0@ != before[b].0@);
                            } else {
                                assert(before[a].0@ != id);
                            }
                        }
                    }
                }
            },
        }
        core::mem::swap(&mut self.entries, &mut entries);
    }

    /// Removes what is stored under `key`, if anything.
    pub fn remove(&mut self, key: &K)
        ensures
            final(self)@ == old(self)@.remove(key@),
    {
        proof {
            use_type_invariant(&*self);
            lemma_contents_keys(self.entries@);
        }
        let found = self.position(key);
        let ghost before = self.entries@;
        match found {
            Some(i) => {
                let mut entries: Vec<(K, V)> = Vec::new();
                core::mem::swap(&mut self.entries, &mut entries);
                let _ = entries.swap_remove(i);
                proof {
                    lemma_entry_removed(before, entries@, i as int);
                }
                core::mem::swap(&mut self.entries, &mut entries);
            },
            None => {
                assert(self@ =~= old(self)@.remove(key@));
            },
        }
    }
}

/// Replacing the value of one entry, under a key with the same view, writes
/// that value into the contents.
proof fn lemma_entry_replaced<K: Key, V>(before: Seq<(K, V)>, after: Seq<(K, V)>, i: int)
    requires
        distinct_keys(before),
        0 <= i < before.len(),
        after.len() == before.len(),
        after[i].0@ == before[i].0@,
        forall|j: int| 0 <= j < before.len() && j != i ==> after[j] == before[j],
    ensures
        distinct_keys(after),
        contents(after) == contents(before).insert(after[i].0@, after[i].1),
{
    assert(distinct_keys(after)) by {
        assert forall|a: int, b: int| 0 <= a < b < after.len() implies (#[trigger] after[a]).0@ != (
        #[trigger] after[b]).0@ by {
            assert(before[a].0@ != before[b].0@);
        }
    }
    let goal = contents(before).insert(after[i].0@, after[i].1);
    lemma_contents_keys(before);
    lemma_contents_keys(after);
    assert forall|k: K::V| contents(after).contains_key(k) <==> goal.contains_key(k) by {
        if contents(after).contains_key(k) {
            let j = choose|j: int| 0 <= j < after.len() && (#[trigger] after[j]).0@ == k;
            assert(before[j].0@ == k);
        }
        if goal.contains_key(k) && k != after[i].0@ {
            let j = choose|j: int| 0 <= j < before.len() && (#[trigger] before[j]).0@ == k;
            assert(after[j].0@ == k);
        }
        if k == after[i].0@ {
            assert(after[i].0@ == k);
        }
    }
    assert forall|k: K::V| contents(after).contains_key(k) implies contents(after)[k] == goal[k] by {
        let j = choose|j: int| 0 <= j < after.len() && (#[trigger] after[j]).0@ == k;
        lemma_contents_value(after, j);
        if j != i {
            lemma_contents_value(before, j);
            assert(before[j].0@ != before[i].0@);
        }
    }
    assert(contents(after) =~= goal);
}

/// Moving the last entry into the place of entry `i` takes the key of
/// entry `i` out of the contents and leaves the rest as it was.
proof fn lemma_entry_removed<K: Key, V>(before: Seq<(K, V)>, after: Seq<(K, V)>, i: int)
    requires
        distinct_keys(before),
        0 <= i < before.len(),
        after == before.update(i, before.last()).drop_last(),
    ensures
        distinct_keys(after),
        contents(after) == contents(before).remove(before[i].0@),
{
    let goal = contents(before).remove(before[i].0@);
    let last = before.len() - 1;
    assert forall|j: int| 0 <= j < after.len() implies #[trigger] after[j] == (if j == i {
        before[last]
    } else {
        before[j]
    }) by {}
    assert(distinct_keys(after)) by {
        assert forall|a: int, b: int| 0 <= a < b < after.len() implies (#[trigger] after[a]).0@ != (
        #[trigger] after[b]).0@ by {
            let pa = if a == i {
                last
            } else {
                a
            };
            let pb = if b == i {
                last
            } else {
                b
            };
            if pa < pb {
                assert(before[pa].0@ != before[pb].0@);
            } else {
                assert(before[pb].0@ != before[pa].0@);
            }
        }
    }
    lemma_contents_keys(before);
    lemma_contents_keys(after);
    assert forall|k: K::V| contents(after).contains_key(k) <==> goal.contains_key(k) by {
        if contents(after).contains_key(k) {
            let j = choose|j: int| 0 <= j < after.len() && (#[trigger] after[j]).0@ == k;
            let pj = if j == i {
                last
            } else {
                j
            };
            assert(before[pj].0@ == k);
            if pj < i {
                assert(before[pj].0@ != before[i].0@);
            } else {
                assert(before[i].0@ != before[pj].0@);
            }
        }
        if goal.contains_key(k) {
            let j = choose|j: int| 0 <= j < before.len() && (#[trigger] before[j]).0@ == k;
            if j == last {
                assert(after[i].0@ == k);
            } else {
                assert(after[j].0@ == k);
            }
        }
    }
    assert forall|k: K::V| contents(after).contains_key(k) implies contents(after)[k] == goal[k] by {
        let j = choose|j: int| 0 <= j < after.len() && (#[trigger] after[j]).0@ == k;
        let pj = if j == i {
            last
        } else {
            j
        };
        lemma_contents_value(after, j);
        lemma_contents_value(before, pj);
    }
    assert(contents(after) =~= goal);
}

} // verus!
