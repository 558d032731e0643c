//! The unique-key aggregate of sibling entities: a map from name to
//! entity that keeps insertion order and lets a later occurrence of a
//! key overwrite the earlier one.

use vstd::prelude::*;

use crate::name::Name;
use crate::text::str_eq;

verus! {

/// The position of `key` among `entries`, or `-1` when absent.
pub open spec fn key_index<V>(entries: Seq<(Seq<char>, V)>, key: Seq<char>) -> int
    decreases entries.len(),
{
    if entries.len() == 0 {
        -1
    } else if entries[0].0 == key {
        0
    } else {
        let r = key_index(entries.drop_first(), key);
        if r == -1 {
            -1
        } else {
            r + 1
        }
    }
}

/// Last-write-wins insertion: a present key keeps its position and takes
/// the new value; an absent key goes to the end.
pub open spec fn keyed_insert<V>(
    entries: Seq<(Seq<char>, V)>,
    key: Seq<char>,
    value: V,
) -> Seq<(Seq<char>, V)> {
    let i = key_index(entries, key);
    if i == -1 {
        entries.push((key, value))
    } else {
        entries.update(i, (key, value))
    }
}

/// The value stored under `key`, if any.
pub open spec fn keyed_lookup<V>(entries: Seq<(Seq<char>, V)>, key: Seq<char>) -> Option<V> {
    let i = key_index(entries, key);
    if i == -1 {
        None
    } else {
        Some(entries[i].1)
    }
}

/// Are the keys of `entries` pairwise distinct?
pub open spec fn unique_keys<V>(entries: Seq<(Seq<char>, V)>) -> bool {
    forall|i: int, j: int|
        0 <= i < j < entries.len() ==> (#[trigger] entries[i]).0 != (#[trigger] entries[j]).0
}

/// What `key_index` finds: the first position holding the key, and `-1`
/// exactly when no position holds it.
pub proof fn lemma_key_index_props<V>(entries: Seq<(Seq<char>, V)>, key: Seq<char>)
    ensures
        -1 <= key_index(entries, key) < entries.len(),
        key_index(entries, key) == -1 ==> forall|i: int|
            0 <= i < entries.len() ==> (#[trigger] entries[i]).0 != key,
        key_index(entries, key) >= 0 ==> entries[key_index(entries, key)].0 == key && forall|
            i: int,
        |
            0 <= i < key_index(entries, key) ==> (#[trigger] entries[i]).0 != key,
    decreases entries.len(),
{
    if entries.len() > 0 && entries[0].0 != key {
        lemma_key_index_props(entries.drop_first(), key);
        assert(forall|i: int|
            1 <= i < entries.len() ==> (#[trigger] entries[i]).0 == entries.drop_first()[i - 1].0);
    }
}

/// The first match determines `key_index` uniquely.
pub proof fn lemma_key_index_unique<V>(entries: Seq<(Seq<char>, V)>, key: Seq<char>, j: int)
    requires
        0 <= j < entries.len(),
        entries[j].0 == key,
        forall|i: int| 0 <= i < j ==> (#[trigger] entries[i]).0 != key,
    ensures
        key_index(entries, key) == j,
{
    lemma_key_index_props(entries, key);
    let ki = key_index(entries, key);
    if ki == -1 {
        assert((entries[j]).0 != key);
    } else if ki < j {
        assert((entries[ki]).0 != key);
    } else if ki > j {
        assert((entries[j]).0 != key);
    }
}

/// Last write wins: after an insertion the key holds the new value, a
/// key already present keeps the aggregate's size, a new key grows it by
/// one, and every other key is untouched.
pub proof fn lemma_keyed_insert_lookup<V>(entries: Seq<(Seq<char>, V)>, key: Seq<char>, value: V)
    ensures
        keyed_lookup(keyed_insert(entries, key, value), key) == Some(value),
        keyed_insert(entries, key, value).len() == if key_index(entries, key) == -1 {
            entries.len() + 1
        } else {
            entries.len()
        },
        forall|other: Seq<char>|
            other != key ==> #[trigger] keyed_lookup(keyed_insert(entries, key, value), other)
                == keyed_lookup(entries, other),
{
    lemma_key_index_props(entries, key);
    let u = keyed_insert(entries, key, value);
    let ki = key_index(entries, key);
    if ki == -1 {
        lemma_key_index_unique(u, key, entries.len() as int);
    } else {
        lemma_key_index_unique(u, key, ki);
    }
    assert forall|other: Seq<char>| other != key implies #[trigger] keyed_lookup(u, other)
        == keyed_lookup(entries, other) by {
        lemma_key_index_props(entries, other);
        lemma_key_index_props(u, other);
        let oi = key_index(entries, other);
        if oi == -1 {
            let ui = key_index(u, other);
            if ui >= 0 {
                assert((u[ui]).0 == other);
                if ki == -1 && ui == entries.len() {
                    assert((u[ui]).0 == key);
                } else {
                    assert((entries[ui]).0 != other);
                    if ui == ki {
                        assert((u[ui]).0 == key);
                    } else {
                        assert((u[ui]).0 == (entries[ui]).0);
                    }
                }
            }
        } else {
            assert((entries[oi]).0 == other);
            assert(oi != ki);
            assert((u[oi]).0 == other && (u[oi]).1 == (entries[oi]).1);
            assert(forall|i: int| 0 <= i < oi ==> (#[trigger] u[i]).0 != other) by {
                assert(forall|i: int|
                    0 <= i < oi && i != ki ==> (#[trigger] u[i]).0 == (entries[i]).0);
            }
            lemma_key_index_unique(u, other, oi);
        }
    }
}

/// Insertion preserves distinctness of keys.
pub proof fn lemma_keyed_insert_unique<V>(entries: Seq<(Seq<char>, V)>, key: Seq<char>, value: V)
    requires
        unique_keys(entries),
    ensures
        unique_keys(keyed_insert(entries, key, value)),
{
    lemma_key_index_props(entries, key);
}

/// A keyed aggregate of entities, in insertion order, with pairwise
/// distinct keys whenever it was built by insertion alone.
#[derive(Debug, PartialEq)]
pub struct KeyedList<V> {
    entries: Vec<(Name, V)>,
}

impl<V: View> View for KeyedList<V> {
    type V = Seq<(Seq<char>, <V as View>::V)>;

    closed spec fn view(&self) -> Seq<(Seq<char>, <V as View>::V)> {
        Seq::new(self.entries@.len(), |i: int| (self.entries@[i].0@, self.entries@[i].1@))
    }
}

impl<V: View> KeyedList<V> {
    /// The empty aggregate.
    pub fn new() -> (r: Self)
        ensures
            r@ == Seq::<(Seq<char>, <V as View>::V)>::empty(),
    {
        let r = KeyedList { entries: Vec::new() };
        proof {
            assert(r@ =~= Seq::<(Seq<char>, <V as View>::V)>::empty());
        }
        r
    }

    /// How many entities the aggregate holds.
    pub fn len(&self) -> (r: usize)
        ensures
            r == self@.len(),
    {
        self.entries.len()
    }

    /// Inserts `value` under `key`: a later occurrence of a key
    /// overwrites the earlier one, keeping its position.
    pub fn insert(&mut self, key: Name, value: V)
        ensures
            final(self)@ == keyed_insert(old(self)@, key@, value@),
    {
        let mut i: usize = 0;
        while i < self.entries.len()
            invariant
                self@ == old(self)@,
                self.entries@.len() == self@.len(),
                i <= self@.len(),
                forall|j: int| 0 <= j < i ==> (#[trigger] self@[j]).0 != key@,
            decreases self.entries@.len() - i,
        {
            if str_eq(self.entries[i].0.as_str(), key.as_str()) {
                proof {
                    lemma_key_index_props(self@, key@);
                    assert((self@[i as int]).0 == key@);
                    let ki = key_index(self@, key@);
                    if ki < i {
                        assert((self@[ki]).0 != key@);
                    }
                    assert(ki == i);
                }
                self.entries.set(i, (key, value));
                proof {
                    assert(final(self)@ =~= keyed_insert(old(self)@, key@, value@));
                }
                return ;
            }
            i += 1;
        }
        proof {
            lemma_key_index_props(self@, key@);
            let ki = key_index(self@, key@);
            if ki >= 0 {
                assert((self@[ki]).0 == key@);
            }
            assert(ki == -1);
        }
        self.entries.push((key, value));
        proof {
            assert(final(self)@ =~= keyed_insert(old(self)@, key@, value@));
        }
    }

    /// The entity stored under the key spelled `key`, if any.
    pub fn get(&self, key: &str) -> (r: Option<&V>)
        ensures
            match keyed_lookup(self@, key@) {
                Some(v) => r matches Some(x) && x@ == v,
                None => r is None,
            },
    {
        let mut i: usize = 0;
        while i < self.entries.len()
            invariant
                self.entries@.len() == self@.len(),
                i <= self@.len(),
                forall|j: int| 0 <= j < i ==> (#[trigger] self@[j]).0 != key@,
            decreases self.entries@.len() - i,
        {
            if str_eq(self.entries[i].0.as_str(), key) {
                proof {
                    lemma_key_index_props(self@, key@);
                    assert((self@[i as int]).0 == key@);
                    let ki = key_index(self@, key@);
                    if ki < i {
                        assert((self@[ki]).0 != key@);
                    }
                    assert(ki == i);
                }
                return Some(&self.entries[i].1);
            }
            i += 1;
        }
        proof {
            lemma_key_index_props(self@, key@);
            let ki = key_index(self@, key@);
            if ki >= 0 {
                assert((self@[ki]).0 == key@);
            }
            assert(ki == -1);
        }
        None
    }

    /// The entities in insertion order, with their keys.
    pub fn entries(&self) -> (r: &Vec<(Name, V)>)
        ensures
            r@.len() == self@.len(),
            forall|i: int|
                0 <= i < r@.len() ==> ((#[trigger] r@[i]).0@ == self@[i].0 && r@[i].1@
                    == self@[i].1),
    {
        &self.entries
    }
}

} // verus!
