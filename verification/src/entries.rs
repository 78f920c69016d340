//! A list of entries by key, each key with one entry at most.

use vstd::prelude::*;

verus! {

/// What an entry is found by.
pub trait Key: Sized {
    fn same(&self, other: &Self) -> (r: bool)
        ensures
            r == (*self == *other),
    ;
}

/// The entries, in the order in which they first came.
#[derive(Debug)]
pub struct Entries<K: Key, V> {
    items: Vec<(K, V)>,
}

spec fn holds<K, V>(items: Seq<(K, V)>, i: int, key: K) -> bool {
    0 <= i < items.len() && items[i].0 == key
}

impl<K: Key, V> View for Entries<K, V> {
    type V = Map<K, V>;

    closed spec fn view(&self) -> Map<K, V> {
        Map::new(
            |key: K| exists|i: int| #[trigger] holds(self.items@, i, key),
            |key: K| self.items@[choose|i: int| #[trigger] holds(self.items@, i, key)].1,
        )
    }
}

impl<K: Key, V> Entries<K, V> {
    #[verifier::type_invariant]
    spec fn inv(self) -> bool {
        forall|i: int, j: int, key: K| #[trigger]
            holds(self.items@, i, key) && #[trigger] holds(self.items@, j, key) ==> i == j
    }

    /// No entry.
    pub fn new() -> (r: Entries<K, V>)
        ensures
            r@ == Map::<K, V>::empty(),
    {
        let r = Entries { items: Vec::new() };
        assert(r@ =~= Map::<K, V>::empty());
        r
    }

    fn find(&self, key: &K) -> (r: Option<usize>)
        ensures
            r is Some <==> self@.contains_key(*key),
            r matches Some(i) ==> holds(self.items@, i as int, *key) && self@[*key]
                == self.items@[i as int].1,
    {
        proof {
            use_type_invariant(self);
        }
        let mut i: usize = 0;
        while i < self.items.len()
            invariant
                i <= self.items.len(),
                forall|j: int| 0 <= j < i ==> !holds(self.items@, j, *key),
                self.inv(),
            decreases self.items.len() - i,
        {
            if self.items[i].0.same(key) {
                assert(holds(self.items@, i as int, *key));
                return Some(i);
            }
            i = i + 1;
        }
        None
    }

    /// The entry of `key`.
    pub fn get(&self, key: K) -> (r: Option<&V>)
        ensures
            r is Some <==> self@.contains_key(key),
            r matches Some(value) ==> *value == self@[key],
    {
        match self.find(&key) {
            Some(i) => Some(&self.items[i].1),
            None => None,
        }
    }

    /// Gives `key` the entry `value`, in place of the one that it has.
    pub fn insert(&mut self, key: K, value: V)
        ensures
            final(self)@ == old(self)@.insert(key, value),
    {
        let found = self.find(&key);
        proof {
            use_type_invariant(&*self);
        }
        let ghost before = self.items@;
        let mut items: Vec<(K, V)> = Vec::new();
        std::mem::swap(&mut items, &mut self.items);
        let ghost at: int;
        match found {
            Some(i) => {
                proof {
                    at = i as int;
                }
                items.set(i, (key, value));
            },
            None => {
                proof {
                    at = before.len() as int;
                    assert forall|j: int| !holds(before, j, key) by {}
                }
                items.push((key, value));
            },
        }
        let ghost now = items@;
        proof {
            assert forall|j: int, k: K| #[trigger] holds(now, j, k) implies (if j == at {
                k == key
            } else {
                holds(before, j, k)
            }) by {}
            assert forall|j: int, k: K| #[trigger] holds(before, j, k) && j != at implies holds(
                now,
                j,
                k,
            ) by {}
            assert forall|j: int| #[trigger] holds(now, j, key) implies j == at by {}
            assert(holds(now, at, key));
        }
        self.items = items;
        proof {
            assert(now[at].1 == value);
            assert forall|k: K| k != key implies (self@.contains_key(k) <==> old(
                self,
            )@.contains_key(k)) && (self@.contains_key(k) ==> self@[k] == old(self)@[k]) by {
                if exists|i: int| #[trigger] holds(before, i, k) {
                    let i = choose|i: int| #[trigger] holds(before, i, k);
                    assert(holds(now, i, k));
                }
                if exists|i: int| #[trigger] holds(now, i, k) {
                    let i = choose|i: int| #[trigger] holds(now, i, k);
                    assert(holds(before, i, k));
                }
            }
            assert(self@ =~= old(self)@.insert(key, value));
        }
    }
}

} // verus!
