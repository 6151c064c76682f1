//! A map from small copyable keys (identifiers, entities) to values, kept as a list of pairs in
//! which no key occurs twice. Its view is the mathematical map the pairs describe; the order of
//! the pairs carries no meaning.

use vstd::prelude::*;
use crate::uuids::uuid_eq;

verus! {

/// A key that can be compared at run time in a way that agrees with equality in specifications.
pub trait MapKey: Copy + Sized {
    fn key_eq(&self, other: &Self) -> (res: bool)
        ensures
            res == (*self == *other),
    ;
}

impl MapKey for [u8; 16] {
    fn key_eq(&self, other: &Self) -> (res: bool) {
        uuid_eq(self, other)
    }
}

/// No key occurs twice in `s`.
pub open spec fn keys_unique<K, V>(s: Seq<(K, V)>) -> bool {
    forall|i: int, j: int| 0 <= i < s.len() && 0 <= j < s.len() && i != j ==> s[i].0 != s[j].0
}

/// The map that the pairs `s` describe; a later pair wins over an earlier one with the same key.
pub open spec fn map_of<K, V>(s: Seq<(K, V)>) -> Map<K, V>
    decreases s.len(),
{
    if s.len() == 0 {
        Map::empty()
    } else {
        map_of(s.drop_last()).insert(s.last().0, s.last().1)
    }
}

/// With unique keys, every pair of `s` is an entry of `map_of(s)`.
pub proof fn lemma_map_of_index<K, V>(s: Seq<(K, V)>, i: int)
    requires
        keys_unique(s),
        0 <= i < s.len(),
    ensures
        map_of(s).dom().contains(s[i].0),
        map_of(s)[s[i].0] == s[i].1,
    decreases s.len(),
{
    if i < s.len() - 1 {
        assert(s.drop_last()[i] == s[i]);
        lemma_map_of_index(s.drop_last(), i);
    }
}

/// A key that no pair of `s` carries is not a key of `map_of(s)`.
pub proof fn lemma_map_of_absent<K, V>(s: Seq<(K, V)>, k: K)
    requires
        forall|i: int| 0 <= i < s.len() ==> s[i].0 != k,
    ensures
        !map_of(s).dom().contains(k),
    decreases s.len(),
{
    if s.len() > 0 {
        assert forall|i: int| 0 <= i < s.drop_last().len() implies s.drop_last()[i].0 != k by {
            assert(s.drop_last()[i] == s[i]);
        }
        lemma_map_of_absent(s.drop_last(), k);
    }
}

/// The keys of `map_of(s)` are the keys of the pairs of `s`.
pub proof fn lemma_map_of_dom<K, V>(s: Seq<(K, V)>, k: K)
    ensures
        map_of(s).dom().contains(k) <==> exists|i: int| 0 <= i < s.len() && s[i].0 == k,
    decreases s.len(),
{
    if s.len() > 0 {
        lemma_map_of_dom(s.drop_last(), k);
        if map_of(s.drop_last()).dom().contains(k) {
            let i = choose|i: int| 0 <= i < s.drop_last().len() && s.drop_last()[i].0 == k;
            assert(s[i] == s.drop_last()[i]);
        }
        if exists|i: int| 0 <= i < s.len() && s[i].0 == k {
            let i = choose|i: int| 0 <= i < s.len() && s[i].0 == k;
            if i < s.len() - 1 {
                assert(s.drop_last()[i] == s[i]);
            }
        }
    }
}

proof fn lemma_map_of_value<K, V>(s: Seq<(K, V)>, k: K)
    requires
        keys_unique(s),
        map_of(s).dom().contains(k),
    ensures
        exists|i: int| 0 <= i < s.len() && s[i].0 == k && map_of(s)[k] == s[i].1,
{
    lemma_map_of_dom(s, k);
    let i = choose|i: int| 0 <= i < s.len() && s[i].0 == k;
    lemma_map_of_index(s, i);
}

/// Replacing the value of a pair is inserting into the map.
pub proof fn lemma_map_of_update<K, V>(s: Seq<(K, V)>, i: int, v: V)
    requires
        keys_unique(s),
        0 <= i < s.len(),
    ensures
        keys_unique(s.update(i, (s[i].0, v))),
        map_of(s.update(i, (s[i].0, v))) == map_of(s).insert(s[i].0, v),
{
    let k = s[i].0;
    let t = s.update(i, (k, v));
    assert(keys_unique(t)) by {
        assert forall|a: int, b: int| 0 <= a < t.len() && 0 <= b < t.len() && a != b implies t[a].0 != t[b].0 by {
            assert(t[a].0 == s[a].0);
            assert(t[b].0 == s[b].0);
        }
    }
    assert forall|q: K| #[trigger] map_of(t).dom().contains(q) == map_of(s).insert(k, v).dom().contains(q) by {
        lemma_map_of_dom(t, q);
        lemma_map_of_dom(s, q);
        if exists|j: int| 0 <= j < s.len() && s[j].0 == q {
            let j = choose|j: int| 0 <= j < s.len() && s[j].0 == q;
            assert(t[j].0 == q);
        }
        if exists|j: int| 0 <= j < t.len() && t[j].0 == q {
            let j = choose|j: int| 0 <= j < t.len() && t[j].0 == q;
            assert(s[j].0 == q);
        }
        if q == k {
            assert(t[i].0 == q);
        }
    }
    assert forall|q: K| #[trigger] map_of(t).dom().contains(q) implies map_of(t)[q] == map_of(s).insert(k, v)[q] by {
        lemma_map_of_value(t, q);
        let j = choose|j: int| 0 <= j < t.len() && t[j].0 == q && map_of(t)[q] == t[j].1;
        if j != i {
            assert(s[j] == t[j]);
            lemma_map_of_index(s, j);
        }
    }
    assert(map_of(t) =~= map_of(s).insert(k, v));
}

/// Appending a pair with a new key is inserting into the map.
pub proof fn lemma_map_of_push<K, V>(s: Seq<(K, V)>, k: K, v: V)
    requires
        keys_unique(s),
        !map_of(s).dom().contains(k),
    ensures
        keys_unique(s.push((k, v))),
        map_of(s.push((k, v))) == map_of(s).insert(k, v),
{
    assert(s.push((k, v)).drop_last() =~= s);
    assert forall|i: int| 0 <= i < s.len() implies s[i].0 != k by {
        lemma_map_of_index(s, i);
    }
}

/// Removing a pair is removing its key from the map.
pub proof fn lemma_map_of_remove<K, V>(s: Seq<(K, V)>, i: int)
    requires
        keys_unique(s),
        0 <= i < s.len(),
    ensures
        keys_unique(s.remove(i)),
        map_of(s.remove(i)) == map_of(s).remove(s[i].0),
{
    let k = s[i].0;
    let t = s.remove(i);
    assert forall|a: int| 0 <= a < t.len() implies #[trigger] t[a] == (if a < i { s[a] } else { s[a + 1] }) by {}
    assert(keys_unique(t)) by {
        assert forall|a: int, b: int| 0 <= a < t.len() && 0 <= b < t.len() && a != b implies t[a].0 != t[b].0 by {
            let sa = if a < i { a } else { a + 1 };
            let sb = if b < i { b } else { b + 1 };
            assert(t[a] == s[sa]);
            assert(t[b] == s[sb]);
        }
    }
    assert forall|q: K| #[trigger] map_of(t).dom().contains(q) == map_of(s).remove(k).dom().contains(q) by {
        lemma_map_of_dom(t, q);
        lemma_map_of_dom(s, q);
        if exists|j: int| 0 <= j < s.len() && s[j].0 == q {
            let j = choose|j: int| 0 <= j < s.len() && s[j].0 == q;
            if j < i {
                assert(t[j] == s[j]);
            } else if j > i {
                assert(t[j - 1] == s[j]);
            }
        }
        if exists|j: int| 0 <= j < t.len() && t[j].0 == q {
            let j = choose|j: int| 0 <= j < t.len() && t[j].0 == q;
            let sj = if j < i { j } else { j + 1 };
            assert(t[j] == s[sj]);
        }
    }
    assert forall|q: K| #[trigger] map_of(t).dom().contains(q) implies map_of(t)[q] == map_of(s).remove(k)[q] by {
        lemma_map_of_value(t, q);
        let j = choose|j: int| 0 <= j < t.len() && t[j].0 == q && map_of(t)[q] == t[j].1;
        let sj = if j < i { j } else { j + 1 };
        assert(t[j] == s[sj]);
        lemma_map_of_index(s, sj);
    }
    assert(map_of(t) =~= map_of(s).remove(k));
}

/// A map kept as a list of pairs with distinct keys.
pub struct KeyMap<K, V> {
    entries: Vec<(K, V)>,
}

impl<K, V> KeyMap<K, V> {
    /// The pairs, in the order they are kept.
    pub closed spec fn spec_entries(self) -> Seq<(K, V)> {
        self.entries@
    }

    #[verifier::type_invariant]
    spec fn inv(self) -> bool {
        keys_unique(self.entries@)
    }
}

impl<K, V> View for KeyMap<K, V> {
    type V = Map<K, V>;

    open spec fn view(&self) -> Map<K, V> {
        map_of(self.spec_entries())
    }
}

impl<K: MapKey, V> KeyMap<K, V> {
    /// An empty map.
    pub fn new() -> (res: Self)
        ensures
            res@ == Map::<K, V>::empty(),
            res.spec_entries().len() == 0,
    {
        KeyMap { entries: Vec::new() }
    }

    /// The number of keys.
    pub fn len(&self) -> (res: usize)
        ensures
            res == self.spec_entries().len(),
    {
        self.entries.len()
    }

    /// The position of the pair with key `k`, if there is one.
    fn find(&self, k: &K) -> (res: Option<usize>)
        ensures
            match res {
                Some(i) => i < self.entries@.len() && self.entries@[i as int].0 == *k,
                None => forall|i: int| 0 <= i < self.entries@.len() ==> self.entries@[i].0 != *k,
            },
    {
        let mut i: usize = 0;
        while i < self.entries.len()
            invariant
                i <= self.entries@.len(),
                forall|j: int| 0 <= j < i ==> self.entries@[j].0 != *k,
            decreases self.entries@.len() - i,
        {
            if self.entries[i].0.key_eq(k) {
                return Some(i);
            }
            i = i + 1;
        }
        None
    }

    /// Whether `k` is a key.
    pub fn contains_key(&self, k: &K) -> (res: bool)
        ensures
            res == self@.dom().contains(*k),
    {
        proof {
            use_type_invariant(self);
        }
        match self.find(k) {
            Some(i) => {
                proof {
                    lemma_map_of_index(self.entries@, i as int);
                }
                true
            },
            None => {
                proof {
                    lemma_map_of_absent(self.entries@, *k);
                }
                false
            },
        }
    }

    /// The value of `k`, if `k` is a key.
    pub fn get(&self, k: &K) -> (res: Option<&V>)
        ensures
            match res {
                Some(v) => self@.dom().contains(*k) && *v == self@[*k],
                None => !self@.dom().contains(*k),
            },
            keys_unique(self.spec_entries()),
    {
        proof {
            use_type_invariant(self);
        }
        match self.find(k) {
            Some(i) => {
                proof {
                    lemma_map_of_index(self.entries@, i as int);
                }
                Some(&self.entries[i].1)
            },
            None => {
                proof {
                    lemma_map_of_absent(self.entries@, *k);
                }
                None
            },
        }
    }

    /// Sets the value of `k` to `v`, adding `k` if it is not a key.
    pub fn insert(&mut self, k: K, v: V)
        ensures
            final(self)@ == old(self)@.insert(k, v),
    {
        proof {
            use_type_invariant(&*self);
        }
        match self.find(&k) {
            Some(i) => {
                proof {
                    lemma_map_of_update(self.entries@, i as int, v);
                }
                let mut entries: Vec<(K, V)> = Vec::new();
                std::mem::swap(&mut entries, &mut self.entries);
                entries.set(i, (k, v));
                self.entries = entries;
            },
            None => {
                proof {
                    lemma_map_of_absent(self.entries@, k);
                    lemma_map_of_push(self.entries@, k, v);
                }
                let mut entries: Vec<(K, V)> = Vec::new();
                std::mem::swap(&mut entries, &mut self.entries);
                entries.push((k, v));
                self.entries = entries;
            },
        }
    }

    /// Removes `k` and returns its value, if `k` is a key.
    pub fn remove(&mut self, k: &K) -> (res: Option<V>)
        ensures
            final(self)@ == old(self)@.remove(*k),
            match res {
                Some(v) => old(self)@.dom().contains(*k) && v == old(self)@[*k],
                None => !old(self)@.dom().contains(*k),
            },
    {
        proof {
            use_type_invariant(&*self);
        }
        match self.find(k) {
            Some(i) => {
                proof {
                    lemma_map_of_index(self.entries@, i as int);
                    lemma_map_of_remove(self.entries@, i as int);
                }
                let mut entries: Vec<(K, V)> = Vec::new();
                std::mem::swap(&mut entries, &mut self.entries);
                let (_, v) = entries.remove(i);
                self.entries = entries;
                Some(v)
            },
            None => {
                proof {
                    lemma_map_of_absent(self.entries@, *k);
                    assert(old(self)@.remove(*k) =~= old(self)@);
                }
                None
            },
        }
    }

    /// The keys, each once, in the order the pairs are kept.
    pub fn keys(&self) -> (res: Vec<K>)
        ensures
            res@.len() == self.spec_entries().len(),
            forall|i: int| 0 <= i < res@.len() ==> #[trigger] res@[i] == self.spec_entries()[i].0,
            forall|i: int, j: int| 0 <= i < res@.len() && 0 <= j < res@.len() && i != j ==> res@[i] != res@[j],
            forall|k: K| self@.dom().contains(k) <==> #[trigger] res@.contains(k),
            keys_unique(self.spec_entries()),
    {
        proof {
            use_type_invariant(self);
        }
        let mut res: Vec<K> = Vec::new();
        let mut i: usize = 0;
        while i < self.entries.len()
            invariant
                i <= self.entries@.len(),
                res@.len() == i,
                forall|j: int| 0 <= j < i ==> #[trigger] res@[j] == self.entries@[j].0,
            decreases self.entries@.len() - i,
        {
            res.push(self.entries[i].0);
            i = i + 1;
        }
        proof {
            assert forall|k: K| self@.dom().contains(k) <==> #[trigger] res@.contains(k) by {
                lemma_map_of_dom(self.entries@, k);
                if res@.contains(k) {
                    let j = choose|j: int| 0 <= j < res@.len() && res@[j] == k;
                    assert(self.entries@[j].0 == k);
                }
                if self@.dom().contains(k) {
                    let j = choose|j: int| 0 <= j < self.entries@.len() && self.entries@[j].0 == k;
                    assert(res@[j] == k);
                }
            }
        }
        res
    }
}

} // verus!
