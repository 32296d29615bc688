//! A small string-keyed map backed by a vector of pairs, with a `Map` view;
//! insertion overwrites, keys stay unique, and entries can be walked in order.
use vstd::prelude::*;
use vstd::string::*;

verus! {

use crate::strutil::str_eq;

/// The map entries written by `map_of`, later entries overriding earlier ones.
pub open spec fn map_of<V>(ps: Seq<(Seq<char>, V)>) -> Map<Seq<char>, V>
    decreases ps.len(),
{
    if ps.len() == 0 {
        Map::<Seq<char>, V>::empty()
    } else {
        map_of(ps.drop_last()).insert(ps.last().0, ps.last().1)
    }
}

pub proof fn lemma_map_of_contains<V>(ps: Seq<(Seq<char>, V)>, k: Seq<char>)
    ensures
        map_of(ps).contains_key(k) <==> exists|i: int| 0 <= i < ps.len() && (#[trigger] ps[i]).0
            == k,
    decreases ps.len(),
{
    if ps.len() > 0 {
        lemma_map_of_contains(ps.drop_last(), k);
        if ps.last().0 == k {
            assert(ps[ps.len() - 1].0 == k);
        } else {
            assert(forall|i: int|
                0 <= i < ps.len() - 1 ==> (#[trigger] ps[i]) == ps.drop_last()[i]);
        }
    }
}

pub proof fn lemma_map_of_get<V>(ps: Seq<(Seq<char>, V)>, i: int)
    requires
        0 <= i < ps.len(),
        forall|x: int, y: int| 0 <= x < y < ps.len() ==> (#[trigger] ps[x]).0 != (#[trigger] ps[y]).0,
    ensures
        map_of(ps).contains_key(ps[i].0),
        map_of(ps)[ps[i].0] == ps[i].1,
    decreases ps.len(),
{
    if i == ps.len() - 1 {
    } else {
        assert(forall|x: int| 0 <= x < ps.len() - 1 ==> (#[trigger] ps[x]) == ps.drop_last()[x]);
        lemma_map_of_get(ps.drop_last(), i);
        assert(ps[i].0 != ps[ps.len() - 1].0);
    }
}

proof fn lemma_map_of_update<V>(ps: Seq<(Seq<char>, V)>, i: int, v: V)
    requires
        0 <= i < ps.len(),
        forall|x: int, y: int| 0 <= x < y < ps.len() ==> (#[trigger] ps[x]).0 != (#[trigger] ps[y]).0,
    ensures
        map_of(ps.update(i, (ps[i].0, v))) == map_of(ps).insert(ps[i].0, v),
    decreases ps.len(),
{
    let k = ps[i].0;
    let upd = ps.update(i, (k, v));
    if i == ps.len() - 1 {
        assert(upd.drop_last() =~= ps.drop_last());
        assert(upd.last() == (k, v));
        assert(map_of(upd) =~= map_of(ps).insert(k, v));
    } else {
        assert(forall|x: int| 0 <= x < ps.len() - 1 ==> (#[trigger] ps[x]) == ps.drop_last()[x]);
        lemma_map_of_update(ps.drop_last(), i, v);
        assert(upd.drop_last() =~= ps.drop_last().update(i, (k, v)));
        assert(upd.last() == ps.last());
        assert(k != ps.last().0);
        assert(map_of(upd) == map_of(ps.drop_last()).insert(k, v).insert(ps.last().0, ps.last().1));
        assert(map_of(ps.drop_last()).insert(k, v).insert(ps.last().0, ps.last().1) =~= map_of(
            ps.drop_last(),
        ).insert(ps.last().0, ps.last().1).insert(k, v));
    }
}

/// A string-keyed map: a vector of key/value pairs with pairwise distinct keys.
pub struct Dict<V> {
    pairs: Vec<(String, V)>,
}

impl<V> Dict<V> {
    /// The entries in insertion order, each key as its character sequence.
    pub closed spec fn spec_pairs(&self) -> Seq<(Seq<char>, V)> {
        Seq::new(self.pairs@.len(), |i: int| (self.pairs@[i].0@, self.pairs@[i].1))
    }

    /// Keys are pairwise distinct.
    pub open spec fn wf(&self) -> bool {
        forall|x: int, y: int|
            0 <= x < y < self.spec_pairs().len() ==> (#[trigger] self.spec_pairs()[x]).0 != (
            #[trigger] self.spec_pairs()[y]).0
    }

    /// The entries as a map from key text to value.
    pub open spec fn as_map(&self) -> Map<Seq<char>, V> {
        map_of(self.spec_pairs())
    }

    /// An empty map.
    pub fn new() -> (r: Self)
        ensures
            r.wf(),
            r.as_map() == Map::<Seq<char>, V>::empty(),
            r.spec_pairs().len() == 0,
    {
        Dict { pairs: Vec::new() }
    }

    /// How many entries the map holds.
    pub fn len(&self) -> (r: usize)
        ensures
            r == self.spec_pairs().len(),
    {
        self.pairs.len()
    }

    /// The entry at one position, in insertion order.
    pub fn entry_at(&self, i: usize) -> (r: &(String, V))
        requires
            i < self.spec_pairs().len(),
        ensures
            r.0@ == self.spec_pairs()[i as int].0,
            r.1 == self.spec_pairs()[i as int].1,
    {
        &self.pairs[i]
    }

    /// The value under `key`, if the map holds one.
    pub fn get(&self, key: &str) -> (r: Option<&V>)
        requires
            self.wf(),
        ensures
            match r {
                Some(v) => self.as_map().contains_key(key@) && *v == self.as_map()[key@],
                None => !self.as_map().contains_key(key@),
            },
    {
        let n = self.pairs.len();
        let mut i: usize = 0;
        while i < n
            invariant
                self.wf(),
                n == self.spec_pairs().len(),
                i <= n,
                forall|j: int| 0 <= j < i ==> (#[trigger] self.spec_pairs()[j]).0 != key@,
            decreases n - i,
        {
            if str_eq(self.pairs[i].0.as_str(), key) {
                proof {
                    lemma_map_of_get(self.spec_pairs(), i as int);
                }
                return Some(&self.pairs[i].1);
            }
            i = i + 1;
        }
        proof {
            lemma_map_of_contains(self.spec_pairs(), key@);
        }
        None
    }

    /// Whether the map holds a value under `key`.
    pub fn contains_key(&self, key: &str) -> (r: bool)
        requires
            self.wf(),
        ensures
            r == self.as_map().contains_key(key@),
    {
        match self.get(key) {
            Some(_) => true,
            None => false,
        }
    }

    /// The position holding `key`, if any.
    fn find_index(&self, key: &str) -> (r: Option<usize>)
        ensures
            match r {
                Some(i) => i < self.spec_pairs().len() && self.spec_pairs()[i as int].0 == key@,
                None => forall|j: int|
                    0 <= j < self.spec_pairs().len() ==> (#[trigger] self.spec_pairs()[j]).0
                        != key@,
            },
    {
        let n = self.pairs.len();
        let mut i: usize = 0;
        while i < n
            invariant
                n == self.spec_pairs().len(),
                i <= n,
                forall|j: int| 0 <= j < i ==> (#[trigger] self.spec_pairs()[j]).0 != key@,
            decreases n - i,
        {
            if str_eq(self.pairs[i].0.as_str(), key) {
                return Some(i);
            }
            i = i + 1;
        }
        None
    }

    /// Writes `value` under `key`, replacing any earlier value.
    pub fn insert(&mut self, key: String, value: V)
        requires
            old(self).wf(),
        ensures
            final(self).wf(),
            final(self).as_map() == old(self).as_map().insert(key@, value),
            final(self).spec_pairs().len() <= old(self).spec_pairs().len() + 1,
    {
        let ghost ps = self.spec_pairs();
        match self.find_index(key.as_str()) {
            Some(i) => {
                proof {
                    lemma_map_of_update(ps, i as int, value);
                }
                self.pairs.set(i, (key, value));
                proof {
                    assert(self.spec_pairs() =~= ps.update(i as int, (ps[i as int].0, value)));
                    assert(forall|x: int|
                        0 <= x < self.spec_pairs().len() ==> (#[trigger] self.spec_pairs()[x]).0
                            == ps[x].0);
                }
            },
            None => {
                self.pairs.push((key, value));
                proof {
                    assert(self.spec_pairs().drop_last() =~= ps);
                    assert(self.spec_pairs().last() == (key@, value));
                    assert(self.spec_pairs().len() == ps.len() + 1);
                    assert(map_of(self.spec_pairs()) == map_of(ps).insert(key@, value));
                    assert(forall|x: int|
                        0 <= x < ps.len() ==> (#[trigger] self.spec_pairs()[x]) == ps[x]);
                }
            },
        }
    }
}

} // verus!
