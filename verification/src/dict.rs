//! A small string-keyed map with a deterministic entry order.
//!
//! The map is kept as a vector of key/value pairs with distinct keys, so
//! iteration order is the insertion order (a property the configuration and
//! state files rely on).  Its abstract value is a `Map<Seq<char>, V::V>`.

use vstd::prelude::*;

verus! {

/// The abstract map described by a sequence of key/value pairs; a later
/// pair with the same key wins.
pub open spec fn pairs_map<V: DeepView>(s: Seq<(String, V)>) -> Map<Seq<char>, V::V>
    decreases s.len(),
{
    if s.len() == 0 {
        Map::empty()
    } else {
        pairs_map(s.drop_last()).insert(s.last().0@, s.last().1.deep_view())
    }
}

/// True when no two pairs of `s` share a key.
pub open spec fn pairs_unique<V>(s: Seq<(String, V)>) -> bool {
    forall|i: int, j: int| 0 <= i < j < s.len() ==> s[i].0@ != s[j].0@
}

/// A string-keyed map with distinct keys and a deterministic entry order.
pub struct Dict<V> {
    /// The kept pairs; treated as read-only outside this module.
    pub entries: Vec<(String, V)>,
}

impl<V: DeepView> View for Dict<V> {
    type V = Map<Seq<char>, V::V>;

    open spec fn view(&self) -> Map<Seq<char>, V::V> {
        pairs_map(self.entries@)
    }
}

proof fn lemma_pairs_map_index<V: DeepView>(s: Seq<(String, V)>, i: int)
    requires
        pairs_unique(s),
        0 <= i < s.len(),
    ensures
        pairs_map(s).contains_key(s[i].0@),
        pairs_map(s)[s[i].0@] == s[i].1.deep_view(),
    decreases s.len(),
{
    if i < s.len() - 1 {
        lemma_pairs_map_index(s.drop_last(), i);
    }
}

proof fn lemma_pairs_map_absent<V: DeepView>(s: Seq<(String, V)>, k: Seq<char>)
    requires
        forall|i: int| 0 <= i < s.len() ==> s[i].0@ != k,
    ensures
        !pairs_map(s).contains_key(k),
    decreases s.len(),
{
    if s.len() > 0 {
        lemma_pairs_map_absent(s.drop_last(), k);
    }
}

proof fn lemma_pairs_map_update<V: DeepView>(s: Seq<(String, V)>, i: int, p: (String, V))
    requires
        pairs_unique(s),
        0 <= i < s.len(),
        p.0@ == s[i].0@,
    ensures
        pairs_map(s.update(i, p)) =~= pairs_map(s).insert(p.0@, p.1.deep_view()),
    decreases s.len(),
{
    let t = s.update(i, p);
    assert(t.last() == if i == s.len() - 1 { p } else { s.last() });
    if i == s.len() - 1 {
        assert(t.drop_last() =~= s.drop_last());
    } else {
        assert(t.drop_last() =~= s.drop_last().update(i, p));
        lemma_pairs_map_update(s.drop_last(), i, p);
    }
}

proof fn lemma_pairs_map_remove<V: DeepView>(s: Seq<(String, V)>, i: int)
    requires
        pairs_unique(s),
        0 <= i < s.len(),
    ensures
        pairs_map(s.remove(i)) =~= pairs_map(s).remove(s[i].0@),
    decreases s.len(),
{
    let k = s[i].0@;
    if i == s.len() - 1 {
        assert(s.remove(i) =~= s.drop_last());
        assert(forall|j: int| 0 <= j < s.drop_last().len() ==> s.drop_last()[j].0@ != k);
        lemma_pairs_map_absent(s.drop_last(), k);
    } else {
        assert(s.remove(i).drop_last() =~= s.drop_last().remove(i));
        assert(s.remove(i).last() == s.last());
        lemma_pairs_map_remove(s.drop_last(), i);
    }
}

impl<V: DeepView> Dict<V> {
    /// The key/value pairs in their kept order.
    pub open spec fn pairs(&self) -> Seq<(String, V)> {
        self.entries@
    }

    /// Well-formed: all keys distinct.
    pub open spec fn wf(&self) -> bool {
        pairs_unique(self.entries@)
    }

    /// The pair at a given position is in the abstract map.
    pub proof fn lemma_pair_in_map(&self, i: int)
        requires
            self.wf(),
            0 <= i < self.pairs().len(),
        ensures
            self@.contains_key(self.pairs()[i].0@),
            self@[self.pairs()[i].0@] == self.pairs()[i].1.deep_view(),
    {
        lemma_pairs_map_index(self.entries@, i);
    }

    /// Every key of the abstract map is the key of some pair.
    pub proof fn lemma_key_has_pair(&self, k: Seq<char>)
        requires
            self@.contains_key(k),
        ensures
            exists|i: int| 0 <= i < self.pairs().len() && self.pairs()[i].0@ == k,
    {
        if forall|i: int| 0 <= i < self.entries@.len() ==> #[trigger] self.entries@[i].0@ != k {
            lemma_pairs_map_absent(self.entries@, k);
            assert(false);
        } else {
            let i = choose|i: int| 0 <= i < self.entries@.len() && #[trigger] self.entries@[i].0@ == k;
            assert(0 <= i < self.pairs().len() && self.pairs()[i].0@ == k);
        }
    }

    /// An empty map.
    pub fn new() -> (r: Self)
        ensures
            r.wf(),
            r@ =~= Map::<Seq<char>, V::V>::empty(),
            r.pairs() =~= Seq::<(String, V)>::empty(),
    {
        Dict { entries: Vec::new() }
    }

    /// The number of entries.
    pub fn len(&self) -> (r: usize)
        ensures
            r == self.pairs().len(),
    {
        self.entries.len()
    }

    /// The key of the entry at position `i`.
    pub fn key_at(&self, i: usize) -> (r: &String)
        requires
            i < self.pairs().len(),
        ensures
            r == self.pairs()[i as int].0,
    {
        &self.entries[i].0
    }

    /// The value of the entry at position `i`.
    pub fn val_at(&self, i: usize) -> (r: &V)
        requires
            i < self.pairs().len(),
        ensures
            r == self.pairs()[i as int].1,
    {
        &self.entries[i].1
    }

    /// The entry at position `i`.
    pub fn entry_at(&self, i: usize) -> (r: &(String, V))
        requires
            i < self.pairs().len(),
        ensures
            *r == self.pairs()[i as int],
    {
        &self.entries[i]
    }

    /// The position of the entry holding key `k`, if any.
    fn find(&self, k: &String) -> (r: Option<usize>)
        ensures
            match r {
                Some(i) => i < self.entries@.len() && self.entries@[i as int].0@ == k@,
                None => forall|i: int| 0 <= i < self.entries@.len() ==> self.entries@[i].0@ != k@,
            },
    {
        let n = self.entries.len();
        let mut i: usize = 0;
        while i < n
            invariant
                i <= n,
                n == self.entries@.len(),
                forall|j: int| 0 <= j < i ==> self.entries@[j].0@ != k@,
            decreases n - i,
        {
            if self.entries[i].0 == *k {
                return Some(i);
            }
            i = i + 1;
        }
        None
    }

    /// Whether key `k` is present.
    pub fn contains_key(&self, k: &String) -> (r: bool)
        requires
            self.wf(),
        ensures
            r == self@.contains_key(k@),
    {
        let f = self.find(k);
        proof {
            match f {
                Some(i) => lemma_pairs_map_index(self.entries@, i as int),
                None => lemma_pairs_map_absent(self.entries@, k@),
            }
        }
        f.is_some()
    }

    /// The value held under key `k`, if any.
    pub fn get(&self, k: &String) -> (r: Option<&V>)
        requires
            self.wf(),
        ensures
            r is Some <==> self@.contains_key(k@),
            r is Some ==> self@[k@] == r->0.deep_view(),
    {
        let f = self.find(k);
        proof {
            match f {
                Some(i) => lemma_pairs_map_index(self.entries@, i as int),
                None => lemma_pairs_map_absent(self.entries@, k@),
            }
        }
        match f {
            Some(i) => Some(&self.entries[i].1),
            None => None,
        }
    }

    /// Binds `k` to `v`, replacing in place any entry with the same key and
    /// appending a new entry otherwise.
    pub fn insert(&mut self, k: String, v: V)
        requires
            old(self).wf(),
        ensures
            final(self).wf(),
            final(self)@ =~= old(self)@.insert(k@, v.deep_view()),
            (forall|i: int| 0 <= i < old(self).pairs().len() ==> old(self).pairs()[i].0@ != k@)
                ==> final(self).pairs() =~= old(self).pairs().push((k, v)),
    {
        let f = self.find(&k);
        match f {
            Some(i) => {
                proof {
                    lemma_pairs_map_update(self.entries@, i as int, (k, v));
                }
                self.entries[i] = (k, v);
                proof {
                    assert forall|a: int, b: int|
                        0 <= a < b < self.entries@.len() implies self.entries@[a].0@
                        != self.entries@[b].0@ by {
                        assert(old(self).entries@[a].0@ != old(self).entries@[b].0@);
                    }
                }
            },
            None => {
                proof {
                    assert(self.entries@.push((k, v)).drop_last() =~= self.entries@);
                }
                self.entries.push((k, v));
                proof {
                    assert forall|a: int, b: int|
                        0 <= a < b < self.entries@.len() implies self.entries@[a].0@
                        != self.entries@[b].0@ by {
                        if b < old(self).entries@.len() {
                            assert(old(self).entries@[a].0@ != old(self).entries@[b].0@);
                        } else {
                            assert(old(self).entries@[a].0@ != k@);
                        }
                    }
                }
            },
        }
    }

    /// Drops the entry with key `k`, if present.
    pub fn remove(&mut self, k: &String)
        requires
            old(self).wf(),
        ensures
            final(self).wf(),
            final(self)@ =~= old(self)@.remove(k@),
    {
        let f = self.find(k);
        match f {
            Some(i) => {
                proof {
                    lemma_pairs_map_remove(self.entries@, i as int);
                    assert(forall|a: int, b: int|
                        0 <= a < b < self.entries@.remove(i as int).len()
                            ==> self.entries@.remove(i as int)[a].0@ != self.entries@.remove(
                            i as int,
                        )[b].0@);
                }
                self.entries.remove(i);
            },
            None => {
                proof {
                    lemma_pairs_map_absent(self.entries@, k@);
                    assert(old(self)@.remove(k@) =~= old(self)@);
                }
            },
        }
    }
}

} // verus!
