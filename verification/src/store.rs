//! The process-scoped variable store: an in-memory table of key/value
//! pairs with unique keys. The service layer and the interactive editor
//! operate on a value of this type; the code around the library loads it
//! from the live environment and writes mutations back.

use vstd::prelude::*;

use crate::text::str_eq;

verus! {

/// The map described by a sequence of key/value pairs, later pairs winning.
pub open spec fn pairs_to_map(ps: Seq<(Seq<char>, Seq<char>)>) -> Map<Seq<char>, Seq<char>>
    decreases ps.len(),
{
    if ps.len() == 0 {
        Map::<Seq<char>, Seq<char>>::empty()
    } else {
        pairs_to_map(ps.drop_last()).insert(ps.last().0, ps.last().1)
    }
}

/// No two pairs share a key.
pub open spec fn unique_keys(ps: Seq<(Seq<char>, Seq<char>)>) -> bool {
    forall|i: int, j: int| 0 <= i < j < ps.len() ==> ps[i].0 != ps[j].0
}

/// A key is in the map exactly when some pair holds it.
pub proof fn lemma_pairs_to_map_domain(ps: Seq<(Seq<char>, Seq<char>)>, k: Seq<char>)
    ensures
        pairs_to_map(ps).contains_key(k) <==> exists|i: int| 0 <= i < ps.len() && ps[i].0 == k,
    decreases ps.len(),
{
    if ps.len() > 0 {
        lemma_pairs_to_map_domain(ps.drop_last(), k);
        if ps.last().0 == k {
            assert(ps[ps.len() - 1].0 == k);
        } else {
            if pairs_to_map(ps).contains_key(k) {
                let i = choose|i: int| 0 <= i < ps.drop_last().len() && ps.drop_last()[i].0 == k;
                assert(ps[i].0 == k);
            }
            if exists|i: int| 0 <= i < ps.len() && ps[i].0 == k {
                let i = choose|i: int| 0 <= i < ps.len() && ps[i].0 == k;
                assert(i < ps.len() - 1);
                assert(ps.drop_last()[i].0 == k);
            }
        }
    }
}

/// With unique keys, the map sends each pair's key to that pair's value.
pub proof fn lemma_pairs_to_map_at(ps: Seq<(Seq<char>, Seq<char>)>, i: int)
    requires
        unique_keys(ps),
        0 <= i < ps.len(),
    ensures
        pairs_to_map(ps).contains_key(ps[i].0),
        pairs_to_map(ps)[ps[i].0] == ps[i].1,
    decreases ps.len(),
{
    if i == ps.len() - 1 {
    } else {
        assert(unique_keys(ps.drop_last())) by {
            assert(forall|x: int, y: int|
                0 <= x < y < ps.drop_last().len() ==> ps.drop_last()[x] == ps[x]
                    && ps.drop_last()[y] == ps[y]);
        }
        lemma_pairs_to_map_at(ps.drop_last(), i);
        assert(ps.drop_last()[i] == ps[i]);
        assert(ps.last().0 != ps[i].0);
    }
}

/// Appending a pair inserts it into the map.
pub proof fn lemma_pairs_to_map_push(ps: Seq<(Seq<char>, Seq<char>)>, p: (Seq<char>, Seq<char>))
    ensures
        pairs_to_map(ps.push(p)) == pairs_to_map(ps).insert(p.0, p.1),
{
    assert(ps.push(p).drop_last() =~= ps);
    assert(ps.push(p).last() == p);
}

/// Overwriting the pair that holds a key updates that key in the map.
pub proof fn lemma_pairs_to_map_update(
    ps: Seq<(Seq<char>, Seq<char>)>,
    i: int,
    p: (Seq<char>, Seq<char>),
)
    requires
        unique_keys(ps),
        0 <= i < ps.len(),
        ps[i].0 == p.0,
    ensures
        pairs_to_map(ps.update(i, p)) == pairs_to_map(ps).insert(p.0, p.1),
    decreases ps.len(),
{
    if i == ps.len() - 1 {
        assert(ps.update(i, p).drop_last() =~= ps.drop_last());
        assert(ps.update(i, p).last() == p);
        assert(pairs_to_map(ps.drop_last()).insert(ps.last().0, ps.last().1).insert(p.0, p.1)
            =~= pairs_to_map(ps.drop_last()).insert(p.0, p.1));
    } else {
        assert(unique_keys(ps.drop_last())) by {
            assert(forall|x: int, y: int|
                0 <= x < y < ps.drop_last().len() ==> ps.drop_last()[x] == ps[x]
                    && ps.drop_last()[y] == ps[y]);
        }
        assert(ps.drop_last()[i] == ps[i]);
        lemma_pairs_to_map_update(ps.drop_last(), i, p);
        assert(ps.update(i, p).drop_last() =~= ps.drop_last().update(i, p));
        assert(ps.update(i, p).last() == ps.last());
        assert(ps.last().0 != p.0);
        assert(pairs_to_map(ps.drop_last()).insert(p.0, p.1).insert(ps.last().0, ps.last().1)
            =~= pairs_to_map(ps.drop_last()).insert(ps.last().0, ps.last().1).insert(p.0, p.1));
    }
}

/// Removing the pair that holds a key removes that key from the map.
pub proof fn lemma_pairs_to_map_remove(ps: Seq<(Seq<char>, Seq<char>)>, i: int)
    requires
        unique_keys(ps),
        0 <= i < ps.len(),
    ensures
        pairs_to_map(ps.remove(i)) == pairs_to_map(ps).remove(ps[i].0),
    decreases ps.len(),
{
    let k = ps[i].0;
    if i == ps.len() - 1 {
        assert(ps.remove(i) =~= ps.drop_last());
        lemma_pairs_to_map_domain(ps.drop_last(), k);
        assert(forall|j: int|
            0 <= j < ps.drop_last().len() ==> #[trigger] ps.drop_last()[j] == ps[j]);
        assert(!pairs_to_map(ps.drop_last()).contains_key(k));
        assert(pairs_to_map(ps.drop_last()).insert(k, ps.last().1).remove(k) =~= pairs_to_map(
            ps.drop_last(),
        ));
    } else {
        assert(unique_keys(ps.drop_last())) by {
            assert(forall|x: int, y: int|
                0 <= x < y < ps.drop_last().len() ==> ps.drop_last()[x] == ps[x]
                    && ps.drop_last()[y] == ps[y]);
        }
        assert(ps.drop_last()[i] == ps[i]);
        lemma_pairs_to_map_remove(ps.drop_last(), i);
        assert(ps.remove(i).drop_last() =~= ps.drop_last().remove(i));
        assert(ps.remove(i).last() == ps.last());
        assert(ps.last().0 != k);
        assert(pairs_to_map(ps.drop_last()).remove(k).insert(ps.last().0, ps.last().1)
            =~= pairs_to_map(ps.drop_last()).insert(ps.last().0, ps.last().1).remove(k));
    }
}

/// An in-memory table of environment variables with unique keys.
#[derive(Debug)]
pub struct Store {
    entries: Vec<(String, String)>,
}

impl Store {
    /// The pairs held, in storage order.
    pub closed spec fn pairs(self) -> Seq<(Seq<char>, Seq<char>)> {
        self.entries.deep_view()
    }

    /// The mapping from keys to values.
    pub closed spec fn as_map(self) -> Map<Seq<char>, Seq<char>> {
        pairs_to_map(self.pairs())
    }

    /// Keys are unique.
    pub closed spec fn wf(self) -> bool {
        unique_keys(self.pairs())
    }

    /// An empty store.
    pub fn new() -> (r: Store)
        ensures
            r.wf(),
            r.pairs() == Seq::<(Seq<char>, Seq<char>)>::empty(),
            r.as_map() == Map::<Seq<char>, Seq<char>>::empty(),
    {
        let r = Store { entries: Vec::new() };
        proof {
            assert(r.pairs() =~= Seq::<(Seq<char>, Seq<char>)>::empty());
        }
        r
    }

    /// Where a key is stored, if anywhere.
    fn position(&self, key: &str) -> (r: Option<usize>)
        ensures
            match r {
                Some(i) => i < self.pairs().len() && self.pairs()[i as int].0 == key@,
                None => forall|i: int|
                    0 <= i < self.pairs().len() ==> #[trigger] self.pairs()[i].0 != key@,
            },
    {
        let mut i: usize = 0;
        let n = self.entries.len();
        while i < n
            invariant
                i <= n,
                n == self.entries@.len(),
                self.pairs().len() == n,
                forall|j: int| 0 <= j < i ==> #[trigger] self.pairs()[j].0 != key@,
                forall|j: int|
                    0 <= j < n ==> #[trigger] self.pairs()[j] == (
                        self.entries@[j].0@,
                        self.entries@[j].1@,
                    ),
            decreases n - i,
        {
            if str_eq(self.entries[i].0.as_str(), key) {
                return Some(i);
            }
            i = i + 1;
        }
        None
    }

    /// Looks a key up; `Some` exactly when the store holds it.
    pub fn get_value(&self, key: &str) -> (r: Option<String>)
        requires
            self.wf(),
        ensures
            match r {
                Some(v) => self.as_map().contains_key(key@) && v@ == self.as_map()[key@],
                None => !self.as_map().contains_key(key@),
            },
    {
        proof {
            lemma_pairs_to_map_domain(self.pairs(), key@);
        }
        match self.position(key) {
            Some(i) => {
                proof {
                    lemma_pairs_to_map_at(self.pairs(), i as int);
                }
                Some(self.entries[i].1.clone())
            },
            None => None,
        }
    }

    /// Binds `key` to `value`, overwriting in place or appending at the end.
    pub fn set_value(&mut self, key: &str, value: &str)
        requires
            old(self).wf(),
        ensures
            final(self).wf(),
            final(self).as_map() == old(self).as_map().insert(key@, value@),
            !old(self).as_map().contains_key(key@) ==> final(self).pairs() == old(
                self,
            ).pairs().push((key@, value@)),
            old(self).as_map().contains_key(key@) ==> final(self).pairs().len() == old(
                self,
            ).pairs().len(),
    {
        proof {
            lemma_pairs_to_map_domain(self.pairs(), key@);
        }
        let pair = (String::from_str(key), String::from_str(value));
        match self.position(key) {
            Some(i) => {
                let ghost ps = self.pairs();
                self.entries.set(i, pair);
                proof {
                    assert(self.pairs() =~= ps.update(i as int, (key@, value@)));
                    lemma_pairs_to_map_update(ps, i as int, (key@, value@));
                    assert(unique_keys(self.pairs()));
                }
            },
            None => {
                let ghost ps = self.pairs();
                self.entries.push(pair);
                proof {
                    assert(self.pairs() =~= ps.push((key@, value@)));
                    lemma_pairs_to_map_push(ps, (key@, value@));
                    assert(unique_keys(self.pairs()));
                }
            },
        }
    }

    /// Drops `key` if held; no effect otherwise.
    pub fn remove_value(&mut self, key: &str)
        requires
            old(self).wf(),
        ensures
            final(self).wf(),
            final(self).as_map() == old(self).as_map().remove(key@),
            !old(self).as_map().contains_key(key@) ==> *final(self) == *old(self),
            final(self).pairs().len() <= old(self).pairs().len(),
    {
        proof {
            lemma_pairs_to_map_domain(self.pairs(), key@);
        }
        match self.position(key) {
            Some(i) => {
                let ghost ps = self.pairs();
                self.entries.remove(i);
                proof {
                    assert(self.pairs() =~= ps.remove(i as int));
                    lemma_pairs_to_map_remove(ps, i as int);
                    assert(unique_keys(self.pairs())) by {
                        assert(forall|x: int|
                            0 <= x < ps.remove(i as int).len() ==> #[trigger] ps.remove(
                                i as int,
                            )[x] == (if x < i as int {
                                ps[x]
                            } else {
                                ps[x + 1]
                            }));
                    }
                }
            },
            None => {
                proof {
                    assert(old(self).as_map().remove(key@) =~= old(self).as_map());
                }
            },
        }
    }

    /// A snapshot of all pairs, in storage order.
    pub fn list(&self) -> (r: Vec<(String, String)>)
        ensures
            r.deep_view() == self.pairs(),
    {
        let mut r: Vec<(String, String)> = Vec::new();
        let mut i: usize = 0;
        let n = self.entries.len();
        while i < n
            invariant
                i <= n,
                n == self.entries@.len(),
                r.deep_view() == self.pairs().subrange(0, i as int),
                forall|j: int|
                    0 <= j < n ==> #[trigger] self.pairs()[j] == (
                        self.entries@[j].0@,
                        self.entries@[j].1@,
                    ),
            decreases n - i,
        {
            let ghost before = r.deep_view();
            r.push((self.entries[i].0.clone(), self.entries[i].1.clone()));
            proof {
                assert(r.deep_view() =~= before.push(self.pairs()[i as int]));
                assert(before.push(self.pairs()[i as int]) =~= self.pairs().subrange(0, i + 1));
            }
            i = i + 1;
        }
        proof {
            assert(self.pairs().subrange(0, n as int) =~= self.pairs());
        }
        r
    }

    /// The keys held, in storage order.
    pub fn keys(&self) -> (r: Vec<String>)
        ensures
            r.deep_view() == self.pairs().map_values(|p: (Seq<char>, Seq<char>)| p.0),
    {
        let mut r: Vec<String> = Vec::new();
        let mut i: usize = 0;
        let n = self.entries.len();
        while i < n
            invariant
                i <= n,
                n == self.entries@.len(),
                r.deep_view() == self.pairs().subrange(0, i as int).map_values(
                    |p: (Seq<char>, Seq<char>)| p.0,
                ),
                forall|j: int|
                    0 <= j < n ==> #[trigger] self.pairs()[j] == (
                        self.entries@[j].0@,
                        self.entries@[j].1@,
                    ),
            decreases n - i,
        {
            let ghost before = r.deep_view();
            r.push(self.entries[i].0.clone());
            proof {
                assert(r.deep_view() =~= before.push(self.pairs()[i as int].0));
                assert(before.push(self.pairs()[i as int].0) =~= self.pairs().subrange(
                    0,
                    i + 1,
                ).map_values(|p: (Seq<char>, Seq<char>)| p.0));
            }
            i = i + 1;
        }
        proof {
            assert(self.pairs().subrange(0, n as int) =~= self.pairs());
        }
        r
    }

    /// Builds a store from a pair list, later entries overriding earlier ones.
    pub fn from_pairs(v: &Vec<(String, String)>) -> (r: Store)
        ensures
            r.wf(),
            r.as_map() == pairs_to_map(v.deep_view()),
    {
        let mut r = Store::new();
        let mut i: usize = 0;
        let n = v.len();
        proof {
            assert(v.deep_view().subrange(0, 0) =~= Seq::<(Seq<char>, Seq<char>)>::empty());
        }
        while i < n
            invariant
                i <= n,
                n == v@.len(),
                v.deep_view().len() == n,
                r.wf(),
                r.as_map() == pairs_to_map(v.deep_view().subrange(0, i as int)),
                forall|j: int|
                    0 <= j < n ==> #[trigger] v.deep_view()[j] == (v@[j].0@, v@[j].1@),
            decreases n - i,
        {
            r.set_value(v[i].0.as_str(), v[i].1.as_str());
            proof {
                let dv = v.deep_view();
                assert(dv.subrange(0, i + 1).drop_last() =~= dv.subrange(0, i as int));
                assert(dv.subrange(0, i + 1).last() == dv[i as int]);
            }
            i = i + 1;
        }
        proof {
            assert(v.deep_view().subrange(0, n as int) =~= v.deep_view());
        }
        r
    }
}

} // verus!
