//! A map from strings to strings, kept as a list of entries with distinct keys.
use vstd::prelude::*;

use crate::text::str_eq;

verus! {

/// The views of a list of string pairs.
pub open spec fn pair_views(es: Seq<(String, String)>) -> Seq<(Seq<char>, Seq<char>)> {
    es.map_values(|p: (String, String)| (p.0@, p.1@))
}

/// The value that the last entry with key `k` holds.
pub open spec fn lookup(es: Seq<(Seq<char>, Seq<char>)>, k: Seq<char>) -> Option<Seq<char>>
    decreases es.len(),
{
    if es.len() == 0 {
        None
    } else if es.last().0 == k {
        Some(es.last().1)
    } else {
        lookup(es.drop_last(), k)
    }
}

/// The map that a list of entries stands for; a later entry wins over an earlier one.
pub open spec fn map_of(es: Seq<(Seq<char>, Seq<char>)>) -> Map<Seq<char>, Seq<char>> {
    Map::new(|k: Seq<char>| lookup(es, k) is Some, |k: Seq<char>| lookup(es, k)->0)
}

/// No two entries share a key.
pub open spec fn keys_distinct(es: Seq<(Seq<char>, Seq<char>)>) -> bool {
    forall|i: int, j: int| 0 <= i < j < es.len() ==> #[trigger] es[i].0 != #[trigger] es[j].0
}

/// `lookup` finds the entry with the key, and only that one.
pub proof fn lemma_lookup(es: Seq<(Seq<char>, Seq<char>)>, k: Seq<char>)
    ensures
        lookup(es, k) matches Some(v) ==> exists|i: int| 0 <= i < es.len() && #[trigger] es[i] == (k, v),
        lookup(es, k) is None ==> forall|i: int| 0 <= i < es.len() ==> #[trigger] es[i].0 != k,
        keys_distinct(es) ==> forall|i: int| 0 <= i < es.len() && #[trigger] es[i].0 == k ==> lookup(es, k) == Some(es[i].1),
    decreases es.len(),
{
    if es.len() > 0 {
        let d = es.drop_last();
        let n = es.len() - 1;
        lemma_lookup(d, k);
        assert forall|i: int| 0 <= i < n implies #[trigger] es[i] == d[i] by {}
        if es.last().0 != k {
            if let Some(v) = lookup(es, k) {
                let i = choose|i: int| 0 <= i < d.len() && #[trigger] d[i] == (k, v);
                assert(es[i] == (k, v));
            } else {
                assert forall|i: int| 0 <= i < es.len() implies #[trigger] es[i].0 != k by {
                    if i < n {
                        assert(es[i] == d[i]);
                    }
                }
            }
            if keys_distinct(es) {
                assert(keys_distinct(d)) by {
                    assert forall|i: int, j: int| 0 <= i < j < d.len() implies #[trigger] d[i].0 != #[trigger] d[j].0 by {
                        assert(es[i] == d[i]);
                        assert(es[j] == d[j]);
                    }
                }
                assert forall|i: int| 0 <= i < es.len() && #[trigger] es[i].0 == k implies lookup(es, k) == Some(es[i].1) by {
                    assert(es[i] == d[i]);
                }
            }
        } else {
            if keys_distinct(es) {
                assert forall|i: int| 0 <= i < es.len() && #[trigger] es[i].0 == k implies lookup(es, k) == Some(es[i].1) by {
                    if i < n {
                        assert(es[i].0 != es[n].0);
                    }
                }
            }
        }
    }
}

/// Appending an entry stores its value under its key.
pub proof fn lemma_map_of_push(es: Seq<(Seq<char>, Seq<char>)>, k: Seq<char>, v: Seq<char>)
    ensures
        map_of(es.push((k, v))) == map_of(es).insert(k, v),
{
    assert(es.push((k, v)).drop_last() =~= es);
    assert(map_of(es.push((k, v))) =~= map_of(es).insert(k, v));
}

/// A map from strings to strings: the environment of a process, the settings read
/// from a tool, the proxy servers by protocol.
pub struct StrMap {
    entries: Vec<(String, String)>,
}

impl StrMap {
    /// The entries, as views, in the order in which their keys were first inserted.
    pub closed spec fn entries_view(&self) -> Seq<(Seq<char>, Seq<char>)> {
        pair_views(self.entries@)
    }

    #[verifier::type_invariant]
    closed spec fn inv(self) -> bool {
        keys_distinct(pair_views(self.entries@))
    }
}

impl View for StrMap {
    type V = Map<Seq<char>, Seq<char>>;

    closed spec fn view(&self) -> Map<Seq<char>, Seq<char>> {
        map_of(self.entries_view())
    }
}

impl StrMap {
    /// The empty map.
    pub fn new() -> (m: StrMap)
        ensures
            m@ == Map::<Seq<char>, Seq<char>>::empty(),
    {
        let m = StrMap { entries: Vec::new() };
        assert(m@ =~= Map::<Seq<char>, Seq<char>>::empty());
        m
    }

    fn index_of(&self, k: &str) -> (r: Option<usize>)
        ensures
            r matches Some(i) ==> i < self.entries_view().len() && self.entries_view()[i as int].0 == k@,
            r is None ==> forall|i: int| 0 <= i < self.entries_view().len() ==> #[trigger] self.entries_view()[i].0 != k@,
    {
        let mut i: usize = 0;
        while i < self.entries.len()
            invariant
                i <= self.entries.len(),
                forall|j: int| 0 <= j < i ==> #[trigger] self.entries_view()[j].0 != k@,
            decreases self.entries.len() - i,
        {
            if str_eq(self.entries[i].0.as_str(), k) {
                return Some(i);
            }
            i = i + 1;
        }
        None
    }

    /// The value stored under `k`, if any.
    pub fn get(&self, k: &str) -> (r: Option<String>)
        ensures
            r matches Some(v) ==> self@.contains_key(k@) && v@ == self@[k@],
            r is None ==> !self@.contains_key(k@),
    {
        proof {
            use_type_invariant(self);
            lemma_lookup(self.entries_view(), k@);
        }
        match self.index_of(k) {
            Some(i) => {
                let v = self.entries[i].1.clone();
                Some(v)
            },
            None => {
                proof {
                    if let Some(v) = lookup(self.entries_view(), k@) {
                        let i = choose|i: int| 0 <= i < self.entries_view().len() && #[trigger] self.entries_view()[i] == (k@, v);
                        assert(self.entries_view()[i].0 != k@);
                    }
                }
                None
            },
        }
    }

    /// The value stored under `k`, or the empty string.
    pub fn get_or_empty(&self, k: &str) -> (r: String)
        ensures
            r@ == (if self@.contains_key(k@) { self@[k@] } else { Seq::empty() }),
    {
        match self.get(k) {
            Some(v) => v,
            None => String::new(),
        }
    }

    /// Whether a value is stored under `k`.
    pub fn contains_key(&self, k: &str) -> (r: bool)
        ensures
            r == self@.contains_key(k@),
    {
        self.get(k).is_some()
    }

    /// Stores `v` under `k`, replacing what was there.
    pub fn insert(&mut self, k: String, v: String)
        ensures
            final(self)@ == old(self)@.insert(k@, v@),
    {
        proof {
            use_type_invariant(&*self);
        }
        let ghost es = self.entries_view();
        let idx = self.index_of(k.as_str());
        let ghost kv = k@;
        let ghost vv = v@;
        let mut entries = Vec::new();
        std::mem::swap(&mut entries, &mut self.entries);
        match idx {
            Some(i) => {
                entries.set(i, (k, v));
                proof {
                    let nes = pair_views(entries@);
                    assert(nes =~= es.update(i as int, (kv, vv)));
                    assert(keys_distinct(nes)) by {
                        assert forall|a: int, b: int| 0 <= a < b < nes.len() implies #[trigger] nes[a].0 != #[trigger] nes[b].0 by {
                            assert(es[a].0 != es[b].0);
                        }
                    }
                    assert forall|q: Seq<char>| #![trigger lookup(nes, q)] lookup(nes, q) == (if q == kv { Some(vv) } else { lookup(es, q) }) by {
                        lemma_lookup(nes, q);
                        lemma_lookup(es, q);
                        if q == kv {
                            assert(nes[i as int] == (kv, vv));
                            assert(nes[i as int].0 == q);
                        } else {
                            assert(es[i as int].0 == kv);
                            if let Some(w) = lookup(es, q) {
                                let j = choose|j: int| 0 <= j < es.len() && #[trigger] es[j] == (q, w);
                                assert(j != i);
                                assert(nes[j] == es[j]);
                                assert(nes[j].0 == q);
                                assert(lookup(nes, q) == Some(w));
                            } else {
                                if let Some(w) = lookup(nes, q) {
                                    let j = choose|j: int| 0 <= j < nes.len() && #[trigger] nes[j] == (q, w);
                                    assert(j != i);
                                    assert(nes[j] == es[j]);
                                    assert(es[j].0 == q);
                                    assert(false);
                                }
                            }
                        }
                    }
                    assert(map_of(nes) =~= map_of(es).insert(kv, vv));
                }
            },
            None => {
                entries.push((k, v));
                proof {
                    let nes = pair_views(entries@);
                    assert(nes =~= es.push((kv, vv)));
                    assert(nes.drop_last() =~= es);
                    assert(keys_distinct(nes)) by {
                        assert forall|a: int, b: int| 0 <= a < b < nes.len() implies #[trigger] nes[a].0 != #[trigger] nes[b].0 by {
                            if b < es.len() {
                                assert(es[a].0 != es[b].0);
                            } else {
                                assert(es[a].0 != kv);
                            }
                        }
                    }
                    assert(map_of(nes) =~= map_of(es).insert(kv, vv));
                }
            },
        }
        self.entries = entries;
    }

    fn copy_entries(&self) -> (r: Vec<(String, String)>)
        ensures
            pair_views(r@) == self.entries_view(),
    {
        let mut entries: Vec<(String, String)> = Vec::new();
        let mut i: usize = 0;
        while i < self.entries.len()
            invariant
                i <= self.entries.len(),
                pair_views(entries@) == pair_views(self.entries@).take(i as int),
            decreases self.entries.len() - i,
        {
            let ghost prev = entries@;
            let k = self.entries[i].0.clone();
            let v = self.entries[i].1.clone();
            entries.push((k, v));
            proof {
                assert(entries@ == prev.push(self.entries@[i as int]));
                assert(pair_views(self.entries@).take(i + 1) =~= pair_views(self.entries@).take(i as int).push(pair_views(self.entries@)[i as int]));
                assert(pair_views(entries@) =~= pair_views(self.entries@).take(i + 1));
            }
            i = i + 1;
        }
        assert(pair_views(self.entries@).take(i as int) =~= pair_views(self.entries@));
        entries
    }

    /// Stores every entry of `other` in the map, replacing what was there.
    pub fn extend(&mut self, other: &StrMap)
        ensures
            final(self)@ == old(self)@.union_prefer_right(other@),
    {
        let pairs = other.to_pairs();
        let ghost pv = pair_views(pairs@);
        let ghost start = self@;
        let mut i: usize = 0;
        assert(pv.take(0) =~= Seq::<(Seq<char>, Seq<char>)>::empty());
        assert(start.union_prefer_right(map_of(pv.take(0))) =~= start);
        while i < pairs.len()
            invariant
                i <= pairs.len(),
                pv == pair_views(pairs@),
                self@ == start.union_prefer_right(map_of(pv.take(i as int))),
            decreases pairs.len() - i,
        {
            let k = pairs[i].0.clone();
            let v = pairs[i].1.clone();
            let ghost before = self@;
            self.insert(k, v);
            proof {
                assert(pv.take(i + 1) =~= pv.take(i as int).push(pv[i as int]));
                lemma_map_of_push(pv.take(i as int), pv[i as int].0, pv[i as int].1);
                assert(self@ =~= start.union_prefer_right(map_of(pv.take(i + 1))));
            }
            i = i + 1;
        }
        assert(pv.take(pairs.len() as int) =~= pv);
    }

    /// A copy of the map.
    pub fn duplicate(&self) -> (r: StrMap)
        ensures
            r@ == self@,
            r.entries_view() == self.entries_view(),
    {
        proof {
            use_type_invariant(self);
        }
        StrMap { entries: self.copy_entries() }
    }

    /// The entries `(key, value)`, each key once, in the order of first insertion.
    pub fn to_pairs(&self) -> (r: Vec<(String, String)>)
        ensures
            pair_views(r@) == self.entries_view(),
            map_of(pair_views(r@)) == self@,
            keys_distinct(pair_views(r@)),
    {
        proof {
            use_type_invariant(self);
        }
        self.copy_entries()
    }
}

} // verus!
