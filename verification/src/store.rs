//! The persistence gateway: an embedded key-value store holding textual
//! payloads under string keys, modelled as a map from key character
//! sequences to payload character sequences. The store keeps its entries
//! in process memory: one entry list, at most one payload per key.

use vstd::prelude::*;

verus! {

/// Distinctness of the keys of a store's entry list.
pub open spec fn store_keys_distinct(s: Seq<(String, String)>) -> bool {
    forall|i: int, j: int| 0 <= i < j < s.len() ==> s[i].0@ != s[j].0@
}

/// The map held by an entry list: later entries win, though a well-formed
/// store never keys two entries alike.
pub open spec fn map_of(s: Seq<(String, String)>) -> Map<Seq<char>, Seq<char>>
    decreases s.len(),
{
    if s.len() == 0 {
        Map::empty()
    } else {
        map_of(s.drop_last()).insert(s.last().0@, s.last().1@)
    }
}

/// A key is in the map iff some entry carries it.
pub proof fn lemma_map_of_contains(s: Seq<(String, String)>, k: Seq<char>)
    ensures
        map_of(s).contains_key(k) <==> exists|i: int| 0 <= i < s.len() && s[i].0@ == k,
    decreases s.len(),
{
    if s.len() > 0 {
        let t = s.drop_last();
        lemma_map_of_contains(t, k);
        if s.last().0@ == k {
            assert(s[s.len() - 1].0@ == k);
        } else {
            if exists|i: int| 0 <= i < s.len() && s[i].0@ == k {
                let i = choose|i: int| 0 <= i < s.len() && s[i].0@ == k;
                assert(i < s.len() - 1);
                assert(t[i].0@ == k);
            }
            if map_of(t).contains_key(k) {
                let i = choose|i: int| 0 <= i < t.len() && t[i].0@ == k;
                assert(s[i].0@ == k);
            }
        }
    }
}

/// With distinct keys, each entry's key maps to that entry's payload.
pub proof fn lemma_map_of_index(s: Seq<(String, String)>, i: int)
    requires
        store_keys_distinct(s),
        0 <= i < s.len(),
    ensures
        map_of(s).contains_key(s[i].0@),
        map_of(s)[s[i].0@] == s[i].1@,
    decreases s.len(),
{
    let t = s.drop_last();
    if i == s.len() - 1 {
    } else {
        assert(store_keys_distinct(t)) by {
            assert(forall|a: int, b: int|
                0 <= a < b < t.len() ==> t[a].0@ == s[a].0@ && t[b].0@ == s[b].0@);
        }
        lemma_map_of_index(t, i);
        assert(s[i].0@ != s.last().0@);
    }
}

/// With distinct keys, the map is finite and has one entry per list item.
pub proof fn lemma_map_of_len(s: Seq<(String, String)>)
    requires
        store_keys_distinct(s),
    ensures
        map_of(s).dom().finite(),
        map_of(s).len() == s.len(),
    decreases s.len(),
{
    if s.len() > 0 {
        let t = s.drop_last();
        assert(store_keys_distinct(t)) by {
            assert(forall|a: int, b: int|
                0 <= a < b < t.len() ==> t[a].0@ == s[a].0@ && t[b].0@ == s[b].0@);
        }
        lemma_map_of_len(t);
        lemma_map_of_contains(t, s.last().0@);
        assert(!map_of(t).contains_key(s.last().0@)) by {
            if exists|i: int| 0 <= i < t.len() && t[i].0@ == s.last().0@ {
                let i = choose|i: int| 0 <= i < t.len() && t[i].0@ == s.last().0@;
                assert(s[i].0@ == s[s.len() - 1].0@);
            }
        }
        assert(map_of(s).dom() =~= map_of(t).dom().insert(s.last().0@));
        vstd::set::axiom_set_insert_len(map_of(t).dom(), s.last().0@);
    }
}

/// Appending a fresh entry inserts its pair into the map.
pub proof fn lemma_map_of_push(s: Seq<(String, String)>, p: (String, String))
    ensures
        map_of(s.push(p)) == map_of(s).insert(p.0@, p.1@),
{
    assert(s.push(p).drop_last() =~= s);
    assert(s.push(p).last() == p);
}

/// Removing the entry at `k` removes its key from the map.
pub proof fn lemma_map_of_remove(s: Seq<(String, String)>, k: int)
    requires
        store_keys_distinct(s),
        0 <= k < s.len(),
    ensures
        map_of(s.remove(k)) == map_of(s).remove(s[k].0@),
    decreases s.len(),
{
    let t = s.drop_last();
    assert(store_keys_distinct(t)) by {
        assert(forall|a: int, b: int|
            0 <= a < b < t.len() ==> t[a].0@ == s[a].0@ && t[b].0@ == s[b].0@);
    }
    if k == s.len() - 1 {
        assert(s.remove(k) =~= t);
        lemma_map_of_contains(t, s.last().0@);
        assert(!map_of(t).contains_key(s.last().0@)) by {
            if exists|i: int| 0 <= i < t.len() && t[i].0@ == s.last().0@ {
                let i = choose|i: int| 0 <= i < t.len() && t[i].0@ == s.last().0@;
                assert(s[i].0@ == s[s.len() - 1].0@);
            }
        }
        assert(map_of(s).remove(s[k].0@) =~= map_of(t));
    } else {
        lemma_map_of_remove(t, k);
        assert(s.remove(k).drop_last() =~= t.remove(k));
        assert(s.remove(k).last() == s.last());
        assert(map_of(s.remove(k)) == map_of(t.remove(k)).insert(s.last().0@, s.last().1@));
        assert(s[k].0@ != s.last().0@);
        assert(map_of(t).remove(s[k].0@).insert(s.last().0@, s.last().1@) =~= map_of(t).insert(
            s.last().0@,
            s.last().1@,
        ).remove(s[k].0@));
    }
}

/// A faithful listing of a map: as many pairs as the map has entries, each
/// pair present in the map, no key listed twice, and every key of the map
/// listed.
pub open spec fn pairs_enumerate(
    ps: Seq<(Seq<char>, Seq<char>)>,
    m: Map<Seq<char>, Seq<char>>,
) -> bool {
    &&& m.dom().finite()
    &&& ps.len() == m.len()
    &&& forall|i: int|
        0 <= i < ps.len() ==> m.contains_key(#[trigger] ps[i].0) && m[ps[i].0] == ps[i].1
    &&& forall|i: int, j: int| 0 <= i < j < ps.len() ==> ps[i].0 != ps[j].0
    &&& forall|k: Seq<char>|
        #[trigger] m.contains_key(k) ==> exists|i: int| 0 <= i < ps.len() && ps[i].0 == k
}

/// An embedded in-memory key-value store: string keys, textual payloads,
/// at most one payload per key.
pub struct KvStore {
    entries: Vec<(String, String)>,
}

impl View for KvStore {
    type V = Map<Seq<char>, Seq<char>>;

    closed spec fn view(&self) -> Map<Seq<char>, Seq<char>> {
        map_of(self.entries@)
    }
}

impl KvStore {
    /// At most one entry per key.
    pub closed spec fn wf(self) -> bool {
        store_keys_distinct(self.entries@)
    }

    /// An empty store.
    pub fn new() -> (r: KvStore)
        ensures
            r.wf(),
            r@ == Map::<Seq<char>, Seq<char>>::empty(),
    {
        KvStore { entries: Vec::new() }
    }

    /// The position of the entry keyed `key`, if any.
    fn find(&self, key: &String) -> (r: Option<usize>)
        requires
            self.wf(),
        ensures
            r matches Some(k) ==> k < self.entries@.len() && self.entries@[k as int].0@ == key@,
            r is None ==> forall|i: int|
                0 <= i < self.entries@.len() ==> self.entries@[i].0@ != key@,
    {
        let mut k: usize = 0;
        while k < self.entries.len()
            invariant
                k <= self.entries@.len(),
                forall|i: int| 0 <= i < k ==> self.entries@[i].0@ != key@,
            decreases self.entries@.len() - k,
        {
            if self.entries[k].0 == *key {
                return Some(k);
            }
            k += 1;
        }
        None
    }

    /// Stores `value` under `key`, replacing any payload stored there.
    pub fn put(&mut self, key: &str, value: String)
        requires
            old(self).wf(),
        ensures
            final(self).wf(),
            final(self)@ == old(self)@.insert(key@, value@),
    {
        self.delete(key);
        let ghost mid = self.entries@;
        let key_s = key.to_owned();
        self.entries.push((key_s, value));
        proof {
            lemma_map_of_push(mid, (key_s, value));
            lemma_map_of_contains(mid, key@);
            assert(!map_of(mid).contains_key(key@));
            assert(forall|i: int| 0 <= i < mid.len() ==> mid[i].0@ != key@);
            assert(self.wf());
            assert(old(self)@.remove(key@).insert(key@, value@) =~= old(self)@.insert(
                key@,
                value@,
            ));
        }
    }

    /// Removes the payload stored under `key`; removing an absent key
    /// changes nothing and is no error.
    pub fn delete(&mut self, key: &str)
        requires
            old(self).wf(),
        ensures
            final(self).wf(),
            final(self)@ == old(self)@.remove(key@),
    {
        let key_s = key.to_owned();
        match self.find(&key_s) {
            Some(k) => {
                let ghost before = self.entries@;
                self.entries.remove(k);
                proof {
                    lemma_map_of_remove(before, k as int);
                    assert(self.wf()) by {
                        assert(forall|a: int, b: int|
                            0 <= a < b < self.entries@.len() ==> self.entries@[a]
                                == before.remove(k as int)[a] && self.entries@[b] == before.remove(
                                k as int,
                            )[b]);
                    }
                }
            },
            None => {
                proof {
                    lemma_map_of_contains(self.entries@, key@);
                    assert(!self@.contains_key(key@));
                    assert(self@.remove(key@) =~= self@);
                }
            },
        }
    }

    /// The payload stored under `key`, if any.
    pub fn get(&self, key: &str) -> (r: Option<String>)
        requires
            self.wf(),
        ensures
            r is Some <==> self@.contains_key(key@),
            r matches Some(v) ==> v@ == self@[key@],
    {
        let key_s = key.to_owned();
        match self.find(&key_s) {
            Some(k) => {
                proof {
                    lemma_map_of_index(self.entries@, k as int);
                }
                Some(self.entries[k].1.clone())
            },
            None => {
                proof {
                    lemma_map_of_contains(self.entries@, key@);
                }
                None
            },
        }
    }

    /// Every stored pair, each key once.
    pub fn scan(&self) -> (r: Vec<(String, String)>)
        requires
            self.wf(),
        ensures
            pairs_enumerate(r.deep_view(), self@),
    {
        let mut r: Vec<(String, String)> = Vec::new();
        let mut k: usize = 0;
        while k < self.entries.len()
            invariant
                self.wf(),
                k <= self.entries@.len(),
                r@.len() == k,
                forall|i: int|
                    0 <= i < k ==> r@[i].0@ == self.entries@[i].0@ && r@[i].1@
                        == self.entries@[i].1@,
            decreases self.entries@.len() - k,
        {
            r.push((self.entries[k].0.clone(), self.entries[k].1.clone()));
            k += 1;
        }
        proof {
            lemma_map_of_len(self.entries@);
            assert forall|i: int| 0 <= i < r.deep_view().len() implies self@.contains_key(
                #[trigger] r.deep_view()[i].0,
            ) && self@[r.deep_view()[i].0] == r.deep_view()[i].1 by {
                lemma_map_of_index(self.entries@, i);
                assert(r.deep_view()[i].0 == r@[i].0@);
                assert(r.deep_view()[i].1 == r@[i].1@);
            }
            assert(forall|i: int, j: int|
                0 <= i < j < r.deep_view().len() ==> r.deep_view()[i].0 != r.deep_view()[j].0);
            assert forall|key: Seq<char>| #[trigger] self@.contains_key(key) implies exists|i: int|
                0 <= i < r.deep_view().len() && r.deep_view()[i].0 == key by {
                lemma_map_of_contains(self.entries@, key);
                let i = choose|i: int|
                    0 <= i < self.entries@.len() && self.entries@[i].0@ == key;
                assert(r.deep_view()[i].0 == key);
            }
        }
        r
    }
}

} // verus!
