//! The repository facade for `SimpleHyperEdge` (and derived
//! `DualHyperEdge`) records: CRUD over one keyspace of the persistence
//! gateway, with the record codec in between.

use crate::codec::records::{
    decode_dual, decode_simple, enc_dual, enc_simple, encode_dual, encode_simple,
    lemma_decode_encode_dual, lemma_decode_encode_simple, spec_decode_dual,
    spec_decode_simple,
};
use crate::entity::dual_h_edge::{DualHyperEdge, DualHyperEdgeView};
use crate::entity::simple_h_edge::{SimpleHyperEdge, SimpleHyperEdgeView};
use crate::errors::HgError;
use crate::store::{pairs_enumerate, KvStore};
use vstd::prelude::*;

verus! {

/// What reading `k` from a store holding `m` yields as a hyperedge record:
/// nothing when the key is absent or its payload does not decode.
pub open spec fn lookup_simple(m: Map<Seq<char>, Seq<char>>, k: Seq<char>) -> Option<
    SimpleHyperEdgeView,
> {
    if m.contains_key(k) {
        spec_decode_simple(m[k])
    } else {
        None
    }
}

/// The hyperedge records among the payloads of `ps`, in listing order;
/// payloads that do not decode are left out.
pub open spec fn decoded_simple_all(ps: Seq<(Seq<char>, Seq<char>)>) -> Seq<SimpleHyperEdgeView>
    decreases ps.len(),
{
    if ps.len() == 0 {
        Seq::empty()
    } else {
        decoded_simple_all(ps.drop_last()) + (match spec_decode_simple(ps.last().1) {
            Some(v) => seq![v],
            None => Seq::empty(),
        })
    }
}

/// A listed payload that decodes appears among the decoded records.
proof fn lemma_decoded_simple_all_contains(ps: Seq<(Seq<char>, Seq<char>)>, i: int)
    requires
        0 <= i < ps.len(),
        spec_decode_simple(ps[i].1) is Some,
    ensures
        exists|j: int|
            0 <= j < decoded_simple_all(ps).len() && decoded_simple_all(ps)[j]
                == spec_decode_simple(ps[i].1)->Some_0,
    decreases ps.len(),
{
    let t = ps.drop_last();
    let d = decoded_simple_all(ps);
    if i == ps.len() - 1 {
        assert(d[d.len() - 1] == spec_decode_simple(ps[i].1)->Some_0);
    } else {
        assert(t[i] == ps[i]);
        lemma_decoded_simple_all_contains(t, i);
        let j = choose|j: int|
            0 <= j < decoded_simple_all(t).len() && decoded_simple_all(t)[j]
                == spec_decode_simple(t[i].1)->Some_0;
        assert(d[j] == decoded_simple_all(t)[j]);
    }
}

/// Best-effort reading keeps every readable record: a stored payload that
/// decodes as a record appears in what a faithful listing of the store
/// decodes to, and so in the result of reading everything.
pub proof fn lemma_get_all_keeps_decodable_simple(
    ps: Seq<(Seq<char>, Seq<char>)>,
    m: Map<Seq<char>, Seq<char>>,
    k: Seq<char>,
)
    requires
        pairs_enumerate(ps, m),
        m.contains_key(k),
        spec_decode_simple(m[k]) is Some,
    ensures
        exists|j: int|
            0 <= j < decoded_simple_all(ps).len() && decoded_simple_all(ps)[j]
                == spec_decode_simple(m[k])->Some_0,
{
    let i = choose|i: int| 0 <= i < ps.len() && ps[i].0 == k;
    assert(ps[i].1 == m[k]);
    lemma_decoded_simple_all_contains(ps, i);
}

/// CRUD lifecycle, creation half: storing a record under a key and reading
/// that key back yields exactly that record.
pub proof fn lemma_create_then_get(
    m: Map<Seq<char>, Seq<char>>,
    k: Seq<char>,
    e: SimpleHyperEdgeView,
)
    ensures
        lookup_simple(m.insert(k, enc_simple(e)), k) == Some(e),
{
    lemma_decode_encode_simple(e);
}

/// CRUD lifecycle, deletion half: after deleting a key, reading it back
/// yields nothing. Deleting an absent key is itself no error: `delete`
/// carries no requirement on the key's presence.
pub proof fn lemma_delete_then_get(m: Map<Seq<char>, Seq<char>>, k: Seq<char>)
    ensures
        lookup_simple(m.remove(k), k) is None,
{
}

/// An update wholly replaces the prior record: storing `e1` then `e2`
/// under one key leaves the store exactly as storing `e2` alone would
/// have, and the key reads back as `e2` with nothing of `e1` merged in.
pub proof fn lemma_update_replaces(
    m: Map<Seq<char>, Seq<char>>,
    k: Seq<char>,
    e1: SimpleHyperEdgeView,
    e2: SimpleHyperEdgeView,
)
    ensures
        m.insert(k, enc_simple(e1)).insert(k, enc_simple(e2)) == m.insert(k, enc_simple(e2)),
        lookup_simple(m.insert(k, enc_simple(e1)).insert(k, enc_simple(e2)), k) == Some(e2),
{
    assert(m.insert(k, enc_simple(e1)).insert(k, enc_simple(e2)) =~= m.insert(
        k,
        enc_simple(e2),
    ));
    lemma_decode_encode_simple(e2);
}

/// What reading `k` from a store holding `m` yields as a dual hyperedge
/// record: nothing when the key is absent or its payload does not decode.
pub open spec fn lookup_dual(m: Map<Seq<char>, Seq<char>>, k: Seq<char>) -> Option<
    DualHyperEdgeView,
> {
    if m.contains_key(k) {
        spec_decode_dual(m[k])
    } else {
        None
    }
}

/// Saving a dual record and reading its key back yields exactly that
/// record.
pub proof fn lemma_save_dual_then_get(
    m: Map<Seq<char>, Seq<char>>,
    d: DualHyperEdgeView,
)
    ensures
        lookup_dual(m.insert(d.id, enc_dual(d)), d.id) == Some(d),
{
    lemma_decode_encode_dual(d);
}

/// A repository of hyperedge records over one keyspace of the persistence
/// gateway. Dual records derived from stored hyperedges live in the same
/// keyspace under their own keys.
pub struct SimpleHyperEdgeRepository {
    store: KvStore,
    #[allow(dead_code)]
    db_path: String,
}

impl View for SimpleHyperEdgeRepository {
    type V = Map<Seq<char>, Seq<char>>;

    closed spec fn view(&self) -> Map<Seq<char>, Seq<char>> {
        self.store@
    }
}

impl SimpleHyperEdgeRepository {
    /// The store behind the facade keys at most one payload per key.
    pub closed spec fn wf(self) -> bool {
        self.store.wf()
    }

    /// Opens a repository: the given location is recorded, and the
    /// keyspace starts empty.
    pub fn new(db_path: &str) -> (r: Result<SimpleHyperEdgeRepository, HgError>)
        ensures
            r is Ok,
            r matches Ok(repo) ==> repo.wf() && repo@ == Map::<Seq<char>, Seq<char>>::empty(),
    {
        Ok(SimpleHyperEdgeRepository { store: KvStore::new(), db_path: db_path.to_owned() })
    }

    /// Stores `edge` under `key`, overwriting silently whatever was there:
    /// last writer wins.
    pub fn create(&mut self, key: &str, edge: &SimpleHyperEdge) -> (r: Result<(), HgError>)
        requires
            old(self).wf(),
        ensures
            final(self).wf(),
            r is Ok,
            final(self)@ == old(self)@.insert(key@, enc_simple(edge@)),
    {
        let payload = encode_simple(edge);
        self.store.put(key, payload);
        Ok(())
    }

    /// Reads the record stored under `key`: absent keys yield nothing, a
    /// payload that does not decode as a hyperedge record is an error.
    pub fn get_by_key(&self, key: &str) -> (r: Result<Option<SimpleHyperEdge>, HgError>)
        requires
            self.wf(),
        ensures
            !self@.contains_key(key@) ==> (r matches Ok(o) && o is None),
            self@.contains_key(key@) ==> match spec_decode_simple(self@[key@]) {
                Some(v) => r matches Ok(o) && (o matches Some(e) && e@ == v),
                None => r matches Err(er) && er == HgError::DeserializationError,
            },
    {
        match self.store.get(key) {
            Some(payload) => match decode_simple(payload.as_str()) {
                Some(e) => Ok(Some(e)),
                None => Err(HgError::DeserializationError),
            },
            None => Ok(None),
        }
    }

    /// Replaces the record under `key` wholly; an update is a `create`.
    pub fn update(&mut self, key: &str, edge: &SimpleHyperEdge) -> (r: Result<(), HgError>)
        requires
            old(self).wf(),
        ensures
            final(self).wf(),
            r is Ok,
            final(self)@ == old(self)@.insert(key@, enc_simple(edge@)),
    {
        self.create(key, edge)
    }

    /// Removes the record under `key`; deleting an absent key succeeds.
    pub fn delete(&mut self, key: &str) -> (r: Result<(), HgError>)
        requires
            old(self).wf(),
        ensures
            final(self).wf(),
            r is Ok,
            final(self)@ == old(self)@.remove(key@),
    {
        self.store.delete(key);
        Ok(())
    }

    /// Reads every stored record that decodes as a hyperedge record, in
    /// keyspace listing order; payloads that do not decode are skipped, so
    /// the result is a best-effort subset of a keyspace shared with other
    /// record shapes.
    pub fn get_all(&self) -> (r: Result<Vec<SimpleHyperEdge>, HgError>)
        requires
            self.wf(),
        ensures
            r is Ok,
            r matches Ok(es) ==> exists|ps: Seq<(Seq<char>, Seq<char>)>|
                pairs_enumerate(ps, self@) && es.deep_view() == decoded_simple_all(ps),
    {
        let pairs = self.store.scan();
        let mut es: Vec<SimpleHyperEdge> = Vec::new();
        let mut k: usize = 0;
        while k < pairs.len()
            invariant
                k <= pairs@.len(),
                es.deep_view() == decoded_simple_all(pairs.deep_view().take(k as int)),
            decreases pairs@.len() - k,
        {
            let ghost prefix = pairs.deep_view().take(k as int);
            match decode_simple(pairs[k].1.as_str()) {
                Some(e) => {
                    es.push(e);
                },
                None => {},
            }
            proof {
                let next = pairs.deep_view().take(k as int + 1);
                assert(next.drop_last() =~= prefix);
                assert(next.last() == pairs.deep_view()[k as int]);
                assert(pairs.deep_view()[k as int].1 == pairs@[k as int].1@);
                assert(es.deep_view() =~= decoded_simple_all(next));
            }
            k += 1;
        }
        proof {
            assert(pairs.deep_view().take(pairs@.len() as int) =~= pairs.deep_view());
            assert(pairs_enumerate(pairs.deep_view(), self@));
        }
        Ok(es)
    }

    /// Reads the record stored under `key` as a dual hyperedge record.
    pub fn get_dual_by_key(&self, key: &str) -> (r: Result<Option<DualHyperEdge>, HgError>)
        requires
            self.wf(),
        ensures
            !self@.contains_key(key@) ==> (r matches Ok(o) && o is None),
            self@.contains_key(key@) ==> match spec_decode_dual(self@[key@]) {
                Some(v) => r matches Ok(o) && (o matches Some(e) && e@ == v),
                None => r matches Err(er) && er == HgError::DeserializationError,
            },
    {
        match self.store.get(key) {
            Some(payload) => match decode_dual(payload.as_str()) {
                Some(e) => Ok(Some(e)),
                None => Err(HgError::DeserializationError),
            },
            None => Ok(None),
        }
    }

    /// Stores the dual record under its own id as key.
    pub fn save_dual(&mut self, dual_edge: DualHyperEdge) -> (r: Result<(), HgError>)
        requires
            old(self).wf(),
        ensures
            final(self).wf(),
            r is Ok,
            final(self)@ == old(self)@.insert(dual_edge.id@, enc_dual(dual_edge@)),
    {
        let key = dual_edge.id.clone();
        let payload = encode_dual(&dual_edge);
        self.store.put(key.as_str(), payload);
        Ok(())
    }

    /// The gateway's put, verbatim: stores the payload under the key as
    /// any other writer sharing this keyspace would, bypassing the codec.
    pub fn put_raw(&mut self, key: &str, value: &str)
        requires
            old(self).wf(),
        ensures
            final(self).wf(),
            final(self)@ == old(self)@.insert(key@, value@),
    {
        self.store.put(key, value.to_owned());
    }
}

} // verus!
