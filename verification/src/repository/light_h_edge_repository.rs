//! The repository facade for `LightHyperEdge` records: CRUD over one
//! keyspace of the persistence gateway, with the record codec in between.

use crate::codec::light_records::{
    decode_light, enc_light, encode_light, lemma_decode_encode_light, spec_decode_light,
};
use crate::entity::light_h_edge::{LightHyperEdge, LightHyperEdgeView};
use crate::errors::HgError;
use crate::store::{pairs_enumerate, KvStore};
use vstd::prelude::*;

verus! {

/// What reading `k` from a store holding `m` yields as a light hyperedge
/// record: nothing when the key is absent or its payload does not decode.
pub open spec fn lookup_light(m: Map<Seq<char>, Seq<char>>, k: Seq<char>) -> Option<
    LightHyperEdgeView,
> {
    if m.contains_key(k) {
        spec_decode_light(m[k])
    } else {
        None
    }
}

/// The light hyperedge records among the payloads of `ps`, in listing
/// order; payloads that do not decode are left out.
pub open spec fn decoded_light_all(ps: Seq<(Seq<char>, Seq<char>)>) -> Seq<LightHyperEdgeView>
    decreases ps.len(),
{
    if ps.len() == 0 {
        Seq::empty()
    } else {
        decoded_light_all(ps.drop_last()) + (match spec_decode_light(ps.last().1) {
            Some(v) => seq![v],
            None => Seq::empty(),
        })
    }
}

/// A listed payload that decodes appears among the decoded records.
proof fn lemma_decoded_light_all_contains(ps: Seq<(Seq<char>, Seq<char>)>, i: int)
    requires
        0 <= i < ps.len(),
        spec_decode_light(ps[i].1) is Some,
    ensures
        exists|j: int|
            0 <= j < decoded_light_all(ps).len() && decoded_light_all(ps)[j]
                == spec_decode_light(ps[i].1)->Some_0,
    decreases ps.len(),
{
    let t = ps.drop_last();
    let d = decoded_light_all(ps);
    if i == ps.len() - 1 {
        assert(d[d.len() - 1] == spec_decode_light(ps[i].1)->Some_0);
    } else {
        assert(t[i] == ps[i]);
        lemma_decoded_light_all_contains(t, i);
        let j = choose|j: int|
            0 <= j < decoded_light_all(t).len() && decoded_light_all(t)[j]
                == spec_decode_light(t[i].1)->Some_0;
        assert(d[j] == decoded_light_all(t)[j]);
    }
}

/// Best-effort reading keeps every readable record: a stored payload that
/// decodes as a record appears in what a faithful listing of the store
/// decodes to, and so in the result of reading everything.
pub proof fn lemma_get_all_keeps_decodable_light(
    ps: Seq<(Seq<char>, Seq<char>)>,
    m: Map<Seq<char>, Seq<char>>,
    k: Seq<char>,
)
    requires
        pairs_enumerate(ps, m),
        m.contains_key(k),
        spec_decode_light(m[k]) is Some,
    ensures
        exists|j: int|
            0 <= j < decoded_light_all(ps).len() && decoded_light_all(ps)[j]
                == spec_decode_light(m[k])->Some_0,
{
    let i = choose|i: int| 0 <= i < ps.len() && ps[i].0 == k;
    assert(ps[i].1 == m[k]);
    lemma_decoded_light_all_contains(ps, i);
}

/// CRUD lifecycle, creation half: storing a record under a key and reading
/// that key back yields exactly that record.
pub proof fn lemma_light_create_then_get(
    m: Map<Seq<char>, Seq<char>>,
    k: Seq<char>,
    e: LightHyperEdgeView,
)
    ensures
        lookup_light(m.insert(k, enc_light(e)), k) == Some(e),
{
    lemma_decode_encode_light(e);
}

/// CRUD lifecycle, deletion half: after deleting a key, reading it back
/// yields nothing. Deleting an absent key is itself no error: `delete`
/// carries no requirement on the key's presence.
pub proof fn lemma_light_delete_then_get(m: Map<Seq<char>, Seq<char>>, k: Seq<char>)
    ensures
        lookup_light(m.remove(k), k) is None,
{
}

/// An update wholly replaces the prior record: storing `e1` then `e2`
/// under one key leaves the store exactly as storing `e2` alone would
/// have, and the key reads back as `e2` with nothing of `e1` merged in.
pub proof fn lemma_light_update_replaces(
    m: Map<Seq<char>, Seq<char>>,
    k: Seq<char>,
    e1: LightHyperEdgeView,
    e2: LightHyperEdgeView,
)
    ensures
        m.insert(k, enc_light(e1)).insert(k, enc_light(e2)) == m.insert(k, enc_light(e2)),
        lookup_light(m.insert(k, enc_light(e1)).insert(k, enc_light(e2)), k) == Some(e2),
{
    assert(m.insert(k, enc_light(e1)).insert(k, enc_light(e2)) =~= m.insert(k, enc_light(e2)));
    lemma_decode_encode_light(e2);
}

/// A repository of light hyperedge records over one keyspace of the
/// persistence gateway.
pub struct LightHyperEdgeRepository {
    store: KvStore,
    #[allow(dead_code)]
    db_path: String,
}

impl View for LightHyperEdgeRepository {
    type V = Map<Seq<char>, Seq<char>>;

    closed spec fn view(&self) -> Map<Seq<char>, Seq<char>> {
        self.store@
    }
}

impl LightHyperEdgeRepository {
    /// The store behind the facade keys at most one payload per key.
    pub closed spec fn wf(self) -> bool {
        self.store.wf()
    }

    /// Opens a repository: the given location is recorded, and the
    /// keyspace starts empty.
    pub fn new(db_path: &str) -> (r: Result<LightHyperEdgeRepository, HgError>)
        ensures
            r is Ok,
            r matches Ok(repo) ==> repo.wf() && repo@ == Map::<Seq<char>, Seq<char>>::empty(),
    {
        Ok(LightHyperEdgeRepository { store: KvStore::new(), db_path: db_path.to_owned() })
    }

    /// Stores `edge` under `key`, overwriting silently whatever was there:
    /// last writer wins.
    pub fn create(&mut self, key: &str, edge: &LightHyperEdge) -> (r: Result<(), HgError>)
        requires
            old(self).wf(),
        ensures
            final(self).wf(),
            r is Ok,
            final(self)@ == old(self)@.insert(key@, enc_light(edge@)),
    {
        let payload = encode_light(edge);
        self.store.put(key, payload);
        Ok(())
    }

    /// Reads the record stored under `key`: absent keys yield nothing, a
    /// payload that does not decode as a light hyperedge record is an
    /// error.
    pub fn get_by_key(&self, key: &str) -> (r: Result<Option<LightHyperEdge>, HgError>)
        requires
            self.wf(),
        ensures
            !self@.contains_key(key@) ==> (r matches Ok(o) && o is None),
            self@.contains_key(key@) ==> match spec_decode_light(self@[key@]) {
                Some(v) => r matches Ok(o) && (o matches Some(e) && e@ == v),
                None => r matches Err(er) && er == HgError::DeserializationError,
            },
    {
        match self.store.get(key) {
            Some(payload) => match decode_light(payload.as_str()) {
                Some(e) => Ok(Some(e)),
                None => Err(HgError::DeserializationError),
            },
            None => Ok(None),
        }
    }

    /// Reads every stored record that decodes as a light hyperedge record,
    /// in keyspace listing order; payloads that do not decode are skipped,
    /// so the result is a best-effort subset of a keyspace shared with
    /// other record shapes.
    pub fn get_all(&self) -> (r: Result<Vec<LightHyperEdge>, HgError>)
        requires
            self.wf(),
        ensures
            r is Ok,
            r matches Ok(es) ==> exists|ps: Seq<(Seq<char>, Seq<char>)>|
                pairs_enumerate(ps, self@) && es.deep_view() == decoded_light_all(ps),
    {
        let pairs = self.store.scan();
        let mut es: Vec<LightHyperEdge> = Vec::new();
        let mut k: usize = 0;
        while k < pairs.len()
            invariant
                k <= pairs@.len(),
                es.deep_view() == decoded_light_all(pairs.deep_view().take(k as int)),
            decreases pairs@.len() - k,
        {
            let ghost prefix = pairs.deep_view().take(k as int);
            match decode_light(pairs[k].1.as_str()) {
                Some(e) => {
                    es.push(e);
                },
                None => {},
            }
            proof {
                let next = pairs.deep_view().take(k as int + 1);
                assert(next.drop_last() =~= prefix);
                assert(next.last() == pairs.deep_view()[k as int]);
                assert(pairs.deep_view()[k as int].1 == pairs@[k as int].1@);
                assert(es.deep_view() =~= decoded_light_all(next));
            }
            k += 1;
        }
        proof {
            assert(pairs.deep_view().take(pairs@.len() as int) =~= pairs.deep_view());
            assert(pairs_enumerate(pairs.deep_view(), self@));
        }
        Ok(es)
    }

    /// Replaces the record under `key` wholly; an update is a `create`.
    pub fn update(&mut self, key: &str, edge: &LightHyperEdge) -> (r: Result<(), HgError>)
        requires
            old(self).wf(),
        ensures
            final(self).wf(),
            r is Ok,
            final(self)@ == old(self)@.insert(key@, enc_light(edge@)),
    {
        self.create(key, edge)
    }

    /// Removes the record under `key`; deleting an absent key succeeds.
    pub fn delete(&mut self, key: &str) -> (r: Result<(), HgError>)
        requires
            old(self).wf(),
        ensures
            final(self).wf(),
            r is Ok,
            final(self)@ == old(self)@.remove(key@),
    {
        self.store.delete(key);
        Ok(())
    }
}

} // verus!
