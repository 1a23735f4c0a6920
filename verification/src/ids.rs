use vstd::prelude::*;

verus! {

/// True iff the identifier `x` occurs in `ids`.
pub open spec fn id_in(ids: Seq<Seq<char>>, x: Seq<char>) -> bool {
    exists|i: int| 0 <= i < ids.len() && ids[i] == x
}

/// True iff no identifier occurs twice in `ids`.
pub open spec fn ids_distinct(ids: Seq<Seq<char>>) -> bool {
    forall|i: int, j: int| 0 <= i < j < ids.len() ==> ids[i] != ids[j]
}

/// Whether the string `x` occurs in `v`.
pub fn vec_contains_id(v: &Vec<String>, x: &String) -> (b: bool)
    ensures
        b == id_in(v.deep_view(), x@),
{
    let mut k: usize = 0;
    while k < v.len()
        invariant
            0 <= k <= v.len(),
            forall|i: int| 0 <= i < k ==> v.deep_view()[i] != x@,
        decreases v.len() - k,
    {
        if v[k] == *x {
            assert(v.deep_view()[k as int] == x@);
            return true;
        }
        k += 1;
    }
    false
}

/// Whether all strings in `v` are pairwise distinct.
pub fn vec_ids_distinct(v: &Vec<String>) -> (b: bool)
    ensures
        b == ids_distinct(v.deep_view()),
{
    let mut k: usize = 0;
    while k < v.len()
        invariant
            0 <= k <= v.len(),
            forall|i: int, j: int|
                0 <= i < j < v.deep_view().len() && i < k ==> v.deep_view()[i] != v.deep_view()[j],
        decreases v.len() - k,
    {
        let mut l: usize = k + 1;
        while l < v.len()
            invariant
                k < v.len(),
                k + 1 <= l <= v.len(),
                forall|i: int, j: int|
                    0 <= i < j < v.deep_view().len() && i < k ==> v.deep_view()[i]
                        != v.deep_view()[j],
                forall|j: int| k < j < l ==> v.deep_view()[k as int] != v.deep_view()[j],
            decreases v.len() - l,
        {
            if v[k] == v[l] {
                assert(v.deep_view()[k as int] == v.deep_view()[l as int]);
                return false;
            }
            l += 1;
        }
        k += 1;
    }
    true
}

} // verus!
