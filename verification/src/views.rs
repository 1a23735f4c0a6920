use vstd::prelude::*;

verus! {

/// A vector's element-wise view is as long as the vector, and holds each
/// element's view in place. Proofs about vectors built up by pushes call
/// this to bridge between the vector's own view and its element views.
pub proof fn lemma_vec_deep_view<T: DeepView>(v: Vec<T>)
    ensures
        v.deep_view().len() == v@.len(),
        forall|i: int| 0 <= i < v@.len() ==> v.deep_view()[i] == #[trigger] v@[i].deep_view(),
{
}

} // verus!
