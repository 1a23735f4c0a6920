use vstd::prelude::*;

verus! {

/// Free-form, order-significant location metadata attached to an edge.
#[derive(Debug, Clone, PartialEq)]
pub struct StructuralProperty {
    pub address: Vec<String>,
}

/// The mathematical value of a `StructuralProperty`.
#[verifier::ext_equal]
pub ghost struct StructuralPropertyView {
    pub address: Seq<Seq<char>>,
}

impl View for StructuralProperty {
    type V = StructuralPropertyView;

    open spec fn view(&self) -> StructuralPropertyView {
        StructuralPropertyView { address: self.address.deep_view() }
    }
}

impl DeepView for StructuralProperty {
    type V = StructuralPropertyView;

    open spec fn deep_view(&self) -> StructuralPropertyView {
        self.view()
    }
}

/// An ordered node/edge path; may be empty.
#[derive(Debug, Clone, PartialEq)]
pub struct Traverse {
    pub path: Vec<String>,
}

/// The mathematical value of a `Traverse`.
#[verifier::ext_equal]
pub ghost struct TraverseView {
    pub path: Seq<Seq<char>>,
}

impl View for Traverse {
    type V = TraverseView;

    open spec fn view(&self) -> TraverseView {
        TraverseView { path: self.path.deep_view() }
    }
}

impl DeepView for Traverse {
    type V = TraverseView;

    open spec fn deep_view(&self) -> TraverseView {
        self.view()
    }
}

} // verus!
