use vstd::prelude::*;

verus! {

/// A pairwise reduction of a hyperedge to a binary edge between two nodes,
/// for relationship-centric views.
#[derive(Debug, Clone, PartialEq)]
pub struct Relationship {
    pub node_1: String,
    pub node_2: String,
    pub edge_properties: Vec<String>,
    pub directed: bool,
}

/// The mathematical value of a `Relationship`.
#[verifier::ext_equal]
pub ghost struct RelationshipView {
    pub node_1: Seq<char>,
    pub node_2: Seq<char>,
    pub edge_properties: Seq<Seq<char>>,
    pub directed: bool,
}

impl View for Relationship {
    type V = RelationshipView;

    open spec fn view(&self) -> RelationshipView {
        RelationshipView {
            node_1: self.node_1@,
            node_2: self.node_2@,
            edge_properties: self.edge_properties.deep_view(),
            directed: self.directed,
        }
    }
}

impl DeepView for Relationship {
    type V = RelationshipView;

    open spec fn deep_view(&self) -> RelationshipView {
        self.view()
    }
}

} // verus!
