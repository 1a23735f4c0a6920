use crate::entity::relationship::{Relationship, RelationshipView};
use crate::entity::simple_h_edge::{wf_simple, SimpleHyperEdge, SimpleHyperEdgeView};
use crate::entity::structure::{
    StructuralProperty, StructuralPropertyView, Traverse, TraverseView,
};
use crate::errors::HgError;
use vstd::prelude::*;

verus! {

/// A hyperedge bundled with auxiliary metadata: structural properties, a
/// pairwise relationship view, and a traversal path. Composition, not
/// inheritance: the record owns one `SimpleHyperEdge`.
#[derive(Debug, Clone, PartialEq)]
pub struct LightHyperEdge {
    pub id: String,
    pub simple_hyper_edge: SimpleHyperEdge,
    pub structural_properties: Vec<StructuralProperty>,
    pub relationship: Relationship,
    pub traverse: Traverse,
}

/// The mathematical value of a `LightHyperEdge`.
#[verifier::ext_equal]
pub ghost struct LightHyperEdgeView {
    pub id: Seq<char>,
    pub simple_hyper_edge: SimpleHyperEdgeView,
    pub structural_properties: Seq<StructuralPropertyView>,
    pub relationship: RelationshipView,
    pub traverse: TraverseView,
}

impl View for LightHyperEdge {
    type V = LightHyperEdgeView;

    open spec fn view(&self) -> LightHyperEdgeView {
        LightHyperEdgeView {
            id: self.id@,
            simple_hyper_edge: self.simple_hyper_edge@,
            structural_properties: self.structural_properties.deep_view(),
            relationship: self.relationship@,
            traverse: self.traverse@,
        }
    }
}

impl DeepView for LightHyperEdge {
    type V = LightHyperEdgeView;

    open spec fn deep_view(&self) -> LightHyperEdgeView {
        self.view()
    }
}

/// A light hyperedge is well formed iff the hyperedge it owns is.
pub open spec fn wf_light(e: LightHyperEdgeView) -> bool {
    wf_simple(e.simple_hyper_edge)
}

impl LightHyperEdge {
    /// Builds a light hyperedge, rejecting one whose owned hyperedge is
    /// malformed.
    pub fn new(
        id: String,
        simple_hyper_edge: SimpleHyperEdge,
        structural_properties: Vec<StructuralProperty>,
        relationship: Relationship,
        traverse: Traverse,
    ) -> (r: Result<LightHyperEdge, HgError>)
        ensures
            r is Ok <==> wf_simple(simple_hyper_edge@),
            r matches Ok(e) ==> e@ == (LightHyperEdgeView {
                id: id@,
                simple_hyper_edge: simple_hyper_edge@,
                structural_properties: structural_properties.deep_view(),
                relationship: relationship@,
                traverse: traverse@,
            }) && wf_light(e@),
            r matches Err(er) ==> er == HgError::ValidationError,
    {
        if crate::entity::simple_h_edge::check_edge_shape(
            simple_hyper_edge.directed,
            &simple_hyper_edge.head_hyper_nodes,
            &simple_hyper_edge.tail_hyper_nodes,
        ) {
            Ok(LightHyperEdge {
                id,
                simple_hyper_edge,
                structural_properties,
                relationship,
                traverse,
            })
        } else {
            Err(HgError::ValidationError)
        }
    }
}

} // verus!
