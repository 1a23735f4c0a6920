use crate::entity::simple_h_edge::{
    check_edge_shape, wf_edge_shape, Property, PropertyView, SimpleHyperEdge, SimpleHyperEdgeView,
};
use crate::errors::HgError;
use vstd::prelude::*;

verus! {

/// The edge-centric (dual) record derived from a source hyperedge: the
/// source is retained for provenance, and the source's main properties are
/// re-interpreted as dual-side attributes.
#[derive(Debug, Clone, PartialEq)]
pub struct DualHyperEdge {
    pub id: String,
    pub name: String,
    pub simple_hyper_edge: SimpleHyperEdge,
    pub dual_properties: Vec<Property>,
    pub traversable: bool,
    pub directed: bool,
    pub head_hyper_nodes: Vec<String>,
    pub tail_hyper_nodes: Option<Vec<String>>,
}

/// The mathematical value of a `DualHyperEdge`.
#[verifier::ext_equal]
pub ghost struct DualHyperEdgeView {
    pub id: Seq<char>,
    pub name: Seq<char>,
    pub simple_hyper_edge: SimpleHyperEdgeView,
    pub dual_properties: Seq<PropertyView>,
    pub traversable: bool,
    pub directed: bool,
    pub head_hyper_nodes: Seq<Seq<char>>,
    pub tail_hyper_nodes: Option<Seq<Seq<char>>>,
}

impl View for DualHyperEdge {
    type V = DualHyperEdgeView;

    open spec fn view(&self) -> DualHyperEdgeView {
        DualHyperEdgeView {
            id: self.id@,
            name: self.name@,
            simple_hyper_edge: self.simple_hyper_edge@,
            dual_properties: self.dual_properties.deep_view(),
            traversable: self.traversable,
            directed: self.directed,
            head_hyper_nodes: self.head_hyper_nodes.deep_view(),
            tail_hyper_nodes: self.tail_hyper_nodes.deep_view(),
        }
    }
}

impl DeepView for DualHyperEdge {
    type V = DualHyperEdgeView;

    open spec fn deep_view(&self) -> DualHyperEdgeView {
        self.view()
    }
}

/// A dual hyperedge is well formed iff its own direction flag and node
/// sets form a well-formed edge shape.
pub open spec fn wf_dual(e: DualHyperEdgeView) -> bool {
    wf_edge_shape(e.directed, e.head_hyper_nodes, e.tail_hyper_nodes)
}

impl DualHyperEdge {
    /// Builds a dual hyperedge, rejecting a malformed shape of its own
    /// direction flag and node sets.
    pub fn new(
        id: String,
        name: String,
        simple_hyper_edge: SimpleHyperEdge,
        dual_properties: Vec<Property>,
        traversable: bool,
        directed: bool,
        head_hyper_nodes: Vec<String>,
        tail_hyper_nodes: Option<Vec<String>>,
    ) -> (r: Result<DualHyperEdge, HgError>)
        ensures
            r is Ok <==> wf_edge_shape(
                directed,
                head_hyper_nodes.deep_view(),
                tail_hyper_nodes.deep_view(),
            ),
            r matches Ok(e) ==> e@ == (DualHyperEdgeView {
                id: id@,
                name: name@,
                simple_hyper_edge: simple_hyper_edge@,
                dual_properties: dual_properties.deep_view(),
                traversable: traversable,
                directed: directed,
                head_hyper_nodes: head_hyper_nodes.deep_view(),
                tail_hyper_nodes: tail_hyper_nodes.deep_view(),
            }) && wf_dual(e@),
            r matches Err(er) ==> er == HgError::ValidationError,
    {
        if check_edge_shape(directed, &head_hyper_nodes, &tail_hyper_nodes) {
            Ok(DualHyperEdge {
                id,
                name,
                simple_hyper_edge,
                dual_properties,
                traversable,
                directed,
                head_hyper_nodes,
                tail_hyper_nodes,
            })
        } else {
            Err(HgError::ValidationError)
        }
    }
}

} // verus!
