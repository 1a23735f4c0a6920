use crate::errors::HgError;
use crate::ids::{ids_distinct, vec_ids_distinct};
use vstd::prelude::*;

verus! {

/// A key with the sequence of values filed under it on an edge.
#[derive(Debug, Clone, PartialEq)]
pub struct Property {
    pub key: String,
    pub value: Vec<String>,
}

/// The mathematical value of a `Property`: both sides as character sequences.
#[verifier::ext_equal]
pub ghost struct PropertyView {
    pub key: Seq<char>,
    pub value: Seq<Seq<char>>,
}

impl View for Property {
    type V = PropertyView;

    open spec fn view(&self) -> PropertyView {
        PropertyView { key: self.key@, value: self.value.deep_view() }
    }
}

impl DeepView for Property {
    type V = PropertyView;

    open spec fn deep_view(&self) -> PropertyView {
        self.view()
    }
}

/// A hyperedge: an identified, named edge over an arbitrary-size set of
/// head nodes, with a tail node set exactly when the edge is directed.
#[derive(Debug, Clone, PartialEq)]
pub struct SimpleHyperEdge {
    pub id: String,
    pub name: String,
    pub main_properties: Vec<Property>,
    pub traversable: bool,
    pub directed: bool,
    pub head_hyper_nodes: Vec<String>,
    pub tail_hyper_nodes: Option<Vec<String>>,
}

/// The mathematical value of a `SimpleHyperEdge`.
#[verifier::ext_equal]
pub ghost struct SimpleHyperEdgeView {
    pub id: Seq<char>,
    pub name: Seq<char>,
    pub main_properties: Seq<PropertyView>,
    pub traversable: bool,
    pub directed: bool,
    pub head_hyper_nodes: Seq<Seq<char>>,
    pub tail_hyper_nodes: Option<Seq<Seq<char>>>,
}

impl View for SimpleHyperEdge {
    type V = SimpleHyperEdgeView;

    open spec fn view(&self) -> SimpleHyperEdgeView {
        SimpleHyperEdgeView {
            id: self.id@,
            name: self.name@,
            main_properties: self.main_properties.deep_view(),
            traversable: self.traversable,
            directed: self.directed,
            head_hyper_nodes: self.head_hyper_nodes.deep_view(),
            tail_hyper_nodes: self.tail_hyper_nodes.deep_view(),
        }
    }
}

impl DeepView for SimpleHyperEdge {
    type V = SimpleHyperEdgeView;

    open spec fn deep_view(&self) -> SimpleHyperEdgeView {
        self.view()
    }
}

/// A well-formed shape of direction flag and node sets: a non-empty head
/// set, a tail set present exactly when the edge is directed and then
/// non-empty, and pairwise-distinct node identifiers within each set.
pub open spec fn wf_edge_shape(
    directed: bool,
    head_hyper_nodes: Seq<Seq<char>>,
    tail_hyper_nodes: Option<Seq<Seq<char>>>,
) -> bool {
    &&& head_hyper_nodes.len() > 0
    &&& (directed <==> tail_hyper_nodes is Some)
    &&& (tail_hyper_nodes matches Some(t) ==> t.len() > 0 && ids_distinct(t))
    &&& ids_distinct(head_hyper_nodes)
}

/// A hyperedge is well formed iff its direction flag and node sets form a
/// well-formed shape.
pub open spec fn wf_simple(e: SimpleHyperEdgeView) -> bool {
    wf_edge_shape(e.directed, e.head_hyper_nodes, e.tail_hyper_nodes)
}

/// Whether the given direction flag and node sets form a well-formed
/// shape; shared by the validating constructors of the edge records.
pub fn check_edge_shape(
    directed: bool,
    head_hyper_nodes: &Vec<String>,
    tail_hyper_nodes: &Option<Vec<String>>,
) -> (b: bool)
    ensures
        b == wf_edge_shape(directed, head_hyper_nodes.deep_view(), tail_hyper_nodes.deep_view()),
{
    if head_hyper_nodes.len() == 0 {
        return false;
    }
    if !vec_ids_distinct(head_hyper_nodes) {
        return false;
    }
    match tail_hyper_nodes {
        Some(t) => directed && t.len() > 0 && vec_ids_distinct(t),
        None => !directed,
    }
}

impl SimpleHyperEdge {
    /// Builds a hyperedge, rejecting a malformed shape: an empty head set,
    /// a tail set that disagrees with `directed`, an empty tail set on a
    /// directed edge, or a duplicated node identifier in either set.
    pub fn new(
        id: String,
        name: String,
        main_properties: Vec<Property>,
        traversable: bool,
        directed: bool,
        head_hyper_nodes: Vec<String>,
        tail_hyper_nodes: Option<Vec<String>>,
    ) -> (r: Result<SimpleHyperEdge, HgError>)
        ensures
            r is Ok <==> wf_edge_shape(
                directed,
                head_hyper_nodes.deep_view(),
                tail_hyper_nodes.deep_view(),
            ),
            r matches Ok(e) ==> e@ == (SimpleHyperEdgeView {
                id: id@,
                name: name@,
                main_properties: main_properties.deep_view(),
                traversable: traversable,
                directed: directed,
                head_hyper_nodes: head_hyper_nodes.deep_view(),
                tail_hyper_nodes: tail_hyper_nodes.deep_view(),
            }) && wf_simple(e@),
            r matches Err(er) ==> er == HgError::ValidationError,
    {
        if check_edge_shape(directed, &head_hyper_nodes, &tail_hyper_nodes) {
            Ok(SimpleHyperEdge {
                id,
                name,
                main_properties,
                traversable,
                directed,
                head_hyper_nodes,
                tail_hyper_nodes,
            })
        } else {
            Err(HgError::ValidationError)
        }
    }
}

} // verus!
