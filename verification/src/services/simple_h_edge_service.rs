//! The dual-graph synthesizer: the node-by-hyperedge incidence relation,
//! its transpose, and the derivation and persistence of a hyperedge's
//! edge-centric (dual) record.

use crate::codec::records::{enc_dual, spec_decode_simple};
use crate::codec::text::chars_to_string;
use crate::entity::dual_h_edge::{DualHyperEdge, DualHyperEdgeView};
use crate::entity::simple_h_edge::{Property, SimpleHyperEdge, SimpleHyperEdgeView};
use crate::errors::HgError;
use crate::ids::{id_in, vec_contains_id};
use crate::repository::simple_h_edge_repository::SimpleHyperEdgeRepository;
use crate::views::lemma_vec_deep_view;
use vstd::prelude::*;
use vstd::string::StringExecFns;

verus! {

/// Whether node `n` is incident to edge `e`: a member of its head node set
/// or of its tail node set.
pub open spec fn spec_incident(e: SimpleHyperEdgeView, n: Seq<char>) -> bool {
    id_in(e.head_hyper_nodes, n) || (e.tail_hyper_nodes matches Some(t) && id_in(t, n))
}

/// The incidence relation of a node universe against a sequence of edges:
/// one row per node in the given order, one column per edge in the given
/// order, true where the node is incident to the edge.
pub open spec fn spec_incidence(
    nodes: Seq<Seq<char>>,
    edges: Seq<SimpleHyperEdgeView>,
) -> Seq<Seq<bool>> {
    Seq::new(
        nodes.len(),
        |i: int| Seq::new(edges.len(), |j: int| spec_incident(edges[j], nodes[i])),
    )
}

/// All rows as long as the first.
pub open spec fn is_rectangular(m: Seq<Seq<bool>>) -> bool {
    forall|i: int| 0 <= i < m.len() ==> #[trigger] m[i].len() == m[0].len()
}

/// The transpose of a rectangular boolean matrix; a matrix without rows or
/// without columns transposes to the empty matrix.
pub open spec fn spec_transpose(m: Seq<Seq<bool>>) -> Seq<Seq<bool>> {
    if m.len() == 0 || m[0].len() == 0 {
        Seq::empty()
    } else {
        Seq::new(m[0].len(), |j: int| Seq::new(m.len(), |i: int| m[i][j]))
    }
}

/// The sequence with every identifier's later repetitions dropped: the
/// first occurrence keeps its place.
pub open spec fn dedup_first(s: Seq<Seq<char>>) -> Seq<Seq<char>>
    decreases s.len(),
{
    if s.len() == 0 {
        Seq::empty()
    } else {
        let d = dedup_first(s.drop_last());
        if id_in(s.drop_last(), s.last()) {
            d
        } else {
            d.push(s.last())
        }
    }
}

/// Dropping later repetitions keeps exactly the identifiers present.
pub proof fn lemma_dedup_first_membership(s: Seq<Seq<char>>)
    ensures
        forall|x: Seq<char>| #[trigger] id_in(dedup_first(s), x) <==> id_in(s, x),
    decreases s.len(),
{
    if s.len() > 0 {
        let t = s.drop_last();
        let d = dedup_first(t);
        lemma_dedup_first_membership(t);
        assert forall|x: Seq<char>| #[trigger] id_in(dedup_first(s), x) <==> id_in(s, x) by {
            assert(id_in(d, x) <==> id_in(t, x));
            if id_in(s, x) {
                let i = choose|i: int| 0 <= i < s.len() && s[i] == x;
                if i < s.len() - 1 {
                    assert(t[i] == x);
                    assert(id_in(t, x));
                    let j = choose|j: int| 0 <= j < d.len() && d[j] == x;
                    assert(dedup_first(s)[j] == x);
                } else {
                    if id_in(t, s.last()) {
                        let j = choose|j: int| 0 <= j < d.len() && d[j] == x;
                        assert(dedup_first(s)[j] == x);
                    } else {
                        assert(dedup_first(s).last() == x);
                        assert(dedup_first(s)[dedup_first(s).len() - 1] == x);
                    }
                }
            }
            if id_in(dedup_first(s), x) {
                let j = choose|j: int| 0 <= j < dedup_first(s).len() && dedup_first(s)[j] == x;
                if j < d.len() {
                    assert(d[j] == x);
                    assert(id_in(t, x));
                    let i = choose|i: int| 0 <= i < t.len() && t[i] == x;
                    assert(s[i] == x);
                } else {
                    assert(!id_in(t, s.last()));
                    assert(dedup_first(s) == d.push(s.last()));
                    assert(x == s.last());
                    assert(s[s.len() - 1] == x);
                }
            }
        }
    }
}

/// The node universe of an edge: its head nodes, then its tail nodes,
/// duplicates removed by first occurrence.
pub open spec fn spec_universe(e: SimpleHyperEdgeView) -> Seq<Seq<char>> {
    dedup_first(
        e.head_hyper_nodes + (match e.tail_hyper_nodes {
            Some(t) => t,
            None => Seq::empty(),
        }),
    )
}

/// The key a dual record is stored under, derived from the source id.
pub open spec fn dual_key(id: Seq<char>) -> Seq<char> {
    "dual_"@ + id
}

/// The dual of a hyperedge: id and name derived from the source, the
/// source retained for provenance, its main properties re-interpreted as
/// dual-side attributes, and its node sets carried over.
pub open spec fn spec_dual_of(e: SimpleHyperEdgeView) -> DualHyperEdgeView {
    DualHyperEdgeView {
        id: dual_key(e.id),
        name: "Dual of "@ + e.name,
        simple_hyper_edge: e,
        dual_properties: e.main_properties,
        traversable: e.traversable,
        directed: e.directed,
        head_hyper_nodes: e.head_hyper_nodes,
        tail_hyper_nodes: e.tail_hyper_nodes,
    }
}

/// A row in which the node is incident to no edge is all false.
pub proof fn lemma_absent_node_row_false(
    nodes: Seq<Seq<char>>,
    edges: Seq<SimpleHyperEdgeView>,
    i: int,
)
    requires
        0 <= i < nodes.len(),
        forall|j: int| 0 <= j < edges.len() ==> !spec_incident(edges[j], nodes[i]),
    ensures
        forall|j: int| 0 <= j < edges.len() ==> spec_incidence(nodes, edges)[i][j] == false,
{
}

/// The incidence relation of `k` nodes and `m` edges has `k` rows of `m`
/// columns each.
pub proof fn lemma_incidence_shape(nodes: Seq<Seq<char>>, edges: Seq<SimpleHyperEdgeView>)
    ensures
        spec_incidence(nodes, edges).len() == nodes.len(),
        forall|i: int|
            0 <= i < nodes.len() ==> #[trigger] spec_incidence(nodes, edges)[i].len()
                == edges.len(),
        is_rectangular(spec_incidence(nodes, edges)),
{
}

/// Transposing twice gives the matrix back, for any rectangular matrix
/// whose rows are non-empty, the matrix without rows included.
pub proof fn lemma_transpose_involutive(m: Seq<Seq<bool>>)
    requires
        is_rectangular(m),
        m.len() > 0 ==> m[0].len() > 0,
    ensures
        spec_transpose(spec_transpose(m)) == m,
{
    if m.len() == 0 {
        assert(spec_transpose(m) =~= Seq::<Seq<bool>>::empty());
        assert(spec_transpose(spec_transpose(m)) =~= m);
    } else {
        let t = spec_transpose(m);
        assert(t.len() == m[0].len());
        assert(t[0].len() == m.len());
        let tt = spec_transpose(t);
        assert(tt.len() == m.len());
        assert forall|i: int| 0 <= i < m.len() implies tt[i] =~= m[i] by {
            assert(tt[i].len() == t.len());
            assert(m[i].len() == m[0].len());
            assert forall|j: int| 0 <= j < m[i].len() implies tt[i][j] == m[i][j] by {
                assert(tt[i][j] == t[j][i]);
                assert(t[j][i] == m[i][j]);
            }
        }
        assert(tt =~= m);
    }
}

/// A string holding the same characters as `v`.
fn clone_string_vec(v: &Vec<String>) -> (r: Vec<String>)
    ensures
        r.deep_view() == v.deep_view(),
{
    let mut out: Vec<String> = Vec::new();
    let mut k: usize = 0;
    while k < v.len()
        invariant
            k <= v@.len(),
            out.deep_view() == v.deep_view().take(k as int),
        decreases v@.len() - k,
    {
        proof {
            lemma_vec_deep_view(out);
            lemma_vec_deep_view(*v);
        }
        out.push(v[k].clone());
        proof {
            lemma_vec_deep_view(out);
            lemma_vec_deep_view(*v);
            assert(out.deep_view() =~= v.deep_view().take(k as int + 1));
        }
        k += 1;
    }
    assert(out.deep_view() =~= v.deep_view());
    out
}

/// A copy of an optional node-id list, value for value.
fn clone_opt_string_vec(v: &Option<Vec<String>>) -> (r: Option<Vec<String>>)
    ensures
        r.deep_view() == v.deep_view(),
{
    match v {
        Some(xs) => Some(clone_string_vec(xs)),
        None => None,
    }
}

/// A copy of a property list, value for value.
fn clone_properties(v: &Vec<Property>) -> (r: Vec<Property>)
    ensures
        r.deep_view() == v.deep_view(),
{
    let mut r: Vec<Property> = Vec::new();
    let mut k: usize = 0;
    while k < v.len()
        invariant
            k <= v@.len(),
            r.deep_view() == v.deep_view().take(k as int),
        decreases v@.len() - k,
    {
        let p = Property { key: v[k].key.clone(), value: clone_string_vec(&v[k].value) };
        proof {
            lemma_vec_deep_view(r);
            lemma_vec_deep_view(*v);
            assert(p@ =~= v@[k as int]@);
        }
        r.push(p);
        proof {
            lemma_vec_deep_view(r);
            lemma_vec_deep_view(*v);
            assert(r.deep_view() =~= v.deep_view().take(k as int + 1));
        }
        k += 1;
    }
    assert(r.deep_view() =~= v.deep_view());
    r
}

/// A copy of a hyperedge, value for value.
fn clone_simple(e: &SimpleHyperEdge) -> (r: SimpleHyperEdge)
    ensures
        r@ == e@,
{
    let r = SimpleHyperEdge {
        id: e.id.clone(),
        name: e.name.clone(),
        main_properties: clone_properties(&e.main_properties),
        traversable: e.traversable,
        directed: e.directed,
        head_hyper_nodes: clone_string_vec(&e.head_hyper_nodes),
        tail_hyper_nodes: clone_opt_string_vec(&e.tail_hyper_nodes),
    };
    assert(r@ =~= e@);
    r
}

/// Whether `node` is incident to `edge`.
fn edge_incident(edge: &SimpleHyperEdge, node: &String) -> (b: bool)
    ensures
        b == spec_incident(edge@, node@),
{
    if vec_contains_id(&edge.head_hyper_nodes, node) {
        true
    } else {
        match &edge.tail_hyper_nodes {
            Some(t) => vec_contains_id(t, node),
            None => false,
        }
    }
}


/// The digit a matrix cell prints as.
pub open spec fn bool_digit(b: bool) -> Seq<char> {
    if b {
        seq!['1']
    } else {
        seq!['0']
    }
}

/// A matrix row as one line of space-separated digits.
pub open spec fn spec_row_line(row: Seq<bool>) -> Seq<char>
    decreases row.len(),
{
    if row.len() == 0 {
        Seq::empty()
    } else if row.len() == 1 {
        bool_digit(row[0])
    } else {
        spec_row_line(row.drop_last()) + seq![' '] + bool_digit(row.last())
    }
}

/// A matrix as one printable line per row.
pub open spec fn spec_matrix_lines(m: Seq<Seq<bool>>) -> Seq<Seq<char>> {
    Seq::new(m.len(), |i: int| spec_row_line(m[i]))
}

/// One line of space-separated digits for a matrix row.
fn row_line(row: &Vec<bool>) -> (r: Vec<char>)
    ensures
        r@ == spec_row_line(row@),
{
    let mut out: Vec<char> = Vec::new();
    let mut k: usize = 0;
    while k < row.len()
        invariant
            k <= row@.len(),
            out@ == spec_row_line(row@.take(k as int)),
        decreases row@.len() - k,
    {
        if k > 0 {
            out.push(' ');
        }
        if row[k] {
            out.push('1');
        } else {
            out.push('0');
        }
        proof {
            let next = row@.take(k as int + 1);
            assert(next.drop_last() =~= row@.take(k as int));
            assert(next.last() == row@[k as int]);
            assert(out@ =~= spec_row_line(next));
        }
        k += 1;
    }
    assert(row@.take(row@.len() as int) =~= row@);
    out
}

/// The dual-graph synthesizer. It holds no state of its own: each call is
/// handed the repository it reads and writes.
pub struct DualHyperEdgeService {}

impl DualHyperEdgeService {
    /// A synthesizer.
    pub fn new() -> (r: DualHyperEdgeService) {
        DualHyperEdgeService {}
    }

    /// The node universe of `edge`: head nodes, then tail nodes, the first
    /// occurrence of each identifier kept in place.
    pub fn node_universe(&self, edge: &SimpleHyperEdge) -> (r: Vec<String>)
        ensures
            r.deep_view() == spec_universe(edge@),
    {
        let mut all = clone_string_vec(&edge.head_hyper_nodes);
        match &edge.tail_hyper_nodes {
            Some(t) => {
                let mut k: usize = 0;
                while k < t.len()
                    invariant
                        k <= t@.len(),
                        all.deep_view() == edge.head_hyper_nodes.deep_view() + t.deep_view().take(
                            k as int,
                        ),
                    decreases t@.len() - k,
                {
                    proof {
                        lemma_vec_deep_view(all);
                        lemma_vec_deep_view(*t);
                    }
                    all.push(t[k].clone());
                    proof {
                        lemma_vec_deep_view(all);
                        lemma_vec_deep_view(*t);
                        assert(all.deep_view() =~= edge.head_hyper_nodes.deep_view()
                            + t.deep_view().take(k as int + 1));
                    }
                    k += 1;
                }
                proof {
                    assert(t.deep_view().take(t@.len() as int) =~= t.deep_view());
                }
            },
            None => {
                proof {
                    lemma_vec_deep_view(all);
                    assert(all.deep_view() =~= edge.head_hyper_nodes.deep_view()
                        + Seq::<Seq<char>>::empty());
                }
            },
        }
        let ghost allv = all.deep_view();
        let mut r: Vec<String> = Vec::new();
        let mut k: usize = 0;
        while k < all.len()
            invariant
                k <= all@.len(),
                allv == all.deep_view(),
                r.deep_view() == dedup_first(all.deep_view().take(k as int)),
            decreases all@.len() - k,
        {
            let ghost prefix = all.deep_view().take(k as int);
            proof {
                lemma_vec_deep_view(all);
                lemma_vec_deep_view(r);
                lemma_dedup_first_membership(prefix);
            }
            let present = vec_contains_id(&r, &all[k]);
            if !present {
                r.push(all[k].clone());
            }
            proof {
                lemma_vec_deep_view(all);
                lemma_vec_deep_view(r);
                let next = all.deep_view().take(k as int + 1);
                assert(next.drop_last() =~= prefix);
                assert(next.last() == all.deep_view()[k as int]);
                assert(all.deep_view()[k as int] == all@[k as int]@);
                assert(id_in(prefix, all@[k as int]@) == present);
                assert(r.deep_view() =~= dedup_first(next));
            }
            k += 1;
        }
        proof {
            assert(all.deep_view().take(all@.len() as int) =~= all.deep_view());
        }
        r
    }

    /// The incidence relation of the node universe `nodes` against the
    /// edges `edges`: as many rows as nodes, as many columns as edges, and
    /// true at a cell exactly where the row's node is a head or tail member
    /// of the column's edge.
    pub fn create_incidence_matrix(
        &self,
        nodes: &Vec<String>,
        edges: &Vec<SimpleHyperEdge>,
    ) -> (r: Vec<Vec<bool>>)
        ensures
            r.deep_view() == spec_incidence(nodes.deep_view(), edges.deep_view()),
            r@.len() == nodes@.len(),
            forall|i: int| 0 <= i < r@.len() ==> #[trigger] r@[i]@.len() == edges@.len(),
            forall|i: int, j: int|
                0 <= i < nodes@.len() && 0 <= j < edges@.len() ==> r.deep_view()[i][j]
                    == spec_incident(edges@[j]@, nodes@[i]@),
    {
        let ghost target = spec_incidence(nodes.deep_view(), edges.deep_view());
        let mut matrix: Vec<Vec<bool>> = Vec::new();
        let mut i: usize = 0;
        while i < nodes.len()
            invariant
                i <= nodes@.len(),
                target == spec_incidence(nodes.deep_view(), edges.deep_view()),
                matrix.deep_view() == target.take(i as int),
            decreases nodes@.len() - i,
        {
            let mut row: Vec<bool> = Vec::new();
            let mut j: usize = 0;
            while j < edges.len()
                invariant
                    i < nodes@.len(),
                    j <= edges@.len(),
                    target == spec_incidence(nodes.deep_view(), edges.deep_view()),
                    row.deep_view() == target[i as int].take(j as int),
                decreases edges@.len() - j,
            {
                proof {
                    lemma_vec_deep_view(row);
                    lemma_vec_deep_view(*nodes);
                    lemma_vec_deep_view(*edges);
                }
                let b = edge_incident(&edges[j], &nodes[i]);
                row.push(b);
                proof {
                    lemma_vec_deep_view(row);
                    lemma_vec_deep_view(*nodes);
                    lemma_vec_deep_view(*edges);
                    assert(row.deep_view() =~= target[i as int].take(j as int + 1));
                }
                j += 1;
            }
            proof {
                lemma_vec_deep_view(row);
                assert(row.deep_view() =~= target[i as int]);
            }
            proof {
                lemma_vec_deep_view(matrix);
            }
            matrix.push(row);
            proof {
                lemma_vec_deep_view(matrix);
                assert(matrix.deep_view() =~= target.take(i as int + 1));
            }
            i += 1;
        }
        proof {
            lemma_vec_deep_view(matrix);
            assert(matrix.deep_view() =~= target);
            lemma_vec_deep_view(*nodes);
            lemma_vec_deep_view(*edges);
            assert forall|i2: int| 0 <= i2 < matrix@.len() implies #[trigger] matrix@[i2]@.len()
                == edges@.len() by {
                lemma_vec_deep_view(matrix@[i2]);
                assert(matrix.deep_view()[i2] == target[i2]);
            }
        }
        matrix
    }

    /// The transpose of a rectangular matrix; a matrix without rows or
    /// without columns transposes to the empty matrix.
    pub fn transpose_matrix(&self, matrix: &Vec<Vec<bool>>) -> (r: Vec<Vec<bool>>)
        requires
            is_rectangular(matrix.deep_view()),
        ensures
            r.deep_view() == spec_transpose(matrix.deep_view()),
    {
        let ghost md = matrix.deep_view();
        proof {
            lemma_vec_deep_view(*matrix);
        }
        if matrix.len() == 0 {
            let r: Vec<Vec<bool>> = Vec::new();
            proof {
                lemma_vec_deep_view(r);
                assert(r.deep_view() =~= spec_transpose(md));
            }
            return r;
        }
        let cols = matrix[0].len();
        proof {
            lemma_vec_deep_view(matrix@[0]);
            assert(md[0].len() == matrix@[0]@.len());
        }
        if cols == 0 {
            let r: Vec<Vec<bool>> = Vec::new();
            proof {
                lemma_vec_deep_view(r);
                assert(r.deep_view() =~= spec_transpose(md));
            }
            return r;
        }
        let ghost target = spec_transpose(md);
        let rows = matrix.len();
        let mut transposed: Vec<Vec<bool>> = Vec::new();
        let mut j: usize = 0;
        while j < cols
            invariant
                j <= cols,
                rows == matrix@.len(),
                cols == md[0].len(),
                md == matrix.deep_view(),
                is_rectangular(md),
                md.len() > 0,
                cols > 0,
                target == spec_transpose(md),
                transposed.deep_view() == target.take(j as int),
            decreases cols - j,
        {
            let mut row: Vec<bool> = Vec::new();
            let mut i: usize = 0;
            while i < rows
                invariant
                    i <= rows,
                    j < cols,
                    rows == matrix@.len(),
                    cols == md[0].len(),
                    md == matrix.deep_view(),
                    is_rectangular(md),
                    md.len() > 0,
                    cols > 0,
                    target == spec_transpose(md),
                    row.deep_view() == target[j as int].take(i as int),
                decreases rows - i,
            {
                proof {
                    lemma_vec_deep_view(*matrix);
                    lemma_vec_deep_view(matrix@[i as int]);
                    assert(md[i as int].len() == md[0].len());
                    assert(matrix@[i as int]@.len() == md[i as int].len());
                }
                proof {
                    lemma_vec_deep_view(row);
                }
                let b = matrix[i][j];
                row.push(b);
                proof {
                    lemma_vec_deep_view(row);
                    assert(row.deep_view()[i as int] == b);
                    assert(b == matrix@[i as int]@[j as int]);
                    assert(md[i as int][j as int] == b);
                    assert(row.deep_view() =~= target[j as int].take(i as int + 1));
                }
                i += 1;
            }
            proof {
                lemma_vec_deep_view(row);
                assert(row.deep_view() =~= target[j as int]);
            }
            proof {
                lemma_vec_deep_view(transposed);
            }
            transposed.push(row);
            proof {
                lemma_vec_deep_view(transposed);
                assert(transposed.deep_view() =~= target.take(j as int + 1));
            }
            j += 1;
        }
        proof {
            lemma_vec_deep_view(transposed);
            assert(transposed.deep_view() =~= target);
        }
        transposed
    }

    /// The dual record of `source`, by construction: derived id and name,
    /// the source retained, its main properties as dual-side attributes,
    /// and its node sets carried over.
    pub fn synthesize_dual(&self, source: &SimpleHyperEdge) -> (r: DualHyperEdge)
        ensures
            r@ == spec_dual_of(source@),
    {
        let id = String::from_str("dual_").concat(source.id.as_str());
        let name = String::from_str("Dual of ").concat(source.name.as_str());
        let r = DualHyperEdge {
            id,
            name,
            simple_hyper_edge: clone_simple(source),
            dual_properties: clone_properties(&source.main_properties),
            traversable: source.traversable,
            directed: source.directed,
            head_hyper_nodes: clone_string_vec(&source.head_hyper_nodes),
            tail_hyper_nodes: clone_opt_string_vec(&source.tail_hyper_nodes),
        };
        assert(r@ =~= spec_dual_of(source@));
        r
    }

    /// The printable lines of a matrix, one per row: each cell as the
    /// digit one or zero, cells separated by single spaces.
    pub fn matrix_lines(&self, matrix: &Vec<Vec<bool>>) -> (r: Vec<String>)
        ensures
            r.deep_view() == spec_matrix_lines(matrix.deep_view()),
    {
        let ghost md = matrix.deep_view();
        proof {
            lemma_vec_deep_view(*matrix);
        }
        let mut r: Vec<String> = Vec::new();
        let mut i: usize = 0;
        while i < matrix.len()
            invariant
                i <= matrix@.len(),
                md == matrix.deep_view(),
                r.deep_view() == spec_matrix_lines(md).take(i as int),
            decreases matrix@.len() - i,
        {
            proof {
                lemma_vec_deep_view(*matrix);
                lemma_vec_deep_view(r);
                lemma_vec_deep_view(matrix@[i as int]);
                assert(matrix@[i as int].deep_view() =~= matrix@[i as int]@);
            }
            let line = row_line(&matrix[i]);
            let text = chars_to_string(&line);
            r.push(text);
            proof {
                lemma_vec_deep_view(r);
                assert(md[i as int] == matrix@[i as int]@);
                assert(r.deep_view() =~= spec_matrix_lines(md).take(i as int + 1));
            }
            i += 1;
        }
        proof {
            lemma_vec_deep_view(r);
            assert(spec_matrix_lines(md).take(md.len() as int) =~= spec_matrix_lines(md));
            assert(r.deep_view() =~= spec_matrix_lines(md));
        }
        r
    }

    /// Loads the hyperedge stored under `id`, builds the incidence relation
    /// of its node universe against that one edge and the transpose of that
    /// relation, and persists the synthesized dual record under the derived
    /// key; the two matrices are returned for the caller to display. When
    /// no edge is stored under `id`, fails without writing anything.
    pub fn create_dual_h_edge(
        &self,
        repository: &mut SimpleHyperEdgeRepository,
        id: &str,
    ) -> (r: Result<(Vec<Vec<bool>>, Vec<Vec<bool>>), HgError>)
        requires
            old(repository).wf(),
        ensures
            final(repository).wf(),
            !old(repository)@.contains_key(id@) ==> (r matches Err(er) && er
                == HgError::NotFoundError && final(repository)@ == old(repository)@),
            old(repository)@.contains_key(id@) ==> match spec_decode_simple(
                old(repository)@[id@],
            ) {
                Some(src) => (r matches Ok(p) && ({
                    let m = spec_incidence(spec_universe(src), seq![src]);
                    p.0.deep_view() == m && p.1.deep_view() == spec_transpose(m)
                }) && final(repository)@ == old(repository)@.insert(
                    dual_key(src.id),
                    enc_dual(spec_dual_of(src)),
                )),
                None => (r matches Err(er) && er == HgError::DeserializationError
                    && final(repository)@ == old(repository)@),
            },
    {
        match repository.get_by_key(id) {
            Ok(Some(original_edge)) => {
                let nodes_set = self.node_universe(&original_edge);
                let mut edges: Vec<SimpleHyperEdge> = Vec::new();
                edges.push(clone_simple(&original_edge));
                proof {
                    lemma_vec_deep_view(edges);
                    assert(edges.deep_view() =~= seq![original_edge@]);
                }
                let incidence_matrix = self.create_incidence_matrix(&nodes_set, &edges);
                let transposed_matrix = self.transpose_matrix(&incidence_matrix);
                let dual_edge = self.synthesize_dual(&original_edge);
                match repository.save_dual(dual_edge) {
                    Ok(()) => Ok((incidence_matrix, transposed_matrix)),
                    Err(er) => Err(er),
                }
            },
            Ok(None) => Err(HgError::NotFoundError),
            Err(er) => Err(er),
        }
    }
}

} // verus!
