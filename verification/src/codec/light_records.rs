//! Encoding and decoding of `StructuralProperty`, `Traverse`,
//! `Relationship` and `LightHyperEdge` records as field-named text, with
//! proved decode/encode round trips.

use crate::codec::records::{
    enc_simple, enc_simple_exec, lemma_parse_simple, parse_simple, parse_simple_exec,
};
use crate::codec::text::{
    chars_to_string, enc_bool, enc_bool_exec, enc_str, enc_str_exec, enc_str_list,
    enc_str_list_exec, lemma_parse_bool, lemma_parse_lit, lemma_parse_str, lemma_parse_str_list,
    parse_bool, parse_bool_exec, parse_lit, parse_lit_exec, parse_str, parse_str_list,
    parse_str_list_exec, parse_string_exec, push_lit, str_to_chars,
};
use crate::entity::light_h_edge::{LightHyperEdge, LightHyperEdgeView};
use crate::entity::relationship::{Relationship, RelationshipView};
use crate::entity::structure::{
    StructuralProperty, StructuralPropertyView, Traverse, TraverseView,
};
use vstd::prelude::*;
use vstd::seq_lib::lemma_concat_associative;

verus! {

/// The encoding of a structural property record.
pub open spec fn enc_structural(e: StructuralPropertyView) -> Seq<char> {
    "{\"address\":"@ + (enc_str_list(e.address) + ("}"@))
}

/// Consumes an encoded structural property record.
pub open spec fn parse_structural(s: Seq<char>) -> Option<(StructuralPropertyView, Seq<char>)> {
    match parse_lit(s, "{\"address\":"@) {
        Some(r1) => match parse_str_list(r1) {
            Some((f_address, r2)) =>
            match parse_lit(r2, "}"@) {
                Some(rr) => Some((StructuralPropertyView { address: f_address }, rr)),
                None => None,
            }
            None => None,
        }
        None => None,
    }
}

/// Round trip of an encoded structural property record.
pub proof fn lemma_parse_structural(e: StructuralPropertyView, rest: Seq<char>)
    ensures
        parse_structural(enc_structural(e) + rest) == Some((e, rest)),
{
    let w3 = "}"@;
    let w2 = enc_str_list(e.address) + w3;
    assert(enc_structural(e) == "{\"address\":"@ + w2);
    lemma_concat_associative("{\"address\":"@, w2, rest);
    lemma_parse_lit("{\"address\":"@, w2 + rest);
    lemma_concat_associative(enc_str_list(e.address), w3, rest);
    lemma_parse_str_list(e.address, w3 + rest);
    lemma_parse_lit("}"@, rest);
    assert(StructuralPropertyView {
        address: e.address,
    } == e);
}

/// Appends the encoding of the structural property record `e` to `out`.
pub fn enc_structural_exec(out: &mut Vec<char>, e: &StructuralProperty)
    ensures
        final(out)@ == old(out)@ + enc_structural(e@),
{
    push_lit(out, "{\"address\":");
    let ghost g1 = out@;
    enc_str_list_exec(out, &e.address);
    let ghost g2 = out@;
    push_lit(out, "}");
    proof {
        let w3 = "}"@;
        let w2 = enc_str_list(e@.address) + w3;
        assert(out@ == g2 + w3);
        lemma_concat_associative(g1, enc_str_list(e@.address), w3);
        assert(out@ == g1 + w2);
        lemma_concat_associative(old(out)@, "{\"address\":"@, w2);
        assert(out@ == old(out)@ + ("{\"address\":"@ + w2));
        assert(enc_structural(e@) == "{\"address\":"@ + w2);
    }
}

/// Consumes an encoded structural property record at position `i` of `v`.
pub fn parse_structural_exec(v: &Vec<char>, i: usize) -> (r: Option<(StructuralProperty, usize)>)
    requires
        i <= v.len(),
    ensures
        r matches Some((e, j)) ==> i < j <= v.len() && parse_structural(v@.skip(i as int)) == Some(
            (e@, v@.skip(j as int)),
        ),
        r is None ==> parse_structural(v@.skip(i as int)) is None,
{
    let j1 = match parse_lit_exec(v, i, "{\"address\":") {
        Some(j) => j,
        None => {
            return None;
        },
    };
    let (address, j2) = match parse_str_list_exec(v, j1) {
        Some(x) => x,
        None => {
            return None;
        },
    };
    let j3 = match parse_lit_exec(v, j2, "}") {
        Some(j) => j,
        None => {
            return None;
        },
    };
    let e = StructuralProperty {
        address,
    };
    Some((e, j3))
}

/// The encoding of the items of a structural property list after the first.
pub open spec fn enc_structurals_rest(ps: Seq<StructuralPropertyView>) -> Seq<char>
    decreases ps.len(),
{
    if ps.len() == 0 {
        Seq::empty()
    } else {
        seq![','] + enc_structural(ps[0]) + enc_structurals_rest(ps.drop_first())
    }
}

/// The encoding of a structural property list.
pub open spec fn enc_structurals(ps: Seq<StructuralPropertyView>) -> Seq<char> {
    if ps.len() == 0 {
        seq!['[', ']']
    } else {
        seq!['['] + enc_structural(ps[0]) + enc_structurals_rest(ps.drop_first()) + seq![']']
    }
}

/// Consumes the items of a structural property list after the first.
pub open spec fn parse_structurals_rest(s: Seq<char>) -> Option<(Seq<StructuralPropertyView>, Seq<char>)>
    decreases s.len(),
{
    if s.len() == 0 {
        None
    } else if s[0] == ']' {
        Some((Seq::empty(), s.drop_first()))
    } else if s[0] == ',' {
        match parse_structural(s.drop_first()) {
            Some((x, r)) => if r.len() < s.len() {
                match parse_structurals_rest(r) {
                    Some((xs, r2)) => Some((seq![x] + xs, r2)),
                    None => None,
                }
            } else {
                None
            },
            None => None,
        }
    } else {
        None
    }
}

/// Consumes an encoded structural property list.
pub open spec fn parse_structurals(s: Seq<char>) -> Option<(Seq<StructuralPropertyView>, Seq<char>)> {
    if s.len() >= 2 && s[0] == '[' && s[1] == ']' {
        Some((Seq::empty(), s.skip(2)))
    } else if s.len() > 0 && s[0] == '[' {
        match parse_structural(s.drop_first()) {
            Some((x, r)) => match parse_structurals_rest(r) {
                Some((xs, r2)) => Some((seq![x] + xs, r2)),
                None => None,
            },
            None => None,
        }
    } else {
        None
    }
}

/// Round trip of the items of a structural property list after the first.
pub proof fn lemma_parse_structurals_rest(ps: Seq<StructuralPropertyView>, rest: Seq<char>)
    ensures
        parse_structurals_rest(enc_structurals_rest(ps) + seq![']'] + rest) == Some((ps, rest)),
    decreases ps.len(),
{
    let s = enc_structurals_rest(ps) + seq![']'] + rest;
    if ps.len() == 0 {
        assert(enc_structurals_rest(ps) == Seq::<char>::empty());
        assert(s[0] == ']');
        assert(s.drop_first() =~= rest);
    } else {
        reveal_strlit("{\"address\":");
        let x0 = ps[0];
        let xt = ps.drop_first();
        assert(enc_structurals_rest(ps) == seq![','] + enc_structural(x0) + enc_structurals_rest(xt));
        assert(s[0] == ',');
        let r = enc_structurals_rest(xt) + seq![']'] + rest;
        assert(s.drop_first() =~= enc_structural(x0) + r);
        lemma_parse_structural(x0, r);
        assert(r.len() < s.len());
        lemma_parse_structurals_rest(xt, rest);
        assert(seq![x0] + xt =~= ps);
    }
}

/// Round trip of an encoded structural property list.
#[verifier::rlimit(50)]
pub proof fn lemma_parse_structurals(ps: Seq<StructuralPropertyView>, rest: Seq<char>)
    ensures
        parse_structurals(enc_structurals(ps) + rest) == Some((ps, rest)),
{
    let s = enc_structurals(ps) + rest;
    if ps.len() == 0 {
        assert(s[0] == '[');
        assert(s[1] == ']');
        assert(s.skip(2) =~= rest);
    } else {
        reveal_strlit("{\"address\":");
        let x0 = ps[0];
        let xt = ps.drop_first();
        assert(s[0] == '[');
        let r = enc_structurals_rest(xt) + seq![']'] + rest;
        assert(s.drop_first() =~= enc_structural(x0) + r);
        lemma_parse_structural(x0, r);
        assert(enc_structural(x0)[0] == '{');
        assert(s[1] == enc_structural(x0)[0]);
        assert(s[1] != ']');
        lemma_parse_structurals_rest(xt, rest);
        assert(seq![x0] + xt =~= ps);
    }
}

/// Appends the encodings of the structural properties of `ps` from position `i` on,
/// each preceded by a comma.
fn enc_structurals_rest_exec(out: &mut Vec<char>, ps: &Vec<StructuralProperty>, i: usize)
    requires
        i <= ps.len(),
    ensures
        final(out)@ == old(out)@ + enc_structurals_rest(ps.deep_view().skip(i as int)),
    decreases ps.len() - i,
{
    if i < ps.len() {
        out.push(',');
        enc_structural_exec(out, &ps[i]);
        let ghost mid = out@;
        enc_structurals_rest_exec(out, ps, i + 1);
        proof {
            let s = ps.deep_view().skip(i as int);
            assert(s.len() > 0);
            assert(s[0] == ps.deep_view()[i as int]);
            assert(ps.deep_view()[i as int] == ps@[i as int]@);
            assert(s.drop_first() =~= ps.deep_view().skip(i as int + 1));
            assert(mid =~= old(out)@ + seq![','] + enc_structural(ps@[i as int]@));
            assert(out@ =~= old(out)@ + enc_structurals_rest(s));
        }
    } else {
        proof {
            assert(ps.deep_view().skip(i as int) =~= Seq::<StructuralPropertyView>::empty());
            assert(out@ =~= old(out)@ + enc_structurals_rest(ps.deep_view().skip(i as int)));
        }
    }
}

/// Appends the encoding of the structural property list `ps` to `out`.
pub fn enc_structurals_exec(out: &mut Vec<char>, ps: &Vec<StructuralProperty>)
    ensures
        final(out)@ == old(out)@ + enc_structurals(ps.deep_view()),
{
    out.push('[');
    if ps.len() == 0 {
        out.push(']');
        proof {
            assert(ps.deep_view().len() == 0);
            assert(out@ =~= old(out)@ + enc_structurals(ps.deep_view()));
        }
    } else {
        enc_structural_exec(out, &ps[0]);
        enc_structurals_rest_exec(out, ps, 1);
        out.push(']');
        proof {
            let d = ps.deep_view();
            assert(d.len() == ps@.len());
            assert(d[0] == ps@[0]@);
            assert(d.skip(1) =~= d.drop_first());
            assert(out@ =~= old(out)@ + enc_structurals(d));
        }
    }
}

/// Consumes the items of a structural property list after the first, at position `i`
/// of `v`, appending the items to `out`.
fn parse_structurals_rest_exec(v: &Vec<char>, i: usize, out: &mut Vec<StructuralProperty>) -> (r: Option<usize>)
    requires
        i <= v.len(),
    ensures
        r matches Some(j) ==> (i < j <= v.len() && (parse_structurals_rest(v@.skip(i as int)) matches Some(
            (xs, rem),
        ) && final(out).deep_view() == old(out).deep_view() + xs && rem == v@.skip(j as int))),
        r is None ==> parse_structurals_rest(v@.skip(i as int)) is None,
    decreases v.len() - i,
{
    if i >= v.len() {
        return None;
    }
    let c = v[i];
    if c == ']' {
        proof {
            let s = v@.skip(i as int);
            assert(s[0] == ']');
            assert(s.drop_first() =~= v@.skip(i as int + 1));
            assert(out.deep_view() =~= out.deep_view() + Seq::<StructuralPropertyView>::empty());
        }
        return Some(i + 1);
    }
    if c == ',' {
        proof {
            let s = v@.skip(i as int);
            assert(s[0] == ',');
            assert(s.drop_first() =~= v@.skip(i as int + 1));
        }
        match parse_structural_exec(v, i + 1) {
            Some((x0, j0)) => {
                let ghost x0v = x0@;
                out.push(x0);
                let ghost middv = out.deep_view();
                proof {
                    assert(middv =~= old(out).deep_view().push(x0v));
                }
                match parse_structurals_rest_exec(v, j0, out) {
                    Some(j) => {
                        proof {
                            let s = v@.skip(i as int);
                            let p = parse_structurals_rest(v@.skip(j0 as int));
                            assert(p is Some);
                            let xs2 = p->Some_0.0;
                            assert(v@.skip(j0 as int).len() < s.len());
                            assert(out.deep_view() == middv + xs2);
                            assert(out.deep_view() =~= old(out).deep_view() + (seq![x0v] + xs2));
                            assert(parse_structurals_rest(s) == Some((seq![x0v] + xs2, p->Some_0.1)));
                        }
                        Some(j)
                    },
                    None => None,
                }
            },
            None => None,
        }
    } else {
        proof {
            let s = v@.skip(i as int);
            assert(s[0] == c);
        }
        None
    }
}

/// Consumes an encoded structural property list at position `i` of `v`.
pub fn parse_structurals_exec(v: &Vec<char>, i: usize) -> (r: Option<(Vec<StructuralProperty>, usize)>)
    requires
        i <= v.len(),
    ensures
        r matches Some((ys, j)) ==> i < j <= v.len() && parse_structurals(v@.skip(i as int)) == Some(
            (ys.deep_view(), v@.skip(j as int)),
        ),
        r is None ==> parse_structurals(v@.skip(i as int)) is None,
{
    if i < v.len() && v[i] == '[' {
        if i + 1 < v.len() && v[i + 1] == ']' {
            let ys: Vec<StructuralProperty> = Vec::new();
            proof {
                let s = v@.skip(i as int);
                assert(s.len() >= 2);
                assert(s[0] == '[');
                assert(s[1] == v@[i + 1]);
                assert(s.skip(2) =~= v@.skip(i as int + 2));
                assert(ys.deep_view() =~= Seq::<StructuralPropertyView>::empty());
            }
            return Some((ys, i + 2));
        }
        proof {
            let s = v@.skip(i as int);
            assert(s[0] == '[');
            assert(s.len() >= 2 ==> s[1] == v@[i + 1]);
            assert(s.drop_first() =~= v@.skip(i as int + 1));
        }
        let mut ys: Vec<StructuralProperty> = Vec::new();
        match parse_structural_exec(v, i + 1) {
            Some((x0, j0)) => {
                let ghost x0v = x0@;
                ys.push(x0);
                let ghost middv = ys.deep_view();
                proof {
                    assert(middv =~= seq![x0v]);
                }
                match parse_structurals_rest_exec(v, j0, &mut ys) {
                    Some(j) => {
                        proof {
                            let s = v@.skip(i as int);
                            let p = parse_structurals_rest(v@.skip(j0 as int));
                            assert(p is Some);
                            let xs2 = p->Some_0.0;
                            assert(ys.deep_view() == middv + xs2);
                            assert(ys.deep_view() =~= seq![x0v] + xs2);
                            assert(parse_structurals(s) == Some((seq![x0v] + xs2, p->Some_0.1)));
                        }
                        Some((ys, j))
                    },
                    None => None,
                }
            },
            None => None,
        }
    } else {
        None
    }
}

/// The encoding of a traversal path record.
pub open spec fn enc_traverse(e: TraverseView) -> Seq<char> {
    "{\"path\":"@ + (enc_str_list(e.path) + ("}"@))
}

/// Consumes an encoded traversal path record.
pub open spec fn parse_traverse(s: Seq<char>) -> Option<(TraverseView, Seq<char>)> {
    match parse_lit(s, "{\"path\":"@) {
        Some(r1) => match parse_str_list(r1) {
            Some((f_path, r2)) =>
            match parse_lit(r2, "}"@) {
                Some(rr) => Some((TraverseView { path: f_path }, rr)),
                None => None,
            }
            None => None,
        }
        None => None,
    }
}

/// Round trip of an encoded traversal path record.
pub proof fn lemma_parse_traverse(e: TraverseView, rest: Seq<char>)
    ensures
        parse_traverse(enc_traverse(e) + rest) == Some((e, rest)),
{
    let w3 = "}"@;
    let w2 = enc_str_list(e.path) + w3;
    assert(enc_traverse(e) == "{\"path\":"@ + w2);
    lemma_concat_associative("{\"path\":"@, w2, rest);
    lemma_parse_lit("{\"path\":"@, w2 + rest);
    lemma_concat_associative(enc_str_list(e.path), w3, rest);
    lemma_parse_str_list(e.path, w3 + rest);
    lemma_parse_lit("}"@, rest);
    assert(TraverseView {
        path: e.path,
    } == e);
}

/// Appends the encoding of the traversal path record `e` to `out`.
pub fn enc_traverse_exec(out: &mut Vec<char>, e: &Traverse)
    ensures
        final(out)@ == old(out)@ + enc_traverse(e@),
{
    push_lit(out, "{\"path\":");
    let ghost g1 = out@;
    enc_str_list_exec(out, &e.path);
    let ghost g2 = out@;
    push_lit(out, "}");
    proof {
        let w3 = "}"@;
        let w2 = enc_str_list(e@.path) + w3;
        assert(out@ == g2 + w3);
        lemma_concat_associative(g1, enc_str_list(e@.path), w3);
        assert(out@ == g1 + w2);
        lemma_concat_associative(old(out)@, "{\"path\":"@, w2);
        assert(out@ == old(out)@ + ("{\"path\":"@ + w2));
        assert(enc_traverse(e@) == "{\"path\":"@ + w2);
    }
}

/// Consumes an encoded traversal path record at position `i` of `v`.
pub fn parse_traverse_exec(v: &Vec<char>, i: usize) -> (r: Option<(Traverse, usize)>)
    requires
        i <= v.len(),
    ensures
        r matches Some((e, j)) ==> i < j <= v.len() && parse_traverse(v@.skip(i as int)) == Some(
            (e@, v@.skip(j as int)),
        ),
        r is None ==> parse_traverse(v@.skip(i as int)) is None,
{
    let j1 = match parse_lit_exec(v, i, "{\"path\":") {
        Some(j) => j,
        None => {
            return None;
        },
    };
    let (path, j2) = match parse_str_list_exec(v, j1) {
        Some(x) => x,
        None => {
            return None;
        },
    };
    let j3 = match parse_lit_exec(v, j2, "}") {
        Some(j) => j,
        None => {
            return None;
        },
    };
    let e = Traverse {
        path,
    };
    Some((e, j3))
}

/// The encoding of a relationship record.
pub open spec fn enc_relationship(e: RelationshipView) -> Seq<char> {
    "{\"node_1\":"@ + (enc_str(e.node_1) + (",\"node_2\":"@ + (enc_str(e.node_2)
        + (",\"edge_properties\":"@ + (enc_str_list(e.edge_properties) + (",\"directed\":"@
        + (enc_bool(e.directed) + ("}"@))))))))
}

/// Consumes an encoded relationship record.
pub open spec fn parse_relationship(s: Seq<char>) -> Option<(RelationshipView, Seq<char>)> {
    match parse_lit(s, "{\"node_1\":"@) {
        Some(r1) => match parse_str(r1) {
            Some((f_node_1, r2)) =>
            match parse_lit(r2, ",\"node_2\":"@) {
                Some(r3) => match parse_str(r3) {
                    Some((f_node_2, r4)) =>
                    match parse_lit(r4, ",\"edge_properties\":"@) {
                        Some(r5) => match parse_str_list(r5) {
                            Some((f_edge_properties, r6)) =>
                            match parse_lit(r6, ",\"directed\":"@) {
                                Some(r7) => match parse_bool(r7) {
                                    Some((f_directed, r8)) =>
                                    match parse_lit(r8, "}"@) {
                                        Some(rr) => Some((RelationshipView {
                                            node_1: f_node_1,
                                            node_2: f_node_2,
                                            edge_properties: f_edge_properties,
                                            directed: f_directed,
                                        }, rr)),
                                        None => None,
                                    }
                                    None => None,
                                }
                                None => None,
                            }
                            None => None,
                        }
                        None => None,
                    }
                    None => None,
                }
                None => None,
            }
            None => None,
        }
        None => None,
    }
}

/// Round trip of an encoded relationship record.
pub proof fn lemma_parse_relationship(e: RelationshipView, rest: Seq<char>)
    ensures
        parse_relationship(enc_relationship(e) + rest) == Some((e, rest)),
{
    let w9 = "}"@;
    let w8 = enc_bool(e.directed) + w9;
    let w7 = ",\"directed\":"@ + w8;
    let w6 = enc_str_list(e.edge_properties) + w7;
    let w5 = ",\"edge_properties\":"@ + w6;
    let w4 = enc_str(e.node_2) + w5;
    let w3 = ",\"node_2\":"@ + w4;
    let w2 = enc_str(e.node_1) + w3;
    assert(enc_relationship(e) == "{\"node_1\":"@ + w2);
    lemma_concat_associative("{\"node_1\":"@, w2, rest);
    lemma_parse_lit("{\"node_1\":"@, w2 + rest);
    lemma_concat_associative(enc_str(e.node_1), w3, rest);
    lemma_parse_str(e.node_1, w3 + rest);
    lemma_concat_associative(",\"node_2\":"@, w4, rest);
    lemma_parse_lit(",\"node_2\":"@, w4 + rest);
    lemma_concat_associative(enc_str(e.node_2), w5, rest);
    lemma_parse_str(e.node_2, w5 + rest);
    lemma_concat_associative(",\"edge_properties\":"@, w6, rest);
    lemma_parse_lit(",\"edge_properties\":"@, w6 + rest);
    lemma_concat_associative(enc_str_list(e.edge_properties), w7, rest);
    lemma_parse_str_list(e.edge_properties, w7 + rest);
    lemma_concat_associative(",\"directed\":"@, w8, rest);
    lemma_parse_lit(",\"directed\":"@, w8 + rest);
    lemma_concat_associative(enc_bool(e.directed), w9, rest);
    lemma_parse_bool(e.directed, w9 + rest);
    lemma_parse_lit("}"@, rest);
    assert(RelationshipView {
        node_1: e.node_1,
        node_2: e.node_2,
        edge_properties: e.edge_properties,
        directed: e.directed,
    } == e);
}

/// Appends the encoding of the relationship record `e` to `out`.
pub fn enc_relationship_exec(out: &mut Vec<char>, e: &Relationship)
    ensures
        final(out)@ == old(out)@ + enc_relationship(e@),
{
    push_lit(out, "{\"node_1\":");
    let ghost g1 = out@;
    enc_str_exec(out, e.node_1.as_str());
    let ghost g2 = out@;
    push_lit(out, ",\"node_2\":");
    let ghost g3 = out@;
    enc_str_exec(out, e.node_2.as_str());
    let ghost g4 = out@;
    push_lit(out, ",\"edge_properties\":");
    let ghost g5 = out@;
    enc_str_list_exec(out, &e.edge_properties);
    let ghost g6 = out@;
    push_lit(out, ",\"directed\":");
    let ghost g7 = out@;
    enc_bool_exec(out, e.directed);
    let ghost g8 = out@;
    push_lit(out, "}");
    proof {
        let w9 = "}"@;
        let w8 = enc_bool(e@.directed) + w9;
        let w7 = ",\"directed\":"@ + w8;
        let w6 = enc_str_list(e@.edge_properties) + w7;
        let w5 = ",\"edge_properties\":"@ + w6;
        let w4 = enc_str(e@.node_2) + w5;
        let w3 = ",\"node_2\":"@ + w4;
        let w2 = enc_str(e@.node_1) + w3;
        assert(out@ == g8 + w9);
        lemma_concat_associative(g7, enc_bool(e@.directed), w9);
        assert(out@ == g7 + w8);
        lemma_concat_associative(g6, ",\"directed\":"@, w8);
        assert(out@ == g6 + w7);
        lemma_concat_associative(g5, enc_str_list(e@.edge_properties), w7);
        assert(out@ == g5 + w6);
        lemma_concat_associative(g4, ",\"edge_properties\":"@, w6);
        assert(out@ == g4 + w5);
        lemma_concat_associative(g3, enc_str(e@.node_2), w5);
        assert(out@ == g3 + w4);
        lemma_concat_associative(g2, ",\"node_2\":"@, w4);
        assert(out@ == g2 + w3);
        lemma_concat_associative(g1, enc_str(e@.node_1), w3);
        assert(out@ == g1 + w2);
        lemma_concat_associative(old(out)@, "{\"node_1\":"@, w2);
        assert(out@ == old(out)@ + ("{\"node_1\":"@ + w2));
        assert(enc_relationship(e@) == "{\"node_1\":"@ + w2);
    }
}

/// Consumes an encoded relationship record at position `i` of `v`.
pub fn parse_relationship_exec(v: &Vec<char>, i: usize) -> (r: Option<(Relationship, usize)>)
    requires
        i <= v.len(),
    ensures
        r matches Some((e, j)) ==> i < j <= v.len() && parse_relationship(v@.skip(i as int)) == Some(
            (e@, v@.skip(j as int)),
        ),
        r is None ==> parse_relationship(v@.skip(i as int)) is None,
{
    let j1 = match parse_lit_exec(v, i, "{\"node_1\":") {
        Some(j) => j,
        None => {
            return None;
        },
    };
    let (node_1, j2) = match parse_string_exec(v, j1) {
        Some(x) => x,
        None => {
            return None;
        },
    };
    let j3 = match parse_lit_exec(v, j2, ",\"node_2\":") {
        Some(j) => j,
        None => {
            return None;
        },
    };
    let (node_2, j4) = match parse_string_exec(v, j3) {
        Some(x) => x,
        None => {
            return None;
        },
    };
    let j5 = match parse_lit_exec(v, j4, ",\"edge_properties\":") {
        Some(j) => j,
        None => {
            return None;
        },
    };
    let (edge_properties, j6) = match parse_str_list_exec(v, j5) {
        Some(x) => x,
        None => {
            return None;
        },
    };
    let j7 = match parse_lit_exec(v, j6, ",\"directed\":") {
        Some(j) => j,
        None => {
            return None;
        },
    };
    let (directed, j8) = match parse_bool_exec(v, j7) {
        Some(x) => x,
        None => {
            return None;
        },
    };
    let j9 = match parse_lit_exec(v, j8, "}") {
        Some(j) => j,
        None => {
            return None;
        },
    };
    let e = Relationship {
        node_1,
        node_2,
        edge_properties,
        directed,
    };
    Some((e, j9))
}

/// The encoding of a light hyperedge record.
pub open spec fn enc_light(e: LightHyperEdgeView) -> Seq<char> {
    "{\"id\":"@ + (enc_str(e.id) + (",\"simple_hyper_edge\":"@ + (enc_simple(e.simple_hyper_edge)
        + (",\"structural_properties\":"@ + (enc_structurals(e.structural_properties)
        + (",\"relationship\":"@ + (enc_relationship(e.relationship) + (",\"traverse\":"@
        + (enc_traverse(e.traverse) + ("}"@))))))))))
}

/// Consumes an encoded light hyperedge record.
pub open spec fn parse_light(s: Seq<char>) -> Option<(LightHyperEdgeView, Seq<char>)> {
    match parse_lit(s, "{\"id\":"@) {
        Some(r1) => match parse_str(r1) {
            Some((f_id, r2)) =>
            match parse_lit(r2, ",\"simple_hyper_edge\":"@) {
                Some(r3) => match parse_simple(r3) {
                    Some((f_simple_hyper_edge, r4)) =>
                    match parse_lit(r4, ",\"structural_properties\":"@) {
                        Some(r5) => match parse_structurals(r5) {
                            Some((f_structural_properties, r6)) =>
                            match parse_lit(r6, ",\"relationship\":"@) {
                                Some(r7) => match parse_relationship(r7) {
                                    Some((f_relationship, r8)) =>
                                    match parse_lit(r8, ",\"traverse\":"@) {
                                        Some(r9) => match parse_traverse(r9) {
                                            Some((f_traverse, r10)) =>
                                            match parse_lit(r10, "}"@) {
                                                Some(rr) => Some((LightHyperEdgeView {
                                                    id: f_id,
                                                    simple_hyper_edge: f_simple_hyper_edge,
                                                    structural_properties: f_structural_properties,
                                                    relationship: f_relationship,
                                                    traverse: f_traverse,
                                                }, rr)),
                                                None => None,
                                            }
                                            None => None,
                                        }
                                        None => None,
                                    }
                                    None => None,
                                }
                                None => None,
                            }
                            None => None,
                        }
                        None => None,
                    }
                    None => None,
                }
                None => None,
            }
            None => None,
        }
        None => None,
    }
}

/// Round trip of an encoded light hyperedge record.
pub proof fn lemma_parse_light(e: LightHyperEdgeView, rest: Seq<char>)
    ensures
        parse_light(enc_light(e) + rest) == Some((e, rest)),
{
    let w11 = "}"@;
    let w10 = enc_traverse(e.traverse) + w11;
    let w9 = ",\"traverse\":"@ + w10;
    let w8 = enc_relationship(e.relationship) + w9;
    let w7 = ",\"relationship\":"@ + w8;
    let w6 = enc_structurals(e.structural_properties) + w7;
    let w5 = ",\"structural_properties\":"@ + w6;
    let w4 = enc_simple(e.simple_hyper_edge) + w5;
    let w3 = ",\"simple_hyper_edge\":"@ + w4;
    let w2 = enc_str(e.id) + w3;
    assert(enc_light(e) == "{\"id\":"@ + w2);
    lemma_concat_associative("{\"id\":"@, w2, rest);
    lemma_parse_lit("{\"id\":"@, w2 + rest);
    lemma_concat_associative(enc_str(e.id), w3, rest);
    lemma_parse_str(e.id, w3 + rest);
    lemma_concat_associative(",\"simple_hyper_edge\":"@, w4, rest);
    lemma_parse_lit(",\"simple_hyper_edge\":"@, w4 + rest);
    lemma_concat_associative(enc_simple(e.simple_hyper_edge), w5, rest);
    lemma_parse_simple(e.simple_hyper_edge, w5 + rest);
    lemma_concat_associative(",\"structural_properties\":"@, w6, rest);
    lemma_parse_lit(",\"structural_properties\":"@, w6 + rest);
    lemma_concat_associative(enc_structurals(e.structural_properties), w7, rest);
    lemma_parse_structurals(e.structural_properties, w7 + rest);
    lemma_concat_associative(",\"relationship\":"@, w8, rest);
    lemma_parse_lit(",\"relationship\":"@, w8 + rest);
    lemma_concat_associative(enc_relationship(e.relationship), w9, rest);
    lemma_parse_relationship(e.relationship, w9 + rest);
    lemma_concat_associative(",\"traverse\":"@, w10, rest);
    lemma_parse_lit(",\"traverse\":"@, w10 + rest);
    lemma_concat_associative(enc_traverse(e.traverse), w11, rest);
    lemma_parse_traverse(e.traverse, w11 + rest);
    lemma_parse_lit("}"@, rest);
    assert(LightHyperEdgeView {
        id: e.id,
        simple_hyper_edge: e.simple_hyper_edge,
        structural_properties: e.structural_properties,
        relationship: e.relationship,
        traverse: e.traverse,
    } == e);
}

/// Appends the encoding of the light hyperedge record `e` to `out`.
pub fn enc_light_exec(out: &mut Vec<char>, e: &LightHyperEdge)
    ensures
        final(out)@ == old(out)@ + enc_light(e@),
{
    push_lit(out, "{\"id\":");
    let ghost g1 = out@;
    enc_str_exec(out, e.id.as_str());
    let ghost g2 = out@;
    push_lit(out, ",\"simple_hyper_edge\":");
    let ghost g3 = out@;
    enc_simple_exec(out, &e.simple_hyper_edge);
    let ghost g4 = out@;
    push_lit(out, ",\"structural_properties\":");
    let ghost g5 = out@;
    enc_structurals_exec(out, &e.structural_properties);
    let ghost g6 = out@;
    push_lit(out, ",\"relationship\":");
    let ghost g7 = out@;
    enc_relationship_exec(out, &e.relationship);
    let ghost g8 = out@;
    push_lit(out, ",\"traverse\":");
    let ghost g9 = out@;
    enc_traverse_exec(out, &e.traverse);
    let ghost g10 = out@;
    push_lit(out, "}");
    proof {
        let w11 = "}"@;
        let w10 = enc_traverse(e@.traverse) + w11;
        let w9 = ",\"traverse\":"@ + w10;
        let w8 = enc_relationship(e@.relationship) + w9;
        let w7 = ",\"relationship\":"@ + w8;
        let w6 = enc_structurals(e@.structural_properties) + w7;
        let w5 = ",\"structural_properties\":"@ + w6;
        let w4 = enc_simple(e@.simple_hyper_edge) + w5;
        let w3 = ",\"simple_hyper_edge\":"@ + w4;
        let w2 = enc_str(e@.id) + w3;
        assert(out@ == g10 + w11);
        lemma_concat_associative(g9, enc_traverse(e@.traverse), w11);
        assert(out@ == g9 + w10);
        lemma_concat_associative(g8, ",\"traverse\":"@, w10);
        assert(out@ == g8 + w9);
        lemma_concat_associative(g7, enc_relationship(e@.relationship), w9);
        assert(out@ == g7 + w8);
        lemma_concat_associative(g6, ",\"relationship\":"@, w8);
        assert(out@ == g6 + w7);
        lemma_concat_associative(g5, enc_structurals(e@.structural_properties), w7);
        assert(out@ == g5 + w6);
        lemma_concat_associative(g4, ",\"structural_properties\":"@, w6);
        assert(out@ == g4 + w5);
        lemma_concat_associative(g3, enc_simple(e@.simple_hyper_edge), w5);
        assert(out@ == g3 + w4);
        lemma_concat_associative(g2, ",\"simple_hyper_edge\":"@, w4);
        assert(out@ == g2 + w3);
        lemma_concat_associative(g1, enc_str(e@.id), w3);
        assert(out@ == g1 + w2);
        lemma_concat_associative(old(out)@, "{\"id\":"@, w2);
        assert(out@ == old(out)@ + ("{\"id\":"@ + w2));
        assert(enc_light(e@) == "{\"id\":"@ + w2);
    }
}

/// Consumes an encoded light hyperedge record at position `i` of `v`.
pub fn parse_light_exec(v: &Vec<char>, i: usize) -> (r: Option<(LightHyperEdge, usize)>)
    requires
        i <= v.len(),
    ensures
        r matches Some((e, j)) ==> i < j <= v.len() && parse_light(v@.skip(i as int)) == Some(
            (e@, v@.skip(j as int)),
        ),
        r is None ==> parse_light(v@.skip(i as int)) is None,
{
    let j1 = match parse_lit_exec(v, i, "{\"id\":") {
        Some(j) => j,
        None => {
            return None;
        },
    };
    let (id, j2) = match parse_string_exec(v, j1) {
        Some(x) => x,
        None => {
            return None;
        },
    };
    let j3 = match parse_lit_exec(v, j2, ",\"simple_hyper_edge\":") {
        Some(j) => j,
        None => {
            return None;
        },
    };
    let (simple_hyper_edge, j4) = match parse_simple_exec(v, j3) {
        Some(x) => x,
        None => {
            return None;
        },
    };
    let j5 = match parse_lit_exec(v, j4, ",\"structural_properties\":") {
        Some(j) => j,
        None => {
            return None;
        },
    };
    let (structural_properties, j6) = match parse_structurals_exec(v, j5) {
        Some(x) => x,
        None => {
            return None;
        },
    };
    let j7 = match parse_lit_exec(v, j6, ",\"relationship\":") {
        Some(j) => j,
        None => {
            return None;
        },
    };
    let (relationship, j8) = match parse_relationship_exec(v, j7) {
        Some(x) => x,
        None => {
            return None;
        },
    };
    let j9 = match parse_lit_exec(v, j8, ",\"traverse\":") {
        Some(j) => j,
        None => {
            return None;
        },
    };
    let (traverse, j10) = match parse_traverse_exec(v, j9) {
        Some(x) => x,
        None => {
            return None;
        },
    };
    let j11 = match parse_lit_exec(v, j10, "}") {
        Some(j) => j,
        None => {
            return None;
        },
    };
    let e = LightHyperEdge {
        id,
        simple_hyper_edge,
        structural_properties,
        relationship,
        traverse,
    };
    Some((e, j11))
}

/// What a stored payload decodes to as light hyperedge: the payload must be one whole
/// encoded record.
pub open spec fn spec_decode_light(s: Seq<char>) -> Option<LightHyperEdgeView> {
    match parse_light(s) {
        Some((e, r)) => if r.len() == 0 {
            Some(e)
        } else {
            None
        },
        None => None,
    }
}

/// Round trip: decoding the encoding of any light hyperedge record yields
/// that record back.
pub proof fn lemma_decode_encode_light(e: LightHyperEdgeView)
    ensures
        spec_decode_light(enc_light(e)) == Some(e),
{
    lemma_parse_light(e, Seq::empty());
    assert(enc_light(e) + Seq::<char>::empty() =~= enc_light(e));
}

/// The encoding of the light hyperedge `e` as a string.
pub fn encode_light(e: &LightHyperEdge) -> (r: String)
    ensures
        r@ == enc_light(e@),
{
    let mut out: Vec<char> = Vec::new();
    enc_light_exec(&mut out, e);
    proof {
        assert(out@ =~= enc_light(e@));
    }
    chars_to_string(&out)
}

/// Decodes one whole encoded light hyperedge record, or nothing if the text is not one.
pub fn decode_light(s: &str) -> (r: Option<LightHyperEdge>)
    ensures
        r matches Some(e) ==> spec_decode_light(s@) == Some(e@),
        r is None ==> spec_decode_light(s@) is None,
{
    let v = str_to_chars(s);
    proof {
        assert(v@.skip(0) =~= s@);
    }
    match parse_light_exec(&v, 0) {
        Some((e, j)) => {
            if j == v.len() {
                proof {
                    assert(v@.skip(j as int).len() == 0);
                }
                Some(e)
            } else {
                proof {
                    assert(v@.skip(j as int).len() > 0);
                }
                None
            }
        },
        None => None,
    }
}

} // verus!
