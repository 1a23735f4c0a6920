//! Encoding and decoding of `Property`, `SimpleHyperEdge` and
//! `DualHyperEdge` records as field-named text, with proved decode/encode
//! round trips.

use crate::codec::text::{
    chars_to_string, enc_bool, enc_bool_exec, enc_opt_list, enc_opt_list_exec, enc_str,
    enc_str_exec, enc_str_list, enc_str_list_exec, lemma_parse_bool, lemma_parse_lit,
    lemma_parse_opt_list, lemma_parse_str, lemma_parse_str_list, parse_bool, parse_bool_exec,
    parse_lit, parse_lit_exec, parse_opt_list, parse_opt_list_exec, parse_str, parse_str_list,
    parse_str_list_exec, parse_string_exec, push_lit, str_to_chars,
};
use crate::entity::dual_h_edge::{DualHyperEdge, DualHyperEdgeView};
use crate::entity::simple_h_edge::{Property, PropertyView, SimpleHyperEdge, SimpleHyperEdgeView};
use vstd::prelude::*;
use vstd::seq_lib::lemma_concat_associative;

verus! {

/// The encoding of a property record.
pub open spec fn enc_prop(p: PropertyView) -> Seq<char> {
    "{\"key\":"@ + enc_str(p.key) + ",\"value\":"@ + enc_str_list(p.value) + "}"@
}

/// Consumes an encoded property record.
pub open spec fn parse_prop(s: Seq<char>) -> Option<(PropertyView, Seq<char>)> {
    match parse_lit(s, "{\"key\":"@) {
        Some(r1) => match parse_str(r1) {
            Some((k, r2)) => match parse_lit(r2, ",\"value\":"@) {
                Some(r3) => match parse_str_list(r3) {
                    Some((vs, r4)) => match parse_lit(r4, "}"@) {
                        Some(r5) => Some((PropertyView { key: k, value: vs }, r5)),
                        None => None,
                    },
                    None => None,
                },
                None => None,
            },
            None => None,
        },
        None => None,
    }
}

/// Round trip of an encoded property record.
pub proof fn lemma_parse_prop(p: PropertyView, rest: Seq<char>)
    ensures
        parse_prop(enc_prop(p) + rest) == Some((p, rest)),
{
    let t4 = "}"@ + rest;
    let t3 = enc_str_list(p.value) + t4;
    let t2b = ",\"value\":"@ + t3;
    let t2 = enc_str(p.key) + t2b;
    assert(enc_prop(p) + rest =~= "{\"key\":"@ + t2);
    lemma_parse_lit("{\"key\":"@, t2);
    lemma_parse_str(p.key, t2b);
    lemma_parse_lit(",\"value\":"@, t3);
    lemma_parse_str_list(p.value, t4);
    lemma_parse_lit("}"@, rest);
    assert(PropertyView { key: p.key, value: p.value } == p);
}

/// The encoding of the items of a property list after the first.
pub open spec fn enc_props_rest(ps: Seq<PropertyView>) -> Seq<char>
    decreases ps.len(),
{
    if ps.len() == 0 {
        Seq::empty()
    } else {
        seq![','] + enc_prop(ps[0]) + enc_props_rest(ps.drop_first())
    }
}

/// The encoding of a property list.
pub open spec fn enc_props(ps: Seq<PropertyView>) -> Seq<char> {
    if ps.len() == 0 {
        seq!['[', ']']
    } else {
        seq!['['] + enc_prop(ps[0]) + enc_props_rest(ps.drop_first()) + seq![']']
    }
}

/// Consumes the items of a property list after the first.
pub open spec fn parse_props_rest(s: Seq<char>) -> Option<(Seq<PropertyView>, Seq<char>)>
    decreases s.len(),
{
    if s.len() == 0 {
        None
    } else if s[0] == ']' {
        Some((Seq::empty(), s.drop_first()))
    } else if s[0] == ',' {
        match parse_prop(s.drop_first()) {
            Some((x, r)) => if r.len() < s.len() {
                match parse_props_rest(r) {
                    Some((xs, r2)) => Some((seq![x] + xs, r2)),
                    None => None,
                }
            } else {
                None
            },
            None => None,
        }
    } else {
        None
    }
}

/// Consumes an encoded property list.
pub open spec fn parse_props(s: Seq<char>) -> Option<(Seq<PropertyView>, Seq<char>)> {
    if s.len() >= 2 && s[0] == '[' && s[1] == ']' {
        Some((Seq::empty(), s.skip(2)))
    } else if s.len() > 0 && s[0] == '[' {
        match parse_prop(s.drop_first()) {
            Some((x, r)) => match parse_props_rest(r) {
                Some((xs, r2)) => Some((seq![x] + xs, r2)),
                None => None,
            },
            None => None,
        }
    } else {
        None
    }
}

/// Round trip of the items of a property list after the first.
pub proof fn lemma_parse_props_rest(ps: Seq<PropertyView>, rest: Seq<char>)
    ensures
        parse_props_rest(enc_props_rest(ps) + seq![']'] + rest) == Some((ps, rest)),
    decreases ps.len(),
{
    let s = enc_props_rest(ps) + seq![']'] + rest;
    if ps.len() == 0 {
        assert(enc_props_rest(ps) == Seq::<char>::empty());
        assert(s[0] == ']');
        assert(s.drop_first() =~= rest);
    } else {
        reveal_strlit("{\"key\":");
        let x0 = ps[0];
        let xt = ps.drop_first();
        assert(enc_props_rest(ps) == seq![','] + enc_prop(x0) + enc_props_rest(xt));
        assert(s[0] == ',');
        let r = enc_props_rest(xt) + seq![']'] + rest;
        assert(s.drop_first() =~= enc_prop(x0) + r);
        lemma_parse_prop(x0, r);
        assert(r.len() < s.len());
        lemma_parse_props_rest(xt, rest);
        assert(seq![x0] + xt =~= ps);
    }
}

/// Round trip of an encoded property list.
pub proof fn lemma_parse_props(ps: Seq<PropertyView>, rest: Seq<char>)
    ensures
        parse_props(enc_props(ps) + rest) == Some((ps, rest)),
{
    let s = enc_props(ps) + rest;
    if ps.len() == 0 {
        assert(s[0] == '[');
        assert(s[1] == ']');
        assert(s.skip(2) =~= rest);
    } else {
        reveal_strlit("{\"key\":");
        let x0 = ps[0];
        let xt = ps.drop_first();
        assert(s[0] == '[');
        let r = enc_props_rest(xt) + seq![']'] + rest;
        assert(s.drop_first() =~= enc_prop(x0) + r);
        lemma_parse_prop(x0, r);
        assert(enc_prop(x0)[0] == '{');
        assert(s[1] == enc_prop(x0)[0]);
        assert(s[1] != ']');
        lemma_parse_props_rest(xt, rest);
        assert(seq![x0] + xt =~= ps);
    }
}

/// Appends the encoding of the property `p` to `out`.
pub fn enc_prop_exec(out: &mut Vec<char>, p: &Property)
    ensures
        final(out)@ == old(out)@ + enc_prop(p@),
{
    push_lit(out, "{\"key\":");
    enc_str_exec(out, p.key.as_str());
    push_lit(out, ",\"value\":");
    enc_str_list_exec(out, &p.value);
    push_lit(out, "}");
    assert(out@ =~= old(out)@ + enc_prop(p@));
}

/// Consumes an encoded property record at position `i` of `v`.
pub fn parse_prop_exec(v: &Vec<char>, i: usize) -> (r: Option<(Property, usize)>)
    requires
        i <= v.len(),
    ensures
        r matches Some((p, j)) ==> i < j <= v.len() && parse_prop(v@.skip(i as int)) == Some(
            (p@, v@.skip(j as int)),
        ),
        r is None ==> parse_prop(v@.skip(i as int)) is None,
{
    let j1 = match parse_lit_exec(v, i, "{\"key\":") {
        Some(j) => j,
        None => {
            return None;
        },
    };
    let (key, j2) = match parse_string_exec(v, j1) {
        Some(x) => x,
        None => {
            return None;
        },
    };
    let j3 = match parse_lit_exec(v, j2, ",\"value\":") {
        Some(j) => j,
        None => {
            return None;
        },
    };
    let (value, j4) = match parse_str_list_exec(v, j3) {
        Some(x) => x,
        None => {
            return None;
        },
    };
    let j5 = match parse_lit_exec(v, j4, "}") {
        Some(j) => j,
        None => {
            return None;
        },
    };
    let p = Property { key, value };
    assert(p@ == PropertyView { key: p.key@, value: p.value.deep_view() });
    Some((p, j5))
}

/// Appends the encodings of the properties of `ps` from position `i` on,
/// each preceded by a comma.
fn enc_props_rest_exec(out: &mut Vec<char>, ps: &Vec<Property>, i: usize)
    requires
        i <= ps.len(),
    ensures
        final(out)@ == old(out)@ + enc_props_rest(ps.deep_view().skip(i as int)),
    decreases ps.len() - i,
{
    if i < ps.len() {
        out.push(',');
        enc_prop_exec(out, &ps[i]);
        let ghost mid = out@;
        enc_props_rest_exec(out, ps, i + 1);
        proof {
            let s = ps.deep_view().skip(i as int);
            assert(s.len() > 0);
            assert(s[0] == ps.deep_view()[i as int]);
            assert(ps.deep_view()[i as int] == ps@[i as int]@);
            assert(s.drop_first() =~= ps.deep_view().skip(i as int + 1));
            assert(mid =~= old(out)@ + seq![','] + enc_prop(ps@[i as int]@));
            assert(out@ =~= old(out)@ + enc_props_rest(s));
        }
    } else {
        proof {
            assert(ps.deep_view().skip(i as int) =~= Seq::<PropertyView>::empty());
            assert(out@ =~= old(out)@ + enc_props_rest(ps.deep_view().skip(i as int)));
        }
    }
}

/// Appends the encoding of the property list `ps` to `out`.
pub fn enc_props_exec(out: &mut Vec<char>, ps: &Vec<Property>)
    ensures
        final(out)@ == old(out)@ + enc_props(ps.deep_view()),
{
    out.push('[');
    if ps.len() == 0 {
        out.push(']');
        proof {
            assert(ps.deep_view().len() == 0);
            assert(out@ =~= old(out)@ + enc_props(ps.deep_view()));
        }
    } else {
        enc_prop_exec(out, &ps[0]);
        enc_props_rest_exec(out, ps, 1);
        out.push(']');
        proof {
            let d = ps.deep_view();
            assert(d.len() == ps@.len());
            assert(d[0] == ps@[0]@);
            assert(d.skip(1) =~= d.drop_first());
            assert(out@ =~= old(out)@ + enc_props(d));
        }
    }
}

/// Consumes the items of a property list after the first, at position `i`
/// of `v`, appending the items to `out`.
fn parse_props_rest_exec(v: &Vec<char>, i: usize, out: &mut Vec<Property>) -> (r: Option<usize>)
    requires
        i <= v.len(),
    ensures
        r matches Some(j) ==> (i < j <= v.len() && (parse_props_rest(v@.skip(i as int)) matches Some(
            (xs, rem),
        ) && final(out).deep_view() == old(out).deep_view() + xs && rem == v@.skip(j as int))),
        r is None ==> parse_props_rest(v@.skip(i as int)) is None,
    decreases v.len() - i,
{
    if i >= v.len() {
        return None;
    }
    let c = v[i];
    if c == ']' {
        proof {
            let s = v@.skip(i as int);
            assert(s[0] == ']');
            assert(s.drop_first() =~= v@.skip(i as int + 1));
            assert(out.deep_view() =~= out.deep_view() + Seq::<PropertyView>::empty());
        }
        return Some(i + 1);
    }
    if c == ',' {
        proof {
            let s = v@.skip(i as int);
            assert(s[0] == ',');
            assert(s.drop_first() =~= v@.skip(i as int + 1));
        }
        match parse_prop_exec(v, i + 1) {
            Some((x0, j0)) => {
                let ghost x0v = x0@;
                out.push(x0);
                let ghost middv = out.deep_view();
                proof {
                    assert(middv =~= old(out).deep_view().push(x0v));
                }
                match parse_props_rest_exec(v, j0, out) {
                    Some(j) => {
                        proof {
                            let s = v@.skip(i as int);
                            let p = parse_props_rest(v@.skip(j0 as int));
                            assert(p is Some);
                            let xs2 = p->Some_0.0;
                            assert(v@.skip(j0 as int).len() < s.len());
                            assert(out.deep_view() == middv + xs2);
                            assert(out.deep_view() =~= old(out).deep_view() + (seq![x0v] + xs2));
                            assert(parse_props_rest(s) == Some((seq![x0v] + xs2, p->Some_0.1)));
                        }
                        Some(j)
                    },
                    None => None,
                }
            },
            None => None,
        }
    } else {
        proof {
            let s = v@.skip(i as int);
            assert(s[0] == c);
        }
        None
    }
}

/// Consumes an encoded property list at position `i` of `v`.
pub fn parse_props_exec(v: &Vec<char>, i: usize) -> (r: Option<(Vec<Property>, usize)>)
    requires
        i <= v.len(),
    ensures
        r matches Some((ys, j)) ==> i < j <= v.len() && parse_props(v@.skip(i as int)) == Some(
            (ys.deep_view(), v@.skip(j as int)),
        ),
        r is None ==> parse_props(v@.skip(i as int)) is None,
{
    if i < v.len() && v[i] == '[' {
        if i + 1 < v.len() && v[i + 1] == ']' {
            let ys: Vec<Property> = Vec::new();
            proof {
                let s = v@.skip(i as int);
                assert(s.len() >= 2);
                assert(s[0] == '[');
                assert(s[1] == v@[i + 1]);
                assert(s.skip(2) =~= v@.skip(i as int + 2));
                assert(ys.deep_view() =~= Seq::<PropertyView>::empty());
            }
            return Some((ys, i + 2));
        }
        proof {
            let s = v@.skip(i as int);
            assert(s[0] == '[');
            assert(s.len() >= 2 ==> s[1] == v@[i + 1]);
            assert(s.drop_first() =~= v@.skip(i as int + 1));
        }
        let mut ys: Vec<Property> = Vec::new();
        match parse_prop_exec(v, i + 1) {
            Some((x0, j0)) => {
                let ghost x0v = x0@;
                ys.push(x0);
                let ghost middv = ys.deep_view();
                proof {
                    assert(middv =~= seq![x0v]);
                }
                match parse_props_rest_exec(v, j0, &mut ys) {
                    Some(j) => {
                        proof {
                            let s = v@.skip(i as int);
                            let p = parse_props_rest(v@.skip(j0 as int));
                            assert(p is Some);
                            let xs2 = p->Some_0.0;
                            assert(ys.deep_view() == middv + xs2);
                            assert(ys.deep_view() =~= seq![x0v] + xs2);
                            assert(parse_props(s) == Some((seq![x0v] + xs2, p->Some_0.1)));
                        }
                        Some((ys, j))
                    },
                    None => None,
                }
            },
            None => None,
        }
    } else {
        None
    }
}

} // verus!

verus! {

/// The encoding of a hyperedge record.
pub open spec fn enc_simple(e: SimpleHyperEdgeView) -> Seq<char> {
    "{\"id\":"@ + (enc_str(e.id) + (",\"name\":"@ + (enc_str(e.name) + (",\"main_properties\":"@
        + (enc_props(e.main_properties) + (",\"traversable\":"@ + (enc_bool(e.traversable)
        + (",\"directed\":"@ + (enc_bool(e.directed) + (",\"head_hyper_nodes\":"@ + (enc_str_list(
        e.head_hyper_nodes,
    ) + (",\"tail_hyper_nodes\":"@ + (enc_opt_list(e.tail_hyper_nodes) + "}"@)))))))))))))
}

/// Consumes an encoded hyperedge record.
pub open spec fn parse_simple(s: Seq<char>) -> Option<(SimpleHyperEdgeView, Seq<char>)> {
    match parse_lit(s, "{\"id\":"@) {
        Some(r1) => match parse_str(r1) {
            Some((id, r2)) => match parse_lit(r2, ",\"name\":"@) {
                Some(r3) => match parse_str(r3) {
                    Some((name, r4)) => match parse_lit(r4, ",\"main_properties\":"@) {
                        Some(r5) => match parse_props(r5) {
                            Some((props, r6)) => match parse_lit(r6, ",\"traversable\":"@) {
                                Some(r7) => match parse_bool(r7) {
                                    Some((tr, r8)) => match parse_lit(r8, ",\"directed\":"@) {
                                        Some(r9) => match parse_bool(r9) {
                                            Some((di, r10)) => match parse_lit(
                                            r10,
                                            ",\"head_hyper_nodes\":"@,
                                            ) {
                                                Some(r11) => match parse_str_list(r11) {
                                                    Some((head, r12)) => match parse_lit(
                                                    r12,
                                                    ",\"tail_hyper_nodes\":"@,
                                                    ) {
                                                        Some(r13) => match parse_opt_list(r13) {
                                                            Some((tail, r14)) => match parse_lit(
                                                            r14,
                                                            "}"@,
                                                            ) {
                                                                Some(r15) => Some(
                                                                (
                                                                SimpleHyperEdgeView {
                                                                    id: id,
                                                                    name: name,
                                                                    main_properties: props,
                                                                    traversable: tr,
                                                                    directed: di,
                                                                    head_hyper_nodes: head,
                                                                    tail_hyper_nodes: tail,
                                                                },
                                                                r15,
                                                                ),
                                                                ),
                                                                None => None,
                                                            },
                                                            None => None,
                                                        },
                                                        None => None,
                                                    },
                                                    None => None,
                                                },
                                                None => None,
                                            },
                                            None => None,
                                        },
                                        None => None,
                                    },
                                    None => None,
                                },
                                None => None,
                            },
                            None => None,
                        },
                        None => None,
                    },
                    None => None,
                },
                None => None,
            },
            None => None,
        },
        None => None,
    }
}

/// Round trip of an encoded hyperedge record.
pub proof fn lemma_parse_simple(e: SimpleHyperEdgeView, rest: Seq<char>)
    ensures
        parse_simple(enc_simple(e) + rest) == Some((e, rest)),
{
    let w15 = "}"@;
    let w14 = enc_opt_list(e.tail_hyper_nodes) + w15;
    let w13 = ",\"tail_hyper_nodes\":"@ + w14;
    let w12 = enc_str_list(e.head_hyper_nodes) + w13;
    let w11 = ",\"head_hyper_nodes\":"@ + w12;
    let w10 = enc_bool(e.directed) + w11;
    let w9 = ",\"directed\":"@ + w10;
    let w8 = enc_bool(e.traversable) + w9;
    let w7 = ",\"traversable\":"@ + w8;
    let w6 = enc_props(e.main_properties) + w7;
    let w5 = ",\"main_properties\":"@ + w6;
    let w4 = enc_str(e.name) + w5;
    let w3 = ",\"name\":"@ + w4;
    let w2 = enc_str(e.id) + w3;
    assert(enc_simple(e) == "{\"id\":"@ + w2);
    lemma_concat_associative("{\"id\":"@, w2, rest);
    lemma_parse_lit("{\"id\":"@, w2 + rest);
    lemma_concat_associative(enc_str(e.id), w3, rest);
    lemma_parse_str(e.id, w3 + rest);
    lemma_concat_associative(",\"name\":"@, w4, rest);
    lemma_parse_lit(",\"name\":"@, w4 + rest);
    lemma_concat_associative(enc_str(e.name), w5, rest);
    lemma_parse_str(e.name, w5 + rest);
    lemma_concat_associative(",\"main_properties\":"@, w6, rest);
    lemma_parse_lit(",\"main_properties\":"@, w6 + rest);
    lemma_concat_associative(enc_props(e.main_properties), w7, rest);
    lemma_parse_props(e.main_properties, w7 + rest);
    lemma_concat_associative(",\"traversable\":"@, w8, rest);
    lemma_parse_lit(",\"traversable\":"@, w8 + rest);
    lemma_concat_associative(enc_bool(e.traversable), w9, rest);
    lemma_parse_bool(e.traversable, w9 + rest);
    lemma_concat_associative(",\"directed\":"@, w10, rest);
    lemma_parse_lit(",\"directed\":"@, w10 + rest);
    lemma_concat_associative(enc_bool(e.directed), w11, rest);
    lemma_parse_bool(e.directed, w11 + rest);
    lemma_concat_associative(",\"head_hyper_nodes\":"@, w12, rest);
    lemma_parse_lit(",\"head_hyper_nodes\":"@, w12 + rest);
    lemma_concat_associative(enc_str_list(e.head_hyper_nodes), w13, rest);
    lemma_parse_str_list(e.head_hyper_nodes, w13 + rest);
    lemma_concat_associative(",\"tail_hyper_nodes\":"@, w14, rest);
    lemma_parse_lit(",\"tail_hyper_nodes\":"@, w14 + rest);
    lemma_concat_associative(enc_opt_list(e.tail_hyper_nodes), w15, rest);
    lemma_parse_opt_list(e.tail_hyper_nodes, w15 + rest);
    lemma_parse_lit("}"@, rest);
    assert(SimpleHyperEdgeView {
        id: e.id,
        name: e.name,
        main_properties: e.main_properties,
        traversable: e.traversable,
        directed: e.directed,
        head_hyper_nodes: e.head_hyper_nodes,
        tail_hyper_nodes: e.tail_hyper_nodes,
    } == e);
}

/// Appends the encoding of the hyperedge `e` to `out`.
pub fn enc_simple_exec(out: &mut Vec<char>, e: &SimpleHyperEdge)
    ensures
        final(out)@ == old(out)@ + enc_simple(e@),
{
    push_lit(out, "{\"id\":");
    let ghost g1 = out@;
    enc_str_exec(out, e.id.as_str());
    let ghost g2 = out@;
    push_lit(out, ",\"name\":");
    let ghost g3 = out@;
    enc_str_exec(out, e.name.as_str());
    let ghost g4 = out@;
    push_lit(out, ",\"main_properties\":");
    let ghost g5 = out@;
    enc_props_exec(out, &e.main_properties);
    let ghost g6 = out@;
    push_lit(out, ",\"traversable\":");
    let ghost g7 = out@;
    enc_bool_exec(out, e.traversable);
    let ghost g8 = out@;
    push_lit(out, ",\"directed\":");
    let ghost g9 = out@;
    enc_bool_exec(out, e.directed);
    let ghost g10 = out@;
    push_lit(out, ",\"head_hyper_nodes\":");
    let ghost g11 = out@;
    enc_str_list_exec(out, &e.head_hyper_nodes);
    let ghost g12 = out@;
    push_lit(out, ",\"tail_hyper_nodes\":");
    let ghost g13 = out@;
    enc_opt_list_exec(out, &e.tail_hyper_nodes);
    let ghost g14 = out@;
    push_lit(out, "}");
    proof {
        let w15 = "}"@;
        let w14 = enc_opt_list(e@.tail_hyper_nodes) + w15;
        let w13 = ",\"tail_hyper_nodes\":"@ + w14;
        let w12 = enc_str_list(e@.head_hyper_nodes) + w13;
        let w11 = ",\"head_hyper_nodes\":"@ + w12;
        let w10 = enc_bool(e@.directed) + w11;
        let w9 = ",\"directed\":"@ + w10;
        let w8 = enc_bool(e@.traversable) + w9;
        let w7 = ",\"traversable\":"@ + w8;
        let w6 = enc_props(e@.main_properties) + w7;
        let w5 = ",\"main_properties\":"@ + w6;
        let w4 = enc_str(e@.name) + w5;
        let w3 = ",\"name\":"@ + w4;
        let w2 = enc_str(e@.id) + w3;
        assert(out@ == g14 + w15);
        lemma_concat_associative(g13, enc_opt_list(e@.tail_hyper_nodes), w15);
        assert(out@ == g13 + w14);
        lemma_concat_associative(g12, ",\"tail_hyper_nodes\":"@, w14);
        assert(out@ == g12 + w13);
        lemma_concat_associative(g11, enc_str_list(e@.head_hyper_nodes), w13);
        assert(out@ == g11 + w12);
        lemma_concat_associative(g10, ",\"head_hyper_nodes\":"@, w12);
        assert(out@ == g10 + w11);
        lemma_concat_associative(g9, enc_bool(e@.directed), w11);
        assert(out@ == g9 + w10);
        lemma_concat_associative(g8, ",\"directed\":"@, w10);
        assert(out@ == g8 + w9);
        lemma_concat_associative(g7, enc_bool(e@.traversable), w9);
        assert(out@ == g7 + w8);
        lemma_concat_associative(g6, ",\"traversable\":"@, w8);
        assert(out@ == g6 + w7);
        lemma_concat_associative(g5, enc_props(e@.main_properties), w7);
        assert(out@ == g5 + w6);
        lemma_concat_associative(g4, ",\"main_properties\":"@, w6);
        assert(out@ == g4 + w5);
        lemma_concat_associative(g3, enc_str(e@.name), w5);
        assert(out@ == g3 + w4);
        lemma_concat_associative(g2, ",\"name\":"@, w4);
        assert(out@ == g2 + w3);
        lemma_concat_associative(g1, enc_str(e@.id), w3);
        assert(out@ == g1 + w2);
        lemma_concat_associative(old(out)@, "{\"id\":"@, w2);
        assert(out@ == old(out)@ + ("{\"id\":"@ + w2));
        assert(enc_simple(e@) == "{\"id\":"@ + w2);
    }
}

/// Consumes an encoded hyperedge record at position `i` of `v`.
pub fn parse_simple_exec(v: &Vec<char>, i: usize) -> (r: Option<(SimpleHyperEdge, usize)>)
    requires
        i <= v.len(),
    ensures
        r matches Some((e, j)) ==> i < j <= v.len() && parse_simple(v@.skip(i as int)) == Some(
            (e@, v@.skip(j as int)),
        ),
        r is None ==> parse_simple(v@.skip(i as int)) is None,
{
    let j1 = match parse_lit_exec(v, i, "{\"id\":") {
        Some(j) => j,
        None => {
            return None;
        },
    };
    let (id, j2) = match parse_string_exec(v, j1) {
        Some(x) => x,
        None => {
            return None;
        },
    };
    let j3 = match parse_lit_exec(v, j2, ",\"name\":") {
        Some(j) => j,
        None => {
            return None;
        },
    };
    let (name, j4) = match parse_string_exec(v, j3) {
        Some(x) => x,
        None => {
            return None;
        },
    };
    let j5 = match parse_lit_exec(v, j4, ",\"main_properties\":") {
        Some(j) => j,
        None => {
            return None;
        },
    };
    let (main_properties, j6) = match parse_props_exec(v, j5) {
        Some(x) => x,
        None => {
            return None;
        },
    };
    let j7 = match parse_lit_exec(v, j6, ",\"traversable\":") {
        Some(j) => j,
        None => {
            return None;
        },
    };
    let (traversable, j8) = match parse_bool_exec(v, j7) {
        Some(x) => x,
        None => {
            return None;
        },
    };
    let j9 = match parse_lit_exec(v, j8, ",\"directed\":") {
        Some(j) => j,
        None => {
            return None;
        },
    };
    let (directed, j10) = match parse_bool_exec(v, j9) {
        Some(x) => x,
        None => {
            return None;
        },
    };
    let j11 = match parse_lit_exec(v, j10, ",\"head_hyper_nodes\":") {
        Some(j) => j,
        None => {
            return None;
        },
    };
    let (head_hyper_nodes, j12) = match parse_str_list_exec(v, j11) {
        Some(x) => x,
        None => {
            return None;
        },
    };
    let j13 = match parse_lit_exec(v, j12, ",\"tail_hyper_nodes\":") {
        Some(j) => j,
        None => {
            return None;
        },
    };
    let (tail_hyper_nodes, j14) = match parse_opt_list_exec(v, j13) {
        Some(x) => x,
        None => {
            return None;
        },
    };
    let j15 = match parse_lit_exec(v, j14, "}") {
        Some(j) => j,
        None => {
            return None;
        },
    };
    let e = SimpleHyperEdge {
        id,
        name,
        main_properties,
        traversable,
        directed,
        head_hyper_nodes,
        tail_hyper_nodes,
    };
    Some((e, j15))
}

/// What a stored payload decodes to as a hyperedge record: the payload must
/// be one whole encoded record.
pub open spec fn spec_decode_simple(s: Seq<char>) -> Option<SimpleHyperEdgeView> {
    match parse_simple(s) {
        Some((e, r)) => if r.len() == 0 {
            Some(e)
        } else {
            None
        },
        None => None,
    }
}

/// Round trip: decoding the encoding of any hyperedge record yields that
/// record back.
pub proof fn lemma_decode_encode_simple(e: SimpleHyperEdgeView)
    ensures
        spec_decode_simple(enc_simple(e)) == Some(e),
{
    lemma_parse_simple(e, Seq::empty());
    assert(enc_simple(e) + Seq::<char>::empty() =~= enc_simple(e));
}

/// The encoding of the hyperedge `e` as a string.
pub fn encode_simple(e: &SimpleHyperEdge) -> (r: String)
    ensures
        r@ == enc_simple(e@),
{
    let mut out: Vec<char> = Vec::new();
    enc_simple_exec(&mut out, e);
    proof {
        assert(out@ =~= enc_simple(e@));
    }
    chars_to_string(&out)
}

/// Decodes one whole encoded hyperedge record, or nothing if the text is
/// not one.
pub fn decode_simple(s: &str) -> (r: Option<SimpleHyperEdge>)
    ensures
        r matches Some(e) ==> spec_decode_simple(s@) == Some(e@),
        r is None ==> spec_decode_simple(s@) is None,
{
    let v = str_to_chars(s);
    proof {
        assert(v@.skip(0) =~= s@);
    }
    match parse_simple_exec(&v, 0) {
        Some((e, j)) => {
            if j == v.len() {
                proof {
                    assert(v@.skip(j as int).len() == 0);
                }
                Some(e)
            } else {
                proof {
                    assert(v@.skip(j as int).len() > 0);
                }
                None
            }
        },
        None => None,
    }
}

} // verus!

verus! {

/// The encoding of a dual hyperedge record.
pub open spec fn enc_dual(e: DualHyperEdgeView) -> Seq<char> {
    "{\"id\":"@ + (enc_str(e.id) + (",\"name\":"@ + (enc_str(e.name) + (",\"simple_hyper_edge\":"@
        + (enc_simple(e.simple_hyper_edge) + (",\"dual_properties\":"@
        + (enc_props(e.dual_properties) + (",\"traversable\":"@ + (enc_bool(e.traversable)
        + (",\"directed\":"@ + (enc_bool(e.directed) + (",\"head_hyper_nodes\":"@
        + (enc_str_list(e.head_hyper_nodes) + (",\"tail_hyper_nodes\":"@
        + (enc_opt_list(e.tail_hyper_nodes) + ("}"@))))))))))))))))
}

/// Consumes an encoded dual hyperedge record.
pub open spec fn parse_dual(s: Seq<char>) -> Option<(DualHyperEdgeView, Seq<char>)> {
    match parse_lit(s, "{\"id\":"@) {
        Some(r1) => match parse_str(r1) {
            Some((f_id, r2)) =>
            match parse_lit(r2, ",\"name\":"@) {
                Some(r3) => match parse_str(r3) {
                    Some((f_name, r4)) =>
                    match parse_lit(r4, ",\"simple_hyper_edge\":"@) {
                        Some(r5) => match parse_simple(r5) {
                            Some((f_simple_hyper_edge, r6)) =>
                            match parse_lit(r6, ",\"dual_properties\":"@) {
                                Some(r7) => match parse_props(r7) {
                                    Some((f_dual_properties, r8)) =>
                                    match parse_lit(r8, ",\"traversable\":"@) {
                                        Some(r9) => match parse_bool(r9) {
                                            Some((f_traversable, r10)) =>
                                            match parse_lit(r10, ",\"directed\":"@) {
                                                Some(r11) => match parse_bool(r11) {
                                                    Some((f_directed, r12)) =>
                                                    match parse_lit(r12, ",\"head_hyper_nodes\":"@) {
                                                        Some(r13) => match parse_str_list(r13) {
                                                            Some((f_head_hyper_nodes, r14)) =>
                                                            match parse_lit(r14, ",\"tail_hyper_nodes\":"@) {
                                                                Some(r15) => match parse_opt_list(r15) {
                                                                    Some((f_tail_hyper_nodes, r16)) =>
                                                                    match parse_lit(r16, "}"@) {
                                                                        Some(rr) => Some((DualHyperEdgeView {
                                                                            id: f_id,
                                                                            name: f_name,
                                                                            simple_hyper_edge: f_simple_hyper_edge,
                                                                            dual_properties: f_dual_properties,
                                                                            traversable: f_traversable,
                                                                            directed: f_directed,
                                                                            head_hyper_nodes: f_head_hyper_nodes,
                                                                            tail_hyper_nodes: f_tail_hyper_nodes,
                                                                        }, rr)),
                                                                        None => None,
                                                                    }
                                                                    None => None,
                                                                }
                                                                None => None,
                                                            }
                                                            None => None,
                                                        }
                                                        None => None,
                                                    }
                                                    None => None,
                                                }
                                                None => None,
                                            }
                                            None => None,
                                        }
                                        None => None,
                                    }
                                    None => None,
                                }
                                None => None,
                            }
                            None => None,
                        }
                        None => None,
                    }
                    None => None,
                }
                None => None,
            }
            None => None,
        }
        None => None,
    }
}

/// Round trip of an encoded dual hyperedge record.
pub proof fn lemma_parse_dual(e: DualHyperEdgeView, rest: Seq<char>)
    ensures
        parse_dual(enc_dual(e) + rest) == Some((e, rest)),
{
    let w17 = "}"@;
    let w16 = enc_opt_list(e.tail_hyper_nodes) + w17;
    let w15 = ",\"tail_hyper_nodes\":"@ + w16;
    let w14 = enc_str_list(e.head_hyper_nodes) + w15;
    let w13 = ",\"head_hyper_nodes\":"@ + w14;
    let w12 = enc_bool(e.directed) + w13;
    let w11 = ",\"directed\":"@ + w12;
    let w10 = enc_bool(e.traversable) + w11;
    let w9 = ",\"traversable\":"@ + w10;
    let w8 = enc_props(e.dual_properties) + w9;
    let w7 = ",\"dual_properties\":"@ + w8;
    let w6 = enc_simple(e.simple_hyper_edge) + w7;
    let w5 = ",\"simple_hyper_edge\":"@ + w6;
    let w4 = enc_str(e.name) + w5;
    let w3 = ",\"name\":"@ + w4;
    let w2 = enc_str(e.id) + w3;
    assert(enc_dual(e) == "{\"id\":"@ + w2);
    lemma_concat_associative("{\"id\":"@, w2, rest);
    lemma_parse_lit("{\"id\":"@, w2 + rest);
    lemma_concat_associative(enc_str(e.id), w3, rest);
    lemma_parse_str(e.id, w3 + rest);
    lemma_concat_associative(",\"name\":"@, w4, rest);
    lemma_parse_lit(",\"name\":"@, w4 + rest);
    lemma_concat_associative(enc_str(e.name), w5, rest);
    lemma_parse_str(e.name, w5 + rest);
    lemma_concat_associative(",\"simple_hyper_edge\":"@, w6, rest);
    lemma_parse_lit(",\"simple_hyper_edge\":"@, w6 + rest);
    lemma_concat_associative(enc_simple(e.simple_hyper_edge), w7, rest);
    lemma_parse_simple(e.simple_hyper_edge, w7 + rest);
    lemma_concat_associative(",\"dual_properties\":"@, w8, rest);
    lemma_parse_lit(",\"dual_properties\":"@, w8 + rest);
    lemma_concat_associative(enc_props(e.dual_properties), w9, rest);
    lemma_parse_props(e.dual_properties, w9 + rest);
    lemma_concat_associative(",\"traversable\":"@, w10, rest);
    lemma_parse_lit(",\"traversable\":"@, w10 + rest);
    lemma_concat_associative(enc_bool(e.traversable), w11, rest);
    lemma_parse_bool(e.traversable, w11 + rest);
    lemma_concat_associative(",\"directed\":"@, w12, rest);
    lemma_parse_lit(",\"directed\":"@, w12 + rest);
    lemma_concat_associative(enc_bool(e.directed), w13, rest);
    lemma_parse_bool(e.directed, w13 + rest);
    lemma_concat_associative(",\"head_hyper_nodes\":"@, w14, rest);
    lemma_parse_lit(",\"head_hyper_nodes\":"@, w14 + rest);
    lemma_concat_associative(enc_str_list(e.head_hyper_nodes), w15, rest);
    lemma_parse_str_list(e.head_hyper_nodes, w15 + rest);
    lemma_concat_associative(",\"tail_hyper_nodes\":"@, w16, rest);
    lemma_parse_lit(",\"tail_hyper_nodes\":"@, w16 + rest);
    lemma_concat_associative(enc_opt_list(e.tail_hyper_nodes), w17, rest);
    lemma_parse_opt_list(e.tail_hyper_nodes, w17 + rest);
    lemma_parse_lit("}"@, rest);
    assert(DualHyperEdgeView {
        id: e.id,
        name: e.name,
        simple_hyper_edge: e.simple_hyper_edge,
        dual_properties: e.dual_properties,
        traversable: e.traversable,
        directed: e.directed,
        head_hyper_nodes: e.head_hyper_nodes,
        tail_hyper_nodes: e.tail_hyper_nodes,
    } == e);
}

/// Appends the encoding of the dual hyperedge record `e` to `out`.
pub fn enc_dual_exec(out: &mut Vec<char>, e: &DualHyperEdge)
    ensures
        final(out)@ == old(out)@ + enc_dual(e@),
{
    push_lit(out, "{\"id\":");
    let ghost g1 = out@;
    enc_str_exec(out, e.id.as_str());
    let ghost g2 = out@;
    push_lit(out, ",\"name\":");
    let ghost g3 = out@;
    enc_str_exec(out, e.name.as_str());
    let ghost g4 = out@;
    push_lit(out, ",\"simple_hyper_edge\":");
    let ghost g5 = out@;
    enc_simple_exec(out, &e.simple_hyper_edge);
    let ghost g6 = out@;
    push_lit(out, ",\"dual_properties\":");
    let ghost g7 = out@;
    enc_props_exec(out, &e.dual_properties);
    let ghost g8 = out@;
    push_lit(out, ",\"traversable\":");
    let ghost g9 = out@;
    enc_bool_exec(out, e.traversable);
    let ghost g10 = out@;
    push_lit(out, ",\"directed\":");
    let ghost g11 = out@;
    enc_bool_exec(out, e.directed);
    let ghost g12 = out@;
    push_lit(out, ",\"head_hyper_nodes\":");
    let ghost g13 = out@;
    enc_str_list_exec(out, &e.head_hyper_nodes);
    let ghost g14 = out@;
    push_lit(out, ",\"tail_hyper_nodes\":");
    let ghost g15 = out@;
    enc_opt_list_exec(out, &e.tail_hyper_nodes);
    let ghost g16 = out@;
    push_lit(out, "}");
    proof {
        let w17 = "}"@;
        let w16 = enc_opt_list(e@.tail_hyper_nodes) + w17;
        let w15 = ",\"tail_hyper_nodes\":"@ + w16;
        let w14 = enc_str_list(e@.head_hyper_nodes) + w15;
        let w13 = ",\"head_hyper_nodes\":"@ + w14;
        let w12 = enc_bool(e@.directed) + w13;
        let w11 = ",\"directed\":"@ + w12;
        let w10 = enc_bool(e@.traversable) + w11;
        let w9 = ",\"traversable\":"@ + w10;
        let w8 = enc_props(e@.dual_properties) + w9;
        let w7 = ",\"dual_properties\":"@ + w8;
        let w6 = enc_simple(e@.simple_hyper_edge) + w7;
        let w5 = ",\"simple_hyper_edge\":"@ + w6;
        let w4 = enc_str(e@.name) + w5;
        let w3 = ",\"name\":"@ + w4;
        let w2 = enc_str(e@.id) + w3;
        assert(out@ == g16 + w17);
        lemma_concat_associative(g15, enc_opt_list(e@.tail_hyper_nodes), w17);
        assert(out@ == g15 + w16);
        lemma_concat_associative(g14, ",\"tail_hyper_nodes\":"@, w16);
        assert(out@ == g14 + w15);
        lemma_concat_associative(g13, enc_str_list(e@.head_hyper_nodes), w15);
        assert(out@ == g13 + w14);
        lemma_concat_associative(g12, ",\"head_hyper_nodes\":"@, w14);
        assert(out@ == g12 + w13);
        lemma_concat_associative(g11, enc_bool(e@.directed), w13);
        assert(out@ == g11 + w12);
        lemma_concat_associative(g10, ",\"directed\":"@, w12);
        assert(out@ == g10 + w11);
        lemma_concat_associative(g9, enc_bool(e@.traversable), w11);
        assert(out@ == g9 + w10);
        lemma_concat_associative(g8, ",\"traversable\":"@, w10);
        assert(out@ == g8 + w9);
        lemma_concat_associative(g7, enc_props(e@.dual_properties), w9);
        assert(out@ == g7 + w8);
        lemma_concat_associative(g6, ",\"dual_properties\":"@, w8);
        assert(out@ == g6 + w7);
        lemma_concat_associative(g5, enc_simple(e@.simple_hyper_edge), w7);
        assert(out@ == g5 + w6);
        lemma_concat_associative(g4, ",\"simple_hyper_edge\":"@, w6);
        assert(out@ == g4 + w5);
        lemma_concat_associative(g3, enc_str(e@.name), w5);
        assert(out@ == g3 + w4);
        lemma_concat_associative(g2, ",\"name\":"@, w4);
        assert(out@ == g2 + w3);
        lemma_concat_associative(g1, enc_str(e@.id), w3);
        assert(out@ == g1 + w2);
        lemma_concat_associative(old(out)@, "{\"id\":"@, w2);
        assert(out@ == old(out)@ + ("{\"id\":"@ + w2));
        assert(enc_dual(e@) == "{\"id\":"@ + w2);
    }
}

/// Consumes an encoded dual hyperedge record at position `i` of `v`.
pub fn parse_dual_exec(v: &Vec<char>, i: usize) -> (r: Option<(DualHyperEdge, usize)>)
    requires
        i <= v.len(),
    ensures
        r matches Some((e, j)) ==> i < j <= v.len() && parse_dual(v@.skip(i as int)) == Some(
            (e@, v@.skip(j as int)),
        ),
        r is None ==> parse_dual(v@.skip(i as int)) is None,
{
    let j1 = match parse_lit_exec(v, i, "{\"id\":") {
        Some(j) => j,
        None => {
            return None;
        },
    };
    let (id, j2) = match parse_string_exec(v, j1) {
        Some(x) => x,
        None => {
            return None;
        },
    };
    let j3 = match parse_lit_exec(v, j2, ",\"name\":") {
        Some(j) => j,
        None => {
            return None;
        },
    };
    let (name, j4) = match parse_string_exec(v, j3) {
        Some(x) => x,
        None => {
            return None;
        },
    };
    let j5 = match parse_lit_exec(v, j4, ",\"simple_hyper_edge\":") {
        Some(j) => j,
        None => {
            return None;
        },
    };
    let (simple_hyper_edge, j6) = match parse_simple_exec(v, j5) {
        Some(x) => x,
        None => {
            return None;
        },
    };
    let j7 = match parse_lit_exec(v, j6, ",\"dual_properties\":") {
        Some(j) => j,
        None => {
            return None;
        },
    };
    let (dual_properties, j8) = match parse_props_exec(v, j7) {
        Some(x) => x,
        None => {
            return None;
        },
    };
    let j9 = match parse_lit_exec(v, j8, ",\"traversable\":") {
        Some(j) => j,
        None => {
            return None;
        },
    };
    let (traversable, j10) = match parse_bool_exec(v, j9) {
        Some(x) => x,
        None => {
            return None;
        },
    };
    let j11 = match parse_lit_exec(v, j10, ",\"directed\":") {
        Some(j) => j,
        None => {
            return None;
        },
    };
    let (directed, j12) = match parse_bool_exec(v, j11) {
        Some(x) => x,
        None => {
            return None;
        },
    };
    let j13 = match parse_lit_exec(v, j12, ",\"head_hyper_nodes\":") {
        Some(j) => j,
        None => {
            return None;
        },
    };
    let (head_hyper_nodes, j14) = match parse_str_list_exec(v, j13) {
        Some(x) => x,
        None => {
            return None;
        },
    };
    let j15 = match parse_lit_exec(v, j14, ",\"tail_hyper_nodes\":") {
        Some(j) => j,
        None => {
            return None;
        },
    };
    let (tail_hyper_nodes, j16) = match parse_opt_list_exec(v, j15) {
        Some(x) => x,
        None => {
            return None;
        },
    };
    let j17 = match parse_lit_exec(v, j16, "}") {
        Some(j) => j,
        None => {
            return None;
        },
    };
    let e = DualHyperEdge {
        id,
        name,
        simple_hyper_edge,
        dual_properties,
        traversable,
        directed,
        head_hyper_nodes,
        tail_hyper_nodes,
    };
    Some((e, j17))
}

/// What a stored payload decodes to as dual hyperedge: the payload must be one whole
/// encoded record.
pub open spec fn spec_decode_dual(s: Seq<char>) -> Option<DualHyperEdgeView> {
    match parse_dual(s) {
        Some((e, r)) => if r.len() == 0 {
            Some(e)
        } else {
            None
        },
        None => None,
    }
}

/// Round trip: decoding the encoding of any dual hyperedge record yields
/// that record back.
pub proof fn lemma_decode_encode_dual(e: DualHyperEdgeView)
    ensures
        spec_decode_dual(enc_dual(e)) == Some(e),
{
    lemma_parse_dual(e, Seq::empty());
    assert(enc_dual(e) + Seq::<char>::empty() =~= enc_dual(e));
}

/// The encoding of the dual hyperedge `e` as a string.
pub fn encode_dual(e: &DualHyperEdge) -> (r: String)
    ensures
        r@ == enc_dual(e@),
{
    let mut out: Vec<char> = Vec::new();
    enc_dual_exec(&mut out, e);
    proof {
        assert(out@ =~= enc_dual(e@));
    }
    chars_to_string(&out)
}

/// Decodes one whole encoded dual hyperedge record, or nothing if the text is not one.
pub fn decode_dual(s: &str) -> (r: Option<DualHyperEdge>)
    ensures
        r matches Some(e) ==> spec_decode_dual(s@) == Some(e@),
        r is None ==> spec_decode_dual(s@) is None,
{
    let v = str_to_chars(s);
    proof {
        assert(v@.skip(0) =~= s@);
    }
    match parse_dual_exec(&v, 0) {
        Some((e, j)) => {
            if j == v.len() {
                proof {
                    assert(v@.skip(j as int).len() == 0);
                }
                Some(e)
            } else {
                proof {
                    assert(v@.skip(j as int).len() > 0);
                }
                None
            }
        },
        None => None,
    }
}

} // verus!
