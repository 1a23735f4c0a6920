//! Primitives of the record text format: strings with escaping, booleans,
//! string lists, optional string lists, and fixed literal text.
//!
//! Encoders are spec functions from values to character sequences; parsers
//! consume a prefix of a character sequence and return the value together
//! with the unconsumed remainder. Every encoder comes with a proved
//! round-trip lemma: parsing an encoding followed by arbitrary text yields
//! the encoded value and that text.

use vstd::prelude::*;

verus! {

/// A character as it appears inside an encoded string: a quote or a
/// backslash is preceded by a backslash, any other character stands as is.
pub open spec fn esc_char(c: char) -> Seq<char> {
    if c == '"' || c == '\\' {
        seq!['\\', c]
    } else {
        seq![c]
    }
}

/// A character sequence with every quote and backslash escaped.
pub open spec fn esc(s: Seq<char>) -> Seq<char>
    decreases s.len(),
{
    if s.len() == 0 {
        Seq::empty()
    } else {
        esc_char(s[0]) + esc(s.drop_first())
    }
}

/// The encoding of a string: its escaped characters between quotes.
pub open spec fn enc_str(s: Seq<char>) -> Seq<char> {
    seq!['"'] + esc(s) + seq!['"']
}

/// The encoding of a boolean.
pub open spec fn enc_bool(b: bool) -> Seq<char> {
    if b {
        "true"@
    } else {
        "false"@
    }
}

/// The encoding of the items of a string list after the first: a comma
/// before each item.
pub open spec fn enc_strs_rest(xs: Seq<Seq<char>>) -> Seq<char>
    decreases xs.len(),
{
    if xs.len() == 0 {
        Seq::empty()
    } else {
        seq![','] + enc_str(xs[0]) + enc_strs_rest(xs.drop_first())
    }
}

/// The encoding of a string list: comma-separated encoded strings between
/// square brackets.
pub open spec fn enc_str_list(xs: Seq<Seq<char>>) -> Seq<char> {
    if xs.len() == 0 {
        seq!['[', ']']
    } else {
        seq!['['] + enc_str(xs[0]) + enc_strs_rest(xs.drop_first()) + seq![']']
    }
}

/// The encoding of an optional string list: the word `null` when absent.
pub open spec fn enc_opt_list(o: Option<Seq<Seq<char>>>) -> Seq<char> {
    match o {
        Some(xs) => enc_str_list(xs),
        None => "null"@,
    }
}

/// Consumes the exact literal `lit` from the front of `s`.
pub open spec fn parse_lit(s: Seq<char>, lit: Seq<char>) -> Option<Seq<char>> {
    if lit.len() <= s.len() && s.take(lit.len() as int) == lit {
        Some(s.skip(lit.len() as int))
    } else {
        None
    }
}

/// Consumes the escaped body of a string up to and including the closing
/// quote, yielding the unescaped characters.
pub open spec fn parse_str_body(s: Seq<char>) -> Option<(Seq<char>, Seq<char>)>
    decreases s.len(),
{
    if s.len() == 0 {
        None
    } else if s[0] == '"' {
        Some((Seq::empty(), s.drop_first()))
    } else if s[0] == '\\' {
        if s.len() >= 2 && (s[1] == '"' || s[1] == '\\') {
            match parse_str_body(s.skip(2)) {
                Some((t, r)) => Some((seq![s[1]] + t, r)),
                None => None,
            }
        } else {
            None
        }
    } else {
        match parse_str_body(s.drop_first()) {
            Some((t, r)) => Some((seq![s[0]] + t, r)),
            None => None,
        }
    }
}

/// Consumes an encoded string: a quote, the escaped body, a quote.
pub open spec fn parse_str(s: Seq<char>) -> Option<(Seq<char>, Seq<char>)> {
    if s.len() > 0 && s[0] == '"' {
        parse_str_body(s.drop_first())
    } else {
        None
    }
}

/// Consumes an encoded boolean.
pub open spec fn parse_bool(s: Seq<char>) -> Option<(bool, Seq<char>)> {
    match parse_lit(s, "true"@) {
        Some(r) => Some((true, r)),
        None => match parse_lit(s, "false"@) {
            Some(r) => Some((false, r)),
            None => None,
        },
    }
}

/// Consumes the items of a string list after the first: either the closing
/// bracket, or a comma and an item and the rest.
pub open spec fn parse_strs_rest(s: Seq<char>) -> Option<(Seq<Seq<char>>, Seq<char>)>
    decreases s.len(),
{
    if s.len() == 0 {
        None
    } else if s[0] == ']' {
        Some((Seq::empty(), s.drop_first()))
    } else if s[0] == ',' {
        match parse_str(s.drop_first()) {
            Some((x, r)) => if r.len() < s.len() {
                match parse_strs_rest(r) {
                    Some((xs, r2)) => Some((seq![x] + xs, r2)),
                    None => None,
                }
            } else {
                None
            },
            None => None,
        }
    } else {
        None
    }
}

/// Consumes an encoded string list.
pub open spec fn parse_str_list(s: Seq<char>) -> Option<(Seq<Seq<char>>, Seq<char>)> {
    if s.len() >= 2 && s[0] == '[' && s[1] == ']' {
        Some((Seq::empty(), s.skip(2)))
    } else if s.len() > 0 && s[0] == '[' {
        match parse_str(s.drop_first()) {
            Some((x, r)) => match parse_strs_rest(r) {
                Some((xs, r2)) => Some((seq![x] + xs, r2)),
                None => None,
            },
            None => None,
        }
    } else {
        None
    }
}

/// Consumes an encoded optional string list.
pub open spec fn parse_opt_list(s: Seq<char>) -> Option<(Option<Seq<Seq<char>>>, Seq<char>)> {
    if s.len() > 0 && s[0] == 'n' {
        match parse_lit(s, "null"@) {
            Some(r) => Some((None, r)),
            None => None,
        }
    } else {
        match parse_str_list(s) {
            Some((xs, r)) => Some((Some(xs), r)),
            None => None,
        }
    }
}

/// Parsing a literal from itself followed by anything consumes exactly the
/// literal.
pub proof fn lemma_parse_lit(lit: Seq<char>, rest: Seq<char>)
    ensures
        parse_lit(lit + rest, lit) == Some(rest),
{
    assert((lit + rest).take(lit.len() as int) =~= lit);
    assert((lit + rest).skip(lit.len() as int) =~= rest);
}

/// Round trip of the escaped string body.
pub proof fn lemma_parse_str_body(v: Seq<char>, rest: Seq<char>)
    ensures
        parse_str_body(esc(v) + seq!['"'] + rest) == Some((v, rest)),
    decreases v.len(),
{
    let s = esc(v) + seq!['"'] + rest;
    if v.len() == 0 {
        assert(esc(v) == Seq::<char>::empty());
        assert(s[0] == '"');
        assert(s.drop_first() =~= rest);
    } else {
        let c = v[0];
        let vt = v.drop_first();
        assert(esc(v) == esc_char(c) + esc(vt));
        lemma_parse_str_body(vt, rest);
        if c == '"' || c == '\\' {
            assert(s[0] == '\\');
            assert(s[1] == c);
            assert(s.len() >= 2);
            assert(s.skip(2) =~= esc(vt) + seq!['"'] + rest);
            assert(seq![s[1]] + vt =~= v);
        } else {
            assert(s[0] == c);
            assert(s.drop_first() =~= esc(vt) + seq!['"'] + rest);
            assert(seq![s[0]] + vt =~= v);
        }
    }
}

/// Round trip of an encoded string: parsing it followed by anything yields
/// the string and that remainder.
pub proof fn lemma_parse_str(v: Seq<char>, rest: Seq<char>)
    ensures
        parse_str(enc_str(v) + rest) == Some((v, rest)),
{
    let s = enc_str(v) + rest;
    assert(s[0] == '"');
    assert(s.drop_first() =~= esc(v) + seq!['"'] + rest);
    lemma_parse_str_body(v, rest);
}

/// Round trip of an encoded boolean.
pub proof fn lemma_parse_bool(b: bool, rest: Seq<char>)
    ensures
        parse_bool(enc_bool(b) + rest) == Some((b, rest)),
{
    reveal_strlit("true");
    reveal_strlit("false");
    if b {
        lemma_parse_lit("true"@, rest);
    } else {
        lemma_parse_lit("false"@, rest);
        let s = "false"@ + rest;
        assert(s[0] == 'f');
        assert(parse_lit(s, "true"@) is None) by {
            if parse_lit(s, "true"@) is Some {
                assert(s.take("true"@.len() as int)[0] == "true"@[0]);
            }
        }
    }
}

/// Round trip of the items of a string list after the first.
pub proof fn lemma_parse_strs_rest(xs: Seq<Seq<char>>, rest: Seq<char>)
    ensures
        parse_strs_rest(enc_strs_rest(xs) + seq![']'] + rest) == Some((xs, rest)),
    decreases xs.len(),
{
    let s = enc_strs_rest(xs) + seq![']'] + rest;
    if xs.len() == 0 {
        assert(enc_strs_rest(xs) == Seq::<char>::empty());
        assert(s[0] == ']');
        assert(s.drop_first() =~= rest);
    } else {
        let x0 = xs[0];
        let xt = xs.drop_first();
        assert(enc_strs_rest(xs) == seq![','] + enc_str(x0) + enc_strs_rest(xt));
        assert(s[0] == ',');
        assert(s[0] != ']');
        let r = enc_strs_rest(xt) + seq![']'] + rest;
        assert(s.drop_first() =~= enc_str(x0) + r);
        lemma_parse_str(x0, r);
        assert(r.len() < s.len());
        lemma_parse_strs_rest(xt, rest);
        assert(seq![x0] + xt =~= xs);
    }
}

/// Round trip of an encoded string list.
pub proof fn lemma_parse_str_list(xs: Seq<Seq<char>>, rest: Seq<char>)
    ensures
        parse_str_list(enc_str_list(xs) + rest) == Some((xs, rest)),
{
    let s = enc_str_list(xs) + rest;
    if xs.len() == 0 {
        assert(s[0] == '[');
        assert(s[1] == ']');
        assert(s.skip(2) =~= rest);
    } else {
        let x0 = xs[0];
        let xt = xs.drop_first();
        assert(s[0] == '[');
        let r = enc_strs_rest(xt) + seq![']'] + rest;
        assert(s.drop_first() =~= enc_str(x0) + r);
        lemma_parse_str(x0, r);
        assert(enc_str(x0).len() >= 2);
        assert(s[1] == enc_str(x0)[0]);
        assert(s[1] == '"');
        assert(s[1] != ']');
        lemma_parse_strs_rest(xt, rest);
        assert(seq![x0] + xt =~= xs);
    }
}

/// Round trip of an encoded optional string list.
pub proof fn lemma_parse_opt_list(o: Option<Seq<Seq<char>>>, rest: Seq<char>)
    ensures
        parse_opt_list(enc_opt_list(o) + rest) == Some((o, rest)),
{
    reveal_strlit("null");
    match o {
        None => {
            let s = "null"@ + rest;
            assert(s[0] == 'n');
            lemma_parse_lit("null"@, rest);
        },
        Some(xs) => {
            let s = enc_str_list(xs) + rest;
            assert(s[0] == '[');
            assert(s[0] != 'n');
            lemma_parse_str_list(xs, rest);
        },
    }
}

} // verus!

verus! {

/// The characters of a string, in order.
pub fn str_to_chars(s: &str) -> (r: Vec<char>)
    ensures
        r@ == s@,
{
    let n = s.unicode_len();
    let mut r: Vec<char> = Vec::new();
    let mut k: usize = 0;
    while k < n
        invariant
            k <= n,
            n == s@.len(),
            r@ == s@.take(k as int),
        decreases n - k,
    {
        let c = s.get_char(k);
        r.push(c);
        assert(r@ =~= s@.take(k as int + 1));
        k += 1;
    }
    assert(r@ =~= s@);
    r
}

/// Relies on String's `FromIterator<char>`: collecting characters yields a
/// string holding exactly those characters in order.
#[verifier::external_body]
pub(crate) fn chars_to_string(v: &Vec<char>) -> (r: String)
    ensures
        r@ == v@,
{
    v.iter().collect()
}

/// Appends the characters of `v` to `out`.
pub fn push_chars(out: &mut Vec<char>, v: &Vec<char>)
    ensures
        final(out)@ == old(out)@ + v@,
{
    let mut k: usize = 0;
    while k < v.len()
        invariant
            k <= v.len(),
            out@ == old(out)@ + v@.take(k as int),
        decreases v.len() - k,
    {
        out.push(v[k]);
        assert(out@ =~= old(out)@ + v@.take(k as int + 1));
        k += 1;
    }
    assert(out@ =~= old(out)@ + v@);
}

/// Appends the characters of the literal `lit` to `out`.
pub fn push_lit(out: &mut Vec<char>, lit: &str)
    ensures
        final(out)@ == old(out)@ + lit@,
{
    let l = str_to_chars(lit);
    push_chars(out, &l);
}

/// Appends the escaped form of `v` from position `i` on to `out`.
fn esc_exec(out: &mut Vec<char>, v: &Vec<char>, i: usize)
    requires
        i <= v.len(),
    ensures
        final(out)@ == old(out)@ + esc(v@.skip(i as int)),
    decreases v.len() - i,
{
    if i < v.len() {
        let c = v[i];
        if c == '"' || c == '\\' {
            out.push('\\');
            out.push(c);
        } else {
            out.push(c);
        }
        proof {
            assert(out@ =~= old(out)@ + esc_char(v@[i as int]));
        }
        let ghost mid = out@;
        esc_exec(out, v, i + 1);
        proof {
            let s = v@.skip(i as int);
            assert(s.len() > 0);
            assert(s[0] == v@[i as int]);
            assert(s.drop_first() =~= v@.skip(i as int + 1));
            assert(out@ == mid + esc(v@.skip(i as int + 1)));
            assert(out@ =~= old(out)@ + esc(s));
        }
    } else {
        proof {
            assert(v@.skip(i as int) =~= Seq::<char>::empty());
            assert(out@ =~= old(out)@ + esc(v@.skip(i as int)));
        }
    }
}

/// Appends the encoding of the string `s` to `out`.
pub fn enc_str_exec(out: &mut Vec<char>, s: &str)
    ensures
        final(out)@ == old(out)@ + enc_str(s@),
{
    let chars = str_to_chars(s);
    out.push('"');
    esc_exec(out, &chars, 0);
    out.push('"');
    proof {
        assert(chars@.skip(0) =~= s@);
        assert(out@ =~= old(out)@ + enc_str(s@));
    }
}

/// Appends the encoding of the boolean `b` to `out`.
pub fn enc_bool_exec(out: &mut Vec<char>, b: bool)
    ensures
        final(out)@ == old(out)@ + enc_bool(b),
{
    if b {
        push_lit(out, "true");
    } else {
        push_lit(out, "false");
    }
}

/// Appends the encodings of the items of `xs` from position `i` on, each
/// preceded by a comma.
fn enc_strs_rest_exec(out: &mut Vec<char>, xs: &Vec<String>, i: usize)
    requires
        i <= xs.len(),
    ensures
        final(out)@ == old(out)@ + enc_strs_rest(xs.deep_view().skip(i as int)),
    decreases xs.len() - i,
{
    if i < xs.len() {
        out.push(',');
        enc_str_exec(out, xs[i].as_str());
        let ghost mid = out@;
        enc_strs_rest_exec(out, xs, i + 1);
        proof {
            let s = xs.deep_view().skip(i as int);
            assert(s.len() > 0);
            assert(s[0] == xs.deep_view()[i as int]);
            assert(xs.deep_view()[i as int] == xs@[i as int]@);
            assert(s.drop_first() =~= xs.deep_view().skip(i as int + 1));
            assert(mid =~= old(out)@ + seq![','] + enc_str(xs@[i as int]@));
            assert(out@ =~= old(out)@ + enc_strs_rest(s));
        }
    } else {
        proof {
            assert(xs.deep_view().skip(i as int) =~= Seq::<Seq<char>>::empty());
            assert(out@ =~= old(out)@ + enc_strs_rest(xs.deep_view().skip(i as int)));
        }
    }
}

/// Appends the encoding of the string list `xs` to `out`.
pub fn enc_str_list_exec(out: &mut Vec<char>, xs: &Vec<String>)
    ensures
        final(out)@ == old(out)@ + enc_str_list(xs.deep_view()),
{
    out.push('[');
    if xs.len() == 0 {
        out.push(']');
        proof {
            assert(xs.deep_view().len() == 0);
            assert(out@ =~= old(out)@ + enc_str_list(xs.deep_view()));
        }
    } else {
        enc_str_exec(out, xs[0].as_str());
        enc_strs_rest_exec(out, xs, 1);
        out.push(']');
        proof {
            let d = xs.deep_view();
            assert(d.len() == xs@.len());
            assert(d[0] == xs@[0]@);
            assert(d.skip(1) =~= d.drop_first());
            assert(out@ =~= old(out)@ + enc_str_list(d));
        }
    }
}

/// Appends the encoding of the optional string list `o` to `out`.
pub fn enc_opt_list_exec(out: &mut Vec<char>, o: &Option<Vec<String>>)
    ensures
        final(out)@ == old(out)@ + enc_opt_list(o.deep_view()),
{
    match o {
        Some(xs) => {
            enc_str_list_exec(out, xs);
        },
        None => {
            push_lit(out, "null");
        },
    }
}

/// Consumes the literal `lit` at position `i` of `v`.
pub fn parse_lit_exec(v: &Vec<char>, i: usize, lit: &str) -> (r: Option<usize>)
    requires
        i <= v.len(),
    ensures
        r matches Some(j) ==> i <= j <= v.len() && j == i + lit@.len() && parse_lit(
            v@.skip(i as int),
            lit@,
        ) == Some(v@.skip(j as int)),
        r is None ==> parse_lit(v@.skip(i as int), lit@) is None,
{
    let l = str_to_chars(lit);
    if v.len() - i < l.len() {
        proof {
            assert(v@.skip(i as int).len() < lit@.len());
        }
        return None;
    }
    let mut k: usize = 0;
    while k < l.len()
        invariant
            i + l.len() <= v.len(),
            l@ == lit@,
            k <= l.len(),
            forall|m: int| 0 <= m < k ==> v@[i + m] == lit@[m],
        decreases l.len() - k,
    {
        if v[i + k] != l[k] {
            proof {
                let s = v@.skip(i as int);
                assert(s.take(lit@.len() as int)[k as int] == v@[i + k]);
                assert(s.take(lit@.len() as int) != lit@);
            }
            return None;
        }
        k += 1;
    }
    proof {
        let s = v@.skip(i as int);
        assert(s.take(lit@.len() as int) =~= lit@);
        assert(s.skip(lit@.len() as int) =~= v@.skip(i + lit@.len() as int));
    }
    Some(i + l.len())
}

/// Consumes the escaped body of a string at position `i` of `v`, appending
/// the unescaped characters to `out`.
fn parse_str_chars_exec(v: &Vec<char>, i: usize, out: &mut Vec<char>) -> (r: Option<usize>)
    requires
        i <= v.len(),
    ensures
        r matches Some(j) ==> (i < j <= v.len() && (parse_str_body(v@.skip(i as int)) matches Some(
            (t, rem),
        ) && final(out)@ == old(out)@ + t && rem == v@.skip(j as int))),
        r is None ==> parse_str_body(v@.skip(i as int)) is None,
    decreases v.len() - i,
{
    if i >= v.len() {
        return None;
    }
    let c = v[i];
    if c == '"' {
        proof {
            let s = v@.skip(i as int);
            assert(s[0] == '"');
            assert(s.drop_first() =~= v@.skip(i as int + 1));
            assert(out@ =~= out@ + Seq::<char>::empty());
        }
        return Some(i + 1);
    }
    if c == '\\' {
        if i + 1 < v.len() {
            let d = v[i + 1];
            if d == '"' || d == '\\' {
                out.push(d);
                let ghost mid = out@;
                let r = parse_str_chars_exec(v, i + 2, out);
                proof {
                    let s = v@.skip(i as int);
                    assert(s[0] == '\\');
                    assert(s.len() >= 2);
                    assert(s[1] == d);
                    assert(s.skip(2) =~= v@.skip(i as int + 2));
                }
                match r {
                    Some(j) => {
                        proof {
                            let s = v@.skip(i as int);
                            let p = parse_str_body(v@.skip(i as int + 2));
                            assert(p is Some);
                            let t2 = p->Some_0.0;
                            assert(out@ == mid + t2);
                            assert(mid == old(out)@ + seq![d]);
                            assert(out@ =~= old(out)@ + (seq![d] + t2));
                            assert(parse_str_body(s) == Some((seq![d] + t2, p->Some_0.1)));
                        }
                        Some(j)
                    },
                    None => None,
                }
            } else {
                proof {
                    let s = v@.skip(i as int);
                    assert(s[0] == '\\');
                    assert(s[1] == v@[i + 1]);
                }
                None
            }
        } else {
            proof {
                let s = v@.skip(i as int);
                assert(s[0] == '\\');
                assert(s.len() < 2);
            }
            None
        }
    } else {
        out.push(c);
        let ghost mid = out@;
        let r = parse_str_chars_exec(v, i + 1, out);
        proof {
            let s = v@.skip(i as int);
            assert(s[0] == c);
            assert(s.drop_first() =~= v@.skip(i as int + 1));
        }
        match r {
            Some(j) => {
                proof {
                    let s = v@.skip(i as int);
                    let p = parse_str_body(v@.skip(i as int + 1));
                    assert(p is Some);
                    let t2 = p->Some_0.0;
                    assert(out@ == mid + t2);
                    assert(mid == old(out)@ + seq![c]);
                    assert(out@ =~= old(out)@ + (seq![c] + t2));
                    assert(parse_str_body(s) == Some((seq![c] + t2, p->Some_0.1)));
                }
                Some(j)
            },
            None => None,
        }
    }
}

/// Consumes an encoded string at position `i` of `v`.
pub fn parse_string_exec(v: &Vec<char>, i: usize) -> (r: Option<(String, usize)>)
    requires
        i <= v.len(),
    ensures
        r matches Some((sv, j)) ==> i < j <= v.len() && parse_str(v@.skip(i as int)) == Some(
            (sv@, v@.skip(j as int)),
        ),
        r is None ==> parse_str(v@.skip(i as int)) is None,
{
    if i < v.len() {
        let c = v[i];
        if c == '"' {
            let mut buf: Vec<char> = Vec::new();
            proof {
                assert(v@.skip(i as int)[0] == '"');
                assert(v@.skip(i as int).drop_first() =~= v@.skip(i as int + 1));
            }
            match parse_str_chars_exec(v, i + 1, &mut buf) {
                Some(j) => {
                    let s = chars_to_string(&buf);
                    proof {
                        let p = parse_str_body(v@.skip(i as int + 1));
                        let t = p->Some_0.0;
                        assert(buf@ =~= Seq::<char>::empty() + t);
                        assert(buf@ == t);
                    }
                    Some((s, j))
                },
                None => None,
            }
        } else {
            None
        }
    } else {
        None
    }
}

/// Consumes an encoded boolean at position `i` of `v`.
pub fn parse_bool_exec(v: &Vec<char>, i: usize) -> (r: Option<(bool, usize)>)
    requires
        i <= v.len(),
    ensures
        r matches Some((b, j)) ==> i < j <= v.len() && parse_bool(v@.skip(i as int)) == Some(
            (b, v@.skip(j as int)),
        ),
        r is None ==> parse_bool(v@.skip(i as int)) is None,
{
    proof {
        reveal_strlit("true");
        reveal_strlit("false");
    }
    match parse_lit_exec(v, i, "true") {
        Some(j) => Some((true, j)),
        None => match parse_lit_exec(v, i, "false") {
            Some(j) => Some((false, j)),
            None => None,
        },
    }
}

/// Consumes the items of a string list after the first, at position `i` of
/// `v`, appending the items to `out`.
fn parse_strs_rest_exec(v: &Vec<char>, i: usize, out: &mut Vec<String>) -> (r: Option<usize>)
    requires
        i <= v.len(),
    ensures
        r matches Some(j) ==> (i < j <= v.len() && (parse_strs_rest(v@.skip(i as int)) matches Some(
            (xs, rem),
        ) && final(out).deep_view() == old(out).deep_view() + xs && rem == v@.skip(j as int))),
        r is None ==> parse_strs_rest(v@.skip(i as int)) is None,
    decreases v.len() - i,
{
    if i >= v.len() {
        return None;
    }
    let c = v[i];
    if c == ']' {
        proof {
            let s = v@.skip(i as int);
            assert(s[0] == ']');
            assert(s.drop_first() =~= v@.skip(i as int + 1));
            assert(out.deep_view() =~= out.deep_view() + Seq::<Seq<char>>::empty());
        }
        return Some(i + 1);
    }
    if c == ',' {
        proof {
            let s = v@.skip(i as int);
            assert(s[0] == ',');
            assert(s.drop_first() =~= v@.skip(i as int + 1));
        }
        match parse_string_exec(v, i + 1) {
            Some((x0, j0)) => {
                out.push(x0);
                let ghost middv = out.deep_view();
                proof {
                    assert(middv =~= old(out).deep_view().push(x0@));
                }
                match parse_strs_rest_exec(v, j0, out) {
                    Some(j) => {
                        proof {
                            let s = v@.skip(i as int);
                            let p = parse_strs_rest(v@.skip(j0 as int));
                            assert(p is Some);
                            let xs2 = p->Some_0.0;
                            assert(v@.skip(j0 as int).len() < s.len());
                            assert(out.deep_view() == middv + xs2);
                            assert(out.deep_view() =~= old(out).deep_view() + (seq![x0@] + xs2));
                            assert(parse_strs_rest(s) == Some(
                                (seq![x0@] + xs2, p->Some_0.1),
                            ));
                        }
                        Some(j)
                    },
                    None => None,
                }
            },
            None => None,
        }
    } else {
        proof {
            let s = v@.skip(i as int);
            assert(s[0] == c);
        }
        None
    }
}

/// Consumes an encoded string list at position `i` of `v`.
pub fn parse_str_list_exec(v: &Vec<char>, i: usize) -> (r: Option<(Vec<String>, usize)>)
    requires
        i <= v.len(),
    ensures
        r matches Some((ys, j)) ==> i < j <= v.len() && parse_str_list(v@.skip(i as int)) == Some(
            (ys.deep_view(), v@.skip(j as int)),
        ),
        r is None ==> parse_str_list(v@.skip(i as int)) is None,
{
    if i < v.len() && v[i] == '[' {
        if i + 1 < v.len() && v[i + 1] == ']' {
            let ys: Vec<String> = Vec::new();
            proof {
                let s = v@.skip(i as int);
                assert(s.len() >= 2);
                assert(s[0] == '[');
                assert(s[1] == v@[i + 1]);
                assert(s.skip(2) =~= v@.skip(i as int + 2));
                assert(ys.deep_view() =~= Seq::<Seq<char>>::empty());
            }
            return Some((ys, i + 2));
        }
        proof {
            let s = v@.skip(i as int);
            assert(s[0] == '[');
            assert(s.len() >= 2 ==> s[1] == v@[i + 1]);
            assert(s.drop_first() =~= v@.skip(i as int + 1));
        }
        let mut ys: Vec<String> = Vec::new();
        match parse_string_exec(v, i + 1) {
            Some((x0, j0)) => {
                ys.push(x0);
                let ghost middv = ys.deep_view();
                proof {
                    assert(middv =~= seq![x0@]);
                }
                match parse_strs_rest_exec(v, j0, &mut ys) {
                    Some(j) => {
                        proof {
                            let s = v@.skip(i as int);
                            let p = parse_strs_rest(v@.skip(j0 as int));
                            assert(p is Some);
                            let xs2 = p->Some_0.0;
                            assert(ys.deep_view() == middv + xs2);
                            assert(ys.deep_view() =~= seq![x0@] + xs2);
                            assert(parse_str_list(s) == Some((seq![x0@] + xs2, p->Some_0.1)));
                        }
                        Some((ys, j))
                    },
                    None => None,
                }
            },
            None => None,
        }
    } else {
        None
    }
}

/// Consumes an encoded optional string list at position `i` of `v`.
pub fn parse_opt_list_exec(v: &Vec<char>, i: usize) -> (r: Option<(Option<Vec<String>>, usize)>)
    requires
        i <= v.len(),
    ensures
        r matches Some((o, j)) ==> i < j <= v.len() && parse_opt_list(v@.skip(i as int)) == Some(
            (o.deep_view(), v@.skip(j as int)),
        ),
        r is None ==> parse_opt_list(v@.skip(i as int)) is None,
{
    if i < v.len() && v[i] == 'n' {
        proof {
            assert(v@.skip(i as int)[0] == 'n');
        }
        match parse_lit_exec(v, i, "null") {
            Some(j) => {
                proof {
                    reveal_strlit("null");
                    let o: Option<Vec<String>> = None;
                    assert(o.deep_view() is None);
                }
                Some((None, j))
            },
            None => None,
        }
    } else {
        proof {
            if v@.skip(i as int).len() > 0 {
                assert(v@.skip(i as int)[0] == v@[i as int]);
            }
        }
        match parse_str_list_exec(v, i) {
            Some((ys, j)) => {
                proof {
                    let o: Option<Vec<String>> = Some(ys);
                }
                Some((Some(ys), j))
            },
            None => None,
        }
    }
}

} // verus!
