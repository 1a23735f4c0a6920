//! The configuration surface: one textual key/value setting, `db_path`,
//! naming the location the persistence gateway opens. Reading the file is
//! the caller's business; this module extracts the setting from the file's
//! text.
//!
//! The setting is taken from the first line that starts with `db_path`: the
//! text between the first equals sign and the second (or the line's end),
//! stripped of surrounding blanks and then of surrounding quotes.

use crate::codec::text::{chars_to_string, parse_lit, parse_lit_exec, str_to_chars};
use vstd::prelude::*;

verus! {

/// A blank as the setting's value may be padded with.
pub open spec fn is_config_space(c: char) -> bool {
    c == ' ' || c == '\t' || c == '\r'
}

/// Whether `s` starts with the prefix `p`.
pub open spec fn starts_with(s: Seq<char>, p: Seq<char>) -> bool {
    parse_lit(s, p) is Some
}

/// The text up to the first line break.
pub open spec fn spec_first_line(s: Seq<char>) -> Seq<char>
    decreases s.len(),
{
    if s.len() == 0 {
        Seq::empty()
    } else if s[0] == '\n' {
        Seq::empty()
    } else {
        seq![s[0]] + spec_first_line(s.drop_first())
    }
}

/// The text after the first line break; empty when there is none.
pub open spec fn spec_rest_lines(s: Seq<char>) -> Seq<char>
    decreases s.len(),
{
    if s.len() == 0 {
        Seq::empty()
    } else if s[0] == '\n' {
        s.drop_first()
    } else {
        spec_rest_lines(s.drop_first())
    }
}

/// The first line of `s` that starts with `db_path`, if any.
pub open spec fn spec_find_db_line(s: Seq<char>) -> Option<Seq<char>>
    decreases s.len(),
{
    if s.len() == 0 {
        None
    } else if starts_with(spec_first_line(s), "db_path"@) {
        Some(spec_first_line(s))
    } else {
        let r = spec_rest_lines(s);
        if r.len() < s.len() {
            spec_find_db_line(r)
        } else {
            None
        }
    }
}

/// The text up to the first equals sign.
pub open spec fn spec_eq_segment(s: Seq<char>) -> Seq<char>
    decreases s.len(),
{
    if s.len() == 0 {
        Seq::empty()
    } else if s[0] == '=' {
        Seq::empty()
    } else {
        seq![s[0]] + spec_eq_segment(s.drop_first())
    }
}

/// The text between the first equals sign and the second (or the end);
/// nothing when the line holds no equals sign.
pub open spec fn spec_after_eq(s: Seq<char>) -> Option<Seq<char>>
    decreases s.len(),
{
    if s.len() == 0 {
        None
    } else if s[0] == '=' {
        Some(spec_eq_segment(s.drop_first()))
    } else {
        spec_after_eq(s.drop_first())
    }
}

/// `s` without leading blanks.
pub open spec fn trim_front(s: Seq<char>) -> Seq<char>
    decreases s.len(),
{
    if s.len() > 0 && is_config_space(s[0]) {
        trim_front(s.drop_first())
    } else {
        s
    }
}

/// `s` without trailing blanks.
pub open spec fn trim_back(s: Seq<char>) -> Seq<char>
    decreases s.len(),
{
    if s.len() > 0 && is_config_space(s.last()) {
        trim_back(s.drop_last())
    } else {
        s
    }
}

/// `s` without surrounding blanks.
pub open spec fn spec_trim(s: Seq<char>) -> Seq<char> {
    trim_back(trim_front(s))
}

/// `s` without leading quotes.
pub open spec fn quotes_front(s: Seq<char>) -> Seq<char>
    decreases s.len(),
{
    if s.len() > 0 && s[0] == '"' {
        quotes_front(s.drop_first())
    } else {
        s
    }
}

/// `s` without trailing quotes.
pub open spec fn quotes_back(s: Seq<char>) -> Seq<char>
    decreases s.len(),
{
    if s.len() > 0 && s.last() == '"' {
        quotes_back(s.drop_last())
    } else {
        s
    }
}

/// `s` without surrounding quotes.
pub open spec fn spec_unquote(s: Seq<char>) -> Seq<char> {
    quotes_back(quotes_front(s))
}

/// The storage location named by the configuration text `s`, if any: the
/// value of the first `db_path` line, unpadded and unquoted.
pub open spec fn spec_parse_db_path(s: Seq<char>) -> Option<Seq<char>> {
    match spec_find_db_line(s) {
        Some(l) => match spec_after_eq(l) {
            Some(seg) => Some(spec_unquote(spec_trim(seg))),
            None => None,
        },
        None => None,
    }
}

/// Splits the text at position `i` of `v`: appends the first line to `out`
/// and returns where the remaining lines start.
fn line_split_exec(v: &Vec<char>, i: usize, out: &mut Vec<char>) -> (j: usize)
    requires
        i <= v.len(),
    ensures
        i <= j <= v.len(),
        i < v.len() ==> i < j,
        final(out)@ == old(out)@ + spec_first_line(v@.skip(i as int)),
        v@.skip(j as int) == spec_rest_lines(v@.skip(i as int)),
    decreases v.len() - i,
{
    if i >= v.len() {
        proof {
            assert(v@.skip(i as int) =~= Seq::<char>::empty());
            assert(out@ =~= out@ + Seq::<char>::empty());
        }
        return i;
    }
    let c = v[i];
    proof {
        let s = v@.skip(i as int);
        assert(s[0] == c);
        assert(s.drop_first() =~= v@.skip(i as int + 1));
    }
    if c == '\n' {
        proof {
            assert(out@ =~= out@ + Seq::<char>::empty());
        }
        return i + 1;
    }
    out.push(c);
    let ghost mid = out@;
    let j = line_split_exec(v, i + 1, out);
    proof {
        let s = v@.skip(i as int);
        assert(out@ == mid + spec_first_line(v@.skip(i as int + 1)));
        assert(out@ =~= old(out)@ + (seq![c] + spec_first_line(v@.skip(i as int + 1))));
    }
    j
}

/// The first line starting with `db_path` at or after position `i` of `v`.
fn find_db_line_exec(v: &Vec<char>, i: usize) -> (r: Option<Vec<char>>)
    requires
        i <= v.len(),
    ensures
        match spec_find_db_line(v@.skip(i as int)) {
            Some(l) => r matches Some(x) && x@ == l,
            None => r is None,
        },
    decreases v.len() - i,
{
    if i >= v.len() {
        proof {
            assert(v@.skip(i as int).len() == 0);
        }
        return None;
    }
    let mut line: Vec<char> = Vec::new();
    let j = line_split_exec(v, i, &mut line);
    proof {
        assert(line@ =~= Seq::<char>::empty() + spec_first_line(v@.skip(i as int)));
        assert(line@.skip(0) =~= line@);
    }
    match parse_lit_exec(&line, 0, "db_path") {
        Some(_) => Some(line),
        None => {
            proof {
                assert(v@.skip(j as int).len() < v@.skip(i as int).len());
            }
            find_db_line_exec(v, j)
        },
    }
}

/// Appends to `out` the text at position `i` of `v` up to the first equals
/// sign.
fn eq_segment_exec(v: &Vec<char>, i: usize, out: &mut Vec<char>)
    requires
        i <= v.len(),
    ensures
        final(out)@ == old(out)@ + spec_eq_segment(v@.skip(i as int)),
    decreases v.len() - i,
{
    if i >= v.len() {
        proof {
            assert(v@.skip(i as int) =~= Seq::<char>::empty());
            assert(out@ =~= out@ + Seq::<char>::empty());
        }
        return ;
    }
    let c = v[i];
    proof {
        let s = v@.skip(i as int);
        assert(s[0] == c);
        assert(s.drop_first() =~= v@.skip(i as int + 1));
    }
    if c == '=' {
        proof {
            assert(out@ =~= out@ + Seq::<char>::empty());
        }
        return ;
    }
    out.push(c);
    let ghost mid = out@;
    eq_segment_exec(v, i + 1, out);
    proof {
        assert(out@ == mid + spec_eq_segment(v@.skip(i as int + 1)));
        assert(out@ =~= old(out)@ + (seq![c] + spec_eq_segment(v@.skip(i as int + 1))));
    }
}

/// The text of `v` after position `i` between the first equals sign and
/// the second (or the end), if there is an equals sign.
fn after_eq_exec(v: &Vec<char>, i: usize) -> (r: Option<Vec<char>>)
    requires
        i <= v.len(),
    ensures
        match spec_after_eq(v@.skip(i as int)) {
            Some(seg) => r matches Some(x) && x@ == seg,
            None => r is None,
        },
    decreases v.len() - i,
{
    if i >= v.len() {
        proof {
            assert(v@.skip(i as int).len() == 0);
        }
        return None;
    }
    let c = v[i];
    proof {
        let s = v@.skip(i as int);
        assert(s[0] == c);
        assert(s.drop_first() =~= v@.skip(i as int + 1));
    }
    if c == '=' {
        let mut seg: Vec<char> = Vec::new();
        eq_segment_exec(v, i + 1, &mut seg);
        proof {
            assert(seg@ =~= Seq::<char>::empty() + spec_eq_segment(v@.skip(i as int + 1)));
        }
        Some(seg)
    } else {
        after_eq_exec(v, i + 1)
    }
}

/// `v` without surrounding blanks.
fn trim_exec(v: &Vec<char>) -> (r: Vec<char>)
    ensures
        r@ == spec_trim(v@),
{
    let mut a: usize = 0;
    assert(v@.skip(0) =~= v@);
    while a < v.len() && (v[a] == ' ' || v[a] == '\t' || v[a] == '\r')
        invariant
            a <= v@.len(),
            trim_front(v@) == trim_front(v@.skip(a as int)),
        decreases v@.len() - a,
    {
        proof {
            let s = v@.skip(a as int);
            assert(s[0] == v@[a as int]);
            assert(s.drop_first() =~= v@.skip(a as int + 1));
        }
        a += 1;
    }
    proof {
        let s = v@.skip(a as int);
        if a < v.len() {
            assert(s[0] == v@[a as int]);
        }
        assert(trim_front(v@) == s);
    }
    let mut b: usize = v.len();
    while b > a && (v[b - 1] == ' ' || v[b - 1] == '\t' || v[b - 1] == '\r')
        invariant
            a <= b <= v@.len(),
            trim_front(v@) == v@.skip(a as int),
            trim_back(v@.skip(a as int)) == trim_back(v@.subrange(a as int, b as int)),
        decreases b,
    {
        proof {
            let s = v@.subrange(a as int, b as int);
            assert(s.last() == v@[b - 1]);
            assert(s.drop_last() =~= v@.subrange(a as int, b as int - 1));
        }
        b -= 1;
    }
    proof {
        let s = v@.subrange(a as int, b as int);
        if b > a {
            assert(s.last() == v@[b - 1]);
        }
        assert(trim_back(v@.skip(a as int)) == s);
        assert(v@.skip(a as int) =~= v@.subrange(a as int, v@.len() as int));
    }
    let mut r: Vec<char> = Vec::new();
    let mut k: usize = a;
    while k < b
        invariant
            a <= k <= b <= v@.len(),
            r@ == v@.subrange(a as int, k as int),
        decreases b - k,
    {
        r.push(v[k]);
        assert(r@ =~= v@.subrange(a as int, k as int + 1));
        k += 1;
    }
    r
}

/// `v` without surrounding quotes.
fn unquote_exec(v: &Vec<char>) -> (r: Vec<char>)
    ensures
        r@ == spec_unquote(v@),
{
    let mut a: usize = 0;
    assert(v@.skip(0) =~= v@);
    while a < v.len() && v[a] == '"'
        invariant
            a <= v@.len(),
            quotes_front(v@) == quotes_front(v@.skip(a as int)),
        decreases v@.len() - a,
    {
        proof {
            let s = v@.skip(a as int);
            assert(s[0] == v@[a as int]);
            assert(s.drop_first() =~= v@.skip(a as int + 1));
        }
        a += 1;
    }
    proof {
        let s = v@.skip(a as int);
        if a < v.len() {
            assert(s[0] == v@[a as int]);
        }
        assert(quotes_front(v@) == s);
    }
    let mut b: usize = v.len();
    while b > a && v[b - 1] == '"'
        invariant
            a <= b <= v@.len(),
            quotes_front(v@) == v@.skip(a as int),
            quotes_back(v@.skip(a as int)) == quotes_back(v@.subrange(a as int, b as int)),
        decreases b,
    {
        proof {
            let s = v@.subrange(a as int, b as int);
            assert(s.last() == v@[b - 1]);
            assert(s.drop_last() =~= v@.subrange(a as int, b as int - 1));
        }
        b -= 1;
    }
    proof {
        let s = v@.subrange(a as int, b as int);
        if b > a {
            assert(s.last() == v@[b - 1]);
        }
        assert(quotes_back(v@.skip(a as int)) == s);
        assert(v@.skip(a as int) =~= v@.subrange(a as int, v@.len() as int));
    }
    let mut r: Vec<char> = Vec::new();
    let mut k: usize = a;
    while k < b
        invariant
            a <= k <= b <= v@.len(),
            r@ == v@.subrange(a as int, k as int),
        decreases b - k,
    {
        r.push(v[k]);
        assert(r@ =~= v@.subrange(a as int, k as int + 1));
        k += 1;
    }
    r
}

/// The storage location named by the configuration text `config`: the
/// value of its first `db_path` line, unpadded and unquoted; nothing when
/// no such line exists or the line carries no equals sign.
pub fn parse_db_path(config: &str) -> (r: Option<String>)
    ensures
        match spec_parse_db_path(config@) {
            Some(p) => r matches Some(x) && x@ == p,
            None => r is None,
        },
{
    let v = str_to_chars(config);
    proof {
        assert(v@.skip(0) =~= config@);
    }
    match find_db_line_exec(&v, 0) {
        Some(line) => {
            proof {
                assert(line@.skip(0) =~= line@);
            }
            match after_eq_exec(&line, 0) {
                Some(seg) => {
                    let t = trim_exec(&seg);
                    let u = unquote_exec(&t);
                    Some(chars_to_string(&u))
                },
                None => None,
            }
        },
        None => None,
    }
}

} // verus!
