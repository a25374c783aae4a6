//! `#include` directives.
use vstd::prelude::*;
use crate::text::{is_ws, lead_ws, trim, lines, index_of, has_prefix_at, chars_of, next_line,
    trim_bounds, prefix_at, substring, is_whitespace, lemma_lead_ws_of, lemma_index_of};

verus! {

/// An included file: its path, and whether it was written `<...>` (a system
/// header) rather than `"..."`.
#[derive(Debug, Clone)]
pub struct CInclude {
    pub path: String,
    pub is_system: bool,
}

/// The path of `#include`, optional whitespace, `open`, one or more
/// characters other than `close`, then `close`, when that starts at `p`.
pub open spec fn include_at(t: Seq<char>, p: int, open: char, close: char) -> Option<Seq<char>> {
    if !has_prefix_at(t, p, "#include"@) {
        None
    } else {
        let q = p + 8 + lead_ws(t.skip(p + 8));
        if q < t.len() && t[q] == open {
            let body = t.skip(q + 1);
            let e = index_of(body, close);
            if 1 <= e && e < body.len() {
                Some(body.take(e as int))
            } else {
                None
            }
        } else {
            None
        }
    }
}

/// The path of the leftmost such directive at or after `p`.
pub open spec fn first_include(t: Seq<char>, open: char, close: char, p: nat) -> Option<Seq<char>>
    decreases t.len() - p,
{
    if p >= t.len() {
        None
    } else {
        match include_at(t, p as int, open, close) {
            Some(c) => Some(c),
            None => first_include(t, open, close, p + 1),
        }
    }
}

/// The include a line makes: after trimming it starts with `#include`;
/// the first `<path>` form is a system include, else the first `"path"`.
pub open spec fn include_of(line: Seq<char>) -> Option<(Seq<char>, bool)> {
    let t = trim(line);
    if !has_prefix_at(t, 0, "#include"@) {
        None
    } else {
        match first_include(t, '<', '>', 0) {
            Some(c) => Some((c, true)),
            None => match first_include(t, '"', '"', 0) {
                Some(c) => Some((c, false)),
                None => None,
            },
        }
    }
}

/// The includes of a sequence of lines, in order.
pub open spec fn includes_in(ls: Seq<Seq<char>>) -> Seq<(Seq<char>, bool)>
    decreases ls.len(),
{
    if ls.len() == 0 {
        Seq::empty()
    } else {
        let first = match include_of(ls[0]) {
            Some(d) => seq![d],
            None => Seq::empty(),
        };
        first + includes_in(ls.drop_first())
    }
}

pub open spec fn include_view(i: CInclude) -> (Seq<char>, bool) {
    (i.path@, i.is_system)
}

/// The bounds of the path of a directive starting at `p` in `s[a..b]`.
fn include_at_exec(s: &Vec<char>, a: usize, b: usize, p: usize, open: char, close: char) -> (r: Option<(usize, usize)>)
    requires
        a <= p <= b <= s@.len(),
    ensures
        match include_at(s@.subrange(a as int, b as int), p - a, open, close) {
            Some(c) => r matches Some(x) && a <= x.0 <= x.1 <= b && s@.subrange(x.0 as int, x.1 as int) == c,
            None => r is None,
        },
{
    let ghost t = s@.subrange(a as int, b as int);
    let m = prefix_at(s, p, b, "#include");
    proof {
        reveal_strlit("#include");
        if p + 8 <= b {
            assert(s@.subrange(0, b as int).subrange(p as int, p + 8) =~= t.subrange(p - a, p - a + 8));
        }
    }
    if !m {
        return None;
    }
    let mut q = p + 8;
    while q < b && is_whitespace(s[q])
        invariant
            p + 8 <= q <= b <= s@.len(),
            forall|i: int| p + 8 <= i < q ==> is_ws(#[trigger] s@[i]),
        decreases b - q,
    {
        q = q + 1;
    }
    let ghost u = t.skip(p - a + 8);
    proof {
        assert forall|i: int| 0 <= i < q - (p + 8) implies is_ws(#[trigger] u[i]) by {
            assert(u[i] == s@[p + 8 + i]);
        }
        if q < b {
            assert(u[q - (p + 8)] == s@[q as int]);
        }
        lemma_lead_ws_of(u, (q - (p + 8)) as nat);
    }
    if q >= b || s[q] != open {
        return None;
    }
    let mut e = q + 1;
    while e < b && s[e] != close
        invariant
            q + 1 <= e <= b <= s@.len(),
            forall|i: int| q + 1 <= i < e ==> s@[i] != close,
        decreases b - e,
    {
        e = e + 1;
    }
    let ghost body = t.skip(q - a + 1);
    proof {
        assert forall|i: int| 0 <= i < e - (q + 1) implies body[i] != close by {
            assert(body[i] == s@[q + 1 + i]);
        }
        if e < b {
            assert(body[e - (q + 1)] == s@[e as int]);
        }
        lemma_index_of(body, close, (e - (q + 1)) as nat);
    }
    if e == q + 1 || e >= b {
        return None;
    }
    assert(body.take(e - (q + 1)) =~= s@.subrange(q + 1, e as int));
    Some((q + 1, e))
}

/// The path of the leftmost directive in `s[a..b]`.
fn first_include_exec(s: &Vec<char>, a: usize, b: usize, open: char, close: char) -> (r: Option<(usize, usize)>)
    requires
        a <= b <= s@.len(),
    ensures
        match first_include(s@.subrange(a as int, b as int), open, close, 0) {
            Some(c) => r matches Some(x) && a <= x.0 <= x.1 <= b && s@.subrange(x.0 as int, x.1 as int) == c,
            None => r is None,
        },
{
    let ghost t = s@.subrange(a as int, b as int);
    let mut p = a;
    while p < b
        invariant
            a <= p <= b <= s@.len(),
            t == s@.subrange(a as int, b as int),
            first_include(t, open, close, (p - a) as nat) == first_include(t, open, close, 0),
        decreases b - p,
    {
        let r = include_at_exec(s, a, b, p, open, close);
        if r.is_some() {
            return r;
        }
        p = p + 1;
    }
    None
}

fn include_in_line(s: &Vec<char>, lo: usize, hi: usize) -> (r: Option<CInclude>)
    requires
        lo <= hi <= s@.len(),
    ensures
        match include_of(s@.subrange(lo as int, hi as int)) {
            Some(d) => r matches Some(x) && include_view(x) == d,
            None => r is None,
        },
{
    let (a, b) = trim_bounds(s, lo, hi);
    let ghost t = trim(s@.subrange(lo as int, hi as int));
    let m = prefix_at(s, a, b, "#include");
    proof {
        reveal_strlit("#include");
        if a + 8 <= b {
            assert(s@.subrange(0, b as int).subrange(a as int, a + 8) =~= t.subrange(0, 8));
        }
    }
    if !m {
        return None;
    }
    match first_include_exec(s, a, b, '<', '>') {
        Some((x, y)) => Some(CInclude { path: substring(s, x, y), is_system: true }),
        None => match first_include_exec(s, a, b, '"', '"') {
            Some((x, y)) => Some(CInclude { path: substring(s, x, y), is_system: false }),
            None => None,
        },
    }
}

/// The `#include` directives of a source text, in order. Only lines that
/// start with `#include` (after trimming) count, so commented-out
/// directives are skipped.
pub fn parse_includes(source: &str) -> (r: Vec<CInclude>)
    ensures
        r@.map_values(|d: CInclude| include_view(d)) == includes_in(lines(source@)),
{
    let s = chars_of(source);
    let mut out: Vec<CInclude> = Vec::new();
    let mut pos: usize = 0;
    assert(s@.skip(0) =~= s@);
    assert(out@.map_values(|d: CInclude| include_view(d)) + includes_in(lines(s@.skip(0))) =~= includes_in(
        lines(source@),
    ));
    while pos < s.len()
        invariant
            s@ == source@,
            pos <= s@.len(),
            out@.map_values(|d: CInclude| include_view(d)) + includes_in(lines(s@.skip(pos as int)))
                == includes_in(lines(source@)),
        decreases s@.len() - pos,
    {
        let (lo, hi, next) = next_line(&s, pos);
        let ghost ls = lines(s@.skip(pos as int));
        let ghost old_out = out@;
        assert(ls.drop_first() =~= lines(s@.skip(next as int)));
        match include_in_line(&s, lo, hi) {
            Some(d) => {
                out.push(d);
                assert(out@.map_values(|d: CInclude| include_view(d)) =~= old_out.map_values(
                    |d: CInclude| include_view(d),
                ).push(include_view(d)));
            },
            None => {},
        }
        assert(out@.map_values(|d: CInclude| include_view(d)) + includes_in(lines(s@.skip(next as int)))
            =~= old_out.map_values(|d: CInclude| include_view(d)) + includes_in(ls));
        pos = next;
    }
    assert(s@.skip(pos as int) =~= Seq::<char>::empty());
    assert(lines(s@.skip(pos as int)) =~= Seq::<Seq<char>>::empty());
    assert(out@.map_values(|d: CInclude| include_view(d)) =~= out@.map_values(|d: CInclude| include_view(d)) + includes_in(
        Seq::<Seq<char>>::empty(),
    ));
    out
}

} // verus!
