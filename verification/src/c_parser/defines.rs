//! `#define` directives and the constant expressions of C headers.
use vstd::prelude::*;
use crate::text::{is_ws, trim, lines, find_from, has_prefix_at, chars_of, next_line, trim_bounds,
    prefix_at, find_in, substring, is_whitespace, piece_end, split_trimmed};
use crate::c_parser::macros::{FnMacro, macro_of, macro_view, macros_in, macros_view, strings_view};

verus! {

/// An object-like macro: its name, its replacement text, and its value if
/// it has been evaluated.
#[derive(Debug, Clone)]
pub struct CDefine {
    pub name: String,
    pub value: String,
    pub resolved: Option<i64>,
}

/// The length of the macro name at the start of `s`: the characters before
/// the first whitespace or `(`.
pub open spec fn name_len(s: Seq<char>) -> nat
    decreases s.len(),
{
    if s.len() > 0 && !is_ws(s[0]) && s[0] != '(' {
        1 + name_len(s.drop_first())
    } else {
        0
    }
}

proof fn lemma_name_len(s: Seq<char>, k: nat)
    requires
        k <= s.len(),
        forall|i: int| 0 <= i < k ==> !is_ws(#[trigger] s[i]) && s[i] != '(',
        k < s.len() ==> (is_ws(s[k as int]) || s[k as int] == '('),
    ensures
        name_len(s) == k,
    decreases k,
{
    if k > 0 {
        let t = s.drop_first();
        assert forall|i: int| 0 <= i < k - 1 implies !is_ws(#[trigger] t[i]) && t[i] != '(' by {
            assert(t[i] == s[i + 1]);
        }
        if k < s.len() {
            assert(t[k - 1] == s[k as int]);
        }
        lemma_name_len(t, (k - 1) as nat);
    }
}

/// `s` cut before the first `marker`, then trimmed; `s` itself if there is
/// none.
pub open spec fn cut_at(s: Seq<char>, marker: Seq<char>) -> Seq<char> {
    match find_from(s, marker, 0) {
        Some(p) => trim(s.take(p as int)),
        None => s,
    }
}

/// The name and value a line defines, if it is an object-like `#define`
/// with a non-empty value: after trimming, the line starts with `#define`;
/// the name runs to the first whitespace or `(` and must not be followed by
/// `(`; the value is the trimmed rest, cut before a `//` and then before a
/// `/*`.
pub open spec fn define_of(line: Seq<char>) -> Option<(Seq<char>, Seq<char>)> {
    let t = trim(line);
    if !has_prefix_at(t, 0, "#define"@) {
        None
    } else {
        let rest = trim(t.skip(7));
        let n = name_len(rest);
        if rest.len() == 0 || n == 0 || (n < rest.len() && rest[n as int] == '(') {
            None
        } else {
            let v = cut_at(cut_at(trim(rest.skip(n as int)), "//"@), "/*"@);
            if v.len() == 0 {
                None
            } else {
                Some((rest.take(n as int), v))
            }
        }
    }
}

/// The defines of a sequence of lines, in order.
pub open spec fn defines_in(ls: Seq<Seq<char>>) -> Seq<(Seq<char>, Seq<char>)>
    decreases ls.len(),
{
    if ls.len() == 0 {
        Seq::empty()
    } else {
        let first = match define_of(ls[0]) {
            Some(d) => seq![d],
            None => Seq::empty(),
        };
        first + defines_in(ls.drop_first())
    }
}

/// The name and value of a define, as characters.
pub open spec fn define_view(d: CDefine) -> (Seq<char>, Seq<char>) {
    (d.name@, d.value@)
}

/// `s[lo..hi]` cut before the first `marker`, then trimmed.
fn cut_bounds(s: &Vec<char>, lo: usize, hi: usize, marker: &str) -> (r: (usize, usize))
    requires
        lo <= hi <= s@.len(),
    ensures
        lo <= r.0 <= r.1 <= hi,
        s@.subrange(r.0 as int, r.1 as int) == cut_at(s@.subrange(lo as int, hi as int), marker@),
{
    match find_in(s, lo, hi, marker) {
        Some(p) => {
            proof {
                lemma_find_from_bound(s@.subrange(lo as int, hi as int), marker@, 0);
            }
            let (a, b) = trim_bounds(s, lo, lo + p);
            assert(s@.subrange(lo as int, hi as int).take(p as int) =~= s@.subrange(lo as int, lo + p));
            (a, b)
        },
        None => (lo, hi),
    }
}

proof fn lemma_find_from_bound(s: Seq<char>, p: Seq<char>, i: nat)
    ensures
        find_from(s, p, i) matches Some(k) ==> i <= k && k + p.len() <= s.len(),
    decreases s.len() - i,
{
    if !(i >= s.len() || i + p.len() > s.len()) && s.subrange(i as int, (i + p.len()) as int) != p {
        lemma_find_from_bound(s, p, i + 1);
    }
}

/// The define of line `s[lo..hi]`.
fn define_in_line(s: &Vec<char>, lo: usize, hi: usize) -> (r: Option<CDefine>)
    requires
        lo <= hi <= s@.len(),
    ensures
        match define_of(s@.subrange(lo as int, hi as int)) {
            Some(d) => r matches Some(x) && define_view(x) == d && x.resolved is None,
            None => r is None,
        },
{
    let ghost line = s@.subrange(lo as int, hi as int);
    let (a, b) = trim_bounds(s, lo, hi);
    let ghost t = trim(line);
    assert(t == s@.subrange(a as int, b as int));
    let is_def = prefix_at(s, a, b, "#define");
    proof {
        reveal_strlit("#define");
        if a + 7 <= b {
            assert(s@.subrange(0, b as int).subrange(a as int, a + 7) =~= t.subrange(0, 7));
        }
    }
    if !is_def {
        return None;
    }
    let (ra, rb) = trim_bounds(s, a + 7, b);
    let ghost rest = trim(t.skip(7));
    assert(t.skip(7) =~= s@.subrange(a + 7, b as int));
    assert(rest == s@.subrange(ra as int, rb as int));
    if ra == rb {
        return None;
    }
    let mut n = ra;
    while n < rb && !is_whitespace(s[n]) && s[n] != '('
        invariant
            ra <= n <= rb <= s@.len(),
            forall|i: int| ra <= i < n ==> !is_ws(#[trigger] s@[i]) && s@[i] != '(',
        decreases rb - n,
    {
        n = n + 1;
    }
    proof {
        assert forall|i: int| 0 <= i < n - ra implies !is_ws(#[trigger] rest[i]) && rest[i] != '(' by {
            assert(rest[i] == s@[ra + i]);
        }
        if n < rb {
            assert(rest[n - ra] == s@[n as int]);
        }
        lemma_name_len(rest, (n - ra) as nat);
    }
    if n == ra {
        return None;
    }
    if n < rb && s[n] == '(' {
        return None;
    }
    let (va, vb) = trim_bounds(s, n, rb);
    assert(rest.skip(n - ra) =~= s@.subrange(n as int, rb as int));
    let (ca, cb) = cut_bounds(s, va, vb, "//");
    let (da, db) = cut_bounds(s, ca, cb, "/*");
    if da == db {
        return None;
    }
    assert(rest.take(n - ra) =~= s@.subrange(ra as int, n as int));
    Some(CDefine { name: substring(s, ra, n), value: substring(s, da, db), resolved: None })
}

/// The object-like `#define`s of a source text with a non-empty value, in
/// order; none is evaluated yet.
pub fn parse_defines(source: &str) -> (r: Vec<CDefine>)
    ensures
        r@.map_values(|d: CDefine| define_view(d)) == defines_in(lines(source@)),
        forall|i: int| 0 <= i < r@.len() ==> (#[trigger] r@[i]).resolved is None,
{
    let s = chars_of(source);
    let mut out: Vec<CDefine> = Vec::new();
    let mut pos: usize = 0;
    assert(s@.skip(0) =~= s@);
    assert(out@.map_values(|d: CDefine| define_view(d)) + defines_in(lines(s@.skip(0))) =~= defines_in(
        lines(source@),
    ));
    while pos < s.len()
        invariant
            s@ == source@,
            pos <= s@.len(),
            out@.map_values(|d: CDefine| define_view(d)) + defines_in(lines(s@.skip(pos as int)))
                == defines_in(lines(source@)),
            forall|i: int| 0 <= i < out@.len() ==> (#[trigger] out@[i]).resolved is None,
        decreases s@.len() - pos,
    {
        let (lo, hi, next) = next_line(&s, pos);
        let ghost ls = lines(s@.skip(pos as int));
        let ghost old_out = out@;
        assert(ls.drop_first() =~= lines(s@.skip(next as int)));
        match define_in_line(&s, lo, hi) {
            Some(d) => {
                out.push(d);
                assert(out@.map_values(|d: CDefine| define_view(d)) =~= old_out.map_values(
                    |d: CDefine| define_view(d),
                ).push(define_view(d)));
            },
            None => {},
        }
        assert(out@.map_values(|d: CDefine| define_view(d)) + defines_in(lines(s@.skip(next as int)))
            =~= old_out.map_values(|d: CDefine| define_view(d)) + defines_in(ls));
        pos = next;
    }
    assert(s@.skip(pos as int) =~= Seq::<char>::empty());
    assert(lines(s@.skip(pos as int)) =~= Seq::<Seq<char>>::empty());
    assert(out@.map_values(|d: CDefine| define_view(d)) =~= out@.map_values(|d: CDefine| define_view(d)) + defines_in(
        Seq::<Seq<char>>::empty(),
    ));
    out
}


/// The function-like macro of line `s[lo..hi]`.
fn macro_in_line(s: &Vec<char>, lo: usize, hi: usize) -> (r: Option<FnMacro>)
    requires
        lo <= hi <= s@.len(),
    ensures
        match macro_of(s@.subrange(lo as int, hi as int)) {
            Some(m) => r matches Some(x) && macro_view(x) == m,
            None => r is None,
        },
{
    let ghost line = s@.subrange(lo as int, hi as int);
    let (a, b) = trim_bounds(s, lo, hi);
    let ghost t = trim(line);
    assert(t == s@.subrange(a as int, b as int));
    let is_def = prefix_at(s, a, b, "#define");
    proof {
        reveal_strlit("#define");
        if a + 7 <= b {
            assert(s@.subrange(0, b as int).subrange(a as int, a + 7) =~= t.subrange(0, 7));
        }
    }
    if !is_def {
        return None;
    }
    let (ra, rb) = trim_bounds(s, a + 7, b);
    let ghost rest = trim(t.skip(7));
    assert(t.skip(7) =~= s@.subrange(a + 7, b as int));
    assert(rest == s@.subrange(ra as int, rb as int));
    let mut n = ra;
    while n < rb && !is_whitespace(s[n]) && s[n] != '('
        invariant
            ra <= n <= rb <= s@.len(),
            forall|i: int| ra <= i < n ==> !is_ws(#[trigger] s@[i]) && s@[i] != '(',
        decreases rb - n,
    {
        n = n + 1;
    }
    proof {
        assert forall|i: int| 0 <= i < n - ra implies !is_ws(#[trigger] rest[i]) && rest[i] != '(' by {
            assert(rest[i] == s@[ra + i]);
        }
        if n < rb {
            assert(rest[n - ra] == s@[n as int]);
        }
        lemma_name_len(rest, (n - ra) as nat);
    }
    if n == ra || n >= rb || s[n] != '(' {
        proof {
            if n < rb {
                assert(rest[n - ra] == s@[n as int]);
            }
        }
        return None;
    }
    assert(rest[n - ra] == s@[n as int]);
    let ghost inner = rest.skip(n - ra + 1);
    assert(inner =~= s@.subrange(n + 1, rb as int));
    let c = piece_end(s, n + 1, rb, ')');
    if c == rb {
        return None;
    }
    assert(inner.take(c - n - 1) =~= s@.subrange(n + 1, c as int));
    let (pa, pb) = trim_bounds(s, n + 1, c);
    let params = if pa == pb {
        let e: Vec<String> = Vec::new();
        assert(strings_view(e@) =~= Seq::<Seq<char>>::empty());
        e
    } else {
        split_trimmed(s, n + 1, c, ',')
    };
    let (va, vb) = trim_bounds(s, c + 1, rb);
    assert(inner.skip(c - n) =~= s@.subrange(c + 1, rb as int));
    let (ca, cb) = cut_bounds(s, va, vb, "//");
    let (da, db) = cut_bounds(s, ca, cb, "/*");
    if da == db {
        return None;
    }
    assert(rest.take(n - ra) =~= s@.subrange(ra as int, n as int));
    let m = FnMacro { name: substring(s, ra, n), params, body: substring(s, da, db) };
    Some(m)
}

/// The function-like `#define`s of a source text, in order.
pub fn parse_function_macros(source: &str) -> (r: Vec<FnMacro>)
    ensures
        macros_view(r@) == macros_in(lines(source@)),
{
    let s = chars_of(source);
    let mut out: Vec<FnMacro> = Vec::new();
    let mut pos: usize = 0;
    assert(s@.skip(0) =~= s@);
    assert(macros_view(out@) + macros_in(lines(s@.skip(0))) =~= macros_in(lines(source@)));
    while pos < s.len()
        invariant
            s@ == source@,
            pos <= s@.len(),
            macros_view(out@) + macros_in(lines(s@.skip(pos as int))) == macros_in(lines(source@)),
        decreases s@.len() - pos,
    {
        let (lo, hi, next) = next_line(&s, pos);
        let ghost ls = lines(s@.skip(pos as int));
        let ghost old_out = out@;
        assert(ls.drop_first() =~= lines(s@.skip(next as int)));
        match macro_in_line(&s, lo, hi) {
            Some(m) => {
                out.push(m);
                assert(macros_view(out@) =~= macros_view(old_out).push(macro_view(m)));
            },
            None => {},
        }
        assert(macros_view(out@) + macros_in(lines(s@.skip(next as int))) =~= macros_view(old_out) + macros_in(ls));
        pos = next;
    }
    assert(s@.skip(pos as int) =~= Seq::<char>::empty());
    assert(lines(s@.skip(pos as int)) =~= Seq::<Seq<char>>::empty());
    assert(macros_view(out@) =~= macros_view(out@) + macros_in(Seq::<Seq<char>>::empty()));
    out
}

} // verus!
