//! Function-like macros: `#define NAME(PARAMS) BODY` lines, and their
//! expansion in an expression before it is evaluated.
use vstd::prelude::*;
use crate::c_parser::defines::{cut_at, name_len};
use crate::text::{has_prefix_at, is_ident_char, is_ident_start, is_ws, split_on, trim, index_of, lines,
    chars_of, is_whitespace, is_ident_start_char, is_ident_continue_char, trim_bounds};

verus! {

/// A macro as text: name, parameters, body.
pub type MacroView = (Seq<char>, Seq<Seq<char>>, Seq<char>);

/// A function-like macro: `#define NAME(PARAMS) BODY`.
#[derive(Debug, Clone)]
pub struct FnMacro {
    pub name: String,
    pub params: Vec<String>,
    pub body: String,
}

pub open spec fn strings_view(v: Seq<String>) -> Seq<Seq<char>> {
    v.map_values(|x: String| x@)
}

pub open spec fn macro_view(m: FnMacro) -> MacroView {
    (m.name@, strings_view(m.params@), m.body@)
}

pub open spec fn macros_view(ms: Seq<FnMacro>) -> Seq<MacroView> {
    ms.map_values(|m: FnMacro| macro_view(m))
}

/// The function-like macro a line defines: after trimming, the line starts
/// with `#define`; the name runs to the first whitespace or `(` and is
/// followed at once by `(`; the parameters, up to the first `)`, are split
/// at commas and trimmed (none when there is only whitespace); the body is
/// the trimmed rest, cut before a `//` and then before a `/*`, and is not
/// empty.
pub open spec fn macro_of(line: Seq<char>) -> Option<MacroView> {
    let t = trim(line);
    if !has_prefix_at(t, 0, "#define"@) {
        None
    } else {
        let rest = trim(t.skip(7));
        let n = name_len(rest);
        if n == 0 || n >= rest.len() || rest[n as int] != '(' {
            None
        } else {
            let inner = rest.skip(n + 1int);
            let c = index_of(inner, ')');
            if c >= inner.len() {
                None
            } else {
                let ptext = inner.take(c as int);
                let params = if trim(ptext).len() == 0 {
                    Seq::empty()
                } else {
                    split_on(ptext, ',').map_values(|p: Seq<char>| trim(p))
                };
                let body = cut_at(cut_at(trim(inner.skip(c + 1int)), "//"@), "/*"@);
                if body.len() == 0 {
                    None
                } else {
                    Some((rest.take(n as int), params, body))
                }
            }
        }
    }
}

/// The function-like macros of some lines, in order.
pub open spec fn macros_in(ls: Seq<Seq<char>>) -> Seq<MacroView>
    decreases ls.len(),
{
    if ls.len() == 0 {
        Seq::empty()
    } else {
        let first = match macro_of(ls[0]) {
            Some(m) => seq![m],
            None => Seq::empty(),
        };
        first + macros_in(ls.drop_first())
    }
}

/// The parameters and body of the last macro named `name`.
pub open spec fn macro_lookup(ms: Seq<MacroView>, name: Seq<char>) -> Option<(Seq<Seq<char>>, Seq<char>)>
    decreases ms.len(),
{
    if ms.len() == 0 {
        None
    } else if ms.last().0 == name {
        Some((ms.last().1, ms.last().2))
    } else {
        macro_lookup(ms.drop_last(), name)
    }
}

/// Where the identifier characters from `i` end.
pub open spec fn scan_ident(s: Seq<char>, i: int) -> int
    decreases s.len() - i,
{
    if 0 <= i < s.len() && is_ident_char(s[i]) {
        scan_ident(s, i + 1)
    } else {
        i
    }
}

/// Where the whitespace from `i` ends.
pub open spec fn scan_ws(s: Seq<char>, i: int) -> int
    decreases s.len() - i,
{
    if 0 <= i < s.len() && is_ws(s[i]) {
        scan_ws(s, i + 1)
    } else {
        i
    }
}

/// The `)` that closes the parenthesis open at depth `d` before `i`:
/// every `(` opens one more, every `)` closes one.
pub open spec fn close_paren(s: Seq<char>, i: int, d: nat) -> Option<int>
    decreases s.len() - i,
{
    if i < 0 || i >= s.len() {
        None
    } else if s[i] == '(' {
        close_paren(s, i + 1, d + 1)
    } else if s[i] == ')' {
        if d == 0 {
            None
        } else if d == 1 {
            Some(i)
        } else {
            close_paren(s, i + 1, (d - 1) as nat)
        }
    } else {
        close_paren(s, i + 1, d)
    }
}

/// The arguments of a call: split at the commas outside parentheses, each
/// trimmed; a text that is only whitespace has none, and a trailing empty
/// argument is kept as empty.
pub open spec fn split_args(a: Seq<char>, i: int, d: nat, start: int, acc: Seq<Seq<char>>) -> Seq<Seq<char>>
    decreases a.len() - i,
{
    if i < 0 || i >= a.len() {
        let tail = trim(a.subrange(start, a.len() as int));
        if tail.len() > 0 {
            acc.push(tail)
        } else if trim(a).len() > 0 {
            acc.push(Seq::empty())
        } else {
            acc
        }
    } else if a[i] == '(' {
        split_args(a, i + 1, d + 1, start, acc)
    } else if a[i] == ')' {
        split_args(a, i + 1, if d == 0 { 0 } else { (d - 1) as nat }, start, acc)
    } else if a[i] == ',' && d == 0 {
        split_args(a, i + 1, 0, i + 1, acc.push(trim(a.subrange(start, i))))
    } else {
        split_args(a, i + 1, d, start, acc)
    }
}

/// Every identifier `name` in `s` from `i` replaced by `(rep)`, after `acc`.
pub open spec fn replace_ids(s: Seq<char>, i: int, name: Seq<char>, rep: Seq<char>, acc: Seq<char>) -> Seq<char>
    decreases s.len() - i,
{
    if i < 0 || i >= s.len() {
        acc
    } else if is_ident_start(s[i]) {
        let e = scan_ident(s, i + 1);
        let id = s.subrange(i, e);
        let piece = if id == name { seq!['('] + rep + seq![')'] } else { id };
        proof {
            lemma_scan_ident_bound(s, i + 1);
        }
        replace_ids(s, e, name, rep, acc + piece)
    } else {
        replace_ids(s, i + 1, name, rep, acc.push(s[i]))
    }
}

/// The parameters replaced by the arguments, one parameter after another.
pub open spec fn substitute(body: Seq<char>, params: Seq<Seq<char>>, args: Seq<Seq<char>>) -> Seq<char>
    decreases params.len(),
{
    if params.len() == 0 || args.len() == 0 {
        body
    } else {
        substitute(replace_ids(body, 0, params[0], args[0], Seq::empty()), params.drop_first(), args.drop_first())
    }
}

pub proof fn lemma_scan_ident_bound(s: Seq<char>, i: int)
    ensures
        0 <= i <= s.len() ==> i <= scan_ident(s, i) <= s.len(),
    decreases s.len() - i,
{
    if 0 <= i < s.len() && is_ident_char(s[i]) {
        lemma_scan_ident_bound(s, i + 1);
    }
}

pub proof fn lemma_scan_ws_bound(s: Seq<char>, i: int)
    ensures
        0 <= i <= s.len() ==> i <= scan_ws(s, i) <= s.len(),
    decreases s.len() - i,
{
    if 0 <= i < s.len() && is_ws(s[i]) {
        lemma_scan_ws_bound(s, i + 1);
    }
}

pub proof fn lemma_close_paren_bound(s: Seq<char>, i: int, d: nat)
    ensures
        close_paren(s, i, d) matches Some(c) ==> i <= c < s.len(),
    decreases s.len() - i,
{
    if 0 <= i < s.len() {
        if s[i] == '(' {
            lemma_close_paren_bound(s, i + 1, d + 1);
        } else if s[i] == ')' {
            if d > 1 {
                lemma_close_paren_bound(s, i + 1, (d - 1) as nat);
            }
        } else {
            lemma_close_paren_bound(s, i + 1, d);
        }
    }
}

/// The deepest macro nesting expanded.
pub open spec fn max_depth() -> int {
    32
}

/// Expanding the macro calls of `s` from `i`, after the output `acc`;
/// `changed` tells whether a call was expanded. `None` when a call has no
/// closing parenthesis, the wrong number of arguments, or nests too deep.
pub open spec fn expand_from(
    ms: Seq<MacroView>,
    s: Seq<char>,
    i: int,
    depth: int,
    acc: Seq<char>,
    changed: bool,
) -> Option<(Seq<char>, bool)>
    decreases 33 - depth, 0int, s.len() - i,
{
    if depth < 0 || depth > max_depth() {
        None
    } else if i < 0 || i >= s.len() {
        Some((acc, changed))
    } else if is_ident_start(s[i]) {
        proof {
            lemma_scan_ident_bound(s, i + 1);
        }
        let e = scan_ident(s, i + 1);
        let id = s.subrange(i, e);
        let w = scan_ws(s, e);
        if 0 <= w < s.len() && s[w] == '(' && macro_lookup(ms, id) is Some {
            let (params, body) = macro_lookup(ms, id)->0;
            proof {
                lemma_scan_ws_bound(s, e);
                lemma_close_paren_bound(s, w, 0);
            }
            match close_paren(s, w, 0) {
                None => None,
                Some(c) => {
                    let args = split_args(s.subrange(w + 1, c), 0, 0, 0, Seq::empty());
                    if args.len() != params.len() {
                        None
                    } else {
                        match expand_args(ms, args, 0, depth + 1, Seq::empty()) {
                            None => None,
                            Some(ea) => match expand_body(ms, substitute(body, params, ea), depth + 1) {
                                None => None,
                                Some(b) => expand_from(ms, s, c + 1, depth, acc + b, true),
                            },
                        }
                    }
                },
            }
        } else {
            expand_from(ms, s, e, depth, acc + id, changed)
        }
    } else {
        expand_from(ms, s, i + 1, depth, acc.push(s[i]), changed)
    }
}

/// The arguments from `k` expanded, after `acc`.
pub open spec fn expand_args(
    ms: Seq<MacroView>,
    args: Seq<Seq<char>>,
    k: int,
    depth: int,
    acc: Seq<Seq<char>>,
) -> Option<Seq<Seq<char>>>
    decreases 33 - depth, 1int, args.len() - k,
{
    if k < 0 || k >= args.len() {
        Some(acc)
    } else {
        match expand_from(ms, args[k], 0, depth, Seq::empty(), false) {
            None => None,
            Some((o, ch)) => expand_args(ms, args, k + 1, depth, acc.push(if ch { o } else { args[k] })),
        }
    }
}

/// A substituted body, expanded again.
pub open spec fn expand_body(ms: Seq<MacroView>, b: Seq<char>, depth: int) -> Option<Seq<char>>
    decreases 33 - depth, 1int, 0int,
{
    match expand_from(ms, b, 0, depth, Seq::empty(), false) {
        None => None,
        Some((o, ch)) => Some(if ch { o } else { b }),
    }
}

/// An expression with its macro calls expanded; `None` when expansion
/// fails.
pub open spec fn expanded(ms: Seq<MacroView>, s: Seq<char>) -> Option<Seq<char>> {
    match expand_from(ms, s, 0, 0, Seq::empty(), false) {
        None => None,
        Some((o, ch)) => Some(if ch { o } else { s }),
    }
}


// ----- expansion, executable -----

pub open spec fn vecs_view(v: Seq<Vec<char>>) -> Seq<Seq<char>> {
    v.map_values(|x: Vec<char>| x@)
}

/// `s[lo..hi]` as a new vector.
fn copy_range(s: &Vec<char>, lo: usize, hi: usize) -> (r: Vec<char>)
    requires
        lo <= hi <= s@.len(),
    ensures
        r@ == s@.subrange(lo as int, hi as int),
{
    let mut r: Vec<char> = Vec::new();
    let mut k = lo;
    while k < hi
        invariant
            lo <= k <= hi <= s@.len(),
            r@ == s@.subrange(lo as int, k as int),
        decreases hi - k,
    {
        r.push(s[k]);
        k = k + 1;
        assert(r@ =~= s@.subrange(lo as int, k as int));
    }
    r
}

/// Append `t` to `out`.
fn append_chars(out: &mut Vec<char>, t: &Vec<char>)
    ensures
        final(out)@ == old(out)@ + t@,
{
    let mut k: usize = 0;
    while k < t.len()
        invariant
            k <= t@.len(),
            out@ == old(out)@ + t@.subrange(0, k as int),
        decreases t@.len() - k,
    {
        out.push(t[k]);
        k = k + 1;
        assert(out@ =~= old(out)@ + t@.subrange(0, k as int));
    }
    assert(t@.subrange(0, k as int) =~= t@);
}

/// Whether `s[lo..hi]` is `t`.
fn chars_eq(s: &Vec<char>, lo: usize, hi: usize, t: &Vec<char>) -> (r: bool)
    requires
        lo <= hi <= s@.len(),
    ensures
        r == (s@.subrange(lo as int, hi as int) == t@),
{
    if hi - lo != t.len() {
        return false;
    }
    let mut k: usize = 0;
    while k < t.len()
        invariant
            k <= t@.len(),
            hi - lo == t@.len(),
            lo <= hi <= s@.len(),
            forall|j: int| 0 <= j < k ==> s@[lo + j] == t@[j],
        decreases t@.len() - k,
    {
        if s[lo + k] != t[k] {
            assert(s@.subrange(lo as int, hi as int)[k as int] != t@[k as int]);
            return false;
        }
        k = k + 1;
    }
    assert(s@.subrange(lo as int, hi as int) =~= t@);
    true
}

fn scan_ident_exec(s: &Vec<char>, i: usize) -> (r: usize)
    requires
        i <= s@.len(),
    ensures
        r as int == scan_ident(s@, i as int),
        i <= r <= s@.len(),
{
    let mut k = i;
    while k < s.len() && is_ident_continue_char(s[k])
        invariant
            i <= k <= s@.len(),
            scan_ident(s@, k as int) == scan_ident(s@, i as int),
        decreases s@.len() - k,
    {
        k = k + 1;
    }
    k
}

fn scan_ws_exec(s: &Vec<char>, i: usize) -> (r: usize)
    requires
        i <= s@.len(),
    ensures
        r as int == scan_ws(s@, i as int),
        i <= r <= s@.len(),
{
    let mut k = i;
    while k < s.len() && is_whitespace(s[k])
        invariant
            i <= k <= s@.len(),
            scan_ws(s@, k as int) == scan_ws(s@, i as int),
        decreases s@.len() - k,
    {
        k = k + 1;
    }
    k
}

fn close_paren_exec(s: &Vec<char>, w: usize) -> (r: Option<usize>)
    requires
        w <= s@.len(),
    ensures
        match close_paren(s@, w as int, 0) {
            Some(c) => r == Some(c as usize),
            None => r is None,
        },
{
    let mut k = w;
    let mut d: usize = 0;
    while k < s.len()
        invariant
            w <= k <= s@.len(),
            d <= k - w,
            close_paren(s@, k as int, d as nat) == close_paren(s@, w as int, 0),
        decreases s@.len() - k,
    {
        if s[k] == '(' {
            d = d + 1;
        } else if s[k] == ')' {
            if d == 0 {
                return None;
            }
            if d == 1 {
                return Some(k);
            }
            d = d - 1;
        }
        k = k + 1;
    }
    None
}

fn split_args_exec(a: &Vec<char>) -> (r: Vec<Vec<char>>)
    ensures
        vecs_view(r@) == split_args(a@, 0, 0, 0, Seq::empty()),
{
    let mut acc: Vec<Vec<char>> = Vec::new();
    let mut i: usize = 0;
    let mut d: usize = 0;
    let mut start: usize = 0;
    assert(vecs_view(acc@) =~= Seq::<Seq<char>>::empty());
    while i < a.len()
        invariant
            start <= i <= a@.len(),
            d <= i,
            split_args(a@, i as int, d as nat, start as int, vecs_view(acc@)) == split_args(a@, 0, 0, 0, Seq::empty()),
        decreases a@.len() - i,
    {
        let c = a[i];
        if c == '(' {
            d = d + 1;
        } else if c == ')' {
            if d > 0 {
                d = d - 1;
            }
        } else if c == ',' && d == 0 {
            let (x, y) = trim_bounds(a, start, i);
            let piece = copy_range(a, x, y);
            let ghost before = vecs_view(acc@);
            acc.push(piece);
            assert(vecs_view(acc@) =~= before.push(trim(a@.subrange(start as int, i as int))));
            start = i + 1;
        }
        i = i + 1;
    }
    let n = a.len();
    let (x, y) = trim_bounds(a, start, n);
    if x < y {
        let piece = copy_range(a, x, y);
        let ghost before = vecs_view(acc@);
        acc.push(piece);
        assert(vecs_view(acc@) =~= before.push(trim(a@.subrange(start as int, n as int))));
    } else {
        let (p, q) = trim_bounds(a, 0, n);
        assert(a@.subrange(0, n as int) =~= a@);
        if p < q {
            let ghost before = vecs_view(acc@);
            acc.push(Vec::new());
            assert(vecs_view(acc@) =~= before.push(Seq::<char>::empty()));
        }
    }
    acc
}

fn replace_ids_exec(s: &Vec<char>, name: &Vec<char>, rep: &Vec<char>) -> (r: Vec<char>)
    ensures
        r@ == replace_ids(s@, 0, name@, rep@, Seq::empty()),
{
    let mut out: Vec<char> = Vec::new();
    let mut i: usize = 0;
    while i < s.len()
        invariant
            i <= s@.len(),
            replace_ids(s@, i as int, name@, rep@, out@) == replace_ids(s@, 0, name@, rep@, Seq::empty()),
        decreases s@.len() - i,
    {
        if is_ident_start_char(s[i]) {
            let e = scan_ident_exec(s, i + 1);
            let ghost before = out@;
            if chars_eq(s, i, e, name) {
                out.push('(');
                append_chars(&mut out, rep);
                out.push(')');
                assert(out@ =~= before + (seq!['('] + rep@ + seq![')']));
            } else {
                let id = copy_range(s, i, e);
                append_chars(&mut out, &id);
            }
            i = e;
        } else {
            out.push(s[i]);
            i = i + 1;
        }
    }
    out
}

fn substitute_exec(body: &Vec<char>, params: &Vec<Vec<char>>, args: &Vec<Vec<char>>) -> (r: Vec<char>)
    ensures
        r@ == substitute(body@, vecs_view(params@), vecs_view(args@)),
{
    let ghost pv = vecs_view(params@);
    let ghost av = vecs_view(args@);
    let mut cur = copy_range(body, 0, body.len());
    assert(body@.subrange(0, body@.len() as int) =~= body@);
    let mut k: usize = 0;
    assert(pv.skip(0) =~= pv);
    assert(av.skip(0) =~= av);
    while k < params.len() && k < args.len()
        invariant
            k <= params@.len(),
            k <= args@.len(),
            pv == vecs_view(params@),
            av == vecs_view(args@),
            substitute(cur@, pv.skip(k as int), av.skip(k as int)) == substitute(body@, pv, av),
        decreases params@.len() - k,
    {
        assert(pv.skip(k as int)[0] == params@[k as int]@);
        assert(av.skip(k as int)[0] == args@[k as int]@);
        assert(pv.skip(k as int).drop_first() =~= pv.skip(k + 1));
        assert(av.skip(k as int).drop_first() =~= av.skip(k + 1));
        cur = replace_ids_exec(&cur, &params[k], &args[k]);
        k = k + 1;
    }
    proof {
        assert(pv.skip(k as int).len() == 0 || av.skip(k as int).len() == 0);
    }
    cur
}

/// The index of the last macro named `s[lo..hi]`.
fn find_macro(ms: &Vec<FnMacro>, s: &Vec<char>, lo: usize, hi: usize) -> (r: Option<usize>)
    requires
        lo <= hi <= s@.len(),
    ensures
        match macro_lookup(macros_view(ms@), s@.subrange(lo as int, hi as int)) {
            Some((p, b)) => r matches Some(k) && k < ms@.len() && strings_view(ms@[k as int].params@) == p
                && ms@[k as int].body@ == b,
            None => r is None,
        },
{
    let ghost mv = macros_view(ms@);
    let ghost name = s@.subrange(lo as int, hi as int);
    let mut i = ms.len();
    assert(mv.take(i as int) =~= mv);
    while i > 0
        invariant
            i <= ms@.len(),
            mv == macros_view(ms@),
            name == s@.subrange(lo as int, hi as int),
            lo <= hi <= s@.len(),
            macro_lookup(mv, name) == macro_lookup(mv.take(i as int), name),
        decreases i,
    {
        let ghost pre = mv.take(i as int);
        assert(pre.drop_last() =~= mv.take(i - 1));
        assert(pre.last() == macro_view(ms@[i - 1]));
        let nm = chars_of(ms[i - 1].name.as_str());
        if chars_eq(s, lo, hi, &nm) {
            return Some(i - 1);
        }
        i = i - 1;
    }
    None
}

/// The parameters of a macro as characters.
fn param_chars(m: &FnMacro) -> (r: Vec<Vec<char>>)
    ensures
        vecs_view(r@) == strings_view(m.params@),
{
    let mut out: Vec<Vec<char>> = Vec::new();
    let mut k: usize = 0;
    while k < m.params.len()
        invariant
            k <= m.params@.len(),
            vecs_view(out@) == strings_view(m.params@).take(k as int),
        decreases m.params@.len() - k,
    {
        let ghost before = vecs_view(out@);
        out.push(chars_of(m.params[k].as_str()));
        assert(vecs_view(out@) =~= before.push(m.params@[k as int]@));
        assert(strings_view(m.params@).take(k + 1) =~= strings_view(m.params@).take(k as int).push(m.params@[k as int]@));
        k = k + 1;
    }
    assert(strings_view(m.params@).take(k as int) =~= strings_view(m.params@));
    out
}

fn expand_exec(ms: &Vec<FnMacro>, s: &Vec<char>, depth: usize) -> (r: Option<(Vec<char>, bool)>)
    ensures
        match expand_from(macros_view(ms@), s@, 0, depth as int, Seq::empty(), false) {
            Some((o, ch)) => r matches Some((v, c)) && v@ == o && c == ch,
            None => r is None,
        },
    decreases 33 - depth as int, 0int, 0int,
{
    let ghost mv = macros_view(ms@);
    if depth > 32 {
        return None;
    }
    let mut out: Vec<char> = Vec::new();
    let mut ch = false;
    let mut i: usize = 0;
    while i < s.len()
        invariant
            i <= s@.len(),
            depth <= 32,
            mv == macros_view(ms@),
            expand_from(mv, s@, i as int, depth as int, out@, ch) == expand_from(mv, s@, 0, depth as int, Seq::empty(), false),
        decreases s@.len() - i,
    {
        if is_ident_start_char(s[i]) {
            let e = scan_ident_exec(s, i + 1);
            let w = scan_ws_exec(s, e);
            let found = if w < s.len() && s[w] == '(' {
                find_macro(ms, s, i, e)
            } else {
                None
            };
            match found {
                Some(k) => {
                    assert(w < s@.len() && s@[w as int] == '(');
                    proof {
                        lemma_close_paren_bound(s@, w + 1, 1);
                    }
                    let c = match close_paren_exec(s, w) {
                        None => return None,
                        Some(c) => c,
                    };
                    let inner = copy_range(s, w + 1, c);
                    let args = split_args_exec(&inner);
                    if args.len() != ms[k].params.len() {
                        return None;
                    }
                    let ea = match expand_args_exec(ms, &args, depth + 1) {
                        None => return None,
                        Some(x) => x,
                    };
                    let params = param_chars(&ms[k]);
                    let body = chars_of(ms[k].body.as_str());
                    let b = substitute_exec(&body, &params, &ea);
                    let bb = match expand_body_exec(ms, &b, depth + 1) {
                        None => return None,
                        Some(x) => x,
                    };
                    append_chars(&mut out, &bb);
                    ch = true;
                    i = c + 1;
                },
                None => {
                    let id = copy_range(s, i, e);
                    append_chars(&mut out, &id);
                    i = e;
                },
            }
        } else {
            out.push(s[i]);
            i = i + 1;
        }
    }
    Some((out, ch))
}

fn expand_args_exec(ms: &Vec<FnMacro>, args: &Vec<Vec<char>>, depth: usize) -> (r: Option<Vec<Vec<char>>>)
    requires
        depth <= 33,
    ensures
        match expand_args(macros_view(ms@), vecs_view(args@), 0, depth as int, Seq::empty()) {
            Some(v) => r matches Some(x) && vecs_view(x@) == v,
            None => r is None,
        },
    decreases 33 - depth as int, 1int, 0int,
{
    let ghost mv = macros_view(ms@);
    let ghost av = vecs_view(args@);
    let mut acc: Vec<Vec<char>> = Vec::new();
    let mut k: usize = 0;
    assert(vecs_view(acc@) =~= Seq::<Seq<char>>::empty());
    while k < args.len()
        invariant
            k <= args@.len(),
            depth <= 33,
            mv == macros_view(ms@),
            av == vecs_view(args@),
            expand_args(mv, av, k as int, depth as int, vecs_view(acc@)) == expand_args(mv, av, 0, depth as int, Seq::empty()),
        decreases args@.len() - k,
    {
        assert(av[k as int] == args@[k as int]@);
        match expand_exec(ms, &args[k], depth) {
            None => return None,
            Some((o, c)) => {
                let piece = if c { o } else { copy_range(&args[k], 0, args[k].len()) };
                assert(args@[k as int]@.subrange(0, args@[k as int]@.len() as int) =~= args@[k as int]@);
                let ghost before = vecs_view(acc@);
                acc.push(piece);
                assert(vecs_view(acc@) =~= before.push(piece@));
            },
        }
        k = k + 1;
    }
    Some(acc)
}

fn expand_body_exec(ms: &Vec<FnMacro>, b: &Vec<char>, depth: usize) -> (r: Option<Vec<char>>)
    requires
        depth <= 33,
    ensures
        match expand_body(macros_view(ms@), b@, depth as int) {
            Some(v) => r matches Some(x) && x@ == v,
            None => r is None,
        },
    decreases 33 - depth as int, 1int, 0int,
{
    match expand_exec(ms, b, depth) {
        None => None,
        Some((o, c)) => {
            if c {
                Some(o)
            } else {
                let x = copy_range(b, 0, b.len());
                assert(b@.subrange(0, b@.len() as int) =~= b@);
                Some(x)
            }
        },
    }
}

/// An expression with its macro calls expanded; `None` when expansion fails.
pub fn expand_macros(ms: &Vec<FnMacro>, s: &str) -> (r: Option<String>)
    ensures
        match expanded(macros_view(ms@), s@) {
            Some(t) => r matches Some(x) && x@ == t,
            None => r is None,
        },
{
    let v = chars_of(s);
    match expand_exec(ms, &v, 0) {
        None => None,
        Some((o, c)) => {
            let n = o.len();
            let t = if c { crate::text::string_of(&o, 0, n) } else { crate::text::string_of(&v, 0, v.len()) };
            assert(o@.subrange(0, n as int) =~= o@);
            assert(v@.subrange(0, v@.len() as int) =~= v@);
            Some(t)
        },
    }
}

} // verus!
