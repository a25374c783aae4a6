//! Constants from assembly `equ` directives: `.equ NAME, value` (GNU) and
//! `NAME equ value` (armips), with `;` and `//` comments. A value may use
//! constants defined later; the directives are resolved in passes until a
//! pass defines nothing more. Names the table already knows are skipped.
use vstd::prelude::*;
use crate::c_parser::list_files::{before, ident_len, lemma_ident_len};
use crate::c_parser::symbol_table::{SymbolTable, SymView, resolve_panics, lookups_safe, lemma_lookups_safe, direct_resolved, deunicode_of, evaluated, evaluation_panics, lookup, resolved, starts_with};
use crate::error::UxieError;
use crate::text::{chars_of, find_from, find_in, is_ws, is_ident_start, is_ident_char, is_whitespace,
    is_ident_start_char, is_ident_continue_char, lines, next_line, piece_end, prefix_at, string_of,
    trim, trim_bounds, index_of};

verus! {

/// `s` before the first `p`; all of `s` when it has none.
pub open spec fn before_text(s: Seq<char>, p: Seq<char>) -> Seq<char> {
    match find_from(s, p, 0) {
        Some(k) => s.take(k as int),
        None => s,
    }
}

/// `.equ NAME, value` in a trimmed line.
pub open spec fn gnu_equ(l: Seq<char>) -> Option<(Seq<char>, Seq<char>)> {
    let r = l.skip(4);
    let t = trim(r);
    let n = ident_len(t);
    let rest = trim(t.skip(n as int));
    if starts_with(l, ".equ"@) && r.len() > 0 && is_ws(r[0]) && t.len() > 0 && is_ident_start(t[0])
        && rest.len() > 1 && rest[0] == ',' {
        Some((t.take(n as int), trim(rest.skip(1))))
    } else {
        None
    }
}

/// `NAME equ value` in a trimmed line.
pub open spec fn armips_equ(l: Seq<char>) -> Option<(Seq<char>, Seq<char>)> {
    let n = ident_len(l);
    let after = l.skip(n as int);
    let a2 = trim(after);
    let r3 = a2.skip(3);
    if l.len() > 0 && is_ident_start(l[0]) && after.len() > 0 && is_ws(after[0]) && starts_with(a2, "equ"@)
        && r3.len() > 0 && is_ws(r3[0]) && trim(r3).len() > 0 {
        Some((l.take(n as int), trim(r3)))
    } else {
        None
    }
}

/// The name and value of the directive on a line, if it holds one.
pub open spec fn equ_of(raw: Seq<char>) -> Option<(Seq<char>, Seq<char>)> {
    let l = trim(before_text(before(raw, ';'), "//"@));
    if l.len() == 0 {
        None
    } else {
        match gnu_equ(l) {
            Some(x) => Some(x),
            None => armips_equ(l),
        }
    }
}

/// The directives of some lines whose names the table `es` does not know,
/// in order.
/// The table with `n` defined as `v`.
pub open spec fn define_in(sv: SymView, n: Seq<char>, v: i64) -> SymView {
    SymView { entries: sv.entries.push((n, v)), pending: sv.pending, macros: sv.macros }
}

pub open spec fn pending_of(es: SymView, ls: Seq<Seq<char>>) -> Seq<(Seq<char>, Seq<char>)>
    decreases ls.len(),
{
    if ls.len() == 0 {
        Seq::empty()
    } else {
        let rest = pending_of(es, ls.drop_first());
        match equ_of(ls[0]) {
            Some((n, e)) => if resolved(es, n) is None { seq![(n, e)] + rest } else { rest },
            None => rest,
        }
    }
}

/// What one pass over the pending directives did: the table after it, the
/// directives still pending and how many it defined; or an overflow.
pub ghost enum PassOutcome {
    Done(SymView, Seq<(Seq<char>, Seq<char>)>, nat),
    Panic,
}

/// One pass, in order: a directive whose name is now known is dropped, one
/// whose value evaluates defines its name, the others stay.
pub open spec fn pass_run(es: SymView, ps: Seq<(Seq<char>, Seq<char>)>) -> PassOutcome
    decreases ps.len(),
{
    if ps.len() == 0 {
        PassOutcome::Done(es, Seq::empty(), 0)
    } else {
        let (n, e) = ps[0];
        if resolve_panics(es, n) {
            PassOutcome::Panic
        } else if resolved(es, n) is Some {
            pass_run(es, ps.drop_first())
        } else if evaluation_panics(es, e) {
            PassOutcome::Panic
        } else {
            match evaluated(es, e) {
                Some(v) => match pass_run(define_in(es, n, v), ps.drop_first()) {
                    PassOutcome::Done(es2, kept, c) => PassOutcome::Done(es2, kept, c + 1),
                    PassOutcome::Panic => PassOutcome::Panic,
                },
                None => match pass_run(es, ps.drop_first()) {
                    PassOutcome::Done(es2, kept, c) => PassOutcome::Done(es2, seq![(n, e)] + kept, c),
                    PassOutcome::Panic => PassOutcome::Panic,
                },
            }
        }
    }
}

pub proof fn lemma_pass_shrinks(es: SymView, ps: Seq<(Seq<char>, Seq<char>)>)
    ensures
        pass_run(es, ps) matches PassOutcome::Done(_, kept, c) ==> kept.len() + c <= ps.len(),
    decreases ps.len(),
{
    if ps.len() > 0 {
        let (n, e) = ps[0];
        lemma_pass_shrinks(es, ps.drop_first());
        if resolved(es, n) is None && !evaluation_panics(es, e) {
            if let Some(v) = evaluated(es, e) {
                lemma_pass_shrinks(define_in(es, n, v), ps.drop_first());
            }
        }
    }
}

/// Passes until one defines nothing or nothing is pending: the table after
/// them and how many were defined; or an overflow.
pub open spec fn resolve_pending(es: SymView, ps: Seq<(Seq<char>, Seq<char>)>) -> PassOutcome
    decreases ps.len(),
{
    if ps.len() == 0 {
        PassOutcome::Done(es, Seq::empty(), 0)
    } else {
        match pass_run(es, ps) {
            PassOutcome::Panic => PassOutcome::Panic,
            PassOutcome::Done(es2, kept, c) => if c == 0 || kept.len() == 0 {
                PassOutcome::Done(es2, kept, c)
            } else {
                proof {
                    lemma_pass_shrinks(es, ps);
                }
                match resolve_pending(es2, kept) {
                    PassOutcome::Done(es3, kept3, c3) => PassOutcome::Done(es3, kept3, c + c3),
                    PassOutcome::Panic => PassOutcome::Panic,
                }
            },
        }
    }
}

/// Loading the directives of some texts, all together, into a table
/// holding `es`.
pub open spec fn equ_load(es: SymView, texts: Seq<Seq<char>>) -> PassOutcome {
    resolve_pending(es, all_pending(es, texts))
}

pub open spec fn all_pending(es: SymView, texts: Seq<Seq<char>>) -> Seq<(Seq<char>, Seq<char>)>
    decreases texts.len(),
{
    if texts.len() == 0 {
        Seq::empty()
    } else {
        all_pending(es, texts.drop_last()) + pending_of(es, lines(texts.last()))
    }
}


/// Defining a name the table does not know leaves every constant it holds
/// as it was.
proof fn lemma_define_unknown_keeps(es: SymView, m: Seq<char>, v: i64, n: Seq<char>)
    requires
        direct_resolved(es.entries, n) is Some,
        resolved(es, m) is None,
    ensures
        direct_resolved(define_in(es, m, v).entries, n) == direct_resolved(es.entries, n),
{
    let e1 = es.entries;
    let e2 = define_in(es, m, v).entries;
    assert(e2.drop_last() =~= e1);
    assert(lookup(e2, n) == lookup(e1, n));
    if lookup(e1, n) is None {
        let d = deunicode_of(n);
        assert(lookup(e2, d) == lookup(e1, d));
    }
}

proof fn lemma_pass_keeps(es: SymView, ps: Seq<(Seq<char>, Seq<char>)>, n: Seq<char>)
    requires
        direct_resolved(es.entries, n) is Some,
    ensures
        pass_run(es, ps) matches PassOutcome::Done(es2, _, _) ==> direct_resolved(es2.entries, n) == direct_resolved(es.entries, n),
    decreases ps.len(),
{
    if ps.len() > 0 {
        let (m, e) = ps[0];
        if resolve_panics(es, m) {
        } else if resolved(es, m) is Some {
            lemma_pass_keeps(es, ps.drop_first(), n);
        } else if !evaluation_panics(es, e) {
            match evaluated(es, e) {
                Some(v) => {
                    lemma_define_unknown_keeps(es, m, v, n);
                    lemma_pass_keeps(define_in(es, m, v), ps.drop_first(), n);
                },
                None => {
                    lemma_pass_keeps(es, ps.drop_first(), n);
                },
            }
        }
    }
}

proof fn lemma_resolve_keeps(es: SymView, ps: Seq<(Seq<char>, Seq<char>)>, n: Seq<char>)
    requires
        direct_resolved(es.entries, n) is Some,
    ensures
        resolve_pending(es, ps) matches PassOutcome::Done(es2, _, _) ==> direct_resolved(es2.entries, n) == direct_resolved(es.entries, n),
    decreases ps.len(),
{
    if ps.len() > 0 {
        lemma_pass_keeps(es, ps, n);
        if let PassOutcome::Done(es2, kept, c) = pass_run(es, ps) {
            if c != 0 && kept.len() != 0 {
                lemma_pass_shrinks(es, ps);
                lemma_resolve_keeps(es2, kept, n);
            }
        }
    }
}

/// Loading `equ` directives never changes the value of a constant the table
/// already held: definitions from elsewhere take priority.
pub proof fn lemma_equ_load_keeps_known(es: SymView, texts: Seq<Seq<char>>, n: Seq<char>)
    requires
        direct_resolved(es.entries, n) is Some,
    ensures
        equ_load(es, texts) matches PassOutcome::Done(es2, _, _) ==> direct_resolved(es2.entries, n) == direct_resolved(es.entries, n)
            && resolved(es2, n) == resolved(es, n),
{
    lemma_resolve_keeps(es, all_pending(es, texts), n);
}

proof fn lemma_pass_appends(es: SymView, ps: Seq<(Seq<char>, Seq<char>)>)
    ensures
        pass_run(es, ps) matches PassOutcome::Done(es2, _, c) ==> es2.entries.len() == es.entries.len() + c
            && es2.entries.take(es.entries.len() as int) == es.entries && es2.pending == es.pending
            && es2.macros == es.macros,
    decreases ps.len(),
{
    if ps.len() == 0 {
        assert(es.entries.take(es.entries.len() as int) =~= es.entries);
    } else {
        let (m, e) = ps[0];
        if resolve_panics(es, m) {
        } else if resolved(es, m) is Some {
            lemma_pass_appends(es, ps.drop_first());
        } else if !evaluation_panics(es, e) {
            match evaluated(es, e) {
                Some(v) => {
                    let es1 = define_in(es, m, v);
                    lemma_pass_appends(es1, ps.drop_first());
                    if let PassOutcome::Done(es2, _, _) = pass_run(es1, ps.drop_first()) {
                        assert(es2.entries.take(es.entries.len() as int) =~= es2.entries.take(es1.entries.len() as int).take(es.entries.len() as int));
                        assert(es1.entries.take(es.entries.len() as int) =~= es.entries);
                    }
                },
                None => {
                    lemma_pass_appends(es, ps.drop_first());
                },
            }
        }
    }
}

proof fn lemma_resolve_appends(es: SymView, ps: Seq<(Seq<char>, Seq<char>)>)
    ensures
        resolve_pending(es, ps) matches PassOutcome::Done(es2, _, c) ==> es2.entries.len() == es.entries.len() + c
            && es2.entries.take(es.entries.len() as int) == es.entries && es2.pending == es.pending
            && es2.macros == es.macros,
    decreases ps.len(),
{
    if ps.len() == 0 {
        assert(es.entries.take(es.entries.len() as int) =~= es.entries);
    } else {
        lemma_pass_appends(es, ps);
        if let PassOutcome::Done(es2, kept, c) = pass_run(es, ps) {
            if c != 0 && kept.len() != 0 {
                lemma_pass_shrinks(es, ps);
                lemma_resolve_appends(es2, kept);
                if let PassOutcome::Done(es3, _, _) = resolve_pending(es2, kept) {
                    assert(es3.entries.take(es.entries.len() as int) =~= es3.entries.take(es2.entries.len() as int).take(es.entries.len() as int));
                }
            }
        }
    }
}

/// Loading `equ` directives only appends constants to the table, exactly
/// as many as the count it reports; the loaded `#define`s and macros stay.
pub proof fn lemma_equ_load_appends(es: SymView, texts: Seq<Seq<char>>)
    ensures
        equ_load(es, texts) matches PassOutcome::Done(es2, _, c) ==> es2.entries.len() == es.entries.len() + c
            && es2.entries.take(es.entries.len() as int) == es.entries && es2.pending == es.pending
            && es2.macros == es.macros,
{
    lemma_resolve_appends(es, all_pending(es, texts));
}

/// A found pattern lies inside the text.
proof fn lemma_find_from_bound(s: Seq<char>, p: Seq<char>, i: nat)
    ensures
        find_from(s, p, i) matches Some(k) ==> i <= k && k + p.len() <= s.len(),
    decreases s.len() - i,
{
    if !(i >= s.len() || i + p.len() > s.len()) && s.subrange(i as int, (i + p.len()) as int) != p {
        lemma_find_from_bound(s, p, i + 1);
    }
}

/// The end of the identifier characters that start `s[a..b]`.
fn ident_end(s: &Vec<char>, a: usize, b: usize) -> (k: usize)
    requires
        a <= b <= s@.len(),
    ensures
        a <= k <= b,
        k - a == ident_len(s@.subrange(a as int, b as int)),
        s@.subrange(a as int, b as int).take(k - a) == s@.subrange(a as int, k as int),
        s@.subrange(a as int, b as int).skip(k - a) == s@.subrange(k as int, b as int),
{
    let ghost t = s@.subrange(a as int, b as int);
    let mut k = a;
    while k < b && is_ident_continue_char(s[k])
        invariant
            a <= k <= b <= s@.len(),
            forall|i: int| a <= i < k ==> is_ident_char(#[trigger] s@[i]),
        decreases b - k,
    {
        k = k + 1;
    }
    proof {
        assert forall|i: int| 0 <= i < k - a implies is_ident_char(#[trigger] t[i]) by {
            assert(t[i] == s@[a + i]);
        }
        if k < b {
            assert(t[k - a] == s@[k as int]);
        }
        lemma_ident_len(t, (k - a) as nat);
        assert(t.take(k - a) =~= s@.subrange(a as int, k as int));
        assert(t.skip(k - a) =~= s@.subrange(k as int, b as int));
    }
    k
}

/// The name and value bounds of a GNU directive in the trimmed line `s[a..b]`.
fn gnu_at(s: &Vec<char>, a: usize, b: usize) -> (r: Option<(usize, usize, usize, usize)>)
    requires
        a <= b <= s@.len(),
    ensures
        match gnu_equ(s@.subrange(a as int, b as int)) {
            Some((name, value)) => r matches Some((na, nb, va, vb)) && na <= nb <= s@.len()
                && va <= vb <= s@.len() && s@.subrange(na as int, nb as int) == name
                && s@.subrange(va as int, vb as int) == value,
            None => r is None,
        },
{
    let ghost l = s@.subrange(a as int, b as int);
    let head = prefix_at(s, a, b, ".equ");
    proof {
        reveal_strlit(".equ");
        if a + 4 <= b {
            assert(s@.subrange(0, b as int).subrange(a as int, a + 4) =~= l.subrange(0, 4));
        }
    }
    if !head {
        return None;
    }
    let ghost r4 = l.skip(4);
    assert(r4 =~= s@.subrange(a + 4, b as int));
    if a + 4 == b || !is_whitespace(s[a + 4]) {
        return None;
    }
    let (c, d) = trim_bounds(s, a + 4, b);
    let ghost t = s@.subrange(c as int, d as int);
    if c == d || !is_ident_start_char(s[c]) {
        return None;
    }
    assert(t[0] == s@[c as int]);
    let k = ident_end(s, c, d);
    let (f, g) = trim_bounds(s, k, d);
    let ghost rest = s@.subrange(f as int, g as int);
    if g - f <= 1 || s[f] != ',' {
        proof {
            if g - f > 1 {
                assert(rest[0] == s@[f as int]);
            }
        }
        return None;
    }
    assert(rest[0] == s@[f as int]);
    let (h, i) = trim_bounds(s, f + 1, g);
    assert(rest.skip(1) =~= s@.subrange(f + 1, g as int));
    Some((c, k, h, i))
}

/// The name and value bounds of an armips directive in the trimmed line
/// `s[a..b]`.
fn armips_at(s: &Vec<char>, a: usize, b: usize) -> (r: Option<(usize, usize, usize, usize)>)
    requires
        a <= b <= s@.len(),
    ensures
        match armips_equ(s@.subrange(a as int, b as int)) {
            Some((name, value)) => r matches Some((na, nb, va, vb)) && na <= nb <= s@.len()
                && va <= vb <= s@.len() && s@.subrange(na as int, nb as int) == name
                && s@.subrange(va as int, vb as int) == value,
            None => r is None,
        },
{
    let ghost l = s@.subrange(a as int, b as int);
    if a == b || !is_ident_start_char(s[a]) {
        return None;
    }
    assert(l[0] == s@[a as int]);
    let k = ident_end(s, a, b);
    let ghost after = s@.subrange(k as int, b as int);
    if k == b || !is_whitespace(s[k]) {
        proof {
            if k < b {
                assert(after[0] == s@[k as int]);
            }
        }
        return None;
    }
    assert(after[0] == s@[k as int]);
    let (c, d) = trim_bounds(s, k, b);
    let ghost a2 = s@.subrange(c as int, d as int);
    let kw = prefix_at(s, c, d, "equ");
    proof {
        reveal_strlit("equ");
        if c + 3 <= d {
            assert(s@.subrange(0, d as int).subrange(c as int, c + 3) =~= a2.subrange(0, 3));
        }
    }
    if !kw {
        return None;
    }
    let ghost r3 = a2.skip(3);
    assert(r3 =~= s@.subrange(c + 3, d as int));
    if c + 3 == d || !is_whitespace(s[c + 3]) {
        return None;
    }
    let (f, g) = trim_bounds(s, c + 3, d);
    if f == g {
        return None;
    }
    Some((a, k, f, g))
}

/// The name and value bounds of the directive on the line `s[lo..hi]`.
fn equ_at(s: &Vec<char>, lo: usize, hi: usize) -> (r: Option<(usize, usize, usize, usize)>)
    requires
        lo <= hi <= s@.len(),
    ensures
        match equ_of(s@.subrange(lo as int, hi as int)) {
            Some((name, value)) => r matches Some((na, nb, va, vb)) && na <= nb <= s@.len()
                && va <= vb <= s@.len() && s@.subrange(na as int, nb as int) == name
                && s@.subrange(va as int, vb as int) == value,
            None => r is None,
        },
{
    let ghost raw = s@.subrange(lo as int, hi as int);
    let e1 = piece_end(s, lo, hi, ';');
    assert(before(raw, ';') =~= s@.subrange(lo as int, e1 as int));
    let found = find_in(s, lo, e1, "//");
    let e2 = match found {
        Some(k) => {
            proof {
                lemma_find_from_bound(s@.subrange(lo as int, e1 as int), "//"@, 0);
            }
            lo + k
        },
        None => e1,
    };
    proof {
        let p = s@.subrange(lo as int, e1 as int);
        assert(before_text(p, "//"@) =~= s@.subrange(lo as int, e2 as int));
    }
    let (a, b) = trim_bounds(s, lo, e2);
    if a == b {
        return None;
    }
    match gnu_at(s, a, b) {
        Some(x) => Some(x),
        None => armips_at(s, a, b),
    }
}

/// The directives pending, as text.
pub open spec fn pairs_view(v: Seq<(String, String)>) -> Seq<(Seq<char>, Seq<char>)> {
    v.map_values(|p: (String, String)| (p.0@, p.1@))
}

/// Add the directives of `content` whose names `table` does not know to
/// `pending`, in order.
fn collect_pending(table: &SymbolTable, content: &str, pending: &mut Vec<(String, String)>)
    requires
        lookups_safe(table.sv()),
    ensures
        pairs_view(final(pending)@) == pairs_view(old(pending)@) + pending_of(table.sv(), lines(content@)),
{
    let s = chars_of(content);
    let mut pos: usize = 0;
    assert(s@.skip(0) =~= s@);
    while pos < s.len()
        invariant
            s@ == content@,
            pos <= s@.len(),
            lookups_safe(table.sv()),
            pairs_view(pending@) + pending_of(table.sv(), lines(s@.skip(pos as int)))
                == pairs_view(old(pending)@) + pending_of(table.sv(), lines(content@)),
        decreases s@.len() - pos,
    {
        let (lo, hi, next) = next_line(&s, pos);
        let ghost ls = lines(s@.skip(pos as int));
        let ghost before_push = pairs_view(pending@);
        assert(ls[0] == s@.subrange(lo as int, hi as int));
        assert(ls.drop_first() =~= lines(s@.skip(next as int)));
        match equ_at(&s, lo, hi) {
            Some((na, nb, va, vb)) => {
                let name = string_of(&s, na, nb);
                proof {
                    lemma_lookups_safe(table.sv(), name@);
                }
                if table.resolve_constant(name.as_str()).is_none() {
                    let value = string_of(&s, va, vb);
                    let ghost item = (name@, value@);
                    pending.push((name, value));
                    assert(pairs_view(pending@) =~= before_push.push(item));
                    assert(before_push.push(item) + pending_of(table.sv(), ls.drop_first())
                        =~= before_push + (seq![item] + pending_of(table.sv(), ls.drop_first())));
                }
            },
            None => {},
        }
        if next == s.len() {
            assert(s@.skip(next as int) =~= Seq::<char>::empty());
        }
        pos = next;
    }
    assert(s@.skip(pos as int) =~= Seq::<char>::empty());
    assert(lines(s@.skip(pos as int)) =~= Seq::<Seq<char>>::empty());
    assert(pairs_view(pending@) + Seq::<(Seq<char>, Seq<char>)>::empty() =~= pairs_view(pending@));
}

/// A pass's outcome with some directives kept and some defined before it.
pub open spec fn after_kept(o: PassOutcome, kept: Seq<(Seq<char>, Seq<char>)>, c: nat) -> PassOutcome {
    match o {
        PassOutcome::Done(es, k, c2) => PassOutcome::Done(es, kept + k, c + c2),
        PassOutcome::Panic => PassOutcome::Panic,
    }
}

/// One pass over `pending`: returns the directives kept and how many it
/// defined.
fn run_pass(table: &mut SymbolTable, pending: Vec<(String, String)>) -> (r: (Vec<(String, String)>, usize))
    requires
        old(table).well_formed(),
        !(pass_run(old(table).sv(), pairs_view(pending@)) is Panic),
    ensures
        final(table).well_formed(),
        pass_run(old(table).sv(), pairs_view(pending@)) == PassOutcome::Done(final(table).sv(), pairs_view(r.0@), r.1 as nat),
{
    let ghost pv = pairs_view(pending@);
    let mut kept: Vec<(String, String)> = Vec::new();
    let mut count: usize = 0;
    let mut i: usize = 0;
    assert(pv.skip(0) =~= pv);
    assert(pairs_view(kept@) =~= Seq::<(Seq<char>, Seq<char>)>::empty());
    while i < pending.len()
        invariant
            pv == pairs_view(pending@),
            i <= pending@.len(),
            count <= i,
            table.well_formed(),
            pass_run(old(table).sv(), pv) == after_kept(pass_run(table.sv(), pv.skip(i as int)), pairs_view(kept@), count as nat),
            !(pass_run(old(table).sv(), pv) is Panic),
        decreases pending@.len() - i,
    {
        let ghost es = table.sv();
        let ghost rest = pv.skip(i as int);
        assert(rest[0] == pv[i as int]);
        assert(rest.drop_first() =~= pv.skip(i + 1));
        let name = &pending[i].0;
        let expr = &pending[i].1;
        if table.resolve_constant(name.as_str()).is_some() {
        } else {
            let ghost ko = pairs_view(kept@);
            match table.evaluate_expression(expr.as_str()) {
                Some(v) => {
                    table.insert_define(name.clone(), v);
                    count = count + 1;
                },
                None => {
                    let item = (name.clone(), expr.clone());
                    kept.push(item);
                    assert(pairs_view(kept@) =~= ko.push(pv[i as int]));
                    proof {
                        match pass_run(es, pv.skip(i + 1)) {
                            PassOutcome::Done(e2, k2, c2) => {
                                assert(ko + (seq![pv[i as int]] + k2) =~= ko.push(pv[i as int]) + k2);
                            },
                            PassOutcome::Panic => {},
                        }
                    }
                },
            }
        }
        i = i + 1;
    }
    assert(pv.skip(i as int) =~= Seq::<(Seq<char>, Seq<char>)>::empty());
    assert(pairs_view(kept@) + Seq::<(Seq<char>, Seq<char>)>::empty() =~= pairs_view(kept@));
    (kept, count)
}

/// A resolution's outcome with some directives defined before it.
pub open spec fn after_count(o: PassOutcome, c: nat) -> PassOutcome {
    match o {
        PassOutcome::Done(es, k, c2) => PassOutcome::Done(es, k, c + c2),
        PassOutcome::Panic => PassOutcome::Panic,
    }
}

/// Passes over `pending` until one defines nothing or nothing is left;
/// returns how many were defined.
fn resolve_all(table: &mut SymbolTable, pending: Vec<(String, String)>) -> (n: usize)
    requires
        old(table).well_formed(),
        !(resolve_pending(old(table).sv(), pairs_view(pending@)) is Panic),
    ensures
        final(table).well_formed(),
        match resolve_pending(old(table).sv(), pairs_view(pending@)) {
            PassOutcome::Done(es, _, c) => final(table).sv() == es && n == c,
            PassOutcome::Panic => false,
        },
{
    if pending.len() == 0 {
        return 0;
    }
    let ghost p0 = pairs_view(pending@);
    let ghost n0 = pending@.len();
    let mut work = pending;
    let mut total: usize = 0;
    loop
        invariant
            table.well_formed(),
            work@.len() > 0,
            total + work@.len() <= n0,
            n0 <= usize::MAX,
            after_count(resolve_pending(table.sv(), pairs_view(work@)), total as nat)
                == resolve_pending(old(table).sv(), p0),
            !(resolve_pending(old(table).sv(), p0) is Panic),
            p0 == pairs_view(pending@),
        decreases work@.len(),
    {
        let ghost es = table.sv();
        let ghost pv = pairs_view(work@);
        proof {
            lemma_pass_shrinks(es, pv);
        }
        let (kept, c) = run_pass(table, work);
        assert(pairs_view(kept@).len() == kept@.len());
        assert(pv.len() > 0);
        total = total + c;
        if c == 0 || kept.len() == 0 {
            assert(resolve_pending(es, pv) == PassOutcome::Done(table.sv(), pairs_view(kept@), c as nat));
            assert(resolve_pending(old(table).sv(), p0) == PassOutcome::Done(table.sv(), pairs_view(kept@), total as nat));
            return total;
        }
        work = kept;
    }
}

/// Define the `equ` directives of `content` (`source` names it) whose names
/// `symbols` does not know yet, resolving forward references in passes;
/// returns how many it defined. Directives whose values never evaluate are
/// left out.
pub fn parse_armips_equ_str(content: &str, source: &str, symbols: &mut SymbolTable) -> (r: Result<usize, UxieError>)
    requires
        old(symbols).well_formed(),
        lookups_safe(old(symbols).sv()),
        !(equ_load(old(symbols).sv(), seq![content@]) is Panic),
    ensures
        final(symbols).well_formed(),
        equ_load(old(symbols).sv(), seq![content@]) matches PassOutcome::Done(es, _, c)
            && r matches Ok(n) && n == c && final(symbols).sv() == es,
{
    let mut pending: Vec<(String, String)> = Vec::new();
    collect_pending(symbols, content, &mut pending);
    proof {
        let texts = seq![content@];
        assert(texts.drop_last() =~= Seq::<Seq<char>>::empty());
        assert(texts.last() == content@);
        assert(all_pending(old(symbols).sv(), texts.drop_last()) =~= Seq::<(Seq<char>, Seq<char>)>::empty());
        assert(pairs_view(Seq::<(String, String)>::empty()) =~= Seq::<(Seq<char>, Seq<char>)>::empty());
        assert(all_pending(old(symbols).sv(), texts) =~= pairs_view(pending@));
    }
    Ok(resolve_all(symbols, pending))
}

/// Define the `equ` directives of several texts (the `.s` and `.inc` files
/// of some directories), resolved together so that one text may refer to a
/// constant of another; returns how many it defined.
pub fn parse_armips_equ_texts(texts: &Vec<String>, symbols: &mut SymbolTable) -> (r: Result<usize, UxieError>)
    requires
        old(symbols).well_formed(),
        lookups_safe(old(symbols).sv()),
        !(equ_load(old(symbols).sv(), texts@.map_values(|t: String| t@)) is Panic),
    ensures
        final(symbols).well_formed(),
        equ_load(old(symbols).sv(), texts@.map_values(|t: String| t@)) matches PassOutcome::Done(es, _, c)
            && r matches Ok(n) && n == c && final(symbols).sv() == es,
{
    let ghost tv = texts@.map_values(|t: String| t@);
    let mut pending: Vec<(String, String)> = Vec::new();
    let mut j: usize = 0;
    assert(tv.take(0) =~= Seq::<Seq<char>>::empty());
    while j < texts.len()
        invariant
            j <= texts@.len(),
            tv == texts@.map_values(|t: String| t@),
            lookups_safe(symbols.sv()),
            pairs_view(pending@) == all_pending(symbols.sv(), tv.take(j as int)),
        decreases texts@.len() - j,
    {
        collect_pending(symbols, texts[j].as_str(), &mut pending);
        assert(tv.take(j + 1).drop_last() =~= tv.take(j as int));
        assert(tv.take(j + 1).last() == texts@[j as int]@);
        j = j + 1;
    }
    assert(tv.take(j as int) =~= tv);
    Ok(resolve_all(symbols, pending))
}

/// Whether a file with extension `ext` holds `equ` directives: `s` or `inc`,
/// in any case.
pub fn is_equ_source_extension(ext: &str) -> (b: bool)
    ensures
        b == (ext@.len() == 1 && (ext@[0] == 's' || ext@[0] == 'S')
            || ext@.len() == 3 && (ext@[0] == 'i' || ext@[0] == 'I') && (ext@[1] == 'n' || ext@[1] == 'N')
                && (ext@[2] == 'c' || ext@[2] == 'C')),
{
    let v = chars_of(ext);
    if v.len() == 1 {
        v[0] == 's' || v[0] == 'S'
    } else if v.len() == 3 {
        (v[0] == 'i' || v[0] == 'I') && (v[1] == 'n' || v[1] == 'N') && (v[2] == 'c' || v[2] == 'C')
    } else {
        false
    }
}

} // verus!
