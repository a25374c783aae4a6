//! Applying a fallible step to each item of a sequence, stopping at the
//! first error.
use vstd::prelude::*;

verus! {

/// `f` applied to each item with its index; the first error stops it.
pub open spec fn map_results<A, B>(s: Seq<A>, f: spec_fn(A, int) -> Result<B, Seq<char>>) -> Result<Seq<B>, Seq<char>>
    decreases s.len(),
{
    if s.len() == 0 {
        Ok(Seq::empty())
    } else {
        match map_results(s.drop_last(), f) {
            Err(e) => Err(e),
            Ok(r) => match f(s.last(), s.len() - 1) {
                Err(e) => Err(e),
                Ok(b) => Ok(r.push(b)),
            },
        }
    }
}

pub proof fn lemma_map_results_step<A, B>(s: Seq<A>, i: int, f: spec_fn(A, int) -> Result<B, Seq<char>>)
    requires
        0 <= i < s.len(),
    ensures
        map_results(s.take(i + 1), f) == match map_results(s.take(i), f) {
            Err(e) => Err(e),
            Ok(r) => match f(s[i], i) {
                Err(e) => Err(e),
                Ok(b) => Ok(r.push(b)),
            },
        },
{
    assert(s.take(i + 1).drop_last() =~= s.take(i));
}

/// Once an item fails, the whole list fails with its error.
pub proof fn lemma_map_results_stops<A, B>(s: Seq<A>, i: int, f: spec_fn(A, int) -> Result<B, Seq<char>>)
    requires
        0 <= i < s.len(),
        map_results(s.take(i + 1), f) is Err,
    ensures
        map_results(s, f) == map_results(s.take(i + 1), f),
    decreases s.len() - i,
{
    if i + 1 < s.len() {
        assert(s.drop_last().take(i + 1) =~= s.take(i + 1));
        lemma_map_results_stops(s.drop_last(), i, f);
    } else {
        assert(s.take(i + 1) =~= s);
    }
}


/// Where every item gives its value, the whole list gives them all.
pub proof fn lemma_map_results_all_ok<A, B>(s: Seq<A>, f: spec_fn(A, int) -> Result<B, Seq<char>>, g: Seq<B>)
    requires
        s.len() == g.len(),
        forall|i: int| 0 <= i < s.len() ==> f(#[trigger] s[i], i) == Ok::<B, Seq<char>>(g[i]),
    ensures
        map_results(s, f) == Ok::<Seq<B>, Seq<char>>(g),
    decreases s.len(),
{
    if s.len() > 0 {
        let (sd, gd) = (s.drop_last(), g.drop_last());
        assert forall|i: int| 0 <= i < sd.len() implies f(#[trigger] sd[i], i) == Ok::<B, Seq<char>>(gd[i]) by {
            assert(sd[i] == s[i] && gd[i] == g[i]);
        }
        lemma_map_results_all_ok(sd, f, gd);
        assert(f(s[s.len() - 1], s.len() - 1) == Ok::<B, Seq<char>>(g[g.len() - 1]));
        assert(gd.push(g.last()) =~= g);
    } else {
        assert(g =~= Seq::<B>::empty());
    }
}


/// When every step succeeds, item `i` of the result is what the step gave
/// for item `i`.
pub proof fn lemma_map_results_ok<A, B>(s: Seq<A>, f: spec_fn(A, int) -> Result<B, Seq<char>>)
    requires
        map_results(s, f) is Ok,
    ensures
        map_results(s, f)->Ok_0.len() == s.len(),
        forall|i: int| 0 <= i < s.len() ==> f(#[trigger] s[i], i) == Ok::<B, Seq<char>>(map_results(s, f)->Ok_0[i]),
    decreases s.len(),
{
    if s.len() > 0 {
        let pre = s.drop_last();
        lemma_map_results_ok(pre, f);
        let r = map_results(pre, f)->Ok_0;
        let all = map_results(s, f)->Ok_0;
        assert forall|i: int| 0 <= i < s.len() implies f(#[trigger] s[i], i) == Ok::<B, Seq<char>>(all[i]) by {
            if i < s.len() - 1 {
                assert(s[i] == pre[i]);
                assert(all[i] == r[i]);
            }
        }
    }
}

} // verus!
