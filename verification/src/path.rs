//! Filesystem paths as strings, joined the way `std::path::Path::join` joins
//! them on Unix.
use vstd::prelude::*;
use crate::text::{chars_of, push_str};

verus! {

/// `base.join(rel)`: an absolute `rel` replaces `base`; otherwise `rel` is
/// appended after a `/`, which is not doubled when `base` is empty or
/// already ends with one.
pub open spec fn path_join(base: Seq<char>, rel: Seq<char>) -> Seq<char> {
    if rel.len() > 0 && rel[0] == '/' {
        rel
    } else if base.len() == 0 || base.last() == '/' {
        base + rel
    } else {
        base + "/"@ + rel
    }
}

/// Join `rel` onto `base` as `Path::join` does.
pub fn join(base: &str, rel: &str) -> (r: String)
    ensures
        r@ == path_join(base@, rel@),
{
    let b = chars_of(base);
    let rv = chars_of(rel);
    if rv.len() > 0 && rv[0] == '/' {
        let mut r = String::new();
        push_str(&mut r, rel);
        return r;
    }
    let mut r = String::new();
    push_str(&mut r, base);
    if b.len() > 0 && b[b.len() - 1] != '/' {
        push_str(&mut r, "/");
    }
    push_str(&mut r, rel);
    proof {
        reveal_strlit("/");
    }
    r
}

/// The lowercase form of a string, as `str::to_lowercase` gives it (by the
/// Unicode `Lowercase` property).
pub uninterp spec fn lowercase(s: Seq<char>) -> Seq<char>;

/// `str::to_lowercase`.
#[verifier::external_body]
pub(crate) fn to_lowercase(s: &str) -> (r: String)
    ensures
        r@ == lowercase(s@),
{
    s.to_lowercase()
}

} // verus!
